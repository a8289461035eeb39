//! The account filters of a pool scan, and the little-endian encoding of the
//! liquidity threshold that one of them compares against.

use vstd::prelude::*;

verus! {

/// Exact length in bytes of the account data of a liquidity pool.
pub const POOL_DATA_SIZE: u64 = 165;

/// Byte offset of the liquidity field in a pool's account data.
pub const MIN_LIQUIDITY_OFFSET: usize = 96;

/// The liquidity (in lamports) that the scanned field must hold.
pub const MIN_LIQUIDITY: u64 = 5_000_000_000;

/// The `n` low bytes of `v`, least significant first.
pub open spec fn le_bytes(v: nat, n: nat) -> Seq<u8>
    decreases n,
{
    if n == 0 {
        Seq::empty()
    } else {
        seq![(v % 256) as u8].add(le_bytes(v / 256, (n - 1) as nat))
    }
}

/// The number that bytes `b` encode, least significant first.
pub open spec fn le_value(b: Seq<u8>) -> nat
    decreases b.len(),
{
    if b.len() == 0 {
        0
    } else {
        (b[0] as nat + 256 * le_value(b.drop_first())) as nat
    }
}

/// Decoding the little-endian bytes of a value that fits in `n` bytes gives
/// the value back.
pub proof fn lemma_le_round_trip(v: nat, n: nat)
    requires
        v < pow256(n),
    ensures
        le_bytes(v, n).len() == n,
        le_value(le_bytes(v, n)) == v,
    decreases n,
{
    if n > 0 {
        let b = le_bytes(v, n);
        assert(v / 256 < pow256((n - 1) as nat)) by (nonlinear_arith)
            requires
                v < pow256(n),
                pow256(n) == 256 * pow256((n - 1) as nat),
        ;
        lemma_le_round_trip(v / 256, (n - 1) as nat);
        assert(b.drop_first() =~= le_bytes(v / 256, (n - 1) as nat));
        assert(v == v % 256 + 256 * (v / 256)) by (nonlinear_arith);
    }
}

/// 256 to the power `n`.
pub open spec fn pow256(n: nat) -> nat
    decreases n,
{
    if n == 0 {
        1
    } else {
        256 * pow256((n - 1) as nat)
    }
}

/// Decoding the eight bytes that `u64_to_le_bytes` gives for `v` with
/// `u64_from_le_bytes` gives `v` back.
pub proof fn lemma_u64_le_round_trip(v: u64)
    ensures
        le_bytes(v as nat, 8).len() == 8,
        le_value(le_bytes(v as nat, 8)) == v,
{
    reveal_with_fuel(pow256, 9);
    lemma_le_round_trip(v as nat, 8);
}

/// The eight bytes of `v`, least significant first.
pub fn u64_to_le_bytes(v: u64) -> (r: Vec<u8>)
    ensures
        r@ == le_bytes(v as nat, 8),
{
    let mut r: Vec<u8> = Vec::new();
    let mut rest: u64 = v;
    let mut i: usize = 0;
    while i < 8
        invariant
            i <= 8,
            r@ + le_bytes(rest as nat, (8 - i) as nat) == le_bytes(v as nat, 8),
        decreases 8 - i,
    {
        let ghost before = r@;
        r.push((rest % 256) as u8);
        proof {
            let tail = le_bytes(rest as nat / 256, (8 - i - 1) as nat);
            assert(le_bytes(rest as nat, (8 - i) as nat) == seq![(rest as nat % 256) as u8].add(
                tail,
            ));
            assert(r@ + tail =~= before + le_bytes(rest as nat, (8 - i) as nat));
        }
        rest = rest / 256;
        i = i + 1;
    }
    assert(r@ + le_bytes(rest as nat, 0) =~= r@);
    r
}

/// The number that the eight bytes `b` encode, least significant first.
pub fn u64_from_le_bytes(b: &[u8]) -> (r: u64)
    requires
        b@.len() == 8,
    ensures
        r as nat == le_value(b@),
{
    let mut r: u64 = 0;
    let mut i: usize = 8;
    while i > 0
        invariant
            i <= 8,
            b@.len() == 8,
            r as nat == le_value(b@.subrange(i as int, 8)),
            r < pow256((8 - i) as nat),
        decreases i,
    {
        i = i - 1;
        proof {
            let s = b@.subrange(i as int, 8);
            assert(s.drop_first() =~= b@.subrange(i + 1, 8));
            assert(pow256((8 - i) as nat) == 256 * pow256((8 - i - 1) as nat));
            reveal_with_fuel(pow256, 9);
            assert(pow256(7) == 0x100000000000000nat);
        }
        assert(r * 256 + b[i as int] < pow256((8 - i) as nat)) by (nonlinear_arith)
            requires
                r < pow256((8 - i - 1) as nat),
                pow256((8 - i) as nat) == 256 * pow256((8 - i - 1) as nat),
                b[i as int] < 256,
        ;
        assert(pow256((8 - i) as nat) <= 0x10000000000000000) by {
            reveal_with_fuel(pow256, 9);
        }
        r = r * 256 + b[i] as u64;
    }
    assert(b@.subrange(0, 8) =~= b@);
    r
}

/// A condition on an account that the data provider applies in a scan.
pub enum AccountFilter {
    /// The account data is exactly this many bytes long.
    DataSize(u64),
    /// The account data holds `bytes` from byte `offset` on.
    Memcmp { offset: usize, bytes: Vec<u8> },
}

impl AccountFilter {
    /// Whether account data `data` meets this filter.
    pub open spec fn spec_admits(&self, data: Seq<u8>) -> bool {
        match self {
            AccountFilter::DataSize(n) => data.len() == *n as nat,
            AccountFilter::Memcmp { offset, bytes } => *offset as nat + bytes@.len() <= data.len()
                && data.subrange(*offset as int, *offset as int + bytes@.len()) == bytes@,
        }
    }

    /// Whether account data `data` meets this filter.
    #[verifier::loop_isolation(false)]
    pub fn admits(&self, data: &[u8]) -> (r: bool)
        ensures
            r == self.spec_admits(data@),
    {
        match self {
            AccountFilter::DataSize(n) => data.len() as u64 == *n,
            AccountFilter::Memcmp { offset, bytes } => {
                let off: usize = *offset;
                if bytes.len() > data.len() || off > data.len() - bytes.len() {
                    return false;
                }
                let mut i: usize = 0;
                while i < bytes.len()
                    invariant
                        i <= bytes@.len(),
                        off as nat + bytes@.len() <= data@.len(),
                        forall|j: int| 0 <= j < i ==> data@[off + j] == bytes@[j],
                    decreases bytes@.len() - i,
                {
                    if data[off + i] != bytes[i] {
                        assert(data@.subrange(off as int, off + bytes@.len())[i as int]
                            != bytes@[i as int]);
                        return false;
                    }
                    i = i + 1;
                }
                assert(data@.subrange(off as int, off + bytes@.len()) =~= bytes@);
                true
            },
        }
    }
}

/// Whether account data `data` meets every filter of `filters`.
pub open spec fn admits_all(filters: Seq<AccountFilter>, data: Seq<u8>) -> bool {
    forall|i: int| 0 <= i < filters.len() ==> #[trigger] filters[i].spec_admits(data)
}

/// The eight bytes of the liquidity threshold, least significant first.
pub open spec fn min_liquidity_bytes() -> Seq<u8> {
    seq![0u8, 242u8, 5u8, 42u8, 1u8, 0u8, 0u8, 0u8]
}

/// The filters of a pool scan: the data is exactly `POOL_DATA_SIZE` bytes
/// long, and holds the little-endian bytes of `MIN_LIQUIDITY` at
/// `MIN_LIQUIDITY_OFFSET`.
pub open spec fn is_pool_filters(f: Seq<AccountFilter>) -> bool {
    &&& f.len() == 2
    &&& f[0] is DataSize && f[0]->DataSize_0 == POOL_DATA_SIZE
    &&& f[1] is Memcmp && f[1]->Memcmp_offset == MIN_LIQUIDITY_OFFSET
    &&& f[1]->Memcmp_bytes@ == le_bytes(MIN_LIQUIDITY as nat, 8)
}

/// The little-endian bytes of the threshold are `0, 242, 5, 42, 1, 0, 0, 0`,
/// and they decode to the threshold again.
pub proof fn lemma_min_liquidity_bytes()
    ensures
        le_bytes(MIN_LIQUIDITY as nat, 8) == min_liquidity_bytes(),
        le_value(min_liquidity_bytes()) == MIN_LIQUIDITY,
{
    reveal_with_fuel(le_bytes, 9);
    assert(le_bytes(MIN_LIQUIDITY as nat, 8) =~= min_liquidity_bytes());
    lemma_u64_le_round_trip(MIN_LIQUIDITY);
}

/// The filters of a pool scan.
pub fn pool_filters() -> (r: Vec<AccountFilter>)
    ensures
        is_pool_filters(r@),
        r@[1]->Memcmp_bytes@ == min_liquidity_bytes(),
{
    proof {
        lemma_min_liquidity_bytes();
    }
    let mut r: Vec<AccountFilter> = Vec::new();
    r.push(AccountFilter::DataSize(POOL_DATA_SIZE));
    r.push(AccountFilter::Memcmp { offset: MIN_LIQUIDITY_OFFSET, bytes: u64_to_le_bytes(MIN_LIQUIDITY) });
    r
}

/// Whether account data `data` meets every filter of `filters`.
pub fn admits_all_filters(filters: &Vec<AccountFilter>, data: &[u8]) -> (r: bool)
    ensures
        r == admits_all(filters@, data@),
{
    let mut i: usize = 0;
    while i < filters.len()
        invariant
            i <= filters@.len(),
            forall|j: int| 0 <= j < i ==> #[trigger] filters@[j].spec_admits(data@),
        decreases filters@.len() - i,
    {
        if !filters[i].admits(data) {
            return false;
        }
        i = i + 1;
    }
    true
}

/// Every account that the pool filters admit is `POOL_DATA_SIZE` bytes long,
/// and the eight bytes at `MIN_LIQUIDITY_OFFSET` read as `MIN_LIQUIDITY`.
pub proof fn lemma_pool_filters_admit(filters: Seq<AccountFilter>, data: Seq<u8>)
    requires
        is_pool_filters(filters),
        admits_all(filters, data),
    ensures
        data.len() == POOL_DATA_SIZE,
        le_value(data.subrange(MIN_LIQUIDITY_OFFSET as int, MIN_LIQUIDITY_OFFSET + 8))
            == MIN_LIQUIDITY,
{
    assert(filters[0].spec_admits(data));
    assert(filters[1].spec_admits(data));
    lemma_min_liquidity_bytes();
}

/// The encoding in which the provider is asked to return account data.
#[derive(PartialEq, Eq, Structural, Clone, Copy, Debug)]
pub enum DataEncoding {
    Base64,
}

/// A request for the accounts of a program that meet every filter.
pub struct ScanRequest {
    /// The address of the program that owns the accounts.
    pub program: [u8; 32],
    /// The conditions that every returned account meets.
    pub filters: Vec<AccountFilter>,
    /// The encoding of the returned account data.
    pub encoding: DataEncoding,
}

/// The pool scan of the accounts of `program`: the pool filters, with the
/// data returned in base64.
pub fn pool_scan(program: [u8; 32]) -> (r: ScanRequest)
    ensures
        r.program == program,
        is_pool_filters(r.filters@),
        r.encoding == DataEncoding::Base64,
{
    ScanRequest { program, filters: pool_filters(), encoding: DataEncoding::Base64 }
}

} // verus!
