//! The console text of a scan's outcome.

use crate::address::{address_text, format_address};
use vstd::prelude::*;

verus! {

/// The decimal digit `d` as a character.
pub open spec fn digit_char(d: nat) -> char {
    if d == 0 { '0' }
    else if d == 1 { '1' }
    else if d == 2 { '2' }
    else if d == 3 { '3' }
    else if d == 4 { '4' }
    else if d == 5 { '5' }
    else if d == 6 { '6' }
    else if d == 7 { '7' }
    else if d == 8 { '8' }
    else { '9' }
}

/// The decimal text of `n`, without leading zeros.
pub open spec fn decimal(n: nat) -> Seq<char>
    decreases n,
{
    if n < 10 {
        seq![digit_char(n)]
    } else {
        decimal(n / 10).push(digit_char(n % 10))
    }
}

/// The line that gives the number of pools found.
pub open spec fn count_line(n: nat) -> Seq<char> {
    "Found "@ + decimal(n) + " new liquidity pools!"@
}

/// The line that gives one pool's address text.
pub open spec fn address_line(text: Seq<char>) -> Seq<char> {
    "Pool Address: "@ + text
}

/// The line that reports a failed scan with description `desc`.
pub open spec fn error_line(desc: Seq<char>) -> Seq<char> {
    "Error fetching LP accounts: "@ + desc
}

/// The line printed once at startup.
pub open spec fn banner_line() -> Seq<char> {
    "Listening for new liquidity pools..."@
}

/// The report of a scan that found pools with address texts `texts`: the
/// count line, then one address line per pool, in the order given.
pub open spec fn found_report(texts: Seq<Seq<char>>) -> Seq<Seq<char>> {
    seq![count_line(texts.len())] + texts.map_values(|t: Seq<char>| address_line(t))
}

/// The text of the digit `d`.
fn digit_str(d: u64) -> (r: &'static str)
    requires
        d < 10,
    ensures
        r@ == seq![digit_char(d as nat)],
{
    proof {
        reveal_strlit("0");
        reveal_strlit("1");
        reveal_strlit("2");
        reveal_strlit("3");
        reveal_strlit("4");
        reveal_strlit("5");
        reveal_strlit("6");
        reveal_strlit("7");
        reveal_strlit("8");
        reveal_strlit("9");
    }
    if d == 0 { "0" }
    else if d == 1 { "1" }
    else if d == 2 { "2" }
    else if d == 3 { "3" }
    else if d == 4 { "4" }
    else if d == 5 { "5" }
    else if d == 6 { "6" }
    else if d == 7 { "7" }
    else if d == 8 { "8" }
    else { "9" }
}

/// Appends the decimal text of `n` to `out`.
pub fn push_decimal(out: &mut String, n: u64)
    ensures
        final(out)@ == old(out)@ + decimal(n as nat),
    decreases n,
{
    if n < 10 {
        out.append(digit_str(n));
    } else {
        push_decimal(out, n / 10);
        out.append(digit_str(n % 10));
        assert(decimal(n as nat) == decimal((n / 10) as nat).push(digit_char((n % 10) as nat)));
        assert(out@ =~= old(out)@ + decimal(n as nat));
    }
}

/// The line that gives the number `n` of pools found.
pub fn format_count_line(n: u64) -> (r: String)
    ensures
        r@ == count_line(n as nat),
{
    let mut r = String::from_str("Found ");
    push_decimal(&mut r, n);
    r.append(" new liquidity pools!");
    r
}

/// The report of a scan whose pools have address texts `texts`, in that order.
pub fn format_found(texts: &Vec<String>) -> (r: Vec<String>)
    ensures
        r@.map_values(|l: String| l@) == found_report(texts@.map_values(|t: String| t@)),
{
    let n: usize = texts.len();
    assert(n <= u64::MAX);
    let mut r: Vec<String> = Vec::new();
    r.push(format_count_line(n as u64));
    let mut i: usize = 0;
    while i < texts.len()
        invariant
            i <= texts@.len(),
            r@.len() == i + 1,
            r@[0]@ == count_line(texts@.len() as nat),
            forall|j: int| 0 <= j < i ==> (#[trigger] r@[j + 1])@ == address_line(texts@[j]@),
        decreases texts@.len() - i,
    {
        let line = String::from_str("Pool Address: ").concat(texts[i].as_str());
        r.push(line);
        i = i + 1;
    }
    let ghost want = found_report(texts@.map_values(|t: String| t@));
    assert(r@.map_values(|l: String| l@) =~= want) by {
        assert forall|j: int| 1 <= j < r@.len() implies #[trigger] r@[j]@ == want[j] by {
            assert(r@[(j - 1) + 1] == r@[j]);
        }
    }
    r
}

/// The report of a scan that found the pools with addresses `addresses`, in
/// that order.
pub fn report_found(addresses: &Vec<[u8; 32]>) -> (r: Vec<String>)
    ensures
        r@.map_values(|l: String| l@) == found_report(
            addresses@.map_values(|a: [u8; 32]| address_text(a@)),
        ),
{
    let mut texts: Vec<String> = Vec::new();
    let mut i: usize = 0;
    while i < addresses.len()
        invariant
            i <= addresses@.len(),
            texts@.len() == i,
            forall|j: int| 0 <= j < i ==> (#[trigger] texts@[j])@ == address_text(addresses@[j]@),
        decreases addresses@.len() - i,
    {
        texts.push(format_address(&addresses[i]));
        i = i + 1;
    }
    assert(texts@.map_values(|t: String| t@) =~= addresses@.map_values(
        |a: [u8; 32]| address_text(a@),
    ));
    format_found(&texts)
}

/// The line that reports a failed scan with description `desc`.
pub fn report_error(desc: &str) -> (r: String)
    ensures
        r@ == error_line(desc@),
{
    String::from_str("Error fetching LP accounts: ").concat(desc)
}

/// The line printed once at startup.
pub fn banner() -> (r: String)
    ensures
        r@ == banner_line(),
{
    String::from_str("Listening for new liquidity pools...")
}

} // verus!
