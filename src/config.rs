//! The startup configuration: the provider's endpoint and the program whose
//! accounts are scanned.

use crate::address::{decoded_address, is_base58_char, parse_address};
use crate::filter::{is_pool_filters, pool_scan, DataEncoding, ScanRequest};
use vstd::prelude::*;

verus! {

/// A validated configuration.
pub struct Config {
    /// The endpoint URL of the data provider.
    pub rpc_url: String,
    /// The address of the program that owns the pool accounts.
    pub program: [u8; 32],
}

/// Why a configuration was refused.
#[derive(PartialEq, Eq, Structural, Clone, Copy, Debug)]
pub enum ConfigError {
    /// The endpoint URL is not set.
    MissingRpcUrl,
    /// The program address is not set.
    MissingProgram,
    /// The program address is not the text of a 32-byte address.
    MalformedProgram,
}

/// Whether text `s` is plainly no address: empty, longer than any base58 text
/// of 32 bytes, or holding a character outside the base58 alphabet.
pub open spec fn plainly_malformed(s: Seq<char>) -> bool {
    ||| s.len() == 0
    ||| s.len() > 44
    ||| exists|i: int| 0 <= i < s.len() && !is_base58_char(#[trigger] s[i])
}

impl Config {
    /// Validates the two configuration values, the endpoint URL first.
    pub fn from_values(rpc_url: Option<String>, program: Option<String>) -> (r: Result<
        Config,
        ConfigError,
    >)
        ensures
            rpc_url is None ==> r == Err::<Config, ConfigError>(ConfigError::MissingRpcUrl),
            rpc_url is Some && program is None ==> r == Err::<Config, ConfigError>(
                ConfigError::MissingProgram,
            ),
            rpc_url is Some && program is Some ==> match decoded_address(program->Some_0@) {
                None => r == Err::<Config, ConfigError>(ConfigError::MalformedProgram),
                Some(b) => r is Ok && r->Ok_0.rpc_url@ == rpc_url->Some_0@ && r->Ok_0.program@
                    == b,
            },
            rpc_url is Some && program is Some && plainly_malformed(program->Some_0@) ==> r
                == Err::<Config, ConfigError>(ConfigError::MalformedProgram),
    {
        let rpc_url = match rpc_url {
            Some(u) => u,
            None => return Err(ConfigError::MissingRpcUrl),
        };
        let program = match program {
            Some(p) => p,
            None => return Err(ConfigError::MissingProgram),
        };
        match parse_address(program.as_str()) {
            Some(b) => Ok(Config { rpc_url, program: b }),
            None => Err(ConfigError::MalformedProgram),
        }
    }

    /// The pool scan of the configured program.
    pub fn scan_request(&self) -> (r: ScanRequest)
        ensures
            r.program == self.program,
            is_pool_filters(r.filters@),
            r.encoding == DataEncoding::Base64,
    {
        pool_scan(self.program)
    }
}

} // verus!
