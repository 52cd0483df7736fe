//! Checks on the addresses that a server listens on.
use crate::errors::Error;
use vstd::prelude::*;
use vstd::string::StrSliceExecFns;

verus! {

/// Whether `s` holds a `host:port` separator.
pub fn has_port_separator(s: &str) -> (r: bool)
    ensures
        r == s@.contains(':'),
{
    let n = s.unicode_len();
    let mut i: usize = 0;
    while i < n
        invariant
            n == s@.len(),
            i <= n,
            forall|j: int| 0 <= j < i ==> s@[j] != ':',
        decreases n - i,
    {
        if s.get_char(i) == ':' {
            return true;
        }
        i = i + 1;
    }
    false
}

/// Accepts an address to listen on when it has a `host:port` separator;
/// otherwise fails with `InvalidAddress`, carrying the address.
pub fn validate_address(addr: &str) -> (r: Result<(), Error>)
    ensures
        r is Ok <==> addr@.contains(':'),
        r is Err ==> (r matches Err(Error::InvalidAddress(a)) && a@ == addr@),
{
    if has_port_separator(addr) {
        Ok(())
    } else {
        Err(Error::InvalidAddress(addr.to_owned()))
    }
}

} // verus!
