//! Splitting a `host:port` address.

use vstd::prelude::*;

use crate::text::{
    CharClass, chars_of, digits_value, digits_within, find_last, is_digit,
    last_index, lemma_last_index, lemma_trim_end, lemma_trim_start, parse_unsigned, trim_bounds,
    trim_end, trim_start, unsigned_in,
};

verus! {

/// Why an address is not of the form `host:port`.
#[derive(Debug, Clone, Copy, PartialEq, Eq, Structural)]
pub enum AddressError {
    /// The address holds no `:`.
    MissingSeparator,
    /// What follows the last `:` is not a port number (a `u16`).
    InvalidPort,
}

/// The position of the `:` that separates host and port: the last one.
pub open spec fn separator_index(address: Seq<char>) -> int {
    last_index(address, ':')
}

/// The host: what precedes the separator, without leading `[`s and then without trailing `]`s.
pub open spec fn host_of(address: Seq<char>) -> Seq<char> {
    trim_end(
        trim_start(address.take(separator_index(address)), CharClass::Is('[')),
        CharClass::Is(']'),
    )
}

/// The port text: from the separator on, without leading `:`s.
pub open spec fn port_text_of(address: Seq<char>) -> Seq<char> {
    trim_start(address.skip(separator_index(address)), CharClass::Is(':'))
}

/// The port, when the port text is one that `str::parse::<u16>` accepts.
pub open spec fn port_of(address: Seq<char>) -> Option<int> {
    parse_unsigned(port_text_of(address), 0xffff)
}

/// The outcome of splitting `address`.
pub open spec fn host_port_of(address: Seq<char>) -> Result<(Seq<char>, u16), AddressError> {
    if separator_index(address) < 0 {
        Err(AddressError::MissingSeparator)
    } else {
        match port_of(address) {
            Some(p) => Ok((host_of(address), p as u16)),
            None => Err(AddressError::InvalidPort),
        }
    }
}

/// Splits `address` at its last `:` into a host, stripped of enclosing
/// brackets, and a port; says which part is wrong when it cannot.
pub fn parse_host_port(address: &str) -> (r: Result<(&str, u16), AddressError>)
    ensures
        match r {
            Ok((host, port)) => host_port_of(address@) == Ok::<(Seq<char>, u16), AddressError>(
                (host@, port),
            ),
            Err(e) => host_port_of(address@) == Err::<(Seq<char>, u16), AddressError>(e),
        },
{
    let v = chars_of(address);
    let ghost s = address@;
    match find_last(&v, ':') {
        None => Err(AddressError::MissingSeparator),
        Some(i) => {
            let (ps, pe) = trim_bounds(&v, i, v.len(), CharClass::Is(':'), true);
            proof {
                assert(v@.subrange(i as int, v@.len() as int) =~= s.skip(i as int));
            }
            match unsigned_in(&v, ps, pe, 0xffff) {
                None => Err(AddressError::InvalidPort),
                Some(n) => {
                    let (hs, i2) = trim_bounds(&v, 0, i, CharClass::Is('['), true);
                    let (hs2, he) = trim_bounds(&v, hs, i2, CharClass::Is(']'), false);
                    proof {
                        assert(v@.subrange(0, i as int) =~= s.take(i as int));
                    }
                    let host = address.substring_char(hs2, he);
                    Ok((host, n as u16))
                },
            }
        },
    }
}

/// Whether `address` has the form `host:port`.
pub open spec fn is_host_port(address: Seq<char>) -> bool {
    host_port_of(address) is Ok
}

/// Splits `address` at its last `:` into a host, stripped of enclosing
/// brackets, and a port; as in `"[::1]:5000"`, which gives `("::1", 5000)`.
pub fn split_host_port(address: &str) -> (r: (&str, u16))
    requires
        is_host_port(address@),
    ensures
        host_port_of(address@) == Ok::<(Seq<char>, u16), AddressError>((r.0@, r.1)),
{
    match parse_host_port(address) {
        Ok(r) => r,
        Err(_) => {
            proof {
                assert(false);
            }
            (address, 0)
        },
    }
}

/// An address written as a host, a `:` and a port number splits back into
/// that host, stripped of enclosing brackets, and that port, whatever `:`s
/// the host holds.
pub proof fn lemma_split_written_address(host: Seq<char>, digits: Seq<char>)
    requires
        digits_within(digits, 0xffff),
    ensures
        host_port_of(host + seq![':'] + digits) == Ok::<(Seq<char>, u16), AddressError>(
            (
                trim_end(trim_start(host, CharClass::Is('[')), CharClass::Is(']')),
                digits_value(digits) as u16,
            ),
        ),
{
    let a = host + seq![':'] + digits;
    let k = host.len() as int;
    assert(a[k] == ':');
    assert forall|j: int| k < j < a.len() implies #[trigger] a[j] != ':' by {
        assert(a[j] == digits[j - k - 1]);
        assert(is_digit(digits[j - k - 1]));
    }
    lemma_last_index(a, ':', k);
    assert(a.take(k) =~= host);
    let rest = a.skip(k);
    assert(rest =~= seq![':'] + digits);
    assert(rest[1] == digits[0]);
    assert(is_digit(digits[0]));
    lemma_trim_start(rest, CharClass::Is(':'), 1);
    assert(rest.skip(1) =~= digits);
}

/// An address written as `[host]:port`, the host neither starting with `[`
/// nor ending with `]`, splits back into that host and port.
pub proof fn lemma_split_bracketed_address(host: Seq<char>, digits: Seq<char>)
    requires
        digits_within(digits, 0xffff),
        host.len() > 0 ==> host[0] != '[' && host.last() != ']',
    ensures
        host_port_of(seq!['['] + host + seq![']', ':'] + digits) == Ok::<
            (Seq<char>, u16),
            AddressError,
        >((host, digits_value(digits) as u16)),
{
    let b = seq!['['] + host + seq![']'];
    assert(seq!['['] + host + seq![']', ':'] + digits =~= b + seq![':'] + digits);
    lemma_split_written_address(b, digits);
    let c = host + seq![']'];
    assert(b[1] == c[0]);
    lemma_trim_start(b, CharClass::Is('['), 1);
    assert(b.skip(1) =~= c);
    if host.len() > 0 {
        assert(c[host.len() - 1] == host.last());
    }
    lemma_trim_end(c, CharClass::Is(']'), host.len() as int);
    assert(c.take(host.len() as int) =~= host);
}

} // verus!
