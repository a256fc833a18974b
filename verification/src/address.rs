//! Host and port texts.
use vstd::prelude::*;
use vstd::string::*;

use crate::error::{DcpError, DcpFault, Result};
use crate::text::{
    dec, dec_text, first_index, is_solid, join3, join4, last_index, parse_number, parsed, quoted,
    quoted_text, solid, NumberFault,
};

verus! {

/// What went wrong while reading a number.
pub open spec fn number_complaint(fault: NumberFault) -> Seq<char> {
    match fault {
        NumberFault::Empty => "cannot parse integer from empty string"@,
        NumberFault::InvalidDigit => "invalid digit found in string"@,
        NumberFault::TooLarge => "number too large to fit in target type"@,
    }
}

/// Renders what went wrong while reading a number.
pub fn number_complaint_text(fault: NumberFault) -> (result: &'static str)
    ensures
        result@ == number_complaint(fault),
{
    match fault {
        NumberFault::Empty => "cannot parse integer from empty string",
        NumberFault::InvalidDigit => "invalid digit found in string",
        NumberFault::TooLarge => "number too large to fit in target type",
    }
}

/// Complaint about one endpoint text.
pub open spec fn endpoint_fault(head: Seq<char>, original: Seq<char>, tail: Seq<char>) -> DcpFault {
    DcpFault::Topology(head + quoted(original) + tail)
}

fn endpoint_error(head: &str, original: &str, tail: &str) -> (result: DcpError)
    ensures
        result@ == endpoint_fault(head@, original@, tail@),
{
    DcpError::Topology(join3(head, quoted_text(original).as_str(), tail))
}

/// A checked host together with its port.
pub open spec fn host_and_port(host: Seq<char>, port: Seq<char>, original: Seq<char>) -> std::result::Result<
    (Seq<char>, u16),
    DcpFault,
> {
    if host.len() == 0 || !solid(host) {
        Err(endpoint_fault("endpoint "@, original, " has an invalid host"@))
    } else {
        match parsed(port, 10, 65535) {
            Err(e) => Err(
                DcpFault::Topology(
                    "endpoint "@ + quoted(original) + " has an invalid port: "@ + number_complaint(
                        e,
                    ),
                ),
            ),
            Ok(p) => if p == 0 {
                Err(endpoint_fault("endpoint "@, original, " has port zero"@))
            } else {
                Ok((host, p as u16))
            },
        }
    }
}

/// Host and port of an endpoint text; an IPv6 host is written in brackets.
pub open spec fn split(address: Seq<char>) -> std::result::Result<(Seq<char>, u16), DcpFault> {
    if address.len() > 0 && address[0] == '[' {
        let inner = address.drop_first();
        match inner.index_of_first(']') {
            None => Err(endpoint_fault("invalid bracketed endpoint "@, address, ""@)),
            Some(end) => {
                let rest = inner.skip(end + 1);
                if rest.len() == 0 || rest[0] != ':' {
                    Err(endpoint_fault("endpoint "@, address, " has no port"@))
                } else {
                    host_and_port(inner.take(end), rest.drop_first(), address)
                }
            },
        }
    } else {
        match address.index_of_last(':') {
            None => Err(endpoint_fault("endpoint "@, address, " has no port"@)),
            Some(at) => if address.take(at).contains(':') {
                Err(endpoint_fault("IPv6 endpoint "@, address, " must use brackets"@))
            } else {
                host_and_port(address.take(at), address.skip(at + 1), address)
            },
        }
    }
}

fn parse_host_port<'a>(host: &'a str, port: &str, original: &str) -> (result: Result<(&'a str, u16)>)
    ensures
        match result {
            Ok(v) => host_and_port(host@, port@, original@) == Ok::<(Seq<char>, u16), DcpFault>(
                (v.0@, v.1),
            ),
            Err(e) => host_and_port(host@, port@, original@) == Err::<(Seq<char>, u16), DcpFault>(
                e@,
            ),
        },
{
    if host.is_empty() || !is_solid(host) {
        return Err(endpoint_error("endpoint ", original, " has an invalid host"));
    }
    match parse_number(port, 10, 65535) {
        Err(fault) => Err(
            DcpError::Topology(
                join4(
                    "endpoint ",
                    quoted_text(original).as_str(),
                    " has an invalid port: ",
                    number_complaint_text(fault),
                ),
            ),
        ),
        Ok(value) => {
            if value == 0 {
                return Err(endpoint_error("endpoint ", original, " has port zero"));
            }
            Ok((host, value as u16))
        },
    }
}

/// Splits an endpoint text into host and port.
pub fn split_endpoint(address: &str) -> (result: Result<(&str, u16)>)
    ensures
        match result {
            Ok(v) => split(address@) == Ok::<(Seq<char>, u16), DcpFault>((v.0@, v.1)),
            Err(e) => split(address@) == Err::<(Seq<char>, u16), DcpFault>(e@),
        },
{
    let n: usize = address.unicode_len();
    if n > 0 && address.get_char(0) == '[' {
        let inner = address.substring_char(1, n);
        assert(inner@ =~= address@.drop_first());
        match first_index(inner, ']') {
            None => {
                let e = endpoint_error("invalid bracketed endpoint ", address, "");
                Err(e)
            },
            Some(end) => {
                let rest = inner.substring_char(end + 1, n - 1);
                assert(rest@ =~= inner@.skip(end + 1));
                if rest.is_empty() || rest.get_char(0) != ':' {
                    return Err(endpoint_error("endpoint ", address, " has no port"));
                }
                let host = inner.substring_char(0, end);
                assert(host@ =~= inner@.take(end as int));
                let port = rest.substring_char(1, n - 2 - end);
                assert(port@ =~= rest@.drop_first());
                parse_host_port(host, port, address)
            },
        }
    } else {
        match last_index(address, ':') {
            None => Err(endpoint_error("endpoint ", address, " has no port")),
            Some(at) => {
                let host = address.substring_char(0, at);
                assert(host@ =~= address@.take(at as int));
                let port = address.substring_char(at + 1, n);
                assert(port@ =~= address@.skip(at + 1));
                if first_index(host, ':').is_some() {
                    assert(host@.contains(':')) by {
                        host@.index_of_first_ensures(':');
                    }
                    return Err(endpoint_error("IPv6 endpoint ", address, " must use brackets"));
                }
                parse_host_port(host, port, address)
            },
        }
    }
}

/// A host without the brackets around it, if both are there.
pub open spec fn unbracketed(host: Seq<char>) -> Seq<char> {
    if host.len() >= 2 && host[0] == '[' && host.last() == ']' {
        host.subrange(1, host.len() - 1)
    } else {
        host
    }
}

/// Endpoint text of a host and a port.
pub open spec fn formatted(host: Seq<char>, port: u16) -> std::result::Result<Seq<char>, DcpFault> {
    let bare = unbracketed(host);
    if bare.len() == 0 || !solid(bare) {
        Err(DcpFault::Topology("invalid KV endpoint hostname "@ + quoted(bare)))
    } else if bare.contains(':') {
        Ok("["@ + bare + "]:"@ + dec(port as nat))
    } else {
        Ok(bare + ":"@ + dec(port as nat))
    }
}

/// Formats an endpoint text, adding brackets around an IPv6 host.
pub fn format_endpoint(host: &str, port: u16) -> (result: Result<String>)
    ensures
        match result {
            Ok(s) => formatted(host@, port) == Ok::<Seq<char>, DcpFault>(s@),
            Err(e) => formatted(host@, port) == Err::<Seq<char>, DcpFault>(e@),
        },
{
    let n: usize = host.unicode_len();
    let bare: &str = if n >= 2 && host.get_char(0) == '[' && host.get_char(n - 1) == ']' {
        host.substring_char(1, n - 1)
    } else {
        host
    };
    assert(bare@ == unbracketed(host@));
    if bare.is_empty() || !is_solid(bare) {
        return Err(
            DcpError::Topology(
                crate::text::join2("invalid KV endpoint hostname ", quoted_text(bare).as_str()),
            ),
        );
    }
    match first_index(bare, ':') {
        Some(_) => {
            assert(bare@.contains(':')) by {
                bare@.index_of_first_ensures(':');
            }
            Ok(join4("[", bare, "]:", dec_text(port as u64).as_str()))
        },
        None => Ok(join3(bare, ":", dec_text(port as u64).as_str())),
    }
}

/// Canonical form of an endpoint text.
pub open spec fn canonical(address: Seq<char>) -> std::result::Result<Seq<char>, DcpFault> {
    match split(address) {
        Ok(v) => formatted(v.0, v.1),
        Err(e) => Err(e),
    }
}

/// Checks an endpoint text and brings it into canonical form.
pub fn validated_endpoint(address: &str) -> (result: Result<String>)
    ensures
        match result {
            Ok(s) => canonical(address@) == Ok::<Seq<char>, DcpFault>(s@),
            Err(e) => canonical(address@) == Err::<Seq<char>, DcpFault>(e@),
        },
{
    match split_endpoint(address) {
        Ok((host, port)) => format_endpoint(host, port),
        Err(e) => Err(e),
    }
}

/// Lower case of an ASCII letter; any other character is unchanged.
pub open spec fn ascii_lower(c: char) -> u32 {
    if 0x41 <= c as u32 <= 0x5a {
        ((c as u32) + 0x20) as u32
    } else {
        c as u32
    }
}

/// Equality up to the case of ASCII letters.
pub open spec fn same_ignoring_case(a: Seq<char>, b: Seq<char>) -> bool {
    a.len() == b.len() && forall|i: int|
        0 <= i < a.len() ==> ascii_lower(#[trigger] a[i]) == ascii_lower(b[i])
}

fn lower_of(c: char) -> (result: u32)
    ensures
        result == ascii_lower(c),
{
    let u: u32 = c as u32;
    if 0x41 <= u && u <= 0x5a {
        u + 0x20
    } else {
        u
    }
}

fn equal_ignoring_case(a: &str, b: &str) -> (result: bool)
    ensures
        result == same_ignoring_case(a@, b@),
{
    let n: usize = a.unicode_len();
    if n != b.unicode_len() {
        return false;
    }
    let mut i: usize = 0;
    while i < n
        invariant
            i <= n,
            n == a@.len(),
            n == b@.len(),
            forall|j: int| 0 <= j < i ==> ascii_lower(#[trigger] a@[j]) == ascii_lower(b@[j]),
        decreases n - i,
    {
        if lower_of(a.get_char(i)) != lower_of(b.get_char(i)) {
            return false;
        }
        i = i + 1;
    }
    true
}

/// Two endpoint texts that name the same host and port.
pub open spec fn same_endpoint(left: Seq<char>, right: Seq<char>) -> bool {
    match (split(left), split(right)) {
        (Ok(l), Ok(r)) => l.1 == r.1 && same_ignoring_case(l.0, r.0),
        _ => false,
    }
}

/// Tests whether two endpoint texts name the same host and port.
pub fn addresses_equal(left: &str, right: &str) -> (result: bool)
    ensures
        result == same_endpoint(left@, right@),
{
    match (split_endpoint(left), split_endpoint(right)) {
        (Ok((left_host, left_port)), Ok((right_host, right_port))) => left_port == right_port
            && equal_ignoring_case(left_host, right_host),
        _ => false,
    }
}

/// Host part of a seed text, without brackets and without its port.
pub open spec fn seed_host(seed: Seq<char>) -> Seq<char> {
    if seed.len() > 0 && seed[0] == '[' && seed.drop_first().contains(']') {
        seed.drop_first().take(seed.drop_first().index_of_first(']')->0)
    } else if seed.contains(':') && seed.index_of_first(':') == seed.index_of_last(':') {
        seed.take(seed.index_of_last(':')->0)
    } else {
        seed
    }
}

/// Host to validate a certificate against.
pub fn endpoint_host(seed: &str) -> (result: &str)
    ensures
        result@ == seed_host(seed@),
{
    let n: usize = seed.unicode_len();
    if n > 0 && seed.get_char(0) == '[' {
        let inner = seed.substring_char(1, n);
        assert(inner@ =~= seed@.drop_first());
        if let Some(end) = first_index(inner, ']') {
            let host = inner.substring_char(0, end);
            assert(host@ =~= inner@.take(end as int));
            assert(inner@.contains(']')) by {
                inner@.index_of_first_ensures(']');
            }
            return host;
        }
    }
    match (first_index(seed, ':'), last_index(seed, ':')) {
        (Some(first), Some(last)) => {
            assert(seed@.contains(':')) by {
                seed@.index_of_first_ensures(':');
            }
            if first == last {
                let host = seed.substring_char(0, last);
                assert(host@ =~= seed@.take(last as int));
                host
            } else {
                seed
            }
        },
        _ => seed,
    }
}

} // verus!
