//! Client configuration and its validation.
use vstd::prelude::*;
use vstd::string::*;

use crate::checkpoint::DcpCheckpoint;
use crate::error::{checked, DcpError, DcpFault, Result};
use crate::interval::Interval;
use crate::text::{
    blank, dec, dec_text, decimal_is_digits, decimal_is_read, first_index, is_blank, is_solid, join2,
    join3, join4, last_index, number_is_digits, opt_text, parse_number, parsed, quoted, quoted_text,
    same_text, solid, solid_is_trimmed, texts, trim, trimmed, white_space,
};
use crate::topology::TopologyNetwork;

verus! {

/// Default plain KV port.
pub const DEFAULT_KV_PORT: u16 = 11_210;

/// Default TLS KV port.
pub const DEFAULT_KV_TLS_PORT: u16 = 11_207;

/// Default connection buffer size in bytes.
pub const DEFAULT_CONNECTION_BUFFER_SIZE: usize = 20_971_520;

/// Bits of the default acknowledgement ratio, one fifth.
pub const DEFAULT_ACK_RATIO_BITS: u32 = 0x3e4c_cccd;

/// Bits of the ratio one.
pub const FULL_ACK_RATIO_BITS: u32 = 0x3f80_0000;

/// A count that is never zero.
#[derive(Clone, Copy, Debug, PartialEq, Eq, Structural)]
pub struct PositiveCount {
    value: usize,
}

impl PositiveCount {
    /// The count.
    pub closed spec fn count(self) -> usize {
        self.value
    }

    #[verifier::type_invariant]
    closed spec fn positive(self) -> bool {
        self.value > 0
    }

    /// Accepts a count above zero.
    pub fn new(value: usize) -> (result: Option<Self>)
        ensures
            match result {
                Some(count) => value > 0 && count.count() == value,
                None => value == 0,
            },
    {
        if value == 0 {
            None
        } else {
            Some(PositiveCount { value })
        }
    }

    /// The count.
    pub fn get(self) -> (result: usize)
        ensures
            result == self.count(),
            result > 0,
    {
        proof {
            use_type_invariant(self);
        }
        self.value
    }
}

/// Couchbase seed address.
#[derive(Clone, Debug, Eq, PartialEq)]
pub struct SeedAddress(String);

impl View for SeedAddress {
    type V = Seq<char>;

    closed spec fn view(&self) -> Seq<char> {
        self.0@
    }
}

/// Content of a configuration error.
pub open spec fn config_fault(message: Seq<char>) -> DcpFault {
    DcpFault::InvalidConfiguration(message)
}

/// `]:` stands at a position.
pub open spec fn bracket_colon(s: Seq<char>, i: int) -> bool {
    0 <= i && i + 1 < s.len() && s[i] == ']' && s[i + 1] == ':'
}

/// The text names a port of its own.
pub open spec fn explicit_port(s: Seq<char>) -> bool {
    if s.len() > 0 && s[0] == '[' {
        exists|i: int|
            #![trigger bracket_colon(s, i)]
            bracket_colon(s, i) && i + 2 < s.len() && forall|j: int|
                i < j ==> !#[trigger] bracket_colon(s, j)
    } else {
        &&& s.contains(':')
        &&& s.index_of_first(':') == s.index_of_last(':')
        &&& parsed(s.skip((s.index_of_last(':')->0) + 1), 10, 65535) is Ok
    }
}

/// Text with a default port added where it names none.
pub open spec fn with_port(s: Seq<char>, port: u16) -> Seq<char> {
    if explicit_port(s) {
        s
    } else if s.contains(':') && !(s.len() > 0 && s[0] == '[') {
        "["@ + s + "]:"@ + dec(port as nat)
    } else {
        s + ":"@ + dec(port as nat)
    }
}

/// A URI scheme separator stands at a position.
pub open spec fn scheme_at(s: Seq<char>, i: int) -> bool {
    0 <= i && i + 2 < s.len() && s[i] == ':' && s[i + 1] == '/' && s[i + 2] == '/'
}

/// The text holds a URI scheme separator.
pub open spec fn has_scheme(s: Seq<char>) -> bool {
    exists|i: int| scheme_at(s, i)
}

fn contains_scheme(s: &str) -> (result: bool)
    ensures
        result == has_scheme(s@),
{
    let n: usize = s.unicode_len();
    if n < 3 {
        return false;
    }
    let mut i: usize = 0;
    while i < n - 2
        invariant
            3 <= n == s@.len(),
            i <= n - 2,
            forall|j: int| 0 <= j < i ==> !scheme_at(s@, j),
        decreases n - 2 - i,
    {
        if s.get_char(i) == ':' && s.get_char(i + 1) == '/' && s.get_char(i + 2) == '/' {
            assert(scheme_at(s@, i as int));
            return true;
        }
        i = i + 1;
    }
    false
}

/// The part of a seed text that must be an IPv6 address, if there is one.
pub open spec fn ipv6_part(s: Seq<char>) -> Option<Seq<char>> {
    if s.len() > 0 && s[0] == '[' {
        match s.index_of_first(']') {
            Some(end) => Some(s.subrange(1, end)),
            None => None,
        }
    } else if s.contains(':') && s.index_of_first(':') != s.index_of_last(':') {
        Some(s)
    } else {
        None
    }
}

/// Why a port text is refused, if it is.
pub open spec fn port_fault(port: Seq<char>) -> Option<DcpFault> {
    match parsed(port, 10, 65535) {
        Ok(p) => if p != 0 {
            None
        } else {
            Some(config_fault("invalid seed port "@ + quoted(port)))
        },
        Err(_) => Some(config_fault("invalid seed port "@ + quoted(port))),
    }
}

/// Why the text after a bracketed address is refused, if it is.
pub open spec fn suffix_fault(suffix: Seq<char>) -> Option<DcpFault> {
    if suffix.len() == 0 {
        None
    } else if suffix[0] != ':' {
        Some(config_fault("unexpected characters after bracketed IPv6 seed"@))
    } else {
        port_fault(suffix.drop_first())
    }
}

/// Why a trimmed seed text is refused, if it is; `ipv6_error` is the complaint
/// of the address parser about [`ipv6_part`].
pub open spec fn seed_fault(s: Seq<char>, ipv6_error: Option<Seq<char>>) -> Option<DcpFault> {
    if s.len() == 0 || !solid(s) {
        Some(config_fault("seed address must be non-empty and contain no whitespace"@))
    } else if has_scheme(s) {
        Some(config_fault("seed address must not include a URI scheme"@))
    } else if s[0] == '[' {
        match s.index_of_first(']') {
            None => Some(config_fault("bracketed IPv6 seed is missing a closing bracket"@)),
            Some(end) => match ipv6_error {
                Some(e) => Some(config_fault("invalid IPv6 seed: "@ + e)),
                None => suffix_fault(s.skip(end + 1)),
            },
        }
    } else if !s.contains(':') {
        None
    } else if s.index_of_first(':') == s.index_of_last(':') {
        let at = s.index_of_last(':')->0;
        if at == 0 {
            Some(config_fault("seed host must not be empty"@))
        } else {
            port_fault(s.skip(at + 1))
        }
    } else {
        match ipv6_error {
            Some(e) => Some(config_fault("invalid IPv6 seed: "@ + e)),
            None => None,
        }
    }
}

fn validate_port(port: &str) -> (result: Result<()>)
    ensures
        checked(result, port_fault(port@)),
{
    if let Ok(value) = parse_number(port, 10, 65535) {
        if value != 0 {
            return Ok(());
        }
    }
    Err(
        DcpError::InvalidConfiguration(join2("invalid seed port ", quoted_text(port).as_str())),
    )
}

fn validate_optional_port(suffix: &str) -> (result: Result<()>)
    ensures
        checked(result, suffix_fault(suffix@)),
{
    let n: usize = suffix.unicode_len();
    if n == 0 {
        return Ok(());
    }
    if suffix.get_char(0) != ':' {
        return Err(
            DcpError::InvalidConfiguration(
                "unexpected characters after bracketed IPv6 seed".to_owned(),
            ),
        );
    }
    let port = suffix.substring_char(1, n);
    assert(port@ =~= suffix@.drop_first());
    validate_port(port)
}

proof fn colon_positions(s: Seq<char>)
    ensures
        s.contains(':') <==> s.index_of_first(':') is Some,
        s.contains(':') <==> s.index_of_last(':') is Some,
        s.index_of_last(':') matches Some(i) ==> 0 <= i < s.len(),
        s.index_of_first(']') matches Some(i) ==> 0 <= i < s.len() && s[i] == ']',
{
    s.index_of_first_ensures(':');
    s.index_of_last_ensures(':');
    s.index_of_first_ensures(']');
}

impl SeedAddress {
    /// Text that must be an IPv6 address for the seed to be accepted, if any.
    pub fn ipv6_text(value: &str) -> (result: Option<&str>)
        ensures
            match result {
                Some(part) => ipv6_part(trimmed(value@)) == Some(part@),
                None => ipv6_part(trimmed(value@)) is None,
            },
    {
        let value = trim(value);
        proof {
            colon_positions(value@);
        }
        let n: usize = value.unicode_len();
        if n > 0 && value.get_char(0) == '[' {
            match first_index(value, ']') {
                Some(end) => {
                    assert(end > 0);
                    Some(value.substring_char(1, end))
                },
                None => None,
            }
        } else {
            match (first_index(value, ':'), last_index(value, ':')) {
                (Some(first), Some(last)) => if first != last {
                    Some(value)
                } else {
                    None
                },
                _ => None,
            }
        }
    }

    /// Reads a seed text; `ipv6_error` is the complaint of an IPv6 address
    /// parser about [`SeedAddress::ipv6_text`], if it has any.
    pub fn parse(value: &str, ipv6_error: Option<String>) -> (result: Result<Self>)
        ensures
            match result {
                Ok(seed) => seed_fault(trimmed(value@), opt_text(ipv6_error)) is None && seed@
                    == trimmed(value@),
                Err(e) => seed_fault(trimmed(value@), opt_text(ipv6_error)) == Some(e@),
            },
    {
        let value = trim(value);
        proof {
            colon_positions(value@);
        }
        if value.is_empty() || !is_solid(value) {
            return Err(
                DcpError::InvalidConfiguration(
                    "seed address must be non-empty and contain no whitespace".to_owned(),
                ),
            );
        }
        if contains_scheme(value) {
            return Err(
                DcpError::InvalidConfiguration(
                    "seed address must not include a URI scheme".to_owned(),
                ),
            );
        }
        let n: usize = value.unicode_len();
        if value.get_char(0) == '[' {
            let end: usize = match first_index(value, ']') {
                Some(end) => end,
                None => {
                    return Err(
                        DcpError::InvalidConfiguration(
                            "bracketed IPv6 seed is missing a closing bracket".to_owned(),
                        ),
                    );
                },
            };
            if let Some(e) = &ipv6_error {
                return Err(
                    DcpError::InvalidConfiguration(join2("invalid IPv6 seed: ", e.as_str())),
                );
            }
            let suffix = value.substring_char(end + 1, n);
            assert(suffix@ =~= value@.skip(end + 1));
            validate_optional_port(suffix)?;
        } else {
            match (first_index(value, ':'), last_index(value, ':')) {
                (Some(first), Some(last)) => {
                    if first == last {
                        if last == 0 {
                            return Err(
                                DcpError::InvalidConfiguration(
                                    "seed host must not be empty".to_owned(),
                                ),
                            );
                        }
                        let port = value.substring_char(last + 1, n);
                        assert(port@ =~= value@.skip(last + 1));
                        validate_port(port)?;
                    } else if let Some(e) = &ipv6_error {
                        return Err(
                            DcpError::InvalidConfiguration(
                                join2("invalid IPv6 seed: ", e.as_str()),
                            ),
                        );
                    }
                },
                _ => {},
            }
        }
        Ok(SeedAddress(value.to_owned()))
    }

    /// Returns the seed text.
    #[must_use]
    pub fn as_str(&self) -> (result: &str)
        ensures
            result@ == self@,
    {
        self.0.as_str()
    }

    fn has_explicit_port(&self) -> (result: bool)
        ensures
            result == explicit_port(self@),
    {
        let s = self.0.as_str();
        proof {
            colon_positions(s@);
        }
        let n: usize = s.unicode_len();
        if n > 0 && s.get_char(0) == '[' {
            let mut i: usize = n - 1;
            while i > 0
                invariant
                    i < n,
                    n == s@.len(),
                    s@ == self@,
                    s@[0] == '[',
                    forall|j: int| i <= j ==> !#[trigger] bracket_colon(s@, j),
                decreases i,
            {
                i = i - 1;
                if s.get_char(i) == ']' && s.get_char(i + 1) == ':' {
                    assert(bracket_colon(s@, i as int));
                    if i + 2 < n {
                        return true;
                    }
                    assert forall|k: int|
                        #![trigger bracket_colon(s@, k)]
                        !(bracket_colon(s@, k) && k + 2 < s@.len() && forall|j: int|
                            k < j ==> !#[trigger] bracket_colon(s@, j)) by {
                        if k < i {
                            assert(bracket_colon(s@, i as int));
                        }
                    }
                    return false;
                }
            }
            return false;
        }
        match (first_index(s, ':'), last_index(s, ':')) {
            (Some(first), Some(last)) => {
                if first != last {
                    return false;
                }
                let port = s.substring_char(last + 1, n);
                assert(port@ =~= s@.skip(last + 1));
                parse_number(port, 10, 65535).is_ok()
            },
            _ => false,
        }
    }

    /// Adds a default KV port when the seed has no explicit port.
    #[must_use]
    pub fn with_default_kv_port(&self, tls: bool) -> (result: String)
        ensures
            result@ == with_port(
                self@,
                if tls {
                    DEFAULT_KV_TLS_PORT
                } else {
                    DEFAULT_KV_PORT
                },
            ),
    {
        if self.has_explicit_port() {
            return self.0.clone();
        }
        let port: u16 = if tls {
            DEFAULT_KV_TLS_PORT
        } else {
            DEFAULT_KV_PORT
        };
        let s = self.0.as_str();
        let n: usize = s.unicode_len();
        proof {
            colon_positions(s@);
        }
        if first_index(s, ':').is_some() && !(n > 0 && s.get_char(0) == '[') {
            join4("[", s, "]:", dec_text(port as u64).as_str())
        } else {
            join3(s, ":", dec_text(port as u64).as_str())
        }
    }
}

/// Complaint of an IPv6 address parser about a seed text, if it has any.
pub open spec fn ipv6_verdict(
    s: Seq<char>,
    complaint: spec_fn(Seq<char>) -> Option<Seq<char>>,
) -> Option<Seq<char>> {
    match ipv6_part(s) {
        Some(part) => complaint(part),
        None => None,
    }
}

proof fn first_is(s: Seq<char>, c: char, at: int)
    requires
        0 <= at < s.len(),
        s[at] == c,
        forall|i: int| 0 <= i < at ==> #[trigger] s[i] != c,
    ensures
        s.index_of_first(c) == Some(at),
{
    s.index_of_first_ensures(c);
    let i = s.index_of_first(c)->0;
    if i < at {
        assert(s[i] != c);
    }
}

proof fn last_is(s: Seq<char>, c: char, at: int)
    requires
        0 <= at < s.len(),
        s[at] == c,
        forall|i: int| at < i < s.len() ==> #[trigger] s[i] != c,
    ensures
        s.index_of_last(c) == Some(at),
{
    s.index_of_last_ensures(c);
    let i = s.index_of_last(c)->0;
    if i > at {
        assert(s[i] != c);
    }
}

proof fn port_text(port: u16)
    requires
        port > 0,
    ensures
        port_fault(dec(port as nat)) is None,
        parsed(dec(port as nat), 10, 65535) is Ok,
        dec(port as nat).len() > 0,
        forall|i: int|
            0 <= i < dec(port as nat).len() ==> 0x30 <= (#[trigger] dec(port as nat)[i]) as u32
                <= 0x39,
{
    decimal_is_read(port as nat, 65535);
    decimal_is_digits(port as nat);
}

/// A text followed by a colon and a port.
proof fn port_is_added(s: Seq<char>, port: u16, r: Seq<char>)
    requires
        port > 0,
        s.len() > 0,
        solid(s),
        !has_scheme(s),
        s.last() != ':',
        s.last() == ']' || !s.contains(':'),
        r == s + ":"@ + dec(port as nat),
    ensures
        solid(r),
        !has_scheme(r),
        trimmed(r) == r,
        r.len() > s.len() + 1,
        r.take(s.len() as int) == s,
        r[s.len() as int] == ':',
        r.skip(s.len() as int + 1) == dec(port as nat),
        forall|i: int| s.len() < i < r.len() ==> 0x30 <= (#[trigger] r[i]) as u32 <= 0x39,
        forall|i: int| 0 <= i < s.len() ==> #[trigger] r[i] == s[i],
{
    reveal_strlit(":");
    port_text(port);
    let n = s.len() as int;
    let digits = dec(port as nat);
    assert(r.take(n) =~= s);
    assert(r.skip(n + 1) =~= digits);
    assert forall|i: int| n < i < r.len() implies 0x30 <= (#[trigger] r[i]) as u32 <= 0x39 by {
        assert(r[i] == digits[i - n - 1]);
    }
    assert forall|i: int| 0 <= i < r.len() implies !white_space(#[trigger] r[i]) by {
        if i < n {
            assert(r[i] == s[i]);
        }
    }
    assert forall|i: int| !scheme_at(r, i) by {
        if scheme_at(r, i) {
            if i + 2 < n {
                assert(scheme_at(s, i));
            } else if i < n {
                assert(s[i] == ':');
                assert(s.contains(':'));
                assert(s[n - 1] == ']');
            } else if i == n {
                assert(0x30 <= r[i + 1] as u32);
            }
        }
    }
    solid_is_trimmed(r);
}

proof fn bracketed_takes_port(
    s: Seq<char>,
    port: u16,
    complaint: spec_fn(Seq<char>) -> Option<Seq<char>>,
)
    requires
        port > 0,
        s.len() > 0,
        solid(s),
        !has_scheme(s),
        s[0] == '[',
        s.index_of_first(']') == Some(s.len() - 1),
        complaint(s.subrange(1, s.len() - 1)) is None,
    ensures
        ({
            let r = s + ":"@ + dec(port as nat);
            &&& seed_fault(r, ipv6_verdict(r, complaint)) is None
            &&& trimmed(r) == r
            &&& explicit_port(r)
        }),
{
    let r = s + ":"@ + dec(port as nat);
    let end: int = s.len() - 1;
    s.index_of_first_ensures(']');
    port_is_added(s, port, r);
    port_text(port);
    assert forall|i: int| 0 <= i < end implies #[trigger] r[i] != ']' by {
        assert(r[i] == s[i]);
    }
    assert(r[end] == s[end]);
    assert(r[0] == s[0]);
    first_is(r, ']', end);
    assert(r.subrange(1, end) =~= s.subrange(1, end));
    assert(r.skip(end + 1)[0] == ':');
    assert(r.skip(end + 1).drop_first() =~= r.skip(s.len() as int + 1));
    assert(bracket_colon(r, end));
    assert forall|j: int| end < j implies !#[trigger] bracket_colon(r, j) by {
        if j == end + 1 {
            assert(r[j] == ':');
        } else if j < r.len() {
            assert(r[j] as u32 <= 0x39);
        }
    }
}

proof fn bracketed_port_is_explicit(s: Seq<char>)
    requires
        s.len() > 0,
        s[0] == '[',
        s.index_of_first(']') is Some,
        suffix_fault(s.skip(s.index_of_first(']')->0 + 1)) is None,
        s.index_of_first(']')->0 < s.len() - 1,
    ensures
        explicit_port(s),
{
    s.index_of_first_ensures(']');
    let end = s.index_of_first(']')->0;
    let suffix = s.skip(end + 1);
    let port = suffix.drop_first();
    number_is_digits(port, 10, 65535);
    assert(s[end + 1] == suffix[0]);
    assert(bracket_colon(s, end));
    assert(s.len() == end + 2 + port.len());
    assert forall|j: int| end < j implies !#[trigger] bracket_colon(s, j) by {
        if end + 1 < j < s.len() {
            assert(s[j] == port[j - end - 2]);
        }
    }
}

proof fn closed_bracket_names_no_port(s: Seq<char>)
    requires
        s.len() > 0,
        s[0] == '[',
        s.index_of_first(']') == Some(s.len() - 1),
    ensures
        !explicit_port(s),
{
    s.index_of_first_ensures(']');
    assert forall|i: int| !#[trigger] bracket_colon(s, i) by {
        if bracket_colon(s, i) {
            assert(i < s.len() - 1);
            assert(s[i] != ']');
        }
    }
}

proof fn host_takes_port(
    s: Seq<char>,
    port: u16,
    complaint: spec_fn(Seq<char>) -> Option<Seq<char>>,
)
    requires
        port > 0,
        s.len() > 0,
        solid(s),
        !has_scheme(s),
        s[0] != '[',
        !s.contains(':'),
    ensures
        ({
            let r = s + ":"@ + dec(port as nat);
            &&& seed_fault(r, ipv6_verdict(r, complaint)) is None
            &&& trimmed(r) == r
            &&& explicit_port(r)
        }),
{
    let r = s + ":"@ + dec(port as nat);
    let n = s.len() as int;
    assert(s.contains(s.last()));
    port_is_added(s, port, r);
    port_text(port);
    assert forall|i: int| 0 <= i < r.len() && i != n implies #[trigger] r[i] != ':' by {
        if i < n {
            assert(r[i] == s[i]);
            assert(s.contains(s[i]));
        } else {
            assert(r[i] as u32 <= 0x39);
        }
    }
    first_is(r, ':', n);
    last_is(r, ':', n);
    assert(r.contains(':'));
    assert(r[0] == s[0]);
}

proof fn address_takes_port(
    s: Seq<char>,
    port: u16,
    complaint: spec_fn(Seq<char>) -> Option<Seq<char>>,
)
    requires
        port > 0,
        s.len() > 0,
        solid(s),
        !has_scheme(s),
        !s.contains(']'),
        complaint(s) is None,
    ensures
        ({
            let r = "["@ + s + "]:"@ + dec(port as nat);
            &&& seed_fault(r, ipv6_verdict(r, complaint)) is None
            &&& trimmed(r) == r
            &&& explicit_port(r)
        }),
{
    reveal_strlit("[");
    reveal_strlit("]");
    reveal_strlit("]:");
    reveal_strlit(":");
    let r = "["@ + s + "]:"@ + dec(port as nat);
    let inner = "["@ + s + "]"@;
    assert(r =~= inner + ":"@ + dec(port as nat));
    let end = inner.len() - 1;
    assert forall|i: int| 0 <= i < end implies #[trigger] inner[i] != ']' by {
        if i > 0 {
            assert(inner[i] == s[i - 1]);
            assert(s.contains(s[i - 1]));
        }
    }
    first_is(inner, ']', end);
    assert(inner.subrange(1, end) =~= s);
    assert forall|i: int| 0 <= i < inner.len() implies !white_space(#[trigger] inner[i]) by {
        if 0 < i < end {
            assert(inner[i] == s[i - 1]);
        }
    }
    assert forall|i: int| !scheme_at(inner, i) by {
        if scheme_at(inner, i) {
            assert(scheme_at(s, i - 1));
        }
    }
    bracketed_takes_port(inner, port, complaint);
}

/// The text of a seed with a port is itself a seed, read back unchanged, which
/// names its port: adding a port again changes nothing. The seed is one that is
/// accepted with an address parser that refuses brackets.
pub proof fn seed_with_port_is_fixed(
    s: Seq<char>,
    port: u16,
    other: u16,
    complaint: spec_fn(Seq<char>) -> Option<Seq<char>>,
)
    requires
        port > 0,
        seed_fault(s, ipv6_verdict(s, complaint)) is None,
        forall|t: Seq<char>| t.contains(']') ==> (#[trigger] complaint(t)) is Some,
    ensures
        seed_fault(with_port(s, port), ipv6_verdict(with_port(s, port), complaint)) is None,
        trimmed(with_port(s, port)) == with_port(s, port),
        explicit_port(with_port(s, port)),
        with_port(with_port(s, port), other) == with_port(s, port),
{
    colon_positions(s);
    if s[0] == '[' {
        let end = s.index_of_first(']')->0;
        assert(s.subrange(1, end) == ipv6_part(s)->0);
        if end < s.len() - 1 {
            bracketed_port_is_explicit(s);
            solid_is_trimmed(s);
        } else {
            closed_bracket_names_no_port(s);
            bracketed_takes_port(s, port, complaint);
        }
    } else if !s.contains(':') {
        host_takes_port(s, port, complaint);
    } else if s.index_of_first(':') == s.index_of_last(':') {
        solid_is_trimmed(s);
        assert(explicit_port(s));
    } else {
        assert(complaint(s) is None);
        address_takes_port(s, port, complaint);
    }
}

/// Username/password pair used for SASL authentication.
#[derive(Clone)]
pub struct Credentials {
    username: String,
    password: String,
}

impl Credentials {
    /// User name.
    pub closed spec fn user(&self) -> Seq<char> {
        self.username@
    }

    /// Password.
    pub closed spec fn secret(&self) -> Seq<char> {
        self.password@
    }

    /// Creates credentials.
    #[must_use]
    pub fn new(username: &str, password: &str) -> (result: Self)
        ensures
            result.user() == username@,
            result.secret() == password@,
    {
        Credentials { username: username.to_owned(), password: password.to_owned() }
    }

    /// Authentication username.
    #[must_use]
    pub fn username(&self) -> (result: &str)
        ensures
            result@ == self.user(),
    {
        self.username.as_str()
    }

    /// Exposes the password only to authentication code.
    #[must_use]
    pub fn password(&self) -> (result: &str)
        ensures
            result@ == self.secret(),
    {
        self.password.as_str()
    }

    /// Diagnostic rendering, which is the same whatever the password is.
    pub fn debug_text(&self) -> (result: String)
        ensures
            result@ == redacted(self.user()),
    {
        join3(
            "Credentials { username: ",
            quoted_text(self.username.as_str()).as_str(),
            ", password: \"[REDACTED]\" }",
        )
    }
}

/// Diagnostic rendering of the credentials of a user.
pub open spec fn redacted(username: Seq<char>) -> Seq<char> {
    "Credentials { username: "@ + quoted(username) + ", password: \"[REDACTED]\" }"@
}

/// TLS connection settings.
#[derive(Clone, Debug, Eq, PartialEq)]
pub struct TlsConfig {
    /// Enables TLS for KV connections.
    pub enabled: bool,
    /// Optional PEM bundle added to the platform trust roots.
    pub root_ca_path: Option<String>,
    /// Optional DNS name used for certificate validation.
    pub server_name: Option<String>,
}

impl Default for TlsConfig {
    fn default() -> (result: Self)
        ensures
            !result.enabled,
            result.root_ca_path is None,
            result.server_name is None,
    {
        TlsConfig { enabled: false, root_ca_path: None, server_name: None }
    }
}

/// DCP subscription lifetime.
#[derive(Clone, Copy, Debug, Default, PartialEq, Eq, Structural)]
pub enum DcpMode {
    /// Consume through a captured high sequence number and then finish.
    Finite,
    /// Continue consuming after the initial high sequence number.
    #[default]
    Infinite,
}

/// Initial position used when no durable checkpoint exists.
#[derive(Clone, Debug, Default, Eq, PartialEq)]
pub enum StartPosition {
    /// Start at sequence number zero.
    #[default]
    Earliest,
    /// Start at the current high sequence number.
    Latest,
    /// Start from a caller-supplied durable checkpoint.
    Checkpoint(DcpCheckpoint),
}

/// DCP stream priority advertised to the server.
#[derive(Clone, Copy, Debug, Default, PartialEq, Eq, Structural)]
pub enum DcpPriority {
    /// Low-priority connection.
    Low,
    /// Medium-priority connection.
    #[default]
    Medium,
    /// High-priority connection.
    High,
}

/// Rollback behavior selected by the integrating application.
#[derive(Clone, Copy, Debug, Default, PartialEq, Eq, Structural)]
pub enum RollbackPolicy {
    /// Pause the partition and report the required rollback.
    #[default]
    StopAndReport,
    /// Rewind to the server-provided point and replay events.
    RewindAndReplay,
    /// Emit the recovery request through the configured handler.
    DelegateToHandler,
}

/// Server-side collection filter.
#[derive(Clone, Debug, Eq, PartialEq)]
pub struct CollectionFilter {
    /// Scope name.
    pub scope: String,
    /// Collection names within `scope`; none selects the whole scope.
    pub collections: Vec<String>,
}

impl Default for CollectionFilter {
    fn default() -> (result: Self)
        ensures
            result.scope@ == "_default"@,
            texts(result.collections@) == seq!["_default"@],
    {
        let mut collections: Vec<String> = Vec::new();
        collections.push("_default".to_owned());
        assert(texts(collections@) =~= seq!["_default"@]);
        CollectionFilter { scope: "_default".to_owned(), collections }
    }
}

impl CollectionFilter {
    /// What is wrong with the filter, if anything.
    pub open spec fn fault(self) -> Option<DcpFault> {
        let names = texts(self.collections@);
        if blank(self.scope@) {
            Some(config_fault("collection scope must not be empty"@))
        } else if exists|i: int| 0 <= i < names.len() && blank(#[trigger] names[i]) {
            Some(config_fault("at least one non-empty collection is required"@))
        } else if !names.no_duplicates() {
            Some(config_fault("collection names must be unique"@))
        } else {
            None
        }
    }

    /// Refuses blank and repeated names.
    pub fn validate(&self) -> (result: Result<()>)
        ensures
            checked(result, self.fault()),
    {
        if is_blank(self.scope.as_str()) {
            return Err(
                DcpError::InvalidConfiguration("collection scope must not be empty".to_owned()),
            );
        }
        let ghost names = texts(self.collections@);
        let mut i: usize = 0;
        while i < self.collections.len()
            invariant
                i <= self.collections@.len(),
                !blank(self.scope@),
                names == texts(self.collections@),
                forall|j: int| 0 <= j < i ==> !blank(#[trigger] names[j]),
            decreases self.collections@.len() - i,
        {
            assert(names[i as int] == self.collections@[i as int]@);
            if is_blank(self.collections[i].as_str()) {
                return Err(
                    DcpError::InvalidConfiguration(
                        "at least one non-empty collection is required".to_owned(),
                    ),
                );
            }
            i = i + 1;
        }
        let mut a: usize = 0;
        while a < self.collections.len()
            invariant
                a <= self.collections@.len(),
                !blank(self.scope@),
                names == texts(self.collections@),
                forall|j: int| 0 <= j < names.len() ==> !blank(#[trigger] names[j]),
                forall|x: int, y: int|
                    0 <= x < a && x < y < names.len() ==> #[trigger] names[x] != #[trigger] names[y],
            decreases self.collections@.len() - a,
        {
            let mut b: usize = a + 1;
            while b < self.collections.len()
                invariant
                    a < b <= self.collections@.len(),
                    !blank(self.scope@),
                    names == texts(self.collections@),
                    forall|j: int| 0 <= j < names.len() ==> !blank(#[trigger] names[j]),
                    forall|y: int| a < y < b ==> names[a as int] != #[trigger] names[y],
                decreases self.collections@.len() - b,
            {
                assert(names[a as int] == self.collections@[a as int]@);
                assert(names[b as int] == self.collections@[b as int]@);
                if same_text(self.collections[a].as_str(), self.collections[b].as_str()) {
                    assert(!names.no_duplicates());
                    return Err(
                        DcpError::InvalidConfiguration("collection names must be unique".to_owned()),
                    );
                }
                b = b + 1;
            }
            a = a + 1;
        }
        assert(names.no_duplicates());
        Ok(())
    }
}

/// Connection-level DCP flow-control settings.
#[derive(Clone, Copy, Debug, PartialEq, Eq, Structural)]
pub struct FlowControlConfig {
    /// Buffer size advertised using `connection_buffer_size`.
    pub connection_buffer_size: usize,
    /// IEEE 754 single-precision bits of the fraction of the buffer
    /// accumulated before credit is returned.
    pub ack_ratio_bits: u32,
    /// Maximum decoded events waiting for the application.
    pub event_queue_capacity: PositiveCount,
    /// Server NOOP interval requested by the client.
    pub noop_interval: Interval,
    /// Maximum time without any inbound frame before reconnecting.
    pub dead_connection_timeout: Interval,
}

impl Default for FlowControlConfig {
    fn default() -> (result: Self)
        ensures
            result.connection_buffer_size == DEFAULT_CONNECTION_BUFFER_SIZE,
            result.ack_ratio_bits == DEFAULT_ACK_RATIO_BITS,
            result.event_queue_capacity.count() == 2_048,
            result.noop_interval.total_nanos() == 20_000_000_000,
            result.dead_connection_timeout.total_nanos() == 60_000_000_000,
            result.fault() is None,
    {
        FlowControlConfig {
            connection_buffer_size: DEFAULT_CONNECTION_BUFFER_SIZE,
            ack_ratio_bits: DEFAULT_ACK_RATIO_BITS,
            event_queue_capacity: PositiveCount { value: 2_048 },
            noop_interval: Interval::from_secs(20),
            dead_connection_timeout: Interval::from_secs(60),
        }
    }
}

impl FlowControlConfig {
    /// What is wrong with the settings, if anything. The bits of the numbers
    /// above zero and up to one are those from the smallest positive pattern
    /// to the pattern of one.
    pub open spec fn fault(self) -> Option<DcpFault> {
        if self.connection_buffer_size == 0 {
            Some(config_fault("connection buffer size must be greater than zero"@))
        } else if !(1 <= self.ack_ratio_bits <= FULL_ACK_RATIO_BITS) {
            Some(config_fault("flow-control ack ratio must be in (0, 1]"@))
        } else if self.noop_interval.total_nanos() == 0
            || self.dead_connection_timeout.total_nanos() <= self.noop_interval.total_nanos() {
            Some(
                config_fault("dead connection timeout must be greater than the NOOP interval"@),
            )
        } else {
            None
        }
    }

    /// Validates the settings.
    pub fn validate(&self) -> (result: Result<()>)
        ensures
            checked(result, self.fault()),
    {
        if self.connection_buffer_size == 0 {
            return Err(
                DcpError::InvalidConfiguration(
                    "connection buffer size must be greater than zero".to_owned(),
                ),
            );
        }
        if self.ack_ratio_bits < 1 || self.ack_ratio_bits > FULL_ACK_RATIO_BITS {
            return Err(
                DcpError::InvalidConfiguration("flow-control ack ratio must be in (0, 1]".to_owned()),
            );
        }
        if self.noop_interval.is_zero() || !self.dead_connection_timeout.exceeds(
            &self.noop_interval,
        ) {
            return Err(
                DcpError::InvalidConfiguration(
                    "dead connection timeout must be greater than the NOOP interval".to_owned(),
                ),
            );
        }
        Ok(())
    }
}

/// Checkpoint persistence mode.
#[derive(Clone, Copy, Debug, PartialEq, Eq, Structural)]
pub enum CheckpointMode {
    /// Flush only when requested by the application.
    Manual,
    /// Periodically flush processed contiguous positions.
    Automatic {
        /// Interval between dirty-checkpoint scans.
        flush_interval: Interval,
    },
}

/// Checkpoint initialization and persistence behavior.
#[derive(Clone, Copy, Debug, PartialEq, Eq, Structural)]
pub struct CheckpointConfig {
    /// Automatic or manual flush behavior.
    pub mode: CheckpointMode,
    /// Maximum time allowed for one store operation.
    pub timeout: Interval,
}

impl Default for CheckpointConfig {
    fn default() -> (result: Self)
        ensures
            result.mode matches CheckpointMode::Automatic { flush_interval }
                && flush_interval.total_nanos() == 60_000_000_000,
            result.timeout.total_nanos() == 60_000_000_000,
            result.fault() is None,
    {
        CheckpointConfig {
            mode: CheckpointMode::Automatic { flush_interval: Interval::from_secs(60) },
            timeout: Interval::from_secs(60),
        }
    }
}

impl CheckpointConfig {
    /// What is wrong with the settings, if anything.
    pub open spec fn fault(self) -> Option<DcpFault> {
        if self.timeout.total_nanos() == 0 {
            Some(config_fault("checkpoint timeout must be greater than zero"@))
        } else {
            match self.mode {
                CheckpointMode::Automatic { flush_interval } => if flush_interval.total_nanos()
                    == 0 {
                    Some(config_fault("automatic checkpoint interval must be greater than zero"@))
                } else {
                    None
                },
                CheckpointMode::Manual => None,
            }
        }
    }

    /// Validates the settings.
    pub fn validate(&self) -> (result: Result<()>)
        ensures
            checked(result, self.fault()),
    {
        if self.timeout.is_zero() {
            return Err(
                DcpError::InvalidConfiguration(
                    "checkpoint timeout must be greater than zero".to_owned(),
                ),
            );
        }
        if let CheckpointMode::Automatic { flush_interval } = self.mode {
            if flush_interval.is_zero() {
                return Err(
                    DcpError::InvalidConfiguration(
                        "automatic checkpoint interval must be greater than zero".to_owned(),
                    ),
                );
            }
        }
        Ok(())
    }
}

/// Periodic cluster health checking.
#[derive(Clone, Copy, Debug, PartialEq, Eq, Structural)]
pub struct HealthCheckConfig {
    /// Enables health checks.
    pub enabled: bool,
    /// Interval between checks.
    pub interval: Interval,
    /// Per-check timeout.
    pub timeout: Interval,
}

impl Default for HealthCheckConfig {
    fn default() -> (result: Self)
        ensures
            result.enabled,
            result.interval.total_nanos() == 60_000_000_000,
            result.timeout.total_nanos() == 10_000_000_000,
    {
        HealthCheckConfig {
            enabled: true,
            interval: Interval::from_secs(60),
            timeout: Interval::from_secs(10),
        }
    }
}

/// Protection against delivering history that a failover could undo.
#[derive(Clone, Copy, Debug, PartialEq, Eq, Structural)]
pub struct RollbackMitigationConfig {
    /// Delays delivery until every available copy has persisted the event.
    pub enabled: bool,
    /// Interval between persistence observations.
    pub poll_interval: Interval,
    /// Time allowed for the observations of one node.
    pub request_timeout: Interval,
    /// Longest time that one delivery may be delayed.
    pub maximum_stall: Interval,
}

impl Default for RollbackMitigationConfig {
    fn default() -> (result: Self)
        ensures
            result.enabled,
            result.poll_interval.total_nanos() == 1_000_000_000,
            result.request_timeout.total_nanos() == 5_000_000_000,
            result.maximum_stall.total_nanos() == 60_000_000_000,
    {
        RollbackMitigationConfig {
            enabled: true,
            poll_interval: Interval::from_secs(1),
            request_timeout: Interval::from_secs(5),
            maximum_stall: Interval::from_secs(60),
        }
    }
}

/// Filtering of delivered documents.
#[derive(Clone, Copy, Debug, PartialEq, Eq, Structural)]
pub struct ListenerConfig {
    /// Time since the Unix epoch before which documents are not delivered.
    pub skip_until: Option<Interval>,
}

impl Default for ListenerConfig {
    fn default() -> (result: Self)
        ensures
            result.skip_until is None,
    {
        ListenerConfig { skip_until: None }
    }
}

/// Complete configuration for one DCP client.
#[derive(Clone)]
pub struct DcpConfig {
    /// Seed nodes used for initial bootstrap.
    pub seeds: Vec<SeedAddress>,
    /// SASL credentials.
    pub credentials: Credentials,
    /// Bucket opened for DCP.
    pub bucket: String,
    /// Scope and collection filter.
    pub collections: CollectionFilter,
    /// Finite or infinite stream mode.
    pub mode: DcpMode,
    /// Initial position when no store entry exists.
    pub start_from: StartPosition,
    /// DCP flow-control settings.
    pub flow_control: FlowControlConfig,
    /// Checkpoint behavior.
    pub checkpoint: CheckpointConfig,
    /// Explicit rollback policy.
    pub rollback_policy: RollbackPolicy,
    /// Protection against rollbacks after delivery.
    pub rollback_mitigation: RollbackMitigationConfig,
    /// Filtering of delivered documents.
    pub listener: ListenerConfig,
    /// DCP stream priority.
    pub priority: DcpPriority,
    /// Disables Couchbase 7.2+ Change Streams.
    pub disable_change_streams: bool,
    /// Address set to dial.
    pub network: TopologyNetwork,
    /// TCP/TLS connection timeout.
    pub connect_timeout: Interval,
    /// TLS settings.
    pub tls: TlsConfig,
    /// Health-check settings.
    pub health_check: HealthCheckConfig,
}

impl DcpConfig {
    /// What is wrong with the configuration, if anything.
    pub open spec fn fault(self) -> Option<DcpFault> {
        if self.seeds@.len() == 0 {
            Some(config_fault("at least one seed is required"@))
        } else if blank(self.credentials.user()) {
            Some(config_fault("username must not be empty"@))
        } else if self.credentials.secret().len() == 0 {
            Some(config_fault("password must not be empty"@))
        } else if blank(self.bucket@) {
            Some(config_fault("bucket must not be empty"@))
        } else if self.connect_timeout.total_nanos() == 0 {
            Some(config_fault("connection timeout must be greater than zero"@))
        } else if opt_text(self.tls.server_name) matches Some(name) && name.len() == 0 {
            Some(config_fault("TLS server name must not be empty"@))
        } else {
            match self.collections.fault() {
                Some(fault) => Some(fault),
                None => match self.flow_control.fault() {
                    Some(fault) => Some(fault),
                    None => self.checkpoint.fault(),
                },
            }
        }
    }

    /// Starts a validated configuration builder.
    #[must_use]
    pub fn builder(credentials: Credentials, bucket: &str) -> (result: DcpConfigBuilder)
        ensures
            result.draft().seeds@.len() == 0,
            result.draft().credentials == credentials,
            result.draft().bucket@ == bucket@,
            result.draft().collections.scope@ == "_default"@,
            texts(result.draft().collections.collections@) == seq!["_default"@],
            result.draft().mode == DcpMode::Infinite,
            result.draft().start_from == StartPosition::Earliest,
            result.draft().flow_control.fault() is None,
            result.draft().flow_control.connection_buffer_size == DEFAULT_CONNECTION_BUFFER_SIZE,
            result.draft().flow_control.ack_ratio_bits == DEFAULT_ACK_RATIO_BITS,
            result.draft().flow_control.event_queue_capacity.count() == 2_048,
            result.draft().flow_control.noop_interval.total_nanos() == 20_000_000_000,
            result.draft().flow_control.dead_connection_timeout.total_nanos() == 60_000_000_000,
            result.draft().checkpoint.mode matches CheckpointMode::Automatic { flush_interval }
                && flush_interval.total_nanos() == 60_000_000_000,
            result.draft().checkpoint.timeout.total_nanos() == 60_000_000_000,
            result.draft().rollback_policy == RollbackPolicy::StopAndReport,
            result.draft().rollback_mitigation.enabled,
            result.draft().rollback_mitigation.poll_interval.total_nanos() == 1_000_000_000,
            result.draft().rollback_mitigation.request_timeout.total_nanos() == 5_000_000_000,
            result.draft().rollback_mitigation.maximum_stall.total_nanos() == 60_000_000_000,
            result.draft().listener.skip_until is None,
            result.draft().priority == DcpPriority::Medium,
            !result.draft().disable_change_streams,
            result.draft().network == TopologyNetwork::Auto,
            result.draft().connect_timeout.total_nanos() == 60_000_000_000,
            !result.draft().tls.enabled && result.draft().tls.root_ca_path is None
                && result.draft().tls.server_name is None,
            result.draft().health_check.enabled,
            result.draft().health_check.interval.total_nanos() == 60_000_000_000,
            result.draft().health_check.timeout.total_nanos() == 10_000_000_000,
    {
        DcpConfigBuilder {
            config: DcpConfig {
                seeds: Vec::new(),
                credentials,
                bucket: bucket.to_owned(),
                collections: CollectionFilter::default(),
                mode: DcpMode::Infinite,
                start_from: StartPosition::Earliest,
                flow_control: FlowControlConfig::default(),
                checkpoint: CheckpointConfig::default(),
                rollback_policy: RollbackPolicy::StopAndReport,
                rollback_mitigation: RollbackMitigationConfig::default(),
                listener: ListenerConfig::default(),
                priority: DcpPriority::Medium,
                disable_change_streams: false,
                network: TopologyNetwork::Auto,
                connect_timeout: Interval::from_secs(60),
                tls: TlsConfig::default(),
                health_check: HealthCheckConfig::default(),
            },
        }
    }

    /// Validates all cross-field invariants.
    pub fn validate(&self) -> (result: Result<()>)
        ensures
            checked(result, self.fault()),
    {
        if self.seeds.len() == 0 {
            return Err(
                DcpError::InvalidConfiguration("at least one seed is required".to_owned()),
            );
        }
        if is_blank(self.credentials.username()) {
            return Err(DcpError::InvalidConfiguration("username must not be empty".to_owned()));
        }
        if self.credentials.password().is_empty() {
            return Err(DcpError::InvalidConfiguration("password must not be empty".to_owned()));
        }
        if is_blank(self.bucket.as_str()) {
            return Err(DcpError::InvalidConfiguration("bucket must not be empty".to_owned()));
        }
        if self.connect_timeout.is_zero() {
            return Err(
                DcpError::InvalidConfiguration(
                    "connection timeout must be greater than zero".to_owned(),
                ),
            );
        }
        if let Some(name) = &self.tls.server_name {
            if name.as_str().is_empty() {
                return Err(
                    DcpError::InvalidConfiguration("TLS server name must not be empty".to_owned()),
                );
            }
        }
        self.collections.validate()?;
        self.flow_control.validate()?;
        self.checkpoint.validate()?;
        Ok(())
    }
}

/// Builder for [`DcpConfig`].
pub struct DcpConfigBuilder {
    config: DcpConfig,
}

impl DcpConfigBuilder {
    /// Configuration assembled so far.
    pub closed spec fn draft(&self) -> DcpConfig {
        self.config
    }

    /// Appends a seed node; `ipv6_error` is as for [`SeedAddress::parse`].
    pub fn seed(self, seed: &str, ipv6_error: Option<String>) -> (result: Result<Self>)
        ensures
            match result {
                Ok(builder) => {
                    &&& seed_fault(trimmed(seed@), opt_text(ipv6_error)) is None
                    &&& builder.draft().seeds@.len() == self.draft().seeds@.len() + 1
                    &&& builder.draft().seeds@.drop_last() == self.draft().seeds@
                    &&& builder.draft().seeds@.last()@ == trimmed(seed@)
                    &&& builder.draft() == (DcpConfig {
                        seeds: builder.draft().seeds,
                        ..self.draft()
                    })
                },
                Err(e) => seed_fault(trimmed(seed@), opt_text(ipv6_error)) == Some(e@),
            },
    {
        let parsed_seed = SeedAddress::parse(seed, ipv6_error)?;
        let mut config = self.config;
        let ghost before = config.seeds@;
        config.seeds.push(parsed_seed);
        assert(config.seeds@.drop_last() =~= before);
        Ok(DcpConfigBuilder { config })
    }

    /// Replaces the collection filter.
    #[must_use]
    pub fn collections(self, filter: CollectionFilter) -> (result: Self)
        ensures
            result.draft() == (DcpConfig { collections: filter, ..self.draft() }),
    {
        DcpConfigBuilder { config: DcpConfig { collections: filter, ..self.config } }
    }

    /// Selects finite or infinite mode.
    #[must_use]
    pub fn mode(self, mode: DcpMode) -> (result: Self)
        ensures
            result.draft() == (DcpConfig { mode, ..self.draft() }),
    {
        DcpConfigBuilder { config: DcpConfig { mode, ..self.config } }
    }

    /// Selects the initial position.
    #[must_use]
    pub fn start_from(self, position: StartPosition) -> (result: Self)
        ensures
            result.draft() == (DcpConfig { start_from: position, ..self.draft() }),
    {
        DcpConfigBuilder { config: DcpConfig { start_from: position, ..self.config } }
    }

    /// Replaces flow-control settings.
    #[must_use]
    pub fn flow_control(self, flow_control: FlowControlConfig) -> (result: Self)
        ensures
            result.draft() == (DcpConfig { flow_control, ..self.draft() }),
    {
        DcpConfigBuilder { config: DcpConfig { flow_control, ..self.config } }
    }

    /// Replaces checkpoint settings.
    #[must_use]
    pub fn checkpoint(self, checkpoint: CheckpointConfig) -> (result: Self)
        ensures
            result.draft() == (DcpConfig { checkpoint, ..self.draft() }),
    {
        DcpConfigBuilder { config: DcpConfig { checkpoint, ..self.config } }
    }

    /// Selects rollback handling.
    #[must_use]
    pub fn rollback_policy(self, policy: RollbackPolicy) -> (result: Self)
        ensures
            result.draft() == (DcpConfig { rollback_policy: policy, ..self.draft() }),
    {
        DcpConfigBuilder { config: DcpConfig { rollback_policy: policy, ..self.config } }
    }

    /// Replaces the filtering of delivered documents.
    #[must_use]
    pub fn listener(self, listener: ListenerConfig) -> (result: Self)
        ensures
            result.draft() == (DcpConfig { listener, ..self.draft() }),
    {
        DcpConfigBuilder { config: DcpConfig { listener, ..self.config } }
    }

    /// Selects DCP priority.
    #[must_use]
    pub fn priority(self, priority: DcpPriority) -> (result: Self)
        ensures
            result.draft() == (DcpConfig { priority, ..self.draft() }),
    {
        DcpConfigBuilder { config: DcpConfig { priority, ..self.config } }
    }

    /// Enables or disables Couchbase Change Streams.
    #[must_use]
    pub fn disable_change_streams(self, disabled: bool) -> (result: Self)
        ensures
            result.draft() == (DcpConfig { disable_change_streams: disabled, ..self.draft() }),
    {
        DcpConfigBuilder { config: DcpConfig { disable_change_streams: disabled, ..self.config } }
    }

    /// Replaces TLS settings.
    #[must_use]
    pub fn tls(self, tls: TlsConfig) -> (result: Self)
        ensures
            result.draft() == (DcpConfig { tls, ..self.draft() }),
    {
        DcpConfigBuilder { config: DcpConfig { tls, ..self.config } }
    }

    /// Builds and validates the configuration.
    pub fn build(self) -> (result: Result<DcpConfig>)
        ensures
            match result {
                Ok(config) => self.draft().fault() is None && config == self.draft(),
                Err(e) => self.draft().fault() == Some(e@),
            },
    {
        self.config.validate()?;
        Ok(self.config)
    }
}

} // verus!
