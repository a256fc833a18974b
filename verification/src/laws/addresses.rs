//! Laws of endpoint addresses.
use vstd::prelude::*;

use crate::address::{
    addresses_equal, ascii_lower, endpoint_host, format_endpoint, formatted, split, split_endpoint, unbracketed,
    validated_endpoint,
};
use crate::bucket_config::{
    alternate, node_address, node_endpoint, node_services, or_empty, RawAlternateAddress,
    RawNodeExt, RawNodeServices,
};
use crate::error::{DcpFault, Result};
use crate::lists::{first_match_is, first_where_is_none};
use crate::text::{dec, decimal_is_digits, decimal_is_read, digit_value, scanned, solid};

verus! {

/// The text dials the host at the port: the host, in brackets if it holds a
/// colon, then a colon and the port in decimal.
pub open spec fn dials(address: Seq<char>, host: Seq<char>, port: u16) -> bool {
    if host.contains(':') {
        address == seq!['['] + host + seq![']', ':'] + dec(port as nat)
    } else {
        address == host + seq![':'] + dec(port as nat)
    }
}

/// The host, with or without the brackets of an IPv6 literal.
pub open spec fn names_host(text: Seq<char>, host: Seq<char>) -> bool {
    ||| text == seq!['['] + host + seq![']']
    ||| text == host && !(host.len() >= 2 && host[0] == '[' && host.last() == ']')
}

/// The host has no bracket of its own.
pub open spec fn plain_host(host: Seq<char>) -> bool {
    !host.contains('[') && !host.contains(']')
}

proof fn host_is_unbracketed(text: Seq<char>, host: Seq<char>)
    requires
        names_host(text, host),
    ensures
        unbracketed(text) == host,
{
    if text == seq!['['] + host + seq![']'] {
        assert(text[0] == '[');
        assert(text.last() == ']');
        assert(text.subrange(1, text.len() - 1) =~= host);
    }
}

/// An endpoint is written as its host and its port, and refused exactly when
/// the host is empty or holds a blank.
pub proof fn endpoints_are_written(text: &str, port: u16, host: Seq<char>, result: Result<String>)
    requires
        call_ensures(format_endpoint, (text, port), result),
        names_host(text@, host),
    ensures
        result is Ok <==> host.len() > 0 && solid(host),
        result matches Ok(address) ==> dials(address@, host, port),
        result matches Err(e) ==> e is Topology,
{
    reveal_strlit("[");
    reveal_strlit("]:");
    reveal_strlit(":");
    host_is_unbracketed(text@, host);
    assert("["@ =~= seq!['[']);
    assert("]:"@ =~= seq![']', ':']);
    assert(":"@ =~= seq![':']);
}

proof fn dialled_address_splits(address: Seq<char>, host: Seq<char>, port: u16)
    requires
        dials(address, host, port),
        plain_host(host),
        host.len() > 0,
        solid(host),
        port != 0,
    ensures
        split(address) == Ok::<(Seq<char>, u16), DcpFault>((host, port)),
{
    let digits = dec(port as nat);
    decimal_is_read(port as nat, 65535);
    decimal_is_digits(port as nat);
    if host.contains(':') {
        let inner = address.drop_first();
        let end = host.len() as int;
        assert(inner =~= host + seq![']', ':'] + digits);
        assert(inner[end] == ']');
        assert forall|j: int| 0 <= j < end implies inner[j] != ']' by {
            assert(inner[j] == host[j]);
            assert(host.contains(host[j]));
        }
        inner.index_of_first_ensures(']');
        assert(inner.contains(']'));
        assert(inner.index_of_first(']') == Some(end));
        let rest = inner.skip(end + 1);
        assert(rest =~= seq![':'] + digits);
        assert(rest.drop_first() =~= digits);
        assert(inner.take(end) =~= host);
        assert(address[0] == '[');
    } else {
        let at = host.len() as int;
        assert(address[at] == ':');
        assert(address.contains(':'));
        address.index_of_last_ensures(':');
        assert forall|j: int| at < j < address.len() implies address[j] != ':' by {
            assert(address[j] == digits[j - at - 1]);
        }
        assert(address.index_of_last(':') == Some(at));
        assert(address.take(at) =~= host);
        assert(address.skip(at + 1) =~= digits);
        assert(address[0] == host[0]);
        assert(host.contains(host[0]));
    }
}

/// An endpoint that was written is read back as the same host and port.
pub proof fn written_endpoints_are_read_back(
    text: &str,
    port: u16,
    host: Seq<char>,
    address: String,
    address_str: &str,
    result: Result<(&str, u16)>,
)
    requires
        call_ensures(format_endpoint, (text, port), Ok(address)),
        names_host(text@, host),
        plain_host(host),
        port != 0,
        address_str@ == address@,
        call_ensures(split_endpoint, (address_str,), result),
    ensures
        result matches Ok(v) && v.0@ == host && v.1 == port,
{
    endpoints_are_written(text, port, host, Ok(address));
    dialled_address_splits(address@, host, port);
}

/// What is read off an address is a host without blanks and a port that is not
/// zero, and the address starts with that host.
pub proof fn read_endpoints_are_sound(address: &str, host: &str, port: u16)
    requires
        call_ensures(split_endpoint, (address,), Ok((host, port))),
    ensures
        port != 0,
        host@.len() > 0,
        solid(host@),
        (host@ + seq![':']).is_prefix_of(address@) || (seq!['['] + host@ + seq![
            ']',
            ':',
        ]).is_prefix_of(address@),
        address@[0] != '[' ==> !host@.contains(':'),
{
    if address@.len() > 0 && address@[0] == '[' {
        let inner = address@.drop_first();
        inner.index_of_first_ensures(']');
        let end = inner.index_of_first(']')->0;
        assert(0 <= end < inner.len());
        let rest = inner.skip(end + 1);
        assert(rest[0] == inner[end + 1]);
        let digits = rest.drop_first();
        scanned_is_bounded(digits, 10, 65535, 0);
        scanned_is_bounded(digits.drop_first(), 10, 65535, 0);
        let whole = seq!['['] + host@ + seq![']', ':'];
        assert(address@.take(whole.len() as int) =~= whole);
    } else {
        address@.index_of_last_ensures(':');
        let at = address@.index_of_last(':')->0;
        let digits = address@.skip(at + 1);
        scanned_is_bounded(digits, 10, 65535, 0);
        scanned_is_bounded(digits.drop_first(), 10, 65535, 0);
        let whole = host@ + seq![':'];
        assert(address@.take(whole.len() as int) =~= whole);
    }
}

/// An address without a colon, with several colons outside brackets, or with
/// an opening bracket alone is refused.
pub proof fn malformed_endpoints_are_refused(address: &str, result: Result<(&str, u16)>)
    requires
        call_ensures(split_endpoint, (address,), result),
    ensures
        !address@.contains(':') ==> result is Err,
        address@.len() > 0 && address@[0] == '[' && !address@.contains(']') ==> result is Err,
        forall|i: int, j: int|
            0 <= i < j < address@.len() && address@[0] != '[' && #[trigger] address@[i] == ':'
                && #[trigger] address@[j] == ':' ==> result is Err,
        result matches Err(e) ==> e is Topology,
{
    address@.index_of_last_ensures(':');
    if address@.len() > 0 && address@[0] == '[' {
        let inner = address@.drop_first();
        inner.index_of_first_ensures(']');
        if result is Ok {
            let end = inner.index_of_first(']')->0;
            assert(inner[end] == address@[end + 1]);
            let rest = inner.skip(end + 1);
            assert(rest[0] == address@[end + 2]);
        }
    } else {
        assert forall|i: int, j: int|
            0 <= i < j < address@.len() && address@[0] != '[' && #[trigger] address@[i] == ':'
                && #[trigger] address@[j] == ':' implies result is Err by {
            assert(address@.contains(':'));
            let at = address@.index_of_last(':')->0;
            assert(j <= at);
            assert(address@.take(at)[i] == ':');
            assert(address@.take(at).contains(':'));
        }
    }
}

/// Validating an address reads it and writes it again.
pub proof fn validation_reads_and_writes(
    address: &str,
    read: Result<(&str, u16)>,
    written: Result<String>,
    result: Result<String>,
)
    requires
        call_ensures(validated_endpoint, (address,), result),
        call_ensures(split_endpoint, (address,), read),
        read matches Ok(v) ==> call_ensures(format_endpoint, (v.0, v.1), written),
    ensures
        result is Ok <==> read is Ok && written is Ok,
        result matches Ok(text) ==> text@ == written->Ok_0@,
{
}

/// Letters that differ at most in ASCII case.
pub open spec fn same_letter(a: char, b: char) -> bool {
    ||| a == b
    ||| 0x41 <= a as u32 <= 0x5a && (b as u32) == (a as u32) + 0x20
    ||| 0x41 <= b as u32 <= 0x5a && (a as u32) == (b as u32) + 0x20
}

proof fn letters_fold(a: char, b: char)
    ensures
        same_letter(a, b) <==> ascii_lower(a) == ascii_lower(b),
{
    assert(a as u32 == b as u32 ==> a == b);
}

proof fn scanned_is_bounded(s: Seq<char>, radix: nat, limit: nat, value: nat)
    requires
        value <= limit,
    ensures
        scanned(s, radix, limit, value) matches Ok(v) ==> v <= limit,
    decreases s.len(),
{
    if s.len() > 0 {
        if let Some(d) = digit_value(s[0], radix) {
            if value * radix + d <= limit {
                scanned_is_bounded(s.drop_first(), radix, limit, value * radix + d);
            }
        }
    }
}

/// Two addresses are equal exactly when both can be read, their ports are the
/// same and their hosts differ at most in ASCII case.
pub proof fn equal_addresses_dial_the_same(
    left: &str,
    right: &str,
    l: Result<(&str, u16)>,
    r: Result<(&str, u16)>,
    result: bool,
)
    requires
        call_ensures(split_endpoint, (left,), l),
        call_ensures(split_endpoint, (right,), r),
        call_ensures(addresses_equal, (left, right), result),
    ensures
        result <==> {
            &&& l is Ok && r is Ok
            &&& l->Ok_0.1 == r->Ok_0.1
            &&& l->Ok_0.0@.len() == r->Ok_0.0@.len()
            &&& forall|i: int|
                0 <= i < l->Ok_0.0@.len() ==> same_letter(#[trigger] l->Ok_0.0@[i], r->Ok_0.0@[i])
        },
{
    if l is Ok && r is Ok {
        let a = l->Ok_0.0@;
        let b = r->Ok_0.0@;
        if a.len() == b.len() {
            assert forall|i: int| 0 <= i < a.len() implies (same_letter(#[trigger] a[i], b[i])
                <==> ascii_lower(a[i]) == ascii_lower(b[i])) by {
                letters_fold(a[i], b[i]);
            }
        }
    }
}

/// The host of a seed is what stands in its brackets, or else what stands
/// before its only colon, or else all of it.
pub proof fn seeds_name_their_host(seed: &str, result: &str, host: Seq<char>, rest: Seq<char>)
    requires
        call_ensures(endpoint_host, (seed,), result),
    ensures
        seed@ == seq!['['] + host + seq![']'] + rest && !host.contains(']') ==> result@ == host,
        seed@ == host + seq![':'] + rest && !host.contains(':') && !rest.contains(':')
            && !host.contains('[') && !host.contains(']') && !rest.contains(']') ==> result@
            == host,
        seed@ == host && !host.contains(':') && !host.contains('[') ==> result@ == host,
{
    let s = seed@;
    if s == seq!['['] + host + seq![']'] + rest && !host.contains(']') {
        let inner = s.drop_first();
        let end = host.len() as int;
        assert(inner =~= host + seq![']'] + rest);
        assert(inner[end] == ']');
        assert(inner.contains(']'));
        inner.index_of_first_ensures(']');
        assert forall|j: int| 0 <= j < end implies inner[j] != ']' by {
            assert(inner[j] == host[j]);
            assert(host.contains(host[j]));
        }
        assert(inner.take(end) =~= host);
        assert(s[0] == '[');
    } else if s == host + seq![':'] + rest && !host.contains(':') && !rest.contains(':')
        && !host.contains('[') && !host.contains(']') && !rest.contains(']') {
        let at = host.len() as int;
        assert(s[at] == ':');
        assert(s.contains(':'));
        s.index_of_first_ensures(':');
        s.index_of_last_ensures(':');
        assert forall|j: int| 0 <= j < s.len() && j != at implies s[j] != ':' by {
            if j < at {
                assert(s[j] == host[j]);
                assert(host.contains(host[j]));
            } else {
                assert(s[j] == rest[j - at - 1]);
                assert(rest.contains(rest[j - at - 1]));
            }
        }
        assert(s.take(at) =~= host);
        if at > 0 {
            assert(s[0] == host[0]);
            assert(host.contains(host[0]));
        }
    } else if s == host && !host.contains(':') && !host.contains('[') {
        if s.len() > 0 {
            assert(host.contains(host[0]));
        }
    }
}

/// What the node advertises for the network: for the default network its own
/// host name and services; for another the first alternate address of that
/// name, with its own ports if it has them and those of the node if not.
pub open spec fn advertises(
    node: RawNodeExt,
    network: Seq<char>,
    hostname: Option<String>,
    services: RawNodeServices,
) -> bool {
    if network == "default"@ {
        hostname == node.hostname && services == node.services
    } else {
        exists|i: int|
            #[trigger] first_alternate(node.alternate_addresses@, network, i) && hostname
                == node.alternate_addresses@[i].hostname && services == (
            match node.alternate_addresses@[i].ports {
                Some(ports) => ports,
                None => node.services,
            })
    }
}

/// The alternate address at `i` is the first one of that network.
pub open spec fn first_alternate(
    list: Seq<RawAlternateAddress>,
    network: Seq<char>,
    i: int,
) -> bool {
    &&& 0 <= i < list.len()
    &&& list[i].network@ == network
    &&& forall|j: int| 0 <= j < i ==> (#[trigger] list[j]).network@ != network
}

/// Host that is dialled: the advertised one, or the host that the
/// configuration came from where none is advertised.
pub open spec fn dialled_host(hostname: Option<String>, source_host: Seq<char>) -> Seq<char> {
    match hostname {
        Some(h) => if h@.len() == 0 {
            source_host
        } else {
            h@
        },
        None => source_host,
    }
}

/// A node is dialled at the host and at the port that it advertises for the
/// network: the plain key-value port exactly when TLS is off, the TLS port
/// exactly when TLS is on. A node that advertises no such port is refused.
pub proof fn nodes_are_dialled_at_the_advertised_port(
    node: RawNodeExt,
    network: &str,
    source_host: &str,
    tls: bool,
    hostname: Option<String>,
    services: RawNodeServices,
    host: Seq<char>,
    result: Result<String>,
)
    requires
        call_ensures(node_endpoint, (&node, network, source_host, tls), result),
        advertises(node, network@, hostname, services),
        names_host(dialled_host(hostname, source_host@), host),
    ensures
        tls && services.kv_ssl == 0 ==> result is Err,
        !tls && services.kv == 0 ==> result is Err,
        tls && services.kv_ssl != 0 && host.len() > 0 && solid(host) ==> (result matches Ok(address)
            && dials(address@, host, services.kv_ssl)),
        !tls && services.kv != 0 && host.len() > 0 && solid(host) ==> (result matches Ok(address)
            && dials(address@, host, services.kv)),
        host.len() == 0 || !solid(host) ==> result is Err,
{
    reveal_strlit("[");
    reveal_strlit("]:");
    reveal_strlit(":");
    assert("["@ =~= seq!['[']);
    assert("]:"@ =~= seq![']', ':']);
    assert(":"@ =~= seq![':']);
    host_is_unbracketed(dialled_host(hostname, source_host@), host);
    advertised_services_are_found(node, network@, hostname, services);
}

proof fn advertised_services_are_found(
    node: RawNodeExt,
    network: Seq<char>,
    hostname: Option<String>,
    services: RawNodeServices,
)
    requires
        advertises(node, network, hostname, services),
    ensures
        node_services(node, network) == Some((or_empty(hostname), services)),
{
    if network != "default"@ {
        let list = node.alternate_addresses@;
        let i = choose|i: int|
            #[trigger] first_alternate(list, network, i) && hostname == list[i].hostname
                && services == (match list[i].ports {
                Some(ports) => ports,
                None => node.services,
            });
        first_match_is(list, i);
        assert(alternate(node, network) == Some(list[i]));
    }
}

/// The address that a node has on a network dials what it advertises there.
pub(crate) proof fn node_address_is_advertised(
    node: RawNodeExt,
    network: Seq<char>,
    source_host: Seq<char>,
    tls: bool,
    hostname: Option<String>,
    services: RawNodeServices,
    host: Seq<char>,
)
    requires
        advertises(node, network, hostname, services),
        names_host(dialled_host(hostname, source_host), host),
    ensures
        node_address(node, network, source_host, tls) matches Ok(address) ==> {
            &&& tls ==> services.kv_ssl != 0 && dials(address, host, services.kv_ssl)
            &&& !tls ==> services.kv != 0 && dials(address, host, services.kv)
        },
{
    reveal_strlit("[");
    reveal_strlit("]:");
    reveal_strlit(":");
    assert("["@ =~= seq!['[']);
    assert("]:"@ =~= seq![']', ':']);
    assert(":"@ =~= seq![':']);
    host_is_unbracketed(dialled_host(hostname, source_host), host);
    advertised_services_are_found(node, network, hostname, services);
    assert(node_address(node, network, source_host, tls) is Ok ==> node_address(
        node,
        network,
        source_host,
        tls,
    ) == formatted(
        dialled_host(hostname, source_host),
        if tls {
            services.kv_ssl
        } else {
            services.kv
        },
    ));
}

/// The address of a node reads as the host and the port that it advertises:
/// the TLS port with TLS, the plain port without.
pub proof fn tls_chooses_the_port(
    node: RawNodeExt,
    network: &str,
    source_host: &str,
    tls: bool,
    hostname: Option<String>,
    services: RawNodeServices,
    host: Seq<char>,
    address: String,
    address_str: &str,
    result: Result<(&str, u16)>,
)
    requires
        call_ensures(node_endpoint, (&node, network, source_host, tls), Ok(address)),
        advertises(node, network@, hostname, services),
        names_host(dialled_host(hostname, source_host@), host),
        plain_host(host),
        address_str@ == address@,
        call_ensures(split_endpoint, (address_str,), result),
    ensures
        result is Ok,
        result->Ok_0.0@ == host,
        tls ==> result->Ok_0.1 == services.kv_ssl,
        !tls ==> result->Ok_0.1 == services.kv,
{
    nodes_are_dialled_at_the_advertised_port(
        node,
        network,
        source_host,
        tls,
        hostname,
        services,
        host,
        Ok(address),
    );
    dialled_address_splits(
        address@,
        host,
        if tls {
            services.kv_ssl
        } else {
            services.kv
        },
    );
}

/// A node that advertises nothing for a network is not dialled on it.
pub proof fn unadvertised_networks_are_refused(
    node: RawNodeExt,
    network: &str,
    source_host: &str,
    tls: bool,
    result: Result<String>,
)
    requires
        call_ensures(node_endpoint, (&node, network, source_host, tls), result),
        network@ != "default"@,
        forall|j: int|
            0 <= j < node.alternate_addresses@.len() ==> (
            #[trigger] node.alternate_addresses@[j]).network@ != network@,
    ensures
        result matches Err(e) && e is Topology,
{
    first_where_is_none(
        node.alternate_addresses@,
        |a: RawAlternateAddress| a.network@ == network@,
    );
}

} // verus!
