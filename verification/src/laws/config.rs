//! Laws of configuration.
use vstd::prelude::*;

use crate::config::{
    explicit_port, CheckpointConfig, CheckpointMode, CollectionFilter, Credentials, DcpConfig,
    DcpConfigBuilder, DcpMode, DcpPriority, FlowControlConfig, ListenerConfig, PositiveCount,
    RollbackPolicy, SeedAddress, StartPosition, TlsConfig,
};
use crate::error::Result;
use crate::text::{
    blank, dec, decimal_is_digits, decimal_is_read, solid, texts, trim, trimmed, white_space,
};

verus! {

/// A count is positive.
pub proof fn counts_are_positive(value: usize, result: Option<PositiveCount>, got: usize)
    requires
        call_ensures(PositiveCount::new, (value,), result),
        result matches Some(count) ==> call_ensures(PositiveCount::get, (count,), got),
    ensures
        result is Some <==> value > 0,
        result is Some ==> got == value,
{
}

proof fn revealed_ports()
    ensures
        dec(11207) == seq!['1', '1', '2', '0', '7'],
        dec(11210) == seq!['1', '1', '2', '1', '0'],
{
    reveal_with_fuel(crate::text::in_radix, 6);
    assert(11207nat / 10 == 1120 && 1120nat / 10 == 112 && 112nat / 10 == 11 && 11nat / 10 == 1);
    assert(11210nat / 10 == 1121 && 1121nat / 10 == 112);
    assert(dec(11207) =~= seq!['1', '1', '2', '0', '7']);
    assert(dec(11210) =~= seq!['1', '1', '2', '1', '0']);
}

/// A seed without a port is dialled at the default port of the service, with
/// TLS or without; an IPv6 address is put in brackets for it.
pub proof fn seeds_without_port_get_the_default(
    seed: SeedAddress,
    tls: bool,
    address: String,
    host: Seq<char>,
    port: Seq<char>,
)
    requires
        call_ensures(SeedAddress::with_default_kv_port, (&seed, tls), address),
        port == if tls {
            seq!['1', '1', '2', '0', '7']
        } else {
            seq!['1', '1', '2', '1', '0']
        },
        host.len() > 0,
        !host.contains('[') && !host.contains(']'),
    ensures
        seed@ == host && !host.contains(':') ==> address@ == host + seq![':'] + port,
        seed@ == seq!['['] + host + seq![']'] ==> address@ == seq!['['] + host + seq![']', ':']
            + port,
        seed@ == host && (exists|i: int, j: int|
            0 <= i < j < host.len() && #[trigger] host[i] == ':' && #[trigger] host[j] == ':')
            ==> address@ == seq!['['] + host + seq![']', ':'] + port,
{
    revealed_ports();
    reveal_strlit("[");
    reveal_strlit("]:");
    reveal_strlit(":");
    assert("["@ =~= seq!['[']);
    assert("]:"@ =~= seq![']', ':']);
    assert(":"@ =~= seq![':']);
    let s = seed@;
    assert(host.contains(host[0]));
    if s == host {
        assert(s[0] != '[');
    }
    if s == host && !host.contains(':') {
        assert(!explicit_port(s));
    }
    if s == seq!['['] + host + seq![']'] {
        assert(s[0] == '[');
        assert forall|i: int| !crate::config::bracket_colon(s, i) by {
            if 0 <= i && i + 1 < s.len() {
                if i == 0 {
                    assert(s[i] == '[');
                } else {
                    assert(s[i] == host[i - 1]);
                    assert(host.contains(host[i - 1]));
                }
            }
        }
        assert(!explicit_port(s));
        assert(s + seq![':'] + port =~= seq!['['] + host + seq![']', ':'] + port);
    }
    if s == host && (exists|i: int, j: int|
        0 <= i < j < host.len() && #[trigger] host[i] == ':' && #[trigger] host[j] == ':') {
        let (i, j) = choose|i: int, j: int|
            0 <= i < j < host.len() && #[trigger] host[i] == ':' && #[trigger] host[j] == ':';
        assert(s.contains(':'));
        s.index_of_first_ensures(':');
        s.index_of_last_ensures(':');
        assert(s.index_of_first(':')->0 <= i);
        assert(j <= s.index_of_last(':')->0);
        assert(!explicit_port(s));
    }
}

/// A seed with a port is dialled as it is.
pub proof fn seeds_with_port_are_kept(
    seed: SeedAddress,
    tls: bool,
    address: String,
    host: Seq<char>,
    port: u16,
)
    requires
        call_ensures(SeedAddress::with_default_kv_port, (&seed, tls), address),
        host.len() > 0,
        !host.contains('[') && !host.contains(']'),
    ensures
        seed@ == host + seq![':'] + dec(port as nat) && !host.contains(':') ==> address@ == seed@,
        seed@ == seq!['['] + host + seq![']', ':'] + dec(port as nat) ==> address@ == seed@,
{
    let s = seed@;
    let digits = dec(port as nat);
    decimal_is_digits(port as nat);
    decimal_is_read(port as nat, 65535);
    assert(host.contains(host[0]));
    if s == host + seq![':'] + digits && !host.contains(':') {
        let at = host.len() as int;
        assert(s[at] == ':');
        assert(s.contains(':'));
        assert(s[0] == host[0]);
        s.index_of_first_ensures(':');
        s.index_of_last_ensures(':');
        assert forall|k: int| 0 <= k < s.len() && k != at implies s[k] != ':' by {
            if k < at {
                assert(s[k] == host[k]);
                assert(host.contains(host[k]));
            } else {
                assert(s[k] == digits[k - at - 1]);
            }
        }
        assert(s.skip(at + 1) =~= digits);
        assert(explicit_port(s));
    }
    if s == seq!['['] + host + seq![']', ':'] + digits {
        let end: int = host.len() as int + 1;
        assert(s[0] == '[');
        assert(s[end] == ']' && s[end + 1] == ':');
        assert(crate::config::bracket_colon(s, end));
        assert forall|j: int| end < j implies !#[trigger] crate::config::bracket_colon(s, j) by {
            if j + 1 < s.len() {
                if j == end + 1 {
                    assert(s[j] == ':');
                } else {
                    assert(s[j] == digits[j - end - 2]);
                }
            }
        }
        assert(s.len() > end + 2);
        assert(explicit_port(s));
    }
}

/// A seed is kept as it was written, but for white space around it.
pub proof fn seeds_are_kept(
    value: &str,
    complaint: Option<String>,
    result: Result<SeedAddress>,
    bare: &str,
    text: &str,
)
    requires
        call_ensures(SeedAddress::parse, (value, complaint), result),
        call_ensures(trim, (value,), bare),
        result matches Ok(seed) ==> call_ensures(SeedAddress::as_str, (&seed,), text),
    ensures
        result is Ok ==> text@ == bare@,
        bare@.len() == 0 ==> result is Err,
        !solid(bare@) ==> result is Err,
        (exists|i: int|
            0 <= i && i + 2 < bare@.len() && #[trigger] bare@[i] == ':' && bare@[i + 1] == '/'
                && bare@[i + 2] == '/') ==> result is Err,
        bare@.len() > 0 && solid(bare@) && !bare@.contains(':') && bare@[0] != '['
            ==> result is Ok,
        bare@.len() > 0 && bare@[0] == '[' && complaint is Some ==> result is Err,
        bare@.len() > 0 && bare@[0] != '[' && solid(bare@) && !bare@.contains('/') && (exists|
            i: int,
            j: int,
        |
            0 <= i < j < bare@.len() && #[trigger] bare@[i] == ':' && #[trigger] bare@[j] == ':')
            ==> (result is Ok <==> complaint is None),
        result matches Err(e) ==> e is InvalidConfiguration,
{
    let s = bare@;
    if exists|i: int|
        0 <= i && i + 2 < s.len() && #[trigger] s[i] == ':' && s[i + 1] == '/' && s[i + 2] == '/' {
        let i = choose|i: int|
            0 <= i && i + 2 < s.len() && #[trigger] s[i] == ':' && s[i + 1] == '/' && s[i + 2]
                == '/';
        assert(crate::config::scheme_at(s, i));
        assert(crate::config::has_scheme(s));
    }
    if crate::config::has_scheme(s) {
        let i = choose|i: int| crate::config::scheme_at(s, i);
        assert(s.contains(s[i + 1]));
    }
    if exists|i: int, j: int|
        0 <= i < j < s.len() && #[trigger] s[i] == ':' && #[trigger] s[j] == ':' {
        let (i, j) = choose|i: int, j: int|
            0 <= i < j < s.len() && #[trigger] s[i] == ':' && #[trigger] s[j] == ':';
        assert(s.contains(':'));
        s.index_of_first_ensures(':');
        s.index_of_last_ensures(':');
        assert(s.index_of_first(':')->0 <= i);
        assert(j <= s.index_of_last(':')->0);
    }
    if !s.contains(':') && crate::config::has_scheme(s) {
        let i = choose|i: int| crate::config::scheme_at(s, i);
        assert(s.contains(s[i]));
    }
}

/// A seed with a host and a port is accepted exactly when the port is not
/// zero.
pub proof fn seed_ports_are_not_zero(
    value: &str,
    complaint: Option<String>,
    result: Result<SeedAddress>,
    host: Seq<char>,
    port: u16,
)
    requires
        call_ensures(SeedAddress::parse, (value, complaint), result),
        trimmed(value@) == host + seq![':'] + dec(port as nat),
        host.len() > 0,
        solid(host),
        !host.contains(':') && !host.contains('[') && !host.contains(']'),
    ensures
        result is Ok <==> port != 0,
{
    let s = trimmed(value@);
    let digits = dec(port as nat);
    decimal_is_digits(port as nat);
    decimal_is_read(port as nat, 65535);
    let at = host.len() as int;
    assert(host.contains(host[0]));
    assert(s[0] == host[0]);
    assert(s[at] == ':');
    assert(s.contains(':'));
    s.index_of_first_ensures(':');
    s.index_of_last_ensures(':');
    assert forall|k: int| 0 <= k < s.len() && k != at implies s[k] != ':' by {
        if k < at {
            assert(s[k] == host[k]);
            assert(host.contains(host[k]));
        } else {
            assert(s[k] == digits[k - at - 1]);
        }
    }
    assert(s.skip(at + 1) =~= digits);
    assert(solid(s)) by {
        assert forall|k: int| 0 <= k < s.len() implies !white_space(#[trigger] s[k]) by {
            if k < at {
                assert(s[k] == host[k]);
            } else if k > at {
                assert(s[k] == digits[k - at - 1]);
            }
        }
    }
    assert(!crate::config::has_scheme(s)) by {
        if crate::config::has_scheme(s) {
            let i = choose|i: int| crate::config::scheme_at(s, i);
            assert(i == at);
            assert(s[at + 1] == digits[0]);
        }
    }
}

/// A bracketed seed is the text of an IPv6 address, alone or with a port
/// behind it that is not zero.
pub proof fn bracketed_seeds_hold_an_address(
    value: &str,
    complaint: Option<String>,
    result: Result<SeedAddress>,
    part: Option<&str>,
    host: Seq<char>,
    rest: Seq<char>,
    port: u16,
)
    requires
        call_ensures(SeedAddress::parse, (value, complaint), result),
        call_ensures(SeedAddress::ipv6_text, (value,), part),
        trimmed(value@) == seq!['['] + host + seq![']'] + rest,
        solid(trimmed(value@)),
        !trimmed(value@).contains('/'),
        !host.contains(']'),
    ensures
        part matches Some(text) && text@ == host,
        complaint is Some ==> result is Err,
        complaint is None && rest.len() == 0 ==> result is Ok,
        complaint is None && rest == seq![':'] + dec(port as nat) ==> (result is Ok <==> port
            != 0),
        rest.len() > 0 && rest[0] != ':' ==> result is Err,
{
    let s = trimmed(value@);
    let end: int = host.len() as int + 1;
    assert(s[0] == '[');
    assert(s[end] == ']');
    assert forall|k: int| 0 <= k < end implies s[k] != ']' by {
        if k > 0 {
            assert(s[k] == host[k - 1]);
            assert(host.contains(host[k - 1]));
        }
    }
    s.index_of_first_ensures(']');
    assert(s.index_of_first(']') == Some(end));
    assert(s.subrange(1, end) =~= host);
    assert(s.skip(end + 1) =~= rest);
    if crate::config::has_scheme(s) {
        let i = choose|i: int| crate::config::scheme_at(s, i);
        assert(s.contains(s[i + 1]));
    }
    if rest == seq![':'] + dec(port as nat) {
        decimal_is_digits(port as nat);
        decimal_is_read(port as nat, 65535);
        assert(rest.drop_first() =~= dec(port as nat));
    }
}

/// Without brackets, only a text with more than one colon is taken for an IPv6
/// address, and then the whole of it.
pub proof fn colons_tell_an_address(value: &str, part: Option<&str>, bare: &str)
    requires
        call_ensures(SeedAddress::ipv6_text, (value,), part),
        call_ensures(trim, (value,), bare),
        bare@.len() > 0 && bare@[0] != '[',
    ensures
        part is Some <==> exists|i: int, j: int|
            0 <= i < j < bare@.len() && #[trigger] bare@[i] == ':' && #[trigger] bare@[j] == ':',
        part matches Some(text) ==> text@ == bare@,
{
    let s = bare@;
    s.index_of_first_ensures(':');
    s.index_of_last_ensures(':');
    if exists|i: int, j: int|
        0 <= i < j < s.len() && #[trigger] s[i] == ':' && #[trigger] s[j] == ':' {
        let (i, j) = choose|i: int, j: int|
            0 <= i < j < s.len() && #[trigger] s[i] == ':' && #[trigger] s[j] == ':';
        assert(s.contains(':'));
        assert(s.index_of_first(':')->0 <= i);
        assert(j <= s.index_of_last(':')->0);
    }
    if part is Some {
        let a = s.index_of_first(':')->0;
        let b = s.index_of_last(':')->0;
        assert(s[a] == ':' && s[b] == ':');
    }
}

/// Credentials give back what they were made with, and show nothing of the
/// password.
pub proof fn credentials_hide_the_password(
    username: &str,
    first: &str,
    second: &str,
    a: Credentials,
    b: Credentials,
    shown_a: String,
    shown_b: String,
    user: &str,
    password: &str,
)
    requires
        call_ensures(Credentials::new, (username, first), a),
        call_ensures(Credentials::new, (username, second), b),
        call_ensures(Credentials::debug_text, (&a,), shown_a),
        call_ensures(Credentials::debug_text, (&b,), shown_b),
        call_ensures(Credentials::username, (&a,), user),
        call_ensures(Credentials::password, (&a,), password),
    ensures
        shown_a@ == shown_b@,
        user@ == username@,
        password@ == first@,
{
}

/// A collection filter is sound exactly when scope and collections have names
/// and no collection is named twice.
pub proof fn collection_filters_are_checked(filter: CollectionFilter, result: Result<()>)
    requires
        call_ensures(CollectionFilter::validate, (&filter,), result),
    ensures
        result is Ok <==> {
            &&& !blank(filter.scope@)
            &&& forall|i: int|
                0 <= i < filter.collections@.len() ==> !blank((#[trigger] filter.collections@[i])@)
            &&& forall|i: int, j: int|
                0 <= i < j < filter.collections@.len() ==> (#[trigger] filter.collections@[i])@ != (
                #[trigger] filter.collections@[j])@
        },
        result matches Err(e) ==> e is InvalidConfiguration,
{
    let names = texts(filter.collections@);
    assert forall|i: int| 0 <= i < names.len() implies #[trigger] names[i]
        == filter.collections@[i]@ by {}
    if result is Ok {
        assert forall|i: int| 0 <= i < filter.collections@.len() implies !blank(
            (#[trigger] filter.collections@[i])@,
        ) by {
            assert(!blank(names[i]));
        }
        assert forall|i: int, j: int| 0 <= i < j < filter.collections@.len() implies (
        #[trigger] filter.collections@[i])@ != (#[trigger] filter.collections@[j])@ by {
            assert(names[i] != names[j]);
        }
    } else if !blank(filter.scope@) && (forall|i: int|
        0 <= i < filter.collections@.len() ==> !blank((#[trigger] filter.collections@[i])@)) && (
    forall|i: int, j: int|
        0 <= i < j < filter.collections@.len() ==> (#[trigger] filter.collections@[i])@ != (
        #[trigger] filter.collections@[j])@) {
        assert forall|i: int| 0 <= i < names.len() implies !blank(#[trigger] names[i]) by {
            assert(!blank(filter.collections@[i]@));
        }
        assert(names.no_duplicates()) by {
            assert forall|i: int, j: int|
                0 <= i < names.len() && 0 <= j < names.len() && i != j implies names[i]
                != names[j] by {
                if i < j {
                    assert(filter.collections@[i]@ != filter.collections@[j]@);
                } else {
                    assert(filter.collections@[j]@ != filter.collections@[i]@);
                }
            }
        }
    }
}

/// Flow control needs a buffer, a ratio above zero and up to one, and a
/// timeout longer than the time between probes.
pub proof fn flow_control_is_checked(config: FlowControlConfig, result: Result<()>)
    requires
        call_ensures(FlowControlConfig::validate, (&config,), result),
    ensures
        result is Ok <==> {
            &&& config.connection_buffer_size > 0
            &&& 0 < config.ack_ratio_bits <= 0x3f80_0000
            &&& config.noop_interval.total_nanos() > 0
            &&& config.noop_interval.total_nanos() < config.dead_connection_timeout.total_nanos()
        },
        result matches Err(e) ==> e is InvalidConfiguration,
{
}

/// Checkpointing needs some time to save, and some between two saves.
pub proof fn checkpointing_is_checked(config: CheckpointConfig, result: Result<()>)
    requires
        call_ensures(CheckpointConfig::validate, (&config,), result),
    ensures
        result is Ok <==> config.timeout.total_nanos() > 0 && (
        config.mode matches CheckpointMode::Automatic { flush_interval }
            ==> flush_interval.total_nanos() > 0),
        result matches Err(e) ==> e is InvalidConfiguration,
{
}

/// A configuration is sound exactly when it names seeds, a user, a password
/// and a bucket, gives some time to connect, and its parts are sound.
pub proof fn configurations_are_checked(
    config: DcpConfig,
    result: Result<()>,
    collections: Result<()>,
    flow_control: Result<()>,
    checkpoint: Result<()>,
)
    requires
        call_ensures(DcpConfig::validate, (&config,), result),
        call_ensures(CollectionFilter::validate, (&config.collections,), collections),
        call_ensures(FlowControlConfig::validate, (&config.flow_control,), flow_control),
        call_ensures(CheckpointConfig::validate, (&config.checkpoint,), checkpoint),
    ensures
        result is Ok <==> {
            &&& config.seeds@.len() > 0
            &&& !blank(config.credentials.user())
            &&& config.credentials.secret().len() > 0
            &&& !blank(config.bucket@)
            &&& config.connect_timeout.total_nanos() > 0
            &&& (config.tls.server_name matches Some(name) ==> name@.len() > 0)
            &&& collections is Ok
            &&& flow_control is Ok
            &&& checkpoint is Ok
        },
{
}

/// A configuration starts with its published defaults.
pub proof fn configuration_defaults(
    credentials: Credentials,
    bucket: &str,
    builder: DcpConfigBuilder,
)
    requires
        call_ensures(DcpConfig::builder, (credentials, bucket), builder),
    ensures
        ({
            let c = builder.draft();
            &&& c.seeds@.len() == 0 && c.credentials == credentials && c.bucket@ == bucket@
            &&& c.collections.scope@ == "_default"@ && c.collections.collections@.len() == 1
            &&& c.collections.collections@[0]@ == "_default"@
            &&& c.mode == DcpMode::Infinite && c.start_from is Earliest
            &&& c.flow_control.connection_buffer_size == 20 * 1024 * 1024
            &&& c.flow_control.ack_ratio_bits == 0x3e4c_cccd
            &&& c.flow_control.event_queue_capacity.count() == 2048
            &&& c.flow_control.noop_interval.total_nanos() == 20 * 1_000_000_000
            &&& c.flow_control.dead_connection_timeout.total_nanos() == 60 * 1_000_000_000
            &&& c.checkpoint.mode matches CheckpointMode::Automatic { flush_interval }
                && flush_interval.total_nanos() == 60 * 1_000_000_000
            &&& c.checkpoint.timeout.total_nanos() == 60 * 1_000_000_000
            &&& c.rollback_policy == RollbackPolicy::StopAndReport
            &&& c.rollback_mitigation.enabled
            &&& c.rollback_mitigation.poll_interval.total_nanos() == 1_000_000_000
            &&& c.rollback_mitigation.request_timeout.total_nanos() == 5 * 1_000_000_000
            &&& c.rollback_mitigation.maximum_stall.total_nanos() == 60 * 1_000_000_000
            &&& c.listener.skip_until is None
            &&& c.priority == DcpPriority::Medium && !c.disable_change_streams
            &&& c.network is Auto
            &&& c.connect_timeout.total_nanos() == 60 * 1_000_000_000
            &&& !c.tls.enabled && c.tls.root_ca_path is None && c.tls.server_name is None
            &&& c.health_check.enabled
            &&& c.health_check.interval.total_nanos() == 60 * 1_000_000_000
            &&& c.health_check.timeout.total_nanos() == 10 * 1_000_000_000
        }),
{
    let list = builder.draft().collections.collections@;
    assert(texts(list).len() == 1);
    assert(texts(list)[0] == list[0]@);
}

/// A seed is added behind the others, and nothing else changes.
pub proof fn seeds_are_added(
    builder: DcpConfigBuilder,
    seed: &str,
    complaint: Option<String>,
    result: Result<DcpConfigBuilder>,
    parsed: Result<SeedAddress>,
    i: int,
)
    requires
        call_ensures(DcpConfigBuilder::seed, (builder, seed, complaint), result),
        call_ensures(SeedAddress::parse, (seed, complaint), parsed),
    ensures
        result is Ok <==> parsed is Ok,
        result matches Ok(next) ==> {
            let before = builder.draft();
            let after = next.draft();
            &&& after.seeds@.len() == before.seeds@.len() + 1
            &&& after.seeds@.last()@ == parsed->Ok_0@
            &&& 0 <= i < before.seeds@.len() ==> after.seeds@[i] == before.seeds@[i]
            &&& after.bucket == before.bucket && after.credentials == before.credentials
            &&& after.mode == before.mode && after.tls == before.tls
        },
{
    if let Ok(next) = result {
        let before = builder.draft().seeds@;
        let after = next.draft().seeds@;
        if 0 <= i < before.len() {
            assert(after.drop_last()[i] == after[i]);
        }
    }
}

/// Each setting is set by its own method and touches no other.
pub proof fn settings_are_independent(
    b0: DcpConfigBuilder,
    filter: CollectionFilter,
    b1: DcpConfigBuilder,
    mode: DcpMode,
    b2: DcpConfigBuilder,
    position: StartPosition,
    b3: DcpConfigBuilder,
    flow: FlowControlConfig,
    b4: DcpConfigBuilder,
    checkpoint: CheckpointConfig,
    b5: DcpConfigBuilder,
    policy: RollbackPolicy,
    b6: DcpConfigBuilder,
    listener: ListenerConfig,
    b7: DcpConfigBuilder,
    priority: DcpPriority,
    b8: DcpConfigBuilder,
    disabled: bool,
    b9: DcpConfigBuilder,
    tls: TlsConfig,
    b10: DcpConfigBuilder,
)
    requires
        call_ensures(DcpConfigBuilder::collections, (b0, filter), b1),
        call_ensures(DcpConfigBuilder::mode, (b1, mode), b2),
        call_ensures(DcpConfigBuilder::start_from, (b2, position), b3),
        call_ensures(DcpConfigBuilder::flow_control, (b3, flow), b4),
        call_ensures(DcpConfigBuilder::checkpoint, (b4, checkpoint), b5),
        call_ensures(DcpConfigBuilder::rollback_policy, (b5, policy), b6),
        call_ensures(DcpConfigBuilder::listener, (b6, listener), b7),
        call_ensures(DcpConfigBuilder::priority, (b7, priority), b8),
        call_ensures(DcpConfigBuilder::disable_change_streams, (b8, disabled), b9),
        call_ensures(DcpConfigBuilder::tls, (b9, tls), b10),
    ensures
        ({
            let a = b0.draft();
            let c = b10.draft();
            &&& c.collections == filter && c.mode == mode && c.start_from == position
            &&& c.flow_control == flow && c.checkpoint == checkpoint && c.rollback_policy == policy
            &&& c.listener == listener && c.priority == priority && c.disable_change_streams
                == disabled && c.tls == tls
            &&& c.seeds == a.seeds && c.credentials == a.credentials && c.bucket == a.bucket
            &&& c.rollback_mitigation == a.rollback_mitigation && c.network == a.network
            &&& c.connect_timeout == a.connect_timeout && c.health_check == a.health_check
        }),
{
}

/// What is built is the draft, if it is sound.
pub proof fn sound_drafts_are_built(
    builder: DcpConfigBuilder,
    result: Result<DcpConfig>,
    draft: DcpConfig,
    sound: Result<()>,
)
    requires
        call_ensures(DcpConfigBuilder::build, (builder,), result),
        draft == builder.draft(),
        call_ensures(DcpConfig::validate, (&draft,), sound),
    ensures
        result is Ok <==> sound is Ok,
        result matches Ok(config) ==> config == draft,
{
}

} // verus!
