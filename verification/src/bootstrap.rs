//! Feature negotiation and DCP controls of a new connection.
use vstd::prelude::*;

use crate::auth::{yields, SaslMechanism};
use crate::config::{DcpConfig, DcpPriority};
use crate::error::{checked, malformed_frame, malformed_frame_fault, DcpError, DcpFault, Outcome, Result};
use crate::interval::Interval;
use crate::protocol::{
    ensure_success_response, response_fault, Frame, OPCODE_DCP_CONTROL, STATUS_INVALID_ARGUMENTS,
    STATUS_NOT_SUPPORTED, STATUS_UNKNOWN_COMMAND,
};
use crate::text::{blank, dec, dec_count, dec_text, is_blank, join2, join3};

verus! {

/// Connection features negotiated with the server.
#[derive(Clone, Copy, Debug, PartialEq, Eq, Structural)]
pub enum HelloFeature {
    /// Datatype bits are understood.
    Datatype,
    /// TLS is understood.
    Tls,
    /// Mutation responses carry sequence numbers.
    SeqNo,
    /// Extended attributes are understood.
    Xattr,
    /// Extended error codes are understood.
    ExtendedErrors,
    /// The bucket is selected explicitly.
    SelectBucket,
    /// JSON values are marked.
    Json,
    /// The server may send requests.
    Duplex,
    /// The server pushes cluster maps.
    ClusterMapNotifications,
    /// Requests may carry framing extras.
    AltRequest,
    /// Collections are understood.
    Collections,
}

impl HelloFeature {
    /// Wire code.
    pub open spec fn code(self) -> u16 {
        match self {
            HelloFeature::Datatype => 0x01,
            HelloFeature::Tls => 0x02,
            HelloFeature::SeqNo => 0x04,
            HelloFeature::Xattr => 0x06,
            HelloFeature::ExtendedErrors => 0x07,
            HelloFeature::SelectBucket => 0x08,
            HelloFeature::Json => 0x0b,
            HelloFeature::Duplex => 0x0c,
            HelloFeature::ClusterMapNotifications => 0x0d,
            HelloFeature::AltRequest => 0x10,
            HelloFeature::Collections => 0x12,
        }
    }

    /// Wire code.
    pub fn as_u16(self) -> (result: u16)
        ensures
            result == self.code(),
    {
        match self {
            HelloFeature::Datatype => 0x01,
            HelloFeature::Tls => 0x02,
            HelloFeature::SeqNo => 0x04,
            HelloFeature::Xattr => 0x06,
            HelloFeature::ExtendedErrors => 0x07,
            HelloFeature::SelectBucket => 0x08,
            HelloFeature::Json => 0x0b,
            HelloFeature::Duplex => 0x0c,
            HelloFeature::ClusterMapNotifications => 0x0d,
            HelloFeature::AltRequest => 0x10,
            HelloFeature::Collections => 0x12,
        }
    }

    /// Feature with a wire code, if it is understood.
    pub fn from_u16(code: u16) -> (result: Option<Self>)
        ensures
            match result {
                Some(feature) => feature.code() == code,
                None => forall|f: HelloFeature| #[trigger] f.code() != code,
            },
    {
        match code {
            0x01 => Some(HelloFeature::Datatype),
            0x02 => Some(HelloFeature::Tls),
            0x04 => Some(HelloFeature::SeqNo),
            0x06 => Some(HelloFeature::Xattr),
            0x07 => Some(HelloFeature::ExtendedErrors),
            0x08 => Some(HelloFeature::SelectBucket),
            0x0b => Some(HelloFeature::Json),
            0x0c => Some(HelloFeature::Duplex),
            0x0d => Some(HelloFeature::ClusterMapNotifications),
            0x10 => Some(HelloFeature::AltRequest),
            0x12 => Some(HelloFeature::Collections),
            _ => None,
        }
    }
}

/// Features requested of the server, in order.
pub open spec fn wanted_features() -> Seq<HelloFeature> {
    seq![
        HelloFeature::Datatype,
        HelloFeature::Tls,
        HelloFeature::SeqNo,
        HelloFeature::Xattr,
        HelloFeature::ExtendedErrors,
        HelloFeature::SelectBucket,
        HelloFeature::Json,
        HelloFeature::Duplex,
        HelloFeature::ClusterMapNotifications,
        HelloFeature::AltRequest,
        HelloFeature::Collections,
    ]
}

/// Features requested of the server, in order.
pub fn requested_features() -> (result: Vec<HelloFeature>)
    ensures
        result@ == wanted_features(),
{
    let list: Vec<HelloFeature> = vec![
        HelloFeature::Datatype,
        HelloFeature::Tls,
        HelloFeature::SeqNo,
        HelloFeature::Xattr,
        HelloFeature::ExtendedErrors,
        HelloFeature::SelectBucket,
        HelloFeature::Json,
        HelloFeature::Duplex,
        HelloFeature::ClusterMapNotifications,
        HelloFeature::AltRequest,
        HelloFeature::Collections,
    ];
    assert(list@ =~= wanted_features());
    list
}

/// Optional DCP controls accepted during bootstrap.
#[derive(Clone, Copy, Debug, PartialEq, Eq, Structural)]
pub enum DcpControlFeature {
    /// Closing a client stream produces a server stream-end event.
    StreamEndOnClose,
    /// Couchbase Change Streams are enabled.
    ChangeStreams,
    /// Expiration events use the dedicated expiration opcode.
    ExpiryOpcode,
    /// DCP stream IDs are enabled.
    StreamId,
}

/// Features confirmed while bootstrapping one Couchbase KV connection.
#[derive(Clone, Debug)]
pub struct BootstrapCapabilities {
    /// HELLO features accepted by the server and understood by this client.
    pub hello_features: Vec<HelloFeature>,
    /// SASL mechanism used to authenticate the connection.
    pub sasl_mechanism: SaslMechanism,
    /// Optional DCP controls accepted by the server.
    pub dcp_controls: Vec<DcpControlFeature>,
}

/// Tests whether a feature is listed.
pub fn has_feature(list: &Vec<HelloFeature>, feature: HelloFeature) -> (result: bool)
    ensures
        result == list@.contains(feature),
{
    let mut i: usize = 0;
    while i < list.len()
        invariant
            i <= list@.len(),
            forall|j: int| 0 <= j < i ==> #[trigger] list@[j] != feature,
        decreases list@.len() - i,
    {
        if list[i] == feature {
            assert(list@[i as int] == feature);
            return true;
        }
        i = i + 1;
    }
    false
}

impl BootstrapCapabilities {
    /// Returns whether a HELLO feature was negotiated.
    #[must_use]
    pub fn supports(&self, feature: HelloFeature) -> (result: bool)
        ensures
            result == self.hello_features@.contains(feature),
    {
        has_feature(&self.hello_features, feature)
    }

    /// Returns whether an optional DCP control was accepted.
    #[must_use]
    pub fn supports_control(&self, feature: DcpControlFeature) -> (result: bool)
        ensures
            result == self.dcp_controls@.contains(feature),
    {
        let mut i: usize = 0;
        while i < self.dcp_controls.len()
            invariant
                i <= self.dcp_controls@.len(),
                forall|j: int| 0 <= j < i ==> #[trigger] self.dcp_controls@[j] != feature,
            decreases self.dcp_controls@.len() - i,
        {
            if self.dcp_controls[i] == feature {
                assert(self.dcp_controls@[i as int] == feature);
                return true;
            }
            i = i + 1;
        }
        false
    }
}

/// Why a name is refused, if it is.
pub open spec fn name_fault(kind: Seq<char>, name: Seq<char>) -> Option<DcpFault> {
    if blank(name) {
        Some(DcpFault::InvalidConfiguration(kind + " name must not be empty"@))
    } else {
        None
    }
}

/// Refuses a blank name.
pub fn validate_name(kind: &str, name: &str) -> (result: Result<()>)
    ensures
        checked(result, name_fault(kind@, name@)),
{
    if is_blank(name) {
        return Err(DcpError::InvalidConfiguration(join2(kind, " name must not be empty")));
    }
    Ok(())
}

/// What must hold before a connection is bootstrapped.
pub open spec fn preparation_fault(
    config: DcpConfig,
    client_name: Seq<char>,
    connection_name: Seq<char>,
) -> Option<DcpFault> {
    match config.fault() {
        Some(fault) => Some(fault),
        None => match name_fault("HELLO client"@, client_name) {
            Some(fault) => Some(fault),
            None => name_fault("DCP connection"@, connection_name),
        },
    }
}

/// Checks the configuration and the names of a connection to bootstrap.
pub fn prepare_bootstrap(config: &DcpConfig, client_name: &str, connection_name: &str) -> (result:
    Result<()>)
    ensures
        checked(result, preparation_fault(*config, client_name@, connection_name@)),
{
    config.validate()?;
    validate_name("HELLO client", client_name)?;
    validate_name("DCP connection", connection_name)
}

/// Big-endian code at position `i` of a feature list.
pub open spec fn code_at(value: Seq<u8>, i: int) -> u16 {
    (value[2 * i] * 256 + value[2 * i + 1]) as u16
}

/// A response announces a feature.
pub open spec fn announces(value: Seq<u8>, feature: HelloFeature) -> bool {
    exists|i: int|
        #![trigger code_at(value, i)]
        0 <= i < value.len() / 2 && code_at(value, i) == feature.code()
}

/// Features announced by a HELLO response.
pub fn parse_hello_features(response: &Frame) -> (result: Result<Vec<HelloFeature>>)
    ensures
        match result {
            Ok(list) => {
                &&& response.value@.len() % 2 == 0
                &&& list@.no_duplicates()
                &&& forall|f: HelloFeature|
                    #[trigger] list@.contains(f) <==> announces(response.value@, f)
            },
            Err(e) => {
                &&& response.value@.len() % 2 != 0
                &&& e@ == malformed_frame_fault(
                    "HELLO response feature payload has odd length "@ + dec(response.value@.len()),
                )
            },
        },
{
    let value = &response.value;
    if value.len() % 2 != 0 {
        return Err(
            malformed_frame(
                join2(
                    "HELLO response feature payload has odd length ",
                    dec_count(value.len()).as_str(),
                ),
            ),
        );
    }
    let mut list: Vec<HelloFeature> = Vec::new();
    let n: usize = value.len();
    let count: usize = n / 2;
    let mut i: usize = 0;
    while i < count
        invariant
            i <= count,
            count == n / 2,
            n == value@.len(),
            value@ == response.value@,
            list@.no_duplicates(),
            forall|f: HelloFeature|
                #[trigger] list@.contains(f) <==> exists|j: int|
                    #![trigger code_at(value@, j)]
                    0 <= j < i && code_at(value@, j) == f.code(),
        decreases count - i,
    {
        let code: u16 = (value[2 * i] as u16) * 256 + value[2 * i + 1] as u16;
        assert(code == code_at(value@, i as int));
        let ghost before = list@;
        match HelloFeature::from_u16(code) {
            Some(feature) => {
                if !has_feature(&list, feature) {
                    list.push(feature);
                    assert(list@ =~= before.push(feature));
                }
                assert forall|f: HelloFeature|
                    #[trigger] list@.contains(f) <==> exists|j: int|
                        #![trigger code_at(value@, j)]
                        0 <= j < i + 1 && code_at(value@, j) == f.code() by {
                    if before.contains(f) {
                        let k = choose|k: int| 0 <= k < before.len() && before[k] == f;
                        assert(list@[k] == f);
                    }
                    if f == feature {
                        if !before.contains(f) {
                            assert(list@[before.len() as int] == f);
                        }
                        assert(code_at(value@, i as int) == f.code());
                    }
                    if code_at(value@, i as int) == f.code() {
                        assert(f == feature);
                    }
                }
            },
            None => {},
        }
        i = i + 1;
    }
    Ok(list)
}

/// One control sent while a connection is configured.
pub struct ControlModel {
    pub key: Seq<char>,
    pub value: Seq<char>,
    pub feature: Option<DcpControlFeature>,
}

/// One control sent while a connection is configured.
#[derive(Debug)]
pub struct ControlStep {
    /// Control name.
    pub key: String,
    /// Control value.
    pub value: String,
    /// Feature that the server may refuse; a control without one is required.
    pub feature: Option<DcpControlFeature>,
}

impl View for ControlStep {
    type V = ControlModel;

    open spec fn view(&self) -> ControlModel {
        ControlModel { key: self.key@, value: self.value@, feature: self.feature }
    }
}

/// Contents of a list of controls.
pub open spec fn steps_of(list: Seq<ControlStep>) -> Seq<ControlModel> {
    list.map_values(|s: ControlStep| s@)
}

/// Wire name of a priority.
pub open spec fn priority_text(priority: DcpPriority) -> Seq<char> {
    match priority {
        DcpPriority::Low => "low"@,
        DcpPriority::Medium => "medium"@,
        DcpPriority::High => "high"@,
    }
}

/// Wire name of a priority.
pub fn priority_name(priority: DcpPriority) -> (result: &'static str)
    ensures
        result@ == priority_text(priority),
{
    match priority {
        DcpPriority::Low => "low",
        DcpPriority::Medium => "medium",
        DcpPriority::High => "high",
    }
}

/// Whole seconds of a length of time, at least one.
pub open spec fn seconds_text(interval: Interval) -> Seq<char> {
    let secs = interval.total_nanos() / 1_000_000_000;
    dec(
        if secs == 0 {
            1
        } else {
            secs
        },
    )
}

/// Renders the whole seconds of a length of time, at least one.
pub fn duration_seconds(interval: &Interval) -> (result: String)
    ensures
        result@ == seconds_text(*interval),
{
    let secs: u64 = interval.as_secs();
    dec_text(
        if secs == 0 {
            1
        } else {
            secs
        },
    )
}

/// A required control.
pub open spec fn required(key: Seq<char>, value: Seq<char>) -> ControlModel {
    ControlModel { key, value, feature: None }
}

/// An optional control that enables a feature.
pub open spec fn optional(key: Seq<char>, feature: DcpControlFeature) -> ControlModel {
    ControlModel { key, value: "true"@, feature: Some(feature) }
}

/// Controls of a connection, in order.
pub open spec fn controls(config: DcpConfig, collections: bool) -> Seq<ControlModel> {
    seq![
        required("enable_noop"@, "true"@),
        required("set_noop_interval"@, seconds_text(config.flow_control.noop_interval)),
        required("set_priority"@, priority_text(config.priority)),
    ] + (if config.disable_change_streams {
        Seq::empty()
    } else {
        seq![optional("change_streams"@, DcpControlFeature::ChangeStreams)]
    }) + seq![optional("enable_expiry_opcode"@, DcpControlFeature::ExpiryOpcode)] + (
    if collections {
        seq![optional("enable_stream_id"@, DcpControlFeature::StreamId)]
    } else {
        Seq::empty()
    }) + seq![
        required(
            "connection_buffer_size"@,
            dec(config.flow_control.connection_buffer_size as nat),
        ),
        optional("send_stream_end_on_client_close_stream"@, DcpControlFeature::StreamEndOnClose),
    ]
}

/// Out-of-order snapshots are never requested.
pub proof fn delivery_in_order_is_kept(config: DcpConfig, collections: bool)
    ensures
        forall|i: int|
            0 <= i < controls(config, collections).len() ==> (#[trigger] controls(
                config,
                collections,
            )[i]).key != "enable_out_of_order_snapshots"@,
{
    reveal_strlit("enable_noop");
    reveal_strlit("set_noop_interval");
    reveal_strlit("set_priority");
    reveal_strlit("change_streams");
    reveal_strlit("enable_expiry_opcode");
    reveal_strlit("enable_stream_id");
    reveal_strlit("connection_buffer_size");
    reveal_strlit("send_stream_end_on_client_close_stream");
    reveal_strlit("enable_out_of_order_snapshots");
    let c = controls(config, collections);
    let head = seq![
        required("enable_noop"@, "true"@),
        required("set_noop_interval"@, seconds_text(config.flow_control.noop_interval)),
        required("set_priority"@, priority_text(config.priority)),
    ];
    let changes = optional("change_streams"@, DcpControlFeature::ChangeStreams);
    let expiry = optional("enable_expiry_opcode"@, DcpControlFeature::ExpiryOpcode);
    let ids = optional("enable_stream_id"@, DcpControlFeature::StreamId);
    let tail = seq![
        required(
            "connection_buffer_size"@,
            dec(config.flow_control.connection_buffer_size as nat),
        ),
        optional("send_stream_end_on_client_close_stream"@, DcpControlFeature::StreamEndOnClose),
    ];
    assert forall|i: int| 0 <= i < c.len() implies (#[trigger] c[i]).key.len() != 29 by {
        assert(head.contains(c[i]) || c[i] == changes || c[i] == expiry || c[i] == ids
            || tail.contains(c[i])) by {
            if i < 3 {
                assert(c[i] == head[i]);
            } else if i >= c.len() - 2 {
                assert(c[i] == tail[i - (c.len() - 2)]);
            }
        }
    }
}

fn push_step(list: &mut Vec<ControlStep>, key: &str, value: String, feature: Option<
    DcpControlFeature,
>)
    ensures
        steps_of(final(list)@) == steps_of(old(list)@).push(
            (ControlModel { key: key@, value: value@, feature }),
        ),
{
    let ghost before = steps_of(list@);
    list.push(ControlStep { key: key.to_owned(), value, feature });
    assert(steps_of(list@) =~= before.push(ControlModel { key: key@, value: value@, feature }));
}

/// Plans the controls of a connection. Out-of-order snapshots are never
/// requested.
pub fn control_plan(config: &DcpConfig, collections: bool) -> (result: Vec<ControlStep>)
    ensures
        steps_of(result@) == controls(*config, collections),
{
    let mut list: Vec<ControlStep> = Vec::new();
    push_step(&mut list, "enable_noop", "true".to_owned(), None);
    push_step(
        &mut list,
        "set_noop_interval",
        duration_seconds(&config.flow_control.noop_interval),
        None,
    );
    push_step(&mut list, "set_priority", priority_name(config.priority).to_owned(), None);
    if !config.disable_change_streams {
        push_step(
            &mut list,
            "change_streams",
            "true".to_owned(),
            Some(DcpControlFeature::ChangeStreams),
        );
    }
    push_step(
        &mut list,
        "enable_expiry_opcode",
        "true".to_owned(),
        Some(DcpControlFeature::ExpiryOpcode),
    );
    if collections {
        push_step(
            &mut list,
            "enable_stream_id",
            "true".to_owned(),
            Some(DcpControlFeature::StreamId),
        );
    }
    push_step(
        &mut list,
        "connection_buffer_size",
        dec_count(config.flow_control.connection_buffer_size),
        None,
    );
    push_step(
        &mut list,
        "send_stream_end_on_client_close_stream",
        "true".to_owned(),
        Some(DcpControlFeature::StreamEndOnClose),
    );
    assert(steps_of(list@) =~= controls(*config, collections));
    list
}

/// Whether the server accepted a control, or why the connection is unusable.
/// An optional control may be refused as unknown, invalid or unsupported.
pub open spec fn control_result(step: ControlModel, response: Frame) -> Outcome<bool> {
    let context = "DCP control "@ + step.key;
    match response_fault(response, OPCODE_DCP_CONTROL, context) {
        None => Ok(true),
        Some(fault) => {
            let refusal = response.magic.responds() && response.opcode == OPCODE_DCP_CONTROL && (
            response.status == STATUS_INVALID_ARGUMENTS || response.status
                == STATUS_UNKNOWN_COMMAND || response.status == STATUS_NOT_SUPPORTED);
            if step.feature is Some && refusal {
                Ok(false)
            } else {
                Err(fault)
            }
        },
    }
}

/// Judges the response to a control.
pub fn control_outcome(step: &ControlStep, response: &Frame) -> (result: Result<bool>)
    ensures
        yields(result, control_result(step@, *response)),
{
    let context = join2("DCP control ", step.key.as_str());
    match ensure_success_response(response, OPCODE_DCP_CONTROL, context.as_str()) {
        Ok(()) => Ok(true),
        Err(e) => {
            if step.feature.is_some() && response.magic.is_response() && response.opcode
                == OPCODE_DCP_CONTROL && (response.status == STATUS_INVALID_ARGUMENTS
                || response.status == STATUS_UNKNOWN_COMMAND || response.status
                == STATUS_NOT_SUPPORTED) {
                Ok(false)
            } else {
                Err(e)
            }
        },
    }
}

/// Records an accepted optional control.
pub fn record_control(accepted: &mut Vec<DcpControlFeature>, step: &ControlStep, enabled: bool)
    ensures
        final(accepted)@ == match step.feature {
            Some(feature) => if enabled {
                old(accepted)@.push(feature)
            } else {
                old(accepted)@
            },
            None => old(accepted)@,
        },
{
    if enabled {
        if let Some(feature) = step.feature {
            accepted.push(feature);
        }
    }
}

/// Failures, one after the other.
pub open spec fn failure_list(failures: Seq<Seq<char>>) -> Seq<char>
    decreases failures.len(),
{
    if failures.len() == 0 {
        Seq::empty()
    } else if failures.len() == 1 {
        failures[0]
    } else {
        failure_list(failures.drop_last()) + "; "@ + failures.last()
    }
}

/// Renders failures one after the other.
pub fn failure_text(failures: &Vec<String>) -> (result: String)
    ensures
        result@ == failure_list(crate::text::texts(failures@)),
{
    let mut list = String::new();
    let ghost models = crate::text::texts(failures@);
    let mut i: usize = 0;
    assert(models.take(0) =~= Seq::empty());
    while i < failures.len()
        invariant
            i <= failures@.len(),
            models == crate::text::texts(failures@),
            list@ == failure_list(models.take(i as int)),
        decreases failures@.len() - i,
    {
        assert(models[i as int] == failures@[i as int]@);
        assert(models.take(i + 1).drop_last() =~= models.take(i as int));
        assert(models.take(i + 1).last() == models[i as int]);
        if i == 0 {
            list = failures[0].clone();
        } else {
            list = join3(list.as_str(), "; ", failures[i].as_str());
        }
        i = i + 1;
    }
    assert(models.take(models.len() as int) =~= models);
    list
}

/// Renders the failure of one seed.
pub fn seed_failure(address: &str, error: &DcpError) -> (result: String)
    ensures
        result@ == address@ + ": "@ + error@.text(),
{
    join3(address, ": ", error.to_text().as_str())
}

/// Summarizes the failures of every seed.
pub fn all_seeds_failed(failures: &Vec<String>) -> (result: DcpError)
    ensures
        result@ == DcpFault::Topology(
            "all KV seeds failed bootstrap: "@ + failure_list(crate::text::texts(failures@)),
        ),
{
    DcpError::Topology(
        join2("all KV seeds failed bootstrap: ", failure_text(failures).as_str()),
    )
}

} // verus!
