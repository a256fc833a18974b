//! Laws of feature negotiation and of the handshake.
use vstd::prelude::*;
use vstd::utf8::encode_utf8;

use crate::auth::{accept_challenge, ScramClient};
use crate::bootstrap::{
    announces, code_at, control_outcome, control_plan, controls, duration_seconds, parse_hello_features,
    prepare_bootstrap, priority_name, record_control, requested_features, steps_of,
    validate_name, BootstrapCapabilities, ControlModel, ControlStep, DcpControlFeature,
    HelloFeature,
};
use crate::config::{DcpConfig, DcpPriority};
use crate::error::{DcpError, Result};
use crate::handshake::{Handshake, HandshakeRequest, HandshakeStage};
use crate::interval::Interval;
use crate::laws::auth::answers;
use crate::protocol::Frame;
use crate::text::{blank, dec};

verus! {

/// Features have the codes of the protocol, and a code gives back its feature.
pub proof fn features_have_their_codes(f: HelloFeature, code: u16, read: Option<HelloFeature>)
    requires
        call_ensures(HelloFeature::as_u16, (f,), code),
        call_ensures(HelloFeature::from_u16, (code,), read),
    ensures
        f is Datatype ==> code == 0x01,
        f is Tls ==> code == 0x02,
        f is SeqNo ==> code == 0x04,
        f is Xattr ==> code == 0x06,
        f is ExtendedErrors ==> code == 0x07,
        f is SelectBucket ==> code == 0x08,
        f is Json ==> code == 0x0b,
        f is Duplex ==> code == 0x0c,
        f is ClusterMapNotifications ==> code == 0x0d,
        f is AltRequest ==> code == 0x10,
        f is Collections ==> code == 0x12,
        read == Some(f),
{
    assert(f.code() == code);
}

/// All features that the client knows are asked for.
pub proof fn all_features_are_requested(list: Vec<HelloFeature>, f: HelloFeature)
    requires
        call_ensures(requested_features, (), list),
    ensures
        list@.contains(f),
        list@.len() == 11,
{
    let all = list@;
    assert(all[0] is Datatype && all[1] is Tls && all[2] is SeqNo && all[3] is Xattr);
    assert(all[4] is ExtendedErrors && all[5] is SelectBucket && all[6] is Json);
    assert(all[7] is Duplex && all[8] is ClusterMapNotifications && all[9] is AltRequest);
    assert(all[10] is Collections);
}

/// The answer lists features as pairs of bytes, the high one first; those that
/// are known are taken, each once.
pub proof fn announced_features_are_taken(
    response: Frame,
    result: Result<Vec<HelloFeature>>,
    f: HelloFeature,
    code: u16,
)
    requires
        call_ensures(parse_hello_features, (&response,), result),
        call_ensures(HelloFeature::as_u16, (f,), code),
    ensures
        result is Ok <==> response.value@.len() % 2 == 0,
        result matches Ok(list) ==> (list@.contains(f) <==> exists|i: int|
            #![trigger response.value@[2 * i]]
            0 <= i < response.value@.len() / 2 && response.value@[2 * i] * 256 + response.value@[2
                * i + 1] == code),
        result matches Ok(list) ==> list@.no_duplicates(),
{
    let value = response.value@;
    if announces(value, f) {
        let i = choose|i: int|
            #![trigger code_at(value, i)]
            0 <= i < value.len() / 2 && code_at(value, i) == f.code();
        assert(value[2 * i] * 256 + value[2 * i + 1] <= 65535);
        assert(value[2 * i] * 256 + value[2 * i + 1] == code);
    }
    if exists|i: int|
        #![trigger value[2 * i]]
        0 <= i < value.len() / 2 && value[2 * i] * 256 + value[2 * i + 1] == code {
        let i = choose|i: int|
            #![trigger value[2 * i]]
            0 <= i < value.len() / 2 && value[2 * i] * 256 + value[2 * i + 1] == code;
        assert(code_at(value, i) == f.code());
    }
}

/// Capabilities are looked up in what was negotiated.
pub proof fn capabilities_are_looked_up(
    capabilities: BootstrapCapabilities,
    f: HelloFeature,
    supported: bool,
    c: DcpControlFeature,
    controlled: bool,
)
    requires
        call_ensures(BootstrapCapabilities::supports, (&capabilities, f), supported),
        call_ensures(BootstrapCapabilities::supports_control, (&capabilities, c), controlled),
    ensures
        supported <==> capabilities.hello_features@.contains(f),
        controlled <==> capabilities.dcp_controls@.contains(c),
{
}

/// A bootstrap needs a sound configuration and two names.
pub proof fn bootstraps_need_names(
    config: DcpConfig,
    client: &str,
    connection: &str,
    sound: Result<()>,
    result: Result<()>,
    kind: &str,
    named: Result<()>,
)
    requires
        call_ensures(DcpConfig::validate, (&config,), sound),
        call_ensures(prepare_bootstrap, (&config, client, connection), result),
        call_ensures(validate_name, (kind, client), named),
    ensures
        result is Ok <==> sound is Ok && !blank(client@) && !blank(connection@),
        named is Ok <==> !blank(client@),
{
}

/// Priorities have their names, and a duration is told in whole seconds, at
/// least one.
pub proof fn priorities_have_their_names(
    priority: DcpPriority,
    name: &'static str,
    interval: Interval,
    seconds: String,
)
    requires
        call_ensures(priority_name, (priority,), name),
        call_ensures(duration_seconds, (&interval,), seconds),
    ensures
        priority is Low ==> name@ == "low"@,
        priority is Medium ==> name@ == "medium"@,
        priority is High ==> name@ == "high"@,
        interval.total_nanos() < 1_000_000_000 ==> seconds@ == dec(1),
        interval.total_nanos() >= 1_000_000_000 ==> seconds@ == dec(
            interval.total_nanos() / 1_000_000_000,
        ),
{
    let total = interval.total_nanos();
    if total < 1_000_000_000 {
        assert(total / 1_000_000_000 == 0) by (nonlinear_arith)
            requires
                total < 1_000_000_000,
        ;
    } else {
        assert(total / 1_000_000_000 >= 1) by (nonlinear_arith)
            requires
                total >= 1_000_000_000,
        ;
    }
}

/// The step asks for the control with the value, and may be refused where it
/// stands for a feature.
pub open spec fn asks(
    step: ControlStep,
    key: Seq<char>,
    value: Seq<char>,
    feature: Option<DcpControlFeature>,
) -> bool {
    step.key@ == key && step.value@ == value && step.feature == feature
}

/// A step of the list asks so.
pub open spec fn asked_for(
    list: Seq<ControlStep>,
    key: Seq<char>,
    value: Seq<char>,
    feature: Option<DcpControlFeature>,
) -> bool {
    exists|i: int| 0 <= i < list.len() && #[trigger] asks(list[i], key, value, feature)
}

proof fn model_is_asked_for(list: Seq<ControlStep>, m: ControlModel, i: int)
    requires
        0 <= i < list.len(),
        steps_of(list)[i] == m,
    ensures
        asked_for(list, m.key, m.value, m.feature),
{
    assert(list[i]@ == m);
    assert(asks(list[i], m.key, m.value, m.feature));
}

/// The controls of a connection: probes at the configured interval, the
/// configured priority and buffer are required; expiry events, the end of a
/// closed stream, change streams unless they are disabled, and stream IDs with
/// collections are asked for and may be refused.
pub proof fn controls_are_as_configured(
    config: DcpConfig,
    collections: bool,
    plan: Vec<ControlStep>,
    seconds: String,
    priority: &'static str,
)
    requires
        call_ensures(control_plan, (&config, collections), plan),
        call_ensures(duration_seconds, (&config.flow_control.noop_interval,), seconds),
        call_ensures(priority_name, (config.priority,), priority),
    ensures
        asked_for(plan@, "enable_noop"@, "true"@, None),
        asked_for(plan@, "set_noop_interval"@, seconds@, None),
        asked_for(plan@, "set_priority"@, priority@, None),
        asked_for(
            plan@,
            "connection_buffer_size"@,
            dec(config.flow_control.connection_buffer_size as nat),
            None,
        ),
        asked_for(
            plan@,
            "enable_expiry_opcode"@,
            "true"@,
            Some(DcpControlFeature::ExpiryOpcode),
        ),
        asked_for(
            plan@,
            "send_stream_end_on_client_close_stream"@,
            "true"@,
            Some(DcpControlFeature::StreamEndOnClose),
        ),
        !config.disable_change_streams ==> asked_for(
            plan@,
            "change_streams"@,
            "true"@,
            Some(DcpControlFeature::ChangeStreams),
        ),
        collections ==> asked_for(
            plan@,
            "enable_stream_id"@,
            "true"@,
            Some(DcpControlFeature::StreamId),
        ),
        forall|i: int| #![trigger plan@[i]]
            0 <= i < plan@.len() && plan@[i].feature == Some(DcpControlFeature::ChangeStreams)
                ==> !config.disable_change_streams,
        forall|i: int| #![trigger plan@[i]]
            0 <= i < plan@.len() && plan@[i].feature == Some(DcpControlFeature::StreamId)
                ==> collections,
        plan@.len() == 6 + (if config.disable_change_streams {
            0int
        } else {
            1int
        }) + (if collections {
            1int
        } else {
            0int
        }),
{
    let list = steps_of(plan@);
    let k: int = if config.disable_change_streams {
        3
    } else {
        4
    };
    let n: int = if collections {
        k + 2
    } else {
        k + 1
    };
    assert(list.len() == plan@.len());
    assert(controls(config, collections).len() == plan@.len());
    model_is_asked_for(plan@, list[0], 0);
    model_is_asked_for(plan@, list[1], 1);
    model_is_asked_for(plan@, list[2], 2);
    if !config.disable_change_streams {
        model_is_asked_for(plan@, list[3], 3);
    }
    model_is_asked_for(plan@, list[k], k);
    if collections {
        model_is_asked_for(plan@, list[k + 1], k + 1);
    }
    model_is_asked_for(plan@, list[n], n);
    model_is_asked_for(plan@, list[n + 1], n + 1);
    assert forall|i: int| #![trigger plan@[i]]
        0 <= i < plan@.len() && plan@[i].feature == Some(
            DcpControlFeature::ChangeStreams,
        ) implies !config.disable_change_streams by {
        assert(list[i] == plan@[i]@);
    }
    assert forall|i: int| #![trigger plan@[i]]
        0 <= i < plan@.len() && plan@[i].feature == Some(
            DcpControlFeature::StreamId,
        ) implies collections by {
        assert(list[i] == plan@[i]@);
    }
}

/// A control is accepted with success; one that stands for a feature may be
/// refused as invalid, unknown or unsupported; any other answer is a failure.
pub proof fn controls_are_accepted_or_refused(
    step: ControlStep,
    response: Frame,
    result: Result<bool>,
)
    requires
        call_ensures(control_outcome, (&step, &response), result),
    ensures
        result matches Ok(accepted) ==> answers(response, 0x5e),
        answers(response, 0x5e) && response.status == 0 ==> (result matches Ok(accepted)
            && accepted),
        answers(response, 0x5e) && step.feature is Some && (response.status == 0x04
            || response.status == 0x81 || response.status == 0x83) ==> (result matches Ok(accepted)
            && !accepted),
        answers(response, 0x5e) && response.status != 0 && (step.feature is None || (
        response.status != 0x04 && response.status != 0x81 && response.status != 0x83)) ==> (
        result matches Err(DcpError::ServerStatus { status, .. }) && status == response.status),
        !answers(response, 0x5e) ==> result is Err,
{
}

/// An accepted feature is remembered, and nothing else.
pub proof fn accepted_controls_are_remembered(
    accepted: &mut Vec<DcpControlFeature>,
    step: ControlStep,
    enabled: bool,
)
    requires
        call_ensures(record_control, (accepted, &step, enabled), ()),
    ensures
        enabled && step.feature is Some ==> final(accepted)@ == old(accepted)@.push(
            step.feature->0,
        ),
        !enabled || step.feature is None ==> final(accepted)@ == old(accepted)@,
{
}

/// A handshake goes its way: features, mechanisms, login, bucket, opening,
/// controls. Each step needs the successful answer to its own command.
pub proof fn handshakes_go_their_way(
    handshake: &mut Handshake,
    config: DcpConfig,
    response: Frame,
    result: Result<()>,
)
    requires
        old(handshake).consistent(),
        old(handshake).at() != HandshakeStage::Ready,
        call_ensures(Handshake::on_response, (handshake, &config, &response), result),
    ensures
        result is Err ==> final(handshake).at() == old(handshake).at(),
        result is Ok ==> match old(handshake).at() {
            HandshakeStage::Hello => final(handshake).at() is Mechanisms && answers(response, 0x1f)
                && response.status == 0,
            HandshakeStage::Mechanisms => answers(response, 0x20) && response.status == 0 && (
            final(handshake).at() is Plain <==> final(handshake).chosen() is Plain) && (final(handshake).at() is Challenge <==> final(handshake).chosen() is Scram),
            HandshakeStage::Plain => final(handshake).at() is Bucket && answers(response, 0x21)
                && response.status == 0,
            HandshakeStage::Challenge => final(handshake).at() is Proof && answers(response, 0x21)
                && response.status == 0x21,
            HandshakeStage::Proof => final(handshake).at() is Bucket && answers(response, 0x22)
                && response.status == 0,
            HandshakeStage::Bucket => final(handshake).at() is Open && answers(response, 0x89)
                && response.status == 0,
            HandshakeStage::Open => final(handshake).at() == HandshakeStage::Control(0) && answers(
                response,
                0x50,
            ) && response.status == 0,
            HandshakeStage::Control(i) => answers(response, 0x5e) && (if i + 1 < final(handshake).planned().len() {
                final(handshake).at() == HandshakeStage::Control((i + 1) as usize)
            } else {
                final(handshake).at() is Ready
            }),
            HandshakeStage::Ready => true,
        },
{
}

/// In the challenge the handshake answers what the SCRAM client answers, and
/// then owes the same signature.
pub proof fn handshakes_answer_the_challenge(
    handshake: &mut Handshake,
    config: DcpConfig,
    response: Frame,
    client: &mut ScramClient,
    reply: Result<Vec<u8>>,
    result: Result<()>,
)
    requires
        old(handshake).consistent(),
        old(handshake).at() is Challenge,
        call_ensures(Handshake::on_response, (handshake, &config, &response), result),
        old(handshake).exchange() == Some(*old(client)),
        call_ensures(accept_challenge, (&response, client), reply),
    ensures
        result is Ok <==> reply is Ok,
        result is Ok ==> final(handshake).proof_message() == reply->Ok_0@ && final(handshake).exchange() is Some && final(handshake).exchange()->0.owed() == final(client).owed(),
{
}

/// The features and controls of a handshake are those that the server granted.
pub proof fn handshakes_remember_what_was_granted(
    handshake: &mut Handshake,
    config: DcpConfig,
    response: Frame,
    features: Result<Vec<HelloFeature>>,
    f: HelloFeature,
    result: Result<()>,
)
    requires
        old(handshake).consistent(),
        old(handshake).at() is Hello,
        call_ensures(Handshake::on_response, (handshake, &config, &response), result),
        call_ensures(parse_hello_features, (&response,), features),
    ensures
        result is Ok ==> features is Ok,
        result is Ok ==> (final(handshake).negotiated().contains(f)
            <==> features->Ok_0@.contains(f)),
{
}

/// Each stage asks its own question.
pub proof fn stages_ask_their_question(
    handshake: Handshake,
    config: DcpConfig,
    request: Option<HandshakeRequest>,
    wanted: Vec<HelloFeature>,
)
    requires
        handshake.consistent(),
        call_ensures(Handshake::request, (&handshake, &config), request),
        call_ensures(requested_features, (), wanted),
    ensures
        match handshake.at() {
            HandshakeStage::Hello => request matches Some(HandshakeRequest::Hello(list)) && list@
                == wanted@,
            HandshakeStage::Mechanisms => request matches Some(HandshakeRequest::ListMechanisms),
            HandshakeStage::Plain => request matches Some(HandshakeRequest::Authenticate(
                mechanism,
                payload,
            )) && mechanism == handshake.chosen() && payload@ == seq![0u8] + encode_utf8(
                config.credentials.user(),
            ) + seq![0u8] + encode_utf8(config.credentials.secret()),
            HandshakeStage::Challenge => request matches Some(HandshakeRequest::Authenticate(
                mechanism,
                payload,
            )) && mechanism == handshake.chosen() && payload@ == encode_utf8(
                "n,,"@ + handshake.exchange()->0.bare(),
            ),
            HandshakeStage::Proof => request matches Some(HandshakeRequest::AuthenticateStep(
                mechanism,
                payload,
            )) && mechanism == handshake.chosen() && payload@ == handshake.proof_message(),
            HandshakeStage::Bucket => request matches Some(HandshakeRequest::SelectBucket),
            HandshakeStage::Open => request matches Some(HandshakeRequest::OpenDcp {
                include_xattrs,
            }) && (include_xattrs <==> handshake.negotiated().contains(HelloFeature::Xattr)),
            HandshakeStage::Control(i) => request matches Some(HandshakeRequest::Control {
                key,
                value,
            }) && key@ == handshake.planned()[i as int].key@ && value@
                == handshake.planned()[i as int].value@,
            HandshakeStage::Ready => request is None,
        },
{
}

/// A finished handshake tells its features, its mechanism and its controls.
pub proof fn finished_handshakes_tell_what_was_granted(
    handshake: Handshake,
    capabilities: BootstrapCapabilities,
)
    requires
        handshake.at() is Ready,
        call_ensures(Handshake::into_capabilities, (handshake,), capabilities),
    ensures
        capabilities.hello_features@ == handshake.negotiated(),
        capabilities.sasl_mechanism == handshake.chosen(),
        capabilities.dcp_controls@ == handshake.controlled(),
{
}

} // verus!
