//! Steps that turn a fresh KV connection into a DCP connection.
use vstd::prelude::*;
use vstd::utf8::*;

use crate::auth::{
    accept_challenge, answer, auth_error, auth_fault, challenge, choose_mechanism,
    ensure_auth_success, escaped, final_fault, finish_exchange, owed_signature, plain_payload,
    selected, Challenge, SaslMechanism, ScramClient,
};
use crate::bootstrap::{
    announces, control_outcome, control_plan, control_result, controls, has_feature,
    parse_hello_features, preparation_fault, prepare_bootstrap, record_control, requested_features,
    steps_of, wanted_features, BootstrapCapabilities, ControlStep, DcpControlFeature, HelloFeature,
};
use crate::config::DcpConfig;
use crate::crypto::base64_unpadded;
use crate::error::{malformed_frame_fault, DcpFault, Outcome, Result};
use crate::protocol::{
    ensure_success_response, response_fault, Frame, OPCODE_DCP_OPEN, OPCODE_HELLO,
    OPCODE_SASL_AUTH, OPCODE_SASL_LIST_MECHS, OPCODE_SASL_STEP, OPCODE_SELECT_BUCKET,
    STATUS_AUTH_CONTINUE, STATUS_SUCCESS,
};
use crate::text::{copy_bytes, dec, lossy};

verus! {

/// Request whose response is awaited.
#[derive(Clone, Copy, Debug, PartialEq, Eq, Structural)]
pub enum HandshakeStage {
    /// Feature negotiation.
    Hello,
    /// List of SASL mechanisms.
    Mechanisms,
    /// PLAIN login.
    Plain,
    /// First SCRAM message.
    Challenge,
    /// Last SCRAM message.
    Proof,
    /// Bucket selection.
    Bucket,
    /// DCP connection open.
    Open,
    /// DCP control, by its position in the plan.
    Control(usize),
    /// Nothing is left to send.
    Ready,
}

/// Request to send next.
#[derive(Debug)]
pub enum HandshakeRequest {
    /// Announce features.
    Hello(Vec<HelloFeature>),
    /// List the SASL mechanisms.
    ListMechanisms,
    /// First message of a mechanism.
    Authenticate(SaslMechanism, Vec<u8>),
    /// Later message of a mechanism.
    AuthenticateStep(SaslMechanism, Vec<u8>),
    /// Select the configured bucket.
    SelectBucket,
    /// Open the DCP connection, with extended attributes where negotiated.
    OpenDcp {
        /// Extended attributes are part of mutations.
        include_xattrs: bool,
    },
    /// Set a DCP control.
    Control {
        /// Control name.
        key: String,
        /// Control value.
        value: String,
    },
}

/// Stage after an accepted response.
pub open spec fn follows(stage: HandshakeStage, chosen: SaslMechanism, steps: nat) -> HandshakeStage {
    match stage {
        HandshakeStage::Hello => HandshakeStage::Mechanisms,
        HandshakeStage::Mechanisms => match chosen {
            SaslMechanism::Plain => HandshakeStage::Plain,
            SaslMechanism::Scram(_) => HandshakeStage::Challenge,
        },
        HandshakeStage::Plain => HandshakeStage::Bucket,
        HandshakeStage::Challenge => HandshakeStage::Proof,
        HandshakeStage::Proof => HandshakeStage::Bucket,
        HandshakeStage::Bucket => HandshakeStage::Open,
        HandshakeStage::Open => HandshakeStage::Control(0),
        HandshakeStage::Control(i) => if i + 1 < steps {
            HandshakeStage::Control((i + 1) as usize)
        } else {
            HandshakeStage::Ready
        },
        HandshakeStage::Ready => HandshakeStage::Ready,
    }
}

/// The bucket is selected only right after a login was accepted, the DCP
/// connection is opened only on a selected bucket, and controls are set only
/// on an open DCP connection, one after the other.
pub proof fn login_precedes_dcp(stage: HandshakeStage, chosen: SaslMechanism, steps: nat)
    requires
        stage != HandshakeStage::Ready,
        steps <= usize::MAX,
    ensures
        ({
            let next = follows(stage, chosen, steps);
            &&& next == HandshakeStage::Bucket ==> stage == HandshakeStage::Plain || stage
                == HandshakeStage::Proof
            &&& next == HandshakeStage::Open ==> stage == HandshakeStage::Bucket
            &&& next == HandshakeStage::Control(0) ==> stage == HandshakeStage::Open || stage
                is Control
            &&& next matches HandshakeStage::Control(i) ==> i > 0 ==> stage
                == HandshakeStage::Control((i - 1) as usize)
            &&& next == HandshakeStage::Ready ==> stage is Control
        }),
{
}

/// Progress of one handshake.
pub struct Handshake {
    stage: HandshakeStage,
    features: Vec<HelloFeature>,
    mechanism: SaslMechanism,
    client: Option<ScramClient>,
    reply: Vec<u8>,
    plan: Vec<ControlStep>,
    accepted: Vec<DcpControlFeature>,
}

impl Handshake {
    /// Stage whose response is awaited.
    pub closed spec fn at(&self) -> HandshakeStage {
        self.stage
    }

    /// Negotiated features.
    pub closed spec fn negotiated(&self) -> Seq<HelloFeature> {
        self.features@
    }

    /// Selected mechanism, once the server listed its own.
    pub closed spec fn chosen(&self) -> SaslMechanism {
        self.mechanism
    }

    /// SCRAM exchange, where one is under way.
    pub closed spec fn exchange(&self) -> Option<ScramClient> {
        self.client
    }

    /// Last SCRAM message, once a challenge was answered.
    pub closed spec fn proof_message(&self) -> Seq<u8> {
        self.reply@
    }

    /// Controls to set.
    pub closed spec fn planned(&self) -> Seq<ControlStep> {
        self.plan@
    }

    /// Accepted controls.
    pub closed spec fn controlled(&self) -> Seq<DcpControlFeature> {
        self.accepted@
    }

    /// The state fits its stage.
    pub closed spec fn consistent(&self) -> bool {
        &&& self.stage == HandshakeStage::Challenge || self.stage == HandshakeStage::Proof
            ==> self.client is Some
        &&& self.stage matches HandshakeStage::Control(i) ==> i < self.plan@.len()
        &&& self.stage != HandshakeStage::Hello ==> self.plan@.len() > 0
    }

    /// Begins a handshake.
    pub fn begin(config: &DcpConfig, client_name: &str, connection_name: &str) -> (result: Result<Self>)
        ensures
            match result {
                Ok(h) => {
                    &&& preparation_fault(*config, client_name@, connection_name@) is None
                    &&& h.consistent()
                    &&& h.at() == HandshakeStage::Hello
                    &&& h.controlled().len() == 0
                },
                Err(e) => preparation_fault(*config, client_name@, connection_name@) == Some(e@),
            },
    {
        prepare_bootstrap(config, client_name, connection_name)?;
        Ok(
            Handshake {
                stage: HandshakeStage::Hello,
                features: Vec::new(),
                mechanism: SaslMechanism::Plain,
                client: None,
                reply: Vec::new(),
                plan: Vec::new(),
                accepted: Vec::new(),
            },
        )
    }

    /// Stage whose response is awaited.
    pub fn stage(&self) -> (result: HandshakeStage)
        ensures
            result == self.at(),
    {
        self.stage
    }

    /// Request to send next; none once the connection is ready.
    pub fn request(&self, config: &DcpConfig) -> (result: Option<HandshakeRequest>)
        requires
            self.consistent(),
        ensures
            match self.at() {
                HandshakeStage::Hello => result matches Some(HandshakeRequest::Hello(list))
                    && list@ == wanted_features(),
                HandshakeStage::Mechanisms => result matches Some(HandshakeRequest::ListMechanisms),
                HandshakeStage::Plain => {
                    &&& result matches Some(HandshakeRequest::Authenticate(m, payload))
                    &&& result->0->Authenticate_0 == self.chosen()
                    &&& result->0->Authenticate_1@ == seq![0u8] + encode_utf8(
                        config.credentials.user(),
                    ) + seq![0u8] + encode_utf8(config.credentials.secret())
                },
                HandshakeStage::Challenge => {
                    &&& result matches Some(HandshakeRequest::Authenticate(m, payload))
                    &&& result->0->Authenticate_0 == self.chosen()
                    &&& result->0->Authenticate_1@ == encode_utf8(
                        "n,,"@ + self.exchange()->0.bare(),
                    )
                },
                HandshakeStage::Proof => {
                    &&& result matches Some(HandshakeRequest::AuthenticateStep(m, payload))
                    &&& result->0->AuthenticateStep_0 == self.chosen()
                    &&& result->0->AuthenticateStep_1@ == self.proof_message()
                },
                HandshakeStage::Bucket => result matches Some(HandshakeRequest::SelectBucket),
                HandshakeStage::Open => result matches Some(HandshakeRequest::OpenDcp {
                    include_xattrs,
                }) && include_xattrs == self.negotiated().contains(HelloFeature::Xattr),
                HandshakeStage::Control(i) => {
                    &&& i < self.planned().len()
                    &&& result matches Some(HandshakeRequest::Control { key, value })
                    &&& result->0->key@ == self.planned()[i as int].key@
                    &&& result->0->value@ == self.planned()[i as int].value@
                },
                HandshakeStage::Ready => result is None,
            },
    {
        match self.stage {
            HandshakeStage::Hello => Some(HandshakeRequest::Hello(requested_features())),
            HandshakeStage::Mechanisms => Some(HandshakeRequest::ListMechanisms),
            HandshakeStage::Plain => Some(
                HandshakeRequest::Authenticate(self.mechanism, plain_payload(&config.credentials)),
            ),
            HandshakeStage::Challenge => match &self.client {
                Some(client) => Some(
                    HandshakeRequest::Authenticate(self.mechanism, client.start()),
                ),
                None => None,
            },
            HandshakeStage::Proof => Some(
                HandshakeRequest::AuthenticateStep(
                    self.mechanism,
                    copy_bytes(self.reply.as_slice()),
                ),
            ),
            HandshakeStage::Bucket => Some(HandshakeRequest::SelectBucket),
            HandshakeStage::Open => Some(
                HandshakeRequest::OpenDcp {
                    include_xattrs: has_feature(&self.features, HelloFeature::Xattr),
                },
            ),
            HandshakeStage::Control(i) => Some(
                HandshakeRequest::Control {
                    key: self.plan[i].key.clone(),
                    value: self.plan[i].value.clone(),
                },
            ),
            HandshakeStage::Ready => None,
        }
    }

    /// What is wrong with the response to the request of a stage, if anything.
    /// Not covered: a failure to draw a nonce when a SCRAM exchange begins.
    pub open spec fn response_refused(&self, response: Frame) -> Option<DcpFault> {
        match self.at() {
            HandshakeStage::Hello => match response_fault(
                response,
                OPCODE_HELLO,
                "HELLO feature negotiation"@,
            ) {
                Some(fault) => Some(fault),
                None => if response.value@.len() % 2 != 0 {
                    Some(
                        malformed_frame_fault(
                            "HELLO response feature payload has odd length "@ + dec(
                                response.value@.len(),
                            ),
                        ),
                    )
                } else {
                    None
                },
            },
            HandshakeStage::Mechanisms => match auth_fault(
                response,
                OPCODE_SASL_LIST_MECHS,
                STATUS_SUCCESS,
            ) {
                Some(fault) => Some(fault),
                None => match selected(lossy(response.value@)) {
                    Ok(_) => None,
                    Err(fault) => Some(fault),
                },
            },
            HandshakeStage::Plain => auth_fault(response, OPCODE_SASL_AUTH, STATUS_SUCCESS),
            HandshakeStage::Challenge => match auth_fault(
                response,
                OPCODE_SASL_AUTH,
                STATUS_AUTH_CONTINUE,
            ) {
                Some(fault) => Some(fault),
                None => if self.exchange()->0.owed() is Some {
                    Some(auth_error("SCRAM server-first message was processed twice"@))
                } else {
                    match challenge(self.exchange()->0.nonce(), response.value@) {
                        Ok(_) => None,
                        Err(fault) => Some(fault),
                    }
                },
            },
            HandshakeStage::Proof => match auth_fault(response, OPCODE_SASL_STEP, STATUS_SUCCESS) {
                Some(fault) => Some(fault),
                None => final_fault(self.exchange()->0.owed(), response.value@),
            },
            HandshakeStage::Bucket => response_fault(
                response,
                OPCODE_SELECT_BUCKET,
                "bucket selection"@,
            ),
            HandshakeStage::Open => response_fault(
                response,
                OPCODE_DCP_OPEN,
                "DCP connection open"@,
            ),
            HandshakeStage::Control(i) => match control_result(
                self.planned()[i as int]@,
                response,
            ) {
                Ok(_) => None,
                Err(fault) => Some(fault),
            },
            HandshakeStage::Ready => None,
        }
    }

    /// What an accepted response leads to.
    pub open spec fn advanced_to(&self, next: Self, config: DcpConfig, response: Frame) -> bool {
        &&& next.at() == follows(self.at(), next.chosen(), next.planned().len())
        &&& if self.at() == HandshakeStage::Hello {
            &&& next.negotiated().no_duplicates()
            &&& forall|f: HelloFeature|
                #[trigger] next.negotiated().contains(f) <==> announces(response.value@, f)
            &&& steps_of(next.planned()) == controls(
                config,
                next.negotiated().contains(HelloFeature::Collections),
            )
        } else {
            next.negotiated() == self.negotiated() && next.planned() == self.planned()
        }
        &&& if self.at() == HandshakeStage::Mechanisms {
            &&& selected(lossy(response.value@)) == Outcome::<SaslMechanism>::Ok(next.chosen())
            &&& next.chosen() matches SaslMechanism::Scram(algorithm) ==> {
                &&& next.exchange() is Some
                &&& next.exchange()->0.algorithm() == algorithm
                &&& next.exchange()->0.secret() == config.credentials.secret()
                &&& next.exchange()->0.bare() == "n="@ + escaped(config.credentials.user())
                    + ",r="@ + next.exchange()->0.nonce()
                &&& exists|bytes: Seq<u8>|
                    bytes.len() == 18 && next.exchange()->0.nonce()
                        == #[trigger] base64_unpadded(bytes)
                &&& next.exchange()->0.owed() is None
            }
        } else {
            next.chosen() == self.chosen()
        }
        &&& self.at() == HandshakeStage::Challenge ==> {
            let before = self.exchange()->0;
            let c = challenge(before.nonce(), response.value@)->Ok_0;
            &&& next.proof_message() == encode_utf8(
                answer(before.algorithm(), before.secret(), before.bare(), c),
            )
            &&& next.exchange() is Some
            &&& next.exchange()->0.owed() == Some(
                owed_signature(before.algorithm(), before.secret(), before.bare(), c),
            )
        }
        &&& self.at() == HandshakeStage::Proof ==> next.exchange() is None
        &&& next.controlled() == match self.at() {
            HandshakeStage::Control(i) => match (
                self.planned()[i as int].feature,
                control_result(self.planned()[i as int]@, response),
            ) {
                (Some(feature), Ok(true)) => self.controlled().push(feature),
                _ => self.controlled(),
            },
            _ => self.controlled(),
        }
    }

    /// Takes in the response to the request of the stage.
    pub fn on_response(&mut self, config: &DcpConfig, response: &Frame) -> (result: Result<()>)
        requires
            old(self).consistent(),
            old(self).at() != HandshakeStage::Ready,
        ensures
            final(self).consistent(),
            match old(self).response_refused(*response) {
                Some(fault) => result is Err && result->Err_0@ == fault,
                None => match result {
                    Ok(_) => old(self).advanced_to(*final(self), *config, *response),
                    Err(e) => {
                        &&& old(self).at() == HandshakeStage::Mechanisms
                        &&& selected(lossy(response.value@)) matches Ok(m) && m is Scram
                        &&& exists|text: Seq<char>|
                            e@ == auth_error(#[trigger] ("cannot create SCRAM nonce: "@ + text))
                    },
                },
            },
            result is Err ==> final(self).at() == old(self).at(),
    {
        match self.stage {
            HandshakeStage::Hello => {
                ensure_success_response(response, OPCODE_HELLO, "HELLO feature negotiation")?;
                let features = parse_hello_features(response)?;
                self.plan = control_plan(config, has_feature(&features, HelloFeature::Collections));
                proof {
                    assert(steps_of(self.plan@).len() == self.plan@.len());
                    assert(self.plan@.len() > 0);
                }
                self.features = features;
                self.stage = HandshakeStage::Mechanisms;
            },
            HandshakeStage::Mechanisms => {
                let mechanism = choose_mechanism(response)?;
                match mechanism {
                    SaslMechanism::Plain => {
                        self.stage = HandshakeStage::Plain;
                    },
                    SaslMechanism::Scram(algorithm) => {
                        let client = ScramClient::new(
                            algorithm,
                            config.credentials.username(),
                            config.credentials.password(),
                        )?;
                        self.client = Some(client);
                        self.stage = HandshakeStage::Challenge;
                    },
                }
                self.mechanism = mechanism;
            },
            HandshakeStage::Plain => {
                ensure_auth_success(response, OPCODE_SASL_AUTH)?;
                self.stage = HandshakeStage::Bucket;
            },
            HandshakeStage::Challenge => {
                if let Some(client) = &mut self.client {
                    let reply = accept_challenge(response, client)?;
                    self.reply = reply;
                }
                self.stage = HandshakeStage::Proof;
            },
            HandshakeStage::Proof => {
                if let Some(client) = &mut self.client {
                    finish_exchange(response, client)?;
                }
                self.client = None;
                self.stage = HandshakeStage::Bucket;
            },
            HandshakeStage::Bucket => {
                ensure_success_response(response, OPCODE_SELECT_BUCKET, "bucket selection")?;
                self.stage = HandshakeStage::Open;
            },
            HandshakeStage::Open => {
                ensure_success_response(response, OPCODE_DCP_OPEN, "DCP connection open")?;
                self.stage = HandshakeStage::Control(0);
            },
            HandshakeStage::Control(i) => {
                let n: usize = self.plan.len();
                let enabled: bool = control_outcome(&self.plan[i], response)?;
                record_control(&mut self.accepted, &self.plan[i], enabled);
                self.stage = if i + 1 < n {
                    HandshakeStage::Control(i + 1)
                } else {
                    HandshakeStage::Ready
                };
            },
            HandshakeStage::Ready => {},
        }
        Ok(())
    }

    /// What was negotiated on a connection that serves documents only: it is
    /// complete once the bucket is selected.
    pub fn into_document_capabilities(self) -> (result: BootstrapCapabilities)
        requires
            self.at() == HandshakeStage::Open,
        ensures
            result.hello_features@ == self.negotiated(),
            result.sasl_mechanism == self.chosen(),
            result.dcp_controls@ == Seq::<DcpControlFeature>::empty(),
    {
        BootstrapCapabilities {
            hello_features: self.features,
            sasl_mechanism: self.mechanism,
            dcp_controls: Vec::new(),
        }
    }

    /// What was negotiated, once the connection is ready.
    pub fn into_capabilities(self) -> (result: BootstrapCapabilities)
        requires
            self.at() == HandshakeStage::Ready,
        ensures
            result.hello_features@ == self.negotiated(),
            result.sasl_mechanism == self.chosen(),
            result.dcp_controls@ == self.controlled(),
    {
        BootstrapCapabilities {
            hello_features: self.features,
            sasl_mechanism: self.mechanism,
            dcp_controls: self.accepted,
        }
    }
}

} // verus!
