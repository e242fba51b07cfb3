//! The negotiation state machine: Identify, Hello, Ready, the local offer,
//! SelectProtocol, the session description, and activation.
//!
//! The machine decides; the caller performs the I/O. Each event yields the
//! actions to perform, in order. A ghost log records the opcode of every
//! frame the machine has asked to send.
use vstd::prelude::*;
use crate::control::StreamResolutionInformation;
use crate::error::SessionError;
use crate::frames::{
    identify, is_screen_stream, offers_required_mode, outgoing_op, select_protocol, speaking_message,
    stream_information, supports_encryption, GatewayResolution, IncomingWebsocketMessage,
    OpCode12, OutgoingWebsocketMessage, MAX_BITRATE,
};
use crate::heartbeat::HeartbeatCtx;
use crate::media::{codec_name_spec, ToGst, VideoEncoderType};
use crate::sdp::{compose, compose_spec, join_lines, local_offer_spec, read_local_offer, LocalOfferInfo};

verus! {

/// Where a session stands. The order of the variants is the order of progress.
#[derive(Clone, Copy, Debug, PartialEq, Eq, Structural)]
pub enum NegotiationState {
    Auth,
    Hello,
    Describe,
    Offer,
    Select,
    Answer,
    Active,
    Closing,
}

pub open spec fn rank(s: NegotiationState) -> nat {
    match s {
        NegotiationState::Auth => 0,
        NegotiationState::Hello => 1,
        NegotiationState::Describe => 2,
        NegotiationState::Offer => 3,
        NegotiationState::Select => 4,
        NegotiationState::Answer => 5,
        NegotiationState::Active => 6,
        NegotiationState::Closing => 7,
    }
}

/// Whether the heartbeater runs in state `s`: from Hello through Active.
pub open spec fn beats_in(s: NegotiationState) -> bool {
    1 <= rank(s) <= 6
}

/// What a session needs to know from its StartStream request.
#[derive(Clone, Debug, PartialEq, Eq)]
pub struct SessionParams {
    pub server_id: String,
    pub session_id: String,
    pub token: String,
    pub user_id: String,
    pub rtc_connection_id: String,
    pub resolution: StreamResolutionInformation,
    pub framerate: u8,
    pub encoder: VideoEncoderType,
}

/// What happens to a session.
#[derive(Clone, Debug, PartialEq, Eq)]
pub enum GatewayEvent {
    /// A frame arrived from the gateway.
    Frame(IncomingWebsocketMessage),
    /// The media engine's local offer is complete.
    LocalOffer(String),
    /// The media engine accepted the composed answer.
    AnswerApplied,
    /// The media engine rejected the composed answer.
    AnswerRejected,
    /// The heartbeat timer fired.
    HeartbeatDue,
    /// The gateway closed, or its transport failed.
    RemoteClose,
    /// The control channel asked to stop.
    LocalStop,
}

/// What the caller is asked to do.
#[derive(Clone, Debug, PartialEq, Eq)]
pub enum Action {
    /// Send this frame on the gateway.
    Send(OutgoingWebsocketMessage),
    /// Start the heartbeater with this interval.
    StartHeartbeat { interval_ms: u64 },
    /// Stop the heartbeater; no beat may follow.
    StopHeartbeat,
    /// Hand this answer to the media engine.
    ApplyAnswer(ToGst),
    /// An acknowledgement carried another nonce than the last beat; a warning only.
    NonceMismatch { expected: u64, received: u64 },
    /// The session failed.
    Fail(SessionError),
    /// Stop the media engine and close the gateway.
    Teardown,
    /// Tell the control channel that the stream stopped.
    PublishStreamStop,
}

/// Opcodes of the frames that `acts` sends, in order.
pub open spec fn sent_ops(acts: Seq<Action>) -> Seq<u8>
    decreases acts.len(),
{
    if acts.len() == 0 {
        Seq::empty()
    } else {
        match acts.last() {
            Action::Send(m) => sent_ops(acts.drop_last()).push(outgoing_op(m)),
            _ => sent_ops(acts.drop_last()),
        }
    }
}

/// How many times `op` occurs in `s`.
pub open spec fn count_op(s: Seq<u8>, op: u8) -> nat
    decreases s.len(),
{
    if s.len() == 0 {
        0
    } else {
        count_op(s.drop_last(), op) + if s.last() == op { 1nat } else { 0nat }
    }
}

/// The state reached once what is known lets the machine move on: Ready
/// decides the encryption mode, and with the offer the machine selects.
pub open spec fn settle(s: NegotiationState, ready: Option<bool>, has_offer: bool) -> NegotiationState {
    if s == NegotiationState::Hello && ready == Some(false) {
        NegotiationState::Closing
    } else if s == NegotiationState::Hello && ready == Some(true) {
        if has_offer { NegotiationState::Select } else { NegotiationState::Describe }
    } else if s == NegotiationState::Describe && has_offer {
        NegotiationState::Select
    } else {
        s
    }
}

/// One session's negotiation.
pub struct Negotiation {
    pub state: NegotiationState,
    pub params: SessionParams,
    /// The heartbeat state while the heartbeater runs.
    pub heartbeat: Option<HeartbeatCtx>,
    /// Once Ready arrived: whether it offered the required encryption mode.
    pub ready: Option<bool>,
    /// What the local offer yielded, once it arrived.
    pub offer: Option<LocalOfferInfo>,
    /// The local offer's text (empty before it arrived).
    pub offer_sdp: String,
    /// SelectProtocol was sent.
    pub selected: bool,
    /// The session reached Active.
    pub activated: bool,
    /// How many Flags frames arrived.
    pub flags_seen: u64,
    /// Opcodes of the frames sent so far.
    pub sent: Ghost<Seq<u8>>,
}

impl Negotiation {
    pub open spec fn wf(&self) -> bool {
        &&& (self.heartbeat is Some <==> beats_in(self.state))
        &&& self.sent@.len() >= 1 && self.sent@[0] == 0
        &&& count_op(self.sent@, 0) == 1
        &&& count_op(self.sent@, 1) == if self.selected { 1nat } else { 0nat }
        &&& count_op(self.sent@, 12) == (if self.selected { 1nat } else { 0nat }) + (if self.activated { 1nat } else { 0nat })
        &&& (self.state == NegotiationState::Auth ==> self.sent@ == seq![0u8])
        &&& (rank(self.state) <= 3 ==> !self.selected && !self.activated)
        &&& (4 <= rank(self.state) <= 5 ==> self.selected && !self.activated)
        &&& (self.state == NegotiationState::Active ==> self.selected && self.activated)
        &&& (self.activated ==> self.selected)
        &&& (self.selected ==> self.offer is Some)
        &&& (2 <= rank(self.state) <= 6 ==> self.ready == Some(true))
        &&& (self.offer matches Some(info) ==> local_offer_spec(self.offer_sdp@, self.params.encoder)
            == Ok::<LocalOfferInfo, Seq<char>>(info))
    }

    /// Starts a session: the machine is in Auth and Identify is the one frame
    /// to send.
    pub fn new(params: SessionParams) -> (r: (Negotiation, Vec<Action>))
        ensures
            r.0.wf(),
            r.0.state == NegotiationState::Auth,
            r.0.params == params,
            r.0.sent@ == sent_ops(r.1@),
            r.0.heartbeat is None && r.0.ready is None && r.0.offer is None,
            r.0.offer_sdp@.len() == 0,
            !r.0.selected && !r.0.activated && r.0.flags_seen == 0,
            r.1.len() == 1,
            r.1[0] matches Action::Send(OutgoingWebsocketMessage::OpCode0(m))
                && m.server_id == params.server_id && m.session_id == params.session_id
                && m.token == params.token && m.user_id == params.user_id
                && m.video && m.streams.len() == 1 && is_screen_stream(m.streams[0]),
    {
        let m = identify(
            params.server_id.clone(),
            params.session_id.clone(),
            params.token.clone(),
            params.user_id.clone(),
        );
        let acts = vec![Action::Send(OutgoingWebsocketMessage::OpCode0(m))];
        let ghost log = seq![0u8];
        let n = Negotiation {
            state: NegotiationState::Auth,
            params,
            heartbeat: None,
            ready: None,
            offer: None,
            offer_sdp: String::new(),
            selected: false,
            activated: false,
            flags_seen: 0,
            sent: Ghost(log),
        };
        proof {
            lemma_sent_ops_push(Seq::empty(), acts@[0]);
            assert(acts@ =~= Seq::<Action>::empty().push(acts@[0]));
            assert(seq![0u8] =~= Seq::<u8>::empty().push(0u8));
            lemma_count_push(Seq::empty(), 0, 0);
            lemma_count_push(Seq::empty(), 0, 1);
            lemma_count_push(Seq::empty(), 0, 12);
        }
        (n, acts)
    }
}

impl Negotiation {
    /// Everything but the log and the actions stays as it was.
    pub open spec fn same_but_log(&self, o: &Negotiation) -> bool {
        &&& self.state == o.state && self.params == o.params && self.heartbeat == o.heartbeat
        &&& self.ready == o.ready && self.offer == o.offer && self.offer_sdp == o.offer_sdp
        &&& self.selected == o.selected && self.activated == o.activated && self.flags_seen == o.flags_seen
    }

    fn send(&mut self, acts: &mut Vec<Action>, m: OutgoingWebsocketMessage)
        ensures
            final(self).same_but_log(old(self)),
            final(self).sent@ == old(self).sent@.push(outgoing_op(m)),
            final(acts)@ == old(acts)@.push(Action::Send(m)),
            sent_ops(final(acts)@) == sent_ops(old(acts)@).push(outgoing_op(m)),
    {
        proof {
            lemma_sent_ops_push(acts@, Action::Send(m));
        }
        let ghost log = self.sent@.push(outgoing_op(m));
        self.sent = Ghost(log);
        acts.push(Action::Send(m));
    }

    /// Ends the session after a failure: stop beating, report, tear down and
    /// tell the control channel.
    fn fail(&mut self, acts: &mut Vec<Action>, e: SessionError)
        ensures
            final(self).state == NegotiationState::Closing,
            final(self).heartbeat is None,
            final(self).sent == old(self).sent,
            final(self).params == old(self).params,
            final(self).ready == old(self).ready && final(self).offer == old(self).offer,
            final(self).offer_sdp == old(self).offer_sdp,
            final(self).selected == old(self).selected && final(self).activated == old(self).activated,
            final(self).flags_seen == old(self).flags_seen,
            final(acts)@ == old(acts)@ + stop_beating(old(self).heartbeat is Some) + seq![
                Action::Fail(e),
                Action::Teardown,
                Action::PublishStreamStop,
            ],
            sent_ops(final(acts)@) == sent_ops(old(acts)@),
    {
        let ghost a0 = acts@;
        if self.heartbeat.is_some() {
            proof { lemma_sent_ops_push(acts@, Action::StopHeartbeat); }
            acts.push(Action::StopHeartbeat);
        }
        let ghost a1 = acts@;
        self.heartbeat = None;
        self.state = NegotiationState::Closing;
        proof { lemma_sent_ops_push(acts@, Action::Fail(e)); }
        acts.push(Action::Fail(e));
        proof { lemma_sent_ops_push(acts@, Action::Teardown); }
        acts.push(Action::Teardown);
        proof { lemma_sent_ops_push(acts@, Action::PublishStreamStop); }
        acts.push(Action::PublishStreamStop);
        assert(acts@ =~= a0 + stop_beating(old(self).heartbeat is Some) + seq![
            Action::Fail(e),
            Action::Teardown,
            Action::PublishStreamStop,
        ]);
    }

    /// Moves on as far as Ready and the local offer allow: Ready without the
    /// required mode fails the session; with Ready and the offer the machine
    /// announces the stream (inactive) and selects the protocol.
    fn advance(&mut self, acts: &mut Vec<Action>, Ghost(base): Ghost<Seq<u8>>)
        requires
            old(self).wf(),
            old(self).sent@ == base + sent_ops(old(acts)@),
        ensures
            final(self).wf(),
            final(self).state == settle(old(self).state, old(self).ready, old(self).offer is Some),
            final(self).params == old(self).params,
            final(self).ready == old(self).ready && final(self).offer == old(self).offer,
            final(self).offer_sdp == old(self).offer_sdp,
            final(self).flags_seen == old(self).flags_seen,
            final(self).state != NegotiationState::Closing ==> final(self).heartbeat == old(self).heartbeat,
            final(self).sent@ == base + sent_ops(final(acts)@),
            old(acts)@.is_prefix_of(final(acts)@),
            final(self).selected && !old(self).selected ==> announces_and_selects(final(acts)@, *final(self))
                && final(acts)@.len() == old(acts)@.len() + 2,
            !(final(self).selected && !old(self).selected) && final(self).state != NegotiationState::Closing
                ==> final(acts)@ == old(acts)@,
            final(self).state == NegotiationState::Closing && old(self).state != NegotiationState::Closing
                ==> old(self).state == NegotiationState::Hello && old(self).ready == Some(false),
            old(self).state == NegotiationState::Hello && old(self).ready == Some(false) ==> final(acts)@
                == old(acts)@ + stop_beating(true) + seq![
                    Action::Fail(SessionError::UnsupportedEncryption),
                    Action::Teardown,
                    Action::PublishStreamStop,
                ],
    {
        let ghost a0 = acts@;
        let ghost s0 = self.sent@;
        if self.state == NegotiationState::Hello {
            match self.ready {
                Some(false) => {
                    self.fail(acts, SessionError::UnsupportedEncryption);
                    assert(a0.is_prefix_of(acts@));
                    return;
                },
                Some(true) => {
                    self.state = NegotiationState::Describe;
                },
                None => {},
            }
        }
        if self.state == NegotiationState::Describe {
            match self.offer {
                Some(info) => {
                    self.state = NegotiationState::Offer;
                    let res = GatewayResolution::from_socket_info(self.params.resolution);
                    let m12 = stream_information(info.ssrcs, res, self.params.framerate, false);
                    self.send(acts, OutgoingWebsocketMessage::OpCode12(m12));
                    let m1 = select_protocol(
                        self.params.rtc_connection_id.clone(),
                        self.params.encoder,
                        info.video_payload_type,
                        info.rtx_payload_type,
                        self.offer_sdp.clone(),
                    );
                    self.send(acts, OutgoingWebsocketMessage::OpCode1(m1));
                    self.selected = true;
                    self.state = NegotiationState::Select;
                    proof {
                        lemma_count_push(s0, 12, 0);
                        lemma_count_push(s0, 12, 1);
                        lemma_count_push(s0, 12, 12);
                        lemma_count_push(s0.push(12), 1, 0);
                        lemma_count_push(s0.push(12), 1, 1);
                        lemma_count_push(s0.push(12), 1, 12);
                    }
                },
                None => {},
            }
        }
        assert(a0.is_prefix_of(acts@));
        assert(self.sent@ =~= base + sent_ops(acts@));
    }
}

/// `m` is the inactive StreamInfo announcing the offer's sources and the
/// session's limits.
pub open spec fn inactive_stream_info(m: OpCode12, n: Negotiation) -> bool {
    let info = n.offer->0;
    &&& m.audio_ssrc == info.ssrcs.audio && m.video_ssrc == info.ssrcs.video && m.rtx_ssrc == info.ssrcs.rtx
    &&& m.streams@.len() == 1
    &&& m.streams@[0].stream_type@ == "video"@
    &&& m.streams@[0].rid@ == "100"@
    &&& m.streams@[0].quality == 100
    &&& m.streams@[0].active == Some(false)
    &&& m.streams@[0].ssrc == Some(info.ssrcs.video)
    &&& m.streams@[0].rtx_ssrc == Some(info.ssrcs.rtx)
    &&& m.streams@[0].max_bitrate == Some(MAX_BITRATE)
    &&& m.streams@[0].max_framerate == Some(n.params.framerate)
    &&& m.streams@[0].max_resolution matches Some(r) && r.width == n.params.resolution.width
        && r.height == n.params.resolution.height
        && r.resolution_type@ == if n.params.resolution.is_fixed { "fixed"@ } else { "source"@ }
}

/// `acts` ends with the inactive StreamInfo, then SelectProtocol with the
/// offer's payload types and text.
pub open spec fn announces_and_selects(acts: Seq<Action>, n: Negotiation) -> bool {
    let k = acts.len() - 2;
    let info = n.offer->0;
    &&& acts.len() >= 2
    &&& acts[k] matches Action::Send(OutgoingWebsocketMessage::OpCode12(m)) && inactive_stream_info(m, n)
    &&& acts[k + 1] matches Action::Send(OutgoingWebsocketMessage::OpCode1(m)) && {
        &&& m.protocol@ == "webrtc"@
        &&& m.rtc_connection_id == n.params.rtc_connection_id
        &&& m.sdp == n.offer_sdp
        &&& m.data@ == n.offer_sdp@
        &&& m.codecs@.len() == 2
        &&& m.codecs@[0].name@ == "opus"@ && m.codecs@[0].payload_type == 111
        &&& m.codecs@[1].name@ == codec_name_spec(n.params.encoder)
        &&& m.codecs@[1].payload_type == info.video_payload_type
        &&& m.codecs@[1].rtx_payload_type == Some(info.rtx_payload_type)
    }
}

/// `acts` ends the session after a failure: stop beating (when it runs),
/// report the error, tear down, tell the control channel.
pub open spec fn is_failure(acts: Seq<Action>, running: bool) -> bool {
    let k = stop_beating(running).len() as int;
    &&& acts.len() == k + 3
    &&& acts.take(k) == stop_beating(running)
    &&& acts[k] is Fail
    &&& acts[k + 1] == Action::Teardown
    &&& acts[k + 2] == Action::PublishStreamStop
}

/// The error a failure reports.
pub open spec fn failure_error(acts: Seq<Action>) -> SessionError {
    acts[acts.len() - 3]->Fail_0
}

/// The actions of an acknowledgement: a warning when it carries another nonce
/// than the last beat, nothing otherwise.
pub open spec fn ack_actions(hb: Option<HeartbeatCtx>, received: u64) -> Seq<Action> {
    match hb {
        Some(h) => match h.last_nonce {
            Some(n) => if n != received {
                seq![Action::NonceMismatch { expected: n, received }]
            } else {
                Seq::empty()
            },
            None => Seq::empty(),
        },
        None => Seq::empty(),
    }
}

impl Negotiation {
    /// Handles one event and returns the actions to perform, in order.
    pub fn step(&mut self, ev: GatewayEvent) -> (acts: Vec<Action>)
        requires
            old(self).wf(),
        ensures
            final(self).wf(),
            rank(final(self).state) >= rank(old(self).state),
            final(self).params == old(self).params,
            final(self).sent@ == old(self).sent@ + sent_ops(acts@),
            final(self).selected && !old(self).selected ==> announces_and_selects(acts@, *final(self)),
            !(ev matches GatewayEvent::Frame(IncomingWebsocketMessage::OpCode2(_))) ==> final(self).ready == old(self).ready,
            !(ev is LocalOffer) ==> final(self).offer == old(self).offer && final(self).offer_sdp == old(self).offer_sdp,
            !(ev matches GatewayEvent::Frame(IncomingWebsocketMessage::OpCode15(_))) ==> final(self).flags_seen == old(self).flags_seen,
            !(ev is HeartbeatDue) && !(ev matches GatewayEvent::Frame(IncomingWebsocketMessage::OpCode8(_)))
                && final(self).state != NegotiationState::Closing ==> final(self).heartbeat == old(self).heartbeat,
            old(self).state == NegotiationState::Closing ==> acts@.len() == 0
                && final(self).state == NegotiationState::Closing && final(self).heartbeat is None,
            ev matches GatewayEvent::Frame(IncomingWebsocketMessage::OpCode8(h)) ==> if old(self).state == NegotiationState::Auth {
                &&& final(self).state == settle(NegotiationState::Hello, old(self).ready, old(self).offer is Some)
                &&& (final(self).state != NegotiationState::Closing
                    ==> final(self).heartbeat == Some(HeartbeatCtx::new_spec(h.heartbeat_interval)))
                &&& acts@.len() >= 1
                &&& acts@[0] == Action::StartHeartbeat { interval_ms: h.heartbeat_interval }
                &&& (final(self).state == NegotiationState::Closing ==> acts@
                    == seq![Action::StartHeartbeat { interval_ms: h.heartbeat_interval }] + stop_beating(true) + seq![
                        Action::Fail(SessionError::UnsupportedEncryption),
                        Action::Teardown,
                        Action::PublishStreamStop,
                    ])
                &&& (final(self).state == NegotiationState::Select ==> acts@.len() == 3
                    && announces_and_selects(acts@, *final(self)))
                &&& (final(self).state != NegotiationState::Closing && final(self).state != NegotiationState::Select
                    ==> acts@ == seq![Action::StartHeartbeat { interval_ms: h.heartbeat_interval }])
            } else {
                acts@.len() == 0 && *final(self) == *old(self)
            },
            ev matches GatewayEvent::Frame(IncomingWebsocketMessage::OpCode2(r)) ==> if old(self).ready is None && old(self).state != NegotiationState::Closing {
                &&& final(self).ready == Some(offers_required_mode(r.modes@))
                &&& final(self).state == settle(old(self).state, final(self).ready, old(self).offer is Some)
                &&& (final(self).ready == Some(false) && old(self).state == NegotiationState::Hello ==> is_failure(acts@, true)
                    && failure_error(acts@) == SessionError::UnsupportedEncryption)
                &&& (final(self).state == NegotiationState::Select && old(self).state != NegotiationState::Select
                    ==> acts@.len() == 2 && announces_and_selects(acts@, *final(self)))
                &&& (final(self).state != NegotiationState::Closing && (final(self).state != NegotiationState::Select
                    || old(self).state == NegotiationState::Select) ==> acts@.len() == 0)
            } else {
                acts@.len() == 0 && *final(self) == *old(self)
            },
            ev matches GatewayEvent::LocalOffer(sdp) ==> if old(self).offer is None && old(self).state != NegotiationState::Closing {
                match local_offer_spec(sdp@, old(self).params.encoder) {
                    Ok(info) => {
                        &&& final(self).offer == Some(info) && final(self).offer_sdp == sdp
                        &&& final(self).state == settle(old(self).state, old(self).ready, true)
                        &&& (final(self).state == NegotiationState::Select ==> acts@.len() == 2
                            && announces_and_selects(acts@, *final(self)))
                        &&& (final(self).state != NegotiationState::Select && final(self).state != NegotiationState::Closing
                            ==> acts@.len() == 0)
                    },
                    Err(name) => final(self).state == NegotiationState::Closing
                        && final(self).offer is None
                        && is_failure(acts@, old(self).heartbeat is Some)
                        && (failure_error(acts@) matches SessionError::SdpComposition(n) && n@ == name),
                }
            } else {
                acts@.len() == 0 && *final(self) == *old(self)
            },
            ev matches GatewayEvent::Frame(IncomingWebsocketMessage::OpCode4(d)) ==> if old(self).state == NegotiationState::Select {
                match compose_spec(old(self).offer_sdp@, d.sdp@, old(self).params.encoder) {
                    Ok((_, ls)) => final(self).state == NegotiationState::Answer && acts@.len() == 1
                        && (acts@[0] matches Action::ApplyAnswer(a) && a.remote_sdp@ == join_lines(ls)),
                    Err(name) => final(self).state == NegotiationState::Closing
                        && is_failure(acts@, true)
                        && (failure_error(acts@) matches SessionError::SdpComposition(n) && n@ == name),
                }
            } else {
                acts@.len() == 0 && *final(self) == *old(self)
            },
            ev is AnswerApplied ==> if old(self).state == NegotiationState::Answer {
                &&& final(self).state == NegotiationState::Active
                &&& acts@.len() == 2
                &&& acts@[0] matches Action::Send(OutgoingWebsocketMessage::OpCode12(m))
                    && inactive_stream_info(m, *final(self))
                &&& acts@[1] == Action::Send(OutgoingWebsocketMessage::OpCode5(
                    crate::frames::OpCode5 { speaking: true, delay: 5, ssrc: 0 }))
            } else {
                acts@.len() == 0 && *final(self) == *old(self)
            },
            ev is AnswerRejected ==> if old(self).state == NegotiationState::Answer {
                final(self).state == NegotiationState::Closing && is_failure(acts@, true)
                    && failure_error(acts@) == SessionError::MediaEngineSetup
            } else {
                acts@.len() == 0 && *final(self) == *old(self)
            },
            ev is HeartbeatDue ==> match old(self).heartbeat {
                Some(h) => {
                    &&& final(self).state == old(self).state
                    &&& acts@.len() == 1
                    &&& acts@[0] matches Action::Send(OutgoingWebsocketMessage::OpCode3(f))
                        && final(self).heartbeat == Some(HeartbeatCtx { last_nonce: Some(f.d), first_beat_sent: true, ..h })
                },
                None => acts@.len() == 0 && *final(self) == *old(self),
            },
            ev matches GatewayEvent::Frame(IncomingWebsocketMessage::OpCode6(a)) ==>
                *final(self) == *old(self) && acts@ == ack_actions(old(self).heartbeat, a.d),
            ev matches GatewayEvent::Frame(IncomingWebsocketMessage::OpCode15(_)) ==> {
                &&& acts@.len() == 0
                &&& final(self).state == old(self).state
                &&& final(self).flags_seen == if old(self).flags_seen < u64::MAX { (old(self).flags_seen + 1) as u64 } else { old(self).flags_seen }
            },
            ev matches GatewayEvent::Frame(IncomingWebsocketMessage::OpCode16(_)) ==>
                acts@.len() == 0 && *final(self) == *old(self),
            ev is RemoteClose ==> if old(self).state != NegotiationState::Closing {
                &&& final(self).state == NegotiationState::Closing
                &&& final(self).heartbeat is None
                &&& acts@ == stop_beating(old(self).heartbeat is Some) + seq![
                    Action::Fail(SessionError::GatewayTransport),
                    Action::Teardown,
                    Action::PublishStreamStop,
                ]
            } else {
                acts@.len() == 0 && *final(self) == *old(self)
            },
            ev is LocalStop ==> if old(self).state != NegotiationState::Closing {
                &&& final(self).state == NegotiationState::Closing
                &&& final(self).heartbeat is None
                &&& acts@ == stop_beating(old(self).heartbeat is Some) + seq![Action::Teardown]
            } else {
                acts@.len() == 0 && *final(self) == *old(self)
            },
    {
        let mut acts: Vec<Action> = Vec::new();
        let ghost base = self.sent@;
        assert(base =~= base + sent_ops(acts@));
        match ev {
            GatewayEvent::Frame(IncomingWebsocketMessage::OpCode8(h)) => {
                if self.state == NegotiationState::Auth {
                    self.state = NegotiationState::Hello;
                    self.heartbeat = Some(HeartbeatCtx::new(h.heartbeat_interval));
                    proof {
                        lemma_sent_ops_push(acts@, Action::StartHeartbeat { interval_ms: h.heartbeat_interval });
                    }
                    acts.push(Action::StartHeartbeat { interval_ms: h.heartbeat_interval });
                    self.advance(&mut acts, Ghost(base));
                }
            },
            GatewayEvent::Frame(IncomingWebsocketMessage::OpCode2(r)) => {
                if self.ready.is_none() && self.state != NegotiationState::Closing {
                    let ok = supports_encryption(&r.modes);
                    self.ready = Some(ok);
                    self.advance(&mut acts, Ghost(base));
                    proof {
                        lemma_failure_shape(true, SessionError::UnsupportedEncryption);
                        if old(self).state == NegotiationState::Hello && !ok {
                            assert(acts@ =~= stop_beating(true) + seq![
                                Action::Fail(SessionError::UnsupportedEncryption),
                                Action::Teardown,
                                Action::PublishStreamStop,
                            ]);
                        }
                    }
                }
            },
            GatewayEvent::LocalOffer(sdp) => {
                if self.offer.is_none() && self.state != NegotiationState::Closing {
                    match read_local_offer(sdp.as_str(), self.params.encoder) {
                        Ok(info) => {
                            self.offer = Some(info);
                            self.offer_sdp = sdp;
                            self.advance(&mut acts, Ghost(base));
                        },
                        Err(e) => {
                            self.fail(&mut acts, e);
                            proof {
                                lemma_failure_shape(old(self).heartbeat is Some, e);
                                assert(acts@ =~= stop_beating(old(self).heartbeat is Some) + seq![
                                    Action::Fail(e), Action::Teardown, Action::PublishStreamStop]);
                            }
                        },
                    }
                }
            },
            GatewayEvent::Frame(IncomingWebsocketMessage::OpCode4(d)) => {
                if self.state == NegotiationState::Select {
                    match compose(self.offer_sdp.as_str(), d.sdp.as_str(), self.params.encoder) {
                        Ok(a) => {
                            self.state = NegotiationState::Answer;
                            let answer = Action::ApplyAnswer(ToGst { remote_sdp: a.sdp });
                            proof {
                                lemma_sent_ops_push(acts@, answer);
                            }
                            acts.push(answer);
                        },
                        Err(e) => {
                            self.fail(&mut acts, e);
                            proof {
                                lemma_failure_shape(true, e);
                                assert(acts@ =~= stop_beating(true) + seq![
                                    Action::Fail(e), Action::Teardown, Action::PublishStreamStop]);
                            }
                        },
                    }
                }
            },
            GatewayEvent::AnswerApplied => {
                if self.state == NegotiationState::Answer {
                    match self.offer {
                        Some(info) => {
                            let ghost s0 = self.sent@;
                            let res = GatewayResolution::from_socket_info(self.params.resolution);
                            let m12 = stream_information(info.ssrcs, res, self.params.framerate, false);
                            self.send(&mut acts, OutgoingWebsocketMessage::OpCode12(m12));
                            self.send(&mut acts, OutgoingWebsocketMessage::OpCode5(speaking_message()));
                            self.activated = true;
                            self.state = NegotiationState::Active;
                            proof {
                                lemma_count_push(s0, 12, 0);
                                lemma_count_push(s0, 12, 1);
                                lemma_count_push(s0, 12, 12);
                                lemma_count_push(s0.push(12), 5, 0);
                                lemma_count_push(s0.push(12), 5, 1);
                                lemma_count_push(s0.push(12), 5, 12);
                            }
                        },
                        None => {},
                    }
                }
            },
            GatewayEvent::AnswerRejected => {
                if self.state == NegotiationState::Answer {
                    self.fail(&mut acts, SessionError::MediaEngineSetup);
                    proof {
                        lemma_failure_shape(true, SessionError::MediaEngineSetup);
                        assert(acts@ =~= stop_beating(true) + seq![
                            Action::Fail(SessionError::MediaEngineSetup), Action::Teardown, Action::PublishStreamStop]);
                    }
                }
            },
            GatewayEvent::HeartbeatDue => {
                match self.heartbeat {
                    Some(h) => {
                        let mut h2 = h;
                        let f = h2.beat();
                        self.heartbeat = Some(h2);
                        let ghost s0 = self.sent@;
                        self.send(&mut acts, OutgoingWebsocketMessage::OpCode3(f));
                        proof {
                            lemma_count_push(s0, 3, 0);
                            lemma_count_push(s0, 3, 1);
                            lemma_count_push(s0, 3, 12);
                        }
                    },
                    None => {},
                }
            },
            GatewayEvent::Frame(IncomingWebsocketMessage::OpCode6(a)) => {
                match self.heartbeat {
                    Some(h) => match h.last_nonce {
                        Some(n) => {
                            if n != a.d {
                                let w = Action::NonceMismatch { expected: n, received: a.d };
                                proof {
                                    lemma_sent_ops_push(acts@, w);
                                }
                                acts.push(w);
                            }
                        },
                        None => {},
                    },
                    None => {},
                }
            },
            GatewayEvent::Frame(IncomingWebsocketMessage::OpCode15(_)) => {
                if self.flags_seen < u64::MAX {
                    self.flags_seen = self.flags_seen + 1;
                }
            },
            GatewayEvent::Frame(IncomingWebsocketMessage::OpCode16(_)) => {},
            GatewayEvent::RemoteClose => {
                if self.state != NegotiationState::Closing {
                    self.fail(&mut acts, SessionError::GatewayTransport);
                    assert(acts@ =~= stop_beating(old(self).heartbeat is Some) + seq![
                        Action::Fail(SessionError::GatewayTransport), Action::Teardown, Action::PublishStreamStop]);
                }
            },
            GatewayEvent::LocalStop => {
                if self.state != NegotiationState::Closing {
                    if self.heartbeat.is_some() {
                        proof {
                            lemma_sent_ops_push(acts@, Action::StopHeartbeat);
                        }
                        acts.push(Action::StopHeartbeat);
                    }
                    self.heartbeat = None;
                    self.state = NegotiationState::Closing;
                    proof {
                        lemma_sent_ops_push(acts@, Action::Teardown);
                    }
                    acts.push(Action::Teardown);
                    assert(acts@ =~= stop_beating(old(self).heartbeat is Some) + seq![Action::Teardown]);
                }
            },
        }
        assert(self.sent@ =~= base + sent_ops(acts@));
        acts
    }
}

proof fn lemma_failure_shape(running: bool, e: SessionError)
    ensures
        is_failure(stop_beating(running) + seq![Action::Fail(e), Action::Teardown, Action::PublishStreamStop], running),
        failure_error(stop_beating(running) + seq![Action::Fail(e), Action::Teardown, Action::PublishStreamStop]) == e,
{
    let a = stop_beating(running) + seq![Action::Fail(e), Action::Teardown, Action::PublishStreamStop];
    assert(a.take(stop_beating(running).len() as int) =~= stop_beating(running));
}

/// The action that stops the heartbeater, when it runs.
pub open spec fn stop_beating(running: bool) -> Seq<Action> {
    if running { seq![Action::StopHeartbeat] } else { Seq::empty() }
}

/// A session's wire log begins with Identify and holds exactly one; once the
/// session reached Active it holds exactly one SelectProtocol and exactly two
/// StreamInfo frames.
pub proof fn lemma_wire_log(n: &Negotiation)
    requires
        n.wf(),
    ensures
        n.sent@.len() >= 1,
        n.sent@[0] == 0,
        count_op(n.sent@, 0) == 1,
        n.activated ==> count_op(n.sent@, 1) == 1 && count_op(n.sent@, 12) == 2,
        n.state == NegotiationState::Auth ==> n.sent@ == seq![0u8],
{
}

proof fn lemma_sent_ops_push(acts: Seq<Action>, a: Action)
    ensures
        sent_ops(acts.push(a)) == match a {
            Action::Send(m) => sent_ops(acts).push(outgoing_op(m)),
            _ => sent_ops(acts),
        },
{
    assert(acts.push(a).drop_last() =~= acts);
}

proof fn lemma_count_push(s: Seq<u8>, x: u8, op: u8)
    ensures
        count_op(s.push(x), op) == count_op(s, op) + if x == op { 1nat } else { 0nat },
{
    assert(s.push(x).drop_last() =~= s);
}

} // verus!
