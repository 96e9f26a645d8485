use vstd::prelude::*;
use vstd::string::StringExecFns;
use crate::token::RecognitionToken;
use crate::transcript::{TranscriptState, final_text_of, delta_of, preview_of};

verus! {

/// Milliseconds the session waits for `finished` after the end marker.
pub const FINALIZE_TIMEOUT_MS: u64 = 5000;

/// Where a session stands. Exactly one authority (the coordinator driving
/// `SessionState::step`) moves it forward.
#[derive(Clone, Copy, Debug, PartialEq, Eq, Structural)]
pub enum SessionPhase {
    /// The connection to the recognizer is not established yet.
    Connecting,
    /// Connected; the configuration handshake is out and frames flow.
    Streaming,
    /// The end marker is out but the frame source still has queued frames.
    Draining,
    /// The end marker is out and the frame source is exhausted.
    Finalizing,
    /// The session concluded, cleanly or via the bounded timeout.
    Finished,
    /// A connection or server-reported failure ended the session.
    Failed,
}

/// One parsed inbound message from the recognizer.
pub struct ResponseRecord {
    pub error_code: Option<String>,
    pub error_message: Option<String>,
    pub tokens: Option<Vec<RecognitionToken>>,
    pub finished: Option<bool>,
}

/// What the surrounding loop observed and hands to the state machine.
pub enum SessionEvent {
    /// The connection to the recognizer was established.
    Connected,
    /// The connection attempt failed.
    ConnectFailed(String),
    /// The advisory stop flag was observed true.
    StopObserved,
    /// One audio frame became available from the capture queue.
    Frame(Vec<u8>),
    /// The frame source closed: the producer is gone and the queue is drained.
    FrameSourceClosed,
    /// An inbound message parsed into a response record.
    Response(ResponseRecord),
    /// An inbound message failed to parse; it is dropped, never fatal.
    Malformed,
    /// The remote closed the connection without an error payload.
    RemoteClosed,
    /// The transport failed mid-stream.
    TransportError(String),
    /// The bounded finalize timer fired.
    FinalizeTimeout,
}

/// What the surrounding loop must do in response, in order.
pub enum SessionAction {
    /// Send the configuration handshake message, exactly once, first.
    SendConfig,
    /// Forward one audio frame as a binary message.
    SendFrame(Vec<u8>),
    /// Send the single empty text message that marks end of audio.
    SendEndMarker,
    /// Arm the bounded finalize timer for the given number of milliseconds.
    ArmFinalizeTimer(u64),
    /// Surface newly finalized text to the insertion worker and event sink.
    EmitDelta(String),
    /// Surface the live preview to the event sink.
    EmitPreview(String),
    /// Surface a recognition or transport error message.
    EmitError(String),
}

/// The mathematical image of a `SessionAction`.
pub enum ActionModel {
    SendConfig,
    SendFrame(Seq<u8>),
    SendEndMarker,
    ArmFinalizeTimer(u64),
    EmitDelta(Seq<char>),
    EmitPreview(Seq<char>),
    EmitError(Seq<char>),
}

impl View for SessionAction {
    type V = ActionModel;

    open spec fn view(&self) -> ActionModel {
        match self {
            SessionAction::SendConfig => ActionModel::SendConfig,
            SessionAction::SendFrame(d) => ActionModel::SendFrame(d@),
            SessionAction::SendEndMarker => ActionModel::SendEndMarker,
            SessionAction::ArmFinalizeTimer(ms) => ActionModel::ArmFinalizeTimer(*ms),
            SessionAction::EmitDelta(s) => ActionModel::EmitDelta(s@),
            SessionAction::EmitPreview(s) => ActionModel::EmitPreview(s@),
            SessionAction::EmitError(s) => ActionModel::EmitError(s@),
        }
    }
}

/// The views of a list of actions, in order.
pub open spec fn views_of(acts: Seq<SessionAction>) -> Seq<ActionModel> {
    acts.map_values(|a: SessionAction| a@)
}

/// The mathematical image of a `SessionState`.
pub struct SessionModel {
    pub phase: SessionPhase,
    pub config_sent: bool,
    pub end_marker_sent: bool,
    pub source_closed: bool,
    pub finalized: Seq<char>,
    pub accumulated: Seq<char>,
    pub conn_error: Option<Seq<char>>,
}

/// The session as the coordinator carries it across events.
pub struct SessionState {
    pub phase: SessionPhase,
    pub config_sent: bool,
    pub end_marker_sent: bool,
    pub source_closed: bool,
    pub transcript: TranscriptState,
    pub conn_error: Option<String>,
}

impl View for SessionState {
    type V = SessionModel;

    open spec fn view(&self) -> SessionModel {
        SessionModel {
            phase: self.phase,
            config_sent: self.config_sent,
            end_marker_sent: self.end_marker_sent,
            source_closed: self.source_closed,
            finalized: self.transcript.finalized_text@,
            accumulated: self.transcript.accumulated_text@,
            conn_error: match &self.conn_error {
                Some(e) => Some(e@),
                None => None,
            },
        }
    }
}

/// The session is over: no event changes it and no action is emitted.
pub open spec fn is_terminal(p: SessionPhase) -> bool {
    p is Finished || p is Failed
}

/// A phase in which inbound responses and frames are still processed.
pub open spec fn is_active(p: SessionPhase) -> bool {
    p is Streaming || p is Draining || p is Finalizing
}

/// The state a session starts in.
pub open spec fn initial_model() -> SessionModel {
    SessionModel {
        phase: SessionPhase::Connecting,
        config_sent: false,
        end_marker_sent: false,
        source_closed: false,
        finalized: Seq::empty(),
        accumulated: Seq::empty(),
        conn_error: None,
    }
}

/// Internal consistency of a session state; established at start and
/// preserved by every step.
pub open spec fn model_inv(m: SessionModel) -> bool {
    &&& (m.phase is Connecting ==> !m.config_sent && !m.end_marker_sent)
    &&& (m.phase is Streaming ==> m.config_sent && !m.end_marker_sent)
    &&& (m.phase is Draining || m.phase is Finalizing ==> m.config_sent && m.end_marker_sent)
}

/// The message surfaced for a server-reported error record.
pub open spec fn error_text_of(r: ResponseRecord) -> Seq<char> {
    let code = match r.error_code {
        Some(c) => c@,
        None => Seq::empty(),
    };
    let msg = match r.error_message {
        Some(s) => s@,
        None => Seq::empty(),
    };
    code + " - "@ + msg
}

/// The token list of a response, empty when the field was absent.
pub open spec fn tokens_of(r: ResponseRecord) -> Seq<RecognitionToken> {
    match r.tokens {
        Some(v) => v@,
        None => Seq::empty(),
    }
}

/// Begins the wind-down: on the first stop or source-close observation the
/// end marker goes out and the finalize timer is armed.
pub open spec fn wind_down_model(m: SessionModel, closing: bool) -> SessionModel {
    let closed = m.source_closed || closing;
    if m.phase is Streaming {
        SessionModel {
            phase: if closed { SessionPhase::Finalizing } else { SessionPhase::Draining },
            end_marker_sent: true,
            source_closed: closed,
            ..m
        }
    } else if m.phase is Draining && closed {
        SessionModel { phase: SessionPhase::Finalizing, source_closed: true, ..m }
    } else {
        SessionModel { source_closed: closed, ..m }
    }
}

/// State after consuming one parsed response.
pub open spec fn response_model(m: SessionModel, r: ResponseRecord) -> SessionModel {
    if !is_active(m.phase) {
        m
    } else if r.error_code is Some {
        SessionModel { phase: SessionPhase::Failed, ..m }
    } else {
        let fin = final_text_of(tokens_of(r));
        let d = delta_of(m.finalized, fin);
        let m1 = SessionModel { finalized: fin, accumulated: m.accumulated + d, ..m };
        if r.finished == Some(true) {
            SessionModel { phase: SessionPhase::Finished, ..m1 }
        } else {
            m1
        }
    }
}

/// The single transition function of the session: one observed event in,
/// the next state out.
pub open spec fn step_model(m: SessionModel, ev: SessionEvent) -> SessionModel {
    if is_terminal(m.phase) {
        m
    } else {
        match ev {
            SessionEvent::Connected => if m.phase is Connecting {
                SessionModel { phase: SessionPhase::Streaming, config_sent: true, ..m }
            } else {
                m
            },
            SessionEvent::ConnectFailed(e) => if m.phase is Connecting {
                SessionModel { phase: SessionPhase::Failed, conn_error: Some(e@), ..m }
            } else {
                m
            },
            SessionEvent::StopObserved => wind_down_model(m, false),
            SessionEvent::FrameSourceClosed => wind_down_model(m, true),
            SessionEvent::Frame(_) => m,
            SessionEvent::Response(r) => response_model(m, r),
            SessionEvent::Malformed => m,
            SessionEvent::RemoteClosed => SessionModel { phase: SessionPhase::Finished, ..m },
            SessionEvent::TransportError(e) => (SessionModel {
                phase: SessionPhase::Failed,
                conn_error: Some(e@),
                ..m
            }),
            SessionEvent::FinalizeTimeout => if m.end_marker_sent {
                SessionModel { phase: SessionPhase::Finished, ..m }
            } else {
                m
            },
        }
    }
}

/// Actions emitted for one parsed response: the error event on a
/// server-reported error; otherwise the non-empty delta, then the
/// non-empty preview.
pub open spec fn response_actions(m: SessionModel, r: ResponseRecord) -> Seq<ActionModel> {
    if !is_active(m.phase) {
        Seq::empty()
    } else if r.error_code is Some {
        seq![ActionModel::EmitError(error_text_of(r))]
    } else {
        let d = delta_of(m.finalized, final_text_of(tokens_of(r)));
        let p = preview_of(tokens_of(r));
        (if d.len() > 0 {
            seq![ActionModel::EmitDelta(d)]
        } else {
            Seq::empty()
        }) + (if p.len() > 0 {
            seq![ActionModel::EmitPreview(p)]
        } else {
            Seq::empty()
        })
    }
}

/// The actions one step emits, in the order the loop must perform them.
pub open spec fn actions_of(m: SessionModel, ev: SessionEvent) -> Seq<ActionModel> {
    if is_terminal(m.phase) {
        Seq::empty()
    } else {
        match ev {
            SessionEvent::Connected => if m.phase is Connecting {
                seq![ActionModel::SendConfig]
            } else {
                Seq::empty()
            },
            SessionEvent::ConnectFailed(_) => Seq::empty(),
            SessionEvent::StopObserved | SessionEvent::FrameSourceClosed => if m.phase
                is Streaming {
                seq![ActionModel::SendEndMarker, ActionModel::ArmFinalizeTimer(FINALIZE_TIMEOUT_MS)]
            } else {
                Seq::empty()
            },
            SessionEvent::Frame(d) => if m.phase is Streaming || m.phase is Draining {
                seq![ActionModel::SendFrame(d@)]
            } else {
                Seq::empty()
            },
            SessionEvent::Response(r) => response_actions(m, r),
            SessionEvent::Malformed => Seq::empty(),
            SessionEvent::RemoteClosed => Seq::empty(),
            SessionEvent::TransportError(e) => seq![ActionModel::EmitError(e@)],
            SessionEvent::FinalizeTimeout => Seq::empty(),
        }
    }
}

/// How many end-marker sends a list of actions holds.
pub open spec fn count_end_markers(acts: Seq<ActionModel>) -> nat
    decreases acts.len(),
{
    if acts.len() == 0 {
        0
    } else {
        count_end_markers(acts.drop_last()) + (if acts.last() is SendEndMarker {
            1nat
        } else {
            0nat
        })
    }
}

/// How many finalize-timer arms a list of actions holds.
pub open spec fn count_timer_arms(acts: Seq<ActionModel>) -> nat
    decreases acts.len(),
{
    if acts.len() == 0 {
        0
    } else {
        count_timer_arms(acts.drop_last()) + (if acts.last() is ArmFinalizeTimer {
            1nat
        } else {
            0nat
        })
    }
}

/// How many configuration-handshake sends a list of actions holds.
pub open spec fn count_configs(acts: Seq<ActionModel>) -> nat
    decreases acts.len(),
{
    if acts.len() == 0 {
        0
    } else {
        count_configs(acts.drop_last()) + (if acts.last() is SendConfig {
            1nat
        } else {
            0nat
        })
    }
}

/// How many frame sends a list of actions holds.
pub open spec fn count_frame_sends(acts: Seq<ActionModel>) -> nat
    decreases acts.len(),
{
    if acts.len() == 0 {
        0
    } else {
        count_frame_sends(acts.drop_last()) + (if acts.last() is SendFrame {
            1nat
        } else {
            0nat
        })
    }
}

/// The state after consuming a whole sequence of events in order.
pub open spec fn run_model(m: SessionModel, evs: Seq<SessionEvent>) -> SessionModel
    decreases evs.len(),
{
    if evs.len() == 0 {
        m
    } else {
        step_model(run_model(m, evs.drop_last()), evs.last())
    }
}

/// End-marker sends emitted over a whole sequence of events.
pub open spec fn total_end_markers(m: SessionModel, evs: Seq<SessionEvent>) -> nat
    decreases evs.len(),
{
    if evs.len() == 0 {
        0
    } else {
        total_end_markers(m, evs.drop_last()) + count_end_markers(
            actions_of(run_model(m, evs.drop_last()), evs.last()))
    }
}

/// Finalize-timer arms emitted over a whole sequence of events.
pub open spec fn total_timer_arms(m: SessionModel, evs: Seq<SessionEvent>) -> nat
    decreases evs.len(),
{
    if evs.len() == 0 {
        0
    } else {
        total_timer_arms(m, evs.drop_last()) + count_timer_arms(
            actions_of(run_model(m, evs.drop_last()), evs.last()))
    }
}

/// Configuration-handshake sends emitted over a whole sequence of events.
pub open spec fn total_configs(m: SessionModel, evs: Seq<SessionEvent>) -> nat
    decreases evs.len(),
{
    if evs.len() == 0 {
        0
    } else {
        total_configs(m, evs.drop_last()) + count_configs(
            actions_of(run_model(m, evs.drop_last()), evs.last()))
    }
}

proof fn lemma_counts_single(a: ActionModel)
    ensures
        count_end_markers(seq![a]) == (if a is SendEndMarker { 1nat } else { 0nat }),
        count_timer_arms(seq![a]) == (if a is ArmFinalizeTimer { 1nat } else { 0nat }),
        count_configs(seq![a]) == (if a is SendConfig { 1nat } else { 0nat }),
        count_frame_sends(seq![a]) == (if a is SendFrame { 1nat } else { 0nat }),
{
    reveal_with_fuel(count_end_markers, 2);
    reveal_with_fuel(count_timer_arms, 2);
    reveal_with_fuel(count_configs, 2);
    reveal_with_fuel(count_frame_sends, 2);
    assert(seq![a].drop_last() =~= Seq::<ActionModel>::empty());
}

proof fn lemma_counts_pair(a: ActionModel, b: ActionModel)
    ensures
        count_end_markers(seq![a, b]) == count_end_markers(seq![a]) + count_end_markers(seq![b]),
        count_timer_arms(seq![a, b]) == count_timer_arms(seq![a]) + count_timer_arms(seq![b]),
        count_configs(seq![a, b]) == count_configs(seq![a]) + count_configs(seq![b]),
        count_frame_sends(seq![a, b]) == count_frame_sends(seq![a]) + count_frame_sends(seq![b]),
{
    reveal_with_fuel(count_end_markers, 2);
    reveal_with_fuel(count_timer_arms, 2);
    reveal_with_fuel(count_configs, 2);
    reveal_with_fuel(count_frame_sends, 2);
    assert(seq![a, b].drop_last() =~= seq![a]);
    lemma_counts_single(a);
    lemma_counts_single(b);
}

/// One step emits an end-marker send exactly when it turns the
/// `end_marker_sent` flag on, always pairs it with exactly one timer arm,
/// never turns the flag off, and preserves the invariant.
proof fn lemma_step_counts(m: SessionModel, ev: SessionEvent)
    requires
        model_inv(m),
    ensures
        model_inv(step_model(m, ev)),
        m.end_marker_sent ==> step_model(m, ev).end_marker_sent,
        count_timer_arms(actions_of(m, ev)) == count_end_markers(actions_of(m, ev)),
        count_end_markers(actions_of(m, ev)) == (if !m.end_marker_sent && step_model(m,
            ev).end_marker_sent {
            1nat
        } else {
            0nat
        }),
        m.config_sent ==> step_model(m, ev).config_sent,
        count_configs(actions_of(m, ev)) == (if !m.config_sent && step_model(m,
            ev).config_sent {
            1nat
        } else {
            0nat
        }),
        count_frame_sends(actions_of(m, ev)) > 0 ==> m.config_sent,
{
    reveal_with_fuel(count_end_markers, 2);
    reveal_with_fuel(count_timer_arms, 2);
    reveal_with_fuel(count_configs, 2);
    reveal_with_fuel(count_frame_sends, 2);
    if is_terminal(m.phase) {
    } else {
        match ev {
            SessionEvent::Connected => {
                if m.phase is Connecting {
                    lemma_counts_single(ActionModel::SendConfig);
                }
            },
            SessionEvent::ConnectFailed(_) => {},
            SessionEvent::StopObserved | SessionEvent::FrameSourceClosed => {
                if m.phase is Streaming {
                    lemma_counts_pair(ActionModel::SendEndMarker, ActionModel::ArmFinalizeTimer(
                        FINALIZE_TIMEOUT_MS));
                }
            },
            SessionEvent::Frame(d) => {
                if m.phase is Streaming || m.phase is Draining {
                    lemma_counts_single(ActionModel::SendFrame(d@));
                }
            },
            SessionEvent::Response(r) => {
                if !is_active(m.phase) {
                } else if r.error_code is Some {
                    lemma_counts_single(ActionModel::EmitError(error_text_of(r)));
                } else {
                    let d = delta_of(m.finalized, final_text_of(tokens_of(r)));
                    let p = preview_of(tokens_of(r));
                    if d.len() > 0 && p.len() > 0 {
                        assert(response_actions(m, r) =~= seq![ActionModel::EmitDelta(d),
                            ActionModel::EmitPreview(p)]);
                        lemma_counts_pair(ActionModel::EmitDelta(d), ActionModel::EmitPreview(p));
                    } else if d.len() > 0 {
                        assert(response_actions(m, r) =~= seq![ActionModel::EmitDelta(d)]);
                        lemma_counts_single(ActionModel::EmitDelta(d));
                    } else if p.len() > 0 {
                        assert(response_actions(m, r) =~= seq![ActionModel::EmitPreview(p)]);
                        lemma_counts_single(ActionModel::EmitPreview(p));
                    } else {
                        assert(response_actions(m, r) =~= Seq::<ActionModel>::empty());
                    }
                }
            },
            SessionEvent::Malformed => {},
            SessionEvent::RemoteClosed => {},
            SessionEvent::TransportError(e) => {
                lemma_counts_single(ActionModel::EmitError(e@));
            },
            SessionEvent::FinalizeTimeout => {},
        }
    }
}

/// Over any run from a consistent state: the invariant holds throughout, the
/// end-marker flag is monotone, the end markers sent count the one flag flip,
/// and every end marker is paired with exactly one timer arm.
proof fn lemma_run_counts(m: SessionModel, evs: Seq<SessionEvent>)
    requires
        model_inv(m),
    ensures
        model_inv(run_model(m, evs)),
        m.end_marker_sent ==> run_model(m, evs).end_marker_sent,
        total_end_markers(m, evs) + (if m.end_marker_sent {
            1nat
        } else {
            0nat
        }) == (if run_model(m, evs).end_marker_sent {
            1nat
        } else {
            0nat
        }),
        total_timer_arms(m, evs) == total_end_markers(m, evs),
        m.config_sent ==> run_model(m, evs).config_sent,
        total_configs(m, evs) + (if m.config_sent {
            1nat
        } else {
            0nat
        }) == (if run_model(m, evs).config_sent {
            1nat
        } else {
            0nat
        }),
    decreases evs.len(),
{
    if evs.len() == 0 {
    } else {
        lemma_run_counts(m, evs.drop_last());
        lemma_step_counts(run_model(m, evs.drop_last()), evs.last());
    }
}

/// A whole session sends the configuration handshake at most once, and any
/// step that forwards a frame comes after the handshake went out.
pub proof fn lemma_handshake_once_and_first(evs: Seq<SessionEvent>, i: int)
    requires
        0 <= i < evs.len(),
    ensures
        total_configs(initial_model(), evs) <= 1,
        count_frame_sends(actions_of(run_model(initial_model(), evs.subrange(0, i)),
            evs[i])) > 0 ==> run_model(initial_model(), evs.subrange(0, i)).config_sent,
{
    lemma_run_counts(initial_model(), evs);
    lemma_run_counts(initial_model(), evs.subrange(0, i));
    lemma_step_counts(run_model(initial_model(), evs.subrange(0, i)), evs[i]);
}

/// A whole session sends the end marker at most once, and arms the finalize
/// timer exactly as often as it sends the end marker — so at most once too.
pub proof fn lemma_end_marker_at_most_once(evs: Seq<SessionEvent>)
    ensures
        total_end_markers(initial_model(), evs) <= 1,
        total_timer_arms(initial_model(), evs) == total_end_markers(initial_model(), evs),
{
    lemma_run_counts(initial_model(), evs);
}

proof fn lemma_run_append(m: SessionModel, a: Seq<SessionEvent>, b: Seq<SessionEvent>)
    ensures
        run_model(m, a + b) == run_model(run_model(m, a), b),
        total_end_markers(m, a + b) == total_end_markers(m, a) + total_end_markers(
            run_model(m, a), b),
    decreases b.len(),
{
    if b.len() == 0 {
        assert(a + b =~= a);
    } else {
        lemma_run_append(m, a, b.drop_last());
        assert((a + b).drop_last() =~= a + b.drop_last());
        assert((a + b).last() == b.last());
    }
}

/// When the stop signal is observed while the session is still streaming —
/// in particular while the frame source still has queued frames — the end
/// marker is sent exactly once over the whole session, and exactly one
/// finalize timer is ever armed.
pub proof fn lemma_end_marker_exactly_once(evs: Seq<SessionEvent>, i: int)
    requires
        0 <= i < evs.len(),
        evs[i] is StopObserved,
        run_model(initial_model(), evs.subrange(0, i)).phase is Streaming,
    ensures
        total_end_markers(initial_model(), evs) == 1,
        total_timer_arms(initial_model(), evs) == 1,
{
    reveal_with_fuel(run_model, 2);
    reveal_with_fuel(total_end_markers, 2);
    reveal_with_fuel(total_timer_arms, 2);
    let m0 = initial_model();
    let pre = evs.subrange(0, i);
    let at = evs.subrange(0, i + 1);
    let rest = evs.subrange(i + 1, evs.len() as int);
    lemma_run_counts(m0, pre);
    let mi = run_model(m0, pre);
    assert(at =~= pre + seq![evs[i]]);
    lemma_run_append(m0, pre, seq![evs[i]]);
    assert(seq![evs[i]].drop_last() =~= Seq::<SessionEvent>::empty());
    lemma_step_counts(mi, evs[i]);
    assert(run_model(m0, at).end_marker_sent);
    assert(total_end_markers(m0, at) == 1);
    lemma_run_counts(run_model(m0, at), rest);
    assert(evs =~= at + rest);
    lemma_run_append(m0, at, rest);
    lemma_run_counts(m0, evs);
}

/// If `finished: true` has not arrived when the finalize timer fires, the
/// session terminates then and there rather than waiting indefinitely.
pub proof fn lemma_timeout_terminates(m: SessionModel)
    requires
        model_inv(m),
        m.end_marker_sent,
    ensures
        is_terminal(step_model(m, SessionEvent::FinalizeTimeout).phase),
{
}

impl SessionState {
    /// A fresh session, not yet connected.
    pub fn new() -> (r: SessionState)
        ensures
            r@ == initial_model(),
            model_inv(r@),
    {
        let r = SessionState {
            phase: SessionPhase::Connecting,
            config_sent: false,
            end_marker_sent: false,
            source_closed: false,
            transcript: TranscriptState::new(),
            conn_error: None,
        };
        proof {
            assert(r@ == initial_model());
        }
        r
    }

    /// Consumes one observed event: moves the session to `step_model` of it
    /// and returns exactly the actions `actions_of` lists, in that order.
    pub fn step(&mut self, ev: SessionEvent) -> (actions: Vec<SessionAction>)
        ensures
            final(self)@ == step_model(old(self)@, ev),
            views_of(actions@) == actions_of(old(self)@, ev),
    {
        let ghost m = self@;
        let mut actions: Vec<SessionAction> = Vec::new();
        if self.phase == SessionPhase::Finished || self.phase == SessionPhase::Failed {
            proof {
                assert(views_of(actions@) =~= actions_of(m, ev));
            }
            return actions;
        }
        match ev {
            SessionEvent::Connected => {
                if self.phase == SessionPhase::Connecting {
                    self.phase = SessionPhase::Streaming;
                    self.config_sent = true;
                    actions.push(SessionAction::SendConfig);
                }
            },
            SessionEvent::ConnectFailed(e) => {
                if self.phase == SessionPhase::Connecting {
                    self.phase = SessionPhase::Failed;
                    self.conn_error = Some(e);
                }
            },
            SessionEvent::StopObserved => {
                self.wind_down(false, &mut actions);
            },
            SessionEvent::FrameSourceClosed => {
                self.wind_down(true, &mut actions);
            },
            SessionEvent::Frame(data) => {
                if self.phase == SessionPhase::Streaming || self.phase == SessionPhase::Draining {
                    actions.push(SessionAction::SendFrame(data));
                }
            },
            SessionEvent::Response(r) => {
                self.consume_response(r, &mut actions);
            },
            SessionEvent::Malformed => {},
            SessionEvent::RemoteClosed => {
                self.phase = SessionPhase::Finished;
            },
            SessionEvent::TransportError(e) => {
                self.phase = SessionPhase::Failed;
                actions.push(SessionAction::EmitError(e.clone()));
                self.conn_error = Some(e);
            },
            SessionEvent::FinalizeTimeout => {
                if self.end_marker_sent {
                    self.phase = SessionPhase::Finished;
                }
            },
        }
        proof {
            assert(views_of(actions@) =~= actions_of(m, ev));
        }
        actions
    }

    /// First stop or source-close observation: sends the end marker once and
    /// arms the finalize timer with it.
    fn wind_down(&mut self, closing: bool, actions: &mut Vec<SessionAction>)
        requires
            !is_terminal(old(self)@.phase),
        ensures
            final(self)@ == wind_down_model(old(self)@, closing),
            final(actions)@ == old(actions)@ + (if old(self)@.phase is Streaming {
                seq![SessionAction::SendEndMarker, SessionAction::ArmFinalizeTimer(
                    FINALIZE_TIMEOUT_MS)]
            } else {
                Seq::empty()
            }),
    {
        let closed = self.source_closed || closing;
        if self.phase == SessionPhase::Streaming {
            self.phase = if closed {
                SessionPhase::Finalizing
            } else {
                SessionPhase::Draining
            };
            self.end_marker_sent = true;
            self.source_closed = closed;
            actions.push(SessionAction::SendEndMarker);
            actions.push(SessionAction::ArmFinalizeTimer(FINALIZE_TIMEOUT_MS));
        } else if self.phase == SessionPhase::Draining && closed {
            self.phase = SessionPhase::Finalizing;
            self.source_closed = true;
        } else {
            self.source_closed = closed;
        }
    }

    /// One parsed response: a server-reported error is terminal; otherwise
    /// the tokens run through the transcript differ and the non-empty delta
    /// and preview are surfaced.
    fn consume_response(&mut self, r: ResponseRecord, actions: &mut Vec<SessionAction>)
        requires
            !is_terminal(old(self)@.phase),
        ensures
            final(self)@ == response_model(old(self)@, r),
            final(actions)@.map_values(|a: SessionAction| a@) == old(actions)@.map_values(
                |a: SessionAction| a@) + response_actions(old(self)@, r),
    {
        let ghost m = self@;
        if !(self.phase == SessionPhase::Streaming || self.phase == SessionPhase::Draining
            || self.phase == SessionPhase::Finalizing) {
            proof {
                assert(final(actions)@.map_values(|a: SessionAction| a@) =~= old(actions)@
                    .map_values(|a: SessionAction| a@) + response_actions(m, r));
            }
            return;
        }
        match r.error_code {
            Some(code) => {
                self.phase = SessionPhase::Failed;
                let mut e = code;
                e.append(" - ");
                match r.error_message {
                    Some(msg) => {
                        e.append(msg.as_str());
                    },
                    None => {},
                }
                proof {
                    assert(e@ == error_text_of(r));
                }
                actions.push(SessionAction::EmitError(e));
                proof {
                    assert(final(actions)@.map_values(|a: SessionAction| a@) =~= old(actions)@
                        .map_values(|a: SessionAction| a@) + response_actions(m, r));
                }
            },
            None => {
                let toks: Vec<RecognitionToken> = match r.tokens {
                    Some(v) => v,
                    None => Vec::new(),
                };
                proof {
                    assert(toks@ == tokens_of(r));
                }
                let outcome = self.transcript.apply_tokens(&toks);
                if r.finished == Some(true) {
                    self.phase = SessionPhase::Finished;
                }
                let has_delta = !outcome.delta.as_str().is_empty();
                let has_preview = !outcome.preview.as_str().is_empty();
                if has_delta {
                    actions.push(SessionAction::EmitDelta(outcome.delta));
                }
                if has_preview {
                    actions.push(SessionAction::EmitPreview(outcome.preview));
                }
                proof {
                    assert(final(actions)@.map_values(|a: SessionAction| a@) =~= old(actions)@
                        .map_values(|a: SessionAction| a@) + response_actions(m, r));
                }
            },
        }
    }

    /// The session's outcome for the caller: a connection-level failure
    /// bubbles up; otherwise the accumulated transcript is returned, whether
    /// the session finished cleanly, timed out, or failed at the protocol
    /// level after yielding text.
    pub fn into_result(self) -> (r: Result<String, String>)
        ensures
            self@.conn_error is Some ==> r is Err && r->Err_0@ == self@.conn_error->Some_0,
            self@.conn_error is None ==> r is Ok && r->Ok_0@ == self@.accumulated,
    {
        match self.conn_error {
            Some(e) => Err(e),
            None => Ok(self.transcript.accumulated_text),
        }
    }
}

} // verus!
