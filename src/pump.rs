use vstd::prelude::*;

verus! {

/// Where a session's output pump stands.
#[derive(Clone, Copy, Debug, PartialEq, Eq, Structural)]
pub enum PumpPhase {
    /// Nothing read yet.
    Created,
    /// Relaying output.
    Running,
    /// End of output or a read error was seen; nothing more is relayed.
    Exited,
}

/// What one blocking read of a terminal's output gave. Zero bytes read is
/// the end of the output.
#[derive(Debug, PartialEq, Eq)]
pub enum ReadOutcome {
    Data(Vec<u8>),
    Failed,
}

pub enum ReadOutcomeView {
    Data(Seq<u8>),
    Failed,
}

impl View for ReadOutcome {
    type V = ReadOutcomeView;

    open spec fn view(&self) -> ReadOutcomeView {
        match self {
            ReadOutcome::Data(b) => ReadOutcomeView::Data(b@),
            ReadOutcome::Failed => ReadOutcomeView::Failed,
        }
    }
}

/// What a session tells its listener.
#[derive(Debug, PartialEq, Eq)]
pub enum SessionEvent {
    Output { session_id: u64, data: String },
    Exit { session_id: u64 },
}

pub enum SessionEventView {
    Output { session_id: u64, data: Seq<char> },
    Exit { session_id: u64 },
}

impl View for SessionEvent {
    type V = SessionEventView;

    open spec fn view(&self) -> SessionEventView {
        match self {
            SessionEvent::Output { session_id, data } => SessionEventView::Output {
                session_id: *session_id,
                data: data@,
            },
            SessionEvent::Exit { session_id } => SessionEventView::Exit { session_id: *session_id },
        }
    }
}

pub open spec fn opt_event_view(e: Option<SessionEvent>) -> Option<SessionEventView> {
    match e {
        Some(ev) => Some(ev@),
        None => None,
    }
}

/// What `String::from_utf8_lossy` makes of some bytes.
pub uninterp spec fn lossy_text_of(b: Seq<u8>) -> Seq<char>;

/// Relies on `String::from_utf8_lossy`: the text depends on the bytes alone,
/// invalid sequences becoming U+FFFD.
#[verifier::external_body]
fn decode_lossy(b: &[u8]) -> (r: String)
    ensures
        r@ == lossy_text_of(b@),
{
    String::from_utf8_lossy(b).into_owned()
}

/// One step of the pump: the next phase and the event to send, if any.
pub open spec fn pump_step(phase: PumpPhase, session_id: u64, outcome: ReadOutcomeView) -> (
    PumpPhase,
    Option<SessionEventView>,
) {
    if phase == PumpPhase::Exited {
        (PumpPhase::Exited, None)
    } else {
        match outcome {
            ReadOutcomeView::Data(b) => if b.len() > 0 {
                (
                    PumpPhase::Running,
                    Some(SessionEventView::Output { session_id, data: lossy_text_of(b) }),
                )
            } else {
                (PumpPhase::Exited, Some(SessionEventView::Exit { session_id }))
            },
            ReadOutcomeView::Failed => (
                PumpPhase::Exited,
                Some(SessionEventView::Exit { session_id }),
            ),
        }
    }
}

/// A pump fed `outcomes` from `phase`: the phase it ends in and the events it sent.
pub open spec fn pump_run(phase: PumpPhase, session_id: u64, outcomes: Seq<ReadOutcomeView>) -> (
    PumpPhase,
    Seq<SessionEventView>,
)
    decreases outcomes.len(),
{
    if outcomes.len() == 0 {
        (phase, Seq::empty())
    } else {
        let (p, evs) = pump_run(phase, session_id, outcomes.drop_last());
        let (q, e) = pump_step(p, session_id, outcomes.last());
        match e {
            Some(ev) => (q, evs.push(ev)),
            None => (q, evs),
        }
    }
}

/// However the reads go, a pump that starts fresh sends only events of its own
/// session, sends an exit event at most once and only as its last event, and
/// has sent it exactly when it has stopped.
pub proof fn lemma_exit_sent_once(session_id: u64, outcomes: Seq<ReadOutcomeView>)
    ensures
        ({
            let (phase, evs) = pump_run(PumpPhase::Created, session_id, outcomes);
            &&& (phase == PumpPhase::Exited) <==> (evs.len() > 0 && evs.last() is Exit)
            &&& forall|i: int| 0 <= i < evs.len() - 1 ==> #[trigger] evs[i] is Output
            &&& forall|i: int|
                0 <= i < evs.len() ==> match #[trigger] evs[i] {
                    SessionEventView::Output { session_id: id, .. } => id == session_id,
                    SessionEventView::Exit { session_id: id } => id == session_id,
                }
        }),
    decreases outcomes.len(),
{
    let (phase, evs) = pump_run(PumpPhase::Created, session_id, outcomes);
    if outcomes.len() > 0 {
        lemma_exit_sent_once(session_id, outcomes.drop_last());
        let (p, prev) = pump_run(PumpPhase::Created, session_id, outcomes.drop_last());
        if p != PumpPhase::Exited {
            assert(prev.len() > 0 ==> prev.last() is Output);
            assert forall|i: int| 0 <= i < prev.len() implies #[trigger] prev[i] is Output by {
                if i < prev.len() - 1 {
                } else {
                    assert(prev[i] == prev.last());
                }
            }
            assert forall|i: int| 0 <= i < evs.len() - 1 implies #[trigger] evs[i] is Output by {
                assert(evs[i] == prev[i]);
            }
        }
    }
}

/// Relays one session's output to its listener, one read at a time.
pub struct OutputPump {
    session_id: u64,
    phase: PumpPhase,
}

impl OutputPump {
    pub closed spec fn spec_session_id(&self) -> u64 {
        self.session_id
    }

    pub closed spec fn spec_phase(&self) -> PumpPhase {
        self.phase
    }

    pub fn new(session_id: u64) -> (r: OutputPump)
        ensures
            r.spec_session_id() == session_id,
            r.spec_phase() == PumpPhase::Created,
    {
        OutputPump { session_id, phase: PumpPhase::Created }
    }

    pub fn phase(&self) -> (r: PumpPhase)
        ensures
            r == self.spec_phase(),
    {
        self.phase
    }

    /// Whether the pump has stopped for good.
    pub fn is_done(&self) -> (r: bool)
        ensures
            r == (self.spec_phase() == PumpPhase::Exited),
    {
        self.phase == PumpPhase::Exited
    }

    /// Takes the outcome of one read: data becomes an output event, the end of
    /// the output or a failed read becomes the one exit event, and after that
    /// nothing is sent.
    pub fn step(&mut self, outcome: ReadOutcome) -> (r: Option<SessionEvent>)
        ensures
            final(self).spec_session_id() == old(self).spec_session_id(),
            (final(self).spec_phase(), opt_event_view(r)) == pump_step(
                old(self).spec_phase(),
                old(self).spec_session_id(),
                outcome@,
            ),
    {
        if self.phase == PumpPhase::Exited {
            return None;
        }
        match outcome {
            ReadOutcome::Data(bytes) => {
                if bytes.len() > 0 {
                    self.phase = PumpPhase::Running;
                    let text = decode_lossy(bytes.as_slice());
                    Some(SessionEvent::Output { session_id: self.session_id, data: text })
                } else {
                    self.phase = PumpPhase::Exited;
                    Some(SessionEvent::Exit { session_id: self.session_id })
                }
            },
            ReadOutcome::Failed => {
                self.phase = PumpPhase::Exited;
                Some(SessionEvent::Exit { session_id: self.session_id })
            },
        }
    }
}

} // verus!
