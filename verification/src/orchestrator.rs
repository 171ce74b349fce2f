//! The decisions of the session orchestrator.
//!
//! A playback run alternates work on the outside world (opening handles,
//! spawning actors, taking events) with decisions about what to do next. The
//! orchestrator makes the decisions: it issues one [`Action`] at a time, and
//! the driver that performs the action answers with a [`Reply`]. The
//! orchestrator never touches a device, a thread or a channel itself.

use crate::command::{startup_queue, Command, CommandView};
use crate::error::SessionError;
use crate::item::{resolution, resolve_item, NormalizationLevel, PlaybackItem};
use vstd::prelude::*;

verus! {

/// One piece of work that the orchestrator asks its driver to perform.
#[derive(Clone, Debug, PartialEq, Eq)]
pub enum Action {
    /// Produce a session handle from the credentials.
    EstablishSession,
    /// Open the content source on the session.
    OpenContentSource,
    /// Open the local cache.
    OpenCache,
    /// Open the audio output device.
    OpenSink,
    /// Create the playback engine.
    CreateEngine,
    /// Start the audio rendering actor.
    SpawnRenderer,
    /// Submit a command to the engine.
    Submit(Command),
    /// Start the command ingestion actor.
    SpawnIngestion,
    /// Wait for the next event of the engine.
    NextEvent,
    /// Hand the event just taken to the engine.
    HandleEvent,
    /// Ask the audio sink to close.
    CloseSink,
    /// Wait for the audio rendering actor to finish.
    JoinRenderer,
    /// End the run in success.
    Finish,
    /// End the run with this error.
    Abort(SessionError),
}

/// The mathematical value of an [`Action`].
pub enum ActionView {
    EstablishSession,
    OpenContentSource,
    OpenCache,
    OpenSink,
    CreateEngine,
    SpawnRenderer,
    Submit(CommandView),
    SpawnIngestion,
    NextEvent,
    HandleEvent,
    CloseSink,
    JoinRenderer,
    Finish,
    Abort(SessionError),
}

impl View for Action {
    type V = ActionView;

    open spec fn view(&self) -> ActionView {
        match *self {
            Action::EstablishSession => ActionView::EstablishSession,
            Action::OpenContentSource => ActionView::OpenContentSource,
            Action::OpenCache => ActionView::OpenCache,
            Action::OpenSink => ActionView::OpenSink,
            Action::CreateEngine => ActionView::CreateEngine,
            Action::SpawnRenderer => ActionView::SpawnRenderer,
            Action::Submit(command) => ActionView::Submit(command@),
            Action::SpawnIngestion => ActionView::SpawnIngestion,
            Action::NextEvent => ActionView::NextEvent,
            Action::HandleEvent => ActionView::HandleEvent,
            Action::CloseSink => ActionView::CloseSink,
            Action::JoinRenderer => ActionView::JoinRenderer,
            Action::Finish => ActionView::Finish,
            Action::Abort(e) => ActionView::Abort(e),
        }
    }
}

/// The driver's answer to the action it was asked to perform.
#[derive(Clone, Copy, Debug, PartialEq, Eq, Structural)]
pub enum Reply {
    /// The action was performed.
    Done,
    /// The action could not be performed.
    Failed,
    /// An event was taken from the engine.
    Event,
    /// The engine has closed its sequence of events.
    EndOfEvents,
}

/// Where a run stands: which action is under way.
#[derive(Clone, Copy, Debug, PartialEq, Eq, Structural)]
pub enum Stage {
    /// The session is being established.
    Establishing,
    /// The content source is being opened.
    OpeningSource,
    /// The cache is being opened.
    OpeningCache,
    /// The item is resolved; the audio sink is being opened.
    OpeningSink(PlaybackItem),
    /// The engine is being created.
    CreatingEngine(PlaybackItem),
    /// The rendering actor is being started.
    SpawningRenderer(PlaybackItem),
    /// The startup queue is being submitted.
    LoadingQueue(PlaybackItem),
    /// The ingestion actor is being started.
    SpawningIngestion,
    /// All actors run; the next event is awaited.
    AwaitingEvent,
    /// All actors run; the engine handles an event.
    HandlingEvent,
    /// The events have ended; the sink is being asked to close.
    Closing,
    /// The sink was asked to close; the rendering actor is being joined.
    Joining,
    /// The run has ended in success.
    Closed,
    /// The run was aborted by a bootstrap failure.
    Failed(SessionError),
}

/// The coarse state of a run.
#[derive(Clone, Copy, Debug, PartialEq, Eq, Structural)]
pub enum Phase {
    /// Handles are being opened and actors started.
    Bootstrap,
    /// The rendering actor, the ingestion actor and the event loop are active.
    Running,
    /// The events have ended and the rendering actor is being stopped.
    Draining,
    /// The run has ended in success.
    Closed,
    /// The run was aborted before it was running.
    Aborted,
}

/// The action that is issued when a run enters `stage`.
pub open spec fn action_of(stage: Stage) -> ActionView {
    match stage {
        Stage::Establishing => ActionView::EstablishSession,
        Stage::OpeningSource => ActionView::OpenContentSource,
        Stage::OpeningCache => ActionView::OpenCache,
        Stage::OpeningSink(_) => ActionView::OpenSink,
        Stage::CreatingEngine(_) => ActionView::CreateEngine,
        Stage::SpawningRenderer(_) => ActionView::SpawnRenderer,
        Stage::LoadingQueue(item) => ActionView::Submit(startup_queue(item)),
        Stage::SpawningIngestion => ActionView::SpawnIngestion,
        Stage::AwaitingEvent => ActionView::NextEvent,
        Stage::HandlingEvent => ActionView::HandleEvent,
        Stage::Closing => ActionView::CloseSink,
        Stage::Joining => ActionView::JoinRenderer,
        Stage::Closed => ActionView::Finish,
        Stage::Failed(e) => ActionView::Abort(e),
    }
}

/// The coarse state that `stage` belongs to.
pub open spec fn phase_of(stage: Stage) -> Phase {
    match stage {
        Stage::AwaitingEvent | Stage::HandlingEvent => Phase::Running,
        Stage::Closing | Stage::Joining => Phase::Draining,
        Stage::Closed => Phase::Closed,
        Stage::Failed(_) => Phase::Aborted,
        _ => Phase::Bootstrap,
    }
}

/// `reply` answers the action that is under way in `stage`. The four steps
/// that open a handle can fail; waiting for an event ends in an event or in
/// the end of events; every other action can only be done. A run that has
/// ended takes no reply.
pub open spec fn accepts(stage: Stage, reply: Reply) -> bool {
    match stage {
        Stage::Establishing | Stage::OpeningSource | Stage::OpeningCache | Stage::OpeningSink(_) => {
            reply is Done || reply is Failed
        },
        Stage::AwaitingEvent => reply is Event || reply is EndOfEvents,
        Stage::Closed | Stage::Failed(_) => false,
        _ => reply is Done,
    }
}

/// The stage that follows `stage` when the driver answers `reply`, in a run
/// for the track reference `track_id`. A reply that `stage` does not accept
/// changes nothing.
pub open spec fn next_stage(track_id: Seq<char>, stage: Stage, reply: Reply) -> Stage {
    if !accepts(stage, reply) {
        stage
    } else {
        match stage {
            Stage::Establishing => if reply is Done {
                Stage::OpeningSource
            } else {
                Stage::Failed(SessionError::Auth)
            },
            Stage::OpeningSource => if reply is Done {
                Stage::OpeningCache
            } else {
                Stage::Failed(SessionError::Connection)
            },
            Stage::OpeningCache => if reply is Done {
                match resolution(track_id, NormalizationLevel::Track) {
                    Ok(item) => Stage::OpeningSink(item),
                    Err(e) => Stage::Failed(e),
                }
            } else {
                Stage::Failed(SessionError::Io)
            },
            Stage::OpeningSink(item) => if reply is Done {
                Stage::CreatingEngine(item)
            } else {
                Stage::Failed(SessionError::Device)
            },
            Stage::CreatingEngine(item) => Stage::SpawningRenderer(item),
            Stage::SpawningRenderer(item) => Stage::LoadingQueue(item),
            Stage::LoadingQueue(_) => Stage::SpawningIngestion,
            Stage::SpawningIngestion => Stage::AwaitingEvent,
            Stage::AwaitingEvent => if reply is Event {
                Stage::HandlingEvent
            } else {
                Stage::Closing
            },
            Stage::HandlingEvent => Stage::AwaitingEvent,
            Stage::Closing => Stage::Joining,
            Stage::Joining => Stage::Closed,
            Stage::Closed | Stage::Failed(_) => stage,
        }
    }
}

impl Stage {
    /// The action that is issued when a run enters this stage.
    pub fn action(self) -> (action: Action)
        ensures
            action@ == action_of(self),
    {
        match self {
            Stage::Establishing => Action::EstablishSession,
            Stage::OpeningSource => Action::OpenContentSource,
            Stage::OpeningCache => Action::OpenCache,
            Stage::OpeningSink(_) => Action::OpenSink,
            Stage::CreatingEngine(_) => Action::CreateEngine,
            Stage::SpawningRenderer(_) => Action::SpawnRenderer,
            Stage::LoadingQueue(item) => Action::Submit(Command::startup(item)),
            Stage::SpawningIngestion => Action::SpawnIngestion,
            Stage::AwaitingEvent => Action::NextEvent,
            Stage::HandlingEvent => Action::HandleEvent,
            Stage::Closing => Action::CloseSink,
            Stage::Joining => Action::JoinRenderer,
            Stage::Closed => Action::Finish,
            Stage::Failed(e) => Action::Abort(e),
        }
    }

    /// The coarse state that this stage belongs to.
    pub fn phase(self) -> (phase: Phase)
        ensures
            phase == phase_of(self),
    {
        match self {
            Stage::AwaitingEvent | Stage::HandlingEvent => Phase::Running,
            Stage::Closing | Stage::Joining => Phase::Draining,
            Stage::Closed => Phase::Closed,
            Stage::Failed(_) => Phase::Aborted,
            _ => Phase::Bootstrap,
        }
    }

    /// Whether `reply` answers the action that is under way in this stage.
    pub fn accepts(self, reply: Reply) -> (accepted: bool)
        ensures
            accepted == accepts(self, reply),
    {
        match self {
            Stage::Establishing | Stage::OpeningSource | Stage::OpeningCache | Stage::OpeningSink(
                _,
            ) => {
                match reply {
                    Reply::Done | Reply::Failed => true,
                    _ => false,
                }
            },
            Stage::AwaitingEvent => {
                match reply {
                    Reply::Event | Reply::EndOfEvents => true,
                    _ => false,
                }
            },
            Stage::Closed | Stage::Failed(_) => false,
            _ => {
                match reply {
                    Reply::Done => true,
                    _ => false,
                }
            },
        }
    }
}

/// The mathematical value of an [`Orchestrator`].
pub struct OrchestratorView {
    /// The track reference that the run was started for.
    pub track_id: Seq<char>,
    /// Where the run stands.
    pub stage: Stage,
}

/// The orchestrator of one playback run.
pub struct Orchestrator {
    track_id: String,
    stage: Stage,
}

impl View for Orchestrator {
    type V = OrchestratorView;

    closed spec fn view(&self) -> OrchestratorView {
        OrchestratorView { track_id: self.track_id@, stage: self.stage }
    }
}

impl Orchestrator {
    /// Starts a run for the track reference `track_id`. The run begins by
    /// establishing the session: that is the first action to perform.
    pub fn new(track_id: String) -> (r: (Orchestrator, Action))
        ensures
            r.0@.track_id == track_id@,
            r.0@.stage == Stage::Establishing,
            r.1@ == ActionView::EstablishSession,
    {
        (Orchestrator { track_id, stage: Stage::Establishing }, Action::EstablishSession)
    }

    /// Where the run stands.
    pub fn stage(&self) -> (stage: Stage)
        ensures
            stage == self@.stage,
    {
        self.stage
    }

    /// The coarse state of the run.
    pub fn phase(&self) -> (phase: Phase)
        ensures
            phase == phase_of(self@.stage),
    {
        self.stage.phase()
    }

    /// Takes the driver's answer to the action under way and decides what to
    /// do next. Where `reply` answers that action, the run moves to the next
    /// stage and the result is the action to perform now. Where it does not,
    /// nothing changes and the result is `None`.
    ///
    /// The track reference is resolved when the cache has been opened, before
    /// anything is built for playback; a reference that cannot be resolved
    /// aborts the run there.
    pub fn step(&mut self, reply: Reply) -> (r: Option<Action>)
        ensures
            final(self)@.track_id == old(self)@.track_id,
            final(self)@.stage == next_stage(old(self)@.track_id, old(self)@.stage, reply),
            match r {
                Some(action) => accepts(old(self)@.stage, reply) && action@ == action_of(
                    final(self)@.stage,
                ),
                None => !accepts(old(self)@.stage, reply),
            },
    {
        if !self.stage.accepts(reply) {
            return None;
        }
        let done = match reply {
            Reply::Done => true,
            _ => false,
        };
        let next = match self.stage {
            Stage::Establishing => if done {
                Stage::OpeningSource
            } else {
                Stage::Failed(SessionError::Auth)
            },
            Stage::OpeningSource => if done {
                Stage::OpeningCache
            } else {
                Stage::Failed(SessionError::Connection)
            },
            Stage::OpeningCache => if done {
                match resolve_item(self.track_id.as_str()) {
                    Ok(item) => Stage::OpeningSink(item),
                    Err(e) => Stage::Failed(e),
                }
            } else {
                Stage::Failed(SessionError::Io)
            },
            Stage::OpeningSink(item) => if done {
                Stage::CreatingEngine(item)
            } else {
                Stage::Failed(SessionError::Device)
            },
            Stage::CreatingEngine(item) => Stage::SpawningRenderer(item),
            Stage::SpawningRenderer(item) => Stage::LoadingQueue(item),
            Stage::LoadingQueue(_) => Stage::SpawningIngestion,
            Stage::SpawningIngestion => Stage::AwaitingEvent,
            Stage::AwaitingEvent => match reply {
                Reply::Event => Stage::HandlingEvent,
                _ => Stage::Closing,
            },
            Stage::HandlingEvent => Stage::AwaitingEvent,
            Stage::Closing => Stage::Joining,
            Stage::Joining => Stage::Closed,
            Stage::Closed => Stage::Closed,
            Stage::Failed(e) => Stage::Failed(e),
        };
        self.stage = next;
        Some(next.action())
    }
}

} // verus!
