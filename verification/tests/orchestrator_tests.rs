use psst_cli::command::Command;
use psst_cli::error::SessionError;
use psst_cli::item::{resolve_item, PlaybackItem};
use psst_cli::orchestrator::{Action, Orchestrator, Phase, Reply, Stage};

const TRACK: &str = "6rqhFgbbKwnb9MLmUQDhG6";

fn track_item() -> PlaybackItem {
    resolve_item(TRACK).unwrap()
}

fn started(track_id: &str) -> Orchestrator {
    let (orchestrator, first) = Orchestrator::new(track_id.to_string());
    assert_eq!(first, Action::EstablishSession);
    orchestrator
}

fn advanced(track_id: &str, replies: &[Reply]) -> Orchestrator {
    let mut orchestrator = started(track_id);
    for reply in replies {
        assert!(orchestrator.step(*reply).is_some());
    }
    orchestrator
}

#[test]
fn a_run_begins_by_establishing_the_session() {
    let (orchestrator, first) = Orchestrator::new(TRACK.to_string());
    assert_eq!(first, Action::EstablishSession);
    assert_eq!(orchestrator.stage(), Stage::Establishing);
    assert_eq!(orchestrator.phase(), Phase::Bootstrap);
}

#[test]
fn bootstrap_issues_its_steps_in_order() {
    let it = track_item();
    let mut o = started(TRACK);
    assert_eq!(o.step(Reply::Done), Some(Action::OpenContentSource));
    assert_eq!(o.stage(), Stage::OpeningSource);
    assert_eq!(o.step(Reply::Done), Some(Action::OpenCache));
    assert_eq!(o.stage(), Stage::OpeningCache);
    assert_eq!(o.step(Reply::Done), Some(Action::OpenSink));
    assert_eq!(o.stage(), Stage::OpeningSink(it));
    assert_eq!(o.step(Reply::Done), Some(Action::CreateEngine));
    assert_eq!(o.stage(), Stage::CreatingEngine(it));
    assert_eq!(o.step(Reply::Done), Some(Action::SpawnRenderer));
    assert_eq!(o.stage(), Stage::SpawningRenderer(it));
    assert_eq!(o.step(Reply::Done), Some(Action::Submit(Command::startup(it))));
    assert_eq!(o.stage(), Stage::LoadingQueue(it));
    assert_eq!(o.step(Reply::Done), Some(Action::SpawnIngestion));
    assert_eq!(o.stage(), Stage::SpawningIngestion);
    assert_eq!(o.phase(), Phase::Bootstrap);
    assert_eq!(o.step(Reply::Done), Some(Action::NextEvent));
    assert_eq!(o.stage(), Stage::AwaitingEvent);
    assert_eq!(o.phase(), Phase::Running);
}

#[test]
fn the_startup_queue_holds_the_resolved_item_three_times() {
    let mut o = advanced(TRACK, &[Reply::Done; 5]);
    let it = track_item();
    assert_eq!(
        o.step(Reply::Done),
        Some(Action::Submit(Command::LoadQueue { items: vec![it, it, it], position: 0 }))
    );
}

#[test]
fn each_event_is_handed_to_the_engine() {
    let mut o = advanced(TRACK, &[Reply::Done; 8]);
    for _ in 0..5 {
        assert_eq!(o.step(Reply::Event), Some(Action::HandleEvent));
        assert_eq!(o.stage(), Stage::HandlingEvent);
        assert_eq!(o.phase(), Phase::Running);
        assert_eq!(o.step(Reply::Done), Some(Action::NextEvent));
        assert_eq!(o.stage(), Stage::AwaitingEvent);
        assert_eq!(o.phase(), Phase::Running);
    }
}

#[test]
fn the_end_of_events_starts_teardown() {
    let mut o = advanced(TRACK, &[Reply::Done; 8]);
    assert_eq!(o.step(Reply::EndOfEvents), Some(Action::CloseSink));
    assert_eq!(o.stage(), Stage::Closing);
    assert_eq!(o.phase(), Phase::Draining);
    assert_eq!(o.step(Reply::Done), Some(Action::JoinRenderer));
    assert_eq!(o.stage(), Stage::Joining);
    assert_eq!(o.phase(), Phase::Draining);
    assert_eq!(o.step(Reply::Done), Some(Action::Finish));
    assert_eq!(o.stage(), Stage::Closed);
    assert_eq!(o.phase(), Phase::Closed);
}

#[test]
fn a_failed_session_aborts_with_an_auth_error() {
    let mut o = started(TRACK);
    assert_eq!(o.step(Reply::Failed), Some(Action::Abort(SessionError::Auth)));
    assert_eq!(o.stage(), Stage::Failed(SessionError::Auth));
    assert_eq!(o.phase(), Phase::Aborted);
}

#[test]
fn a_failed_content_source_aborts_with_a_connection_error() {
    let mut o = advanced(TRACK, &[Reply::Done]);
    assert_eq!(o.step(Reply::Failed), Some(Action::Abort(SessionError::Connection)));
    assert_eq!(o.stage(), Stage::Failed(SessionError::Connection));
}

#[test]
fn a_failed_cache_aborts_with_an_io_error() {
    let mut o = advanced(TRACK, &[Reply::Done; 2]);
    assert_eq!(o.step(Reply::Failed), Some(Action::Abort(SessionError::Io)));
    assert_eq!(o.stage(), Stage::Failed(SessionError::Io));
}

#[test]
fn a_failed_cache_comes_before_a_malformed_reference() {
    let mut o = advanced("not an id", &[Reply::Done; 2]);
    assert_eq!(o.step(Reply::Failed), Some(Action::Abort(SessionError::Io)));
}

#[test]
fn a_malformed_reference_aborts_with_a_parse_error() {
    for text in ["not an id", "6rqhFgbbKwnb9MLmUQDhG6!", "7N42dgm5tFLK9N8MT7fHC8", "ö"] {
        let mut o = advanced(text, &[Reply::Done; 2]);
        assert_eq!(o.step(Reply::Done), Some(Action::Abort(SessionError::Parse)), "{:?}", text);
        assert_eq!(o.stage(), Stage::Failed(SessionError::Parse));
        assert_eq!(o.phase(), Phase::Aborted);
    }
}

#[test]
fn a_failed_sink_aborts_with_a_device_error() {
    let mut o = advanced(TRACK, &[Reply::Done; 3]);
    assert_eq!(o.step(Reply::Failed), Some(Action::Abort(SessionError::Device)));
    assert_eq!(o.stage(), Stage::Failed(SessionError::Device));
}

#[test]
fn a_reply_that_does_not_answer_the_action_changes_nothing() {
    let mut o = started(TRACK);
    assert_eq!(o.step(Reply::Event), None);
    assert_eq!(o.step(Reply::EndOfEvents), None);
    assert_eq!(o.stage(), Stage::Establishing);

    let mut o = advanced(TRACK, &[Reply::Done; 4]);
    let before = o.stage();
    for reply in [Reply::Failed, Reply::Event, Reply::EndOfEvents] {
        assert_eq!(o.step(reply), None);
        assert_eq!(o.stage(), before);
    }

    let mut o = advanced(TRACK, &[Reply::Done; 8]);
    for reply in [Reply::Done, Reply::Failed] {
        assert_eq!(o.step(reply), None);
        assert_eq!(o.stage(), Stage::AwaitingEvent);
    }
}

#[test]
fn a_run_that_has_ended_takes_no_reply() {
    let mut closed = advanced(
        TRACK,
        &[
            Reply::Done, Reply::Done, Reply::Done, Reply::Done, Reply::Done, Reply::Done,
            Reply::Done, Reply::Done, Reply::EndOfEvents, Reply::Done, Reply::Done,
        ],
    );
    let mut failed = advanced(TRACK, &[Reply::Failed]);
    for reply in [Reply::Done, Reply::Failed, Reply::Event, Reply::EndOfEvents] {
        assert_eq!(closed.step(reply), None);
        assert_eq!(closed.stage(), Stage::Closed);
        assert_eq!(failed.step(reply), None);
        assert_eq!(failed.stage(), Stage::Failed(SessionError::Auth));
    }
}

#[test]
fn stage_functions_agree_with_the_orchestrator() {
    let it = track_item();
    let stages = [
        Stage::Establishing, Stage::OpeningSource, Stage::OpeningCache, Stage::OpeningSink(it),
        Stage::CreatingEngine(it), Stage::SpawningRenderer(it), Stage::LoadingQueue(it),
        Stage::SpawningIngestion, Stage::AwaitingEvent, Stage::HandlingEvent, Stage::Closing,
        Stage::Joining, Stage::Closed, Stage::Failed(SessionError::Io),
    ];
    let fallible = 4;
    for (i, stage) in stages.iter().enumerate() {
        let ended = matches!(stage, Stage::Closed | Stage::Failed(_));
        let awaiting = *stage == Stage::AwaitingEvent;
        assert_eq!(stage.accepts(Reply::Done), !ended && !awaiting);
        assert_eq!(stage.accepts(Reply::Failed), i < fallible);
        assert_eq!(stage.accepts(Reply::Event), awaiting);
        assert_eq!(stage.accepts(Reply::EndOfEvents), awaiting);
    }
    assert_eq!(Stage::LoadingQueue(it).action(), Action::Submit(Command::startup(it)));
    assert_eq!(Stage::Closing.action(), Action::CloseSink);
    assert_eq!(Stage::Closed.action(), Action::Finish);
    assert_eq!(Stage::Failed(SessionError::Device).action(), Action::Abort(SessionError::Device));
    assert_eq!(Stage::SpawningIngestion.phase(), Phase::Bootstrap);
    assert_eq!(Stage::HandlingEvent.phase(), Phase::Running);
    assert_eq!(Stage::Joining.phase(), Phase::Draining);
}
