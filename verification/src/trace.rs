//! Whole runs of the orchestrator, and what holds of every one of them.
//!
//! A run is told by the replies that the driver has given so far. From them
//! follow the stages that the run has entered and the actions that the
//! orchestrator has issued, one on entering each stage.

use crate::command::startup_queue;
use crate::error::SessionError;
use crate::item::{encodes_id, resolution, NormalizationLevel};
use crate::orchestrator::{
    accepts, action_of, next_stage, phase_of, Action, ActionView, Orchestrator, Reply, Stage,
};
use vstd::prelude::*;

verus! {

/// The stages that a run for `track_id` has entered, first to last, once the
/// driver has given `replies`. A reply that the stage of its moment does not
/// accept enters no stage.
pub open spec fn stages(track_id: Seq<char>, replies: Seq<Reply>) -> Seq<Stage>
    decreases replies.len(),
{
    if replies.len() == 0 {
        seq![Stage::Establishing]
    } else {
        let before = stages(track_id, replies.drop_last());
        if accepts(before.last(), replies.last()) {
            before.push(next_stage(track_id, before.last(), replies.last()))
        } else {
            before
        }
    }
}

/// The stage in which a run for `track_id` stands after `replies`.
pub open spec fn stage_after(track_id: Seq<char>, replies: Seq<Reply>) -> Stage {
    stages(track_id, replies).last()
}

/// The actions that the orchestrator has issued in a run for `track_id`,
/// first to last, once the driver has given `replies`.
pub open spec fn issued(track_id: Seq<char>, replies: Seq<Reply>) -> Seq<ActionView> {
    stages(track_id, replies).map_values(|stage: Stage| action_of(stage))
}

/// How many times `action` stands in `actions`.
pub open spec fn occurrences(actions: Seq<ActionView>, action: ActionView) -> nat
    decreases actions.len(),
{
    if actions.len() == 0 {
        0
    } else {
        occurrences(actions.drop_last(), action) + if actions.last() == action {
            1nat
        } else {
            0nat
        }
    }
}

/// The values of a list of actions.
pub open spec fn action_views(actions: Seq<Action>) -> Seq<ActionView> {
    actions.map_values(|action: Action| action@)
}

/// `action` builds something for playback: the sink, the engine, or an actor.
pub open spec fn builds(action: ActionView) -> bool {
    action is OpenSink || action is CreateEngine || action is SpawnRenderer
        || action is SpawnIngestion
}

/// How far a stage lies along a run. Only the two stages of the event loop
/// share a place.
spec fn rank(stage: Stage) -> nat {
    match stage {
        Stage::Establishing => 0,
        Stage::OpeningSource => 1,
        Stage::OpeningCache => 2,
        Stage::OpeningSink(_) => 3,
        Stage::CreatingEngine(_) => 4,
        Stage::SpawningRenderer(_) => 5,
        Stage::LoadingQueue(_) => 6,
        Stage::SpawningIngestion => 7,
        Stage::AwaitingEvent | Stage::HandlingEvent => 8,
        Stage::Closing => 9,
        Stage::Joining => 10,
        Stage::Closed => 11,
        Stage::Failed(_) => 12,
    }
}

/// Some reply that `from` accepts leads to `to`.
spec fn linked(track_id: Seq<char>, from: Stage, to: Stage) -> bool {
    ||| accepts(from, Reply::Done) && to == next_stage(track_id, from, Reply::Done)
    ||| accepts(from, Reply::Failed) && to == next_stage(track_id, from, Reply::Failed)
    ||| accepts(from, Reply::Event) && to == next_stage(track_id, from, Reply::Event)
    ||| accepts(from, Reply::EndOfEvents) && to == next_stage(track_id, from, Reply::EndOfEvents)
}

/// A stage past the resolution of the track reference exists only where the
/// reference resolves, and carries the item that it resolves to.
spec fn resolved_in(track_id: Seq<char>, stage: Stage) -> bool {
    let resolved = resolution(track_id, NormalizationLevel::Track);
    match stage {
        Stage::OpeningSink(item) | Stage::CreatingEngine(item) | Stage::SpawningRenderer(item)
        | Stage::LoadingQueue(item) => resolved == Ok::<_, SessionError>(item),
        Stage::Failed(e) => e == SessionError::Device ==> resolved is Ok,
        Stage::Establishing | Stage::OpeningSource | Stage::OpeningCache => true,
        _ => resolved is Ok,
    }
}

/// What holds of the stages of every run.
spec fn well_ordered(track_id: Seq<char>, s: Seq<Stage>) -> bool {
    &&& s.len() >= 1
    &&& s[0] == Stage::Establishing
    &&& forall|j: int| 1 <= j < s.len() ==> linked(track_id, s[j - 1], #[trigger] s[j])
    &&& forall|i: int, j: int|
        0 <= i < j < s.len() ==> rank(#[trigger] s[i]) <= rank(#[trigger] s[j]) && (rank(s[i])
            == rank(s[j]) ==> rank(s[i]) == 8)
    &&& forall|j: int| 0 <= j < s.len() ==> resolved_in(track_id, #[trigger] s[j])
}

/// One more reply extends a run by the stage that it leads to, where the
/// stage of the moment accepts it, and changes nothing where it does not.
pub proof fn law_reply_extends_run(track_id: Seq<char>, replies: Seq<Reply>, reply: Reply)
    ensures
        accepts(stage_after(track_id, replies), reply) ==> {
            let to = next_stage(track_id, stage_after(track_id, replies), reply);
            &&& stages(track_id, replies.push(reply)) == stages(track_id, replies).push(to)
            &&& issued(track_id, replies.push(reply)) == issued(track_id, replies).push(
                action_of(to),
            )
            &&& stage_after(track_id, replies.push(reply)) == to
        },
        !accepts(stage_after(track_id, replies), reply) ==> {
            &&& stages(track_id, replies.push(reply)) == stages(track_id, replies)
            &&& issued(track_id, replies.push(reply)) == issued(track_id, replies)
        },
{
    assert(replies.push(reply).drop_last() =~= replies);
    if accepts(stage_after(track_id, replies), reply) {
        let to = next_stage(track_id, stage_after(track_id, replies), reply);
        assert(issued(track_id, replies.push(reply)) =~= issued(track_id, replies).push(
            action_of(to),
        ));
    }
}

proof fn lemma_stages_well_ordered(track_id: Seq<char>, replies: Seq<Reply>)
    ensures
        well_ordered(track_id, stages(track_id, replies)),
    decreases replies.len(),
{
    if replies.len() > 0 {
        lemma_stages_well_ordered(track_id, replies.drop_last());
        let before = stages(track_id, replies.drop_last());
        let reply = replies.last();
        if accepts(before.last(), reply) {
            let to = next_stage(track_id, before.last(), reply);
            let s = before.push(to);
            assert(linked(track_id, before.last(), to));
            assert(resolved_in(track_id, before.last()));
            assert forall|j: int| 1 <= j < s.len() implies linked(
                track_id,
                s[j - 1],
                #[trigger] s[j],
            ) by {
                if j < before.len() {
                    assert(s[j] == before[j]);
                }
            }
            assert forall|i: int, j: int| 0 <= i < j < s.len() implies rank(#[trigger] s[i])
                <= rank(#[trigger] s[j]) && (rank(s[i]) == rank(s[j]) ==> rank(s[i]) == 8) by {
                if j < before.len() {
                    assert(s[i] == before[i] && s[j] == before[j]);
                } else if i < before.len() - 1 {
                    assert(s[i] == before[i]);
                    assert(rank(before[i]) <= rank(before[before.len() - 1]));
                }
            }
            assert forall|j: int| 0 <= j < s.len() implies resolved_in(track_id, #[trigger] s[j]) by {
                if j < before.len() {
                    assert(s[j] == before[j]);
                }
            }
        }
    }
}

/// An action that stands at one place only occurs once.
proof fn lemma_occurs_once(actions: Seq<ActionView>, action: ActionView, at: int)
    requires
        0 <= at < actions.len(),
        forall|j: int| 0 <= j < actions.len() ==> (#[trigger] actions[j] == action <==> j == at),
    ensures
        occurrences(actions, action) == 1,
    decreases actions.len(),
{
    let rest = actions.drop_last();
    if at == actions.len() - 1 {
        assert forall|j: int| 0 <= j < rest.len() implies #[trigger] rest[j] != action by {
            assert(rest[j] == actions[j]);
        }
        lemma_occurs_never(rest, action);
    } else {
        assert forall|j: int| 0 <= j < rest.len() implies (#[trigger] rest[j] == action <==> j
            == at) by {
            assert(rest[j] == actions[j]);
        }
        lemma_occurs_once(rest, action, at);
    }
}

/// An action that stands at no place does not occur.
proof fn lemma_occurs_never(actions: Seq<ActionView>, action: ActionView)
    requires
        forall|j: int| 0 <= j < actions.len() ==> #[trigger] actions[j] != action,
    ensures
        occurrences(actions, action) == 0,
    decreases actions.len(),
{
    if actions.len() > 0 {
        let rest = actions.drop_last();
        assert forall|j: int| 0 <= j < rest.len() implies #[trigger] rest[j] != action by {
            assert(rest[j] == actions[j]);
        }
        lemma_occurs_never(rest, action);
    }
}

/// A track reference that is no identifier aborts the run with a parse error
/// as soon as the cache is open, and in no run for it is the sink opened, the
/// engine created, an actor started or a command submitted.
pub proof fn law_malformed_reference_builds_nothing(track_id: Seq<char>, replies: Seq<Reply>)
    requires
        !encodes_id(track_id),
    ensures
        next_stage(track_id, Stage::OpeningCache, Reply::Done) == Stage::Failed(
            SessionError::Parse,
        ),
        forall|i: int|
            0 <= i < issued(track_id, replies).len() ==> {
                let action = #[trigger] issued(track_id, replies)[i];
                !builds(action) && !(action is Submit)
            },
        phase_of(stage_after(track_id, replies)) is Bootstrap || phase_of(
            stage_after(track_id, replies),
        ) is Aborted,
        stage_after(track_id, replies) != Stage::Failed(SessionError::Device),
{
    lemma_stages_well_ordered(track_id, replies);
    let s = stages(track_id, replies);
    assert(resolved_in(track_id, s.last()));
    assert forall|i: int| 0 <= i < issued(track_id, replies).len() implies {
        let action = #[trigger] issued(track_id, replies)[i];
        !builds(action) && !(action is Submit)
    } by {
        assert(resolved_in(track_id, s[i]));
    }
}

/// Startup ordering: whenever the ingestion actor is started, the action
/// issued just before was the submission of the startup queue, which holds
/// the item that the track reference resolves to, three times, playing from
/// the first. No other command is ever submitted by the orchestrator.
pub proof fn law_queue_loaded_before_ingestion(track_id: Seq<char>, replies: Seq<Reply>, at: int)
    requires
        0 <= at < issued(track_id, replies).len(),
        issued(track_id, replies)[at] is SpawnIngestion,
    ensures
        at >= 1,
        resolution(track_id, NormalizationLevel::Track) matches Ok(item) && issued(
            track_id,
            replies,
        )[at - 1] == ActionView::Submit(startup_queue(item)),
        forall|i: int|
            0 <= i < issued(track_id, replies).len() && (#[trigger] issued(
                track_id,
                replies,
            )[i]) is Submit ==> i == at - 1,
{
    lemma_stages_well_ordered(track_id, replies);
    let s = stages(track_id, replies);
    assert(s[at] == Stage::SpawningIngestion);
    assert(linked(track_id, s[at - 1], s[at]));
    assert(resolved_in(track_id, s[at - 1]));
    assert forall|i: int|
        0 <= i < issued(track_id, replies).len() && (#[trigger] issued(
            track_id,
            replies,
        )[i]) is Submit implies i == at - 1 by {
        assert(rank(s[i]) == 6);
        if i < at - 1 {
            assert(rank(s[i]) <= rank(s[at - 1]) && (rank(s[i]) == rank(s[at - 1]) ==> rank(s[i])
                == 8));
        } else if i > at - 1 {
            assert(rank(s[at - 1]) <= rank(s[i]) && (rank(s[at - 1]) == rank(s[i]) ==> rank(s[i])
                == 8));
        }
    }
}

/// Teardown: in every run the sink is asked to close at most once and the
/// rendering actor is joined at most once. The sink has been asked to close
/// exactly once as soon as the events have ended, and the rendering actor has
/// been joined exactly once as soon as the close was done. A run that has
/// ended in success started the rendering actor once, asked the sink to close
/// once after that, and joined the actor once after that.
pub proof fn law_sink_closed_once(track_id: Seq<char>, replies: Seq<Reply>)
    ensures
        occurrences(issued(track_id, replies), ActionView::CloseSink) == if stage_after(
            track_id,
            replies,
        ) is Closing || stage_after(track_id, replies) is Joining || stage_after(track_id, replies)
            is Closed {
            1nat
        } else {
            0nat
        },
        occurrences(issued(track_id, replies), ActionView::JoinRenderer) == if stage_after(
            track_id,
            replies,
        ) is Joining || stage_after(track_id, replies) is Closed {
            1nat
        } else {
            0nat
        },
        occurrences(issued(track_id, replies), ActionView::Finish) == if stage_after(
            track_id,
            replies,
        ) is Closed {
            1nat
        } else {
            0nat
        },
        stage_after(track_id, replies) is Closed ==> {
            let actions = issued(track_id, replies);
            let n = actions.len();
            &&& n >= 4
            &&& actions[n - 3] == ActionView::CloseSink
            &&& actions[n - 2] == ActionView::JoinRenderer
            &&& actions[n - 1] == ActionView::Finish
            &&& occurrences(actions, ActionView::SpawnRenderer) == 1
            &&& exists|i: int| 0 <= i < n - 3 && actions[i] == ActionView::SpawnRenderer
        },
{
    lemma_stages_well_ordered(track_id, replies);
    let s = stages(track_id, replies);
    let actions = issued(track_id, replies);
    let n = s.len() as int;
    lemma_count_by_rank(track_id, replies, ActionView::CloseSink, 9);
    lemma_count_by_rank(track_id, replies, ActionView::JoinRenderer, 10);
    lemma_count_by_rank(track_id, replies, ActionView::Finish, 11);
    lemma_count_by_rank(track_id, replies, ActionView::SpawnRenderer, 5);
    if s.last() is Closed {
        assert(linked(track_id, s[n - 2], s[n - 1]));
        assert(linked(track_id, s[n - 3], s[n - 2]));
        assert(linked(track_id, s[n - 4], s[n - 3]));
        lemma_rank_entered(track_id, replies, 5);
        let i = choose|i: int| 0 <= i < n && rank(#[trigger] s[i]) == 5;
        assert(rank(s[i]) <= rank(s[n - 3]) || i > n - 3);
        assert(actions[i] == ActionView::SpawnRenderer);
    }
}

/// A run that stands at some place has entered every place before it, unless
/// it was aborted.
proof fn lemma_rank_entered(track_id: Seq<char>, replies: Seq<Reply>, k: nat)
    requires
        !(stage_after(track_id, replies) is Failed),
        k <= rank(stage_after(track_id, replies)),
    ensures
        exists|i: int|
            0 <= i < stages(track_id, replies).len() && rank(
                #[trigger] stages(track_id, replies)[i],
            ) == k,
    decreases replies.len(),
{
    let s = stages(track_id, replies);
    lemma_stages_well_ordered(track_id, replies);
    if rank(s.last()) == k {
        assert(rank(s[s.len() - 1]) == k);
    } else {
        assert(replies.len() > 0);
        let before = stages(track_id, replies.drop_last());
        lemma_stages_well_ordered(track_id, replies.drop_last());
        if accepts(before.last(), replies.last()) {
            assert(linked(track_id, before.last(), s.last()));
            lemma_rank_entered(track_id, replies.drop_last(), k);
            let i = choose|i: int| 0 <= i < before.len() && rank(#[trigger] before[i]) == k;
            assert(s[i] == before[i]);
        } else {
            lemma_rank_entered(track_id, replies.drop_last(), k);
        }
    }
}

/// An action that is issued on entering the one stage at place `k` has been
/// issued once where the run has come that far without being aborted, and
/// never otherwise.
proof fn lemma_count_by_rank(track_id: Seq<char>, replies: Seq<Reply>, action: ActionView, k: nat)
    requires
        4 <= k <= 11,
        k != 8,
        forall|stage: Stage| #[trigger] action_of(stage) == action <==> rank(stage) == k,
    ensures
        occurrences(issued(track_id, replies), action) == if k <= rank(
            stage_after(track_id, replies),
        ) <= 11 {
            1nat
        } else {
            0nat
        },
{
    lemma_stages_well_ordered(track_id, replies);
    let s = stages(track_id, replies);
    let actions = issued(track_id, replies);
    if k <= rank(s.last()) <= 11 {
        lemma_rank_entered(track_id, replies, k);
        let at = choose|i: int| 0 <= i < s.len() && rank(#[trigger] s[i]) == k;
        assert forall|j: int| 0 <= j < actions.len() implies (#[trigger] actions[j] == action <==> j
            == at) by {
            assert(actions[j] == action_of(s[j]));
            if j < at {
                assert(rank(s[j]) <= rank(s[at]) && (rank(s[j]) == rank(s[at]) ==> rank(s[j])
                    == 8));
            } else if at < j {
                assert(rank(s[at]) <= rank(s[j]) && (rank(s[at]) == rank(s[j]) ==> rank(s[j])
                    == 8));
            }
        }
        lemma_occurs_once(actions, action, at);
    } else {
        assert forall|j: int| 0 <= j < actions.len() implies #[trigger] actions[j] != action by {
            assert(actions[j] == action_of(s[j]));
            if j < s.len() - 1 {
                assert(rank(s[j]) <= rank(s[s.len() - 1]));
                if s.last() is Failed {
                    assert(linked(track_id, s[s.len() - 2], s[s.len() - 1]));
                    assert(rank(s[j]) <= rank(s[s.len() - 2]) || j == s.len() - 2);
                }
            }
        }
        lemma_occurs_never(actions, action);
    }
}

/// The actors of a run are started at most once each. While the run is
/// running, draining or closed, the engine has been created once and the
/// rendering actor and the ingestion actor have been started once each;
/// before that, and in a run that was aborted, the ingestion actor has not
/// been started.
pub proof fn law_actors_started_once(track_id: Seq<char>, replies: Seq<Reply>)
    ensures
        occurrences(issued(track_id, replies), ActionView::CreateEngine) <= 1,
        occurrences(issued(track_id, replies), ActionView::SpawnRenderer) <= 1,
        occurrences(issued(track_id, replies), ActionView::SpawnIngestion) <= 1,
        occurrences(issued(track_id, replies), ActionView::SpawnIngestion) == if phase_of(
            stage_after(track_id, replies),
        ) is Bootstrap && !(stage_after(track_id, replies) is SpawningIngestion) || phase_of(
            stage_after(track_id, replies),
        ) is Aborted {
            0nat
        } else {
            1nat
        },
        !(phase_of(stage_after(track_id, replies)) is Bootstrap) && !(phase_of(
            stage_after(track_id, replies),
        ) is Aborted) ==> {
            &&& occurrences(issued(track_id, replies), ActionView::CreateEngine) == 1
            &&& occurrences(issued(track_id, replies), ActionView::SpawnRenderer) == 1
        },
{
    lemma_count_by_rank(track_id, replies, ActionView::CreateEngine, 4);
    lemma_count_by_rank(track_id, replies, ActionView::SpawnRenderer, 5);
    lemma_count_by_rank(track_id, replies, ActionView::SpawnIngestion, 7);
}

/// A bootstrap failure aborts the run at once, before anything runs: the
/// action issued last is the abort, with the error of the step that failed,
/// and the action before it is that step. The engine was not created, no
/// actor was started and no command was submitted. A failure to open the sink
/// is the only one that comes after the sink was asked for.
pub proof fn law_failure_aborts_before_actors(
    track_id: Seq<char>,
    replies: Seq<Reply>,
    e: SessionError,
)
    requires
        stage_after(track_id, replies) == Stage::Failed(e),
    ensures
        issued(track_id, replies).len() >= 2,
        issued(track_id, replies).last() == ActionView::Abort(e),
        issued(track_id, replies)[issued(track_id, replies).len() - 2] == match e {
            SessionError::Auth => ActionView::EstablishSession,
            SessionError::Connection => ActionView::OpenContentSource,
            SessionError::Io => ActionView::OpenCache,
            SessionError::Parse => ActionView::OpenCache,
            SessionError::Device => ActionView::OpenSink,
        },
        e == SessionError::Parse ==> !encodes_id(track_id),
        forall|i: int|
            0 <= i < issued(track_id, replies).len() - 1 ==> {
                let action = #[trigger] issued(track_id, replies)[i];
                ||| action is EstablishSession
                ||| action is OpenContentSource
                ||| action is OpenCache
                ||| action is OpenSink && e == SessionError::Device
            },
{
    lemma_stages_well_ordered(track_id, replies);
    let s = stages(track_id, replies);
    let n = s.len() as int;
    assert(linked(track_id, s[n - 2], s[n - 1]));
    assert forall|i: int| 0 <= i < issued(track_id, replies).len() - 1 implies {
        let action = #[trigger] issued(track_id, replies)[i];
        ||| action is EstablishSession
        ||| action is OpenContentSource
        ||| action is OpenCache
        ||| action is OpenSink && e == SessionError::Device
    } by {
        if i < n - 2 {
            assert(rank(s[i]) <= rank(s[n - 2]) && (rank(s[i]) == rank(s[n - 2]) ==> rank(s[i])
                == 8));
        }
    }
}

/// Teardown completes: once the events of a running session end, the
/// orchestrator asks the sink to close, then joins the rendering actor, then
/// finishes in success, whatever number of events came before.
pub proof fn law_teardown_completes(track_id: Seq<char>, replies: Seq<Reply>)
    requires
        stage_after(track_id, replies) == Stage::AwaitingEvent,
    ensures
        stage_after(track_id, replies.push(Reply::EndOfEvents)) == Stage::Closing,
        phase_of(stage_after(track_id, replies.push(Reply::EndOfEvents))) is Draining,
        stage_after(track_id, replies + seq![Reply::EndOfEvents, Reply::Done, Reply::Done])
            == Stage::Closed,
        issued(track_id, replies + seq![Reply::EndOfEvents, Reply::Done, Reply::Done]) == issued(
            track_id,
            replies,
        ) + seq![ActionView::CloseSink, ActionView::JoinRenderer, ActionView::Finish],
{
    let r1 = replies.push(Reply::EndOfEvents);
    let r2 = r1.push(Reply::Done);
    let r3 = r2.push(Reply::Done);
    law_reply_extends_run(track_id, replies, Reply::EndOfEvents);
    law_reply_extends_run(track_id, r1, Reply::Done);
    law_reply_extends_run(track_id, r2, Reply::Done);
    assert(r3 =~= replies + seq![Reply::EndOfEvents, Reply::Done, Reply::Done]);
    assert(issued(track_id, r3) =~= issued(track_id, replies) + seq![
        ActionView::CloseSink,
        ActionView::JoinRenderer,
        ActionView::Finish,
    ]);
}

/// A run that has ended stays as it is: no reply moves it and no further
/// action is issued.
pub proof fn law_ended_run_is_final(track_id: Seq<char>, replies: Seq<Reply>, more: Seq<Reply>)
    requires
        stage_after(track_id, replies) is Closed || stage_after(track_id, replies) is Failed,
    ensures
        stages(track_id, replies + more) == stages(track_id, replies),
        issued(track_id, replies + more) == issued(track_id, replies),
    decreases more.len(),
{
    if more.len() == 0 {
        assert(replies + more =~= replies);
    } else {
        law_ended_run_is_final(track_id, replies, more.drop_last());
        law_reply_extends_run(track_id, replies + more.drop_last(), more.last());
        assert((replies + more.drop_last()).push(more.last()) =~= replies + more);
    }
}

/// Runs the orchestrator over a script of replies: starts a run for
/// `track_id`, gives it each reply in turn, and collects the actions that it
/// issues, the first one included.
pub fn replay(track_id: String, replies: &Vec<Reply>) -> (r: (Orchestrator, Vec<Action>))
    ensures
        r.0@.track_id == track_id@,
        r.0@.stage == stage_after(track_id@, replies@),
        action_views(r.1@) == issued(track_id@, replies@),
{
    let ghost id = track_id@;
    let (mut orchestrator, first) = Orchestrator::new(track_id);
    let mut actions: Vec<Action> = Vec::new();
    actions.push(first);
    proof {
        assert(replies@.take(0) =~= Seq::<Reply>::empty());
        assert(action_views(actions@) =~= issued(id, replies@.take(0)));
    }
    let mut i: usize = 0;
    while i < replies.len()
        invariant
            i <= replies@.len(),
            orchestrator@.track_id == id,
            orchestrator@.stage == stage_after(id, replies@.take(i as int)),
            action_views(actions@) == issued(id, replies@.take(i as int)),
        decreases replies@.len() - i,
    {
        let ghost before = actions@;
        proof {
            law_reply_extends_run(id, replies@.take(i as int), replies@[i as int]);
            assert(replies@.take(i as int).push(replies@[i as int]) =~= replies@.take(i + 1));
        }
        match orchestrator.step(replies[i]) {
            Some(action) => {
                actions.push(action);
                proof {
                    assert(action_views(actions@) =~= action_views(before).push(action@));
                }
            },
            None => {},
        }
        i += 1;
    }
    proof {
        assert(replies@.take(i as int) =~= replies@);
    }
    (orchestrator, actions)
}

} // verus!
