//! What holds of the numbers that every run of the agent loop tells.

use crate::agent::event::AgentEventView;
use crate::agent::run_laws;
use crate::agent::run_loop;
use crate::agent::run_loop::{
    LoopConfigView, LoopView, PhaseView, ReplyView, StepView, ThenView,
};
use crate::agent::session::SessionView;
use crate::language_model::event::FinishReason;
use vstd::prelude::*;

verus! {

/// The events of which some steps tell the caller.
pub open spec fn told(all: Seq<StepView>) -> Seq<AgentEventView>
    decreases all.len(),
{
    if all.len() == 0 {
        Seq::empty()
    } else {
        with_event(told(all.drop_last()), all.last())
    }
}

/// Some events, with the one that a step tells.
pub open spec fn with_event(events: Seq<AgentEventView>, step: StepView) -> Seq<AgentEventView> {
    match step {
        StepView::Emit { event } => events.push(event),
        _ => events,
    }
}

/// The turns of whose end some steps tell, each with its number and why the provider stopped.
pub open spec fn turn_ends(all: Seq<StepView>) -> Seq<(u32, FinishReason)>
    decreases all.len(),
{
    if all.len() == 0 {
        Seq::empty()
    } else {
        with_turn_end(turn_ends(all.drop_last()), all.last())
    }
}

/// Some ends of turns, with the one that a step tells.
pub open spec fn with_turn_end(ends: Seq<(u32, FinishReason)>, step: StepView) -> Seq<
    (u32, FinishReason),
> {
    match step {
        StepView::Emit { event: AgentEventView::TurnEnd { turn, reason, .. } } => ends.push(
            (turn, reason),
        ),
        _ => ends,
    }
}

/// Whether one of the steps says that the run ended well.
pub open spec fn ended_well(all: Seq<StepView>) -> bool {
    exists|i: int| 0 <= i < all.len() && is_success(#[trigger] all[i])
}

/// Whether a step says that the run ended well.
pub open spec fn is_success(step: StepView) -> bool {
    step matches StepView::Done { result: Ok(_) }
}

/// Whether the ends of turns are numbered from zero.
pub open spec fn numbered(ends: Seq<(u32, FinishReason)>) -> bool {
    forall|k: int| 0 <= k < ends.len() ==> (#[trigger] ends[k]).0 == k
}

/// Whether none of the events tells the end of the run.
pub open spec fn unfinished(events: Seq<AgentEventView>) -> bool {
    forall|i: int| 0 <= i < events.len() ==> !((#[trigger] events[i]) is Finish)
}

/// Whether the last of the events, and no other, tells the end of the run: with the number of turns
/// that ended, in each of which the model was called once, and with the reason of the last of them.
pub open spec fn summed_up(
    ends: Seq<(u32, FinishReason)>,
    calls: nat,
    events: Seq<AgentEventView>,
) -> bool {
    &&& ends.len() > 0
    &&& calls == ends.len()
    &&& events.len() > 0
    &&& events.last() matches AgentEventView::Finish { turns, reason, .. } && turns == ends.len()
        && reason == ends.last().1
    &&& unfinished(events.drop_last())
}

/// Where a run stands in its turn, as far as its numbers go.
#[verifier::ext_equal]
pub enum Stage {
    /// The model is yet to be called.
    Before,
    /// The model was called.
    Called,
    /// The end of the turn is being told.
    Ending(FinishReason),
    /// The turn is complete.
    Complete(FinishReason),
    /// The end of the run is being told.
    Finishing,
    /// The run failed, or is over.
    Left,
}

/// Where a run stands in its turn.
pub open spec fn stage(phase: PhaseView) -> Stage {
    match phase {
        PhaseView::Start => Stage::Before,
        PhaseView::CancelCheck => Stage::Before,
        PhaseView::Hooks(_, ThenView::FirstTurn) => Stage::Before,
        PhaseView::Hooks(_, ThenView::CallModel) => Stage::Before,
        PhaseView::Opening => Stage::Called,
        PhaseView::Streaming(_) => Stage::Called,
        PhaseView::Forwarding(_) => Stage::Called,
        PhaseView::EndingCalls(_, _) => Stage::Called,
        PhaseView::Hooks(_, ThenView::EndTurn(_)) => Stage::Called,
        PhaseView::EndingTurn(reason, _) => Stage::Ending(reason),
        PhaseView::Hooks(_, ThenView::Permit(run)) => Stage::Complete(run.reason),
        PhaseView::Hooks(_, ThenView::Report(run, _)) => Stage::Complete(run.reason),
        PhaseView::Hooks(_, ThenView::Finish(reason)) => Stage::Complete(reason),
        PhaseView::Permission(run) => Stage::Complete(run.reason),
        PhaseView::Asking(run) => Stage::Complete(run.reason),
        PhaseView::RunningOne(run, _) => Stage::Complete(run.reason),
        PhaseView::Joining(run) => Stage::Complete(run.reason),
        PhaseView::Reporting(run, _) => Stage::Complete(run.reason),
        PhaseView::StopCheck(reason) => Stage::Complete(reason),
        PhaseView::Finishing => Stage::Finishing,
        _ => Stage::Left,
    }
}

/// Whether what was told agrees with where the run stands: the turns that ended, the model calls and
/// the events so far, and whether the run was said to have ended well.
spec fn on_track(
    s: LoopView,
    ends: Seq<(u32, FinishReason)>,
    calls: nat,
    events: Seq<AgentEventView>,
    well: bool,
) -> bool {
    let turn = s.progress.turn;
    &&& numbered(ends)
    &&& run_laws::in_turn(s.phase) ==> turn < u32::MAX
    &&& well ==> s.phase is Over && summed_up(ends, calls, events)
    &&& match stage(s.phase) {
        Stage::Before => ends.len() == turn && calls == turn && unfinished(events),
        Stage::Called => ends.len() == turn && calls == turn + 1 && unfinished(events),
        Stage::Ending(reason) => ends.len() == turn + 1 && calls == turn + 1 && ends.last().1
            == reason && unfinished(events),
        Stage::Complete(reason) => ends.len() == turn && calls == turn && turn > 0 && ends.last().1
            == reason && unfinished(events),
        Stage::Finishing => summed_up(ends, calls, events),
        Stage::Left => true,
    }
}

#[verifier::opaque]
spec fn stays_on_track(
    s: LoopView,
    reply: ReplyView,
    ends: Seq<(u32, FinishReason)>,
    calls: nat,
    events: Seq<AgentEventView>,
    well: bool,
) -> bool {
    let (after, step) = run_loop::next(s, reply);
    on_track(s, ends, calls, events, well) ==> on_track(
        after,
        with_turn_end(ends, step),
        calls + if step is OpenModel {
            1nat
        } else {
            0nat
        },
        with_event(events, step),
        well || is_success(step),
    )
}

proof fn lemma_track_before_turn(
    s: LoopView,
    reply: ReplyView,
    ends: Seq<(u32, FinishReason)>,
    calls: nat,
    events: Seq<AgentEventView>,
    well: bool,
)
    requires
        s.phase is Start || s.phase is CancelCheck || s.phase is Opening || s.phase is Over,
    ensures
        stays_on_track(s, reply, ends, calls, events, well),
{
    reveal(stays_on_track);
}

proof fn lemma_track_streaming(
    s: LoopView,
    reply: ReplyView,
    ends: Seq<(u32, FinishReason)>,
    calls: nat,
    events: Seq<AgentEventView>,
    well: bool,
)
    requires
        s.phase is Streaming,
    ensures
        stays_on_track(s, reply, ends, calls, events, well),
{
    reveal(stays_on_track);
    match (s.phase, reply) {
        (PhaseView::Streaming(t), ReplyView::StreamEnd) => {
            let t = crate::agent::turn::ordered_turn(t);
            let ends = crate::agent::turn::end_events(t, crate::agent::turn::turn_args(t));
            if ends.len() > 0 {
                assert(ends[0] is ToolCallEnd);
            }
        },
        _ => {},
    }
}

proof fn lemma_track_telling(
    s: LoopView,
    reply: ReplyView,
    ends: Seq<(u32, FinishReason)>,
    calls: nat,
    events: Seq<AgentEventView>,
    well: bool,
)
    requires
        run_loop::well_formed(s),
        s.phase is Forwarding || s.phase is EndingCalls,
    ensures
        stays_on_track(s, reply, ends, calls, events, well),
{
    reveal(stays_on_track);
    match s.phase {
        PhaseView::EndingCalls(rest, _) => {
            if rest.len() > 0 {
                assert(rest[0] is ToolCallEnd);
            }
        },
        _ => {},
    }
}

proof fn lemma_track_end_of_turn(
    s: LoopView,
    reply: ReplyView,
    ends: Seq<(u32, FinishReason)>,
    calls: nat,
    events: Seq<AgentEventView>,
    well: bool,
)
    requires
        s.phase is EndingTurn,
    ensures
        stays_on_track(s, reply, ends, calls, events, well),
{
    reveal(stays_on_track);
}

proof fn lemma_track_permit(
    s: LoopView,
    reply: ReplyView,
    ends: Seq<(u32, FinishReason)>,
    calls: nat,
    events: Seq<AgentEventView>,
    well: bool,
)
    requires
        s.phase matches PhaseView::Hooks(_, ThenView::Permit(_)),
    ensures
        stays_on_track(s, reply, ends, calls, events, well),
{
    reveal(stays_on_track);
}

proof fn lemma_track_report(
    s: LoopView,
    reply: ReplyView,
    ends: Seq<(u32, FinishReason)>,
    calls: nat,
    events: Seq<AgentEventView>,
    well: bool,
)
    requires
        s.phase matches PhaseView::Hooks(_, ThenView::Report(_, _)),
    ensures
        stays_on_track(s, reply, ends, calls, events, well),
{
    reveal(stays_on_track);
}

proof fn lemma_track_hooks(
    s: LoopView,
    reply: ReplyView,
    ends: Seq<(u32, FinishReason)>,
    calls: nat,
    events: Seq<AgentEventView>,
    well: bool,
)
    requires
        s.phase matches PhaseView::Hooks(_, then) && !(then is Permit || then is Report),
    ensures
        stays_on_track(s, reply, ends, calls, events, well),
{
    reveal(stays_on_track);
}

proof fn lemma_track_gates(
    s: LoopView,
    reply: ReplyView,
    ends: Seq<(u32, FinishReason)>,
    calls: nat,
    events: Seq<AgentEventView>,
    well: bool,
)
    requires
        s.phase is Permission || s.phase is Asking,
    ensures
        stays_on_track(s, reply, ends, calls, events, well),
{
    reveal(stays_on_track);
}

proof fn lemma_track_running(
    s: LoopView,
    reply: ReplyView,
    ends: Seq<(u32, FinishReason)>,
    calls: nat,
    events: Seq<AgentEventView>,
    well: bool,
)
    requires
        s.phase is RunningOne || s.phase is Joining || s.phase is Reporting,
    ensures
        stays_on_track(s, reply, ends, calls, events, well),
{
    reveal(stays_on_track);
}

proof fn lemma_track_ending(
    s: LoopView,
    reply: ReplyView,
    ends: Seq<(u32, FinishReason)>,
    calls: nat,
    events: Seq<AgentEventView>,
    well: bool,
)
    requires
        s.phase is StopCheck || s.phase is Finishing || s.phase is ErrorHooks || s.phase is Failing,
    ensures
        stays_on_track(s, reply, ends, calls, events, well),
{
    reveal(stays_on_track);
}

proof fn lemma_track(
    s: LoopView,
    reply: ReplyView,
    ends: Seq<(u32, FinishReason)>,
    calls: nat,
    events: Seq<AgentEventView>,
    well: bool,
)
    requires
        run_loop::well_formed(s),
    ensures
        stays_on_track(s, reply, ends, calls, events, well),
{
    match s.phase {
        PhaseView::Streaming(_) => lemma_track_streaming(s, reply, ends, calls, events, well),
        PhaseView::Forwarding(_) => lemma_track_telling(s, reply, ends, calls, events, well),
        PhaseView::EndingCalls(_, _) => lemma_track_telling(s, reply, ends, calls, events, well),
        PhaseView::EndingTurn(_, _) => lemma_track_end_of_turn(s, reply, ends, calls, events, well),
        PhaseView::Hooks(_, ThenView::Permit(_)) => {
            lemma_track_permit(s, reply, ends, calls, events, well);
        },
        PhaseView::Hooks(_, ThenView::Report(_, _)) => {
            lemma_track_report(s, reply, ends, calls, events, well);
        },
        PhaseView::Hooks(_, _) => lemma_track_hooks(s, reply, ends, calls, events, well),
        PhaseView::Permission(_) => lemma_track_gates(s, reply, ends, calls, events, well),
        PhaseView::Asking(_) => lemma_track_gates(s, reply, ends, calls, events, well),
        PhaseView::RunningOne(_, _) => lemma_track_running(s, reply, ends, calls, events, well),
        PhaseView::Joining(_) => lemma_track_running(s, reply, ends, calls, events, well),
        PhaseView::Reporting(_, _) => lemma_track_running(s, reply, ends, calls, events, well),
        PhaseView::StopCheck(_) => lemma_track_ending(s, reply, ends, calls, events, well),
        PhaseView::Finishing => lemma_track_ending(s, reply, ends, calls, events, well),
        PhaseView::ErrorHooks(_, _, _) => lemma_track_ending(s, reply, ends, calls, events, well),
        PhaseView::Failing(_) => lemma_track_ending(s, reply, ends, calls, events, well),
        _ => lemma_track_before_turn(s, reply, ends, calls, events, well),
    }
}

proof fn lemma_run_on_track(s: LoopView, replies: Seq<ReplyView>)
    requires
        run_loop::well_formed(s),
        on_track(s, Seq::empty(), 0, Seq::empty(), false),
    ensures
        run_loop::well_formed(run_laws::run_after(s, replies)),
        ({
            let all = run_laws::steps(s, replies);
            on_track(
                run_laws::run_after(s, replies),
                turn_ends(all),
                run_laws::model_calls(all),
                told(all),
                ended_well(all),
            )
        }),
    decreases replies.len(),
{
    let all = run_laws::steps(s, replies);
    if replies.len() > 0 {
        let front = replies.drop_last();
        let before = run_laws::steps(s, front);
        lemma_run_on_track(s, front);
        run_laws::law_moves_keep_well_formed(run_laws::run_after(s, front), replies.last());
        lemma_track(
            run_laws::run_after(s, front),
            replies.last(),
            turn_ends(before),
            run_laws::model_calls(before),
            told(before),
            ended_well(before),
        );
        reveal(stays_on_track);
        assert(all.drop_last() =~= before);
        assert(ended_well(all) == (ended_well(before) || is_success(all.last()))) by {
            if ended_well(all) {
                let i = choose|i: int| 0 <= i < all.len() && is_success(#[trigger] all[i]);
                if i < before.len() {
                    assert(before[i] == all[i]);
                }
            }
            if ended_well(before) {
                let i = choose|i: int| 0 <= i < before.len() && is_success(#[trigger] before[i]);
                assert(all[i] == before[i]);
            }
            assert(all[all.len() - 1] == all.last());
        }
    } else {
        assert(!ended_well(all));
    }
}

/// Turns are numbered from zero, in the order in which their ends are told. Where a run ends well,
/// the last event that the caller was told is the end of the run, and no other is: it tells the
/// number of turns that ended, which is the number of model calls, and the reason of the last turn.
pub proof fn law_turns_are_counted(
    config: LoopConfigView,
    session: SessionView,
    replies: Seq<ReplyView>,
)
    ensures
        ({
            let all = run_laws::steps(run_loop::new_loop(config, session), replies);
            &&& numbered(turn_ends(all))
            &&& ended_well(all) ==> summed_up(turn_ends(all), run_laws::model_calls(all), told(all))
        }),
{
    lemma_run_on_track(run_loop::new_loop(config, session), replies);
}

} // verus!
