//! What holds of a whole polling cycle.
use crate::config::Config;
use crate::decision::{decision, ScaleDecision};
use crate::gitea::{Job, Runner};
use crate::jobs::{
    busy_runners_are_the_working_ones, is_worked_on, jobs_on, read_pages,
    steady_list_is_read_to_its_end, steady_pages, working_runners, Page, ScanStepView, ScanView,
};
use crate::outside::can_have_passed;
use crate::runners::{is_stale, only_stale_runners_are_selected, stale_runners};
use crate::scaler::{only_idle_pods_are_removed, replicas_of, running_names, scale_down};
use crate::tick::{ActionView, Event, Outcome, PhaseView, TickView};
use std::time::Instant;
use vstd::prelude::*;

verus! {

/// What holds of a cycle at all times: what it wants is within its bounds, the pods that it is to
/// delete are idle, and the registrations that it is to delete are stale.
pub open spec fn in_order(tick: TickView) -> bool {
    &&& 0 <= tick.min_replicas <= tick.max_replicas <= i32::MAX
    &&& tick.cooldown_secs <= u64::MAX
    &&& tick.phase.has_next()
    &&& match tick.phase {
        PhaseView::Jobs(scan) => scan.page >= 1 && scan.max_replicas == tick.max_replicas,
        PhaseView::Deployment { desired, .. } => tick.min_replicas <= desired <= tick.max_replicas,
        PhaseView::RunnerPods { target } => tick.min_replicas <= target <= tick.max_replicas,
        PhaseView::DeletingPods(removal) => {
            &&& removal.well_formed()
            &&& tick.min_replicas <= removal.target <= tick.max_replicas
            &&& forall|i: int|
                0 <= i < removal.removable.len() ==> !tick.busy_runners.contains(
                    #[trigger] removal.removable[i],
                )
        },
        PhaseView::DeletingRunners(cleanup) => {
            forall|i: int|
                0 <= i < cleanup.stale.len() ==> is_stale(
                    #[trigger] cleanup.stale[i],
                    tick.live_runner_names,
                    tick.busy_runners,
                )
        },
        _ => true,
    }
}

/// A cycle for a configuration, before its first call.
pub open spec fn first_cycle(config: Config) -> TickView {
    TickView::first(config@.min_replicas, config@.max_replicas, config@.scale_down_delay)
}

/// A cycle for a configuration starts in order.
pub proof fn cycle_starts_in_order(config: Config)
    requires
        config@.well_formed(),
    ensures
        in_order(first_cycle(config)),
{
}

/// A cycle that is in order stays so, however the calls end.
pub proof fn cycle_stays_in_order(tick: TickView, event: Event, decided: ScaleDecision)
    requires
        in_order(tick),
        tick.expects(event),
    ensures
        in_order(tick.next(event, decided).0),
{
    match (tick.phase, event) {
        (PhaseView::RunnerPods { target }, Event::Pods(pods)) => {
            only_idle_pods_are_removed(running_names(pods@), target, tick.busy_runners);
        },
        (PhaseView::Runners, Event::Runners(response)) => {
            let stale = stale_runners(
                response.runners@,
                tick.live_runner_names,
                tick.busy_runners,
            );
            assert forall|i: int| 0 <= i < stale.len() implies is_stale(
                #[trigger] stale[i],
                tick.live_runner_names,
                tick.busy_runners,
            ) by {
                assert(stale.contains(stale[i]));
                only_stale_runners_are_selected(
                    response.runners@,
                    tick.live_runner_names,
                    tick.busy_runners,
                    stale[i],
                );
            }
        },
        _ => {},
    }
}

/// A cycle never deletes a pod that a busy runner is named after.
pub proof fn busy_pods_are_never_deleted(tick: TickView, event: Event, decided: ScaleDecision)
    requires
        in_order(tick),
        tick.expects(event),
    ensures
        tick.next(event, decided).1 matches ActionView::DeletePod { name } ==> !tick.next(
            event,
            decided,
        ).0.busy_runners.contains(name),
{
    cycle_stays_in_order(tick, event, decided);
}

/// A cycle deletes only registrations of runners that Gitea has as offline and not busy, and that
/// neither a live pod nor a busy runner is named after.
pub proof fn only_stale_registrations_are_deleted(
    tick: TickView,
    event: Event,
    decided: ScaleDecision,
)
    requires
        in_order(tick),
        tick.expects(event),
    ensures
        tick.next(event, decided).1 matches ActionView::DeleteRunner { id, name } ==> exists|
            runner: Runner,
        |
            {
                &&& #[trigger] is_stale(
                    runner,
                    tick.next(event, decided).0.live_runner_names,
                    tick.next(event, decided).0.busy_runners,
                )
                &&& runner.id == id
                &&& runner.name@ == name
            },
{
    cycle_stays_in_order(tick, event, decided);
    let (after, action) = tick.next(event, decided);
    if action is DeleteRunner {
        let cleanup = after.phase->DeletingRunners_0;
        assert(is_stale(
            cleanup.stale[cleanup.next as int],
            after.live_runner_names,
            after.busy_runners,
        ));
    }
}

/// Where a cycle sets the replica count, it is never below the floor. To scale up it sets what is
/// wanted, at once, which is more than there is and not above the ceiling. To scale down it sets
/// the number of running pods that are left.
pub proof fn replica_count_stays_in_bounds(
    tick: TickView,
    event: Event,
    since: Option<Instant>,
    decided: ScaleDecision,
)
    requires
        in_order(tick),
        tick.expects(event),
        tick.may_decide(event, since, decided),
    ensures
        tick.next(event, decided).1 matches ActionView::Scale { replicas } ==> {
            &&& tick.min_replicas <= replicas
            &&& match (tick.phase, event) {
                (PhaseView::Deployment { desired, .. }, Event::Deployment(deployment)) => {
                    &&& replicas == desired
                    &&& replicas_of(deployment) < replicas <= tick.max_replicas
                },
                (PhaseView::DeletingPods(removal), _) => {
                    let tried = removal.tried(event is Done);
                    &&& replicas == tried.current - tried.deleted
                    &&& tried.target <= replicas
                },
                _ => false,
            }
        },
{
    if let (PhaseView::RunnerPods { target }, Event::Pods(pods)) = (tick.phase, event) {
        only_idle_pods_are_removed(running_names(pods@), target, tick.busy_runners);
    }
}

/// A shortage of runners is made up for in the cycle that sees it.
pub proof fn shortage_is_made_up_at_once(
    tick: TickView,
    event: Event,
    since: Option<Instant>,
    decided: ScaleDecision,
)
    requires
        in_order(tick),
        tick.expects(event),
        tick.may_decide(event, since, decided),
    ensures
        match (tick.phase, event) {
            (PhaseView::Deployment { desired, .. }, Event::Deployment(deployment)) => replicas_of(
                deployment,
            ) < desired ==> tick.next(event, decided).1 == (ActionView::Scale {
                replicas: desired,
            }),
            _ => true,
        },
{
}

/// Pods are deleted only where the cycle found more replicas than are wanted, found that so for the
/// whole cooldown, and read the job list to its end. `before` and `since` say since when there has
/// been a surplus, before the call and after it.
pub proof fn pods_are_deleted_only_after_the_cooldown(
    tick: TickView,
    event: Event,
    before: Option<Instant>,
    since: Option<Instant>,
    decided: ScaleDecision,
)
    requires
        in_order(tick),
        tick.expects(event),
        tick.since_follows(event, before, since),
        tick.may_decide(event, since, decided),
    ensures
        tick.next(event, decided).1 is DeletePod ==> tick.phase is RunnerPods
            || tick.phase is DeletingPods,
        tick.next(event, decided).0.phase is DeletingPods ==> tick.phase is RunnerPods
            || tick.phase is DeletingPods,
        tick.next(event, decided).0.phase is RunnerPods ==> match (tick.phase, event) {
            (PhaseView::Deployment { desired, jobs }, Event::Deployment(deployment)) => {
                &&& desired < replicas_of(deployment)
                &&& jobs.read_to_end
                &&& since is Some
                &&& exists|elapsed: u64|
                    elapsed >= tick.cooldown_secs && #[trigger] can_have_passed(since->0, elapsed)
            },
            _ => false,
        },
{
    if tick.next(event, decided).0.phase is RunnerPods {
        if let (PhaseView::Deployment { desired, .. }, Event::Deployment(deployment)) = (
            tick.phase,
            event,
        ) {
            let elapsed = choose|elapsed: u64|
                {
                    &&& since matches Some(started_at) ==> can_have_passed(started_at, elapsed)
                    &&& decided == #[trigger] decision(
                        replicas_of(deployment),
                        desired as i32,
                        tick.cooldown_secs as u64,
                        elapsed,
                    )
                };
            assert(can_have_passed(since->0, elapsed));
        }
    }
}

/// A call that fails before the replica count is settled ends the cycle, but for the deletion of a
/// pod, after which the cycle goes on with the next pod. A call that fails while stale
/// registrations are removed ends the cycle too, but the cycle has not failed.
pub proof fn failures_are_answered(tick: TickView, decided: ScaleDecision)
    requires
        tick.expects(Event::Failed),
    ensures
        match tick.phase {
            PhaseView::DeletingPods(removal) => {
                let tried = removal.tried(false);
                &&& tick.next(Event::Failed, decided) == tick.remove_pods(tried)
                &&& tried.deleted == removal.deleted
                &&& !(tick.next(Event::Failed, decided).1 is Finish)
            },
            PhaseView::Runners | PhaseView::DeletingRunners(_) => {
                &&& tick.next(Event::Failed, decided).0.phase == PhaseView::Finished
                &&& tick.next(Event::Failed, decided).1 == ActionView::Finish(
                    Outcome::CleanupFailed,
                )
            },
            _ => {
                &&& tick.next(Event::Failed, decided).0.phase == PhaseView::Finished
                &&& tick.next(Event::Failed, decided).1 == ActionView::Finish(Outcome::Failed)
            },
        },
{
}

/// How far a cycle has come: it looks at pods and jobs, then at the Deployment, then sees to the
/// replica count, then to stale registrations.
pub open spec fn stage(phase: PhaseView) -> nat {
    match phase {
        PhaseView::LivePods => 0,
        PhaseView::Jobs(_) => 1,
        PhaseView::Deployment { .. } => 2,
        PhaseView::RunnerPods { .. } => 3,
        PhaseView::DeletingPods(_) => 4,
        PhaseView::Scaling => 5,
        PhaseView::Runners => 6,
        PhaseView::DeletingRunners(_) => 7,
        PhaseView::Finished => 8,
    }
}

/// A cycle never goes back: each call brings it to a later stage, or to the next page, pod or
/// registration within its stage.
pub proof fn cycle_never_goes_back(tick: TickView, event: Event, decided: ScaleDecision)
    requires
        tick.expects(event),
    ensures
        ({
            let after = tick.next(event, decided).0.phase;
            ||| stage(tick.phase) < stage(after)
            ||| match (tick.phase, after) {
                (PhaseView::Jobs(scan), PhaseView::Jobs(next)) => next.page == scan.page + 1,
                (PhaseView::DeletingPods(removal), PhaseView::DeletingPods(next)) => {
                    &&& next.removable == removal.removable
                    &&& next.next == removal.next + 1
                },
                (PhaseView::DeletingRunners(cleanup), PhaseView::DeletingRunners(next)) => {
                    &&& next.stale == cleanup.stale
                    &&& next.next == cleanup.next + 1
                },
                _ => false,
            }
        }),
{
}

/// How a call ended, and what the cycle decided, which counts only where the Deployment was read.
pub struct Turn {
    pub event: Event,
    pub decided: ScaleDecision,
}

/// A cycle after the calls that ended like this, and the call that it makes next.
pub open spec fn after_turns(config: Config, turns: Seq<Turn>) -> (TickView, ActionView)
    decreases turns.len(),
{
    if turns.len() == 0 {
        (first_cycle(config), ActionView::ListLivePods)
    } else {
        after_turns(config, turns.drop_last()).0.next(turns.last().event, turns.last().decided)
    }
}

/// Whether each of the calls that a cycle makes can end like this.
pub open spec fn can_happen(config: Config, turns: Seq<Turn>) -> bool
    decreases turns.len(),
{
    turns.len() > 0 ==> {
        &&& can_happen(config, turns.drop_last())
        &&& after_turns(config, turns.drop_last()).0.expects(turns.last().event)
    }
}

/// The pages of the job list that were received.
pub open spec fn pages_read(turns: Seq<Turn>) -> Seq<Page>
    decreases turns.len(),
{
    if turns.len() == 0 {
        Seq::empty()
    } else {
        match turns.last().event {
            Event::Jobs(page) => pages_read(turns.drop_last()).push(
                Page { jobs: page.jobs@, total: page.total_count as nat },
            ),
            _ => pages_read(turns.drop_last()),
        }
    }
}

/// Whether a cycle knows what the pages say that it received: where it still reads them, it reads
/// on after them, and after that its busy runners are those that they name. Where it removes pods,
/// the last page ended the list.
pub open spec fn knows_pages(tick: TickView, pages: Seq<Page>) -> bool {
    let first = ScanView::first(tick.max_replicas as nat);
    match tick.phase {
        PhaseView::LivePods => pages.len() == 0,
        PhaseView::Jobs(scan) => read_pages(first, pages) == ScanStepView::More(scan),
        PhaseView::Finished => true,
        phase => {
            &&& pages.len() > 0
            &&& read_pages(first, pages.drop_last()) is More
            &&& read_pages(first, pages) matches ScanStepView::Done(summary) && {
                &&& tick.busy_runners == summary.busy_runners
                &&& phase matches PhaseView::Deployment { jobs, .. } ==> jobs.read_to_end
                    == summary.read_to_end
                &&& phase is RunnerPods || phase is DeletingPods ==> summary.read_to_end
            }
        },
    }
}

/// A cycle always is in order and knows the pages that it received, however its calls end.
pub proof fn cycle_knows_its_pages(config: Config, turns: Seq<Turn>)
    requires
        config@.well_formed(),
        can_happen(config, turns),
    ensures
        in_order(after_turns(config, turns).0),
        after_turns(config, turns).0.max_replicas == config@.max_replicas,
        knows_pages(after_turns(config, turns).0, pages_read(turns)),
    decreases turns.len(),
{
    if turns.len() > 0 {
        let earlier = turns.drop_last();
        let Turn { event, decided } = turns.last();
        cycle_knows_its_pages(config, earlier);
        let tick = after_turns(config, earlier).0;
        cycle_stays_in_order(tick, event, decided);
        if event is Jobs {
            assert(pages_read(turns).drop_last() =~= pages_read(earlier));
        }
    }
}

/// A cycle deletes pods only where it read the job list to its end.
pub proof fn partial_reading_removes_no_pod(config: Config, turns: Seq<Turn>)
    requires
        config@.well_formed(),
        can_happen(config, turns),
        after_turns(config, turns).1 is DeletePod,
    ensures
        read_pages(
            ScanView::first(config@.max_replicas as nat),
            pages_read(turns),
        ) matches ScanStepView::Done(summary) && summary.read_to_end,
{
    cycle_knows_its_pages(config, turns);
}

/// However the calls of a cycle end, it never deletes a pod whose runner works on a job on one of
/// the pages that it read.
pub proof fn pods_at_work_on_read_jobs_are_spared(config: Config, turns: Seq<Turn>, job: int)
    requires
        config@.well_formed(),
        can_happen(config, turns),
        0 <= job < jobs_on(pages_read(turns)).len(),
        is_worked_on(jobs_on(pages_read(turns))[job]),
    ensures
        after_turns(config, turns).1 != (ActionView::DeletePod {
            name: jobs_on(pages_read(turns))[job].runner_name@,
        }),
{
    cycle_knows_its_pages(config, turns);
    let (tick, action) = after_turns(config, turns);
    if action is DeletePod {
        let pages = pages_read(turns);
        busy_runners_are_the_working_ones(config@.max_replicas as nat, pages);
        assert(working_runners(jobs_on(pages)).contains(jobs_on(pages)[job].runner_name@));
    }
}

/// However the calls of a cycle end, it never deletes a pod whose runner works on a job, where the
/// job list does not change while it is read.
pub proof fn pods_at_work_are_spared(config: Config, turns: Seq<Turn>, jobs: Seq<Job>, job: int)
    requires
        config@.well_formed(),
        can_happen(config, turns),
        pages_read(turns) == steady_pages(jobs, pages_read(turns).len()),
        0 <= job < jobs.len(),
        is_worked_on(jobs[job]),
    ensures
        after_turns(config, turns).1 != (ActionView::DeletePod { name: jobs[job].runner_name@ }),
{
    cycle_knows_its_pages(config, turns);
    if after_turns(config, turns).1 is DeletePod {
        let pages = pages_read(turns);
        let count = pages.len();
        assert(pages.drop_last() =~= steady_pages(jobs, (count - 1) as nat));
        steady_list_is_read_to_its_end(config@.max_replicas as nat, jobs, count);
        assert(working_runners(jobs).contains(jobs[job].runner_name@));
    }
}

} // verus!
