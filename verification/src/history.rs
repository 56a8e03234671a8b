//! What a polling cycle has seen so far, and what follows from it for the next call.
use crate::config::Config;
use crate::decision::{decision, decision_since, ScaleDecision};
use crate::gitea::{Runner, PAGE_LIMIT};
use crate::jobs::{
    busy_runners_are_the_working_ones, is_worked_on, jobs_on, lemma_working_runners_of_both,
    working_runners, Page,
};
use crate::laws::{
    after_turns, can_happen, cycle_knows_its_pages, pages_read, Turn,
};
use crate::outside::can_have_passed;
use crate::runners::{is_stale, stale_runners};
use crate::scaler::{
    idle_names, is_running, live_names, replicas_of, running_names, surplus_of_idle_pods_is_removed,
    Deployment, Pod,
};
use crate::tick::{Action, ActionView, Event, JobCounts, Outcome, PhaseView, Report, TickView};
use std::time::Instant;
use vstd::prelude::*;

verus! {

/// What the calls of a cycle have brought so far, apart from the pages of the job list.
pub struct Seen {
    /// The pods, as they were listed to learn which are live.
    pub live_pods: Option<Seq<Pod>>,
    /// The Deployment.
    pub deployment: Option<Deployment>,
    /// The pods, as they were listed to remove some.
    pub pods: Option<Seq<Pod>>,
    /// The names of the pods that were to be deleted, in order.
    pub tried: Seq<Seq<char>>,
    /// How many of these are deleted.
    pub deleted: nat,
    /// The replica count that was set.
    pub scaled: Option<int>,
    /// The runners that are registered.
    pub runners: Option<Seq<Runner>>,
    /// The identifiers and names of the registrations that are deleted, in order.
    pub removed: Seq<(u64, Seq<char>)>,
}

/// What a cycle has seen after these ends of its calls.
pub open spec fn seen(config: Config, turns: Seq<Turn>) -> Seen
    decreases turns.len(),
{
    if turns.len() == 0 {
        Seen {
            live_pods: None,
            deployment: None,
            pods: None,
            tried: Seq::empty(),
            deleted: 0,
            scaled: None,
            runners: None,
            removed: Seq::empty(),
        }
    } else {
        let before = seen(config, turns.drop_last());
        match (after_turns(config, turns.drop_last()).1, turns.last().event) {
            (ActionView::ListLivePods, Event::Pods(pods)) => Seen {
                live_pods: Some(pods@),
                ..before
            },
            (ActionView::GetDeployment, Event::Deployment(deployment)) => Seen {
                deployment: Some(deployment),
                ..before
            },
            (ActionView::ListRunnerPods, Event::Pods(pods)) => Seen {
                pods: Some(pods@),
                ..before
            },
            (ActionView::DeletePod { name }, Event::Done) => Seen {
                tried: before.tried.push(name),
                deleted: before.deleted + 1,
                ..before
            },
            (ActionView::DeletePod { name }, _) => Seen {
                tried: before.tried.push(name),
                ..before
            },
            (ActionView::Scale { replicas }, Event::Done) => Seen {
                scaled: Some(replicas),
                ..before
            },
            (ActionView::ListRunners, Event::Runners(response)) => Seen {
                runners: Some(response.runners@),
                ..before
            },
            (ActionView::DeleteRunner { id, name }, Event::Done) => Seen {
                removed: before.removed.push((id, name)),
                ..before
            },
            _ => before,
        }
    }
}

/// Whether job number `i` on page number `p` is in progress and names that runner.
pub open spec fn works_at(name: Seq<char>, pages: Seq<Page>, p: int, i: int) -> bool {
    &&& 0 <= p < pages.len()
    &&& 0 <= i < pages[p].jobs.len()
    &&& pages[p].jobs[i].status@ == "in_progress"@
    &&& pages[p].jobs[i].runner_name@ == name
    &&& name.len() != 0
}

/// The runners that a job in progress on one of the pages names.
pub open spec fn busy_on(pages: Seq<Page>) -> Set<Seq<char>> {
    Set::new(|name: Seq<char>| exists|p: int, i: int| #[trigger] works_at(name, pages, p, i))
}

/// Whether the pages are the whole list: the last is empty, or it and full ones before it come up to
/// the total that it states.
pub open spec fn whole_list(pages: Seq<Page>) -> bool {
    pages.last().jobs.len() == 0 || (pages.len() - 1) * PAGE_LIMIT + pages.last().jobs.len()
        >= pages.last().total
}

/// The number of runners that the pages ask for, within the bounds: one for each job, and no fewer
/// than are busy.
pub open spec fn wanted(config: Config, pages: Seq<Page>) -> int {
    let running = busy_on(pages).len() as int;
    let all = if pages.last().total > running {
        pages.last().total as int
    } else {
        running
    };
    if all < config.min_replicas {
        config.min_replicas as int
    } else if all > config.max_replicas {
        config.max_replicas as int
    } else {
        all
    }
}

/// Whether the counts are those of the pages: busy runners and queued jobs make up the total,
/// unless more runners are busy than there are jobs.
pub open spec fn are_counts_of(jobs: JobCounts, pages: Seq<Page>) -> bool {
    &&& jobs.total_count == pages.last().total
    &&& jobs.running == busy_on(pages).len() as usize
    &&& jobs.queued + busy_on(pages).len() == jobs.total_count || (jobs.queued == 0 && busy_on(
        pages,
    ).len() > jobs.total_count)
    &&& jobs.read_to_end <==> whole_list(pages)
}

/// How many pods are to be removed, of which `running` run: as many as are idle and too many.
pub open spec fn surplus(running: Seq<Seq<char>>, idle: Seq<Seq<char>>, wanted: int) -> int {
    if running.len() <= wanted {
        0
    } else if idle.len() <= running.len() - wanted {
        idle.len() as int
    } else {
        running.len() - wanted
    }
}

/// The names of the pods that are to be removed.
pub open spec fn to_remove(config: Config, pages: Seq<Page>, pods: Seq<Pod>) -> Seq<Seq<char>> {
    let running = running_names(pods);
    let idle = idle_names(running, busy_on(pages));
    idle.take(surplus(running, idle, wanted(config, pages)))
}

/// Whether the report says what was seen.
pub open spec fn is_report_of(
    report: Report,
    config: Config,
    pages: Seq<Page>,
    seen: Seen,
) -> bool {
    &&& seen.deployment is Some
    &&& report.current == replicas_of(seen.deployment->0)
    &&& report.desired == wanted(config, pages)
    &&& are_counts_of(report.jobs, pages)
    &&& match (report.pods, seen.pods) {
        (Some(counts), Some(pods)) => {
            &&& counts.current == running_names(pods).len()
            &&& counts.idle == idle_names(running_names(pods), busy_on(pages)).len()
        },
        (None, None) => true,
        _ => false,
    }
}

/// Whether all has been done that the decision asks for.
pub open spec fn is_settled(decision: ScaleDecision, config: Config, pages: Seq<Page>, seen: Seen)
    -> bool {
    match decision {
        ScaleDecision::ScaleUp => seen.pods is None && seen.scaled == Some(wanted(config, pages)),
        ScaleDecision::ScaleDown => match seen.pods {
            Some(pods) => {
                &&& whole_list(pages)
                &&& seen.tried == to_remove(config, pages, pods)
                &&& seen.scaled == if seen.tried.len() > 0 {
                    Some(running_names(pods).len() - seen.deleted)
                } else {
                    None
                }
            },
            None => !whole_list(pages) && seen.scaled is None,
        },
        _ => seen.pods is None && seen.scaled is None,
    }
}

/// The identifiers and names of the registrations that are to be deleted.
pub open spec fn stale(pages: Seq<Page>, seen: Seen) -> Seq<(u64, Seq<char>)> {
    stale_runners(seen.runners->0, live_names(seen.live_pods->0), busy_on(pages)).map_values(
        |runner: Runner| (runner.id, runner.name@),
    )
}

/// Whether nothing has been done about the replica count yet.
spec fn nothing_done(seen: Seen) -> bool {
    &&& seen.pods is None
    &&& seen.tried.len() == 0
    &&& seen.deleted == 0
    &&& seen.scaled is None
    &&& no_cleanup(seen)
}

/// Whether registrations have not been looked at yet.
spec fn no_cleanup(seen: Seen) -> bool {
    seen.runners is None && seen.removed.len() == 0
}

/// What holds between a cycle, the call that it makes next and what it has seen.
spec fn is_explained(
    config: Config,
    tick: TickView,
    call: ActionView,
    pages: Seq<Page>,
    seen: Seen,
) -> bool {
    &&& tick.min_replicas == config.min_replicas
    &&& tick.max_replicas == config.max_replicas
    &&& tick.cooldown_secs == config.scale_down_delay
    &&& tick.phase is LivePods || tick.phase is Finished || (seen.live_pods is Some
        && tick.live_runner_names == live_names(seen.live_pods->0))
    &&& tick.phase is LivePods || tick.phase is Jobs || tick.phase is Finished || tick.busy_runners
        == busy_on(pages)
    &&& match tick.phase {
        PhaseView::LivePods | PhaseView::Jobs(_) | PhaseView::Deployment { .. } => {
            &&& tick.report is None
            &&& seen.deployment is None
            &&& nothing_done(seen)
        },
        PhaseView::Finished => true,
        _ => tick.report is Some && is_report_of(tick.report->0, config, pages, seen),
    }
    &&& match tick.phase {
        PhaseView::LivePods => call == ActionView::ListLivePods,
        PhaseView::Jobs(scan) => call == (ActionView::FetchJobs { page: scan.page }),
        PhaseView::Deployment { desired, jobs } => {
            &&& call == ActionView::GetDeployment
            &&& desired == wanted(config, pages)
            &&& are_counts_of(jobs, pages)
        },
        PhaseView::RunnerPods { target } => {
            &&& call == ActionView::ListRunnerPods
            &&& target == wanted(config, pages)
            &&& tick.report->0.decision is ScaleDown
            &&& whole_list(pages)
            &&& nothing_done(seen)
        },
        PhaseView::DeletingPods(removal) => {
            &&& seen.pods is Some
            &&& removal.current == running_names(seen.pods->0).len()
            &&& removal.target == wanted(config, pages)
            &&& removal.removable == to_remove(config, pages, seen.pods->0)
            &&& removal.removable.len() <= removal.current - removal.target
            &&& removal.next == seen.tried.len() < removal.removable.len()
            &&& removal.deleted == seen.deleted <= removal.next
            &&& seen.tried == removal.removable.take(seen.tried.len() as int)
            &&& call == (ActionView::DeletePod {
                name: removal.removable[seen.tried.len() as int],
            })
            &&& tick.report->0.decision is ScaleDown
            &&& whole_list(pages)
            &&& seen.scaled is None
            &&& no_cleanup(seen)
        },
        PhaseView::Scaling => {
            &&& call matches ActionView::Scale { replicas }
            &&& is_settled(
                tick.report->0.decision,
                config,
                pages,
                Seen { scaled: Some(replicas), ..seen },
            )
            &&& seen.scaled is None
            &&& no_cleanup(seen)
        },
        PhaseView::Runners => {
            &&& call == ActionView::ListRunners
            &&& is_settled(tick.report->0.decision, config, pages, seen)
            &&& no_cleanup(seen)
        },
        PhaseView::DeletingRunners(cleanup) => {
            let all = stale(pages, seen);
            let count = seen.removed.len();
            &&& seen.runners is Some
            &&& cleanup.stale == stale_runners(
                seen.runners->0,
                live_names(seen.live_pods->0),
                busy_on(pages),
            )
            &&& cleanup.next == count < all.len() <= usize::MAX
            &&& seen.removed == all.take(count as int)
            &&& call == (ActionView::DeleteRunner {
                id: all[count as int].0,
                name: all[count as int].1,
            })
            &&& is_settled(tick.report->0.decision, config, pages, seen)
        },
        PhaseView::Finished => match call {
            ActionView::Finish(Outcome::Cleaned { removed }) => {
                &&& seen.live_pods is Some
                &&& seen.runners is Some
                &&& tick.report is Some && is_report_of(tick.report->0, config, pages, seen)
                &&& is_settled(tick.report->0.decision, config, pages, seen)
                &&& seen.removed == stale(pages, seen)
                &&& removed == seen.removed.len()
            },
            ActionView::Finish(_) => true,
            _ => false,
        },
    }
}

/// The runners on the pages are those on the pages before the last and those on the last.
proof fn lemma_busy_on(pages: Seq<Page>)
    ensures
        busy_on(pages) == working_runners(jobs_on(pages)),
    decreases pages.len(),
{
    if pages.len() == 0 {
        assert(busy_on(pages) =~= Set::<Seq<char>>::empty());
        assert(working_runners(jobs_on(pages)) =~= Set::<Seq<char>>::empty());
    } else {
        let earlier = pages.drop_last();
        let last = pages.last().jobs;
        lemma_busy_on(earlier);
        lemma_working_runners_of_both(jobs_on(earlier), last);
        assert forall|name: Seq<char>| #[trigger] busy_on(pages).contains(name) implies busy_on(
            earlier,
        ).contains(name) || working_runners(last).contains(name) by {
            let (p, i) = choose|p: int, i: int| works_at(name, pages, p, i);
            if p < earlier.len() {
                assert(works_at(name, earlier, p, i));
            } else {
                assert(is_worked_on(last[i]));
            }
        }
        assert forall|name: Seq<char>| #[trigger] busy_on(earlier).contains(name) implies busy_on(
            pages,
        ).contains(name) by {
            let (p, i) = choose|p: int, i: int| works_at(name, earlier, p, i);
            assert(works_at(name, pages, p, i));
        }
        assert forall|name: Seq<char>| #[trigger] working_runners(last).contains(
            name,
        ) implies busy_on(pages).contains(name) by {
            let i = choose|i: int|
                0 <= i < last.len() && is_worked_on(#[trigger] last[i]) && last[i].runner_name@
                    == name;
            assert(works_at(name, pages, pages.len() - 1, i));
        }
        assert(busy_on(pages) =~= working_runners(jobs_on(pages)));
    }
}

/// A filter never has more items than what it is applied to.
proof fn lemma_filter_is_no_longer<A>(all: Seq<A>, pred: spec_fn(A) -> bool)
    ensures
        all.filter(pred).len() <= all.len(),
    decreases all.len(),
{
    if all.len() > 0 {
        let fewer = all.drop_last();
        lemma_filter_is_no_longer(fewer, pred);
        fewer.lemma_filter_push(all.last(), pred);
        assert(fewer.push(all.last()) =~= all);
    } else {
        reveal(Seq::filter);
    }
}

/// Whatever the calls of a cycle have brought explains what it does next.
#[verifier::rlimit(40)]
proof fn lemma_explained(config: Config, turns: Seq<Turn>)
    requires
        0 <= config.min_replicas <= config.max_replicas,
        can_happen(config, turns),
    ensures
        is_explained(
            config,
            after_turns(config, turns).0,
            after_turns(config, turns).1,
            pages_read(turns),
            seen(config, turns),
        ),
    decreases turns.len(),
{
    if turns.len() > 0 {
        let earlier = turns.drop_last();
        let Turn { event, decided } = turns.last();
        lemma_explained(config, earlier);
        cycle_knows_its_pages(config, earlier);
        cycle_knows_its_pages(config, turns);
        let (tick, call) = after_turns(config, earlier);
        let pages = pages_read(turns);
        let before = seen(config, earlier);
        let now = seen(config, turns);
        let (next, _) = after_turns(config, turns);
        match (tick.phase, event) {
            (PhaseView::Jobs(_), Event::Jobs(_)) => {
                assert(pages.drop_last() =~= pages_read(earlier));
                busy_runners_are_the_working_ones(config.max_replicas as nat, pages_read(earlier));
                busy_runners_are_the_working_ones(config.max_replicas as nat, pages);
                lemma_busy_on(pages);
            },
            (PhaseView::RunnerPods { target }, Event::Pods(pods)) => {
                let running = running_names(pods@);
                let idle = idle_names(running, busy_on(pages));
                lemma_filter_is_no_longer(
                    running,
                    |name: Seq<char>| !busy_on(pages).contains(name),
                );
                lemma_filter_is_no_longer(pods@, |pod: Pod| is_running(pod));
                assert(idle.take(idle.len() as int) =~= idle);
                assert(idle.take(0) =~= Seq::empty());
                assert(to_remove(config, pages, pods@).take(0) =~= Seq::empty());
                assert(now.tried =~= Seq::empty());
            },
            (PhaseView::DeletingPods(removal), _) => {
                let all = removal.removable;
                let count = before.tried.len() as int;
                assert(all.take(count).push(all[count]) =~= all.take(count + 1));
                assert(all.take(all.len() as int) =~= all);
            },
            (PhaseView::Runners, Event::Runners(response)) => {
                let live = live_names(before.live_pods->0);
                lemma_filter_is_no_longer(
                    response.runners@,
                    |runner: Runner| is_stale(runner, live, busy_on(pages)),
                );
                assert(response.runners.len() == response.runners@.len());
                assert(stale(pages, now).take(0) =~= Seq::empty());
                assert(now.removed =~= Seq::empty());
                assert(stale(pages, now).len() == 0 ==> stale(pages, now) =~= Seq::empty());
            },
            (PhaseView::DeletingRunners(cleanup), Event::Done) => {
                let all = stale(pages, now);
                let count = before.removed.len() as int;
                assert(all.take(count).push(all[count]) =~= all.take(count + 1));
                assert(all.take(all.len() as int) =~= all);
            },
            _ => {},
        }
    }
}

/// Each call can fail, and can succeed with whatever it asks for. Only a list of pods to remove
/// some of has a limit: a Deployment has no more pods than a replica count can say. A cycle that
/// has ended makes no call.
pub proof fn calls_can_end_either_way(config: Config, turns: Seq<Turn>, event: Event)
    requires
        0 <= config.min_replicas <= config.max_replicas,
        can_happen(config, turns),
    ensures
        after_turns(config, turns).0.expects(event) <==> match after_turns(config, turns).1 {
            ActionView::ListLivePods => event is Failed || event is Pods,
            ActionView::FetchJobs { .. } => event is Failed || event is Jobs,
            ActionView::GetDeployment => event is Failed || event is Deployment,
            ActionView::ListRunnerPods => event is Failed || (event is Pods && event->Pods_0@.len()
                <= i32::MAX),
            ActionView::ListRunners => event is Failed || event is Runners,
            ActionView::Scale { .. } | ActionView::DeletePod { .. } | ActionView::DeleteRunner {
                ..
            } => event is Failed || event is Done,
            ActionView::Finish(_) => false,
        },
{
    lemma_explained(config, turns);
}

/// Whether a cycle is past reading the job list and has not ended.
pub open spec fn is_past_the_list(call: ActionView) -> bool {
    !(call is ListLivePods || call is FetchJobs || call is Finish)
}

/// The job list is read from page one on, page by page. While pages are asked for, none of the
/// pages so far was the end of the list and fewer runners are busy than there may be replicas; the
/// cycle goes on from the list where one of these no longer holds.
pub proof fn job_list_is_read_as_far_as_needed(config: Config, turns: Seq<Turn>)
    requires
        0 <= config.min_replicas <= config.max_replicas,
        can_happen(config, turns),
    ensures
        ({
            let pages = pages_read(turns);
            let call = after_turns(config, turns).1;
            let reads_on = !whole_list(pages) && busy_on(pages).len() < config.max_replicas;
            &&& call is ListLivePods ==> pages.len() == 0
            &&& call matches ActionView::FetchJobs { page } ==> page == pages.len() + 1 && (
            pages.len() > 0 ==> reads_on)
            &&& is_past_the_list(call) ==> pages.len() > 0 && !reads_on
        }),
{
    lemma_explained(config, turns);
    cycle_knows_its_pages(config, turns);
    let (tick, call) = after_turns(config, turns);
    let pages = pages_read(turns);
    if call is FetchJobs || is_past_the_list(call) {
        busy_runners_are_the_working_ones(config.max_replicas as nat, pages);
        if pages.len() > 0 {
            busy_runners_are_the_working_ones(config.max_replicas as nat, pages.drop_last());
        }
        lemma_busy_on(pages);
    }
}

/// While a cycle waits for the Deployment it holds the counts of the job list, and wants one runner
/// for each job, but no fewer than are busy, brought within the bounds.
pub proof fn wanted_count_is_that_of_the_jobs(config: Config, turns: Seq<Turn>)
    requires
        0 <= config.min_replicas <= config.max_replicas,
        can_happen(config, turns),
    ensures
        after_turns(config, turns).1 is GetDeployment <==> after_turns(
            config,
            turns,
        ).0.phase is Deployment,
        after_turns(config, turns).0.phase matches PhaseView::Deployment { desired, jobs } ==> {
            let pages = pages_read(turns);
            let running = busy_on(pages).len();
            &&& are_counts_of(jobs, pages)
            &&& desired == wanted(config, pages)
            &&& config.min_replicas <= jobs.queued + running <= config.max_replicas ==> desired
                == jobs.queued + running
            &&& jobs.queued + running < config.min_replicas ==> desired == config.min_replicas
            &&& jobs.queued + running > config.max_replicas ==> desired == config.max_replicas
        },
{
    lemma_explained(config, turns);
}

/// What the Deployment decides. A shortage is made up at once, by setting the wanted count. A
/// surplus starts a cooldown, or lets one go on that has started; when it is over pods are removed,
/// unless there are pages of the job list that were not read. `before` and `since` say since when
/// there has been a surplus, before the Deployment was read and after it.
pub proof fn deployment_is_held_against_the_wanted_count(
    config: Config,
    turns: Seq<Turn>,
    deployment: Deployment,
    before: Option<Instant>,
    since: Option<Instant>,
    decided: ScaleDecision,
)
    requires
        0 <= config.min_replicas <= config.max_replicas,
        can_happen(config, turns),
        after_turns(config, turns).1 is GetDeployment,
        after_turns(config, turns).0.since_follows(Event::Deployment(deployment), before, since),
        after_turns(config, turns).0.may_decide(Event::Deployment(deployment), since, decided),
    ensures
        ({
            let pages = pages_read(turns);
            let current = replicas_of(deployment);
            let desired = wanted(config, pages);
            let (tick, call) = after_turns(config, turns).0.next(
                Event::Deployment(deployment),
                decided,
            );
            &&& tick.report matches Some(report) && report.current == current && report.desired
                == desired && report.decision == decided && report.pods is None && are_counts_of(
                report.jobs,
                pages,
            )
            &&& current < desired ==> call == (ActionView::Scale { replicas: desired }) && decided
                == ScaleDecision::ScaleUp && since is None
            &&& current == desired ==> call == ActionView::ListRunners && decided
                == ScaleDecision::Noop && since is None
            &&& current > desired ==> {
                &&& since is Some
                &&& before is Some ==> since == before
                &&& before is None ==> call_ensures(Instant::now, (), since->0)
                &&& exists|secs: u64|
                    {
                        &&& #[trigger] can_have_passed(since->0, secs)
                        &&& secs < config.scale_down_delay ==> call == ActionView::ListRunners
                            && decided == (ScaleDecision::WaitCooldown {
                            remaining: (config.scale_down_delay - secs) as u64,
                        })
                        &&& secs >= config.scale_down_delay ==> decided == ScaleDecision::ScaleDown
                            && call == if whole_list(pages) {
                            ActionView::ListRunnerPods
                        } else {
                            ActionView::ListRunners
                        }
                    }
            }
        }),
{
    lemma_explained(config, turns);
    let tick = after_turns(config, turns).0;
    let desired = wanted(config, pages_read(turns)) as i32;
    let current = replicas_of(deployment);
    if current > desired {
        assert(decision_since(
            current,
            desired,
            config.scale_down_delay,
            since,
            decided,
        ));
        let secs = choose|secs: u64|
            {
                &&& since matches Some(started_at) ==> can_have_passed(started_at, secs)
                &&& decided == #[trigger] decision(
                    current,
                    desired,
                    config.scale_down_delay,
                    secs,
                )
            };
        assert(can_have_passed(since->0, secs));
    }
}

/// Nothing but reading the Deployment changes since when there has been a surplus.
pub proof fn cooldown_is_left_alone_otherwise(
    config: Config,
    turns: Seq<Turn>,
    event: Event,
    before: Option<Instant>,
    since: Option<Instant>,
)
    requires
        0 <= config.min_replicas <= config.max_replicas,
        can_happen(config, turns),
        after_turns(config, turns).0.since_follows(event, before, since),
        !(after_turns(config, turns).1 is GetDeployment && event is Deployment),
    ensures
        since == before,
{
    lemma_explained(config, turns);
}

/// A cycle deletes only pods that are listed as running and idle, in order. It has deleted no more
/// of them, in all, than run beyond the wanted count, and it has a Deployment with more replicas
/// than that and the whole job list.
pub proof fn pods_are_deleted_down_to_the_wanted_count(config: Config, turns: Seq<Turn>)
    requires
        0 <= config.min_replicas <= config.max_replicas,
        can_happen(config, turns),
    ensures
        ({
            let pages = pages_read(turns);
            let seen = seen(config, turns);
            after_turns(config, turns).1 matches ActionView::DeletePod { name } ==> {
                let running = running_names(seen.pods->0);
                let idle = idle_names(running, busy_on(pages));
                let count = seen.tried.len();
                &&& seen.pods is Some
                &&& whole_list(pages)
                &&& count < idle.len()
                &&& count + 1 <= running.len() - wanted(config, pages)
                &&& name == idle[count as int]
                &&& seen.tried == idle.take(count as int)
                &&& seen.scaled is None
                &&& after_turns(config, turns).0.report matches Some(report) && report.decision
                    == ScaleDecision::ScaleDown
            }
        }),
{
    lemma_explained(config, turns);
    let seen = seen(config, turns);
    if after_turns(config, turns).1 is DeletePod {
        let idle = idle_names(running_names(seen.pods->0), busy_on(pages_read(turns)));
        let all = to_remove(config, pages_read(turns), seen.pods->0);
        assert(all.take(seen.tried.len() as int) =~= idle.take(seen.tried.len() as int));
    }
}

/// Where a cycle turns to stale registrations, it has done about the replica count what it decided
/// to do. A shortage was made up. For a surplus, every running pod that is idle and too many was to
/// be deleted, and the replica count is the number of running pods that are left; it was left alone
/// where no pod was to be deleted, and where part of the job list was not read. Else nothing was
/// done.
pub proof fn decision_is_carried_out(config: Config, turns: Seq<Turn>)
    requires
        0 <= config.min_replicas <= config.max_replicas,
        can_happen(config, turns),
    ensures
        ({
            let pages = pages_read(turns);
            let seen = seen(config, turns);
            let (tick, call) = after_turns(config, turns);
            (call is ListRunners || call is DeleteRunner || (call matches ActionView::Finish(outcome)
                && outcome is Cleaned)) ==> {
                &&& seen.deployment is Some
                &&& tick.report matches Some(report) && is_report_of(report, config, pages, seen)
                    && match report.decision {
                    ScaleDecision::ScaleUp => seen.pods is None && seen.scaled == Some(
                        wanted(config, pages),
                    ),
                    ScaleDecision::ScaleDown => if whole_list(pages) {
                        let running = running_names(seen.pods->0);
                        let idle = idle_names(running, busy_on(pages));
                        let surplus = running.len() - wanted(config, pages);
                        &&& seen.pods is Some
                        &&& surplus <= 0 || idle.len() == 0 ==> seen.tried.len() == 0
                            && seen.scaled is None
                        &&& surplus > 0 && 0 < idle.len() <= surplus ==> seen.tried == idle
                            && seen.scaled == Some(running.len() - seen.deleted)
                        &&& 0 < surplus < idle.len() ==> seen.tried == idle.take(surplus)
                            && seen.scaled == Some(running.len() - seen.deleted)
                    } else {
                        seen.pods is None && seen.scaled is None
                    },
                    _ => seen.pods is None && seen.scaled is None,
                }
            }
        }),
{
    lemma_explained(config, turns);
    let (tick, call) = after_turns(config, turns);
    let seen = seen(config, turns);
    if seen.pods is Some {
        let idle = idle_names(running_names(seen.pods->0), busy_on(pages_read(turns)));
        assert(idle.take(idle.len() as int) =~= idle);
    }
}

/// The replica count is set to the wanted count, where that is more than there is. Otherwise it is
/// set to the number of running pods less those that were deleted, after all that are idle and too
/// many were tried, and it is then not below the wanted count.
pub proof fn replica_count_is_what_is_wanted_or_left(config: Config, turns: Seq<Turn>)
    requires
        0 <= config.min_replicas <= config.max_replicas,
        can_happen(config, turns),
    ensures
        ({
            let pages = pages_read(turns);
            let seen = seen(config, turns);
            after_turns(config, turns).1 matches ActionView::Scale { replicas } ==> {
                &&& seen.scaled is None
                &&& after_turns(config, turns).0.report matches Some(report)
                    && match report.decision {
                    ScaleDecision::ScaleUp => seen.pods is None && replicas == wanted(
                        config,
                        pages,
                    ),
                    ScaleDecision::ScaleDown => seen.pods is Some && seen.tried.len() > 0
                        && seen.tried == to_remove(config, pages, seen.pods->0) && replicas
                        == running_names(seen.pods->0).len() - seen.deleted,
                    _ => false,
                }
            }
        }),
{
    lemma_explained(config, turns);
}

/// Registrations are deleted in order, each once: those of the stale runners of the list, as the
/// pods that were live at the start of the cycle and the busy runners have it.
pub proof fn stale_registrations_are_deleted_in_order(config: Config, turns: Seq<Turn>)
    requires
        0 <= config.min_replicas <= config.max_replicas,
        can_happen(config, turns),
    ensures
        ({
            let seen = seen(config, turns);
            after_turns(config, turns).1 matches ActionView::DeleteRunner { id, name } ==> {
                let all = stale_runners(
                    seen.runners->0,
                    live_names(seen.live_pods->0),
                    busy_on(pages_read(turns)),
                );
                let count = seen.removed.len() as int;
                &&& seen.runners is Some && seen.live_pods is Some
                &&& count < all.len()
                &&& all[count].id == id && all[count].name@ == name
                &&& forall|i: int|
                    0 <= i < count ==> #[trigger] seen.removed[i] == (all[i].id, all[i].name@)
            }
        }),
{
    lemma_explained(config, turns);
}

/// A cycle ends as cleaned only when every stale registration of the list is deleted, and it says
/// how many deletions succeeded.
pub proof fn every_stale_registration_is_deleted(config: Config, turns: Seq<Turn>)
    requires
        0 <= config.min_replicas <= config.max_replicas,
        can_happen(config, turns),
    ensures
        ({
            let seen = seen(config, turns);
            after_turns(config, turns).1 matches ActionView::Finish(Outcome::Cleaned { removed })
                ==> {
                let all = stale_runners(
                    seen.runners->0,
                    live_names(seen.live_pods->0),
                    busy_on(pages_read(turns)),
                );
                &&& seen.runners is Some && seen.live_pods is Some
                &&& removed == seen.removed.len()
                &&& seen.removed.len() == all.len()
                &&& forall|i: int|
                    0 <= i < all.len() ==> #[trigger] seen.removed[i] == (all[i].id, all[i].name@)
            }
        }),
{
    lemma_explained(config, turns);
    let seen = seen(config, turns);
    if after_turns(config, turns).1 is Finish {
        assert(seen.removed == stale(pages_read(turns), seen) ==> forall|i: int|
            0 <= i < seen.removed.len() ==> #[trigger] seen.removed[i] == stale(
                pages_read(turns),
                seen,
            )[i]);
    }
}

/// A call that fails ends the cycle, as failed before stale registrations are turned to and as a
/// failed clean-up after that, but for the deletion of a pod. No call that succeeds ends it but one
/// about registrations.
pub proof fn failed_calls_end_the_cycle(config: Config, turns: Seq<Turn>)
    requires
        0 <= config.min_replicas <= config.max_replicas,
        can_happen(config, turns),
        turns.len() > 0,
    ensures
        ({
            let ended = after_turns(config, turns.drop_last()).1;
            let call = after_turns(config, turns).1;
            let failed = turns.last().event is Failed;
            let about_runners = ended is ListRunners || ended is DeleteRunner;
            &&& call == ActionView::Finish(Outcome::Failed) <==> failed && !about_runners && !(
            ended is DeletePod)
            &&& call == ActionView::Finish(Outcome::CleanupFailed) <==> failed && about_runners
            &&& call is Finish ==> failed || about_runners
            &&& ended is Scale && !failed ==> call is ListRunners
            &&& ended is DeletePod ==> call is DeletePod || call is Scale
            &&& ended is ListLivePods && !failed ==> call is FetchJobs
            &&& ended is FetchJobs && !failed ==> call is FetchJobs || call is GetDeployment
            &&& ended is ListRunnerPods && !failed ==> call is DeletePod || call is ListRunners
            &&& about_runners && !failed ==> call is DeleteRunner || call is Finish
        }),
{
    lemma_explained(config, turns);
    lemma_explained(config, turns.drop_last());
}

/// The report of a cycle is there once the Deployment was read, and says what was seen. It says
/// that scaling down was put off exactly where it was decided on a part of the job list, and that
/// all pods were busy exactly where too many run and each has the name of a busy runner.
pub proof fn report_says_what_was_seen(config: Config, turns: Seq<Turn>)
    requires
        0 <= config.min_replicas <= config.max_replicas,
        can_happen(config, turns),
    ensures
        ({
            let pages = pages_read(turns);
            let seen = seen(config, turns);
            let (tick, call) = after_turns(config, turns);
            !(call is Finish) ==> {
                &&& tick.report is Some <==> seen.deployment is Some
                &&& tick.report matches Some(report) ==> {
                    &&& is_report_of(report, config, pages, seen)
                    &&& report.lacks_busy_runners() <==> report.decision == ScaleDecision::ScaleDown
                        && !whole_list(pages)
                    &&& report.found_all_busy() <==> seen.pods is Some && {
                        let running = running_names(seen.pods->0);
                        running.len() > wanted(config, pages) && forall|i: int|
                            0 <= i < running.len() ==> busy_on(pages).contains(
                                #[trigger] running[i],
                            )
                    }
                }
            }
        }),
{
    lemma_explained(config, turns);
    let seen = seen(config, turns);
    if seen.pods is Some {
        surplus_of_idle_pods_is_removed(
            running_names(seen.pods->0),
            wanted(config, pages_read(turns)),
            busy_on(pages_read(turns)),
        );
    }
}

/// Where a job on a page that the cycle read is in progress and names a runner, whatever its name,
/// that runner is busy: the cycle deletes neither the pod nor the registration of that name.
pub proof fn runners_in_progress_are_left_alone(config: Config, turns: Seq<Turn>, p: int, i: int)
    requires
        0 <= config.min_replicas <= config.max_replicas,
        can_happen(config, turns),
        0 <= p < pages_read(turns).len(),
        0 <= i < pages_read(turns)[p].jobs.len(),
        pages_read(turns)[p].jobs[i].status@ == "in_progress"@,
        pages_read(turns)[p].jobs[i].runner_name@.len() != 0,
    ensures
        ({
            let name = pages_read(turns)[p].jobs[i].runner_name@;
            let (tick, call) = after_turns(config, turns);
            &&& is_past_the_list(call) ==> tick.busy_runners.contains(name)
            &&& call != (ActionView::DeletePod { name })
            &&& call matches ActionView::DeleteRunner { name: other, .. } ==> other != name
        }),
{
    lemma_explained(config, turns);
    let pages = pages_read(turns);
    let name = pages[p].jobs[i].runner_name@;
    let (tick, call) = after_turns(config, turns);
    let seen = seen(config, turns);
    assert(works_at(name, pages, p, i));
    assert(busy_on(pages).contains(name));
    cycle_knows_its_pages(config, turns);
    if let PhaseView::DeletingRunners(cleanup) = tick.phase {
        assert(is_stale(
            cleanup.stale[cleanup.next as int],
            tick.live_runner_names,
            tick.busy_runners,
        ));
    }
}

/// What an action says is what it holds.
pub proof fn actions_say_what_they_hold(page: u64, replicas: i32, name: String, outcome: Outcome)
    ensures
        Action::ListLivePods@ == ActionView::ListLivePods,
        (Action::FetchJobs { page })@ == (ActionView::FetchJobs { page: page as nat }),
        Action::GetDeployment@ == ActionView::GetDeployment,
        (Action::Scale { replicas })@ == (ActionView::Scale { replicas: replicas as int }),
        Action::ListRunnerPods@ == ActionView::ListRunnerPods,
        (Action::DeletePod { name })@ == (ActionView::DeletePod { name: name@ }),
        Action::ListRunners@ == ActionView::ListRunners,
        (Action::DeleteRunner { id: page, name })@ == (ActionView::DeleteRunner {
            id: page,
            name: name@,
        }),
        Action::Finish(outcome)@ == ActionView::Finish(outcome),
{
}

/// The report changes only where the Deployment is read, and where pods are listed to remove some,
/// which adds what was found among them. It stays to the end of the cycle.
pub proof fn report_is_kept(config: Config, turns: Seq<Turn>)
    requires
        0 <= config.min_replicas <= config.max_replicas,
        can_happen(config, turns),
        turns.len() > 0,
    ensures
        ({
            let (earlier, ended) = after_turns(config, turns.drop_last());
            let report = after_turns(config, turns).0.report;
            match turns.last().event {
                Event::Deployment(_) => earlier.report is None && report is Some,
                Event::Pods(_) if ended is ListRunnerPods => {
                    &&& earlier.report is Some && report is Some
                    &&& report->0.current == earlier.report->0.current
                    &&& report->0.desired == earlier.report->0.desired
                    &&& report->0.jobs == earlier.report->0.jobs
                    &&& report->0.decision == earlier.report->0.decision
                    &&& earlier.report->0.pods is None && report->0.pods is Some
                },
                _ => report == earlier.report,
            }
        }),
{
    lemma_explained(config, turns);
    lemma_explained(config, turns.drop_last());
}

} // verus!
