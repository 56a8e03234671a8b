//! One polling cycle: which outside call to make next, given how the last one ended.
use crate::config::Config;
use crate::decision::{
    clamped, decide_scale_action, decision_since, desired_replicas, surplus_follows, ScaleDecision,
};
use crate::gitea::{GiteaClient, JobsResponse, RunnersResponse};
use crate::jobs::{JobScan, JobSummary, ScanStep, ScanStepView, ScanView, SummaryView};
use crate::runners::{stale_runners, Cleanup, CleanupView};
use crate::scaler::{
    idle_names, live_names, replicas_of, running_names, scale_down, views, Deployment, Pod,
    ScaleDown, ScaleDownView, Scaler,
};
use std::time::Instant;
use vstd::hash_set::StringHashSet;
use vstd::prelude::*;

verus! {

/// How a cycle ended.
#[derive(Debug, Clone, Copy, PartialEq, Eq, Structural)]
pub enum Outcome {
    /// A call failed before the replica count was settled.
    Failed,
    /// The replica count was settled and this many stale registrations were removed.
    Cleaned { removed: usize },
    /// The replica count was settled, but a call failed while stale registrations were removed.
    CleanupFailed,
}

/// The outside call to make next.
#[derive(Debug)]
pub enum Action {
    /// List the Deployment's pods, to learn which are live.
    ListLivePods,
    /// Get a page of the job list.
    FetchJobs { page: u64 },
    /// Get the Deployment.
    GetDeployment,
    /// Set the Deployment's replica count.
    Scale { replicas: i32 },
    /// List the Deployment's pods, to learn which run.
    ListRunnerPods,
    /// Delete a pod.
    DeletePod { name: String },
    /// Get the list of runners.
    ListRunners,
    /// Delete the registration of a runner.
    DeleteRunner { id: u64, name: String },
    /// None: the cycle is over.
    Finish(Outcome),
}

/// What an [`Action`] says.
pub enum ActionView {
    ListLivePods,
    FetchJobs { page: nat },
    GetDeployment,
    Scale { replicas: int },
    ListRunnerPods,
    DeletePod { name: Seq<char> },
    ListRunners,
    DeleteRunner { id: u64, name: Seq<char> },
    Finish(Outcome),
}

impl View for Action {
    type V = ActionView;

    open spec fn view(&self) -> ActionView {
        match self {
            Action::ListLivePods => ActionView::ListLivePods,
            Action::FetchJobs { page } => ActionView::FetchJobs { page: *page as nat },
            Action::GetDeployment => ActionView::GetDeployment,
            Action::Scale { replicas } => ActionView::Scale { replicas: *replicas as int },
            Action::ListRunnerPods => ActionView::ListRunnerPods,
            Action::DeletePod { name } => ActionView::DeletePod { name: name@ },
            Action::ListRunners => ActionView::ListRunners,
            Action::DeleteRunner { id, name } => ActionView::DeleteRunner { id: *id, name: name@ },
            Action::Finish(outcome) => ActionView::Finish(*outcome),
        }
    }
}

/// How an outside call ended.
#[derive(Debug)]
pub enum Event {
    /// It failed.
    Failed,
    /// It succeeded and has nothing to say.
    Done,
    /// The pods that were listed.
    Pods(Vec<Pod>),
    /// The page of the job list.
    Jobs(JobsResponse),
    /// The Deployment.
    Deployment(Deployment),
    /// The list of runners.
    Runners(RunnersResponse),
}

/// What a cycle found in the job list.
#[derive(Debug, Clone, Copy, PartialEq, Eq, Structural)]
pub struct JobCounts {
    /// The number of queued and running jobs.
    pub total_count: u64,
    /// The number of jobs that no busy runner accounts for.
    pub queued: u64,
    /// The number of busy runners.
    pub running: usize,
    /// Whether the list was read to its end.
    pub read_to_end: bool,
}

/// What a cycle found among the pods, where it was to remove some.
#[derive(Debug, Clone, Copy, PartialEq, Eq, Structural)]
pub struct PodCounts {
    /// The number of running pods.
    pub current: i32,
    /// The number of those that no busy runner is named after.
    pub idle: usize,
}

/// What a cycle decided about the replica count, and from what.
#[derive(Debug, Clone, Copy, PartialEq, Eq, Structural)]
pub struct Report {
    pub current: i32,
    pub desired: i32,
    pub jobs: JobCounts,
    pub decision: ScaleDecision,
    /// What was found among the pods, once they were listed to remove some.
    pub pods: Option<PodCounts>,
}

impl Report {
    /// Whether scaling down was decided, but not all busy runners are known.
    pub open spec fn lacks_busy_runners(self) -> bool {
        self.decision is ScaleDown && !self.jobs.read_to_end
    }

    /// Whether pods were to be removed, but all of them were busy.
    pub open spec fn found_all_busy(self) -> bool {
        self.pods matches Some(pods) && pods.current > self.desired && pods.idle == 0
    }

    /// Whether scaling down was decided but put off, because the job list was not read to its end.
    pub fn puts_off_scale_down(&self) -> (r: bool)
        ensures
            r == self.lacks_busy_runners(),
    {
        matches!(self.decision, ScaleDecision::ScaleDown) && !self.jobs.read_to_end
    }

    /// Whether pods were to be removed, but all of them were busy.
    pub fn all_pods_busy(&self) -> (r: bool)
        ensures
            r == self.found_all_busy(),
    {
        match self.pods {
            Some(pods) => pods.current > self.desired && pods.idle == 0,
            None => false,
        }
    }
}

enum Phase {
    LivePods,
    Jobs(JobScan),
    Deployment { desired: i32, jobs: JobCounts },
    Scaling,
    RunnerPods { target: i32 },
    DeletingPods(ScaleDown),
    Runners,
    DeletingRunners(Cleanup),
    Finished,
}

/// The call whose end a cycle waits for.
#[verifier::ext_equal]
pub enum PhaseView {
    /// Listing the pods, to learn which are live.
    LivePods,
    /// Reading the job list.
    Jobs(ScanView),
    /// Reading the Deployment, where `desired` replicas are wanted.
    Deployment { desired: int, jobs: JobCounts },
    /// Setting the replica count.
    Scaling,
    /// Listing the pods, to remove some until `target` are left.
    RunnerPods { target: int },
    /// Deleting the next pod.
    DeletingPods(ScaleDownView),
    /// Listing the runners.
    Runners,
    /// Deleting the next stale registration.
    DeletingRunners(CleanupView),
    /// None: the cycle is over.
    Finished,
}

impl PhaseView {
    /// Where pods or registrations are deleted, one of them is next.
    pub open spec fn has_next(self) -> bool {
        match self {
            PhaseView::DeletingPods(removal) => removal.next_pod() is Some,
            PhaseView::DeletingRunners(cleanup) => cleanup.next_runner() is Some,
            _ => true,
        }
    }
}

impl View for Phase {
    type V = PhaseView;

    closed spec fn view(&self) -> PhaseView {
        match self {
            Phase::LivePods => PhaseView::LivePods,
            Phase::Jobs(scan) => PhaseView::Jobs(scan@),
            Phase::Deployment { desired, jobs } => PhaseView::Deployment {
                desired: *desired as int,
                jobs: *jobs,
            },
            Phase::Scaling => PhaseView::Scaling,
            Phase::RunnerPods { target } => PhaseView::RunnerPods { target: *target as int },
            Phase::DeletingPods(removal) => PhaseView::DeletingPods(removal@),
            Phase::Runners => PhaseView::Runners,
            Phase::DeletingRunners(cleanup) => PhaseView::DeletingRunners(cleanup@),
            Phase::Finished => PhaseView::Finished,
        }
    }
}

/// A polling cycle.
pub struct Tick {
    min_replicas: i32,
    max_replicas: i32,
    cooldown_secs: u64,
    live_runner_names: StringHashSet,
    busy_runners: StringHashSet,
    report: Option<Report>,
    phase: Phase,
}

/// What a [`Tick`] holds.
#[verifier::ext_equal]
pub struct TickView {
    pub min_replicas: int,
    pub max_replicas: int,
    pub cooldown_secs: nat,
    /// The names of the live pods.
    pub live_runner_names: Set<Seq<char>>,
    /// The names of the busy runners.
    pub busy_runners: Set<Seq<char>>,
    pub report: Option<Report>,
    pub phase: PhaseView,
}

impl View for Tick {
    type V = TickView;

    closed spec fn view(&self) -> TickView {
        TickView {
            min_replicas: self.min_replicas as int,
            max_replicas: self.max_replicas as int,
            cooldown_secs: self.cooldown_secs as nat,
            live_runner_names: self.live_runner_names@,
            busy_runners: self.busy_runners@,
            report: self.report,
            phase: self.phase@,
        }
    }
}

impl TickView {
    /// A cycle before its first call.
    pub open spec fn first(min_replicas: int, max_replicas: int, cooldown_secs: nat) -> TickView {
        TickView {
            min_replicas,
            max_replicas,
            cooldown_secs,
            live_runner_names: Set::empty(),
            busy_runners: Set::empty(),
            report: None,
            phase: PhaseView::LivePods,
        }
    }

    /// Whether the cycle waits for a call that can end like this. A Deployment can have no more
    /// pods than its replica count can say.
    pub open spec fn expects(self, event: Event) -> bool {
        match self.phase {
            PhaseView::LivePods => event is Failed || event is Pods,
            PhaseView::Jobs(_) => event is Failed || event is Jobs,
            PhaseView::Deployment { .. } => event is Failed || event is Deployment,
            PhaseView::Scaling => event is Failed || event is Done,
            PhaseView::RunnerPods { .. } => match event {
                Event::Failed => true,
                Event::Pods(pods) => pods@.len() <= i32::MAX,
                _ => false,
            },
            PhaseView::DeletingPods(_) => event is Failed || event is Done,
            PhaseView::Runners => event is Failed || event is Runners,
            PhaseView::DeletingRunners(_) => event is Failed || event is Done,
            PhaseView::Finished => false,
        }
    }

    /// The cycle in another phase.
    pub open spec fn entering(self, phase: PhaseView) -> TickView {
        TickView { phase, ..self }
    }

    /// The cycle ends.
    pub open spec fn finish(self, outcome: Outcome) -> (TickView, ActionView) {
        (self.entering(PhaseView::Finished), ActionView::Finish(outcome))
    }

    /// The cycle goes on to read the job list.
    pub open spec fn read_jobs(self, scan: ScanView) -> (TickView, ActionView) {
        (self.entering(PhaseView::Jobs(scan)), ActionView::FetchJobs { page: scan.page })
    }

    /// The cycle knows the job list, and how many replicas are wanted.
    pub open spec fn know_jobs(self, summary: SummaryView) -> (TickView, ActionView) {
        let desired = clamped(
            (summary.queued + summary.busy_runners.len()) as int,
            self.min_replicas,
            self.max_replicas,
        );
        (
            TickView {
                busy_runners: summary.busy_runners,
                phase: PhaseView::Deployment {
                    desired,
                    jobs: JobCounts {
                        total_count: summary.total_count as u64,
                        queued: summary.queued as u64,
                        running: summary.busy_runners.len() as usize,
                        read_to_end: summary.read_to_end,
                    },
                },
                ..self
            },
            ActionView::GetDeployment,
        )
    }

    /// The cycle acts on its decision. It removes pods only where it knows all busy runners.
    pub open spec fn act(
        self,
        current: i32,
        desired: int,
        jobs: JobCounts,
        decided: ScaleDecision,
    ) -> (TickView, ActionView) {
        let reported = TickView {
            report: Some(
                Report { current, desired: desired as i32, jobs, decision: decided, pods: None },
            ),
            ..self
        };
        match decided {
            ScaleDecision::ScaleUp => reported.scale(desired),
            ScaleDecision::ScaleDown => if jobs.read_to_end {
                (
                    reported.entering(PhaseView::RunnerPods { target: desired }),
                    ActionView::ListRunnerPods,
                )
            } else {
                reported.clean_up()
            },
            ScaleDecision::WaitCooldown { .. } | ScaleDecision::Noop => reported.clean_up(),
        }
    }

    /// The cycle knows the running pods, by name, of which some are to be removed.
    pub open spec fn know_pods(self, pods: Seq<Seq<char>>) -> TickView {
        TickView {
            report: match self.report {
                Some(report) => Some(
                    Report {
                        pods: Some(
                            PodCounts {
                                current: pods.len() as i32,
                                idle: idle_names(pods, self.busy_runners).len() as usize,
                            },
                        ),
                        ..report
                    },
                ),
                None => None,
            },
            ..self
        }
    }

    /// The cycle sets the replica count.
    pub open spec fn scale(self, replicas: int) -> (TickView, ActionView) {
        (self.entering(PhaseView::Scaling), ActionView::Scale { replicas })
    }

    /// The cycle deletes the next pod of a removal, or settles the replica count after it.
    pub open spec fn remove_pods(self, removal: ScaleDownView) -> (TickView, ActionView) {
        match removal.next_pod() {
            Some(name) => (
                self.entering(PhaseView::DeletingPods(removal)),
                ActionView::DeletePod { name },
            ),
            None => self.scale(removal.new_count()),
        }
    }

    /// The cycle turns to stale registrations.
    pub open spec fn clean_up(self) -> (TickView, ActionView) {
        (self.entering(PhaseView::Runners), ActionView::ListRunners)
    }

    /// The cycle deletes the next stale registration, or ends after the last.
    pub open spec fn remove_runners(self, cleanup: CleanupView) -> (TickView, ActionView) {
        match cleanup.next_runner() {
            Some(runner) => (
                self.entering(PhaseView::DeletingRunners(cleanup)),
                ActionView::DeleteRunner { id: runner.id, name: runner.name@ },
            ),
            None => self.finish(Outcome::Cleaned { removed: cleanup.stale.len() as usize }),
        }
    }

    /// The cycle after a call ended, and the call that it makes next. `decided` counts only where
    /// the Deployment was read.
    pub open spec fn next(self, event: Event, decided: ScaleDecision) -> (TickView, ActionView) {
        match (self.phase, event) {
            (PhaseView::LivePods, Event::Pods(pods)) => TickView {
                live_runner_names: live_names(pods@),
                ..self
            }.read_jobs(ScanView::first(self.max_replicas as nat)),
            (PhaseView::Jobs(scan), Event::Jobs(page)) => match scan.after_page(
                page.jobs@,
                page.total_count as nat,
            ) {
                ScanStepView::More(scan) => self.read_jobs(scan),
                ScanStepView::Done(summary) => self.know_jobs(summary),
            },
            (PhaseView::Deployment { desired, jobs }, Event::Deployment(deployment)) => self.act(
                replicas_of(deployment),
                desired,
                jobs,
                decided,
            ),
            (PhaseView::Scaling, Event::Done) => self.clean_up(),
            (PhaseView::RunnerPods { target }, Event::Pods(pods)) => match scale_down(
                running_names(pods@),
                target,
                self.busy_runners,
            ) {
                Some(removal) => self.know_pods(running_names(pods@)).remove_pods(removal),
                None => self.know_pods(running_names(pods@)).clean_up(),
            },
            (PhaseView::DeletingPods(removal), Event::Done) => self.remove_pods(
                removal.tried(true),
            ),
            (PhaseView::DeletingPods(removal), _) => self.remove_pods(removal.tried(false)),
            (PhaseView::Runners, Event::Runners(response)) => self.remove_runners(
                CleanupView {
                    stale: stale_runners(
                        response.runners@,
                        self.live_runner_names,
                        self.busy_runners,
                    ),
                    next: 0,
                },
            ),
            (PhaseView::DeletingRunners(cleanup), Event::Done) => self.remove_runners(
                cleanup.advanced(),
            ),
            (PhaseView::Runners, _) | (PhaseView::DeletingRunners(_), _) => self.finish(
                Outcome::CleanupFailed,
            ),
            _ => self.finish(Outcome::Failed),
        }
    }

    /// Whether `decided` is what the cycle can decide, where it decides anything and there has been
    /// a surplus for the time since `since`.
    pub open spec fn may_decide(
        self,
        event: Event,
        since: Option<Instant>,
        decided: ScaleDecision,
    ) -> bool {
        match (self.phase, event) {
            (
                PhaseView::Deployment { desired, .. },
                Event::Deployment(deployment),
            ) => decision_since(
                replicas_of(deployment),
                desired as i32,
                self.cooldown_secs as u64,
                since,
                decided,
            ),
            _ => true,
        }
    }

    /// Whether `after` is what the end of a call makes of `before`, the time since when there has
    /// been a surplus: only reading the Deployment can change it.
    pub open spec fn since_follows(
        self,
        event: Event,
        before: Option<Instant>,
        after: Option<Instant>,
    ) -> bool {
        match (self.phase, event) {
            (
                PhaseView::Deployment { desired, .. },
                Event::Deployment(deployment),
            ) => surplus_follows(before, replicas_of(deployment), desired as i32, after),
            _ => after == before,
        }
    }
}

impl Tick {
    #[verifier::type_invariant]
    spec fn well_formed(self) -> bool {
        0 <= self.min_replicas <= self.max_replicas && self.phase@.has_next()
    }

    /// Starts a cycle. Its first call is to list the live pods.
    pub fn new(config: &Config) -> (r: (Tick, Action))
        requires
            config@.well_formed(),
        ensures
            r.0@ == TickView::first(
                config@.min_replicas,
                config@.max_replicas,
                config@.scale_down_delay,
            ),
            r.1@ == ActionView::ListLivePods,
    {
        (
            Tick {
                min_replicas: config.min_replicas,
                max_replicas: config.max_replicas,
                cooldown_secs: config.scale_down_delay,
                live_runner_names: StringHashSet::new(),
                busy_runners: StringHashSet::new(),
                report: None,
                phase: Phase::LivePods,
            },
            Action::ListLivePods,
        )
    }

    /// What this cycle decided about the replica count, once it has.
    pub fn report(&self) -> (r: Option<Report>)
        ensures
            r == self@.report,
    {
        self.report
    }

    /// What this cycle found in the job list, while it waits for the Deployment.
    pub fn job_counts(&self) -> (r: Option<JobCounts>)
        ensures
            r == match self@.phase {
                PhaseView::Deployment { jobs, .. } => Some(jobs),
                _ => None,
            },
    {
        match &self.phase {
            Phase::Deployment { jobs, .. } => Some(*jobs),
            _ => None,
        }
    }

    /// Whether the cycle waits for a call that can end like this.
    pub fn expects(&self, event: &Event) -> (r: bool)
        ensures
            r == self@.expects(*event),
    {
        match (&self.phase, event) {
            (Phase::Finished, _) => false,
            (_, Event::Failed) => true,
            (Phase::LivePods, Event::Pods(_)) => true,
            (Phase::Jobs(_), Event::Jobs(_)) => true,
            (Phase::Deployment { .. }, Event::Deployment(_)) => true,
            (Phase::Scaling, Event::Done) => true,
            (Phase::RunnerPods { .. }, Event::Pods(pods)) => pods.len() <= i32::MAX as usize,
            (Phase::DeletingPods(_), Event::Done) => true,
            (Phase::Runners, Event::Runners(_)) => true,
            (Phase::DeletingRunners(_), Event::Done) => true,
            _ => false,
        }
    }

    /// Takes in how the last call ended, and says which call to make next. The clock is read where
    /// the Deployment was.
    pub fn step(self, event: &Event, scale_down_since: &mut Option<Instant>) -> (r: (Tick, Action))
        requires
            self@.expects(*event),
        ensures
            self@.since_follows(*event, *old(scale_down_since), *final(scale_down_since)),
            exists|decided: ScaleDecision|
                {
                    &&& self@.may_decide(*event, *final(scale_down_since), decided)
                    &&& (r.0@, r.1@) == #[trigger] self@.next(*event, decided)
                },
    {
        let decided: ScaleDecision = match (&self.phase, event) {
            (Phase::Deployment { desired, .. }, Event::Deployment(deployment)) => {
                decide_scale_action(
                    Scaler::get_replicas(deployment),
                    *desired,
                    self.cooldown_secs,
                    scale_down_since,
                )
            },
            _ => ScaleDecision::Noop,
        };
        assert(self@.may_decide(*event, *scale_down_since, decided));
        self.step_deciding(event, decided)
    }

    /// Takes in how the last call ended, and says which call to make next, where the decision is
    /// made already.
    pub fn step_deciding(self, event: &Event, decided: ScaleDecision) -> (r: (Tick, Action))
        requires
            self@.expects(*event),
        ensures
            (r.0@, r.1@) == self@.next(*event, decided),
    {
        proof {
            use_type_invariant(&self);
        }
        let Tick {
            min_replicas,
            max_replicas,
            cooldown_secs,
            live_runner_names,
            busy_runners,
            report,
            phase,
        } = self;
        let mut tick = Tick {
            min_replicas,
            max_replicas,
            cooldown_secs,
            live_runner_names,
            busy_runners,
            report,
            phase: Phase::Finished,
        };
        match (phase, event) {
            (Phase::LivePods, Event::Pods(pods)) => {
                tick.live_runner_names = Scaler::list_live_runner_pod_names(pods);
                tick.read_jobs(GiteaClient::get_jobs(max_replicas as u32))
            },
            (Phase::Jobs(scan), Event::Jobs(page)) => match scan.take_page(page) {
                ScanStep::More(scan) => tick.read_jobs(scan),
                ScanStep::Done(summary) => tick.know_jobs(summary),
            },
            (Phase::Deployment { desired, jobs }, Event::Deployment(deployment)) => tick.act(
                Scaler::get_replicas(deployment),
                desired,
                jobs,
                decided,
            ),
            (Phase::Scaling, Event::Done) => tick.clean_up(),
            (Phase::RunnerPods { target }, Event::Pods(pods)) => {
                let names: Vec<String> = Scaler::list_runner_pods(pods);
                let tick = tick.know_pods(&names);
                match Scaler::safe_scale_down(&names, target, &tick.busy_runners) {
                    Some(removal) => tick.remove_pods(removal),
                    None => tick.clean_up(),
                }
            },
            (Phase::DeletingPods(removal), Event::Done) => tick.remove_pods(removal.note(true)),
            (Phase::DeletingPods(removal), _) => tick.remove_pods(removal.note(false)),
            (Phase::Runners, Event::Runners(response)) => {
                let cleanup: Cleanup = GiteaClient::cleanup_offline_runners(
                    response.runners.as_slice(),
                    &tick.live_runner_names,
                    &tick.busy_runners,
                );
                tick.remove_runners(cleanup)
            },
            (Phase::DeletingRunners(cleanup), Event::Done) => tick.remove_runners(
                cleanup.advance(),
            ),
            (Phase::Runners, _) | (Phase::DeletingRunners(_), _) => tick.finish(
                Outcome::CleanupFailed,
            ),
            _ => tick.finish(Outcome::Failed),
        }
    }

    fn entering(self, phase: Phase) -> (r: Tick)
        requires
            phase@.has_next(),
        ensures
            r@ == self@.entering(phase@),
    {
        proof {
            use_type_invariant(&self);
        }
        Tick {
            min_replicas: self.min_replicas,
            max_replicas: self.max_replicas,
            cooldown_secs: self.cooldown_secs,
            live_runner_names: self.live_runner_names,
            busy_runners: self.busy_runners,
            report: self.report,
            phase,
        }
    }

    fn finish(self, outcome: Outcome) -> (r: (Tick, Action))
        ensures
            (r.0@, r.1@) == self@.finish(outcome),
    {
        (self.entering(Phase::Finished), Action::Finish(outcome))
    }

    fn read_jobs(self, scan: JobScan) -> (r: (Tick, Action))
        ensures
            (r.0@, r.1@) == self@.read_jobs(scan@),
    {
        let page: u64 = scan.page();
        (self.entering(Phase::Jobs(scan)), Action::FetchJobs { page })
    }

    fn know_jobs(self, summary: JobSummary) -> (r: (Tick, Action))
        ensures
            (r.0@, r.1@) == self@.know_jobs(summary@),
    {
        proof {
            use_type_invariant(&self);
        }
        let desired: i32 = desired_replicas(
            summary.queued,
            summary.busy_runners.len(),
            self.min_replicas,
            self.max_replicas,
        );
        let jobs = JobCounts {
            total_count: summary.total_count,
            queued: summary.queued,
            running: summary.busy_runners.len(),
            read_to_end: summary.read_to_end,
        };
        let mut tick = self.entering(Phase::Deployment { desired, jobs });
        tick.busy_runners = summary.busy_runners;
        (tick, Action::GetDeployment)
    }

    fn act(self, current: i32, desired: i32, jobs: JobCounts, decided: ScaleDecision) -> (r: (
        Tick,
        Action,
    ))
        ensures
            (r.0@, r.1@) == self@.act(current, desired as int, jobs, decided),
    {
        proof {
            use_type_invariant(&self);
        }
        let mut tick = self;
        tick.report = Some(Report { current, desired, jobs, decision: decided, pods: None });
        match decided {
            ScaleDecision::ScaleUp => tick.scale(desired),
            ScaleDecision::ScaleDown => if jobs.read_to_end {
                (tick.entering(Phase::RunnerPods { target: desired }), Action::ListRunnerPods)
            } else {
                tick.clean_up()
            },
            ScaleDecision::WaitCooldown { .. } | ScaleDecision::Noop => tick.clean_up(),
        }
    }

    fn know_pods(self, pods: &Vec<String>) -> (r: Tick)
        requires
            pods@.len() <= i32::MAX,
        ensures
            r@ == self@.know_pods(views(pods@)),
    {
        proof {
            use_type_invariant(&self);
        }
        let current: i32 = pods.len() as i32;
        let idle: usize = Scaler::idle_count(pods, &self.busy_runners);
        let mut tick = self;
        tick.report = match tick.report {
            Some(report) => Some(Report { pods: Some(PodCounts { current, idle }), ..report }),
            None => None,
        };
        tick
    }

    fn scale(self, replicas: i32) -> (r: (Tick, Action))
        ensures
            (r.0@, r.1@) == self@.scale(replicas as int),
    {
        (self.entering(Phase::Scaling), Action::Scale { replicas })
    }

    fn remove_pods(self, removal: ScaleDown) -> (r: (Tick, Action))
        ensures
            (r.0@, r.1@) == self@.remove_pods(removal@),
    {
        let next: Option<String> = match removal.next_pod() {
            Some(name) => Some(name.clone()),
            None => None,
        };
        match next {
            Some(name) => (self.entering(Phase::DeletingPods(removal)), Action::DeletePod { name }),
            None => self.scale(removal.new_count()),
        }
    }

    fn clean_up(self) -> (r: (Tick, Action))
        ensures
            (r.0@, r.1@) == self@.clean_up(),
    {
        (self.entering(Phase::Runners), Action::ListRunners)
    }

    fn remove_runners(self, cleanup: Cleanup) -> (r: (Tick, Action))
        ensures
            (r.0@, r.1@) == self@.remove_runners(cleanup@),
    {
        let next: Option<(u64, String)> = match cleanup.next_runner() {
            Some(runner) => Some((runner.id, runner.name.clone())),
            None => None,
        };
        match next {
            Some((id, name)) => (
                self.entering(Phase::DeletingRunners(cleanup)),
                Action::DeleteRunner { id, name },
            ),
            None => self.finish(Outcome::Cleaned { removed: cleanup.stale_count() }),
        }
    }
}

} // verus!
