//! Clearing away registrations of runners that are gone.
use crate::gitea::{GiteaClient, Runner};
use crate::picks::{are_those, filter_picks};
use crate::text::{eq_ignore_ascii_case, same_ignoring_ascii_case};
use vstd::hash_set::StringHashSet;
use vstd::prelude::*;

verus! {

/// Whether the registration is stale: Gitea has the runner as offline and not busy, no live pod
/// has its name, and no job is known to run on it.
pub open spec fn is_stale(
    runner: Runner,
    live_runner_names: Set<Seq<char>>,
    busy_runners: Set<Seq<char>>,
) -> bool {
    &&& same_ignoring_ascii_case(runner.status@, "offline"@)
    &&& !runner.busy
    &&& !live_runner_names.contains(runner.name@)
    &&& !busy_runners.contains(runner.name@)
}

/// The stale ones of the registrations, in order.
pub open spec fn stale_runners(
    runners: Seq<Runner>,
    live_runner_names: Set<Seq<char>>,
    busy_runners: Set<Seq<char>>,
) -> Seq<Runner> {
    runners.filter(|runner: Runner| is_stale(runner, live_runner_names, busy_runners))
}

/// Selects the stale ones of the registrations, in order.
pub fn select_stale_offline_runners<'a>(
    runners: &'a [Runner],
    live_runner_names: &StringHashSet,
    busy_runners: &StringHashSet,
) -> (r: Vec<&'a Runner>)
    ensures
        r@.map_values(|runner: &Runner| *runner) == stale_runners(
            runners@,
            live_runner_names@,
            busy_runners@,
        ),
{
    let mut selected: Vec<&'a Runner> = Vec::new();
    let len: usize = runners.len();
    let ghost pred = |runner: Runner| is_stale(runner, live_runner_names@, busy_runners@);
    let ghost plain = |runner: &Runner| *runner;
    assert(selected@.map_values(plain) =~= runners@.take(0).filter(pred));
    for i in 0..len
        invariant
            len == runners@.len(),
            pred == (|runner: Runner| is_stale(runner, live_runner_names@, busy_runners@)),
            plain == (|runner: &Runner| *runner),
            selected@.map_values(plain) == runners@.take(i as int).filter(pred),
    {
        let runner: &'a Runner = &runners[i];
        proof {
            runners@.take(i as int).lemma_filter_push(*runner, pred);
            assert(runners@.take(i as int).push(*runner) =~= runners@.take(i + 1));
        }
        if eq_ignore_ascii_case(runner.status.as_str(), "offline") && !runner.busy
            && !live_runner_names.contains(runner.name.as_str()) && !busy_runners.contains(
            runner.name.as_str(),
        ) {
            let ghost before = selected@;
            selected.push(runner);
            assert(selected@.map_values(plain) =~= before.map_values(plain).push(*runner));
        }
    }
    assert(runners@.take(len as int) =~= runners@);
    selected
}

/// A deletion of stale registrations that is under way.
pub struct Cleanup {
    stale: Vec<Runner>,
    next: usize,
}

/// What a [`Cleanup`] holds.
#[verifier::ext_equal]
pub struct CleanupView {
    /// All registrations to delete.
    pub stale: Seq<Runner>,
    /// How many of them are deleted.
    pub next: nat,
}

impl View for Cleanup {
    type V = CleanupView;

    closed spec fn view(&self) -> CleanupView {
        CleanupView { stale: self.stale@, next: self.next as nat }
    }
}

impl CleanupView {
    /// No more is deleted than there is to delete.
    pub open spec fn well_formed(self) -> bool {
        self.next <= self.stale.len()
    }

    /// The registration to delete next.
    pub open spec fn next_runner(self) -> Option<Runner> {
        if self.next < self.stale.len() {
            Some(self.stale[self.next as int])
        } else {
            None
        }
    }

    /// The deletion after its next registration is deleted.
    pub open spec fn advanced(self) -> CleanupView {
        CleanupView { next: self.next + 1, ..self }
    }
}

impl GiteaClient {
    /// Starts to delete the stale ones of the registrations.
    pub fn cleanup_offline_runners(
        runners: &[Runner],
        live_runner_names: &StringHashSet,
        busy_runners: &StringHashSet,
    ) -> (r: Cleanup)
        ensures
            r@ == (CleanupView {
                stale: stale_runners(runners@, live_runner_names@, busy_runners@),
                next: 0,
            }),
    {
        let selected: Vec<&Runner> = select_stale_offline_runners(
            runners,
            live_runner_names,
            busy_runners,
        );
        let mut stale: Vec<Runner> = Vec::new();
        let len: usize = selected.len();
        let ghost plain = |runner: &Runner| *runner;
        for i in 0..len
            invariant
                len == selected@.len(),
                plain == (|runner: &Runner| *runner),
                stale@ =~= selected@.take(i as int).map_values(plain),
        {
            let runner: &Runner = selected[i];
            stale.push(
                Runner {
                    busy: runner.busy,
                    id: runner.id,
                    name: runner.name.clone(),
                    status: runner.status.clone(),
                },
            );
        }
        assert(selected@.take(len as int) =~= selected@);
        Cleanup { stale, next: 0 }
    }
}

impl Cleanup {
    #[verifier::type_invariant]
    spec fn well_formed(self) -> bool {
        self.next <= self.stale@.len()
    }

    /// The registration to delete next; `None` where all are deleted.
    pub fn next_runner(&self) -> (r: Option<&Runner>)
        ensures
            self@.well_formed(),
            match r {
                Some(runner) => self@.next_runner() == Some(*runner),
                None => self@.next_runner() is None,
            },
    {
        proof {
            use_type_invariant(self);
        }
        if self.next < self.stale.len() {
            Some(&self.stale[self.next])
        } else {
            None
        }
    }

    /// Notes that the next registration is deleted.
    pub fn advance(self) -> (r: Cleanup)
        requires
            self@.next_runner() is Some,
        ensures
            r@ == self@.advanced(),
    {
        assert(self.next < self.stale.len());
        Cleanup { stale: self.stale, next: self.next + 1 }
    }

    /// The number of registrations to delete in all.
    pub fn stale_count(&self) -> (r: usize)
        ensures
            r == self@.stale.len(),
    {
        self.stale.len()
    }
}

/// A registration is selected exactly where it is stale: it is offline, whatever the case of the
/// word, it is not busy, and neither a live pod nor a busy runner has its name.
pub proof fn only_stale_runners_are_selected(
    runners: Seq<Runner>,
    live_runner_names: Set<Seq<char>>,
    busy_runners: Set<Seq<char>>,
    runner: Runner,
)
    ensures
        stale_runners(runners, live_runner_names, busy_runners).contains(runner)
            <==> runners.contains(runner) && is_stale(runner, live_runner_names, busy_runners),
{
    let pred = |r: Runner| is_stale(r, live_runner_names, busy_runners);
    let selected = runners.filter(pred);
    if selected.contains(runner) {
        let i = choose|i: int| 0 <= i < selected.len() && selected[i] == runner;
        runners.lemma_filter_pred(pred, i);
        runners.lemma_filter_contains_rev(pred, runner);
    }
    if runners.contains(runner) && is_stale(runner, live_runner_names, busy_runners) {
        let i = choose|i: int| 0 <= i < runners.len() && runners[i] == runner;
        runners.lemma_filter_contains(pred, i);
    }
}

/// The stale registrations are all those of runners whose status is `offline`, whatever its case,
/// that are not busy, and that neither a live pod nor a busy runner is named after, in order.
pub proof fn stale_runners_are_those_offline_and_gone(
    runners: Seq<Runner>,
    live_runner_names: Set<Seq<char>>,
    busy_runners: Set<Seq<char>>,
)
    ensures
        are_those(
            runners,
            |runner: Runner|
                same_ignoring_ascii_case(runner.status@, "offline"@) && !runner.busy
                    && !live_runner_names.contains(runner.name@) && !busy_runners.contains(
                    runner.name@,
                ),
            stale_runners(runners, live_runner_names, busy_runners),
        ),
{
    let wanted = |runner: Runner|
        same_ignoring_ascii_case(runner.status@, "offline"@) && !runner.busy
            && !live_runner_names.contains(runner.name@) && !busy_runners.contains(runner.name@);
    assert(wanted =~= |runner: Runner| is_stale(runner, live_runner_names, busy_runners));
    filter_picks(runners, wanted);
}

/// A deletion after so many registrations are deleted.
pub open spec fn after_deletions(cleanup: CleanupView, count: nat) -> CleanupView
    decreases count,
{
    if count == 0 {
        cleanup
    } else {
        after_deletions(cleanup, (count - 1) as nat).advanced()
    }
}

/// A deletion goes through all its registrations, each once and in order, and has a next one until
/// the last is deleted.
pub proof fn every_stale_registration_has_its_turn(stale: Seq<Runner>, count: nat)
    requires
        count <= stale.len(),
    ensures
        after_deletions(CleanupView { stale, next: 0 }, count).stale == stale,
        after_deletions(CleanupView { stale, next: 0 }, count).next == count,
        after_deletions(CleanupView { stale, next: 0 }, count).next_runner() == if count
            < stale.len() {
            Some(stale[count as int])
        } else {
            None
        },
    decreases count,
{
    if count > 0 {
        every_stale_registration_has_its_turn(stale, (count - 1) as nat);
    }
}

} // verus!
