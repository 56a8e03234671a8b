//! The runner Deployment and its pods.
use crate::picks::{are_those, filter_picks};
use crate::text::same_text;
use vstd::hash_set::StringHashSet;
use vstd::prelude::*;

verus! {

/// The seconds that a pod is given to end.
pub const POD_GRACE_PERIOD_SECS: u32 = 30;

/// What is read of a Deployment.
#[derive(Debug)]
pub struct Deployment {
    pub spec: Option<DeploymentSpec>,
}

/// What is read of a Deployment's specification.
#[derive(Debug)]
pub struct DeploymentSpec {
    pub replicas: Option<i32>,
}

/// What is read of a pod.
#[derive(Debug)]
pub struct Pod {
    pub name: Option<String>,
    pub status: Option<PodStatus>,
}

/// What is read of a pod's status.
#[derive(Debug)]
pub struct PodStatus {
    pub phase: Option<String>,
}

/// Whether the pod is known to be in the phase.
pub open spec fn in_phase(pod: Pod, phase: Seq<char>) -> bool {
    &&& pod.status is Some
    &&& pod.status->0.phase is Some
    &&& pod.status->0.phase->0@ == phase
}

/// Whether the pod runs and has a name.
pub open spec fn is_running(pod: Pod) -> bool {
    pod.name is Some && in_phase(pod, "Running"@)
}

/// Whether the pod has a name and is not known to have ended.
pub open spec fn is_live(pod: Pod) -> bool {
    pod.name is Some && !in_phase(pod, "Succeeded"@) && !in_phase(pod, "Failed"@)
}

/// The names of the running pods, in order.
pub open spec fn running_names(pods: Seq<Pod>) -> Seq<Seq<char>> {
    pods.filter(|pod: Pod| is_running(pod)).map_values(|pod: Pod| pod.name->0@)
}

/// The names of the live pods.
pub open spec fn live_names(pods: Seq<Pod>) -> Set<Seq<char>> {
    Set::new(
        |n: Seq<char>|
            exists|i: int| 0 <= i < pods.len() && is_live(#[trigger] pods[i]) && pods[i].name->0@ == n,
    )
}

/// The texts of some strings.
pub open spec fn views(names: Seq<String>) -> Seq<Seq<char>> {
    names.map_values(|name: String| name@)
}

impl Pod {
    fn is_in_phase(&self, phase: &str) -> (r: bool)
        ensures
            r == in_phase(*self, phase@),
    {
        match &self.status {
            Some(status) => match &status.phase {
                Some(p) => same_text(p.as_str(), phase),
                None => false,
            },
            None => false,
        }
    }
}

/// The runner Deployment.
pub struct Scaler {
    namespace: String,
    deployment_name: String,
}

/// What a [`Scaler`] holds.
pub struct ScalerView {
    pub namespace: Seq<char>,
    pub deployment_name: Seq<char>,
}

impl View for Scaler {
    type V = ScalerView;

    closed spec fn view(&self) -> ScalerView {
        ScalerView { namespace: self.namespace@, deployment_name: self.deployment_name@ }
    }
}

/// The replica count of a Deployment; one where it does not say.
pub open spec fn replicas_of(deployment: Deployment) -> i32 {
    match deployment.spec {
        Some(spec) => match spec.replicas {
            Some(replicas) => replicas,
            None => 1,
        },
        None => 1,
    }
}

impl Scaler {
    /// The Deployment of the given name in the given namespace.
    pub fn new(namespace: &str, deployment_name: &str) -> (r: Scaler)
        ensures
            r@.namespace == namespace@,
            r@.deployment_name == deployment_name@,
    {
        Scaler { namespace: namespace.to_string(), deployment_name: deployment_name.to_string() }
    }

    /// The namespace of the Deployment.
    pub fn namespace(&self) -> (r: &str)
        ensures
            r@ == self@.namespace,
    {
        self.namespace.as_str()
    }

    /// The name of the Deployment.
    pub fn deployment_name(&self) -> (r: &str)
        ensures
            r@ == self@.deployment_name,
    {
        self.deployment_name.as_str()
    }

    /// The label selector of the Deployment's pods.
    pub fn pod_selector(&self) -> (r: String)
        ensures
            r@ == "app="@ + self@.deployment_name,
    {
        "app=".to_string().concat(self.deployment_name.as_str())
    }

    /// The current replica count of the Deployment; one where it does not say.
    pub fn get_replicas(deployment: &Deployment) -> (r: i32)
        ensures
            r == replicas_of(*deployment),
    {
        match &deployment.spec {
            Some(spec) => match spec.replicas {
                Some(replicas) => replicas,
                None => 1,
            },
            None => 1,
        }
    }

    /// The names of the running ones of the pods.
    pub fn list_runner_pods(pods: &Vec<Pod>) -> (r: Vec<String>)
        ensures
            views(r@) == running_names(pods@),
            r@.len() <= pods@.len(),
    {
        let mut names: Vec<String> = Vec::new();
        let len: usize = pods.len();
        let ghost pred = |pod: Pod| is_running(pod);
        let ghost name_of = |pod: Pod| pod.name->0@;
        assert(views(names@) =~= pods@.take(0).filter(pred).map_values(name_of));
        for i in 0..len
            invariant
                len == pods@.len(),
                pred == (|pod: Pod| is_running(pod)),
                name_of == (|pod: Pod| pod.name->0@),
                views(names@) == pods@.take(i as int).filter(pred).map_values(name_of),
                names@.len() <= i,
        {
            let pod: &Pod = &pods[i];
            let ghost taken = pods@.take(i as int);
            proof {
                taken.lemma_filter_push(*pod, pred);
                assert(taken.push(*pod) =~= pods@.take(i + 1));
            }
            if pod.is_in_phase("Running") {
                if let Some(name) = &pod.name {
                    let ghost before = names@;
                    names.push(name.clone());
                    proof {
                        assert(views(names@) =~= views(before).push(name@));
                        assert(taken.filter(pred).push(*pod).map_values(name_of)
                            =~= taken.filter(pred).map_values(name_of).push(name@));
                    }
                }
            }
        }
        assert(pods@.take(len as int) =~= pods@);
        names
    }

    /// The names of the live ones of the pods.
    pub fn list_live_runner_pod_names(pods: &Vec<Pod>) -> (r: StringHashSet)
        ensures
            r@ == live_names(pods@),
            r@.finite(),
    {
        let mut names: StringHashSet = StringHashSet::new();
        let len: usize = pods.len();
        assert(names@ =~= live_names(pods@.take(0)));
        for i in 0..len
            invariant
                len == pods@.len(),
                names@ =~= live_names(pods@.take(i as int)),
                names@.finite(),
        {
            let pod: &Pod = &pods[i];
            let ghost taken = pods@.take(i as int);
            let ghost more = pods@.take(i + 1);
            let ghost before = names@;
            if !(pod.is_in_phase("Succeeded") || pod.is_in_phase("Failed")) {
                if let Some(name) = &pod.name {
                    names.insert(name.clone());
                }
            }
            proof {
                assert(more[i as int] == *pod);
                assert forall|n: Seq<char>| live_names(more).contains(n) implies before.contains(n)
                    || (is_live(*pod) && n == pod.name->0@) by {
                    let j = choose|j: int|
                        0 <= j < more.len() && is_live(#[trigger] more[j]) && more[j].name->0@ == n;
                    if j < i {
                        assert(taken[j] == more[j]);
                    }
                }
                assert forall|n: Seq<char>| before.contains(n) implies live_names(more).contains(
                    n,
                ) by {
                    let j = choose|j: int|
                        0 <= j < taken.len() && is_live(#[trigger] taken[j]) && taken[j].name->0@
                            == n;
                    assert(taken[j] == more[j]);
                }
            }
        }
        assert(pods@.take(len as int) =~= pods@);
        names
    }
}

/// The names that no busy runner has, in order.
pub open spec fn idle_names(pods: Seq<Seq<char>>, busy_runners: Set<Seq<char>>) -> Seq<Seq<char>> {
    pods.filter(|name: Seq<char>| !busy_runners.contains(name))
}

/// A removal of idle pods that is under way.
pub struct ScaleDown {
    target: i32,
    current: i32,
    removable: Vec<String>,
    next: usize,
    deleted: i32,
}

/// What a [`ScaleDown`] holds.
#[verifier::ext_equal]
pub struct ScaleDownView {
    /// The replica count to reach.
    pub target: int,
    /// The number of pods that ran at the start.
    pub current: int,
    /// The pods to delete.
    pub removable: Seq<Seq<char>>,
    /// How many of them were tried.
    pub next: nat,
    /// How many of them are deleted.
    pub deleted: nat,
}

impl View for ScaleDown {
    type V = ScaleDownView;

    closed spec fn view(&self) -> ScaleDownView {
        ScaleDownView {
            target: self.target as int,
            current: self.current as int,
            removable: views(self.removable@),
            next: self.next as nat,
            deleted: self.deleted as nat,
        }
    }
}

impl ScaleDownView {
    /// No more pods are deleted than were tried, and no more are tried than is asked for.
    pub open spec fn well_formed(self) -> bool {
        &&& self.deleted <= self.next <= self.removable.len()
        &&& self.removable.len() <= self.current - self.target
    }

    /// The pod to delete next.
    pub open spec fn next_pod(self) -> Option<Seq<char>> {
        if self.next < self.removable.len() {
            Some(self.removable[self.next as int])
        } else {
            None
        }
    }

    /// The removal after its next pod was tried, and deleted or not.
    pub open spec fn tried(self, deleted: bool) -> ScaleDownView {
        ScaleDownView {
            next: self.next + 1,
            deleted: if deleted {
                self.deleted + 1
            } else {
                self.deleted
            },
            ..self
        }
    }

    /// The replica count for the pods that are left.
    pub open spec fn new_count(self) -> int {
        if self.target > self.current - self.deleted {
            self.target
        } else {
            self.current - self.deleted
        }
    }
}

/// The removal that brings the running pods down to `target`, as far as idle pods allow; `None`
/// where nothing is to be removed or nothing is idle.
pub open spec fn scale_down(
    pods: Seq<Seq<char>>,
    target: int,
    busy_runners: Set<Seq<char>>,
) -> Option<ScaleDownView> {
    let idle = idle_names(pods, busy_runners);
    let surplus = pods.len() - target;
    if surplus <= 0 || idle.len() == 0 {
        None
    } else {
        Some(
            ScaleDownView {
                target,
                current: pods.len() as int,
                removable: if idle.len() <= surplus {
                    idle
                } else {
                    idle.take(surplus)
                },
                next: 0,
                deleted: 0,
            },
        )
    }
}

impl Scaler {
    /// How many of the names no busy runner has.
    pub fn idle_count(pods: &Vec<String>, busy_runners: &StringHashSet) -> (r: usize)
        ensures
            r == idle_names(views(pods@), busy_runners@).len(),
    {
        let mut count: usize = 0;
        let len: usize = pods.len();
        let ghost names = views(pods@);
        let ghost pred = |name: Seq<char>| !busy_runners@.contains(name);
        assert(names.take(0).filter(pred).len() == 0);
        for i in 0..len
            invariant
                len == pods@.len(),
                names == views(pods@),
                pred == (|name: Seq<char>| !busy_runners@.contains(name)),
                count == names.take(i as int).filter(pred).len(),
                count <= i,
        {
            proof {
                names.take(i as int).lemma_filter_push(names[i as int], pred);
                assert(names.take(i as int).push(names[i as int]) =~= names.take(i + 1));
            }
            if !busy_runners.contains(pods[i].as_str()) {
                count = count + 1;
            }
        }
        assert(names.take(len as int) =~= names);
        count
    }

    /// Starts to scale down by deleting only idle pods: those that no busy runner is named after.
    ///
    /// `pods` are the names of the running pods. Idle ones are deleted, in order, until `target`
    /// are left; the Deployment's replica count is then adjusted to match.
    pub fn safe_scale_down(pods: &Vec<String>, target: i32, busy_runners: &StringHashSet) -> (r:
        Option<ScaleDown>)
        requires
            pods@.len() <= i32::MAX,
        ensures
            match r {
                Some(removal) => scale_down(views(pods@), target as int, busy_runners@) == Some(
                    removal@,
                ),
                None => scale_down(views(pods@), target as int, busy_runners@) is None,
            },
    {
        let current: i32 = pods.len() as i32;
        let surplus: i64 = current as i64 - target as i64;
        if surplus <= 0 {
            return None;
        }
        let len: usize = pods.len();
        let mut removable: Vec<String> = Vec::new();
        let ghost names = views(pods@);
        let ghost pred = |name: Seq<char>| !busy_runners@.contains(name);
        let ghost idle = names.filter(pred);
        assert(views(removable@) =~= names.take(0).filter(pred));
        let mut i: usize = 0;
        while i < len && (removable.len() as i64) < surplus
            invariant
                len == pods@.len(),
                i <= len,
                len <= i32::MAX,
                0 < surplus,
                names == views(pods@),
                pred == (|name: Seq<char>| !busy_runners@.contains(name)),
                removable@.len() <= i,
                removable@.len() <= surplus,
                views(removable@) == names.take(i as int).filter(pred),
            decreases len - i,
        {
            let ghost taken = names.take(i as int);
            proof {
                taken.lemma_filter_push(names[i as int], pred);
                assert(taken.push(names[i as int]) =~= names.take(i + 1));
                assert(names[i as int] == pods@[i as int]@);
            }
            if !busy_runners.contains(pods[i].as_str()) {
                let ghost before = removable@;
                removable.push(pods[i].clone());
                assert(views(removable@) =~= views(before).push(names[i as int]));
            }
            i = i + 1;
        }
        proof {
            let rest = names.skip(i as int);
            assert(names =~= names.take(i as int) + rest);
            Seq::filter_distributes_over_add(names.take(i as int), rest, pred);
            assert(idle == views(removable@) + rest.filter(pred));
            if i == len {
                assert(rest =~= Seq::empty());
                assert(idle =~= views(removable@));
            } else {
                assert(removable@.len() == surplus);
                assert(idle.take(surplus as int) =~= views(removable@));
            }
        }
        if removable.len() == 0 {
            return None;
        }
        Some(ScaleDown { target, current, removable, next: 0, deleted: 0 })
    }
}

impl ScaleDown {
    #[verifier::type_invariant]
    spec fn well_formed(self) -> bool {
        &&& 0 <= self.deleted <= self.next <= self.removable@.len()
        &&& self.removable@.len() <= self.current - self.target
        &&& 0 <= self.current
        &&& self.removable@.len() <= self.current
    }

    /// The pod to delete next; `None` where all were tried.
    pub fn next_pod(&self) -> (r: Option<&String>)
        ensures
            self@.well_formed(),
            match r {
                Some(name) => self@.next_pod() == Some(name@),
                None => self@.next_pod() is None,
            },
    {
        proof {
            use_type_invariant(self);
        }
        if self.next < self.removable.len() {
            Some(&self.removable[self.next])
        } else {
            None
        }
    }

    /// Notes whether the next pod could be deleted.
    pub fn note(self, deleted: bool) -> (r: ScaleDown)
        requires
            self@.next_pod() is Some,
        ensures
            r@ == self@.tried(deleted),
    {
        proof {
            use_type_invariant(&self);
        }
        assert(self.next < self.removable.len());
        ScaleDown {
            target: self.target,
            current: self.current,
            removable: self.removable,
            next: self.next + 1,
            deleted: if deleted {
                self.deleted + 1
            } else {
                self.deleted
            },
        }
    }

    /// The replica count for the pods that are left.
    pub fn new_count(&self) -> (r: i32)
        ensures
            r == self@.new_count(),
    {
        proof {
            use_type_invariant(self);
        }
        let left: i32 = self.current - self.deleted;
        if self.target > left {
            self.target
        } else {
            left
        }
    }
}

/// Only running pods that no busy runner is named after are ever removed, and as many of them as
/// are idle and too many.
pub proof fn only_idle_pods_are_removed(
    pods: Seq<Seq<char>>,
    target: int,
    busy_runners: Set<Seq<char>>,
)
    ensures
        scale_down(pods, target, busy_runners) matches Some(removal) ==> {
            let idle = idle_names(pods, busy_runners).len();
            &&& removal.well_formed()
            &&& removal.removable.len() == if idle <= pods.len() - target {
                idle as int
            } else {
                pods.len() - target
            }
            &&& forall|i: int|
                0 <= i < removal.removable.len() ==> pods.contains(#[trigger] removal.removable[i])
                    && !busy_runners.contains(removal.removable[i])
        },
{
    let pred = |name: Seq<char>| !busy_runners.contains(name);
    let idle = pods.filter(pred);
    if let Some(removal) = scale_down(pods, target, busy_runners) {
        assert forall|i: int| 0 <= i < removal.removable.len() implies pods.contains(
            #[trigger] removal.removable[i],
        ) && !busy_runners.contains(removal.removable[i]) by {
            assert(removal.removable[i] == idle[i]);
            pods.lemma_filter_pred(pred, i);
            pods.lemma_filter_contains_rev(pred, idle[i]);
        }
    }
}

/// However the deletions go, the new replica count is the number of pods that ran less those that
/// were deleted, and it is never below the target.
pub proof fn new_count_is_what_is_left(removal: ScaleDownView)
    requires
        removal.well_formed(),
    ensures
        removal.new_count() == removal.current - removal.deleted,
        removal.target <= removal.new_count() <= removal.current,
{
}

/// A pod that runs is live, so the registration of its runner is never stale.
pub proof fn running_pods_are_live(pods: Seq<Pod>, i: int)
    requires
        0 <= i < running_names(pods).len(),
    ensures
        live_names(pods).contains(running_names(pods)[i]),
{
    let pred = |pod: Pod| is_running(pod);
    let running = pods.filter(pred);
    pods.lemma_filter_pred(pred, i);
    pods.lemma_filter_contains_rev(pred, running[i]);
    let j = choose|j: int| 0 <= j < pods.len() && pods[j] == running[i];
    reveal_strlit("Running");
    reveal_strlit("Succeeded");
    reveal_strlit("Failed");
    assert("Running"@.len() != "Succeeded"@.len());
    assert("Running"@.len() != "Failed"@.len());
    assert(is_live(pods[j]));
}

/// The condition that a pod has a name and its phase is `Running`.
pub open spec fn named_and_in_phase_running() -> spec_fn(Pod) -> bool {
    |pod: Pod|
        pod.name is Some && pod.status is Some && pod.status->0.phase is Some
            && pod.status->0.phase->0@ == "Running"@
}

/// The running pods are those whose phase is `Running`, as far as they have a name, in order.
pub proof fn running_pods_are_those_in_phase_running(pods: Seq<Pod>)
    ensures
        exists|running: Seq<Pod>|
            {
                &&& #[trigger] are_those(pods, named_and_in_phase_running(), running)
                &&& running_names(pods).len() == running.len()
                &&& forall|i: int|
                    0 <= i < running.len() ==> running_names(pods)[i] == (
                    #[trigger] running[i]).name->0@
            },
{
    let running = pods.filter(|pod: Pod| is_running(pod));
    assert(named_and_in_phase_running() =~= |pod: Pod| is_running(pod));
    filter_picks(pods, named_and_in_phase_running());
    assert(are_those(pods, named_and_in_phase_running(), running));
}

/// A name is live exactly where a pod has it whose phase is neither `Succeeded` nor `Failed`; a
/// pod whose phase is not known counts as live.
pub proof fn pods_that_have_not_ended_are_live(pods: Seq<Pod>, name: Seq<char>)
    ensures
        live_names(pods).contains(name) <==> exists|i: int|
            {
                &&& 0 <= i < pods.len()
                &&& (#[trigger] pods[i]).name is Some
                &&& pods[i].name->0@ == name
                &&& pods[i].status matches Some(status) ==> (status.phase matches Some(phase)
                    ==> phase@ != "Succeeded"@ && phase@ != "Failed"@)
            },
{
    assert forall|i: int| 0 <= i < pods.len() implies (is_live(#[trigger] pods[i]) <==> {
        &&& pods[i].name is Some
        &&& pods[i].status matches Some(status) ==> (status.phase matches Some(phase) ==> phase@
            != "Succeeded"@ && phase@ != "Failed"@)
    }) by {}
}

/// The replica count of a Deployment is the one that it states, and one where it states none.
pub proof fn replica_count_is_the_stated_one(deployment: Deployment)
    ensures
        deployment.spec is Some && deployment.spec->0.replicas is Some ==> replicas_of(deployment)
            == deployment.spec->0.replicas->0,
        deployment.spec is None || deployment.spec->0.replicas is None ==> replicas_of(deployment)
            == 1,
{
}

/// The idle pods are all those that no busy runner is named after, in order.
pub proof fn idle_pods_are_those_not_busy(pods: Seq<Seq<char>>, busy_runners: Set<Seq<char>>)
    ensures
        are_those(
            pods,
            |name: Seq<char>| !busy_runners.contains(name),
            idle_names(pods, busy_runners),
        ),
{
    filter_picks(pods, |name: Seq<char>| !busy_runners.contains(name));
}

/// Pods are removed exactly where more of them run than are to be left and one of them is idle.
/// What is removed then are the first idle ones: all that are too many, or all that are idle where
/// those are fewer.
pub proof fn surplus_of_idle_pods_is_removed(
    pods: Seq<Seq<char>>,
    target: int,
    busy_runners: Set<Seq<char>>,
)
    ensures
        scale_down(pods, target, busy_runners) is Some <==> pods.len() > target && exists|i: int|
            0 <= i < pods.len() && !busy_runners.contains(#[trigger] pods[i]),
        scale_down(pods, target, busy_runners) matches Some(removal) ==> {
            let idle = idle_names(pods, busy_runners);
            let count = removal.removable.len();
            &&& removal.target == target
            &&& removal.current == pods.len()
            &&& removal.next == 0
            &&& removal.deleted == 0
            &&& 0 < count <= idle.len()
            &&& count <= pods.len() - target
            &&& count == idle.len() || count == pods.len() - target
            &&& removal.removable == idle.take(count as int)
        },
{
    let pred = |name: Seq<char>| !busy_runners.contains(name);
    let idle = idle_names(pods, busy_runners);
    if idle.len() > 0 {
        pods.lemma_filter_pred(pred, 0);
        pods.lemma_filter_contains_rev(pred, idle[0]);
        let i = choose|i: int| 0 <= i < pods.len() && pods[i] == idle[0];
        assert(!busy_runners.contains(pods[i]));
    }
    if exists|i: int| 0 <= i < pods.len() && !busy_runners.contains(#[trigger] pods[i]) {
        let i = choose|i: int| 0 <= i < pods.len() && !busy_runners.contains(#[trigger] pods[i]);
        pods.lemma_filter_contains(pred, i);
    }
    if let Some(removal) = scale_down(pods, target, busy_runners) {
        assert(idle.take(idle.len() as int) =~= idle);
    }
}

/// A removal after deletions that ended like this.
pub open spec fn after_tries(removal: ScaleDownView, outcomes: Seq<bool>) -> ScaleDownView
    decreases outcomes.len(),
{
    if outcomes.len() == 0 {
        removal
    } else {
        after_tries(removal, outcomes.drop_last()).tried(outcomes.last())
    }
}

/// How many of the deletions succeeded.
pub open spec fn successes(outcomes: Seq<bool>) -> nat
    decreases outcomes.len(),
{
    if outcomes.len() == 0 {
        0
    } else if outcomes.last() {
        successes(outcomes.drop_last()) + 1
    } else {
        successes(outcomes.drop_last())
    }
}

/// A removal tries each of its pods once, in order, whether the deletions before succeeded or not.
/// When all were tried, the replica count is the number of pods that ran less the deletions that
/// succeeded.
pub proof fn each_pod_is_tried_once(
    pods: Seq<Seq<char>>,
    target: int,
    busy_runners: Set<Seq<char>>,
    removal: ScaleDownView,
    outcomes: Seq<bool>,
)
    requires
        scale_down(pods, target, busy_runners) == Some(removal),
        outcomes.len() <= removal.removable.len(),
    ensures
        after_tries(removal, outcomes).well_formed(),
        outcomes.len() < removal.removable.len() ==> after_tries(removal, outcomes).next_pod()
            == Some(removal.removable[outcomes.len() as int]),
        outcomes.len() == removal.removable.len() ==> after_tries(
            removal,
            outcomes,
        ).next_pod() is None,
        after_tries(removal, outcomes).new_count() == pods.len() - successes(outcomes),
        successes(outcomes) <= outcomes.len(),
        after_tries(removal, outcomes) == (ScaleDownView {
            next: outcomes.len(),
            deleted: successes(outcomes),
            ..removal
        }),
    decreases outcomes.len(),
{
    surplus_of_idle_pods_is_removed(pods, target, busy_runners);
    if outcomes.len() > 0 {
        each_pod_is_tried_once(pods, target, busy_runners, removal, outcomes.drop_last());
    }
}

/// A pod is given 30 seconds to end.
pub proof fn pods_are_given_time_to_end()
    ensures
        POD_GRACE_PERIOD_SECS == 30,
{
}

/// The texts of strings are those of each of them.
pub proof fn views_are_the_texts(names: Seq<String>)
    ensures
        views(names).len() == names.len(),
        forall|i: int| 0 <= i < names.len() ==> #[trigger] views(names)[i] == names[i]@,
{
}

} // verus!
