//! What the operations return, in terms of what they are given.
use crate::config::{
    can_log_in, configuration_holds_the_variables, i32_var, sound_variables_are_loaded,
    summary_has_every_setting, u64_var, with_secret, Config, ConfigError, EnvVars, GiteaAuth,
};
use crate::decision::{
    decide_after, desired_replicas, distance, wanted_count_is_the_nearest_within_bounds,
    ScaleDecision,
};
use crate::gitea::{
    credentials_are_sent_in_full, rejections_quote_the_reply, requests_name_what_is_asked_for,
    ClientError, Endpoint, GiteaClient, Job, JobsResponse, Runner, PAGE_LIMIT,
};
use crate::jobs::{
    page_adds_the_runners_in_progress, reading_goes_on_while_jobs_are_left, JobScan, ScanStep,
};
use crate::names::{name_set, name_sets_hold_the_names};
use crate::outside::{base64_standard, is_header_text};
use crate::picks::are_those;
use crate::runners::{
    select_stale_offline_runners, stale_runners_are_those_offline_and_gone, Cleanup,
};
use crate::scaler::{
    idle_names, idle_pods_are_those_not_busy, named_and_in_phase_running, pods_that_have_not_ended_are_live,
    replica_count_is_the_stated_one, running_names, running_pods_are_those_in_phase_running,
    surplus_of_idle_pods_is_removed, views, Deployment, Pod, ScaleDown, Scaler,
};
use crate::text::{
    decimal, numbers_read_back, only_the_run_at_the_end_is_trimmed, parse_i32, parse_u64,
    same_ignoring_ascii_case, signed_decimal,
};
use crate::tick::{Action, Event, Report, Tick};
use vstd::hash_set::StringHashSet;
use vstd::prelude::*;
use vstd::utf8::encode_utf8;

verus! {

/// `Config::from_env` succeeds exactly on variables that say how to reach Gitea, in which every
/// number can be read and the floor is neither negative nor above the ceiling. The configuration
/// then holds what they say, or the default of what they do not.
pub proof fn from_env_loads_what_is_set(vars: &EnvVars, r: Result<Config, ConfigError>)
    requires
        call_ensures(Config::from_env, (vars,), r),
    ensures
        r is Ok <==> can_log_in(*vars) && u64_var(vars.poll_interval, 10) is Some && u64_var(
            vars.scale_down_delay,
            1000,
        ) is Some && (match (i32_var(vars.min_replicas, 1), i32_var(vars.max_replicas, 3)) {
            (Some(min), Some(max)) => 0 <= min && min <= max,
            _ => false,
        }),
        r matches Ok(config) ==> {
            &&& config.gitea_url@ == vars.gitea_url->0@
            &&& match config.gitea_auth {
                GiteaAuth::Token(token) => vars.gitea_token is Some && token@
                    == vars.gitea_token->0@,
                GiteaAuth::Basic { username, password } => vars.gitea_token is None && username@
                    == vars.gitea_username->0@ && password@ == vars.gitea_password->0@,
            }
            &&& config.runner_deployment@ == if vars.runner_deployment is Some {
                vars.runner_deployment->0@
            } else {
                "gitea-actions-runner"@
            }
            &&& config.runner_namespace@ == if vars.runner_namespace is Some {
                vars.runner_namespace->0@
            } else {
                "gitea"@
            }
            &&& i32_var(vars.min_replicas, 1) == Some(config.min_replicas)
            &&& i32_var(vars.max_replicas, 3) == Some(config.max_replicas)
            &&& u64_var(vars.poll_interval, 10) == Some(config.poll_interval)
            &&& u64_var(vars.scale_down_delay, 1000) == Some(config.scale_down_delay)
        },
{
    sound_variables_are_loaded(*vars);
    if let Ok(config) = r {
        configuration_holds_the_variables(*vars, config@);
    }
}

/// `Config::summary` reads the same for configurations that differ in the password or the token
/// alone, and has the URL, the Deployment and all numbers in full.
pub proof fn summary_shows_all_but_the_secret(
    config: &Config,
    other: &Config,
    secret: Seq<char>,
    r: String,
    r_other: String,
)
    requires
        other@ == with_secret(config@, secret),
        call_ensures(Config::summary, (config,), r),
        call_ensures(Config::summary, (other,), r_other),
    ensures
        r_other@ == r@,
        r@ == "gitea="@ + config.gitea_url@ + match config.gitea_auth {
            GiteaAuth::Token(_) => " auth=token"@,
            GiteaAuth::Basic { username, .. } => " auth=basic (user="@ + username@ + seq![')'],
        } + (seq![' '] + "deployment="@ + config.runner_namespace@ + seq!['/']
            + config.runner_deployment@ + " replicas=["@ + signed_decimal(
            config.min_replicas as int,
        ) + seq![','] + signed_decimal(config.max_replicas as int) + "] poll="@ + decimal(
            config.poll_interval as nat,
        ) + "s cooldown="@ + decimal(config.scale_down_delay as nat) + seq!['s']),
{
    summary_has_every_setting(config@);
}

/// `GiteaClient::new` makes a client for any user name and password, and for a token that can stand
/// in a header. The client sends the credentials in full, and its URL is the configured one without
/// the slashes at its end.
pub proof fn new_client_sends_the_credentials(config: &Config, r: Result<GiteaClient, ClientError>)
    requires
        call_ensures(GiteaClient::new, (config,), r),
    ensures
        match config.gitea_auth {
            GiteaAuth::Token(token) => match r {
                Ok(client) => client@.authorization == encode_utf8("token "@ + token@),
                Err(e) => e == ClientError::InvalidToken && !is_header_text("token "@ + token@),
            },
            GiteaAuth::Basic { username, password } => r matches Ok(client)
                && client@.authorization == encode_utf8(
                "Basic "@ + base64_standard(encode_utf8(username@ + seq![':'] + password@)),
            ),
        },
        r matches Ok(client) ==> {
            let kept = client@.base_url.len() as int;
            &&& kept <= config.gitea_url@.len()
            &&& client@.base_url == config.gitea_url@.take(kept)
            &&& kept > 0 ==> config.gitea_url@[kept - 1] != '/'
            &&& forall|i: int|
                kept <= i < config.gitea_url@.len() ==> #[trigger] config.gitea_url@[i] == '/'
        },
{
    only_the_run_at_the_end_is_trimmed(config.gitea_url@, '/');
    match config.gitea_auth {
        GiteaAuth::Token(token) => {
            credentials_are_sent_in_full(token@, token@, token@);
        },
        GiteaAuth::Basic { username, password } => {
            credentials_are_sent_in_full(username@, username@, password@);
        },
    }
}

/// The URLs of requests: under the URL of the client, pages by number and runners by identifier.
pub proof fn urls_name_what_is_asked_for(
    client: &GiteaClient,
    n: u64,
    jobs: String,
    runners: String,
    runner: String,
)
    requires
        call_ensures(GiteaClient::jobs_url, (client, n), jobs),
        call_ensures(GiteaClient::runners_url, (client,), runners),
        call_ensures(GiteaClient::runner_url, (client, n), runner),
    ensures
        jobs@ == client@.base_url
            + "/api/v1/admin/actions/jobs?status=queued&status=in_progress&limit=50&page="@
            + decimal(n as nat),
        runners@ == client@.base_url + "/api/v1/admin/actions/runners"@,
        runner@ == runners@ + seq!['/'] + decimal(n as nat),
{
    requests_name_what_is_asked_for(client@.base_url, n, n);
}

/// `Endpoint::accepts` takes any success for a list, and only "no content" for a deletion.
pub proof fn endpoints_accept_success(endpoint: &Endpoint, status: u16, r: bool)
    requires
        call_ensures(Endpoint::accepts, (endpoint, status), r),
    ensures
        endpoint is DeleteRunner ==> (r <==> status == 204),
        endpoint !is DeleteRunner ==> (r <==> 200 <= status && status <= 299),
{
}

/// `GiteaClient::get_jobs` asks for page one first, and has seen no busy runner.
pub proof fn get_jobs_starts_at_page_one(max_replicas: u32, scan: JobScan)
    requires
        call_ensures(GiteaClient::get_jobs, (max_replicas,), scan),
    ensures
        scan@.page == 1,
        scan@.max_replicas == max_replicas,
        forall|name: Seq<char>| !scan@.busy_runners.contains(name),
{
}

/// `JobScan::take_page` adds to the busy runners those that a job in progress on the page names, and
/// no other. It asks for the next page exactly where jobs are left and fewer runners are busy than
/// there may be replicas. Else it sums up: the total of this page, and what the busy runners leave
/// of it as queued.
pub proof fn take_page_adds_what_the_page_says(
    scan: JobScan,
    data: &JobsResponse,
    r: ScanStep,
    name: Seq<char>,
)
    requires
        scan@.page >= 1,
        call_ensures(JobScan::take_page, (scan, data), r),
    ensures
        ({
            let busy_runners = match r {
                ScanStep::More(next) => next@.busy_runners,
                ScanStep::Done(summary) => summary.busy_runners@,
            };
            let left = data.jobs@.len() > 0 && (scan@.page - 1) * PAGE_LIMIT + data.jobs@.len()
                < data.total_count;
            &&& busy_runners.contains(name) <==> scan@.busy_runners.contains(name) || exists|i: int|
                {
                    &&& 0 <= i < data.jobs@.len()
                    &&& (#[trigger] data.jobs@[i]).status@ == "in_progress"@
                    &&& data.jobs@[i].runner_name@ == name
                    &&& name.len() != 0
                }
            &&& r is More <==> left && busy_runners.len() < scan@.max_replicas
            &&& match r {
                ScanStep::More(next) => next@.page == scan@.page + 1 && next@.max_replicas
                    == scan@.max_replicas,
                ScanStep::Done(summary) => {
                    &&& summary.total_count == data.total_count
                    &&& summary.queued == if busy_runners.len() <= data.total_count {
                        data.total_count - busy_runners.len()
                    } else {
                        0
                    }
                    &&& summary.read_to_end == !left
                },
            }
        }),
{
    page_adds_the_runners_in_progress(scan@, data.jobs@, data.total_count as nat, name);
    reading_goes_on_while_jobs_are_left(scan@, data.jobs@, data.total_count as nat);
}

/// `Job::is_worked_on` holds of jobs in progress that name a runner.
pub proof fn is_worked_on_reads_two_fields(job: &Job, r: bool)
    requires
        call_ensures(Job::is_worked_on, (job,), r),
    ensures
        r <==> job.status@ == "in_progress"@ && job.runner_name@.len() != 0,
{
}

/// `select_stale_offline_runners` selects all registrations of runners that are offline, not busy,
/// and named like neither a live pod nor a busy runner, in order.
pub proof fn select_stale_offline_runners_selects_those_gone(
    runners: &[Runner],
    live_runner_names: &StringHashSet,
    busy_runners: &StringHashSet,
    r: Vec<&Runner>,
)
    requires
        call_ensures(select_stale_offline_runners, (runners, live_runner_names, busy_runners), r),
    ensures
        are_those(
            runners@,
            |runner: Runner|
                same_ignoring_ascii_case(runner.status@, "offline"@) && !runner.busy
                    && !live_runner_names@.contains(runner.name@) && !busy_runners@.contains(
                    runner.name@,
                ),
            r@.map_values(|runner: &Runner| *runner),
        ),
{
    stale_runners_are_those_offline_and_gone(runners@, live_runner_names@, busy_runners@);
}

/// `GiteaClient::cleanup_offline_runners` starts with the first of all those registrations.
pub proof fn cleanup_takes_on_all_stale_runners(
    runners: &[Runner],
    live_runner_names: &StringHashSet,
    busy_runners: &StringHashSet,
    r: Cleanup,
)
    requires
        call_ensures(
            GiteaClient::cleanup_offline_runners,
            (runners, live_runner_names, busy_runners),
            r,
        ),
    ensures
        r@.next == 0,
        are_those(
            runners@,
            |runner: Runner|
                same_ignoring_ascii_case(runner.status@, "offline"@) && !runner.busy
                    && !live_runner_names@.contains(runner.name@) && !busy_runners@.contains(
                    runner.name@,
                ),
            r@.stale,
        ),
{
    stale_runners_are_those_offline_and_gone(runners@, live_runner_names@, busy_runners@);
}

/// `Cleanup::next_runner` and `Cleanup::advance` go through all registrations in order, to the last.
pub proof fn cleanup_goes_on_to_the_last(
    cleanup: Cleanup,
    next: Option<&Runner>,
    advanced: Cleanup,
    count: usize,
)
    requires
        call_ensures(Cleanup::next_runner, (&cleanup,), next),
        call_ensures(Cleanup::advance, (cleanup,), advanced),
        call_ensures(Cleanup::stale_count, (&cleanup,), count),
    ensures
        next is Some <==> cleanup@.next < cleanup@.stale.len(),
        next matches Some(runner) ==> *runner == cleanup@.stale[cleanup@.next as int],
        advanced@.next == cleanup@.next + 1,
        advanced@.stale == cleanup@.stale,
        count == cleanup@.stale.len(),
{
}

/// `Scaler::get_replicas` returns the count that the Deployment states, and one where it states
/// none.
pub proof fn get_replicas_returns_the_stated_count(deployment: &Deployment, r: i32)
    requires
        call_ensures(Scaler::get_replicas, (deployment,), r),
    ensures
        r == if deployment.spec is Some && deployment.spec->0.replicas is Some {
            deployment.spec->0.replicas->0
        } else {
            1
        },
{
    replica_count_is_the_stated_one(*deployment);
}

/// `Scaler::list_runner_pods` returns the names of the pods in phase `Running`, in order.
pub proof fn list_runner_pods_returns_those_running(pods: &Vec<Pod>, r: Vec<String>)
    requires
        call_ensures(Scaler::list_runner_pods, (pods,), r),
    ensures
        exists|running: Seq<Pod>|
            {
                &&& #[trigger] are_those(pods@, named_and_in_phase_running(), running)
                &&& r@.len() == running.len()
                &&& forall|i: int|
                    0 <= i < running.len() ==> r@[i]@ == (#[trigger] running[i]).name->0@
            },
{
    running_pods_are_those_in_phase_running(pods@);
    let running = choose|running: Seq<Pod>|
        {
            &&& #[trigger] are_those(pods@, named_and_in_phase_running(), running)
            &&& running_names(pods@).len() == running.len()
            &&& forall|i: int|
                0 <= i < running.len() ==> running_names(pods@)[i] == (
                #[trigger] running[i]).name->0@
        };
    assert forall|i: int| 0 <= i < running.len() implies r@[i]@ == (#[trigger] running[i]).name->0@
        by {
        assert(views(r@)[i] == r@[i]@);
    }
    assert(views(r@).len() == r@.len());
}

/// `Scaler::list_live_runner_pod_names` returns the names of the pods that have not ended.
pub proof fn list_live_runner_pod_names_returns_those_not_ended(
    pods: &Vec<Pod>,
    r: StringHashSet,
    name: Seq<char>,
)
    requires
        call_ensures(Scaler::list_live_runner_pod_names, (pods,), r),
    ensures
        r@.contains(name) <==> exists|i: int|
            {
                &&& 0 <= i < pods@.len()
                &&& (#[trigger] pods@[i]).name is Some
                &&& pods@[i].name->0@ == name
                &&& pods@[i].status matches Some(status) ==> (status.phase matches Some(phase)
                    ==> phase@ != "Succeeded"@ && phase@ != "Failed"@)
            },
{
    pods_that_have_not_ended_are_live(pods@, name);
}

/// `Scaler::safe_scale_down` starts to remove pods exactly where more run than are to be left and
/// one of them is idle. It takes on the first idle ones, as many as are too many or else all.
pub proof fn safe_scale_down_removes_idle_pods_that_are_too_many(
    pods: &Vec<String>,
    target: i32,
    busy_runners: &StringHashSet,
    r: Option<ScaleDown>,
)
    requires
        call_ensures(Scaler::safe_scale_down, (pods, target, busy_runners), r),
    ensures
        r is Some <==> pods@.len() > target && exists|i: int|
            0 <= i < pods@.len() && !busy_runners@.contains(#[trigger] pods@[i]@),
        r matches Some(removal) ==> {
            let idle = idle_names(views(pods@), busy_runners@);
            let count = removal@.removable.len();
            &&& removal@.target == target
            &&& removal@.current == pods@.len()
            &&& removal@.next == 0
            &&& removal@.deleted == 0
            &&& removal@.removable == idle.take(count as int)
            &&& count <= idle.len() && count <= pods@.len() - target
            &&& count == idle.len() || count == pods@.len() - target
        },
{
    let names = views(pods@);
    assert forall|i: int| 0 <= i < pods@.len() implies #[trigger] names[i] == pods@[i]@ by {}
    surplus_of_idle_pods_is_removed(names, target as int, busy_runners@);
    if exists|i: int| 0 <= i < names.len() && !busy_runners@.contains(#[trigger] names[i]) {
        let i = choose|i: int| 0 <= i < names.len() && !busy_runners@.contains(#[trigger] names[i]);
        assert(!busy_runners@.contains(pods@[i]@));
    }
    if exists|i: int| 0 <= i < pods@.len() && !busy_runners@.contains(#[trigger] pods@[i]@) {
        let i = choose|i: int| 0 <= i < pods@.len() && !busy_runners@.contains(#[trigger] pods@[i]@);
        assert(!busy_runners@.contains(names[i]));
    }
}

/// `ScaleDown::next_pod` and `ScaleDown::note` go through all pods in order, whether they could be
/// deleted or not. `ScaleDown::new_count` is what is left of the pods that ran, but not less than
/// was to be left.
pub proof fn removal_goes_on_to_the_last_pod(
    removal: ScaleDown,
    deleted: bool,
    next: Option<&String>,
    noted: ScaleDown,
    count: i32,
)
    requires
        call_ensures(ScaleDown::next_pod, (&removal,), next),
        call_ensures(ScaleDown::note, (removal, deleted), noted),
        call_ensures(ScaleDown::new_count, (&removal,), count),
    ensures
        next is Some <==> removal@.next < removal@.removable.len(),
        next matches Some(name) ==> name@ == removal@.removable[removal@.next as int],
        noted@.next == removal@.next + 1,
        noted@.deleted == removal@.deleted + if deleted {
            1int
        } else {
            0
        },
        noted@.removable == removal@.removable,
        noted@.target == removal@.target,
        noted@.current == removal@.current,
        count == removal@.current - removal@.deleted || (count == removal@.target
            && removal@.current - removal@.deleted < removal@.target),
        removal@.target <= count,
{
}

/// `desired_replicas` is within the bounds, and nothing within them is nearer to the number of
/// queued and running jobs.
pub proof fn desired_replicas_is_the_nearest_within_bounds(
    queued: u64,
    running: usize,
    min: i32,
    max: i32,
    r: i32,
    other: i32,
)
    requires
        min <= other <= max,
        call_ensures(desired_replicas, (queued, running, min, max), r),
    ensures
        min <= r <= max,
        distance(queued + running, r as int) <= distance(queued + running, other as int),
        distance(queued + running, r as int) == distance(queued + running, other as int) ==> r
            == other,
{
    wanted_count_is_the_nearest_within_bounds(
        queued + running,
        min as int,
        max as int,
        other as int,
    );
}

/// `decide_after` goes by which count is the greater, and for a surplus by the time that has passed.
pub proof fn decide_after_waits_for_the_cooldown(
    current: i32,
    desired: i32,
    cooldown_secs: u64,
    elapsed: u64,
    r: ScaleDecision,
)
    requires
        call_ensures(decide_after, (current, desired, cooldown_secs, elapsed), r),
    ensures
        r is ScaleUp <==> current < desired,
        r is Noop <==> current == desired,
        r is ScaleDown <==> current > desired && elapsed >= cooldown_secs,
        r matches ScaleDecision::WaitCooldown { remaining } ==> remaining > 0 && elapsed + remaining
            == cooldown_secs,
{
}

/// `Tick::new` starts a cycle for the configuration by listing the live pods, and each step takes it
/// on as the transitions say.
pub proof fn cycles_step_as_they_should(
    config: &Config,
    first: (Tick, Action),
    tick: Tick,
    event: &Event,
    decided: ScaleDecision,
    r: (Tick, Action),
)
    requires
        call_ensures(Tick::new, (config,), first),
        call_ensures(Tick::step_deciding, (tick, event, decided), r),
    ensures
        first.0@.min_replicas == config.min_replicas,
        first.0@.max_replicas == config.max_replicas,
        first.0@.cooldown_secs == config.scale_down_delay,
        first.0@.report is None,
        first.0@.phase is LivePods,
        first.1@ is ListLivePods,
        r.0@ == tick@.next(*event, decided).0,
        r.1@ == tick@.next(*event, decided).1,
{
}

/// `parse_u64` and `parse_i32` read the decimal notation of every number that fits.
pub proof fn parsing_reads_back(
    n: u64,
    signed: i32,
    text: &str,
    signed_text: &str,
    r: Option<u64>,
    s: Option<i32>,
)
    requires
        text@ == decimal(n as nat),
        signed_text@ == signed_decimal(signed as int),
        call_ensures(parse_u64, (text,), r),
        call_ensures(parse_i32, (signed_text,), s),
    ensures
        r == Some(n),
        s == Some(signed),
{
    numbers_read_back(n, signed);
}

/// `Endpoint::rejection_with` quotes the status and the whole body after the name of the API.
pub proof fn rejection_quotes_the_reply(endpoint: &Endpoint, status: &str, body: &str, r: String)
    requires
        call_ensures(Endpoint::rejection_with, (endpoint, status, body), r),
    ensures
        r@ == (match endpoint {
            Endpoint::Jobs => "Gitea API returned "@,
            Endpoint::Runners => "Gitea runners API returned "@,
            Endpoint::DeleteRunner => "Gitea delete runner API returned "@,
        }) + status@ + ": "@ + body@,
{
    rejections_quote_the_reply(status@, body@);
}

/// A `Scaler` keeps the names that it is made with, and selects pods by the label `app`.
pub proof fn scaler_keeps_its_names(
    namespace: &str,
    deployment_name: &str,
    scaler: Scaler,
    r_namespace: &str,
    r_deployment_name: &str,
    selector: String,
)
    requires
        call_ensures(Scaler::new, (namespace, deployment_name), scaler),
        call_ensures(Scaler::namespace, (&scaler,), r_namespace),
        call_ensures(Scaler::deployment_name, (&scaler,), r_deployment_name),
        call_ensures(Scaler::pod_selector, (&scaler,), selector),
    ensures
        r_namespace@ == namespace@,
        r_deployment_name@ == deployment_name@,
        selector@ == "app="@ + deployment_name@,
{
}

/// `Scaler::idle_count` counts the pods that no busy runner is named after.
pub proof fn idle_count_counts_those_not_busy(
    pods: &Vec<String>,
    busy_runners: &StringHashSet,
    r: usize,
)
    requires
        call_ensures(Scaler::idle_count, (pods, busy_runners), r),
    ensures
        r == idle_names(views(pods@), busy_runners@).len(),
        are_those(
            views(pods@),
            |name: Seq<char>| !busy_runners@.contains(name),
            idle_names(views(pods@), busy_runners@),
        ),
{
    idle_pods_are_those_not_busy(views(pods@), busy_runners@);
}

/// `name_set` holds each of the names, and nothing else.
pub proof fn name_set_holds_the_names(names: Vec<String>, r: StringHashSet, name: Seq<char>)
    requires
        call_ensures(name_set, (names,), r),
    ensures
        r@.contains(name) <==> names@.map_values(|n: String| n@).contains(name),
{
    name_sets_hold_the_names(names@, name);
}

/// A report says that scaling down was put off where the job list was not read to its end, and that
/// all pods were busy where too many run and none is idle.
pub proof fn reports_say_why_no_pod_was_removed(report: &Report, put_off: bool, all_busy: bool)
    requires
        call_ensures(Report::puts_off_scale_down, (report,), put_off),
        call_ensures(Report::all_pods_busy, (report,), all_busy),
    ensures
        put_off <==> report.decision == ScaleDecision::ScaleDown && !report.jobs.read_to_end,
        all_busy <==> report.pods is Some && report.pods->0.idle == 0 && report.pods->0.current
            > report.desired,
{
}

} // verus!
