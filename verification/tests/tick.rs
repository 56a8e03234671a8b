use gitea_autoscaler::config::{Config, GiteaAuth};
use gitea_autoscaler::decision::ScaleDecision;
use gitea_autoscaler::gitea::{Job, JobsResponse, Runner, RunnersResponse};
use gitea_autoscaler::scaler::{Deployment, DeploymentSpec, Pod, PodStatus};
use gitea_autoscaler::tick::{Action, Event, JobCounts, Outcome, PodCounts, Tick};
use std::time::{Duration, Instant};

fn config(min: i32, max: i32, cooldown: u64) -> Config {
    Config {
        gitea_url: "http://gitea".to_string(),
        gitea_auth: GiteaAuth::Token("t".to_string()),
        runner_deployment: "runner".to_string(),
        runner_namespace: "gitea".to_string(),
        min_replicas: min,
        max_replicas: max,
        poll_interval: 10,
        scale_down_delay: cooldown,
    }
}

fn pods(names: &[&str]) -> Event {
    Event::Pods(
        names
            .iter()
            .map(|name| Pod {
                name: Some(name.to_string()),
                status: Some(PodStatus { phase: Some("Running".to_string()) }),
            })
            .collect(),
    )
}

fn jobs(busy: &[&str], total_count: u64) -> Event {
    Event::Jobs(JobsResponse {
        jobs: busy
            .iter()
            .map(|name| Job {
                id: 1,
                status: "in_progress".to_string(),
                runner_name: name.to_string(),
                name: String::new(),
            })
            .collect(),
        total_count,
    })
}

fn replicas(replicas: i32) -> Event {
    Event::Deployment(Deployment { spec: Some(DeploymentSpec { replicas: Some(replicas) }) })
}

fn offline(runners: &[(u64, &str)]) -> Event {
    Event::Runners(RunnersResponse {
        runners: runners
            .iter()
            .map(|(id, name)| Runner {
                busy: false,
                id: *id,
                name: name.to_string(),
                status: "offline".to_string(),
            })
            .collect(),
    })
}

fn show(action: &Action) -> String {
    match action {
        Action::ListLivePods => "live pods".to_string(),
        Action::FetchJobs { page } => format!("jobs {}", page),
        Action::GetDeployment => "deployment".to_string(),
        Action::Scale { replicas } => format!("scale {}", replicas),
        Action::ListRunnerPods => "runner pods".to_string(),
        Action::DeletePod { name } => format!("delete pod {}", name),
        Action::ListRunners => "runners".to_string(),
        Action::DeleteRunner { id, name } => format!("delete runner {} {}", id, name),
        Action::Finish(Outcome::Failed) => "failed".to_string(),
        Action::Finish(Outcome::Cleaned { removed }) => format!("cleaned {}", removed),
        Action::Finish(Outcome::CleanupFailed) => "cleanup failed".to_string(),
    }
}

fn long_page(busy: &[&str], total_count: u64) -> Event {
    let jobs = (0..50)
        .map(|id| Job {
            id,
            status: "in_progress".to_string(),
            runner_name: busy.get(id as usize).unwrap_or(&"").to_string(),
            name: String::new(),
        })
        .collect();
    Event::Jobs(JobsResponse { jobs, total_count })
}

/// Runs a cycle on the given ends of its calls, and returns the calls that it made.
fn run(
    config: &Config,
    since: &mut Option<Instant>,
    events: Vec<Event>,
) -> (Vec<String>, Option<ScaleDecision>) {
    let (mut tick, action) = Tick::new(config);
    let mut calls = vec![show(&action)];
    for event in events {
        assert!(tick.expects(&event), "{:?} after {:?}", event, calls);
        let (next, action) = tick.step(&event, since);
        tick = next;
        calls.push(show(&action));
    }
    (calls, tick.report().map(|report| report.decision))
}

#[test]
fn a_cycle_with_nothing_to_do() {
    let mut since = Some(Instant::now());
    let (calls, decision) = run(
        &config(1, 3, 300),
        &mut since,
        vec![pods(&["a"]), jobs(&["a"], 1), replicas(1), offline(&[])],
    );
    assert_eq!(calls, vec!["live pods", "jobs 1", "deployment", "runners", "cleaned 0"]);
    assert_eq!(decision, Some(ScaleDecision::Noop));
    assert!(since.is_none());
}

#[test]
fn a_cycle_that_scales_up() {
    let mut since = None;
    let (calls, decision) = run(
        &config(1, 3, 300),
        &mut since,
        vec![
            pods(&["a"]),
            jobs(&["a"], 9),
            jobs(&[], 9),
            replicas(1),
            Event::Done,
            offline(&[]),
        ],
    );
    assert_eq!(
        calls,
        vec!["live pods", "jobs 1", "jobs 2", "deployment", "scale 3", "runners", "cleaned 0"]
    );
    assert_eq!(decision, Some(ScaleDecision::ScaleUp));
}

#[test]
fn a_cycle_that_waits() {
    let mut since = None;
    let (calls, decision) = run(
        &config(1, 3, 300),
        &mut since,
        vec![pods(&["a", "b"]), jobs(&["a"], 1), replicas(2), offline(&[])],
    );
    assert_eq!(calls, vec!["live pods", "jobs 1", "deployment", "runners", "cleaned 0"]);
    assert_eq!(decision, Some(ScaleDecision::WaitCooldown { remaining: 300 }));
    assert!(since.is_some());
}

#[test]
fn a_cycle_that_scales_down_spares_busy_pods() {
    let mut since = Some(Instant::now() - Duration::from_secs(301));
    let (calls, decision) = run(
        &config(1, 5, 300),
        &mut since,
        vec![
            pods(&["a", "b", "c", "d"]),
            jobs(&["a", "c"], 2),
            replicas(4),
            pods(&["a", "b", "c", "d"]),
            Event::Failed,
            Event::Done,
            Event::Done,
            offline(&[(1, "a"), (2, "gone")]),
            Event::Done,
        ],
    );
    assert_eq!(
        calls,
        vec![
            "live pods",
            "jobs 1",
            "deployment",
            "runner pods",
            "delete pod b",
            "delete pod d",
            "scale 3",
            "runners",
            "delete runner 2 gone",
            "cleaned 1",
        ]
    );
    assert_eq!(decision, Some(ScaleDecision::ScaleDown));
    assert!(since.is_some());
}

#[test]
fn a_cycle_with_no_pod_to_remove_goes_on() {
    let mut since = Some(Instant::now() - Duration::from_secs(301));
    let (calls, _) = run(
        &config(0, 5, 300),
        &mut since,
        vec![pods(&["a"]), jobs(&["a"], 1), replicas(4), pods(&["a"]), offline(&[])],
    );
    assert_eq!(
        calls,
        vec!["live pods", "jobs 1", "deployment", "runner pods", "runners", "cleaned 0"]
    );
}

#[test]
fn several_pages_and_several_stale_runners() {
    let mut since = None;
    let page = || {
        Event::Jobs(JobsResponse {
            jobs: (0..50)
                .map(|id| Job {
                    id,
                    status: "queued".to_string(),
                    runner_name: String::new(),
                    name: String::new(),
                })
                .collect(),
            total_count: 101,
        })
    };
    let (calls, _) = run(
        &config(1, 2, 300),
        &mut since,
        vec![
            pods(&["a"]),
            page(),
            page(),
            jobs(&["a"], 101),
            replicas(2),
            offline(&[(1, "x"), (2, "a"), (3, "y")]),
            Event::Done,
            Event::Done,
        ],
    );
    assert_eq!(
        calls,
        vec![
            "live pods",
            "jobs 1",
            "jobs 2",
            "jobs 3",
            "deployment",
            "runners",
            "delete runner 1 x",
            "delete runner 3 y",
            "cleaned 2",
        ]
    );
}

#[test]
fn calls_that_fail_end_the_cycle() {
    let c = config(1, 3, 300);
    let late = || Some(Instant::now() - Duration::from_secs(301));
    let last = |since: &mut Option<Instant>, events| run(&c, since, events).0.pop().unwrap();

    assert_eq!(last(&mut None, vec![Event::Failed]), "failed");
    assert_eq!(last(&mut None, vec![pods(&[]), Event::Failed]), "failed");
    assert_eq!(last(&mut None, vec![pods(&[]), jobs(&[], 0), Event::Failed]), "failed");
    assert_eq!(
        last(&mut None, vec![pods(&[]), jobs(&[], 0), replicas(0), Event::Failed]),
        "failed"
    );
    assert_eq!(
        last(&mut late(), vec![pods(&[]), jobs(&[], 0), replicas(2), Event::Failed]),
        "failed"
    );
    assert_eq!(
        last(
            &mut late(),
            vec![pods(&[]), jobs(&[], 0), replicas(2), pods(&["a", "b"]), Event::Done, Event::Failed]
        ),
        "failed"
    );
    assert_eq!(
        last(&mut None, vec![pods(&[]), jobs(&[], 0), replicas(1), Event::Failed]),
        "cleanup failed"
    );
    assert_eq!(
        last(
            &mut None,
            vec![
                pods(&[]),
                jobs(&[], 0),
                replicas(1),
                offline(&[(1, "x"), (2, "y")]),
                Event::Done,
                Event::Failed
            ]
        ),
        "cleanup failed"
    );
}

#[test]
fn a_failed_read_of_the_deployment_leaves_the_cooldown() {
    let start = Instant::now();
    let mut since = Some(start);
    run(&config(1, 3, 300), &mut since, vec![pods(&[]), jobs(&[], 0), Event::Failed]);
    assert_eq!(since, Some(start));
}

#[test]
fn the_report_says_what_was_seen() {
    let mut since = None;
    let (tick, _) = Tick::new(&config(1, 3, 300));
    assert!(tick.report().is_none());
    let (tick, _) = tick.step(&pods(&["a"]), &mut since);
    assert!(tick.job_counts().is_none());
    let (tick, _) = tick.step(&jobs(&["a"], 1), &mut since);
    let counts = JobCounts { total_count: 1, queued: 0, running: 1, read_to_end: true };
    assert_eq!(tick.job_counts(), Some(counts));
    let (tick, action) = tick.step_deciding(&replicas(3), ScaleDecision::ScaleDown);
    assert_eq!(show(&action), "runner pods");
    assert!(tick.job_counts().is_none());
    let report = tick.report().unwrap();
    assert_eq!((report.current, report.desired), (3, 1));
    assert_eq!(report.jobs, counts);
    assert_eq!(report.decision, ScaleDecision::ScaleDown);
    assert!(report.pods.is_none());
    assert!(!report.puts_off_scale_down() && !report.all_pods_busy());

    let (tick, action) = tick.step(&pods(&["a", "b", "c"]), &mut since);
    assert_eq!(show(&action), "delete pod b");
    let report = tick.report().unwrap();
    assert_eq!(report.pods, Some(PodCounts { current: 3, idle: 2 }));
    assert!(!report.all_pods_busy());
}

#[test]
fn the_report_says_that_all_pods_were_busy() {
    let mut since = None;
    let (tick, _) = Tick::new(&config(0, 5, 0));
    let (tick, _) = tick.step(&pods(&["a", "b"]), &mut since);
    let (tick, _) = tick.step(&jobs(&["a", "b"], 1), &mut since);
    let (tick, _) = tick.step_deciding(&replicas(3), ScaleDecision::ScaleDown);
    let (enough, _) = tick.step(&pods(&["a", "b"]), &mut since);
    assert_eq!(enough.report().unwrap().pods, Some(PodCounts { current: 2, idle: 0 }));
    assert!(!enough.report().unwrap().all_pods_busy());

    let (tick, _) = Tick::new(&config(0, 1, 0));
    let (tick, _) = tick.step(&pods(&["a", "b"]), &mut since);
    let (tick, _) = tick.step(&jobs(&["a", "b"], 2), &mut since);
    let (tick, _) = tick.step_deciding(&replicas(3), ScaleDecision::ScaleDown);
    let (tick, action) = tick.step(&pods(&["a", "b"]), &mut since);
    assert_eq!(show(&action), "runners");
    assert!(tick.report().unwrap().all_pods_busy());
}

#[test]
fn no_pod_is_removed_after_a_partial_reading() {
    let start = Instant::now() - Duration::from_secs(301);
    let mut since = Some(start);
    let (calls, decision) = run(
        &config(1, 1, 300),
        &mut since,
        vec![
            pods(&["a", "b", "c"]),
            long_page(&["a"], 100),
            replicas(2),
            offline(&[(1, "b"), (2, "gone")]),
            Event::Done,
        ],
    );
    assert_eq!(
        calls,
        vec![
            "live pods",
            "jobs 1",
            "deployment",
            "runners",
            "delete runner 2 gone",
            "cleaned 1",
        ]
    );
    assert_eq!(decision, Some(ScaleDecision::ScaleDown));
    assert_eq!(since, Some(start));

    let (tick, _) = Tick::new(&config(1, 1, 300));
    let (tick, _) = tick.step(&pods(&["a", "b"]), &mut since);
    let (tick, _) = tick.step(&long_page(&["a"], 100), &mut since);
    let (tick, _) = tick.step_deciding(&replicas(2), ScaleDecision::ScaleDown);
    let report = tick.report().unwrap();
    assert!(report.puts_off_scale_down());
    assert_eq!(
        report.jobs,
        JobCounts { total_count: 100, queued: 99, running: 1, read_to_end: false }
    );
}

#[test]
fn pods_are_removed_at_full_capacity_once_the_list_is_read() {
    let mut since = Some(Instant::now() - Duration::from_secs(301));
    let (calls, _) = run(
        &config(1, 1, 300),
        &mut since,
        vec![
            pods(&["a", "b"]),
            long_page(&["a"], 50),
            replicas(2),
            pods(&["a", "b"]),
            Event::Done,
            Event::Done,
            offline(&[]),
        ],
    );
    assert_eq!(
        calls,
        vec![
            "live pods",
            "jobs 1",
            "deployment",
            "runner pods",
            "delete pod b",
            "scale 1",
            "runners",
            "cleaned 0",
        ]
    );
}

#[test]
fn a_ceiling_of_none_removes_pods_where_there_is_no_job() {
    let mut since = Some(Instant::now() - Duration::from_secs(301));
    let (calls, _) = run(
        &config(0, 0, 300),
        &mut since,
        vec![pods(&["a"]), jobs(&[], 0), replicas(1), pods(&["a"]), Event::Done],
    );
    assert_eq!(
        calls,
        vec!["live pods", "jobs 1", "deployment", "runner pods", "delete pod a", "scale 0"]
    );
}

#[test]
fn only_the_awaited_end_of_a_call_is_expected() {
    let (tick, _) = Tick::new(&config(1, 3, 300));
    assert!(tick.expects(&Event::Failed));
    assert!(tick.expects(&pods(&[])));
    assert!(!tick.expects(&Event::Done));
    assert!(!tick.expects(&jobs(&[], 0)));
    let (tick, _) = tick.step(&Event::Failed, &mut None);
    assert!(!tick.expects(&Event::Failed));
}
