use gitea_autoscaler::gitea::{GiteaClient, Runner};
use gitea_autoscaler::names::name_set;
use gitea_autoscaler::runners::select_stale_offline_runners;

fn runner(id: u64, name: &str, status: &str, busy: bool) -> Runner {
    Runner { busy, id, name: name.to_string(), status: status.to_string() }
}

#[test]
fn selects_offline_runners_missing_from_cluster() {
    let live_runner_names = name_set(vec!["runner-live".to_string()]);
    let busy_runners = name_set(vec![]);
    let runners = vec![
        runner(1, "runner-live", "offline", false),
        runner(2, "runner-stale", "offline", false),
    ];

    let selected = select_stale_offline_runners(&runners, &live_runner_names, &busy_runners);

    assert_eq!(selected, vec![&runners[1]]);
}

#[test]
fn skips_online_and_busy_runners() {
    let live_runner_names = name_set(vec![]);
    let busy_runners = name_set(vec!["runner-busy".to_string(), "runner-job".to_string()]);
    let runners = vec![
        runner(1, "runner-online", "online", false),
        runner(2, "runner-busy", "offline", true),
        runner(3, "runner-job", "offline", false),
    ];

    let selected = select_stale_offline_runners(&runners, &live_runner_names, &busy_runners);

    assert_eq!(selected, Vec::<&Runner>::new());
}

#[test]
fn matches_offline_status_case_insensitively() {
    let live_runner_names = name_set(vec![]);
    let busy_runners = name_set(vec![]);
    let runners = vec![runner(9, "runner-stale", "OffLine", false)];

    let selected = select_stale_offline_runners(&runners, &live_runner_names, &busy_runners);

    assert_eq!(selected, vec![&runners[0]]);
}

#[test]
fn a_busy_runner_is_kept_though_no_job_names_it() {
    let none = name_set(vec![]);
    let runners = vec![runner(1, "a", "offline", true), runner(2, "b", "idle", false)];
    assert!(select_stale_offline_runners(&runners, &none, &none).is_empty());
}

#[test]
fn cleanup_goes_through_the_stale_runners_in_order() {
    let live = name_set(vec!["b".to_string()]);
    let busy = name_set(vec!["d".to_string()]);
    let runners = vec![
        runner(1, "a", "offline", false),
        runner(2, "b", "offline", false),
        runner(3, "c", "OFFLINE", false),
        runner(4, "d", "offline", false),
    ];

    let cleanup = GiteaClient::cleanup_offline_runners(&runners, &live, &busy);
    assert_eq!(cleanup.stale_count(), 2);
    assert_eq!(cleanup.next_runner(), Some(&runners[0]));
    let cleanup = cleanup.advance();
    assert_eq!(cleanup.next_runner(), Some(&runners[2]));
    let cleanup = cleanup.advance();
    assert_eq!(cleanup.next_runner(), None);
    assert_eq!(cleanup.stale_count(), 2);
}
