use gitea_autoscaler::names::name_set;
use gitea_autoscaler::scaler::{Deployment, DeploymentSpec, Pod, PodStatus, ScaleDown, Scaler};

fn pod(name: Option<&str>, phase: Option<&str>) -> Pod {
    Pod {
        name: name.map(|n| n.to_string()),
        status: Some(PodStatus { phase: phase.map(|p| p.to_string()) }),
    }
}

fn pods() -> Vec<Pod> {
    vec![
        pod(Some("running"), Some("Running")),
        pod(Some("pending"), Some("Pending")),
        pod(Some("succeeded"), Some("Succeeded")),
        pod(Some("failed"), Some("Failed")),
        pod(Some("unknown"), None),
        Pod { name: Some("no-status".to_string()), status: None },
        pod(None, Some("Running")),
        pod(Some("lower"), Some("running")),
        pod(Some("running-too"), Some("Running")),
    ]
}

fn names(list: &[&str]) -> Vec<String> {
    list.iter().map(|n| n.to_string()).collect()
}

/// Runs the removal with the given results, and returns the pods tried and the count at the end.
fn run(removal: Option<ScaleDown>, results: &[bool]) -> Option<(Vec<String>, i32)> {
    let mut removal = removal?;
    let mut tried = vec![];
    for deleted in results {
        tried.push(removal.next_pod().unwrap().clone());
        removal = removal.note(*deleted);
    }
    assert!(removal.next_pod().is_none());
    Some((tried, removal.new_count()))
}

#[test]
fn scaler_names_its_deployment() {
    let scaler = Scaler::new("gitea", "gitea-actions-runner");
    assert_eq!(scaler.namespace(), "gitea");
    assert_eq!(scaler.deployment_name(), "gitea-actions-runner");
    assert_eq!(scaler.pod_selector(), "app=gitea-actions-runner");
}

#[test]
fn replicas_default_to_one() {
    assert_eq!(Scaler::get_replicas(&Deployment { spec: None }), 1);
    assert_eq!(
        Scaler::get_replicas(&Deployment { spec: Some(DeploymentSpec { replicas: None }) }),
        1
    );
    assert_eq!(
        Scaler::get_replicas(&Deployment { spec: Some(DeploymentSpec { replicas: Some(0) }) }),
        0
    );
}

#[test]
fn running_pods_are_listed_in_order() {
    assert_eq!(Scaler::list_runner_pods(&pods()), vec!["running", "running-too"]);
}

#[test]
fn live_pods_are_those_that_have_not_ended() {
    let live = Scaler::list_live_runner_pod_names(&pods());
    assert_eq!(live.len(), 6);
    for name in ["running", "pending", "unknown", "no-status", "lower", "running-too"] {
        assert!(live.contains(name));
    }
    assert!(!live.contains("succeeded") && !live.contains("failed"));
}

#[test]
fn running_pods_are_among_the_live_ones() {
    let live = Scaler::list_live_runner_pod_names(&pods());
    assert!(Scaler::list_runner_pods(&pods()).iter().all(|name| live.contains(name)));
}

#[test]
fn idle_pods_are_removed_down_to_the_target() {
    let busy = name_set(names(&["a", "d"]));
    let removal = Scaler::safe_scale_down(&names(&["a", "b", "c", "d", "e"]), 3, &busy);
    assert_eq!(run(removal, &[true, true]), Some((names(&["b", "c"]), 3)));
}

#[test]
fn busy_pods_stay_though_they_are_too_many() {
    let busy = name_set(names(&["a", "b", "c"]));
    let removal = Scaler::safe_scale_down(&names(&["a", "b", "c", "d"]), 1, &busy);
    assert_eq!(run(removal, &[true]), Some((names(&["d"]), 3)));
}

#[test]
fn pods_that_could_not_be_deleted_still_count() {
    let busy = name_set(vec![]);
    let removal = Scaler::safe_scale_down(&names(&["a", "b", "c"]), 1, &busy);
    assert_eq!(run(removal, &[false, true]), Some((names(&["a", "b"]), 2)));
    let removal = Scaler::safe_scale_down(&names(&["a", "b", "c"]), 1, &busy);
    assert_eq!(run(removal, &[false, false]), Some((names(&["a", "b"]), 3)));
}

#[test]
fn nothing_is_removed_without_a_surplus_or_an_idle_pod() {
    let none = name_set(vec![]);
    assert!(Scaler::safe_scale_down(&names(&["a", "b"]), 2, &none).is_none());
    assert!(Scaler::safe_scale_down(&names(&["a", "b"]), 3, &none).is_none());
    assert!(Scaler::safe_scale_down(&names(&[]), 0, &none).is_none());
    let busy = name_set(names(&["a", "b"]));
    assert!(Scaler::safe_scale_down(&names(&["a", "b"]), 1, &busy).is_none());
}

#[test]
fn idle_pods_are_counted() {
    let busy = name_set(names(&["a", "d"]));
    assert_eq!(Scaler::idle_count(&names(&["a", "b", "c", "d", "e"]), &busy), 3);
    assert_eq!(Scaler::idle_count(&names(&["a", "d"]), &busy), 0);
    assert_eq!(Scaler::idle_count(&names(&[]), &busy), 0);
}
