use gitea_autoscaler::gitea::{GiteaClient, Job, JobsResponse};
use gitea_autoscaler::jobs::{JobScan, JobSummary, ScanStep};

fn job(id: u64, status: &str, runner_name: &str) -> Job {
    Job {
        id,
        status: status.to_string(),
        runner_name: runner_name.to_string(),
        name: format!("job {}", id),
    }
}

fn queued(count: u64) -> Vec<Job> {
    (0..count).map(|i| job(i, "queued", "")).collect()
}

fn page(jobs: Vec<Job>, total_count: u64) -> JobsResponse {
    JobsResponse { jobs, total_count }
}

fn done(step: ScanStep) -> JobSummary {
    match step {
        ScanStep::Done(summary) => summary,
        ScanStep::More(scan) => panic!("page {} is asked for", scan.page()),
    }
}

fn more(step: ScanStep) -> JobScan {
    match step {
        ScanStep::More(scan) => scan,
        ScanStep::Done(_) => panic!("the reading is over"),
    }
}

#[test]
fn one_page_is_enough_for_few_jobs() {
    let scan = GiteaClient::get_jobs(3);
    assert_eq!(scan.page(), 1);
    let summary = done(scan.take_page(&page(
        vec![
            job(1, "queued", ""),
            job(2, "in_progress", "runner-a"),
            job(3, "in_progress", ""),
            job(4, "queued", "runner-q"),
            job(5, "in_progress", "runner-a"),
        ],
        5,
    )));
    assert_eq!(summary.total_count, 5);
    assert_eq!(summary.queued, 4);
    assert_eq!(summary.busy_runners.len(), 1);
    assert!(summary.busy_runners.contains("runner-a"));
    assert!(!summary.busy_runners.contains("runner-q"));
    assert!(summary.read_to_end);
}

#[test]
fn empty_list() {
    let summary = done(GiteaClient::get_jobs(3).take_page(&page(vec![], 0)));
    assert_eq!((summary.total_count, summary.queued, summary.busy_runners.len()), (0, 0, 0));
    assert!(summary.read_to_end);
}

#[test]
fn further_pages_are_read() {
    let mut first = queued(49);
    first.push(job(50, "in_progress", "a"));
    let scan = more(GiteaClient::get_jobs(3).take_page(&page(first, 52)));
    assert_eq!(scan.page(), 2);
    let summary =
        done(scan.take_page(&page(vec![job(51, "in_progress", "b"), job(52, "queued", "")], 52)));
    assert_eq!(summary.total_count, 52);
    assert_eq!(summary.queued, 50);
    assert_eq!(summary.busy_runners.len(), 2);
    assert!(summary.busy_runners.contains("a") && summary.busy_runners.contains("b"));
}

#[test]
fn reading_stops_at_an_empty_page() {
    let scan = more(GiteaClient::get_jobs(3).take_page(&page(queued(50), 80)));
    let summary = done(scan.take_page(&page(vec![], 80)));
    assert_eq!(summary.queued, 80);
    assert!(summary.read_to_end);
}

#[test]
fn a_short_page_counts_as_a_full_one() {
    let scan = more(GiteaClient::get_jobs(3).take_page(&page(queued(10), 60)));
    assert_eq!(scan.page(), 2);
    done(scan.take_page(&page(queued(10), 60)));
}

#[test]
fn reading_stops_at_full_capacity() {
    let mut jobs = queued(48);
    jobs.push(job(1, "in_progress", "a"));
    jobs.push(job(2, "in_progress", "b"));
    let summary = done(GiteaClient::get_jobs(2).take_page(&page(jobs, 500)));
    assert_eq!((summary.total_count, summary.queued), (500, 498));
    assert!(!summary.read_to_end);
}

#[test]
fn full_capacity_on_the_last_page_is_no_early_stop() {
    let summary = done(GiteaClient::get_jobs(1).take_page(&page(
        vec![job(1, "in_progress", "a"), job(2, "queued", "")],
        2,
    )));
    assert_eq!(summary.queued, 1);
    assert!(summary.read_to_end);
    assert!(done(GiteaClient::get_jobs(0).take_page(&page(vec![], 0))).read_to_end);
}

#[test]
fn jobs_that_are_worked_on() {
    assert!(job(1, "in_progress", "a").is_worked_on());
    assert!(!job(1, "in_progress", "").is_worked_on());
    assert!(!job(1, "queued", "a").is_worked_on());
}

#[test]
fn no_replicas_need_no_second_page() {
    let summary = done(GiteaClient::get_jobs(0).take_page(&page(queued(50), 500)));
    assert_eq!(summary.queued, 500);
    assert!(!summary.read_to_end);
}

#[test]
fn more_busy_runners_than_jobs_leave_none_queued() {
    let summary = done(GiteaClient::get_jobs(9).take_page(&page(
        vec![job(1, "in_progress", "a"), job(2, "in_progress", "b")],
        1,
    )));
    assert_eq!(summary.queued, 0);
    assert_eq!(summary.busy_runners.len(), 2);
}

#[test]
fn the_total_is_not_cut_off() {
    let mut jobs = queued(49);
    jobs.push(job(1, "in_progress", "a"));
    let summary = done(GiteaClient::get_jobs(1).take_page(&page(jobs, u64::MAX)));
    assert_eq!(summary.queued, u64::MAX - 1);
}
