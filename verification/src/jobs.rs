//! Reading the job list page by page.
use crate::decision::clamped;
use crate::gitea::{GiteaClient, Job, JobsResponse, PAGE_LIMIT};
use crate::text::same_text;
use vstd::hash_set::StringHashSet;
use vstd::prelude::*;

verus! {

/// Whether a runner works on the job.
pub open spec fn is_worked_on(job: Job) -> bool {
    job.status@ == "in_progress"@ && job.runner_name@.len() > 0
}

/// The names of the runners that work on one of the jobs.
pub open spec fn working_runners(jobs: Seq<Job>) -> Set<Seq<char>> {
    Set::new(
        |n: Seq<char>|
            exists|i: int|
                0 <= i < jobs.len() && is_worked_on(#[trigger] jobs[i]) && jobs[i].runner_name@
                    == n,
    )
}

/// `a - b`, or zero where `b` is the greater.
pub open spec fn minus_or_zero(a: nat, b: nat) -> nat {
    if a >= b {
        (a - b) as nat
    } else {
        0
    }
}

/// A reading of the job list that is under way.
pub struct JobScan {
    max_replicas: u32,
    page: u64,
    busy_runners: StringHashSet,
}

/// What a [`JobScan`] holds.
#[verifier::ext_equal]
pub struct ScanView {
    /// The busy runners beyond which no page is read.
    pub max_replicas: nat,
    /// The page to read next, counted from one.
    pub page: nat,
    /// The busy runners on the pages read so far.
    pub busy_runners: Set<Seq<char>>,
}

impl View for JobScan {
    type V = ScanView;

    closed spec fn view(&self) -> ScanView {
        ScanView {
            max_replicas: self.max_replicas as nat,
            page: self.page as nat,
            busy_runners: self.busy_runners@,
        }
    }
}

/// What the job list says.
pub struct JobSummary {
    /// The number of queued and running jobs, as the last page that was read has it.
    pub total_count: u64,
    /// The number of jobs that no busy runner accounts for.
    pub queued: u64,
    /// The names of the busy runners, on the pages that were read.
    pub busy_runners: StringHashSet,
    /// Whether the list was read to its end, so that no other runner is busy.
    pub read_to_end: bool,
}

/// What a [`JobSummary`] holds.
#[verifier::ext_equal]
pub struct SummaryView {
    pub total_count: nat,
    pub queued: nat,
    pub busy_runners: Set<Seq<char>>,
    pub read_to_end: bool,
}

impl View for JobSummary {
    type V = SummaryView;

    open spec fn view(&self) -> SummaryView {
        SummaryView {
            total_count: self.total_count as nat,
            queued: self.queued as nat,
            busy_runners: self.busy_runners@,
            read_to_end: self.read_to_end,
        }
    }
}

/// Where a reading of the job list stands after a page.
pub enum ScanStep {
    /// Another page is to be read.
    More(JobScan),
    /// The reading is over.
    Done(JobSummary),
}

/// What a [`ScanStep`] holds.
#[verifier::ext_equal]
pub enum ScanStepView {
    More(ScanView),
    Done(SummaryView),
}

impl View for ScanStep {
    type V = ScanStepView;

    open spec fn view(&self) -> ScanStepView {
        match self {
            ScanStep::More(scan) => ScanStepView::More(scan@),
            ScanStep::Done(summary) => ScanStepView::Done(summary@),
        }
    }
}

impl ScanView {
    /// The reading of the job list before its first page.
    pub open spec fn first(max_replicas: nat) -> ScanView {
        ScanView { max_replicas, page: 1, busy_runners: Set::empty() }
    }

    /// Pages are counted from one, and only finitely many runners were seen.
    pub open spec fn well_formed(self) -> bool {
        self.page >= 1 && self.busy_runners.finite()
    }

    /// Whether a page with these jobs, of `total` jobs in all, ends the list: the pages up to it can
    /// hold all jobs, or it is empty.
    pub open spec fn ends_with(self, jobs: Seq<Job>, total: nat) -> bool {
        (self.page - 1) * PAGE_LIMIT + jobs.len() >= total || jobs.len() == 0
    }

    /// The reading after a page with these jobs, of `total` jobs in all. It is over at the end of
    /// the list, and where as many runners are busy as there may be replicas.
    pub open spec fn after_page(self, jobs: Seq<Job>, total: nat) -> ScanStepView {
        let busy_runners = self.busy_runners.union(working_runners(jobs));
        if busy_runners.len() >= self.max_replicas || self.ends_with(jobs, total) {
            ScanStepView::Done(
                SummaryView {
                    total_count: total,
                    queued: minus_or_zero(total, busy_runners.len()),
                    busy_runners,
                    read_to_end: self.ends_with(jobs, total),
                },
            )
        } else {
            ScanStepView::More(
                ScanView {
                    max_replicas: self.max_replicas,
                    page: self.page + 1,
                    busy_runners,
                },
            )
        }
    }
}

impl GiteaClient {
    /// Starts to read the list of all queued and running jobs.
    ///
    /// The pages are read to collect the names of busy runners, which scaling down needs. Once
    /// as many runners are busy as there may be replicas, the rest is not read: at full capacity
    /// there is nothing to scale. The count cannot grow past the ceiling, and no pod is removed
    /// while the busy runners are not all known.
    pub fn get_jobs(max_replicas: u32) -> (r: JobScan)
        ensures
            r@ == ScanView::first(max_replicas as nat),
    {
        JobScan { max_replicas, page: 1, busy_runners: StringHashSet::new() }
    }
}

impl Job {
    /// Whether a runner works on the job.
    pub fn is_worked_on(&self) -> (r: bool)
        ensures
            r == is_worked_on(*self),
    {
        same_text(self.status.as_str(), "in_progress") && !self.runner_name.as_str().is_empty()
    }
}

fn add_working_runners(busy_runners: &mut StringHashSet, jobs: &Vec<Job>)
    requires
        old(busy_runners)@.finite(),
    ensures
        final(busy_runners)@ == old(busy_runners)@.union(working_runners(jobs@)),
        final(busy_runners)@.finite(),
{
    let len: usize = jobs.len();
    for i in 0..len
        invariant
            len == jobs@.len(),
            busy_runners@ =~= old(busy_runners)@.union(working_runners(jobs@.take(i as int))),
            busy_runners@.finite(),
    {
        let job: &Job = &jobs[i];
        if job.is_worked_on() {
            busy_runners.insert(job.runner_name.clone());
        }
        proof {
            let taken = jobs@.take(i as int);
            let more = jobs@.take(i + 1);
            assert forall|n: Seq<char>| working_runners(more).contains(n) implies working_runners(
                taken,
            ).contains(n) || (is_worked_on(*job) && n == job.runner_name@) by {
                let j = choose|j: int|
                    0 <= j < more.len() && is_worked_on(#[trigger] more[j]) && more[j].runner_name@
                        == n;
                if j < i {
                    assert(taken[j] == more[j]);
                }
            }
            assert forall|n: Seq<char>| working_runners(taken).contains(n) implies working_runners(
                more,
            ).contains(n) by {
                let j = choose|j: int|
                    0 <= j < taken.len() && is_worked_on(#[trigger] taken[j])
                        && taken[j].runner_name@ == n;
                assert(taken[j] == more[j]);
            }
            assert(more[i as int] == *job);
            assert(is_worked_on(*job) ==> working_runners(more).contains(job.runner_name@));
        }
    }
    assert(jobs@.take(len as int) =~= jobs@);
}

impl JobScan {
    #[verifier::type_invariant]
    spec fn well_formed(self) -> bool {
        self.page >= 1 && self.busy_runners@.finite()
    }

    /// The page to read next.
    pub fn page(&self) -> (r: u64)
        ensures
            r == self@.page,
            self@.well_formed(),
    {
        proof {
            use_type_invariant(self);
        }
        self.page
    }

    /// Takes in the page that was asked for.
    pub fn take_page(self, data: &JobsResponse) -> (r: ScanStep)
        ensures
            r@ == self@.after_page(data.jobs@, data.total_count as nat),
    {
        proof {
            use_type_invariant(&self);
        }
        let JobScan { max_replicas, page, mut busy_runners } = self;
        add_working_runners(&mut busy_runners, &data.jobs);
        let busy: usize = busy_runners.len();
        assert((page - 1) * PAGE_LIMIT <= u64::MAX * 50) by (nonlinear_arith)
            requires
                page <= u64::MAX,
                PAGE_LIMIT == 50,
        ;
        let fetched: u128 = (page - 1) as u128 * PAGE_LIMIT as u128 + data.jobs.len() as u128;
        let read_to_end: bool = fetched >= data.total_count as u128 || data.jobs.len() == 0;
        if busy as u128 >= max_replicas as u128 || read_to_end {
            let queued: u64 = if busy as u128 > data.total_count as u128 {
                0
            } else {
                data.total_count - busy as u64
            };
            ScanStep::Done(
                JobSummary { total_count: data.total_count, queued, busy_runners, read_to_end },
            )
        } else {
            ScanStep::More(JobScan { max_replicas, page: page + 1, busy_runners })
        }
    }
}

/// A page of the job list, as it was received.
pub struct Page {
    pub jobs: Seq<Job>,
    pub total: nat,
}

/// Where a reading of the job list stands after the given pages.
pub open spec fn read_pages(scan: ScanView, pages: Seq<Page>) -> ScanStepView
    decreases pages.len(),
{
    if pages.len() == 0 {
        ScanStepView::More(scan)
    } else {
        match read_pages(scan, pages.drop_last()) {
            ScanStepView::More(next) => next.after_page(pages.last().jobs, pages.last().total),
            ScanStepView::Done(summary) => ScanStepView::Done(summary),
        }
    }
}

/// The jobs on the pages, in order.
pub open spec fn jobs_on(pages: Seq<Page>) -> Seq<Job>
    decreases pages.len(),
{
    if pages.len() == 0 {
        Seq::empty()
    } else {
        jobs_on(pages.drop_last()) + pages.last().jobs
    }
}

/// The runners that work on jobs of two lists are those of the one and those of the other.
pub(crate) proof fn lemma_working_runners_of_both(a: Seq<Job>, b: Seq<Job>)
    ensures
        working_runners(a + b) =~= working_runners(a).union(working_runners(b)),
{
    assert forall|n: Seq<char>| #[trigger] working_runners(a + b).contains(n) implies (
    working_runners(a).contains(n) || working_runners(b).contains(n)) by {
        let i = choose|i: int|
            0 <= i < (a + b).len() && is_worked_on(#[trigger] (a + b)[i]) && (a + b)[i].runner_name@
                == n;
        if i < a.len() {
            assert(a[i] == (a + b)[i]);
        } else {
            assert(b[i - a.len()] == (a + b)[i]);
        }
    }
    assert forall|n: Seq<char>| #[trigger] working_runners(a).contains(n) implies working_runners(
        a + b,
    ).contains(n) by {
        let i = choose|i: int|
            0 <= i < a.len() && is_worked_on(#[trigger] a[i]) && a[i].runner_name@ == n;
        assert((a + b)[i] == a[i]);
    }
    assert forall|n: Seq<char>| #[trigger] working_runners(b).contains(n) implies working_runners(
        a + b,
    ).contains(n) by {
        let i = choose|i: int|
            0 <= i < b.len() && is_worked_on(#[trigger] b[i]) && b[i].runner_name@ == n;
        assert((a + b)[a.len() + i] == b[i]);
    }
}

/// Whatever pages were read, up to and including the one that ended the reading: the busy runners
/// are exactly those that work on a job on one of them, the next page to read is the one after
/// them, and the total is that of the last one.
pub proof fn busy_runners_are_the_working_ones(max_replicas: nat, pages: Seq<Page>)
    requires
        pages.len() == 0 || read_pages(ScanView::first(max_replicas), pages.drop_last()) is More,
    ensures
        match read_pages(ScanView::first(max_replicas), pages) {
            ScanStepView::More(scan) => {
                &&& scan.busy_runners == working_runners(jobs_on(pages))
                &&& scan.page == pages.len() + 1
                &&& scan.max_replicas == max_replicas
            },
            ScanStepView::Done(summary) => {
                &&& pages.len() > 0
                &&& summary.busy_runners == working_runners(jobs_on(pages))
                &&& summary.total_count == pages.last().total
                &&& summary.queued == minus_or_zero(
                    pages.last().total,
                    summary.busy_runners.len(),
                )
            },
        },
    decreases pages.len(),
{
    if pages.len() == 0 {
        assert(working_runners(jobs_on(pages)) =~= Set::<Seq<char>>::empty());
    } else {
        let earlier = pages.drop_last();
        busy_runners_are_the_working_ones(max_replicas, earlier);
        lemma_working_runners_of_both(jobs_on(earlier), pages.last().jobs);
    }
}

/// The jobs that are queued and the runners that are busy make up the total together, unless more
/// runners are busy than there are jobs.
pub proof fn queued_and_busy_make_up_the_total(scan: ScanView, jobs: Seq<Job>, total: nat)
    ensures
        scan.after_page(jobs, total) matches ScanStepView::Done(summary) ==> summary.queued
            + summary.busy_runners.len() == if total >= summary.busy_runners.len() {
            total
        } else {
            summary.busy_runners.len()
        },
{
}

/// Where the reading stops before the end of the list, the pages that were not read could not have
/// changed the wanted count: it is the ceiling already.
pub proof fn stopping_early_wants_the_ceiling(
    scan: ScanView,
    jobs: Seq<Job>,
    total: nat,
    min: int,
)
    requires
        min <= scan.max_replicas,
    ensures
        scan.after_page(jobs, total) matches ScanStepView::Done(summary) ==> summary.read_to_end
            || clamped(
            (summary.queued + summary.busy_runners.len()) as int,
            min,
            scan.max_replicas as int,
        ) == scan.max_replicas,
{
}

/// The first `n` of some jobs, or all of them where there are fewer.
pub open spec fn first_jobs(jobs: Seq<Job>, n: nat) -> Seq<Job> {
    if n <= jobs.len() {
        jobs.take(n as int)
    } else {
        jobs
    }
}

/// The first `count` pages of a job list that does not change while it is read.
pub open spec fn steady_pages(jobs: Seq<Job>, count: nat) -> Seq<Page> {
    Seq::new(
        count,
        |i: int|
            Page {
                jobs: first_jobs(jobs, ((i + 1) * PAGE_LIMIT) as nat).skip(
                    first_jobs(jobs, (i * PAGE_LIMIT) as nat).len() as int,
                ),
                total: jobs.len(),
            },
    )
}

/// The first pages of a job list that does not change hold its first jobs.
pub proof fn steady_pages_hold_the_first_jobs(jobs: Seq<Job>, count: nat)
    ensures
        jobs_on(steady_pages(jobs, count)) =~= first_jobs(jobs, count * PAGE_LIMIT as nat),
    decreases count,
{
    if count > 0 {
        let fewer = (count - 1) as nat;
        steady_pages_hold_the_first_jobs(jobs, fewer);
        assert(steady_pages(jobs, count).drop_last() =~= steady_pages(jobs, fewer));
    } else {
        assert(first_jobs(jobs, 0) =~= Seq::empty());
    }
}

/// A job list that does not change while it is read is read to its end, unless as many runners
/// turn out to be busy as there may be replicas. In either case the reading ends by the page that
/// can hold the last job. It knows whether it was that page, and if so it knows all busy runners.
pub proof fn steady_list_is_read_to_its_end(max_replicas: nat, jobs: Seq<Job>, count: nat)
    requires
        count > 0,
        read_pages(ScanView::first(max_replicas), steady_pages(jobs, (count - 1) as nat)) is More,
    ensures
        count * PAGE_LIMIT >= jobs.len() ==> read_pages(
            ScanView::first(max_replicas),
            steady_pages(jobs, count),
        ) is Done,
        read_pages(
            ScanView::first(max_replicas),
            steady_pages(jobs, count),
        ) matches ScanStepView::Done(summary) ==> {
            &&& summary.total_count == jobs.len()
            &&& summary.read_to_end <==> count * PAGE_LIMIT >= jobs.len()
            &&& summary.read_to_end ==> summary.busy_runners == working_runners(jobs)
            &&& !summary.read_to_end ==> summary.busy_runners.len() >= max_replicas
        },
{
    let pages = steady_pages(jobs, count);
    let fewer = (count - 1) as nat;
    assert(pages.drop_last() =~= steady_pages(jobs, fewer));
    busy_runners_are_the_working_ones(max_replicas, pages);
    busy_runners_are_the_working_ones(max_replicas, pages.drop_last());
    steady_pages_hold_the_first_jobs(jobs, count);
    steady_pages_hold_the_first_jobs(jobs, fewer);
    assert(pages.last().total == jobs.len());
    if count * PAGE_LIMIT >= jobs.len() {
        assert(first_jobs(jobs, count * PAGE_LIMIT as nat) =~= jobs);
    }
}

/// A runner works on a job exactly where the job is in progress and names one, whatever its name.
pub proof fn jobs_in_progress_are_worked_on(job: Job)
    ensures
        is_worked_on(job) <==> job.status@ == "in_progress"@ && job.runner_name@.len() != 0,
{
}

/// After a page, a runner is busy exactly where it was before or some job on the page is in
/// progress and names it. The names may be of any length but zero.
pub proof fn page_adds_the_runners_in_progress(
    scan: ScanView,
    jobs: Seq<Job>,
    total: nat,
    name: Seq<char>,
)
    ensures
        ({
            let busy_runners = match scan.after_page(jobs, total) {
                ScanStepView::More(next) => next.busy_runners,
                ScanStepView::Done(summary) => summary.busy_runners,
            };
            busy_runners.contains(name) <==> scan.busy_runners.contains(name) || exists|i: int|
                {
                    &&& 0 <= i < jobs.len()
                    &&& (#[trigger] jobs[i]).status@ == "in_progress"@
                    &&& jobs[i].runner_name@ == name
                    &&& name.len() != 0
                }
        }),
{
    if exists|i: int|
        {
            &&& 0 <= i < jobs.len()
            &&& (#[trigger] jobs[i]).status@ == "in_progress"@
            &&& jobs[i].runner_name@ == name
            &&& name.len() != 0
        } {
        let i = choose|i: int|
            {
                &&& 0 <= i < jobs.len()
                &&& (#[trigger] jobs[i]).status@ == "in_progress"@
                &&& jobs[i].runner_name@ == name
                &&& name.len() != 0
            };
        assert(is_worked_on(jobs[i]));
    }
    if working_runners(jobs).contains(name) {
        let i = choose|i: int|
            0 <= i < jobs.len() && is_worked_on(#[trigger] jobs[i]) && jobs[i].runner_name@ == name;
        assert(jobs[i].status@ == "in_progress"@);
    }
}

/// A reading starts at page one and goes on page by page. It asks for another page exactly where
/// this one is not empty, this one and full ones before it are short of the total, and fewer runners
/// are busy than there may be replicas. When it is over it has the total of the last page, counts
/// as queued what busy runners leave of it, and knows whether that page ended the list.
pub proof fn reading_goes_on_while_jobs_are_left(scan: ScanView, jobs: Seq<Job>, total: nat)
    requires
        scan.page >= 1,
    ensures
        match scan.after_page(jobs, total) {
            ScanStepView::More(next) => {
                &&& next.page == scan.page + 1
                &&& next.max_replicas == scan.max_replicas
                &&& next.busy_runners.len() < next.max_replicas
                &&& jobs.len() > 0
                &&& (scan.page - 1) * PAGE_LIMIT + jobs.len() < total
            },
            ScanStepView::Done(summary) => {
                &&& summary.total_count == total
                &&& summary.queued + summary.busy_runners.len() == total || (summary.queued == 0
                    && summary.busy_runners.len() > total)
                &&& summary.read_to_end <==> (jobs.len() == 0 || (scan.page - 1) * PAGE_LIMIT
                    + jobs.len() >= total)
                &&& !summary.read_to_end ==> summary.busy_runners.len() >= scan.max_replicas
            },
        },
        ScanView::first(scan.max_replicas).page == 1,
        ScanView::first(scan.max_replicas).max_replicas == scan.max_replicas,
        ScanView::first(scan.max_replicas).busy_runners == Set::<Seq<char>>::empty(),
{
}

/// What a summary or a step of a reading says is what it holds.
pub proof fn summaries_say_what_they_hold(summary: JobSummary, scan: JobScan)
    ensures
        summary@.total_count == summary.total_count,
        summary@.queued == summary.queued,
        summary@.busy_runners == summary.busy_runners@,
        summary@.read_to_end == summary.read_to_end,
        ScanStep::Done(summary)@ == ScanStepView::Done(summary@),
        ScanStep::More(scan)@ == ScanStepView::More(scan@),
{
}

} // verus!
