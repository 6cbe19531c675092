//! The paginated export loop, modelled as a state machine.
//!
//! An export run writes a header, then repeatedly requests one page of
//! users and appends one CSV row per record, until a page comes back
//! without a continuation cursor. An unverified driver performs the remote
//! calls and the sink writes; the decisions — which request to issue next,
//! what bytes to emit, when to stop, how many rows were exported — all
//! stand here with contracts. `run_export_plan` runs the same loop against
//! a pre-recorded sequence of page outcomes, which pins down the request
//! order, the emitted bytes and the reported failures for every possible
//! behaviour of the remote source.

use vstd::prelude::*;

use crate::csv::csv_header;
use crate::csv::csv_row;
use crate::csv::has_newline;
use crate::csv::header_bytes;
use crate::csv::lemma_header_newline_count;
use crate::csv::lemma_newline_count_concat;
use crate::csv::lemma_row_newline_count;
use crate::csv::newline_count;
use crate::record::UserRecord;
use crate::record::extract_username_and_email;
use crate::record::rows_of;
use crate::record::spec_email;
use crate::record::spec_username;
use crate::record::user_row;

verus! {

/// Page size of every listing request: the remote service's documented
/// maximum; a larger value would be rejected by the service.
pub const PAGE_LIMIT: u32 = 60;

/// The configuration an export run is started with.
pub struct CommonOperationArgs {
    /// The user pool to export; must not be empty.
    pub pool_id: String,
    /// Output file path; absent means the process's standard output.
    pub emails_file: Option<String>,
    /// Overall deadline for the run, in seconds; absent means none.
    pub timeout: Option<u64>,
    /// Concurrency level; the export itself always runs sequentially.
    pub concurrency: usize,
}

impl CommonOperationArgs {
    /// The configuration's invariant: the pool identifier is non-empty.
    pub open spec fn wf(&self) -> bool {
        self.pool_id@.len() > 0
    }

    /// Decides the configuration invariant in executable code.
    pub fn validate(&self) -> (ok: bool)
        ensures
            ok == self.wf(),
    {
        !self.pool_id.as_str().is_empty()
    }
}

/// The ways an export run can fail.
#[derive(Debug, PartialEq, Eq)]
pub enum ExportError {
    /// The destination file could not be created; carries the path.
    ConfigFailure(String),
    /// A page request to the remote directory failed.
    RemoteCallFailure,
    /// A header, row or flush write to the sink failed.
    WriteFailure,
    /// The overall deadline elapsed; carries the configured seconds.
    Timeout(u64),
}

/// One listing request as the exporter issues it.
pub struct PageRequest {
    /// The pool the request asks about.
    pub pool_id: String,
    /// The page size limit, always `PAGE_LIMIT`.
    pub limit: u32,
    /// The continuation cursor, absent on the first request.
    pub cursor: Option<String>,
}

/// One page of the remote directory's answer.
pub struct UserPage {
    /// The records of this page, in the order the directory returned them.
    pub users: Vec<UserRecord>,
    /// The continuation cursor; absent when this is the last page.
    pub next_cursor: Option<String>,
}

/// What one page request came back as.
pub enum PageOutcome {
    /// The request succeeded with this page.
    Ready(UserPage),
    /// The request failed; the run is aborted.
    Failed,
}

/// A cursor as an abstract value: the token's characters, or absence.
pub open spec fn cursor_view(c: Option<String>) -> Option<Seq<char>> {
    match c {
        Some(s) => Some(s@),
        None => None,
    }
}

/// Whether an outcome delivered a page.
pub open spec fn outcome_is_ready(o: PageOutcome) -> bool {
    match o {
        PageOutcome::Ready(_) => true,
        PageOutcome::Failed => false,
    }
}

/// The records an outcome delivered; empty for a failed request.
pub open spec fn outcome_users(o: PageOutcome) -> Seq<UserRecord> {
    match o {
        PageOutcome::Ready(p) => p.users@,
        PageOutcome::Failed => Seq::empty(),
    }
}

/// The continuation cursor an outcome delivered.
pub open spec fn outcome_next(o: PageOutcome) -> Option<Seq<char>> {
    match o {
        PageOutcome::Ready(p) => cursor_view(p.next_cursor),
        PageOutcome::Failed => None,
    }
}

/// How many requests the loop issues against these outcomes: one per
/// outcome until the first failure or the first page without a cursor;
/// one more than there are outcomes when the source never terminates.
pub open spec fn plan_requests(outcomes: Seq<PageOutcome>) -> nat
    decreases outcomes.len(),
{
    if outcomes.len() == 0 {
        1
    } else {
        match outcomes[0] {
            PageOutcome::Failed => 1,
            PageOutcome::Ready(p) => if cursor_view(p.next_cursor) is None {
                1
            } else {
                1 + plan_requests(outcomes.drop_first())
            },
        }
    }
}

/// Whether the loop runs to completion: some outcome before any failure
/// delivers a page without a continuation cursor.
pub open spec fn plan_succeeds(outcomes: Seq<PageOutcome>) -> bool
    decreases outcomes.len(),
{
    if outcomes.len() == 0 {
        false
    } else {
        match outcomes[0] {
            PageOutcome::Failed => false,
            PageOutcome::Ready(p) => cursor_view(p.next_cursor) is None || plan_succeeds(
                outcomes.drop_first(),
            ),
        }
    }
}

/// The data rows the loop emits against these outcomes: the rows of every
/// page delivered before the run stops, in order. Rows of pages already
/// delivered stay emitted even when a later request fails.
pub open spec fn plan_rows(outcomes: Seq<PageOutcome>) -> Seq<u8>
    decreases outcomes.len(),
{
    if outcomes.len() == 0 {
        Seq::empty()
    } else {
        match outcomes[0] {
            PageOutcome::Failed => Seq::empty(),
            PageOutcome::Ready(p) => rows_of(p.users@) + (if cursor_view(p.next_cursor) is None {
                Seq::empty()
            } else {
                plan_rows(outcomes.drop_first())
            }),
        }
    }
}

/// The row count the loop reports: the records of every delivered page.
pub open spec fn plan_total(outcomes: Seq<PageOutcome>) -> nat
    decreases outcomes.len(),
{
    if outcomes.len() == 0 {
        0
    } else {
        match outcomes[0] {
            PageOutcome::Failed => 0,
            PageOutcome::Ready(p) => p.users@.len() + (if cursor_view(p.next_cursor) is None {
                0
            } else {
                plan_total(outcomes.drop_first())
            }),
        }
    }
}

/// Copies a continuation cursor.
fn clone_cursor(c: &Option<String>) -> (r: Option<String>)
    ensures
        cursor_view(r) == cursor_view(*c),
{
    match c {
        Some(s) => Some(s.clone()),
        None => None,
    }
}

/// The exporter's loop state: how many rows were exported so far, the
/// cursor to continue from, and whether the last page ended the run.
pub struct Exporter {
    /// The pool being exported.
    pub pool_id: String,
    /// Rows exported so far.
    pub total: usize,
    /// The cursor the next request continues from; absent on the first.
    pub cursor: Option<String>,
    /// Whether a page without a continuation cursor has been seen.
    pub finished: bool,
}

impl Exporter {
    /// Starts an export of the given pool: no rows yet, no cursor.
    pub fn new(pool_id: String) -> (e: Exporter)
        requires
            pool_id@.len() > 0,
        ensures
            e.pool_id@ == pool_id@,
            e.total == 0,
            cursor_view(e.cursor) is None,
            !e.finished,
    {
        Exporter { pool_id, total: 0, cursor: None, finished: false }
    }

    /// The next page request: the pool, the fixed page size, and the
    /// cursor the previous page handed back (absent on the first request).
    pub fn next_request(&self) -> (r: PageRequest)
        requires
            !self.finished,
        ensures
            r.pool_id@ == self.pool_id@,
            r.limit == PAGE_LIMIT,
            cursor_view(r.cursor) == cursor_view(self.cursor),
    {
        PageRequest {
            pool_id: self.pool_id.clone(),
            limit: PAGE_LIMIT,
            cursor: clone_cursor(&self.cursor),
        }
    }

    /// Accounts one delivered page: the row counter grows by the page's
    /// record count, the cursor is replaced by the page's, and the run is
    /// finished exactly when the page carries no continuation cursor.
    pub fn advance(&mut self, page: &UserPage)
        requires
            !old(self).finished,
            old(self).total + page.users@.len() <= usize::MAX,
        ensures
            final(self).total == old(self).total + page.users@.len(),
            cursor_view(final(self).cursor) == cursor_view(page.next_cursor),
            final(self).finished == (cursor_view(page.next_cursor) is None),
            final(self).pool_id@ == old(self).pool_id@,
    {
        self.total = self.total + page.users.len();
        self.cursor = clone_cursor(&page.next_cursor);
        self.finished = page.next_cursor.is_none();
    }

    /// Rows exported so far.
    pub fn total_rows(&self) -> (n: usize)
        ensures
            n == self.total,
    {
        self.total
    }

    /// Whether the last page ended the pagination.
    pub fn is_finished(&self) -> (b: bool)
        ensures
            b == self.finished,
    {
        self.finished
    }
}

/// Renders one page's records as CSV rows, in order. Every record takes at
/// least its separator and terminator, so the result holds at least two
/// bytes per record.
pub fn render_page_rows(users: &Vec<UserRecord>) -> (out: Vec<u8>)
    ensures
        out@ == rows_of(users@),
        out@.len() >= 2 * users@.len(),
{
    let mut out: Vec<u8> = Vec::new();
    let n = users.len();
    let mut i: usize = 0;
    while i < n
        invariant
            n == users@.len(),
            0 <= i <= n,
            out@ == rows_of(users@.take(i as int)),
            out@.len() >= 2 * i,
        decreases n - i,
    {
        let (username, email) = extract_username_and_email(&users[i]);
        let mut row = csv_row(&username, &email);
        proof {
            assert(row@ == user_row(users@[i as int]));
            assert(users@.take(i + 1).drop_last() =~= users@.take(i as int));
            assert(users@.take(i + 1).last() == users@[i as int]);
        }
        out.append(&mut row);
        i += 1;
    }
    proof {
        assert(users@.take(n as int) =~= users@);
    }
    out
}

/// Everything a finished run shows: the requests it issued in order, the
/// bytes it wrote (header first), and the reported row count or failure.
pub struct ExportRun {
    /// The page requests, in the order they were issued.
    pub requests: Vec<PageRequest>,
    /// The bytes written to the sink: the header, then the rows of every
    /// delivered page.
    pub output: Vec<u8>,
    /// The total row count on success, the failure otherwise.
    pub outcome: Result<usize, ExportError>,
}

/// Runs the export loop against a pre-recorded sequence of page outcomes,
/// standing for the remote source: outcome `k` answers the `k`-th request,
/// and a missing outcome stands for a request that got no answer. The
/// contract pins down every request's pool, page size and cursor, the
/// exact output bytes, and when the run reports success or a remote-call
/// failure.
#[verifier::loop_isolation(false)]
pub fn run_export_plan(pool_id: &String, outcomes: &Vec<PageOutcome>) -> (r: ExportRun)
    requires
        pool_id@.len() > 0,
    ensures
        r.requests@.len() == plan_requests(outcomes@),
        forall|j: int|
            0 <= j < r.requests@.len() ==> (#[trigger] r.requests@[j]).pool_id@ == pool_id@
                && r.requests@[j].limit == PAGE_LIMIT,
        cursor_view(r.requests@[0].cursor) is None,
        forall|j: int|
            1 <= j < r.requests@.len() ==> outcome_is_ready(outcomes@[j - 1]) && cursor_view(
                (#[trigger] r.requests@[j]).cursor,
            ) == outcome_next(outcomes@[j - 1]),
        r.output@ == header_bytes() + plan_rows(outcomes@),
        plan_succeeds(outcomes@) ==> r.outcome == Ok::<usize, ExportError>(
            plan_total(outcomes@) as usize,
        ),
        !plan_succeeds(outcomes@) ==> r.outcome == Err::<usize, ExportError>(
            ExportError::RemoteCallFailure,
        ),
{
    let mut exporter = Exporter::new(pool_id.clone());
    let mut requests: Vec<PageRequest> = Vec::new();
    let mut output: Vec<u8> = csv_header();
    let ghost mut acc: Seq<u8> = Seq::empty();
    let mut i: usize = 0;
    proof {
        assert(outcomes@.skip(0) =~= outcomes@);
    }
    loop
        invariant
            0 <= i <= outcomes@.len(),
            exporter.pool_id@ == pool_id@,
            !exporter.finished,
            requests@.len() == i,
            forall|j: int|
                0 <= j < i ==> (#[trigger] requests@[j]).pool_id@ == pool_id@
                    && requests@[j].limit == PAGE_LIMIT,
            i > 0 ==> cursor_view(requests@[0].cursor) is None,
            forall|j: int|
                1 <= j < i ==> outcome_is_ready(outcomes@[j - 1]) && cursor_view(
                    (#[trigger] requests@[j]).cursor,
                ) == outcome_next(outcomes@[j - 1]),
            forall|j: int|
                0 <= j < i ==> outcome_is_ready(#[trigger] outcomes@[j]) && !(outcome_next(
                    outcomes@[j],
                ) is None),
            cursor_view(exporter.cursor) == if i == 0 {
                None::<Seq<char>>
            } else {
                outcome_next(outcomes@[i - 1])
            },
            output@ == header_bytes() + acc,
            output@.len() >= 2 * exporter.total,
            plan_requests(outcomes@) == i + plan_requests(outcomes@.skip(i as int)),
            plan_succeeds(outcomes@) == plan_succeeds(outcomes@.skip(i as int)),
            plan_rows(outcomes@) == acc + plan_rows(outcomes@.skip(i as int)),
            plan_total(outcomes@) == exporter.total + plan_total(outcomes@.skip(i as int)),
        decreases outcomes@.len() - i,
    {
        let req = exporter.next_request();
        requests.push(req);
        if i >= outcomes.len() {
            proof {
                assert(outcomes@.skip(i as int) =~= Seq::<PageOutcome>::empty());
                assert(plan_rows(outcomes@) =~= acc + Seq::<u8>::empty());
                assert(plan_rows(outcomes@) == acc);
            }
            return ExportRun { requests, output, outcome: Err(ExportError::RemoteCallFailure) };
        }
        proof {
            assert(outcomes@.skip(i as int)[0] == outcomes@[i as int]);
            assert(outcomes@.skip(i as int).drop_first() =~= outcomes@.skip(i as int + 1));
        }
        let current = &outcomes[i];
        match current {
            PageOutcome::Failed => {
                proof {
                    assert(plan_rows(outcomes@.skip(i as int)) == Seq::<u8>::empty());
                    assert(plan_rows(outcomes@) =~= acc);
                }
                return ExportRun { requests, output, outcome: Err(ExportError::RemoteCallFailure) };
            },
            PageOutcome::Ready(page) => {
                let mut rows = render_page_rows(&page.users);
                let ghost rows_snap = rows@;
                let ghost total_before = exporter.total as int;
                output.append(&mut rows);
                let out_len = output.len();
                proof {
                    assert(out_len == output@.len());
                    assert(output@.len() >= 2 * (total_before + page.users@.len()));
                    assert(total_before + page.users@.len() <= usize::MAX);
                }
                exporter.advance(page);
                proof {
                    acc = acc + rows_snap;
                    assert(output@ =~= header_bytes() + acc);
                }
                if exporter.is_finished() {
                    proof {
                        assert(plan_rows(outcomes@.skip(i as int)) =~= rows_of(page.users@));
                        assert(plan_rows(outcomes@) =~= acc);
                        assert(plan_total(outcomes@.skip(i as int)) == page.users@.len());
                        assert(plan_requests(outcomes@.skip(i as int)) == 1);
                        assert(plan_succeeds(outcomes@.skip(i as int)));
                    }
                    return ExportRun { requests, output, outcome: Ok(exporter.total_rows()) };
                }
                proof {
                    assert(plan_requests(outcomes@.skip(i as int)) == 1 + plan_requests(
                        outcomes@.skip(i as int + 1),
                    ));
                    assert(plan_succeeds(outcomes@.skip(i as int)) == plan_succeeds(
                        outcomes@.skip(i as int + 1),
                    ));
                    assert(plan_rows(outcomes@.skip(i as int)) =~= rows_of(page.users@)
                        + plan_rows(outcomes@.skip(i as int + 1)));
                    assert(plan_rows(outcomes@) =~= acc + plan_rows(outcomes@.skip(i as int + 1)));
                    assert(plan_total(outcomes@.skip(i as int)) == page.users@.len() + plan_total(
                        outcomes@.skip(i as int + 1),
                    ));
                }
                i += 1;
            },
        }
    }
}

/// Law: the rows of records whose fields hold no line feed are one output
/// line per record.
pub proof fn lemma_rows_newline_count(users: Seq<UserRecord>)
    requires
        forall|u: int|
            0 <= u < users.len() ==> !has_newline(spec_username(#[trigger] users[u]))
                && !has_newline(spec_email(users[u])),
    ensures
        newline_count(rows_of(users)) == users.len(),
    decreases users.len(),
{
    if users.len() > 0 {
        assert(forall|u: int|
            0 <= u < users.drop_last().len() ==> users.drop_last()[u] == users[u]);
        lemma_rows_newline_count(users.drop_last());
        lemma_row_newline_count(spec_username(users.last()), spec_email(users.last()));
        lemma_newline_count_concat(rows_of(users.drop_last()), user_row(users.last()));
    }
}

/// Law: against a source whose records' fields hold no line feed, the data
/// rows a run emits are exactly one output line per counted row.
pub proof fn lemma_plan_rows_newline_count(outcomes: Seq<PageOutcome>)
    requires
        forall|k: int, u: int|
            0 <= k < outcomes.len() && 0 <= u < outcome_users(#[trigger] outcomes[k]).len()
                ==> !has_newline(spec_username(#[trigger] outcome_users(outcomes[k])[u]))
                && !has_newline(spec_email(outcome_users(outcomes[k])[u])),
    ensures
        newline_count(plan_rows(outcomes)) == plan_total(outcomes),
    decreases outcomes.len(),
{
    if outcomes.len() > 0 {
        match outcomes[0] {
            PageOutcome::Failed => {},
            PageOutcome::Ready(p) => {
                assert(outcome_users(outcomes[0]) == p.users@);
                lemma_rows_newline_count(p.users@);
                if cursor_view(p.next_cursor) is None {
                    lemma_newline_count_concat(rows_of(p.users@), Seq::empty());
                    assert(rows_of(p.users@) + Seq::<u8>::empty() =~= rows_of(p.users@));
                } else {
                    assert(forall|k: int|
                        0 <= k < outcomes.drop_first().len() ==> outcomes.drop_first()[k]
                            == outcomes[k + 1]);
                    lemma_plan_rows_newline_count(outcomes.drop_first());
                    lemma_newline_count_concat(rows_of(p.users@), plan_rows(outcomes.drop_first()));
                }
            },
        }
    }
}

/// Law: a run against a source whose records' fields hold no line feed
/// writes exactly one line per exported row plus the header line, so its
/// output's line count is its reported row count plus one.
pub proof fn lemma_export_line_count(outcomes: Seq<PageOutcome>)
    requires
        forall|k: int, u: int|
            0 <= k < outcomes.len() && 0 <= u < outcome_users(#[trigger] outcomes[k]).len()
                ==> !has_newline(spec_username(#[trigger] outcome_users(outcomes[k])[u]))
                && !has_newline(spec_email(outcome_users(outcomes[k])[u])),
    ensures
        newline_count(header_bytes() + plan_rows(outcomes)) == plan_total(outcomes) + 1,
{
    lemma_header_newline_count();
    lemma_plan_rows_newline_count(outcomes);
    lemma_newline_count_concat(header_bytes(), plan_rows(outcomes));
}

} // verus!
