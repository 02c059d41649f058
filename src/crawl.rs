use vstd::prelude::*;
use crate::model::{Course, SectionId};
use crate::pattern::MatchError;

verus! {

/// Why one fetch of a search or report page failed.
#[derive(Clone, Copy, Debug, PartialEq, Eq)]
pub enum FetchError {
    /// The request did not complete (connection, timeout, body).
    Network,
    /// The server answered with an unexpected status.
    Status { code: u16 },
    /// The session cookie is no longer accepted.
    AuthExpired,
    /// The search result page held a link without a readable report id.
    Malformed(MatchError),
}

impl FetchError {
    pub open spec fn is_transient_spec(self) -> bool {
        !(self is Malformed)
    }

    /// Whether fetching again may give another answer: every failure but a malformed page.
    pub fn is_transient(&self) -> (r: bool)
        ensures
            r == self.is_transient_spec(),
    {
        !matches!(*self, FetchError::Malformed(_))
    }

    /// Whether the failure asks for a new session before the next batch.
    pub fn is_auth_expired(&self) -> (r: bool)
        ensures
            r == (*self is AuthExpired),
    {
        matches!(*self, FetchError::AuthExpired)
    }
}

/// What an HTTP status says of a fetch: success for 2xx, an expired session for 401 and
/// 403, any other status a failure carrying it.
pub fn status_outcome(code: u16) -> (r: Result<(), FetchError>)
    ensures
        200 <= code <= 299 ==> r is Ok,
        (code == 401 || code == 403) ==> r == Err::<(), FetchError>(FetchError::AuthExpired),
        !(200 <= code <= 299) && code != 401 && code != 403 ==> r == Err::<(), FetchError>(
            FetchError::Status { code },
        ),
{
    if 200 <= code && code <= 299 {
        Ok(())
    } else if code == 401 || code == 403 {
        Err(FetchError::AuthExpired)
    } else {
        Err(FetchError::Status { code })
    }
}

/// How many times one report page is fetched before its failure is recorded.
pub const REPORT_ATTEMPTS: u32 = 3;

/// Wait before the first refetch of a report page, in milliseconds; it doubles each time.
pub const FIRST_BACKOFF_MS: u64 = 500;

/// The wait before fetching a report page again after `attempt` failed fetches (counting
/// from 1), or `None` when the failure is final: it is not transient, or the attempts are
/// used up.
pub fn report_backoff(attempt: u32, error: FetchError) -> (r: Option<u64>)
    ensures
        (!error.is_transient_spec() || attempt == 0 || attempt >= REPORT_ATTEMPTS) ==> r is None,
        (error.is_transient_spec() && 1 <= attempt < REPORT_ATTEMPTS) ==> r == Some(
            (FIRST_BACKOFF_MS * pow2((attempt - 1) as nat)) as u64,
        ),
{
    if !error.is_transient() || attempt == 0 || attempt >= REPORT_ATTEMPTS {
        return None;
    }
    proof {
        assert(pow2(0) == 1);
        assert(pow2(1) == 2 * pow2(0));
    }
    if attempt == 1 {
        Some(FIRST_BACKOFF_MS)
    } else {
        Some(FIRST_BACKOFF_MS * 2)
    }
}

/// `2` to the power `n`.
pub open spec fn pow2(n: nat) -> nat
    decreases n,
{
    if n == 0 {
        1
    } else {
        2 * pow2((n - 1) as nat)
    }
}

/// A failure together with the item it happened on.
#[derive(Clone, Debug)]
pub struct ErrorWrapper<T> {
    pub error: FetchError,
    pub value: T,
}

impl<T> ErrorWrapper<T> {
    pub fn new(error: FetchError, value: T) -> (r: Self)
        ensures
            r.error == error,
            r.value == value,
    {
        ErrorWrapper { error, value }
    }

    pub fn error(&self) -> (r: FetchError)
        ensures
            r == self.error,
    {
        self.error
    }

    pub fn value(&self) -> (r: &T)
        ensures
            *r == self.value,
    {
        &self.value
    }
}

/// Whether any of the failures of a batch came from an expired session.
pub open spec fn any_auth_expired(errors: Seq<FetchError>) -> bool {
    exists|i: int| 0 <= i < errors.len() && #[trigger] errors[i] is AuthExpired
}

/// Tells the caller to renew the session before the next batch: some failure of this batch
/// came from an expired session.
pub fn needs_reauth(errors: &Vec<FetchError>) -> (r: bool)
    ensures
        r == any_auth_expired(errors@),
{
    let mut i: usize = 0;
    while i < errors.len()
        invariant
            i <= errors@.len(),
            forall|k: int| 0 <= k < i ==> !(#[trigger] errors@[k] is AuthExpired),
        decreases errors@.len() - i,
    {
        if errors[i].is_auth_expired() {
            return true;
        }
        i = i + 1;
    }
    false
}

/// The report ids found for one course, paired with the course's code.
pub fn section_ids(course: &Course, sids: &Vec<i32>) -> (r: Vec<SectionId>)
    ensures
        r@.len() == sids@.len(),
        forall|k: int|
            0 <= k < sids@.len() ==> (#[trigger] r@[k]).sid == sids@[k] && r@[k].course_code@
                == course.code@,
{
    let mut out: Vec<SectionId> = Vec::new();
    let mut i: usize = 0;
    while i < sids.len()
        invariant
            i <= sids@.len(),
            out@.len() == i,
            forall|k: int|
                0 <= k < i ==> (#[trigger] out@[k]).sid == sids@[k] && out@[k].course_code@
                    == course.code@,
        decreases sids@.len() - i,
    {
        out.push(SectionId { sid: sids[i], course_code: course.code.clone() });
        i = i + 1;
    }
    out
}

/// The entries of `items` whose outcome in `ok` is `false`, in order.
pub open spec fn still_failing(items: Seq<usize>, ok: Seq<bool>) -> Seq<usize>
    decreases items.len(),
{
    if items.len() == 0 || ok.len() != items.len() {
        Seq::empty()
    } else {
        let p = still_failing(items.drop_last(), ok.drop_last());
        if ok.last() {
            p
        } else {
            p.push(items.last())
        }
    }
}

/// The positions `0..n`.
pub open spec fn positions(n: nat) -> Seq<usize> {
    Seq::new(n, |i: int| i as usize)
}

proof fn lemma_still_failing_len(items: Seq<usize>, ok: Seq<bool>)
    requires
        items.len() == ok.len(),
    ensures
        still_failing(items, ok).len() <= items.len(),
    decreases items.len(),
{
    if items.len() > 0 {
        lemma_still_failing_len(items.drop_last(), ok.drop_last());
    }
}

fn keep_failing(items: &Vec<usize>, ok: &Vec<bool>) -> (r: Vec<usize>)
    requires
        items@.len() == ok@.len(),
    ensures
        r@ == still_failing(items@, ok@),
{
    let mut out: Vec<usize> = Vec::new();
    let mut i: usize = 0;
    while i < items.len()
        invariant
            i <= items@.len() == ok@.len(),
            out@ == still_failing(items@.subrange(0, i as int), ok@.subrange(0, i as int)),
        decreases items@.len() - i,
    {
        proof {
            assert(items@.subrange(0, i + 1).drop_last() =~= items@.subrange(0, i as int));
            assert(ok@.subrange(0, i + 1).drop_last() =~= ok@.subrange(0, i as int));
        }
        if !ok[i] {
            out.push(items[i]);
        }
        i = i + 1;
    }
    proof {
        assert(items@.subrange(0, items@.len() as int) =~= items@);
        assert(ok@.subrange(0, ok@.len() as int) =~= ok@);
    }
    out
}

/// The courses still to retry after a crawl, by position in the course list, and how many
/// retry rounds have run.
///
/// A round retries every pending course once. The courses that succeeded leave the queue;
/// a round that fixes none, or that empties the queue, ends the retries.
pub struct RetryQueue {
    pending: Vec<usize>,
    rounds: usize,
    initial: usize,
    done: bool,
}

impl RetryQueue {
    pub closed spec fn pending_view(&self) -> Seq<usize> {
        self.pending@
    }

    pub closed spec fn rounds_view(&self) -> nat {
        self.rounds as nat
    }

    pub closed spec fn initial_view(&self) -> nat {
        self.initial as nat
    }

    pub closed spec fn done_view(&self) -> bool {
        self.done
    }

    /// Each round that does not end the retries fixes at least one course, and the last
    /// round runs on a non-empty queue: rounds never outnumber the courses first queued.
    pub closed spec fn wf(&self) -> bool {
        &&& self.rounds <= self.initial
        &&& !self.done ==> self.pending@.len() > 0 && self.rounds + self.pending@.len()
            <= self.initial
        &&& self.pending@.len() == 0 ==> self.done
    }

    /// The queue after the first batch: the positions whose outcome in `ok` is `false`.
    pub fn from_outcomes(ok: &Vec<bool>) -> (r: RetryQueue)
        ensures
            r.wf(),
            r.pending_view() == still_failing(positions(ok@.len()), ok@),
            r.rounds_view() == 0,
            r.initial_view() == r.pending_view().len(),
            r.done_view() == (r.pending_view().len() == 0),
    {
        let mut all: Vec<usize> = Vec::new();
        let mut i: usize = 0;
        while i < ok.len()
            invariant
                i <= ok@.len(),
                all@ == positions(i as nat),
            decreases ok@.len() - i,
        {
            all.push(i);
            proof {
                assert(all@ =~= positions((i + 1) as nat));
            }
            i = i + 1;
        }
        let pending = keep_failing(&all, ok);
        let n = pending.len();
        RetryQueue { pending, rounds: 0, initial: n, done: n == 0 }
    }

    /// Positions of the courses still failing.
    pub fn pending(&self) -> (r: &Vec<usize>)
        ensures
            r@ == self.pending_view(),
    {
        &self.pending
    }

    pub fn is_done(&self) -> (r: bool)
        ensures
            r == self.done_view(),
    {
        self.done
    }

    pub fn rounds(&self) -> (r: usize)
        ensures
            r as nat == self.rounds_view(),
    {
        self.rounds
    }

    /// Records one retry round; `ok[i]` tells whether the retry of `pending()[i]` succeeded.
    /// Returns how many courses the round fixed.
    pub fn record_round(&mut self, ok: &Vec<bool>) -> (fixed: usize)
        requires
            old(self).wf(),
            !old(self).done_view(),
            ok@.len() == old(self).pending_view().len(),
        ensures
            final(self).wf(),
            final(self).pending_view() == still_failing(old(self).pending_view(), ok@),
            final(self).pending_view().len() <= old(self).pending_view().len(),
            fixed == old(self).pending_view().len() - final(self).pending_view().len(),
            final(self).rounds_view() == old(self).rounds_view() + 1,
            final(self).initial_view() == old(self).initial_view(),
            final(self).done_view() == (fixed == 0 || final(self).pending_view().len() == 0),
    {
        let next = keep_failing(&self.pending, ok);
        proof {
            lemma_still_failing_len(self.pending@, ok@);
        }
        let fixed = self.pending.len() - next.len();
        self.rounds = self.rounds + 1;
        self.done = fixed == 0 || next.len() == 0;
        self.pending = next;
        fixed
    }
}

/// Retry rounds never outnumber the courses first queued, and a queue that is not done
/// has room for at most as many more rounds as it has pending courses.
pub proof fn lemma_retry_rounds_bounded(q: RetryQueue)
    requires
        q.wf(),
    ensures
        q.rounds_view() <= q.initial_view(),
        !q.done_view() ==> q.pending_view().len() > 0 && q.rounds_view() + q.pending_view().len()
            <= q.initial_view(),
{
}

} // verus!
