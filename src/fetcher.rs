//! Fetching one group's articles over an inclusive range of numbers.
//!
//! The fetcher decides; its caller acts. Each `FetchStep` names the one
//! thing to do next (ask the session for an article, write it, persist the
//! checkpoint, ...), and the caller reports how it went as a `FetchEvent`.
use vstd::prelude::*;

use crate::errors::ErrorClass;

verus! {

/// How many times one article is asked for before its last error stands.
pub const MAX_ATTEMPTS: usize = 3;

/// The unit of the pause before a retry: after `n` failed attempts the
/// next one waits `n + 1` times as long.
pub const RETRY_DELAY_MS: u64 = 600;

/// The next thing to do for the range.
#[derive(Clone, Copy, Debug, PartialEq, Eq, Structural)]
pub enum FetchStep {
    /// Wait `delay_ms`, then ask the session for the raw text of `article`.
    Fetch { article: usize, delay_ms: u64 },
    /// Write the text just fetched to the file of `article`.
    StoreArticle { article: usize },
    /// Persist `article` as the group's checkpoint.
    SaveCheckpoint { article: usize },
    /// Append `article` and its error to the group's error log.
    RecordUnavailable { article: usize },
    /// Stop: the last error of the session goes back to the caller.
    Fail,
    /// The range is done, and `fetched` articles were stored.
    Done { fetched: usize },
}

/// What came of the last step.
#[derive(Clone, Copy, Debug, PartialEq, Eq, Structural)]
pub enum FetchEvent {
    /// The session returned the article's text.
    Fetched,
    /// The session failed to return it.
    FetchFailed(ErrorClass),
    /// The article's file was written.
    Stored,
    /// The checkpoint was persisted.
    CheckpointSaved,
    /// The unavailable article was logged.
    UnavailableRecorded,
}

/// The pause before asking again after `failed` failed attempts: it grows
/// linearly, `RETRY_DELAY_MS` times one more than the failures so far.
pub open spec fn retry_delay(failed: nat) -> u64 {
    (RETRY_DELAY_MS * (failed + 1)) as u64
}

/// The state of a range as the contracts see it.
pub struct FetchState {
    /// The first article of the range.
    pub start: usize,
    /// The last article of the range.
    pub high: usize,
    /// The article being worked on.
    pub current: usize,
    /// The failed attempts at `current` so far.
    pub attempts: usize,
    /// How many articles were stored.
    pub fetched: usize,
    /// The last checkpoint persisted, or `None` when the range does not
    /// keep one.
    pub checkpoint: Option<usize>,
    /// The checkpoint that the range started from.
    pub initial: Option<usize>,
    pub step: FetchStep,
    /// For each article finished so far, from `start` on: stored (`true`)
    /// or logged as unavailable (`false`).
    pub outcomes: Seq<bool>,
}

/// How many articles of `o` were stored.
pub open spec fn count_stored(o: Seq<bool>) -> nat
    decreases o.len(),
{
    if o.len() == 0 {
        0
    } else {
        count_stored(o.drop_last()) + if o.last() {
            1nat
        } else {
            0nat
        }
    }
}

/// The first article to fetch: the range starts at `low`, or at the
/// checkpoint when it is above `low`.
pub open spec fn range_start(low: usize, checkpoint: Option<usize>) -> usize {
    match checkpoint {
        Some(c) => if c > low {
            c
        } else {
            low
        },
        None => low,
    }
}

/// The state once `current` is finished: on to the next article, or done.
pub open spec fn move_on(s: FetchState) -> FetchState {
    if s.current == s.high {
        FetchState { step: FetchStep::Done { fetched: s.fetched }, ..s }
    } else {
        FetchState {
            current: (s.current + 1) as usize,
            attempts: 0,
            step: FetchStep::Fetch { article: (s.current + 1) as usize, delay_ms: 0 },
            ..s
        }
    }
}

/// The state a fresh range over `low..=high` starts in.
pub open spec fn initial_state(low: usize, high: usize, checkpoint: Option<usize>) -> FetchState {
    let start = range_start(low, checkpoint);
    FetchState {
        start,
        high,
        current: start,
        attempts: 0,
        fetched: 0,
        checkpoint,
        initial: checkpoint,
        step: if start > high {
            FetchStep::Done { fetched: 0 }
        } else {
            FetchStep::Fetch { article: start, delay_ms: 0 }
        },
        outcomes: Seq::empty(),
    }
}

/// The state after event `e` in state `s`. An event that does not answer
/// the current step leaves the state as it is.
pub open spec fn next_state(s: FetchState, e: FetchEvent) -> FetchState {
    match s.step {
        FetchStep::Fetch { .. } => match e {
            FetchEvent::Fetched => FetchState {
                step: FetchStep::StoreArticle { article: s.current },
                ..s
            },
            FetchEvent::FetchFailed(class) => {
                let failed = (s.attempts + 1) as usize;
                if failed < MAX_ATTEMPTS {
                    FetchState {
                        attempts: failed,
                        step: FetchStep::Fetch { article: s.current, delay_ms: retry_delay(failed as nat) },
                        ..s
                    }
                } else if class == ErrorClass::Unavailable {
                    FetchState {
                        attempts: failed,
                        step: FetchStep::RecordUnavailable { article: s.current },
                        ..s
                    }
                } else {
                    FetchState { attempts: failed, step: FetchStep::Fail, ..s }
                }
            },
            _ => s,
        },
        FetchStep::StoreArticle { .. } => match e {
            FetchEvent::Stored => {
                let t = FetchState {
                    fetched: (s.fetched + 1) as usize,
                    outcomes: s.outcomes.push(true),
                    ..s
                };
                if s.checkpoint is Some {
                    FetchState { step: FetchStep::SaveCheckpoint { article: s.current }, ..t }
                } else {
                    move_on(t)
                }
            },
            _ => s,
        },
        FetchStep::SaveCheckpoint { .. } => match e {
            FetchEvent::CheckpointSaved => move_on(FetchState { checkpoint: Some(s.current), ..s }),
            _ => s,
        },
        FetchStep::RecordUnavailable { .. } => match e {
            FetchEvent::UnavailableRecorded => move_on(
                FetchState { outcomes: s.outcomes.push(false), ..s },
            ),
            _ => s,
        },
        _ => s,
    }
}


/// The position in `o` of the last stored article, if any.
pub open spec fn last_stored(o: Seq<bool>) -> Option<nat>
    decreases o.len(),
{
    if o.len() == 0 {
        None
    } else if o.last() {
        Some((o.len() - 1) as nat)
    } else {
        last_stored(o.drop_last())
    }
}

/// The outcomes whose checkpoint has been persisted: all of them, but the
/// article that waits for its checkpoint.
pub open spec fn saved_outcomes(s: FetchState) -> Seq<bool> {
    if s.step is SaveCheckpoint {
        s.outcomes.drop_last()
    } else {
        s.outcomes
    }
}

/// The highest article whose checkpoint was persisted, or the checkpoint
/// that the range started from when there is none.
pub open spec fn saved_checkpoint(s: FetchState) -> Option<usize> {
    match last_stored(saved_outcomes(s)) {
        Some(i) => Some((s.start + i) as usize),
        None => s.initial,
    }
}

/// The consistency of a range's state.
pub open spec fn fetch_wf(s: FetchState) -> bool {
    &&& s.high < usize::MAX
    &&& (s.checkpoint is Some <==> s.initial is Some)
    &&& (s.initial matches Some(c) ==> c <= s.start)
    &&& s.fetched == count_stored(s.outcomes)
    &&& if s.start > s.high {
        &&& s.step == FetchStep::Done { fetched: 0 }
        &&& s.outcomes.len() == 0
        &&& s.fetched == 0
        &&& s.checkpoint == s.initial
    } else {
        &&& s.start <= s.current <= s.high
        &&& s.attempts <= MAX_ATTEMPTS
        &&& s.checkpoint is Some ==> s.checkpoint == saved_checkpoint(s)
        &&& match s.step {
            FetchStep::Fetch { article, delay_ms } => {
                &&& article == s.current
                &&& s.outcomes.len() == s.current - s.start
                &&& s.attempts < MAX_ATTEMPTS
                &&& delay_ms == if s.attempts == 0 {
                    0
                } else {
                    retry_delay(s.attempts as nat)
                }
            },
            FetchStep::StoreArticle { article } => {
                &&& article == s.current
                &&& s.outcomes.len() == s.current - s.start
            },
            FetchStep::SaveCheckpoint { article } => {
                &&& article == s.current
                &&& s.outcomes.len() == s.current - s.start + 1
                &&& s.outcomes.last()
                &&& s.checkpoint is Some
            },
            FetchStep::RecordUnavailable { article } => {
                &&& article == s.current
                &&& s.outcomes.len() == s.current - s.start
            },
            FetchStep::Fail => s.outcomes.len() == s.current - s.start,
            FetchStep::Done { fetched } => {
                &&& fetched == s.fetched
                &&& s.current == s.high
                &&& s.outcomes.len() == s.high - s.start + 1
            },
        }
    }
}

proof fn lemma_push_outcome(o: Seq<bool>, b: bool)
    ensures
        count_stored(o.push(b)) == count_stored(o) + if b {
            1nat
        } else {
            0nat
        },
        last_stored(o.push(b)) == if b {
            Some(o.len())
        } else {
            last_stored(o)
        },
{
    assert(o.push(b).drop_last() =~= o);
}

proof fn lemma_count_bound(o: Seq<bool>)
    ensures
        count_stored(o) <= o.len(),
    decreases o.len(),
{
    if o.len() > 0 {
        lemma_count_bound(o.drop_last());
    }
}

proof fn lemma_last_bound(o: Seq<bool>)
    ensures
        last_stored(o) matches Some(i) ==> i < o.len() && o[i as int],
    decreases o.len(),
{
    if o.len() > 0 && !o.last() {
        lemma_last_bound(o.drop_last());
    }
}

/// Every step keeps a range's state consistent.
pub proof fn lemma_next_state_wf(s: FetchState, e: FetchEvent)
    requires
        fetch_wf(s),
    ensures
        fetch_wf(next_state(s, e)),
{
    let t = next_state(s, e);
    lemma_count_bound(s.outcomes);
    if s.start <= s.high {
        match s.step {
            FetchStep::StoreArticle { .. } => {
                if e == FetchEvent::Stored {
                    lemma_push_outcome(s.outcomes, true);
                    assert(s.outcomes.push(true).drop_last() =~= s.outcomes);
                }
            },
            FetchStep::SaveCheckpoint { .. } => {
                if e == FetchEvent::CheckpointSaved {
                    let o = s.outcomes;
                    assert(o.drop_last().push(true) =~= o);
                    lemma_push_outcome(o.drop_last(), true);
                }
            },
            FetchStep::RecordUnavailable { .. } => {
                if e == FetchEvent::UnavailableRecorded {
                    lemma_push_outcome(s.outcomes, false);
                }
            },
            _ => {},
        }
    }
}

proof fn lemma_last_is_max(o: Seq<bool>)
    ensures
        last_stored(o) matches Some(l) ==> forall|i: int| l < i < o.len() ==> !o[i],
        last_stored(o) is None ==> forall|i: int| 0 <= i < o.len() ==> !o[i],
    decreases o.len(),
{
    if o.len() > 0 {
        lemma_last_is_max(o.drop_last());
        assert forall|i: int| 0 <= i < o.len() - 1 implies o[i] == o.drop_last()[i] by {}
    }
}

/// The checkpoint of a range never goes back, and it moves only to the
/// article that was just stored; a range that starts from checkpoint `c`
/// starts at `c` or above.
pub proof fn lemma_checkpoint_monotone(s: FetchState, e: FetchEvent)
    requires
        fetch_wf(s),
    ensures
        s.initial matches Some(c) ==> c <= s.start,
        s.checkpoint matches Some(c) ==> next_state(s, e).checkpoint matches Some(d) && c <= d,
        next_state(s, e).checkpoint != s.checkpoint ==> {
            &&& s.step == FetchStep::SaveCheckpoint { article: s.current }
            &&& next_state(s, e).checkpoint == Some(s.current)
            &&& s.outcomes.last()
            &&& s.outcomes.len() == s.current - s.start + 1
        },
{
    if s.start <= s.high && s.step is SaveCheckpoint {
        lemma_last_bound(s.outcomes.drop_last());
    }
}

/// The checkpoint of a range is the highest article stored and persisted so
/// far, or the checkpoint it started from when there is none.
pub proof fn lemma_checkpoint_is_highest_stored(s: FetchState)
    requires
        fetch_wf(s),
        s.checkpoint is Some,
    ensures
        forall|i: int|
            0 <= i < saved_outcomes(s).len() && #[trigger] saved_outcomes(s)[i] ==> s.start + i
                <= s.checkpoint->0,
        s.checkpoint == s.initial || (s.start <= s.checkpoint->0 && saved_outcomes(s)[s.checkpoint->0
            - s.start]),
{
    let o = saved_outcomes(s);
    lemma_last_is_max(o);
    lemma_last_bound(o);
}

/// The answer to each step of a session that has every article but `k`,
/// which it reports unavailable, and of storage that never fails.
pub open spec fn respond_all_but(k: usize, step: FetchStep) -> FetchEvent {
    match step {
        FetchStep::Fetch { article, .. } => if article == k {
            FetchEvent::FetchFailed(ErrorClass::Unavailable)
        } else {
            FetchEvent::Fetched
        },
        FetchStep::StoreArticle { .. } => FetchEvent::Stored,
        FetchStep::SaveCheckpoint { .. } => FetchEvent::CheckpointSaved,
        FetchStep::RecordUnavailable { .. } => FetchEvent::UnavailableRecorded,
        _ => FetchEvent::Stored,
    }
}

/// The state after `n` steps answered as `respond_all_but(k, _)` does.
pub open spec fn run_all_but(s: FetchState, k: usize, n: nat) -> FetchState
    decreases n,
{
    if n == 0 {
        s
    } else {
        run_all_but(next_state(s, respond_all_but(k, s.step)), k, (n - 1) as nat)
    }
}

proof fn lemma_run_split(s: FetchState, k: usize, a: nat, b: nat)
    ensures
        run_all_but(s, k, a + b) == run_all_but(run_all_but(s, k, a), k, b),
    decreases a,
{
    if a > 0 {
        lemma_run_split(next_state(s, respond_all_but(k, s.step)), k, (a - 1) as nat, b);
        assert((a + b - 1) as nat == (a - 1) as nat + b);
    }
}

/// Only `k` is unavailable in `o`, as far as `o` goes.
spec fn only_missing(o: Seq<bool>, start: usize, k: usize) -> bool {
    forall|i: int| 0 <= i < o.len() ==> (#[trigger] o[i] <==> start + i != k)
}

proof fn lemma_one_article(s: FetchState, k: usize) -> (m: nat)
    requires
        fetch_wf(s),
        s.start <= s.high,
        s.step == (FetchStep::Fetch { article: s.current, delay_ms: 0 }),
        s.attempts == 0,
    ensures
        ({
            let u = run_all_but(s, k, m);
            &&& fetch_wf(u)
            &&& u.start == s.start && u.high == s.high && u.initial == s.initial
            &&& u.outcomes == s.outcomes.push(s.current != k)
            &&& s.current == s.high ==> u.step == FetchStep::Done { fetched: u.fetched }
            &&& s.current < s.high ==> {
                &&& u.current == s.current + 1
                &&& u.attempts == 0
                &&& u.step == FetchStep::Fetch { article: u.current, delay_ms: 0 }
            }
        }),
{
    let r = |t: FetchState| next_state(t, respond_all_but(k, t.step));
    let s1 = r(s);
    let s2 = r(s1);
    let s3 = r(s2);
    let s4 = r(s3);
    lemma_next_state_wf(s, respond_all_but(k, s.step));
    lemma_next_state_wf(s1, respond_all_but(k, s1.step));
    lemma_next_state_wf(s2, respond_all_but(k, s2.step));
    lemma_next_state_wf(s3, respond_all_but(k, s3.step));
    assert(run_all_but(s4, k, 0) == s4);
    assert(run_all_but(s3, k, 0) == s3);
    assert(run_all_but(s2, k, 0) == s2);
    assert(run_all_but(s3, k, 1) == s4);
    assert(run_all_but(s2, k, 2) == s4);
    assert(run_all_but(s2, k, 1) == s3);
    assert(run_all_but(s1, k, 1) == s2);
    assert(run_all_but(s1, k, 2) == s3);
    assert(run_all_but(s, k, 2) == s2);
    assert(run_all_but(s, k, 3) == s3);
    if s.current == k {
        assert(run_all_but(s1, k, 3) == s4);
        assert(run_all_but(s, k, 4) == s4);
        4
    } else if s.checkpoint is Some {
        3
    } else {
        2
    }
}

proof fn lemma_run_rest(s: FetchState, k: usize) -> (n: nat)
    requires
        fetch_wf(s),
        s.start <= s.current <= s.high,
        s.step == (FetchStep::Fetch { article: s.current, delay_ms: 0 }),
        s.attempts == 0,
        only_missing(s.outcomes, s.start, k),
    ensures
        ({
            let u = run_all_but(s, k, n);
            &&& fetch_wf(u)
            &&& u.start == s.start && u.high == s.high && u.initial == s.initial
            &&& u.step == FetchStep::Done { fetched: u.fetched }
            &&& only_missing(u.outcomes, s.start, k)
        }),
    decreases s.high - s.current,
{
    let m = lemma_one_article(s, k);
    let u = run_all_but(s, k, m);
    assert(only_missing(u.outcomes, s.start, k)) by {
        assert forall|i: int| 0 <= i < u.outcomes.len() implies (#[trigger] u.outcomes[i] <==> s.start
            + i != k) by {
            if i < s.outcomes.len() {
                assert(u.outcomes[i] == s.outcomes[i]);
            }
        }
    }
    if s.current == s.high {
        m
    } else {
        let rest = lemma_run_rest(u, k);
        lemma_run_split(s, k, m, rest);
        m + rest
    }
}

proof fn lemma_count_all_stored(o: Seq<bool>)
    requires
        forall|i: int| 0 <= i < o.len() ==> o[i],
    ensures
        count_stored(o) == o.len(),
    decreases o.len(),
{
    if o.len() > 0 {
        lemma_count_all_stored(o.drop_last());
    }
}

proof fn lemma_count_all_but_one(o: Seq<bool>, j: int)
    requires
        0 <= j < o.len(),
        forall|i: int| 0 <= i < o.len() ==> (o[i] <==> i != j),
    ensures
        count_stored(o) == o.len() - 1,
    decreases o.len(),
{
    if j == o.len() - 1 {
        lemma_count_all_stored(o.drop_last());
    } else {
        lemma_count_all_but_one(o.drop_last(), j);
    }
}

/// After `n` steps from `s` answered as `respond_all_but(k, _)` does, the
/// range is done, every article but `k` is stored, and `k` is logged.
pub open spec fn all_but_stored(s: FetchState, k: usize, n: nat) -> bool {
    let u = run_all_but(s, k, n);
    &&& u.step == FetchStep::Done { fetched: (s.high - s.start) as usize }
    &&& u.outcomes.len() == s.high - s.start + 1
    &&& forall|i: int| 0 <= i < u.outcomes.len() ==> (#[trigger] u.outcomes[i] <==> s.start + i != k)
}

/// When the session reports article `k` of the range unavailable and has
/// all the others, and storage never fails, the range runs to its end:
/// every article but `k` is stored, `k` alone is logged as unavailable, and
/// the count of fetched articles is one less than the size of the range.
pub proof fn lemma_unavailable_article_skipped(
    low: usize,
    high: usize,
    checkpoint: Option<usize>,
    k: usize,
)
    requires
        high < usize::MAX,
        range_start(low, checkpoint) <= k <= high,
    ensures
        exists|n: nat| #[trigger] all_but_stored(initial_state(low, high, checkpoint), k, n),
{
    let s = initial_state(low, high, checkpoint);
    let n = lemma_run_rest(s, k);
    let u = run_all_but(s, k, n);
    lemma_count_all_but_one(u.outcomes, k - s.start);
    assert(all_but_stored(s, k, n));
}

/// After `n` steps from `s` answered by a session that has every article,
/// the range is done with all its articles stored, and a range that keeps
/// a checkpoint has it at its last article.
pub open spec fn all_stored(s: FetchState, n: nat) -> bool {
    let u = run_all_but(s, usize::MAX, n);
    &&& u.step == FetchStep::Done { fetched: (s.high - s.start + 1) as usize }
    &&& u.outcomes.len() == s.high - s.start + 1
    &&& forall|i: int| 0 <= i < u.outcomes.len() ==> #[trigger] u.outcomes[i]
    &&& s.checkpoint is Some ==> u.checkpoint == Some(s.high)
}

/// When the session has every article of the range (no article is numbered
/// `usize::MAX`) and storage never fails, the range runs to its end: every
/// article is stored, the count is the size of the range, and a range that
/// keeps a checkpoint leaves it at the range's last article.
pub proof fn lemma_all_available_stored(low: usize, high: usize, checkpoint: Option<usize>)
    requires
        high < usize::MAX,
        range_start(low, checkpoint) <= high,
    ensures
        exists|n: nat| #[trigger] all_stored(initial_state(low, high, checkpoint), n),
{
    let s = initial_state(low, high, checkpoint);
    let n = lemma_run_rest(s, usize::MAX);
    let u = run_all_but(s, usize::MAX, n);
    assert forall|i: int| 0 <= i < u.outcomes.len() implies #[trigger] u.outcomes[i] by {
        assert(u.outcomes[i] <==> s.start + i != usize::MAX);
    }
    lemma_count_all_stored(u.outcomes);
    assert(last_stored(u.outcomes) == Some((u.outcomes.len() - 1) as nat));
    assert(all_stored(s, n));
}

/// An inclusive range of one group's articles being fetched.
pub struct ArticleFetcher {
    start: usize,
    high: usize,
    current: usize,
    attempts: usize,
    fetched: usize,
    checkpoint: Option<usize>,
    initial: Option<usize>,
    step: FetchStep,
    outcomes: Ghost<Seq<bool>>,
}

impl View for ArticleFetcher {
    type V = FetchState;

    closed spec fn view(&self) -> FetchState {
        FetchState {
            start: self.start,
            high: self.high,
            current: self.current,
            attempts: self.attempts,
            fetched: self.fetched,
            checkpoint: self.checkpoint,
            initial: self.initial,
            step: self.step,
            outcomes: self.outcomes@,
        }
    }
}

impl ArticleFetcher {
    #[verifier::type_invariant]
    spec fn consistent(&self) -> bool {
        fetch_wf(self@)
    }

    /// The articles `low..=high`, started from `checkpoint` when the group
    /// keeps one: the range then starts at the checkpoint when that is above
    /// `low`, and every stored article is persisted as the new checkpoint.
    /// Without a checkpoint (a backfill) none is read or written. The last
    /// article is below `usize::MAX`, so that every count of the range fits.
    pub fn new(low: usize, high: usize, checkpoint: Option<usize>) -> (r: ArticleFetcher)
        requires
            high < usize::MAX,
        ensures
            r@ == initial_state(low, high, checkpoint),
    {
        let start = match checkpoint {
            Some(c) => if c > low {
                c
            } else {
                low
            },
            None => low,
        };
        let step = if start > high {
            FetchStep::Done { fetched: 0 }
        } else {
            FetchStep::Fetch { article: start, delay_ms: 0 }
        };
        ArticleFetcher {
            start,
            high,
            current: start,
            attempts: 0,
            fetched: 0,
            checkpoint,
            initial: checkpoint,
            step,
            outcomes: Ghost(Seq::empty()),
        }
    }

    /// The next thing to do.
    pub fn step(&self) -> (r: FetchStep)
        ensures
            r == self@.step,
    {
        self.step
    }

    /// How many articles were stored so far.
    pub fn fetched(&self) -> (r: usize)
        ensures
            r == self@.fetched,
    {
        self.fetched
    }

    /// The checkpoint persisted last, if the range keeps one.
    pub fn checkpoint(&self) -> (r: Option<usize>)
        ensures
            r == self@.checkpoint,
    {
        self.checkpoint
    }

    /// Takes in what came of the last step, and gives the next one.
    pub fn advance(&mut self, e: FetchEvent) -> (r: FetchStep)
        ensures
            final(self)@ == next_state(old(self)@, e),
            r == final(self)@.step,
    {
        proof {
            use_type_invariant(&*self);
            lemma_next_state_wf(self@, e);
            lemma_count_bound(self@.outcomes);
        }
        let ghost goal = next_state(self@, e);
        match (self.step, e) {
            (FetchStep::Fetch { .. }, FetchEvent::Fetched) => {
                self.step = FetchStep::StoreArticle { article: self.current };
            },
            (FetchStep::Fetch { .. }, FetchEvent::FetchFailed(class)) => {
                let failed = self.attempts + 1;
                if failed < MAX_ATTEMPTS {
                    *self = ArticleFetcher {
                        attempts: failed,
                        step: FetchStep::Fetch {
                            article: self.current,
                            delay_ms: RETRY_DELAY_MS * (failed as u64 + 1),
                        },
                        ..*self
                    };
                } else if class == ErrorClass::Unavailable {
                    *self = ArticleFetcher {
                        attempts: failed,
                        step: FetchStep::RecordUnavailable { article: self.current },
                        ..*self
                    };
                } else {
                    *self = ArticleFetcher { attempts: failed, step: FetchStep::Fail, ..*self };
                }
            },
            (FetchStep::StoreArticle { .. }, FetchEvent::Stored) => {
                let outcomes = Ghost(self.outcomes@.push(true));
                if self.checkpoint.is_some() {
                    *self = ArticleFetcher {
                        fetched: self.fetched + 1,
                        outcomes,
                        step: FetchStep::SaveCheckpoint { article: self.current },
                        ..*self
                    };
                } else {
                    self.move_on(self.fetched + 1, self.checkpoint, outcomes);
                }
            },
            (FetchStep::SaveCheckpoint { .. }, FetchEvent::CheckpointSaved) => {
                self.move_on(self.fetched, Some(self.current), self.outcomes);
            },
            (FetchStep::RecordUnavailable { .. }, FetchEvent::UnavailableRecorded) => {
                self.move_on(self.fetched, self.checkpoint, Ghost(self.outcomes@.push(false)));
            },
            _ => {},
        }
        assert(self@ == goal);
        self.step
    }

    fn move_on(&mut self, fetched: usize, checkpoint: Option<usize>, outcomes: Ghost<Seq<bool>>)
        requires
            fetch_wf(
                move_on(FetchState { fetched, checkpoint, outcomes: outcomes@, ..old(self)@ }),
            ),
            old(self).start <= old(self).current <= old(self).high,
        ensures
            final(self)@ == move_on(FetchState { fetched, checkpoint, outcomes: outcomes@, ..old(self)@ }),
    {
        if self.current == self.high {
            *self = ArticleFetcher {
                fetched,
                checkpoint,
                outcomes,
                step: FetchStep::Done { fetched },
                ..*self
            };
        } else {
            let next = self.current + 1;
            *self = ArticleFetcher {
                fetched,
                checkpoint,
                outcomes,
                current: next,
                attempts: 0,
                step: FetchStep::Fetch { article: next, delay_ms: 0 },
                ..*self
            };
        }
    }
}

} // verus!
