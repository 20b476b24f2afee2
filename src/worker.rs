//! A worker's decisions: where a group's files go, which checkpoint a group
//! resumes from, which range of a group is due, and when the session must
//! be reopened.
use vstd::prelude::*;

use crate::errors::ErrorClass;
use crate::fetcher::ArticleFetcher;
use crate::text::{
    chars_of, decimal, decimal_string, non_empty, parse_usize, parse_usize_spec, split_space_chars,
    split_spaces, words,
};

verus! {

/// The name of a group's checkpoint file.
pub const CHECKPOINT_FILE: &'static str = "__last_article_number";

/// The name of a group's log of unavailable articles.
pub const ERRORS_FILE: &'static str = "__errors";

/// The extension of an article's file.
pub const ARTICLE_EXTENSION: &'static str = ".eml";

/// The pause before a session is reopened.
pub const RECONNECT_COOLDOWN_SECS: u64 = 60;

/// The pause after each task, so as not to hammer the server.
pub const TASK_PAUSE_SECS: u64 = 1;

/// `base/group/name`.
pub open spec fn group_file(base: Seq<char>, group: Seq<char>, name: Seq<char>) -> Seq<char> {
    base + seq!['/'] + group + seq!['/'] + name
}

fn join_group_file(base: &str, group: &str, name: &str) -> (r: String)
    ensures
        r@ == group_file(base@, group@, name@),
{
    let mut r = String::from_str(base);
    r.append("/");
    r.append(group);
    r.append("/");
    r.append(name);
    proof {
        reveal_strlit("/");
    }
    assert(r@ =~= group_file(base@, group@, name@));
    r
}

/// Where the checkpoint of `group` is kept under the archive `base`.
pub fn checkpoint_path(base: &str, group: &str) -> (r: String)
    ensures
        r@ == group_file(base@, group@, CHECKPOINT_FILE@),
{
    join_group_file(base, group, CHECKPOINT_FILE)
}

/// Where the unavailable articles of `group` are logged.
pub fn errors_path(base: &str, group: &str) -> (r: String)
    ensures
        r@ == group_file(base@, group@, ERRORS_FILE@),
{
    join_group_file(base, group, ERRORS_FILE)
}

/// Where article `number` of `group` is stored.
pub fn article_path(base: &str, group: &str, number: usize) -> (r: String)
    ensures
        r@ == group_file(base@, group@, decimal(number as nat) + ARTICLE_EXTENSION@),
{
    let mut name = decimal_string(number);
    name.append(ARTICLE_EXTENSION);
    join_group_file(base, group, name.as_str())
}

/// The line logged for an unavailable article: its number, a comma, and
/// the error's text.
pub fn error_log_line(number: usize, message: &str) -> (r: String)
    ensures
        r@ == decimal(number as nat) + seq![','] + message@,
{
    let mut r = decimal_string(number);
    r.append(",");
    r.append(message);
    proof {
        reveal_strlit(",");
    }
    assert(r@ =~= decimal(number as nat) + seq![','] + message@);
    r
}

/// The first of `parts` that reads as a number.
pub open spec fn first_number(parts: Seq<Seq<char>>) -> Option<usize>
    decreases parts.len(),
{
    if parts.len() == 0 {
        None
    } else {
        match parse_usize_spec(parts[0]) {
            Some(n) => Some(n),
            None => first_number(parts.drop_first()),
        }
    }
}

/// The number that an older, plain checkpoint file holds: the first
/// whitespace-delimited word of its text that reads as a number.
pub open spec fn legacy_number(content: Seq<char>) -> Option<usize> {
    first_number(words(content))
}

/// Reads the checkpoint of an older, plain file: the first
/// whitespace-delimited word of `content` that reads as a number.
pub fn try_read_number(content: &str) -> (r: Option<usize>)
    ensures
        r == legacy_number(content@),
{
    let parts = split_space_chars(&chars_of(content));
    let ghost ps = split_spaces(content@);
    let mut i: usize = 0;
    assert(ps.subrange(0, ps.len() as int) =~= ps);
    while i < parts.len()
        invariant
            ps == split_spaces(content@),
            parts@.len() == ps.len(),
            forall|k: int| 0 <= k < parts@.len() ==> (#[trigger] parts@[k])@ == ps[k],
            0 <= i <= ps.len(),
            first_number(non_empty(ps)) == first_number(
                non_empty(ps.subrange(i as int, ps.len() as int)),
            ),
        decreases ps.len() - i,
    {
        let ghost rest = ps.subrange(i as int, ps.len() as int);
        assert(rest.drop_first() =~= ps.subrange(i + 1, ps.len() as int));
        assert(rest[0] == parts@[i as int]@);
        if parts[i].len() > 0 {
            let ghost tail = non_empty(rest.drop_first());
            assert(non_empty(rest) == seq![rest[0]] + tail);
            assert((seq![rest[0]] + tail).drop_first() =~= tail);
            match parse_usize(&parts[i]) {
                Some(n) => {
                    return Some(n);
                },
                None => {},
            }
        }
        i = i + 1;
    }
    assert(ps.subrange(i as int, ps.len() as int) =~= Seq::<Seq<char>>::empty());
    None
}

/// The checkpoint a group resumes from, and whether it must be written
/// back.
#[derive(Clone, Copy, Debug, PartialEq, Eq, Structural)]
pub struct ResumePoint {
    pub last_article: usize,
    pub rewrite: bool,
}

/// The checkpoint a group resumes from: the record read from its file
/// (`record`) when it decodes, else the number of an older plain file
/// (`content`), else `0`. Unless the record decoded, it is written back so
/// that the group's directory always holds a valid record.
pub fn resume_point(record: Option<usize>, content: Option<&str>) -> (r: ResumePoint)
    ensures
        record matches Some(n) ==> r == (ResumePoint { last_article: n, rewrite: false }),
        record is None ==> r.rewrite && r.last_article == match content {
            Some(c) => match legacy_number(c@) {
                Some(n) => n,
                None => 0,
            },
            None => 0,
        },
{
    match record {
        Some(n) => ResumePoint { last_article: n, rewrite: false },
        None => {
            let last_article = match content {
                Some(c) => match try_read_number(c) {
                    Some(n) => n,
                    None => 0,
                },
                None => 0,
            };
            ResumePoint { last_article, rewrite: true }
        },
    }
}

/// What a task on one group came to.
#[derive(Debug, Clone, PartialEq, Eq)]
pub enum WorkerGroupResult {
    /// New articles were fetched: the group and how many.
    Fetched(String, usize),
    /// The group had nothing new.
    NoNews(String),
}

/// What a worker does next.
#[derive(Clone, Copy, Debug, PartialEq, Eq, Structural)]
pub enum WorkerAction {
    /// Wait `cooldown_secs`, then reopen the session.
    Reconnect { cooldown_secs: u64 },
    /// Take the next group from the queue.
    TakeTask,
}

/// The state of a worker; the session itself lives with the caller.
pub struct Worker {
    pub id: u8,
    pub hostname: String,
    pub base_output_path: String,
    pub needs_reconnection: bool,
}

impl Worker {
    /// A worker whose session was just opened.
    pub fn new(id: u8, hostname: String, base_output_path: String) -> (r: Worker)
        ensures
            r.id == id,
            r.hostname == hostname,
            r.base_output_path == base_output_path,
            !r.needs_reconnection,
    {
        Worker { id, hostname, base_output_path, needs_reconnection: false }
    }

    /// Reopen the session first if it failed, else take a task.
    pub fn next_action(&self) -> (r: WorkerAction)
        ensures
            self.needs_reconnection ==> r == (WorkerAction::Reconnect {
                cooldown_secs: RECONNECT_COOLDOWN_SECS,
            }),
            !self.needs_reconnection ==> r == WorkerAction::TakeTask,
    {
        if self.needs_reconnection {
            WorkerAction::Reconnect { cooldown_secs: RECONNECT_COOLDOWN_SECS }
        } else {
            WorkerAction::TakeTask
        }
    }

    /// Takes in whether reopening the session worked. A failure is fatal to
    /// this run of the worker (`false`): its supervisor restarts it, still
    /// waiting for a new session.
    pub fn reconnected(&mut self, ok: bool) -> (r: bool)
        ensures
            r == ok,
            final(self).needs_reconnection == !ok,
            final(self).id == old(self).id,
            final(self).hostname == old(self).hostname,
            final(self).base_output_path == old(self).base_output_path,
    {
        self.needs_reconnection = !ok;
        ok
    }

    /// Takes in how a task ended (`None`: it succeeded). A network failure
    /// leaves the session to be closed (`true`) and reopened; any other
    /// failure is only reported, and the worker goes on.
    pub fn task_finished(&mut self, failure: Option<ErrorClass>) -> (close_session: bool)
        ensures
            close_session == (failure == Some(ErrorClass::Network)),
            final(self).needs_reconnection == (old(self).needs_reconnection || close_session),
            final(self).id == old(self).id,
            final(self).hostname == old(self).hostname,
            final(self).base_output_path == old(self).base_output_path,
    {
        let close_session = match failure {
            Some(ErrorClass::Network) => true,
            _ => false,
        };
        if close_session {
            self.needs_reconnection = true;
        }
        close_session
    }

    /// The range of a group that is due, given the checkpoint it resumes
    /// from and the bounds the server reports: `None` when nothing is newer
    /// than the checkpoint; else the range from the checkpoint (or `low`,
    /// when above it) to `high`, which persists each stored article as the
    /// new checkpoint.
    pub fn plan_group(&self, last_article: usize, low: usize, high: usize) -> (r: Option<
        ArticleFetcher,
    >)
        requires
            high < usize::MAX,
        ensures
            last_article >= high ==> r is None,
            last_article < high ==> (r matches Some(f) && f@ == crate::fetcher::initial_state(
                low,
                high,
                Some(last_article),
            )),
    {
        if last_article < high {
            Some(ArticleFetcher::new(low, high, Some(last_article)))
        } else {
            None
        }
    }

    /// The fetch of one article of a backfill: a range of that article
    /// alone, which reads and writes no checkpoint.
    pub fn backfill_fetcher(&self, article: usize) -> (r: ArticleFetcher)
        requires
            article < usize::MAX,
        ensures
            r@ == crate::fetcher::initial_state(article, article, None),
    {
        ArticleFetcher::new(article, article, None)
    }
}

} // verus!
