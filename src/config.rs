//! The settings the engine runs with, and the choice of groups.
use vstd::prelude::*;

use crate::range_inputs::{parse_sequence, parse_spec, ArticleSequence};

verus! {

/// Command-line options: where to look for configuration files, and the
/// settings given on the command line.
#[derive(Debug, Default, Clone, PartialEq, Eq)]
pub struct Opts {
    pub config_file: String,
    pub app_config: Option<AppConfig>,
}

/// The settings of a run.
#[derive(Debug, Default, Clone, PartialEq, Eq)]
pub struct AppConfig {
    pub hostname: Option<String>,
    pub port: u16,
    pub output_dir: String,
    pub nthreads: u8,
    /// Rescan the groups every interval, or enqueue them once.
    pub loop_groups: bool,
    pub group_lists: Option<Vec<String>>,
    /// Comma-separated numbers, or dash-separated ranges like `low-high`.
    pub article_range: Option<String>,
}

/// Why no group could be chosen.
#[derive(Debug, Clone, PartialEq, Eq)]
pub enum ConfigError {
    /// Nothing was configured or selected.
    ListSelectionEmpty,
    /// Some configured groups are not on the server.
    ConfiguredListsNotAvailable { unavailable_lists: Vec<String> },
    /// None of the configured groups is on the server.
    AllListsUnavailable,
    /// The selection could not be saved.
    Io(String),
}

/// The name that stands for every group the server offers.
pub open spec fn all_marker() -> Seq<char> {
    seq!['A', 'L', 'L']
}

fn is_all_marker(s: &String) -> (b: bool)
    ensures
        b == (s@ == all_marker()),
{
    let cs = crate::text::chars_of(s.as_str());
    let b = cs.len() == 3 && cs[0] == 'A' && cs[1] == 'L' && cs[2] == 'L';
    assert(b ==> cs@ =~= all_marker());
    b
}

/// The configured names `s` that the server offers (`opts`), in order, each
/// run of repeated neighbours kept once.
pub open spec fn known_groups(s: Seq<Seq<char>>, opts: Seq<Seq<char>>) -> Seq<Seq<char>>
    decreases s.len(),
{
    if s.len() == 0 {
        Seq::empty()
    } else {
        let r = known_groups(s.drop_last(), opts);
        let x = s.last();
        if (s.len() == 1 || x != s[s.len() - 2]) && opts.contains(x) {
            r.push(x)
        } else {
            r
        }
    }
}

/// Whether the list of names `v` holds `x`.
fn holds(v: &Vec<String>, x: &String) -> (b: bool)
    ensures
        b == v.deep_view().contains(x@),
{
    let mut i: usize = 0;
    while i < v.len()
        invariant
            0 <= i <= v@.len(),
            forall|k: int| 0 <= k < i ==> v.deep_view()[k] != x@,
        decreases v@.len() - i,
    {
        if v[i] == *x {
            assert(v.deep_view()[i as int] == x@);
            return true;
        }
        i = i + 1;
    }
    false
}

/// The groups to archive when `configured` names them and the server
/// offers `options`.
///
/// `ALL` first selects everything offered; otherwise the configured names
/// the server offers are kept, repeated neighbours once.
pub fn resolve_configured_groups(configured: &Vec<String>, options: &Vec<String>) -> (r: Result<
    Vec<String>,
    ConfigError,
>)
    ensures
        configured@.len() == 0 ==> r == Err::<Vec<String>, ConfigError>(
            ConfigError::ListSelectionEmpty,
        ),
        configured@.len() > 0 && configured@[0]@ == all_marker() ==> r is Ok && r->Ok_0.deep_view()
            == options.deep_view(),
        configured@.len() > 0 && configured@[0]@ != all_marker() ==> {
            let k = known_groups(configured.deep_view(), options.deep_view());
            &&& k.len() == 0 ==> r == Err::<Vec<String>, ConfigError>(
                ConfigError::AllListsUnavailable,
            )
            &&& k.len() > 0 ==> r is Ok && r->Ok_0.deep_view() == k
        },
{
    if configured.len() == 0 {
        return Err(ConfigError::ListSelectionEmpty);
    }
    if is_all_marker(&configured[0]) {
        return Ok(options.clone());
    }
    let ghost s = configured.deep_view();
    let mut valid: Vec<String> = Vec::new();
    let mut i: usize = 0;
    while i < configured.len()
        invariant
            0 <= i <= configured@.len(),
            s == configured.deep_view(),
            valid.deep_view() == known_groups(s.subrange(0, i as int), options.deep_view()),
        decreases configured@.len() - i,
    {
        let ghost pre = s.subrange(0, i + 1);
        assert(pre.drop_last() =~= s.subrange(0, i as int));
        let fresh = i == 0 || configured[i] != configured[i - 1];
        if fresh && holds(options, &configured[i]) {
            let ghost before = valid.deep_view();
            valid.push(configured[i].clone());
            assert(valid.deep_view() =~= before.push(s[i as int]));
        }
        i = i + 1;
    }
    assert(s.subrange(0, i as int) =~= s);
    if valid.len() == 0 {
        return Err(ConfigError::AllListsUnavailable);
    }
    Ok(valid)
}

/// The configured names `s` that the server does not offer (`opts`), in
/// order.
pub open spec fn missing_groups(s: Seq<Seq<char>>, opts: Seq<Seq<char>>) -> Seq<Seq<char>>
    decreases s.len(),
{
    if s.len() == 0 {
        Seq::empty()
    } else {
        let r = missing_groups(s.drop_last(), opts);
        if opts.contains(s.last()) {
            r
        } else {
            r.push(s.last())
        }
    }
}

/// The configured groups that the server does not offer, to be reported:
/// `ConfiguredListsNotAvailable` when there are any. A configuration that
/// starts with `ALL` selects what the server offers, and misses nothing.
pub fn unavailable_groups(configured: &Vec<String>, options: &Vec<String>) -> (r: Option<
    ConfigError,
>)
    ensures
        configured@.len() > 0 && configured@[0]@ == all_marker() ==> r is None,
        !(configured@.len() > 0 && configured@[0]@ == all_marker()) ==> ({
            let m = missing_groups(configured.deep_view(), options.deep_view());
            &&& m.len() == 0 ==> r is None
            &&& m.len() > 0 ==> (r matches Some(ConfigError::ConfiguredListsNotAvailable {
                unavailable_lists,
            }) && unavailable_lists.deep_view() == m)
        }),
{
    if configured.len() > 0 && is_all_marker(&configured[0]) {
        return None;
    }
    let ghost s = configured.deep_view();
    let mut missing: Vec<String> = Vec::new();
    let mut i: usize = 0;
    while i < configured.len()
        invariant
            0 <= i <= configured@.len(),
            s == configured.deep_view(),
            missing.deep_view() == missing_groups(s.subrange(0, i as int), options.deep_view()),
        decreases configured@.len() - i,
    {
        assert(s.subrange(0, i + 1).drop_last() =~= s.subrange(0, i as int));
        if !holds(options, &configured[i]) {
            let ghost before = missing.deep_view();
            missing.push(configured[i].clone());
            assert(missing.deep_view() =~= before.push(s[i as int]));
        }
        i = i + 1;
    }
    assert(s.subrange(0, i as int) =~= s);
    if missing.len() == 0 {
        None
    } else {
        Some(ConfigError::ConfiguredListsNotAvailable { unavailable_lists: missing })
    }
}

/// The groups to archive from an interactive selection `answer` among
/// `options` (the selection list starts with `ALL`).
pub fn resolve_selected_groups(answer: &Vec<String>, options: &Vec<String>) -> (r: Result<
    Vec<String>,
    ConfigError,
>)
    ensures
        answer@.len() == 0 ==> r == Err::<Vec<String>, ConfigError>(
            ConfigError::ListSelectionEmpty,
        ),
        answer@.len() > 0 && answer@[0]@ == all_marker() ==> r is Ok && r->Ok_0.deep_view()
            == options.deep_view(),
        answer@.len() > 0 && answer@[0]@ != all_marker() ==> r is Ok && r->Ok_0.deep_view()
            == answer.deep_view(),
{
    if answer.len() == 0 {
        return Err(ConfigError::ListSelectionEmpty);
    }
    if is_all_marker(&answer[0]) {
        Ok(options.clone())
    } else {
        Ok(answer.clone())
    }
}

impl AppConfig {
    /// The article numbers to fetch instead of following the groups, when
    /// an expression is configured and reads; `None` otherwise.
    pub fn get_article_range(&self) -> (r: Option<ArticleSequence>)
        ensures
            match self.article_range {
                None => r is None,
                Some(text) => match parse_spec(text@) {
                    Ok(parts) => r is Some && r->0@ == parts,
                    Err(_) => r is None,
                },
            },
    {
        match &self.article_range {
            Some(text) => match parse_sequence(text.as_str()) {
                Ok(q) => Some(q),
                Err(_) => None,
            },
            None => None,
        }
    }
}

} // verus!
