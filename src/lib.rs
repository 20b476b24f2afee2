//! A resumable archiver for news-server groups.
//!
//! The library holds the archiving engine's decisions, each proved against
//! its contract: reading article-number expressions (`range_inputs`), the
//! choice of groups (`config`), fetching a range of a group with retries and
//! a write-through checkpoint (`fetcher`), a worker's checkpoints, files and
//! reconnections (`worker`), and the producer that feeds the workers
//! (`scheduler`). The session, the files and the threads belong to the
//! program that drives these decisions. `mlhtypes` and `mlhid` hold the
//! identifiers of the mailing-list graph.
use vstd::prelude::*;

pub mod config;
pub mod errors;
pub mod fetcher;
pub mod mlhid;
pub mod mlhtypes;
pub mod range_inputs;
pub mod scheduler;
pub mod text;
pub mod worker;

use crate::config::AppConfig;
use crate::range_inputs::{parse_sequence, parse_spec, ArticleSequence, SequenceParseError};
use crate::scheduler::Scheduler;

verus! {

/// How a run goes: the scheduler over the chosen groups, and the backfill
/// to do instead of following them, when one is configured.
pub struct RunPlan {
    pub scheduler: Scheduler,
    pub range: Option<ArticleSequence>,
}

/// Plans a run of `app_config` over the chosen `groups`: a scheduler with
/// the configured host, archive, pool size and looping, and the configured
/// article range. A range expression that does not read is an error, before
/// any group is enqueued.
pub fn start(app_config: &AppConfig, groups: Vec<String>) -> (r: Result<RunPlan, SequenceParseError>)
    requires
        app_config.hostname is Some,
    ensures
        match app_config.article_range {
            Some(text) => match parse_spec(text@) {
                Err(e) => r matches Err(x) && x@ == e,
                Ok(parts) => r matches Ok(plan) && plan.range matches Some(q) && q@ == parts,
            },
            None => r matches Ok(plan) && plan.range is None,
        },
        r matches Ok(plan) ==> {
            &&& plan.scheduler.hostname == app_config.hostname->0
            &&& plan.scheduler.port == app_config.port
            &&& plan.scheduler.base_output_path == app_config.output_dir
            &&& plan.scheduler.nthreds == app_config.nthreads
            &&& plan.scheduler.loop_groups == app_config.loop_groups
            &&& plan.scheduler.tasklist@ == groups@
        },
{
    let range = match &app_config.article_range {
        Some(text) => match parse_sequence(text.as_str()) {
            Ok(q) => Some(q),
            Err(e) => {
                return Err(e);
            },
        },
        None => None,
    };
    let hostname = match &app_config.hostname {
        Some(h) => h.clone(),
        None => String::new(),
    };
    let scheduler = Scheduler::new(
        hostname,
        app_config.port,
        app_config.output_dir.clone(),
        app_config.nthreads,
        app_config.loop_groups,
        groups,
    );
    Ok(RunPlan { scheduler, range })
}

} // verus!
