use std::collections::BTreeMap;

use mlh_archiver::config::{
    resolve_configured_groups, resolve_selected_groups, unavailable_groups, AppConfig, ConfigError,
};
use mlh_archiver::errors::{ErrorClass, ProtocolError};
use mlh_archiver::fetcher::{ArticleFetcher, FetchEvent, FetchStep, MAX_ATTEMPTS, RETRY_DELAY_MS};
use mlh_archiver::scheduler::{ProducerStep, Scheduler, INTERVAL_BETWEEN_RESCANS};
use mlh_archiver::start;
use mlh_archiver::worker::{
    article_path, checkpoint_path, error_log_line, errors_path, resume_point, try_read_number,
    Worker, WorkerAction, WorkerGroupResult, RECONNECT_COOLDOWN_SECS,
};
use mlh_archiver::errors::Error;
use mlh_archiver::range_inputs::{parse_sequence, SequenceParseError};

/// A server for the tests: each group's bounds and the articles it has.
struct FakeServer {
    groups: BTreeMap<String, (usize, usize, Vec<usize>)>,
}

type Tree = BTreeMap<String, String>;

fn encode_record(n: usize) -> String {
    format!("last_email: {}\n", n)
}

fn decode_record(text: &str) -> Option<usize> {
    text.strip_prefix("last_email: ")
        .and_then(|rest| rest.trim().parse().ok())
}

/// Runs a fetcher to its end against `server`, writing into `tree`.
fn drive(
    f: &mut ArticleFetcher,
    server: &FakeServer,
    base: &str,
    group: &str,
    tree: &mut Tree,
) -> Result<usize, ()> {
    let has = &server.groups[group].2;
    let mut step = f.step();
    loop {
        step = match step {
            FetchStep::Fetch { article, .. } => {
                if has.contains(&article) {
                    f.advance(FetchEvent::Fetched)
                } else {
                    f.advance(FetchEvent::FetchFailed(ErrorClass::Unavailable))
                }
            }
            FetchStep::StoreArticle { article } => {
                tree.insert(article_path(base, group, article), format!("article {}", article));
                f.advance(FetchEvent::Stored)
            }
            FetchStep::SaveCheckpoint { article } => {
                tree.insert(checkpoint_path(base, group), encode_record(article));
                f.advance(FetchEvent::CheckpointSaved)
            }
            FetchStep::RecordUnavailable { article } => {
                let path = errors_path(base, group);
                let mut log = tree.get(&path).cloned().unwrap_or_default();
                log.push_str(&error_log_line(article, "article unavailable"));
                log.push('\n');
                tree.insert(path, log);
                f.advance(FetchEvent::UnavailableRecorded)
            }
            FetchStep::Fail => return Err(()),
            FetchStep::Done { fetched } => return Ok(fetched),
        }
    }
}

/// One task of a worker on `group`, as the engine runs it.
fn handle_group(
    worker: &Worker,
    server: &FakeServer,
    group: &str,
    tree: &mut Tree,
) -> WorkerGroupResult {
    let base = worker.base_output_path.clone();
    let path = checkpoint_path(&base, group);
    let content = tree.get(&path).cloned();
    let record = content.as_deref().and_then(decode_record);
    let resume = resume_point(record, content.as_deref());
    if resume.rewrite {
        tree.insert(path, encode_record(resume.last_article));
    }
    let (low, high, _) = server.groups[group].clone();
    match worker.plan_group(resume.last_article, low, high) {
        Some(mut f) => {
            let fetched = drive(&mut f, server, &base, group, tree).unwrap();
            WorkerGroupResult::Fetched(group.to_string(), fetched)
        }
        None => WorkerGroupResult::NoNews(group.to_string()),
    }
}

fn server_a_b() -> FakeServer {
    let mut groups = BTreeMap::new();
    groups.insert("a".to_string(), (1, 2, vec![1, 2]));
    groups.insert("b".to_string(), (1, 1, vec![1]));
    FakeServer { groups }
}

#[test]
fn one_shot_run_archives_every_group() {
    let server = server_a_b();
    let config = AppConfig {
        hostname: Some("localhost".to_string()),
        port: 119,
        output_dir: "out".to_string(),
        nthreads: 1,
        loop_groups: false,
        group_lists: Some(vec!["ALL".to_string()]),
        article_range: None,
    };
    let offered: Vec<String> = server.groups.keys().cloned().collect();
    let groups = resolve_configured_groups(config.group_lists.as_ref().unwrap(), &offered).unwrap();
    let plan = start(&config, groups).unwrap();
    assert!(plan.range.is_none());
    let scheduler = plan.scheduler;

    let mut queue = Vec::new();
    let mut sent = 0;
    loop {
        match scheduler.producer_step(sent) {
            ProducerStep::Enqueue(g) => {
                queue.push(g);
                sent += 1;
            }
            ProducerStep::Finish => break,
            ProducerStep::Rescan { .. } => panic!("a one-shot run does not rescan"),
        }
    }
    assert_eq!(queue, vec!["a".to_string(), "b".to_string()]);

    let worker = Worker::new(0, scheduler.hostname.clone(), scheduler.base_output_path.clone());
    let mut tree = Tree::new();
    let mut results = Vec::new();
    for g in &queue {
        assert_eq!(worker.next_action(), WorkerAction::TakeTask);
        results.push(handle_group(&worker, &server, g, &mut tree));
    }
    assert_eq!(
        results,
        vec![
            WorkerGroupResult::Fetched("a".to_string(), 2),
            WorkerGroupResult::Fetched("b".to_string(), 1),
        ]
    );
    let files: Vec<&str> = tree.keys().map(|k| k.as_str()).collect();
    assert_eq!(
        files,
        vec![
            "out/a/1.eml",
            "out/a/2.eml",
            "out/a/__last_article_number",
            "out/b/1.eml",
            "out/b/__last_article_number",
        ]
    );
    assert_eq!(decode_record(&tree["out/a/__last_article_number"]), Some(2));
    assert_eq!(decode_record(&tree["out/b/__last_article_number"]), Some(1));

    // A second pass finds nothing new.
    assert_eq!(
        handle_group(&worker, &server, "a", &mut tree),
        WorkerGroupResult::NoNews("a".to_string())
    );
}

#[test]
fn unavailable_article_is_logged_and_skipped() {
    let mut groups = BTreeMap::new();
    groups.insert("g".to_string(), (3, 7, vec![3, 4, 6, 7]));
    let server = FakeServer { groups };
    let mut tree = Tree::new();
    let mut f = ArticleFetcher::new(3, 7, Some(0));
    let fetched = drive(&mut f, &server, "o", "g", &mut tree).unwrap();
    assert_eq!(fetched, (7 - 3 + 1) - 1);
    assert_eq!(tree["o/g/__errors"], "5,article unavailable\n");
    assert!(!tree.contains_key("o/g/5.eml"));
    for n in [3, 4, 6, 7] {
        assert!(tree.contains_key(&format!("o/g/{}.eml", n)));
    }
    assert_eq!(f.checkpoint(), Some(7));
}

#[test]
fn checkpoint_follows_the_highest_stored_article() {
    let mut groups = BTreeMap::new();
    groups.insert("g".to_string(), (1, 9, (1..=9).collect()));
    let server = FakeServer { groups };
    let worker = Worker::new(0, "h".to_string(), "o".to_string());
    let mut tree = Tree::new();
    let mut last = 0;
    for high in [2, 2, 5, 9] {
        let content = tree.get("o/g/__last_article_number").cloned();
        let resume = resume_point(content.as_deref().and_then(decode_record), content.as_deref());
        assert_eq!(resume.last_article, last);
        if let Some(mut f) = worker.plan_group(resume.last_article, 1, high) {
            drive(&mut f, &server, "o", "g", &mut tree).unwrap();
            assert_eq!(f.checkpoint(), Some(high));
        }
        let now = decode_record(&tree["o/g/__last_article_number"]).unwrap();
        assert!(now >= last);
        assert_eq!(now, high);
        last = now;
    }
}

#[test]
fn resumed_range_starts_at_the_checkpoint() {
    let f = ArticleFetcher::new(1, 10, Some(4));
    assert_eq!(f.step(), FetchStep::Fetch { article: 4, delay_ms: 0 });
    let g = ArticleFetcher::new(6, 10, Some(4));
    assert_eq!(g.step(), FetchStep::Fetch { article: 6, delay_ms: 0 });
    let h = ArticleFetcher::new(6, 5, Some(0));
    assert_eq!(h.step(), FetchStep::Done { fetched: 0 });
}

#[test]
fn retries_wait_longer_each_time_then_fail() {
    let mut f = ArticleFetcher::new(1, 1, Some(0));
    assert_eq!(
        f.advance(FetchEvent::FetchFailed(ErrorClass::Network)),
        FetchStep::Fetch { article: 1, delay_ms: 2 * RETRY_DELAY_MS }
    );
    assert_eq!(
        f.advance(FetchEvent::FetchFailed(ErrorClass::Network)),
        FetchStep::Fetch { article: 1, delay_ms: 3 * RETRY_DELAY_MS }
    );
    assert_eq!(RETRY_DELAY_MS, 600);
    assert_eq!(MAX_ATTEMPTS, 3);
    assert_eq!(f.advance(FetchEvent::FetchFailed(ErrorClass::Other)), FetchStep::Fail);
    assert_eq!(f.advance(FetchEvent::Fetched), FetchStep::Fail);
    assert_eq!(f.fetched(), 0);
}

#[test]
fn retry_that_succeeds_goes_on() {
    let mut f = ArticleFetcher::new(1, 2, None);
    f.advance(FetchEvent::FetchFailed(ErrorClass::Other));
    assert_eq!(f.advance(FetchEvent::Fetched), FetchStep::StoreArticle { article: 1 });
    assert_eq!(
        f.advance(FetchEvent::Stored),
        FetchStep::Fetch { article: 2, delay_ms: 0 }
    );
    assert_eq!(f.advance(FetchEvent::CheckpointSaved), FetchStep::Fetch { article: 2, delay_ms: 0 });
    f.advance(FetchEvent::Fetched);
    assert_eq!(f.advance(FetchEvent::Stored), FetchStep::Done { fetched: 2 });
    assert_eq!(f.checkpoint(), None);
}

#[test]
fn backfill_fetches_each_number_alone() {
    let worker = Worker::new(0, "h".to_string(), "o".to_string());
    let scheduler = Scheduler::new(
        "h".to_string(),
        119,
        "o".to_string(),
        1,
        false,
        vec!["first".to_string(), "second".to_string()],
    );
    let job = scheduler.run_range(parse_sequence("2,5").unwrap()).unwrap();
    assert_eq!(job.group, "first");
    let mut groups = BTreeMap::new();
    groups.insert("first".to_string(), (1, 9, vec![2, 5]));
    let server = FakeServer { groups };
    let mut tree = Tree::new();
    for n in job.articles.to_vec() {
        let mut f = worker.backfill_fetcher(n);
        assert_eq!(drive(&mut f, &server, "o", "first", &mut tree), Ok(1));
    }
    let files: Vec<&str> = tree.keys().map(|k| k.as_str()).collect();
    assert_eq!(files, vec!["o/first/2.eml", "o/first/5.eml"]);
}

#[test]
fn backfill_without_groups_fails() {
    let scheduler = Scheduler::new("h".to_string(), 119, "o".to_string(), 1, false, vec![]);
    assert!(matches!(scheduler.run_range(parse_sequence("1").unwrap()), Err(Error::Unknown)));
}

#[test]
fn looping_producer_rescans_every_interval() {
    let scheduler = Scheduler::new("h".to_string(), 119, "o".to_string(), 2, true, vec!["x".to_string()]);
    assert_eq!(scheduler.producer_step(0), ProducerStep::Enqueue("x".to_string()));
    assert_eq!(
        scheduler.producer_step(1),
        ProducerStep::Rescan { sleep_secs: INTERVAL_BETWEEN_RESCANS }
    );
    assert_eq!(INTERVAL_BETWEEN_RESCANS, 3600);
}

#[test]
fn full_queue_holds_back_the_producer() {
    let n: u8 = 3;
    let scheduler = Scheduler::new(
        "h".to_string(),
        119,
        "o".to_string(),
        n,
        false,
        vec!["a".to_string(), "b".to_string(), "c".to_string(), "d".to_string()],
    );
    assert_eq!(scheduler.queue_capacity(), 3);
    let (tx, rx) = crossbeam_channel::bounded::<String>(scheduler.queue_capacity());
    for i in 0..3 {
        match scheduler.producer_step(i) {
            ProducerStep::Enqueue(g) => tx.try_send(g).unwrap(),
            _ => panic!("expected a group"),
        }
    }
    let fourth = match scheduler.producer_step(3) {
        ProducerStep::Enqueue(g) => g,
        _ => panic!("expected a group"),
    };
    assert!(matches!(tx.try_send(fourth.clone()), Err(crossbeam_channel::TrySendError::Full(_))));
    assert_eq!(rx.recv().unwrap(), "a");
    assert!(tx.try_send(fourth).is_ok());
}

#[test]
fn network_failure_forces_reconnection() {
    let mut worker = Worker::new(1, "h".to_string(), "o".to_string());
    assert!(!worker.task_finished(Some(ErrorClass::Other)));
    assert_eq!(worker.next_action(), WorkerAction::TakeTask);
    assert!(!worker.task_finished(None));
    assert!(worker.task_finished(Some(ProtocolError::Network("reset".to_string()).class())));
    assert_eq!(
        worker.next_action(),
        WorkerAction::Reconnect { cooldown_secs: RECONNECT_COOLDOWN_SECS }
    );
    assert!(!worker.reconnected(false));
    assert!(worker.needs_reconnection);
    assert!(worker.reconnected(true));
    assert_eq!(worker.next_action(), WorkerAction::TakeTask);
}

#[test]
fn error_classes() {
    assert_eq!(ProtocolError::ArticleUnavailable.class(), ErrorClass::Unavailable);
    assert_eq!(ProtocolError::Other("x".to_string()).class(), ErrorClass::Other);
    assert!(ProtocolError::Network("x".to_string()).is_network());
    assert!(!ProtocolError::ArticleUnavailable.is_network());
}

#[test]
fn checkpoint_written_twice_reads_back() {
    let first = encode_record(42);
    let second = encode_record(42);
    assert_eq!(first, second);
    let r = resume_point(decode_record(&second), Some(&second));
    assert_eq!(r.last_article, 42);
    assert!(!r.rewrite);
}

#[test]
fn missing_or_legacy_checkpoint_is_rewritten() {
    let r = resume_point(None, None);
    assert_eq!((r.last_article, r.rewrite), (0, true));
    let r = resume_point(None, Some("  17\n"));
    assert_eq!((r.last_article, r.rewrite), (17, true));
    let r = resume_point(None, Some("garbage"));
    assert_eq!((r.last_article, r.rewrite), (0, true));
    assert_eq!(try_read_number("x 12 13"), Some(12));
    assert_eq!(try_read_number("last_email: 9"), Some(9));
    assert_eq!(try_read_number(""), None);
    assert_eq!(try_read_number("7\tx"), Some(7));
    assert_eq!(try_read_number("x\n\n 42\r\nfoo"), Some(42));
    assert_eq!(try_read_number("\u{3000}+5 6"), Some(5));
    assert_eq!(try_read_number(" \t "), None);
    let r = resume_point(None, Some("last\t19\n"));
    assert_eq!((r.last_article, r.rewrite), (19, true));
}

#[test]
fn file_layout() {
    assert_eq!(checkpoint_path("out", "g.x"), "out/g.x/__last_article_number");
    assert_eq!(errors_path("out", "g.x"), "out/g.x/__errors");
    assert_eq!(article_path("out", "g.x", 1207), "out/g.x/1207.eml");
    assert_eq!(article_path("out", "g.x", 0), "out/g.x/0.eml");
    assert_eq!(error_log_line(30, "gone"), "30,gone");
}

#[test]
fn configured_groups_are_checked_against_the_server() {
    let offered = vec!["a".to_string(), "b".to_string(), "c".to_string()];
    let cfg = vec!["b".to_string(), "b".to_string(), "x".to_string(), "a".to_string(), "b".to_string()];
    assert_eq!(
        resolve_configured_groups(&cfg, &offered).unwrap(),
        vec!["b".to_string(), "a".to_string(), "b".to_string()]
    );
    assert_eq!(
        resolve_configured_groups(&vec!["x".to_string()], &offered),
        Err(ConfigError::AllListsUnavailable)
    );
    assert_eq!(resolve_configured_groups(&vec![], &offered), Err(ConfigError::ListSelectionEmpty));
    assert_eq!(resolve_configured_groups(&vec!["ALL".to_string()], &offered).unwrap(), offered);
}

#[test]
fn interactive_selection() {
    let offered = vec!["a".to_string(), "b".to_string()];
    assert_eq!(resolve_selected_groups(&vec![], &offered), Err(ConfigError::ListSelectionEmpty));
    assert_eq!(resolve_selected_groups(&vec!["ALL".to_string()], &offered).unwrap(), offered);
    assert_eq!(
        resolve_selected_groups(&vec!["b".to_string()], &offered).unwrap(),
        vec!["b".to_string()]
    );
}

#[test]
fn article_range_from_config() {
    let mut config = AppConfig::default();
    assert!(config.get_article_range().is_none());
    config.article_range = Some("2-4".to_string());
    assert_eq!(config.get_article_range().unwrap().to_vec(), vec![2, 3, 4]);
    config.article_range = Some("4-2".to_string());
    assert!(config.get_article_range().is_none());
    config.hostname = Some("h".to_string());
    config.article_range = Some("9".to_string());
    let plan = start(&config, vec!["g".to_string()]).unwrap();
    assert_eq!(plan.range.unwrap().to_vec(), vec![9]);
    assert_eq!(plan.scheduler.tasklist, vec!["g".to_string()]);
    config.article_range = None;
    assert!(start(&config, vec!["g".to_string()]).unwrap().range.is_none());
}

#[test]
fn unreadable_range_stops_the_run() {
    let config = AppConfig {
        hostname: Some("h".to_string()),
        article_range: Some("5-2".to_string()),
        ..AppConfig::default()
    };
    assert!(matches!(
        start(&config, vec!["g".to_string()]),
        Err(SequenceParseError::DescendingRange { start: 5, end: 2 })
    ));
}

#[test]
fn groups_the_server_lacks_are_reported() {
    let offered = vec!["a".to_string(), "b".to_string()];
    let cfg = vec!["a".to_string(), "x".to_string(), "b".to_string(), "y".to_string()];
    assert_eq!(
        unavailable_groups(&cfg, &offered),
        Some(ConfigError::ConfiguredListsNotAvailable {
            unavailable_lists: vec!["x".to_string(), "y".to_string()]
        })
    );
    assert_eq!(unavailable_groups(&vec!["b".to_string()], &offered), None);
    assert_eq!(unavailable_groups(&vec!["ALL".to_string()], &offered), None);
}
