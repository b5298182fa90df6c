//! The memory bank.

use wf::command::Ran;
use wf::hindsight::{
    api_version, apply_sweep, count_stale, curl_json, dry_run_sweep_count, info, invalidation,
    is_running, is_stale, patch_args, query_args, query_url, sweep_ids, sweep_requests,
    sweep_targets, BankInfo,
    Query, API_URL,
};
use wf::json::{parse, Json};

fn done(stdout: &str) -> Ran {
    Ran::Done { success: true, stdout: stdout.into(), stderr: String::new() }
}

fn no() -> Ran {
    Ran::Done { success: false, stdout: "{}".into(), stderr: String::new() }
}

const LIST: &str = r#"{"total": 5, "items": [
    {"id": "a", "fact_type": "world", "text": "406 tests pass"},
    {"id": "b", "fact_type": "world", "text": "406 tests, superseded and verified"},
    {"id": "c", "fact_type": "observation", "text": "no cron here"},
    {"id": "", "fact_type": "experience", "text": "failing test"},
    {"id": "e", "fact_type": "experience", "content": "red pre-push"},
    {"fact_type": "world", "text": "still NULL"},
    {"id": "g", "fact_type": "world", "text": "all is well"},
    {"id": "h", "text": 7, "content": "on-demand"}
]}"#;

#[test]
fn documents() {
    let j = parse(r#" {"a": [1, -2, 2.5, "x", null, true], "b": {"c": "d"}} "#).expect("json");
    let a = j.get("a").expect("a");
    assert_eq!(a.len(), 6);
    assert_eq!(a.item(0).as_u64(), Some(1));
    assert_eq!(a.item(1).as_u64(), None);
    assert_eq!(a.item(2).as_u64(), None);
    assert_eq!(a.item(3).as_str(), Some("x"));
    assert!(matches!(a.item(4), Json::Null));
    assert!(matches!(a.item(5), Json::Bool(true)));
    assert_eq!(j.get("b").and_then(|b| b.get("c")).and_then(|c| c.as_str()), Some("d"));
    assert!(j.get("z").is_none());
    assert!(a.get("a").is_none());
    assert!(parse("{").is_none());
    assert!(parse("").is_none());
}

#[test]
fn repeated_fields_keep_the_last() {
    let j = parse(r#"{"a": 1, "a": 2}"#).expect("json");
    assert_eq!(j.get("a").and_then(|a| a.as_u64()), Some(2));
}

#[test]
fn stale_texts() {
    assert!(is_stale("we have 410 tests"));
    assert!(is_stale("still NULL"));
    assert!(!is_stale("still null"));
    assert!(!is_stale("410 tests, merged"));
    assert!(!is_stale("nothing here"));
}

#[test]
fn dry_runs_count() {
    assert_eq!(dry_run_sweep_count(&done(LIST)), 5);
    assert_eq!(count_stale(&parse(LIST).expect("json")), 5);
    assert_eq!(dry_run_sweep_count(&no()), 0);
    assert_eq!(dry_run_sweep_count(&done("oops")), 0);
    assert_eq!(dry_run_sweep_count(&done(r#"{"items": 3}"#)), 0);
}

#[test]
fn sweeps_spare_observations() {
    assert_eq!(sweep_targets(&done(LIST)), vec!["a", "e"]);
    assert_eq!(sweep_ids(&parse(LIST).expect("json")), vec!["a", "e"]);
    assert!(sweep_targets(&no()).is_empty());
    assert_eq!(sweep_requests(&done(LIST)), vec![patch_args("a"), patch_args("e")]);
    assert!(sweep_requests(&no()).is_empty());
    assert!(sweep_targets(&done(LIST)).len() <= dry_run_sweep_count(&done(LIST)));
}

#[test]
fn sweeps_take_two_kinds_only() {
    let list = r#"{"items": [
        {"id": "a", "fact_type": "opinion", "text": "no cron"},
        {"id": "b", "text": "no cron"},
        {"id": "c", "fact_type": "World", "text": "no cron"},
        {"id": "d", "fact_type": 1, "text": "no cron"},
        {"id": "e", "fact_type": "world", "text": "no cron"},
        {"id": "f", "fact_type": "experience", "text": "no cron"}
    ]}"#;
    assert_eq!(dry_run_sweep_count(&done(list)), 6);
    let all = r#"{"items": [{"id": "e", "fact_type": "world", "text": "no cron"},
        {"fact_type": "opinion", "text": "fine"}]}"#;
    assert_eq!(dry_run_sweep_count(&done(all)), sweep_targets(&done(all)).len());
    assert_eq!(sweep_targets(&done(list)), vec!["e", "f"]);
}

#[test]
fn refused_requests_fail() {
    let list = r#"{"items": [{"id": "a", "fact_type": "world", "text": "no cron"},
        {"id": "b", "fact_type": "experience", "text": "still NULL"}]}"#;
    let requests = sweep_requests(&done(list));
    assert_eq!(requests, vec![patch_args("a"), patch_args("b")]);
    assert!(requests.iter().all(|r| r[0] == "-f"));
    assert_eq!(apply_sweep(&vec![no(), done("{}")]), (1, 1));
}

#[test]
fn sweeps_are_counted() {
    assert_eq!(apply_sweep(&vec![done(""), no(), Ran::Failed("x".into()), done("{}")]), (2, 2));
    assert_eq!(apply_sweep(&vec![]), (0, 0));
}

#[test]
fn requests() {
    assert_eq!(
        patch_args("abc"),
        vec![
            "-f",
            "-s",
            "-m",
            "15",
            "-X",
            "PATCH",
            "http://127.0.0.1:8888/v1/default/banks/hermes/memories/abc",
            "-H",
            "Content-Type: application/json",
            "-d",
            r#"{"reason":"stale-wrong: superseded by live-verified fact","state":"invalidated"}"#,
        ]
    );
    assert_eq!(
        invalidation(),
        r#"{"reason":"stale-wrong: superseded by live-verified fact","state":"invalidated"}"#
    );
}

#[test]
fn addresses() {
    let bank = "http://127.0.0.1:8888/v1/default/banks/hermes";
    assert_eq!(API_URL, "http://127.0.0.1:8888");
    assert_eq!(query_url(Query::Health), "http://127.0.0.1:8888/health");
    assert_eq!(query_url(Query::Version), "http://127.0.0.1:8888/version");
    assert_eq!(query_url(Query::Totals), format!("{bank}/memories/list?limit=1"));
    assert_eq!(query_url(Query::Stats), format!("{bank}/stats"));
    assert_eq!(query_url(Query::Config), format!("{bank}/config"));
    assert_eq!(query_url(Query::Memories), format!("{bank}/memories/list?limit=600"));
    assert_eq!(query_url(Query::Metrics), "http://127.0.0.1:8888/metrics");
    assert_eq!(query_args(Query::Health), vec!["-f", "-s", "-m", "2", "http://127.0.0.1:8888/health"]);
}

#[test]
fn versions() {
    assert!(is_running(&done("")));
    assert!(!is_running(&no()));
    assert_eq!(api_version(&done(r#"{"api_version": "0.8.4"}"#)).as_deref(), Some("0.8.4"));
    assert_eq!(api_version(&done(r#"{"api_version": 8}"#)), None);
    assert_eq!(api_version(&done("[]")), None);
    assert_eq!(api_version(&no()), None);
    assert!(curl_json(&done("nonsense")).is_none());
}

#[test]
fn a_bank_that_is_up() {
    let b = info(
        &done("ok"),
        &done(r#"{"api_version": "0.8.4"}"#),
        &done(r#"{"total": 1339, "items": []}"#),
        &done(
            r#"{"total_links": 100705, "total_documents": 17,
                "nodes_by_fact_type": {"world": 1136, "experience": 230, "observation": 246}}"#,
        ),
        &done(r#"{"config": {"observations_mission": "watch"}}"#),
        &done(LIST),
    );
    assert!(b.running);
    assert_eq!(b.version, "0.8.4");
    assert_eq!(b.total_memories, 1339);
    assert_eq!(b.total_links, 100705);
    assert_eq!(b.total_documents, 17);
    assert_eq!((b.fact_world, b.fact_experience, b.fact_observation), (1136, 230, 246));
    assert_eq!(b.observations_mission, "watch");
    assert_eq!(b.stale_candidates, 5);
}

#[test]
fn a_bank_without_answers() {
    let b = info(&done("ok"), &no(), &no(), &no(), &no(), &no());
    assert!(b.running);
    assert_eq!(b.version, "");
    assert_eq!((b.total_memories, b.total_links, b.stale_candidates), (0, 0, 0));
}

#[test]
fn a_bank_that_is_down() {
    let list = done(LIST);
    let b = info(&no(), &list, &list, &list, &list, &list);
    assert!(!b.running);
    assert_eq!(b.total_memories, 0);
    assert_eq!(b.stale_candidates, 0);
    let d = BankInfo::default();
    assert!(!d.running);
    assert_eq!(d.version, "");
}
