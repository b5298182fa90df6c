//! The live metrics.

use wf::command::Ran;
use wf::metrics::{
    parse_metrics, parse_whole, read_metrics, show_metrics, Backlog, Metrics,
};
use wf::text::chars_of;

const TEXT: &str = "# HELP hindsight_llm_calls_total Calls\n\
# TYPE hindsight_llm_calls_total counter\n\
hindsight_llm_calls_total{model=\"m\",provider=\"p\",scope=\"retain_extract_facts\",success=\"true\"} 10.0\n\
hindsight_llm_calls_total{model=\"m\",provider=\"p\",scope=\"consolidation\",success=\"true\"} 4.0\n\
hindsight_llm_calls_total{model=\"m\",provider=\"p\",scope=\"consolidation_dedup\",success=\"true\"} 2.0\n\
hindsight_llm_calls_total{model=\"m\",provider=\"p\",scope=\"verification\",success=\"false\"} 1.0\n\
hindsight_llm_calls_total_created{scope=\"verification\"} 1.7e+09\n\
hindsight_llm_tokens_input_tokens_total{scope=\"verification\"} 1.2345e+06\n\
hindsight_llm_tokens_output_tokens_total 99.0 1700000000\n\
hindsight_operation_operations_total{operation=\"retain\"} 5\n\
hindsight_operation_operations_total{operation=\"recall\"} 6\n\
hindsight_operation_operations_total{operation=\"reflect\"} 7\n\
hindsight_operation_operations_total{operation=\"consolidation\"} 8\n\
hindsight_operation_operations_total{operation=\"graph_maintenance\"} 9\n\
hindsight_process_memory_bytes 5.24288e+08\n\
hindsight_process_cpu_seconds 12.75\n\
hindsight_process_open_fds 33.0\n\
hindsight_db_pool_size 10.0\n\
hindsight_db_pool_idle 4.0\n";

fn whole(s: &str) -> u64 {
    parse_whole(&chars_of(s))
}

#[test]
fn whole_parts() {
    assert_eq!(whole("0"), 0);
    assert_eq!(whole("17"), 17);
    assert_eq!(whole("12.75"), 12);
    assert_eq!(whole(".5"), 0);
    assert_eq!(whole("5."), 5);
    assert_eq!(whole("1.2345e+06"), 1234500);
    assert_eq!(whole("1.2345e3"), 1234);
    assert_eq!(whole("123.4e-01"), 12);
    assert_eq!(whole("123.4e-07"), 0);
    assert_eq!(whole("18446744073709551615"), u64::MAX);
    assert_eq!(whole("18446744073709551616"), u64::MAX);
    assert_eq!(whole("1e+300"), u64::MAX);
    assert_eq!(whole("0e+300"), 0);
}

#[test]
fn no_numbers() {
    for s in ["", ".", "NaN", "+Inf", "-1", "1.2.3", "1e", "1e+", "1e1000", "1x"] {
        assert_eq!(whole(s), 0, "{s}");
    }
}

#[test]
fn metrics_are_summed() {
    assert_eq!(
        parse_metrics(TEXT),
        Metrics {
            llm_calls: 17,
            tokens_in: 1234500,
            tokens_out: 99,
            for_retain: 10,
            for_consolidation: 6,
            for_verification: 1,
            retain: 5,
            recall: 6,
            reflect: 7,
            consolidation: 8,
            memory_bytes: 524288000,
            cpu_seconds: 12,
            open_fds: 33,
            db_pool: 10,
            backlog: None,
        }
    );
}

#[test]
fn backlog_is_shown_if_present() {
    let m = parse_metrics(
        "hindsight_consolidation_backlog{status=\"pending\"} 4.0\n\
         hindsight_consolidation_backlog{status=\"processing\"} 1.0\n\
         hindsight_consolidation_backlog{status=\"failed\"} 0.0\n",
    );
    assert_eq!(m.backlog, Some(Backlog { pending: 4, processing: 1, failed: 0 }));
    assert!(show_metrics(&m, &m).ends_with("db_pool=0\nBacklog: pending=4 processing=1 failed=0"));
}

#[test]
fn metrics_need_a_reply() {
    let ran = |success: bool| Ran::Done { success, stdout: TEXT.into(), stderr: String::new() };
    assert_eq!(read_metrics(&ran(true)), Some(parse_metrics(TEXT)));
    assert_eq!(read_metrics(&ran(false)), None);
    assert_eq!(read_metrics(&Ran::Failed("x".into())), None);
}

#[test]
fn metrics_shown() {
    let now = parse_metrics(TEXT);
    let earlier = Metrics { llm_calls: 10, retain: 50, ..now };
    assert_eq!(
        show_metrics(&now, &earlier),
        "LLM calls: 17 (+7/scan)\nTokens: in=1234500 (+0/scan) out=99 (+0/scan)\nLLM calls by \
         scope: retain=10 consolidation=6 verification=1\nOperations: retain=5 (+5/scan) recall=6 \
         (+0/scan) reflect=7 (+0/scan) consolidation=8 (+0/scan)\nProcess: rss=500 MB cpu=12 s \
         fds=33 db_pool=10"
    );
}
