//! Tests for the command dispatcher: the command vocabulary, the limits
//! and measurement rules, the query template, and request-line splitting.

use calmbench::command::{
    build_sql, dispatch, measurement, parse_command, split_request, unsupported_marker,
    QueryCommand, QueryPlan,
};

#[test]
fn recognizes_every_command() {
    assert_eq!(parse_command("COUNT"), Some(QueryCommand::Count));
    assert_eq!(parse_command("TOP_10"), Some(QueryCommand::Top10));
    assert_eq!(parse_command("TOP_100"), Some(QueryCommand::Top100));
    assert_eq!(parse_command("TOP_1000"), Some(QueryCommand::Top1000));
    assert_eq!(parse_command("TOP_1_COUNT"), Some(QueryCommand::Top1Count));
    assert_eq!(parse_command("TOP_5_COUNT"), Some(QueryCommand::Top5Count));
    assert_eq!(parse_command("TOP_10_COUNT"), Some(QueryCommand::Top10Count));
    assert_eq!(parse_command("TOP_100_COUNT"), Some(QueryCommand::Top100Count));
    assert_eq!(parse_command("TOP_1000_COUNT"), Some(QueryCommand::Top1000Count));
}

#[test]
fn rejects_unknown_tokens() {
    assert_eq!(parse_command("FETCH"), None);
    assert_eq!(parse_command("count"), None);
    assert_eq!(parse_command("TOP_50"), None);
    assert_eq!(parse_command(""), None);
}

#[test]
fn limits_per_command() {
    assert_eq!(QueryCommand::Count.limit(), 0);
    assert_eq!(QueryCommand::Top10.limit(), 10);
    assert_eq!(QueryCommand::Top100.limit(), 100);
    assert_eq!(QueryCommand::Top1000.limit(), 1000);
    assert_eq!(QueryCommand::Top1Count.limit(), 1);
    assert_eq!(QueryCommand::Top5Count.limit(), 5);
    assert_eq!(QueryCommand::Top10Count.limit(), 10);
    assert_eq!(QueryCommand::Top100Count.limit(), 100);
    assert_eq!(QueryCommand::Top1000Count.limit(), 1000);
}

#[test]
fn counting_commands_report_hits() {
    assert!(QueryCommand::Count.counts_hits());
    assert!(QueryCommand::Top1Count.counts_hits());
    assert!(QueryCommand::Top5Count.counts_hits());
    assert!(QueryCommand::Top10Count.counts_hits());
    assert!(QueryCommand::Top100Count.counts_hits());
    assert!(QueryCommand::Top1000Count.counts_hits());
    assert!(!QueryCommand::Top10.counts_hits());
    assert!(!QueryCommand::Top100.counts_hits());
    assert!(!QueryCommand::Top1000.counts_hits());
}

#[test]
fn count_and_top_1000_count_measure_total_hits() {
    // Same shorthand, limits 0 and 1000, but both report the engine's
    // total-hits value rather than a result-set size.
    let a = build_sql("bench", "a,b", &QueryCommand::Count);
    let b = build_sql("bench", "a,b", &QueryCommand::Top1000Count);
    assert!(a.ends_with(" limit 0"));
    assert!(b.ends_with(" limit 1000"));
    assert_eq!(measurement(&QueryCommand::Count, 42), 42);
    assert_eq!(measurement(&QueryCommand::Top1000Count, 42), 42);
}

#[test]
fn bare_top_k_measures_the_sentinel() {
    assert_eq!(measurement(&QueryCommand::Top10, 42), 1);
    assert_eq!(measurement(&QueryCommand::Top100, 0), 1);
    assert_eq!(measurement(&QueryCommand::Top1000, 7), 1);
}

#[test]
fn builds_the_full_query() {
    assert_eq!(
        build_sql("calmcore-bench", "\"the who\"+uk", &QueryCommand::Count),
        "select * from calmcore-bench where \
         text=phrase('the who',slop=0) and text='uk' limit 0"
    );
    assert_eq!(
        build_sql("calmcore-bench", "a,b", &QueryCommand::Top10),
        "select * from calmcore-bench where text=text('a,b',operator='or') limit 10"
    );
}

#[test]
fn dispatch_runs_known_commands() {
    match dispatch("bench", "TOP_5_COUNT", "a+b") {
        QueryPlan::Run { sql, command } => {
            assert_eq!(sql, "select * from bench where text=text('a b',operator='and') limit 5");
            assert_eq!(command, QueryCommand::Top5Count);
        }
        QueryPlan::Unsupported => panic!("TOP_5_COUNT must be recognized"),
    }
}

#[test]
fn dispatch_reports_unknown_commands() {
    assert!(matches!(dispatch("bench", "EXPLAIN", "a+b"), QueryPlan::Unsupported));
    assert_eq!(unsupported_marker(), "UNSUPPORTED");
}

#[test]
fn splits_two_tab_separated_fields() {
    assert_eq!(split_request("COUNT\ta+b"), Some(("COUNT", "a+b")));
    assert_eq!(split_request("TOP_10\t\"the who\""), Some(("TOP_10", "\"the who\"")));
    assert_eq!(split_request("COUNT\t"), Some(("COUNT", "")));
}

#[test]
fn rejects_other_field_counts() {
    assert_eq!(split_request("COUNT a+b"), None);
    assert_eq!(split_request("COUNT\ta\tb"), None);
    assert_eq!(split_request(""), None);
}
