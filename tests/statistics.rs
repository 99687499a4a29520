use explorer::address::{active_address_count, count_distinct, decode_addresses};
use explorer::outcome::{QueryOutcome, CODE_INTERNAL_ERROR, CODE_OK};
use explorer::statistics::{daily_cutoff, statistics_response, StatisticsData, SECONDS_PER_DAY};

fn texts(items: &[&str]) -> Vec<String> {
    items.iter().map(|s| s.to_string()).collect()
}

fn zeros() -> StatisticsData {
    StatisticsData { active_addresses: 0, total_txs: 0, daily_txs: 0 }
}

#[test]
fn empty_transaction_table_gives_zero_statistics() {
    let r = statistics_response(QueryOutcome::Rows(0), QueryOutcome::Rows(vec![]), QueryOutcome::Rows(0));
    assert_eq!(r.code, 200);
    assert_eq!(r.message, "");
    assert_eq!(r.data, Some(zeros()));
}

#[test]
fn queries_without_rows_count_as_zero() {
    let r = statistics_response(QueryOutcome::Empty, QueryOutcome::Empty, QueryOutcome::Empty);
    assert_eq!(r.code, CODE_OK);
    assert_eq!(r.data, Some(zeros()));
}

#[test]
fn statistics_combine_the_three_queries() {
    let rows = texts(&["\"fra1a\"", "\"fra1b\"", "\"fra1a\"", "\"fra1c\""]);
    let r = statistics_response(QueryOutcome::Rows(10), QueryOutcome::Rows(rows), QueryOutcome::Rows(4));
    assert_eq!(r.code, 200);
    assert_eq!(r.message, "");
    assert_eq!(
        r.data,
        Some(StatisticsData { active_addresses: 3, total_txs: 10, daily_txs: 4 })
    );
}

#[test]
fn total_txs_failure_fails_the_whole_request() {
    let rows = texts(&["\"fra1a\""]);
    let r = statistics_response(QueryOutcome::Fatal, QueryOutcome::Rows(rows), QueryOutcome::Rows(1));
    assert_eq!(r.code, CODE_INTERNAL_ERROR);
    assert_eq!(r.code, 50001);
    assert_eq!(r.message, "internal error, total txs.");
    assert_eq!(r.data, Some(zeros()));
}

#[test]
fn address_failure_fails_the_whole_request() {
    let r = statistics_response(QueryOutcome::Rows(5), QueryOutcome::Fatal, QueryOutcome::Rows(1));
    assert_eq!(r.code, 50001);
    assert_eq!(r.message, "internal error, total addresses.");
    assert_eq!(r.data, Some(zeros()));
}

#[test]
fn daily_failure_fails_the_whole_request() {
    let rows = texts(&["\"fra1a\""]);
    let r = statistics_response(QueryOutcome::Rows(5), QueryOutcome::Rows(rows), QueryOutcome::Fatal);
    assert_eq!(r.code, 50001);
    assert_eq!(r.message, "internal error, daily txs.");
    assert_eq!(r.data, Some(zeros()));
}

#[test]
fn first_failing_query_names_the_message() {
    let r = statistics_response(QueryOutcome::Fatal, QueryOutcome::Fatal, QueryOutcome::Fatal);
    assert_eq!(r.message, "internal error, total txs.");
    let r = statistics_response(QueryOutcome::Empty, QueryOutcome::Fatal, QueryOutcome::Fatal);
    assert_eq!(r.message, "internal error, total addresses.");
}

#[test]
fn malformed_address_row_is_fatal() {
    let rows = texts(&["\"fra1a\"", "{\"key\": 1}"]);
    let r = statistics_response(QueryOutcome::Rows(2), QueryOutcome::Rows(rows), QueryOutcome::Rows(2));
    assert_eq!(r.code, 50001);
    assert_eq!(r.message, "internal error, total addresses.");
    assert_eq!(r.data, Some(zeros()));
}

#[test]
fn decoding_unquotes_and_unescapes() {
    let decoded = decode_addresses(&texts(&["\"fra1a\"", " \"a\\u0062\" "])).unwrap();
    assert_eq!(decoded, vec!["fra1a".to_string(), "ab".to_string()]);
    assert_eq!(decode_addresses(&texts(&["fra1a"])), None);
    assert_eq!(decode_addresses(&texts(&["42"])), None);
}

#[test]
fn escaped_and_plain_spellings_are_one_address() {
    assert_eq!(active_address_count(&texts(&["\"ab\"", "\"a\\u0062\""])), Some(1));
    assert_eq!(active_address_count(&texts(&["\"ab\"", "null"])), None);
    assert_eq!(active_address_count(&texts(&[])), Some(0));
}

#[test]
fn distinct_count_ignores_order_and_repeats() {
    let a = texts(&["x", "y", "x", "z", "y"]);
    let b = texts(&["z", "x", "y"]);
    assert_eq!(count_distinct(&a), 3);
    assert_eq!(count_distinct(&b), 3);
    assert_eq!(count_distinct(&texts(&[])), 0);
    assert_eq!(count_distinct(&texts(&["same", "same", "same"])), 1);
}

#[test]
fn daily_cutoff_is_one_day_back() {
    assert_eq!(SECONDS_PER_DAY, 86400);
    assert_eq!(daily_cutoff(1_700_000_000), 1_699_913_600);
    assert_eq!(daily_cutoff(86400), 0);
    assert_eq!(daily_cutoff(i64::MIN + 86400), i64::MIN);
    // the cutoff itself is inside the window
    let now = 1_000_000;
    let cutoff = daily_cutoff(now);
    assert!(cutoff >= now - 86400);
    assert!(!(cutoff - 1 >= now - 86400));
}
