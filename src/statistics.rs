use vstd::prelude::*;

use crate::address::{active_address_count, all_decode, decoded, distinct_count};
use crate::outcome::{QueryOutcome, CODE_INTERNAL_ERROR, CODE_OK};

verus! {

/// Length of the trailing window of `daily_txs`, in seconds.
pub const SECONDS_PER_DAY: i64 = 86400;

/// Network-wide counts over the stored transactions.
#[derive(Debug, Clone, Copy, PartialEq, Eq, Structural)]
pub struct StatisticsData {
    pub active_addresses: i64,
    pub total_txs: i64,
    pub daily_txs: i64,
}

impl Default for StatisticsData {
    fn default() -> (r: Self)
        ensures
            r.active_addresses == 0,
            r.total_txs == 0,
            r.daily_txs == 0,
    {
        StatisticsData { active_addresses: 0, total_txs: 0, daily_txs: 0 }
    }
}

/// The statistics answer: a code, a short diagnostic and the counts.
#[derive(Debug)]
pub struct ChainStatisticsRes {
    pub code: i32,
    pub message: String,
    pub data: Option<StatisticsData>,
}

/// A transaction stamped `timestamp` counts as daily at time `now`.
pub open spec fn in_daily_window(timestamp: int, now: int) -> bool {
    timestamp >= now - SECONDS_PER_DAY
}

/// The earliest timestamp that still counts as daily at time `now`: the
/// daily count is that of the transactions with a timestamp at or after it.
pub fn daily_cutoff(now: i64) -> (r: i64)
    requires
        now >= i64::MIN + SECONDS_PER_DAY,
    ensures
        r == now - SECONDS_PER_DAY,
        in_daily_window(r as int, now as int),
        !in_daily_window(r - 1, now as int),
        forall|t: int| in_daily_window(t, now as int) <==> t >= r,
{
    now - SECONDS_PER_DAY
}

/// The count that a counting query contributes: zero when it matched no rows.
pub open spec fn count_of(o: QueryOutcome<i64>) -> int {
    match o {
        QueryOutcome::Rows(n) => n as int,
        _ => 0,
    }
}

/// The address query ended in a usable state: no rows, or rows that all decode.
pub open spec fn addresses_usable(o: QueryOutcome<Vec<String>>) -> bool {
    match o {
        QueryOutcome::Fatal => false,
        QueryOutcome::Empty => true,
        QueryOutcome::Rows(rows) => all_decode(rows@),
    }
}

/// The number of distinct addresses that the address query yields.
pub open spec fn address_count_of(o: QueryOutcome<Vec<String>>) -> int {
    match o {
        QueryOutcome::Rows(rows) => distinct_count(decoded(rows@)) as int,
        _ => 0,
    }
}

/// The answer is a failure with `message` and the zero placeholder data.
pub open spec fn is_failure(r: ChainStatisticsRes, message: Seq<char>) -> bool {
    &&& r.code == CODE_INTERNAL_ERROR
    &&& r.message@ == message
    &&& r.data == Some(StatisticsData { active_addresses: 0, total_txs: 0, daily_txs: 0 })
}

fn failure(message: &str) -> (r: ChainStatisticsRes)
    ensures
        is_failure(r, message@),
{
    ChainStatisticsRes {
        code: CODE_INTERNAL_ERROR,
        message: String::from_str(message),
        data: Some(StatisticsData::default()),
    }
}

/// Combines the outcomes of the three statistics queries: the total count,
/// the address rows (one JSON string each) and the count since the daily
/// cutoff.
///
/// A query that matched no rows counts as zero. The first failing query, in
/// that order, makes the whole answer a failure whose data is only the zero
/// placeholder, never a partial result; address rows that do not decode
/// fail like the address query itself.
pub fn statistics_response(
    total_txs: QueryOutcome<i64>,
    addresses: QueryOutcome<Vec<String>>,
    daily_txs: QueryOutcome<i64>,
) -> (r: ChainStatisticsRes)
    requires
        addresses matches QueryOutcome::Rows(rows) ==> rows.len() <= i64::MAX,
    ensures
        total_txs is Fatal ==> is_failure(r, "internal error, total txs."@),
        !(total_txs is Fatal) && !addresses_usable(addresses) ==> is_failure(
            r,
            "internal error, total addresses."@,
        ),
        !(total_txs is Fatal) && addresses_usable(addresses) && daily_txs is Fatal ==> is_failure(
            r,
            "internal error, daily txs."@,
        ),
        !(total_txs is Fatal) && addresses_usable(addresses) && !(daily_txs is Fatal) ==> {
            &&& r.code == CODE_OK
            &&& r.message@ == Seq::<char>::empty()
            &&& r.data matches Some(d)
            &&& d.total_txs == count_of(total_txs)
            &&& d.active_addresses == address_count_of(addresses)
            &&& d.daily_txs == count_of(daily_txs)
        },
        r.code == CODE_OK || r.code == CODE_INTERNAL_ERROR,
{
    let total: i64 = match total_txs {
        QueryOutcome::Rows(n) => n,
        QueryOutcome::Empty => 0,
        QueryOutcome::Fatal => {
            return failure("internal error, total txs.");
        },
    };
    let active: i64 = match addresses {
        QueryOutcome::Rows(rows) => match active_address_count(&rows) {
            Some(n) => n as i64,
            None => {
                return failure("internal error, total addresses.");
            },
        },
        QueryOutcome::Empty => 0,
        QueryOutcome::Fatal => {
            return failure("internal error, total addresses.");
        },
    };
    let daily: i64 = match daily_txs {
        QueryOutcome::Rows(n) => n,
        QueryOutcome::Empty => 0,
        QueryOutcome::Fatal => {
            return failure("internal error, daily txs.");
        },
    };
    ChainStatisticsRes {
        code: CODE_OK,
        message: String::new(),
        data: Some(StatisticsData { active_addresses: active, total_txs: total, daily_txs: daily }),
    }
}

} // verus!
