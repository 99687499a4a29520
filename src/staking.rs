use vstd::prelude::*;

use crate::address::views;
use crate::outcome::{QueryOutcome, CODE_INTERNAL_ERROR, CODE_OK};

verus! {

/// Total token issuance in base units; the stake ratio is the staked amount
/// over this figure.
pub const TOTAL_SUPPLY: u64 = 21_420_000_000_000_000;

/// One delegator's record in a snapshot: its reward and its staked amount per
/// delegation target.
#[derive(Debug)]
pub struct DelegationRecord {
    pub rwd_amount: u64,
    pub delegations: Vec<(String, u64)>,
}

/// The parts of a delegation snapshot that the staking figures are taken
/// from. Each map is held as a sequence of its entries.
#[derive(Debug)]
pub struct DelegationInfo {
    pub validator_addr_map: Vec<(String, String)>,
    pub global_delegation_records_map: Vec<(String, DelegationRecord)>,
}

/// The staking figures of one snapshot, in integers: the stake ratio is
/// `total_stake / TOTAL_SUPPLY`.
#[derive(Debug)]
pub struct StakingSummary {
    pub block_reward: u64,
    pub total_stake: u64,
    pub active_validators: Vec<String>,
}

/// The staking answer: a code, a short diagnostic and the figures.
#[derive(Debug)]
pub struct StakingReport {
    pub code: i32,
    pub message: String,
    pub data: Option<StakingSummary>,
}

/// The keys of a map held as a sequence of entries.
pub open spec fn keys_of<V>(entries: Seq<(String, V)>) -> Seq<Seq<char>> {
    entries.map_values(|e: (String, V)| e.0@)
}

/// The sum of the staked amounts of one record.
pub open spec fn stake_of(delegations: Seq<(String, u64)>) -> int
    decreases delegations.len(),
{
    if delegations.len() == 0 {
        0
    } else {
        stake_of(delegations.drop_last()) + delegations.last().1
    }
}

/// The sum of the rewards over all records.
pub open spec fn reward_sum(records: Seq<(String, DelegationRecord)>) -> int
    decreases records.len(),
{
    if records.len() == 0 {
        0
    } else {
        reward_sum(records.drop_last()) + records.last().1.rwd_amount
    }
}

/// The sum of every staked amount of every record.
pub open spec fn stake_sum(records: Seq<(String, DelegationRecord)>) -> int
    decreases records.len(),
{
    if records.len() == 0 {
        0
    } else {
        stake_sum(records.drop_last()) + stake_of(records.last().1.delegations@)
    }
}

impl DelegationInfo {
    /// Each map has unique keys.
    pub open spec fn wf(&self) -> bool {
        &&& keys_of(self.validator_addr_map@).no_duplicates()
        &&& keys_of(self.global_delegation_records_map@).no_duplicates()
        &&& forall|i: int|
            0 <= i < self.global_delegation_records_map@.len() ==> keys_of(
                (#[trigger] self.global_delegation_records_map@[i]).1.delegations@,
            ).no_duplicates()
    }

    /// The sum of the rewards of all records.
    pub open spec fn reward_total(&self) -> int {
        reward_sum(self.global_delegation_records_map@)
    }

    /// The sum of all staked amounts.
    pub open spec fn stake_total(&self) -> int {
        stake_sum(self.global_delegation_records_map@)
    }

    /// Both sums fit in a `u64`.
    pub open spec fn sums_fit(&self) -> bool {
        self.reward_total() <= u64::MAX && self.stake_total() <= u64::MAX
    }
}

/// `s` holds the figures of `info`.
pub open spec fn summarizes(s: StakingSummary, info: DelegationInfo) -> bool {
    &&& s.block_reward == info.reward_total()
    &&& s.total_stake == info.stake_total()
    &&& views(s.active_validators@) == keys_of(info.validator_addr_map@)
}

proof fn lemma_stake_of_monotone(d: Seq<(String, u64)>, i: int)
    requires
        0 <= i <= d.len(),
    ensures
        0 <= stake_of(d.subrange(0, i)) <= stake_of(d),
    decreases d.len() - i,
{
    if i < d.len() {
        lemma_stake_of_monotone(d, i + 1);
        let s = d.subrange(0, i + 1);
        assert(s.drop_last() == d.subrange(0, i));
        assert(s.last() == d[i]);
        lemma_stake_of_nonneg(d.subrange(0, i));
    } else {
        assert(d.subrange(0, i) == d);
        lemma_stake_of_nonneg(d);
    }
}

proof fn lemma_stake_of_nonneg(d: Seq<(String, u64)>)
    ensures
        stake_of(d) >= 0,
    decreases d.len(),
{
    if d.len() > 0 {
        lemma_stake_of_nonneg(d.drop_last());
    }
}

proof fn lemma_sums_monotone(r: Seq<(String, DelegationRecord)>, i: int)
    requires
        0 <= i <= r.len(),
    ensures
        0 <= reward_sum(r.subrange(0, i)) <= reward_sum(r),
        0 <= stake_sum(r.subrange(0, i)) <= stake_sum(r),
    decreases r.len() - i,
{
    if i < r.len() {
        lemma_sums_monotone(r, i + 1);
        let s = r.subrange(0, i + 1);
        assert(s.drop_last() == r.subrange(0, i));
        assert(s.last() == r[i]);
        lemma_stake_of_nonneg(r[i].1.delegations@);
        lemma_sums_nonneg(r.subrange(0, i));
    } else {
        assert(r.subrange(0, i) == r);
        lemma_sums_nonneg(r);
    }
}

proof fn lemma_sums_nonneg(r: Seq<(String, DelegationRecord)>)
    ensures
        reward_sum(r) >= 0,
        stake_sum(r) >= 0,
    decreases r.len(),
{
    if r.len() > 0 {
        lemma_sums_nonneg(r.drop_last());
        lemma_stake_of_nonneg(r.last().1.delegations@);
    }
}

/// The ids of the validators, in the order of the map's entries.
fn validator_ids(map: &Vec<(String, String)>) -> (r: Vec<String>)
    ensures
        views(r@) == keys_of(map@),
{
    let mut ids: Vec<String> = Vec::new();
    let mut i: usize = 0;
    while i < map.len()
        invariant
            i <= map.len(),
            views(ids@) == keys_of(map@.subrange(0, i as int)),
        decreases map.len() - i,
    {
        let ghost before = ids@;
        ids.push(map[i].0.clone());
        assert(map@.subrange(0, i + 1) == map@.subrange(0, i as int).push(map@[i as int]));
        assert(views(ids@) =~= views(before).push(map@[i as int].0@));
        assert(keys_of(map@.subrange(0, i + 1)) =~= keys_of(map@.subrange(0, i as int)).push(
            map@[i as int].0@,
        ));
        i += 1;
    }
    assert(map@.subrange(0, map.len() as int) == map@);
    ids
}

/// Reduces a snapshot to its staking figures: the validator ids, the sum of
/// the rewards and the sum of every staked amount; `None` when a sum does not
/// fit in a `u64`.
pub fn summarize(info: &DelegationInfo) -> (r: Option<StakingSummary>)
    ensures
        r is Some <==> info.sums_fit(),
        r matches Some(s) ==> summarizes(s, *info),
{
    let records = &info.global_delegation_records_map;
    let ghost rs = info.global_delegation_records_map@;
    assert(records@ == rs);
    let mut reward: u64 = 0;
    let mut total_stake: u64 = 0;
    let mut i: usize = 0;
    while i < records.len()
        invariant
            i <= records.len(),
            rs == records@,
            rs == info.global_delegation_records_map@,
            reward == reward_sum(rs.subrange(0, i as int)),
            total_stake == stake_sum(rs.subrange(0, i as int)),
        decreases records.len() - i,
    {
        let record = &records[i].1;
        proof {
            assert(rs.subrange(0, i + 1).drop_last() == rs.subrange(0, i as int));
            lemma_sums_monotone(rs, i + 1);
            assert(reward_sum(rs.subrange(0, i + 1)) == reward + record.rwd_amount);
            assert(stake_sum(rs.subrange(0, i + 1)) == total_stake + stake_of(
                record.delegations@,
            ));
        }
        match reward.checked_add(record.rwd_amount) {
            Some(v) => reward = v,
            None => {
                assert(reward_sum(rs) > u64::MAX);
                return None;
            },
        }
        let dl = &record.delegations;
        let ghost base = total_stake as int;
        let mut j: usize = 0;
        while j < dl.len()
            invariant
                j <= dl.len(),
                rs == records@,
                rs == info.global_delegation_records_map@,
                i < records.len(),
                dl@ == rs[i as int].1.delegations@,
                base == stake_sum(rs.subrange(0, i as int)),
                total_stake == base + stake_of(dl@.subrange(0, j as int)),
                reward == reward_sum(rs.subrange(0, i + 1)),
                stake_sum(rs.subrange(0, i + 1)) == base + stake_of(dl@),
                stake_sum(rs.subrange(0, i + 1)) <= stake_sum(rs),
            decreases dl.len() - j,
        {
            proof {
                assert(dl@.subrange(0, j + 1).drop_last() == dl@.subrange(0, j as int));
                lemma_stake_of_monotone(dl@, j + 1);
            }
            match total_stake.checked_add(dl[j].1) {
                Some(v) => total_stake = v,
                None => {
                    assert(stake_of(dl@.subrange(0, j + 1)) == stake_of(dl@.subrange(0, j as int))
                        + dl@[j as int].1);
                    assert(stake_sum(rs) > u64::MAX);
                    return None;
                },
            }
            j += 1;
        }
        assert(dl@.subrange(0, dl.len() as int) == dl@);
        i += 1;
    }
    assert(rs.subrange(0, records.len() as int) == rs);
    let active_validators = validator_ids(&info.validator_addr_map);
    Some(StakingSummary { block_reward: reward, total_stake, active_validators })
}

/// The figures of a missing snapshot: all zero, no validators.
pub open spec fn is_zero_summary(s: StakingSummary) -> bool {
    &&& s.block_reward == 0
    &&& s.total_stake == 0
    &&& s.active_validators@.len() == 0
}

fn zero_summary() -> (r: StakingSummary)
    ensures
        is_zero_summary(r),
{
    StakingSummary { block_reward: 0, total_stake: 0, active_validators: Vec::new() }
}

fn internal_error() -> (r: StakingReport)
    ensures
        r.code == CODE_INTERNAL_ERROR,
        r.message@ == "internal error."@,
        r.data is None,
{
    StakingReport {
        code: CODE_INTERNAL_ERROR,
        message: String::from_str("internal error."),
        data: None,
    }
}

/// Turns the outcome of the snapshot query into the staking answer.
///
/// No snapshot is a success with all-zero figures; a failed query, or sums
/// that do not fit in a `u64`, are an internal error without data; otherwise
/// the answer carries the snapshot's figures.
pub fn staking_response(snapshot: QueryOutcome<DelegationInfo>) -> (r: StakingReport)
    ensures
        snapshot is Empty ==> {
            &&& r.code == CODE_OK
            &&& r.message@ == Seq::<char>::empty()
            &&& r.data matches Some(s) && is_zero_summary(s)
        },
        snapshot is Fatal ==> r.code == CODE_INTERNAL_ERROR && r.message@ == "internal error."@
            && r.data is None,
        snapshot matches QueryOutcome::Rows(info) ==> if info.sums_fit() {
            &&& r.code == CODE_OK
            &&& r.message@ == Seq::<char>::empty()
            &&& r.data matches Some(s) && summarizes(s, info)
        } else {
            r.code == CODE_INTERNAL_ERROR && r.message@ == "internal error."@ && r.data is None
        },
{
    match snapshot {
        QueryOutcome::Empty => StakingReport {
            code: CODE_OK,
            message: String::new(),
            data: Some(zero_summary()),
        },
        QueryOutcome::Fatal => internal_error(),
        QueryOutcome::Rows(info) => match summarize(&info) {
            Some(s) => StakingReport { code: CODE_OK, message: String::new(), data: Some(s) },
            None => internal_error(),
        },
    }
}

/// In a snapshot whose maps have unique keys, the active validators are
/// exactly the keys of the validator map: each appears once and no other id
/// appears, whatever the order of the entries.
pub proof fn lemma_active_validators_are_key_set(info: DelegationInfo, s: StakingSummary)
    requires
        info.wf(),
        summarizes(s, info),
    ensures
        views(s.active_validators@).no_duplicates(),
        views(s.active_validators@).to_set() == keys_of(info.validator_addr_map@).to_set(),
        s.active_validators@.len() == info.validator_addr_map@.len(),
{
    assert(views(s.active_validators@).len() == s.active_validators@.len());
}

} // verus!
