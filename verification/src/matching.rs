//! Quadratic-funding matching engine: the pool, rounds, scores, and the
//! distribution of a round's pool across its campaigns.

use vstd::prelude::*;

use crate::engine::{
    campaign_evolves, config_unchanged, engine_evolves, lemma_prefix_push, lemma_prefix_refl,
    lemma_wf_same_records, pair_contains, Engine,
};
use crate::math::{lemma_spec_sqrt_bounds, spec_sqrt, sqrt};
use crate::types::{
    has_pair, qf_score, round_eq, sum_roots, AccountId, Balance, Campaign, CampaignState, Donation,
    Error, Event, MatchingRound, Timestamp, MAX_DONATION,
};

use crate::types::{MatchingDistributed, MatchingPoolFunded, MatchingRoundCreated};

verus! {

impl Engine {
    /// The quadratic-funding score of the ledger at record index `idx`.
    fn score_of(&self, idx: usize) -> (r: Balance)
        requires
            self.wf(),
            0 <= idx < self.donations@.len(),
        ensures
            r == qf_score(self.donations@[idx as int]@),
    {
        proof {
            assert(self.campaign_ok(idx as int));
        }
        let ledger = &self.donations[idx];
        let n = ledger.len();
        let mut acc: Balance = 0;
        let mut k: usize = 0;
        proof {
            assert(ledger@.take(0) =~= Seq::<Donation>::empty());
        }
        while k < n
            invariant
                self.wf(),
                0 <= idx < self.donations@.len(),
                ledger == &self.donations@[idx as int],
                n == ledger@.len(),
                n <= u32::MAX,
                0 <= k <= n,
                acc == sum_roots(ledger@.take(k as int)),
                acc <= k * 10_000_000,
            decreases n - k,
        {
            proof {
                assert(ledger@.take(k + 1).drop_last() =~= ledger@.take(k as int));
                assert(ledger@.take(k + 1).last() == ledger@[k as int]);
                assert(self.campaign_ok(idx as int));
                let a = ledger@[k as int].amount as nat;
                lemma_spec_sqrt_bounds(a);
                assert(spec_sqrt(a) <= 10_000_000) by (nonlinear_arith)
                    requires
                        spec_sqrt(a) * spec_sqrt(a) <= a,
                        a <= MAX_DONATION,
                {}
            }
            let root = sqrt(ledger[k].amount);
            acc = acc + root;
            k += 1;
        }
        proof {
            assert(ledger@.take(n as int) =~= ledger@);
            assert(acc * acc <= u128::MAX) by (nonlinear_arith)
                requires
                    0 <= acc,
                    acc <= n * 10_000_000,
                    n <= u32::MAX,
            {}
        }
        acc * acc
    }

    /// The quadratic-funding score of a campaign: the square of the sum of
    /// the integer square roots of its donations. Rewards many small donors
    /// over few large ones. An unknown campaign scores zero.
    pub fn calculate_qf_score(&self, campaign_id: u32) -> (r: Balance)
        requires
            self.wf(),
        ensures
            self.has_campaign(campaign_id) ==> r == qf_score(self.ledger_at(campaign_id)),
            !self.has_campaign(campaign_id) ==> r == 0,
    {
        if campaign_id < self.id_base {
            return 0;
        }
        let idx = (campaign_id - self.id_base) as usize;
        if idx >= self.campaigns.len() {
            return 0;
        }
        self.score_of(idx)
    }

    /// Add funds to the global matching pool. Anyone may contribute; the
    /// host has already received the value.
    pub fn fund_matching_pool(&mut self, caller: AccountId, amount: Balance) -> (result: Result<
        (),
        Error,
    >)
        requires
            old(self).wf(),
        ensures
            final(self).wf(),
            engine_evolves(*old(self), *final(self)),
            config_unchanged(*old(self), *final(self)),
            amount == 0 ==> result == Err::<(), Error>(Error::InvalidDonationAmount) && *final(self) == *old(self),
            amount > 0 && old(self).matching_pool_balance + amount > u128::MAX ==> result == Err::<
                (),
                Error,
            >(Error::ArithmeticOverflow) && *final(self) == *old(self),
            amount > 0 && old(self).matching_pool_balance + amount <= u128::MAX ==> ({
                &&& result == Ok::<(), Error>(())
                &&& final(self).matching_pool_balance == old(self).matching_pool_balance + amount
                &&& final(self).events@ == old(self).events@.push(
                    Event::MatchingPoolFunded(MatchingPoolFunded {
                        funder: caller,
                        amount,
                        total_pool: (old(self).matching_pool_balance + amount) as Balance,
                    }),
                )
                &&& *final(self) == (Engine {
                    matching_pool_balance: final(self).matching_pool_balance,
                    events: final(self).events,
                    ..*old(self)
                })
            }),
    {
        if amount == 0 {
            return Err(Error::InvalidDonationAmount);
        }
        let new_balance = match self.matching_pool_balance.checked_add(amount) {
            Some(b) => b,
            None => {
                return Err(Error::ArithmeticOverflow);
            },
        };
        self.matching_pool_balance = new_balance;
        self.events.push(
            Event::MatchingPoolFunded(MatchingPoolFunded { funder: caller, amount, total_pool: new_balance }),
        );
        proof {
            lemma_wf_same_records(*old(self), *self);
            lemma_log_only_evolves(*old(self), *self);
        }
        Ok(())
    }

    /// Open a new matching round over part of the pool. Admin only. The
    /// round becomes the current one: campaigns created while it is open
    /// participate in it.
    pub fn create_matching_round(
        &mut self,
        caller: AccountId,
        now: Timestamp,
        pool_amount: Balance,
        duration: u64,
    ) -> (result: Result<u32, Error>)
        requires
            old(self).wf(),
        ensures
            final(self).wf(),
            engine_evolves(*old(self), *final(self)),
            config_unchanged(*old(self), *final(self)),
            caller != old(self).admin ==> result == Err::<u32, Error>(Error::NotAdmin) && *final(self) == *old(self),
            caller == old(self).admin && pool_amount > old(self).matching_pool_balance ==> result
                == Err::<u32, Error>(Error::InsufficientMatchingPool) && *final(self) == *old(self),
            caller == old(self).admin && pool_amount <= old(self).matching_pool_balance && now
                + duration > u64::MAX ==> result == Err::<u32, Error>(Error::ArithmeticOverflow)
                && *final(self) == *old(self),
            caller == old(self).admin && pool_amount <= old(self).matching_pool_balance && now
                + duration <= u64::MAX && old(self).rounds@.len() == u32::MAX ==> result == Err::<
                u32,
                Error,
            >(Error::ArithmeticOverflow) && *final(self) == *old(self),
            caller == old(self).admin && pool_amount <= old(self).matching_pool_balance && now
                + duration <= u64::MAX && old(self).rounds@.len() < u32::MAX ==> ({
                let rid = old(self).rounds@.len() as u32;
                &&& result == Ok::<u32, Error>(rid)
                &&& final(self).rounds@.len() == old(self).rounds@.len() + 1
                &&& final(self).rounds@.drop_last() == old(self).rounds@
                &&& ({
                    let r = final(self).rounds@.last();
                    &&& r.id == rid
                    &&& r.pool_amount == pool_amount
                    &&& r.end_time == now + duration
                    &&& !r.distributed
                    &&& r.campaign_ids@.len() == 0
                })
                &&& final(self).current_round == Some(rid)
                &&& final(self).matching_pool_balance == old(self).matching_pool_balance
                    - pool_amount
                &&& final(self).events@ == old(self).events@.push(
                    Event::MatchingRoundCreated(MatchingRoundCreated {
                        round_id: rid,
                        pool_amount,
                        end_time: (now + duration) as Timestamp,
                    }),
                )
                &&& *final(self) == (Engine {
                    rounds: final(self).rounds,
                    current_round: final(self).current_round,
                    matching_pool_balance: final(self).matching_pool_balance,
                    events: final(self).events,
                    ..*old(self)
                })
            }),
    {
        if caller != self.admin {
            return Err(Error::NotAdmin);
        }
        if pool_amount > self.matching_pool_balance {
            return Err(Error::InsufficientMatchingPool);
        }
        let end_time = match now.checked_add(duration) {
            Some(t) => t,
            None => {
                return Err(Error::ArithmeticOverflow);
            },
        };
        if self.rounds.len() >= u32::MAX as usize {
            return Err(Error::ArithmeticOverflow);
        }
        let round_id = self.rounds.len() as u32;
        let round = MatchingRound {
            id: round_id,
            pool_amount,
            end_time,
            distributed: false,
            campaign_ids: Vec::new(),
        };
        self.rounds.push(round);
        self.current_round = Some(round_id);
        self.matching_pool_balance = self.matching_pool_balance - pool_amount;
        self.events.push(
            Event::MatchingRoundCreated(MatchingRoundCreated { round_id, pool_amount, end_time }),
        );
        proof {
            let pre = *old(self);
            let post = *self;
            assert(post.rounds@.drop_last() =~= pre.rounds@);
            assert forall|j: int| 0 <= j < post.campaigns@.len() implies #[trigger] post.campaign_ok(
                j,
            ) by {
                assert(pre.campaign_ok(j));
            }
            assert forall|k: int| 0 <= k < post.rounds@.len() implies (
            #[trigger] post.rounds@[k]).id == k by {
                if k < pre.rounds@.len() {
                    assert(post.rounds@[k] == pre.rounds@[k]);
                }
            }
            lemma_log_only_evolves(pre, post);
        }
        Ok(round_id)
    }

    /// The funds still available for future matching rounds.
    pub fn get_matching_pool_balance(&self) -> (r: Balance)
        ensures
            r == self.matching_pool_balance,
    {
        self.matching_pool_balance
    }

    /// The currently open matching round, if any.
    pub fn get_current_round(&self) -> (r: Option<u32>)
        ensures
            r == self.current_round,
    {
        self.current_round
    }

    /// The record of a matching round.
    pub fn get_round(&self, round_id: u32) -> (result: Option<MatchingRound>)
        requires
            self.wf(),
        ensures
            match result {
                Some(r) => round_id < self.rounds@.len() && round_eq(
                    r,
                    self.rounds@[round_id as int],
                ),
                None => round_id >= self.rounds@.len(),
            },
    {
        let idx = round_id as usize;
        if idx >= self.rounds.len() {
            return None;
        }
        Some(self.rounds[idx].duplicate())
    }

    /// How many ledger entries of a campaign carry a donor that is marked
    /// in the unique-donor record.
    pub fn get_unique_donor_count(&self, campaign_id: u32) -> (r: u32)
        requires
            self.wf(),
        ensures
            self.has_campaign(campaign_id) ==> r == marked_count(
                self.ledger_at(campaign_id),
                self.unique_donors@,
                campaign_id,
            ),
            !self.has_campaign(campaign_id) ==> r == 0,
    {
        if campaign_id < self.id_base {
            return 0;
        }
        let idx = (campaign_id - self.id_base) as usize;
        if idx >= self.campaigns.len() {
            return 0;
        }
        proof {
            assert(self.campaign_ok(idx as int));
        }
        let ledger = &self.donations[idx];
        let n = ledger.len();
        let mut count: u32 = 0;
        let mut k: usize = 0;
        proof {
            assert(ledger@.take(0) =~= Seq::<Donation>::empty());
        }
        while k < n
            invariant
                self.wf(),
                self.has_campaign(campaign_id),
                idx == self.idx_of(campaign_id),
                0 <= idx < self.donations@.len(),
                ledger == &self.donations@[idx as int],
                n == ledger@.len(),
                n <= u32::MAX,
                0 <= k <= n,
                count == marked_count(ledger@.take(k as int), self.unique_donors@, campaign_id),
                count <= k,
            decreases n - k,
        {
            proof {
                assert(ledger@.take(k + 1).drop_last() =~= ledger@.take(k as int));
                assert(ledger@.take(k + 1).last() == ledger@[k as int]);
            }
            if pair_contains(&self.unique_donors, campaign_id, ledger[k].donor) {
                count = count + 1;
            }
            k += 1;
        }
        proof {
            assert(ledger@.take(n as int) =~= ledger@);
        }
        count
    }
}

/// How many ledger entries carry a donor marked in the unique-donor record.
pub open spec fn marked_count(
    ledger: Seq<Donation>,
    donors: Seq<(u32, AccountId)>,
    campaign_id: u32,
) -> int
    decreases ledger.len(),
{
    if ledger.len() == 0 {
        0
    } else {
        marked_count(ledger.drop_last(), donors, campaign_id) + if has_pair(
            donors,
            campaign_id,
            ledger.last().donor,
        ) {
            1int
        } else {
            0
        }
    }
}

/// Addition clamped at the largest representable balance, as the engine
/// accumulates round totals.
pub open spec fn sat_add(a: int, b: int) -> int {
    if a + b > u128::MAX {
        u128::MAX as int
    } else {
        a + b
    }
}

/// Multiplication clamped at the largest representable balance.
pub open spec fn sat_mul(a: int, b: int) -> int {
    if a * b > u128::MAX {
        u128::MAX as int
    } else {
        a * b
    }
}

/// Whether the campaign at index `j` takes part in the distribution of the
/// given round: it is tagged with the round, has not failed, and has a
/// positive quadratic-funding score.
pub open spec fn participates(pre: Engine, round_id: u32, j: int) -> bool {
    let c = pre.campaigns@[j];
    &&& c.matching_round == Some(round_id)
    &&& c.state != CampaignState::Failed
    &&& qf_score(pre.donations@[j]@) > 0
}

/// The participating campaigns of a round, in index order, each with its
/// quadratic-funding score.
pub open spec fn part_list(pre: Engine, round_id: u32, upto: int) -> Seq<(usize, u128)>
    decreases upto,
{
    if upto <= 0 {
        Seq::empty()
    } else {
        let rest = part_list(pre, round_id, upto - 1);
        if participates(pre, round_id, upto - 1) {
            rest.push((((upto - 1) as usize), qf_score(pre.donations@[upto - 1]@) as u128))
        } else {
            rest
        }
    }
}

/// The round's total score: the participating scores, summed with
/// saturation as the engine does.
pub open spec fn total_score(pre: Engine, round_id: u32, upto: int) -> int
    decreases upto,
{
    if upto <= 0 {
        0
    } else {
        let rest = total_score(pre, round_id, upto - 1);
        if participates(pre, round_id, upto - 1) {
            sat_add(rest, qf_score(pre.donations@[upto - 1]@))
        } else {
            rest
        }
    }
}

/// In a well-formed engine a quadratic-funding score always fits the
/// balance type: each root is bounded by the donation ceiling and the
/// ledger length is bounded by the donation counter.
pub proof fn lemma_qf_score_bound(pre: Engine, j: int)
    requires
        pre.wf(),
        0 <= j < pre.campaigns@.len(),
    ensures
        0 <= qf_score(pre.donations@[j]@) <= u128::MAX,
{
    assert(pre.campaign_ok(j));
    let d = pre.donations@[j]@;
    crate::types::lemma_sum_roots_bound(d);
    crate::types::lemma_sum_roots_nonneg(d);
    let sr = sum_roots(d);
    assert(sr * sr <= u128::MAX) by (nonlinear_arith)
        requires
            0 <= sr,
            sr <= d.len() * 10_000_000,
            d.len() <= u32::MAX,
    {}
}

/// Whether index `j` occurs among the first `k` entries of the list.
pub open spec fn in_first(list: Seq<(usize, u128)>, k: int, j: int) -> bool {
    exists|t: int| 0 <= t < k && (#[trigger] list[t]).0 == j
}

/// The participating list is exactly the participating indices in strictly
/// ascending order, each carrying its score.
pub proof fn lemma_part_list_props(pre: Engine, round_id: u32, upto: int)
    requires
        pre.wf(),
        0 <= upto <= pre.campaigns@.len(),
        upto <= usize::MAX,
    ensures
        forall|k: int|
            0 <= k < part_list(pre, round_id, upto).len() ==> {
                let e = #[trigger] part_list(pre, round_id, upto)[k];
                &&& e.0 < upto
                &&& participates(pre, round_id, e.0 as int)
                &&& e.1 == qf_score(pre.donations@[e.0 as int]@)
            },
        forall|k1: int, k2: int|
            0 <= k1 < k2 < part_list(pre, round_id, upto).len() ==> (#[trigger] part_list(
                pre,
                round_id,
                upto,
            )[k1]).0 < (#[trigger] part_list(pre, round_id, upto)[k2]).0,
        forall|j: int|
            0 <= j < upto && participates(pre, round_id, j) ==> in_first(
                part_list(pre, round_id, upto),
                part_list(pre, round_id, upto).len() as int,
                j,
            ),
        0 <= total_score(pre, round_id, upto) <= u128::MAX,
        part_list(pre, round_id, upto).len() > 0 ==> total_score(pre, round_id, upto) > 0,
        part_list(pre, round_id, upto).len() == 0 ==> total_score(pre, round_id, upto) == 0,
    decreases upto,
{
    if upto > 0 {
        lemma_part_list_props(pre, round_id, upto - 1);
        let rest = part_list(pre, round_id, upto - 1);
        let full = part_list(pre, round_id, upto);
        if participates(pre, round_id, upto - 1) {
            lemma_qf_score_bound(pre, upto - 1);
            assert(full == rest.push(((upto - 1) as usize, qf_score(pre.donations@[upto - 1]@) as u128)));
            assert forall|j: int|
                0 <= j < upto && participates(pre, round_id, j) implies in_first(
                full,
                full.len() as int,
                j,
            ) by {
                if j == upto - 1 {
                    assert(full[full.len() - 1].0 == j);
                } else {
                    assert(in_first(rest, rest.len() as int, j));
                    let t = choose|t: int| 0 <= t < rest.len() && (#[trigger] rest[t]).0 == j;
                    assert(full[t].0 == j);
                }
            }
        } else {
            assert(full == rest);
            assert forall|j: int|
                0 <= j < upto && participates(pre, round_id, j) implies in_first(
                full,
                full.len() as int,
                j,
            ) by {
                assert(in_first(rest, rest.len() as int, j));
            }
        }
    }
}

/// The validation verdict of a distribution, in the order the checks are
/// made: `None` means the round is distributed.
pub open spec fn distribute_verdict(
    pre: Engine,
    caller: AccountId,
    now: Timestamp,
    round_id: u32,
) -> Option<Error> {
    if caller != pre.admin {
        Some(Error::NotAdmin)
    } else if round_id >= pre.rounds@.len() {
        Some(Error::RoundNotFound)
    } else if pre.rounds@[round_id as int].distributed {
        Some(Error::AlreadyDistributed)
    } else if now < pre.rounds@[round_id as int].end_time {
        Some(Error::RoundNotEnded)
    } else if exists|j: int|
        0 <= j < pre.campaigns@.len() && #[trigger] participates(pre, round_id, j) && qf_score(
            pre.donations@[j]@,
        ) * pre.rounds@[round_id as int].pool_amount > u128::MAX {
        Some(Error::ArithmeticOverflow)
    } else {
        None
    }
}

/// The distribution event for one participating entry: the campaign id and
/// its floor share of the pool.
pub open spec fn dist_event_of(pre: Engine, round_id: u32, e: (usize, u128)) -> Event {
    let n = pre.campaigns@.len() as int;
    let total = total_score(pre, round_id, n);
    let pool = pre.rounds@[round_id as int].pool_amount;
    Event::MatchingDistributed(MatchingDistributed {
        campaign_id: (pre.id_base + e.0) as u32,
        matching_amount: (e.1 * (pool as int) / total) as Balance,
        round_id,
    })
}

/// The distribution events for a list of participating entries, in order.
pub open spec fn events_of(pre: Engine, round_id: u32, list: Seq<(usize, u128)>) -> Seq<Event>
    decreases list.len(),
{
    if list.len() == 0 {
        Seq::empty()
    } else {
        events_of(pre, round_id, list.drop_last()).push(
            dist_event_of(pre, round_id, list.last()),
        )
    }
}

/// The events a distribution appends: one per participating campaign, in
/// index order, each carrying the campaign's share of the pool.
pub open spec fn dist_events(pre: Engine, round_id: u32) -> Seq<Event> {
    events_of(pre, round_id, part_list(pre, round_id, pre.campaigns@.len() as int))
}

/// The full input/output relation of a distribution. A rejected call
/// changes nothing. An accepted one assigns every participating campaign
/// its floor share of the pool, proportional to its quadratic-funding
/// score, appends one event per participating campaign, marks the round
/// distributed, and closes it if it was the current round. Remainder units
/// lost to the floor are not redistributed.
pub open spec fn distribute_post(
    pre: Engine,
    post: Engine,
    result: Result<(), Error>,
    caller: AccountId,
    now: Timestamp,
    round_id: u32,
) -> bool {
    match distribute_verdict(pre, caller, now, round_id) {
        Some(e) => result == Err::<(), Error>(e) && post == pre,
        None => {
            let n = pre.campaigns@.len() as int;
            let total = total_score(pre, round_id, n);
            let pool = pre.rounds@[round_id as int].pool_amount;
            &&& result == Ok::<(), Error>(())
            &&& post.campaigns@.len() == n
            &&& (forall|j: int|
                0 <= j < n ==> post.campaigns@[j] == (if participates(pre, round_id, j) {
                    (Campaign {
                        matching_amount: (qf_score(pre.donations@[j]@) * pool / total) as Balance,
                        ..pre.campaigns@[j]
                    })
                } else {
                    pre.campaigns@[j]
                }))
            &&& post.events@ == pre.events@ + dist_events(pre, round_id)
            &&& post.rounds@ == pre.rounds@.update(
                round_id as int,
                (MatchingRound { distributed: true, ..pre.rounds@[round_id as int] }),
            )
            &&& post.current_round == (if pre.current_round == Some(round_id) {
                None::<u32>
            } else {
                pre.current_round
            })
            &&& post == (Engine {
                campaigns: post.campaigns,
                events: post.events,
                rounds: post.rounds,
                current_round: post.current_round,
                ..pre
            })
        },
    }
}

impl Engine {
    /// Distribute a matching round's pool across its campaigns by
    /// quadratic-funding score. Admin only, only after the round has ended,
    /// and only once. Each participating campaign receives
    /// `floor(score * pool / total)`; remainder units are not redistributed.
    pub fn calculate_and_distribute_matching(
        &mut self,
        caller: AccountId,
        now: Timestamp,
        round_id: u32,
    ) -> (result: Result<(), Error>)
        requires
            old(self).wf(),
        ensures
            final(self).wf(),
            engine_evolves(*old(self), *final(self)),
            config_unchanged(*old(self), *final(self)),
            distribute_post(*old(self), *final(self), result, caller, now, round_id),
    {
        if caller != self.admin {
            return Err(Error::NotAdmin);
        }
        let rid = round_id as usize;
        if rid >= self.rounds.len() {
            return Err(Error::RoundNotFound);
        }
        if self.rounds[rid].distributed {
            return Err(Error::AlreadyDistributed);
        }
        if now < self.rounds[rid].end_time {
            return Err(Error::RoundNotEnded);
        }
        let ghost pre = *old(self);
        let pool = self.rounds[rid].pool_amount;
        let n = self.campaigns.len();
        // First pass: collect the participating campaigns and their scores.
        let mut scores: Vec<(usize, u128)> = Vec::new();
        let mut total: u128 = 0;
        let mut j: usize = 0;
        while j < n
            invariant
                *self == pre,
                self.wf(),
                n == self.campaigns@.len(),
                rid == round_id,
                rid < self.rounds@.len(),
                0 <= j <= n,
                pool == self.rounds@[rid as int].pool_amount,
                scores@ == part_list(pre, round_id, j as int),
                total == total_score(pre, round_id, j as int),
            decreases n - j,
        {
            let tagged = match self.campaigns[j].matching_round {
                Some(r) => r == round_id,
                None => false,
            };
            let not_failed = !matches!(self.campaigns[j].state, CampaignState::Failed);
            if tagged && not_failed {
                let s = self.score_of(j);
                if s > 0 {
                    proof {
                        assert(participates(pre, round_id, j as int));
                    }
                    scores.push((j, s));
                    total = match total.checked_add(s) {
                        Some(t) => t,
                        None => u128::MAX,
                    };
                } else {
                    proof {
                        assert(!participates(pre, round_id, j as int));
                    }
                }
            } else {
                proof {
                    assert(!participates(pre, round_id, j as int));
                }
            }
            j += 1;
        }
        proof {
            lemma_part_list_props(pre, round_id, n as int);
        }
        // Second pass: every share must be computable before anything is
        // written, so that a rejected call commits nothing.
        let m = scores.len();
        let mut k: usize = 0;
        while k < m
            invariant
                *self == pre,
                self.wf(),
                n == self.campaigns@.len(),
                rid == round_id,
                rid < self.rounds@.len(),
                pool == self.rounds@[rid as int].pool_amount,
                scores@ == part_list(pre, round_id, n as int),
                m == scores@.len(),
                0 <= k <= m,
                caller == pre.admin,
                !pre.rounds@[rid as int].distributed,
                now >= pre.rounds@[rid as int].end_time,
                forall|t: int| 0 <= t < k ==> ((#[trigger] scores@[t]).1) * pool <= u128::MAX,
            decreases m - k,
        {
            let s = scores[k].1;
            if s.checked_mul(pool).is_none() {
                proof {
                    lemma_part_list_props(pre, round_id, n as int);
                    let jj = scores@[k as int].0 as int;
                    assert(participates(pre, round_id, jj) && qf_score(pre.donations@[jj]@)
                        * pre.rounds@[round_id as int].pool_amount > u128::MAX);
                    assert(distribute_verdict(pre, caller, now, round_id) == Some(
                        Error::ArithmeticOverflow,
                    ));
                }
                return Err(Error::ArithmeticOverflow);
            }
            k += 1;
        }
        proof {
            // No participating score overflows, so the verdict is clear.
            lemma_part_list_props(pre, round_id, n as int);
            assert forall|jj: int|
                0 <= jj < pre.campaigns@.len() && #[trigger] participates(
                    pre,
                    round_id,
                    jj,
                ) implies qf_score(pre.donations@[jj]@) * pre.rounds@[round_id as int].pool_amount
                <= u128::MAX by {
                assert(in_first(scores@, scores@.len() as int, jj));
                let t = choose|t: int|
                    0 <= t < scores@.len() && (#[trigger] scores@[t]).0 == jj;
                assert(scores@[t].1 == qf_score(pre.donations@[jj]@));
            }
            assert(distribute_verdict(pre, caller, now, round_id) is None);
        }
        // Third pass: write each participating campaign's share and event.
        let mut k2: usize = 0;
        proof {
            assert(scores@.take(0) =~= Seq::<(usize, u128)>::empty());
            assert(self.events@ =~= pre.events@ + events_of(pre, round_id, scores@.take(0)));
        }
        while k2 < m
            invariant
                n == self.campaigns@.len(),
                rid == round_id,
                rid < self.rounds@.len(),
                pool == pre.rounds@[rid as int].pool_amount,
                scores@ == part_list(pre, round_id, n as int),
                m == scores@.len(),
                0 <= k2 <= m,
                pre.wf(),
                n == pre.campaigns@.len(),
                n <= usize::MAX,
                total == total_score(pre, round_id, n as int),
                m > 0 ==> total > 0,
                forall|t: int| 0 <= t < m ==> ((#[trigger] scores@[t]).1) * pool <= u128::MAX,
                forall|jj: int|
                    0 <= jj < n ==> self.campaigns@[jj] == (if in_first(scores@, k2 as int, jj) {
                        (Campaign {
                            matching_amount: (qf_score(pre.donations@[jj]@) * (pool as int)
                                / (total as int)) as Balance,
                            ..pre.campaigns@[jj]
                        })
                    } else {
                        pre.campaigns@[jj]
                    }),
                self.events@ == pre.events@ + events_of(pre, round_id, scores@.take(k2 as int)),
                *self == (Engine { campaigns: self.campaigns, events: self.events, ..pre }),
            decreases m - k2,
        {
            proof {
                lemma_part_list_props(pre, round_id, n as int);
            }
            let jj = scores[k2].0;
            let s = scores[k2].1;
            proof {
                assert(scores@[k2 as int].0 == jj && scores@[k2 as int].1 == s);
                assert(participates(pre, round_id, jj as int));
                assert(s * pool <= u128::MAX);
                assert(total > 0);
                // This index was not updated before: earlier entries have
                // strictly smaller indices.
                assert(!in_first(scores@, k2 as int, jj as int));
            }
            let prod = match s.checked_mul(pool) {
                Some(p) => p,
                None => 0,
            };
            let share = prod / total;
            self.campaigns[jj].matching_amount = share;
            let event_id = self.id_base + jj as u32;
            self.events.push(
                Event::MatchingDistributed(MatchingDistributed {
                    campaign_id: event_id,
                    matching_amount: share,
                    round_id,
                }),
            );
            proof {
                assert(scores@.take(k2 + 1).drop_last() =~= scores@.take(k2 as int));
                assert(scores@.take(k2 + 1).last() == scores@[k2 as int]);
                assert(dist_event_of(pre, round_id, scores@[k2 as int])
                    == Event::MatchingDistributed(MatchingDistributed {
                    campaign_id: event_id,
                    matching_amount: share,
                    round_id,
                })) by {
                    assert(prod == s * pool);
                    assert(share == s * (pool as int) / (total as int));
                    assert(event_id == pre.id_base + jj);
                }
                assert(self.events@ =~= pre.events@ + events_of(
                    pre,
                    round_id,
                    scores@.take(k2 + 1),
                ));
                assert forall|q: int|
                    0 <= q < n implies self.campaigns@[q] == (if in_first(
                    scores@,
                    k2 + 1,
                    q,
                ) {
                    (Campaign {
                        matching_amount: (qf_score(pre.donations@[q]@) * (pool as int) / (
                        total as int)) as Balance,
                        ..pre.campaigns@[q]
                    })
                } else {
                    pre.campaigns@[q]
                }) by {
                    if q == jj as int {
                        assert(in_first(scores@, k2 + 1, q)) by {
                            assert(scores@[k2 as int].0 == q);
                        }
                    } else {
                        assert(in_first(scores@, k2 + 1, q) == in_first(scores@, k2 as int, q))
                            by {
                            if in_first(scores@, k2 + 1, q) {
                                let t = choose|t: int|
                                    0 <= t < k2 + 1 && (#[trigger] scores@[t]).0 == q;
                                assert(t != k2);
                                assert(in_first(scores@, k2 as int, q));
                            }
                            if in_first(scores@, k2 as int, q) {
                                let t = choose|t: int|
                                    0 <= t < k2 && (#[trigger] scores@[t]).0 == q;
                                assert(0 <= t < k2 + 1 && scores@[t].0 == q);
                            }
                        }
                    }
                }
            }
            k2 += 1;
        }
        // Mark the round distributed and close it if it was current.
        self.rounds[rid].distributed = true;
        let close_current = match self.current_round {
            Some(r) => r == round_id,
            None => false,
        };
        if close_current {
            self.current_round = None;
        }
        proof {
            let post = *self;
            lemma_part_list_props(pre, round_id, n as int);
            assert(scores@.take(m as int) =~= scores@);
            assert(post.events@ == pre.events@ + dist_events(pre, round_id));
            assert forall|q: int|
                0 <= q < n implies post.campaigns@[q] == (if participates(pre, round_id, q) {
                (Campaign {
                    matching_amount: (qf_score(pre.donations@[q]@) * pool / total_score(
                        pre,
                        round_id,
                        n as int,
                    )) as Balance,
                    ..pre.campaigns@[q]
                })
            } else {
                pre.campaigns@[q]
            }) by {
                if participates(pre, round_id, q) {
                    assert(in_first(scores@, m as int, q));
                } else {
                    if in_first(scores@, m as int, q) {
                        let t = choose|t: int| 0 <= t < m && (#[trigger] scores@[t]).0 == q;
                        assert(participates(pre, round_id, scores@[t].0 as int));
                    }
                }
            }
            assert forall|q: int| 0 <= q < post.campaigns@.len() implies #[trigger] post.campaign_ok(
                q,
            ) by {
                assert(pre.campaign_ok(q));
                assert(post.donations@[q] == pre.donations@[q]);
            }
            assert forall|q: int| 0 <= q < pre.campaigns@.len() implies campaign_evolves(
                #[trigger] pre.campaigns@[q],
                post.campaigns@[q],
            ) by {}
            assert forall|q: int| 0 <= q < pre.donations@.len() implies (
            #[trigger] pre.donations@[q]@).is_prefix_of(post.donations@[q]@) by {
                lemma_prefix_refl(pre.donations@[q]@);
            }
            assert forall|q: int| 0 <= q < post.rounds@.len() implies (
            #[trigger] post.rounds@[q]).id == q by {
                if q != rid {
                    assert(post.rounds@[q] == pre.rounds@[q]);
                }
            }
            lemma_prefix_refl(pre.refund_claims@);
            lemma_prefix_refl(pre.unique_donors@);
            lemma_prefix_refl(pre.votes@);
            lemma_prefix_refl(pre.transfers@);
            lemma_prefix_refl(pre.receipts@);
            assert(pre.events@.is_prefix_of(post.events@)) by {
                assert(post.events@.subrange(0, pre.events@.len() as int) =~= pre.events@);
            }
            assert(post.rounds@ =~= pre.rounds@.update(
                rid as int,
                (MatchingRound { distributed: true, ..pre.rounds@[rid as int] }),
            ));
        }
        Ok(())
    }
}

/// The estimate's round total: the scores of every campaign tagged with
/// the round, summed with saturation, regardless of state or score.
pub open spec fn est_total(pre: Engine, round_id: u32, upto: int) -> int
    decreases upto,
{
    if upto <= 0 {
        0
    } else {
        let rest = est_total(pre, round_id, upto - 1);
        if pre.campaigns@[upto - 1].matching_round == Some(round_id) {
            sat_add(rest, qf_score(pre.donations@[upto - 1]@))
        } else {
            rest
        }
    }
}

/// The matching estimate shown for a campaign before distribution: its
/// share of the round pool under the current ledgers, saturating instead
/// of overflowing. After distribution it is the allocated amount itself.
pub open spec fn estimate_of(pre: Engine, campaign_id: u32) -> int {
    if !pre.has_campaign(campaign_id) {
        0
    } else {
        let c = pre.campaign_at(campaign_id);
        match c.matching_round {
            None => 0,
            Some(rid) => if rid >= pre.rounds@.len() {
                0
            } else {
                let r = pre.rounds@[rid as int];
                if r.distributed {
                    c.matching_amount as int
                } else {
                    let score = qf_score(pre.ledger_at(campaign_id));
                    if score == 0 {
                        0
                    } else {
                        let total = est_total(pre, rid, pre.campaigns@.len() as int);
                        if total == 0 {
                            0
                        } else {
                            sat_mul(score, r.pool_amount as int) / total
                        }
                    }
                }
            },
        }
    }
}

impl Engine {
    /// The estimated matching for a campaign, for display: what the
    /// campaign would receive if its round were distributed on the current
    /// ledgers; the allocated amount once the round is distributed; zero
    /// where the campaign is in no round or has no score.
    pub fn get_estimated_matching(&self, campaign_id: u32) -> (r: Balance)
        requires
            self.wf(),
        ensures
            r == estimate_of(*self, campaign_id),
    {
        if campaign_id < self.id_base {
            return 0;
        }
        let idx = (campaign_id - self.id_base) as usize;
        if idx >= self.campaigns.len() {
            return 0;
        }
        let rid = match self.campaigns[idx].matching_round {
            Some(r) => r,
            None => {
                return 0;
            },
        };
        if rid as usize >= self.rounds.len() {
            return 0;
        }
        if self.rounds[rid as usize].distributed {
            return self.campaigns[idx].matching_amount;
        }
        let score = self.score_of(idx);
        if score == 0 {
            return 0;
        }
        let pool = self.rounds[rid as usize].pool_amount;
        let n = self.campaigns.len();
        let mut total: u128 = 0;
        let mut j: usize = 0;
        while j < n
            invariant
                self.wf(),
                n == self.campaigns@.len(),
                (rid as int) < self.rounds@.len(),
                0 <= j <= n,
                total == est_total(*self, rid, j as int),
            decreases n - j,
        {
            let tagged = match self.campaigns[j].matching_round {
                Some(r) => r == rid,
                None => false,
            };
            if tagged {
                proof {
                    lemma_qf_score_bound(*self, j as int);
                }
                let s = self.score_of(j);
                total = match total.checked_add(s) {
                    Some(t) => t,
                    None => u128::MAX,
                };
            }
            j += 1;
        }
        if total == 0 {
            return 0;
        }
        let product = match score.checked_mul(pool) {
            Some(p) => p,
            None => u128::MAX,
        };
        product / total
    }
}

/// Proof helper for operations that only touch the pool, rounds,
/// current-round pointer and logs: they evolve the engine monotonically.
proof fn lemma_log_only_evolves(pre: Engine, post: Engine)
    requires
        post.admin == pre.admin,
        post.treasury == pre.treasury,
        post.id_base == pre.id_base,
        post.campaigns@ == pre.campaigns@,
        post.donations@ == pre.donations@,
        pre.rounds@.len() <= post.rounds@.len(),
        forall|k: int| 0 <= k < pre.rounds@.len() ==> post.rounds@[k] == pre.rounds@[k],
        post.refund_claims@ == pre.refund_claims@,
        post.unique_donors@ == pre.unique_donors@,
        post.votes@ == pre.votes@,
        post.transfers@ == pre.transfers@,
        post.receipts@ == pre.receipts@,
        pre.events@.is_prefix_of(post.events@),
    ensures
        engine_evolves(pre, post),
{
    assert forall|j: int| 0 <= j < pre.campaigns@.len() implies campaign_evolves(
        #[trigger] pre.campaigns@[j],
        post.campaigns@[j],
    ) by {}
    assert forall|j: int| 0 <= j < pre.donations@.len() implies (
    #[trigger] pre.donations@[j]@).is_prefix_of(post.donations@[j]@) by {
        lemma_prefix_refl(pre.donations@[j]@);
    }
    lemma_prefix_refl(pre.refund_claims@);
    lemma_prefix_refl(pre.unique_donors@);
    lemma_prefix_refl(pre.votes@);
    lemma_prefix_refl(pre.transfers@);
    lemma_prefix_refl(pre.receipts@);
}

} // verus!
