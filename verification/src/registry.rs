//! Campaign registry: creation (single and batched), cancellation, and the
//! read accessors over the campaign records.

use vstd::prelude::*;

use crate::engine::{
    campaign_evolves, config_unchanged, engine_evolves, lemma_prefix_push, lemma_prefix_refl,
    lemma_prefix_trans, Engine,
};
use crate::types::{
    campaign_eq, sum_amounts, AccountId, Balance, BatchResult, Campaign, CampaignDetails,
    CampaignState, Donation, Error, Event, Timestamp, HOUR_MS, MAX_GOAL, YEAR_MS,
};
use vstd::string::StrSliceExecFns;

use crate::types::{CampaignCancelled, CampaignCreated};

verus! {

/// The validation verdict of `create_campaign`, in the order the checks are
/// made: `None` means the inputs are acceptable.
pub open spec fn create_error(
    title: Seq<char>,
    description: Seq<char>,
    goal: Balance,
    deadline: Timestamp,
    beneficiary: AccountId,
    now: Timestamp,
) -> Option<Error> {
    if title.len() == 0 || title.len() > 100 {
        Some(Error::InvalidTitle)
    } else if description.len() > 1000 {
        Some(Error::InvalidDescription)
    } else if goal == 0 || goal > MAX_GOAL {
        Some(Error::InvalidGoal)
    } else if beneficiary == 0 {
        Some(Error::InvalidBeneficiary)
    } else if deadline < now + HOUR_MS || deadline > now + YEAR_MS {
        Some(Error::InvalidDeadline)
    } else {
        None
    }
}

/// One requested campaign creation: title, description, goal, deadline,
/// beneficiary.
pub type CreateRequest = (String, String, Balance, Timestamp, AccountId);

/// Whether a requested creation will be accepted when the engine has
/// assigned `count` ids so far.
pub open spec fn request_ok(item: CreateRequest, now: Timestamp, count: int) -> bool {
    create_error(item.0@, item.1@, item.2, item.3, item.4, now) is None && count < u32::MAX
}

/// How many of the requested creations will be accepted, processed in
/// order, starting from `count` assigned ids.
pub open spec fn successes_in(items: Seq<CreateRequest>, now: Timestamp, count: int) -> int
    decreases items.len(),
{
    if items.len() == 0 {
        0
    } else {
        let first_ok: int = if request_ok(items.first(), now, count) {
            1
        } else {
            0
        };
        first_ok + successes_in(items.drop_first(), now, count + first_ok)
    }
}

/// The accepted count never exceeds the number of requests.
pub proof fn lemma_successes_in_bounds(items: Seq<CreateRequest>, now: Timestamp, count: int)
    ensures
        0 <= successes_in(items, now, count) <= items.len(),
    decreases items.len(),
{
    if items.len() > 0 {
        let first_ok: int = if request_ok(items.first(), now, count) {
            1
        } else {
            0
        };
        lemma_successes_in_bounds(items.drop_first(), now, count + first_ok)
    }
}

impl Engine {
    /// Create a campaign. The caller becomes its owner; the id is the next
    /// unassigned one. Rejected inputs leave the engine untouched; an
    /// accepted one appends exactly the new record, its empty ledger, and a
    /// creation event.
    pub fn create_campaign(
        &mut self,
        caller: AccountId,
        now: Timestamp,
        title: String,
        description: String,
        goal: Balance,
        deadline: Timestamp,
        beneficiary: AccountId,
    ) -> (result: Result<u32, Error>)
        requires
            old(self).wf(),
            now <= u64::MAX - YEAR_MS,
        ensures
            final(self).wf(),
            engine_evolves(*old(self), *final(self)),
            config_unchanged(*old(self), *final(self)),
            ({
                let verdict = create_error(title@, description@, goal, deadline, beneficiary, now);
                match verdict {
                    Some(e) => result == Err::<u32, Error>(e) && *final(self) == *old(self),
                    None => if old(self).campaign_count_int() == u32::MAX {
                        result == Err::<u32, Error>(Error::ArithmeticOverflow) && *final(self)
                            == *old(self)
                    } else {
                        &&& result == Ok::<u32, Error>((old(self).campaign_count_int()) as u32)
                        &&& final(self).campaigns@.len() == old(self).campaigns@.len() + 1
                        &&& final(self).campaigns@.drop_last() == old(self).campaigns@
                        &&& ({
                            let c = final(self).campaigns@.last();
                            &&& c.id == old(self).campaign_count_int()
                            &&& c.owner == caller
                            &&& c.title@ == title@
                            &&& c.description@ == description@
                            &&& c.goal == goal
                            &&& c.raised == 0
                            &&& c.deadline == deadline
                            &&& c.state == CampaignState::Active
                            &&& c.beneficiary == beneficiary
                            &&& c.donation_count == 0
                            &&& c.matching_round == old(self).current_round
                            &&& c.matching_amount == 0
                            &&& c.milestones@.len() == 0
                            &&& !c.uses_milestones
                        })
                        &&& final(self).ledgers() == old(self).ledgers().push(
                            Seq::<Donation>::empty(),
                        )
                        &&& final(self).events@ == old(self).events@.push(
                            Event::CampaignCreated(CampaignCreated {
                                campaign_id: (old(self).campaign_count_int()) as u32,
                                owner: caller,
                                goal,
                                deadline,
                            }),
                        )
                        &&& final(self).refund_claims@ == old(self).refund_claims@
                        &&& final(self).unique_donors@ == old(self).unique_donors@
                        &&& final(self).votes@ == old(self).votes@
                        &&& final(self).matching_pool_balance == old(self).matching_pool_balance
                        &&& final(self).current_round == old(self).current_round
                        &&& final(self).rounds@ == old(self).rounds@
                        &&& final(self).transfers@ == old(self).transfers@
                        &&& final(self).receipts@ == old(self).receipts@
                    },
                }
            }),
    {
        let title_len = title.as_str().unicode_len();
        if title_len == 0 || title_len > 100 {
            return Err(Error::InvalidTitle);
        }
        let description_len = description.as_str().unicode_len();
        if description_len > 1000 {
            return Err(Error::InvalidDescription);
        }
        if goal == 0 || goal > MAX_GOAL {
            return Err(Error::InvalidGoal);
        }
        if beneficiary == 0 {
            return Err(Error::InvalidBeneficiary);
        }
        let min_deadline = now + HOUR_MS;
        let max_deadline = now + YEAR_MS;
        if deadline < min_deadline || deadline > max_deadline {
            return Err(Error::InvalidDeadline);
        }
        let count: u32 = self.id_base + self.campaigns.len() as u32;
        if count == u32::MAX {
            return Err(Error::ArithmeticOverflow);
        }
        let campaign = Campaign {
            id: count,
            owner: caller,
            title,
            description,
            goal,
            raised: 0,
            deadline,
            state: CampaignState::Active,
            beneficiary,
            donation_count: 0,
            matching_round: self.current_round,
            matching_amount: 0,
            milestones: Vec::new(),
            uses_milestones: false,
        };
        self.campaigns.push(campaign);
        self.donations.push(Vec::new());
        self.events.push(
            Event::CampaignCreated(CampaignCreated { campaign_id: count, owner: caller, goal, deadline }),
        );
        proof {
            let pre = *old(self);
            let post = *self;
            let n = pre.campaigns@.len() as int;
            assert(post.campaigns@.drop_last() =~= pre.campaigns@);
            assert(post.ledgers() =~= pre.ledgers().push(Seq::<Donation>::empty()));
            assert forall|j: int| 0 <= j < post.campaigns@.len() implies #[trigger] post.campaign_ok(
                j,
            ) by {
                if j < n {
                    assert(pre.campaign_ok(j));
                    assert(post.campaigns@[j] == pre.campaigns@[j]);
                    assert(post.donations@[j] == pre.donations@[j]);
                } else {
                    assert(post.donations@[j]@ =~= Seq::<Donation>::empty());
                    assert(sum_amounts(post.donations@[j]@) == 0);
                }
            }
            assert(post.wf());
            assert forall|j: int| 0 <= j < n implies campaign_evolves(
                #[trigger] pre.campaigns@[j],
                post.campaigns@[j],
            ) by {
                assert(post.campaigns@[j] == pre.campaigns@[j]);
            }
            assert forall|j: int| 0 <= j < n implies (#[trigger] pre.donations@[j]@).is_prefix_of(
                post.donations@[j]@,
            ) by {
                assert(post.donations@[j] == pre.donations@[j]);
                lemma_prefix_refl(pre.donations@[j]@);
            }
            lemma_prefix_refl(pre.refund_claims@);
            lemma_prefix_refl(pre.unique_donors@);
            lemma_prefix_refl(pre.votes@);
            lemma_prefix_refl(pre.transfers@);
            lemma_prefix_refl(pre.receipts@);
            lemma_prefix_push(pre.events@, post.events@.last());
            assert(pre.events@.is_prefix_of(post.events@));
            assert(engine_evolves(pre, post));
        }
        Ok(count)
    }

    /// Create several campaigns in one call. A batch larger than the
    /// configured maximum is rejected whole, creating nothing; otherwise
    /// each request is processed in order and the tally reports how many
    /// were accepted, how many rejected, and the ids of the accepted ones.
    pub fn create_campaigns_batch(
        &mut self,
        caller: AccountId,
        now: Timestamp,
        campaigns_data: Vec<CreateRequest>,
    ) -> (result: Result<BatchResult, Error>)
        requires
            old(self).wf(),
            now <= u64::MAX - YEAR_MS,
        ensures
            final(self).wf(),
            engine_evolves(*old(self), *final(self)),
            config_unchanged(*old(self), *final(self)),
            campaigns_data@.len() > old(self).max_batch_size ==> result == Err::<
                BatchResult,
                Error,
            >(Error::BatchSizeTooLarge) && *final(self) == *old(self),
            campaigns_data@.len() <= old(self).max_batch_size ==> ({
                match result {
                    Ok(b) => {
                        &&& b.successful == successes_in(
                            campaigns_data@,
                            now,
                            old(self).campaign_count_int(),
                        )
                        &&& b.successful + b.failed == campaigns_data@.len()
                        &&& b.success_ids@.len() == b.successful
                        &&& (forall|k: int|
                            0 <= k < b.success_ids@.len() ==> b.success_ids@[k] == old(
                                self,
                            ).campaign_count_int() + k)
                        &&& final(self).campaigns@.len() == old(self).campaigns@.len()
                            + b.successful
                    },
                    Err(_) => false,
                }
            }),
    {
        if campaigns_data.len() > self.max_batch_size as usize {
            return Err(Error::BatchSizeTooLarge);
        }
        let ghost pre = *old(self);
        let ghost count0 = old(self).campaign_count_int();
        let n = campaigns_data.len();
        let mut successful: u32 = 0;
        let mut failed: u32 = 0;
        let mut success_ids: Vec<u32> = Vec::new();
        let mut i: usize = 0;
        proof {
            lemma_successes_in_bounds(campaigns_data@, now, count0);
            assert(campaigns_data@.skip(0) =~= campaigns_data@);
        }
        while i < n
            invariant
                n == campaigns_data@.len(),
                n <= u32::MAX,
                0 <= i <= n,
                now <= u64::MAX - YEAR_MS,
                self.wf(),
                engine_evolves(pre, *self),
                config_unchanged(pre, *self),
                count0 == pre.campaign_count_int(),
                self.campaign_count_int() == count0 + successful,
                successful <= i,
                failed == i - successful,
                success_ids@.len() == successful,
                forall|k: int| 0 <= k < success_ids@.len() ==> success_ids@[k] == count0 + k,
                successes_in(campaigns_data@, now, count0) == successful + successes_in(
                    campaigns_data@.skip(i as int),
                    now,
                    count0 + successful,
                ),
                self.campaigns@.len() == pre.campaigns@.len() + successful,
            decreases n - i,
        {
            let ghost mid = *self;
            let ghost rest = campaigns_data@.skip(i as int);
            let title = campaigns_data[i].0.clone();
            let description = campaigns_data[i].1.clone();
            let goal = campaigns_data[i].2;
            let deadline = campaigns_data[i].3;
            let beneficiary = campaigns_data[i].4;
            proof {
                assert(rest.first() == campaigns_data@[i as int]);
                assert(rest.drop_first() =~= campaigns_data@.skip(i as int + 1));
            }
            let r = self.create_campaign(
                caller,
                now,
                title,
                description,
                goal,
                deadline,
                beneficiary,
            );
            proof {
                crate::engine::lemma_evolves_transitive(pre, mid, *self);
            }
            match r {
                Ok(id) => {
                    successful = successful + 1;
                    success_ids.push(id);
                }
                Err(_) => {
                    failed = failed + 1;
                }
            }
            i += 1;
        }
        proof {
            assert(campaigns_data@.skip(n as int) =~= Seq::<CreateRequest>::empty());
        }
        Ok(BatchResult { successful, failed, success_ids })
    }

    /// Cancel an active campaign: owner or admin only. The campaign becomes
    /// `Failed`, making its donations refundable.
    pub fn cancel_campaign(&mut self, caller: AccountId, campaign_id: u32) -> (result: Result<
        (),
        Error,
    >)
        requires
            old(self).wf(),
        ensures
            final(self).wf(),
            engine_evolves(*old(self), *final(self)),
            config_unchanged(*old(self), *final(self)),
            !old(self).has_campaign(campaign_id) ==> result == Err::<(), Error>(
                Error::CampaignNotFound,
            ) && *final(self) == *old(self),
            old(self).has_campaign(campaign_id) ==> ({
                let c = old(self).campaign_at(campaign_id);
                if caller != c.owner && caller != old(self).admin {
                    result == Err::<(), Error>(Error::NotCampaignOwner) && *final(self) == *old(
                        self,
                    )
                } else if c.state != CampaignState::Active {
                    result == Err::<(), Error>(Error::CampaignNotActive) && *final(self) == *old(
                        self,
                    )
                } else {
                    &&& result == Ok::<(), Error>(())
                    &&& final(self).campaigns@ == old(self).campaigns@.update(
                        old(self).idx_of(campaign_id),
                        (Campaign { state: CampaignState::Failed, ..c }),
                    )
                    &&& final(self).events@ == old(self).events@.push(
                        Event::CampaignCancelled(CampaignCancelled { campaign_id, cancelled_by: caller }),
                    )
                    &&& final(self).donations@ == old(self).donations@
                    &&& final(self).refund_claims@ == old(self).refund_claims@
                    &&& final(self).unique_donors@ == old(self).unique_donors@
                    &&& final(self).votes@ == old(self).votes@
                    &&& final(self).matching_pool_balance == old(self).matching_pool_balance
                    &&& final(self).current_round == old(self).current_round
                    &&& final(self).rounds@ == old(self).rounds@
                    &&& final(self).transfers@ == old(self).transfers@
                    &&& final(self).receipts@ == old(self).receipts@
                }
            }),
    {
        if campaign_id < self.id_base {
            return Err(Error::CampaignNotFound);
        }
        let idx = (campaign_id - self.id_base) as usize;
        if idx >= self.campaigns.len() {
            return Err(Error::CampaignNotFound);
        }
        if caller != self.campaigns[idx].owner && caller != self.admin {
            return Err(Error::NotCampaignOwner);
        }
        if !matches!(self.campaigns[idx].state, CampaignState::Active) {
            return Err(Error::CampaignNotActive);
        }
        self.campaigns[idx].state = CampaignState::Failed;
        self.events.push(Event::CampaignCancelled(CampaignCancelled { campaign_id, cancelled_by: caller }));
        proof {
            let pre = *old(self);
            let post = *self;
            let j = pre.idx_of(campaign_id);
            assert(post.campaigns@ =~= pre.campaigns@.update(
                j,
                (Campaign { state: CampaignState::Failed, ..pre.campaign_at(campaign_id) }),
            ));
            assert forall|k: int| 0 <= k < post.campaigns@.len() implies #[trigger] post.campaign_ok(
                k,
            ) by {
                assert(pre.campaign_ok(k));
                if k != j {
                    assert(post.campaigns@[k] == pre.campaigns@[k]);
                }
            }
            assert forall|k: int| 0 <= k < pre.campaigns@.len() implies campaign_evolves(
                #[trigger] pre.campaigns@[k],
                post.campaigns@[k],
            ) by {
                if k != j {
                    assert(post.campaigns@[k] == pre.campaigns@[k]);
                }
            }
            assert forall|k: int| 0 <= k < pre.donations@.len() implies (
            #[trigger] pre.donations@[k]@).is_prefix_of(post.donations@[k]@) by {
                lemma_prefix_refl(pre.donations@[k]@);
            }
            lemma_prefix_refl(pre.refund_claims@);
            lemma_prefix_refl(pre.unique_donors@);
            lemma_prefix_refl(pre.votes@);
            lemma_prefix_refl(pre.transfers@);
            lemma_prefix_refl(pre.receipts@);
            lemma_prefix_push(pre.events@, post.events@.last());
        }
        Ok(())
    }

    /// The campaign record with the given id, if this instance holds it.
    pub fn get_campaign(&self, campaign_id: u32) -> (result: Option<&Campaign>)
        requires
            self.wf(),
        ensures
            match result {
                Some(c) => self.has_campaign(campaign_id) && *c == self.campaign_at(campaign_id),
                None => !self.has_campaign(campaign_id),
            },
    {
        if campaign_id < self.id_base {
            return None;
        }
        let idx = (campaign_id - self.id_base) as usize;
        if idx >= self.campaigns.len() {
            return None;
        }
        Some(&self.campaigns[idx])
    }

    /// The campaign together with one page of its donation ledger. The page
    /// is the ledger between `offset` and `offset + limit`, both clamped to
    /// the ledger's length.
    pub fn get_campaign_details(&self, campaign_id: u32, offset: u32, limit: u32) -> (result:
        Option<CampaignDetails>)
        requires
            self.wf(),
        ensures
            match result {
                Some(d) => {
                    let ledger = self.ledger_at(campaign_id);
                    let start = vstd::math::min(offset as int, ledger.len() as int);
                    let end = vstd::math::min(offset + limit, ledger.len() as int);
                    &&& self.has_campaign(campaign_id)
                    &&& campaign_eq(d.campaign, self.campaign_at(campaign_id))
                    &&& d.total_donations == ledger.len()
                    &&& d.donations@ == ledger.subrange(start, end)
                },
                None => !self.has_campaign(campaign_id),
            },
    {
        if campaign_id < self.id_base {
            return None;
        }
        let idx = (campaign_id - self.id_base) as usize;
        if idx >= self.campaigns.len() {
            return None;
        }
        proof {
            assert(self.campaign_ok(idx as int));
        }
        let ledger_len = self.donations[idx].len();
        let start: usize = if (offset as usize) < ledger_len {
            offset as usize
        } else {
            ledger_len
        };
        let end: usize = if (offset as u64 + limit as u64) < ledger_len as u64 {
            (offset + limit) as usize
        } else {
            ledger_len
        };
        let mut page: Vec<Donation> = Vec::new();
        let mut k: usize = start;
        while k < end
            invariant
                self.wf(),
                self.has_campaign(campaign_id),
                idx == self.idx_of(campaign_id),
                0 <= idx < self.donations@.len(),
                start <= k <= end,
                end <= self.donations@[idx as int]@.len(),
                page@ == self.donations@[idx as int]@.subrange(start as int, k as int),
            decreases end - k,
        {
            page.push(self.donations[idx][k]);
            proof {
                assert(page@ =~= self.donations@[idx as int]@.subrange(start as int, k + 1));
            }
            k += 1;
        }
        let campaign = self.campaigns[idx].duplicate();
        Some(
            CampaignDetails {
                campaign,
                donations: page,
                total_donations: self.campaigns[idx].donation_count,
            },
        )
    }

    /// One page of the campaign records, by id order: the records with ids
    /// between `offset` and `offset + limit`, clamped to the assigned range.
    /// Ids assigned by a predecessor instance have no record and yield
    /// nothing.
    pub fn get_campaigns_paginated(&self, offset: u32, limit: u32) -> (result: Vec<Campaign>)
        requires
            self.wf(),
        ensures
            ({
                let count = self.campaign_count_int();
                let start = vstd::math::min(offset as int, count);
                let end = vstd::math::min(offset + limit, count);
                let lo = vstd::math::max(start - self.id_base, 0);
                let hi = vstd::math::max(end - self.id_base, 0);
                &&& result@.len() == hi - lo
                &&& (forall|i: int|
                    0 <= i < result@.len() ==> campaign_eq(
                        #[trigger] result@[i],
                        self.campaigns@[lo + i],
                    ))
            }),
    {
        let n = self.campaigns.len();
        let count: u64 = self.id_base as u64 + n as u64;
        let start: u64 = if (offset as u64) < count {
            offset as u64
        } else {
            count
        };
        let end: u64 = if (offset as u64 + limit as u64) < count {
            offset as u64 + limit as u64
        } else {
            count
        };
        let lo: usize = if start > self.id_base as u64 {
            (start - self.id_base as u64) as usize
        } else {
            0
        };
        let hi: usize = if end > self.id_base as u64 {
            (end - self.id_base as u64) as usize
        } else {
            0
        };
        let mut result: Vec<Campaign> = Vec::new();
        let mut j: usize = lo;
        while j < hi
            invariant
                self.wf(),
                hi <= self.campaigns@.len(),
                lo <= j <= hi,
                result@.len() == j - lo,
                forall|i: int|
                    0 <= i < result@.len() ==> campaign_eq(
                        #[trigger] result@[i],
                        self.campaigns@[lo + i],
                    ),
            decreases hi - j,
        {
            result.push(self.campaigns[j].duplicate());
            j += 1;
        }
        result
    }
}

/// The subsequence of campaigns that are still `Active`, in id order.
pub open spec fn actives(s: Seq<Campaign>) -> Seq<Campaign>
    decreases s.len(),
{
    if s.len() == 0 {
        Seq::empty()
    } else {
        let rest = actives(s.drop_last());
        if s.last().state == CampaignState::Active {
            rest.push(s.last())
        } else {
            rest
        }
    }
}

/// The actives of a prefix are a prefix of the actives.
pub proof fn lemma_actives_take_prefix(s: Seq<Campaign>, j: int)
    requires
        0 <= j <= s.len(),
    ensures
        actives(s.take(j)).is_prefix_of(actives(s)),
    decreases s.len() - j,
{
    if j == s.len() {
        assert(s.take(j) =~= s);
        lemma_prefix_refl(actives(s));
    } else {
        lemma_actives_take_prefix(s, j + 1);
        assert(s.take(j + 1).drop_last() =~= s.take(j));
        assert(s.take(j + 1).last() == s[j]);
        if s[j].state == CampaignState::Active {
            lemma_prefix_push(actives(s.take(j)), s[j]);
        } else {
            lemma_prefix_refl(actives(s.take(j)));
        }
        lemma_prefix_trans(actives(s.take(j)), actives(s.take(j + 1)), actives(s));
    }
}

impl Engine {
    /// One page of the campaigns that are still `Active`: the first `offset`
    /// active ones are skipped and at most `limit` are returned, in id order.
    pub fn get_active_campaigns(&self, offset: u32, limit: u32) -> (result: Vec<Campaign>)
        requires
            self.wf(),
        ensures
            ({
                let acts = actives(self.campaigns@);
                let start = vstd::math::min(offset as int, acts.len() as int);
                &&& result@.len() == vstd::math::min(limit as int, acts.len() - start)
                &&& (forall|i: int|
                    0 <= i < result@.len() ==> campaign_eq(
                        #[trigger] result@[i],
                        acts[start + i],
                    ))
            }),
    {
        let n = self.campaigns.len();
        let mut result: Vec<Campaign> = Vec::new();
        let mut skipped: u32 = 0;
        let mut count: u32 = 0;
        let mut j: usize = 0;
        proof {
            assert(self.campaigns@.take(0) =~= Seq::<Campaign>::empty());
        }
        while j < n && count < limit
            invariant
                self.wf(),
                n == self.campaigns@.len(),
                0 <= j <= n,
                count == result@.len(),
                count <= limit,
                ({
                    let acts_j = actives(self.campaigns@.take(j as int));
                    &&& skipped == vstd::math::min(offset as int, acts_j.len() as int)
                    &&& count == vstd::math::min(
                        limit as int,
                        vstd::math::max(acts_j.len() - offset, 0),
                    ) || (count == limit && limit
                        <= vstd::math::max(acts_j.len() - offset, 0))
                    &&& (forall|i: int|
                        0 <= i < result@.len() ==> campaign_eq(
                            #[trigger] result@[i],
                            acts_j[offset + i],
                        ))
                }),
            decreases n - j,
        {
            let ghost acts_j = actives(self.campaigns@.take(j as int));
            proof {
                assert(self.campaigns@.take(j + 1).drop_last() =~= self.campaigns@.take(j as int));
                assert(self.campaigns@.take(j + 1).last() == self.campaigns@[j as int]);
            }
            if matches!(self.campaigns[j].state, CampaignState::Active) {
                if skipped < offset {
                    skipped += 1;
                } else {
                    result.push(self.campaigns[j].duplicate());
                    count += 1;
                }
            }
            j += 1;
        }
        proof {
            let acts = actives(self.campaigns@);
            let acts_j = actives(self.campaigns@.take(j as int));
            lemma_actives_take_prefix(self.campaigns@, j as int);
            assert forall|i: int| 0 <= i < result@.len() implies campaign_eq(
                #[trigger] result@[i],
                acts[offset + i],
            ) by {
                assert(campaign_eq(result@[i], acts_j[offset + i]));
                assert(acts_j[offset + i] == acts[offset + i]);
            }
            if j == n {
                assert(self.campaigns@.take(j as int) =~= self.campaigns@);
            }
        }
        result
    }
}

} // verus!
