//! Milestone governance: attaching milestones to a campaign, donor-weighted
//! voting, and releasing milestone funds once approval is reached.

use vstd::prelude::*;

use crate::engine::{
    campaign_evolves, config_unchanged, engine_evolves, lemma_prefix_push, lemma_prefix_refl,
    Engine,
};
use crate::matching::sat_add;
use crate::types::{
    donor_total, has_vote, lemma_percentage_le_sum, lemma_sum_percentages_nonneg, milestone_eq,
    state_reachable,
    sum_percentages, vote_key_is, vote_keys_unique, vote_weight_spec, AccountId, Balance, Campaign,
    CampaignState, Error, Event, Milestone, Timestamp, TransferRequest, VoteRecord,
    APPROVAL_THRESHOLD, DAY_MS, FULL_BASIS_POINTS,
};

use crate::types::{MilestoneFundsReleased, MilestoneVoted, MilestoneVotingActivated, MilestonesAdded};

verus! {

/// One requested milestone: description, percentage in basis points, and
/// days until its deadline.
pub type MilestoneRequest = (String, u32, u64);

/// The percentages of the requested milestones, summed.
pub open spec fn sum_item_percentages(items: Seq<MilestoneRequest>) -> int
    decreases items.len(),
{
    if items.len() == 0 {
        0
    } else {
        sum_item_percentages(items.drop_last()) + items.last().1
    }
}

/// The first per-item rejection, in request order: an empty or over-long
/// description, or a deadline computation that would overflow.
pub open spec fn items_verdict(items: Seq<MilestoneRequest>, now: Timestamp) -> Option<Error>
    decreases items.len(),
{
    if items.len() == 0 {
        None
    } else {
        let it = items.first();
        if it.0@.len() == 0 || it.0@.len() > 200 {
            Some(Error::InvalidDescription)
        } else if now + it.2 * DAY_MS > u64::MAX {
            Some(Error::ArithmeticOverflow)
        } else {
            items_verdict(items.drop_first(), now)
        }
    }
}

/// A built milestone carries a request's values, with a fresh vote state.
pub open spec fn milestone_matches(m: Milestone, item: MilestoneRequest, now: Timestamp) -> bool {
    &&& m.description@ == item.0@
    &&& m.percentage == item.1
    &&& m.deadline == now + item.2 * DAY_MS
    &&& m.votes_for == 0
    &&& m.votes_against == 0
    &&& !m.released
    &&& !m.voting_active
}

/// The validation verdict of `add_milestones`, in the order the checks are
/// made: `None` means the milestones replace the campaign's list.
pub open spec fn add_milestones_verdict(
    pre: Engine,
    caller: AccountId,
    now: Timestamp,
    campaign_id: u32,
    items: Seq<MilestoneRequest>,
) -> Option<Error> {
    if !pre.has_campaign(campaign_id) {
        Some(Error::CampaignNotFound)
    } else if caller != pre.campaign_at(campaign_id).owner {
        Some(Error::NotCampaignOwner)
    } else if pre.campaign_at(campaign_id).state != CampaignState::Active {
        Some(Error::CampaignNotActive)
    } else if sum_item_percentages(items) != FULL_BASIS_POINTS {
        Some(Error::InvalidPercentageSum)
    } else {
        items_verdict(items, now)
    }
}

impl Engine {
    /// Attach milestones to an active campaign: owner only. The percentages
    /// must sum to exactly 10000 basis points; the new list replaces any
    /// previous one and switches the campaign to milestone-gated payout.
    pub fn add_milestones(
        &mut self,
        caller: AccountId,
        now: Timestamp,
        campaign_id: u32,
        milestones_data: Vec<MilestoneRequest>,
    ) -> (result: Result<(), Error>)
        requires
            old(self).wf(),
        ensures
            final(self).wf(),
            engine_evolves(*old(self), *final(self)),
            config_unchanged(*old(self), *final(self)),
            ({
                let verdict = add_milestones_verdict(
                    *old(self),
                    caller,
                    now,
                    campaign_id,
                    milestones_data@,
                );
                match verdict {
                    Some(e) => result == Err::<(), Error>(e) && *final(self) == *old(self),
                    None => {
                        let j = old(self).idx_of(campaign_id);
                        let c = old(self).campaigns@[j];
                        let cpost = final(self).campaigns@[j];
                        &&& result == Ok::<(), Error>(())
                        &&& final(self).campaigns@ == old(self).campaigns@.update(j, cpost)
                        &&& cpost == (Campaign {
                            milestones: cpost.milestones,
                            uses_milestones: true,
                            ..c
                        })
                        &&& cpost.milestones@.len() == milestones_data@.len()
                        &&& (forall|i: int|
                            0 <= i < milestones_data@.len() ==> milestone_matches(
                                #[trigger] cpost.milestones@[i],
                                milestones_data@[i],
                                now,
                            ))
                        &&& final(self).events@ == old(self).events@.push(
                            Event::MilestonesAdded(MilestonesAdded {
                                campaign_id,
                                milestone_count: if milestones_data@.len() <= u32::MAX {
                                    milestones_data@.len() as u32
                                } else {
                                    0
                                },
                            }),
                        )
                        &&& *final(self) == (Engine {
                            campaigns: final(self).campaigns,
                            events: final(self).events,
                            ..*old(self)
                        })
                    },
                }
            }),
    {
        if campaign_id < self.id_base {
            return Err(Error::CampaignNotFound);
        }
        let idx = (campaign_id - self.id_base) as usize;
        if idx >= self.campaigns.len() {
            return Err(Error::CampaignNotFound);
        }
        if caller != self.campaigns[idx].owner {
            return Err(Error::NotCampaignOwner);
        }
        if !matches!(self.campaigns[idx].state, CampaignState::Active) {
            return Err(Error::CampaignNotActive);
        }
        let n = milestones_data.len();
        // Sum the percentages in a wide register. Percentages are
        // non-negative, so once a partial sum exceeds the full 10000 basis
        // points the total cannot be exact and the batch is rejected.
        let mut sum: u64 = 0;
        let mut k: usize = 0;
        proof {
            assert(milestones_data@.take(0) =~= Seq::<MilestoneRequest>::empty());
        }
        while k < n
            invariant
                *self == *old(self),
                self.wf(),
                old(self).has_campaign(campaign_id),
                idx == old(self).idx_of(campaign_id),
                caller == old(self).campaign_at(campaign_id).owner,
                old(self).campaign_at(campaign_id).state == CampaignState::Active,
                n == milestones_data@.len(),
                0 <= k <= n,
                sum == sum_item_percentages(milestones_data@.take(k as int)),
                sum <= FULL_BASIS_POINTS,
            decreases n - k,
        {
            proof {
                assert(milestones_data@.take(k + 1).drop_last() =~= milestones_data@.take(
                    k as int,
                ));
                assert(milestones_data@.take(k + 1).last() == milestones_data@[k as int]);
            }
            sum = sum + milestones_data[k].1 as u64;
            k += 1;
            if sum > FULL_BASIS_POINTS as u64 {
                proof {
                    lemma_sum_item_take_le(milestones_data@, k as int);
                }
                return Err(Error::InvalidPercentageSum);
            }
        }
        proof {
            assert(milestones_data@.take(n as int) =~= milestones_data@);
        }
        if sum != FULL_BASIS_POINTS as u64 {
            return Err(Error::InvalidPercentageSum);
        }
        // Build the new list, validating each request in order.
        let mut milestones: Vec<Milestone> = Vec::new();
        let mut i: usize = 0;
        proof {
            assert(milestones_data@.skip(0) =~= milestones_data@);
            assert(milestones@ =~= Seq::<Milestone>::empty());
        }
        while i < n
            invariant
                *self == *old(self),
                self.wf(),
                old(self).has_campaign(campaign_id),
                idx == old(self).idx_of(campaign_id),
                caller == old(self).campaign_at(campaign_id).owner,
                old(self).campaign_at(campaign_id).state == CampaignState::Active,
                sum_item_percentages(milestones_data@) == FULL_BASIS_POINTS,
                n == milestones_data@.len(),
                0 <= i <= n,
                now <= u64::MAX,
                milestones@.len() == i,
                forall|t: int|
                    0 <= t < i ==> milestone_matches(
                        #[trigger] milestones@[t],
                        milestones_data@[t],
                        now,
                    ),
                items_verdict(milestones_data@, now) == items_verdict(
                    milestones_data@.skip(i as int),
                    now,
                ),
            decreases n - i,
        {
            proof {
                assert(milestones_data@.skip(i as int).first() == milestones_data@[i as int]);
                assert(milestones_data@.skip(i as int).drop_first() =~= milestones_data@.skip(
                    i + 1,
                ));
            }
            let description = milestones_data[i].0.clone();
            let description_len = description.as_str().unicode_len();
            if description_len == 0 || description_len > 200 {
                proof {
                    assert(items_verdict(milestones_data@.skip(i as int), now) == Some(
                        Error::InvalidDescription,
                    ));
                }
                return Err(Error::InvalidDescription);
            }
            let days_ms = match milestones_data[i].2.checked_mul(DAY_MS) {
                Some(v) => v,
                None => {
                    proof {
                        assert(items_verdict(milestones_data@.skip(i as int), now) == Some(
                            Error::ArithmeticOverflow,
                        ));
                    }
                    return Err(Error::ArithmeticOverflow);
                },
            };
            let deadline = match now.checked_add(days_ms) {
                Some(v) => v,
                None => {
                    proof {
                        assert(items_verdict(milestones_data@.skip(i as int), now) == Some(
                            Error::ArithmeticOverflow,
                        ));
                    }
                    return Err(Error::ArithmeticOverflow);
                },
            };
            milestones.push(
                Milestone {
                    description,
                    percentage: milestones_data[i].1,
                    deadline,
                    votes_for: 0,
                    votes_against: 0,
                    released: false,
                    voting_active: false,
                },
            );
            i += 1;
        }
        proof {
            assert(milestones_data@.skip(n as int) =~= Seq::<MilestoneRequest>::empty());
        }
        let count: u32 = if milestones.len() > u32::MAX as usize {
            0
        } else {
            milestones.len() as u32
        };
        self.campaigns[idx].milestones = milestones;
        self.campaigns[idx].uses_milestones = true;
        self.events.push(Event::MilestonesAdded(MilestonesAdded { campaign_id, milestone_count: count }));
        proof {
            let pre = *old(self);
            let post = *self;
            let j = idx as int;
            let cpost = post.campaigns@[j];
            assert(post.campaigns@ =~= pre.campaigns@.update(j, cpost));
            lemma_sum_matches(cpost.milestones@, milestones_data@, now);
            assert forall|q: int| 0 <= q < post.campaigns@.len() implies #[trigger] post.campaign_ok(
                q,
            ) by {
                assert(pre.campaign_ok(q));
                if q != j {
                    assert(post.campaigns@[q] == pre.campaigns@[q]);
                } else {
                    assert(sum_percentages(cpost.milestones@) == FULL_BASIS_POINTS);
                    assert forall|m: int|
                        0 <= m < cpost.milestones@.len() implies (
                    #[trigger] cpost.milestones@[m]).percentage <= FULL_BASIS_POINTS by {
                        lemma_percentage_le_sum(cpost.milestones@, m);
                    }
                }
            }
            assert forall|q: int| 0 <= q < pre.campaigns@.len() implies campaign_evolves(
                #[trigger] pre.campaigns@[q],
                post.campaigns@[q],
            ) by {
                if q != j {
                    assert(post.campaigns@[q] == pre.campaigns@[q]);
                } else {
                    assert(pre.campaign_ok(j));
                    assert(pre.campaigns@[j].state == CampaignState::Active);
                    assert forall|m: int|
                        0 <= m < pre.campaigns@[j].milestones@.len() implies !(
                    #[trigger] pre.campaigns@[j].milestones@[m]).released by {}
                    assert(campaign_evolves(pre.campaigns@[j], post.campaigns@[j]));
                }
            }
            assert forall|q: int| 0 <= q < pre.donations@.len() implies (
            #[trigger] pre.donations@[q]@).is_prefix_of(post.donations@[q]@) by {
                lemma_prefix_refl(pre.donations@[q]@);
            }
            lemma_prefix_refl(pre.refund_claims@);
            lemma_prefix_refl(pre.unique_donors@);
            lemma_prefix_refl(pre.votes@);
            lemma_prefix_refl(pre.transfers@);
            lemma_prefix_refl(pre.receipts@);
            lemma_prefix_push(pre.events@, post.events@.last());
        }
        Ok(())
    }
}

/// Every milestone in the list has been released.
pub open spec fn all_released(s: Seq<Milestone>) -> bool {
    forall|i: int| 0 <= i < s.len() ==> (#[trigger] s[i]).released
}

/// The validation verdict of `activate_milestone_voting`: `None` means
/// voting opens.
pub open spec fn activate_verdict(
    pre: Engine,
    caller: AccountId,
    now: Timestamp,
    campaign_id: u32,
    milestone_index: u32,
) -> Option<Error> {
    if !pre.has_campaign(campaign_id) {
        Some(Error::CampaignNotFound)
    } else {
        let c = pre.campaign_at(campaign_id);
        let mi = milestone_index as int;
        if caller != c.owner {
            Some(Error::NotCampaignOwner)
        } else if c.state != CampaignState::Successful && c.state != CampaignState::Withdrawn {
            Some(Error::CampaignNotSuccessful)
        } else if mi >= c.milestones@.len() {
            Some(Error::MilestoneNotFound)
        } else if mi > 0 && !c.milestones@[mi - 1].released {
            Some(Error::PreviousMilestoneNotReleased)
        } else if now > c.milestones@[mi].deadline {
            Some(Error::DeadlinePassed)
        } else {
            None
        }
    }
}

/// The validation verdict of `vote_on_milestone`: `None` means the vote is
/// recorded.
pub open spec fn vote_verdict(
    pre: Engine,
    caller: AccountId,
    campaign_id: u32,
    milestone_index: u32,
) -> Option<Error> {
    if !pre.has_campaign(campaign_id) {
        Some(Error::CampaignNotFound)
    } else {
        let c = pre.campaign_at(campaign_id);
        let mi = milestone_index as int;
        if mi >= c.milestones@.len() {
            Some(Error::MilestoneNotFound)
        } else if !c.milestones@[mi].voting_active {
            Some(Error::VotingNotActive)
        } else if c.milestones@[mi].released {
            Some(Error::MilestoneAlreadyReleased)
        } else if donor_total(pre.ledger_at(campaign_id), caller) == 0 {
            Some(Error::NoDonationFound)
        } else if has_vote(pre.votes@, campaign_id, milestone_index, caller) {
            Some(Error::AlreadyVoted)
        } else {
            None
        }
    }
}

/// The validation verdict of `release_milestone_funds`: `None` means the
/// milestone's funds are released.
pub open spec fn release_verdict(
    pre: Engine,
    caller: AccountId,
    campaign_id: u32,
    milestone_index: u32,
) -> Option<Error> {
    if !pre.has_campaign(campaign_id) {
        Some(Error::CampaignNotFound)
    } else {
        let c = pre.campaign_at(campaign_id);
        let mi = milestone_index as int;
        if caller != c.owner && caller != pre.admin {
            Some(Error::NotCampaignOwner)
        } else if mi >= c.milestones@.len() {
            Some(Error::MilestoneNotFound)
        } else if c.milestones@[mi].released {
            Some(Error::MilestoneAlreadyReleased)
        } else if !c.milestones@[mi].voting_active {
            Some(Error::VotingNotActive)
        } else {
            let m = c.milestones@[mi];
            if m.votes_for + m.votes_against > u128::MAX {
                Some(Error::ArithmeticOverflow)
            } else if m.votes_for + m.votes_against == 0 {
                Some(Error::NoVotesCast)
            } else if m.votes_for * 100 > u128::MAX {
                Some(Error::ArithmeticOverflow)
            } else if m.votes_for * 100 / (m.votes_for + m.votes_against) < APPROVAL_THRESHOLD {
                Some(Error::ApprovalTooLow)
            } else if sat_add(c.raised as int, c.matching_amount as int) * m.percentage
                > u128::MAX {
                Some(Error::ArithmeticOverflow)
            } else {
                None
            }
        }
    }
}

/// The amount a milestone releases: its basis-point share of the raised
/// total plus matching funds.
pub open spec fn release_amount(c: Campaign, mi: int) -> int {
    sat_add(c.raised as int, c.matching_amount as int) * c.milestones@[mi].percentage / (
    FULL_BASIS_POINTS as int)
}

impl Engine {
    /// Open voting on a milestone: owner only, once the campaign has
    /// succeeded and every earlier milestone has been released, and only
    /// before the milestone's own deadline.
    pub fn activate_milestone_voting(
        &mut self,
        caller: AccountId,
        now: Timestamp,
        campaign_id: u32,
        milestone_index: u32,
    ) -> (result: Result<(), Error>)
        requires
            old(self).wf(),
        ensures
            final(self).wf(),
            engine_evolves(*old(self), *final(self)),
            config_unchanged(*old(self), *final(self)),
            ({
                let verdict = activate_verdict(*old(self), caller, now, campaign_id, milestone_index);
                match verdict {
                    Some(e) => result == Err::<(), Error>(e) && *final(self) == *old(self),
                    None => {
                        let j = old(self).idx_of(campaign_id);
                        let c = old(self).campaigns@[j];
                        let mi = milestone_index as int;
                        let cpost = final(self).campaigns@[j];
                        &&& result == Ok::<(), Error>(())
                        &&& final(self).campaigns@ == old(self).campaigns@.update(j, cpost)
                        &&& cpost == (Campaign { milestones: cpost.milestones, ..c })
                        &&& cpost.milestones@ == c.milestones@.update(
                            mi,
                            (Milestone { voting_active: true, ..c.milestones@[mi] }),
                        )
                        &&& final(self).events@ == old(self).events@.push(
                            Event::MilestoneVotingActivated(MilestoneVotingActivated { campaign_id, milestone_index }),
                        )
                        &&& *final(self) == (Engine {
                            campaigns: final(self).campaigns,
                            events: final(self).events,
                            ..*old(self)
                        })
                    },
                }
            }),
    {
        if campaign_id < self.id_base {
            return Err(Error::CampaignNotFound);
        }
        let idx = (campaign_id - self.id_base) as usize;
        if idx >= self.campaigns.len() {
            return Err(Error::CampaignNotFound);
        }
        if caller != self.campaigns[idx].owner {
            return Err(Error::NotCampaignOwner);
        }
        let successful = matches!(self.campaigns[idx].state, CampaignState::Successful);
        let withdrawn = matches!(self.campaigns[idx].state, CampaignState::Withdrawn);
        if !successful && !withdrawn {
            return Err(Error::CampaignNotSuccessful);
        }
        let mi = milestone_index as usize;
        if mi >= self.campaigns[idx].milestones.len() {
            return Err(Error::MilestoneNotFound);
        }
        if mi > 0 && !self.campaigns[idx].milestones[mi - 1].released {
            return Err(Error::PreviousMilestoneNotReleased);
        }
        if now > self.campaigns[idx].milestones[mi].deadline {
            return Err(Error::DeadlinePassed);
        }
        self.campaigns[idx].milestones[mi].voting_active = true;
        self.events.push(Event::MilestoneVotingActivated(MilestoneVotingActivated { campaign_id, milestone_index }));
        proof {
            let pre = *old(self);
            let post = *self;
            let j = idx as int;
            let cpost = post.campaigns@[j];
            assert(post.campaigns@ =~= pre.campaigns@.update(j, cpost));
            assert(cpost.milestones@ =~= pre.campaigns@[j].milestones@.update(
                mi as int,
                (Milestone { voting_active: true, ..pre.campaigns@[j].milestones@[mi as int] }),
            ));
            lemma_one_campaign_milestones_update(pre, post, j);
        }
        Ok(())
    }

    /// Record a donor's vote on a milestone, weighted by the donor's whole
    /// contribution to the campaign. Each donor votes at most once per
    /// milestone; votes can never be changed.
    pub fn vote_on_milestone(
        &mut self,
        caller: AccountId,
        campaign_id: u32,
        milestone_index: u32,
        approve: bool,
    ) -> (result: Result<(), Error>)
        requires
            old(self).wf(),
        ensures
            final(self).wf(),
            engine_evolves(*old(self), *final(self)),
            config_unchanged(*old(self), *final(self)),
            ({
                let verdict = vote_verdict(*old(self), caller, campaign_id, milestone_index);
                match verdict {
                    Some(e) => result == Err::<(), Error>(e) && *final(self) == *old(self),
                    None => {
                        let j = old(self).idx_of(campaign_id);
                        let c = old(self).campaigns@[j];
                        let mi = milestone_index as int;
                        let m = c.milestones@[mi];
                        let weight = donor_total(old(self).ledger_at(campaign_id), caller);
                        let cpost = final(self).campaigns@[j];
                        &&& result == Ok::<(), Error>(())
                        &&& final(self).campaigns@ == old(self).campaigns@.update(j, cpost)
                        &&& cpost == (Campaign { milestones: cpost.milestones, ..c })
                        &&& cpost.milestones@ == c.milestones@.update(
                            mi,
                            if approve {
                                (Milestone {
                                    votes_for: sat_add(m.votes_for as int, weight) as Balance,
                                    ..m
                                })
                            } else {
                                (Milestone {
                                    votes_against: sat_add(m.votes_against as int, weight) as Balance,
                                    ..m
                                })
                            },
                        )
                        &&& final(self).votes@ == old(self).votes@.push(
                            VoteRecord {
                                campaign_id,
                                milestone_index,
                                voter: caller,
                                weight: weight as Balance,
                            },
                        )
                        &&& final(self).events@ == old(self).events@.push(
                            Event::MilestoneVoted(MilestoneVoted {
                                campaign_id,
                                milestone_index,
                                voter: caller,
                                approve,
                                weight: weight as Balance,
                            }),
                        )
                        &&& *final(self) == (Engine {
                            campaigns: final(self).campaigns,
                            votes: final(self).votes,
                            events: final(self).events,
                            ..*old(self)
                        })
                    },
                }
            }),
    {
        if campaign_id < self.id_base {
            return Err(Error::CampaignNotFound);
        }
        let idx = (campaign_id - self.id_base) as usize;
        if idx >= self.campaigns.len() {
            return Err(Error::CampaignNotFound);
        }
        let mi = milestone_index as usize;
        if mi >= self.campaigns[idx].milestones.len() {
            return Err(Error::MilestoneNotFound);
        }
        if !self.campaigns[idx].milestones[mi].voting_active {
            return Err(Error::VotingNotActive);
        }
        if self.campaigns[idx].milestones[mi].released {
            return Err(Error::MilestoneAlreadyReleased);
        }
        let weight = self.donor_total_of(campaign_id, caller);
        if weight == 0 {
            return Err(Error::NoDonationFound);
        }
        if self.find_vote(campaign_id, milestone_index, caller) {
            return Err(Error::AlreadyVoted);
        }
        self.votes.push(
            VoteRecord { campaign_id, milestone_index, voter: caller, weight },
        );
        if approve {
            let vf = self.campaigns[idx].milestones[mi].votes_for;
            let new_vf = match vf.checked_add(weight) {
                Some(v) => v,
                None => u128::MAX,
            };
            self.campaigns[idx].milestones[mi].votes_for = new_vf;
        } else {
            let va = self.campaigns[idx].milestones[mi].votes_against;
            let new_va = match va.checked_add(weight) {
                Some(v) => v,
                None => u128::MAX,
            };
            self.campaigns[idx].milestones[mi].votes_against = new_va;
        }
        self.events.push(
            Event::MilestoneVoted(MilestoneVoted {
                campaign_id,
                milestone_index,
                voter: caller,
                approve,
                weight,
            }),
        );
        proof {
            let pre = *old(self);
            let post = *self;
            let j = idx as int;
            let m = pre.campaigns@[j].milestones@[mi as int];
            let cpost = post.campaigns@[j];
            assert(post.campaigns@ =~= pre.campaigns@.update(j, cpost));
            assert(cpost.milestones@ =~= pre.campaigns@[j].milestones@.update(
                mi as int,
                if approve {
                    (Milestone { votes_for: sat_add(m.votes_for as int, weight as int) as Balance, ..m })
                } else {
                    (Milestone {
                        votes_against: sat_add(m.votes_against as int, weight as int) as Balance,
                        ..m
                    })
                },
            ));
            assert(vote_keys_unique(post.votes@)) by {
                assert(forall|i: int|
                    0 <= i < pre.votes@.len() ==> !vote_key_is(
                        #[trigger] pre.votes@[i],
                        campaign_id,
                        milestone_index,
                        caller,
                    ));
            }
            crate::engine::lemma_prefix_push(pre.votes@, post.votes@.last());
            lemma_one_campaign_milestones_update(pre, post, j);
        }
        Ok(())
    }
    /// Release a milestone's funds: owner or admin, while voting is open,
    /// and only once. Requires cast votes with at least the weighted
    /// approval threshold; the milestone's basis-point share of the raised
    /// and matching funds goes to the beneficiary. Once the last milestone
    /// is released the campaign is settled as `Withdrawn`.
    pub fn release_milestone_funds(
        &mut self,
        caller: AccountId,
        campaign_id: u32,
        milestone_index: u32,
    ) -> (result: Result<(), Error>)
        requires
            old(self).wf(),
        ensures
            final(self).wf(),
            engine_evolves(*old(self), *final(self)),
            config_unchanged(*old(self), *final(self)),
            ({
                let verdict = release_verdict(*old(self), caller, campaign_id, milestone_index);
                match verdict {
                    Some(e) => result == Err::<(), Error>(e) && *final(self) == *old(self),
                    None => {
                        let j = old(self).idx_of(campaign_id);
                        let c = old(self).campaigns@[j];
                        let mi = milestone_index as int;
                        let amount = release_amount(c, mi);
                        let cpost = final(self).campaigns@[j];
                        &&& result == Ok::<(), Error>(())
                        &&& final(self).campaigns@ == old(self).campaigns@.update(j, cpost)
                        &&& cpost.milestones@ == c.milestones@.update(
                            mi,
                            (Milestone {
                                released: true,
                                voting_active: false,
                                ..c.milestones@[mi]
                            }),
                        )
                        &&& cpost.state == (if all_released(cpost.milestones@) {
                            CampaignState::Withdrawn
                        } else {
                            c.state
                        })
                        &&& cpost == (Campaign {
                            milestones: cpost.milestones,
                            state: cpost.state,
                            ..c
                        })
                        &&& final(self).transfers@ == (if amount > 0 {
                            old(self).transfers@.push(
                                TransferRequest {
                                    to: c.beneficiary,
                                    amount: amount as Balance,
                                },
                            )
                        } else {
                            old(self).transfers@
                        })
                        &&& final(self).events@ == old(self).events@.push(
                            Event::MilestoneFundsReleased(MilestoneFundsReleased {
                                campaign_id,
                                milestone_index,
                                amount: amount as Balance,
                                beneficiary: c.beneficiary,
                            }),
                        )
                        &&& *final(self) == (Engine {
                            campaigns: final(self).campaigns,
                            transfers: final(self).transfers,
                            events: final(self).events,
                            ..*old(self)
                        })
                    },
                }
            }),
    {
        if campaign_id < self.id_base {
            return Err(Error::CampaignNotFound);
        }
        let idx = (campaign_id - self.id_base) as usize;
        if idx >= self.campaigns.len() {
            return Err(Error::CampaignNotFound);
        }
        if caller != self.campaigns[idx].owner && caller != self.admin {
            return Err(Error::NotCampaignOwner);
        }
        let mi = milestone_index as usize;
        if mi >= self.campaigns[idx].milestones.len() {
            return Err(Error::MilestoneNotFound);
        }
        if self.campaigns[idx].milestones[mi].released {
            return Err(Error::MilestoneAlreadyReleased);
        }
        if !self.campaigns[idx].milestones[mi].voting_active {
            return Err(Error::VotingNotActive);
        }
        let votes_for = self.campaigns[idx].milestones[mi].votes_for;
        let votes_against = self.campaigns[idx].milestones[mi].votes_against;
        let total_votes = match votes_for.checked_add(votes_against) {
            Some(t) => t,
            None => {
                return Err(Error::ArithmeticOverflow);
            },
        };
        if total_votes == 0 {
            return Err(Error::NoVotesCast);
        }
        let weighted = match votes_for.checked_mul(100) {
            Some(w) => w,
            None => {
                return Err(Error::ArithmeticOverflow);
            },
        };
        let approval = weighted / total_votes;
        if approval < APPROVAL_THRESHOLD as u128 {
            return Err(Error::ApprovalTooLow);
        }
        let raised = self.campaigns[idx].raised;
        let matching = self.campaigns[idx].matching_amount;
        let total_funds = match raised.checked_add(matching) {
            Some(t) => t,
            None => u128::MAX,
        };
        let percentage = self.campaigns[idx].milestones[mi].percentage;
        let scaled = match total_funds.checked_mul(percentage as u128) {
            Some(s) => s,
            None => {
                return Err(Error::ArithmeticOverflow);
            },
        };
        let amount = scaled / FULL_BASIS_POINTS as u128;
        let beneficiary = self.campaigns[idx].beneficiary;
        if amount > 0 {
            self.transfers.push(TransferRequest { to: beneficiary, amount });
        }
        self.campaigns[idx].milestones[mi].released = true;
        self.campaigns[idx].milestones[mi].voting_active = false;
        // Settle the campaign once its last milestone is released.
        let n = self.campaigns[idx].milestones.len();
        let mut every: bool = true;
        let mut t: usize = 0;
        let ghost mid = *self;
        while t < n
            invariant
                *self == mid,
                0 <= idx < self.campaigns@.len(),
                n == self.campaigns@[idx as int].milestones@.len(),
                0 <= t <= n,
                every == (forall|q: int|
                    0 <= q < t ==> (#[trigger] self.campaigns@[idx as int].milestones@[q]).released),
            decreases n - t,
        {
            if !self.campaigns[idx].milestones[t].released {
                every = false;
            }
            t += 1;
        }
        proof {
            assert(every == all_released(self.campaigns@[idx as int].milestones@));
        }
        if every {
            self.campaigns[idx].state = CampaignState::Withdrawn;
        }
        self.events.push(
            Event::MilestoneFundsReleased(MilestoneFundsReleased {
                campaign_id,
                milestone_index,
                amount,
                beneficiary,
            }),
        );
        proof {
            let pre = *old(self);
            let post = *self;
            let j = idx as int;
            let c = pre.campaigns@[j];
            let cpost = post.campaigns@[j];
            assert(post.campaigns@ =~= pre.campaigns@.update(j, cpost));
            assert(cpost.milestones@ =~= c.milestones@.update(
                mi as int,
                (Milestone { released: true, voting_active: false, ..c.milestones@[mi as int] }),
            ));
            assert(pre.campaign_ok(j));
            assert forall|q: int| 0 <= q < post.campaigns@.len() implies #[trigger] post.campaign_ok(
                q,
            ) by {
                assert(pre.campaign_ok(q));
                if q != j {
                    assert(post.campaigns@[q] == pre.campaigns@[q]);
                } else {
                    lemma_sum_percentages_same(c.milestones@, cpost.milestones@);
                }
            }
            assert forall|q: int| 0 <= q < pre.campaigns@.len() implies campaign_evolves(
                #[trigger] pre.campaigns@[q],
                post.campaigns@[q],
            ) by {
                if q != j {
                    assert(post.campaigns@[q] == pre.campaigns@[q]);
                } else {
                    assert(c.state != CampaignState::Active);
                    assert(state_reachable(c.state, cpost.state));
                }
            }
            assert forall|q: int| 0 <= q < pre.donations@.len() implies (
            #[trigger] pre.donations@[q]@).is_prefix_of(post.donations@[q]@) by {
                lemma_prefix_refl(pre.donations@[q]@);
            }
            lemma_prefix_refl(pre.refund_claims@);
            lemma_prefix_refl(pre.unique_donors@);
            lemma_prefix_refl(pre.votes@);
            if post.transfers@.len() > pre.transfers@.len() {
                lemma_prefix_push(pre.transfers@, post.transfers@.last());
            } else {
                lemma_prefix_refl(pre.transfers@);
            }
            lemma_prefix_refl(pre.receipts@);
            lemma_prefix_push(pre.events@, post.events@.last());
        }
        Ok(())
    }

    /// The milestones of a campaign, as values.
    pub fn get_milestones(&self, campaign_id: u32) -> (result: Option<Vec<Milestone>>)
        requires
            self.wf(),
        ensures
            match result {
                Some(v) => {
                    &&& self.has_campaign(campaign_id)
                    &&& v@.len() == self.campaign_at(campaign_id).milestones@.len()
                    &&& (forall|i: int|
                        0 <= i < v@.len() ==> milestone_eq(
                            #[trigger] v@[i],
                            self.campaign_at(campaign_id).milestones@[i],
                        ))
                },
                None => !self.has_campaign(campaign_id),
            },
    {
        if campaign_id < self.id_base {
            return None;
        }
        let idx = (campaign_id - self.id_base) as usize;
        if idx >= self.campaigns.len() {
            return None;
        }
        let ms = &self.campaigns[idx].milestones;
        let n = ms.len();
        let mut out: Vec<Milestone> = Vec::new();
        let mut i: usize = 0;
        while i < n
            invariant
                self.wf(),
                self.has_campaign(campaign_id),
                idx == self.idx_of(campaign_id),
                0 <= idx < self.campaigns@.len(),
                ms == &self.campaigns@[idx as int].milestones,
                n == ms@.len(),
                0 <= i <= n,
                out@.len() == i,
                forall|q: int| 0 <= q < i ==> milestone_eq(#[trigger] out@[q], ms@[q]),
            decreases n - i,
        {
            out.push(ms[i].duplicate());
            i += 1;
        }
        Some(out)
    }

    /// Whether the voter has already voted on the milestone.
    pub fn has_voted_on_milestone(
        &self,
        campaign_id: u32,
        milestone_index: u32,
        voter: AccountId,
    ) -> (r: bool)
        ensures
            r == has_vote(self.votes@, campaign_id, milestone_index, voter),
    {
        self.find_vote(campaign_id, milestone_index, voter)
    }

    /// The weight a voter cast on a milestone, or zero without a vote.
    pub fn get_vote_weight(
        &self,
        campaign_id: u32,
        milestone_index: u32,
        voter: AccountId,
    ) -> (r: Balance)
        requires
            self.wf(),
        ensures
            r == vote_weight_spec(self.votes@, campaign_id, milestone_index, voter),
    {
        let n = self.votes.len();
        let mut i: usize = 0;
        while i < n
            invariant
                self.wf(),
                n == self.votes@.len(),
                0 <= i <= n,
                forall|t: int|
                    0 <= t < i ==> !vote_key_is(
                        #[trigger] self.votes@[t],
                        campaign_id,
                        milestone_index,
                        voter,
                    ),
            decreases n - i,
        {
            if self.votes[i].campaign_id == campaign_id && self.votes[i].milestone_index
                == milestone_index && self.votes[i].voter == voter {
                proof {
                    crate::types::lemma_vote_weight_found(
                        self.votes@,
                        campaign_id,
                        milestone_index,
                        voter,
                        i as int,
                    );
                }
                return self.votes[i].weight;
            }
            i += 1;
        }
        proof {
            assert(!has_vote(self.votes@, campaign_id, milestone_index, voter)) by {
                if has_vote(self.votes@, campaign_id, milestone_index, voter) {
                    let t = choose|t: int|
                        0 <= t < self.votes@.len() && vote_key_is(
                            #[trigger] self.votes@[t],
                            campaign_id,
                            milestone_index,
                            voter,
                        );
                    assert(!vote_key_is(self.votes@[t], campaign_id, milestone_index, voter));
                }
            }
            crate::types::lemma_vote_weight_absent(
                self.votes@,
                campaign_id,
                milestone_index,
                voter,
            );
        }
        0
    }
}

/// Proof helper for entry points that change one campaign's milestone list
/// without touching its identity, funds, state or flags: well-formedness
/// and monotonic evolution carry over, provided the changed list keeps
/// every percentage, every released flag, the length, and — on active
/// campaigns — the untouched vote state.
proof fn lemma_one_campaign_milestones_update(pre: Engine, post: Engine, j: int)
    requires
        pre.wf(),
        0 <= j < pre.campaigns@.len(),
        post.campaigns@.len() == pre.campaigns@.len(),
        post.campaigns@ == pre.campaigns@.update(j, post.campaigns@[j]),
        post.campaigns@[j] == (Campaign {
            milestones: post.campaigns@[j].milestones,
            ..pre.campaigns@[j]
        }),
        post.campaigns@[j].milestones@.len() == pre.campaigns@[j].milestones@.len(),
        forall|m: int|
            0 <= m < pre.campaigns@[j].milestones@.len() ==> {
                let mpre = pre.campaigns@[j].milestones@[m];
                let mpost = #[trigger] post.campaigns@[j].milestones@[m];
                mpost.percentage == mpre.percentage && mpost.released == mpre.released
                    && (pre.campaigns@[j].state != CampaignState::Active
                    || mpost.voting_active == mpre.voting_active)
            },
        post.donations@ == pre.donations@,
        post.rounds@ == pre.rounds@,
        post.id_base == pre.id_base,
        post.current_round == pre.current_round,
        post.admin == pre.admin,
        post.treasury == pre.treasury,
        post.refund_claims@ == pre.refund_claims@,
        post.unique_donors@ == pre.unique_donors@,
        pre.votes@.is_prefix_of(post.votes@),
        vote_keys_unique(post.votes@),
        post.transfers@ == pre.transfers@,
        post.receipts@ == pre.receipts@,
        pre.events@.is_prefix_of(post.events@),
    ensures
        post.wf(),
        engine_evolves(pre, post),
{
    assert forall|q: int| 0 <= q < post.campaigns@.len() implies #[trigger] post.campaign_ok(
        q,
    ) by {
        assert(pre.campaign_ok(q));
        if q != j {
            assert(post.campaigns@[q] == pre.campaigns@[q]);
        } else {
            let cpre = pre.campaigns@[j];
            let cpost = post.campaigns@[j];
            assert(sum_percentages(cpost.milestones@) == sum_percentages(cpre.milestones@)) by {
                lemma_sum_percentages_same(cpre.milestones@, cpost.milestones@);
            }
        }
    }
    assert forall|q: int| 0 <= q < pre.campaigns@.len() implies campaign_evolves(
        #[trigger] pre.campaigns@[q],
        post.campaigns@[q],
    ) by {
        if q != j {
            assert(post.campaigns@[q] == pre.campaigns@[q]);
        }
    }
    assert forall|q: int| 0 <= q < pre.donations@.len() implies (
    #[trigger] pre.donations@[q]@).is_prefix_of(post.donations@[q]@) by {
        lemma_prefix_refl(pre.donations@[q]@);
    }
    lemma_prefix_refl(pre.refund_claims@);
    lemma_prefix_refl(pre.unique_donors@);
    lemma_prefix_refl(pre.transfers@);
    lemma_prefix_refl(pre.receipts@);
}

/// Two milestone lists with pointwise equal percentages have the same sum.
proof fn lemma_sum_percentages_same(a: Seq<Milestone>, b: Seq<Milestone>)
    requires
        a.len() == b.len(),
        forall|m: int| 0 <= m < a.len() ==> (#[trigger] a[m]).percentage == b[m].percentage,
    ensures
        sum_percentages(a) == sum_percentages(b),
    decreases a.len(),
{
    if a.len() > 0 {
        assert forall|m: int|
            0 <= m < a.drop_last().len() implies (#[trigger] a.drop_last()[m]).percentage
            == b.drop_last()[m].percentage by {
            assert(a.drop_last()[m] == a[m]);
            assert(b.drop_last()[m] == b[m]);
        }
        lemma_sum_percentages_same(a.drop_last(), b.drop_last());
        assert(a.last().percentage == b.last().percentage) by {
            assert(a[a.len() - 1].percentage == b[a.len() - 1].percentage);
        }
    }
}

impl Engine {
    /// Whether a vote under the given key was recorded: a linear scan.
    pub(crate) fn find_vote(&self, campaign_id: u32, milestone_index: u32, voter: AccountId)
        -> (r: bool)
        ensures
            r == has_vote(self.votes@, campaign_id, milestone_index, voter),
    {
        let n = self.votes.len();
        let mut i: usize = 0;
        while i < n
            invariant
                n == self.votes@.len(),
                0 <= i <= n,
                forall|t: int|
                    0 <= t < i ==> !vote_key_is(
                        #[trigger] self.votes@[t],
                        campaign_id,
                        milestone_index,
                        voter,
                    ),
            decreases n - i,
        {
            if self.votes[i].campaign_id == campaign_id && self.votes[i].milestone_index
                == milestone_index && self.votes[i].voter == voter {
                assert(vote_key_is(self.votes@[i as int], campaign_id, milestone_index, voter));
                return true;
            }
            i += 1;
        }
        false
    }
}


/// A prefix's percentage sum never exceeds the whole sum.
pub proof fn lemma_sum_item_take_le(items: Seq<MilestoneRequest>, k: int)
    requires
        0 <= k <= items.len(),
    ensures
        sum_item_percentages(items.take(k)) <= sum_item_percentages(items),
    decreases items.len() - k,
{
    if k == items.len() {
        assert(items.take(k) =~= items);
    } else {
        lemma_sum_item_take_le(items, k + 1);
        assert(items.take(k + 1).drop_last() =~= items.take(k));
        assert(items.take(k + 1).last() == items[k]);
    }
}

/// A list built to match the requests has the requests' percentage sum.
proof fn lemma_sum_matches(ms: Seq<Milestone>, items: Seq<MilestoneRequest>, now: Timestamp)
    requires
        ms.len() == items.len(),
        forall|t: int| 0 <= t < items.len() ==> milestone_matches(#[trigger] ms[t], items[t], now),
    ensures
        sum_percentages(ms) == sum_item_percentages(items),
    decreases ms.len(),
{
    if ms.len() > 0 {
        assert forall|t: int|
            0 <= t < items.drop_last().len() implies milestone_matches(
            #[trigger] ms.drop_last()[t],
            items.drop_last()[t],
            now,
        ) by {
            assert(ms.drop_last()[t] == ms[t]);
            assert(items.drop_last()[t] == items[t]);
        }
        lemma_sum_matches(ms.drop_last(), items.drop_last(), now);
        assert(milestone_matches(ms.last(), items.last(), now));
    }
}

} // verus!
