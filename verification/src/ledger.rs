//! Donation ledger and fee engine: accepting contributions, charging the
//! platform fee, and the lazy deadline transition.

use vstd::prelude::*;

use crate::engine::{
    campaign_evolves, engine_evolves, lemma_prefix_push, lemma_prefix_refl, pair_contains, Engine,
};
use crate::types::{
    donations_wf, has_pair, lemma_sum_amounts_push, pair_keys_unique, state_reachable, AccountId,
    Balance, Campaign, CampaignState, Donation, Error, Event, ReceiptRequest, Timestamp,
    TransferRequest, FEE_PERCENT, MAX_DONATION, MIN_DONATION,
};

use crate::types::{CampaignStateChanged, DonationReceived};

verus! {

/// The platform fee charged on a donation: a fixed percentage, rounded down.
pub open spec fn fee_of(amount: Balance) -> int {
    amount * FEE_PERCENT / 100
}

/// The validation verdict of a donation, in the order the checks are made:
/// `None` means the donation is accepted.
pub open spec fn donate_verdict(
    pre: Engine,
    now: Timestamp,
    campaign_id: u32,
    amount: Balance,
) -> Option<Error> {
    if amount < MIN_DONATION || amount > MAX_DONATION {
        Some(Error::InvalidDonationAmount)
    } else if !pre.has_campaign(campaign_id) {
        Some(Error::CampaignNotFound)
    } else if pre.campaign_at(campaign_id).state != CampaignState::Active {
        Some(Error::CampaignNotActive)
    } else if now > pre.campaign_at(campaign_id).deadline {
        Some(Error::DeadlinePassed)
    } else if pre.campaign_at(campaign_id).donation_count == u32::MAX {
        Some(Error::ArithmeticOverflow)
    } else {
        None
    }
}

/// Two engine states that agree on everything but the reentrancy lock.
pub open spec fn same_except_lock(pre: Engine, post: Engine) -> bool {
    post == (Engine { locked: post.locked, ..pre })
}

/// The full input/output relation of a donation, lock aside.
///
/// A rejected donation leaves the state untouched, with one deliberate
/// exception: a donation to an active campaign whose deadline has passed
/// marks that campaign `Failed` (deadlines are evaluated lazily, on touch)
/// and is then rejected. An accepted donation records the gross amount in
/// the ledger, raises the campaign's total by it, requests the fee transfer
/// to the treasury, marks the donor, and — once the goal is reached — moves
/// the campaign to `Successful`. If receipts are enabled, a best-effort
/// receipt mint is requested; its outcome never affects the donation.
pub open spec fn donate_post(
    pre: Engine,
    post: Engine,
    result: Result<(), Error>,
    caller: AccountId,
    now: Timestamp,
    campaign_id: u32,
    amount: Balance,
) -> bool {
    match donate_verdict(pre, now, campaign_id, amount) {
        Some(e) => result == Err::<(), Error>(e) && if e == Error::DeadlinePassed {
            let j = pre.idx_of(campaign_id);
            let c = pre.campaigns@[j];
            &&& post.campaigns@ == pre.campaigns@.update(
                j,
                (Campaign { state: CampaignState::Failed, ..c }),
            )
            &&& post.events@ == pre.events@.push(
                Event::CampaignStateChanged(CampaignStateChanged {
                    campaign_id,
                    state: CampaignState::Failed,
                    timestamp: now,
                }),
            )
            &&& post == (Engine {
                locked: post.locked,
                campaigns: post.campaigns,
                events: post.events,
                ..pre
            })
        } else {
            same_except_lock(pre, post)
        },
        None => {
            let j = pre.idx_of(campaign_id);
            let c = pre.campaigns@[j];
            let new_raised = (c.raised + amount) as Balance;
            let new_state = if new_raised >= c.goal {
                CampaignState::Successful
            } else {
                CampaignState::Active
            };
            &&& result == Ok::<(), Error>(())
            &&& post.campaigns@ == pre.campaigns@.update(
                j,
                (Campaign {
                    raised: new_raised,
                    donation_count: (c.donation_count + 1) as u32,
                    state: new_state,
                    ..c
                }),
            )
            &&& post.ledgers() == pre.ledgers().update(
                j,
                pre.ledgers()[j].push(Donation { donor: caller, amount, timestamp: now }),
            )
            &&& post.transfers@ == pre.transfers@.push(
                TransferRequest { to: pre.treasury, amount: fee_of(amount) as Balance },
            )
            &&& post.unique_donors@ == if has_pair(pre.unique_donors@, campaign_id, caller) {
                pre.unique_donors@
            } else {
                pre.unique_donors@.push((campaign_id, caller))
            }
            &&& post.events@ == pre.events@.push(
                Event::DonationReceived(DonationReceived { campaign_id, donor: caller, amount }),
            )
            &&& post.receipts@ == if pre.nft_enabled && pre.nft_contract is Some {
                pre.receipts@.push(
                    ReceiptRequest {
                        nft_contract: pre.nft_contract.unwrap(),
                        donor: caller,
                        campaign_id,
                        campaign_title: c.title,
                        amount,
                        timestamp: now,
                    },
                )
            } else {
                pre.receipts@
            }
            &&& post == (Engine {
                locked: post.locked,
                campaigns: post.campaigns,
                donations: post.donations,
                transfers: post.transfers,
                unique_donors: post.unique_donors,
                events: post.events,
                receipts: post.receipts,
                ..pre
            })
        },
    }
}

impl Engine {
    /// Accept a donation: the inner, lock-free path. Batch and guarded
    /// callers share it. The donated value is `amount`; the host has
    /// already received it, so the engine only accounts for it and requests
    /// the fee transfer.
    pub fn process_donation(
        &mut self,
        caller: AccountId,
        now: Timestamp,
        campaign_id: u32,
        amount: Balance,
    ) -> (result: Result<(), Error>)
        requires
            old(self).wf(),
        ensures
            final(self).wf(),
            engine_evolves(*old(self), *final(self)),
            final(self).locked == old(self).locked,
            donate_post(*old(self), *final(self), result, caller, now, campaign_id, amount),
    {
        if amount < MIN_DONATION || amount > MAX_DONATION {
            return Err(Error::InvalidDonationAmount);
        }
        if campaign_id < self.id_base {
            return Err(Error::CampaignNotFound);
        }
        let idx = (campaign_id - self.id_base) as usize;
        if idx >= self.campaigns.len() {
            return Err(Error::CampaignNotFound);
        }
        proof {
            assert(self.campaign_ok(idx as int));
        }
        if !matches!(self.campaigns[idx].state, CampaignState::Active) {
            return Err(Error::CampaignNotActive);
        }
        if now > self.campaigns[idx].deadline {
            // Lazy deadline evaluation: the touch itself fails the campaign.
            self.campaigns[idx].state = CampaignState::Failed;
            self.events.push(
                Event::CampaignStateChanged(CampaignStateChanged {
                    campaign_id,
                    state: CampaignState::Failed,
                    timestamp: now,
                }),
            );
            proof {
                lemma_donation_lazy_fail(*old(self), *self, campaign_id, idx as int, now);
            }
            return Err(Error::DeadlinePassed);
        }
        if self.campaigns[idx].donation_count == u32::MAX {
            return Err(Error::ArithmeticOverflow);
        }
        // The fee goes to the treasury immediately; the ledger records gross.
        let fee: Balance = amount * 3 / 100;
        self.transfers.push(TransferRequest { to: self.treasury, amount: fee });
        let new_raised: Balance = self.campaigns[idx].raised + amount;
        let new_count: u32 = self.campaigns[idx].donation_count + 1;
        self.campaigns[idx].raised = new_raised;
        self.campaigns[idx].donation_count = new_count;
        if new_raised >= self.campaigns[idx].goal {
            self.campaigns[idx].state = CampaignState::Successful;
        }
        self.donations[idx].push(Donation { donor: caller, amount, timestamp: now });
        let donor_known = pair_contains(&self.unique_donors, campaign_id, caller);
        if !donor_known {
            self.unique_donors.push((campaign_id, caller));
        }
        self.events.push(Event::DonationReceived(DonationReceived { campaign_id, donor: caller, amount }));
        if self.nft_enabled {
            if let Some(addr) = self.nft_contract {
                let campaign_title = self.campaigns[idx].title.clone();
                self.receipts.push(
                    ReceiptRequest {
                        nft_contract: addr,
                        donor: caller,
                        campaign_id,
                        campaign_title,
                        amount,
                        timestamp: now,
                    },
                );
            }
        }
        proof {
            let j = idx as int;
            let c = old(self).campaigns@[j];
            assert(self.campaigns@ =~= old(self).campaigns@.update(
                j,
                (Campaign {
                    raised: (c.raised + amount) as Balance,
                    donation_count: (c.donation_count + 1) as u32,
                    state: if c.raised + amount >= c.goal {
                        CampaignState::Successful
                    } else {
                        CampaignState::Active
                    },
                    ..c
                }),
            ));
            assert(self.donations@ =~= old(self).donations@.update(j, self.donations@[j]));
            lemma_donation_success(*old(self), *self, caller, now, campaign_id, idx as int, amount);
        }
        Ok(())
    }

    /// Donate to a campaign: the guarded entry point. While the reentrancy
    /// lock is held this fails fast with `ReentrantCall` and changes
    /// nothing; otherwise it behaves as `process_donation` and restores the
    /// lock on every path.
    pub fn donate(&mut self, caller: AccountId, now: Timestamp, campaign_id: u32, amount: Balance)
        -> (result: Result<(), Error>)
        requires
            old(self).wf(),
        ensures
            final(self).wf(),
            engine_evolves(*old(self), *final(self)),
            old(self).locked ==> result == Err::<(), Error>(Error::ReentrantCall) && *final(self)
                == *old(self),
            !old(self).locked ==> final(self).locked == old(self).locked && donate_post(
                *old(self),
                *final(self),
                result,
                caller,
                now,
                campaign_id,
                amount,
            ),
    {
        if self.locked {
            return Err(Error::ReentrantCall);
        }
        self.locked = true;
        proof {
            crate::engine::lemma_wf_same_records(*old(self), *self);
        }
        let ghost mid_pre = *self;
        let result = self.process_donation(caller, now, campaign_id, amount);
        let ghost mid_post = *self;
        self.locked = false;
        proof {
            crate::engine::lemma_wf_same_records(mid_post, *self);
            assert(donate_verdict(mid_pre, now, campaign_id, amount) == donate_verdict(
                *old(self),
                now,
                campaign_id,
                amount,
            ));
            assert(donate_post(*old(self), *self, result, caller, now, campaign_id, amount));
        }
        result
    }
}

/// Proof that the lazy deadline transition preserves well-formedness and
/// monotonicity and matches the stated relation.
proof fn lemma_donation_lazy_fail(pre: Engine, post: Engine, campaign_id: u32, j: int, now: u64)
    requires
        pre.wf(),
        pre.has_campaign(campaign_id),
        j == pre.idx_of(campaign_id),
        pre.campaigns@[j].state == CampaignState::Active,
        post.campaigns@ == pre.campaigns@.update(
            j,
            (Campaign { state: CampaignState::Failed, ..pre.campaigns@[j] }),
        ),
        post.events@ == pre.events@.push(
            Event::CampaignStateChanged(CampaignStateChanged {
                campaign_id,
                state: CampaignState::Failed,
                timestamp: now,
            }),
        ),
        post == (Engine {
            locked: post.locked,
            campaigns: post.campaigns,
            events: post.events,
            ..pre
        }),
        post.locked == pre.locked,
    ensures
        post.wf(),
        engine_evolves(pre, post),
{
    assert forall|k: int| 0 <= k < post.campaigns@.len() implies #[trigger] post.campaign_ok(
        k,
    ) by {
        assert(pre.campaign_ok(k));
        if k != j {
            assert(post.campaigns@[k] == pre.campaigns@[k]);
        }
    }
    assert forall|k: int| 0 <= k < pre.campaigns@.len() implies campaign_evolves(
        #[trigger] pre.campaigns@[k],
        post.campaigns@[k],
    ) by {
        if k != j {
            assert(post.campaigns@[k] == pre.campaigns@[k]);
        }
    }
    assert forall|k: int| 0 <= k < pre.donations@.len() implies (
    #[trigger] pre.donations@[k]@).is_prefix_of(post.donations@[k]@) by {
        lemma_prefix_refl(pre.donations@[k]@);
    }
    lemma_prefix_refl(pre.refund_claims@);
    lemma_prefix_refl(pre.unique_donors@);
    lemma_prefix_refl(pre.votes@);
    lemma_prefix_refl(pre.transfers@);
    lemma_prefix_refl(pre.receipts@);
    lemma_prefix_push(pre.events@, post.events@.last());
}

/// Proof that an accepted donation preserves well-formedness and
/// monotonicity.
proof fn lemma_donation_success(
    pre: Engine,
    post: Engine,
    caller: AccountId,
    now: Timestamp,
    campaign_id: u32,
    j: int,
    amount: Balance,
)
    requires
        pre.wf(),
        donate_verdict(pre, now, campaign_id, amount) is None,
        j == pre.idx_of(campaign_id),
        post.campaigns@ == pre.campaigns@.update(
            j,
            (Campaign {
                raised: (pre.campaigns@[j].raised + amount) as Balance,
                donation_count: (pre.campaigns@[j].donation_count + 1) as u32,
                state: if pre.campaigns@[j].raised + amount >= pre.campaigns@[j].goal {
                    CampaignState::Successful
                } else {
                    CampaignState::Active
                },
                ..pre.campaigns@[j]
            }),
        ),
        post.donations@ == pre.donations@.update(
            j,
            post.donations@[j],
        ),
        post.donations@[j]@ == pre.donations@[j]@.push(
            Donation { donor: caller, amount, timestamp: now },
        ),
        post.transfers@ == pre.transfers@.push(
            TransferRequest { to: pre.treasury, amount: (fee_of(amount)) as Balance },
        ),
        post.unique_donors@ == if has_pair(pre.unique_donors@, campaign_id, caller) {
            pre.unique_donors@
        } else {
            pre.unique_donors@.push((campaign_id, caller))
        },
        post.events@ == pre.events@.push(
            Event::DonationReceived(DonationReceived { campaign_id, donor: caller, amount }),
        ),
        post.receipts@ == if pre.nft_enabled && pre.nft_contract is Some {
            pre.receipts@.push(
                ReceiptRequest {
                    nft_contract: pre.nft_contract.unwrap(),
                    donor: caller,
                    campaign_id,
                    campaign_title: pre.campaigns@[j].title,
                    amount,
                    timestamp: now,
                },
            )
        } else {
            pre.receipts@
        },
        post == (Engine {
            locked: post.locked,
            campaigns: post.campaigns,
            donations: post.donations,
            transfers: post.transfers,
            unique_donors: post.unique_donors,
            events: post.events,
            receipts: post.receipts,
            ..pre
        }),
        post.locked == pre.locked,
    ensures
        post.wf(),
        engine_evolves(pre, post),
        post.ledgers() == pre.ledgers().update(
            j,
            pre.ledgers()[j].push(Donation { donor: caller, amount, timestamp: now }),
        ),
{
    assert(pre.campaign_ok(j));
    let d = Donation { donor: caller, amount, timestamp: now };
    lemma_sum_amounts_push(pre.donations@[j]@, d);
    assert(post.ledgers() =~= pre.ledgers().update(j, pre.ledgers()[j].push(d)));
    assert forall|k: int| 0 <= k < post.campaigns@.len() implies #[trigger] post.campaign_ok(
        k,
    ) by {
        assert(pre.campaign_ok(k));
        if k != j {
            assert(post.campaigns@[k] == pre.campaigns@[k]);
            assert(post.donations@[k] == pre.donations@[k]);
        } else {
            assert(donations_wf(post.donations@[k]@));
        }
    }
    assert forall|k: int| 0 <= k < pre.campaigns@.len() implies campaign_evolves(
        #[trigger] pre.campaigns@[k],
        post.campaigns@[k],
    ) by {
        if k != j {
            assert(post.campaigns@[k] == pre.campaigns@[k]);
        } else {
            let cpre = pre.campaigns@[j];
            let cpost = post.campaigns@[j];
            assert(cpre.raised + amount <= u128::MAX);
            assert(cpost.raised == cpre.raised + amount);
            assert(cpre.state == CampaignState::Active);
            assert(state_reachable(cpre.state, cpost.state));
            assert(cpost.milestones == cpre.milestones);
            assert(campaign_evolves(cpre, cpost));
        }
    }
    assert forall|k: int| 0 <= k < pre.donations@.len() implies (
    #[trigger] pre.donations@[k]@).is_prefix_of(post.donations@[k]@) by {
        if k != j {
            lemma_prefix_refl(pre.donations@[k]@);
        } else {
            lemma_prefix_push(pre.donations@[k]@, d);
        }
    }
    if !has_pair(pre.unique_donors@, campaign_id, caller) {
        assert(pair_keys_unique(post.unique_donors@)) by {
            assert(forall|i: int|
                0 <= i < pre.unique_donors@.len() ==> pre.unique_donors@[i] != (
                campaign_id,
                caller,
                ));
        }
        lemma_prefix_push(pre.unique_donors@, (campaign_id, caller));
    } else {
        lemma_prefix_refl(pre.unique_donors@);
    }
    lemma_prefix_refl(pre.refund_claims@);
    lemma_prefix_refl(pre.votes@);
    lemma_prefix_push(pre.transfers@, post.transfers@.last());
    if pre.nft_enabled && pre.nft_contract is Some {
        lemma_prefix_push(pre.receipts@, post.receipts@.last());
    } else {
        lemma_prefix_refl(pre.receipts@);
    }
    lemma_prefix_push(pre.events@, post.events@.last());
}

} // verus!
