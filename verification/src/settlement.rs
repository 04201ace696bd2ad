//! Settlement: withdrawing campaign funds to the beneficiary and refunding
//! donors of failed campaigns.

use vstd::prelude::*;

use crate::engine::{
    campaign_evolves, engine_evolves, lemma_prefix_push, lemma_prefix_refl, lemma_wf_same_records,
    pair_contains, Engine,
};
use crate::ledger::{fee_of, same_except_lock};
use crate::types::{
    donor_total, has_pair, lemma_donor_total_le_sum, lemma_donor_total_take_step,
    lemma_sum_amounts_take_le, pair_keys_unique, AccountId, Balance, BatchResult, Campaign,
    CampaignState, Error, Event, Timestamp, TransferRequest,
};

use crate::types::{FundsWithdrawn, RefundClaimed};

verus! {

/// The validation verdict of a withdrawal, in the order the checks are
/// made: `None` means the withdrawal will be performed (possibly as the
/// terminal no-transfer settlement of an empty campaign).
pub open spec fn withdraw_verdict(
    pre: Engine,
    caller: AccountId,
    now: Timestamp,
    campaign_id: u32,
) -> Option<Error> {
    if !pre.has_campaign(campaign_id) {
        Some(Error::CampaignNotFound)
    } else {
        let c = pre.campaign_at(campaign_id);
        if caller != c.owner && caller != pre.admin {
            Some(Error::NotCampaignOwner)
        } else if c.state == CampaignState::Withdrawn {
            Some(Error::FundsAlreadyWithdrawn)
        } else if c.state != CampaignState::Successful && now <= c.deadline {
            Some(Error::GoalNotReached)
        } else if c.raised == 0 && c.matching_amount == 0 {
            None
        } else if c.raised - fee_of(c.raised) + c.matching_amount > u128::MAX {
            Some(Error::ArithmeticOverflow)
        } else {
            None
        }
    }
}

/// The net amount paid out on withdrawal: the gross raised total minus the
/// platform fee already taken at donation time, plus any matching funds.
pub open spec fn payout_of(c: Campaign) -> int {
    c.raised - fee_of(c.raised) + c.matching_amount
}

/// The full input/output relation of a withdrawal, lock aside.
///
/// A rejected withdrawal leaves the state untouched. An accepted one on a
/// campaign with nothing to pay (nothing raised, no matching) marks the
/// campaign `Failed`, transfers nothing, and still reports success. An
/// accepted one otherwise transfers the net payout to the beneficiary and
/// marks the campaign `Withdrawn`.
pub open spec fn withdraw_post(
    pre: Engine,
    post: Engine,
    result: Result<(), Error>,
    caller: AccountId,
    now: Timestamp,
    campaign_id: u32,
) -> bool {
    match withdraw_verdict(pre, caller, now, campaign_id) {
        Some(e) => result == Err::<(), Error>(e) && same_except_lock(pre, post),
        None => {
            let j = pre.idx_of(campaign_id);
            let c = pre.campaigns@[j];
            &&& result == Ok::<(), Error>(())
            &&& if c.raised == 0 && c.matching_amount == 0 {
                &&& post.campaigns@ == pre.campaigns@.update(
                    j,
                    (Campaign { state: CampaignState::Failed, ..c }),
                )
                &&& post == (Engine { locked: post.locked, campaigns: post.campaigns, ..pre })
            } else {
                &&& post.campaigns@ == pre.campaigns@.update(
                    j,
                    (Campaign { state: CampaignState::Withdrawn, ..c }),
                )
                &&& post.transfers@ == pre.transfers@.push(
                    TransferRequest { to: c.beneficiary, amount: payout_of(c) as Balance },
                )
                &&& post.events@ == pre.events@.push(
                    Event::FundsWithdrawn(FundsWithdrawn {
                        campaign_id,
                        beneficiary: c.beneficiary,
                        amount: payout_of(c) as Balance,
                    }),
                )
                &&& post == (Engine {
                    locked: post.locked,
                    campaigns: post.campaigns,
                    transfers: post.transfers,
                    events: post.events,
                    ..pre
                })
            }
        },
    }
}

/// The fee never exceeds the amount it is taken from.
pub proof fn lemma_fee_le(amount: Balance)
    ensures
        0 <= fee_of(amount) <= amount,
{
    vstd::arithmetic::div_mod::lemma_div_is_ordered(
        amount * 3,
        amount * 100,
        100,
    );
    assert(amount * 3 <= amount * 100) by (nonlinear_arith) {}
    assert((amount * 100) / 100 == amount) by {
        vstd::arithmetic::div_mod::lemma_div_multiples_vanish(amount as int, 100);
        assert(100 * amount == amount * 100) by (nonlinear_arith) {}
    }
    assert(amount * 3 >= 0) by (nonlinear_arith) {}
    vstd::arithmetic::div_mod::lemma_div_pos_is_pos(amount * 3, 100);
}

impl Engine {
    /// Withdraw a campaign's funds: the inner, lock-free path shared by the
    /// guarded entry point and the batch.
    pub fn process_withdrawal(&mut self, caller: AccountId, now: Timestamp, campaign_id: u32)
        -> (result: Result<(), Error>)
        requires
            old(self).wf(),
        ensures
            final(self).wf(),
            engine_evolves(*old(self), *final(self)),
            final(self).locked == old(self).locked,
            withdraw_post(*old(self), *final(self), result, caller, now, campaign_id),
    {
        if campaign_id < self.id_base {
            return Err(Error::CampaignNotFound);
        }
        let idx = (campaign_id - self.id_base) as usize;
        if idx >= self.campaigns.len() {
            return Err(Error::CampaignNotFound);
        }
        proof {
            assert(self.campaign_ok(idx as int));
        }
        if caller != self.campaigns[idx].owner && caller != self.admin {
            return Err(Error::NotCampaignOwner);
        }
        if matches!(self.campaigns[idx].state, CampaignState::Withdrawn) {
            return Err(Error::FundsAlreadyWithdrawn);
        }
        let is_successful = matches!(self.campaigns[idx].state, CampaignState::Successful);
        let deadline_passed = now > self.campaigns[idx].deadline;
        if !is_successful && !deadline_passed {
            return Err(Error::GoalNotReached);
        }
        if self.campaigns[idx].raised == 0 && self.campaigns[idx].matching_amount == 0 {
            // Nothing was ever raised: settle terminally with no transfer.
            self.campaigns[idx].state = CampaignState::Failed;
            proof {
                lemma_withdraw_state_only(
                    *old(self),
                    *self,
                    idx as int,
                    CampaignState::Failed,
                );
            }
            return Ok(());
        }
        let raised = self.campaigns[idx].raised;
        let fee_total: Balance = raised * 3 / 100;
        proof {
            lemma_fee_le(raised);
        }
        let net = raised - fee_total;
        let matching = self.campaigns[idx].matching_amount;
        if net > u128::MAX - matching {
            return Err(Error::ArithmeticOverflow);
        }
        let total = net + matching;
        let beneficiary = self.campaigns[idx].beneficiary;
        self.transfers.push(TransferRequest { to: beneficiary, amount: total });
        self.campaigns[idx].state = CampaignState::Withdrawn;
        self.events.push(
            Event::FundsWithdrawn(FundsWithdrawn { campaign_id, beneficiary, amount: total }),
        );
        proof {
            let pre = *old(self);
            let post = *self;
            let j = idx as int;
            assert(post.campaigns@ =~= pre.campaigns@.update(
                j,
                (Campaign { state: CampaignState::Withdrawn, ..pre.campaigns@[j] }),
            ));
            assert forall|k: int| 0 <= k < post.campaigns@.len() implies #[trigger] post.campaign_ok(
                k,
            ) by {
                assert(pre.campaign_ok(k));
                if k != j {
                    assert(post.campaigns@[k] == pre.campaigns@[k]);
                }
            }
            assert forall|k: int| 0 <= k < pre.campaigns@.len() implies campaign_evolves(
                #[trigger] pre.campaigns@[k],
                post.campaigns@[k],
            ) by {
                if k != j {
                    assert(post.campaigns@[k] == pre.campaigns@[k]);
                }
            }
            assert forall|k: int| 0 <= k < pre.donations@.len() implies (
            #[trigger] pre.donations@[k]@).is_prefix_of(post.donations@[k]@) by {
                lemma_prefix_refl(pre.donations@[k]@);
            }
            lemma_prefix_refl(pre.refund_claims@);
            lemma_prefix_refl(pre.unique_donors@);
            lemma_prefix_refl(pre.votes@);
            lemma_prefix_push(pre.transfers@, post.transfers@.last());
            lemma_prefix_refl(pre.receipts@);
            lemma_prefix_push(pre.events@, post.events@.last());
        }
        Ok(())
    }

    /// Withdraw a campaign's funds: the guarded entry point. While the
    /// reentrancy lock is held this fails fast with `ReentrantCall` and
    /// changes nothing; otherwise it behaves as `process_withdrawal` and
    /// restores the lock on every path.
    pub fn withdraw_funds(&mut self, caller: AccountId, now: Timestamp, campaign_id: u32)
        -> (result: Result<(), Error>)
        requires
            old(self).wf(),
        ensures
            final(self).wf(),
            engine_evolves(*old(self), *final(self)),
            old(self).locked ==> result == Err::<(), Error>(Error::ReentrantCall) && *final(self)
                == *old(self),
            !old(self).locked ==> final(self).locked == old(self).locked && withdraw_post(
                *old(self),
                *final(self),
                result,
                caller,
                now,
                campaign_id,
            ),
    {
        if self.locked {
            return Err(Error::ReentrantCall);
        }
        self.locked = true;
        proof {
            lemma_wf_same_records(*old(self), *self);
        }
        let ghost mid_pre = *self;
        let result = self.process_withdrawal(caller, now, campaign_id);
        let ghost mid_post = *self;
        self.locked = false;
        proof {
            lemma_wf_same_records(mid_post, *self);
            assert(withdraw_verdict(mid_pre, caller, now, campaign_id) == withdraw_verdict(
                *old(self),
                caller,
                now,
                campaign_id,
            ));
            assert(withdraw_post(*old(self), *self, result, caller, now, campaign_id));
        }
        result
    }

    /// Compute the caller's total contribution to a campaign: the sum of
    /// the caller's ledger entries.
    pub(crate) fn donor_total_of(&self, campaign_id: u32, donor: AccountId) -> (r: Balance)
        requires
            self.wf(),
            self.has_campaign(campaign_id),
        ensures
            r == donor_total(self.ledger_at(campaign_id), donor),
            r <= self.campaign_at(campaign_id).raised,
    {
        let idx = (campaign_id - self.id_base) as usize;
        proof {
            assert(self.campaign_ok(idx as int));
        }
        let ledger = &self.donations[idx];
        let n = ledger.len();
        let mut acc: Balance = 0;
        let mut k: usize = 0;
        proof {
            assert(ledger@.take(0) =~= Seq::empty());
        }
        while k < n
            invariant
                self.wf(),
                self.has_campaign(campaign_id),
                idx == self.idx_of(campaign_id),
                ledger == &self.donations@[idx as int],
                n == ledger@.len(),
                0 <= k <= n,
                acc == donor_total(ledger@.take(k as int), donor),
                acc <= self.campaign_at(campaign_id).raised,
            decreases n - k,
        {
            proof {
                lemma_donor_total_take_step(ledger@, donor, k as int);
                lemma_donor_total_le_sum(ledger@.take(k + 1), donor);
                lemma_sum_amounts_take_le(ledger@, k + 1);
                assert(self.campaign_ok(idx as int));
            }
            if ledger[k].donor == donor {
                acc = acc + ledger[k].amount;
            }
            k += 1;
        }
        proof {
            assert(ledger@.take(n as int) =~= ledger@);
        }
        acc
    }
}

/// The validation verdict of a refund claim, in the order the checks are
/// made: `None` means the refund is paid.
pub open spec fn refund_verdict(pre: Engine, caller: AccountId, campaign_id: u32) -> Option<
    Error,
> {
    if !pre.has_campaign(campaign_id) {
        Some(Error::CampaignNotFound)
    } else if pre.campaign_at(campaign_id).state != CampaignState::Failed {
        Some(Error::CampaignNotFailed)
    } else if has_pair(pre.refund_claims@, campaign_id, caller) {
        Some(Error::RefundAlreadyClaimed)
    } else if donor_total(pre.ledger_at(campaign_id), caller) == 0 {
        Some(Error::NoDonationFound)
    } else {
        None
    }
}

/// The full input/output relation of a refund claim, lock aside. A paid
/// refund marks the claim, requests the transfer of the donor's whole
/// contribution back to the donor, and records the event; everything else
/// is untouched. A rejected claim changes nothing.
pub open spec fn refund_post(
    pre: Engine,
    post: Engine,
    result: Result<(), Error>,
    caller: AccountId,
    campaign_id: u32,
) -> bool {
    match refund_verdict(pre, caller, campaign_id) {
        Some(e) => result == Err::<(), Error>(e) && same_except_lock(pre, post),
        None => {
            let refund = donor_total(pre.ledger_at(campaign_id), caller);
            &&& result == Ok::<(), Error>(())
            &&& post.refund_claims@ == pre.refund_claims@.push((campaign_id, caller))
            &&& post.transfers@ == pre.transfers@.push(
                TransferRequest { to: caller, amount: refund as Balance },
            )
            &&& post.events@ == pre.events@.push(
                Event::RefundClaimed(RefundClaimed { campaign_id, donor: caller, amount: refund as Balance }),
            )
            &&& post == (Engine {
                locked: post.locked,
                refund_claims: post.refund_claims,
                transfers: post.transfers,
                events: post.events,
                ..pre
            })
        },
    }
}

impl Engine {
    /// The inner, lock-free refund path.
    fn process_refund(&mut self, caller: AccountId, campaign_id: u32) -> (result: Result<
        (),
        Error,
    >)
        requires
            old(self).wf(),
        ensures
            final(self).wf(),
            engine_evolves(*old(self), *final(self)),
            final(self).locked == old(self).locked,
            refund_post(*old(self), *final(self), result, caller, campaign_id),
    {
        if campaign_id < self.id_base {
            return Err(Error::CampaignNotFound);
        }
        let idx = (campaign_id - self.id_base) as usize;
        if idx >= self.campaigns.len() {
            return Err(Error::CampaignNotFound);
        }
        if !matches!(self.campaigns[idx].state, CampaignState::Failed) {
            return Err(Error::CampaignNotFailed);
        }
        if pair_contains(&self.refund_claims, campaign_id, caller) {
            return Err(Error::RefundAlreadyClaimed);
        }
        let refund = self.donor_total_of(campaign_id, caller);
        if refund == 0 {
            return Err(Error::NoDonationFound);
        }
        self.refund_claims.push((campaign_id, caller));
        self.transfers.push(TransferRequest { to: caller, amount: refund });
        self.events.push(
            Event::RefundClaimed(RefundClaimed { campaign_id, donor: caller, amount: refund }),
        );
        proof {
            let pre = *old(self);
            let post = *self;
            assert forall|k: int| 0 <= k < post.campaigns@.len() implies #[trigger] post.campaign_ok(
                k,
            ) by {
                assert(pre.campaign_ok(k));
            }
            assert(pair_keys_unique(post.refund_claims@)) by {
                assert(forall|i: int|
                    0 <= i < pre.refund_claims@.len() ==> pre.refund_claims@[i] != (
                    campaign_id,
                    caller,
                    ));
            }
            assert forall|k: int| 0 <= k < pre.campaigns@.len() implies campaign_evolves(
                #[trigger] pre.campaigns@[k],
                post.campaigns@[k],
            ) by {}
            assert forall|k: int| 0 <= k < pre.donations@.len() implies (
            #[trigger] pre.donations@[k]@).is_prefix_of(post.donations@[k]@) by {
                lemma_prefix_refl(pre.donations@[k]@);
            }
            lemma_prefix_push(pre.refund_claims@, (campaign_id, caller));
            lemma_prefix_refl(pre.unique_donors@);
            lemma_prefix_refl(pre.votes@);
            lemma_prefix_push(pre.transfers@, post.transfers@.last());
            lemma_prefix_refl(pre.receipts@);
            lemma_prefix_push(pre.events@, post.events@.last());
        }
        Ok(())
    }

    /// Claim a refund from a failed campaign: the guarded entry point.
    /// Each donor is paid back their whole recorded contribution, at most
    /// once per campaign. While the reentrancy lock is held this fails fast
    /// with `ReentrantCall` and changes nothing.
    pub fn claim_refund(&mut self, caller: AccountId, campaign_id: u32) -> (result: Result<
        (),
        Error,
    >)
        requires
            old(self).wf(),
        ensures
            final(self).wf(),
            engine_evolves(*old(self), *final(self)),
            old(self).locked ==> result == Err::<(), Error>(Error::ReentrantCall) && *final(self)
                == *old(self),
            !old(self).locked ==> final(self).locked == old(self).locked && refund_post(
                *old(self),
                *final(self),
                result,
                caller,
                campaign_id,
            ),
    {
        if self.locked {
            return Err(Error::ReentrantCall);
        }
        self.locked = true;
        proof {
            lemma_wf_same_records(*old(self), *self);
        }
        let ghost mid_pre = *self;
        let result = self.process_refund(caller, campaign_id);
        let ghost mid_post = *self;
        self.locked = false;
        proof {
            lemma_wf_same_records(mid_post, *self);
            assert(refund_verdict(mid_pre, caller, campaign_id) == refund_verdict(
                *old(self),
                caller,
                campaign_id,
            ));
            assert(refund_post(*old(self), *self, result, caller, campaign_id));
        }
        result
    }
}

/// How many entries of a mask are set.
pub open spec fn count_true(s: Seq<bool>) -> int
    decreases s.len(),
{
    if s.len() == 0 {
        0
    } else {
        count_true(s.drop_last()) + if s.last() {
            1int
        } else {
            0
        }
    }
}

/// The ids selected by a mask, in order.
pub open spec fn mask_select(ids: Seq<u32>, mask: Seq<bool>) -> Seq<u32>
    recommends
        ids.len() == mask.len(),
    decreases ids.len(),
{
    if ids.len() == 0 || mask.len() == 0 {
        Seq::empty()
    } else {
        let rest = mask_select(ids.drop_last(), mask.drop_last());
        if mask.last() {
            rest.push(ids.last())
        } else {
            rest
        }
    }
}

/// The result a withdrawal must return, determined by its verdict.
pub open spec fn expected_withdraw_result(
    pre: Engine,
    caller: AccountId,
    now: Timestamp,
    campaign_id: u32,
) -> Result<(), Error> {
    match withdraw_verdict(pre, caller, now, campaign_id) {
        Some(e) => Err(e),
        None => Ok(()),
    }
}

/// One inner step of the withdrawal batch: the step behaves exactly as a
/// single withdrawal, and `ok` records whether it was accepted.
pub open spec fn withdraw_step_post(
    a: Engine,
    b: Engine,
    ok: bool,
    caller: AccountId,
    now: Timestamp,
    campaign_id: u32,
) -> bool {
    &&& withdraw_post(a, b, expected_withdraw_result(a, caller, now, campaign_id), caller, now, campaign_id)
    &&& ok == (withdraw_verdict(a, caller, now, campaign_id) is None)
}

/// The full input/output relation of a withdrawal batch: some chain of
/// intermediate states connects the initial and final state, one exact
/// withdrawal step per requested id, and the tally counts exactly the
/// accepted steps, listing their ids in order.
pub open spec fn withdraw_batch_post(
    pre: Engine,
    post: Engine,
    b: BatchResult,
    caller: AccountId,
    now: Timestamp,
    ids: Seq<u32>,
) -> bool {
    exists|mids: Seq<Engine>, oks: Seq<bool>|
        #![trigger mids.len(), oks.len()]
        {
            &&& mids.len() == ids.len() + 1
            &&& oks.len() == ids.len()
            &&& mids.first() == pre
            &&& mids.last() == post
            &&& (forall|k: int|
                0 <= k < ids.len() ==> #[trigger] withdraw_step_post(
                    mids[k],
                    mids[k + 1],
                    oks[k],
                    caller,
                    now,
                    ids[k],
                ))
            &&& b.successful == count_true(oks)
            &&& b.failed == ids.len() - count_true(oks)
            &&& b.success_ids@ == mask_select(ids, oks)
        }
}

impl Engine {
    /// Withdraw from several campaigns in one call. A batch larger than the
    /// configured maximum is rejected whole; the reentrancy lock is taken
    /// once for the whole batch, and each inner withdrawal runs on the
    /// lock-free path. The tally reports the accepted withdrawals and their
    /// campaign ids.
    pub fn withdraw_funds_batch(&mut self, caller: AccountId, now: Timestamp, campaign_ids: Vec<
        u32,
    >) -> (result: Result<BatchResult, Error>)
        requires
            old(self).wf(),
        ensures
            final(self).wf(),
            engine_evolves(*old(self), *final(self)),
            campaign_ids@.len() > old(self).max_batch_size ==> result == Err::<BatchResult, Error>(
                Error::BatchSizeTooLarge,
            ) && *final(self) == *old(self),
            campaign_ids@.len() <= old(self).max_batch_size && old(self).locked ==> result == Err::<
                BatchResult,
                Error,
            >(Error::ReentrantCall) && *final(self) == *old(self),
            campaign_ids@.len() <= old(self).max_batch_size && !old(self).locked ==> ({
                &&& final(self).locked == old(self).locked
                &&& match result {
                    Ok(b) => withdraw_batch_post(
                        *old(self),
                        *final(self),
                        b,
                        caller,
                        now,
                        campaign_ids@,
                    ),
                    Err(_) => false,
                }
            }),
    {
        if campaign_ids.len() > self.max_batch_size as usize {
            return Err(Error::BatchSizeTooLarge);
        }
        if self.locked {
            return Err(Error::ReentrantCall);
        }
        self.locked = true;
        proof {
            lemma_wf_same_records(*old(self), *self);
        }
        let ghost pre0 = *old(self);
        let ghost mut mids: Seq<Engine> = Seq::empty().push((Engine { locked: false, ..*self }));
        let ghost mut oks: Seq<bool> = Seq::empty();
        proof {
            assert(mids[0] == pre0);
        }
        let n = campaign_ids.len();
        let mut successful: u32 = 0;
        let mut failed: u32 = 0;
        let mut success_ids: Vec<u32> = Vec::new();
        let mut i: usize = 0;
        proof {
            assert(mask_select(campaign_ids@.take(0), oks) =~= Seq::<u32>::empty());
        }
        while i < n
            invariant
                n == campaign_ids@.len(),
                n <= u32::MAX,
                0 <= i <= n,
                self.wf(),
                self.locked,
                pre0.locked == false,
                engine_evolves(pre0, *self),
                self.version == pre0.version,
                self.max_batch_size == pre0.max_batch_size,
                self.nft_contract == pre0.nft_contract,
                self.nft_enabled == pre0.nft_enabled,
                mids.len() == i + 1,
                oks.len() == i,
                mids.first() == pre0,
                mids.last() == (Engine { locked: false, ..*self }),
                forall|k: int|
                    0 <= k < i ==> #[trigger] withdraw_step_post(
                        mids[k],
                        mids[k + 1],
                        oks[k],
                        caller,
                        now,
                        campaign_ids@[k],
                    ),
                successful == count_true(oks),
                successful <= i,
                failed == i - successful,
                success_ids@ == mask_select(campaign_ids@.take(i as int), oks),
            decreases n - i,
        {
            let id = campaign_ids[i];
            let ghost a = Engine { locked: false, ..*self };
            let ghost mid_actual_pre = *self;
            let r = self.process_withdrawal(caller, now, id);
            let ghost b = Engine { locked: false, ..*self };
            let ghost oks_old = oks;
            proof {
                assert(withdraw_verdict(a, caller, now, id) == withdraw_verdict(
                    mid_actual_pre,
                    caller,
                    now,
                    id,
                ));
                assert(withdraw_post(a, b, r, caller, now, id));
                assert(withdraw_step_post(a, b, r is Ok, caller, now, id));
                crate::engine::lemma_evolves_transitive(pre0, mid_actual_pre, *self);
                mids = mids.push(b);
                oks = oks.push(r is Ok);
                assert(oks.drop_last() =~= oks_old);
                assert(count_true(oks) == count_true(oks_old) + if r is Ok {
                    1int
                } else {
                    0
                });
            }
            match r {
                Ok(_) => {
                    successful = successful + 1;
                    success_ids.push(id);
                }
                Err(_) => {
                    failed = failed + 1;
                }
            }
            proof {
                assert(campaign_ids@.take(i + 1).drop_last() =~= campaign_ids@.take(i as int));
                assert(campaign_ids@.take(i + 1).last() == campaign_ids@[i as int]);
                assert(mask_select(campaign_ids@.take(i + 1), oks) == if r is Ok {
                    mask_select(campaign_ids@.take(i as int), oks_old).push(id)
                } else {
                    mask_select(campaign_ids@.take(i as int), oks_old)
                });
                assert(success_ids@ == mask_select(campaign_ids@.take(i + 1), oks));
            }
            i += 1;
        }
        let ghost before_unlock = *self;
        self.locked = false;
        let tally = BatchResult { successful, failed, success_ids };
        proof {
            lemma_wf_same_records(before_unlock, *self);
            assert(campaign_ids@.take(n as int) =~= campaign_ids@);
            assert(mids.last() == *self);
            let m = mids;
            let o = oks;
            assert({
                &&& m.len() == campaign_ids@.len() + 1
                &&& o.len() == campaign_ids@.len()
                &&& m.first() == pre0
                &&& m.last() == *self
                &&& (forall|k: int|
                    0 <= k < campaign_ids@.len() ==> #[trigger] withdraw_step_post(
                        m[k],
                        m[k + 1],
                        o[k],
                        caller,
                        now,
                        campaign_ids@[k],
                    ))
                &&& tally.successful == count_true(o)
                &&& tally.failed == campaign_ids@.len() - count_true(o)
                &&& tally.success_ids@ == mask_select(campaign_ids@, o)
            });
            assert(withdraw_batch_post(pre0, *self, tally, caller, now, campaign_ids@));
        }
        Ok(tally)
    }
}

/// Proof for the settlement paths that only change one campaign's state.
proof fn lemma_withdraw_state_only(pre: Engine, post: Engine, j: int, s: CampaignState)
    requires
        pre.wf(),
        0 <= j < pre.campaigns@.len(),
        s == CampaignState::Failed,
        pre.campaigns@[j].state == CampaignState::Active || pre.campaigns@[j].state
            == CampaignState::Failed,
        post.campaigns@ == pre.campaigns@.update(j, (Campaign { state: s, ..pre.campaigns@[j] })),
        post == (Engine { locked: post.locked, campaigns: post.campaigns, ..pre }),
        post.locked == pre.locked,
    ensures
        post.wf(),
        engine_evolves(pre, post),
{
    assert forall|k: int| 0 <= k < post.campaigns@.len() implies #[trigger] post.campaign_ok(
        k,
    ) by {
        assert(pre.campaign_ok(k));
        if k != j {
            assert(post.campaigns@[k] == pre.campaigns@[k]);
        }
    }
    assert forall|k: int| 0 <= k < pre.campaigns@.len() implies campaign_evolves(
        #[trigger] pre.campaigns@[k],
        post.campaigns@[k],
    ) by {
        if k != j {
            assert(post.campaigns@[k] == pre.campaigns@[k]);
        }
    }
    assert forall|k: int| 0 <= k < pre.donations@.len() implies (
    #[trigger] pre.donations@[k]@).is_prefix_of(post.donations@[k]@) by {
        lemma_prefix_refl(pre.donations@[k]@);
    }
    lemma_prefix_refl(pre.refund_claims@);
    lemma_prefix_refl(pre.unique_donors@);
    lemma_prefix_refl(pre.votes@);
    lemma_prefix_refl(pre.transfers@);
    lemma_prefix_refl(pre.receipts@);
    lemma_prefix_refl(pre.events@);
}

} // verus!
