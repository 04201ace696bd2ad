//! The library's cross-cutting guarantees, stated and proved once: the
//! ledger/raised accounting identity, the one-way lifecycle, the
//! exactly-once refund, and the behaviour of donations at the goal and
//! below the dust threshold.

use vstd::prelude::*;

use crate::engine::{campaign_evolves, engine_evolves, Engine};
use crate::governance::release_verdict;
use crate::ledger::{donate_post, donate_verdict};
use crate::matching::{distribute_post, participates, total_score};
use crate::settlement::{refund_post, refund_verdict};
use crate::types::{
    donor_total, has_pair, qf_score, sum_amounts, AccountId, Balance, CampaignState, Error,
    Timestamp, APPROVAL_THRESHOLD, MIN_DONATION,
};

verus! {

/// In every well-formed state, the gross sum of a campaign's donation
/// ledger equals its raised total. Donations are recorded gross, so the
/// identity holds at all times, before and after fees, withdrawal or
/// refunds.
pub proof fn lemma_ledger_matches_raised(e: Engine, campaign_id: u32)
    requires
        e.wf(),
        e.has_campaign(campaign_id),
    ensures
        sum_amounts(e.ledger_at(campaign_id)) == e.campaign_at(campaign_id).raised,
{
    assert(e.campaign_ok(e.idx_of(campaign_id)));
}

/// The campaign lifecycle is monotonic under any evolution of the engine:
/// `Withdrawn` never becomes anything else, `Successful` never returns to
/// `Active` or falls to `Failed`, and `Failed` never returns to `Active`
/// or rises to `Successful`.
pub proof fn lemma_state_monotonic(pre: Engine, post: Engine, campaign_id: u32)
    requires
        engine_evolves(pre, post),
        pre.has_campaign(campaign_id),
    ensures
        post.has_campaign(campaign_id),
        pre.campaign_at(campaign_id).state == CampaignState::Withdrawn ==> post.campaign_at(
            campaign_id,
        ).state == CampaignState::Withdrawn,
        pre.campaign_at(campaign_id).state == CampaignState::Successful ==> post.campaign_at(
            campaign_id,
        ).state != CampaignState::Active && post.campaign_at(campaign_id).state
            != CampaignState::Failed,
        pre.campaign_at(campaign_id).state == CampaignState::Failed ==> post.campaign_at(
            campaign_id,
        ).state != CampaignState::Active && post.campaign_at(campaign_id).state
            != CampaignState::Successful,
{
    let j = pre.idx_of(campaign_id);
    assert(campaign_evolves(pre.campaigns@[j], post.campaigns@[j]));
}

/// Donating exactly the goal amount to a fresh campaign makes it
/// `Successful`, with the full gross amount raised.
pub proof fn lemma_goal_donation_succeeds(
    pre: Engine,
    post: Engine,
    result: Result<(), Error>,
    caller: AccountId,
    now: Timestamp,
    campaign_id: u32,
    amount: Balance,
)
    requires
        pre.wf(),
        donate_post(pre, post, result, caller, now, campaign_id, amount),
        donate_verdict(pre, now, campaign_id, amount) is None,
        pre.campaign_at(campaign_id).raised == 0,
        amount == pre.campaign_at(campaign_id).goal,
    ensures
        result == Ok::<(), Error>(()),
        post.campaign_at(campaign_id).state == CampaignState::Successful,
        post.campaign_at(campaign_id).raised == amount,
{
    assert(pre.has_campaign(campaign_id));
}

/// A donation below the dust threshold is rejected as an invalid amount
/// and leaves every campaign record — in particular the raised total —
/// untouched.
pub proof fn lemma_dust_donation_rejected(
    pre: Engine,
    post: Engine,
    result: Result<(), Error>,
    caller: AccountId,
    now: Timestamp,
    campaign_id: u32,
    amount: Balance,
)
    requires
        donate_post(pre, post, result, caller, now, campaign_id, amount),
        amount < MIN_DONATION,
    ensures
        result == Err::<(), Error>(Error::InvalidDonationAmount),
        post.campaigns@ == pre.campaigns@,
{
}

/// A claim marker, once present, stays present under any evolution.
pub proof fn lemma_claim_persists(pre: Engine, post: Engine, campaign_id: u32, donor: AccountId)
    requires
        engine_evolves(pre, post),
        has_pair(pre.refund_claims@, campaign_id, donor),
    ensures
        has_pair(post.refund_claims@, campaign_id, donor),
{
    let i = choose|i: int|
        0 <= i < pre.refund_claims@.len() && pre.refund_claims@[i] == (campaign_id, donor);
    assert(post.refund_claims@[i] == pre.refund_claims@[i]);
}

/// A refund can be claimed exactly once: immediately after a successful
/// claim, a second claim by the same donor on the same campaign is
/// rejected as already claimed — and after any further evolution of the
/// engine, a claim by that donor can never succeed again.
pub proof fn lemma_refund_exactly_once(
    pre: Engine,
    mid: Engine,
    post: Engine,
    donor: AccountId,
    campaign_id: u32,
)
    requires
        pre.wf(),
        refund_post(pre, mid, Ok::<(), Error>(()), donor, campaign_id),
        engine_evolves(mid, post),
    ensures
        refund_verdict(mid, donor, campaign_id) == Some(Error::RefundAlreadyClaimed),
        refund_verdict(post, donor, campaign_id) is Some,
{
    assert(refund_verdict(pre, donor, campaign_id) is None);
    assert(mid.refund_claims@ == pre.refund_claims@.push((campaign_id, donor)));
    assert(has_pair(mid.refund_claims@, campaign_id, donor)) by {
        assert(mid.refund_claims@[pre.refund_claims@.len() as int] == (campaign_id, donor));
    }
    assert(mid.campaigns@ == pre.campaigns@);
    assert(mid.campaign_at(campaign_id).state == CampaignState::Failed);
    lemma_claim_persists(mid, post, campaign_id, donor);
    if post.has_campaign(campaign_id) && post.campaign_at(campaign_id).state
        == CampaignState::Failed {
        assert(refund_verdict(post, donor, campaign_id) == Some(Error::RefundAlreadyClaimed));
    }
}

/// A milestone's funds are only released with votes cast and a weighted
/// approval of at least the threshold share: whenever the release verdict
/// clears, the integer approval percentage is at least 66.
pub proof fn lemma_release_needs_approval(
    pre: Engine,
    caller: AccountId,
    campaign_id: u32,
    milestone_index: u32,
)
    requires
        release_verdict(pre, caller, campaign_id, milestone_index) is None,
    ensures
        pre.has_campaign(campaign_id),
        (milestone_index as int) < pre.campaign_at(campaign_id).milestones@.len(),
        ({
            let m = pre.campaign_at(campaign_id).milestones@[milestone_index as int];
            &&& m.votes_for + m.votes_against > 0
            &&& m.votes_for * 100 / (m.votes_for + m.votes_against) >= APPROVAL_THRESHOLD
        }),
{
}

/// Quadratic-funding distribution gives every participating campaign the
/// floor of its score's share of the round pool.
pub proof fn lemma_matching_share(
    pre: Engine,
    post: Engine,
    caller: AccountId,
    now: Timestamp,
    round_id: u32,
    j: int,
)
    requires
        distribute_post(pre, post, Ok::<(), Error>(()), caller, now, round_id),
        0 <= j < pre.campaigns@.len(),
        participates(pre, round_id, j),
    ensures
        post.campaigns@[j].matching_amount == (qf_score(pre.donations@[j]@) * (
        pre.rounds@[round_id as int].pool_amount as int) / total_score(
            pre,
            round_id,
            pre.campaigns@.len() as int,
        )) as Balance,
{
}

} // verus!
