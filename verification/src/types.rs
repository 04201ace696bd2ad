//! Data model of the settlement engine: campaigns, donations, milestones,
//! matching rounds, errors, domain events, and the specification functions
//! that contracts are stated over.

use vstd::prelude::*;

use crate::math::spec_sqrt;

verus! {

/// An account on the host chain, reduced to its numeric identity.
/// Account zero is the reserved null account and is never a valid beneficiary.
pub type AccountId = u64;

/// An amount of native currency, in the smallest unit.
pub type Balance = u128;

/// A millisecond timestamp supplied by the host.
pub type Timestamp = u64;

/// Smallest accepted donation, to keep dust out of the ledger.
pub const MIN_DONATION: Balance = 1_000_000;

/// Largest accepted single donation.
pub const MAX_DONATION: Balance = 100_000_000_000_000;

/// Largest accepted campaign goal.
pub const MAX_GOAL: Balance = 1_000_000_000_000_000;

/// Upper bound on a campaign's raised total: donations stop once the goal is
/// reached, so the total never exceeds the goal plus one maximal donation.
pub const MAX_RAISED: Balance = MAX_GOAL + MAX_DONATION;

/// Platform fee in percent, taken from each donation for the treasury.
pub const FEE_PERCENT: Balance = 3;

/// One hour in milliseconds: the least distance of a new deadline.
pub const HOUR_MS: Timestamp = 3_600_000;

/// One year in milliseconds: the greatest distance of a new deadline.
pub const YEAR_MS: Timestamp = 31_536_000_000;

/// One day in milliseconds, used for milestone deadlines.
pub const DAY_MS: Timestamp = 86_400_000;

/// Basis points in the whole: milestone percentages must sum to this.
pub const FULL_BASIS_POINTS: u32 = 10_000;

/// Weighted approval threshold, in percent, for releasing a milestone.
pub const APPROVAL_THRESHOLD: u32 = 66;

/// Why an entry point refused to act. One variant per condition; no variant
/// stands for two different failures.
#[derive(Debug, Clone, Copy, PartialEq, Eq, Structural)]
pub enum Error {
    /// No campaign with the requested id.
    CampaignNotFound,
    /// No matching round with the requested id.
    RoundNotFound,
    /// The milestone index is out of range for the campaign.
    MilestoneNotFound,
    /// The caller is neither the campaign owner nor the admin.
    NotCampaignOwner,
    /// The caller is not the engine admin.
    NotAdmin,
    /// The title is empty or longer than 100 characters.
    InvalidTitle,
    /// The description is longer than its limit.
    InvalidDescription,
    /// The goal is zero or above the configured ceiling.
    InvalidGoal,
    /// The beneficiary is the null account.
    InvalidBeneficiary,
    /// The deadline is not between one hour and one year from now.
    InvalidDeadline,
    /// The donation amount is below the dust threshold, above the single
    /// donation ceiling, or zero where a positive amount is required.
    InvalidDonationAmount,
    /// Milestone percentages do not sum to exactly 10000 basis points.
    InvalidPercentageSum,
    /// The campaign is not accepting this operation because it is not active.
    CampaignNotActive,
    /// The campaign has not (yet) succeeded, so the operation is premature.
    CampaignNotSuccessful,
    /// The campaign or milestone deadline has passed.
    DeadlinePassed,
    /// The matching round has not ended yet.
    RoundNotEnded,
    /// Neither success nor a passed deadline permits withdrawal yet.
    GoalNotReached,
    /// The campaign's funds were already withdrawn.
    FundsAlreadyWithdrawn,
    /// Refunds are only available from failed campaigns.
    CampaignNotFailed,
    /// The caller never donated to this campaign.
    NoDonationFound,
    /// The caller already claimed a refund for this campaign.
    RefundAlreadyClaimed,
    /// The caller already voted on this milestone.
    AlreadyVoted,
    /// Voting for this milestone is not active.
    VotingNotActive,
    /// The milestone's funds were already released.
    MilestoneAlreadyReleased,
    /// An earlier milestone has not been released yet; order is strict.
    PreviousMilestoneNotReleased,
    /// No votes were cast, so approval cannot be evaluated.
    NoVotesCast,
    /// Weighted approval is below the release threshold.
    ApprovalTooLow,
    /// The matching round was already distributed.
    AlreadyDistributed,
    /// The matching pool does not hold the requested amount.
    InsufficientMatchingPool,
    /// A checked arithmetic operation would overflow.
    ArithmeticOverflow,
    /// The host reported that a currency transfer failed.
    TransferFailed,
    /// A guarded entry point was re-entered while its lock was held.
    ReentrantCall,
    /// The batch is larger than the configured maximum.
    BatchSizeTooLarge,
}

/// The lifecycle state of a campaign.
#[derive(Debug, Clone, Copy, PartialEq, Eq, Structural)]
pub enum CampaignState {
    /// Accepting donations.
    Active,
    /// The goal was reached; funds await withdrawal or milestone release.
    Successful,
    /// The deadline passed short of the goal, or the owner cancelled.
    Failed,
    /// Funds were paid out; terminal.
    Withdrawn,
}

/// The lifecycle only ever moves forward: a campaign may leave `Active` for
/// any later state, `Successful` and `Failed` may only end in `Withdrawn`,
/// and `Withdrawn` is terminal.
pub open spec fn state_reachable(pre: CampaignState, post: CampaignState) -> bool {
    ||| pre == post
    ||| (pre == CampaignState::Active)
    ||| (pre == CampaignState::Successful && post == CampaignState::Withdrawn)
    ||| (pre == CampaignState::Failed && post == CampaignState::Withdrawn)
}

/// One recorded contribution. Ledger entries are append-only and never
/// change after insertion.
#[derive(Debug, Clone, Copy, PartialEq, Eq, Structural)]
pub struct Donation {
    /// The account that donated.
    pub donor: AccountId,
    /// The gross amount donated, before the platform fee.
    pub amount: Balance,
    /// When the donation was accepted.
    pub timestamp: Timestamp,
}

/// A percentage-of-funds release gate, approved by donor-weighted voting.
#[derive(Debug, Clone)]
pub struct Milestone {
    /// What the milestone promises.
    pub description: String,
    /// Share of the campaign funds this milestone releases, in basis points.
    pub percentage: u32,
    /// Voting deadline for this milestone.
    pub deadline: Timestamp,
    /// Weighted votes in favour.
    pub votes_for: Balance,
    /// Weighted votes against.
    pub votes_against: Balance,
    /// Whether the milestone's funds have been released. Set exactly once.
    pub released: bool,
    /// Whether voting is currently open.
    pub voting_active: bool,
}

/// A fundraising campaign.
#[derive(Debug, Clone)]
pub struct Campaign {
    /// Identity, assigned monotonically at creation.
    pub id: u32,
    /// The account that created the campaign.
    pub owner: AccountId,
    /// Title, 1 to 100 characters.
    pub title: String,
    /// Description, up to 1000 characters.
    pub description: String,
    /// The funding goal.
    pub goal: Balance,
    /// Gross sum of all donations so far.
    pub raised: Balance,
    /// When the campaign stops accepting donations.
    pub deadline: Timestamp,
    /// Lifecycle state.
    pub state: CampaignState,
    /// The account paid on withdrawal or milestone release.
    pub beneficiary: AccountId,
    /// Number of donations received.
    pub donation_count: u32,
    /// The matching round the campaign participates in, if any.
    pub matching_round: Option<u32>,
    /// Matching funds allocated by quadratic-funding distribution.
    pub matching_amount: Balance,
    /// Ordered milestones, released strictly in index order.
    pub milestones: Vec<Milestone>,
    /// Whether payouts are gated behind the milestones.
    pub uses_milestones: bool,
}

/// A time-boxed pool of matching funds distributed by quadratic funding.
#[derive(Debug, Clone)]
pub struct MatchingRound {
    /// Identity, assigned monotonically at creation.
    pub id: u32,
    /// The pool allocated to this round from the global matching pool.
    pub pool_amount: Balance,
    /// When the round ends; distribution is only allowed afterwards.
    pub end_time: Timestamp,
    /// Whether the pool has been distributed. Set exactly once.
    pub distributed: bool,
    /// Campaign ids recorded for the round.
    pub campaign_ids: Vec<u32>,
}

/// A recorded milestone vote, keyed by campaign, milestone and voter.
/// Presence of the key is the "already voted" marker.
#[derive(Debug, Clone, Copy, PartialEq, Eq, Structural)]
pub struct VoteRecord {
    /// The campaign voted on.
    pub campaign_id: u32,
    /// The milestone voted on.
    pub milestone_index: u32,
    /// Who voted.
    pub voter: AccountId,
    /// The weight cast: the voter's total contribution to the campaign.
    pub weight: Balance,
}

/// A currency transfer the host must perform on the engine's behalf.
#[derive(Debug, Clone, Copy, PartialEq, Eq, Structural)]
pub struct TransferRequest {
    /// The receiving account.
    pub to: AccountId,
    /// The amount to transfer.
    pub amount: Balance,
}

/// A best-effort receipt mint the host should attempt after a donation,
/// carrying everything the receipt contract is called with. Its outcome
/// never affects the donation itself.
#[derive(Debug, Clone, PartialEq, Eq)]
pub struct ReceiptRequest {
    /// The receipt contract to call.
    pub nft_contract: AccountId,
    /// The donor the receipt is for.
    pub donor: AccountId,
    /// The campaign donated to.
    pub campaign_id: u32,
    /// The campaign's title at donation time.
    pub campaign_title: String,
    /// The gross donation amount.
    pub amount: Balance,
    /// When the donation was accepted.
    pub timestamp: Timestamp,
}

/// A campaign was created.
#[derive(Debug, Clone, Copy, PartialEq, Eq, Structural)]
pub struct CampaignCreated {
    /// The new campaign's id.
    pub campaign_id: u32,
    /// The account that owns it.
    pub owner: AccountId,
    /// Its funding goal.
    pub goal: Balance,
    /// Its deadline.
    pub deadline: Timestamp,
}

/// A donation was accepted.
#[derive(Debug, Clone, Copy, PartialEq, Eq, Structural)]
pub struct DonationReceived {
    /// The campaign donated to.
    pub campaign_id: u32,
    /// The donor.
    pub donor: AccountId,
    /// The gross amount donated.
    pub amount: Balance,
}

/// A campaign's lifecycle state changed lazily, on touch.
#[derive(Debug, Clone, Copy, PartialEq, Eq, Structural)]
pub struct CampaignStateChanged {
    /// The campaign whose state changed.
    pub campaign_id: u32,
    /// The state it moved to.
    pub state: CampaignState,
    /// When the change was observed.
    pub timestamp: Timestamp,
}

/// Funds were withdrawn to the beneficiary.
#[derive(Debug, Clone, Copy, PartialEq, Eq, Structural)]
pub struct FundsWithdrawn {
    /// The campaign withdrawn from.
    pub campaign_id: u32,
    /// The account paid.
    pub beneficiary: AccountId,
    /// The net amount paid out.
    pub amount: Balance,
}

/// The owner or admin cancelled a campaign.
#[derive(Debug, Clone, Copy, PartialEq, Eq, Structural)]
pub struct CampaignCancelled {
    /// The cancelled campaign.
    pub campaign_id: u32,
    /// Who cancelled it.
    pub cancelled_by: AccountId,
}

/// A donor claimed a refund from a failed campaign.
#[derive(Debug, Clone, Copy, PartialEq, Eq, Structural)]
pub struct RefundClaimed {
    /// The failed campaign.
    pub campaign_id: u32,
    /// The refunded donor.
    pub donor: AccountId,
    /// The amount refunded.
    pub amount: Balance,
}

/// A best-effort receipt mint failed; the donation itself stood. The host
/// performing the mint appends this.
#[derive(Debug, Clone, Copy, PartialEq, Eq, Structural)]
pub struct NftMintingFailed {
    /// The campaign donated to.
    pub campaign_id: u32,
    /// The donor whose receipt failed.
    pub donor: AccountId,
    /// The host's error code.
    pub error_code: u8,
}

/// A donation receipt was minted. The host performing the mint appends this.
#[derive(Debug, Clone, Copy, PartialEq, Eq, Structural)]
pub struct NftReceiptMinted {
    /// The campaign donated to.
    pub campaign_id: u32,
    /// The donor who received the receipt.
    pub donor: AccountId,
    /// The receipt token.
    pub nft_token_id: u128,
    /// The donation amount.
    pub amount: Balance,
}

/// The matching pool received funds.
#[derive(Debug, Clone, Copy, PartialEq, Eq, Structural)]
pub struct MatchingPoolFunded {
    /// Who funded the pool.
    pub funder: AccountId,
    /// The amount added.
    pub amount: Balance,
    /// The pool balance afterwards.
    pub total_pool: Balance,
}

/// A matching round was opened.
#[derive(Debug, Clone, Copy, PartialEq, Eq, Structural)]
pub struct MatchingRoundCreated {
    /// The new round's id.
    pub round_id: u32,
    /// The pool allocated to it.
    pub pool_amount: Balance,
    /// When it ends.
    pub end_time: Timestamp,
}

/// A campaign received its share of a round's pool.
#[derive(Debug, Clone, Copy, PartialEq, Eq, Structural)]
pub struct MatchingDistributed {
    /// The campaign matched.
    pub campaign_id: u32,
    /// Its share of the pool.
    pub matching_amount: Balance,
    /// The distributed round.
    pub round_id: u32,
}

/// Milestones were attached to a campaign.
#[derive(Debug, Clone, Copy, PartialEq, Eq, Structural)]
pub struct MilestonesAdded {
    /// The campaign gated by the milestones.
    pub campaign_id: u32,
    /// How many milestones were attached.
    pub milestone_count: u32,
}

/// Voting was opened for a milestone.
#[derive(Debug, Clone, Copy, PartialEq, Eq, Structural)]
pub struct MilestoneVotingActivated {
    /// The campaign voted on.
    pub campaign_id: u32,
    /// The milestone voting opened for.
    pub milestone_index: u32,
}

/// A donor voted on a milestone.
#[derive(Debug, Clone, Copy, PartialEq, Eq, Structural)]
pub struct MilestoneVoted {
    /// The campaign voted on.
    pub campaign_id: u32,
    /// The milestone voted on.
    pub milestone_index: u32,
    /// Who voted.
    pub voter: AccountId,
    /// Whether they approved.
    pub approve: bool,
    /// The weight cast.
    pub weight: Balance,
}

/// A milestone's share of the funds was released.
#[derive(Debug, Clone, Copy, PartialEq, Eq, Structural)]
pub struct MilestoneFundsReleased {
    /// The campaign released from.
    pub campaign_id: u32,
    /// The released milestone.
    pub milestone_index: u32,
    /// The amount released.
    pub amount: Balance,
    /// The account paid.
    pub beneficiary: AccountId,
}

/// A domain event, appended to the engine's log for the host to publish:
/// the sum of the event records above.
#[derive(Debug, Clone, Copy, PartialEq, Eq, Structural)]
pub enum Event {
    /// A campaign was created.
    CampaignCreated(CampaignCreated),
    /// A donation was accepted.
    DonationReceived(DonationReceived),
    /// A campaign's state changed lazily, on touch.
    CampaignStateChanged(CampaignStateChanged),
    /// Funds were withdrawn to the beneficiary.
    FundsWithdrawn(FundsWithdrawn),
    /// A campaign was cancelled.
    CampaignCancelled(CampaignCancelled),
    /// A refund was claimed.
    RefundClaimed(RefundClaimed),
    /// A receipt mint failed, without affecting the donation.
    NftMintingFailed(NftMintingFailed),
    /// A receipt was minted.
    NftReceiptMinted(NftReceiptMinted),
    /// The matching pool received funds.
    MatchingPoolFunded(MatchingPoolFunded),
    /// A matching round was opened.
    MatchingRoundCreated(MatchingRoundCreated),
    /// A campaign received matching funds.
    MatchingDistributed(MatchingDistributed),
    /// Milestones were attached.
    MilestonesAdded(MilestonesAdded),
    /// Milestone voting was opened.
    MilestoneVotingActivated(MilestoneVotingActivated),
    /// A milestone vote was cast.
    MilestoneVoted(MilestoneVoted),
    /// Milestone funds were released.
    MilestoneFundsReleased(MilestoneFundsReleased),
}

/// A tally of a batch operation: how many inner operations succeeded, how
/// many failed, and the ids of the successes.
#[derive(Debug, Clone, PartialEq, Eq)]
pub struct BatchResult {
    /// Number of successful inner operations.
    pub successful: u32,
    /// Number of failed inner operations.
    pub failed: u32,
    /// Campaign ids of the successful operations.
    pub success_ids: Vec<u32>,
}

/// A campaign together with a page of its donations.
#[derive(Debug, Clone)]
pub struct CampaignDetails {
    /// The campaign itself.
    pub campaign: Campaign,
    /// The requested page of the donation ledger.
    pub donations: Vec<Donation>,
    /// Total number of ledger entries for the campaign.
    pub total_donations: u32,
}

// ---------------------------------------------------------------------------
// Specification functions over the ledger
// ---------------------------------------------------------------------------

/// Gross sum of all donation amounts in a ledger.
pub open spec fn sum_amounts(s: Seq<Donation>) -> int
    decreases s.len(),
{
    if s.len() == 0 {
        0
    } else {
        sum_amounts(s.drop_last()) + s.last().amount
    }
}

/// Sum of the donation amounts of one donor in a ledger.
pub open spec fn donor_total(s: Seq<Donation>, donor: AccountId) -> int
    decreases s.len(),
{
    if s.len() == 0 {
        0
    } else {
        donor_total(s.drop_last(), donor) + if s.last().donor == donor {
            s.last().amount as int
        } else {
            0
        }
    }
}

/// Sum of the integer square roots of the donation amounts: the inner sum of
/// the quadratic-funding formula.
pub open spec fn sum_roots(s: Seq<Donation>) -> int
    decreases s.len(),
{
    if s.len() == 0 {
        0
    } else {
        sum_roots(s.drop_last()) + spec_sqrt(s.last().amount as nat)
    }
}

/// The quadratic-funding score of a ledger: the square of the sum of the
/// integer square roots of its donation amounts.
pub open spec fn qf_score(s: Seq<Donation>) -> int {
    sum_roots(s) * sum_roots(s)
}

/// Every ledger entry is within the accepted donation bounds.
pub open spec fn donations_wf(s: Seq<Donation>) -> bool {
    forall|i: int|
        0 <= i < s.len() ==> MIN_DONATION <= (#[trigger] s[i]).amount <= MAX_DONATION
}

/// Sum of milestone release percentages, in basis points.
pub open spec fn sum_percentages(s: Seq<Milestone>) -> int
    decreases s.len(),
{
    if s.len() == 0 {
        0
    } else {
        sum_percentages(s.drop_last()) + s.last().percentage
    }
}

pub proof fn lemma_sum_percentages_nonneg(s: Seq<Milestone>)
    ensures
        sum_percentages(s) >= 0,
    decreases s.len(),
{
    if s.len() > 0 {
        lemma_sum_percentages_nonneg(s.drop_last());
    }
}

/// Each percentage is bounded by the sum of all of them.
pub proof fn lemma_percentage_le_sum(s: Seq<Milestone>, i: int)
    requires
        0 <= i < s.len(),
    ensures
        s[i].percentage <= sum_percentages(s),
    decreases s.len(),
{
    if i == s.len() - 1 {
        lemma_sum_percentages_nonneg(s.drop_last());
    } else {
        lemma_percentage_le_sum(s.drop_last(), i);
        assert(s.drop_last()[i] == s[i]);
    }
}

// ---------------------------------------------------------------------------
// Value equivalence and verified copies
// ---------------------------------------------------------------------------

/// Two milestone records carry the same values (descriptions compared as
/// character sequences).
pub open spec fn milestone_eq(a: Milestone, b: Milestone) -> bool {
    &&& a.description@ == b.description@
    &&& a.percentage == b.percentage
    &&& a.deadline == b.deadline
    &&& a.votes_for == b.votes_for
    &&& a.votes_against == b.votes_against
    &&& a.released == b.released
    &&& a.voting_active == b.voting_active
}

/// Two campaign records carry the same values.
pub open spec fn campaign_eq(a: Campaign, b: Campaign) -> bool {
    &&& a.id == b.id
    &&& a.owner == b.owner
    &&& a.title@ == b.title@
    &&& a.description@ == b.description@
    &&& a.goal == b.goal
    &&& a.raised == b.raised
    &&& a.deadline == b.deadline
    &&& a.state == b.state
    &&& a.beneficiary == b.beneficiary
    &&& a.donation_count == b.donation_count
    &&& a.matching_round == b.matching_round
    &&& a.matching_amount == b.matching_amount
    &&& a.milestones@.len() == b.milestones@.len()
    &&& (forall|m: int|
        0 <= m < a.milestones@.len() ==> milestone_eq(
            #[trigger] a.milestones@[m],
            b.milestones@[m],
        ))
    &&& a.uses_milestones == b.uses_milestones
}

/// Two round records carry the same values.
pub open spec fn round_eq(a: MatchingRound, b: MatchingRound) -> bool {
    &&& a.id == b.id
    &&& a.pool_amount == b.pool_amount
    &&& a.end_time == b.end_time
    &&& a.distributed == b.distributed
    &&& a.campaign_ids@ == b.campaign_ids@
}

impl Milestone {
    /// A copy verified equal, field for field, to the value it copies.
    pub fn duplicate(&self) -> (m: Milestone)
        ensures
            milestone_eq(*self, m),
    {
        Milestone {
            description: self.description.clone(),
            percentage: self.percentage,
            deadline: self.deadline,
            votes_for: self.votes_for,
            votes_against: self.votes_against,
            released: self.released,
            voting_active: self.voting_active,
        }
    }
}

impl Campaign {
    /// A copy verified equal, field for field, to the value it copies.
    pub fn duplicate(&self) -> (c: Campaign)
        ensures
            campaign_eq(*self, c),
    {
        let n = self.milestones.len();
        let mut milestones: Vec<Milestone> = Vec::new();
        let mut i: usize = 0;
        while i < n
            invariant
                n == self.milestones@.len(),
                0 <= i <= n,
                milestones@.len() == i,
                forall|m: int|
                    0 <= m < i ==> milestone_eq(
                        self.milestones@[m],
                        #[trigger] milestones@[m],
                    ),
            decreases n - i,
        {
            milestones.push(self.milestones[i].duplicate());
            i += 1;
        }
        Campaign {
            id: self.id,
            owner: self.owner,
            title: self.title.clone(),
            description: self.description.clone(),
            goal: self.goal,
            raised: self.raised,
            deadline: self.deadline,
            state: self.state,
            beneficiary: self.beneficiary,
            donation_count: self.donation_count,
            matching_round: self.matching_round,
            matching_amount: self.matching_amount,
            milestones,
            uses_milestones: self.uses_milestones,
        }
    }
}

impl MatchingRound {
    /// A copy verified equal, field for field, to the value it copies.
    pub fn duplicate(&self) -> (r: MatchingRound)
        ensures
            round_eq(*self, r),
    {
        let n = self.campaign_ids.len();
        let mut ids: Vec<u32> = Vec::new();
        let mut i: usize = 0;
        while i < n
            invariant
                n == self.campaign_ids@.len(),
                0 <= i <= n,
                ids@ == self.campaign_ids@.take(i as int),
            decreases n - i,
        {
            ids.push(self.campaign_ids[i]);
            proof {
                assert(ids@ =~= self.campaign_ids@.take(i + 1));
            }
            i += 1;
        }
        proof {
            assert(ids@ =~= self.campaign_ids@);
        }
        MatchingRound {
            id: self.id,
            pool_amount: self.pool_amount,
            end_time: self.end_time,
            distributed: self.distributed,
            campaign_ids: ids,
        }
    }
}

// ---------------------------------------------------------------------------
// Keyed marker lists
// ---------------------------------------------------------------------------

/// No (campaign, account) key occurs twice.
pub open spec fn pair_keys_unique(s: Seq<(u32, AccountId)>) -> bool {
    forall|i: int, j: int| 0 <= i < j < s.len() ==> s[i] != s[j]
}

/// Whether the (campaign, account) key is present.
pub open spec fn has_pair(s: Seq<(u32, AccountId)>, c: u32, a: AccountId) -> bool {
    exists|i: int| 0 <= i < s.len() && s[i] == (c, a)
}

/// Whether a vote record carries the given key.
pub open spec fn vote_key_is(r: VoteRecord, c: u32, m: u32, v: AccountId) -> bool {
    r.campaign_id == c && r.milestone_index == m && r.voter == v
}

/// No (campaign, milestone, voter) key occurs twice.
pub open spec fn vote_keys_unique(s: Seq<VoteRecord>) -> bool {
    forall|i: int, j: int|
        0 <= i < j < s.len() ==> !vote_key_is(
            #[trigger] s[j],
            (#[trigger] s[i]).campaign_id,
            s[i].milestone_index,
            s[i].voter,
        )
}

/// Whether a vote with the given key was recorded.
pub open spec fn has_vote(s: Seq<VoteRecord>, c: u32, m: u32, v: AccountId) -> bool {
    exists|i: int| 0 <= i < s.len() && vote_key_is(#[trigger] s[i], c, m, v)
}

/// The weight recorded under the given key, or zero if absent.
pub open spec fn vote_weight_spec(s: Seq<VoteRecord>, c: u32, m: u32, v: AccountId) -> Balance
    decreases s.len(),
{
    if s.len() == 0 {
        0
    } else if vote_key_is(s.last(), c, m, v) {
        s.last().weight
    } else {
        vote_weight_spec(s.drop_last(), c, m, v)
    }
}

/// With unique keys, the recorded weight is the weight of any record that
/// carries the key.
pub proof fn lemma_vote_weight_found(s: Seq<VoteRecord>, c: u32, m: u32, v: AccountId, k: int)
    requires
        vote_keys_unique(s),
        0 <= k < s.len(),
        vote_key_is(s[k], c, m, v),
    ensures
        vote_weight_spec(s, c, m, v) == s[k].weight,
    decreases s.len(),
{
    if k == s.len() - 1 {
        assert(vote_key_is(s.last(), c, m, v));
    } else {
        assert(!vote_key_is(s.last(), c, m, v)) by {
            assert(!vote_key_is(
                s[s.len() - 1],
                s[k].campaign_id,
                s[k].milestone_index,
                s[k].voter,
            ));
        }
        assert(vote_keys_unique(s.drop_last())) by {
            assert(forall|i: int, j: int|
                0 <= i < j < s.drop_last().len() ==> s.drop_last()[i] == s[i] && s.drop_last()[j]
                    == s[j]);
        }
        assert(s.drop_last()[k] == s[k]);
        lemma_vote_weight_found(s.drop_last(), c, m, v, k);
    }
}

/// Without a record under the key, the recorded weight is zero.
pub proof fn lemma_vote_weight_absent(s: Seq<VoteRecord>, c: u32, m: u32, v: AccountId)
    requires
        !has_vote(s, c, m, v),
    ensures
        vote_weight_spec(s, c, m, v) == 0,
    decreases s.len(),
{
    if s.len() > 0 {
        assert(!vote_key_is(s.last(), c, m, v)) by {
            if vote_key_is(s[s.len() - 1], c, m, v) {
                assert(has_vote(s, c, m, v));
            }
        }
        assert(!has_vote(s.drop_last(), c, m, v)) by {
            if has_vote(s.drop_last(), c, m, v) {
                let i = choose|i: int|
                    0 <= i < s.drop_last().len() && vote_key_is(#[trigger] s.drop_last()[i], c, m, v);
                assert(vote_key_is(s[i], c, m, v));
            }
        }
        lemma_vote_weight_absent(s.drop_last(), c, m, v);
    }
}

pub proof fn lemma_sum_amounts_push(s: Seq<Donation>, d: Donation)
    ensures
        sum_amounts(s.push(d)) == sum_amounts(s) + d.amount,
{
    assert(s.push(d).drop_last() =~= s);
    assert(s.push(d).last() == d);
}

pub proof fn lemma_sum_amounts_nonneg(s: Seq<Donation>)
    ensures
        sum_amounts(s) >= 0,
    decreases s.len(),
{
    if s.len() > 0 {
        lemma_sum_amounts_nonneg(s.drop_last());
    }
}

pub proof fn lemma_sum_roots_nonneg(s: Seq<Donation>)
    ensures
        sum_roots(s) >= 0,
    decreases s.len(),
{
    if s.len() > 0 {
        lemma_sum_roots_nonneg(s.drop_last());
    }
}

/// A donor's total never exceeds the gross total of the ledger.
pub proof fn lemma_donor_total_le_sum(s: Seq<Donation>, donor: AccountId)
    ensures
        0 <= donor_total(s, donor) <= sum_amounts(s),
    decreases s.len(),
{
    if s.len() > 0 {
        lemma_donor_total_le_sum(s.drop_last(), donor);
    }
}

/// Stepping a prefix of the ledger forward by one entry.
pub proof fn lemma_donor_total_take_step(s: Seq<Donation>, donor: AccountId, k: int)
    requires
        0 <= k < s.len(),
    ensures
        donor_total(s.take(k + 1), donor) == donor_total(s.take(k), donor) + if s[k].donor
            == donor {
            s[k].amount as int
        } else {
            0
        },
{
    assert(s.take(k + 1).drop_last() =~= s.take(k));
    assert(s.take(k + 1).last() == s[k]);
}

/// The gross sum of a prefix never exceeds the gross sum of the ledger.
pub proof fn lemma_sum_amounts_take_le(s: Seq<Donation>, k: int)
    requires
        0 <= k <= s.len(),
    ensures
        sum_amounts(s.take(k)) <= sum_amounts(s),
    decreases s.len() - k,
{
    if k == s.len() {
        assert(s.take(k) =~= s);
    } else {
        lemma_sum_amounts_take_le(s, k + 1);
        assert(s.take(k + 1).drop_last() =~= s.take(k));
        assert(s.take(k + 1).last() == s[k]);
    }
}

/// With every amount below the donation ceiling, each root is at most
/// ten million, so the root sum is bounded by the ledger length.
pub proof fn lemma_sum_roots_bound(s: Seq<Donation>)
    requires
        donations_wf(s),
    ensures
        sum_roots(s) <= s.len() * 10_000_000,
    decreases s.len(),
{
    if s.len() > 0 {
        let pre = s.drop_last();
        assert(donations_wf(pre)) by {
            assert(forall|i: int|
                0 <= i < pre.len() ==> pre[i] == s[i] && MIN_DONATION <= (#[trigger] s[i]).amount
                    <= MAX_DONATION);
        }
        lemma_sum_roots_bound(pre);
        let a = s.last().amount as nat;
        crate::math::lemma_spec_sqrt_bounds(a);
        let r = spec_sqrt(a);
        assert(r <= 10_000_000) by (nonlinear_arith)
            requires
                r * r <= a,
                a <= 100_000_000_000_000,
        {}
        assert(pre.len() * 10_000_000 + 10_000_000 == s.len() * 10_000_000) by (nonlinear_arith)
            requires
                pre.len() + 1 == s.len(),
        {}
    }
}

} // verus!
