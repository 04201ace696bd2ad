//! Quadratic-funding matching and milestone governance, exercised through
//! the public entry points.

use donation_platform::engine::Engine;
use donation_platform::sqrt;
use donation_platform::types::{CampaignState, Error, TransferRequest};

const ALICE: u64 = 1;
const BOB: u64 = 2;
const CHARLIE: u64 = 3;

fn new_platform() -> Engine {
    Engine::new(ALICE)
}

fn campaign_with_goal(platform: &mut Engine, goal: u128) -> u32 {
    platform
        .create_campaign(
            ALICE,
            0,
            String::from("Milestoned"),
            String::from("Description"),
            goal,
            10_000_000,
            BOB,
        )
        .unwrap()
}

#[test]
fn sqrt_computes_integer_floor() {
    assert_eq!(sqrt(0), 0);
    assert_eq!(sqrt(1), 1);
    assert_eq!(sqrt(99), 9);
    assert_eq!(sqrt(100), 10);
    assert_eq!(sqrt(400), 20);
    assert_eq!(sqrt(1_000_000), 1000);
    assert_eq!(sqrt(u128::MAX), (1u128 << 64) - 1);
}

#[test]
fn qf_score_squares_the_root_sum() {
    let mut platform = new_platform();
    let campaign_id = campaign_with_goal(&mut platform, 10_000_000_000);
    // Two donations of 100 and 400 units, at the million scale the ledger
    // accepts: sqrt contributions 10_000 and 20_000, squared.
    platform
        .process_donation(BOB, 0, campaign_id, 100_000_000)
        .unwrap();
    platform
        .process_donation(CHARLIE, 0, campaign_id, 400_000_000)
        .unwrap();
    let score = platform.calculate_qf_score(campaign_id);
    assert_eq!(score, (10_000 + 20_000) * (10_000 + 20_000));
    assert_eq!(score, 900_000_000);
}

#[test]
fn matching_pool_and_round_lifecycle() {
    let mut platform = new_platform();
    assert_eq!(
        platform.fund_matching_pool(BOB, 0),
        Err(Error::InvalidDonationAmount)
    );
    platform.fund_matching_pool(BOB, 1_000_000).unwrap();
    assert_eq!(platform.get_matching_pool_balance(), 1_000_000);
    assert_eq!(
        platform.create_matching_round(BOB, 0, 600_000, 1000),
        Err(Error::NotAdmin)
    );
    assert_eq!(
        platform.create_matching_round(ALICE, 0, 2_000_000, 1000),
        Err(Error::InsufficientMatchingPool)
    );
    let round_id = platform.create_matching_round(ALICE, 0, 600_000, 1000).unwrap();
    assert_eq!(round_id, 0);
    assert_eq!(platform.get_current_round(), Some(0));
    assert_eq!(platform.get_matching_pool_balance(), 400_000);
    let round = platform.get_round(round_id).unwrap();
    assert_eq!(round.pool_amount, 600_000);
    assert_eq!(round.end_time, 1000);
    assert!(!round.distributed);
}

#[test]
fn distribution_allocates_by_score() {
    let mut platform = new_platform();
    platform.fund_matching_pool(BOB, 10_000_000).unwrap();
    let round_id = platform
        .create_matching_round(ALICE, 0, 9_000_000, 1000)
        .unwrap();
    // Campaigns created while the round is open participate in it.
    let first = campaign_with_goal(&mut platform, 10_000_000_000);
    let second = platform
        .create_campaign(
            ALICE,
            0,
            String::from("Second"),
            String::from("Description"),
            10_000_000_000,
            10_000_000,
            CHARLIE,
        )
        .unwrap();
    // Scores: first gets sqrt(1_000_000)^2 = 1_000_000 from one donation;
    // second gets (1000 + 1000)^2 = 4_000_000 from two donations.
    platform.process_donation(BOB, 0, first, 1_000_000).unwrap();
    platform
        .process_donation(BOB, 0, second, 1_000_000)
        .unwrap();
    platform
        .process_donation(CHARLIE, 0, second, 1_000_000)
        .unwrap();
    assert_eq!(platform.calculate_qf_score(first), 1_000_000);
    assert_eq!(platform.calculate_qf_score(second), 4_000_000);
    // Before the end of the round nothing may be distributed.
    assert_eq!(
        platform.calculate_and_distribute_matching(ALICE, 500, round_id),
        Err(Error::RoundNotEnded)
    );
    // Estimates recompute the same formula before distribution.
    assert_eq!(platform.get_estimated_matching(first), 1_800_000);
    assert_eq!(platform.get_estimated_matching(second), 7_200_000);
    platform
        .calculate_and_distribute_matching(ALICE, 1000, round_id)
        .unwrap();
    // Shares: floor(score * pool / total_score).
    assert_eq!(
        platform.get_campaign(first).unwrap().matching_amount,
        1_800_000
    );
    assert_eq!(
        platform.get_campaign(second).unwrap().matching_amount,
        7_200_000
    );
    assert!(platform.get_round(round_id).unwrap().distributed);
    assert_eq!(platform.get_current_round(), None);
    // Only once.
    assert_eq!(
        platform.calculate_and_distribute_matching(ALICE, 1000, round_id),
        Err(Error::AlreadyDistributed)
    );
    // The estimate now reports the allocated amount.
    assert_eq!(platform.get_estimated_matching(first), 1_800_000);
}

#[test]
fn distribution_of_unknown_round_fails() {
    let mut platform = new_platform();
    assert_eq!(
        platform.calculate_and_distribute_matching(ALICE, 0, 5),
        Err(Error::RoundNotFound)
    );
}

#[test]
fn unique_donor_count_counts_marked_entries() {
    let mut platform = new_platform();
    let campaign_id = campaign_with_goal(&mut platform, 10_000_000_000);
    platform
        .process_donation(BOB, 0, campaign_id, 1_000_000)
        .unwrap();
    platform
        .process_donation(CHARLIE, 0, campaign_id, 1_000_000)
        .unwrap();
    assert_eq!(platform.get_unique_donor_count(campaign_id), 2);
    // A repeat donor adds another ledger entry, and the count follows the
    // ledger entries whose donor is marked.
    platform
        .process_donation(BOB, 0, campaign_id, 1_000_000)
        .unwrap();
    assert_eq!(platform.get_unique_donor_count(campaign_id), 3);
}

#[test]
fn milestones_must_sum_to_full_basis_points() {
    let mut platform = new_platform();
    let campaign_id = campaign_with_goal(&mut platform, 100_000_000);
    let result = platform.add_milestones(
        ALICE,
        0,
        campaign_id,
        vec![(String::from("Half"), 5000, 30)],
    );
    assert_eq!(result, Err(Error::InvalidPercentageSum));
}

#[test]
fn milestone_descriptions_are_validated() {
    let mut platform = new_platform();
    let campaign_id = campaign_with_goal(&mut platform, 100_000_000);
    let result = platform.add_milestones(
        ALICE,
        0,
        campaign_id,
        vec![
            (String::from("Good"), 5000, 30),
            (String::from(""), 5000, 30),
        ],
    );
    assert_eq!(result, Err(Error::InvalidDescription));
}

#[test]
fn milestone_release_requires_two_thirds_approval() {
    let mut platform = new_platform();
    let campaign_id = campaign_with_goal(&mut platform, 100_000_000);
    platform
        .add_milestones(
            ALICE,
            0,
            campaign_id,
            vec![(String::from("Everything"), 10_000, 30)],
        )
        .unwrap();
    // Weighted 70 for vs 30 against: 70% approval releases the funds.
    platform
        .process_donation(BOB, 0, campaign_id, 70_000_000)
        .unwrap();
    platform
        .process_donation(CHARLIE, 0, campaign_id, 30_000_000)
        .unwrap();
    assert_eq!(
        platform.get_campaign(campaign_id).unwrap().state,
        CampaignState::Successful
    );
    platform
        .activate_milestone_voting(ALICE, 100, campaign_id, 0)
        .unwrap();
    platform
        .vote_on_milestone(BOB, campaign_id, 0, true)
        .unwrap();
    platform
        .vote_on_milestone(CHARLIE, campaign_id, 0, false)
        .unwrap();
    assert!(platform.has_voted_on_milestone(campaign_id, 0, BOB));
    assert_eq!(platform.get_vote_weight(campaign_id, 0, BOB), 70_000_000);
    assert_eq!(
        platform.get_vote_weight(campaign_id, 0, CHARLIE),
        30_000_000
    );
    let result = platform.release_milestone_funds(ALICE, campaign_id, 0);
    assert_eq!(result, Ok(()));
    assert_eq!(
        platform.transfers.last(),
        Some(&TransferRequest {
            to: BOB,
            amount: 100_000_000
        })
    );
    let milestones = platform.get_milestones(campaign_id).unwrap();
    assert!(milestones[0].released);
    assert!(!milestones[0].voting_active);
    // All milestones released: the campaign is settled.
    assert_eq!(
        platform.get_campaign(campaign_id).unwrap().state,
        CampaignState::Withdrawn
    );
}

#[test]
fn milestone_release_rejected_below_threshold() {
    let mut platform = new_platform();
    let campaign_id = campaign_with_goal(&mut platform, 100_000_000);
    platform
        .add_milestones(
            ALICE,
            0,
            campaign_id,
            vec![(String::from("Everything"), 10_000, 30)],
        )
        .unwrap();
    // Weighted 60 for vs 40 against: 60% approval is not enough.
    platform
        .process_donation(BOB, 0, campaign_id, 60_000_000)
        .unwrap();
    platform
        .process_donation(CHARLIE, 0, campaign_id, 40_000_000)
        .unwrap();
    platform
        .activate_milestone_voting(ALICE, 100, campaign_id, 0)
        .unwrap();
    platform
        .vote_on_milestone(BOB, campaign_id, 0, true)
        .unwrap();
    platform
        .vote_on_milestone(CHARLIE, campaign_id, 0, false)
        .unwrap();
    let result = platform.release_milestone_funds(ALICE, campaign_id, 0);
    assert_eq!(result, Err(Error::ApprovalTooLow));
    assert!(!platform.get_milestones(campaign_id).unwrap()[0].released);
}

#[test]
fn milestones_release_in_order() {
    let mut platform = new_platform();
    let campaign_id = campaign_with_goal(&mut platform, 100_000_000);
    platform
        .add_milestones(
            ALICE,
            0,
            campaign_id,
            vec![
                (String::from("First half"), 5000, 30),
                (String::from("Second half"), 5000, 60),
            ],
        )
        .unwrap();
    platform
        .process_donation(BOB, 0, campaign_id, 100_000_000)
        .unwrap();
    // The second milestone cannot open before the first is released.
    assert_eq!(
        platform.activate_milestone_voting(ALICE, 100, campaign_id, 1),
        Err(Error::PreviousMilestoneNotReleased)
    );
    platform
        .activate_milestone_voting(ALICE, 100, campaign_id, 0)
        .unwrap();
    platform
        .vote_on_milestone(BOB, campaign_id, 0, true)
        .unwrap();
    platform
        .release_milestone_funds(ALICE, campaign_id, 0)
        .unwrap();
    // Half of the funds went out; the campaign is not settled yet.
    assert_eq!(
        platform.transfers.last(),
        Some(&TransferRequest {
            to: BOB,
            amount: 50_000_000
        })
    );
    assert_eq!(
        platform.get_campaign(campaign_id).unwrap().state,
        CampaignState::Successful
    );
    platform
        .activate_milestone_voting(ALICE, 100, campaign_id, 1)
        .unwrap();
    platform
        .vote_on_milestone(BOB, campaign_id, 1, true)
        .unwrap();
    platform
        .release_milestone_funds(ALICE, campaign_id, 1)
        .unwrap();
    assert_eq!(
        platform.get_campaign(campaign_id).unwrap().state,
        CampaignState::Withdrawn
    );
}

#[test]
fn voting_rules_are_enforced() {
    let mut platform = new_platform();
    let campaign_id = campaign_with_goal(&mut platform, 100_000_000);
    platform
        .add_milestones(
            ALICE,
            0,
            campaign_id,
            vec![(String::from("Everything"), 10_000, 30)],
        )
        .unwrap();
    platform
        .process_donation(BOB, 0, campaign_id, 100_000_000)
        .unwrap();
    // Voting must be activated first, on a successful campaign, by the owner.
    assert_eq!(
        platform.vote_on_milestone(BOB, campaign_id, 0, true),
        Err(Error::VotingNotActive)
    );
    assert_eq!(
        platform.activate_milestone_voting(BOB, 100, campaign_id, 0),
        Err(Error::NotCampaignOwner)
    );
    assert_eq!(
        platform.activate_milestone_voting(ALICE, 100, campaign_id, 9),
        Err(Error::MilestoneNotFound)
    );
    platform
        .activate_milestone_voting(ALICE, 100, campaign_id, 0)
        .unwrap();
    // Only donors vote, and only once.
    assert_eq!(
        platform.vote_on_milestone(CHARLIE, campaign_id, 0, true),
        Err(Error::NoDonationFound)
    );
    platform
        .vote_on_milestone(BOB, campaign_id, 0, true)
        .unwrap();
    assert_eq!(
        platform.vote_on_milestone(BOB, campaign_id, 0, false),
        Err(Error::AlreadyVoted)
    );
    // Without a single vote cast, nothing can be released.
    let empty = campaign_with_goal(&mut platform, 100_000_000);
    platform
        .add_milestones(ALICE, 0, empty, vec![(String::from("All"), 10_000, 30)])
        .unwrap();
    platform.process_donation(BOB, 0, empty, 100_000_000).unwrap();
    platform
        .activate_milestone_voting(ALICE, 100, empty, 0)
        .unwrap();
    assert_eq!(
        platform.release_milestone_funds(ALICE, empty, 0),
        Err(Error::NoVotesCast)
    );
}

#[test]
fn activation_requires_success() {
    let mut platform = new_platform();
    let campaign_id = campaign_with_goal(&mut platform, 100_000_000);
    platform
        .add_milestones(
            ALICE,
            0,
            campaign_id,
            vec![(String::from("Everything"), 10_000, 30)],
        )
        .unwrap();
    assert_eq!(
        platform.activate_milestone_voting(ALICE, 100, campaign_id, 0),
        Err(Error::CampaignNotSuccessful)
    );
}

#[test]
fn milestone_voting_deadline_enforced() {
    let mut platform = new_platform();
    let campaign_id = campaign_with_goal(&mut platform, 100_000_000);
    platform
        .add_milestones(
            ALICE,
            0,
            campaign_id,
            vec![(String::from("Everything"), 10_000, 1)],
        )
        .unwrap();
    platform
        .process_donation(BOB, 0, campaign_id, 100_000_000)
        .unwrap();
    // One day later the milestone's own deadline has passed.
    assert_eq!(
        platform.activate_milestone_voting(ALICE, 90_000_000, campaign_id, 0),
        Err(Error::DeadlinePassed)
    );
}

#[test]
fn released_milestone_cannot_be_released_again() {
    let mut platform = new_platform();
    let campaign_id = campaign_with_goal(&mut platform, 100_000_000);
    platform
        .add_milestones(
            ALICE,
            0,
            campaign_id,
            vec![(String::from("Everything"), 10_000, 30)],
        )
        .unwrap();
    platform
        .process_donation(BOB, 0, campaign_id, 100_000_000)
        .unwrap();
    platform
        .activate_milestone_voting(ALICE, 100, campaign_id, 0)
        .unwrap();
    platform
        .vote_on_milestone(BOB, campaign_id, 0, true)
        .unwrap();
    platform
        .release_milestone_funds(ALICE, campaign_id, 0)
        .unwrap();
    assert_eq!(
        platform.release_milestone_funds(ALICE, campaign_id, 0),
        Err(Error::MilestoneAlreadyReleased)
    );
}

#[test]
fn estimate_is_zero_outside_a_round() {
    let mut platform = new_platform();
    let campaign_id = campaign_with_goal(&mut platform, 10_000_000_000);
    platform
        .process_donation(BOB, 0, campaign_id, 1_000_000)
        .unwrap();
    assert_eq!(platform.get_estimated_matching(campaign_id), 0);
    assert_eq!(platform.get_estimated_matching(99), 0);
}

#[test]
fn vote_weight_is_zero_without_a_vote() {
    let platform = new_platform();
    assert_eq!(platform.get_vote_weight(0, 0, BOB), 0);
    assert!(!platform.has_voted_on_milestone(0, 0, BOB));
}
