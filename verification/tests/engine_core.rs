//! Campaign registry, donation ledger and settlement behaviour, exercised
//! through the public entry points.

use donation_platform::engine::Engine;
use donation_platform::types::{
    CampaignCreated, CampaignState, CampaignStateChanged, Error, Event, ReceiptRequest,
    TransferRequest, MIN_DONATION,
};

const ALICE: u64 = 1;
const BOB: u64 = 2;
const CHARLIE: u64 = 3;

fn new_platform() -> Engine {
    Engine::new(ALICE)
}

fn basic_campaign(platform: &mut Engine) -> u32 {
    platform
        .create_campaign(
            ALICE,
            0,
            String::from("Test Campaign"),
            String::from("Description"),
            1000,
            10_000_000,
            BOB,
        )
        .unwrap()
}

#[test]
fn create_campaign_works() {
    let mut platform = new_platform();
    let result = platform.create_campaign(
        ALICE,
        0,
        String::from("Test Campaign"),
        String::from("Description"),
        1000,
        10_000_000,
        BOB,
    );
    assert!(result.is_ok());
    assert_eq!(platform.get_campaign_count(), 1);
}

#[test]
fn batch_create_campaigns_works() {
    let mut platform = new_platform();
    let campaigns_data = vec![
        (
            String::from("Campaign 1"),
            String::from("Desc 1"),
            1000u128,
            10_000_000u64,
            BOB,
        ),
        (
            String::from("Campaign 2"),
            String::from("Desc 2"),
            2000u128,
            10_000_000u64,
            BOB,
        ),
    ];
    let result = platform.create_campaigns_batch(ALICE, 0, campaigns_data);
    assert!(result.is_ok());
    let batch_result = result.unwrap();
    assert_eq!(batch_result.successful, 2);
    assert_eq!(batch_result.failed, 0);
    assert_eq!(platform.get_campaign_count(), 2);
}

#[test]
fn version_tracking_works() {
    let platform = new_platform();
    assert_eq!(platform.get_version(), 2);
}

#[test]
fn invalid_campaign_title_fails() {
    let mut platform = new_platform();
    let result = platform.create_campaign(
        ALICE,
        0,
        String::from(""),
        String::from("Description"),
        1000,
        10_000_000,
        BOB,
    );
    assert_eq!(result, Err(Error::InvalidTitle));

    let long_title = "a".repeat(101);
    let result = platform.create_campaign(
        ALICE,
        0,
        long_title,
        String::from("Description"),
        1000,
        10_000_000,
        BOB,
    );
    assert_eq!(result, Err(Error::InvalidTitle));
}

#[test]
fn invalid_goal_fails() {
    let mut platform = new_platform();
    let result = platform.create_campaign(
        ALICE,
        0,
        String::from("Test"),
        String::from("Description"),
        0,
        10_000_000,
        BOB,
    );
    assert_eq!(result, Err(Error::InvalidGoal));

    let result = platform.create_campaign(
        ALICE,
        0,
        String::from("Test"),
        String::from("Description"),
        1_000_000_000_000_001,
        10_000_000,
        BOB,
    );
    assert_eq!(result, Err(Error::InvalidGoal));
}

#[test]
fn invalid_deadline_fails() {
    let mut platform = new_platform();
    let result = platform.create_campaign(
        ALICE,
        0,
        String::from("Test"),
        String::from("Description"),
        1000,
        1000,
        BOB,
    );
    assert_eq!(result, Err(Error::InvalidDeadline));
}

#[test]
fn invalid_beneficiary_fails() {
    let mut platform = new_platform();
    let result = platform.create_campaign(
        ALICE,
        0,
        String::from("Test"),
        String::from("Description"),
        1000,
        10_000_000,
        0,
    );
    assert_eq!(result, Err(Error::InvalidBeneficiary));
}

#[test]
fn invalid_description_fails() {
    let mut platform = new_platform();
    let result = platform.create_campaign(
        ALICE,
        0,
        String::from("Test"),
        "d".repeat(1001),
        1000,
        10_000_000,
        BOB,
    );
    assert_eq!(result, Err(Error::InvalidDescription));
}

#[test]
fn cancel_campaign_works() {
    let mut platform = new_platform();
    let campaign_id = basic_campaign(&mut platform);
    let result = platform.cancel_campaign(ALICE, campaign_id);
    assert!(result.is_ok());
    let campaign = platform.get_campaign(campaign_id).unwrap();
    assert_eq!(campaign.state, CampaignState::Failed);
}

#[test]
fn non_owner_cannot_cancel() {
    let mut platform = new_platform();
    let campaign_id = basic_campaign(&mut platform);
    let result = platform.cancel_campaign(BOB, campaign_id);
    assert_eq!(result, Err(Error::NotCampaignOwner));
}

#[test]
fn minimum_donation_enforced() {
    let mut platform = new_platform();
    let campaign_id = basic_campaign(&mut platform);
    let result = platform.process_donation(ALICE, 0, campaign_id, MIN_DONATION - 1);
    assert_eq!(result, Err(Error::InvalidDonationAmount));
    let result = platform.process_donation(ALICE, 0, campaign_id, MIN_DONATION);
    assert!(result.is_ok());
}

#[test]
fn donation_count_overflow_protection() {
    let mut platform = new_platform();
    let campaign_id = basic_campaign(&mut platform);
    platform.campaigns[campaign_id as usize].donation_count = u32::MAX;
    let result = platform.process_donation(ALICE, 0, campaign_id, MIN_DONATION);
    assert_eq!(result, Err(Error::ArithmeticOverflow));
}

#[test]
fn get_campaign_details_works() {
    let mut platform = new_platform();
    let campaign_id = platform
        .create_campaign(
            ALICE,
            0,
            String::from("Test Campaign"),
            String::from("Description"),
            10_000_000_000,
            10_000_000,
            BOB,
        )
        .unwrap();
    platform
        .process_donation(ALICE, 0, campaign_id, MIN_DONATION)
        .unwrap();
    platform
        .process_donation(ALICE, 0, campaign_id, MIN_DONATION * 2)
        .unwrap();
    let details = platform.get_campaign_details(campaign_id, 0, 10).unwrap();
    assert_eq!(details.total_donations, 2);
    assert_eq!(details.donations.len(), 2);
}

#[test]
fn batch_operations_respect_max_size() {
    let mut platform = new_platform();
    let mut campaigns_data = Vec::new();
    for _ in 0..51 {
        campaigns_data.push((
            String::from("Campaign"),
            String::from("Desc"),
            1000u128,
            10_000_000u64,
            BOB,
        ));
    }
    let result = platform.create_campaigns_batch(ALICE, 0, campaigns_data);
    assert_eq!(result, Err(Error::BatchSizeTooLarge));
    // The whole batch is rejected: nothing was created.
    assert_eq!(platform.get_campaign_count(), 0);
}

#[test]
fn set_max_batch_size_requires_admin() {
    let mut platform = new_platform();
    let result = platform.set_max_batch_size(BOB, 100);
    assert_eq!(result, Err(Error::NotAdmin));
}

#[test]
fn set_max_batch_size_works() {
    let mut platform = new_platform();
    let result = platform.set_max_batch_size(ALICE, 100);
    assert!(result.is_ok());
    assert_eq!(platform.get_max_batch_size(), 100);
}

#[test]
fn get_campaigns_paginated_works() {
    let mut platform = new_platform();
    for i in 0..5 {
        platform
            .create_campaign(
                ALICE,
                0,
                format!("Campaign {}", i),
                String::from("Description"),
                1000,
                10_000_000,
                BOB,
            )
            .unwrap();
    }
    let campaigns = platform.get_campaigns_paginated(0, 3);
    assert_eq!(campaigns.len(), 3);
    let campaigns = platform.get_campaigns_paginated(3, 3);
    assert_eq!(campaigns.len(), 2);
}

#[test]
fn migration_constructor_works() {
    let platform = Engine::migrate_from_v1(42, ALICE);
    assert_eq!(platform.get_campaign_count(), 42);
    assert_eq!(platform.get_version(), 2);
}

#[test]
fn migrated_ids_continue_after_predecessor() {
    let mut platform = Engine::migrate_from_v1(42, ALICE);
    assert!(platform.get_campaign(0).is_none());
    let id = basic_campaign(&mut platform);
    assert_eq!(id, 42);
    assert!(platform.get_campaign(42).is_some());
}

#[test]
fn campaign_reaches_goal() {
    let mut platform = new_platform();
    let campaign_id = platform
        .create_campaign(
            ALICE,
            0,
            String::from("Test Campaign"),
            String::from("Description"),
            10_000_000,
            10_000_000,
            BOB,
        )
        .unwrap();
    platform
        .process_donation(ALICE, 0, campaign_id, 10_000_000)
        .unwrap();
    let campaign = platform.get_campaign(campaign_id).unwrap();
    assert_eq!(campaign.state, CampaignState::Successful);
    assert_eq!(campaign.raised, 10_000_000);
}

#[test]
fn cannot_donate_to_inactive_campaign() {
    let mut platform = new_platform();
    let campaign_id = basic_campaign(&mut platform);
    platform.cancel_campaign(ALICE, campaign_id).unwrap();
    let result = platform.process_donation(ALICE, 0, campaign_id, MIN_DONATION);
    assert_eq!(result, Err(Error::CampaignNotActive));
}

#[test]
fn get_active_campaigns_filters_correctly() {
    let mut platform = new_platform();
    for i in 0..3 {
        platform
            .create_campaign(
                ALICE,
                0,
                format!("Campaign {}", i),
                String::from("Description"),
                1000,
                10_000_000,
                BOB,
            )
            .unwrap();
    }
    platform.cancel_campaign(ALICE, 1).unwrap();
    let active = platform.get_active_campaigns(0, 10);
    assert_eq!(active.len(), 2);
}

#[test]
fn platform_fee_deducted() {
    let mut platform = new_platform();
    let campaign_id = basic_campaign(&mut platform);
    platform
        .process_donation(ALICE, 0, campaign_id, 10_000_000)
        .unwrap();
    // The ledger records the gross amount; the 3% fee goes to the treasury
    // as a transfer request.
    let campaign = platform.get_campaign(campaign_id).unwrap();
    assert_eq!(campaign.raised, 10_000_000);
    assert_eq!(
        platform.transfers.last(),
        Some(&TransferRequest {
            to: ALICE,
            amount: 300_000
        })
    );
}

#[test]
fn withdrawal_respects_fees() {
    let mut platform = new_platform();
    let campaign_id = platform
        .create_campaign(
            ALICE,
            0,
            String::from("Test Campaign"),
            String::from("Description"),
            100,
            10_000_000,
            BOB,
        )
        .unwrap();
    platform
        .process_donation(ALICE, 0, campaign_id, 10_000_000)
        .unwrap();
    let campaign = platform.get_campaign(campaign_id).unwrap();
    assert_eq!(campaign.state, CampaignState::Successful);
    let result = platform.withdraw_funds(ALICE, 0, campaign_id);
    assert_eq!(result, Ok(()));
    // Net payout: 10_000_000 gross minus the 300_000 fee already taken.
    assert_eq!(
        platform.transfers.last(),
        Some(&TransferRequest {
            to: BOB,
            amount: 9_700_000
        })
    );
    assert_eq!(
        platform.get_campaign(campaign_id).unwrap().state,
        CampaignState::Withdrawn
    );
}

#[test]
fn ledger_sum_equals_raised() {
    let mut platform = new_platform();
    let campaign_id = platform
        .create_campaign(
            ALICE,
            0,
            String::from("Test Campaign"),
            String::from("Description"),
            10_000_000_000,
            10_000_000,
            BOB,
        )
        .unwrap();
    platform
        .process_donation(ALICE, 1, campaign_id, 2_000_000)
        .unwrap();
    platform
        .process_donation(BOB, 2, campaign_id, 3_000_000)
        .unwrap();
    platform
        .process_donation(CHARLIE, 3, campaign_id, 5_000_000)
        .unwrap();
    let details = platform.get_campaign_details(campaign_id, 0, 100).unwrap();
    let ledger_sum: u128 = details.donations.iter().map(|d| d.amount).sum();
    assert_eq!(ledger_sum, details.campaign.raised);
    assert_eq!(ledger_sum, 10_000_000);
}

#[test]
fn donation_past_deadline_fails_campaign() {
    let mut platform = new_platform();
    let campaign_id = basic_campaign(&mut platform);
    // Deadlines are evaluated lazily: the touch itself fails the campaign.
    let result = platform.donate(ALICE, 20_000_000, campaign_id, MIN_DONATION);
    assert_eq!(result, Err(Error::DeadlinePassed));
    assert_eq!(
        platform.get_campaign(campaign_id).unwrap().state,
        CampaignState::Failed
    );
    assert_eq!(
        platform.events.last(),
        Some(&Event::CampaignStateChanged(CampaignStateChanged {
            campaign_id,
            state: CampaignState::Failed,
            timestamp: 20_000_000
        }))
    );
}

#[test]
fn dust_donation_rejected_and_raised_unchanged() {
    let mut platform = new_platform();
    let campaign_id = platform
        .create_campaign(
            ALICE,
            0,
            String::from("Test Campaign"),
            String::from("Description"),
            10_000_000_000,
            10_000_000,
            BOB,
        )
        .unwrap();
    let result = platform.donate(ALICE, 0, campaign_id, 999_999);
    assert_eq!(result, Err(Error::InvalidDonationAmount));
    assert_eq!(platform.get_campaign(campaign_id).unwrap().raised, 0);
}

#[test]
fn donate_to_unknown_campaign_fails() {
    let mut platform = new_platform();
    let result = platform.donate(ALICE, 0, 99, MIN_DONATION);
    assert_eq!(result, Err(Error::CampaignNotFound));
}

#[test]
fn withdraw_requires_goal_or_deadline() {
    let mut platform = new_platform();
    let campaign_id = platform
        .create_campaign(
            ALICE,
            0,
            String::from("Test Campaign"),
            String::from("Description"),
            10_000_000_000,
            10_000_000,
            BOB,
        )
        .unwrap();
    platform
        .process_donation(ALICE, 0, campaign_id, MIN_DONATION)
        .unwrap();
    let result = platform.withdraw_funds(ALICE, 1, campaign_id);
    assert_eq!(result, Err(Error::GoalNotReached));
}

#[test]
fn withdraw_by_stranger_fails() {
    let mut platform = new_platform();
    let campaign_id = basic_campaign(&mut platform);
    let result = platform.withdraw_funds(CHARLIE, 0, campaign_id);
    assert_eq!(result, Err(Error::NotCampaignOwner));
}

#[test]
fn withdraw_twice_fails() {
    let mut platform = new_platform();
    let campaign_id = basic_campaign(&mut platform);
    platform
        .process_donation(ALICE, 0, campaign_id, MIN_DONATION)
        .unwrap();
    platform.withdraw_funds(ALICE, 0, campaign_id).unwrap();
    let result = platform.withdraw_funds(ALICE, 0, campaign_id);
    assert_eq!(result, Err(Error::FundsAlreadyWithdrawn));
}

#[test]
fn withdraw_nothing_settles_as_failed() {
    let mut platform = new_platform();
    let campaign_id = basic_campaign(&mut platform);
    // Past the deadline with nothing raised: terminal, no transfer, no error.
    let transfers_before = platform.transfers.len();
    let result = platform.withdraw_funds(ALICE, 20_000_000, campaign_id);
    assert_eq!(result, Ok(()));
    assert_eq!(platform.transfers.len(), transfers_before);
    assert_eq!(
        platform.get_campaign(campaign_id).unwrap().state,
        CampaignState::Failed
    );
}

#[test]
fn withdraw_batch_tallies_results() {
    let mut platform = new_platform();
    let first = basic_campaign(&mut platform);
    let second = platform
        .create_campaign(
            ALICE,
            0,
            String::from("Second"),
            String::from("Description"),
            10_000_000_000,
            10_000_000,
            BOB,
        )
        .unwrap();
    platform.process_donation(ALICE, 0, first, MIN_DONATION).unwrap();
    // `first` reached its goal; `second` did not and its deadline has not
    // passed, so only `first` can be withdrawn.
    let result = platform
        .withdraw_funds_batch(ALICE, 1, vec![first, second])
        .unwrap();
    assert_eq!(result.successful, 1);
    assert_eq!(result.failed, 1);
    assert_eq!(result.success_ids, vec![first]);
}

#[test]
fn refund_claimed_exactly_once() {
    let mut platform = new_platform();
    let campaign_id = platform
        .create_campaign(
            ALICE,
            0,
            String::from("Test Campaign"),
            String::from("Description"),
            10_000_000_000,
            10_000_000,
            BOB,
        )
        .unwrap();
    platform
        .process_donation(CHARLIE, 0, campaign_id, 5_000_000)
        .unwrap();
    platform.cancel_campaign(ALICE, campaign_id).unwrap();
    let result = platform.claim_refund(CHARLIE, campaign_id);
    assert_eq!(result, Ok(()));
    assert_eq!(
        platform.transfers.last(),
        Some(&TransferRequest {
            to: CHARLIE,
            amount: 5_000_000
        })
    );
    let second = platform.claim_refund(CHARLIE, campaign_id);
    assert_eq!(second, Err(Error::RefundAlreadyClaimed));
}

#[test]
fn refund_requires_failed_campaign() {
    let mut platform = new_platform();
    let campaign_id = basic_campaign(&mut platform);
    let result = platform.claim_refund(ALICE, campaign_id);
    assert_eq!(result, Err(Error::CampaignNotFailed));
}

#[test]
fn refund_requires_a_donation() {
    let mut platform = new_platform();
    let campaign_id = basic_campaign(&mut platform);
    platform.cancel_campaign(ALICE, campaign_id).unwrap();
    let result = platform.claim_refund(CHARLIE, campaign_id);
    assert_eq!(result, Err(Error::NoDonationFound));
}

#[test]
fn reentrant_calls_fail_fast() {
    let mut platform = new_platform();
    let campaign_id = basic_campaign(&mut platform);
    let snapshot_count = platform.get_campaign_count();
    platform.locked = true;
    assert_eq!(
        platform.donate(ALICE, 0, campaign_id, MIN_DONATION),
        Err(Error::ReentrantCall)
    );
    assert_eq!(
        platform.withdraw_funds(ALICE, 0, campaign_id),
        Err(Error::ReentrantCall)
    );
    assert_eq!(
        platform.claim_refund(ALICE, campaign_id),
        Err(Error::ReentrantCall)
    );
    assert_eq!(
        platform.withdraw_funds_batch(ALICE, 0, vec![campaign_id]),
        Err(Error::ReentrantCall)
    );
    // Prior state is untouched.
    assert_eq!(platform.get_campaign_count(), snapshot_count);
    assert_eq!(platform.get_campaign(campaign_id).unwrap().raised, 0);
    platform.locked = false;
    assert_eq!(platform.donate(ALICE, 0, campaign_id, MIN_DONATION), Ok(()));
}

#[test]
fn create_emits_event() {
    let mut platform = new_platform();
    let campaign_id = basic_campaign(&mut platform);
    assert_eq!(
        platform.events.last(),
        Some(&Event::CampaignCreated(CampaignCreated {
            campaign_id,
            owner: ALICE,
            goal: 1000,
            deadline: 10_000_000
        }))
    );
}

#[test]
fn receipts_requested_when_enabled() {
    let mut platform = new_platform();
    let campaign_id = basic_campaign(&mut platform);
    platform.set_nft_contract(ALICE, 77).unwrap();
    platform.set_nft_enabled(ALICE, true).unwrap();
    assert_eq!(platform.get_nft_contract(), Some(77));
    assert!(platform.is_nft_enabled());
    platform.donate(BOB, 5, campaign_id, MIN_DONATION).unwrap();
    // A best-effort receipt mint is requested; its outcome never affects
    // the donation itself.
    assert_eq!(
        platform.receipts.last(),
        Some(&ReceiptRequest {
            nft_contract: 77,
            donor: BOB,
            campaign_id,
            campaign_title: String::from("Test Campaign"),
            amount: MIN_DONATION,
            timestamp: 5
        })
    );
}

#[test]
fn details_page_is_clamped() {
    let mut platform = new_platform();
    let campaign_id = platform
        .create_campaign(
            ALICE,
            0,
            String::from("Test Campaign"),
            String::from("Description"),
            10_000_000_000,
            10_000_000,
            BOB,
        )
        .unwrap();
    platform
        .process_donation(ALICE, 0, campaign_id, MIN_DONATION)
        .unwrap();
    platform
        .process_donation(BOB, 0, campaign_id, MIN_DONATION)
        .unwrap();
    let details = platform.get_campaign_details(campaign_id, 5, 10).unwrap();
    assert_eq!(details.total_donations, 2);
    assert!(details.donations.is_empty());
    let details = platform.get_campaign_details(campaign_id, 1, 10).unwrap();
    assert_eq!(details.donations.len(), 1);
}

#[test]
fn deadline_bounds_are_inclusive() {
    let mut platform = new_platform();
    // Exactly one hour from now is the earliest acceptable deadline.
    let result = platform.create_campaign(
        ALICE,
        0,
        String::from("Test"),
        String::from("Description"),
        1000,
        3_600_000,
        BOB,
    );
    assert!(result.is_ok());
    // One millisecond less is rejected.
    let result = platform.create_campaign(
        ALICE,
        0,
        String::from("Test"),
        String::from("Description"),
        1000,
        3_599_999,
        BOB,
    );
    assert_eq!(result, Err(Error::InvalidDeadline));
    // Exactly one year from now is the latest acceptable deadline.
    let result = platform.create_campaign(
        ALICE,
        0,
        String::from("Test"),
        String::from("Description"),
        1000,
        31_536_000_000,
        BOB,
    );
    assert!(result.is_ok());
    let result = platform.create_campaign(
        ALICE,
        0,
        String::from("Test"),
        String::from("Description"),
        1000,
        31_536_000_001,
        BOB,
    );
    assert_eq!(result, Err(Error::InvalidDeadline));
}
