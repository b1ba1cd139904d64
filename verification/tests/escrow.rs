use crowd_fund::address::Address;
use crowd_fund::campaign::{space, ErrorCode};
use crowd_fund::derive::{campaign_address, vault_address};
use crowd_fund::escrow::{
    create_campaign, create_campaign_at, donate, withdraw, CreateCampaign, Donate, Withdraw,
};
use crowd_fund::ledger::Ledger;

const DEADLINE: i64 = 1_700_000_000;

fn key(b: u8) -> Address {
    Address::new([b; 32])
}

fn program() -> Address {
    key(9)
}

fn owner() -> Address {
    key(1)
}

fn donor() -> Address {
    key(2)
}

/// A ledger with free storage, an owner without lamports and a donor with 5000.
fn funded_ledger() -> Ledger {
    let mut ledger = Ledger::new(program(), 0);
    assert!(ledger.fund(&owner(), 0));
    assert!(ledger.fund(&donor(), 5000));
    ledger
}

/// Creates the campaign "school roof" of `owner()` and gives its address and its vault's.
fn open_roof(ledger: &mut Ledger, goal: u64) -> (Address, Address) {
    let r = create_campaign(
        ledger,
        &CreateCampaign { owner: owner() },
        "school roof".to_string(),
        "a new roof".to_string(),
        goal,
        DEADLINE,
    );
    assert_eq!(r, Ok(()));
    let (campaign, _) = campaign_address(&program(), &owner(), "school roof").unwrap();
    let (vault, _) = vault_address(&program(), &campaign).unwrap();
    (campaign, vault)
}

#[test]
fn a_created_campaign_starts_empty() {
    let mut ledger = funded_ledger();
    let (campaign, vault) = open_roof(&mut ledger, 1000);
    let (_, bump) = vault_address(&program(), &campaign).unwrap();
    let record = ledger.campaign(&campaign).unwrap();
    assert_eq!(record.name, "school roof");
    assert_eq!(record.description, "a new roof");
    assert_eq!(record.goal, 1000);
    assert_eq!(record.amount, 0);
    assert_eq!(record.deadline, DEADLINE);
    assert_eq!(record.owner.bytes, owner().bytes);
    assert_eq!(record.vault.bytes, vault.bytes);
    assert_eq!(record.vault_bump, bump);
    assert!(ledger.contains(&vault));
    assert_eq!(ledger.balance(&vault), 0);
    assert!(ledger.campaign(&vault).is_none());
    assert!(!ledger.is_wallet(&vault));
    assert!(!ledger.is_wallet(&campaign));
}

#[test]
fn creation_costs_the_price_of_the_record() {
    let mut ledger = Ledger::new(program(), 10);
    assert!(ledger.fund(&owner(), 5000));
    let (campaign, vault) = open_roof(&mut ledger, 1000);
    assert_eq!(ledger.balance(&campaign), 1260);
    assert_eq!(ledger.balance(&owner()), 3740);
    assert_eq!(ledger.balance(&vault), 0);
    assert_eq!(ledger.supply(), 5000);
}

#[test]
fn creation_succeeds_with_exactly_the_price() {
    let mut ledger = Ledger::new(program(), 10);
    assert!(ledger.fund(&owner(), 1260));
    let (campaign, _) = open_roof(&mut ledger, 1000);
    assert_eq!(ledger.balance(&owner()), 0);
    assert_eq!(ledger.balance(&campaign), 1260);
}

#[test]
fn creation_fails_one_lamport_short_of_the_price() {
    let mut ledger = Ledger::new(program(), 10);
    assert!(ledger.fund(&owner(), 1259));
    let r = create_campaign(
        &mut ledger,
        &CreateCampaign { owner: owner() },
        "school roof".to_string(),
        "a new roof".to_string(),
        1000,
        DEADLINE,
    );
    assert_eq!(r, Err(ErrorCode::InsufficientFunds));
    let (campaign, _) = campaign_address(&program(), &owner(), "school roof").unwrap();
    let (vault, _) = vault_address(&program(), &campaign).unwrap();
    assert!(!ledger.contains(&campaign));
    assert!(!ledger.contains(&vault));
    assert_eq!(ledger.balance(&owner()), 1259);
}

#[test]
fn creation_fails_for_an_owner_without_a_wallet() {
    let mut ledger = Ledger::new(program(), 0);
    let r = create_campaign(
        &mut ledger,
        &CreateCampaign { owner: owner() },
        "school roof".to_string(),
        "a new roof".to_string(),
        1000,
        DEADLINE,
    );
    assert_eq!(r, Err(ErrorCode::InsufficientFunds));
    assert!(!ledger.contains(&owner()));
}

#[test]
fn creation_fails_where_the_price_is_beyond_any_balance() {
    let mut ledger = Ledger::new(program(), u64::MAX);
    assert!(ledger.fund(&owner(), u64::MAX));
    let r = create_campaign(
        &mut ledger,
        &CreateCampaign { owner: owner() },
        "school roof".to_string(),
        "a new roof".to_string(),
        1000,
        DEADLINE,
    );
    assert_eq!(r, Err(ErrorCode::InsufficientFunds));
    assert_eq!(ledger.balance(&owner()), u64::MAX);
}

#[test]
fn a_second_creation_under_the_same_name_collides() {
    let mut ledger = funded_ledger();
    let (campaign, _) = open_roof(&mut ledger, 1000);
    let r = create_campaign(
        &mut ledger,
        &CreateCampaign { owner: owner() },
        "school roof".to_string(),
        "a new roof".to_string(),
        1000,
        DEADLINE,
    );
    assert_eq!(r, Err(ErrorCode::AddressCollision));
    let record = ledger.campaign(&campaign).unwrap();
    assert_eq!(record.goal, 1000);
    assert_eq!(record.amount, 0);
}

#[test]
fn a_second_creation_collides_whatever_else_it_asks_for() {
    let mut ledger = funded_ledger();
    let (campaign, _) = open_roof(&mut ledger, 1000);
    assert_eq!(donate(&mut ledger, &Donate { campaign, donor: donor() }, 10), Ok(()));
    let r = create_campaign(
        &mut ledger,
        &CreateCampaign { owner: owner() },
        "school roof".to_string(),
        "d".repeat(600),
        0,
        5,
    );
    assert_eq!(r, Err(ErrorCode::AddressCollision));
    let record = ledger.campaign(&campaign).unwrap();
    assert_eq!(record.description, "a new roof");
    assert_eq!(record.amount, 10);
}

#[test]
fn other_owners_and_other_names_do_not_collide() {
    let mut ledger = funded_ledger();
    let (first, first_vault) = open_roof(&mut ledger, 1000);
    let r = create_campaign(
        &mut ledger,
        &CreateCampaign { owner: donor() },
        "school roof".to_string(),
        "another roof".to_string(),
        20,
        DEADLINE,
    );
    assert_eq!(r, Ok(()));
    let r = create_campaign(
        &mut ledger,
        &CreateCampaign { owner: owner() },
        "school yard".to_string(),
        "a yard".to_string(),
        30,
        DEADLINE,
    );
    assert_eq!(r, Ok(()));
    let (second, _) = campaign_address(&program(), &donor(), "school roof").unwrap();
    let (third, _) = campaign_address(&program(), &owner(), "school yard").unwrap();
    let second_vault = ledger.campaign(&second).unwrap().vault;
    let third_vault = ledger.campaign(&third).unwrap().vault;
    assert_eq!(ledger.campaign(&first).unwrap().goal, 1000);
    assert_eq!(ledger.campaign(&second).unwrap().goal, 20);
    assert_eq!(ledger.campaign(&third).unwrap().goal, 30);
    assert_ne!(first_vault.bytes, second_vault.bytes);
    assert_ne!(first_vault.bytes, third_vault.bytes);
    assert_ne!(second_vault.bytes, third_vault.bytes);
}

#[test]
fn creation_refuses_a_long_name() {
    let mut ledger = funded_ledger();
    let r = create_campaign(
        &mut ledger,
        &CreateCampaign { owner: owner() },
        "n".repeat(33),
        "a new roof".to_string(),
        1000,
        DEADLINE,
    );
    assert_eq!(r, Err(ErrorCode::InvalidInput));
    assert_eq!(ledger.supply(), 5000);
}

#[test]
fn creation_refuses_a_long_description() {
    let mut ledger = funded_ledger();
    let r = create_campaign(
        &mut ledger,
        &CreateCampaign { owner: owner() },
        "school roof".to_string(),
        "d".repeat(513),
        1000,
        DEADLINE,
    );
    assert_eq!(r, Err(ErrorCode::InvalidInput));
    let (campaign, _) = campaign_address(&program(), &owner(), "school roof").unwrap();
    assert!(!ledger.contains(&campaign));
}

#[test]
fn creation_accepts_texts_at_their_bounds() {
    let mut ledger = Ledger::new(program(), 2);
    assert!(ledger.fund(&owner(), 2000));
    let name = "n".repeat(32);
    let r = create_campaign(
        &mut ledger,
        &CreateCampaign { owner: owner() },
        name.clone(),
        "d".repeat(512),
        1,
        DEADLINE,
    );
    assert_eq!(r, Ok(()));
    let (campaign, _) = campaign_address(&program(), &owner(), &name).unwrap();
    assert_eq!(ledger.balance(&campaign), 2 * 649);
    let record = ledger.campaign(&campaign).unwrap();
    assert_eq!(space(&record.name, &record.description), Ok(649));
    assert_eq!(ledger.balance(&owner()), 2000 - 1298);
}

#[test]
fn creation_refuses_a_goal_of_zero() {
    let mut ledger = funded_ledger();
    let r = create_campaign(
        &mut ledger,
        &CreateCampaign { owner: owner() },
        "school roof".to_string(),
        "a new roof".to_string(),
        0,
        DEADLINE,
    );
    assert_eq!(r, Err(ErrorCode::InvalidInput));
}

#[test]
fn creation_at_given_addresses_uses_them() {
    let mut ledger = funded_ledger();
    let r = create_campaign_at(
        &mut ledger,
        &CreateCampaign { owner: owner() },
        Some((key(3), 250)),
        Some((key(4), 249)),
        "well".to_string(),
        "a well".to_string(),
        10,
        5,
    );
    assert_eq!(r, Ok(()));
    let record = ledger.campaign(&key(3)).unwrap();
    assert_eq!(record.vault.bytes, [4; 32]);
    assert_eq!(record.vault_bump, 249);
    assert_eq!(record.owner.bytes, [1; 32]);
    assert!(ledger.contains(&key(4)));
}

#[test]
fn creation_without_a_derived_address_is_refused() {
    let mut ledger = funded_ledger();
    let ctx = CreateCampaign { owner: owner() };
    let r = create_campaign_at(
        &mut ledger,
        &ctx,
        None,
        Some((key(4), 249)),
        "well".to_string(),
        "a well".to_string(),
        10,
        5,
    );
    assert_eq!(r, Err(ErrorCode::InvalidInput));
    let r = create_campaign_at(
        &mut ledger,
        &ctx,
        Some((key(3), 250)),
        None,
        "well".to_string(),
        "a well".to_string(),
        10,
        5,
    );
    assert_eq!(r, Err(ErrorCode::InvalidInput));
    assert!(!ledger.contains(&key(3)));
    assert!(!ledger.contains(&key(4)));
}

#[test]
fn creation_collides_with_any_account_at_either_address() {
    let mut ledger = funded_ledger();
    let ctx = CreateCampaign { owner: owner() };
    let r = create_campaign_at(
        &mut ledger,
        &ctx,
        Some((donor(), 250)),
        Some((key(4), 249)),
        "well".to_string(),
        "a well".to_string(),
        10,
        5,
    );
    assert_eq!(r, Err(ErrorCode::AddressCollision));
    let r = create_campaign_at(
        &mut ledger,
        &ctx,
        Some((key(3), 250)),
        Some((donor(), 249)),
        "well".to_string(),
        "a well".to_string(),
        10,
        5,
    );
    assert_eq!(r, Err(ErrorCode::AddressCollision));
    let r = create_campaign_at(
        &mut ledger,
        &ctx,
        Some((key(3), 250)),
        Some((key(3), 249)),
        "well".to_string(),
        "a well".to_string(),
        10,
        5,
    );
    assert_eq!(r, Err(ErrorCode::AddressCollision));
    assert!(!ledger.contains(&key(3)));
    assert!(ledger.is_wallet(&donor()));
    assert_eq!(ledger.balance(&donor()), 5000);
}

#[test]
fn two_campaigns_cannot_share_a_vault() {
    let mut ledger = funded_ledger();
    let ctx = CreateCampaign { owner: owner() };
    let r = create_campaign_at(
        &mut ledger,
        &ctx,
        Some((key(3), 250)),
        Some((key(4), 249)),
        "well".to_string(),
        "a well".to_string(),
        10,
        5,
    );
    assert_eq!(r, Ok(()));
    let r = create_campaign_at(
        &mut ledger,
        &ctx,
        Some((key(5), 250)),
        Some((key(4), 249)),
        "pump".to_string(),
        "a pump".to_string(),
        10,
        5,
    );
    assert_eq!(r, Err(ErrorCode::AddressCollision));
    assert!(!ledger.contains(&key(5)));
}

#[test]
fn donations_add_up_in_the_campaign_and_in_the_vault() {
    let mut ledger = funded_ledger();
    let (campaign, vault) = open_roof(&mut ledger, 1000);
    let ctx = Donate { campaign, donor: donor() };
    let gifts = [1u64, 20, 300, 4, 50];
    let mut sum = 0;
    for gift in gifts {
        assert_eq!(donate(&mut ledger, &ctx, gift), Ok(()));
        sum += gift;
        assert_eq!(ledger.campaign(&campaign).unwrap().amount, sum);
        assert_eq!(ledger.balance(&vault), sum);
        assert_eq!(ledger.balance(&donor()), 5000 - sum);
    }
    assert_eq!(sum, 375);
    assert_eq!(ledger.supply(), 5000);
}

#[test]
fn anyone_may_donate_and_more_than_the_goal() {
    let mut ledger = funded_ledger();
    assert!(ledger.fund(&owner(), 100));
    assert!(ledger.fund(&key(7), 100));
    let (campaign, vault) = open_roof(&mut ledger, 50);
    assert_eq!(donate(&mut ledger, &Donate { campaign, donor: owner() }, 60), Ok(()));
    assert_eq!(donate(&mut ledger, &Donate { campaign, donor: key(7) }, 70), Ok(()));
    assert_eq!(donate(&mut ledger, &Donate { campaign, donor: donor() }, 80), Ok(()));
    assert_eq!(ledger.campaign(&campaign).unwrap().amount, 210);
    assert_eq!(ledger.balance(&vault), 210);
    assert_eq!(ledger.balance(&owner()), 40);
    assert_eq!(ledger.balance(&key(7)), 30);
}

#[test]
fn a_donation_of_zero_is_refused() {
    let mut ledger = funded_ledger();
    let (campaign, vault) = open_roof(&mut ledger, 1000);
    let r = donate(&mut ledger, &Donate { campaign, donor: donor() }, 0);
    assert_eq!(r, Err(ErrorCode::InvalidInput));
    assert_eq!(ledger.campaign(&campaign).unwrap().amount, 0);
    assert_eq!(ledger.balance(&vault), 0);
}

#[test]
fn a_donation_to_no_campaign_is_refused() {
    let mut ledger = funded_ledger();
    let (_, vault) = open_roof(&mut ledger, 1000);
    let r = donate(&mut ledger, &Donate { campaign: key(8), donor: donor() }, 5);
    assert_eq!(r, Err(ErrorCode::InvalidInput));
    let r = donate(&mut ledger, &Donate { campaign: vault, donor: donor() }, 5);
    assert_eq!(r, Err(ErrorCode::InvalidInput));
    let r = donate(&mut ledger, &Donate { campaign: owner(), donor: donor() }, 5);
    assert_eq!(r, Err(ErrorCode::InvalidInput));
    assert_eq!(ledger.balance(&donor()), 5000);
    assert_eq!(ledger.balance(&vault), 0);
}

#[test]
fn failed_donations_change_nothing_however_often() {
    let mut ledger = funded_ledger();
    let (campaign, vault) = open_roof(&mut ledger, 1000);
    let ctx = Donate { campaign, donor: donor() };
    assert_eq!(donate(&mut ledger, &ctx, 4000), Ok(()));
    for _ in 0..5 {
        assert_eq!(donate(&mut ledger, &ctx, 1001), Err(ErrorCode::TransferFailed));
        assert_eq!(ledger.campaign(&campaign).unwrap().amount, 4000);
        assert_eq!(ledger.balance(&vault), 4000);
        assert_eq!(ledger.balance(&donor()), 1000);
    }
    assert_eq!(donate(&mut ledger, &ctx, 1000), Ok(()));
    assert_eq!(ledger.campaign(&campaign).unwrap().amount, 5000);
    assert_eq!(ledger.balance(&vault), 5000);
    assert_eq!(ledger.balance(&donor()), 0);
    assert_eq!(donate(&mut ledger, &ctx, 1), Err(ErrorCode::TransferFailed));
}

#[test]
fn only_wallets_can_donate() {
    let mut ledger = funded_ledger();
    let (campaign, vault) = open_roof(&mut ledger, 1000);
    assert_eq!(donate(&mut ledger, &Donate { campaign, donor: donor() }, 100), Ok(()));
    let r = donate(&mut ledger, &Donate { campaign, donor: key(8) }, 1);
    assert_eq!(r, Err(ErrorCode::TransferFailed));
    let r = donate(&mut ledger, &Donate { campaign, donor: vault }, 1);
    assert_eq!(r, Err(ErrorCode::TransferFailed));
    let r = donate(&mut ledger, &Donate { campaign, donor: campaign }, 1);
    assert_eq!(r, Err(ErrorCode::TransferFailed));
    assert!(!ledger.contains(&key(8)));
    assert_eq!(ledger.balance(&vault), 100);
    assert_eq!(ledger.campaign(&campaign).unwrap().amount, 100);
}

#[test]
fn a_total_past_the_limit_overflows_and_changes_nothing() {
    let mut ledger = Ledger::new(program(), 0);
    assert!(ledger.fund(&owner(), 0));
    assert!(ledger.fund(&donor(), u64::MAX));
    let (campaign, vault) = open_roof(&mut ledger, 1);
    assert_eq!(donate(&mut ledger, &Donate { campaign, donor: donor() }, u64::MAX), Ok(()));
    assert_eq!(ledger.campaign(&campaign).unwrap().amount, u64::MAX);
    assert_eq!(
        withdraw(&mut ledger, &Withdraw { campaign, owner: owner() }, DEADLINE + 1),
        Ok(())
    );
    assert_eq!(ledger.balance(&owner()), u64::MAX);
    assert_eq!(ledger.balance(&vault), 0);
    let r = donate(&mut ledger, &Donate { campaign, donor: owner() }, 1);
    assert_eq!(r, Err(ErrorCode::Overflow));
    assert_eq!(ledger.campaign(&campaign).unwrap().amount, u64::MAX);
    assert_eq!(ledger.balance(&vault), 0);
    assert_eq!(ledger.balance(&owner()), u64::MAX);
}

#[test]
fn overflow_is_reported_before_the_donor_is_looked_at() {
    let mut ledger = Ledger::new(program(), 0);
    assert!(ledger.fund(&owner(), 0));
    assert!(ledger.fund(&donor(), u64::MAX - 1));
    let (campaign, _) = open_roof(&mut ledger, 1);
    assert_eq!(donate(&mut ledger, &Donate { campaign, donor: donor() }, u64::MAX - 1), Ok(()));
    let r = donate(&mut ledger, &Donate { campaign, donor: donor() }, 2);
    assert_eq!(r, Err(ErrorCode::Overflow));
    let r = donate(&mut ledger, &Donate { campaign, donor: donor() }, 1);
    assert_eq!(r, Err(ErrorCode::TransferFailed));
    assert_eq!(ledger.campaign(&campaign).unwrap().amount, u64::MAX - 1);
}

#[test]
fn scenario_goal_reached_and_withdrawn() {
    let mut ledger = funded_ledger();
    let (campaign, vault) = open_roof(&mut ledger, 1000);
    let gift = Donate { campaign, donor: donor() };
    assert_eq!(donate(&mut ledger, &gift, 400), Ok(()));
    assert_eq!(donate(&mut ledger, &gift, 700), Ok(()));
    assert_eq!(ledger.campaign(&campaign).unwrap().amount, 1100);
    assert_eq!(ledger.balance(&vault), 1100);
    let claim = Withdraw { campaign, owner: owner() };
    assert_eq!(withdraw(&mut ledger, &claim, DEADLINE - 1), Err(ErrorCode::DeadlineNotPassed));
    assert_eq!(withdraw(&mut ledger, &claim, DEADLINE), Err(ErrorCode::DeadlineNotPassed));
    assert_eq!(ledger.balance(&vault), 1100);
    assert_eq!(ledger.balance(&owner()), 0);
    assert_eq!(withdraw(&mut ledger, &claim, DEADLINE + 1), Ok(()));
    assert_eq!(ledger.balance(&owner()), 1100);
    assert_eq!(ledger.balance(&vault), 0);
    assert_eq!(ledger.campaign(&campaign).unwrap().amount, 1100);
    assert_eq!(ledger.campaign(&campaign).unwrap().goal, 1000);
    assert_eq!(ledger.campaign(&campaign).unwrap().deadline, DEADLINE);
    assert_eq!(withdraw(&mut ledger, &claim, DEADLINE + 2), Ok(()));
    assert_eq!(ledger.balance(&owner()), 1100);
    assert_eq!(ledger.balance(&vault), 0);
    assert_eq!(ledger.campaign(&campaign).unwrap().amount, 1100);
    assert_eq!(ledger.balance(&donor()), 3900);
    assert_eq!(ledger.supply(), 5000);
}

#[test]
fn scenario_goal_missed() {
    let mut ledger = funded_ledger();
    let (campaign, vault) = open_roof(&mut ledger, 1000);
    assert_eq!(donate(&mut ledger, &Donate { campaign, donor: donor() }, 200), Ok(()));
    let claim = Withdraw { campaign, owner: owner() };
    assert_eq!(withdraw(&mut ledger, &claim, DEADLINE + 1), Err(ErrorCode::GoalNotReached));
    assert_eq!(ledger.balance(&vault), 200);
    assert_eq!(ledger.balance(&owner()), 0);
    assert_eq!(ledger.campaign(&campaign).unwrap().amount, 200);
}

#[test]
fn a_stranger_cannot_withdraw_whatever_else_holds() {
    let mut ledger = funded_ledger();
    let (campaign, vault) = open_roof(&mut ledger, 1000);
    let theft = Withdraw { campaign, owner: donor() };
    assert_eq!(withdraw(&mut ledger, &theft, DEADLINE - 1), Err(ErrorCode::Unauthorized));
    assert_eq!(withdraw(&mut ledger, &theft, DEADLINE + 1), Err(ErrorCode::Unauthorized));
    assert_eq!(donate(&mut ledger, &Donate { campaign, donor: donor() }, 1000), Ok(()));
    assert_eq!(withdraw(&mut ledger, &theft, DEADLINE - 1), Err(ErrorCode::Unauthorized));
    assert_eq!(withdraw(&mut ledger, &theft, DEADLINE + 1), Err(ErrorCode::Unauthorized));
    let vault_as_caller = Withdraw { campaign, owner: vault };
    assert_eq!(withdraw(&mut ledger, &vault_as_caller, DEADLINE + 1), Err(ErrorCode::Unauthorized));
    assert_eq!(ledger.balance(&vault), 1000);
    assert_eq!(ledger.balance(&donor()), 4000);
}

#[test]
fn the_deadline_blocks_the_owner_before_the_goal_does() {
    let mut ledger = funded_ledger();
    let (campaign, _) = open_roof(&mut ledger, 1000);
    let claim = Withdraw { campaign, owner: owner() };
    assert_eq!(withdraw(&mut ledger, &claim, DEADLINE), Err(ErrorCode::DeadlineNotPassed));
    assert_eq!(withdraw(&mut ledger, &claim, DEADLINE + 1), Err(ErrorCode::GoalNotReached));
}

#[test]
fn a_withdrawal_from_no_campaign_is_refused() {
    let mut ledger = funded_ledger();
    let (_, vault) = open_roof(&mut ledger, 1000);
    let r = withdraw(&mut ledger, &Withdraw { campaign: key(8), owner: owner() }, DEADLINE + 1);
    assert_eq!(r, Err(ErrorCode::InvalidInput));
    let r = withdraw(&mut ledger, &Withdraw { campaign: vault, owner: owner() }, DEADLINE + 1);
    assert_eq!(r, Err(ErrorCode::InvalidInput));
}

#[test]
fn a_withdrawal_leaves_the_storage_price_with_the_campaign() {
    let mut ledger = Ledger::new(program(), 10);
    assert!(ledger.fund(&owner(), 2000));
    assert!(ledger.fund(&donor(), 5000));
    let (campaign, vault) = open_roof(&mut ledger, 1000);
    assert_eq!(donate(&mut ledger, &Donate { campaign, donor: donor() }, 1500), Ok(()));
    assert_eq!(
        withdraw(&mut ledger, &Withdraw { campaign, owner: owner() }, DEADLINE + 1),
        Ok(())
    );
    assert_eq!(ledger.balance(&campaign), 1260);
    assert_eq!(ledger.balance(&vault), 0);
    assert_eq!(ledger.balance(&owner()), 2000 - 1260 + 1500);
    assert_eq!(ledger.supply(), 7000);
}

#[test]
fn donations_after_a_withdrawal_fill_the_vault_again() {
    let mut ledger = funded_ledger();
    let (campaign, vault) = open_roof(&mut ledger, 1000);
    let gift = Donate { campaign, donor: donor() };
    let claim = Withdraw { campaign, owner: owner() };
    assert_eq!(donate(&mut ledger, &gift, 1000), Ok(()));
    assert_eq!(withdraw(&mut ledger, &claim, DEADLINE + 1), Ok(()));
    assert_eq!(donate(&mut ledger, &gift, 300), Ok(()));
    assert_eq!(ledger.campaign(&campaign).unwrap().amount, 1300);
    assert_eq!(ledger.balance(&vault), 300);
    assert_eq!(withdraw(&mut ledger, &claim, DEADLINE + 2), Ok(()));
    assert_eq!(ledger.balance(&owner()), 1300);
    assert_eq!(ledger.balance(&vault), 0);
}

#[test]
fn campaigns_keep_their_funds_apart() {
    let mut ledger = funded_ledger();
    let ctx = CreateCampaign { owner: owner() };
    for (campaign, vault, name) in [(3u8, 4u8, "well"), (5u8, 6u8, "pump")] {
        let r = create_campaign_at(
            &mut ledger,
            &ctx,
            Some((key(campaign), 255)),
            Some((key(vault), 255)),
            name.to_string(),
            "water".to_string(),
            100,
            DEADLINE,
        );
        assert_eq!(r, Ok(()));
    }
    assert_eq!(donate(&mut ledger, &Donate { campaign: key(3), donor: donor() }, 150), Ok(()));
    assert_eq!(donate(&mut ledger, &Donate { campaign: key(5), donor: donor() }, 70), Ok(()));
    assert_eq!(ledger.balance(&key(4)), 150);
    assert_eq!(ledger.balance(&key(6)), 70);
    let r = withdraw(&mut ledger, &Withdraw { campaign: key(5), owner: owner() }, DEADLINE + 1);
    assert_eq!(r, Err(ErrorCode::GoalNotReached));
    let r = withdraw(&mut ledger, &Withdraw { campaign: key(3), owner: owner() }, DEADLINE + 1);
    assert_eq!(r, Ok(()));
    assert_eq!(ledger.balance(&key(4)), 0);
    assert_eq!(ledger.balance(&key(6)), 70);
    assert_eq!(ledger.balance(&owner()), 150);
    assert_eq!(ledger.campaign(&key(3)).unwrap().amount, 150);
    assert_eq!(ledger.campaign(&key(5)).unwrap().amount, 70);
}
