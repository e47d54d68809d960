use stallion::utils::{self, adjust_for_decimals};
use stallion::{
    Address, BountyField, Error, Event, FeePolicy, Party, StallionContract, Status,
};

const DECIMALS: u32 = 7;

fn addr(name: &str) -> Address {
    Address::from_str(name)
}

fn setup_test() -> (StallionContract, Address, Address, Address) {
    let admin = addr("GADMIN");
    let fee_account = addr("GFEES");
    let token = addr("CTOKEN");
    let contract =
        StallionContract::new(admin.clone(), fee_account.clone(), FeePolicy::upfront()).unwrap();
    (contract, token, fee_account, admin)
}

fn balance(contract: &StallionContract, token: &Address, who: &Address) -> i128 {
    let mut total: i128 = 0;
    for t in contract.transfers.iter() {
        if t.token != *token {
            continue;
        }
        if t.to == Party::Account(who.clone()) {
            total += t.amount;
        }
        if t.from == Party::Account(who.clone()) {
            total -= t.amount;
        }
    }
    total
}

fn last_event(contract: &StallionContract) -> &Event {
    contract.events.log.last().expect("No events found")
}

#[test]
fn test_constructor() {
    let (contract, _token, fee_account, admin) = setup_test();
    let events = &contract.events.log;
    assert_eq!(events.len(), 2);
    assert_eq!(events[0].topic(), "admin_updated");
    assert_eq!(events[0], Event::AdminUpdated { admin: admin.clone() });
    assert_eq!(events[1].topic(), "fee_account_updated");
    assert_eq!(events[1], Event::FeeAccountUpdated { fee_account: fee_account.clone() });
}

#[test]
fn test_bounty_creation() {
    let (mut client, token, _fee_account, _admin) = setup_test();
    let now: u64 = 0;
    let user_friendly_amount = 1000;
    let owner = addr("GOWNER");

    let bounty_id = client
        .create_bounty(
            owner.clone(),
            token.clone(),
            user_friendly_amount,
            vec![(1, 60), (2, 40)],
            now + 1000,
            Some(now + 2000),
            String::from("Test bounty"),
            DECIMALS,
        )
        .unwrap();
    assert_eq!(last_event(&client).topic(), "bounty_created");
    assert_eq!(*last_event(&client), Event::BountyCreated { bounty_id });
    let bounty = client.get_bounty(bounty_id).unwrap();
    assert_eq!(bounty.status, Status::Active);
    assert_eq!(bounty.reward, user_friendly_amount);

    let result = client.create_bounty(
        owner.clone(),
        token.clone(),
        user_friendly_amount,
        vec![(1, 60), (2, 30)],
        now + 1000,
        Some(now + 2000),
        String::from("Test bounty"),
        DECIMALS,
    );
    assert!(result.is_err());

    let result = client.create_bounty(
        owner.clone(),
        token.clone(),
        user_friendly_amount,
        vec![(1, 60), (2, 40)],
        now + 2000,
        Some(now + 1000),
        String::from("Test bounty"),
        DECIMALS,
    );
    assert!(result.is_err());
}

#[test]
fn test_bounty_submissions() {
    let (mut client, token, _fee_account, _admin) = setup_test();
    let mut now: u64 = 0;
    let user_friendly_amount = 1000;
    let owner = addr("GOWNER");
    let applicant = addr("GAPPLICANT");

    let bounty_id = client
        .create_bounty(
            owner.clone(),
            token.clone(),
            user_friendly_amount,
            vec![(1, 100)],
            now + 1000,
            Some(now + 2000),
            String::from("Test bounty"),
            DECIMALS,
        )
        .unwrap();

    client.apply_to_bounty(applicant.clone(), bounty_id, String::from("link1"), now).unwrap();
    client.apply_to_bounty(applicant.clone(), bounty_id, String::from("link2"), now).unwrap();

    let submissions = client.get_bounty_submissions(bounty_id).unwrap();
    assert_eq!(submissions.get(&applicant).unwrap(), String::from("link2"));

    now += 1001;
    let result = client.apply_to_bounty(applicant.clone(), bounty_id, String::from("link3"), now);
    assert!(result.is_err());
}

#[test]
fn test_winner_selection() {
    let (mut client, token, fee_account, _admin) = setup_test();
    let mut now: u64 = 0;
    let user_friendly_amount = 1000;
    let fee = utils::calculate_fee(user_friendly_amount);
    let owner = addr("GOWNER");
    let applicant1 = addr("GAPPLICANT1");
    let applicant2 = addr("GAPPLICANT2");

    let bounty_id = client
        .create_bounty(
            owner.clone(),
            token.clone(),
            user_friendly_amount,
            vec![(1, 60), (2, 40)],
            now + 1000,
            Some(now + 2000),
            String::from("Test bounty"),
            DECIMALS,
        )
        .unwrap();

    client.apply_to_bounty(applicant1.clone(), bounty_id, String::from("link1"), now).unwrap();
    client.apply_to_bounty(applicant2.clone(), bounty_id, String::from("link2"), now).unwrap();

    now += 1001;

    let winners = vec![applicant1.clone(), applicant2.clone()];
    client.select_winners(&owner, bounty_id, winners, now, DECIMALS).unwrap();

    let bounty = client.get_bounty(bounty_id).unwrap();
    assert_eq!(bounty.status, Status::Completed);

    let reward_amount = adjust_for_decimals(user_friendly_amount, DECIMALS);
    let applicant1_reward = (reward_amount * 60) / 100;
    let applicant2_reward = (reward_amount * 40) / 100;
    let platform_fee = adjust_for_decimals(fee, DECIMALS);

    assert_eq!(balance(&client, &token, &applicant1), applicant1_reward);
    assert_eq!(balance(&client, &token, &applicant2), applicant2_reward);
    assert_eq!(balance(&client, &token, &fee_account), platform_fee);
}

#[test]
fn test_auto_distribution() {
    let (mut client, token, fee_account, _admin) = setup_test();
    let mut now: u64 = 0;
    let user_friendly_amount = 1000;
    let fee = utils::calculate_fee(user_friendly_amount);
    let owner = addr("GOWNER");
    let applicant1 = addr("GAPPLICANT1");
    let applicant2 = addr("GAPPLICANT2");

    let bounty_id = client
        .create_bounty(
            owner.clone(),
            token.clone(),
            user_friendly_amount,
            vec![(1, 100)],
            now + 1000,
            Some(now + 2000),
            String::from("Test bounty"),
            DECIMALS,
        )
        .unwrap();

    client.apply_to_bounty(applicant1.clone(), bounty_id, String::from("link1"), now).unwrap();
    client.apply_to_bounty(applicant2.clone(), bounty_id, String::from("link2"), now).unwrap();

    now += 2001;

    client.check_judging(bounty_id, now, DECIMALS).unwrap();

    let reward_amount = adjust_for_decimals(user_friendly_amount, DECIMALS);
    let reward_per_applicant = reward_amount / 2;
    let platform_fee = adjust_for_decimals(fee, DECIMALS);

    assert_eq!(balance(&client, &token, &applicant1), reward_per_applicant);
    assert_eq!(balance(&client, &token, &applicant2), reward_per_applicant);
    assert_eq!(balance(&client, &token, &fee_account), platform_fee);
}

#[test]
fn test_get_active_bounties() {
    let (mut client, token, _fee_account, _admin) = setup_test();
    let mut now: u64 = 0;
    let user_friendly_amount = 1000;
    let owner = addr("GOWNER");

    let bounty1_id = client
        .create_bounty(
            owner.clone(),
            token.clone(),
            user_friendly_amount,
            vec![(1, 100)],
            now + 1000,
            Some(now + 2000),
            String::from("First bounty"),
            DECIMALS,
        )
        .unwrap();
    let bounty2_id = client
        .create_bounty(
            owner.clone(),
            token.clone(),
            user_friendly_amount,
            vec![(1, 100)],
            now + 1000,
            Some(now + 2000),
            String::from("Second bounty"),
            DECIMALS,
        )
        .unwrap();
    let bounty3_id = client
        .create_bounty(
            owner.clone(),
            token.clone(),
            user_friendly_amount,
            vec![(1, 100)],
            now + 1000,
            Some(now + 2000),
            String::from("Third bounty"),
            DECIMALS,
        )
        .unwrap();
    let winner = addr("GWINNER");

    now += 1001;

    client.select_winners(&owner, bounty3_id, vec![winner], now, DECIMALS).unwrap();

    let active_bounties = client.get_active_bounties();

    assert_eq!(active_bounties.len(), 2);
    assert!(active_bounties.contains(&bounty1_id));
    assert!(active_bounties.contains(&bounty2_id));
    assert!(!active_bounties.contains(&bounty3_id));
}

#[test]
fn test_getters() {
    let (mut client, token, _fee_account, _admin) = setup_test();
    let mut now: u64 = 0;
    let token2 = addr("CTOKEN2");
    let owner1 = addr("GOWNER1");
    let owner2 = addr("GOWNER2");

    let bounty1_amount = 1000;
    let bounty2_amount = 500;
    let bounty3_amount = 750;

    let bounty1_id = client
        .create_bounty(
            owner1.clone(),
            token.clone(),
            bounty1_amount,
            vec![(1, 60), (2, 40)],
            now + 1000,
            Some(now + 2000),
            String::from("Bounty 1"),
            DECIMALS,
        )
        .unwrap();
    let bounty2_id = client
        .create_bounty(
            owner1.clone(),
            token2.clone(),
            bounty2_amount,
            vec![(1, 100)],
            now + 1000,
            Some(now + 2000),
            String::from("Bounty 2"),
            DECIMALS,
        )
        .unwrap();
    let bounty3_id = client
        .create_bounty(
            owner2.clone(),
            token.clone(),
            bounty3_amount,
            vec![(1, 50), (2, 30), (3, 20)],
            now + 1000,
            Some(now + 2000),
            String::from("Bounty 3"),
            DECIMALS,
        )
        .unwrap();

    let all_bounties = client.get_bounties();
    assert_eq!(all_bounties.len(), 3);
    assert!(all_bounties.contains(&bounty1_id));
    assert!(all_bounties.contains(&bounty2_id));
    assert!(all_bounties.contains(&bounty3_id));

    let owner1_bounties = client.get_owner_bounties(owner1.clone());
    assert_eq!(owner1_bounties.len(), 2);
    assert!(owner1_bounties.contains(&bounty1_id));
    assert!(owner1_bounties.contains(&bounty2_id));
    assert_eq!(client.get_owner_bounties_count(owner1.clone()), 2);

    let owner2_bounties = client.get_owner_bounties(owner2.clone());
    assert_eq!(owner2_bounties.len(), 1);
    assert!(owner2_bounties.contains(&bounty3_id));
    assert_eq!(client.get_owner_bounties_count(owner2.clone()), 1);

    let applicant1 = addr("GAPPLICANT1");
    let applicant2 = addr("GAPPLICANT2");

    client.apply_to_bounty(applicant1.clone(), bounty1_id, String::from("link1"), now).unwrap();
    client.apply_to_bounty(applicant1.clone(), bounty2_id, String::from("link2"), now).unwrap();
    client.apply_to_bounty(applicant2.clone(), bounty1_id, String::from("link3"), now).unwrap();

    let applicant1_bounties = client.get_user_bounties(applicant1.clone());
    assert_eq!(applicant1_bounties.len(), 2);
    assert!(applicant1_bounties.contains(&bounty1_id));
    assert!(applicant1_bounties.contains(&bounty2_id));
    assert_eq!(client.get_user_bounties_count(applicant1.clone()), 2);

    let applicant2_bounties = client.get_user_bounties(applicant2.clone());
    assert_eq!(applicant2_bounties.len(), 1);
    assert!(applicant2_bounties.contains(&bounty1_id));
    assert_eq!(client.get_user_bounties_count(applicant2.clone()), 1);

    assert_eq!(client.get_user_bounties(owner1.clone()).len(), 0);
    assert_eq!(client.get_user_bounties_count(owner1.clone()), 0);

    let token1_bounties = client.get_bounties_by_token(token.clone());
    assert_eq!(token1_bounties.len(), 2);
    assert!(token1_bounties.contains(&bounty1_id));
    assert!(token1_bounties.contains(&bounty3_id));
    assert_eq!(client.get_bounties_by_token_count(token.clone()), 2);

    let token2_bounties = client.get_bounties_by_token(token2.clone());
    assert_eq!(token2_bounties.len(), 1);
    assert!(token2_bounties.contains(&bounty2_id));
    assert_eq!(client.get_bounties_by_token_count(token2.clone()), 1);

    let applicants = client.get_bounty_applicants(bounty1_id).unwrap();
    assert_eq!(applicants.len(), 2);
    assert!(applicants.contains(&applicant1));
    assert!(applicants.contains(&applicant2));

    let submissions = client.get_bounty_submissions(bounty1_id).unwrap();
    assert_eq!(submissions.len(), 2);
    assert_eq!(submissions.get(&applicant1).unwrap(), String::from("link1"));
    assert_eq!(submissions.get(&applicant2).unwrap(), String::from("link3"));

    let submission = client.get_submission(bounty1_id, applicant1.clone()).unwrap();
    assert_eq!(submission, String::from("link1"));

    now += 1001;

    let winners = vec![applicant1.clone(), applicant2.clone()];
    client.select_winners(&owner1, bounty1_id, winners, now, DECIMALS).unwrap();

    let stored_winners = client.get_bounty_winners(bounty1_id).unwrap();
    assert_eq!(stored_winners.len(), 2);
    assert!(stored_winners.contains(&applicant1));
    assert!(stored_winners.contains(&applicant2));

    assert_eq!(client.get_bounty_status(bounty1_id).unwrap(), Status::Completed);

    let bounty = client.get_bounty(bounty1_id).unwrap();
    assert_eq!(bounty.owner, owner1);
    assert_eq!(bounty.reward, 1000);
    assert_eq!(bounty.status, Status::Completed);
    assert_eq!(bounty.winners, stored_winners);
    assert_eq!(bounty.applicants, applicants);
    assert_eq!(bounty.submissions, submissions);
}

#[test]
fn test_update_submission() {
    let (mut client, token, _fee_account, _admin) = setup_test();
    let mut now: u64 = 0;
    let bounty_amount = 1000;
    let owner = addr("GOWNER");
    let applicant1 = addr("GAPPLICANT1");
    let applicant2 = addr("GAPPLICANT2");

    let bounty_id = client
        .create_bounty(
            owner.clone(),
            token.clone(),
            bounty_amount,
            vec![(1, 100)],
            now + 1000,
            Some(now + 2000),
            String::from("Test Bounty"),
            DECIMALS,
        )
        .unwrap();

    client
        .apply_to_bounty(applicant1.clone(), bounty_id, String::from("initial_link1"), now)
        .unwrap();
    client.apply_to_bounty(applicant2.clone(), bounty_id, String::from("link2"), now).unwrap();

    let initial_submissions = client.get_bounty_submissions(bounty_id).unwrap();
    assert_eq!(initial_submissions.get(&applicant1).unwrap(), String::from("initial_link1"));
    assert_eq!(initial_submissions.get(&applicant2).unwrap(), String::from("link2"));

    client
        .update_submission(applicant1.clone(), bounty_id, String::from("updated_link1"), now)
        .unwrap();

    let updated_submissions = client.get_bounty_submissions(bounty_id).unwrap();
    assert_eq!(updated_submissions.get(&applicant1).unwrap(), String::from("updated_link1"));
    assert_eq!(updated_submissions.get(&applicant2).unwrap(), String::from("link2"));

    let non_applicant = addr("GNOBODY");
    let result =
        client.update_submission(non_applicant, bounty_id, String::from("should_fail"), now);
    assert!(result.is_err(), "Should not be able to update a non-existent submission");

    let bounty = client.get_bounty(bounty_id).unwrap();
    now = bounty.submission_deadline + 1;

    let result = client.update_submission(
        applicant1.clone(),
        bounty_id,
        String::from("should_fail_due_to_deadline"),
        now,
    );
    assert!(result.is_err(), "Should not be able to update submission after deadline");
}

#[test]
fn test_update_and_delete_bounty() {
    let (mut client, token, _fee_account, _admin) = setup_test();
    let mut now: u64 = 0;
    let owner = addr("GOWNER");
    let not_owner = addr("GSTRANGER");

    let user_friendly_amount1 = 1000;
    let user_friendly_amount2 = 500;

    let distribution = vec![(1, 60), (2, 40)];
    let submission_deadline = now + 1000;
    let judging_deadline = submission_deadline + 1000;
    let title = String::from("Test Bounty");

    let bounty_id = client
        .create_bounty(
            owner.clone(),
            token.clone(),
            user_friendly_amount1,
            distribution.clone(),
            submission_deadline,
            Some(judging_deadline),
            title.clone(),
            DECIMALS,
        )
        .unwrap();

    let result = client.update_bounty(
        &not_owner,
        bounty_id,
        Some(String::from("New Title")),
        vec![],
        None,
        now,
    );
    assert_eq!(result, Err(Error::OnlyOwner));

    client
        .update_bounty(&owner, bounty_id, Some(String::from("Updated Title")), vec![], None, now)
        .unwrap();
    assert_eq!(last_event(&client).topic(), "bounty_updated");
    assert_eq!(
        *last_event(&client),
        Event::BountyUpdated { bounty_id, updated_fields: vec![BountyField::Title] }
    );
    assert_eq!(BountyField::Title.name(), "title");

    let bounty = client.get_bounty(bounty_id).unwrap();
    assert_eq!(bounty.title, String::from("Updated Title"));

    let new_distribution = vec![(1, 70), (2, 30)];
    client.update_bounty(&owner, bounty_id, None, new_distribution, None, now).unwrap();

    let bounty = client.get_bounty(bounty_id).unwrap();
    assert_eq!(bounty.distribution.get(1).unwrap(), 70);
    assert_eq!(bounty.distribution.get(2).unwrap(), 30);

    let new_submission_deadline = now + 500;
    client
        .update_bounty(&owner, bounty_id, None, vec![], Some(new_submission_deadline), now)
        .unwrap();
    assert_eq!(
        *last_event(&client),
        Event::BountyUpdated { bounty_id, updated_fields: vec![BountyField::SubmissionDeadline] }
    );
    assert_eq!(BountyField::SubmissionDeadline.name(), "submission_deadline");

    let bounty = client.get_bounty(bounty_id).unwrap();
    assert_eq!(bounty.submission_deadline, new_submission_deadline);

    now += 1;
    let past_deadline = now - 1;
    let result = client.update_bounty(&owner, bounty_id, None, vec![], Some(past_deadline), now);
    assert_eq!(result, Err(Error::InvalidDeadlineUpdate));

    let result = client.delete_bounty(&not_owner, bounty_id, DECIMALS);
    assert_eq!(result, Err(Error::OnlyOwner));

    let applicant = addr("GAPPLICANT");
    let submission_link = String::from("https://example.com/submission");
    client.apply_to_bounty(applicant, bounty_id, submission_link, now).unwrap();

    let result = client.delete_bounty(&owner, bounty_id, DECIMALS);
    assert_eq!(result, Err(Error::BountyHasSubmissions));

    let bounty_id2 = client
        .create_bounty(
            owner.clone(),
            token.clone(),
            user_friendly_amount2,
            distribution.clone(),
            submission_deadline,
            Some(judging_deadline),
            title.clone(),
            DECIMALS,
        )
        .unwrap();

    let initial_balance = balance(&client, &token, &owner);

    client.delete_bounty(&owner, bounty_id2, DECIMALS).unwrap();
    assert_eq!(last_event(&client).topic(), "bounty_deleted");
    assert_eq!(*last_event(&client), Event::BountyDeleted { bounty_id: bounty_id2 });

    let result = client.get_bounty(bounty_id2);
    assert!(result.is_err());

    let final_balance = balance(&client, &token, &owner);
    assert_eq!(
        final_balance,
        initial_balance + adjust_for_decimals(user_friendly_amount2, DECIMALS)
    );
}

#[test]
fn test_admin_functions() {
    let (mut client, _token, _fee_account, admin) = setup_test();

    let new_admin = addr("GNEWADMIN");
    let new_fee_account = addr("GNEWFEES");
    let zero_address = addr("GAAAAAAAAAAAAAAAAAAAAAAAAAAAAAAAAAAAAAAAAAAAAAAAAAAAAWHF");

    let result = client.update_admin(&admin, zero_address.clone());
    assert!(result.is_err());

    client.update_admin(&admin, new_admin.clone()).unwrap();
    assert_eq!(client.get_admin(), new_admin);
    assert_eq!(last_event(&client).topic(), "admin_updated");
    assert_eq!(*last_event(&client), Event::AdminUpdated { admin: new_admin.clone() });

    let result = client.update_fee_account(&new_admin, zero_address.clone());
    assert!(result.is_err());
    assert_eq!(result, Err(Error::FeeAccountCannotBeZero));

    client.update_fee_account(&new_admin, new_fee_account.clone()).unwrap();
    assert_eq!(client.get_fee_account(), new_fee_account);
    assert_eq!(last_event(&client).topic(), "fee_account_updated");
    assert_eq!(
        *last_event(&client),
        Event::FeeAccountUpdated { fee_account: new_fee_account.clone() }
    );

    let result = client.update_fee_account(&new_admin, new_fee_account.clone());
    assert!(result.is_err());
    assert_eq!(result, Err(Error::SameFeeAccount));

    let result = client.update_fee_account(&admin, new_fee_account.clone());
    assert!(result.is_err());

    let random_user = addr("GRANDOM");
    let result = client.update_fee_account(&random_user, random_user.clone());
    assert!(result.is_err());
}

#[test]
fn test_close_bounty() {
    let (mut client, token, _fee_account, _admin) = setup_test();
    let now: u64 = 0;
    let owner = addr("GOWNER");
    let not_owner = addr("GSTRANGER");

    let user_friendly_amount = 1000;
    let distribution = vec![(1, 60), (2, 40)];
    let submission_deadline = now + 1000;
    let judging_deadline = submission_deadline + 1000;
    let title = String::from("Test Bounty");

    let bounty_id1 = client
        .create_bounty(
            owner.clone(),
            token.clone(),
            user_friendly_amount,
            distribution.clone(),
            submission_deadline,
            Some(judging_deadline),
            title.clone(),
            DECIMALS,
        )
        .unwrap();

    let initial_balance = balance(&client, &token, &owner);

    client.close_bounty(&owner, bounty_id1, DECIMALS).unwrap();
    assert_eq!(last_event(&client).topic(), "bounty_closed");
    assert_eq!(*last_event(&client), Event::BountyClosed { bounty_id: bounty_id1 });

    let bounty = client.get_bounty(bounty_id1).unwrap();
    assert_eq!(bounty.status, Status::Closed);

    let final_balance = balance(&client, &token, &owner);
    assert_eq!(
        final_balance,
        initial_balance + adjust_for_decimals(user_friendly_amount, DECIMALS)
    );

    let bounty_id2 = client
        .create_bounty(
            owner.clone(),
            token.clone(),
            user_friendly_amount,
            distribution.clone(),
            submission_deadline,
            Some(judging_deadline),
            title.clone(),
            DECIMALS,
        )
        .unwrap();

    let result = client.close_bounty(&not_owner, bounty_id2, DECIMALS);
    assert_eq!(result, Err(Error::OnlyOwner));

    let applicant = addr("GAPPLICANT");
    let submission_link = String::from("https://example.com/submission");
    client.apply_to_bounty(applicant, bounty_id2, submission_link, now).unwrap();

    let result = client.close_bounty(&owner, bounty_id2, DECIMALS);
    assert_eq!(result, Err(Error::BountyHasSubmissions));

    let bounty = client.get_bounty(bounty_id2).unwrap();
    assert_eq!(bounty.status, Status::Active);

    let non_existent_id = 9999;
    let result = client.close_bounty(&owner, non_existent_id, DECIMALS);
    assert_eq!(result, Err(Error::BountyNotFound));

    let bounty = client.get_bounty(bounty_id1).unwrap();
    assert_eq!(bounty.status, Status::Closed);
    assert_eq!(bounty.owner, owner);
    assert_eq!(bounty.reward, user_friendly_amount);

    let owner_bounties = client.get_owner_bounties(owner.clone());
    assert!(owner_bounties.contains(&bounty_id1));

    let closed_bounties = client.get_bounties_by_status(Status::Closed);
    assert!(closed_bounties.contains(&bounty_id1));
    assert_eq!(client.get_bounties_by_status_count(Status::Closed), 1);

    let active_bounties = client.get_active_bounties();
    assert!(!active_bounties.contains(&bounty_id1));
}
