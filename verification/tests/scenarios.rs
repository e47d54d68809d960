use stallion::{
    Address, Error, Event, FeePolicy, FeeTiming, MilestoneData, Party, ProjectStatus,
    StallionContract, Status, Transfer,
};

const DECIMALS: u32 = 7;
const UNIT: i128 = 10_000_000;

fn addr(name: &str) -> Address {
    Address::from_str(name)
}

fn engine(policy: FeePolicy) -> StallionContract {
    StallionContract::new(addr("GADMIN"), addr("GFEES"), policy).unwrap()
}

fn out(token: &Address, to: &Address, amount: i128) -> Transfer {
    Transfer {
        token: token.clone(),
        from: Party::Escrow,
        to: Party::Account(to.clone()),
        amount,
    }
}

fn into_escrow(token: &Address, from: &Address, amount: i128) -> Transfer {
    Transfer {
        token: token.clone(),
        from: Party::Account(from.clone()),
        to: Party::Escrow,
        amount,
    }
}

fn escrow_balance(contract: &StallionContract) -> i128 {
    let mut total: i128 = 0;
    for t in contract.transfers.iter() {
        if t.to == Party::Escrow {
            total += t.amount;
        }
        if t.from == Party::Escrow {
            total -= t.amount;
        }
    }
    total
}

#[test]
fn ranked_settlement_pays_net_shares_and_fee() {
    let mut c = engine(FeePolicy::standard());
    let (token, owner, fees) = (addr("CTOKEN"), addr("GOWNER"), addr("GFEES"));
    let (first, second) = (addr("GFIRST"), addr("GSECOND"));
    let id = c
        .create_bounty(
            owner.clone(),
            token.clone(),
            1000,
            vec![(1, 60), (2, 40)],
            1000,
            Some(2000),
            String::from("Ranked"),
            DECIMALS,
        )
        .unwrap();
    assert_eq!(c.transfers, vec![into_escrow(&token, &owner, 1000 * UNIT)]);
    c.apply_to_bounty(first.clone(), id, String::from("a"), 10).unwrap();
    c.apply_to_bounty(second.clone(), id, String::from("b"), 20).unwrap();
    c.select_winners(&owner, id, vec![first.clone(), second.clone()], 1500, DECIMALS).unwrap();

    assert_eq!(
        c.transfers[1..],
        [
            out(&token, &first, 570 * UNIT),
            out(&token, &second, 380 * UNIT),
            out(&token, &fees, 50 * UNIT),
        ]
    );
    let bounty = c.get_bounty(id).unwrap();
    assert_eq!(bounty.status, Status::Completed);
    assert_eq!(bounty.winners, vec![first, second]);
    assert_eq!(escrow_balance(&c), 0);
    assert_eq!(
        *c.events.log.last().unwrap(),
        Event::WinnersSelected { bounty_id: id, winners: bounty.winners.clone() }
    );
}

#[test]
fn settlement_returns_the_remainder_to_the_owner() {
    let mut c = engine(FeePolicy::standard());
    let (token, owner, fees) = (addr("CTOKEN"), addr("GOWNER"), addr("GFEES"));
    let (first, second, third) = (addr("GFIRST"), addr("GSECOND"), addr("GTHIRD"));
    let id = c
        .create_bounty(
            owner.clone(),
            token.clone(),
            999,
            vec![(1, 50), (2, 30), (3, 20)],
            1000,
            None,
            String::from("Three ranks"),
            0,
        )
        .unwrap();
    c.apply_to_bounty(first.clone(), id, String::from("a"), 1000).unwrap();
    c.apply_to_bounty(second.clone(), id, String::from("b"), 1000).unwrap();
    c.select_winners(&owner, id, vec![first.clone(), second.clone(), third], 1000, 0).unwrap();

    // fee = floor(999 * 5 / 100) = 49, net = 950; only two applicants are paid
    assert_eq!(
        c.transfers[1..],
        [
            out(&token, &first, 475),
            out(&token, &second, 285),
            out(&token, &owner, 190),
            out(&token, &fees, 49),
        ]
    );
    assert_eq!(475 + 285 + 190 + 49, 999);
    assert_eq!(escrow_balance(&c), 0);
}

#[test]
fn settlement_leaves_rounding_dust_with_the_owner() {
    let mut c = engine(FeePolicy { percent: 0, timing: FeeTiming::AtSettlement });
    let (token, owner, fees) = (addr("CTOKEN"), addr("GOWNER"), addr("GFEES"));
    let names = [addr("G1"), addr("G2"), addr("G3")];
    let id = c
        .create_bounty(
            owner.clone(),
            token.clone(),
            101,
            vec![(1, 33), (2, 33), (3, 34)],
            5,
            Some(9),
            String::from("Dust"),
            2,
        )
        .unwrap();
    for n in names.iter() {
        c.apply_to_bounty(n.clone(), id, String::from("x"), 1).unwrap();
    }
    let before = c.transfers.len();
    c.select_winners(&owner, id, names.to_vec(), 9, 2).unwrap();
    // floor(101 * 33 / 100) = 33, floor(101 * 34 / 100) = 34, remainder 1
    assert_eq!(
        c.transfers[before..],
        [
            out(&token, &names[0], 3300),
            out(&token, &names[1], 3300),
            out(&token, &names[2], 3400),
            out(&token, &owner, 100),
            out(&token, &fees, 0),
        ]
    );
    assert_eq!(escrow_balance(&c), 0);
}

#[test]
fn deadline_without_applicants_refunds_the_full_reward() {
    let mut c = engine(FeePolicy::standard());
    let (token, owner) = (addr("CTOKEN"), addr("GOWNER"));
    let id = c
        .create_bounty(
            owner.clone(),
            token.clone(),
            1000,
            vec![(1, 100)],
            1000,
            Some(2000),
            String::from("Nobody came"),
            DECIMALS,
        )
        .unwrap();
    c.check_judging(id, 2000, DECIMALS).unwrap();
    assert_eq!(c.transfers.len(), 1);
    assert_eq!(c.get_bounty(id).unwrap().status, Status::Active);

    c.check_judging(id, 2001, DECIMALS).unwrap();
    assert_eq!(c.transfers[1..], [out(&token, &owner, 1000 * UNIT)]);
    assert_eq!(c.get_bounty(id).unwrap().status, Status::Completed);
    assert_eq!(escrow_balance(&c), 0);
    assert_eq!(*c.events.log.last().unwrap(), Event::AutoDistributed { bounty_id: id });
}

#[test]
fn deadline_settlement_happens_once() {
    let mut c = engine(FeePolicy::standard());
    let (token, owner) = (addr("CTOKEN"), addr("GOWNER"));
    let id = c
        .create_bounty(
            owner.clone(),
            token.clone(),
            1000,
            vec![(1, 100)],
            1000,
            Some(2000),
            String::from("Once"),
            DECIMALS,
        )
        .unwrap();
    c.apply_to_bounty(addr("G1"), id, String::from("x"), 1).unwrap();
    c.check_judging(id, 3000, DECIMALS).unwrap();
    let transfers = c.transfers.clone();
    let events = c.events.log.len();
    let bounty = c.get_bounty(id).unwrap();

    c.check_judging(id, 3000, DECIMALS).unwrap();
    c.check_judging(id, 9000, DECIMALS).unwrap();
    assert_eq!(c.transfers, transfers);
    assert_eq!(c.events.log.len(), events);
    assert_eq!(c.get_bounty(id).unwrap(), bounty);
}

#[test]
fn equal_split_keeps_the_rounding_loss_in_escrow() {
    let mut c = engine(FeePolicy::standard());
    let (token, owner, fees) = (addr("CTOKEN"), addr("GOWNER"), addr("GFEES"));
    let names = [addr("G1"), addr("G2"), addr("G3")];
    let id = c
        .create_bounty(
            owner.clone(),
            token.clone(),
            1000,
            vec![(1, 100)],
            1000,
            None,
            String::from("Split"),
            0,
        )
        .unwrap();
    for n in names.iter() {
        c.apply_to_bounty(n.clone(), id, String::from("x"), 1).unwrap();
    }
    // without a judging deadline the submission deadline is the final one
    c.check_judging(id, 1001, 0).unwrap();
    // net = 950, share = floor(950 / 3) = 316, loss = 2 <= applicants - 1
    assert_eq!(
        c.transfers[1..],
        [
            out(&token, &names[0], 316),
            out(&token, &names[1], 316),
            out(&token, &names[2], 316),
            out(&token, &fees, 50),
        ]
    );
    assert_eq!(escrow_balance(&c), 2);
    assert_eq!(c.get_bounty(id).unwrap().status, Status::Completed);
    assert!(c.get_bounty(id).unwrap().winners.is_empty());
}

#[test]
fn upfront_fee_is_paid_on_top_and_forwarded_at_once() {
    let mut c = engine(FeePolicy::upfront());
    let (token, owner, fees) = (addr("CTOKEN"), addr("GOWNER"), addr("GFEES"));
    let id = c
        .create_bounty(
            owner.clone(),
            token.clone(),
            1000,
            vec![(1, 100)],
            1000,
            Some(2000),
            String::from("Upfront"),
            DECIMALS,
        )
        .unwrap();
    assert_eq!(
        c.transfers,
        vec![into_escrow(&token, &owner, 1050 * UNIT), out(&token, &fees, 50 * UNIT)]
    );
    assert_eq!(escrow_balance(&c), 1000 * UNIT);
    let winner = addr("GWINNER");
    c.apply_to_bounty(winner.clone(), id, String::from("x"), 1).unwrap();
    c.select_winners(&owner, id, vec![winner.clone()], 1000, DECIMALS).unwrap();
    assert_eq!(c.transfers[2..], [out(&token, &winner, 1000 * UNIT)]);
    assert_eq!(escrow_balance(&c), 0);
}

#[test]
fn gig_milestones_drive_escrow_and_status() {
    let mut c = engine(FeePolicy::standard());
    let (token, owner, fees, worker) =
        (addr("CTOKEN"), addr("GOWNER"), addr("GFEES"), addr("GWORKER"));
    let id = c
        .create_project_gig(
            owner.clone(),
            token.clone(),
            300,
            vec![MilestoneData { amount: 100, order: 1 }, MilestoneData { amount: 200, order: 2 }],
            5000,
            15,
            100,
            DECIMALS,
        )
        .unwrap();
    assert_eq!(id, 1);
    assert_eq!(
        c.transfers,
        vec![into_escrow(&token, &owner, 315 * UNIT), out(&token, &fees, 15 * UNIT)]
    );
    assert_eq!(*c.events.log.last().unwrap(), Event::ProjectGigCreated {
        project_id: 1,
        total_reward: 300
    });
    let project = c.get_project(id).unwrap();
    assert_eq!(project.remaining_escrow, 300);
    assert_eq!(project.status, ProjectStatus::Active);

    c.release_milestone_payment(&owner, id, 1, worker.clone(), 100, DECIMALS).unwrap();
    let project = c.get_project(id).unwrap();
    assert_eq!(project.remaining_escrow, 200);
    assert_eq!(project.status, ProjectStatus::Active);
    assert!(project.milestones[0].is_paid);
    assert!(!project.milestones[1].is_paid);
    assert_eq!(*c.events.log.last().unwrap(), Event::MilestonePaid {
        project_id: id,
        milestone_order: 1,
        contributor: worker.clone(),
        amount: 100
    });

    let again = c.release_milestone_payment(&owner, id, 1, worker.clone(), 100, DECIMALS);
    assert_eq!(again, Err(Error::MilestoneAlreadyPaid));
    assert_eq!(c.get_project(id).unwrap(), project);

    c.release_milestone_payment(&owner, id, 2, worker.clone(), 200, DECIMALS).unwrap();
    let project = c.get_project(id).unwrap();
    assert_eq!(project.remaining_escrow, 0);
    assert_eq!(project.status, ProjectStatus::Completed);
    assert_eq!(
        c.transfers[2..],
        [out(&token, &worker, 100 * UNIT), out(&token, &worker, 200 * UNIT)]
    );
    let n = c.events.log.len();
    assert_eq!(c.events.log[n - 2], Event::ProjectCompleted { project_id: id });
    assert_eq!(c.events.log[n - 2].topic(), "project_completed");
    assert_eq!(c.events.log[n - 1].topic(), "milestone_paid");
    assert_eq!(escrow_balance(&c), 0);

    let late = c.release_milestone_payment(&owner, id, 1, worker, 100, DECIMALS);
    assert_eq!(late, Err(Error::ProjectNotActive));
}

#[test]
fn invalid_distribution_allocates_no_id_and_moves_no_funds() {
    let mut c = engine(FeePolicy::standard());
    let (token, owner) = (addr("CTOKEN"), addr("GOWNER"));
    let events = c.events.log.len();
    let result = c.create_bounty(
        owner.clone(),
        token.clone(),
        1000,
        vec![(1, 60), (2, 30)],
        1000,
        Some(2000),
        String::from("Ninety"),
        DECIMALS,
    );
    assert_eq!(result, Err(Error::DistributionMustSumTo100));
    assert!(c.transfers.is_empty());
    assert!(c.bounties.is_empty());
    assert_eq!(c.get_bounties_count(), 0);
    assert_eq!(c.events.log.len(), events);
    let id = c
        .create_bounty(
            owner,
            token,
            1000,
            vec![(1, 60), (2, 40)],
            1000,
            Some(2000),
            String::from("Hundred"),
            DECIMALS,
        )
        .unwrap();
    assert_eq!(id, 1);
}

#[test]
fn cancelling_a_gig_refunds_the_unpaid_escrow() {
    let mut c = engine(FeePolicy::standard());
    let (token, owner, worker) = (addr("CTOKEN"), addr("GOWNER"), addr("GWORKER"));
    let id = c
        .create_project_gig(
            owner.clone(),
            token.clone(),
            300,
            vec![MilestoneData { amount: 100, order: 1 }, MilestoneData { amount: 200, order: 2 }],
            5000,
            0,
            100,
            DECIMALS,
        )
        .unwrap();
    c.release_milestone_payment(&owner, id, 1, worker, 100, DECIMALS).unwrap();
    let before = c.transfers.len();
    let refund = c.cancel_project_gig(&owner, id, DECIMALS).unwrap();
    assert_eq!(refund, 200);
    assert_eq!(c.transfers[before..], [out(&token, &owner, 200 * UNIT)]);
    let project = c.get_project(id).unwrap();
    assert_eq!(project.status, ProjectStatus::Cancelled);
    assert_eq!(project.remaining_escrow, 0);
    assert_eq!(escrow_balance(&c), 0);
    assert_eq!(*c.events.log.last().unwrap(), Event::ProjectCancelled {
        project_id: id,
        refunded_amount: 200
    });
    assert_eq!(c.cancel_project_gig(&owner, id, DECIMALS), Err(Error::ProjectNotActive));
}

#[test]
fn job_escrows_only_the_fee() {
    let mut c = engine(FeePolicy::standard());
    let (token, owner, fees) = (addr("CTOKEN"), addr("GOWNER"), addr("GFEES"));
    let id = c.create_project_job(owner.clone(), token.clone(), 800, 40, 5000, 100, 2).unwrap();
    assert_eq!(c.transfers, vec![into_escrow(&token, &owner, 4000), out(&token, &fees, 4000)]);
    assert_eq!(escrow_balance(&c), 0);
    let project = c.get_project(id).unwrap();
    assert_eq!(project.total_reward, 800);
    assert_eq!(project.remaining_escrow, 0);
    assert!(project.milestones.is_empty());
    assert_eq!(*c.events.log.last().unwrap(), Event::ProjectJobCreated { project_id: id });
    assert_eq!(c.cancel_project_gig(&owner, id, 2), Err(Error::InvalidProjectType));
    assert_eq!(
        c.release_milestone_payment(&owner, id, 1, addr("GW"), 1, 2),
        Err(Error::InvalidProjectType)
    );
}

#[test]
fn closing_and_deleting_refund_only_what_escrow_holds() {
    let mut c = engine(FeePolicy::standard());
    let (token, owner) = (addr("CTOKEN"), addr("GOWNER"));
    let id = c
        .create_bounty(
            owner.clone(),
            token.clone(),
            700,
            vec![(1, 100)],
            1000,
            Some(2000),
            String::from("Closed then deleted"),
            1,
        )
        .unwrap();
    c.close_bounty(&owner, id, 1).unwrap();
    assert_eq!(c.transfers[1..], [out(&token, &owner, 7000)]);
    assert_eq!(c.close_bounty(&owner, id, 1), Err(Error::InactiveBounty));
    c.delete_bounty(&owner, id, 1).unwrap();
    assert_eq!(c.transfers.len(), 2);
    assert_eq!(c.get_bounty(id), Err(Error::BountyNotFound));
    assert_eq!(escrow_balance(&c), 0);

    // identifiers are never reused
    let next = c
        .create_bounty(
            owner.clone(),
            token.clone(),
            700,
            vec![(1, 100)],
            1000,
            Some(2000),
            String::from("Next"),
            1,
        )
        .unwrap();
    assert_eq!(next, 2);
    assert_eq!(c.get_bounties(), vec![2]);
}

#[test]
fn project_queries_list_identifiers_in_order() {
    let mut c = engine(FeePolicy::standard());
    let (token, alice, bob) = (addr("CTOKEN"), addr("GALICE"), addr("GBOB"));
    let ms = vec![MilestoneData { amount: 10, order: 7 }];
    let a = c.create_project_gig(alice.clone(), token.clone(), 10, ms.clone(), 50, 1, 0, 0).unwrap();
    let b = c.create_project_job(bob.clone(), token.clone(), 10, 1, 50, 0, 0).unwrap();
    let d = c.create_project_gig(alice.clone(), token.clone(), 10, ms, 50, 1, 0, 0).unwrap();
    assert_eq!((a, b, d), (1, 2, 3));
    c.cancel_project_gig(&alice, d, 0).unwrap();
    c.release_milestone_payment(&alice, a, 7, bob.clone(), 10, 0).unwrap();
    assert_eq!(c.get_projects(), vec![1, 2, 3]);
    assert_eq!(c.get_owner_projects(alice), vec![1, 3]);
    assert_eq!(c.get_owner_projects(bob), vec![2]);
    assert_eq!(c.get_projects_by_status(ProjectStatus::Active), vec![2]);
    assert_eq!(c.get_projects_by_status(ProjectStatus::Completed), vec![1]);
    assert_eq!(c.get_projects_by_status(ProjectStatus::Cancelled), vec![3]);
    assert_eq!(c.get_project(4), Err(Error::ProjectNotFound));
    assert_eq!(c.get_project(0), Err(Error::ProjectNotFound));
}
