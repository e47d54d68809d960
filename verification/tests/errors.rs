use stallion::{
    Address, Error, FeePolicy, FeeTiming, MilestoneData, MilestoneInfo, Project, ProjectStatus,
    ProjectType, StallionContract,
};

fn addr(name: &str) -> Address {
    Address::from_str(name)
}

const ZERO: &str = "GAAAAAAAAAAAAAAAAAAAAAAAAAAAAAAAAAAAAAAAAAAAAAAAAAAAAWHF";

fn engine() -> StallionContract {
    StallionContract::new(addr("GADMIN"), addr("GFEES"), FeePolicy::standard()).unwrap()
}

fn bounty(c: &mut StallionContract, judging: Option<u64>) -> u32 {
    c.create_bounty(
        addr("GOWNER"),
        addr("CTOKEN"),
        1000,
        vec![(1, 60), (2, 40)],
        1000,
        judging,
        String::from("Bounty"),
        7,
    )
    .unwrap()
}

fn gig(c: &mut StallionContract) -> u32 {
    c.create_project_gig(
        addr("GOWNER"),
        addr("CTOKEN"),
        300,
        vec![MilestoneData { amount: 100, order: 1 }, MilestoneData { amount: 200, order: 2 }],
        5000,
        10,
        100,
        7,
    )
    .unwrap()
}

#[test]
fn error_codes_are_stable() {
    assert_eq!(Error::NotAdmin.code(), 1);
    assert_eq!(Error::OnlyOwner.code(), 5);
    assert_eq!(Error::BountyNotFound.code(), 7);
    assert_eq!(Error::DistributionMustSumTo100.code(), 15);
    assert_eq!(Error::SubmissionNotFound.code(), 17);
    assert_eq!(Error::MilestoneNotFound.code(), 22);
    assert_eq!(Error::InsufficientEscrow.code(), 24);
    assert_eq!(Error::InternalError.code(), 28);
}

#[test]
fn setup_refuses_the_zero_account_and_bad_rates() {
    let ok = FeePolicy::standard();
    assert_eq!(StallionContract::new(addr(ZERO), addr("GFEES"), ok), Err(Error::AdminCannotBeZero));
    assert_eq!(
        StallionContract::new(addr("GADMIN"), addr(ZERO), ok),
        Err(Error::FeeAccountCannotBeZero)
    );
    let bad = FeePolicy { percent: 101, timing: FeeTiming::AtSettlement };
    assert_eq!(StallionContract::new(addr("GADMIN"), addr("GFEES"), bad), Err(Error::InvalidAmount));
    assert!(stallion::utils::is_zero_address(&addr(ZERO)));
    assert!(!stallion::utils::is_zero_address(&addr("GADMIN")));
}

#[test]
fn administration_errors() {
    let mut c = engine();
    assert_eq!(c.update_admin(&addr("GOTHER"), addr("GNEW")), Err(Error::NotAdmin));
    assert_eq!(c.update_admin(&addr("GADMIN"), addr(ZERO)), Err(Error::AdminCannotBeZero));
    assert_eq!(c.update_fee_account(&addr("GOTHER"), addr("GNEW")), Err(Error::NotAdmin));
    assert_eq!(
        c.update_fee_account(&addr("GADMIN"), addr(ZERO)),
        Err(Error::FeeAccountCannotBeZero)
    );
    assert_eq!(c.update_fee_account(&addr("GADMIN"), addr("GFEES")), Err(Error::SameFeeAccount));
    assert_eq!(c.events.log.len(), 2);
}

#[test]
fn creation_errors_come_in_order() {
    let mut c = engine();
    let mk = |c: &mut StallionContract, reward: i128, dist: Vec<(u32, u32)>, jd: Option<u64>, d| {
        c.create_bounty(addr("GOWNER"), addr("CTOKEN"), reward, dist, 1000, jd, String::new(), d)
    };
    assert_eq!(mk(&mut c, 0, vec![], Some(1), 0), Err(Error::InvalidReward));
    assert_eq!(mk(&mut c, -5, vec![(1, 100)], Some(2000), 0), Err(Error::InvalidReward));
    assert_eq!(mk(&mut c, 1, vec![], Some(2000), 0), Err(Error::DistributionMustSumTo100));
    assert_eq!(mk(&mut c, 1, vec![(1, 101)], Some(2000), 0), Err(Error::DistributionMustSumTo100));
    assert_eq!(
        mk(&mut c, 1, vec![(1, 50), (1, 50)], Some(2000), 0),
        Err(Error::DistributionMustSumTo100)
    );
    assert_eq!(
        mk(&mut c, 1, vec![(0, 50), (1, 50)], Some(2000), 0),
        Err(Error::DistributionMustSumTo100)
    );
    assert_eq!(
        mk(&mut c, 1, vec![(1, u32::MAX), (2, 101)], Some(2000), 0),
        Err(Error::DistributionMustSumTo100)
    );
    assert_eq!(
        mk(&mut c, 1, vec![(1, 100)], Some(1000), 0),
        Err(Error::JudgingDeadlineMustBeAfterSubmissionDeadline)
    );
    assert_eq!(mk(&mut c, i128::MAX, vec![(1, 100)], Some(2000), 1), Err(Error::InternalError));
    assert_eq!(mk(&mut c, 1, vec![(1, 100)], None, 39), Err(Error::InternalError));
    assert_eq!(mk(&mut c, i128::MAX, vec![(7, 100)], None, 0), Ok(1));
    assert_eq!(c.transfers.len(), 1);
}

#[test]
fn upfront_fee_must_fit_on_top_of_the_reward() {
    let mut c =
        StallionContract::new(addr("GADMIN"), addr("GFEES"), FeePolicy::upfront()).unwrap();
    let r = c.create_bounty(
        addr("GOWNER"),
        addr("CTOKEN"),
        i128::MAX,
        vec![(1, 100)],
        1,
        None,
        String::new(),
        0,
    );
    assert_eq!(r, Err(Error::InternalError));
}

#[test]
fn application_errors() {
    let mut c = engine();
    let id = bounty(&mut c, Some(2000));
    let who = addr("GAPPLICANT");
    assert_eq!(
        c.apply_to_bounty(who.clone(), 2, String::from("x"), 0),
        Err(Error::BountyNotFound)
    );
    assert_eq!(
        c.apply_to_bounty(who.clone(), 0, String::from("x"), 0),
        Err(Error::BountyNotFound)
    );
    assert_eq!(c.apply_to_bounty(who.clone(), id, String::from("x"), 1000), Ok(()));
    assert_eq!(
        c.apply_to_bounty(who.clone(), id, String::from("x"), 1001),
        Err(Error::BountyDeadlinePassed)
    );
    assert_eq!(
        c.update_submission(addr("GNOBODY"), id, String::from("y"), 5),
        Err(Error::SubmissionNotFound)
    );
    assert_eq!(
        c.update_submission(who.clone(), id, String::from("y"), 1001),
        Err(Error::BountyDeadlinePassed)
    );
    assert_eq!(c.update_submission(who.clone(), 9, String::from("y"), 5), Err(Error::BountyNotFound));
    assert_eq!(c.get_submission(id, addr("GNOBODY")), Err(Error::SubmissionNotFound));
    assert_eq!(c.get_submission(9, who.clone()), Err(Error::BountyNotFound));
    assert_eq!(c.get_bounty_status(9), Err(Error::BountyNotFound));
    assert_eq!(c.get_bounty_applicants(9), Err(Error::BountyNotFound));
    assert_eq!(c.get_bounty_winners(9), Err(Error::BountyNotFound));
    assert!(c.get_bounty_submissions(9).is_err());

    c.check_judging(id, 2001, 7).unwrap();
    assert_eq!(
        c.apply_to_bounty(who.clone(), id, String::from("z"), 5),
        Err(Error::InactiveBounty)
    );
    assert_eq!(c.update_submission(who, id, String::from("z"), 5), Err(Error::InactiveBounty));
}

#[test]
fn settlement_errors_come_in_order() {
    let mut c = engine();
    let id = bounty(&mut c, Some(2000));
    let owner = addr("GOWNER");
    let (a, b) = (addr("GA"), addr("GB"));
    c.apply_to_bounty(a.clone(), id, String::from("x"), 0).unwrap();
    let both = vec![a.clone(), b.clone()];
    assert_eq!(c.select_winners(&owner, 5, both.clone(), 1500, 7), Err(Error::BountyNotFound));
    assert_eq!(c.select_winners(&a, id, both.clone(), 1500, 7), Err(Error::OnlyOwner));
    assert_eq!(
        c.select_winners(&owner, id, both.clone(), 999, 7),
        Err(Error::CannotSelectWinnersBeforeSubmissionDeadline)
    );
    assert_eq!(
        c.select_winners(&owner, id, both.clone(), 2001, 7),
        Err(Error::JudgingDeadlinePassed)
    );
    assert_eq!(c.select_winners(&owner, id, vec![a.clone()], 1500, 7), Err(Error::NotEnoughWinners));
    assert_eq!(c.select_winners(&owner, id, both.clone(), 1500, 36), Err(Error::InternalError));
    assert_eq!(c.check_judging(id, 2001, 36), Err(Error::InternalError));
    assert_eq!(c.check_judging(7, 2001, 7), Err(Error::BountyNotFound));
    assert_eq!(c.transfers.len(), 1);
    assert_eq!(c.select_winners(&owner, id, both.clone(), 2000, 7), Ok(()));
    assert_eq!(c.select_winners(&owner, id, both, 2000, 7), Err(Error::InactiveBounty));
}

#[test]
fn settlement_without_judging_deadline_has_no_upper_limit() {
    let mut c = engine();
    let id = bounty(&mut c, None);
    let owner = addr("GOWNER");
    assert_eq!(
        c.select_winners(&owner, id, vec![addr("GA"), addr("GB")], u64::MAX, 7),
        Ok(())
    );
}

#[test]
fn update_close_and_delete_errors() {
    let mut c = engine();
    let id = bounty(&mut c, Some(2000));
    let owner = addr("GOWNER");
    assert_eq!(c.update_bounty(&owner, 3, None, vec![], None, 0), Err(Error::BountyNotFound));
    assert_eq!(c.update_bounty(&addr("GX"), id, None, vec![], None, 0), Err(Error::OnlyOwner));
    assert_eq!(
        c.update_bounty(&owner, id, None, vec![(1, 60), (2, 30)], None, 0),
        Err(Error::DistributionMustSumTo100)
    );
    assert_eq!(
        c.update_bounty(&owner, id, None, vec![], Some(99), 100),
        Err(Error::InvalidDeadlineUpdate)
    );
    assert_eq!(
        c.update_bounty(&owner, id, None, vec![], Some(2000), 100),
        Err(Error::JudgingDeadlineMustBeAfterSubmissionDeadline)
    );
    assert_eq!(
        c.update_bounty(&owner, id, Some(String::from("t")), vec![(3, 100)], Some(1999), 100),
        Ok(())
    );
    let b = c.get_bounty(id).unwrap();
    assert_eq!(b.title, "t");
    assert_eq!(b.distribution.entries, vec![(3, 100)]);
    assert_eq!(b.submission_deadline, 1999);
    assert!(b.is_valid());

    assert_eq!(c.close_bounty(&owner, id, 40), Err(Error::InternalError));
    assert_eq!(c.delete_bounty(&owner, id, 40), Err(Error::InternalError));
    assert_eq!(c.delete_bounty(&owner, 3, 7), Err(Error::BountyNotFound));
    c.close_bounty(&owner, id, 7).unwrap();
    assert_eq!(c.update_bounty(&owner, id, None, vec![], None, 0), Err(Error::InactiveBounty));
    assert_eq!(c.delete_bounty(&owner, id, 40), Ok(()));
}

#[test]
fn project_creation_errors_come_in_order() {
    let mut c = engine();
    let m = |amount: i128, order: u32| MilestoneData { amount, order };
    let mk = |c: &mut StallionContract, total: i128, ms: Vec<MilestoneData>, deadline, fee, d| {
        c.create_project_gig(addr("GOWNER"), addr("CTOKEN"), total, ms, deadline, fee, 100, d)
    };
    assert_eq!(mk(&mut c, 0, vec![], 0, -1, 0), Err(Error::InvalidReward));
    assert_eq!(mk(&mut c, 10, vec![], 0, -1, 0), Err(Error::InvalidAmount));
    assert_eq!(mk(&mut c, 10, vec![], 0, 0, 0), Err(Error::InvalidMilestones));
    assert_eq!(mk(&mut c, 10, vec![m(10, 1)], 100, 0, 0), Err(Error::DeadlinePassed));
    assert_eq!(mk(&mut c, 10, vec![m(11, 1), m(0, 2)], 101, 0, 0), Err(Error::InvalidAmount));
    assert_eq!(mk(&mut c, 10, vec![m(4, 1), m(5, 2)], 101, 0, 0), Err(Error::InvalidMilestones));
    assert_eq!(
        mk(&mut c, 10, vec![m(i128::MAX, 1), m(i128::MAX, 2)], 101, 0, 0),
        Err(Error::InvalidMilestones)
    );
    assert_eq!(mk(&mut c, 10, vec![m(4, 1), m(6, 1)], 101, 0, 0), Err(Error::InvalidMilestones));
    assert_eq!(mk(&mut c, 10, vec![m(4, 1), m(6, 2)], 101, i128::MAX, 0), Err(Error::InternalError));
    assert_eq!(mk(&mut c, 10, vec![m(4, 1), m(6, 2)], 101, 0, 38), Err(Error::InternalError));
    assert!(c.projects.is_empty());
    assert!(c.transfers.is_empty());
    assert_eq!(mk(&mut c, 10, vec![m(4, 1), m(6, 2)], 101, 0, 37), Ok(1));

    let job = |c: &mut StallionContract, reward: i128, fee: i128, deadline: u64, d: u32| {
        c.create_project_job(addr("GOWNER"), addr("CTOKEN"), reward, fee, deadline, 100, d)
    };
    assert_eq!(job(&mut c, 0, -1, 0, 0), Err(Error::InvalidReward));
    assert_eq!(job(&mut c, 1, -1, 0, 0), Err(Error::InvalidAmount));
    assert_eq!(job(&mut c, 1, 0, 100, 0), Err(Error::DeadlinePassed));
    assert_eq!(job(&mut c, 1, 2, 101, 39), Err(Error::InternalError));
    assert_eq!(job(&mut c, 1, 0, 101, 39), Ok(2));
}

#[test]
fn release_and_cancel_errors_come_in_order() {
    let mut c = engine();
    let id = gig(&mut c);
    let (owner, worker) = (addr("GOWNER"), addr("GWORKER"));
    let release = |c: &mut StallionContract, who: &Address, id, order, amount, d| {
        c.release_milestone_payment(who, id, order, addr("GWORKER"), amount, d)
    };
    assert_eq!(release(&mut c, &owner, 2, 1, 100, 7), Err(Error::ProjectNotFound));
    assert_eq!(release(&mut c, &worker, id, 1, 100, 7), Err(Error::Unauthorized));
    assert_eq!(release(&mut c, &owner, id, 3, 100, 7), Err(Error::MilestoneNotFound));
    assert_eq!(release(&mut c, &owner, id, 1, 99, 7), Err(Error::InvalidAmount));
    assert_eq!(release(&mut c, &owner, id, 1, 100, 37), Err(Error::InternalError));
    assert_eq!(c.cancel_project_gig(&owner, 2, 7), Err(Error::ProjectNotFound));
    assert_eq!(c.cancel_project_gig(&worker, id, 7), Err(Error::Unauthorized));
    assert_eq!(c.cancel_project_gig(&owner, id, 37), Err(Error::InternalError));
    assert_eq!(c.transfers.len(), 2);
    assert_eq!(release(&mut c, &owner, id, 1, 100, 7), Ok(()));
    assert_eq!(release(&mut c, &owner, id, 1, 100, 7), Err(Error::MilestoneAlreadyPaid));
    assert_eq!(c.cancel_project_gig(&owner, id, 7), Ok(200));
    assert_eq!(release(&mut c, &owner, id, 2, 200, 7), Err(Error::ProjectNotActive));
}

#[test]
fn release_refuses_to_overdraw_an_inconsistent_record() {
    let mut p = Project {
        owner: addr("GOWNER"),
        project_type: ProjectType::Gig,
        token: addr("CTOKEN"),
        total_reward: 100,
        remaining_escrow: 40,
        deadline: 10,
        status: ProjectStatus::Active,
        milestones: vec![MilestoneInfo { amount: 100, order: 1, is_paid: false }],
    };
    assert!(!p.is_valid());
    let r = p.release_milestone_payment(&addr("GOWNER"), 1, &addr("GWORKER"), 100, 0);
    assert_eq!(r, Err(Error::InsufficientEscrow));
    assert_eq!(p.remaining_escrow, 40);
}
