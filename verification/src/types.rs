//! The records the engine keeps and the errors its operations return.

use vstd::prelude::*;

verus! {

/// Why an operation was refused. Nothing is changed and no transfer is
/// commanded when one of these is returned.
#[derive(Copy, Clone, Debug, PartialEq, Eq, Structural)]
pub enum Error {
    /// The caller is not the administrator.
    NotAdmin,
    /// The zero account cannot be the administrator.
    AdminCannotBeZero,
    /// The zero account cannot collect the fees.
    FeeAccountCannotBeZero,
    /// The fee account is already the one asked for.
    SameFeeAccount,
    /// The caller is not the owner of the bounty.
    OnlyOwner,
    /// The caller is not the owner of the project.
    Unauthorized,
    /// No bounty has the identifier.
    BountyNotFound,
    /// The bounty has left the active state.
    InactiveBounty,
    /// The submission deadline has passed.
    BountyDeadlinePassed,
    /// The judging deadline has passed.
    JudgingDeadlinePassed,
    /// The bounty has submissions on file.
    BountyHasSubmissions,
    /// The submission deadline has not come yet.
    CannotSelectWinnersBeforeSubmissionDeadline,
    /// The submission deadline would not lie before the judging deadline.
    JudgingDeadlineMustBeAfterSubmissionDeadline,
    /// Fewer winners are named than the distribution declares ranks.
    NotEnoughWinners,
    /// The distribution is invalid: it is empty, declares rank zero or a
    /// rank twice, or its percentages do not sum to exactly one hundred.
    DistributionMustSumTo100,
    /// The new submission deadline lies in the past.
    InvalidDeadlineUpdate,
    /// The applicant has no submission on file.
    SubmissionNotFound,
    /// No project has the identifier.
    ProjectNotFound,
    /// The project is not a gig.
    InvalidProjectType,
    /// The project has left the active state.
    ProjectNotActive,
    /// The milestones are invalid: there is none, their amounts do not sum
    /// to the reward, or an order number is used twice.
    InvalidMilestones,
    /// No milestone has the order number.
    MilestoneNotFound,
    /// The milestone is paid already.
    MilestoneAlreadyPaid,
    /// The escrow holds less than the milestone's amount.
    InsufficientEscrow,
    /// The reward is not positive.
    InvalidReward,
    /// An amount is invalid: a milestone amount that is not positive, a
    /// negative fee, a fee rate above one hundred percent, or a requested
    /// amount that differs from the milestone's.
    InvalidAmount,
    /// The deadline does not lie in the future.
    DeadlinePassed,
    /// An amount cannot be expressed in the token's base units, or the
    /// identifiers are used up.
    InternalError,
}

impl Error {
    /// The stable numeric code of the error, from 1 in declaration order.
    pub open spec fn spec_code(self) -> nat {
        match self {
            Error::NotAdmin => 1,
            Error::AdminCannotBeZero => 2,
            Error::FeeAccountCannotBeZero => 3,
            Error::SameFeeAccount => 4,
            Error::OnlyOwner => 5,
            Error::Unauthorized => 6,
            Error::BountyNotFound => 7,
            Error::InactiveBounty => 8,
            Error::BountyDeadlinePassed => 9,
            Error::JudgingDeadlinePassed => 10,
            Error::BountyHasSubmissions => 11,
            Error::CannotSelectWinnersBeforeSubmissionDeadline => 12,
            Error::JudgingDeadlineMustBeAfterSubmissionDeadline => 13,
            Error::NotEnoughWinners => 14,
            Error::DistributionMustSumTo100 => 15,
            Error::InvalidDeadlineUpdate => 16,
            Error::SubmissionNotFound => 17,
            Error::ProjectNotFound => 18,
            Error::InvalidProjectType => 19,
            Error::ProjectNotActive => 20,
            Error::InvalidMilestones => 21,
            Error::MilestoneNotFound => 22,
            Error::MilestoneAlreadyPaid => 23,
            Error::InsufficientEscrow => 24,
            Error::InvalidReward => 25,
            Error::InvalidAmount => 26,
            Error::DeadlinePassed => 27,
            Error::InternalError => 28,
        }
    }

    /// The stable numeric code of the error.
    pub fn code(self) -> (c: u32)
        ensures
            c == self.spec_code(),
            1 <= c <= 28,
    {
        match self {
            Error::NotAdmin => 1,
            Error::AdminCannotBeZero => 2,
            Error::FeeAccountCannotBeZero => 3,
            Error::SameFeeAccount => 4,
            Error::OnlyOwner => 5,
            Error::Unauthorized => 6,
            Error::BountyNotFound => 7,
            Error::InactiveBounty => 8,
            Error::BountyDeadlinePassed => 9,
            Error::JudgingDeadlinePassed => 10,
            Error::BountyHasSubmissions => 11,
            Error::CannotSelectWinnersBeforeSubmissionDeadline => 12,
            Error::JudgingDeadlineMustBeAfterSubmissionDeadline => 13,
            Error::NotEnoughWinners => 14,
            Error::DistributionMustSumTo100 => 15,
            Error::InvalidDeadlineUpdate => 16,
            Error::SubmissionNotFound => 17,
            Error::ProjectNotFound => 18,
            Error::InvalidProjectType => 19,
            Error::ProjectNotActive => 20,
            Error::InvalidMilestones => 21,
            Error::MilestoneNotFound => 22,
            Error::MilestoneAlreadyPaid => 23,
            Error::InsufficientEscrow => 24,
            Error::InvalidReward => 25,
            Error::InvalidAmount => 26,
            Error::DeadlinePassed => 27,
            Error::InternalError => 28,
        }
    }
}

/// Two errors with the same code are the same error.
pub proof fn law_error_codes_are_distinct(a: Error, b: Error)
    requires
        a.spec_code() == b.spec_code(),
    ensures
        a == b,
{
}

/// Lifecycle of a bounty: `Active` is the only state that can be left.
#[derive(Copy, Clone, Debug, PartialEq, Eq, Structural)]
pub enum Status {
    Active,
    Completed,
    Closed,
}

/// Whether the engine escrows the work reward (`Gig`) or only the fee (`Job`).
#[derive(Copy, Clone, Debug, PartialEq, Eq, Structural)]
pub enum ProjectType {
    Gig,
    Job,
}

/// Lifecycle of a project: `Active` is the only state that can be left.
#[derive(Copy, Clone, Debug, PartialEq, Eq, Structural)]
pub enum ProjectStatus {
    Active,
    Completed,
    Cancelled,
}

/// A milestone as its owner declares it when a gig is created.
#[derive(Copy, Clone, Debug, PartialEq, Eq, Structural)]
pub struct MilestoneData {
    pub amount: i128,
    pub order: u32,
}

/// A milestone as a project records it.
#[derive(Copy, Clone, Debug, PartialEq, Eq, Structural)]
pub struct MilestoneInfo {
    pub amount: i128,
    pub order: u32,
    pub is_paid: bool,
}

/// The kinds of entry in the persistent store.
#[derive(Copy, Clone, Debug, PartialEq, Eq, Structural)]
pub enum DataKey {
    Token,
    NextId,
    Bounty,
    Admin,
    FeeAccount,
    NextProjectId,
    Project,
}

impl DataKey {
    /// The number under which the kind is stored, from 1 in declaration order.
    pub open spec fn spec_code(self) -> nat {
        match self {
            DataKey::Token => 1,
            DataKey::NextId => 2,
            DataKey::Bounty => 3,
            DataKey::Admin => 4,
            DataKey::FeeAccount => 5,
            DataKey::NextProjectId => 6,
            DataKey::Project => 7,
        }
    }

    /// The number under which the kind is stored.
    pub fn code(self) -> (c: u32)
        ensures
            c == self.spec_code(),
    {
        match self {
            DataKey::Token => 1,
            DataKey::NextId => 2,
            DataKey::Bounty => 3,
            DataKey::Admin => 4,
            DataKey::FeeAccount => 5,
            DataKey::NextProjectId => 6,
            DataKey::Project => 7,
        }
    }
}

/// The text form of the account whose key is all zero bytes.
pub open spec fn zero_address_text() -> Seq<char> {
    "GAAAAAAAAAAAAAAAAAAAAAAAAAAAAAAAAAAAAAAAAAAAAAAAAAAAAWHF"@
}

/// An account or asset identifier, held in its text form. Two addresses name
/// the same party exactly when their texts are equal.
#[derive(Debug, PartialEq, Eq)]
pub struct Address {
    pub strkey: String,
}

impl View for Address {
    type V = Seq<char>;

    open spec fn view(&self) -> Seq<char> {
        self.strkey@
    }
}

impl Clone for Address {
    fn clone(&self) -> (r: Address)
        ensures
            r == *self,
    {
        Address { strkey: self.strkey.clone() }
    }
}

impl Address {
    /// The address with the given text form.
    pub fn from_str(strkey: &str) -> (r: Address)
        ensures
            r@ == strkey@,
    {
        Address { strkey: strkey.to_owned() }
    }

    /// Whether both addresses name the same party.
    pub fn same(&self, other: &Address) -> (r: bool)
        ensures
            r == (self@ == other@),
    {
        self.strkey == other.strkey
    }
}

/// The texts of a sequence of addresses.
pub open spec fn texts(addresses: Seq<Address>) -> Seq<Seq<char>> {
    addresses.map_values(|a: Address| a@)
}

/// A copy of the addresses.
pub fn copy_addresses(addresses: &Vec<Address>) -> (r: Vec<Address>)
    ensures
        r@ == addresses@,
{
    let mut r: Vec<Address> = Vec::new();
    let mut i: usize = 0;
    while i < addresses.len()
        invariant
            i <= addresses.len(),
            r@ == addresses@.take(i as int),
        decreases addresses.len() - i,
    {
        r.push(addresses[i].clone());
        proof {
            assert(addresses@.take(i as int).push(addresses@[i as int]) =~= addresses@.take(
                i + 1,
            ));
        }
        i = i + 1;
    }
    proof {
        assert(addresses@.take(i as int) =~= addresses@);
    }
    r
}

/// What a submission is: who handed it in, and the reference to the work.
pub struct SubmissionView {
    pub applicant: Seq<char>,
    pub link: Seq<char>,
}

/// One applicant's submission to a bounty.
#[derive(Debug, PartialEq, Eq)]
pub struct Submission {
    pub applicant: Address,
    pub link: String,
}

impl View for Submission {
    type V = SubmissionView;

    open spec fn view(&self) -> SubmissionView {
        SubmissionView { applicant: self.applicant@, link: self.link@ }
    }
}

impl Clone for Submission {
    fn clone(&self) -> (r: Submission)
        ensures
            r == *self,
    {
        Submission { applicant: self.applicant.clone(), link: self.link.clone() }
    }
}

/// The submission reference that `who` has on file, if any. Where an
/// applicant occurs more than once the last entry counts.
pub open spec fn link_of(entries: Seq<SubmissionView>, who: Seq<char>) -> Option<Seq<char>>
    decreases entries.len(),
{
    if entries.len() == 0 {
        None
    } else if entries.last().applicant == who {
        Some(entries.last().link)
    } else {
        link_of(entries.drop_last(), who)
    }
}

/// The entries with every submission of `who` replaced by `link`.
pub open spec fn relinked(entries: Seq<SubmissionView>, who: Seq<char>, link: Seq<char>) -> Seq<
    SubmissionView,
> {
    Seq::new(
        entries.len(),
        |i: int|
            if entries[i].applicant == who {
                SubmissionView { applicant: who, link: link }
            } else {
                entries[i]
            },
    )
}

/// The applicants of the entries, in order.
pub open spec fn applicants_of(entries: Seq<SubmissionView>) -> Seq<Seq<char>> {
    entries.map_values(|e: SubmissionView| e.applicant)
}

/// The views of a sequence of submissions.
pub open spec fn submission_views(entries: Seq<Submission>) -> Seq<SubmissionView> {
    entries.map_values(|e: Submission| e@)
}

/// An applicant without an entry has no submission on file.
pub proof fn lemma_link_of_absent(entries: Seq<SubmissionView>, who: Seq<char>)
    requires
        forall|i: int| 0 <= i < entries.len() ==> (#[trigger] entries[i]).applicant != who,
    ensures
        link_of(entries, who) is None,
    decreases entries.len(),
{
    if entries.len() > 0 {
        assert(entries.last() == entries[entries.len() - 1]);
        let init = entries.drop_last();
        assert forall|i: int| 0 <= i < init.len() implies (#[trigger] init[i]).applicant
            != who by {
            assert(init[i] == entries[i]);
        }
        lemma_link_of_absent(init, who);
    }
}

/// Where no entry after position `i` belongs to `who`, the entry at `i` decides.
pub proof fn lemma_link_of_found(entries: Seq<SubmissionView>, i: int, who: Seq<char>)
    requires
        0 <= i < entries.len(),
        entries[i].applicant == who,
        forall|j: int| i < j < entries.len() ==> (#[trigger] entries[j]).applicant != who,
    ensures
        link_of(entries, who) == Some(entries[i].link),
    decreases entries.len(),
{
    if i < entries.len() - 1 {
        assert(entries.last() == entries[entries.len() - 1]);
        let init = entries.drop_last();
        assert(init[i] == entries[i]);
        assert forall|j: int| i < j < init.len() implies (#[trigger] init[j]).applicant
            != who by {
            assert(init[j] == entries[j]);
        }
        lemma_link_of_found(init, i, who);
    }
}

/// An applicant has a submission on file exactly when some entry is theirs.
pub proof fn lemma_link_of_some_iff(entries: Seq<SubmissionView>, who: Seq<char>)
    ensures
        link_of(entries, who) is Some <==> applicants_of(entries).contains(who),
    decreases entries.len(),
{
    let names = applicants_of(entries);
    if entries.len() > 0 {
        let init = entries.drop_last();
        lemma_link_of_some_iff(init, who);
        assert(applicants_of(init) =~= names.drop_last());
        if entries.last().applicant == who {
            assert(names[names.len() - 1] == who);
        } else if names.contains(who) {
            let i = choose|i: int| 0 <= i < names.len() && names[i] == who;
            assert(names.drop_last()[i] == who);
        } else if applicants_of(init).contains(who) {
            let i = choose|i: int| 0 <= i < names.len() - 1 && names.drop_last()[i] == who;
            assert(names[i] == who);
        }
    }
}

/// The submissions to a bounty: at most one for each applicant, in the order
/// in which the applicants first applied.
#[derive(Debug, PartialEq, Eq)]
pub struct Submissions {
    pub entries: Vec<Submission>,
}

impl View for Submissions {
    type V = Seq<SubmissionView>;

    open spec fn view(&self) -> Seq<SubmissionView> {
        submission_views(self.entries@)
    }
}

impl Clone for Submissions {
    fn clone(&self) -> (r: Submissions)
        ensures
            r@ == self@,
    {
        let mut entries: Vec<Submission> = Vec::new();
        let mut i: usize = 0;
        while i < self.entries.len()
            invariant
                i <= self.entries.len(),
                entries@ == self.entries@.take(i as int),
            decreases self.entries.len() - i,
        {
            entries.push(self.entries[i].clone());
            proof {
                assert(self.entries@.take(i as int).push(self.entries@[i as int])
                    =~= self.entries@.take(i + 1));
            }
            i = i + 1;
        }
        proof {
            assert(self.entries@.take(i as int) =~= self.entries@);
        }
        Submissions { entries }
    }
}

impl Submissions {
    /// No submissions.
    pub fn new() -> (r: Submissions)
        ensures
            r@.len() == 0,
    {
        Submissions { entries: Vec::new() }
    }

    /// The number of submissions.
    pub fn len(&self) -> (n: usize)
        ensures
            n == self@.len(),
    {
        self.entries.len()
    }

    /// Whether `who` has a submission on file.
    pub fn contains_key(&self, who: &Address) -> (found: bool)
        ensures
            found == link_of(self@, who@) is Some,
    {
        self.get(who).is_some()
    }

    /// The submission reference that `who` has on file.
    pub fn get(&self, who: &Address) -> (r: Option<String>)
        ensures
            match r {
                Some(link) => link_of(self@, who@) == Some(link@),
                None => link_of(self@, who@) is None,
            },
    {
        let mut i: usize = self.entries.len();
        while i > 0
            invariant
                i <= self.entries.len(),
                forall|j: int| i <= j < self@.len() ==> (#[trigger] self@[j]).applicant != who@,
            decreases i,
        {
            i = i - 1;
            if self.entries[i].applicant.same(who) {
                proof {
                    assert(self@[i as int] == self.entries@[i as int]@);
                    lemma_link_of_found(self@, i as int, who@);
                }
                return Some(self.entries[i].link.clone());
            }
            proof {
                assert(self@[i as int] == self.entries@[i as int]@);
            }
        }
        proof {
            lemma_link_of_absent(self@, who@);
        }
        None
    }

    /// Files `link` as the submission of `who`: in place of the one on file,
    /// or as a new last entry where `who` has none.
    pub fn set(&mut self, who: Address, link: String)
        ensures
            final(self)@ == (if link_of(old(self)@, who@) is Some {
                relinked(old(self)@, who@, link@)
            } else {
                old(self)@.push(SubmissionView { applicant: who@, link: link@ })
            }),
    {
        let mut found: bool = false;
        let mut i: usize = 0;
        let n: usize = self.entries.len();
        while i < n
            invariant
                i <= n,
                n == self.entries.len(),
                self@.len() == old(self)@.len(),
                found == exists|j: int| 0 <= j < i && (#[trigger] old(self)@[j]).applicant == who@,
                forall|j: int| 0 <= j < i ==> #[trigger] self@[j] == relinked(
                    old(self)@,
                    who@,
                    link@,
                )[j],
                forall|j: int| i <= j < n ==> #[trigger] self@[j] == old(self)@[j],
            decreases n - i,
        {
            let ghost before = self@;
            assert(self@[i as int] == self.entries@[i as int]@);
            if self.entries[i].applicant.same(&who) {
                self.entries.set(i, Submission { applicant: who.clone(), link: link.clone() });
                found = true;
            }
            proof {
                assert forall|j: int| 0 <= j < n && j != i implies #[trigger] self@[j]
                    == before[j] by {
                    assert(self@[j] == self.entries@[j]@);
                }
                assert(self@[i as int] == self.entries@[i as int]@);
            }
            i = i + 1;
        }
        proof {
            lemma_link_of_some_iff(old(self)@, who@);
            let names = applicants_of(old(self)@);
            if found {
                let j = choose|j: int| 0 <= j < n && (#[trigger] old(self)@[j]).applicant == who@;
                assert(names[j] == who@);
            } else {
                assert forall|j: int| 0 <= j < names.len() implies names[j] != who@ by {
                    assert(names[j] == old(self)@[j].applicant);
                }
            }
        }
        if found {
            proof {
                assert(self@ =~= relinked(old(self)@, who@, link@));
            }
        } else {
            let ghost before = self@;
            proof {
                assert(before =~= old(self)@);
            }
            self.entries.push(Submission { applicant: who, link });
            proof {
                assert(self@ =~= before.push(SubmissionView { applicant: who@, link: link@ }));
            }
        }
    }
}

} // verus!
