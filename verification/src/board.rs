use vstd::prelude::*;

use crate::account::account_id_is_valid;
use crate::account::valid_account_id;
use crate::entities::Company;
use crate::entities::CompanyId;
use crate::entities::Feedback;
use crate::entities::FeedbackId;
use crate::entities::User;
use crate::entities::UserId;
use crate::entities::created_company;
use crate::entities::created_feedback;
use crate::entities::created_user;
use crate::entities::rated;
use crate::entities::reacted;
use crate::errors::Error;
use crate::order::sort_desc;
use crate::order::sort_ranked;
use crate::paging::page_of;
use crate::paging::page_slice;

verus! {

/// Selector of the user-filtered listing: active entries authored by
/// `user_id`.
pub open spec fn user_sel(user_id: UserId) -> spec_fn(Feedback) -> bool {
    |f: Feedback| f.user_id == user_id && f.activate
}

/// Selector of the parent-filtered listing: active entries reacting to
/// `parent_id`.
pub open spec fn parent_sel(parent_id: FeedbackId) -> spec_fn(Feedback) -> bool {
    |f: Feedback| f.parent_id == parent_id && f.activate
}

/// Selector of the company-filtered listing: active entries targeting
/// `company_id`.
pub open spec fn company_sel(company_id: CompanyId) -> spec_fn(Feedback) -> bool {
    |f: Feedback| f.company_id == company_id && f.activate
}

/// Selector of the company listing: active companies.
pub open spec fn active_sel() -> spec_fn(Company) -> bool {
    |c: Company| c.activate
}

/// Filtering one more record appends it exactly when the selector accepts
/// it.
proof fn lemma_filter_push<A>(s: Seq<A>, x: A, pred: spec_fn(A) -> bool)
    ensures
        s.push(x).filter(pred) == (if pred(x) {
            s.filter(pred).push(x)
        } else {
            s.filter(pred)
        }),
{
    reveal(Seq::filter);
    assert(s.push(x).drop_last() =~= s);
    assert(s.push(x).last() == x);
}

/// The abstract state of a [`Contract`]: the owner principal and the three
/// stores, each a sequence whose index is the entity's identifier.
pub ghost struct BoardModel {
    pub owner_id: Seq<char>,
    pub feedbacks: Seq<Feedback>,
    pub users: Seq<User>,
    pub companies: Seq<Company>,
}

impl BoardModel {
    /// State invariant: every stored entity carries the identifier it is
    /// filed under, and no entity was updated before it was created.
    ///
    /// Identifiers are dense: the allocated identifiers of a kind are
    /// exactly `0 .. len`, in allocation order, so they are unique,
    /// strictly increasing and never reused.
    pub open spec fn wf(self) -> bool {
        &&& forall|i: int|
            0 <= i < self.feedbacks.len() ==> (#[trigger] self.feedbacks[i]).id == i
        &&& forall|i: int| 0 <= i < self.users.len() ==> (#[trigger] self.users[i]).id == i
        &&& forall|i: int|
            0 <= i < self.companies.len() ==> (#[trigger] self.companies[i]).id == i
        &&& forall|i: int|
            0 <= i < self.feedbacks.len() ==> (#[trigger] self.feedbacks[i]).timestamps_wf()
        &&& forall|i: int| 0 <= i < self.users.len() ==> (#[trigger] self.users[i]).timestamps_wf()
        &&& forall|i: int|
            0 <= i < self.companies.len() ==> (#[trigger] self.companies[i]).timestamps_wf()
    }

    /// Every stored timestamp lies at or before `now`.  The host's logical
    /// clock is monotonic, so every instant it supplies satisfies this.
    pub open spec fn clock_le(self, now: u64) -> bool {
        &&& forall|i: int|
            0 <= i < self.feedbacks.len() ==> (#[trigger] self.feedbacks[i]).stamped_by(now)
        &&& forall|i: int| 0 <= i < self.users.len() ==> (#[trigger] self.users[i]).stamped_by(now)
        &&& forall|i: int|
            0 <= i < self.companies.len() ==> (#[trigger] self.companies[i]).stamped_by(now)
    }

    /// Machine limit: the vote counter that creating `f` would bump has
    /// room for one more.
    pub open spec fn reaction_fits(self, f: Feedback) -> bool {
        f.parent_id < self.feedbacks.len() ==> {
            let p = self.feedbacks[f.parent_id as int];
            &&& f.reaction == 0 ==> p.up_vote < usize::MAX
            &&& f.reaction == 1 ==> p.down_vote < usize::MAX
            &&& f.reaction == 2 ==> p.report_vote < usize::MAX
        }
    }

    /// Machine limit: the rating accumulator and count of the company that
    /// creating `f` would credit stay within bounds.
    pub open spec fn rating_fits(self, f: Feedback) -> bool {
        f.company_id < self.companies.len() ==> {
            let c = self.companies[f.company_id as int];
            &&& c.rating + f.rating <= usize::MAX
            &&& c.rating_count < usize::MAX
        }
    }

    /// Machine limit: replacing the stored rating of feedback `id` by
    /// `f.rating` keeps the company accumulator within bounds at each step
    /// of `rating - old + new`.
    pub open spec fn rating_delta_fits(self, id: FeedbackId, f: Feedback) -> bool {
        id < self.feedbacks.len() && f.company_id < self.companies.len() ==> {
            let c = self.companies[f.company_id as int];
            let r1 = self.feedbacks[id as int].rating;
            &&& r1 <= c.rating
            &&& c.rating - r1 + f.rating <= usize::MAX
        }
    }
}

/// The state after creating a feedback entry from payload `f` at instant
/// `now`: the new record is filed under the next identifier; then, if the
/// store holds an entry at `f.parent_id`, that entry's vote tally grows per
/// `f.reaction`; and if the store holds a company at `f.company_id`, its
/// rating accumulator grows by `f.rating`.  Absent parent or company is
/// non-fatal: that part of the state stays as it was.
///
/// The new record is visible to the parent lookup, so an entry whose
/// `parent_id` names its own identifier tallies itself.
pub open spec fn spec_create_feedback(m: BoardModel, f: Feedback, now: u64) -> BoardModel {
    let nf = created_feedback(f, m.feedbacks.len() as FeedbackId, now);
    let pushed = m.feedbacks.push(nf);
    let fs = if f.parent_id < pushed.len() {
        pushed.update(f.parent_id as int, reacted(pushed[f.parent_id as int], f.reaction))
    } else {
        pushed
    };
    let cs = if f.company_id < m.companies.len() {
        m.companies.update(f.company_id as int, rated(m.companies[f.company_id as int], f.rating))
    } else {
        m.companies
    };
    BoardModel { feedbacks: fs, companies: cs, ..m }
}

/// The state after creating a user from payload `u` at instant `now`.
pub open spec fn spec_create_user(m: BoardModel, u: User, now: u64) -> BoardModel {
    BoardModel { users: m.users.push(created_user(u, m.users.len() as UserId, now)), ..m }
}

/// The state after creating a company from payload `c` at instant `now`.
pub open spec fn spec_create_company(m: BoardModel, c: Company, now: u64) -> BoardModel {
    BoardModel {
        companies: m.companies.push(created_company(c, m.companies.len() as CompanyId, now)),
        ..m
    }
}

/// The state after updating feedback `id` with payload `f` at instant
/// `now`: the stored entry only has its update timestamp bumped, and if the
/// store holds a company at `f.company_id`, its rating accumulator moves by
/// the difference between `f.rating` and the stored rating.  The rating
/// count and the vote tallies stay as they were.
pub open spec fn spec_update_feedback(m: BoardModel, id: FeedbackId, f: Feedback, now: u64) -> BoardModel
    recommends
        id < m.feedbacks.len(),
{
    let old_f = m.feedbacks[id as int];
    let fs = m.feedbacks.update(id as int, Feedback { update_at: now, ..old_f });
    let cs = if f.company_id < m.companies.len() {
        let c = m.companies[f.company_id as int];
        m.companies.update(
            f.company_id as int,
            Company { rating: (c.rating - old_f.rating + f.rating) as usize, ..c },
        )
    } else {
        m.companies
    };
    BoardModel { feedbacks: fs, companies: cs, ..m }
}

/// The state after updating user `id` with payload `u` at instant `now`:
/// the caller's fields are stored under the same identifier; the creation
/// timestamp and the activation flag are kept, and the update timestamp is
/// bumped.
pub open spec fn spec_update_user(m: BoardModel, id: UserId, u: User, now: u64) -> BoardModel
    recommends
        id < m.users.len(),
{
    let old_u = m.users[id as int];
    BoardModel {
        users: m.users.update(
            id as int,
            User {
                id: id,
                create_at: old_u.create_at,
                update_at: now,
                activate: old_u.activate,
                ..u
            },
        ),
        ..m
    }
}

/// The state after updating company `id` with payload `c` at instant `now`,
/// in the same way as [`spec_update_user`].  The rating accumulator and
/// count are ordinary payload fields here: the caller's values are stored.
pub open spec fn spec_update_company(m: BoardModel, id: CompanyId, c: Company, now: u64) -> BoardModel
    recommends
        id < m.companies.len(),
{
    let old_c = m.companies[id as int];
    BoardModel {
        companies: m.companies.update(
            id as int,
            Company {
                id: id,
                create_at: old_c.create_at,
                update_at: now,
                activate: old_c.activate,
                ..c
            },
        ),
        ..m
    }
}

/// The state after the owner sets the activation flag of feedback `id`.
pub open spec fn spec_update_active_feedback(
    m: BoardModel,
    id: FeedbackId,
    activate: bool,
    now: u64,
) -> BoardModel
    recommends
        id < m.feedbacks.len(),
{
    let old_f = m.feedbacks[id as int];
    BoardModel {
        feedbacks: m.feedbacks.update(
            id as int,
            Feedback { activate: activate, update_at: now, ..old_f },
        ),
        ..m
    }
}

/// The state after the owner sets the activation flag of user `id`.
pub open spec fn spec_update_active_user(m: BoardModel, id: UserId, activate: bool, now: u64) -> BoardModel
    recommends
        id < m.users.len(),
{
    let old_u = m.users[id as int];
    BoardModel {
        users: m.users.update(id as int, User { activate: activate, update_at: now, ..old_u }),
        ..m
    }
}

/// The state after the owner sets the activation flag of company `id`.
pub open spec fn spec_update_active_company(
    m: BoardModel,
    id: CompanyId,
    activate: bool,
    now: u64,
) -> BoardModel
    recommends
        id < m.companies.len(),
{
    let old_c = m.companies[id as int];
    BoardModel {
        companies: m.companies.update(
            id as int,
            Company { activate: activate, update_at: now, ..old_c },
        ),
        ..m
    }
}

/// Creating a user preserves the state invariant and stays within the
/// clock bound.
pub proof fn lemma_create_user_wf(m: BoardModel, u: User, now: u64)
    requires
        m.wf(),
        m.clock_le(now),
        m.users.len() < usize::MAX,
    ensures
        spec_create_user(m, u, now).wf(),
        spec_create_user(m, u, now).clock_le(now),
{
    let m2 = spec_create_user(m, u, now);
    assert forall|i: int| 0 <= i < m2.users.len() implies {
        &&& (#[trigger] m2.users[i]).id == i
        &&& m2.users[i].timestamps_wf()
        &&& m2.users[i].stamped_by(now)
    } by {
        if i < m.users.len() {
            assert(m2.users[i] == m.users[i]);
        } else {
            assert(m2.users[i] == created_user(u, m.users.len() as UserId, now));
        }
    }
}

/// Creating a company preserves the state invariant and stays within the
/// clock bound.
pub proof fn lemma_create_company_wf(m: BoardModel, c: Company, now: u64)
    requires
        m.wf(),
        m.clock_le(now),
        m.companies.len() < usize::MAX,
    ensures
        spec_create_company(m, c, now).wf(),
        spec_create_company(m, c, now).clock_le(now),
{
    let m2 = spec_create_company(m, c, now);
    assert forall|i: int| 0 <= i < m2.companies.len() implies {
        &&& (#[trigger] m2.companies[i]).id == i
        &&& m2.companies[i].timestamps_wf()
        &&& m2.companies[i].stamped_by(now)
    } by {
        if i < m.companies.len() {
            assert(m2.companies[i] == m.companies[i]);
        } else {
            assert(m2.companies[i] == created_company(c, m.companies.len() as CompanyId, now));
        }
    }
}

/// Creating a feedback entry preserves the state invariant and stays
/// within the clock bound: the new record is stamped with `now`, a tallied
/// parent keeps its identifier and timestamps, and a rated company keeps
/// its identifier and timestamps.
pub proof fn lemma_create_feedback_wf(m: BoardModel, f: Feedback, now: u64)
    requires
        m.wf(),
        m.clock_le(now),
        m.feedbacks.len() < usize::MAX,
    ensures
        spec_create_feedback(m, f, now).wf(),
        spec_create_feedback(m, f, now).clock_le(now),
{
    let m2 = spec_create_feedback(m, f, now);
    let nf = created_feedback(f, m.feedbacks.len() as FeedbackId, now);
    let pushed = m.feedbacks.push(nf);
    assert forall|i: int| 0 <= i < m2.feedbacks.len() implies {
        &&& (#[trigger] m2.feedbacks[i]).id == i
        &&& m2.feedbacks[i].timestamps_wf()
        &&& m2.feedbacks[i].stamped_by(now)
    } by {
        let base = if i < m.feedbacks.len() {
            m.feedbacks[i]
        } else {
            nf
        };
        assert(pushed[i] == base);
        if f.parent_id < pushed.len() && i == f.parent_id {
            assert(m2.feedbacks[i] == reacted(base, f.reaction));
        } else {
            assert(m2.feedbacks[i] == base);
        }
    }
    assert forall|i: int| 0 <= i < m2.companies.len() implies {
        &&& (#[trigger] m2.companies[i]).id == i
        &&& m2.companies[i].timestamps_wf()
        &&& m2.companies[i].stamped_by(now)
    } by {
        if f.company_id < m.companies.len() && i == f.company_id {
            assert(m2.companies[i] == rated(m.companies[i], f.rating));
        } else {
            assert(m2.companies[i] == m.companies[i]);
        }
    }
}

/// Updating a feedback entry preserves the state invariant and stays
/// within the clock bound.
pub proof fn lemma_update_feedback_wf(m: BoardModel, id: FeedbackId, f: Feedback, now: u64)
    requires
        m.wf(),
        m.clock_le(now),
        id < m.feedbacks.len(),
    ensures
        spec_update_feedback(m, id, f, now).wf(),
        spec_update_feedback(m, id, f, now).clock_le(now),
{
    let m2 = spec_update_feedback(m, id, f, now);
    assert forall|i: int| 0 <= i < m2.feedbacks.len() implies {
        &&& (#[trigger] m2.feedbacks[i]).id == i
        &&& m2.feedbacks[i].timestamps_wf()
        &&& m2.feedbacks[i].stamped_by(now)
    } by {
        if i != id {
            assert(m2.feedbacks[i] == m.feedbacks[i]);
        }
    }
    assert forall|i: int| 0 <= i < m2.companies.len() implies {
        &&& (#[trigger] m2.companies[i]).id == i
        &&& m2.companies[i].timestamps_wf()
        &&& m2.companies[i].stamped_by(now)
    } by {
        if !(f.company_id < m.companies.len() && i == f.company_id) {
            assert(m2.companies[i] == m.companies[i]);
        }
    }
}

/// Updating a user preserves the state invariant and stays within the
/// clock bound.
pub proof fn lemma_update_user_wf(m: BoardModel, id: UserId, u: User, now: u64)
    requires
        m.wf(),
        m.clock_le(now),
        id < m.users.len(),
    ensures
        spec_update_user(m, id, u, now).wf(),
        spec_update_user(m, id, u, now).clock_le(now),
{
    let m2 = spec_update_user(m, id, u, now);
    assert forall|i: int| 0 <= i < m2.users.len() implies {
        &&& (#[trigger] m2.users[i]).id == i
        &&& m2.users[i].timestamps_wf()
        &&& m2.users[i].stamped_by(now)
    } by {
        if i != id {
            assert(m2.users[i] == m.users[i]);
        }
    }
}

/// Updating a company preserves the state invariant and stays within the
/// clock bound.
pub proof fn lemma_update_company_wf(m: BoardModel, id: CompanyId, c: Company, now: u64)
    requires
        m.wf(),
        m.clock_le(now),
        id < m.companies.len(),
    ensures
        spec_update_company(m, id, c, now).wf(),
        spec_update_company(m, id, c, now).clock_le(now),
{
    let m2 = spec_update_company(m, id, c, now);
    assert forall|i: int| 0 <= i < m2.companies.len() implies {
        &&& (#[trigger] m2.companies[i]).id == i
        &&& m2.companies[i].timestamps_wf()
        &&& m2.companies[i].stamped_by(now)
    } by {
        if i != id {
            assert(m2.companies[i] == m.companies[i]);
        }
    }
}

/// Toggling a feedback entry's activation preserves the state invariant
/// and stays within the clock bound.
pub proof fn lemma_update_active_feedback_wf(m: BoardModel, id: FeedbackId, activate: bool, now: u64)
    requires
        m.wf(),
        m.clock_le(now),
        id < m.feedbacks.len(),
    ensures
        spec_update_active_feedback(m, id, activate, now).wf(),
        spec_update_active_feedback(m, id, activate, now).clock_le(now),
{
    let m2 = spec_update_active_feedback(m, id, activate, now);
    assert forall|i: int| 0 <= i < m2.feedbacks.len() implies {
        &&& (#[trigger] m2.feedbacks[i]).id == i
        &&& m2.feedbacks[i].timestamps_wf()
        &&& m2.feedbacks[i].stamped_by(now)
    } by {
        if i != id {
            assert(m2.feedbacks[i] == m.feedbacks[i]);
        }
    }
}

/// Toggling a user's activation preserves the state invariant and stays
/// within the clock bound.
pub proof fn lemma_update_active_user_wf(m: BoardModel, id: UserId, activate: bool, now: u64)
    requires
        m.wf(),
        m.clock_le(now),
        id < m.users.len(),
    ensures
        spec_update_active_user(m, id, activate, now).wf(),
        spec_update_active_user(m, id, activate, now).clock_le(now),
{
    let m2 = spec_update_active_user(m, id, activate, now);
    assert forall|i: int| 0 <= i < m2.users.len() implies {
        &&& (#[trigger] m2.users[i]).id == i
        &&& m2.users[i].timestamps_wf()
        &&& m2.users[i].stamped_by(now)
    } by {
        if i != id {
            assert(m2.users[i] == m.users[i]);
        }
    }
}

/// Toggling a company's activation preserves the state invariant and stays
/// within the clock bound.
pub proof fn lemma_update_active_company_wf(m: BoardModel, id: CompanyId, activate: bool, now: u64)
    requires
        m.wf(),
        m.clock_le(now),
        id < m.companies.len(),
    ensures
        spec_update_active_company(m, id, activate, now).wf(),
        spec_update_active_company(m, id, activate, now).clock_le(now),
{
    let m2 = spec_update_active_company(m, id, activate, now);
    assert forall|i: int| 0 <= i < m2.companies.len() implies {
        &&& (#[trigger] m2.companies[i]).id == i
        &&& m2.companies[i].timestamps_wf()
        &&& m2.companies[i].stamped_by(now)
    } by {
        if i != id {
            assert(m2.companies[i] == m.companies[i]);
        }
    }
}

/// The review platform's entire durable state: the owner principal, the
/// three entity stores, and the three next-identifier counters.
///
/// A store is a vector whose index is the entity's identifier; identifiers
/// are allocated densely and entities are never deleted, so each counter
/// always equals its store's length.
#[derive(Debug)]
pub struct Contract {
    /// contract owner
    pub owner_id: String,
    /// All feedbacks
    pub feedbacks: Vec<Feedback>,
    /// All users
    pub users: Vec<User>,
    /// All companies
    pub companies: Vec<Company>,
    /// Next id for feedback
    pub next_feedback_id: FeedbackId,
    /// Next id for user
    pub next_user_id: UserId,
    /// Next id for company
    pub next_company_id: CompanyId,
}

impl View for Contract {
    type V = BoardModel;

    open spec fn view(&self) -> BoardModel {
        BoardModel {
            owner_id: self.owner_id@,
            feedbacks: self.feedbacks@,
            users: self.users@,
            companies: self.companies@,
        }
    }
}

impl Contract {
    /// The state invariant of [`BoardModel::wf`], plus: each
    /// next-identifier counter equals its store's length.
    pub open spec fn wf(self) -> bool {
        &&& self@.wf()
        &&& self.next_feedback_id == self.feedbacks@.len()
        &&& self.next_user_id == self.users@.len()
        &&& self.next_company_id == self.companies@.len()
    }

    /// Construct the empty state owned by `owner_id`, or refuse a
    /// principal that the account grammar rejects.
    pub fn new(owner_id: String) -> (r: Result<Contract, Error>)
        ensures
            valid_account_id(owner_id@) ==> (match r {
                Ok(c) => {
                    &&& c.wf()
                    &&& c@.owner_id == owner_id@
                    &&& c@.feedbacks.len() == 0
                    &&& c@.users.len() == 0
                    &&& c@.companies.len() == 0
                },
                Err(_) => false,
            }),
            !valid_account_id(owner_id@) ==> r == Err::<Contract, Error>(Error::InvalidAccount),
    {
        if !account_id_is_valid(owner_id.as_str()) {
            return Err(Error::InvalidAccount);
        }
        Ok(
            Contract {
                owner_id,
                feedbacks: Vec::new(),
                users: Vec::new(),
                companies: Vec::new(),
                next_feedback_id: 0,
                next_user_id: 0,
                next_company_id: 0,
            },
        )
    }

    /// Does the caller hold the owner principal?  The authorization gate
    /// for the activation operations.
    pub fn only_contract_owner(&self, caller: &String) -> (r: bool)
        ensures
            r == (caller@ == self@.owner_id),
    {
        *caller == self.owner_id
    }

    /// Create new user
    /// @param User user
    /// @return user
    pub fn create_user(&mut self, user: User, now: u64) -> (r: User)
        requires
            old(self).wf(),
            old(self)@.clock_le(now),
            old(self)@.users.len() < usize::MAX,
        ensures
            final(self).wf(),
            final(self)@.clock_le(now),
            final(self)@ == spec_create_user(old(self)@, user, now),
            r == created_user(user, old(self)@.users.len() as UserId, now),
    {
        let ghost m0 = self@;
        let ghost user0 = user;
        let id = self.next_user_id;
        let mut user = user;
        user.id = id;
        user.create_at = now;
        user.update_at = now;
        user.activate = false;

        let r = user.clone();
        self.users.push(user);
        self.next_user_id = id + 1;
        proof {
            assert(r == created_user(user0, id as UserId, now));
            assert(self@ == spec_create_user(m0, user0, now));
            lemma_create_user_wf(m0, user0, now);
        }
        r
    }

    /// Create new company
    /// @param Company company
    /// @return company
    pub fn create_company(&mut self, company: Company, now: u64) -> (r: Company)
        requires
            old(self).wf(),
            old(self)@.clock_le(now),
            old(self)@.companies.len() < usize::MAX,
        ensures
            final(self).wf(),
            final(self)@.clock_le(now),
            final(self)@ == spec_create_company(old(self)@, company, now),
            r == created_company(company, old(self)@.companies.len() as CompanyId, now),
    {
        let ghost m0 = self@;
        let ghost company0 = company;
        let id = self.next_company_id;
        let mut company = company;
        company.id = id;
        company.rating = 0;
        company.rating_count = 0;
        company.create_at = now;
        company.update_at = now;
        company.activate = false;

        let r = company.clone();
        self.companies.push(company);
        self.next_company_id = id + 1;
        proof {
            assert(r == created_company(company0, id as CompanyId, now));
            assert(self@ == spec_create_company(m0, company0, now));
            lemma_create_company_wf(m0, company0, now);
        }
        r
    }

    /// Create new feedback
    /// @param Feedback feedback
    /// @return feedback
    ///
    /// The returned record is the one persisted under the new identifier,
    /// before any tally: an entry created as a reaction to itself is
    /// tallied in the store only.
    pub fn create_feedback(&mut self, feedback: Feedback, now: u64) -> (r: Feedback)
        requires
            old(self).wf(),
            old(self)@.clock_le(now),
            old(self)@.feedbacks.len() < usize::MAX,
            old(self)@.reaction_fits(feedback),
            old(self)@.rating_fits(feedback),
        ensures
            final(self).wf(),
            final(self)@.clock_le(now),
            final(self)@ == spec_create_feedback(old(self)@, feedback, now),
            r == created_feedback(feedback, old(self)@.feedbacks.len() as FeedbackId, now),
    {
        let ghost m0 = self@;
        let ghost feedback0 = feedback;
        let id = self.next_feedback_id;
        let mut feedback = feedback;
        feedback.id = id;
        feedback.up_vote = 0;
        feedback.down_vote = 0;
        feedback.report_vote = 0;
        feedback.create_at = now;
        feedback.update_at = now;
        feedback.activate = false;

        let parent_id = feedback.parent_id;
        let reaction = feedback.reaction;
        let company_id = feedback.company_id;
        let rating = feedback.rating;

        // Create new feedback
        let r = feedback.clone();
        self.feedbacks.push(feedback);
        self.next_feedback_id = id + 1;
        proof {
            assert(r == created_feedback(feedback0, id as FeedbackId, now));
        }

        // Update parent feedback up_vote, down_vote, report_vote by reaction
        if parent_id < self.feedbacks.len() {
            let mut parent = self.feedbacks[parent_id].clone();
            if reaction == 0 {
                parent.up_vote = parent.up_vote + 1;
            }
            if reaction == 1 {
                parent.down_vote = parent.down_vote + 1;
            }
            if reaction == 2 {
                parent.report_vote = parent.report_vote + 1;
            }
            self.feedbacks[parent_id] = parent;
        }

        // Update company rating
        if company_id < self.companies.len() {
            let mut company = self.companies[company_id].clone();
            company.rating = company.rating + rating;
            company.rating_count = company.rating_count + 1;
            self.companies[company_id] = company;
        }

        proof {
            let m2 = spec_create_feedback(m0, feedback0, now);
            assert(self.feedbacks@ =~= m2.feedbacks);
            assert(self.companies@ =~= m2.companies);
            assert(self@ == m2);
            lemma_create_feedback_wf(m0, feedback0, now);
        }
        r
    }

    /// Update feedback by id
    /// @param FeedbackId id
    /// @param Feedback feedback
    /// @return feedback
    ///
    /// Only the stored entry's update timestamp moves; the payload drives
    /// the company rating adjustment and is handed back to the caller.
    pub fn update_feedback(&mut self, id: FeedbackId, feedback: Feedback, now: u64) -> (r: Result<
        Feedback,
        Error,
    >)
        requires
            old(self).wf(),
            old(self)@.clock_le(now),
            old(self)@.rating_delta_fits(id, feedback),
        ensures
            final(self).wf(),
            final(self)@.clock_le(now),
            id < old(self)@.feedbacks.len() ==> final(self)@ == spec_update_feedback(
                old(self)@,
                id,
                feedback,
                now,
            ) && r == Ok::<Feedback, Error>(feedback),
            id >= old(self)@.feedbacks.len() ==> r == Err::<Feedback, Error>(Error::NotFound)
                && final(self)@ == old(self)@,
    {
        let ghost m0 = self@;
        let ghost feedback0 = feedback;
        if id >= self.feedbacks.len() {
            return Err(Error::NotFound);
        }

        // Update feedback
        let mut stored = self.feedbacks[id].clone();
        let old_rating = stored.rating;
        stored.update_at = now;
        self.feedbacks[id] = stored;

        // Update company rating
        if feedback.company_id < self.companies.len() {
            let company_id = feedback.company_id;
            let mut company = self.companies[company_id].clone();
            company.rating = company.rating - old_rating + feedback.rating;
            self.companies[company_id] = company;
        }

        proof {
            let m2 = spec_update_feedback(m0, id, feedback0, now);
            assert(self.feedbacks@ =~= m2.feedbacks);
            assert(self.companies@ =~= m2.companies);
            assert(self@ == m2);
            lemma_update_feedback_wf(m0, id, feedback0, now);
        }
        Ok(feedback)
    }

    /// Update user by id
    /// @param UserId id
    /// @param User user
    /// @return user
    ///
    /// The stored record keeps its identifier, creation timestamp and
    /// activation flag; the rest comes from the payload.
    pub fn update_user(&mut self, id: UserId, user: User, now: u64) -> (r: Result<User, Error>)
        requires
            old(self).wf(),
            old(self)@.clock_le(now),
        ensures
            final(self).wf(),
            final(self)@.clock_le(now),
            id < old(self)@.users.len() ==> final(self)@ == spec_update_user(
                old(self)@,
                id,
                user,
                now,
            ) && r == Ok::<User, Error>(final(self)@.users[id as int]),
            id >= old(self)@.users.len() ==> r == Err::<User, Error>(Error::NotFound)
                && final(self)@ == old(self)@,
    {
        let ghost m0 = self@;
        let ghost user0 = user;
        if id >= self.users.len() {
            return Err(Error::NotFound);
        }

        let create_at = self.users[id].create_at;
        let activate = self.users[id].activate;
        let mut user = user;
        user.id = id;
        user.create_at = create_at;
        user.update_at = now;
        user.activate = activate;

        let r = user.clone();
        self.users[id] = user;

        proof {
            let m2 = spec_update_user(m0, id, user0, now);
            assert(self.users@ =~= m2.users);
            assert(self@ == m2);
            lemma_update_user_wf(m0, id, user0, now);
        }
        Ok(r)
    }

    /// Update company by id
    /// @param CompanyId id
    /// @param Company company
    /// @return company
    ///
    /// The stored record keeps its identifier, creation timestamp and
    /// activation flag; the rest — the rating accumulator and count
    /// included — comes from the payload.
    pub fn update_company(&mut self, id: CompanyId, company: Company, now: u64) -> (r: Result<
        Company,
        Error,
    >)
        requires
            old(self).wf(),
            old(self)@.clock_le(now),
        ensures
            final(self).wf(),
            final(self)@.clock_le(now),
            id < old(self)@.companies.len() ==> final(self)@ == spec_update_company(
                old(self)@,
                id,
                company,
                now,
            ) && r == Ok::<Company, Error>(final(self)@.companies[id as int]),
            id >= old(self)@.companies.len() ==> r == Err::<Company, Error>(Error::NotFound)
                && final(self)@ == old(self)@,
    {
        let ghost m0 = self@;
        let ghost company0 = company;
        if id >= self.companies.len() {
            return Err(Error::NotFound);
        }

        let create_at = self.companies[id].create_at;
        let activate = self.companies[id].activate;
        let mut company = company;
        company.id = id;
        company.create_at = create_at;
        company.update_at = now;
        company.activate = activate;

        let r = company.clone();
        self.companies[id] = company;

        proof {
            let m2 = spec_update_company(m0, id, company0, now);
            assert(self.companies@ =~= m2.companies);
            assert(self@ == m2);
            lemma_update_company_wf(m0, id, company0, now);
        }
        Ok(r)
    }

    /// Update activate feedback
    /// @param FeedbackId id
    /// @param bool activate
    /// @return feedback
    ///
    /// Owner-gated: any other caller is turned away with `Unauthorized`
    /// before the store is consulted.
    pub fn update_active_feedback(
        &mut self,
        id: FeedbackId,
        activate: bool,
        caller: &String,
        now: u64,
    ) -> (r: Result<Feedback, Error>)
        requires
            old(self).wf(),
            old(self)@.clock_le(now),
        ensures
            final(self).wf(),
            final(self)@.clock_le(now),
            caller@ != old(self)@.owner_id ==> r == Err::<Feedback, Error>(Error::Unauthorized)
                && final(self)@ == old(self)@,
            caller@ == old(self)@.owner_id && id >= old(self)@.feedbacks.len() ==> r == Err::<
                Feedback,
                Error,
            >(Error::NotFound) && final(self)@ == old(self)@,
            caller@ == old(self)@.owner_id && id < old(self)@.feedbacks.len() ==> final(self)@
                == spec_update_active_feedback(old(self)@, id, activate, now) && r == Ok::<
                Feedback,
                Error,
            >(final(self)@.feedbacks[id as int]),
    {
        let ghost m0 = self@;
        if !self.only_contract_owner(caller) {
            return Err(Error::Unauthorized);
        }
        if id >= self.feedbacks.len() {
            return Err(Error::NotFound);
        }

        let mut feedback = self.feedbacks[id].clone();
        feedback.activate = activate;
        feedback.update_at = now;
        let r = feedback.clone();
        self.feedbacks[id] = feedback;

        proof {
            let m2 = spec_update_active_feedback(m0, id, activate, now);
            assert(self.feedbacks@ =~= m2.feedbacks);
            assert(self@ == m2);
            lemma_update_active_feedback_wf(m0, id, activate, now);
        }
        Ok(r)
    }

    /// Update activate user
    /// @param UserId id
    /// @param bool activate
    /// @return user
    ///
    /// Owner-gated: any other caller is turned away with `Unauthorized`
    /// before the store is consulted.
    pub fn update_active_user(
        &mut self,
        id: UserId,
        activate: bool,
        caller: &String,
        now: u64,
    ) -> (r: Result<User, Error>)
        requires
            old(self).wf(),
            old(self)@.clock_le(now),
        ensures
            final(self).wf(),
            final(self)@.clock_le(now),
            caller@ != old(self)@.owner_id ==> r == Err::<User, Error>(Error::Unauthorized)
                && final(self)@ == old(self)@,
            caller@ == old(self)@.owner_id && id >= old(self)@.users.len() ==> r == Err::<
                User,
                Error,
            >(Error::NotFound) && final(self)@ == old(self)@,
            caller@ == old(self)@.owner_id && id < old(self)@.users.len() ==> final(self)@
                == spec_update_active_user(old(self)@, id, activate, now) && r == Ok::<
                User,
                Error,
            >(final(self)@.users[id as int]),
    {
        let ghost m0 = self@;
        if !self.only_contract_owner(caller) {
            return Err(Error::Unauthorized);
        }
        if id >= self.users.len() {
            return Err(Error::NotFound);
        }

        let mut user = self.users[id].clone();
        user.activate = activate;
        user.update_at = now;
        let r = user.clone();
        self.users[id] = user;

        proof {
            let m2 = spec_update_active_user(m0, id, activate, now);
            assert(self.users@ =~= m2.users);
            assert(self@ == m2);
            lemma_update_active_user_wf(m0, id, activate, now);
        }
        Ok(r)
    }

    /// Update activate company
    /// @param CompanyId id
    /// @param bool activate
    /// @return company
    ///
    /// Owner-gated: any other caller is turned away with `Unauthorized`
    /// before the store is consulted.
    pub fn update_active_company(
        &mut self,
        id: CompanyId,
        activate: bool,
        caller: &String,
        now: u64,
    ) -> (r: Result<Company, Error>)
        requires
            old(self).wf(),
            old(self)@.clock_le(now),
        ensures
            final(self).wf(),
            final(self)@.clock_le(now),
            caller@ != old(self)@.owner_id ==> r == Err::<Company, Error>(Error::Unauthorized)
                && final(self)@ == old(self)@,
            caller@ == old(self)@.owner_id && id >= old(self)@.companies.len() ==> r == Err::<
                Company,
                Error,
            >(Error::NotFound) && final(self)@ == old(self)@,
            caller@ == old(self)@.owner_id && id < old(self)@.companies.len() ==> final(self)@
                == spec_update_active_company(old(self)@, id, activate, now) && r == Ok::<
                Company,
                Error,
            >(final(self)@.companies[id as int]),
    {
        let ghost m0 = self@;
        if !self.only_contract_owner(caller) {
            return Err(Error::Unauthorized);
        }
        if id >= self.companies.len() {
            return Err(Error::NotFound);
        }

        let mut company = self.companies[id].clone();
        company.activate = activate;
        company.update_at = now;
        let r = company.clone();
        self.companies[id] = company;

        proof {
            let m2 = spec_update_active_company(m0, id, activate, now);
            assert(self.companies@ =~= m2.companies);
            assert(self@ == m2);
            lemma_update_active_company_wf(m0, id, activate, now);
        }
        Ok(r)
    }

    /// Get feedbacks paging
    /// @param usize page
    /// @param usize size
    /// @return feedbacks
    ///
    /// The unfiltered listing: every entry, active or not, in listing
    /// order (newest creation first, ties by ascending identifier), cut to
    /// the requested page.
    pub fn get_feedbacks(&mut self, page: usize, size: usize) -> (r: Vec<Feedback>)
        requires
            old(self).wf(),
        ensures
            *final(self) == *old(self),
            r@ == page_of(sort_desc(old(self)@.feedbacks), page as int, size as int),
            r@.len() <= size,
    {
        let feedbacks = self.feedbacks.clone();
        proof {
            assert(feedbacks@ =~= self.feedbacks@);
        }
        let sorted = sort_ranked(feedbacks);
        page_slice(sorted, page, size)
    }

    /// Get activate feedbacks by user_id paging
    /// @param UserId user_id
    /// @param usize page
    /// @param usize size
    /// @return feedbacks
    pub fn get_feedbacks_by_user_id_paging(
        &self,
        user_id: UserId,
        page: usize,
        size: usize,
    ) -> (r: Vec<Feedback>)
        requires
            self.wf(),
        ensures
            r@ == page_of(
                sort_desc(self@.feedbacks.filter(user_sel(user_id))),
                page as int,
                size as int,
            ),
            r@.len() <= size,
    {
        let mut feedbacks: Vec<Feedback> = Vec::new();
        let n = self.feedbacks.len();
        let mut i: usize = 0;
        while i < n
            invariant
                n == self.feedbacks@.len(),
                i <= n,
                feedbacks@ == self.feedbacks@.take(i as int).filter(user_sel(user_id)),
            decreases n - i,
        {
            let f = &self.feedbacks[i];
            if f.user_id == user_id && f.activate {
                feedbacks.push(f.clone());
            }
            proof {
                assert(self.feedbacks@.take(i + 1 as int) =~= self.feedbacks@.take(
                    i as int,
                ).push(self.feedbacks@[i as int]));
                lemma_filter_push(
                    self.feedbacks@.take(i as int),
                    self.feedbacks@[i as int],
                    user_sel(user_id),
                );
            }
            i = i + 1;
        }
        proof {
            assert(self.feedbacks@.take(n as int) =~= self.feedbacks@);
        }
        let sorted = sort_ranked(feedbacks);
        page_slice(sorted, page, size)
    }

    /// Get activate feedbacks by parent_id paging
    /// @param FeedbackId parent_id
    /// @param usize page
    /// @param usize size
    /// @return feedbacks
    pub fn get_feedbacks_by_parent_id_paging(
        &self,
        parent_id: FeedbackId,
        page: usize,
        size: usize,
    ) -> (r: Vec<Feedback>)
        requires
            self.wf(),
        ensures
            r@ == page_of(
                sort_desc(self@.feedbacks.filter(parent_sel(parent_id))),
                page as int,
                size as int,
            ),
            r@.len() <= size,
    {
        let mut feedbacks: Vec<Feedback> = Vec::new();
        let n = self.feedbacks.len();
        let mut i: usize = 0;
        while i < n
            invariant
                n == self.feedbacks@.len(),
                i <= n,
                feedbacks@ == self.feedbacks@.take(i as int).filter(parent_sel(parent_id)),
            decreases n - i,
        {
            let f = &self.feedbacks[i];
            if f.parent_id == parent_id && f.activate {
                feedbacks.push(f.clone());
            }
            proof {
                assert(self.feedbacks@.take(i + 1 as int) =~= self.feedbacks@.take(
                    i as int,
                ).push(self.feedbacks@[i as int]));
                lemma_filter_push(
                    self.feedbacks@.take(i as int),
                    self.feedbacks@[i as int],
                    parent_sel(parent_id),
                );
            }
            i = i + 1;
        }
        proof {
            assert(self.feedbacks@.take(n as int) =~= self.feedbacks@);
        }
        let sorted = sort_ranked(feedbacks);
        page_slice(sorted, page, size)
    }

    /// Get activate feedbacks by company_id paging
    /// @param CompanyId company_id
    /// @param usize page
    /// @param usize size
    /// @return feedbacks
    pub fn get_feedbacks_by_company_id_paging(
        &self,
        company_id: CompanyId,
        page: usize,
        size: usize,
    ) -> (r: Vec<Feedback>)
        requires
            self.wf(),
        ensures
            r@ == page_of(
                sort_desc(self@.feedbacks.filter(company_sel(company_id))),
                page as int,
                size as int,
            ),
            r@.len() <= size,
    {
        let mut feedbacks: Vec<Feedback> = Vec::new();
        let n = self.feedbacks.len();
        let mut i: usize = 0;
        while i < n
            invariant
                n == self.feedbacks@.len(),
                i <= n,
                feedbacks@ == self.feedbacks@.take(i as int).filter(company_sel(company_id)),
            decreases n - i,
        {
            let f = &self.feedbacks[i];
            if f.company_id == company_id && f.activate {
                feedbacks.push(f.clone());
            }
            proof {
                assert(self.feedbacks@.take(i + 1 as int) =~= self.feedbacks@.take(
                    i as int,
                ).push(self.feedbacks@[i as int]));
                lemma_filter_push(
                    self.feedbacks@.take(i as int),
                    self.feedbacks@[i as int],
                    company_sel(company_id),
                );
            }
            i = i + 1;
        }
        proof {
            assert(self.feedbacks@.take(n as int) =~= self.feedbacks@);
        }
        let sorted = sort_ranked(feedbacks);
        page_slice(sorted, page, size)
    }

    /// Get activate companies paging
    /// @return companies
    ///
    /// Active companies in listing order: newest update first, ties by
    /// ascending identifier.
    pub fn get_companies_paging(&self, page: usize, size: usize) -> (r: Vec<Company>)
        requires
            self.wf(),
        ensures
            r@ == page_of(
                sort_desc(self@.companies.filter(active_sel())),
                page as int,
                size as int,
            ),
            r@.len() <= size,
    {
        let mut companies: Vec<Company> = Vec::new();
        let n = self.companies.len();
        let mut i: usize = 0;
        while i < n
            invariant
                n == self.companies@.len(),
                i <= n,
                companies@ == self.companies@.take(i as int).filter(active_sel()),
            decreases n - i,
        {
            let c = &self.companies[i];
            if c.activate {
                companies.push(c.clone());
            }
            proof {
                assert(self.companies@.take(i + 1 as int) =~= self.companies@.take(
                    i as int,
                ).push(self.companies@[i as int]));
                lemma_filter_push(
                    self.companies@.take(i as int),
                    self.companies@[i as int],
                    active_sel(),
                );
            }
            i = i + 1;
        }
        proof {
            assert(self.companies@.take(n as int) =~= self.companies@);
        }
        let sorted = sort_ranked(companies);
        page_slice(sorted, page, size)
    }

    /// Get activate feedback by id
    /// @param FeedbackId id
    /// @return feedback
    pub fn get_feedback(&self, id: FeedbackId) -> (r: Result<Feedback, Error>)
        requires
            self.wf(),
        ensures
            id < self@.feedbacks.len() ==> r == Ok::<Feedback, Error>(self@.feedbacks[id as int]),
            id >= self@.feedbacks.len() ==> r == Err::<Feedback, Error>(Error::NotFound),
    {
        if id >= self.feedbacks.len() {
            return Err(Error::NotFound);
        }
        let feedback = self.feedbacks[id].clone();
        // The stored identifier must agree with the key before the entry
        // leaves the store.
        if feedback.id != id {
            return Err(Error::NotFound);
        }
        Ok(feedback)
    }

    /// Get activate company by id
    /// @param CompanyId id
    /// @return company
    pub fn get_company(&self, id: CompanyId) -> (r: Result<Company, Error>)
        requires
            self.wf(),
        ensures
            id < self@.companies.len() ==> r == Ok::<Company, Error>(self@.companies[id as int]),
            id >= self@.companies.len() ==> r == Err::<Company, Error>(Error::NotFound),
    {
        if id >= self.companies.len() {
            return Err(Error::NotFound);
        }
        let company = self.companies[id].clone();
        // The stored identifier must agree with the key before the entry
        // leaves the store.
        if company.id != id {
            return Err(Error::NotFound);
        }
        Ok(company)
    }
}

} // verus!
