use vstd::prelude::*;
use vstd::string::StringExecFns;

verus! {

/// Identifier of a feedback entry: its index in the feedback store.
pub type FeedbackId = usize;

/// Identifier of a user: its index in the user store.
pub type UserId = usize;

/// Identifier of a company: its index in the company store.
pub type CompanyId = usize;

/// A feedback entry.
///
/// A top-level entry reviews the company at `company_id`; a child entry
/// reacts to the entry at `parent_id` (reaction 0 = like, 1 = dislike,
/// 2 = report).  The three vote counters are derived state: they count the
/// children created with the matching reaction and are mutated only as a
/// side effect of those creations.
#[derive(Debug)]
pub struct Feedback {
    pub id: FeedbackId,
    pub parent_id: FeedbackId,
    pub user_id: UserId,
    pub company_id: CompanyId,
    pub content: String,
    pub reaction: usize,
    pub rating: usize,
    pub up_vote: usize,
    pub down_vote: usize,
    pub report_vote: usize,
    pub create_at: u64,
    pub update_at: u64,
    pub activate: bool,
}

/// A registered user.
#[derive(Debug)]
pub struct User {
    pub id: UserId,
    pub address: String,
    pub name: String,
    pub title: String,
    pub create_at: u64,
    pub update_at: u64,
    pub activate: bool,
}

/// A reviewed company.
///
/// `rating` is a rolling sum (not an average) of the ratings of the
/// top-level feedback entries created against the company, and
/// `rating_count` counts those creations; both are derived state.
#[derive(Debug)]
pub struct Company {
    pub id: CompanyId,
    pub name: String,
    pub rating: usize,
    pub rating_count: usize,
    pub company_type: String,
    pub size: String,
    pub address: String,
    pub create_at: u64,
    pub update_at: u64,
    pub activate: bool,
}

/// Names the three persistent stores; doubles as the entity-kind selector
/// where a statement ranges over all kinds.
#[derive(Clone, Copy, Debug, PartialEq, Eq, Structural)]
pub enum StorageKey {
    Feedbacks,
    Users,
    Companies,
}

impl Feedback {
    /// An entry is updated no earlier than it was created.
    pub open spec fn timestamps_wf(self) -> bool {
        self.create_at <= self.update_at
    }

    /// Both clock fields lie at or before the given instant.
    pub open spec fn stamped_by(self, now: u64) -> bool {
        self.create_at <= now && self.update_at <= now
    }

    /// Return mock feedback
    pub fn mock() -> (r: Feedback)
        ensures
            r.id == 0,
            r.parent_id == 0,
            r.user_id == 0,
            r.company_id == 0,
            r.content@ == "Mock feedback"@,
            r.reaction == 0,
            r.rating == 0,
            r.up_vote == 0,
            r.down_vote == 0,
            r.report_vote == 0,
            r.create_at == 0,
            r.update_at == 0,
            r.activate,
    {
        Feedback {
            id: 0,
            parent_id: 0,
            user_id: 0,
            company_id: 0,
            content: String::from_str("Mock feedback"),
            reaction: 0,
            rating: 0,
            up_vote: 0,
            down_vote: 0,
            report_vote: 0,
            create_at: 0,
            update_at: 0,
            activate: true,
        }
    }
}

impl Clone for Feedback {
    fn clone(&self) -> (r: Self)
        ensures
            r == *self,
    {
        Feedback {
            id: self.id,
            parent_id: self.parent_id,
            user_id: self.user_id,
            company_id: self.company_id,
            content: self.content.clone(),
            reaction: self.reaction,
            rating: self.rating,
            up_vote: self.up_vote,
            down_vote: self.down_vote,
            report_vote: self.report_vote,
            create_at: self.create_at,
            update_at: self.update_at,
            activate: self.activate,
        }
    }
}

impl User {
    /// An entry is updated no earlier than it was created.
    pub open spec fn timestamps_wf(self) -> bool {
        self.create_at <= self.update_at
    }

    /// Both clock fields lie at or before the given instant.
    pub open spec fn stamped_by(self, now: u64) -> bool {
        self.create_at <= now && self.update_at <= now
    }

    /// Return mock user
    pub fn mock() -> (r: Self)
        ensures
            r.id == 0,
            r.address@ == "mock_user"@,
            r.name@ == "Mock User"@,
            r.title@ == "Mock Title"@,
            r.create_at == 0,
            r.update_at == 0,
            r.activate,
    {
        Self {
            id: 0,
            address: String::from_str("mock_user"),
            name: String::from_str("Mock User"),
            title: String::from_str("Mock Title"),
            create_at: 0,
            update_at: 0,
            activate: true,
        }
    }
}

impl Clone for User {
    fn clone(&self) -> (r: Self)
        ensures
            r == *self,
    {
        User {
            id: self.id,
            address: self.address.clone(),
            name: self.name.clone(),
            title: self.title.clone(),
            create_at: self.create_at,
            update_at: self.update_at,
            activate: self.activate,
        }
    }
}

impl Company {
    /// An entry is updated no earlier than it was created.
    pub open spec fn timestamps_wf(self) -> bool {
        self.create_at <= self.update_at
    }

    /// Both clock fields lie at or before the given instant.
    pub open spec fn stamped_by(self, now: u64) -> bool {
        self.create_at <= now && self.update_at <= now
    }

    /// Return mock company
    pub fn mock() -> (r: Self)
        ensures
            r.id == 0,
            r.name@ == "Mock Company"@,
            r.rating == 0,
            r.rating_count == 0,
            r.company_type@ == "Mock Company Type"@,
            r.size@ == "Mock Company Size"@,
            r.address@ == "Mock Company Address"@,
            r.create_at == 0,
            r.update_at == 0,
            r.activate,
    {
        Self {
            id: 0,
            name: String::from_str("Mock Company"),
            rating: 0,
            rating_count: 0,
            company_type: String::from_str("Mock Company Type"),
            size: String::from_str("Mock Company Size"),
            address: String::from_str("Mock Company Address"),
            create_at: 0,
            update_at: 0,
            activate: true,
        }
    }
}

impl Clone for Company {
    fn clone(&self) -> (r: Self)
        ensures
            r == *self,
    {
        Company {
            id: self.id,
            name: self.name.clone(),
            rating: self.rating,
            rating_count: self.rating_count,
            company_type: self.company_type.clone(),
            size: self.size.clone(),
            address: self.address.clone(),
            create_at: self.create_at,
            update_at: self.update_at,
            activate: self.activate,
        }
    }
}

/// The record that creating a feedback at identifier `id` and instant `now`
/// persists: the caller's fields with the vote counters zeroed, both
/// timestamps stamped, and the activation flag cleared.
pub open spec fn created_feedback(f: Feedback, id: FeedbackId, now: u64) -> Feedback {
    Feedback {
        id: id,
        up_vote: 0,
        down_vote: 0,
        report_vote: 0,
        create_at: now,
        update_at: now,
        activate: false,
        ..f
    }
}

/// The record that creating a user at identifier `id` and instant `now`
/// persists.
pub open spec fn created_user(u: User, id: UserId, now: u64) -> User {
    User { id: id, create_at: now, update_at: now, activate: false, ..u }
}

/// The record that creating a company at identifier `id` and instant `now`
/// persists: the caller's fields with the rating aggregates zeroed, both
/// timestamps stamped, and the activation flag cleared.  The accumulator
/// and its count are derived state and start at zero; only feedback
/// creation moves them.
pub open spec fn created_company(c: Company, id: CompanyId, now: u64) -> Company {
    Company {
        id: id,
        rating: 0,
        rating_count: 0,
        create_at: now,
        update_at: now,
        activate: false,
        ..c
    }
}

/// A parent entry after a child with the given reaction code was created:
/// exactly one of the vote counters grows by one (0 = up, 1 = down,
/// 2 = report); any other code changes nothing.
pub open spec fn reacted(p: Feedback, reaction: usize) -> Feedback {
    if reaction == 0 {
        Feedback { up_vote: (p.up_vote + 1) as usize, ..p }
    } else if reaction == 1 {
        Feedback { down_vote: (p.down_vote + 1) as usize, ..p }
    } else if reaction == 2 {
        Feedback { report_vote: (p.report_vote + 1) as usize, ..p }
    } else {
        p
    }
}

/// A company after a top-level feedback with the given rating was created
/// against it: the rating accumulator grows by the rating, the count by one.
pub open spec fn rated(c: Company, rating: usize) -> Company {
    Company {
        rating: (c.rating + rating) as usize,
        rating_count: (c.rating_count + 1) as usize,
        ..c
    }
}

} // verus!
