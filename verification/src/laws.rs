use vstd::prelude::*;

use crate::board::BoardModel;
use crate::board::spec_create_company;
use crate::board::spec_create_feedback;
use crate::board::spec_create_user;
use crate::board::spec_update_feedback;
use crate::entities::Company;
use crate::entities::CompanyId;
use crate::entities::Feedback;
use crate::entities::FeedbackId;
use crate::entities::StorageKey;
use crate::entities::User;
use crate::entities::UserId;
use crate::entities::created_company;
use crate::entities::created_feedback;
use crate::entities::created_user;
use crate::order::sort_desc;
use crate::order::lemma_sort_desc_ensures;
use crate::paging::pages_concat;
use crate::paging::lemma_pages_cover;

verus! {

/// How many entities of `kind` the state holds — also the next identifier
/// that a creation of that kind receives.
pub open spec fn kind_count(m: BoardModel, kind: StorageKey) -> nat {
    match kind {
        StorageKey::Feedbacks => m.feedbacks.len(),
        StorageKey::Users => m.users.len(),
        StorageKey::Companies => m.companies.len(),
    }
}

/// The identifier stored at position `i` of the store of `kind`.
pub open spec fn kind_id(m: BoardModel, kind: StorageKey, i: int) -> usize {
    match kind {
        StorageKey::Feedbacks => m.feedbacks[i].id,
        StorageKey::Users => m.users[i].id,
        StorageKey::Companies => m.companies[i].id,
    }
}

/// Law: for every entity kind, the stored identifiers are exactly
/// `0 .. kind_count`, in store order — starting at 0, strictly increasing,
/// none repeated.
pub proof fn lemma_ids_dense(m: BoardModel, kind: StorageKey)
    requires
        m.wf(),
    ensures
        forall|i: int| 0 <= i < kind_count(m, kind) ==> #[trigger] kind_id(m, kind, i) == i,
        forall|i: int, j: int|
            0 <= i < j < kind_count(m, kind) ==> kind_id(m, kind, i) < kind_id(m, kind, j),
{
    assert forall|i: int| 0 <= i < kind_count(m, kind) implies #[trigger] kind_id(m, kind, i)
        == i by {
        match kind {
            StorageKey::Feedbacks => assert(m.feedbacks[i].id == i),
            StorageKey::Users => assert(m.users[i].id == i),
            StorageKey::Companies => assert(m.companies[i].id == i),
        }
    }
}

/// Law: consecutive feedback creations receive strictly increasing, fresh
/// identifiers: the first gets the current count — larger than every
/// stored identifier, so never one already given out — and the second
/// gets its successor.
pub proof fn lemma_feedback_ids_increasing(
    m: BoardModel,
    f1: Feedback,
    f2: Feedback,
    now1: u64,
    now2: u64,
)
    requires
        m.wf(),
        m.feedbacks.len() + 1 < usize::MAX,
    ensures
        ({
            let m1 = spec_create_feedback(m, f1, now1);
            let r1 = created_feedback(f1, m.feedbacks.len() as FeedbackId, now1);
            let r2 = created_feedback(f2, m1.feedbacks.len() as FeedbackId, now2);
            &&& r1.id == m.feedbacks.len()
            &&& forall|i: int|
                0 <= i < m.feedbacks.len() ==> (#[trigger] m.feedbacks[i]).id < r1.id
            &&& r2.id == r1.id + 1
        }),
{
    let m1 = spec_create_feedback(m, f1, now1);
    assert(m1.feedbacks.len() == m.feedbacks.len() + 1);
}

/// Law: consecutive user creations receive strictly increasing, fresh
/// identifiers, as [`lemma_feedback_ids_increasing`] states for feedback.
pub proof fn lemma_user_ids_increasing(m: BoardModel, u1: User, u2: User, now1: u64, now2: u64)
    requires
        m.wf(),
        m.users.len() + 1 < usize::MAX,
    ensures
        ({
            let m1 = spec_create_user(m, u1, now1);
            let r1 = created_user(u1, m.users.len() as UserId, now1);
            let r2 = created_user(u2, m1.users.len() as UserId, now2);
            &&& r1.id == m.users.len()
            &&& forall|i: int| 0 <= i < m.users.len() ==> (#[trigger] m.users[i]).id < r1.id
            &&& r2.id == r1.id + 1
        }),
{
    let m1 = spec_create_user(m, u1, now1);
    assert(m1.users.len() == m.users.len() + 1);
}

/// Law: consecutive company creations receive strictly increasing, fresh
/// identifiers, as [`lemma_feedback_ids_increasing`] states for feedback.
pub proof fn lemma_company_ids_increasing(
    m: BoardModel,
    c1: Company,
    c2: Company,
    now1: u64,
    now2: u64,
)
    requires
        m.wf(),
        m.companies.len() + 1 < usize::MAX,
    ensures
        ({
            let m1 = spec_create_company(m, c1, now1);
            let r1 = created_company(c1, m.companies.len() as CompanyId, now1);
            let r2 = created_company(c2, m1.companies.len() as CompanyId, now2);
            &&& r1.id == m.companies.len()
            &&& forall|i: int|
                0 <= i < m.companies.len() ==> (#[trigger] m.companies[i]).id < r1.id
            &&& r2.id == r1.id + 1
        }),
{
    let m1 = spec_create_company(m, c1, now1);
    assert(m1.companies.len() == m.companies.len() + 1);
}

/// Law: creating a feedback whose `parent_id` names an existing entry
/// bumps exactly the tally its reaction code selects — up for 0, down for
/// 1, report for 2 — by one and leaves the other two tallies unchanged;
/// any other code leaves the parent as it was.
pub proof fn lemma_reaction_tally(m: BoardModel, f: Feedback, now: u64)
    requires
        m.wf(),
        m.feedbacks.len() < usize::MAX,
        m.reaction_fits(f),
        f.parent_id < m.feedbacks.len(),
    ensures
        ({
            let before = m.feedbacks[f.parent_id as int];
            let after = spec_create_feedback(m, f, now).feedbacks[f.parent_id as int];
            &&& f.reaction == 0 ==> after.up_vote == before.up_vote + 1 && after.down_vote
                == before.down_vote && after.report_vote == before.report_vote
            &&& f.reaction == 1 ==> after.down_vote == before.down_vote + 1 && after.up_vote
                == before.up_vote && after.report_vote == before.report_vote
            &&& f.reaction == 2 ==> after.report_vote == before.report_vote + 1 && after.up_vote
                == before.up_vote && after.down_vote == before.down_vote
            &&& f.reaction > 2 ==> after == before
        }),
{
    let nf = created_feedback(f, m.feedbacks.len() as FeedbackId, now);
    let pushed = m.feedbacks.push(nf);
    assert(pushed[f.parent_id as int] == m.feedbacks[f.parent_id as int]);
}

/// Law: creating a feedback that targets an existing company adds its
/// rating to that company's accumulator and grows the rating count by
/// exactly one; every other company stays as it was.
pub proof fn lemma_company_rating(m: BoardModel, f: Feedback, now: u64)
    requires
        m.wf(),
        m.feedbacks.len() < usize::MAX,
        m.rating_fits(f),
        f.company_id < m.companies.len(),
    ensures
        ({
            let before = m.companies[f.company_id as int];
            let after = spec_create_feedback(m, f, now).companies[f.company_id as int];
            &&& after.rating == before.rating + f.rating
            &&& after.rating_count == before.rating_count + 1
        }),
        forall|i: int|
            0 <= i < m.companies.len() && i != f.company_id ==> spec_create_feedback(
                m,
                f,
                now,
            ).companies[i] == #[trigger] m.companies[i],
{
}

/// Law: updating a feedback's rating from `r1` to `r2`, the company
/// unchanged, moves that company's accumulator by exactly `r2 - r1` and
/// leaves its rating count unchanged.
pub proof fn lemma_rating_delta(m: BoardModel, id: FeedbackId, f: Feedback, now: u64)
    requires
        m.wf(),
        m.rating_delta_fits(id, f),
        id < m.feedbacks.len(),
        f.company_id < m.companies.len(),
    ensures
        ({
            let before = m.companies[f.company_id as int];
            let after = spec_update_feedback(m, id, f, now).companies[f.company_id as int];
            let r1 = m.feedbacks[id as int].rating;
            let r2 = f.rating;
            &&& after.rating - before.rating == r2 - r1
            &&& after.rating_count == before.rating_count
        }),
{
}

/// Law: paging the feedback listing loses and repeats nothing — once
/// `k * size` reaches the number of entries, the pages `0 .. k` of the
/// listing-sorted store, concatenated, are the whole sorted listing.
pub proof fn lemma_feedback_pages_cover(m: BoardModel, size: int, k: int)
    requires
        size >= 1,
        k >= 0,
        k * size >= m.feedbacks.len(),
    ensures
        pages_concat(sort_desc(m.feedbacks), size, k) == sort_desc(m.feedbacks),
{
    lemma_sort_desc_ensures(m.feedbacks);
    lemma_pages_cover(sort_desc(m.feedbacks), size, k);
}

} // verus!
