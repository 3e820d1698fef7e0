use feedback_board::Company;
use feedback_board::Contract;
use feedback_board::Error;
use feedback_board::Feedback;
use feedback_board::User;

const OWNER_ADDRESS: &str = "carol_near";

fn board() -> Contract {
    Contract::new(OWNER_ADDRESS.to_string()).unwrap()
}

fn board_owner() -> String {
    OWNER_ADDRESS.to_string()
}

// A feedback payload whose parent reference dangles, so no tally moves.
fn top_level_feedback() -> Feedback {
    let mut feedback = Feedback::mock();
    feedback.parent_id = 999;
    feedback
}

#[test]
fn test_new_rejects_malformed_owner() {
    assert_eq!(
        Contract::new("x".to_string()).unwrap_err(),
        Error::InvalidAccount
    );
    assert_eq!(
        Contract::new("a..b".to_string()).unwrap_err(),
        Error::InvalidAccount
    );
    assert_eq!(
        Contract::new("-carol".to_string()).unwrap_err(),
        Error::InvalidAccount
    );
    assert_eq!(
        Contract::new("carol_".to_string()).unwrap_err(),
        Error::InvalidAccount
    );
    assert_eq!(
        Contract::new("Carol".to_string()).unwrap_err(),
        Error::InvalidAccount
    );
    assert!(Contract::new("carol_near".to_string()).is_ok());
    assert!(Contract::new("a0.b-c_d".to_string()).is_ok());
}

#[test]
fn test_ids_strictly_increasing_from_zero() {
    let mut contract = board();
    for expected in 0..3usize {
        let feedback = contract.create_feedback(top_level_feedback(), 0);
        assert_eq!(feedback.id, expected);
        let user = contract.create_user(User::mock(), 0);
        assert_eq!(user.id, expected);
        let company = contract.create_company(Company::mock(), 0);
        assert_eq!(company.id, expected);
    }
}

#[test]
fn test_reaction_tallies_by_variant() {
    let mut contract = board();
    let parent = contract.create_feedback(top_level_feedback(), 0);

    for (reaction, expected) in [(0, (1, 0, 0)), (1, (1, 1, 0)), (2, (1, 1, 1)), (7, (1, 1, 1))] {
        let mut child = top_level_feedback();
        child.parent_id = parent.id;
        child.reaction = reaction;
        contract.create_feedback(child, 0);

        let stored = contract.get_feedback(parent.id).unwrap();
        assert_eq!(
            (stored.up_vote, stored.down_vote, stored.report_vote),
            expected
        );
    }
}

// A created company starts with zeroed rating aggregates, whatever the
// payload carried.
#[test]
fn test_create_company_zeroes_rating() {
    let mut contract = board();
    let mut payload = Company::mock();
    payload.rating = 5;
    payload.rating_count = 7;

    let created = contract.create_company(payload, 0);
    assert_eq!((created.rating, created.rating_count), (0, 0));
    let stored = contract.get_company(created.id).unwrap();
    assert_eq!((stored.rating, stored.rating_count), (0, 0));
}

#[test]
fn test_company_rating_accumulates() {
    let mut contract = board();
    let company = contract.create_company(Company::mock(), 0);

    let mut feedback = top_level_feedback();
    feedback.company_id = company.id;
    feedback.rating = 4;
    contract.create_feedback(feedback.clone(), 0);
    feedback.rating = 2;
    contract.create_feedback(feedback, 0);

    let stored = contract.get_company(company.id).unwrap();
    assert_eq!(stored.rating, 6);
    assert_eq!(stored.rating_count, 2);
}

// Scenario: a company accumulates a rating, a reaction tallies on its
// review, and a rating update moves the accumulator by the difference.
#[test]
fn test_scenario_rating_flow() {
    let mut contract = board();

    let company = contract.create_company(Company::mock(), 0);
    let stored = contract.get_company(company.id).unwrap();
    assert_eq!((stored.rating, stored.rating_count), (0, 0));

    let mut payload = top_level_feedback();
    payload.company_id = company.id;
    payload.rating = 4;
    let first = contract.create_feedback(payload.clone(), 0);

    let stored = contract.get_company(company.id).unwrap();
    assert_eq!((stored.rating, stored.rating_count), (4, 1));

    let mut reaction_payload = top_level_feedback();
    reaction_payload.parent_id = first.id;
    reaction_payload.company_id = 999;
    reaction_payload.reaction = 0;
    contract.create_feedback(reaction_payload, 0);

    assert_eq!(contract.get_feedback(first.id).unwrap().up_vote, 1);

    payload.rating = 1;
    contract.update_feedback(first.id, payload, 0).unwrap();

    let stored = contract.get_company(company.id).unwrap();
    assert_eq!((stored.rating, stored.rating_count), (1, 1));
}

// Scenario: the company-filtered listing returns exactly the active
// entries that target the company.
#[test]
fn test_scenario_company_listing_active_only() {
    let mut contract = board();
    let company = contract.create_company(Company::mock(), 0);

    let mut payload = top_level_feedback();
    payload.company_id = company.id;

    let first = contract.create_feedback(payload.clone(), 0);
    let second = contract.create_feedback(payload.clone(), 0);
    let third = contract.create_feedback(payload, 0);
    contract
        .update_active_feedback(first.id, true, &board_owner(), 0)
        .unwrap();
    contract
        .update_active_feedback(third.id, true, &board_owner(), 0)
        .unwrap();

    let listed = contract.get_feedbacks_by_company_id_paging(company.id, 0, 10);
    assert_eq!(listed.len(), 2);
    let ids: Vec<usize> = listed.iter().map(|f| f.id).collect();
    assert!(ids.contains(&first.id));
    assert!(ids.contains(&third.id));
    assert!(!ids.contains(&second.id));
}

#[test]
fn test_unauthorized_activation() {
    let mut contract = board();
    let feedback = contract.create_feedback(top_level_feedback(), 0);
    let user = contract.create_user(User::mock(), 0);
    let company = contract.create_company(Company::mock(), 0);

    let mallory = "mallory_near".to_string();
    assert_eq!(
        contract
            .update_active_feedback(feedback.id, true, &mallory, 0)
            .unwrap_err(),
        Error::Unauthorized
    );
    assert_eq!(
        contract
            .update_active_user(user.id, true, &mallory, 0)
            .unwrap_err(),
        Error::Unauthorized
    );
    assert_eq!(
        contract
            .update_active_company(company.id, true, &mallory, 0)
            .unwrap_err(),
        Error::Unauthorized
    );

    // Nothing changed, and the owner still can.
    assert_eq!(contract.get_feedback(feedback.id).unwrap().activate, false);
    let updated = contract
        .update_active_feedback(feedback.id, true, &board_owner(), 0)
        .unwrap();
    assert_eq!(updated.activate, true);
}

#[test]
fn test_not_found_on_unallocated_ids() {
    let mut contract = board();
    assert_eq!(contract.get_feedback(0).unwrap_err(), Error::NotFound);
    assert_eq!(contract.get_company(0).unwrap_err(), Error::NotFound);
    assert_eq!(
        contract
            .update_active_feedback(0, true, &board_owner(), 0)
            .unwrap_err(),
        Error::NotFound
    );
    assert_eq!(
        contract
            .update_active_user(0, true, &board_owner(), 0)
            .unwrap_err(),
        Error::NotFound
    );
    assert_eq!(
        contract
            .update_active_company(0, true, &board_owner(), 0)
            .unwrap_err(),
        Error::NotFound
    );
}

#[test]
fn test_paging_concatenation_reproduces_listing() {
    let mut contract = board();
    for now in 1..=5u64 {
        contract.create_feedback(top_level_feedback(), now);
    }

    let whole = contract.get_feedbacks(0, 10);
    assert_eq!(whole.len(), 5);

    // Newest creation first; ties cannot arise here.
    for window in whole.windows(2) {
        assert!(window[0].create_at >= window[1].create_at);
    }

    let mut rebuilt: Vec<Feedback> = Vec::new();
    for page in 0..4usize {
        let chunk = contract.get_feedbacks(page, 2);
        assert!(chunk.len() <= 2);
        rebuilt.extend(chunk);
    }

    assert_eq!(rebuilt.len(), whole.len());
    for (a, b) in rebuilt.iter().zip(whole.iter()) {
        assert_eq!(a.id, b.id);
    }
}

#[test]
fn test_listing_order_and_tie_break() {
    let mut contract = board();
    contract.create_feedback(top_level_feedback(), 5);
    contract.create_feedback(top_level_feedback(), 3);
    contract.create_feedback(top_level_feedback(), 5);
    contract.create_feedback(top_level_feedback(), 9);

    let listed = contract.get_feedbacks(0, 10);
    let ids: Vec<usize> = listed.iter().map(|f| f.id).collect();
    // Descending creation time; the two entries created at 5 keep
    // ascending identifier order.
    assert_eq!(ids, vec![3, 0, 2, 1]);
}

#[test]
fn test_paging_edges() {
    let mut contract = board();
    for _ in 0..3 {
        contract.create_feedback(top_level_feedback(), 0);
    }

    assert_eq!(contract.get_feedbacks(0, 0).len(), 0);
    assert_eq!(contract.get_feedbacks(5, 2).len(), 0);
    assert_eq!(contract.get_feedbacks(usize::MAX, 2).len(), 0);
    assert_eq!(contract.get_feedbacks(1, 2).len(), 1);
}

#[test]
fn test_company_listing_sorts_by_update_time() {
    let mut contract = board();
    let first = contract.create_company(Company::mock(), 1);
    let second = contract.create_company(Company::mock(), 2);
    contract
        .update_active_company(first.id, true, &board_owner(), 3)
        .unwrap();
    contract
        .update_active_company(second.id, true, &board_owner(), 3)
        .unwrap();
    // Bump the first company's update timestamp past the second's.
    contract
        .update_active_company(first.id, true, &board_owner(), 5)
        .unwrap();

    let listed = contract.get_companies_paging(0, 10);
    let ids: Vec<usize> = listed.iter().map(|c| c.id).collect();
    assert_eq!(ids, vec![first.id, second.id]);
}

// The very first feedback entry gets identifier 0; a payload whose
// parent reference is also 0 therefore tallies the entry itself in the
// store, while the returned record still carries zeroed counters.
#[test]
fn test_first_entry_self_reference() {
    let mut contract = board();
    let payload = Feedback::mock();
    assert_eq!(payload.parent_id, 0);

    let returned = contract.create_feedback(payload, 0);
    assert_eq!(returned.id, 0);
    assert_eq!(returned.up_vote, 0);
    assert_eq!(contract.get_feedback(0).unwrap().up_vote, 1);
}

#[test]
fn test_timestamps_stamped_and_bumped() {
    let mut contract = board();
    let user = contract.create_user(User::mock(), 10);
    assert_eq!((user.create_at, user.update_at), (10, 10));

    let updated = contract.update_user(user.id, User::mock(), 20).unwrap();
    assert_eq!((updated.create_at, updated.update_at), (10, 20));
}

// Content updates never touch the activation flag: only the owner-gated
// operations flip it.
#[test]
fn test_updates_preserve_activation() {
    let mut contract = board();
    let user = contract.create_user(User::mock(), 0);
    assert_eq!(user.activate, false);

    // The mock payload arrives with `activate = true`; the stored flag
    // stays false.
    let updated = contract.update_user(user.id, User::mock(), 1).unwrap();
    assert_eq!(updated.activate, false);

    contract
        .update_active_user(user.id, true, &board_owner(), 2)
        .unwrap();
    let updated = contract.update_user(user.id, User::mock(), 3).unwrap();
    assert_eq!(updated.activate, true);
}

// Company updates store the payload's rating fields verbatim: the
// accumulator is caller-writable through update_company.
#[test]
fn test_update_company_overwrites_rating_fields() {
    let mut contract = board();
    let company = contract.create_company(Company::mock(), 0);

    let mut payload = top_level_feedback();
    payload.company_id = company.id;
    payload.rating = 4;
    contract.create_feedback(payload, 0);
    let stored = contract.get_company(company.id).unwrap();
    assert_eq!((stored.rating, stored.rating_count), (4, 1));

    contract
        .update_company(company.id, Company::mock(), 1)
        .unwrap();
    let stored = contract.get_company(company.id).unwrap();
    assert_eq!((stored.rating, stored.rating_count), (0, 0));
}
