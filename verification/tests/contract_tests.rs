use feedback_board::Company;
use feedback_board::Contract;
use feedback_board::Error;
use feedback_board::Feedback;
use feedback_board::User;

const PREDECESSOR_ACCOUNT_ADDRESS: &str = "carol_near";

fn setup() -> Contract {
    Contract::new(PREDECESSOR_ACCOUNT_ADDRESS.to_string()).unwrap()
}

fn owner() -> String {
    PREDECESSOR_ACCOUNT_ADDRESS.to_string()
}

#[test]
fn test_owner_contract() {
    let contract = setup();
    assert_eq!(contract.owner_id, PREDECESSOR_ACCOUNT_ADDRESS.to_string());
}

// Test fn create_feedback
#[test]
fn test_create_feedback() {
    let mut contract = setup();
    let feedback = Feedback::mock();
    let new_feedback = contract.create_feedback(feedback.clone(), 0);

    assert_eq!(
        new_feedback.content, feedback.content,
        "Feedback is not equal"
    );
}

// Test fn update_feedback
#[test]
fn test_update_feedback() {
    let mut contract = setup();

    let mock_feedback = Feedback::mock();
    let first_feedback = contract.create_feedback(mock_feedback.clone(), 0);
    assert_eq!(
        first_feedback.content, mock_feedback.content,
        "first_feedback is not equal"
    );

    let mut mock_feedback_2 = Feedback::mock();
    mock_feedback_2.content = "feedback2".to_string();

    let first_feedback_updated = contract
        .update_feedback(first_feedback.id, mock_feedback_2.clone(), 0)
        .unwrap();

    assert_eq!(
        first_feedback_updated.content, mock_feedback_2.content,
        "first_feedback_updated is not equal"
    );
}

#[test]
fn test_fail_update_feedback() {
    let mut contract = setup();

    let result = contract.update_feedback(99999, Feedback::mock().clone(), 0);
    assert_eq!(result.unwrap_err(), Error::NotFound);
}

// Test fn get_feedback
#[test]
fn test_get_feedback() {
    let mut contract = setup();

    let mock_feedback = Feedback::mock();
    let first_feedback = contract.create_feedback(mock_feedback.clone(), 0);
    assert_eq!(
        first_feedback.content, mock_feedback.content,
        "first_feedback is not equal"
    );

    let get_feedback = contract.get_feedback(first_feedback.id).unwrap();
    assert_eq!(
        get_feedback.content, mock_feedback.content,
        "get_feedback not found"
    );
}

// Test fn get_feedbacks
#[test]
fn test_get_feedbacks() {
    let mut contract = setup();

    let mock_feedback = Feedback::mock();
    let first_feedback = contract.create_feedback(mock_feedback.clone(), 0);
    assert_eq!(
        first_feedback.content, mock_feedback.content,
        "first_feedback is not equal"
    );

    let mock_feedback_2 = Feedback::mock();
    let second_feedback = contract.create_feedback(mock_feedback_2.clone(), 0);
    assert_eq!(
        second_feedback.content, mock_feedback_2.content,
        "second_feedback is not equal"
    );

    let get_feedbacks = contract.get_feedbacks(0, 10);
    assert_eq!(get_feedbacks.len(), 2, "get_feedbacks not found");
}

// Test fn update_active_feedback
#[test]
fn test_update_active_feedback() {
    let mut contract = setup();

    let mock_feedback = Feedback::mock();
    let first_feedback = contract.create_feedback(mock_feedback.clone(), 0);
    assert_eq!(
        first_feedback.activate, false,
        "feedback should be deactivate by default"
    );

    let updated_feedback = contract
        .update_active_feedback(first_feedback.id, true, &owner(), 0)
        .unwrap();
    assert_eq!(
        updated_feedback.activate, true,
        "feedback should be activate after update"
    );
}

// Test fn get_feedbacks_by_user_id_paging
#[test]
fn test_get_feedbacks_by_user_id_paging() {
    let mut contract = setup();

    let mut mock_feedback = Feedback::mock();

    let mock_user = User::mock();
    let first_user = contract.create_user(mock_user.clone(), 0);

    mock_feedback.user_id = first_user.id;

    let first_feedback = contract.create_feedback(mock_feedback.clone(), 0);
    contract
        .update_active_feedback(first_feedback.id, true, &owner(), 0)
        .unwrap();

    assert_eq!(
        first_feedback.user_id, first_user.id,
        "first_feedback user_id is not correct"
    );

    let get_feedbacks = contract.get_feedbacks_by_user_id_paging(first_user.id, 0, 10);

    assert_eq!(get_feedbacks.len(), 1, "get_feedbacks not found");

    contract.create_feedback(mock_feedback.clone(), 0);

    assert_eq!(
        get_feedbacks.len(),
        1,
        "get_feedbacks length is not correct"
    );

    for feedback in get_feedbacks {
        assert_eq!(
            feedback.user_id, first_user.id,
            "feedback user_id is not correct"
        );
    }
}

// Test fn get_feedbacks_by_parent_id_paging
#[test]
fn test_get_feedbacks_by_parent_id_paging() {
    let mut contract = setup();

    let mut mock_feedback = Feedback::mock();
    mock_feedback.parent_id = 999;

    let first_feedback = contract.create_feedback(mock_feedback.clone(), 0);
    contract
        .update_active_feedback(first_feedback.id, true, &owner(), 0)
        .unwrap();

    mock_feedback.parent_id = first_feedback.id;
    let second_feedback = contract.create_feedback(mock_feedback.clone(), 0);
    contract
        .update_active_feedback(second_feedback.id, true, &owner(), 0)
        .unwrap();

    let feedbacks = contract.get_feedbacks_by_parent_id_paging(first_feedback.id, 0, 10);

    assert_eq!(feedbacks.len(), 1, "feedbacks not found");
    assert_eq!(
        feedbacks[0].parent_id, first_feedback.id,
        "feedback id is not correct"
    );

    let third_feedback = contract.create_feedback(mock_feedback.clone(), 0);
    contract
        .update_active_feedback(third_feedback.id, true, &owner(), 0)
        .unwrap();
    let feedbacks = contract.get_feedbacks_by_parent_id_paging(first_feedback.id, 0, 10);

    assert_eq!(feedbacks.len(), 2, "feedbacks not found");
    assert_eq!(
        feedbacks[1].parent_id, first_feedback.id,
        "third_feedback parent_id is not correct"
    );

    for feedback in feedbacks {
        assert_eq!(
            feedback.parent_id, first_feedback.id,
            "feedback parent_id is not correct"
        );
    }
}

// Test fn get_feedbacks_by_company_id_paging
#[test]
fn test_get_feedbacks_by_company_id_paging() {
    let mut contract = setup();

    // Create company
    let mock_company = Company::mock();
    let first_company = contract.create_company(mock_company.clone(), 0);

    // Create feedback by company
    let mut mock_feedback = Feedback::mock();
    mock_feedback.company_id = first_company.id;
    let first_feedback = contract.create_feedback(mock_feedback.clone(), 0);
    contract
        .update_active_feedback(first_feedback.id, true, &owner(), 0)
        .unwrap();

    // Verify feedback by company id
    let feedbacks = contract.get_feedbacks_by_company_id_paging(first_company.id, 0, 10);
    assert_eq!(feedbacks.len(), 1, "feedbacks not found");
    assert_eq!(
        feedbacks[0].company_id, first_company.id,
        "feedback company_id is not correct"
    );

    // Create feedback by company
    let second_feedback = contract.create_feedback(mock_feedback.clone(), 0);
    contract
        .update_active_feedback(second_feedback.id, true, &owner(), 0)
        .unwrap();

    // Verify feedback by company id
    let feedbacks = contract.get_feedbacks_by_company_id_paging(first_company.id, 0, 10);
    assert_eq!(feedbacks.len(), 2, "feedbacks not found");
    assert_eq!(
        feedbacks[1].company_id, first_company.id,
        "feedback company_id is not correct"
    );
}

// Test fn create_user
#[test]
fn test_create_user() {
    let mut contract = setup();

    let mock_user = User::mock();
    let first_user = contract.create_user(mock_user.clone(), 0);
    assert_eq!(first_user.name, mock_user.name, "first_user is not equal");
}

// Test fn update_user
#[test]
fn test_update_user() {
    let mut contract = setup();

    let mock_user = User::mock();
    let first_user = contract.create_user(mock_user.clone(), 0);
    assert_eq!(first_user.name, mock_user.name, "first_user is not equal");

    let mut mock_user_2 = User::mock();
    mock_user_2.name = "user2".to_string();

    let first_user_updated = contract
        .update_user(first_user.id, mock_user_2.clone(), 0)
        .unwrap();
    assert_eq!(
        first_user_updated.name, mock_user_2.name,
        "first_user_updated is not equal"
    );
}

// Test fn update_user fail
#[test]
fn test_fail_update_user() {
    let mut contract = setup();

    let result = contract.update_user(99999, User::mock().clone(), 0);
    assert_eq!(result.unwrap_err(), Error::NotFound);
}

// Test fn update_active_user
#[test]
fn test_update_active_user() {
    let mut contract = setup();

    let mock_user = User::mock();
    let first_user = contract.create_user(mock_user.clone(), 0);
    assert_eq!(
        first_user.activate, false,
        "user should be deactivate by default"
    );

    let updated_user = contract
        .update_active_user(first_user.id, true, &owner(), 0)
        .unwrap();
    assert_eq!(
        updated_user.activate, true,
        "user should be activate after update"
    );
}

// Test fn create_company
#[test]
fn test_create_company() {
    let mut contract = setup();

    let mock_company = Company::mock();
    let first_company = contract.create_company(mock_company.clone(), 0);
    assert_eq!(
        first_company.name, mock_company.name,
        "first_company is not equal"
    );
}

// Test fn update_company
#[test]
fn test_update_company() {
    let mut contract = setup();

    let mock_company = Company::mock();
    let first_company = contract.create_company(mock_company.clone(), 0);
    assert_eq!(
        first_company.name, mock_company.name,
        "first_company is not equal"
    );

    let mut mock_company_2 = Company::mock();
    mock_company_2.name = "company2".to_string();

    let first_company_updated = contract
        .update_company(first_company.id, mock_company_2.clone(), 0)
        .unwrap();
    assert_eq!(
        first_company_updated.name, mock_company_2.name,
        "first_company_updated is not equal"
    );
}

// Test fn update_company fail
#[test]
fn test_fail_update_company() {
    let mut contract = setup();

    let result = contract.update_company(99999, Company::mock().clone(), 0);
    assert_eq!(result.unwrap_err(), Error::NotFound);
}

// Test fn update_active company
#[test]
fn test_update_active_company() {
    let mut contract = setup();

    let mock_company = Company::mock();
    let first_company = contract.create_company(mock_company.clone(), 0);
    assert_eq!(
        first_company.activate, false,
        "company should be deactivate by default"
    );

    let updated_company = contract
        .update_active_company(first_company.id, true, &owner(), 0)
        .unwrap();
    assert_eq!(
        updated_company.activate, true,
        "company should be activate after update"
    );
}
