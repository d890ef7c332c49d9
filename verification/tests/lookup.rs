use baste::request::rejection_status;
use baste::request::store_error_status;
use baste::request::Rejection;
use baste::store::begin_get;
use baste::store::finish_get;
use baste::store::ReadOutcome;
use baste::store::StoreError;

#[test]
fn a_lookup_of_a_safe_identifier_may_go_on() {
    assert_eq!(begin_get("gentle-otter-mint"), Ok(()));
}

#[test]
fn a_lookup_of_a_path_is_invalid() {
    assert_eq!(begin_get("../gentle-otter-mint"), Err(StoreError::Invalid));
    assert_eq!(begin_get("/etc/passwd"), Err(StoreError::Invalid));
    assert_eq!(begin_get(".."), Err(StoreError::Invalid));
    assert_eq!(begin_get(""), Err(StoreError::Invalid));
}

#[test]
fn what_was_found_is_handed_over_whole() {
    assert_eq!(finish_get(ReadOutcome::Found(vec![1, 2, 3])), Ok(vec![1, 2, 3]));
    assert_eq!(finish_get(ReadOutcome::Found(vec![])), Ok(vec![]));
    assert_eq!(finish_get(ReadOutcome::Found(vec![13, 10, 0, 255])), Ok(vec![13, 10, 0, 255]));
}

#[test]
fn a_missing_entry_is_not_found() {
    assert_eq!(finish_get(ReadOutcome::Missing), Err(StoreError::NotFound));
}

#[test]
fn a_failed_read_is_a_storage_error() {
    assert_eq!(finish_get(ReadOutcome::Failed), Err(StoreError::Storage));
}

#[test]
fn each_store_error_has_its_status() {
    assert_eq!(store_error_status(StoreError::NotFound), 404);
    assert_eq!(store_error_status(StoreError::Invalid), 400);
    assert_eq!(store_error_status(StoreError::Storage), 500);
    assert_eq!(store_error_status(StoreError::Exhausted), 500);
}

#[test]
fn every_rejection_is_a_bad_request() {
    assert_eq!(rejection_status(Rejection::MissingToken), 400);
    assert_eq!(rejection_status(Rejection::WrongToken), 400);
    assert_eq!(rejection_status(Rejection::NoPayload), 400);
    assert_eq!(rejection_status(Rejection::EmptyPayload), 400);
}
