use baste::request::paste;
use baste::request::wants_chunks;
use baste::request::Part;
use baste::request::PasteManager;
use baste::request::Rejection;
use baste::request::MULTIPART_FIELD_NAME;
use baste::request::SECRET_TOKEN_HEADER;

fn manager() -> PasteManager {
    PasteManager { secret_token: "correct-horse".to_string(), storage_path: "./pastes".to_string() }
}

fn part(name: &str, chunks: Vec<Vec<u8>>) -> Part {
    Part { name: name.to_string(), chunks }
}

const TOKEN: &[u8] = "correct-horse".as_bytes();

#[test]
fn the_names_of_header_and_field() {
    assert_eq!(SECRET_TOKEN_HEADER, "X-Secret-Token");
    assert_eq!(MULTIPART_FIELD_NAME, "baste_file");
}

#[test]
fn the_secret_token_opens_the_store() {
    assert_eq!(manager().authorize(Some(TOKEN)), Ok(()));
}

#[test]
fn a_request_without_token_is_turned_down() {
    assert_eq!(manager().authorize(None), Err(Rejection::MissingToken));
}

#[test]
fn another_token_is_turned_down() {
    assert_eq!(manager().authorize(Some("correct-horsf".as_bytes())), Err(Rejection::WrongToken));
    assert_eq!(manager().authorize(Some("correct-hors".as_bytes())), Err(Rejection::WrongToken));
    assert_eq!(manager().authorize(Some("correct-horse ".as_bytes())), Err(Rejection::WrongToken));
    assert_eq!(manager().authorize(Some("".as_bytes())), Err(Rejection::WrongToken));
    assert_eq!(manager().authorize(Some(&[0xff, 0xfe][..])), Err(Rejection::WrongToken));
}

#[test]
fn a_token_is_compared_by_its_bytes() {
    let m = PasteManager { secret_token: "zażółć".to_string(), storage_path: String::new() };
    assert_eq!(m.authorize(Some("zażółć".as_bytes())), Ok(()));
    assert_eq!(m.authorize(Some("zazolc".as_bytes())), Err(Rejection::WrongToken));
}

#[test]
fn a_paste_of_one_chunk_is_stored_whole() {
    let parts = vec![part("baste_file", vec![vec![1, 2, 3]])];
    assert_eq!(paste(&manager(), Some(TOKEN), &parts), Ok(vec![1, 2, 3]));
}

#[test]
fn a_paste_of_many_chunks_is_stored_whole_and_in_order() {
    let parts = vec![part("baste_file", vec![vec![1, 2, 3], vec![4, 5]])];
    assert_eq!(paste(&manager(), Some(TOKEN), &parts), Ok(vec![1, 2, 3, 4, 5]));
    let parts = vec![part("baste_file", vec![vec![9], vec![], vec![8, 7], vec![6]])];
    assert_eq!(paste(&manager(), Some(TOKEN), &parts), Ok(vec![9, 8, 7, 6]));
}

#[test]
fn a_large_paste_in_chunks_is_stored_whole() {
    let whole: Vec<u8> = (0..100_000u32).map(|i| (i % 253) as u8).collect();
    let chunks: Vec<Vec<u8>> = whole.chunks(4096).map(|c| c.to_vec()).collect();
    assert!(chunks.len() > 20);
    let parts = vec![part("baste_file", chunks)];
    assert_eq!(paste(&manager(), Some(TOKEN), &parts), Ok(whole));
}

#[test]
fn parts_with_other_names_are_passed_over() {
    let parts = vec![
        part("comment", vec![vec![9, 9]]),
        part("Baste_file", vec![vec![8]]),
        part("baste_file", vec![vec![7], vec![7, 7]]),
        part("baste_file", vec![vec![6]]),
    ];
    assert_eq!(paste(&manager(), Some(TOKEN), &parts), Ok(vec![7, 7, 7]));
}

#[test]
fn a_paste_field_without_a_chunk_is_passed_over() {
    let parts = vec![part("baste_file", vec![]), part("baste_file", vec![vec![5, 5]])];
    assert_eq!(paste(&manager(), Some(TOKEN), &parts), Ok(vec![5, 5]));
}

#[test]
fn a_form_without_a_paste_is_turned_down() {
    let none: Vec<Part> = vec![];
    assert_eq!(paste(&manager(), Some(TOKEN), &none), Err(Rejection::NoPayload));
    let others = vec![part("comment", vec![vec![1]]), part("baste_file", vec![])];
    assert_eq!(paste(&manager(), Some(TOKEN), &others), Err(Rejection::NoPayload));
}

#[test]
fn an_empty_paste_is_turned_down() {
    let parts = vec![part("baste_file", vec![vec![]]), part("baste_file", vec![vec![2]])];
    assert_eq!(paste(&manager(), Some(TOKEN), &parts), Err(Rejection::EmptyPayload));
    let parts = vec![part("baste_file", vec![vec![], vec![], vec![]])];
    assert_eq!(paste(&manager(), Some(TOKEN), &parts), Err(Rejection::EmptyPayload));
}

#[test]
fn an_empty_first_chunk_does_not_make_the_paste_empty() {
    let parts = vec![part("baste_file", vec![vec![], vec![1]])];
    assert_eq!(paste(&manager(), Some(TOKEN), &parts), Ok(vec![1]));
}

#[test]
fn only_the_paste_field_wants_its_chunks() {
    assert!(wants_chunks("baste_file"));
    assert!(!wants_chunks("baste_fil"));
    assert!(!wants_chunks("baste_file "));
    assert!(!wants_chunks("Baste_file"));
    assert!(!wants_chunks(""));
    assert!(!wants_chunks("comment"));
}

#[test]
fn the_token_is_checked_before_the_form() {
    let parts = vec![part("baste_file", vec![vec![1, 2, 3]])];
    assert_eq!(paste(&manager(), None, &parts), Err(Rejection::MissingToken));
    assert_eq!(paste(&manager(), Some("nope".as_bytes()), &parts), Err(Rejection::WrongToken));
    let none: Vec<Part> = vec![];
    assert_eq!(paste(&manager(), None, &none), Err(Rejection::MissingToken));
}
