use word_lists::errors::AppError;
use word_lists::model::WordList;

fn list_with(words: &[&str]) -> WordList {
    WordList {
        id: None,
        name: String::from("sample"),
        words: words.iter().map(|w| String::from(*w)).collect(),
    }
}

fn sorted(words: &[String]) -> Vec<String> {
    let mut copy: Vec<String> = words.to_vec();
    copy.sort();
    copy
}

#[test]
fn add_word_appends_absent_word() {
    let mut list = list_with(&["red", "blue"]);
    assert_eq!(list.add_word(String::from("green")), Ok(()));
    assert_eq!(list.words, vec!["red", "blue", "green"]);
}

#[test]
fn add_word_twice_fails_and_keeps_one_occurrence() {
    let mut list = list_with(&["red"]);
    assert_eq!(list.add_word(String::from("blue")), Ok(()));
    assert_eq!(
        list.add_word(String::from("blue")),
        Err(AppError::WordAlreadyExists)
    );
    let occurrences = list.words.iter().filter(|w| *w == "blue").count();
    assert_eq!(occurrences, 1);
    assert_eq!(list.words, vec!["red", "blue"]);
}

#[test]
fn add_existing_word_leaves_list_unchanged() {
    let mut list = list_with(&["red", "blue"]);
    assert_eq!(
        list.add_word(String::from("red")),
        Err(AppError::WordAlreadyExists)
    );
    assert_eq!(list.words, vec!["red", "blue"]);
}

#[test]
fn remove_word_twice_fails_the_second_time() {
    let mut list = list_with(&["red", "blue", "green"]);
    assert_eq!(list.remove_word(String::from("blue")), Ok(()));
    assert_eq!(
        list.remove_word(String::from("blue")),
        Err(AppError::WordNotFound)
    );
}

#[test]
fn remove_absent_word_fails_and_keeps_words() {
    let mut list = list_with(&["red", "blue"]);
    assert_eq!(
        list.remove_word(String::from("purple")),
        Err(AppError::WordNotFound)
    );
    assert_eq!(list.words, vec!["red", "blue"]);
}

#[test]
fn remove_word_fills_the_gap_with_the_last_word() {
    let mut list = list_with(&["red", "blue", "green", "yellow"]);
    assert_eq!(list.remove_word(String::from("blue")), Ok(()));
    assert_eq!(list.words, vec!["red", "yellow", "green"]);
}

#[test]
fn add_then_remove_restores_the_word_set() {
    let mut list = list_with(&["red", "blue"]);
    let before = sorted(&list.words);
    assert_eq!(list.add_word(String::from("green")), Ok(()));
    assert_eq!(list.remove_word(String::from("green")), Ok(()));
    assert_eq!(sorted(&list.words), before);
}

#[test]
fn remove_from_empty_list_fails() {
    let mut list = list_with(&[]);
    assert_eq!(
        list.remove_word(String::from("red")),
        Err(AppError::WordNotFound)
    );
    assert!(list.words.is_empty());
}

#[test]
fn error_status_codes_follow_the_http_mapping() {
    assert_eq!(AppError::StoreError.status_code(), 500);
    assert_eq!(AppError::NotFound.status_code(), 404);
    assert_eq!(AppError::WordAlreadyExists.status_code(), 400);
    assert_eq!(AppError::WordNotFound.status_code(), 400);
}

#[test]
fn error_messages_name_each_failure() {
    assert_eq!(AppError::StoreError.message(), "Database error");
    assert_eq!(AppError::NotFound.message(), "Not found");
    assert_eq!(AppError::WordAlreadyExists.message(), "Word already exists");
    assert_eq!(AppError::WordNotFound.message(), "Word not found in list");
}
