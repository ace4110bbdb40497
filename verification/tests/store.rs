use word_lists::errors::AppError;
use word_lists::model::{AddWordToListRequest, CreateWordListRequest, WordList};
use word_lists::repository::Store;
use word_lists::service::{
    add_word_step, add_word_to_list, create_list, remove_word_from_list, remove_word_step,
};

fn colors_request() -> CreateWordListRequest {
    CreateWordListRequest {
        name: String::from("Colors"),
        words: vec![String::from("red"), String::from("blue")],
    }
}

fn sorted(words: &[String]) -> Vec<String> {
    let mut copy: Vec<String> = words.to_vec();
    copy.sort();
    copy
}

#[test]
fn created_list_shows_up_in_find_all_with_an_id() {
    let mut store = Store::new();
    let stored = create_list(&mut store, colors_request()).expect("create failed");
    assert!(stored.id.is_some());

    let lists = store.find_all();
    let matches: Vec<&WordList> = lists.iter().filter(|l| l.name == "Colors").collect();
    assert_eq!(matches.len(), 1);
    assert!(matches[0].id.is_some());
    assert_eq!(
        sorted(&matches[0].words),
        vec![String::from("blue"), String::from("red")]
    );
}

#[test]
fn each_created_list_gets_its_own_id() {
    let mut store = Store::new();
    let first = create_list(&mut store, colors_request()).expect("create failed");
    let second = create_list(&mut store, colors_request()).expect("create failed");
    assert_ne!(first.id, second.id);
    assert_eq!(store.find_all().len(), 2);
}

#[test]
fn adding_a_word_is_visible_on_the_next_fetch() {
    let mut store = Store::new();
    let stored = create_list(&mut store, colors_request()).expect("create failed");
    let id = stored.id.expect("stored list has no id");
    let request = AddWordToListRequest {
        word: String::from("green"),
    };

    assert_eq!(add_word_to_list(&mut store, &id, request.word), Ok(()));

    let fetched = store.find_one(&id).expect("list disappeared");
    assert_eq!(
        sorted(&fetched.words),
        vec![
            String::from("blue"),
            String::from("green"),
            String::from("red")
        ]
    );
}

#[test]
fn adding_a_present_word_fails_and_changes_nothing() {
    let mut store = Store::new();
    let stored = create_list(&mut store, colors_request()).expect("create failed");
    let id = stored.id.expect("stored list has no id");

    assert_eq!(
        add_word_to_list(&mut store, &id, String::from("red")),
        Err(AppError::WordAlreadyExists)
    );

    let fetched = store.find_one(&id).expect("list disappeared");
    assert_eq!(
        sorted(&fetched.words),
        vec![String::from("blue"), String::from("red")]
    );
}

#[test]
fn removing_a_never_added_word_fails_and_changes_nothing() {
    let mut store = Store::new();
    let stored = create_list(&mut store, colors_request()).expect("create failed");
    let id = stored.id.expect("stored list has no id");

    assert_eq!(
        remove_word_from_list(&mut store, &id, String::from("purple")),
        Err(AppError::WordNotFound)
    );

    let fetched = store.find_one(&id).expect("list disappeared");
    assert_eq!(
        sorted(&fetched.words),
        vec![String::from("blue"), String::from("red")]
    );
}

#[test]
fn removing_a_present_word_is_visible_on_the_next_fetch() {
    let mut store = Store::new();
    let stored = create_list(&mut store, colors_request()).expect("create failed");
    let id = stored.id.expect("stored list has no id");

    assert_eq!(
        remove_word_from_list(&mut store, &id, String::from("red")),
        Ok(())
    );

    let fetched = store.find_one(&id).expect("list disappeared");
    assert_eq!(fetched.words, vec![String::from("blue")]);
}

#[test]
fn deleting_twice_reports_success_both_times() {
    let mut store = Store::new();
    let stored = create_list(&mut store, colors_request()).expect("create failed");
    let id = stored.id.expect("stored list has no id");

    assert_eq!(store.delete(&id), Ok(()));
    assert!(store.find_one(&id).is_none());
    assert_eq!(store.delete(&id), Ok(()));
    assert!(store.find_one(&id).is_none());
}

#[test]
fn deleting_one_list_keeps_the_others() {
    let mut store = Store::new();
    let first = create_list(&mut store, colors_request()).expect("create failed");
    let second = create_list(
        &mut store,
        CreateWordListRequest {
            name: String::from("Animals"),
            words: vec![String::from("cat")],
        },
    )
    .expect("create failed");

    assert_eq!(store.delete(&first.id.expect("no id")), Ok(()));

    let lists = store.find_all();
    assert_eq!(lists.len(), 1);
    assert_eq!(lists[0].name, "Animals");
    assert_eq!(second.id, lists[0].id);
}

#[test]
fn fetching_an_unknown_id_is_absent_not_an_error() {
    let mut store = Store::new();
    create_list(&mut store, colors_request()).expect("create failed");

    assert!(store.find_one(&String::from("never-created")).is_none());
}

#[test]
fn orchestration_reports_an_unknown_id_as_not_found() {
    let mut store = Store::new();
    create_list(&mut store, colors_request()).expect("create failed");
    let unknown = String::from("never-created");

    assert_eq!(
        add_word_to_list(&mut store, &unknown, String::from("green")),
        Err(AppError::NotFound)
    );
    assert_eq!(
        remove_word_from_list(&mut store, &unknown, String::from("red")),
        Err(AppError::NotFound)
    );
}

#[test]
fn update_of_an_absent_id_reports_success_with_no_effect() {
    let mut store = Store::new();
    create_list(&mut store, colors_request()).expect("create failed");

    let ghostly = WordList {
        id: Some(String::from("never-created")),
        name: String::from("Nothing"),
        words: Vec::new(),
    };
    assert_eq!(store.update(ghostly), Ok(()));

    let lists = store.find_all();
    assert_eq!(lists.len(), 1);
    assert_eq!(lists[0].name, "Colors");
}

#[test]
fn create_keeps_duplicate_words_from_the_request() {
    let mut store = Store::new();
    let stored = create_list(
        &mut store,
        CreateWordListRequest {
            name: String::from("Echoes"),
            words: vec![String::from("red"), String::from("red")],
        },
    )
    .expect("create failed");
    assert_eq!(stored.words.len(), 2);
}

#[test]
fn create_ignores_a_caller_supplied_id() {
    let mut store = Store::new();
    let first = create_list(&mut store, colors_request()).expect("create failed");
    let taken = first.id.clone().expect("no id");

    let stored = store
        .create(WordList {
            id: Some(taken.clone()),
            name: String::from("Imposter"),
            words: Vec::new(),
        })
        .expect("create failed");
    assert_ne!(stored.id, Some(taken));
    assert_eq!(store.find_all().len(), 2);
}

#[test]
fn step_decisions_match_the_store_outcomes() {
    assert!(matches!(
        add_word_step(None, String::from("red")),
        Err(AppError::NotFound)
    ));
    assert!(matches!(
        remove_word_step(None, String::from("red")),
        Err(AppError::NotFound)
    ));

    let list = WordList {
        id: Some(String::from("7")),
        name: String::from("Colors"),
        words: vec![String::from("red")],
    };
    let updated = add_word_step(Some(list), String::from("blue")).expect("step failed");
    assert_eq!(updated.words, vec![String::from("red"), String::from("blue")]);

    let shrunk = remove_word_step(Some(updated), String::from("red")).expect("step failed");
    assert_eq!(shrunk.words, vec![String::from("blue")]);
}
