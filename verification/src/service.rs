use vstd::prelude::*;

use crate::errors::AppError;
use crate::model::{has_word, lemma_has_word_views, CreateWordListRequest, WordList};
use crate::repository::{has_id, represents, Store};

verus! {

/// The decision at the heart of the add-word use case: given what the store
/// returned for the requested id, either the updated list to write back or
/// the terminal failure. The same decision serves any store binding.
pub fn add_word_step(found: Option<WordList>, word: String) -> (outcome: Result<
    WordList,
    AppError,
>)
    ensures
        found is None <==> outcome == Err::<WordList, AppError>(AppError::NotFound),
        found matches Some(list) ==> {
            &&& has_word(list.words@, word@) ==> outcome == Err::<WordList, AppError>(
                AppError::WordAlreadyExists,
            )
            &&& !has_word(list.words@, word@) ==> (outcome matches Ok(updated) && updated.id
                == list.id && updated.name == list.name && updated.words@ == list.words@.push(
                word,
            ))
        },
{
    match found {
        None => Err(AppError::NotFound),
        Some(mut list) => {
            match list.add_word(word) {
                Ok(()) => Ok(list),
                Err(failure) => Err(failure),
            }
        },
    }
}

/// The decision at the heart of the remove-word use case, shaped like
/// `add_word_step`.
pub fn remove_word_step(found: Option<WordList>, word: String) -> (outcome: Result<
    WordList,
    AppError,
>)
    ensures
        found is None <==> outcome == Err::<WordList, AppError>(AppError::NotFound),
        found matches Some(list) ==> {
            &&& !has_word(list.words@, word@) ==> outcome == Err::<WordList, AppError>(
                AppError::WordNotFound,
            )
            &&& has_word(list.words@, word@) ==> (outcome matches Ok(updated) && updated.id
                == list.id && updated.name == list.name && exists|i: int|
                0 <= i < list.words@.len() && (#[trigger] list.words@[i])@ == word@
                    && updated.words@ == list.words@.update(i, list.words@.last()).drop_last())
        },
{
    match found {
        None => Err(AppError::NotFound),
        Some(mut list) => {
            match list.remove_word(word) {
                Ok(()) => Ok(list),
                Err(failure) => Err(failure),
            }
        },
    }
}

/// Add `word` to the list stored under `id`: fetch the list, add the word in
/// memory, and write the full replacement back. On any failure no write
/// happens and the store is unchanged; an unknown id is `NotFound`, a word
/// already present is `WordAlreadyExists`.
pub fn add_word_to_list(store: &mut Store, id: &String, word: String) -> (outcome: Result<
    (),
    AppError,
>)
    requires
        old(store).wf(),
    ensures
        final(store).wf(),
        final(store).assigned() == old(store).assigned(),
        outcome == Err::<(), AppError>(AppError::NotFound) <==> !has_id(old(store)@, id@),
        outcome is Err ==> *final(store) == *old(store),
        forall|i: int|
            0 <= i < old(store)@.len() && (#[trigger] old(store)@[i]).id@ == id@ ==> {
                &&& has_word(old(store)@[i].words@, word@) ==> outcome == Err::<(), AppError>(
                    AppError::WordAlreadyExists,
                )
                &&& !has_word(old(store)@[i].words@, word@) ==> outcome == Ok::<(), AppError>(())
                    && final(store)@ == old(store)@.update(i, final(store)@[i]) && final(store)@[i].id@ == id@ && final(store)@[i].name@ == old(store)@[i].name@ && final(store)@[i].words@.len() == old(store)@[i].words@.len() + 1 && (forall|j: int|
                    0 <= j < old(store)@[i].words@.len() ==> (#[trigger] final(store)@[i].words@[j])@ == old(store)@[i].words@[j]@) && final(store)@[i].words@.last()@ == word@
            },
{
    let found = store.find_one(id);
    let ghost i = choose|i: int|
        0 <= i < old(store)@.len() && (#[trigger] old(store)@[i]).id@ == id@ && represents(
            found->0,
            old(store)@[i],
        );
    proof {
        old(store).lemma_wf_ids_unique();
        if found is Some {
            lemma_has_word_views(found->0.words@, old(store)@[i].words@, word@);
        }
    }
    match add_word_step(found, word) {
        Ok(updated) => {
            match store.update(updated) {
                Ok(()) => {
                    proof {
                        let list = found->0;
                        let j = choose|j: int|
                            0 <= j < old(store)@.len() && (#[trigger] old(store)@[j]).id@
                                == updated.id->0@ && store@ == old(store)@.update(j, store@[j])
                                && store@[j].id@ == updated.id->0@ && store@[j].name
                                == updated.name && store@[j].words == updated.words;
                        assert(j == i);
                        assert forall|j2: int|
                            0 <= j2 < old(store)@[i].words@.len() implies (
                        #[trigger] store@[i].words@[j2])@ == old(store)@[i].words@[j2]@ by {
                            assert(store@[i].words@[j2] == list.words@[j2]);
                            assert(list.words@[j2]@ == old(store)@[i].words@[j2]@);
                        }
                        assert forall|i2: int|
                            0 <= i2 < old(store)@.len() && (#[trigger] old(store)@[i2]).id@ == id@
                            implies i2 == i by {}
                    }
                    Ok(())
                },
                Err(failure) => Err(failure),
            }
        },
        Err(failure) => {
            proof {
                assert forall|i2: int|
                    0 <= i2 < old(store)@.len() && (#[trigger] old(store)@[i2]).id@ == id@
                    implies i2 == i by {}
            }
            Err(failure)
        },
    }
}

/// Remove `word` from the list stored under `id`: fetch the list, remove the
/// word in memory, and write the full replacement back. On any failure no
/// write happens and the store is unchanged; an unknown id is `NotFound`, an
/// absent word is `WordNotFound`. The place of the removed word is filled by
/// the last one, so the stored order of the remaining words is disturbed.
pub fn remove_word_from_list(store: &mut Store, id: &String, word: String) -> (outcome: Result<
    (),
    AppError,
>)
    requires
        old(store).wf(),
    ensures
        final(store).wf(),
        final(store).assigned() == old(store).assigned(),
        outcome == Err::<(), AppError>(AppError::NotFound) <==> !has_id(old(store)@, id@),
        outcome is Err ==> *final(store) == *old(store),
        forall|i: int|
            0 <= i < old(store)@.len() && (#[trigger] old(store)@[i]).id@ == id@ ==> {
                &&& !has_word(old(store)@[i].words@, word@) ==> outcome == Err::<(), AppError>(
                    AppError::WordNotFound,
                )
                &&& has_word(old(store)@[i].words@, word@) ==> outcome == Ok::<(), AppError>(())
                    && final(store)@ == old(store)@.update(i, final(store)@[i])
                    && final(store)@[i].id@ == id@
                    && final(store)@[i].name@ == old(store)@[i].name@
                    && exists|p: int|
                    {
                        &&& 0 <= p < old(store)@[i].words@.len()
                        &&& (#[trigger] old(store)@[i].words@[p])@ == word@
                        &&& final(store)@[i].words@.len() == old(store)@[i].words@.len() - 1
                        &&& forall|j: int|
                            0 <= j < final(store)@[i].words@.len() ==> (#[trigger] final(store)@[i].words@[j])@ == (if j == p {
                                old(store)@[i].words@.last()@
                            } else {
                                old(store)@[i].words@[j]@
                            })
                    }
            },
{
    let found = store.find_one(id);
    let ghost i = choose|i: int|
        0 <= i < old(store)@.len() && (#[trigger] old(store)@[i]).id@ == id@ && represents(
            found->0,
            old(store)@[i],
        );
    proof {
        old(store).lemma_wf_ids_unique();
        if found is Some {
            lemma_has_word_views(found->0.words@, old(store)@[i].words@, word@);
        }
    }
    match remove_word_step(found, word) {
        Ok(updated) => {
            match store.update(updated) {
                Ok(()) => {
                    proof {
                        let list = found->0;
                        let j = choose|j: int|
                            0 <= j < old(store)@.len() && (#[trigger] old(store)@[j]).id@
                                == updated.id->0@ && store@ == old(store)@.update(j, store@[j])
                                && store@[j].id@ == updated.id->0@ && store@[j].name
                                == updated.name && store@[j].words == updated.words;
                        assert(j == i);
                        let p = choose|p: int|
                            0 <= p < list.words@.len() && (#[trigger] list.words@[p])@ == word@
                                && updated.words@ == list.words@.update(
                                p,
                                list.words@.last(),
                            ).drop_last();
                        assert((old(store)@[i].words@[p])@ == word@);
                        assert(store@[i].words@.len() == old(store)@[i].words@.len() - 1);
                        assert forall|j2: int|
                            0 <= j2 < store@[i].words@.len() implies (
                        #[trigger] store@[i].words@[j2])@ == (if j2 == p {
                            old(store)@[i].words@.last()@
                        } else {
                            old(store)@[i].words@[j2]@
                        }) by {
                            if j2 == p {
                                assert(store@[i].words@[j2] == list.words@.last());
                                assert(list.words@.last()@ == old(store)@[i].words@.last()@);
                            } else {
                                assert(store@[i].words@[j2] == list.words@[j2]);
                                assert(list.words@[j2]@ == old(store)@[i].words@[j2]@);
                            }
                        }
                        assert forall|i2: int|
                            0 <= i2 < old(store)@.len() && (#[trigger] old(store)@[i2]).id@ == id@
                            implies i2 == i by {}
                    }
                    Ok(())
                },
                Err(failure) => Err(failure),
            }
        },
        Err(failure) => {
            proof {
                assert forall|i2: int|
                    0 <= i2 < old(store)@.len() && (#[trigger] old(store)@[i2]).id@ == id@
                    implies i2 == i by {}
            }
            Err(failure)
        },
    }
}

/// Create a fresh list carrying the request's name and words and persist it:
/// the store assigns the identifier and ignores any caller-supplied one.
/// Duplicate words in the request are persisted as given. Returns the stored
/// list; fails with `StoreError` exactly when the store can assign no further
/// identifier.
pub fn create_list(store: &mut Store, request: CreateWordListRequest) -> (outcome: Result<
    WordList,
    AppError,
>)
    requires
        old(store).wf(),
    ensures
        final(store).wf(),
        outcome is Ok <==> !old(store).at_capacity(),
        outcome is Ok ==> final(store).assigned() == old(store).assigned() + 1,
        outcome is Err ==> outcome == Err::<WordList, AppError>(AppError::StoreError) && *final(store) == *old(store),
        outcome matches Ok(stored) ==> stored.id is Some && !has_id(old(store)@, stored.id->0@)
            && stored.name == request.name && stored.words == request.words && final(store)@.len()
            == old(store)@.len() + 1 && (forall|i: int|
            0 <= i < old(store)@.len() ==> final(store)@[i] == old(store)@[i]) && represents(
            stored,
            final(store)@.last(),
        ),
{
    let list = WordList { id: None, name: request.name, words: request.words };
    store.create(list)
}

} // verus!
