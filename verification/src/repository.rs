use vstd::prelude::*;

use crate::errors::AppError;
use crate::ids::{decimal, id_string, lemma_decimal_injective};
use crate::model::WordList;

verus! {

/// One persisted record: a store-assigned identifier, the list's name, and
/// its words. No further metadata is kept.
pub struct WordListRecord {
    pub id: String,
    pub name: String,
    pub words: Vec<String>,
}

/// True when some record of `records` carries the identifier `id`.
pub open spec fn has_id(records: Seq<WordListRecord>, id: Seq<char>) -> bool {
    exists|i: int| 0 <= i < records.len() && (#[trigger] records[i]).id@ == id
}

/// True when no two records of `records` carry the same identifier.
pub open spec fn ids_unique(records: Seq<WordListRecord>) -> bool {
    forall|i: int, j: int|
        0 <= i < records.len() && 0 <= j < records.len() && i != j ==> (
        #[trigger] records[i]).id@ != (#[trigger] records[j]).id@
}

/// True when `list` is the in-memory reading of `record`: the same identifier,
/// name and words, compared by content.
pub open spec fn represents(list: WordList, record: WordListRecord) -> bool {
    &&& list.id is Some
    &&& list.id->0@ == record.id@
    &&& list.name@ == record.name@
    &&& list.words@.len() == record.words@.len()
    &&& forall|i: int|
        0 <= i < record.words@.len() ==> (#[trigger] list.words@[i])@ == record.words@[i]@
}

/// The embedded store: a flat collection of word-list records, each keyed by
/// an identifier the store assigned on creation.
pub struct Store {
    records: Vec<WordListRecord>,
    next_id: u64,
}

impl View for Store {
    type V = Seq<WordListRecord>;

    /// A store is read as the sequence of its records, in store order.
    closed spec fn view(&self) -> Seq<WordListRecord> {
        self.records@
    }
}

impl Store {
    /// Every record carries an identifier this store assigned earlier, and no
    /// identifier repeats.
    pub closed spec fn wf(self) -> bool {
        &&& forall|i: int|
            0 <= i < self.records@.len() ==> exists|k: nat|
                k < self.next_id && (#[trigger] self.records@[i]).id@ == decimal(k)
        &&& ids_unique(self.records@)
    }

    /// A well-formed store never carries two records with one identifier.
    pub proof fn lemma_wf_ids_unique(self)
        requires
            self.wf(),
        ensures
            ids_unique(self@),
    {
    }

    /// How many identifiers this store has assigned so far.
    pub closed spec fn assigned(self) -> nat {
        self.next_id as nat
    }

    /// True when the store has run out of identifiers to assign.
    pub open spec fn at_capacity(self) -> bool {
        self.assigned() == u64::MAX
    }

    /// A fresh store with no records.
    pub fn new() -> (store: Store)
        ensures
            store.wf(),
            store@ == Seq::<WordListRecord>::empty(),
            store.assigned() == 0,
    {
        Store { records: Vec::new(), next_id: 0 }
    }

    /// The index of the record carrying `id`, if any.
    fn position_of_id(&self, id: &String) -> (position: Option<usize>)
        ensures
            match position {
                Some(i) => i < self@.len() && self@[i as int].id@ == id@,
                None => !has_id(self@, id@),
            },
    {
        let mut i: usize = 0;
        while i < self.records.len()
            invariant
                i <= self@.len(),
                forall|j: int| 0 <= j < i ==> (#[trigger] self@[j]).id@ != id@,
            decreases self@.len() - i,
        {
            if self.records[i].id == *id {
                return Some(i);
            }
            i = i + 1;
        }
        None
    }

    /// Every stored list, one per record, in store order.
    pub fn find_all(&self) -> (lists: Vec<WordList>)
        ensures
            lists@.len() == self@.len(),
            forall|i: int| 0 <= i < self@.len() ==> represents(#[trigger] lists@[i], self@[i]),
    {
        let mut lists: Vec<WordList> = Vec::new();
        let mut i: usize = 0;
        while i < self.records.len()
            invariant
                i <= self@.len(),
                lists@.len() == i,
                forall|j: int| 0 <= j < i ==> represents(#[trigger] lists@[j], self@[j]),
            decreases self@.len() - i,
        {
            lists.push(list_of_record(&self.records[i]));
            i = i + 1;
        }
        lists
    }

    /// The stored list under `id`, or `None` when no record carries `id`;
    /// absence is not an error.
    pub fn find_one(&self, id: &String) -> (found: Option<WordList>)
        ensures
            found is None <==> !has_id(self@, id@),
            found matches Some(list) ==> exists|i: int|
                0 <= i < self@.len() && (#[trigger] self@[i]).id@ == id@ && represents(
                    list,
                    self@[i],
                ),
    {
        match self.position_of_id(id) {
            Some(position) => Some(list_of_record(&self.records[position])),
            None => None,
        }
    }

    /// Persist `list` as a new record: the store assigns a fresh identifier
    /// and keeps the given name and words; any identifier already on `list`
    /// is ignored. Returns the stored list. Fails with `StoreError` exactly
    /// when the identifier space is exhausted.
    pub fn create(&mut self, list: WordList) -> (result: Result<WordList, AppError>)
        requires
            old(self).wf(),
        ensures
            final(self).wf(),
            result is Ok <==> !old(self).at_capacity(),
            result is Ok ==> final(self).assigned() == old(self).assigned() + 1,
            result is Err ==> result == Err::<WordList, AppError>(AppError::StoreError) && *final(self) == *old(self),
            result matches Ok(stored) ==> stored.id is Some && !has_id(old(self)@, stored.id->0@)
                && stored.name == list.name && stored.words == list.words && final(self)@.len()
                == old(self)@.len() + 1 && (forall|i: int|
                0 <= i < old(self)@.len() ==> final(self)@[i] == old(self)@[i]) && represents(
                stored,
                final(self)@.last(),
            ),
    {
        if self.next_id == u64::MAX {
            return Err(AppError::StoreError);
        }
        let id = id_string(self.next_id);
        proof {
            assert forall|i: int| 0 <= i < self.records@.len() implies (
            #[trigger] self.records@[i]).id@ != id@ by {
                let k = choose|k: nat|
                    k < self.next_id && self.records@[i].id@ == decimal(k);
                lemma_decimal_injective(k, self.next_id as nat);
            }
        }
        let record = WordListRecord {
            id: id.clone(),
            name: clone_string(&list.name),
            words: clone_words(&list.words),
        };
        self.records.push(record);
        self.next_id = self.next_id + 1;
        let stored = WordList { id: Some(id), name: list.name, words: list.words };
        proof {
            assert forall|i: int| 0 <= i < self.records@.len() implies exists|k: nat|
                k < self.next_id && (#[trigger] self.records@[i]).id@ == decimal(k) by {
                if i < self.records@.len() - 1 {
                    let k = choose|k: nat|
                        k < old(self).next_id && old(self).records@[i].id@ == decimal(k);
                    assert(k < self.next_id && self.records@[i].id@ == decimal(k));
                } else {
                    let k = (self.next_id - 1) as nat;
                    assert(k < self.next_id && self.records@[i].id@ == decimal(k));
                }
            }
        }
        Ok(stored)
    }

    /// Replace the stored name and words under `list.id` with `list`'s own.
    /// The identifier must be present on `list`: that is the caller's
    /// obligation, not a recoverable failure. When no record carries the
    /// identifier, the call reports success and changes nothing.
    pub fn update(&mut self, list: WordList) -> (result: Result<(), AppError>)
        requires
            old(self).wf(),
            list.id is Some,
        ensures
            final(self).wf(),
            result == Ok::<(), AppError>(()),
            final(self).assigned() == old(self).assigned(),
            !has_id(old(self)@, list.id->0@) ==> *final(self) == *old(self),
            has_id(old(self)@, list.id->0@) ==> exists|i: int|
                0 <= i < old(self)@.len() && (#[trigger] old(self)@[i]).id@ == list.id->0@
                    && final(self)@ == old(self)@.update(i, final(self)@[i]) && final(self)@[i].id@ == list.id->0@ && final(self)@[i].name == list.name && final(self)@[i].words == list.words,
    {
        let id = match list.id {
            Some(id) => id,
            None => {
                return Ok(());
            },
        };
        match self.position_of_id(&id) {
            Some(position) => {
                let record = WordListRecord { id, name: list.name, words: list.words };
                self.records.remove(position);
                self.records.insert(position, record);
                proof {
                    assert(self.records@ =~= old(self).records@.update(
                        position as int,
                        self.records@[position as int],
                    ));
                    assert forall|i: int| 0 <= i < self.records@.len() implies exists|k: nat|
                        k < self.next_id && (#[trigger] self.records@[i]).id@ == decimal(k) by {
                        let k = choose|k: nat|
                            k < old(self).next_id && old(self).records@[i].id@ == decimal(k);
                        assert(k < self.next_id && self.records@[i].id@ == decimal(k));
                    }
                }
                Ok(())
            },
            None => Ok(()),
        }
    }

    /// Remove the record carrying `id`, if any. Deleting an identifier that
    /// no record carries is not an error, so the operation is idempotent.
    pub fn delete(&mut self, id: &String) -> (result: Result<(), AppError>)
        requires
            old(self).wf(),
        ensures
            final(self).wf(),
            result == Ok::<(), AppError>(()),
            final(self).assigned() == old(self).assigned(),
            !has_id(final(self)@, id@),
            !has_id(old(self)@, id@) ==> *final(self) == *old(self),
            has_id(old(self)@, id@) ==> exists|i: int|
                0 <= i < old(self)@.len() && (#[trigger] old(self)@[i]).id@ == id@ && final(self)@ == old(self)@.remove(i),
    {
        match self.position_of_id(id) {
            Some(position) => {
                self.records.remove(position);
                proof {
                    assert forall|i: int| 0 <= i < self.records@.len() implies exists|k: nat|
                        k < self.next_id && (#[trigger] self.records@[i]).id@ == decimal(k) by {
                        let source: int = if i < position {
                            i
                        } else {
                            i + 1
                        };
                        assert(self.records@[i] == old(self).records@[source]);
                        let k = choose|k: nat|
                            k < old(self).next_id && old(self).records@[source].id@ == decimal(k);
                        assert(k < self.next_id && self.records@[i].id@ == decimal(k));
                    }
                    assert forall|i: int| 0 <= i < self.records@.len() implies (
                    #[trigger] self.records@[i]).id@ != id@ by {
                        let source: int = if i < position {
                            i
                        } else {
                            i + 1
                        };
                        assert(self.records@[i] == old(self).records@[source]);
                    }
                }
                Ok(())
            },
            None => Ok(()),
        }
    }
}

/// A fresh `String` spelling the same characters as `s`.
fn clone_string(s: &String) -> (copy: String)
    ensures
        copy@ == s@,
{
    s.clone()
}

/// A fresh word vector spelling the same words as `words`.
fn clone_words(words: &Vec<String>) -> (copy: Vec<String>)
    ensures
        copy@.len() == words@.len(),
        forall|i: int| 0 <= i < words@.len() ==> (#[trigger] copy@[i])@ == words@[i]@,
{
    let copy = words.clone();
    proof {
        assert forall|i: int| 0 <= i < words@.len() implies (#[trigger] copy@[i])@
            == words@[i]@ by {
            assert(cloned(words@[i], copy@[i]));
        }
    }
    copy
}

/// The in-memory reading of one record.
fn list_of_record(record: &WordListRecord) -> (list: WordList)
    ensures
        represents(list, *record),
{
    WordList {
        id: Some(clone_string(&record.id)),
        name: clone_string(&record.name),
        words: clone_words(&record.words),
    }
}

/// Law: deleting a list is idempotent. After a delete removes the one record
/// carrying `id` from a store with no repeated identifiers, no record with
/// `id` remains — so by `delete`'s contract a second delete of `id` reports
/// success and leaves the store unchanged.
pub proof fn lemma_delete_idempotent(records: Seq<WordListRecord>, id: Seq<char>, i: int)
    requires
        ids_unique(records),
        0 <= i < records.len(),
        records[i].id@ == id,
    ensures
        !has_id(records.remove(i), id),
{
    assert forall|p: int| 0 <= p < records.remove(i).len() implies (
    #[trigger] records.remove(i)[p]).id@ != id by {
        let source: int = if p < i {
            p
        } else {
            p + 1
        };
        assert(records.remove(i)[p] == records[source]);
    }
}

} // verus!
