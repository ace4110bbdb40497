use vstd::prelude::*;

use crate::errors::AppError;

verus! {

/// A named list of words.
///
/// `id` is the identifier the store assigned to the list; it is `None` on a
/// list that was built in memory and not yet persisted. `words` must never
/// spell the same word twice (exact, case-sensitive comparison); the two
/// mutators below refuse any change that would break that rule.
pub struct WordList {
    pub id: Option<String>,
    pub name: String,
    pub words: Vec<String>,
}

/// True when some entry of `words` spells `w`.
pub open spec fn has_word(words: Seq<String>, w: Seq<char>) -> bool {
    exists|i: int| 0 <= i < words.len() && (#[trigger] words[i])@ == w
}

/// True when no two entries of `words` spell the same word.
pub open spec fn words_unique(words: Seq<String>) -> bool {
    forall|i: int, j: int|
        0 <= i < words.len() && 0 <= j < words.len() && i != j
            ==> (#[trigger] words[i])@ != (#[trigger] words[j])@
}

/// The words of `words` as plain character sequences.
pub open spec fn word_views(words: Seq<String>) -> Seq<Seq<char>> {
    words.map_values(|w: String| w@)
}

/// The index of the first entry of `words` spelling `word`, if any.
fn position_of_word(words: &Vec<String>, word: &String) -> (position: Option<usize>)
    ensures
        match position {
            Some(i) => i < words@.len() && words@[i as int]@ == word@ && (forall|j: int|
                0 <= j < i ==> (#[trigger] words@[j])@ != word@),
            None => !has_word(words@, word@),
        },
{
    let mut i: usize = 0;
    while i < words.len()
        invariant
            i <= words@.len(),
            forall|j: int| 0 <= j < i ==> (#[trigger] words@[j])@ != word@,
        decreases words@.len() - i,
    {
        if words[i] == *word {
            return Some(i);
        }
        i = i + 1;
    }
    None
}

impl WordList {
    /// Append `word` to the list, unless it is already present, in which case
    /// report `WordAlreadyExists` and leave the list untouched.
    pub fn add_word(&mut self, word: String) -> (result: Result<(), AppError>)
        ensures
            result is Ok <==> !has_word(old(self).words@, word@),
            result is Err ==> result == Err::<(), AppError>(AppError::WordAlreadyExists)
                && *final(self) == *old(self),
            result is Ok ==> final(self).words@ == old(self).words@.push(word)
                && final(self).id == old(self).id && final(self).name == old(self).name,
            words_unique(old(self).words@) ==> words_unique(final(self).words@),
    {
        match position_of_word(&self.words, &word) {
            Some(_) => Err(AppError::WordAlreadyExists),
            None => {
                self.words.push(word);
                Ok(())
            },
        }
    }

    /// Remove the entry spelling `word`, filling its place with the last
    /// entry, so the order of the remaining words is disturbed. When no entry
    /// spells `word`, report `WordNotFound` and leave the list untouched.
    pub fn remove_word(&mut self, word: String) -> (result: Result<(), AppError>)
        ensures
            result is Ok <==> has_word(old(self).words@, word@),
            result is Err ==> result == Err::<(), AppError>(AppError::WordNotFound)
                && *final(self) == *old(self),
            result is Ok ==> exists|i: int|
                0 <= i < old(self).words@.len() && (#[trigger] old(self).words@[i])@ == word@
                    && (forall|j: int| 0 <= j < i ==> (old(self).words@[j])@ != word@)
                    && final(self).words@ == old(self).words@.update(
                    i,
                    old(self).words@.last(),
                ).drop_last(),
            result is Ok ==> final(self).id == old(self).id && final(self).name == old(
                self,
            ).name,
            words_unique(old(self).words@) ==> words_unique(final(self).words@),
    {
        match position_of_word(&self.words, &word) {
            Some(position) => {
                self.words.swap_remove(position);
                proof {
                    if words_unique(old(self).words@) {
                        lemma_swap_removed_keeps_unique(old(self).words@, position as int);
                    }
                    assert(old(self).words@[position as int]@ == word@);
                }
                Ok(())
            },
            None => Err(AppError::WordNotFound),
        }
    }
}

/// After swap-removing any position of a duplicate-free word sequence, the
/// remaining words are still duplicate-free.
proof fn lemma_swap_removed_keeps_unique(words: Seq<String>, i: int)
    requires
        0 <= i < words.len(),
        words_unique(words),
    ensures
        words_unique(words.update(i, words.last()).drop_last()),
{
    let shrunk = words.update(i, words.last()).drop_last();
    assert forall|p: int, q: int|
        0 <= p < shrunk.len() && 0 <= q < shrunk.len() && p != q implies (#[trigger] shrunk[p])@
        != (#[trigger] shrunk[q])@ by {
        let sp: int = if p == i { words.len() - 1 } else { p };
        let sq: int = if q == i { words.len() - 1 } else { q };
        assert(shrunk[p] == words[sp]);
        assert(shrunk[q] == words[sq]);
    }
}

/// Law: adding the same word twice cannot succeed twice. After a successful
/// `add_word` of a word `w` absent from the list, the list contains `w` — so
/// by `add_word`'s contract a second `add_word(w)` reports
/// `WordAlreadyExists` — and exactly one entry of the list spells `w`.
pub proof fn lemma_add_word_twice(words: Seq<String>, w: String)
    requires
        !has_word(words, w@),
    ensures
        has_word(words.push(w), w@),
        forall|i: int, j: int|
            0 <= i < words.push(w).len() && 0 <= j < words.push(w).len() && (
            #[trigger] words.push(w)[i])@ == w@ && (#[trigger] words.push(w)[j])@ == w@ ==> i == j,
{
    assert(words.push(w)[words.len() as int]@ == w@);
    assert forall|i: int|
        0 <= i < words.push(w).len() && (#[trigger] words.push(w)[i])@ == w@ implies i
        == words.len() as int by {
        if i < words.len() {
            assert(words.push(w)[i] == words[i]);
        }
    }
}

/// Law: removing the same word twice cannot succeed twice. In a
/// duplicate-free list, removing the entry at any position `i` spelling `w`
/// leaves a list with no entry spelling `w` — so by `remove_word`'s contract
/// a second `remove_word(w)` reports `WordNotFound`.
pub proof fn lemma_remove_word_twice(words: Seq<String>, w: String, i: int)
    requires
        words_unique(words),
        0 <= i < words.len(),
        words[i]@ == w@,
    ensures
        !has_word(words.update(i, words.last()).drop_last(), w@),
{
    let shrunk = words.update(i, words.last()).drop_last();
    assert forall|p: int| 0 <= p < shrunk.len() implies (#[trigger] shrunk[p])@ != w@ by {
        if p == i {
            assert(shrunk[p] == words[words.len() - 1]);
        } else {
            assert(shrunk[p] == words[p]);
        }
    }
}

/// Law: adding a word `w` that was absent and then removing it restores the
/// former words exactly — in particular the collection of words is set-equal
/// (order-independent) to what it was before the pair of operations.
pub proof fn lemma_add_then_remove_word(words: Seq<String>, w: String)
    requires
        !has_word(words, w@),
    ensures
        forall|j: int| 0 <= j < words.len() ==> (#[trigger] words.push(w)[j])@ != w@,
        words.push(w)[words.len() as int]@ == w@,
        words.push(w).update(words.len() as int, words.push(w).last()).drop_last() == words,
        word_views(
            words.push(w).update(words.len() as int, words.push(w).last()).drop_last(),
        ).to_set() == word_views(words).to_set(),
{
    assert forall|j: int| 0 <= j < words.len() implies (#[trigger] words.push(w)[j])@ != w@ by {
        assert(words.push(w)[j] == words[j]);
    }
    assert(words.push(w).update(words.len() as int, words.push(w).last()).drop_last()
        =~= words);
}

/// Word sequences that spell the same words entry for entry contain the same
/// words.
pub proof fn lemma_has_word_views(a: Seq<String>, b: Seq<String>, w: Seq<char>)
    requires
        a.len() == b.len(),
        forall|i: int| 0 <= i < a.len() ==> (#[trigger] a[i])@ == b[i]@,
    ensures
        has_word(a, w) <==> has_word(b, w),
{
    if has_word(a, w) {
        let i = choose|i: int| 0 <= i < a.len() && (#[trigger] a[i])@ == w;
        assert(b[i]@ == w);
    }
    if has_word(b, w) {
        let i = choose|i: int| 0 <= i < b.len() && (#[trigger] b[i])@ == w;
        assert(a[i]@ == b[i]@);
    }
}

/// A request to create a fresh list with a given name and initial words.
pub struct CreateWordListRequest {
    pub name: String,
    pub words: Vec<String>,
}

/// A request to add one word to an existing list.
pub struct AddWordToListRequest {
    pub word: String,
}

} // verus!
