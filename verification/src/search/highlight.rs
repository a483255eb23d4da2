//! Where in the text of a hit the query matched.
//!
//! The words of a query are looked for in the text as they stand, letter for
//! letter but for the case of the letters `A` to `Z`.

use crate::model::types::Snippet;
use crate::search::compile::{Clause, ClauseView};
use crate::seqs::views;
use crate::text::to_chars;
use vstd::prelude::*;

verus! {

/// The code of `c`, with the capital letters `A` to `Z` taken as their small
/// ones.
pub open spec fn folded(c: char) -> u32 {
    if 'A' <= c <= 'Z' {
        (c as u32 + 32) as u32
    } else {
        c as u32
    }
}

/// The code of `c`, with the capital letters `A` to `Z` taken as their small
/// ones.
pub fn fold_case(c: char) -> (code: u32)
    ensures
        code == folded(c),
{
    if 'A' <= c && c <= 'Z' {
        c as u32 + 32
    } else {
        c as u32
    }
}

/// Whether `needle` stands in `text` at `at`, the case of letters aside.
pub open spec fn stands_at(text: Seq<char>, needle: Seq<char>, at: int) -> bool {
    &&& 0 <= at
    &&& at + needle.len() <= text.len()
    &&& forall|k: int| 0 <= k < needle.len() ==> folded(#[trigger] text[at + k]) == folded(needle[k])
}

/// The stretches of `text` before `upto` at which `needle` stands, from left
/// to right. An empty needle stands nowhere.
pub open spec fn occurrences(text: Seq<char>, needle: Seq<char>, upto: int) -> Seq<Snippet>
    decreases upto,
{
    if upto <= 0 {
        Seq::empty()
    } else {
        let before = occurrences(text, needle, upto - 1);
        if needle.len() > 0 && stands_at(text, needle, upto - 1) {
            before.push(
                Snippet { start: (upto - 1) as usize, end: (upto - 1 + needle.len()) as usize },
            )
        } else {
            before
        }
    }
}

/// Whether `needle` stands in `text` at `at`.
pub fn matches_at(text: &Vec<char>, needle: &Vec<char>, at: usize) -> (b: bool)
    ensures
        b == stands_at(text@, needle@, at as int),
{
    if needle.len() > text.len() || at > text.len() - needle.len() {
        return false;
    }
    let mut k: usize = 0;
    while k < needle.len()
        invariant
            k <= needle.len(),
            at + needle.len() <= text.len(),
            forall|j: int| 0 <= j < k ==> folded(#[trigger] text@[at + j]) == folded(needle@[j]),
        decreases needle.len() - k,
    {
        if fold_case(text[at + k]) != fold_case(needle[k]) {
            assert(folded(text@[at + k]) != folded(needle@[k as int]));
            return false;
        }
        k = k + 1;
    }
    true
}

/// Adds to `found` the stretches of `text` at which `needle` stands.
pub fn find_occurrences(found: &mut Vec<Snippet>, text: &Vec<char>, needle: &Vec<char>)
    ensures
        final(found)@ == old(found)@ + occurrences(text@, needle@, text@.len() as int),
{
    let ghost start = found@;
    assert(found@ =~= start + occurrences(text@, needle@, 0));
    if needle.len() == 0 {
        proof {
            lemma_nothing_for_empty(text@, needle@, text@.len() as int);
            assert(start + Seq::<Snippet>::empty() =~= start);
        }
        return ;
    }
    let mut i: usize = 0;
    while i < text.len()
        invariant
            i <= text.len(),
            needle.len() > 0,
            found@ == start + occurrences(text@, needle@, i as int),
        decreases text.len() - i,
    {
        if matches_at(text, needle, i) {
            let ghost before = occurrences(text@, needle@, i as int);
            let snippet = Snippet { start: i, end: i + needle.len() };
            found.push(snippet);
            assert(found@ =~= start + before.push(snippet));
        }
        i = i + 1;
    }
}

/// An empty needle stands nowhere.
proof fn lemma_nothing_for_empty(text: Seq<char>, needle: Seq<char>, upto: int)
    requires
        needle.len() == 0,
    ensures
        occurrences(text, needle, upto) == Seq::<Snippet>::empty(),
    decreases upto,
{
    if upto > 0 {
        lemma_nothing_for_empty(text, needle, upto - 1);
    }
}

/// The stretches of `text` at which one of `words` stands: those of the
/// first word from left to right, then those of the next, and so on.
pub open spec fn word_highlights(text: Seq<char>, words: Seq<Seq<char>>) -> Seq<Snippet>
    decreases words.len(),
{
    if words.len() == 0 {
        Seq::empty()
    } else {
        word_highlights(text, words.drop_last()) + occurrences(
            text,
            words.last(),
            text.len() as int,
        )
    }
}

/// The words that a clause looks for: the text of a term, the words of a
/// phrase.
pub open spec fn clause_words(clause: ClauseView) -> Seq<Seq<char>> {
    match clause {
        ClauseView::Term { text, .. } => seq![text],
        ClauseView::Phrase { words } => words,
    }
}

/// The stretches of `text` at which a word of one of `clauses` stands: those
/// of the first clause, then those of the next, and so on.
pub open spec fn highlights(text: Seq<char>, clauses: Seq<ClauseView>) -> Seq<Snippet>
    decreases clauses.len(),
{
    if clauses.len() == 0 {
        Seq::empty()
    } else {
        highlights(text, clauses.drop_last()) + word_highlights(
            text,
            clause_words(clauses.last()),
        )
    }
}

/// Adds to `found` the stretches of `text` at which one of `words` stands.
fn find_words(found: &mut Vec<Snippet>, text: &Vec<char>, words: &Vec<String>)
    ensures
        final(found)@ == old(found)@ + word_highlights(text@, views(words@)),
{
    let ghost start = found@;
    let mut i: usize = 0;
    assert(found@ =~= start + word_highlights(text@, views(words@).take(0)));
    while i < words.len()
        invariant
            i <= words.len(),
            found@ == start + word_highlights(text@, views(words@).take(i as int)),
        decreases words.len() - i,
    {
        let ghost before = word_highlights(text@, views(words@).take(i as int));
        proof {
            assert(views(words@).take(i as int + 1).drop_last() =~= views(words@).take(i as int));
        }
        let needle = to_chars(words[i].as_str());
        find_occurrences(found, text, &needle);
        assert(found@ =~= start + (before + occurrences(text@, needle@, text@.len() as int)));
        i = i + 1;
    }
    assert(views(words@).take(words.len() as int) =~= views(words@));
}

/// The stretches of `text` at which a word of one of `clauses` stands.
pub fn highlight(text: &str, clauses: &Vec<Clause>) -> (found: Vec<Snippet>)
    ensures
        found@ == highlights(text@, views(clauses@)),
{
    let chars = to_chars(text);
    let mut found: Vec<Snippet> = Vec::new();
    let mut i: usize = 0;
    assert(found@ =~= highlights(text@, views(clauses@).take(0)));
    while i < clauses.len()
        invariant
            i <= clauses.len(),
            chars@ == text@,
            found@ == highlights(text@, views(clauses@).take(i as int)),
        decreases clauses.len() - i,
    {
        let ghost before = found@;
        proof {
            assert(views(clauses@).take(i as int + 1).drop_last() =~= views(clauses@).take(
                i as int,
            ));
        }
        match &clauses[i] {
            Clause::Term { text: word, .. } => {
                let needle = to_chars(word.as_str());
                find_occurrences(&mut found, &chars, &needle);
                proof {
                    let only = seq![word@];
                    assert(only.drop_last() =~= Seq::<Seq<char>>::empty());
                    assert(word_highlights(text@, Seq::<Seq<char>>::empty()) =~= Seq::<
                        Snippet,
                    >::empty());
                    assert(only.last() == word@);
                    assert(word_highlights(text@, only) =~= occurrences(
                        text@,
                        word@,
                        text@.len() as int,
                    ));
                }
            },
            Clause::Phrase { words } => {
                find_words(&mut found, &chars, words);
            },
        }
        i = i + 1;
    }
    assert(views(clauses@).take(clauses.len() as int) =~= views(clauses@));
    found
}

} // verus!
