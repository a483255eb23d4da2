//! How the text of a query is read.
//!
//! A query is clauses with white space between them; all of them must
//! match. A clause is a term or a phrase. A phrase stands between double
//! quotes: its words must match next to each other. A term is a word, with
//! or without a `*` at its front, at its end, or both.

use crate::search::query::{MatchType, SearchError};
use crate::seqs::views;
use crate::text::{from_chars, is_space, is_whitespace, to_chars};
use vstd::prelude::*;

verus! {

/// What of a word a term must match.
#[derive(Clone, Copy, Debug, PartialEq, Eq, Structural)]
pub enum TermKind {
    /// `term`: the whole word.
    Exact,
    /// `term*`: the start of the word.
    Prefix,
    /// `*term`: the end of the word.
    Suffix,
    /// `*term*`: any part of the word.
    Substring,
}

/// One clause of a query.
#[derive(Clone, Debug, PartialEq, Eq)]
pub enum Clause {
    /// A word, to match as `kind` says.
    Term { text: String, kind: TermKind },
    /// Words to match next to each other, in this order.
    Phrase { words: Vec<String> },
}

/// What a [`Clause`] holds, as mathematical values.
pub enum ClauseView {
    Term { text: Seq<char>, kind: TermKind },
    Phrase { words: Seq<Seq<char>> },
}

impl View for Clause {
    type V = ClauseView;

    open spec fn view(&self) -> ClauseView {
        match self {
            Clause::Term { text, kind } => ClauseView::Term { text: text@, kind: *kind },
            Clause::Phrase { words } => ClauseView::Phrase { words: views(words@) },
        }
    }
}

/// The characters at which a scan may stop.
#[derive(Clone, Copy, Debug, PartialEq, Eq, Structural)]
pub enum Stop {
    /// White space.
    Space,
    /// A double quote.
    Quote,
    /// White space or a double quote: what ends a word.
    WordEnd,
}

impl Stop {
    /// Whether a scan for `self` stops at `c`.
    pub open spec fn at(self, c: char) -> bool {
        match self {
            Stop::Space => is_space(c),
            Stop::Quote => c == '"',
            Stop::WordEnd => is_space(c) || c == '"',
        }
    }

    /// Whether a scan for `self` stops at `c`.
    pub fn stops_at(self, c: char) -> (b: bool)
        ensures
            b == self.at(c),
    {
        match self {
            Stop::Space => is_whitespace(c),
            Stop::Quote => c == '"',
            Stop::WordEnd => is_whitespace(c) || c == '"',
        }
    }
}

/// The first place at or after `from` where a scan for `stop` stops, or the
/// length of `s` if there is none.
pub open spec fn next_stop(s: Seq<char>, from: int, stop: Stop) -> int
    decreases s.len() - from,
{
    if from < 0 || from >= s.len() {
        s.len() as int
    } else if stop.at(s[from]) {
        from
    } else {
        next_stop(s, from + 1, stop)
    }
}

/// `next_stop` lies at or after `from`; the scan stops at it and at nothing
/// between `from` and it.
pub proof fn lemma_next_stop(s: Seq<char>, from: int, stop: Stop)
    requires
        0 <= from <= s.len(),
    ensures
        from <= next_stop(s, from, stop) <= s.len(),
        next_stop(s, from, stop) < s.len() ==> stop.at(s[next_stop(s, from, stop)]),
        forall|j: int| from <= j < next_stop(s, from, stop) ==> !stop.at(#[trigger] s[j]),
    decreases s.len() - from,
{
    if from < s.len() && !stop.at(s[from]) {
        lemma_next_stop(s, from + 1, stop);
    }
}

/// The first place at or after `from` where a scan for `stop` stops.
pub fn find_stop(chars: &Vec<char>, from: usize, stop: Stop) -> (at: usize)
    requires
        from <= chars.len(),
    ensures
        at == next_stop(chars@, from as int, stop),
        from <= at <= chars.len(),
{
    let mut i: usize = from;
    while i < chars.len() && !stop.stops_at(chars[i])
        invariant
            from <= i <= chars.len(),
            next_stop(chars@, from as int, stop) == next_stop(chars@, i as int, stop),
        decreases chars.len() - i,
    {
        i = i + 1;
    }
    i
}

/// The words of `s` from `from` on: the runs of characters that are no
/// white space, in order.
pub open spec fn words_from(s: Seq<char>, from: int) -> Seq<Seq<char>>
    decreases s.len() - from,
{
    if from < 0 || from >= s.len() {
        Seq::empty()
    } else if is_space(s[from]) {
        words_from(s, from + 1)
    } else {
        let end = next_stop(s, from + 1, Stop::Space);
        proof {
            lemma_next_stop(s, from + 1, Stop::Space);
        }
        seq![s.subrange(from, end)] + words_from(s, end)
    }
}

/// The words of `chars`.
pub fn split_words(chars: &Vec<char>) -> (words: Vec<String>)
    ensures
        views(words@) == words_from(chars@, 0),
{
    let mut words: Vec<String> = Vec::new();
    let mut i: usize = 0;
    assert(views(words@) + words_from(chars@, 0) =~= words_from(chars@, 0));
    while i < chars.len()
        invariant
            i <= chars.len(),
            views(words@) + words_from(chars@, i as int) == words_from(chars@, 0),
        decreases chars.len() - i,
    {
        if is_whitespace(chars[i]) {
            i = i + 1;
        } else {
            let end = find_stop(chars, i + 1, Stop::Space);
            let ghost before = views(words@);
            let word = from_chars(chars, i, end);
            words.push(word);
            proof {
                assert(views(words@) =~= before.push(word@));
                assert(before.push(word@) + words_from(chars@, end as int) =~= before + (seq![
                    word@,
                ] + words_from(chars@, end as int)));
            }
            i = end;
        }
    }
    assert(views(words@) + Seq::<Seq<char>>::empty() =~= views(words@));
    words
}

/// The term that a word stands for. A `*` at its front and a `*` at its end
/// are wildcards and not part of the text to match; a `*` anywhere else
/// makes the word malformed.
pub open spec fn term_of(word: Seq<char>) -> Option<ClauseView> {
    let leading = word.len() > 0 && word[0] == '*';
    let rest = if leading {
        word.drop_first()
    } else {
        word
    };
    let trailing = rest.len() > 0 && rest.last() == '*';
    let text = if trailing {
        rest.drop_last()
    } else {
        rest
    };
    if text.contains('*') {
        None
    } else {
        Some(
            ClauseView::Term {
                text,
                kind: if leading && trailing {
                    TermKind::Substring
                } else if leading {
                    TermKind::Suffix
                } else if trailing {
                    TermKind::Prefix
                } else {
                    TermKind::Exact
                },
            },
        )
    }
}

/// Whether `c` stands in `chars` between `from` and `to`.
fn holds_char(chars: &Vec<char>, from: usize, to: usize, c: char) -> (b: bool)
    requires
        from <= to <= chars.len(),
    ensures
        b == chars@.subrange(from as int, to as int).contains(c),
{
    let ghost part = chars@.subrange(from as int, to as int);
    let mut i: usize = from;
    while i < to
        invariant
            from <= i <= to <= chars.len(),
            part == chars@.subrange(from as int, to as int),
            forall|j: int| 0 <= j < i - from ==> part[j] != c,
        decreases to - i,
    {
        if chars[i] == c {
            assert(part[i - from] == c);
            return true;
        }
        i = i + 1;
    }
    false
}

/// The term that the word of `chars` between `from` and `to` stands for.
fn make_term(chars: &Vec<char>, from: usize, to: usize) -> (term: Option<Clause>)
    requires
        from <= to <= chars.len(),
    ensures
        match term {
            Some(t) => term_of(chars@.subrange(from as int, to as int)) == Some(t@),
            None => term_of(chars@.subrange(from as int, to as int)) is None,
        },
{
    let ghost word = chars@.subrange(from as int, to as int);
    let leading = from < to && chars[from] == '*';
    let start = if leading {
        from + 1
    } else {
        from
    };
    let ghost rest = if leading {
        word.drop_first()
    } else {
        word
    };
    assert(rest =~= chars@.subrange(start as int, to as int));
    let trailing = start < to && chars[to - 1] == '*';
    let end = if trailing {
        to - 1
    } else {
        to
    };
    let ghost text = if trailing {
        rest.drop_last()
    } else {
        rest
    };
    assert(text =~= chars@.subrange(start as int, end as int));
    if holds_char(chars, start, end, '*') {
        return None;
    }
    let kind = if leading && trailing {
        TermKind::Substring
    } else if leading {
        TermKind::Suffix
    } else if trailing {
        TermKind::Prefix
    } else {
        TermKind::Exact
    };
    Some(Clause::Term { text: from_chars(chars, start, end), kind })
}

/// The phrase that the text between two quotes stands for: its words. A `*`
/// in it makes it malformed.
pub open spec fn phrase_of(inner: Seq<char>) -> Option<ClauseView> {
    if inner.contains('*') {
        None
    } else {
        Some(ClauseView::Phrase { words: words_from(inner, 0) })
    }
}

/// `rest` with `first` before it, if there is a `rest`.
pub open spec fn prepended(first: Seq<ClauseView>, rest: Option<Seq<ClauseView>>) -> Option<
    Seq<ClauseView>,
> {
    match rest {
        Some(r) => Some(first + r),
        None => None,
    }
}

/// `rest` with `clause` before it, if there are both.
pub open spec fn followed(clause: Option<ClauseView>, rest: Option<Seq<ClauseView>>) -> Option<
    Seq<ClauseView>,
> {
    match (clause, rest) {
        (Some(c), Some(r)) => Some(seq![c] + r),
        _ => None,
    }
}

/// The clauses of `s` from `from` on; none if what is there is malformed: a
/// quote that is not closed, a phrase with a `*` in it, or a word with a `*`
/// inside it.
pub open spec fn clauses_from(s: Seq<char>, from: int) -> Option<Seq<ClauseView>>
    decreases s.len() - from,
{
    if from < 0 || from >= s.len() {
        Some(Seq::empty())
    } else if is_space(s[from]) {
        clauses_from(s, from + 1)
    } else if s[from] == '"' {
        let close = next_stop(s, from + 1, Stop::Quote);
        proof {
            lemma_next_stop(s, from + 1, Stop::Quote);
        }
        if close >= s.len() {
            None
        } else {
            followed(phrase_of(s.subrange(from + 1, close)), clauses_from(s, close + 1))
        }
    } else {
        let end = next_stop(s, from + 1, Stop::WordEnd);
        proof {
            lemma_next_stop(s, from + 1, Stop::WordEnd);
        }
        followed(term_of(s.subrange(from, end)), clauses_from(s, end))
    }
}

/// What a query compiles to: its clauses, or the error `Query` if it is
/// malformed.
pub open spec fn compiled(query: Seq<char>) -> Result<Seq<ClauseView>, SearchError> {
    match clauses_from(query, 0) {
        Some(clauses) => Ok(clauses),
        None => Err(SearchError::Query),
    }
}

/// The view of what compiling gave.
pub open spec fn compiled_view(r: Result<Vec<Clause>, SearchError>) -> Result<
    Seq<ClauseView>,
    SearchError,
> {
    match r {
        Ok(clauses) => Ok(views(clauses@)),
        Err(e) => Err(e),
    }
}

/// Compiles a query.
pub fn compile_query(query: &str) -> (r: Result<Vec<Clause>, SearchError>)
    ensures
        compiled_view(r) == compiled(query@),
{
    let chars = to_chars(query);
    let mut clauses: Vec<Clause> = Vec::new();
    let mut i: usize = 0;
    assert(views(clauses@) + clauses_from(chars@, 0)->0 =~= clauses_from(chars@, 0)->0);
    while i < chars.len()
        invariant
            i <= chars.len(),
            chars@ == query@,
            prepended(views(clauses@), clauses_from(chars@, i as int)) == clauses_from(chars@, 0),
        decreases chars.len() - i,
    {
        let ghost before = views(clauses@);
        if is_whitespace(chars[i]) {
            i = i + 1;
        } else if chars[i] == '"' {
            let close = find_stop(&chars, i + 1, Stop::Quote);
            if close >= chars.len() {
                return Err(SearchError::Query);
            }
            if holds_char(&chars, i + 1, close, '*') {
                return Err(SearchError::Query);
            }
            let inner = crate::search::compile::copy_range(&chars, i + 1, close);
            let phrase = Clause::Phrase { words: split_words(&inner) };
            assert(Some(phrase@) == phrase_of(chars@.subrange(i + 1, close as int)));
            clauses.push(phrase);
            proof {
                assert(views(clauses@) =~= before.push(phrase@));
                let rest = clauses_from(chars@, close + 1);
                if rest is Some {
                    assert(before.push(phrase@) + rest->0 =~= before + (seq![phrase@] + rest->0));
                }
            }
            i = close + 1;
        } else {
            let end = find_stop(&chars, i + 1, Stop::WordEnd);
            match make_term(&chars, i, end) {
                None => {
                    return Err(SearchError::Query);
                },
                Some(term) => {
                    clauses.push(term);
                    proof {
                        assert(views(clauses@) =~= before.push(term@));
                        let rest = clauses_from(chars@, end as int);
                        if rest is Some {
                            assert(before.push(term@) + rest->0 =~= before + (seq![term@]
                                + rest->0));
                        }
                    }
                    i = end;
                },
            }
        }
    }
    assert(views(clauses@) + Seq::<ClauseView>::empty() =~= views(clauses@));
    Ok(clauses)
}

/// A copy of the characters of `chars` from `from` up to, not including,
/// `to`.
pub fn copy_range(chars: &Vec<char>, from: usize, to: usize) -> (part: Vec<char>)
    requires
        from <= to <= chars.len(),
    ensures
        part@ == chars@.subrange(from as int, to as int),
{
    let mut part: Vec<char> = Vec::new();
    let mut i: usize = from;
    while i < to
        invariant
            from <= i <= to <= chars.len(),
            part@ == chars@.subrange(from as int, i as int),
        decreases to - i,
    {
        part.push(chars[i]);
        assert(part@ =~= chars@.subrange(from as int, i as int + 1));
        i = i + 1;
    }
    part
}

/// How a clause matches.
pub open spec fn clause_match_type(clause: ClauseView) -> MatchType {
    match clause {
        ClauseView::Term { kind: TermKind::Exact, .. } => MatchType::Exact,
        ClauseView::Term { kind: TermKind::Prefix, .. } => MatchType::Prefix,
        ClauseView::Term { .. } => MatchType::Substring,
        ClauseView::Phrase { .. } => MatchType::Exact,
    }
}

/// The looser of two ways to match: `Substring` before `Prefix` before
/// anything else.
pub open spec fn looser(a: MatchType, b: MatchType) -> MatchType {
    if a == MatchType::Substring || b == MatchType::Substring {
        MatchType::Substring
    } else if a == MatchType::Prefix || b == MatchType::Prefix {
        MatchType::Prefix
    } else {
        MatchType::Exact
    }
}

/// How the hits of a query match: as its loosest clause does. `Exact` if no
/// clause has a wildcard, else `Substring` if a clause has one at its front,
/// else `Prefix`.
pub open spec fn dominant(clauses: Seq<ClauseView>) -> MatchType
    decreases clauses.len(),
{
    if clauses.len() == 0 {
        MatchType::Exact
    } else {
        looser(dominant(clauses.drop_last()), clause_match_type(clauses.last()))
    }
}

/// How the hits of a query match.
pub fn dominant_match_type(clauses: &Vec<Clause>) -> (match_type: MatchType)
    ensures
        match_type == dominant(views(clauses@)),
{
    let mut found = MatchType::Exact;
    let mut i: usize = 0;
    while i < clauses.len()
        invariant
            i <= clauses.len(),
            found == dominant(views(clauses@).take(i as int)),
        decreases clauses.len() - i,
    {
        proof {
            assert(views(clauses@).take(i as int + 1).drop_last() =~= views(clauses@).take(
                i as int,
            ));
        }
        let this = match &clauses[i] {
            Clause::Term { kind: TermKind::Exact, .. } => MatchType::Exact,
            Clause::Term { kind: TermKind::Prefix, .. } => MatchType::Prefix,
            Clause::Term { .. } => MatchType::Substring,
            Clause::Phrase { .. } => MatchType::Exact,
        };
        found = match (found, this) {
            (MatchType::Substring, _) => MatchType::Substring,
            (_, MatchType::Substring) => MatchType::Substring,
            (MatchType::Prefix, _) => MatchType::Prefix,
            (_, MatchType::Prefix) => MatchType::Prefix,
            _ => MatchType::Exact,
        };
        i = i + 1;
    }
    assert(views(clauses@).take(clauses.len() as int) =~= views(clauses@));
    found
}

/// The loosest of a clause and the clauses after it is the looser of the
/// two.
proof fn lemma_dominant_prepend(first: ClauseView, rest: Seq<ClauseView>)
    ensures
        dominant(seq![first] + rest) == looser(clause_match_type(first), dominant(rest)),
    decreases rest.len(),
{
    let all = seq![first] + rest;
    if rest.len() == 0 {
        assert(all.drop_last() =~= Seq::<ClauseView>::empty());
        assert(dominant(all.drop_last()) == MatchType::Exact);
    } else {
        lemma_dominant_prepend(first, rest.drop_last());
        assert(all.drop_last() =~= seq![first] + rest.drop_last());
        assert(all.last() == rest.last());
    }
}

/// A word stands for a term that matches exactly if and only if it has no
/// `*` in it.
proof fn lemma_term_exact_iff_no_star(word: Seq<char>)
    requires
        term_of(word) is Some,
    ensures
        clause_match_type(term_of(word)->0) == MatchType::Exact <==> !word.contains('*'),
{
    let leading = word.len() > 0 && word[0] == '*';
    let rest = if leading {
        word.drop_first()
    } else {
        word
    };
    let trailing = rest.len() > 0 && rest.last() == '*';
    let text = if trailing {
        rest.drop_last()
    } else {
        rest
    };
    if leading {
        assert(word.contains('*'));
    } else if trailing {
        assert(word[word.len() - 1] == '*');
        assert(word.contains('*'));
    } else {
        assert(text == word);
    }
}

/// Among the clauses of a well-formed query there is one with a wildcard if
/// and only if there is a `*` in the query.
proof fn lemma_exact_from(s: Seq<char>, from: int)
    requires
        0 <= from <= s.len(),
        clauses_from(s, from) is Some,
    ensures
        dominant(clauses_from(s, from)->0) == MatchType::Exact <==> (forall|j: int|
            from <= j < s.len() ==> #[trigger] s[j] != '*'),
    decreases s.len() - from,
{
    if from >= s.len() {
    } else if is_space(s[from]) {
        lemma_exact_from(s, from + 1);
        assert(s[from] != '*');
    } else if s[from] == '"' {
        let close = next_stop(s, from + 1, Stop::Quote);
        lemma_next_stop(s, from + 1, Stop::Quote);
        let inner = s.subrange(from + 1, close);
        let phrase = phrase_of(inner)->0;
        let rest = clauses_from(s, close + 1)->0;
        lemma_exact_from(s, close + 1);
        lemma_dominant_prepend(phrase, rest);
        lemma_dominant_is_one_of_three(rest);
        assert forall|j: int| from <= j <= close implies #[trigger] s[j] != '*' by {
            if from < j < close {
                assert(inner[j - from - 1] == s[j]);
            }
        }
    } else {
        let end = next_stop(s, from + 1, Stop::WordEnd);
        lemma_next_stop(s, from + 1, Stop::WordEnd);
        let word = s.subrange(from, end);
        let term = term_of(word)->0;
        let rest = clauses_from(s, end)->0;
        lemma_exact_from(s, end);
        lemma_dominant_prepend(term, rest);
        lemma_dominant_is_one_of_three(rest);
        lemma_term_exact_iff_no_star(word);
        if word.contains('*') {
            let k = choose|k: int| 0 <= k < word.len() && word[k] == '*';
            assert(s[from + k] == '*');
        } else {
            assert forall|j: int| from <= j < end implies #[trigger] s[j] != '*' by {
                assert(word[j - from] == s[j]);
            }
        }
    }
}

/// The hits of a query match as `Exact`, `Prefix` or `Substring`.
pub proof fn lemma_dominant_is_one_of_three(clauses: Seq<ClauseView>)
    ensures
        dominant(clauses) == MatchType::Exact || dominant(clauses) == MatchType::Prefix
            || dominant(clauses) == MatchType::Substring,
    decreases clauses.len(),
{
    if clauses.len() > 0 {
        lemma_dominant_is_one_of_three(clauses.drop_last());
    }
}

/// The hits of a well-formed query match as `Exact` if and only if the query
/// has no wildcard in it.
pub proof fn lemma_exact_iff_no_wildcard(query: Seq<char>)
    requires
        compiled(query) is Ok,
    ensures
        dominant(compiled(query)->Ok_0) == MatchType::Exact <==> !query.contains('*'),
{
    lemma_exact_from(query, 0);
    if query.contains('*') {
        let k = choose|k: int| 0 <= k < query.len() && query[k] == '*';
        assert(query[k] == '*');
    }
}

/// A word with a `*` before and a `*` after it compiles to one term: the
/// word, to be found in any part of a word.
pub proof fn lemma_word_between_stars(word: Seq<char>)
    requires
        forall|i: int|
            0 <= i < word.len() ==> !Stop::WordEnd.at(#[trigger] word[i]) && word[i] != '*',
    ensures
        compiled(seq!['*'] + word + seq!['*']) == Ok::<Seq<ClauseView>, SearchError>(
            seq![ClauseView::Term { text: word, kind: TermKind::Substring }],
        ),
{
    let s = seq!['*'] + word + seq!['*'];
    let n = s.len() as int;
    assert(s[0] == '*' && s[n - 1] == '*');
    assert forall|j: int| 0 <= j < n implies !Stop::WordEnd.at(#[trigger] s[j]) by {
        if 0 < j < n - 1 {
            assert(s[j] == word[j - 1]);
        }
    }
    lemma_next_stop(s, 1, Stop::WordEnd);
    assert(next_stop(s, 1, Stop::WordEnd) == n);
    assert(s.subrange(0, n) =~= s);
    assert(s.drop_first() =~= word + seq!['*']);
    assert(s.drop_first().drop_last() =~= word);
    assert(!word.contains('*'));
    assert(term_of(s) == Some(ClauseView::Term { text: word, kind: TermKind::Substring }));
    assert(clauses_from(s, n) == Some(Seq::<ClauseView>::empty()));
    assert(seq![ClauseView::Term { text: word, kind: TermKind::Substring }] + Seq::<
        ClauseView,
    >::empty() =~= seq![ClauseView::Term { text: word, kind: TermKind::Substring }]);
}

} // verus!
