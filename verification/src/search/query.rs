//! Queries and their results.
//!
//! The full-text index is not part of this module: it is handed in as a
//! function from a compiled query to the messages that match it. What is
//! decided here is how a query is read, which of the matches pass the
//! filters, in what order and how many are shown, how they are labelled, and
//! when a query is tried again with wildcards round it.

use crate::model::types::{MessageRole, Snippet};
use crate::search::compile::{
    compile_query, compiled, dominant, dominant_match_type, lemma_dominant_is_one_of_three, Clause,
    ClauseView,
};
use crate::search::highlight::{highlight, highlights};
use crate::seqs::views;
use crate::text::{has_char, opt_text, same_opt_text};
use vstd::prelude::*;

verus! {

/// How a hit came to match.
#[derive(Clone, Copy, Debug, PartialEq, Eq, Structural)]
pub enum MatchType {
    /// The query had no wildcard.
    Exact,
    /// The query asked for words that begin with a term.
    Prefix,
    /// The query asked for words that hold a term.
    Substring,
    /// The query had no wildcard and was tried again with wildcards round
    /// it.
    ImplicitWildcard,
    /// Kept for approximate matching; nothing gives it.
    Fuzzy,
}

/// Why a search failed.
#[derive(Clone, Copy, Debug, PartialEq, Eq, Structural)]
pub enum SearchError {
    /// The index could not be read.
    Io,
    /// The query is malformed.
    Query,
    /// The index failed.
    Backend,
}

/// One message that matched a query.
#[derive(Clone, Debug, PartialEq, Eq)]
pub struct Hit {
    pub conversation_id: i64,
    pub message_id: i64,
    pub idx: i64,
    pub agent_slug: String,
    pub workspace_path: Option<String>,
    pub role: MessageRole,
    pub author: Option<String>,
    /// When the conversation of the message started.
    pub started_at: Option<i64>,
    /// The score that the index gave the match, as an integer that orders as
    /// the score does: the greater, the better.
    pub score: i64,
    pub content: String,
    /// The stretches of `content` that matched.
    pub snippets: Vec<Snippet>,
    pub match_type: MatchType,
}

/// What a [`Hit`] holds, as mathematical values.
pub struct HitView {
    pub conversation_id: i64,
    pub message_id: i64,
    pub idx: i64,
    pub agent_slug: Seq<char>,
    pub workspace_path: Option<Seq<char>>,
    pub role: MessageRole,
    pub author: Option<Seq<char>>,
    pub started_at: Option<i64>,
    pub score: i64,
    pub content: Seq<char>,
    pub snippets: Seq<Snippet>,
    pub match_type: MatchType,
}

impl View for Hit {
    type V = HitView;

    open spec fn view(&self) -> HitView {
        HitView {
            conversation_id: self.conversation_id,
            message_id: self.message_id,
            idx: self.idx,
            agent_slug: self.agent_slug@,
            workspace_path: opt_text(self.workspace_path),
            role: self.role,
            author: opt_text(self.author),
            started_at: self.started_at,
            score: self.score,
            content: self.content@,
            snippets: self.snippets@,
            match_type: self.match_type,
        }
    }
}

/// What a search with fallback gives: the hits, and how they came to match.
#[derive(Clone, Debug, PartialEq, Eq)]
pub struct SearchResult {
    pub hits: Vec<Hit>,
    pub match_type: MatchType,
}

/// What a [`SearchResult`] holds, as mathematical values.
pub struct SearchResultView {
    pub hits: Seq<HitView>,
    pub match_type: MatchType,
}

impl View for SearchResult {
    type V = SearchResultView;

    open spec fn view(&self) -> SearchResultView {
        SearchResultView { hits: views(self.hits@), match_type: self.match_type }
    }
}

/// Conditions on the hits of a search. Each one that is set must hold.
#[derive(Clone, Debug, PartialEq, Eq)]
pub struct SearchFilters {
    pub agent_slug: Option<String>,
    pub workspace_path: Option<String>,
    pub role: Option<MessageRole>,
    pub author: Option<String>,
    /// The conversation started at this instant or later.
    pub started_after: Option<i64>,
    /// The conversation started at this instant or earlier.
    pub started_before: Option<i64>,
    pub limit: Option<usize>,
    pub offset: Option<usize>,
}

/// What a [`SearchFilters`] holds, as mathematical values.
pub struct SearchFiltersView {
    pub agent_slug: Option<Seq<char>>,
    pub workspace_path: Option<Seq<char>>,
    pub role: Option<MessageRole>,
    pub author: Option<Seq<char>>,
    pub started_after: Option<i64>,
    pub started_before: Option<i64>,
    pub limit: Option<usize>,
    pub offset: Option<usize>,
}

impl View for SearchFilters {
    type V = SearchFiltersView;

    open spec fn view(&self) -> SearchFiltersView {
        SearchFiltersView {
            agent_slug: opt_text(self.agent_slug),
            workspace_path: opt_text(self.workspace_path),
            role: self.role,
            author: opt_text(self.author),
            started_after: self.started_after,
            started_before: self.started_before,
            limit: self.limit,
            offset: self.offset,
        }
    }
}

impl SearchFiltersView {
    /// The filters with no condition set.
    pub open spec fn none() -> SearchFiltersView {
        SearchFiltersView {
            agent_slug: None,
            workspace_path: None,
            role: None,
            author: None,
            started_after: None,
            started_before: None,
            limit: None,
            offset: None,
        }
    }

    /// Whether a hit meets every condition that is set. A condition on the
    /// workspace or the author is not met by a hit that has none; a
    /// condition on the start is not met by a hit whose conversation has no
    /// start.
    pub open spec fn accepts(self, hit: HitView) -> bool {
        &&& self.agent_slug matches Some(slug) ==> hit.agent_slug == slug
        &&& self.workspace_path matches Some(path) ==> hit.workspace_path == Some(path)
        &&& self.role matches Some(role) ==> hit.role == role
        &&& self.author matches Some(author) ==> hit.author == Some(author)
        &&& self.started_after matches Some(limit) ==> (hit.started_at matches Some(at) && at
            >= limit)
        &&& self.started_before matches Some(limit) ==> (hit.started_at matches Some(at) && at
            <= limit)
    }
}

impl Default for SearchFilters {
    fn default() -> (filters: SearchFilters)
        ensures
            filters@ == SearchFiltersView::none(),
    {
        SearchFilters {
            agent_slug: None,
            workspace_path: None,
            role: None,
            author: None,
            started_after: None,
            started_before: None,
            limit: None,
            offset: None,
        }
    }
}

/// `filters` with the condition added that the agent is `agent`; `None` if
/// they ask for another agent, so that no hit can meet both. Without an
/// `agent` the filters are as given.
pub open spec fn bound_to(filters: SearchFiltersView, agent: Option<Seq<char>>) -> Option<
    SearchFiltersView,
> {
    match (agent, filters.agent_slug) {
        (Some(mine), Some(asked)) => if mine == asked {
            Some(filters)
        } else {
            None
        },
        (Some(mine), None) => Some(SearchFiltersView { agent_slug: Some(mine), ..filters }),
        (None, _) => Some(filters),
    }
}

impl SearchFilters {
    /// The filters with the condition added that the agent is `agent`;
    /// `None` if they ask for another agent.
    pub fn bind_agent(self, agent: &Option<String>) -> (bound: Option<SearchFilters>)
        ensures
            match bound {
                Some(f) => bound_to(self@, opt_text(*agent)) == Some(f@),
                None => bound_to(self@, opt_text(*agent)) is None,
            },
    {
        match agent {
            None => Some(self),
            Some(mine) => {
                let same = match &self.agent_slug {
                    Some(asked) => *asked == *mine,
                    None => true,
                };
                if !same {
                    return None;
                }
                Some(
                    SearchFilters {
                        agent_slug: Some(mine.clone()),
                        workspace_path: self.workspace_path,
                        role: self.role,
                        author: self.author,
                        started_after: self.started_after,
                        started_before: self.started_before,
                        limit: self.limit,
                        offset: self.offset,
                    },
                )
            },
        }
    }

    /// Whether a hit meets every condition that is set.
    pub fn accepts(&self, hit: &Hit) -> (b: bool)
        ensures
            b == self@.accepts(hit@),
    {
        let agent = match &self.agent_slug {
            Some(slug) => hit.agent_slug == *slug,
            None => true,
        };
        let workspace = match &self.workspace_path {
            Some(_) => same_opt_text(&hit.workspace_path, &self.workspace_path),
            None => true,
        };
        let role = match self.role {
            Some(role) => hit.role == role,
            None => true,
        };
        let author = match &self.author {
            Some(_) => same_opt_text(&hit.author, &self.author),
            None => true,
        };
        let after = match (self.started_after, hit.started_at) {
            (Some(limit), Some(at)) => at >= limit,
            (Some(_), None) => false,
            (None, _) => true,
        };
        let before = match (self.started_before, hit.started_at) {
            (Some(limit), Some(at)) => at <= limit,
            (Some(_), None) => false,
            (None, _) => true,
        };
        agent && workspace && role && author && after && before
    }
}

/// Whether a query has a wildcard in it: the character `*`.
pub open spec fn has_wildcard(query: Seq<char>) -> bool {
    query.contains('*')
}

/// Whether a query has a wildcard in it.
pub fn contains_wildcard(query: &str) -> (b: bool)
    ensures
        b == has_wildcard(query@),
{
    has_char(query, '*')
}

/// The query that the fallback tries: `query` with a `*` before and a `*`
/// after it.
pub open spec fn wildcard_rewrite(query: Seq<char>) -> Seq<char> {
    seq!['*'] + query + seq!['*']
}

/// The query that the fallback tries.
pub fn implicit_wildcard_query(query: &str) -> (rewritten: String)
    ensures
        rewritten@ == wildcard_rewrite(query@),
{
    proof {
        reveal_strlit("*");
        assert("*"@ =~= seq!['*']);
    }
    String::from_str("*").concat(query).concat("*")
}

/// Whether a search that gave `found` hits for `query` is tried again with
/// wildcards: it is if the query has no wildcard and the hits are fewer
/// than `sparse_threshold`.
pub open spec fn wants_fallback(query: Seq<char>, found: nat, sparse_threshold: nat) -> bool {
    !has_wildcard(query) && found < sparse_threshold
}

/// Whether a search that gave `found` hits for `query` is tried again with
/// wildcards.
pub fn should_fall_back(query: &str, found: usize, sparse_threshold: usize) -> (b: bool)
    ensures
        b == wants_fallback(query@, found as nat, sparse_threshold as nat),
{
    found < sparse_threshold && !contains_wildcard(query)
}

/// `hit` labelled with `match_type`.
pub open spec fn labelled(hit: HitView, match_type: MatchType) -> HitView {
    HitView { match_type, ..hit }
}

/// `hits`, each labelled with `match_type`.
pub open spec fn all_labelled(hits: Seq<HitView>, match_type: MatchType) -> Seq<HitView> {
    Seq::new(hits.len(), |i: int| labelled(hits[i], match_type))
}

/// Labels each of `hits` with `match_type`.
pub fn label_hits(hits: &mut Vec<Hit>, match_type: MatchType)
    ensures
        views(final(hits)@) == all_labelled(views(old(hits)@), match_type),
{
    let ghost before = views(hits@);
    let mut i: usize = 0;
    while i < hits.len()
        invariant
            i <= hits.len(),
            hits.len() == before.len(),
            forall|j: int| 0 <= j < i ==> (#[trigger] views(hits@)[j]) == labelled(
                before[j],
                match_type,
            ),
            forall|j: int| i <= j < hits.len() ==> (#[trigger] views(hits@)[j]) == before[j],
        decreases hits.len() - i,
    {
        let ghost now = views(hits@);
        hits[i].match_type = match_type;
        proof {
            assert forall|j: int| 0 <= j < hits.len() && j != i implies (#[trigger] views(
                hits@,
            )[j]) == now[j] by {}
            assert(views(hits@)[i as int] == labelled(now[i as int], match_type));
        }
        i = i + 1;
    }
    assert(views(hits@) =~= all_labelled(before, match_type));
}

/// The hits that are shown of `hits`: at most `limit` of them, after the
/// first `offset`.
pub open spec fn page(hits: Seq<HitView>, limit: nat, offset: nat) -> Seq<HitView> {
    let from = if offset <= hits.len() {
        offset
    } else {
        hits.len()
    };
    let to = if from + limit <= hits.len() {
        from + limit
    } else {
        hits.len()
    };
    hits.subrange(from as int, to as int)
}

/// The hits that are shown of `hits`.
pub fn paginate(hits: Vec<Hit>, limit: usize, offset: usize) -> (shown: Vec<Hit>)
    ensures
        views(shown@) == page(views(hits@), limit as nat, offset as nat),
{
    let ghost all = views(hits@);
    let mut hits = hits;
    let n = hits.len();
    let from = if offset <= n {
        offset
    } else {
        n
    };
    let to = if limit <= n - from {
        from + limit
    } else {
        n
    };
    hits.truncate(to);
    let shown = hits.split_off(from);
    assert(views(shown@) =~= all.subrange(from as int, to as int));
    shown
}

/// The hits that meet the conditions of `filters`, in their order.
pub open spec fn accepted(hits: Seq<HitView>, filters: SearchFiltersView) -> Seq<HitView>
    decreases hits.len(),
{
    if hits.len() == 0 {
        Seq::empty()
    } else {
        let before = accepted(hits.drop_last(), filters);
        if filters.accepts(hits.last()) {
            before.push(hits.last())
        } else {
            before
        }
    }
}

/// Whether `a` is shown before `b`: it has the greater score; or the same
/// score and the later start (a hit without a start counts as earlier than
/// any); or the same of both and the lesser `idx`.
pub open spec fn outranks(a: HitView, b: HitView) -> bool {
    if a.score != b.score {
        a.score > b.score
    } else if a.started_at != b.started_at {
        match (a.started_at, b.started_at) {
            (Some(x), Some(y)) => x > y,
            (Some(_), None) => true,
            _ => false,
        }
    } else {
        a.idx < b.idx
    }
}

/// `sorted` with `hit` put in: after every hit that it does not outrank.
pub open spec fn inserted(sorted: Seq<HitView>, hit: HitView) -> Seq<HitView>
    decreases sorted.len(),
{
    if sorted.len() > 0 && outranks(hit, sorted.last()) {
        inserted(sorted.drop_last(), hit).push(sorted.last())
    } else {
        sorted.push(hit)
    }
}

/// `hits` in the order in which they are shown: the better score first;
/// among equal scores the later start first; among those the lesser `idx`
/// first; and hits that are equal in all three in the order given.
pub open spec fn ranked(hits: Seq<HitView>) -> Seq<HitView>
    decreases hits.len(),
{
    if hits.len() == 0 {
        Seq::empty()
    } else {
        inserted(ranked(hits.drop_last()), hits.last())
    }
}

/// Whether `a` is shown before `b`.
pub fn ranks_before(a: &Hit, b: &Hit) -> (before: bool)
    ensures
        before == outranks(a@, b@),
{
    if a.score != b.score {
        a.score > b.score
    } else {
        match (a.started_at, b.started_at) {
            (Some(x), Some(y)) => if x != y {
                x > y
            } else {
                a.idx < b.idx
            },
            (Some(_), None) => true,
            (None, Some(_)) => false,
            (None, None) => a.idx < b.idx,
        }
    }
}

/// Where `hit` goes in `sorted`: all hits from there on are outranked by it,
/// the one before is not.
proof fn lemma_inserted_at(sorted: Seq<HitView>, hit: HitView, at: int)
    requires
        0 <= at <= sorted.len(),
        forall|j: int| at <= j < sorted.len() ==> outranks(hit, #[trigger] sorted[j]),
        at == 0 || !outranks(hit, sorted[at - 1]),
    ensures
        inserted(sorted, hit) == sorted.insert(at, hit),
    decreases sorted.len() - at,
{
    if at == sorted.len() {
        assert(sorted.insert(at, hit) =~= sorted.push(hit));
    } else {
        let front = sorted.drop_last();
        assert forall|j: int| at <= j < front.len() implies outranks(hit, #[trigger] front[j]) by {
            assert(front[j] == sorted[j]);
        }
        lemma_inserted_at(front, hit, at);
        assert(front.insert(at, hit).push(sorted.last()) =~= sorted.insert(at, hit));
    }
}

/// The hits that meet the conditions of `filters`, in the order in which
/// they are shown.
pub fn filter_and_rank(hits: Vec<Hit>, filters: &SearchFilters) -> (out: Vec<Hit>)
    ensures
        views(out@) == ranked(accepted(views(hits@), filters@)),
{
    let ghost all = views(hits@);
    let mut out: Vec<Hit> = Vec::new();
    assert(views(out@) =~= Seq::<HitView>::empty());
    for hit in it: hits
        invariant
            all == views(it.seq()),
            views(out@) == ranked(accepted(all.take(it.index() as int), filters@)),
    {
        let ghost k = it.index() as int;
        proof {
            assert(all.take(k + 1).drop_last() =~= all.take(k));
            assert(all.take(k + 1).last() == hit@);
        }
        if filters.accepts(&hit) {
            let ghost sorted = views(out@);
            let ghost kept = accepted(all.take(k), filters@);
            let mut at: usize = out.len();
            while at > 0 && ranks_before(&hit, &out[at - 1])
                invariant
                    at <= out.len(),
                    sorted == views(out@),
                    forall|j: int| at <= j < sorted.len() ==> outranks(hit@, #[trigger] sorted[j]),
                decreases at,
            {
                at = at - 1;
            }
            proof {
                lemma_inserted_at(sorted, hit@, at as int);
                assert(kept.push(hit@).drop_last() =~= kept);
            }
            out.insert(at, hit);
            assert(views(out@) =~= sorted.insert(at as int, hit@));
        }
    }
    proof {
        assert(all.take(all.len() as int) =~= all);
    }
    out
}

/// Whether no hit stands before one that outranks it.
pub open spec fn in_order(hits: Seq<HitView>) -> bool {
    forall|i: int, j: int| 0 <= i < j < hits.len() ==> !outranks(hits[j], hits[i])
}

/// Putting a hit in adds it and moves nothing else out: what comes of it is
/// one longer, holds the hit, and holds nothing but the hit and what was
/// there.
proof fn lemma_inserted_holds(sorted: Seq<HitView>, hit: HitView)
    ensures
        inserted(sorted, hit).len() == sorted.len() + 1,
        inserted(sorted, hit).to_multiset() == sorted.to_multiset().insert(hit),
        forall|i: int|
            0 <= i < inserted(sorted, hit).len() ==> (#[trigger] inserted(sorted, hit)[i]) == hit
                || sorted.contains(inserted(sorted, hit)[i]),
    decreases sorted.len(),
{
    broadcast use vstd::seq_lib::to_multiset_build;

    if sorted.len() > 0 && outranks(hit, sorted.last()) {
        let front = sorted.drop_last();
        lemma_inserted_holds(front, hit);
        assert(sorted =~= front.push(sorted.last()));
        assert(inserted(sorted, hit).to_multiset() =~= sorted.to_multiset().insert(hit));
        assert forall|i: int| 0 <= i < inserted(sorted, hit).len() implies (#[trigger] inserted(
            sorted,
            hit,
        )[i]) == hit || sorted.contains(inserted(sorted, hit)[i]) by {
            if i < front.len() + 1 {
                let x = inserted(front, hit)[i];
                if x != hit {
                    let j = choose|j: int| 0 <= j < front.len() && front[j] == x;
                    assert(sorted[j] == x);
                }
            } else {
                assert(sorted[sorted.len() - 1] == inserted(sorted, hit)[i]);
            }
        }
    } else {
        assert forall|i: int| 0 <= i < inserted(sorted, hit).len() implies (#[trigger] inserted(
            sorted,
            hit,
        )[i]) == hit || sorted.contains(inserted(sorted, hit)[i]) by {
            if i < sorted.len() {
                assert(sorted[i] == inserted(sorted, hit)[i]);
            }
        }
    }
}

/// Putting a hit into hits that are in order leaves them in order.
proof fn lemma_inserted_in_order(sorted: Seq<HitView>, hit: HitView)
    requires
        in_order(sorted),
    ensures
        in_order(inserted(sorted, hit)),
    decreases sorted.len(),
{
    let out = inserted(sorted, hit);
    if sorted.len() > 0 && outranks(hit, sorted.last()) {
        let front = sorted.drop_last();
        assert forall|i: int, j: int| 0 <= i < j < front.len() implies !outranks(
            front[j],
            front[i],
        ) by {
            assert(!outranks(sorted[j], sorted[i]));
        }
        lemma_inserted_in_order(front, hit);
        lemma_inserted_holds(front, hit);
        assert forall|i: int, j: int| 0 <= i < j < out.len() implies !outranks(out[j], out[i]) by {
            if j == out.len() - 1 {
                let x = inserted(front, hit)[i];
                if x != hit {
                    let k = choose|k: int| 0 <= k < front.len() && front[k] == x;
                    assert(!outranks(sorted[sorted.len() - 1], sorted[k]));
                }
            } else {
                assert(!outranks(inserted(front, hit)[j], inserted(front, hit)[i]));
            }
        }
    } else {
        assert forall|i: int, j: int| 0 <= i < j < out.len() implies !outranks(out[j], out[i]) by {
            if j == out.len() - 1 {
                if i < sorted.len() - 1 {
                    assert(!outranks(sorted[sorted.len() - 1], sorted[i]));
                }
            } else {
                assert(!outranks(sorted[j], sorted[i]));
            }
        }
    }
}

/// Ranked hits are in order, and they are the hits given: each as often as
/// it was given.
pub proof fn lemma_ranked(hits: Seq<HitView>)
    ensures
        in_order(ranked(hits)),
        ranked(hits).to_multiset() == hits.to_multiset(),
        ranked(hits).len() == hits.len(),
    decreases hits.len(),
{
    broadcast use vstd::seq_lib::to_multiset_build;

    if hits.len() > 0 {
        let front = hits.drop_last();
        lemma_ranked(front);
        lemma_inserted_in_order(ranked(front), hits.last());
        lemma_inserted_holds(ranked(front), hits.last());
        assert(hits =~= front.push(hits.last()));
    } else {
        assert(ranked(hits) =~= hits);
    }
}

/// The number of hits shown at most: the limit of the filters if they set
/// one, else the limit asked for.
pub open spec fn limit_in_force(filters: SearchFiltersView, limit: usize) -> usize {
    match filters.limit {
        Some(l) => l,
        None => limit,
    }
}

/// The number of hits passed over: the offset of the filters if they set
/// one, else the offset asked for.
pub open spec fn offset_in_force(filters: SearchFiltersView, offset: usize) -> usize {
    match filters.offset {
        Some(o) => o,
        None => offset,
    }
}

/// What is shown of the messages `found` that match a query: those that
/// meet the conditions of `filters`, ranked, labelled with `match_type`, and
/// of them the page asked for.
pub open spec fn shown(
    found: Seq<HitView>,
    match_type: MatchType,
    filters: SearchFiltersView,
    limit: usize,
    offset: usize,
) -> Seq<HitView> {
    page(
        all_labelled(ranked(accepted(found, filters)), match_type),
        limit_in_force(filters, limit) as nat,
        offset_in_force(filters, offset) as nat,
    )
}

/// What is shown of the messages `found` that match a query.
pub fn present(
    found: Vec<Hit>,
    match_type: MatchType,
    filters: &SearchFilters,
    limit: usize,
    offset: usize,
) -> (hits: Vec<Hit>)
    ensures
        views(hits@) == shown(views(found@), match_type, filters@, limit, offset),
{
    let mut kept = filter_and_rank(found, filters);
    label_hits(&mut kept, match_type);
    let limit = match filters.limit {
        Some(l) => l,
        None => limit,
    };
    let offset = match filters.offset {
        Some(o) => o,
        None => offset,
    };
    paginate(kept, limit, offset)
}

/// `hits`, each with the stretches of its text at which a word of `clauses`
/// stands.
pub open spec fn highlighted(hits: Seq<HitView>, clauses: Seq<ClauseView>) -> Seq<HitView> {
    Seq::new(
        hits.len(),
        |i: int| HitView { snippets: highlights(hits[i].content, clauses), ..hits[i] },
    )
}

/// Marks in each of `hits` the stretches of its text at which a word of
/// `clauses` stands.
pub fn highlight_hits(hits: &mut Vec<Hit>, clauses: &Vec<Clause>)
    ensures
        views(final(hits)@) == highlighted(views(old(hits)@), views(clauses@)),
{
    let ghost before = views(hits@);
    let mut i: usize = 0;
    while i < hits.len()
        invariant
            i <= hits.len(),
            hits.len() == before.len(),
            forall|j: int|
                0 <= j < i ==> (#[trigger] views(hits@)[j]) == (HitView {
                    snippets: highlights(before[j].content, views(clauses@)),
                    ..before[j]
                }),
            forall|j: int| i <= j < hits.len() ==> (#[trigger] views(hits@)[j]) == before[j],
        decreases hits.len() - i,
    {
        let ghost now = views(hits@);
        let found = highlight(hits[i].content.as_str(), clauses);
        hits[i].snippets = found;
        proof {
            assert forall|j: int| 0 <= j < hits.len() && j != i implies (#[trigger] views(
                hits@,
            )[j]) == now[j] by {}
            assert(now[i as int] == before[i as int]);
            assert(views(hits@)[i as int] == (HitView {
                snippets: highlights(before[i as int].content, views(clauses@)),
                ..before[i as int]
            }));
        }
        i = i + 1;
    }
    assert(views(hits@) =~= highlighted(before, views(clauses@)));
}

/// The views of what a search gave.
pub open spec fn hits_view(r: Result<Vec<Hit>, SearchError>) -> Result<Seq<HitView>, SearchError> {
    match r {
        Ok(hits) => Ok(views(hits@)),
        Err(e) => Err(e),
    }
}

/// What a search gives when the index answers `answer` to the compiled
/// query: the error of the index, or what is shown of the messages it
/// found, each with the stretches marked at which the query matched.
pub open spec fn search_outcome(
    clauses: Seq<ClauseView>,
    answer: Result<Seq<HitView>, SearchError>,
    filters: SearchFiltersView,
    limit: usize,
    offset: usize,
) -> Result<Seq<HitView>, SearchError> {
    match answer {
        Ok(found) => Ok(
            highlighted(shown(found, dominant(clauses), filters, limit, offset), clauses),
        ),
        Err(e) => Err(e),
    }
}

/// Whether `outcome` is what a search for `query` may give with the index
/// `backend`: the error `Query` if the query is malformed; else what comes
/// of some answer that the index may give to the compiled query.
pub open spec fn is_search_outcome<F: Fn(&Vec<Clause>) -> Result<Vec<Hit>, SearchError>>(
    backend: F,
    query: Seq<char>,
    filters: SearchFiltersView,
    limit: usize,
    offset: usize,
    outcome: Result<Seq<HitView>, SearchError>,
) -> bool {
    match compiled(query) {
        Err(e) => outcome == Err::<Seq<HitView>, SearchError>(e),
        Ok(clauses) => exists|asked: Vec<Clause>, answer: Result<Vec<Hit>, SearchError>|
            views(asked@) == clauses && call_ensures(backend, (&asked,), answer) && outcome
                == search_outcome(clauses, hits_view(answer), filters, limit, offset),
    }
}

/// Runs one query as given: compiles it, asks the index, and shows of what
/// the index found the hits that pass the filters, ranked and labelled, on
/// the page asked for.
pub fn search<F: Fn(&Vec<Clause>) -> Result<Vec<Hit>, SearchError>>(
    backend: &F,
    query: &str,
    filters: &SearchFilters,
    limit: usize,
    offset: usize,
) -> (r: Result<Vec<Hit>, SearchError>)
    requires
        forall|clauses: &Vec<Clause>| call_requires(*backend, (clauses,)),
    ensures
        is_search_outcome(*backend, query@, filters@, limit, offset, hits_view(r)),
{
    let clauses = match compile_query(query) {
        Ok(clauses) => clauses,
        Err(e) => {
            return Err(e);
        },
    };
    let match_type = dominant_match_type(&clauses);
    let answer = backend(&clauses);
    let r = match answer {
        Ok(found) => {
            let mut hits = present(found, match_type, filters, limit, offset);
            highlight_hits(&mut hits, &clauses);
            Ok(hits)
        },
        Err(e) => Err(e),
    };
    assert(hits_view(r) == search_outcome(
        views(clauses@),
        hits_view(answer),
        filters@,
        limit,
        offset,
    ));
    r
}

/// How the hits of `query` match when it is run as given; `Exact` for a
/// query that is malformed, which has no hits.
pub open spec fn query_match_type(query: Seq<char>) -> MatchType {
    match compiled(query) {
        Ok(clauses) => dominant(clauses),
        Err(_) => MatchType::Exact,
    }
}

/// What a search with fallback gives, when the query as given found
/// `primary` and the query with wildcards round it finds `wide`.
///
/// If the fallback is wanted and `wide` holds a hit, the result is `wide`,
/// labelled `ImplicitWildcard`. Else it is `primary`, labelled as the query
/// matches.
pub open spec fn fallback_result(
    query: Seq<char>,
    primary: Seq<HitView>,
    sparse_threshold: nat,
    wide: Seq<HitView>,
) -> SearchResultView {
    if wants_fallback(query, primary.len(), sparse_threshold) && wide.len() >= 1 {
        SearchResultView {
            hits: all_labelled(wide, MatchType::ImplicitWildcard),
            match_type: MatchType::ImplicitWildcard,
        }
    } else {
        SearchResultView { hits: primary, match_type: query_match_type(query) }
    }
}

/// The result of a search with fallback, from what the two queries found.
/// `wide` is looked at only if the fallback is wanted.
pub fn settle(query: &str, primary: Vec<Hit>, sparse_threshold: usize, wide: Vec<Hit>) -> (result:
    SearchResult)
    ensures
        result@ == fallback_result(
            query@,
            views(primary@),
            sparse_threshold as nat,
            views(wide@),
        ),
{
    if should_fall_back(query, primary.len(), sparse_threshold) && wide.len() >= 1 {
        let mut hits = wide;
        label_hits(&mut hits, MatchType::ImplicitWildcard);
        SearchResult { hits, match_type: MatchType::ImplicitWildcard }
    } else {
        let match_type = match compile_query(query) {
            Ok(clauses) => dominant_match_type(&clauses),
            Err(_) => MatchType::Exact,
        };
        SearchResult { hits: primary, match_type }
    }
}

/// The view of what a search with fallback gave.
pub open spec fn result_view(r: Result<SearchResult, SearchError>) -> Result<
    SearchResultView,
    SearchError,
> {
    match r {
        Ok(result) => Ok(result@),
        Err(e) => Err(e),
    }
}

/// Whether `outcome` is what a search with fallback for `query` may give
/// with the index `backend`.
///
/// The query is run as given; an error ends the search. If the fallback is
/// not wanted, what was found is the result. If it is, the query is run
/// again with wildcards round it; an error ends the search, and else the
/// result is settled from what the two found.
pub open spec fn is_fallback_outcome<F: Fn(&Vec<Clause>) -> Result<Vec<Hit>, SearchError>>(
    backend: F,
    query: Seq<char>,
    filters: SearchFiltersView,
    limit: usize,
    offset: usize,
    sparse_threshold: usize,
    outcome: Result<SearchResultView, SearchError>,
) -> bool {
    exists|first: Result<Seq<HitView>, SearchError>|
        is_search_outcome(backend, query, filters, limit, offset, first) && match first {
            Err(e) => outcome == Err::<SearchResultView, SearchError>(e),
            Ok(primary) => if wants_fallback(query, primary.len(), sparse_threshold as nat) {
                exists|second: Result<Seq<HitView>, SearchError>|
                    is_search_outcome(
                        backend,
                        wildcard_rewrite(query),
                        filters,
                        limit,
                        offset,
                        second,
                    ) && match second {
                        Err(e) => outcome == Err::<SearchResultView, SearchError>(e),
                        Ok(wide) => outcome == Ok::<SearchResultView, SearchError>(
                            fallback_result(query, primary, sparse_threshold as nat, wide),
                        ),
                    }
            } else {
                outcome == Ok::<SearchResultView, SearchError>(
                    fallback_result(query, primary, sparse_threshold as nat, Seq::empty()),
                )
            },
        }
}

/// Runs a query, and runs it again with wildcards round it if it has none
/// and found fewer than `sparse_threshold` hits. The hits of the second run
/// are the result if there are any, labelled `ImplicitWildcard`; else the
/// hits of the first run are.
pub fn search_with_fallback<F: Fn(&Vec<Clause>) -> Result<Vec<Hit>, SearchError>>(
    backend: &F,
    query: &str,
    filters: &SearchFilters,
    limit: usize,
    offset: usize,
    sparse_threshold: usize,
) -> (r: Result<SearchResult, SearchError>)
    requires
        forall|clauses: &Vec<Clause>| call_requires(*backend, (clauses,)),
    ensures
        is_fallback_outcome(
            *backend,
            query@,
            filters@,
            limit,
            offset,
            sparse_threshold,
            result_view(r),
        ),
{
    let first = search(backend, query, filters, limit, offset);
    let primary = match first {
        Ok(primary) => primary,
        Err(e) => {
            return Err(e);
        },
    };
    if !should_fall_back(query, primary.len(), sparse_threshold) {
        let none: Vec<Hit> = Vec::new();
        assert(views(none@) =~= Seq::<HitView>::empty());
        return Ok(settle(query, primary, sparse_threshold, none));
    }
    let rewritten = implicit_wildcard_query(query);
    let second = search(backend, rewritten.as_str(), filters, limit, offset);
    match second {
        Ok(wide) => Ok(settle(query, primary, sparse_threshold, wide)),
        Err(e) => Err(e),
    }
}

/// A search with fallback gives `ImplicitWildcard` exactly when the query has
/// no wildcard, it found fewer hits than the threshold as given, and it found
/// at least one with wildcards round it.
pub proof fn lemma_implicit_wildcard_iff(
    query: Seq<char>,
    primary: Seq<HitView>,
    sparse_threshold: nat,
    wide: Seq<HitView>,
)
    ensures
        fallback_result(query, primary, sparse_threshold, wide).match_type
            == MatchType::ImplicitWildcard <==> !has_wildcard(query) && primary.len()
            < sparse_threshold && wide.len() >= 1,
        fallback_result(query, primary, sparse_threshold, wide).match_type
            == MatchType::ImplicitWildcard ==> forall|i: int|
            0 <= i < wide.len() ==> (#[trigger] fallback_result(
                query,
                primary,
                sparse_threshold,
                wide,
            ).hits[i]).match_type == MatchType::ImplicitWildcard,
{
    if let Ok(clauses) = compiled(query) {
        lemma_dominant_is_one_of_three(clauses);
    }
}

/// The test "this hit meets the conditions of `filters`".
pub open spec fn meets(filters: SearchFiltersView) -> spec_fn(HitView) -> bool {
    |hit: HitView| filters.accepts(hit)
}

/// The accepted hits are the hits that meet the conditions, all of them and
/// no other, in their order.
pub proof fn lemma_accepted_is_filter(hits: Seq<HitView>, filters: SearchFiltersView)
    ensures
        accepted(hits, filters) == hits.filter(meets(filters)),
    decreases hits.len(),
{
    reveal(Seq::filter);
    if hits.len() > 0 {
        lemma_accepted_is_filter(hits.drop_last(), filters);
    }
}

/// A page holds no more hits than the limit, and they are hits that stand
/// next to each other among those given, from the offset on.
pub proof fn lemma_page(hits: Seq<HitView>, limit: nat, offset: nat)
    ensures
        page(hits, limit, offset).len() <= limit,
        page(hits, limit, offset).len() <= hits.len(),
        forall|i: int|
            0 <= i < page(hits, limit, offset).len() ==> #[trigger] page(hits, limit, offset)[i]
                == hits[offset + i],
        offset + limit <= hits.len() ==> page(hits, limit, offset).len() == limit,
{
}

} // verus!
