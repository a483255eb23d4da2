use coding_agent_search::connectors::{NormalizedConversation, NormalizedMessage};
use coding_agent_search::model::types::{MessageRole, Snippet};
use coding_agent_search::search::compile::{Clause, TermKind};
use coding_agent_search::search::query::{
    implicit_wildcard_query, search, search_with_fallback, settle, should_fall_back, Hit,
    MatchType, SearchError, SearchFilters,
};
use std::cell::RefCell;

/// A small index held in memory: it finds the messages in which every
/// clause of the query matches, word by word.
struct MemoryIndex {
    docs: Vec<Hit>,
    asked: RefCell<Vec<Vec<Clause>>>,
}

fn words_of(content: &str) -> Vec<String> {
    content
        .split(|c: char| !c.is_alphanumeric())
        .filter(|w| !w.is_empty())
        .map(|w| w.to_lowercase())
        .collect()
}

fn clause_matches(clause: &Clause, words: &[String]) -> bool {
    match clause {
        Clause::Term { text, kind } => {
            let text = text.to_lowercase();
            words.iter().any(|w| match kind {
                TermKind::Exact => *w == text,
                TermKind::Prefix => w.starts_with(&text),
                TermKind::Suffix => w.ends_with(&text),
                TermKind::Substring => w.contains(&text),
            })
        }
        Clause::Phrase { words: wanted } => {
            let wanted: Vec<String> = wanted.iter().map(|w| w.to_lowercase()).collect();
            wanted.is_empty() || words.windows(wanted.len()).any(|run| run == wanted.as_slice())
        }
    }
}

impl MemoryIndex {
    fn new() -> Self {
        MemoryIndex { docs: Vec::new(), asked: RefCell::new(Vec::new()) }
    }

    fn add_conversation(&mut self, conv: &NormalizedConversation) {
        let conversation_id = self.docs.len() as i64 + 1;
        for m in &conv.messages {
            self.docs.push(Hit {
                conversation_id,
                message_id: self.docs.len() as i64 + 1,
                idx: m.idx,
                agent_slug: conv.agent_slug.clone(),
                workspace_path: conv.workspace.clone(),
                role: MessageRole::parse(&m.role).unwrap(),
                author: m.author.clone(),
                started_at: conv.started_at,
                score: 0,
                content: m.content.clone(),
                snippets: vec![],
                match_type: MatchType::Exact,
            });
        }
    }

    fn find(&self, clauses: &Vec<Clause>) -> Result<Vec<Hit>, SearchError> {
        self.asked.borrow_mut().push(clauses.clone());
        Ok(self
            .docs
            .iter()
            .filter(|d| {
                let words = words_of(&d.content);
                clauses.iter().all(|c| clause_matches(c, &words))
            })
            .cloned()
            .collect())
    }
}

fn conversation(title: &str, content: &str) -> NormalizedConversation {
    NormalizedConversation {
        agent_slug: "tester".into(),
        external_id: None,
        title: Some(title.into()),
        workspace: Some("/tmp".into()),
        source_path: "/tmp/log.jsonl".into(),
        started_at: Some(1000),
        ended_at: None,
        metadata: vec![],
        messages: vec![NormalizedMessage {
            idx: 0,
            role: "user".into(),
            author: None,
            created_at: Some(1000),
            content: content.into(),
            extra: "{}".into(),
            snippets: vec![],
        }],
    }
}

#[test]
fn implicit_wildcard_fallback_finds_substrings() {
    let mut index = MemoryIndex::new();

    // Seed index with "apple"
    let conv = conversation("fruit test", "I like eating an apple everyday");
    index.add_conversation(&conv);

    let backend = |clauses: &Vec<Clause>| index.find(clauses);
    let filters = SearchFilters::default();

    // 1. Search "pple" (substring).
    // Exact match "pple" -> 0 hits.
    // Fallback to "*pple*" -> should find "apple".
    // We use sparse_threshold=1 to force fallback if < 1 result.
    let result = search_with_fallback(&backend, "pple", &filters, 10, 0, 1).unwrap();
    let hits = result.hits;

    assert_eq!(hits.len(), 1, "Should find 'apple' via fallback for 'pple'");
    assert_eq!(
        hits[0].match_type,
        MatchType::ImplicitWildcard,
        "Match type should be ImplicitWildcard"
    );
    assert_eq!(result.match_type, MatchType::ImplicitWildcard);
    // The stretch that matched is marked: "pple" in "apple".
    assert_eq!(hits[0].snippets, vec![Snippet { start: 18, end: 22 }]);
    // The index was asked twice: for the word, then for the word with wildcards.
    assert_eq!(
        *index.asked.borrow(),
        vec![
            vec![Clause::Term { text: "pple".into(), kind: TermKind::Exact }],
            vec![Clause::Term { text: "pple".into(), kind: TermKind::Substring }],
        ]
    );
}

#[test]
fn explicit_wildcard_works_without_fallback() {
    let mut index = MemoryIndex::new();

    let conv = conversation("wild test", "config_file_v2.json");
    index.add_conversation(&conv);

    let backend = |clauses: &Vec<Clause>| index.find(clauses);
    let filters = SearchFilters::default();

    // Search "*fig*" -> explicit wildcard
    let hits = search(&backend, "*fig*", &filters, 10, 0).unwrap();
    assert_eq!(hits.len(), 1);
    // Should be Substring because of *x*
    assert_eq!(hits[0].match_type, MatchType::Substring, "Explicit *term* should be Substring");

    // With fallback switched on the index is still asked once only.
    index.asked.borrow_mut().clear();
    let result = search_with_fallback(&backend, "*fig*", &filters, 10, 0, 5).unwrap();
    assert_eq!(result.hits.len(), 1);
    assert_eq!(result.match_type, MatchType::Substring);
    assert_eq!(index.asked.borrow().len(), 1);
}

#[test]
fn fallback_without_hits_keeps_the_primary_result() {
    let mut index = MemoryIndex::new();
    index.add_conversation(&conversation("t", "alpha beta"));
    let backend = |clauses: &Vec<Clause>| index.find(clauses);
    let filters = SearchFilters::default();
    let result = search_with_fallback(&backend, "zzz", &filters, 10, 0, 1).unwrap();
    assert_eq!(result.hits.len(), 0);
    assert_eq!(result.match_type, MatchType::Exact);
    assert_eq!(index.asked.borrow().len(), 2);
}

#[test]
fn enough_hits_means_no_fallback() {
    let mut index = MemoryIndex::new();
    index.add_conversation(&conversation("t", "alpha beta"));
    index.add_conversation(&conversation("t", "alphabet alpha"));
    let backend = |clauses: &Vec<Clause>| index.find(clauses);
    let filters = SearchFilters::default();
    // Two exact hits, threshold two: not sparse.
    let result = search_with_fallback(&backend, "alpha", &filters, 10, 0, 2).unwrap();
    assert_eq!(result.hits.len(), 2);
    assert_eq!(result.match_type, MatchType::Exact);
    assert!(result.hits.iter().all(|h| h.match_type == MatchType::Exact));
    assert_eq!(index.asked.borrow().len(), 1);
    // Threshold three: sparse, and the wider query finds the same two.
    let result = search_with_fallback(&backend, "alpha", &filters, 10, 0, 3).unwrap();
    assert_eq!(result.hits.len(), 2);
    assert_eq!(result.match_type, MatchType::ImplicitWildcard);
    assert!(result.hits.iter().all(|h| h.match_type == MatchType::ImplicitWildcard));
    // Threshold zero: never sparse.
    let result = search_with_fallback(&backend, "nothing", &filters, 10, 0, 0).unwrap();
    assert_eq!(result.match_type, MatchType::Exact);
}

#[test]
fn errors_of_the_index_end_the_search() {
    let failing = |_: &Vec<Clause>| -> Result<Vec<Hit>, SearchError> { Err(SearchError::Backend) };
    let filters = SearchFilters::default();
    assert_eq!(search(&failing, "x", &filters, 10, 0), Err(SearchError::Backend));
    assert_eq!(search_with_fallback(&failing, "x", &filters, 10, 0, 1), Err(SearchError::Backend));
    // The first query succeeds with too few hits, the second fails.
    let calls = RefCell::new(0);
    let second_fails = |_: &Vec<Clause>| -> Result<Vec<Hit>, SearchError> {
        *calls.borrow_mut() += 1;
        if *calls.borrow() == 1 {
            Ok(vec![])
        } else {
            Err(SearchError::Io)
        }
    };
    assert_eq!(search_with_fallback(&second_fails, "x", &filters, 10, 0, 1), Err(SearchError::Io));
    // A malformed query never reaches the index.
    let unreachable = |_: &Vec<Clause>| -> Result<Vec<Hit>, SearchError> { panic!("asked") };
    assert_eq!(search(&unreachable, "a*b", &filters, 10, 0), Err(SearchError::Query));
    assert_eq!(
        search_with_fallback(&unreachable, "\"open", &filters, 10, 0, 1),
        Err(SearchError::Query)
    );
}

#[test]
fn fallback_condition_and_rewrite() {
    assert!(should_fall_back("pple", 0, 1));
    assert!(!should_fall_back("pple", 1, 1));
    assert!(!should_fall_back("pple*", 0, 1));
    assert!(!should_fall_back("a * b", 0, 9));
    assert!(!should_fall_back("pple", 0, 0));
    assert_eq!(implicit_wildcard_query("pple"), "*pple*");
    assert_eq!(implicit_wildcard_query(""), "**");
    assert_eq!(implicit_wildcard_query("two words"), "*two words*");
}

fn bare_hit(idx: i64) -> Hit {
    Hit {
        conversation_id: 1,
        message_id: idx + 1,
        idx,
        agent_slug: "a".into(),
        workspace_path: None,
        role: MessageRole::User,
        author: None,
        started_at: None,
        score: 0,
        content: format!("c{idx}"),
        snippets: vec![],
        match_type: MatchType::Exact,
    }
}

#[test]
fn settle_decides_from_both_results() {
    // Implicit wildcard: no wildcard, primary below threshold, wide not empty.
    let r = settle("q", vec![bare_hit(0)], 2, vec![bare_hit(0), bare_hit(1)]);
    assert_eq!(r.match_type, MatchType::ImplicitWildcard);
    assert_eq!(r.hits.iter().map(|h| h.idx).collect::<Vec<_>>(), vec![0, 1]);
    assert!(r.hits.iter().all(|h| h.match_type == MatchType::ImplicitWildcard));
    // Wide empty.
    let r = settle("q", vec![bare_hit(0)], 2, vec![]);
    assert_eq!(r.match_type, MatchType::Exact);
    assert_eq!(r.hits, vec![bare_hit(0)]);
    // Primary at the threshold.
    let r = settle("q", vec![bare_hit(0), bare_hit(1)], 2, vec![bare_hit(2)]);
    assert_eq!(r.match_type, MatchType::Exact);
    assert_eq!(r.hits.len(), 2);
    // Wildcard in the query.
    let r = settle("q*", vec![], 2, vec![bare_hit(2)]);
    assert_eq!(r.match_type, MatchType::Prefix);
    assert_eq!(r.hits.len(), 0);
    let r = settle("*q", vec![], 2, vec![bare_hit(2)]);
    assert_eq!(r.match_type, MatchType::Substring);
}
