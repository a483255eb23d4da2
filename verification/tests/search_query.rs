use coding_agent_search::model::types::MessageRole;
use coding_agent_search::search::compile::{
    compile_query, dominant_match_type, find_stop, split_words, Clause, Stop, TermKind,
};
use coding_agent_search::search::query::{
    contains_wildcard, filter_and_rank, label_hits, paginate, present, ranks_before, Hit,
    MatchType, SearchError, SearchFilters,
};

fn term(text: &str, kind: TermKind) -> Clause {
    Clause::Term { text: text.into(), kind }
}

fn phrase(words: &[&str]) -> Clause {
    Clause::Phrase { words: words.iter().map(|w| w.to_string()).collect() }
}

#[test]
fn compile_reads_terms_by_their_stars() {
    assert_eq!(compile_query("apple"), Ok(vec![term("apple", TermKind::Exact)]));
    assert_eq!(compile_query("app*"), Ok(vec![term("app", TermKind::Prefix)]));
    assert_eq!(compile_query("*ple"), Ok(vec![term("ple", TermKind::Suffix)]));
    assert_eq!(compile_query("*ppl*"), Ok(vec![term("ppl", TermKind::Substring)]));
    assert_eq!(compile_query("*"), Ok(vec![term("", TermKind::Suffix)]));
    assert_eq!(compile_query("**"), Ok(vec![term("", TermKind::Substring)]));
}

#[test]
fn compile_splits_on_white_space() {
    assert_eq!(compile_query(""), Ok(vec![]));
    assert_eq!(compile_query("  \t\n "), Ok(vec![]));
    assert_eq!(
        compile_query("  fix\tthe* \u{3000}*bug  "),
        Ok(vec![
            term("fix", TermKind::Exact),
            term("the", TermKind::Prefix),
            term("bug", TermKind::Suffix),
        ])
    );
}

#[test]
fn compile_reads_phrases() {
    assert_eq!(compile_query("\"a b\""), Ok(vec![phrase(&["a", "b"])]));
    assert_eq!(
        compile_query("x \"  one   two \"y* \"\""),
        Ok(vec![
            term("x", TermKind::Exact),
            phrase(&["one", "two"]),
            term("y", TermKind::Prefix),
            phrase(&[]),
        ])
    );
    // A quote ends the word before it.
    assert_eq!(compile_query("ab\"cd\""), Ok(vec![term("ab", TermKind::Exact), phrase(&["cd"])]));
}

#[test]
fn compile_refuses_malformed_queries() {
    assert_eq!(compile_query("a*b"), Err(SearchError::Query));
    assert_eq!(compile_query("***"), Err(SearchError::Query));
    assert_eq!(compile_query("ok *a*b*"), Err(SearchError::Query));
    assert_eq!(compile_query("\"never closed"), Err(SearchError::Query));
    assert_eq!(compile_query("fine \""), Err(SearchError::Query));
    assert_eq!(compile_query("\"star * inside\""), Err(SearchError::Query));
}

#[test]
fn dominant_match_type_is_the_loosest() {
    let of = |q: &str| dominant_match_type(&compile_query(q).unwrap());
    assert_eq!(of(""), MatchType::Exact);
    assert_eq!(of("a b"), MatchType::Exact);
    assert_eq!(of("\"a b\""), MatchType::Exact);
    assert_eq!(of("a b*"), MatchType::Prefix);
    assert_eq!(of("a* b"), MatchType::Prefix);
    assert_eq!(of("*fig*"), MatchType::Substring);
    assert_eq!(of("a* *b* c"), MatchType::Substring);
    assert_eq!(of("*b a*"), MatchType::Substring);
}

#[test]
fn wildcard_is_the_star() {
    assert!(contains_wildcard("a*"));
    assert!(contains_wildcard("*"));
    assert!(!contains_wildcard("a?b"));
    assert!(!contains_wildcard(""));
}

#[test]
fn scanning_helpers() {
    let chars: Vec<char> = "ab \"cd".chars().collect();
    assert_eq!(find_stop(&chars, 0, Stop::Space), 2);
    assert_eq!(find_stop(&chars, 0, Stop::Quote), 3);
    assert_eq!(find_stop(&chars, 0, Stop::WordEnd), 2);
    assert_eq!(find_stop(&chars, 3, Stop::WordEnd), 3);
    assert_eq!(find_stop(&chars, 4, Stop::WordEnd), 6);
    assert_eq!(find_stop(&chars, 6, Stop::Space), 6);
    let text: Vec<char> = "  one two  three ".chars().collect();
    assert_eq!(split_words(&text), vec!["one", "two", "three"]);
    assert_eq!(split_words(&Vec::new()), Vec::<String>::new());
}

fn hit(id: i64, score: i64, started_at: Option<i64>, idx: i64) -> Hit {
    Hit {
        conversation_id: 1,
        message_id: id,
        idx,
        agent_slug: "codex".into(),
        workspace_path: Some("/w".into()),
        role: MessageRole::User,
        author: None,
        started_at,
        score,
        content: String::new(),
        snippets: vec![],
        match_type: MatchType::Exact,
    }
}

fn ids(hits: &[Hit]) -> Vec<i64> {
    hits.iter().map(|h| h.message_id).collect()
}

#[test]
fn ranking_by_score_then_start_then_idx() {
    let hits = vec![
        hit(1, 5, Some(100), 3),
        hit(2, 9, Some(50), 0),
        hit(3, 5, Some(200), 7),
        hit(4, 5, Some(100), 1),
        hit(5, 5, None, 0),
        hit(6, 9, Some(50), 0),
        hit(7, -1, Some(999), 0),
    ];
    let out = filter_and_rank(hits, &SearchFilters::default());
    // Score 9 first (the two equal ones in the order given), then score 5 by
    // start (latest first, none last) and idx, then score -1.
    assert_eq!(ids(&out), vec![2, 6, 3, 4, 1, 5, 7]);
    for pair in out.windows(2) {
        assert!(!ranks_before(&pair[1], &pair[0]));
    }
}

#[test]
fn ranks_before_is_strict() {
    let a = hit(1, 1, Some(5), 2);
    assert!(!ranks_before(&a, &a));
    assert!(ranks_before(&hit(1, 2, None, 9), &hit(2, 1, Some(9), 0)));
    assert!(ranks_before(&hit(1, 1, Some(6), 9), &hit(2, 1, Some(5), 0)));
    assert!(ranks_before(&hit(1, 1, Some(5), 0), &hit(2, 1, Some(5), 1)));
    assert!(ranks_before(&hit(1, 1, Some(i64::MIN), 5), &hit(2, 1, None, 0)));
    assert!(!ranks_before(&hit(1, 1, None, 0), &hit(2, 1, Some(0), 5)));
    assert!(ranks_before(&hit(1, 1, None, 0), &hit(2, 1, None, 1)));
}

#[test]
fn filters_are_a_conjunction() {
    let mut h = hit(1, 0, Some(100), 0);
    h.author = Some("reasoning".into());
    let none = SearchFilters::default();
    assert!(none.accepts(&h));
    let mut f = SearchFilters::default();
    f.agent_slug = Some("codex".into());
    f.workspace_path = Some("/w".into());
    f.role = Some(MessageRole::User);
    f.author = Some("reasoning".into());
    f.started_after = Some(100);
    f.started_before = Some(100);
    assert!(f.accepts(&h));
    for change in 0..6 {
        let mut g = f.clone();
        match change {
            0 => g.agent_slug = Some("other".into()),
            1 => g.workspace_path = Some("/x".into()),
            2 => g.role = Some(MessageRole::Tool),
            3 => g.author = Some("user".into()),
            4 => g.started_after = Some(101),
            _ => g.started_before = Some(99),
        }
        assert!(!g.accepts(&h), "condition {change}");
    }
    // A hit without workspace, author or start meets no condition on them.
    let mut bare = hit(2, 0, None, 0);
    bare.workspace_path = None;
    let mut g = SearchFilters::default();
    g.workspace_path = Some("/w".into());
    assert!(!g.accepts(&bare));
    let mut g = SearchFilters::default();
    g.author = Some("x".into());
    assert!(!g.accepts(&bare));
    let mut g = SearchFilters::default();
    g.started_after = Some(i64::MIN);
    assert!(!g.accepts(&bare));
    let mut g = SearchFilters::default();
    g.started_before = Some(i64::MAX);
    assert!(!g.accepts(&bare));
}

#[test]
fn pagination_windows() {
    let all: Vec<Hit> = (0..5).map(|i| hit(i, 0, None, i)).collect();
    assert_eq!(ids(&paginate(all.clone(), 2, 0)), vec![0, 1]);
    assert_eq!(ids(&paginate(all.clone(), 2, 1)), vec![1, 2]);
    assert_eq!(ids(&paginate(all.clone(), 10, 3)), vec![3, 4]);
    assert_eq!(ids(&paginate(all.clone(), 2, 5)), Vec::<i64>::new());
    assert_eq!(ids(&paginate(all.clone(), 2, 50)), Vec::<i64>::new());
    assert_eq!(ids(&paginate(all.clone(), 0, 0)), Vec::<i64>::new());
    assert_eq!(ids(&paginate(all.clone(), usize::MAX, 1)), vec![1, 2, 3, 4]);
    assert_eq!(ids(&paginate(all, usize::MAX, usize::MAX)), Vec::<i64>::new());
}

#[test]
fn labels_replace_the_match_type_only() {
    let mut hits = vec![hit(1, 3, Some(1), 0), hit(2, 4, None, 1)];
    let before = hits.clone();
    label_hits(&mut hits, MatchType::Prefix);
    for (h, b) in hits.iter().zip(before.iter()) {
        assert_eq!(h.match_type, MatchType::Prefix);
        let mut same = h.clone();
        same.match_type = b.match_type;
        assert_eq!(&same, b);
    }
}

#[test]
fn present_filters_ranks_labels_and_pages() {
    let mut other = hit(9, 100, Some(1), 0);
    other.agent_slug = "aider".into();
    let found = vec![hit(1, 1, None, 0), other, hit(2, 3, None, 0), hit(3, 2, None, 0)];
    let mut filters = SearchFilters::default();
    filters.agent_slug = Some("codex".into());
    let out = present(found.clone(), MatchType::Substring, &filters, 2, 1);
    assert_eq!(ids(&out), vec![3, 1]);
    assert!(out.iter().all(|h| h.match_type == MatchType::Substring));
    // A limit or an offset set in the filters is the one in force.
    filters.limit = Some(1);
    filters.offset = Some(0);
    let out = present(found, MatchType::Exact, &filters, 2, 1);
    assert_eq!(ids(&out), vec![2]);
}

#[test]
fn binding_filters_to_an_agent() {
    let mut asked = SearchFilters::default();
    asked.role = Some(MessageRole::Tool);
    // No agent to bind to: as given.
    assert_eq!(asked.clone().bind_agent(&None), Some(asked.clone()));
    // Bound where the filters name none.
    let bound = asked.clone().bind_agent(&Some("codex".to_string())).unwrap();
    assert_eq!(bound.agent_slug, Some("codex".to_string()));
    assert_eq!(bound.role, Some(MessageRole::Tool));
    // The same agent asked for: as given.
    assert_eq!(bound.clone().bind_agent(&Some("codex".to_string())), Some(bound.clone()));
    // Another agent asked for: nothing can match.
    assert_eq!(bound.bind_agent(&Some("aider".to_string())), None);
}
