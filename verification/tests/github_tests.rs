use ghbox::config::{Section, SectionFilter, SortBy};
use ghbox::error::Error;
use ghbox::github::{
    build_query, parse_sections, token_from_output, CommentNode, PrNode, Search, SectionsData, SectionsResponse,
};
use ghbox::item::PrState;

fn section(query: &str, filter: SectionFilter) -> Section {
    Section { title: "t".into(), query: query.into(), columns: vec![], filter, sort: SortBy::Updated }
}

#[test]
fn build_query_aliases_sections_and_passes_variables() {
    let sections = vec![
        section("is:pr mentions:@me", SectionFilter::CommentMention { extra_patterns: vec![] }),
        section("is:pr review-requested:@me", SectionFilter::Unfiltered),
    ];
    let (query, vars) = build_query(&sections);
    assert!(query.contains("$q0: String!, $q1: String!"), "got: {query}");
    assert!(query.contains("s0: search(query: $q0, type: ISSUE, first: 50)"));
    assert!(query.contains("s1: search(query: $q1, type: ISSUE, first: 50)"));
    assert!(query.contains("viewer { login }"));
    // comments requested only for the comment-mention section
    assert_eq!(query.matches("comments(last: 50)").count(), 1);
    let comments_pos = query.find("comments(last: 50)").unwrap();
    assert!(query.find("s0:").unwrap() < comments_pos);
    assert!(comments_pos < query.find("s1:").unwrap());
    assert_eq!(vars[0], ("q0".to_string(), "is:pr mentions:@me".to_string()));
    assert_eq!(vars[1], ("q1".to_string(), "is:pr review-requested:@me".to_string()));
    assert!(query.contains("state"), "PR state requested");
    assert!(query.contains("isDraft"), "draft flag requested");
}

fn login(l: &str) -> Option<String> {
    Some(l.to_string())
}

/// The fixture response of the section tests: section 0 holds a draft pull
/// request with a comment that has a databaseId and one that has none, and
/// an empty node (a search result that is no pull request); section 1 holds
/// a merged pull request by a deleted account and one without a state.
fn sections_fixture() -> SectionsResponse {
    let draft = PrNode {
        number: 9,
        state: "OPEN".into(),
        is_draft: true,
        title: "Implement Device List Management".into(),
        url: "https://github.com/nogu3/hestia/pull/9".into(),
        updated_at: "2026-04-20T00:00:00Z".into(),
        created_at: "2026-04-01T00:00:00Z".into(),
        author: login("jules"),
        repository: Some("nogu3/hestia".into()),
        comments: vec![
            Some(CommentNode {
                database_id: Some(4275373830),
                author: login("google-labs-jules"),
                body: "@nogu3 please merge this".into(),
                created_at: "2026-04-19T06:51:49Z".into(),
            }),
            Some(CommentNode {
                database_id: None,
                author: None,
                body: "no database id".into(),
                created_at: "2026-04-19T07:00:00Z".into(),
            }),
        ],
    };
    let merged = PrNode {
        number: 12,
        state: "MERGED".into(),
        title: "Fix logger".into(),
        url: "https://github.com/nogu3/hestia/pull/12".into(),
        updated_at: "2026-07-02T00:00:00Z".into(),
        created_at: "2026-07-01T00:00:00Z".into(),
        author: None,
        repository: Some("nogu3/hestia".into()),
        ..Default::default()
    };
    let stateless = PrNode {
        number: 13,
        title: "No state field".into(),
        url: "https://github.com/nogu3/hestia/pull/13".into(),
        updated_at: "2026-07-02T00:00:00Z".into(),
        created_at: "2026-07-01T00:00:00Z".into(),
        author: login("alice"),
        repository: Some("nogu3/hestia".into()),
        ..Default::default()
    };
    SectionsResponse {
        data: Some(SectionsData {
            viewer: "nogu3".into(),
            searches: vec![
                ("s0".into(), Some(Search { nodes: vec![Some(draft), Some(PrNode::default())] })),
                ("s1".into(), Some(Search { nodes: vec![Some(merged), Some(stateless)] })),
            ],
        }),
        errors: None,
    }
}

#[test]
fn parse_sections_returns_ordered_sections() {
    let fetched = parse_sections(&sections_fixture(), 2).unwrap();
    assert_eq!(fetched.viewer_login, "nogu3");
    assert_eq!(fetched.sections.len(), 2);
    // empty node (non-PR search result) is skipped
    assert_eq!(fetched.sections[0].len(), 1);
    let pr = &fetched.sections[0][0];
    assert_eq!(pr.repo, "nogu3/hestia");
    assert_eq!(pr.pr_number, 9);
    assert_eq!(pr.pr_author, "jules");
    assert_eq!(pr.pr_updated_at, "2026-04-20T00:00:00Z");
    // comment without databaseId is skipped
    assert_eq!(pr.comments.len(), 1);
    assert_eq!(pr.comments[0].id, 4275373830);
    assert_eq!(pr.comments[0].author, "google-labs-jules");
    assert_eq!(pr.state, PrState::Draft, "OPEN + isDraft => Draft");
    // section without comments in the query parses with empty comments
    assert_eq!(fetched.sections[1].len(), 2);
    let rr = &fetched.sections[1][0];
    assert_eq!(rr.pr_number, 12);
    assert_eq!(rr.pr_author, "(unknown)"); // ghost author
    assert!(rr.comments.is_empty());
    assert_eq!(rr.state, PrState::Merged);
    // responses without a state fall back to Open
    assert_eq!(fetched.sections[1][1].state, PrState::Open);
}

#[test]
fn parse_sections_null_data_with_errors_is_api_error() {
    let response = SectionsResponse { data: None, errors: Some(vec!["rate limited".into()]) };
    let err = parse_sections(&response, 1).unwrap_err();
    assert!(matches!(err, Error::Api(m) if m.contains("rate limited")));
}

#[test]
fn parse_sections_without_data_or_errors_is_api_error() {
    let err = parse_sections(&SectionsResponse::default(), 1).unwrap_err();
    assert_eq!(err, Error::Api("response has neither data nor errors".into()));
    assert_eq!(err.message(), "GitHub API error: response has neither data nor errors");
}

#[test]
fn parse_sections_partial_data_with_errors_still_parses() {
    let response = SectionsResponse {
        data: Some(SectionsData {
            viewer: "nogu3".into(),
            searches: vec![("s0".into(), Some(Search { nodes: vec![] }))],
        }),
        errors: Some(vec!["SAML enforcement".into()]),
    };
    let fetched = parse_sections(&response, 1).unwrap();
    assert_eq!(fetched.viewer_login, "nogu3");
    assert!(fetched.sections[0].is_empty());
    // the partial-failure errors are surfaced, not dropped
    assert_eq!(fetched.errors, vec!["SAML enforcement".to_string()]);
}

#[test]
fn parse_sections_clean_response_has_no_errors() {
    let fetched = parse_sections(&sections_fixture(), 2).unwrap();
    assert!(fetched.errors.is_empty());
}

#[test]
fn parse_sections_missing_or_null_alias_yields_empty_section() {
    let response = SectionsResponse {
        data: Some(SectionsData { viewer: "nogu3".into(), searches: vec![("s0".into(), None)] }),
        errors: None,
    };
    let fetched = parse_sections(&response, 2).unwrap();
    assert!(fetched.sections[0].is_empty());
    assert!(fetched.sections[1].is_empty());
}

#[test]
fn token_is_trimmed_stdout() {
    assert_eq!(token_from_output(true, "gho_abc\n", ""), Ok("gho_abc".to_string()));
}

#[test]
fn failed_token_command_reports_stderr() {
    assert_eq!(
        token_from_output(false, "", "  not logged in\n"),
        Err(Error::Token("not logged in".into()))
    );
    assert_eq!(
        token_from_output(true, " \n", ""),
        Err(Error::Token("`gh auth token` returned empty output".into()))
    );
}
