//! The GitHub side: the one GraphQL query that covers every section, what
//! its response means, and how the `gh auth token` output is read.

use vstd::prelude::*;

use crate::config::{FilterModel, Section, SectionFilter, SectionModel, section_views};
use crate::error::Error;
use crate::item::{CommentInfo, CommentModel, PrState};
use crate::text::{concat2, concat3, decimal, joined, owned, trim, trim_text, u64_text, views, join};
use crate::types::{MergeRequest, ReviewRequest};

verus! {

/// `$q<i>: String!`, the declaration of section `i`'s search variable.
pub open spec fn param_decl(i: nat) -> Seq<char> {
    "$q"@ + decimal(i) + ": String!"@
}

/// The variable declarations of the first `n` sections, separated by `, `.
pub open spec fn params_text(n: nat) -> Seq<char>
    decreases n,
{
    if n == 0 {
        Seq::empty()
    } else if n == 1 {
        param_decl(0)
    } else {
        params_text((n - 1) as nat) + ", "@ + param_decl((n - 1) as nat)
    }
}

/// The comment fields, requested only for comment-mention sections.
pub open spec fn comments_field(s: SectionModel) -> Seq<char> {
    match s.filter {
        FilterModel::CommentMention { .. } => "\n        comments(last: 50) { nodes { databaseId author { login } body createdAt } }"@,
        _ => Seq::empty(),
    }
}

/// The aliased search of section `i`.
pub open spec fn search_block(i: nat, s: SectionModel) -> Seq<char> {
    "  s"@ + decimal(i) + ": search(query: $q"@ + decimal(i)
        + ", type: ISSUE, first: 50) {\n    nodes {\n      ... on PullRequest {\n        number\n        title\n        url\n        state\n        isDraft\n        updatedAt\n        createdAt\n        author { login }\n        repository { nameWithOwner }"@
        + comments_field(s) + "\n      }\n    }\n  }\n"@
}

/// The searches of all sections, in order.
pub open spec fn blocks_text(secs: Seq<SectionModel>) -> Seq<char>
    decreases secs.len(),
{
    if secs.len() == 0 {
        Seq::empty()
    } else {
        blocks_text(secs.drop_last()) + search_block((secs.len() - 1) as nat, secs.last())
    }
}

/// The GraphQL query for all sections: `viewer` plus one aliased search per
/// section (`s0`, `s1`, ...), each taking its search string from a variable.
pub open spec fn query_text(secs: Seq<SectionModel>) -> Seq<char> {
    "query("@ + params_text(secs.len()) + ") {\n  viewer { login }\n"@ + blocks_text(secs) + "}"@
}

/// The name of section `i`'s variable: `q<i>`.
pub open spec fn variable_name(i: nat) -> Seq<char> {
    seq!['q'] + decimal(i)
}

/// Builds one GraphQL request covering every section: the query text, and
/// the variables as (name, search string) pairs, `q0`, `q1`, ... in section
/// order. Search strings travel as variables to avoid escaping issues;
/// comment bodies are requested only for comment-mention sections.
pub fn build_query(sections: &[Section]) -> (r: (String, Vec<(String, String)>))
    requires
        sections@.len() <= u64::MAX,
    ensures
        r.0@ == query_text(section_views(sections@)),
        r.1@.len() == sections@.len(),
        forall|i: int| 0 <= i < sections@.len() ==> (#[trigger] r.1@[i]).0@ == variable_name(i as nat)
            && r.1@[i].1@ == sections@[i].query@,
{
    let ghost secs = section_views(sections@);
    let mut params = String::new();
    let mut i: usize = 0;
    while i < sections.len()
        invariant
            i <= sections@.len() <= u64::MAX,
            params@ == params_text(i as nat),
        decreases sections.len() - i,
    {
        let n = u64_text(i as u64);
        if i > 0 {
            params.append(", ");
        }
        params.append("$q");
        params.append(n.as_str());
        params.append(": String!");
        i = i + 1;
    }
    let mut query = concat3("query(", params.as_str(), ") {\n  viewer { login }\n");
    let mut blocks = String::new();
    let mut vars: Vec<(String, String)> = Vec::new();
    let mut i: usize = 0;
    while i < sections.len()
        invariant
            secs == section_views(sections@),
            i <= sections@.len() <= u64::MAX,
            blocks@ == blocks_text(secs.take(i as int)),
            vars@.len() == i,
            forall|k: int| 0 <= k < i ==> (#[trigger] vars@[k]).0@ == variable_name(k as nat)
                && vars@[k].1@ == sections@[k].query@,
        decreases sections.len() - i,
    {
        let section = &sections[i];
        assert(secs[i as int] == section@);
        let n = u64_text(i as u64);
        blocks.append("  s");
        blocks.append(n.as_str());
        blocks.append(": search(query: $q");
        blocks.append(n.as_str());
        blocks.append(", type: ISSUE, first: 50) {\n    nodes {\n      ... on PullRequest {\n        number\n        title\n        url\n        state\n        isDraft\n        updatedAt\n        createdAt\n        author { login }\n        repository { nameWithOwner }");
        match &section.filter {
            SectionFilter::CommentMention { .. } => {
                blocks.append("\n        comments(last: 50) { nodes { databaseId author { login } body createdAt } }");
            },
            _ => {},
        }
        blocks.append("\n      }\n    }\n  }\n");
        assert(secs.take(i + 1).drop_last() =~= secs.take(i as int));
        let name = concat2("q", n.as_str());
        proof {
            reveal_strlit("q");
            assert("q"@ =~= seq!['q']);
        }
        vars.push((name, section.query.clone()));
        i = i + 1;
        proof {
            if section.filter is CommentMention {
            } else {
                assert(comments_field(section@) =~= Seq::<char>::empty());
            }
            assert(blocks@ =~= blocks_text(secs.take(i as int)));
        }
    }
    assert(secs.take(sections@.len() as int) =~= secs);
    query.append(blocks.as_str());
    query.append("}");
    (query, vars)
}

} // verus!

verus! {

/// A comment node of the GraphQL response.
#[derive(Clone, Debug, PartialEq, Default)]
pub struct CommentNode {
    pub database_id: Option<i64>,
    /// Author login; `None` for a deleted (ghost) account.
    pub author: Option<String>,
    pub body: String,
    pub created_at: String,
}

/// A search result node of the GraphQL response. Nodes that are no pull
/// request read with every field at its default.
#[derive(Clone, Debug, PartialEq, Default)]
pub struct PrNode {
    pub number: u64,
    pub title: String,
    pub url: String,
    pub updated_at: String,
    pub created_at: String,
    /// `OPEN`, `CLOSED` or `MERGED`; empty when the response has none.
    pub state: String,
    pub is_draft: bool,
    /// Author login; `None` for a deleted (ghost) account.
    pub author: Option<String>,
    /// Repository nameWithOwner.
    pub repository: Option<String>,
    pub comments: Vec<Option<CommentNode>>,
}

/// One aliased search of the response.
#[derive(Clone, Debug, PartialEq, Default)]
pub struct Search {
    pub nodes: Vec<Option<PrNode>>,
}

/// The `data` of the response: the viewer and the aliased searches.
#[derive(Clone, Debug, PartialEq, Default)]
pub struct SectionsData {
    /// The viewer's login.
    pub viewer: String,
    /// Every other key of `data` with its value (`None` for `null`).
    pub searches: Vec<(String, Option<Search>)>,
}

/// A GraphQL response: data and/or error messages.
#[derive(Clone, Debug, PartialEq, Default)]
pub struct SectionsResponse {
    pub data: Option<SectionsData>,
    /// The `message` of each error.
    pub errors: Option<Vec<String>>,
}

/// One pull request as returned by search, before filtering.
#[derive(Clone, Debug, PartialEq)]
pub struct PrData {
    pub repo: String,
    pub pr_number: u64,
    pub pr_title: String,
    pub pr_url: String,
    pub pr_author: String,
    pub pr_updated_at: String,
    pub pr_created_at: String,
    pub state: PrState,
    /// Populated only for sections whose filter needs comment bodies.
    pub comments: Vec<CommentInfo>,
}

/// Mathematical value of a [`PrData`].
pub struct PrDataModel {
    pub repo: Seq<char>,
    pub pr_number: nat,
    pub pr_title: Seq<char>,
    pub pr_url: Seq<char>,
    pub pr_author: Seq<char>,
    pub pr_updated_at: Seq<char>,
    pub pr_created_at: Seq<char>,
    pub state: PrState,
    pub comments: Seq<CommentModel>,
}

/// Views of a sequence of comments.
pub open spec fn comment_views(v: Seq<CommentInfo>) -> Seq<CommentModel> {
    v.map_values(|c: CommentInfo| c@)
}

impl View for PrData {
    type V = PrDataModel;

    open spec fn view(&self) -> PrDataModel {
        PrDataModel {
            repo: self.repo@,
            pr_number: self.pr_number as nat,
            pr_title: self.pr_title@,
            pr_url: self.pr_url@,
            pr_author: self.pr_author@,
            pr_updated_at: self.pr_updated_at@,
            pr_created_at: self.pr_created_at@,
            state: self.state,
            comments: comment_views(self.comments@),
        }
    }
}

/// Views of a sequence of pull requests.
pub open spec fn pr_views(v: Seq<PrData>) -> Seq<PrDataModel> {
    v.map_values(|p: PrData| p@)
}

/// Result of one multi-section fetch. `sections` is parallel to the
/// sections the query was built for.
#[derive(Clone, Debug, PartialEq)]
pub struct Fetched {
    pub viewer_login: String,
    pub sections: Vec<Vec<PrData>>,
    /// GraphQL errors returned alongside usable data (e.g. one SAML-protected
    /// organization forbidden while the rest succeeded), surfaced so that a
    /// partly empty result is not mistaken for "all clear".
    pub errors: Vec<String>,
}

/// The earlier fetch result: the viewer, the comments of mention searches
/// and the review requests.
#[derive(Clone, Debug, PartialEq)]
pub struct Parsed {
    pub viewer_login: String,
    pub comments: Vec<MergeRequest>,
    pub review_requests: Vec<ReviewRequest>,
}

/// A login, or `(unknown)` for a deleted account.
pub open spec fn login_or_unknown(a: Option<String>) -> Seq<char> {
    match a {
        Some(l) => l@,
        None => "(unknown)"@,
    }
}

/// The comment a node stands for; nodes without a databaseId are dropped.
pub open spec fn comment_of(c: CommentNode) -> Option<CommentModel> {
    match c.database_id {
        Some(id) => Some(
            CommentModel {
                id: id as int,
                author: login_or_unknown(c.author),
                body: c.body@,
                created_at: c.created_at@,
            },
        ),
        None => None,
    }
}

/// The comments of a list of comment nodes, in order, null and id-less
/// nodes dropped.
pub open spec fn comments_of(cs: Seq<Option<CommentNode>>) -> Seq<CommentModel>
    decreases cs.len(),
{
    if cs.len() == 0 {
        Seq::empty()
    } else {
        let rest = comments_of(cs.drop_last());
        match cs.last() {
            Some(c) => match comment_of(c) {
                Some(m) => rest.push(m),
                None => rest,
            },
            None => rest,
        }
    }
}

/// A pull request's state: merged and closed win over the draft flag; a
/// draft is open; anything else reads as open.
pub open spec fn pr_state_of(state: Seq<char>, is_draft: bool) -> PrState {
    if state == "MERGED"@ {
        PrState::Merged
    } else if state == "CLOSED"@ {
        PrState::Closed
    } else if is_draft {
        PrState::Draft
    } else {
        PrState::Open
    }
}

/// The pull request a node stands for; nodes without a repository (search
/// results that are no pull request) are dropped.
pub open spec fn pr_of(n: PrNode) -> Option<PrDataModel> {
    match n.repository {
        Some(repo) => Some(
            PrDataModel {
                repo: repo@,
                pr_number: n.number as nat,
                pr_title: n.title@,
                pr_url: n.url@,
                pr_author: login_or_unknown(n.author),
                pr_updated_at: n.updated_at@,
                pr_created_at: n.created_at@,
                state: pr_state_of(n.state@, n.is_draft),
                comments: comments_of(n.comments@),
            },
        ),
        None => None,
    }
}

/// The pull requests of a list of search nodes, in order.
pub open spec fn prs_of(nodes: Seq<Option<PrNode>>) -> Seq<PrDataModel>
    decreases nodes.len(),
{
    if nodes.len() == 0 {
        Seq::empty()
    } else {
        let rest = prs_of(nodes.drop_last());
        match nodes.last() {
            Some(n) => match pr_of(n) {
                Some(p) => rest.push(p),
                None => rest,
            },
            None => rest,
        }
    }
}

/// The alias of section `i`'s search: `s<i>`.
pub open spec fn alias(i: nat) -> Seq<char> {
    seq!['s'] + decimal(i)
}

/// The nodes of the first search named `a` (none when it is missing or
/// null).
pub open spec fn search_nodes(searches: Seq<(String, Option<Search>)>, a: Seq<char>) -> Seq<
    Option<PrNode>,
>
    decreases searches.len(),
{
    if searches.len() == 0 {
        Seq::empty()
    } else if searches[0].0@ == a {
        match searches[0].1 {
            Some(s) => s.nodes@,
            None => Seq::empty(),
        }
    } else {
        search_nodes(searches.drop_first(), a)
    }
}

/// Error messages of a response.
pub open spec fn response_errors(r: SectionsResponse) -> Seq<Seq<char>> {
    match r.errors {
        Some(v) => views(v@),
        None => Seq::empty(),
    }
}

/// The message of a response without data.
pub open spec fn no_data_message(errors: Seq<Seq<char>>) -> Seq<char> {
    if errors.len() == 0 {
        "response has neither data nor errors"@
    } else {
        joined(errors, "; "@)
    }
}

fn login_text(a: &Option<String>) -> (s: String)
    ensures
        s@ == login_or_unknown(*a),
{
    match a {
        Some(l) => l.clone(),
        None => owned("(unknown)"),
    }
}

fn comments_from(cs: &Vec<Option<CommentNode>>) -> (out: Vec<CommentInfo>)
    ensures
        comment_views(out@) == comments_of(cs@),
{
    let mut out: Vec<CommentInfo> = Vec::new();
    let mut i: usize = 0;
    while i < cs.len()
        invariant
            i <= cs.len(),
            comment_views(out@) == comments_of(cs@.take(i as int)),
        decreases cs.len() - i,
    {
        assert(cs@.take(i + 1).drop_last() =~= cs@.take(i as int));
        let ghost old_out = out@;
        match &cs[i] {
            Some(c) => match c.database_id {
                Some(id) => {
                    out.push(CommentInfo {
                        id,
                        author: login_text(&c.author),
                        body: c.body.clone(),
                        created_at: c.created_at.clone(),
                    });
                    assert(comment_views(out@) =~= comment_views(old_out).push(comment_of(*c)->Some_0));
                },
                None => {},
            },
            None => {},
        }
        i = i + 1;
    }
    assert(cs@.take(cs.len() as int) =~= cs@);
    out
}

fn state_from(state: &str, is_draft: bool) -> (s: PrState)
    ensures
        s == pr_state_of(state@, is_draft),
{
    if crate::text::text_eq(state, "MERGED") {
        PrState::Merged
    } else if crate::text::text_eq(state, "CLOSED") {
        PrState::Closed
    } else if is_draft {
        PrState::Draft
    } else {
        PrState::Open
    }
}

fn prs_from(nodes: &Vec<Option<PrNode>>) -> (out: Vec<PrData>)
    ensures
        pr_views(out@) == prs_of(nodes@),
{
    let mut out: Vec<PrData> = Vec::new();
    let mut i: usize = 0;
    while i < nodes.len()
        invariant
            i <= nodes.len(),
            pr_views(out@) == prs_of(nodes@.take(i as int)),
        decreases nodes.len() - i,
    {
        assert(nodes@.take(i + 1).drop_last() =~= nodes@.take(i as int));
        let ghost old_out = out@;
        match &nodes[i] {
            Some(n) => match &n.repository {
                Some(repo) => {
                    let p = PrData {
                        repo: repo.clone(),
                        pr_number: n.number,
                        pr_title: n.title.clone(),
                        pr_url: n.url.clone(),
                        pr_author: login_text(&n.author),
                        pr_updated_at: n.updated_at.clone(),
                        pr_created_at: n.created_at.clone(),
                        state: state_from(n.state.as_str(), n.is_draft),
                        comments: comments_from(&n.comments),
                    };
                    assert(p@ == pr_of(*n)->Some_0);
                    out.push(p);
                    assert(pr_views(out@) =~= pr_views(old_out).push(pr_of(*n)->Some_0));
                },
                None => {},
            },
            None => {},
        }
        i = i + 1;
    }
    assert(nodes@.take(nodes.len() as int) =~= nodes@);
    out
}

fn find_search(searches: &Vec<(String, Option<Search>)>, a: &str) -> (out: Vec<PrData>)
    ensures
        pr_views(out@) == prs_of(search_nodes(searches@, a@)),
{
    let mut i: usize = 0;
    assert(searches@.skip(0) =~= searches@);
    while i < searches.len()
        invariant
            i <= searches.len(),
            search_nodes(searches@, a@) == search_nodes(searches@.skip(i as int), a@),
        decreases searches.len() - i,
    {
        assert(searches@.skip(i as int)[0] == searches@[i as int]);
        if crate::text::text_eq(searches[i].0.as_str(), a) {
            match &searches[i].1 {
                Some(s) => {
                    return prs_from(&s.nodes);
                },
                None => {
                    let out: Vec<PrData> = Vec::new();
                    assert(pr_views(out@) =~= Seq::<PrDataModel>::empty());
                    return out;
                },
            }
        }
        assert(searches@.skip(i as int).drop_first() =~= searches@.skip(i + 1));
        i = i + 1;
    }
    let out: Vec<PrData> = Vec::new();
    assert(pr_views(out@) =~= Seq::<PrDataModel>::empty());
    out
}

/// Reads a GraphQL response for `section_count` sections. A response may
/// carry both usable data and errors (partial failure): the data is used
/// and the errors kept. Without data it is an API error: the error
/// messages joined by `; `, or a note that there was neither. A missing or
/// null alias is an empty section; nodes without a repository and comments
/// without a databaseId are skipped.
pub fn parse_sections(response: &SectionsResponse, section_count: usize) -> (r: Result<Fetched, Error>)
    requires
        section_count <= u64::MAX,
    ensures
        match response.data {
            None => r matches Err(Error::Api(m)) && m@ == no_data_message(response_errors(*response)),
            Some(d) => r matches Ok(f) && f.viewer_login@ == d.viewer@ && views(f.errors@)
                == response_errors(*response) && f.sections@.len() == section_count && forall|i: int|
                0 <= i < section_count ==> pr_views(#[trigger] f.sections@[i]@) == prs_of(
                    search_nodes(d.searches@, alias(i as nat)),
                ),
        },
{
    let errors: Vec<String> = match &response.errors {
        Some(v) => crate::config::copy_texts(v),
        None => Vec::new(),
    };
    assert(views(errors@) =~= response_errors(*response));
    match &response.data {
        None => {
            if errors.len() == 0 {
                Err(Error::Api(owned("response has neither data nor errors")))
            } else {
                Err(Error::Api(join(errors.as_slice(), "; ")))
            }
        },
        Some(d) => {
            let mut sections: Vec<Vec<PrData>> = Vec::new();
            let mut i: usize = 0;
            while i < section_count
                invariant
                    i <= section_count <= u64::MAX,
                    sections@.len() == i,
                    forall|k: int| 0 <= k < i ==> pr_views(#[trigger] sections@[k]@) == prs_of(
                        search_nodes(d.searches@, alias(k as nat)),
                    ),
                decreases section_count - i,
            {
                let n = u64_text(i as u64);
                let a = concat2("s", n.as_str());
                proof {
                    reveal_strlit("s");
                    assert("s"@ =~= seq!['s']);
                }
                sections.push(find_search(&d.searches, a.as_str()));
                i = i + 1;
            }
            Ok(Fetched { viewer_login: d.viewer.clone(), sections, errors })
        },
    }
}

/// The message of a failed `gh auth token` or an empty token.
pub open spec fn token_result_error(success: bool, stdout: Seq<char>, stderr: Seq<char>) -> Option<
    Seq<char>,
> {
    if !success {
        Some(trim_text(stderr))
    } else if trim_text(stdout).len() == 0 {
        Some("`gh auth token` returned empty output"@)
    } else {
        None
    }
}

/// The token from the output of `gh auth token`: its trimmed stdout. A
/// failed run is a token error with the trimmed stderr; an empty token is
/// one too.
pub fn token_from_output(success: bool, stdout: &str, stderr: &str) -> (r: Result<String, Error>)
    ensures
        match token_result_error(success, stdout@, stderr@) {
            Some(m) => r matches Err(Error::Token(e)) && e@ == m,
            None => r matches Ok(t) && t@ == trim_text(stdout@),
        },
{
    if !success {
        return Err(Error::Token(trim(stderr)));
    }
    let token = trim(stdout);
    if token.as_str().is_empty() {
        return Err(Error::Token(owned("`gh auth token` returned empty output")));
    }
    Ok(token)
}


/// A pull request's state follows GitHub's: `MERGED` is merged and `CLOSED`
/// is closed whatever the draft flag; only a pull request that is neither
/// is a draft (when flagged) or open.
pub proof fn lemma_pr_state_follows_github(state: Seq<char>, is_draft: bool)
    ensures
        pr_state_of("MERGED"@, is_draft) == PrState::Merged,
        pr_state_of("CLOSED"@, is_draft) == PrState::Closed,
        (pr_state_of(state, is_draft) == PrState::Merged) <==> state == "MERGED"@,
        (pr_state_of(state, is_draft) == PrState::Closed) <==> state == "CLOSED"@,
        (pr_state_of(state, is_draft) == PrState::Draft) <==> (is_draft && state != "MERGED"@ && state
            != "CLOSED"@),
        (pr_state_of(state, is_draft) == PrState::Open) <==> (!is_draft && state != "MERGED"@ && state
            != "CLOSED"@),
{
    reveal_strlit("MERGED");
    reveal_strlit("CLOSED");
    assert("MERGED"@[0] != "CLOSED"@[0]);
}

/// A node's pull request carries the state GitHub reported for the node.
pub proof fn lemma_node_state(n: PrNode)
    requires
        n.repository is Some,
    ensures
        n.state@ == "CLOSED"@ ==> pr_of(n)->Some_0.state == PrState::Closed,
        n.state@ == "MERGED"@ ==> pr_of(n)->Some_0.state == PrState::Merged,
        pr_of(n)->Some_0.state == PrState::Draft ==> n.is_draft,
{
    lemma_pr_state_follows_github(n.state@, n.is_draft);
}

} // verus!
