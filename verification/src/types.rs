//! The earlier item kinds: a merge-request comment and a review request.

use vstd::prelude::*;

use crate::config::SortBy;
use crate::item::pr_key_text;
use crate::order::RepoTimed;
use crate::text::{concat3, u64_text};

verus! {

/// A merge request: a single comment that mentions the viewer and asks to
/// merge.
#[derive(Clone, Debug, PartialEq)]
pub struct MergeRequest {
    /// GitHub comment databaseId; the done-state key of merge requests.
    pub comment_id: i64,
    /// Repository nameWithOwner, e.g. "nogu3/hestia".
    pub repo: String,
    pub pr_number: u64,
    pub pr_title: String,
    pub pr_url: String,
    /// Comment author login.
    pub author: String,
    pub body: String,
    /// ISO 8601; lexicographic order is chronological order.
    pub created_at: String,
}

/// An open pull request where a review is requested from the viewer.
#[derive(Clone, Debug, PartialEq)]
pub struct ReviewRequest {
    pub repo: String,
    pub pr_number: u64,
    pub pr_title: String,
    pub pr_url: String,
    /// Pull request author login.
    pub author: String,
    pub created_at: String,
}

/// Mathematical value of a [`MergeRequest`].
pub struct MergeRequestModel {
    pub comment_id: int,
    pub repo: Seq<char>,
    pub pr_number: nat,
    pub pr_title: Seq<char>,
    pub pr_url: Seq<char>,
    pub author: Seq<char>,
    pub body: Seq<char>,
    pub created_at: Seq<char>,
}

impl View for MergeRequest {
    type V = MergeRequestModel;

    open spec fn view(&self) -> MergeRequestModel {
        MergeRequestModel {
            comment_id: self.comment_id as int,
            repo: self.repo@,
            pr_number: self.pr_number as nat,
            pr_title: self.pr_title@,
            pr_url: self.pr_url@,
            author: self.author@,
            body: self.body@,
            created_at: self.created_at@,
        }
    }
}

/// Mathematical value of a [`ReviewRequest`].
pub struct ReviewRequestModel {
    pub repo: Seq<char>,
    pub pr_number: nat,
    pub pr_title: Seq<char>,
    pub pr_url: Seq<char>,
    pub author: Seq<char>,
    pub created_at: Seq<char>,
}

impl View for ReviewRequest {
    type V = ReviewRequestModel;

    open spec fn view(&self) -> ReviewRequestModel {
        ReviewRequestModel {
            repo: self.repo@,
            pr_number: self.pr_number as nat,
            pr_title: self.pr_title@,
            pr_url: self.pr_url@,
            author: self.author@,
            created_at: self.created_at@,
        }
    }
}

/// Merge requests are ordered by comment creation, whatever the sort.
impl RepoTimed for MergeRequest {
    open spec fn repo_of(v: MergeRequestModel) -> Seq<char> {
        v.repo
    }

    open spec fn time_of(v: MergeRequestModel, _sort: SortBy) -> Seq<char> {
        v.created_at
    }

    fn repo_text(&self) -> (s: &str) {
        self.repo.as_str()
    }

    fn time_text(&self, _sort: SortBy) -> (s: &str) {
        self.created_at.as_str()
    }
}

/// Review requests are ordered by pull-request creation, whatever the sort.
impl RepoTimed for ReviewRequest {
    open spec fn repo_of(v: ReviewRequestModel) -> Seq<char> {
        v.repo
    }

    open spec fn time_of(v: ReviewRequestModel, _sort: SortBy) -> Seq<char> {
        v.created_at
    }

    fn repo_text(&self) -> (s: &str) {
        self.repo.as_str()
    }

    fn time_text(&self, _sort: SortBy) -> (s: &str) {
        self.created_at.as_str()
    }
}

impl MergeRequest {
    /// A copy with the same value.
    pub fn duplicate(&self) -> (m: MergeRequest)
        ensures
            m@ == self@,
    {
        MergeRequest {
            comment_id: self.comment_id,
            repo: self.repo.clone(),
            pr_number: self.pr_number,
            pr_title: self.pr_title.clone(),
            pr_url: self.pr_url.clone(),
            author: self.author.clone(),
            body: self.body.clone(),
            created_at: self.created_at.clone(),
        }
    }
}

impl ReviewRequest {
    /// Done-state key: `repo#number`.
    pub fn key(&self) -> (s: String)
        ensures
            s@ == pr_key_text(self.repo@, self.pr_number as nat),
    {
        let n = u64_text(self.pr_number);
        let s = concat3(self.repo.as_str(), "#", n.as_str());
        proof {
            reveal_strlit("#");
            assert("#"@ =~= seq!['#']);
        }
        s
    }

    /// A copy with the same value.
    pub fn duplicate(&self) -> (r: ReviewRequest)
        ensures
            r@ == self@,
    {
        ReviewRequest {
            repo: self.repo.clone(),
            pr_number: self.pr_number,
            pr_title: self.pr_title.clone(),
            pr_url: self.pr_url.clone(),
            author: self.author.clone(),
            created_at: self.created_at.clone(),
        }
    }
}

} // verus!
