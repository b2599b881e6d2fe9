//! One row of a section: a pull request, or one comment on it.

use vstd::prelude::*;

use crate::text::{
    decimal, i64_text, lemma_decimal_digits, lemma_decimal_injective, lemma_signed_decimal_injective, signed_decimal,
    u64_text,
};

verus! {

/// State of a pull request as the state column shows it. `Draft` stands for
/// an open pull request that is marked draft.
#[derive(Clone, Copy, Debug, PartialEq, Eq, Structural)]
pub enum PrState {
    Open,
    Draft,
    Merged,
    Closed,
}

/// A comment on a pull request.
#[derive(Clone, Debug, PartialEq)]
pub struct CommentInfo {
    /// GitHub comment databaseId; the done-state key of comment items.
    pub id: i64,
    /// Comment author login.
    pub author: String,
    pub body: String,
    pub created_at: String,
}

/// Mathematical value of a [`CommentInfo`].
pub struct CommentModel {
    pub id: int,
    pub author: Seq<char>,
    pub body: Seq<char>,
    pub created_at: Seq<char>,
}

impl View for CommentInfo {
    type V = CommentModel;

    open spec fn view(&self) -> CommentModel {
        CommentModel {
            id: self.id as int,
            author: self.author@,
            body: self.body@,
            created_at: self.created_at@,
        }
    }
}

/// A single row in a section: a pull request (`comment == None`) or a
/// specific comment on it (`comment == Some`, made by the comment-mention
/// filter).
#[derive(Clone, Debug, PartialEq)]
pub struct Item {
    /// Repository nameWithOwner, e.g. "nogu3/hestia".
    pub repo: String,
    pub pr_number: u64,
    pub pr_title: String,
    pub pr_url: String,
    /// Pull request author login.
    pub pr_author: String,
    /// ISO 8601; lexicographic order is chronological order.
    pub pr_updated_at: String,
    pub pr_created_at: String,
    pub state: PrState,
    pub comment: Option<CommentInfo>,
}

/// Mathematical value of an [`Item`].
pub struct ItemModel {
    pub repo: Seq<char>,
    pub pr_number: nat,
    pub pr_title: Seq<char>,
    pub pr_url: Seq<char>,
    pub pr_author: Seq<char>,
    pub pr_updated_at: Seq<char>,
    pub pr_created_at: Seq<char>,
    pub state: PrState,
    pub comment: Option<CommentModel>,
}

impl View for Item {
    type V = ItemModel;

    open spec fn view(&self) -> ItemModel {
        ItemModel {
            repo: self.repo@,
            pr_number: self.pr_number as nat,
            pr_title: self.pr_title@,
            pr_url: self.pr_url@,
            pr_author: self.pr_author@,
            pr_updated_at: self.pr_updated_at@,
            pr_created_at: self.pr_created_at@,
            state: self.state,
            comment: match self.comment {
                Some(c) => Some(c@),
                None => None,
            },
        }
    }
}

/// `repo#number`: the done-state key of pull-request items.
pub open spec fn pr_key_text(repo: Seq<char>, number: nat) -> Seq<char> {
    repo + seq!['#'] + decimal(number)
}

impl ItemModel {
    /// `repo#number`.
    pub open spec fn pr_key(self) -> Seq<char> {
        pr_key_text(self.repo, self.pr_number)
    }

    /// `comment:<databaseId>` for comment items, `pr:<repo>#<number>` for
    /// pull-request items.
    pub open spec fn stable_id(self) -> Seq<char> {
        match self.comment {
            Some(c) => seq!['c', 'o', 'm', 'm', 'e', 'n', 't', ':'] + signed_decimal(c.id),
            None => seq!['p', 'r', ':'] + self.pr_key(),
        }
    }

    /// Comment creation time for comment items, last update otherwise.
    pub open spec fn sort_time(self) -> Seq<char> {
        match self.comment {
            Some(c) => c.created_at,
            None => self.pr_updated_at,
        }
    }

    /// Comment author for comment items, pull-request author otherwise.
    pub open spec fn display_author(self) -> Seq<char> {
        match self.comment {
            Some(c) => c.author,
            None => self.pr_author,
        }
    }
}

/// Appends the characters of a literal prefix.
fn text_with_prefix(prefix: &str, rest: &str) -> (s: String)
    ensures
        s@ == prefix@ + rest@,
{
    let mut s = String::new();
    s.append(prefix);
    s.append(rest);
    s
}

impl CommentInfo {
    /// A copy with the same value.
    pub fn duplicate(&self) -> (c: CommentInfo)
        ensures
            c@ == self@,
    {
        CommentInfo {
            id: self.id,
            author: self.author.clone(),
            body: self.body.clone(),
            created_at: self.created_at.clone(),
        }
    }
}

impl Item {
    /// A copy with the same value.
    pub fn duplicate(&self) -> (i: Item)
        ensures
            i@ == self@,
    {
        Item {
            repo: self.repo.clone(),
            pr_number: self.pr_number,
            pr_title: self.pr_title.clone(),
            pr_url: self.pr_url.clone(),
            pr_author: self.pr_author.clone(),
            pr_updated_at: self.pr_updated_at.clone(),
            pr_created_at: self.pr_created_at.clone(),
            state: self.state,
            comment: match &self.comment {
                Some(c) => Some(c.duplicate()),
                None => None,
            },
        }
    }

    /// Stable identity shared by the command-filter protocol and the done
    /// state: `comment:<databaseId>` or `pr:<repo>#<number>`.
    pub fn stable_id(&self) -> (s: String)
        ensures
            s@ == self@.stable_id(),
    {
        match &self.comment {
            Some(c) => {
                let id = i64_text(c.id);
                let s = text_with_prefix("comment:", id.as_str());
                proof {
                    reveal_strlit("comment:");
                }
                s
            },
            None => {
                let key = self.pr_key();
                let s = text_with_prefix("pr:", key.as_str());
                proof {
                    reveal_strlit("pr:");
                }
                s
            },
        }
    }

    /// Done-state key of pull-request items: `repo#number`.
    pub fn pr_key(&self) -> (s: String)
        ensures
            s@ == self@.pr_key(),
    {
        let number = u64_text(self.pr_number);
        let mut s = self.repo.clone();
        s.append("#");
        s.append(number.as_str());
        proof {
            reveal_strlit("#");
        }
        assert(s@ =~= self@.pr_key());
        s
    }

    /// Sort timestamp: comment items by comment creation, pull-request items
    /// by last update.
    pub fn sort_time(&self) -> (s: &str)
        ensures
            s@ == self@.sort_time(),
    {
        match &self.comment {
            Some(c) => c.created_at.as_str(),
            None => self.pr_updated_at.as_str(),
        }
    }

    /// Author for the author column: the comment author for comment items,
    /// the pull-request author otherwise.
    pub fn display_author(&self) -> (s: &str)
        ensures
            s@ == self@.display_author(),
    {
        match &self.comment {
            Some(c) => c.author.as_str(),
            None => self.pr_author.as_str(),
        }
    }
}

proof fn lemma_pr_key_split(r1: Seq<char>, n1: nat, r2: Seq<char>, n2: nat)
    requires
        decimal(n1).len() < decimal(n2).len(),
    ensures
        pr_key_text(r1, n1) != pr_key_text(r2, n2),
{
    if pr_key_text(r1, n1) != pr_key_text(r2, n2) {
        return;
    }
    let s = pr_key_text(r1, n1);
    let d1 = decimal(n1);
    let d2 = decimal(n2);
    lemma_decimal_digits(n2);
    let p = s.len() - d1.len() - 1;
    assert(s[p] == '#');
    let q = p - (r2.len() + 1);
    assert(0 <= q < d2.len());
    assert(pr_key_text(r2, n2)[p] == d2[q]);
}

/// Different pull requests have different keys: `repo#number` gives back
/// the repository and the number (a number has no `#` in it).
pub proof fn lemma_pr_key_injective(r1: Seq<char>, n1: nat, r2: Seq<char>, n2: nat)
    ensures
        pr_key_text(r1, n1) == pr_key_text(r2, n2) <==> r1 == r2 && n1 == n2,
{
    if pr_key_text(r1, n1) == pr_key_text(r2, n2) {
        let s = pr_key_text(r1, n1);
        let d1 = decimal(n1);
        let d2 = decimal(n2);
        if d1.len() < d2.len() {
            lemma_pr_key_split(r1, n1, r2, n2);
        } else if d2.len() < d1.len() {
            lemma_pr_key_split(r2, n2, r1, n1);
        } else {
            assert(r1 =~= s.take(r1.len() as int));
            assert(r2 =~= s.take(r2.len() as int));
            assert(d1 =~= s.skip(r1.len() as int + 1));
            assert(d2 =~= s.skip(r2.len() as int + 1));
            lemma_decimal_injective(n1, n2);
        }
    }
}

/// Stable ids tell rows apart: two rows have the same stable id exactly
/// when both are comment rows of the same comment, or both are pull-request
/// rows of the same pull request. Comment rows and pull-request rows never
/// share an id.
pub proof fn lemma_stable_id_injective(a: ItemModel, b: ItemModel)
    ensures
        a.stable_id() == b.stable_id() <==> match (a.comment, b.comment) {
            (Some(x), Some(y)) => x.id == y.id,
            (None, None) => a.repo == b.repo && a.pr_number == b.pr_number,
            _ => false,
        },
{
    let c = seq!['c', 'o', 'm', 'm', 'e', 'n', 't', ':'];
    let p = seq!['p', 'r', ':'];
    match (a.comment, b.comment) {
        (Some(x), Some(y)) => {
            if a.stable_id() == b.stable_id() {
                assert(signed_decimal(x.id) =~= a.stable_id().skip(8));
                assert(signed_decimal(y.id) =~= b.stable_id().skip(8));
                lemma_signed_decimal_injective(x.id, y.id);
            }
        },
        (None, None) => {
            lemma_pr_key_injective(a.repo, a.pr_number, b.repo, b.pr_number);
            if a.stable_id() == b.stable_id() {
                assert(a.pr_key() =~= a.stable_id().skip(3));
                assert(b.pr_key() =~= b.stable_id().skip(3));
            }
        },
        (Some(x), None) => {
            assert(a.stable_id()[0] == 'c');
            assert(b.stable_id()[0] == 'p');
        },
        (None, Some(y)) => {
            assert(a.stable_id()[0] == 'p');
            assert(b.stable_id()[0] == 'c');
        },
    }
}

} // verus!
