//! The commit history model: commit records paired with their tags, a
//! restartable newest-first sequence over them, and the parsers that
//! turn raw command output into commit, tag and branch lists.

use vstd::prelude::*;
use vstd::string::*;
use crate::pattern::{spec_find, find_seq_from, lemma_spec_find_in_range};
use crate::text::{
    spec_tokens,
    tokenize,
    trim_char_spec,
    trim_char,
    trim_spec,
    trim,
    trim_end_spec,
    trim_end,
    str_eq,
};
use crate::version::ParseFailure;

verus! {

/// One commit: an opaque identifier and the tags that point at it.
pub struct CommitRecord {
    pub id: String,
    pub tags: Vec<String>,
}

impl Clone for CommitRecord {
    /// Copy the record, keeping its contents.
    fn clone(&self) -> (r: Self)
        ensures
            r.id@ == self.id@,
            r.tags.deep_view() == self.tags.deep_view(),
    {
        let id = self.id.clone();
        let tags = self.tags.clone();
        proof {
            assert(forall|i: int| 0 <= i < self.tags@.len() ==> tags@[i] == self.tags@[i]);
            assert(tags.deep_view() =~= self.tags.deep_view());
        }
        CommitRecord { id, tags }
    }
}

/// A restartable pass over a newest-first commit history.  The records
/// are a snapshot: they do not follow later changes to the repository.
pub struct Commiterator {
    pub index: usize,
    pub commits_and_tags: Vec<CommitRecord>,
}

impl Commiterator {
    /// Start a pass at the newest commit of `records`.
    pub fn new(records: Vec<CommitRecord>) -> (r: Commiterator)
        ensures
            r.index == 0,
            r.commits_and_tags == records,
    {
        Commiterator { index: 0, commits_and_tags: records }
    }

    /// How many records are left to hand out.
    pub fn remaining(&self) -> (r: usize)
        ensures
            r == if self.index <= self.commits_and_tags@.len() {
                self.commits_and_tags@.len() - self.index
            } else {
                0
            },
    {
        if self.index <= self.commits_and_tags.len() {
            self.commits_and_tags.len() - self.index
        } else {
            0
        }
    }

    /// Hand out the next record, oldest last, or nothing when the pass
    /// is done.
    pub fn next(&mut self) -> (r: Option<CommitRecord>)
        ensures
            old(self).index < old(self).commits_and_tags@.len() ==> {
                &&& final(self).index == old(self).index + 1
                &&& final(self).commits_and_tags == old(self).commits_and_tags
                &&& r matches Some(rec) && rec.id@ == old(self).commits_and_tags@[old(
                    self,
                ).index as int].id@ && rec.tags.deep_view() == old(self).commits_and_tags@[old(
                    self,
                ).index as int].tags.deep_view()
            },
            old(self).index >= old(self).commits_and_tags@.len() ==> r is None && *final(self)
                == *old(self),
    {
        if self.index >= self.commits_and_tags.len() {
            return None;
        }
        let cloned = self.commits_and_tags[self.index].clone();
        self.index = self.index + 1;
        Some(cloned)
    }
}

/// Pair each commit identifier with the tag list looked up for it,
/// keeping the supplied newest-first order.
pub fn pair_commits_with_tags(commits: Vec<String>, tags: Vec<Vec<String>>) -> (r: Vec<
    CommitRecord,
>)
    requires
        commits@.len() == tags@.len(),
    ensures
        r@.len() == commits@.len(),
        forall|i: int|
            0 <= i < r@.len() ==> #[trigger] r@[i].id@ == commits.deep_view()[i]
                && r@[i].tags.deep_view() == tags.deep_view()[i],
{
    let mut out: Vec<CommitRecord> = Vec::new();
    let mut k: usize = 0;
    while k < commits.len()
        invariant
            k <= commits@.len(),
            commits@.len() == tags@.len(),
            out@.len() == k,
            forall|i: int|
                0 <= i < k ==> #[trigger] out@[i].id@ == commits.deep_view()[i]
                    && out@[i].tags.deep_view() == tags.deep_view()[i],
        decreases commits@.len() - k,
    {
        let id = commits[k].clone();
        let tag_list = tags[k].clone();
        proof {
            let orig = tags@[k as int];
            assert(forall|i: int| 0 <= i < orig@.len() ==> tag_list@[i] == orig@[i]);
            assert(tag_list.deep_view() =~= orig.deep_view());
        }
        out.push(CommitRecord { id, tags: tag_list });
        k = k + 1;
    }
    out
}

/// Build the newest-first pass over a history that was paired up with
/// `pair_commits_with_tags`.
pub fn build_history(records: Vec<CommitRecord>) -> (r: Commiterator)
    ensures
        r.index == 0,
        r.commits_and_tags == records,
{
    Commiterator::new(records)
}

/// Read a whitespace-separated commit list, un-quoting each entry.
pub fn parse_commit_list(text: &str) -> (r: Vec<String>)
    ensures
        r@.len() == spec_tokens(text@).len(),
        forall|i: int|
            0 <= i < r@.len() ==> r.deep_view()[i] == trim_char_spec(
                #[trigger] spec_tokens(text@)[i],
                '\'',
            ),
{
    let toks = tokenize(text);
    let mut out: Vec<String> = Vec::new();
    let mut k: usize = 0;
    while k < toks.len()
        invariant
            k <= toks@.len(),
            toks.deep_view() == spec_tokens(text@),
            toks.deep_view().len() == toks@.len(),
            out@.len() == k,
            forall|i: int|
                0 <= i < k ==> out.deep_view()[i] == trim_char_spec(
                    #[trigger] spec_tokens(text@)[i],
                    '\'',
                ),
        decreases toks@.len() - k,
    {
        out.push(trim_char(toks[k].as_str(), '\''));
        k = k + 1;
    }
    out
}

/// Read a whitespace-separated tag list.
pub fn parse_tag_list(text: &str) -> (r: Vec<String>)
    ensures
        r.deep_view() == spec_tokens(text@),
{
    tokenize(text)
}

/// Read a whitespace-separated branch list, un-quoting each entry.
pub fn parse_branch_list(text: &str) -> (r: Vec<String>)
    ensures
        r@.len() == spec_tokens(text@).len(),
        forall|i: int|
            0 <= i < r@.len() ==> r.deep_view()[i] == trim_char_spec(
                #[trigger] spec_tokens(text@)[i],
                '"',
            ),
{
    let toks = tokenize(text);
    let mut out: Vec<String> = Vec::new();
    let mut k: usize = 0;
    while k < toks.len()
        invariant
            k <= toks@.len(),
            toks.deep_view() == spec_tokens(text@),
            toks.deep_view().len() == toks@.len(),
            out@.len() == k,
            forall|i: int|
                0 <= i < k ==> out.deep_view()[i] == trim_char_spec(
                    #[trigger] spec_tokens(text@)[i],
                    '"',
                ),
        decreases toks@.len() - k,
    {
        out.push(trim_char(toks[k].as_str(), '"'));
        k = k + 1;
    }
    out
}

/// Read a commit identifier from `git show` output: the text trimmed of
/// surrounding blanks.
pub fn parse_commit_output(text: &str) -> (r: String)
    ensures
        r@ == trim_spec(text@),
{
    trim(text)
}

/// Read a branch name from `git rev-parse` output: the text trimmed of
/// trailing blanks.
pub fn parse_branch_output(text: &str) -> (r: String)
    ensures
        r@ == trim_end_spec(text@),
{
    trim_end(text)
}

/// A branch query answers with this name exactly when the working
/// position is detached; no branch can carry it.
pub fn is_detached_head(branch_name: &str) -> (r: bool)
    ensures
        r == (branch_name@ == "HEAD"@),
{
    str_eq(branch_name, "HEAD")
}

/// Read a remote name from `git remote` output: the trimmed text, or
/// nothing when no remote is configured.
pub fn interpret_remote_output(text: &str) -> (r: Option<String>)
    ensures
        trim_spec(text@).len() == 0 ==> r is None,
        trim_spec(text@).len() > 0 ==> (r matches Some(name) && name@ == trim_spec(text@)),
{
    let trimmed = trim(text);
    if trimmed.as_str().unicode_len() == 0 {
        None
    } else {
        Some(trimmed)
    }
}

/// The marker that a checkout entry of the reflog carries just before
/// the branch that was left.
pub open spec fn detach_marker() -> Seq<char> {
    "checkout: moving from "@
}

/// The marker that closes the branch name in a checkout entry.
pub open spec fn moved_to_marker() -> Seq<char> {
    " to "@
}

/// The branch named in the first checkout entry of a reflog: the text
/// between the checkout marker and the following " to ".
pub open spec fn spec_locate_detach_origin(log: Seq<char>) -> Result<Seq<char>, ParseFailure> {
    match spec_find(log, detach_marker(), 0) {
        Option::None => Err(ParseFailure::MarkerNotFound),
        Option::Some(i) => {
            let e = i + detach_marker().len();
            match spec_find(log, moved_to_marker(), e) {
                Option::None => Err(ParseFailure::TerminatorNotFound),
                Option::Some(j) => Ok(log.subrange(e, j)),
            }
        },
    }
}

/// Find which branch the working position was detached from, by reading
/// the first checkout entry of the reflog.
pub fn locate_detach_origin(reflog_text: &str) -> (r: Result<String, ParseFailure>)
    ensures
        match r {
            Ok(name) => (spec_locate_detach_origin(reflog_text@) matches Ok(v) && name@ == v),
            Err(e) => spec_locate_detach_origin(reflog_text@) == Err::<Seq<char>, ParseFailure>(
                e,
            ),
        },
{
    let tlen = reflog_text.unicode_len();
    let marker = "checkout: moving from ";
    let closing = " to ";
    match find_seq_from(reflog_text, marker, 0) {
        Option::None => Err(ParseFailure::MarkerNotFound),
        Option::Some(i) => {
            proof {
                lemma_spec_find_in_range(reflog_text@, marker@, 0);
                assert(i + marker@.len() <= tlen);
            }
            let e = i + marker.unicode_len();
            match find_seq_from(reflog_text, closing, e) {
                Option::None => Err(ParseFailure::TerminatorNotFound),
                Option::Some(j) => {
                    proof {
                        lemma_spec_find_in_range(reflog_text@, closing@, e as int);
                    }
                    Ok(reflog_text.substring_char(e, j).to_owned())
                },
            }
        },
    }
}

} // verus!
