//! Resolving a navigation request — previous, next, latest, or an
//! explicit identifier — against a newest-first commit history.

use vstd::prelude::*;
use vstd::string::*;
use crate::history::CommitRecord;
use crate::text::{seq_eq_ci, str_eq_ci, str_eq};

verus! {

/// The four ways a load request can name its target.
#[derive(Debug)]
pub enum LoadMode {
    /// The commit just older than the current one.
    Prev,
    /// The commit just newer than the current one.
    Next,
    /// The tip of the current branch.
    Latest,
    /// An explicit identifier: a hash, tag or branch name.
    ById(String),
}

/// How a navigation request can fail.
#[derive(Clone, Copy, PartialEq, Eq, Structural, Debug)]
pub enum NavigationFailure {
    /// More than one mode argument was given.
    AmbiguousMode,
    /// The current commit is not in the history, or nothing lies in the
    /// requested direction.
    NoSuchCommit,
    /// The checkout of the resolved target failed.
    CheckoutFailed,
}

impl NavigationFailure {
    /// A line for the caller to print.
    pub fn message(&self) -> (r: String)
        ensures
            *self is AmbiguousMode ==> r@
                == "load mode ('prev' or 'next' or 'latest' or '<id>') set more than once"@,
            *self is NoSuchCommit ==> r@ == "no such commit in the current branch history"@,
            *self is CheckoutFailed ==> r@ == "could not check out the requested target"@,
    {
        match self {
            NavigationFailure::AmbiguousMode => {
                "load mode ('prev' or 'next' or 'latest' or '<id>') set more than once".to_owned()
            },
            NavigationFailure::NoSuchCommit => {
                "no such commit in the current branch history".to_owned()
            },
            NavigationFailure::CheckoutFailed => {
                "could not check out the requested target".to_owned()
            },
        }
    }
}

/// Read the argument list of a load request.  No argument asks for the
/// latest commit; one argument picks a mode or names a target; more
/// than one mode is a user error, refused before any command runs.
pub fn parse_load_mode(args: &Vec<String>) -> (r: Result<LoadMode, NavigationFailure>)
    ensures
        args@.len() == 0 ==> (r matches Ok(m) && m is Latest),
        args@.len() > 1 ==> (r matches Err(e) && e is AmbiguousMode),
        args@.len() == 1 ==> ({
            let a = args.deep_view()[0];
            if seq_eq_ci(a, "prev"@) {
                r matches Ok(m) && m is Prev
            } else if seq_eq_ci(a, "next"@) {
                r matches Ok(m) && m is Next
            } else if seq_eq_ci(a, "latest"@) {
                r matches Ok(m) && m is Latest
            } else {
                r matches Ok(m) && m matches LoadMode::ById(id) && id@ == a
            }
        }),
{
    if args.len() == 0 {
        Ok(LoadMode::Latest)
    } else if args.len() > 1 {
        Err(NavigationFailure::AmbiguousMode)
    } else {
        let a = &args[0];
        if str_eq_ci(a.as_str(), "prev") {
            Ok(LoadMode::Prev)
        } else if str_eq_ci(a.as_str(), "next") {
            Ok(LoadMode::Next)
        } else if str_eq_ci(a.as_str(), "latest") {
            Ok(LoadMode::Latest)
        } else {
            Ok(LoadMode::ById(a.clone()))
        }
    }
}

/// The first position in `h` whose record carries the identifier `id`,
/// searching from `from` on.
pub open spec fn spec_index_of_id(h: Seq<CommitRecord>, id: Seq<char>, from: int) -> Option<int>
    decreases h.len() - from,
{
    if !(0 <= from && from < h.len()) {
        None
    } else if h[from].id@ == id {
        Some(from)
    } else {
        spec_index_of_id(h, id, from + 1)
    }
}

proof fn lemma_index_of_id_in_range(h: Seq<CommitRecord>, id: Seq<char>, from: int)
    ensures
        spec_index_of_id(h, id, from) matches Some(i) ==> from <= i < h.len(),
    decreases h.len() - from,
{
    if 0 <= from && from < h.len() && h[from].id@ != id {
        lemma_index_of_id_in_range(h, id, from + 1);
    }
}

/// Find the first record of `history` whose identifier is `id`.
fn index_of_id(history: &Vec<CommitRecord>, id: &str) -> (r: Option<usize>)
    ensures
        match r {
            Some(i) => spec_index_of_id(history@, id@, 0) == Some(i as int),
            None => spec_index_of_id(history@, id@, 0) is None,
        },
{
    let mut k: usize = 0;
    while k < history.len()
        invariant
            k <= history@.len(),
            spec_index_of_id(history@, id@, 0) == spec_index_of_id(history@, id@, k as int),
        decreases history@.len() - k,
    {
        if str_eq(history[k].id.as_str(), id) {
            return Some(k);
        }
        k = k + 1;
    }
    None
}

/// Resolve a `Prev` request: the record just after the current one in
/// the newest-first history, that is, the next-older commit.  Fails when
/// the current commit is absent or already the oldest.
pub fn resolve_prev(history: &Vec<CommitRecord>, current_commit: &str) -> (r: Result<
    String,
    NavigationFailure,
>)
    ensures
        match spec_index_of_id(history@, current_commit@, 0) {
            Some(i) => if i + 1 < history@.len() {
                r matches Ok(id) && id@ == history@[i + 1].id@
            } else {
                r matches Err(e) && e is NoSuchCommit
            },
            None => r matches Err(e) && e is NoSuchCommit,
        },
{
    match index_of_id(history, current_commit) {
        Some(i) => {
            proof {
                lemma_index_of_id_in_range(history@, current_commit@, 0);
            }
            if i < history.len() - 1 {
                Ok(history[i + 1].id.clone())
            } else {
                Err(NavigationFailure::NoSuchCommit)
            }
        },
        None => Err(NavigationFailure::NoSuchCommit),
    }
}

/// Resolve a `Next` request: the record just before the current one in
/// the newest-first history, that is, the next-newer commit.  Fails when
/// the current commit is absent or already the newest.
pub fn resolve_next(history: &Vec<CommitRecord>, current_commit: &str) -> (r: Result<
    String,
    NavigationFailure,
>)
    ensures
        match spec_index_of_id(history@, current_commit@, 0) {
            Some(i) => if i > 0 {
                r matches Ok(id) && id@ == history@[i - 1].id@
            } else {
                r matches Err(e) && e is NoSuchCommit
            },
            None => r matches Err(e) && e is NoSuchCommit,
        },
{
    match index_of_id(history, current_commit) {
        Some(i) => {
            proof {
                lemma_index_of_id_in_range(history@, current_commit@, 0);
            }
            if i > 0 {
                Ok(history[i - 1].id.clone())
            } else {
                Err(NavigationFailure::NoSuchCommit)
            }
        },
        None => Err(NavigationFailure::NoSuchCommit),
    }
}

/// What a load request resolves to: the name or identifier to hand to
/// the checkout, and the line to print once the checkout succeeds.
pub struct LoadPlan {
    pub target: String,
    pub message: String,
}

/// Resolve a load request against the history and the current position.
/// `Latest` and `ById` need no history lookup; `Prev` and `Next` walk
/// the newest-first sequence from the current commit.
pub fn resolve(
    mode: &LoadMode,
    history: &Vec<CommitRecord>,
    current_branch: &str,
    current_commit: &str,
) -> (r: Result<LoadPlan, NavigationFailure>)
    ensures
        match mode {
            LoadMode::Prev => match spec_index_of_id(history@, current_commit@, 0) {
                Some(i) => if i + 1 < history@.len() {
                    r matches Ok(p) && p.target@ == history@[i + 1].id@ && p.message@
                        == "checked out previous commit ("@ + history@[i + 1].id@ + ")"@
                } else {
                    r matches Err(e) && e is NoSuchCommit
                },
                None => r matches Err(e) && e is NoSuchCommit,
            },
            LoadMode::Next => match spec_index_of_id(history@, current_commit@, 0) {
                Some(i) => if i > 0 {
                    r matches Ok(p) && p.target@ == history@[i - 1].id@ && p.message@
                        == "checked out next commit ("@ + history@[i - 1].id@ + ")"@
                } else {
                    r matches Err(e) && e is NoSuchCommit
                },
                None => r matches Err(e) && e is NoSuchCommit,
            },
            LoadMode::Latest => (r matches Ok(p) && p.target@ == current_branch@ && p.message@
                == "checked out latest commit in branch "@ + current_branch@),
            LoadMode::ById(id) => (r matches Ok(p) && p.target@ == id@ && p.message@
                == "checked out "@ + id@),
        },
{
    match mode {
        LoadMode::Prev => {
            match resolve_prev(history, current_commit) {
                Ok(id) => {
                    let mut message = "checked out previous commit (".to_owned();
                    message.append(id.as_str());
                    message.append(")");
                    Ok(LoadPlan { target: id, message })
                },
                Err(e) => Err(e),
            }
        },
        LoadMode::Next => {
            match resolve_next(history, current_commit) {
                Ok(id) => {
                    let mut message = "checked out next commit (".to_owned();
                    message.append(id.as_str());
                    message.append(")");
                    Ok(LoadPlan { target: id, message })
                },
                Err(e) => Err(e),
            }
        },
        LoadMode::Latest => {
            let mut message = "checked out latest commit in branch ".to_owned();
            message.append(current_branch);
            Ok(LoadPlan { target: current_branch.to_owned(), message })
        },
        LoadMode::ById(id) => {
            let mut message = "checked out ".to_owned();
            message.append(id.as_str());
            Ok(LoadPlan { target: id.clone(), message })
        },
    }
}

} // verus!
