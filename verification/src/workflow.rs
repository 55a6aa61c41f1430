//! The multi-step save workflow: reading the save options, recovering
//! from a detached working position, and driving the stage, commit,
//! tag, push and publish steps as a state machine.  The caller performs
//! each returned action against the repository and reports what
//! happened; every decision is taken here.

use vstd::prelude::*;
use vstd::string::*;
use crate::text::{seq_eq_ci, str_eq_ci, trim_spec, trim};
use crate::version::{Version, VersionPart, spec_version_str};

verus! {

/// A console answer counts as yes exactly when, after trimming, it
/// reads `y`, `ye` or `yes` in any letter case.
pub open spec fn affirmative(s: Seq<char>) -> bool {
    ||| seq_eq_ci(trim_spec(s), "y"@)
    ||| seq_eq_ci(trim_spec(s), "ye"@)
    ||| seq_eq_ci(trim_spec(s), "yes"@)
}

/// Decide whether a console answer counts as yes.
pub fn cli_affirmative(string: String) -> (r: bool)
    ensures
        r == affirmative(string@),
{
    let t = trim(string.as_str());
    str_eq_ci(t.as_str(), "y") || str_eq_ci(t.as_str(), "ye") || str_eq_ci(t.as_str(), "yes")
}

/// How reading the save arguments can fail.
#[derive(Clone, Copy, PartialEq, Eq, Structural, Debug)]
pub enum SaveArgError {
    /// A version part was named more than once.
    DuplicateBumpPart,
    /// The message option was given more than once.
    DuplicateMessage,
    /// The message option stood last, with no message after it.
    MissingMessageText,
    /// An argument matched no option.
    UnknownArgument,
}

impl SaveArgError {
    /// A line for the caller to print.
    pub fn message(&self) -> (r: String)
        ensures
            *self is DuplicateBumpPart ==> r@
                == "version part update ('major' or 'minor' or 'patch') set more than once"@,
            *self is DuplicateMessage ==> r@ == "update message argument passed more than once"@,
            *self is MissingMessageText ==> r@
                == "the '-m' option must be followed by a quoted message"@,
            *self is UnknownArgument ==> r@ == "invalid argument passed to save mode"@,
    {
        match self {
            SaveArgError::DuplicateBumpPart => {
                "version part update ('major' or 'minor' or 'patch') set more than once".to_owned()
            },
            SaveArgError::DuplicateMessage => {
                "update message argument passed more than once".to_owned()
            },
            SaveArgError::MissingMessageText => {
                "the '-m' option must be followed by a quoted message".to_owned()
            },
            SaveArgError::UnknownArgument => "invalid argument passed to save mode".to_owned(),
        }
    }
}

/// The options a save request runs under.
#[derive(Debug)]
pub struct SaveModeOptions {
    pub update_part: Option<VersionPart>,
    pub commit_message: Option<String>,
    pub new_version: Option<Version>,
    pub publish_after_push: bool,
}

impl SaveModeOptions {
    /// Options with nothing chosen.
    pub fn blank() -> (r: SaveModeOptions)
        ensures
            r.update_part is None,
            r.commit_message is None,
            r.new_version is None,
            !r.publish_after_push,
    {
        SaveModeOptions {
            update_part: None,
            commit_message: None,
            new_version: None,
            publish_after_push: false,
        }
    }
}

/// The view of an optional text.
pub open spec fn view_opt(s: Option<String>) -> Option<Seq<char>> {
    match s {
        Some(x) => Some(x@),
        None => None,
    }
}

/// Reading the save arguments from position `i` on, with the choices
/// made so far: mode words are matched ignoring letter case, a `-m`
/// takes the following argument verbatim as the message, and each
/// choice may be made only once.
pub open spec fn spec_process_args(
    args: Seq<Seq<char>>,
    i: int,
    part: Option<VersionPart>,
    msg: Option<Seq<char>>,
    publish: bool,
) -> Result<(Option<VersionPart>, Option<Seq<char>>, bool), SaveArgError>
    decreases args.len() - i,
{
    if i < 0 || i >= args.len() {
        Ok((part, msg, publish))
    } else {
        let a = args[i];
        if seq_eq_ci(a, "major"@) || seq_eq_ci(a, "minor"@) || seq_eq_ci(a, "patch"@) {
            if part is Some {
                Err(SaveArgError::DuplicateBumpPart)
            } else {
                let p = if seq_eq_ci(a, "major"@) {
                    VersionPart::Major
                } else if seq_eq_ci(a, "minor"@) {
                    VersionPart::Minor
                } else {
                    VersionPart::Patch
                };
                spec_process_args(args, i + 1, Some(p), msg, publish)
            }
        } else if seq_eq_ci(a, "-m"@) {
            if msg is Some {
                Err(SaveArgError::DuplicateMessage)
            } else if i + 1 >= args.len() {
                Err(SaveArgError::MissingMessageText)
            } else {
                spec_process_args(args, i + 2, part, Some(args[i + 1]), publish)
            }
        } else if seq_eq_ci(a, "-publish"@) {
            spec_process_args(args, i + 1, part, msg, true)
        } else {
            Err(SaveArgError::UnknownArgument)
        }
    }
}

/// Read the save arguments into options.  `major`, `minor` and `patch`
/// pick the part to bump, `-m` takes the next argument as the commit
/// message, `-publish` asks for a publish after the push.
pub fn process_args(args: &Vec<String>) -> (r: Result<SaveModeOptions, SaveArgError>)
    ensures
        match r {
            Ok(o) => (spec_process_args(args.deep_view(), 0, None, None, false) matches Ok(t)
                && o.update_part == t.0 && view_opt(o.commit_message) == t.1
                && o.publish_after_push == t.2 && o.new_version is None),
            Err(e) => spec_process_args(args.deep_view(), 0, None, None, false) == Err::<
                (Option<VersionPart>, Option<Seq<char>>, bool),
                SaveArgError,
            >(e),
        },
{
    let ghost dv = args.deep_view();
    let mut options = SaveModeOptions::blank();
    let mut i: usize = 0;
    while i < args.len()
        invariant
            i <= args@.len(),
            dv == args.deep_view(),
            dv.len() == args@.len(),
            options.new_version is None,
            spec_process_args(dv, 0, None, None, false) == spec_process_args(
                dv,
                i as int,
                options.update_part,
                view_opt(options.commit_message),
                options.publish_after_push,
            ),
        decreases args@.len() - i,
    {
        let a = &args[i];
        proof {
            assert(dv[i as int] == args@[i as int]@);
        }
        if str_eq_ci(a.as_str(), "major") || str_eq_ci(a.as_str(), "minor") || str_eq_ci(
            a.as_str(),
            "patch",
        ) {
            if options.update_part.is_some() {
                return Err(SaveArgError::DuplicateBumpPart);
            }
            options.update_part = if str_eq_ci(a.as_str(), "major") {
                Some(VersionPart::Major)
            } else if str_eq_ci(a.as_str(), "minor") {
                Some(VersionPart::Minor)
            } else {
                Some(VersionPart::Patch)
            };
            i = i + 1;
        } else if str_eq_ci(a.as_str(), "-m") {
            if options.commit_message.is_some() {
                return Err(SaveArgError::DuplicateMessage);
            }
            if i + 1 >= args.len() {
                return Err(SaveArgError::MissingMessageText);
            }
            proof {
                assert(dv[i + 1] == args@[i + 1]@);
            }
            options.commit_message = Some(args[i + 1].clone());
            i = i + 2;
        } else if str_eq_ci(a.as_str(), "-publish") {
            options.publish_after_push = true;
            i = i + 1;
        } else {
            return Err(SaveArgError::UnknownArgument);
        }
    }
    Ok(options)
}

/// How the user chose to leave a detached working position.
#[derive(Debug)]
pub enum DetachedResolution {
    /// Keep the changes on a branch with this name and go on saving.
    CreateBranch(String),
    /// Give the changes up and return to the branch that was left.
    Discard,
    /// Neither: stop the save.
    Decline,
}

/// Read the two console answers of the detached-position dialogue.  The
/// first answer decides whether a branch is created; if it is yes, the
/// follow-up line names the branch; if it is no, the follow-up answers
/// whether to discard the changes instead.
pub fn resolve_detached_choice(first_answer: &str, followup: &str) -> (r: DetachedResolution)
    ensures
        affirmative(first_answer@) ==> (r matches DetachedResolution::CreateBranch(b) && b@
            == trim_spec(followup@)),
        !affirmative(first_answer@) && affirmative(followup@) ==> r is Discard,
        !affirmative(first_answer@) && !affirmative(followup@) ==> r is Decline,
{
    if cli_affirmative(first_answer.to_owned()) {
        DetachedResolution::CreateBranch(trim(followup))
    } else if cli_affirmative(followup.to_owned()) {
        DetachedResolution::Discard
    } else {
        DetachedResolution::Decline
    }
}

/// The two ways the detached-position dialogue stops a save.
#[derive(Clone, Copy, PartialEq, Eq, Structural, Debug)]
pub enum WorkflowFailure {
    /// The user chose to discard the changes; the working position was
    /// returned to the branch that was left.
    AbortedDetachedDiscard,
    /// The user declined both offers.
    AbortedDetachedDeclined,
}

impl WorkflowFailure {
    /// A line for the caller to print.
    pub fn message(&self) -> (r: String)
        ensures
            *self is AbortedDetachedDiscard ==> r@
                == "save aborted due to detached head, returned to original branch while discarding changes"@,
            *self is AbortedDetachedDeclined ==> r@ == "save aborted due to detached head"@,
    {
        match self {
            WorkflowFailure::AbortedDetachedDiscard => {
                "save aborted due to detached head, returned to original branch while discarding changes".to_owned()
            },
            WorkflowFailure::AbortedDetachedDeclined => {
                "save aborted due to detached head".to_owned()
            },
        }
    }
}

/// The line a finished save reports: one clause per step that actually
/// ran, and the new version when one was written.
pub open spec fn spec_save_message(v: Option<Version>, pushed: bool, published: bool) -> Seq<
    char,
> {
    "Saved, Committed"@ + (if v is Some {
        ", Tagged"@
    } else {
        Seq::<char>::empty()
    }) + (if pushed {
        ", Pushed"@
    } else {
        Seq::<char>::empty()
    }) + (if published {
        ", Published"@
    } else {
        Seq::<char>::empty()
    }) + "!"@ + (match v {
        Some(ver) => " New version: "@ + spec_version_str(ver),
        None => Seq::<char>::empty(),
    })
}

/// Compose the report line for a finished save.
pub fn compose_save_message(new_version: &Option<Version>, pushed: bool, published: bool) -> (r:
    String)
    ensures
        r@ == spec_save_message(*new_version, pushed, published),
{
    let mut out = "Saved, Committed".to_owned();
    match new_version {
        Some(_) => {
            out.append(", Tagged");
        },
        None => {},
    }
    if pushed {
        out.append(", Pushed");
    }
    if published {
        out.append(", Published");
    }
    out.append("!");
    match new_version {
        Some(ver) => {
            out.append(" New version: ");
            out.append(ver.to_string().as_str());
        },
        None => {},
    }
    proof {
        assert(out@ =~= spec_save_message(*new_version, pushed, published));
    }
    out
}

/// What the caller must do next against the repository or the console.
#[derive(Debug)]
pub enum SaveAction {
    /// Bump this part of the version in the manifest and write it back.
    UpdateManifest(VersionPart),
    /// Ask whether the working position is detached.
    CheckDetached,
    /// Run the detached-position dialogue and report the resolution.
    AskRecovery,
    /// Create this branch from the current changes and switch to it.
    CreateBranchAndSwitch(String),
    /// Return to the branch that was left when the position detached.
    ReturnToOrigin,
    /// Regenerate the lock file.
    GenerateLockfile,
    /// Stage all working-tree changes.
    StageAll,
    /// Commit the staged changes with this message.
    Commit(String),
    /// Create a tag with this name.
    CreateTag(String),
    /// Ask for the configured remote, if any.
    QueryRemote,
    /// Push the current branch and tags to this remote.
    Push(String),
    /// Run the publish action.
    Publish,
    /// The save is done; print this line.
    Report(String),
    /// The save stopped; report this failure.
    Fail(WorkflowFailure),
}

/// What the caller reports back after performing an action.
#[derive(Debug)]
pub enum SaveEvent {
    /// The step succeeded and carries no data.
    Proceed,
    /// The manifest was rewritten around this new version.
    VersionComputed(Version),
    /// Whether the working position is detached.
    Detached(bool),
    /// How the user resolved the detached position.
    Recovery(DetachedResolution),
    /// The configured remote, if any.
    Remote(Option<String>),
}

/// Where the workflow stands between actions.
#[derive(Clone, Copy, PartialEq, Eq, Structural, Debug)]
pub enum SavePhase {
    /// Waiting for the manifest to be rewritten.
    Bumping,
    /// Waiting to hear whether the position is detached.
    Checking,
    /// Waiting for the detached-position dialogue.
    Recovering,
    /// Waiting for the recovery branch to be created.
    Branching,
    /// Waiting for the return to the original branch.
    Discarding,
    /// Waiting for the lock file.
    Locking,
    /// Waiting for the staging step.
    Staging,
    /// Waiting for the commit.
    Committing,
    /// Waiting for the tag.
    Tagging,
    /// Waiting to hear about the remote.
    Querying,
    /// Waiting for the push.
    Pushing,
    /// Waiting for the publish action.
    Publishing,
    /// The save finished.
    Done,
    /// The save stopped.
    Failed,
}

/// Which events answer which phase.
pub open spec fn accepts(phase: SavePhase, event: SaveEvent) -> bool {
    match (phase, event) {
        (SavePhase::Bumping, SaveEvent::VersionComputed(_)) => true,
        (SavePhase::Checking, SaveEvent::Detached(_)) => true,
        (SavePhase::Recovering, SaveEvent::Recovery(_)) => true,
        (SavePhase::Branching, SaveEvent::Proceed) => true,
        (SavePhase::Discarding, SaveEvent::Proceed) => true,
        (SavePhase::Locking, SaveEvent::Proceed) => true,
        (SavePhase::Staging, SaveEvent::Proceed) => true,
        (SavePhase::Committing, SaveEvent::Proceed) => true,
        (SavePhase::Tagging, SaveEvent::Proceed) => true,
        (SavePhase::Querying, SaveEvent::Remote(_)) => true,
        (SavePhase::Pushing, SaveEvent::Proceed) => true,
        (SavePhase::Publishing, SaveEvent::Proceed) => true,
        _ => false,
    }
}

/// The save workflow: a state machine whose actions the caller performs
/// one at a time, feeding the outcome back through `advance`.  A failing
/// repository step simply stops the exchange; nothing already done is
/// rolled back.
pub struct ReleaseWorkflow {
    pub options: SaveModeOptions,
    pub new_version: Option<Version>,
    pub pushed: bool,
    pub phase: SavePhase,
}

impl ReleaseWorkflow {
    /// Begin a save under `options`: bump the manifest first when a
    /// version part was picked, else go straight to the detached check.
    pub fn start(options: SaveModeOptions) -> (r: (ReleaseWorkflow, SaveAction))
        ensures
            r.0.options == options,
            r.0.new_version is None,
            !r.0.pushed,
            match options.update_part {
                Some(p) => r.0.phase is Bumping && (r.1 matches SaveAction::UpdateManifest(q)
                    && q == p),
                None => r.0.phase is Checking && r.1 is CheckDetached,
            },
    {
        let action = match options.update_part {
            Some(p) => SaveAction::UpdateManifest(p),
            None => SaveAction::CheckDetached,
        };
        let phase = match options.update_part {
            Some(_) => SavePhase::Bumping,
            None => SavePhase::Checking,
        };
        (ReleaseWorkflow { options, new_version: None, pushed: false, phase }, action)
    }

    /// Feed the outcome of the last action back and get the next one.
    pub fn advance(&mut self, event: SaveEvent) -> (a: SaveAction)
        requires
            accepts(old(self).phase, event),
        ensures
            final(self).options == old(self).options,
            match (old(self).phase, event) {
                (SavePhase::Bumping, SaveEvent::VersionComputed(v)) => final(self).phase
                    is Checking && final(self).new_version == Some(v) && final(self).pushed
                    == old(self).pushed && a is CheckDetached,
                (SavePhase::Checking, SaveEvent::Detached(d)) => final(self).new_version == old(
                    self,
                ).new_version && final(self).pushed == old(self).pushed && if d {
                    final(self).phase is Recovering && a is AskRecovery
                } else {
                    final(self).phase is Locking && a is GenerateLockfile
                },
                (SavePhase::Recovering, SaveEvent::Recovery(res)) => final(self).new_version
                    == old(self).new_version && final(self).pushed == old(self).pushed
                    && match res {
                    DetachedResolution::CreateBranch(b) => final(self).phase is Branching && (
                    a matches SaveAction::CreateBranchAndSwitch(bb) && bb@ == b@),
                    DetachedResolution::Discard => final(self).phase is Discarding && a
                        is ReturnToOrigin,
                    DetachedResolution::Decline => final(self).phase is Failed && (
                    a matches SaveAction::Fail(f) && f is AbortedDetachedDeclined),
                },
                (SavePhase::Branching, SaveEvent::Proceed) => final(self).phase is Locking
                    && final(self).new_version == old(self).new_version && final(self).pushed
                    == old(self).pushed && a is GenerateLockfile,
                (SavePhase::Discarding, SaveEvent::Proceed) => final(self).phase is Failed
                    && final(self).new_version == old(self).new_version && final(self).pushed
                    == old(self).pushed && (a matches SaveAction::Fail(f) && f
                    is AbortedDetachedDiscard),
                (SavePhase::Locking, SaveEvent::Proceed) => final(self).phase is Staging
                    && final(self).new_version == old(self).new_version && final(self).pushed
                    == old(self).pushed && a is StageAll,
                (SavePhase::Staging, SaveEvent::Proceed) => final(self).phase is Committing
                    && final(self).new_version == old(self).new_version && final(self).pushed
                    == old(self).pushed && (a matches SaveAction::Commit(m) && m@ == (match old(
                    self,
                ).options.commit_message {
                    Some(x) => x@,
                    None => "(undocumented change)"@,
                })),
                (SavePhase::Committing, SaveEvent::Proceed) => final(self).new_version == old(
                    self,
                ).new_version && final(self).pushed == old(self).pushed && match old(
                    self,
                ).new_version {
                    Some(v) => final(self).phase is Tagging && (
                    a matches SaveAction::CreateTag(t) && t@ == spec_version_str(v)),
                    None => final(self).phase is Querying && a is QueryRemote,
                },
                (SavePhase::Tagging, SaveEvent::Proceed) => final(self).phase is Querying
                    && final(self).new_version == old(self).new_version && final(self).pushed
                    == old(self).pushed && a is QueryRemote,
                (SavePhase::Querying, SaveEvent::Remote(o)) => final(self).new_version == old(
                    self,
                ).new_version && match o {
                    Some(rem) => final(self).phase is Pushing && final(self).pushed == old(
                        self,
                    ).pushed && (a matches SaveAction::Push(rr) && rr@ == rem@),
                    None => final(self).pushed == old(self).pushed && if old(
                        self,
                    ).options.publish_after_push {
                        final(self).phase is Publishing && a is Publish
                    } else {
                        final(self).phase is Done && (a matches SaveAction::Report(m) && m@
                            == spec_save_message(old(self).new_version, old(self).pushed, false))
                    },
                },
                (SavePhase::Pushing, SaveEvent::Proceed) => final(self).new_version == old(
                    self,
                ).new_version && final(self).pushed && if old(self).options.publish_after_push {
                    final(self).phase is Publishing && a is Publish
                } else {
                    final(self).phase is Done && (a matches SaveAction::Report(m) && m@
                        == spec_save_message(old(self).new_version, true, false))
                },
                (SavePhase::Publishing, SaveEvent::Proceed) => final(self).phase is Done
                    && final(self).new_version == old(self).new_version && final(self).pushed
                    == old(self).pushed && (a matches SaveAction::Report(m) && m@
                    == spec_save_message(old(self).new_version, old(self).pushed, true)),
                _ => false,
            },
    {
        match event {
            SaveEvent::VersionComputed(v) => {
                self.new_version = Some(v);
                self.phase = SavePhase::Checking;
                SaveAction::CheckDetached
            },
            SaveEvent::Detached(d) => {
                if d {
                    self.phase = SavePhase::Recovering;
                    SaveAction::AskRecovery
                } else {
                    self.phase = SavePhase::Locking;
                    SaveAction::GenerateLockfile
                }
            },
            SaveEvent::Recovery(res) => {
                match res {
                    DetachedResolution::CreateBranch(b) => {
                        self.phase = SavePhase::Branching;
                        SaveAction::CreateBranchAndSwitch(b)
                    },
                    DetachedResolution::Discard => {
                        self.phase = SavePhase::Discarding;
                        SaveAction::ReturnToOrigin
                    },
                    DetachedResolution::Decline => {
                        self.phase = SavePhase::Failed;
                        SaveAction::Fail(WorkflowFailure::AbortedDetachedDeclined)
                    },
                }
            },
            SaveEvent::Remote(o) => {
                match o {
                    Some(rem) => {
                        self.phase = SavePhase::Pushing;
                        SaveAction::Push(rem)
                    },
                    None => {
                        if self.options.publish_after_push {
                            self.phase = SavePhase::Publishing;
                            SaveAction::Publish
                        } else {
                            self.phase = SavePhase::Done;
                            SaveAction::Report(
                                compose_save_message(&self.new_version, self.pushed, false),
                            )
                        }
                    },
                }
            },
            SaveEvent::Proceed => {
                match self.phase {
                    SavePhase::Branching => {
                        self.phase = SavePhase::Locking;
                        SaveAction::GenerateLockfile
                    },
                    SavePhase::Discarding => {
                        self.phase = SavePhase::Failed;
                        SaveAction::Fail(WorkflowFailure::AbortedDetachedDiscard)
                    },
                    SavePhase::Locking => {
                        self.phase = SavePhase::Staging;
                        SaveAction::StageAll
                    },
                    SavePhase::Staging => {
                        self.phase = SavePhase::Committing;
                        let msg = match &self.options.commit_message {
                            Some(x) => x.clone(),
                            None => "(undocumented change)".to_owned(),
                        };
                        SaveAction::Commit(msg)
                    },
                    SavePhase::Committing => {
                        match &self.new_version {
                            Some(v) => {
                                self.phase = SavePhase::Tagging;
                                SaveAction::CreateTag(v.to_string())
                            },
                            None => {
                                self.phase = SavePhase::Querying;
                                SaveAction::QueryRemote
                            },
                        }
                    },
                    SavePhase::Tagging => {
                        self.phase = SavePhase::Querying;
                        SaveAction::QueryRemote
                    },
                    SavePhase::Pushing => {
                        self.pushed = true;
                        if self.options.publish_after_push {
                            self.phase = SavePhase::Publishing;
                            SaveAction::Publish
                        } else {
                            self.phase = SavePhase::Done;
                            SaveAction::Report(
                                compose_save_message(&self.new_version, true, false),
                            )
                        }
                    },
                    _ => {
                        // SavePhase::Publishing is the only phase left
                        // that accepts a plain success report.
                        self.phase = SavePhase::Done;
                        SaveAction::Report(compose_save_message(&self.new_version, self.pushed, true))
                    },
                }
            },
        }
    }
}

} // verus!
