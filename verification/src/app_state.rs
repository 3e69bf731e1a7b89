//! Interactive-session state that the user interface cycles through:
//! views, dialog steps and the batch move strategies, with display
//! helpers for episode numbers and list entries.

use vstd::prelude::*;

use crate::text::{chars_to_string, pad2_digits, push_pad2, push_str_chars, to_chars};

verus! {

/// The steps of the dialog that adds a tracked series.
#[derive(Debug, Clone, Copy, PartialEq, Eq, Structural)]
pub enum TrackingDialogStep {
    Query,
    Group,
    Quality,
    Confirm,
}

/// The state of the tracking dialog.
pub struct TrackingDialogState {
    pub step: TrackingDialogStep,
    pub input_query: String,
    pub input_group: String,
    pub input_quality: String,
}

impl Default for TrackingDialogState {
    /// A fresh dialog at its first step with empty inputs.
    fn default() -> (r: TrackingDialogState)
        ensures
            r.step == TrackingDialogStep::Query,
            r.input_query@.len() == 0,
            r.input_group@.len() == 0,
            r.input_quality@.len() == 0,
    {
        TrackingDialogState {
            step: TrackingDialogStep::Query,
            input_query: String::new(),
            input_group: String::new(),
            input_quality: String::new(),
        }
    }
}

/// The screens of the interactive session.
#[derive(Debug, Clone, Copy, PartialEq, Eq, Structural)]
pub enum AppView {
    Library,
    Episodes,
    Search,
    Downloads,
    MoveDialog,
    TrackingDialog,
    DeleteDialog,
    Help,
    TrackingList,
}

/// What a delete dialog is about to remove.
#[derive(Debug, Clone, PartialEq, Eq, Structural)]
pub enum DeleteTarget {
    /// A whole show, by position.
    Show(usize),
    /// One episode, by show and episode position.
    Episode(usize, usize),
}

/// The state of the delete dialog.
pub struct DeleteDialogState {
    pub target: DeleteTarget,
    pub name: String,
}

impl Default for DeleteDialogState {
    /// A dialog aimed at the first show with no name filled in.
    fn default() -> (r: DeleteDialogState)
        ensures
            r.target == DeleteTarget::Show(0usize),
            r.name@.len() == 0,
    {
        DeleteDialogState { target: DeleteTarget::Show(0), name: String::new() }
    }
}

/// The steps of the dialog that moves a finished download.
#[derive(Debug, Clone, Copy, PartialEq, Eq, Structural)]
pub enum MoveDialogStep {
    SelectMediaDir,
    SelectShow,
    BatchPreview,
    EditFilename,
}

/// How a batch download is laid down in the library.
#[derive(Debug, Clone, Copy, PartialEq, Eq, Structural)]
pub enum BatchMoveStrategy {
    /// Season folders are kept as they are.
    PreserveStructure,
    /// Every video lands directly in the show folder.
    Flatten,
}

impl BatchMoveStrategy {
    /// The display label of the strategy.
    pub fn as_str(&self) -> (r: &'static str)
        ensures
            r@ == match *self {
                BatchMoveStrategy::PreserveStructure => "Preserve Structure"@,
                BatchMoveStrategy::Flatten => "Flatten All"@,
            },
    {
        match self {
            BatchMoveStrategy::PreserveStructure => "Preserve Structure",
            BatchMoveStrategy::Flatten => "Flatten All",
        }
    }

    /// The other strategy; the selector cycles between the two.
    pub fn next(&self) -> (r: BatchMoveStrategy)
        ensures
            r == match *self {
                BatchMoveStrategy::PreserveStructure => BatchMoveStrategy::Flatten,
                BatchMoveStrategy::Flatten => BatchMoveStrategy::PreserveStructure,
            },
    {
        match self {
            BatchMoveStrategy::PreserveStructure => BatchMoveStrategy::Flatten,
            BatchMoveStrategy::Flatten => BatchMoveStrategy::PreserveStructure,
        }
    }
}

impl Default for BatchMoveStrategy {
    /// Structure is preserved unless the user asks otherwise.
    fn default() -> (r: BatchMoveStrategy)
        ensures
            r == BatchMoveStrategy::PreserveStructure,
    {
        BatchMoveStrategy::PreserveStructure
    }
}

/// Formats an episode number with two-digit zero padding.
pub fn format_episode_num(num: u32) -> (r: String)
    ensures
        r@ == pad2_digits(num as nat),
{
    let mut c: Vec<char> = Vec::new();
    push_pad2(&mut c, num);
    chars_to_string(&c)
}

/// Shortens a name to at most `max_len` characters, closing with an
/// ellipsis when it was cut.
pub fn truncate_name(name: &str, max_len: usize) -> (r: String)
    requires
        max_len >= 3,
    ensures
        name@.len() <= max_len ==> r@ == name@,
        name@.len() > max_len ==> r@ == name@.subrange(0, max_len - 3) + "..."@,
{
    let v = to_chars(name);
    if v.len() <= max_len {
        return String::from_str(name);
    }
    let keep = max_len - 3;
    let mut out: Vec<char> = Vec::new();
    let mut t: usize = 0;
    while t < keep
        invariant
            t <= keep,
            keep <= v@.len(),
            out@ == v@.subrange(0, t as int),
        decreases keep - t,
    {
        out.push(v[t]);
        t += 1;
        proof {
            assert(out@ =~= v@.subrange(0, t as int));
        }
    }
    push_str_chars(&mut out, "...");
    chars_to_string(&out)
}

} // verus!
