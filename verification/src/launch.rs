//! What happens once the picker has closed: what is opened, and how the
//! program ends.

use vstd::prelude::*;

verus! {

/// What a [`Launch`] stands for.
pub enum LaunchView {
    Cancel,
    Open(Seq<char>),
    Nothing,
}

/// What to do once the picker has closed.
#[derive(Debug, PartialEq, Eq)]
pub enum Launch {
    /// The choice was called off: nothing is opened.
    Cancel,
    /// Open this link.
    Open(String),
    /// Nothing was chosen: nothing is opened.
    Nothing,
}

impl View for Launch {
    type V = LaunchView;

    open spec fn view(&self) -> LaunchView {
        match self {
            Launch::Cancel => LaunchView::Cancel,
            Launch::Open(link) => LaunchView::Open(link@),
            Launch::Nothing => LaunchView::Nothing,
        }
    }
}

/// How a run ended.
#[derive(Clone, Copy, Debug, PartialEq, Eq, Structural)]
pub enum RunEnd {
    /// The chosen link was opened.
    Opened,
    /// Nothing was chosen, and nothing went wrong.
    NothingChosen,
    /// The choice was called off.
    Cancelled,
    /// The chosen link could not be opened.
    OpenFailed,
    /// The run broke off with an error.
    Failed,
}

/// What to do after a choice that was called off, or that gave these links:
/// only the first link is opened.
pub open spec fn launch_of(aborted: bool, chosen: Seq<Seq<char>>) -> LaunchView {
    if aborted {
        LaunchView::Cancel
    } else if chosen.len() == 0 {
        LaunchView::Nothing
    } else {
        LaunchView::Open(chosen[0])
    }
}

/// The exit code of a run: zero after a link was opened or nothing was left
/// to do, one in every other case.
pub open spec fn exit_code_of(end: RunEnd) -> int {
    match end {
        RunEnd::Opened | RunEnd::NothingChosen => 0,
        RunEnd::Cancelled | RunEnd::OpenFailed | RunEnd::Failed => 1,
    }
}

/// What to do once the picker has closed. `aborted` says that the choice was
/// called off, `chosen` holds the links of the files that were chosen. A
/// choice that was called off opens nothing, whatever `chosen` holds; of
/// several links the first is opened.
pub fn after_selection(aborted: bool, chosen: Vec<String>) -> (launch: Launch)
    ensures
        launch@ == launch_of(aborted, chosen.deep_view()),
{
    if aborted {
        return Launch::Cancel;
    }
    let mut chosen = chosen;
    if chosen.len() == 0 {
        Launch::Nothing
    } else {
        let ghost links = chosen.deep_view();
        let link = chosen.swap_remove(0);
        assert(link@ == links[0]);
        Launch::Open(link)
    }
}

/// The exit code of a run that ended as `end`.
pub fn exit_code(end: RunEnd) -> (code: i32)
    ensures
        code == exit_code_of(end),
        code == 0 <==> (end == RunEnd::Opened || end == RunEnd::NothingChosen),
{
    match end {
        RunEnd::Opened | RunEnd::NothingChosen => 0,
        RunEnd::Cancelled | RunEnd::OpenFailed | RunEnd::Failed => 1,
    }
}

} // verus!
