//! Administrative state of network interfaces.

use vstd::prelude::*;

verus! {

/// A request to the system's interface configuration tool.
#[derive(Clone, Copy, Debug, PartialEq, Eq, Structural)]
pub enum LinkCommand {
    SetUp,
    SetDown,
    Delete,
}

/// What to do before using an interface.
#[derive(Clone, Copy, Debug, PartialEq, Eq, Structural)]
pub enum UpPlan {
    /// No interface of that name exists: a fatal startup error.
    Missing,
    /// It is up already.
    Ready,
    /// Issue `LinkCommand::SetUp`; failing that is a fatal startup error.
    BringUp,
}

/// Decides how to make sure that an interface is up.
pub fn up_plan(found: bool, is_up: bool) -> (r: UpPlan)
    ensures
        !found <==> r == UpPlan::Missing,
        found && is_up <==> r == UpPlan::Ready,
        found && !is_up <==> r == UpPlan::BringUp,
{
    if !found {
        UpPlan::Missing
    } else if is_up {
        UpPlan::Ready
    } else {
        UpPlan::BringUp
    }
}

} // verus!
