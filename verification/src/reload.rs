//! The reload controller's decision logic.
//!
//! An out-of-band trigger arrives asynchronously; only the reload kind
//! starts a rebuild cycle. The two auxiliary kinds are recognized and
//! noted but perform no state change. The outcome of a rebuild is
//! applied to the store by `ConfigStore::apply_reload`.

use vstd::prelude::*;

verus! {

/// The semantic kinds of out-of-band trigger this system recognizes.
#[derive(Clone, Copy, Debug, PartialEq, Eq, Structural)]
pub enum Trigger {
    /// Rebuild the configuration and publish it on success.
    Reload,
    /// Reserved for future extension; noted and ignored.
    AuxOne,
    /// Reserved for future extension; noted and ignored.
    AuxTwo,
}

/// What the reload task does on a trigger.
#[derive(Clone, Copy, Debug, PartialEq, Eq, Structural)]
pub enum TriggerAction {
    /// Run one build-and-publish cycle.
    Rebuild,
    /// Log the trigger and change nothing.
    Note,
}

/// Exactly the reload trigger starts a rebuild cycle; every other kind
/// is a logged no-op.
pub fn trigger_action(t: Trigger) -> (r: TriggerAction)
    ensures
        r == TriggerAction::Rebuild <==> t == Trigger::Reload,
{
    match t {
        Trigger::Reload => TriggerAction::Rebuild,
        Trigger::AuxOne => TriggerAction::Note,
        Trigger::AuxTwo => TriggerAction::Note,
    }
}

} // verus!
