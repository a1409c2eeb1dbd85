//! The tool modules and what they have in common.

use vstd::prelude::*;

pub mod clipboard_purifier;
pub mod icon_locker;
pub mod keep_awake;
pub mod popup_blocker;
pub mod port_hunter;
pub mod pump;

verus! {

/// Why a module could not be started or stopped, as it is told to the user.
pub type ModuleError = String;

/// A tool that can be switched on and off.
///
/// Starting a running module and stopping a stopped one succeed and leave it as it
/// is. Neither changes what the module is called.
///
/// The ghost functions describe a module to its callers. Their defaults say nothing of
/// it, for implementations that are not verified; a verified one gives its own.
pub trait ToolModule: Sized {
    /// The identifier under which the module is registered.
    open spec fn id_text(&self) -> Seq<char> {
        arbitrary()
    }

    /// The name that the user sees.
    open spec fn name_text(&self) -> Seq<char> {
        arbitrary()
    }

    /// What the module does, in a sentence.
    open spec fn description_text(&self) -> Seq<char> {
        arbitrary()
    }

    /// Whether the module is running.
    open spec fn running(&self) -> bool {
        arbitrary()
    }

    /// Whether starting `before` can return `r` and leave the module as `after`.
    open spec fn can_start(before: Self, after: Self, r: Result<(), ModuleError>) -> bool {
        true
    }

    /// Whether stopping `before` can return `r` and leave the module as `after`.
    open spec fn can_stop(before: Self, after: Self, r: Result<(), ModuleError>) -> bool {
        true
    }

    /// The identifier under which the module is registered.
    fn id(&self) -> (r: &'static str)
        ensures
            r@ == self.id_text(),
    ;

    /// The name that the user sees.
    fn display_name(&self) -> (r: &'static str)
        ensures
            r@ == self.name_text(),
    ;

    /// What the module does, in a sentence.
    fn description(&self) -> (r: &'static str)
        ensures
            r@ == self.description_text(),
    ;

    /// Whether the module is running.
    fn is_running(&self) -> (r: bool)
        ensures
            r == self.running(),
    ;

    /// Starts the module.
    fn start(&mut self) -> (r: Result<(), ModuleError>)
        ensures
            Self::can_start(*old(self), *final(self), r),
            final(self).id_text() == old(self).id_text(),
            final(self).name_text() == old(self).name_text(),
            final(self).description_text() == old(self).description_text(),
            old(self).running() ==> r is Ok && final(self).running(),
    ;

    /// Stops the module.
    fn stop(&mut self) -> (r: Result<(), ModuleError>)
        ensures
            Self::can_stop(*old(self), *final(self), r),
            final(self).id_text() == old(self).id_text(),
            final(self).name_text() == old(self).name_text(),
            final(self).description_text() == old(self).description_text(),
            !old(self).running() ==> r is Ok && !final(self).running(),
    ;
}

} // verus!
