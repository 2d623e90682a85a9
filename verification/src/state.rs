//! Shared application state: created once at startup, read-only afterwards,
//! referenced by every request-processing unit. It holds the process-wide
//! root logging handle.

use crate::logger::LoggerHandle;
use vstd::prelude::*;

verus! {

/// What every request-handling unit may ask of the shared state: the root
/// logging handle.
pub trait State {
    /// The field set of the root handle this state holds.
    spec fn root_view(&self) -> Seq<(Seq<char>, Seq<char>)>;

    /// The root handle itself, borrowed; the state is never mutated.
    fn log(&self) -> (r: &LoggerHandle)
        ensures
            r@ == self.root_view(),
    ;
}

/// The one concrete application state: it owns the root handle.
pub struct StateImpl {
    pub log: LoggerHandle,
}

impl State for StateImpl {
    open spec fn root_view(&self) -> Seq<(Seq<char>, Seq<char>)> {
        self.log@
    }

    fn log(&self) -> (r: &LoggerHandle) {
        &self.log
    }
}

} // verus!
