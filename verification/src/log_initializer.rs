//! The first middleware stage: at the start of each request it duplicates
//! the shared root logging handle and stores it in the request's extension
//! store, so that later stages and the handler find a logger there.

use crate::chain::Response;
use crate::chain::StageSignal;
use crate::logger::LoggerHandle;
use crate::state::State;
use crate::store::ExtensionValue;
use crate::store::Extensions;
use vstd::prelude::*;

verus! {

/// The stage itself; it carries no state of its own.
pub struct Middleware;

/// The extension registered by this middleware to make a logging handle
/// accessible to later stages and the handler.
pub struct Extension(pub LoggerHandle);

impl View for Extension {
    type V = Seq<(Seq<char>, Seq<char>)>;

    open spec fn view(&self) -> Seq<(Seq<char>, Seq<char>)> {
        self.0@
    }
}

impl Middleware {
    /// On request start: copy the state's root handle into the store under
    /// the logger tag, replacing whatever was there. Never short-circuits
    /// and never rejects a request.
    pub fn start<S: State>(&self, state: &S, ext: &mut Extensions) -> (r: StageSignal)
        ensures
            final(ext).logger_view() == Some(state.root_view()),
            final(ext).request_id_view() == old(ext).request_id_view(),
            r == StageSignal::Continue,
    {
        let log = state.log().duplicate();
        ext.set(ExtensionValue::Logger(Extension(log)));
        StageSignal::Continue
    }

    /// On response completion: pass-through, no action.
    pub fn response(&self, resp: Response) -> (r: Response)
        ensures
            r == resp,
    {
        resp
    }
}

} // verus!
