//! The per-request extension store: a mapping from a kind tag to a value,
//! scoped to one request context.
//!
//! Only two kinds of value are ever stored by this core — the request's
//! logging handle and its correlation identifier — so the store is an
//! enum-keyed pair of slots. By construction it holds at most one live value
//! per tag; inserting under an occupied tag replaces the previous value.

use vstd::prelude::*;

verus! {

/// The kind tags under which values are stored.
#[derive(Clone, Copy, PartialEq, Eq, Structural, Debug)]
pub enum ExtensionTag {
    Logger,
    RequestId,
}

/// A stored value, tagged by its kind.
pub enum ExtensionValue {
    Logger(crate::log_initializer::Extension),
    RequestId(crate::request_id::Extension),
}

/// One request's store. Each request context owns exactly one; it is never
/// shared across requests.
pub struct Extensions {
    logger: Option<crate::log_initializer::Extension>,
    request_id: Option<crate::request_id::Extension>,
}

impl Extensions {
    /// The field set of the stored logging handle, if one is present.
    pub closed spec fn logger_view(&self) -> Option<Seq<(Seq<char>, Seq<char>)>> {
        match self.logger {
            Some(e) => Some(e@),
            None => None,
        }
    }

    /// The stored correlation identifier, if one is present.
    pub closed spec fn request_id_view(&self) -> Option<Seq<char>> {
        match self.request_id {
            Some(e) => Some(e@),
            None => None,
        }
    }

    /// An empty store, as a fresh request context owns it.
    pub fn new() -> (r: Extensions)
        ensures
            r.logger_view() is None,
            r.request_id_view() is None,
    {
        Extensions { logger: None, request_id: None }
    }

    /// Store `v` under its kind tag, replacing whatever that tag held; the
    /// other tag's slot is untouched.
    pub fn set(&mut self, v: ExtensionValue)
        ensures
            (v matches ExtensionValue::Logger(e) ==> final(self).logger_view() == Some(e@)
                && final(self).request_id_view() == old(self).request_id_view()),
            (v matches ExtensionValue::RequestId(e) ==> final(self).request_id_view() == Some(e@)
                && final(self).logger_view() == old(self).logger_view()),
    {
        match v {
            ExtensionValue::Logger(e) => {
                self.logger = Some(e);
            },
            ExtensionValue::RequestId(e) => {
                self.request_id = Some(e);
            },
        }
    }

    /// Atomically return and clear the value stored under `tag`; an absent
    /// tag yields `None` and is not an error here.
    pub fn remove(&mut self, tag: ExtensionTag) -> (r: Option<ExtensionValue>)
        ensures
            (tag is Logger ==> final(self).logger_view() is None && final(self).request_id_view()
                == old(self).request_id_view() && (match r {
                Some(ExtensionValue::Logger(e)) => old(self).logger_view() == Some(e@),
                None => old(self).logger_view() is None,
                _ => false,
            })),
            (tag is RequestId ==> final(self).request_id_view() is None
                && final(self).logger_view() == old(self).logger_view() && (match r {
                Some(ExtensionValue::RequestId(e)) => old(self).request_id_view() == Some(e@),
                None => old(self).request_id_view() is None,
                _ => false,
            })),
    {
        match tag {
            ExtensionTag::Logger => {
                match self.logger.take() {
                    Some(e) => Some(ExtensionValue::Logger(e)),
                    None => None,
                }
            },
            ExtensionTag::RequestId => {
                match self.request_id.take() {
                    Some(e) => Some(ExtensionValue::RequestId(e)),
                    None => None,
                }
            },
        }
    }

    /// Read the stored logging handle without removing it.
    pub fn get_logger(&self) -> (r: Option<&crate::log_initializer::Extension>)
        ensures
            (match r {
                Some(e) => self.logger_view() == Some(e@),
                None => self.logger_view() is None,
            }),
    {
        self.logger.as_ref()
    }

    /// Read the stored correlation identifier without removing it.
    pub fn get_request_id(&self) -> (r: Option<&crate::request_id::Extension>)
        ensures
            (match r {
                Some(e) => self.request_id_view() == Some(e@),
                None => self.request_id_view() is None,
            }),
    {
        self.request_id.as_ref()
    }
}

} // verus!
