//! The second middleware stage: it mints the request's correlation
//! identifier, stores it, emits one diagnostic record on the handle the
//! first stage installed, and replaces that handle with a child annotated
//! with the identifier.
//!
//! It must run strictly after the log-initializer stage. Finding no stored
//! handle means the ordering contract is broken, and the stage fails that
//! request fast rather than fabricate a fallback logger.

use crate::chain::ChainError;
use crate::chain::Response;
use crate::chain::StageSignal;
use crate::logger::RecordView;
use crate::logger::Sink;
use crate::store::ExtensionTag;
use crate::store::ExtensionValue;
use crate::store::Extensions;
use vstd::prelude::*;

verus! {

/// The stage itself; it carries no state of its own.
pub struct Middleware;

/// The extension registered by this middleware to make the request's
/// correlation identifier accessible.
pub struct Extension(pub String);

impl View for Extension {
    type V = Seq<char>;

    open spec fn view(&self) -> Seq<char> {
        self.0@
    }
}

/// A lowercase hexadecimal digit: `0` to `9` or `a` to `f`.
pub open spec fn is_lower_hex_digit(c: char) -> bool {
    (('0' as u32) <= (c as u32) && (c as u32) <= ('9' as u32)) || (('a' as u32) <= (c as u32) && (
    c as u32) <= ('f' as u32))
}

/// The shape of every correlation identifier: a 128-bit value rendered as
/// exactly 32 lowercase hexadecimal characters, no separators.
pub open spec fn is_correlation_id(s: Seq<char>) -> bool {
    s.len() == 32 && (forall|i: int| 0 <= i < s.len() ==> is_lower_hex_digit(#[trigger] s[i]))
}

/// The field key under which the identifier is recorded.
pub open spec fn request_id_key() -> Seq<char> {
    "request_id"@
}

/// The message of the diagnostic record this stage emits.
pub open spec fn generated_message() -> Seq<char> {
    "Generated request ID"@
}

/// Relies on `uuid::Uuid::new_v4` and the `Display` of `uuid::fmt::Simple`:
/// a fresh random 128-bit value rendered as exactly 32 lowercase
/// hexadecimal digits. The value is random, so nothing beyond its shape is
/// stated.
#[verifier::external_body]
fn fresh_correlation_id() -> (r: String)
    ensures
        is_correlation_id(r@),
{
    uuid::Uuid::new_v4().simple().to_string()
}

impl Middleware {
    /// On request start: generate the identifier, store it under the
    /// request-id tag, remove the stored logging handle, emit one
    /// diagnostic record on it, and store back a child handle annotated
    /// with the identifier.
    ///
    /// An absent handle is the designated invariant-violation failure: the
    /// identifier is already stored, but no record is emitted and no
    /// logger is fabricated.
    pub fn start(&self, ext: &mut Extensions, sink: &mut Sink) -> (r: Result<
        StageSignal,
        ChainError,
    >)
        ensures
            old(ext).logger_view() is None ==> ({
                &&& r == Err::<StageSignal, ChainError>(ChainError::MissingLogger)
                &&& final(ext).logger_view() is None
                &&& (exists|id: Seq<char>|
                    is_correlation_id(id) && final(ext).request_id_view() == Some(id))
                &&& final(sink)@ == old(sink)@
            }),
            old(ext).logger_view() matches Some(l) ==> (exists|id: Seq<char>|
                {
                    &&& is_correlation_id(id)
                    &&& r == Ok::<StageSignal, ChainError>(StageSignal::Continue)
                    &&& final(ext).request_id_view() == Some(id)
                    &&& final(ext).logger_view() == Some(l.push((request_id_key(), id)))
                    &&& final(sink)@ == old(sink)@.push(
                        RecordView {
                            message: generated_message(),
                            fields: l.push((request_id_key(), id)),
                        },
                    )
                }),
    {
        let request_id = fresh_correlation_id();
        ext.set(ExtensionValue::RequestId(Extension(request_id.clone())));
        match ext.remove(ExtensionTag::Logger) {
            None => Err(ChainError::MissingLogger),
            Some(ExtensionValue::Logger(removed)) => {
                let ghost idw = request_id@;
                let log = removed.0;
                let mut call_fields: Vec<(String, String)> = Vec::new();
                call_fields.push(("request_id".to_owned(), request_id));
                let record = log.record("Generated request ID".to_owned(), &call_fields);
                sink.append(record);
                let annotated = log.child(&call_fields);
                ext.set(ExtensionValue::Logger(crate::log_initializer::Extension(annotated)));
                proof {
                    let l = old(ext).logger_view().unwrap();
                    assert(is_correlation_id(idw));
                    assert(ext.request_id_view() == Some(idw));
                    assert(crate::logger::fields_view(call_fields@) =~= seq![
                        (request_id_key(), idw),
                    ]);
                    assert(l + crate::logger::fields_view(call_fields@) =~= l.push(
                        (request_id_key(), idw),
                    ));
                    assert(ext.logger_view() == Some(l.push((request_id_key(), idw))));
                    assert(sink@ == old(sink)@.push(
                        RecordView {
                            message: generated_message(),
                            fields: l.push((request_id_key(), idw)),
                        },
                    ));
                }
                Ok(StageSignal::Continue)
            },
            Some(ExtensionValue::RequestId(_)) => {
                proof {
                    assert(false);
                }
                Err(ChainError::MissingLogger)
            },
        }
    }

    /// On response completion: pass-through, no action.
    pub fn response(&self, resp: Response) -> (r: Response)
        ensures
            r == resp,
    {
        resp
    }
}

} // verus!
