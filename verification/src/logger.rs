//! Immutable structured-logging handles, the records they emit, and the
//! append-only sink that collects those records.
//!
//! A [`LoggerHandle`] carries an ordered list of key/value fields. Deriving a
//! child handle never mutates the parent: it yields a new handle whose fields
//! are the parent's fields followed by the extra ones. Emitting a record
//! produces a [`LogRecord`] holding the handle's fields plus the per-call
//! fields; a [`Sink`] only ever grows by appending such records, the order of
//! what was already enqueued is kept.

use vstd::prelude::*;

verus! {

/// The mathematical value of a field list: each `(String, String)` pair seen
/// as a pair of character sequences.
pub open spec fn fields_view(fs: Seq<(String, String)>) -> Seq<(Seq<char>, Seq<char>)> {
    Seq::new(fs.len(), |i: int| (fs[i].0@, fs[i].1@))
}

/// An immutable handle to a logging context: an ordered list of structured
/// key/value fields. Its view is the field list as character sequences.
pub struct LoggerHandle {
    fields: Vec<(String, String)>,
}

impl View for LoggerHandle {
    type V = Seq<(Seq<char>, Seq<char>)>;

    closed spec fn view(&self) -> Seq<(Seq<char>, Seq<char>)> {
        fields_view(self.fields@)
    }
}

/// One structured record handed to the sink: a message plus the full field
/// set it was emitted with.
pub struct LogRecord {
    pub message: String,
    pub fields: Vec<(String, String)>,
}

/// The mathematical value of a [`LogRecord`].
#[verifier::ext_equal]
pub ghost struct RecordView {
    pub message: Seq<char>,
    pub fields: Seq<(Seq<char>, Seq<char>)>,
}

impl View for LogRecord {
    type V = RecordView;

    open spec fn view(&self) -> RecordView {
        RecordView { message: self.message@, fields: fields_view(self.fields@) }
    }
}

impl LoggerHandle {
    /// The root handle of a process, seeded with the given base fields.
    pub fn root(base: Vec<(String, String)>) -> (r: LoggerHandle)
        ensures
            r@ == fields_view(base@),
    {
        LoggerHandle { fields: base }
    }

    /// A copy of this handle: handle duplication, the parent stays usable.
    pub fn duplicate(&self) -> (r: LoggerHandle)
        ensures
            r@ == self@,
    {
        LoggerHandle { fields: clone_fields(&self.fields) }
    }

    /// A new handle whose fields are this handle's fields followed by
    /// `extra`. The receiver is not changed.
    pub fn child(&self, extra: &Vec<(String, String)>) -> (r: LoggerHandle)
        ensures
            r@ == self@ + fields_view(extra@),
    {
        let mut fields = clone_fields(&self.fields);
        let more = clone_fields(extra);
        let ghost before = fields@;
        let mut i: usize = 0;
        while i < more.len()
            invariant
                i <= more.len(),
                more@ == extra@,
                before == self.fields@,
                fields@ == before + more@.take(i as int),
            decreases more.len() - i,
        {
            let p = (more[i].0.clone(), more[i].1.clone());
            fields.push(p);
            proof {
                assert(before + more@.take(i as int) + seq![more@[i as int]] =~= before
                    + more@.take(i + 1));
            }
            i += 1;
        }
        proof {
            assert(fields@ =~= self.fields@ + extra@);
            assert(fields_view(self.fields@ + extra@) =~= fields_view(self.fields@)
                + fields_view(extra@));
        }
        LoggerHandle { fields }
    }

    /// The record this handle emits for `message` with the per-call fields
    /// `extra`: the handle's own fields followed by `extra`.
    pub fn record(&self, message: String, extra: &Vec<(String, String)>) -> (r: LogRecord)
        ensures
            r@.message == message@,
            r@.fields == self@ + fields_view(extra@),
    {
        let annotated = self.child(extra);
        LogRecord { message, fields: annotated.fields }
    }

    /// How many fields this handle carries.
    pub fn len(&self) -> (r: usize)
        ensures
            r == self@.len(),
    {
        self.fields.len()
    }

    /// The fields themselves, for a reader outside the core.
    pub fn fields(&self) -> (r: &Vec<(String, String)>)
        ensures
            fields_view(r@) == self@,
    {
        &self.fields
    }
}

/// An element-exact copy of a field list.
fn clone_fields(fs: &Vec<(String, String)>) -> (r: Vec<(String, String)>)
    ensures
        r@ == fs@,
{
    let mut out: Vec<(String, String)> = Vec::new();
    let mut i: usize = 0;
    while i < fs.len()
        invariant
            i <= fs.len(),
            out@ == fs@.take(i as int),
        decreases fs.len() - i,
    {
        let p = (fs[i].0.clone(), fs[i].1.clone());
        out.push(p);
        proof {
            assert(fs@.take(i as int).push(fs@[i as int]) =~= fs@.take(i + 1));
        }
        i += 1;
    }
    proof {
        assert(fs@.take(fs@.len() as int) =~= fs@);
    }
    out
}

/// The append-only collector of emitted records. It stands for the external
/// asynchronous sink: a log call enqueues a record here and returns; nothing
/// in the core ever removes or reorders records.
pub struct Sink {
    records: Vec<LogRecord>,
}

impl View for Sink {
    type V = Seq<RecordView>;

    closed spec fn view(&self) -> Seq<RecordView> {
        Seq::new(self.records@.len(), |i: int| self.records@[i]@)
    }
}

impl Sink {
    /// An empty sink.
    pub fn new() -> (r: Sink)
        ensures
            r@ == Seq::<RecordView>::empty(),
    {
        let s = Sink { records: Vec::new() };
        proof {
            assert(s@ =~= Seq::<RecordView>::empty());
        }
        s
    }

    /// Enqueue one record; everything already enqueued is kept in place.
    pub fn append(&mut self, r: LogRecord)
        ensures
            final(self)@ == old(self)@.push(r@),
    {
        let ghost prior = self@;
        self.records.push(r);
        proof {
            assert(self@ =~= prior.push(self.records@.last()@));
        }
    }

    /// How many records have been enqueued.
    pub fn len(&self) -> (r: usize)
        ensures
            r == self@.len(),
    {
        self.records.len()
    }

    /// The record at position `i`, for a reader outside the core.
    pub fn record_at(&self, i: usize) -> (r: &LogRecord)
        requires
            i < self@.len(),
        ensures
            r@ == self@[i as int],
    {
        &self.records[i]
    }
}

} // verus!
