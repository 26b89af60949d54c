//! Output sinks: where the report engine writes its text.

use vstd::prelude::*;

verus! {

use vstd::string::StrSliceExecFns;
use vstd::string::StringExecFns;

use crate::MedicError;

/// A text sink the report engine writes to.
///
/// The in-memory [`StringSink`] is the provided implementation; callers
/// that need the report elsewhere collect it there and move the text on.
/// Writes are atomic: a refused write changes nothing, and the engine
/// surfaces the failure without writing further.  A sink that accepts
/// every write never makes a run fail.
pub trait ReportSink {
    /// The text written to this sink so far.
    spec fn content(&self) -> Seq<char>;

    /// Whether this sink takes ANSI styling sequences.
    spec fn is_color(&self) -> bool;

    /// Whether this sink takes every write: no write to it ever fails.
    spec fn accepts_all(&self) -> bool;

    /// Whether this sink takes ANSI styling sequences; fixed per sink.
    fn color_capable(&self) -> (r: bool)
        ensures
            r == self.is_color(),
    ;

    /// Write `s` to the sink: on success the whole of it, after what came
    /// before; on failure nothing, and the failure is an engine-level I/O
    /// error.
    fn write_str(&mut self, s: &str) -> (r: Result<(), MedicError>)
        ensures
            final(self).is_color() == old(self).is_color(),
            final(self).accepts_all() == old(self).accepts_all(),
            old(self).accepts_all() ==> r is Ok,
            r is Ok ==> final(self).content() == old(self).content() + s@,
            r is Err ==> final(self).content() == old(self).content(),
            r is Err ==> r->Err_0 is IoError,
    ;
}

/// An in-memory sink that collects the report in a `String`.
///
/// It can be built plain or color-capable, and with a bound on how many
/// characters it takes in all before further writes fail, which gives
/// callers a deterministic stand-in for a sink whose writes can go wrong.
pub struct StringSink {
    data: String,
    colored: bool,
    limit: Option<usize>,
}

impl StringSink {
    /// The bound on how many characters this sink takes in all, if any.
    pub closed spec fn spec_limit(&self) -> Option<usize> {
        self.limit
    }

    /// Whether `extra` more characters stay within this sink's bound.
    pub open spec fn fits(&self, extra: nat) -> bool {
        match self.spec_limit() {
            Option::None => true,
            Option::Some(limit) => self.content().len() + extra <= limit,
        }
    }

    /// A plain, unbounded sink.
    pub fn new() -> (r: StringSink)
        ensures
            r.content() == Seq::<char>::empty(),
            !r.is_color(),
            r.accepts_all(),
            r.spec_limit() is None,
    {
        StringSink { data: String::new(), colored: false, limit: None }
    }

    /// A color-capable, unbounded sink.
    pub fn colored() -> (r: StringSink)
        ensures
            r.content() == Seq::<char>::empty(),
            r.is_color(),
            r.accepts_all(),
            r.spec_limit() is None,
    {
        StringSink { data: String::new(), colored: true, limit: None }
    }

    /// A plain sink that takes at most `limit` characters in all; a write
    /// that would go beyond fails and changes nothing.
    pub fn with_limit(limit: usize) -> (r: StringSink)
        ensures
            r.content() == Seq::<char>::empty(),
            !r.is_color(),
            r.spec_limit() == Some(limit),
    {
        StringSink { data: String::new(), colored: false, limit: Some(limit) }
    }

    /// The collected text.
    pub fn into_string(self) -> (r: String)
        ensures
            r@ == self.content(),
    {
        self.data
    }
}

impl ReportSink for StringSink {
    closed spec fn content(&self) -> Seq<char> {
        self.data@
    }

    closed spec fn is_color(&self) -> bool {
        self.colored
    }

    closed spec fn accepts_all(&self) -> bool {
        self.limit is None
    }

    fn color_capable(&self) -> (r: bool) {
        self.colored
    }

    fn write_str(&mut self, s: &str) -> (r: Result<(), MedicError>)
        ensures
            final(self).spec_limit() == old(self).spec_limit(),
            (r is Ok) <==> old(self).fits(s@.len()),
            r is Err ==> *final(self) == *old(self),
    {
        match self.limit {
            None => {
                self.data.append(s);
                Ok(())
            },
            Some(limit) => {
                let have: usize = self.data.unicode_len();
                let want: usize = s.unicode_len();
                if have > limit || want > limit - have {
                    Err(MedicError::IoError(String::from_str("sink is full")))
                } else {
                    self.data.append(s);
                    Ok(())
                }
            },
        }
    }
}

} // verus!
