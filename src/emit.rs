//! The accumulating error sink of conversion and transforms, and the helper
//! preamble that emission writes from the final collector.

use vstd::prelude::*;
use crate::flags::{HelperCollector, RuntimeHelper, lists_in_order, name_of, resolvable};

verus! {

/// Where an error was found.
#[derive(PartialEq, Eq, Structural, Clone, Copy, Debug)]
pub enum ErrorKind {
    /// A syntax-tree construct has no IR form.
    Conversion,
    /// A pass found a structural constraint broken.
    Transform,
}

/// An error with the byte span of the source it concerns.
#[derive(PartialEq, Eq, Structural, Clone, Copy, Debug)]
pub struct CompileError {
    pub kind: ErrorKind,
    pub start: usize,
    pub end: usize,
}

/// Errors reported during conversion and the transform passes, in order.
pub struct ErrorSink {
    errors: Vec<CompileError>,
}

impl View for ErrorSink {
    type V = Seq<CompileError>;

    closed spec fn view(&self) -> Seq<CompileError> {
        self.errors@
    }
}

impl ErrorSink {
    pub fn new() -> (r: Self)
        ensures
            r@ == Seq::<CompileError>::empty(),
    {
        ErrorSink { errors: Vec::new() }
    }

    /// Records an error; work may go on after it.
    pub fn report(&mut self, e: CompileError)
        ensures
            final(self)@ == old(self)@.push(e),
    {
        self.errors.push(e);
    }

    pub fn has_errors(&self) -> (r: bool)
        ensures
            r == (self@.len() > 0),
    {
        self.errors.len() > 0
    }

    pub fn len(&self) -> (r: usize)
        ensures
            r == self@.len(),
    {
        self.errors.len()
    }
}

/// Why emission produced nothing.
#[derive(PartialEq, Eq, Structural, Clone, Copy, Debug)]
pub enum EmitError {
    /// An error was recorded earlier in the compile.
    ErrorsRecorded,
    /// A collected custom helper has no name in the table.
    MissingHelper(RuntimeHelper),
}

/// The names that emission imports for `helpers`: refused when any error was
/// recorded, or when a listed helper has no name; otherwise the names of the
/// listed helpers in ascending id order.
pub fn preamble(sink: &ErrorSink, helpers: &HelperCollector, map: &[&'static str]) -> (r: Result<
    Vec<&'static str>,
    EmitError,
>)
    ensures
        r == Err::<Vec<&'static str>, EmitError>(EmitError::ErrorsRecorded) <==> sink@.len() > 0,
        r is Ok <==> sink@.len() == 0 && forall|i: u8| #[trigger] helpers.listed().contains(i) ==> resolvable(i, map@),
        r matches Ok(names) ==> exists|s: Seq<RuntimeHelper>|
            {
                &&& lists_in_order(s, helpers.listed())
                &&& names@.len() == s.len()
                &&& forall|k: int| 0 <= k < s.len() ==> names@[k] == name_of(#[trigger] s[k]@, map@)
            },
        r matches Err(EmitError::MissingHelper(h)) ==> sink@.len() == 0 && helpers.listed().contains(h@)
            && !resolvable(h@, map@),
{
    if sink.has_errors() {
        return Err(EmitError::ErrorsRecorded);
    }
    match helpers.helper_names(map) {
        Ok(names) => Ok(names),
        Err(h) => Err(EmitError::MissingHelper(h)),
    }
}

/// The preamble of hoisted output: as `preamble`, over the helpers of
/// `helpers` that are legal in hoisted output.
pub fn hoisted_preamble(sink: &ErrorSink, helpers: &HelperCollector, map: &[&'static str]) -> (r: Result<
    Vec<&'static str>,
    EmitError,
>)
    ensures
        r == Err::<Vec<&'static str>, EmitError>(EmitError::ErrorsRecorded) <==> sink@.len() > 0,
        r is Ok <==> sink@.len() == 0 && forall|i: u8| #[trigger] helpers.hoisted().listed().contains(i) ==> resolvable(i, map@),
        r matches Ok(names) ==> exists|s: Seq<RuntimeHelper>|
            {
                &&& lists_in_order(s, helpers.hoisted().listed())
                &&& names@.len() == s.len()
                &&& forall|k: int| 0 <= k < s.len() ==> names@[k] == name_of(#[trigger] s[k]@, map@)
            },
{
    let h = helpers.hoist_helpers();
    preamble(sink, &h, map)
}

} // verus!
