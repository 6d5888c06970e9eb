use vstd::prelude::*;
use super::{Diagnostic, DiagnosticView, Violation};
use crate::text::owned;

verus! {

/// The report of a rule that a freestanding function breaks.
pub fn function_error(
    violation: Violation,
    namespace: &str,
    function: &str,
    file: &str,
    pos: (usize, usize),
) -> (diagnostic: Diagnostic)
    ensures
        diagnostic@ == function_diagnostic(violation, namespace@, function@, file@, pos),
{
    Diagnostic::new(violation, owned(namespace), None, Some(owned(function)), owned(file), pos)
}

/// The record of a rule that a freestanding function breaks.
pub open spec fn function_diagnostic(
    violation: Violation,
    namespace: Seq<char>,
    function: Seq<char>,
    file: Seq<char>,
    pos: (usize, usize),
) -> DiagnosticView {
    DiagnosticView { violation, namespace, class: None, member: Some(function), file, pos }
}

} // verus!
