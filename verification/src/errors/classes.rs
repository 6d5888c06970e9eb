use vstd::prelude::*;
use super::{Diagnostic, DiagnosticView, Violation};
use crate::text::owned;

verus! {

/// The report of a rule that a class breaks.
pub fn class_error(
    violation: Violation,
    namespace: &str,
    class: &str,
    file: &str,
    pos: (usize, usize),
) -> (diagnostic: Diagnostic)
    ensures
        diagnostic@ == class_diagnostic(violation, namespace@, class@, file@, pos),
{
    Diagnostic::new(violation, owned(namespace), Some(owned(class)), None, owned(file), pos)
}

/// The report of a rule that a member of a class breaks.
pub fn class_member_error(
    violation: Violation,
    namespace: &str,
    class: &str,
    member: &str,
    file: &str,
    pos: (usize, usize),
) -> (diagnostic: Diagnostic)
    ensures
        diagnostic@ == member_diagnostic(violation, namespace@, class@, member@, file@, pos),
{
    Diagnostic::new(
        violation,
        owned(namespace),
        Some(owned(class)),
        Some(owned(member)),
        owned(file),
        pos,
    )
}

/// The record of a rule that a class breaks.
pub open spec fn class_diagnostic(
    violation: Violation,
    namespace: Seq<char>,
    class: Seq<char>,
    file: Seq<char>,
    pos: (usize, usize),
) -> DiagnosticView {
    DiagnosticView { violation, namespace, class: Some(class), member: None, file, pos }
}

/// The record of a rule that a member of a class breaks.
pub open spec fn member_diagnostic(
    violation: Violation,
    namespace: Seq<char>,
    class: Seq<char>,
    member: Seq<char>,
    file: Seq<char>,
    pos: (usize, usize),
) -> DiagnosticView {
    DiagnosticView { violation, namespace, class: Some(class), member: Some(member), file, pos }
}

} // verus!
