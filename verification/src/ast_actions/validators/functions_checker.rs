use vstd::prelude::*;
use crate::ast::{File, FileView, FirstClassEntity, FirstClassEntityView, Function, FunctionView};
use crate::ast_actions::validators::{
    after_entities, find_attribute, has_attribute, visit_entities, EntityPass,
};
use crate::errors::functions::{function_diagnostic, function_error};
use crate::errors::{Diagnostic, DiagnosticView, Violation};
use crate::text::owned;
use crate::source_file::{SourceFile, SourceFileView};

verus! {

/// The rule that a freestanding function breaks, if it breaks one: it must not
/// be marked `abstract`; marked `native` it must have no body; not marked
/// `native` it must have one.
pub open spec fn function_violation(f: FunctionView) -> Option<Violation> {
    let is_native = has_attribute(f.attributes, "native"@);
    if has_attribute(f.attributes, "abstract"@) {
        Some(Violation::AbstractFunction)
    } else if f.has_body() && is_native {
        Some(Violation::NativeFunctionWithBody)
    } else if !f.has_body() && !is_native {
        Some(Violation::BodylessFunction)
    } else {
        None
    }
}

/// Model of a [`FunctionsAttributesChecker`].
pub struct FunctionsCheckerView {
    pub file: Seq<char>,
    pub namespace: Seq<char>,
    pub error: Option<DiagnosticView>,
}

impl FunctionsCheckerView {
    /// The pass before it has seen anything of the file at `file`.
    pub open spec fn initial(file: Seq<char>) -> Self {
        FunctionsCheckerView { file, namespace: Seq::empty(), error: None }
    }

    /// The pass after a freestanding function: where it has found nothing
    /// so far and the function breaks a rule, it holds the report of that.
    pub open spec fn after_function(self, f: FunctionView) -> Self {
        if self.error is Some {
            self
        } else {
            match function_violation(f) {
                Some(violation) => FunctionsCheckerView {
                    error: Some(
                        function_diagnostic(violation, self.namespace, f.name, self.file, f.pos),
                    ),
                    ..self
                },
                None => self,
            }
        }
    }

    /// The pass after one declaration of a file: a freestanding function is
    /// checked, a class is passed over.
    pub open spec fn after_entity(self, entity: FirstClassEntityView) -> Self {
        match entity {
            FirstClassEntityView::Function(f) => self.after_function(f),
            FirstClassEntityView::Class(_) => self,
        }
    }

    /// The pass after the declarations of a file, in order.
    pub open spec fn after_entities(self, entities: Seq<FirstClassEntityView>) -> Self {
        after_entities::<FunctionsAttributesChecker>(self, entities)
    }

    /// The pass after a file.
    pub open spec fn after_file(self, file: FileView) -> Self {
        (FunctionsCheckerView { namespace: file.namespace, ..self }).after_entities(file.entities)
    }
}

/// The first rule that a freestanding function of the source file breaks, in
/// declaration order, if any does.
pub open spec fn functions_report(s: SourceFileView) -> Option<DiagnosticView> {
    FunctionsCheckerView::initial(s.path).after_file(s.ast).error
}

/// Checks that each freestanding function has a body or is native, and that
/// none is abstract. The first function that breaks a rule is reported.
pub fn check_functions_body(s: &SourceFile) -> (verdict: Result<(), Diagnostic>)
    ensures
        verdict is Ok <==> functions_report(s@) is None,
        verdict matches Err(d) ==> functions_report(s@) == Some(d@),
{
    let mut checker = FunctionsAttributesChecker::new(owned(s.get_path()));
    checker.visit_file(s.ast());
    checker.into_verdict()
}

/// The pass that checks the freestanding functions of a file.
pub struct FunctionsAttributesChecker {
    file: String,
    namespace: String,
    error: Option<Diagnostic>,
}

/// The model of an optional report.
pub open spec fn view_optional_diagnostic(d: Option<Diagnostic>) -> Option<DiagnosticView> {
    match d {
        Some(d) => Some(d@),
        None => None,
    }
}

impl View for FunctionsAttributesChecker {
    type V = FunctionsCheckerView;

    closed spec fn view(&self) -> FunctionsCheckerView {
        FunctionsCheckerView {
            file: self.file@,
            namespace: self.namespace@,
            error: view_optional_diagnostic(self.error),
        }
    }
}

impl FunctionsAttributesChecker {
    pub fn new(file: String) -> (checker: Self)
        ensures
            checker@ == FunctionsCheckerView::initial(file@),
    {
        FunctionsAttributesChecker { file, namespace: String::new(), error: None }
    }

    /// What the pass has found: nothing, or the first broken rule.
    pub fn into_verdict(self) -> (verdict: Result<(), Diagnostic>)
        ensures
            verdict is Ok <==> self@.error is None,
            verdict matches Err(d) ==> self@.error == Some(d@),
    {
        match self.error {
            Some(d) => Err(d),
            None => Ok(()),
        }
    }

    pub fn visit_file(&mut self, n: &File)
        ensures
            final(self)@ == old(self)@.after_file(n@),
    {
        self.namespace = owned(n.get_namespace());
        visit_entities(self, n.get_entities());
    }

    pub fn visit_function(&mut self, n: &Function)
        ensures
            final(self)@ == old(self)@.after_function(n@),
    {
        if self.error.is_some() {
            return ;
        }
        let is_native = find_attribute(n.attributes(), "native");
        let is_abstract = find_attribute(n.attributes(), "abstract");
        let violation = if is_abstract {
            Some(Violation::AbstractFunction)
        } else if n.has_body() && is_native {
            Some(Violation::NativeFunctionWithBody)
        } else if !n.has_body() && !is_native {
            Some(Violation::BodylessFunction)
        } else {
            None
        };
        match violation {
            Some(violation) => {
                self.error = Some(
                    function_error(
                        violation,
                        self.namespace.as_str(),
                        n.get_name(),
                        self.file.as_str(),
                        n.get_pos(),
                    ),
                );
            },
            None => {},
        }
    }
}

impl EntityPass for FunctionsAttributesChecker {
    open spec fn after_entity(
        state: FunctionsCheckerView,
        entity: FirstClassEntityView,
    ) -> FunctionsCheckerView {
        state.after_entity(entity)
    }

    fn visit_entity(&mut self, entity: &FirstClassEntity) {
        match entity {
            FirstClassEntity::Function(f) => {
                self.visit_function(f);
            },
            FirstClassEntity::Class(_) => {},
        }
    }
}

/// Every freestanding function among the declarations keeps the rules.
pub open spec fn functions_are_sound(entities: Seq<FirstClassEntityView>) -> bool {
    forall|i: int|
        0 <= i < entities.len() ==> match #[trigger] entities[i] {
            FirstClassEntityView::Function(f) => function_violation(f) is None,
            FirstClassEntityView::Class(_) => true,
        }
}

/// A pass that has found nothing finds nothing in a list of declarations
/// exactly when every freestanding function among them keeps the rules; and a
/// pass that has found something holds on to it.
pub proof fn lemma_functions_accepted(state: FunctionsCheckerView, entities: Seq<FirstClassEntityView>)
    ensures
        state.error is Some ==> state.after_entities(entities) == state,
        state.error is None ==> (state.after_entities(entities).error is None
            <==> functions_are_sound(entities)),
        state.after_entities(entities).file == state.file,
        state.after_entities(entities).namespace == state.namespace,
    decreases entities.len(),
{
    if entities.len() != 0 {
        let front = entities.drop_last();
        lemma_functions_accepted(state, front);
        if state.error is None {
            if functions_are_sound(entities) {
                assert forall|i: int| 0 <= i < front.len() implies match #[trigger] front[i] {
                    FirstClassEntityView::Function(f) => function_violation(f) is None,
                    FirstClassEntityView::Class(_) => true,
                } by {
                    assert(front[i] == entities[i]);
                }
                assert(entities[entities.len() - 1] == entities.last());
            }
            if state.after_entities(entities).error is None {
                assert forall|i: int| 0 <= i < entities.len() implies match #[trigger] entities[i] {
                    FirstClassEntityView::Function(f) => function_violation(f) is None,
                    FirstClassEntityView::Class(_) => true,
                } by {
                    if i < front.len() {
                        assert(front[i] == entities[i]);
                    }
                }
            }
        }
    }
}

/// A source file passes exactly when each of its freestanding functions keeps
/// the rules: none is abstract, and each has a body exactly when it is not
/// native.
pub proof fn lemma_functions_report(s: SourceFileView)
    ensures
        functions_report(s) is None <==> functions_are_sound(s.ast.entities),
{
    lemma_functions_accepted(
        FunctionsCheckerView { namespace: s.ast.namespace, ..FunctionsCheckerView::initial(s.path) },
        s.ast.entities,
    );
}

} // verus!
