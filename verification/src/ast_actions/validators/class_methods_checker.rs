use vstd::prelude::*;
use crate::ast::{
    view_members,
    Block,
    Class,
    ClassMember,
    ClassMemberView,
    ClassView,
    File,
    FileView,
    FirstClassEntity,
    FirstClassEntityView,
    Function,
    FunctionView,
};
use crate::ast_actions::validators::functions_checker::view_optional_diagnostic;
use crate::ast_actions::validators::{
    after_entities, find_attribute, has_attribute, visit_entities, EntityPass,
};
use crate::errors::classes::{
    class_diagnostic, class_error, class_member_error, member_diagnostic,
};
use crate::errors::{Diagnostic, DiagnosticView, Violation};
use crate::text::owned;
use crate::source_file::{SourceFile, SourceFileView};

verus! {

/// The rule that a method breaks, if it breaks one, in a class that is or is
/// not abstract and is or is not an interface. A method may be marked
/// `abstract` only in an abstract class, and never together with `native`. A
/// method that is native or abstract, or that belongs to an interface, must
/// have no body; any other method must have one.
pub open spec fn method_violation(
    m: FunctionView,
    class_is_abstract: bool,
    class_is_interface: bool,
) -> Option<Violation> {
    let is_native = has_attribute(m.attributes, "native"@);
    let is_abstract = has_attribute(m.attributes, "abstract"@);
    if !class_is_abstract && is_abstract {
        Some(Violation::AbstractMethodInConcreteClass)
    } else if is_abstract && is_native {
        Some(Violation::AbstractAndNative)
    } else if !m.has_body() && !class_is_interface && !is_native && !is_abstract {
        Some(Violation::BodylessMethod)
    } else if m.has_body() && class_is_interface {
        Some(Violation::InterfaceMethodWithBody)
    } else if m.has_body() && is_native {
        Some(Violation::NativeMethodWithBody)
    } else if m.has_body() && is_abstract {
        Some(Violation::AbstractMethodWithBody)
    } else {
        None
    }
}

/// Model of a [`MethodsAttributesChecker`].
pub struct MethodsCheckerView {
    pub class: Seq<char>,
    pub namespace: Seq<char>,
    pub file: Seq<char>,
    pub is_abstract: bool,
    pub is_interface: bool,
    pub error: Option<DiagnosticView>,
}

impl MethodsCheckerView {
    /// The pass before it has seen anything of the file at `file`.
    pub open spec fn initial(file: Seq<char>) -> Self {
        MethodsCheckerView {
            class: Seq::empty(),
            namespace: Seq::empty(),
            file,
            is_abstract: false,
            is_interface: false,
            error: None,
        }
    }

    /// The pass after a method of the class it is in: where it has found
    /// nothing so far and the method breaks a rule, it holds the report of
    /// that.
    pub open spec fn after_function(self, m: FunctionView) -> Self {
        if self.error is Some {
            self
        } else {
            match method_violation(m, self.is_abstract, self.is_interface) {
                Some(violation) => MethodsCheckerView {
                    error: Some(
                        member_diagnostic(
                            violation,
                            self.namespace,
                            self.class,
                            m.name,
                            self.file,
                            m.pos,
                        ),
                    ),
                    ..self
                },
                None => self,
            }
        }
    }

    /// The pass after a member: a field is passed over, a method is
    /// checked, and a block has its members checked in order.
    pub open spec fn after_class_member(self, member: ClassMemberView) -> Self
        decreases member,
    {
        match member {
            ClassMemberView::Field(_) => self,
            ClassMemberView::Method(m) => self.after_function(m),
            ClassMemberView::Block(b) => self.after_members(b.members),
        }
    }

    /// The pass after the members of a class or block, in order.
    pub open spec fn after_members(self, members: Seq<ClassMemberView>) -> Self
        decreases members,
    {
        if members.len() == 0 {
            self
        } else {
            self.after_members(members.drop_last()).after_class_member(members.last())
        }
    }

    /// The pass after a class. Where it has found nothing so far: a class
    /// marked both `abstract` and `interface` is reported; any other has its
    /// members checked as those of a class with its markers, after which the
    /// pass is in no class again.
    pub open spec fn after_class(self, c: ClassView) -> Self {
        let is_abstract = has_attribute(c.attributes, "abstract"@);
        let is_interface = has_attribute(c.attributes, "interface"@);
        if self.error is Some {
            self
        } else if is_abstract && is_interface {
            MethodsCheckerView {
                error: Some(
                    class_diagnostic(
                        Violation::AbstractAndInterface,
                        self.namespace,
                        c.name,
                        self.file,
                        c.pos,
                    ),
                ),
                ..self
            }
        } else {
            let inside = (MethodsCheckerView {
                class: c.name,
                is_abstract,
                is_interface,
                ..self
            }).after_members(c.members);
            MethodsCheckerView {
                class: Seq::empty(),
                is_abstract: false,
                is_interface: false,
                ..inside
            }
        }
    }

    /// The pass after one declaration of a file: a class is checked, a
    /// freestanding function is passed over.
    pub open spec fn after_entity(self, entity: FirstClassEntityView) -> Self {
        match entity {
            FirstClassEntityView::Class(c) => self.after_class(c),
            FirstClassEntityView::Function(_) => self,
        }
    }

    /// The pass after the declarations of a file, in order.
    pub open spec fn after_entities(self, entities: Seq<FirstClassEntityView>) -> Self {
        after_entities::<MethodsAttributesChecker>(self, entities)
    }

    /// The pass after a file.
    pub open spec fn after_file(self, file: FileView) -> Self {
        (MethodsCheckerView { namespace: file.namespace, ..self }).after_entities(file.entities)
    }
}

/// The first rule that a class of the source file or one of its methods
/// breaks, in declaration order, if any does.
pub open spec fn methods_report(s: SourceFileView) -> Option<DiagnosticView> {
    MethodsCheckerView::initial(s.path).after_file(s.ast).error
}

/// Validates the `native`, `interface` and `abstract` markers of the classes
/// of a source file and of their methods. The first class or method that
/// breaks a rule is reported.
pub fn check_methods_body(s: &SourceFile) -> (verdict: Result<(), Diagnostic>)
    ensures
        verdict is Ok <==> methods_report(s@) is None,
        verdict matches Err(d) ==> methods_report(s@) == Some(d@),
{
    let mut checker = MethodsAttributesChecker::new(owned(s.get_path()));
    checker.visit_file(s.ast());
    checker.into_verdict()
}

/// The pass that checks the classes of a file and their methods.
pub struct MethodsAttributesChecker {
    class: String,
    namespace: String,
    file: String,
    is_abstract: bool,
    is_interface: bool,
    error: Option<Diagnostic>,
}

impl View for MethodsAttributesChecker {
    type V = MethodsCheckerView;

    closed spec fn view(&self) -> MethodsCheckerView {
        MethodsCheckerView {
            class: self.class@,
            namespace: self.namespace@,
            file: self.file@,
            is_abstract: self.is_abstract,
            is_interface: self.is_interface,
            error: view_optional_diagnostic(self.error),
        }
    }
}

impl MethodsAttributesChecker {
    pub fn new(file: String) -> (checker: Self)
        ensures
            checker@ == MethodsCheckerView::initial(file@),
    {
        MethodsAttributesChecker {
            class: String::new(),
            namespace: String::new(),
            file,
            is_abstract: false,
            is_interface: false,
            error: None,
        }
    }

    /// What the pass has found: nothing, or the first broken rule.
    pub fn into_verdict(self) -> (verdict: Result<(), Diagnostic>)
        ensures
            verdict is Ok <==> self@.error is None,
            verdict matches Err(d) ==> self@.error == Some(d@),
    {
        match self.error {
            Some(d) => Err(d),
            None => Ok(()),
        }
    }

    pub fn visit_file(&mut self, n: &File)
        ensures
            final(self)@ == old(self)@.after_file(n@),
    {
        self.namespace = owned(n.get_namespace());
        visit_entities(self, n.get_entities());
    }

    pub fn visit_class(&mut self, n: &Class)
        ensures
            final(self)@ == old(self)@.after_class(n@),
    {
        if self.error.is_some() {
            return ;
        }
        let is_abstract = find_attribute(n.attributes(), "abstract");
        let is_interface = find_attribute(n.attributes(), "interface");
        if is_abstract && is_interface {
            self.error = Some(
                class_error(
                    Violation::AbstractAndInterface,
                    self.namespace.as_str(),
                    n.get_name(),
                    self.file.as_str(),
                    n.get_pos(),
                ),
            );
            return ;
        }
        self.class = owned(n.get_name());
        self.is_abstract = is_abstract;
        self.is_interface = is_interface;
        self.visit_members(n.members());
        // the pass leaves the class
        self.is_interface = false;
        self.is_abstract = false;
        self.class = String::new();
    }

    /// Checks the members of a class or block, in order.
    pub fn visit_members(&mut self, members: &Vec<ClassMember>)
        ensures
            final(self)@ == old(self)@.after_members(view_members(members@)),
        decreases view_members(members@),
    {
        let ghost all = view_members(members@);
        let ghost start = self@;
        let mut i: usize = 0;
        proof {
            assert(all.take(0) =~= Seq::empty());
        }
        while i < members.len()
            invariant
                i <= members.len(),
                all == view_members(members@),
                self@ == start.after_members(all.take(i as int)),
            decreases members.len() - i,
        {
            proof {
                assert(all.take(i as int + 1).drop_last() =~= all.take(i as int));
                assert(all.take(i as int + 1).last() == members@[i as int]@);
                assert(all[i as int] == members@[i as int]@);
                assert(decreases_to!(all => all[i as int]));
            }
            self.visit_class_member(&members[i]);
            i += 1;
        }
        proof {
            assert(all.take(members.len() as int) =~= all);
        }
    }

    pub fn visit_class_member(&mut self, n: &ClassMember)
        ensures
            final(self)@ == old(self)@.after_class_member(n@),
        decreases n@,
    {
        match n {
            ClassMember::Field(_) => {},
            ClassMember::Method(m) => {
                self.visit_function(m);
            },
            ClassMember::Block(b) => {
                proof {
                    assert(n@->Block_0 == b@);
                }
                self.visit_block(b);
            },
        }
    }

    pub fn visit_block(&mut self, n: &Block)
        ensures
            final(self)@ == old(self)@.after_members(n@.members),
        decreases n@,
    {
        self.visit_members(n.members());
    }

    pub fn visit_function(&mut self, n: &Function)
        ensures
            final(self)@ == old(self)@.after_function(n@),
    {
        if self.error.is_some() {
            return ;
        }
        let is_native = find_attribute(n.attributes(), "native");
        let is_abstract = find_attribute(n.attributes(), "abstract");
        let body = n.has_body();
        let violation = if !self.is_abstract && is_abstract {
            Some(Violation::AbstractMethodInConcreteClass)
        } else if is_abstract && is_native {
            Some(Violation::AbstractAndNative)
        } else if !body && !self.is_interface && !is_native && !is_abstract {
            Some(Violation::BodylessMethod)
        } else if body && self.is_interface {
            Some(Violation::InterfaceMethodWithBody)
        } else if body && is_native {
            Some(Violation::NativeMethodWithBody)
        } else if body && is_abstract {
            Some(Violation::AbstractMethodWithBody)
        } else {
            None
        };
        match violation {
            Some(violation) => {
                self.error = Some(
                    class_member_error(
                        violation,
                        self.namespace.as_str(),
                        self.class.as_str(),
                        n.get_name(),
                        self.file.as_str(),
                        n.get_pos(),
                    ),
                );
            },
            None => {},
        }
    }
}

impl EntityPass for MethodsAttributesChecker {
    open spec fn after_entity(
        state: MethodsCheckerView,
        entity: FirstClassEntityView,
    ) -> MethodsCheckerView {
        state.after_entity(entity)
    }

    fn visit_entity(&mut self, entity: &FirstClassEntity) {
        match entity {
            FirstClassEntity::Class(c) => {
                self.visit_class(c);
            },
            FirstClassEntity::Function(_) => {},
        }
    }
}

/// Every method among the members, at any depth of blocks, keeps the rules of
/// a class that is or is not abstract and is or is not an interface.
pub open spec fn members_are_sound(
    members: Seq<ClassMemberView>,
    class_is_abstract: bool,
    class_is_interface: bool,
) -> bool
    decreases members,
{
    if members.len() == 0 {
        true
    } else {
        members_are_sound(members.drop_last(), class_is_abstract, class_is_interface)
            && member_is_sound(members.last(), class_is_abstract, class_is_interface)
    }
}

/// The member keeps the rules: a field always does, a method where it breaks
/// none, and a block where every member of it does.
pub open spec fn member_is_sound(
    member: ClassMemberView,
    class_is_abstract: bool,
    class_is_interface: bool,
) -> bool
    decreases member,
{
    match member {
        ClassMemberView::Field(_) => true,
        ClassMemberView::Method(m) => method_violation(m, class_is_abstract, class_is_interface)
            is None,
        ClassMemberView::Block(b) => members_are_sound(
            b.members,
            class_is_abstract,
            class_is_interface,
        ),
    }
}

/// The class keeps the rules: it is not both abstract and an interface, and
/// each of its methods keeps the rules of a class with its markers.
pub open spec fn class_is_sound(c: ClassView) -> bool {
    let is_abstract = has_attribute(c.attributes, "abstract"@);
    let is_interface = has_attribute(c.attributes, "interface"@);
    !(is_abstract && is_interface) && members_are_sound(c.members, is_abstract, is_interface)
}

/// Every class among the declarations keeps the rules.
pub open spec fn classes_are_sound(entities: Seq<FirstClassEntityView>) -> bool {
    forall|i: int|
        0 <= i < entities.len() ==> match #[trigger] entities[i] {
            FirstClassEntityView::Class(c) => class_is_sound(c),
            FirstClassEntityView::Function(_) => true,
        }
}

/// A pass that has found nothing finds nothing in a member exactly when the
/// member keeps the rules; a pass that has found something holds on to it;
/// and the markers of the class stay as they are.
pub proof fn lemma_member_accepted(state: MethodsCheckerView, member: ClassMemberView)
    ensures
        state.error is Some ==> state.after_class_member(member) == state,
        state.error is None ==> (state.after_class_member(member).error is None
            <==> member_is_sound(member, state.is_abstract, state.is_interface)),
        state.after_class_member(member) == (MethodsCheckerView {
            error: state.after_class_member(member).error,
            ..state
        }),
    decreases member,
{
    match member {
        ClassMemberView::Block(b) => {
            lemma_members_accepted(state, b.members);
        },
        _ => {},
    }
}

/// A pass that has found nothing finds nothing in a list of members exactly
/// when every one of them keeps the rules; a pass that has found something
/// holds on to it; and the markers of the class stay as they are.
pub proof fn lemma_members_accepted(state: MethodsCheckerView, members: Seq<ClassMemberView>)
    ensures
        state.error is Some ==> state.after_members(members) == state,
        state.error is None ==> (state.after_members(members).error is None
            <==> members_are_sound(members, state.is_abstract, state.is_interface)),
        state.after_members(members) == (MethodsCheckerView {
            error: state.after_members(members).error,
            ..state
        }),
    decreases members,
{
    if members.len() != 0 {
        lemma_members_accepted(state, members.drop_last());
        lemma_member_accepted(state.after_members(members.drop_last()), members.last());
    }
}

/// A pass that has found nothing and is in no class finds nothing in a class
/// exactly when the class keeps the rules, and is in no class afterwards.
pub proof fn lemma_class_accepted(state: MethodsCheckerView, c: ClassView)
    requires
        state.class == Seq::<char>::empty(),
        !state.is_abstract,
        !state.is_interface,
    ensures
        state.error is Some ==> state.after_class(c) == state,
        state.error is None ==> (state.after_class(c).error is None <==> class_is_sound(c)),
        state.after_class(c) == (MethodsCheckerView { error: state.after_class(c).error, ..state }),
{
    let is_abstract = has_attribute(c.attributes, "abstract"@);
    let is_interface = has_attribute(c.attributes, "interface"@);
    lemma_members_accepted(
        MethodsCheckerView { class: c.name, is_abstract, is_interface, ..state },
        c.members,
    );
}

/// A pass that has found nothing and is in no class finds nothing in a list of
/// declarations exactly when every class among them keeps the rules.
pub proof fn lemma_classes_accepted(state: MethodsCheckerView, entities: Seq<FirstClassEntityView>)
    requires
        state.class == Seq::<char>::empty(),
        !state.is_abstract,
        !state.is_interface,
    ensures
        state.error is Some ==> state.after_entities(entities) == state,
        state.error is None ==> (state.after_entities(entities).error is None
            <==> classes_are_sound(entities)),
        state.after_entities(entities) == (MethodsCheckerView {
            error: state.after_entities(entities).error,
            ..state
        }),
    decreases entities.len(),
{
    if entities.len() != 0 {
        let front = entities.drop_last();
        lemma_classes_accepted(state, front);
        match entities.last() {
            FirstClassEntityView::Class(c) => {
                lemma_class_accepted(state.after_entities(front), c);
            },
            FirstClassEntityView::Function(_) => {},
        }
        if state.error is None {
            if classes_are_sound(entities) {
                assert forall|i: int| 0 <= i < front.len() implies match #[trigger] front[i] {
                    FirstClassEntityView::Class(c) => class_is_sound(c),
                    FirstClassEntityView::Function(_) => true,
                } by {
                    assert(front[i] == entities[i]);
                }
                assert(entities[entities.len() - 1] == entities.last());
            }
            if state.after_entities(entities).error is None {
                assert forall|i: int| 0 <= i < entities.len() implies match #[trigger] entities[i] {
                    FirstClassEntityView::Class(c) => class_is_sound(c),
                    FirstClassEntityView::Function(_) => true,
                } by {
                    if i < front.len() {
                        assert(front[i] == entities[i]);
                    }
                }
            }
        }
    }
}

/// A source file passes exactly when each of its classes keeps the rules: it
/// is not both abstract and an interface, and each of its methods, at any
/// depth of blocks, breaks none of the rules for methods.
pub proof fn lemma_methods_report(s: SourceFileView)
    ensures
        methods_report(s) is None <==> classes_are_sound(s.ast.entities),
{
    lemma_classes_accepted(
        MethodsCheckerView { namespace: s.ast.namespace, ..MethodsCheckerView::initial(s.path) },
        s.ast.entities,
    );
}

} // verus!
