//! What the validators report.

pub mod classes;
pub mod functions;

use vstd::prelude::*;

verus! {

/// The rules that a declaration can break.
#[derive(Clone, Copy, Debug, PartialEq, Eq, Structural)]
pub enum Violation {
    /// A class is marked both `abstract` and `interface`.
    AbstractAndInterface,
    /// A method is marked `abstract` in a class that is not.
    AbstractMethodInConcreteClass,
    /// A method is marked both `abstract` and `native`.
    AbstractAndNative,
    /// A method that is neither native nor abstract, in a class that is no
    /// interface, has no body.
    BodylessMethod,
    /// A method of an interface has a body.
    InterfaceMethodWithBody,
    /// A native method has a body.
    NativeMethodWithBody,
    /// An abstract method has a body.
    AbstractMethodWithBody,
    /// A freestanding function is marked `abstract`.
    AbstractFunction,
    /// A native freestanding function has a body.
    NativeFunctionWithBody,
    /// A freestanding function that is not native has no body.
    BodylessFunction,
}

impl Violation {
    /// The rule in words.
    pub open spec fn text(self) -> Seq<char> {
        match self {
            Violation::AbstractAndInterface => "cannot be abstract and interface at the same time"@,
            Violation::AbstractMethodInConcreteClass => {
                "no abstract methods allowed in non-abstract classes"@
            },
            Violation::AbstractAndNative => "cannot be abstract and native at the same time"@,
            Violation::BodylessMethod => {
                "bodyless methods in normal classes are only allowed if natives"@
            },
            Violation::InterfaceMethodWithBody => "interfaces can only have bodyless methods"@,
            Violation::NativeMethodWithBody => "native methods cannot have a body"@,
            Violation::AbstractMethodWithBody => "abstract methods cannot have a body"@,
            Violation::AbstractFunction => "Freestanding functions cannot be abstract"@,
            Violation::NativeFunctionWithBody => {
                ".native freestanding functions cannot have a body"@
            },
            Violation::BodylessFunction => "Non .natives freestanding functions must have a body"@,
        }
    }

    /// The rule in words.
    pub fn message(self) -> (text: &'static str)
        ensures
            text@ == self.text(),
    {
        match self {
            Violation::AbstractAndInterface => "cannot be abstract and interface at the same time",
            Violation::AbstractMethodInConcreteClass => {
                "no abstract methods allowed in non-abstract classes"
            },
            Violation::AbstractAndNative => "cannot be abstract and native at the same time",
            Violation::BodylessMethod => {
                "bodyless methods in normal classes are only allowed if natives"
            },
            Violation::InterfaceMethodWithBody => "interfaces can only have bodyless methods",
            Violation::NativeMethodWithBody => "native methods cannot have a body",
            Violation::AbstractMethodWithBody => "abstract methods cannot have a body",
            Violation::AbstractFunction => "Freestanding functions cannot be abstract",
            Violation::NativeFunctionWithBody => ".native freestanding functions cannot have a body",
            Violation::BodylessFunction => "Non .natives freestanding functions must have a body",
        }
    }
}

/// Model of a [`Diagnostic`].
pub struct DiagnosticView {
    pub violation: Violation,
    pub namespace: Seq<char>,
    pub class: Option<Seq<char>>,
    pub member: Option<Seq<char>>,
    pub file: Seq<char>,
    pub pos: (usize, usize),
}

/// One broken rule, with all that is needed to find the declaration that
/// breaks it.
#[derive(Debug)]
pub struct Diagnostic {
    violation: Violation,
    namespace: String,
    class: Option<String>,
    member: Option<String>,
    file: String,
    pos: (usize, usize),
}

/// The model of an optional name.
pub open spec fn view_optional_name(name: Option<String>) -> Option<Seq<char>> {
    match name {
        Some(n) => Some(n@),
        None => None,
    }
}

impl View for Diagnostic {
    type V = DiagnosticView;

    closed spec fn view(&self) -> DiagnosticView {
        DiagnosticView {
            violation: self.violation,
            namespace: self.namespace@,
            class: view_optional_name(self.class),
            member: view_optional_name(self.member),
            file: self.file@,
            pos: self.pos,
        }
    }
}

impl Clone for Diagnostic {
    fn clone(&self) -> (res: Self)
        ensures
            res@ == self@,
    {
        Diagnostic {
            violation: self.violation,
            namespace: self.namespace.clone(),
            class: self.class.clone(),
            member: self.member.clone(),
            file: self.file.clone(),
            pos: self.pos,
        }
    }
}

impl Diagnostic {
    pub fn new(
        violation: Violation,
        namespace: String,
        class: Option<String>,
        member: Option<String>,
        file: String,
        pos: (usize, usize),
    ) -> (diagnostic: Self)
        ensures
            diagnostic@ == (DiagnosticView {
                violation,
                namespace: namespace@,
                class: view_optional_name(class),
                member: view_optional_name(member),
                file: file@,
                pos,
            }),
    {
        Diagnostic { violation, namespace, class, member, file, pos }
    }

    pub fn get_violation(&self) -> (violation: Violation)
        ensures
            violation == self@.violation,
    {
        self.violation
    }

    pub fn get_message(&self) -> (message: &'static str)
        ensures
            message@ == self@.violation.text(),
    {
        self.violation.message()
    }

    pub fn get_namespace(&self) -> (namespace: &str)
        ensures
            namespace@ == self@.namespace,
    {
        self.namespace.as_str()
    }

    pub fn get_class(&self) -> (class: &Option<String>)
        ensures
            view_optional_name(*class) == self@.class,
    {
        &self.class
    }

    pub fn get_member(&self) -> (member: &Option<String>)
        ensures
            view_optional_name(*member) == self@.member,
    {
        &self.member
    }

    pub fn get_file(&self) -> (file: &str)
        ensures
            file@ == self@.file,
    {
        self.file.as_str()
    }

    pub fn get_pos(&self) -> (pos: (usize, usize))
        ensures
            pos == self@.pos,
    {
        self.pos
    }
}

} // verus!
