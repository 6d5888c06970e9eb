use lang_frontend::ast::{
    Attribute, Block, Class, ClassMember, Field, File, FirstClassEntity, Function, Statement,
};
use lang_frontend::ast_actions::validators::class_methods_checker::{
    check_methods_body, MethodsAttributesChecker,
};
use lang_frontend::ast_actions::validators::find_attribute;
use lang_frontend::ast_actions::validators::functions_checker::{
    check_functions_body, FunctionsAttributesChecker,
};
use lang_frontend::errors::classes::{class_error, class_member_error};
use lang_frontend::errors::functions::function_error;
use lang_frontend::errors::{Diagnostic, Violation};
use lang_frontend::source_file::SourceFile;

fn text(s: &str) -> String {
    String::from(s)
}

fn attrs(names: &[&str]) -> Vec<Attribute> {
    names.iter().map(|n| Attribute::new((1, 1), text(n))).collect()
}

fn body(with_body: bool) -> Vec<Statement> {
    if with_body {
        vec![Statement::ReturnStatement { expr: None, pos: (9, 9) }]
    } else {
        vec![]
    }
}

fn function(name: &str, own: &[&str], with_body: bool) -> Function {
    Function::new((7, 3), attrs(own), text(name), vec![], text("void"), body(with_body))
}

fn method(name: &str, own: &[&str], with_body: bool) -> ClassMember {
    ClassMember::Method(function(name, own, with_body))
}

fn class(name: &str, own: &[&str], members: Vec<ClassMember>) -> FirstClassEntity {
    FirstClassEntity::Class(Class::new((2, 1), attrs(own), text(name), text("Object"), vec![], members))
}

fn source(entities: Vec<FirstClassEntity>) -> SourceFile {
    SourceFile::new(text("src/a.lang"), text(""), File::new(text("app"), vec![], entities))
}

fn methods_violation(entities: Vec<FirstClassEntity>) -> Option<Violation> {
    match check_methods_body(&source(entities)) {
        Ok(()) => None,
        Err(d) => Some(d.get_violation()),
    }
}

fn functions_violation(entities: Vec<FirstClassEntity>) -> Option<Violation> {
    match check_functions_body(&source(entities)) {
        Ok(()) => None,
        Err(d) => Some(d.get_violation()),
    }
}

#[test]
fn abstract_class_with_bodyless_abstract_method_is_accepted() {
    assert_eq!(methods_violation(vec![class("C", &["abstract"], vec![method("m", &["abstract"], false)])]), None);
}

#[test]
fn abstract_method_in_plain_class_is_rejected() {
    let verdict = check_methods_body(&source(vec![class("C", &[], vec![method("m", &["abstract"], false)])]));
    let d = verdict.expect_err("an abstract method needs an abstract class");
    assert_eq!(d.get_violation(), Violation::AbstractMethodInConcreteClass);
    assert_eq!(d.get_message(), "no abstract methods allowed in non-abstract classes");
    assert_eq!(d.get_namespace(), "app");
    assert_eq!(d.get_class().as_deref(), Some("C"));
    assert_eq!(d.get_member().as_deref(), Some("m"));
    assert_eq!(d.get_file(), "src/a.lang");
    assert_eq!(d.get_pos(), (7, 3));
}

#[test]
fn abstract_method_with_body_in_plain_class_is_rejected_for_being_abstract() {
    assert_eq!(
        methods_violation(vec![class("C", &[], vec![method("m", &["abstract"], true)])]),
        Some(Violation::AbstractMethodInConcreteClass)
    );
}

#[test]
fn interface_method_with_body_is_rejected() {
    assert_eq!(
        methods_violation(vec![class("I", &["interface"], vec![method("m", &[], true)])]),
        Some(Violation::InterfaceMethodWithBody)
    );
}

#[test]
fn interface_method_without_body_is_accepted() {
    assert_eq!(methods_violation(vec![class("I", &["interface"], vec![method("m", &[], false)])]), None);
}

#[test]
fn native_method_without_body_is_accepted_in_plain_class() {
    assert_eq!(methods_violation(vec![class("C", &[], vec![method("m", &["native"], false)])]), None);
}

#[test]
fn native_method_with_body_is_rejected() {
    assert_eq!(
        methods_violation(vec![class("C", &[], vec![method("m", &["native"], true)])]),
        Some(Violation::NativeMethodWithBody)
    );
}

#[test]
fn plain_method_needs_a_body() {
    assert_eq!(
        methods_violation(vec![class("C", &[], vec![method("m", &[], false)])]),
        Some(Violation::BodylessMethod)
    );
    assert_eq!(methods_violation(vec![class("C", &[], vec![method("m", &[], true)])]), None);
    assert_eq!(
        methods_violation(vec![class("C", &["abstract"], vec![method("m", &[], false)])]),
        Some(Violation::BodylessMethod)
    );
    assert_eq!(methods_violation(vec![class("C", &["abstract"], vec![method("m", &[], true)])]), None);
}

#[test]
fn abstract_method_with_body_is_rejected() {
    assert_eq!(
        methods_violation(vec![class("C", &["abstract"], vec![method("m", &["abstract"], true)])]),
        Some(Violation::AbstractMethodWithBody)
    );
}

#[test]
fn abstract_and_native_method_is_rejected() {
    assert_eq!(
        methods_violation(vec![class("C", &["abstract"], vec![method("m", &["abstract", "native"], false)])]),
        Some(Violation::AbstractAndNative)
    );
    assert_eq!(
        methods_violation(vec![class("C", &["abstract"], vec![method("m", &["native", "abstract"], true)])]),
        Some(Violation::AbstractAndNative)
    );
}

#[test]
fn class_both_abstract_and_interface_is_rejected() {
    let verdict = check_methods_body(&source(vec![class("C", &["interface", "abstract"], vec![])]));
    let d = verdict.expect_err("a class is abstract or an interface, not both");
    assert_eq!(d.get_violation(), Violation::AbstractAndInterface);
    assert_eq!(d.get_message(), "cannot be abstract and interface at the same time");
    assert_eq!(d.get_class().as_deref(), Some("C"));
    assert!(d.get_member().is_none());
    assert_eq!(d.get_pos(), (2, 1));
    assert_eq!(d.get_namespace(), "app");
    assert_eq!(d.get_file(), "src/a.lang");
}

#[test]
fn the_first_violation_in_declaration_order_is_reported() {
    let verdict = check_methods_body(&source(vec![
        class("Fine", &[], vec![method("ok", &[], true)]),
        class("First", &[], vec![method("good", &[], true), method("bad", &["native"], true), method("worse", &[], false)]),
        class("Second", &["abstract", "interface"], vec![]),
    ]));
    let d = verdict.expect_err("the second class holds a bad method");
    assert_eq!(d.get_violation(), Violation::NativeMethodWithBody);
    assert_eq!(d.get_class().as_deref(), Some("First"));
    assert_eq!(d.get_member().as_deref(), Some("bad"));
}

#[test]
fn class_markers_do_not_leak_into_the_next_class() {
    // after an abstract class and after an interface, a plain class is plain
    assert_eq!(
        methods_violation(vec![
            class("A", &["abstract"], vec![method("m", &["abstract"], false)]),
            class("B", &[], vec![method("n", &["abstract"], false)]),
        ]),
        Some(Violation::AbstractMethodInConcreteClass)
    );
    assert_eq!(
        methods_violation(vec![
            class("I", &["interface"], vec![method("m", &[], false)]),
            class("B", &[], vec![method("n", &[], true)]),
        ]),
        None
    );
}

#[test]
fn methods_inside_blocks_are_checked_too() {
    let nested = ClassMember::Block(Block::new(
        (3, 1),
        attrs(&["static"]),
        vec![
            ClassMember::Field(Field::new((4, 1), vec![], text("f"), text("int"))),
            ClassMember::Block(Block::new((5, 1), vec![], vec![method("deep", &["native"], true)])),
        ],
    ));
    let verdict = check_methods_body(&source(vec![class("C", &[], vec![method("ok", &[], true), nested])]));
    let d = verdict.expect_err("the method two blocks deep is native and has a body");
    assert_eq!(d.get_violation(), Violation::NativeMethodWithBody);
    assert_eq!(d.get_member().as_deref(), Some("deep"));
}

#[test]
fn methods_checker_passes_over_freestanding_functions() {
    assert_eq!(methods_violation(vec![FirstClassEntity::Function(function("f", &["abstract"], true))]), None);
    assert_eq!(methods_violation(vec![]), None);
}

#[test]
fn native_function_with_body_is_rejected() {
    let verdict = check_functions_body(&source(vec![FirstClassEntity::Function(function("f", &["native"], true))]));
    let d = verdict.expect_err("a native function has no body");
    assert_eq!(d.get_violation(), Violation::NativeFunctionWithBody);
    assert_eq!(d.get_message(), ".native freestanding functions cannot have a body");
    assert_eq!(d.get_namespace(), "app");
    assert!(d.get_class().is_none());
    assert_eq!(d.get_member().as_deref(), Some("f"));
    assert_eq!(d.get_file(), "src/a.lang");
    assert_eq!(d.get_pos(), (7, 3));
}

#[test]
fn abstract_function_is_rejected_with_or_without_body() {
    assert_eq!(
        functions_violation(vec![FirstClassEntity::Function(function("f", &["abstract"], true))]),
        Some(Violation::AbstractFunction)
    );
    assert_eq!(
        functions_violation(vec![FirstClassEntity::Function(function("f", &["abstract"], false))]),
        Some(Violation::AbstractFunction)
    );
    assert_eq!(
        functions_violation(vec![FirstClassEntity::Function(function("f", &["native", "abstract"], false))]),
        Some(Violation::AbstractFunction)
    );
}

#[test]
fn function_needs_a_body_unless_native() {
    assert_eq!(
        functions_violation(vec![FirstClassEntity::Function(function("f", &[], false))]),
        Some(Violation::BodylessFunction)
    );
    assert_eq!(functions_violation(vec![FirstClassEntity::Function(function("f", &[], true))]), None);
    assert_eq!(functions_violation(vec![FirstClassEntity::Function(function("f", &["native"], false))]), None);
}

#[test]
fn functions_checker_passes_over_classes_and_reports_the_first_function() {
    let verdict = check_functions_body(&source(vec![
        class("C", &["abstract", "interface"], vec![method("m", &["abstract"], true)]),
        FirstClassEntity::Function(function("good", &[], true)),
        FirstClassEntity::Function(function("bad", &[], false)),
        FirstClassEntity::Function(function("worse", &["abstract"], false)),
    ]));
    let d = verdict.expect_err("the second function has no body");
    assert_eq!(d.get_violation(), Violation::BodylessFunction);
    assert_eq!(d.get_member().as_deref(), Some("bad"));
}

#[test]
fn checkers_can_be_driven_by_hand() {
    let mut checker = MethodsAttributesChecker::new(text("p"));
    checker.visit_function(&function("m", &[], true));
    checker.visit_function(&function("n", &[], false));
    checker.visit_function(&function("o", &["native"], true));
    let d = checker.into_verdict().expect_err("the second method has no body");
    assert_eq!(d.get_violation(), Violation::BodylessMethod);
    assert_eq!(d.get_member().as_deref(), Some("n"));
    assert_eq!(d.get_class().as_deref(), Some(""));
    assert_eq!(d.get_namespace(), "");
    assert_eq!(d.get_file(), "p");

    let mut checker = FunctionsAttributesChecker::new(text("q"));
    checker.visit_file(&File::new(text("ns"), vec![], vec![FirstClassEntity::Function(function("f", &[], false))]));
    let d = checker.into_verdict().expect_err("the function has no body");
    assert_eq!(d.get_namespace(), "ns");
    assert_eq!(d.get_file(), "q");

    let mut checker = MethodsAttributesChecker::new(text("r"));
    checker.visit_block(&Block::new((1, 1), vec![], vec![method("m", &["native"], false)]));
    checker.visit_class_member(&method("k", &[], true));
    checker.visit_members(&vec![method("l", &[], true)]);
    assert!(checker.into_verdict().is_ok());
}

#[test]
fn find_attribute_looks_at_names_only() {
    let list = attrs(&["static", "native"]);
    assert!(find_attribute(&list, "native"));
    assert!(find_attribute(&list, "static"));
    assert!(!find_attribute(&list, "abstract"));
    assert!(!find_attribute(&vec![], "native"));
}

#[test]
fn every_violation_has_its_message() {
    assert_eq!(Violation::AbstractAndInterface.message(), "cannot be abstract and interface at the same time");
    assert_eq!(Violation::AbstractMethodInConcreteClass.message(), "no abstract methods allowed in non-abstract classes");
    assert_eq!(Violation::AbstractAndNative.message(), "cannot be abstract and native at the same time");
    assert_eq!(Violation::BodylessMethod.message(), "bodyless methods in normal classes are only allowed if natives");
    assert_eq!(Violation::InterfaceMethodWithBody.message(), "interfaces can only have bodyless methods");
    assert_eq!(Violation::NativeMethodWithBody.message(), "native methods cannot have a body");
    assert_eq!(Violation::AbstractMethodWithBody.message(), "abstract methods cannot have a body");
    assert_eq!(Violation::AbstractFunction.message(), "Freestanding functions cannot be abstract");
    assert_eq!(Violation::NativeFunctionWithBody.message(), ".native freestanding functions cannot have a body");
    assert_eq!(Violation::BodylessFunction.message(), "Non .natives freestanding functions must have a body");
}

#[test]
fn diagnostics_hold_what_they_are_given() {
    let c = class_error(Violation::AbstractAndInterface, "n", "C", "f.lang", (3, 4));
    assert_eq!(c.get_violation(), Violation::AbstractAndInterface);
    assert_eq!(c.get_namespace(), "n");
    assert_eq!(c.get_class().as_deref(), Some("C"));
    assert!(c.get_member().is_none());
    assert_eq!(c.get_file(), "f.lang");
    assert_eq!(c.get_pos(), (3, 4));
    let m = class_member_error(Violation::BodylessMethod, "n", "C", "m", "f.lang", (5, 6));
    assert_eq!(m.get_class().as_deref(), Some("C"));
    assert_eq!(m.get_member().as_deref(), Some("m"));
    assert_eq!(m.get_pos(), (5, 6));
    let f = function_error(Violation::AbstractFunction, "n", "g", "f.lang", (7, 8));
    assert!(f.get_class().is_none());
    assert_eq!(f.get_member().as_deref(), Some("g"));
    assert_eq!(f.get_message(), "Freestanding functions cannot be abstract");
    let d = Diagnostic::new(Violation::BodylessFunction, text("a"), None, None, text("b"), (1, 2));
    assert_eq!(d.get_namespace(), "a");
    assert_eq!(d.get_file(), "b");
    assert_eq!(d.get_pos(), (1, 2));
}

#[test]
fn a_copy_of_a_diagnostic_holds_the_same() {
    let d = class_member_error(Violation::BodylessMethod, "n", "C", "m", "f.lang", (5, 6));
    let copy = d.clone();
    assert_eq!(format!("{:?}", copy), format!("{:?}", d));
    assert_eq!(copy.get_member().as_deref(), Some("m"));
}
