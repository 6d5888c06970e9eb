use lang_frontend::ast::{
    AstNode, AstNodeType, Attribute, Block, Boolean, Char, Class, ClassMember, Closure, Expression,
    Field, File, FirstClassEntity, Function, FunctionCall, Identifier, Integer, Operation,
    OperationType, Param, QualifiedExpression, QualifiedExpressionPart, Statement, StringLitteral,
    VariableAffectation, VariableDeclaration,
};
use lang_frontend::source_file::SourceFile;
use lang_frontend::text::{owned, same_text};

fn text(s: &str) -> String {
    String::from(s)
}

fn chain(parts: Vec<QualifiedExpressionPart>) -> QualifiedExpression {
    QualifiedExpression::new((4, 2), parts)
}

fn int_expr(value: i32) -> Expression {
    Expression::Expr(chain(vec![QualifiedExpressionPart::Integer(Integer::new((4, 9), value))]))
}

#[test]
fn attribute_keeps_name_and_position() {
    let a = Attribute::new((3, 7), text("native"));
    assert_eq!(a.get_name(), "native");
    assert_eq!(a.get_pos(), (3, 7));
    assert!(a.is_named("native"));
    assert!(!a.is_named("abstract"));
    assert!(!a.is_named("nativ"));
    let copy = a.clone();
    assert_eq!(copy.get_name(), "native");
    assert_eq!(copy.get_pos(), (3, 7));
}

#[test]
fn param_keeps_name_type_and_position() {
    let p = Param::new((2, 5), text("x"), text("int"));
    assert_eq!(p.get_name(), "x");
    assert_eq!(p.get_type(), "int");
    assert_eq!(p.get_pos(), (2, 5));
    let copy = p.clone();
    assert_eq!(copy.get_name(), "x");
    assert_eq!(copy.get_type(), "int");
}

#[test]
fn literals_keep_their_values() {
    let i = Identifier::new((1, 1), text("foo"));
    assert_eq!(i.get_name(), "foo");
    assert_eq!(i.get_pos(), (1, 1));
    let s = StringLitteral::new((1, 2), text("hello"));
    assert_eq!(s.get_value(), "hello");
    assert_eq!(s.get_pos(), (1, 2));
    let n = Integer::new((1, 3), -42);
    assert_eq!(*n.get_value(), -42);
    assert_eq!(n.get_pos(), (1, 3));
    let c = Char::new((1, 4), 'z');
    assert_eq!(*c.get_value(), 'z');
    assert_eq!(c.get_pos(), (1, 4));
    let b = Boolean::new((1, 5), true);
    assert_eq!(*b.get_value(), true);
    assert_eq!(b.get_pos(), (1, 5));
    assert_eq!(*n.clone().get_value(), -42);
    assert_eq!(*c.clone().get_value(), 'z');
    assert_eq!(*b.clone().get_value(), true);
    assert_eq!(i.clone().get_name(), "foo");
    assert_eq!(s.clone().get_value(), "hello");
}

#[test]
fn field_getters_and_attribute_list() {
    let mut f = Field::new((5, 1), vec![Attribute::new((5, 1), text("static"))], text("count"), text("int"));
    assert_eq!(f.get_name(), "count");
    assert_eq!(f.get_type_name(), "int");
    assert_eq!(f.get_pos(), (5, 1));
    assert_eq!(f.attributes().len(), 1);
    f.get_attributes().push(Attribute::new((5, 9), text("native")));
    assert_eq!(f.attributes().len(), 2);
    assert_eq!(f.attributes()[1].get_name(), "native");
}

#[test]
fn function_has_body_exactly_when_it_holds_a_statement() {
    let bodyless = Function::new((1, 1), vec![], text("f"), vec![], text("void"), vec![]);
    assert!(!bodyless.has_body());
    let with_body = Function::new(
        (2, 1),
        vec![],
        text("g"),
        vec![Param::new((2, 3), text("x"), text("int"))],
        text("int"),
        vec![Statement::ReturnStatement { expr: Some(int_expr(1)), pos: (3, 1) }],
    );
    assert!(with_body.has_body());
    assert_eq!(with_body.get_name(), "g");
    assert_eq!(with_body.get_return_type(), "int");
    assert_eq!(with_body.get_pos(), (2, 1));
    assert_eq!(with_body.params().len(), 1);
    assert_eq!(with_body.statements().len(), 1);
    assert_eq!(with_body.attributes().len(), 0);
}

#[test]
fn function_lists_can_be_changed_in_place() {
    let mut f = Function::new((1, 1), vec![], text("f"), vec![], text("void"), vec![]);
    f.get_attributes().push(Attribute::new((1, 1), text("native")));
    f.get_params().push(Param::new((1, 2), text("a"), text("int")));
    f.get_statements().push(Statement::ReturnStatement { expr: None, pos: (2, 1) });
    assert_eq!(f.attributes().len(), 1);
    assert_eq!(f.params()[0].get_name(), "a");
    assert!(f.has_body());
}

#[test]
fn class_getters() {
    let mut c = Class::new(
        (1, 1),
        vec![Attribute::new((1, 1), text("abstract"))],
        text("Shape"),
        text("Object"),
        vec![text("Drawable")],
        vec![ClassMember::Field(Field::new((2, 1), vec![], text("area"), text("int")))],
    );
    assert_eq!(c.get_name(), "Shape");
    assert_eq!(c.get_super_name(), "Object");
    assert_eq!(c.get_pos(), (1, 1));
    assert_eq!(c.implemented_interfaces().len(), 1);
    assert_eq!(c.implemented_interfaces()[0], "Drawable");
    assert_eq!(c.attributes()[0].get_name(), "abstract");
    assert_eq!(c.members().len(), 1);
    c.get_implemented_interfaces().push(text("Comparable"));
    c.get_attributes().push(Attribute::new((1, 2), text("native")));
    c.get_members().push(ClassMember::Field(Field::new((3, 1), vec![], text("w"), text("int"))));
    assert_eq!(c.implemented_interfaces().len(), 2);
    assert_eq!(c.attributes().len(), 2);
    assert_eq!(c.members().len(), 2);
}

#[test]
fn block_getters_and_parts() {
    let mut b = Block::new(
        (7, 3),
        vec![Attribute::new((7, 3), text("native"))],
        vec![ClassMember::Field(Field::new((8, 1), vec![], text("a"), text("int")))],
    );
    assert_eq!(b.get_pos(), (7, 3));
    assert_eq!(b.attributes().len(), 1);
    assert_eq!(b.members().len(), 1);
    b.get_attributes().push(Attribute::new((7, 4), text("static")));
    b.get_members().push(ClassMember::Field(Field::new((9, 1), vec![], text("b"), text("int"))));
    let (attributes, members) = b.into_parts();
    assert_eq!(attributes.len(), 2);
    assert_eq!(members.len(), 2);
}

#[test]
fn closure_getters() {
    let mut c = Closure::new(
        (3, 3),
        vec![Param::new((3, 4), text("a"), text("int"))],
        text("int"),
        vec![Statement::ReturnStatement { expr: Some(int_expr(2)), pos: (3, 9) }],
    );
    assert_eq!(c.get_pos(), (3, 3));
    assert_eq!(c.get_return_type(), "int");
    assert_eq!(c.params().len(), 1);
    assert_eq!(c.statements().len(), 1);
    c.get_params().push(Param::new((3, 5), text("b"), text("int")));
    c.get_statements().push(Statement::ReturnStatement { expr: None, pos: (4, 1) });
    assert_eq!(c.params().len(), 2);
    assert_eq!(c.statements().len(), 2);
}

#[test]
fn expression_positions() {
    let q = chain(vec![QualifiedExpressionPart::Identifier(Identifier::new((4, 2), text("a")))]);
    assert_eq!(q.get_pos(), (4, 2));
    assert_eq!(q.get_parts().len(), 1);
    let e = Expression::Expr(q);
    assert_eq!(e.get_pos(), (4, 2));
    let part = QualifiedExpressionPart::Integer(Integer::new((9, 9), 3));
    assert_eq!(part.get_pos(), (9, 9));
    let call = QualifiedExpressionPart::MethodCall(FunctionCall::new((6, 1), text("f"), vec![]));
    assert_eq!(call.get_pos(), (6, 1));
    let paren = QualifiedExpressionPart::ParenExpr(int_expr(1));
    assert_eq!(paren.get_pos(), (4, 2));
}

#[test]
fn operation_owns_both_operands() {
    let op = Operation::new(int_expr(1), int_expr(2), OperationType::Add);
    assert_eq!(op.get_op(), OperationType::Add);
    assert_eq!(op.get_lval().get_pos(), (4, 2));
    match op.get_rval() {
        Expression::Expr(q) => match &q.get_parts()[0] {
            QualifiedExpressionPart::Integer(i) => assert_eq!(*i.get_value(), 2),
            _ => panic!("the right operand is an integer"),
        },
        _ => panic!("the right operand is a chain"),
    }
}

#[test]
fn function_call_arguments() {
    let mut call = FunctionCall::new((1, 1), text("max"), vec![int_expr(1), int_expr(2)]);
    assert_eq!(call.get_name(), "max");
    assert_eq!(call.get_pos(), (1, 1));
    assert_eq!(call.param_exprs().len(), 2);
    call.get_param_exprs().push(int_expr(3));
    assert_eq!(call.param_exprs().len(), 3);
}

#[test]
fn statement_positions() {
    let r = Statement::ReturnStatement { expr: None, pos: (5, 5) };
    assert_eq!(r.get_pos(), (5, 5));
    let d = Statement::Declaration(VariableDeclaration::new((6, 1), text("v"), text("int"), Some(int_expr(1))));
    assert_eq!(d.get_pos(), (6, 1));
    let a = Statement::Affectation(VariableAffectation::new(
        (7, 1),
        chain(vec![QualifiedExpressionPart::Identifier(Identifier::new((7, 1), text("v")))]),
        int_expr(2),
    ));
    assert_eq!(a.get_pos(), (7, 1));
    let q = Statement::QualifiedExpression(chain(vec![QualifiedExpressionPart::Null]));
    assert_eq!(q.get_pos(), (4, 2));
}

#[test]
fn variable_declaration_and_affectation_getters() {
    let d = VariableDeclaration::new((6, 1), text("v"), text("int"), None);
    assert_eq!(d.get_name(), "v");
    assert_eq!(d.get_type_name(), "int");
    assert!(d.get_value().is_none());
    assert_eq!(d.get_pos(), (6, 1));
    let a = VariableAffectation::new(
        (7, 1),
        chain(vec![QualifiedExpressionPart::Identifier(Identifier::new((7, 1), text("v")))]),
        int_expr(2),
    );
    assert_eq!(a.get_pos(), (7, 1));
    assert_eq!(a.get_receiver().get_parts().len(), 1);
    assert_eq!(a.get_value().get_pos(), (4, 2));
}

#[test]
fn file_getters_and_position() {
    let mut f = File::new(
        text("app.core"),
        vec![text("std.io")],
        vec![FirstClassEntity::Function(Function::new((1, 1), vec![], text("main"), vec![], text("void"), vec![]))],
    );
    assert_eq!(f.get_namespace(), "app.core");
    assert_eq!(f.get_imports().len(), 1);
    assert_eq!(f.get_entities().len(), 1);
    assert_eq!(f.get_pos(), (0, 0));
    f.entities_mut().pop();
    assert_eq!(f.get_entities().len(), 0);
    let (namespace, imports, entities) = f.into_parts();
    assert_eq!(namespace, "app.core");
    assert_eq!(imports, vec![text("std.io")]);
    assert!(entities.is_empty());
}

#[test]
fn source_file_getters() {
    let mut s = SourceFile::new(text("a.lang"), text("namespace n;"), File::new(text("n"), vec![], vec![]));
    assert_eq!(s.get_path(), "a.lang");
    assert_eq!(s.get_code(), "namespace n;");
    assert_eq!(s.ast().get_namespace(), "n");
    assert_eq!(s.get_ast().get_namespace(), "n");
    let (path, code, ast) = s.into_parts();
    assert_eq!(path, "a.lang");
    assert_eq!(code, "namespace n;");
    assert_eq!(ast.get_namespace(), "n");
}

#[test]
fn every_node_tells_its_shape() {
    assert_eq!(Attribute::new((1, 1), text("a")).node_type(), AstNodeType::Attribute);
    assert_eq!(Param::new((1, 1), text("a"), text("b")).node_type(), AstNodeType::Param);
    assert_eq!(Integer::new((1, 1), 1).node_type(), AstNodeType::Integer);
    assert_eq!(Boolean::new((1, 1), false).node_type(), AstNodeType::Boolean);
    assert_eq!(Char::new((1, 1), 'c').node_type(), AstNodeType::Char);
    assert_eq!(Identifier::new((1, 1), text("a")).node_type(), AstNodeType::Identifier);
    assert_eq!(StringLitteral::new((1, 1), text("a")).node_type(), AstNodeType::StringLitteral);
    assert_eq!(int_expr(1).node_type(), AstNodeType::Expression);
    assert_eq!(File::new(text("n"), vec![], vec![]).node_type(), AstNodeType::File);
    assert_eq!(
        Field::new((1, 1), vec![], text("a"), text("b")).node_type(),
        AstNodeType::Field
    );
}

#[test]
fn a_copy_of_a_tree_is_the_same_tree() {
    let body = vec![
        Statement::Declaration(VariableDeclaration::new((6, 1), text("v"), text("int"), Some(int_expr(1)))),
        Statement::Affectation(VariableAffectation::new(
            (7, 1),
            chain(vec![QualifiedExpressionPart::Identifier(Identifier::new((7, 1), text("v")))]),
            Expression::Operation(Operation::new(int_expr(2), int_expr(3), OperationType::Times)),
        )),
        Statement::QualifiedExpression(chain(vec![
            QualifiedExpressionPart::MethodCall(FunctionCall::new((8, 1), text("f"), vec![int_expr(4)])),
            QualifiedExpressionPart::Closure(Closure::new(
                (8, 9),
                vec![Param::new((8, 10), text("p"), text("int"))],
                text("int"),
                vec![Statement::ReturnStatement { expr: Some(int_expr(5)), pos: (8, 20) }],
            )),
            QualifiedExpressionPart::Null,
            QualifiedExpressionPart::StringLitteral(StringLitteral::new((8, 30), text("s"))),
            QualifiedExpressionPart::Char(Char::new((8, 31), 'c')),
            QualifiedExpressionPart::Boolean(Boolean::new((8, 32), false)),
            QualifiedExpressionPart::ParenExpr(int_expr(6)),
        ])),
        Statement::ReturnStatement { expr: None, pos: (9, 1) },
    ];
    let method = Function::new(
        (5, 1),
        vec![Attribute::new((5, 1), text("static"))],
        text("m"),
        vec![Param::new((5, 9), text("x"), text("int"))],
        text("int"),
        body,
    );
    let class = Class::new(
        (1, 1),
        vec![Attribute::new((1, 1), text("abstract"))],
        text("C"),
        text("B"),
        vec![text("I")],
        vec![
            ClassMember::Field(Field::new((2, 1), vec![Attribute::new((2, 1), text("a"))], text("f"), text("int"))),
            ClassMember::Block(Block::new(
                (3, 1),
                vec![Attribute::new((3, 1), text("native"))],
                vec![ClassMember::Method(method.clone())],
            )),
            ClassMember::Method(method),
        ],
    );
    let file = File::new(
        text("n"),
        vec![text("i")],
        vec![
            FirstClassEntity::Class(class),
            FirstClassEntity::Function(Function::new((9, 9), vec![], text("g"), vec![], text("void"), vec![])),
        ],
    );
    let source = SourceFile::new(text("p"), text("c"), file);
    let copy = source.clone();
    assert_eq!(format!("{:?}", copy), format!("{:?}", source));
    assert_eq!(format!("{:?}", copy.ast().clone()), format!("{:?}", source.ast()));
    match &source.ast().get_entities()[0] {
        FirstClassEntity::Class(c) => {
            assert_eq!(format!("{:?}", c.clone()), format!("{:?}", c));
            assert_eq!(format!("{:?}", c.members()[1].clone()), format!("{:?}", c.members()[1]));
        },
        _ => panic!("the class stands first"),
    }
}

#[test]
fn texts_are_copied_and_compared() {
    assert_eq!(owned("abc"), "abc");
    assert_eq!(owned(""), "");
    assert!(same_text("abc", "abc"));
    assert!(!same_text("abc", "abd"));
    assert!(!same_text("abc", "ab"));
    assert!(same_text("", ""));
}
