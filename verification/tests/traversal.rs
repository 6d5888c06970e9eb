use lang_frontend::ast::{
    AstNodeType, Attribute, Block, Boolean, Char, Class, ClassMember, Closure, Expression, Field,
    File, FirstClassEntity, Function, FunctionCall, Identifier, Integer, Operation, OperationType,
    Param, QualifiedExpression, QualifiedExpressionPart, Statement, StringLitteral,
    VariableAffectation, VariableDeclaration,
};
use lang_frontend::ast_actions::ast_visitor::{
    visit_class, visit_expression, visit_file, visit_function, visit_statement, AstVisitor, Event,
    Node,
};
use lang_frontend::ast_actions::node_counter::{count_nodes, shape_of, NodeCounter};

fn text(s: &str) -> String {
    String::from(s)
}

fn chain(parts: Vec<QualifiedExpressionPart>) -> QualifiedExpression {
    QualifiedExpression::new((1, 1), parts)
}

fn int_part(value: i32) -> QualifiedExpressionPart {
    QualifiedExpressionPart::Integer(Integer::new((1, 1), value))
}

fn int_expr(value: i32) -> Expression {
    Expression::Expr(chain(vec![int_part(value)]))
}

fn returning(e: Expression) -> Statement {
    Statement::ReturnStatement { expr: Some(e), pos: (1, 1) }
}

fn method(name: &str, body: Vec<Statement>) -> Function {
    Function::new((1, 1), vec![], text(name), vec![], text("int"), body)
}

fn field(name: &str) -> Field {
    Field::new((1, 1), vec![], text(name), text("int"))
}

/// A class with three fields and two methods, each of which returns an
/// integer literal.
fn fixture() -> File {
    let class = Class::new(
        (1, 1),
        vec![],
        text("C"),
        text("Object"),
        vec![],
        vec![
            ClassMember::Field(field("a")),
            ClassMember::Field(field("b")),
            ClassMember::Field(field("c")),
            ClassMember::Method(method("m", vec![returning(int_expr(1))])),
            ClassMember::Method(method("n", vec![returning(int_expr(2))])),
        ],
    );
    File::new(text("n"), vec![], vec![FirstClassEntity::Class(class)])
}

#[test]
fn fixture_counts_each_leaf_once() {
    let file = fixture();
    assert_eq!(count_nodes(&file, AstNodeType::Integer), Some(2));
    assert_eq!(count_nodes(&file, AstNodeType::Field), Some(3));
    assert_eq!(count_nodes(&file, AstNodeType::Function), Some(2));
    assert_eq!(count_nodes(&file, AstNodeType::Statement), Some(2));
    assert_eq!(count_nodes(&file, AstNodeType::Expression), Some(2));
    assert_eq!(count_nodes(&file, AstNodeType::QualifiedExpression), Some(2));
    assert_eq!(count_nodes(&file, AstNodeType::QualifiedExpressionPart), Some(2));
    assert_eq!(count_nodes(&file, AstNodeType::ClassMember), Some(5));
    assert_eq!(count_nodes(&file, AstNodeType::Class), Some(1));
    assert_eq!(count_nodes(&file, AstNodeType::File), Some(1));
    assert_eq!(count_nodes(&file, AstNodeType::Identifier), Some(0));
    assert_eq!(count_nodes(&file, AstNodeType::Closure), Some(0));
    assert_eq!(count_nodes(&file, AstNodeType::Attribute), Some(0));
    assert_eq!(count_nodes(&file, AstNodeType::Block), Some(0));
}

#[test]
fn empty_file_holds_only_itself() {
    let file = File::new(text("n"), vec![], vec![]);
    assert_eq!(count_nodes(&file, AstNodeType::File), Some(1));
    assert_eq!(count_nodes(&file, AstNodeType::Class), Some(0));
    assert_eq!(count_nodes(&file, AstNodeType::Function), Some(0));
}

/// One function that holds a node of every shape that can stand in a body.
fn busy_function() -> Function {
    let inner_closure = Closure::new(
        (9, 1),
        vec![Param::new((9, 2), text("p"), text("int"))],
        text("int"),
        vec![returning(int_expr(7))],
    );
    let call = FunctionCall::new(
        (3, 1),
        text("f"),
        vec![
            int_expr(1),
            Expression::Operation(Operation::new(int_expr(2), int_expr(3), OperationType::Add)),
        ],
    );
    let parts = vec![
        QualifiedExpressionPart::Identifier(Identifier::new((2, 1), text("a"))),
        QualifiedExpressionPart::MethodCall(call),
        QualifiedExpressionPart::StringLitteral(StringLitteral::new((2, 2), text("s"))),
        QualifiedExpressionPart::Char(Char::new((2, 3), 'c')),
        QualifiedExpressionPart::Boolean(Boolean::new((2, 4), true)),
        QualifiedExpressionPart::Null,
        QualifiedExpressionPart::Closure(inner_closure),
        QualifiedExpressionPart::ParenExpr(int_expr(4)),
    ];
    let declaration = VariableDeclaration::new((5, 1), text("v"), text("int"), Some(int_expr(5)));
    let affectation = VariableAffectation::new(
        (6, 1),
        chain(vec![QualifiedExpressionPart::Identifier(Identifier::new((6, 1), text("v")))]),
        int_expr(6),
    );
    Function::new(
        (1, 1),
        vec![Attribute::new((1, 1), text("static"))],
        text("busy"),
        vec![Param::new((1, 2), text("x"), text("int")), Param::new((1, 3), text("y"), text("int"))],
        text("void"),
        vec![
            Statement::QualifiedExpression(chain(parts)),
            Statement::Declaration(declaration),
            Statement::Affectation(affectation),
            Statement::ReturnStatement { expr: None, pos: (8, 1) },
        ],
    )
}

fn count_in_function(f: &Function, shape: AstNodeType) -> Option<usize> {
    let mut counter = NodeCounter::new(shape);
    visit_function(&mut counter, f);
    counter.get_count()
}

#[test]
fn every_shape_in_a_body_is_reached_once() {
    let f = busy_function();
    assert_eq!(count_in_function(&f, AstNodeType::Function), Some(1));
    assert_eq!(count_in_function(&f, AstNodeType::Attribute), Some(1));
    assert_eq!(count_in_function(&f, AstNodeType::Param), Some(3));
    assert_eq!(count_in_function(&f, AstNodeType::Statement), Some(5));
    assert_eq!(count_in_function(&f, AstNodeType::Integer), Some(7));
    assert_eq!(count_in_function(&f, AstNodeType::Identifier), Some(2));
    assert_eq!(count_in_function(&f, AstNodeType::StringLitteral), Some(1));
    assert_eq!(count_in_function(&f, AstNodeType::Char), Some(1));
    assert_eq!(count_in_function(&f, AstNodeType::Boolean), Some(1));
    assert_eq!(count_in_function(&f, AstNodeType::Closure), Some(1));
    assert_eq!(count_in_function(&f, AstNodeType::FunctionCall), Some(1));
    assert_eq!(count_in_function(&f, AstNodeType::Operation), Some(1));
    assert_eq!(count_in_function(&f, AstNodeType::VariableDeclaration), Some(1));
    assert_eq!(count_in_function(&f, AstNodeType::VariableAffectation), Some(1));
    // seven integers, each in a chain of its own inside an expression of its
    // own; the operation is one expression more; the chain of the first
    // statement and the receiver are two chains more
    assert_eq!(count_in_function(&f, AstNodeType::Expression), Some(8));
    assert_eq!(count_in_function(&f, AstNodeType::QualifiedExpression), Some(9));
    assert_eq!(count_in_function(&f, AstNodeType::QualifiedExpressionPart), Some(16));
}

#[test]
fn blocks_and_their_attributes_are_walked() {
    let inner = Block::new(
        (3, 1),
        vec![Attribute::new((3, 1), text("native"))],
        vec![ClassMember::Field(field("deep"))],
    );
    let outer = Block::new(
        (2, 1),
        vec![Attribute::new((2, 1), text("static")), Attribute::new((2, 2), text("final"))],
        vec![ClassMember::Block(inner), ClassMember::Method(method("m", vec![]))],
    );
    let class = Class::new(
        (1, 1),
        vec![Attribute::new((1, 1), text("abstract"))],
        text("C"),
        text("Object"),
        vec![],
        vec![ClassMember::Block(outer)],
    );
    let mut counter = NodeCounter::new(AstNodeType::Attribute);
    visit_class(&mut counter, &class);
    assert_eq!(counter.get_count(), Some(4));
    let mut counter = NodeCounter::new(AstNodeType::Block);
    visit_class(&mut counter, &class);
    assert_eq!(counter.get_count(), Some(2));
    let mut counter = NodeCounter::new(AstNodeType::ClassMember);
    visit_class(&mut counter, &class);
    assert_eq!(counter.get_count(), Some(4));
}

#[test]
fn a_counter_goes_on_counting_over_several_walks() {
    let mut counter = NodeCounter::new(AstNodeType::Integer);
    visit_expression(&mut counter, &int_expr(1));
    visit_statement(&mut counter, &returning(int_expr(2)));
    visit_file(&mut counter, &fixture());
    assert_eq!(counter.get_count(), Some(4));
}

#[test]
fn only_entering_a_node_of_the_shape_counts() {
    let integer = Integer::new((1, 1), 5);
    let identifier = Identifier::new((1, 1), text("a"));
    let mut counter = NodeCounter::new(AstNodeType::Integer);
    assert_eq!(counter.get_count(), Some(0));
    counter.visit(Event::Enter(Node::Integer(&integer)));
    assert_eq!(counter.get_count(), Some(1));
    counter.visit(Event::Leave(Node::Integer(&integer)));
    assert_eq!(counter.get_count(), Some(1));
    counter.visit(Event::Enter(Node::Identifier(&identifier)));
    assert_eq!(counter.get_count(), Some(1));
}

#[test]
fn shape_of_names_the_shape_of_a_node() {
    let integer = Integer::new((1, 1), 5);
    let file = fixture();
    assert_eq!(shape_of(&Node::Integer(&integer)), AstNodeType::Integer);
    assert_eq!(shape_of(&Node::File(&file)), AstNodeType::File);
}
