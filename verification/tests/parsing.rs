use lang_frontend::ast::litterals::parse_i32;
use lang_frontend::ast::{
    Attribute, Block, Boolean, Char, Class, ClassMember, Closure, Expression, Field, File,
    FirstClassEntity, Function, FunctionCall, Identifier, Integer, OperationType, Param,
    QualifiedExpression, QualifiedExpressionPart, Statement, StringLitteral, VariableAffectation,
    VariableDeclaration,
};
use lang_frontend::parser::{parse_tree, ParseNode, Rule};

fn node(rule: Rule, pos: (usize, usize), text: &str, children: Vec<ParseNode>) -> ParseNode {
    ParseNode::new(rule, pos, String::from(text), children)
}

fn leaf(rule: Rule, text: &str) -> ParseNode {
    node(rule, (1, 1), text, vec![])
}

fn attribute(name: &str) -> ParseNode {
    node(Rule::Attribute, (1, 2), &format!(".{}", name), vec![leaf(Rule::Ident, name)])
}

fn attribute_list(names: &[&str]) -> ParseNode {
    node(Rule::AttributeList, (1, 1), "", names.iter().map(|n| attribute(n)).collect())
}

fn param(name: &str, ty: &str) -> ParseNode {
    node(Rule::IdentTypePair, (2, 3), "", vec![leaf(Rule::Ident, name), leaf(Rule::Type, ty)])
}

fn integer(text: &str) -> ParseNode {
    node(Rule::Integer, (3, 4), text, vec![])
}

fn chain(parts: Vec<ParseNode>) -> ParseNode {
    node(Rule::QualifiedExpression, (5, 6), "", parts)
}

fn expression(operand: ParseNode) -> ParseNode {
    node(Rule::Expression, (5, 5), "", vec![operand])
}

fn statement(inner: ParseNode) -> ParseNode {
    node(Rule::Statement, (6, 1), "", vec![inner])
}

fn integer_value(e: &Expression) -> i32 {
    match e {
        Expression::Expr(q) => match &q.get_parts()[0] {
            QualifiedExpressionPart::Integer(i) => *i.get_value(),
            _ => panic!("an integer stands there"),
        },
        _ => panic!("a chain stands there"),
    }
}

#[test]
fn parse_tree_nodes_keep_what_they_are_given() {
    let n = node(Rule::Ident, (4, 7), "name", vec![leaf(Rule::Other, "x"), leaf(Rule::Null, "null")]);
    assert_eq!(n.as_rule(), Rule::Ident);
    assert_eq!(n.as_str(), "name");
    assert_eq!(n.get_pos(), (4, 7));
    assert_eq!(n.children().len(), 2);
    assert_eq!(n.children()[1].as_rule(), Rule::Null);
}

#[test]
fn integers_are_read_in_decimal_with_an_optional_sign() {
    assert_eq!(parse_i32("0"), Some(0));
    assert_eq!(parse_i32("7"), Some(7));
    assert_eq!(parse_i32("42"), Some(42));
    assert_eq!(parse_i32("-5"), Some(-5));
    assert_eq!(parse_i32("+5"), Some(5));
    assert_eq!(parse_i32("007"), Some(7));
    assert_eq!(parse_i32("-0"), Some(0));
    assert_eq!(parse_i32("2147483647"), Some(i32::MAX));
    assert_eq!(parse_i32("-2147483648"), Some(i32::MIN));
    assert_eq!(parse_i32("+2147483647"), Some(i32::MAX));
    assert_eq!(parse_i32("2147483648"), None);
    assert_eq!(parse_i32("-2147483649"), None);
    assert_eq!(parse_i32("99999999999999999999999999"), None);
    assert_eq!(parse_i32(""), None);
    assert_eq!(parse_i32("-"), None);
    assert_eq!(parse_i32("+"), None);
    assert_eq!(parse_i32("12a"), None);
    assert_eq!(parse_i32("a12"), None);
    assert_eq!(parse_i32("1 2"), None);
    assert_eq!(parse_i32(" 1"), None);
    assert_eq!(parse_i32("--1"), None);
    assert_eq!(parse_i32("1-"), None);
    assert_eq!(parse_i32("١٢"), None);
}

#[test]
fn integers_are_read_as_the_standard_library_reads_them() {
    for text in ["0", "1", "-1", "+1", "123456", "-2147483648", "2147483647", "2147483648", "", "x", "+-1", "0x10", "1e3", "٣"] {
        assert_eq!(parse_i32(text), text.parse::<i32>().ok(), "for {:?}", text);
    }
}

#[test]
fn attribute_from_pair() {
    let a = Attribute::from_pair(&attribute("native")).expect("an attribute");
    assert_eq!(a.get_name(), "native");
    assert_eq!(a.get_pos(), (1, 2));
    assert!(Attribute::from_pair(&leaf(Rule::Attribute, "x")).is_none());
    assert!(Attribute::from_pair(&node(Rule::Ident, (1, 1), "", vec![leaf(Rule::Ident, "x")])).is_none());
    let list = Attribute::from_pairs(&vec![attribute("a"), attribute("b")]).expect("two attributes");
    assert_eq!(list.len(), 2);
    assert_eq!(list[1].get_name(), "b");
    assert!(Attribute::from_pairs(&vec![attribute("a"), leaf(Rule::Other, "")]).is_none());
    assert_eq!(Attribute::from_pairs(&vec![]).map(|l| l.len()), Some(0));
}

#[test]
fn param_from_pair() {
    let p = Param::from_pair(&param("x", "int")).expect("a parameter");
    assert_eq!(p.get_name(), "x");
    assert_eq!(p.get_type(), "int");
    assert_eq!(p.get_pos(), (2, 3));
    assert!(Param::from_pair(&node(Rule::IdentTypePair, (1, 1), "", vec![leaf(Rule::Ident, "x")])).is_none());
    assert!(Param::from_pair(&leaf(Rule::Ident, "x")).is_none());
    assert_eq!(Param::from_pairs(&vec![param("a", "int"), param("b", "bool")]).map(|l| l.len()), Some(2));
    assert!(Param::from_pairs(&vec![param("a", "int"), leaf(Rule::Ident, "b")]).is_none());
}

#[test]
fn literals_from_pair() {
    let i = Identifier::from_pair(&node(Rule::Ident, (1, 9), "foo", vec![])).expect("an identifier");
    assert_eq!(i.get_name(), "foo");
    assert_eq!(i.get_pos(), (1, 9));
    assert!(Identifier::from_pair(&leaf(Rule::Integer, "1")).is_none());

    let s = StringLitteral::from_pair(&node(Rule::String, (2, 1), "\"hi\"", vec![leaf(Rule::StringChars, "hi")])).expect("a string");
    assert_eq!(s.get_value(), "hi");
    assert_eq!(s.get_pos(), (2, 1));
    assert!(StringLitteral::from_pair(&node(Rule::String, (2, 1), "\"hi\"", vec![])).is_none());
    assert!(StringLitteral::from_pair(&node(Rule::String, (2, 1), "\"hi\"", vec![leaf(Rule::Ident, "hi")])).is_none());

    let n = Integer::from_pair(&integer("-17")).expect("an integer");
    assert_eq!(*n.get_value(), -17);
    assert_eq!(n.get_pos(), (3, 4));
    assert!(Integer::from_pair(&integer("seventeen")).is_none());
    assert!(Integer::from_pair(&integer("4294967296")).is_none());
    assert!(Integer::from_pair(&leaf(Rule::Ident, "1")).is_none());

    let c = Char::from_pair(&node(Rule::Character, (4, 1), "'a'", vec![])).expect("a character");
    assert_eq!(*c.get_value(), 'a');
    assert!(Char::from_pair(&node(Rule::Character, (4, 1), "'", vec![])).is_none());
    assert!(Char::from_pair(&leaf(Rule::Ident, "'a'")).is_none());

    assert_eq!(Boolean::from_pair(&leaf(Rule::Boolean, "true")).map(|b| *b.get_value()), Some(true));
    assert_eq!(Boolean::from_pair(&leaf(Rule::Boolean, "false")).map(|b| *b.get_value()), Some(false));
    assert!(Boolean::from_pair(&leaf(Rule::Boolean, "maybe")).is_none());
    assert!(Boolean::from_pair(&leaf(Rule::Ident, "true")).is_none());
}

#[test]
fn character_takes_the_second_byte_of_the_text() {
    // between the quotes stands a character of two bytes: the literal gets
    // the first of them
    let c = Char::from_pair(&node(Rule::Character, (1, 1), "'é'", vec![])).expect("a character");
    assert_eq!(*c.get_value(), '\u{c3}');
}

#[test]
fn expression_operands_and_operators() {
    let e = Expression::from_pair(&expression(chain(vec![integer("1")]))).expect("a chain");
    assert_eq!(integer_value(&e), 1);
    assert_eq!(e.get_pos(), (5, 6));

    // 1 + 2 * 3 with the product below the sum
    let product = node(Rule::TmOp, (1, 1), "*", vec![chain(vec![integer("2")]), chain(vec![integer("3")])]);
    let sum = node(Rule::AdOp, (1, 1), "+", vec![chain(vec![integer("1")]), product]);
    match Expression::from_pair(&expression(sum)).expect("an operation") {
        Expression::Operation(o) => {
            assert_eq!(o.get_op(), OperationType::Add);
            assert_eq!(integer_value(o.get_lval()), 1);
            match o.get_rval() {
                Expression::Operation(p) => {
                    assert_eq!(p.get_op(), OperationType::Times);
                    assert_eq!(integer_value(p.get_lval()), 2);
                    assert_eq!(integer_value(p.get_rval()), 3);
                },
                _ => panic!("the right operand is the product"),
            }
        },
        _ => panic!("the sum is an operation"),
    }
    assert!(Expression::from_pair(&expression(node(Rule::AdOp, (1, 1), "+", vec![chain(vec![])]))).is_none());
    assert!(Expression::from_pair(&node(Rule::Expression, (1, 1), "", vec![])).is_none());
    assert!(Expression::from_pair(&expression(leaf(Rule::Ident, "a"))).is_none());
    assert!(Expression::from_pair(&chain(vec![])).is_none());
    assert!(Expression::from_operand(&expression(chain(vec![]))).is_none());
}

#[test]
fn every_operator_rule_has_its_operator() {
    let table = [
        (Rule::EqOp, OperationType::Eqal),
        (Rule::NeOp, OperationType::NotEqual),
        (Rule::GtOp, OperationType::GreaterThan),
        (Rule::GeOp, OperationType::GreaterOrEqual),
        (Rule::LtOp, OperationType::LowerThan),
        (Rule::LeOp, OperationType::LowerOrEqual),
        (Rule::AdOp, OperationType::Add),
        (Rule::MnOp, OperationType::Minus),
        (Rule::TmOp, OperationType::Times),
        (Rule::DvOp, OperationType::Div),
        (Rule::MdOp, OperationType::Mod),
    ];
    for (rule, op) in table {
        assert_eq!(OperationType::from_rule(rule), Some(op));
    }
    assert_eq!(OperationType::from_rule(Rule::Ident), None);
    assert_eq!(OperationType::from_rule(Rule::Other), None);
}

#[test]
fn chain_parts_from_pair() {
    let call = node(
        Rule::MethodCall,
        (7, 7),
        "f(1, 2)",
        vec![leaf(Rule::Ident, "f"), node(Rule::Other, (7, 9), "", vec![expression(chain(vec![integer("1")])), expression(chain(vec![integer("2")]))])],
    );
    let closure = node(Rule::Closure, (8, 8), "", vec![]);
    let q = QualifiedExpression::from_pair(&chain(vec![
        leaf(Rule::Ident, "a"),
        call,
        integer("3"),
        node(Rule::String, (1, 1), "\"s\"", vec![leaf(Rule::StringChars, "s")]),
        leaf(Rule::Character, "'c'"),
        leaf(Rule::Boolean, "true"),
        leaf(Rule::Null, "null"),
        closure,
        expression(chain(vec![integer("4")])),
    ]))
    .expect("a chain");
    assert_eq!(q.get_pos(), (5, 6));
    let parts = q.get_parts();
    assert_eq!(parts.len(), 9);
    assert!(matches!(&parts[0], QualifiedExpressionPart::Identifier(i) if i.get_name() == "a"));
    match &parts[1] {
        QualifiedExpressionPart::MethodCall(f) => {
            assert_eq!(f.get_name(), "f");
            assert_eq!(f.get_pos(), (7, 7));
            assert_eq!(f.param_exprs().len(), 2);
            assert_eq!(integer_value(&f.param_exprs()[1]), 2);
        },
        _ => panic!("the second part is a call"),
    }
    assert!(matches!(&parts[2], QualifiedExpressionPart::Integer(i) if *i.get_value() == 3));
    assert!(matches!(&parts[3], QualifiedExpressionPart::StringLitteral(s) if s.get_value() == "s"));
    assert!(matches!(&parts[4], QualifiedExpressionPart::Char(c) if *c.get_value() == 'c'));
    assert!(matches!(&parts[5], QualifiedExpressionPart::Boolean(b) if *b.get_value()));
    assert!(matches!(&parts[6], QualifiedExpressionPart::Null));
    assert!(matches!(&parts[7], QualifiedExpressionPart::Closure(c) if c.get_pos() == (8, 8)));
    assert!(matches!(&parts[8], QualifiedExpressionPart::ParenExpr(e) if integer_value(e) == 4));

    assert!(QualifiedExpression::from_pair(&node(Rule::QualifiedIdent, (1, 1), "", vec![leaf(Rule::Ident, "a")])).is_some());
    assert!(QualifiedExpression::from_pair(&chain(vec![leaf(Rule::Other, "")])).is_none());
    assert!(QualifiedExpression::from_pair(&chain(vec![integer("x")])).is_none());
    assert!(QualifiedExpression::from_pair(&leaf(Rule::Ident, "a")).is_none());
    assert!(QualifiedExpressionPart::from_pair(&leaf(Rule::Statement, "")).is_none());
    assert_eq!(QualifiedExpressionPart::from_pairs(&vec![leaf(Rule::Null, ""), leaf(Rule::Null, "")]).map(|l| l.len()), Some(2));
    assert_eq!(Expression::from_pairs(&vec![expression(chain(vec![]))]).map(|l| l.len()), Some(1));
    assert!(Expression::from_pairs(&vec![expression(chain(vec![])), leaf(Rule::Ident, "a")]).is_none());
}

#[test]
fn call_without_arguments() {
    let f = FunctionCall::from_pair(&node(Rule::MethodCall, (1, 1), "f()", vec![leaf(Rule::Ident, "f")])).expect("a call");
    assert_eq!(f.get_name(), "f");
    assert_eq!(f.param_exprs().len(), 0);
    assert!(FunctionCall::from_pair(&node(Rule::MethodCall, (1, 1), "", vec![])).is_none());
    assert!(FunctionCall::from_pair(&leaf(Rule::Ident, "f")).is_none());
    let bad = node(Rule::MethodCall, (1, 1), "", vec![leaf(Rule::Ident, "f"), node(Rule::Other, (1, 1), "", vec![leaf(Rule::Ident, "x")])]);
    assert!(FunctionCall::from_pair(&bad).is_none());
}

#[test]
fn statements_from_pair() {
    let with_value = statement(node(Rule::ReturnStmt, (9, 2), "", vec![expression(chain(vec![integer("1")]))]));
    match Statement::from_pair(&with_value).expect("a return") {
        Statement::ReturnStatement { expr, pos } => {
            assert_eq!(pos, (9, 2));
            assert_eq!(integer_value(&expr.expect("a value")), 1);
        },
        _ => panic!("a return statement"),
    }
    let bare = statement(node(Rule::ReturnStmt, (9, 3), "", vec![]));
    assert!(matches!(Statement::from_pair(&bare), Some(Statement::ReturnStatement { expr: None, pos: (9, 3) })));

    let declaration = node(
        Rule::Declaration,
        (2, 2),
        "",
        vec![leaf(Rule::Ident, "v"), leaf(Rule::Type, "int"), expression(chain(vec![integer("5")]))],
    );
    match Statement::from_pair(&statement(declaration)).expect("a declaration") {
        Statement::Declaration(d) => {
            assert_eq!(d.get_name(), "v");
            assert_eq!(d.get_type_name(), "int");
            assert_eq!(d.get_pos(), (2, 2));
            assert_eq!(d.get_value().as_ref().map(integer_value), Some(5));
        },
        _ => panic!("a declaration"),
    }
    let without_value = node(Rule::Declaration, (2, 2), "", vec![leaf(Rule::Ident, "v"), leaf(Rule::Type, "int")]);
    assert!(VariableDeclaration::from_pair(&without_value).expect("a declaration").get_value().is_none());
    assert!(VariableDeclaration::from_pair(&node(Rule::Declaration, (1, 1), "", vec![leaf(Rule::Ident, "v")])).is_none());
    let bad_value = node(Rule::Declaration, (2, 2), "", vec![leaf(Rule::Ident, "v"), leaf(Rule::Type, "int"), leaf(Rule::Ident, "x")]);
    assert!(VariableDeclaration::from_pair(&bad_value).is_none());

    let affectation = node(
        Rule::Affectation,
        (3, 3),
        "",
        vec![node(Rule::QualifiedIdent, (3, 3), "", vec![leaf(Rule::Ident, "v")]), expression(chain(vec![integer("6")]))],
    );
    match Statement::from_pair(&statement(affectation)).expect("an assignment") {
        Statement::Affectation(a) => {
            assert_eq!(a.get_pos(), (3, 3));
            assert_eq!(a.get_receiver().get_parts().len(), 1);
            assert_eq!(integer_value(a.get_value()), 6);
        },
        _ => panic!("an assignment"),
    }
    assert!(VariableAffectation::from_pair(&node(Rule::Affectation, (1, 1), "", vec![chain(vec![])])).is_none());

    assert!(matches!(Statement::from_pair(&statement(chain(vec![leaf(Rule::Null, "")]))), Some(Statement::QualifiedExpression(_))));
    assert!(Statement::from_pair(&statement(leaf(Rule::Ident, "a"))).is_none());
    assert!(Statement::from_pair(&node(Rule::Statement, (1, 1), "", vec![])).is_none());
    assert!(Statement::from_pair(&chain(vec![])).is_none());
    assert_eq!(Statement::from_pairs(&vec![]).map(|l| l.len()), Some(0));
    assert!(Statement::from_pairs(&vec![leaf(Rule::Ident, "a")]).is_none());
}

fn method_decl(name: &str, attributes: &[&str], with_body: bool) -> ParseNode {
    let mut children = vec![
        attribute_list(attributes),
        leaf(Rule::Type, "int"),
        leaf(Rule::Ident, name),
        node(Rule::ParamList, (1, 1), "", vec![param("x", "int"), param("y", "bool")]),
        leaf(Rule::Other, ";"),
    ];
    if with_body {
        children.push(node(
            Rule::ExecutableBody,
            (1, 1),
            "",
            vec![statement(node(Rule::ReturnStmt, (2, 2), "", vec![expression(chain(vec![integer("1")]))]))],
        ));
    }
    node(Rule::MethodDecl, (11, 4), "", children)
}

#[test]
fn function_from_pair() {
    let f = Function::from_pair(&method_decl("run", &["native", "static"], true)).expect("a function");
    assert_eq!(f.get_name(), "run");
    assert_eq!(f.get_return_type(), "int");
    assert_eq!(f.get_pos(), (11, 4));
    assert_eq!(f.attributes().len(), 2);
    assert_eq!(f.attributes()[0].get_name(), "native");
    assert_eq!(f.params().len(), 2);
    assert_eq!(f.params()[1].get_name(), "y");
    assert_eq!(f.statements().len(), 1);
    assert!(f.has_body());
    let bodyless = Function::from_pair(&method_decl("run", &[], false)).expect("a function");
    assert!(!bodyless.has_body());
    let operator = Function::from_pair(&node(Rule::MethodDecl, (1, 1), "", vec![leaf(Rule::Operator, "+")])).expect("an operator");
    assert_eq!(operator.get_name(), "+");
    assert!(Function::from_pair(&node(Rule::ClassDecl, (1, 1), "", vec![])).is_none());
    let bad_param = node(Rule::MethodDecl, (1, 1), "", vec![node(Rule::ParamList, (1, 1), "", vec![leaf(Rule::Ident, "x")])]);
    assert!(Function::from_pair(&bad_param).is_none());
    let bad_then_good = node(
        Rule::MethodDecl,
        (1, 1),
        "",
        vec![node(Rule::ExecutableBody, (1, 1), "", vec![leaf(Rule::Ident, "x")]), leaf(Rule::Ident, "f")],
    );
    assert!(Function::from_pair(&bad_then_good).is_none());
}

#[test]
fn later_names_and_types_go_in_front() {
    let f = Function::from_pair(&node(
        Rule::MethodDecl,
        (1, 1),
        "",
        vec![leaf(Rule::Ident, "ab"), leaf(Rule::Ident, "cd"), leaf(Rule::Type, "x"), leaf(Rule::Type, "y")],
    ))
    .expect("a function");
    assert_eq!(f.get_name(), "cdab");
    assert_eq!(f.get_return_type(), "yx");
}

#[test]
fn closure_from_pair() {
    let c = Closure::from_pair(&node(
        Rule::Closure,
        (3, 9),
        "",
        vec![
            node(Rule::ParamList, (1, 1), "", vec![param("a", "int")]),
            leaf(Rule::Type, "bool"),
            leaf(Rule::Other, "=>"),
            node(Rule::ExecutableBody, (1, 1), "", vec![statement(node(Rule::ReturnStmt, (1, 1), "", vec![]))]),
        ],
    ))
    .expect("a closure");
    assert_eq!(c.get_pos(), (3, 9));
    assert_eq!(c.get_return_type(), "bool");
    assert_eq!(c.params().len(), 1);
    assert_eq!(c.statements().len(), 1);
    assert!(Closure::from_pair(&leaf(Rule::MethodDecl, "")).is_none());
    let bad = node(Rule::Closure, (1, 1), "", vec![node(Rule::ExecutableBody, (1, 1), "", vec![leaf(Rule::Other, "")])]);
    assert!(Closure::from_pair(&bad).is_none());
}

fn field_decl(name: &str, attributes: &[&str]) -> ParseNode {
    node(Rule::FieldDecl, (4, 4), "", vec![attribute_list(attributes), leaf(Rule::Ident, name), leaf(Rule::Type, "int")])
}

#[test]
fn field_and_block_from_pair() {
    let f = Field::from_pair(&field_decl("count", &["static"])).expect("a field");
    assert_eq!(f.get_name(), "count");
    assert_eq!(f.get_type_name(), "int");
    assert_eq!(f.get_pos(), (4, 4));
    assert_eq!(f.attributes().len(), 1);
    assert!(Field::from_pair(&node(Rule::FieldDecl, (1, 1), "", vec![attribute_list(&[]), leaf(Rule::Ident, "x")])).is_none());
    assert!(Field::from_pair(&leaf(Rule::Ident, "x")).is_none());

    let b = Block::from_pair(&node(
        Rule::BlockDecl,
        (5, 5),
        "",
        vec![attribute_list(&["native"]), field_decl("a", &[]), method_decl("m", &[], false)],
    ))
    .expect("a block");
    assert_eq!(b.get_pos(), (5, 5));
    assert_eq!(b.attributes().len(), 1);
    assert_eq!(b.members().len(), 2);
    assert!(matches!(&b.members()[0], ClassMember::Field(f) if f.get_name() == "a"));
    assert!(matches!(&b.members()[1], ClassMember::Method(m) if m.get_name() == "m"));
    // a block holds fields and methods only
    let nested = node(Rule::BlockDecl, (1, 1), "", vec![attribute_list(&[]), node(Rule::BlockDecl, (1, 1), "", vec![attribute_list(&[])])]);
    assert!(Block::from_pair(&nested).is_none());
    assert!(Block::from_pair(&node(Rule::BlockDecl, (1, 1), "", vec![])).is_none());
    assert!(Block::member_from_pair(&leaf(Rule::Ident, "x")).is_none());
    assert!(ClassMember::from_pair(&node(Rule::BlockDecl, (1, 1), "", vec![attribute_list(&[])])).is_some());
    assert!(ClassMember::from_pair(&leaf(Rule::Ident, "x")).is_none());
}

fn class_decl(name: &str) -> ParseNode {
    node(
        Rule::ClassDecl,
        (6, 6),
        "",
        vec![
            attribute_list(&["abstract"]),
            leaf(Rule::Ident, name),
            leaf(Rule::Ident, "Base"),
            node(Rule::InterfaceList, (1, 1), "", vec![leaf(Rule::Ident, "I"), leaf(Rule::Ident, "J")]),
            field_decl("a", &[]),
            method_decl("m", &["abstract"], false),
            node(Rule::BlockDecl, (1, 1), "", vec![attribute_list(&["native"]), field_decl("b", &[])]),
        ],
    )
}

#[test]
fn class_from_pair() {
    let c = Class::from_pair(&class_decl("Shape")).expect("a class");
    assert_eq!(c.get_name(), "Shape");
    assert_eq!(c.get_super_name(), "Base");
    assert_eq!(c.get_pos(), (6, 6));
    assert_eq!(c.attributes().len(), 1);
    assert_eq!(c.implemented_interfaces(), &vec![String::from("I"), String::from("J")]);
    assert_eq!(c.members().len(), 3);
    assert!(matches!(&c.members()[2], ClassMember::Block(b) if b.members().len() == 1));
    let stray = node(
        Rule::ClassDecl,
        (1, 1),
        "",
        vec![attribute_list(&[]), leaf(Rule::Ident, "C"), leaf(Rule::Ident, "B"), leaf(Rule::Other, "?")],
    );
    assert!(Class::from_pair(&stray).is_none());
    assert!(Class::from_pair(&node(Rule::ClassDecl, (1, 1), "", vec![attribute_list(&[]), leaf(Rule::Ident, "C")])).is_none());
    assert!(Class::from_pair(&leaf(Rule::MethodDecl, "")).is_none());
}

#[test]
fn file_from_pair() {
    let root = node(
        Rule::File,
        (1, 1),
        "",
        vec![
            node(Rule::Namespace, (1, 1), "", vec![leaf(Rule::Other, "namespace"), leaf(Rule::QualifiedType, "app.core")]),
            node(Rule::Import, (2, 1), "", vec![leaf(Rule::QualifiedType, "std.io"), leaf(Rule::Other, ";")]),
            node(Rule::Import, (3, 1), "", vec![leaf(Rule::QualifiedType, "std.fmt")]),
            method_decl("main", &[], true),
            class_decl("Shape"),
            leaf(Rule::Other, "end"),
        ],
    );
    let f = parse_tree(&root).expect("a file");
    assert_eq!(f.get_namespace(), "app.core");
    assert_eq!(f.get_imports(), &vec![String::from("std.io"), String::from("std.fmt")]);
    assert_eq!(f.get_entities().len(), 2);
    assert!(matches!(&f.get_entities()[0], FirstClassEntity::Function(g) if g.get_name() == "main"));
    assert!(matches!(&f.get_entities()[1], FirstClassEntity::Class(c) if c.get_name() == "Shape"));
    assert_eq!(format!("{:?}", File::from_pair(&root).unwrap()), format!("{:?}", f));

    let empty = parse_tree(&node(Rule::File, (1, 1), "", vec![])).expect("an empty file");
    assert_eq!(empty.get_namespace(), "");
    assert!(empty.get_entities().is_empty());
    assert!(parse_tree(&leaf(Rule::ClassDecl, "")).is_none());
    let broken = node(Rule::File, (1, 1), "", vec![node(Rule::ClassDecl, (1, 1), "", vec![])]);
    assert!(parse_tree(&broken).is_none());
}
