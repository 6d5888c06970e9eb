use lang_frontend::ast::{
    Attribute, Block, Class, ClassMember, Closure, Expression, Field, File, FirstClassEntity,
    Function, FunctionCall, Integer, Operation, OperationType, Param, QualifiedExpression,
    QualifiedExpressionPart, Statement, VariableAffectation, VariableDeclaration,
};
use lang_frontend::ast_actions::ast_visitor::{visit_class, visit_file, visit_function};
use lang_frontend::source_file::SourceFile;
use lang_frontend::symbol_table::ordinal::Ordinal;
use lang_frontend::symbol_table::{
    create_namespace_table, create_symbol_table, namespaces_map, CSTEntry, ClassSymbolTable,
    FSTEntry, FunctionSymbolTable, NSTEntry, NamespaceSymbolTable, SymbolTableCreator, Table,
};

fn text(s: &str) -> String {
    String::from(s)
}

fn chain(parts: Vec<QualifiedExpressionPart>) -> QualifiedExpression {
    QualifiedExpression::new((1, 1), parts)
}

fn int_expr(value: i32) -> Expression {
    Expression::Expr(chain(vec![QualifiedExpressionPart::Integer(Integer::new((1, 1), value))]))
}

fn closure_expr(closure: Closure) -> Expression {
    Expression::Expr(chain(vec![QualifiedExpressionPart::Closure(closure)]))
}

fn closure(pos: (usize, usize), param: &str, body: Vec<Statement>) -> Closure {
    Closure::new(pos, vec![Param::new(pos, text(param), text("int"))], text("bool"), body)
}

fn expression_statement(e: Expression) -> Statement {
    Statement::QualifiedExpression(chain(vec![QualifiedExpressionPart::ParenExpr(e)]))
}

fn function(name: &str, params: Vec<Param>, body: Vec<Statement>) -> Function {
    Function::new((10, 1), vec![], text(name), params, text("int"), body)
}

fn source(namespace: &str, entities: Vec<FirstClassEntity>) -> SourceFile {
    SourceFile::new(text("f.lang"), text(""), File::new(text(namespace), vec![], entities))
}

fn table_of(f: Function) -> FunctionSymbolTable {
    let files = vec![source("n", vec![FirstClassEntity::Function(f)])];
    let nst = create_namespace_table(&files);
    let mut entries = nst.into_entries();
    assert_eq!(entries.len(), 1);
    match entries.pop().unwrap().1 {
        NSTEntry::Fun(_, _, table) => table,
        NSTEntry::Class(..) => panic!("a function was declared"),
    }
}

fn as_closure<'a>(table: &'a FunctionSymbolTable, name: &str) -> (&'a str, (usize, usize), &'a FunctionSymbolTable) {
    match table.get(name) {
        Some(FSTEntry::Closure(return_type, pos, inner)) => (return_type.as_str(), *pos, inner),
        _ => panic!("{} is a closure", name),
    }
}

fn sorted_keys<V>(table: &Table<V>) -> Vec<String> {
    let mut keys = table.keys();
    keys.sort();
    keys
}

#[test]
fn class_with_native_method_has_the_expected_shape() {
    // class C { native int m(int x); } in namespace n
    let m = Function::new(
        (2, 5),
        vec![Attribute::new((2, 5), text("native"))],
        text("m"),
        vec![Param::new((2, 18), text("x"), text("int"))],
        text("int"),
        vec![],
    );
    let class = Class::new((1, 1), vec![], text("C"), text("Object"), vec![text("I"), text("J")], vec![ClassMember::Method(m)]);
    let groups = namespaces_map(vec![source("n", vec![FirstClassEntity::Class(class)])]);
    let gst = create_symbol_table(groups);
    assert_eq!(gst.len(), 1);
    let nst = gst.get("n").expect("the namespace is there");
    assert_eq!(nst.len(), 1);
    match nst.get("C") {
        Some(NSTEntry::Class(super_name, interfaces, pos, cst)) => {
            assert_eq!(super_name, "Object");
            assert_eq!(interfaces, &vec![text("I"), text("J")]);
            assert_eq!(*pos, (1, 1));
            assert_eq!(cst.len(), 1);
            match cst.get("m") {
                Some(CSTEntry::Method(return_type, pos, fst)) => {
                    assert_eq!(return_type, "int");
                    assert_eq!(*pos, (2, 5));
                    assert_eq!(fst.len(), 1);
                    match fst.get("x") {
                        Some(FSTEntry::Param(ty, pos)) => {
                            assert_eq!(ty, "int");
                            assert_eq!(*pos, (2, 18));
                        },
                        _ => panic!("x is a parameter"),
                    }
                },
                _ => panic!("m is a method"),
            }
        },
        _ => panic!("C is a class"),
    }
}

#[test]
fn sibling_closures_get_distinct_names_and_tables_of_their_own() {
    let first = closure((3, 1), "a", vec![]);
    let second = closure((4, 1), "b", vec![]);
    let f = function("f", vec![], vec![expression_statement(closure_expr(first)), expression_statement(closure_expr(second))]);
    let table = table_of(f);
    assert_eq!(sorted_keys(&table), vec![text("<closure1>"), text("<closure2>")]);
    let (return_type, pos, inner) = as_closure(&table, "<closure1>");
    assert_eq!(return_type, "bool");
    assert_eq!(pos, (3, 1));
    assert_eq!(sorted_keys(inner), vec![text("a")]);
    let (_, pos, inner) = as_closure(&table, "<closure2>");
    assert_eq!(pos, (4, 1));
    assert_eq!(sorted_keys(inner), vec![text("b")]);
}

#[test]
fn nested_closures_share_the_counter_of_the_function() {
    let innermost = closure((5, 1), "c", vec![]);
    let inner = closure((4, 1), "b", vec![Statement::ReturnStatement { expr: Some(closure_expr(innermost)), pos: (4, 9) }]);
    let outer = closure((3, 1), "a", vec![expression_statement(closure_expr(inner))]);
    let after = closure((6, 1), "d", vec![]);
    let f = function(
        "f",
        vec![Param::new((2, 1), text("p"), text("int"))],
        vec![expression_statement(closure_expr(outer)), expression_statement(closure_expr(after))],
    );
    let table = table_of(f);
    assert_eq!(sorted_keys(&table), vec![text("<closure1>"), text("<closure4>"), text("p")]);
    let (_, pos, first) = as_closure(&table, "<closure1>");
    assert_eq!(pos, (3, 1));
    assert_eq!(sorted_keys(first), vec![text("<closure2>"), text("a")]);
    let (_, pos, second) = as_closure(first, "<closure2>");
    assert_eq!(pos, (4, 1));
    assert_eq!(sorted_keys(second), vec![text("<closure3>"), text("b")]);
    let (_, pos, third) = as_closure(second, "<closure3>");
    assert_eq!(pos, (5, 1));
    assert_eq!(sorted_keys(third), vec![text("c")]);
    let (_, pos, fourth) = as_closure(&table, "<closure4>");
    assert_eq!(pos, (6, 1));
    assert_eq!(sorted_keys(fourth), vec![text("d")]);
}

#[test]
fn each_function_counts_its_closures_from_one() {
    let f = function("f", vec![], vec![expression_statement(closure_expr(closure((1, 1), "a", vec![])))]);
    let g = function("g", vec![], vec![expression_statement(closure_expr(closure((2, 1), "b", vec![])))]);
    let files = vec![source("n", vec![FirstClassEntity::Function(f), FirstClassEntity::Function(g)])];
    let nst = create_namespace_table(&files);
    for name in ["f", "g"] {
        match nst.get(name) {
            Some(NSTEntry::Fun(_, _, table)) => assert_eq!(sorted_keys(table), vec![text("<closure1>")]),
            _ => panic!("{} is a function", name),
        }
    }
}

#[test]
fn closures_are_found_wherever_an_expression_stands() {
    let in_call = FunctionCall::new((1, 1), text("apply"), vec![closure_expr(closure((2, 1), "a", vec![]))]);
    let in_operation = Expression::Operation(Operation::new(
        closure_expr(closure((3, 1), "b", vec![])),
        closure_expr(closure((4, 1), "c", vec![])),
        OperationType::Eqal,
    ));
    let in_initial_value = VariableDeclaration::new((5, 1), text("v"), text("fn"), Some(closure_expr(closure((6, 1), "d", vec![]))));
    let in_assignment = VariableAffectation::new(
        (7, 1),
        chain(vec![QualifiedExpressionPart::Closure(closure((8, 1), "e", vec![]))]),
        closure_expr(closure((9, 1), "f", vec![])),
    );
    let f = function(
        "f",
        vec![],
        vec![
            Statement::QualifiedExpression(chain(vec![QualifiedExpressionPart::MethodCall(in_call)])),
            Statement::ReturnStatement { expr: Some(in_operation), pos: (1, 1) },
            Statement::Declaration(in_initial_value),
            Statement::Affectation(in_assignment),
        ],
    );
    let table = table_of(f);
    assert_eq!(
        sorted_keys(&table),
        vec![
            text("<closure1>"),
            text("<closure2>"),
            text("<closure3>"),
            text("<closure4>"),
            text("<closure5>"),
            text("<closure6>"),
            text("v"),
        ]
    );
    assert_eq!(as_closure(&table, "<closure1>").1, (2, 1));
    assert_eq!(as_closure(&table, "<closure2>").1, (3, 1));
    assert_eq!(as_closure(&table, "<closure3>").1, (4, 1));
    assert_eq!(as_closure(&table, "<closure4>").1, (6, 1));
    assert_eq!(as_closure(&table, "<closure5>").1, (8, 1));
    assert_eq!(as_closure(&table, "<closure6>").1, (9, 1));
}

#[test]
fn parameters_and_variables_go_to_the_innermost_scope() {
    let inside = closure(
        (3, 1),
        "a",
        vec![Statement::Declaration(VariableDeclaration::new((4, 1), text("local"), text("int"), Some(int_expr(1))))],
    );
    let f = function(
        "f",
        vec![Param::new((1, 1), text("x"), text("int")), Param::new((1, 2), text("y"), text("bool"))],
        vec![
            Statement::Declaration(VariableDeclaration::new((2, 1), text("v"), text("string"), None)),
            expression_statement(closure_expr(inside)),
            Statement::Declaration(VariableDeclaration::new((5, 1), text("w"), text("char"), None)),
        ],
    );
    let table = table_of(f);
    assert_eq!(sorted_keys(&table), vec![text("<closure1>"), text("v"), text("w"), text("x"), text("y")]);
    match table.get("y") {
        Some(FSTEntry::Param(ty, pos)) => {
            assert_eq!(ty, "bool");
            assert_eq!(*pos, (1, 2));
        },
        _ => panic!("y is a parameter"),
    }
    match table.get("v") {
        Some(FSTEntry::Var(ty, pos)) => {
            assert_eq!(ty, "string");
            assert_eq!(*pos, (2, 1));
        },
        _ => panic!("v is a variable"),
    }
    let (_, _, inner) = as_closure(&table, "<closure1>");
    assert_eq!(sorted_keys(inner), vec![text("a"), text("local")]);
    assert!(!table.contains_key("local"));
    assert!(!table.contains_key("a"));
}

#[test]
fn later_declaration_of_a_name_replaces_the_earlier_one() {
    let f = function(
        "f",
        vec![Param::new((1, 1), text("x"), text("int"))],
        vec![Statement::Declaration(VariableDeclaration::new((2, 1), text("x"), text("bool"), None))],
    );
    let table = table_of(f);
    assert_eq!(table.len(), 1);
    match table.get("x") {
        Some(FSTEntry::Var(ty, pos)) => {
            assert_eq!(ty, "bool");
            assert_eq!(*pos, (2, 1));
        },
        _ => panic!("the variable replaced the parameter"),
    }
}

#[test]
fn fields_and_methods_stand_in_the_table_of_their_class_blocks_included() {
    let in_block = Block::new(
        (5, 1),
        vec![],
        vec![
            ClassMember::Field(Field::new((6, 1), vec![], text("hidden"), text("bool"))),
            ClassMember::Method(Function::new((7, 1), vec![], text("helper"), vec![], text("void"), vec![])),
        ],
    );
    let class = Class::new(
        (1, 1),
        vec![],
        text("C"),
        text("Base"),
        vec![],
        vec![
            ClassMember::Field(Field::new((2, 1), vec![], text("count"), text("int"))),
            ClassMember::Method(function("get", vec![Param::new((3, 1), text("i"), text("int"))], vec![])),
            ClassMember::Block(in_block),
        ],
    );
    let free = function("main", vec![], vec![]);
    let files = vec![source("n", vec![FirstClassEntity::Class(class), FirstClassEntity::Function(free)])];
    let nst = create_namespace_table(&files);
    assert_eq!(sorted_keys(&nst), vec![text("C"), text("main")]);
    match nst.get("C") {
        Some(NSTEntry::Class(super_name, _, _, cst)) => {
            assert_eq!(super_name, "Base");
            assert_eq!(sorted_keys(cst), vec![text("count"), text("get"), text("helper"), text("hidden")]);
            match cst.get("count") {
                Some(CSTEntry::Field(ty, pos)) => {
                    assert_eq!(ty, "int");
                    assert_eq!(*pos, (2, 1));
                },
                _ => panic!("count is a field"),
            }
            match cst.get("get") {
                Some(CSTEntry::Method(_, _, fst)) => assert_eq!(sorted_keys(fst), vec![text("i")]),
                _ => panic!("get is a method"),
            }
        },
        _ => panic!("C is a class"),
    }
    match nst.get("main") {
        Some(NSTEntry::Fun(return_type, pos, fst)) => {
            assert_eq!(return_type, "int");
            assert_eq!(*pos, (10, 1));
            assert!(fst.is_empty());
        },
        _ => panic!("main is a function"),
    }
}

fn class_with_super(name: &str, super_name: &str) -> FirstClassEntity {
    FirstClassEntity::Class(Class::new((1, 1), vec![], text(name), text(super_name), vec![], vec![]))
}

#[test]
fn of_two_files_that_declare_one_class_the_later_one_counts() {
    let files = vec![
        source("n", vec![class_with_super("X", "First")]),
        source("n", vec![class_with_super("X", "Second")]),
    ];
    let nst = create_namespace_table(&files);
    assert_eq!(nst.len(), 1);
    assert_eq!(nst.keys(), vec![text("X")]);
    match nst.get("X") {
        Some(NSTEntry::Class(super_name, _, _, _)) => assert_eq!(super_name, "Second"),
        _ => panic!("X is a class"),
    }
    let swapped = vec![
        source("n", vec![class_with_super("X", "Second")]),
        source("n", vec![class_with_super("X", "First")]),
    ];
    match create_namespace_table(&swapped).get("X") {
        Some(NSTEntry::Class(super_name, _, _, _)) => assert_eq!(super_name, "First"),
        _ => panic!("X is a class"),
    }
}

#[test]
fn files_are_grouped_by_namespace_in_the_order_in_which_they_came() {
    let files = vec![
        SourceFile::new(text("1"), text(""), File::new(text("a"), vec![], vec![])),
        SourceFile::new(text("2"), text(""), File::new(text("b"), vec![], vec![])),
        SourceFile::new(text("3"), text(""), File::new(text("a"), vec![], vec![])),
        SourceFile::new(text("4"), text(""), File::new(text("a"), vec![], vec![])),
    ];
    let groups = namespaces_map(files);
    assert_eq!(sorted_keys(&groups), vec![text("a"), text("b")]);
    let paths = |name: &str| -> Vec<String> {
        groups.get(name).unwrap().iter().map(|s| text(s.get_path())).collect()
    };
    assert_eq!(paths("a"), vec![text("1"), text("3"), text("4")]);
    assert_eq!(paths("b"), vec![text("2")]);
    assert!(namespaces_map(vec![]).is_empty());
}

#[test]
fn whole_program_has_a_table_for_each_namespace() {
    let groups = namespaces_map(vec![
        source("a", vec![class_with_super("X", "One")]),
        source("b", vec![class_with_super("X", "Two"), FirstClassEntity::Function(function("f", vec![], vec![]))]),
        source("a", vec![class_with_super("Y", "Three"), class_with_super("X", "Four")]),
    ]);
    let gst = create_symbol_table(groups);
    assert_eq!(sorted_keys(&gst), vec![text("a"), text("b")]);
    let a = gst.get("a").unwrap();
    assert_eq!(sorted_keys(a), vec![text("X"), text("Y")]);
    match a.get("X") {
        Some(NSTEntry::Class(super_name, _, _, _)) => assert_eq!(super_name, "Four"),
        _ => panic!("X is a class"),
    }
    let b = gst.get("b").unwrap();
    assert_eq!(sorted_keys(b), vec![text("X"), text("f")]);
    match b.get("X") {
        Some(NSTEntry::Class(super_name, _, _, _)) => assert_eq!(super_name, "Two"),
        _ => panic!("X is a class"),
    }
    assert!(create_symbol_table(namespaces_map(vec![])).is_empty());
}

#[test]
fn creator_can_be_driven_walk_by_walk() {
    let mut creator = SymbolTableCreator::new(NamespaceSymbolTable::new());
    assert!(!creator.in_closure());
    visit_function(&mut creator, &function("f", vec![], vec![]));
    visit_class(&mut creator, &Class::new((1, 1), vec![], text("C"), text("B"), vec![], vec![]));
    visit_file(&mut creator, &File::new(text("n"), vec![], vec![class_with_super("D", "E")]));
    assert!(!creator.in_closure());
    let nst = creator.into_table();
    assert_eq!(sorted_keys(&nst), vec![text("C"), text("D"), text("f")]);
}

#[test]
fn creator_goes_on_from_the_table_it_is_given() {
    let mut start = NamespaceSymbolTable::new();
    start.insert(text("old"), NSTEntry::Fun(text("void"), (1, 1), FunctionSymbolTable::new()));
    start.insert(text("f"), NSTEntry::Fun(text("void"), (1, 1), FunctionSymbolTable::new()));
    let mut creator = SymbolTableCreator::new(start);
    visit_function(&mut creator, &function("f", vec![], vec![]));
    let nst = creator.into_table();
    assert_eq!(sorted_keys(&nst), vec![text("f"), text("old")]);
    match nst.get("f") {
        Some(NSTEntry::Fun(return_type, _, _)) => assert_eq!(return_type, "int"),
        _ => panic!("f is a function"),
    }
}

#[test]
fn table_insert_get_and_overwrite() {
    let mut table: Table<i32> = Table::new();
    assert!(table.is_empty());
    assert_eq!(table.len(), 0);
    assert_eq!(table.get("a"), None);
    table.insert(text("a"), 1);
    table.insert(text("b"), 2);
    assert_eq!(table.len(), 2);
    assert_eq!(table.get("a"), Some(&1));
    assert_eq!(table.get("b"), Some(&2));
    assert_eq!(table.get("c"), None);
    assert!(table.contains_key("a"));
    assert!(!table.contains_key("c"));
    table.insert(text("a"), 10);
    assert_eq!(table.len(), 2);
    assert_eq!(table.get("a"), Some(&10));
    assert_eq!(table.get("b"), Some(&2));
    assert_eq!(table.keys(), vec![text("a"), text("b")]);
    assert!(!table.is_empty());
}

#[test]
fn table_remove_and_entries() {
    let mut table: Table<i32> = Table::new();
    table.insert(text("a"), 1);
    table.insert(text("b"), 2);
    table.insert(text("c"), 3);
    assert_eq!(table.remove("b"), Some(2));
    assert_eq!(table.remove("b"), None);
    assert_eq!(table.remove("z"), None);
    assert_eq!(table.len(), 2);
    assert!(!table.contains_key("b"));
    assert_eq!(table.get("a"), Some(&1));
    assert_eq!(table.get("c"), Some(&3));
    assert_eq!(table.into_entries(), vec![(text("a"), 1), (text("c"), 3)]);
    let empty: ClassSymbolTable = Table::new();
    assert!(empty.into_entries().is_empty());
}

#[test]
fn ordinals_count_in_decimal() {
    let mut ordinal = Ordinal::new();
    assert_eq!(ordinal.text(), "0");
    assert_eq!(ordinal.closure_name(), "<closure0>");
    ordinal.increment();
    assert_eq!(ordinal.text(), "1");
    assert_eq!(ordinal.closure_name(), "<closure1>");
    for _ in 0..8 {
        ordinal.increment();
    }
    assert_eq!(ordinal.text(), "9");
    let nine = ordinal.clone();
    ordinal.increment();
    assert_eq!(ordinal.text(), "10");
    assert_eq!(ordinal.closure_name(), "<closure10>");
    assert_eq!(nine.text(), "9");
    for _ in 0..89 {
        ordinal.increment();
    }
    assert_eq!(ordinal.text(), "99");
    ordinal.increment();
    assert_eq!(ordinal.text(), "100");
    for _ in 0..899 {
        ordinal.increment();
    }
    assert_eq!(ordinal.text(), "999");
    ordinal.increment();
    assert_eq!(ordinal.text(), "1000");
    for _ in 0..234 {
        ordinal.increment();
    }
    assert_eq!(ordinal.closure_name(), "<closure1234>");
}

#[test]
fn twelve_sibling_closures_are_named_through_the_tens() {
    let body = (0..12).map(|i| expression_statement(closure_expr(closure((i + 1, 1), "a", vec![])))).collect();
    let table = table_of(function("f", vec![], body));
    assert_eq!(table.len(), 12);
    for i in 1..=12 {
        let (_, pos, _) = as_closure(&table, &format!("<closure{}>", i));
        assert_eq!(pos, (i, 1));
    }
}

#[test]
fn creator_handles_each_event_by_a_method_of_its_own() {
    let f = function("f", vec![], vec![]);
    let p = Param::new((1, 1), text("x"), text("int"));
    let d = VariableDeclaration::new((2, 1), text("v"), text("bool"), None);
    let c = closure((3, 1), "a", vec![]);
    let class = Class::new((4, 1), vec![], text("C"), text("B"), vec![], vec![]);
    let field = Field::new((5, 1), vec![], text("count"), text("int"));

    let mut creator = SymbolTableCreator::new(NamespaceSymbolTable::new());
    // outside a function and outside a class nothing is declared
    creator.enter_param(&p);
    creator.enter_variable_declaration(&d);
    creator.leave_closure(&c);
    creator.leave_function(&f);
    creator.enter_field(&field);
    creator.leave_class(&class);

    creator.enter_class(&class);
    creator.enter_field(&field);
    creator.enter_function(&f);
    creator.enter_param(&p);
    assert!(!creator.in_closure());
    creator.enter_closure(&c);
    assert!(creator.in_closure());
    creator.enter_variable_declaration(&d);
    creator.leave_closure(&c);
    assert!(!creator.in_closure());
    creator.leave_function(&f);
    creator.leave_class(&class);

    let nst = creator.into_table();
    assert_eq!(nst.keys(), vec![text("C")]);
    match nst.get("C") {
        Some(NSTEntry::Class(_, _, _, cst)) => {
            assert_eq!(sorted_keys(cst), vec![text("count"), text("f")]);
            match cst.get("f") {
                Some(CSTEntry::Method(_, _, fst)) => {
                    assert_eq!(sorted_keys(fst), vec![text("<closure1>"), text("x")]);
                    let (_, _, inner) = as_closure(fst, "<closure1>");
                    assert_eq!(sorted_keys(inner), vec![text("v")]);
                },
                _ => panic!("f is a method"),
            }
        },
        _ => panic!("C is a class"),
    }
}

#[test]
fn entering_alone_records_nothing() {
    let mut creator = SymbolTableCreator::new(NamespaceSymbolTable::new());
    creator.enter_class(&Class::new((1, 1), vec![], text("C"), text("B"), vec![], vec![]));
    creator.enter_function(&function("f", vec![], vec![]));
    creator.enter_closure(&closure((2, 1), "a", vec![]));
    assert!(creator.in_closure());
    assert!(creator.into_table().is_empty());
}

fn local(pos: (usize, usize), name: &str, ty: &str) -> Statement {
    Statement::Declaration(VariableDeclaration::new(pos, text(name), text(ty), None))
}

#[test]
fn visiting_a_class_records_it_with_its_members() {
    // class C { native int m(int x); }
    let m = Function::new(
        (1, 11),
        vec![Attribute::new((1, 11), text("native"))],
        text("m"),
        vec![Param::new((1, 27), text("x"), text("int"))],
        text("int"),
        vec![],
    );
    let class = Class::new((1, 1), vec![], text("C"), text(""), vec![], vec![ClassMember::Method(m)]);
    let mut creator = SymbolTableCreator::new(NamespaceSymbolTable::new());
    creator.visit_class(&class);
    assert!(!creator.in_closure());
    let nst = creator.into_table();
    assert_eq!(nst.keys(), vec![text("C")]);
    assert!(!nst.contains_key("m"));
    match nst.get("C") {
        Some(NSTEntry::Class(super_name, interfaces, pos, cst)) => {
            assert_eq!(super_name, "");
            assert!(interfaces.is_empty());
            assert_eq!(*pos, (1, 1));
            assert_eq!(cst.keys(), vec![text("m")]);
            match cst.get("m") {
                Some(CSTEntry::Method(return_type, pos, fst)) => {
                    assert_eq!(return_type, "int");
                    assert_eq!(*pos, (1, 11));
                    assert_eq!(fst.keys(), vec![text("x")]);
                    assert!(matches!(fst.get("x"), Some(FSTEntry::Param(ty, (1, 27))) if ty == "int"));
                },
                _ => panic!("m is a method"),
            }
        },
        _ => panic!("C is a class"),
    }
}

#[test]
fn visiting_a_second_class_of_one_name_replaces_the_first() {
    let first = Class::new(
        (1, 1),
        vec![],
        text("X"),
        text("A"),
        vec![],
        vec![ClassMember::Field(Field::new((2, 1), vec![], text("a"), text("int")))],
    );
    let second = Class::new(
        (5, 1),
        vec![],
        text("X"),
        text("B"),
        vec![],
        vec![ClassMember::Field(Field::new((6, 1), vec![], text("b"), text("int")))],
    );
    let mut creator = SymbolTableCreator::new(NamespaceSymbolTable::new());
    creator.visit_class(&first);
    creator.visit_class(&second);
    let nst = creator.into_table();
    assert_eq!(nst.len(), 1);
    match nst.get("X") {
        Some(NSTEntry::Class(super_name, interfaces, pos, cst)) => {
            assert_eq!(super_name, "B");
            assert!(interfaces.is_empty());
            assert_eq!(*pos, (5, 1));
            assert_eq!(cst.keys(), vec![text("b")]);
            assert!(!cst.contains_key("a"));
            assert!(matches!(cst.get("b"), Some(CSTEntry::Field(ty, (6, 1))) if ty == "int"));
        },
        _ => panic!("X is a class"),
    }
}

#[test]
fn visiting_a_function_records_it_and_closes_its_scope() {
    let f = Function::new((3, 1), vec![], text("f"), vec![], text("int"), vec![local((4, 5), "v", "bool")]);
    let g = function("g", vec![], vec![]);
    let mut creator = SymbolTableCreator::new(NamespaceSymbolTable::new());
    creator.visit_function(&f);
    // nothing leaks into the next function
    creator.visit_function(&g);
    let nst = creator.into_table();
    assert_eq!(sorted_keys(&nst), vec![text("f"), text("g")]);
    match nst.get("f") {
        Some(NSTEntry::Fun(return_type, pos, fst)) => {
            assert_eq!(return_type, "int");
            assert_eq!(*pos, (3, 1));
            assert_eq!(fst.keys(), vec![text("v")]);
            assert!(matches!(fst.get("v"), Some(FSTEntry::Var(ty, (4, 5))) if ty == "bool"));
        },
        _ => panic!("f is a function"),
    }
    match nst.get("g") {
        Some(NSTEntry::Fun(_, _, fst)) => assert!(fst.is_empty()),
        _ => panic!("g is a function"),
    }
}

#[test]
fn visiting_a_function_gives_each_sibling_closure_a_table_of_its_own() {
    let c1 = Closure::new(
        (2, 1),
        vec![Param::new((2, 2), text("a"), text("int"))],
        text("int"),
        vec![local((2, 9), "u", "int")],
    );
    let c2 = Closure::new(
        (3, 1),
        vec![Param::new((3, 2), text("b"), text("int"))],
        text("bool"),
        vec![local((3, 9), "v", "int")],
    );
    let f = function(
        "f",
        vec![],
        vec![
            Statement::QualifiedExpression(chain(vec![QualifiedExpressionPart::Closure(c1)])),
            Statement::QualifiedExpression(chain(vec![QualifiedExpressionPart::Closure(c2)])),
        ],
    );
    let mut creator = SymbolTableCreator::new(NamespaceSymbolTable::new());
    creator.visit_function(&f);
    assert!(!creator.in_closure());
    let nst = creator.into_table();
    match nst.get("f") {
        Some(NSTEntry::Fun(_, _, fst)) => {
            assert_eq!(sorted_keys(fst), vec![text("<closure1>"), text("<closure2>")]);
            let (return_type, pos, first) = as_closure(fst, "<closure1>");
            assert_eq!(return_type, "int");
            assert_eq!(pos, (2, 1));
            assert_eq!(sorted_keys(first), vec![text("a"), text("u")]);
            assert!(matches!(first.get("a"), Some(FSTEntry::Param(..))));
            assert!(matches!(first.get("u"), Some(FSTEntry::Var(..))));
            let (return_type, pos, second) = as_closure(fst, "<closure2>");
            assert_eq!(return_type, "bool");
            assert_eq!(pos, (3, 1));
            assert_eq!(sorted_keys(second), vec![text("b"), text("v")]);
        },
        _ => panic!("f is a function"),
    }
}

#[test]
fn visiting_a_closure_records_it_in_the_scope_around_it() {
    let f = function("f", vec![], vec![]);
    let plain = Closure::new(
        (2, 1),
        vec![Param::new((2, 2), text("p"), text("int"))],
        text("int"),
        vec![local((2, 9), "l", "int")],
    );
    let inner = closure((4, 1), "q", vec![]);
    let outer = Closure::new(
        (3, 1),
        vec![Param::new((3, 2), text("p"), text("int"))],
        text("int"),
        vec![expression_statement(closure_expr(inner))],
    );
    let mut creator = SymbolTableCreator::new(NamespaceSymbolTable::new());
    creator.enter_function(&f);
    creator.visit_closure(&plain);
    assert!(!creator.in_closure());
    creator.visit_closure(&outer);
    assert!(!creator.in_closure());
    creator.leave_function(&f);
    let nst = creator.into_table();
    match nst.get("f") {
        Some(NSTEntry::Fun(_, _, fst)) => {
            assert_eq!(sorted_keys(fst), vec![text("<closure1>"), text("<closure2>")]);
            let (_, pos, first) = as_closure(fst, "<closure1>");
            assert_eq!(pos, (2, 1));
            assert_eq!(sorted_keys(first), vec![text("l"), text("p")]);
            let (_, pos, second) = as_closure(fst, "<closure2>");
            assert_eq!(pos, (3, 1));
            assert_eq!(sorted_keys(second), vec![text("<closure3>"), text("p")]);
            let (_, pos, third) = as_closure(second, "<closure3>");
            assert_eq!(pos, (4, 1));
            assert_eq!(sorted_keys(third), vec![text("q")]);
            assert!(!fst.contains_key("q"));
            assert!(!fst.contains_key("p"));
        },
        _ => panic!("f is a function"),
    }
}

#[test]
fn visiting_a_declaration_declares_it_and_walks_its_initial_value() {
    let f = function("f", vec![], vec![]);
    let plain = VariableDeclaration::new((2, 1), text("v"), text("int"), Some(int_expr(1)));
    let with_closure = VariableDeclaration::new(
        (3, 1),
        text("w"),
        text("fn"),
        Some(closure_expr(closure((3, 9), "a", vec![]))),
    );
    let p = Param::new((1, 5), text("x"), text("int"));
    let mut creator = SymbolTableCreator::new(NamespaceSymbolTable::new());
    creator.enter_function(&f);
    creator.visit_param(&p);
    creator.visit_variable_declaration(&plain);
    creator.visit_variable_declaration(&with_closure);
    creator.leave_function(&f);
    match creator.into_table().get("f") {
        Some(NSTEntry::Fun(_, _, fst)) => {
            assert_eq!(sorted_keys(fst), vec![text("<closure1>"), text("v"), text("w"), text("x")]);
            assert!(matches!(fst.get("v"), Some(FSTEntry::Var(ty, (2, 1))) if ty == "int"));
            assert!(matches!(fst.get("x"), Some(FSTEntry::Param(ty, (1, 5))) if ty == "int"));
        },
        _ => panic!("f is a function"),
    }
}

#[test]
fn visiting_a_field_and_a_file() {
    let class = Class::new((1, 1), vec![], text("C"), text("B"), vec![], vec![]);
    let field = Field::new((2, 1), vec![Attribute::new((2, 1), text("static"))], text("count"), text("int"));
    let mut creator = SymbolTableCreator::new(NamespaceSymbolTable::new());
    creator.visit_field(&field);
    creator.enter_class(&class);
    creator.visit_field(&field);
    creator.leave_class(&class);
    creator.visit_file(&File::new(text("n"), vec![], vec![class_with_super("D", "E"), FirstClassEntity::Function(function("g", vec![], vec![]))]));
    let nst = creator.into_table();
    assert_eq!(sorted_keys(&nst), vec![text("C"), text("D"), text("g")]);
    match nst.get("C") {
        Some(NSTEntry::Class(_, _, _, cst)) => {
            assert_eq!(cst.keys(), vec![text("count")]);
            assert!(matches!(cst.get("count"), Some(CSTEntry::Field(ty, (2, 1))) if ty == "int"));
        },
        _ => panic!("C is a class"),
    }
}
