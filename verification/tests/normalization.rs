use lang_frontend::ast::{
    Attribute, Block, Class, ClassMember, Field, File, FirstClassEntity, Function, Statement,
};
use lang_frontend::ast_actions::ast_fold::AstFold;
use lang_frontend::ast_actions::modifiers::block_expander;
use lang_frontend::ast_actions::modifiers::block_expander::{
    add_attributes, append_attributes, expand_block, expand_blocks, expand_members,
};
use lang_frontend::ast_actions::modifiers::block_reducer;
use lang_frontend::ast_actions::modifiers::block_reducer::{reduce_block, reduce_blocks};
use lang_frontend::source_file::SourceFile;

fn text(s: &str) -> String {
    String::from(s)
}

fn attr(name: &str) -> Attribute {
    Attribute::new((1, 1), text(name))
}

fn attrs(names: &[&str]) -> Vec<Attribute> {
    names.iter().map(|n| attr(n)).collect()
}

fn field(name: &str, own: &[&str]) -> ClassMember {
    ClassMember::Field(Field::new((2, 2), attrs(own), text(name), text("int")))
}

fn method(name: &str, own: &[&str]) -> ClassMember {
    ClassMember::Method(Function::new(
        (3, 3),
        attrs(own),
        text(name),
        vec![],
        text("void"),
        vec![Statement::ReturnStatement { expr: None, pos: (3, 9) }],
    ))
}

fn block(own: &[&str], members: Vec<ClassMember>) -> ClassMember {
    ClassMember::Block(Block::new((4, 4), attrs(own), members))
}

fn class(members: Vec<ClassMember>) -> Class {
    Class::new((1, 1), attrs(&["public"]), text("C"), text("Object"), vec![text("I")], members)
}

fn names(list: &Vec<Attribute>) -> Vec<String> {
    list.iter().map(|a| text(a.get_name())).collect()
}

/// Each member as its kind, its name and the names of its attributes.
fn describe(members: &Vec<ClassMember>) -> Vec<String> {
    members
        .iter()
        .map(|m| match m {
            ClassMember::Field(f) => format!("field {} {:?}", f.get_name(), names(f.attributes())),
            ClassMember::Method(f) => format!("method {} {:?}", f.get_name(), names(f.attributes())),
            ClassMember::Block(b) => format!("block {:?}", names(b.attributes())),
        })
        .collect()
}

fn source(classes: Vec<Class>) -> SourceFile {
    let entities = classes.into_iter().map(FirstClassEntity::Class).collect();
    SourceFile::new(text("a.lang"), text("code"), File::new(text("n"), vec![], entities))
}

fn members_of(s: &SourceFile, index: usize) -> Vec<String> {
    match &s.ast().get_entities()[index] {
        FirstClassEntity::Class(c) => describe(c.members()),
        FirstClassEntity::Function(_) => panic!("a class stands at that index"),
    }
}

#[test]
fn flat_class_is_unchanged_however_often_it_is_normalised() {
    let mut c = class(vec![field("a", &["static"]), method("m", &[]), field("b", &[])]);
    let before = format!("{:?}", c);
    let mut reducer = block_expander::BlockReducer::new();
    reducer.visit_class(&mut c);
    let once = format!("{:?}", c);
    reducer.visit_class(&mut c);
    let twice = format!("{:?}", c);
    assert_eq!(before, once);
    assert_eq!(once, twice);
}

#[test]
fn normalising_twice_is_normalising_once() {
    let mut c = class(vec![
        block(&["native"], vec![field("x", &[]), method("m", &["final"])]),
        field("a", &[]),
    ]);
    let mut reducer = block_expander::BlockReducer::new();
    reducer.visit_class(&mut c);
    let once = format!("{:?}", c);
    reducer.visit_class(&mut c);
    assert_eq!(once, format!("{:?}", c));
}

#[test]
fn attributes_go_own_first_then_inner_block_then_outer_block() {
    let inner = block(&["A"], vec![field("deep", &["own"])]);
    let outer = block(&["B"], vec![inner]);
    let mut c = class(vec![outer]);
    block_expander::BlockReducer::new().visit_class(&mut c);
    assert_eq!(describe(c.members()), vec![text("field deep [\"own\", \"A\", \"B\"]")]);
}

#[test]
fn members_outside_blocks_come_first_and_keep_their_order() {
    let mut c = class(vec![
        field("a", &[]),
        block(&["native"], vec![method("in_first", &[]), field("in_second", &["static"])]),
        method("b", &["final"]),
        block(&["abstract"], vec![field("in_third", &[])]),
        field("c", &[]),
    ]);
    block_expander::BlockReducer::new().visit_class(&mut c);
    assert_eq!(
        describe(c.members()),
        vec![
            text("field a []"),
            text("method b [\"final\"]"),
            text("field c []"),
            text("method in_first [\"native\"]"),
            text("field in_second [\"static\", \"native\"]"),
            text("field in_third [\"abstract\"]"),
        ]
    );
    assert_eq!(c.get_name(), "C");
    assert_eq!(c.get_super_name(), "Object");
    assert_eq!(c.attributes().len(), 1);
    assert_eq!(c.implemented_interfaces().len(), 1);
}

#[test]
fn nested_blocks_flatten_depth_first() {
    let deepest = block(&["c"], vec![field("z", &[])]);
    let middle = block(&["b"], vec![field("y", &[]), deepest, method("w", &["own"])]);
    let top = Block::new((1, 1), attrs(&["a", "a2"]), vec![field("x", &[]), middle]);
    let mut top = top;
    let flat = expand_block(&mut top);
    assert_eq!(
        describe(&flat),
        vec![
            text("field x [\"a\", \"a2\"]"),
            text("field y [\"b\", \"a\", \"a2\"]"),
            text("field z [\"c\", \"b\", \"a\", \"a2\"]"),
            text("method w [\"own\", \"b\", \"a\", \"a2\"]"),
        ]
    );
    assert_eq!(top.members().len(), 0);
    assert_eq!(top.attributes().len(), 2);
}

#[test]
fn duplicate_attributes_are_kept() {
    let mut b = Block::new((1, 1), attrs(&["native"]), vec![field("x", &["native"])]);
    let flat = expand_block(&mut b);
    assert_eq!(describe(&flat), vec![text("field x [\"native\", \"native\"]")]);
}

#[test]
fn empty_block_expands_to_nothing() {
    let mut b = Block::new((1, 1), attrs(&["native"]), vec![]);
    assert!(expand_block(&mut b).is_empty());
    let mut c = class(vec![block(&["x"], vec![]), field("a", &[])]);
    block_expander::BlockReducer::new().visit_class(&mut c);
    assert_eq!(describe(c.members()), vec![text("field a []")]);
}

#[test]
fn reduce_block_gives_what_expand_block_gives() {
    let make = || {
        Block::new(
            (1, 1),
            attrs(&["a"]),
            vec![field("x", &["o"]), block(&["b"], vec![method("m", &[])])],
        )
    };
    let mut in_place = make();
    let expanded = expand_block(&mut in_place);
    let reduced = reduce_block(&make());
    assert_eq!(describe(&expanded), describe(&reduced));
    assert_eq!(
        describe(&reduced),
        vec![text("field x [\"o\", \"a\"]"), text("method m [\"b\", \"a\"]")]
    );
}

#[test]
fn expand_members_appends_the_given_attributes() {
    let flat = expand_members(vec![field("x", &[]), method("m", &["k"])], &attrs(&["p", "q"]));
    assert_eq!(
        describe(&flat),
        vec![text("field x [\"p\", \"q\"]"), text("method m [\"k\", \"p\", \"q\"]")]
    );
}

#[test]
fn append_and_add_attributes() {
    let mut target = attrs(&["a"]);
    append_attributes(&mut target, &attrs(&["b", "c"]));
    assert_eq!(names(&target), vec![text("a"), text("b"), text("c")]);
    let mut member = field("x", &["own"]);
    add_attributes(&mut member, &attrs(&["more"]));
    assert_eq!(describe(&vec![member]), vec![text("field x [\"own\", \"more\"]")]);
    let mut nested = block(&["b"], vec![]);
    add_attributes(&mut nested, &attrs(&["more"]));
    assert_eq!(describe(&vec![nested]), vec![text("block [\"b\", \"more\"]")]);
}

#[test]
fn expand_blocks_normalises_every_class_of_the_file() {
    let first = class(vec![block(&["native"], vec![field("x", &[])])]);
    let second = class(vec![field("a", &[]), block(&["final"], vec![method("m", &[])])]);
    let mut s = source(vec![first, second]);
    expand_blocks(&mut s);
    assert_eq!(members_of(&s, 0), vec![text("field x [\"native\"]")]);
    assert_eq!(members_of(&s, 1), vec![text("field a []"), text("method m [\"final\"]")]);
    assert_eq!(s.get_path(), "a.lang");
    assert_eq!(s.get_code(), "code");
    assert_eq!(s.ast().get_namespace(), "n");
}

#[test]
fn functions_of_a_file_are_left_alone() {
    let function = Function::new((9, 9), attrs(&["native"]), text("f"), vec![], text("void"), vec![]);
    let file = File::new(
        text("n"),
        vec![text("m")],
        vec![
            FirstClassEntity::Function(function),
            FirstClassEntity::Class(class(vec![block(&["b"], vec![field("x", &[])])])),
        ],
    );
    let mut s = SourceFile::new(text("p"), text("c"), file);
    expand_blocks(&mut s);
    match &s.ast().get_entities()[0] {
        FirstClassEntity::Function(f) => {
            assert_eq!(f.get_name(), "f");
            assert_eq!(f.attributes().len(), 1);
        },
        _ => panic!("the function stays first"),
    }
    assert_eq!(members_of(&s, 1), vec![text("field x [\"b\"]")]);
    assert_eq!(s.ast().get_imports().len(), 1);
}

#[test]
fn reduce_blocks_rebuilds_what_expand_blocks_changes_in_place() {
    let make = || {
        source(vec![
            class(vec![
                field("a", &[]),
                block(&["outer"], vec![block(&["inner"], vec![field("x", &["own"])]), method("m", &[])]),
            ]),
        ])
    };
    let mut in_place = make();
    expand_blocks(&mut in_place);
    let kept = make();
    let before = format!("{:?}", kept);
    let rebuilt = reduce_blocks(&kept);
    assert_eq!(format!("{:?}", kept), before);
    assert_eq!(format!("{:?}", in_place), format!("{:?}", rebuilt));
    assert_eq!(
        members_of(&rebuilt, 0),
        vec![
            text("field a []"),
            text("field x [\"own\", \"inner\", \"outer\"]"),
            text("method m [\"outer\"]"),
        ]
    );
}

#[test]
fn fold_gives_a_node_back_unchanged_where_it_is_not_overridden() {
    let mut folder = block_reducer::BlockReducer::new();
    let f = Field::new((1, 2), attrs(&["a"]), text("x"), text("int"));
    let before = format!("{:?}", f);
    assert_eq!(format!("{:?}", folder.fold_field(f)), before);
    let a = folder.fold_attribute(attr("native"));
    assert_eq!(a.get_name(), "native");
    let nested = Block::new((1, 1), attrs(&["a"]), vec![field("x", &[])]);
    let before = format!("{:?}", nested);
    assert_eq!(format!("{:?}", folder.fold_block(nested)), before);
}

#[test]
fn fold_class_removes_the_blocks() {
    let mut folder = block_reducer::BlockReducer::new();
    let folded = folder.fold_class(class(vec![block(&["b"], vec![field("x", &[])]), field("a", &[])]));
    assert_eq!(describe(folded.members()), vec![text("field a []"), text("field x [\"b\"]")]);
    let file = File::new(text("n"), vec![], vec![FirstClassEntity::Class(class(vec![block(&["b"], vec![field("x", &[])])]))]);
    let folded = folder.fold_file(file);
    match &folded.get_entities()[0] {
        FirstClassEntity::Class(c) => assert_eq!(describe(c.members()), vec![text("field x [\"b\"]")]),
        _ => panic!("the class stays"),
    }
}
