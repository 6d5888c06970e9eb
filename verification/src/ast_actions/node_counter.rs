use vstd::prelude::*;
use crate::ast::{
    AstNodeType, AttributeView, BlockView, BooleanView, CharView, ClassMemberView, ClassView,
    ClosureView, ExpressionView, FieldView, File, FileView, FirstClassEntityView, FunctionCallView,
    FunctionView, IdentifierView, IntegerView, OperationView, ParamView,
    QualifiedExpressionPartView, QualifiedExpressionView, StatementView, StringLitteralView,
    VariableAffectationView, VariableDeclarationView,
};
use crate::ast_actions::ast_visitor::{
    walked_attribute,
    walked_attributes,
    walked_block,
    walked_boolean,
    walked_char,
    walked_class,
    walked_class_member,
    walked_closure,
    walked_entities,
    walked_entity,
    walked_expression,
    walked_expressions,
    walked_field,
    walked_file,
    walked_function,
    walked_function_call,
    walked_identifier,
    walked_integer,
    walked_members,
    walked_operation,
    walked_optional_expression,
    walked_param,
    walked_params,
    walked_parts,
    walked_qualified_expression,
    walked_qualified_expression_part,
    walked_statement,
    walked_statements,
    walked_string_litteral,
    walked_variable_affectation,
    walked_variable_declaration,
    visit_file,
    AstVisitor,
    Event,
    EventView,
    Node,
    NodeView,
};

verus! {

/// One where the two shapes are the same, zero where they differ.
pub open spec fn one_if(shape: AstNodeType, wanted: AstNodeType) -> nat {
    if shape == wanted {
        1
    } else {
        0
    }
}

/// How many nodes of shape `shape` a file holds, itself included.
pub open spec fn count_in_file(n: FileView, shape: AstNodeType) -> nat
    decreases n,
{
    one_if(AstNodeType::File, shape) + count_in_entities(n.entities, shape)
}

/// How many nodes of shape `shape` a function holds, itself included.
pub open spec fn count_in_function(n: FunctionView, shape: AstNodeType) -> nat
    decreases n,
{
    one_if(AstNodeType::Function, shape)
        + count_in_attributes(n.attributes, shape)
        + count_in_params(n.params, shape)
        + count_in_statements(n.statements, shape)
}

/// How many nodes of shape `shape` a call holds, itself included.
pub open spec fn count_in_function_call(n: FunctionCallView, shape: AstNodeType) -> nat
    decreases n,
{
    one_if(AstNodeType::FunctionCall, shape) + count_in_expressions(n.param_exprs, shape)
}

/// How many nodes of shape `shape` an operation holds, itself included.
pub open spec fn count_in_operation(n: OperationView, shape: AstNodeType) -> nat
    decreases n,
{
    one_if(AstNodeType::Operation, shape)
        + count_in_expression(*n.lval, shape)
        + count_in_expression(*n.rval, shape)
}

/// How many nodes of shape `shape` an expression holds, itself included.
pub open spec fn count_in_expression(n: ExpressionView, shape: AstNodeType) -> nat
    decreases n,
{
    one_if(AstNodeType::Expression, shape) + match n {
        ExpressionView::Operation(o) => count_in_operation(o, shape),
        ExpressionView::Expr(q) => count_in_qualified_expression(q, shape),
    }
}

/// How many nodes of shape `shape` a chain holds, itself included.
pub open spec fn count_in_qualified_expression(n: QualifiedExpressionView, shape: AstNodeType) -> nat
    decreases n,
{
    one_if(AstNodeType::QualifiedExpression, shape) + count_in_parts(n.parts, shape)
}

/// How many nodes of shape `shape` one part of a chain holds, itself included.
pub open spec fn count_in_qualified_expression_part(n: QualifiedExpressionPartView, shape: AstNodeType) -> nat
    decreases n,
{
    one_if(AstNodeType::QualifiedExpressionPart, shape) + match n {
        QualifiedExpressionPartView::MethodCall(f) => count_in_function_call(f, shape),
        QualifiedExpressionPartView::Identifier(i) => count_in_identifier(i, shape),
        QualifiedExpressionPartView::Integer(i) => count_in_integer(i, shape),
        QualifiedExpressionPartView::StringLitteral(s) => count_in_string_litteral(s, shape),
        QualifiedExpressionPartView::Char(c) => count_in_char(c, shape),
        QualifiedExpressionPartView::Boolean(b) => count_in_boolean(b, shape),
        QualifiedExpressionPartView::Null => 0,
        QualifiedExpressionPartView::Closure(c) => count_in_closure(c, shape),
        QualifiedExpressionPartView::ParenExpr(e) => count_in_expression(e, shape),
    }
}

/// How many nodes of shape `shape` a statement holds, itself included.
pub open spec fn count_in_statement(n: StatementView, shape: AstNodeType) -> nat
    decreases n,
{
    one_if(AstNodeType::Statement, shape) + match n {
        StatementView::ReturnStatement { expr, pos: _ } => count_in_optional_expression(expr, shape),
        StatementView::Declaration(d) => count_in_variable_declaration(d, shape),
        StatementView::Affectation(a) => count_in_variable_affectation(a, shape),
        StatementView::QualifiedExpression(q) => count_in_qualified_expression(q, shape),
    }
}

/// How many nodes of shape `shape` a closure holds, itself included.
pub open spec fn count_in_closure(n: ClosureView, shape: AstNodeType) -> nat
    decreases n,
{
    one_if(AstNodeType::Closure, shape)
        + count_in_params(n.params, shape)
        + count_in_statements(n.statements, shape)
}

/// How many nodes of shape `shape` a declaration holds, itself included.
pub open spec fn count_in_variable_declaration(n: VariableDeclarationView, shape: AstNodeType) -> nat
    decreases n,
{
    one_if(AstNodeType::VariableDeclaration, shape) + count_in_optional_expression(n.value, shape)
}

/// How many nodes of shape `shape` an assignment holds, itself included.
pub open spec fn count_in_variable_affectation(n: VariableAffectationView, shape: AstNodeType) -> nat
    decreases n,
{
    one_if(AstNodeType::VariableAffectation, shape)
        + count_in_qualified_expression(n.receiver, shape)
        + count_in_expression(n.value, shape)
}

/// How many nodes of shape `shape` a class holds, itself included.
pub open spec fn count_in_class(n: ClassView, shape: AstNodeType) -> nat
    decreases n,
{
    one_if(AstNodeType::Class, shape)
        + count_in_attributes(n.attributes, shape)
        + count_in_members(n.members, shape)
}

/// How many nodes of shape `shape` a member holds, itself included.
pub open spec fn count_in_class_member(n: ClassMemberView, shape: AstNodeType) -> nat
    decreases n,
{
    one_if(AstNodeType::ClassMember, shape) + match n {
        ClassMemberView::Field(f) => count_in_field(f, shape),
        ClassMemberView::Method(m) => count_in_function(m, shape),
        ClassMemberView::Block(b) => count_in_block(b, shape),
    }
}

/// How many nodes of shape `shape` a block holds, itself included.
pub open spec fn count_in_block(n: BlockView, shape: AstNodeType) -> nat
    decreases n,
{
    one_if(AstNodeType::Block, shape)
        + count_in_attributes(n.attributes, shape)
        + count_in_members(n.members, shape)
}

/// How many nodes of shape `shape` a field holds, itself included.
pub open spec fn count_in_field(n: FieldView, shape: AstNodeType) -> nat
    decreases n,
{
    one_if(AstNodeType::Field, shape) + count_in_attributes(n.attributes, shape)
}

/// How many nodes of shape `shape` an attribute holds: itself, or none.
pub open spec fn count_in_attribute(n: AttributeView, shape: AstNodeType) -> nat {
    one_if(AstNodeType::Attribute, shape)
}

/// How many nodes of shape `shape` a parameter holds: itself, or none.
pub open spec fn count_in_param(n: ParamView, shape: AstNodeType) -> nat {
    one_if(AstNodeType::Param, shape)
}

/// How many nodes of shape `shape` an identifier holds: itself, or none.
pub open spec fn count_in_identifier(n: IdentifierView, shape: AstNodeType) -> nat {
    one_if(AstNodeType::Identifier, shape)
}

/// How many nodes of shape `shape` an integer literal holds: itself, or none.
pub open spec fn count_in_integer(n: IntegerView, shape: AstNodeType) -> nat {
    one_if(AstNodeType::Integer, shape)
}

/// How many nodes of shape `shape` a string literal holds: itself, or none.
pub open spec fn count_in_string_litteral(n: StringLitteralView, shape: AstNodeType) -> nat {
    one_if(AstNodeType::StringLitteral, shape)
}

/// How many nodes of shape `shape` a boolean literal holds: itself, or none.
pub open spec fn count_in_boolean(n: BooleanView, shape: AstNodeType) -> nat {
    one_if(AstNodeType::Boolean, shape)
}

/// How many nodes of shape `shape` a character literal holds: itself, or none.
pub open spec fn count_in_char(n: CharView, shape: AstNodeType) -> nat {
    one_if(AstNodeType::Char, shape)
}

/// How many nodes of shape `shape` a declaration of a file holds.
pub open spec fn count_in_entity(n: FirstClassEntityView, shape: AstNodeType) -> nat
    decreases n,
{
    match n {
        FirstClassEntityView::Function(f) => count_in_function(f, shape),
        FirstClassEntityView::Class(c) => count_in_class(c, shape),
    }
}

/// How many nodes of shape `shape` an expression that may be absent holds.
pub open spec fn count_in_optional_expression(n: Option<ExpressionView>, shape: AstNodeType) -> nat
    decreases n,
{
    match n {
        Some(e) => count_in_expression(e, shape),
        None => 0,
    }
}

/// How many nodes of shape `shape` the declarations of a file hold.
pub open spec fn count_in_entities(nodes: Seq<FirstClassEntityView>, shape: AstNodeType) -> nat
    decreases nodes,
{
    if nodes.len() == 0 {
        0
    } else {
        count_in_entities(nodes.drop_last(), shape) + count_in_entity(nodes.last(), shape)
    }
}

/// How many nodes of shape `shape` a list of attributes hold.
pub open spec fn count_in_attributes(nodes: Seq<AttributeView>, shape: AstNodeType) -> nat
    decreases nodes,
{
    if nodes.len() == 0 {
        0
    } else {
        count_in_attributes(nodes.drop_last(), shape) + count_in_attribute(nodes.last(), shape)
    }
}

/// How many nodes of shape `shape` a list of parameters hold.
pub open spec fn count_in_params(nodes: Seq<ParamView>, shape: AstNodeType) -> nat
    decreases nodes,
{
    if nodes.len() == 0 {
        0
    } else {
        count_in_params(nodes.drop_last(), shape) + count_in_param(nodes.last(), shape)
    }
}

/// How many nodes of shape `shape` a list of expressions hold.
pub open spec fn count_in_expressions(nodes: Seq<ExpressionView>, shape: AstNodeType) -> nat
    decreases nodes,
{
    if nodes.len() == 0 {
        0
    } else {
        count_in_expressions(nodes.drop_last(), shape) + count_in_expression(nodes.last(), shape)
    }
}

/// How many nodes of shape `shape` the parts of a chain hold.
pub open spec fn count_in_parts(nodes: Seq<QualifiedExpressionPartView>, shape: AstNodeType) -> nat
    decreases nodes,
{
    if nodes.len() == 0 {
        0
    } else {
        count_in_parts(nodes.drop_last(), shape) + count_in_qualified_expression_part(nodes.last(), shape)
    }
}

/// How many nodes of shape `shape` the statements of a body hold.
pub open spec fn count_in_statements(nodes: Seq<StatementView>, shape: AstNodeType) -> nat
    decreases nodes,
{
    if nodes.len() == 0 {
        0
    } else {
        count_in_statements(nodes.drop_last(), shape) + count_in_statement(nodes.last(), shape)
    }
}

/// How many nodes of shape `shape` the members of a class or block hold.
pub open spec fn count_in_members(nodes: Seq<ClassMemberView>, shape: AstNodeType) -> nat
    decreases nodes,
{
    if nodes.len() == 0 {
        0
    } else {
        count_in_members(nodes.drop_last(), shape) + count_in_class_member(nodes.last(), shape)
    }
}

/// On the states that `among` holds of, which no event leads out of,
/// `measure` goes up by one with every event that enters a node of shape
/// `shape`, and is left alone by every other event.
pub open spec fn counts_shape<V: AstVisitor>(
    among: spec_fn(V::V) -> bool,
    measure: spec_fn(V::V) -> int,
    shape: AstNodeType,
) -> bool {
    forall|state: V::V, event: EventView|
        among(state) ==> {
            &&& among(#[trigger] V::step(state, event))
            &&& measure(V::step(state, event)) == measure(state) + (match event {
                EventView::Enter(node) => one_if(node.shape(), shape) as int,
                EventView::Leave(_) => 0,
            })
        }
}

/// A pass that counts the nodes of one shape counts, in a file, each of them once.
pub proof fn lemma_file_counted<V: AstVisitor>(
    among: spec_fn(V::V) -> bool,
    measure: spec_fn(V::V) -> int,
    shape: AstNodeType,
    state: V::V,
    n: FileView,
)
    requires
        counts_shape::<V>(among, measure, shape),
        among(state),
    ensures
        among(walked_file::<V>(state, n)),
        measure(walked_file::<V>(state, n)) == measure(state) + count_in_file(n, shape),
    decreases n,
{
    let entered = V::step(state, EventView::Enter(NodeView::File(n)));
    assert(measure(entered) == measure(state) + one_if(AstNodeType::File, shape));
    lemma_entities_counted::<V>(among, measure, shape, entered, n.entities);
    let after_0 = walked_entities::<V>(entered, n.entities);
    assert(measure(V::step(after_0, EventView::Leave(NodeView::File(n)))) == measure(after_0));
}

/// A pass that counts the nodes of one shape counts, in a function, each of them once.
pub proof fn lemma_function_counted<V: AstVisitor>(
    among: spec_fn(V::V) -> bool,
    measure: spec_fn(V::V) -> int,
    shape: AstNodeType,
    state: V::V,
    n: FunctionView,
)
    requires
        counts_shape::<V>(among, measure, shape),
        among(state),
    ensures
        among(walked_function::<V>(state, n)),
        measure(walked_function::<V>(state, n)) == measure(state) + count_in_function(n, shape),
    decreases n,
{
    let entered = V::step(state, EventView::Enter(NodeView::Function(n)));
    assert(measure(entered) == measure(state) + one_if(AstNodeType::Function, shape));
    lemma_attributes_counted::<V>(among, measure, shape, entered, n.attributes);
    let after_0 = walked_attributes::<V>(entered, n.attributes);
    lemma_params_counted::<V>(among, measure, shape, after_0, n.params);
    let after_1 = walked_params::<V>(after_0, n.params);
    lemma_statements_counted::<V>(among, measure, shape, after_1, n.statements);
    let after_2 = walked_statements::<V>(after_1, n.statements);
    assert(measure(V::step(after_2, EventView::Leave(NodeView::Function(n)))) == measure(after_2));
}

/// A pass that counts the nodes of one shape counts, in a call, each of them once.
pub proof fn lemma_function_call_counted<V: AstVisitor>(
    among: spec_fn(V::V) -> bool,
    measure: spec_fn(V::V) -> int,
    shape: AstNodeType,
    state: V::V,
    n: FunctionCallView,
)
    requires
        counts_shape::<V>(among, measure, shape),
        among(state),
    ensures
        among(walked_function_call::<V>(state, n)),
        measure(walked_function_call::<V>(state, n)) == measure(state)
            + count_in_function_call(n, shape),
    decreases n,
{
    let entered = V::step(state, EventView::Enter(NodeView::FunctionCall(n)));
    assert(measure(entered) == measure(state) + one_if(AstNodeType::FunctionCall, shape));
    lemma_expressions_counted::<V>(among, measure, shape, entered, n.param_exprs);
    let after_0 = walked_expressions::<V>(entered, n.param_exprs);
    assert(measure(V::step(after_0, EventView::Leave(NodeView::FunctionCall(n))))
        == measure(after_0));
}

/// A pass that counts the nodes of one shape counts, in an operation, each of them once.
pub proof fn lemma_operation_counted<V: AstVisitor>(
    among: spec_fn(V::V) -> bool,
    measure: spec_fn(V::V) -> int,
    shape: AstNodeType,
    state: V::V,
    n: OperationView,
)
    requires
        counts_shape::<V>(among, measure, shape),
        among(state),
    ensures
        among(walked_operation::<V>(state, n)),
        measure(walked_operation::<V>(state, n)) == measure(state) + count_in_operation(n, shape),
    decreases n,
{
    let entered = V::step(state, EventView::Enter(NodeView::Operation(n)));
    assert(measure(entered) == measure(state) + one_if(AstNodeType::Operation, shape));
    lemma_expression_counted::<V>(among, measure, shape, entered, *n.lval);
    let after_0 = walked_expression::<V>(entered, *n.lval);
    lemma_expression_counted::<V>(among, measure, shape, after_0, *n.rval);
    let after_1 = walked_expression::<V>(after_0, *n.rval);
    assert(measure(V::step(after_1, EventView::Leave(NodeView::Operation(n)))) == measure(after_1));
}

/// A pass that counts the nodes of one shape counts, in an expression, each of them once.
pub proof fn lemma_expression_counted<V: AstVisitor>(
    among: spec_fn(V::V) -> bool,
    measure: spec_fn(V::V) -> int,
    shape: AstNodeType,
    state: V::V,
    n: ExpressionView,
)
    requires
        counts_shape::<V>(among, measure, shape),
        among(state),
    ensures
        among(walked_expression::<V>(state, n)),
        measure(walked_expression::<V>(state, n)) == measure(state) + count_in_expression(n, shape),
    decreases n,
{
    let entered = V::step(state, EventView::Enter(NodeView::Expression(n)));
    assert(measure(entered) == measure(state) + one_if(AstNodeType::Expression, shape));
    match n {
        ExpressionView::Operation(o) => {
            lemma_operation_counted::<V>(among, measure, shape, entered, o);
            let inside = walked_operation::<V>(entered, o);
            assert(measure(V::step(inside, EventView::Leave(NodeView::Expression(n))))
                == measure(inside));
        },
        ExpressionView::Expr(q) => {
            lemma_qualified_expression_counted::<V>(among, measure, shape, entered, q);
            let inside = walked_qualified_expression::<V>(entered, q);
            assert(measure(V::step(inside, EventView::Leave(NodeView::Expression(n))))
                == measure(inside));
        },
    }
}

/// A pass that counts the nodes of one shape counts, in a chain, each of them once.
pub proof fn lemma_qualified_expression_counted<V: AstVisitor>(
    among: spec_fn(V::V) -> bool,
    measure: spec_fn(V::V) -> int,
    shape: AstNodeType,
    state: V::V,
    n: QualifiedExpressionView,
)
    requires
        counts_shape::<V>(among, measure, shape),
        among(state),
    ensures
        among(walked_qualified_expression::<V>(state, n)),
        measure(walked_qualified_expression::<V>(state, n)) == measure(state)
            + count_in_qualified_expression(n, shape),
    decreases n,
{
    let entered = V::step(state, EventView::Enter(NodeView::QualifiedExpression(n)));
    assert(measure(entered) == measure(state) + one_if(AstNodeType::QualifiedExpression, shape));
    lemma_parts_counted::<V>(among, measure, shape, entered, n.parts);
    let after_0 = walked_parts::<V>(entered, n.parts);
    assert(measure(V::step(after_0, EventView::Leave(NodeView::QualifiedExpression(n))))
        == measure(after_0));
}

/// A pass that counts the nodes of one shape counts, in one part of a chain, each of them once.
pub proof fn lemma_qualified_expression_part_counted<V: AstVisitor>(
    among: spec_fn(V::V) -> bool,
    measure: spec_fn(V::V) -> int,
    shape: AstNodeType,
    state: V::V,
    n: QualifiedExpressionPartView,
)
    requires
        counts_shape::<V>(among, measure, shape),
        among(state),
    ensures
        among(walked_qualified_expression_part::<V>(state, n)),
        measure(walked_qualified_expression_part::<V>(state, n)) == measure(state)
            + count_in_qualified_expression_part(n, shape),
    decreases n,
{
    let entered = V::step(state, EventView::Enter(NodeView::QualifiedExpressionPart(n)));
    assert(measure(entered) == measure(state) + one_if(AstNodeType::QualifiedExpressionPart, shape));
    match n {
        QualifiedExpressionPartView::MethodCall(f) => {
            lemma_function_call_counted::<V>(among, measure, shape, entered, f);
            let inside = walked_function_call::<V>(entered, f);
            assert(measure(V::step(inside, EventView::Leave(NodeView::QualifiedExpressionPart(n))))
                == measure(inside));
        },
        QualifiedExpressionPartView::Identifier(i) => {
            lemma_identifier_counted::<V>(among, measure, shape, entered, i);
            let inside = walked_identifier::<V>(entered, i);
            assert(measure(V::step(inside, EventView::Leave(NodeView::QualifiedExpressionPart(n))))
                == measure(inside));
        },
        QualifiedExpressionPartView::Integer(i) => {
            lemma_integer_counted::<V>(among, measure, shape, entered, i);
            let inside = walked_integer::<V>(entered, i);
            assert(measure(V::step(inside, EventView::Leave(NodeView::QualifiedExpressionPart(n))))
                == measure(inside));
        },
        QualifiedExpressionPartView::StringLitteral(s) => {
            lemma_string_litteral_counted::<V>(among, measure, shape, entered, s);
            let inside = walked_string_litteral::<V>(entered, s);
            assert(measure(V::step(inside, EventView::Leave(NodeView::QualifiedExpressionPart(n))))
                == measure(inside));
        },
        QualifiedExpressionPartView::Char(c) => {
            lemma_char_counted::<V>(among, measure, shape, entered, c);
            let inside = walked_char::<V>(entered, c);
            assert(measure(V::step(inside, EventView::Leave(NodeView::QualifiedExpressionPart(n))))
                == measure(inside));
        },
        QualifiedExpressionPartView::Boolean(b) => {
            lemma_boolean_counted::<V>(among, measure, shape, entered, b);
            let inside = walked_boolean::<V>(entered, b);
            assert(measure(V::step(inside, EventView::Leave(NodeView::QualifiedExpressionPart(n))))
                == measure(inside));
        },
        QualifiedExpressionPartView::Null => {
            assert(measure(V::step(entered, EventView::Leave(NodeView::QualifiedExpressionPart(n))))
                == measure(entered));
        },
        QualifiedExpressionPartView::Closure(c) => {
            lemma_closure_counted::<V>(among, measure, shape, entered, c);
            let inside = walked_closure::<V>(entered, c);
            assert(measure(V::step(inside, EventView::Leave(NodeView::QualifiedExpressionPart(n))))
                == measure(inside));
        },
        QualifiedExpressionPartView::ParenExpr(e) => {
            lemma_expression_counted::<V>(among, measure, shape, entered, e);
            let inside = walked_expression::<V>(entered, e);
            assert(measure(V::step(inside, EventView::Leave(NodeView::QualifiedExpressionPart(n))))
                == measure(inside));
        },
    }
}

/// A pass that counts the nodes of one shape counts, in a statement, each of them once.
pub proof fn lemma_statement_counted<V: AstVisitor>(
    among: spec_fn(V::V) -> bool,
    measure: spec_fn(V::V) -> int,
    shape: AstNodeType,
    state: V::V,
    n: StatementView,
)
    requires
        counts_shape::<V>(among, measure, shape),
        among(state),
    ensures
        among(walked_statement::<V>(state, n)),
        measure(walked_statement::<V>(state, n)) == measure(state) + count_in_statement(n, shape),
    decreases n,
{
    let entered = V::step(state, EventView::Enter(NodeView::Statement(n)));
    assert(measure(entered) == measure(state) + one_if(AstNodeType::Statement, shape));
    match n {
        StatementView::ReturnStatement { expr, pos: _ } => {
            lemma_optional_expression_counted::<V>(among, measure, shape, entered, expr);
            let inside = walked_optional_expression::<V>(entered, expr);
            assert(measure(V::step(inside, EventView::Leave(NodeView::Statement(n))))
                == measure(inside));
        },
        StatementView::Declaration(d) => {
            lemma_variable_declaration_counted::<V>(among, measure, shape, entered, d);
            let inside = walked_variable_declaration::<V>(entered, d);
            assert(measure(V::step(inside, EventView::Leave(NodeView::Statement(n))))
                == measure(inside));
        },
        StatementView::Affectation(a) => {
            lemma_variable_affectation_counted::<V>(among, measure, shape, entered, a);
            let inside = walked_variable_affectation::<V>(entered, a);
            assert(measure(V::step(inside, EventView::Leave(NodeView::Statement(n))))
                == measure(inside));
        },
        StatementView::QualifiedExpression(q) => {
            lemma_qualified_expression_counted::<V>(among, measure, shape, entered, q);
            let inside = walked_qualified_expression::<V>(entered, q);
            assert(measure(V::step(inside, EventView::Leave(NodeView::Statement(n))))
                == measure(inside));
        },
    }
}

/// A pass that counts the nodes of one shape counts, in a closure, each of them once.
pub proof fn lemma_closure_counted<V: AstVisitor>(
    among: spec_fn(V::V) -> bool,
    measure: spec_fn(V::V) -> int,
    shape: AstNodeType,
    state: V::V,
    n: ClosureView,
)
    requires
        counts_shape::<V>(among, measure, shape),
        among(state),
    ensures
        among(walked_closure::<V>(state, n)),
        measure(walked_closure::<V>(state, n)) == measure(state) + count_in_closure(n, shape),
    decreases n,
{
    let entered = V::step(state, EventView::Enter(NodeView::Closure(n)));
    assert(measure(entered) == measure(state) + one_if(AstNodeType::Closure, shape));
    lemma_params_counted::<V>(among, measure, shape, entered, n.params);
    let after_0 = walked_params::<V>(entered, n.params);
    lemma_statements_counted::<V>(among, measure, shape, after_0, n.statements);
    let after_1 = walked_statements::<V>(after_0, n.statements);
    assert(measure(V::step(after_1, EventView::Leave(NodeView::Closure(n)))) == measure(after_1));
}

/// A pass that counts the nodes of one shape counts, in a declaration, each of them once.
pub proof fn lemma_variable_declaration_counted<V: AstVisitor>(
    among: spec_fn(V::V) -> bool,
    measure: spec_fn(V::V) -> int,
    shape: AstNodeType,
    state: V::V,
    n: VariableDeclarationView,
)
    requires
        counts_shape::<V>(among, measure, shape),
        among(state),
    ensures
        among(walked_variable_declaration::<V>(state, n)),
        measure(walked_variable_declaration::<V>(state, n)) == measure(state)
            + count_in_variable_declaration(n, shape),
    decreases n,
{
    let entered = V::step(state, EventView::Enter(NodeView::VariableDeclaration(n)));
    assert(measure(entered) == measure(state) + one_if(AstNodeType::VariableDeclaration, shape));
    lemma_optional_expression_counted::<V>(among, measure, shape, entered, n.value);
    let after_0 = walked_optional_expression::<V>(entered, n.value);
    assert(measure(V::step(after_0, EventView::Leave(NodeView::VariableDeclaration(n))))
        == measure(after_0));
}

/// A pass that counts the nodes of one shape counts, in an assignment, each of them once.
pub proof fn lemma_variable_affectation_counted<V: AstVisitor>(
    among: spec_fn(V::V) -> bool,
    measure: spec_fn(V::V) -> int,
    shape: AstNodeType,
    state: V::V,
    n: VariableAffectationView,
)
    requires
        counts_shape::<V>(among, measure, shape),
        among(state),
    ensures
        among(walked_variable_affectation::<V>(state, n)),
        measure(walked_variable_affectation::<V>(state, n)) == measure(state)
            + count_in_variable_affectation(n, shape),
    decreases n,
{
    let entered = V::step(state, EventView::Enter(NodeView::VariableAffectation(n)));
    assert(measure(entered) == measure(state) + one_if(AstNodeType::VariableAffectation, shape));
    lemma_qualified_expression_counted::<V>(among, measure, shape, entered, n.receiver);
    let after_0 = walked_qualified_expression::<V>(entered, n.receiver);
    lemma_expression_counted::<V>(among, measure, shape, after_0, n.value);
    let after_1 = walked_expression::<V>(after_0, n.value);
    assert(measure(V::step(after_1, EventView::Leave(NodeView::VariableAffectation(n))))
        == measure(after_1));
}

/// A pass that counts the nodes of one shape counts, in a class, each of them once.
pub proof fn lemma_class_counted<V: AstVisitor>(
    among: spec_fn(V::V) -> bool,
    measure: spec_fn(V::V) -> int,
    shape: AstNodeType,
    state: V::V,
    n: ClassView,
)
    requires
        counts_shape::<V>(among, measure, shape),
        among(state),
    ensures
        among(walked_class::<V>(state, n)),
        measure(walked_class::<V>(state, n)) == measure(state) + count_in_class(n, shape),
    decreases n,
{
    let entered = V::step(state, EventView::Enter(NodeView::Class(n)));
    assert(measure(entered) == measure(state) + one_if(AstNodeType::Class, shape));
    lemma_attributes_counted::<V>(among, measure, shape, entered, n.attributes);
    let after_0 = walked_attributes::<V>(entered, n.attributes);
    lemma_members_counted::<V>(among, measure, shape, after_0, n.members);
    let after_1 = walked_members::<V>(after_0, n.members);
    assert(measure(V::step(after_1, EventView::Leave(NodeView::Class(n)))) == measure(after_1));
}

/// A pass that counts the nodes of one shape counts, in a member, each of them once.
pub proof fn lemma_class_member_counted<V: AstVisitor>(
    among: spec_fn(V::V) -> bool,
    measure: spec_fn(V::V) -> int,
    shape: AstNodeType,
    state: V::V,
    n: ClassMemberView,
)
    requires
        counts_shape::<V>(among, measure, shape),
        among(state),
    ensures
        among(walked_class_member::<V>(state, n)),
        measure(walked_class_member::<V>(state, n)) == measure(state)
            + count_in_class_member(n, shape),
    decreases n,
{
    let entered = V::step(state, EventView::Enter(NodeView::ClassMember(n)));
    assert(measure(entered) == measure(state) + one_if(AstNodeType::ClassMember, shape));
    match n {
        ClassMemberView::Field(f) => {
            lemma_field_counted::<V>(among, measure, shape, entered, f);
            let inside = walked_field::<V>(entered, f);
            assert(measure(V::step(inside, EventView::Leave(NodeView::ClassMember(n))))
                == measure(inside));
        },
        ClassMemberView::Method(m) => {
            lemma_function_counted::<V>(among, measure, shape, entered, m);
            let inside = walked_function::<V>(entered, m);
            assert(measure(V::step(inside, EventView::Leave(NodeView::ClassMember(n))))
                == measure(inside));
        },
        ClassMemberView::Block(b) => {
            lemma_block_counted::<V>(among, measure, shape, entered, b);
            let inside = walked_block::<V>(entered, b);
            assert(measure(V::step(inside, EventView::Leave(NodeView::ClassMember(n))))
                == measure(inside));
        },
    }
}

/// A pass that counts the nodes of one shape counts, in a block, each of them once.
pub proof fn lemma_block_counted<V: AstVisitor>(
    among: spec_fn(V::V) -> bool,
    measure: spec_fn(V::V) -> int,
    shape: AstNodeType,
    state: V::V,
    n: BlockView,
)
    requires
        counts_shape::<V>(among, measure, shape),
        among(state),
    ensures
        among(walked_block::<V>(state, n)),
        measure(walked_block::<V>(state, n)) == measure(state) + count_in_block(n, shape),
    decreases n,
{
    let entered = V::step(state, EventView::Enter(NodeView::Block(n)));
    assert(measure(entered) == measure(state) + one_if(AstNodeType::Block, shape));
    lemma_attributes_counted::<V>(among, measure, shape, entered, n.attributes);
    let after_0 = walked_attributes::<V>(entered, n.attributes);
    lemma_members_counted::<V>(among, measure, shape, after_0, n.members);
    let after_1 = walked_members::<V>(after_0, n.members);
    assert(measure(V::step(after_1, EventView::Leave(NodeView::Block(n)))) == measure(after_1));
}

/// A pass that counts the nodes of one shape counts, in a field, each of them once.
pub proof fn lemma_field_counted<V: AstVisitor>(
    among: spec_fn(V::V) -> bool,
    measure: spec_fn(V::V) -> int,
    shape: AstNodeType,
    state: V::V,
    n: FieldView,
)
    requires
        counts_shape::<V>(among, measure, shape),
        among(state),
    ensures
        among(walked_field::<V>(state, n)),
        measure(walked_field::<V>(state, n)) == measure(state) + count_in_field(n, shape),
    decreases n,
{
    let entered = V::step(state, EventView::Enter(NodeView::Field(n)));
    assert(measure(entered) == measure(state) + one_if(AstNodeType::Field, shape));
    lemma_attributes_counted::<V>(among, measure, shape, entered, n.attributes);
    let after_0 = walked_attributes::<V>(entered, n.attributes);
    assert(measure(V::step(after_0, EventView::Leave(NodeView::Field(n)))) == measure(after_0));
}

/// A pass that counts the nodes of one shape counts, in an attribute, each of them once.
pub proof fn lemma_attribute_counted<V: AstVisitor>(
    among: spec_fn(V::V) -> bool,
    measure: spec_fn(V::V) -> int,
    shape: AstNodeType,
    state: V::V,
    n: AttributeView,
)
    requires
        counts_shape::<V>(among, measure, shape),
        among(state),
    ensures
        among(walked_attribute::<V>(state, n)),
        measure(walked_attribute::<V>(state, n)) == measure(state) + count_in_attribute(n, shape),
    decreases n,
{
    let entered = V::step(state, EventView::Enter(NodeView::Attribute(n)));
    assert(measure(entered) == measure(state) + one_if(AstNodeType::Attribute, shape));
    assert(measure(V::step(entered, EventView::Leave(NodeView::Attribute(n)))) == measure(entered));
}

/// A pass that counts the nodes of one shape counts, in a parameter, each of them once.
pub proof fn lemma_param_counted<V: AstVisitor>(
    among: spec_fn(V::V) -> bool,
    measure: spec_fn(V::V) -> int,
    shape: AstNodeType,
    state: V::V,
    n: ParamView,
)
    requires
        counts_shape::<V>(among, measure, shape),
        among(state),
    ensures
        among(walked_param::<V>(state, n)),
        measure(walked_param::<V>(state, n)) == measure(state) + count_in_param(n, shape),
    decreases n,
{
    let entered = V::step(state, EventView::Enter(NodeView::Param(n)));
    assert(measure(entered) == measure(state) + one_if(AstNodeType::Param, shape));
    assert(measure(V::step(entered, EventView::Leave(NodeView::Param(n)))) == measure(entered));
}

/// A pass that counts the nodes of one shape counts, in an identifier, each of them once.
pub proof fn lemma_identifier_counted<V: AstVisitor>(
    among: spec_fn(V::V) -> bool,
    measure: spec_fn(V::V) -> int,
    shape: AstNodeType,
    state: V::V,
    n: IdentifierView,
)
    requires
        counts_shape::<V>(among, measure, shape),
        among(state),
    ensures
        among(walked_identifier::<V>(state, n)),
        measure(walked_identifier::<V>(state, n)) == measure(state) + count_in_identifier(n, shape),
    decreases n,
{
    let entered = V::step(state, EventView::Enter(NodeView::Identifier(n)));
    assert(measure(entered) == measure(state) + one_if(AstNodeType::Identifier, shape));
    assert(measure(V::step(entered, EventView::Leave(NodeView::Identifier(n))))
        == measure(entered));
}

/// A pass that counts the nodes of one shape counts, in an integer literal, each of them once.
pub proof fn lemma_integer_counted<V: AstVisitor>(
    among: spec_fn(V::V) -> bool,
    measure: spec_fn(V::V) -> int,
    shape: AstNodeType,
    state: V::V,
    n: IntegerView,
)
    requires
        counts_shape::<V>(among, measure, shape),
        among(state),
    ensures
        among(walked_integer::<V>(state, n)),
        measure(walked_integer::<V>(state, n)) == measure(state) + count_in_integer(n, shape),
    decreases n,
{
    let entered = V::step(state, EventView::Enter(NodeView::Integer(n)));
    assert(measure(entered) == measure(state) + one_if(AstNodeType::Integer, shape));
    assert(measure(V::step(entered, EventView::Leave(NodeView::Integer(n)))) == measure(entered));
}

/// A pass that counts the nodes of one shape counts, in a string literal, each of them once.
pub proof fn lemma_string_litteral_counted<V: AstVisitor>(
    among: spec_fn(V::V) -> bool,
    measure: spec_fn(V::V) -> int,
    shape: AstNodeType,
    state: V::V,
    n: StringLitteralView,
)
    requires
        counts_shape::<V>(among, measure, shape),
        among(state),
    ensures
        among(walked_string_litteral::<V>(state, n)),
        measure(walked_string_litteral::<V>(state, n)) == measure(state)
            + count_in_string_litteral(n, shape),
    decreases n,
{
    let entered = V::step(state, EventView::Enter(NodeView::StringLitteral(n)));
    assert(measure(entered) == measure(state) + one_if(AstNodeType::StringLitteral, shape));
    assert(measure(V::step(entered, EventView::Leave(NodeView::StringLitteral(n))))
        == measure(entered));
}

/// A pass that counts the nodes of one shape counts, in a boolean literal, each of them once.
pub proof fn lemma_boolean_counted<V: AstVisitor>(
    among: spec_fn(V::V) -> bool,
    measure: spec_fn(V::V) -> int,
    shape: AstNodeType,
    state: V::V,
    n: BooleanView,
)
    requires
        counts_shape::<V>(among, measure, shape),
        among(state),
    ensures
        among(walked_boolean::<V>(state, n)),
        measure(walked_boolean::<V>(state, n)) == measure(state) + count_in_boolean(n, shape),
    decreases n,
{
    let entered = V::step(state, EventView::Enter(NodeView::Boolean(n)));
    assert(measure(entered) == measure(state) + one_if(AstNodeType::Boolean, shape));
    assert(measure(V::step(entered, EventView::Leave(NodeView::Boolean(n)))) == measure(entered));
}

/// A pass that counts the nodes of one shape counts, in a character literal, each of them once.
pub proof fn lemma_char_counted<V: AstVisitor>(
    among: spec_fn(V::V) -> bool,
    measure: spec_fn(V::V) -> int,
    shape: AstNodeType,
    state: V::V,
    n: CharView,
)
    requires
        counts_shape::<V>(among, measure, shape),
        among(state),
    ensures
        among(walked_char::<V>(state, n)),
        measure(walked_char::<V>(state, n)) == measure(state) + count_in_char(n, shape),
    decreases n,
{
    let entered = V::step(state, EventView::Enter(NodeView::Char(n)));
    assert(measure(entered) == measure(state) + one_if(AstNodeType::Char, shape));
    assert(measure(V::step(entered, EventView::Leave(NodeView::Char(n)))) == measure(entered));
}

/// A pass that counts the nodes of one shape counts, in a declaration of a file, each of them once.
pub proof fn lemma_entity_counted<V: AstVisitor>(
    among: spec_fn(V::V) -> bool,
    measure: spec_fn(V::V) -> int,
    shape: AstNodeType,
    state: V::V,
    n: FirstClassEntityView,
)
    requires
        counts_shape::<V>(among, measure, shape),
        among(state),
    ensures
        among(walked_entity::<V>(state, n)),
        measure(walked_entity::<V>(state, n)) == measure(state) + count_in_entity(n, shape),
    decreases n,
{
    match n {
        FirstClassEntityView::Function(f) => {
            lemma_function_counted::<V>(among, measure, shape, state, f);
        },
        FirstClassEntityView::Class(c) => {
            lemma_class_counted::<V>(among, measure, shape, state, c);
        },
    }
}

/// A pass that counts the nodes of one shape counts, in an expression that may be absent, each of them once.
pub proof fn lemma_optional_expression_counted<V: AstVisitor>(
    among: spec_fn(V::V) -> bool,
    measure: spec_fn(V::V) -> int,
    shape: AstNodeType,
    state: V::V,
    n: Option<ExpressionView>,
)
    requires
        counts_shape::<V>(among, measure, shape),
        among(state),
    ensures
        among(walked_optional_expression::<V>(state, n)),
        measure(walked_optional_expression::<V>(state, n)) == measure(state)
            + count_in_optional_expression(n, shape),
    decreases n,
{
    match n {
        Some(e) => {
            lemma_expression_counted::<V>(among, measure, shape, state, e);
        },
        None => {},
    }
}

/// A pass that counts the nodes of one shape counts, in the declarations of a file, each of them once.
pub proof fn lemma_entities_counted<V: AstVisitor>(
    among: spec_fn(V::V) -> bool,
    measure: spec_fn(V::V) -> int,
    shape: AstNodeType,
    state: V::V,
    nodes: Seq<FirstClassEntityView>,
)
    requires
        counts_shape::<V>(among, measure, shape),
        among(state),
    ensures
        among(walked_entities::<V>(state, nodes)),
        measure(walked_entities::<V>(state, nodes)) == measure(state)
            + count_in_entities(nodes, shape),
    decreases nodes,
{
    if nodes.len() != 0 {
        lemma_entities_counted::<V>(among, measure, shape, state, nodes.drop_last());
        lemma_entity_counted::<V>(
            among,
            measure,
            shape,
            walked_entities::<V>(state, nodes.drop_last()),
            nodes.last(),
        );
    }
}

/// A pass that counts the nodes of one shape counts, in a list of attributes, each of them once.
pub proof fn lemma_attributes_counted<V: AstVisitor>(
    among: spec_fn(V::V) -> bool,
    measure: spec_fn(V::V) -> int,
    shape: AstNodeType,
    state: V::V,
    nodes: Seq<AttributeView>,
)
    requires
        counts_shape::<V>(among, measure, shape),
        among(state),
    ensures
        among(walked_attributes::<V>(state, nodes)),
        measure(walked_attributes::<V>(state, nodes)) == measure(state)
            + count_in_attributes(nodes, shape),
    decreases nodes,
{
    if nodes.len() != 0 {
        lemma_attributes_counted::<V>(among, measure, shape, state, nodes.drop_last());
        lemma_attribute_counted::<V>(
            among,
            measure,
            shape,
            walked_attributes::<V>(state, nodes.drop_last()),
            nodes.last(),
        );
    }
}

/// A pass that counts the nodes of one shape counts, in a list of parameters, each of them once.
pub proof fn lemma_params_counted<V: AstVisitor>(
    among: spec_fn(V::V) -> bool,
    measure: spec_fn(V::V) -> int,
    shape: AstNodeType,
    state: V::V,
    nodes: Seq<ParamView>,
)
    requires
        counts_shape::<V>(among, measure, shape),
        among(state),
    ensures
        among(walked_params::<V>(state, nodes)),
        measure(walked_params::<V>(state, nodes)) == measure(state) + count_in_params(nodes, shape),
    decreases nodes,
{
    if nodes.len() != 0 {
        lemma_params_counted::<V>(among, measure, shape, state, nodes.drop_last());
        lemma_param_counted::<V>(
            among,
            measure,
            shape,
            walked_params::<V>(state, nodes.drop_last()),
            nodes.last(),
        );
    }
}

/// A pass that counts the nodes of one shape counts, in a list of expressions, each of them once.
pub proof fn lemma_expressions_counted<V: AstVisitor>(
    among: spec_fn(V::V) -> bool,
    measure: spec_fn(V::V) -> int,
    shape: AstNodeType,
    state: V::V,
    nodes: Seq<ExpressionView>,
)
    requires
        counts_shape::<V>(among, measure, shape),
        among(state),
    ensures
        among(walked_expressions::<V>(state, nodes)),
        measure(walked_expressions::<V>(state, nodes)) == measure(state)
            + count_in_expressions(nodes, shape),
    decreases nodes,
{
    if nodes.len() != 0 {
        lemma_expressions_counted::<V>(among, measure, shape, state, nodes.drop_last());
        lemma_expression_counted::<V>(
            among,
            measure,
            shape,
            walked_expressions::<V>(state, nodes.drop_last()),
            nodes.last(),
        );
    }
}

/// A pass that counts the nodes of one shape counts, in the parts of a chain, each of them once.
pub proof fn lemma_parts_counted<V: AstVisitor>(
    among: spec_fn(V::V) -> bool,
    measure: spec_fn(V::V) -> int,
    shape: AstNodeType,
    state: V::V,
    nodes: Seq<QualifiedExpressionPartView>,
)
    requires
        counts_shape::<V>(among, measure, shape),
        among(state),
    ensures
        among(walked_parts::<V>(state, nodes)),
        measure(walked_parts::<V>(state, nodes)) == measure(state) + count_in_parts(nodes, shape),
    decreases nodes,
{
    if nodes.len() != 0 {
        lemma_parts_counted::<V>(among, measure, shape, state, nodes.drop_last());
        lemma_qualified_expression_part_counted::<V>(
            among,
            measure,
            shape,
            walked_parts::<V>(state, nodes.drop_last()),
            nodes.last(),
        );
    }
}

/// A pass that counts the nodes of one shape counts, in the statements of a body, each of them once.
pub proof fn lemma_statements_counted<V: AstVisitor>(
    among: spec_fn(V::V) -> bool,
    measure: spec_fn(V::V) -> int,
    shape: AstNodeType,
    state: V::V,
    nodes: Seq<StatementView>,
)
    requires
        counts_shape::<V>(among, measure, shape),
        among(state),
    ensures
        among(walked_statements::<V>(state, nodes)),
        measure(walked_statements::<V>(state, nodes)) == measure(state)
            + count_in_statements(nodes, shape),
    decreases nodes,
{
    if nodes.len() != 0 {
        lemma_statements_counted::<V>(among, measure, shape, state, nodes.drop_last());
        lemma_statement_counted::<V>(
            among,
            measure,
            shape,
            walked_statements::<V>(state, nodes.drop_last()),
            nodes.last(),
        );
    }
}

/// A pass that counts the nodes of one shape counts, in the members of a class or block, each of them once.
pub proof fn lemma_members_counted<V: AstVisitor>(
    among: spec_fn(V::V) -> bool,
    measure: spec_fn(V::V) -> int,
    shape: AstNodeType,
    state: V::V,
    nodes: Seq<ClassMemberView>,
)
    requires
        counts_shape::<V>(among, measure, shape),
        among(state),
    ensures
        among(walked_members::<V>(state, nodes)),
        measure(walked_members::<V>(state, nodes)) == measure(state)
            + count_in_members(nodes, shape),
    decreases nodes,
{
    if nodes.len() != 0 {
        lemma_members_counted::<V>(among, measure, shape, state, nodes.drop_last());
        lemma_class_member_counted::<V>(
            among,
            measure,
            shape,
            walked_members::<V>(state, nodes.drop_last()),
            nodes.last(),
        );
    }
}

/// Model of a [`NodeCounter`]: the shape it counts and how many nodes of that
/// shape it has been handed.
pub struct NodeCounterView {
    pub shape: AstNodeType,
    pub count: nat,
}

/// A pass that counts the nodes of one shape.
pub struct NodeCounter {
    shape: AstNodeType,
    count: Option<usize>,
    total: Ghost<nat>,
}

impl View for NodeCounter {
    type V = NodeCounterView;

    closed spec fn view(&self) -> NodeCounterView {
        NodeCounterView { shape: self.shape, count: self.total@ }
    }
}

impl NodeCounter {
    /// The machine count is the true count as long as that fits.
    #[verifier::type_invariant]
    spec fn fits(self) -> bool {
        match self.count {
            Some(c) => c == self.total@,
            None => self.total@ > usize::MAX,
        }
    }

    /// A counter of the nodes of shape `shape`, at zero.
    pub fn new(shape: AstNodeType) -> (counter: Self)
        ensures
            counter@ == (NodeCounterView { shape, count: 0 }),
    {
        NodeCounter { shape, count: Some(0), total: Ghost(0) }
    }

    /// The count, or `None` where it is more than a machine word holds.
    pub fn get_count(&self) -> (count: Option<usize>)
        ensures
            count matches Some(c) ==> c == self@.count,
            count is None <==> self@.count > usize::MAX,
    {
        proof {
            use_type_invariant(self);
        }
        self.count
    }
}

/// The shape of a node.
pub fn shape_of(node: &Node<'_>) -> (shape: AstNodeType)
    ensures
        shape == node@.shape(),
{
    match node {
        Node::File(_) => AstNodeType::File,
        Node::Attribute(_) => AstNodeType::Attribute,
        Node::Function(_) => AstNodeType::Function,
        Node::FunctionCall(_) => AstNodeType::FunctionCall,
        Node::Param(_) => AstNodeType::Param,
        Node::Operation(_) => AstNodeType::Operation,
        Node::Expression(_) => AstNodeType::Expression,
        Node::QualifiedExpression(_) => AstNodeType::QualifiedExpression,
        Node::QualifiedExpressionPart(_) => AstNodeType::QualifiedExpressionPart,
        Node::Statement(_) => AstNodeType::Statement,
        Node::Closure(_) => AstNodeType::Closure,
        Node::VariableDeclaration(_) => AstNodeType::VariableDeclaration,
        Node::VariableAffectation(_) => AstNodeType::VariableAffectation,
        Node::Class(_) => AstNodeType::Class,
        Node::ClassMember(_) => AstNodeType::ClassMember,
        Node::Block(_) => AstNodeType::Block,
        Node::Field(_) => AstNodeType::Field,
        Node::Identifier(_) => AstNodeType::Identifier,
        Node::Integer(_) => AstNodeType::Integer,
        Node::StringLitteral(_) => AstNodeType::StringLitteral,
        Node::Boolean(_) => AstNodeType::Boolean,
        Node::Char(_) => AstNodeType::Char,
    }
}

impl AstVisitor for NodeCounter {
    open spec fn step(state: NodeCounterView, event: EventView) -> NodeCounterView {
        match event {
            EventView::Enter(node) => NodeCounterView {
                count: state.count + one_if(node.shape(), state.shape),
                ..state
            },
            EventView::Leave(_) => state,
        }
    }

    fn visit(&mut self, event: Event<'_>) {
        proof {
            use_type_invariant(&*self);
        }
        match event {
            Event::Enter(node) => {
                if shape_of(&node) == self.shape {
                    let count = match self.count {
                        Some(c) => c.checked_add(1),
                        None => None,
                    };
                    *self = NodeCounter { shape: self.shape, count, total: Ghost(self.total@ + 1) };
                }
            },
            Event::Leave(_) => {},
        }
    }
}

/// How many nodes of shape `shape` the file holds, or `None` where that is
/// more than a machine word holds.
pub fn count_nodes(file: &File, shape: AstNodeType) -> (count: Option<usize>)
    ensures
        count matches Some(c) ==> c == count_in_file(file@, shape),
        count is None <==> count_in_file(file@, shape) > usize::MAX,
{
    let mut counter = NodeCounter::new(shape);
    visit_file(&mut counter, file);
    proof {
        let among = |s: NodeCounterView| s.shape == shape;
        let measure = |s: NodeCounterView| s.count as int;
        assert(counts_shape::<NodeCounter>(among, measure, shape));
        lemma_file_counted::<NodeCounter>(
            among,
            measure,
            shape,
            NodeCounterView { shape, count: 0 },
            file@,
        );
    }
    counter.get_count()
}

} // verus!
