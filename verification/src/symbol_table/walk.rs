use vstd::prelude::*;
use crate::ast::{
    AttributeView, BlockView, ClassMemberView, ClassView, ClosureView, ExpressionView, FieldView,
    FileView, FirstClassEntityView, FunctionCallView, FunctionView, OperationView, ParamView,
    QualifiedExpressionPartView, QualifiedExpressionView, StatementView, VariableAffectationView,
    VariableDeclarationView,
};
use crate::ast_actions::ast_visitor::{
    walked_attributes,
    walked_block,
    walked_class,
    walked_class_member,
    walked_closure,
    walked_entities,
    walked_entity,
    walked_expression,
    walked_expressions,
    walked_field,
    walked_file,
    walked_function,
    walked_function_call,
    walked_members,
    walked_operation,
    walked_optional_expression,
    walked_param,
    walked_params,
    walked_parts,
    walked_qualified_expression,
    walked_qualified_expression_part,
    walked_statement,
    walked_statements,
    walked_variable_affectation,
    walked_variable_declaration,
    EventView,
    NodeView,
};
use crate::symbol_table::creator::{SymbolTableCreator, SymbolTableCreatorView};
use crate::symbol_table::scope::{
    class_entry, class_table, class_table_after_member, class_table_after_members, function_entry,
    function_table, method_entry, namespace_after_entities, namespace_after_entity,
    namespace_after_file, scope_after_closure, scope_after_expression, scope_after_expressions,
    scope_after_function_call, scope_after_operation, scope_after_optional_expression,
    scope_after_param, scope_after_params, scope_after_parts, scope_after_qualified_expression,
    scope_after_qualified_expression_part, scope_after_statement, scope_after_statements,
    scope_after_variable_affectation, scope_after_variable_declaration, Scope,
};
use crate::symbol_table::{CstEntryView, CstView, FstEntryView};

verus! {

/// Exchanging the innermost scope: the exchanged scope is what is then found,
/// a second exchange undoes the first, and putting back what was there changes
/// nothing.
pub proof fn lemma_with_scope(state: SymbolTableCreatorView, scope: Scope)
    requires
        state.fst is Some,
    ensures
        state.with_scope(scope).fst is Some,
        state.with_scope(scope).scope() == scope,
        state.with_scope(scope).closures.len() == state.closures.len(),
        state.with_scope(state.scope()) == state,
        forall|other: Scope| #[trigger]
            state.with_scope(scope).with_scope(other) == state.with_scope(other),
{
    assert(state.with_scope(state.scope()) =~= state);
    assert forall|other: Scope| #[trigger]
        state.with_scope(scope).with_scope(other) == state.with_scope(other) by {
        assert(state.with_scope(scope).with_scope(other) =~= state.with_scope(other));
    }
}

/// Declaring a name is exchanging the innermost scope for itself with the name
/// declared.
pub proof fn lemma_declare(state: SymbolTableCreatorView, name: Seq<char>, entry: FstEntryView)
    requires
        state.fst is Some,
    ensures
        state.declare(name, entry) == state.with_scope(state.scope().declare(name, entry)),
{
    assert(state.declare(name, entry) =~= state.with_scope(state.scope().declare(name, entry)));
}

/// Attributes leave the creator as it is.
pub proof fn lemma_attributes_walked(state: SymbolTableCreatorView, nodes: Seq<AttributeView>)
    ensures
        walked_attributes::<SymbolTableCreator>(state, nodes) == state,
    decreases nodes.len(),
{
    if nodes.len() != 0 {
        lemma_attributes_walked(state, nodes.drop_last());
    }
}

/// A parameter is declared in the innermost scope.
pub proof fn lemma_param_walked(state: SymbolTableCreatorView, n: ParamView)
    requires
        state.fst is Some,
    ensures
        walked_param::<SymbolTableCreator>(state, n) == state.with_scope(
            scope_after_param(state.scope(), n),
        ),
{
    lemma_declare(state, n.name, FstEntryView::Param(n.ty, n.pos));
}

/// Parameters are declared in the innermost scope, in order.
pub proof fn lemma_params_walked(state: SymbolTableCreatorView, nodes: Seq<ParamView>)
    requires
        state.fst is Some,
    ensures
        walked_params::<SymbolTableCreator>(state, nodes) == state.with_scope(
            scope_after_params(state.scope(), nodes),
        ),
    decreases nodes.len(),
{
    if nodes.len() == 0 {
        lemma_with_scope(state, state.scope());
    } else {
        let front = scope_after_params(state.scope(), nodes.drop_last());
        lemma_params_walked(state, nodes.drop_last());
        lemma_with_scope(state, front);
        lemma_param_walked(state.with_scope(front), nodes.last());
    }
}

/// Walking a statement changes the innermost scope as the statement says, and
/// nothing else.
pub proof fn lemma_statement_walked(state: SymbolTableCreatorView, n: StatementView)
    requires
        state.fst is Some,
    ensures
        walked_statement::<SymbolTableCreator>(state, n) == state.with_scope(
            scope_after_statement(state.scope(), n),
        ),
    decreases n,
{
    match n {
        StatementView::ReturnStatement { expr, pos: _ } => {
            lemma_optional_expression_walked(state, expr);
        },
        StatementView::Declaration(d) => {
            lemma_variable_declaration_walked(state, d);
        },
        StatementView::Affectation(a) => {
            lemma_variable_affectation_walked(state, a);
        },
        StatementView::QualifiedExpression(q) => {
            lemma_qualified_expression_walked(state, q);
        },
    }
}

/// Walking statements changes the innermost scope as the statements say, in
/// order, and nothing else.
pub proof fn lemma_statements_walked(state: SymbolTableCreatorView, nodes: Seq<StatementView>)
    requires
        state.fst is Some,
    ensures
        walked_statements::<SymbolTableCreator>(state, nodes) == state.with_scope(
            scope_after_statements(state.scope(), nodes),
        ),
    decreases nodes,
{
    if nodes.len() == 0 {
        lemma_with_scope(state, state.scope());
    } else {
        let front = scope_after_statements(state.scope(), nodes.drop_last());
        lemma_statements_walked(state, nodes.drop_last());
        lemma_with_scope(state, front);
        lemma_statement_walked(state.with_scope(front), nodes.last());
    }
}

/// Walking an expression that may be absent changes the innermost scope as the
/// expression says, and nothing else.
pub proof fn lemma_optional_expression_walked(
    state: SymbolTableCreatorView,
    n: Option<ExpressionView>,
)
    requires
        state.fst is Some,
    ensures
        walked_optional_expression::<SymbolTableCreator>(state, n) == state.with_scope(
            scope_after_optional_expression(state.scope(), n),
        ),
    decreases n,
{
    match n {
        Some(e) => {
            lemma_expression_walked(state, e);
        },
        None => {
            lemma_with_scope(state, state.scope());
        },
    }
}

/// Walking an expression changes the innermost scope as the expression says,
/// and nothing else.
pub proof fn lemma_expression_walked(state: SymbolTableCreatorView, n: ExpressionView)
    requires
        state.fst is Some,
    ensures
        walked_expression::<SymbolTableCreator>(state, n) == state.with_scope(
            scope_after_expression(state.scope(), n),
        ),
    decreases n,
{
    match n {
        ExpressionView::Operation(o) => {
            lemma_operation_walked(state, o);
        },
        ExpressionView::Expr(q) => {
            lemma_qualified_expression_walked(state, q);
        },
    }
}

/// Walking expressions changes the innermost scope as the expressions say, in
/// order, and nothing else.
pub proof fn lemma_expressions_walked(state: SymbolTableCreatorView, nodes: Seq<ExpressionView>)
    requires
        state.fst is Some,
    ensures
        walked_expressions::<SymbolTableCreator>(state, nodes) == state.with_scope(
            scope_after_expressions(state.scope(), nodes),
        ),
    decreases nodes,
{
    if nodes.len() == 0 {
        lemma_with_scope(state, state.scope());
    } else {
        let front = scope_after_expressions(state.scope(), nodes.drop_last());
        lemma_expressions_walked(state, nodes.drop_last());
        lemma_with_scope(state, front);
        lemma_expression_walked(state.with_scope(front), nodes.last());
    }
}

/// Walking an operation changes the innermost scope as the operation says, and
/// nothing else.
pub proof fn lemma_operation_walked(state: SymbolTableCreatorView, n: OperationView)
    requires
        state.fst is Some,
    ensures
        walked_operation::<SymbolTableCreator>(state, n) == state.with_scope(
            scope_after_operation(state.scope(), n),
        ),
    decreases n,
{
    let left = scope_after_expression(state.scope(), *n.lval);
    lemma_expression_walked(state, *n.lval);
    lemma_with_scope(state, left);
    lemma_expression_walked(state.with_scope(left), *n.rval);
}

/// Walking a chain changes the innermost scope as the chain says, and nothing
/// else.
pub proof fn lemma_qualified_expression_walked(
    state: SymbolTableCreatorView,
    n: QualifiedExpressionView,
)
    requires
        state.fst is Some,
    ensures
        walked_qualified_expression::<SymbolTableCreator>(state, n) == state.with_scope(
            scope_after_qualified_expression(state.scope(), n),
        ),
    decreases n,
{
    lemma_parts_walked(state, n.parts);
}

/// Walking the parts of a chain changes the innermost scope as the parts say,
/// in order, and nothing else.
pub proof fn lemma_parts_walked(
    state: SymbolTableCreatorView,
    nodes: Seq<QualifiedExpressionPartView>,
)
    requires
        state.fst is Some,
    ensures
        walked_parts::<SymbolTableCreator>(state, nodes) == state.with_scope(
            scope_after_parts(state.scope(), nodes),
        ),
    decreases nodes,
{
    if nodes.len() == 0 {
        lemma_with_scope(state, state.scope());
    } else {
        let front = scope_after_parts(state.scope(), nodes.drop_last());
        lemma_parts_walked(state, nodes.drop_last());
        lemma_with_scope(state, front);
        lemma_qualified_expression_part_walked(state.with_scope(front), nodes.last());
    }
}

/// Walking one part of a chain changes the innermost scope as the part says,
/// and nothing else.
pub proof fn lemma_qualified_expression_part_walked(
    state: SymbolTableCreatorView,
    n: QualifiedExpressionPartView,
)
    requires
        state.fst is Some,
    ensures
        walked_qualified_expression_part::<SymbolTableCreator>(state, n) == state.with_scope(
            scope_after_qualified_expression_part(state.scope(), n),
        ),
    decreases n,
{
    lemma_with_scope(state, state.scope());
    match n {
        QualifiedExpressionPartView::MethodCall(f) => {
            lemma_function_call_walked(state, f);
        },
        QualifiedExpressionPartView::Closure(c) => {
            lemma_closure_walked(state, c);
        },
        QualifiedExpressionPartView::ParenExpr(e) => {
            lemma_expression_walked(state, e);
        },
        _ => {},
    }
}

/// Walking a call changes the innermost scope as the call says, and nothing
/// else.
pub proof fn lemma_function_call_walked(state: SymbolTableCreatorView, n: FunctionCallView)
    requires
        state.fst is Some,
    ensures
        walked_function_call::<SymbolTableCreator>(state, n) == state.with_scope(
            scope_after_function_call(state.scope(), n),
        ),
    decreases n,
{
    lemma_expressions_walked(state, n.param_exprs);
}

/// Walking a closure declares it in the scope around it, with the scope that
/// its parameters and statements come to, and counts it and the closures in
/// it.
pub proof fn lemma_closure_walked(state: SymbolTableCreatorView, n: ClosureView)
    requires
        state.fst is Some,
    ensures
        walked_closure::<SymbolTableCreator>(state, n) == state.with_scope(
            scope_after_closure(state.scope(), n),
        ),
    decreases n,
{
    let entered = state.after(EventView::Enter(NodeView::Closure(n)));
    let ordinal = state.opened + 1;
    assert(entered.scope() == Scope::fresh(ordinal));
    let with_params = scope_after_params(entered.scope(), n.params);
    lemma_params_walked(entered, n.params);
    lemma_with_scope(entered, with_params);
    let with_statements = scope_after_statements(with_params, n.statements);
    lemma_statements_walked(entered.with_scope(with_params), n.statements);
    let inside = entered.with_scope(with_statements);
    assert(walked_statements::<SymbolTableCreator>(
        walked_params::<SymbolTableCreator>(entered, n.params),
        n.statements,
    ) == inside);
    assert(inside.closures.last() == (with_statements.table, ordinal));
    assert(inside.closures.drop_last() =~= state.closures);
    let left = inside.after(EventView::Leave(NodeView::Closure(n)));
    assert(left =~= state.with_scope(scope_after_closure(state.scope(), n)));
}

/// Walking a declaration declares the variable, then changes the innermost
/// scope as the initial value says, and nothing else.
pub proof fn lemma_variable_declaration_walked(
    state: SymbolTableCreatorView,
    n: VariableDeclarationView,
)
    requires
        state.fst is Some,
    ensures
        walked_variable_declaration::<SymbolTableCreator>(state, n) == state.with_scope(
            scope_after_variable_declaration(state.scope(), n),
        ),
    decreases n,
{
    let declared = state.scope().declare(n.name, FstEntryView::Var(n.ty, n.pos));
    lemma_declare(state, n.name, FstEntryView::Var(n.ty, n.pos));
    lemma_with_scope(state, declared);
    lemma_optional_expression_walked(state.with_scope(declared), n.value);
}

/// Walking an assignment changes the innermost scope as the assignment says,
/// and nothing else.
pub proof fn lemma_variable_affectation_walked(
    state: SymbolTableCreatorView,
    n: VariableAffectationView,
)
    requires
        state.fst is Some,
    ensures
        walked_variable_affectation::<SymbolTableCreator>(state, n) == state.with_scope(
            scope_after_variable_affectation(state.scope(), n),
        ),
    decreases n,
{
    let received = scope_after_qualified_expression(state.scope(), n.receiver);
    lemma_qualified_expression_walked(state, n.receiver);
    lemma_with_scope(state, received);
    lemma_expression_walked(state.with_scope(received), n.value);
}

impl SymbolTableCreatorView {
    /// The creator after a whole function: the function stands under its name
    /// in the table of the open class or, where no class is open, in that of
    /// the namespace; and the creator is in no function.
    pub open spec fn after_function(self, f: FunctionView) -> Self {
        let done = SymbolTableCreatorView {
            fst: None,
            closures: Seq::empty(),
            opened: 0,
            ..self
        };
        match self.cst {
            Some(class) => SymbolTableCreatorView {
                cst: Some(class.insert(f.name, method_entry(f))),
                ..done
            },
            None => SymbolTableCreatorView {
                nst: self.nst.insert(f.name, function_entry(f)),
                ..done
            },
        }
    }

    /// The creator with the table of the open class exchanged for `table`.
    pub open spec fn with_class(self, table: CstView) -> Self {
        SymbolTableCreatorView { cst: Some(table), ..self }
    }

    /// The creator with the table of the namespace exchanged for `table`, and
    /// in no class.
    pub open spec fn with_namespace(self, table: crate::symbol_table::NstView) -> Self {
        SymbolTableCreatorView { nst: table, cst: None, ..self }
    }
}

/// Walking a function records it with what it declares.
pub proof fn lemma_function_walked(state: SymbolTableCreatorView, n: FunctionView)
    ensures
        walked_function::<SymbolTableCreator>(state, n) == state.after_function(n),
{
    let entered = state.after(EventView::Enter(NodeView::Function(n)));
    assert(entered.scope() == Scope::fresh(0));
    lemma_attributes_walked(entered, n.attributes);
    let with_params = scope_after_params(entered.scope(), n.params);
    lemma_params_walked(entered, n.params);
    lemma_with_scope(entered, with_params);
    let with_statements = scope_after_statements(with_params, n.statements);
    lemma_statements_walked(entered.with_scope(with_params), n.statements);
    let inside = entered.with_scope(with_statements);
    assert(inside.fst == Some(function_table(n)));
    let left = inside.after(EventView::Leave(NodeView::Function(n)));
    assert(left =~= state.after_function(n));
}

/// Walking a field records it in the table of the open class.
pub proof fn lemma_field_walked(state: SymbolTableCreatorView, n: FieldView)
    requires
        state.cst is Some,
    ensures
        walked_field::<SymbolTableCreator>(state, n) == state.with_class(
            state.cst->Some_0.insert(n.name, CstEntryView::Field(n.ty, n.pos)),
        ),
{
    let entered = state.after(EventView::Enter(NodeView::Field(n)));
    lemma_attributes_walked(entered, n.attributes);
}

/// Walking a member of a class or block records what it declares in the table
/// of the open class.
pub proof fn lemma_class_member_walked(state: SymbolTableCreatorView, n: ClassMemberView)
    requires
        state.cst is Some,
        state.idle(),
    ensures
        walked_class_member::<SymbolTableCreator>(state, n) == state.with_class(
            class_table_after_member(state.cst->Some_0, n),
        ),
    decreases n,
{
    match n {
        ClassMemberView::Field(f) => {
            lemma_field_walked(state, f);
        },
        ClassMemberView::Method(m) => {
            lemma_function_walked(state, m);
            assert(state.after_function(m) =~= state.with_class(
                class_table_after_member(state.cst->Some_0, n),
            ));
        },
        ClassMemberView::Block(b) => {
            lemma_block_walked(state, b);
        },
    }
}

/// Walking members records what they declare in the table of the open class,
/// in order.
pub proof fn lemma_members_walked(state: SymbolTableCreatorView, nodes: Seq<ClassMemberView>)
    requires
        state.cst is Some,
        state.idle(),
    ensures
        walked_members::<SymbolTableCreator>(state, nodes) == state.with_class(
            class_table_after_members(state.cst->Some_0, nodes),
        ),
    decreases nodes,
{
    if nodes.len() == 0 {
        assert(state.with_class(state.cst->Some_0) =~= state);
    } else {
        let front = class_table_after_members(state.cst->Some_0, nodes.drop_last());
        lemma_members_walked(state, nodes.drop_last());
        lemma_class_member_walked(state.with_class(front), nodes.last());
        assert(state.with_class(front).with_class(
            class_table_after_member(front, nodes.last()),
        ) =~= state.with_class(class_table_after_members(state.cst->Some_0, nodes)));
    }
}

/// Walking a block records what its members declare in the table of the open
/// class.
pub proof fn lemma_block_walked(state: SymbolTableCreatorView, n: BlockView)
    requires
        state.cst is Some,
        state.idle(),
    ensures
        walked_block::<SymbolTableCreator>(state, n) == state.with_class(
            class_table_after_members(state.cst->Some_0, n.members),
        ),
    decreases n,
{
    lemma_attributes_walked(state, n.attributes);
    lemma_members_walked(state, n.members);
}

/// Walking a class records it in the table of the namespace with what it
/// declares.
pub proof fn lemma_class_walked(state: SymbolTableCreatorView, n: ClassView)
    requires
        state.idle(),
    ensures
        walked_class::<SymbolTableCreator>(state, n) == state.with_namespace(
            state.nst.insert(n.name, class_entry(n)),
        ),
{
    let entered = state.after(EventView::Enter(NodeView::Class(n)));
    lemma_attributes_walked(entered, n.attributes);
    lemma_members_walked(entered, n.members);
    let inside = entered.with_class(class_table(n));
    let left = inside.after(EventView::Leave(NodeView::Class(n)));
    assert(left =~= state.with_namespace(state.nst.insert(n.name, class_entry(n))));
}

/// Walking a declaration of a file records it in the table of the namespace.
pub proof fn lemma_entity_walked(state: SymbolTableCreatorView, n: FirstClassEntityView)
    requires
        state.idle(),
        state.cst is None,
    ensures
        walked_entity::<SymbolTableCreator>(state, n) == state.with_namespace(
            namespace_after_entity(state.nst, n),
        ),
{
    match n {
        FirstClassEntityView::Function(f) => {
            lemma_function_walked(state, f);
            assert(state.after_function(f) =~= state.with_namespace(
                namespace_after_entity(state.nst, n),
            ));
        },
        FirstClassEntityView::Class(c) => {
            lemma_class_walked(state, c);
        },
    }
}

/// Walking the declarations of a file records them in the table of the
/// namespace, in order.
pub proof fn lemma_entities_walked(
    state: SymbolTableCreatorView,
    nodes: Seq<FirstClassEntityView>,
)
    requires
        state.idle(),
        state.cst is None,
    ensures
        walked_entities::<SymbolTableCreator>(state, nodes) == state.with_namespace(
            namespace_after_entities(state.nst, nodes),
        ),
    decreases nodes.len(),
{
    if nodes.len() == 0 {
        assert(state.with_namespace(state.nst) =~= state);
    } else {
        let front = namespace_after_entities(state.nst, nodes.drop_last());
        lemma_entities_walked(state, nodes.drop_last());
        lemma_entity_walked(state.with_namespace(front), nodes.last());
        assert(state.with_namespace(front).with_namespace(
            namespace_after_entity(front, nodes.last()),
        ) =~= state.with_namespace(namespace_after_entities(state.nst, nodes)));
    }
}

/// Walking a file from a creator that is in no class and in no function puts
/// what the file declares into the table of the namespace, and leaves the
/// creator in no class and in no function.
pub proof fn lemma_file_walked(state: SymbolTableCreatorView, n: FileView)
    requires
        state.idle(),
        state.cst is None,
    ensures
        walked_file::<SymbolTableCreator>(state, n) == state.with_namespace(
            namespace_after_file(state.nst, n),
        ),
{
    lemma_entities_walked(state, n.entities);
}

} // verus!
