use vstd::prelude::*;
use crate::ast::AstNodeType;
use crate::ast_actions::node_counter::{
    count_in_closure, count_in_expression, count_in_expressions, count_in_function_call,
    count_in_operation, count_in_optional_expression, count_in_params, count_in_parts,
    count_in_qualified_expression, count_in_qualified_expression_part, count_in_statement,
    count_in_statements, count_in_variable_affectation, count_in_variable_declaration,
};
use crate::symbol_table::ordinal::{lemma_closure_name_literals, lemma_closure_names_distinct};
use crate::ast::{
    ClassMemberView, ClassView, ClosureView, ExpressionView, FileView, FirstClassEntityView,
    FunctionCallView, FunctionView, OperationView, ParamView, QualifiedExpressionPartView,
    QualifiedExpressionView, StatementView, VariableAffectationView, VariableDeclarationView,
};
use crate::symbol_table::ordinal::closure_name;
use crate::symbol_table::{CstEntryView, CstView, FstEntryView, FstView, NstEntryView, NstView};

verus! {

/// An open scope while a function is walked: what the scope declares so far,
/// and how many closures the function has opened so far.
pub struct Scope {
    pub table: FstView,
    pub closures: nat,
}

impl Scope {
    /// A scope that declares nothing yet.
    pub open spec fn fresh(closures: nat) -> Scope {
        Scope { table: Map::empty(), closures }
    }

    /// The scope with `entry` under `name`, in place of what was there.
    pub open spec fn declare(self, name: Seq<char>, entry: FstEntryView) -> Scope {
        Scope { table: self.table.insert(name, entry), ..self }
    }
}

/// The scope after a parameter: the parameter is declared.
pub open spec fn scope_after_param(scope: Scope, n: ParamView) -> Scope {
    scope.declare(n.name, FstEntryView::Param(n.ty, n.pos))
}

/// The scope after a list of parameters, in order.
pub open spec fn scope_after_params(scope: Scope, nodes: Seq<ParamView>) -> Scope
    decreases nodes.len(),
{
    if nodes.len() == 0 {
        scope
    } else {
        scope_after_param(scope_after_params(scope, nodes.drop_last()), nodes.last())
    }
}

/// The scope after a statement.
pub open spec fn scope_after_statement(scope: Scope, n: StatementView) -> Scope
    decreases n,
{
    match n {
        StatementView::ReturnStatement { expr, pos: _ } => scope_after_optional_expression(
            scope,
            expr,
        ),
        StatementView::Declaration(d) => scope_after_variable_declaration(scope, d),
        StatementView::Affectation(a) => scope_after_variable_affectation(scope, a),
        StatementView::QualifiedExpression(q) => scope_after_qualified_expression(scope, q),
    }
}

/// The scope after the statements of a body, in order.
pub open spec fn scope_after_statements(scope: Scope, nodes: Seq<StatementView>) -> Scope
    decreases nodes,
{
    if nodes.len() == 0 {
        scope
    } else {
        scope_after_statement(scope_after_statements(scope, nodes.drop_last()), nodes.last())
    }
}

/// The scope after an expression that may be absent.
pub open spec fn scope_after_optional_expression(scope: Scope, n: Option<ExpressionView>) -> Scope
    decreases n,
{
    match n {
        Some(e) => scope_after_expression(scope, e),
        None => scope,
    }
}

/// The scope after an expression: an expression declares what the closures in
/// it come to.
pub open spec fn scope_after_expression(scope: Scope, n: ExpressionView) -> Scope
    decreases n,
{
    match n {
        ExpressionView::Operation(o) => scope_after_operation(scope, o),
        ExpressionView::Expr(q) => scope_after_qualified_expression(scope, q),
    }
}

/// The scope after a list of expressions, in order.
pub open spec fn scope_after_expressions(scope: Scope, nodes: Seq<ExpressionView>) -> Scope
    decreases nodes,
{
    if nodes.len() == 0 {
        scope
    } else {
        scope_after_expression(scope_after_expressions(scope, nodes.drop_last()), nodes.last())
    }
}

/// The scope after an operation: its left operand, then its right operand.
pub open spec fn scope_after_operation(scope: Scope, n: OperationView) -> Scope
    decreases n,
{
    scope_after_expression(scope_after_expression(scope, *n.lval), *n.rval)
}

/// The scope after a chain: its parts in order.
pub open spec fn scope_after_qualified_expression(
    scope: Scope,
    n: QualifiedExpressionView,
) -> Scope
    decreases n,
{
    scope_after_parts(scope, n.parts)
}

/// The scope after the parts of a chain, in order.
pub open spec fn scope_after_parts(scope: Scope, nodes: Seq<QualifiedExpressionPartView>) -> Scope
    decreases nodes,
{
    if nodes.len() == 0 {
        scope
    } else {
        scope_after_qualified_expression_part(
            scope_after_parts(scope, nodes.drop_last()),
            nodes.last(),
        )
    }
}

/// The scope after one part of a chain.
pub open spec fn scope_after_qualified_expression_part(
    scope: Scope,
    n: QualifiedExpressionPartView,
) -> Scope
    decreases n,
{
    match n {
        QualifiedExpressionPartView::MethodCall(f) => scope_after_function_call(scope, f),
        QualifiedExpressionPartView::Closure(c) => scope_after_closure(scope, c),
        QualifiedExpressionPartView::ParenExpr(e) => scope_after_expression(scope, e),
        _ => scope,
    }
}

/// The scope after a call: its arguments in order.
pub open spec fn scope_after_function_call(scope: Scope, n: FunctionCallView) -> Scope
    decreases n,
{
    scope_after_expressions(scope, n.param_exprs)
}

/// The scope after a closure. The closure takes the next ordinal of the
/// function; its own scope starts empty and takes its parameters, then its
/// statements; and it is declared in the scope around it under the name made
/// from its ordinal, with what its own scope came to. Closures inside it go on
/// counting from its ordinal.
pub open spec fn scope_after_closure(scope: Scope, n: ClosureView) -> Scope
    decreases n,
{
    let ordinal = scope.closures + 1;
    let inner = scope_after_statements(
        scope_after_params(Scope::fresh(ordinal), n.params),
        n.statements,
    );
    Scope {
        table: scope.table.insert(
            closure_name(ordinal),
            FstEntryView::Closure(n.return_type, n.pos, inner.table),
        ),
        closures: inner.closures,
    }
}

/// The scope after a declaration: the variable is declared, then comes what
/// its initial value declares.
pub open spec fn scope_after_variable_declaration(
    scope: Scope,
    n: VariableDeclarationView,
) -> Scope
    decreases n,
{
    scope_after_optional_expression(scope.declare(n.name, FstEntryView::Var(n.ty, n.pos)), n.value)
}

/// The scope after an assignment: the receiver, then the value.
pub open spec fn scope_after_variable_affectation(
    scope: Scope,
    n: VariableAffectationView,
) -> Scope
    decreases n,
{
    scope_after_expression(scope_after_qualified_expression(scope, n.receiver), n.value)
}

/// What a function or method declares: its parameters, its local variables,
/// and its closures, numbered from one in the order in which they open.
pub open spec fn function_table(f: FunctionView) -> FstView {
    scope_after_statements(scope_after_params(Scope::fresh(0), f.params), f.statements).table
}

/// The entry of a method in the table of its class.
pub open spec fn method_entry(f: FunctionView) -> CstEntryView {
    CstEntryView::Method(f.return_type, f.pos, function_table(f))
}

/// The entry of a freestanding function in the table of its namespace.
pub open spec fn function_entry(f: FunctionView) -> NstEntryView {
    NstEntryView::Fun(f.return_type, f.pos, function_table(f))
}

/// The table of a class after one more member: a field or a method is put in
/// under its name; a block has its members put in, in order.
pub open spec fn class_table_after_member(table: CstView, member: ClassMemberView) -> CstView
    decreases member,
{
    match member {
        ClassMemberView::Field(f) => table.insert(f.name, CstEntryView::Field(f.ty, f.pos)),
        ClassMemberView::Method(m) => table.insert(m.name, method_entry(m)),
        ClassMemberView::Block(b) => class_table_after_members(table, b.members),
    }
}

/// The table of a class after more members, in order.
pub open spec fn class_table_after_members(table: CstView, members: Seq<ClassMemberView>) -> CstView
    decreases members,
{
    if members.len() == 0 {
        table
    } else {
        class_table_after_member(
            class_table_after_members(table, members.drop_last()),
            members.last(),
        )
    }
}

/// What a class declares.
pub open spec fn class_table(c: ClassView) -> CstView {
    class_table_after_members(Map::empty(), c.members)
}

/// The entry of a class in the table of its namespace.
pub open spec fn class_entry(c: ClassView) -> NstEntryView {
    NstEntryView::Class(c.super_name, c.implemented_interfaces, c.pos, class_table(c))
}

/// The table of a namespace after one more declaration: it is put in under its
/// name, in place of what was there.
pub open spec fn namespace_after_entity(table: NstView, entity: FirstClassEntityView) -> NstView {
    match entity {
        FirstClassEntityView::Function(f) => table.insert(f.name, function_entry(f)),
        FirstClassEntityView::Class(c) => table.insert(c.name, class_entry(c)),
    }
}

/// The table of a namespace after more declarations, in order.
pub open spec fn namespace_after_entities(
    table: NstView,
    entities: Seq<FirstClassEntityView>,
) -> NstView
    decreases entities.len(),
{
    if entities.len() == 0 {
        table
    } else {
        namespace_after_entity(
            namespace_after_entities(table, entities.drop_last()),
            entities.last(),
        )
    }
}

/// The table of a namespace after one more file.
pub open spec fn namespace_after_file(table: NstView, file: FileView) -> NstView {
    namespace_after_entities(table, file.entities)
}

/// The table of a namespace after more files, in order.
pub open spec fn namespace_after_files(table: NstView, files: Seq<FileView>) -> NstView
    decreases files.len(),
{
    if files.len() == 0 {
        table
    } else {
        namespace_after_file(namespace_after_files(table, files.drop_last()), files.last())
    }
}

/// What the files of one namespace declare together, taken in order.
pub open spec fn namespace_table(files: Seq<FileView>) -> NstView {
    namespace_after_files(Map::empty(), files)
}

/// A declaration is in the table under its name once it has been put in, and
/// the table has one name more at most.
pub proof fn lemma_entity_recorded(table: NstView, entity: FirstClassEntityView)
    ensures
        match entity {
            FirstClassEntityView::Function(f) => {
                &&& namespace_after_entity(table, entity)[f.name] == function_entry(f)
                &&& namespace_after_entity(table, entity).dom() == table.dom().insert(f.name)
            },
            FirstClassEntityView::Class(c) => {
                &&& namespace_after_entity(table, entity)[c.name] == class_entry(c)
                &&& namespace_after_entity(table, entity).dom() == table.dom().insert(c.name)
            },
        },
{
    match entity {
        FirstClassEntityView::Function(f) => {
            assert(namespace_after_entity(table, entity).dom() =~= table.dom().insert(f.name));
        },
        FirstClassEntityView::Class(c) => {
            assert(namespace_after_entity(table, entity).dom() =~= table.dom().insert(c.name));
        },
    }
}

/// Of two files of one namespace that each declare just one class, both under
/// the same name, the table keeps one entry under that name: the class of the
/// file that comes last.
pub proof fn lemma_cross_file_overwrite(
    first: FileView,
    second: FileView,
    earlier: ClassView,
    later: ClassView,
)
    requires
        first.entities == seq![FirstClassEntityView::Class(earlier)],
        second.entities == seq![FirstClassEntityView::Class(later)],
        earlier.name == later.name,
    ensures
        namespace_table(seq![first, second]) == Map::<Seq<char>, NstEntryView>::empty().insert(
            later.name,
            class_entry(later),
        ),
{
    let files = seq![first, second];
    assert(files.drop_last() =~= seq![first]);
    assert(files.drop_last().drop_last() =~= Seq::<FileView>::empty());
    assert(files.last() == second);
    assert(files.drop_last().last() == first);
    assert(first.entities.drop_last() =~= Seq::<FirstClassEntityView>::empty());
    assert(second.entities.drop_last() =~= Seq::<FirstClassEntityView>::empty());
    let empty = Map::<Seq<char>, NstEntryView>::empty();
    assert(namespace_after_files(empty, files.drop_last().drop_last()) == empty);
    let after_first = namespace_after_files(empty, files.drop_last());
    assert(after_first == namespace_after_file(empty, first));
    assert(namespace_after_entities(empty, first.entities.drop_last()) == empty);
    assert(after_first == empty.insert(earlier.name, class_entry(earlier)));
    let after_second = namespace_table(files);
    assert(after_second == namespace_after_file(after_first, second));
    assert(namespace_after_entities(after_first, second.entities.drop_last()) == after_first);
    assert(after_second == after_first.insert(later.name, class_entry(later)));
    assert(after_second =~= empty.insert(later.name, class_entry(later)));
}

/// Whatever a namespace holds before, the last of its files to declare a name
/// last decides what stands under that name.
pub proof fn lemma_last_declaration_wins(
    table: NstView,
    files: Seq<FileView>,
    entity: FirstClassEntityView,
)
    requires
        files.len() > 0,
        files.last().entities.len() > 0,
        files.last().entities.last() == entity,
    ensures
        match entity {
            FirstClassEntityView::Function(f) => namespace_after_files(table, files)[f.name]
                == function_entry(f),
            FirstClassEntityView::Class(c) => namespace_after_files(table, files)[c.name]
                == class_entry(c),
        },
{
    let before = namespace_after_entities(
        namespace_after_files(table, files.drop_last()),
        files.last().entities.drop_last(),
    );
    lemma_entity_recorded(before, entity);
}

/// Parameters open no closure: the count stays as it is.
pub proof fn lemma_params_count_closures(scope: Scope, nodes: Seq<ParamView>)
    ensures
        count_in_params(nodes, AstNodeType::Closure) == 0,
        scope_after_params(scope, nodes).closures == scope.closures,
    decreases nodes.len(),
{
    if nodes.len() != 0 {
        lemma_params_count_closures(scope, nodes.drop_last());
    }
}

/// A statement raises the count of closures by the closures it holds.
pub proof fn lemma_statement_count_closures(scope: Scope, n: StatementView)
    ensures
        scope_after_statement(scope, n).closures == scope.closures + count_in_statement(
            n,
            AstNodeType::Closure,
        ),
    decreases n,
{
    match n {
        StatementView::ReturnStatement { expr, pos: _ } => {
            lemma_optional_expression_count_closures(scope, expr);
        },
        StatementView::Declaration(d) => {
            lemma_variable_declaration_count_closures(scope, d);
        },
        StatementView::Affectation(a) => {
            lemma_variable_affectation_count_closures(scope, a);
        },
        StatementView::QualifiedExpression(q) => {
            lemma_qualified_expression_count_closures(scope, q);
        },
    }
}

/// The statements of a body raise the count of closures by the closures they hold.
pub proof fn lemma_statements_count_closures(scope: Scope, nodes: Seq<StatementView>)
    ensures
        scope_after_statements(scope, nodes).closures == scope.closures + count_in_statements(
            nodes,
            AstNodeType::Closure,
        ),
    decreases nodes,
{
    if nodes.len() != 0 {
        lemma_statements_count_closures(scope, nodes.drop_last());
        lemma_statement_count_closures(scope_after_statements(scope, nodes.drop_last()), nodes.last());
    }
}

/// An expression that may be absent raises the count of closures by the closures it holds.
pub proof fn lemma_optional_expression_count_closures(scope: Scope, n: Option<ExpressionView>)
    ensures
        scope_after_optional_expression(scope, n).closures == scope.closures + count_in_optional_expression(
            n,
            AstNodeType::Closure,
        ),
    decreases n,
{
    match n {
        Some(e) => {
            lemma_expression_count_closures(scope, e);
        },
        None => {},
    }
}

/// An expression raises the count of closures by the closures it holds.
pub proof fn lemma_expression_count_closures(scope: Scope, n: ExpressionView)
    ensures
        scope_after_expression(scope, n).closures == scope.closures + count_in_expression(
            n,
            AstNodeType::Closure,
        ),
    decreases n,
{
    match n {
        ExpressionView::Operation(o) => {
            lemma_operation_count_closures(scope, o);
        },
        ExpressionView::Expr(q) => {
            lemma_qualified_expression_count_closures(scope, q);
        },
    }
}

/// A list of expressions raise the count of closures by the closures they hold.
pub proof fn lemma_expressions_count_closures(scope: Scope, nodes: Seq<ExpressionView>)
    ensures
        scope_after_expressions(scope, nodes).closures == scope.closures + count_in_expressions(
            nodes,
            AstNodeType::Closure,
        ),
    decreases nodes,
{
    if nodes.len() != 0 {
        lemma_expressions_count_closures(scope, nodes.drop_last());
        lemma_expression_count_closures(scope_after_expressions(scope, nodes.drop_last()), nodes.last());
    }
}

/// An operation raises the count of closures by the closures it holds.
pub proof fn lemma_operation_count_closures(scope: Scope, n: OperationView)
    ensures
        scope_after_operation(scope, n).closures == scope.closures + count_in_operation(
            n,
            AstNodeType::Closure,
        ),
    decreases n,
{
    lemma_expression_count_closures(scope, *n.lval);
    lemma_expression_count_closures(scope_after_expression(scope, *n.lval), *n.rval);
}

/// A chain raises the count of closures by the closures it holds.
pub proof fn lemma_qualified_expression_count_closures(scope: Scope, n: QualifiedExpressionView)
    ensures
        scope_after_qualified_expression(scope, n).closures == scope.closures + count_in_qualified_expression(
            n,
            AstNodeType::Closure,
        ),
    decreases n,
{
    lemma_parts_count_closures(scope, n.parts);
}

/// The parts of a chain raise the count of closures by the closures they hold.
pub proof fn lemma_parts_count_closures(scope: Scope, nodes: Seq<QualifiedExpressionPartView>)
    ensures
        scope_after_parts(scope, nodes).closures == scope.closures + count_in_parts(
            nodes,
            AstNodeType::Closure,
        ),
    decreases nodes,
{
    if nodes.len() != 0 {
        lemma_parts_count_closures(scope, nodes.drop_last());
        lemma_qualified_expression_part_count_closures(
            scope_after_parts(scope, nodes.drop_last()),
            nodes.last(),
        );
    }
}

/// One part of a chain raises the count of closures by the closures it holds.
pub proof fn lemma_qualified_expression_part_count_closures(scope: Scope, n: QualifiedExpressionPartView)
    ensures
        scope_after_qualified_expression_part(scope, n).closures == scope.closures
            + count_in_qualified_expression_part(
            n,
            AstNodeType::Closure,
        ),
    decreases n,
{
    match n {
        QualifiedExpressionPartView::MethodCall(f) => {
            lemma_function_call_count_closures(scope, f);
        },
        QualifiedExpressionPartView::Closure(c) => {
            lemma_closure_count_closures(scope, c);
        },
        QualifiedExpressionPartView::ParenExpr(e) => {
            lemma_expression_count_closures(scope, e);
        },
        _ => {},
    }
}

/// A call raises the count of closures by the closures it holds.
pub proof fn lemma_function_call_count_closures(scope: Scope, n: FunctionCallView)
    ensures
        scope_after_function_call(scope, n).closures == scope.closures + count_in_function_call(
            n,
            AstNodeType::Closure,
        ),
    decreases n,
{
    lemma_expressions_count_closures(scope, n.param_exprs);
}

/// A closure raises the count of closures by the closures it holds.
pub proof fn lemma_closure_count_closures(scope: Scope, n: ClosureView)
    ensures
        scope_after_closure(scope, n).closures == scope.closures + count_in_closure(
            n,
            AstNodeType::Closure,
        ),
    decreases n,
{
    let start = Scope::fresh(scope.closures + 1);
    lemma_params_count_closures(start, n.params);
    lemma_statements_count_closures(scope_after_params(start, n.params), n.statements);
}

/// A declaration raises the count of closures by the closures it holds.
pub proof fn lemma_variable_declaration_count_closures(scope: Scope, n: VariableDeclarationView)
    ensures
        scope_after_variable_declaration(scope, n).closures == scope.closures + count_in_variable_declaration(
            n,
            AstNodeType::Closure,
        ),
    decreases n,
{
    lemma_optional_expression_count_closures(
        scope.declare(n.name, FstEntryView::Var(n.ty, n.pos)),
        n.value,
    );
}

/// An assignment raises the count of closures by the closures it holds.
pub proof fn lemma_variable_affectation_count_closures(scope: Scope, n: VariableAffectationView)
    ensures
        scope_after_variable_affectation(scope, n).closures == scope.closures + count_in_variable_affectation(
            n,
            AstNodeType::Closure,
        ),
    decreases n,
{
    lemma_qualified_expression_count_closures(scope, n.receiver);
    lemma_expression_count_closures(
        scope_after_qualified_expression(scope, n.receiver),
        n.value,
    );
}

/// The entry under which a closure is recorded, given the count of closures
/// before it.
pub open spec fn closure_entry(before: nat, n: ClosureView) -> FstEntryView {
    FstEntryView::Closure(
        n.return_type,
        n.pos,
        scope_after_statements(
            scope_after_params(Scope::fresh(before + 1), n.params),
            n.statements,
        ).table,
    )
}

/// A closure is recorded in the scope around it under the name made from the
/// count of closures before it and one.
pub proof fn lemma_closure_recorded(scope: Scope, n: ClosureView)
    ensures
        scope_after_closure(scope, n).table == scope.table.insert(
            closure_name(scope.closures + 1),
            closure_entry(scope.closures, n),
        ),
        scope_after_closure(scope, n).closures >= scope.closures + 1,
{
    lemma_closure_count_closures(scope, n);
}

/// Of two closures that stand one after the other in a scope, each is
/// recorded in that scope under a name of its own, with a table of its own:
/// the second does not take the place of the first.
pub proof fn lemma_sibling_closures(scope: Scope, first: ClosureView, second: ClosureView)
    ensures
        ({
            let after_first = scope_after_closure(scope, first);
            let after_both = scope_after_closure(after_first, second);
            let first_name = closure_name(scope.closures + 1);
            let second_name = closure_name(after_first.closures + 1);
            &&& first_name != second_name
            &&& after_both.table.contains_key(first_name)
            &&& after_both.table.contains_key(second_name)
            &&& after_both.table[first_name] == closure_entry(scope.closures, first)
            &&& after_both.table[second_name] == closure_entry(after_first.closures, second)
        }),
{
    lemma_closure_recorded(scope, first);
    let after_first = scope_after_closure(scope, first);
    lemma_closure_names_distinct(scope.closures + 1, after_first.closures + 1);
}

/// In a scope that has counted no closure yet, two closures that stand one
/// after the other, the first of which holds no closure, are recorded under
/// `<closure1>` and `<closure2>`, each with a table of its own.
pub proof fn lemma_first_sibling_closures(scope: Scope, first: ClosureView, second: ClosureView)
    requires
        scope.closures == 0,
        count_in_closure(first, AstNodeType::Closure) == 1,
    ensures
        ({
            let after_both = scope_after_closure(scope_after_closure(scope, first), second);
            &&& "<closure1>"@ != "<closure2>"@
            &&& after_both.table.contains_key("<closure1>"@)
            &&& after_both.table.contains_key("<closure2>"@)
            &&& after_both.table["<closure1>"@] == closure_entry(0, first)
            &&& after_both.table["<closure2>"@] == closure_entry(1, second)
        }),
{
    lemma_closure_count_closures(scope, first);
    lemma_sibling_closures(scope, first, second);
    lemma_closure_name_literals();
}

} // verus!
