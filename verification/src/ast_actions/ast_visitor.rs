use vstd::prelude::*;
use crate::ast::{
    view_expressions, view_members, view_parts, view_seq, view_statements, AstNodeType, Attribute,
    AttributeView, Block, BlockView, Boolean, BooleanView, Char, CharView, Class, ClassMember,
    ClassMemberView, ClassView, Closure, ClosureView, Expression, ExpressionView, Field, FieldView,
    File, FileView, FirstClassEntity, FirstClassEntityView, Function, FunctionCall,
    FunctionCallView, FunctionView, Identifier, IdentifierView, Integer, IntegerView, Operation,
    OperationView, Param, ParamView, QualifiedExpression, QualifiedExpressionPart,
    QualifiedExpressionPartView, QualifiedExpressionView, Statement, StatementView,
    StringLitteral, StringLitteralView, VariableAffectation, VariableAffectationView,
    VariableDeclaration, VariableDeclarationView,
};

verus! {

/// A node of the tree, of any shape, as the traversal reaches it.
pub enum Node<'a> {
    File(&'a File),
    Attribute(&'a Attribute),
    Function(&'a Function),
    FunctionCall(&'a FunctionCall),
    Param(&'a Param),
    Operation(&'a Operation),
    Expression(&'a Expression),
    QualifiedExpression(&'a QualifiedExpression),
    QualifiedExpressionPart(&'a QualifiedExpressionPart),
    Statement(&'a Statement),
    Closure(&'a Closure),
    VariableDeclaration(&'a VariableDeclaration),
    VariableAffectation(&'a VariableAffectation),
    Class(&'a Class),
    ClassMember(&'a ClassMember),
    Block(&'a Block),
    Field(&'a Field),
    Identifier(&'a Identifier),
    Integer(&'a Integer),
    StringLitteral(&'a StringLitteral),
    Boolean(&'a Boolean),
    Char(&'a Char),
}

/// Model of a [`Node`].
pub enum NodeView {
    File(FileView),
    Attribute(AttributeView),
    Function(FunctionView),
    FunctionCall(FunctionCallView),
    Param(ParamView),
    Operation(OperationView),
    Expression(ExpressionView),
    QualifiedExpression(QualifiedExpressionView),
    QualifiedExpressionPart(QualifiedExpressionPartView),
    Statement(StatementView),
    Closure(ClosureView),
    VariableDeclaration(VariableDeclarationView),
    VariableAffectation(VariableAffectationView),
    Class(ClassView),
    ClassMember(ClassMemberView),
    Block(BlockView),
    Field(FieldView),
    Identifier(IdentifierView),
    Integer(IntegerView),
    StringLitteral(StringLitteralView),
    Boolean(BooleanView),
    Char(CharView),
}

impl<'a> View for Node<'a> {
    type V = NodeView;

    open spec fn view(&self) -> NodeView {
        match self {
            Node::File(n) => NodeView::File(n@),
            Node::Attribute(n) => NodeView::Attribute(n@),
            Node::Function(n) => NodeView::Function(n@),
            Node::FunctionCall(n) => NodeView::FunctionCall(n@),
            Node::Param(n) => NodeView::Param(n@),
            Node::Operation(n) => NodeView::Operation(n@),
            Node::Expression(n) => NodeView::Expression(n@),
            Node::QualifiedExpression(n) => NodeView::QualifiedExpression(n@),
            Node::QualifiedExpressionPart(n) => NodeView::QualifiedExpressionPart(n@),
            Node::Statement(n) => NodeView::Statement(n@),
            Node::Closure(n) => NodeView::Closure(n@),
            Node::VariableDeclaration(n) => NodeView::VariableDeclaration(n@),
            Node::VariableAffectation(n) => NodeView::VariableAffectation(n@),
            Node::Class(n) => NodeView::Class(n@),
            Node::ClassMember(n) => NodeView::ClassMember(n@),
            Node::Block(n) => NodeView::Block(n@),
            Node::Field(n) => NodeView::Field(n@),
            Node::Identifier(n) => NodeView::Identifier(n@),
            Node::Integer(n) => NodeView::Integer(n@),
            Node::StringLitteral(n) => NodeView::StringLitteral(n@),
            Node::Boolean(n) => NodeView::Boolean(n@),
            Node::Char(n) => NodeView::Char(n@),
        }
    }
}

impl NodeView {
    /// The shape of the node.
    pub open spec fn shape(self) -> AstNodeType {
        match self {
            NodeView::File(_) => AstNodeType::File,
            NodeView::Attribute(_) => AstNodeType::Attribute,
            NodeView::Function(_) => AstNodeType::Function,
            NodeView::FunctionCall(_) => AstNodeType::FunctionCall,
            NodeView::Param(_) => AstNodeType::Param,
            NodeView::Operation(_) => AstNodeType::Operation,
            NodeView::Expression(_) => AstNodeType::Expression,
            NodeView::QualifiedExpression(_) => AstNodeType::QualifiedExpression,
            NodeView::QualifiedExpressionPart(_) => AstNodeType::QualifiedExpressionPart,
            NodeView::Statement(_) => AstNodeType::Statement,
            NodeView::Closure(_) => AstNodeType::Closure,
            NodeView::VariableDeclaration(_) => AstNodeType::VariableDeclaration,
            NodeView::VariableAffectation(_) => AstNodeType::VariableAffectation,
            NodeView::Class(_) => AstNodeType::Class,
            NodeView::ClassMember(_) => AstNodeType::ClassMember,
            NodeView::Block(_) => AstNodeType::Block,
            NodeView::Field(_) => AstNodeType::Field,
            NodeView::Identifier(_) => AstNodeType::Identifier,
            NodeView::Integer(_) => AstNodeType::Integer,
            NodeView::StringLitteral(_) => AstNodeType::StringLitteral,
            NodeView::Boolean(_) => AstNodeType::Boolean,
            NodeView::Char(_) => AstNodeType::Char,
        }
    }
}

/// What the traversal tells a visitor: that it has reached a node, before any
/// of the node's children, or that it is done with the node and all below it.
pub enum Event<'a> {
    Enter(Node<'a>),
    Leave(Node<'a>),
}

/// Model of an [`Event`].
pub enum EventView {
    Enter(NodeView),
    Leave(NodeView),
}

impl<'a> View for Event<'a> {
    type V = EventView;

    open spec fn view(&self) -> EventView {
        match self {
            Event::Enter(n) => EventView::Enter(n@),
            Event::Leave(n) => EventView::Leave(n@),
        }
    }
}

/// A pass over the tree. The traversal owns the recursion: it reaches every
/// node once, parents before children and children in declaration order, and
/// hands each to `visit` on the way in and on the way out. A pass reacts to
/// the events it cares about and lets the others go by.
pub trait AstVisitor: View + Sized {
    /// The state of the pass after an event, as a function of its state
    /// before.
    spec fn step(state: Self::V, event: EventView) -> Self::V;

    fn visit(&mut self, event: Event<'_>)
        ensures
            final(self)@ == Self::step(old(self)@, event@),
    ;
}

/// The state after a node without children: it is entered and left.
pub open spec fn touched<V: AstVisitor>(state: V::V, node: NodeView) -> V::V {
    V::step(V::step(state, EventView::Enter(node)), EventView::Leave(node))
}

/// The state after a file: its declarations in order.
pub open spec fn walked_file<V: AstVisitor>(state: V::V, n: FileView) -> V::V
    decreases n,
{
    let entered = V::step(state, EventView::Enter(NodeView::File(n)));
    let inside = walked_entities::<V>(entered, n.entities);
    V::step(inside, EventView::Leave(NodeView::File(n)))
}

/// The state after a declaration of a file.
pub open spec fn walked_entity<V: AstVisitor>(state: V::V, n: FirstClassEntityView) -> V::V
    decreases n,
{
    match n {
        FirstClassEntityView::Function(f) => walked_function::<V>(state, f),
        FirstClassEntityView::Class(c) => walked_class::<V>(state, c),
    }
}

/// The state after the declarations of a file, in order.
pub open spec fn walked_entities<V: AstVisitor>(state: V::V, nodes: Seq<FirstClassEntityView>) -> V::V
    decreases nodes,
{
    if nodes.len() == 0 {
        state
    } else {
        walked_entity::<V>(walked_entities::<V>(state, nodes.drop_last()), nodes.last())
    }
}

/// The state after an attribute.
pub open spec fn walked_attribute<V: AstVisitor>(state: V::V, n: AttributeView) -> V::V {
    touched::<V>(state, NodeView::Attribute(n))
}

/// The state after a list of attributes, in order.
pub open spec fn walked_attributes<V: AstVisitor>(state: V::V, nodes: Seq<AttributeView>) -> V::V
    decreases nodes,
{
    if nodes.len() == 0 {
        state
    } else {
        walked_attribute::<V>(walked_attributes::<V>(state, nodes.drop_last()), nodes.last())
    }
}

/// The state after a function: its attributes, its parameters, then its statements.
pub open spec fn walked_function<V: AstVisitor>(state: V::V, n: FunctionView) -> V::V
    decreases n,
{
    let entered = V::step(state, EventView::Enter(NodeView::Function(n)));
    let inside = walked_statements::<V>(
        walked_params::<V>(walked_attributes::<V>(entered, n.attributes), n.params),
        n.statements,
    );
    V::step(inside, EventView::Leave(NodeView::Function(n)))
}

/// The state after a call: its arguments in order.
pub open spec fn walked_function_call<V: AstVisitor>(state: V::V, n: FunctionCallView) -> V::V
    decreases n,
{
    let entered = V::step(state, EventView::Enter(NodeView::FunctionCall(n)));
    let inside = walked_expressions::<V>(entered, n.param_exprs);
    V::step(inside, EventView::Leave(NodeView::FunctionCall(n)))
}

/// The state after a parameter.
pub open spec fn walked_param<V: AstVisitor>(state: V::V, n: ParamView) -> V::V {
    touched::<V>(state, NodeView::Param(n))
}

/// The state after a list of parameters, in order.
pub open spec fn walked_params<V: AstVisitor>(state: V::V, nodes: Seq<ParamView>) -> V::V
    decreases nodes,
{
    if nodes.len() == 0 {
        state
    } else {
        walked_param::<V>(walked_params::<V>(state, nodes.drop_last()), nodes.last())
    }
}

/// The state after an operation: its left operand, then its right operand.
pub open spec fn walked_operation<V: AstVisitor>(state: V::V, n: OperationView) -> V::V
    decreases n,
{
    let entered = V::step(state, EventView::Enter(NodeView::Operation(n)));
    let inside = walked_expression::<V>(walked_expression::<V>(entered, *n.lval), *n.rval);
    V::step(inside, EventView::Leave(NodeView::Operation(n)))
}

/// The state after an expression.
pub open spec fn walked_expression<V: AstVisitor>(state: V::V, n: ExpressionView) -> V::V
    decreases n,
{
    let entered = V::step(state, EventView::Enter(NodeView::Expression(n)));
    let inside = match n {
        ExpressionView::Operation(o) => walked_operation::<V>(entered, o),
        ExpressionView::Expr(q) => walked_qualified_expression::<V>(entered, q),
    };
    V::step(inside, EventView::Leave(NodeView::Expression(n)))
}

/// The state after a list of expressions, in order.
pub open spec fn walked_expressions<V: AstVisitor>(state: V::V, nodes: Seq<ExpressionView>) -> V::V
    decreases nodes,
{
    if nodes.len() == 0 {
        state
    } else {
        walked_expression::<V>(walked_expressions::<V>(state, nodes.drop_last()), nodes.last())
    }
}

/// The state after an expression that may be absent.
pub open spec fn walked_optional_expression<V: AstVisitor>(
    state: V::V,
    n: Option<ExpressionView>,
) -> V::V
    decreases n,
{
    match n {
        Some(e) => walked_expression::<V>(state, e),
        None => state,
    }
}

/// The state after a chain: its parts in order.
pub open spec fn walked_qualified_expression<V: AstVisitor>(
    state: V::V,
    n: QualifiedExpressionView,
) -> V::V
    decreases n,
{
    let entered = V::step(state, EventView::Enter(NodeView::QualifiedExpression(n)));
    let inside = walked_parts::<V>(entered, n.parts);
    V::step(inside, EventView::Leave(NodeView::QualifiedExpression(n)))
}

/// The state after one part of a chain.
pub open spec fn walked_qualified_expression_part<V: AstVisitor>(
    state: V::V,
    n: QualifiedExpressionPartView,
) -> V::V
    decreases n,
{
    let entered = V::step(state, EventView::Enter(NodeView::QualifiedExpressionPart(n)));
    let inside = match n {
        QualifiedExpressionPartView::MethodCall(f) => walked_function_call::<V>(entered, f),
        QualifiedExpressionPartView::Identifier(i) => walked_identifier::<V>(entered, i),
        QualifiedExpressionPartView::Integer(i) => walked_integer::<V>(entered, i),
        QualifiedExpressionPartView::StringLitteral(s) => walked_string_litteral::<V>(entered, s),
        QualifiedExpressionPartView::Char(c) => walked_char::<V>(entered, c),
        QualifiedExpressionPartView::Boolean(b) => walked_boolean::<V>(entered, b),
        QualifiedExpressionPartView::Null => entered,
        QualifiedExpressionPartView::Closure(c) => walked_closure::<V>(entered, c),
        QualifiedExpressionPartView::ParenExpr(e) => walked_expression::<V>(entered, e),
    };
    V::step(inside, EventView::Leave(NodeView::QualifiedExpressionPart(n)))
}

/// The state after the parts of a chain, in order.
pub open spec fn walked_parts<V: AstVisitor>(state: V::V, nodes: Seq<QualifiedExpressionPartView>) -> V::V
    decreases nodes,
{
    if nodes.len() == 0 {
        state
    } else {
        walked_qualified_expression_part::<V>(walked_parts::<V>(state, nodes.drop_last()), nodes.last())
    }
}

/// The state after a statement.
pub open spec fn walked_statement<V: AstVisitor>(state: V::V, n: StatementView) -> V::V
    decreases n,
{
    let entered = V::step(state, EventView::Enter(NodeView::Statement(n)));
    let inside = match n {
        StatementView::ReturnStatement { expr, pos: _ } => walked_optional_expression::<V>(
            entered,
            expr,
        ),
        StatementView::Declaration(d) => walked_variable_declaration::<V>(entered, d),
        StatementView::Affectation(a) => walked_variable_affectation::<V>(entered, a),
        StatementView::QualifiedExpression(q) => walked_qualified_expression::<V>(entered, q),
    };
    V::step(inside, EventView::Leave(NodeView::Statement(n)))
}

/// The state after the statements of a body, in order.
pub open spec fn walked_statements<V: AstVisitor>(state: V::V, nodes: Seq<StatementView>) -> V::V
    decreases nodes,
{
    if nodes.len() == 0 {
        state
    } else {
        walked_statement::<V>(walked_statements::<V>(state, nodes.drop_last()), nodes.last())
    }
}

/// The state after a closure: its parameters, then its statements.
pub open spec fn walked_closure<V: AstVisitor>(state: V::V, n: ClosureView) -> V::V
    decreases n,
{
    let entered = V::step(state, EventView::Enter(NodeView::Closure(n)));
    let inside = walked_statements::<V>(walked_params::<V>(entered, n.params), n.statements);
    V::step(inside, EventView::Leave(NodeView::Closure(n)))
}

/// The state after a declaration: its initial value, where it has one.
pub open spec fn walked_variable_declaration<V: AstVisitor>(
    state: V::V,
    n: VariableDeclarationView,
) -> V::V
    decreases n,
{
    let entered = V::step(state, EventView::Enter(NodeView::VariableDeclaration(n)));
    let inside = walked_optional_expression::<V>(entered, n.value);
    V::step(inside, EventView::Leave(NodeView::VariableDeclaration(n)))
}

/// The state after an assignment: the receiver, then the value.
pub open spec fn walked_variable_affectation<V: AstVisitor>(
    state: V::V,
    n: VariableAffectationView,
) -> V::V
    decreases n,
{
    let entered = V::step(state, EventView::Enter(NodeView::VariableAffectation(n)));
    let inside = walked_expression::<V>(
        walked_qualified_expression::<V>(entered, n.receiver),
        n.value,
    );
    V::step(inside, EventView::Leave(NodeView::VariableAffectation(n)))
}

/// The state after a class: its attributes, then its members.
pub open spec fn walked_class<V: AstVisitor>(state: V::V, n: ClassView) -> V::V
    decreases n,
{
    let entered = V::step(state, EventView::Enter(NodeView::Class(n)));
    let inside = walked_members::<V>(walked_attributes::<V>(entered, n.attributes), n.members);
    V::step(inside, EventView::Leave(NodeView::Class(n)))
}

/// The state after a member of a class or block.
pub open spec fn walked_class_member<V: AstVisitor>(state: V::V, n: ClassMemberView) -> V::V
    decreases n,
{
    let entered = V::step(state, EventView::Enter(NodeView::ClassMember(n)));
    let inside = match n {
        ClassMemberView::Field(f) => walked_field::<V>(entered, f),
        ClassMemberView::Method(m) => walked_function::<V>(entered, m),
        ClassMemberView::Block(b) => walked_block::<V>(entered, b),
    };
    V::step(inside, EventView::Leave(NodeView::ClassMember(n)))
}

/// The state after the members of a class or block, in order.
pub open spec fn walked_members<V: AstVisitor>(state: V::V, nodes: Seq<ClassMemberView>) -> V::V
    decreases nodes,
{
    if nodes.len() == 0 {
        state
    } else {
        walked_class_member::<V>(walked_members::<V>(state, nodes.drop_last()), nodes.last())
    }
}

/// The state after a block: its attributes, then its members.
pub open spec fn walked_block<V: AstVisitor>(state: V::V, n: BlockView) -> V::V
    decreases n,
{
    let entered = V::step(state, EventView::Enter(NodeView::Block(n)));
    let inside = walked_members::<V>(walked_attributes::<V>(entered, n.attributes), n.members);
    V::step(inside, EventView::Leave(NodeView::Block(n)))
}

/// The state after a field: its attributes.
pub open spec fn walked_field<V: AstVisitor>(state: V::V, n: FieldView) -> V::V
    decreases n,
{
    let entered = V::step(state, EventView::Enter(NodeView::Field(n)));
    let inside = walked_attributes::<V>(entered, n.attributes);
    V::step(inside, EventView::Leave(NodeView::Field(n)))
}

/// The state after an identifier.
pub open spec fn walked_identifier<V: AstVisitor>(state: V::V, n: IdentifierView) -> V::V {
    touched::<V>(state, NodeView::Identifier(n))
}

/// The state after an integer literal.
pub open spec fn walked_integer<V: AstVisitor>(state: V::V, n: IntegerView) -> V::V {
    touched::<V>(state, NodeView::Integer(n))
}

/// The state after a string literal.
pub open spec fn walked_string_litteral<V: AstVisitor>(state: V::V, n: StringLitteralView) -> V::V {
    touched::<V>(state, NodeView::StringLitteral(n))
}

/// The state after a boolean literal.
pub open spec fn walked_boolean<V: AstVisitor>(state: V::V, n: BooleanView) -> V::V {
    touched::<V>(state, NodeView::Boolean(n))
}

/// The state after a character literal.
pub open spec fn walked_char<V: AstVisitor>(state: V::V, n: CharView) -> V::V {
    touched::<V>(state, NodeView::Char(n))
}

/// Walks a file: every declaration, in order.
pub fn visit_file<V: AstVisitor>(v: &mut V, n: &File)
    ensures
        final(v)@ == walked_file::<V>(old(v)@, n@),
    decreases n@,
{
    v.visit(Event::Enter(Node::File(n)));
    visit_entities(v, n.get_entities());
    v.visit(Event::Leave(Node::File(n)));
}

/// Walks the declarations of a file, in order.
pub fn visit_entities<V: AstVisitor>(v: &mut V, nodes: &Vec<FirstClassEntity>)
    ensures
        final(v)@ == walked_entities::<V>(old(v)@, view_seq(nodes@)),
{
    let ghost all = view_seq(nodes@);
    let mut i: usize = 0;
    proof {
        assert(all.take(0) =~= Seq::empty());
    }
    while i < nodes.len()
        invariant
            i <= nodes.len(),
            all == view_seq(nodes@),
            v@ == walked_entities::<V>(old(v)@, all.take(i as int)),
        decreases nodes.len() - i,
    {
        proof {
            assert(all.take(i as int + 1).drop_last() =~= all.take(i as int));
            assert(all.take(i as int + 1).last() == all[i as int]);
            assert(all[i as int] == nodes@[i as int]@);
        }
        match &nodes[i] {
            FirstClassEntity::Function(f) => {
                visit_function(v, f);
            },
            FirstClassEntity::Class(c) => {
                visit_class(v, c);
            },
        }
        i += 1;
    }
    proof {
        assert(all.take(nodes.len() as int) =~= all);
    }
}

/// Walks an attribute.
pub fn visit_attribute<V: AstVisitor>(v: &mut V, n: &Attribute)
    ensures
        final(v)@ == walked_attribute::<V>(old(v)@, n@),
{
    v.visit(Event::Enter(Node::Attribute(n)));
    v.visit(Event::Leave(Node::Attribute(n)));
}

/// Walks a list of attributes, in order.
pub fn visit_attributes<V: AstVisitor>(v: &mut V, nodes: &Vec<Attribute>)
    ensures
        final(v)@ == walked_attributes::<V>(old(v)@, view_seq(nodes@)),
{
    let ghost all = view_seq(nodes@);
    let mut i: usize = 0;
    proof {
        assert(all.take(0) =~= Seq::empty());
    }
    while i < nodes.len()
        invariant
            i <= nodes.len(),
            all == view_seq(nodes@),
            v@ == walked_attributes::<V>(old(v)@, all.take(i as int)),
        decreases nodes.len() - i,
    {
        proof {
            assert(all.take(i as int + 1).drop_last() =~= all.take(i as int));
            assert(all.take(i as int + 1).last() == all[i as int]);
            assert(all[i as int] == nodes@[i as int]@);
        }
        visit_attribute(v, &nodes[i]);
        i += 1;
    }
    proof {
        assert(all.take(nodes.len() as int) =~= all);
    }
}

/// Walks a list of parameters, in order.
pub fn visit_params<V: AstVisitor>(v: &mut V, nodes: &Vec<Param>)
    ensures
        final(v)@ == walked_params::<V>(old(v)@, view_seq(nodes@)),
{
    let ghost all = view_seq(nodes@);
    let mut i: usize = 0;
    proof {
        assert(all.take(0) =~= Seq::empty());
    }
    while i < nodes.len()
        invariant
            i <= nodes.len(),
            all == view_seq(nodes@),
            v@ == walked_params::<V>(old(v)@, all.take(i as int)),
        decreases nodes.len() - i,
    {
        proof {
            assert(all.take(i as int + 1).drop_last() =~= all.take(i as int));
            assert(all.take(i as int + 1).last() == all[i as int]);
            assert(all[i as int] == nodes@[i as int]@);
        }
        visit_param(v, &nodes[i]);
        i += 1;
    }
    proof {
        assert(all.take(nodes.len() as int) =~= all);
    }
}

/// Walks a function: its attributes, its parameters, then its statements.
pub fn visit_function<V: AstVisitor>(v: &mut V, n: &Function)
    ensures
        final(v)@ == walked_function::<V>(old(v)@, n@),
    decreases n@,
{
    v.visit(Event::Enter(Node::Function(n)));
    visit_attributes(v, n.attributes());
    visit_params(v, n.params());
    visit_statements(v, n.statements());
    v.visit(Event::Leave(Node::Function(n)));
}

/// Walks a call: its arguments, in order.
pub fn visit_function_call<V: AstVisitor>(v: &mut V, n: &FunctionCall)
    ensures
        final(v)@ == walked_function_call::<V>(old(v)@, n@),
    decreases n@,
{
    v.visit(Event::Enter(Node::FunctionCall(n)));
    visit_expressions(v, n.param_exprs());
    v.visit(Event::Leave(Node::FunctionCall(n)));
}

/// Walks a parameter.
pub fn visit_param<V: AstVisitor>(v: &mut V, n: &Param)
    ensures
        final(v)@ == walked_param::<V>(old(v)@, n@),
{
    v.visit(Event::Enter(Node::Param(n)));
    v.visit(Event::Leave(Node::Param(n)));
}

/// Walks an operation: its left operand, then its right operand.
pub fn visit_operation<V: AstVisitor>(v: &mut V, n: &Operation)
    ensures
        final(v)@ == walked_operation::<V>(old(v)@, n@),
    decreases n@,
{
    v.visit(Event::Enter(Node::Operation(n)));
    visit_expression(v, n.get_lval());
    visit_expression(v, n.get_rval());
    v.visit(Event::Leave(Node::Operation(n)));
}

/// Walks an expression.
pub fn visit_expression<V: AstVisitor>(v: &mut V, n: &Expression)
    ensures
        final(v)@ == walked_expression::<V>(old(v)@, n@),
    decreases n@,
{
    v.visit(Event::Enter(Node::Expression(n)));
    match n {
        Expression::Operation(o) => {
            proof {
                assert(n@->Operation_0 == o@);
            }
            visit_operation(v, o);
        },
        Expression::Expr(q) => {
            proof {
                assert(n@->Expr_0 == q@);
            }
            visit_qualified_expression(v, q);
        },
    }
    v.visit(Event::Leave(Node::Expression(n)));
}

/// Walks a list of expressions, in order.
pub fn visit_expressions<V: AstVisitor>(v: &mut V, nodes: &Vec<Expression>)
    ensures
        final(v)@ == walked_expressions::<V>(old(v)@, view_expressions(nodes@)),
    decreases view_expressions(nodes@),
{
    let ghost all = view_expressions(nodes@);
    let mut i: usize = 0;
    proof {
        assert(all.take(0) =~= Seq::empty());
    }
    while i < nodes.len()
        invariant
            i <= nodes.len(),
            all == view_expressions(nodes@),
            v@ == walked_expressions::<V>(old(v)@, all.take(i as int)),
        decreases nodes.len() - i,
    {
        proof {
            assert(all.take(i as int + 1).drop_last() =~= all.take(i as int));
            assert(all.take(i as int + 1).last() == all[i as int]);
            assert(all[i as int] == nodes@[i as int]@);
            assert(decreases_to!(all => all[i as int]));
        }
        visit_expression(v, &nodes[i]);
        i += 1;
    }
    proof {
        assert(all.take(nodes.len() as int) =~= all);
    }
}

/// Walks a chain: its parts, in order.
pub fn visit_qualified_expression<V: AstVisitor>(v: &mut V, n: &QualifiedExpression)
    ensures
        final(v)@ == walked_qualified_expression::<V>(old(v)@, n@),
    decreases n@,
{
    v.visit(Event::Enter(Node::QualifiedExpression(n)));
    visit_parts(v, n.get_parts());
    v.visit(Event::Leave(Node::QualifiedExpression(n)));
}

/// Walks the parts of a chain, in order.
pub fn visit_parts<V: AstVisitor>(v: &mut V, nodes: &Vec<QualifiedExpressionPart>)
    ensures
        final(v)@ == walked_parts::<V>(old(v)@, view_parts(nodes@)),
    decreases view_parts(nodes@),
{
    let ghost all = view_parts(nodes@);
    let mut i: usize = 0;
    proof {
        assert(all.take(0) =~= Seq::empty());
    }
    while i < nodes.len()
        invariant
            i <= nodes.len(),
            all == view_parts(nodes@),
            v@ == walked_parts::<V>(old(v)@, all.take(i as int)),
        decreases nodes.len() - i,
    {
        proof {
            assert(all.take(i as int + 1).drop_last() =~= all.take(i as int));
            assert(all.take(i as int + 1).last() == all[i as int]);
            assert(all[i as int] == nodes@[i as int]@);
            assert(decreases_to!(all => all[i as int]));
        }
        visit_qualified_expression_part(v, &nodes[i]);
        i += 1;
    }
    proof {
        assert(all.take(nodes.len() as int) =~= all);
    }
}

/// Walks one part of a chain.
pub fn visit_qualified_expression_part<V: AstVisitor>(v: &mut V, n: &QualifiedExpressionPart)
    ensures
        final(v)@ == walked_qualified_expression_part::<V>(old(v)@, n@),
    decreases n@,
{
    v.visit(Event::Enter(Node::QualifiedExpressionPart(n)));
    match n {
        QualifiedExpressionPart::MethodCall(f) => {
            proof {
                assert(n@->MethodCall_0 == f@);
            }
            visit_function_call(v, f);
        },
        QualifiedExpressionPart::Closure(c) => {
            proof {
                assert(n@->Closure_0 == c@);
            }
            visit_closure(v, c);
        },
        QualifiedExpressionPart::ParenExpr(e) => {
            proof {
                assert(n@->ParenExpr_0 == e@);
            }
            visit_expression(v, e);
        },
        QualifiedExpressionPart::Identifier(i) => {
            visit_identifier(v, i);
        },
        QualifiedExpressionPart::Integer(i) => {
            visit_integer(v, i);
        },
        QualifiedExpressionPart::StringLitteral(s) => {
            visit_string_litteral(v, s);
        },
        QualifiedExpressionPart::Char(c) => {
            visit_char(v, c);
        },
        QualifiedExpressionPart::Boolean(b) => {
            visit_boolean(v, b);
        },
        QualifiedExpressionPart::Null => {},
    }
    v.visit(Event::Leave(Node::QualifiedExpressionPart(n)));
}

/// Walks a statement.
pub fn visit_statement<V: AstVisitor>(v: &mut V, n: &Statement)
    ensures
        final(v)@ == walked_statement::<V>(old(v)@, n@),
    decreases n@,
{
    v.visit(Event::Enter(Node::Statement(n)));
    match n {
        Statement::ReturnStatement { expr, pos: _ } => {
            match expr {
                Some(e) => {
                    proof {
                        assert(n@->ReturnStatement_expr == Some(e@));
                        assert(n@->ReturnStatement_expr->Some_0 == e@);
                    }
                    visit_expression(v, e);
                },
                None => {},
            }
        },
        Statement::Declaration(d) => {
            proof {
                assert(n@->Declaration_0 == d@);
            }
            visit_variable_declaration(v, d);
        },
        Statement::Affectation(a) => {
            proof {
                assert(n@->Affectation_0 == a@);
            }
            visit_variable_affectation(v, a);
        },
        Statement::QualifiedExpression(q) => {
            proof {
                assert(n@->QualifiedExpression_0 == q@);
            }
            visit_qualified_expression(v, q);
        },
    }
    v.visit(Event::Leave(Node::Statement(n)));
}

/// Walks the statements of a body, in order.
pub fn visit_statements<V: AstVisitor>(v: &mut V, nodes: &Vec<Statement>)
    ensures
        final(v)@ == walked_statements::<V>(old(v)@, view_statements(nodes@)),
    decreases view_statements(nodes@),
{
    let ghost all = view_statements(nodes@);
    let mut i: usize = 0;
    proof {
        assert(all.take(0) =~= Seq::empty());
    }
    while i < nodes.len()
        invariant
            i <= nodes.len(),
            all == view_statements(nodes@),
            v@ == walked_statements::<V>(old(v)@, all.take(i as int)),
        decreases nodes.len() - i,
    {
        proof {
            assert(all.take(i as int + 1).drop_last() =~= all.take(i as int));
            assert(all.take(i as int + 1).last() == all[i as int]);
            assert(all[i as int] == nodes@[i as int]@);
            assert(decreases_to!(all => all[i as int]));
        }
        visit_statement(v, &nodes[i]);
        i += 1;
    }
    proof {
        assert(all.take(nodes.len() as int) =~= all);
    }
}

/// Walks a closure: its parameters, then its statements.
pub fn visit_closure<V: AstVisitor>(v: &mut V, n: &Closure)
    ensures
        final(v)@ == walked_closure::<V>(old(v)@, n@),
    decreases n@,
{
    v.visit(Event::Enter(Node::Closure(n)));
    visit_params(v, n.params());
    visit_statements(v, n.statements());
    v.visit(Event::Leave(Node::Closure(n)));
}

/// Walks a declaration: its initial value, where it has one.
pub fn visit_variable_declaration<V: AstVisitor>(v: &mut V, n: &VariableDeclaration)
    ensures
        final(v)@ == walked_variable_declaration::<V>(old(v)@, n@),
    decreases n@,
{
    v.visit(Event::Enter(Node::VariableDeclaration(n)));
    match n.get_value() {
        Some(e) => {
            proof {
                assert(n@.value->Some_0 == e@);
            }
            visit_expression(v, e);
        },
        None => {},
    }
    v.visit(Event::Leave(Node::VariableDeclaration(n)));
}

/// Walks an assignment: the receiver, then the value.
pub fn visit_variable_affectation<V: AstVisitor>(v: &mut V, n: &VariableAffectation)
    ensures
        final(v)@ == walked_variable_affectation::<V>(old(v)@, n@),
    decreases n@,
{
    v.visit(Event::Enter(Node::VariableAffectation(n)));
    visit_qualified_expression(v, n.get_receiver());
    visit_expression(v, n.get_value());
    v.visit(Event::Leave(Node::VariableAffectation(n)));
}

/// Walks a class: its attributes, then its members.
pub fn visit_class<V: AstVisitor>(v: &mut V, n: &Class)
    ensures
        final(v)@ == walked_class::<V>(old(v)@, n@),
    decreases n@,
{
    v.visit(Event::Enter(Node::Class(n)));
    visit_attributes(v, n.attributes());
    visit_members(v, n.members());
    v.visit(Event::Leave(Node::Class(n)));
}

/// Walks a member of a class or block.
pub fn visit_class_member<V: AstVisitor>(v: &mut V, n: &ClassMember)
    ensures
        final(v)@ == walked_class_member::<V>(old(v)@, n@),
    decreases n@,
{
    v.visit(Event::Enter(Node::ClassMember(n)));
    match n {
        ClassMember::Field(f) => {
            visit_field(v, f);
        },
        ClassMember::Method(m) => {
            visit_function(v, m);
        },
        ClassMember::Block(b) => {
            proof {
                assert(n@->Block_0 == b@);
            }
            visit_block(v, b);
        },
    }
    v.visit(Event::Leave(Node::ClassMember(n)));
}

/// Walks the members of a class or block, in order.
pub fn visit_members<V: AstVisitor>(v: &mut V, nodes: &Vec<ClassMember>)
    ensures
        final(v)@ == walked_members::<V>(old(v)@, view_members(nodes@)),
    decreases view_members(nodes@),
{
    let ghost all = view_members(nodes@);
    let mut i: usize = 0;
    proof {
        assert(all.take(0) =~= Seq::empty());
    }
    while i < nodes.len()
        invariant
            i <= nodes.len(),
            all == view_members(nodes@),
            v@ == walked_members::<V>(old(v)@, all.take(i as int)),
        decreases nodes.len() - i,
    {
        proof {
            assert(all.take(i as int + 1).drop_last() =~= all.take(i as int));
            assert(all.take(i as int + 1).last() == all[i as int]);
            assert(all[i as int] == nodes@[i as int]@);
            assert(decreases_to!(all => all[i as int]));
        }
        visit_class_member(v, &nodes[i]);
        i += 1;
    }
    proof {
        assert(all.take(nodes.len() as int) =~= all);
    }
}

/// Walks a block: its attributes, then its members.
pub fn visit_block<V: AstVisitor>(v: &mut V, n: &Block)
    ensures
        final(v)@ == walked_block::<V>(old(v)@, n@),
    decreases n@,
{
    v.visit(Event::Enter(Node::Block(n)));
    visit_attributes(v, n.attributes());
    visit_members(v, n.members());
    v.visit(Event::Leave(Node::Block(n)));
}

/// Walks a field: its attributes.
pub fn visit_field<V: AstVisitor>(v: &mut V, n: &Field)
    ensures
        final(v)@ == walked_field::<V>(old(v)@, n@),
    decreases n@,
{
    v.visit(Event::Enter(Node::Field(n)));
    visit_attributes(v, n.attributes());
    v.visit(Event::Leave(Node::Field(n)));
}

/// Walks an identifier.
pub fn visit_identifier<V: AstVisitor>(v: &mut V, n: &Identifier)
    ensures
        final(v)@ == walked_identifier::<V>(old(v)@, n@),
{
    v.visit(Event::Enter(Node::Identifier(n)));
    v.visit(Event::Leave(Node::Identifier(n)));
}

/// Walks an integer literal.
pub fn visit_integer<V: AstVisitor>(v: &mut V, n: &Integer)
    ensures
        final(v)@ == walked_integer::<V>(old(v)@, n@),
{
    v.visit(Event::Enter(Node::Integer(n)));
    v.visit(Event::Leave(Node::Integer(n)));
}

/// Walks a string literal.
pub fn visit_string_litteral<V: AstVisitor>(v: &mut V, n: &StringLitteral)
    ensures
        final(v)@ == walked_string_litteral::<V>(old(v)@, n@),
{
    v.visit(Event::Enter(Node::StringLitteral(n)));
    v.visit(Event::Leave(Node::StringLitteral(n)));
}

/// Walks a boolean literal.
pub fn visit_boolean<V: AstVisitor>(v: &mut V, n: &Boolean)
    ensures
        final(v)@ == walked_boolean::<V>(old(v)@, n@),
{
    v.visit(Event::Enter(Node::Boolean(n)));
    v.visit(Event::Leave(Node::Boolean(n)));
}

/// Walks a character literal.
pub fn visit_char<V: AstVisitor>(v: &mut V, n: &Char)
    ensures
        final(v)@ == walked_char::<V>(old(v)@, n@),
{
    v.visit(Event::Enter(Node::Char(n)));
    v.visit(Event::Leave(Node::Char(n)));
}

} // verus!
