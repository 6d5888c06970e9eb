use vstd::prelude::*;
use crate::parser::{view_nodes, ParseNode, ParseNodeView, Rule};
use crate::ast::node::{all_some, opt_view};
use super::closure::{Closure, ClosureView};
use super::function::{FunctionCall, FunctionCallView};
use super::litterals::{
    Boolean, BooleanView, Char, CharView, Identifier, IdentifierView, Integer, IntegerView,
    StringLitteral, StringLitteralView,
};

verus! {

/// Model of a [`QualifiedExpressionPart`].
pub enum QualifiedExpressionPartView {
    MethodCall(FunctionCallView),
    Identifier(IdentifierView),
    Integer(IntegerView),
    StringLitteral(StringLitteralView),
    Char(CharView),
    Boolean(BooleanView),
    Null,
    Closure(ClosureView),
    ParenExpr(ExpressionView),
}

/// Model of a [`QualifiedExpression`].
pub struct QualifiedExpressionView {
    pub pos: (usize, usize),
    pub parts: Seq<QualifiedExpressionPartView>,
}

/// Model of an [`Expression`].
pub enum ExpressionView {
    Operation(OperationView),
    Expr(QualifiedExpressionView),
}

/// Model of an [`Operation`].
pub struct OperationView {
    pub lval: Box<ExpressionView>,
    pub rval: Box<ExpressionView>,
    pub op: OperationType,
}

/// One link of a chain such as `a.b().c`.
#[derive(Debug)]
pub enum QualifiedExpressionPart {
    MethodCall(FunctionCall),
    Identifier(Identifier),
    Integer(Integer),
    StringLitteral(StringLitteral),
    Char(Char),
    Boolean(Boolean),
    Null,
    Closure(Closure),
    ParenExpr(Expression),
}

/// A chain of member accesses, calls and literals.
#[derive(Debug)]
pub struct QualifiedExpression {
    pos: (usize, usize),
    parts: Vec<QualifiedExpressionPart>,
}

/// A binary operation or a plain chain.
#[derive(Debug)]
pub enum Expression {
    Operation(Operation),
    Expr(QualifiedExpression),
}

/// A binary operation; each operand is owned by the operation.
#[derive(Debug)]
pub struct Operation {
    lval: Box<Expression>,
    rval: Box<Expression>,
    op: OperationType,
}

/// The binary operators.
#[derive(Clone, Copy, Debug, PartialEq, Eq, Structural)]
pub enum OperationType {
    Eqal,
    NotEqual,
    GreaterOrEqual,
    LowerOrEqual,
    GreaterThan,
    LowerThan,
    Add,
    Minus,
    Times,
    Div,
    Mod,
}

impl QualifiedExpressionPart {
    pub open spec fn model(&self) -> QualifiedExpressionPartView
        decreases self,
    {
        match self {
            QualifiedExpressionPart::MethodCall(f) => QualifiedExpressionPartView::MethodCall(
                f.model(),
            ),
            QualifiedExpressionPart::Identifier(i) => QualifiedExpressionPartView::Identifier(i@),
            QualifiedExpressionPart::Integer(i) => QualifiedExpressionPartView::Integer(i@),
            QualifiedExpressionPart::StringLitteral(s) => {
                QualifiedExpressionPartView::StringLitteral(s@)
            },
            QualifiedExpressionPart::Char(c) => QualifiedExpressionPartView::Char(c@),
            QualifiedExpressionPart::Boolean(b) => QualifiedExpressionPartView::Boolean(b@),
            QualifiedExpressionPart::Null => QualifiedExpressionPartView::Null,
            QualifiedExpressionPart::Closure(c) => QualifiedExpressionPartView::Closure(c.model()),
            QualifiedExpressionPart::ParenExpr(e) => QualifiedExpressionPartView::ParenExpr(
                e.model(),
            ),
        }
    }

    /// Where the part starts. `null` carries no position.
    pub fn get_pos(&self) -> (pos: (usize, usize))
        requires
            !(self is Null),
            self matches QualifiedExpressionPart::ParenExpr(e) ==> e is Expr,
        ensures
            pos == self@.pos(),
    {
        match self {
            QualifiedExpressionPart::Identifier(i) => i.get_pos(),
            QualifiedExpressionPart::MethodCall(f) => f.get_pos(),
            QualifiedExpressionPart::Integer(i) => i.get_pos(),
            QualifiedExpressionPart::StringLitteral(s) => s.get_pos(),
            QualifiedExpressionPart::Char(c) => c.get_pos(),
            QualifiedExpressionPart::Boolean(b) => b.get_pos(),
            QualifiedExpressionPart::Closure(c) => c.get_pos(),
            QualifiedExpressionPart::ParenExpr(e) => e.get_pos(),
            QualifiedExpressionPart::Null => (0, 0),
        }
    }
}

impl View for QualifiedExpressionPart {
    type V = QualifiedExpressionPartView;

    open spec fn view(&self) -> QualifiedExpressionPartView {
        self.model()
    }
}

impl QualifiedExpressionPartView {
    /// Where the part starts; `(0, 0)` where it carries no position.
    pub open spec fn pos(self) -> (usize, usize) {
        match self {
            QualifiedExpressionPartView::MethodCall(f) => f.pos,
            QualifiedExpressionPartView::Identifier(i) => i.pos,
            QualifiedExpressionPartView::Integer(i) => i.pos,
            QualifiedExpressionPartView::StringLitteral(s) => s.pos,
            QualifiedExpressionPartView::Char(c) => c.pos,
            QualifiedExpressionPartView::Boolean(b) => b.pos,
            QualifiedExpressionPartView::Null => (0, 0),
            QualifiedExpressionPartView::Closure(c) => c.pos,
            QualifiedExpressionPartView::ParenExpr(e) => e.pos(),
        }
    }
}

impl ExpressionView {
    /// Where the expression starts; `(0, 0)` for an operation, which carries
    /// no position of its own.
    pub open spec fn pos(self) -> (usize, usize) {
        match self {
            ExpressionView::Operation(_) => (0, 0),
            ExpressionView::Expr(q) => q.pos,
        }
    }
}

impl QualifiedExpression {
    pub closed spec fn model(&self) -> QualifiedExpressionView
        decreases self,
    {
        QualifiedExpressionView {
            pos: self.pos,
            parts: Seq::new(
                self.parts@.len(),
                |i: int|
                    if 0 <= i < self.parts@.len() {
                        self.parts@[i].model()
                    } else {
                        QualifiedExpressionPartView::Null
                    },
            ),
        }
    }

    pub fn new(pos: (usize, usize), parts: Vec<QualifiedExpressionPart>) -> (node: Self)
        ensures
            node@ == (QualifiedExpressionView { pos, parts: view_parts(parts@) }),
    {
        let node = QualifiedExpression { pos, parts };
        assert(node.model().parts =~= view_parts(node.parts@));
        node
    }

    pub fn get_parts(&self) -> (parts: &Vec<QualifiedExpressionPart>)
        ensures
            view_parts(parts@) == self@.parts,
    {
        assert(self.model().parts =~= view_parts(self.parts@));
        &self.parts
    }

    pub fn get_pos(&self) -> (pos: (usize, usize))
        ensures
            pos == self@.pos,
    {
        self.pos
    }
}

impl View for QualifiedExpression {
    type V = QualifiedExpressionView;

    open spec fn view(&self) -> QualifiedExpressionView {
        self.model()
    }
}

/// The models of the parts of a chain, in order.
pub open spec fn view_parts(s: Seq<QualifiedExpressionPart>) -> Seq<QualifiedExpressionPartView> {
    Seq::new(s.len(), |i: int| s[i]@)
}

/// The models of a list of expressions, in order.
pub open spec fn view_expressions(s: Seq<Expression>) -> Seq<ExpressionView> {
    Seq::new(s.len(), |i: int| s[i]@)
}

/// The model of an optional expression.
pub open spec fn view_optional_expression(e: Option<Expression>) -> Option<ExpressionView> {
    match e {
        Some(e) => Some(e@),
        None => None,
    }
}

impl Expression {
    pub open spec fn model(&self) -> ExpressionView
        decreases self,
    {
        match self {
            Expression::Operation(o) => ExpressionView::Operation(o.model()),
            Expression::Expr(q) => ExpressionView::Expr(q.model()),
        }
    }

    /// Where the expression starts. An operation carries no position.
    pub fn get_pos(&self) -> (pos: (usize, usize))
        requires
            self is Expr,
        ensures
            pos == self@.pos(),
    {
        match self {
            Expression::Expr(e) => e.get_pos(),
            Expression::Operation(_) => (0, 0),
        }
    }
}

impl View for Expression {
    type V = ExpressionView;

    open spec fn view(&self) -> ExpressionView {
        self.model()
    }
}

impl Operation {
    pub closed spec fn model(&self) -> OperationView
        decreases self,
    {
        OperationView {
            lval: Box::new(self.lval.model()),
            rval: Box::new(self.rval.model()),
            op: self.op,
        }
    }

    pub fn new(lval: Expression, rval: Expression, op: OperationType) -> (node: Self)
        ensures
            node@ == (OperationView { lval: Box::new(lval@), rval: Box::new(rval@), op }),
    {
        Operation { lval: Box::new(lval), rval: Box::new(rval), op }
    }

    pub fn get_lval(&self) -> (lval: &Expression)
        ensures
            lval@ == *self@.lval,
    {
        &*self.lval
    }

    pub fn get_rval(&self) -> (rval: &Expression)
        ensures
            rval@ == *self@.rval,
    {
        &*self.rval
    }

    pub fn get_op(&self) -> (op: OperationType)
        ensures
            op == self@.op,
    {
        self.op
    }
}

impl View for Operation {
    type V = OperationView;

    open spec fn view(&self) -> OperationView {
        self.model()
    }
}

/// The operator that an operator rule stands for.
pub open spec fn operation_type(rule: Rule) -> Option<OperationType> {
    match rule {
        Rule::EqOp => Some(OperationType::Eqal),
        Rule::NeOp => Some(OperationType::NotEqual),
        Rule::GtOp => Some(OperationType::GreaterThan),
        Rule::GeOp => Some(OperationType::GreaterOrEqual),
        Rule::LtOp => Some(OperationType::LowerThan),
        Rule::LeOp => Some(OperationType::LowerOrEqual),
        Rule::AdOp => Some(OperationType::Add),
        Rule::MnOp => Some(OperationType::Minus),
        Rule::TmOp => Some(OperationType::Times),
        Rule::DvOp => Some(OperationType::Div),
        Rule::MdOp => Some(OperationType::Mod),
        _ => None,
    }
}

impl OperationType {
    /// The operator that an operator rule stands for.
    pub fn from_rule(rule: Rule) -> (op: Option<OperationType>)
        ensures
            op == operation_type(rule),
    {
        match rule {
            Rule::EqOp => Some(OperationType::Eqal),
            Rule::NeOp => Some(OperationType::NotEqual),
            Rule::GtOp => Some(OperationType::GreaterThan),
            Rule::GeOp => Some(OperationType::GreaterOrEqual),
            Rule::LtOp => Some(OperationType::LowerThan),
            Rule::LeOp => Some(OperationType::LowerOrEqual),
            Rule::AdOp => Some(OperationType::Add),
            Rule::MnOp => Some(OperationType::Minus),
            Rule::TmOp => Some(OperationType::Times),
            Rule::DvOp => Some(OperationType::Div),
            Rule::MdOp => Some(OperationType::Mod),
            _ => None,
        }
    }
}

impl QualifiedExpressionPartView {
    /// The part of a chain that a match stands for, by its rule.
    pub open spec fn from_pair(pair: ParseNodeView) -> Option<QualifiedExpressionPartView>
        decreases pair, 2nat,
    {
        match pair.rule {
            Rule::Ident => match IdentifierView::from_pair(pair) {
                Some(i) => Some(QualifiedExpressionPartView::Identifier(i)),
                None => None,
            },
            Rule::MethodCall => match FunctionCallView::from_pair(pair) {
                Some(f) => Some(QualifiedExpressionPartView::MethodCall(f)),
                None => None,
            },
            Rule::Integer => match IntegerView::from_pair(pair) {
                Some(i) => Some(QualifiedExpressionPartView::Integer(i)),
                None => None,
            },
            Rule::String => match StringLitteralView::from_pair(pair) {
                Some(s) => Some(QualifiedExpressionPartView::StringLitteral(s)),
                None => None,
            },
            Rule::Character => match CharView::from_pair(pair) {
                Some(c) => Some(QualifiedExpressionPartView::Char(c)),
                None => None,
            },
            Rule::Boolean => match BooleanView::from_pair(pair) {
                Some(b) => Some(QualifiedExpressionPartView::Boolean(b)),
                None => None,
            },
            Rule::Null => Some(QualifiedExpressionPartView::Null),
            Rule::Closure => match ClosureView::from_pair(pair) {
                Some(c) => Some(QualifiedExpressionPartView::Closure(c)),
                None => None,
            },
            Rule::Expression => match ExpressionView::from_pair(pair) {
                Some(e) => Some(QualifiedExpressionPartView::ParenExpr(e)),
                None => None,
            },
            _ => None,
        }
    }

    /// What each match of a list stands for.
    pub open spec fn from_each(pairs: Seq<ParseNodeView>) -> Seq<Option<QualifiedExpressionPartView>>
        decreases pairs, 0nat,
    {
        Seq::new(
            pairs.len(),
            |i: int|
                if 0 <= i < pairs.len() {
                    QualifiedExpressionPartView::from_pair(pairs[i])
                } else {
                    None
                },
        )
    }

    /// The nodes that a list of matches stands for, or `None` where one of
    /// them stands for none.
    pub open spec fn from_pairs(pairs: Seq<ParseNodeView>) -> Option<Seq<QualifiedExpressionPartView>>
        decreases pairs, 1nat,
    {
        all_some(QualifiedExpressionPartView::from_each(pairs))
    }
}

impl QualifiedExpressionView {
    /// The chain that a match of the `QualifiedExpression` or `QualifiedIdent`
    /// rule stands for: it has the position of the match, and its parts are
    /// what the children stand for.
    pub open spec fn from_pair(pair: ParseNodeView) -> Option<QualifiedExpressionView>
        decreases pair, 0nat,
    {
        if pair.rule == Rule::QualifiedExpression || pair.rule == Rule::QualifiedIdent {
            match QualifiedExpressionPartView::from_pairs(pair.children) {
                Some(parts) => Some(QualifiedExpressionView { pos: pair.pos, parts }),
                None => None,
            }
        } else {
            None
        }
    }
}

impl ExpressionView {
    /// The expression that an operand stands for: a chain stands for itself;
    /// an operator node stands for the operation on what its two children
    /// stand for.
    pub open spec fn from_operand(pair: ParseNodeView) -> Option<ExpressionView>
        decreases pair, 1nat,
    {
        if pair.rule == Rule::QualifiedExpression {
            match QualifiedExpressionView::from_pair(pair) {
                Some(q) => Some(ExpressionView::Expr(q)),
                None => None,
            }
        } else {
            match operation_type(pair.rule) {
                Some(op) => if pair.children.len() == 2 {
                    match (
                        ExpressionView::from_operand(pair.children[0]),
                        ExpressionView::from_operand(pair.children[1]),
                    ) {
                        (Some(lval), Some(rval)) => Some(
                            ExpressionView::Operation(
                                OperationView { lval: Box::new(lval), rval: Box::new(rval), op },
                            ),
                        ),
                        _ => None,
                    }
                } else {
                    None
                },
                None => None,
            }
        }
    }

    /// The expression that a match of the `Expression` rule stands for: what
    /// its one operand stands for.
    pub open spec fn from_pair(pair: ParseNodeView) -> Option<ExpressionView>
        decreases pair, 0nat,
    {
        if pair.rule == Rule::Expression && pair.children.len() == 1 {
            ExpressionView::from_operand(pair.children[0])
        } else {
            None
        }
    }

    /// What each match of a list stands for.
    pub open spec fn from_each(pairs: Seq<ParseNodeView>) -> Seq<Option<ExpressionView>>
        decreases pairs, 0nat,
    {
        Seq::new(
            pairs.len(),
            |i: int|
                if 0 <= i < pairs.len() {
                    ExpressionView::from_pair(pairs[i])
                } else {
                    None
                },
        )
    }

    /// The nodes that a list of matches stands for, or `None` where one of
    /// them stands for none.
    pub open spec fn from_pairs(pairs: Seq<ParseNodeView>) -> Option<Seq<ExpressionView>>
        decreases pairs, 1nat,
    {
        all_some(ExpressionView::from_each(pairs))
    }
}

impl QualifiedExpressionPart {
    pub fn from_pair(pair: &ParseNode) -> (node: Option<Self>)
        ensures
            opt_view(node) == QualifiedExpressionPartView::from_pair(pair@),
        decreases pair@, 2nat,
    {
        match pair.as_rule() {
            Rule::Ident => match Identifier::from_pair(pair) {
                Some(i) => Some(QualifiedExpressionPart::Identifier(i)),
                None => None,
            },
            Rule::MethodCall => match FunctionCall::from_pair(pair) {
                Some(f) => Some(QualifiedExpressionPart::MethodCall(f)),
                None => None,
            },
            Rule::Integer => match Integer::from_pair(pair) {
                Some(i) => Some(QualifiedExpressionPart::Integer(i)),
                None => None,
            },
            Rule::String => match StringLitteral::from_pair(pair) {
                Some(s) => Some(QualifiedExpressionPart::StringLitteral(s)),
                None => None,
            },
            Rule::Character => match Char::from_pair(pair) {
                Some(c) => Some(QualifiedExpressionPart::Char(c)),
                None => None,
            },
            Rule::Boolean => match Boolean::from_pair(pair) {
                Some(b) => Some(QualifiedExpressionPart::Boolean(b)),
                None => None,
            },
            Rule::Null => Some(QualifiedExpressionPart::Null),
            Rule::Closure => match Closure::from_pair(pair) {
                Some(c) => Some(QualifiedExpressionPart::Closure(c)),
                None => None,
            },
            Rule::Expression => match Expression::from_pair(pair) {
                Some(e) => Some(QualifiedExpressionPart::ParenExpr(e)),
                None => None,
            },
            _ => None,
        }
    }

    /// The nodes that a list of matches stands for, or `None` where one of
    /// them stands for none.
    pub fn from_pairs(pairs: &Vec<ParseNode>) -> (nodes: Option<Vec<QualifiedExpressionPart>>)
        ensures
            match nodes {
                Some(list) => QualifiedExpressionPartView::from_pairs(view_nodes(pairs@))
                    == Some(view_parts(list@)),
                None => QualifiedExpressionPartView::from_pairs(view_nodes(pairs@)) is None,
            },
        decreases view_nodes(pairs@), 1nat,
    {
        let ghost all = view_nodes(pairs@);
        let ghost items = QualifiedExpressionPartView::from_each(all);
        let mut nodes: Vec<QualifiedExpressionPart> = Vec::new();
        let mut i: usize = 0;
        while i < pairs.len()
            invariant
                i <= pairs.len(),
                all == view_nodes(pairs@),
                items == QualifiedExpressionPartView::from_each(all),
                items.len() == all.len(),
                nodes@.len() == i,
                forall|j: int| 0 <= j < i ==> items[j] == Some((#[trigger] nodes@[j])@),
            decreases pairs.len() - i,
        {
            proof {
                assert(all[i as int] == pairs@[i as int]@);
                assert(decreases_to!(all => all[i as int]));
            }
            let ghost expected = items[i as int];
            match QualifiedExpressionPart::from_pair(&pairs[i]) {
                Some(node) => {
                    assert(expected == Some(node@));
                    nodes.push(node);
                },
                None => {
                    assert(expected is None);
                    return None;
                },
            }
            i += 1;
        }
        proof {
            assert forall|j: int| 0 <= j < items.len() implies (#[trigger] items[j]) is Some by {
                assert(items[j] == Some(nodes@[j]@));
            }
            assert(view_parts(nodes@) =~= all_some(items)->Some_0);
        }
        Some(nodes)
    }
}

impl QualifiedExpression {
    pub fn from_pair(pair: &ParseNode) -> (node: Option<Self>)
        ensures
            opt_view(node) == QualifiedExpressionView::from_pair(pair@),
        decreases pair@, 0nat,
    {
        let rule = pair.as_rule();
        if rule == Rule::QualifiedExpression || rule == Rule::QualifiedIdent {
            match QualifiedExpressionPart::from_pairs(pair.children()) {
                Some(parts) => Some(QualifiedExpression::new(pair.get_pos(), parts)),
                None => None,
            }
        } else {
            None
        }
    }
}

impl Expression {
    /// The expression that an operand stands for.
    pub fn from_operand(pair: &ParseNode) -> (node: Option<Self>)
        ensures
            opt_view(node) == ExpressionView::from_operand(pair@),
        decreases pair@, 1nat,
    {
        if pair.as_rule() == Rule::QualifiedExpression {
            match QualifiedExpression::from_pair(pair) {
                Some(q) => Some(Expression::Expr(q)),
                None => None,
            }
        } else {
            match OperationType::from_rule(pair.as_rule()) {
                Some(op) => {
                    let children = pair.children();
                    if children.len() == 2 {
                        proof {
                            assert(pair@.children[0] == children@[0]@);
                            assert(pair@.children[1] == children@[1]@);
                        }
                        let lval = Expression::from_operand(&children[0]);
                        let rval = Expression::from_operand(&children[1]);
                        match (lval, rval) {
                            (Some(lval), Some(rval)) => Some(
                                Expression::Operation(Operation::new(lval, rval, op)),
                            ),
                            _ => None,
                        }
                    } else {
                        None
                    }
                },
                None => None,
            }
        }
    }

    pub fn from_pair(pair: &ParseNode) -> (node: Option<Self>)
        ensures
            opt_view(node) == ExpressionView::from_pair(pair@),
        decreases pair@, 0nat,
    {
        let children = pair.children();
        if pair.as_rule() == Rule::Expression && children.len() == 1 {
            proof {
                assert(pair@.children[0] == children@[0]@);
            }
            Expression::from_operand(&children[0])
        } else {
            None
        }
    }

    /// The nodes that a list of matches stands for, or `None` where one of
    /// them stands for none.
    pub fn from_pairs(pairs: &Vec<ParseNode>) -> (nodes: Option<Vec<Expression>>)
        ensures
            match nodes {
                Some(list) => ExpressionView::from_pairs(view_nodes(pairs@))
                    == Some(view_expressions(list@)),
                None => ExpressionView::from_pairs(view_nodes(pairs@)) is None,
            },
        decreases view_nodes(pairs@), 1nat,
    {
        let ghost all = view_nodes(pairs@);
        let ghost items = ExpressionView::from_each(all);
        let mut nodes: Vec<Expression> = Vec::new();
        let mut i: usize = 0;
        while i < pairs.len()
            invariant
                i <= pairs.len(),
                all == view_nodes(pairs@),
                items == ExpressionView::from_each(all),
                items.len() == all.len(),
                nodes@.len() == i,
                forall|j: int| 0 <= j < i ==> items[j] == Some((#[trigger] nodes@[j])@),
            decreases pairs.len() - i,
        {
            proof {
                assert(all[i as int] == pairs@[i as int]@);
                assert(decreases_to!(all => all[i as int]));
            }
            let ghost expected = items[i as int];
            match Expression::from_pair(&pairs[i]) {
                Some(node) => {
                    assert(expected == Some(node@));
                    nodes.push(node);
                },
                None => {
                    assert(expected is None);
                    return None;
                },
            }
            i += 1;
        }
        proof {
            assert forall|j: int| 0 <= j < items.len() implies (#[trigger] items[j]) is Some by {
                assert(items[j] == Some(nodes@[j]@));
            }
            assert(view_expressions(nodes@) =~= all_some(items)->Some_0);
        }
        Some(nodes)
    }
}

impl QualifiedExpressionPart {
    /// A copy of the part and all below it.
    pub fn duplicate(&self) -> (copy: Self)
        ensures
            copy@ == self@,
        decreases self@,
    {
        match self {
            QualifiedExpressionPart::MethodCall(f) => {
                proof {
                    assert(self@->MethodCall_0 == f@);
                }
                QualifiedExpressionPart::MethodCall(f.duplicate())
            },
            QualifiedExpressionPart::Identifier(i) => QualifiedExpressionPart::Identifier(i.clone()),
            QualifiedExpressionPart::Integer(i) => QualifiedExpressionPart::Integer(i.clone()),
            QualifiedExpressionPart::StringLitteral(s) => QualifiedExpressionPart::StringLitteral(
                s.clone(),
            ),
            QualifiedExpressionPart::Char(c) => QualifiedExpressionPart::Char(c.clone()),
            QualifiedExpressionPart::Boolean(b) => QualifiedExpressionPart::Boolean(b.clone()),
            QualifiedExpressionPart::Null => QualifiedExpressionPart::Null,
            QualifiedExpressionPart::Closure(c) => {
                proof {
                    assert(self@->Closure_0 == c@);
                }
                QualifiedExpressionPart::Closure(c.duplicate())
            },
            QualifiedExpressionPart::ParenExpr(e) => {
                proof {
                    assert(self@->ParenExpr_0 == e@);
                }
                QualifiedExpressionPart::ParenExpr(e.duplicate())
            },
        }
    }
}

/// A copy of the parts of a chain.
pub fn copy_parts(nodes: &Vec<QualifiedExpressionPart>) -> (copy: Vec<QualifiedExpressionPart>)
    ensures
        view_parts(copy@) == view_parts(nodes@),
    decreases view_parts(nodes@),
{
    let ghost all = view_parts(nodes@);
    let mut copy: Vec<QualifiedExpressionPart> = Vec::new();
    let mut i: usize = 0;
    while i < nodes.len()
        invariant
            i <= nodes.len(),
            all == view_parts(nodes@),
            copy@.len() == i,
            forall|j: int| 0 <= j < i ==> (#[trigger] copy@[j])@ == nodes@[j]@,
        decreases nodes.len() - i,
    {
        proof {
            assert(all[i as int] == nodes@[i as int]@);
            assert(decreases_to!(all => all[i as int]));
        }
        copy.push(nodes[i].duplicate());
        i += 1;
    }
    proof {
        assert(view_parts(copy@) =~= view_parts(nodes@));
    }
    copy
}

impl QualifiedExpression {
    /// A copy of the chain and all below it.
    pub fn duplicate(&self) -> (copy: Self)
        ensures
            copy@ == self@,
        decreases self@,
    {
        QualifiedExpression::new(self.get_pos(), copy_parts(self.get_parts()))
    }
}

impl Expression {
    /// A copy of the expression and all below it.
    pub fn duplicate(&self) -> (copy: Self)
        ensures
            copy@ == self@,
        decreases self@,
    {
        match self {
            Expression::Operation(o) => {
                proof {
                    assert(self@->Operation_0 == o@);
                }
                Expression::Operation(o.duplicate())
            },
            Expression::Expr(q) => {
                proof {
                    assert(self@->Expr_0 == q@);
                }
                Expression::Expr(q.duplicate())
            },
        }
    }
}

/// A copy of a list of expressions.
pub fn copy_expressions(nodes: &Vec<Expression>) -> (copy: Vec<Expression>)
    ensures
        view_expressions(copy@) == view_expressions(nodes@),
    decreases view_expressions(nodes@),
{
    let ghost all = view_expressions(nodes@);
    let mut copy: Vec<Expression> = Vec::new();
    let mut i: usize = 0;
    while i < nodes.len()
        invariant
            i <= nodes.len(),
            all == view_expressions(nodes@),
            copy@.len() == i,
            forall|j: int| 0 <= j < i ==> (#[trigger] copy@[j])@ == nodes@[j]@,
        decreases nodes.len() - i,
    {
        proof {
            assert(all[i as int] == nodes@[i as int]@);
            assert(decreases_to!(all => all[i as int]));
        }
        copy.push(nodes[i].duplicate());
        i += 1;
    }
    proof {
        assert(view_expressions(copy@) =~= view_expressions(nodes@));
    }
    copy
}

impl Operation {
    /// A copy of the operation and all below it.
    pub fn duplicate(&self) -> (copy: Self)
        ensures
            copy@ == self@,
        decreases self@,
    {
        Operation::new(self.get_lval().duplicate(), self.get_rval().duplicate(), self.get_op())
    }
}

impl Clone for QualifiedExpressionPart {
    fn clone(&self) -> (res: Self)
        ensures
            res@ == self@,
    {
        self.duplicate()
    }
}

impl Clone for QualifiedExpression {
    fn clone(&self) -> (res: Self)
        ensures
            res@ == self@,
    {
        self.duplicate()
    }
}

impl Clone for Expression {
    fn clone(&self) -> (res: Self)
        ensures
            res@ == self@,
    {
        self.duplicate()
    }
}

impl Clone for Operation {
    fn clone(&self) -> (res: Self)
        ensures
            res@ == self@,
    {
        self.duplicate()
    }
}

} // verus!
