use vstd::prelude::*;
use crate::parser::{view_nodes, ParseNode, ParseNodeView, Rule};
use crate::ast::node::{all_some, opt_view};
use super::expression::{Expression, ExpressionView, QualifiedExpression, QualifiedExpressionView};
use super::variable::{
    VariableAffectation, VariableAffectationView, VariableDeclaration, VariableDeclarationView,
};

verus! {

/// Model of a [`Statement`].
pub enum StatementView {
    ReturnStatement { expr: Option<ExpressionView>, pos: (usize, usize) },
    Declaration(VariableDeclarationView),
    Affectation(VariableAffectationView),
    QualifiedExpression(QualifiedExpressionView),
}

impl StatementView {
    /// Where the statement starts.
    pub open spec fn pos(self) -> (usize, usize) {
        match self {
            StatementView::ReturnStatement { expr: _, pos } => pos,
            StatementView::Declaration(d) => d.pos,
            StatementView::Affectation(a) => a.pos,
            StatementView::QualifiedExpression(q) => q.pos,
        }
    }
}

/// One statement of a body.
#[derive(Debug)]
pub enum Statement {
    ReturnStatement { expr: Option<Expression>, pos: (usize, usize) },
    Declaration(VariableDeclaration),
    Affectation(VariableAffectation),
    QualifiedExpression(QualifiedExpression),
}

impl Statement {
    pub open spec fn model(&self) -> StatementView
        decreases self,
    {
        match self {
            Statement::ReturnStatement { expr: Some(e), pos } => StatementView::ReturnStatement {
                expr: Some(e.model()),
                pos: *pos,
            },
            Statement::ReturnStatement { expr: None, pos } => StatementView::ReturnStatement {
                expr: None,
                pos: *pos,
            },
            Statement::Declaration(d) => StatementView::Declaration(d.model()),
            Statement::Affectation(a) => StatementView::Affectation(a.model()),
            Statement::QualifiedExpression(q) => StatementView::QualifiedExpression(q.model()),
        }
    }

    pub fn get_pos(&self) -> (pos: (usize, usize))
        ensures
            pos == self@.pos(),
    {
        match self {
            Statement::ReturnStatement { expr: _, pos } => *pos,
            Statement::Declaration(d) => d.get_pos(),
            Statement::Affectation(a) => a.get_pos(),
            Statement::QualifiedExpression(e) => e.get_pos(),
        }
    }
}

impl View for Statement {
    type V = StatementView;

    open spec fn view(&self) -> StatementView {
        self.model()
    }
}

/// The models of the statements of a body, in order.
pub open spec fn view_statements(s: Seq<Statement>) -> Seq<StatementView> {
    Seq::new(s.len(), |i: int| s[i]@)
}

impl StatementView {
    /// The statement that a match of the `Statement` rule stands for, by the
    /// rule of its first child: a `ReturnStmt` with or without an expression, a
    /// `Declaration`, an `Affectation`, or a `QualifiedExpression`.
    pub open spec fn from_pair(pair: ParseNodeView) -> Option<StatementView>
        decreases pair, 0nat,
    {
        if pair.rule == Rule::Statement && pair.children.len() >= 1 {
            let inner = pair.children[0];
            match inner.rule {
                Rule::ReturnStmt => if inner.children.len() >= 1 {
                    match ExpressionView::from_pair(inner.children[0]) {
                        Some(e) => Some(
                            StatementView::ReturnStatement { expr: Some(e), pos: inner.pos },
                        ),
                        None => None,
                    }
                } else {
                    Some(StatementView::ReturnStatement { expr: None, pos: inner.pos })
                },
                Rule::Declaration => match VariableDeclarationView::from_pair(inner) {
                    Some(d) => Some(StatementView::Declaration(d)),
                    None => None,
                },
                Rule::Affectation => match VariableAffectationView::from_pair(inner) {
                    Some(a) => Some(StatementView::Affectation(a)),
                    None => None,
                },
                Rule::QualifiedExpression => match QualifiedExpressionView::from_pair(inner) {
                    Some(q) => Some(StatementView::QualifiedExpression(q)),
                    None => None,
                },
                _ => None,
            }
        } else {
            None
        }
    }

    /// What each match of a list stands for.
    pub open spec fn from_each(pairs: Seq<ParseNodeView>) -> Seq<Option<StatementView>>
        decreases pairs, 0nat,
    {
        Seq::new(
            pairs.len(),
            |i: int|
                if 0 <= i < pairs.len() {
                    StatementView::from_pair(pairs[i])
                } else {
                    None
                },
        )
    }

    /// The nodes that a list of matches stands for, or `None` where one of
    /// them stands for none.
    pub open spec fn from_pairs(pairs: Seq<ParseNodeView>) -> Option<Seq<StatementView>>
        decreases pairs, 1nat,
    {
        all_some(StatementView::from_each(pairs))
    }
}

impl Statement {
    pub fn from_pair(pair: &ParseNode) -> (node: Option<Self>)
        ensures
            opt_view(node) == StatementView::from_pair(pair@),
        decreases pair@, 0nat,
    {
        let children = pair.children();
        if pair.as_rule() == Rule::Statement && children.len() >= 1 {
            proof {
                assert(pair@.children[0] == children@[0]@);
            }
            let inner = &children[0];
            match inner.as_rule() {
                Rule::ReturnStmt => {
                    let operands = inner.children();
                    if operands.len() >= 1 {
                        proof {
                            assert(inner@.children[0] == operands@[0]@);
                        }
                        match Expression::from_pair(&operands[0]) {
                            Some(e) => Some(
                                Statement::ReturnStatement { expr: Some(e), pos: inner.get_pos() },
                            ),
                            None => None,
                        }
                    } else {
                        Some(Statement::ReturnStatement { expr: None, pos: inner.get_pos() })
                    }
                },
                Rule::Declaration => match VariableDeclaration::from_pair(inner) {
                    Some(d) => Some(Statement::Declaration(d)),
                    None => None,
                },
                Rule::Affectation => match VariableAffectation::from_pair(inner) {
                    Some(a) => Some(Statement::Affectation(a)),
                    None => None,
                },
                Rule::QualifiedExpression => match QualifiedExpression::from_pair(inner) {
                    Some(q) => Some(Statement::QualifiedExpression(q)),
                    None => None,
                },
                _ => None,
            }
        } else {
            None
        }
    }

    /// The nodes that a list of matches stands for, or `None` where one of
    /// them stands for none.
    pub fn from_pairs(pairs: &Vec<ParseNode>) -> (nodes: Option<Vec<Statement>>)
        ensures
            match nodes {
                Some(list) => StatementView::from_pairs(view_nodes(pairs@))
                    == Some(view_statements(list@)),
                None => StatementView::from_pairs(view_nodes(pairs@)) is None,
            },
        decreases view_nodes(pairs@), 1nat,
    {
        let ghost all = view_nodes(pairs@);
        let ghost items = StatementView::from_each(all);
        let mut nodes: Vec<Statement> = Vec::new();
        let mut i: usize = 0;
        while i < pairs.len()
            invariant
                i <= pairs.len(),
                all == view_nodes(pairs@),
                items == StatementView::from_each(all),
                items.len() == all.len(),
                nodes@.len() == i,
                forall|j: int| 0 <= j < i ==> items[j] == Some((#[trigger] nodes@[j])@),
            decreases pairs.len() - i,
        {
            proof {
                assert(all[i as int] == pairs@[i as int]@);
                assert(decreases_to!(all => all[i as int]));
            }
            let ghost expected = items[i as int];
            match Statement::from_pair(&pairs[i]) {
                Some(node) => {
                    assert(expected == Some(node@));
                    nodes.push(node);
                },
                None => {
                    assert(expected is None);
                    return None;
                },
            }
            i += 1;
        }
        proof {
            assert forall|j: int| 0 <= j < items.len() implies (#[trigger] items[j]) is Some by {
                assert(items[j] == Some(nodes@[j]@));
            }
            assert(view_statements(nodes@) =~= all_some(items)->Some_0);
        }
        Some(nodes)
    }
}

impl Statement {
    /// A copy of the statement and all below it.
    pub fn duplicate(&self) -> (copy: Self)
        ensures
            copy@ == self@,
        decreases self@,
    {
        match self {
            Statement::ReturnStatement { expr, pos } => match expr {
                Some(e) => {
                    proof {
                        assert(self@->ReturnStatement_expr == Some(e@));
                        assert(self@->ReturnStatement_expr->Some_0 == e@);
                    }
                    Statement::ReturnStatement { expr: Some(e.duplicate()), pos: *pos }
                },
                None => Statement::ReturnStatement { expr: None, pos: *pos },
            },
            Statement::Declaration(d) => {
                proof {
                    assert(self@->Declaration_0 == d@);
                }
                Statement::Declaration(d.duplicate())
            },
            Statement::Affectation(a) => {
                proof {
                    assert(self@->Affectation_0 == a@);
                }
                Statement::Affectation(a.duplicate())
            },
            Statement::QualifiedExpression(q) => {
                proof {
                    assert(self@->QualifiedExpression_0 == q@);
                }
                Statement::QualifiedExpression(q.duplicate())
            },
        }
    }
}

/// A copy of the statements of a body.
pub fn copy_statements(nodes: &Vec<Statement>) -> (copy: Vec<Statement>)
    ensures
        view_statements(copy@) == view_statements(nodes@),
    decreases view_statements(nodes@),
{
    let ghost all = view_statements(nodes@);
    let mut copy: Vec<Statement> = Vec::new();
    let mut i: usize = 0;
    while i < nodes.len()
        invariant
            i <= nodes.len(),
            all == view_statements(nodes@),
            copy@.len() == i,
            forall|j: int| 0 <= j < i ==> (#[trigger] copy@[j])@ == nodes@[j]@,
        decreases nodes.len() - i,
    {
        proof {
            assert(all[i as int] == nodes@[i as int]@);
            assert(decreases_to!(all => all[i as int]));
        }
        copy.push(nodes[i].duplicate());
        i += 1;
    }
    proof {
        assert(view_statements(copy@) =~= view_statements(nodes@));
    }
    copy
}

impl Clone for Statement {
    fn clone(&self) -> (res: Self)
        ensures
            res@ == self@,
    {
        self.duplicate()
    }
}

} // verus!
