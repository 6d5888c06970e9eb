use vstd::prelude::*;
use crate::parser::{ParseNode, ParseNodeView, Rule};
use crate::text::owned;
use crate::ast::node::opt_view;
use super::expression::{
    view_optional_expression, Expression, ExpressionView, QualifiedExpression,
    QualifiedExpressionView,
};

verus! {

/// Model of a [`VariableDeclaration`].
pub struct VariableDeclarationView {
    pub pos: (usize, usize),
    pub name: Seq<char>,
    pub ty: Seq<char>,
    pub value: Option<ExpressionView>,
}

/// Model of a [`VariableAffectation`].
pub struct VariableAffectationView {
    pub pos: (usize, usize),
    pub receiver: QualifiedExpressionView,
    pub value: ExpressionView,
}

/// The declaration of a local variable, with an optional initial value.
#[derive(Debug)]
pub struct VariableDeclaration {
    pos: (usize, usize),
    name: String,
    ty: String,
    value: Option<Expression>,
}

/// An assignment to the place that a chain names.
#[derive(Debug)]
pub struct VariableAffectation {
    pos: (usize, usize),
    receiver: QualifiedExpression,
    value: Expression,
}

impl VariableDeclaration {
    pub closed spec fn model(&self) -> VariableDeclarationView
        decreases self,
    {
        VariableDeclarationView {
            pos: self.pos,
            name: self.name@,
            ty: self.ty@,
            value: match self.value {
                Some(e) => Some(e.model()),
                None => None,
            },
        }
    }

    pub fn get_name(&self) -> (name: &str)
        ensures
            name@ == self@.name,
    {
        self.name.as_str()
    }

    pub fn get_type_name(&self) -> (ty: &str)
        ensures
            ty@ == self@.ty,
    {
        self.ty.as_str()
    }

    pub fn get_value(&self) -> (value: &Option<Expression>)
        ensures
            view_optional_expression(*value) == self@.value,
    {
        &self.value
    }

    pub fn new(pos: (usize, usize), name: String, ty: String, value: Option<Expression>) -> (node:
        Self)
        ensures
            node@ == (VariableDeclarationView {
                pos,
                name: name@,
                ty: ty@,
                value: view_optional_expression(value),
            }),
    {
        VariableDeclaration { pos, name, ty, value }
    }

    pub fn get_pos(&self) -> (pos: (usize, usize))
        ensures
            pos == self@.pos,
    {
        self.pos
    }
}

impl View for VariableDeclaration {
    type V = VariableDeclarationView;

    open spec fn view(&self) -> VariableDeclarationView {
        self.model()
    }
}

impl VariableAffectation {
    pub closed spec fn model(&self) -> VariableAffectationView
        decreases self,
    {
        VariableAffectationView {
            pos: self.pos,
            receiver: self.receiver.model(),
            value: self.value.model(),
        }
    }

    pub fn get_receiver(&self) -> (receiver: &QualifiedExpression)
        ensures
            receiver@ == self@.receiver,
    {
        &self.receiver
    }

    pub fn get_value(&self) -> (value: &Expression)
        ensures
            value@ == self@.value,
    {
        &self.value
    }

    pub fn new(pos: (usize, usize), receiver: QualifiedExpression, value: Expression) -> (node:
        Self)
        ensures
            node@ == (VariableAffectationView { pos, receiver: receiver@, value: value@ }),
    {
        VariableAffectation { pos, receiver, value }
    }

    pub fn get_pos(&self) -> (pos: (usize, usize))
        ensures
            pos == self@.pos,
    {
        self.pos
    }
}

impl View for VariableAffectation {
    type V = VariableAffectationView;

    open spec fn view(&self) -> VariableAffectationView {
        self.model()
    }
}

impl VariableDeclarationView {
    /// The declaration that a match of the `Declaration` rule stands for: it
    /// has the position of the match, the text of its first child as its name
    /// and that of its second as its type; its initial value is what its third
    /// child stands for, where it has one.
    pub open spec fn from_pair(pair: ParseNodeView) -> Option<VariableDeclarationView>
        decreases pair, 0nat,
    {
        if pair.rule == Rule::Declaration && pair.children.len() >= 2 {
            if pair.children.len() >= 3 {
                match ExpressionView::from_pair(pair.children[2]) {
                    Some(e) => Some(
                        VariableDeclarationView {
                            pos: pair.pos,
                            name: pair.children[0].text,
                            ty: pair.children[1].text,
                            value: Some(e),
                        },
                    ),
                    None => None,
                }
            } else {
                Some(
                    VariableDeclarationView {
                        pos: pair.pos,
                        name: pair.children[0].text,
                        ty: pair.children[1].text,
                        value: None,
                    },
                )
            }
        } else {
            None
        }
    }
}

impl VariableDeclaration {
    pub fn from_pair(pair: &ParseNode) -> (node: Option<Self>)
        ensures
            opt_view(node) == VariableDeclarationView::from_pair(pair@),
        decreases pair@, 0nat,
    {
        let children = pair.children();
        if pair.as_rule() == Rule::Declaration && children.len() >= 2 {
            proof {
                assert(pair@.children[0] == children@[0]@);
                assert(pair@.children[1] == children@[1]@);
            }
            let name = owned(children[0].as_str());
            let ty = owned(children[1].as_str());
            if children.len() >= 3 {
                proof {
                    assert(pair@.children[2] == children@[2]@);
                }
                match Expression::from_pair(&children[2]) {
                    Some(e) => Some(VariableDeclaration { pos: pair.get_pos(), name, ty, value: Some(e) }),
                    None => None,
                }
            } else {
                Some(VariableDeclaration { pos: pair.get_pos(), name, ty, value: None })
            }
        } else {
            None
        }
    }
}

impl VariableAffectationView {
    /// The assignment that a match of the `Affectation` rule stands for: it
    /// has the position of the match; its receiver is what its first child
    /// stands for and its value what its second child stands for.
    pub open spec fn from_pair(pair: ParseNodeView) -> Option<VariableAffectationView>
        decreases pair, 0nat,
    {
        if pair.rule == Rule::Affectation && pair.children.len() >= 2 {
            match (
                QualifiedExpressionView::from_pair(pair.children[0]),
                ExpressionView::from_pair(pair.children[1]),
            ) {
                (Some(receiver), Some(value)) => Some(
                    VariableAffectationView { pos: pair.pos, receiver, value },
                ),
                _ => None,
            }
        } else {
            None
        }
    }
}

impl VariableAffectation {
    pub fn from_pair(pair: &ParseNode) -> (node: Option<Self>)
        ensures
            opt_view(node) == VariableAffectationView::from_pair(pair@),
        decreases pair@, 0nat,
    {
        let children = pair.children();
        if pair.as_rule() == Rule::Affectation && children.len() >= 2 {
            proof {
                assert(pair@.children[0] == children@[0]@);
                assert(pair@.children[1] == children@[1]@);
            }
            let receiver = QualifiedExpression::from_pair(&children[0]);
            let value = Expression::from_pair(&children[1]);
            match (receiver, value) {
                (Some(receiver), Some(value)) => Some(
                    VariableAffectation { pos: pair.get_pos(), receiver, value },
                ),
                _ => None,
            }
        } else {
            None
        }
    }
}

impl VariableDeclaration {
    /// A copy of the declaration and all below it.
    pub fn duplicate(&self) -> (copy: Self)
        ensures
            copy@ == self@,
        decreases self@,
    {
        let value = match self.get_value() {
            Some(e) => {
                proof {
                    assert(self@.value->Some_0 == e@);
                }
                Some(e.duplicate())
            },
            None => None,
        };
        VariableDeclaration::new(self.get_pos(), self.name.clone(), self.ty.clone(), value)
    }
}

impl VariableAffectation {
    /// A copy of the assignment and all below it.
    pub fn duplicate(&self) -> (copy: Self)
        ensures
            copy@ == self@,
        decreases self@,
    {
        VariableAffectation::new(
            self.get_pos(),
            self.get_receiver().duplicate(),
            self.get_value().duplicate(),
        )
    }
}

impl Clone for VariableDeclaration {
    fn clone(&self) -> (res: Self)
        ensures
            res@ == self@,
    {
        self.duplicate()
    }
}

impl Clone for VariableAffectation {
    fn clone(&self) -> (res: Self)
        ensures
            res@ == self@,
    {
        self.duplicate()
    }
}

} // verus!
