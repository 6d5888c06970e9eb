use vstd::prelude::*;
use super::attribute::Attribute;
use super::class::{Block, Class, ClassMember, Field};
use super::closure::Closure;
use super::expression::{Expression, Operation, QualifiedExpression, QualifiedExpressionPart};
use super::file::File;
use super::function::{Function, FunctionCall};
use super::litterals::{Boolean, Char, Identifier, Integer, StringLitteral};
use super::param::Param;
use super::statement::Statement;
use super::variable::{VariableAffectation, VariableDeclaration};

verus! {

/// The models of the items of a sequence, in order.
pub open spec fn view_seq<T: View>(s: Seq<T>) -> Seq<T::V> {
    Seq::new(s.len(), |i: int| s[i]@)
}

/// The model of an optional value.
pub open spec fn opt_view<T: View>(value: Option<T>) -> Option<T::V> {
    match value {
        Some(v) => Some(v@),
        None => None,
    }
}

/// The models of the items of an optional list, in order.
pub open spec fn opt_view_seq<T: View>(list: Option<Vec<T>>) -> Option<Seq<T::V>> {
    match list {
        Some(l) => Some(view_seq(l@)),
        None => None,
    }
}

/// The items, where every one is there; `None` where one is missing.
pub open spec fn all_some<T>(items: Seq<Option<T>>) -> Option<Seq<T>> {
    if forall|i: int| 0 <= i < items.len() ==> (#[trigger] items[i]) is Some {
        Some(Seq::new(items.len(), |i: int| items[i]->Some_0))
    } else {
        None
    }
}

/// The models of a concatenation are the concatenation of the models.
pub proof fn lemma_view_seq_add<T: View>(s: Seq<T>, t: Seq<T>)
    ensures
        view_seq(s + t) == view_seq(s) + view_seq(t),
{
    assert(view_seq(s + t) =~= view_seq(s) + view_seq(t));
}

/// The shapes of node that a tree is made of.
#[derive(Clone, Copy, Debug, PartialEq, Eq, Structural)]
pub enum AstNodeType {
    File,
    Attribute,
    Function,
    FunctionCall,
    Param,
    Operation,
    Expression,
    QualifiedExpression,
    QualifiedExpressionPart,
    Statement,
    Closure,
    VariableDeclaration,
    VariableAffectation,
    Class,
    ClassMember,
    Block,
    Field,
    Identifier,
    Integer,
    StringLitteral,
    Boolean,
    Char,
}

/// A node that can tell its shape.
pub trait AstNode {
    spec fn spec_node_type(&self) -> AstNodeType;

    fn node_type(&self) -> (shape: AstNodeType)
        ensures
            shape == self.spec_node_type(),
    ;
}

impl AstNode for File {
    open spec fn spec_node_type(&self) -> AstNodeType {
        AstNodeType::File
    }

    fn node_type(&self) -> AstNodeType {
        AstNodeType::File
    }
}

impl AstNode for Attribute {
    open spec fn spec_node_type(&self) -> AstNodeType {
        AstNodeType::Attribute
    }

    fn node_type(&self) -> AstNodeType {
        AstNodeType::Attribute
    }
}

impl AstNode for Function {
    open spec fn spec_node_type(&self) -> AstNodeType {
        AstNodeType::Function
    }

    fn node_type(&self) -> AstNodeType {
        AstNodeType::Function
    }
}

impl AstNode for FunctionCall {
    open spec fn spec_node_type(&self) -> AstNodeType {
        AstNodeType::FunctionCall
    }

    fn node_type(&self) -> AstNodeType {
        AstNodeType::FunctionCall
    }
}

impl AstNode for Param {
    open spec fn spec_node_type(&self) -> AstNodeType {
        AstNodeType::Param
    }

    fn node_type(&self) -> AstNodeType {
        AstNodeType::Param
    }
}

impl AstNode for Operation {
    open spec fn spec_node_type(&self) -> AstNodeType {
        AstNodeType::Operation
    }

    fn node_type(&self) -> AstNodeType {
        AstNodeType::Operation
    }
}

impl AstNode for Expression {
    open spec fn spec_node_type(&self) -> AstNodeType {
        AstNodeType::Expression
    }

    fn node_type(&self) -> AstNodeType {
        AstNodeType::Expression
    }
}

impl AstNode for QualifiedExpression {
    open spec fn spec_node_type(&self) -> AstNodeType {
        AstNodeType::QualifiedExpression
    }

    fn node_type(&self) -> AstNodeType {
        AstNodeType::QualifiedExpression
    }
}

impl AstNode for QualifiedExpressionPart {
    open spec fn spec_node_type(&self) -> AstNodeType {
        AstNodeType::QualifiedExpressionPart
    }

    fn node_type(&self) -> AstNodeType {
        AstNodeType::QualifiedExpressionPart
    }
}

impl AstNode for Statement {
    open spec fn spec_node_type(&self) -> AstNodeType {
        AstNodeType::Statement
    }

    fn node_type(&self) -> AstNodeType {
        AstNodeType::Statement
    }
}

impl AstNode for Closure {
    open spec fn spec_node_type(&self) -> AstNodeType {
        AstNodeType::Closure
    }

    fn node_type(&self) -> AstNodeType {
        AstNodeType::Closure
    }
}

impl AstNode for VariableDeclaration {
    open spec fn spec_node_type(&self) -> AstNodeType {
        AstNodeType::VariableDeclaration
    }

    fn node_type(&self) -> AstNodeType {
        AstNodeType::VariableDeclaration
    }
}

impl AstNode for VariableAffectation {
    open spec fn spec_node_type(&self) -> AstNodeType {
        AstNodeType::VariableAffectation
    }

    fn node_type(&self) -> AstNodeType {
        AstNodeType::VariableAffectation
    }
}

impl AstNode for Class {
    open spec fn spec_node_type(&self) -> AstNodeType {
        AstNodeType::Class
    }

    fn node_type(&self) -> AstNodeType {
        AstNodeType::Class
    }
}

impl AstNode for ClassMember {
    open spec fn spec_node_type(&self) -> AstNodeType {
        AstNodeType::ClassMember
    }

    fn node_type(&self) -> AstNodeType {
        AstNodeType::ClassMember
    }
}

impl AstNode for Block {
    open spec fn spec_node_type(&self) -> AstNodeType {
        AstNodeType::Block
    }

    fn node_type(&self) -> AstNodeType {
        AstNodeType::Block
    }
}

impl AstNode for Field {
    open spec fn spec_node_type(&self) -> AstNodeType {
        AstNodeType::Field
    }

    fn node_type(&self) -> AstNodeType {
        AstNodeType::Field
    }
}

impl AstNode for Identifier {
    open spec fn spec_node_type(&self) -> AstNodeType {
        AstNodeType::Identifier
    }

    fn node_type(&self) -> AstNodeType {
        AstNodeType::Identifier
    }
}

impl AstNode for Integer {
    open spec fn spec_node_type(&self) -> AstNodeType {
        AstNodeType::Integer
    }

    fn node_type(&self) -> AstNodeType {
        AstNodeType::Integer
    }
}

impl AstNode for StringLitteral {
    open spec fn spec_node_type(&self) -> AstNodeType {
        AstNodeType::StringLitteral
    }

    fn node_type(&self) -> AstNodeType {
        AstNodeType::StringLitteral
    }
}

impl AstNode for Boolean {
    open spec fn spec_node_type(&self) -> AstNodeType {
        AstNodeType::Boolean
    }

    fn node_type(&self) -> AstNodeType {
        AstNodeType::Boolean
    }
}

impl AstNode for Char {
    open spec fn spec_node_type(&self) -> AstNodeType {
        AstNodeType::Char
    }

    fn node_type(&self) -> AstNodeType {
        AstNodeType::Char
    }
}

} // verus!
