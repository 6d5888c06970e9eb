use vstd::prelude::*;
use crate::ast::{
    Attribute, Block, Boolean, Char, Class, ClassMember, Closure, Expression, Field, File,
    Function, FunctionCall, Identifier, Integer, Operation, Param, QualifiedExpression,
    QualifiedExpressionPart, Statement, StringLitteral, VariableAffectation, VariableDeclaration,
};

verus! {

/// A pass that rebuilds the tree: each method takes a node and gives the node
/// that replaces it. Left as it is, a method gives its node back unchanged and
/// does not look below it; a pass that rewrites a shape overrides the method
/// for that shape and folds the children it wants rewritten itself.
pub trait AstFold: Sized {
    fn fold_file(&mut self, n: File) -> (r: File)
        default_ensures
            r == n,
            *final(self) == *old(self),
    {
        n
    }

    fn fold_attribute(&mut self, n: Attribute) -> (r: Attribute)
        default_ensures
            r == n,
            *final(self) == *old(self),
    {
        n
    }

    fn fold_function(&mut self, n: Function) -> (r: Function)
        default_ensures
            r == n,
            *final(self) == *old(self),
    {
        n
    }

    fn fold_function_call(&mut self, n: FunctionCall) -> (r: FunctionCall)
        default_ensures
            r == n,
            *final(self) == *old(self),
    {
        n
    }

    fn fold_param(&mut self, n: Param) -> (r: Param)
        default_ensures
            r == n,
            *final(self) == *old(self),
    {
        n
    }

    fn visit_operation(&mut self, n: Operation) -> (r: Operation)
        default_ensures
            r == n,
            *final(self) == *old(self),
    {
        n
    }

    fn visit_expression(&mut self, n: Expression) -> (r: Expression)
        default_ensures
            r == n,
            *final(self) == *old(self),
    {
        n
    }

    fn fold_qualified_expression(&mut self, n: QualifiedExpression) -> (r: QualifiedExpression)
        default_ensures
            r == n,
            *final(self) == *old(self),
    {
        n
    }

    fn fold_qualified_expression_part(&mut self, n: QualifiedExpressionPart) -> (r: QualifiedExpressionPart)
        default_ensures
            r == n,
            *final(self) == *old(self),
    {
        n
    }

    fn fold_statement(&mut self, n: Statement) -> (r: Statement)
        default_ensures
            r == n,
            *final(self) == *old(self),
    {
        n
    }

    fn fold_closure(&mut self, n: Closure) -> (r: Closure)
        default_ensures
            r == n,
            *final(self) == *old(self),
    {
        n
    }

    fn fold_variable_declaration(&mut self, n: VariableDeclaration) -> (r: VariableDeclaration)
        default_ensures
            r == n,
            *final(self) == *old(self),
    {
        n
    }

    fn fold_variable_affectation(&mut self, n: VariableAffectation) -> (r: VariableAffectation)
        default_ensures
            r == n,
            *final(self) == *old(self),
    {
        n
    }

    fn fold_class(&mut self, n: Class) -> (r: Class)
        default_ensures
            r == n,
            *final(self) == *old(self),
    {
        n
    }

    fn fold_class_member(&mut self, n: ClassMember) -> (r: ClassMember)
        default_ensures
            r == n,
            *final(self) == *old(self),
    {
        n
    }

    fn fold_block(&mut self, n: Block) -> (r: Block)
        default_ensures
            r == n,
            *final(self) == *old(self),
    {
        n
    }

    fn fold_field(&mut self, n: Field) -> (r: Field)
        default_ensures
            r == n,
            *final(self) == *old(self),
    {
        n
    }

    fn fold_identifier(&mut self, n: Identifier) -> (r: Identifier)
        default_ensures
            r == n,
            *final(self) == *old(self),
    {
        n
    }

    fn fold_integer(&mut self, n: Integer) -> (r: Integer)
        default_ensures
            r == n,
            *final(self) == *old(self),
    {
        n
    }

    fn fold_string_litteral(&mut self, n: StringLitteral) -> (r: StringLitteral)
        default_ensures
            r == n,
            *final(self) == *old(self),
    {
        n
    }

    fn fold_boolean(&mut self, n: Boolean) -> (r: Boolean)
        default_ensures
            r == n,
            *final(self) == *old(self),
    {
        n
    }

    fn fold_char(&mut self, n: Char) -> (r: Char)
        default_ensures
            r == n,
            *final(self) == *old(self),
    {
        n
    }
}

} // verus!
