//! The syntax tree of one compilation unit, with a mathematical model of every
//! node.

pub mod attribute;
pub mod class;
pub mod closure;
pub mod expression;
pub mod file;
pub mod function;
pub mod litterals;
pub mod node;
pub mod param;
pub mod statement;
pub mod variable;

pub use self::attribute::{Attribute, AttributeView};
pub use self::class::{
    view_members, Block, BlockView, Class, ClassMember, ClassMemberView, ClassView, Field,
    FieldView,
};
pub use self::closure::{Closure, ClosureView};
pub use self::expression::{
    view_expressions, view_optional_expression, view_parts, Expression, ExpressionView, Operation,
    OperationType, OperationView, QualifiedExpression, QualifiedExpressionPart,
    QualifiedExpressionPartView, QualifiedExpressionView,
};
pub use self::file::{File, FileView, FirstClassEntity, FirstClassEntityView};
pub use self::function::{Function, FunctionCall, FunctionCallView, FunctionView};
pub use self::litterals::{
    Boolean, BooleanView, Char, CharView, Identifier, IdentifierView, Integer, IntegerView,
    StringLitteral, StringLitteralView,
};
pub use self::node::{all_some, opt_view, opt_view_seq, view_seq, AstNode, AstNodeType};
pub use self::param::{Param, ParamView};
pub use self::statement::{view_statements, Statement, StatementView};
pub use self::variable::{
    VariableAffectation, VariableAffectationView, VariableDeclaration, VariableDeclarationView,
};
