use vstd::prelude::*;
use super::param::copy_params;
use super::attribute::copy_attributes;
use super::statement::copy_statements;
use super::expression::copy_expressions;
use crate::ast::node::lemma_view_seq_add;
use vstd::string::StringExecFns;
use crate::parser::{view_nodes, ParseNode, ParseNodeView, Rule};
use crate::text::owned;
use crate::ast::node::{opt_view};
use super::attribute::{Attribute, AttributeView};
use super::expression::{view_expressions, Expression, ExpressionView};
use super::node::view_seq;
use super::param::{Param, ParamView};
use super::statement::{view_statements, Statement, StatementView};

verus! {

/// Model of a [`Function`].
pub struct FunctionView {
    pub pos: (usize, usize),
    pub attributes: Seq<AttributeView>,
    pub name: Seq<char>,
    pub params: Seq<ParamView>,
    pub return_type: Seq<char>,
    pub statements: Seq<StatementView>,
}

impl FunctionView {
    /// A function has a body exactly when it holds a statement.
    pub open spec fn has_body(self) -> bool {
        self.statements.len() != 0
    }
}

/// Model of a [`FunctionCall`].
pub struct FunctionCallView {
    pub pos: (usize, usize),
    pub name: Seq<char>,
    pub param_exprs: Seq<ExpressionView>,
}

/// A freestanding function or a method.
#[derive(Debug)]
pub struct Function {
    pos: (usize, usize),
    attributes: Vec<Attribute>,
    name: String,
    params: Vec<Param>,
    return_type: String,
    statements: Vec<Statement>,
}

/// A call in a chain, with its argument expressions.
#[derive(Debug)]
pub struct FunctionCall {
    pos: (usize, usize),
    name: String,
    param_exprs: Vec<Expression>,
}

impl View for Function {
    type V = FunctionView;

    closed spec fn view(&self) -> FunctionView {
        FunctionView {
            pos: self.pos,
            attributes: view_seq(self.attributes@),
            name: self.name@,
            params: view_seq(self.params@),
            return_type: self.return_type@,
            statements: view_statements(self.statements@),
        }
    }
}

impl Function {
    pub fn get_attributes(&mut self) -> (attributes: &mut Vec<Attribute>)
        ensures
            view_seq(attributes@) == old(self)@.attributes,
            final(self)@ == (FunctionView {
                attributes: view_seq(final(attributes)@),
                ..old(self)@
            }),
    {
        &mut self.attributes
    }

    pub fn get_name(&self) -> (name: &str)
        ensures
            name@ == self@.name,
    {
        self.name.as_str()
    }

    pub fn get_params(&mut self) -> (params: &mut Vec<Param>)
        ensures
            view_seq(params@) == old(self)@.params,
            final(self)@ == (FunctionView { params: view_seq(final(params)@), ..old(self)@ }),
    {
        &mut self.params
    }

    pub fn get_return_type(&self) -> (return_type: &str)
        ensures
            return_type@ == self@.return_type,
    {
        self.return_type.as_str()
    }

    pub fn get_statements(&mut self) -> (statements: &mut Vec<Statement>)
        ensures
            view_statements(statements@) == old(self)@.statements,
            final(self)@ == (FunctionView {
                statements: view_statements(final(statements)@),
                ..old(self)@
            }),
    {
        &mut self.statements
    }

    pub fn new(
        pos: (usize, usize),
        attributes: Vec<Attribute>,
        name: String,
        params: Vec<Param>,
        return_type: String,
        statements: Vec<Statement>,
    ) -> (function: Self)
        ensures
            function@ == (FunctionView {
                pos,
                attributes: view_seq(attributes@),
                name: name@,
                params: view_seq(params@),
                return_type: return_type@,
                statements: view_statements(statements@),
            }),
    {
        Function { pos, attributes, name, params, return_type, statements }
    }

    pub fn get_pos(&self) -> (pos: (usize, usize))
        ensures
            pos == self@.pos,
    {
        self.pos
    }

    /// Whether the function holds a statement.
    pub fn has_body(&self) -> (body: bool)
        ensures
            body == self@.has_body(),
    {
        self.statements.len() != 0
    }

    /// The attributes, for reading.
    pub fn attributes(&self) -> (attributes: &Vec<Attribute>)
        ensures
            view_seq(attributes@) == self@.attributes,
    {
        &self.attributes
    }

    /// The parameters, for reading.
    pub fn params(&self) -> (params: &Vec<Param>)
        ensures
            view_seq(params@) == self@.params,
    {
        &self.params
    }

    /// The statements, for reading.
    pub fn statements(&self) -> (statements: &Vec<Statement>)
        ensures
            view_statements(statements@) == self@.statements,
    {
        &self.statements
    }
}

impl FunctionCall {
    pub closed spec fn model(&self) -> FunctionCallView
        decreases self,
    {
        FunctionCallView {
            pos: self.pos,
            name: self.name@,
            param_exprs: Seq::new(
                self.param_exprs@.len(),
                |i: int|
                    if 0 <= i < self.param_exprs@.len() {
                        self.param_exprs@[i].model()
                    } else {
                        arbitrary()
                    },
            ),
        }
    }

    pub fn get_name(&self) -> (name: &str)
        ensures
            name@ == self@.name,
    {
        self.name.as_str()
    }

    pub fn get_param_exprs(&mut self) -> (param_exprs: &mut Vec<Expression>)
        ensures
            view_expressions(param_exprs@) == old(self)@.param_exprs,
            final(self)@ == (FunctionCallView {
                param_exprs: view_expressions(final(param_exprs)@),
                ..old(self)@
            }),
    {
        proof {
            assert(self.model().param_exprs =~= view_expressions(self.param_exprs@));
            assert forall|v: Vec<Expression>|
                (FunctionCall {
                    pos: self.pos,
                    name: self.name,
                    param_exprs: v,
                }).model().param_exprs == #[trigger] view_expressions(v@) by {
                assert((FunctionCall {
                    pos: self.pos,
                    name: self.name,
                    param_exprs: v,
                }).model().param_exprs =~= view_expressions(v@));
            }
        }
        &mut self.param_exprs
    }

    pub fn new(pos: (usize, usize), name: String, param_exprs: Vec<Expression>) -> (call: Self)
        ensures
            call@ == (FunctionCallView {
                pos,
                name: name@,
                param_exprs: view_expressions(param_exprs@),
            }),
    {
        let call = FunctionCall { pos, name, param_exprs };
        assert(call.model().param_exprs =~= view_expressions(call.param_exprs@));
        call
    }

    pub fn get_pos(&self) -> (pos: (usize, usize))
        ensures
            pos == self@.pos,
    {
        self.pos
    }

    /// The argument expressions, for reading.
    pub fn param_exprs(&self) -> (param_exprs: &Vec<Expression>)
        ensures
            view_expressions(param_exprs@) == self@.param_exprs,
    {
        assert(self.model().param_exprs =~= view_expressions(self.param_exprs@));
        &self.param_exprs
    }
}

impl View for FunctionCall {
    type V = FunctionCallView;

    open spec fn view(&self) -> FunctionCallView {
        self.model()
    }
}

impl FunctionCallView {
    /// The call that a match of the `MethodCall` rule stands for: it has the
    /// position of the match and the text of its first child as its name; its
    /// arguments are what the children of its second child stand for, where it
    /// has a second child.
    pub open spec fn from_pair(pair: ParseNodeView) -> Option<FunctionCallView>
        decreases pair, 0nat,
    {
        if pair.rule == Rule::MethodCall && pair.children.len() >= 1 {
            if pair.children.len() >= 2 {
                match ExpressionView::from_pairs(pair.children[1].children) {
                    Some(param_exprs) => Some(
                        FunctionCallView {
                            pos: pair.pos,
                            name: pair.children[0].text,
                            param_exprs,
                        },
                    ),
                    None => None,
                }
            } else {
                Some(
                    FunctionCallView {
                        pos: pair.pos,
                        name: pair.children[0].text,
                        param_exprs: Seq::empty(),
                    },
                )
            }
        } else {
            None
        }
    }
}

impl FunctionCall {
    pub fn from_pair(pair: &ParseNode) -> (node: Option<Self>)
        ensures
            opt_view(node) == FunctionCallView::from_pair(pair@),
        decreases pair@, 0nat,
    {
        let children = pair.children();
        if pair.as_rule() == Rule::MethodCall && children.len() >= 1 {
            proof {
                assert(pair@.children[0] == children@[0]@);
            }
            let name = owned(children[0].as_str());
            if children.len() >= 2 {
                proof {
                    assert(pair@.children[1] == children@[1]@);
                }
                match Expression::from_pairs(children[1].children()) {
                    Some(param_exprs) => Some(FunctionCall::new(pair.get_pos(), name, param_exprs)),
                    None => None,
                }
            } else {
                let none: Vec<Expression> = Vec::new();
                proof {
                    assert(view_expressions(none@) =~= Seq::empty());
                }
                Some(FunctionCall::new(pair.get_pos(), name, none))
            }
        } else {
            None
        }
    }
}

impl FunctionView {
    /// A function at `pos` with nothing in it yet.
    pub open spec fn blank(pos: (usize, usize)) -> FunctionView {
        FunctionView {
            pos,
            attributes: Seq::empty(),
            name: Seq::empty(),
            params: Seq::empty(),
            return_type: Seq::empty(),
            statements: Seq::empty(),
        }
    }

    /// The function with what one more child of its match gives it: an
    /// `AttributeList` gives attributes, an `Ident` or `Operator` the name, a
    /// `ParamList` parameters, a `Type` the return type, an `ExecutableBody`
    /// statements; any other child gives nothing.
    pub open spec fn after_pair(self, child: ParseNodeView) -> Option<FunctionView> {
        match child.rule {
            Rule::AttributeList => match AttributeView::from_pairs(child.children) {
                Some(attributes) => Some(
                    FunctionView { attributes: self.attributes + attributes, ..self },
                ),
                None => None,
            },
            Rule::Ident | Rule::Operator => Some(
                FunctionView { name: child.text + self.name, ..self },
            ),
            Rule::ParamList => match ParamView::from_pairs(child.children) {
                Some(params) => Some(FunctionView { params: self.params + params, ..self }),
                None => None,
            },
            Rule::Type => Some(FunctionView { return_type: child.text + self.return_type, ..self }),
            Rule::ExecutableBody => match StatementView::from_pairs(child.children) {
                Some(statements) => Some(
                    FunctionView { statements: self.statements + statements, ..self },
                ),
                None => None,
            },
            _ => Some(self),
        }
    }

    /// The function with what more children of its match give it, in order.
    pub open spec fn after_pairs(
        start: Option<FunctionView>,
        children: Seq<ParseNodeView>,
    ) -> Option<FunctionView>
        decreases children.len(),
    {
        if children.len() == 0 {
            start
        } else {
            match FunctionView::after_pairs(start, children.drop_last()) {
                Some(function) => function.after_pair(children.last()),
                None => None,
            }
        }
    }

    /// The function that a match of the `MethodDecl` rule stands for.
    pub open spec fn from_pair(pair: ParseNodeView) -> Option<FunctionView> {
        if pair.rule == Rule::MethodDecl {
            FunctionView::after_pairs(Some(FunctionView::blank(pair.pos)), pair.children)
        } else {
            None
        }
    }
}

impl Function {
    pub fn from_pair(pair: &ParseNode) -> (node: Option<Self>)
        ensures
            opt_view(node) == FunctionView::from_pair(pair@),
    {
        if pair.as_rule() != Rule::MethodDecl {
            return None;
        }
        let pos = pair.get_pos();
        let children = pair.children();
        let ghost all = view_nodes(children@);
        let mut attributes: Vec<Attribute> = Vec::new();
        let mut name = String::new();
        let mut params: Vec<Param> = Vec::new();
        let mut return_type = String::new();
        let mut statements: Vec<Statement> = Vec::new();
        let mut failed = false;
        let mut i: usize = 0;
        proof {
            assert(all.take(0) =~= Seq::empty());
            assert(view_seq(attributes@) =~= Seq::empty());
            assert(view_seq(params@) =~= Seq::empty());
            assert(view_statements(statements@) =~= Seq::empty());
        }
        while i < children.len()
            invariant
                i <= children.len(),
                all == view_nodes(children@),
                FunctionView::after_pairs(Some(FunctionView::blank(pos)), all.take(i as int)) == (
                if failed {
                    None
                } else {
                    Some(
                        FunctionView {
                            pos,
                            attributes: view_seq(attributes@),
                            name: name@,
                            params: view_seq(params@),
                            return_type: return_type@,
                            statements: view_statements(statements@),
                        },
                    )
                }),
            decreases children.len() - i,
        {
            let ghost start = Some(FunctionView::blank(pos));
            let ghost next = all.take(i as int + 1);
            let ghost so_far = FunctionView::after_pairs(start, all.take(i as int));
            proof {
                assert(next.drop_last() =~= all.take(i as int));
                assert(next.last() == children@[i as int]@);
                assert(FunctionView::after_pairs(start, next) == match so_far {
                    Some(function) => function.after_pair(children@[i as int]@),
                    None => None,
                });
            }
            if !failed {
                let child = &children[i];
                match child.as_rule() {
                    Rule::AttributeList => match Attribute::from_pairs(child.children()) {
                        Some(more) => {
                            let mut more = more;
                            proof {
                                lemma_view_seq_add(attributes@, more@);
                            }
                            attributes.append(&mut more);
                        },
                        None => {
                            failed = true;
                        },
                    },
                    Rule::Ident | Rule::Operator => {
                        let mut joined = owned(child.as_str());
                        joined.append(name.as_str());
                        name = joined;
                    },
                    Rule::ParamList => match Param::from_pairs(child.children()) {
                        Some(more) => {
                            let mut more = more;
                            proof {
                                lemma_view_seq_add(params@, more@);
                            }
                            params.append(&mut more);
                        },
                        None => {
                            failed = true;
                        },
                    },
                    Rule::Type => {
                        let mut joined = owned(child.as_str());
                        joined.append(return_type.as_str());
                        return_type = joined;
                    },
                    Rule::ExecutableBody => match Statement::from_pairs(child.children()) {
                        Some(more) => {
                            let mut more = more;
                            proof {
                                assert(view_statements(statements@ + more@) =~= view_statements(
                                    statements@,
                                ) + view_statements(more@));
                            }
                            statements.append(&mut more);
                        },
                        None => {
                            failed = true;
                        },
                    },
                    _ => {},
                }
            }
            i += 1;
        }
        proof {
            assert(all.take(children.len() as int) =~= all);
        }
        if failed {
            None
        } else {
            Some(Function::new(pos, attributes, name, params, return_type, statements))
        }
    }
}

impl FunctionCall {
    /// A copy of the call and all below it.
    pub fn duplicate(&self) -> (copy: Self)
        ensures
            copy@ == self@,
        decreases self@,
    {
        FunctionCall::new(
            self.get_pos(),
            self.name.clone(),
            copy_expressions(self.param_exprs()),
        )
    }
}

impl Function {
    /// A copy of the function and all below it.
    pub fn duplicate(&self) -> (copy: Self)
        ensures
            copy@ == self@,
    {
        Function::new(
            self.pos,
            copy_attributes(&self.attributes),
            self.name.clone(),
            copy_params(&self.params),
            self.return_type.clone(),
            copy_statements(&self.statements),
        )
    }
}

impl Clone for FunctionCall {
    fn clone(&self) -> (res: Self)
        ensures
            res@ == self@,
    {
        self.duplicate()
    }
}

impl Clone for Function {
    fn clone(&self) -> (res: Self)
        ensures
            res@ == self@,
    {
        self.duplicate()
    }
}

} // verus!
