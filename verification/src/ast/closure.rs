use vstd::prelude::*;
use super::param::copy_params;
use super::statement::copy_statements;
use vstd::string::StringExecFns;
use crate::parser::{view_nodes, ParseNode, ParseNodeView, Rule};
use crate::text::owned;
use crate::ast::node::{lemma_view_seq_add, opt_view};
use super::node::view_seq;
use super::param::{Param, ParamView};
use super::statement::{view_statements, Statement, StatementView};

verus! {

/// Model of a [`Closure`].
pub struct ClosureView {
    pub pos: (usize, usize),
    pub params: Seq<ParamView>,
    pub return_type: Seq<char>,
    pub statements: Seq<StatementView>,
}

/// An anonymous function value; it may stand wherever an expression may.
#[derive(Debug)]
pub struct Closure {
    pos: (usize, usize),
    params: Vec<Param>,
    return_type: String,
    statements: Vec<Statement>,
}

impl Closure {
    pub closed spec fn model(&self) -> ClosureView
        decreases self,
    {
        ClosureView {
            pos: self.pos,
            params: view_seq(self.params@),
            return_type: self.return_type@,
            statements: Seq::new(
                self.statements@.len(),
                |i: int|
                    if 0 <= i < self.statements@.len() {
                        self.statements@[i].model()
                    } else {
                        arbitrary()
                    },
            ),
        }
    }

    proof fn lemma_statements(&self)
        ensures
            self.model().statements == view_statements(self.statements@),
    {
        assert(self.model().statements =~= view_statements(self.statements@));
    }

    pub fn get_params(&mut self) -> (params: &mut Vec<Param>)
        ensures
            view_seq(params@) == old(self)@.params,
            final(self)@ == (ClosureView { params: view_seq(final(params)@), ..old(self)@ }),
    {
        proof {
            assert forall|v: Vec<Param>|
                (#[trigger] Closure {
                    pos: self.pos,
                    params: v,
                    return_type: self.return_type,
                    statements: self.statements,
                }.model()).statements == self.model().statements by {
                (Closure {
                    pos: self.pos,
                    params: v,
                    return_type: self.return_type,
                    statements: self.statements,
                }).lemma_statements();
                self.lemma_statements();
            }
        }
        &mut self.params
    }

    pub fn get_return_type(&self) -> (return_type: &str)
        ensures
            return_type@ == self@.return_type,
    {
        self.return_type.as_str()
    }

    pub fn get_statements(&mut self) -> (statements: &mut Vec<Statement>)
        ensures
            view_statements(statements@) == old(self)@.statements,
            final(self)@ == (ClosureView {
                statements: view_statements(final(statements)@),
                ..old(self)@
            }),
    {
        proof {
            self.lemma_statements();
            assert forall|v: Vec<Statement>|
                (#[trigger] Closure {
                    pos: self.pos,
                    params: self.params,
                    return_type: self.return_type,
                    statements: v,
                }.model()).statements == view_statements(v@) by {
                (Closure {
                    pos: self.pos,
                    params: self.params,
                    return_type: self.return_type,
                    statements: v,
                }).lemma_statements();
            }
        }
        &mut self.statements
    }

    pub fn new(
        pos: (usize, usize),
        params: Vec<Param>,
        return_type: String,
        statements: Vec<Statement>,
    ) -> (closure: Self)
        ensures
            closure@ == (ClosureView {
                pos,
                params: view_seq(params@),
                return_type: return_type@,
                statements: view_statements(statements@),
            }),
    {
        let closure = Closure { pos, params, return_type, statements };
        proof {
            closure.lemma_statements();
        }
        closure
    }

    pub fn get_pos(&self) -> (pos: (usize, usize))
        ensures
            pos == self@.pos,
    {
        self.pos
    }

    /// The parameters, for reading.
    pub fn params(&self) -> (params: &Vec<Param>)
        ensures
            view_seq(params@) == self@.params,
    {
        &self.params
    }

    /// The statements, for reading.
    pub fn statements(&self) -> (statements: &Vec<Statement>)
        ensures
            view_statements(statements@) == self@.statements,
    {
        proof {
            self.lemma_statements();
        }
        &self.statements
    }
}

impl View for Closure {
    type V = ClosureView;

    open spec fn view(&self) -> ClosureView {
        self.model()
    }
}

impl ClosureView {
    /// A closure at `pos` with nothing in it yet.
    pub open spec fn blank(pos: (usize, usize)) -> ClosureView {
        ClosureView {
            pos,
            params: Seq::empty(),
            return_type: Seq::empty(),
            statements: Seq::empty(),
        }
    }

    /// The closure with what one more child of its match gives it: a
    /// `ParamList` gives parameters, a `Type` the return type, an
    /// `ExecutableBody` statements; any other child gives nothing.
    pub open spec fn after_pair(self, child: ParseNodeView) -> Option<ClosureView>
        decreases child, 0nat,
    {
        match child.rule {
            Rule::ParamList => match ParamView::from_pairs(child.children) {
                Some(params) => Some(ClosureView { params: self.params + params, ..self }),
                None => None,
            },
            Rule::Type => Some(ClosureView { return_type: child.text + self.return_type, ..self }),
            Rule::ExecutableBody => match StatementView::from_pairs(child.children) {
                Some(statements) => Some(
                    ClosureView { statements: self.statements + statements, ..self },
                ),
                None => None,
            },
            _ => Some(self),
        }
    }

    /// The closure with what more children of its match give it, in order.
    pub open spec fn after_pairs(
        start: Option<ClosureView>,
        children: Seq<ParseNodeView>,
    ) -> Option<ClosureView>
        decreases children, 0nat,
    {
        if children.len() == 0 {
            start
        } else {
            match ClosureView::after_pairs(start, children.drop_last()) {
                Some(closure) => closure.after_pair(children.last()),
                None => None,
            }
        }
    }

    /// The closure that a match of the `Closure` rule stands for.
    pub open spec fn from_pair(pair: ParseNodeView) -> Option<ClosureView>
        decreases pair, 0nat,
    {
        if pair.rule == Rule::Closure {
            ClosureView::after_pairs(Some(ClosureView::blank(pair.pos)), pair.children)
        } else {
            None
        }
    }
}

impl Closure {
    pub fn from_pair(pair: &ParseNode) -> (node: Option<Self>)
        ensures
            opt_view(node) == ClosureView::from_pair(pair@),
        decreases pair@, 0nat,
    {
        if pair.as_rule() != Rule::Closure {
            return None;
        }
        let pos = pair.get_pos();
        let children = pair.children();
        let ghost all = view_nodes(children@);
        let mut params: Vec<Param> = Vec::new();
        let mut return_type = String::new();
        let mut statements: Vec<Statement> = Vec::new();
        let mut failed = false;
        let mut i: usize = 0;
        proof {
            assert(all.take(0) =~= Seq::empty());
            assert(view_seq(params@) =~= Seq::empty());
            assert(view_statements(statements@) =~= Seq::empty());
        }
        while i < children.len()
            invariant
                i <= children.len(),
                all == view_nodes(children@),
                all == pair@.children,
                ClosureView::after_pairs(Some(ClosureView::blank(pos)), all.take(i as int)) == (
                if failed {
                    None
                } else {
                    Some(
                        ClosureView {
                            pos,
                            params: view_seq(params@),
                            return_type: return_type@,
                            statements: view_statements(statements@),
                        },
                    )
                }),
            decreases children.len() - i,
        {
            proof {
                assert(all.take(i as int + 1).drop_last() =~= all.take(i as int));
                assert(all.take(i as int + 1).last() == children@[i as int]@);
                assert(all[i as int] == children@[i as int]@);
                assert(decreases_to!(pair@ => pair@.children));
                assert(decreases_to!(all => all[i as int]));
            }
            let ghost start = Some(ClosureView::blank(pos));
            let ghost next = all.take(i as int + 1);
            let ghost so_far = ClosureView::after_pairs(start, all.take(i as int));
            proof {
                assert(ClosureView::after_pairs(start, next) == match so_far {
                    Some(closure) => closure.after_pair(all[i as int]),
                    None => None,
                });
            }
            if !failed {
                let child = &children[i];
                match child.as_rule() {
                    Rule::ParamList => match Param::from_pairs(child.children()) {
                        Some(more) => {
                            let mut more = more;
                            proof {
                                lemma_view_seq_add(params@, more@);
                            }
                            params.append(&mut more);
                        },
                        None => {
                            failed = true;
                        },
                    },
                    Rule::Type => {
                        let mut joined = owned(child.as_str());
                        joined.append(return_type.as_str());
                        return_type = joined;
                    },
                    Rule::ExecutableBody => match Statement::from_pairs(child.children()) {
                        Some(more) => {
                            let mut more = more;
                            proof {
                                assert(view_statements(statements@ + more@) =~= view_statements(
                                    statements@,
                                ) + view_statements(more@));
                            }
                            statements.append(&mut more);
                        },
                        None => {
                            failed = true;
                        },
                    },
                    _ => {},
                }
            }
            i += 1;
        }
        proof {
            assert(all.take(children.len() as int) =~= all);
        }
        if failed {
            None
        } else {
            Some(Closure::new(pos, params, return_type, statements))
        }
    }
}

impl Closure {
    /// A copy of the closure and all below it.
    pub fn duplicate(&self) -> (copy: Self)
        ensures
            copy@ == self@,
        decreases self@,
    {
        Closure::new(
            self.get_pos(),
            copy_params(&self.params),
            self.return_type.clone(),
            copy_statements(self.statements()),
        )
    }
}

impl Clone for Closure {
    fn clone(&self) -> (res: Self)
        ensures
            res@ == self@,
    {
        self.duplicate()
    }
}

} // verus!
