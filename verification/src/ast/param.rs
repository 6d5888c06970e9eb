use vstd::prelude::*;
use crate::parser::{view_nodes, ParseNode, ParseNodeView, Rule};
use crate::text::owned;
use crate::ast::node::{all_some, opt_view, opt_view_seq, view_seq};

verus! {

/// Model of a [`Param`].
pub struct ParamView {
    pub pos: (usize, usize),
    pub name: Seq<char>,
    pub ty: Seq<char>,
}

/// A formal parameter of a function or closure.
#[derive(Debug)]
pub struct Param {
    pos: (usize, usize),
    name: String,
    ty: String,
}

impl View for Param {
    type V = ParamView;

    closed spec fn view(&self) -> ParamView {
        ParamView { pos: self.pos, name: self.name@, ty: self.ty@ }
    }
}

impl Clone for Param {
    fn clone(&self) -> (res: Self)
        ensures
            res@ == self@,
    {
        Param { pos: self.pos, name: self.name.clone(), ty: self.ty.clone() }
    }
}

impl Param {
    pub fn get_type(&self) -> (ty: &str)
        ensures
            ty@ == self@.ty,
    {
        self.ty.as_str()
    }

    pub fn get_name(&self) -> (name: &str)
        ensures
            name@ == self@.name,
    {
        self.name.as_str()
    }

    pub fn new(pos: (usize, usize), name: String, ty: String) -> (param: Self)
        ensures
            param@ == (ParamView { pos, name: name@, ty: ty@ }),
    {
        Param { pos, name, ty }
    }

    pub fn get_pos(&self) -> (pos: (usize, usize))
        ensures
            pos == self@.pos,
    {
        self.pos
    }
}

impl ParamView {
    /// The parameter that a match of the `IdentTypePair` rule stands for: it
    /// has the position of the match, the text of its first child as its name
    /// and the text of its second child as its type.
    pub open spec fn from_pair(pair: ParseNodeView) -> Option<ParamView> {
        if pair.rule == Rule::IdentTypePair && pair.children.len() >= 2 {
            Some(ParamView { pos: pair.pos, name: pair.children[0].text, ty: pair.children[1].text })
        } else {
            None
        }
    }

    /// The parameters that a list of matches stands for, or `None` where one
    /// of them stands for none.
    pub open spec fn from_pairs(pairs: Seq<ParseNodeView>) -> Option<Seq<ParamView>> {
        all_some(Seq::new(pairs.len(), |i: int| ParamView::from_pair(pairs[i])))
    }
}

impl Param {
    pub fn from_pair(pair: &ParseNode) -> (param: Option<Self>)
        ensures
            opt_view(param) == ParamView::from_pair(pair@),
    {
        let children = pair.children();
        if pair.as_rule() == Rule::IdentTypePair && children.len() >= 2 {
            proof {
                assert(pair@.children[0] == children@[0]@);
                assert(pair@.children[1] == children@[1]@);
            }
            Some(
                Param {
                    pos: pair.get_pos(),
                    name: owned(children[0].as_str()),
                    ty: owned(children[1].as_str()),
                },
            )
        } else {
            None
        }
    }

    /// The parameters that a list of matches of the `IdentTypePair` rule
    /// stands for.
    pub fn from_pairs(pairs: &Vec<ParseNode>) -> (params: Option<Vec<Param>>)
        ensures
            opt_view_seq(params) == ParamView::from_pairs(view_nodes(pairs@)),
    {
        let ghost all = view_nodes(pairs@);
        let ghost items = Seq::new(all.len(), |i: int| ParamView::from_pair(all[i]));
        let mut params: Vec<Param> = Vec::new();
        let mut i: usize = 0;
        while i < pairs.len()
            invariant
                i <= pairs.len(),
                all == view_nodes(pairs@),
                items == Seq::new(all.len(), |i: int| ParamView::from_pair(all[i])),
                params@.len() == i,
                forall|j: int| 0 <= j < i ==> items[j] == Some((#[trigger] params@[j])@),
            decreases pairs.len() - i,
        {
            match Param::from_pair(&pairs[i]) {
                Some(param) => {
                    params.push(param);
                },
                None => {
                    assert(items[i as int] is None);
                    return None;
                },
            }
            i += 1;
        }
        proof {
            assert forall|j: int| 0 <= j < items.len() implies (#[trigger] items[j]) is Some by {
                assert(items[j] == Some(params@[j]@));
            }
            assert(view_seq(params@) =~= all_some(items)->Some_0);
        }
        Some(params)
    }
}

/// A copy of a list of parameters.
pub fn copy_params(nodes: &Vec<Param>) -> (copy: Vec<Param>)
    ensures
        view_seq(copy@) == view_seq(nodes@),
{
    let mut copy: Vec<Param> = Vec::new();
    let mut i: usize = 0;
    while i < nodes.len()
        invariant
            i <= nodes.len(),
            copy@.len() == i,
            forall|j: int| 0 <= j < i ==> (#[trigger] copy@[j])@ == nodes@[j]@,
        decreases nodes.len() - i,
    {
        copy.push(nodes[i].clone());
        i += 1;
    }
    proof {
        assert(view_seq(copy@) =~= view_seq(nodes@));
    }
    copy
}

} // verus!
