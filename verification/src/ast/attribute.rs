use vstd::prelude::*;
use crate::text::{owned, same_text};
use crate::ast::node::{all_some, opt_view, opt_view_seq, view_seq};
use crate::parser::{view_nodes, ParseNode, ParseNodeView, Rule};

verus! {

/// Model of an [`Attribute`].
pub struct AttributeView {
    pub pos: (usize, usize),
    pub name: Seq<char>,
}

/// A modifier marker on a declaration, such as `native` or `abstract`.
#[derive(Debug)]
pub struct Attribute {
    pos: (usize, usize),
    name: String,
}

impl View for Attribute {
    type V = AttributeView;

    closed spec fn view(&self) -> AttributeView {
        AttributeView { pos: self.pos, name: self.name@ }
    }
}

impl Clone for Attribute {
    fn clone(&self) -> (res: Self)
        ensures
            res@ == self@,
    {
        Attribute { pos: self.pos, name: self.name.clone() }
    }
}

impl Attribute {
    pub fn get_name(&self) -> (name: &str)
        ensures
            name@ == self@.name,
    {
        self.name.as_str()
    }

    pub fn new(pos: (usize, usize), name: String) -> (attribute: Self)
        ensures
            attribute@ == (AttributeView { pos, name: name@ }),
    {
        Attribute { pos, name }
    }

    /// Whether the attribute has this name.
    pub fn is_named(&self, name: &str) -> (same: bool)
        ensures
            same == (self@.name == name@),
    {
        same_text(self.name.as_str(), name)
    }

    pub fn get_pos(&self) -> (pos: (usize, usize))
        ensures
            pos == self@.pos,
    {
        self.pos
    }
}

impl AttributeView {
    /// The attribute that a match of the `Attribute` rule stands for: it has
    /// the position of the match and the text of its first child as its name.
    pub open spec fn from_pair(pair: ParseNodeView) -> Option<AttributeView> {
        if pair.rule == Rule::Attribute && pair.children.len() >= 1 {
            Some(AttributeView { pos: pair.pos, name: pair.children[0].text })
        } else {
            None
        }
    }

    /// The attributes that a list of matches stands for, or `None` where one
    /// of them stands for none.
    pub open spec fn from_pairs(pairs: Seq<ParseNodeView>) -> Option<Seq<AttributeView>> {
        all_some(Seq::new(pairs.len(), |i: int| AttributeView::from_pair(pairs[i])))
    }
}

impl Attribute {
    pub fn from_pair(pair: &ParseNode) -> (attribute: Option<Self>)
        ensures
            opt_view(attribute) == AttributeView::from_pair(pair@),
    {
        let children = pair.children();
        if pair.as_rule() == Rule::Attribute && children.len() >= 1 {
            proof {
                assert(pair@.children[0] == children@[0]@);
            }
            Some(Attribute { pos: pair.get_pos(), name: owned(children[0].as_str()) })
        } else {
            None
        }
    }

    /// The attributes that a list of matches of the `Attribute` rule stands
    /// for.
    pub fn from_pairs(pairs: &Vec<ParseNode>) -> (attributes: Option<Vec<Attribute>>)
        ensures
            opt_view_seq(attributes) == AttributeView::from_pairs(view_nodes(pairs@)),
    {
        let ghost all = view_nodes(pairs@);
        let ghost items = Seq::new(all.len(), |i: int| AttributeView::from_pair(all[i]));
        let mut attributes: Vec<Attribute> = Vec::new();
        let mut i: usize = 0;
        while i < pairs.len()
            invariant
                i <= pairs.len(),
                all == view_nodes(pairs@),
                items == Seq::new(all.len(), |i: int| AttributeView::from_pair(all[i])),
                attributes@.len() == i,
                forall|j: int| 0 <= j < i ==> items[j] == Some((#[trigger] attributes@[j])@),
            decreases pairs.len() - i,
        {
            match Attribute::from_pair(&pairs[i]) {
                Some(attribute) => {
                    attributes.push(attribute);
                },
                None => {
                    assert(items[i as int] is None);
                    return None;
                },
            }
            i += 1;
        }
        proof {
            assert forall|j: int| 0 <= j < items.len() implies (#[trigger] items[j]) is Some by {
                assert(items[j] == Some(attributes@[j]@));
            }
            assert(view_seq(attributes@) =~= all_some(items)->Some_0);
        }
        Some(attributes)
    }
}

/// A copy of a list of attributes.
pub fn copy_attributes(nodes: &Vec<Attribute>) -> (copy: Vec<Attribute>)
    ensures
        view_seq(copy@) == view_seq(nodes@),
{
    let mut copy: Vec<Attribute> = Vec::new();
    let mut i: usize = 0;
    while i < nodes.len()
        invariant
            i <= nodes.len(),
            copy@.len() == i,
            forall|j: int| 0 <= j < i ==> (#[trigger] copy@[j])@ == nodes@[j]@,
        decreases nodes.len() - i,
    {
        copy.push(nodes[i].clone());
        i += 1;
    }
    proof {
        assert(view_seq(copy@) =~= view_seq(nodes@));
    }
    copy
}

} // verus!
