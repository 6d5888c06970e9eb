use vstd::prelude::*;
use super::attribute::copy_attributes;
use crate::parser::{view_nodes, ParseNode, ParseNodeView, Rule};
use crate::text::owned;
use crate::ast::node::{opt_view};
use super::attribute::{Attribute, AttributeView};
use super::function::{Function, FunctionView};
use super::node::view_seq;

verus! {

/// Model of a [`Class`].
pub struct ClassView {
    pub pos: (usize, usize),
    pub attributes: Seq<AttributeView>,
    pub name: Seq<char>,
    pub super_name: Seq<char>,
    pub implemented_interfaces: Seq<Seq<char>>,
    pub members: Seq<ClassMemberView>,
}

/// Model of a [`ClassMember`].
pub enum ClassMemberView {
    Field(FieldView),
    Method(FunctionView),
    Block(BlockView),
}

/// Model of a [`Field`].
pub struct FieldView {
    pub pos: (usize, usize),
    pub attributes: Seq<AttributeView>,
    pub name: Seq<char>,
    pub ty: Seq<char>,
}

/// Model of a [`Block`].
pub struct BlockView {
    pub pos: (usize, usize),
    pub attributes: Seq<AttributeView>,
    pub members: Seq<ClassMemberView>,
}

/// A class declaration.
#[derive(Debug)]
pub struct Class {
    pos: (usize, usize),
    attributes: Vec<Attribute>,
    name: String,
    super_name: String,
    implemented_interfaces: Vec<String>,
    members: Vec<ClassMember>,
}

/// What a class body or a block can hold.
#[derive(Debug)]
pub enum ClassMember {
    Field(Field),
    Method(Function),
    Block(Block),
}

/// A field of a class.
#[derive(Debug)]
pub struct Field {
    pos: (usize, usize),
    attributes: Vec<Attribute>,
    name: String,
    ty: String,
}

/// A group of members under shared attributes.
#[derive(Debug)]
pub struct Block {
    pos: (usize, usize),
    attributes: Vec<Attribute>,
    members: Vec<ClassMember>,
}

/// The models of the members of a class body or a block, in order.
pub open spec fn view_members(s: Seq<ClassMember>) -> Seq<ClassMemberView> {
    Seq::new(s.len(), |i: int| s[i]@)
}

impl View for Class {
    type V = ClassView;

    closed spec fn view(&self) -> ClassView {
        ClassView {
            pos: self.pos,
            attributes: view_seq(self.attributes@),
            name: self.name@,
            super_name: self.super_name@,
            implemented_interfaces: view_seq(self.implemented_interfaces@),
            members: view_members(self.members@),
        }
    }
}

impl Class {
    pub fn get_attributes(&mut self) -> (attributes: &mut Vec<Attribute>)
        ensures
            view_seq(attributes@) == old(self)@.attributes,
            final(self)@ == (ClassView { attributes: view_seq(final(attributes)@), ..old(self)@ }),
    {
        &mut self.attributes
    }

    pub fn get_name(&self) -> (name: &str)
        ensures
            name@ == self@.name,
    {
        self.name.as_str()
    }

    pub fn get_super_name(&self) -> (super_name: &str)
        ensures
            super_name@ == self@.super_name,
    {
        self.super_name.as_str()
    }

    pub fn get_implemented_interfaces(&mut self) -> (interfaces: &mut Vec<String>)
        ensures
            view_seq(interfaces@) == old(self)@.implemented_interfaces,
            final(self)@ == (ClassView {
                implemented_interfaces: view_seq(final(interfaces)@),
                ..old(self)@
            }),
    {
        &mut self.implemented_interfaces
    }

    pub fn get_members(&mut self) -> (members: &mut Vec<ClassMember>)
        ensures
            view_members(members@) == old(self)@.members,
            final(self)@ == (ClassView { members: view_members(final(members)@), ..old(self)@ }),
    {
        &mut self.members
    }

    pub fn new(
        pos: (usize, usize),
        attributes: Vec<Attribute>,
        name: String,
        super_name: String,
        implemented_interfaces: Vec<String>,
        members: Vec<ClassMember>,
    ) -> (class: Self)
        ensures
            class@ == (ClassView {
                pos,
                attributes: view_seq(attributes@),
                name: name@,
                super_name: super_name@,
                implemented_interfaces: view_seq(implemented_interfaces@),
                members: view_members(members@),
            }),
    {
        Class { pos, attributes, name, super_name, implemented_interfaces, members }
    }

    pub fn get_pos(&self) -> (pos: (usize, usize))
        ensures
            pos == self@.pos,
    {
        self.pos
    }

    /// The attributes, for reading.
    pub fn attributes(&self) -> (attributes: &Vec<Attribute>)
        ensures
            view_seq(attributes@) == self@.attributes,
    {
        &self.attributes
    }

    /// The names of the implemented interfaces, for reading.
    pub fn implemented_interfaces(&self) -> (interfaces: &Vec<String>)
        ensures
            view_seq(interfaces@) == self@.implemented_interfaces,
    {
        &self.implemented_interfaces
    }

    /// The members, for reading.
    pub fn members(&self) -> (members: &Vec<ClassMember>)
        ensures
            view_members(members@) == self@.members,
    {
        &self.members
    }

    /// Takes the class apart into its position, attributes, name, superclass
    /// name, interface names and members.
    pub fn into_parts(self) -> (parts: (
        (usize, usize),
        Vec<Attribute>,
        String,
        String,
        Vec<String>,
        Vec<ClassMember>,
    ))
        ensures
            parts.0 == self@.pos,
            view_seq(parts.1@) == self@.attributes,
            parts.2@ == self@.name,
            parts.3@ == self@.super_name,
            view_seq(parts.4@) == self@.implemented_interfaces,
            view_members(parts.5@) == self@.members,
    {
        (
            self.pos,
            self.attributes,
            self.name,
            self.super_name,
            self.implemented_interfaces,
            self.members,
        )
    }
}

impl ClassMember {
    pub open spec fn model(&self) -> ClassMemberView
        decreases self,
    {
        match self {
            ClassMember::Field(f) => ClassMemberView::Field(f@),
            ClassMember::Method(m) => ClassMemberView::Method(m@),
            ClassMember::Block(b) => ClassMemberView::Block(b.model()),
        }
    }
}

impl View for ClassMember {
    type V = ClassMemberView;

    open spec fn view(&self) -> ClassMemberView {
        self.model()
    }
}

impl View for Field {
    type V = FieldView;

    closed spec fn view(&self) -> FieldView {
        FieldView {
            pos: self.pos,
            attributes: view_seq(self.attributes@),
            name: self.name@,
            ty: self.ty@,
        }
    }
}

impl Field {
    pub fn get_attributes(&mut self) -> (attributes: &mut Vec<Attribute>)
        ensures
            view_seq(attributes@) == old(self)@.attributes,
            final(self)@ == (FieldView { attributes: view_seq(final(attributes)@), ..old(self)@ }),
    {
        &mut self.attributes
    }

    pub fn get_name(&self) -> (name: &str)
        ensures
            name@ == self@.name,
    {
        self.name.as_str()
    }

    pub fn get_type_name(&self) -> (ty: &str)
        ensures
            ty@ == self@.ty,
    {
        self.ty.as_str()
    }

    pub fn new(pos: (usize, usize), attributes: Vec<Attribute>, name: String, ty: String) -> (field:
        Self)
        ensures
            field@ == (FieldView { pos, attributes: view_seq(attributes@), name: name@, ty: ty@ }),
    {
        Field { pos, attributes, name, ty }
    }

    pub fn get_pos(&self) -> (pos: (usize, usize))
        ensures
            pos == self@.pos,
    {
        self.pos
    }

    /// The attributes, for reading.
    pub fn attributes(&self) -> (attributes: &Vec<Attribute>)
        ensures
            view_seq(attributes@) == self@.attributes,
    {
        &self.attributes
    }
}

impl Block {
    pub closed spec fn model(&self) -> BlockView
        decreases self,
    {
        BlockView {
            pos: self.pos,
            attributes: view_seq(self.attributes@),
            members: Seq::new(
                self.members@.len(),
                |i: int|
                    if 0 <= i < self.members@.len() {
                        self.members@[i].model()
                    } else {
                        arbitrary()
                    },
            ),
        }
    }

    proof fn lemma_members(&self)
        ensures
            self.model().members == view_members(self.members@),
    {
        assert(self.model().members =~= view_members(self.members@));
    }

    pub fn get_attributes(&mut self) -> (attributes: &mut Vec<Attribute>)
        ensures
            view_seq(attributes@) == old(self)@.attributes,
            final(self)@ == (BlockView { attributes: view_seq(final(attributes)@), ..old(self)@ }),
    {
        proof {
            assert forall|v: Vec<Attribute>|
                (#[trigger] Block { pos: self.pos, attributes: v, members: self.members }.model()).members
                    == self.model().members by {
                (Block { pos: self.pos, attributes: v, members: self.members }).lemma_members();
                self.lemma_members();
            }
        }
        &mut self.attributes
    }

    pub fn get_members(&mut self) -> (members: &mut Vec<ClassMember>)
        ensures
            view_members(members@) == old(self)@.members,
            final(self)@ == (BlockView { members: view_members(final(members)@), ..old(self)@ }),
    {
        proof {
            self.lemma_members();
            assert forall|v: Vec<ClassMember>|
                (#[trigger] Block { pos: self.pos, attributes: self.attributes, members: v }.model()).members
                    == view_members(v@) by {
                (Block { pos: self.pos, attributes: self.attributes, members: v }).lemma_members();
            }
        }
        &mut self.members
    }

    pub fn new(pos: (usize, usize), attributes: Vec<Attribute>, members: Vec<ClassMember>) -> (block:
        Self)
        ensures
            block@ == (BlockView {
                pos,
                attributes: view_seq(attributes@),
                members: view_members(members@),
            }),
    {
        let block = Block { pos, attributes, members };
        proof {
            block.lemma_members();
        }
        block
    }

    pub fn get_pos(&self) -> (pos: (usize, usize))
        ensures
            pos == self@.pos,
    {
        self.pos
    }

    /// The attributes, for reading.
    pub fn attributes(&self) -> (attributes: &Vec<Attribute>)
        ensures
            view_seq(attributes@) == self@.attributes,
    {
        &self.attributes
    }

    /// The members, for reading.
    pub fn members(&self) -> (members: &Vec<ClassMember>)
        ensures
            view_members(members@) == self@.members,
    {
        proof {
            self.lemma_members();
        }
        &self.members
    }

    /// Takes the block apart into its attributes and its members.
    pub fn into_parts(self) -> (parts: (Vec<Attribute>, Vec<ClassMember>))
        ensures
            view_seq(parts.0@) == self@.attributes,
            view_members(parts.1@) == self@.members,
    {
        proof {
            self.lemma_members();
        }
        (self.attributes, self.members)
    }
}

impl View for Block {
    type V = BlockView;

    open spec fn view(&self) -> BlockView {
        self.model()
    }
}

/// The texts of a list of matches, in order.
pub open spec fn texts(pairs: Seq<ParseNodeView>) -> Seq<Seq<char>> {
    Seq::new(pairs.len(), |i: int| pairs[i].text)
}

/// The texts of a list of matches, in order.
pub fn texts_of(pairs: &Vec<ParseNode>) -> (list: Vec<String>)
    ensures
        view_seq(list@) == texts(view_nodes(pairs@)),
{
    let mut list: Vec<String> = Vec::new();
    let mut i: usize = 0;
    while i < pairs.len()
        invariant
            i <= pairs.len(),
            list@.len() == i,
            forall|j: int| 0 <= j < i ==> (#[trigger] list@[j])@ == pairs@[j]@.text,
        decreases pairs.len() - i,
    {
        list.push(owned(pairs[i].as_str()));
        i += 1;
    }
    proof {
        assert(view_seq(list@) =~= texts(view_nodes(pairs@)));
    }
    list
}

impl FieldView {
    /// The field that a match of the `FieldDecl` rule stands for: it has the
    /// position of the match; its attributes are what the children of its
    /// first child stand for; the text of its second child is its name and
    /// that of its third its type.
    pub open spec fn from_pair(pair: ParseNodeView) -> Option<FieldView> {
        if pair.rule == Rule::FieldDecl && pair.children.len() >= 3 {
            match AttributeView::from_pairs(pair.children[0].children) {
                Some(attributes) => Some(
                    FieldView {
                        pos: pair.pos,
                        attributes,
                        name: pair.children[1].text,
                        ty: pair.children[2].text,
                    },
                ),
                None => None,
            }
        } else {
            None
        }
    }
}

impl Field {
    pub fn from_pair(pair: &ParseNode) -> (node: Option<Self>)
        ensures
            opt_view(node) == FieldView::from_pair(pair@),
    {
        let children = pair.children();
        if pair.as_rule() == Rule::FieldDecl && children.len() >= 3 {
            proof {
                assert(pair@.children[0] == children@[0]@);
                assert(pair@.children[1] == children@[1]@);
                assert(pair@.children[2] == children@[2]@);
            }
            match Attribute::from_pairs(children[0].children()) {
                Some(attributes) => Some(
                    Field {
                        pos: pair.get_pos(),
                        attributes,
                        name: owned(children[1].as_str()),
                        ty: owned(children[2].as_str()),
                    },
                ),
                None => None,
            }
        } else {
            None
        }
    }
}

impl ClassMemberView {
    /// The member that a match inside a class or block stands for: a
    /// `FieldDecl` stands for a field, a `MethodDecl` for a method, and a
    /// `BlockDecl` for a block; a match of any other rule stands for none.
    pub open spec fn from_pair(pair: ParseNodeView) -> Option<ClassMemberView> {
        match pair.rule {
            Rule::FieldDecl => match FieldView::from_pair(pair) {
                Some(f) => Some(ClassMemberView::Field(f)),
                None => None,
            },
            Rule::MethodDecl => match FunctionView::from_pair(pair) {
                Some(m) => Some(ClassMemberView::Method(m)),
                None => None,
            },
            Rule::BlockDecl => match BlockView::from_pair(pair) {
                Some(b) => Some(ClassMemberView::Block(b)),
                None => None,
            },
            _ => None,
        }
    }
}

impl BlockView {
    /// The member that a match inside a block stands for: a field or a method.
    pub open spec fn member_from_pair(pair: ParseNodeView) -> Option<ClassMemberView> {
        match pair.rule {
            Rule::FieldDecl => match FieldView::from_pair(pair) {
                Some(f) => Some(ClassMemberView::Field(f)),
                None => None,
            },
            Rule::MethodDecl => match FunctionView::from_pair(pair) {
                Some(m) => Some(ClassMemberView::Method(m)),
                None => None,
            },
            _ => None,
        }
    }

    /// The block with the member that one more child of its match stands for.
    pub open spec fn after_pair(self, child: ParseNodeView) -> Option<BlockView> {
        match BlockView::member_from_pair(child) {
            Some(member) => Some(BlockView { members: self.members.push(member), ..self }),
            None => None,
        }
    }

    /// The block with the members that more children of its match stand for,
    /// in order.
    pub open spec fn after_pairs(
        start: Option<BlockView>,
        children: Seq<ParseNodeView>,
    ) -> Option<BlockView>
        decreases children.len(),
    {
        if children.len() == 0 {
            start
        } else {
            match BlockView::after_pairs(start, children.drop_last()) {
                Some(block) => block.after_pair(children.last()),
                None => None,
            }
        }
    }

    /// The block that a match of the `BlockDecl` rule stands for: it has the
    /// position of the match; its attributes are what the children of its
    /// first child stand for; its members are what its other children stand
    /// for, each a field or a method.
    pub open spec fn from_pair(pair: ParseNodeView) -> Option<BlockView> {
        if pair.rule == Rule::BlockDecl && pair.children.len() >= 1 {
            match AttributeView::from_pairs(pair.children[0].children) {
                Some(attributes) => BlockView::after_pairs(
                    Some(BlockView { pos: pair.pos, attributes, members: Seq::empty() }),
                    pair.children.skip(1),
                ),
                None => None,
            }
        } else {
            None
        }
    }
}

impl Block {
    /// The member that a match inside a block stands for: a field or a method.
    pub fn member_from_pair(pair: &ParseNode) -> (node: Option<ClassMember>)
        ensures
            opt_view(node) == BlockView::member_from_pair(pair@),
    {
        match pair.as_rule() {
            Rule::FieldDecl => match Field::from_pair(pair) {
                Some(f) => Some(ClassMember::Field(f)),
                None => None,
            },
            Rule::MethodDecl => match Function::from_pair(pair) {
                Some(m) => Some(ClassMember::Method(m)),
                None => None,
            },
            _ => None,
        }
    }

    pub fn from_pair(pair: &ParseNode) -> (node: Option<Self>)
        ensures
            opt_view(node) == BlockView::from_pair(pair@),
    {
        let children = pair.children();
        if pair.as_rule() != Rule::BlockDecl || children.len() < 1 {
            return None;
        }
        proof {
            assert(pair@.children[0] == children@[0]@);
        }
        let pos = pair.get_pos();
        let attributes = match Attribute::from_pairs(children[0].children()) {
            Some(attributes) => attributes,
            None => {
                return None;
            },
        };
        let mut members: Vec<ClassMember> = Vec::new();
        let ghost rest = view_nodes(children@).skip(1);
        let ghost start = Some(
            BlockView { pos, attributes: view_seq(attributes@), members: Seq::empty() },
        );
        let mut failed = false;
        let mut i: usize = 1;
        proof {
            assert(rest.take(0) =~= Seq::empty());
            assert(view_members(members@) =~= Seq::empty());
        }
        while i < children.len()
            invariant
                1 <= i <= children.len(),
                rest == view_nodes(children@).skip(1),
                start == Some(
                    BlockView { pos, attributes: view_seq(attributes@), members: Seq::empty() },
                ),
                BlockView::after_pairs(start, rest.take(i - 1)) == (if failed {
                    None
                } else {
                    Some(
                        BlockView {
                            pos,
                            attributes: view_seq(attributes@),
                            members: view_members(members@),
                        },
                    )
                }),
            decreases children.len() - i,
        {
            let ghost next = rest.take(i - 1 + 1);
            let ghost so_far = BlockView::after_pairs(start, rest.take(i - 1));
            proof {
                assert(next.drop_last() =~= rest.take(i - 1));
                assert(next.last() == children@[i as int]@);
                assert(BlockView::after_pairs(start, next) == match so_far {
                    Some(block) => block.after_pair(children@[i as int]@),
                    None => None,
                });
            }
            if !failed {
                match Block::member_from_pair(&children[i]) {
                    Some(member) => {
                        let ghost before = members@;
                        members.push(member);
                        proof {
                            assert(view_members(members@) =~= view_members(before).push(member@));
                        }
                    },
                    None => {
                        failed = true;
                    },
                }
            }
            i += 1;
        }
        proof {
            assert(rest.take(children.len() - 1) =~= rest);
        }
        if failed {
            None
        } else {
            Some(Block::new(pos, attributes, members))
        }
    }
}

impl ClassView {
    /// The class with what one more child of its match gives it: an
    /// `InterfaceList` gives the names of interfaces; a `FieldDecl`, a
    /// `MethodDecl` or a `BlockDecl` gives a member; a match of any other rule
    /// has no place in a class.
    pub open spec fn after_pair(self, child: ParseNodeView) -> Option<ClassView> {
        match child.rule {
            Rule::InterfaceList => Some(
                ClassView {
                    implemented_interfaces: self.implemented_interfaces + texts(child.children),
                    ..self
                },
            ),
            _ => match ClassMemberView::from_pair(child) {
                Some(member) => Some(ClassView { members: self.members.push(member), ..self }),
                None => None,
            },
        }
    }

    /// The class with what more children of its match give it, in order.
    pub open spec fn after_pairs(
        start: Option<ClassView>,
        children: Seq<ParseNodeView>,
    ) -> Option<ClassView>
        decreases children.len(),
    {
        if children.len() == 0 {
            start
        } else {
            match ClassView::after_pairs(start, children.drop_last()) {
                Some(class) => class.after_pair(children.last()),
                None => None,
            }
        }
    }

    /// The class that a match of the `ClassDecl` rule stands for: it has the
    /// position of the match; its attributes are what the children of its
    /// first child stand for; the text of its second child is its name and
    /// that of its third the name of its superclass; its other children give
    /// it interfaces and members.
    pub open spec fn from_pair(pair: ParseNodeView) -> Option<ClassView> {
        if pair.rule == Rule::ClassDecl && pair.children.len() >= 3 {
            match AttributeView::from_pairs(pair.children[0].children) {
                Some(attributes) => ClassView::after_pairs(
                    Some(
                        ClassView {
                            pos: pair.pos,
                            attributes,
                            name: pair.children[1].text,
                            super_name: pair.children[2].text,
                            implemented_interfaces: Seq::empty(),
                            members: Seq::empty(),
                        },
                    ),
                    pair.children.skip(3),
                ),
                None => None,
            }
        } else {
            None
        }
    }
}

impl ClassMember {
    pub fn from_pair(pair: &ParseNode) -> (node: Option<Self>)
        ensures
            opt_view(node) == ClassMemberView::from_pair(pair@),
    {
        match pair.as_rule() {
            Rule::FieldDecl => match Field::from_pair(pair) {
                Some(f) => Some(ClassMember::Field(f)),
                None => None,
            },
            Rule::MethodDecl => match Function::from_pair(pair) {
                Some(m) => Some(ClassMember::Method(m)),
                None => None,
            },
            Rule::BlockDecl => match Block::from_pair(pair) {
                Some(b) => Some(ClassMember::Block(b)),
                None => None,
            },
            _ => None,
        }
    }
}

impl Class {
    pub fn from_pair(pair: &ParseNode) -> (node: Option<Self>)
        ensures
            opt_view(node) == ClassView::from_pair(pair@),
    {
        let children = pair.children();
        if pair.as_rule() != Rule::ClassDecl || children.len() < 3 {
            return None;
        }
        proof {
            assert(pair@.children[0] == children@[0]@);
            assert(pair@.children[1] == children@[1]@);
            assert(pair@.children[2] == children@[2]@);
        }
        let pos = pair.get_pos();
        let attributes = match Attribute::from_pairs(children[0].children()) {
            Some(attributes) => attributes,
            None => {
                return None;
            },
        };
        let name = owned(children[1].as_str());
        let super_name = owned(children[2].as_str());
        let mut implemented_interfaces: Vec<String> = Vec::new();
        let mut members: Vec<ClassMember> = Vec::new();
        let ghost rest = view_nodes(children@).skip(3);
        let ghost start = Some(
            ClassView {
                pos,
                attributes: view_seq(attributes@),
                name: name@,
                super_name: super_name@,
                implemented_interfaces: Seq::empty(),
                members: Seq::empty(),
            },
        );
        let mut failed = false;
        let mut i: usize = 3;
        proof {
            assert(rest.take(0) =~= Seq::empty());
            assert(view_seq(implemented_interfaces@) =~= Seq::empty());
            assert(view_members(members@) =~= Seq::empty());
        }
        while i < children.len()
            invariant
                3 <= i <= children.len(),
                rest == view_nodes(children@).skip(3),
                start == Some(
                    ClassView {
                        pos,
                        attributes: view_seq(attributes@),
                        name: name@,
                        super_name: super_name@,
                        implemented_interfaces: Seq::empty(),
                        members: Seq::empty(),
                    },
                ),
                ClassView::after_pairs(start, rest.take(i - 3)) == (if failed {
                    None
                } else {
                    Some(
                        ClassView {
                            pos,
                            attributes: view_seq(attributes@),
                            name: name@,
                            super_name: super_name@,
                            implemented_interfaces: view_seq(implemented_interfaces@),
                            members: view_members(members@),
                        },
                    )
                }),
            decreases children.len() - i,
        {
            let ghost next = rest.take(i - 3 + 1);
            let ghost so_far = ClassView::after_pairs(start, rest.take(i - 3));
            proof {
                assert(next.drop_last() =~= rest.take(i - 3));
                assert(next.last() == children@[i as int]@);
                assert(ClassView::after_pairs(start, next) == match so_far {
                    Some(class) => class.after_pair(children@[i as int]@),
                    None => None,
                });
            }
            if !failed {
                let child = &children[i];
                match child.as_rule() {
                    Rule::InterfaceList => {
                        let mut more = texts_of(child.children());
                        proof {
                            crate::ast::node::lemma_view_seq_add(implemented_interfaces@, more@);
                        }
                        implemented_interfaces.append(&mut more);
                    },
                    _ => match ClassMember::from_pair(child) {
                        Some(member) => {
                            let ghost before = members@;
                            members.push(member);
                            proof {
                                assert(view_members(members@) =~= view_members(before).push(
                                    member@,
                                ));
                            }
                        },
                        None => {
                            failed = true;
                        },
                    },
                }
            }
            i += 1;
        }
        proof {
            assert(rest.take(children.len() - 3) =~= rest);
        }
        if failed {
            None
        } else {
            Some(Class::new(pos, attributes, name, super_name, implemented_interfaces, members))
        }
    }
}

impl Field {
    /// A copy of the field and its attributes.
    pub fn duplicate(&self) -> (copy: Self)
        ensures
            copy@ == self@,
    {
        Field::new(self.pos, copy_attributes(&self.attributes), self.name.clone(), self.ty.clone())
    }
}

impl ClassMember {
    /// A copy of the member and all below it.
    pub fn duplicate(&self) -> (copy: Self)
        ensures
            copy@ == self@,
        decreases self@,
    {
        match self {
            ClassMember::Field(f) => ClassMember::Field(f.duplicate()),
            ClassMember::Method(m) => ClassMember::Method(m.duplicate()),
            ClassMember::Block(b) => {
                proof {
                    assert(self@->Block_0 == b@);
                }
                ClassMember::Block(b.duplicate())
            },
        }
    }
}

/// A copy of the members of a class or block.
pub fn copy_members(nodes: &Vec<ClassMember>) -> (copy: Vec<ClassMember>)
    ensures
        view_members(copy@) == view_members(nodes@),
    decreases view_members(nodes@),
{
    let ghost all = view_members(nodes@);
    let mut copy: Vec<ClassMember> = Vec::new();
    let mut i: usize = 0;
    while i < nodes.len()
        invariant
            i <= nodes.len(),
            all == view_members(nodes@),
            copy@.len() == i,
            forall|j: int| 0 <= j < i ==> (#[trigger] copy@[j])@ == nodes@[j]@,
        decreases nodes.len() - i,
    {
        proof {
            assert(all[i as int] == nodes@[i as int]@);
            assert(decreases_to!(all => all[i as int]));
        }
        copy.push(nodes[i].duplicate());
        i += 1;
    }
    proof {
        assert(view_members(copy@) =~= view_members(nodes@));
    }
    copy
}

impl Block {
    /// A copy of the block and all below it.
    pub fn duplicate(&self) -> (copy: Self)
        ensures
            copy@ == self@,
        decreases self@,
    {
        Block::new(self.get_pos(), copy_attributes(self.attributes()), copy_members(self.members()))
    }
}

impl Class {
    /// A copy of the class and all below it.
    pub fn duplicate(&self) -> (copy: Self)
        ensures
            copy@ == self@,
    {
        Class::new(
            self.pos,
            copy_attributes(&self.attributes),
            self.name.clone(),
            self.super_name.clone(),
            self.implemented_interfaces.clone(),
            copy_members(&self.members),
        )
    }
}

impl Clone for Field {
    fn clone(&self) -> (res: Self)
        ensures
            res@ == self@,
    {
        self.duplicate()
    }
}

impl Clone for ClassMember {
    fn clone(&self) -> (res: Self)
        ensures
            res@ == self@,
    {
        self.duplicate()
    }
}

impl Clone for Block {
    fn clone(&self) -> (res: Self)
        ensures
            res@ == self@,
    {
        self.duplicate()
    }
}

impl Clone for Class {
    fn clone(&self) -> (res: Self)
        ensures
            res@ == self@,
    {
        self.duplicate()
    }
}

} // verus!
