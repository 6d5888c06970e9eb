use vstd::prelude::*;
use crate::ast::{
    view_members, view_seq, Attribute, AttributeView, Block, BlockView, Class, ClassMember,
    ClassMemberView, ClassView, FieldView, File, FileView, FirstClassEntity, FirstClassEntityView,
    FunctionView,
};
use crate::source_file::{SourceFile, SourceFileView};

verus! {

/// A member with `extra` appended to its own attributes.
pub open spec fn with_attributes(
    member: ClassMemberView,
    extra: Seq<AttributeView>,
) -> ClassMemberView {
    match member {
        ClassMemberView::Field(f) => ClassMemberView::Field(
            FieldView { attributes: f.attributes + extra, ..f },
        ),
        ClassMemberView::Method(m) => ClassMemberView::Method(
            FunctionView { attributes: m.attributes + extra, ..m },
        ),
        ClassMemberView::Block(b) => ClassMemberView::Block(
            BlockView { attributes: b.attributes + extra, ..b },
        ),
    }
}

/// Every member of `members` with `extra` appended to its own attributes.
pub open spec fn with_attributes_all(
    members: Seq<ClassMemberView>,
    extra: Seq<AttributeView>,
) -> Seq<ClassMemberView> {
    Seq::new(members.len(), |i: int| with_attributes(members[i], extra))
}

/// What a member that stands under `attributes` flattens to: a field or a
/// method becomes itself with `attributes` appended to its own; a nested block
/// becomes what it expands to, each with `attributes` appended after those of
/// the nested block.
pub open spec fn expanded_member(
    member: ClassMemberView,
    attributes: Seq<AttributeView>,
) -> Seq<ClassMemberView>
    decreases member,
{
    match member {
        ClassMemberView::Block(inner) => with_attributes_all(
            expanded_members(inner.members, inner.attributes),
            attributes,
        ),
        _ => seq![with_attributes(member, attributes)],
    }
}

/// The members of a block with attributes `attributes`, flattened depth first
/// in declaration order.
pub open spec fn expanded_members(
    members: Seq<ClassMemberView>,
    attributes: Seq<AttributeView>,
) -> Seq<ClassMemberView>
    decreases members,
{
    if members.len() == 0 {
        Seq::empty()
    } else {
        expanded_members(members.drop_last(), attributes) + expanded_member(
            members.last(),
            attributes,
        )
    }
}

/// What a block expands to: its fields and methods, at any depth, each with the
/// attributes of the blocks around it appended, innermost first.
pub open spec fn expanded_block(block: BlockView) -> Seq<ClassMemberView> {
    expanded_members(block.members, block.attributes)
}

/// The members that are no block, in declaration order.
pub open spec fn plain_members(members: Seq<ClassMemberView>) -> Seq<ClassMemberView>
    decreases members.len(),
{
    if members.len() == 0 {
        Seq::empty()
    } else if members.last() is Block {
        plain_members(members.drop_last())
    } else {
        plain_members(members.drop_last()).push(members.last())
    }
}

/// The expansions of the members that are blocks, in declaration order.
pub open spec fn expanded_blocks(members: Seq<ClassMemberView>) -> Seq<ClassMemberView>
    decreases members.len(),
{
    if members.len() == 0 {
        Seq::empty()
    } else {
        match members.last() {
            ClassMemberView::Block(b) => expanded_blocks(members.drop_last()) + expanded_block(b),
            _ => expanded_blocks(members.drop_last()),
        }
    }
}

/// The members of a normalised class: first those that were no block, then all
/// that the blocks expand to.
pub open spec fn normalized_members(members: Seq<ClassMemberView>) -> Seq<ClassMemberView> {
    plain_members(members) + expanded_blocks(members)
}

/// The class without blocks.
pub open spec fn normalized_class(class: ClassView) -> ClassView {
    ClassView { members: normalized_members(class.members), ..class }
}

/// A class is normalised; a function stays as it is.
pub open spec fn normalized_entity(entity: FirstClassEntityView) -> FirstClassEntityView {
    match entity {
        FirstClassEntityView::Class(c) => FirstClassEntityView::Class(normalized_class(c)),
        FirstClassEntityView::Function(f) => FirstClassEntityView::Function(f),
    }
}

/// The declarations of a file, each normalised.
pub open spec fn normalized_entities(
    entities: Seq<FirstClassEntityView>,
) -> Seq<FirstClassEntityView> {
    Seq::new(entities.len(), |i: int| normalized_entity(entities[i]))
}

/// The file with every class normalised.
pub open spec fn normalized_file(file: FileView) -> FileView {
    FileView { entities: normalized_entities(file.entities), ..file }
}

/// No member is a block.
pub open spec fn is_flat(members: Seq<ClassMemberView>) -> bool {
    forall|i: int| 0 <= i < members.len() ==> !(#[trigger] members[i] is Block)
}

/// Appends a copy of each attribute of `extra` to `target`.
pub fn append_attributes(target: &mut Vec<Attribute>, extra: &Vec<Attribute>)
    ensures
        view_seq(final(target)@) == view_seq(old(target)@) + view_seq(extra@),
{
    let ghost before = target@;
    let mut i: usize = 0;
    while i < extra.len()
        invariant
            i <= extra.len(),
            view_seq(target@) == view_seq(before) + view_seq(extra@.take(i as int)),
        decreases extra.len() - i,
    {
        let ghost prev = target@;
        let copy = extra[i].clone();
        target.push(copy);
        proof {
            assert(extra@.take(i as int + 1) =~= extra@.take(i as int).push(extra@[i as int]));
            assert(view_seq(target@) =~= view_seq(prev).push(copy@));
            assert(view_seq(extra@.take(i as int + 1)) =~= view_seq(extra@.take(i as int)).push(
                extra@[i as int]@,
            ));
            assert(view_seq(target@) =~= view_seq(before) + view_seq(extra@.take(i as int + 1)));
        }
        i += 1;
    }
    assert(extra@.take(extra.len() as int) =~= extra@);
}

/// Appends a copy of each attribute of `extra` to the member's own.
pub fn add_attributes(member: &mut ClassMember, extra: &Vec<Attribute>)
    ensures
        final(member)@ == with_attributes(old(member)@, view_seq(extra@)),
{
    match member {
        ClassMember::Field(f) => {
            append_attributes(f.get_attributes(), extra);
        },
        ClassMember::Method(m) => {
            append_attributes(m.get_attributes(), extra);
        },
        ClassMember::Block(b) => {
            append_attributes(b.get_attributes(), extra);
        },
    }
}

/// Flattens the members of a block whose attributes are `attributes`.
pub fn expand_members(members: Vec<ClassMember>, attributes: &Vec<Attribute>) -> (flat: Vec<
    ClassMember,
>)
    ensures
        view_members(flat@) == expanded_members(view_members(members@), view_seq(attributes@)),
    decreases view_members(members@),
{
    let ghost all = members@;
    let ghost attrs = view_seq(attributes@);
    let mut flat: Vec<ClassMember> = Vec::new();
    proof {
        assert(view_members(all.take(0)) =~= Seq::empty());
    }
    for member in it: members
        invariant
            it.seq() == all,
            attrs == view_seq(attributes@),
            view_members(flat@) == expanded_members(view_members(all.take(it.index() as int)), attrs),
    {
        let ghost done = it.index() as int;
        let ghost prefix = view_members(all.take(done));
        let ghost next = view_members(all.take(done + 1));
        proof {
            assert(all.take(done + 1) =~= all.take(done).push(member));
            assert(next =~= prefix.push(member@));
            assert(next.drop_last() =~= prefix);
            assert(next.last() == member@);
            assert(view_members(all)[done] == member@);
        }
        match member {
            ClassMember::Block(inner) => {
                proof {
                    assert(member@->Block_0 == inner@);
                    assert(decreases_to!(view_members(all) => view_members(all)[done]));
                    assert(decreases_to!(member@ => member@->Block_0));
                    assert(decreases_to!(inner@ => inner@.members));
                }
                let (inner_attributes, inner_members) = inner.into_parts();
                let nested = expand_members(inner_members, &inner_attributes);
                let ghost nested_all = nested@;
                let ghost start = flat@;
                for item in sub: nested
                    invariant
                        sub.seq() == nested_all,
                        attrs == view_seq(attributes@),
                        view_members(flat@) == view_members(start) + with_attributes_all(
                            view_members(nested_all.take(sub.index() as int)),
                            attrs,
                        ),
                {
                    let ghost k = sub.index() as int;
                    let ghost before = flat@;
                    let mut item = item;
                    let ghost plain = item@;
                    add_attributes(&mut item, attributes);
                    flat.push(item);
                    proof {
                        assert(nested_all.take(k + 1) =~= nested_all.take(k).push(nested_all[k]));
                        assert(view_members(flat@) =~= view_members(before).push(item@));
                        assert(view_members(nested_all.take(k + 1)) =~= view_members(
                            nested_all.take(k),
                        ).push(plain));
                        assert(with_attributes_all(view_members(nested_all.take(k + 1)), attrs)
                            =~= with_attributes_all(view_members(nested_all.take(k)), attrs).push(
                            with_attributes(plain, attrs),
                        ));
                        assert(view_members(flat@) =~= view_members(start) + with_attributes_all(
                            view_members(nested_all.take(k + 1)),
                            attrs,
                        ));
                    }
                }
                proof {
                    assert(nested_all.take(nested_all.len() as int) =~= nested_all);
                    assert(expanded_member(next.last(), attrs) == with_attributes_all(
                        view_members(nested_all),
                        attrs,
                    ));
                    assert(view_members(flat@) == expanded_members(next, attrs));
                }
            },
            other => {
                let ghost before = flat@;
                let mut item = other;
                add_attributes(&mut item, attributes);
                flat.push(item);
                proof {
                    assert(view_members(flat@) =~= view_members(before).push(item@));
                    assert(view_members(before).push(item@) =~= view_members(before) + seq![
                        item@,
                    ]);
                    assert(expanded_member(next.last(), attrs) == seq![item@]);
                    assert(view_members(flat@) == expanded_members(next, attrs));
                }
            },
        }
    }
    proof {
        assert(all.take(all.len() as int) =~= all);
    }
    flat
}

/// Empties the block and returns what it expands to: its fields and methods,
/// at any depth, each with the attributes of the blocks around it appended.
pub fn expand_block(b: &mut Block) -> (members: Vec<ClassMember>)
    ensures
        view_members(members@) == expanded_block(old(b)@),
        final(b)@ == (BlockView { members: Seq::empty(), ..old(b)@ }),
{
    let mut taken: Vec<ClassMember> = Vec::new();
    let slot = b.get_members();
    core::mem::swap(slot, &mut taken);
    proof {
        assert(view_members(slot@) =~= Seq::empty());
    }
    expand_members(taken, b.attributes())
}

/// The members of a class without blocks: first those that are no block, in
/// their order, then all that the blocks expand to.
pub fn normalize_members(members: Vec<ClassMember>) -> (flat: Vec<ClassMember>)
    ensures
        view_members(flat@) == normalized_members(view_members(members@)),
{
    let ghost all = members@;
    let mut plain: Vec<ClassMember> = Vec::new();
    let mut expanded: Vec<ClassMember> = Vec::new();
    proof {
        assert(view_members(all.take(0)) =~= Seq::empty());
    }
    for member in it: members
        invariant
            it.seq() == all,
            view_members(plain@) == plain_members(view_members(all.take(it.index() as int))),
            view_members(expanded@) == expanded_blocks(view_members(all.take(it.index() as int))),
    {
        let ghost done = it.index() as int;
        let ghost prefix = view_members(all.take(done));
        let ghost next = view_members(all.take(done + 1));
        proof {
            assert(all.take(done + 1) =~= all.take(done).push(member));
            assert(next =~= prefix.push(member@));
            assert(next.drop_last() =~= prefix);
            assert(next.last() == member@);
        }
        match member {
            ClassMember::Block(b) => {
                let ghost found = expanded@;
                let (attributes, inside) = b.into_parts();
                let mut expansion = expand_members(inside, &attributes);
                let ghost added = expansion@;
                expanded.append(&mut expansion);
                proof {
                    assert(view_members(expanded@) =~= view_members(found) + view_members(added));
                }
            },
            other => {
                let ghost kept = plain@;
                plain.push(other);
                proof {
                    assert(view_members(plain@) =~= view_members(kept).push(other@));
                }
            },
        }
    }
    proof {
        assert(all.take(all.len() as int) =~= all);
    }
    let ghost first = plain@;
    let ghost second = expanded@;
    plain.append(&mut expanded);
    proof {
        assert(view_members(plain@) =~= view_members(first) + view_members(second));
    }
    plain
}

/// The in-place normaliser: it moves what the blocks of a class hold into the
/// class itself.
pub struct BlockReducer;

impl BlockReducer {
    pub fn new() -> Self {
        BlockReducer {  }
    }

    /// Normalises every class of the file in place; functions stay as they are.
    pub fn visit_file(&mut self, n: &mut File)
        ensures
            final(n)@ == normalized_file(old(n)@),
    {
        let entities = n.entities_mut();
        let ghost before = view_seq(entities@);
        let mut i: usize = 0;
        while i < entities.len()
            invariant
                i <= entities.len(),
                entities@.len() == before.len(),
                forall|j: int|
                    0 <= j < i ==> (#[trigger] entities@[j])@ == normalized_entity(before[j]),
                forall|j: int| i <= j < before.len() ==> (#[trigger] entities@[j])@ == before[j],
            decreases entities.len() - i,
        {
            match &mut entities[i] {
                FirstClassEntity::Class(c) => {
                    self.visit_class(c);
                },
                FirstClassEntity::Function(_) => {},
            }
            i += 1;
        }
        proof {
            assert(view_seq(entities@) =~= normalized_entities(before));
        }
    }

    /// Removes the blocks of the class: the members that are no block stay, in
    /// their order, and all that the blocks expand to follows them.
    pub fn visit_class(&mut self, n: &mut Class)
        ensures
            final(n)@ == normalized_class(old(n)@),
    {
        let mut members: Vec<ClassMember> = Vec::new();
        core::mem::swap(n.get_members(), &mut members);
        let mut members = normalize_members(members);
        core::mem::swap(n.get_members(), &mut members);
    }
}

/// Applies the attributes of each block to its members and moves them into the
/// surrounding class, in every class of the file.
pub fn expand_blocks(s: &mut SourceFile)
    ensures
        final(s)@ == (SourceFileView { ast: normalized_file(old(s)@.ast), ..old(s)@ }),
{
    let mut visitor = BlockReducer::new();
    visitor.visit_file(s.get_ast());
}

/// What a block expands to holds no block.
pub proof fn lemma_expanded_members_flat(
    members: Seq<ClassMemberView>,
    attributes: Seq<AttributeView>,
)
    ensures
        is_flat(expanded_members(members, attributes)),
    decreases members,
{
    if members.len() != 0 {
        let front = expanded_members(members.drop_last(), attributes);
        let back = expanded_member(members.last(), attributes);
        lemma_expanded_members_flat(members.drop_last(), attributes);
        match members.last() {
            ClassMemberView::Block(inner) => {
                let nested = expanded_members(inner.members, inner.attributes);
                lemma_expanded_members_flat(inner.members, inner.attributes);
                assert forall|i: int| 0 <= i < back.len() implies !(#[trigger] back[i] is Block) by {
                    assert(!(nested[i] is Block));
                }
            },
            _ => {
                assert(back == seq![with_attributes(members.last(), attributes)]);
                assert(!(back[0] is Block));
            },
        }
        assert forall|i: int| 0 <= i < (front + back).len() implies !(#[trigger] (front + back)[i]
            is Block) by {
            if i < front.len() {
                assert(!(front[i] is Block));
            } else {
                assert(!(back[i - front.len()] is Block));
            }
        }
    }
}

/// The members that are no block hold no block, and the expansions of the
/// blocks hold none either.
pub proof fn lemma_normalized_members_flat(members: Seq<ClassMemberView>)
    ensures
        is_flat(plain_members(members)),
        is_flat(expanded_blocks(members)),
        is_flat(normalized_members(members)),
    decreases members.len(),
{
    if members.len() != 0 {
        let rest = members.drop_last();
        lemma_normalized_members_flat(rest);
        match members.last() {
            ClassMemberView::Block(b) => {
                let front = expanded_blocks(rest);
                let back = expanded_block(b);
                lemma_expanded_members_flat(b.members, b.attributes);
                assert forall|i: int| 0 <= i < (front + back).len() implies !(#[trigger] (front
                    + back)[i] is Block) by {
                    if i < front.len() {
                        assert(!(front[i] is Block));
                    } else {
                        assert(!(back[i - front.len()] is Block));
                    }
                }
            },
            _ => {
                let kept = plain_members(rest);
                assert forall|i: int| 0 <= i < kept.push(members.last()).len() implies !(
                #[trigger] kept.push(members.last())[i] is Block) by {
                    if i < kept.len() {
                        assert(!(kept[i] is Block));
                    }
                }
            },
        }
    }
    let first = plain_members(members);
    let second = expanded_blocks(members);
    assert forall|i: int| 0 <= i < (first + second).len() implies !(#[trigger] (first + second)[i]
        is Block) by {
        if i < first.len() {
            assert(!(first[i] is Block));
        } else {
            assert(!(second[i - first.len()] is Block));
        }
    }
}

/// Where no member is a block, normalising changes nothing.
pub proof fn lemma_flat_members_unchanged(members: Seq<ClassMemberView>)
    requires
        is_flat(members),
    ensures
        plain_members(members) == members,
        expanded_blocks(members) == Seq::<ClassMemberView>::empty(),
        normalized_members(members) == members,
    decreases members.len(),
{
    if members.len() != 0 {
        let front = members.drop_last();
        assert(is_flat(front)) by {
            assert forall|i: int| 0 <= i < front.len() implies !(#[trigger] front[i] is Block) by {
                assert(front[i] == members[i]);
            }
        }
        lemma_flat_members_unchanged(front);
        assert(!(members[members.len() - 1] is Block));
        assert(front.push(members.last()) =~= members);
    }
    assert(members + Seq::<ClassMemberView>::empty() =~= members);
}

/// Normalising a class that holds no block gives the class back, however often
/// it is done.
pub proof fn lemma_normalize_flat_class(class: ClassView)
    requires
        is_flat(class.members),
    ensures
        normalized_class(class) == class,
        normalized_class(normalized_class(class)) == class,
{
    lemma_flat_members_unchanged(class.members);
}

/// Normalising twice gives what normalising once gives.
pub proof fn lemma_normalize_idempotent(class: ClassView)
    ensures
        is_flat(normalized_class(class).members),
        normalized_class(normalized_class(class)) == normalized_class(class),
{
    lemma_normalized_members_flat(class.members);
    lemma_normalize_flat_class(normalized_class(class));
}

/// A field two blocks deep ends with its own attributes first, then those of
/// the inner block, then those of the outer block.
pub proof fn lemma_attribute_propagation_order(field: FieldView, inner: BlockView, outer: BlockView)
    requires
        inner.members == seq![ClassMemberView::Field(field)],
        outer.members == seq![ClassMemberView::Block(inner)],
    ensures
        expanded_block(outer) == seq![
            ClassMemberView::Field(
                FieldView {
                    attributes: field.attributes + inner.attributes + outer.attributes,
                    ..field
                },
            ),
        ],
{
    let own = ClassMemberView::Field(field);
    let nested = ClassMemberView::Block(inner);
    assert(inner.members.drop_last() =~= Seq::<ClassMemberView>::empty());
    assert(outer.members.drop_last() =~= Seq::<ClassMemberView>::empty());
    assert(inner.members.last() == own);
    assert(outer.members.last() == nested);
    let inner_flat = expanded_members(inner.members, inner.attributes);
    assert(expanded_members(inner.members.drop_last(), inner.attributes)
        == Seq::<ClassMemberView>::empty());
    assert(inner.members.len() == 1);
    assert(expanded_member(own, inner.attributes) == seq![with_attributes(own, inner.attributes)]);
    assert(inner_flat == expanded_members(inner.members.drop_last(), inner.attributes)
        + expanded_member(inner.members.last(), inner.attributes));
    assert(inner_flat =~= seq![with_attributes(own, inner.attributes)]);
    assert(outer.members.len() == 1);
    assert(expanded_block(outer) == expanded_members(outer.members.drop_last(), outer.attributes)
        + expanded_member(outer.members.last(), outer.attributes));
    assert(expanded_members(outer.members.drop_last(), outer.attributes)
        == Seq::<ClassMemberView>::empty());
    assert(expanded_member(nested, outer.attributes) == with_attributes_all(
        inner_flat,
        outer.attributes,
    ));
    assert(expanded_block(outer) =~= with_attributes_all(inner_flat, outer.attributes));
    assert(with_attributes_all(inner_flat, outer.attributes) =~= seq![
        with_attributes(with_attributes(own, inner.attributes), outer.attributes),
    ]);
    assert((field.attributes + inner.attributes) + outer.attributes =~= field.attributes
        + inner.attributes + outer.attributes);
}

} // verus!
