use vstd::prelude::*;
use crate::ast::{
    view_members, view_seq, Block, Class, ClassMember, File, FirstClassEntity,
};
use crate::ast_actions::ast_fold::AstFold;
use crate::ast_actions::modifiers::block_expander::{
    expand_members,
    normalize_members,
    expanded_block,
    normalized_class,
    normalized_entities,
    normalized_entity,
    normalized_file,
};
use crate::text::owned;
use crate::source_file::{SourceFile, SourceFileView};

verus! {

/// Rebuilds the source file with the attributes of each block applied to its
/// members and the members moved into the surrounding class.
pub fn reduce_blocks(s: &SourceFile) -> (reduced: SourceFile)
    ensures
        reduced@ == (SourceFileView { ast: normalized_file(s@.ast), ..s@ }),
{
    let mut folder = BlockReducer::new();
    let ast = folder.fold_file(s.ast().clone());
    SourceFile::new(owned(s.get_path()), owned(s.get_code()), ast)
}

/// What the block expands to: its fields and methods, at any depth, each with
/// the attributes of the blocks around it appended.
pub fn reduce_block(b: &Block) -> (members: Vec<ClassMember>)
    ensures
        view_members(members@) == expanded_block(b@),
{
    let (attributes, members) = b.clone().into_parts();
    expand_members(members, &attributes)
}

/// The rebuilding normaliser: it gives each class back without blocks.
pub struct BlockReducer;

impl BlockReducer {
    pub fn new() -> Self {
        BlockReducer {  }
    }
}

impl AstFold for BlockReducer {
    fn fold_file(&mut self, n: File) -> (r: File)
        ensures
            r@ == normalized_file(n@),
    {
        let (namespace, imports, entities) = n.into_parts();
        let ghost all = entities@;
        let mut new_entities: Vec<FirstClassEntity> = Vec::new();
        for entity in it: entities
            invariant
                it.seq() == all,
                view_seq(new_entities@) == normalized_entities(
                    view_seq(all.take(it.index() as int)),
                ),
        {
            let ghost done = it.index() as int;
            let ghost before = new_entities@;
            proof {
                assert(all.take(done + 1) =~= all.take(done).push(entity));
            }
            let folded = match entity {
                FirstClassEntity::Function(f) => FirstClassEntity::Function(f),
                FirstClassEntity::Class(c) => FirstClassEntity::Class(self.fold_class(c)),
            };
            let ghost folded_view = folded@;
            new_entities.push(folded);
            proof {
                let folded = new_entities@[before.len() as int];
                assert(folded@ == folded_view);
                assert(new_entities@ =~= before.push(folded));
                assert(folded@ == normalized_entity(entity@));
                assert(view_seq(new_entities@) =~= view_seq(before).push(folded@));
                assert(view_seq(all.take(done + 1)) =~= view_seq(all.take(done)).push(entity@));
                assert(normalized_entities(view_seq(all.take(done + 1))) =~= normalized_entities(
                    view_seq(all.take(done)),
                ).push(normalized_entity(entity@)));
            }
        }
        proof {
            assert(all.take(all.len() as int) =~= all);
        }
        File::new(namespace, imports, new_entities)
    }

    fn fold_class(&mut self, n: Class) -> (r: Class)
        ensures
            r@ == normalized_class(n@),
    {
        let (pos, attributes, name, super_name, implemented_interfaces, members) = n.into_parts();
        let new_members = normalize_members(members);
        Class::new(pos, attributes, name, super_name, implemented_interfaces, new_members)
    }
}

} // verus!
