use vstd::prelude::*;
use crate::ast::FileView;
use crate::ast_actions::ast_visitor::visit_file;
use crate::text::owned;
use crate::source_file::SourceFile;
use crate::symbol_table::creator::{SymbolTableCreator, SymbolTableCreatorView};
use crate::symbol_table::scope::{namespace_after_files, namespace_table};
use crate::symbol_table::walk::lemma_file_walked;
use crate::symbol_table::{
    entries_map, gst_view, nst_view, GlobalSymbolTable, GstView, NSTEntry, NamespaceSymbolTable,
    NstEntryView, Table,
};

verus! {

/// The syntax trees of a list of source files, in order.
pub open spec fn asts(files: Seq<SourceFile>) -> Seq<FileView> {
    Seq::new(files.len(), |i: int| files[i]@.ast)
}

/// What a program declares: for each namespace, what its files declare
/// together, taken in order.
pub open spec fn global_table(namespaces: Map<Seq<char>, Vec<SourceFile>>) -> GstView {
    namespaces.map_values(|files: Vec<SourceFile>| namespace_table(asts(files@)))
}

/// The files grouped by the namespace that each declares; the files of a
/// namespace stay in the order in which they came.
pub open spec fn grouped(files: Seq<SourceFile>) -> Map<Seq<char>, Seq<SourceFile>>
    decreases files.len(),
{
    if files.len() == 0 {
        Map::empty()
    } else {
        let before = grouped(files.drop_last());
        let namespace = files.last()@.ast.namespace;
        if before.contains_key(namespace) {
            before.insert(namespace, before[namespace].push(files.last()))
        } else {
            before.insert(namespace, seq![files.last()])
        }
    }
}

/// The lists of files that a table of groups holds.
pub open spec fn groups(table: Map<Seq<char>, Vec<SourceFile>>) -> Map<Seq<char>, Seq<SourceFile>> {
    table.map_values(|files: Vec<SourceFile>| files@)
}

/// Groups the source files by the namespace that each declares.
pub fn namespaces_map(files: Vec<SourceFile>) -> (namespaces: Table<Vec<SourceFile>>)
    ensures
        groups(namespaces@) == grouped(files@),
{
    let mut namespaces: Table<Vec<SourceFile>> = Table::new();
    let ghost all = files@;
    proof {
        assert(groups(namespaces@) =~= grouped(all.take(0)));
    }
    for file in it: files
        invariant
            it.seq() == all,
            groups(namespaces@) == grouped(all.take(it.index() as int)),
    {
        let ghost done = it.index() as int;
        let ghost before = namespaces@;
        proof {
            assert(all.take(done + 1).drop_last() =~= all.take(done));
            assert(all.take(done + 1).last() == file);
        }
        let namespace = owned(file.ast().get_namespace());
        let mut group = match namespaces.remove(namespace.as_str()) {
            Some(group) => group,
            None => Vec::new(),
        };
        group.push(file);
        namespaces.insert(namespace, group);
        proof {
            assert(groups(namespaces@) =~= grouped(all.take(done + 1))) by {
                assert(groups(before).contains_key(namespace@) == before.contains_key(namespace@));
            }
        }
    }
    proof {
        assert(all.take(all.len() as int) =~= all);
    }
    namespaces
}

/// Builds the table of one namespace from its source files, taken in order.
pub fn create_namespace_table(files: &Vec<SourceFile>) -> (nst: NamespaceSymbolTable)
    ensures
        nst_view(nst@) == namespace_table(asts(files@)),
{
    let mut creator = SymbolTableCreator::new(NamespaceSymbolTable::new());
    let ghost empty = Map::<Seq<char>, NstEntryView>::empty();
    let ghost trees = asts(files@);
    let mut i: usize = 0;
    proof {
        assert(nst_view(Map::<Seq<char>, NSTEntry>::empty()) =~= empty);
        assert(trees.take(0) =~= Seq::empty());
    }
    while i < files.len()
        invariant
            i <= files.len(),
            trees == asts(files@),
            empty == Map::<Seq<char>, NstEntryView>::empty(),
            creator@ == SymbolTableCreatorView::initial(
                namespace_after_files(empty, trees.take(i as int)),
            ),
        decreases files.len() - i,
    {
        proof {
            assert(trees.take(i as int + 1).drop_last() =~= trees.take(i as int));
            assert(trees.take(i as int + 1).last() == files@[i as int]@.ast);
            lemma_file_walked(creator@, files@[i as int]@.ast);
        }
        visit_file(&mut creator, files[i].ast());
        proof {
            assert(creator@ =~= SymbolTableCreatorView::initial(
                namespace_after_files(empty, trees.take(i as int + 1)),
            ));
        }
        i += 1;
    }
    proof {
        assert(trees.take(files.len() as int) =~= trees);
    }
    creator.into_table()
}

/// Builds the table of a whole program from its processed source files,
/// grouped by namespace.
pub fn create_symbol_table(namespaces: Table<Vec<SourceFile>>) -> (gst: GlobalSymbolTable)
    ensures
        gst_view(gst@) == global_table(namespaces@),
{
    let mut gst = GlobalSymbolTable::new();
    let entries = namespaces.into_entries();
    let ghost all = entries@;
    proof {
        assert(gst_view(gst@) =~= global_table(entries_map(all.take(0))));
    }
    for entry in it: entries
        invariant
            it.seq() == all,
            gst_view(gst@) == global_table(entries_map(all.take(it.index() as int))),
    {
        let ghost done = it.index() as int;
        let ghost before = gst@;
        proof {
            assert(all.take(done + 1).drop_last() =~= all.take(done));
            assert(all.take(done + 1).last() == entry);
        }
        let (namespace, files) = entry;
        let nst = create_namespace_table(&files);
        gst.insert(namespace, nst);
        proof {
            assert(gst_view(before.insert(namespace@, nst)) =~= gst_view(before).insert(
                namespace@,
                nst_view(nst@),
            ));
            assert(global_table(entries_map(all.take(done + 1))) =~= global_table(
                entries_map(all.take(done)),
            ).insert(namespace@, namespace_table(asts(files@))));
        }
    }
    proof {
        assert(all.take(all.len() as int) =~= all);
    }
    gst
}

} // verus!
