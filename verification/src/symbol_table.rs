//! The tables of names: of a whole program, of a namespace, of a class, and of
//! a function or closure; and the pass that builds them from the syntax trees.

pub mod creator;
pub mod global;
pub mod ordinal;
pub mod scope;
pub mod walk;

pub use self::creator::SymbolTableCreator;
pub use self::global::{create_namespace_table, create_symbol_table, namespaces_map};

use vstd::prelude::*;
use vstd::string::StringExecFns;
use crate::ast::view_seq;

verus! {

/// The mapping that a list of keyed entries stands for: each entry in turn is
/// put in under its key, so that of two entries with one key the later counts.
pub open spec fn entries_map<V>(entries: Seq<(String, V)>) -> Map<Seq<char>, V>
    decreases entries.len(),
{
    if entries.len() == 0 {
        Map::empty()
    } else {
        entries_map(entries.drop_last()).insert(entries.last().0@, entries.last().1)
    }
}

/// No two entries have the same key.
pub open spec fn distinct_keys<V>(entries: Seq<(String, V)>) -> bool {
    forall|i: int, j: int|
        0 <= i < j < entries.len() ==> (#[trigger] entries[i]).0@ != (#[trigger] entries[j]).0@
}

/// The keys of the mapping are the keys of the entries.
pub proof fn lemma_entries_map_dom<V>(entries: Seq<(String, V)>)
    ensures
        forall|k: Seq<char>|
            entries_map(entries).contains_key(k) <==> exists|i: int|
                0 <= i < entries.len() && (#[trigger] entries[i]).0@ == k,
        entries_map(entries).dom().finite(),
    decreases entries.len(),
{
    if entries.len() != 0 {
        let front = entries.drop_last();
        lemma_entries_map_dom(front);
        assert forall|k: Seq<char>|
            entries_map(entries).contains_key(k) <==> exists|i: int|
                0 <= i < entries.len() && (#[trigger] entries[i]).0@ == k by {
            if entries_map(entries).contains_key(k) {
                if k == entries.last().0@ {
                    assert(entries[entries.len() - 1].0@ == k);
                } else {
                    assert(entries_map(front).contains_key(k));
                    let i = choose|i: int| 0 <= i < front.len() && (#[trigger] front[i]).0@ == k;
                    assert(entries[i].0@ == k);
                }
            }
            if exists|i: int| 0 <= i < entries.len() && (#[trigger] entries[i]).0@ == k {
                let i = choose|i: int| 0 <= i < entries.len() && (#[trigger] entries[i]).0@ == k;
                if i < front.len() {
                    assert(front[i].0@ == k);
                }
            }
        }
    }
}

/// Where the keys are distinct, each entry is what the mapping holds under its
/// key, and the mapping has as many keys as there are entries.
pub proof fn lemma_entries_map_distinct<V>(entries: Seq<(String, V)>)
    requires
        distinct_keys(entries),
    ensures
        forall|i: int|
            0 <= i < entries.len() ==> entries_map(entries)[(#[trigger] entries[i]).0@]
                == entries[i].1,
        entries_map(entries).dom().len() == entries.len(),
    decreases entries.len(),
{
    if entries.len() != 0 {
        let front = entries.drop_last();
        assert(distinct_keys(front)) by {
            assert forall|i: int, j: int| 0 <= i < j < front.len() implies (#[trigger] front[i]).0@
                != (#[trigger] front[j]).0@ by {
                assert(front[i] == entries[i]);
                assert(front[j] == entries[j]);
            }
        }
        lemma_entries_map_distinct(front);
        lemma_entries_map_dom(front);
        assert forall|i: int| 0 <= i < entries.len() implies entries_map(entries)[(
        #[trigger] entries[i]).0@] == entries[i].1 by {
            if i < front.len() {
                assert(front[i] == entries[i]);
                assert(entries[i].0@ != entries[entries.len() - 1].0@);
            }
        }
        assert(!entries_map(front).contains_key(entries.last().0@)) by {
            if entries_map(front).contains_key(entries.last().0@) {
                let i = choose|i: int|
                    0 <= i < front.len() && (#[trigger] front[i]).0@ == entries.last().0@;
                assert(front[i] == entries[i]);
                assert(entries[i].0@ != entries[entries.len() - 1].0@);
            }
        }
    }
}

/// Replacing the value of one entry replaces what the mapping holds under that
/// entry's key, where the keys are distinct.
pub proof fn lemma_entries_map_update<V>(entries: Seq<(String, V)>, i: int, entry: (String, V))
    requires
        distinct_keys(entries),
        0 <= i < entries.len(),
        entry.0@ == entries[i].0@,
    ensures
        distinct_keys(entries.update(i, entry)),
        entries_map(entries.update(i, entry)) == entries_map(entries).insert(entry.0@, entry.1),
    decreases entries.len(),
{
    let updated = entries.update(i, entry);
    assert(distinct_keys(updated)) by {
        assert forall|a: int, b: int| 0 <= a < b < updated.len() implies (#[trigger] updated[a]).0@
            != (#[trigger] updated[b]).0@ by {
            assert(entries[a].0@ != entries[b].0@);
        }
    }
    let front = entries.drop_last();
    assert(distinct_keys(front)) by {
        assert forall|a: int, b: int| 0 <= a < b < front.len() implies (#[trigger] front[a]).0@
            != (#[trigger] front[b]).0@ by {
            assert(front[a] == entries[a]);
            assert(front[b] == entries[b]);
        }
    }
    if i == entries.len() - 1 {
        assert(updated.drop_last() =~= front);
        assert(entries_map(updated) =~= entries_map(entries).insert(entry.0@, entry.1));
    } else {
        lemma_entries_map_update(front, i, entry);
        assert(updated.drop_last() =~= front.update(i, entry));
        assert(entries[i].0@ != entries[entries.len() - 1].0@);
        assert(entries_map(updated) =~= entries_map(entries).insert(entry.0@, entry.1));
    }
}

/// A mapping from names to entries. No name occurs twice; putting an entry in
/// under a name that is there replaces the entry that was there.
#[derive(Debug)]
pub struct Table<V> {
    entries: Vec<(String, V)>,
}

impl<V> View for Table<V> {
    type V = Map<Seq<char>, V>;

    closed spec fn view(&self) -> Map<Seq<char>, V> {
        entries_map(self.entries@)
    }
}

impl<V> Table<V> {
    #[verifier::type_invariant]
    spec fn keys_are_distinct(self) -> bool {
        distinct_keys(self.entries@)
    }

    /// The empty mapping.
    pub fn new() -> (table: Self)
        ensures
            table@ == Map::<Seq<char>, V>::empty(),
    {
        Table { entries: Vec::new() }
    }

    /// Where the entry for `key` stands, if there is one.
    fn position(&self, key: &str) -> (at: Option<usize>)
        ensures
            at matches Some(i) ==> i < self.entries@.len() && self.entries@[i as int].0@ == key@,
            at is None ==> forall|i: int|
                0 <= i < self.entries@.len() ==> (#[trigger] self.entries@[i]).0@ != key@,
    {
        let wanted = String::from_str(key);
        let mut i: usize = 0;
        while i < self.entries.len()
            invariant
                i <= self.entries.len(),
                wanted@ == key@,
                forall|j: int| 0 <= j < i ==> (#[trigger] self.entries@[j]).0@ != key@,
            decreases self.entries.len() - i,
        {
            if self.entries[i].0 == wanted {
                return Some(i);
            }
            i += 1;
        }
        None
    }

    /// Puts `value` in under `key`, in place of what was there under it.
    pub fn insert(&mut self, key: String, value: V)
        ensures
            final(self)@ == old(self)@.insert(key@, value),
    {
        proof {
            use_type_invariant(&*self);
        }
        let at = self.position(key.as_str());
        let mut entries: Vec<(String, V)> = Vec::new();
        core::mem::swap(&mut self.entries, &mut entries);
        match at {
            Some(i) => {
                proof {
                    lemma_entries_map_update(entries@, i as int, (key, value));
                }
                entries.set(i, (key, value));
            },
            None => {
                proof {
                    let pushed = entries@.push((key, value));
                    assert(pushed.drop_last() =~= entries@);
                    assert(distinct_keys(pushed));
                }
                entries.push((key, value));
            },
        }
        core::mem::swap(&mut self.entries, &mut entries);
    }

    /// The entry under `key`, if there is one.
    pub fn get(&self, key: &str) -> (found: Option<&V>)
        ensures
            found matches Some(value) ==> self@.contains_key(key@) && self@[key@] == *value,
            found is None ==> !self@.contains_key(key@),
    {
        proof {
            use_type_invariant(self);
            lemma_entries_map_dom(self.entries@);
            lemma_entries_map_distinct(self.entries@);
        }
        match self.position(key) {
            Some(i) => Some(&self.entries[i].1),
            None => None,
        }
    }

    /// Whether there is an entry under `key`.
    pub fn contains_key(&self, key: &str) -> (found: bool)
        ensures
            found == self@.contains_key(key@),
    {
        proof {
            use_type_invariant(self);
            lemma_entries_map_dom(self.entries@);
        }
        self.position(key).is_some()
    }

    /// How many names the mapping holds.
    pub fn len(&self) -> (len: usize)
        ensures
            len == self@.dom().len(),
            self@.dom().finite(),
    {
        proof {
            use_type_invariant(self);
            lemma_entries_map_dom(self.entries@);
            lemma_entries_map_distinct(self.entries@);
        }
        self.entries.len()
    }

    /// Whether the mapping holds no name.
    pub fn is_empty(&self) -> (empty: bool)
        ensures
            empty == (self@.dom().len() == 0),
            self@.dom().finite(),
    {
        self.len() == 0
    }

    /// The names of the mapping, each once.
    pub fn keys(&self) -> (keys: Vec<String>)
        ensures
            keys@.len() == self@.dom().len(),
            forall|i: int, j: int|
                0 <= i < j < keys@.len() ==> (#[trigger] keys@[i])@ != (#[trigger] keys@[j])@,
            forall|i: int| 0 <= i < keys@.len() ==> self@.contains_key(#[trigger] keys@[i]@),
            forall|k: Seq<char>|
                self@.contains_key(k) ==> exists|i: int|
                    0 <= i < keys@.len() && (#[trigger] keys@[i])@ == k,
    {
        proof {
            use_type_invariant(self);
            lemma_entries_map_dom(self.entries@);
            lemma_entries_map_distinct(self.entries@);
        }
        let mut keys: Vec<String> = Vec::new();
        let mut i: usize = 0;
        while i < self.entries.len()
            invariant
                i <= self.entries.len(),
                keys@.len() == i,
                forall|j: int| 0 <= j < i ==> (#[trigger] keys@[j])@ == self.entries@[j].0@,
            decreases self.entries.len() - i,
        {
            keys.push(self.entries[i].0.clone());
            i += 1;
        }
        proof {
            assert forall|k: Seq<char>| self@.contains_key(k) implies exists|i: int|
                0 <= i < keys@.len() && (#[trigger] keys@[i])@ == k by {
                let i = choose|i: int|
                    0 <= i < self.entries@.len() && (#[trigger] self.entries@[i]).0@ == k;
                assert(keys@[i]@ == k);
            }
            assert forall|i: int| 0 <= i < keys@.len() implies self@.contains_key(
                #[trigger] keys@[i]@,
            ) by {
                assert(self.entries@[i].0@ == keys@[i]@);
            }
            assert forall|i: int, j: int| 0 <= i < j < keys@.len() implies (#[trigger] keys@[i])@
                != (#[trigger] keys@[j])@ by {
                assert(self.entries@[i].0@ != self.entries@[j].0@);
            }
        }
        keys
    }
}

impl<V> Table<V> {
    /// Takes the entry under `key` out, if there is one.
    pub fn remove(&mut self, key: &str) -> (taken: Option<V>)
        ensures
            final(self)@ == old(self)@.remove(key@),
            taken matches Some(value) ==> old(self)@.contains_key(key@) && old(self)@[key@]
                == value,
            taken is None ==> !old(self)@.contains_key(key@),
    {
        proof {
            use_type_invariant(&*self);
            lemma_entries_map_dom(self.entries@);
            lemma_entries_map_distinct(self.entries@);
        }
        let at = self.position(key);
        match at {
            Some(i) => {
                let mut entries: Vec<(String, V)> = Vec::new();
                core::mem::swap(&mut self.entries, &mut entries);
                let ghost before = entries@;
                let entry = entries.remove(i);
                proof {
                    lemma_entries_map_remove(before, i as int);
                }
                core::mem::swap(&mut self.entries, &mut entries);
                Some(entry.1)
            },
            None => {
                proof {
                    assert(self@.remove(key@) =~= self@);
                }
                None
            },
        }
    }

    /// The entries, each with its name; no name occurs twice.
    pub fn into_entries(self) -> (entries: Vec<(String, V)>)
        ensures
            entries_map(entries@) == self@,
            distinct_keys(entries@),
    {
        proof {
            use_type_invariant(&self);
        }
        self.entries
    }
}

/// Taking one entry away takes its key out of the mapping, where the keys are
/// distinct.
pub proof fn lemma_entries_map_remove<V>(entries: Seq<(String, V)>, i: int)
    requires
        distinct_keys(entries),
        0 <= i < entries.len(),
    ensures
        distinct_keys(entries.remove(i)),
        entries_map(entries.remove(i)) == entries_map(entries).remove(entries[i].0@),
    decreases entries.len(),
{
    let removed = entries.remove(i);
    assert(distinct_keys(removed)) by {
        assert forall|a: int, b: int| 0 <= a < b < removed.len() implies (#[trigger] removed[a]).0@
            != (#[trigger] removed[b]).0@ by {
            let a0 = if a < i { a } else { a + 1 };
            let b0 = if b < i { b } else { b + 1 };
            assert(removed[a] == entries[a0]);
            assert(removed[b] == entries[b0]);
        }
    }
    let front = entries.drop_last();
    assert(distinct_keys(front)) by {
        assert forall|a: int, b: int| 0 <= a < b < front.len() implies (#[trigger] front[a]).0@
            != (#[trigger] front[b]).0@ by {
            assert(front[a] == entries[a]);
            assert(front[b] == entries[b]);
        }
    }
    lemma_entries_map_dom(front);
    if i == entries.len() - 1 {
        assert(removed =~= front);
        assert(!entries_map(front).contains_key(entries[i].0@)) by {
            if entries_map(front).contains_key(entries[i].0@) {
                let j = choose|j: int| 0 <= j < front.len() && (#[trigger] front[j]).0@ == entries[i].0@;
                assert(front[j] == entries[j]);
            }
        }
        assert(entries_map(removed) =~= entries_map(entries).remove(entries[i].0@));
    } else {
        lemma_entries_map_remove(front, i);
        assert(removed.drop_last() =~= front.remove(i));
        assert(removed.last() == entries.last());
        assert(entries[i].0@ != entries[entries.len() - 1].0@);
        assert(entries_map(removed) =~= entries_map(entries).remove(entries[i].0@));
    }
}

/// The symbols of a whole program: a table for each namespace.
pub type GlobalSymbolTable = Table<NamespaceSymbolTable>;

/// The classes and functions that a namespace declares.
pub type NamespaceSymbolTable = Table<NSTEntry>;

/// The fields and methods that a class declares.
pub type ClassSymbolTable = Table<CSTEntry>;

/// The parameters, variables and closures that a function, a method or a
/// closure declares.
pub type FunctionSymbolTable = Table<FSTEntry>;

/// What a namespace holds under a name.
#[derive(Debug)]
pub enum NSTEntry {
    /// A class: the name of its superclass, the names of the interfaces it
    /// implements, where it stands, and its members.
    Class(String, Vec<String>, (usize, usize), ClassSymbolTable),
    /// A function: its return type, where it stands, and its locals.
    Fun(String, (usize, usize), FunctionSymbolTable),
}

/// What a class holds under a name.
#[derive(Debug)]
pub enum CSTEntry {
    /// A field: its type and where it stands.
    Field(String, (usize, usize)),
    /// A method: its return type, where it stands, and its locals.
    Method(String, (usize, usize), FunctionSymbolTable),
}

/// What a function, a method or a closure holds under a name.
#[derive(Debug)]
pub enum FSTEntry {
    /// A parameter: its type and where it stands.
    Param(String, (usize, usize)),
    /// A local variable: its type and where it stands.
    Var(String, (usize, usize)),
    /// A closure: its return type, where it stands, and its own locals.
    Closure(String, (usize, usize), FunctionSymbolTable),
}

/// Model of an [`FSTEntry`].
pub enum FstEntryView {
    Param(Seq<char>, (usize, usize)),
    Var(Seq<char>, (usize, usize)),
    Closure(Seq<char>, (usize, usize), Map<Seq<char>, FstEntryView>),
}

/// Model of a [`FunctionSymbolTable`].
pub type FstView = Map<Seq<char>, FstEntryView>;

/// Model of a [`CSTEntry`].
pub enum CstEntryView {
    Field(Seq<char>, (usize, usize)),
    Method(Seq<char>, (usize, usize), FstView),
}

/// Model of a [`ClassSymbolTable`].
pub type CstView = Map<Seq<char>, CstEntryView>;

/// Model of an [`NSTEntry`].
pub enum NstEntryView {
    Class(Seq<char>, Seq<Seq<char>>, (usize, usize), CstView),
    Fun(Seq<char>, (usize, usize), FstView),
}

/// Model of a [`NamespaceSymbolTable`].
pub type NstView = Map<Seq<char>, NstEntryView>;

/// Model of a [`GlobalSymbolTable`].
pub type GstView = Map<Seq<char>, NstView>;

/// The model of a list of keyed function-level entries.
pub closed spec fn fst_entries_view(entries: Seq<(String, FSTEntry)>) -> FstView
    decreases entries,
{
    if entries.len() == 0 {
        Map::empty()
    } else {
        fst_entries_view(entries.drop_last()).insert(entries.last().0@, entries.last().1.model())
    }
}

impl FSTEntry {
    pub closed spec fn model(&self) -> FstEntryView
        decreases self,
    {
        match self {
            FSTEntry::Param(ty, pos) => FstEntryView::Param(ty@, *pos),
            FSTEntry::Var(ty, pos) => FstEntryView::Var(ty@, *pos),
            FSTEntry::Closure(return_type, pos, table) => FstEntryView::Closure(
                return_type@,
                *pos,
                fst_entries_view(table.entries@),
            ),
        }
    }
}

impl View for FSTEntry {
    type V = FstEntryView;

    open spec fn view(&self) -> FstEntryView {
        self.model()
    }
}

/// The model of a function-level table, from the mapping it stands for.
pub open spec fn fst_view(table: Map<Seq<char>, FSTEntry>) -> FstView {
    table.map_values(|e: FSTEntry| e@)
}

/// The model of a class-level table, from the mapping it stands for.
pub open spec fn cst_view(table: Map<Seq<char>, CSTEntry>) -> CstView {
    table.map_values(|e: CSTEntry| e@)
}

/// The model of a namespace-level table, from the mapping it stands for.
pub open spec fn nst_view(table: Map<Seq<char>, NSTEntry>) -> NstView {
    table.map_values(|e: NSTEntry| e@)
}

/// The model of the table of a whole program, from the mapping it stands for.
pub open spec fn gst_view(table: Map<Seq<char>, NamespaceSymbolTable>) -> GstView {
    table.map_values(|t: NamespaceSymbolTable| nst_view(t@))
}

proof fn lemma_fst_entries_view(entries: Seq<(String, FSTEntry)>)
    ensures
        fst_entries_view(entries) == fst_view(entries_map(entries)),
    decreases entries.len(),
{
    if entries.len() != 0 {
        lemma_fst_entries_view(entries.drop_last());
    }
    assert(fst_entries_view(entries) =~= fst_view(entries_map(entries)));
}

/// The model of a function-level entry, variant by variant.
pub proof fn lemma_fst_entry_view(entry: FSTEntry)
    ensures
        entry@ == match entry {
            FSTEntry::Param(ty, pos) => FstEntryView::Param(ty@, pos),
            FSTEntry::Var(ty, pos) => FstEntryView::Var(ty@, pos),
            FSTEntry::Closure(return_type, pos, table) => FstEntryView::Closure(
                return_type@,
                pos,
                fst_view(table@),
            ),
        },
{
    match entry {
        FSTEntry::Closure(_, _, table) => {
            lemma_fst_entries_view(table.entries@);
        },
        _ => {},
    }
}

impl View for CSTEntry {
    type V = CstEntryView;

    open spec fn view(&self) -> CstEntryView {
        match self {
            CSTEntry::Field(ty, pos) => CstEntryView::Field(ty@, *pos),
            CSTEntry::Method(return_type, pos, table) => CstEntryView::Method(
                return_type@,
                *pos,
                fst_view(table@),
            ),
        }
    }
}

impl View for NSTEntry {
    type V = NstEntryView;

    open spec fn view(&self) -> NstEntryView {
        match self {
            NSTEntry::Class(super_name, interfaces, pos, table) => NstEntryView::Class(
                super_name@,
                view_seq(interfaces@),
                *pos,
                cst_view(table@),
            ),
            NSTEntry::Fun(return_type, pos, table) => NstEntryView::Fun(
                return_type@,
                *pos,
                fst_view(table@),
            ),
        }
    }
}

} // verus!
