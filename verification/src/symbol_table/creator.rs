use vstd::prelude::*;
use crate::ast::{Class, Closure, Field, File, Function, Param, VariableDeclaration};
use crate::ast_actions::ast_visitor;
use crate::ast_actions::ast_visitor::{
    walked_class, walked_closure, walked_field, walked_file, walked_function, walked_param,
    walked_variable_declaration, AstVisitor, Event, EventView, Node, NodeView,
};
use crate::text::owned;
use crate::symbol_table::ordinal::{closure_name, Ordinal};
use crate::symbol_table::scope::{
    class_entry, namespace_after_file, scope_after_closure, scope_after_variable_declaration,
    Scope,
};
use crate::symbol_table::walk::{
    lemma_attributes_walked, lemma_class_walked, lemma_closure_walked, lemma_file_walked,
    lemma_function_walked, lemma_variable_declaration_walked,
};
use crate::symbol_table::{
    cst_view, fst_view, lemma_fst_entry_view, nst_view, CSTEntry, ClassSymbolTable, CstEntryView,
    CstView, FSTEntry, FstEntryView, FstView, FunctionSymbolTable, NSTEntry,
    NamespaceSymbolTable, NstEntryView, NstView,
};

verus! {

/// Model of a [`SymbolTableCreator`]: the table of the namespace, the table of
/// the class that is open, the table of the function that is open, the tables
/// of the closures that are open, outermost first, each with its ordinal, and
/// how many closures the open function has opened so far.
#[verifier::ext_equal]
pub struct SymbolTableCreatorView {
    pub nst: NstView,
    pub cst: Option<CstView>,
    pub fst: Option<FstView>,
    pub closures: Seq<(FstView, nat)>,
    pub opened: nat,
}

impl SymbolTableCreatorView {
    /// The creator at the start of a namespace whose table is `nst` so far: in
    /// no class and in no function.
    pub open spec fn initial(nst: NstView) -> Self {
        SymbolTableCreatorView { nst, cst: None, fst: None, closures: Seq::empty(), opened: 0 }
    }

    /// In no function: none is open, no closure is open, none has been counted.
    pub open spec fn idle(self) -> bool {
        self.fst is None && self.closures.len() == 0 && self.opened == 0
    }

    /// Whether a closure is open.
    pub open spec fn in_closure(self) -> bool {
        self.closures.len() > 0
    }

    /// The creator with `entry` under `name` in the innermost open scope: the
    /// innermost open closure or, where none is open, the open function.
    /// Outside a function nothing is declared.
    pub open spec fn declare(self, name: Seq<char>, entry: FstEntryView) -> Self {
        if self.in_closure() {
            let top = self.closures.last();
            SymbolTableCreatorView {
                closures: self.closures.update(
                    self.closures.len() - 1,
                    (top.0.insert(name, entry), top.1),
                ),
                ..self
            }
        } else {
            match self.fst {
                Some(table) => SymbolTableCreatorView {
                    fst: Some(table.insert(name, entry)),
                    ..self
                },
                None => self,
            }
        }
    }

    /// The innermost open scope.
    pub open spec fn scope(self) -> Scope {
        Scope {
            table: if self.in_closure() {
                self.closures.last().0
            } else {
                match self.fst {
                    Some(table) => table,
                    None => Map::empty(),
                }
            },
            closures: self.opened,
        }
    }

    /// The creator with the innermost open scope exchanged for `scope`.
    pub open spec fn with_scope(self, scope: Scope) -> Self {
        if self.in_closure() {
            SymbolTableCreatorView {
                closures: self.closures.update(
                    self.closures.len() - 1,
                    (scope.table, self.closures.last().1),
                ),
                opened: scope.closures,
                ..self
            }
        } else {
            SymbolTableCreatorView { fst: Some(scope.table), opened: scope.closures, ..self }
        }
    }

    /// The creator after an event.
    pub open spec fn after(self, event: EventView) -> Self {
        match event {
            EventView::Enter(NodeView::Function(_)) => SymbolTableCreatorView {
                fst: Some(Map::empty()),
                closures: Seq::empty(),
                opened: 0,
                ..self
            },
            EventView::Leave(NodeView::Function(f)) => match self.fst {
                Some(table) => {
                    let done = SymbolTableCreatorView {
                        fst: None,
                        closures: Seq::empty(),
                        opened: 0,
                        ..self
                    };
                    match self.cst {
                        Some(class) => SymbolTableCreatorView {
                            cst: Some(
                                class.insert(
                                    f.name,
                                    CstEntryView::Method(f.return_type, f.pos, table),
                                ),
                            ),
                            ..done
                        },
                        None => SymbolTableCreatorView {
                            nst: self.nst.insert(
                                f.name,
                                NstEntryView::Fun(f.return_type, f.pos, table),
                            ),
                            ..done
                        },
                    }
                },
                None => self,
            },
            EventView::Enter(NodeView::Closure(_)) => SymbolTableCreatorView {
                closures: self.closures.push((Map::empty(), self.opened + 1)),
                opened: self.opened + 1,
                ..self
            },
            EventView::Leave(NodeView::Closure(c)) => if self.in_closure() {
                let top = self.closures.last();
                (SymbolTableCreatorView { closures: self.closures.drop_last(), ..self }).declare(
                    closure_name(top.1),
                    FstEntryView::Closure(c.return_type, c.pos, top.0),
                )
            } else {
                self
            },
            EventView::Enter(NodeView::Param(p)) => self.declare(
                p.name,
                FstEntryView::Param(p.ty, p.pos),
            ),
            EventView::Enter(NodeView::VariableDeclaration(d)) => self.declare(
                d.name,
                FstEntryView::Var(d.ty, d.pos),
            ),
            EventView::Enter(NodeView::Class(_)) => SymbolTableCreatorView {
                cst: Some(Map::empty()),
                ..self
            },
            EventView::Leave(NodeView::Class(c)) => match self.cst {
                Some(class) => SymbolTableCreatorView {
                    nst: self.nst.insert(
                        c.name,
                        NstEntryView::Class(c.super_name, c.implemented_interfaces, c.pos, class),
                    ),
                    cst: None,
                    ..self
                },
                None => self,
            },
            EventView::Enter(NodeView::Field(f)) => match self.cst {
                Some(class) => SymbolTableCreatorView {
                    cst: Some(class.insert(f.name, CstEntryView::Field(f.ty, f.pos))),
                    ..self
                },
                None => self,
            },
            _ => self,
        }
    }
}

/// The pass that builds the table of one namespace. It keeps the table of the
/// class it is in, the table of the function it is in, and a stack of the
/// tables of the closures it is in.
pub struct SymbolTableCreator {
    nst: NamespaceSymbolTable,
    cst: Option<ClassSymbolTable>,
    fst: Option<FunctionSymbolTable>,
    closures_fst: Vec<(FunctionSymbolTable, Ordinal)>,
    opened: Ordinal,
}

/// The model of an optional class-level table.
pub open spec fn view_optional_cst(table: Option<ClassSymbolTable>) -> Option<CstView> {
    match table {
        Some(t) => Some(cst_view(t@)),
        None => None,
    }
}

/// The model of an optional function-level table.
pub open spec fn view_optional_fst(table: Option<FunctionSymbolTable>) -> Option<FstView> {
    match table {
        Some(t) => Some(fst_view(t@)),
        None => None,
    }
}

/// The models of the tables of the open closures, each with its ordinal.
pub open spec fn view_closures(stack: Seq<(FunctionSymbolTable, Ordinal)>) -> Seq<(FstView, nat)> {
    Seq::new(stack.len(), |i: int| (fst_view(stack[i].0@), stack[i].1@))
}

impl View for SymbolTableCreator {
    type V = SymbolTableCreatorView;

    closed spec fn view(&self) -> SymbolTableCreatorView {
        SymbolTableCreatorView {
            nst: nst_view(self.nst@),
            cst: view_optional_cst(self.cst),
            fst: view_optional_fst(self.fst),
            closures: view_closures(self.closures_fst@),
            opened: self.opened@,
        }
    }
}

impl SymbolTableCreator {
    /// A creator that goes on from the table `nst` of a namespace.
    pub fn new(nst: NamespaceSymbolTable) -> (creator: Self)
        ensures
            creator@ == SymbolTableCreatorView::initial(nst_view(nst@)),
    {
        let creator = SymbolTableCreator {
            nst,
            cst: None,
            fst: None,
            closures_fst: Vec::new(),
            opened: Ordinal::new(),
        };
        assert(creator@.closures =~= Seq::empty());
        creator
    }

    /// The table of the namespace as the creator has it.
    pub fn into_table(self) -> (nst: NamespaceSymbolTable)
        ensures
            nst_view(nst@) == self@.nst,
    {
        self.nst
    }

    /// Whether a closure is open.
    pub fn in_closure(&self) -> (open: bool)
        ensures
            open == self@.in_closure(),
    {
        self.closures_fst.len() > 0
    }

    /// Puts `entry` under `name` in the innermost open scope.
    fn declare(&mut self, name: String, entry: FSTEntry)
        ensures
            final(self)@ == old(self)@.declare(name@, entry@),
    {
        let depth = self.closures_fst.len();
        if depth > 0 {
            let ghost before = self.closures_fst@;
            let top = &mut self.closures_fst[depth - 1];
            let ghost table = top.0@;
            top.0.insert(name, entry);
            proof {
                assert(fst_view(table.insert(name@, entry)) =~= fst_view(table).insert(
                    name@,
                    entry@,
                ));
                assert(view_closures(self.closures_fst@) =~= view_closures(before).update(
                    depth - 1,
                    (fst_view(table).insert(name@, entry@), before[depth - 1].1@),
                ));
            }
        } else {
            match &mut self.fst {
                Some(table) => {
                    let ghost before = table@;
                    table.insert(name, entry);
                    proof {
                        assert(fst_view(before.insert(name@, entry)) =~= fst_view(before).insert(
                            name@,
                            entry@,
                        ));
                    }
                },
                None => {},
            }
        }
    }
}

impl SymbolTableCreator {
    /// Enters a function: a fresh table is opened for it, no closure is open,
    /// and its closures are counted from zero. The function is not walked.
    pub fn enter_function(&mut self, n: &Function)
        ensures
            final(self)@ == old(self)@.after(EventView::Enter(NodeView::Function(n@))),
    {
        self.fst = Some(FunctionSymbolTable::new());
        self.closures_fst = Vec::new();
        self.opened = Ordinal::new();
        proof {
            assert(fst_view(Map::<Seq<char>, FSTEntry>::empty()) =~= Map::empty());
            assert(self@.closures =~= Seq::empty());
        }
    }

    /// Leaves a function: its table is recorded under its name, as a method
    /// of the open class or, where no class is open, as a function of the
    /// namespace.
    pub fn leave_function(&mut self, n: &Function)
        ensures
            final(self)@ == old(self)@.after(EventView::Leave(NodeView::Function(n@))),
    {
        let mut open: Option<FunctionSymbolTable> = None;
        core::mem::swap(&mut self.fst, &mut open);
        match open {
            Some(table) => {
                let name = owned(n.get_name());
                let return_type = owned(n.get_return_type());
                match &mut self.cst {
                    Some(class) => {
                        let ghost before = class@;
                        let entry = CSTEntry::Method(return_type, n.get_pos(), table);
                        class.insert(name, entry);
                        proof {
                            assert(cst_view(before.insert(name@, entry)) =~= cst_view(
                                before,
                            ).insert(name@, entry@));
                        }
                    },
                    None => {
                        let ghost before = self.nst@;
                        let entry = NSTEntry::Fun(return_type, n.get_pos(), table);
                        self.nst.insert(name, entry);
                        proof {
                            assert(nst_view(before.insert(name@, entry)) =~= nst_view(
                                before,
                            ).insert(name@, entry@));
                        }
                    },
                }
                self.closures_fst = Vec::new();
                self.opened = Ordinal::new();
                proof {
                    assert(self@.closures =~= Seq::empty());
                }
            },
            None => {},
        }
    }

    /// Enters a closure: it takes the next ordinal of the function, and a
    /// fresh table is pushed for it. The closure is not walked.
    pub fn enter_closure(&mut self, n: &Closure)
        ensures
            final(self)@ == old(self)@.after(EventView::Enter(NodeView::Closure(n@))),
    {
        let ghost before = self.closures_fst@;
        self.opened.increment();
        let ordinal = self.opened.clone();
        self.closures_fst.push((FunctionSymbolTable::new(), ordinal));
        proof {
            assert(fst_view(Map::<Seq<char>, FSTEntry>::empty()) =~= Map::empty());
            assert(view_closures(self.closures_fst@) =~= view_closures(before).push(
                (Map::empty(), self.opened@),
            ));
        }
    }

    /// Leaves a closure: its table is popped and recorded, under the name made
    /// from its ordinal, in the scope that is then innermost.
    pub fn leave_closure(&mut self, n: &Closure)
        ensures
            final(self)@ == old(self)@.after(EventView::Leave(NodeView::Closure(n@))),
    {
        let ghost before = self.closures_fst@;
        match self.closures_fst.pop() {
            Some(top) => {
                proof {
                    assert(view_closures(self.closures_fst@) =~= view_closures(before).drop_last());
                    assert(view_closures(before).last() == (fst_view(top.0@), top.1@));
                }
                let name = top.1.closure_name();
                let entry = FSTEntry::Closure(owned(n.get_return_type()), n.get_pos(), top.0);
                proof {
                    lemma_fst_entry_view(entry);
                }
                self.declare(name, entry);
            },
            None => {},
        }
    }

    /// Enters a parameter: it is declared in the innermost open scope.
    pub fn enter_param(&mut self, n: &Param)
        ensures
            final(self)@ == old(self)@.after(EventView::Enter(NodeView::Param(n@))),
    {
        let entry = FSTEntry::Param(owned(n.get_type()), n.get_pos());
        proof {
            lemma_fst_entry_view(entry);
        }
        self.declare(owned(n.get_name()), entry);
    }

    /// Enters the declaration of a local variable: the variable is declared in
    /// the innermost open scope. The initial value is not walked.
    pub fn enter_variable_declaration(&mut self, n: &VariableDeclaration)
        ensures
            final(self)@ == old(self)@.after(EventView::Enter(NodeView::VariableDeclaration(n@))),
    {
        let entry = FSTEntry::Var(owned(n.get_type_name()), n.get_pos());
        proof {
            lemma_fst_entry_view(entry);
        }
        self.declare(owned(n.get_name()), entry);
    }

    /// Enters a class: a fresh table is opened for it. The class is not
    /// walked.
    pub fn enter_class(&mut self, n: &Class)
        ensures
            final(self)@ == old(self)@.after(EventView::Enter(NodeView::Class(n@))),
    {
        self.cst = Some(ClassSymbolTable::new());
        proof {
            assert(cst_view(Map::<Seq<char>, CSTEntry>::empty()) =~= Map::empty());
        }
    }

    /// Leaves a class: its table is recorded in the table of the namespace
    /// under its name, with the name of its superclass, the names of its
    /// interfaces and its position.
    pub fn leave_class(&mut self, n: &Class)
        ensures
            final(self)@ == old(self)@.after(EventView::Leave(NodeView::Class(n@))),
    {
        let mut open: Option<ClassSymbolTable> = None;
        core::mem::swap(&mut self.cst, &mut open);
        match open {
            Some(table) => {
                let ghost before = self.nst@;
                let entry = NSTEntry::Class(
                    owned(n.get_super_name()),
                    n.implemented_interfaces().clone(),
                    n.get_pos(),
                    table,
                );
                let name = owned(n.get_name());
                self.nst.insert(name, entry);
                proof {
                    assert(nst_view(before.insert(name@, entry)) =~= nst_view(before).insert(
                        name@,
                        entry@,
                    ));
                }
            },
            None => {},
        }
    }

    /// Enters a field: it is recorded in the table of the open class.
    pub fn enter_field(&mut self, n: &Field)
        ensures
            final(self)@ == old(self)@.after(EventView::Enter(NodeView::Field(n@))),
    {
        match &mut self.cst {
            Some(class) => {
                let ghost before = class@;
                let entry = CSTEntry::Field(owned(n.get_type_name()), n.get_pos());
                let name = owned(n.get_name());
                class.insert(name, entry);
                proof {
                    assert(cst_view(before.insert(name@, entry)) =~= cst_view(before).insert(
                        name@,
                        entry@,
                    ));
                }
            },
            None => {},
        }
    }
}

impl SymbolTableCreator {
    /// Visits a function, from entering it to leaving it: a fresh table is
    /// opened, the parameters and then the statements are walked, and the
    /// finished table is recorded under the name of the function, as a method
    /// of the open class or, where no class is open, as a function of the
    /// namespace. Afterwards no function is open.
    pub fn visit_function(&mut self, n: &Function)
        ensures
            final(self)@ == old(self)@.after_function(n@),
            final(self)@ == walked_function::<SymbolTableCreator>(old(self)@, n@),
    {
        proof {
            lemma_function_walked(self@, n@);
        }
        ast_visitor::visit_function(self, n);
    }

    /// Visits a closure, from entering it to leaving it: it takes the next
    /// ordinal of the function, a fresh table is pushed, its parameters and
    /// then its statements are walked, and its table is popped and recorded,
    /// under the name made from its ordinal, in the scope around it. Inside a
    /// function that changes the innermost open scope and the count of
    /// closures, and nothing else.
    pub fn visit_closure(&mut self, n: &Closure)
        ensures
            final(self)@ == walked_closure::<SymbolTableCreator>(old(self)@, n@),
            old(self)@.fst is Some ==> final(self)@ == old(self)@.with_scope(
                scope_after_closure(old(self)@.scope(), n@),
            ),
    {
        proof {
            if self@.fst is Some {
                lemma_closure_walked(self@, n@);
            }
        }
        ast_visitor::visit_closure(self, n);
    }

    /// Visits a class, from entering it to leaving it: a fresh table is
    /// opened, the members are walked, and the finished table is recorded in
    /// the table of the namespace under the name of the class, with the name
    /// of its superclass, the names of its interfaces and its position.
    /// Afterwards no class is open.
    pub fn visit_class(&mut self, n: &Class)
        ensures
            final(self)@ == walked_class::<SymbolTableCreator>(old(self)@, n@),
            old(self)@.idle() ==> final(self)@ == old(self)@.with_namespace(
                old(self)@.nst.insert(n@.name, class_entry(n@)),
            ),
    {
        proof {
            if self@.idle() {
                lemma_class_walked(self@, n@);
            }
        }
        ast_visitor::visit_class(self, n);
    }

    /// Visits a parameter: it is declared in the innermost open scope, in place
    /// of what stood there under its name. Outside a function nothing is
    /// declared.
    pub fn visit_param(&mut self, n: &Param)
        ensures
            final(self)@ == walked_param::<SymbolTableCreator>(old(self)@, n@),
            final(self)@ == old(self)@.declare(n@.name, FstEntryView::Param(n@.ty, n@.pos)),
    {
        ast_visitor::visit_param(self, n);
    }

    /// Visits the declaration of a local variable: the variable is declared
    /// in the innermost open scope, in place of what stood there under its
    /// name, and then its initial value is walked, which records the closures
    /// in it. Inside a function that changes the innermost open scope and the
    /// count of closures, and nothing else.
    pub fn visit_variable_declaration(&mut self, n: &VariableDeclaration)
        ensures
            final(self)@ == walked_variable_declaration::<SymbolTableCreator>(old(self)@, n@),
            old(self)@.fst is Some ==> final(self)@ == old(self)@.with_scope(
                scope_after_variable_declaration(old(self)@.scope(), n@),
            ),
    {
        proof {
            if self@.fst is Some {
                lemma_variable_declaration_walked(self@, n@);
            }
        }
        ast_visitor::visit_variable_declaration(self, n);
    }

    /// Visits a field: it is recorded in the table of the open class under
    /// its name, in place of what stood there. Outside a class nothing is
    /// recorded.
    pub fn visit_field(&mut self, n: &Field)
        ensures
            final(self)@ == walked_field::<SymbolTableCreator>(old(self)@, n@),
            final(self)@ == (match old(self)@.cst {
                Some(class) => old(self)@.with_class(
                    class.insert(n@.name, CstEntryView::Field(n@.ty, n@.pos)),
                ),
                None => old(self)@,
            }),
    {
        proof {
            lemma_attributes_walked(
                self@.after(EventView::Enter(NodeView::Field(n@))),
                n@.attributes,
            );
        }
        ast_visitor::visit_field(self, n);
    }

    /// Visits a file: each of its functions and classes is visited, in order.
    /// From a creator that is in no class and in no function, that puts what
    /// the file declares into the table of the namespace.
    pub fn visit_file(&mut self, n: &File)
        ensures
            final(self)@ == walked_file::<SymbolTableCreator>(old(self)@, n@),
            old(self)@.idle() && old(self)@.cst is None ==> final(self)@ == old(
                self,
            )@.with_namespace(namespace_after_file(old(self)@.nst, n@)),
    {
        proof {
            if self@.idle() && self@.cst is None {
                lemma_file_walked(self@, n@);
            }
        }
        ast_visitor::visit_file(self, n);
    }
}

impl AstVisitor for SymbolTableCreator {
    open spec fn step(state: SymbolTableCreatorView, event: EventView) -> SymbolTableCreatorView {
        state.after(event)
    }

    fn visit(&mut self, event: Event<'_>) {
        match event {
            Event::Enter(Node::Function(f)) => self.enter_function(f),
            Event::Leave(Node::Function(f)) => self.leave_function(f),
            Event::Enter(Node::Closure(c)) => self.enter_closure(c),
            Event::Leave(Node::Closure(c)) => self.leave_closure(c),
            Event::Enter(Node::Param(p)) => self.enter_param(p),
            Event::Enter(Node::VariableDeclaration(d)) => self.enter_variable_declaration(d),
            Event::Enter(Node::Class(c)) => self.enter_class(c),
            Event::Leave(Node::Class(c)) => self.leave_class(c),
            Event::Enter(Node::Field(f)) => self.enter_field(f),
            _ => {},
        }
    }
}

} // verus!
