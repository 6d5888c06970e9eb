use vstd::prelude::*;
use vstd::string::StringExecFns;
use crate::parser::{view_nodes, ParseNode, ParseNodeView, Rule};
use crate::text::owned;
use crate::ast::node::opt_view;
use super::class::{Class, ClassView};
use super::function::{Function, FunctionView};
use super::node::view_seq;

verus! {

/// Model of a [`File`].
pub struct FileView {
    pub namespace: Seq<char>,
    pub imports: Seq<Seq<char>>,
    pub entities: Seq<FirstClassEntityView>,
}

/// Model of a [`FirstClassEntity`].
pub enum FirstClassEntityView {
    Function(FunctionView),
    Class(ClassView),
}

/// One source file: its namespace, its imports and what it declares.
#[derive(Debug)]
pub struct File {
    namespace: String,
    imports: Vec<String>,
    entities: Vec<FirstClassEntity>,
}

/// What a file can declare at its top level.
#[derive(Debug)]
pub enum FirstClassEntity {
    Function(Function),
    Class(Class),
}

impl View for FirstClassEntity {
    type V = FirstClassEntityView;

    open spec fn view(&self) -> FirstClassEntityView {
        match self {
            FirstClassEntity::Function(f) => FirstClassEntityView::Function(f@),
            FirstClassEntity::Class(c) => FirstClassEntityView::Class(c@),
        }
    }
}

impl View for File {
    type V = FileView;

    closed spec fn view(&self) -> FileView {
        FileView {
            namespace: self.namespace@,
            imports: view_seq(self.imports@),
            entities: view_seq(self.entities@),
        }
    }
}

impl File {
    pub fn get_namespace(&self) -> (namespace: &str)
        ensures
            namespace@ == self@.namespace,
    {
        self.namespace.as_str()
    }

    pub fn get_imports(&self) -> (imports: &Vec<String>)
        ensures
            view_seq(imports@) == self@.imports,
    {
        &self.imports
    }

    pub fn get_entities(&self) -> (entities: &Vec<FirstClassEntity>)
        ensures
            view_seq(entities@) == self@.entities,
    {
        &self.entities
    }

    pub fn new(namespace: String, imports: Vec<String>, entities: Vec<FirstClassEntity>) -> (file:
        Self)
        ensures
            file@ == (FileView {
                namespace: namespace@,
                imports: view_seq(imports@),
                entities: view_seq(entities@),
            }),
    {
        File { namespace, imports, entities }
    }

    /// A file as a whole starts nowhere: its position is `(0, 0)`.
    pub fn get_pos(&self) -> (pos: (usize, usize))
        ensures
            pos == (0usize, 0usize),
    {
        (0, 0)
    }

    /// The declarations, for changing in place.
    pub fn entities_mut(&mut self) -> (entities: &mut Vec<FirstClassEntity>)
        ensures
            view_seq(entities@) == old(self)@.entities,
            final(self)@ == (FileView { entities: view_seq(final(entities)@), ..old(self)@ }),
    {
        &mut self.entities
    }

    /// Takes the file apart into its namespace, its imports and its
    /// declarations.
    pub fn into_parts(self) -> (parts: (String, Vec<String>, Vec<FirstClassEntity>))
        ensures
            parts.0@ == self@.namespace,
            view_seq(parts.1@) == self@.imports,
            view_seq(parts.2@) == self@.entities,
    {
        (self.namespace, self.imports, self.entities)
    }
}

/// The texts of the matches of the `QualifiedType` rule among `pairs`, joined
/// with the latest first, in front of `start`.
pub open spec fn joined_types(start: Seq<char>, pairs: Seq<ParseNodeView>) -> Seq<char>
    decreases pairs.len(),
{
    if pairs.len() == 0 {
        start
    } else if pairs.last().rule == Rule::QualifiedType {
        pairs.last().text + joined_types(start, pairs.drop_last())
    } else {
        joined_types(start, pairs.drop_last())
    }
}

/// The texts of the matches of the `QualifiedType` rule among `pairs`, in
/// order.
pub open spec fn type_names(pairs: Seq<ParseNodeView>) -> Seq<Seq<char>>
    decreases pairs.len(),
{
    if pairs.len() == 0 {
        Seq::empty()
    } else if pairs.last().rule == Rule::QualifiedType {
        type_names(pairs.drop_last()).push(pairs.last().text)
    } else {
        type_names(pairs.drop_last())
    }
}

impl FileView {
    /// A file with nothing in it yet.
    pub open spec fn blank() -> FileView {
        FileView { namespace: Seq::empty(), imports: Seq::empty(), entities: Seq::empty() }
    }

    /// The file with what one more child of its match gives it: a `Namespace`
    /// gives the namespace, an `Import` gives imports, a `MethodDecl` a
    /// function and a `ClassDecl` a class; any other child gives nothing.
    pub open spec fn after_pair(self, child: ParseNodeView) -> Option<FileView> {
        match child.rule {
            Rule::Namespace => Some(
                FileView { namespace: joined_types(self.namespace, child.children), ..self },
            ),
            Rule::Import => Some(
                FileView { imports: self.imports + type_names(child.children), ..self },
            ),
            Rule::MethodDecl => match FunctionView::from_pair(child) {
                Some(f) => Some(
                    FileView {
                        entities: self.entities.push(FirstClassEntityView::Function(f)),
                        ..self
                    },
                ),
                None => None,
            },
            Rule::ClassDecl => match ClassView::from_pair(child) {
                Some(c) => Some(
                    FileView {
                        entities: self.entities.push(FirstClassEntityView::Class(c)),
                        ..self
                    },
                ),
                None => None,
            },
            _ => Some(self),
        }
    }

    /// The file with what more children of its match give it, in order.
    pub open spec fn after_pairs(
        start: Option<FileView>,
        children: Seq<ParseNodeView>,
    ) -> Option<FileView>
        decreases children.len(),
    {
        if children.len() == 0 {
            start
        } else {
            match FileView::after_pairs(start, children.drop_last()) {
                Some(file) => file.after_pair(children.last()),
                None => None,
            }
        }
    }

    /// The file that a match of the `File` rule stands for.
    pub open spec fn from_pair(pair: ParseNodeView) -> Option<FileView> {
        if pair.rule == Rule::File {
            FileView::after_pairs(Some(FileView::blank()), pair.children)
        } else {
            None
        }
    }
}

/// Puts the texts of the matches of the `QualifiedType` rule among `pairs` in
/// front of `namespace`, the latest first.
fn join_types(namespace: String, pairs: &Vec<ParseNode>) -> (joined: String)
    ensures
        joined@ == joined_types(namespace@, view_nodes(pairs@)),
{
    let ghost all = view_nodes(pairs@);
    let ghost start = namespace@;
    let mut joined = namespace;
    let mut i: usize = 0;
    proof {
        assert(all.take(0) =~= Seq::empty());
    }
    while i < pairs.len()
        invariant
            i <= pairs.len(),
            all == view_nodes(pairs@),
            joined@ == joined_types(start, all.take(i as int)),
        decreases pairs.len() - i,
    {
        proof {
            assert(all.take(i as int + 1).drop_last() =~= all.take(i as int));
            assert(all.take(i as int + 1).last() == pairs@[i as int]@);
        }
        if pairs[i].as_rule() == Rule::QualifiedType {
            let mut front = owned(pairs[i].as_str());
            front.append(joined.as_str());
            joined = front;
        }
        i += 1;
    }
    proof {
        assert(all.take(pairs.len() as int) =~= all);
    }
    joined
}

/// Appends the texts of the matches of the `QualifiedType` rule among `pairs`
/// to `imports`.
fn add_type_names(imports: &mut Vec<String>, pairs: &Vec<ParseNode>)
    ensures
        view_seq(final(imports)@) == view_seq(old(imports)@) + type_names(view_nodes(pairs@)),
{
    let ghost all = view_nodes(pairs@);
    let ghost start = view_seq(imports@);
    let mut i: usize = 0;
    proof {
        assert(all.take(0) =~= Seq::empty());
        assert(start + Seq::<Seq<char>>::empty() =~= start);
    }
    while i < pairs.len()
        invariant
            i <= pairs.len(),
            all == view_nodes(pairs@),
            view_seq(imports@) == start + type_names(all.take(i as int)),
        decreases pairs.len() - i,
    {
        proof {
            assert(all.take(i as int + 1).drop_last() =~= all.take(i as int));
            assert(all.take(i as int + 1).last() == pairs@[i as int]@);
        }
        if pairs[i].as_rule() == Rule::QualifiedType {
            let ghost before = imports@;
            let name = owned(pairs[i].as_str());
            imports.push(name);
            proof {
                assert(view_seq(imports@) =~= view_seq(before).push(name@));
                assert(start + type_names(all.take(i as int)).push(name@) =~= (start + type_names(
                    all.take(i as int),
                )).push(name@));
            }
        }
        i += 1;
    }
    proof {
        assert(all.take(pairs.len() as int) =~= all);
    }
}

impl File {
    pub fn from_pair(pair: &ParseNode) -> (node: Option<Self>)
        ensures
            opt_view(node) == FileView::from_pair(pair@),
    {
        if pair.as_rule() != Rule::File {
            return None;
        }
        let children = pair.children();
        let ghost all = view_nodes(children@);
        let ghost start = Some(FileView::blank());
        let mut imports: Vec<String> = Vec::new();
        let mut namespace = String::new();
        let mut entities: Vec<FirstClassEntity> = Vec::new();
        let mut failed = false;
        let mut i: usize = 0;
        proof {
            assert(all.take(0) =~= Seq::empty());
            assert(view_seq(imports@) =~= Seq::empty());
            assert(view_seq(entities@) =~= Seq::empty());
        }
        while i < children.len()
            invariant
                i <= children.len(),
                all == view_nodes(children@),
                start == Some(FileView::blank()),
                FileView::after_pairs(start, all.take(i as int)) == (if failed {
                    None
                } else {
                    Some(
                        FileView {
                            namespace: namespace@,
                            imports: view_seq(imports@),
                            entities: view_seq(entities@),
                        },
                    )
                }),
            decreases children.len() - i,
        {
            let ghost next = all.take(i as int + 1);
            let ghost so_far = FileView::after_pairs(start, all.take(i as int));
            proof {
                assert(next.drop_last() =~= all.take(i as int));
                assert(next.last() == children@[i as int]@);
                assert(FileView::after_pairs(start, next) == match so_far {
                    Some(file) => file.after_pair(children@[i as int]@),
                    None => None,
                });
            }
            if !failed {
                let child = &children[i];
                match child.as_rule() {
                    Rule::Namespace => {
                        namespace = join_types(namespace, child.children());
                    },
                    Rule::Import => {
                        add_type_names(&mut imports, child.children());
                    },
                    Rule::MethodDecl => match Function::from_pair(child) {
                        Some(f) => {
                            let ghost before = entities@;
                            let entity = FirstClassEntity::Function(f);
                            entities.push(entity);
                            proof {
                                assert(view_seq(entities@) =~= view_seq(before).push(entity@));
                            }
                        },
                        None => {
                            failed = true;
                        },
                    },
                    Rule::ClassDecl => match Class::from_pair(child) {
                        Some(c) => {
                            let ghost before = entities@;
                            let entity = FirstClassEntity::Class(c);
                            entities.push(entity);
                            proof {
                                assert(view_seq(entities@) =~= view_seq(before).push(entity@));
                            }
                        },
                        None => {
                            failed = true;
                        },
                    },
                    _ => {},
                }
            }
            i += 1;
        }
        proof {
            assert(all.take(children.len() as int) =~= all);
        }
        if failed {
            None
        } else {
            Some(File::new(namespace, imports, entities))
        }
    }
}

impl FirstClassEntity {
    /// A copy of the declaration and all below it.
    pub fn duplicate(&self) -> (copy: Self)
        ensures
            copy@ == self@,
    {
        match self {
            FirstClassEntity::Function(f) => FirstClassEntity::Function(f.duplicate()),
            FirstClassEntity::Class(c) => FirstClassEntity::Class(c.duplicate()),
        }
    }
}

impl File {
    /// A copy of the file and all below it.
    pub fn duplicate(&self) -> (copy: Self)
        ensures
            copy@ == self@,
    {
        let mut entities: Vec<FirstClassEntity> = Vec::new();
        let mut i: usize = 0;
        while i < self.entities.len()
            invariant
                i <= self.entities.len(),
                entities@.len() == i,
                forall|j: int| 0 <= j < i ==> (#[trigger] entities@[j])@ == self.entities@[j]@,
            decreases self.entities.len() - i,
        {
            entities.push(self.entities[i].duplicate());
            i += 1;
        }
        proof {
            assert(view_seq(entities@) =~= view_seq(self.entities@));
        }
        File::new(self.namespace.clone(), self.imports.clone(), entities)
    }
}

impl Clone for FirstClassEntity {
    fn clone(&self) -> (res: Self)
        ensures
            res@ == self@,
    {
        self.duplicate()
    }
}

impl Clone for File {
    fn clone(&self) -> (res: Self)
        ensures
            res@ == self@,
    {
        self.duplicate()
    }
}

} // verus!
