use vstd::prelude::*;
use crate::ast::{opt_view, File, FileView};

verus! {

/// The rules of the grammar that the syntax tree is built from.
#[derive(Clone, Copy, Debug, PartialEq, Eq, Structural)]
pub enum Rule {
    File,
    Namespace,
    Import,
    QualifiedType,
    MethodDecl,
    ClassDecl,
    FieldDecl,
    BlockDecl,
    InterfaceList,
    AttributeList,
    Attribute,
    Ident,
    Operator,
    ParamList,
    IdentTypePair,
    Type,
    ExecutableBody,
    Statement,
    ReturnStmt,
    Declaration,
    Affectation,
    QualifiedExpression,
    QualifiedIdent,
    MethodCall,
    Integer,
    String,
    StringChars,
    Character,
    Boolean,
    Null,
    Closure,
    Expression,
    EqOp,
    NeOp,
    GtOp,
    GeOp,
    LtOp,
    LeOp,
    AdOp,
    MnOp,
    TmOp,
    DvOp,
    MdOp,
    /// Any rule that the syntax tree takes nothing from.
    Other,
}

/// Model of a [`ParseNode`].
pub struct ParseNodeView {
    pub rule: Rule,
    pub pos: (usize, usize),
    pub text: Seq<char>,
    pub children: Seq<ParseNodeView>,
}

/// One match of a rule of the grammar: the rule, where the match starts, the
/// text it covers, and the matches inside it, in order. In an `Expression`
/// node the operators have been put in their order of precedence already: it
/// holds one operand, and an operand is a chain or an operator node with its
/// two operands below it.
#[derive(Debug)]
pub struct ParseNode {
    rule: Rule,
    pos: (usize, usize),
    text: String,
    children: Vec<ParseNode>,
}

/// The models of a list of nodes, in order.
pub open spec fn view_nodes(s: Seq<ParseNode>) -> Seq<ParseNodeView> {
    Seq::new(s.len(), |i: int| s[i]@)
}

impl ParseNode {
    pub closed spec fn model(&self) -> ParseNodeView
        decreases self,
    {
        ParseNodeView {
            rule: self.rule,
            pos: self.pos,
            text: self.text@,
            children: Seq::new(
                self.children@.len(),
                |i: int|
                    if 0 <= i < self.children@.len() {
                        self.children@[i].model()
                    } else {
                        arbitrary()
                    },
            ),
        }
    }

    pub fn new(rule: Rule, pos: (usize, usize), text: String, children: Vec<ParseNode>) -> (node:
        Self)
        ensures
            node@ == (ParseNodeView { rule, pos, text: text@, children: view_nodes(children@) }),
    {
        let node = ParseNode { rule, pos, text, children };
        assert(node.model().children =~= view_nodes(node.children@));
        node
    }

    /// The rule that matched.
    pub fn as_rule(&self) -> (rule: Rule)
        ensures
            rule == self@.rule,
    {
        self.rule
    }

    /// The text that the match covers.
    pub fn as_str(&self) -> (text: &str)
        ensures
            text@ == self@.text,
    {
        self.text.as_str()
    }

    /// The line and column at which the match starts.
    pub fn get_pos(&self) -> (pos: (usize, usize))
        ensures
            pos == self@.pos,
    {
        self.pos
    }

    /// The matches inside this one, in order.
    pub fn children(&self) -> (children: &Vec<ParseNode>)
        ensures
            view_nodes(children@) == self@.children,
    {
        assert(self.model().children =~= view_nodes(self.children@));
        &self.children
    }
}

impl View for ParseNode {
    type V = ParseNodeView;

    open spec fn view(&self) -> ParseNodeView {
        self.model()
    }
}

/// The syntax tree of a file from the match of the `File` rule on its text, or
/// `None` where the match has not the shape of one.
pub fn parse_tree(root: &ParseNode) -> (file: Option<File>)
    ensures
        opt_view(file) == FileView::from_pair(root@),
{
    File::from_pair(root)
}

} // verus!
