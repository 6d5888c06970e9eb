use vstd::prelude::*;
use crate::ast::{File, FileView};

verus! {

/// Model of a [`SourceFile`].
pub struct SourceFileView {
    pub path: Seq<char>,
    pub code: Seq<char>,
    pub ast: FileView,
}

/// A source file: where it came from, its text and its syntax tree.
#[derive(Debug)]
pub struct SourceFile {
    path: String,
    code: String,
    ast: File,
}

impl View for SourceFile {
    type V = SourceFileView;

    closed spec fn view(&self) -> SourceFileView {
        SourceFileView { path: self.path@, code: self.code@, ast: self.ast@ }
    }
}

impl SourceFile {
    pub fn get_path(&self) -> (path: &str)
        ensures
            path@ == self@.path,
    {
        self.path.as_str()
    }

    pub fn get_code(&self) -> (code: &str)
        ensures
            code@ == self@.code,
    {
        self.code.as_str()
    }

    pub fn get_ast(&mut self) -> (ast: &mut File)
        ensures
            ast@ == old(self)@.ast,
            final(self)@ == (SourceFileView { ast: final(ast)@, ..old(self)@ }),
    {
        &mut self.ast
    }

    /// A source file from its path, its text and the tree that the text was
    /// parsed into.
    pub fn new(path: String, code: String, ast: File) -> (file: Self)
        ensures
            file@ == (SourceFileView { path: path@, code: code@, ast: ast@ }),
    {
        SourceFile { path, code, ast }
    }

    /// The syntax tree, for reading.
    pub fn ast(&self) -> (ast: &File)
        ensures
            ast@ == self@.ast,
    {
        &self.ast
    }

    /// Takes the source file apart into its path, its text and its tree.
    pub fn into_parts(self) -> (parts: (String, String, File))
        ensures
            parts.0@ == self@.path,
            parts.1@ == self@.code,
            parts.2@ == self@.ast,
    {
        (self.path, self.code, self.ast)
    }
}

impl Clone for SourceFile {
    fn clone(&self) -> (res: Self)
        ensures
            res@ == self@,
    {
        SourceFile { path: self.path.clone(), code: self.code.clone(), ast: self.ast.clone() }
    }
}

} // verus!
