//! Source files that are known by their path and have not been read yet.

use vstd::prelude::*;
use crate::source_map::modpath::{joined, ModulePath};
use crate::tree::Label;

verus! {

/// A source file that is to be read when it is first needed.
#[derive(Clone, Debug)]
pub struct DeferredSourceFile {
    /// Where the file lies in the project.
    pub path: ModulePath,
    /// Stands for the text that has not been read.
    pub source_code: DeferredSourceCode,
}

impl DeferredSourceFile {
    /// The file at `path`, not read yet.
    pub fn new(path: ModulePath) -> (file: Self)
        ensures
            file.path == path,
    {
        Self { path, source_code: DeferredSourceCode {  } }
    }

    /// The file written out: its kind, and its path between quotes.
    pub fn to_string(&self) -> (text: String)
        ensures
            text@ == "DeferredSourceFile{ path = \""@ + joined(self.path@) + "\" }"@,
    {
        let mut text = String::new();
        text.append("DeferredSourceFile{ path = \"");
        let path = self.path.to_string();
        text.append(path.as_str());
        text.append("\" }");
        assert(text@ =~= "DeferredSourceFile{ path = \""@ + joined(self.path@) + "\" }"@);
        text
    }
}

impl Label for DeferredSourceFile {
    open spec fn label_text(&self) -> Seq<char> {
        "DeferredSourceFile{ path = \""@ + joined(self.path@) + "\" }"@
    }

    fn label(&self) -> (text: String) {
        self.to_string()
    }
}

/// Stands for source text that has not been read yet.
#[derive(Clone, Debug)]
pub struct DeferredSourceCode;

} // verus!
