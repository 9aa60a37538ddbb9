//! The path of a module within a project.

use std::rc::Rc;
use std::sync::Arc;
use vstd::prelude::*;
use vstd::std_specs::cmp::PartialEqSpecImpl;
use vstd::utf8::{encode_utf8, encode_utf8_decode_utf8};
use crate::tree::Label;

verus! {

/// Whether two texts hold the same characters.
pub fn str_eq(left: &str, right: &str) -> (same: bool)
    ensures
        same == (left@ == right@),
{
    let a = left.as_bytes();
    let b = right.as_bytes();
    proof {
        encode_utf8_decode_utf8(left@);
        encode_utf8_decode_utf8(right@);
    }
    if a.len() != b.len() {
        return false;
    }
    let mut i: usize = 0;
    while i < a.len()
        invariant
            i <= a.len(),
            a.len() == b.len(),
            a@ == encode_utf8(left@),
            b@ == encode_utf8(right@),
            forall|j: int| 0 <= j < i ==> a@[j] == b@[j],
        decreases a.len() - i,
    {
        if a[i] != b[i] {
            return false;
        }
        i += 1;
    }
    assert(a@ =~= b@);
    true
}

/// The components of a path written out with `/` between them.
pub open spec fn joined(components: Seq<Seq<char>>) -> Seq<char>
    decreases components.len(),
{
    if components.len() == 0 {
        Seq::empty()
    } else if components.len() == 1 {
        components[0]
    } else {
        joined(components.drop_last()) + seq!['/'] + components.last()
    }
}

/// One module of a project: its name and, unless it is the root, the module that holds it.
#[derive(Debug)]
pub struct ModulePath {
    parent: Option<Rc<ModulePath>>,
    name: Arc<str>,
}

impl ModulePath {
    /// The names on the way from the root of the project to this module, this module's
    /// own name last.
    pub closed spec fn components(&self) -> Seq<Seq<char>>
        decreases self,
    {
        match self.parent {
            Some(parent) => parent.components().push(self.name@),
            None => seq![self.name@],
        }
    }

    /// A path has at least its own name.
    pub proof fn lemma_components_nonempty(&self)
        ensures
            self.components().len() >= 1,
        decreases self,
    {
        match self.parent {
            Some(parent) => {
                parent.lemma_components_nonempty();
            },
            None => {},
        }
    }

    /// The module `name` inside `parent`; with no parent, the root module `name`.
    pub fn new(name: Arc<str>, parent: Option<ModulePath>) -> (path: Self)
        ensures
            path@ == match parent {
                Some(parent) => parent@.push(name@),
                None => seq![name@],
            },
    {
        let parent = match parent {
            Some(parent) => Some(Rc::new(parent)),
            None => None,
        };
        Self { parent, name }
    }

    /// The module's own name.
    pub fn get_name(&self) -> (name: Arc<str>)
        ensures
            name@ == self@.last(),
    {
        self.name.clone()
    }

    /// The path written out: the names from the root down, with `/` between them.
    pub fn to_string(&self) -> (text: String)
        ensures
            text@ == joined(self@),
        decreases self,
    {
        proof {
            self.lemma_components_nonempty();
        }
        match &self.parent {
            Some(parent) => {
                proof {
                    parent.lemma_components_nonempty();
                    reveal_strlit("/");
                    assert("/"@ =~= seq!['/']);
                    assert(self@.drop_last() =~= parent@);
                }
                let mut text = parent.to_string();
                text.append("/");
                text.append(&*self.name);
                text
            },
            None => {
                let mut text = String::new();
                text.append(&*self.name);
                assert(text@ =~= self.name@);
                text
            },
        }
    }

    /// Whether both paths name the same module.
    pub fn same(&self, other: &ModulePath) -> (same: bool)
        ensures
            same == (self@ == other@),
        decreases self,
    {
        proof {
            self.lemma_components_nonempty();
            other.lemma_components_nonempty();
        }
        if !str_eq(&*self.name, &*other.name) {
            assert(self@.last() != other@.last());
            return false;
        }
        match (&self.parent, &other.parent) {
            (Some(left), Some(right)) => {
                let same = left.same(right);
                proof {
                    assert(self@.drop_last() =~= left@);
                    assert(other@.drop_last() =~= right@);
                    if same {
                        assert(self@ =~= other@);
                    }
                }
                same
            },
            (None, None) => {
                assert(self@ =~= other@);
                true
            },
            (Some(left), None) => {
                proof {
                    left.lemma_components_nonempty();
                }
                false
            },
            (None, Some(right)) => {
                proof {
                    right.lemma_components_nonempty();
                }
                false
            },
        }
    }
}

impl View for ModulePath {
    type V = Seq<Seq<char>>;

    open spec fn view(&self) -> Seq<Seq<char>> {
        self.components()
    }
}

impl Label for ModulePath {
    open spec fn label_text(&self) -> Seq<char> {
        joined(self@)
    }

    fn label(&self) -> (text: String) {
        self.to_string()
    }
}

impl Clone for ModulePath {
    fn clone(&self) -> (copy: Self)
        ensures
            copy == *self,
    {
        let parent = match &self.parent {
            Some(parent) => Some(parent.clone()),
            None => None,
        };
        Self { parent, name: self.name.clone() }
    }
}

impl PartialEq for ModulePath {
    fn eq(&self, other: &ModulePath) -> (same: bool) {
        self.same(other)
    }
}

impl PartialEqSpecImpl for ModulePath {
    open spec fn obeys_eq_spec() -> bool {
        true
    }

    open spec fn eq_spec(&self, other: &ModulePath) -> bool {
        self@ == other@
    }
}

impl Eq for ModulePath {

}

} // verus!
