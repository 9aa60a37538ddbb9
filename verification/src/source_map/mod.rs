//! The source files of a project and where each of them lies.

pub mod deferred;
pub mod modpath;
pub mod source_file;

use std::collections::hash_map::DefaultHasher;
use std::collections::HashMap;
use std::hash::Hasher;
use std::rc::Rc;
use std::sync::Arc;
use vstd::prelude::*;
use vstd::std_specs::hash::{spec_hash_map_iter, DefaultHasherAdditionalSpecFns};
use vstd::std_specs::iter::IteratorSpec;
use crate::tree::walk::visits;
use crate::tree::{Tree, TreeWalk};

pub use deferred::{DeferredSourceCode, DeferredSourceFile};
pub use modpath::ModulePath;
pub use source_file::{SourceCode, SourceFile};

verus! {

/// A position among all the text of a project, in bytes.
pub type BytePos = usize;

/// Names a source file that has been looked at: a hash of the file's name.
#[derive(Clone, Copy, Debug, PartialEq, Eq, Hash)]
pub struct SourceFileID(pub u64);

/// What is known of a module that was asked for.
#[derive(Debug)]
pub enum ModuleLookup<'a> {
    /// The module has been looked at before: here is its file.
    Loaded(SourceFile),
    /// The module belongs to the project and has not been looked at: its file is to be
    /// read and then put into the map.
    Deferred(&'a DeferredSourceFile),
    /// The project has no such module.
    Unknown,
}

/// The identifier that a file named `name` is kept under.
pub open spec fn id_of(name: Seq<char>) -> u64 {
    DefaultHasher::spec_finish(seq![vstd::utf8::encode_utf8(name)])
}

/// The source files of a project: the tree of all of them, none of them read, and those
/// that have been looked at, each under its identifier.
#[derive(Clone, Debug)]
pub struct SourceMap {
    /// Every module of the project, directories as branches.
    pub source_tree: Arc<Tree<DeferredSourceFile>>,
    source_id_map: HashMap<u64, SourceFile>,
}

impl SourceMap {
    /// The tree of the project's modules.
    pub closed spec fn tree(&self) -> Tree<DeferredSourceFile> {
        *self.source_tree
    }

    /// The files that have been looked at, each under its identifier.
    pub closed spec fn files(&self) -> Map<u64, SourceFile> {
        self.source_id_map@
    }

    /// Every file is kept under the identifier of its own name.
    pub open spec fn wf(&self) -> bool {
        forall|id: u64| #[trigger]
            self.files().contains_key(id) ==> id == id_of(self.files()[id].path@.last())
    }

    /// No position lies in the texts of two files: a position names one file at most.
    pub open spec fn texts_apart(&self) -> bool {
        forall|a: u64, b: u64|
            #![trigger self.files().contains_key(a), self.files().contains_key(b)]
            self.files().contains_key(a) && self.files().contains_key(b) && a != b
                ==> self.files()[a].apart_from(&self.files()[b])
    }

    /// Whether a file that has been looked at lies at `path`.
    pub open spec fn is_loaded(&self, path: ModulePath) -> bool {
        exists|id: u64| #[trigger] self.files().contains_key(id) && self.files()[id].path@ == path@
    }

    /// Whether `end` is where the text of the files ends: no text reaches behind it, and
    /// unless it is `0`, the text of one file ends there.
    pub open spec fn is_text_end(&self, end: nat) -> bool {
        &&& forall|id: u64| #[trigger]
            self.files().contains_key(id) ==> self.files()[id].text_end() <= end
        &&& end == 0 || exists|id: u64| #[trigger]
            self.files().contains_key(id) && self.files()[id].text_end() == end
    }

    /// The position behind all the text of the files that have been looked at; `0` while
    /// there is none.
    pub open spec fn text_end(&self) -> nat {
        choose|end: nat| self.is_text_end(end)
    }

    /// The text of the files ends at one place only.
    pub proof fn lemma_text_end_is(&self, end: nat)
        requires
            self.is_text_end(end),
        ensures
            self.text_end() == end,
    {
        let chosen = self.text_end();
        assert(self.is_text_end(chosen));
    }

    /// The map of the project whose modules are `tree`, with no file looked at yet.
    pub fn new(tree: Tree<DeferredSourceFile>) -> (map: Self)
        ensures
            map.wf(),
            map.texts_apart(),
            map.tree() == tree,
            map.files() == Map::<u64, SourceFile>::empty(),
    {
        Self { source_tree: Arc::new(tree), source_id_map: HashMap::new() }
    }

    /// The tree of the project's modules, as the field `source_tree` holds it.
    pub fn get_tree(&self) -> (tree: &Tree<DeferredSourceFile>)
        ensures
            *tree == self.tree(),
    {
        &*self.source_tree
    }

    /// The position at which the text of the next file is to be placed: behind all the
    /// text of the files that have been looked at, and `0` while there is none.
    pub fn get_offset(&self) -> (offset: BytePos)
        ensures
            self.is_text_end(offset as nat),
            offset == self.text_end(),
    {
        broadcast use vstd::std_specs::hash::group_hash_axioms;

        let mut offset: BytePos = 0;
        for entry in it: self.source_id_map.iter()
            invariant
                forall|i: int| 0 <= i < it.index() ==> (#[trigger] it.seq()[i]).1.text_end() <= offset,
                offset == 0 || exists|id: u64| #[trigger]
                    self.files().contains_key(id) && self.files()[id].text_end() == offset,
        {
            let (id, file) = entry;
            assert(self.files().contains_key(*id) && self.files()[*id] == *file);
            if let Some(code) = &file.source_code {
                let end = code.get_end();
                if end > offset {
                    offset = end;
                }
            }
        }
        proof {
            assert forall|id: u64| #[trigger] self.files().contains_key(id) implies self.files()[id].text_end()
                <= offset by {
                let entries = spec_hash_map_iter(&self.source_id_map).remaining();
                assert(entries.contains((&id, &self.files()[id])));
            }
            self.lemma_text_end_is(offset as nat);
        }
        offset
    }

    /// The file that has been looked at and whose text holds the position `pos`; `None`
    /// where there is none. While the texts lie apart there is one such file at most.
    pub fn get_file_with_pos(&self, pos: BytePos) -> (found: Option<&SourceFile>)
        ensures
            match found {
                Some(file) => {
                    &&& file.holds(pos as nat)
                    &&& exists|id: u64| #[trigger]
                        self.files().contains_key(id) && self.files()[id] == *file
                    &&& self.texts_apart() ==> forall|id: u64| #[trigger]
                        self.files().contains_key(id) && self.files()[id].holds(pos as nat)
                            ==> self.files()[id] == *file
                },
                None => forall|id: u64| #[trigger]
                    self.files().contains_key(id) ==> !self.files()[id].holds(pos as nat),
            },
    {
        broadcast use vstd::std_specs::hash::group_hash_axioms;

        for entry in it: self.source_id_map.iter()
            invariant
                forall|i: int| 0 <= i < it.index() ==> !(#[trigger] it.seq()[i]).1.holds(pos as nat),
        {
            let (id, file) = entry;
            if file.source_contains_pos(pos) {
                assert(self.files().contains_key(*id) && self.files()[*id] == *file);
                assert(self.texts_apart() ==> forall|other: u64| #[trigger]
                    self.files().contains_key(other) && self.files()[other].holds(pos as nat)
                        ==> self.files()[other] == *file) by {
                    if self.texts_apart() {
                        assert forall|other: u64| #[trigger]
                            self.files().contains_key(other) && self.files()[other].holds(
                                pos as nat,
                            ) implies self.files()[other] == *file by {
                            if other != *id {
                                assert(self.files()[*id].apart_from(&self.files()[other]));
                                assert(self.files()[*id].holds(pos as nat));
                            }
                        }
                    }
                }
                return Some(file);
            }
        }
        assert forall|id: u64| #[trigger] self.files().contains_key(id) implies !self.files()[id].holds(
            pos as nat,
        ) by {
            let entries = spec_hash_map_iter(&self.source_id_map).remaining();
            assert(entries.contains((&id, &self.files()[id])));
        }
        None
    }

    /// The file at `path` among those that have been looked at.
    fn find_loaded(&self, path: &ModulePath) -> (found: Option<SourceFile>)
        requires
            self.wf(),
        ensures
            match found {
                Some(file) => {
                    &&& file.path@ == path@
                    &&& self.files().contains_key(id_of(path@.last()))
                    &&& file == self.files()[id_of(path@.last())]
                },
                None => !self.is_loaded(*path),
            },
    {
        broadcast use vstd::std_specs::hash::group_hash_axioms;

        for entry in it: self.source_id_map.iter()
            invariant
                self.wf(),
                forall|i: int| 0 <= i < it.index() ==> (#[trigger] it.seq()[i]).1.path@ != path@,
        {
            let (id, file) = entry;
            if file.path.same(path) {
                assert(self.files().contains_key(*id) && self.files()[*id] == *file);
                return Some(file.clone());
            }
        }
        assert forall|id: u64| #[trigger] self.files().contains_key(id) implies self.files()[id].path@
            != path@ by {
            let entries = spec_hash_map_iter(&self.source_id_map).remaining();
            assert(entries.contains((&id, &self.files()[id])));
        }
        None
    }

    /// The first module at `path` that a walk over the project's tree comes to.
    fn find_deferred(&self, path: &ModulePath) -> (found: Option<&DeferredSourceFile>)
        ensures
            match found {
                Some(file) => exists|i: int|
                    {
                        &&& 0 <= i < visits(seq![self.tree()]).len()
                        &&& (#[trigger] visits(seq![self.tree()])[i]).value() == *file
                        &&& file.path@ == path@
                        &&& forall|j: int|
                            0 <= j < i ==> (#[trigger] visits(seq![self.tree()])[j]).value().path@
                                != path@
                    },
                None => forall|i: int|
                    0 <= i < visits(seq![self.tree()]).len() ==> (#[trigger] visits(
                        seq![self.tree()],
                    )[i]).value().path@ != path@,
            },
    {
        let mut walk = TreeWalk::new(&*self.source_tree);
        let ghost all = visits(seq![self.tree()]);
        let ghost mut seen: int = 0;
        assert(all.skip(0) =~= all);
        loop
            invariant
                0 <= seen <= all.len(),
                all == visits(seq![self.tree()]),
                walk.remaining() == all.skip(seen),
                forall|j: int| 0 <= j < seen ==> (#[trigger] all[j]).value().path@ != path@,
            decreases all.len() - seen,
        {
            let ghost before = walk.stack();
            match walk.next() {
                None => {
                    assert(visits(before).len() == 0);
                    return None;
                },
                Some(node) => {
                    assert(all.skip(seen)[0] == all[seen]);
                    assert(walk.remaining() =~= all.skip(seen + 1));
                    let file = match node {
                        Tree::Leaf(file) => file,
                        Tree::Branch(dir, _) => dir,
                    };
                    if file.path.same(path) {
                        return Some(file);
                    }
                    proof {
                        seen = seen + 1;
                    }
                },
            }
        }
    }

    /// Looks for the module at `path`: first among the files that have been looked at,
    /// then in the project's tree, where the first module at `path` that a walk comes to
    /// counts. A module that has been looked at is found again as the same file, for as
    /// long as it is kept.
    pub fn get_module<'a>(&'a self, path: &ModulePath) -> (lookup: ModuleLookup<'a>)
        requires
            self.wf(),
        ensures
            match lookup {
                ModuleLookup::Loaded(file) => {
                    &&& file.path@ == path@
                    &&& self.files().contains_key(id_of(path@.last()))
                    &&& file == self.files()[id_of(path@.last())]
                },
                ModuleLookup::Deferred(file) => {
                    &&& !self.is_loaded(*path)
                    &&& exists|i: int|
                        {
                            &&& 0 <= i < visits(seq![self.tree()]).len()
                            &&& (#[trigger] visits(seq![self.tree()])[i]).value() == *file
                            &&& file.path@ == path@
                            &&& forall|j: int|
                                0 <= j < i ==> (#[trigger] visits(
                                    seq![self.tree()],
                                )[j]).value().path@ != path@
                        }
                },
                ModuleLookup::Unknown => {
                    &&& !self.is_loaded(*path)
                    &&& forall|i: int|
                        0 <= i < visits(seq![self.tree()]).len() ==> (#[trigger] visits(
                            seq![self.tree()],
                        )[i]).value().path@ != path@
                },
            },
    {
        if let Some(file) = self.find_loaded(path) {
            return ModuleLookup::Loaded(file);
        }
        match self.find_deferred(path) {
            Some(file) => ModuleLookup::Deferred(file),
            None => ModuleLookup::Unknown,
        }
    }

    /// Keeps `file` as looked at, under the identifier of its name, in place of what was
    /// kept under that identifier before. Returns the identifier. The texts stay apart
    /// where the text of `file` lies apart from that of every file kept under another
    /// identifier.
    pub fn put(&mut self, file: SourceFile) -> (id: SourceFileID)
        ensures
            id.0 == id_of(file.path@.last()),
            final(self).files() == old(self).files().insert(id.0, file),
            final(self).tree() == old(self).tree(),
            old(self).wf() ==> final(self).wf(),
            old(self).texts_apart() && (forall|other: u64| #[trigger]
                old(self).files().contains_key(other) && other != id.0 ==> file.apart_from(
                    &old(self).files()[other],
                )) ==> final(self).texts_apart(),
    {
        broadcast use vstd::std_specs::hash::group_hash_axioms;

        let name = file.path.get_name();
        let mut hasher = DefaultHasher::new();
        hasher.write((&*name).as_bytes());
        let hash = hasher.finish();
        self.source_id_map.insert(hash, file);
        proof {
            if old(self).texts_apart() && (forall|other: u64| #[trigger]
                old(self).files().contains_key(other) && other != hash ==> file.apart_from(
                    &old(self).files()[other],
                )) {
                assert forall|a: u64, b: u64|
                    #![trigger self.files().contains_key(a), self.files().contains_key(b)]
                    self.files().contains_key(a) && self.files().contains_key(b) && a
                        != b implies self.files()[a].apart_from(&self.files()[b]) by {
                    if a == hash {
                        assert(old(self).files().contains_key(b));
                    } else if b == hash {
                        assert(old(self).files().contains_key(a));
                        assert(file.apart_from(&old(self).files()[a]));
                    } else {
                        assert(old(self).files().contains_key(a));
                        assert(old(self).files().contains_key(b));
                    }
                }
            }
        }
        SourceFileID(hash)
    }

    /// Takes in the file that `deferred` stands for, with the text `content` that was read
    /// from it; a directory has none. The text is placed behind all the text that the map
    /// holds, so that it shares no position with the text of another file, and the file
    /// is kept under the identifier of its name. Returns the file.
    pub fn load(&mut self, deferred: &DeferredSourceFile, content: Option<Rc<str>>) -> (file:
        SourceFile)
        requires
            old(self).wf(),
            content matches Some(data) ==> old(self).text_end() + vstd::utf8::encode_utf8(
                data@,
            ).len() <= usize::MAX,
        ensures
            final(self).wf(),
            final(self).tree() == old(self).tree(),
            final(self).files() == old(self).files().insert(id_of(deferred.path@.last()), file),
            file.path@ == deferred.path@,
            match content {
                Some(data) => {
                    &&& file.source_code matches Some(code)
                    &&& code.wf()
                    &&& code.start() == old(self).text_end()
                    &&& code.text() == data@
                },
                None => file.source_code is None,
            },
            forall|id: u64| #[trigger]
                old(self).files().contains_key(id) ==> file.apart_from(&old(self).files()[id]),
            old(self).texts_apart() ==> final(self).texts_apart(),
    {
        let offset = self.get_offset();
        let file = SourceFile::new(deferred, offset, content);
        proof {
            assert forall|id: u64| #[trigger] old(self).files().contains_key(id) implies file.apart_from(
                &old(self).files()[id],
            ) by {
                let other = old(self).files()[id];
                assert(other.text_end() <= offset);
                assert forall|pos: nat| !(#[trigger] file.holds(pos) && other.holds(pos)) by {}
            }
        }
        self.put(file.clone());
        file
    }
}

} // verus!
