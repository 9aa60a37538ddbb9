use std::rc::Rc;

use silver::source_map::modpath::str_eq;
use silver::source_map::{
    DeferredSourceFile, ModuleLookup, ModulePath, SourceCode, SourceFile, SourceMap,
};
use silver::tree::Tree;

fn path(names: &[&str]) -> ModulePath {
    let mut path: Option<ModulePath> = None;
    for name in names {
        path = Some(ModulePath::new((*name).into(), path));
    }
    path.unwrap()
}

fn project() -> Tree<DeferredSourceFile> {
    Tree::Branch(
        DeferredSourceFile::new(path(&["src"])),
        vec![
            Tree::Leaf(DeferredSourceFile::new(path(&["src", "main.ag"]))),
            Tree::Branch(
                DeferredSourceFile::new(path(&["src", "lexer"])),
                vec![Tree::Leaf(DeferredSourceFile::new(path(&["src", "lexer", "mod.ag"])))],
            ),
        ],
    )
}

#[test]
fn module_path_is_written_with_slashes() {
    assert_eq!(path(&["src"]).to_string(), "src");
    assert_eq!(path(&["src", "lexer", "mod.ag"]).to_string(), "src/lexer/mod.ag");
    assert_eq!(&*path(&["src", "lexer"]).get_name(), "lexer");
}

#[test]
fn module_paths_are_equal_by_their_names() {
    assert!(path(&["a", "b"]) == path(&["a", "b"]));
    assert!(path(&["a", "b"]).same(&path(&["a", "b"])));
    assert!(path(&["a", "b"]) != path(&["a", "c"]));
    assert!(path(&["a", "b"]) != path(&["c", "b"]));
    assert!(path(&["a", "b"]) != path(&["b"]));
    assert!(path(&["b"]) != path(&["a", "b"]));
    assert!(path(&["a"]).clone() == path(&["a"]));
}

#[test]
fn texts_are_equal_by_their_characters() {
    assert!(str_eq("", ""));
    assert!(str_eq("h\u{e9}", "h\u{e9}"));
    assert!(!str_eq("ab", "ac"));
    assert!(!str_eq("ab", "abc"));
}

#[test]
fn deferred_file_is_written_with_its_path() {
    let file = DeferredSourceFile::new(path(&["src", "main.ag"]));
    assert_eq!(file.to_string(), "DeferredSourceFile{ path = \"src/main.ag\" }");
    assert!(file.path == path(&["src", "main.ag"]));
}

#[test]
fn source_code_gives_the_text_between_two_positions() {
    let code = SourceCode::new(100, Rc::from("let x = 1"));
    assert_eq!(code.get_start(), 100);
    assert_eq!(code.get_at_pos(100, 103), Ok("let"));
    assert_eq!(code.get_at_pos(104, 108), Ok("x = "));
    assert_eq!(code.get_at_pos(104, 104), Ok(""));
    assert!(code.contains_pos(100) && code.contains_pos(108));
    assert!(!code.contains_pos(99) && !code.contains_pos(109));
}

#[test]
fn source_code_reports_positions_out_of_bounds() {
    let code = SourceCode::new(100, Rc::from("let x = 1"));
    assert_eq!(
        code.get_at_pos(99, 103),
        Err("99 byte pos is not within the bounds of this file".to_string())
    );
    assert_eq!(
        code.get_at_pos(100, 109),
        Err("100 byte pos is not within the bounds of this file".to_string())
    );
    assert_eq!(
        code.get_at_pos(0, 5),
        Err("0 byte pos is not within the bounds of this file".to_string())
    );
    assert_eq!(
        code.get_at_pos(1234567890, 5),
        Err("1234567890 byte pos is not within the bounds of this file".to_string())
    );
}

#[test]
fn source_code_counts_bytes() {
    let code = SourceCode::new(0, Rc::from("h\u{e9}llo"));
    assert_eq!(code.get_at_pos(1, 3), Ok("\u{e9}"));
    assert_eq!(code.get_at_pos(0, 5), Ok("h\u{e9}ll"));
    assert!(code.contains_pos(5) && !code.contains_pos(6));
}

#[test]
fn source_file_knows_its_offset() {
    let deferred = DeferredSourceFile::new(path(&["src", "main.ag"]));
    let file = SourceFile::new(&deferred, 40, Some(Rc::from("abc")));
    assert_eq!(file.get_offset(), Some(40));
    assert!(file.source_contains_pos(40) && file.source_contains_pos(42));
    assert!(!file.source_contains_pos(39) && !file.source_contains_pos(43));
    assert!(file.path == path(&["src", "main.ag"]));
    assert_eq!(file.to_string(), "");

    let dir = SourceFile::new(&DeferredSourceFile::new(path(&["src"])), 40, None);
    assert_eq!(dir.get_offset(), None);
    assert!(!dir.source_contains_pos(40));
}

#[test]
fn with_source_code_calls_back_for_files_only() {
    let seen = std::cell::Cell::new(0);
    let deferred = DeferredSourceFile::new(path(&["src", "main.ag"]));
    let file = SourceFile::new(&deferred, 7, Some(Rc::from("abc")));
    let same = file.with_source_code(|code: &SourceCode| seen.set(seen.get() + code.get_start()));
    assert_eq!(seen.get(), 7);
    assert!(same.path == file.path);

    let dir = SourceFile::new(&DeferredSourceFile::new(path(&["src"])), 7, None);
    dir.with_source_code(|_: &SourceCode| seen.set(1000));
    assert_eq!(seen.get(), 7);
}

#[test]
fn source_map_starts_with_nothing_looked_at() {
    let mut map = SourceMap::new(project());
    assert_eq!(map.get_offset(), 0);
    assert!(map.get_file_with_pos(0).is_none());
    match map.get_module(&path(&["src", "lexer", "mod.ag"])) {
        ModuleLookup::Deferred(file) => {
            assert!(file.path == path(&["src", "lexer", "mod.ag"]));
            let file = SourceFile::new(file, 10, Some(Rc::from("silver")));
            map.put(file);
        }
        other => panic!("not deferred: {:?}", other),
    }
    assert_eq!(map.get_offset(), 16);
    match map.get_module(&path(&["src", "lexer", "mod.ag"])) {
        ModuleLookup::Loaded(file) => assert_eq!(file.get_offset(), Some(10)),
        other => panic!("not loaded: {:?}", other),
    }
    assert!(matches!(map.get_module(&path(&["src", "parser"])), ModuleLookup::Unknown));
    assert!(matches!(map.get_module(&path(&["lexer"])), ModuleLookup::Unknown));
    assert!(map.get_file_with_pos(9).is_none());
    assert!(map.get_file_with_pos(16).is_none());
    let found = map.get_file_with_pos(15).map(|file| file.path.to_string());
    assert_eq!(found, Some("src/lexer/mod.ag".to_string()));
}

#[test]
fn loaded_files_lie_one_behind_the_other() {
    let mut map = SourceMap::new(project());
    let main = DeferredSourceFile::new(path(&["src", "main.ag"]));
    let lexer = DeferredSourceFile::new(path(&["src", "lexer", "mod.ag"]));
    let dir = DeferredSourceFile::new(path(&["src", "lexer"]));

    let first = map.load(&main, Some(Rc::from("one = 1")));
    assert_eq!(first.get_offset(), Some(0));
    assert_eq!(map.get_offset(), 7);

    let none = map.load(&dir, None);
    assert_eq!(none.get_offset(), None);
    assert_eq!(map.get_offset(), 7);

    let second = map.load(&lexer, Some(Rc::from("print(one)")));
    assert_eq!(second.get_offset(), Some(7));
    assert_eq!(map.get_offset(), 17);

    for pos in 0..7 {
        let found = map.get_file_with_pos(pos).map(|file| file.path.to_string());
        assert_eq!(found, Some("src/main.ag".to_string()));
    }
    for pos in 7..17 {
        let found = map.get_file_with_pos(pos).map(|file| file.path.to_string());
        assert_eq!(found, Some("src/lexer/mod.ag".to_string()));
    }
    assert!(map.get_file_with_pos(17).is_none());
    let code = second.source_code.as_ref().unwrap();
    assert_eq!(code.get_at_pos(7, 12), Ok("print"));
    assert_eq!(code.get_content(), "print(one)");
    assert_eq!(code.get_end(), 17);
}

#[test]
fn a_loaded_module_is_found_again_as_the_same_file() {
    let mut map = SourceMap::new(project());
    let main = DeferredSourceFile::new(path(&["src", "main.ag"]));
    map.load(&DeferredSourceFile::new(path(&["src", "lexer", "mod.ag"])), Some(Rc::from("abc")));
    let loaded = map.load(&main, Some(Rc::from("one = 1")));
    for _ in 0..2 {
        match map.get_module(&path(&["src", "main.ag"])) {
            ModuleLookup::Loaded(file) => {
                assert!(file.path == loaded.path);
                assert_eq!(file.source_code, loaded.source_code);
                assert_eq!(file.get_offset(), Some(3));
            }
            other => panic!("not loaded: {:?}", other),
        }
    }
    assert_eq!(map.get_offset(), 10);
}

#[test]
fn source_map_gives_its_tree_and_copies() {
    let map = SourceMap::new(project());
    assert_eq!(
        map.get_tree().to_string(),
        "|-DeferredSourceFile{ path = \"src\" }\n    |-DeferredSourceFile{ path = \"src/main.ag\" }\n    |-DeferredSourceFile{ path = \"src/lexer\" }\n        |-DeferredSourceFile{ path = \"src/lexer/mod.ag\" }\n"
    );
    let copy = map.get_tree().clone();
    assert_eq!(copy.to_string(), map.get_tree().to_string());
    let mut other = map.clone();
    other.load(&DeferredSourceFile::new(path(&["src", "main.ag"])), Some(Rc::from("x")));
    assert_eq!(other.get_offset(), 1);
    assert_eq!(map.get_offset(), 0);
}

#[test]
fn source_map_keeps_files_under_the_hash_of_their_name() {
    let mut map = SourceMap::new(project());
    let main = DeferredSourceFile::new(path(&["src", "main.ag"]));
    let first = map.put(SourceFile::new(&main, 0, Some(Rc::from("a"))));
    let again = map.put(SourceFile::new(&main, 5, Some(Rc::from("b"))));
    assert_eq!(first, again);
    let other = map.put(SourceFile::new(
        &DeferredSourceFile::new(path(&["src", "lexer"])),
        9,
        None,
    ));
    assert_ne!(first, other);
    match map.get_module(&path(&["src", "main.ag"])) {
        ModuleLookup::Loaded(file) => assert_eq!(file.get_offset(), Some(5)),
        other => panic!("not loaded: {:?}", other),
    }
    assert!(matches!(map.get_module(&path(&["src", "lexer"])), ModuleLookup::Loaded(_)));
    assert!(matches!(map.get_module(&path(&["src"])), ModuleLookup::Deferred(_)));
}
