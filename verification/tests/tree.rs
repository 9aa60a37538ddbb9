use silver::source_map::ModulePath;
use silver::tree::display::TreeDisplay;
use silver::tree::{Tree, TreeWalk};

fn name(text: &str) -> ModulePath {
    ModulePath::new(text.into(), None)
}

fn label(node: &Tree<ModulePath>) -> String {
    match node {
        Tree::Leaf(value) => value.to_string(),
        Tree::Branch(value, _) => value.to_string(),
    }
}

fn sample() -> Tree<ModulePath> {
    Tree::Branch(
        name("root"),
        vec![
            Tree::Leaf(name("a")),
            Tree::Branch(name("b"), vec![Tree::Leaf(name("c")), Tree::Leaf(name("d"))]),
            Tree::Leaf(name("e")),
        ],
    )
}

#[test]
fn walk_visits_parents_first_and_the_last_child_next() {
    let tree = sample();
    let mut walk = TreeWalk::new(&tree);
    let mut seen = Vec::new();
    while let Some(node) = walk.next() {
        seen.push(label(node));
    }
    assert_eq!(seen, vec!["root", "e", "b", "d", "c", "a"]);
    assert!(walk.next().is_none());
}

#[test]
fn leaves_are_the_children_without_children() {
    let tree = sample();
    let walk = TreeWalk::new(&tree);
    let leaves: Vec<String> = walk.leaves().into_iter().map(label).collect();
    assert_eq!(leaves, vec!["a", "e"]);

    let leaf = Tree::Leaf(name("alone"));
    assert!(TreeWalk::new(&leaf).leaves().is_empty());
}

#[test]
fn leaves_follow_the_walk() {
    let tree = sample();
    let mut walk = TreeWalk::new(&tree);
    walk.next();
    walk.next();
    walk.next();
    let leaves: Vec<String> = walk.leaves().into_iter().map(label).collect();
    assert_eq!(leaves, vec!["c", "d"]);
}

#[test]
fn branch_finds_the_first_branch_that_is_accepted() {
    let tree = sample();
    let walk = TreeWalk::new(&tree).branch(|value: &ModulePath| value.to_string() == "b");
    let mut walk = walk;
    let first = walk.next().map(label);
    assert_eq!(first, Some("b".to_string()));

    let any = TreeWalk::new(&tree).branch(|_: &ModulePath| true);
    let leaves: Vec<String> = any.leaves().into_iter().map(label).collect();
    assert_eq!(leaves, vec!["a", "e"]);
}

#[test]
fn picture_of_a_tree() {
    let tree = sample();
    assert_eq!(
        tree.to_string(),
        "|-root\n    |-a\n    |-b\n        |-c\n        |-d\n    |-e\n"
    );
    assert_eq!(Tree::Leaf(name("alone")).to_string(), "|-alone\n");
}

#[test]
fn display_starts_at_its_level() {
    let tree = Tree::Branch(name("x"), vec![Tree::Leaf(name("y"))]);
    let mut out = String::from(">");
    let mut display = TreeDisplay { level: 1 };
    display.display(&tree, &mut out);
    assert_eq!(out, ">    |-x\n        |-y\n");
    assert_eq!(display.level, 1);
}
