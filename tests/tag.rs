use dirmux::dirs::FileFormat;
use dirmux::options::{TagAddOpts, TagRemoveOpts, TagSubcommands};
use dirmux::tag::{add, apply, gc, remove};

fn cwd() -> String {
    String::from("/")
}

#[test]
fn test_add() {
    let opts = TagAddOpts { tag: String::from("dev"), path: None };
    let mut prior = FileFormat::blank();
    let dir = cwd();
    let subsequent = add(&prior, &opts, &dir);

    assert_ne!(prior, subsequent);
    prior.add(String::from("dev"), &dir);
    assert_eq!(prior, subsequent);
}

#[test]
fn test_add_exact() {
    let opts = TagAddOpts { tag: String::from("dev"), path: Some(String::from("/dev/null")) };
    let mut prior = FileFormat::blank();
    let dir = cwd();
    let subsequent = add(&prior, &opts, &dir);

    assert_ne!(prior, subsequent);
    prior.add(String::from("dev"), &opts.path.unwrap());
    assert_eq!(prior, subsequent);
}

#[test]
fn test_remove() {
    let opts_add = TagAddOpts { tag: String::from("dev"), path: None };
    let opts_rem = TagRemoveOpts { tag: String::from("dev"), path: None };
    let prior = FileFormat::blank();
    let dir = cwd();
    let subsequent = add(&prior, &opts_add, &dir);
    assert_ne!(prior, subsequent);
    let subsequent = remove(&subsequent, &opts_rem, &dir);
    assert_eq!(prior, subsequent);
}

#[test]
fn test_gc() {
    let mut expected = FileFormat::blank();
    let dir = cwd();
    expected.add(String::from("exists"), &dir);
    let mut filled = expected.clone();
    filled.add(String::from("non-existing"), &String::from("/dev/does/not/exist"));
    assert_ne!(expected, filled);
    let result = gc(&filled);
    assert_eq!(expected, result);
}

#[test]
fn add_puts_newest_path_first() {
    let mut f = FileFormat::blank();
    f.add(String::from("work"), &String::from("/a"));
    f.add(String::from("work"), &String::from("/b"));
    f.add(String::from("play"), &String::from("/c"));
    assert_eq!(f.tags.len(), 2);
    assert_eq!(f.tags[0].tag, "work");
    assert_eq!(f.tags[0].paths, vec![String::from("/b"), String::from("/a")]);
    assert_eq!(f.tags[1].tag, "play");
    assert_eq!(f.tags[1].paths, vec![String::from("/c")]);
}

#[test]
fn add_then_remove_restores_mapping() {
    let mut prior = FileFormat::blank();
    prior.add(String::from("work"), &String::from("/a"));
    prior.add(String::from("play"), &String::from("/c"));
    let mut f = prior.clone();
    f.add(String::from("work"), &String::from("/b"));
    assert_ne!(f, prior);
    f.remove(String::from("work"), &String::from("/b"));
    assert_eq!(f, prior);
    let mut g = prior.clone();
    g.add(String::from("new"), &String::from("/x"));
    g.remove(String::from("new"), &String::from("/x"));
    assert_eq!(g, prior);
}

#[test]
fn remove_drops_every_copy_and_empty_tags() {
    let mut f = FileFormat::blank();
    f.add(String::from("t"), &String::from("/a"));
    f.add(String::from("t"), &String::from("/a"));
    f.add(String::from("u"), &String::from("/b"));
    f.remove(String::from("t"), &String::from("/a"));
    assert_eq!(f.tags.len(), 1);
    assert_eq!(f.tags[0].tag, "u");
    f.remove(String::from("missing"), &String::from("/b"));
    assert_eq!(f.tags.len(), 1);
}

#[test]
fn retain_keeps_listed_paths_only() {
    let mut f = FileFormat::blank();
    f.add(String::from("t"), &String::from("/a"));
    f.add(String::from("t"), &String::from("/b"));
    f.add(String::from("u"), &String::from("/c"));
    f.retain(&vec![String::from("/a")]);
    assert_eq!(f.tags.len(), 1);
    assert_eq!(f.tags[0].paths, vec![String::from("/a")]);
}

#[test]
fn gc_twice_is_gc_once() {
    let mut f = FileFormat::blank();
    f.add(String::from("t"), &String::from("/"));
    f.add(String::from("t"), &String::from("/no/such/dir/anywhere"));
    f.add(String::from("u"), &String::from("/no/such/dir/either"));
    let once = gc(&f);
    let twice = gc(&once);
    assert_eq!(once, twice);
    assert_eq!(once.tags.len(), 1);
    assert_eq!(once.tags[0].paths, vec![String::from("/")]);
}

#[test]
fn apply_dispatches_actions() {
    let f = FileFormat::blank();
    let dir = String::from("/here");
    let added = apply(&f, &TagSubcommands::Add(TagAddOpts { tag: String::from("x"), path: None }), &dir);
    assert_eq!(added.tags[0].paths, vec![String::from("/here")]);
    let removed = apply(
        &added,
        &TagSubcommands::Remove(TagRemoveOpts { tag: String::from("x"), path: Some(String::from("/here")) }),
        &dir,
    );
    assert_eq!(removed, f);
}
