use dirmux::dirs::{get_dirs, FileFormat};

fn sample() -> FileFormat {
    let mut f = FileFormat::blank();
    f.add(String::from("a"), &String::from("/z"));
    f.add(String::from("a"), &String::from("/m"));
    f.add(String::from("b"), &String::from("/m"));
    f.add(String::from("b"), &String::from("/b"));
    f.add(String::from("c"), &String::from("/q"));
    f
}

#[test]
fn all_tags_sorted_and_deduplicated() {
    let dirs = get_dirs(sample(), vec![]);
    assert_eq!(dirs, vec!["/b", "/m", "/q", "/z"]);
}

#[test]
fn filters_select_tags() {
    assert_eq!(get_dirs(sample(), vec!["a"]), vec!["/m", "/z"]);
    assert_eq!(get_dirs(sample(), vec!["b", "c"]), vec!["/b", "/m", "/q"]);
    assert!(get_dirs(sample(), vec!["nope"]).is_empty());
}

#[test]
fn empty_mapping_gives_no_dirs() {
    assert!(get_dirs(FileFormat::blank(), vec![]).is_empty());
}

#[test]
fn order_is_by_path_components() {
    let mut f = FileFormat::blank();
    f.add(String::from("t"), &String::from("/a/b"));
    f.add(String::from("t"), &String::from("/a-b"));
    f.add(String::from("t"), &String::from("/a"));
    assert_eq!(get_dirs(f, vec![]), vec!["/a", "/a/b", "/a-b"]);
}

#[test]
fn equal_paths_are_one_directory() {
    let mut f = FileFormat::blank();
    f.add(String::from("t"), &String::from("/a/b"));
    f.add(String::from("u"), &String::from("/a/b/"));
    f.add(String::from("u"), &String::from("/a//b"));
    f.add(String::from("u"), &String::from("/a/./b"));
    assert_eq!(get_dirs(f, vec![]), vec!["/a/b"]);
}

#[test]
fn relative_paths_after_rooted_ones() {
    let mut f = FileFormat::blank();
    f.add(String::from("t"), &String::from("x"));
    f.add(String::from("t"), &String::from("./x"));
    f.add(String::from("t"), &String::from("/z"));
    f.add(String::from("t"), &String::from("../y"));
    assert_eq!(get_dirs(f, vec![]), vec!["/z", "./x", "../y", "x"]);
}
