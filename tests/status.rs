use dirmux::options::StatusOpts;
use dirmux::status::{status_fmt, status_line, summarize, EntryStatus, StatusCounts, StatusRunner, StatusScan};
use dirmux::styling::{set_default_styles, StyleTable};
use dirmux::OperationError;

fn modified() -> EntryStatus {
    EntryStatus { wt_modified: true, ..EntryStatus::default() }
}

fn untracked() -> EntryStatus {
    EntryStatus { wt_new: true, ..EntryStatus::default() }
}

fn home() -> Option<String> {
    Some(String::from("/home/u"))
}

#[test]
fn feature_branch_with_changes() {
    let runner = StatusRunner { opts: StatusOpts {} };
    let scan = StatusScan { branch: String::from("feature"), entries: vec![modified(), modified(), untracked()] };
    let table = set_default_styles();
    let line = runner.report_with_home(&String::from("/home/u/proj"), &scan, &table, &home());
    assert!(line.contains("2M"));
    assert!(line.contains("1?"));
    assert!(line.trim_end().ends_with("feature"));
    let expected = format!(
        "{}~/proj \x1b[38;5;3m2M\x1b[39m\x1b[49m \x1b[38;5;4m1?\x1b[39m\x1b[49m{} feature     \n",
        " ".repeat(14),
        " ".repeat(7)
    );
    assert_eq!(line, expected);
}

#[test]
fn clean_primary_branch_is_quiet() {
    let runner = StatusRunner { opts: StatusOpts {} };
    let scan = StatusScan { branch: String::from("master"), entries: vec![] };
    let line = runner.report_with_home(&String::from("/home/u/proj"), &scan, &set_default_styles(), &home());
    assert_eq!(line, "");
}

#[test]
fn clean_other_branch_is_reported() {
    let table = StyleTable { entries: vec![] };
    let line = status_line("p", &StatusCounts::default(), "dev", "master", &table);
    assert_eq!(line, format!("{}p {} dev         \n", " ".repeat(19), " ".repeat(12)));
}

#[test]
fn changes_on_primary_branch_are_reported() {
    let table = StyleTable { entries: vec![] };
    let n = StatusCounts { added: 1, ..StatusCounts::default() };
    let line = status_line("p", &n, "master", "master", &table);
    assert_eq!(line, format!("{}p 1A\x1b[39m\x1b[49m{} master      \n", " ".repeat(19), " ".repeat(10)));
}

#[test]
fn wide_tokens_get_no_padding() {
    let table = StyleTable { entries: vec![] };
    let n = StatusCounts { added: 123456, deleted: 7890, ..StatusCounts::default() };
    let line = status_line("p", &n, "b", "master", &table);
    assert_eq!(line, format!("{}p 123456A\x1b[39m\x1b[49m 7890D\x1b[39m\x1b[49m b           \n", " ".repeat(19)));
}

#[test]
fn classes_are_counted() {
    let entries = vec![
        EntryStatus { index_new: true, ..EntryStatus::default() },
        EntryStatus { index_modified: true, wt_modified: true, ..EntryStatus::default() },
        EntryStatus { wt_deleted: true, ..EntryStatus::default() },
        EntryStatus { index_renamed: true, ..EntryStatus::default() },
        EntryStatus { wt_typechange: true, ..EntryStatus::default() },
        EntryStatus { ignored: true, ..EntryStatus::default() },
        EntryStatus { conflicted: true, ..EntryStatus::default() },
        untracked(),
        untracked(),
    ];
    let n = summarize(&entries);
    assert_eq!(
        n,
        StatusCounts {
            added: 1,
            modified: 1,
            deleted: 1,
            renamed: 1,
            typechange: 1,
            ignored: 1,
            conflicted: 1,
            unknown: 2
        }
    );
}

#[test]
fn status_fmt_skips_zero() {
    let table = set_default_styles();
    let mut out: Vec<String> = vec![];
    assert_eq!(status_fmt(&mut out, 'M', 0, "git-modified", &table), 0);
    assert!(out.is_empty());
    assert_eq!(status_fmt(&mut out, 'M', 12, "git-modified", &table), 3);
    assert_eq!(out, vec![String::from("\x1b[38;5;3m12M\x1b[39m\x1b[49m")]);
}

#[test]
fn scan_failure_is_repository_error() {
    let runner = StatusRunner { opts: StatusOpts {} };
    let r = runner.process_with_home(
        String::from("/x"),
        Err(String::from("could not find repository")),
        &set_default_styles(),
        &None,
    );
    assert_eq!(r, Err(OperationError::Repository(String::from("/x"), String::from("could not find repository"))));
}

#[test]
fn scan_success_is_output() {
    let runner = StatusRunner { opts: StatusOpts {} };
    let scan = StatusScan { branch: String::from("master"), entries: vec![untracked()] };
    let r = runner.process_with_home(String::from("/x"), Ok(scan), &StyleTable { entries: vec![] }, &None).unwrap();
    assert_eq!(r.dir, "/x");
    assert_eq!(r.error, "");
    assert_eq!(r.output, format!("{}/x 1?\x1b[39m\x1b[49m{} master      \n", " ".repeat(18), " ".repeat(10)));
}
