use dirmux::renderers::{cleanup_path, cleanup_path_for, NullRender, SimpleSectionRender};
use dirmux::styling::{set_default_styles, Style, TermColor};
use dirmux::{CommandMessage, CommandOutput, CommandProgress, OperationError};

fn output(out: &str, err: &str) -> CommandOutput {
    CommandOutput { output: String::from(out), error: String::from(err), dir: String::from("/home/u/p") }
}

#[test]
fn cleanup_replaces_home() {
    let home = Some(String::from("/home/u"));
    assert_eq!(cleanup_path_for(&String::from("/home/u/p/q"), &home), "~/p/q");
    assert_eq!(cleanup_path_for(&String::from("/home/u"), &home), "~/");
    assert_eq!(cleanup_path_for(&String::from("/home/u2/p"), &home), "/home/u2/p");
    assert_eq!(cleanup_path_for(&String::from("/srv/p"), &home), "/srv/p");
    assert_eq!(cleanup_path_for(&String::from("/home/u/p"), &None), "/home/u/p");
}

#[test]
fn cleanup_compares_components() {
    let slash = Some(String::from("/home/u/"));
    assert_eq!(cleanup_path_for(&String::from("/home/u/x"), &slash), "~/x");
    let root = Some(String::from("/"));
    assert_eq!(cleanup_path_for(&String::from("/etc"), &root), "~/etc");
    let home = Some(String::from("/home/u"));
    assert_eq!(cleanup_path_for(&String::from("/home/u//x"), &home), "~/x");
    assert_eq!(cleanup_path_for(&String::from("/home//u/x/"), &home), "~/x");
    assert_eq!(cleanup_path_for(&String::from("/home/./u/x//y"), &home), "~/x//y");
    assert_eq!(cleanup_path_for(&String::from("home/u/x"), &home), "home/u/x");
    let relative = Some(String::from("x"));
    assert_eq!(cleanup_path_for(&String::from("./x/y"), &relative), "./x/y");
    assert_eq!(cleanup_path_for(&String::from("x/y"), &relative), "~/y");
}

#[test]
fn cleanup_leaves_foreign_paths() {
    assert_eq!(cleanup_path(&String::from("/nonexistent-root-dir/x")), "/nonexistent-root-dir/x");
}

#[test]
fn section_header_and_body() {
    let r = SimpleSectionRender::default();
    let home = Some(String::from("/home/u"));
    let out = r.render_with_home(&CommandMessage::Final(Ok(output("body\n", ""))), &home);
    assert_eq!(out.out, "\x1b[38;2;200;196;0m\x1b[1m~/p:\x1b[m\nbody\n");
    assert_eq!(out.err, "");
}

#[test]
fn single_line_section() {
    let r = SimpleSectionRender::single_line();
    assert!(r.single_line);
    let out = r.render_with_home(&CommandMessage::Final(Ok(output("x\n", "oops"))), &None);
    assert_eq!(out.out, "\x1b[38;2;200;196;0m\x1b[1m/home/u/p:\x1b[m x\n");
    assert_eq!(out.err, "/home/u/p: oops");
}

#[test]
fn section_empty_output_writes_nothing() {
    let r = SimpleSectionRender::default();
    let out = r.render_with_home(&CommandMessage::Final(Ok(output("", ""))), &None);
    assert_eq!(out.out, "");
    assert_eq!(out.err, "");
}

#[test]
fn section_failure() {
    let r = SimpleSectionRender::default();
    let out = r.render(&CommandMessage::Final(Err(OperationError::Execution(String::from("/d"), String::from("boom")))));
    assert_eq!(out.out, "");
    assert_eq!(out.err, "Err: Processing failed for directory: /d: boom\n");
}

#[test]
fn progress_is_silent() {
    let r = SimpleSectionRender::default();
    let p = CommandProgress { progress: 1, out_of: 2, message: String::from("m"), dir: String::from("/d") };
    let out = r.render(&CommandMessage::Progress(p));
    assert_eq!(out.out, "");
    assert_eq!(out.err, "");
    let out = NullRender::default().render(&CommandMessage::Increment(output("a", "b")));
    assert_eq!(out.out, "");
    assert_eq!(out.err, "");
}

#[test]
fn null_render_is_raw() {
    let out = NullRender::default().render(&CommandMessage::Final(Ok(output("line\n", "warn"))));
    assert_eq!(out.out, "line\n");
    assert_eq!(out.err, "warn");
    let out = NullRender::default().render(&CommandMessage::Final(Err(OperationError::MissingCommand(String::from("/d")))));
    assert_eq!(out.err, "No command provided for dir: /d");
}

#[test]
fn styles() {
    let s = Style::new().fg(TermColor::Yellow).bg(TermColor::White);
    assert_eq!(s.before(), "\x1b[38;5;3m\x1b[48;5;7m");
    assert_eq!(s.after(), "\x1b[39m\x1b[49m");
    assert_eq!(s.output("x"), "\x1b[38;5;3m\x1b[48;5;7mx\x1b[39m\x1b[49m");
    let table = set_default_styles();
    assert_eq!(Style::id(&table, "git-unknown").before(), "\x1b[38;5;4m");
    assert_eq!(Style::id(&table, "git-added").before(), "\x1b[38;5;2m");
    assert_eq!(Style::id(&table, "no-such-style").before(), "");
}
