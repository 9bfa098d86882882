use dirmux::merge::{reflog_message, MergeClass, MergeRunner, MergeStep};
use dirmux::options::MergeOpts;
use dirmux::OperationError;

fn runner(verbose: bool, dry: bool) -> MergeRunner {
    MergeRunner { opts: MergeOpts { verbose, dry } }
}

#[test]
fn dry_run_does_not_write_but_names_commit() {
    let r = runner(false, true);
    assert_eq!(r.decide(Some(MergeClass::FastForward)), MergeStep::FastForward { update: false, stats: false });
    let text = r.report("refs/heads/main", "0123abcd", &None);
    assert_eq!(text, "Fast-Forward: Setting refs/heads/main to id: 0123abcd\n");
}

#[test]
fn live_run_writes() {
    let r = runner(false, false);
    assert_eq!(r.decide(Some(MergeClass::FastForward)), MergeStep::FastForward { update: true, stats: false });
}

#[test]
fn verbose_asks_for_statistics_even_when_dry() {
    let r = runner(true, true);
    assert_eq!(r.decide(Some(MergeClass::FastForward)), MergeStep::FastForward { update: false, stats: true });
    let text = r.report("refs/heads/main", "beef", &Some(String::from(" 1 file changed\n")));
    assert_eq!(text, "\n 1 file changed\nFast-Forward: Setting refs/heads/main to id: beef\n");
}

#[test]
fn diverged_cannot_fast_forward() {
    let r = runner(true, false);
    assert_eq!(r.decide(Some(MergeClass::Diverged)), MergeStep::Done(String::from("Cannot fast-forward\n")));
}

#[test]
fn up_to_date_and_no_upstream_are_silent() {
    let r = runner(false, false);
    assert_eq!(r.decide(Some(MergeClass::UpToDate)), MergeStep::Done(String::new()));
    assert_eq!(r.decide(Some(MergeClass::Other)), MergeStep::Done(String::new()));
    assert_eq!(r.decide(None), MergeStep::Done(String::new()));
}

#[test]
fn reflog_text() {
    assert_eq!(reflog_message("refs/heads/x", "abc"), "Fast-Forward: Setting refs/heads/x to id: abc");
}

#[test]
fn merge_outcomes() {
    let r = runner(false, false);
    let ok = r.process(String::from("/d"), Ok(String::from("done\n"))).unwrap();
    assert_eq!(ok.output, "done\n");
    assert_eq!(ok.error, "");
    assert_eq!(ok.dir, "/d");
    let err = r.process(String::from("/d"), Err(String::from("bad")));
    assert_eq!(err, Err(OperationError::Repository(String::from("/d"), String::from("bad"))));
}

#[test]
fn analysis_classes() {
    assert_eq!(MergeClass::from_analysis(true, false, false), MergeClass::FastForward);
    assert_eq!(MergeClass::from_analysis(true, true, true), MergeClass::FastForward);
    assert_eq!(MergeClass::from_analysis(false, true, false), MergeClass::Diverged);
    assert_eq!(MergeClass::from_analysis(false, false, true), MergeClass::UpToDate);
    assert_eq!(MergeClass::from_analysis(false, false, false), MergeClass::Other);
}
