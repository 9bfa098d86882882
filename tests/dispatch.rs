use dirmux::dispatch::Dispatch;
use dirmux::factory::{create_processors, Operation, Presenter, SetupError};
use dirmux::options::{ExecCmd, ExecOpts, MergeOpts, Options, StatusOpts, Subcommands, TagOpts, TagSubcommands};

#[test]
fn bounded_and_exactly_once() {
    let mut d = Dispatch::new(5, 2);
    let mut running: Vec<usize> = vec![];
    let mut finals: Vec<usize> = vec![];
    let mut max_running = 0;
    while !d.is_closed() {
        while let Some(i) = d.start() {
            running.push(i);
        }
        max_running = max_running.max(d.running());
        assert!(d.running() <= 2);
        let done = running.remove(0);
        assert!(d.is_running(done));
        d.finish(done);
        assert!(!d.is_running(done));
        finals.push(done);
    }
    assert_eq!(finals, vec![0, 1, 2, 3, 4]);
    assert_eq!(max_running, 2);
    assert_eq!(d.started(), 5);
    assert_eq!(d.finished(), 5);
    assert_eq!(d.start(), None);
    assert_eq!(d.done, vec![true; 5]);
}

#[test]
fn finals_out_of_order() {
    let mut d = Dispatch::new(3, 3);
    assert_eq!(d.start(), Some(0));
    assert_eq!(d.start(), Some(1));
    assert_eq!(d.start(), Some(2));
    d.finish(2);
    d.finish(0);
    assert!(!d.is_closed());
    assert!(d.is_running(1));
    d.finish(1);
    assert!(d.is_closed());
    assert_eq!(d.running(), 0);
}

#[test]
fn empty_run_is_closed() {
    let mut d = Dispatch::new(0, 10);
    assert!(d.is_closed());
    assert_eq!(d.start(), None);
}

#[test]
fn limit_one_runs_one_at_a_time() {
    let mut d = Dispatch::new(3, 1);
    assert_eq!(d.start(), Some(0));
    assert_eq!(d.start(), None);
    assert!(!d.is_running(1));
    d.finish(0);
    assert!(!d.is_closed());
    assert_eq!(d.start(), Some(1));
}

fn opts(cmd: Subcommands) -> Options {
    Options { tag: None, jobs: 10, cmd }
}

#[test]
fn factory_choices() {
    let cmd = vec![String::from("ls")];
    match create_processors(opts(Subcommands::RawCommand(cmd.clone()))) {
        Ok((Operation::Exec(e), Presenter::Section(p))) => {
            assert_eq!(e.cmd, cmd);
            assert!(!p.single_line);
        },
        _ => panic!("raw command"),
    }
    match create_processors(opts(Subcommands::Exec(ExecOpts { cmd: ExecCmd::RawCommand(cmd.clone()) }))) {
        Ok((Operation::Exec(e), Presenter::Section(_))) => assert_eq!(e.cmd, cmd),
        _ => panic!("exec"),
    }
    assert!(matches!(
        create_processors(opts(Subcommands::Status(StatusOpts {}))),
        Ok((Operation::Status(_), Presenter::Null(_)))
    ));
    match create_processors(opts(Subcommands::Ffmerge(MergeOpts { verbose: true, dry: false }))) {
        Ok((Operation::Merge(m), Presenter::Section(p))) => {
            assert!(m.opts.verbose);
            assert!(p.single_line);
        },
        _ => panic!("merge"),
    }
    let tag = opts(Subcommands::Tag(TagOpts { action: TagSubcommands::Gc }));
    let err = create_processors(tag).err().unwrap();
    assert_eq!(err, SetupError::UnsupportedCommand);
    assert_eq!(err.message(), "Not a supported command type for directory running processing");
}
