use vstd::prelude::*;
use crate::{CommandMessage, CommandOutput, OperationError, error_text};
use crate::styling::{rgb_fg, bold, reset_all, rgb_fg_seq, bold_seq, reset_all_seq};
use crate::text::{char_len, push_str, push_char};
use crate::paths::{path_starts_with, strip_rest, starts_with_path, strip_path};

verus! {

/// What a presenter writes for one message: to standard output and to
/// standard error.
#[derive(Debug, Clone, PartialEq)]
pub struct Rendered {
    pub out: String,
    pub err: String,
}

/// `p` with the home directory `home` written as `~`: a path at or below
/// it, compared by components, becomes `~/` and the rest of the path.
pub open spec fn cleaned(p: Seq<char>, home: Option<Seq<char>>) -> Seq<char> {
    match home {
        Some(h) => if path_starts_with(p, h) {
            seq!['~', '/'] + strip_rest(p, h)
        } else {
            p
        },
        None => p,
    }
}

/// The characters of an optional string.
pub open spec fn opt_view(s: Option<String>) -> Option<Seq<char>> {
    match s {
        Some(t) => Some(t@),
        None => None,
    }
}

/// Relies on `dirs::home_dir`: the current user's home directory, if known.
#[verifier::external_body]
pub(crate) fn home_dir() -> (r: Option<String>) {
    match ::dirs::home_dir() {
        Some(h) => Some(h.to_string_lossy().into_owned()),
        None => None,
    }
}

/// `path` with `home` written as `~`.
pub fn cleanup_path_for(path: &String, home: &Option<String>) -> (r: String)
    ensures
        r@ == cleaned(path@, opt_view(*home)),
{
    match home {
        Some(h) => {
            if starts_with_path(path.as_str(), h.as_str()) {
                let mut r = String::from_str("~/");
                proof {
                    reveal_strlit("~/");
                }
                let rest = strip_path(path.as_str(), h.as_str());
                push_str(&mut r, rest.as_str());
                assert(r@ =~= seq!['~', '/'] + strip_rest(path@, h@));
                r
            } else {
                path.clone()
            }
        },
        None => path.clone(),
    }
}

/// `path` with the user's home directory written as `~`.
pub fn cleanup_path(path: &String) -> (r: String)
    ensures
        exists|home: Option<Seq<char>>| r@ == cleaned(path@, home),
{
    let home = home_dir();
    cleanup_path_for(path, &home)
}

/// Writes the raw text of each outcome, without headers.
#[derive(Debug, Clone, Copy, PartialEq, Default)]
pub struct NullRender {}

impl NullRender {
    /// What is written for `msg`.
    pub fn render(&self, msg: &CommandMessage) -> (r: Rendered)
        ensures
            match *msg {
                CommandMessage::Final(Ok(o)) => r.out@ == o.output@ && r.err@ == o.error@,
                CommandMessage::Final(Err(e)) => r.out@.len() == 0 && r.err@ == error_text(e),
                _ => r.out@.len() == 0 && r.err@.len() == 0,
            },
    {
        match msg {
            CommandMessage::Final(Ok(o)) => Rendered { out: o.output.clone(), err: o.error.clone() },
            CommandMessage::Final(Err(e)) => Rendered { out: String::new(), err: e.message() },
            _ => Rendered { out: String::new(), err: String::new() },
        }
    }
}

/// Writes each outcome under a header naming its directory.
#[derive(Debug, Clone, Copy, PartialEq, Default)]
pub struct SimpleSectionRender {
    pub single_line: bool,
}

/// The separator after a header.
pub open spec fn separator(single_line: bool) -> Seq<char> {
    if single_line { seq![' '] } else { seq!['\n'] }
}

/// The header of a directory's output: its cleaned path, highlighted.
pub open spec fn header(dir: Seq<char>, home: Option<Seq<char>>, single_line: bool) -> Seq<char> {
    rgb_fg_seq(200, 196, 0) + bold_seq() + cleaned(dir, home) + seq![':'] + reset_all_seq()
        + separator(single_line)
}

/// What a section presenter writes to standard output for an outcome.
pub open spec fn section_out(o: CommandOutput, home: Option<Seq<char>>, single_line: bool) -> Seq<char> {
    if o.output@.len() > 0 {
        header(o.dir@, home, single_line) + o.output@
    } else {
        Seq::empty()
    }
}

/// What a section presenter writes to standard error for an outcome.
pub open spec fn section_err(o: CommandOutput, single_line: bool) -> Seq<char> {
    if o.error@.len() > 0 {
        o.dir@ + seq![':'] + separator(single_line) + o.error@
    } else {
        Seq::empty()
    }
}

/// What a section presenter writes for `msg`.
pub open spec fn section_rendered(
    msg: CommandMessage,
    home: Option<Seq<char>>,
    single_line: bool,
    r: Rendered,
) -> bool {
    match msg {
        CommandMessage::Final(Ok(o)) => r.out@ == section_out(o, home, single_line) && r.err@
            == section_err(o, single_line),
        CommandMessage::Final(Err(e)) => r.out@.len() == 0 && r.err@ == seq!['E', 'r', 'r', ':', ' ']
            + error_text(e) + seq!['\n'],
        _ => r.out@.len() == 0 && r.err@.len() == 0,
    }
}

impl SimpleSectionRender {
    /// A presenter that keeps the header and the output on one line.
    pub fn single_line() -> (r: Self)
        ensures
            r.single_line,
    {
        SimpleSectionRender { single_line: true }
    }

    fn push_separator(&self, s: &mut String)
        ensures
            final(s)@ == old(s)@ + separator(self.single_line),
    {
        if self.single_line {
            push_char(s, ' ');
        } else {
            push_char(s, '\n');
        }
    }

    /// What is written for `msg`, with `home` the user's home directory.
    pub fn render_with_home(&self, msg: &CommandMessage, home: &Option<String>) -> (r: Rendered)
        ensures
            section_rendered(*msg, opt_view(*home), self.single_line, r),
    {
        match msg {
            CommandMessage::Final(Ok(o)) => {
                let mut out = String::new();
                if char_len(o.output.as_str()) > 0 {
                    out = rgb_fg(200, 196, 0);
                    let b = bold();
                    push_str(&mut out, b.as_str());
                    let c = cleanup_path_for(&o.dir, home);
                    push_str(&mut out, c.as_str());
                    push_char(&mut out, ':');
                    let z = reset_all();
                    push_str(&mut out, z.as_str());
                    self.push_separator(&mut out);
                    push_str(&mut out, o.output.as_str());
                    assert(out@ =~= section_out(*o, opt_view(*home), self.single_line));
                } else {
                    assert(out@ =~= section_out(*o, opt_view(*home), self.single_line));
                }
                let mut err = String::new();
                if char_len(o.error.as_str()) > 0 {
                    push_str(&mut err, o.dir.as_str());
                    push_char(&mut err, ':');
                    self.push_separator(&mut err);
                    push_str(&mut err, o.error.as_str());
                    assert(err@ =~= section_err(*o, self.single_line));
                } else {
                    assert(err@ =~= section_err(*o, self.single_line));
                }
                Rendered { out, err }
            },
            CommandMessage::Final(Err(e)) => {
                let mut err = String::from_str("Err: ");
                proof {
                    reveal_strlit("Err: ");
                }
                let m = e.message();
                push_str(&mut err, m.as_str());
                push_char(&mut err, '\n');
                assert(err@ =~= seq!['E', 'r', 'r', ':', ' '] + error_text(*e) + seq!['\n']);
                Rendered { out: String::new(), err }
            },
            _ => Rendered { out: String::new(), err: String::new() },
        }
    }

    /// What is written for `msg`.
    pub fn render(&self, msg: &CommandMessage) -> (r: Rendered)
        ensures
            exists|home: Option<Seq<char>>| section_rendered(*msg, home, self.single_line, r),
    {
        let home = home_dir();
        self.render_with_home(msg, &home)
    }
}

} // verus!
