use vstd::prelude::*;
use crate::text::{decimal, push_str};

verus! {

/// A control sequence: escape, `[`, then `body`.
pub open spec fn csi(body: Seq<char>) -> Seq<char> {
    seq!['\x1b', '['] + body
}

/// Foreground in the 256-colour palette.
pub open spec fn ansi_fg_seq(v: u8) -> Seq<char> {
    csi(seq!['3', '8', ';', '5', ';'] + decimal(v as nat) + seq!['m'])
}

/// Background in the 256-colour palette.
pub open spec fn ansi_bg_seq(v: u8) -> Seq<char> {
    csi(seq!['4', '8', ';', '5', ';'] + decimal(v as nat) + seq!['m'])
}

/// Foreground in true colour.
pub open spec fn rgb_fg_seq(r: u8, g: u8, b: u8) -> Seq<char> {
    csi(
        seq!['3', '8', ';', '2', ';'] + decimal(r as nat) + seq![';'] + decimal(g as nat) + seq![';']
            + decimal(b as nat) + seq!['m'],
    )
}

/// Default foreground.
pub open spec fn reset_fg_seq() -> Seq<char> {
    csi(seq!['3', '9', 'm'])
}

/// Default background.
pub open spec fn reset_bg_seq() -> Seq<char> {
    csi(seq!['4', '9', 'm'])
}

/// Bold text.
pub open spec fn bold_seq() -> Seq<char> {
    csi(seq!['1', 'm'])
}

/// All attributes back to normal.
pub open spec fn reset_all_seq() -> Seq<char> {
    csi(seq!['m'])
}

/// Relies on termion's `AnsiValue::fg_string`: `ESC [ 38;5;<v> m`.
#[verifier::external_body]
fn ansi_fg(v: u8) -> (r: String)
    ensures
        r@ == ansi_fg_seq(v),
{
    termion::color::AnsiValue(v).fg_string()
}

/// Relies on termion's `AnsiValue::bg_string`: `ESC [ 48;5;<v> m`.
#[verifier::external_body]
fn ansi_bg(v: u8) -> (r: String)
    ensures
        r@ == ansi_bg_seq(v),
{
    termion::color::AnsiValue(v).bg_string()
}

/// Relies on termion's `Rgb::fg_string`: `ESC [ 38;2;<r>;<g>;<b> m`.
#[verifier::external_body]
pub(crate) fn rgb_fg(r: u8, g: u8, b: u8) -> (s: String)
    ensures
        s@ == rgb_fg_seq(r, g, b),
{
    termion::color::Rgb(r, g, b).fg_string()
}

/// Relies on termion's `color::Reset::fg_str`: `ESC [ 39 m`.
#[verifier::external_body]
fn reset_fg() -> (r: String)
    ensures
        r@ == reset_fg_seq(),
{
    termion::color::Reset.fg_str().to_string()
}

/// Relies on termion's `color::Reset::bg_str`: `ESC [ 49 m`.
#[verifier::external_body]
fn reset_bg() -> (r: String)
    ensures
        r@ == reset_bg_seq(),
{
    termion::color::Reset.bg_str().to_string()
}

/// Relies on termion's `style::Bold` as a string: `ESC [ 1 m`.
#[verifier::external_body]
pub(crate) fn bold() -> (r: String)
    ensures
        r@ == bold_seq(),
{
    let s: &str = termion::style::Bold.as_ref();
    s.to_string()
}

/// Relies on termion's `style::Reset` as a string: `ESC [ m`.
#[verifier::external_body]
pub(crate) fn reset_all() -> (r: String)
    ensures
        r@ == reset_all_seq(),
{
    let s: &str = termion::style::Reset.as_ref();
    s.to_string()
}

/// The eight basic terminal colours.
#[derive(Clone, Copy, Debug, PartialEq, Eq)]
pub enum TermColor {
    Black,
    Red,
    Green,
    Yellow,
    Blue,
    Magenta,
    Cyan,
    White,
}

/// A colour's number in the palette.
pub open spec fn color_index(c: TermColor) -> u8 {
    match c {
        TermColor::Black => 0,
        TermColor::Red => 1,
        TermColor::Green => 2,
        TermColor::Yellow => 3,
        TermColor::Blue => 4,
        TermColor::Magenta => 5,
        TermColor::Cyan => 6,
        TermColor::White => 7,
    }
}

impl TermColor {
    /// This colour's number in the palette.
    pub fn index(&self) -> (r: u8)
        ensures
            r == color_index(*self),
    {
        match self {
            TermColor::Black => 0,
            TermColor::Red => 1,
            TermColor::Green => 2,
            TermColor::Yellow => 3,
            TermColor::Blue => 4,
            TermColor::Magenta => 5,
            TermColor::Cyan => 6,
            TermColor::White => 7,
        }
    }
}

/// Colours put around a piece of text.
#[derive(Clone, Debug, PartialEq, Default)]
pub struct Style {
    pub fg: Option<String>,
    pub bg: Option<String>,
}

/// The characters of an optional string, empty where absent.
pub open spec fn opt_chars(s: Option<String>) -> Seq<char> {
    match s {
        Some(t) => t@,
        None => Seq::empty(),
    }
}

impl Style {
    /// What goes before styled text.
    pub open spec fn before_spec(&self) -> Seq<char> {
        opt_chars(self.fg) + opt_chars(self.bg)
    }

    /// What goes after styled text.
    pub open spec fn after_spec() -> Seq<char> {
        reset_fg_seq() + reset_bg_seq()
    }

    /// Looks up a style by name in `table`; the plain style where absent.
    pub fn id(table: &StyleTable, name: &str) -> (r: Self)
        ensures
            r.before_spec() == table.before_of(name@),
    {
        let mut i: usize = 0;
        while i < table.entries.len()
            invariant
                i <= table.entries.len(),
                forall|j: int| 0 <= j < i ==> (#[trigger] table.entries@[j]).0@ != name@,
            decreases table.entries.len() - i,
        {
            let n = String::from_str(name);
            if table.entries[i].0 == n {
                proof {
                    table.lemma_first_match(name@, i as int);
                }
                return table.entries[i].1.clone_style();
            }
            i = i + 1;
        }
        proof {
            table.lemma_no_match(name@);
        }
        Style::new()
    }

    /// A copy of this style.
    pub fn clone_style(&self) -> (r: Self)
        ensures
            r == *self,
    {
        Style {
            fg: match &self.fg {
                Some(s) => Some(s.clone()),
                None => None,
            },
            bg: match &self.bg {
                Some(s) => Some(s.clone()),
                None => None,
            },
        }
    }

    /// The plain style.
    pub fn new() -> (r: Self)
        ensures
            r.fg.is_none(),
            r.bg.is_none(),
    {
        Style { fg: None, bg: None }
    }

    /// This style with foreground `col`.
    pub fn fg(self, col: TermColor) -> (r: Self)
        ensures
            r.fg is Some,
            r.fg.unwrap()@ == ansi_fg_seq(color_index(col)),
            r.bg == self.bg,
    {
        Style { fg: Some(ansi_fg(col.index())), bg: self.bg }
    }

    /// This style with background `col`.
    pub fn bg(self, col: TermColor) -> (r: Self)
        ensures
            r.bg is Some,
            r.bg.unwrap()@ == ansi_bg_seq(color_index(col)),
            r.fg == self.fg,
    {
        Style { fg: self.fg, bg: Some(ansi_bg(col.index())) }
    }

    /// The sequences that switch this style on.
    pub fn before(&self) -> (r: String)
        ensures
            r@ == self.before_spec(),
    {
        let mut out = String::new();
        if let Some(fg) = &self.fg {
            push_str(&mut out, fg.as_str());
        }
        if let Some(bg) = &self.bg {
            push_str(&mut out, bg.as_str());
        }
        assert(out@ =~= self.before_spec());
        out
    }

    /// The sequences that switch any style off.
    pub fn after(&self) -> (r: String)
        ensures
            r@ == Self::after_spec(),
    {
        let mut out = reset_fg();
        let b = reset_bg();
        push_str(&mut out, b.as_str());
        out
    }

    /// `input` in this style.
    pub fn output(&self, input: &str) -> (r: String)
        ensures
            r@ == self.before_spec() + input@ + Self::after_spec(),
    {
        let mut out = self.before();
        push_str(&mut out, input);
        let a = self.after();
        push_str(&mut out, a.as_str());
        out
    }
}

/// Named styles, the first entry of a name winning.
#[derive(Clone, Debug, PartialEq)]
pub struct StyleTable {
    pub entries: Vec<(String, Style)>,
}

impl StyleTable {
    /// What goes before text styled by `name`.
    pub open spec fn before_of(&self, name: Seq<char>) -> Seq<char> {
        if exists|j: int| 0 <= j < self.entries@.len() && (#[trigger] self.entries@[j]).0@ == name {
            let j = choose|j: int|
                0 <= j < self.entries@.len() && (#[trigger] self.entries@[j]).0@ == name
                    && forall|k: int| 0 <= k < j ==> (#[trigger] self.entries@[k]).0@ != name;
            self.entries@[j].1.before_spec()
        } else {
            Seq::empty()
        }
    }

    proof fn lemma_first_match(&self, name: Seq<char>, i: int)
        requires
            0 <= i < self.entries@.len(),
            self.entries@[i].0@ == name,
            forall|j: int| 0 <= j < i ==> (#[trigger] self.entries@[j]).0@ != name,
        ensures
            self.before_of(name) == self.entries@[i].1.before_spec(),
    {
        let j = choose|j: int|
            0 <= j < self.entries@.len() && (#[trigger] self.entries@[j]).0@ == name
                && forall|k: int| 0 <= k < j ==> (#[trigger] self.entries@[k]).0@ != name;
        assert(0 <= j < self.entries@.len() && self.entries@[j].0@ == name && forall|k: int| 0 <= k < j ==> (#[trigger] self.entries@[k]).0@ != name);
        if j < i {
            assert(self.entries@[j].0@ != name);
        } else if j > i {
            assert(self.entries@[i].0@ != name);
        }
    }

    proof fn lemma_no_match(&self, name: Seq<char>)
        requires
            forall|j: int| 0 <= j < self.entries@.len() ==> (#[trigger] self.entries@[j]).0@ != name,
        ensures
            self.before_of(name) == Seq::<char>::empty(),
    {
    }
}

/// The styles used unless configured otherwise: modified in yellow,
/// added in green, removed in red, unknown in blue.
pub fn set_default_styles() -> (r: StyleTable)
    ensures
        r.entries@.len() == 4,
        r.entries@[0].0@ == "git-modified"@,
        r.entries@[0].1.fg.unwrap()@ == ansi_fg_seq(3) && r.entries@[0].1.fg is Some && r.entries@[0].1.bg is None,
        r.entries@[1].0@ == "git-added"@,
        r.entries@[1].1.fg.unwrap()@ == ansi_fg_seq(2) && r.entries@[1].1.fg is Some && r.entries@[1].1.bg is None,
        r.entries@[2].0@ == "git-removed"@,
        r.entries@[2].1.fg.unwrap()@ == ansi_fg_seq(1) && r.entries@[2].1.fg is Some && r.entries@[2].1.bg is None,
        r.entries@[3].0@ == "git-unknown"@,
        r.entries@[3].1.fg.unwrap()@ == ansi_fg_seq(4) && r.entries@[3].1.fg is Some && r.entries@[3].1.bg is None,
{
    let mut entries: Vec<(String, Style)> = Vec::new();
    entries.push((String::from_str("git-modified"), Style::new().fg(TermColor::Yellow)));
    entries.push((String::from_str("git-added"), Style::new().fg(TermColor::Green)));
    entries.push((String::from_str("git-removed"), Style::new().fg(TermColor::Red)));
    entries.push((String::from_str("git-unknown"), Style::new().fg(TermColor::Blue)));
    StyleTable { entries }
}

} // verus!
