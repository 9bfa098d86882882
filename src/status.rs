use vstd::prelude::*;
use crate::{CommandOutput, OperationError};
use crate::options::StatusOpts;
use crate::renderers::{cleaned, cleanup_path_for, home_dir, opt_view};
use crate::styling::{Style, StyleTable};
use crate::text::{views, pad_right, push_left_aligned, decimal, pad_left, spaces, push_char, push_str, push_decimal, push_spaces, push_right_aligned, char_len};

verus! {

/// Width of the column that holds the directory label.
pub const LABEL_WIDTH: usize = 20;

/// Width of the column that holds the status tokens.
pub const STATUSES_WIDTH: usize = 12;

/// Width of the column that holds the branch name.
pub const BRANCH_WIDTH: usize = 12;

/// A clean directory on this branch is not reported.
pub const PRIMARY_BRANCH: &'static str = "master";

/// The state of one changed path, as the repository reports it.
#[derive(Debug, Clone, Copy, PartialEq, Eq, Default)]
pub struct EntryStatus {
    pub index_new: bool,
    pub index_modified: bool,
    pub index_deleted: bool,
    pub index_renamed: bool,
    pub index_typechange: bool,
    pub wt_new: bool,
    pub wt_modified: bool,
    pub wt_deleted: bool,
    pub wt_renamed: bool,
    pub wt_typechange: bool,
    pub ignored: bool,
    pub conflicted: bool,
}

/// The classes that a status line counts, in the order it shows them.
#[derive(Debug, Clone, Copy, PartialEq, Eq)]
pub enum StatusClass {
    Added,
    Modified,
    Deleted,
    Renamed,
    TypeChanged,
    Ignored,
    Conflicted,
    Unknown,
}

/// Whether a path's state falls in a class.
pub open spec fn in_class(e: EntryStatus, c: StatusClass) -> bool {
    match c {
        StatusClass::Added => e.index_new,
        StatusClass::Modified => e.index_modified || e.wt_modified,
        StatusClass::Deleted => e.index_deleted || e.wt_deleted,
        StatusClass::Renamed => e.index_renamed || e.wt_renamed,
        StatusClass::TypeChanged => e.index_typechange || e.wt_typechange,
        StatusClass::Ignored => e.ignored,
        StatusClass::Conflicted => e.conflicted,
        StatusClass::Unknown => e.wt_new,
    }
}

/// How many of the paths fall in a class.
pub open spec fn count_in(s: Seq<EntryStatus>, c: StatusClass) -> nat
    decreases s.len(),
{
    if s.len() == 0 {
        0
    } else {
        count_in(s.drop_last(), c) + if in_class(s.last(), c) { 1nat } else { 0nat }
    }
}

/// The number of paths in each class.
#[derive(Debug, Clone, Copy, PartialEq, Eq, Default)]
pub struct StatusCounts {
    pub added: usize,
    pub modified: usize,
    pub deleted: usize,
    pub renamed: usize,
    pub typechange: usize,
    pub ignored: usize,
    pub conflicted: usize,
    pub unknown: usize,
}

/// The count of one class.
pub open spec fn class_count(n: StatusCounts, c: StatusClass) -> nat {
    match c {
        StatusClass::Added => n.added as nat,
        StatusClass::Modified => n.modified as nat,
        StatusClass::Deleted => n.deleted as nat,
        StatusClass::Renamed => n.renamed as nat,
        StatusClass::TypeChanged => n.typechange as nat,
        StatusClass::Ignored => n.ignored as nat,
        StatusClass::Conflicted => n.conflicted as nat,
        StatusClass::Unknown => n.unknown as nat,
    }
}

/// The letter that follows a class's count.
pub open spec fn suffix(c: StatusClass) -> char {
    match c {
        StatusClass::Added => 'A',
        StatusClass::Modified => 'M',
        StatusClass::Deleted => 'D',
        StatusClass::Renamed => 'R',
        StatusClass::TypeChanged => 'T',
        StatusClass::Ignored => '!',
        StatusClass::Conflicted => 'C',
        StatusClass::Unknown => '?',
    }
}

/// The name of the style a class is shown in.
pub open spec fn style_name(c: StatusClass) -> Seq<char> {
    match c {
        StatusClass::Added => "git-added"@,
        StatusClass::Modified => "git-modified"@,
        StatusClass::Deleted => "git-deleted"@,
        StatusClass::Renamed => "git-renamed"@,
        StatusClass::TypeChanged => "git-typechanged"@,
        StatusClass::Ignored => "git-ignored"@,
        StatusClass::Conflicted => "git-conflicted"@,
        StatusClass::Unknown => "git-unknown"@,
    }
}

/// All classes, in the order a status line shows them.
pub open spec fn all_classes() -> Seq<StatusClass> {
    seq![
        StatusClass::Added,
        StatusClass::Modified,
        StatusClass::Deleted,
        StatusClass::Renamed,
        StatusClass::TypeChanged,
        StatusClass::Ignored,
        StatusClass::Conflicted,
        StatusClass::Unknown,
    ]
}

/// A class has a nonzero count.
pub open spec fn nonzero(n: StatusCounts) -> spec_fn(StatusClass) -> bool {
    |c: StatusClass| class_count(n, c) > 0
}

/// A class's token without styling: count, then letter.
pub open spec fn plain_token(n: StatusCounts, c: StatusClass) -> Seq<char> {
    decimal(class_count(n, c)) + seq![suffix(c)]
}

/// A class's token in its style.
pub open spec fn styled_token(n: StatusCounts, c: StatusClass, t: StyleTable) -> Seq<char> {
    t.before_of(style_name(c)) + plain_token(n, c) + Style::after_spec()
}

/// The tokens of the given classes without styling.
pub open spec fn plain_tokens(n: StatusCounts, cs: Seq<StatusClass>) -> Seq<Seq<char>> {
    cs.map_values(|c: StatusClass| plain_token(n, c))
}

/// The tokens of the given classes in their styles.
pub open spec fn styled_tokens(n: StatusCounts, cs: Seq<StatusClass>, t: StyleTable) -> Seq<Seq<char>> {
    cs.map_values(|c: StatusClass| styled_token(n, c, t))
}

/// The classes with a nonzero count, in display order.
pub open spec fn present(n: StatusCounts) -> Seq<StatusClass> {
    all_classes().filter(nonzero(n))
}

/// Words joined by single spaces.
pub open spec fn join_space(s: Seq<Seq<char>>) -> Seq<char>
    decreases s.len(),
{
    if s.len() == 0 {
        Seq::empty()
    } else if s.len() == 1 {
        s[0]
    } else {
        join_space(s.drop_last()) + seq![' '] + s.last()
    }
}

/// The status line of a directory: the label right-aligned, the tokens of
/// the nonzero classes, padding to the width of the status column, then
/// the branch padded to its column; nothing for a clean directory on the primary branch.
pub open spec fn status_text(
    label: Seq<char>,
    n: StatusCounts,
    branch: Seq<char>,
    primary: Seq<char>,
    t: StyleTable,
) -> Seq<char> {
    let cs = present(n);
    if cs.len() == 0 && branch == primary {
        Seq::empty()
    } else {
        let width = join_space(plain_tokens(n, cs)).len();
        let pad = if width >= STATUSES_WIDTH { 0nat } else { (STATUSES_WIDTH - width) as nat };
        pad_left(label, LABEL_WIDTH as nat) + seq![' '] + join_space(styled_tokens(n, cs, t)) + spaces(pad)
            + seq![' '] + pad_right(branch, BRANCH_WIDTH as nat) + seq!['\n']
    }
}

fn class_at(k: usize) -> (c: StatusClass)
    requires
        k < 8,
    ensures
        c == all_classes()[k as int],
{
    if k == 0 {
        StatusClass::Added
    } else if k == 1 {
        StatusClass::Modified
    } else if k == 2 {
        StatusClass::Deleted
    } else if k == 3 {
        StatusClass::Renamed
    } else if k == 4 {
        StatusClass::TypeChanged
    } else if k == 5 {
        StatusClass::Ignored
    } else if k == 6 {
        StatusClass::Conflicted
    } else {
        StatusClass::Unknown
    }
}

impl StatusClass {
    /// Whether a path's state falls in this class.
    pub fn holds(&self, e: &EntryStatus) -> (r: bool)
        ensures
            r == in_class(*e, *self),
    {
        match self {
            StatusClass::Added => e.index_new,
            StatusClass::Modified => e.index_modified || e.wt_modified,
            StatusClass::Deleted => e.index_deleted || e.wt_deleted,
            StatusClass::Renamed => e.index_renamed || e.wt_renamed,
            StatusClass::TypeChanged => e.index_typechange || e.wt_typechange,
            StatusClass::Ignored => e.ignored,
            StatusClass::Conflicted => e.conflicted,
            StatusClass::Unknown => e.wt_new,
        }
    }

    /// The letter that follows this class's count.
    pub fn suffix(&self) -> (r: char)
        ensures
            r == suffix(*self),
    {
        match self {
            StatusClass::Added => 'A',
            StatusClass::Modified => 'M',
            StatusClass::Deleted => 'D',
            StatusClass::Renamed => 'R',
            StatusClass::TypeChanged => 'T',
            StatusClass::Ignored => '!',
            StatusClass::Conflicted => 'C',
            StatusClass::Unknown => '?',
        }
    }

    /// The name of the style this class is shown in.
    pub fn style_name(&self) -> (r: &'static str)
        ensures
            r@ == style_name(*self),
    {
        match self {
            StatusClass::Added => "git-added",
            StatusClass::Modified => "git-modified",
            StatusClass::Deleted => "git-deleted",
            StatusClass::Renamed => "git-renamed",
            StatusClass::TypeChanged => "git-typechanged",
            StatusClass::Ignored => "git-ignored",
            StatusClass::Conflicted => "git-conflicted",
            StatusClass::Unknown => "git-unknown",
        }
    }
}

impl StatusCounts {
    /// The count of class `c`.
    pub fn get(&self, c: StatusClass) -> (r: usize)
        ensures
            r == class_count(*self, c),
    {
        match c {
            StatusClass::Added => self.added,
            StatusClass::Modified => self.modified,
            StatusClass::Deleted => self.deleted,
            StatusClass::Renamed => self.renamed,
            StatusClass::TypeChanged => self.typechange,
            StatusClass::Ignored => self.ignored,
            StatusClass::Conflicted => self.conflicted,
            StatusClass::Unknown => self.unknown,
        }
    }
}

/// How many of `entries` fall in class `c`.
fn count_class(entries: &Vec<EntryStatus>, c: StatusClass) -> (r: usize)
    ensures
        r == count_in(entries@, c),
{
    let mut r: usize = 0;
    let mut i: usize = 0;
    while i < entries.len()
        invariant
            i <= entries.len(),
            r == count_in(entries@.subrange(0, i as int), c),
            r <= i,
        decreases entries.len() - i,
    {
        let ghost s = entries@.subrange(0, i + 1);
        assert(s.drop_last() =~= entries@.subrange(0, i as int));
        if c.holds(&entries[i]) {
            r = r + 1;
        }
        i = i + 1;
    }
    assert(entries@.subrange(0, entries.len() as int) =~= entries@);
    r
}

/// Counts the paths of each class.
pub fn summarize(entries: &Vec<EntryStatus>) -> (n: StatusCounts)
    ensures
        forall|c: StatusClass| #[trigger] class_count(n, c) == count_in(entries@, c),
{
    let n = StatusCounts {
        added: count_class(entries, StatusClass::Added),
        modified: count_class(entries, StatusClass::Modified),
        deleted: count_class(entries, StatusClass::Deleted),
        renamed: count_class(entries, StatusClass::Renamed),
        typechange: count_class(entries, StatusClass::TypeChanged),
        ignored: count_class(entries, StatusClass::Ignored),
        conflicted: count_class(entries, StatusClass::Conflicted),
        unknown: count_class(entries, StatusClass::Unknown),
    };
    assert forall|c: StatusClass| #[trigger] class_count(n, c) == count_in(entries@, c) by {
        match c {
            StatusClass::Added => {},
            StatusClass::Modified => {},
            StatusClass::Deleted => {},
            StatusClass::Renamed => {},
            StatusClass::TypeChanged => {},
            StatusClass::Ignored => {},
            StatusClass::Conflicted => {},
            StatusClass::Unknown => {},
        }
    }
    n
}

/// Adds the styled token of a class with a nonzero count to `output`;
/// returns the token's width on screen.
pub fn status_fmt(output: &mut Vec<String>, suff: char, count: usize, style: &str, table: &StyleTable) -> (r: usize)
    ensures
        count > 0 ==> final(output)@.len() == old(output)@.len() + 1
            && final(output)@.drop_last() == old(output)@
            && final(output)@.last()@ == table.before_of(style@) + decimal(count as nat) + seq![suff]
            + Style::after_spec()
            && r == decimal(count as nat).len() + 1,
        count == 0 ==> final(output)@ == old(output)@ && r == 0,
{
    if count > 0 {
        let st = Style::id(table, style);
        let mut token = String::new();
        push_decimal(&mut token, count);
        push_char(&mut token, suff);
        let r = char_len(token.as_str());
        let s = st.output(token.as_str());
        let ghost before = output@;
        output.push(s);
        assert(output@.drop_last() =~= before);
        r
    } else {
        0
    }
}

/// The tokens joined by single spaces.
fn join_tokens(v: &Vec<String>) -> (r: String)
    ensures
        r@ == join_space(views(v@)),
{
    let ghost w = views(v@);
    let mut r = String::new();
    let mut i: usize = 0;
    while i < v.len()
        invariant
            i <= v.len(),
            w == views(v@),
            r@ == join_space(w.subrange(0, i as int)),
        decreases v.len() - i,
    {
        if i > 0 {
            push_char(&mut r, ' ');
        }
        push_str(&mut r, v[i].as_str());
        let ghost s = w.subrange(0, i + 1);
        assert(s.drop_last() =~= w.subrange(0, i as int));
        if i == 0 {
            assert(r@ =~= join_space(s));
        } else {
            assert(r@ =~= join_space(s));
        }
        i = i + 1;
    }
    assert(w.subrange(0, v.len() as int) =~= w);
    r
}

proof fn lemma_join_len(s: Seq<Seq<char>>, t: Seq<char>)
    ensures
        join_space(s.push(t)).len() == join_space(s).len() + t.len() + if s.len() > 0 { 1int } else { 0int },
{
    assert(s.push(t).drop_last() =~= s);
    if s.len() == 0 {
        assert(s.push(t)[0] == t);
    }
}

/// The status line of a directory labelled `label` on `branch`.
#[verifier::rlimit(100)]
pub fn status_line(label: &str, n: &StatusCounts, branch: &str, primary: &str, table: &StyleTable) -> (r: String)
    ensures
        r@ == status_text(label@, *n, branch@, primary@, *table),
{
    let ghost nz = nonzero(*n);
    let mut tokens: Vec<String> = Vec::new();
    let mut width: usize = 0;
    let mut k: usize = 0;
    while k < 8
        invariant
            k <= 8,
            nz == nonzero(*n),
            views(tokens@) == styled_tokens(*n, all_classes().subrange(0, k as int).filter(nz), *table),
            width == if join_space(plain_tokens(*n, all_classes().subrange(0, k as int).filter(nz))).len() >= STATUSES_WIDTH {
                STATUSES_WIDTH as int
            } else {
                join_space(plain_tokens(*n, all_classes().subrange(0, k as int).filter(nz))).len() as int
            },
        decreases 8 - k,
    {
        let c = class_at(k);
        let ghost pre = all_classes().subrange(0, k as int);
        let ghost cs = pre.filter(nz);
        let ghost old_tokens = tokens@;
        assert(all_classes().subrange(0, k + 1) =~= pre.push(c));
        proof {
            pre.lemma_filter_push(c, nz);
        }
        let cnt = n.get(c);
        let before_len = tokens.len();
        assert(views(old_tokens).len() == cs.len());
        let w = status_fmt(&mut tokens, c.suffix(), cnt, c.style_name(), table);
        if cnt > 0 {
            let ghost ncs = cs.push(c);
            assert(tokens@ =~= old_tokens.push(tokens@.last()));
            assert(tokens@.last()@ =~= styled_token(*n, c, *table));
            assert forall|j: int| 0 <= j < tokens@.len() implies #[trigger] views(tokens@)[j] == styled_tokens(*n, ncs, *table)[j] by {
                if j < old_tokens.len() {
                    assert(tokens@[j] == old_tokens[j]);
                    assert(views(old_tokens)[j] == styled_tokens(*n, cs, *table)[j]);
                    assert(ncs[j] == cs[j]);
                } else {
                    assert(ncs[j] == c);
                }
            }
            assert(views(tokens@) =~= styled_tokens(*n, ncs, *table));
            assert(plain_tokens(*n, ncs) =~= plain_tokens(*n, cs).push(plain_token(*n, c)));
            proof {
                lemma_join_len(plain_tokens(*n, cs), plain_token(*n, c));
            }
            let sep: usize = if before_len > 0 { 1 } else { 0 };
            if width + sep >= STATUSES_WIDTH || w >= STATUSES_WIDTH - width - sep {
                width = STATUSES_WIDTH;
            } else {
                width = width + sep + w;
            }
        } else {
            assert(views(tokens@) =~= styled_tokens(*n, cs, *table));
        }
        k = k + 1;
    }
    assert(all_classes().subrange(0, 8) =~= all_classes());
    let ghost cs = present(*n);
    assert(views(tokens@) == styled_tokens(*n, cs, *table));
    assert(tokens@.len() == cs.len());
    let mut line = String::new();
    let same_branch = String::from_str(branch) == String::from_str(primary);
    if tokens.len() == 0 && same_branch {
        assert(line@ =~= status_text(label@, *n, branch@, primary@, *table));
        return line;
    }
    push_right_aligned(&mut line, label, LABEL_WIDTH);
    push_char(&mut line, ' ');
    let joined = join_tokens(&tokens);
    push_str(&mut line, joined.as_str());
    push_spaces(&mut line, STATUSES_WIDTH - width);
    push_char(&mut line, ' ');
    push_left_aligned(&mut line, branch, BRANCH_WIDTH);
    push_char(&mut line, '\n');
    assert(line@ =~= status_text(label@, *n, branch@, primary@, *table));
    line
}

/// A class never counts more paths than there are.
proof fn lemma_count_bound(s: Seq<EntryStatus>, c: StatusClass)
    ensures
        count_in(s, c) <= s.len(),
    decreases s.len(),
{
    if s.len() > 0 {
        lemma_count_bound(s.drop_last(), c);
    }
}

/// The counts of each class among `s`.
pub open spec fn counts_of(s: Seq<EntryStatus>) -> StatusCounts {
    StatusCounts {
        added: count_in(s, StatusClass::Added) as usize,
        modified: count_in(s, StatusClass::Modified) as usize,
        deleted: count_in(s, StatusClass::Deleted) as usize,
        renamed: count_in(s, StatusClass::Renamed) as usize,
        typechange: count_in(s, StatusClass::TypeChanged) as usize,
        ignored: count_in(s, StatusClass::Ignored) as usize,
        conflicted: count_in(s, StatusClass::Conflicted) as usize,
        unknown: count_in(s, StatusClass::Unknown) as usize,
    }
}

/// What a scan of a repository found: the short name of the current
/// branch and the state of each changed path, untracked ones included.
#[derive(Debug, Clone, PartialEq)]
pub struct StatusScan {
    pub branch: String,
    pub entries: Vec<EntryStatus>,
}

/// The status line of `dir` after `scan`, with `home` the user's home
/// directory.
pub open spec fn report_text(dir: Seq<char>, scan: StatusScan, home: Option<Seq<char>>, t: StyleTable) -> Seq<char> {
    status_text(cleaned(dir, home), counts_of(scan.entries@), scan.branch@, PRIMARY_BRANCH@, t)
}

/// The outcome for `dir`: its status line, or the scan's failure as a
/// repository error.
pub open spec fn status_outcome(
    dir: Seq<char>,
    scan: Result<StatusScan, String>,
    home: Option<Seq<char>>,
    t: StyleTable,
    r: Result<CommandOutput, OperationError>,
) -> bool {
    match scan {
        Ok(s) => r matches Ok(o) && o.output@ == report_text(dir, s, home, t) && o.error@.len() == 0
            && o.dir@ == dir,
        Err(m) => r matches Err(OperationError::Repository(d, e)) && d@ == dir && e@ == m@,
    }
}

/// Reports the compact status of a repository.
#[derive(Debug, Clone, PartialEq)]
pub struct StatusRunner {
    pub opts: StatusOpts,
}

impl StatusRunner {
    /// The status line of `dir` after `scan`.
    pub fn report_with_home(&self, dir: &String, scan: &StatusScan, table: &StyleTable, home: &Option<String>) -> (r: String)
        ensures
            r@ == report_text(dir@, *scan, opt_view(*home), *table),
    {
        let n = summarize(&scan.entries);
        proof {
            lemma_count_bound(scan.entries@, StatusClass::Added);
            lemma_count_bound(scan.entries@, StatusClass::Modified);
            lemma_count_bound(scan.entries@, StatusClass::Deleted);
            lemma_count_bound(scan.entries@, StatusClass::Renamed);
            lemma_count_bound(scan.entries@, StatusClass::TypeChanged);
            lemma_count_bound(scan.entries@, StatusClass::Ignored);
            lemma_count_bound(scan.entries@, StatusClass::Conflicted);
            lemma_count_bound(scan.entries@, StatusClass::Unknown);
            assert(class_count(n, StatusClass::Added) == count_in(scan.entries@, StatusClass::Added));
            assert(class_count(n, StatusClass::Modified) == count_in(scan.entries@, StatusClass::Modified));
            assert(class_count(n, StatusClass::Deleted) == count_in(scan.entries@, StatusClass::Deleted));
            assert(class_count(n, StatusClass::Renamed) == count_in(scan.entries@, StatusClass::Renamed));
            assert(class_count(n, StatusClass::TypeChanged) == count_in(scan.entries@, StatusClass::TypeChanged));
            assert(class_count(n, StatusClass::Ignored) == count_in(scan.entries@, StatusClass::Ignored));
            assert(class_count(n, StatusClass::Conflicted) == count_in(scan.entries@, StatusClass::Conflicted));
            assert(class_count(n, StatusClass::Unknown) == count_in(scan.entries@, StatusClass::Unknown));
            assert(n == counts_of(scan.entries@));
        }
        let label = cleanup_path_for(dir, home);
        status_line(label.as_str(), &n, scan.branch.as_str(), PRIMARY_BRANCH, table)
    }

    /// The outcome for `dir`, given what scanning its repository gave.
    pub fn process_with_home(
        &self,
        dir: String,
        scan: Result<StatusScan, String>,
        table: &StyleTable,
        home: &Option<String>,
    ) -> (r: Result<CommandOutput, OperationError>)
        ensures
            status_outcome(dir@, scan, opt_view(*home), *table, r),
    {
        match scan {
            Ok(s) => {
                let text = self.report_with_home(&dir, &s, table, home);
                Ok(CommandOutput { output: text, error: String::new(), dir })
            },
            Err(m) => Err(OperationError::Repository(dir, m)),
        }
    }

    /// The outcome for `dir`, given what scanning its repository gave.
    pub fn process(&self, dir: String, scan: Result<StatusScan, String>, table: &StyleTable) -> (r: Result<
        CommandOutput,
        OperationError,
    >)
        ensures
            exists|home: Option<Seq<char>>| status_outcome(dir@, scan, home, *table, r),
    {
        let home = home_dir();
        self.process_with_home(dir, scan, table, &home)
    }
}

} // verus!
