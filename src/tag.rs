use vstd::prelude::*;
use vstd::seq_lib::group_filter_ensures;
use crate::dirs::{
    FileFormat, TagTable, add_model, remove_model, retain_model, drop_empty, unique_tags, has_tag,
    tag_pos, kept_by, paths_view, other_than, holds_dirs, keep_in_entry,
};
use crate::options::{TagAddOpts, TagRemoveOpts, TagSubcommands};

verus! {

/// The directory an option names, or `cwd` where it names none.
pub open spec fn target(path: Option<String>, cwd: Seq<char>) -> Seq<char> {
    match path {
        Some(p) => p@,
        None => cwd,
    }
}

/// Every tag holds at least one directory.
pub open spec fn no_empty_tags(m: TagTable) -> bool {
    forall|i: int| 0 <= i < m.len() ==> #[trigger] m[i].1.len() > 0
}

/// Tag `t` holds directory `p`.
pub open spec fn tagged(m: TagTable, t: Seq<char>, p: Seq<char>) -> bool {
    exists|i: int| 0 <= i < m.len() && #[trigger] m[i].0 == t && m[i].1.contains(p)
}

fn target_path(path: &Option<String>, cwd: &String) -> (r: String)
    ensures
        r@ == target(*path, cwd@),
{
    match path {
        Some(p) => p.clone(),
        None => cwd.clone(),
    }
}

/// The mapping with the option's directory tagged.
pub fn add(file: &FileFormat, opts: &TagAddOpts, cwd: &String) -> (r: FileFormat)
    requires
        file.wf(),
    ensures
        r.wf(),
        r@ == add_model(file@, opts.tag@, target(opts.path, cwd@)),
{
    let mut f = file.duplicate();
    let dir = target_path(&opts.path, cwd);
    f.add(opts.tag.clone(), &dir);
    f
}

/// The mapping with the option's directory untagged.
pub fn remove(file: &FileFormat, opts: &TagRemoveOpts, cwd: &String) -> (r: FileFormat)
    requires
        file.wf(),
    ensures
        r.wf(),
        r@ == remove_model(file@, opts.tag@, target(opts.path, cwd@)),
{
    let mut f = file.duplicate();
    let dir = target_path(&opts.path, cwd);
    f.remove(opts.tag.clone(), &dir);
    f
}

/// Relies on `std::path::Path::is_dir`: whether a directory is at `p` now.
#[verifier::external_body]
fn is_dir(p: &String) -> (r: bool) {
    std::path::Path::new(p).is_dir()
}

/// The mapping without the directories that no longer exist.
pub fn gc(file: &FileFormat) -> (r: FileFormat)
    requires
        file.wf(),
    ensures
        r.wf(),
        exists|keep: Set<Seq<char>>| r@ == retain_model(file@, keep),
{
    let mut keep: Vec<String> = Vec::new();
    let mut i: usize = 0;
    while i < file.tags.len()
        invariant
            i <= file.tags.len(),
        decreases file.tags.len() - i,
    {
        let paths = &file.tags[i].paths;
        let mut j: usize = 0;
        while j < paths.len()
            invariant
                j <= paths.len(),
            decreases paths.len() - j,
        {
            if is_dir(&paths[j]) {
                keep.push(paths[j].clone());
            }
            j = j + 1;
        }
        i = i + 1;
    }
    let mut f = file.duplicate();
    f.retain(&keep);
    f
}

/// The mapping after a tag action, with `cwd` the current directory.
pub fn apply(file: &FileFormat, action: &TagSubcommands, cwd: &String) -> (r: FileFormat)
    requires
        file.wf(),
    ensures
        r.wf(),
        match *action {
            TagSubcommands::Add(o) => r@ == add_model(file@, o.tag@, target(o.path, cwd@)),
            TagSubcommands::Remove(o) => r@ == remove_model(file@, o.tag@, target(o.path, cwd@)),
            TagSubcommands::Gc => exists|keep: Set<Seq<char>>| r@ == retain_model(file@, keep),
        },
{
    match action {
        TagSubcommands::Add(o) => crate::tag::add(file, o, cwd),
        TagSubcommands::Remove(o) => remove(file, o, cwd),
        TagSubcommands::Gc => gc(file),
    }
}

/// Filtering keeps a sequence whose elements all pass.
pub proof fn lemma_filter_all<A>(s: Seq<A>, pred: spec_fn(A) -> bool)
    requires
        forall|i: int| 0 <= i < s.len() ==> pred(#[trigger] s[i]),
    ensures
        s.filter(pred) == s,
    decreases s.len(),
{
    reveal(Seq::filter);
    if s.len() > 0 {
        lemma_filter_all(s.drop_last(), pred);
        assert(s.drop_last().push(s.last()) =~= s);
    }
}

/// Adding a directory to a tag and removing it again gives back the
/// mapping, where every tag holds a directory and the tag did not hold
/// that one already.
pub proof fn lemma_add_remove_round_trip(m: TagTable, t: Seq<char>, p: Seq<char>)
    requires
        unique_tags(m),
        no_empty_tags(m),
        !tagged(m, t, p),
    ensures
        remove_model(add_model(m, t, p), t, p) == m,
{
    let pred = other_than(p);
    let nonempty = holds_dirs();
    assert(forall|i: int| 0 <= i < m.len() ==> nonempty(#[trigger] m[i]));
    lemma_filter_all(m, nonempty);
    let single = seq![p];
    assert(single.filter(pred) =~= Seq::<Seq<char>>::empty()) by {
        let e = Seq::<Seq<char>>::empty();
        reveal(Seq::filter);
        assert(e.filter(pred) =~= e);
        e.lemma_filter_push(p, pred);
        assert(e.push(p) =~= single);
    }
    if has_tag(m, t) {
        let i = tag_pos(m, t);
        let l = m[i].1;
        let a = add_model(m, t, p);
        assert(a == m.update(i, (t, single + l)));
        assert(has_tag(a, t)) by {
            assert(a[i].0 == t);
        }
        let k = tag_pos(a, t);
        assert(k == i) by {
            if k != i {
                assert(a[k] == m[k]);
                assert(m[k].0 == t);
            }
        }
        assert(forall|j: int| 0 <= j < l.len() ==> pred(#[trigger] l[j])) by {
            assert forall|j: int| 0 <= j < l.len() implies pred(#[trigger] l[j]) by {
                if l[j] == p {
                    assert(l.contains(p));
                    assert(m[i].0 == t && m[i].1.contains(p));
                }
            }
        }
        lemma_filter_all(l, pred);
        Seq::filter_distributes_over_add(single, l, pred);
        assert((single + l).filter(pred) =~= l);
        assert(a.update(i, (t, a[i].1.filter(pred))) =~= m);
    } else {
        let a = add_model(m, t, p);
        assert(a == m.push((t, single)));
        assert(has_tag(a, t)) by {
            assert(a[m.len() as int].0 == t);
        }
        let k = tag_pos(a, t);
        assert(k == m.len()) by {
            if k < m.len() {
                assert(a[k] == m[k]);
                assert(has_tag(m, t));
            }
        }
        let u = a.update(k, (t, single.filter(pred)));
        assert(u =~= m.push((t, Seq::<Seq<char>>::empty())));
        m.lemma_filter_push((t, Seq::<Seq<char>>::empty()), nonempty);
    }
}

/// Garbage collection keeps a directory under a tag exactly when the
/// mapping had it there and the directory is among those kept.
pub proof fn lemma_retain_exact(m: TagTable, keep: Set<Seq<char>>, t: Seq<char>, p: Seq<char>)
    ensures
        tagged(retain_model(m, keep), t, p) <==> tagged(m, t, p) && keep.contains(p),
{
    broadcast use group_filter_ensures, Seq::lemma_filter_contains_rev;

    let f = keep_in_entry(keep);
    let mapped = m.map_values(f);
    let r = retain_model(m, keep);
    assert(r == mapped.filter(holds_dirs()));
    if tagged(r, t, p) {
        let i = choose|i: int| 0 <= i < r.len() && #[trigger] r[i].0 == t && r[i].1.contains(p);
        assert(r.contains(r[i]));
        assert(mapped.contains(r[i]));
        let j = choose|j: int| 0 <= j < mapped.len() && mapped[j] == r[i];
        assert(mapped[j] == (m[j].0, m[j].1.filter(kept_by(keep))));
        assert(m[j].1.contains(p));
        let k = choose|k: int| 0 <= k < m[j].1.filter(kept_by(keep)).len() && m[j].1.filter(kept_by(keep))[k] == p;
        assert(kept_by(keep)(m[j].1.filter(kept_by(keep))[k]));
        assert(m[j].0 == t && m[j].1.contains(p));
    }
    if tagged(m, t, p) && keep.contains(p) {
        let j = choose|j: int| 0 <= j < m.len() && #[trigger] m[j].0 == t && m[j].1.contains(p);
        let k = choose|k: int| 0 <= k < m[j].1.len() && m[j].1[k] == p;
        assert(m[j].1.filter(kept_by(keep)).contains(m[j].1[k]));
        assert(mapped[j] == (m[j].0, m[j].1.filter(kept_by(keep))));
        assert(mapped[j].1.len() > 0);
        assert(holds_dirs()(mapped[j]));
        assert(r.contains(mapped[j]));
        let i = choose|i: int| 0 <= i < r.len() && r[i] == mapped[j];
        assert(r[i].0 == t && r[i].1.contains(p));
    }
}

/// Garbage collection run twice with the same directories kept changes
/// nothing the second time.
pub proof fn lemma_retain_idempotent(m: TagTable, keep: Set<Seq<char>>)
    ensures
        retain_model(retain_model(m, keep), keep) == retain_model(m, keep),
{
    broadcast use group_filter_ensures, Seq::lemma_filter_contains_rev;

    let f = keep_in_entry(keep);
    let mapped = m.map_values(f);
    let r = retain_model(m, keep);
    assert(r == mapped.filter(holds_dirs()));
    assert forall|i: int| 0 <= i < r.len() implies #[trigger] r.map_values(f)[i] == r[i] by {
        assert(r.contains(r[i]));
        assert(mapped.contains(r[i]));
        let j = choose|j: int| 0 <= j < mapped.len() && mapped[j] == r[i];
        let l = m[j].1.filter(kept_by(keep));
        assert(mapped[j] == (m[j].0, l));
        assert(forall|k: int| 0 <= k < l.len() ==> kept_by(keep)(#[trigger] l[k]));
        lemma_filter_all(l, kept_by(keep));
    }
    assert(r.map_values(f) =~= r);
    assert(forall|i: int| 0 <= i < r.len() ==> holds_dirs()(#[trigger] r[i]));
    lemma_filter_all(r, holds_dirs());
}

} // verus!
