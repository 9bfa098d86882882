use vstd::prelude::*;
use crate::paths::{KeyPart, path_key, key_lt, keys_sorted, key_of, key_less, key_equal, key_view, lemma_key_lt_total, lemma_keys_sorted_pairwise};

verus! {

/// The tag table as a mathematical value: tags in order of creation, each
/// with its directories, the most recently tagged first.
pub type TagTable = Seq<(Seq<char>, Seq<Seq<char>>)>;

/// The characters of each path.
pub open spec fn paths_view(v: Seq<String>) -> Seq<Seq<char>> {
    v.map_values(|p: String| p@)
}

/// No tag occurs twice.
pub open spec fn unique_tags(m: TagTable) -> bool {
    forall|i: int, j: int| 0 <= i < j < m.len() ==> #[trigger] m[i].0 != #[trigger] m[j].0
}

/// Some entry of `m` carries tag `t`.
pub open spec fn has_tag(m: TagTable, t: Seq<char>) -> bool {
    exists|i: int| 0 <= i < m.len() && #[trigger] m[i].0 == t
}

/// The position of tag `t` in `m`, where `has_tag(m, t)`.
pub open spec fn tag_pos(m: TagTable, t: Seq<char>) -> int {
    choose|i: int| 0 <= i < m.len() && #[trigger] m[i].0 == t
}

/// An entry holds at least one directory.
pub open spec fn holds_dirs() -> spec_fn((Seq<char>, Seq<Seq<char>>)) -> bool {
    |e: (Seq<char>, Seq<Seq<char>>)| e.1.len() > 0
}

/// A path differs from `p`.
pub open spec fn other_than(p: Seq<char>) -> spec_fn(Seq<char>) -> bool {
    |q: Seq<char>| q != p
}

/// The entries that still hold at least one directory.
pub open spec fn drop_empty(m: TagTable) -> TagTable {
    m.filter(holds_dirs())
}

/// `add`: the path goes first in the tag's list; an unknown tag is
/// appended with that path alone.
pub open spec fn add_model(m: TagTable, t: Seq<char>, p: Seq<char>) -> TagTable {
    if has_tag(m, t) {
        let i = tag_pos(m, t);
        m.update(i, (t, seq![p] + m[i].1))
    } else {
        m.push((t, seq![p]))
    }
}

/// `remove`: every occurrence of the path leaves the tag's list, then
/// entries left without directories disappear.
pub open spec fn remove_model(m: TagTable, t: Seq<char>, p: Seq<char>) -> TagTable {
    if has_tag(m, t) {
        let i = tag_pos(m, t);
        drop_empty(m.update(i, (t, m[i].1.filter(other_than(p)))))
    } else {
        drop_empty(m)
    }
}

/// Membership in `keep`, as a predicate.
pub open spec fn kept_by(keep: Set<Seq<char>>) -> spec_fn(Seq<char>) -> bool {
    |q: Seq<char>| keep.contains(q)
}

/// `retain`: only the paths in `keep` stay, then entries left without
/// directories disappear.
pub open spec fn retain_model(m: TagTable, keep: Set<Seq<char>>) -> TagTable {
    drop_empty(m.map_values(keep_in_entry(keep)))
}

/// An entry with only the paths in `keep`.
pub open spec fn keep_in_entry(keep: Set<Seq<char>>) -> spec_fn((Seq<char>, Seq<Seq<char>>)) -> (Seq<char>, Seq<Seq<char>>) {
    |e: (Seq<char>, Seq<Seq<char>>)| (e.0, e.1.filter(kept_by(keep)))
}

/// The table that a list of entries describes.
pub open spec fn entries_view(s: Seq<TagEntry>) -> TagTable {
    s.map_values(|e: TagEntry| (e.tag@, paths_view(e.paths@)))
}

/// One tag with its directories.
#[derive(Debug, Clone, PartialEq)]
pub struct TagEntry {
    pub tag: String,
    pub paths: Vec<String>,
}

/// The persisted mapping from tag names to directories.
#[derive(Debug, Clone, PartialEq)]
pub struct FileFormat {
    pub tags: Vec<TagEntry>,
}

impl View for FileFormat {
    type V = TagTable;

    open spec fn view(&self) -> TagTable {
        entries_view(self.tags@)
    }
}

/// Copies a list of paths.
fn copy_paths(v: &Vec<String>) -> (r: Vec<String>)
    ensures
        paths_view(r@) == paths_view(v@),
{
    let mut r: Vec<String> = Vec::new();
    let mut i: usize = 0;
    while i < v.len()
        invariant
            i <= v.len(),
            paths_view(r@) =~= paths_view(v@.subrange(0, i as int)),
        decreases v.len() - i,
    {
        let ghost before = r@;
        let c = v[i].clone();
        assert(c@ == v@[i as int]@);
        r.push(c);
        assert(r@ == before.push(c));
        assert(paths_view(r@) =~= paths_view(before).push(c@));
        assert(paths_view(v@.subrange(0, i + 1)) =~= paths_view(v@.subrange(0, i as int)).push(c@));
        i = i + 1;
    }
    assert(v@.subrange(0, v.len() as int) =~= v@);
    r
}

/// The paths of `v` that differ from `p`, in order.
fn without_path(v: &Vec<String>, p: &String) -> (r: Vec<String>)
    ensures
        paths_view(r@) == paths_view(v@).filter(other_than(p@)),
{
    let ghost pred = other_than(p@);
    let mut r: Vec<String> = Vec::new();
    let mut i: usize = 0;
    while i < v.len()
        invariant
            i <= v.len(),
            paths_view(r@) == paths_view(v@.subrange(0, i as int)).filter(pred),
            pred == other_than(p@),
        decreases v.len() - i,
    {
        let ghost before = paths_view(v@.subrange(0, i as int));
        assert(paths_view(v@.subrange(0, i + 1)) =~= before.push(v@[i as int]@));
        proof {
            before.lemma_filter_push(v@[i as int]@, pred);
        }
        if !(v[i] == *p) {
            let ghost prev = r@;
            let c = v[i].clone();
            assert(c@ == v@[i as int]@);
            r.push(c);
            assert(paths_view(r@) =~= paths_view(prev).push(c@));
            assert(pred(c@));
        } else {
            assert(!pred(v@[i as int]@));
        }
        assert(paths_view(r@) == before.push(v@[i as int]@).filter(pred));
        i = i + 1;
    }
    assert(v@.subrange(0, v.len() as int) =~= v@);
    r
}

/// Whether `v` holds a path equal to `p`.
fn holds_path(v: &Vec<String>, p: &String) -> (r: bool)
    ensures
        r == paths_view(v@).contains(p@),
{
    let mut i: usize = 0;
    while i < v.len()
        invariant
            i <= v.len(),
            forall|j: int| 0 <= j < i ==> v@[j]@ != p@,
        decreases v.len() - i,
    {
        if v[i] == *p {
            assert(paths_view(v@)[i as int] == p@);
            return true;
        }
        i = i + 1;
    }
    assert(!paths_view(v@).contains(p@)) by {
        if paths_view(v@).contains(p@) {
            let j = choose|j: int| 0 <= j < paths_view(v@).len() && paths_view(v@)[j] == p@;
            assert(v@[j]@ == p@);
        }
    }
    false
}

/// The paths of `v` that occur in `keep`, in order.
fn kept_paths(v: &Vec<String>, keep: &Vec<String>) -> (r: Vec<String>)
    ensures
        paths_view(r@) == paths_view(v@).filter(kept_by(paths_view(keep@).to_set())),
{
    let ghost ks = paths_view(keep@).to_set();
    let ghost pred = kept_by(ks);
    let mut r: Vec<String> = Vec::new();
    let mut i: usize = 0;
    while i < v.len()
        invariant
            i <= v.len(),
            ks == paths_view(keep@).to_set(),
            pred == kept_by(ks),
            paths_view(r@) == paths_view(v@.subrange(0, i as int)).filter(pred),
        decreases v.len() - i,
    {
        let ghost before = paths_view(v@.subrange(0, i as int));
        assert(paths_view(v@.subrange(0, i + 1)) =~= before.push(v@[i as int]@));
        proof {
            before.lemma_filter_push(v@[i as int]@, pred);
        }
        if holds_path(keep, &v[i]) {
            let ghost prev = r@;
            let c = v[i].clone();
            assert(c@ == v@[i as int]@);
            r.push(c);
            assert(paths_view(r@) =~= paths_view(prev).push(c@));
        }
        i = i + 1;
    }
    assert(v@.subrange(0, v.len() as int) =~= v@);
    r
}

impl FileFormat {
    /// Tags are unique.
    pub open spec fn wf(&self) -> bool {
        unique_tags(self@)
    }

    /// A mapping without tags.
    pub fn blank() -> (r: Self)
        ensures
            r.wf(),
            r@ == Seq::<(Seq<char>, Seq<Seq<char>>)>::empty(),
    {
        let r = FileFormat { tags: Vec::new() };
        assert(r@ =~= Seq::<(Seq<char>, Seq<Seq<char>>)>::empty());
        r
    }

    /// The position of `tag`, if it is present.
    fn find(&self, tag: &String) -> (r: Option<usize>)
        requires
            self.wf(),
        ensures
            r.is_none() == !has_tag(self@, tag@),
            r.is_some() ==> r.unwrap() < self@.len() && r.unwrap() == tag_pos(self@, tag@),
    {
        let mut i: usize = 0;
        while i < self.tags.len()
            invariant
                i <= self.tags.len(),
                forall|j: int| 0 <= j < i ==> self@[j].0 != tag@,
                self.wf(),
            decreases self.tags.len() - i,
        {
            if self.tags[i].tag == *tag {
                assert(self@[i as int].0 == tag@);
                let ghost k = tag_pos(self@, tag@);
                assert(0 <= k < self@.len() && self@[k].0 == tag@);
                assert(k == i) by {
                    if k < i {
                        assert(self@[k].0 != tag@);
                    } else if k > i {
                        assert(unique_tags(self@));
                        assert(self@[i as int].0 != self@[k].0);
                    }
                }
                return Some(i);
            }
            i = i + 1;
        }
        None
    }

    /// A copy of this mapping.
    pub fn duplicate(&self) -> (r: Self)
        ensures
            r@ == self@,
    {
        let mut tags: Vec<TagEntry> = Vec::new();
        let mut i: usize = 0;
        while i < self.tags.len()
            invariant
                i <= self.tags.len(),
                (FileFormat { tags })@ =~= self@.subrange(0, i as int),
            decreases self.tags.len() - i,
        {
            let ghost prev = tags@;
            let e = TagEntry { tag: self.tags[i].tag.clone(), paths: copy_paths(&self.tags[i].paths) };
            assert(e.tag@ == self@[i as int].0);
            assert(paths_view(e.paths@) == self@[i as int].1);
            tags.push(e);
            assert(tags@ == prev.push(e));
            assert((FileFormat { tags })@ =~= entries_view(prev).push(self@[i as int]));
            i = i + 1;
            assert((FileFormat { tags })@ =~= self@.subrange(0, i as int));
        }
        assert(self@.subrange(0, self.tags.len() as int) =~= self@);
        FileFormat { tags }
    }

    /// Removes the entries that hold no directory.
    fn drop_empty_entries(&mut self)
        requires
            old(self).wf(),
        ensures
            final(self).wf(),
            final(self)@ == drop_empty(old(self)@),
    {
        let ghost pred = holds_dirs();
        let ghost m = self@;
        let mut old_tags: Vec<TagEntry> = Vec::new();
        std::mem::swap(&mut old_tags, &mut self.tags);
        assert((FileFormat { tags: old_tags })@ == m);
        let mut i: usize = 0;
        while i < old_tags.len()
            invariant
                i <= old_tags.len(),
                m == (FileFormat { tags: old_tags })@,
                pred == holds_dirs(),
                unique_tags(m),
                self@ == m.subrange(0, i as int).filter(pred),
                forall|k: int| 0 <= k < self@.len() ==> exists|j: int| 0 <= j < i && #[trigger] self@[k].0 == m[j].0,
                unique_tags(self@),
            decreases old_tags.len() - i,
        {
            let ghost before = m.subrange(0, i as int);
            assert(m.subrange(0, i + 1) =~= before.push(m[i as int]));
            proof {
                before.lemma_filter_push(m[i as int], pred);
            }
            assert(m[i as int] == (old_tags@[i as int].tag@, paths_view(old_tags@[i as int].paths@)));
            assert(m[i as int].1.len() == old_tags@[i as int].paths@.len());
            let ghost keep_it = old_tags@[i as int].paths@.len() > 0;
            assert(keep_it == pred(m[i as int]));
            if old_tags[i].paths.len() > 0 {
                let e = TagEntry { tag: old_tags[i].tag.clone(), paths: copy_paths(&old_tags[i].paths) };
                assert(e.tag@ == m[i as int].0);
                assert(paths_view(e.paths@) == m[i as int].1);
                let ghost prev = self@;
                let ghost prev_tags = self.tags@;
                self.tags.push(e);
                assert(self.tags@ == prev_tags.push(e));
                assert(self@ =~= prev.push(m[i as int]));
                assert forall|k: int| 0 <= k < self@.len() implies exists|j: int| 0 <= j < i + 1 && #[trigger] self@[k].0 == m[j].0 by {
                    if k == prev.len() {
                        assert(self@[k].0 == m[i as int].0);
                    } else {
                        assert(self@[k] == prev[k]);
                    }
                }
                assert(unique_tags(self@)) by {
                    assert forall|a: int, b: int| 0 <= a < b < self@.len() implies #[trigger] self@[a].0 != #[trigger] self@[b].0 by {
                        if b == prev.len() {
                            assert(self@[a] == prev[a]);
                            let j = choose|j: int| 0 <= j < i && #[trigger] prev[a].0 == m[j].0;
                            assert(m[j].0 != m[i as int].0);
                        } else {
                            assert(self@[a] == prev[a]);
                            assert(self@[b] == prev[b]);
                        }
                    }
                }
                assert(self@ == before.filter(pred).push(m[i as int]));
            }
            assert(self@ == before.push(m[i as int]).filter(pred));
            i = i + 1;
        }
        assert(m.subrange(0, old_tags.len() as int) =~= m);
    }

    /// Tags `path` with `tag`, placing it first in that tag's list.
    pub fn add(&mut self, tag: String, path: &String)
        requires
            old(self).wf(),
        ensures
            final(self).wf(),
            final(self)@ == add_model(old(self)@, tag@, path@),
    {
        let ghost m = self@;
        match self.find(&tag) {
            Some(i) => {
                let mut paths: Vec<String> = Vec::new();
                std::mem::swap(&mut paths, &mut self.tags[i].paths);
                let ghost old_paths = paths@;
                assert(paths_view(old_paths) == m[i as int].1);
                paths.insert(0, path.clone());
                assert(paths_view(paths@) =~= seq![path@] + m[i as int].1);
                self.tags.set(i, TagEntry { tag, paths });
                assert(self@ =~= m.update(i as int, (tag@, seq![path@] + m[i as int].1)));
                assert(unique_tags(self@)) by {
                    assert forall|a: int, b: int| 0 <= a < b < self@.len() implies #[trigger] self@[a].0 != #[trigger] self@[b].0 by {
                        assert(self@[a].0 == m[a].0);
                        assert(self@[b].0 == m[b].0);
                    }
                }
            },
            None => {
                let mut paths: Vec<String> = Vec::new();
                paths.push(path.clone());
                assert(paths_view(paths@) =~= seq![path@]);
                let ghost t = tag@;
                self.tags.push(TagEntry { tag, paths });
                assert(self@ =~= m.push((t, seq![path@])));
                assert(unique_tags(self@)) by {
                    assert forall|a: int, b: int| 0 <= a < b < self@.len() implies #[trigger] self@[a].0 != #[trigger] self@[b].0 by {
                        assert(self@[a] == m[a]);
                        if b < m.len() {
                            assert(self@[b] == m[b]);
                        } else {
                            assert(self@[b].0 == t);
                        }
                    }
                }
            },
        }
    }

    /// Takes `path` away from `tag`; tags left without directories go.
    pub fn remove(&mut self, tag: String, path: &String)
        requires
            old(self).wf(),
        ensures
            final(self).wf(),
            final(self)@ == remove_model(old(self)@, tag@, path@),
    {
        let ghost m = self@;
        match self.find(&tag) {
            Some(i) => {
                let paths = without_path(&self.tags[i].paths, path);
                let ghost t = tag@;
                self.tags.set(i, TagEntry { tag, paths });
                assert(self@ =~= m.update(i as int, (t, m[i as int].1.filter(other_than(path@)))));
                assert(unique_tags(self@)) by {
                    assert forall|a: int, b: int| 0 <= a < b < self@.len() implies #[trigger] self@[a].0 != #[trigger] self@[b].0 by {
                        assert(self@[a].0 == m[a].0);
                        assert(self@[b].0 == m[b].0);
                    }
                }
            },
            None => {},
        }
        self.drop_empty_entries();
    }

    /// Keeps only the directories listed in `keep`; tags left without
    /// directories go.
    pub fn retain(&mut self, keep: &Vec<String>)
        requires
            old(self).wf(),
        ensures
            final(self).wf(),
            final(self)@ == retain_model(old(self)@, paths_view(keep@).to_set()),
    {
        let ghost m = self@;
        let ghost ks = paths_view(keep@).to_set();
        let mut i: usize = 0;
        while i < self.tags.len()
            invariant
                i <= self.tags.len(),
                self@.len() == m.len(),
                ks == paths_view(keep@).to_set(),
                forall|j: int| 0 <= j < m.len() ==> #[trigger] self@[j].0 == m[j].0,
                forall|j: int| 0 <= j < i ==> #[trigger] self@[j].1 == m[j].1.filter(kept_by(ks)),
                forall|j: int| i <= j < m.len() ==> #[trigger] self@[j].1 == m[j].1,
            decreases self.tags.len() - i,
        {
            assert(self@[i as int] == (self.tags@[i as int].tag@, paths_view(self.tags@[i as int].paths@)));
            assert(self@[i as int].0 == m[i as int].0);
            assert(self@[i as int].1 == m[i as int].1);
            let paths = kept_paths(&self.tags[i].paths, keep);
            let tag = self.tags[i].tag.clone();
            let ghost prev = self@;
            let ghost prev_tags = self.tags@;
            assert(tag@ == m[i as int].0);
            assert(paths_view(paths@) == m[i as int].1.filter(kept_by(ks)));
            let e = TagEntry { tag, paths };
            self.tags.set(i, e);
            assert(self.tags@ == prev_tags.update(i as int, e));
            assert(self@ =~= prev.update(i as int, (m[i as int].0, m[i as int].1.filter(kept_by(ks)))));
            i = i + 1;
        }
        let ghost f = keep_in_entry(ks);
        assert forall|j: int| 0 <= j < m.len() implies #[trigger] self@[j] == m.map_values(f)[j] by {
            assert(self@[j].0 == m[j].0);
            assert(self@[j].1 == m[j].1.filter(kept_by(ks)));
        }
        assert(self@ =~= m.map_values(f));
        assert(unique_tags(self@)) by {
            assert forall|a: int, b: int| 0 <= a < b < self@.len() implies #[trigger] self@[a].0 != #[trigger] self@[b].0 by {
                assert(self@[a].0 == m[a].0);
                assert(self@[b].0 == m[b].0);
            }
        }
        self.drop_empty_entries();
    }
}

/// Directory `p` belongs to a tag that the filters select (every tag
/// where there are no filters).
pub open spec fn selected(m: TagTable, filters: Seq<Seq<char>>, p: Seq<char>) -> bool {
    exists|i: int|
        0 <= i < m.len() && (filters.len() == 0 || filters.contains(m[i].0))
            && #[trigger] m[i].1.contains(p)
}

/// The characters of each filter.
pub open spec fn filters_view(f: Seq<&str>) -> Seq<Seq<char>> {
    f.map_values(|t: &str| t@)
}

/// Some path of `s` has key `k`.
pub open spec fn has_key(s: Seq<Seq<char>>, k: Seq<KeyPart>) -> bool {
    exists|i: int| 0 <= i < s.len() && #[trigger] path_key(s[i]) == k
}

/// Puts `x` into the list `v`, sorted by path and holding no two equal
/// paths, unless a path equal to it is there.
fn insert_sorted(v: &mut Vec<String>, x: String)
    requires
        keys_sorted(paths_view(old(v)@)),
    ensures
        keys_sorted(paths_view(final(v)@)),
        forall|i: int|
            0 <= i < final(v)@.len() ==> #[trigger] paths_view(final(v)@)[i] == x@ || paths_view(old(v)@).contains(
                paths_view(final(v)@)[i],
            ),
        forall|k: Seq<KeyPart>|
            #[trigger] has_key(paths_view(final(v)@), k) <==> has_key(paths_view(old(v)@), k) || k == path_key(x@),
{
    let ghost old_v = paths_view(v@);
    let xk = key_of(x.as_str());
    let mut i: usize = 0;
    while i < v.len()
        invariant
            i <= v.len(),
            paths_view(v@) == old_v,
            key_view(xk@) == path_key(x@),
            keys_sorted(old_v),
            forall|j: int| 0 <= j < i ==> path_key(#[trigger] old_v[j]) != path_key(x@),
        decreases v.len() - i,
    {
        let k = key_of(v[i].as_str());
        assert(old_v[i as int] == v@[i as int]@);
        if key_equal(&k, &xk) {
            assert(path_key(old_v[i as int]) == path_key(x@));
            return;
        }
        i = i + 1;
    }
    let mut k: usize = 0;
    while k < v.len()
        invariant
            k <= v.len(),
            paths_view(v@) == old_v,
            key_view(xk@) == path_key(x@),
            forall|j: int| 0 <= j < k ==> key_lt(path_key(#[trigger] old_v[j]), path_key(x@)),
        ensures
            k <= v.len(),
            paths_view(v@) == old_v,
            forall|j: int| 0 <= j < k ==> key_lt(path_key(#[trigger] old_v[j]), path_key(x@)),
            k < v.len() ==> !key_lt(path_key(old_v[k as int]), path_key(x@)),
        decreases v.len() - k,
    {
        let kk = key_of(v[k].as_str());
        assert(old_v[k as int] == v@[k as int]@);
        if !key_less(&kk, &xk) {
            break;
        }
        k = k + 1;
    }
    let ghost xv = x@;
    v.insert(k, x);
    let ghost nv = paths_view(v@);
    assert(nv =~= old_v.insert(k as int, xv));
    proof {
        if k < old_v.len() {
            assert(path_key(old_v[k as int]) != path_key(xv));
            lemma_key_lt_total(path_key(old_v[k as int]), path_key(xv));
            assert(key_lt(path_key(xv), path_key(old_v[k as int])));
        }
    }
    assert forall|i: int| 0 <= i < nv.len() - 1 implies #[trigger] key_lt(path_key(nv[i]), path_key(nv[i + 1])) by {
        assert(keys_sorted(old_v));
        if i < k - 1 {
            assert(nv[i] == old_v[i] && nv[i + 1] == old_v[i + 1]);
            assert(key_lt(path_key(old_v[i]), path_key(old_v[i + 1])));
        } else if i == k - 1 {
            assert(nv[i] == old_v[i] && nv[i + 1] == xv);
            assert(key_lt(path_key(old_v[i]), path_key(xv)));
        } else if i == k {
            assert(nv[i + 1] == old_v[i]);
        } else {
            assert(nv[i] == old_v[i - 1] && nv[i + 1] == old_v[i]);
            assert(key_lt(path_key(old_v[i - 1]), path_key(old_v[(i - 1) + 1])));
        }
    }
    assert forall|i: int| 0 <= i < nv.len() implies #[trigger] nv[i] == xv || old_v.contains(nv[i]) by {
        if i < k {
            assert(nv[i] == old_v[i]);
        } else if i > k {
            assert(nv[i] == old_v[i - 1]);
        }
    }
    assert forall|kk: Seq<KeyPart>| #[trigger] has_key(nv, kk) <==> has_key(old_v, kk) || kk == path_key(xv) by {
        if has_key(nv, kk) {
            let i = choose|i: int| 0 <= i < nv.len() && #[trigger] path_key(nv[i]) == kk;
            if i < k {
                assert(nv[i] == old_v[i]);
            } else if i > k {
                assert(nv[i] == old_v[i - 1]);
            }
        }
        if has_key(old_v, kk) {
            let i = choose|i: int| 0 <= i < old_v.len() && #[trigger] path_key(old_v[i]) == kk;
            if i < k {
                assert(nv[i] == old_v[i]);
            } else {
                assert(nv[i + 1] == old_v[i]);
            }
        }
        if kk == path_key(xv) {
            assert(nv[k as int] == xv);
        }
    }
}

/// Whether `tag` is among `filters`.
fn in_filters(tag: &String, filters: &Vec<&str>) -> (r: bool)
    ensures
        r == filters_view(filters@).contains(tag@),
{
    let mut i: usize = 0;
    while i < filters.len()
        invariant
            i <= filters.len(),
            forall|j: int| 0 <= j < i ==> filters@[j]@ != tag@,
        decreases filters.len() - i,
    {
        let f = String::from_str(filters[i]);
        if f == *tag {
            assert(filters_view(filters@)[i as int] == tag@);
            return true;
        }
        i = i + 1;
    }
    assert(!filters_view(filters@).contains(tag@)) by {
        if filters_view(filters@).contains(tag@) {
            let j = choose|j: int| 0 <= j < filters@.len() && filters_view(filters@)[j] == tag@;
            assert(filters@[j]@ == tag@);
        }
    }
    false
}

/// Directory `p` belongs to one of the first `n` entries, selected by
/// the filters.
pub open spec fn selected_upto(m: TagTable, filters: Seq<Seq<char>>, n: int, p: Seq<char>) -> bool {
    exists|k: int|
        0 <= k < n && (filters.len() == 0 || filters.contains(m[k].0)) && #[trigger] m[k].1.contains(p)
}

/// The directories of the tags named by `filters` (of every tag where
/// `filters` is empty), ordered as paths and without two equal paths:
/// every directory returned is selected, and every selected directory
/// is equal as a path to one returned.
pub fn get_dirs(file: FileFormat, filters: Vec<&str>) -> (r: Vec<String>)
    ensures
        forall|i: int, j: int|
            0 <= i < j < r@.len() ==> key_lt(
                path_key(#[trigger] paths_view(r@)[i]),
                path_key(#[trigger] paths_view(r@)[j]),
            ),
        forall|i: int| 0 <= i < r@.len() ==> selected(file@, filters_view(filters@), #[trigger] paths_view(r@)[i]),
        forall|p: Seq<char>|
            selected(file@, filters_view(filters@), p) ==> #[trigger] has_key(paths_view(r@), path_key(p)),
{
    let ghost m = file@;
    let ghost fv = filters_view(filters@);
    let mut dirs: Vec<String> = Vec::new();
    let mut i: usize = 0;
    while i < file.tags.len()
        invariant
            i <= file.tags.len(),
            m == file@,
            fv == filters_view(filters@),
            keys_sorted(paths_view(dirs@)),
            forall|a: int| 0 <= a < dirs@.len() ==> selected_upto(m, fv, i as int, #[trigger] paths_view(dirs@)[a]),
            forall|p: Seq<char>| selected_upto(m, fv, i as int, p) ==> #[trigger] has_key(paths_view(dirs@), path_key(p)),
        decreases file.tags.len() - i,
    {
        let entry = &file.tags[i];
        assert(m[i as int] == (entry.tag@, paths_view(entry.paths@)));
        let chosen = filters.len() == 0 || in_filters(&entry.tag, &filters);
        assert(fv.len() == filters@.len());
        let ghost pv = paths_view(entry.paths@);
        let mut j: usize = 0;
        while j < entry.paths.len()
            invariant
                j <= entry.paths.len(),
                m == file@,
                entry == file.tags@[i as int],
                pv == paths_view(entry.paths@),
                m[i as int] == (entry.tag@, pv),
                i < m.len(),
                chosen == (fv.len() == 0 || fv.contains(m[i as int].0)),
                keys_sorted(paths_view(dirs@)),
                forall|a: int| 0 <= a < dirs@.len() ==> selected_upto(m, fv, i as int, #[trigger] paths_view(dirs@)[a])
                    || (chosen && pv.subrange(0, j as int).contains(paths_view(dirs@)[a])),
                forall|p: Seq<char>|
                    selected_upto(m, fv, i as int, p) || (chosen && pv.subrange(0, j as int).contains(p))
                        ==> #[trigger] has_key(paths_view(dirs@), path_key(p)),
            decreases entry.paths.len() - j,
        {
            assert forall|p: Seq<char>| pv.subrange(0, j + 1).contains(p) <==> pv.subrange(0, j as int).contains(p) || p == pv[j as int] by {
                if pv.subrange(0, j + 1).contains(p) {
                    let a = choose|a: int| 0 <= a < j + 1 && #[trigger] pv.subrange(0, j + 1)[a] == p;
                    if a < j {
                        assert(pv.subrange(0, j as int)[a] == p);
                    }
                }
                if pv.subrange(0, j as int).contains(p) {
                    let a = choose|a: int| 0 <= a < j && #[trigger] pv.subrange(0, j as int)[a] == p;
                    assert(pv.subrange(0, j + 1)[a] == p);
                }
                if p == pv[j as int] {
                    assert(pv.subrange(0, j + 1)[j as int] == p);
                }
            }
            if chosen {
                let ghost before = paths_view(dirs@);
                assert forall|b: int| 0 <= b < before.len() implies selected_upto(m, fv, i as int, #[trigger] before[b])
                    || pv.subrange(0, j as int).contains(before[b]) by {
                    assert(before[b] == paths_view(dirs@)[b]);
                }
                let c = entry.paths[j].clone();
                assert(c@ == pv[j as int]);
                insert_sorted(&mut dirs, c);
                let ghost after = paths_view(dirs@);
                assert forall|a: int| 0 <= a < dirs@.len() implies selected_upto(m, fv, i as int, #[trigger] paths_view(dirs@)[a])
                    || (chosen && pv.subrange(0, j + 1).contains(paths_view(dirs@)[a])) by {
                    assert(after[a] == paths_view(dirs@)[a]);
                    if after[a] != pv[j as int] {
                        assert(before.contains(after[a]));
                        let b = choose|b: int| 0 <= b < before.len() && before[b] == after[a];
                        assert(selected_upto(m, fv, i as int, before[b]) || pv.subrange(0, j as int).contains(before[b]));
                        if pv.subrange(0, j as int).contains(before[b]) {
                            assert(pv.subrange(0, j + 1).contains(before[b]));
                        }
                    } else {
                        assert(pv.subrange(0, j + 1)[j as int] == pv[j as int]);
                        assert(pv.subrange(0, j + 1).contains(pv[j as int]));
                    }
                }
                assert forall|p: Seq<char>|
                    selected_upto(m, fv, i as int, p) || (chosen && pv.subrange(0, j + 1).contains(p))
                        implies #[trigger] has_key(paths_view(dirs@), path_key(p)) by {
                    if p == pv[j as int] {
                    } else {
                        assert(has_key(before, path_key(p)));
                    }
                }
            }
            j = j + 1;
        }
        assert(pv.subrange(0, j as int) =~= pv);
        assert forall|a: int| 0 <= a < dirs@.len() implies selected_upto(m, fv, i + 1, #[trigger] paths_view(dirs@)[a]) by {
            let q = paths_view(dirs@)[a];
            if selected_upto(m, fv, i as int, q) {
                let k = choose|k: int| 0 <= k < i && (fv.len() == 0 || fv.contains(m[k].0)) && #[trigger] m[k].1.contains(q);
                assert(m[k].1.contains(q));
            } else {
                assert(m[i as int].1.contains(q));
            }
        }
        assert forall|p: Seq<char>| selected_upto(m, fv, i + 1, p) implies #[trigger] has_key(paths_view(dirs@), path_key(p)) by {
            let k = choose|k: int| 0 <= k < i + 1 && (fv.len() == 0 || fv.contains(m[k].0)) && #[trigger] m[k].1.contains(p);
            if k < i {
                assert(selected_upto(m, fv, i as int, p));
            } else {
                assert(chosen && pv.contains(p));
            }
        }
        i = i + 1;
    }
    proof {
        lemma_keys_sorted_pairwise(paths_view(dirs@));
        assert forall|a: int| 0 <= a < dirs@.len() implies selected(m, fv, #[trigger] paths_view(dirs@)[a]) by {
            let q = paths_view(dirs@)[a];
            let k = choose|k: int| 0 <= k < m.len() && (fv.len() == 0 || fv.contains(m[k].0)) && #[trigger] m[k].1.contains(q);
            assert(m[k].1.contains(q));
        }
        assert forall|p: Seq<char>| selected(m, fv, p) implies #[trigger] has_key(paths_view(dirs@), path_key(p)) by {
            let k = choose|k: int| 0 <= k < m.len() && (fv.len() == 0 || fv.contains(m[k].0)) && #[trigger] m[k].1.contains(p);
            assert(selected_upto(m, fv, m.len() as int, p));
        }
    }
    dirs
}

} // verus!
