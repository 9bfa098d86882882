use vstd::prelude::*;
use crate::text::{views, char_len, push_char, push_str, char_lt, str_less, lemma_char_lt_total, lemma_char_lt_transitive};

verus! {

/// The pieces of `p` between separators, empty ones included:
/// `/a//b/` gives `["", "a", "", "b", ""]`.
pub open spec fn raw_segments(p: Seq<char>) -> Seq<Seq<char>>
    decreases p.len(),
{
    if p.len() == 0 {
        seq![Seq::empty()]
    } else {
        let r = raw_segments(p.drop_last());
        if p.last() == '/' {
            r.push(Seq::empty())
        } else {
            r.update(r.len() - 1, r.last().push(p.last()))
        }
    }
}

/// Splitting always gives at least one piece.
pub proof fn lemma_raw_nonempty(p: Seq<char>)
    ensures
        raw_segments(p).len() >= 1,
    decreases p.len(),
{
    if p.len() > 0 {
        lemma_raw_nonempty(p.drop_last());
    }
}

/// A segment that names something: neither empty nor `.`.
pub open spec fn is_normal(s: Seq<char>) -> bool {
    s.len() > 0 && s != seq!['.']
}

/// `is_normal` as a predicate.
pub open spec fn normal_pred() -> spec_fn(Seq<char>) -> bool {
    |s: Seq<char>| is_normal(s)
}

/// The named components of `p`, in order.
pub open spec fn components(p: Seq<char>) -> Seq<Seq<char>> {
    raw_segments(p).filter(normal_pred())
}

/// `p` starts at the root.
pub open spec fn rooted(p: Seq<char>) -> bool {
    p.len() > 0 && p[0] == '/'
}

/// `p` lies at or below `h`, comparing whole components: the keys of
/// `h` begin the keys of `p`, so repeated or final separators and inner
/// `.` components make no difference.
pub open spec fn path_starts_with(p: Seq<char>, h: Seq<char>) -> bool {
    path_key(h).len() <= path_key(p).len() && path_key(p).subrange(0, path_key(h).len() as int) == path_key(h)
}

/// The segments of `s` after its first `n` named ones.
pub open spec fn after_normals(s: Seq<Seq<char>>, n: nat) -> Seq<Seq<char>>
    decreases s.len(),
{
    if n == 0 || s.len() == 0 {
        s
    } else if is_normal(s[0]) {
        after_normals(s.drop_first(), (n - 1) as nat)
    } else {
        after_normals(s.drop_first(), n)
    }
}

/// `s` without the unnamed segments at its start.
pub open spec fn trim_front(s: Seq<Seq<char>>) -> Seq<Seq<char>>
    decreases s.len(),
{
    if s.len() > 0 && !is_normal(s[0]) {
        trim_front(s.drop_first())
    } else {
        s
    }
}

/// `s` without the unnamed segments at its end.
pub open spec fn trim_back(s: Seq<Seq<char>>) -> Seq<Seq<char>>
    decreases s.len(),
{
    if s.len() > 0 && !is_normal(s.last()) {
        trim_back(s.drop_last())
    } else {
        s
    }
}

/// Segments joined by separators.
pub open spec fn join_slash(s: Seq<Seq<char>>) -> Seq<char>
    decreases s.len(),
{
    if s.len() == 0 {
        Seq::empty()
    } else if s.len() == 1 {
        s[0]
    } else {
        join_slash(s.drop_last()) + seq!['/'] + s.last()
    }
}

/// What remains of `p` once the components of `h` are taken from its
/// start, without separators or `.` at either end.
pub open spec fn strip_rest(p: Seq<char>, h: Seq<char>) -> Seq<char> {
    join_slash(trim_back(trim_front(after_normals(raw_segments(p), components(h).len()))))
}

/// The pieces of `p` between separators.
pub fn segments(p: &str) -> (r: Vec<String>)
    ensures
        views(r@) == raw_segments(p@),
{
    let n = char_len(p);
    let mut done: Vec<String> = Vec::new();
    let mut cur = String::new();
    let mut i: usize = 0;
    assert(p@.subrange(0, 0) =~= Seq::<char>::empty());
    assert(views(done@).push(cur@) =~= raw_segments(p@.subrange(0, 0)));
    while i < n
        invariant
            n == p@.len(),
            i <= n,
            views(done@).push(cur@) == raw_segments(p@.subrange(0, i as int)),
        decreases n - i,
    {
        let c = p.get_char(i);
        let ghost q = p@.subrange(0, i + 1);
        assert(q.drop_last() =~= p@.subrange(0, i as int));
        assert(q.last() == c);
        let ghost before = views(done@);
        let ghost cur0 = cur@;
        if c == '/' {
            let prev = cur;
            done.push(prev);
            cur = String::new();
            assert(views(done@) =~= before.push(cur0));
            assert(views(done@).push(cur@) =~= before.push(cur0).push(Seq::empty()));
        } else {
            push_char(&mut cur, c);
            assert(views(done@).push(cur@) =~= before.push(cur0).update(before.len() as int, cur0.push(c)));
        }
        i = i + 1;
    }
    assert(p@.subrange(0, n as int) =~= p@);
    let ghost before = views(done@);
    done.push(cur);
    assert(views(done@) =~= before.push(cur@));
    done
}

/// Whether a segment names something.
pub fn normal_segment(s: &String) -> (r: bool)
    ensures
        r == is_normal(s@),
{
    let dot = String::from_str(".");
    proof {
        reveal_strlit(".");
    }
    assert(dot@ =~= seq!['.']);
    char_len(s.as_str()) > 0 && !(*s == dot)
}

/// The named segments among `segs`, in order.
pub fn named(segs: &Vec<String>) -> (r: Vec<String>)
    ensures
        views(r@) == views(segs@).filter(normal_pred()),
{
    let ghost pred = normal_pred();
    let mut r: Vec<String> = Vec::new();
    let mut i: usize = 0;
    while i < segs.len()
        invariant
            i <= segs.len(),
            pred == normal_pred(),
            views(r@) == views(segs@.subrange(0, i as int)).filter(pred),
        decreases segs.len() - i,
    {
        let ghost before = views(segs@.subrange(0, i as int));
        assert(views(segs@.subrange(0, i + 1)) =~= before.push(segs@[i as int]@));
        proof {
            before.lemma_filter_push(segs@[i as int]@, pred);
        }
        if normal_segment(&segs[i]) {
            let ghost prev = r@;
            let c = segs[i].clone();
            r.push(c);
            assert(views(r@) =~= views(prev).push(c@));
        }
        i = i + 1;
    }
    assert(segs@.subrange(0, segs.len() as int) =~= segs@);
    r
}

/// The named components of `p`.
pub fn path_components(p: &str) -> (r: Vec<String>)
    ensures
        views(r@) == components(p@),
{
    let s = segments(p);
    named(&s)
}

/// Whether `p` starts at the root.
pub fn is_rooted(p: &str) -> (r: bool)
    ensures
        r == rooted(p@),
{
    char_len(p) > 0 && p.get_char(0) == '/'
}

/// The segments of `s` after its first `n` named ones.
fn skip_named(s: &Vec<String>, n: usize) -> (r: Vec<String>)
    ensures
        views(r@) == after_normals(views(s@), n as nat),
{
    let ghost sv = views(s@);
    let mut i: usize = 0;
    let mut left: usize = n;
    assert(sv.subrange(0, sv.len() as int) =~= sv);
    while left > 0 && i < s.len()
        invariant
            i <= s.len(),
            sv == views(s@),
            after_normals(sv, n as nat) == after_normals(sv.subrange(i as int, sv.len() as int), left as nat),
        decreases s.len() - i,
    {
        let ghost rest = sv.subrange(i as int, sv.len() as int);
        assert(rest.drop_first() =~= sv.subrange(i + 1, sv.len() as int));
        assert(rest[0] == s@[i as int]@);
        if normal_segment(&s[i]) {
            left = left - 1;
        }
        i = i + 1;
    }
    let mut r: Vec<String> = Vec::new();
    let start = i;
    while i < s.len()
        invariant
            start <= i <= s.len(),
            sv == views(s@),
            views(r@) == sv.subrange(start as int, i as int),
        decreases s.len() - i,
    {
        let ghost prev = r@;
        let c = s[i].clone();
        r.push(c);
        assert(views(r@) =~= views(prev).push(c@));
        i = i + 1;
        assert(views(r@) =~= sv.subrange(start as int, i as int));
    }
    r
}

/// The segments between the first and the last named one.
fn trimmed(s: &Vec<String>) -> (r: Vec<String>)
    ensures
        views(r@) == trim_back(trim_front(views(s@))),
{
    let ghost sv = views(s@);
    let mut a: usize = 0;
    assert(sv.subrange(0, sv.len() as int) =~= sv);
    while a < s.len() && !normal_segment(&s[a])
        invariant
            a <= s.len(),
            sv == views(s@),
            trim_front(sv) == trim_front(sv.subrange(a as int, sv.len() as int)),
        decreases s.len() - a,
    {
        let ghost rest = sv.subrange(a as int, sv.len() as int);
        assert(rest.drop_first() =~= sv.subrange(a + 1, sv.len() as int));
        a = a + 1;
    }
    let ghost front = sv.subrange(a as int, sv.len() as int);
    assert(trim_front(sv) == front) by {
        if a < s.len() {
            assert(front[0] == sv[a as int]);
        }
    }
    let mut b: usize = s.len();
    assert(front.subrange(0, front.len() as int) =~= front);
    while b > a && !normal_segment(&s[b - 1])
        invariant
            a <= b <= s.len(),
            sv == views(s@),
            front == sv.subrange(a as int, sv.len() as int),
            trim_back(front) == trim_back(sv.subrange(a as int, b as int)),
        decreases b,
    {
        let ghost cur = sv.subrange(a as int, b as int);
        assert(cur.drop_last() =~= sv.subrange(a as int, b - 1));
        assert(cur.last() == sv[b - 1]);
        b = b - 1;
    }
    let ghost kept = sv.subrange(a as int, b as int);
    assert(trim_back(front) == kept) by {
        if b > a {
            assert(kept.last() == sv[b - 1]);
        }
    }
    let mut r: Vec<String> = Vec::new();
    let mut i: usize = a;
    while i < b
        invariant
            a <= i <= b <= s.len(),
            sv == views(s@),
            views(r@) == sv.subrange(a as int, i as int),
        decreases b - i,
    {
        let ghost prev = r@;
        let c = s[i].clone();
        r.push(c);
        assert(views(r@) =~= views(prev).push(c@));
        i = i + 1;
        assert(views(r@) =~= sv.subrange(a as int, i as int));
    }
    r
}

/// Segments joined by separators.
fn join_segments(v: &Vec<String>) -> (r: String)
    ensures
        r@ == join_slash(views(v@)),
{
    let ghost w = views(v@);
    let mut r = String::new();
    let mut i: usize = 0;
    while i < v.len()
        invariant
            i <= v.len(),
            w == views(v@),
            r@ == join_slash(w.subrange(0, i as int)),
        decreases v.len() - i,
    {
        if i > 0 {
            push_char(&mut r, '/');
        }
        push_str(&mut r, v[i].as_str());
        let ghost s = w.subrange(0, i + 1);
        assert(s.drop_last() =~= w.subrange(0, i as int));
        assert(r@ =~= join_slash(s));
        i = i + 1;
    }
    assert(w.subrange(0, v.len() as int) =~= w);
    r
}

/// What remains of `p` once the components of `h` are taken from its
/// start.
pub fn strip_path(p: &str, h: &str) -> (r: String)
    ensures
        r@ == strip_rest(p@, h@),
{
    let hc = path_components(h);
    let raw = segments(p);
    let rest = skip_named(&raw, hc.len());
    let t = trimmed(&rest);
    join_segments(&t)
}

/// One component of a path as it is ordered: the root is below `.`,
/// which is below `..`, which is below any name; names are ordered by
/// their characters.
pub type KeyPart = (nat, Seq<char>);

/// The order of one component.
pub open spec fn part_lt(a: KeyPart, b: KeyPart) -> bool {
    a.0 < b.0 || (a.0 == b.0 && char_lt(a.1, b.1))
}

/// The ordering key of a named component.
pub open spec fn named_part(s: Seq<char>) -> KeyPart {
    if s == seq!['.', '.'] {
        (2nat, Seq::empty())
    } else {
        (3nat, s)
    }
}

/// The components of `p` as they are compared: the root or a leading `.`
/// first, then each named component.
pub open spec fn path_key(p: Seq<char>) -> Seq<KeyPart> {
    let head: Seq<KeyPart> = if rooted(p) {
        seq![(0nat, Seq::<char>::empty())]
    } else if raw_segments(p)[0] == seq!['.'] {
        seq![(1nat, Seq::<char>::empty())]
    } else {
        Seq::empty()
    };
    head + components(p).map_values(|s: Seq<char>| named_part(s))
}

/// Lexicographic order on keys.
pub open spec fn key_lt(a: Seq<KeyPart>, b: Seq<KeyPart>) -> bool
    decreases a.len(),
{
    if b.len() == 0 {
        false
    } else if a.len() == 0 {
        true
    } else if a[0] != b[0] {
        part_lt(a[0], b[0])
    } else {
        key_lt(a.drop_first(), b.drop_first())
    }
}

proof fn lemma_part_lt_total(a: KeyPart, b: KeyPart)
    requires
        a != b,
    ensures
        part_lt(a, b) || part_lt(b, a),
{
    if a.0 == b.0 {
        assert(a.1 != b.1);
        lemma_char_lt_total(a.1, b.1);
    }
}

proof fn lemma_part_lt_transitive(a: KeyPart, b: KeyPart, c: KeyPart)
    requires
        part_lt(a, b),
        part_lt(b, c),
    ensures
        part_lt(a, c),
{
    if a.0 == b.0 && b.0 == c.0 {
        lemma_char_lt_transitive(a.1, b.1, c.1);
    }
}

proof fn lemma_char_lt_irreflexive(a: Seq<char>)
    ensures
        !char_lt(a, a),
    decreases a.len(),
{
    if a.len() > 0 {
        lemma_char_lt_irreflexive(a.drop_first());
    }
}

/// Two distinct keys are ordered one way or the other.
pub proof fn lemma_key_lt_total(a: Seq<KeyPart>, b: Seq<KeyPart>)
    requires
        a != b,
    ensures
        key_lt(a, b) || key_lt(b, a),
    decreases a.len(),
{
    if a.len() > 0 && b.len() > 0 && a[0] == b[0] {
        if a.drop_first() == b.drop_first() {
            assert(a =~= seq![a[0]] + a.drop_first());
            assert(b =~= seq![b[0]] + b.drop_first());
        }
        lemma_key_lt_total(a.drop_first(), b.drop_first());
    } else if a.len() > 0 && b.len() > 0 {
        lemma_part_lt_total(a[0], b[0]);
    } else if a.len() == 0 && b.len() == 0 {
        assert(a =~= b);
    }
}

/// The key order is transitive.
pub proof fn lemma_key_lt_transitive(a: Seq<KeyPart>, b: Seq<KeyPart>, c: Seq<KeyPart>)
    requires
        key_lt(a, b),
        key_lt(b, c),
    ensures
        key_lt(a, c),
    decreases a.len(),
{
    if a.len() > 0 {
        if a[0] == b[0] && b[0] == c[0] {
            lemma_key_lt_transitive(a.drop_first(), b.drop_first(), c.drop_first());
        } else if a[0] != b[0] && b[0] != c[0] {
            lemma_part_lt_transitive(a[0], b[0], c[0]);
            if a[0] == c[0] {
                lemma_char_lt_irreflexive(a[0].1);
            }
        } else if a[0] == b[0] {
        } else {
        }
    }
}

/// Adjacent paths are in strictly increasing key order.
pub open spec fn keys_sorted(s: Seq<Seq<char>>) -> bool {
    forall|i: int| 0 <= i < s.len() - 1 ==> #[trigger] key_lt(path_key(s[i]), path_key(s[i + 1]))
}

/// In a sequence sorted by key every path is below every later one.
pub proof fn lemma_keys_sorted_pairwise(s: Seq<Seq<char>>)
    requires
        keys_sorted(s),
    ensures
        forall|i: int, j: int| 0 <= i < j < s.len() ==> key_lt(path_key(#[trigger] s[i]), path_key(#[trigger] s[j])),
{
    assert forall|i: int, j: int| 0 <= i < j < s.len() implies key_lt(path_key(#[trigger] s[i]), path_key(#[trigger] s[j])) by {
        lemma_keys_sorted_from(s, i, j);
    }
}

proof fn lemma_keys_sorted_from(s: Seq<Seq<char>>, i: int, j: int)
    requires
        keys_sorted(s),
        0 <= i < j < s.len(),
    ensures
        key_lt(path_key(s[i]), path_key(s[j])),
    decreases j - i,
{
    assert(key_lt(path_key(s[j - 1]), path_key(s[(j - 1) + 1])));
    if i < j - 1 {
        lemma_keys_sorted_from(s, i, j - 1);
        lemma_key_lt_transitive(path_key(s[i]), path_key(s[j - 1]), path_key(s[j]));
    }
}

/// An executable key part.
pub type Part = (u8, String);

/// The view of a key part.
pub open spec fn part_view(p: Part) -> KeyPart {
    (p.0 as nat, p.1@)
}

/// The view of a key.
pub open spec fn key_view(v: Seq<Part>) -> Seq<KeyPart> {
    v.map_values(|p: Part| part_view(p))
}

/// The ordering key of `p`.
pub fn key_of(p: &str) -> (r: Vec<Part>)
    ensures
        key_view(r@) == path_key(p@),
{
    let segs = segments(p);
    let mut r: Vec<Part> = Vec::new();
    let dot = String::from_str(".");
    let dots = String::from_str("..");
    proof {
        reveal_strlit(".");
        reveal_strlit("..");
    }
    assert(dot@ =~= seq!['.']);
    assert(dots@ =~= seq!['.', '.']);
    proof {
        lemma_raw_nonempty(p@);
    }
    assert(views(segs@)[0] == segs@[0]@);
    if is_rooted(p) {
        r.push((0u8, String::new()));
    } else if segs[0] == dot {
        r.push((1u8, String::new()));
    }
    let ghost head = key_view(r@);
    assert(head == path_key(p@).subrange(0, head.len() as int)) by {
        let h: Seq<KeyPart> = if rooted(p@) {
            seq![(0nat, Seq::<char>::empty())]
        } else if raw_segments(p@)[0] == seq!['.'] {
            seq![(1nat, Seq::<char>::empty())]
        } else {
            Seq::empty()
        };
        assert(head =~= h);
        assert(path_key(p@).subrange(0, h.len() as int) =~= h);
    }
    let names = named(&segs);
    let ghost nv = views(names@);
    assert(nv == components(p@));
    let mut i: usize = 0;
    while i < names.len()
        invariant
            i <= names.len(),
            nv == views(names@),
            nv == components(p@),
            dots@ == seq!['.', '.'],
            key_view(r@) == head + nv.subrange(0, i as int).map_values(|s: Seq<char>| named_part(s)),
        decreases names.len() - i,
    {
        let ghost prev = r@;
        let part: Part = if names[i] == dots {
            (2u8, String::new())
        } else {
            (3u8, names[i].clone())
        };
        assert(part_view(part) == named_part(nv[i as int]));
        r.push(part);
        assert(key_view(r@) =~= key_view(prev).push(part_view(part)));
        assert(nv.subrange(0, i + 1).map_values(|s: Seq<char>| named_part(s)) =~= nv.subrange(0, i as int).map_values(
            |s: Seq<char>| named_part(s),
        ).push(named_part(nv[i as int])));
        i = i + 1;
    }
    assert(nv.subrange(0, names.len() as int) =~= nv);
    assert(key_view(r@) =~= path_key(p@));
    r
}

fn part_less(a: &Part, b: &Part) -> (r: bool)
    ensures
        r == part_lt(part_view(*a), part_view(*b)),
{
    a.0 < b.0 || (a.0 == b.0 && str_less(a.1.as_str(), b.1.as_str()))
}

fn part_eq(a: &Part, b: &Part) -> (r: bool)
    ensures
        r == (part_view(*a) == part_view(*b)),
{
    a.0 == b.0 && a.1 == b.1
}

/// Whether key `a` comes strictly before key `b`.
pub fn key_less(a: &Vec<Part>, b: &Vec<Part>) -> (r: bool)
    ensures
        r == key_lt(key_view(a@), key_view(b@)),
{
    let ghost av = key_view(a@);
    let ghost bv = key_view(b@);
    let mut i: usize = 0;
    assert(av.subrange(0, av.len() as int) =~= av);
    assert(bv.subrange(0, bv.len() as int) =~= bv);
    while i < a.len() && i < b.len()
        invariant
            av == key_view(a@),
            bv == key_view(b@),
            i <= a.len(),
            i <= b.len(),
            key_lt(av, bv) == key_lt(av.subrange(i as int, av.len() as int), bv.subrange(i as int, bv.len() as int)),
        decreases a.len() - i,
    {
        let ghost sa = av.subrange(i as int, av.len() as int);
        let ghost sb = bv.subrange(i as int, bv.len() as int);
        assert(sa[0] == part_view(a@[i as int]));
        assert(sb[0] == part_view(b@[i as int]));
        if !part_eq(&a[i], &b[i]) {
            return part_less(&a[i], &b[i]);
        }
        assert(sa.drop_first() =~= av.subrange(i + 1, av.len() as int));
        assert(sb.drop_first() =~= bv.subrange(i + 1, bv.len() as int));
        i = i + 1;
    }
    i < b.len()
}

/// Whether two keys are equal.
pub fn key_equal(a: &Vec<Part>, b: &Vec<Part>) -> (r: bool)
    ensures
        r == (key_view(a@) == key_view(b@)),
{
    let ghost av = key_view(a@);
    let ghost bv = key_view(b@);
    if a.len() != b.len() {
        assert(av.len() != bv.len());
        return false;
    }
    let mut i: usize = 0;
    while i < a.len()
        invariant
            av == key_view(a@),
            bv == key_view(b@),
            a.len() == b.len(),
            i <= a.len(),
            forall|j: int| 0 <= j < i ==> av[j] == bv[j],
        decreases a.len() - i,
    {
        if !part_eq(&a[i], &b[i]) {
            assert(av[i as int] != bv[i as int]);
            return false;
        }
        i = i + 1;
    }
    assert(av =~= bv);
    true
}

/// Whether `p` lies at or below `h`, by components.
pub fn starts_with_path(p: &str, h: &str) -> (r: bool)
    ensures
        r == path_starts_with(p@, h@),
{
    let pk = key_of(p);
    let hk = key_of(h);
    let ghost pv = key_view(pk@);
    let ghost hv = key_view(hk@);
    if hk.len() > pk.len() {
        return false;
    }
    let mut i: usize = 0;
    while i < hk.len()
        invariant
            i <= hk.len() <= pk.len(),
            pv == key_view(pk@),
            hv == key_view(hk@),
            pv == path_key(p@),
            hv == path_key(h@),
            pv.subrange(0, i as int) == hv.subrange(0, i as int),
        decreases hk.len() - i,
    {
        if !part_eq(&pk[i], &hk[i]) {
            assert(pv.subrange(0, hk.len() as int)[i as int] != hv[i as int]);
            assert(pv.subrange(0, hk.len() as int) != hv);
            return false;
        }
        i = i + 1;
        assert(pv.subrange(0, i as int) =~= hv.subrange(0, i as int));
    }
    assert(hv.subrange(0, hk.len() as int) =~= hv);
    true
}

} // verus!
