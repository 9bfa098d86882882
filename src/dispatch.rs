use vstd::prelude::*;

verus! {

/// How many entries of `s` are set.
pub open spec fn count_true(s: Seq<bool>) -> nat
    decreases s.len(),
{
    if s.len() == 0 {
        0
    } else {
        count_true(s.drop_last()) + if s.last() { 1nat } else { 0nat }
    }
}

proof fn lemma_count_set(s: Seq<bool>, i: int)
    requires
        0 <= i < s.len(),
        !s[i],
    ensures
        count_true(s.update(i, true)) == count_true(s) + 1,
    decreases s.len(),
{
    let t = s.update(i, true);
    if i < s.len() - 1 {
        assert(t.drop_last() =~= s.drop_last().update(i, true));
        lemma_count_set(s.drop_last(), i);
    } else {
        assert(t.drop_last() =~= s.drop_last());
    }
}

proof fn lemma_count_bound(s: Seq<bool>)
    ensures
        count_true(s) <= s.len(),
        (exists|k: int| 0 <= k < s.len() && !s[k]) ==> count_true(s) < s.len(),
    decreases s.len(),
{
    if s.len() > 0 {
        lemma_count_bound(s.drop_last());
        if exists|k: int| 0 <= k < s.len() && !s[k] {
            let k = choose|k: int| 0 <= k < s.len() && !s[k];
            if k < s.len() - 1 {
                assert(!s.drop_last()[k]);
            }
        }
    }
}

proof fn lemma_count_prefix(s: Seq<bool>, n: int)
    requires
        0 <= n <= s.len(),
        forall|j: int| n <= j < s.len() ==> !s[j],
    ensures
        count_true(s) == count_true(s.subrange(0, n)),
    decreases s.len(),
{
    if s.len() > n {
        lemma_count_prefix(s.drop_last(), n);
        assert(s.drop_last().subrange(0, n) =~= s.subrange(0, n));
    } else {
        assert(s.subrange(0, n) =~= s);
    }
}

/// The scheduling state of one run: `total` directories, at most `limit`
/// of them processed at a time. Directories are started in order, so the
/// ones started are `0 .. started`; `done[i]` records that directory `i`
/// has delivered its final message, and `finished` how many have.
#[derive(Debug, Clone, PartialEq, Eq)]
pub struct Dispatch {
    pub total: usize,
    pub limit: usize,
    pub started: usize,
    pub finished: usize,
    pub done: Vec<bool>,
}

impl Dispatch {
    /// Directories started and not yet finished.
    pub open spec fn running_spec(&self) -> int {
        self.started - self.finished
    }

    /// Directory `i` has started and not delivered its final message.
    pub open spec fn running_at(&self, i: int) -> bool {
        0 <= i < self.started && !self.done@[i]
    }

    /// The limit is positive; only started directories have finished, each
    /// at most once; `finished` counts them; no more than `limit` run at
    /// once.
    pub open spec fn wf(&self) -> bool {
        &&& self.limit >= 1
        &&& self.finished <= self.started <= self.total
        &&& self.started - self.finished <= self.limit
        &&& self.done@.len() == self.total
        &&& forall|j: int| self.started <= j < self.total ==> !(#[trigger] self.done@[j])
        &&& self.finished == count_true(self.done@)
    }

    /// The channel may close: every directory has delivered its final
    /// message.
    pub open spec fn closed_spec(&self) -> bool {
        self.finished == self.total
    }

    /// A run over `total` directories with at most `limit` at a time.
    pub fn new(total: usize, limit: usize) -> (r: Self)
        requires
            limit >= 1,
        ensures
            r.wf(),
            r.total == total,
            r.limit == limit,
            r.started == 0,
            r.finished == 0,
    {
        let mut done: Vec<bool> = Vec::new();
        let mut i: usize = 0;
        while i < total
            invariant
                i <= total,
                done@.len() == i,
                forall|j: int| 0 <= j < i ==> !(#[trigger] done@[j]),
                count_true(done@) == 0,
            decreases total - i,
        {
            let ghost before = done@;
            done.push(false);
            assert(done@.drop_last() =~= before);
            i = i + 1;
        }
        Dispatch { total, limit, started: 0, finished: 0, done }
    }

    /// The next directory to start, where one is waiting and a slot is free.
    pub fn start(&mut self) -> (r: Option<usize>)
        requires
            old(self).wf(),
        ensures
            final(self).wf(),
            final(self).total == old(self).total,
            final(self).limit == old(self).limit,
            final(self).finished == old(self).finished,
            final(self).done == old(self).done,
            (old(self).started < old(self).total && old(self).running_spec() < old(self).limit) ==> r == Some(
                old(self).started,
            ) && final(self).started == old(self).started + 1,
            !(old(self).started < old(self).total && old(self).running_spec() < old(self).limit) ==> r.is_none()
                && final(self).started == old(self).started,
    {
        if self.started < self.total && self.started - self.finished < self.limit {
            let i = self.started;
            self.started = self.started + 1;
            Some(i)
        } else {
            None
        }
    }

    /// Whether directory `i` is running.
    pub fn is_running(&self, i: usize) -> (r: bool)
        requires
            self.wf(),
        ensures
            r == self.running_at(i as int),
    {
        i < self.started && !self.done[i]
    }

    /// Records the final message of running directory `i`.
    pub fn finish(&mut self, i: usize)
        requires
            old(self).wf(),
            old(self).running_at(i as int),
        ensures
            final(self).wf(),
            final(self).total == old(self).total,
            final(self).limit == old(self).limit,
            final(self).started == old(self).started,
            final(self).finished == old(self).finished + 1,
            final(self).done@ == old(self).done@.update(i as int, true),
    {
        proof {
            lemma_count_set(self.done@, i as int);
            lemma_count_prefix(self.done@, self.started as int);
            assert(!self.done@.subrange(0, self.started as int)[i as int]);
            lemma_count_bound(self.done@.subrange(0, self.started as int));
        }
        self.done.set(i, true);
        self.finished = self.finished + 1;
    }

    /// Whether every directory has delivered its final message.
    pub fn is_closed(&self) -> (r: bool)
        ensures
            r == self.closed_spec(),
    {
        self.finished == self.total
    }

    /// How many directories are running.
    pub fn running(&self) -> (r: usize)
        requires
            self.wf(),
        ensures
            r == self.running_spec(),
    {
        self.started - self.finished
    }

    /// How many directories have started.
    pub fn started(&self) -> (r: usize)
        ensures
            r == self.started,
    {
        self.started
    }

    /// How many final messages have been delivered.
    pub fn finished(&self) -> (r: usize)
        ensures
            r == self.finished,
    {
        self.finished
    }
}

/// At no point do more directories run than the limit allows.
pub proof fn lemma_within_limit(d: Dispatch)
    requires
        d.wf(),
    ensures
        0 <= d.running_spec() <= d.limit,
{
}

/// Once the run may close, every directory has started and delivered its
/// final message, and none is running, so no final message can follow.
/// A directory delivers at most one, as `finish` takes only running ones.
pub proof fn lemma_closed_after_all(d: Dispatch)
    requires
        d.wf(),
        d.closed_spec(),
    ensures
        d.started == d.total,
        forall|i: int| 0 <= i < d.total ==> #[trigger] d.done@[i],
        forall|i: int| !d.running_at(i),
{
    lemma_count_bound(d.done@);
}

/// While the run may not close, some directory runs, or a free slot with
/// a waiting directory lets one start.
pub proof fn lemma_progress(d: Dispatch)
    requires
        d.wf(),
        !d.closed_spec(),
    ensures
        d.running_spec() > 0 || (d.started < d.total && d.running_spec() < d.limit),
{
}

} // verus!
