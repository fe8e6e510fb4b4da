//! Which sitemaps are counted, and the counts recorded for them.
use vstd::prelude::*;
use crate::scan::strings_view;

verus! {

/// The sitemaps to count: the children of the root document, or the root itself where
/// it lists none.
pub fn leaf_sitemaps(root: &str, children: Vec<String>) -> (r: Vec<String>)
    ensures
        children@.len() == 0 ==> strings_view(r@) == seq![root@],
        children@.len() > 0 ==> r@ == children@,
{
    if children.len() == 0 {
        let mut r: Vec<String> = Vec::new();
        r.push(root.to_owned());
        assert(strings_view(r@) =~= seq![root@]);
        r
    } else {
        children
    }
}

pub open spec fn has_key(s: Seq<(Seq<char>, usize)>, k: Seq<char>) -> bool {
    exists|i: int| 0 <= i < s.len() && s[i].0 == k
}

pub open spec fn keys_unique(s: Seq<(Seq<char>, usize)>) -> bool {
    forall|i: int, j: int| 0 <= i < s.len() && 0 <= j < s.len() && s[i].0 == s[j].0 ==> i == j
}

/// `s` with `(k, c)` in place of the entry for `k`, or with it added at the end where
/// `k` has none.
pub open spec fn put(s: Seq<(Seq<char>, usize)>, k: Seq<char>, c: usize) -> Seq<(Seq<char>, usize)> {
    if has_key(s, k) {
        s.update(choose|i: int| 0 <= i < s.len() && s[i].0 == k, (k, c))
    } else {
        s.push((k, c))
    }
}

/// The sum of the counts.
pub open spec fn sum_counts(s: Seq<(Seq<char>, usize)>) -> nat
    decreases s.len(),
{
    if s.len() == 0 {
        0
    } else {
        sum_counts(s.drop_last()) + s.last().1 as nat
    }
}

/// The count of each sitemap URL, one entry per URL, in the order of first recording.
pub struct UrlCounts {
    entries: Vec<(String, usize)>,
}

impl View for UrlCounts {
    type V = Seq<(Seq<char>, usize)>;

    closed spec fn view(&self) -> Seq<(Seq<char>, usize)> {
        self.entries@.map_values(|e: (String, usize)| (e.0@, e.1))
    }
}

proof fn lemma_sum_prefix(s: Seq<(Seq<char>, usize)>, n: int)
    requires
        0 <= n <= s.len(),
    ensures
        sum_counts(s.subrange(0, n)) <= sum_counts(s),
    decreases s.len() - n,
{
    if n < s.len() {
        lemma_sum_prefix(s, n + 1);
        assert(s.subrange(0, n + 1).drop_last() =~= s.subrange(0, n));
    } else {
        assert(s.subrange(0, n) =~= s);
    }
}

impl UrlCounts {
    pub open spec fn wf(&self) -> bool {
        keys_unique(self@)
    }

    pub fn new() -> (r: UrlCounts)
        ensures
            r.wf(),
            r@ == Seq::<(Seq<char>, usize)>::empty(),
    {
        let r = UrlCounts { entries: Vec::new() };
        assert(r@ =~= Seq::<(Seq<char>, usize)>::empty());
        r
    }

    /// Records `count` for `url`, over any count recorded for it before.
    pub fn record(&mut self, url: String, count: usize)
        requires
            old(self).wf(),
        ensures
            final(self).wf(),
            final(self)@ == put(old(self)@, url@, count),
    {
        let mut i: usize = 0;
        while i < self.entries.len()
            invariant
                i <= self.entries.len(),
                self@ == old(self)@,
                keys_unique(old(self)@),
                self.entries@.len() == self@.len(),
                forall|j: int| 0 <= j < i ==> self@[j].0 != url@,
            decreases self.entries.len() - i,
        {
            assert(self@[i as int] == (self.entries@[i as int].0@, self.entries@[i as int].1));
            if self.entries[i].0 == url {
                let ghost before = self@;
                self.entries.set(i, (url, count));
                assert(self@ =~= before.update(i as int, (url@, count)));
                assert(before[i as int].0 == url@);
                assert(keys_unique(self@));
                assert(has_key(before, url@));
                let ghost j = choose|j: int| 0 <= j < before.len() && before[j].0 == url@;
                assert(j == i);
                return;
            }
            i += 1;
        }
        let ghost before = self@;
        self.entries.push((url, count));
        assert(self@ =~= before.push((url@, count)));
        assert(!has_key(before, url@));
    }

    /// The recorded entries, as URL and count pairs.
    pub fn entries(&self) -> (r: &Vec<(String, usize)>)
        ensures
            r@.map_values(|e: (String, usize)| (e.0@, e.1)) == self@,
    {
        &self.entries
    }

    /// The sum of all recorded counts; `None` where it does not fit in a `usize`.
    pub fn total(&self) -> (r: Option<usize>)
        ensures
            sum_counts(self@) <= usize::MAX ==> r == Some(sum_counts(self@) as usize),
            sum_counts(self@) > usize::MAX ==> r is None,
    {
        let mut acc: usize = 0;
        let mut i: usize = 0;
        assert(self@.len() == self.entries@.len());
        while i < self.entries.len()
            invariant
                i <= self.entries.len(),
                self@.len() == self.entries@.len(),
                acc == sum_counts(self@.subrange(0, i as int)),
            decreases self.entries.len() - i,
        {
            let c = self.entries[i].1;
            assert(self@[i as int].1 == c);
            assert(self@.subrange(0, i + 1).drop_last() =~= self@.subrange(0, i as int));
            if acc > usize::MAX - c {
                proof {
                    lemma_sum_prefix(self@, i + 1);
                }
                return None;
            }
            acc = acc + c;
            i += 1;
        }
        assert(self@.subrange(0, i as int) =~= self@);
        Some(acc)
    }
}

} // verus!
