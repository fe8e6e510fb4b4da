//! One run over a sitemap: the root's children are counted one after the other.
use vstd::prelude::*;
use crate::report::{put, UrlCounts};
use crate::scan::{count_urls, extract_sitemaps, sitemap_locs, strings_view, url_locs, ParseError};

verus! {

/// The sitemaps of a run, how many of them have been counted, and their counts.
pub struct Survey {
    leaves: Vec<String>,
    done: usize,
    counts: UrlCounts,
}

impl Survey {
    /// The sitemaps that the run counts, in order.
    pub closed spec fn leaves(&self) -> Seq<Seq<char>> {
        strings_view(self.leaves@)
    }

    /// How many of them have been counted.
    pub closed spec fn done(&self) -> nat {
        self.done as nat
    }

    /// The counts recorded so far.
    pub closed spec fn counts(&self) -> Seq<(Seq<char>, usize)> {
        self.counts@
    }

    pub closed spec fn wf(&self) -> bool {
        &&& self.done <= self.leaves@.len()
        &&& self.counts.wf()
    }

    /// Starts a run on the document fetched from `root`: its child sitemaps are counted,
    /// or `root` itself where it lists none.
    pub fn start(root: &str, root_doc: &str) -> (r: Result<Survey, ParseError>)
        ensures
            sitemap_locs(root_doc) is None <==> r is Err,
            r matches Ok(s) ==> {
                &&& s.wf()
                &&& s.done() == 0
                &&& s.counts() == Seq::<(Seq<char>, usize)>::empty()
                &&& sitemap_locs(root_doc)->0.len() == 0 ==> s.leaves() == seq![root@]
                &&& sitemap_locs(root_doc)->0.len() > 0 ==> s.leaves() == sitemap_locs(root_doc)->0
            },
    {
        let children = match extract_sitemaps(root_doc) {
            Ok(v) => v,
            Err(e) => return Err(e),
        };
        let leaves = crate::report::leaf_sitemaps(root, children);
        Ok(Survey { leaves, done: 0, counts: UrlCounts::new() })
    }

    /// The sitemap to fetch next; `None` once all are counted.
    pub fn next_url(&self) -> (r: Option<String>)
        requires
            self.wf(),
        ensures
            self.done() < self.leaves().len() ==> (r matches Some(u) && u@ == self.leaves()[self.done() as int]),
            self.done() >= self.leaves().len() ==> r is None,
    {
        if self.done < self.leaves.len() {
            Some(self.leaves[self.done].clone())
        } else {
            None
        }
    }

    /// Counts the document fetched for the next sitemap and records its count.
    pub fn deliver(&mut self, doc: &str) -> (r: Result<(), ParseError>)
        requires
            old(self).wf(),
            old(self).done() < old(self).leaves().len(),
        ensures
            final(self).wf(),
            final(self).leaves() == old(self).leaves(),
            url_locs(doc) is None <==> r is Err,
            r is Err ==> final(self).done() == old(self).done() && final(self).counts() == old(self).counts(),
            r is Ok ==> final(self).done() == old(self).done() + 1 && final(self).counts() == put(
                old(self).counts(),
                old(self).leaves()[old(self).done() as int],
                url_locs(doc)->0.len() as usize,
            ),
    {
        assert(strings_view(self.leaves@).len() == self.leaves@.len());
        let n = match count_urls(doc) {
            Ok(n) => n,
            Err(e) => return Err(e),
        };
        let d = self.done;
        let len = self.leaves.len();
        assert(d < len);
        let url = self.leaves[d].clone();
        self.counts.record(url, n);
        self.done = d + 1;
        Ok(())
    }

    /// How many sitemaps the run counts.
    pub fn leaf_count(&self) -> (r: usize)
        ensures
            r == self.leaves().len(),
    {
        self.leaves.len()
    }

    /// Whether every sitemap of the run has been counted.
    pub fn finished(&self) -> (r: bool)
        ensures
            r == (self.done() >= self.leaves().len()),
    {
        self.done >= self.leaves.len()
    }

    /// The counts recorded so far.
    pub fn counts_so_far(&self) -> (r: &UrlCounts)
        ensures
            r@ == self.counts(),
            self.wf() ==> r.wf(),
    {
        &self.counts
    }
}

} // verus!
