//! The acquisition pipeline's decisions: the dedup index built from one
//! directory scan, the plan of which discovered items to fetch, the
//! bounded whole-item retry on write failures, and progress accounting.

use vstd::prelude::*;

use crate::text::str_eq;

verus! {

/// Whether one of the names is `n`.
pub open spec fn spec_contains_name(names: Seq<Seq<char>>, n: Seq<char>) -> bool {
    exists|i: int| 0 <= i < names.len() && names[i] == n
}

/// The set of already-downloaded filenames, read once from the output
/// directory before the first page fetch and never written during a run.
pub struct DedupIndex {
    pub names: Vec<String>,
}

impl DedupIndex {
    /// An index over the filenames one directory scan found.
    pub fn new(names: Vec<String>) -> (r: DedupIndex)
        ensures
            r.names == names,
    {
        DedupIndex { names }
    }

    /// Whether a file of this name is already on disk.
    pub fn contains(&self, name: &str) -> (r: bool)
        ensures
            r == spec_contains_name(self.names.deep_view(), name@),
    {
        let mut i: usize = 0;
        let n = self.names.len();
        #[verifier::loop_isolation(false)]
        while i < n
            invariant
                i <= n,
                forall|j: int| 0 <= j < i ==> self.names.deep_view()[j] != name@,
            decreases n - i,
        {
            proof {
                assert(self.names.deep_view()[i as int] == self.names@[i as int]@);
            }
            if str_eq(self.names[i].as_str(), name) {
                return true;
            }
            i = i + 1;
        }
        false
    }
}

/// The filenames the pipeline fetches out of the discovered ones: those
/// not in the index, in discovery order.
pub open spec fn spec_plan(fs: Seq<Seq<char>>, idx: Seq<Seq<char>>) -> Seq<Seq<char>>
    decreases fs.len(),
{
    if fs.len() == 0 {
        Seq::empty()
    } else if spec_contains_name(idx, fs.last()) {
        spec_plan(fs.drop_last(), idx)
    } else {
        spec_plan(fs.drop_last(), idx).push(fs.last())
    }
}

/// Plan a run: keep, in discovery order, exactly the filenames that the
/// index does not already hold.
pub fn plan_downloads(filenames: &Vec<String>, index: &DedupIndex) -> (r: Vec<String>)
    ensures
        r.deep_view() == spec_plan(filenames.deep_view(), index.names.deep_view()),
{
    let mut out: Vec<String> = Vec::new();
    let mut i: usize = 0;
    let n = filenames.len();
    let ghost fd = filenames.deep_view();
    proof {
        assert(fd.take(0) =~~= Seq::<Seq<char>>::empty());
        assert(out.deep_view() =~~= Seq::<Seq<char>>::empty());
    }
    #[verifier::loop_isolation(false)]
    while i < n
        invariant
            i <= n,
            out.deep_view() == spec_plan(fd.take(i as int), index.names.deep_view()),
        decreases n - i,
    {
        proof {
            assert(fd.take(i + 1 as int).drop_last() =~~= fd.take(i as int));
            assert(fd.take(i + 1 as int).last() == fd[i as int]);
            assert(fd[i as int] == filenames@[i as int]@);
        }
        let ghost pre = out.deep_view();
        if !index.contains(filenames[i].as_str()) {
            out.push(filenames[i].clone());
            proof {
                assert(out.deep_view() =~~= pre.push(fd[i as int]));
            }
        }
        i = i + 1;
    }
    proof {
        assert(fd.take(n as int) =~~= fd);
    }
    out
}

/// Idempotent resume: a filename that the output directory already holds
/// is never planned for a fetch, whatever else was discovered.
pub proof fn lemma_plan_skips_present(fs: Seq<Seq<char>>, idx: Seq<Seq<char>>, n: Seq<char>)
    requires
        spec_contains_name(idx, n),
    ensures
        !spec_plan(fs, idx).contains(n),
    decreases fs.len(),
{
    if fs.len() > 0 {
        lemma_plan_skips_present(fs.drop_last(), idx, n);
        if !spec_contains_name(idx, fs.last()) {
            assert(forall|i: int|
                0 <= i < spec_plan(fs, idx).len() - 1 ==> spec_plan(fs, idx)[i] == spec_plan(
                    fs.drop_last(),
                    idx,
                )[i]);
            if spec_plan(fs, idx).contains(n) {
                let i = choose|i: int|
                    0 <= i < spec_plan(fs, idx).len() && spec_plan(fs, idx)[i] == n;
                if i < spec_plan(fs, idx).len() - 1 {
                    assert(spec_plan(fs.drop_last(), idx).contains(n));
                } else {
                    assert(fs.last() == n);
                }
            }
        } else {
            if spec_plan(fs, idx).contains(n) {
                assert(spec_plan(fs.drop_last(), idx).contains(n));
            }
        }
    }
}

/// Every planned fetch is a discovered filename that the index does not
/// hold.
pub proof fn lemma_plan_sound(fs: Seq<Seq<char>>, idx: Seq<Seq<char>>)
    ensures
        forall|i: int|
            0 <= i < spec_plan(fs, idx).len() ==> spec_contains_name(
                fs,
                #[trigger] spec_plan(fs, idx)[i],
            ) && !spec_contains_name(idx, spec_plan(fs, idx)[i]),
    decreases fs.len(),
{
    if fs.len() > 0 {
        lemma_plan_sound(fs.drop_last(), idx);
        assert(forall|j: int|
            0 <= j < fs.drop_last().len() ==> #[trigger] fs.drop_last()[j] == fs[j]);
        assert forall|i: int| 0 <= i < spec_plan(fs, idx).len() implies spec_contains_name(
            fs,
            #[trigger] spec_plan(fs, idx)[i],
        ) && !spec_contains_name(idx, spec_plan(fs, idx)[i]) by {
            let sub = spec_plan(fs.drop_last(), idx);
            if i < sub.len() {
                assert(spec_plan(fs, idx)[i] == sub[i]);
                let w = choose|w: int|
                    0 <= w < fs.drop_last().len() && fs.drop_last()[w] == sub[i];
                assert(fs[w] == sub[i]);
            } else {
                assert(spec_plan(fs, idx)[i] == fs.last());
                assert(fs[fs.len() - 1] == fs.last());
            }
        }
    }
}

/// What the bounded whole-item retry comes to, over the per-attempt write
/// results: the first successful attempt within the bound wins; after
/// `bound` failures the item is skipped with a warning, never fatal.
pub fn write_attempts(results: &Vec<bool>, bound: usize) -> (r: Option<usize>)
    ensures
        match r {
            Some(i) => i < results@.len() && i < bound && results@[i as int] && forall|j: int|
                0 <= j < i ==> !results@[j],
            None => forall|j: int| 0 <= j < results@.len() && j < bound ==> !results@[j],
        },
{
    let mut i: usize = 0;
    let n = results.len();
    #[verifier::loop_isolation(false)]
    while i < n && i < bound
        invariant
            i <= n,
            forall|j: int| 0 <= j < i ==> !results@[j],
        decreases n - i,
    {
        if results[i] {
            return Some(i);
        }
        i = i + 1;
    }
    None
}

/// The two progress events the pipeline emits: one more unit of work
/// discovered, one unit of work completed.
pub struct ProgressCounter {
    pub discovered: u64,
    pub completed: u64,
}

impl ProgressCounter {
    /// A fresh counter: nothing discovered, nothing completed.
    pub fn new() -> (r: ProgressCounter)
        ensures
            r.discovered == 0,
            r.completed == 0,
    {
        ProgressCounter { discovered: 0, completed: 0 }
    }

    /// One more unit of work discovered.
    pub fn discover(&mut self)
        requires
            old(self).discovered < u64::MAX,
        ensures
            final(self).discovered == old(self).discovered + 1,
            final(self).completed == old(self).completed,
    {
        self.discovered = self.discovered + 1;
    }

    /// One unit of work completed.
    pub fn complete(&mut self)
        requires
            old(self).completed < u64::MAX,
        ensures
            final(self).completed == old(self).completed + 1,
            final(self).discovered == old(self).discovered,
    {
        self.completed = self.completed + 1;
    }

    /// Whether every discovered unit is done.
    pub fn all_done(&self) -> (r: bool)
        ensures
            r == (self.completed == self.discovered),
    {
        self.completed == self.discovered
    }
}

} // verus!
