//! The breadth-first walk of a network location when searching it: each
//! folder is entered once, even where links lead back to it.

use vstd::prelude::*;
use crate::operation::strs_view;
use crate::text::str_equal;

verus! {

/// The folders still to enter, in order, and those entered already.
pub struct NetworkWalk {
    queue: Vec<String>,
    visited: Vec<String>,
    first: bool,
}

/// What to do after trying to list a folder's entries.
#[derive(Clone, Copy, Debug, PartialEq, Eq, Structural)]
pub enum ListingStep {
    /// The search location itself cannot be listed: the search fails.
    Fail,
    /// A folder below it cannot be listed: go on with the next one.
    Skip,
    /// Look at the entries.
    Proceed,
}

impl NetworkWalk {
    /// The folders waiting to be entered, in order.
    pub closed spec fn pending(&self) -> Seq<Seq<char>> {
        strs_view(self.queue@)
    }

    /// The folders entered so far.
    pub closed spec fn entered(&self) -> Seq<Seq<char>> {
        strs_view(self.visited@)
    }

    /// Whether no folder has been listed yet.
    pub closed spec fn at_start(&self) -> bool {
        self.first
    }

    /// The walk's invariant: no folder was entered twice.
    pub closed spec fn wf(&self) -> bool {
        self.entered().no_duplicates()
    }

    /// A walk that starts at `root`.
    pub fn new(root: String) -> (r: NetworkWalk)
        ensures
            r.wf(),
            r.pending() == seq![root@],
            r.entered() == Seq::<Seq<char>>::empty(),
            r.at_start(),
    {
        let mut queue: Vec<String> = Vec::new();
        let ghost rv = root@;
        queue.push(root);
        let r = NetworkWalk { queue, visited: Vec::new(), first: true };
        assert(r.pending() =~= seq![rv]);
        assert(r.entered() =~= Seq::<Seq<char>>::empty());
        r
    }

    /// Queues a folder to enter later.
    pub fn push(&mut self, uri: String)
        ensures
            final(self).pending() == old(self).pending().push(uri@),
            final(self).entered() == old(self).entered(),
            final(self).at_start() == old(self).at_start(),
            final(self).wf() == old(self).wf(),
    {
        let ghost u = uri@;
        self.queue.push(uri);
        assert(self.pending() =~= old(self).pending().push(u));
    }

    /// The next folder to enter: the first queued one that was not entered
    /// yet (those entered already are dropped from the queue); none when
    /// the queue runs out.
    pub fn next(&mut self) -> (r: Option<String>)
        requires
            old(self).wf(),
        ensures
            final(self).wf(),
            final(self).at_start() == old(self).at_start(),
            match r {
                Some(u) => !old(self).entered().contains(u@) && final(self).entered() == old(self).entered().push(u@)
                    && old(self).pending().contains(u@),
                None => final(self).entered() == old(self).entered() && final(self).pending().len() == 0 && forall|
                    k: int,
                | 0 <= k < old(self).pending().len() ==> old(self).entered().contains(#[trigger] old(self).pending()[k]),
            },
    {
        let ghost p0 = self.pending();
        let ghost dropped: int = 0;
        while self.queue.len() > 0
            invariant
                self.wf(),
                self.first == old(self).first,
                p0 == old(self).pending(),
                self.entered() == old(self).entered(),
                0 <= dropped <= p0.len(),
                self.pending() == p0.subrange(dropped, p0.len() as int),
                forall|k: int| 0 <= k < dropped ==> self.entered().contains(#[trigger] p0[k]),
            decreases self.queue@.len(),
        {
            let ghost q = self.queue@;
            assert(self.pending().len() == q.len());
            assert(self.pending()[0] == q[0]@);
            assert(p0.subrange(dropped, p0.len() as int)[0] == p0[dropped]);
            let u = self.queue.remove(0);
            assert(u@ == p0[dropped]);
            proof {
                assert forall|k: int| 0 <= k < q.len() - 1 implies strs_view(self.queue@)[k] == p0[dropped + 1 + k] by {
                    assert(self.queue@[k] == q[k + 1]);
                    assert(strs_view(q)[k + 1] == q[k + 1]@);
                    assert(p0.subrange(dropped, p0.len() as int)[k + 1] == p0[dropped + 1 + k]);
                }
                assert(strs_view(self.queue@) =~= p0.subrange(dropped + 1, p0.len() as int));
            }
            let mut seen = false;
            let mut i: usize = 0;
            while i < self.visited.len()
                invariant
                    i <= self.visited@.len(),
                    seen == exists|k: int| 0 <= k < i && (#[trigger] self.visited@[k])@ == u@,
                decreases self.visited@.len() - i,
            {
                if str_equal(self.visited[i].as_str(), u.as_str()) {
                    seen = true;
                }
                i = i + 1;
            }
            proof {
                if seen {
                    let k = choose|k: int| 0 <= k < self.visited@.len() && (#[trigger] self.visited@[k])@ == u@;
                    assert(self.entered()[k] == u@);
                } else {
                    assert forall|k: int| 0 <= k < self.entered().len() implies self.entered()[k] != u@ by {
                        assert(self.entered()[k] == self.visited@[k]@);
                    }
                }
            }
            if !seen {
                let ghost ev = self.entered();
                let ghost uv = u@;
                self.visited.push(u.clone());
                assert(self.entered() =~= ev.push(uv));
                proof {
                    assert forall|a: int, b: int| 0 <= a < b < self.entered().len() implies self.entered()[a]
                        != self.entered()[b] by {
                        if b == ev.len() {
                            assert(!ev.contains(uv));
                            assert(ev[a] == self.entered()[a]);
                        }
                    }
                    assert(p0.contains(uv)) by {
                        assert(p0[dropped] == uv);
                    }
                    assert(!old(self).entered().contains(uv));
                    assert(old(self).pending().contains(uv));
                    assert(self.entered() == old(self).entered().push(uv));
                }
                return Some(u);
            }
            proof {
                dropped = dropped + 1;
            }
        }
        None
    }

    /// The step after trying to list the current folder (`listed` says
    /// whether it could be listed): failing at the start fails the search,
    /// failing later skips the folder.
    pub fn listed(&mut self, listed: bool) -> (r: ListingStep)
        ensures
            !listed && old(self).at_start() ==> r == ListingStep::Fail,
            !listed && !old(self).at_start() ==> r == ListingStep::Skip,
            listed ==> r == ListingStep::Proceed && !final(self).at_start(),
            !listed ==> final(self).at_start() == old(self).at_start(),
            final(self).pending() == old(self).pending(),
            final(self).entered() == old(self).entered(),
            final(self).wf() == old(self).wf(),
    {
        if !listed {
            if self.first {
                ListingStep::Fail
            } else {
                ListingStep::Skip
            }
        } else {
            self.first = false;
            ListingStep::Proceed
        }
    }
}

/// Whether an entry found in a network search is looked at: hidden entries
/// (dot files, or marked hidden) only when hidden files are shown.
pub fn entry_shown(name: &str, hidden_attribute: bool, show_hidden: bool) -> (r: bool)
    ensures
        r == (show_hidden || !((name@.len() > 0 && name@[0] == '.') || hidden_attribute)),
{
    let hidden = crate::hidden::hidden_by_name(name, hidden_attribute);
    !(hidden && !show_hidden)
}

} // verus!
