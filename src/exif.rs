//! The walk over a directory tree in search of photos that carry a
//! position. Reading directories and files is left to the caller; the walk
//! itself, breadth first from one root, is kept here.
use vstd::prelude::*;

use std::collections::VecDeque;

use crate::backup::path_views;

verus! {

/// A breadth-first walk over the paths under one directory, on behalf of one
/// user.
pub struct Finder {
    to_visit: VecDeque<String>,
    username: String,
}

impl Finder {
    /// The paths still to visit, first to last.
    pub closed spec fn pending(&self) -> Seq<Seq<char>> {
        path_views(self.to_visit@)
    }

    pub closed spec fn owner(&self) -> Seq<char> {
        self.username@
    }

    /// A walk that starts at `dir`.
    pub fn new(dir: &String, username: &String) -> (r: Finder)
        ensures
            r.pending() == seq![dir@],
            r.owner() == username@,
    {
        let mut to_visit = VecDeque::new();
        to_visit.push_back(dir.clone());
        let r = Finder { to_visit, username: username.clone() };
        assert(r.pending() =~= seq![dir@]);
        r
    }

    /// The user that found locations belong to.
    pub fn username(&self) -> (r: &String)
        ensures
            r@ == self.owner(),
    {
        &self.username
    }

    /// Takes the next path to visit, or `None` when the walk is over.
    pub fn next_path(&mut self) -> (r: Option<String>)
        ensures
            final(self).owner() == old(self).owner(),
            old(self).pending().len() == 0 ==> r is None && final(self).pending() == old(self).pending(),
            old(self).pending().len() > 0 ==> r is Some && r->Some_0@ == old(self).pending()[0]
                && final(self).pending() == old(self).pending().drop_first(),
    {
        let r = self.to_visit.pop_front();
        assert(self.pending() =~= old(self).pending().subrange(1, old(self).pending().len() as int)
            || old(self).pending().len() == 0);
        r
    }

    /// Puts the entries of a visited directory at the end of the walk.
    pub fn enqueue(&mut self, entries: &Vec<String>)
        ensures
            final(self).owner() == old(self).owner(),
            final(self).pending() == old(self).pending() + path_views(entries@),
    {
        let ghost start = self.pending();
        let mut i: usize = 0;
        while i < entries.len()
            invariant
                i <= entries.len(),
                self.owner() == old(self).owner(),
                start == old(self).pending(),
                self.pending() == start + path_views(entries@.take(i as int)),
            decreases entries.len() - i,
        {
            let ghost q = self.to_visit@;
            self.to_visit.push_back(entries[i].clone());
            assert(path_views(self.to_visit@) =~= path_views(q).push(entries@[i as int]@));
            assert(entries@.take(i + 1) =~= entries@.take(i as int).push(entries@[i as int]));
            assert(self.pending() =~= start + path_views(entries@.take(i + 1)));
            i = i + 1;
        }
        assert(entries@.take(i as int) =~= entries@);
    }
}

} // verus!
