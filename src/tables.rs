//! Count tables keyed by position, in order of first use, and by canonical
//! name, in lexicographic order.
use vstd::prelude::*;
use crate::commands::{CommandInfo, Occurrence};
use crate::rules::{
    NpCountV, NpEntryV, PosCountV, PosEntryV, bump_np, bump_pos, insert_point, np_count, np_index,
    pos_count, pos_index,
};
use crate::text::{less_text, same_text};

verus! {

/// A position and the command found there first.
pub struct PositionalEntry {
    pub position: usize,
    pub info: CommandInfo,
}

/// A canonical name and the occurrence rule of its command.
pub struct NonPositionalEntry {
    pub name: String,
    pub occurrence: Occurrence,
}

impl View for PositionalEntry {
    type V = PosEntryV;

    open spec fn view(&self) -> PosEntryV {
        PosEntryV { position: self.position, info: self.info@ }
    }
}

impl View for NonPositionalEntry {
    type V = NpEntryV;

    open spec fn view(&self) -> NpEntryV {
        NpEntryV { name: self.name@, occurrence: self.occurrence }
    }
}

pub open spec fn counts_view(v: Seq<usize>) -> Seq<nat> {
    v.map_values(|c: usize| c as nat)
}

/// Counts keyed by position.
pub struct PosCount {
    pub entries: Vec<PositionalEntry>,
    pub counts: Vec<usize>,
}

/// Counts keyed by canonical name, in lexicographic order.
pub struct NpCount {
    pub entries: Vec<NonPositionalEntry>,
    pub counts: Vec<usize>,
}

impl View for PosCount {
    type V = PosCountV;

    open spec fn view(&self) -> PosCountV {
        PosCountV {
            entries: self.entries@.map_values(|e: PositionalEntry| e@),
            counts: counts_view(self.counts@),
        }
    }
}

impl View for NpCount {
    type V = NpCountV;

    open spec fn view(&self) -> NpCountV {
        NpCountV {
            entries: self.entries@.map_values(|e: NonPositionalEntry| e@),
            counts: counts_view(self.counts@),
        }
    }
}

impl PosCount {
    /// One count for each entry, none above `k`.
    pub open spec fn bounded(&self, k: nat) -> bool {
        &&& self.entries@.len() == self.counts@.len()
        &&& forall|i: int| 0 <= i < self.counts@.len() ==> self.counts@[i] <= k
    }

    pub fn new() -> (r: PosCount)
        ensures
            r@ == (PosCountV { entries: seq![], counts: seq![] }),
            r.bounded(0),
    {
        let r = PosCount { entries: Vec::new(), counts: Vec::new() };
        assert(r@.entries =~= seq![]);
        assert(r@.counts =~= seq![]);
        r
    }

    pub fn index_of(&self, p: usize) -> (r: Option<usize>)
        ensures
            match r {
                Some(i) => i as int == pos_index(self@.entries, p) && i < self.entries@.len(),
                None => pos_index(self@.entries, p) < 0,
            },
    {
        let ghost es = self@.entries;
        let mut i = self.entries.len();
        assert(es.take(i as int) =~= es);
        while i > 0
            invariant
                i <= self.entries@.len(),
                es == self@.entries,
                pos_index(es, p) == pos_index(es.take(i as int), p),
            decreases i,
        {
            assert(es.take(i as int).drop_last() =~= es.take(i - 1));
            if self.entries[i - 1].position == p {
                return Some(i - 1);
            }
            i = i - 1;
        }
        None
    }

    /// The number of positions.
    pub fn len(&self) -> (r: usize)
        ensures
            r == self@.entries.len(),
    {
        self.entries.len()
    }

    pub fn is_empty(&self) -> (r: bool)
        ensures
            r == (self@.entries.len() == 0),
    {
        self.entries.len() == 0
    }

    /// The command recorded at position `p`, and its count.
    pub fn get(&self, p: usize) -> (r: Option<(&CommandInfo, usize)>)
        ensures
            match r {
                Some(e) => pos_index(self@.entries, p) >= 0 && e.0@ == self@.entries[pos_index(
                    self@.entries,
                    p,
                )].info && e.1 as nat == pos_count(self@, p),
                None => pos_index(self@.entries, p) < 0 || self.entries@.len()
                    != self.counts@.len(),
            },
    {
        match self.index_of(p) {
            Some(i) => if i < self.counts.len() && self.entries.len() == self.counts.len() {
                Some((&self.entries[i].info, self.counts[i]))
            } else {
                None
            },
            None => None,
        }
    }

    pub fn count_at(&self, p: usize) -> (r: usize)
        requires
            self.entries@.len() == self.counts@.len(),
        ensures
            r as nat == pos_count(self@, p),
    {
        match self.index_of(p) {
            Some(i) => self.counts[i],
            None => 0,
        }
    }

    pub fn bump(&mut self, p: usize, info: CommandInfo, Ghost(k): Ghost<nat>)
        requires
            old(self).bounded(k),
            k < usize::MAX,
        ensures
            final(self)@ == bump_pos(old(self)@, p, info@),
            final(self).bounded(k + 1),
    {
        match self.index_of(p) {
            Some(i) => {
                let c = self.counts[i];
                self.counts.set(i, c + 1);
                assert(self@.counts =~= old(self)@.counts.update(i as int, old(self)@.counts[i as int] + 1));
            },
            None => {
                self.entries.push(PositionalEntry { position: p, info });
                self.counts.push(1);
                assert(self@.entries =~= old(self)@.entries.push(PosEntryV { position: p, info: info@ }));
                assert(self@.counts =~= old(self)@.counts.push(1));
            },
        }
    }
}

impl NpCount {
    /// One count for each entry, none above `k`.
    pub open spec fn bounded(&self, k: nat) -> bool {
        &&& self.entries@.len() == self.counts@.len()
        &&& forall|i: int| 0 <= i < self.counts@.len() ==> self.counts@[i] <= k
    }

    pub fn new() -> (r: NpCount)
        ensures
            r@ == (NpCountV { entries: seq![], counts: seq![] }),
            r.bounded(0),
    {
        let r = NpCount { entries: Vec::new(), counts: Vec::new() };
        assert(r@.entries =~= seq![]);
        assert(r@.counts =~= seq![]);
        r
    }

    pub fn index_of(&self, n: &str) -> (r: Option<usize>)
        ensures
            match r {
                Some(i) => i as int == np_index(self@.entries, n@) && i < self.entries@.len(),
                None => np_index(self@.entries, n@) < 0,
            },
    {
        let ghost es = self@.entries;
        let mut i = self.entries.len();
        assert(es.take(i as int) =~= es);
        while i > 0
            invariant
                i <= self.entries@.len(),
                es == self@.entries,
                np_index(es, n@) == np_index(es.take(i as int), n@),
            decreases i,
        {
            assert(es.take(i as int).drop_last() =~= es.take(i - 1));
            if same_text(self.entries[i - 1].name.as_str(), n) {
                return Some(i - 1);
            }
            i = i - 1;
        }
        None
    }

    /// Where a new name `n` goes.
    pub fn insert_index(&self, n: &str) -> (r: usize)
        ensures
            r as int == insert_point(self@.entries, n@),
            r <= self.entries@.len(),
    {
        let ghost es = self@.entries;
        let mut i: usize = 0;
        assert(es.skip(0) =~= es);
        while i < self.entries.len()
            invariant
                i <= self.entries@.len(),
                es == self@.entries,
                insert_point(es, n@) == i + insert_point(es.skip(i as int), n@),
            decreases self.entries@.len() - i,
        {
            assert(es.skip(i as int)[0] == es[i as int]);
            if !less_text(self.entries[i].name.as_str(), n) {
                return i;
            }
            assert(es.skip(i as int).drop_first() =~= es.skip(i + 1));
            i = i + 1;
        }
        i
    }

    /// The number of names.
    pub fn len(&self) -> (r: usize)
        ensures
            r == self@.entries.len(),
    {
        self.entries.len()
    }

    pub fn is_empty(&self) -> (r: bool)
        ensures
            r == (self@.entries.len() == 0),
    {
        self.entries.len() == 0
    }

    /// The occurrence rule recorded for name `n`, and its count.
    pub fn get(&self, n: &str) -> (r: Option<(Occurrence, usize)>)
        ensures
            match r {
                Some(e) => np_index(self@.entries, n@) >= 0 && e.0 == self@.entries[np_index(
                    self@.entries,
                    n@,
                )].occurrence && e.1 as nat == np_count(self@, n@),
                None => np_index(self@.entries, n@) < 0 || self.entries@.len()
                    != self.counts@.len(),
            },
    {
        match self.index_of(n) {
            Some(i) => if i < self.counts.len() && self.entries.len() == self.counts.len() {
                Some((self.entries[i].occurrence, self.counts[i]))
            } else {
                None
            },
            None => None,
        }
    }

    pub fn count_of(&self, n: &str) -> (r: usize)
        requires
            self.entries@.len() == self.counts@.len(),
        ensures
            r as nat == np_count(self@, n@),
    {
        match self.index_of(n) {
            Some(i) => self.counts[i],
            None => 0,
        }
    }

    pub fn bump(&mut self, n: String, occ: Occurrence, Ghost(k): Ghost<nat>)
        requires
            old(self).bounded(k),
            k < usize::MAX,
        ensures
            final(self)@ == bump_np(old(self)@, n@, occ),
            final(self).bounded(k + 1),
    {
        match self.index_of(n.as_str()) {
            Some(i) => {
                let c = self.counts[i];
                self.counts.set(i, c + 1);
                assert(self@.counts =~= old(self)@.counts.update(i as int, old(self)@.counts[i as int] + 1));
            },
            None => {
                let ghost nv = n@;
                let at = self.insert_index(n.as_str());
                self.entries.insert(at, NonPositionalEntry { name: n, occurrence: occ });
                self.counts.insert(at, 1);
                assert(self@.entries =~= old(self)@.entries.insert(
                    at as int,
                    NpEntryV { name: nv, occurrence: occ },
                ));
                assert(self@.counts =~= old(self)@.counts.insert(at as int, 1));
            },
        }
    }
}

} // verus!
