//! The chunk registry: the set of currently materialized chunk coordinates.
//!
//! It is the single source of truth the streaming controller consults, so
//! its operations carry exact membership contracts: inserting a duplicate
//! is idempotent, removing an absent coordinate is a no-op, and no
//! coordinate is ever held twice.

use vstd::prelude::*;

verus! {

use crate::chunk::{in_window, TerrainChunk};

/// The set of loaded chunk coordinates, duplicate-free.
pub struct ChunkRegistry {
    coords: Vec<TerrainChunk>,
}

impl ChunkRegistry {
    /// The registry's entries, in insertion order. `wf` keeps them
    /// duplicate-free, so this sequence also stands for the member set.
    pub closed spec fn entries(&self) -> Seq<TerrainChunk> {
        self.coords@
    }

    /// Membership of a coordinate.
    pub open spec fn contains_spec(&self, c: TerrainChunk) -> bool {
        self.entries().contains(c)
    }

    /// No coordinate appears twice.
    pub open spec fn wf(&self) -> bool {
        forall|i: int, j: int|
            0 <= i < j < self.entries().len() ==> self.entries()[i] != self.entries()[j]
    }

    /// An empty registry.
    pub fn new() -> (r: Self)
        ensures
            r.wf(),
            r.entries().len() == 0,
            forall|c: TerrainChunk| !r.contains_spec(c),
    {
        ChunkRegistry { coords: Vec::new() }
    }

    /// The number of loaded chunks.
    pub fn len(&self) -> (n: usize)
        ensures
            n == self.entries().len(),
    {
        self.coords.len()
    }

    /// The entry at one position, for hosts that walk the registry.
    pub fn get(&self, i: usize) -> (c: TerrainChunk)
        requires
            i < self.entries().len(),
        ensures
            c == self.entries()[i as int],
    {
        self.coords[i]
    }

    /// Membership test.
    #[verifier::loop_isolation(false)]
    pub fn contains(&self, c: TerrainChunk) -> (present: bool)
        ensures
            present == self.contains_spec(c),
    {
        let n: usize = self.coords.len();
        let mut i: usize = 0;
        while i < n
            invariant
                i <= n,
                n == self.entries().len(),
                forall|j: int| 0 <= j < i ==> self.entries()[j] != c,
            decreases n - i,
        {
            if self.coords[i].chunk_x == c.chunk_x && self.coords[i].chunk_z == c.chunk_z {
                return true;
            }
            i = i + 1;
        }
        false
    }

    /// Inserts a coordinate; inserting one already present changes nothing.
    pub fn insert(&mut self, c: TerrainChunk)
        requires
            old(self).wf(),
        ensures
            final(self).wf(),
            forall|d: TerrainChunk|
                final(self).contains_spec(d) <==> (old(self).contains_spec(d) || d == c),
            old(self).contains_spec(c) ==> final(self).entries() == old(self).entries(),
            !old(self).contains_spec(c) ==> final(self).entries() == old(self).entries().push(c),
    {
        if !self.contains(c) {
            self.coords.push(c);
            proof {
                assert(self.entries()[self.entries().len() - 1] == c);
                assert forall|d: TerrainChunk|
                    self.contains_spec(d) <==> (old(self).contains_spec(d) || d == c) by {
                    if self.contains_spec(d) {
                        let i = choose|i: int|
                            0 <= i < self.entries().len() && self.entries()[i] == d;
                        if i < self.entries().len() - 1 {
                            assert(old(self).entries()[i] == d);
                        }
                    }
                    if old(self).contains_spec(d) {
                        let i = choose|i: int|
                            0 <= i < old(self).entries().len() && old(self).entries()[i] == d;
                        assert(self.entries()[i] == d);
                    }
                }
            }
        }
    }

    /// Removes a coordinate; removing an absent one is a no-op.
    #[verifier::loop_isolation(false)]
    pub fn remove(&mut self, c: TerrainChunk)
        requires
            old(self).wf(),
        ensures
            final(self).wf(),
            forall|d: TerrainChunk|
                final(self).contains_spec(d) <==> (old(self).contains_spec(d) && d != c),
    {
        let n: usize = self.coords.len();
        let mut kept: Vec<TerrainChunk> = Vec::new();
        let mut i: usize = 0;
        while i < n
            invariant
                i <= n,
                n == old(self).entries().len(),
                self.entries() == old(self).entries(),
                old(self).wf(),
                forall|d: TerrainChunk|
                    #[trigger] kept@.contains(d) ==> (old(self).entries().subrange(
                        0,
                        i as int,
                    ).contains(d) && d != c),
                forall|j: int|
                    0 <= j < i && old(self).entries()[j] != c ==> kept@.contains(
                        old(self).entries()[j],
                    ),
                forall|p: int, q: int| 0 <= p < q < kept@.len() ==> kept@[p] != kept@[q],
            decreases n - i,
        {
            let entry: TerrainChunk = self.coords[i];
            if !(entry.chunk_x == c.chunk_x && entry.chunk_z == c.chunk_z) {
                proof {
                    if kept@.contains(entry) {
                        let j = choose|j: int|
                            0 <= j < old(self).entries().subrange(0, i as int).len()
                                && old(self).entries().subrange(0, i as int)[j] == entry;
                        assert(old(self).entries()[j] == entry);
                        assert(false);
                    }
                }
                let ghost kept_before = kept@;
                kept.push(entry);
                proof {
                    assert(kept@[kept@.len() - 1] == entry);
                    assert(kept@.contains(entry));
                    assert forall|d: TerrainChunk| kept_before.contains(d) implies kept@.contains(
                        d,
                    ) by {
                        let j = choose|j: int| 0 <= j < kept_before.len() && kept_before[j] == d;
                        assert(kept@[j] == d);
                    }
                    assert forall|d: TerrainChunk| kept@.contains(d) implies (old(
                        self,
                    ).entries().subrange(0, i as int + 1).contains(d) && d != c) by {
                        let j = choose|j: int| 0 <= j < kept@.len() && kept@[j] == d;
                        if j < kept@.len() - 1 {
                            assert(kept_before[j] == d);
                            assert(kept_before.contains(d));
                            assert(old(self).entries().subrange(0, i as int).contains(d));
                            let q = choose|q: int|
                                0 <= q < old(self).entries().subrange(0, i as int).len()
                                    && old(self).entries().subrange(0, i as int)[q] == d;
                            assert(old(self).entries().subrange(0, i as int + 1)[q] == d);
                        } else {
                            assert(old(self).entries().subrange(0, i as int + 1)[i as int] == d);
                        }
                    }
                }
            } else {
                proof {
                    assert forall|d: TerrainChunk| kept@.contains(d) implies (old(
                        self,
                    ).entries().subrange(0, i as int + 1).contains(d) && d != c) by {
                        assert(old(self).entries().subrange(0, i as int).contains(d));
                        let q = choose|q: int|
                            0 <= q < old(self).entries().subrange(0, i as int).len()
                                && old(self).entries().subrange(0, i as int)[q] == d;
                        assert(old(self).entries().subrange(0, i as int + 1)[q] == d);
                    }
                }
            }
            i = i + 1;
        }
        proof {
            assert(old(self).entries().subrange(0, n as int) =~= old(self).entries());
        }
        self.coords = kept;
        proof {
            assert forall|d: TerrainChunk|
                self.contains_spec(d) <==> (old(self).contains_spec(d) && d != c) by {
                if old(self).contains_spec(d) && d != c {
                    let j = choose|j: int|
                        0 <= j < old(self).entries().len() && old(self).entries()[j] == d;
                }
            }
        }
    }

    /// Evicts every entry outside the Chebyshev window around `center`,
    /// returning the evicted coordinates, each exactly once.
    #[verifier::loop_isolation(false)]
    pub fn evict_outside(&mut self, center: TerrainChunk, radius: i32) -> (evicted: Vec<
        TerrainChunk,
    >)
        requires
            old(self).wf(),
            radius >= 0,
        ensures
            final(self).wf(),
            forall|d: TerrainChunk|
                final(self).contains_spec(d) <==> (old(self).contains_spec(d) && in_window(
                    center,
                    radius as int,
                    d,
                )),
            forall|d: TerrainChunk|
                evicted@.contains(d) <==> (old(self).contains_spec(d) && !in_window(
                    center,
                    radius as int,
                    d,
                )),
            forall|p: int, q: int| 0 <= p < q < evicted@.len() ==> evicted@[p] != evicted@[q],
    {
        let n: usize = self.coords.len();
        let mut kept: Vec<TerrainChunk> = Vec::new();
        let mut evicted: Vec<TerrainChunk> = Vec::new();
        let mut i: usize = 0;
        while i < n
            invariant
                i <= n,
                n == old(self).entries().len(),
                self.entries() == old(self).entries(),
                old(self).wf(),
                forall|d: TerrainChunk|
                    #[trigger] kept@.contains(d) ==> (old(self).entries().subrange(
                        0,
                        i as int,
                    ).contains(d) && in_window(center, radius as int, d)),
                forall|d: TerrainChunk|
                    #[trigger] evicted@.contains(d) ==> (old(self).entries().subrange(
                        0,
                        i as int,
                    ).contains(d) && !in_window(center, radius as int, d)),
                forall|j: int|
                    0 <= j < i ==> {
                        let d = #[trigger] old(self).entries()[j];
                        if in_window(center, radius as int, d) {
                            kept@.contains(d)
                        } else {
                            evicted@.contains(d)
                        }
                    },
                forall|p: int, q: int| 0 <= p < q < kept@.len() ==> kept@[p] != kept@[q],
                forall|p: int, q: int| 0 <= p < q < evicted@.len() ==> evicted@[p] != evicted@[q],
            decreases n - i,
        {
            let entry: TerrainChunk = self.coords[i];
            let inside: bool = window_test(center, radius, entry);
            proof {
                if kept@.contains(entry) || evicted@.contains(entry) {
                    let j = choose|j: int|
                        0 <= j < old(self).entries().subrange(0, i as int).len()
                            && old(self).entries().subrange(0, i as int)[j] == entry;
                    assert(old(self).entries()[j] == entry);
                    assert(false);
                }
            }
            if inside {
                let ghost kept_before = kept@;
                kept.push(entry);
                proof {
                    assert(kept@.subrange(0, kept@.len() - 1) =~= kept_before);
                    assert(kept@[kept@.len() - 1] == entry);
                    assert(kept@.contains(entry));
                    assert forall|d: TerrainChunk| kept_before.contains(d) implies kept@.contains(
                        d,
                    ) by {
                        let j = choose|j: int| 0 <= j < kept_before.len() && kept_before[j] == d;
                        assert(kept@[j] == d);
                    }
                    assert forall|d: TerrainChunk| kept@.contains(d) implies (kept_before.contains(
                        d,
                    ) || d == entry) by {
                        let j = choose|j: int| 0 <= j < kept@.len() && kept@[j] == d;
                        if j < kept@.len() - 1 {
                            assert(kept_before[j] == d);
                        }
                    }
                    lemma_push_prefix_contains(kept@, evicted@, old(self).entries(), i as int);
                    assert forall|d: TerrainChunk| #[trigger] kept@.contains(d) implies (old(
                        self,
                    ).entries().subrange(0, i as int + 1).contains(d) && in_window(
                        center,
                        radius as int,
                        d,
                    )) by {
                        if kept_before.contains(d) {
                        } else {
                            assert(d == entry);
                        }
                    }
                    assert forall|d: TerrainChunk| #[trigger] evicted@.contains(d) implies (old(
                        self,
                    ).entries().subrange(0, i as int + 1).contains(d) && !in_window(
                        center,
                        radius as int,
                        d,
                    )) by {
                    }
                }
            } else {
                let ghost evicted_before = evicted@;
                evicted.push(entry);
                proof {
                    assert(evicted@.subrange(0, evicted@.len() - 1) =~= evicted_before);
                    assert(evicted@[evicted@.len() - 1] == entry);
                    assert(evicted@.contains(entry));
                    assert forall|d: TerrainChunk| evicted_before.contains(d) implies
                        evicted@.contains(d) by {
                        let j = choose|j: int|
                            0 <= j < evicted_before.len() && evicted_before[j] == d;
                        assert(evicted@[j] == d);
                    }
                    assert forall|d: TerrainChunk| evicted@.contains(d) implies (
                    evicted_before.contains(d) || d == entry) by {
                        let j = choose|j: int| 0 <= j < evicted@.len() && evicted@[j] == d;
                        if j < evicted@.len() - 1 {
                            assert(evicted_before[j] == d);
                        }
                    }
                    lemma_push_prefix_contains(evicted@, kept@, old(self).entries(), i as int);
                    assert forall|d: TerrainChunk| #[trigger] evicted@.contains(d) implies (old(
                        self,
                    ).entries().subrange(0, i as int + 1).contains(d) && !in_window(
                        center,
                        radius as int,
                        d,
                    )) by {
                        if evicted_before.contains(d) {
                        } else {
                            assert(d == entry);
                        }
                    }
                    assert forall|d: TerrainChunk| #[trigger] kept@.contains(d) implies (old(
                        self,
                    ).entries().subrange(0, i as int + 1).contains(d) && in_window(
                        center,
                        radius as int,
                        d,
                    )) by {
                    }
                }
            }
            i = i + 1;
        }
        proof {
            assert(old(self).entries().subrange(0, n as int) =~= old(self).entries());
        }
        self.coords = kept;
        proof {
            assert forall|d: TerrainChunk|
                self.contains_spec(d) <==> (old(self).contains_spec(d) && in_window(
                    center,
                    radius as int,
                    d,
                )) by {
                if old(self).contains_spec(d) && in_window(center, radius as int, d) {
                    let j = choose|j: int|
                        0 <= j < old(self).entries().len() && old(self).entries()[j] == d;
                }
            }
            assert forall|d: TerrainChunk|
                evicted@.contains(d) <==> (old(self).contains_spec(d) && !in_window(
                    center,
                    radius as int,
                    d,
                )) by {
                if old(self).contains_spec(d) && !in_window(center, radius as int, d) {
                    let j = choose|j: int|
                        0 <= j < old(self).entries().len() && old(self).entries()[j] == d;
                }
            }
        }
        evicted
    }
}

/// After pushing the entry at position `i` of `source` onto `grown`, every
/// element of `grown` still comes from the prefix of length `i + 1`.
proof fn lemma_push_prefix_contains(
    grown: Seq<TerrainChunk>,
    other: Seq<TerrainChunk>,
    source: Seq<TerrainChunk>,
    i: int,
)
    requires
        0 <= i < source.len(),
        grown.len() >= 1,
        grown[grown.len() - 1] == source[i],
        forall|d: TerrainChunk|
            #[trigger] grown.subrange(0, grown.len() - 1).contains(d) ==> source.subrange(
                0,
                i,
            ).contains(d),
        forall|d: TerrainChunk|
            #[trigger] other.contains(d) ==> source.subrange(0, i).contains(d),
    ensures
        forall|d: TerrainChunk|
            #[trigger] grown.contains(d) ==> source.subrange(0, i + 1).contains(d),
        forall|d: TerrainChunk|
            #[trigger] other.contains(d) ==> source.subrange(0, i + 1).contains(d),
{
    assert forall|d: TerrainChunk| grown.contains(d) implies source.subrange(0, i + 1).contains(
        d,
    ) by {
        let j = choose|j: int| 0 <= j < grown.len() && grown[j] == d;
        if j < grown.len() - 1 {
            assert(grown.subrange(0, grown.len() - 1)[j] == d);
            assert(grown.subrange(0, grown.len() - 1).contains(d));
            assert(source.subrange(0, i).contains(d));
            let q = choose|q: int|
                0 <= q < source.subrange(0, i).len() && source.subrange(0, i)[q] == d;
            assert(source.subrange(0, i + 1)[q] == d);
        } else {
            assert(source.subrange(0, i + 1)[i] == d);
        }
    }
    assert forall|d: TerrainChunk| other.contains(d) implies source.subrange(0, i + 1).contains(
        d,
    ) by {
        assert(source.subrange(0, i).contains(d));
        let q = choose|q: int|
            0 <= q < source.subrange(0, i).len() && source.subrange(0, i)[q] == d;
        assert(source.subrange(0, i + 1)[q] == d);
    }
}

/// Chebyshev window membership test.
pub fn window_test(center: TerrainChunk, radius: i32, c: TerrainChunk) -> (inside: bool)
    requires
        radius >= 0,
    ensures
        inside == in_window(center, radius as int, c),
{
    let dx: i64 = (c.chunk_x as i64) - (center.chunk_x as i64);
    let dz: i64 = (c.chunk_z as i64) - (center.chunk_z as i64);
    let adx: i64 = if dx < 0 {
        -dx
    } else {
        dx
    };
    let adz: i64 = if dz < 0 {
        -dz
    } else {
        dz
    };
    adx <= radius as i64 && adz <= radius as i64
}

} // verus!
