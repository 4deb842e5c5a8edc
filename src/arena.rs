//! Storage for parameter indicators whose places stay put.
//!
//! The driver keeps the address of each bound parameter's indicator and reads it again
//! when the statement executes. The arena therefore allocates fixed-size chunks and never
//! moves a chunk once allocated: growing it only adds chunks, so a slot handed out earlier
//! stays where it is until the arena is cleared.
use vstd::prelude::*;

verus! {

/// Number of indicators in one chunk.
pub const CHUNK_LEN: usize = 64;

/// The place of one indicator: which chunk, and where in it.
#[derive(PartialEq, Eq, Structural, Clone, Copy, Debug)]
pub struct IndicatorSlot {
    pub chunk: usize,
    pub offset: usize,
}

/// Indicator storage made of fixed-size chunks.
pub struct Chunks {
    chunks: Vec<Vec<i64>>,
}

/// The slot of parameter `i`.
pub open spec fn slot_of(i: int) -> IndicatorSlot {
    IndicatorSlot { chunk: (i / CHUNK_LEN as int) as usize, offset: (i % CHUNK_LEN as int) as usize }
}

impl View for Chunks {
    type V = Seq<Seq<i64>>;

    closed spec fn view(&self) -> Seq<Seq<i64>> {
        self.chunks@.map_values(|c: Vec<i64>| c@)
    }
}

impl Chunks {
    /// Every chunk holds exactly [`CHUNK_LEN`] indicators.
    pub open spec fn wf(&self) -> bool {
        forall|c: int| 0 <= c < self@.len() ==> #[trigger] self@[c].len() == CHUNK_LEN
    }

    /// The indicator in a slot.
    pub open spec fn at(&self, s: IndicatorSlot) -> i64 {
        self@[s.chunk as int][s.offset as int]
    }

    pub fn new() -> (r: Chunks)
        ensures
            r.wf(),
            r@.len() == 0,
    {
        let r = Chunks { chunks: Vec::new() };
        assert(r@ =~= Seq::<Seq<i64>>::empty());
        r
    }

    /// Stores `value` as the indicator of parameter `i` and returns its slot. Chunks are
    /// added as needed; no existing chunk moves, and every other slot keeps its value.
    pub fn alloc_slot(&mut self, i: usize, value: i64) -> (r: IndicatorSlot)
        requires
            old(self).wf(),
        ensures
            final(self).wf(),
            r == slot_of(i as int),
            final(self).at(r) == value,
            final(self)@.len() == if old(self)@.len() > r.chunk { old(self)@.len() as int } else { r.chunk + 1 },
            forall|c: int, o: int|
                0 <= c < old(self)@.len() && 0 <= o < CHUNK_LEN && (c != r.chunk || o != r.offset)
                    ==> #[trigger] final(self)@[c][o] == old(self)@[c][o],
            forall|c: int, o: int|
                old(self)@.len() <= c < final(self)@.len() && 0 <= o < CHUNK_LEN && (c != r.chunk || o != r.offset)
                    ==> #[trigger] final(self)@[c][o] == 0,
    {
        let chunk_no = i / CHUNK_LEN;
        let offset = i % CHUNK_LEN;
        let ghost old_view = self@;
        while self.chunks.len() <= chunk_no
            invariant
                self.wf(),
                old_view.len() <= self@.len(),
                self@.len() <= old_view.len() || self@.len() <= chunk_no + 1,
                chunk_no == i / CHUNK_LEN,
                forall|c: int| 0 <= c < old_view.len() ==> #[trigger] self@[c] == old_view[c],
                forall|c: int, o: int|
                    old_view.len() <= c < self@.len() && 0 <= o < CHUNK_LEN ==> #[trigger] self@[c][o] == 0,
            decreases chunk_no + 1 - self.chunks.len(),
        {
            let fresh = zeroed_chunk();
            let ghost before = self@;
            self.chunks.push(fresh);
            assert(self@ =~= before.push(fresh@));
        }
        let ghost mid = self@;
        assert(self.chunks@[chunk_no as int]@ == self@[chunk_no as int]);
        self.chunks[chunk_no][offset] = value;
        proof {
            assert(self@ =~= mid.update(chunk_no as int, mid[chunk_no as int].update(offset as int, value)));
        }
        IndicatorSlot { chunk: chunk_no, offset }
    }

    /// The indicator in a slot.
    pub fn get(&self, s: IndicatorSlot) -> (r: i64)
        requires
            self.wf(),
            s.chunk < self@.len(),
            s.offset < CHUNK_LEN,
        ensures
            r == self.at(s),
    {
        assert(self.chunks@[s.chunk as int]@ == self@[s.chunk as int]);
        self.chunks[s.chunk][s.offset]
    }

    /// The place of the indicator in a slot, to hand to the driver.
    pub fn get_ref(&self, s: IndicatorSlot) -> (r: &i64)
        requires
            self.wf(),
            s.chunk < self@.len(),
            s.offset < CHUNK_LEN,
        ensures
            *r == self.at(s),
    {
        assert(self.chunks@[s.chunk as int]@ == self@[s.chunk as int]);
        &self.chunks[s.chunk][s.offset]
    }

    /// Number of chunks.
    pub fn chunk_count(&self) -> (r: usize)
        ensures
            r == self@.len(),
    {
        self.chunks.len()
    }

    /// Drops every chunk. Only to be done when no execution that reads the indicators is
    /// pending.
    pub fn clear(&mut self)
        ensures
            final(self).wf(),
            final(self)@.len() == 0,
    {
        self.chunks.clear();
        assert(self@ =~= Seq::<Seq<i64>>::empty());
    }
}

/// A chunk of zeros.
fn zeroed_chunk() -> (r: Vec<i64>)
    ensures
        r@.len() == CHUNK_LEN,
        forall|o: int| 0 <= o < CHUNK_LEN ==> #[trigger] r@[o] == 0,
{
    let mut v: Vec<i64> = Vec::new();
    while v.len() < CHUNK_LEN
        invariant
            v@.len() <= CHUNK_LEN,
            forall|o: int| 0 <= o < v@.len() ==> #[trigger] v@[o] == 0,
        decreases CHUNK_LEN - v.len(),
    {
        v.push(0);
    }
    v
}

} // verus!
