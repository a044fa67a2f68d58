//! The decisions of the game's systems: tracking the player's position with the window
//! of chunks around it, and queueing chunk loads and unloads.
use vstd::prelude::*;

use crate::components::Position;
use crate::events::ChunkEvent;
use crate::game_world::{ChunkIndex, GameWorldError, Planet, TileError, TileIndex, tile_from_cells};

verus! {

/// The lowest row or column of the window of `distance` chunks around `center`.
pub open spec fn window_lower(center: u64, distance: u64) -> u64 {
    if center >= distance { (center - distance) as u64 } else { 0 }
}

/// The highest row or column of the window of `distance` chunks around `center`.
pub open spec fn window_upper(center: u64, distance: u64) -> u64 {
    if center + distance <= u64::MAX { (center + distance) as u64 } else { u64::MAX }
}

/// Whether chunk `c` lies in the window of `distance` chunks around `center`
/// (cut off at the lowest and highest representable index).
pub open spec fn in_window(center: ChunkIndex, distance: u64, c: ChunkIndex) -> bool {
    &&& window_lower(center.0, distance) <= c.0 <= window_upper(center.0, distance)
    &&& window_lower(center.1, distance) <= c.1 <= window_upper(center.1, distance)
}

/// The chunks of the window of `distance` chunks around `center`.
pub open spec fn window_set(center: ChunkIndex, distance: u64) -> Set<ChunkIndex> {
    Set::new(|c: ChunkIndex| in_window(center, distance, c))
}

/// Whether `events` request exactly the changes from the chunks `before` to the chunks
/// `after`: every chunk of `before` not in `after` is requested to be unloaded, every
/// chunk of `after` not in `before` to be loaded, each once and nothing else, and all
/// unloads come before all loads.
pub open spec fn requests_change(before: Set<ChunkIndex>, after: Set<ChunkIndex>, events: Seq<ChunkEvent>) -> bool {
    &&& events.no_duplicates()
    &&& forall|i: int| 0 <= i < events.len() ==> match #[trigger] events[i] {
        ChunkEvent::RequestingUnload(c) => before.contains(c) && !after.contains(c),
        ChunkEvent::RequestingLoad(c) => after.contains(c) && !before.contains(c),
        _ => false,
    }
    &&& forall|c: ChunkIndex| before.contains(c) && !after.contains(c) ==>
        #[trigger] events.contains(ChunkEvent::RequestingUnload(c))
    &&& forall|c: ChunkIndex| after.contains(c) && !before.contains(c) ==>
        #[trigger] events.contains(ChunkEvent::RequestingLoad(c))
    &&& forall|i: int, j: int| 0 <= i < j < events.len() && (#[trigger] events[j] is RequestingUnload)
        ==> #[trigger] events[i] is RequestingUnload
}

/// How tracking the player's tile within its current chunk went.
#[derive(PartialEq, Eq, Structural, Copy, Clone, Debug)]
pub enum TileTracking {
    /// The player is still on its chunk; its tile was updated.
    SameChunk,
    /// The player left its chunk; its new chunk has to be found.
    LeftChunk,
    /// Any other problem; the position was left as it was.
    Failed(GameWorldError),
}

/// Whether `v` holds chunk `c`.
fn contains_chunk(v: &Vec<ChunkIndex>, c: ChunkIndex) -> (r: bool)
    ensures
        r == v@.contains(c),
{
    let mut i: usize = 0;
    while i < v.len()
        invariant
            i <= v@.len(),
            forall|j: int| 0 <= j < i ==> v@[j] != c,
        decreases v@.len() - i,
    {
        if v[i] == c {
            return true;
        }
        i = i + 1;
    }
    false
}

/// Calculates the player's position expressed in chunk and tile index, and keeps the
/// window of chunks around the player loaded by requesting chunk loads and unloads.
pub struct PlayerPositionSystem {
    prev_chunks: Vec<ChunkIndex>,
    cur_chunks: Vec<ChunkIndex>,
}

impl PlayerPositionSystem {
    /// The chunks currently requested to be loaded.
    pub closed spec fn loaded(&self) -> Set<ChunkIndex> {
        self.prev_chunks@.to_set()
    }

    /// The system is well formed: no chunk is held twice, and the scratch set is empty.
    pub closed spec fn wf(&self) -> bool {
        &&& self.prev_chunks@.no_duplicates()
        &&& self.cur_chunks@.len() == 0
    }

    /// Updates the player's tile from its tile cell in its current chunk.
    /// A tile outside the chunk means the player left it.
    pub fn track_tile(position: &mut Position, planet: &Planet, column: Option<u64>, row: Option<u64>) -> (r: TileTracking)
        ensures
            match tile_from_cells(planet.chunk_dims(), column, row) {
                Ok(t) => r == TileTracking::SameChunk
                    && *final(position) == (Position { chunk: old(position).chunk, tile: t }),
                Err(GameWorldError::TileProblem(TileError::IndexOutOfBounds)) =>
                    r == TileTracking::LeftChunk && *final(position) == *old(position),
                Err(e) => r == TileTracking::Failed(e) && *final(position) == *old(position),
            },
    {
        match TileIndex::from_cells(planet, column, row) {
            Ok(tile_index) => {
                position.tile = tile_index;
                TileTracking::SameChunk
            },
            Err(e) => match e {
                GameWorldError::TileProblem(TileError::IndexOutOfBounds) => TileTracking::LeftChunk,
                _ => TileTracking::Failed(e),
            },
        }
    }

    /// The player entered chunk `chunk_index`, on the tile given by its tile cell in that
    /// chunk. Updates the position, makes the window of `render_distance` chunks around
    /// the new chunk the loaded set, and returns the requests that change the previously
    /// loaded set into it. If the tile cell lies outside the chunk, nothing changes.
    pub fn enter_chunk(
        &mut self,
        position: &mut Position,
        planet: &Planet,
        chunk_index: ChunkIndex,
        column: Option<u64>,
        row: Option<u64>,
        render_distance: u64,
    ) -> (r: Result<Vec<ChunkEvent>, GameWorldError>)
        requires
            old(self).wf(),
        ensures
            final(self).wf(),
            match tile_from_cells(planet.chunk_dims(), column, row) {
                Err(e) => r == Err::<Vec<ChunkEvent>, GameWorldError>(e)
                    && *final(position) == *old(position)
                    && final(self).loaded() == old(self).loaded(),
                Ok(t) => r matches Ok(events)
                    && *final(position) == (Position { chunk: chunk_index, tile: t })
                    && final(self).loaded() == window_set(chunk_index, render_distance)
                    && requests_change(old(self).loaded(), window_set(chunk_index, render_distance), events@),
            },
    {
        let tile_index = match TileIndex::from_cells(planet, column, row) {
            Ok(t) => t,
            Err(e) => {
                return Err(e);
            },
        };
        position.tile = tile_index;
        position.chunk = chunk_index;

        // The window, cut off at the lowest and highest representable index.
        let lower_y = if chunk_index.0 >= render_distance { chunk_index.0 - render_distance } else { 0 };
        let lower_x = if chunk_index.1 >= render_distance { chunk_index.1 - render_distance } else { 0 };
        let upper_y = match chunk_index.0.checked_add(render_distance) {
            Some(buff) => buff,
            None => u64::MAX,
        };
        let upper_x = match chunk_index.1.checked_add(render_distance) {
            Some(buff) => buff,
            None => u64::MAX,
        };
        let ghost window = window_set(chunk_index, render_distance);

        // Populating the current chunk set.
        let mut y: u128 = lower_y as u128;
        while y <= upper_y as u128
            invariant
                lower_y == window_lower(chunk_index.0, render_distance),
                lower_x == window_lower(chunk_index.1, render_distance),
                upper_y == window_upper(chunk_index.0, render_distance),
                upper_x == window_upper(chunk_index.1, render_distance),
                lower_y <= y <= upper_y as u128 + 1,
                self.cur_chunks@.no_duplicates(),
                forall|i: int| 0 <= i < self.cur_chunks@.len() ==> {
                    let c = #[trigger] self.cur_chunks@[i];
                    lower_y <= c.0 < y && lower_x <= c.1 <= upper_x
                },
                forall|c: ChunkIndex| lower_y <= c.0 < y && lower_x <= c.1 <= upper_x ==>
                    #[trigger] self.cur_chunks@.contains(c),
                self.prev_chunks == old(self).prev_chunks,
            decreases upper_y as u128 + 1 - y,
        {
            let mut x: u128 = lower_x as u128;
            while x <= upper_x as u128
                invariant
                    lower_y <= y <= upper_y,
                    lower_x <= x <= upper_x as u128 + 1,
                    self.cur_chunks@.no_duplicates(),
                    forall|i: int| 0 <= i < self.cur_chunks@.len() ==> {
                        let c = #[trigger] self.cur_chunks@[i];
                        (lower_y <= c.0 < y && lower_x <= c.1 <= upper_x)
                            || (c.0 == y && lower_x <= c.1 < x)
                    },
                    forall|c: ChunkIndex| (lower_y <= c.0 < y && lower_x <= c.1 <= upper_x)
                        || (c.0 == y && lower_x <= c.1 < x) ==> #[trigger] self.cur_chunks@.contains(c),
                    self.prev_chunks == old(self).prev_chunks,
                decreases upper_x as u128 + 1 - x,
            {
                let chunk_id = ChunkIndex(y as u64, x as u64);
                let ghost before = self.cur_chunks@;
                assert(!before.contains(chunk_id));
                self.cur_chunks.push(chunk_id);
                assert forall|c: ChunkIndex| (lower_y <= c.0 < y && lower_x <= c.1 <= upper_x)
                    || (c.0 == y && lower_x <= c.1 < x + 1) implies #[trigger] self.cur_chunks@.contains(c) by {
                    if c == chunk_id {
                        assert(self.cur_chunks@[before.len() as int] == c);
                    } else {
                        assert(before.contains(c));
                        let k = choose|k: int| 0 <= k < before.len() && before[k] == c;
                        assert(self.cur_chunks@[k] == c);
                    }
                }
                x = x + 1;
            }
            y = y + 1;
        }
        assert forall|c: ChunkIndex| #[trigger] self.cur_chunks@.contains(c) <==> window.contains(c) by {
            if self.cur_chunks@.contains(c) {
                let k = choose|k: int| 0 <= k < self.cur_chunks@.len() && self.cur_chunks@[k] == c;
            }
        }

        // Comparing the current and previous sets: unload what is no longer in the
        // window, then load what is new in it.
        let mut events: Vec<ChunkEvent> = Vec::new();
        let mut i: usize = 0;
        while i < self.prev_chunks.len()
            invariant
                i <= self.prev_chunks@.len(),
                self.prev_chunks == old(self).prev_chunks,
                self.prev_chunks@.no_duplicates(),
                forall|c: ChunkIndex| #[trigger] self.cur_chunks@.contains(c) <==> window.contains(c),
                events@.no_duplicates(),
                forall|j: int| 0 <= j < events@.len() ==> (#[trigger] events@[j] is RequestingUnload)
                    && self.prev_chunks@.subrange(0, i as int).contains(events@[j]->RequestingUnload_0)
                    && !window.contains(events@[j]->RequestingUnload_0),
                forall|k: int| 0 <= k < i && !window.contains(self.prev_chunks@[k]) ==>
                    events@.contains(ChunkEvent::RequestingUnload(#[trigger] self.prev_chunks@[k])),
            decreases self.prev_chunks@.len() - i,
        {
            let index = self.prev_chunks[i];
            let ghost before = events@;
            if !contains_chunk(&self.cur_chunks, index) {
                assert(!before.contains(ChunkEvent::RequestingUnload(index))) by {
                    if before.contains(ChunkEvent::RequestingUnload(index)) {
                        let j = choose|j: int| 0 <= j < before.len() && before[j] == ChunkEvent::RequestingUnload(index);
                        let k = choose|k: int| 0 <= k < i && self.prev_chunks@.subrange(0, i as int)[k] == index;
                        assert(self.prev_chunks@[k] == self.prev_chunks@[i as int]);
                    }
                }
                events.push(ChunkEvent::RequestingUnload(index));
            }
            assert forall|j: int| 0 <= j < events@.len() implies (#[trigger] events@[j] is RequestingUnload)
                && self.prev_chunks@.subrange(0, i + 1).contains(events@[j]->RequestingUnload_0)
                && !window.contains(events@[j]->RequestingUnload_0) by {
                if j < before.len() {
                    let t = events@[j]->RequestingUnload_0;
                    let k = choose|k: int| 0 <= k < i && self.prev_chunks@.subrange(0, i as int)[k] == t;
                    assert(self.prev_chunks@.subrange(0, i + 1)[k] == t);
                } else {
                    assert(self.prev_chunks@.subrange(0, i + 1)[i as int] == index);
                }
            }
            assert forall|k: int| 0 <= k < i + 1 && !window.contains(self.prev_chunks@[k]) implies
                events@.contains(ChunkEvent::RequestingUnload(#[trigger] self.prev_chunks@[k])) by {
                if k < i {
                    let e = ChunkEvent::RequestingUnload(self.prev_chunks@[k]);
                    let j = choose|j: int| 0 <= j < before.len() && before[j] == e;
                    assert(events@[j] == e);
                } else {
                    assert(events@[events@.len() - 1] == ChunkEvent::RequestingUnload(index));
                }
            }
            i = i + 1;
        }
        let ghost unloads = events@;
        assert(self.prev_chunks@.subrange(0, self.prev_chunks@.len() as int) =~= self.prev_chunks@);
        let mut n: usize = 0;
        while n < self.cur_chunks.len()
            invariant
                n <= self.cur_chunks@.len(),
                self.prev_chunks == old(self).prev_chunks,
                self.cur_chunks@.no_duplicates(),
                forall|c: ChunkIndex| #[trigger] self.cur_chunks@.contains(c) <==> window.contains(c),
                events@.no_duplicates(),
                unloads.len() <= events@.len(),
                forall|j: int| 0 <= j < unloads.len() ==> events@[j] == #[trigger] unloads[j],
                forall|j: int| 0 <= j < unloads.len() ==> (#[trigger] unloads[j] is RequestingUnload)
                    && self.prev_chunks@.contains(unloads[j]->RequestingUnload_0)
                    && !window.contains(unloads[j]->RequestingUnload_0),
                forall|j: int| unloads.len() <= j < events@.len() ==> (#[trigger] events@[j] is RequestingLoad)
                    && self.cur_chunks@.subrange(0, n as int).contains(events@[j]->RequestingLoad_0)
                    && !self.prev_chunks@.contains(events@[j]->RequestingLoad_0),
                forall|k: int| 0 <= k < n && !self.prev_chunks@.contains(self.cur_chunks@[k]) ==>
                    events@.contains(ChunkEvent::RequestingLoad(#[trigger] self.cur_chunks@[k])),
            decreases self.cur_chunks@.len() - n,
        {
            let index = self.cur_chunks[n];
            let ghost before = events@;
            if !contains_chunk(&self.prev_chunks, index) {
                assert(!before.contains(ChunkEvent::RequestingLoad(index))) by {
                    if before.contains(ChunkEvent::RequestingLoad(index)) {
                        let j = choose|j: int| 0 <= j < before.len() && before[j] == ChunkEvent::RequestingLoad(index);
                        if j < unloads.len() {
                            assert(unloads[j] is RequestingUnload);
                        } else {
                            let k = choose|k: int| 0 <= k < n && self.cur_chunks@.subrange(0, n as int)[k] == index;
                            assert(self.cur_chunks@[k] == self.cur_chunks@[n as int]);
                        }
                    }
                }
                events.push(ChunkEvent::RequestingLoad(index));
            }
            assert forall|j: int| unloads.len() <= j < events@.len() implies (#[trigger] events@[j] is RequestingLoad)
                && self.cur_chunks@.subrange(0, n + 1).contains(events@[j]->RequestingLoad_0)
                && !self.prev_chunks@.contains(events@[j]->RequestingLoad_0) by {
                if j < before.len() {
                    let t = events@[j]->RequestingLoad_0;
                    let k = choose|k: int| 0 <= k < n && self.cur_chunks@.subrange(0, n as int)[k] == t;
                    assert(self.cur_chunks@.subrange(0, n + 1)[k] == t);
                } else {
                    assert(self.cur_chunks@.subrange(0, n + 1)[n as int] == index);
                }
            }
            assert forall|k: int| 0 <= k < n + 1 && !self.prev_chunks@.contains(self.cur_chunks@[k]) implies
                events@.contains(ChunkEvent::RequestingLoad(#[trigger] self.cur_chunks@[k])) by {
                if k < n {
                    let e = ChunkEvent::RequestingLoad(self.cur_chunks@[k]);
                    let j = choose|j: int| 0 <= j < before.len() && before[j] == e;
                    assert(events@[j] == e);
                } else {
                    assert(events@[events@.len() - 1] == ChunkEvent::RequestingLoad(index));
                }
            }
            n = n + 1;
        }

        proof {
            let before = old(self).loaded();
            let ev = events@;
            assert forall|j: int| 0 <= j < ev.len() implies match #[trigger] ev[j] {
                ChunkEvent::RequestingUnload(c) => before.contains(c) && !window.contains(c),
                ChunkEvent::RequestingLoad(c) => window.contains(c) && !before.contains(c),
                _ => false,
            } by {
                if j < unloads.len() {
                    assert(unloads[j] is RequestingUnload);
                } else {
                    let t = ev[j]->RequestingLoad_0;
                    let k = choose|k: int| 0 <= k < self.cur_chunks@.len()
                        && self.cur_chunks@.subrange(0, self.cur_chunks@.len() as int)[k] == t;
                    assert(self.cur_chunks@[k] == t);
                    assert(self.cur_chunks@.contains(t));
                }
            }
            assert forall|c: ChunkIndex| before.contains(c) && !window.contains(c) implies
                #[trigger] ev.contains(ChunkEvent::RequestingUnload(c)) by {
                let k = choose|k: int| 0 <= k < self.prev_chunks@.len() && self.prev_chunks@[k] == c;
            }
            assert forall|c: ChunkIndex| window.contains(c) && !before.contains(c) implies
                #[trigger] ev.contains(ChunkEvent::RequestingLoad(c)) by {
                assert(self.cur_chunks@.contains(c));
                let k = choose|k: int| 0 <= k < self.cur_chunks@.len() && self.cur_chunks@[k] == c;
            }
            assert forall|i: int, j: int| 0 <= i < j < ev.len() && (#[trigger] ev[j] is RequestingUnload)
                implies #[trigger] ev[i] is RequestingUnload by {
                if j >= unloads.len() {
                    assert(ev[j] is RequestingLoad);
                } else {
                    assert(ev[i] == unloads[i]);
                    assert(unloads[i] is RequestingUnload);
                }
            }
        }

        // The current set becomes the previous one; the scratch set is emptied.
        let mut cur: Vec<ChunkIndex> = Vec::new();
        std::mem::swap(&mut cur, &mut self.cur_chunks);
        self.prev_chunks = cur;
        proof {
            assert(self.prev_chunks@.to_set() =~= window);
        }
        Ok(events)
    }
}

impl Default for PlayerPositionSystem {
    /// A system that has not requested any chunk yet.
    fn default() -> (r: Self)
        ensures
            r.wf(),
            r.loaded() == Set::<ChunkIndex>::empty(),
    {
        let r = PlayerPositionSystem { prev_chunks: Vec::new(), cur_chunks: Vec::new() };
        proof {
            assert(r.prev_chunks@.to_set() =~= Set::<ChunkIndex>::empty());
        }
        r
    }
}

/// Entering the same chunk again, with the same render distance, requests nothing.
pub proof fn lemma_reentering_requests_nothing(
    loaded: Set<ChunkIndex>,
    center: ChunkIndex,
    render_distance: u64,
    events: Seq<ChunkEvent>,
)
    requires
        loaded == window_set(center, render_distance),
        requests_change(loaded, window_set(center, render_distance), events),
    ensures
        events.len() == 0,
{
    if events.len() > 0 {
        let e = events[0];
    }
}


/// The chunks whose loading `events` request, in order.
pub open spec fn load_requests(events: Seq<ChunkEvent>) -> Seq<ChunkIndex>
    decreases events.len(),
{
    if events.len() == 0 {
        Seq::empty()
    } else {
        let rest = load_requests(events.drop_last());
        match events.last() {
            ChunkEvent::RequestingLoad(c) => rest.push(c),
            _ => rest,
        }
    }
}

/// The chunks whose unloading `events` request, in order.
pub open spec fn unload_requests(events: Seq<ChunkEvent>) -> Seq<ChunkIndex>
    decreases events.len(),
{
    if events.len() == 0 {
        Seq::empty()
    } else {
        let rest = unload_requests(events.drop_last());
        match events.last() {
            ChunkEvent::RequestingUnload(c) => rest.push(c),
            _ => rest,
        }
    }
}

/// Every queued unload comes from a request to unload that chunk, and events that are not
/// requests to unload queue none: without such requests nothing is queued to unload, and
/// each request adds exactly one unload. Likewise for loads.
pub proof fn lemma_requests_come_from_events(events: Seq<ChunkEvent>)
    ensures
        forall|i: int| 0 <= i < unload_requests(events).len() ==>
            events.contains(ChunkEvent::RequestingUnload(#[trigger] unload_requests(events)[i])),
        forall|i: int| 0 <= i < load_requests(events).len() ==>
            events.contains(ChunkEvent::RequestingLoad(#[trigger] load_requests(events)[i])),
        (forall|i: int| 0 <= i < events.len() ==> !(#[trigger] events[i] is RequestingUnload))
            ==> unload_requests(events).len() == 0,
        (forall|i: int| 0 <= i < events.len() ==> !(#[trigger] events[i] is RequestingLoad))
            ==> load_requests(events).len() == 0,
        unload_requests(events).len() <= events.len(),
        load_requests(events).len() <= events.len(),
    decreases events.len(),
{
    if events.len() > 0 {
        let rest = events.drop_last();
        lemma_requests_come_from_events(rest);
        assert forall|i: int| 0 <= i < rest.len() implies events.contains(#[trigger] rest[i]) by {
            assert(events[i] == rest[i]);
        }
        assert(events.contains(events.last())) by {
            assert(events[events.len() - 1] == events.last());
        }
        if forall|i: int| 0 <= i < events.len() ==> !(#[trigger] events[i] is RequestingUnload) {
            assert forall|i: int| 0 <= i < rest.len() implies !(#[trigger] rest[i] is RequestingUnload) by {
                assert(rest[i] == events[i]);
            }
            assert(!(events[events.len() - 1] is RequestingUnload));
        }
        if forall|i: int| 0 <= i < events.len() ==> !(#[trigger] events[i] is RequestingLoad) {
            assert forall|i: int| 0 <= i < rest.len() implies !(#[trigger] rest[i] is RequestingLoad) by {
                assert(rest[i] == events[i]);
            }
            assert(!(events[events.len() - 1] is RequestingLoad));
        }
    }
}

/// Appending an event that is not a request to unload leaves the queued unloads as they
/// are, and appending a request to unload chunk `c` queues `c` last; likewise for loads.
pub proof fn lemma_one_more_event(events: Seq<ChunkEvent>, e: ChunkEvent)
    ensures
        e matches ChunkEvent::RequestingUnload(c)
            ==> unload_requests(events.push(e)) == unload_requests(events).push(c),
        !(e is RequestingUnload) ==> unload_requests(events.push(e)) == unload_requests(events),
        e matches ChunkEvent::RequestingLoad(c)
            ==> load_requests(events.push(e)) == load_requests(events).push(c),
        !(e is RequestingLoad) ==> load_requests(events.push(e)) == load_requests(events),
{
    assert(events.push(e).drop_last() =~= events);
}

/// Collects the chunk load and unload requests sent by other systems, so that the
/// requested chunks can be saved, removed, loaded or generated.
pub struct HotChunkSystem {
    chunks_to_load: Vec<ChunkIndex>,
    chunks_to_unload: Vec<ChunkIndex>,
}

impl HotChunkSystem {
    /// The chunks waiting to be loaded, in the order they were requested.
    pub closed spec fn pending_loads(&self) -> Seq<ChunkIndex> {
        self.chunks_to_load@
    }

    /// The chunks waiting to be unloaded, in the order they were requested.
    pub closed spec fn pending_unloads(&self) -> Seq<ChunkIndex> {
        self.chunks_to_unload@
    }

    /// A system with nothing to do.
    pub fn new() -> (r: Self)
        ensures
            r.pending_loads() == Seq::<ChunkIndex>::empty(),
            r.pending_unloads() == Seq::<ChunkIndex>::empty(),
    {
        HotChunkSystem { chunks_to_load: Vec::new(), chunks_to_unload: Vec::new() }
    }

    /// Queues the load and unload requests among `events`; other events are ignored.
    pub fn queue_events(&mut self, events: &Vec<ChunkEvent>)
        ensures
            final(self).pending_loads() == old(self).pending_loads() + load_requests(events@),
            final(self).pending_unloads() == old(self).pending_unloads() + unload_requests(events@),
    {
        let mut i: usize = 0;
        while i < events.len()
            invariant
                i <= events@.len(),
                self.chunks_to_load@ == old(self).chunks_to_load@ + load_requests(events@.subrange(0, i as int)),
                self.chunks_to_unload@ == old(self).chunks_to_unload@ + unload_requests(events@.subrange(0, i as int)),
            decreases events@.len() - i,
        {
            let event = events[i];
            proof {
                assert(events@.subrange(0, i + 1).drop_last() =~= events@.subrange(0, i as int));
                assert(events@.subrange(0, i + 1).last() == event);
            }
            match event {
                ChunkEvent::RequestingLoad(chunk_index) => {
                    self.chunks_to_load.push(chunk_index);
                },
                ChunkEvent::RequestingUnload(chunk_index) => {
                    self.chunks_to_unload.push(chunk_index);
                },
                _ => {},
            }
            proof {
                assert(self.chunks_to_load@ =~= old(self).chunks_to_load@ + load_requests(events@.subrange(0, i + 1)));
                assert(self.chunks_to_unload@ =~= old(self).chunks_to_unload@ + unload_requests(events@.subrange(0, i + 1)));
            }
            i = i + 1;
        }
        proof {
            assert(events@.subrange(0, events@.len() as int) =~= events@);
        }
    }

    /// Takes all queued work: the chunks to unload, then the chunks to load,
    /// each in the order requested. Leaves nothing queued.
    pub fn take_work(&mut self) -> (r: (Vec<ChunkIndex>, Vec<ChunkIndex>))
        ensures
            r.0@ == old(self).pending_unloads(),
            r.1@ == old(self).pending_loads(),
            final(self).pending_loads() == Seq::<ChunkIndex>::empty(),
            final(self).pending_unloads() == Seq::<ChunkIndex>::empty(),
    {
        let mut unloads: Vec<ChunkIndex> = Vec::new();
        let mut loads: Vec<ChunkIndex> = Vec::new();
        std::mem::swap(&mut unloads, &mut self.chunks_to_unload);
        std::mem::swap(&mut loads, &mut self.chunks_to_load);
        (unloads, loads)
    }
}

/// A system that reports every hundred and first update of the main dispatcher.
#[derive(Default)]
pub struct DummySystem {
    pub counter: u64,
}

impl DummySystem {
    /// Counts an update. Reports (returns `true`) when more than a hundred updates were
    /// counted since the last report, and then starts counting anew.
    pub fn tick(&mut self) -> (report: bool)
        ensures
            report == (old(self).counter > 100),
            final(self).counter == if report { 1 } else { old(self).counter + 1 },
    {
        let report = self.counter > 100;
        if report {
            self.counter = 0;
        }
        self.counter = self.counter + 1;
        report
    }
}

/// A system that reports every hundred and thirty-first update of the shadow dispatcher.
#[derive(Default)]
pub struct ShadowDummySystem {
    pub counter: u64,
}

impl ShadowDummySystem {
    /// Counts an update. Reports (returns `true`) when more than a hundred and thirty
    /// updates were counted since the last report, and then starts counting anew.
    pub fn tick(&mut self) -> (report: bool)
        ensures
            report == (old(self).counter > 130),
            final(self).counter == if report { 1 } else { old(self).counter + 1 },
    {
        let report = self.counter > 130;
        if report {
            self.counter = 0;
        }
        self.counter = self.counter + 1;
        report
    }
}

/// After every update the main dispatcher's update counter lies between one and a
/// hundred and one, whatever it held before.
pub proof fn lemma_dummy_counter_bounded(before: u64, after: u64, report: bool)
    requires
        report == (before > 100),
        after == if report { 1 } else { before + 1 },
    ensures
        1 <= after <= 101,
{
}

/// Marks all entities of a running game for deletion when it closes.
#[derive(Default)]
pub struct CleanupOnCloseSystem;

/// Turns the player's engine input into force, burning fuel.
#[derive(Default)]
pub struct EngineForceSystem;

/// Makes the camera follow the player.
#[derive(Default)]
pub struct FollowCameraSystem;

/// Resets the forces acting on physical bodies before each update.
#[derive(Default)]
pub struct GravitationSystem;

/// Moves physical bodies by the forces acting on them.
#[derive(Default)]
pub struct MovementSystem;

} // verus!
