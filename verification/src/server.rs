use vstd::prelude::*;
use crate::consts::CHUNK_VOLUME;
use crate::types::block::Block;
use crate::types::chunk::{ChunkData, ChunkMap, ChunkPosition};

verus! {

/// What the cache knows of one position.
pub enum EntryState {
    /// The chunk is being generated; `subscribers` wait for it, in the order they asked.
    Generating { subscribers: Seq<u64> },
    /// The chunk is generated and kept.
    Ready { blocks: Seq<Block> },
}

/// What the server is to do for a request, as plain values.
pub enum OutcomeView {
    StartGeneration,
    Subscribed,
    AlreadySubscribed,
    Cached { blocks: Seq<Block> },
}

/// What the server is to do for a request.
pub enum RequestOutcome {
    /// The position was not known. It is now being generated for the requester: the caller
    /// starts the one generation job for it.
    StartGeneration,
    /// The chunk is being generated, and the requester now waits for it too.
    Subscribed,
    /// The chunk is being generated, and the requester waited for it already.
    AlreadySubscribed,
    /// The chunk is ready. The caller serializes this copy of it for the requester; the
    /// cached chunk is not touched.
    Cached(ChunkData),
}

impl View for RequestOutcome {
    type V = OutcomeView;

    open spec fn view(&self) -> OutcomeView {
        match self {
            RequestOutcome::StartGeneration => OutcomeView::StartGeneration,
            RequestOutcome::Subscribed => OutcomeView::Subscribed,
            RequestOutcome::AlreadySubscribed => OutcomeView::AlreadySubscribed,
            RequestOutcome::Cached(chunk) => OutcomeView::Cached { blocks: chunk@ },
        }
    }
}

/// What holds of every entry: somebody waits for a chunk that is being generated, nobody
/// waits twice, and a chunk that is kept is whole.
pub open spec fn entry_wf(entry: EntryState) -> bool {
    match entry {
        EntryState::Generating { subscribers } => subscribers.len() > 0
            && subscribers.no_duplicates(),
        EntryState::Ready { blocks } => blocks.len() == CHUNK_VOLUME as nat,
    }
}

/// What holds of every cache: see [`entry_wf`].
pub open spec fn cache_wf(cache: Map<ChunkPosition, EntryState>) -> bool {
    forall|pos: ChunkPosition| #[trigger] cache.contains_key(pos) ==> entry_wf(cache[pos])
}

/// What a request for `pos` by `requester` makes of the cache, and what is to be done for it.
pub open spec fn request_step(
    cache: Map<ChunkPosition, EntryState>,
    pos: ChunkPosition,
    requester: u64,
) -> (Map<ChunkPosition, EntryState>, OutcomeView) {
    if !cache.contains_key(pos) {
        (
            cache.insert(pos, EntryState::Generating { subscribers: seq![requester] }),
            OutcomeView::StartGeneration,
        )
    } else {
        match cache[pos] {
            EntryState::Generating { subscribers } => if subscribers.contains(requester) {
                (cache, OutcomeView::AlreadySubscribed)
            } else {
                (
                    cache.insert(
                        pos,
                        EntryState::Generating { subscribers: subscribers.push(requester) },
                    ),
                    OutcomeView::Subscribed,
                )
            },
            EntryState::Ready { blocks } => (cache, OutcomeView::Cached { blocks }),
        }
    }
}

/// What the end of the generation of `pos` makes of the cache, and who is to get the chunk:
/// the subscribers, if the chunk was being generated; otherwise nothing changes and nobody.
pub open spec fn completion_step(
    cache: Map<ChunkPosition, EntryState>,
    pos: ChunkPosition,
    blocks: Seq<Block>,
) -> (Map<ChunkPosition, EntryState>, Option<Seq<u64>>) {
    if cache.contains_key(pos) && cache[pos] is Generating {
        (cache.insert(pos, EntryState::Ready { blocks }), Some(cache[pos]->subscribers))
    } else {
        (cache, None)
    }
}

/// The cache after the requesters `requesters` have asked for `pos`, one after another.
pub open spec fn after_requests(
    cache: Map<ChunkPosition, EntryState>,
    pos: ChunkPosition,
    requesters: Seq<u64>,
) -> Map<ChunkPosition, EntryState>
    decreases requesters.len(),
{
    if requesters.len() == 0 {
        cache
    } else {
        request_step(after_requests(cache, pos, requesters.drop_last()), pos, requesters.last()).0
    }
}

/// What is to be done for the request number `i` of `requesters`, who ask for `pos` one
/// after another.
pub open spec fn outcome_of_request(
    cache: Map<ChunkPosition, EntryState>,
    pos: ChunkPosition,
    requesters: Seq<u64>,
    i: int,
) -> OutcomeView {
    request_step(after_requests(cache, pos, requesters.take(i)), pos, requesters[i]).1
}

enum CacheEntry {
    Generating { subscribers: Vec<u64> },
    Ready { data: ChunkData },
}

struct CacheSlot {
    position: ChunkPosition,
    entry: CacheEntry,
}

spec fn entry_state(entry: CacheEntry) -> EntryState {
    match entry {
        CacheEntry::Generating { subscribers } => EntryState::Generating {
            subscribers: subscribers@,
        },
        CacheEntry::Ready { data } => EntryState::Ready { blocks: data@ },
    }
}

/// The chunks that the server has generated or is generating, by position.
pub struct ChunkCache {
    index: ChunkMap,
    slots: Vec<CacheSlot>,
}

impl View for ChunkCache {
    type V = Map<ChunkPosition, EntryState>;

    closed spec fn view(&self) -> Map<ChunkPosition, EntryState> {
        Map::new(
            |pos: ChunkPosition| self.index@.contains_key(pos),
            |pos: ChunkPosition| entry_state(self.slots@[self.index@[pos] as int].entry),
        )
    }
}

/// Whether `id` is among `ids`.
fn contains_id(ids: &Vec<u64>, id: u64) -> (found: bool)
    ensures
        found == ids@.contains(id),
{
    let mut i: usize = 0;
    while i < ids.len()
        invariant
            i <= ids@.len(),
            forall|k: int| 0 <= k < i as int ==> ids@[k] != id,
        decreases ids@.len() - i,
    {
        if ids[i] == id {
            return true;
        }
        i = i + 1;
    }
    false
}

impl ChunkCache {
    /// The index by position and the entries agree.
    pub closed spec fn linked(&self) -> bool {
        &&& forall|pos: ChunkPosition| #[trigger]
            self.index@.contains_key(pos) ==> {
                &&& self.index@[pos] < self.slots@.len()
                &&& self.slots@[self.index@[pos] as int].position == pos
            }
        &&& forall|i: int|
            0 <= i < self.slots@.len() ==> {
                &&& self.index@.contains_key((#[trigger] self.slots@[i]).position)
                &&& self.index@[self.slots@[i].position] == i
            }
    }

    pub open spec fn wf(&self) -> bool {
        &&& self.linked()
        &&& cache_wf(self@)
    }

    /// A cache that knows no position.
    pub fn new() -> (cache: Self)
        ensures
            cache.wf(),
            cache@ == Map::<ChunkPosition, EntryState>::empty(),
    {
        let cache = ChunkCache { index: ChunkMap::new(), slots: Vec::new() };
        cache
    }

    /// Takes a request of `requester` for the chunk at `pos` and says what is to be done
    /// for it. A position is generated at most once: only the first request for it gives
    /// [`RequestOutcome::StartGeneration`].
    pub fn request(&mut self, pos: ChunkPosition, requester: u64) -> (outcome: RequestOutcome)
        requires
            old(self).wf(),
        ensures
            final(self).wf(),
            final(self)@ == request_step(old(self)@, pos, requester).0,
            outcome@ == request_step(old(self)@, pos, requester).1,
            outcome matches RequestOutcome::Cached(chunk) ==> chunk.wf(),
    {
        let ghost before = self@;
        match self.index.get(pos) {
            None => {
                let slot_no = self.slots.len();
                let mut subscribers: Vec<u64> = Vec::new();
                subscribers.push(requester);
                self.slots.push(
                    CacheSlot { position: pos, entry: CacheEntry::Generating { subscribers } },
                );
                self.index.insert(pos, slot_no as u64);
                assert(self@ =~= request_step(before, pos, requester).0);
                RequestOutcome::StartGeneration
            },
            Some(slot_no) => {
                let count = self.slots.len();
                assert(slot_no < count);
                let i = slot_no as usize;
                match &mut self.slots[i].entry {
                    CacheEntry::Generating { subscribers } => {
                        if contains_id(subscribers, requester) {
                            RequestOutcome::AlreadySubscribed
                        } else {
                            subscribers.push(requester);
                            assert(self@ =~= request_step(before, pos, requester).0);
                            RequestOutcome::Subscribed
                        }
                    },
                    CacheEntry::Ready { data } => {
                        let copy = data.clone();
                        RequestOutcome::Cached(copy)
                    },
                }
            },
        }
    }

    /// Takes the chunk that was generated for `pos`. Where `pos` was being generated, the
    /// chunk is kept from now on and the subscribers are returned, in the order they asked:
    /// each of them is to get the chunk. Otherwise nothing changes and nothing is returned.
    pub fn complete_generation(&mut self, pos: ChunkPosition, data: ChunkData) -> (subscribers:
        Option<Vec<u64>>)
        requires
            old(self).wf(),
            data.wf(),
        ensures
            final(self).wf(),
            final(self)@ == completion_step(old(self)@, pos, data@).0,
            match subscribers {
                Some(ids) => completion_step(old(self)@, pos, data@).1 == Some(ids@),
                None => completion_step(old(self)@, pos, data@).1 is None,
            },
    {
        match self.index.get(pos) {
            None => None,
            Some(slot_no) => {
                let count = self.slots.len();
                assert(slot_no < count);
                let i = slot_no as usize;
                let generating = match &self.slots[i].entry {
                    CacheEntry::Generating { .. } => true,
                    CacheEntry::Ready { .. } => false,
                };
                if !generating {
                    return None;
                }
                let mut entry = CacheEntry::Ready { data };
                std::mem::swap(&mut self.slots[i].entry, &mut entry);
                match entry {
                    CacheEntry::Generating { subscribers } => Some(subscribers),
                    CacheEntry::Ready { .. } => None,
                }
            },
        }
    }

    /// The chunk kept for `pos`, if it is ready.
    pub fn cached(&self, pos: ChunkPosition) -> (chunk: Option<&ChunkData>)
        requires
            self.wf(),
        ensures
            match chunk {
                Some(data) => data.wf() && self@.contains_key(pos) && self@[pos]
                    == (EntryState::Ready { blocks: data@ }),
                None => !self@.contains_key(pos) || self@[pos] is Generating,
            },
    {
        match self.index.get(pos) {
            None => None,
            Some(slot_no) => {
                let count = self.slots.len();
                assert(slot_no < count);
                let i = slot_no as usize;
                assert(self@.contains_key(pos));
                match &self.slots[i].entry {
                    CacheEntry::Generating { .. } => None,
                    CacheEntry::Ready { data } => Some(data),
                }
            },
        }
    }

    /// Whether the chunk at `pos` is being generated.
    pub fn is_generating(&self, pos: ChunkPosition) -> (generating: bool)
        requires
            self.wf(),
        ensures
            generating == (self@.contains_key(pos) && self@[pos] is Generating),
    {
        match self.index.get(pos) {
            None => false,
            Some(slot_no) => {
                let count = self.slots.len();
                assert(slot_no < count);
                let i = slot_no as usize;
                match &self.slots[i].entry {
                    CacheEntry::Generating { .. } => true,
                    CacheEntry::Ready { .. } => false,
                }
            },
        }
    }
}

/// Hands one message to each subscriber. A single subscriber gets the message itself,
/// several get a copy each.
pub fn fan_out(subscribers: &Vec<u64>, message: Vec<u8>) -> (deliveries: Vec<(u64, Vec<u8>)>)
    ensures
        deliveries@.len() == subscribers@.len(),
        forall|i: int|
            0 <= i < subscribers@.len() ==> (#[trigger] deliveries@[i]).0 == subscribers@[i]
                && deliveries@[i].1@ == message@,
{
    let mut deliveries: Vec<(u64, Vec<u8>)> = Vec::with_capacity(subscribers.len());
    if subscribers.len() == 1 {
        deliveries.push((subscribers[0], message));
        return deliveries;
    }
    let mut i: usize = 0;
    while i < subscribers.len()
        invariant
            i <= subscribers@.len(),
            deliveries@.len() == i as nat,
            forall|k: int|
                0 <= k < i as int ==> (#[trigger] deliveries@[k]).0 == subscribers@[k]
                    && deliveries@[k].1@ == message@,
        decreases subscribers@.len() - i,
    {
        let copy = message.clone();
        deliveries.push((subscribers[i], copy));
        i = i + 1;
    }
    deliveries
}

/// A request for a chunk that is ready starts no generation and changes nothing: the
/// requester is served from the cache.
pub proof fn lemma_ready_is_served_from_cache(
    cache: Map<ChunkPosition, EntryState>,
    pos: ChunkPosition,
    requester: u64,
)
    requires
        cache.contains_key(pos),
        cache[pos] is Ready,
    ensures
        request_step(cache, pos, requester).0 == cache,
        request_step(cache, pos, requester).1 == (OutcomeView::Cached {
            blocks: cache[pos]->blocks,
        }),
{
}

/// A chunk becomes ready once: when generation ends for a position that is ready or not
/// known, nothing changes and nobody is served.
pub proof fn lemma_ready_once(
    cache: Map<ChunkPosition, EntryState>,
    pos: ChunkPosition,
    blocks: Seq<Block>,
    again: Seq<Block>,
)
    ensures
        completion_step(completion_step(cache, pos, blocks).0, pos, again).0 == completion_step(
            cache,
            pos,
            blocks,
        ).0,
        completion_step(completion_step(cache, pos, blocks).0, pos, again).1 is None,
{
}

/// Asking twice is asking once: the second request of the same requester for the same
/// position leaves the cache as the first left it and starts nothing, and who waits for a
/// chunk is served once when it is done.
pub proof fn lemma_request_is_idempotent(
    cache: Map<ChunkPosition, EntryState>,
    pos: ChunkPosition,
    requester: u64,
    blocks: Seq<Block>,
)
    requires
        cache_wf(cache),
    ensures
        ({
            let once = request_step(cache, pos, requester);
            let twice = request_step(once.0, pos, requester);
            &&& cache_wf(once.0)
            &&& twice.0 == once.0
            &&& !(twice.1 is StartGeneration)
            &&& !(twice.1 is Subscribed)
            &&& completion_step(twice.0, pos, blocks).1 matches Some(served)
                ==> served.no_duplicates() && served.contains(requester)
        }),
{
    let once = request_step(cache, pos, requester);
    if !cache.contains_key(pos) {
        assert(seq![requester][0] == requester);
    } else {
        match cache[pos] {
            EntryState::Generating { subscribers } => {
                if !subscribers.contains(requester) {
                    let longer = subscribers.push(requester);
                    assert(longer[subscribers.len() as int] == requester);
                }
            },
            EntryState::Ready { blocks } => {},
        }
    }
    assert(cache_wf(once.0)) by {
        assert forall|p: ChunkPosition| #[trigger] once.0.contains_key(p) implies entry_wf(
            once.0[p],
        ) by {
            if p != pos {
                assert(cache.contains_key(p));
            }
        }
    }
}

/// While a position is asked for again and again, one entry stands for it: all who asked
/// wait in it, each once, in the order of their first request.
pub proof fn lemma_after_requests(
    cache: Map<ChunkPosition, EntryState>,
    pos: ChunkPosition,
    requesters: Seq<u64>,
)
    requires
        !cache.contains_key(pos),
        requesters.len() > 0,
    ensures
        ({
            let after = after_requests(cache, pos, requesters);
            &&& after.contains_key(pos)
            &&& after.remove(pos) == cache
            &&& after[pos] matches EntryState::Generating { subscribers }
            &&& subscribers.len() > 0
            &&& subscribers.no_duplicates()
            &&& forall|r: u64| subscribers.contains(r) <==> requesters.contains(r)
            &&& requesters.no_duplicates() ==> subscribers == requesters
        }),
    decreases requesters.len(),
{
    let earlier = requesters.drop_last();
    let last = requesters.last();
    if earlier.len() == 0 {
        let subscribers = seq![last];
        assert(subscribers =~= requesters);
        assert forall|r: u64| subscribers.contains(r) <==> requesters.contains(r) by {}
    } else {
        lemma_after_requests(cache, pos, earlier);
        let before = after_requests(cache, pos, earlier);
        let waiting = before[pos]->subscribers;
        if waiting.contains(last) {
            assert forall|r: u64| waiting.contains(r) <==> requesters.contains(r) by {
                if requesters.contains(r) {
                    let i = choose|i: int| 0 <= i < requesters.len() && requesters[i] == r;
                    if i < earlier.len() {
                        assert(earlier[i] == r);
                    }
                }
            }
        } else {
            let subscribers = waiting.push(last);
            assert forall|r: u64| subscribers.contains(r) <==> requesters.contains(r) by {
                if subscribers.contains(r) {
                    let i = choose|i: int| 0 <= i < subscribers.len() && subscribers[i] == r;
                    if i < waiting.len() {
                        assert(waiting.contains(r));
                    } else {
                        assert(requesters[requesters.len() - 1] == r);
                    }
                }
                if requesters.contains(r) {
                    let i = choose|i: int| 0 <= i < requesters.len() && requesters[i] == r;
                    if i < earlier.len() {
                        assert(earlier[i] == r);
                        assert(earlier.contains(r));
                        let k = choose|k: int| 0 <= k < waiting.len() && waiting[k] == r;
                        assert(subscribers[k] == r);
                    } else {
                        assert(subscribers[waiting.len() as int] == r);
                    }
                }
            }
            if requesters.no_duplicates() {
                assert(subscribers =~= requesters);
            }
        }
    }
}

/// However many ask for a position that the cache does not know, one generation is started:
/// for the first of them. When it ends, everybody who asked is served, each once; so `n`
/// requesters get `n` responses.
pub proof fn lemma_one_generation_for_many_requests(
    cache: Map<ChunkPosition, EntryState>,
    pos: ChunkPosition,
    requesters: Seq<u64>,
    blocks: Seq<Block>,
)
    requires
        !cache.contains_key(pos),
        requesters.len() > 0,
    ensures
        forall|i: int|
            0 <= i < requesters.len() ==> (#[trigger] outcome_of_request(
                cache,
                pos,
                requesters,
                i,
            ) is StartGeneration <==> i == 0),
        ({
            let after = after_requests(cache, pos, requesters);
            &&& completion_step(after, pos, blocks).1 matches Some(served)
            &&& served.no_duplicates()
            &&& forall|r: u64| served.contains(r) <==> requesters.contains(r)
            &&& requesters.no_duplicates() ==> served == requesters
            &&& completion_step(after, pos, blocks).0 == cache.insert(
                pos,
                EntryState::Ready { blocks },
            )
        }),
{
    assert forall|i: int| 0 <= i < requesters.len() implies (#[trigger] outcome_of_request(
        cache,
        pos,
        requesters,
        i,
    ) is StartGeneration <==> i == 0) by {
        let earlier = requesters.take(i);
        if i == 0 {
            assert(after_requests(cache, pos, earlier) == cache);
        } else {
            lemma_after_requests(cache, pos, earlier);
        }
    }
    lemma_after_requests(cache, pos, requesters);
    let after = after_requests(cache, pos, requesters);
    assert(completion_step(after, pos, blocks).0 =~= cache.insert(
        pos,
        EntryState::Ready { blocks },
    )) by {
        assert(after.insert(pos, EntryState::Ready { blocks }) =~= after.remove(pos).insert(
            pos,
            EntryState::Ready { blocks },
        ));
    }
}

} // verus!
