use vstd::prelude::*;

verus! {

/// An immutable unit of captured protocol payload with its store-assigned id.
pub struct RawPacket {
    pub id: u64,
    pub payload: Vec<u8>,
}

impl RawPacket {
    pub open spec fn view(&self) -> (u64, Seq<u8>) {
        (self.id, self.payload@)
    }

    /// A copy of the packet, id and payload alike.
    pub fn duplicate(&self) -> (r: RawPacket)
        ensures
            r@ == self@,
    {
        let payload = self.payload.clone();
        proof {
            assert(payload@ =~= self.payload@);
        }
        RawPacket { id: self.id, payload }
    }
}

/// Failure to persist a packet.
#[derive(Debug, Clone, Copy, PartialEq, Eq, Structural)]
pub enum StoreError {
    /// Every id the store can hand out has been used.
    IdSpaceExhausted,
}

/// Append-only log of raw packets. The packet at position `i` has id `i + 1`:
/// ids start at 1 and are contiguous and strictly increasing.
pub struct PacketStore {
    packets: Vec<RawPacket>,
}

/// The packets of a log whose payloads are `payloads`, with an id greater
/// than `after`, ascending, at most `limit` of them.
pub open spec fn page_after(payloads: Seq<Seq<u8>>, after: int, limit: int) -> Seq<(u64, Seq<u8>)>
{
    let start = page_start(payloads.len() as int, after);
    Seq::new(
        (page_end(payloads.len() as int, after, limit) - start) as nat,
        |i: int| ((start + i + 1) as u64, payloads[start + i]),
    )
}

/// Position in a log of `len` packets of the first packet with id above `after`.
pub open spec fn page_start(len: int, after: int) -> int {
    if after < 0 { 0 } else if after > len { len } else { after }
}

/// Position just past the last packet of a page of at most `limit` packets.
pub open spec fn page_end(len: int, after: int, limit: int) -> int {
    let start = page_start(len, after);
    if start + limit > len { len } else { start + limit }
}

/// Reading the whole of a log from its beginning gives back every appended
/// packet, in append order, with ids 1, 2, ... and no gap.
pub proof fn full_read_in_order(payloads: Seq<Seq<u8>>)
    requires
        payloads.len() <= u64::MAX,
    ensures
        page_after(payloads, 0, payloads.len() as int).len() == payloads.len(),
        forall|i: int|
            0 <= i < payloads.len() ==> #[trigger] page_after(payloads, 0, payloads.len() as int)[i]
                == ((i + 1) as u64, payloads[i]),
        forall|i: int, j: int|
            0 <= i < j < payloads.len() ==> (#[trigger] page_after(payloads, 0, payloads.len() as int)[i]).0 + 1
                <= (#[trigger] page_after(payloads, 0, payloads.len() as int)[j]).0,
{
}

impl PacketStore {
    /// The payloads in the log, in id order: the payload with id `k` is at `k - 1`.
    pub closed spec fn view(&self) -> Seq<Seq<u8>> {
        Seq::new(self.packets@.len(), |i: int| self.packets@[i].payload@)
    }

    /// Each stored packet carries the id of its position.
    pub closed spec fn wf(&self) -> bool {
        &&& self.packets@.len() <= u64::MAX
        &&& forall|i: int| 0 <= i < self.packets@.len() ==> #[trigger] self.packets@[i].id == i + 1
    }

    /// Ids fit in `u64`.
    pub proof fn lemma_len_fits(&self)
        requires
            self.wf(),
        ensures
            self@.len() <= u64::MAX,
    {
    }

    /// An empty log.
    pub fn new() -> (r: PacketStore)
        ensures
            r.wf(),
            r@.len() == 0,
    {
        PacketStore { packets: Vec::new() }
    }

    /// The number of stored packets, which is also the id of the newest one.
    pub fn len(&self) -> (r: u64)
        requires
            self.wf(),
        ensures
            r == self@.len(),
    {
        self.packets.len() as u64
    }

    /// The id of the most recently appended packet; 0 for an empty log.
    pub fn head_id(&self) -> (r: u64)
        requires
            self.wf(),
        ensures
            r == self@.len(),
    {
        self.len()
    }

    /// Appends `payload` under the next id and returns that id.
    pub fn append(&mut self, payload: Vec<u8>) -> (r: Result<u64, StoreError>)
        requires
            old(self).wf(),
        ensures
            final(self).wf(),
            old(self)@.len() < u64::MAX ==> r == Ok::<u64, StoreError>((old(self)@.len() + 1) as u64)
                && final(self)@ == old(self)@.push(payload@),
            old(self)@.len() == u64::MAX ==> r == Err::<u64, StoreError>(StoreError::IdSpaceExhausted)
                && final(self)@ == old(self)@,
    {
        let n = self.packets.len() as u64;
        if n == u64::MAX {
            return Err(StoreError::IdSpaceExhausted);
        }
        let ghost before = self@;
        let id = n + 1;
        self.packets.push(RawPacket { id, payload });
        proof {
            assert(self@ =~= before.push(self.packets@[n as int].payload@));
        }
        Ok(id)
    }

    /// The packet with id `id`, if stored.
    pub fn get(&self, id: u64) -> (r: Option<RawPacket>)
        requires
            self.wf(),
        ensures
            1 <= id <= self@.len() ==> r is Some && r->Some_0@ == (id, self@[id - 1]),
            !(1 <= id <= self@.len()) ==> r is None,
    {
        if id == 0 || id > self.packets.len() as u64 {
            None
        } else {
            let p = self.packets[(id - 1) as usize].duplicate();
            Some(p)
        }
    }

    /// The packets with an id greater than `after`, ascending by id, at most
    /// `limit` of them. Empty when `after` is the head of the log.
    pub fn read_from(&self, after: u64, limit: usize) -> (r: Vec<RawPacket>)
        requires
            self.wf(),
        ensures
            r@.map_values(|p: RawPacket| p@) == page_after(self@, after as int, limit as int),
    {
        let n = self.packets.len();
        let start: usize = if after as u128 > n as u128 { n } else { after as usize };
        let end: usize = if limit > n - start { n } else { start + limit };
        let ghost page = page_after(self@, after as int, limit as int);
        let mut out: Vec<RawPacket> = Vec::new();
        let mut i: usize = start;
        while i < end
            invariant
                self.wf(),
                n == self.packets@.len(),
                start <= i <= end <= n,
                start == page_start(self@.len() as int, after as int),
                end == page_end(self@.len() as int, after as int, limit as int),
                page.len() == end - start,
                page == page_after(self@, after as int, limit as int),
                out@.len() == i - start,
                forall|j: int| 0 <= j < out@.len() ==> #[trigger] out@[j]@ == page[j],
            decreases end - i,
        {
            let p = self.packets[i].duplicate();
            proof {
                assert(self.packets@[i as int].id == i + 1);
                assert(self@[i as int] == self.packets@[i as int].payload@);
                let k: int = i - start;
                assert(page[k] == ((i + 1) as u64, self@[i as int]));
            }
            out.push(p);
            i = i + 1;
        }
        proof {
            assert(out@.map_values(|p: RawPacket| p@) =~= page);
        }
        out
    }
}

} // verus!
