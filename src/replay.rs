use vstd::prelude::*;
use crate::store::{PacketStore, RawPacket, page_after, page_start};
pub use crate::processor::{DecodeError, LoggedProcessor, PacketProcessor, ProcessCall};

verus! {

/// The packet on which a replay pass stopped, and why.
#[derive(Debug, PartialEq, Eq)]
pub struct ReplayFailure {
    pub packet_id: u64,
    pub error: DecodeError,
}

/// What a replay pass did.
#[derive(Debug, PartialEq, Eq)]
pub struct ReplayReport {
    /// The id of the last packet processed successfully; the starting cursor
    /// when none was.
    pub cursor: u64,
    /// The ids processed successfully, in the order they were processed.
    pub processed: Vec<u64>,
    /// Set when the processor rejected a packet and the pass was aborted.
    pub failure: Option<ReplayFailure>,
}

/// The `n` ids that follow `start`, ascending.
pub open spec fn ids_after(start: int, n: nat) -> Seq<u64> {
    Seq::new(n, |i: int| (start + i + 1) as u64)
}

pub open spec fn max_of(a: int, b: int) -> int {
    if a >= b { a } else { b }
}

/// The calls recorded in `after` beyond those already in `before`.
pub open spec fn calls_since(before: Seq<ProcessCall>, after: Seq<ProcessCall>) -> Seq<ProcessCall> {
    after.subrange(before.len() as int, after.len() as int)
}

/// `r` is what a replay pass from `start` over a log of `len` packets may
/// report: the packets after `start` were processed in id order, the cursor is
/// the last of them, and the pass stopped either at the head of the log or at
/// the packet right after the cursor.
pub open spec fn replay_outcome(len: nat, start: u64, r: ReplayReport) -> bool {
    &&& r.processed@ == ids_after(start as int, r.processed@.len())
    &&& r.cursor == start + r.processed@.len()
    &&& r.cursor <= max_of(start as int, len as int)
    &&& match r.failure {
        None => r.cursor == max_of(start as int, len as int),
        Some(f) => f.packet_id == r.cursor + 1 && f.packet_id <= len,
    }
}

/// How a replay pass from `start` over the payloads `log` used its processor,
/// whose record of calls went from `before` to `after`: it was handed the
/// packets after `start` one at a time, in id order, each with its stored
/// payload; it accepted every packet the report counts as processed; and when
/// the report names a failure, the last call was that packet and the
/// processor rejected it.
pub open spec fn replay_calls(
    log: Seq<Seq<u8>>,
    start: u64,
    r: ReplayReport,
    before: Seq<ProcessCall>,
    after: Seq<ProcessCall>,
) -> bool {
    let fed = calls_since(before, after);
    &&& before.len() <= after.len()
    &&& after.subrange(0, before.len() as int) == before
    &&& fed.len() == r.processed@.len() + if r.failure is Some { 1int } else { 0int }
    &&& forall|i: int| 0 <= i < fed.len() ==> (#[trigger] fed[i]).0 == ((start + i + 1) as u64, log[start + i])
    &&& forall|i: int| 0 <= i < r.processed@.len() ==> (#[trigger] fed[i]).1
    &&& r.failure is Some ==> !fed[fed.len() - 1].1 && fed[fed.len() - 1].0.0 == r.failure->Some_0.packet_id
}

/// Feeds the packets of `store` with an id above `start` to `processor`, in
/// ascending id order, reading pages of `page_size` packets. The cursor moves
/// to a packet's id only once `process` has accepted it; the first rejected
/// packet aborts the pass.
pub fn replay<P: PacketProcessor>(
    store: &PacketStore,
    start: u64,
    page_size: usize,
    processor: &mut LoggedProcessor<P>,
) -> (r: ReplayReport)
    requires
        store.wf(),
        page_size > 0,
    ensures
        replay_outcome(store@.len(), start, r),
        replay_calls(store@, start, r, old(processor).log(), final(processor).log()),
{
    let ghost len = store@.len() as int;
    let ghost log0 = processor.log();
    let mut cursor: u64 = start;
    let mut processed: Vec<u64> = Vec::new();
    proof {
        assert(processor.log().subrange(0, log0.len() as int) =~= log0);
    }
    loop
        invariant
            store.wf(),
            len == store@.len(),
            page_size > 0,
            cursor == start + processed@.len(),
            processed@ == ids_after(start as int, processed@.len()),
            cursor <= max_of(start as int, len),
            processed@.len() > 0 ==> cursor <= len,
            processor.log().len() == log0.len() + processed@.len(),
            processor.log().subrange(0, log0.len() as int) == log0,
            log0 == old(processor).log(),
            forall|i: int| 0 <= i < processed@.len() ==> #[trigger] calls_since(log0, processor.log())[i]
                == (((start + i + 1) as u64, store@[start + i]), true),
        decreases max_of(start as int, len) - cursor,
    {
        let page = store.read_from(cursor, page_size);
        proof {
            assert(page@.map_values(|p: RawPacket| p@).len() == page@.len());
        }
        if page.len() == 0 {
            let r = ReplayReport { cursor, processed, failure: None };
            proof {
                let fed = calls_since(log0, processor.log());
                assert forall|i: int| 0 <= i < fed.len() implies (#[trigger] fed[i]).0 == ((start + i + 1) as u64, store@[start + i]) && fed[i].1 by {
                    assert(calls_since(log0, processor.log())[i] == (((start + i + 1) as u64, store@[start + i]), true));
                }
            }
            return r;
        }
        let ghost cursor0 = cursor;
        let ghost n0 = processed@.len();
        let mut j: usize = 0;
        while j < page.len()
            invariant
                store.wf(),
                len == store@.len(),
                0 < page@.len(),
                cursor0 < len,
                page@.map_values(|p: RawPacket| p@) == page_after(store@, cursor0 as int, page_size as int),
                j <= page@.len(),
                cursor == cursor0 + j,
                cursor == start + processed@.len(),
                processed@ == ids_after(start as int, processed@.len()),
                cursor <= len,
                processor.log().len() == log0.len() + processed@.len(),
                processor.log().subrange(0, log0.len() as int) == log0,
                log0 == old(processor).log(),
                forall|i: int| 0 <= i < processed@.len() ==> #[trigger] calls_since(log0, processor.log())[i]
                    == (((start + i + 1) as u64, store@[start + i]), true),
            decreases page@.len() - j,
        {
            proof {
                assert(page@.map_values(|p: RawPacket| p@)[j as int] == page@[j as int]@);
                store.lemma_len_fits();
                let pg = page_after(store@, cursor0 as int, page_size as int);
                assert(pg.len() == page@.len());
                assert(page_start(store@.len() as int, cursor0 as int) == cursor0);
                assert(pg[j as int] == ((cursor0 + j + 1) as u64, store@[cursor0 + j]));
            }
            let packet = &page[j];
            assert(packet@ == ((start + processed@.len() + 1) as u64, store@[start + processed@.len()]));
            let ghost prev = processor.log();
            let answer = processor.process(packet);
            proof {
                let cur = processor.log();
                assert(cur.subrange(0, log0.len() as int) =~= log0);
                assert forall|i: int| 0 <= i < processed@.len() implies #[trigger] calls_since(log0, cur)[i]
                    == calls_since(log0, prev)[i] by {
                    assert(cur[log0.len() + i] == prev[log0.len() + i]);
                }
                assert(calls_since(log0, cur)[processed@.len() as int] == (packet@, answer is Ok));
            }
            match answer {
                Ok(()) => {
                    cursor = packet.id;
                    let ghost k = processed@.len();
                    processed.push(cursor);
                    proof {
                        assert(processed@ =~= ids_after(start as int, processed@.len()));
                        assert forall|i: int| 0 <= i < processed@.len() implies #[trigger] calls_since(log0, processor.log())[i]
                            == (((start + i + 1) as u64, store@[start + i]), true) by {
                            if i < k {
                                assert(calls_since(log0, processor.log())[i] == calls_since(log0, prev)[i]);
                            }
                        }
                    }
                },
                Err(error) => {
                    let failure = ReplayFailure { packet_id: packet.id, error };
                    let r = ReplayReport { cursor, processed, failure: Some(failure) };
                    proof {
                        let fed = calls_since(log0, processor.log());
                        assert forall|i: int| 0 <= i < fed.len() implies (#[trigger] fed[i]).0 == ((start + i + 1) as u64, store@[start + i]) by {
                            if i < r.processed@.len() {
                                assert(calls_since(log0, processor.log())[i] == (((start + i + 1) as u64, store@[start + i]), true));
                            }
                        }
                        assert forall|i: int| 0 <= i < r.processed@.len() implies (#[trigger] fed[i]).1 by {
                            assert(calls_since(log0, processor.log())[i] == (((start + i + 1) as u64, store@[start + i]), true));
                        }
                    }
                    return r;
                },
            }
            j = j + 1;
        }
    }
}

/// Reprocesses the whole log from its beginning.
pub fn replay_all<P: PacketProcessor>(
    store: &PacketStore,
    page_size: usize,
    processor: &mut LoggedProcessor<P>,
) -> (r: ReplayReport)
    requires
        store.wf(),
        page_size > 0,
    ensures
        replay_outcome(store@.len(), 0, r),
        replay_calls(store@, 0, r, old(processor).log(), final(processor).log()),
{
    replay(store, 0, page_size, processor)
}

/// The persisted processing position: the id of the last packet whose
/// derived records are durable, and the version of the processor that wrote them.
#[derive(Debug, Clone, Copy, PartialEq, Eq, Structural)]
pub struct ProcessingCursor {
    pub last_id: u64,
    pub version: u32,
}

/// The cursor a replay with processor `version` starts from: the saved one
/// when it was written by the same version, otherwise the beginning of the
/// log, so that outputs of two processor versions are never mixed.
pub fn resume_point(saved: Option<ProcessingCursor>, version: u32) -> (r: u64)
    ensures
        r == match saved {
            Some(c) => if c.version == version { c.last_id } else { 0 },
            None => 0,
        },
{
    match saved {
        Some(c) => if c.version == version {
            c.last_id
        } else {
            0
        },
        None => 0,
    }
}

/// The cursor to persist after a pass made by processor `version`.
pub fn cursor_after(report: &ReplayReport, version: u32) -> (r: ProcessingCursor)
    ensures
        r == (ProcessingCursor { last_id: report.cursor, version }),
{
    ProcessingCursor { last_id: report.cursor, version }
}

/// Two passes over the same log from the same cursor hand the processor the
/// same packets, with the same payloads, in the same order, as far as both
/// got. When both run to completion their records of calls are identical and
/// they end at the same cursor: a processor that depends only on the packets
/// and on its reset state therefore derives the same output each time, however
/// often the full replay is run.
pub proof fn complete_replays_agree(
    log: Seq<Seq<u8>>,
    start: u64,
    a: ReplayReport,
    a_before: Seq<ProcessCall>,
    a_after: Seq<ProcessCall>,
    b: ReplayReport,
    b_before: Seq<ProcessCall>,
    b_after: Seq<ProcessCall>,
)
    requires
        replay_outcome(log.len(), start, a),
        replay_calls(log, start, a, a_before, a_after),
        replay_outcome(log.len(), start, b),
        replay_calls(log, start, b, b_before, b_after),
    ensures
        forall|i: int|
            0 <= i < calls_since(a_before, a_after).len() && 0 <= i < calls_since(b_before, b_after).len()
                ==> (#[trigger] calls_since(a_before, a_after)[i]).0 == (#[trigger] calls_since(b_before, b_after)[i]).0,
        a.failure is None && b.failure is None ==> calls_since(a_before, a_after) == calls_since(b_before, b_after)
            && a.cursor == b.cursor && a.processed@ == b.processed@,
{
    let fa = calls_since(a_before, a_after);
    let fb = calls_since(b_before, b_after);
    if a.failure is None && b.failure is None {
        assert(fa.len() == fb.len());
        assert forall|i: int| 0 <= i < fa.len() implies fa[i] == fb[i] by {
            assert(fa[i].1 && fb[i].1);
        }
        assert(fa =~= fb);
    }
}

/// A pass in which the processor accepts every packet handed to it runs to
/// the head of the log: it processes every packet after `start`, in id order
/// and with its stored payload, and ends with the cursor at the head.
pub proof fn accepting_replay_completes(
    log: Seq<Seq<u8>>,
    start: u64,
    r: ReplayReport,
    before: Seq<ProcessCall>,
    after: Seq<ProcessCall>,
)
    requires
        replay_outcome(log.len(), start, r),
        replay_calls(log, start, r, before, after),
        forall|i: int| 0 <= i < calls_since(before, after).len() ==> (#[trigger] calls_since(before, after)[i]).1,
        start <= log.len(),
    ensures
        r.failure is None,
        r.cursor == log.len(),
        r.processed@ == ids_after(start as int, (log.len() - start) as nat),
        calls_since(before, after) == Seq::new(
            (log.len() - start) as nat,
            |i: int| (((start + i + 1) as u64, log[start + i]), true),
        ),
{
    let fed = calls_since(before, after);
    if r.failure is Some {
        assert(fed[fed.len() - 1].1);
    }
    assert(fed =~= Seq::new((log.len() - start) as nat, |i: int| (((start + i + 1) as u64, log[start + i]), true)));
}

/// When the processor rejects a packet, the pass stops there: the rejected
/// packet was the last one handed over, every packet before it was accepted,
/// and the cursor is the id of the last accepted packet, or the starting
/// cursor when the rejected packet was the first one, never the rejected id
/// or later.
pub proof fn aborted_replay_keeps_cursor(
    log: Seq<Seq<u8>>,
    start: u64,
    r: ReplayReport,
    before: Seq<ProcessCall>,
    after: Seq<ProcessCall>,
)
    requires
        replay_outcome(log.len(), start, r),
        replay_calls(log, start, r, before, after),
        r.failure is Some,
    ensures
        ({
            let fed = calls_since(before, after);
            let k = r.failure->Some_0.packet_id;
            &&& fed.len() > 0
            &&& fed.last() == ((k, log[k - 1]), false)
            &&& forall|i: int| 0 <= i < fed.len() - 1 ==> (#[trigger] fed[i]).1 && fed[i].0.0 < k
            &&& r.cursor == k - 1
            &&& start <= r.cursor < k
            &&& r.processed@.len() > 0 ==> r.cursor == r.processed@.last()
            &&& r.processed@.len() == 0 ==> r.cursor == start
        }),
{
    let fed = calls_since(before, after);
    assert(fed[fed.len() - 1].0 == ((start + fed.len()) as u64, log[start + fed.len() - 1]));
}

} // verus!
