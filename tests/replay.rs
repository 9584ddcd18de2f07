use openwhoop::replay::{
    cursor_after, replay, replay_all, resume_point, DecodeError, LoggedProcessor, PacketProcessor,
    ProcessingCursor,
};
use openwhoop::store::{PacketStore, RawPacket};

struct Recorder {
    seen: Vec<u64>,
    bytes: Vec<u8>,
    fail_on: Option<u64>,
}

impl Recorder {
    fn new(fail_on: Option<u64>) -> Recorder {
        Recorder { seen: Vec::new(), bytes: Vec::new(), fail_on }
    }
}

impl PacketProcessor for Recorder {
    fn process(&mut self, packet: &RawPacket) -> Result<(), DecodeError> {
        if self.fail_on == Some(packet.id) {
            return Err(DecodeError { message: format!("cannot decode {}", packet.id) });
        }
        self.seen.push(packet.id);
        self.bytes.extend_from_slice(&packet.payload);
        Ok(())
    }
}

fn store_with(n: u64) -> PacketStore {
    let mut store = PacketStore::new();
    for i in 1..=n {
        assert_eq!(store.append(vec![i as u8, 0xAA]), Ok(i));
    }
    store
}

#[test]
fn append_assigns_consecutive_ids() {
    let mut store = PacketStore::new();
    assert_eq!(store.head_id(), 0);
    assert_eq!(store.append(vec![1]), Ok(1));
    assert_eq!(store.append(vec![2, 3]), Ok(2));
    assert_eq!(store.len(), 2);
    let p = store.get(2).unwrap();
    assert_eq!(p.id, 2);
    assert_eq!(p.payload, vec![2, 3]);
    assert!(store.get(0).is_none());
    assert!(store.get(3).is_none());
}

#[test]
fn full_read_returns_all_in_order() {
    let store = store_with(7);
    let page = store.read_from(0, 7);
    let ids: Vec<u64> = page.iter().map(|p| p.id).collect();
    assert_eq!(ids, vec![1, 2, 3, 4, 5, 6, 7]);
    for p in &page {
        assert_eq!(p.payload, vec![p.id as u8, 0xAA]);
    }
}

#[test]
fn read_from_pages_and_stops_at_head() {
    let store = store_with(5);
    let ids: Vec<u64> = store.read_from(2, 2).iter().map(|p| p.id).collect();
    assert_eq!(ids, vec![3, 4]);
    let ids: Vec<u64> = store.read_from(4, 10).iter().map(|p| p.id).collect();
    assert_eq!(ids, vec![5]);
    assert!(store.read_from(5, 10).is_empty());
    assert!(store.read_from(9, 10).is_empty());
    assert!(store.read_from(0, 0).is_empty());
    assert!(PacketStore::new().read_from(0, 4).is_empty());
}

#[test]
fn replay_from_cursor_processes_rest_in_order() {
    let store = store_with(10);
    let mut rec = LoggedProcessor::new(Recorder::new(None));
    let report = replay(&store, 5, 3, &mut rec);
    assert_eq!(rec.inner.seen, vec![6, 7, 8, 9, 10]);
    assert_eq!(report.processed, vec![6, 7, 8, 9, 10]);
    assert_eq!(report.cursor, 10);
    assert!(report.failure.is_none());
}

#[test]
fn full_replay_twice_gives_same_output() {
    let store = store_with(9);
    let mut first = LoggedProcessor::new(Recorder::new(None));
    let a = replay_all(&store, 4, &mut first);
    let mut second = LoggedProcessor::new(Recorder::new(None));
    let b = replay_all(&store, 2, &mut second);
    assert_eq!(first.inner.seen, second.inner.seen);
    assert_eq!(first.inner.bytes, second.inner.bytes);
    assert_eq!(a, b);
    assert_eq!(a.cursor, 9);
    assert_eq!(first.inner.seen, (1..=9).collect::<Vec<u64>>());
}

#[test]
fn failed_packet_keeps_cursor_before_it() {
    let store = store_with(10);
    let mut rec = LoggedProcessor::new(Recorder::new(Some(8)));
    let report = replay(&store, 3, 2, &mut rec);
    assert_eq!(report.cursor, 7);
    assert_eq!(report.processed, vec![4, 5, 6, 7]);
    assert_eq!(rec.inner.seen, vec![4, 5, 6, 7]);
    let failure = report.failure.unwrap();
    assert_eq!(failure.packet_id, 8);
    assert_eq!(failure.error.message, "cannot decode 8");
}

#[test]
fn failure_on_first_packet_keeps_start_cursor() {
    let store = store_with(10);
    let mut rec = LoggedProcessor::new(Recorder::new(Some(4)));
    let report = replay(&store, 3, 5, &mut rec);
    assert_eq!(report.cursor, 3);
    assert!(report.processed.is_empty());
    assert_eq!(report.failure.unwrap().packet_id, 4);
}

#[test]
fn replay_past_head_does_nothing() {
    let store = store_with(3);
    let mut rec = LoggedProcessor::new(Recorder::new(None));
    let report = replay(&store, 6, 5, &mut rec);
    assert_eq!(report.cursor, 6);
    assert!(report.processed.is_empty());
    assert!(rec.inner.seen.is_empty());
    let empty = PacketStore::new();
    let report = replay_all(&empty, 1, &mut rec);
    assert_eq!(report.cursor, 0);
}

#[test]
fn version_mismatch_forces_full_replay() {
    let saved = ProcessingCursor { last_id: 42, version: 3 };
    assert_eq!(resume_point(Some(saved), 3), 42);
    assert_eq!(resume_point(Some(saved), 4), 0);
    assert_eq!(resume_point(None, 3), 0);
    let store = store_with(4);
    let mut rec = LoggedProcessor::new(Recorder::new(None));
    let report = replay(&store, 1, 10, &mut rec);
    assert_eq!(cursor_after(&report, 5), ProcessingCursor { last_id: 4, version: 5 });
}
