use append_store::codec::{decode, encode};
use append_store::store::{Store, StoreError};

#[test]
fn store() {
    let mut store = Store::new();
    let s = b"test";
    let (offset, c) = store.append(s).unwrap();
    assert_eq!((offset, c), (0, 4));
    let buf = store.read(offset, c).unwrap();
    assert_eq!(buf, b"test");
    assert_eq!(buf.len(), 4);
}

#[test]
fn test_write() {
    let mut store = Store::new();
    let mut offset: u64 = 0;
    let to_write = vec!["foo", "barbar", "bazquok"];
    let mut frames: Vec<(u64, u64)> = Vec::new();
    for s in to_write.iter() {
        let framed = encode(s.as_bytes()).unwrap();
        let (start, written) = store.append(&framed).unwrap();
        assert_eq!(start, offset);
        assert_eq!(written, framed.len() as u64);
        frames.push((start, written));
        offset += written;
    }
    // Read the frames back using the offsets above and check the payloads.
    for (i, (start, written)) in frames.iter().enumerate() {
        let bytes = store.read(*start, *written).unwrap();
        let (payload, consumed) = decode(&bytes).unwrap();
        assert_eq!(payload, to_write[i].as_bytes());
        assert_eq!(consumed as u64, *written);
    }
}

#[test]
fn scenario_three_appends() {
    let mut store = Store::new();
    assert_eq!(store.append(b"foo").unwrap(), (0, 3));
    assert_eq!(store.append(b"barbar").unwrap(), (3, 6));
    assert_eq!(store.append(b"bazquok").unwrap(), (9, 7));
    assert_eq!(store.read(3, 6).unwrap(), b"barbar");
    assert_eq!(store.read(9, 7).unwrap(), b"bazquok");
    assert_eq!(store.size(), 16);
}

#[test]
fn read_after_write_without_sync() {
    let mut store = Store::new();
    let (offset, written) = store.append(b"abcdef").unwrap();
    // No sync in between: the read must still observe the appended bytes.
    assert_eq!(store.read(offset, written).unwrap(), b"abcdef");
}

#[test]
fn read_out_of_range() {
    let mut store = Store::new();
    assert_eq!(store.read(0, 1), Err(StoreError::OffsetOutOfRange));
    store.append(b"test").unwrap();
    assert_eq!(store.read(0, 5), Err(StoreError::OffsetOutOfRange));
    assert_eq!(store.read(2, 3), Err(StoreError::OffsetOutOfRange));
    assert_eq!(store.read(5, 0), Err(StoreError::OffsetOutOfRange));
    // The whole range and an empty range at the end are fine.
    assert_eq!(store.read(0, 4).unwrap(), b"test");
    assert_eq!(store.read(4, 0).unwrap(), Vec::<u8>::new());
}

#[test]
fn sync_twice_is_idempotent() {
    let mut store = Store::new();
    store.append(b"data").unwrap();
    assert_eq!(store.sync(), Ok(()));
    assert_eq!(store.sync(), Ok(()));
    assert_eq!(store.size(), 4);
    assert_eq!(store.read(0, 4).unwrap(), b"data");
    // Syncing a fresh store with nothing pending does not error either.
    let mut empty = Store::new();
    assert_eq!(empty.sync(), Ok(()));
    assert_eq!(empty.sync(), Ok(()));
    assert_eq!(empty.size(), 0);
}

#[test]
fn empty_append_is_a_no_op() {
    let mut store = Store::new();
    assert_eq!(store.append(b"").unwrap(), (0, 0));
    assert_eq!(store.size(), 0);
    store.append(b"xy").unwrap();
    assert_eq!(store.append(b"").unwrap(), (2, 0));
    assert_eq!(store.size(), 2);
}

#[test]
fn closed_store_rejects_everything() {
    let mut store = Store::new();
    store.append(b"bytes").unwrap();
    store.close();
    assert!(!store.is_open());
    assert_eq!(store.append(b"more"), Err(StoreError::StoreClosed));
    assert_eq!(store.read(0, 5), Err(StoreError::StoreClosed));
    assert_eq!(store.sync(), Err(StoreError::StoreClosed));
    // Closing again is a no-op.
    store.close();
    assert!(!store.is_open());
}

#[test]
fn framed_records_concatenate_from_offset_zero() {
    // A store is simply a concatenation of frames starting at offset 0.
    let mut store = Store::new();
    let first = encode(b"one").unwrap();
    let second = encode(b"two").unwrap();
    let (o1, w1) = store.append(&first).unwrap();
    let (o2, w2) = store.append(&second).unwrap();
    assert_eq!(o1, 0);
    assert_eq!(o2, w1);
    let all = store.read(0, w1 + w2).unwrap();
    let (p1, c1) = decode(&all).unwrap();
    assert_eq!(p1, b"one");
    let (p2, _) = decode(&all[c1..]).unwrap();
    assert_eq!(p2, b"two");
}
