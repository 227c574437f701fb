use firefly_runtime::RingBuf;

#[test]
fn test_ring_buf() {
    let mut b: RingBuf<i32> = RingBuf::new();
    for i in 0..20 {
        assert_eq!(b.get(i), None);
    }
    for i in 0..20 {
        b.insert(i, 60 + i as i32);
    }
    // only the current frame (0) and 2 frames ahead must be inserted
    assert_eq!(b.get(0), Some(60));
    assert_eq!(b.get(1), Some(61));
    assert_eq!(b.get(2), Some(62));
    assert_eq!(b.get(3), None);

    // advance 10 frames forward
    for _ in 0..10 {
        b.advance();
    }
    assert_eq!(b.frame, 10);
    // all existing old frames must be ignored
    for i in 0..20 {
        assert_eq!(b.get(i), None);
    }
    // insert lots of frames, only the current frame, 2 before, and 2 after
    // must be inserted.
    for i in 0..20 {
        b.insert(i, 60 + i as i32);
    }
    for i in 0..=7 {
        assert_eq!(b.get(i), None);
    }
    assert_eq!(b.get(8), Some(68));
    assert_eq!(b.get(9), Some(69));
    assert_eq!(b.get(10), Some(70));
    assert_eq!(b.get(11), Some(71));
    assert_eq!(b.get(12), Some(72));
    for i in 13..=20 {
        assert_eq!(b.get(i), None);
    }
}
