use spike_tracer::RegFile;

#[test]
fn x0_is_always_zero() {
    let mut rf = RegFile::new();
    rf.write(0, 42);
    assert_eq!(rf.read(0), 0);
}

#[test]
fn read_write_other_regs() {
    let mut rf = RegFile::new();
    rf.write(5, 123);
    assert_eq!(rf.read(5), 123);
}

#[test]
#[should_panic]
fn invalid_index_panics() {
    let rf = RegFile::new();
    rf.read(32); // Out of bounds
}

#[test]
fn new_file_is_all_zero() {
    let rf = RegFile::new();
    assert_eq!(rf.dump(), [0u64; 32]);
    for i in 0..32 {
        assert_eq!(rf.read(i), 0);
    }
}

#[test]
fn write_to_x0_leaves_snapshot() {
    let mut rf = RegFile::new();
    rf.write(7, 9);
    let before = rf.dump();
    rf.write(0, u64::MAX);
    assert_eq!(rf.dump(), before);
    assert_eq!(rf.dump()[0], 0);
}

#[test]
fn written_value_shows_in_dump() {
    let mut rf = RegFile::new();
    for i in 1..32 {
        rf.write(i, 1000 + i as u64);
    }
    let snapshot = rf.dump();
    assert_eq!(snapshot[0], 0);
    for i in 1..32 {
        assert_eq!(rf.read(i), 1000 + i as u64);
        assert_eq!(snapshot[i], 1000 + i as u64);
    }
}

#[test]
fn write_leaves_other_registers() {
    let mut rf = RegFile::new();
    rf.write(1, 11);
    rf.write(31, 31);
    rf.write(1, 12);
    assert_eq!(rf.read(1), 12);
    assert_eq!(rf.read(31), 31);
    assert_eq!(rf.read(2), 0);
}
