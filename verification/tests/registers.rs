use otter::rf::{RegisterFile, RF_SIZE};

#[test]
fn out_of_bounds() {
    let mut rf = RegisterFile::init();
    rf.wr(RF_SIZE, 1);
    assert_eq!(0, rf.rd(RF_SIZE));
}

#[test]
fn x0_stays_zero() {
    // Writes to register 0 are silently discarded, always.
    let mut rf = RegisterFile::init();
    rf.wr(0, 0xDEADBEEF);
    assert_eq!(0, rf.rd(0));
    rf.wr(5, 77);
    rf.wr(0, 1);
    assert_eq!(0, rf.rd(0));
    assert_eq!(77, rf.rd(5));
}

#[test]
fn write_read_reset() {
    let mut rf = RegisterFile::init();
    for i in 1..RF_SIZE {
        rf.wr(i, i * 3 + 1);
    }
    assert_eq!(0, rf.rd(0));
    for i in 1..RF_SIZE {
        assert_eq!(i * 3 + 1, rf.rd(i));
    }
    rf.reset();
    for i in 0..RF_SIZE {
        assert_eq!(0, rf.rd(i));
    }
}
