use turto::ytdl::tail::{finished_failed, read_step, reuse_tail, ReadStep};
use turto::ytdl::tail::TailProgress;

#[test]
fn a_reader_reads_what_has_landed() {
    assert_eq!(read_step(0, 100, false, false, 30), ReadStep::Read(30));
    assert_eq!(read_step(90, 100, false, false, 30), ReadStep::Read(10));
    assert_eq!(read_step(90, 100, true, true, 30), ReadStep::Read(10), "landed bytes are read even from a failed tail");
    assert_eq!(read_step(90, 100, false, false, 0), ReadStep::BufferFull);
}

#[test]
fn a_reader_waits_for_a_live_producer_and_ends_as_it_finished() {
    assert_eq!(read_step(100, 100, false, false, 30), ReadStep::Wait);
    assert_eq!(read_step(100, 100, true, false, 30), ReadStep::Eof);
    assert_eq!(read_step(100, 100, true, true, 30), ReadStep::Fail);
}

#[test]
fn a_cancelled_tail_is_failed() {
    assert!(finished_failed(true, true));
    assert!(finished_failed(false, false));
    assert!(!finished_failed(false, true));
    assert!(reuse_tail(true, false));
    assert!(!reuse_tail(true, true));
    assert!(!reuse_tail(false, false));
}

#[test]
fn tail_progress_moves_forward_and_finishes_once() {
    let mut t = TailProgress::new();
    assert_eq!(t.written(), 0);
    assert_eq!(t.read_step(0, 10), ReadStep::Wait);
    t.record_write(4);
    t.record_write(6);
    assert_eq!(t.written(), 10);
    assert_eq!(t.read_step(0, 64), ReadStep::Read(10));
    t.finish(false, true);
    assert!(t.is_done() && !t.failed());
    assert_eq!(t.read_step(10, 64), ReadStep::Eof);

    let mut cut = TailProgress::new();
    cut.record_write(3);
    cut.finish(true, true);
    assert!(cut.failed());
    assert_eq!(cut.read_step(3, 64), ReadStep::Fail);
}
