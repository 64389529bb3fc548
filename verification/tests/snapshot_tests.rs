use rkbx_osc::snapshot::{Snapshot, SnapshotReads};

fn reads_none() -> SnapshotReads {
    SnapshotReads::none()
}

// Beat derivation: beats = 4 * bar + beat, whenever both reads succeed.
#[test]
fn beats_is_four_bar_plus_beat() {
    let mut s = Snapshot::new();
    let mut r = reads_none();
    r.bar1 = Some(3);
    r.beat1 = Some(2);
    s.apply_reads(&r);
    assert_eq!(s.beats1, 14);
    let mut r2 = reads_none();
    r2.bar2 = Some(-5);
    r2.beat2 = Some(1);
    s.apply_reads(&r2);
    assert_eq!(s.beats2, -19);
    // Extremes do not overflow the counter.
    let mut r3 = reads_none();
    r3.bar1 = Some(i32::MAX);
    r3.beat1 = Some(i32::MAX);
    s.apply_reads(&r3);
    assert_eq!(s.beats1, 4 * (i32::MAX as i64) + (i32::MAX as i64));
}

#[test]
fn beats_needs_both_bar_and_beat() {
    let mut s = Snapshot::new();
    let mut r = reads_none();
    r.bar1 = Some(3);
    s.apply_reads(&r);
    assert_eq!(s.beats1, -1);
    let mut r2 = reads_none();
    r2.beat1 = Some(2);
    s.apply_reads(&r2);
    assert_eq!(s.beats1, -1);
}

// Master selection: index 0 and 1 select the deck; anything else
// leaves the master values unchanged.
#[test]
fn master_follows_designated_deck() {
    let mut s = Snapshot::new();
    let mut r = reads_none();
    r.bar1 = Some(1);
    r.beat1 = Some(0);
    r.bar2 = Some(2);
    r.beat2 = Some(0);
    r.deck1_time = Some(1000);
    r.deck2_time = Some(8000);
    r.masterdeck_index = Some(0);
    s.apply_reads(&r);
    assert_eq!(s.master_beats, 4);
    assert_eq!(s.master_time, 1000);
    r.masterdeck_index = Some(1);
    s.apply_reads(&r);
    assert_eq!(s.master_beats, 8);
    assert_eq!(s.master_time, 8000);
}

#[test]
fn undefined_masterdeck_keeps_master_values() {
    let mut s = Snapshot::new();
    let mut r = reads_none();
    r.bar1 = Some(1);
    r.beat1 = Some(0);
    r.deck1_time = Some(1000);
    r.masterdeck_index = Some(0);
    s.apply_reads(&r);
    assert_eq!(s.master_beats, 4);
    assert_eq!(s.master_time, 1000);
    // The index read fails: 255, and the master values stay, though
    // the per-deck fields fall to their defaults.
    let r2 = reads_none();
    s.apply_reads(&r2);
    assert_eq!(s.masterdeck_index, 255);
    assert_eq!(s.master_beats, 4);
    assert_eq!(s.master_time, 1000);
    assert_eq!(s.deck1_time, 0);
    // An index outside {0, 1} behaves the same.
    let mut r3 = reads_none();
    r3.masterdeck_index = Some(7);
    s.apply_reads(&r3);
    assert_eq!(s.master_beats, 4);
    assert_eq!(s.master_time, 1000);
}

#[test]
fn failed_reads_fall_to_defaults() {
    let mut s = Snapshot::new();
    let mut r = reads_none();
    r.bpm_centi = Some(12400);
    r.deck1_time = Some(5000);
    r.deck1_track_id = Some(42);
    s.apply_reads(&r);
    assert_eq!(s.bpm_centi, 12400);
    assert!(s.bpm_read_ok);
    let r2 = reads_none();
    s.apply_reads(&r2);
    assert_eq!(s.bpm_centi, 12000);
    assert!(!s.bpm_read_ok);
    assert_eq!(s.deck1_time, 0);
    assert_eq!(s.deck1_track_id, 0);
}

#[test]
fn bearer_refresh_replaces_and_failed_read_keeps() {
    let mut s = Snapshot::new();
    let mut buf = b"tok".to_vec();
    buf.push(0);
    buf.extend_from_slice(b"garbage");
    buf.resize(64, b'x');
    s.update_api_bearer(Some(buf));
    assert_eq!(s.api_bearer, "tok");
    s.update_api_bearer(None);
    assert_eq!(s.api_bearer, "tok");
    s.update_api_bearer(Some(b" newtok \0rest".to_vec()));
    assert_eq!(s.api_bearer, "newtok");
}
