use rkbx_osc::keeper::{BeatKeeper, FRAC_DEN, TrackInfo};
use rkbx_osc::snapshot::{Snapshot, SnapshotReads};

fn snap_with(
    bpm_centi: Option<u32>,
    bar: i32,
    beat: i32,
    deck: u8,
    d1_time: i32,
    d1_track: i32,
) -> Snapshot {
    let mut s = Snapshot::new();
    let mut r = SnapshotReads::none();
    r.bpm_centi = bpm_centi;
    r.bar1 = Some(bar);
    r.beat1 = Some(beat);
    r.masterdeck_index = Some(deck);
    r.deck1_time = Some(d1_time);
    r.deck1_track_id = Some(d1_track);
    s.apply_reads(&r);
    s
}

// Edge idempotence: consuming an event yields true then false without
// a new tick.
#[test]
fn new_beat_true_then_false() {
    let mut k = BeatKeeper::new();
    let s = snap_with(Some(12400), 3, 2, 0, 5000, 0);
    k.update(&s, 16000);
    assert!(k.get_new_beat());
    assert!(!k.get_new_beat());
}

#[test]
fn new_time_and_deck_and_track_single_shot() {
    let mut k = BeatKeeper::new();
    let mut s = Snapshot::new();
    let mut r = SnapshotReads::none();
    r.bpm_centi = Some(12400);
    r.masterdeck_index = Some(1);
    r.deck2_time = Some(5000);
    s.apply_reads(&r);
    k.update(&s, 16000);
    assert!(k.get_new_time());
    assert!(!k.get_new_time());
    assert!(k.get_new_master_deck());
    assert!(!k.get_new_master_deck());
    k.apply_track(Some(TrackInfo {
        title: "T".to_string(),
        artist: "A".to_string(),
        folder_path: "P".to_string(),
    }));
    assert!(k.get_new_master_track());
    assert!(!k.get_new_master_track());
}

// Phase wrap: the fraction advances by delta * bpm parts and stays
// below one beat.
#[test]
fn phase_advances_and_wraps() {
    let mut k = BeatKeeper::new();
    let s = snap_with(Some(12400), 3, 2, 0, 5000, 0);
    // First tick raises a beat: the phase resets, then advances with
    // the tempo of the previous tick (the 120.00 default).
    k.update(&s, 16000);
    assert_eq!(k.frac_num, 16000 * 12000 % FRAC_DEN);
    assert!(k.frac_num < FRAC_DEN);
    // Same snapshot: no beat, phase accumulates at the read tempo.
    let before = k.frac_num;
    k.update(&s, 16000);
    assert_eq!(k.frac_num, (before + 16000 * 12400) % FRAC_DEN);
    // A huge delta still wraps into [0, 1).
    k.update(&s, u64::MAX);
    assert!(k.frac_num < FRAC_DEN);
}

#[test]
fn phase_resets_on_beat() {
    let mut k = BeatKeeper::new();
    let s1 = snap_with(Some(12400), 3, 2, 0, 5000, 0);
    k.update(&s1, 16000);
    k.update(&s1, 16000);
    let s2 = snap_with(Some(12400), 3, 3, 0, 5000, 0);
    k.update(&s2, 16000);
    // Reset to zero, then one tick at the previous tempo (124.00).
    assert_eq!(k.frac_num, 16000 * 12400 % FRAC_DEN);
    assert!(k.get_new_beat());
}

#[test]
fn unbound_phase_uses_fallback_tempo() {
    let mut k = BeatKeeper::new();
    k.advance_unbound(1000);
    assert_eq!(k.frac_num, 1000 * 13000 % FRAC_DEN);
    assert!(k.frac_num < FRAC_DEN);
}

// The tempo is reported only when its read succeeded and it changed.
#[test]
fn bpm_reported_on_change_only() {
    let mut k = BeatKeeper::new();
    let s = snap_with(Some(12400), 3, 2, 0, 5000, 0);
    k.update(&s, 16000);
    assert_eq!(k.get_bpm_changed(), Some(12400));
    k.update(&s, 16000);
    assert_eq!(k.get_bpm_changed(), None);
}

#[test]
fn bpm_not_reported_when_read_failed() {
    let mut k = BeatKeeper::new();
    let s = snap_with(None, 3, 2, 0, 5000, 0);
    // The read failed: the snapshot fell back to 120.00, and nothing
    // is reported.
    k.update(&s, 16000);
    assert_eq!(k.get_bpm_changed(), None);
}

// Track event gating: the lookup is asked for exactly when the master
// track changed to a positive identifier, and the event rises only on
// a successful lookup.
#[test]
fn track_query_on_master_deck_change() {
    let mut k = BeatKeeper::new();
    // Deck 0 is already the designation at start: no switch, track 0:
    // no query.
    let s = snap_with(Some(12400), 3, 2, 0, 5000, 0);
    assert_eq!(k.update(&s, 16000), None);
    // The designation moves to deck 1, whose track is 0: no query.
    let mut s2 = Snapshot::new();
    let mut r = SnapshotReads::none();
    r.masterdeck_index = Some(1);
    r.deck2_track_id = Some(0);
    s2.apply_reads(&r);
    assert_eq!(k.update(&s2, 16000), None);
    assert!(k.get_new_master_deck());
    // Back to deck 0 carrying track 4242: query.
    let s3 = snap_with(Some(12400), 3, 2, 0, 5000, 4242);
    assert_eq!(k.update(&s3, 16000), Some(4242));
}

#[test]
fn track_query_on_master_track_change() {
    let mut k = BeatKeeper::new();
    let s = snap_with(Some(12400), 3, 2, 0, 5000, 0);
    k.update(&s, 16000);
    let s2 = snap_with(Some(12400), 3, 2, 0, 5000, 4242);
    assert_eq!(k.update(&s2, 16000), Some(4242));
    // The same track again: no further query.
    assert_eq!(k.update(&s2, 16000), None);
}

#[test]
fn no_query_for_nonpositive_track_id() {
    let mut k = BeatKeeper::new();
    let s = snap_with(Some(12400), 3, 2, 0, 5000, 0);
    k.update(&s, 16000);
    // The designation moves to deck 2, whose track id is negative: the
    // master track changed, but no lookup is asked for.
    let mut s2 = Snapshot::new();
    let mut r = SnapshotReads::none();
    r.masterdeck_index = Some(1);
    r.deck2_track_id = Some(-5);
    s2.apply_reads(&r);
    assert_eq!(k.update(&s2, 16000), None);
}

#[test]
fn no_query_when_other_deck_changes_track() {
    let mut k = BeatKeeper::new();
    let s = snap_with(Some(12400), 3, 2, 0, 5000, 0);
    k.update(&s, 16000);
    // Deck 2 loads a track while deck 1 is the master.
    let mut s2 = snap_with(Some(12400), 3, 2, 0, 5000, 0);
    let mut r = SnapshotReads::none();
    r.masterdeck_index = Some(0);
    r.deck2_track_id = Some(7);
    s2.apply_reads(&r);
    assert_eq!(k.update(&s2, 16000), None);
}

#[test]
fn failed_lookup_leaves_metadata_and_raises_nothing() {
    let mut k = BeatKeeper::new();
    k.apply_track(Some(TrackInfo {
        title: "T".to_string(),
        artist: "A".to_string(),
        folder_path: "P".to_string(),
    }));
    assert!(k.get_new_master_track());
    k.apply_track(None);
    assert!(!k.get_new_master_track());
    assert_eq!(k.last_master_title, "T");
    assert_eq!(k.last_master_artist, "A");
    assert_eq!(k.last_master_path, "P");
}

#[test]
fn deck_switch_adopts_counter_without_beat() {
    let mut k = BeatKeeper::new();
    let s = snap_with(Some(12400), 3, 2, 0, 5000, 0);
    k.update(&s, 16000);
    k.get_new_beat();
    // The designation moves; the new deck's counter differs but no
    // beat rises.
    let mut s2 = Snapshot::new();
    let mut r = SnapshotReads::none();
    r.bar2 = Some(10);
    r.beat2 = Some(0);
    r.masterdeck_index = Some(1);
    s2.apply_reads(&r);
    k.update(&s2, 16000);
    assert!(!k.get_new_beat());
    assert_eq!(k.last_beat, 40);
}

#[test]
fn bearer_flows_from_snapshot() {
    let mut k = BeatKeeper::new();
    let mut s = Snapshot::new();
    s.update_api_bearer(Some(b"secret-token\0".to_vec()));
    k.update_api_bearer(&s);
    assert_eq!(k.api_bearer, "secret-token");
}
