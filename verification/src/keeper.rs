//! Edge-triggered reconstruction of the playback state.
//!
//! Each tick the keeper diffs the fresh snapshot against what it last
//! saw and raises single-shot events: a new beat, a new time, a new
//! master deck, a new master track.  Between integer beats it carries
//! the continuous phase as an exact fraction: `frac_num / FRAC_DEN`
//! beats, advanced by `delta_micros * bpm_centi` parts per tick, so the
//! phase stays in [0, 1) at every tick boundary.
//!
//! The keeper never talks to the outside: `update` returns the track
//! identifier whose metadata should be looked up, and `apply_track` is
//! fed the outcome.

use vstd::prelude::*;
use crate::snapshot::Snapshot;

verus! {

/// Denominator of the beat phase: microseconds per minute times
/// hundredths of a BPM, so one tick adds `delta_micros * bpm_centi`
/// numerator parts.
pub const FRAC_DEN: u64 = 6_000_000_000;

/// Tempo used while no process is bound, in hundredths of a BPM, so
/// dependent interfaces keep moving.
pub const FALLBACK_BPM_CENTI: u32 = 13000;

/// Master-track metadata as the lookup collaborator reports it.
pub struct TrackInfo {
    pub title: String,
    pub artist: String,
    pub folder_path: String,
}

/// The beat phase after one tick: the previous numerator plus the
/// beats elapsed in `delta_micros` at `bpm_centi`, wrapped into one
/// beat.
pub open spec fn phase_advance(frac: u64, delta_micros: u64, bpm_centi: u32) -> int {
    (frac + delta_micros * bpm_centi) % (FRAC_DEN as int)
}

/// Phase wrap: however long the tick, whatever the tempo and wherever
/// the phase stood, one advance lands the phase in [0, 1) of a beat.
/// Every tick advances by this function, so the phase is in [0, 1) at
/// every tick boundary.
pub proof fn lemma_phase_advance_wraps(frac: u64, delta_micros: u64, bpm_centi: u32)
    ensures
        0 <= phase_advance(frac, delta_micros, bpm_centi) < FRAC_DEN,
{
}

/// Edge detector and phase estimator over the snapshot stream.
pub struct BeatKeeper {
    /// Master beat counter at the last tick.
    pub last_beat: i64,
    /// Master playback position at the last tick, milliseconds.
    pub last_time: i32,
    /// Bearer token to hand to the track-info lookup.
    pub api_bearer: String,
    /// Track identifiers last seen per deck and for the master deck.
    pub last_d1track: i32,
    pub last_d2track: i32,
    pub last_master_track: i32,
    /// Cached master-track metadata.
    pub last_master_path: String,
    pub last_master_title: String,
    pub last_master_artist: String,
    /// Beat phase numerator over `FRAC_DEN`.
    pub frac_num: u64,
    /// Masterdeck index at the last tick.
    pub last_masterdeck_index: u8,
    /// Tempo integrated into the phase this tick: the snapshot tempo of
    /// the previous tick, in hundredths of a BPM.
    pub phase_bpm_centi: u32,
    /// Snapshot tempo of this tick and whether its read succeeded.
    pub bpm_centi: u32,
    pub bpm_read_ok: bool,
    /// Tempo last reported through `get_bpm_changed`.
    pub last_bpm_centi: u32,
    /// Single-shot event flags.
    pub new_beat: bool,
    pub new_track: bool,
    pub new_time: bool,
    pub new_deck: bool,
}

/// The snapshot designates a deck other than the one last seen.
pub open spec fn deck_switched(k: BeatKeeper, s: Snapshot) -> bool {
    s.masterdeck_index != k.last_masterdeck_index && s.masterdeck_index <= 1
}

/// Deck 1 carries a track not seen on it before (0 marks no track).
pub open spec fn deck1_track_new(k: BeatKeeper, s: Snapshot) -> bool {
    s.deck1_track_id != k.last_d1track && s.deck1_track_id > 0
}

/// Deck 2 carries a track not seen on it before.
pub open spec fn deck2_track_new(k: BeatKeeper, s: Snapshot) -> bool {
    s.deck2_track_id != k.last_d2track && s.deck2_track_id > 0
}

/// The master deck's track changed this tick: the deck designation
/// moved, or the designated deck loaded a new track.
pub open spec fn master_track_changed(k: BeatKeeper, s: Snapshot) -> bool {
    deck_switched(k, s) || (deck1_track_new(k, s) && s.masterdeck_index == 0) || (deck2_track_new(
        k,
        s,
    ) && s.masterdeck_index == 1)
}

/// The master track identifier after the tick.
pub open spec fn master_track_after(k: BeatKeeper, s: Snapshot) -> i32 {
    if s.masterdeck_index == 0 && deck1_track_new(k, s) {
        s.deck1_track_id
    } else if s.masterdeck_index == 1 && deck2_track_new(k, s) {
        s.deck2_track_id
    } else if deck_switched(k, s) {
        if s.masterdeck_index == 0 {
            s.deck1_track_id
        } else {
            s.deck2_track_id
        }
    } else {
        k.last_master_track
    }
}

/// The master beat counter moved this tick.  A deck switch adopts the
/// new deck's counter without raising a beat.
pub open spec fn beat_event(k: BeatKeeper, s: Snapshot) -> bool {
    !deck_switched(k, s) && s.master_beats != k.last_beat
}

impl BeatKeeper {
    /// The phase invariant: the numerator names a fraction in [0, 1).
    pub open spec fn wf(&self) -> bool {
        self.frac_num < FRAC_DEN
    }

    pub fn new() -> (k: Self)
        ensures
            k.wf(),
            k.last_beat == 0,
            k.last_time == 0,
            k.api_bearer@ == Seq::<char>::empty(),
            k.last_d1track == 0,
            k.last_d2track == 0,
            k.last_master_track == 0,
            k.last_master_path@ == Seq::<char>::empty(),
            k.last_master_title@ == Seq::<char>::empty(),
            k.last_master_artist@ == Seq::<char>::empty(),
            k.frac_num == 0,
            k.last_masterdeck_index == 0,
            k.phase_bpm_centi == crate::snapshot::DEFAULT_BPM_CENTI,
            k.bpm_centi == crate::snapshot::DEFAULT_BPM_CENTI,
            !k.bpm_read_ok,
            k.last_bpm_centi == 0,
            !k.new_beat,
            !k.new_track,
            !k.new_time,
            !k.new_deck,
    {
        BeatKeeper {
            last_beat: 0,
            last_time: 0,
            api_bearer: String::new(),
            last_d1track: 0,
            last_d2track: 0,
            last_master_track: 0,
            last_master_path: String::new(),
            last_master_title: String::new(),
            last_master_artist: String::new(),
            frac_num: 0,
            last_masterdeck_index: 0,
            phase_bpm_centi: crate::snapshot::DEFAULT_BPM_CENTI,
            bpm_centi: crate::snapshot::DEFAULT_BPM_CENTI,
            bpm_read_ok: false,
            last_bpm_centi: 0,
            new_beat: false,
            new_track: false,
            new_time: false,
            new_deck: false,
        }
    }

    /// One tick against a fresh snapshot, `delta_micros` after the
    /// previous one.  Raises the single-shot events the diff calls for
    /// and advances the phase with the tempo the previous tick read.
    /// Returns the track identifier whose metadata should be looked
    /// up now: present exactly when the master track changed to a
    /// positive identifier.
    pub fn update(&mut self, snap: &Snapshot, delta_micros: u64) -> (query: Option<i32>)
        ensures
            final(self).wf(),
            // deck designation and its event
            final(self).last_masterdeck_index == if deck_switched(*old(self), *snap) {
                snap.masterdeck_index
            } else {
                old(self).last_masterdeck_index
            },
            final(self).new_deck == (old(self).new_deck || deck_switched(*old(self), *snap)),
            // per-deck track memory
            final(self).last_d1track == if deck1_track_new(*old(self), *snap) {
                snap.deck1_track_id
            } else {
                old(self).last_d1track
            },
            final(self).last_d2track == if deck2_track_new(*old(self), *snap) {
                snap.deck2_track_id
            } else {
                old(self).last_d2track
            },
            final(self).last_master_track == master_track_after(*old(self), *snap),
            // beat edge and phase
            final(self).last_beat == snap.master_beats,
            final(self).new_beat == (old(self).new_beat || beat_event(*old(self), *snap)),
            final(self).frac_num == phase_advance(
                if beat_event(*old(self), *snap) {
                    0
                } else {
                    old(self).frac_num
                },
                delta_micros,
                old(self).phase_bpm_centi,
            ),
            // time edge
            final(self).last_time == snap.master_time,
            final(self).new_time == (old(self).new_time || snap.master_time != old(
                self,
            ).last_time),
            // tempo carried to the next tick and to the reporter
            final(self).phase_bpm_centi == snap.bpm_centi,
            final(self).bpm_centi == snap.bpm_centi,
            final(self).bpm_read_ok == snap.bpm_read_ok,
            final(self).last_bpm_centi == old(self).last_bpm_centi,
            // the lookup to make now
            query == if master_track_changed(*old(self), *snap) && master_track_after(
                *old(self),
                *snap,
            ) > 0 {
                Some(master_track_after(*old(self), *snap))
            } else {
                None::<i32>
            },
            // untouched
            final(self).api_bearer == old(self).api_bearer,
            final(self).last_master_path == old(self).last_master_path,
            final(self).last_master_title == old(self).last_master_title,
            final(self).last_master_artist == old(self).last_master_artist,
            final(self).new_track == old(self).new_track,
    {
        let mut track_changed = false;
        if snap.masterdeck_index != self.last_masterdeck_index && snap.masterdeck_index <= 1 {
            self.last_masterdeck_index = snap.masterdeck_index;
            self.last_beat = snap.master_beats;
            if snap.masterdeck_index == 0 {
                self.last_master_track = snap.deck1_track_id;
            } else {
                self.last_master_track = snap.deck2_track_id;
            }
            track_changed = true;
            self.new_deck = true;
        }
        if snap.deck1_track_id != self.last_d1track && snap.deck1_track_id > 0 {
            self.last_d1track = snap.deck1_track_id;
            if snap.masterdeck_index == 0 {
                self.last_master_track = snap.deck1_track_id;
                track_changed = true;
            }
        }
        if snap.deck2_track_id != self.last_d2track && snap.deck2_track_id > 0 {
            self.last_d2track = snap.deck2_track_id;
            if snap.masterdeck_index == 1 {
                self.last_master_track = snap.deck2_track_id;
                track_changed = true;
            }
        }
        let mut frac = self.frac_num;
        if snap.master_beats != self.last_beat {
            self.last_beat = snap.master_beats;
            frac = 0;
            self.new_beat = true;
        }
        if snap.master_time != self.last_time {
            self.last_time = snap.master_time;
            self.new_time = true;
        }
        self.frac_num = advance_phase(frac, delta_micros, self.phase_bpm_centi);
        self.phase_bpm_centi = snap.bpm_centi;
        self.bpm_centi = snap.bpm_centi;
        self.bpm_read_ok = snap.bpm_read_ok;
        if track_changed && self.last_master_track > 0 {
            Some(self.last_master_track)
        } else {
            None
        }
    }

    /// One tick while no process is bound: the phase advances against
    /// the fixed fallback tempo and nothing else moves.
    pub fn advance_unbound(&mut self, delta_micros: u64)
        ensures
            final(self).wf(),
            final(self).frac_num == phase_advance(
                old(self).frac_num,
                delta_micros,
                FALLBACK_BPM_CENTI,
            ),
            *final(self) == (BeatKeeper { frac_num: final(self).frac_num, ..*old(self) }),
    {
        self.frac_num = advance_phase(self.frac_num, delta_micros, FALLBACK_BPM_CENTI);
    }

    /// Take over the bearer token of the snapshot's periodic refresh.
    pub fn update_api_bearer(&mut self, snap: &Snapshot)
        ensures
            final(self).api_bearer == snap.api_bearer,
            *final(self) == (BeatKeeper { api_bearer: final(self).api_bearer, ..*old(self) }),
    {
        self.api_bearer = snap.api_bearer.clone();
    }

    /// Feed back the outcome of the track lookup `update` asked for.
    /// Metadata moves and the track event rises exactly when the
    /// lookup succeeded; a failed lookup leaves everything untouched.
    pub fn apply_track(&mut self, info: Option<TrackInfo>)
        ensures
            match info {
                Some(t) => *final(self) == (BeatKeeper {
                    new_track: true,
                    last_master_title: t.title,
                    last_master_artist: t.artist,
                    last_master_path: t.folder_path,
                    ..*old(self)
                }),
                None => *final(self) == *old(self),
            },
    {
        if let Some(t) = info {
            self.last_master_title = t.title;
            self.last_master_artist = t.artist;
            self.last_master_path = t.folder_path;
            self.new_track = true;
        }
    }

    /// Report the tempo when it changed: the current tempo, exactly
    /// when its read succeeded this tick and it differs from the last
    /// reported one.  Never reports a tempo whose read failed.
    pub fn get_bpm_changed(&mut self) -> (r: Option<u32>)
        ensures
            r == if old(self).bpm_read_ok && old(self).bpm_centi != old(self).last_bpm_centi {
                Some(old(self).bpm_centi)
            } else {
                None::<u32>
            },
            final(self).last_bpm_centi == if r is Some {
                old(self).bpm_centi
            } else {
                old(self).last_bpm_centi
            },
            *final(self) == (BeatKeeper { last_bpm_centi: final(self).last_bpm_centi, ..*old(
                self,
            ) }),
    {
        if self.bpm_read_ok && self.bpm_centi != self.last_bpm_centi {
            self.last_bpm_centi = self.bpm_centi;
            Some(self.bpm_centi)
        } else {
            None
        }
    }

    /// Consume the beat event: its flag as it stood, then cleared, so
    /// a second call without a tick yields false.
    pub fn get_new_beat(&mut self) -> (r: bool)
        ensures
            r == old(self).new_beat,
            *final(self) == (BeatKeeper { new_beat: false, ..*old(self) }),
    {
        let r = self.new_beat;
        self.new_beat = false;
        r
    }

    /// Consume the time event.
    pub fn get_new_time(&mut self) -> (r: bool)
        ensures
            r == old(self).new_time,
            *final(self) == (BeatKeeper { new_time: false, ..*old(self) }),
    {
        let r = self.new_time;
        self.new_time = false;
        r
    }

    /// Consume the master-track event.
    pub fn get_new_master_track(&mut self) -> (r: bool)
        ensures
            r == old(self).new_track,
            *final(self) == (BeatKeeper { new_track: false, ..*old(self) }),
    {
        let r = self.new_track;
        self.new_track = false;
        r
    }

    /// Consume the master-deck event.
    pub fn get_new_master_deck(&mut self) -> (r: bool)
        ensures
            r == old(self).new_deck,
            *final(self) == (BeatKeeper { new_deck: false, ..*old(self) }),
    {
        let r = self.new_deck;
        self.new_deck = false;
        r
    }
}

/// The executable phase step: exact integer arithmetic, wide enough
/// that no product overflows, wrapped into one beat.
fn advance_phase(frac: u64, delta_micros: u64, bpm_centi: u32) -> (r: u64)
    ensures
        r == phase_advance(frac, delta_micros, bpm_centi),
        r < FRAC_DEN,
{
    let d: u128 = delta_micros as u128;
    let b: u128 = bpm_centi as u128;
    proof {
        assert(d * b <= 0xffff_ffff_ffff_ffff * 0xffff_ffff) by (nonlinear_arith)
            requires
                d <= 0xffff_ffff_ffff_ffff,
                b <= 0xffff_ffff,
        ;
    }
    let wide: u128 = (frac as u128) + d * b;
    (wide % (FRAC_DEN as u128)) as u64
}

} // verus!
