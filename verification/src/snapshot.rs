//! The per-tick observation of the DJ application.
//!
//! One `SnapshotReads` holds the outcome of every typed read of the
//! tick, each field absent when its read (or its chain resolution)
//! failed.  `Snapshot::apply_reads` folds it into the last-known state:
//! a failed read degrades only its own field, to its documented
//! default, and the master-side values follow the deck the application
//! designates.
//!
//! Tempo is carried in hundredths of a BPM so that the phase estimator
//! can integrate it exactly.

use vstd::prelude::*;

verus! {

/// BPM carried in hundredths: 120.00 BPM, the fallback tempo when the
/// tempo read fails.
pub const DEFAULT_BPM_CENTI: u32 = 12000;

/// The masterdeck index the application reports when undefined.
pub const MASTERDECK_UNDEFINED: u8 = 255;

/// Beat counter of one deck: four beats to the bar.
pub open spec fn beats_of(bar: int, beat: int) -> int {
    4 * bar + beat
}

/// The outcome of one tick's typed reads; a field is absent when its
/// pointer chain or its read failed this tick.
pub struct SnapshotReads {
    pub bpm_centi: Option<u32>,
    pub bar1: Option<i32>,
    pub beat1: Option<i32>,
    pub bar2: Option<i32>,
    pub beat2: Option<i32>,
    pub masterdeck_index: Option<u8>,
    pub deck1_time: Option<i32>,
    pub deck2_time: Option<i32>,
    pub deck1_track_id: Option<i32>,
    pub deck2_track_id: Option<i32>,
}

impl SnapshotReads {
    /// A tick on which every read failed.
    pub fn none() -> (r: Self)
        ensures
            r.bpm_centi is None,
            r.bar1 is None,
            r.beat1 is None,
            r.bar2 is None,
            r.beat2 is None,
            r.masterdeck_index is None,
            r.deck1_time is None,
            r.deck2_time is None,
            r.deck1_track_id is None,
            r.deck2_track_id is None,
    {
        SnapshotReads {
            bpm_centi: None,
            bar1: None,
            beat1: None,
            bar2: None,
            beat2: None,
            masterdeck_index: None,
            deck1_time: None,
            deck2_time: None,
            deck1_track_id: None,
            deck2_track_id: None,
        }
    }
}

/// Last-read values of every observed field, plus the master-side
/// values derived from the designated deck.
pub struct Snapshot {
    /// Beat counters, four beats to the bar; -1 until both the bar and
    /// the beat of the deck have been read once.
    pub beats1: i64,
    pub beats2: i64,
    /// Beat counter of the master deck; kept when the masterdeck index
    /// is undefined.
    pub master_beats: i64,
    /// Tempo in hundredths of a BPM.
    pub bpm_centi: u32,
    /// Whether the tempo read succeeded this tick.
    pub bpm_read_ok: bool,
    /// 0 or 1; `MASTERDECK_UNDEFINED` when unread.
    pub masterdeck_index: u8,
    /// Playback positions in milliseconds.
    pub deck1_time: i32,
    pub deck2_time: i32,
    pub deck1_track_id: i32,
    pub deck2_track_id: i32,
    /// Playback position of the master deck in milliseconds.
    pub master_time: i32,
    /// Bearer token harvested from the application, for its REST API.
    pub api_bearer: String,
}

impl Snapshot {
    pub fn new() -> (r: Self)
        ensures
            r.beats1 == -1int,
            r.beats2 == -1int,
            r.master_beats == 0,
            r.bpm_centi == DEFAULT_BPM_CENTI,
            !r.bpm_read_ok,
            r.masterdeck_index == MASTERDECK_UNDEFINED,
            r.deck1_time == 0,
            r.deck2_time == 0,
            r.deck1_track_id == 0,
            r.deck2_track_id == 0,
            r.master_time == 0,
            r.api_bearer@ == Seq::<char>::empty(),
    {
        Snapshot {
            beats1: -1,
            beats2: -1,
            master_beats: 0,
            bpm_centi: DEFAULT_BPM_CENTI,
            bpm_read_ok: false,
            masterdeck_index: MASTERDECK_UNDEFINED,
            deck1_time: 0,
            deck2_time: 0,
            deck1_track_id: 0,
            deck2_track_id: 0,
            master_time: 0,
            api_bearer: String::new(),
        }
    }

    /// Fold one tick's reads into the state.
    ///
    /// Per field on read failure: the tempo falls back to 120.00 BPM,
    /// the masterdeck index to undefined, times and track identifiers
    /// to 0; a deck's beat counter moves only when both its bar and its
    /// beat were read.  The master-side values follow the designated
    /// deck and are left untouched when the index is neither 0 nor 1.
    pub fn apply_reads(&mut self, r: &SnapshotReads)
        ensures
            final(self).bpm_centi == match r.bpm_centi {
                Some(v) => v,
                None => DEFAULT_BPM_CENTI,
            },
            final(self).bpm_read_ok == (r.bpm_centi is Some),
            final(self).beats1 == match (r.bar1, r.beat1) {
                (Some(bar), Some(beat)) => beats_of(bar as int, beat as int),
                _ => old(self).beats1 as int,
            },
            final(self).beats2 == match (r.bar2, r.beat2) {
                (Some(bar), Some(beat)) => beats_of(bar as int, beat as int),
                _ => old(self).beats2 as int,
            },
            final(self).masterdeck_index == match r.masterdeck_index {
                Some(v) => v,
                None => MASTERDECK_UNDEFINED,
            },
            final(self).deck1_time == match r.deck1_time {
                Some(v) => v,
                None => 0i32,
            },
            final(self).deck2_time == match r.deck2_time {
                Some(v) => v,
                None => 0i32,
            },
            final(self).deck1_track_id == match r.deck1_track_id {
                Some(v) => v,
                None => 0i32,
            },
            final(self).deck2_track_id == match r.deck2_track_id {
                Some(v) => v,
                None => 0i32,
            },
            final(self).master_beats == if final(self).masterdeck_index == 0 {
                final(self).beats1 as int
            } else if final(self).masterdeck_index == 1 {
                final(self).beats2 as int
            } else {
                old(self).master_beats as int
            },
            final(self).master_time == if final(self).masterdeck_index == 0 {
                final(self).deck1_time
            } else if final(self).masterdeck_index == 1 {
                final(self).deck2_time
            } else {
                old(self).master_time
            },
            final(self).api_bearer == old(self).api_bearer,
    {
        self.bpm_centi = match r.bpm_centi {
            Some(v) => v,
            None => DEFAULT_BPM_CENTI,
        };
        self.bpm_read_ok = match r.bpm_centi {
            Some(_) => true,
            None => false,
        };
        if let (Some(bar), Some(beat)) = (r.bar1, r.beat1) {
            self.beats1 = 4 * (bar as i64) + (beat as i64);
        }
        if let (Some(bar), Some(beat)) = (r.bar2, r.beat2) {
            self.beats2 = 4 * (bar as i64) + (beat as i64);
        }
        self.masterdeck_index = match r.masterdeck_index {
            Some(v) => v,
            None => MASTERDECK_UNDEFINED,
        };
        self.deck1_time = match r.deck1_time {
            Some(v) => v,
            None => 0,
        };
        self.deck2_time = match r.deck2_time {
            Some(v) => v,
            None => 0,
        };
        self.deck1_track_id = match r.deck1_track_id {
            Some(v) => v,
            None => 0,
        };
        self.deck2_track_id = match r.deck2_track_id {
            Some(v) => v,
            None => 0,
        };
        if self.masterdeck_index == 0 {
            self.master_beats = self.beats1;
            self.master_time = self.deck1_time;
        } else if self.masterdeck_index == 1 {
            self.master_beats = self.beats2;
            self.master_time = self.deck2_time;
        }
    }

    /// Take over the bearer buffer read this refresh, if it succeeded:
    /// cut at the first NUL, decoded as UTF-8 (empty on a decode
    /// failure) and stripped of surrounding ASCII whitespace.  A failed
    /// read keeps the previous token.
    pub fn update_api_bearer(&mut self, read: Option<Vec<u8>>)
        ensures
            final(self).api_bearer@ == match read {
                Some(buf) => crate::bearer::bearer_chars(buf@),
                None => old(self).api_bearer@,
            },
            final(self).beats1 == old(self).beats1,
            final(self).beats2 == old(self).beats2,
            final(self).master_beats == old(self).master_beats,
            final(self).bpm_centi == old(self).bpm_centi,
            final(self).bpm_read_ok == old(self).bpm_read_ok,
            final(self).masterdeck_index == old(self).masterdeck_index,
            final(self).deck1_time == old(self).deck1_time,
            final(self).deck2_time == old(self).deck2_time,
            final(self).deck1_track_id == old(self).deck1_track_id,
            final(self).deck2_track_id == old(self).deck2_track_id,
            final(self).master_time == old(self).master_time,
    {
        if let Some(buf) = read {
            self.api_bearer = crate::bearer::decode_bearer(&buf);
        }
    }
}

} // verus!
