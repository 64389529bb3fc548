//! The offsets catalogue: one named set of pointer chains per target
//! version of the observed application.
//!
//! The catalogue is a flat text file, read as lines of
//! whitespace-separated tokens.  A line of exactly one token opens the
//! bundle of that version; a line of two or more tokens names one
//! chain: the field's name, then its offsets in hexadecimal, the last
//! number being the final offset.  Empty lines and lines opening with
//! `#` say nothing, as does a chain line whose numbers do not parse or
//! whose name is not an observed field; a version whose bundle is
//! missing a field is dropped.  Reading the file is the caller's
//! business: the parser takes the bytes.

use vstd::prelude::*;
use vstd::string::StringSliceAdditionalSpecFns;
use vstd::utf8::encode_utf8;
use crate::chain::{ChainModel, PointerChain};

verus! {

/// A byte that separates tokens within a line.
pub open spec fn is_sep_byte(b: u8) -> bool {
    b == 32 || b == 9 || b == 13
}

/// Index of the first line feed, or the length if there is none.
pub open spec fn first_lf(s: Seq<u8>) -> int
    decreases s.len(),
{
    if s.len() == 0 {
        0
    } else if s[0] == 10 {
        0
    } else {
        1 + first_lf(s.skip(1))
    }
}

/// Index of the first separator byte, or the length if there is none.
pub open spec fn first_sep(s: Seq<u8>) -> int
    decreases s.len(),
{
    if s.len() == 0 {
        0
    } else if is_sep_byte(s[0]) {
        0
    } else {
        1 + first_sep(s.skip(1))
    }
}

/// The line's tokens: its maximal runs of non-separator bytes.
pub open spec fn spec_tokens(line: Seq<u8>) -> Seq<Seq<u8>>
    decreases line.len(),
{
    if line.len() == 0 {
        Seq::empty()
    } else if is_sep_byte(line[0]) {
        spec_tokens(line.skip(1))
    } else {
        let k = first_sep(line);
        if 1 <= k && k <= line.len() {
            seq![line.take(k)] + spec_tokens(line.skip(k))
        } else {
            seq![line]
        }
    }
}

proof fn lemma_first_lf_at(s: Seq<u8>, i: int)
    requires
        0 <= i <= s.len(),
        forall|j: int| 0 <= j < i ==> s[j] != 10,
        i < s.len() ==> s[i] == 10,
    ensures
        first_lf(s) == i,
    decreases s.len(),
{
    if s.len() == 0 {
    } else if i == 0 {
    } else {
        lemma_first_lf_at(s.skip(1), i - 1);
    }
}

proof fn lemma_first_sep_at(s: Seq<u8>, i: int)
    requires
        0 <= i <= s.len(),
        forall|j: int| 0 <= j < i ==> !is_sep_byte(s[j]),
        i < s.len() ==> is_sep_byte(s[i]),
    ensures
        first_sep(s) == i,
    decreases s.len(),
{
    if s.len() == 0 {
    } else if i == 0 {
    } else {
        lemma_first_sep_at(s.skip(1), i - 1);
    }
}

/// A hexadecimal digit, upper or lower case.
pub open spec fn is_hex_digit(b: u8) -> bool {
    (48 <= b && b <= 57) || (97 <= b && b <= 102) || (65 <= b && b <= 70)
}

/// Its value.
pub open spec fn hex_digit_val(b: u8) -> int {
    if 48 <= b && b <= 57 {
        b - 48
    } else if 97 <= b && b <= 102 {
        b - 87
    } else {
        b - 55
    }
}

/// The number a string of hexadecimal digits names.
pub open spec fn hex_val(s: Seq<u8>) -> int
    decreases s.len(),
{
    if s.len() == 0 {
        0
    } else {
        16 * hex_val(s.drop_last()) + hex_digit_val(s.last())
    }
}

spec fn pow16(n: nat) -> int
    decreases n,
{
    if n == 0 {
        1
    } else {
        16 * pow16((n - 1) as nat)
    }
}

proof fn lemma_pow16_pos(n: nat)
    ensures
        pow16(n) >= 1,
    decreases n,
{
    if n > 0 {
        lemma_pow16_pos((n - 1) as nat);
    }
}

proof fn lemma_hex_val_bound(s: Seq<u8>)
    requires
        forall|i: int| 0 <= i < s.len() ==> is_hex_digit(#[trigger] s[i]),
    ensures
        0 <= hex_val(s) < pow16(s.len()),
    decreases s.len(),
{
    if s.len() > 0 {
        lemma_hex_val_bound(s.drop_last());
    }
}

proof fn lemma_pow16_mono(a: nat, b: nat)
    requires
        a <= b,
    ensures
        pow16(a) <= pow16(b),
    decreases b,
{
    if a < b {
        lemma_pow16_mono(a, (b - 1) as nat);
        lemma_pow16_pos((b - 1) as nat);
    }
}

fn hex_digit(b: u8) -> (r: Option<u8>)
    ensures
        (r is Some) == is_hex_digit(b),
        r matches Some(d) ==> d == hex_digit_val(b),
{
    if 48 <= b && b <= 57 {
        Some(b - 48)
    } else if 97 <= b && b <= 102 {
        Some(b - 87)
    } else if 65 <= b && b <= 70 {
        Some(b - 55)
    } else {
        None
    }
}

/// A token that names a number: one to sixteen hexadecimal digits.
pub open spec fn hex_token(t: Seq<u8>) -> bool {
    1 <= t.len() <= 16 && forall|i: int| 0 <= i < t.len() ==> is_hex_digit(#[trigger] t[i])
}

/// Parse a hexadecimal token: its value, present exactly when the
/// token is one to sixteen hexadecimal digits.
pub fn parse_hex(tok: &[u8]) -> (r: Option<u64>)
    ensures
        (r is Some) == hex_token(tok@),
        r matches Some(v) ==> v == hex_val(tok@),
{
    let n = tok.len();
    if n == 0 || n > 16 {
        return None;
    }
    let mut acc: u64 = 0;
    let mut i: usize = 0;
    while i < n
        invariant
            0 <= i <= n,
            1 <= n <= 16,
            n == tok@.len(),
            forall|j: int| 0 <= j < i ==> is_hex_digit(#[trigger] tok@[j]),
            acc == hex_val(tok@.take(i as int)),
            acc < pow16(i as nat),
        decreases n - i,
    {
        match hex_digit(tok[i]) {
            None => {
                return None;
            },
            Some(d) => {
                proof {
                    assert(tok@.take(i + 1 as int).drop_last() =~= tok@.take(i as int));
                    lemma_pow16_mono((i + 1) as nat, 16nat);
                    reveal_with_fuel(pow16, 17);
                    assert(pow16(16nat) == 0x1_0000_0000_0000_0000);
                }
                acc = 16 * acc + (d as u64);
                i = i + 1;
            },
        }
    }
    proof {
        assert(tok@.take(n as int) =~= tok@);
    }
    Some(acc)
}

/// Whether two byte strings hold the same bytes.
pub fn bytes_eq(a: &[u8], b: &[u8]) -> (r: bool)
    ensures
        r == (a@ == b@),
{
    if a.len() != b.len() {
        return false;
    }
    let n = a.len();
    let mut i: usize = 0;
    while i < n
        invariant
            0 <= i <= n,
            n == a@.len() == b@.len(),
            forall|j: int| 0 <= j < i ==> a@[j] == b@[j],
        decreases n - i,
    {
        if a[i] != b[i] {
            return false;
        }
        i = i + 1;
    }
    proof {
        assert(a@ =~= b@);
    }
    true
}

/// One pointer chain per observed field of a target version.
pub struct OffsetsBundle {
    pub master_bpm: PointerChain,
    pub deck1bar: PointerChain,
    pub deck1beat: PointerChain,
    pub deck2bar: PointerChain,
    pub deck2beat: PointerChain,
    pub masterdeck_index: PointerChain,
    pub deck1_time: PointerChain,
    pub deck2_time: PointerChain,
    pub deck1_track_id: PointerChain,
    pub deck2_track_id: PointerChain,
    pub api_bearer: PointerChain,
}

struct PartialBundle {
    master_bpm: Option<PointerChain>,
    deck1bar: Option<PointerChain>,
    deck1beat: Option<PointerChain>,
    deck2bar: Option<PointerChain>,
    deck2beat: Option<PointerChain>,
    masterdeck_index: Option<PointerChain>,
    deck1_time: Option<PointerChain>,
    deck2_time: Option<PointerChain>,
    deck1_track_id: Option<PointerChain>,
    deck2_track_id: Option<PointerChain>,
    api_bearer: Option<PointerChain>,
}

impl PartialBundle {
    fn empty() -> (r: Self)
        ensures
            r@ == empty_partial(),
    {
        PartialBundle {
            master_bpm: None,
            deck1bar: None,
            deck1beat: None,
            deck2bar: None,
            deck2beat: None,
            masterdeck_index: None,
            deck1_time: None,
            deck2_time: None,
            deck1_track_id: None,
            deck2_track_id: None,
            api_bearer: None,
        }
    }

    /// Set the field the name denotes to this chain; a name that is no
    /// observed field says nothing.
    fn assign(&mut self, name: &[u8], chain: PointerChain)
        ensures
            final(self)@ == upd_partial(old(self)@, name@, chain@),
    {
        let ghost c0 = self@;
        let ghost nm = name@;
        let ghost cm = chain@;
        if bytes_eq(name, "master_bpm".as_bytes()) {
            self.master_bpm = Some(chain);
            proof {
                assert(self@ =~~= upd_partial(c0, nm, cm));
            }
        } else if bytes_eq(name, "deck1bar".as_bytes()) {
            self.deck1bar = Some(chain);
            proof {
                assert(self@ =~~= upd_partial(c0, nm, cm));
            }
        } else if bytes_eq(name, "deck1beat".as_bytes()) {
            self.deck1beat = Some(chain);
            proof {
                assert(self@ =~~= upd_partial(c0, nm, cm));
            }
        } else if bytes_eq(name, "deck2bar".as_bytes()) {
            self.deck2bar = Some(chain);
            proof {
                assert(self@ =~~= upd_partial(c0, nm, cm));
            }
        } else if bytes_eq(name, "deck2beat".as_bytes()) {
            self.deck2beat = Some(chain);
            proof {
                assert(self@ =~~= upd_partial(c0, nm, cm));
            }
        } else if bytes_eq(name, "masterdeck_index".as_bytes()) {
            self.masterdeck_index = Some(chain);
            proof {
                assert(self@ =~~= upd_partial(c0, nm, cm));
            }
        } else if bytes_eq(name, "deck1_time".as_bytes()) {
            self.deck1_time = Some(chain);
            proof {
                assert(self@ =~~= upd_partial(c0, nm, cm));
            }
        } else if bytes_eq(name, "deck2_time".as_bytes()) {
            self.deck2_time = Some(chain);
            proof {
                assert(self@ =~~= upd_partial(c0, nm, cm));
            }
        } else if bytes_eq(name, "deck1_track_id".as_bytes()) {
            self.deck1_track_id = Some(chain);
            proof {
                assert(self@ =~~= upd_partial(c0, nm, cm));
            }
        } else if bytes_eq(name, "deck2_track_id".as_bytes()) {
            self.deck2_track_id = Some(chain);
            proof {
                assert(self@ =~~= upd_partial(c0, nm, cm));
            }
        } else if bytes_eq(name, "api_bearer".as_bytes()) {
            self.api_bearer = Some(chain);
            proof {
                assert(self@ =~~= upd_partial(c0, nm, cm));
            }
        } else {
            proof {
                assert(self@ =~~= upd_partial(c0, nm, cm));
            }
        }
    }

    /// The finished bundle: present exactly when every observed field
    /// has its chain, each carried over unchanged.
    fn complete(self) -> (r: Option<OffsetsBundle>)
        ensures
            (r is Some) == (self.master_bpm is Some && self.deck1bar is Some && self.deck1beat
                is Some && self.deck2bar is Some && self.deck2beat is Some && self.masterdeck_index
                is Some && self.deck1_time is Some && self.deck2_time is Some
                && self.deck1_track_id is Some && self.deck2_track_id is Some && self.api_bearer
                is Some),
            r matches Some(b) ==> self.master_bpm == Some(b.master_bpm) && self.deck1bar == Some(
                b.deck1bar,
            ) && self.deck1beat == Some(b.deck1beat) && self.deck2bar == Some(b.deck2bar)
                && self.deck2beat == Some(b.deck2beat) && self.masterdeck_index == Some(
                b.masterdeck_index,
            ) && self.deck1_time == Some(b.deck1_time) && self.deck2_time == Some(b.deck2_time)
                && self.deck1_track_id == Some(b.deck1_track_id) && self.deck2_track_id == Some(
                b.deck2_track_id,
            ) && self.api_bearer == Some(b.api_bearer),
    {
        match (self.master_bpm, self.deck1bar, self.deck1beat, self.deck2bar, self.deck2beat) {
            (Some(master_bpm), Some(deck1bar), Some(deck1beat), Some(deck2bar), Some(deck2beat)) => {
                match (self.masterdeck_index, self.deck1_time, self.deck2_time) {
                    (Some(masterdeck_index), Some(deck1_time), Some(deck2_time)) => {
                        match (self.deck1_track_id, self.deck2_track_id, self.api_bearer) {
                            (Some(deck1_track_id), Some(deck2_track_id), Some(api_bearer)) => Some(
                                OffsetsBundle {
                                    master_bpm,
                                    deck1bar,
                                    deck1beat,
                                    deck2bar,
                                    deck2beat,
                                    masterdeck_index,
                                    deck1_time,
                                    deck2_time,
                                    deck1_track_id,
                                    deck2_track_id,
                                    api_bearer,
                                },
                            ),
                            _ => None,
                        }
                    },
                    _ => None,
                }
            },
            _ => None,
        }
    }
}

/// The mathematical content of a bundle.
#[verifier::ext_equal]
pub ghost struct BundleModel {
    pub master_bpm: ChainModel,
    pub deck1bar: ChainModel,
    pub deck1beat: ChainModel,
    pub deck2bar: ChainModel,
    pub deck2beat: ChainModel,
    pub masterdeck_index: ChainModel,
    pub deck1_time: ChainModel,
    pub deck2_time: ChainModel,
    pub deck1_track_id: ChainModel,
    pub deck2_track_id: ChainModel,
    pub api_bearer: ChainModel,
}

/// A bundle under construction: the fields seen so far.
#[verifier::ext_equal]
pub ghost struct PartialModel {
    pub master_bpm: Option<ChainModel>,
    pub deck1bar: Option<ChainModel>,
    pub deck1beat: Option<ChainModel>,
    pub deck2bar: Option<ChainModel>,
    pub deck2beat: Option<ChainModel>,
    pub masterdeck_index: Option<ChainModel>,
    pub deck1_time: Option<ChainModel>,
    pub deck2_time: Option<ChainModel>,
    pub deck1_track_id: Option<ChainModel>,
    pub deck2_track_id: Option<ChainModel>,
    pub api_bearer: Option<ChainModel>,
}

pub open spec fn opt_chain_model(o: Option<PointerChain>) -> Option<ChainModel> {
    match o {
        Some(c) => Some(c@),
        None => None,
    }
}

impl View for OffsetsBundle {
    type V = BundleModel;

    open spec fn view(&self) -> BundleModel {
        BundleModel {
            master_bpm: self.master_bpm@,
            deck1bar: self.deck1bar@,
            deck1beat: self.deck1beat@,
            deck2bar: self.deck2bar@,
            deck2beat: self.deck2beat@,
            masterdeck_index: self.masterdeck_index@,
            deck1_time: self.deck1_time@,
            deck2_time: self.deck2_time@,
            deck1_track_id: self.deck1_track_id@,
            deck2_track_id: self.deck2_track_id@,
            api_bearer: self.api_bearer@,
        }
    }
}

impl View for PartialBundle {
    type V = PartialModel;

    closed spec fn view(&self) -> PartialModel {
        PartialModel {
            master_bpm: opt_chain_model(self.master_bpm),
            deck1bar: opt_chain_model(self.deck1bar),
            deck1beat: opt_chain_model(self.deck1beat),
            deck2bar: opt_chain_model(self.deck2bar),
            deck2beat: opt_chain_model(self.deck2beat),
            masterdeck_index: opt_chain_model(self.masterdeck_index),
            deck1_time: opt_chain_model(self.deck1_time),
            deck2_time: opt_chain_model(self.deck2_time),
            deck1_track_id: opt_chain_model(self.deck1_track_id),
            deck2_track_id: opt_chain_model(self.deck2_track_id),
            api_bearer: opt_chain_model(self.api_bearer),
        }
    }
}

pub open spec fn empty_partial() -> PartialModel {
    PartialModel {
        master_bpm: None,
        deck1bar: None,
        deck1beat: None,
        deck2bar: None,
        deck2beat: None,
        masterdeck_index: None,
        deck1_time: None,
        deck2_time: None,
        deck1_track_id: None,
        deck2_track_id: None,
        api_bearer: None,
    }
}

/// The finished bundle of a construction, when every field is there.
pub open spec fn complete_model(p: PartialModel) -> Option<BundleModel> {
    if p.master_bpm is Some && p.deck1bar is Some && p.deck1beat is Some && p.deck2bar is Some
        && p.deck2beat is Some && p.masterdeck_index is Some && p.deck1_time is Some
        && p.deck2_time is Some && p.deck1_track_id is Some && p.deck2_track_id is Some
        && p.api_bearer is Some {
        Some(
            BundleModel {
                master_bpm: p.master_bpm.unwrap(),
                deck1bar: p.deck1bar.unwrap(),
                deck1beat: p.deck1beat.unwrap(),
                deck2bar: p.deck2bar.unwrap(),
                deck2beat: p.deck2beat.unwrap(),
                masterdeck_index: p.masterdeck_index.unwrap(),
                deck1_time: p.deck1_time.unwrap(),
                deck2_time: p.deck2_time.unwrap(),
                deck1_track_id: p.deck1_track_id.unwrap(),
                deck2_track_id: p.deck2_track_id.unwrap(),
                api_bearer: p.api_bearer.unwrap(),
            },
        )
    } else {
        None
    }
}

/// Close the open version: its entry appended if its bundle finished.
pub open spec fn flush_entry(
    ver: Option<Seq<u8>>,
    cur: PartialModel,
    acc: Seq<(Seq<u8>, BundleModel)>,
) -> Seq<(Seq<u8>, BundleModel)> {
    match ver {
        Some(v) => match complete_model(cur) {
            Some(b) => acc.push((v, b)),
            None => acc,
        },
        None => acc,
    }
}

/// The chain a run of numbers names: all but the last as hops, the
/// last the final offset.
pub open spec fn chain_of_nums(nums: Seq<u64>) -> ChainModel
    recommends
        nums.len() >= 1,
{
    ChainModel { offsets: nums.take(nums.len() - 1), final_offset: nums.last() }
}

/// The numbers of a chain line: the value of every token after the
/// name, if all of them are hexadecimal.
pub open spec fn nums_of_tokens(toks: Seq<Seq<u8>>) -> Option<Seq<u64>> {
    if forall|i: int| 1 <= i < toks.len() ==> hex_token(#[trigger] toks[i]) {
        Some(Seq::new((toks.len() - 1) as nat, |j: int| (hex_val(toks[j + 1]) as u64)))
    } else {
        None
    }
}

/// The field the name denotes set to the chain.
pub open spec fn upd_partial(cur: PartialModel, name: Seq<u8>, c: ChainModel) -> PartialModel {
    if name == encode_utf8("master_bpm"@) {
        PartialModel { master_bpm: Some(c), ..cur }
    } else if name == encode_utf8("deck1bar"@) {
        PartialModel { deck1bar: Some(c), ..cur }
    } else if name == encode_utf8("deck1beat"@) {
        PartialModel { deck1beat: Some(c), ..cur }
    } else if name == encode_utf8("deck2bar"@) {
        PartialModel { deck2bar: Some(c), ..cur }
    } else if name == encode_utf8("deck2beat"@) {
        PartialModel { deck2beat: Some(c), ..cur }
    } else if name == encode_utf8("masterdeck_index"@) {
        PartialModel { masterdeck_index: Some(c), ..cur }
    } else if name == encode_utf8("deck1_time"@) {
        PartialModel { deck1_time: Some(c), ..cur }
    } else if name == encode_utf8("deck2_time"@) {
        PartialModel { deck2_time: Some(c), ..cur }
    } else if name == encode_utf8("deck1_track_id"@) {
        PartialModel { deck1_track_id: Some(c), ..cur }
    } else if name == encode_utf8("deck2_track_id"@) {
        PartialModel { deck2_track_id: Some(c), ..cur }
    } else if name == encode_utf8("api_bearer"@) {
        PartialModel { api_bearer: Some(c), ..cur }
    } else {
        cur
    }
}

/// One line folded into the parse state: nothing on an empty or
/// comment line, a version header closes the open bundle and opens a
/// fresh one, and a chain line whose numbers all parse sets its field.
pub open spec fn line_step(
    ver: Option<Seq<u8>>,
    cur: PartialModel,
    acc: Seq<(Seq<u8>, BundleModel)>,
    line: Seq<u8>,
) -> (Option<Seq<u8>>, PartialModel, Seq<(Seq<u8>, BundleModel)>) {
    let toks = spec_tokens(line);
    if toks.len() == 0 || (toks[0].len() > 0 && toks[0][0] == 35) {
        (ver, cur, acc)
    } else if toks.len() == 1 {
        (Some(toks[0]), empty_partial(), flush_entry(ver, cur, acc))
    } else {
        match nums_of_tokens(toks) {
            Some(nums) => (ver, upd_partial(cur, toks[0], chain_of_nums(nums)), acc),
            None => (ver, cur, acc),
        }
    }
}

/// The catalogue a text names, read line by line from the parse state.
pub open spec fn cat_text(
    t: Seq<u8>,
    ver: Option<Seq<u8>>,
    cur: PartialModel,
    acc: Seq<(Seq<u8>, BundleModel)>,
) -> Seq<(Seq<u8>, BundleModel)>
    decreases t.len(),
{
    if t.len() == 0 {
        flush_entry(ver, cur, acc)
    } else {
        let k = first_lf(t);
        if 0 <= k && k < t.len() {
            let st = line_step(ver, cur, acc, t.take(k));
            cat_text(t.skip(k + 1), st.0, st.1, st.2)
        } else {
            let st = line_step(ver, cur, acc, t);
            flush_entry(st.0, st.1, st.2)
        }
    }
}

/// The whole catalogue of a text.
pub open spec fn spec_catalogue(t: Seq<u8>) -> Seq<(Seq<u8>, BundleModel)> {
    cat_text(t, None::<Seq<u8>>, empty_partial(), Seq::empty())
}

pub open spec fn entries_model(s: Seq<(Vec<u8>, OffsetsBundle)>) -> Seq<(Seq<u8>, BundleModel)> {
    s.map_values(|e: (Vec<u8>, OffsetsBundle)| (e.0@, e.1@))
}

pub open spec fn ver_model(v: Option<Vec<u8>>) -> Option<Seq<u8>> {
    match v {
        Some(x) => Some(x@),
        None => None,
    }
}

/// The parsed catalogue: version names with their bundles, in file
/// order.
pub struct Catalogue {
    pub entries: Vec<(Vec<u8>, OffsetsBundle)>,
}

impl Catalogue {
    /// The bundle of a version: the first entry carrying that name,
    /// nothing exactly when no entry does.
    pub fn get(&self, version: &[u8]) -> (r: Option<&OffsetsBundle>)
        ensures
            match r {
                Some(b) => exists|i: int|
                    0 <= i < self.entries@.len() && #[trigger] self.entries@[i].0@ == version@ && *b
                        == self.entries@[i].1,
                None => forall|i: int|
                    0 <= i < self.entries@.len() ==> #[trigger] self.entries@[i].0@ != version@,
            },
    {
        let n = self.entries.len();
        let mut i: usize = 0;
        while i < n
            invariant
                0 <= i <= n,
                n == self.entries@.len(),
                forall|j: int| 0 <= j < i ==> #[trigger] self.entries@[j].0@ != version@,
            decreases n - i,
        {
            let e = &self.entries[i];
            if bytes_eq(e.0.as_slice(), version) {
                return Some(&e.1);
            }
            i = i + 1;
        }
        None
    }
}

fn is_sep(b: u8) -> (r: bool)
    ensures
        r == is_sep_byte(b),
{
    b == 32 || b == 9 || b == 13
}

/// The line's tokens, exactly as `spec_tokens` reads them.
fn split_tokens(line: &[u8]) -> (r: Vec<Vec<u8>>)
    ensures
        r.deep_view() == spec_tokens(line@),
{
    let n = line.len();
    let mut toks: Vec<Vec<u8>> = Vec::new();
    let mut i: usize = 0;
    proof {
        assert(toks.deep_view() =~~= Seq::<Seq<u8>>::empty());
        assert(line@.skip(0) =~= line@);
        assert(Seq::<Seq<u8>>::empty() + spec_tokens(line@) =~= spec_tokens(line@));
    }
    while i < n
        invariant
            0 <= i <= n,
            n == line@.len(),
            spec_tokens(line@) == toks.deep_view() + spec_tokens(line@.skip(i as int)),
        decreases n - i,
    {
        if is_sep(line[i]) {
            proof {
                let rest = line@.skip(i as int);
                assert(rest[0] == line@[i as int]);
                assert(rest.skip(1) =~= line@.skip(i + 1 as int));
            }
            i = i + 1;
        } else {
            let start = i;
            let mut tok: Vec<u8> = Vec::new();
            proof {
                assert(tok@ =~= line@.subrange(start as int, start as int));
            }
            tok.push(line[i]);
            proof {
                assert(tok@ =~= line@.subrange(start as int, start + 1 as int));
            }
            i = i + 1;
            while i < n && !is_sep(line[i])
                invariant
                    start < i <= n,
                    n == line@.len(),
                    tok@ == line@.subrange(start as int, i as int),
                    forall|j: int| start <= j < i ==> !is_sep_byte(line@[j]),
                    !is_sep_byte(line@[start as int]),
                decreases n - i,
            {
                proof {
                    assert(line@.subrange(start as int, i + 1 as int) =~= line@.subrange(
                        start as int,
                        i as int,
                    ).push(line@[i as int]));
                }
                tok.push(line[i]);
                i = i + 1;
            }
            proof {
                let rest = line@.skip(start as int);
                let k = i - start;
                assert forall|j2: int| 0 <= j2 < k implies !is_sep_byte(rest[j2]) by {
                    assert(rest[j2] == line@[j2 + start]);
                }
                if i < n {
                    assert(rest[k] == line@[i as int]);
                }
                lemma_first_sep_at(rest, k);
                assert(rest[0] == line@[start as int]);
                assert(tok@ =~= rest.take(k));
                assert(rest.skip(k) =~= line@.skip(i as int));
                assert(spec_tokens(rest) == seq![tok@] + spec_tokens(line@.skip(i as int)));
            }
            let ghost td = toks.deep_view();
            toks.push(tok);
            proof {
                assert(toks.deep_view() =~~= td.push(tok@));
                assert(td.push(tok@) + spec_tokens(line@.skip(i as int)) =~~= td + (seq![tok@]
                    + spec_tokens(line@.skip(i as int))));
            }
        }
    }
    proof {
        assert(line@.skip(n as int) =~= Seq::<u8>::empty());
        assert(toks.deep_view() + spec_tokens(line@.skip(n as int)) =~~= toks.deep_view());
    }
    toks
}

/// One chain line's numbers: the value of every token after the name,
/// or nothing exactly when some of those tokens is not hexadecimal.
fn parse_numbers(toks: &Vec<Vec<u8>>) -> (r: Option<Vec<u64>>)
    requires
        toks@.len() >= 1,
    ensures
        (r is Some) == (forall|i: int| 1 <= i < toks@.len() ==> hex_token(#[trigger] toks@[i]@)),
        r matches Some(nums) ==> nums@.len() == toks@.len() - 1 && forall|i: int|
            1 <= i < toks@.len() ==> nums@[i - 1] == hex_val(#[trigger] toks@[i]@),
{
    let n = toks.len();
    let mut nums: Vec<u64> = Vec::new();
    let mut i: usize = 1;
    while i < n
        invariant
            1 <= i <= n,
            n == toks@.len(),
            nums@.len() == i - 1,
            forall|j: int| 1 <= j < i ==> hex_token(#[trigger] toks@[j]@),
            forall|j: int| 1 <= j < i ==> nums@[j - 1] == hex_val(#[trigger] toks@[j]@),
        decreases n - i,
    {
        match parse_hex(toks[i].as_slice()) {
            Some(v) => {
                nums.push(v);
            },
            None => {
                assert(!hex_token(toks@[i as int]@));
                return None;
            },
        }
        i = i + 1;
    }
    Some(nums)
}

fn chain_of(nums: &Vec<u64>) -> (r: PointerChain)
    requires
        nums@.len() >= 1,
    ensures
        r@.offsets == nums@.take(nums@.len() - 1),
        r@.final_offset == nums@.last(),
{
    let n = nums.len();
    let mut offsets: Vec<u64> = Vec::new();
    let mut i: usize = 0;
    while i < n - 1
        invariant
            0 <= i <= n - 1,
            1 <= n == nums@.len(),
            offsets@ == nums@.take(i as int),
        decreases n - 1 - i,
    {
        proof {
            assert(nums@.take(i + 1 as int) =~= nums@.take(i as int).push(nums@[i as int]));
        }
        offsets.push(nums[i]);
        i = i + 1;
    }
    PointerChain { offsets, final_offset: nums[n - 1] }
}

/// The next line of the text: its bytes up to the first line feed at
/// or after `start`, and the position just past that line feed (or the
/// end).
fn take_line(text: &[u8], start: usize) -> (r: (Vec<u8>, usize))
    requires
        start <= text@.len(),
    ensures
        r.0@ == text@.skip(start as int).take(first_lf(text@.skip(start as int))),
        r.1 == start + first_lf(text@.skip(start as int)) + (if start + first_lf(
            text@.skip(start as int),
        ) < text@.len() {
            1int
        } else {
            0int
        }),
        start < text@.len() ==> start < r.1 <= text@.len(),
        start == text@.len() ==> r.1 == start,
{
    let n = text.len();
    let mut i = start;
    let mut line: Vec<u8> = Vec::new();
    while i < n && text[i] != 10
        invariant
            start <= i <= n,
            n == text@.len(),
            line@ == text@.subrange(start as int, i as int),
            forall|j: int| start <= j < i ==> text@[j] != 10,
        decreases n - i,
    {
        proof {
            assert(text@.subrange(start as int, i + 1 as int) =~= text@.subrange(
                start as int,
                i as int,
            ).push(text@[i as int]));
        }
        line.push(text[i]);
        i = i + 1;
    }
    proof {
        let rest = text@.skip(start as int);
        assert forall|j2: int| 0 <= j2 < i - start implies rest[j2] != 10 by {
            assert(rest[j2] == text@[j2 + start]);
        }
        if i < n {
            assert(rest[i - start] == text@[i as int]);
        }
        lemma_first_lf_at(rest, i - start);
        assert(line@ =~= rest.take(i - start));
    }
    if i < n {
        i = i + 1;
    }
    (line, i)
}

/// Close the open version into the entries, exactly as `flush_entry`
/// says, and open the named one.
fn open_version(
    entries: &mut Vec<(Vec<u8>, OffsetsBundle)>,
    cur_version: Option<Vec<u8>>,
    done: PartialBundle,
    tok: Vec<u8>,
) -> (nv: Option<Vec<u8>>)
    ensures
        entries_model(final(entries)@) == flush_entry(
            ver_model(cur_version),
            done@,
            entries_model(old(entries)@),
        ),
        ver_model(nv) == Some(tok@),
{
    let ghost c0 = done@;
    if let Some(v) = cur_version {
        match done.complete() {
            Some(b) => {
                proof {
                    assert(complete_model(c0).unwrap() =~~= b@);
                    assert(complete_model(c0) == Some(b@));
                }
                let ghost before = entries_model(entries@);
                let ghost vv = v@;
                entries.push((v, b));
                proof {
                    assert(entries_model(entries@) =~= before.push((vv, b@)));
                }
            },
            None => {
                proof {
                    assert(complete_model(c0) is None);
                }
            },
        }
    }
    Some(tok)
}

/// Fold one chain line into the open bundle, exactly as `line_step`
/// reads it: the named field set when every number parses, nothing
/// otherwise.
#[verifier::rlimit(100)]
fn add_chain_line(cur: &mut PartialBundle, toks: &Vec<Vec<u8>>)
    requires
        toks@.len() >= 2,
    ensures
        final(cur)@ == match nums_of_tokens(toks.deep_view()) {
            Some(nums) => upd_partial(old(cur)@, toks.deep_view()[0], chain_of_nums(nums)),
            None => old(cur)@,
        },
{
    let ghost c0 = cur@;
    let ghost tv = toks.deep_view();
    proof {
        assert(tv.len() == toks@.len());
        assert forall|i: int| 0 <= i < toks@.len() implies tv[i] == #[trigger] toks@[i]@ by {
            assert(toks@[i].deep_view() =~= toks@[i]@);
            assert(tv[i] == toks@[i].deep_view());
        }
    }
    match parse_numbers(toks) {
        Some(nums) => {
            proof {
                assert forall|i: int| 1 <= i < tv.len() implies hex_token(#[trigger] tv[i]) by {
                    assert(tv[i] == toks@[i]@);
                }
                let snums = nums_of_tokens(tv).unwrap();
                assert forall|j: int|
                    0 <= j < nums@.len() implies nums@[j] == #[trigger] snums[j] by {
                    assert(nums@[j] == hex_val(toks@[j + 1]@));
                    assert(tv[j + 1] == toks@[j + 1]@);
                }
                assert(nums@ =~= snums);
            }
            if nums.len() >= 1 {
                let chain = chain_of(&nums);
                proof {
                    assert(chain@ =~~= chain_of_nums(nums@));
                }
                cur.assign(toks[0].as_slice(), chain);
                proof {
                    assert(cur@ == upd_partial(c0, tv[0], chain_of_nums(nums@)));
                }
            }
        },
        None => {
            proof {
                assert(exists|i: int| 1 <= i < toks@.len() && !hex_token(#[trigger] toks@[i]@));
                let i0 = choose|i: int| 1 <= i < toks@.len() && !hex_token(#[trigger] toks@[i]@);
                assert(tv[i0] == toks@[i0]@);
                assert(!hex_token(tv[i0]));
                assert(nums_of_tokens(tv) is None);
            }
        },
    }
}

/// Parse the whole catalogue text: exactly the catalogue
/// `spec_catalogue` reads line by line, versions in file order.
#[verifier::rlimit(100)]
pub fn parse_catalogue(text: &[u8]) -> (r: Catalogue)
    ensures
        entries_model(r.entries@) == spec_catalogue(text@),
{
    let mut entries: Vec<(Vec<u8>, OffsetsBundle)> = Vec::new();
    let mut cur_version: Option<Vec<u8>> = None;
    let mut cur = PartialBundle::empty();
    let n = text.len();
    let mut pos: usize = 0;
    proof {
        assert(text@.skip(0) =~= text@);
        assert(entries_model(entries@) =~= Seq::<(Seq<u8>, BundleModel)>::empty());
    }
    while pos < n
        invariant
            0 <= pos <= n,
            n == text@.len(),
            spec_catalogue(text@) == cat_text(
                text@.skip(pos as int),
                ver_model(cur_version),
                cur@,
                entries_model(entries@),
            ),
        decreases n - pos,
    {
        let ghost rest = text@.skip(pos as int);
        let ghost v0 = ver_model(cur_version);
        let ghost c0 = cur@;
        let ghost a0 = entries_model(entries@);
        let (line, next) = take_line(text, pos);
        let ghost k = first_lf(rest);
        let ghost st = line_step(v0, c0, a0, line@);
        proof {
            assert(rest.len() == n - pos);
            assert(0 <= k <= rest.len());
            if k < rest.len() {
                assert(next == pos + k + 1);
                assert(rest.skip(k + 1) =~= text@.skip(next as int));
                assert(cat_text(rest, v0, c0, a0) == cat_text(
                    text@.skip(next as int),
                    st.0,
                    st.1,
                    st.2,
                ));
            } else {
                assert(rest.take(k) =~= rest);
                assert(next == n);
                assert(text@.skip(next as int) =~= Seq::<u8>::empty());
                assert(cat_text(rest, v0, c0, a0) == flush_entry(st.0, st.1, st.2));
                assert(cat_text(text@.skip(next as int), st.0, st.1, st.2) == flush_entry(
                    st.0,
                    st.1,
                    st.2,
                ));
            }
        }
        pos = next;
        let mut toks = split_tokens(line.as_slice());
        let ghost stoks = spec_tokens(line@);
        proof {
            assert(stoks.len() == toks@.len());
            assert forall|i: int| 0 <= i < toks@.len() implies stoks[i] == #[trigger] toks@[i]@ by {
                assert(toks@[i].deep_view() =~= toks@[i]@);
                assert(stoks[i] == toks@[i].deep_view());
            }
        }
        let comment = toks.len() > 0 && toks[0].len() > 0 && toks[0][0] == 35;
        if toks.len() > 0 && !comment {
            if toks.len() == 1 {
                proof {
                    assert(st == (Some(stoks[0]), empty_partial(), flush_entry(v0, c0, a0)));
                }
                let done = cur;
                cur = PartialBundle::empty();
                let tok0 = toks.remove(0);
                let ghost t0v = tok0@;
                cur_version = open_version(&mut entries, cur_version, done, tok0);
                proof {
                    assert(t0v == stoks[0]);
                    assert(ver_model(cur_version) == st.0);
                    assert(cur@ == st.1);
                    assert(entries_model(entries@) == st.2);
                }
            } else {
                add_chain_line(&mut cur, &toks);
                proof {
                    assert(toks.deep_view() == stoks);
                    assert(st == (v0, cur@, a0));
                }
            }
        } else {
            proof {
                assert(st == (v0, c0, a0));
            }
        }
    }
    let ghost vfin = ver_model(cur_version);
    let ghost cfin = cur@;
    let ghost afin = entries_model(entries@);
    proof {
        assert(text@.skip(pos as int) =~= Seq::<u8>::empty());
        assert(spec_catalogue(text@) == flush_entry(vfin, cfin, afin));
    }
    if let Some(v) = cur_version {
        let ghost vv = v@;
        match cur.complete() {
            Some(b) => {
                proof {
                    assert(complete_model(cfin).unwrap() =~~= b@);
                    assert(complete_model(cfin) == Some(b@));
                }
                entries.push((v, b));
                proof {
                    assert(entries_model(entries@) =~= afin.push((vv, b@)));
                }
            },
            None => {
                proof {
                    assert(complete_model(cfin) is None);
                }
            },
        }
    }
    Catalogue { entries }
}

} // verus!
