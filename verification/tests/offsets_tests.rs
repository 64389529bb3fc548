use rkbx_osc::offsets::{bytes_eq, parse_catalogue, parse_hex};

const CATALOGUE: &str = "\
# offsets catalogue
7.2.8
master_bpm 3442520 20 278
deck1bar 3442520 20 280
deck1beat 3442520 20 284
deck2bar 3442520 28 280
deck2beat 3442520 28 284
masterdeck_index 3442600 1a
deck1_time 3442700 20 10
deck2_time 3442700 28 10
deck1_track_id 3442800 20 14
deck2_track_id 3442800 28 14
api_bearer 3550000 40
6.8.5
master_bpm 1
deck1bar 1
deck1beat 1
deck2bar 1
deck2beat 1
masterdeck_index 1
deck1_time 1
deck2_time 1
deck1_track_id 1
deck2_track_id 1
api_bearer ff 10
";

#[test]
fn parse_hex_exact_values() {
    assert_eq!(parse_hex(b"0"), Some(0));
    assert_eq!(parse_hex(b"278"), Some(0x278));
    assert_eq!(parse_hex(b"dEaDbEeF"), Some(0xDEADBEEF));
    assert_eq!(parse_hex(b"ffffffffffffffff"), Some(u64::MAX));
}

#[test]
fn parse_hex_rejects_junk() {
    assert_eq!(parse_hex(b""), None);
    assert_eq!(parse_hex(b"0x10"), None);
    assert_eq!(parse_hex(b"12g4"), None);
    // Seventeen digits never fit.
    assert_eq!(parse_hex(b"10000000000000000"), None);
}

#[test]
fn catalogue_parses_versions_and_chains() {
    let cat = parse_catalogue(CATALOGUE.as_bytes());
    assert_eq!(cat.entries.len(), 2);
    let b = cat.get(b"7.2.8").unwrap();
    assert_eq!(b.master_bpm.offsets, vec![0x3442520, 0x20]);
    assert_eq!(b.master_bpm.final_offset, 0x278);
    assert_eq!(b.masterdeck_index.offsets, vec![0x3442600]);
    assert_eq!(b.masterdeck_index.final_offset, 0x1a);
    let c = cat.get(b"6.8.5").unwrap();
    assert_eq!(c.api_bearer.offsets, vec![0xff]);
    assert_eq!(c.api_bearer.final_offset, 0x10);
    // A chain of one number has no hops at all.
    assert_eq!(c.master_bpm.offsets, Vec::<u64>::new());
    assert_eq!(c.master_bpm.final_offset, 1);
    assert!(cat.get(b"9.9.9").is_none());
}

#[test]
fn incomplete_bundle_is_dropped() {
    let text = "1.0.0\nmaster_bpm 10 20\n";
    let cat = parse_catalogue(text.as_bytes());
    assert!(cat.get(b"1.0.0").is_none());
    assert_eq!(cat.entries.len(), 0);
}

#[test]
fn unknown_fields_and_bad_numbers_say_nothing() {
    let mut text = String::from("7.2.8\n");
    text.push_str("something_else 10 20\n");
    text.push_str("master_bpm xyz 20\n");
    for f in [
        "master_bpm", "deck1bar", "deck1beat", "deck2bar", "deck2beat", "masterdeck_index",
        "deck1_time", "deck2_time", "deck1_track_id", "deck2_track_id", "api_bearer",
    ] {
        text.push_str(f);
        text.push_str(" 10 20\n");
    }
    let cat = parse_catalogue(text.as_bytes());
    let b = cat.get(b"7.2.8").unwrap();
    assert_eq!(b.master_bpm.offsets, vec![0x10]);
    assert_eq!(b.master_bpm.final_offset, 0x20);
}

#[test]
fn bytes_eq_compares_contents() {
    assert!(bytes_eq(b"abc", b"abc"));
    assert!(!bytes_eq(b"abc", b"abd"));
    assert!(!bytes_eq(b"abc", b"ab"));
    assert!(bytes_eq(b"", b""));
}
