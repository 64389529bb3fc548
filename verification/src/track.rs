//! Classification of the track-info lookup's reply.
//!
//! The lookup collaborator answers with a JSON body: either
//! `{"item": {"Title": …, "ArtistName": …, "FolderPath": …,
//! "FileNameL": …}}` or an in-band error `{"code": …}`.  The body is
//! read with serde_json behind trusted extractors; since the parse is a
//! function of the body text alone, each extracted field is named over
//! that text, and everything downstream — what counts as a usable
//! record, which fields make up the reported metadata — is stated over
//! those names and verified.

use vstd::prelude::*;
use crate::keeper::TrackInfo;

verus! {

/// Whether serde_json parses the text as a JSON value.
pub uninterp spec fn json_parses(s: Seq<char>) -> bool;

/// The integer under the parsed body's `code` member, if the body is
/// JSON and carries one.
pub uninterp spec fn json_code_of(s: Seq<char>) -> Option<i64>;

/// Whether the parsed body carries an `item` member.
pub uninterp spec fn json_has_item(s: Seq<char>) -> bool;

/// The string under `item`.`Title` of the parsed body, if present.
pub uninterp spec fn json_title_of(s: Seq<char>) -> Option<Seq<char>>;

/// The string under `item`.`ArtistName` of the parsed body, if present.
pub uninterp spec fn json_artist_of(s: Seq<char>) -> Option<Seq<char>>;

/// The string under `item`.`FolderPath` of the parsed body, if present.
pub uninterp spec fn json_folder_of(s: Seq<char>) -> Option<Seq<char>>;

/// The string under `item`.`FileNameL` of the parsed body, if present.
pub uninterp spec fn json_file_of(s: Seq<char>) -> Option<Seq<char>>;

/// The field's characters, when the field is there.
pub open spec fn chars_of_opt(o: Option<String>) -> Option<Seq<char>> {
    match o {
        Some(s) => Some(s@),
        None => None,
    }
}

/// Relies on `serde_json::from_str::<Value>`: whether the text parses
/// as JSON; the parse depends on the text alone.
#[verifier::external_body]
fn body_parses(s: &str) -> (r: bool)
    ensures
        r == json_parses(s@),
{
    serde_json::from_str::<serde_json::Value>(s).is_ok()
}

/// Relies on `serde_json::from_str` and `Value::get`/`as_i64`: the
/// integer under `code` of the parsed text.
#[verifier::external_body]
fn body_code(s: &str) -> (r: Option<i64>)
    ensures
        r == json_code_of(s@),
{
    let v: Option<serde_json::Value> = serde_json::from_str(s).ok();
    v.as_ref().and_then(|v| v.get("code")).and_then(|c| c.as_i64())
}

/// Relies on `serde_json::from_str` and `Value::get`: whether the
/// parsed text carries an `item` member.
#[verifier::external_body]
fn body_has_item(s: &str) -> (r: bool)
    ensures
        r == json_has_item(s@),
{
    let v: Option<serde_json::Value> = serde_json::from_str(s).ok();
    v.as_ref().and_then(|v| v.get("item")).is_some()
}

/// Relies on `serde_json::from_str` and `Value::get`/`as_str`: the
/// string under `item`.`Title` of the parsed text.
#[verifier::external_body]
fn body_title(s: &str) -> (r: Option<String>)
    ensures
        chars_of_opt(r) == json_title_of(s@),
{
    let v: Option<serde_json::Value> = serde_json::from_str(s).ok();
    v.as_ref()
        .and_then(|v| v.get("item"))
        .and_then(|i| i.get("Title"))
        .and_then(|t| t.as_str())
        .map(|t| t.to_string())
}

/// Relies on `serde_json::from_str` and `Value::get`/`as_str`: the
/// string under `item`.`ArtistName` of the parsed text.
#[verifier::external_body]
fn body_artist(s: &str) -> (r: Option<String>)
    ensures
        chars_of_opt(r) == json_artist_of(s@),
{
    let v: Option<serde_json::Value> = serde_json::from_str(s).ok();
    v.as_ref()
        .and_then(|v| v.get("item"))
        .and_then(|i| i.get("ArtistName"))
        .and_then(|t| t.as_str())
        .map(|t| t.to_string())
}

/// Relies on `serde_json::from_str` and `Value::get`/`as_str`: the
/// string under `item`.`FolderPath` of the parsed text.
#[verifier::external_body]
fn body_folder(s: &str) -> (r: Option<String>)
    ensures
        chars_of_opt(r) == json_folder_of(s@),
{
    let v: Option<serde_json::Value> = serde_json::from_str(s).ok();
    v.as_ref()
        .and_then(|v| v.get("item"))
        .and_then(|i| i.get("FolderPath"))
        .and_then(|t| t.as_str())
        .map(|t| t.to_string())
}

/// Relies on `serde_json::from_str` and `Value::get`/`as_str`: the
/// string under `item`.`FileNameL` of the parsed text.
#[verifier::external_body]
fn body_file(s: &str) -> (r: Option<String>)
    ensures
        chars_of_opt(r) == json_file_of(s@),
{
    let v: Option<serde_json::Value> = serde_json::from_str(s).ok();
    v.as_ref()
        .and_then(|v| v.get("item"))
        .and_then(|i| i.get("FileNameL"))
        .and_then(|t| t.as_str())
        .map(|t| t.to_string())
}

/// What the bridge reads out of one lookup reply: the in-band status
/// code if an integer one is present, whether an `item` record is
/// present, and the record's text fields, each absent when missing or
/// not a string.
pub struct TrackResponse {
    pub code: Option<i64>,
    pub has_item: bool,
    pub title: Option<String>,
    pub artist: Option<String>,
    pub folder_path: Option<String>,
    pub file_name: Option<String>,
}

/// The reply carries a usable record: no in-band code other than 200,
/// and an `item` present.  A 404 in particular is never usable.
pub open spec fn response_usable(r: TrackResponse) -> bool {
    (r.code is None || r.code == Some(200i64)) && r.has_item
}

/// The field's characters, empty when the field is absent.
pub open spec fn chars_or_empty(o: Option<String>) -> Seq<char> {
    match o {
        Some(s) => s@,
        None => Seq::empty(),
    }
}

/// The title to report: the `Title` field, or `FileNameL` when the
/// title is empty.
pub open spec fn title_chars(r: TrackResponse) -> Seq<char> {
    if chars_or_empty(r.title).len() > 0 {
        chars_or_empty(r.title)
    } else {
        chars_or_empty(r.file_name)
    }
}

/// Decide one reply: metadata exactly when the reply is usable; the
/// title falls back to the file name when empty, and absent fields
/// report as empty text.
pub fn classify_response(r: TrackResponse) -> (info: Option<TrackInfo>)
    ensures
        (info is Some) == response_usable(r),
        info matches Some(t) ==> t.title@ == title_chars(r) && t.artist@ == chars_or_empty(r.artist)
            && t.folder_path@ == chars_or_empty(r.folder_path),
{
    let ok = match r.code {
        Some(c) => c == 200,
        None => true,
    };
    if !(ok && r.has_item) {
        return None;
    }
    let title0 = match r.title {
        Some(s) => s,
        None => String::new(),
    };
    let title = if title0.as_str().is_empty() {
        match r.file_name {
            Some(s) => s,
            None => String::new(),
        }
    } else {
        title0
    };
    let artist = match r.artist {
        Some(s) => s,
        None => String::new(),
    };
    let folder_path = match r.folder_path {
        Some(s) => s,
        None => String::new(),
    };
    Some(TrackInfo { title, artist, folder_path })
}

/// Read the reply body into the shape `classify_response` decides on:
/// a JSON body's fields verbatim, and for a body that is not JSON the
/// in-band failure the lookup itself reports on a broken reply (code
/// 500, no record).
pub fn parse_track_body(body: &str) -> (r: TrackResponse)
    ensures
        json_parses(body@) ==> r.code == json_code_of(body@) && r.has_item == json_has_item(body@)
            && chars_of_opt(r.title) == json_title_of(body@) && chars_of_opt(r.artist)
            == json_artist_of(body@) && chars_of_opt(r.folder_path) == json_folder_of(body@)
            && chars_of_opt(r.file_name) == json_file_of(body@),
        !json_parses(body@) ==> r == (TrackResponse {
            code: Some(500i64),
            has_item: false,
            title: None,
            artist: None,
            folder_path: None,
            file_name: None,
        }),
{
    if !body_parses(body) {
        return TrackResponse {
            code: Some(500),
            has_item: false,
            title: None,
            artist: None,
            folder_path: None,
            file_name: None,
        };
    }
    TrackResponse {
        code: body_code(body),
        has_item: body_has_item(body),
        title: body_title(body),
        artist: body_artist(body),
        folder_path: body_folder(body),
        file_name: body_file(body),
    }
}

} // verus!
