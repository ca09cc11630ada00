//! The snapshot codec: the store's map as structured text on disk.
//!
//! The snapshot is the JSON object that `serde_json` writes for a map from
//! string keys to string values. Encoding and decoding are `serde_json`'s
//! work and stand behind trusted wrappers; what a snapshot text denotes is
//! named by `parsed_snapshot`, and loading and saving are verified against
//! that name.

use crate::store::{distinct_keys, entries_map, Store};
use vstd::prelude::*;

verus! {

/// The map a snapshot text parses to, if it parses: the result of
/// `serde_json::from_str::<HashMap<String, String>>` on the text, which
/// depends on the text alone.
pub uninterp spec fn parsed_snapshot(text: Seq<char>) -> Option<Map<Seq<char>, Seq<char>>>;

/// Relies on `serde_json::from_str::<HashMap<String, String>>`: a
/// deterministic parse whose `Ok` result is a map with (necessarily)
/// distinct keys. The order in which the map's entries come out is not a
/// function of the text, so nothing is said of it.
#[verifier::external_body]
fn decode_snapshot(text: &str) -> (r: Option<Vec<(String, String)>>)
    ensures
        (r matches Some(es) ==> distinct_keys(es@) && parsed_snapshot(text@) == Some(
            entries_map(es@),
        )),
        (r is None ==> parsed_snapshot(text@) is None),
{
    match serde_json::from_str::<std::collections::HashMap<String, String>>(text) {
        Ok(m) => Some(m.into_iter().collect()),
        Err(_) => None,
    }
}

/// Relies on `serde_json::to_string_pretty` on a `HashMap<String, String>`:
/// what it writes, `serde_json::from_str` parses back to the same map. Its
/// two documented failure causes — a `Serialize` impl that decides to fail,
/// and a map with non-string keys — cannot arise for a map from `String` to
/// `String`, so the call succeeds.
#[verifier::external_body]
fn encode_snapshot(entries: &Vec<(String, String)>) -> (r: Option<String>)
    ensures
        r is Some,
        (r matches Some(t) ==> parsed_snapshot(t@) == Some(entries_map(entries@))),
{
    let m: std::collections::HashMap<String, String> = entries.iter().cloned().collect();
    serde_json::to_string_pretty(&m).ok()
}

/// The view of an optional borrowed text.
pub open spec fn opt_text_view(content: Option<&str>) -> Option<Seq<char>> {
    match content {
        Some(c) => Some(c@),
        None => None,
    }
}

/// The store a snapshot text (or its absence) loads to: the parsed map, or
/// the empty map where there is nothing to parse or parsing fails.
pub open spec fn spec_load_data(content: Option<Seq<char>>) -> Map<Seq<char>, Seq<char>> {
    match content {
        Some(t) => match parsed_snapshot(t) {
            Some(m) => m,
            None => Map::empty(),
        },
        None => Map::<Seq<char>, Seq<char>>::empty(),
    }
}

/// Builds the store from the snapshot text, handed in by the caller that
/// read the file; `None` stands for an absent file. A corrupt or absent
/// snapshot degrades silently to the empty store: startup never aborts on
/// it.
pub fn load_data(content: Option<&str>) -> (s: Store)
    ensures
        s.wf(),
        s@ == spec_load_data(opt_text_view(content)),
{
    match content {
        None => Store::new(),
        Some(text) => match decode_snapshot(text) {
            Some(entries) => Store::from_entries(entries),
            None => Store::new(),
        },
    }
}

/// Serializes the full map as snapshot text for the caller to write out
/// wholesale. Encoding a string-to-string map always succeeds; whether the
/// disk write after it does is the caller's business, and its failure is
/// not the store's to propagate.
pub fn save_data(store: &Store) -> (r: Option<String>)
    requires
        store.wf(),
    ensures
        r is Some,
        (r matches Some(t) ==> parsed_snapshot(t@) == Some(store@)),
{
    encode_snapshot(store.snapshot_entries())
}

/// Round trip through the snapshot codec: a snapshot text that parses to a
/// store's map loads back to exactly that map, so a restart after a
/// successfully persisted write reproduces the store.
pub proof fn lemma_snapshot_round_trip(t: Seq<char>, m: Map<Seq<char>, Seq<char>>)
    ensures
        parsed_snapshot(t) == Some(m) ==> spec_load_data(Some(t)) == m,
{
}

} // verus!
