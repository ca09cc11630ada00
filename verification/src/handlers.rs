//! The request handlers: three pure translation operations over the store
//! and the denylist, each wrapping its result into a response envelope. No
//! handler keeps state of its own, and none does its own locking: the caller
//! that owns the store decides who may read or write when.

use crate::codec::{parsed_snapshot, save_data};
use crate::denylist::{spec_blocked, Denylist};
use crate::store::Store;
use vstd::prelude::*;

verus! {

/// The envelope of a read: the value, or absence.
pub struct GetResponse {
    pub value: Option<String>,
}

/// The envelope of a write: whether the in-memory mutation was applied.
pub struct SetResponse {
    pub success: bool,
}

/// The envelope of a compatibility check.
pub struct ValidateResponse {
    pub valid: bool,
}

/// Reads `key` from the store and wraps the result.
pub fn get_value(store: &Store, key: &String) -> (r: GetResponse)
    requires
        store.wf(),
    ensures
        match r.value {
            Some(v) => store@.contains_key(key@) && v@ == store@[key@],
            None => !store@.contains_key(key@),
        },
{
    GetResponse { value: store.get(key) }
}

/// Writes `key` to the store, re-serializes the full map, and wraps the
/// result. The second component is the new snapshot text, always produced,
/// for the caller to persist; a failed disk write afterwards is swallowed
/// there, and success reports the in-memory mutation alone.
pub fn set_value(store: &mut Store, key: String, value: String) -> (r: (SetResponse, Option<
    String,
>))
    requires
        old(store).wf(),
    ensures
        final(store).wf(),
        final(store)@ == old(store)@.insert(key@, value@),
        r.0.success,
        r.1 is Some,
        (r.1 matches Some(t) ==> parsed_snapshot(t@) == Some(final(store)@)),
{
    let success = store.set(key, value);
    let snapshot = save_data(store);
    (SetResponse { success }, snapshot)
}

/// Checks the pair against the denylist: valid iff not blocked.
pub fn validate(denylist: &Denylist, game_version: &String, plugin_version: &String) -> (r:
    ValidateResponse)
    ensures
        r.valid == !spec_blocked(denylist@, game_version@, plugin_version@),
{
    ValidateResponse { valid: !denylist.is_blocked(game_version, plugin_version) }
}

} // verus!
