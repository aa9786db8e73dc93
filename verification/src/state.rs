use vstd::prelude::*;
use vstd::string::StringSliceAdditionalSpecFns;
use cosmwasm_std::StdError;
use crate::error::{overflow_error, overflow_text, std_error_text};

verus! {

/// Exclusive access to the contract's key-value storage: a
/// `cosmwasm_std::Storage` behind a reference. Of what it holds, contracts
/// speak through [`stored_counts`] and [`stored_version`].
#[verifier::external_body]
pub struct Store<'a> {
    storage: &'a mut dyn cosmwasm_std::Storage,
}

/// The counters of a store as contracts see them: from the namespace of a
/// map and a key in it to what is stored there, the value or `None` for
/// bytes that are no value.
pub type Counts = Map<(Seq<char>, Seq<char>), Option<u32>>;

/// What a store holds under the keys of its `cw_storage_plus::Map`s of
/// `u32`, by the namespace of the map and the key in it: `Some` of the
/// value where the stored bytes decode to a `u32`, `None` where they do
/// not. A key under which nothing is stored is not in the domain.
pub uninterp spec fn stored_counts(store: Store) -> Map<(Seq<char>, Seq<char>), Option<u32>>;

/// The name and the version of the contract that a store records under
/// `contract_info`, where it records one.
pub uninterp spec fn stored_version(store: Store) -> Option<(Seq<char>, Seq<char>)>;

/// Namespace of the per-channel connection counters.
pub const CONNECTION_COUNTS: &'static str = "connection_counts";

/// Namespace of the per-channel timeout counters.
pub const TIMEOUT_COUNTS: &'static str = "timeout_counts";

/// The counter at `key` can be read: nothing is stored there, or a value.
pub open spec fn readable(counts: Counts, namespace: Seq<char>, key: Seq<char>) -> bool {
    counts.get((namespace, key)) != Some(None::<u32>)
}

/// What is read at `key`, where it can be read: the value, or nothing.
pub open spec fn loaded(counts: Counts, namespace: Seq<char>, key: Seq<char>) -> Option<u32> {
    match counts.get((namespace, key)) {
        Some(entry) => entry,
        None => None,
    }
}

/// The value of a counter: what is stored, or 0 where no value is.
pub open spec fn count_of(counts: Counts, namespace: Seq<char>, key: Seq<char>) -> u32 {
    match loaded(counts, namespace, key) {
        Some(value) => value,
        None => 0,
    }
}

/// The counters after the one at `key` went up by one.
pub open spec fn incremented(counts: Counts, namespace: Seq<char>, key: Seq<char>) -> Counts
    recommends
        count_of(counts, namespace, key) < u32::MAX,
{
    counts.insert((namespace, key), Some((count_of(counts, namespace, key) + 1) as u32))
}

/// The counters after `channel` connected: its connection counter is 0,
/// whatever it was.
pub open spec fn connected(counts: Counts, channel: Seq<char>) -> Counts {
    counts.insert((CONNECTION_COUNTS@, channel), Some(0u32))
}

/// The counters after `channel` closed: it has no connection counter.
pub open spec fn closed(counts: Counts, channel: Seq<char>) -> Counts {
    counts.remove((CONNECTION_COUNTS@, channel))
}

/// The counters after an `Increment` packet was applied on `channel`.
pub open spec fn received(counts: Counts, channel: Seq<char>) -> Counts
    recommends
        connection_count(counts, channel) < u32::MAX,
{
    incremented(counts, CONNECTION_COUNTS@, channel)
}

/// The counters after a packet sent over `channel` timed out.
pub open spec fn timed_out(counts: Counts, channel: Seq<char>) -> Counts
    recommends
        timeout_count(counts, channel) < u32::MAX,
{
    incremented(counts, TIMEOUT_COUNTS@, channel)
}

/// What a query for the count of `channel` reads.
pub open spec fn connection_count(counts: Counts, channel: Seq<char>) -> u32 {
    count_of(counts, CONNECTION_COUNTS@, channel)
}

/// What a query for the timeouts of `channel` reads.
pub open spec fn timeout_count(counts: Counts, channel: Seq<char>) -> u32 {
    count_of(counts, TIMEOUT_COUNTS@, channel)
}

/// The connection counter of `channel` can be read.
pub open spec fn connection_readable(counts: Counts, channel: Seq<char>) -> bool {
    readable(counts, CONNECTION_COUNTS@, channel)
}

/// The timeout counter of `channel` can be read.
pub open spec fn timeout_readable(counts: Counts, channel: Seq<char>) -> bool {
    readable(counts, TIMEOUT_COUNTS@, channel)
}

/// The two namespaces are distinct and short enough to be length-prefixed.
pub proof fn lemma_namespaces()
    ensures
        CONNECTION_COUNTS@ != TIMEOUT_COUNTS@,
        CONNECTION_COUNTS.spec_bytes().len() <= 0xffff,
        TIMEOUT_COUNTS.spec_bytes().len() <= 0xffff,
{
    reveal_strlit("connection_counts");
    reveal_strlit("timeout_counts");
    assert(vstd::utf8::is_ascii_chars(CONNECTION_COUNTS@));
    assert(vstd::utf8::is_ascii_chars(TIMEOUT_COUNTS@));
    vstd::utf8::is_ascii_chars_encode_utf8(CONNECTION_COUNTS@);
    vstd::utf8::is_ascii_chars_encode_utf8(TIMEOUT_COUNTS@);
}

impl<'a> Store<'a> {
    /// The store over a storage backend. It borrows the backend and
    /// neither reads nor writes it.
    #[verifier::external_body]
    pub fn new<S: cosmwasm_std::Storage>(storage: &'a mut S) -> (store: Store<'a>) {
        Store { storage }
    }
}

/// What a counter becomes when it is bumped: one more than the stored value,
/// with an absent value counting as 0. At `u32::MAX` the bump is refused.
pub fn next_count(count: Option<u32>) -> (next: Result<u32, StdError>)
    ensures
        match next {
            Ok(value) => value == count.unwrap_or(0) + 1,
            Err(error) => count.unwrap_or(0) == u32::MAX && std_error_text(error) == overflow_text(
                u32::MAX,
                1,
            ),
        },
{
    let current: u32 = count.unwrap_or(0);
    match current.checked_add(1) {
        Some(value) => Ok(value),
        None => Err(overflow_error(current, 1)),
    }
}

/// `cw2::set_contract_version`: records the name and the version of the
/// contract under `contract_info`, a key that is no entry of a map. On
/// `Err` nothing was written.
#[verifier::external_body]
pub(crate) fn set_contract_version(store: &mut Store, name: &str, version: &str) -> (set: Result<
    (),
    StdError,
>)
    ensures
        set is Ok ==> stored_version(*final(store)) == Some((name@, version@)),
        set is Err ==> stored_version(*final(store)) == stored_version(*old(store)),
        stored_counts(*final(store)) == stored_counts(*old(store)),
{
    cw2::set_contract_version(&mut *store.storage, name, version)
}

/// `cw_storage_plus::Map::save` on the map with the given namespace: the
/// entry at `key` holds `value` afterwards and no other entry changed, nor
/// what is recorded under `contract_info`. The only error that `save` can
/// return is one of serialising the value, and a `u32` is written as its
/// decimal digits on every value, so the result is `Ok`.
#[verifier::external_body]
pub(crate) fn save_count(store: &mut Store, namespace: &str, key: &String, value: u32) -> (saved:
    Result<(), StdError>)
    requires
        namespace.spec_bytes().len() <= 0xffff,
    ensures
        saved is Ok,
        stored_counts(*final(store)) == stored_counts(*old(store)).insert(
            (namespace@, key@),
            Some(value),
        ),
        stored_version(*final(store)) == stored_version(*old(store)),
{
    cw_storage_plus::Map::<String, u32>::new(namespace).save(
        &mut *store.storage,
        key.clone(),
        &value,
    )
}

/// `cw_storage_plus::Map::remove` on the map with the given namespace:
/// deletes the entry at `key`, whatever it holds, and leaves every other
/// entry alone, and what is recorded under `contract_info`.
#[verifier::external_body]
pub(crate) fn remove_count(store: &mut Store, namespace: &str, key: &String)
    requires
        namespace.spec_bytes().len() <= 0xffff,
    ensures
        stored_counts(*final(store)) == stored_counts(*old(store)).remove((namespace@, key@)),
        stored_version(*final(store)) == stored_version(*old(store)),
{
    cw_storage_plus::Map::<String, u32>::new(namespace).remove(&mut *store.storage, key.clone())
}

/// `cw_storage_plus::Map::may_load` on the map with the given namespace:
/// `Ok` of the stored value, `Ok(None)` where nothing is stored at the key,
/// and an `Err` where the bytes stored there do not decode, and only there.
#[verifier::external_body]
pub(crate) fn load_count(store: &Store, namespace: &str, key: &String) -> (found: Result<
    Option<u32>,
    StdError,
>)
    requires
        namespace.spec_bytes().len() <= 0xffff,
    ensures
        found is Ok <==> readable(stored_counts(*store), namespace@, key@),
        found matches Ok(value) ==> value == loaded(stored_counts(*store), namespace@, key@),
{
    cw_storage_plus::Map::<String, u32>::new(namespace).may_load(&*store.storage, key.clone())
}

/// `cw_storage_plus::Map::update` on the map with the given namespace, with
/// [`next_count`] as the action: loads the entry, bumps it and saves it. On
/// `Ok` the new value is returned and stored; on `Err` nothing was written.
/// An error comes from the load or from the action, not from the save: the
/// result is `Ok` unless the bytes at the key do not decode or the value is
/// `u32::MAX`, where what comes back is the error of [`next_count`].
#[verifier::external_body]
pub(crate) fn bump_count(store: &mut Store, namespace: &str, key: &String) -> (bumped: Result<
    u32,
    StdError,
>)
    requires
        namespace.spec_bytes().len() <= 0xffff,
    ensures
        bumped is Ok <==> readable(stored_counts(*old(store)), namespace@, key@) && count_of(
            stored_counts(*old(store)),
            namespace@,
            key@,
        ) < u32::MAX,
        bumped matches Ok(value) ==> {
            &&& value == count_of(stored_counts(*old(store)), namespace@, key@) + 1
            &&& stored_counts(*final(store)) == incremented(
                stored_counts(*old(store)),
                namespace@,
                key@,
            )
        },
        bumped is Err ==> stored_counts(*final(store)) == stored_counts(*old(store)),
        stored_version(*final(store)) == stored_version(*old(store)),
        bumped matches Err(error) ==> (count_of(stored_counts(*old(store)), namespace@, key@)
            == u32::MAX ==> std_error_text(error) == overflow_text(u32::MAX, 1)),
{
    cw_storage_plus::Map::<String, u32>::new(namespace).update(
        &mut *store.storage,
        key.clone(),
        next_count,
    )
}

} // verus!
