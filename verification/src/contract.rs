use vstd::prelude::*;
use cosmwasm_std::StdError;
use crate::error::{std_error_text, overflow_text, ContractError};
use crate::msg::{ExecuteMsg, GetCountResponse, IbcExecuteMsg, InstantiateMsg, QueryMsg};
use crate::response::{IbcMsg, Response, ResponseView, SendPacketView};
use crate::state::{
    bump_count, connection_count, connection_readable, lemma_namespaces, load_count, received,
    set_contract_version, stored_counts, stored_version, timeout_count, timeout_readable, Counts,
    Store, CONNECTION_COUNTS, TIMEOUT_COUNTS,
};

verus! {

/// The name under which the contract records itself.
pub const CONTRACT_NAME: &'static str = "crates.io:cw-ibc-example";

/// The version under which the contract records itself.
pub const CONTRACT_VERSION: &'static str = "0.1.0";

/// What `instantiate` answers.
pub open spec fn instantiate_response() -> ResponseView {
    ResponseView { attributes: seq![("method"@, "instantiate"@)], messages: seq![] }
}

/// Records the name and the version of the contract. No counter changes.
/// An error comes only from the store, and then nothing was recorded.
pub fn instantiate(store: &mut Store, msg: InstantiateMsg) -> (response: Result<
    Response,
    ContractError,
>)
    ensures
        match response {
            Ok(done) => done@ == instantiate_response() && stored_version(*final(store)) == Some(
                (CONTRACT_NAME@, CONTRACT_VERSION@),
            ),
            Err(error) => error is Std && stored_version(*final(store)) == stored_version(
                *old(store),
            ),
        },
        stored_counts(*final(store)) == stored_counts(*old(store)),
{
    match set_contract_version(store, CONTRACT_NAME, CONTRACT_VERSION) {
        Ok(_) => {
            let response = Response::new().add_attribute("method", "instantiate");
            assert(response@.attributes =~= instantiate_response().attributes);
            assert(response@.messages =~= instantiate_response().messages);
            Ok(response)
        },
        Err(error) => Err(ContractError::Std(error)),
    }
}

/// The seconds after which a packet that was sent times out.
pub const PACKET_LIFETIME: u64 = 120;

/// `Timestamp::plus_seconds` on a time in nanoseconds since the epoch: the
/// time that many seconds later. It panics where the sum leaves `u64`, so
/// those inputs are left out.
#[verifier::external_body]
pub(crate) fn plus_seconds(nanos: u64, seconds: u64) -> (later: u64)
    requires
        nanos + seconds * 1_000_000_000 <= u64::MAX,
    ensures
        later == nanos + seconds * 1_000_000_000,
{
    cosmwasm_std::Timestamp::from_nanos(nanos).plus_seconds(seconds).nanos()
}

/// What `execute` answers to `Increment { channel }` at the block time
/// `now`: two attributes and one packet for the other chain.
pub open spec fn execute_response(channel: Seq<char>, now: u64) -> ResponseView {
    ResponseView {
        attributes: seq![("method"@, "execute_increment"@), ("channel"@, channel)],
        messages: seq![
            SendPacketView {
                channel_id: channel,
                data: (IbcExecuteMsg::Increment {  }).json(),
                timeout: (now + PACKET_LIFETIME * 1_000_000_000) as u64,
            },
        ],
    }
}

/// Sends an `Increment` packet over the channel that the message names. The
/// packet times out two minutes after `now`, the time of the block in
/// nanoseconds since the epoch.
pub fn execute(now: u64, msg: ExecuteMsg) -> (response: Result<Response, ContractError>)
    requires
        now + PACKET_LIFETIME * 1_000_000_000 <= u64::MAX,
    ensures
        response matches Ok(sent) && sent@ == execute_response(msg->channel@, now),
{
    match msg {
        ExecuteMsg::Increment { channel } => {
            let data = (IbcExecuteMsg::Increment {  }).to_json();
            let timeout = plus_seconds(now, PACKET_LIFETIME);
            let response = Response::new().add_attribute("method", "execute_increment")
                .add_attribute("channel", channel.as_str()).add_message(
                IbcMsg::SendPacket { channel_id: channel, data, timeout },
            );
            assert(response@.attributes =~= execute_response(channel@, now).attributes);
            assert(response@.messages =~= execute_response(channel@, now).messages);
            Ok(response)
        },
    }
}

/// Adds one to the connection counter of `channel` and returns the new
/// count. A channel without a counter counts from 0. The counter is bumped
/// unless it cannot be read or is at `u32::MAX`; then nothing is written,
/// and at `u32::MAX` the error is the overflow error.
pub fn try_increment(store: &mut Store, channel: String) -> (count: Result<u32, StdError>)
    ensures
        count is Ok <==> connection_readable(stored_counts(*old(store)), channel@)
            && connection_count(stored_counts(*old(store)), channel@) < u32::MAX,
        match count {
            Ok(value) => value == connection_count(stored_counts(*old(store)), channel@) + 1
                && stored_counts(*final(store)) == received(stored_counts(*old(store)), channel@),
            Err(error) => stored_counts(*final(store)) == stored_counts(*old(store)) && (
            connection_count(stored_counts(*old(store)), channel@) == u32::MAX ==> std_error_text(
                error,
            ) == overflow_text(u32::MAX, 1)),
        },
        stored_version(*final(store)) == stored_version(*old(store)),
{
    proof {
        lemma_namespaces();
    }
    bump_count(store, CONNECTION_COUNTS, &channel)
}

/// The count of packets received on `channel`; 0 where it has no counter.
/// An error comes where the counter cannot be read, and only there.
pub fn query_count(store: &Store, channel: String) -> (response: Result<GetCountResponse, StdError>)
    ensures
        response is Ok <==> connection_readable(stored_counts(*store), channel@),
        response matches Ok(found) ==> found.count == connection_count(
            stored_counts(*store),
            channel@,
        ),
{
    proof {
        lemma_namespaces();
    }
    match load_count(store, CONNECTION_COUNTS, &channel) {
        Ok(found) => Ok(GetCountResponse { count: found.unwrap_or(0) }),
        Err(error) => Err(error),
    }
}

/// The number of timeouts on `channel`; 0 where it has no counter. An
/// error comes where the counter cannot be read, and only there.
pub fn query_timeout_count(store: &Store, channel: String) -> (response: Result<
    GetCountResponse,
    StdError,
>)
    ensures
        response is Ok <==> timeout_readable(stored_counts(*store), channel@),
        response matches Ok(found) ==> found.count == timeout_count(
            stored_counts(*store),
            channel@,
        ),
{
    proof {
        lemma_namespaces();
    }
    match load_count(store, TIMEOUT_COUNTS, &channel) {
        Ok(found) => Ok(GetCountResponse { count: found.unwrap_or(0) }),
        Err(error) => Err(error),
    }
}

/// The counter that a query asks for can be read.
pub open spec fn query_readable(counts: Counts, msg: QueryMsg) -> bool {
    match msg {
        QueryMsg::GetCount { channel } => connection_readable(counts, channel@),
        QueryMsg::GetTimeoutCount { channel } => timeout_readable(counts, channel@),
    }
}

/// The count that a query asks for.
pub open spec fn queried_count(counts: Counts, msg: QueryMsg) -> u32 {
    match msg {
        QueryMsg::GetCount { channel } => connection_count(counts, channel@),
        QueryMsg::GetTimeoutCount { channel } => timeout_count(counts, channel@),
    }
}

/// Answers a query with the JSON of a [`GetCountResponse`]. An error comes
/// where the counter cannot be read, and only there.
pub fn query(store: &Store, msg: QueryMsg) -> (answer: Result<Vec<u8>, StdError>)
    ensures
        answer is Ok <==> query_readable(stored_counts(*store), msg),
        answer matches Ok(bytes) ==> bytes@ == (GetCountResponse {
            count: queried_count(stored_counts(*store), msg),
        }).json(),
{
    match msg {
        QueryMsg::GetCount { channel } => match query_count(store, channel) {
            Ok(response) => Ok(response.to_json()),
            Err(error) => Err(error),
        },
        QueryMsg::GetTimeoutCount { channel } => match query_timeout_count(store, channel) {
            Ok(response) => Ok(response.to_json()),
            Err(error) => Err(error),
        },
    }
}

} // verus!
