use vstd::prelude::*;
use crate::ack::{law_ack_round_trip, make_ack_fail, make_ack_success, success_marker, AckView};
use crate::contract::try_increment;
use crate::error::{overflow_text, parse_error_text, ContractError, ContractErrorView, Never};
use crate::json::{decimal, decimal_string, same_text};
use crate::msg::{IbcExecuteMsg, IBC_EXECUTE_MSG_TYPE, UNKNOWN_MESSAGE};
use crate::response::{IbcBasicResponse, IbcReceiveResponse, IbcReceiveResponseView};
use crate::state::{
    bump_count, closed, connected, connection_count, connection_readable, lemma_namespaces,
    received, remove_count, save_count, stored_counts, stored_version, timed_out, timeout_count,
    timeout_readable, Counts, Store, CONNECTION_COUNTS, TIMEOUT_COUNTS,
};

verus! {

/// The one version of the protocol that this contract speaks.
pub const IBC_VERSION: &'static str = "counter-1";

/// Whether a channel delivers packets in the order they were sent.
#[derive(Debug, Clone, Copy, PartialEq, Eq, Structural)]
pub enum IbcOrder {
    Unordered,
    Ordered,
}

/// One end of a channel.
#[derive(Debug, Clone, PartialEq)]
pub struct IbcEndpoint {
    pub port_id: String,
    pub channel_id: String,
}

/// A channel as the handshake presents it.
#[derive(Debug, Clone, PartialEq)]
pub struct IbcChannel {
    /// The end on this chain.
    pub endpoint: IbcEndpoint,
    /// The end on the other chain.
    pub counterparty_endpoint: IbcEndpoint,
    pub order: IbcOrder,
    pub version: String,
    pub connection_id: String,
}

/// The text of an optional version.
pub open spec fn version_text(version: Option<&str>) -> Option<Seq<char>> {
    match version {
        Some(text) => Some(text@),
        None => None,
    }
}

/// The verdict on a handshake: an ordered channel is refused first, then a
/// channel version other than [`IBC_VERSION`], then a counterparty version
/// other than it, where one is given.
pub open spec fn validated(
    order: IbcOrder,
    version: Seq<char>,
    counterparty_version: Option<Seq<char>>,
) -> Result<(), ContractErrorView> {
    if order != IbcOrder::Unordered {
        Err(ContractErrorView::OrderedChannel)
    } else if version != IBC_VERSION@ {
        Err(ContractErrorView::InvalidVersion { actual: version, expected: IBC_VERSION@ })
    } else if counterparty_version is Some && counterparty_version->0 != IBC_VERSION@ {
        Err(
            ContractErrorView::InvalidVersion {
                actual: counterparty_version->0,
                expected: IBC_VERSION@,
            },
        )
    } else {
        Ok(())
    }
}

/// Checks the order and the versions of a channel that is being opened.
pub fn validate_order_and_version(channel: &IbcChannel, counterparty_version: Option<&str>) -> (verdict:
    Result<(), ContractError>)
    ensures
        match verdict {
            Ok(_) => validated(channel.order, channel.version@, version_text(counterparty_version))
                is Ok,
            Err(error) => validated(
                channel.order,
                channel.version@,
                version_text(counterparty_version),
            ) == Err::<(), ContractErrorView>(error@),
        },
        channel.order != IbcOrder::Unordered ==> verdict is Err,
        channel.version@ != IBC_VERSION@ ==> verdict is Err,
        counterparty_version matches Some(version) && version@ != IBC_VERSION@ ==> verdict is Err,
{
    // An ordered channel stops working for good once a single packet is
    // lost, so only unordered ones are accepted.
    if channel.order != IbcOrder::Unordered {
        return Err(ContractError::OrderedChannel {  });
    }
    if !same_text(channel.version.as_str(), IBC_VERSION) {
        return Err(
            ContractError::InvalidVersion {
                actual: channel.version.clone(),
                expected: IBC_VERSION.to_owned(),
            },
        );
    }
    // Only one side of each handshake step knows the version that the other
    // side proposed; it is checked where it is known.
    if let Some(version) = counterparty_version {
        if !same_text(version, IBC_VERSION) {
            return Err(
                ContractError::InvalidVersion {
                    actual: version.to_owned(),
                    expected: IBC_VERSION.to_owned(),
                },
            );
        }
    }
    Ok(())
}


/// A packet as the host delivers it.
#[derive(Debug, Clone, PartialEq)]
pub struct IbcPacket {
    /// The payload.
    pub data: Vec<u8>,
    /// The end that sent the packet.
    pub src: IbcEndpoint,
    /// The end that the packet is for.
    pub dest: IbcEndpoint,
    /// The number of the packet on its channel.
    pub sequence: u64,
}

/// The answer to the first two steps of the handshake, where a version may be
/// proposed.
#[derive(Debug, Clone, PartialEq)]
pub struct Ibc3ChannelOpenResponse {
    pub version: String,
}

/// What `ibc_channel_connect` answers for the local channel `channel`.
pub open spec fn connect_response(channel: Seq<char>) -> Seq<(Seq<char>, Seq<char>)> {
    seq![("method"@, "ibc_channel_connect"@), ("channel_id"@, channel)]
}

/// What `ibc_channel_close` answers for the local channel `channel`.
pub open spec fn close_response(channel: Seq<char>) -> Seq<(Seq<char>, Seq<char>)> {
    seq![("method"@, "ibc_channel_close"@), ("channel"@, channel)]
}

/// What `ibc_packet_ack` answers.
pub open spec fn ack_response() -> Seq<(Seq<char>, Seq<char>)> {
    seq![("method"@, "ibc_packet_ack"@)]
}

/// What `ibc_packet_timeout` answers.
pub open spec fn timeout_response() -> Seq<(Seq<char>, Seq<char>)> {
    seq![("method"@, "ibc_packet_timeout"@)]
}

/// The response to a packet that was applied and brought the counter to
/// `count`.
pub open spec fn success_response(count: u32) -> IbcReceiveResponseView {
    IbcReceiveResponseView {
        acknowledgement: AckView::Result(success_marker()).json(),
        attributes: seq![
            ("method"@, "execute_increment"@),
            ("count"@, decimal(count as nat)),
        ],
    }
}

/// The response to a packet that was not applied, for the reason `error`.
pub open spec fn failure_response(error: Seq<char>) -> IbcReceiveResponseView {
    IbcReceiveResponseView {
        acknowledgement: AckView::Error(error).json(),
        attributes: seq![("method"@, "ibc_packet_receive"@), ("error"@, error)],
    }
}

/// Handles the first two steps of the handshake: the channel is checked and
/// nothing is stored.
pub fn ibc_channel_open(channel: &IbcChannel, counterparty_version: Option<&str>) -> (response:
    Result<Option<Ibc3ChannelOpenResponse>, ContractError>)
    ensures
        match response {
            Ok(proposal) => proposal is None && validated(
                channel.order,
                channel.version@,
                version_text(counterparty_version),
            ) is Ok,
            Err(error) => validated(
                channel.order,
                channel.version@,
                version_text(counterparty_version),
            ) == Err::<(), ContractErrorView>(error@),
        },
{
    match validate_order_and_version(channel, counterparty_version) {
        Ok(_) => Ok(None),
        Err(error) => Err(error),
    }
}

/// Handles the last two steps of the handshake: the channel is checked
/// again, and the counter of its local end is set to 0, whatever it was.
/// A channel that fails the check changes nothing and gets the verdict of
/// [`validated`].
pub fn ibc_channel_connect(
    store: &mut Store,
    channel: &IbcChannel,
    counterparty_version: Option<&str>,
) -> (response: Result<IbcBasicResponse, ContractError>)
    ensures
        match validated(channel.order, channel.version@, version_text(counterparty_version)) {
            Ok(_) => {
                &&& response matches Ok(done) && done@ == connect_response(
                    channel.endpoint.channel_id@,
                )
                &&& stored_counts(*final(store)) == connected(
                    stored_counts(*old(store)),
                    channel.endpoint.channel_id@,
                )
            },
            Err(verdict) => {
                &&& response matches Err(error) && error@ == verdict
                &&& stored_counts(*final(store)) == stored_counts(*old(store))
            },
        },
        stored_version(*final(store)) == stored_version(*old(store)),
{
    match validate_order_and_version(channel, counterparty_version) {
        Ok(_) => {},
        Err(error) => {
            return Err(error);
        },
    }
    proof {
        lemma_namespaces();
    }
    // Initialize the count for this channel to zero.
    let channel_id = channel.endpoint.channel_id.clone();
    match save_count(store, CONNECTION_COUNTS, &channel_id, 0) {
        Ok(_) => {},
        Err(error) => {
            return Err(ContractError::Std(error));
        },
    }
    Ok(
        IbcBasicResponse::new().add_attribute("method", "ibc_channel_connect").add_attribute(
            "channel_id",
            channel_id.as_str(),
        ),
    )
}

/// Handles the closing of a channel: the counter of its local end is
/// removed. The timeout counters stay.
pub fn ibc_channel_close(store: &mut Store, channel: &IbcChannel) -> (response: Result<
    IbcBasicResponse,
    ContractError,
>)
    ensures
        response matches Ok(done) && done@ == close_response(channel.endpoint.channel_id@),
        stored_counts(*final(store)) == closed(
            stored_counts(*old(store)),
            channel.endpoint.channel_id@,
        ),
        stored_version(*final(store)) == stored_version(*old(store)),
{
    proof {
        lemma_namespaces();
    }
    let channel_id = channel.endpoint.channel_id.clone();
    remove_count(store, CONNECTION_COUNTS, &channel_id);
    Ok(
        IbcBasicResponse::new().add_attribute("method", "ibc_channel_close").add_attribute(
            "channel",
            channel_id.as_str(),
        ),
    )
}

/// The response to a packet that could not be applied: the text of the
/// error, as an attribute and in the acknowledgement.
pub fn error_response(error: &ContractError) -> (response: IbcReceiveResponse)
    ensures
        response@ == failure_response(error@.text()),
{
    let text = error.to_string();
    let acknowledgement = make_ack_fail(error.to_string());
    let response = IbcReceiveResponse::new().add_attribute("method", "ibc_packet_receive")
        .add_attribute("error", text.as_str()).set_ack(acknowledgement);
    assert(response@.attributes =~= failure_response(error@.text()).attributes);
    response
}

/// What a packet with the payload `payload` does to the counter of
/// `channel`, and with what result. A payload that is no message changes
/// nothing and gives the parse error. A counter that cannot be read stays
/// and gives the error of the store. A counter at `u32::MAX` stays and
/// gives the overflow error. Otherwise the counter goes up by one and the
/// response of success comes back.
pub open spec fn packet_outcome(
    before: Counts,
    payload: Seq<u8>,
    channel: Seq<char>,
    after: Counts,
    outcome: Result<IbcReceiveResponseView, ContractErrorView>,
) -> bool {
    if IbcExecuteMsg::parse(payload) is None {
        &&& after == before
        &&& outcome matches Err(error)
        &&& error is Std
        &&& error.text() == parse_error_text(IBC_EXECUTE_MSG_TYPE@, UNKNOWN_MESSAGE@)
    } else if !connection_readable(before, channel) {
        &&& after == before
        &&& outcome matches Err(error)
        &&& error is Std
    } else if connection_count(before, channel) == u32::MAX {
        &&& after == before
        &&& outcome matches Err(error)
        &&& error is Std
        &&& error.text() == overflow_text(u32::MAX, 1)
    } else {
        &&& after == received(before, channel)
        &&& outcome == Ok::<IbcReceiveResponseView, ContractErrorView>(
            success_response((connection_count(before, channel) + 1) as u32),
        )
    }
}

/// The outcome of a packet as contracts see it.
pub open spec fn outcome_view(outcome: Result<IbcReceiveResponse, ContractError>) -> Result<
    IbcReceiveResponseView,
    ContractErrorView,
> {
    match outcome {
        Ok(response) => Ok(response@),
        Err(error) => Err(error@),
    }
}

/// Applies an `Increment` to the counter of `channel` and acknowledges it.
fn execute_increment(store: &mut Store, channel: String) -> (outcome: Result<
    IbcReceiveResponse,
    ContractError,
>)
    ensures
        outcome is Ok <==> connection_readable(stored_counts(*old(store)), channel@)
            && connection_count(stored_counts(*old(store)), channel@) < u32::MAX,
        match outcome {
            Ok(response) => {
                &&& response@ == success_response(
                    (connection_count(stored_counts(*old(store)), channel@) + 1) as u32,
                )
                &&& stored_counts(*final(store)) == received(
                    stored_counts(*old(store)),
                    channel@,
                )
            },
            Err(error) => {
                &&& error is Std
                &&& stored_counts(*final(store)) == stored_counts(*old(store))
                &&& connection_count(stored_counts(*old(store)), channel@) == u32::MAX
                    ==> error@.text() == overflow_text(u32::MAX, 1)
            },
        },
        stored_version(*final(store)) == stored_version(*old(store)),
{
    let count = match try_increment(store, channel) {
        Ok(count) => count,
        Err(error) => {
            return Err(ContractError::Std(error));
        },
    };
    let digits = decimal_string(count);
    let response = IbcReceiveResponse::new().add_attribute("method", "execute_increment")
        .add_attribute("count", digits.as_str()).set_ack(make_ack_success());
    assert(response@.attributes =~= success_response(count).attributes);
    Ok(response)
}

/// Decodes the payload of a packet and applies it to the counter of the
/// channel that the packet arrived on. The result is the response of
/// success or the error, as [`packet_outcome`] says.
pub fn do_ibc_packet_receive(store: &mut Store, packet: &IbcPacket) -> (outcome: Result<
    IbcReceiveResponse,
    ContractError,
>)
    ensures
        packet_outcome(
            stored_counts(*old(store)),
            packet.data@,
            packet.dest.channel_id@,
            stored_counts(*final(store)),
            outcome_view(outcome),
        ),
        stored_version(*final(store)) == stored_version(*old(store)),
{
    // The channel this packet is being relayed along on this chain.
    let channel = packet.dest.channel_id.clone();
    let msg = match IbcExecuteMsg::from_json(packet.data.as_slice()) {
        Ok(msg) => msg,
        Err(error) => {
            return Err(ContractError::Std(error));
        },
    };
    match msg {
        IbcExecuteMsg::Increment {  } => execute_increment(store, channel),
    }
}

/// The response that the host gets for an outcome: that of success as it
/// is, and for an error the response that carries its text.
pub open spec fn acknowledged(outcome: Result<IbcReceiveResponseView, ContractErrorView>) -> IbcReceiveResponseView {
    match outcome {
        Ok(response) => response,
        Err(error) => failure_response(error.text()),
    }
}

/// Receives a packet. Whatever the packet holds and whatever the store
/// does, the result is `Ok` and carries an acknowledgement: of success with
/// the new count, or of failure with the error's text.
pub fn ibc_packet_receive(store: &mut Store, packet: &IbcPacket) -> (response: Result<
    IbcReceiveResponse,
    Never,
>)
    ensures
        response matches Ok(done) && exists|outcome: Result<
            IbcReceiveResponseView,
            ContractErrorView,
        >|
            {
                &&& #[trigger] packet_outcome(
                    stored_counts(*old(store)),
                    packet.data@,
                    packet.dest.channel_id@,
                    stored_counts(*final(store)),
                    outcome,
                )
                &&& done@ == acknowledged(outcome)
            },
        response matches Ok(done) && AckView::parse(done@.acknowledgement) is Some,
        stored_version(*final(store)) == stored_version(*old(store)),
{
    // Whether or not the packet can be applied, an acknowledgement has to
    // be committed, so every error ends up in one.
    let outcome = do_ibc_packet_receive(store, packet);
    let ghost seen = outcome_view(outcome);
    assert(packet_outcome(
        stored_counts(*old(store)),
        packet.data@,
        packet.dest.channel_id@,
        stored_counts(*store),
        seen,
    ));
    proof {
        law_ack_round_trip(AckView::Result(success_marker()));
        if let Err(error) = seen {
            law_ack_round_trip(AckView::Error(error.text()));
        }
    }
    match outcome {
        Ok(response) => Ok(response),
        Err(error) => Ok(error_response(&error)),
    }
}

/// Handles the acknowledgement of a packet that this chain sent. Nothing
/// is stored of it, and it is never refused.
pub fn ibc_packet_ack(store: &mut Store, acknowledgement: &[u8]) -> (response: Result<
    IbcBasicResponse,
    ContractError,
>)
    ensures
        response matches Ok(done) && done@ == ack_response(),
        stored_counts(*final(store)) == stored_counts(*old(store)),
        stored_version(*final(store)) == stored_version(*old(store)),
{
    Ok(IbcBasicResponse::new().add_attribute("method", "ibc_packet_ack"))
}

/// Handles the timeout of a packet that this chain sent: the timeout
/// counter of the channel it was sent over, the packet's source, goes up by
/// one. The counter is bumped unless it cannot be read or is at
/// `u32::MAX`; then nothing is written, and at `u32::MAX` the error is the
/// overflow error.
pub fn ibc_packet_timeout(store: &mut Store, packet: &IbcPacket) -> (response: Result<
    IbcBasicResponse,
    ContractError,
>)
    ensures
        response is Ok <==> timeout_readable(stored_counts(*old(store)), packet.src.channel_id@)
            && timeout_count(stored_counts(*old(store)), packet.src.channel_id@) < u32::MAX,
        match response {
            Ok(done) => {
                &&& done@ == timeout_response()
                &&& stored_counts(*final(store)) == timed_out(
                    stored_counts(*old(store)),
                    packet.src.channel_id@,
                )
            },
            Err(error) => {
                &&& error is Std
                &&& stored_counts(*final(store)) == stored_counts(*old(store))
                &&& timeout_count(stored_counts(*old(store)), packet.src.channel_id@) == u32::MAX
                    ==> error@.text() == overflow_text(u32::MAX, 1)
            },
        },
        stored_version(*final(store)) == stored_version(*old(store)),
{
    proof {
        lemma_namespaces();
    }
    // A packet that timed out was sent by this chain, so it is counted
    // under its source, not its destination.
    let channel = packet.src.channel_id.clone();
    match bump_count(store, TIMEOUT_COUNTS, &channel) {
        Ok(_) => {},
        Err(error) => {
            return Err(ContractError::Std(error));
        },
    }
    Ok(IbcBasicResponse::new().add_attribute("method", "ibc_packet_timeout"))
}

} // verus!
