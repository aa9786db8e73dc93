//! What the entry points hand back to the host: attributes for the event
//! log, the acknowledgement of a packet, and messages to send.

use vstd::prelude::*;

verus! {

/// A key and a value for the event log.
#[derive(Debug, Clone, PartialEq)]
pub struct Attribute {
    pub key: String,
    pub value: String,
}

impl View for Attribute {
    type V = (Seq<char>, Seq<char>);

    open spec fn view(&self) -> (Seq<char>, Seq<char>) {
        (self.key@, self.value@)
    }
}

/// The attributes of a response as contracts see them, in order.
pub open spec fn attributes_view(attributes: Seq<Attribute>) -> Seq<(Seq<char>, Seq<char>)> {
    attributes.map_values(|attribute: Attribute| attribute@)
}

/// Appends an attribute.
fn push_attribute(attributes: &mut Vec<Attribute>, key: &str, value: &str)
    ensures
        attributes_view(final(attributes)@) == attributes_view(old(attributes)@).push(
            (key@, value@),
        ),
{
    attributes.push(Attribute { key: key.to_owned(), value: value.to_owned() });
    assert(attributes_view(attributes@) =~= attributes_view(old(attributes)@).push(
        (key@, value@),
    ));
}

/// The response to a channel or packet event that carries no
/// acknowledgement.
#[derive(Debug, Clone, PartialEq)]
pub struct IbcBasicResponse {
    pub attributes: Vec<Attribute>,
}

impl View for IbcBasicResponse {
    type V = Seq<(Seq<char>, Seq<char>)>;

    open spec fn view(&self) -> Seq<(Seq<char>, Seq<char>)> {
        attributes_view(self.attributes@)
    }
}

impl IbcBasicResponse {
    /// A response without attributes.
    pub fn new() -> (response: IbcBasicResponse)
        ensures
            response@ == Seq::<(Seq<char>, Seq<char>)>::empty(),
    {
        let response = IbcBasicResponse { attributes: Vec::new() };
        assert(response@ =~= Seq::empty());
        response
    }

    /// The response with one more attribute at its end.
    pub fn add_attribute(self, key: &str, value: &str) -> (response: IbcBasicResponse)
        ensures
            response@ == self@.push((key@, value@)),
    {
        let mut response = self;
        push_attribute(&mut response.attributes, key, value);
        response
    }
}

/// A response to a received packet as contracts see it.
pub struct IbcReceiveResponseView {
    pub acknowledgement: Seq<u8>,
    pub attributes: Seq<(Seq<char>, Seq<char>)>,
}

/// The response to a received packet: it always carries an acknowledgement.
#[derive(Debug, Clone, PartialEq)]
pub struct IbcReceiveResponse {
    pub acknowledgement: Vec<u8>,
    pub attributes: Vec<Attribute>,
}

impl View for IbcReceiveResponse {
    type V = IbcReceiveResponseView;

    open spec fn view(&self) -> IbcReceiveResponseView {
        IbcReceiveResponseView {
            acknowledgement: self.acknowledgement@,
            attributes: attributes_view(self.attributes@),
        }
    }
}

impl IbcReceiveResponse {
    /// A response with an empty acknowledgement and no attributes.
    pub fn new() -> (response: IbcReceiveResponse)
        ensures
            response@ == (IbcReceiveResponseView {
                acknowledgement: Seq::empty(),
                attributes: Seq::empty(),
            }),
    {
        let response = IbcReceiveResponse { acknowledgement: Vec::new(), attributes: Vec::new() };
        assert(response@.attributes =~= Seq::empty());
        response
    }

    /// The response with one more attribute at its end.
    pub fn add_attribute(self, key: &str, value: &str) -> (response: IbcReceiveResponse)
        ensures
            response@ == (IbcReceiveResponseView {
                acknowledgement: self@.acknowledgement,
                attributes: self@.attributes.push((key@, value@)),
            }),
    {
        let mut response = self;
        push_attribute(&mut response.attributes, key, value);
        response
    }

    /// The response with its acknowledgement replaced.
    pub fn set_ack(self, acknowledgement: Vec<u8>) -> (response: IbcReceiveResponse)
        ensures
            response@ == (IbcReceiveResponseView {
                acknowledgement: acknowledgement@,
                attributes: self@.attributes,
            }),
    {
        let mut response = self;
        response.acknowledgement = acknowledgement;
        response
    }
}

/// A packet to send, as contracts see it.
pub struct SendPacketView {
    pub channel_id: Seq<char>,
    pub data: Seq<u8>,
    pub timeout: u64,
}

/// A message that the contract asks the host to send over IBC.
#[derive(Debug, Clone, PartialEq)]
pub enum IbcMsg {
    /// Send `data` over the channel `channel_id`; the packet times out at
    /// `timeout`, in nanoseconds since the epoch.
    SendPacket { channel_id: String, data: Vec<u8>, timeout: u64 },
}

impl View for IbcMsg {
    type V = SendPacketView;

    open spec fn view(&self) -> SendPacketView {
        match self {
            IbcMsg::SendPacket { channel_id, data, timeout } => SendPacketView {
                channel_id: channel_id@,
                data: data@,
                timeout: *timeout,
            },
        }
    }
}

/// A response to `instantiate` or `execute` as contracts see it.
pub struct ResponseView {
    pub attributes: Seq<(Seq<char>, Seq<char>)>,
    pub messages: Seq<SendPacketView>,
}

/// The response to `instantiate` and `execute`.
#[derive(Debug, Clone, PartialEq)]
pub struct Response {
    pub attributes: Vec<Attribute>,
    pub messages: Vec<IbcMsg>,
}

impl View for Response {
    type V = ResponseView;

    open spec fn view(&self) -> ResponseView {
        ResponseView {
            attributes: attributes_view(self.attributes@),
            messages: self.messages@.map_values(|message: IbcMsg| message@),
        }
    }
}

impl Response {
    /// A response without attributes and messages.
    pub fn new() -> (response: Response)
        ensures
            response@ == (ResponseView { attributes: Seq::empty(), messages: Seq::empty() }),
    {
        let response = Response { attributes: Vec::new(), messages: Vec::new() };
        assert(response@.attributes =~= Seq::empty());
        assert(response@.messages =~= Seq::empty());
        response
    }

    /// The response with one more attribute at its end.
    pub fn add_attribute(self, key: &str, value: &str) -> (response: Response)
        ensures
            response@ == (ResponseView {
                attributes: self@.attributes.push((key@, value@)),
                messages: self@.messages,
            }),
    {
        let mut response = self;
        push_attribute(&mut response.attributes, key, value);
        response
    }

    /// The response with one more message at its end.
    pub fn add_message(self, message: IbcMsg) -> (response: Response)
        ensures
            response@ == (ResponseView {
                attributes: self@.attributes,
                messages: self@.messages.push(message@),
            }),
    {
        let mut response = self;
        response.messages.push(message);
        assert(response@.messages =~= self@.messages.push(message@));
        response
    }
}

} // verus!
