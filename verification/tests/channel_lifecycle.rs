use cosmwasm_std::testing::MockStorage;
use cw_ibc_example::contract::{query, query_count, query_timeout_count, try_increment};
use cw_ibc_example::ibc::{
    ibc_channel_close, ibc_channel_connect, ibc_packet_receive, ibc_packet_timeout, IbcChannel,
    IbcEndpoint, IbcOrder, IbcPacket, IBC_VERSION,
};
use cw_ibc_example::msg::QueryMsg;
use cw_ibc_example::response::{Attribute, IbcReceiveResponse};
use cw_ibc_example::state::Store;

fn endpoint(channel_id: &str) -> IbcEndpoint {
    IbcEndpoint { port_id: "wasm.contract".to_string(), channel_id: channel_id.to_string() }
}

fn channel(channel_id: &str) -> IbcChannel {
    IbcChannel {
        endpoint: endpoint(channel_id),
        counterparty_endpoint: endpoint("chan-remote"),
        order: IbcOrder::Unordered,
        version: IBC_VERSION.to_string(),
        connection_id: "connection-0".to_string(),
    }
}

fn packet(data: &[u8], src: &str, dest: &str) -> IbcPacket {
    IbcPacket { data: data.to_vec(), src: endpoint(src), dest: endpoint(dest), sequence: 1 }
}

fn attribute(key: &str, value: &str) -> Attribute {
    Attribute { key: key.to_string(), value: value.to_string() }
}

fn count(store: &Store, channel_id: &str) -> u32 {
    query_count(store, channel_id.to_string()).unwrap().count
}

fn timeouts(store: &Store, channel_id: &str) -> u32 {
    query_timeout_count(store, channel_id.to_string()).unwrap().count
}

fn receive(store: &mut Store, data: &[u8], dest: &str) -> IbcReceiveResponse {
    match ibc_packet_receive(store, &packet(data, "chan-remote", dest)) {
        Ok(response) => response,
        Err(never) => match never {
            cw_ibc_example::error::Never::Impossible(impossible) => match impossible {},
        },
    }
}

#[test]
fn connect_sets_the_count_to_zero() {
    let mut storage = MockStorage::new();
    let mut store = Store::new(&mut storage);
    let response = ibc_channel_connect(&mut store, &channel("chan-0"), None).unwrap();
    assert_eq!(
        response.attributes,
        vec![attribute("method", "ibc_channel_connect"), attribute("channel_id", "chan-0")]
    );
    assert_eq!(count(&store, "chan-0"), 0);
}

#[test]
fn reconnect_resets_the_count() {
    let mut storage = MockStorage::new();
    let mut store = Store::new(&mut storage);
    ibc_channel_connect(&mut store, &channel("chan-0"), Some(IBC_VERSION)).unwrap();
    assert_eq!(try_increment(&mut store, "chan-0".to_string()).unwrap(), 1);
    assert_eq!(try_increment(&mut store, "chan-0".to_string()).unwrap(), 2);
    ibc_channel_connect(&mut store, &channel("chan-0"), None).unwrap();
    assert_eq!(count(&store, "chan-0"), 0);
}

#[test]
fn connect_then_receives_count_up() {
    let mut storage = MockStorage::new();
    let mut store = Store::new(&mut storage);
    ibc_channel_connect(&mut store, &channel("chan-7"), None).unwrap();
    for expected in 1..=25u32 {
        let response = receive(&mut store, br#"{"increment":{}}"#, "chan-7");
        assert_eq!(
            response.attributes,
            vec![
                attribute("method", "execute_increment"),
                attribute("count", &expected.to_string())
            ]
        );
        assert_eq!(response.acknowledgement, br#"{"result":"MQ=="}"#.to_vec());
        assert_eq!(count(&store, "chan-7"), expected);
    }
}

#[test]
fn close_removes_the_count() {
    let mut storage = MockStorage::new();
    let mut store = Store::new(&mut storage);
    ibc_channel_connect(&mut store, &channel("chan-0"), None).unwrap();
    receive(&mut store, br#"{"increment":{}}"#, "chan-0");
    let response = ibc_channel_close(&mut store, &channel("chan-0")).unwrap();
    assert_eq!(
        response.attributes,
        vec![attribute("method", "ibc_channel_close"), attribute("channel", "chan-0")]
    );
    assert_eq!(count(&store, "chan-0"), 0);
}

#[test]
fn scenario_connect_receive_malformed_close() {
    let mut storage = MockStorage::new();
    let mut store = Store::new(&mut storage);
    ibc_channel_connect(&mut store, &channel("chan-0"), None).unwrap();

    let applied = receive(&mut store, br#"{"increment":{}}"#, "chan-0");
    assert_eq!(applied.acknowledgement, br#"{"result":"MQ=="}"#.to_vec());
    assert_eq!(count(&store, "chan-0"), 1);

    let refused = receive(&mut store, br#"{"decrement":{}}"#, "chan-0");
    let text = "Error parsing into type cw_ibc_example::msg::IbcExecuteMsg: \
                expected {\"increment\":{}}";
    assert_eq!(
        refused.attributes,
        vec![attribute("method", "ibc_packet_receive"), attribute("error", text)]
    );
    assert!(refused.acknowledgement.starts_with(br#"{"error":""#));
    assert_eq!(count(&store, "chan-0"), 1);

    ibc_channel_close(&mut store, &channel("chan-0")).unwrap();
    assert_eq!(count(&store, "chan-0"), 0);
}

#[test]
fn scenario_receive_without_connect() {
    let mut storage = MockStorage::new();
    let mut store = Store::new(&mut storage);
    assert_eq!(count(&store, "chan-9"), 0);
    let response = receive(&mut store, br#"{"increment":{}}"#, "chan-9");
    assert_eq!(response.acknowledgement, br#"{"result":"MQ=="}"#.to_vec());
    assert_eq!(count(&store, "chan-9"), 1);
}

#[test]
fn scenario_two_timeouts_without_connect() {
    let mut storage = MockStorage::new();
    let mut store = Store::new(&mut storage);
    let timed_out = packet(br#"{"increment":{}}"#, "chan-1", "chan-remote");
    let response = ibc_packet_timeout(&mut store, &timed_out).unwrap();
    assert_eq!(response.attributes, vec![attribute("method", "ibc_packet_timeout")]);
    ibc_packet_timeout(&mut store, &timed_out).unwrap();
    assert_eq!(timeouts(&store, "chan-1"), 2);
    assert_eq!(count(&store, "chan-1"), 0);
    assert_eq!(timeouts(&store, "chan-remote"), 0);
}

#[test]
fn timeouts_survive_connect_and_close() {
    let mut storage = MockStorage::new();
    let mut store = Store::new(&mut storage);
    let timed_out = packet(b"", "chan-3", "chan-remote");
    ibc_packet_timeout(&mut store, &timed_out).unwrap();
    ibc_channel_connect(&mut store, &channel("chan-3"), None).unwrap();
    ibc_packet_timeout(&mut store, &timed_out).unwrap();
    receive(&mut store, br#"{"increment":{}}"#, "chan-3");
    ibc_channel_close(&mut store, &channel("chan-3")).unwrap();
    ibc_packet_timeout(&mut store, &timed_out).unwrap();
    assert_eq!(timeouts(&store, "chan-3"), 3);
    assert_eq!(count(&store, "chan-3"), 0);
}

#[test]
fn query_answers_in_json() {
    let mut storage = MockStorage::new();
    let mut store = Store::new(&mut storage);
    for _ in 0..12 {
        try_increment(&mut store, "chan-0".to_string()).unwrap();
    }
    ibc_packet_timeout(&mut store, &packet(b"", "chan-0", "chan-remote")).unwrap();
    let counted = query(&store, QueryMsg::GetCount { channel: "chan-0".to_string() }).unwrap();
    assert_eq!(counted, br#"{"count":12}"#.to_vec());
    let timed = query(&store, QueryMsg::GetTimeoutCount { channel: "chan-0".to_string() }).unwrap();
    assert_eq!(timed, br#"{"count":1}"#.to_vec());
    let none = query(&store, QueryMsg::GetCount { channel: "chan-5".to_string() }).unwrap();
    assert_eq!(none, br#"{"count":0}"#.to_vec());
}
