use cosmwasm_std::testing::MockStorage;
use cw_ibc_example::contract::{
    execute, instantiate, query_count, CONTRACT_NAME, CONTRACT_VERSION, PACKET_LIFETIME,
};
use cw_ibc_example::msg::{ExecuteMsg, InstantiateMsg};
use cw_ibc_example::response::{Attribute, IbcBasicResponse, IbcMsg, IbcReceiveResponse, Response};
use cw_ibc_example::state::Store;

fn attribute(key: &str, value: &str) -> Attribute {
    Attribute { key: key.to_string(), value: value.to_string() }
}

#[test]
fn instantiate_records_the_contract() {
    let mut storage = MockStorage::new();
    {
        let mut store = Store::new(&mut storage);
        let response = instantiate(&mut store, InstantiateMsg {}).unwrap();
        assert_eq!(response.attributes, vec![attribute("method", "instantiate")]);
        assert!(response.messages.is_empty());
        assert_eq!(query_count(&store, "chan-0".to_string()).unwrap().count, 0);
    }
    let recorded = cw2::get_contract_version(&storage).unwrap();
    assert_eq!(recorded.contract, "crates.io:cw-ibc-example");
    assert_eq!(recorded.contract, CONTRACT_NAME);
    assert_eq!(recorded.version, CONTRACT_VERSION);
}

#[test]
fn execute_sends_an_increment_packet() {
    let now: u64 = 1_571_797_419_879_305_533;
    let response = execute(now, ExecuteMsg::Increment { channel: "chan-5".to_string() }).unwrap();
    assert_eq!(
        response.attributes,
        vec![attribute("method", "execute_increment"), attribute("channel", "chan-5")]
    );
    assert_eq!(
        response.messages,
        vec![IbcMsg::SendPacket {
            channel_id: "chan-5".to_string(),
            data: br#"{"increment":{}}"#.to_vec(),
            timeout: 1_571_797_539_879_305_533,
        }]
    );
}

#[test]
fn packets_live_two_minutes() {
    assert_eq!(PACKET_LIFETIME, 120);
    let response = execute(0, ExecuteMsg::Increment { channel: String::new() }).unwrap();
    assert_eq!(
        response.messages,
        vec![IbcMsg::SendPacket {
            channel_id: String::new(),
            data: br#"{"increment":{}}"#.to_vec(),
            timeout: 120_000_000_000,
        }]
    );
    let latest = u64::MAX - 120_000_000_000;
    let response = execute(latest, ExecuteMsg::Increment { channel: "c".to_string() }).unwrap();
    match &response.messages[0] {
        IbcMsg::SendPacket { timeout, .. } => assert_eq!(*timeout, u64::MAX),
    }
}

#[test]
fn responses_are_built_in_order() {
    let basic = IbcBasicResponse::new().add_attribute("a", "1").add_attribute("b", "2");
    assert_eq!(basic.attributes, vec![attribute("a", "1"), attribute("b", "2")]);

    let received = IbcReceiveResponse::new()
        .add_attribute("a", "1")
        .set_ack(b"first".to_vec())
        .add_attribute("b", "2")
        .set_ack(b"second".to_vec());
    assert_eq!(received.attributes, vec![attribute("a", "1"), attribute("b", "2")]);
    assert_eq!(received.acknowledgement, b"second".to_vec());
    assert_eq!(IbcReceiveResponse::new().acknowledgement, Vec::<u8>::new());

    let message = IbcMsg::SendPacket { channel_id: "c".to_string(), data: vec![1], timeout: 9 };
    let response = Response::new()
        .add_message(message.clone())
        .add_attribute("k", "v")
        .add_message(message.clone());
    assert_eq!(response.attributes, vec![attribute("k", "v")]);
    assert_eq!(response.messages, vec![message.clone(), message]);
}
