use cosmwasm_std::testing::MockStorage;
use cw_ibc_example::contract::query_count;
use cw_ibc_example::ibc::{
    ibc_channel_connect, ibc_channel_open, validate_order_and_version, IbcChannel, IbcEndpoint,
    IbcOrder, IBC_VERSION,
};
use cw_ibc_example::state::Store;
use cw_ibc_example::ContractError;

fn channel(order: IbcOrder, version: &str) -> IbcChannel {
    IbcChannel {
        endpoint: IbcEndpoint { port_id: "wasm.here".to_string(), channel_id: "chan-0".to_string() },
        counterparty_endpoint: IbcEndpoint {
            port_id: "wasm.there".to_string(),
            channel_id: "chan-8".to_string(),
        },
        order,
        version: version.to_string(),
        connection_id: "connection-2".to_string(),
    }
}

fn invalid_version(actual: &str) -> ContractError {
    ContractError::InvalidVersion { actual: actual.to_string(), expected: "counter-1".to_string() }
}

#[test]
fn protocol_version_is_counter_1() {
    assert_eq!(IBC_VERSION, "counter-1");
}

#[test]
fn unordered_channel_with_the_version_is_accepted() {
    let good = channel(IbcOrder::Unordered, "counter-1");
    assert_eq!(validate_order_and_version(&good, None), Ok(()));
    assert_eq!(validate_order_and_version(&good, Some("counter-1")), Ok(()));
}

#[test]
fn ordered_channel_is_rejected_whatever_the_versions() {
    for version in ["counter-1", "counter-2", ""] {
        for counterparty in [None, Some("counter-1"), Some("other")] {
            let ordered = channel(IbcOrder::Ordered, version);
            assert_eq!(
                validate_order_and_version(&ordered, counterparty),
                Err(ContractError::OrderedChannel {})
            );
        }
    }
}

#[test]
fn wrong_channel_version_is_rejected() {
    for version in ["counter-2", "", "counter-1 ", "Counter-1", "counter-", "counter-11"] {
        let wrong = channel(IbcOrder::Unordered, version);
        assert_eq!(validate_order_and_version(&wrong, None), Err(invalid_version(version)));
        assert_eq!(
            validate_order_and_version(&wrong, Some("counter-1")),
            Err(invalid_version(version))
        );
    }
}

#[test]
fn wrong_counterparty_version_is_rejected() {
    let good = channel(IbcOrder::Unordered, "counter-1");
    for version in ["counter-2", "", "ics20-1"] {
        assert_eq!(
            validate_order_and_version(&good, Some(version)),
            Err(invalid_version(version))
        );
    }
}

#[test]
fn channel_version_is_reported_before_the_counterparty_version() {
    let wrong = channel(IbcOrder::Unordered, "mine");
    assert_eq!(validate_order_and_version(&wrong, Some("theirs")), Err(invalid_version("mine")));
}

#[test]
fn error_messages() {
    assert_eq!(
        ContractError::OrderedChannel {}.to_string(),
        "Only unordered channels are supported."
    );
    assert_eq!(
        invalid_version("counter-2").to_string(),
        "Invalid IBC channel version. Got (counter-2), expected (counter-1)."
    );
    let wrapped = ContractError::Std(cosmwasm_std::StdError::generic_err("disk on fire"));
    assert_eq!(wrapped.to_string(), "Generic error: disk on fire");
}

#[test]
fn open_validates_and_proposes_nothing() {
    let good = channel(IbcOrder::Unordered, "counter-1");
    assert_eq!(ibc_channel_open(&good, None), Ok(None));
    assert_eq!(ibc_channel_open(&good, Some("counter-1")), Ok(None));
    let ordered = channel(IbcOrder::Ordered, "counter-1");
    assert_eq!(ibc_channel_open(&ordered, None), Err(ContractError::OrderedChannel {}));
    assert_eq!(ibc_channel_open(&good, Some("x")), Err(invalid_version("x")));
}

#[test]
fn rejected_connect_stores_nothing() {
    let mut storage = MockStorage::new();
    {
        let mut store = Store::new(&mut storage);
        let ordered = channel(IbcOrder::Ordered, "counter-1");
        assert_eq!(
            ibc_channel_connect(&mut store, &ordered, None),
            Err(ContractError::OrderedChannel {})
        );
        let wrong = channel(IbcOrder::Unordered, "counter-9");
        assert_eq!(
            ibc_channel_connect(&mut store, &wrong, None),
            Err(invalid_version("counter-9"))
        );
        assert_eq!(query_count(&store, "chan-0".to_string()).unwrap().count, 0);
    }
    let counts = cw_storage_plus::Map::<String, u32>::new("connection_counts");
    assert!(!counts.has(&storage, "chan-0".to_string()));
}

#[test]
fn accepted_connect_stores_zero_under_the_local_channel() {
    let mut storage = MockStorage::new();
    {
        let mut store = Store::new(&mut storage);
        let good = channel(IbcOrder::Unordered, "counter-1");
        ibc_channel_connect(&mut store, &good, Some("counter-1")).unwrap();
    }
    let counts = cw_storage_plus::Map::<String, u32>::new("connection_counts");
    assert_eq!(counts.may_load(&storage, "chan-0".to_string()).unwrap(), Some(0));
    assert_eq!(counts.may_load(&storage, "chan-8".to_string()).unwrap(), None);
}
