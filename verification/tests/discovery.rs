use fan_controller::discovery::{Device, DiscoveryPayload, Origin};

#[test]
fn serialize_home_assistant_example() {}

#[test]
fn defaults_are_empty() {
    let payload = DiscoveryPayload::default();
    assert!(payload.components.is_empty());
    assert!(payload.state_topic.is_none());
    assert!(Device::default().name.is_none());
    assert!(Origin::default().name.is_empty());
}
