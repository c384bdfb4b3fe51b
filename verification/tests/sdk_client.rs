use aether::sdk::{AetherClient, ObjectId, SdkError};

#[test]
fn connect_then_create_object_succeeds() {
    let client = AetherClient::connect("aether://localhost:9000").unwrap();
    let id = client.create_object_id(None).unwrap();
    assert_eq!(id.0, 0);
    assert_eq!(client.create_object_id(Some(ObjectId(4))).unwrap(), ObjectId(0));
}

#[test]
fn connected_client_accepts_updates_and_intents() {
    let client = AetherClient::connect("aether://localhost:9000").unwrap();
    assert!(client.update_object_id(ObjectId(1)).is_ok());
    assert!(client.send_intent("bring me a glass of water").is_ok());
    let err: Result<(), SdkError> = Err(SdkError::NotConnected);
    assert!(matches!(err, Err(SdkError::NotConnected)));
}
