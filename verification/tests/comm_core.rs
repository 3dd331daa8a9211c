use vision_lab::comm::{
    error_message, event, versioned, ApiError, CommandId, ComponentIdentity, CorrelationId,
    EventId, RuntimeInstanceId,
};

#[test]
fn ids_are_unique() {
    assert_ne!(CommandId::new(), CommandId::new());
    assert_ne!(EventId::new(), EventId::new());
}

#[test]
fn identities_carry_their_names_and_a_uuid_instance() {
    let identity = ComponentIdentity::new("vision", "main", "1.2");
    assert_eq!(identity.component.component_type, "vision");
    assert_eq!(identity.component.component_name, "main");
    assert_eq!(identity.version, "1.2");
    let parsed = uuid::Uuid::parse_str(&identity.instance_id.0).unwrap();
    assert_eq!(parsed.get_version_num(), 4);
    assert_eq!(parsed.to_string(), identity.instance_id.0);
    assert_ne!(RuntimeInstanceId::new(), RuntimeInstanceId::default());
    let id = CorrelationId::new();
    assert_eq!(uuid::Uuid::from_u128(id.0).get_version_num(), 4);
}

#[test]
fn snapshots_and_events_keep_their_fields() {
    let identity = ComponentIdentity::new("camera", "main", "0");
    let snapshot = versioned(identity.clone(), 9, "state");
    assert_eq!((snapshot.revision, snapshot.value), (9, "state"));
    assert_eq!(snapshot.source, identity);
    let envelope = event(identity, 1, None, "ready".to_string());
    assert_eq!(envelope.sequence, 1);
    assert_eq!(envelope.payload, "ready");
}

#[test]
fn error_messages_name_their_kind() {
    assert_eq!(error_message(ApiError::Unavailable("x".into())), "component is unavailable: x");
    assert_eq!(error_message(ApiError::Rejected("x".into())), "command rejected: x");
    assert_eq!(error_message(ApiError::InvalidRequest("x".into())), "invalid request: x");
    assert_eq!(error_message(ApiError::Failed("x".into())), "operation failed: x");
    assert_eq!(error_message(ApiError::StreamClosed), "stream closed");
}

#[test]
fn unix_millis_counts_from_the_epoch() {
    assert_eq!(vision_lab::comm::unix_millis(std::time::UNIX_EPOCH + std::time::Duration::from_millis(2_500)), 2_500);
    assert_eq!(vision_lab::comm::unix_millis(std::time::UNIX_EPOCH + std::time::Duration::from_micros(1_999)), 1);
    assert_eq!(vision_lab::comm::unix_millis(std::time::UNIX_EPOCH - std::time::Duration::from_secs(5)), 0);
}
