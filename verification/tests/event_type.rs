use std::time::Duration;

use nakadion::model::event_type::{
    Category, CleanupPolicy, CompatibilityMode, EnrichmentStrategy, EventTypeAudience,
    EventTypeAuthorization, EventTypeOptions, EventTypeSchema, EventTypeSchemaInput,
    EventTypeStatistics, PartitionKey, PartitionKeyFields, PartitionStrategy, RetentionTime,
    SchemaType, UtcTimestamp,
};
use nakadion::model::misc::{AuthorizationAttribute, OwningApplication};
use nakadion::model::EventTypeName;

#[test]
fn defaults_follow_the_server() {
    assert_eq!(PartitionStrategy::default(), PartitionStrategy::Random);
    assert_eq!(CompatibilityMode::default(), CompatibilityMode::Forward);
    assert_eq!(CleanupPolicy::default(), CleanupPolicy::Delete);
    let authorization = EventTypeAuthorization::default();
    assert!(authorization.admins.is_empty());
    assert!(authorization.readers.is_empty());
    assert!(authorization.writers.is_empty());
}

#[test]
fn a_partition_key_takes_what_converts_into_a_string() {
    assert_eq!(PartitionKey::new("order_id"), PartitionKey("order_id".to_string()));
    assert_eq!(PartitionKey::new(String::from("customer")), PartitionKey("customer".to_string()));
    assert_eq!(PartitionKey::new('x'), PartitionKey("x".to_string()));
    assert_ne!(PartitionKey::new("a"), PartitionKey::new("b"));
}

#[test]
fn a_retention_time_keeps_its_duration() {
    let time = RetentionTime::new(Duration::from_millis(86_400_000));
    assert_eq!(time.0, Duration::from_secs(86_400));
    assert_eq!(time, RetentionTime(Duration::from_millis(86_400_000)));
    assert_eq!(time.0.as_millis(), 86_400_000);
    let options = EventTypeOptions { retention_time: Some(time) };
    assert_eq!(options.retention_time.unwrap().0.as_secs(), 86_400);
}

#[test]
fn copies_are_equal_to_their_originals() {
    let key = PartitionKey::new("order_id");
    assert_eq!(key.clone(), key);
    let fields = PartitionKeyFields(vec![PartitionKey::new("a"), PartitionKey::new("b")]);
    assert_eq!(fields.clone().0, fields.0);
    let schema = EventTypeSchema {
        version: "1.0.0".to_string(),
        created_at: UtcTimestamp::new(1_500_000_000, 250),
        schema_type: SchemaType::JsonSchema,
        schema: "{}".to_string(),
    };
    assert_eq!(schema.clone(), schema);
    assert_eq!(schema.created_at, UtcTimestamp { secs: 1_500_000_000, nanos: 250 });
    let input = EventTypeSchemaInput { schema_type: SchemaType::JsonSchema, schema: "{}".to_string() };
    assert_eq!(input.clone(), input);
    let authorization = EventTypeAuthorization {
        admins: vec![AuthorizationAttribute::new("user".to_string(), "amy".to_string())],
        readers: Vec::new(),
        writers: vec![AuthorizationAttribute::new("service".to_string(), "orders".to_string())],
    };
    let copy = authorization.clone();
    assert_eq!(copy.admins, authorization.admins);
    assert_eq!(copy.readers, authorization.readers);
    assert_eq!(copy.writers, authorization.writers);
    assert_eq!(EventTypeName::new("order.created".to_string()).clone().0, "order.created");
    assert_eq!(OwningApplication::new("shop".to_string()).clone().0, "shop");
}

#[test]
fn plain_values_compare_by_what_they_hold() {
    assert_ne!(Category::Data, Category::Business);
    assert_ne!(Category::Undefined, Category::Data);
    assert_ne!(CompatibilityMode::Compatible, CompatibilityMode::NoCompatibility);
    assert_ne!(EventTypeAudience::ExternalPartner, EventTypeAudience::ExternalPublic);
    assert_eq!(EnrichmentStrategy::MetadataEnrichment, EnrichmentStrategy::MetadataEnrichment);
    let statistics = EventTypeStatistics {
        messages_per_minute: 1_000,
        message_size: 512,
        read_parallelism: 4,
        write_parallelism: 2,
    };
    let copy = statistics;
    assert_eq!(copy, statistics);
    assert_ne!(
        copy,
        EventTypeStatistics { messages_per_minute: 1_000, message_size: 512, read_parallelism: 4, write_parallelism: 3 }
    );
}
