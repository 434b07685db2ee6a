//! The definition of an event type, as the server gives it out and as it is
//! submitted to the server.

use std::time::Duration;
use vstd::prelude::*;
use crate::model::misc::{AuthorizationAttribute, OwningApplication};
use crate::model::EventTypeName;

verus! {

/// A moment in time, in UTC: the whole seconds since the start of 1970,
/// negative before it, and the nanoseconds into that second.
#[derive(Debug, Clone, Copy, PartialEq, Eq, Structural)]
pub struct UtcTimestamp {
    pub secs: i64,
    pub nanos: u32,
}

impl UtcTimestamp {
    /// The moment `nanos` nanoseconds into the second `secs`.
    pub fn new(secs: i64, nanos: u32) -> (t: UtcTimestamp)
        ensures
            t == (UtcTimestamp { secs, nanos }),
    {
        UtcTimestamp { secs, nanos }
    }
}

/// The category of an event type. It decides which validations and
/// enrichments apply and what the effective schema is.
#[derive(Debug, Clone, Copy, PartialEq, Eq, Structural)]
pub enum Category {
    /// Nothing is predefined: the effective schema is the schema of the
    /// event type.
    Undefined,
    /// The events are data change events: the effective schema has the
    /// metadata and the fields `data_op` and `data_type`, and the schema of
    /// the event type describes `data`.
    Data,
    /// The events are business events: the effective schema has the
    /// metadata and, at top level, what the schema of the event type
    /// defines.
    Business,
}

/// How an event is assigned to a partition.
#[derive(Debug, Clone, Copy, PartialEq, Eq, Structural)]
pub enum PartitionStrategy {
    /// At random, which spreads the events evenly.
    Random,
    /// By a hash of the fields named as partition key fields, so that
    /// events that agree in them share a partition.
    Hash,
    /// As the producer says in the metadata of each event.
    UserDefined,
}

impl Default for PartitionStrategy {
    /// Events are spread at random unless something else is asked for.
    fn default() -> (s: PartitionStrategy)
        ensures
            s == PartitionStrategy::Random,
    {
        PartitionStrategy::Random
    }
}

/// How the schema of an event type may change.
#[derive(Debug, Clone, Copy, PartialEq, Eq, Structural)]
pub enum CompatibilityMode {
    /// Only optional properties and definitions may be added, so that
    /// every event ever published stays valid.
    Compatible,
    /// Changes must leave consumers working that ignore what they do not
    /// know.
    Forward,
    /// Any change is accepted.
    NoCompatibility,
}

impl Default for CompatibilityMode {
    /// Schemas evolve forward compatibly unless something else is asked
    /// for.
    fn default() -> (m: CompatibilityMode)
        ensures
            m == CompatibilityMode::Forward,
    {
        CompatibilityMode::Forward
    }
}

/// The name of one field by which events are assigned to partitions.
#[derive(Debug, PartialEq, Eq)]
pub struct PartitionKey(pub String);

impl PartitionKey {
    /// The partition key that `v` converts into.
    pub fn new<V: Into<String>>(v: V) -> (key: PartitionKey)
        ensures
            call_ensures(V::into, (v,), key.0),
    {
        PartitionKey(v.into())
    }
}

/// The fields by which events are assigned to partitions. They are needed
/// with the partition strategy `Hash` and must be absent otherwise.
#[derive(Debug)]
pub struct PartitionKeyFields(pub Vec<PartitionKey>);

/// What happens to old events.
#[derive(Debug, Clone, Copy, PartialEq, Eq, Structural)]
pub enum CleanupPolicy {
    /// Events are deleted some time after their retention time has passed.
    Delete,
    /// Of the events with the same compaction key only the latest is kept.
    Compact,
}

impl Default for CleanupPolicy {
    /// Old events are deleted unless something else is asked for.
    fn default() -> (p: CleanupPolicy)
        ensures
            p == CleanupPolicy::Delete,
    {
        CleanupPolicy::Delete
    }
}

/// The language in which a schema is written.
#[derive(Debug, Clone, Copy, PartialEq, Eq, Structural)]
pub enum SchemaType {
    /// JSON Schema, draft 04.
    JsonSchema,
}

/// The latest schema of an event type, as the server gives it out.
#[derive(Debug, PartialEq, Eq)]
pub struct EventTypeSchema {
    pub version: String,
    pub created_at: UtcTimestamp,
    pub schema_type: SchemaType,
    pub schema: String,
}

/// The schema of an event type, as it is submitted.
#[derive(Debug, PartialEq, Eq)]
pub struct EventTypeSchemaInput {
    pub schema_type: SchemaType,
    pub schema: String,
}

/// How long the server keeps the events of an event type.
#[derive(Debug, Clone, Copy, PartialEq, Eq)]
pub struct RetentionTime(pub Duration);

impl RetentionTime {
    /// The retention time of the given length.
    pub fn new(d: Duration) -> (t: RetentionTime)
        ensures
            t.0 == d,
    {
        RetentionTime(d)
    }
}

/// Settings that tune how the server treats an event type.
#[derive(Debug, Clone, Copy)]
pub struct EventTypeOptions {
    pub retention_time: Option<RetentionTime>,
}

/// Who may administer, read and write an event type.
#[derive(Debug)]
pub struct EventTypeAuthorization {
    pub admins: Vec<AuthorizationAttribute>,
    pub readers: Vec<AuthorizationAttribute>,
    pub writers: Vec<AuthorizationAttribute>,
}

impl Default for EventTypeAuthorization {
    /// An authorization that names nobody.
    fn default() -> (a: EventTypeAuthorization)
        ensures
            a.admins@ == Seq::<AuthorizationAttribute>::empty(),
            a.readers@ == Seq::<AuthorizationAttribute>::empty(),
            a.writers@ == Seq::<AuthorizationAttribute>::empty(),
    {
        EventTypeAuthorization { admins: Vec::new(), readers: Vec::new(), writers: Vec::new() }
    }
}

/// For whom an event type is meant. This informs its users and changes
/// nothing in how the server treats it.
#[derive(Debug, Clone, Copy, PartialEq, Eq, Structural)]
pub enum EventTypeAudience {
    ComponentInternal,
    BusinessUnitInternal,
    CompanyInternal,
    ExternalPartner,
    ExternalPublic,
}

/// What the server adds to an event when it receives it.
#[derive(Debug, Clone, Copy, PartialEq, Eq, Structural)]
pub enum EnrichmentStrategy {
    /// The metadata is filled in. Event types of the categories `Business`
    /// and `Data` need this; those of the category `Undefined` cannot have
    /// it.
    MetadataEnrichment,
}

/// The load that an event type is expected to carry. The server sizes the
/// event type by it.
#[derive(Debug, Clone, Copy, PartialEq, Eq, Structural)]
pub struct EventTypeStatistics {
    /// Events written per minute, all producers together.
    pub messages_per_minute: u64,
    /// The average size of an event in bytes, metadata included.
    pub message_size: u64,
    /// How many consumers read in parallel.
    pub read_parallelism: u64,
    /// How many producers write in parallel.
    pub write_parallelism: u64,
}

/// An event type as the server gives it out.
#[derive(Debug)]
pub struct EventType {
    pub name: EventTypeName,
    pub owning_application: OwningApplication,
    pub category: Category,
    pub enrichment_strategy: Option<EnrichmentStrategy>,
    pub partition_strategy: PartitionStrategy,
    pub compatibility_mode: CompatibilityMode,
    pub schema: EventTypeSchema,
    pub partition_key_fields: Option<PartitionKeyFields>,
    pub cleanup_policy: CleanupPolicy,
    pub default_statistic: Option<EventTypeStatistics>,
    pub options: Option<EventTypeOptions>,
    pub authorization: EventTypeAuthorization,
    pub audience: Option<EventTypeAudience>,
    pub created_at: UtcTimestamp,
    pub updated_at: UtcTimestamp,
}

/// An event type as it is submitted to the server.
#[derive(Debug)]
pub struct EventTypeInput {
    pub name: EventTypeName,
    pub owning_application: OwningApplication,
    pub category: Category,
    pub enrichment_strategy: Option<EnrichmentStrategy>,
    pub partition_strategy: PartitionStrategy,
    pub compatibility_mode: CompatibilityMode,
    pub schema: EventTypeSchemaInput,
    pub partition_key_fields: Option<PartitionKeyFields>,
    pub cleanup_policy: CleanupPolicy,
    pub default_statistic: Option<EventTypeStatistics>,
    pub options: Option<EventTypeOptions>,
    pub authorization: Option<EventTypeAuthorization>,
    pub audience: Option<EventTypeAudience>,
}

impl Clone for PartitionKey {
    fn clone(&self) -> (key: PartitionKey)
        ensures
            key == *self,
    {
        PartitionKey(self.0.clone())
    }
}

impl Clone for PartitionKeyFields {
    fn clone(&self) -> (fields: PartitionKeyFields)
        ensures
            fields.0@ == self.0@,
    {
        let keys = self.0.clone();
        assert(keys@ =~= self.0@);
        PartitionKeyFields(keys)
    }
}

impl Clone for EventTypeSchema {
    fn clone(&self) -> (schema: EventTypeSchema)
        ensures
            schema == *self,
    {
        EventTypeSchema {
            version: self.version.clone(),
            created_at: self.created_at,
            schema_type: self.schema_type,
            schema: self.schema.clone(),
        }
    }
}

impl Clone for EventTypeSchemaInput {
    fn clone(&self) -> (schema: EventTypeSchemaInput)
        ensures
            schema == *self,
    {
        EventTypeSchemaInput { schema_type: self.schema_type, schema: self.schema.clone() }
    }
}

impl Clone for EventTypeAuthorization {
    fn clone(&self) -> (a: EventTypeAuthorization)
        ensures
            a.admins@ == self.admins@,
            a.readers@ == self.readers@,
            a.writers@ == self.writers@,
    {
        let admins = self.admins.clone();
        let readers = self.readers.clone();
        let writers = self.writers.clone();
        assert(admins@ =~= self.admins@);
        assert(readers@ =~= self.readers@);
        assert(writers@ =~= self.writers@);
        EventTypeAuthorization { admins, readers, writers }
    }
}

fn clone_key_fields(fields: &Option<PartitionKeyFields>) -> (copy: Option<PartitionKeyFields>)
    ensures
        copy.is_some() == fields.is_some(),
        fields.is_some() ==> copy.unwrap().0@ == fields.unwrap().0@,
{
    match fields {
        Some(f) => Some(f.clone()),
        None => None,
    }
}

fn clone_authorization(authorization: &Option<EventTypeAuthorization>) -> (copy: Option<
    EventTypeAuthorization,
>)
    ensures
        copy.is_some() == authorization.is_some(),
        authorization.is_some() ==> ({
            &&& copy.unwrap().admins@ == authorization.unwrap().admins@
            &&& copy.unwrap().readers@ == authorization.unwrap().readers@
            &&& copy.unwrap().writers@ == authorization.unwrap().writers@
        }),
{
    match authorization {
        Some(a) => Some(a.clone()),
        None => None,
    }
}

impl Clone for EventType {
    fn clone(&self) -> (copy: EventType)
        ensures
            copy.name == self.name,
            copy.owning_application == self.owning_application,
            copy.category == self.category,
            copy.enrichment_strategy == self.enrichment_strategy,
            copy.partition_strategy == self.partition_strategy,
            copy.compatibility_mode == self.compatibility_mode,
            copy.schema == self.schema,
            copy.partition_key_fields.is_some() == self.partition_key_fields.is_some(),
            self.partition_key_fields.is_some() ==> copy.partition_key_fields.unwrap().0@
                == self.partition_key_fields.unwrap().0@,
            copy.cleanup_policy == self.cleanup_policy,
            copy.default_statistic == self.default_statistic,
            copy.options == self.options,
            copy.authorization.admins@ == self.authorization.admins@,
            copy.authorization.readers@ == self.authorization.readers@,
            copy.authorization.writers@ == self.authorization.writers@,
            copy.audience == self.audience,
            copy.created_at == self.created_at,
            copy.updated_at == self.updated_at,
    {
        EventType {
            name: self.name.clone(),
            owning_application: self.owning_application.clone(),
            category: self.category,
            enrichment_strategy: self.enrichment_strategy,
            partition_strategy: self.partition_strategy,
            compatibility_mode: self.compatibility_mode,
            schema: self.schema.clone(),
            partition_key_fields: clone_key_fields(&self.partition_key_fields),
            cleanup_policy: self.cleanup_policy,
            default_statistic: self.default_statistic,
            options: self.options,
            authorization: self.authorization.clone(),
            audience: self.audience,
            created_at: self.created_at,
            updated_at: self.updated_at,
        }
    }
}

impl Clone for EventTypeInput {
    fn clone(&self) -> (copy: EventTypeInput)
        ensures
            copy.name == self.name,
            copy.owning_application == self.owning_application,
            copy.category == self.category,
            copy.enrichment_strategy == self.enrichment_strategy,
            copy.partition_strategy == self.partition_strategy,
            copy.compatibility_mode == self.compatibility_mode,
            copy.schema == self.schema,
            copy.partition_key_fields.is_some() == self.partition_key_fields.is_some(),
            self.partition_key_fields.is_some() ==> copy.partition_key_fields.unwrap().0@
                == self.partition_key_fields.unwrap().0@,
            copy.cleanup_policy == self.cleanup_policy,
            copy.default_statistic == self.default_statistic,
            copy.options == self.options,
            copy.authorization.is_some() == self.authorization.is_some(),
            self.authorization.is_some() ==> ({
                &&& copy.authorization.unwrap().admins@ == self.authorization.unwrap().admins@
                &&& copy.authorization.unwrap().readers@ == self.authorization.unwrap().readers@
                &&& copy.authorization.unwrap().writers@ == self.authorization.unwrap().writers@
            }),
            copy.audience == self.audience,
    {
        EventTypeInput {
            name: self.name.clone(),
            owning_application: self.owning_application.clone(),
            category: self.category,
            enrichment_strategy: self.enrichment_strategy,
            partition_strategy: self.partition_strategy,
            compatibility_mode: self.compatibility_mode,
            schema: self.schema.clone(),
            partition_key_fields: clone_key_fields(&self.partition_key_fields),
            cleanup_policy: self.cleanup_policy,
            default_statistic: self.default_statistic,
            options: self.options,
            authorization: clone_authorization(&self.authorization),
            audience: self.audience,
        }
    }
}

} // verus!
