//! The log model: a record of one logged event.

use vstd::prelude::*;
use vstd::string::StringExecFns;

use crate::datetime::DateTime;
use crate::json::spec_get;
use crate::json::JsonMap;
use crate::json::Value;
use crate::uuid::Uuid;
use crate::validation::Validation;

verus! {

/// The log model.
pub struct Log {
    // Basic fields.
    /// The record's identifier.
    pub id: Uuid,
    /// The log's name; must be non-empty.
    pub name: String,
    /// The namespace the log belongs to.
    pub namespace: String,
    /// Who may see the record.
    pub visibility: String,
    /// The record's lifecycle status.
    pub status: String,
    /// A free-form description.
    pub description: String,
    // Info fields.
    /// The service that produced the record.
    pub service: String,
    /// The host the service ran on.
    pub server_host: String,
    /// The client address the request came from.
    pub client_ip: String,
    /// The topic the record belongs to.
    pub topic: String,
    /// The severity level.
    pub level: String,
    /// The logged message.
    pub message: String,
    /// Where in the source the record was produced.
    pub source: String,
    /// When the event was recorded.
    pub recorded_at: DateTime,
    // Extensions.
    /// The event's payload.
    pub content: JsonMap,
    /// Measured values attached to the event.
    pub metrics: JsonMap,
    /// Anything else attached to the event.
    pub extras: JsonMap,
    // Revisions.
    /// The managing user.
    pub manager_id: Uuid,
    /// The maintaining user.
    pub maintainer_id: Uuid,
    /// When the record was created.
    pub created_at: DateTime,
    /// When the record was last updated.
    pub updated_at: DateTime,
    /// The record's version counter.
    pub version: u64,
    /// The record's edition counter.
    pub edition: u32,
}

impl Log {
    /// Creates a new record: a fresh identifier, every text empty, every
    /// map empty, every count zero.
    pub fn new() -> (r: Log)
        ensures
            r.name@ == Seq::<char>::empty(),
            r.namespace@ == Seq::<char>::empty(),
            r.visibility@ == Seq::<char>::empty(),
            r.status@ == Seq::<char>::empty(),
            r.description@ == Seq::<char>::empty(),
            r.service@ == Seq::<char>::empty(),
            r.server_host@ == Seq::<char>::empty(),
            r.client_ip@ == Seq::<char>::empty(),
            r.topic@ == Seq::<char>::empty(),
            r.level@ == Seq::<char>::empty(),
            r.message@ == Seq::<char>::empty(),
            r.source@ == Seq::<char>::empty(),
            r.recorded_at.millis == 0,
            r.content@.len() == 0 && r.content.spec_wf(),
            r.metrics@.len() == 0 && r.metrics.spec_wf(),
            r.extras@.len() == 0 && r.extras.spec_wf(),
            r.manager_id.spec_value() == 0,
            r.maintainer_id.spec_value() == 0,
            r.created_at.millis == 0,
            r.updated_at.millis == 0,
            r.version == 0,
            r.edition == 0,
    {
        Log {
            id: crate::uuid::generate(),
            name: String::new(),
            namespace: String::new(),
            visibility: String::new(),
            status: String::new(),
            description: String::new(),
            service: String::new(),
            server_host: String::new(),
            client_ip: String::new(),
            topic: String::new(),
            level: String::new(),
            message: String::new(),
            source: String::new(),
            recorded_at: DateTime { millis: 0 },
            content: JsonMap::new(),
            metrics: JsonMap::new(),
            extras: JsonMap::new(),
            manager_id: Uuid::from_u128(0),
            maintainer_id: Uuid::from_u128(0),
            created_at: DateTime { millis: 0 },
            updated_at: DateTime { millis: 0 },
            version: 0,
            edition: 0,
        }
    }

    /// Updates the record from the map and returns the validation
    /// result: an `id` entry must be a well-formed identifier string, a
    /// `name` entry replaces the name, and the name must end up
    /// non-empty.
    pub fn read_map(&mut self, data: &JsonMap) -> (validation: Validation)
        ensures
            ({
                let id_given = spec_get(data@, "id"@);
                let name_given = spec_get(data@, "name"@);
                let id_ok = id_given matches Some(v) && v matches Value::Str(s)
                    && crate::validator::spec_uuid(s@);
                let id_err = id_given matches Some(v) && !(v matches Value::Str(s)
                    && crate::validator::spec_uuid(s@));
                let name_set = name_given matches Some(v) && v matches Value::Str(_);
                &&& (id_ok ==> (id_given matches Some(v) && v matches Value::Str(s)
                    && final(self).id.spec_value() == crate::uuid::spec_uuid_value(s@)))
                &&& (!id_ok ==> final(self).id == old(self).id)
                &&& (name_set ==> (name_given matches Some(v) && v matches Value::Str(s)
                    && final(self).name@ == s@))
                &&& (!name_set ==> final(self).name@ == old(self).name@)
                &&& {
                    let name_empty = final(self).name@.len() == 0;
                    let expected: int = (if id_err {
                        1int
                    } else {
                        0int
                    }) + (if name_empty {
                        1int
                    } else {
                        0int
                    });
                    &&& validation.spec_entries().len() == expected
                    &&& (id_err ==> validation.spec_entries()[0].0@ == "id"@
                        && validation.spec_entries()[0].1@ == "invalid uuid"@)
                    &&& (name_empty ==> validation.spec_entries()[expected - 1].0@ == "name"@
                        && validation.spec_entries()[expected - 1].1@ == "should be nonempty"@)
                }
            }),
            final(self).namespace == old(self).namespace,
            final(self).visibility == old(self).visibility,
            final(self).status == old(self).status,
            final(self).description == old(self).description,
            final(self).service == old(self).service,
            final(self).server_host == old(self).server_host,
            final(self).client_ip == old(self).client_ip,
            final(self).topic == old(self).topic,
            final(self).level == old(self).level,
            final(self).message == old(self).message,
            final(self).source == old(self).source,
            final(self).recorded_at == old(self).recorded_at,
            final(self).content == old(self).content,
            final(self).metrics == old(self).metrics,
            final(self).extras == old(self).extras,
            final(self).manager_id == old(self).manager_id,
            final(self).maintainer_id == old(self).maintainer_id,
            final(self).created_at == old(self).created_at,
            final(self).updated_at == old(self).updated_at,
            final(self).version == old(self).version,
            final(self).edition == old(self).edition,
    {
        let mut validation = Validation::new();
        if let Some(result) = Validation::parse_uuid(data.get("id")) {
            match result {
                Ok(id) => {
                    self.id = id;
                }
                Err(err) => {
                    let mut key = String::new();
                    key.append("id");
                    validation.record_fail(key, err);
                }
            }
        }
        if let Some(name) = Validation::parse_string(data.get("name")) {
            self.name = name;
        }
        if self.name.as_str().is_empty() {
            let mut key = String::new();
            key.append("name");
            let mut message = String::new();
            message.append("should be nonempty");
            validation.record(key, message);
        }
        validation
    }
}

} // verus!
