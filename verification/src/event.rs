//! The event that wraps one line, and its JSON payload.

use crate::error::AgentError;
use crate::json::{json_string, json_string_text};
use vstd::prelude::*;
use vstd::string::StringExecFns;

verus! {

/// The level that every event carries.
pub const LEVEL_INFO: &'static str = "INFO";

/// The characters of an optional string.
pub open spec fn text_view(text: Option<String>) -> Option<Seq<char>> {
    match text {
        Some(t) => Some(t@),
        None => None,
    }
}

/// The characters of an optional string slice.
pub open spec fn slice_view(text: Option<&str>) -> Option<Seq<char>> {
    match text {
        Some(t) => Some(t@),
        None => None,
    }
}

/// What is known of the place where the agent runs. It is found once, when
/// the agent starts, and stands in every event.
pub struct Enrichment {
    host: Option<String>,
    service: Option<String>,
}

/// What an [`Enrichment`] stands for.
pub struct EnrichmentView {
    pub host: Option<Seq<char>>,
    pub service: Option<Seq<char>>,
}

impl View for Enrichment {
    type V = EnrichmentView;

    closed spec fn view(&self) -> EnrichmentView {
        EnrichmentView { host: text_view(self.host), service: text_view(self.service) }
    }
}

impl Enrichment {
    /// The host's name and the service's name, each of which may be missing.
    pub fn new(host: Option<String>, service: Option<String>) -> (enrichment: Enrichment)
        ensures
            enrichment@ == (EnrichmentView { host: text_view(host), service: text_view(service) }),
    {
        Enrichment { host, service }
    }

    /// The host's name.
    pub fn host(&self) -> (host: Option<&str>)
        ensures
            slice_view(host) == self@.host,
    {
        match &self.host {
            Some(h) => Some(h.as_str()),
            None => None,
        }
    }

    /// The service's name.
    pub fn service(&self) -> (service: Option<&str>)
        ensures
            slice_view(service) == self@.service,
    {
        match &self.service {
            Some(s) => Some(s.as_str()),
            None => None,
        }
    }
}

/// One observed line, wrapped for the sink. It does not change once made.
pub struct Event {
    timestamp: String,
    level: String,
    message: String,
    host: Option<String>,
    service: Option<String>,
}

/// What an [`Event`] stands for.
pub struct EventView {
    pub timestamp: Seq<char>,
    pub level: Seq<char>,
    pub message: Seq<char>,
    pub host: Option<Seq<char>>,
    pub service: Option<Seq<char>>,
}

impl View for Event {
    type V = EventView;

    closed spec fn view(&self) -> EventView {
        EventView {
            timestamp: self.timestamp@,
            level: self.level@,
            message: self.message@,
            host: text_view(self.host),
            service: text_view(self.service),
        }
    }
}

/// A copy of an optional string.
fn copy_of(text: Option<&str>) -> (copy: Option<String>)
    ensures
        text_view(copy) == slice_view(text),
{
    match text {
        Some(t) => Some(t.to_owned()),
        None => None,
    }
}

/// The event that `timestamp`, `message` and `place` make: its level is
/// `INFO`, its message is `message` as it stands.
pub open spec fn event_of(
    timestamp: Seq<char>,
    message: Seq<char>,
    place: EnrichmentView,
) -> EventView {
    EventView {
        timestamp,
        level: LEVEL_INFO@,
        message,
        host: place.host,
        service: place.service,
    }
}

impl Event {
    #[verifier::type_invariant]
    closed spec fn level_is_info(&self) -> bool {
        self.level@ == LEVEL_INFO@
    }

    /// The event for the line `message`, read at the time that `timestamp` writes.
    pub fn new(timestamp: String, message: String, place: &Enrichment) -> (event: Event)
        ensures
            event@ == event_of(timestamp@, message@, place@),
    {
        Event {
            timestamp,
            level: LEVEL_INFO.to_owned(),
            message,
            host: copy_of(place.host()),
            service: copy_of(place.service()),
        }
    }

    /// When the event was made, as RFC 3339 text.
    pub fn timestamp(&self) -> (timestamp: &str)
        ensures
            timestamp@ == self@.timestamp,
    {
        self.timestamp.as_str()
    }

    /// The level: always `INFO`. It is also the key under which a broker
    /// files the event.
    pub fn level(&self) -> (level: &str)
        ensures
            level@ == self@.level,
            level@ == LEVEL_INFO@,
    {
        proof {
            use_type_invariant(self);
        }
        self.level.as_str()
    }

    /// The line, as it was read.
    pub fn message(&self) -> (message: &str)
        ensures
            message@ == self@.message,
    {
        self.message.as_str()
    }

    /// The host's name, where one was given.
    pub fn host(&self) -> (host: Option<&str>)
        ensures
            slice_view(host) == self@.host,
    {
        match &self.host {
            Some(h) => Some(h.as_str()),
            None => None,
        }
    }

    /// The service's name, where one was given.
    pub fn service(&self) -> (service: Option<&str>)
        ensures
            slice_view(service) == self@.service,
    {
        match &self.service {
            Some(s) => Some(s.as_str()),
            None => None,
        }
    }

    /// The event as one JSON object: see [`payload_text`].
    ///
    /// `serde_json` writes each string; where it refuses one, the event has
    /// no payload and the error is [`AgentError::Serialization`].
    pub fn to_json(&self) -> (payload: Result<String, AgentError>)
        ensures
            self@.level == LEVEL_INFO@,
            match payload {
                Ok(p) => payload_text(self@) == Some(p@),
                Err(e) => e == AgentError::Serialization && payload_text(self@) is None,
            },
    {
        proof {
            use_type_invariant(self);
        }
        let timestamp = match json_string(self.timestamp.as_str()) {
            Ok(t) => t,
            Err(_) => { return Err(AgentError::Serialization); },
        };
        let level = match json_string(self.level.as_str()) {
            Ok(l) => l,
            Err(_) => { return Err(AgentError::Serialization); },
        };
        let message = match json_string(self.message.as_str()) {
            Ok(m) => m,
            Err(_) => { return Err(AgentError::Serialization); },
        };
        let host = match optional_json_string(self.host()) {
            Ok(h) => h,
            Err(e) => { return Err(e); },
        };
        let service = match optional_json_string(self.service()) {
            Ok(s) => s,
            Err(e) => { return Err(e); },
        };
        let host_member = match &host {
            Some(h) => Some(h.as_str()),
            None => None,
        };
        let service_member = match &service {
            Some(s) => Some(s.as_str()),
            None => None,
        };
        Ok(
            frame_payload(
                timestamp.as_str(),
                level.as_str(),
                message.as_str(),
                host_member,
                service_member,
            ),
        )
    }
}

/// The JSON literal of a string that may be missing: `Some(None)` where it is
/// missing, `None` where `serde_json` refuses it.
pub open spec fn optional_json_text(text: Option<Seq<char>>) -> Option<Option<Seq<char>>> {
    match text {
        None => Some(None),
        Some(t) => match json_string_text(t) {
            Some(literal) => Some(Some(literal)),
            None => None,
        },
    }
}

fn optional_json_string(text: Option<&str>) -> (encoded: Result<Option<String>, AgentError>)
    ensures
        match encoded {
            Ok(literal) => optional_json_text(slice_view(text)) == Some(text_view(literal)),
            Err(e) => e == AgentError::Serialization && optional_json_text(slice_view(text))
                is None,
        },
{
    match text {
        None => Ok(None),
        Some(t) => match json_string(t) {
            Ok(literal) => Ok(Some(literal)),
            Err(_) => Err(AgentError::Serialization),
        },
    }
}

/// A member that may be missing: its name and value where there is a value,
/// nothing where there is none.
pub open spec fn optional_member(name: Seq<char>, value: Option<Seq<char>>) -> Seq<char> {
    match value {
        Some(v) => name + v,
        None => Seq::empty(),
    }
}

/// A JSON object made of members that are already JSON values: `timestamp`,
/// `level` and `message` always, in this order, then `host` and `service`
/// where there is one. Nothing stands between the tokens.
pub open spec fn payload_frame(
    timestamp: Seq<char>,
    level: Seq<char>,
    message: Seq<char>,
    host: Option<Seq<char>>,
    service: Option<Seq<char>>,
) -> Seq<char> {
    "{\"timestamp\":"@ + timestamp
        + ",\"level\":"@ + level
        + ",\"message\":"@ + message
        + optional_member(",\"host\":"@, host)
        + optional_member(",\"service\":"@, service)
        + "}"@
}

/// The payload of an event: [`payload_frame`] around the JSON literal of each
/// field, or `None` where `serde_json` refuses a field.
pub open spec fn payload_text(event: EventView) -> Option<Seq<char>> {
    match (
        json_string_text(event.timestamp),
        json_string_text(event.level),
        json_string_text(event.message),
        optional_json_text(event.host),
        optional_json_text(event.service),
    ) {
        (Some(timestamp), Some(level), Some(message), Some(host), Some(service)) => Some(
            payload_frame(timestamp, level, message, host, service),
        ),
        _ => None,
    }
}

/// What a payload holds: the members `timestamp`, `level` and `message`, then
/// `host` and `service` where the place names them, and no other; each value
/// is the JSON literal of the event's field, and the level's is that of `INFO`.
pub proof fn lemma_payload_has_the_events_fields(
    timestamp: Seq<char>,
    message: Seq<char>,
    place: EnrichmentView,
)
    ensures
        payload_text(event_of(timestamp, message, place)) matches Some(payload) ==> {
            &&& json_string_text(timestamp) matches Some(timestamp_literal)
            &&& json_string_text(LEVEL_INFO@) matches Some(level_literal)
            &&& json_string_text(message) matches Some(message_literal)
            &&& optional_json_text(place.host) matches Some(host_literal)
            &&& optional_json_text(place.service) matches Some(service_literal)
            &&& host_literal is Some <==> place.host is Some
            &&& service_literal is Some <==> place.service is Some
            &&& payload == payload_frame(
                timestamp_literal,
                level_literal,
                message_literal,
                host_literal,
                service_literal,
            )
        },
{
}

/// Writes the JSON object whose members are the given JSON values.
pub fn frame_payload(
    timestamp: &str,
    level: &str,
    message: &str,
    host: Option<&str>,
    service: Option<&str>,
) -> (payload: String)
    ensures
        payload@ == payload_frame(
            timestamp@,
            level@,
            message@,
            slice_view(host),
            slice_view(service),
        ),
{
    let mut payload = String::new();
    payload.append("{\"timestamp\":");
    payload.append(timestamp);
    payload.append(",\"level\":");
    payload.append(level);
    payload.append(",\"message\":");
    payload.append(message);
    if let Some(h) = host {
        payload.append(",\"host\":");
        payload.append(h);
    }
    if let Some(s) = service {
        payload.append(",\"service\":");
        payload.append(s);
    }
    payload.append("}");
    payload
}

} // verus!
