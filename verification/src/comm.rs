//! The communication envelope shared by all components: identities,
//! identifiers, versioned snapshots, event envelopes, command receipts and
//! API errors.

use vstd::prelude::*;
use vstd::arithmetic::power2::pow2;

verus! {

#[verifier::external_type_specification]
#[verifier::external_body]
pub struct ExSystemTime(std::time::SystemTime);

/// `SystemTime` is `Copy`: its clone is the same instant.
pub assume_specification[ <std::time::SystemTime as Clone>::clone ](
    t: &std::time::SystemTime,
) -> (res: std::time::SystemTime)
    ensures
        res == *t,
;

/// Hexadecimal digit for a value below 16, in lower case.
pub open spec fn hex_char(v: int) -> char {
    if v < 10 {
        (48 + v) as char
    } else {
        (87 + v) as char
    }
}

/// The `k`-th 4-bit group of a 128-bit value, counted from the most
/// significant end.
pub open spec fn uuid_nibble(bits: u128, k: int) -> int {
    (bits as int / pow2((4 * (31 - k)) as nat) as int) % 16
}

/// Position among the 32 hex digits of the character at `i` of the
/// hyphenated text.
pub open spec fn hyphenated_digit_index(i: int) -> int {
    if i < 8 {
        i
    } else if i < 13 {
        i - 1
    } else if i < 18 {
        i - 2
    } else if i < 23 {
        i - 3
    } else {
        i - 4
    }
}

/// The hyphenated lower-case text of a UUID (`8-4-4-4-12` hex digits).
pub open spec fn uuid_text(bits: u128) -> Seq<char> {
    Seq::new(
        36,
        |i: int|
            if i == 8 || i == 13 || i == 18 || i == 23 {
                '-'
            } else {
                hex_char(uuid_nibble(bits, hyphenated_digit_index(i)))
            },
    )
}

/// A random (version 4, RFC 4122 variant) UUID value: version field 4 and
/// variant bits `10`.
pub open spec fn is_random_uuid(bits: u128) -> bool {
    &&& uuid_nibble(bits, 12) == 4
    &&& (bits as int / pow2(62) as int) % 4 == 2
}

/// `Uuid::new_v4`, as its 128-bit value. The bits are random; only the
/// version and variant fields are fixed.
#[verifier::external_body]
fn random_uuid_bits() -> (bits: u128)
    ensures
        is_random_uuid(bits),
{
    uuid::Uuid::new_v4().as_u128()
}

/// `Uuid::to_string` (its `Display`): the hyphenated lower-case text.
#[verifier::external_body]
pub(crate) fn uuid_string(bits: u128) -> (s: String)
    ensures
        s@ == uuid_text(bits),
{
    uuid::Uuid::from_u128(bits).to_string()
}

#[derive(Debug, Clone, PartialEq, Eq, Hash)]
pub struct ComponentId {
    pub component_type: String,
    pub component_name: String,
}

impl ComponentId {
    pub fn new(component_type: &str, component_name: &str) -> (id: Self)
        ensures
            id.component_type@ == component_type@,
            id.component_name@ == component_name@,
    {
        ComponentId {
            component_type: String::from_str(component_type),
            component_name: String::from_str(component_name),
        }
    }
}

/// The identity of one run of a component: the text of a random UUID.
#[derive(Debug, Clone, PartialEq, Eq, Hash)]
pub struct RuntimeInstanceId(pub String);

impl RuntimeInstanceId {
    pub fn new() -> (id: Self)
        ensures
            exists|bits: u128| is_random_uuid(bits) && id.0@ == uuid_text(bits),
    {
        let bits = random_uuid_bits();
        RuntimeInstanceId(uuid_string(bits))
    }
}

impl Default for RuntimeInstanceId {
    fn default() -> (id: Self)
        ensures
            exists|bits: u128| is_random_uuid(bits) && id.0@ == uuid_text(bits),
    {
        Self::new()
    }
}

#[derive(Debug, Clone, PartialEq, Eq)]
pub struct ComponentIdentity {
    pub component: ComponentId,
    pub instance_id: RuntimeInstanceId,
    pub version: String,
}

impl ComponentIdentity {
    /// A fresh identity: the component's type and name, a new runtime
    /// instance id and the component's version.
    pub fn new(component_type: &str, component_name: &str, version: &str) -> (identity: Self)
        ensures
            identity.component.component_type@ == component_type@,
            identity.component.component_name@ == component_name@,
            identity.version@ == version@,
            exists|bits: u128|
                is_random_uuid(bits) && identity.instance_id.0@ == uuid_text(bits),
    {
        ComponentIdentity {
            component: ComponentId::new(component_type, component_name),
            instance_id: RuntimeInstanceId::new(),
            version: String::from_str(version),
        }
    }
}

/// Identifies one command.
#[derive(Debug, Clone, Copy, PartialEq, Eq, Hash, PartialOrd, Ord)]
pub struct CommandId(pub u128);

/// Ties events to the command that caused them.
#[derive(Debug, Clone, Copy, PartialEq, Eq, Hash, PartialOrd, Ord)]
pub struct CorrelationId(pub u128);

/// Identifies one event.
#[derive(Debug, Clone, Copy, PartialEq, Eq, Hash, PartialOrd, Ord)]
pub struct EventId(pub u128);

/// Identifies the operation a command started.
#[derive(Debug, Clone, Copy, PartialEq, Eq, Hash, PartialOrd, Ord)]
pub struct OperationId(pub u128);

impl CommandId {
    /// A new random identifier.
    pub fn new() -> (id: Self)
        ensures
            is_random_uuid(id.0),
    {
        CommandId(random_uuid_bits())
    }
}

impl Default for CommandId {
    fn default() -> (id: Self)
        ensures
            is_random_uuid(id.0),
    {
        Self::new()
    }
}

impl CorrelationId {
    /// A new random identifier.
    pub fn new() -> (id: Self)
        ensures
            is_random_uuid(id.0),
    {
        CorrelationId(random_uuid_bits())
    }
}

impl Default for CorrelationId {
    fn default() -> (id: Self)
        ensures
            is_random_uuid(id.0),
    {
        Self::new()
    }
}

impl EventId {
    /// A new random identifier.
    pub fn new() -> (id: Self)
        ensures
            is_random_uuid(id.0),
    {
        EventId(random_uuid_bits())
    }
}

impl Default for EventId {
    fn default() -> (id: Self)
        ensures
            is_random_uuid(id.0),
    {
        Self::new()
    }
}

impl OperationId {
    /// A new random identifier.
    pub fn new() -> (id: Self)
        ensures
            is_random_uuid(id.0),
    {
        OperationId(random_uuid_bits())
    }
}

impl Default for OperationId {
    fn default() -> (id: Self)
        ensures
            is_random_uuid(id.0),
    {
        Self::new()
    }
}

/// An authoritative snapshot of a component's state, with its source, the
/// time it was taken and a monotonic revision.
#[derive(Debug, Clone)]
pub struct Versioned<T> {
    pub source: ComponentIdentity,
    pub timestamp: std::time::SystemTime,
    pub revision: u64,
    pub value: T,
}

/// An immutable event: its id, source, time, per-runtime sequence number and
/// the command it answers, if any.
#[derive(Debug, Clone)]
pub struct EventEnvelope<T> {
    pub event_id: EventId,
    pub source: ComponentIdentity,
    pub timestamp: std::time::SystemTime,
    pub sequence: u64,
    pub correlation_id: Option<CorrelationId>,
    pub payload: T,
}

/// The acceptance of a command, with the state revision that recorded it.
#[derive(Debug, Clone)]
pub struct CommandReceipt {
    pub command_id: CommandId,
    pub operation_id: Option<OperationId>,
    pub accepted_revision: u64,
}

#[derive(Debug, Clone)]
pub enum ApiError {
    Unavailable(String),
    Rejected(String),
    InvalidRequest(String),
    Failed(String),
    StreamClosed,
}

/// The text an API error is reported with.
pub open spec fn api_error_text(error: ApiError) -> Seq<char> {
    match error {
        ApiError::Unavailable(s) => "component is unavailable: "@ + s@,
        ApiError::Rejected(s) => "command rejected: "@ + s@,
        ApiError::InvalidRequest(s) => "invalid request: "@ + s@,
        ApiError::Failed(s) => "operation failed: "@ + s@,
        ApiError::StreamClosed => "stream closed"@,
    }
}

/// `r` is a `Rejected` error with message `msg`.
pub open spec fn rejected_with<T>(r: Result<T, ApiError>, msg: Seq<char>) -> bool {
    r matches Err(ApiError::Rejected(m)) && m@ == msg
}

/// `r` is an `InvalidRequest` error with message `msg`.
pub open spec fn invalid_request_with<T>(r: Result<T, ApiError>, msg: Seq<char>) -> bool {
    r matches Err(ApiError::InvalidRequest(m)) && m@ == msg
}

/// The message shown to an operator for a failed request.
pub fn error_message(error: ApiError) -> (text: String)
    ensures
        text@ == api_error_text(error),
{
    match error {
        ApiError::Unavailable(s) => String::from_str("component is unavailable: ").concat(
            s.as_str(),
        ),
        ApiError::Rejected(s) => String::from_str("command rejected: ").concat(s.as_str()),
        ApiError::InvalidRequest(s) => String::from_str("invalid request: ").concat(s.as_str()),
        ApiError::Failed(s) => String::from_str("operation failed: ").concat(s.as_str()),
        ApiError::StreamClosed => String::from_str("stream closed"),
    }
}

/// `SystemTime::now`. The clock is not modelled: nothing is claimed of the
/// instant returned.
#[verifier::external_body]
pub fn now() -> std::time::SystemTime {
    std::time::SystemTime::now()
}

/// The time from the Unix epoch to an instant, or `None` for an instant
/// before the epoch, as `SystemTime::duration_since(UNIX_EPOCH)` gives it.
pub uninterp spec fn since_epoch(time: std::time::SystemTime) -> Option<std::time::Duration>;

/// The whole milliseconds of a duration, as `Duration::as_millis` gives them.
pub uninterp spec fn duration_millis(duration: std::time::Duration) -> u128;

/// `SystemTime::duration_since(UNIX_EPOCH)`, with its error read as `None`:
/// a function of the instant alone, named `since_epoch`.
#[verifier::external_body]
fn duration_since_epoch(time: std::time::SystemTime) -> (r: Option<std::time::Duration>)
    ensures
        r == since_epoch(time),
{
    time.duration_since(std::time::UNIX_EPOCH).ok()
}

/// `Duration::as_millis`: a function of the duration alone, named
/// `duration_millis`.
#[verifier::external_body]
fn whole_millis(duration: std::time::Duration) -> (r: u128)
    ensures
        r == duration_millis(duration),
{
    duration.as_millis()
}

/// The milliseconds from the Unix epoch to an instant, cut to 64 bits, and 0
/// for an instant before the epoch.
pub open spec fn millis_of_instant(time: std::time::SystemTime) -> u64 {
    match since_epoch(time) {
        Some(d) => duration_millis(d) as u64,
        None => 0u64,
    }
}

/// A timestamp read from the clock: the milliseconds of some instant (the one
/// the clock gave), not a number derived from them.
pub open spec fn is_clock_stamp(ms: u64) -> bool {
    exists|t: std::time::SystemTime| #[trigger] millis_of_instant(t) == ms
}

/// Frames are stamped with the clock: the milliseconds of an instant are a
/// clock stamp, an instant before the epoch reads 0, and a later one reads its
/// whole milliseconds since the epoch (cut to 64 bits).
pub proof fn lemma_clock_stamps(t: std::time::SystemTime)
    ensures
        is_clock_stamp(millis_of_instant(t)),
        since_epoch(t) is None ==> millis_of_instant(t) == 0,
        since_epoch(t) matches Some(d) ==> millis_of_instant(t) == duration_millis(d) as u64,
{
}

/// Milliseconds from the Unix epoch to `time`, cut to 64 bits (0 for an
/// instant before the epoch), as frame timestamps are stored.
pub fn unix_millis(time: std::time::SystemTime) -> (ms: u64)
    ensures
        ms == (match since_epoch(time) {
            Some(d) => duration_millis(d) as u64,
            None => 0u64,
        }),
        ms == millis_of_instant(time),
        is_clock_stamp(ms),
{
    let ms = match duration_since_epoch(time) {
        Some(elapsed) => whole_millis(elapsed) as u64,
        None => 0,
    };
    assert(millis_of_instant(time) == ms);
    ms
}

/// A snapshot of `value` from `source` at `revision`, stamped with the
/// current time.
pub fn versioned<T>(source: ComponentIdentity, revision: u64, value: T) -> (v: Versioned<T>)
    ensures
        v.source == source,
        v.revision == revision,
        v.value == value,
{
    Versioned { source, timestamp: now(), revision, value }
}

/// An event from `source` with the given sequence number, correlation and
/// payload, stamped with a new random event id and the current time.
pub fn event<T>(
    source: ComponentIdentity,
    sequence: u64,
    correlation_id: Option<CorrelationId>,
    payload: T,
) -> (e: EventEnvelope<T>)
    ensures
        e.source == source,
        e.sequence == sequence,
        e.correlation_id == correlation_id,
        e.payload == payload,
        is_random_uuid(e.event_id.0),
{
    EventEnvelope {
        event_id: EventId::new(),
        source,
        timestamp: now(),
        sequence,
        correlation_id,
        payload,
    }
}

} // verus!
