//! Telemetry records: what an agent reports about one observed event.

use vstd::prelude::*;

verus! {

/// Severity that a new event carries until it is classified.
pub const INITIAL_EVENT_SEVERITY: i32 = 1;

/// The kind of an observed event.
#[derive(Debug, Clone, Copy, PartialEq, Eq, Structural)]
pub enum EventType {
    Unspecified,
    ProcessStart,
    ProcessTerminate,
    FileAccess,
    FileModify,
    FileDelete,
    NetworkConn,
    RegistryModify,
    DlpViolation,
    Authentication,
}

impl EventType {
    /// The number that stands for the kind on the wire.
    pub open spec fn wire_code(self) -> int {
        match self {
            EventType::Unspecified => 0,
            EventType::ProcessStart => 1,
            EventType::ProcessTerminate => 2,
            EventType::FileAccess => 3,
            EventType::FileModify => 4,
            EventType::FileDelete => 5,
            EventType::NetworkConn => 6,
            EventType::RegistryModify => 7,
            EventType::DlpViolation => 8,
            EventType::Authentication => 9,
        }
    }

    /// The number that stands for the kind on the wire.
    pub fn code(self) -> (n: i32)
        ensures
            n == self.wire_code(),
    {
        match self {
            EventType::Unspecified => 0,
            EventType::ProcessStart => 1,
            EventType::ProcessTerminate => 2,
            EventType::FileAccess => 3,
            EventType::FileModify => 4,
            EventType::FileDelete => 5,
            EventType::NetworkConn => 6,
            EventType::RegistryModify => 7,
            EventType::DlpViolation => 8,
            EventType::Authentication => 9,
        }
    }

    /// The kind that `n` stands for, if it stands for one.
    pub fn from_code(n: i32) -> (kind: Option<EventType>)
        ensures
            kind is Some <==> 0 <= n <= 9,
            kind matches Some(k) ==> k.wire_code() == n,
    {
        if n == 0 {
            Some(EventType::Unspecified)
        } else if n == 1 {
            Some(EventType::ProcessStart)
        } else if n == 2 {
            Some(EventType::ProcessTerminate)
        } else if n == 3 {
            Some(EventType::FileAccess)
        } else if n == 4 {
            Some(EventType::FileModify)
        } else if n == 5 {
            Some(EventType::FileDelete)
        } else if n == 6 {
            Some(EventType::NetworkConn)
        } else if n == 7 {
            Some(EventType::RegistryModify)
        } else if n == 8 {
            Some(EventType::DlpViolation)
        } else if n == 9 {
            Some(EventType::Authentication)
        } else {
            None
        }
    }
}

/// Kinds with the same wire code are the same kind, so decoding a code
/// gives back the kind that was encoded.
pub proof fn lemma_wire_code_injective(a: EventType, b: EventType)
    requires
        a.wire_code() == b.wire_code(),
    ensures
        a == b,
{
}

/// One observed event, as it is handed to the transport.
#[derive(Debug, Clone)]
pub struct Event {
    /// Identifier of the reporting agent.
    pub agent_id: String,
    /// Milliseconds since the Unix epoch at which the event was recorded.
    pub timestamp: i64,
    /// Kind of the event.
    pub event_type: EventType,
    /// Tactic that the event is classified under.
    pub mitre_tactic: String,
    /// Technique that the event is classified under; empty until known.
    pub mitre_technique: String,
    /// Importance of the event.
    pub severity: i32,
    /// Details of the event, encoded as JSON.
    pub payload: String,
    /// Tenant of the reporting agent; empty until known.
    pub tenant_id: String,
    /// Name of the reporting host.
    pub hostname: String,
    /// Operating system of the reporting host.
    pub os_type: String,
}

impl Event {
    /// A new event of the given kind, recorded at `timestamp` on the host
    /// `hostname` running `os_type`. The technique and the tenant are left
    /// empty and the severity is `INITIAL_EVENT_SEVERITY`.
    pub fn new(
        agent_id: String,
        event_type: EventType,
        mitre_tactic: String,
        payload: String,
        timestamp: i64,
        hostname: String,
        os_type: String,
    ) -> (event: Event)
        ensures
            event.agent_id@ == agent_id@,
            event.timestamp == timestamp,
            event.event_type == event_type,
            event.mitre_tactic@ == mitre_tactic@,
            event.mitre_technique@ == Seq::<char>::empty(),
            event.severity == INITIAL_EVENT_SEVERITY,
            event.payload@ == payload@,
            event.tenant_id@ == Seq::<char>::empty(),
            event.hostname@ == hostname@,
            event.os_type@ == os_type@,
    {
        Event {
            agent_id,
            timestamp,
            event_type,
            mitre_tactic,
            mitre_technique: String::new(),
            severity: INITIAL_EVENT_SEVERITY,
            payload,
            tenant_id: String::new(),
            hostname,
            os_type,
        }
    }
}

} // verus!
