//! Routes: which requests share one, and where a request is sent.
use vstd::prelude::*;

use crate::health::BackendRole;
use crate::text::{opt_text, same_opt, same_text};

verus! {

/// What kind of work a route's requests do.
#[derive(Clone, Copy, Debug, PartialEq, Eq, Structural)]
pub enum QueryClass {
    Default,
    Read,
    Write,
    Maintenance,
}

impl QueryClass {
    /// The name under which the value is written.
    pub open spec fn name(self) -> Seq<char> {
        match self {
            QueryClass::Default => "default"@,
            QueryClass::Read => "read"@,
            QueryClass::Write => "write"@,
            QueryClass::Maintenance => "maintenance"@,
        }
    }

    /// The name under which the value is written.
    pub fn as_str(self) -> (r: &'static str)
        ensures
            r@ == self.name(),
    {
        match self {
            QueryClass::Default => "default",
            QueryClass::Read => "read",
            QueryClass::Write => "write",
            QueryClass::Maintenance => "maintenance",
        }
    }

    /// What each value is written as.
    pub proof fn law_written_as(self)
        ensures
            self is Default ==> self.name() == "default"@,
            self is Read ==> self.name() == "read"@,
            self is Write ==> self.name() == "write"@,
            self is Maintenance ==> self.name() == "maintenance"@,
    {
    }

    /// No two values have the same name.
    pub proof fn law_names_differ(a: QueryClass, b: QueryClass)
        requires
            a.name() == b.name(),
        ensures
            a == b,
    {
        reveal_strlit("default");
        reveal_strlit("read");
        reveal_strlit("write");
        reveal_strlit("maintenance");
        assert("default"@.len() == 7);
        assert("read"@.len() == 4);
        assert("write"@.len() == 5);
        assert("maintenance"@.len() == 11);
    }
}

/// Why a request was sent where it was.
#[derive(Clone, Copy, Debug, PartialEq, Eq, Structural)]
pub enum RoutingReason {
    Off,
    ReadCandidateQuery,
    ReplicaUnavailable,
    FallbackPrimary,
    FallbackReject,
    FallbackWait,
    PolicyDenied,
}

impl RoutingReason {
    /// The name under which the value is written.
    pub open spec fn name(self) -> Seq<char> {
        match self {
            RoutingReason::Off => "off"@,
            RoutingReason::ReadCandidateQuery => "read_candidate_query"@,
            RoutingReason::ReplicaUnavailable => "replica_unavailable"@,
            RoutingReason::FallbackPrimary => "fallback_primary"@,
            RoutingReason::FallbackReject => "fallback_reject"@,
            RoutingReason::FallbackWait => "fallback_wait"@,
            RoutingReason::PolicyDenied => "policy_denied"@,
        }
    }

    /// The name under which the value is written.
    pub fn as_str(self) -> (r: &'static str)
        ensures
            r@ == self.name(),
    {
        match self {
            RoutingReason::Off => "off",
            RoutingReason::ReadCandidateQuery => "read_candidate_query",
            RoutingReason::ReplicaUnavailable => "replica_unavailable",
            RoutingReason::FallbackPrimary => "fallback_primary",
            RoutingReason::FallbackReject => "fallback_reject",
            RoutingReason::FallbackWait => "fallback_wait",
            RoutingReason::PolicyDenied => "policy_denied",
        }
    }

    /// What each value is written as.
    pub proof fn law_written_as(self)
        ensures
            self is Off ==> self.name() == "off"@,
            self is ReadCandidateQuery ==> self.name() == "read_candidate_query"@,
            self is ReplicaUnavailable ==> self.name() == "replica_unavailable"@,
            self is FallbackPrimary ==> self.name() == "fallback_primary"@,
            self is FallbackReject ==> self.name() == "fallback_reject"@,
            self is FallbackWait ==> self.name() == "fallback_wait"@,
            self is PolicyDenied ==> self.name() == "policy_denied"@,
    {
    }

    /// No two values have the same name.
    pub proof fn law_names_differ(a: RoutingReason, b: RoutingReason)
        requires
            a.name() == b.name(),
        ensures
            a == b,
    {
        reveal_strlit("off");
        reveal_strlit("read_candidate_query");
        reveal_strlit("replica_unavailable");
        reveal_strlit("fallback_primary");
        reveal_strlit("fallback_reject");
        reveal_strlit("fallback_wait");
        reveal_strlit("policy_denied");
        assert("off"@.len() == 3 && "off"@[0] == 'o');
        assert("read_candidate_query"@.len() == 20 && "read_candidate_query"@[0] == 'r');
        assert("replica_unavailable"@.len() == 19 && "replica_unavailable"@[0] == 'r');
        assert("fallback_primary"@.len() == 16 && "fallback_primary"@[0] == 'f');
        assert("fallback_reject"@.len() == 15 && "fallback_reject"@[0] == 'f');
        assert("fallback_wait"@.len() == 13 && "fallback_wait"@[0] == 'f');
        assert("policy_denied"@.len() == 13 && "policy_denied"@[0] == 'p');
    }
}

/// Why a session keeps its server.
#[derive(Clone, Copy, Debug, PartialEq, Eq, Structural)]
pub enum PinReason {
    OpenTransaction,
    FailedTransaction,
    Copy,
    ListenNotify,
    TempTable,
    SessionState,
    AdvisoryLock,
    UnknownProtocolState,
}

impl PinReason {
    /// The name under which the value is written.
    pub open spec fn name(self) -> Seq<char> {
        match self {
            PinReason::OpenTransaction => "open_transaction"@,
            PinReason::FailedTransaction => "failed_transaction"@,
            PinReason::Copy => "copy"@,
            PinReason::ListenNotify => "listen_notify"@,
            PinReason::TempTable => "temp_table"@,
            PinReason::SessionState => "session_state"@,
            PinReason::AdvisoryLock => "advisory_lock"@,
            PinReason::UnknownProtocolState => "unknown_protocol_state"@,
        }
    }

    /// The name under which the value is written.
    pub fn as_str(self) -> (r: &'static str)
        ensures
            r@ == self.name(),
    {
        match self {
            PinReason::OpenTransaction => "open_transaction",
            PinReason::FailedTransaction => "failed_transaction",
            PinReason::Copy => "copy",
            PinReason::ListenNotify => "listen_notify",
            PinReason::TempTable => "temp_table",
            PinReason::SessionState => "session_state",
            PinReason::AdvisoryLock => "advisory_lock",
            PinReason::UnknownProtocolState => "unknown_protocol_state",
        }
    }

    /// What each value is written as.
    pub proof fn law_written_as(self)
        ensures
            self is OpenTransaction ==> self.name() == "open_transaction"@,
            self is FailedTransaction ==> self.name() == "failed_transaction"@,
            self is Copy ==> self.name() == "copy"@,
            self is ListenNotify ==> self.name() == "listen_notify"@,
            self is TempTable ==> self.name() == "temp_table"@,
            self is SessionState ==> self.name() == "session_state"@,
            self is AdvisoryLock ==> self.name() == "advisory_lock"@,
            self is UnknownProtocolState ==> self.name() == "unknown_protocol_state"@,
    {
    }

    /// No two values have the same name.
    pub proof fn law_names_differ(a: PinReason, b: PinReason)
        requires
            a.name() == b.name(),
        ensures
            a == b,
    {
        reveal_strlit("open_transaction");
        reveal_strlit("failed_transaction");
        reveal_strlit("copy");
        reveal_strlit("listen_notify");
        reveal_strlit("temp_table");
        reveal_strlit("session_state");
        reveal_strlit("advisory_lock");
        reveal_strlit("unknown_protocol_state");
        assert("open_transaction"@.len() == 16 && "open_transaction"@[0] == 'o');
        assert("failed_transaction"@.len() == 18 && "failed_transaction"@[0] == 'f');
        assert("copy"@.len() == 4 && "copy"@[0] == 'c');
        assert("listen_notify"@.len() == 13 && "listen_notify"@[0] == 'l');
        assert("temp_table"@.len() == 10 && "temp_table"@[0] == 't');
        assert("session_state"@.len() == 13 && "session_state"@[0] == 's');
        assert("advisory_lock"@.len() == 13 && "advisory_lock"@[0] == 'a');
        assert("unknown_protocol_state"@.len() == 22 && "unknown_protocol_state"@[0] == 'u');
    }
}

/// What a statement does to its session.
#[derive(Clone, Copy, Debug, PartialEq, Eq, Structural)]
pub enum SqlCommand {
    Begin,
    Commit,
    Rollback,
    SetTransaction,
    SetParameter,
    Reset,
    DiscardAll,
    DiscardTemp,
    DiscardPlans,
    CreateTemp,
    AdvisoryLock,
    AdvisoryUnlock,
    Copy,
    Listen,
    Unlisten,
    Query,
}

impl SqlCommand {
    /// The name under which the value is written.
    pub open spec fn name(self) -> Seq<char> {
        match self {
            SqlCommand::Begin => "begin"@,
            SqlCommand::Commit => "commit"@,
            SqlCommand::Rollback => "rollback"@,
            SqlCommand::SetTransaction => "set_transaction"@,
            SqlCommand::SetParameter => "set"@,
            SqlCommand::Reset => "reset"@,
            SqlCommand::DiscardAll => "discard_all"@,
            SqlCommand::DiscardTemp => "discard_temp"@,
            SqlCommand::DiscardPlans => "discard_plans"@,
            SqlCommand::CreateTemp => "create_temp"@,
            SqlCommand::AdvisoryLock => "advisory_lock"@,
            SqlCommand::AdvisoryUnlock => "advisory_unlock"@,
            SqlCommand::Copy => "copy"@,
            SqlCommand::Listen => "listen"@,
            SqlCommand::Unlisten => "unlisten"@,
            SqlCommand::Query => "query"@,
        }
    }

    /// The name under which the value is written.
    pub fn as_str(self) -> (r: &'static str)
        ensures
            r@ == self.name(),
    {
        match self {
            SqlCommand::Begin => "begin",
            SqlCommand::Commit => "commit",
            SqlCommand::Rollback => "rollback",
            SqlCommand::SetTransaction => "set_transaction",
            SqlCommand::SetParameter => "set",
            SqlCommand::Reset => "reset",
            SqlCommand::DiscardAll => "discard_all",
            SqlCommand::DiscardTemp => "discard_temp",
            SqlCommand::DiscardPlans => "discard_plans",
            SqlCommand::CreateTemp => "create_temp",
            SqlCommand::AdvisoryLock => "advisory_lock",
            SqlCommand::AdvisoryUnlock => "advisory_unlock",
            SqlCommand::Copy => "copy",
            SqlCommand::Listen => "listen",
            SqlCommand::Unlisten => "unlisten",
            SqlCommand::Query => "query",
        }
    }

    /// What each value is written as.
    pub proof fn law_written_as(self)
        ensures
            self is Begin ==> self.name() == "begin"@,
            self is Commit ==> self.name() == "commit"@,
            self is Rollback ==> self.name() == "rollback"@,
            self is SetTransaction ==> self.name() == "set_transaction"@,
            self is SetParameter ==> self.name() == "set"@,
            self is Reset ==> self.name() == "reset"@,
            self is DiscardAll ==> self.name() == "discard_all"@,
            self is DiscardTemp ==> self.name() == "discard_temp"@,
            self is DiscardPlans ==> self.name() == "discard_plans"@,
            self is CreateTemp ==> self.name() == "create_temp"@,
            self is AdvisoryLock ==> self.name() == "advisory_lock"@,
            self is AdvisoryUnlock ==> self.name() == "advisory_unlock"@,
            self is Copy ==> self.name() == "copy"@,
            self is Listen ==> self.name() == "listen"@,
            self is Unlisten ==> self.name() == "unlisten"@,
            self is Query ==> self.name() == "query"@,
    {
    }

    /// No two values have the same name.
    pub proof fn law_names_differ(a: SqlCommand, b: SqlCommand)
        requires
            a.name() == b.name(),
        ensures
            a == b,
    {
        reveal_strlit("begin");
        reveal_strlit("commit");
        reveal_strlit("rollback");
        reveal_strlit("set_transaction");
        reveal_strlit("set");
        reveal_strlit("reset");
        reveal_strlit("discard_all");
        reveal_strlit("discard_temp");
        reveal_strlit("discard_plans");
        reveal_strlit("create_temp");
        reveal_strlit("advisory_lock");
        reveal_strlit("advisory_unlock");
        reveal_strlit("copy");
        reveal_strlit("listen");
        reveal_strlit("unlisten");
        reveal_strlit("query");
        assert("begin"@.len() == 5 && "begin"@[0] == 'b');
        assert("commit"@.len() == 6 && "commit"@[0] == 'c');
        assert("rollback"@.len() == 8 && "rollback"@[0] == 'r');
        assert("set_transaction"@.len() == 15 && "set_transaction"@[0] == 's');
        assert("set"@.len() == 3 && "set"@[0] == 's');
        assert("reset"@.len() == 5 && "reset"@[0] == 'r');
        assert("discard_all"@.len() == 11 && "discard_all"@[0] == 'd');
        assert("discard_temp"@.len() == 12 && "discard_temp"@[0] == 'd');
        assert("discard_plans"@.len() == 13 && "discard_plans"@[0] == 'd');
        assert("create_temp"@.len() == 11 && "create_temp"@[0] == 'c');
        assert("advisory_lock"@.len() == 13 && "advisory_lock"@[0] == 'a');
        assert("advisory_unlock"@.len() == 15 && "advisory_unlock"@[0] == 'a');
        assert("copy"@.len() == 4 && "copy"@[0] == 'c');
        assert("listen"@.len() == 6 && "listen"@[0] == 'l');
        assert("unlisten"@.len() == 8 && "unlisten"@[0] == 'u');
        assert("query"@.len() == 5 && "query"@[0] == 'q');
    }
}


/// Where a request is sent.
#[derive(Clone, Copy, Debug, PartialEq, Eq, Structural)]
pub enum RoutingTarget {
    Primary { reason: RoutingReason },
    Replica { endpoint_id: u64, reason: RoutingReason },
    Wait { reason: RoutingReason },
    Reject { reason: RoutingReason },
}

impl RoutingTarget {
    /// Why the request is sent there.
    pub open spec fn because(self) -> RoutingReason {
        match self {
            RoutingTarget::Primary { reason } => reason,
            RoutingTarget::Replica { endpoint_id, reason } => reason,
            RoutingTarget::Wait { reason } => reason,
            RoutingTarget::Reject { reason } => reason,
        }
    }

    /// Why the request is sent there.
    pub fn reason(self) -> (r: RoutingReason)
        ensures
            r == self.because(),
    {
        match self {
            RoutingTarget::Primary { reason } => reason,
            RoutingTarget::Replica { endpoint_id: _, reason } => reason,
            RoutingTarget::Wait { reason } => reason,
            RoutingTarget::Reject { reason } => reason,
        }
    }

    /// What the server is that the request is sent to, where it is sent to one.
    pub open spec fn role(self) -> Option<BackendRole> {
        match self {
            RoutingTarget::Primary { reason } => Some(BackendRole::Primary),
            RoutingTarget::Replica { endpoint_id, reason } => Some(BackendRole::Replica),
            _ => None,
        }
    }

    /// What the server is that the request is sent to, where it is sent to one.
    pub fn target_role(self) -> (r: Option<BackendRole>)
        ensures
            r == self.role(),
    {
        match self {
            RoutingTarget::Primary { reason: _ } => Some(BackendRole::Primary),
            RoutingTarget::Replica { endpoint_id: _, reason: _ } => Some(BackendRole::Replica),
            _ => None,
        }
    }
}

/// Which requests share a route, and the name under which the route is counted.
#[derive(Clone, Debug, PartialEq, Eq)]
pub struct RouteKey {
    pub database: String,
    pub user: String,
    pub application_name: Option<String>,
    pub query_class: QueryClass,
    pub label: String,
}

/// A route's parts.
pub struct RouteFacts {
    pub database: Seq<char>,
    pub user: Seq<char>,
    pub application_name: Option<Seq<char>>,
    pub query_class: QueryClass,
    pub label: Seq<char>,
}

impl View for RouteKey {
    type V = RouteFacts;

    open spec fn view(&self) -> RouteFacts {
        RouteFacts {
            database: self.database@,
            user: self.user@,
            application_name: opt_text(self.application_name),
            query_class: self.query_class,
            label: self.label@,
        }
    }
}

impl RouteKey {
    /// Whether two keys are of the same route.
    pub fn same_as(&self, other: &RouteKey) -> (r: bool)
        ensures
            r == (self@ == other@),
    {
        same_text(self.database.as_str(), other.database.as_str()) && same_text(
            self.user.as_str(),
            other.user.as_str(),
        ) && same_opt(&self.application_name, &other.application_name) && self.query_class
            == other.query_class && same_text(self.label.as_str(), other.label.as_str())
    }

    /// The name under which the route is counted.
    pub fn metric_label(&self) -> (r: &str)
        ensures
            r@ == self@.label,
    {
        self.label.as_str()
    }
}

/// A request goes to a server of the role that its target names, and to none where it waits or is
/// refused.
pub proof fn law_target_names_role(target: RoutingTarget)
    ensures
        target.role() == Some(BackendRole::Primary) <==> target is Primary,
        target.role() == Some(BackendRole::Replica) <==> target is Replica,
        target.role() is None <==> target is Wait || target is Reject,
        target is Primary ==> target.because() == target->Primary_reason,
        target is Replica ==> target.because() == target->Replica_reason,
        target is Wait ==> target.because() == target->Wait_reason,
        target is Reject ==> target.because() == target->Reject_reason,
{
}

} // verus!
