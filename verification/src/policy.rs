//! Policies: what they are evaluated on, what they may ask for, and how they are replaced.
use vstd::prelude::*;

use crate::clock::Duration;
use crate::config::{
    action_complaint, override_complaint, overrides_complaint, rules_complaint,
    InlinePolicyActionConfig, InlinePolicyConfig, PolicyConfig,
};
use crate::double::{one_bits, Double};
use crate::health::BackendRole;
use crate::modes::{FallbackPolicy, FreshnessPolicy, PolicyHookPoint, PolicyMode};
use crate::text::{
    byte_len, byte_length, contains, cut_to_bytes, fitting_prefix, holds_at, holds_part, join2,
    join3, join_all, joined, lemma_fitting_prefix_fits, lemma_texts_push, lemma_utf8_concat, opt_or,
    opt_text, text_or, texts, utf8_bytes,
};

verus! {

/// What stands in the place of a value that is not to be shown.
pub const REDACTED_VALUE: &'static str = "<redacted>";


/// Whether a transaction may write.
#[derive(Clone, Copy, Debug, PartialEq, Eq, Structural)]
pub enum TransactionAccessMode {
    ReadOnly,
    ReadWrite,
}

impl TransactionAccessMode {
    /// The name under which the value is written.
    pub open spec fn name(self) -> Seq<char> {
        match self {
            TransactionAccessMode::ReadOnly => "read_only"@,
            TransactionAccessMode::ReadWrite => "read_write"@,
        }
    }

    /// The name under which the value is written.
    pub fn as_str(self) -> (r: &'static str)
        ensures
            r@ == self.name(),
    {
        match self {
            TransactionAccessMode::ReadOnly => "read_only",
            TransactionAccessMode::ReadWrite => "read_write",
        }
    }

    /// What each value is written as.
    pub proof fn law_written_as(self)
        ensures
            self is ReadOnly ==> self.name() == "read_only"@,
            self is ReadWrite ==> self.name() == "read_write"@,
    {
    }

    /// No two values have the same name.
    pub proof fn law_names_differ(a: TransactionAccessMode, b: TransactionAccessMode)
        requires
            a.name() == b.name(),
        ensures
            a == b,
    {
        reveal_strlit("read_only");
        reveal_strlit("read_write");
        assert("read_only"@.len() == 9);
        assert("read_write"@.len() == 10);
    }
}

/// Whether a replica has caught up with what a session wrote.
#[derive(Clone, Copy, Debug, PartialEq, Eq, Structural)]
pub enum FreshnessStatus {
    Satisfied,
    Waiting,
    Stale,
    Unknown,
    Unavailable,
}

impl FreshnessStatus {
    /// The name under which the value is written.
    pub open spec fn name(self) -> Seq<char> {
        match self {
            FreshnessStatus::Satisfied => "satisfied"@,
            FreshnessStatus::Waiting => "waiting"@,
            FreshnessStatus::Stale => "stale"@,
            FreshnessStatus::Unknown => "unknown"@,
            FreshnessStatus::Unavailable => "unavailable"@,
        }
    }

    /// The name under which the value is written.
    pub fn as_str(self) -> (r: &'static str)
        ensures
            r@ == self.name(),
    {
        match self {
            FreshnessStatus::Satisfied => "satisfied",
            FreshnessStatus::Waiting => "waiting",
            FreshnessStatus::Stale => "stale",
            FreshnessStatus::Unknown => "unknown",
            FreshnessStatus::Unavailable => "unavailable",
        }
    }

    /// What each value is written as.
    pub proof fn law_written_as(self)
        ensures
            self is Satisfied ==> self.name() == "satisfied"@,
            self is Waiting ==> self.name() == "waiting"@,
            self is Stale ==> self.name() == "stale"@,
            self is Unknown ==> self.name() == "unknown"@,
            self is Unavailable ==> self.name() == "unavailable"@,
    {
    }

    /// No two values have the same name.
    pub proof fn law_names_differ(a: FreshnessStatus, b: FreshnessStatus)
        requires
            a.name() == b.name(),
        ensures
            a == b,
    {
        reveal_strlit("satisfied");
        reveal_strlit("waiting");
        reveal_strlit("stale");
        reveal_strlit("unknown");
        reveal_strlit("unavailable");
        assert("satisfied"@.len() == 9 && "satisfied"@[0] == 's');
        assert("waiting"@.len() == 7 && "waiting"@[0] == 'w');
        assert("stale"@.len() == 5 && "stale"@[0] == 's');
        assert("unknown"@.len() == 7 && "unknown"@[0] == 'u');
        assert("unavailable"@.len() == 11 && "unavailable"@[0] == 'u');
    }
}

/// Why new policies were refused.
#[derive(Clone, Copy, Debug, PartialEq, Eq, Structural)]
pub enum PolicyReloadErrorCode {
    InvalidPolicyConfiguration,
    RouteReferenceMissing,
    ShardReferenceMissing,
}

impl PolicyReloadErrorCode {
    /// The name under which the value is written.
    pub open spec fn name(self) -> Seq<char> {
        match self {
            PolicyReloadErrorCode::InvalidPolicyConfiguration => "invalid_policy_configuration"@,
            PolicyReloadErrorCode::RouteReferenceMissing => "route_reference_missing"@,
            PolicyReloadErrorCode::ShardReferenceMissing => "shard_reference_missing"@,
        }
    }

    /// The name under which the value is written.
    pub fn as_str(self) -> (r: &'static str)
        ensures
            r@ == self.name(),
    {
        match self {
            PolicyReloadErrorCode::InvalidPolicyConfiguration => "invalid_policy_configuration",
            PolicyReloadErrorCode::RouteReferenceMissing => "route_reference_missing",
            PolicyReloadErrorCode::ShardReferenceMissing => "shard_reference_missing",
        }
    }

    /// What each value is written as.
    pub proof fn law_written_as(self)
        ensures
            self is InvalidPolicyConfiguration ==> self.name() == "invalid_policy_configuration"@,
            self is RouteReferenceMissing ==> self.name() == "route_reference_missing"@,
            self is ShardReferenceMissing ==> self.name() == "shard_reference_missing"@,
    {
    }

    /// No two values have the same name.
    pub proof fn law_names_differ(a: PolicyReloadErrorCode, b: PolicyReloadErrorCode)
        requires
            a.name() == b.name(),
        ensures
            a == b,
    {
        reveal_strlit("invalid_policy_configuration");
        reveal_strlit("route_reference_missing");
        reveal_strlit("shard_reference_missing");
        assert("invalid_policy_configuration"@.len() == 28 && "invalid_policy_configuration"@[0] == 'i');
        assert("route_reference_missing"@.len() == 23 && "route_reference_missing"@[0] == 'r');
        assert("shard_reference_missing"@.len() == 23 && "shard_reference_missing"@[0] == 's');
    }
}


// ---------------------------------------------------------------------------
// Context
// ---------------------------------------------------------------------------

/// One thing that a policy is told, by name.
#[derive(Clone, Debug, PartialEq, Eq)]
pub struct PolicyContextField {
    name: String,
    value: String,
}

/// A field's name and value.
pub struct FieldFacts {
    pub name: Seq<char>,
    pub value: Seq<char>,
}

impl FieldFacts {
    /// The field as it is written.
    pub open spec fn rendered(self) -> Seq<char> {
        self.name + "="@ + self.value
    }

    /// How many bytes the written field takes.
    pub open spec fn rendered_len(self) -> nat {
        byte_len(self.name) + 1 + byte_len(self.value)
    }

    /// The count of a field's bytes is that of its text.
    pub proof fn law_rendered_len(self)
        ensures
            byte_len(self.rendered()) == self.rendered_len(),
    {
        lemma_utf8_concat(self.name + "="@, self.value);
        lemma_utf8_concat(self.name, "="@);
        reveal_strlit("=");
        assert("="@ =~= seq!['=']);
        assert(vstd::utf8::is_ascii_chars(seq!['=']));
        vstd::utf8::is_ascii_chars_encode_utf8(seq!['=']);
    }
}

impl View for PolicyContextField {
    type V = FieldFacts;

    closed spec fn view(&self) -> FieldFacts {
        FieldFacts { name: self.name@, value: self.value@ }
    }
}

impl PolicyContextField {
    /// A field that may be shown.
    pub fn public(name: &str, value: &str) -> (r: PolicyContextField)
        ensures
            r@ == (FieldFacts { name: name@, value: value@ }),
    {
        PolicyContextField { name: name.to_owned(), value: value.to_owned() }
    }

    /// The field's name.
    pub fn name(&self) -> (r: &str)
        ensures
            r@ == self@.name,
    {
        self.name.as_str()
    }

    /// The field's value.
    pub fn rendered_value(&self) -> (r: &str)
        ensures
            r@ == self@.value,
    {
        self.value.as_str()
    }

    /// The field as it is written.
    pub fn render(&self) -> (r: String)
        ensures
            r@ == self@.rendered(),
    {
        join3(self.name.as_str(), "=", self.value.as_str())
    }

    /// How many bytes the written field takes.
    pub fn rendered_len_bytes(&self) -> (r: u128)
        ensures
            r == self@.rendered_len(),
            r <= 0x2_0000_0000_0000_0000,
    {
        byte_length(self.name.as_str()) as u128 + 1 + byte_length(self.value.as_str()) as u128
    }
}

/// The names and values of some fields.
pub open spec fn field_facts(fields: Seq<PolicyContextField>) -> Seq<FieldFacts> {
    fields.map_values(|field: PolicyContextField| field@)
}

/// Fields as they are written.
pub open spec fn rendered_fields(fields: Seq<FieldFacts>) -> Seq<Seq<char>> {
    fields.map_values(|field: FieldFacts| field.rendered())
}

/// How many bytes some fields take when they are written one after the other.
pub open spec fn rendered_len(fields: Seq<FieldFacts>) -> nat
    decreases fields.len(),
{
    if fields.len() == 0 {
        0
    } else if fields.len() == 1 {
        fields[0].rendered_len()
    } else {
        rendered_len(fields.drop_last()) + 2 + fields.last().rendered_len()
    }
}

/// The most fields from the front that are written in so many bytes, but one at least.
pub open spec fn fitting_fields(fields: Seq<FieldFacts>, max: nat) -> Seq<FieldFacts>
    decreases fields.len(),
{
    if fields.len() <= 1 || rendered_len(fields) <= max {
        fields
    } else {
        fitting_fields(fields.drop_last(), max)
    }
}

/// The fields that are kept where only so many bytes may be written. Fields are left out from
/// the end; where not even the first fits, its value is cut; where not even its name fits, no
/// field is kept.
pub open spec fn fitted_fields(fields: Seq<FieldFacts>, max: nat) -> Seq<FieldFacts> {
    if max == 0 || fields.len() == 0 {
        Seq::empty()
    } else if rendered_len(fitting_fields(fields, max)) <= max {
        fitting_fields(fields, max)
    } else if max <= byte_len(fields[0].name) + 1 {
        Seq::empty()
    } else {
        seq![
            FieldFacts {
                name: fields[0].name,
                value: fitting_prefix(
                    fields[0].value,
                    (max - byte_len(fields[0].name) - 1) as nat,
                ),
            },
        ]
    }
}

/// Whether anything had to be left out.
pub open spec fn fields_truncated(fields: Seq<FieldFacts>, max: nat) -> bool {
    fields.len() > 0 && (max == 0 || rendered_len(fields) > max)
}

/// What is kept is never written in more bytes than are allowed.
pub proof fn law_fitted_fields_bounded(fields: Seq<FieldFacts>, max: nat)
    ensures
        rendered_len(fitted_fields(fields, max)) <= max,
{
    if max > 0 && fields.len() > 0 {
        lemma_fitting_fields_front(fields, max);
        let name = byte_len(fields[0].name);
        if rendered_len(fitting_fields(fields, max)) > max && max > name + 1 {
            lemma_fitting_prefix_fits(fields[0].value, (max - name - 1) as nat);
        }
    }
}

/// Fields that take no more bytes than are allowed are all kept as they are.
pub proof fn law_short_fields_kept(fields: Seq<FieldFacts>, max: nat)
    requires
        max > 0,
        rendered_len(fields) <= max,
    ensures
        fitted_fields(fields, max) == fields,
        !fields_truncated(fields, max),
{
    assert(fields.len() == 0 ==> fields =~= Seq::empty());
}

proof fn lemma_fitting_fields_front(fields: Seq<FieldFacts>, max: nat)
    requires
        fields.len() > 0,
    ensures
        fitting_fields(fields, max).len() > 0,
        fitting_fields(fields, max)[0] == fields[0],
        fitting_fields(fields, max).len() == 1 || rendered_len(fitting_fields(fields, max)) <= max,
    decreases fields.len(),
{
    if fields.len() > 1 && rendered_len(fields) > max {
        lemma_fitting_fields_front(fields.drop_last(), max);
    }
}

proof fn lemma_rendered_len_grows(fields: Seq<FieldFacts>, count: int)
    requires
        0 <= count <= fields.len(),
    ensures
        rendered_len(fields.take(count)) <= rendered_len(fields),
    decreases fields.len() - count,
{
    if count == fields.len() {
        assert(fields.take(count) =~= fields);
    } else {
        lemma_rendered_len_grows(fields, count + 1);
        assert(fields.take(count + 1).drop_last() =~= fields.take(count));
        if count > 0 {
            assert(fields.take(count + 1).len() > 1);
        } else {
            assert(fields.take(0).len() == 0);
        }
    }
}

/// Whether some fields are written in so many bytes.
fn fields_fit(fields: &Vec<PolicyContextField>, max_bytes: usize) -> (r: bool)
    ensures
        r == (rendered_len(field_facts(fields@)) <= max_bytes),
{
    let ghost facts = field_facts(fields@);
    let mut total: u128 = 0;
    let mut i: usize = 0;
    assert(facts.take(0) =~= Seq::empty());
    while i < fields.len()
        invariant
            i <= fields@.len(),
            facts == field_facts(fields@),
            total == rendered_len(facts.take(i as int)),
            total <= max_bytes,
        decreases fields@.len() - i,
    {
        let own: u128 = fields[i].rendered_len_bytes();
        proof {
            assert(facts[i as int] == fields@[i as int]@);
            assert(facts.take(i + 1).drop_last() =~= facts.take(i as int));
            assert(facts.take(i + 1).last() == facts[i as int]);
            lemma_rendered_len_grows(facts, i + 1);
        }
        if i > 0 {
            total += 2;
        }
        total += own;
        if total > max_bytes as u128 {
            return false;
        }
        i += 1;
    }
    assert(facts.take(i as int) =~= facts);
    true
}

/// Leaves fields out from the end until what is left is written in so many bytes, and cuts the
/// first one's value where that one alone is too long. Says too whether anything was left out.
pub fn fit_context_fields(fields: Vec<PolicyContextField>, max_bytes: usize) -> (r: (
    Vec<PolicyContextField>,
    bool,
))
    ensures
        field_facts(r.0@) == fitted_fields(field_facts(fields@), max_bytes as nat),
        r.1 == fields_truncated(field_facts(fields@), max_bytes as nat),
{
    let mut fields = fields;
    let ghost all = field_facts(fields@);
    if max_bytes == 0 || fields.len() == 0 {
        let some = fields.len() > 0;
        let none: Vec<PolicyContextField> = Vec::new();
        assert(field_facts(none@) =~= Seq::empty());
        return (none, some);
    }
    let mut truncated = false;
    let mut fits = fields_fit(&fields, max_bytes);
    while !fits && fields.len() > 1
        invariant
            0 < fields@.len(),
            fits == (rendered_len(field_facts(fields@)) <= max_bytes),
            fitting_fields(all, max_bytes as nat) == fitting_fields(
                field_facts(fields@),
                max_bytes as nat,
            ),
            field_facts(fields@)[0] == all[0],
            truncated ==> rendered_len(all) > max_bytes,
            !truncated ==> field_facts(fields@) == all,
        decreases fields@.len(),
    {
        let ghost before = field_facts(fields@);
        fields.pop();
        assert(field_facts(fields@) =~= before.drop_last());
        truncated = true;
        fits = fields_fit(&fields, max_bytes);
    }
    proof {
        assert(fitting_fields(all, max_bytes as nat) == field_facts(fields@));
    }
    if fits {
        return (fields, truncated);
    }
    proof {
        assert(field_facts(fields@).len() == 1);
        assert(field_facts(fields@)[0] == fields@[0]@);
        lemma_longer(all, max_bytes as nat);
    }
    let name_length: usize = byte_length(fields[0].name());
    if name_length >= max_bytes || max_bytes - name_length <= 1 {
        let none: Vec<PolicyContextField> = Vec::new();
        assert(field_facts(none@) =~= Seq::empty());
        return (none, true);
    }
    let cut = cut_to_bytes(fields[0].rendered_value(), max_bytes - name_length - 1);
    let field = PolicyContextField::public(fields[0].name(), cut.as_str());
    let mut kept: Vec<PolicyContextField> = Vec::new();
    kept.push(field);
    assert(field_facts(kept@) =~= fitted_fields(all, max_bytes as nat));
    (kept, true)
}

proof fn lemma_longer(fields: Seq<FieldFacts>, max: nat)
    requires
        fields.len() > 0,
        rendered_len(fitting_fields(fields, max)) > max,
    ensures
        rendered_len(fields) > max,
    decreases fields.len(),
{
    if fields.len() > 1 && rendered_len(fields) > max {
        lemma_longer(fields.drop_last(), max);
    }
}

/// Where a request is sent by the rules on reads and writes.
#[derive(Clone, Debug, PartialEq, Eq)]
pub struct RoutingDecision {
    pub target_role: BackendRole,
    pub hint: String,
    pub reason: String,
    pub fallback_policy: FallbackPolicy,
    pub freshness_requirement: FreshnessPolicy,
}

/// A shard that a request is sent to.
#[derive(Clone, Debug, PartialEq, Eq)]
pub struct ShardRoute {
    pub route_key: String,
    pub backend_role: BackendRole,
    pub shard_id: String,
}

/// Where a request is sent by the rules on shards.
#[derive(Clone, Debug, PartialEq, Eq)]
pub struct ShardRouteDecision {
    pub policy: String,
    pub reason: String,
    pub route: Option<ShardRoute>,
}

/// What a policy is evaluated on.
#[derive(Clone, Debug, PartialEq, Eq)]
pub struct PolicyEvalInput {
    pub database: String,
    pub user: String,
    pub application_name: Option<String>,
    pub route: Option<String>,
    pub shard: Option<String>,
    pub backend_role: BackendRole,
    pub query_class: String,
    pub transaction_mode: TransactionAccessMode,
    pub freshness_state: FreshnessStatus,
    pub routing_decision: Option<RoutingDecision>,
    pub shard_route_decision: Option<ShardRouteDecision>,
    pub password: Option<String>,
    pub bind_values: Vec<String>,
    pub tls_certificate_body: Option<String>,
    pub raw_sql_text: Option<String>,
    pub secrets: Vec<String>,
}

/// A field, written down.
pub open spec fn field(name: Seq<char>, value: Seq<char>) -> FieldFacts {
    FieldFacts { name, value }
}

/// The fields on where the rules on reads and writes send a request.
pub open spec fn routing_fields(decision: Option<RoutingDecision>) -> Seq<FieldFacts> {
    match decision {
        Some(decision) => seq![
            field("route_target_role"@, decision.target_role.name()),
            field("routing_hint"@, decision.hint@),
            field("routing_reason"@, decision.reason@),
            field("fallback_policy"@, decision.fallback_policy.name()),
            field("freshness_policy"@, decision.freshness_requirement.name()),
        ],
        None => Seq::empty(),
    }
}

/// The fields on where the rules on shards send a request.
pub open spec fn shard_fields(decision: Option<ShardRouteDecision>) -> Seq<FieldFacts> {
    match decision {
        Some(decision) => {
            let head = seq![
                field("multi_shard_policy"@, decision.policy@),
                field("shard_route_reason"@, decision.reason@),
            ];
            match decision.route {
                Some(route) => head + seq![
                    field("route_key"@, route.route_key@),
                    field("route_target_role"@, route.backend_role.name()),
                    field("shard_target"@, route.shard_id@),
                ],
                None => head,
            }
        },
        None => Seq::empty(),
    }
}

impl PolicyEvalInput {
    /// Whether there is anything that must not be shown.
    pub open spec fn is_sensitive(self) -> bool {
        ||| self.password is Some
        ||| self.bind_values@.len() > 0
        ||| self.tls_certificate_body is Some
        ||| self.raw_sql_text is Some
        ||| self.secrets@.len() > 0
    }

    /// The fields that a policy is told, where there is room for all of them.
    pub open spec fn context_fields(self) -> Seq<FieldFacts> {
        seq![
            field("database"@, self.database@),
            field("user"@, self.user@),
            field("application_name"@, text_or(self.application_name, "<none>"@)),
            field("route"@, text_or(self.route, "<none>"@)),
            field("shard"@, text_or(self.shard, "<none>"@)),
            field("backend_role"@, self.backend_role.name()),
            field("query_class"@, self.query_class@),
            field("transaction_mode"@, self.transaction_mode.name()),
            field("freshness_state"@, self.freshness_state.name()),
        ] + routing_fields(self.routing_decision) + shard_fields(self.shard_route_decision)
            + if self.is_sensitive() {
            seq![field("sensitive_inputs"@, REDACTED_VALUE@)]
        } else {
            Seq::empty()
        }
    }

    /// Two requests that differ only in passwords, bound values, certificates, SQL text and
    /// secrets, of which both have some or neither has any, look the same to a policy.
    pub proof fn law_context_hides_secrets(a: PolicyEvalInput, b: PolicyEvalInput)
        requires
            a.is_sensitive() == b.is_sensitive(),
            a.database == b.database,
            a.user == b.user,
            a.application_name == b.application_name,
            a.route == b.route,
            a.shard == b.shard,
            a.backend_role == b.backend_role,
            a.query_class == b.query_class,
            a.transaction_mode == b.transaction_mode,
            a.freshness_state == b.freshness_state,
            a.routing_decision == b.routing_decision,
            a.shard_route_decision == b.shard_route_decision,
        ensures
            a.context_fields() == b.context_fields(),
    {
    }

    fn sensitive(&self) -> (r: bool)
        ensures
            r == self.is_sensitive(),
    {
        self.password.is_some() || self.bind_values.len() > 0 || self.tls_certificate_body.is_some()
            || self.raw_sql_text.is_some() || self.secrets.len() > 0
    }
}

/// What a policy is told.
#[derive(Clone, Debug, PartialEq, Eq)]
pub struct PolicyContext {
    fields: Vec<PolicyContextField>,
}

impl View for PolicyContext {
    type V = Seq<FieldFacts>;

    closed spec fn view(&self) -> Seq<FieldFacts> {
        field_facts(self.fields@)
    }
}

/// Fields written one after the other.
pub open spec fn rendered_context(fields: Seq<FieldFacts>) -> Seq<char> {
    joined(rendered_fields(fields), ", "@)
}

proof fn lemma_rendered_context(fields: Seq<FieldFacts>)
    ensures
        byte_len(rendered_context(fields)) == rendered_len(fields),
    decreases fields.len(),
{
    let list = rendered_fields(fields);
    if fields.len() == 0 {
        assert(utf8_bytes(Seq::empty()).len() == 0);
    } else if fields.len() == 1 {
        assert(list[0] == fields[0].rendered());
        fields[0].law_rendered_len();
        assert(joined(list, ", "@) == list[0]);
    } else {
        lemma_rendered_context(fields.drop_last());
        assert(list.drop_last() =~= rendered_fields(fields.drop_last()));
        assert(list.last() == fields.last().rendered());
        fields.last().law_rendered_len();
        let front = joined(list.drop_last(), ", "@);
        lemma_utf8_concat(front + ", "@, list.last());
        lemma_utf8_concat(front, ", "@);
        reveal_strlit(", ");
        assert(", "@ =~= seq![',', ' ']);
        assert(vstd::utf8::is_ascii_chars(seq![',', ' ']));
        vstd::utf8::is_ascii_chars_encode_utf8(seq![',', ' ']);
    }
}

impl PolicyContext {
    /// A context of some fields.
    pub fn new(fields: Vec<PolicyContextField>) -> (r: PolicyContext)
        ensures
            r@ == field_facts(fields@),
    {
        PolicyContext { fields }
    }

    /// The fields written one after the other.
    pub fn render(&self) -> (r: String)
        ensures
            r@ == rendered_context(self@),
    {
        let mut list: Vec<String> = Vec::new();
        let mut i: usize = 0;
        assert(texts(list@) =~= rendered_fields(self@.take(0)));
        while i < self.fields.len()
            invariant
                i <= self.fields@.len(),
                texts(list@) == rendered_fields(self@.take(i as int)),
            decreases self.fields@.len() - i,
        {
            let text = self.fields[i].render();
            proof {
                lemma_texts_push(list@, text);
                assert(self@[i as int] == self.fields@[i as int]@);
                assert(rendered_fields(self@.take(i + 1)) =~= rendered_fields(
                    self@.take(i as int),
                ).push(text@));
            }
            list.push(text);
            i += 1;
        }
        assert(self@.take(i as int) =~= self@);
        join_all(&list, ", ")
    }
}

/// What a policy is told about a request, and how it is written.
#[derive(Clone, Debug, PartialEq, Eq)]
pub struct PolicyEvalOutput {
    pub context: PolicyContext,
    pub rendered_context: String,
    pub rendered_context_bytes: usize,
    pub truncated: bool,
}

/// Makes what a policy is told, within a number of bytes.
#[derive(Clone, Debug, PartialEq, Eq)]
pub struct PolicyContextBuilder {
    policy_max_context_bytes: usize,
}

fn push_field(fields: &mut Vec<PolicyContextField>, name: &str, value: &str)
    ensures
        field_facts(final(fields)@) == field_facts(old(fields)@).push(field(name@, value@)),
        final(fields)@.len() == old(fields)@.len() + 1,
{
    fields.push(PolicyContextField::public(name, value));
    assert(field_facts(fields@) =~= field_facts(old(fields)@).push(field(name@, value@)));
}

impl PolicyContextBuilder {
    /// How many bytes there may be.
    pub closed spec fn limit(self) -> nat {
        self.policy_max_context_bytes as nat
    }

    /// A builder for a number of bytes.
    pub fn new(policy_max_context_bytes: usize) -> (r: PolicyContextBuilder)
        ensures
            r.limit() == policy_max_context_bytes,
    {
        PolicyContextBuilder { policy_max_context_bytes }
    }

    /// Makes what a policy is told about a request. It is never written in more bytes than are
    /// allowed, and holds nothing that must not be shown.
    pub fn build(&self, input: &PolicyEvalInput) -> (r: PolicyEvalOutput)
        ensures
            r.context@ == fitted_fields(input.context_fields(), self.limit()),
            r.rendered_context@ == rendered_context(r.context@),
            r.rendered_context_bytes == byte_len(r.rendered_context@),
            r.rendered_context_bytes <= self.limit(),
            r.truncated == fields_truncated(input.context_fields(), self.limit()),
    {
        let fields = self.build_fields(input);
        let (fields, truncated) = fit_context_fields(fields, self.policy_max_context_bytes);
        let context = PolicyContext::new(fields);
        let rendered_context = context.render();
        let rendered_context_bytes = byte_length(rendered_context.as_str());
        proof {
            law_fitted_fields_bounded(input.context_fields(), self.limit());
            lemma_rendered_context(context@);
        }
        PolicyEvalOutput { context, rendered_context, rendered_context_bytes, truncated }
    }

    fn build_fields(&self, input: &PolicyEvalInput) -> (r: Vec<PolicyContextField>)
        ensures
            field_facts(r@) == input.context_fields(),
            r@.len() <= 20,
    {
        let mut fields: Vec<PolicyContextField> = Vec::new();
        push_field(&mut fields, "database", input.database.as_str());
        push_field(&mut fields, "user", input.user.as_str());
        push_field(
            &mut fields,
            "application_name",
            opt_or(&input.application_name, "<none>").as_str(),
        );
        push_field(&mut fields, "route", opt_or(&input.route, "<none>").as_str());
        push_field(&mut fields, "shard", opt_or(&input.shard, "<none>").as_str());
        push_field(&mut fields, "backend_role", input.backend_role.as_str());
        push_field(&mut fields, "query_class", input.query_class.as_str());
        push_field(&mut fields, "transaction_mode", input.transaction_mode.as_str());
        push_field(&mut fields, "freshness_state", input.freshness_state.as_str());
        let ghost first = field_facts(fields@);
        match &input.routing_decision {
            Some(decision) => {
                push_field(&mut fields, "route_target_role", decision.target_role.as_str());
                push_field(&mut fields, "routing_hint", decision.hint.as_str());
                push_field(&mut fields, "routing_reason", decision.reason.as_str());
                push_field(&mut fields, "fallback_policy", decision.fallback_policy.as_str());
                push_field(
                    &mut fields,
                    "freshness_policy",
                    decision.freshness_requirement.as_str(),
                );
            },
            None => {},
        }
        let ghost second = field_facts(fields@);
        assert(second =~= first + routing_fields(input.routing_decision));
        match &input.shard_route_decision {
            Some(decision) => {
                push_field(&mut fields, "multi_shard_policy", decision.policy.as_str());
                push_field(&mut fields, "shard_route_reason", decision.reason.as_str());
                match &decision.route {
                    Some(route) => {
                        push_field(&mut fields, "route_key", route.route_key.as_str());
                        push_field(&mut fields, "route_target_role", route.backend_role.as_str());
                        push_field(&mut fields, "shard_target", route.shard_id.as_str());
                    },
                    None => {},
                }
            },
            None => {},
        }
        assert(field_facts(fields@) =~= second + shard_fields(input.shard_route_decision));
        if input.sensitive() {
            push_field(&mut fields, "sensitive_inputs", redact_value("redacted").as_str());
        }
        assert(field_facts(fields@) =~= input.context_fields());
        fields
    }
}

/// What is shown in place of a value.
pub fn redact_value(_value: &str) -> (r: String)
    ensures
        r@ == REDACTED_VALUE@,
{
    REDACTED_VALUE.to_owned()
}

/// What is shown in place of some values.
pub fn redact_values(values: &Vec<String>) -> (r: Vec<String>)
    ensures
        r@.len() == values@.len(),
        forall|i: int| 0 <= i < r@.len() ==> (#[trigger] r@[i])@ == REDACTED_VALUE@,
{
    let mut r: Vec<String> = Vec::new();
    let mut i: usize = 0;
    while i < values.len()
        invariant
            i <= values@.len(),
            r@.len() == i,
            forall|j: int| 0 <= j < r@.len() ==> (#[trigger] r@[j])@ == REDACTED_VALUE@,
        decreases values@.len() - i,
    {
        r.push(redact_value(values[i].as_str()));
        i += 1;
    }
    r
}

/// What is shown in place of a value that may be absent.
pub fn redact_optional_value(value: Option<&str>) -> (r: Option<String>)
    ensures
        opt_text(r) == if value is Some {
            Some(REDACTED_VALUE@)
        } else {
            None
        },
        r is Some <==> value is Some,
        r matches Some(shown) ==> shown@ == "<redacted>"@,
{
    match value {
        Some(value) => Some(redact_value(value)),
        None => None,
    }
}

// ---------------------------------------------------------------------------
// Decisions
// ---------------------------------------------------------------------------

/// What a policy asks for.
#[derive(Clone, Debug, PartialEq, Eq)]
pub enum PolicyAction {
    Allow,
    Deny,
    RequirePrimary,
    RequireReplica,
    RouteOverride { target_id: String },
    ShardOverride { target_id: String },
}

/// What a policy asks for, with the text that it names.
pub enum ActionFacts {
    Allow,
    Deny,
    RequirePrimary,
    RequireReplica,
    RouteOverride { target_id: Seq<char> },
    ShardOverride { target_id: Seq<char> },
}

impl View for PolicyAction {
    type V = ActionFacts;

    open spec fn view(&self) -> ActionFacts {
        match *self {
            PolicyAction::Allow => ActionFacts::Allow,
            PolicyAction::Deny => ActionFacts::Deny,
            PolicyAction::RequirePrimary => ActionFacts::RequirePrimary,
            PolicyAction::RequireReplica => ActionFacts::RequireReplica,
            PolicyAction::RouteOverride { target_id } => ActionFacts::RouteOverride {
                target_id: target_id@,
            },
            PolicyAction::ShardOverride { target_id } => ActionFacts::ShardOverride {
                target_id: target_id@,
            },
        }
    }
}

impl ActionFacts {
    /// The name of what is asked for.
    pub open spec fn name(self) -> Seq<char> {
        match self {
            ActionFacts::Allow => "allow"@,
            ActionFacts::Deny => "deny"@,
            ActionFacts::RequirePrimary => "require_primary"@,
            ActionFacts::RequireReplica => "require_replica"@,
            ActionFacts::RouteOverride { target_id } => "route_override"@,
            ActionFacts::ShardOverride { target_id } => "shard_override"@,
        }
    }
}

impl PolicyAction {
    /// The name of what is asked for.
    pub fn as_str(&self) -> (r: &'static str)
        ensures
            r@ == self@.name(),
    {
        match self {
            PolicyAction::Allow => "allow",
            PolicyAction::Deny => "deny",
            PolicyAction::RequirePrimary => "require_primary",
            PolicyAction::RequireReplica => "require_replica",
            PolicyAction::RouteOverride { target_id: _ } => "route_override",
            PolicyAction::ShardOverride { target_id: _ } => "shard_override",
        }
    }

    fn copied(&self) -> (r: PolicyAction)
        ensures
            r@ == self@,
    {
        match self {
            PolicyAction::Allow => PolicyAction::Allow,
            PolicyAction::Deny => PolicyAction::Deny,
            PolicyAction::RequirePrimary => PolicyAction::RequirePrimary,
            PolicyAction::RequireReplica => PolicyAction::RequireReplica,
            PolicyAction::RouteOverride { target_id } => PolicyAction::RouteOverride {
                target_id: target_id.clone(),
            },
            PolicyAction::ShardOverride { target_id } => PolicyAction::ShardOverride {
                target_id: target_id.clone(),
            },
        }
    }
}

/// What a policy decided about a request.
#[derive(Clone, Debug, PartialEq, Eq)]
pub struct PolicyDecision {
    pub policy_id: String,
    pub policy_version: u64,
    pub action: PolicyAction,
    pub outcome: String,
    pub hook_point: PolicyHookPoint,
    pub elapsed: Duration,
}

/// A decision that is recorded.
#[derive(Clone, Debug, PartialEq, Eq)]
pub struct PolicyAuditEvent {
    pub kind: String,
    pub policy_id: String,
    pub policy_version: u64,
    pub hook_point: PolicyHookPoint,
    pub action: PolicyAction,
    pub outcome: String,
    pub reason: Option<String>,
    pub route: Option<String>,
    pub shard: Option<String>,
    pub target_role: Option<String>,
    pub context: PolicyContext,
}

// ---------------------------------------------------------------------------
// Runtime
// ---------------------------------------------------------------------------

/// How policies are evaluated and recorded.
#[derive(Clone, Debug)]
pub struct PolicyRuntime {
    policy_eval_timeout: Duration,
    policy_max_context_bytes: usize,
    policy_mode: PolicyMode,
    policy_audit_enabled: bool,
    policy_audit_sample_rate: Double,
    policy_wasm_enabled: bool,
}

/// The settings of a runtime.
pub struct RuntimeFacts {
    pub timeout: nat,
    pub max_context_bytes: usize,
    pub mode: PolicyMode,
    pub audit_enabled: bool,
    pub sample_rate: Double,
    pub wasm_enabled: bool,
}

impl View for PolicyRuntime {
    type V = RuntimeFacts;

    closed spec fn view(&self) -> RuntimeFacts {
        RuntimeFacts {
            timeout: self.policy_eval_timeout@,
            max_context_bytes: self.policy_max_context_bytes,
            mode: self.policy_mode,
            audit_enabled: self.policy_audit_enabled,
            sample_rate: self.policy_audit_sample_rate,
            wasm_enabled: self.policy_wasm_enabled,
        }
    }
}

/// A share moved into the span from zero to one; zero where it is no number.
pub open spec fn sample_share(rate: Double) -> Double {
    if rate.is_nan() {
        Double { bits: 0 }
    } else if rate.rank() < 0 {
        Double { bits: 0 }
    } else if rate.rank() > one_bits() {
        Double { bits: one_bits() }
    } else {
        rate
    }
}

/// Whatever share was asked for, the one that is used lies between zero and one.
pub proof fn law_sample_share_in_unit_interval(rate: Double)
    ensures
        sample_share(rate).in_unit_interval(),
{
}

fn clamp_sample_rate(rate: Double) -> (r: Double)
    ensures
        r == sample_share(rate),
{
    if rate.nan() {
        Double::zero()
    } else if rate.below(Double::zero()) {
        Double::zero()
    } else if Double::one().below(rate) {
        Double::one()
    } else {
        rate
    }
}

/// The runtime that some settings make.
pub open spec fn runtime_of(config: PolicyConfig) -> RuntimeFacts {
    RuntimeFacts {
        timeout: (config.policy_eval_timeout_ms * 1_000_000) as nat,
        max_context_bytes: config.policy_max_context_bytes,
        mode: config.policy_mode,
        audit_enabled: config.policy_audit.policy_audit_enabled,
        sample_rate: sample_share(config.policy_audit.policy_audit_sample_rate),
        wasm_enabled: config.policy_wasm.policy_wasm_enabled,
    }
}

impl RuntimeFacts {
    /// Whether an event is recorded, where its place in the sample lies below the share of events
    /// that are, or does not.
    pub open spec fn samples(self, below: bool) -> bool {
        if !self.audit_enabled || !(Double { bits: 0 }).less(self.sample_rate) {
            false
        } else if !self.sample_rate.less(Double { bits: one_bits() }) {
            true
        } else {
            below
        }
    }
}

/// The number that a hasher made by `std::hash::DefaultHasher::new` gives the parts of a decision by
/// which it is sampled, one after the other.
pub uninterp spec fn event_hash_of(
    kind: Seq<char>,
    policy_id: Seq<char>,
    policy_version: u64,
    hook_point: Seq<char>,
    action: Seq<char>,
    outcome: Seq<char>,
    reason: Seq<char>,
    route: Seq<char>,
    shard: Seq<char>,
    target_role: Seq<char>,
) -> u64;

/// Hashes a tuple with `std::hash::DefaultHasher`, which takes in its parts one after the other.
/// Every hasher that `new` makes gives the same parts the same number; which number that is, is not
/// specified.
#[verifier::external_body]
fn event_hash(
    names: (&str, &str, u64),
    what: (&str, &str, &str),
    parts: (&str, &str, &str, &str),
) -> (r: u64)
    ensures
        r == event_hash_of(
            names.0@,
            names.1@,
            names.2,
            what.0@,
            what.1@,
            what.2@,
            parts.0@,
            parts.1@,
            parts.2@,
            parts.3@,
        ),
{
    let mut hasher = std::hash::DefaultHasher::new();
    std::hash::Hash::hash(&(names, what, parts), &mut hasher);
    std::hash::Hasher::finish(&hasher)
}

impl PolicyAuditEvent {
    /// The number by which the decision is sampled.
    pub open spec fn sampled_by(self) -> u64 {
        event_hash_of(
            self.kind@,
            self.policy_id@,
            self.policy_version,
            self.hook_point.name(),
            self.action@.name(),
            self.outcome@,
            text_or(self.reason, ""@),
            text_or(self.route, ""@),
            text_or(self.shard, ""@),
            text_or(self.target_role, ""@),
        )
    }

    /// The number by which the decision is sampled: a hash of everything but its context, where
    /// what is absent counts as empty.
    pub fn sample_hash(&self) -> (r: u64)
        ensures
            r == self.sampled_by(),
    {
        let reason = opt_or(&self.reason, "");
        let route = opt_or(&self.route, "");
        let shard = opt_or(&self.shard, "");
        let target_role = opt_or(&self.target_role, "");
        event_hash(
            (self.kind.as_str(), self.policy_id.as_str(), self.policy_version),
            (self.hook_point.as_str(), self.action.as_str(), self.outcome.as_str()),
            (reason.as_str(), route.as_str(), shard.as_str(), target_role.as_str()),
        )
    }
}

impl PolicyRuntime {
    /// A runtime that evaluates nothing and records every decision.
    pub fn new(policy_eval_timeout: Duration, policy_max_context_bytes: usize) -> (r: PolicyRuntime)
        ensures
            r@ == (RuntimeFacts {
                timeout: policy_eval_timeout@,
                max_context_bytes: policy_max_context_bytes,
                mode: PolicyMode::Disabled,
                audit_enabled: true,
                sample_rate: Double { bits: one_bits() },
                wasm_enabled: false,
            }),
    {
        PolicyRuntime {
            policy_eval_timeout,
            policy_max_context_bytes,
            policy_mode: PolicyMode::Disabled,
            policy_audit_enabled: true,
            policy_audit_sample_rate: Double::one(),
            policy_wasm_enabled: false,
        }
    }

    /// The runtime that some settings ask for.
    pub fn from_config(config: &PolicyConfig) -> (r: PolicyRuntime)
        ensures
            r@ == runtime_of(*config),
    {
        PolicyRuntime::new(
            Duration::from_millis(config.policy_eval_timeout_ms),
            config.policy_max_context_bytes,
        ).with_policy_mode(config.policy_mode).with_policy_audit_enabled(
            config.policy_audit.policy_audit_enabled,
        ).with_policy_audit_sample_rate(
            config.policy_audit.policy_audit_sample_rate,
        ).with_policy_wasm_enabled(config.policy_wasm.policy_wasm_enabled)
    }

    /// How long an evaluation may take.
    pub fn policy_eval_timeout(&self) -> (r: Duration)
        ensures
            r@ == self@.timeout,
    {
        self.policy_eval_timeout
    }

    /// How many bytes of context a policy is given at most.
    pub fn policy_max_context_bytes(&self) -> (r: usize)
        ensures
            r == self@.max_context_bytes,
    {
        self.policy_max_context_bytes
    }

    /// Whether policies are evaluated, and whether they are followed.
    pub fn policy_mode(&self) -> (r: PolicyMode)
        ensures
            r == self@.mode,
    {
        self.policy_mode
    }

    /// Whether decisions are recorded.
    pub fn policy_audit_enabled(&self) -> (r: bool)
        ensures
            r == self@.audit_enabled,
    {
        self.policy_audit_enabled
    }

    /// Whether WebAssembly modules may be policies.
    pub fn policy_wasm_enabled(&self) -> (r: bool)
        ensures
            r == self@.wasm_enabled,
    {
        self.policy_wasm_enabled
    }

    /// The share of decisions that are recorded.
    pub fn policy_audit_sample_rate(&self) -> (r: Double)
        ensures
            r == self@.sample_rate,
    {
        self.policy_audit_sample_rate
    }

    /// A builder for what a policy is told.
    pub fn context_builder(&self) -> (r: PolicyContextBuilder)
        ensures
            r.limit() == self@.max_context_bytes,
    {
        PolicyContextBuilder::new(self.policy_max_context_bytes)
    }

    /// What a plugin may take and give.
    pub fn plugin_host_limits(&self) -> (r: PolicyPluginHostLimits)
        ensures
            r@ == (LimitFacts {
                input: self@.max_context_bytes,
                output: self@.max_context_bytes,
                duration: self@.timeout,
            }),
    {
        PolicyPluginHostLimits::new(
            self.policy_max_context_bytes,
            self.policy_max_context_bytes,
            self.policy_eval_timeout,
        )
    }

    /// The record of a decision, with nothing said on its reason, route, shard or target.
    pub fn build_audit_event(
        &self,
        kind: &str,
        decision: PolicyDecision,
        context: PolicyContext,
    ) -> (r: PolicyAuditEvent)
        ensures
            r.kind@ == kind@,
            r.policy_id == decision.policy_id,
            r.policy_version == decision.policy_version,
            r.hook_point == decision.hook_point,
            r.action == decision.action,
            r.outcome == decision.outcome,
            r.reason is None && r.route is None && r.shard is None && r.target_role is None,
            r.context == context,
    {
        PolicyAuditEvent {
            kind: kind.to_owned(),
            policy_id: decision.policy_id,
            policy_version: decision.policy_version,
            hook_point: decision.hook_point,
            action: decision.action,
            outcome: decision.outcome,
            reason: None,
            route: None,
            shard: None,
            target_role: None,
            context,
        }
    }

    /// The record of a decision about a request.
    pub fn build_audit_event_from_input(
        &self,
        kind: &str,
        decision: PolicyDecision,
        input: &PolicyEvalInput,
    ) -> (r: PolicyAuditEvent)
        ensures
            r.kind@ == kind@,
            r.policy_id == decision.policy_id,
            r.policy_version == decision.policy_version,
            r.hook_point == decision.hook_point,
            r.action == decision.action,
            r.outcome == decision.outcome,
            r.reason is None && r.route is None && r.shard is None && r.target_role is None,
            r.context@ == fitted_fields(
                input.context_fields(),
                self@.max_context_bytes as nat,
            ),
    {
        let context = self.context_builder().build(input).context;
        self.build_audit_event(kind, decision, context)
    }

    /// Whether a decision is recorded. `below` says whether the decision's place in the sample
    /// lies below the share of decisions that are.
    pub fn should_sample_audit_event(&self, below: bool) -> (r: bool)
        ensures
            r == self@.samples(below),
    {
        if !self.policy_audit_enabled {
            return false;
        }
        let rate = self.policy_audit_sample_rate;
        if !Double::zero().below(rate) {
            return false;
        }
        if !rate.below(Double::one()) {
            return true;
        }
        below
    }

    /// The same runtime in another mode.
    pub fn with_policy_mode(self, policy_mode: PolicyMode) -> (r: PolicyRuntime)
        ensures
            r@ == (RuntimeFacts { mode: policy_mode, ..self@ }),
    {
        let mut r = self;
        r.policy_mode = policy_mode;
        r
    }

    /// The same runtime that records decisions, or does not.
    pub fn with_policy_audit_enabled(self, policy_audit_enabled: bool) -> (r: PolicyRuntime)
        ensures
            r@ == (RuntimeFacts { audit_enabled: policy_audit_enabled, ..self@ }),
    {
        let mut r = self;
        r.policy_audit_enabled = policy_audit_enabled;
        r
    }

    /// The same runtime that records another share of decisions.
    pub fn with_policy_audit_sample_rate(self, sample_rate: Double) -> (r: PolicyRuntime)
        ensures
            r@ == (RuntimeFacts { sample_rate: sample_share(sample_rate), ..self@ }),
    {
        let mut r = self;
        r.policy_audit_sample_rate = clamp_sample_rate(sample_rate);
        r
    }

    /// The same runtime that takes WebAssembly modules, or does not.
    pub fn with_policy_wasm_enabled(self, policy_wasm_enabled: bool) -> (r: PolicyRuntime)
        ensures
            r@ == (RuntimeFacts { wasm_enabled: policy_wasm_enabled, ..self@ }),
    {
        let mut r = self;
        r.policy_wasm_enabled = policy_wasm_enabled;
        r
    }

    /// The module that a rule is to be evaluated by, where it is one and modules are taken.
    pub fn wasm_module(&self, rule: &InlinePolicyConfig) -> (r: Result<String, PolicyPluginError>)
        ensures
            match r {
                Ok(module) => self@.wasm_enabled && rule.action is Wasm && module@
                    == rule.action->module_file@,
                Err(error) => (!self@.wasm_enabled || !(rule.action is Wasm)) && error@
                    == PluginComplaint::OutputValidationFailed {
                    message: if !self@.wasm_enabled {
                        "wasm policies require policy_wasm_enabled to be true"@
                    } else {
                        "inline rule is not a wasm policy"@
                    },
                },
            },
            r is Ok <==> self@.wasm_enabled && rule.action is Wasm,
    {
        if !self.policy_wasm_enabled {
            return Err(
                PolicyPluginError::OutputValidationFailed {
                    message: "wasm policies require policy_wasm_enabled to be true".to_owned(),
                },
            );
        }
        match &rule.action {
            InlinePolicyActionConfig::Wasm { module_file } => Ok(module_file.clone()),
            _ => Err(
                PolicyPluginError::OutputValidationFailed {
                    message: "inline rule is not a wasm policy".to_owned(),
                },
            ),
        }
    }
}

// ---------------------------------------------------------------------------
// Plugins
// ---------------------------------------------------------------------------

/// What a plugin asks for.
#[derive(Clone, Debug, PartialEq, Eq)]
pub enum PolicyPluginAction {
    Allow,
    Deny { reason: String },
    RequirePrimary,
    RequireReplica,
    RouteOverride { target_id: String },
    ShardOverride { target_id: String },
    Unsupported { name: String },
}

/// What a plugin is given: how long it is when written, and what the plugin wants to reach.
#[derive(Clone, Copy, Debug, PartialEq, Eq)]
pub struct PolicyPluginInput {
    pub rendered_len_bytes: usize,
    pub requested_filesystem_access: bool,
    pub requested_network_access: bool,
    pub requested_secret_access: bool,
}

/// What a plugin gives back, and how long it is when written.
#[derive(Clone, Debug, PartialEq, Eq)]
pub struct PolicyPluginOutput {
    pub policy_id: String,
    pub hook_point: PolicyHookPoint,
    pub action: PolicyPluginAction,
    pub rendered_len_bytes: usize,
}

/// Why a plugin's work is refused.
#[derive(Clone, Debug, PartialEq, Eq)]
pub enum PolicyPluginError {
    InputTooLarge { bytes: usize, limit: usize },
    OutputTooLarge { bytes: usize, limit: usize },
    EvaluationTimeout { elapsed: Duration, limit: Duration },
    FilesystemAccessDenied,
    NetworkAccessDenied,
    SecretAccessDenied,
    UnsupportedAction { name: String },
    OutputValidationFailed { message: String },
}

/// Why a plugin's work is refused, with the text that goes with it.
pub enum PluginComplaint {
    InputTooLarge { bytes: usize, limit: usize },
    OutputTooLarge { bytes: usize, limit: usize },
    EvaluationTimeout { elapsed: nat, limit: nat },
    FilesystemAccessDenied,
    NetworkAccessDenied,
    SecretAccessDenied,
    UnsupportedAction { name: Seq<char> },
    OutputValidationFailed { message: Seq<char> },
}

impl View for PolicyPluginError {
    type V = PluginComplaint;

    open spec fn view(&self) -> PluginComplaint {
        match *self {
            PolicyPluginError::InputTooLarge { bytes, limit } => PluginComplaint::InputTooLarge {
                bytes,
                limit,
            },
            PolicyPluginError::OutputTooLarge { bytes, limit } => PluginComplaint::OutputTooLarge {
                bytes,
                limit,
            },
            PolicyPluginError::EvaluationTimeout { elapsed, limit } =>
                PluginComplaint::EvaluationTimeout { elapsed: elapsed@, limit: limit@ },
            PolicyPluginError::FilesystemAccessDenied => PluginComplaint::FilesystemAccessDenied,
            PolicyPluginError::NetworkAccessDenied => PluginComplaint::NetworkAccessDenied,
            PolicyPluginError::SecretAccessDenied => PluginComplaint::SecretAccessDenied,
            PolicyPluginError::UnsupportedAction { name } => PluginComplaint::UnsupportedAction {
                name: name@,
            },
            PolicyPluginError::OutputValidationFailed { message } =>
                PluginComplaint::OutputValidationFailed { message: message@ },
        }
    }
}

/// Why something was refused, if it was.
pub open spec fn refusal(r: Result<(), PolicyPluginError>) -> Option<PluginComplaint> {
    match r {
        Ok(()) => None,
        Err(error) => Some(error@),
    }
}

/// What a plugin may take and give.
#[derive(Clone, Copy, Debug, PartialEq, Eq)]
pub struct PolicyPluginHostLimits {
    max_input_bytes: usize,
    max_output_bytes: usize,
    max_evaluation_duration: Duration,
}

/// The limits themselves.
pub struct LimitFacts {
    pub input: usize,
    pub output: usize,
    pub duration: nat,
}

impl View for PolicyPluginHostLimits {
    type V = LimitFacts;

    closed spec fn view(&self) -> LimitFacts {
        LimitFacts {
            input: self.max_input_bytes,
            output: self.max_output_bytes,
            duration: self.max_evaluation_duration@,
        }
    }
}

/// The rule's action that is the same as a plugin's, where there is one.
pub open spec fn inline_action(
    action: PolicyPluginAction,
    inline: InlinePolicyActionConfig,
) -> bool {
    match (action, inline) {
        (PolicyPluginAction::Allow, InlinePolicyActionConfig::Allow) => true,
        (
            PolicyPluginAction::Deny { reason },
            InlinePolicyActionConfig::Deny { reason: other },
        ) => reason@ == other@,
        (PolicyPluginAction::RequirePrimary, InlinePolicyActionConfig::RequirePrimary) => true,
        (PolicyPluginAction::RequireReplica, InlinePolicyActionConfig::RequireReplica) => true,
        (
            PolicyPluginAction::RouteOverride { target_id },
            InlinePolicyActionConfig::RouteOverride { target_id: other },
        ) => target_id@ == other@,
        (
            PolicyPluginAction::ShardOverride { target_id },
            InlinePolicyActionConfig::ShardOverride { target_id: other },
        ) => target_id@ == other@,
        _ => false,
    }
}

/// The rule's action that is the same as a plugin's.
fn policy_plugin_action_to_inline_action(action: &PolicyPluginAction) -> (r: Result<
    InlinePolicyActionConfig,
    PolicyPluginError,
>)
    ensures
        match r {
            Ok(inline) => inline_action(*action, inline),
            Err(error) => action is Unsupported && error@ == (PluginComplaint::UnsupportedAction {
                name: action->name@,
            }),
        },
{
    match action {
        PolicyPluginAction::Allow => Ok(InlinePolicyActionConfig::Allow),
        PolicyPluginAction::Deny { reason } => Ok(
            InlinePolicyActionConfig::Deny { reason: reason.clone() },
        ),
        PolicyPluginAction::RequirePrimary => Ok(InlinePolicyActionConfig::RequirePrimary),
        PolicyPluginAction::RequireReplica => Ok(InlinePolicyActionConfig::RequireReplica),
        PolicyPluginAction::RouteOverride { target_id } => Ok(
            InlinePolicyActionConfig::RouteOverride { target_id: target_id.clone() },
        ),
        PolicyPluginAction::ShardOverride { target_id } => Ok(
            InlinePolicyActionConfig::ShardOverride { target_id: target_id.clone() },
        ),
        PolicyPluginAction::Unsupported { name } => Err(
            PolicyPluginError::UnsupportedAction { name: name.clone() },
        ),
    }
}

/// What is wrong with a plugin's action next to the routes and shards that there are.
pub open spec fn plugin_action_complaint(
    action: PolicyPluginAction,
    routes: Seq<Seq<char>>,
    sharding_enabled: bool,
    shards: Seq<Seq<char>>,
) -> Option<PluginComplaint> {
    match action {
        PolicyPluginAction::Deny { reason } => if crate::text::is_blank(reason@) {
            Some(
                PluginComplaint::OutputValidationFailed {
                    message: "deny action requires a reason"@,
                },
            )
        } else {
            None
        },
        PolicyPluginAction::RouteOverride { target_id } => if !routes.contains(target_id@) {
            Some(
                PluginComplaint::OutputValidationFailed {
                    message: "route override target '"@ + target_id@
                        + "' does not reference an existing route"@,
                },
            )
        } else {
            None
        },
        PolicyPluginAction::ShardOverride { target_id } => if sharding_enabled && !shards.contains(
            target_id@,
        ) {
            Some(
                PluginComplaint::OutputValidationFailed {
                    message: "shard override target '"@ + target_id@
                        + "' does not reference an existing shard"@,
                },
            )
        } else {
            None
        },
        PolicyPluginAction::Unsupported { name } => Some(
            PluginComplaint::UnsupportedAction { name: name@ },
        ),
        _ => None,
    }
}

impl LimitFacts {
    /// What is wrong with what a plugin is given.
    pub open spec fn input_complaint(self, input: PolicyPluginInput) -> Option<PluginComplaint> {
        if input.rendered_len_bytes > self.input {
            Some(
                PluginComplaint::InputTooLarge {
                    bytes: input.rendered_len_bytes,
                    limit: self.input,
                },
            )
        } else if input.requested_filesystem_access {
            Some(PluginComplaint::FilesystemAccessDenied)
        } else if input.requested_network_access {
            Some(PluginComplaint::NetworkAccessDenied)
        } else if input.requested_secret_access {
            Some(PluginComplaint::SecretAccessDenied)
        } else {
            None
        }
    }

    /// What is wrong with the length of what a plugin gives back.
    pub open spec fn output_complaint(self, output: PolicyPluginOutput) -> Option<PluginComplaint> {
        if output.rendered_len_bytes > self.output {
            Some(
                PluginComplaint::OutputTooLarge {
                    bytes: output.rendered_len_bytes,
                    limit: self.output,
                },
            )
        } else {
            None
        }
    }
}

impl PolicyPluginHostLimits {
    /// Some limits.
    pub fn new(
        max_input_bytes: usize,
        max_output_bytes: usize,
        max_evaluation_duration: Duration,
    ) -> (r: PolicyPluginHostLimits)
        ensures
            r@ == (LimitFacts {
                input: max_input_bytes,
                output: max_output_bytes,
                duration: max_evaluation_duration@,
            }),
    {
        PolicyPluginHostLimits { max_input_bytes, max_output_bytes, max_evaluation_duration }
    }

    /// How many bytes a plugin is given at most.
    pub fn max_input_bytes(&self) -> (r: usize)
        ensures
            r == self@.input,
    {
        self.max_input_bytes
    }

    /// How many bytes a plugin gives back at most.
    pub fn max_output_bytes(&self) -> (r: usize)
        ensures
            r == self@.output,
    {
        self.max_output_bytes
    }

    /// How long a plugin may take.
    pub fn max_evaluation_duration(&self) -> (r: Duration)
        ensures
            r@ == self@.duration,
    {
        self.max_evaluation_duration
    }

    /// No plugin reaches files.
    pub fn filesystem_access_allowed(&self) -> (r: bool)
        ensures
            !r,
    {
        false
    }

    /// No plugin reaches the network.
    pub fn network_access_allowed(&self) -> (r: bool)
        ensures
            !r,
    {
        false
    }

    /// No plugin reaches secrets.
    pub fn secret_access_allowed(&self) -> (r: bool)
        ensures
            !r,
    {
        false
    }

    /// Checks what a plugin is given.
    pub fn validate_input(&self, input: &PolicyPluginInput) -> (r: Result<(), PolicyPluginError>)
        ensures
            refusal(r) == self@.input_complaint(*input),
    {
        if input.rendered_len_bytes > self.max_input_bytes {
            return Err(
                PolicyPluginError::InputTooLarge {
                    bytes: input.rendered_len_bytes,
                    limit: self.max_input_bytes,
                },
            );
        }
        if input.requested_filesystem_access {
            return Err(PolicyPluginError::FilesystemAccessDenied);
        }
        if input.requested_network_access {
            return Err(PolicyPluginError::NetworkAccessDenied);
        }
        if input.requested_secret_access {
            return Err(PolicyPluginError::SecretAccessDenied);
        }
        Ok(())
    }

    /// Checks the length of what a plugin gives back.
    pub fn validate_output(&self, output: &PolicyPluginOutput) -> (r: Result<
        (),
        PolicyPluginError,
    >)
        ensures
            refusal(r) == self@.output_complaint(*output),
    {
        if output.rendered_len_bytes > self.max_output_bytes {
            return Err(
                PolicyPluginError::OutputTooLarge {
                    bytes: output.rendered_len_bytes,
                    limit: self.max_output_bytes,
                },
            );
        }
        Ok(())
    }

    /// Checks how long a plugin took.
    pub fn validate_evaluation_duration(&self, elapsed: Duration) -> (r: Result<
        (),
        PolicyPluginError,
    >)
        ensures
            refusal(r) == if elapsed@ > self@.duration {
                Some(
                    PluginComplaint::EvaluationTimeout {
                        elapsed: elapsed@,
                        limit: self@.duration,
                    },
                )
            } else {
                None
            },
            r is Ok <==> elapsed@ <= self@.duration,
    {
        if elapsed.longer_than(&self.max_evaluation_duration) {
            return Err(
                PolicyPluginError::EvaluationTimeout {
                    elapsed,
                    limit: self.max_evaluation_duration,
                },
            );
        }
        Ok(())
    }

    /// Checks what a plugin gives back as a rule of the settings is checked.
    pub fn validate_output_like_declarative_policy_output(
        &self,
        output: &PolicyPluginOutput,
        active_routes: &Vec<String>,
        sharding_enabled: bool,
        active_shards: &Vec<String>,
    ) -> (r: Result<(), PolicyPluginError>)
        ensures
            refusal(r) == if self@.output_complaint(*output) is Some {
                self@.output_complaint(*output)
            } else {
                plugin_action_complaint(
                    output.action,
                    texts(active_routes@),
                    sharding_enabled,
                    texts(active_shards@),
                )
            },
    {
        match self.validate_output(output) {
            Err(error) => {
                return Err(error);
            },
            Ok(()) => {},
        }
        let action = match policy_plugin_action_to_inline_action(&output.action) {
            Err(error) => {
                return Err(error);
            },
            Ok(action) => action,
        };
        let mut policy = PolicyConfig::default();
        policy.inline_rules.push(
            InlinePolicyConfig {
                policy_id: output.policy_id.clone(),
                hook_point: output.hook_point,
                action,
            },
        );
        proof {
            let rules = policy.inline_rules@;
            assert(rules.len() == 1);
            assert(rules.drop_last() =~= Seq::empty());
            assert(rules_complaint(rules.drop_last(), false) is None);
            assert(rules_complaint(rules, false) == action_complaint(rules[0].action, false));
            let routes = texts(active_routes@);
            let shards = texts(active_shards@);
            assert(overrides_complaint(
                rules.drop_last(),
                routes,
                sharding_enabled,
                shards,
            ) is None);
            assert(overrides_complaint(rules, routes, sharding_enabled, shards)
                == override_complaint(rules[0].action, routes, sharding_enabled, shards));
        }
        match policy.validate_with_context(active_routes, sharding_enabled, active_shards) {
            Ok(()) => Ok(()),
            Err(message) => Err(PolicyPluginError::OutputValidationFailed { message }),
        }
    }
}

// ---------------------------------------------------------------------------
// Replacing the policies
// ---------------------------------------------------------------------------

/// How often the policies have been replaced.
#[derive(Clone, Copy, Debug, PartialEq, Eq, PartialOrd, Ord, Hash, Structural)]
pub struct PolicyGeneration(u64);

impl PolicyGeneration {
    /// The number itself.
    pub closed spec fn value(self) -> u64 {
        self.0
    }

    /// A generation by its number.
    pub fn new(value: u64) -> (r: PolicyGeneration)
        ensures
            r.value() == value,
    {
        PolicyGeneration(value)
    }

    /// The generation that a process starts with.
    pub fn initial() -> (r: PolicyGeneration)
        ensures
            r.value() == 0,
    {
        PolicyGeneration(0)
    }

    /// The generation's number.
    pub fn as_u64(self) -> (r: u64)
        ensures
            r == self.value(),
    {
        self.0
    }

    /// The generation after this one.
    pub fn next(self) -> (r: PolicyGeneration)
        requires
            self.value() < u64::MAX,
        ensures
            r.value() == self.value() + 1,
    {
        PolicyGeneration(self.0 + 1)
    }
}

impl Default for PolicyGeneration {
    fn default() -> (r: PolicyGeneration)
        ensures
            r.value() == 0,
    {
        PolicyGeneration(0)
    }
}

impl From<u64> for PolicyGeneration {
    fn from(value: u64) -> (r: PolicyGeneration) {
        PolicyGeneration(value)
    }
}

impl vstd::std_specs::convert::FromSpecImpl<u64> for PolicyGeneration {
    open spec fn obeys_from_spec() -> bool {
        true
    }

    closed spec fn from_spec(value: u64) -> PolicyGeneration {
        PolicyGeneration(value)
    }
}

/// What came of new policies.
#[derive(Clone, Debug, PartialEq, Eq)]
pub struct PolicyReloadResult {
    pub success: bool,
    pub policy_generation_id: u64,
    pub error_code: Option<PolicyReloadErrorCode>,
    pub error: Option<String>,
}

/// The kind of a complaint, by its text.
pub open spec fn reload_code(error: Seq<char>) -> PolicyReloadErrorCode {
    if holds_part(error, "route override target"@) {
        PolicyReloadErrorCode::RouteReferenceMissing
    } else if holds_part(error, "shard override target"@) {
        PolicyReloadErrorCode::ShardReferenceMissing
    } else {
        PolicyReloadErrorCode::InvalidPolicyConfiguration
    }
}

/// The kind of a complaint, by its text.
pub fn policy_reload_error_code(error: &str) -> (r: PolicyReloadErrorCode)
    ensures
        r == reload_code(error@),
{
    if contains(error, "route override target") {
        PolicyReloadErrorCode::RouteReferenceMissing
    } else if contains(error, "shard override target") {
        PolicyReloadErrorCode::ShardReferenceMissing
    } else {
        PolicyReloadErrorCode::InvalidPolicyConfiguration
    }
}

/// A rule that sends requests to a route that does not exist is reported as such.
pub proof fn law_missing_route_reported(
    target_id: String,
    routes: Seq<Seq<char>>,
    sharding_enabled: bool,
    shards: Seq<Seq<char>>,
)
    requires
        !routes.contains(target_id@),
    ensures
        ({
            let action = InlinePolicyActionConfig::RouteOverride { target_id };
            let found = override_complaint(action, routes, sharding_enabled, shards);
            found is Some && reload_code(found->0) == PolicyReloadErrorCode::RouteReferenceMissing
        }),
{
    let found = "route override target '"@ + target_id@ + "' does not reference an existing route"@;
    reveal_strlit("route override target '");
    reveal_strlit("route override target");
    assert(found.subrange(0, "route override target"@.len() as int)
        =~= "route override target"@);
    assert(holds_at(found, "route override target"@, 0));
}

/// Where the policies come from, by which kinds of them there are.
pub open spec fn source_label(config: PolicyConfig) -> Seq<char> {
    let files = config.policy_files@.len() > 0;
    let inline = config.inline_rules@.len() > 0;
    let wasm = exists|i: int|
        0 <= i < config.inline_rules@.len() && (#[trigger] config.inline_rules@[i]).action is Wasm;
    if !files && !inline {
        "disabled"@
    } else if files && !inline {
        "file"@
    } else if !files && !wasm {
        "inline"@
    } else {
        "mixed"@
    }
}

/// Where the policies come from, by which kinds of them there are.
pub fn policy_source_label(config: &PolicyConfig) -> (r: &'static str)
    ensures
        r@ == source_label(*config),
{
    let has_inline_rules = config.inline_rules.len() > 0;
    let has_policy_files = config.policy_files.len() > 0;
    let mut has_wasm_rules = false;
    let mut i: usize = 0;
    while i < config.inline_rules.len()
        invariant
            i <= config.inline_rules@.len(),
            has_wasm_rules == exists|j: int|
                0 <= j < i && (#[trigger] config.inline_rules@[j]).action is Wasm,
        decreases config.inline_rules@.len() - i,
    {
        match config.inline_rules[i].action {
            InlinePolicyActionConfig::Wasm { module_file: _ } => {
                has_wasm_rules = true;
            },
            _ => {},
        }
        assert(config.inline_rules@[i as int] == config.inline_rules[i as int]);
        i += 1;
    }
    if !has_policy_files && !has_wasm_rules && !has_inline_rules {
        "disabled"
    } else if has_policy_files && !has_wasm_rules && !has_inline_rules {
        "file"
    } else if !has_policy_files && has_wasm_rules && !has_inline_rules {
        "wasm"
    } else if !has_policy_files && !has_wasm_rules && has_inline_rules {
        "inline"
    } else {
        "mixed"
    }
}

/// The policies that are in force.
#[derive(Clone, Debug)]
pub struct PolicySnapshot {
    pub generation: PolicyGeneration,
    pub config: PolicyConfig,
    pub runtime: PolicyRuntime,
}

impl PolicySnapshot {
    /// Some policies as a generation.
    pub fn new(generation: PolicyGeneration, config: PolicyConfig) -> (r: PolicySnapshot)
        ensures
            r.generation == generation,
            r.config == config,
            r.runtime@ == runtime_of(config),
    {
        let runtime = PolicyRuntime::from_config(&config);
        PolicySnapshot { generation, config, runtime }
    }
}

/// What comes of new policies, given the generation in force and what is wrong with them.
pub open spec fn reload_result(
    result: PolicyReloadResult,
    generation: u64,
    found: Option<Seq<char>>,
) -> bool {
    match found {
        Some(message) => !result.success && result.policy_generation_id == generation
            && result.error_code == Some(reload_code(message)) && opt_text(result.error) == Some(
            message,
        ),
        None => result.success && result.policy_generation_id == generation + 1
            && result.error_code is None && result.error is None,
    }
}

fn check_reload(
    next_config: &PolicyConfig,
    current: PolicyGeneration,
    active_routes: &Vec<String>,
    sharding_enabled: bool,
    active_shards: &Vec<String>,
) -> (r: PolicyReloadResult)
    requires
        current.value() < u64::MAX,
    ensures
        reload_result(
            r,
            current.value(),
            next_config.context_complaint(
                texts(active_routes@),
                sharding_enabled,
                texts(active_shards@),
            ),
        ),
{
    match next_config.validate_with_context(active_routes, sharding_enabled, active_shards) {
        Err(error) => PolicyReloadResult {
            success: false,
            policy_generation_id: current.as_u64(),
            error_code: Some(policy_reload_error_code(error.as_str())),
            error: Some(error),
        },
        Ok(()) => PolicyReloadResult {
            success: true,
            policy_generation_id: current.next().as_u64(),
            error_code: None,
            error: None,
        },
    }
}

/// The policies in force, which others may replace.
#[derive(Debug)]
pub struct PolicyStore {
    current: PolicySnapshot,
}

impl PolicyStore {
    /// Which generation is in force.
    pub closed spec fn in_force(self) -> u64 {
        self.current.generation.value()
    }

    /// The settings in force.
    pub closed spec fn settings(self) -> PolicyConfig {
        self.current.config
    }

    /// That the runtime is the one of the settings.
    pub closed spec fn wf(self) -> bool {
        self.current.runtime@ == runtime_of(self.current.config)
    }

    /// A store that starts with some policies.
    pub fn new(config: PolicyConfig) -> (r: PolicyStore)
        ensures
            r.wf(),
            r.in_force() == 0,
            r.settings() == config,
    {
        PolicyStore { current: PolicySnapshot::new(PolicyGeneration::initial(), config) }
    }

    /// The policies in force.
    pub fn snapshot(&self) -> (r: &PolicySnapshot)
        requires
            self.wf(),
        ensures
            r.generation.value() == self.in_force(),
            r.config == self.settings(),
            r.runtime@ == runtime_of(self.settings()),
    {
        &self.current
    }

    /// The generation in force.
    pub fn generation(&self) -> (r: PolicyGeneration)
        ensures
            r.value() == self.in_force(),
    {
        self.current.generation
    }

    /// The settings in force.
    pub fn config(&self) -> (r: &PolicyConfig)
        ensures
            *r == self.settings(),
    {
        &self.current.config
    }

    /// The runtime in force.
    pub fn runtime(&self) -> (r: &PolicyRuntime)
        requires
            self.wf(),
        ensures
            r@ == runtime_of(self.settings()),
    {
        &self.current.runtime
    }

    /// The mode in force.
    pub fn policy_mode(&self) -> (r: PolicyMode)
        requires
            self.wf(),
        ensures
            r == self.settings().policy_mode,
    {
        self.runtime().policy_mode()
    }

    /// Replaces the policies, unless something is wrong with the new ones: the old ones then stay
    /// in force.
    pub fn reload(
        &mut self,
        next_config: PolicyConfig,
        active_routes: &Vec<String>,
        sharding_enabled: bool,
        active_shards: &Vec<String>,
    ) -> (r: PolicyReloadResult)
        requires
            old(self).wf(),
            old(self).in_force() < u64::MAX,
        ensures
            final(self).wf(),
            reload_result(
                r,
                old(self).in_force(),
                next_config.context_complaint(
                    texts(active_routes@),
                    sharding_enabled,
                    texts(active_shards@),
                ),
            ),
            final(self).in_force() == r.policy_generation_id,
            final(self).settings() == if r.success {
                next_config
            } else {
                old(self).settings()
            },
            r.success ==> final(self).in_force() == old(self).in_force() + 1 && final(self).settings()
                == next_config,
            !r.success ==> final(self).in_force() == old(self).in_force() && final(self).settings()
                == old(self).settings() && r.error is Some,
    {
        let current = self.current.generation;
        let result = check_reload(
            &next_config,
            current,
            active_routes,
            sharding_enabled,
            active_shards,
        );
        if result.success {
            self.current = PolicySnapshot::new(current.next(), next_config);
        }
        result
    }
}

impl Default for PolicyStore {
    fn default() -> (r: PolicyStore)
        ensures
            r.wf(),
            r.in_force() == 0,
            r.settings().is_default(),
    {
        PolicyStore::new(PolicyConfig::default())
    }
}

// ---------------------------------------------------------------------------
// Previews
// ---------------------------------------------------------------------------

/// What policies would do with a request.
#[derive(Clone, Debug, PartialEq, Eq)]
pub struct PolicyPreviewEvaluation {
    pub policy_mode: PolicyMode,
    pub action: PolicyAction,
    pub deny_reason: Option<String>,
    pub audit_event: PolicyAuditEvent,
}

/// Why policies cannot be tried.
#[derive(Clone, Debug, PartialEq, Eq)]
pub struct PolicyPreviewError {
    pub code: String,
    pub message: String,
}

impl PolicyPreviewError {
    /// An error with a code and a message.
    pub fn new(code: &str, message: &str) -> (r: PolicyPreviewError)
        ensures
            r.code@ == code@,
            r.message@ == message@,
    {
        PolicyPreviewError { code: code.to_owned(), message: message.to_owned() }
    }
}

/// The first rule for a moment in a request's life.
pub open spec fn selected_rule(
    rules: Seq<InlinePolicyConfig>,
    hook_point: PolicyHookPoint,
) -> Option<InlinePolicyConfig>
    decreases rules.len(),
{
    if rules.len() == 0 {
        None
    } else if rules[0].hook_point == hook_point {
        Some(rules[0])
    } else {
        selected_rule(rules.skip(1), hook_point)
    }
}

fn select_preview_rule(rules: &Vec<InlinePolicyConfig>, hook_point: PolicyHookPoint) -> (r: Option<
    &InlinePolicyConfig,
>)
    ensures
        match r {
            Some(rule) => selected_rule(rules@, hook_point) == Some(*rule),
            None => selected_rule(rules@, hook_point) is None,
        },
{
    let mut i: usize = 0;
    assert(rules@.skip(0) =~= rules@);
    while i < rules.len()
        invariant
            i <= rules@.len(),
            selected_rule(rules@, hook_point) == selected_rule(rules@.skip(i as int), hook_point),
        decreases rules@.len() - i,
    {
        assert(rules@.skip(i as int)[0] == rules@[i as int]);
        if rules[i].hook_point == hook_point {
            return Some(&rules[i]);
        }
        assert(rules@.skip(i as int).skip(1) =~= rules@.skip(i + 1));
        i += 1;
    }
    None
}

/// What a rule asks for.
pub open spec fn asked_action(action: InlinePolicyActionConfig) -> ActionFacts {
    match action {
        InlinePolicyActionConfig::Deny { reason } => ActionFacts::Deny,
        InlinePolicyActionConfig::RequirePrimary => ActionFacts::RequirePrimary,
        InlinePolicyActionConfig::RequireReplica => ActionFacts::RequireReplica,
        InlinePolicyActionConfig::RouteOverride { target_id } => ActionFacts::RouteOverride {
            target_id: target_id@,
        },
        InlinePolicyActionConfig::ShardOverride { target_id } => ActionFacts::ShardOverride {
            target_id: target_id@,
        },
        _ => ActionFacts::Allow,
    }
}

/// The reason that a rule gives for a refusal.
pub open spec fn refusal_reason(action: InlinePolicyActionConfig) -> Option<Seq<char>> {
    match action {
        InlinePolicyActionConfig::Deny { reason } => Some(reason@),
        _ => None,
    }
}

fn preview_action_from_rule(rule: &InlinePolicyConfig) -> (r: Result<
    (PolicyAction, Option<String>, String),
    PolicyPreviewError,
>)
    ensures
        match r {
            Ok((action, reason, policy_id)) => !(rule.action is Wasm) && action@ == asked_action(
                rule.action,
            ) && opt_text(reason) == refusal_reason(rule.action) && policy_id@ == rule.policy_id@,
            Err(error) => rule.action is Wasm && error.code@ == "invalid_policy_configuration"@
                && error.message@ == "policy preview does not support wasm policy module "@
                + rule.action->module_file@,
        },
{
    let policy_id = rule.policy_id.clone();
    let action = match &rule.action {
        InlinePolicyActionConfig::Allow => PolicyAction::Allow,
        InlinePolicyActionConfig::Deny { reason } => {
            return Ok((PolicyAction::Deny, Some(reason.clone()), policy_id));
        },
        InlinePolicyActionConfig::RequirePrimary => PolicyAction::RequirePrimary,
        InlinePolicyActionConfig::RequireReplica => PolicyAction::RequireReplica,
        InlinePolicyActionConfig::RouteOverride { target_id } => PolicyAction::RouteOverride {
            target_id: target_id.clone(),
        },
        InlinePolicyActionConfig::ShardOverride { target_id } => PolicyAction::ShardOverride {
            target_id: target_id.clone(),
        },
        InlinePolicyActionConfig::Wasm { module_file } => {
            return Err(
                PolicyPreviewError::new(
                    "invalid_policy_configuration",
                    join2(
                        "policy preview does not support wasm policy module ",
                        module_file.as_str(),
                    ).as_str(),
                ),
            );
        },
    };
    Ok((action, None, policy_id))
}

/// The route that a rule sends requests to.
pub open spec fn route_target(action: InlinePolicyActionConfig) -> Option<Seq<char>> {
    match action {
        InlinePolicyActionConfig::RouteOverride { target_id } => Some(target_id@),
        _ => None,
    }
}

/// The shard that a rule sends requests to.
pub open spec fn shard_target(action: InlinePolicyActionConfig) -> Option<Seq<char>> {
    match action {
        InlinePolicyActionConfig::ShardOverride { target_id } => Some(target_id@),
        _ => None,
    }
}

/// The routes that a preview takes to exist: the request's own, and every one that a rule names.
pub open spec fn preview_routes(rules: Seq<InlinePolicyConfig>, own: Option<String>) -> Seq<
    Seq<char>,
>
    decreases rules.len(),
{
    if rules.len() == 0 {
        match own {
            Some(route) => seq![route@],
            None => Seq::empty(),
        }
    } else {
        let earlier = preview_routes(rules.drop_last(), own);
        match route_target(rules.last().action) {
            Some(target) => earlier.push(target),
            None => earlier,
        }
    }
}

/// The shards that a preview takes to exist: the request's own, and every one that a rule names.
pub open spec fn preview_shards(rules: Seq<InlinePolicyConfig>, own: Option<String>) -> Seq<
    Seq<char>,
>
    decreases rules.len(),
{
    if rules.len() == 0 {
        match own {
            Some(shard) => seq![shard@],
            None => Seq::empty(),
        }
    } else {
        let earlier = preview_shards(rules.drop_last(), own);
        match shard_target(rules.last().action) {
            Some(target) => earlier.push(target),
            None => earlier,
        }
    }
}

fn synthetic_routes(rules: &Vec<InlinePolicyConfig>, own: &Option<String>) -> (r: Vec<String>)
    ensures
        texts(r@) == preview_routes(rules@, *own),
{
    let mut routes: Vec<String> = Vec::new();
    match own {
        Some(route) => {
            routes.push(route.clone());
        },
        None => {},
    }
    let mut i: usize = 0;
    assert(rules@.take(0) =~= Seq::empty());
    assert(texts(routes@) =~= preview_routes(Seq::empty(), *own));
    while i < rules.len()
        invariant
            i <= rules@.len(),
            texts(routes@) == preview_routes(rules@.take(i as int), *own),
        decreases rules@.len() - i,
    {
        assert(rules@.take(i + 1).drop_last() =~= rules@.take(i as int));
        match &rules[i].action {
            InlinePolicyActionConfig::RouteOverride { target_id } => {
                let target = target_id.clone();
                proof {
                    lemma_texts_push(routes@, target);
                }
                routes.push(target);
            },
            _ => {},
        }
        i += 1;
    }
    assert(rules@.take(i as int) =~= rules@);
    routes
}

fn synthetic_shards(rules: &Vec<InlinePolicyConfig>, own: &Option<String>) -> (r: Vec<String>)
    ensures
        texts(r@) == preview_shards(rules@, *own),
{
    let mut shards: Vec<String> = Vec::new();
    match own {
        Some(shard) => {
            shards.push(shard.clone());
        },
        None => {},
    }
    let mut i: usize = 0;
    assert(rules@.take(0) =~= Seq::empty());
    assert(texts(shards@) =~= preview_shards(Seq::empty(), *own));
    while i < rules.len()
        invariant
            i <= rules@.len(),
            texts(shards@) == preview_shards(rules@.take(i as int), *own),
        decreases rules@.len() - i,
    {
        assert(rules@.take(i + 1).drop_last() =~= rules@.take(i as int));
        match &rules[i].action {
            InlinePolicyActionConfig::ShardOverride { target_id } => {
                let target = target_id.clone();
                proof {
                    lemma_texts_push(shards@, target);
                }
                shards.push(target);
            },
            _ => {},
        }
        i += 1;
    }
    assert(rules@.take(i as int) =~= rules@);
    shards
}

/// Why policies cannot be tried, as a code and a message.
pub open spec fn preview_complaint(
    policy: PolicyConfig,
    sharding_enabled: bool,
    input: PolicyEvalInput,
) -> Option<(Seq<char>, Seq<char>)> {
    let found = policy.context_complaint(
        preview_routes(policy.inline_rules@, input.route),
        sharding_enabled,
        preview_shards(policy.inline_rules@, input.shard),
    );
    match found {
        Some(message) => Some((reload_code(message).name(), message)),
        None => match selected_rule(policy.inline_rules@, PolicyHookPoint::BeforeRouting) {
            Some(rule) => match rule.action {
                InlinePolicyActionConfig::Wasm { module_file } => Some(
                    (
                        "invalid_policy_configuration"@,
                        "policy preview does not support wasm policy module "@ + module_file@,
                    ),
                ),
                _ => None,
            },
            None => None,
        },
    }
}

/// Says what policies would do with a request, before it is routed, without doing it. Every route
/// and shard that a rule names is taken to exist.
pub fn preview_policy(policy: &PolicyConfig, sharding_enabled: bool, input: &PolicyEvalInput) -> (r:
    Result<PolicyPreviewEvaluation, PolicyPreviewError>)
    ensures
        match r {
            Err(error) => preview_complaint(*policy, sharding_enabled, *input) == Some(
                (error.code@, error.message@),
            ),
            Ok(evaluation) => {
                let rule = selected_rule(policy.inline_rules@, PolicyHookPoint::BeforeRouting);
                let event = evaluation.audit_event;
                &&& preview_complaint(*policy, sharding_enabled, *input) is None
                &&& evaluation.policy_mode == policy.policy_mode
                &&& match rule {
                    Some(rule) => evaluation.action@ == asked_action(rule.action) && opt_text(
                        evaluation.deny_reason,
                    ) == refusal_reason(rule.action) && event.policy_id@ == rule.policy_id@,
                    None => evaluation.action@ == ActionFacts::Allow && evaluation.deny_reason
                        is None && event.policy_id@ == "policy-preview"@,
                }
                &&& event.action@ == evaluation.action@
                &&& event.kind@ == "decision"@
                &&& event.policy_version == 1
                &&& event.reason is None
                &&& event.route is None
                &&& event.shard is None
                &&& event.target_role is None
                &&& event.outcome@ == "dry_run"@
                &&& event.hook_point == PolicyHookPoint::BeforeRouting
                &&& event.context@ == fitted_fields(
                    input.context_fields(),
                    policy.policy_max_context_bytes as nat,
                )
            },
        },
        r matches Ok(evaluation) ==> (evaluation.action is Deny <==> evaluation.deny_reason
            is Some),
        r matches Ok(evaluation) ==> evaluation.audit_event.action@ == evaluation.action@,
{
    let routes = synthetic_routes(&policy.inline_rules, &input.route);
    let shards = synthetic_shards(&policy.inline_rules, &input.shard);
    let checked = check_reload(
        policy,
        PolicyGeneration::initial(),
        &routes,
        sharding_enabled,
        &shards,
    );
    if !checked.success {
        let code = match checked.error_code {
            Some(code) => code.as_str(),
            None => "invalid_policy_configuration",
        };
        return Err(
            PolicyPreviewError::new(
                code,
                opt_or(&checked.error, "policy validation failed").as_str(),
            ),
        );
    }
    let runtime = PolicyRuntime::from_config(policy);
    let rule = select_preview_rule(&policy.inline_rules, PolicyHookPoint::BeforeRouting);
    let (action, deny_reason, policy_id) = match rule {
        Some(rule) => match preview_action_from_rule(rule) {
            Ok(asked) => asked,
            Err(error) => {
                return Err(error);
            },
        },
        None => (PolicyAction::Allow, None, "policy-preview".to_owned()),
    };
    let decision = PolicyDecision {
        policy_id,
        policy_version: 1,
        action: action.copied(),
        outcome: "dry_run".to_owned(),
        hook_point: PolicyHookPoint::BeforeRouting,
        elapsed: Duration::zero(),
    };
    let audit_event = runtime.build_audit_event_from_input("decision", decision, input);
    Ok(
        PolicyPreviewEvaluation {
            policy_mode: runtime.policy_mode(),
            action,
            deny_reason,
            audit_event,
        },
    )
}

proof fn lemma_preview_targets_known(
    rules: Seq<InlinePolicyConfig>,
    route: Option<String>,
    shard: Option<String>,
    i: int,
)
    requires
        0 <= i < rules.len(),
    ensures
        route_target(rules[i].action) is Some ==> preview_routes(rules, route).contains(
            route_target(rules[i].action)->0,
        ),
        shard_target(rules[i].action) is Some ==> preview_shards(rules, shard).contains(
            shard_target(rules[i].action)->0,
        ),
    decreases rules.len(),
{
    let routes = preview_routes(rules.drop_last(), route);
    let shards = preview_shards(rules.drop_last(), shard);
    let all_routes = preview_routes(rules, route);
    let all_shards = preview_shards(rules, shard);
    if i == rules.len() - 1 {
        if route_target(rules[i].action) is Some {
            assert(all_routes.last() == route_target(rules[i].action)->0);
        }
        if shard_target(rules[i].action) is Some {
            assert(all_shards.last() == shard_target(rules[i].action)->0);
        }
    } else {
        lemma_preview_targets_known(rules.drop_last(), route, shard, i);
        assert(rules.drop_last()[i] == rules[i]);
        if route_target(rules[i].action) is Some {
            let k = choose|k: int|
                0 <= k < routes.len() && routes[k] == route_target(rules[i].action)->0;
            assert(all_routes[k] == routes[k]);
        }
        if shard_target(rules[i].action) is Some {
            let k = choose|k: int|
                0 <= k < shards.len() && shards[k] == shard_target(rules[i].action)->0;
            assert(all_shards[k] == shards[k]);
        }
    }
}

proof fn lemma_no_override_complaint(
    rules: Seq<InlinePolicyConfig>,
    routes: Seq<Seq<char>>,
    sharding_enabled: bool,
    shards: Seq<Seq<char>>,
)
    requires
        forall|i: int|
            0 <= i < rules.len() ==> override_complaint(
                (#[trigger] rules[i]).action,
                routes,
                sharding_enabled,
                shards,
            ) is None,
    ensures
        overrides_complaint(rules, routes, sharding_enabled, shards) is None,
    decreases rules.len(),
{
    if rules.len() > 0 {
        assert forall|i: int| 0 <= i < rules.drop_last().len() implies override_complaint(
            (#[trigger] rules.drop_last()[i]).action,
            routes,
            sharding_enabled,
            shards,
        ) is None by {
            assert(rules.drop_last()[i] == rules[i]);
        }
        lemma_no_override_complaint(rules.drop_last(), routes, sharding_enabled, shards);
        assert(rules.last() == rules[rules.len() - 1]);
    }
}

proof fn lemma_no_wasm_rule(rules: Seq<InlinePolicyConfig>, wasm_enabled: bool, i: int)
    requires
        rules_complaint(rules, wasm_enabled) is None,
        0 <= i < rules.len(),
    ensures
        !(rules[i].action is Wasm),
    decreases rules.len(),
{
    if i < rules.len() - 1 {
        lemma_no_wasm_rule(rules.drop_last(), wasm_enabled, i);
    }
}

proof fn lemma_selected_is_a_rule(rules: Seq<InlinePolicyConfig>, hook_point: PolicyHookPoint)
    requires
        selected_rule(rules, hook_point) is Some,
    ensures
        exists|i: int|
            0 <= i < rules.len() && #[trigger] rules[i] == selected_rule(rules, hook_point)->0,
    decreases rules.len(),
{
    if rules[0].hook_point != hook_point {
        lemma_selected_is_a_rule(rules.skip(1), hook_point);
        let found = selected_rule(rules, hook_point)->0;
        let i = choose|i: int| 0 <= i < rules.skip(1).len() && #[trigger] rules.skip(1)[i] == found;
        assert(rules[i + 1] == found);
    }
}

/// A preview gives what the first rule for requests before their routing asks for, and nothing
/// else: an action that is previewed has the same variant as the rule's, with the same target, and
/// only a refusal gives a reason, which is the rule's own.
pub proof fn law_preview_gives_the_rules_action(
    rules: Seq<InlinePolicyConfig>,
    i: int,
    action: PolicyAction,
)
    requires
        0 <= i < rules.len(),
        rules[i].hook_point == PolicyHookPoint::BeforeRouting,
        forall|j: int|
            0 <= j < i ==> (#[trigger] rules[j]).hook_point != PolicyHookPoint::BeforeRouting,
        selected_rule(rules, PolicyHookPoint::BeforeRouting) matches Some(rule) ==> action@
            == asked_action(rule.action),
    ensures
        selected_rule(rules, PolicyHookPoint::BeforeRouting) == Some(rules[i]),
        match rules[i].action {
            InlinePolicyActionConfig::Allow => action is Allow && refusal_reason(rules[i].action)
                is None,
            InlinePolicyActionConfig::Deny { reason } => action is Deny && refusal_reason(
                rules[i].action,
            ) == Some(reason@),
            InlinePolicyActionConfig::RequirePrimary => action is RequirePrimary && refusal_reason(
                rules[i].action,
            ) is None,
            InlinePolicyActionConfig::RequireReplica => action is RequireReplica && refusal_reason(
                rules[i].action,
            ) is None,
            InlinePolicyActionConfig::RouteOverride { target_id } => action is RouteOverride
                && action->RouteOverride_target_id@ == target_id@ && refusal_reason(
                rules[i].action,
            ) is None,
            InlinePolicyActionConfig::ShardOverride { target_id } => action is ShardOverride
                && action->ShardOverride_target_id@ == target_id@ && refusal_reason(
                rules[i].action,
            ) is None,
            InlinePolicyActionConfig::Wasm { module_file } => true,
        },
    decreases rules.len(),
{
    if i > 0 {
        assert(rules[0].hook_point != PolicyHookPoint::BeforeRouting);
        let rest = rules.skip(1);
        assert(rest[i - 1] == rules[i]);
        assert forall|j: int| 0 <= j < i - 1 implies (#[trigger] rest[j]).hook_point
            != PolicyHookPoint::BeforeRouting by {
            assert(rest[j] == rules[j + 1]);
        }
        law_preview_gives_the_rules_action(rest, i - 1, action);
    }
}

/// Without a rule for requests before their routing, no rule is asked.
pub proof fn law_no_rule_no_action(rules: Seq<InlinePolicyConfig>, hook_point: PolicyHookPoint)
    ensures
        selected_rule(rules, hook_point) is None <==> forall|i: int|
            0 <= i < rules.len() ==> (#[trigger] rules[i]).hook_point != hook_point,
    decreases rules.len(),
{
    if rules.len() > 0 {
        let rest = rules.skip(1);
        law_no_rule_no_action(rest, hook_point);
        assert(forall|i: int| 0 <= i < rest.len() ==> (#[trigger] rest[i]) == rules[i + 1]);
        assert(forall|i: int|
            0 < i < rules.len() ==> (#[trigger] rules[i]) == rest[i - 1]);
    }
}

/// Policies can be tried on any request exactly where nothing is wrong with the rules by
/// themselves: a preview never fails for want of a route or a shard.
pub proof fn law_preview_takes_any_target(
    policy: PolicyConfig,
    sharding_enabled: bool,
    input: PolicyEvalInput,
)
    ensures
        preview_complaint(policy, sharding_enabled, input) is Some
            <==> policy.policy_complaint() is Some,
{
    let rules = policy.inline_rules@;
    let routes = preview_routes(rules, input.route);
    let shards = preview_shards(rules, input.shard);
    assert forall|i: int| 0 <= i < rules.len() implies override_complaint(
        (#[trigger] rules[i]).action,
        routes,
        sharding_enabled,
        shards,
    ) is None by {
        lemma_preview_targets_known(rules, input.route, input.shard, i);
    }
    lemma_no_override_complaint(rules, routes, sharding_enabled, shards);
    if policy.policy_complaint() is None {
        let rule = selected_rule(rules, PolicyHookPoint::BeforeRouting);
        if rule is Some {
            lemma_selected_is_a_rule(rules, PolicyHookPoint::BeforeRouting);
            let i = choose|i: int| 0 <= i < rules.len() && #[trigger] rules[i] == rule->0;
            lemma_no_wasm_rule(rules, policy.policy_wasm.policy_wasm_enabled, i);
        }
    }
}

/// A reload takes the rules over exactly where nothing is wrong with them; then their number is the
/// next one. Otherwise the number stays, and what is wrong is told under its code.
pub proof fn law_reload_takes_over_sound_rules(
    result: PolicyReloadResult,
    generation: u64,
    found: Option<Seq<char>>,
)
    requires
        reload_result(result, generation, found),
        generation < u64::MAX,
    ensures
        result.success <==> found is None,
        result.success ==> result.policy_generation_id == generation + 1 && result.error is None
            && result.error_code is None,
        !result.success ==> result.policy_generation_id == generation && opt_text(result.error)
            == found && result.error_code is Some,
{
}

/// Rules are sound by themselves exactly where every refusal gives a reason and none runs a module.
pub proof fn law_sound_rules(rules: Seq<InlinePolicyConfig>, wasm_enabled: bool)
    ensures
        rules_complaint(rules, wasm_enabled) is None <==> forall|i: int|
            0 <= i < rules.len() ==> !((#[trigger] rules[i]).action is Wasm) && (
            rules[i].action matches InlinePolicyActionConfig::Deny { reason }
                ==> !crate::text::is_blank(reason@)),
    decreases rules.len(),
{
    if rules.len() > 0 {
        let front = rules.drop_last();
        law_sound_rules(front, wasm_enabled);
        assert(forall|i: int| 0 <= i < front.len() ==> (#[trigger] front[i]) == rules[i]);
        assert(rules.last() == rules[rules.len() - 1]);
        if rules_complaint(rules, wasm_enabled) is None {
            assert forall|i: int| 0 <= i < rules.len() implies !((
            #[trigger] rules[i]).action is Wasm) && (
            rules[i].action matches InlinePolicyActionConfig::Deny { reason }
                ==> !crate::text::is_blank(reason@)) by {
                if i < front.len() {
                    assert(front[i] == rules[i]);
                }
            }
        }
    }
}

/// Rules fit the proxy's routes and shards exactly where each route that a rule sends requests to
/// exists, and each shard too where there are shards.
pub proof fn law_overrides_fit(
    rules: Seq<InlinePolicyConfig>,
    routes: Seq<Seq<char>>,
    sharding_enabled: bool,
    shards: Seq<Seq<char>>,
)
    ensures
        overrides_complaint(rules, routes, sharding_enabled, shards) is None <==> forall|i: int|
            0 <= i < rules.len() ==> ((
            #[trigger] rules[i]).action matches InlinePolicyActionConfig::RouteOverride { target_id }
                ==> routes.contains(target_id@)) && (
            rules[i].action matches InlinePolicyActionConfig::ShardOverride { target_id }
                ==> !sharding_enabled || shards.contains(target_id@)),
    decreases rules.len(),
{
    if rules.len() > 0 {
        let front = rules.drop_last();
        law_overrides_fit(front, routes, sharding_enabled, shards);
        assert(forall|i: int| 0 <= i < front.len() ==> (#[trigger] front[i]) == rules[i]);
        assert(rules.last() == rules[rules.len() - 1]);
        if overrides_complaint(rules, routes, sharding_enabled, shards) is None {
            assert forall|i: int| 0 <= i < rules.len() implies ((
            #[trigger] rules[i]).action matches InlinePolicyActionConfig::RouteOverride { target_id }
                ==> routes.contains(target_id@)) && (
            rules[i].action matches InlinePolicyActionConfig::ShardOverride { target_id }
                ==> !sharding_enabled || shards.contains(target_id@)) by {
                if i < front.len() {
                    assert(front[i] == rules[i]);
                }
            }
        }
    }
}

/// A plugin is fed exactly where its input is small enough and it asks for no files, no network and
/// no secrets; its output is taken exactly where it is small enough.
pub proof fn law_plugin_kept_within_limits(
    limits: LimitFacts,
    input: PolicyPluginInput,
    output: PolicyPluginOutput,
)
    ensures
        limits.input_complaint(input) is None <==> {
            &&& input.rendered_len_bytes <= limits.input
            &&& !input.requested_filesystem_access
            &&& !input.requested_network_access
            &&& !input.requested_secret_access
        },
        limits.output_complaint(output) is None <==> output.rendered_len_bytes <= limits.output,
        limits.input_complaint(input) is Some && limits.input_complaint(
            input,
        )->0 is FilesystemAccessDenied ==> input.requested_filesystem_access,
        limits.input_complaint(input) is Some && limits.input_complaint(
            input,
        )->0 is NetworkAccessDenied ==> input.requested_network_access,
        limits.input_complaint(input) is Some && limits.input_complaint(
            input,
        )->0 is SecretAccessDenied ==> input.requested_secret_access,
        limits.input_complaint(input) is Some && limits.input_complaint(input)->0 is InputTooLarge
            ==> input.rendered_len_bytes > limits.input,
{
}

/// What a plugin asks for is taken exactly where a rule might ask for the same: a refusal with a
/// reason, a route that exists, a shard that exists where there are shards, or a plain action.
pub proof fn law_plugin_action_taken_exactly_where(
    action: PolicyPluginAction,
    routes: Seq<Seq<char>>,
    sharding_enabled: bool,
    shards: Seq<Seq<char>>,
)
    ensures
        plugin_action_complaint(action, routes, sharding_enabled, shards) is None <==> match action {
            PolicyPluginAction::Allow => true,
            PolicyPluginAction::RequirePrimary => true,
            PolicyPluginAction::RequireReplica => true,
            PolicyPluginAction::Deny { reason } => !crate::text::is_blank(reason@),
            PolicyPluginAction::RouteOverride { target_id } => routes.contains(target_id@),
            PolicyPluginAction::ShardOverride { target_id } => !sharding_enabled || shards.contains(
                target_id@,
            ),
            PolicyPluginAction::Unsupported { name } => false,
        },
{
}

/// A plugin's action becomes the rule's action of the same kind, and of no other.
pub proof fn law_plugin_action_keeps_its_kind(
    action: PolicyPluginAction,
    inline: InlinePolicyActionConfig,
)
    requires
        inline_action(action, inline),
    ensures
        action is Allow <==> inline is Allow,
        action is Deny <==> inline is Deny,
        action is RequirePrimary <==> inline is RequirePrimary,
        action is RequireReplica <==> inline is RequireReplica,
        action is RouteOverride <==> inline is RouteOverride,
        action is ShardOverride <==> inline is ShardOverride,
        !(inline is Wasm),
        action is RouteOverride ==> action->RouteOverride_target_id@
            == inline->RouteOverride_target_id@,
        action is ShardOverride ==> action->ShardOverride_target_id@
            == inline->ShardOverride_target_id@,
        action is Deny ==> action->reason@ == inline->reason@,
{
}

/// An event is kept exactly where events are kept and it falls into the sample: all of them at a
/// share of one, none at zero.
pub proof fn law_events_sampled(config: PolicyConfig, below: bool)
    ensures
        ({
            let runtime = runtime_of(config);
            let bits = config.policy_audit.policy_audit_sample_rate.bits;
            let on = config.policy_audit.policy_audit_enabled;
            &&& !on ==> !runtime.samples(below)
            &&& on && 0x3ff0_0000_0000_0000 <= bits <= 0x7ff0_0000_0000_0000 ==> runtime.samples(
                below,
            )
            &&& on && 0 < bits < 0x3ff0_0000_0000_0000 ==> runtime.samples(below) == below
            &&& bits == 0 || bits > 0x7ff0_0000_0000_0000 ==> !runtime.samples(below)
        }),
{
}

/// A runtime is that of its settings: each of its bounds and switches is the one that they name.
pub proof fn law_runtime_follows_settings(config: PolicyConfig)
    ensures
        runtime_of(config).timeout == config.policy_eval_timeout_ms * 1_000_000,
        runtime_of(config).max_context_bytes == config.policy_max_context_bytes,
        runtime_of(config).mode == config.policy_mode,
        runtime_of(config).audit_enabled == config.policy_audit.policy_audit_enabled,
        runtime_of(config).wasm_enabled == config.policy_wasm.policy_wasm_enabled,
{
}

/// What a policy sees of a request: who makes it, where it goes and what it does, each under its
/// name. Of passwords, values, certificates, statements and secrets it sees only that there are
/// any.
pub proof fn law_context_tells_the_request(input: PolicyEvalInput)
    ensures
        ({
            let fields = input.context_fields();
            &&& fields.len() >= 9
            &&& fields[0] == field("database"@, input.database@)
            &&& fields[1] == field("user"@, input.user@)
            &&& fields[2].name == "application_name"@ && (
            input.application_name matches Some(name) ==> fields[2].value == name@)
            &&& fields[3].name == "route"@ && (input.route matches Some(route) ==> fields[3].value
                == route@)
            &&& fields[4].name == "shard"@ && (input.shard matches Some(shard) ==> fields[4].value
                == shard@)
            &&& fields[5] == field("backend_role"@, input.backend_role.name())
            &&& fields[6] == field("query_class"@, input.query_class@)
            &&& fields[7] == field("transaction_mode"@, input.transaction_mode.name())
            &&& fields[8] == field("freshness_state"@, input.freshness_state.name())
            &&& input.is_sensitive() ==> fields.last() == field("sensitive_inputs"@, "<redacted>"@)
            &&& input.is_sensitive() <==> input.password is Some || input.bind_values@.len() > 0
                || input.tls_certificate_body is Some || input.raw_sql_text is Some
                || input.secrets@.len() > 0
        }),
{
    let head = seq![
        field("database"@, input.database@),
        field("user"@, input.user@),
        field("application_name"@, text_or(input.application_name, "<none>"@)),
        field("route"@, text_or(input.route, "<none>"@)),
        field("shard"@, text_or(input.shard, "<none>"@)),
        field("backend_role"@, input.backend_role.name()),
        field("query_class"@, input.query_class@),
        field("transaction_mode"@, input.transaction_mode.name()),
        field("freshness_state"@, input.freshness_state.name()),
    ];
    let fields = input.context_fields();
    assert(head.len() == 9);
    assert(forall|i: int| 0 <= i < 9 ==> fields[i] == head[i]);
}

/// Where the rules come from: nowhere, files alone, rules without modules alone, or anything else.
pub proof fn law_source_of_rules(config: PolicyConfig)
    ensures
        config.policy_files@.len() == 0 && config.inline_rules@.len() == 0 ==> source_label(config)
            == "disabled"@,
        config.policy_files@.len() > 0 && config.inline_rules@.len() == 0 ==> source_label(config)
            == "file"@,
        config.policy_files@.len() > 0 && config.inline_rules@.len() > 0 ==> source_label(config)
            == "mixed"@,
        config.policy_files@.len() == 0 && config.inline_rules@.len() > 0 && (forall|i: int|
            0 <= i < config.inline_rules@.len() ==> !((
            #[trigger] config.inline_rules@[i]).action is Wasm)) ==> source_label(config)
            == "inline"@,
        config.policy_files@.len() == 0 && (exists|i: int|
            0 <= i < config.inline_rules@.len() && (
            #[trigger] config.inline_rules@[i]).action is Wasm) ==> source_label(config)
            == "mixed"@,
{
}

} // verus!
