//! Product-level assistant capability routing: which configured
//! integration answers a capability in a conversation, and when the user
//! has to choose. No transport or provider operation is named here.

use vstd::prelude::*;
use crate::json::{Json, JsonV, empty_object};
use crate::text::{str_eq, chars_of};
use crate::integration_domain::{
    CapabilityId, IntegrationInstance, IntegrationInstanceId, IntegrationManagement, IntegrationStatus,
};

verus! {

/// The identity of a conversation.
#[derive(Debug, Clone, PartialEq, Eq)]
pub struct ConversationId(pub String);

/// How much a capability can affect the user's data.
#[derive(Debug, Clone, Copy, PartialEq, Eq, Structural)]
pub enum CapabilityRisk {
    ReadOnly,
    SensitiveRead,
    ExternalMutation,
    Privileged,
}

/// Whether a capability searches or reads one item.
#[derive(Debug, Clone, Copy, PartialEq, Eq, Structural)]
pub enum CapabilityInvocationMode {
    Search,
    Read,
}

/// A capability that the assistant can use.
#[derive(Debug)]
pub struct AssistantCapabilityDefinition {
    pub id: CapabilityId,
    pub description: String,
    pub input_schema: Json,
    pub risk: CapabilityRisk,
    pub invocation_mode: CapabilityInvocationMode,
}

/// The input of a capability call: a JSON object of values.
#[derive(Debug)]
pub struct CapabilityInvocationInput {
    pub values: Json,
}

/// What a capability call gave.
#[derive(Debug)]
pub enum CapabilityInvocationResult {
    SearchResults { items: Vec<Json>, continuation: Option<String> },
    Resource { item: Json },
    ActionPrepared,
    Completed,
}

/// Where a capability result came from. Times are milliseconds since the
/// Unix epoch.
#[derive(Debug, Clone, PartialEq, Eq)]
pub struct CapabilityResultProvenance {
    pub instance_id: IntegrationInstanceId,
    pub integration_label: String,
    pub capability_id: CapabilityId,
    pub retrieved_at: i64,
}

/// The route to the integration that answers a capability; the revision
/// is the instance's update time when the route was chosen.
#[derive(Debug, Clone, PartialEq, Eq)]
pub struct CapabilityRoute {
    pub instance_id: IntegrationInstanceId,
    pub integration_label: String,
    pub capability_id: CapabilityId,
    pub revision: i64,
}

/// What routing a capability gives.
#[derive(Debug, Clone, PartialEq, Eq)]
pub enum CapabilityRoutingOutcome {
    Selected { route: CapabilityRoute },
    ClarificationRequired { clarification: CapabilityClarification },
    Unavailable,
}

/// A question to the user: which integration to use.
#[derive(Debug, Clone, PartialEq, Eq)]
pub struct CapabilityClarification {
    pub request_id: String,
    pub prompt: String,
    pub choices: Vec<CapabilityRouteChoice>,
}

/// One answer to a clarification.
#[derive(Debug, Clone, PartialEq, Eq)]
pub struct CapabilityRouteChoice {
    pub instance_id: IntegrationInstanceId,
    pub label: String,
    pub description: String,
}

/// Why a capability could not be routed or called.
#[derive(Debug, Clone, Copy, PartialEq, Eq, Structural)]
pub enum CapabilityRoutingError {
    UnknownCapability,
    InvalidInput,
    InstanceUnavailable,
    StaleRoute,
    InvocationFailed,
}

// ── Registry ──────────────────────────────────────────────────────────────

/// The curated capabilities: id, description and mode, in order; all are
/// read-only and take a JSON object.
pub open spec fn curated_entries() -> Seq<(Seq<char>, Seq<char>, CapabilityInvocationMode)> {
    seq![
        ("issue.search"@, "Search issues"@, CapabilityInvocationMode::Search),
        ("issue.read"@, "Read an issue"@, CapabilityInvocationMode::Read),
        ("mail.search"@, "Search mail"@, CapabilityInvocationMode::Search),
        ("mail.read"@, "Read a mail message"@, CapabilityInvocationMode::Read),
        ("documentation.search"@, "Search documentation"@, CapabilityInvocationMode::Search),
        ("documentation.read"@, "Read documentation"@, CapabilityInvocationMode::Read),
    ]
}

/// The object schema `{"type": "object"}`.
pub open spec fn object_schema() -> JsonV {
    JsonV::Object(seq![("type"@, JsonV::Str("object"@))])
}

/// True when `d` is the curated capability `e`.
pub open spec fn is_curated(d: AssistantCapabilityDefinition, e: (Seq<char>, Seq<char>, CapabilityInvocationMode)) -> bool {
    &&& d.id.0@ == e.0
    &&& d.description@ == e.1
    &&& d.input_schema@ == object_schema()
    &&& d.risk == CapabilityRisk::ReadOnly
    &&& d.invocation_mode == e.2
}

/// The curated capability with that id.
pub open spec fn curated_index(id: Seq<char>) -> Option<int> {
    if id == "issue.search"@ {
        Some(0)
    } else if id == "issue.read"@ {
        Some(1)
    } else if id == "mail.search"@ {
        Some(2)
    } else if id == "mail.read"@ {
        Some(3)
    } else if id == "documentation.search"@ {
        Some(4)
    } else if id == "documentation.read"@ {
        Some(5)
    } else {
        None
    }
}

fn object_schema_json() -> (r: Json)
    ensures
        r@ == object_schema(),
{
    let mut es: Vec<(String, Json)> = Vec::new();
    crate::json::push_entry(&mut es, "type", crate::json::jstr("object"));
    assert(crate::json::view_entries(es@) =~= seq![("type"@, JsonV::Str("object"@))]);
    crate::json::jobj(es)
}

fn curated_definition(id: &str, description: &str, mode: CapabilityInvocationMode) -> (r: AssistantCapabilityDefinition)
    ensures
        is_curated(r, (id@, description@, mode)),
{
    AssistantCapabilityDefinition {
        id: CapabilityId(id.to_owned()),
        description: description.to_owned(),
        input_schema: object_schema_json(),
        risk: CapabilityRisk::ReadOnly,
        invocation_mode: mode,
    }
}

/// The registry of the curated capabilities.
pub struct StaticCapabilityRegistry;

impl StaticCapabilityRegistry {
    /// The curated capabilities, in order (see `curated_entries`).
    pub fn curated() -> (r: Vec<AssistantCapabilityDefinition>)
        ensures
            r@.len() == curated_entries().len(),
            forall|i: int| 0 <= i < r@.len() ==> is_curated(#[trigger] r@[i], curated_entries()[i]),
    {
        let mut v: Vec<AssistantCapabilityDefinition> = Vec::new();
        v.push(curated_definition("issue.search", "Search issues", CapabilityInvocationMode::Search));
        v.push(curated_definition("issue.read", "Read an issue", CapabilityInvocationMode::Read));
        v.push(curated_definition("mail.search", "Search mail", CapabilityInvocationMode::Search));
        v.push(curated_definition("mail.read", "Read a mail message", CapabilityInvocationMode::Read));
        v.push(curated_definition("documentation.search", "Search documentation", CapabilityInvocationMode::Search));
        v.push(curated_definition("documentation.read", "Read documentation", CapabilityInvocationMode::Read));
        v
    }

    /// The curated capability with that id.
    pub fn get(&self, id: &CapabilityId) -> (r: Option<AssistantCapabilityDefinition>)
        ensures
            match curated_index(id.0@) {
                Some(k) => r matches Some(d) && is_curated(d, curated_entries()[k]),
                None => r is None,
            },
    {
        let s = id.0.as_str();
        if str_eq(s, "issue.search") {
            Some(curated_definition("issue.search", "Search issues", CapabilityInvocationMode::Search))
        } else if str_eq(s, "issue.read") {
            Some(curated_definition("issue.read", "Read an issue", CapabilityInvocationMode::Read))
        } else if str_eq(s, "mail.search") {
            Some(curated_definition("mail.search", "Search mail", CapabilityInvocationMode::Search))
        } else if str_eq(s, "mail.read") {
            Some(curated_definition("mail.read", "Read a mail message", CapabilityInvocationMode::Read))
        } else if str_eq(s, "documentation.search") {
            Some(curated_definition("documentation.search", "Search documentation", CapabilityInvocationMode::Search))
        } else if str_eq(s, "documentation.read") {
            Some(curated_definition("documentation.read", "Read documentation", CapabilityInvocationMode::Read))
        } else {
            None
        }
    }

    /// All curated capabilities.
    pub fn list(&self) -> (r: Vec<AssistantCapabilityDefinition>)
        ensures
            r@.len() == curated_entries().len(),
            forall|i: int| 0 <= i < r@.len() ==> is_curated(#[trigger] r@[i], curated_entries()[i]),
    {
        Self::curated()
    }
}

// ── Policy and eligibility ────────────────────────────────────────────────

/// The default policy: read-only and sensitive-read capabilities, and for
/// non-administrators no administrator-managed instances.
pub open spec fn policy_allows(risk: CapabilityRisk, management: IntegrationManagement, is_admin: bool) -> bool {
    (risk == CapabilityRisk::ReadOnly || risk == CapabilityRisk::SensitiveRead) && (is_admin || management
        != IntegrationManagement::AdministratorManaged)
}

/// The routing policy of the product.
pub struct DefaultRoutingPolicy;

impl DefaultRoutingPolicy {
    /// Whether the capability may be routed to the instance (see
    /// `policy_allows`).
    pub fn allows(&self, definition: &AssistantCapabilityDefinition, instance: &IntegrationInstance, is_admin: bool) -> (r: bool)
        ensures
            r == policy_allows(definition.risk, instance.management, is_admin),
    {
        let risk_ok = match definition.risk {
            CapabilityRisk::ReadOnly | CapabilityRisk::SensitiveRead => true,
            _ => false,
        };
        let managed_ok = match instance.management {
            IntegrationManagement::AdministratorManaged => false,
            _ => true,
        };
        risk_ok && (is_admin || managed_ok)
    }
}

/// The configured capability that a curated capability is answered by:
/// the legacy read capability of the same domain.
pub open spec fn legacy_read(cap: Seq<char>) -> Option<Seq<char>> {
    if cap == "issue.search"@ || cap == "issue.read"@ {
        Some("issue.read"@)
    } else if cap == "mail.search"@ || cap == "mail.read"@ {
        Some("email.read"@)
    } else if cap == "documentation.search"@ || cap == "documentation.read"@ {
        Some("page.read"@)
    } else {
        None
    }
}

/// Whether an instance has the capability configured that answers `cap`.
pub open spec fn supports(inst: IntegrationInstance, cap: Seq<char>) -> bool {
    match legacy_read(cap) {
        Some(l) => exists|i: int| 0 <= i < inst.configured_capabilities@.len()
            && #[trigger] inst.configured_capabilities@[i].0@ == l,
        None => false,
    }
}

/// Whether an instance answers a capability: it supports it, is enabled,
/// is allowed by the policy, and is ready or degraded.
pub open spec fn eligible(inst: IntegrationInstance, cap: Seq<char>, risk: CapabilityRisk, is_admin: bool) -> bool {
    &&& supports(inst, cap)
    &&& inst.enabled
    &&& policy_allows(risk, inst.management, is_admin)
    &&& (inst.status is Ready || inst.status is Degraded)
}

/// Whether an instance has the capability configured that answers
/// `capability` (see `supports`).
pub fn supports_capability(instance: &IntegrationInstance, capability: &CapabilityId) -> (r: bool)
    ensures
        r == supports(*instance, capability.0@),
{
    let c = capability.0.as_str();
    let legacy = if str_eq(c, "issue.search") || str_eq(c, "issue.read") {
        "issue.read"
    } else if str_eq(c, "mail.search") || str_eq(c, "mail.read") {
        "email.read"
    } else if str_eq(c, "documentation.search") || str_eq(c, "documentation.read") {
        "page.read"
    } else {
        return false;
    };
    let caps = &instance.configured_capabilities;
    let mut i: usize = 0;
    while i < caps.len()
        invariant
            i <= caps@.len(),
            *caps == instance.configured_capabilities,
            legacy_read(capability.0@) == Some(legacy@),
            forall|k: int| 0 <= k < i ==> caps@[k].0@ != legacy@,
        decreases caps@.len() - i,
    {
        if str_eq(caps[i].0.as_str(), legacy) {
            assert(caps@[i as int].0@ == legacy@);
            return true;
        }
        i = i + 1;
    }
    false
}

/// Whether the input is a JSON object.
pub fn validate_input(input: &CapabilityInvocationInput) -> (r: Result<(), CapabilityRoutingError>)
    ensures
        r == (if input.values@ is Object {
            Ok::<(), CapabilityRoutingError>(())
        } else {
            Err(CapabilityRoutingError::InvalidInput)
        }),
{
    if input.values.is_object() {
        Ok(())
    } else {
        Err(CapabilityRoutingError::InvalidInput)
    }
}

// ── Routing preferences ───────────────────────────────────────────────────

/// The instance chosen for a capability in a conversation, per pair; no
/// pair occurs twice.
pub struct CapabilityRoutingPreference {
    values: Vec<(ConversationId, CapabilityId, IntegrationInstanceId)>,
}

/// The keys of preference entries.
pub open spec fn pref_key(e: (ConversationId, CapabilityId, IntegrationInstanceId)) -> (Seq<char>, Seq<char>) {
    (e.0.0@, e.1.0@)
}

impl CapabilityRoutingPreference {
    /// No key occurs twice.
    pub closed spec fn wf(&self) -> bool {
        forall|i: int, j: int|
            0 <= i < j < self.values@.len() ==> pref_key(#[trigger] self.values@[i]) != pref_key(#[trigger] self.values@[j])
    }

    /// The chosen instance per (conversation, capability).
    pub closed spec fn view_map(&self) -> Map<(Seq<char>, Seq<char>), Seq<char>> {
        Map::new(
            |k: (Seq<char>, Seq<char>)| exists|i: int| 0 <= i < self.values@.len() && pref_key(#[trigger] self.values@[i]) == k,
            |k: (Seq<char>, Seq<char>)| {
                let i = choose|i: int| 0 <= i < self.values@.len() && pref_key(#[trigger] self.values@[i]) == k;
                self.values@[i].2.0@
            },
        )
    }

    /// No choices.
    pub fn new() -> (r: Self)
        ensures
            r.wf(),
            r.view_map() == Map::<(Seq<char>, Seq<char>), Seq<char>>::empty(),
    {
        let r = CapabilityRoutingPreference { values: Vec::new() };
        assert(r.view_map() =~= Map::<(Seq<char>, Seq<char>), Seq<char>>::empty());
        r
    }

    fn position(&self, conversation_id: &ConversationId, capability_id: &CapabilityId) -> (r: Option<usize>)
        ensures
            match r {
                Some(i) => i < self.values@.len() && pref_key(self.values@[i as int]) == (conversation_id.0@, capability_id.0@),
                None => forall|i: int| 0 <= i < self.values@.len() ==> pref_key(#[trigger] self.values@[i]) != (
                    conversation_id.0@,
                    capability_id.0@,
                ),
            },
    {
        let mut i: usize = 0;
        while i < self.values.len()
            invariant
                i <= self.values@.len(),
                forall|k: int| 0 <= k < i ==> pref_key(#[trigger] self.values@[k]) != (conversation_id.0@, capability_id.0@),
            decreases self.values@.len() - i,
        {
            if str_eq(self.values[i].0.0.as_str(), conversation_id.0.as_str()) && str_eq(
                self.values[i].1.0.as_str(),
                capability_id.0.as_str(),
            ) {
                return Some(i);
            }
            i = i + 1;
        }
        None
    }

    /// The instance chosen for the capability in the conversation.
    pub fn get(&self, conversation_id: &ConversationId, capability_id: &CapabilityId) -> (r: Option<IntegrationInstanceId>)
        requires
            self.wf(),
        ensures
            match r {
                Some(id) => self.view_map().contains_key((conversation_id.0@, capability_id.0@)) && self.view_map()[(
                    conversation_id.0@,
                    capability_id.0@,
                )] == id.0@,
                None => !self.view_map().contains_key((conversation_id.0@, capability_id.0@)),
            },
    {
        match self.position(conversation_id, capability_id) {
            Some(i) => {
                let ghost k = (conversation_id.0@, capability_id.0@);
                assert(self.view_map().contains_key(k));
                let ghost j = choose|j: int| 0 <= j < self.values@.len() && pref_key(#[trigger] self.values@[j]) == k;
                assert(j == i) by {
                    if j < i {
                        assert(pref_key(self.values@[j]) != pref_key(self.values@[i as int]));
                    } else if j > i {
                        assert(pref_key(self.values@[i as int]) != pref_key(self.values@[j]));
                    }
                }
                Some(IntegrationInstanceId(self.values[i].2.0.as_str().to_owned()))
            },
            None => None,
        }
    }

    /// Records the instance chosen for the capability in the conversation.
    pub fn set(&mut self, conversation_id: ConversationId, capability_id: CapabilityId, instance_id: IntegrationInstanceId)
        requires
            old(self).wf(),
        ensures
            final(self).wf(),
            final(self).view_map() == old(self).view_map().insert((conversation_id.0@, capability_id.0@), instance_id.0@),
    {
        let ghost k = (conversation_id.0@, capability_id.0@);
        let ghost v = instance_id.0@;
        let ghost before = self.values@;
        match self.position(&conversation_id, &capability_id) {
            Some(i) => {
                self.values.set(i, (conversation_id, capability_id, instance_id));
                assert forall|a: int, b: int| 0 <= a < b < self.values@.len() implies pref_key(#[trigger] self.values@[a])
                    != pref_key(#[trigger] self.values@[b]) by {
                    assert(pref_key(self.values@[a]) == pref_key(before[a]));
                    assert(pref_key(self.values@[b]) == pref_key(before[b]));
                }
                assert forall|key: (Seq<char>, Seq<char>)| #[trigger] self.view_map().contains_key(key) == old(self).view_map().insert(k, v).contains_key(key) by {
                    if key == k {
                        assert(pref_key(self.values@[i as int]) == k);
                    }
                    if old(self).view_map().insert(k, v).contains_key(key) && key != k {
                        let w = choose|w: int| 0 <= w < before.len() && pref_key(#[trigger] before[w]) == key;
                        assert(pref_key(self.values@[w]) == key);
                    }
                    if self.view_map().contains_key(key) {
                        let w = choose|w: int| 0 <= w < self.values@.len() && pref_key(#[trigger] self.values@[w]) == key;
                        assert(pref_key(before[w]) == key);
                    }
                }
                assert forall|key: (Seq<char>, Seq<char>)| #[trigger] self.view_map().contains_key(key) implies self.view_map()[key]
                    == old(self).view_map().insert(k, v)[key] by {
                    let w = choose|w: int| 0 <= w < self.values@.len() && pref_key(#[trigger] self.values@[w]) == key;
                    if key == k {
                        assert(w == i) by {
                            if w != i as int {
                                if w < i {
                                    assert(pref_key(self.values@[w]) != pref_key(self.values@[i as int]));
                                } else {
                                    assert(pref_key(self.values@[i as int]) != pref_key(self.values@[w]));
                                }
                            }
                        }
                    } else {
                        assert(pref_key(before[w]) == key);
                        assert(old(self).view_map().contains_key(key));
                        let w2 = choose|w2: int| 0 <= w2 < before.len() && pref_key(#[trigger] before[w2]) == key;
                        assert(w2 == w) by {
                            if w2 < w {
                                assert(pref_key(before[w2]) != pref_key(before[w]));
                            } else if w2 > w {
                                assert(pref_key(before[w]) != pref_key(before[w2]));
                            }
                        }
                    }
                }
                assert(self.view_map() =~= old(self).view_map().insert(k, v));
            },
            None => {
                self.values.push((conversation_id, capability_id, instance_id));
                let ghost n = before.len() as int;
                assert forall|key: (Seq<char>, Seq<char>)| #[trigger] self.view_map().contains_key(key) == old(self).view_map().insert(k, v).contains_key(key) by {
                    if old(self).view_map().insert(k, v).contains_key(key) {
                        if key == k {
                            assert(pref_key(self.values@[n]) == key);
                        } else {
                            let w = choose|w: int| 0 <= w < before.len() && pref_key(#[trigger] before[w]) == key;
                            assert(pref_key(self.values@[w]) == key);
                        }
                    }
                    if self.view_map().contains_key(key) {
                        let w = choose|w: int| 0 <= w < self.values@.len() && pref_key(#[trigger] self.values@[w]) == key;
                        if w < n {
                            assert(pref_key(before[w]) == key);
                        }
                    }
                }
                assert forall|key: (Seq<char>, Seq<char>)| #[trigger] self.view_map().contains_key(key) implies self.view_map()[key]
                    == old(self).view_map().insert(k, v)[key] by {
                    let w = choose|w: int| 0 <= w < self.values@.len() && pref_key(#[trigger] self.values@[w]) == key;
                    if key == k {
                        if w < n {
                            assert(pref_key(before[w]) == k);
                        }
                    } else {
                        assert(w < n);
                        assert(pref_key(before[w]) == key);
                        let w2 = choose|w2: int| 0 <= w2 < before.len() && pref_key(#[trigger] before[w2]) == key;
                        assert(w2 == w) by {
                            if w2 < w {
                                assert(pref_key(before[w2]) != pref_key(before[w]));
                            } else if w2 > w {
                                assert(pref_key(before[w]) != pref_key(before[w2]));
                            }
                        }
                    }
                }
                assert(self.view_map() =~= old(self).view_map().insert(k, v));
            },
        }
    }

    /// Forgets the instance chosen for the capability in the conversation.
    pub fn clear(&mut self, conversation_id: &ConversationId, capability_id: &CapabilityId)
        requires
            old(self).wf(),
        ensures
            final(self).wf(),
            final(self).view_map() == old(self).view_map().remove((conversation_id.0@, capability_id.0@)),
    {
        let ghost k = (conversation_id.0@, capability_id.0@);
        let ghost before = self.values@;
        match self.position(conversation_id, capability_id) {
            Some(i) => {
                self.values.remove(i);
                let ghost after = self.values@;
                assert(after =~= before.remove(i as int));
                assert forall|a: int, b: int| 0 <= a < b < after.len() implies pref_key(#[trigger] after[a])
                    != pref_key(#[trigger] after[b]) by {
                    let a0 = if a < i { a } else { a + 1 };
                    let b0 = if b < i { b } else { b + 1 };
                    assert(after[a] == before[a0]);
                    assert(after[b] == before[b0]);
                }
                assert forall|key: (Seq<char>, Seq<char>)| #[trigger] self.view_map().contains_key(key) == old(self).view_map().remove(k).contains_key(key) by {
                    if old(self).view_map().remove(k).contains_key(key) {
                        let w = choose|w: int| 0 <= w < before.len() && pref_key(#[trigger] before[w]) == key;
                        assert(w != i);
                        let w1 = if w < i { w } else { w - 1 };
                        assert(after[w1] == before[w]);
                    }
                    if self.view_map().contains_key(key) {
                        let w = choose|w: int| 0 <= w < after.len() && pref_key(#[trigger] after[w]) == key;
                        let w0 = if w < i { w } else { w + 1 };
                        assert(after[w] == before[w0]);
                        assert(key != k) by {
                            if key == k {
                                if w0 < i {
                                    assert(pref_key(before[w0]) != pref_key(before[i as int]));
                                } else {
                                    assert(pref_key(before[i as int]) != pref_key(before[w0]));
                                }
                            }
                        }
                    }
                }
                assert forall|key: (Seq<char>, Seq<char>)| #[trigger] self.view_map().contains_key(key) implies self.view_map()[key]
                    == old(self).view_map().remove(k)[key] by {
                    let w = choose|w: int| 0 <= w < after.len() && pref_key(#[trigger] after[w]) == key;
                    let w0 = if w < i { w } else { w + 1 };
                    assert(after[w] == before[w0]);
                    assert(pref_key(before[w0]) == key);
                    let w2 = choose|w2: int| 0 <= w2 < before.len() && pref_key(#[trigger] before[w2]) == key;
                    assert(w2 == w0) by {
                        if w2 < w0 {
                            assert(pref_key(before[w2]) != pref_key(before[w0]));
                        } else if w2 > w0 {
                            assert(pref_key(before[w0]) != pref_key(before[w2]));
                        }
                    }
                }
                assert(self.view_map() =~= old(self).view_map().remove(k));
            },
            None => {
                assert(self.view_map() =~= old(self).view_map().remove(k));
            },
        }
    }
}

// ── Candidates ────────────────────────────────────────────────────────────

/// Lexicographic order of texts by code point (the order of their UTF-8
/// bytes).
pub open spec fn label_le(a: Seq<char>, b: Seq<char>) -> bool
    decreases a.len(),
{
    if a.len() == 0 {
        true
    } else if b.len() == 0 {
        false
    } else if (a[0] as u32) < (b[0] as u32) {
        true
    } else if (a[0] as u32) > (b[0] as u32) {
        false
    } else {
        label_le(a.drop_first(), b.drop_first())
    }
}

/// Whether text `a` comes before or equals text `b` (see `label_le`).
pub fn label_le_exec(a: &str, b: &str) -> (r: bool)
    ensures
        r == label_le(a@, b@),
{
    let x = chars_of(a);
    let y = chars_of(b);
    let mut i: usize = 0;
    assert(a@.skip(0) =~= a@);
    assert(b@.skip(0) =~= b@);
    while i < x.len() && i < y.len()
        invariant
            i <= x@.len(),
            i <= y@.len(),
            x@ == a@,
            y@ == b@,
            label_le(a@, b@) == label_le(a@.skip(i as int), b@.skip(i as int)),
        decreases x@.len() - i,
    {
        assert(a@.skip(i as int)[0] == x@[i as int]);
        assert(b@.skip(i as int)[0] == y@[i as int]);
        if (x[i] as u32) < (y[i] as u32) {
            return true;
        }
        if (x[i] as u32) > (y[i] as u32) {
            return false;
        }
        assert(a@.skip(i as int).drop_first() =~= a@.skip(i + 1));
        assert(b@.skip(i as int).drop_first() =~= b@.skip(i + 1));
        i = i + 1;
    }
    if i == x.len() {
        assert(a@.skip(i as int).len() == 0);
        true
    } else {
        assert(b@.skip(i as int).len() == 0);
        false
    }
}

/// The indices of the instances below `n` that answer the capability, in
/// order.
pub open spec fn eligible_upto(insts: Seq<IntegrationInstance>, cap: Seq<char>, risk: CapabilityRisk, is_admin: bool, n: int) -> Seq<int>
    decreases n,
{
    if n <= 0 {
        Seq::empty()
    } else {
        let r = eligible_upto(insts, cap, risk, is_admin, n - 1);
        if eligible(insts[n - 1], cap, risk, is_admin) {
            r.push(n - 1)
        } else {
            r
        }
    }
}

/// Inserts index `x` after the indices whose instance labels come before or
/// equal its own.
pub open spec fn insert_by_label(insts: Seq<IntegrationInstance>, sorted: Seq<int>, x: int) -> Seq<int>
    decreases sorted.len(),
{
    if sorted.len() == 0 {
        seq![x]
    } else if label_le(insts[sorted.last()].display_name@, insts[x].display_name@) {
        sorted.push(x)
    } else {
        insert_by_label(insts, sorted.drop_last(), x).push(sorted.last())
    }
}

/// The indices ordered by instance label, equal labels keeping their order.
pub open spec fn sort_by_label(insts: Seq<IntegrationInstance>, idx: Seq<int>) -> Seq<int>
    decreases idx.len(),
{
    if idx.len() == 0 {
        Seq::empty()
    } else {
        insert_by_label(insts, sort_by_label(insts, idx.drop_last()), idx.last())
    }
}

/// The instances that can answer a capability, ordered by label.
pub open spec fn route_candidates(insts: Seq<IntegrationInstance>, cap: Seq<char>, risk: CapabilityRisk, is_admin: bool) -> Seq<int> {
    sort_by_label(insts, eligible_upto(insts, cap, risk, is_admin, insts.len() as int))
}

/// True when the instance has capability `c` configured.
pub open spec fn configures(inst: IntegrationInstance, c: Seq<char>) -> bool {
    exists|i: int| 0 <= i < inst.configured_capabilities@.len() && #[trigger] inst.configured_capabilities@[i].0@ == c
}

/// The assistant capabilities are answered by the configured read
/// capability of their domain: an instance supports both documentation
/// capabilities exactly when it has `page.read`, both issue capabilities
/// exactly when it has `issue.read`, and both mail capabilities exactly
/// when it has `email.read`.
pub proof fn lemma_capability_domains(inst: IntegrationInstance)
    ensures
        supports(inst, "documentation.search"@) == configures(inst, "page.read"@),
        supports(inst, "documentation.read"@) == configures(inst, "page.read"@),
        supports(inst, "issue.search"@) == configures(inst, "issue.read"@),
        supports(inst, "issue.read"@) == configures(inst, "issue.read"@),
        supports(inst, "mail.search"@) == configures(inst, "email.read"@),
        supports(inst, "mail.read"@) == configures(inst, "email.read"@),
{
    reveal_strlit("issue.search");
    reveal_strlit("issue.read");
    reveal_strlit("mail.search");
    reveal_strlit("mail.read");
    reveal_strlit("documentation.search");
    reveal_strlit("documentation.read");
    assert("issue.search"@.len() == 12);
    assert("issue.read"@.len() == 10);
    assert("mail.search"@.len() == 11);
    assert("mail.read"@.len() == 9);
    assert("documentation.search"@.len() == 20);
    assert("documentation.read"@.len() == 18);
    assert("mail.read"@[0] != "issue.read"@[0]);
    assert("mail.search"@[0] != "issue.read"@[0]);
}

/// A single instance that is enabled, ready, allowed by the policy and
/// configured with the read capability of the capability's domain is the
/// one candidate, and routing without a preference selects it.
pub proof fn lemma_single_instance_selected(
    insts: Seq<IntegrationInstance>,
    cap: Seq<char>,
    description: Seq<char>,
    risk: CapabilityRisk,
    is_admin: bool,
    o: CapabilityRoutingOutcome,
)
    requires
        insts.len() == 1,
        (cap == "documentation.search"@ || cap == "documentation.read"@) && configures(insts[0], "page.read"@)
            || (cap == "issue.search"@ || cap == "issue.read"@) && configures(insts[0], "issue.read"@)
            || (cap == "mail.search"@ || cap == "mail.read"@) && configures(insts[0], "email.read"@),
        insts[0].enabled,
        insts[0].status is Ready,
        policy_allows(risk, insts[0].management, is_admin),
        routed_outcome(o, insts, cap, description, risk, is_admin, None),
    ensures
        route_candidates(insts, cap, risk, is_admin) == seq![0int],
        o matches CapabilityRoutingOutcome::Selected { route } && route_to(route, insts[0], cap),
{
    lemma_capability_domains(insts[0]);
    assert(eligible(insts[0], cap, risk, is_admin));
    assert(eligible_upto(insts, cap, risk, is_admin, 0) =~= Seq::<int>::empty());
    assert(eligible_upto(insts, cap, risk, is_admin, 1) =~= seq![0int]);
    assert(seq![0int].drop_last() =~= Seq::<int>::empty());
    assert(seq![0int].last() == 0int);
    assert(sort_by_label(insts, Seq::<int>::empty()) == Seq::<int>::empty());
    assert(insert_by_label(insts, Seq::<int>::empty(), 0int) == seq![0int]);
    assert(sort_by_label(insts, seq![0int]) == insert_by_label(insts, sort_by_label(insts, seq![0int].drop_last()), 0int));
}

proof fn lemma_insert_at(insts: Seq<IntegrationInstance>, s: Seq<int>, x: int, j: int)
    requires
        0 <= j <= s.len(),
        forall|k: int| j <= k < s.len() ==> !label_le(#[trigger] insts[s[k]].display_name@, insts[x].display_name@),
        j == 0 || label_le(insts[s[j - 1]].display_name@, insts[x].display_name@),
    ensures
        insert_by_label(insts, s, x) == s.take(j).push(x) + s.skip(j),
    decreases s.len(),
{
    if s.len() == 0 {
        assert(s.take(j).push(x) + s.skip(j) =~= seq![x]);
    } else if label_le(insts[s.last()].display_name@, insts[x].display_name@) {
        assert(j == s.len()) by {
            if j < s.len() {
                assert(!label_le(insts[s[s.len() - 1]].display_name@, insts[x].display_name@));
            }
        }
        assert(s.take(j).push(x) + s.skip(j) =~= s.push(x));
    } else {
        let t = s.drop_last();
        assert(j < s.len()) by {
            if j == s.len() {
                assert(label_le(insts[s[j - 1]].display_name@, insts[x].display_name@));
            }
        }
        assert forall|k: int| j <= k < t.len() implies !label_le(#[trigger] insts[t[k]].display_name@, insts[x].display_name@) by {
            assert(t[k] == s[k]);
        }
        if j > 0 {
            assert(t[j - 1] == s[j - 1]);
        }
        lemma_insert_at(insts, t, x, j);
        assert(t.take(j).push(x) + t.skip(j) + seq![s.last()] =~= s.take(j).push(x) + s.skip(j));
    }
}

/// The index of the instance with that id, among the instances.
pub fn position_of(instances: &Vec<IntegrationInstance>, id: &IntegrationInstanceId) -> (r: Option<usize>)
    ensures
        match r {
            Some(i) => i < instances@.len() && instances@[i as int].id.0@ == id.0@ && forall|k: int|
                0 <= k < i ==> (#[trigger] instances@[k]).id.0@ != id.0@,
            None => forall|k: int| 0 <= k < instances@.len() ==> (#[trigger] instances@[k]).id.0@ != id.0@,
        },
{
    let mut i: usize = 0;
    while i < instances.len()
        invariant
            i <= instances@.len(),
            forall|k: int| 0 <= k < i ==> (#[trigger] instances@[k]).id.0@ != id.0@,
        decreases instances@.len() - i,
    {
        if str_eq(instances[i].id.0.as_str(), id.0.as_str()) {
            return Some(i);
        }
        i = i + 1;
    }
    None
}

fn is_eligible(instance: &IntegrationInstance, capability_id: &CapabilityId, definition: &AssistantCapabilityDefinition, is_admin: bool) -> (r: bool)
    ensures
        r == eligible(*instance, capability_id.0@, definition.risk, is_admin),
{
    let policy = DefaultRoutingPolicy;
    let ready = match instance.status {
        IntegrationStatus::Ready | IntegrationStatus::Degraded { .. } => true,
        _ => false,
    };
    supports_capability(instance, capability_id) && instance.enabled && policy.allows(definition, instance, is_admin) && ready
}

/// The instances that can answer a capability, ordered by label (see
/// `route_candidates`), as indices into `instances`.
pub fn candidate_indices(
    instances: &Vec<IntegrationInstance>,
    capability_id: &CapabilityId,
    definition: &AssistantCapabilityDefinition,
    is_admin: bool,
) -> (r: Vec<usize>)
    ensures
        r@.len() == route_candidates(instances@, capability_id.0@, definition.risk, is_admin).len(),
        forall|k: int| 0 <= k < r@.len() ==> #[trigger] r@[k] as int == route_candidates(instances@, capability_id.0@, definition.risk, is_admin)[k],
        forall|k: int| 0 <= k < r@.len() ==> #[trigger] r@[k] < instances@.len(),
{
    let ghost insts = instances@;
    let ghost cap = capability_id.0@;
    let ghost risk = definition.risk;
    let mut sorted: Vec<usize> = Vec::new();
    let mut n: usize = 0;
    while n < instances.len()
        invariant
            n <= instances@.len(),
            insts == instances@,
            cap == capability_id.0@,
            risk == definition.risk,
            sorted@.map_values(|v: usize| v as int) == sort_by_label(insts, eligible_upto(insts, cap, risk, is_admin, n as int)),
            forall|k: int| 0 <= k < sorted@.len() ==> #[trigger] sorted@[k] < n,
        decreases instances@.len() - n,
    {
        if is_eligible(&instances[n], capability_id, definition, is_admin) {
            let ghost s = sorted@.map_values(|v: usize| v as int);
            assert(eligible_upto(insts, cap, risk, is_admin, n + 1) == eligible_upto(insts, cap, risk, is_admin, n as int).push(n as int));
            assert(eligible_upto(insts, cap, risk, is_admin, n + 1).drop_last() =~= eligible_upto(insts, cap, risk, is_admin, n as int));
            let mut j = sorted.len();
            while j > 0 && !label_le_exec(instances[sorted[j - 1]].display_name.as_str(), instances[n].display_name.as_str())
                invariant
                    j <= sorted@.len(),
                    n < instances@.len(),
                    insts == instances@,
                    s == sorted@.map_values(|v: usize| v as int),
                    forall|k: int| 0 <= k < sorted@.len() ==> #[trigger] sorted@[k] < n,
                    forall|k: int| j <= k < s.len() ==> !label_le(#[trigger] insts[s[k]].display_name@, insts[n as int].display_name@),
                decreases j,
            {
                j = j - 1;
            }
            proof {
                lemma_insert_at(insts, s, n as int, j as int);
            }
            sorted.insert(j, n);
            assert(sorted@.map_values(|v: usize| v as int) =~= s.take(j as int).push(n as int) + s.skip(j as int));
        } else {
            assert(eligible_upto(insts, cap, risk, is_admin, n + 1) == eligible_upto(insts, cap, risk, is_admin, n as int));
        }
        n = n + 1;
    }
    sorted
}

// ── Router ────────────────────────────────────────────────────────────────

/// True when `r` routes capability `cap` to instance `inst`.
pub open spec fn route_to(r: CapabilityRoute, inst: IntegrationInstance, cap: Seq<char>) -> bool {
    &&& r.instance_id.0@ == inst.id.0@
    &&& r.integration_label@ == inst.display_name@
    &&& r.capability_id.0@ == cap
    &&& r.revision == inst.updated_at
}

/// The route of capability `cap` to an instance.
pub fn route(instance: &IntegrationInstance, capability_id: &CapabilityId) -> (r: CapabilityRoute)
    ensures
        route_to(r, *instance, capability_id.0@),
{
    CapabilityRoute {
        instance_id: IntegrationInstanceId(instance.id.0.as_str().to_owned()),
        integration_label: instance.display_name.as_str().to_owned(),
        capability_id: CapabilityId(capability_id.0.as_str().to_owned()),
        revision: instance.updated_at,
    }
}

/// The first candidate whose instance has the preferred id.
pub open spec fn preferred_candidate(insts: Seq<IntegrationInstance>, c: Seq<int>, pref: Seq<char>) -> Option<int> {
    if exists|k: int| 0 <= k < c.len() && #[trigger] insts[c[k]].id.0@ == pref {
        Some(choose|k: int| 0 <= k < c.len() && #[trigger] insts[c[k]].id.0@ == pref && forall|q: int| 0 <= q < k ==> insts[c[q]].id.0@ != pref)
    } else {
        None
    }
}

/// True when `o` is how a capability is routed among the instances: no
/// candidate makes it unavailable; the preferred instance, when it is a
/// candidate, is selected; a single candidate is selected; otherwise the
/// user is asked to choose among the candidates, in label order.
pub open spec fn routed_outcome(
    o: CapabilityRoutingOutcome,
    insts: Seq<IntegrationInstance>,
    cap: Seq<char>,
    description: Seq<char>,
    risk: CapabilityRisk,
    is_admin: bool,
    pref: Option<Seq<char>>,
) -> bool {
    let c = route_candidates(insts, cap, risk, is_admin);
    if c.len() == 0 {
        o is Unavailable
    } else if pref is Some && preferred_candidate(insts, c, pref->0) is Some {
        o matches CapabilityRoutingOutcome::Selected { route } && route_to(route, insts[c[preferred_candidate(insts, c, pref->0)->0]], cap)
    } else if c.len() == 1 {
        o matches CapabilityRoutingOutcome::Selected { route } && route_to(route, insts[c[0]], cap)
    } else {
        o matches CapabilityRoutingOutcome::ClarificationRequired { clarification } && {
            &&& clarification.prompt@ == "Choose an integration for "@ + description
            &&& clarification.choices@.len() == c.len()
            &&& forall|k: int| 0 <= k < c.len() ==> {
                let ch = #[trigger] clarification.choices@[k];
                &&& ch.instance_id.0@ == insts[c[k]].id.0@
                &&& ch.label@ == insts[c[k]].display_name@
                &&& ch.description@ == description
            }
        }
    }
}

/// The first candidate whose instance has the preferred id (see
/// `preferred_candidate`).
fn find_preferred(instances: &Vec<IntegrationInstance>, candidates: &Vec<usize>, p: &IntegrationInstanceId, Ghost(c): Ghost<Seq<int>>) -> (r: Option<usize>)
    requires
        candidates@.len() == c.len(),
        forall|q: int| 0 <= q < candidates@.len() ==> #[trigger] candidates@[q] as int == c[q],
        forall|q: int| 0 <= q < candidates@.len() ==> #[trigger] candidates@[q] < instances@.len(),
    ensures
        match r {
            Some(k) => k < candidates@.len() && preferred_candidate(instances@, c, p.0@) == Some(k as int),
            None => preferred_candidate(instances@, c, p.0@) is None,
        },
{
    let mut k: usize = 0;
    while k < candidates.len()
        invariant
            k <= candidates@.len(),
            candidates@.len() == c.len(),
            forall|q: int| 0 <= q < candidates@.len() ==> #[trigger] candidates@[q] as int == c[q],
            forall|q: int| 0 <= q < candidates@.len() ==> #[trigger] candidates@[q] < instances@.len(),
            forall|q: int| 0 <= q < k ==> instances@[c[q]].id.0@ != p.0@,
        decreases candidates@.len() - k,
    {
        if str_eq(instances[candidates[k]].id.0.as_str(), p.0.as_str()) {
            proof {
                assert(instances@[c[k as int]].id.0@ == p.0@);
                let w = choose|w: int| 0 <= w < c.len() && #[trigger] instances@[c[w]].id.0@ == p.0@ && forall|q: int|
                    0 <= q < w ==> instances@[c[q]].id.0@ != p.0@;
                if w < k {
                } else if w > k {
                    assert(instances@[c[k as int]].id.0@ != p.0@);
                }
            }
            return Some(k);
        }
        k = k + 1;
    }
    None
}

/// Routes capabilities of the assistant to configured integrations.
pub struct CapabilityRouter {
    registry: StaticCapabilityRegistry,
    preferences: CapabilityRoutingPreference,
    policies: DefaultRoutingPolicy,
}

impl CapabilityRouter {
    /// The router's state is consistent.
    pub closed spec fn wf(&self) -> bool {
        self.preferences.wf()
    }

    /// The chosen instance per (conversation, capability).
    pub closed spec fn choices(&self) -> Map<(Seq<char>, Seq<char>), Seq<char>> {
        self.preferences.view_map()
    }

    /// A router over the curated capabilities, with no choices made.
    pub fn new() -> (r: Self)
        ensures
            r.wf(),
            r.choices() == Map::<(Seq<char>, Seq<char>), Seq<char>>::empty(),
    {
        CapabilityRouter {
            registry: StaticCapabilityRegistry,
            preferences: CapabilityRoutingPreference::new(),
            policies: DefaultRoutingPolicy,
        }
    }

    /// The capabilities that the assistant can use.
    pub fn list_capabilities(&self) -> (r: Vec<AssistantCapabilityDefinition>)
        ensures
            r@.len() == curated_entries().len(),
            forall|i: int| 0 <= i < r@.len() ==> is_curated(#[trigger] r@[i], curated_entries()[i]),
    {
        self.registry.list()
    }

    /// Routes a capability call in a conversation among the configured
    /// instances: an unknown capability and a non-object input are errors;
    /// otherwise see `routed_outcome`, with the instance chosen earlier in
    /// the conversation as the preferred one. A clarification carries a
    /// fresh request id.
    pub fn resolve(
        &self,
        conversation_id: &ConversationId,
        capability_id: &CapabilityId,
        input: &CapabilityInvocationInput,
        instances: &Vec<IntegrationInstance>,
        is_admin: bool,
    ) -> (r: Result<CapabilityRoutingOutcome, CapabilityRoutingError>)
        requires
            self.wf(),
        ensures
            curated_index(capability_id.0@) is None ==> r == Err::<CapabilityRoutingOutcome, CapabilityRoutingError>(
                CapabilityRoutingError::UnknownCapability,
            ),
            curated_index(capability_id.0@) is Some && !(input.values@ is Object) ==> r == Err::<
                CapabilityRoutingOutcome,
                CapabilityRoutingError,
            >(CapabilityRoutingError::InvalidInput),
            curated_index(capability_id.0@) is Some && input.values@ is Object ==> (r matches Ok(o) && routed_outcome(
                o,
                instances@,
                capability_id.0@,
                curated_entries()[curated_index(capability_id.0@)->0].1,
                CapabilityRisk::ReadOnly,
                is_admin,
                if self.choices().contains_key((conversation_id.0@, capability_id.0@)) {
                    Some(self.choices()[(conversation_id.0@, capability_id.0@)])
                } else {
                    None
                },
            )),
    {
        let definition = match self.registry.get(capability_id) {
            Some(d) => d,
            None => {
                return Err(CapabilityRoutingError::UnknownCapability);
            },
        };
        match validate_input(input) {
            Ok(()) => {},
            Err(e) => {
                return Err(e);
            },
        }
        let ghost c = route_candidates(instances@, capability_id.0@, definition.risk, is_admin);
        let candidates = candidate_indices(instances, capability_id, &definition, is_admin);
        if candidates.len() == 0 {
            return Ok(CapabilityRoutingOutcome::Unavailable);
        }
        let preferred = self.preferences.get(conversation_id, capability_id);
        if let Some(p) = &preferred {
            if let Some(k) = find_preferred(instances, &candidates, p, Ghost(c)) {
                return Ok(CapabilityRoutingOutcome::Selected { route: route(&instances[candidates[k]], capability_id) });
            }
        }
        if candidates.len() == 1 {
            return Ok(CapabilityRoutingOutcome::Selected { route: route(&instances[candidates[0]], capability_id) });
        }
        let mut choices: Vec<CapabilityRouteChoice> = Vec::new();
        let mut k: usize = 0;
        while k < candidates.len()
            invariant
                k <= candidates@.len(),
                candidates@.len() == c.len(),
                forall|q: int| 0 <= q < candidates@.len() ==> #[trigger] candidates@[q] as int == c[q],
                forall|q: int| 0 <= q < candidates@.len() ==> #[trigger] candidates@[q] < instances@.len(),
                choices@.len() == k,
                forall|q: int| 0 <= q < k ==> {
                    let ch = #[trigger] choices@[q];
                    &&& ch.instance_id.0@ == instances@[c[q]].id.0@
                    &&& ch.label@ == instances@[c[q]].display_name@
                    &&& ch.description@ == definition.description@
                },
            decreases candidates@.len() - k,
        {
            let inst = &instances[candidates[k]];
            choices.push(CapabilityRouteChoice {
                instance_id: IntegrationInstanceId(inst.id.0.as_str().to_owned()),
                label: inst.display_name.as_str().to_owned(),
                description: definition.description.as_str().to_owned(),
            });
            k = k + 1;
        }
        let prompt = "Choose an integration for ".to_owned().concat(definition.description.as_str());
        Ok(CapabilityRoutingOutcome::ClarificationRequired {
            clarification: CapabilityClarification { request_id: crate::ids::new_uuid_text(), prompt, choices },
        })
    }

    /// Records the user's choice of an instance for a capability in a
    /// conversation.
    pub fn submit_choice(&mut self, conversation_id: ConversationId, capability_id: CapabilityId, instance_id: IntegrationInstanceId)
        requires
            old(self).wf(),
        ensures
            final(self).wf(),
            final(self).choices() == old(self).choices().insert((conversation_id.0@, capability_id.0@), instance_id.0@),
    {
        self.preferences.set(conversation_id, capability_id, instance_id);
    }

    /// Forgets the choice for a capability in a conversation.
    pub fn clear_preference(&mut self, conversation_id: &ConversationId, capability_id: &CapabilityId)
        requires
            old(self).wf(),
        ensures
            final(self).wf(),
            final(self).choices() == old(self).choices().remove((conversation_id.0@, capability_id.0@)),
    {
        self.preferences.clear(conversation_id, capability_id);
    }

    /// The instance that a route still leads to, by index: the error when
    /// no instance has its id, and a stale-route error when the instance
    /// is disabled or changed since the route was chosen.
    pub fn route_target(&self, instances: &Vec<IntegrationInstance>, route: &CapabilityRoute) -> (r: Result<usize, CapabilityRoutingError>)
        ensures
            match r {
                Ok(i) => i < instances@.len() && instances@[i as int].id.0@ == route.instance_id.0@
                    && instances@[i as int].enabled && instances@[i as int].updated_at == route.revision
                    && forall|k: int| 0 <= k < i ==> (#[trigger] instances@[k]).id.0@ != route.instance_id.0@,
                Err(e) => (e == CapabilityRoutingError::InstanceUnavailable && forall|k: int| 0 <= k < instances@.len()
                    ==> (#[trigger] instances@[k]).id.0@ != route.instance_id.0@) || (e == CapabilityRoutingError::StaleRoute
                    && exists|i: int| 0 <= i < instances@.len() && instances@[i].id.0@ == route.instance_id.0@ && (forall|k: int|
                    0 <= k < i ==> (#[trigger] instances@[k]).id.0@ != route.instance_id.0@) && !(instances@[i].enabled
                    && instances@[i].updated_at == route.revision)),
            },
    {
        match position_of(instances, &route.instance_id) {
            None => Err(CapabilityRoutingError::InstanceUnavailable),
            Some(i) => {
                if !instances[i].enabled || instances[i].updated_at != route.revision {
                    Err(CapabilityRoutingError::StaleRoute)
                } else {
                    Ok(i)
                }
            },
        }
    }

    /// Where a capability result came from: the routed instance, at
    /// `retrieved_at`.
    pub fn provenance(&self, instance: &IntegrationInstance, route: &CapabilityRoute, retrieved_at: i64) -> (r: CapabilityResultProvenance)
        ensures
            r.instance_id.0@ == instance.id.0@,
            r.integration_label@ == instance.display_name@,
            r.capability_id.0@ == route.capability_id.0@,
            r.retrieved_at == retrieved_at,
    {
        CapabilityResultProvenance {
            instance_id: IntegrationInstanceId(instance.id.0.as_str().to_owned()),
            integration_label: instance.display_name.as_str().to_owned(),
            capability_id: CapabilityId(route.capability_id.0.as_str().to_owned()),
            retrieved_at,
        }
    }
}

} // verus!
