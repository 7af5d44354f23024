//! The MCP side of integrations: which server package serves each curated
//! integration, its transport and authorization, the product capabilities
//! it must provide, and how MCP failures are classified.

use vstd::prelude::*;
use crate::json::{Json, JsonV, jget, ostr, view_items, lemma_view_items};
use crate::text::{str_eq, contains, contains_chars, chars_of, ascii_lowercase, to_ascii_lowercase};
use crate::config::strs_view;
use crate::digest::{sha256_hex, sha256_of, hex_text};
use crate::capability_router::{label_le, label_le_exec};
use crate::integration_domain::{IntegrationInstance, IntegrationInstanceId};
use vstd::string::StringSliceAdditionalSpecFns;
use crate::integration_domain::{IntegrationDefinitionId, IntegrationCommandError, IntegrationIssue,
    IntegrationStatus, CapabilityId};

verus! {

/// The stateless MCP protocol version.
pub const MCP_STATELESS_VERSION: &'static str = "2026-07-28";

/// How a server speaks MCP.
#[derive(Debug, Clone, Copy, PartialEq, Eq, Structural)]
pub enum McpProtocolMode {
    Stateless2026,
    LegacySession,
}

/// A server's name and version.
#[derive(Debug, Clone, PartialEq, Eq, Default)]
pub struct McpServerInfo {
    pub name: String,
    pub version: String,
}

/// What a server agreed to speak.
#[derive(Debug, Clone, PartialEq, Eq)]
pub struct McpCompatibility {
    pub selected_version: String,
    pub mode: McpProtocolMode,
    pub server_info: McpServerInfo,
    pub capabilities: Vec<String>,
    pub extensions: Vec<String>,
}

/// The server that serves an integration.
#[derive(Debug, Clone, PartialEq, Eq)]
pub struct McpServerDescriptor {
    pub definition_id: IntegrationDefinitionId,
    pub package: String,
    pub transport_kind: McpTransportKind,
    pub version_constraints: Vec<String>,
}

/// How the desktop reaches a server.
#[derive(Debug, Clone, Copy, PartialEq, Eq, Structural)]
pub enum McpTransportKind {
    Stdio,
    StreamableHttp,
}

/// The transport of a server: literal process arguments (never passed to
/// a shell) and the environment variables it may receive.
#[derive(Debug, Clone, PartialEq, Eq)]
pub struct McpTransportConfig {
    pub kind: McpTransportKind,
    pub args: Vec<String>,
    pub env_allowlist: Vec<String>,
}

/// How a server is authorized.
#[derive(Debug, Clone, Copy, PartialEq, Eq, Structural)]
pub enum McpAuthorizationKind {
    NoAuth,
    EnvSecret,
    BearerToken,
    OAuthReference,
}

/// The authorization of a server.
#[derive(Debug, Clone, PartialEq, Eq)]
pub struct McpAuthorizationConfig {
    pub kind: McpAuthorizationKind,
}

/// The names of what a server offers.
#[derive(Debug, Clone, PartialEq, Eq, Default)]
pub struct McpCapabilitySnapshot {
    pub tools: Vec<String>,
    pub resources: Vec<String>,
    pub prompts: Vec<String>,
}

/// The server tools that a product capability needs.
#[derive(Debug, Clone, PartialEq, Eq)]
pub struct McpCapabilityRequirement {
    pub product_capability: CapabilityId,
    pub required_tools: Vec<String>,
    pub optional_resources: Vec<String>,
}

/// A secret value held only in memory; it can be read back but is never
/// printed.
#[derive(Clone, PartialEq, Eq)]
pub struct RuntimeSecret(String);

impl RuntimeSecret {
    /// Holds a secret value.
    pub fn new(value: &str) -> (r: Self)
        ensures
            r.view() == value@,
    {
        RuntimeSecret(value.to_owned())
    }

    /// The secret value.
    pub closed spec fn view(&self) -> Seq<char> {
        self.0@
    }

    /// Reads the secret value.
    pub fn expose(&self) -> (r: &str)
        ensures
            r@ == self.view(),
    {
        self.0.as_str()
    }
}

/// The health of a server runtime.
#[derive(Debug, Clone, PartialEq, Eq)]
pub struct McpHealthSnapshot {
    pub status: IntegrationStatus,
    pub error_count: u64,
    pub last_error: Option<String>,
    pub issue: Option<IntegrationIssue>,
}

/// Whether a product capability can be used now.
#[derive(Debug, Clone, Copy, PartialEq, Eq, Structural)]
pub enum NormalizedCapability {
    Available,
    TemporarilyUnavailable,
    AuthorizationRequired,
    Unsupported,
}

/// The server package of each curated integration.
pub open spec fn package_for(id: Seq<char>) -> Option<Seq<char>> {
    if id == "gmail"@ {
        Some("gmail-mcp"@)
    } else if id == "jira"@ {
        Some("jira-mcp"@)
    } else if id == "confluence"@ {
        Some("confluence-mcp"@)
    } else {
        None
    }
}

/// The server of a curated integration: its package over stdio, speaking
/// the stateless version or `2024-11-05`; other integrations have none.
pub fn resolve_descriptor(id: &IntegrationDefinitionId) -> (r: Result<McpServerDescriptor, IntegrationCommandError>)
    ensures
        match package_for(id.0@) {
            Some(p) => r matches Ok(d) && d.definition_id.0@ == id.0@ && d.package@ == p
                && d.transport_kind == McpTransportKind::Stdio
                && strs_view(d.version_constraints@) == seq![MCP_STATELESS_VERSION@, "2024-11-05"@],
            None => r == Err::<McpServerDescriptor, IntegrationCommandError>(IntegrationCommandError::DefinitionNotFound),
        },
{
    let package = if str_eq(id.0.as_str(), "gmail") {
        "gmail-mcp"
    } else if str_eq(id.0.as_str(), "jira") {
        "jira-mcp"
    } else if str_eq(id.0.as_str(), "confluence") {
        "confluence-mcp"
    } else {
        return Err(IntegrationCommandError::DefinitionNotFound);
    };
    let mut versions: Vec<String> = Vec::new();
    versions.push(MCP_STATELESS_VERSION.to_owned());
    versions.push("2024-11-05".to_owned());
    assert(strs_view(versions@) =~= seq![MCP_STATELESS_VERSION@, "2024-11-05"@]);
    Ok(McpServerDescriptor {
        definition_id: IntegrationDefinitionId(id.0.as_str().to_owned()),
        package: package.to_owned(),
        transport_kind: McpTransportKind::Stdio,
        version_constraints: versions,
    })
}

/// The environment variables each curated integration's server may get.
pub open spec fn env_allowlist_for(id: Seq<char>) -> Seq<Seq<char>> {
    if id == "gmail"@ {
        seq!["GMAIL_EMAIL"@, "GMAIL_APP_PASSWORD"@]
    } else if id == "jira"@ {
        seq!["JIRA_BASE_URL"@, "JIRA_EMAIL"@, "JIRA_API_TOKEN"@]
    } else if id == "confluence"@ {
        seq!["CONFLUENCE_BASE_URL"@, "CONFLUENCE_EMAIL"@, "CONFLUENCE_API_TOKEN"@]
    } else {
        Seq::empty()
    }
}

fn strings(items: &[&str]) -> (r: Vec<String>)
    ensures
        strs_view(r@) == Seq::new(items@.len(), |i: int| items@[i]@),
{
    let mut out: Vec<String> = Vec::new();
    let mut i: usize = 0;
    while i < items.len()
        invariant
            i <= items@.len(),
            strs_view(out@) == Seq::new(i as nat, |k: int| items@[k]@),
        decreases items@.len() - i,
    {
        let ghost before = strs_view(out@);
        out.push(items[i].to_owned());
        assert(strs_view(out@) =~= before.push(items@[i as int]@));
        i = i + 1;
        assert(strs_view(out@) =~= Seq::new(i as nat, |k: int| items@[k]@));
    }
    out
}

/// The transport of a server: its kind, no arguments, and its allowed
/// environment variables.
pub fn transport_for(descriptor: &McpServerDescriptor) -> (r: McpTransportConfig)
    ensures
        r.kind == descriptor.transport_kind,
        r.args@.len() == 0,
        strs_view(r.env_allowlist@) == env_allowlist_for(descriptor.definition_id.0@),
{
    let id = descriptor.definition_id.0.as_str();
    let allow: Vec<String> = if str_eq(id, "gmail") {
        let v = strings(&["GMAIL_EMAIL", "GMAIL_APP_PASSWORD"]);
        assert(strs_view(v@) =~= env_allowlist_for(descriptor.definition_id.0@));
        v
    } else if str_eq(id, "jira") {
        let v = strings(&["JIRA_BASE_URL", "JIRA_EMAIL", "JIRA_API_TOKEN"]);
        assert(strs_view(v@) =~= env_allowlist_for(descriptor.definition_id.0@));
        v
    } else if str_eq(id, "confluence") {
        let v = strings(&["CONFLUENCE_BASE_URL", "CONFLUENCE_EMAIL", "CONFLUENCE_API_TOKEN"]);
        assert(strs_view(v@) =~= env_allowlist_for(descriptor.definition_id.0@));
        v
    } else {
        let v: Vec<String> = Vec::new();
        assert(strs_view(v@) =~= env_allowlist_for(descriptor.definition_id.0@));
        v
    };
    McpTransportConfig { kind: descriptor.transport_kind, args: Vec::new(), env_allowlist: allow }
}

/// The authorization of each curated integration's server.
pub open spec fn auth_kind_for(id: Seq<char>) -> McpAuthorizationKind {
    if id == "gmail"@ {
        McpAuthorizationKind::EnvSecret
    } else if id == "jira"@ || id == "confluence"@ {
        McpAuthorizationKind::BearerToken
    } else {
        McpAuthorizationKind::NoAuth
    }
}

/// The authorization of a server.
pub fn auth_for(descriptor: &McpServerDescriptor) -> (r: McpAuthorizationConfig)
    ensures
        r.kind == auth_kind_for(descriptor.definition_id.0@),
{
    let id = descriptor.definition_id.0.as_str();
    let kind = if str_eq(id, "gmail") {
        McpAuthorizationKind::EnvSecret
    } else if str_eq(id, "jira") || str_eq(id, "confluence") {
        McpAuthorizationKind::BearerToken
    } else {
        McpAuthorizationKind::NoAuth
    };
    McpAuthorizationConfig { kind }
}

/// The product capabilities of each curated integration and the one server
/// tool each needs.
pub open spec fn requirement_pairs(id: Seq<char>) -> Seq<(Seq<char>, Seq<char>)> {
    if id == "gmail"@ {
        seq![("email.read"@, "list_inbox"@), ("email.send"@, "send_email"@)]
    } else if id == "jira"@ {
        seq![
            ("issue.read"@, "search_issues"@),
            ("issue.write"@, "create_issue"@),
            ("issue.transition"@, "transition_issue"@),
        ]
    } else if id == "confluence"@ {
        seq![("page.read"@, "search_pages"@), ("page.write"@, "create_page"@)]
    } else {
        Seq::empty()
    }
}

/// True when requirement `r` is the pair `p`: that capability needs that
/// one tool and no resources.
pub open spec fn requirement_is(r: McpCapabilityRequirement, p: (Seq<char>, Seq<char>)) -> bool {
    r.product_capability.0@ == p.0 && strs_view(r.required_tools@) == seq![p.1] && r.optional_resources@.len() == 0
}

fn requirement(capability: &str, tool: &str) -> (r: McpCapabilityRequirement)
    ensures
        requirement_is(r, (capability@, tool@)),
{
    let mut tools: Vec<String> = Vec::new();
    tools.push(tool.to_owned());
    assert(strs_view(tools@) =~= seq![tool@]);
    McpCapabilityRequirement {
        product_capability: CapabilityId(capability.to_owned()),
        required_tools: tools,
        optional_resources: Vec::new(),
    }
}

/// The server tools that each product capability of an integration needs,
/// in capability order; none for integrations without a server.
pub fn capability_requirements(definition: &IntegrationDefinitionId) -> (r: Vec<McpCapabilityRequirement>)
    ensures
        r@.len() == requirement_pairs(definition.0@).len(),
        forall|i: int| 0 <= i < r@.len() ==> requirement_is(#[trigger] r@[i], requirement_pairs(definition.0@)[i]),
{
    let id = definition.0.as_str();
    let mut r: Vec<McpCapabilityRequirement> = Vec::new();
    if str_eq(id, "gmail") {
        r.push(requirement("email.read", "list_inbox"));
        r.push(requirement("email.send", "send_email"));
    } else if str_eq(id, "jira") {
        r.push(requirement("issue.read", "search_issues"));
        r.push(requirement("issue.write", "create_issue"));
        r.push(requirement("issue.transition", "transition_issue"));
    } else if str_eq(id, "confluence") {
        r.push(requirement("page.read", "search_pages"));
        r.push(requirement("page.write", "create_page"));
    }
    r
}

/// Each integration of the curated catalog has one server requirement per
/// product capability, for the same capabilities in the same order; an
/// integration id outside the catalog has none.
pub proof fn lemma_requirements_follow_catalog(cat: Seq<crate::integration_domain::IntegrationDefinition>, id: Seq<char>)
    requires
        crate::integration_domain::is_curated_catalog(cat),
    ensures
        forall|k: int| #![trigger cat[k]] 0 <= k < cat.len() ==> {
            &&& requirement_pairs(cat[k].id.0@).len() == cat[k].capabilities@.len()
            &&& forall|i: int| 0 <= i < cat[k].capabilities@.len()
                ==> (#[trigger] requirement_pairs(cat[k].id.0@)[i]).0 == cat[k].capabilities@[i].id.0@
        },
        (forall|k: int| 0 <= k < cat.len() ==> (#[trigger] cat[k]).id.0@ != id) ==> requirement_pairs(id).len() == 0,
{
    assert(crate::integration_domain::curated_entry(cat[0], 0));
    assert(crate::integration_domain::curated_entry(cat[1], 1));
    assert(crate::integration_domain::curated_entry(cat[2], 2));
    assert forall|k: int| #![trigger cat[k]] 0 <= k < cat.len() implies {
        &&& requirement_pairs(cat[k].id.0@).len() == cat[k].capabilities@.len()
        &&& forall|i: int| 0 <= i < cat[k].capabilities@.len()
            ==> (#[trigger] requirement_pairs(cat[k].id.0@)[i]).0 == cat[k].capabilities@[i].id.0@
    } by {
        reveal_strlit("gmail");
        reveal_strlit("jira");
        reveal_strlit("confluence");
        let caps = cat[k].capabilities@;
        let ps = requirement_pairs(cat[k].id.0@);
        if k == 0 {
            assert(cat[k].id.0@ == "gmail"@);
            assert forall|i: int| 0 <= i < caps.len() implies (#[trigger] ps[i]).0 == caps[i].id.0@ by {
                if i == 0 {
                } else {
                }
            }
        } else if k == 1 {
            assert(cat[k].id.0@ == "jira"@);
            assert("jira"@.len() != "gmail"@.len());
            assert("jira"@ != "gmail"@);
            assert forall|i: int| 0 <= i < caps.len() implies (#[trigger] ps[i]).0 == caps[i].id.0@ by {
                if i == 0 {
                } else if i == 1 {
                } else {
                }
            }
        } else {
            assert(cat[k].id.0@ == "confluence"@);
            assert("confluence"@.len() != "gmail"@.len() && "confluence"@.len() != "jira"@.len());
            assert("confluence"@ != "gmail"@ && "confluence"@ != "jira"@);
            assert forall|i: int| 0 <= i < caps.len() implies (#[trigger] ps[i]).0 == caps[i].id.0@ by {
                if i == 0 {
                } else {
                }
            }
        }
    }
    if forall|k: int| 0 <= k < cat.len() ==> (#[trigger] cat[k]).id.0@ != id {
        assert(cat[0].id.0@ != id && cat[1].id.0@ != id && cat[2].id.0@ != id);
    }
}

/// The command error that an MCP failure message (lowercased) maps to.
pub open spec fn error_kind(e: Seq<char>) -> IntegrationCommandError {
    if contains(e, "401"@) || contains(e, "authentication"@) || contains(e, "unauthorized"@) {
        IntegrationCommandError::AuthenticationRequired
    } else if contains(e, "403"@) || contains(e, "scope"@) || contains(e, "permission"@) {
        IntegrationCommandError::PermissionDenied
    } else if contains(e, "timeout"@) || contains(e, "network"@) || contains(e, "config"@) || contains(e, "invalid"@) {
        IntegrationCommandError::HealthCheckFailed
    } else {
        IntegrationCommandError::RuntimeUnavailable
    }
}

fn has(e: &Vec<char>, p: &str) -> (r: bool)
    ensures
        r == contains(e@, p@),
{
    contains_chars(e.as_slice(), chars_of(p).as_slice())
}

/// Maps an MCP failure message to a command error, by what its ASCII
/// lowercase form mentions.
pub fn map_error(error: &str) -> (r: IntegrationCommandError)
    ensures
        r == error_kind(ascii_lowercase(error@)),
{
    let e = to_ascii_lowercase(error);
    if has(&e, "401") || has(&e, "authentication") || has(&e, "unauthorized") {
        IntegrationCommandError::AuthenticationRequired
    } else if has(&e, "403") || has(&e, "scope") || has(&e, "permission") {
        IntegrationCommandError::PermissionDenied
    } else if has(&e, "timeout") || has(&e, "network") || has(&e, "config") || has(&e, "invalid") {
        IntegrationCommandError::HealthCheckFailed
    } else {
        IntegrationCommandError::RuntimeUnavailable
    }
}

/// The integration issue that an MCP failure message (lowercased) shows.
pub open spec fn issue_kind(e: Seq<char>) -> IntegrationIssue {
    if contains(e, "expired"@) {
        IntegrationIssue::AuthenticationExpired
    } else if contains(e, "401"@) || contains(e, "authentication"@) || contains(e, "unauthorized"@) {
        IntegrationIssue::AuthenticationRequired
    } else if contains(e, "403"@) || contains(e, "scope"@) || contains(e, "permission"@) {
        IntegrationIssue::PermissionDenied
    } else if contains(e, "network"@) || contains(e, "dns"@) || contains(e, "connection refused"@) {
        IntegrationIssue::NetworkUnavailable
    } else if contains(e, "timeout"@) || contains(e, "503"@) {
        IntegrationIssue::ServiceUnavailable
    } else if contains(e, "config"@) || contains(e, "invalid"@) {
        IntegrationIssue::ConfigurationInvalid
    } else if contains(e, "exit"@) || contains(e, "closed"@) {
        IntegrationIssue::RuntimeUnavailable
    } else {
        IntegrationIssue::Unknown
    }
}

/// Classifies an MCP failure message as an integration issue.
pub fn normalize_mcp_issue(error: &str) -> (r: IntegrationIssue)
    ensures
        r == issue_kind(ascii_lowercase(error@)),
{
    let e = to_ascii_lowercase(error);
    if has(&e, "expired") {
        IntegrationIssue::AuthenticationExpired
    } else if has(&e, "401") || has(&e, "authentication") || has(&e, "unauthorized") {
        IntegrationIssue::AuthenticationRequired
    } else if has(&e, "403") || has(&e, "scope") || has(&e, "permission") {
        IntegrationIssue::PermissionDenied
    } else if has(&e, "network") || has(&e, "dns") || has(&e, "connection refused") {
        IntegrationIssue::NetworkUnavailable
    } else if has(&e, "timeout") || has(&e, "503") {
        IntegrationIssue::ServiceUnavailable
    } else if has(&e, "config") || has(&e, "invalid") {
        IntegrationIssue::ConfigurationInvalid
    } else if has(&e, "exit") || has(&e, "closed") {
        IntegrationIssue::RuntimeUnavailable
    } else {
        IntegrationIssue::Unknown
    }
}

/// True when a failure says the server does not speak the stateless
/// protocol (so the legacy session may be tried).
pub open spec fn legacy_rejection(e: Seq<char>) -> bool {
    contains(e, "unsupported"@) || contains(e, "method not found"@) || contains(e, "protocol version"@)
}

/// Tells whether a discovery failure is a protocol rejection.
pub fn is_legacy_protocol_rejection(error: &str) -> (r: bool)
    ensures
        r == legacy_rejection(ascii_lowercase(error@)),
{
    let e = to_ascii_lowercase(error);
    has(&e, "unsupported") || has(&e, "method not found") || has(&e, "protocol version")
}

/// The `name` strings of the objects of an array, in order.
pub open spec fn item_names(items: Seq<JsonV>) -> Seq<Seq<char>>
    decreases items.len(),
{
    if items.len() == 0 {
        Seq::empty()
    } else {
        let r = item_names(items.drop_last());
        match ostr(jget(items.last(), "name"@)) {
            Some(n) => r.push(n),
            None => r,
        }
    }
}

/// The names listed under a key of a discovery result (none when the key
/// does not hold an array).
pub open spec fn listed_names(v: JsonV, key: Seq<char>) -> Seq<Seq<char>> {
    match jget(v, key) {
        Some(JsonV::Array(items)) => item_names(items),
        _ => Seq::empty(),
    }
}

fn listed_names_exec(v: &Json, key: &str) -> (r: Vec<String>)
    ensures
        strs_view(r@) == listed_names(v@, key@),
{
    let mut out: Vec<String> = Vec::new();
    match v.get(key) {
        Some(Json::Array(items)) => {
            proof {
                lemma_view_items(items@);
            }
            let ghost vs = view_items(items@);
            let mut i: usize = 0;
            proof {
                assert(strs_view(out@) =~= item_names(vs.take(0)));
            }
            while i < items.len()
                invariant
                    jget(v@, key@) == Some(JsonV::Array(vs)),
                    vs == view_items(items@),
                    vs.len() == items@.len(),
                    forall|k: int| 0 <= k < items@.len() ==> #[trigger] vs[k] == items@[k]@,
                    i <= items@.len(),
                    strs_view(out@) == item_names(vs.take(i as int)),
                decreases items@.len() - i,
            {
                proof {
                    assert(vs.take(i + 1).drop_last() =~= vs.take(i as int));
                    assert(vs.take(i + 1).last() == vs[i as int]);
                }
                let ghost before = strs_view(out@);
                match items[i].get("name") {
                    Some(n) => match n.as_str() {
                        Some(s) => {
                            out.push(s.to_owned());
                            assert(strs_view(out@) =~= before.push(s@));
                        },
                        None => {},
                    },
                    None => {},
                }
                i = i + 1;
            }
            proof {
                assert(vs.take(items@.len() as int) =~= vs);
            }
            out
        },
        _ => {
            assert(strs_view(out@) =~= Seq::<Seq<char>>::empty());
            out
        },
    }
}

/// The capabilities that a discovery result lists: the names of its tools,
/// resources and prompts.
pub fn snapshot_from_discovery(value: &Json) -> (r: McpCapabilitySnapshot)
    ensures
        strs_view(r.tools@) == listed_names(value@, "tools"@),
        strs_view(r.resources@) == listed_names(value@, "resources"@),
        strs_view(r.prompts@) == listed_names(value@, "prompts"@),
{
    McpCapabilitySnapshot {
        tools: listed_names_exec(value, "tools"),
        resources: listed_names_exec(value, "resources"),
        prompts: listed_names_exec(value, "prompts"),
    }
}

/// The index of the requirement for a capability, if the integration has
/// one.
pub open spec fn requirement_index(id: Seq<char>, capability: Seq<char>) -> Option<int> {
    let ps = requirement_pairs(id);
    if exists|i: int| 0 <= i < ps.len() && ps[i].0 == capability {
        Some(choose|i: int| 0 <= i < ps.len() && ps[i].0 == capability && forall|j: int| 0 <= j < i ==> ps[j].0 != capability)
    } else {
        None
    }
}

/// Whether a product capability can be used: unsupported when the
/// integration does not offer it, temporarily unavailable without a running
/// server, available when the server has the needed tool, else unsupported.
pub open spec fn capability_state(id: Seq<char>, capability: Seq<char>, tools: Option<Seq<Seq<char>>>) -> NormalizedCapability {
    match requirement_index(id, capability) {
        None => NormalizedCapability::Unsupported,
        Some(i) => match tools {
            None => NormalizedCapability::TemporarilyUnavailable,
            Some(ts) => if ts.contains(requirement_pairs(id)[i].1) {
                NormalizedCapability::Available
            } else {
                NormalizedCapability::Unsupported
            },
        },
    }
}

fn contains_str(v: &Vec<String>, s: &str) -> (r: bool)
    ensures
        r == strs_view(v@).contains(s@),
{
    let mut i: usize = 0;
    while i < v.len()
        invariant
            i <= v@.len(),
            forall|j: int| 0 <= j < i ==> strs_view(v@)[j] != s@,
        decreases v@.len() - i,
    {
        if str_eq(v[i].as_str(), s) {
            assert(strs_view(v@)[i as int] == s@);
            return true;
        }
        i = i + 1;
    }
    false
}

/// Decides whether a product capability can be used, given the tools of
/// the instance's running server (`None` when none runs).
pub fn capability_status(definition: &IntegrationDefinitionId, capability: &CapabilityId, runtime_tools: Option<&Vec<String>>) -> (r: NormalizedCapability)
    ensures
        r == capability_state(
            definition.0@,
            capability.0@,
            match runtime_tools {
                Some(t) => Some(strs_view(t@)),
                None => None,
            },
        ),
{
    let reqs = capability_requirements(definition);
    let ghost ps = requirement_pairs(definition.0@);
    let mut i: usize = 0;
    while i < reqs.len()
        invariant
            ps == requirement_pairs(definition.0@),
            reqs@.len() == ps.len(),
            forall|k: int| 0 <= k < reqs@.len() ==> requirement_is(#[trigger] reqs@[k], ps[k]),
            i <= reqs@.len(),
            forall|k: int| 0 <= k < i ==> ps[k].0 != capability.0@,
        decreases reqs@.len() - i,
    {
        assert(requirement_is(reqs@[i as int], ps[i as int]));
        if str_eq(reqs[i].product_capability.0.as_str(), capability.0.as_str()) {
            proof {
                let w = choose|k: int| 0 <= k < ps.len() && ps[k].0 == capability.0@ && forall|j: int| 0 <= j < k ==> ps[j].0 != capability.0@;
                assert(0 <= i < ps.len() && ps[i as int].0 == capability.0@);
                if w < i {
                } else if w > i {
                    assert(ps[i as int].0 != capability.0@);
                }
            }
            return match runtime_tools {
                None => NormalizedCapability::TemporarilyUnavailable,
                Some(tools) => {
                    assert(strs_view(reqs@[i as int].required_tools@).len() == 1);
                    assert(reqs@[i as int].required_tools@.len() == 1);
                    assert(strs_view(reqs@[i as int].required_tools@)[0] == ps[i as int].1);
                    if contains_str(tools, reqs[i].required_tools[0].as_str()) {
                        NormalizedCapability::Available
                    } else {
                        NormalizedCapability::Unsupported
                    }
                },
            };
        }
        i = i + 1;
    }
    NormalizedCapability::Unsupported
}

/// The health of an instance's server: ready while it runs, else degraded
/// with one error.
pub fn health_snapshot(running: bool) -> (r: McpHealthSnapshot)
    ensures
        running ==> r.status == IntegrationStatus::Ready && r.error_count == 0 && r.last_error is None && r.issue is None,
        !running ==> r.status == (IntegrationStatus::Degraded { reason: IntegrationIssue::RuntimeUnavailable })
            && r.error_count == 1 && crate::json::ostring(r.last_error) == Some("runtime unavailable"@)
            && r.issue == Some(IntegrationIssue::RuntimeUnavailable),
{
    if running {
        McpHealthSnapshot { status: IntegrationStatus::Ready, error_count: 0, last_error: None, issue: None }
    } else {
        McpHealthSnapshot {
            status: IntegrationStatus::Degraded { reason: IntegrationIssue::RuntimeUnavailable },
            error_count: 1,
            last_error: Some("runtime unavailable".to_owned()),
            issue: Some(IntegrationIssue::RuntimeUnavailable),
        }
    }
}

/// Checks a launch: only stdio servers can be launched, and every variable
/// given must be on the transport's allow-list.
pub fn check_launch(transport: &McpTransportConfig, env_keys: &Vec<String>) -> (r: Result<(), IntegrationCommandError>)
    ensures
        transport.kind != McpTransportKind::Stdio ==> r == Err::<(), IntegrationCommandError>(IntegrationCommandError::RuntimeUnavailable),
        transport.kind == McpTransportKind::Stdio ==> (r is Ok <==> forall|i: int| 0 <= i < env_keys@.len() ==> strs_view(transport.env_allowlist@).contains(#[trigger] env_keys@[i]@)),
        r matches Err(e) ==> (e == IntegrationCommandError::RuntimeUnavailable || (e matches IntegrationCommandError::ConfigurationInvalid { fields } && fields@.len() == 0)),
{
    match transport.kind {
        McpTransportKind::Stdio => {},
        _ => {
            return Err(IntegrationCommandError::RuntimeUnavailable);
        },
    }
    let mut i: usize = 0;
    while i < env_keys.len()
        invariant
            transport.kind == McpTransportKind::Stdio,
            i <= env_keys@.len(),
            forall|k: int| 0 <= k < i ==> strs_view(transport.env_allowlist@).contains(#[trigger] env_keys@[k]@),
        decreases env_keys@.len() - i,
    {
        if !contains_str(&transport.env_allowlist, env_keys[i].as_str()) {
            return Err(IntegrationCommandError::ConfigurationInvalid { fields: Vec::new() });
        }
        i = i + 1;
    }
    Ok(())
}

// ── Runtime identity ──────────────────────────────────────────────────────

/// What a running server was started from, as fingerprints: of its
/// non-secret settings, of its secrets, and of its transport arguments.
#[derive(Debug, Clone, PartialEq, Eq)]
pub struct McpRuntimeIdentity {
    pub definition_id: IntegrationDefinitionId,
    pub instance_id: IntegrationInstanceId,
    pub non_secret_fingerprint: String,
    pub secret_fingerprint: String,
    pub transport_fingerprint: String,
}

/// The bytes that are hashed for a list of texts: each text's UTF-8 bytes
/// followed by a zero byte.
pub open spec fn hash_input(parts: Seq<Seq<char>>) -> Seq<u8>
    decreases parts.len(),
{
    if parts.len() == 0 {
        Seq::empty()
    } else {
        hash_input(parts.drop_last()) + vstd::utf8::encode_utf8(parts.last()) + seq![0u8]
    }
}

/// The fingerprint of a list of texts: the hexadecimal SHA-256 digest of
/// their hash input.
pub open spec fn parts_fingerprint(parts: Seq<Seq<char>>) -> Seq<char> {
    hex_text(sha256_of(hash_input(parts)))
}

/// The fingerprint of a list of texts (see `parts_fingerprint`).
pub fn hash_parts(parts: &Vec<String>) -> (r: String)
    ensures
        r@ == parts_fingerprint(strs_view(parts@)),
{
    let ghost pv = strs_view(parts@);
    let mut bytes: Vec<u8> = Vec::new();
    let mut i: usize = 0;
    while i < parts.len()
        invariant
            i <= parts@.len(),
            pv == strs_view(parts@),
            bytes@ == hash_input(pv.take(i as int)),
        decreases parts@.len() - i,
    {
        assert(pv.take(i + 1).drop_last() =~= pv.take(i as int));
        let text = parts[i].as_str();
        let b = text.as_bytes();
        proof {
            assert(text.spec_bytes() =~= vstd::utf8::encode_utf8(text@));
        }
        let mut j: usize = 0;
        let ghost start = bytes@;
        while j < b.len()
            invariant
                j <= b@.len(),
                bytes@ == start + b@.take(j as int),
            decreases b@.len() - j,
        {
            bytes.push(b[j]);
            j = j + 1;
            assert(bytes@ =~= start + b@.take(j as int));
        }
        assert(b@.take(b@.len() as int) =~= b@);
        bytes.push(0u8);
        i = i + 1;
        assert(bytes@ =~= hash_input(pv.take(i as int)));
    }
    assert(pv.take(parts@.len() as int) =~= pv);
    sha256_hex(bytes.as_slice())
}

/// Inserts a text after the texts that come before or equal it.
pub open spec fn insert_text(sorted: Seq<Seq<char>>, x: Seq<char>) -> Seq<Seq<char>>
    decreases sorted.len(),
{
    if sorted.len() == 0 {
        seq![x]
    } else if label_le(sorted.last(), x) {
        sorted.push(x)
    } else {
        insert_text(sorted.drop_last(), x).push(sorted.last())
    }
}

/// Texts in ascending order (equal texts keep their order).
pub open spec fn sorted_texts(s: Seq<Seq<char>>) -> Seq<Seq<char>>
    decreases s.len(),
{
    if s.len() == 0 {
        Seq::empty()
    } else {
        insert_text(sorted_texts(s.drop_last()), s.last())
    }
}

proof fn lemma_insert_text_at(s: Seq<Seq<char>>, x: Seq<char>, j: int)
    requires
        0 <= j <= s.len(),
        forall|k: int| j <= k < s.len() ==> !label_le(#[trigger] s[k], x),
        j == 0 || label_le(s[j - 1], x),
    ensures
        insert_text(s, x) == s.take(j).push(x) + s.skip(j),
    decreases s.len(),
{
    if s.len() == 0 {
        assert(s.take(j).push(x) + s.skip(j) =~= seq![x]);
    } else if label_le(s.last(), x) {
        assert(j == s.len()) by {
            if j < s.len() {
                assert(!label_le(s[s.len() - 1], x));
            }
        }
        assert(s.take(j).push(x) + s.skip(j) =~= s.push(x));
    } else {
        let t = s.drop_last();
        assert(j < s.len()) by {
            if j == s.len() {
                assert(label_le(s[j - 1], x));
            }
        }
        assert forall|k: int| j <= k < t.len() implies !label_le(#[trigger] t[k], x) by {
            assert(t[k] == s[k]);
        }
        if j > 0 {
            assert(t[j - 1] == s[j - 1]);
        }
        lemma_insert_text_at(t, x, j);
        assert(t.take(j).push(x) + t.skip(j) + seq![s.last()] =~= s.take(j).push(x) + s.skip(j));
    }
}

/// Sorts texts in ascending order (see `sorted_texts`).
pub fn sort_texts(v: &Vec<String>) -> (r: Vec<String>)
    ensures
        strs_view(r@) == sorted_texts(strs_view(v@)),
{
    let ghost vv = strs_view(v@);
    let mut out: Vec<String> = Vec::new();
    let mut n: usize = 0;
    while n < v.len()
        invariant
            n <= v@.len(),
            vv == strs_view(v@),
            strs_view(out@) == sorted_texts(vv.take(n as int)),
        decreases v@.len() - n,
    {
        let ghost s = strs_view(out@);
        assert(vv.take(n + 1).drop_last() =~= vv.take(n as int));
        let mut j = out.len();
        while j > 0 && !label_le_exec(out[j - 1].as_str(), v[n].as_str())
            invariant
                j <= out@.len(),
                n < v@.len(),
                s == strs_view(out@),
                vv == strs_view(v@),
                forall|k: int| j <= k < s.len() ==> !label_le(#[trigger] s[k], vv[n as int]),
            decreases j,
        {
            j = j - 1;
        }
        proof {
            lemma_insert_text_at(s, vv[n as int], j as int);
        }
        out.insert(j, v[n].as_str().to_owned());
        assert(strs_view(out@) =~= s.take(j as int).push(vv[n as int]) + s.skip(j as int));
        n = n + 1;
    }
    assert(vv.take(v@.len() as int) =~= vv);
    out
}

/// The value of the first variable of that name.
pub open spec fn secret_value(env: Seq<(Seq<char>, Seq<char>)>, k: Seq<char>) -> Seq<char>
    decreases env.len(),
{
    if env.len() == 0 {
        Seq::empty()
    } else if env[0].0 == k {
        env[0].1
    } else {
        secret_value(env.drop_first(), k)
    }
}

/// The views of named secrets.
pub open spec fn secrets_view(env: Seq<(String, RuntimeSecret)>) -> Seq<(Seq<char>, Seq<char>)> {
    env.map_values(|e: (String, RuntimeSecret)| (e.0@, e.1.view()))
}

/// The texts whose fingerprint identifies the secrets: `name:value` for
/// each variable, by name in ascending order.
pub open spec fn secret_parts(env: Seq<(Seq<char>, Seq<char>)>) -> Seq<Seq<char>> {
    sorted_texts(env.map_values(|e: (Seq<char>, Seq<char>)| e.0)).map_values(
        |k: Seq<char>| k + ":"@ + secret_value(env, k),
    )
}

fn secret_of(env: &Vec<(String, RuntimeSecret)>, k: &str) -> (r: String)
    ensures
        r@ == secret_value(secrets_view(env@), k@),
{
    let ghost ev = secrets_view(env@);
    let mut i: usize = 0;
    assert(ev.skip(0) =~= ev);
    while i < env.len()
        invariant
            i <= env@.len(),
            ev == secrets_view(env@),
            secret_value(ev, k@) == secret_value(ev.skip(i as int), k@),
        decreases env@.len() - i,
    {
        assert(ev.skip(i as int)[0] == ev[i as int]);
        assert(ev.skip(i as int).drop_first() =~= ev.skip(i + 1));
        if str_eq(env[i].0.as_str(), k) {
            return env[i].1.expose().to_owned();
        }
        i = i + 1;
    }
    String::new()
}

/// The identity of a server runtime started for an instance with these
/// secrets and transport arguments: the non-secret fingerprint covers the
/// definition and whether the instance is enabled, the secret fingerprint
/// covers each variable and value, the transport fingerprint the
/// arguments.
pub fn runtime_identity(instance: &IntegrationInstance, env: &Vec<(String, RuntimeSecret)>, transport_args: &Vec<String>) -> (r: McpRuntimeIdentity)
    ensures
        r.definition_id.0@ == instance.definition_id.0@,
        r.instance_id.0@ == instance.id.0@,
        r.non_secret_fingerprint@ == parts_fingerprint(
            seq![instance.definition_id.0@, if instance.enabled { "true"@ } else { "false"@ }],
        ),
        r.secret_fingerprint@ == parts_fingerprint(secret_parts(secrets_view(env@))),
        r.transport_fingerprint@ == parts_fingerprint(strs_view(transport_args@)),
{
    let ghost ev = secrets_view(env@);
    let mut keys: Vec<String> = Vec::new();
    let mut i: usize = 0;
    while i < env.len()
        invariant
            i <= env@.len(),
            ev == secrets_view(env@),
            strs_view(keys@) == ev.take(i as int).map_values(|e: (Seq<char>, Seq<char>)| e.0),
        decreases env@.len() - i,
    {
        let ghost before = strs_view(keys@);
        keys.push(env[i].0.as_str().to_owned());
        assert(ev[i as int].0 == env@[i as int].0@);
        assert(strs_view(keys@) =~= before.push(ev[i as int].0));
        assert(strs_view(keys@) =~= ev.take(i + 1).map_values(|e: (Seq<char>, Seq<char>)| e.0));
        i = i + 1;
    }
    assert(ev.take(env@.len() as int) =~= ev);
    let sorted = sort_texts(&keys);
    let ghost sk = strs_view(sorted@);
    let mut parts: Vec<String> = Vec::new();
    let mut k: usize = 0;
    while k < sorted.len()
        invariant
            k <= sorted@.len(),
            sk == strs_view(sorted@),
            ev == secrets_view(env@),
            strs_view(parts@) == sk.take(k as int).map_values(|x: Seq<char>| x + ":"@ + secret_value(ev, x)),
        decreases sorted@.len() - k,
    {
        let v = secret_of(env, sorted[k].as_str());
        let part = sorted[k].as_str().to_owned().concat(":").concat(v.as_str());
        proof {
            reveal_strlit(":");
        }
        assert(part@ =~= sk[k as int] + ":"@ + secret_value(ev, sk[k as int]));
        let ghost before = strs_view(parts@);
        parts.push(part);
        assert(strs_view(parts@) =~= before.push(sk[k as int] + ":"@ + secret_value(ev, sk[k as int])));
        assert(strs_view(parts@) =~= sk.take(k + 1).map_values(|x: Seq<char>| x + ":"@ + secret_value(ev, x)));
        k = k + 1;
    }
    assert(sk.take(sorted@.len() as int) =~= sk);
    let mut plain: Vec<String> = Vec::new();
    plain.push(instance.definition_id.0.as_str().to_owned());
    plain.push(if instance.enabled { "true".to_owned() } else { "false".to_owned() });
    assert(strs_view(plain@) =~= seq![instance.definition_id.0@, if instance.enabled { "true"@ } else { "false"@ }]);
    McpRuntimeIdentity {
        definition_id: IntegrationDefinitionId(instance.definition_id.0.as_str().to_owned()),
        instance_id: IntegrationInstanceId(instance.id.0.as_str().to_owned()),
        non_secret_fingerprint: hash_parts(&plain),
        secret_fingerprint: hash_parts(&parts),
        transport_fingerprint: hash_parts(transport_args),
    }
}

} // verus!
