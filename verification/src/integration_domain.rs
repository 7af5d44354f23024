//! Integration definitions (what the product offers), instances (what a
//! user configured), their statuses, and the curated catalog.

use vstd::prelude::*;
use crate::json::ostring;
use crate::text::str_eq;

verus! {

/// The identity of an integration definition (a catalog entry).
#[derive(Debug, Clone, PartialEq, Eq)]
pub struct IntegrationDefinitionId(pub String);

/// The identity of a configured integration instance (a UUID, hyphenated).
#[derive(Debug, Clone, PartialEq, Eq)]
pub struct IntegrationInstanceId(pub String);

/// The identity of a product capability.
#[derive(Debug, Clone, PartialEq, Eq)]
pub struct CapabilityId(pub String);

impl IntegrationDefinitionId {
    /// The id as text.
    pub fn to_string(&self) -> (r: String)
        ensures
            r@ == self.0@,
    {
        self.0.as_str().to_owned()
    }
}

impl IntegrationInstanceId {
    /// The id as text.
    pub fn to_string(&self) -> (r: String)
        ensures
            r@ == self.0@,
    {
        self.0.as_str().to_owned()
    }
}

impl CapabilityId {
    /// The id as text.
    pub fn to_string(&self) -> (r: String)
        ensures
            r@ == self.0@,
    {
        self.0.as_str().to_owned()
    }
}

/// The area an integration belongs to.
#[derive(Debug, Clone, Copy, PartialEq, Eq, Structural)]
pub enum IntegrationCategory {
    Communication,
    Knowledge,
    ProjectManagement,
    Files,
    Calendar,
    Development,
    Custom,
}

/// A catalog entry: what can be configured and what it offers.
#[derive(Debug, Clone, PartialEq, Eq)]
pub struct IntegrationDefinition {
    pub id: IntegrationDefinitionId,
    pub display_name: String,
    pub description: String,
    pub category: IntegrationCategory,
    pub icon: String,
    pub capabilities: Vec<IntegrationCapability>,
    pub setup_schema: Vec<SetupField>,
    pub availability: IntegrationAvailability,
}

/// Whether an integration can be configured on this installation.
#[derive(Debug, Clone, PartialEq, Eq)]
pub enum IntegrationAvailability {
    Available,
    Unavailable { reason: String },
}

/// A capability that an integration offers.
#[derive(Debug, Clone, PartialEq, Eq)]
pub struct IntegrationCapability {
    pub id: CapabilityId,
    pub display_name: String,
    pub description: String,
    pub access: CapabilityAccess,
}

/// What a capability does with the user's data.
#[derive(Debug, Clone, Copy, PartialEq, Eq, Structural)]
pub enum CapabilityAccess {
    Read,
    Write,
    Execute,
}

/// One field of an integration's setup form.
#[derive(Debug, Clone, PartialEq, Eq)]
pub struct SetupField {
    pub key: String,
    pub label: String,
    pub description: Option<String>,
    pub field_type: SetupFieldType,
    pub required: bool,
    pub secret: bool,
    pub default_value: Option<String>,
    pub validation: Option<FieldValidation>,
}

/// The kind of input a setup field takes.
#[derive(Debug, Clone, PartialEq, Eq)]
pub enum SetupFieldType {
    Text,
    Password,
    Url,
    Number,
    Boolean,
    Select { options: Vec<SelectOption> },
}

/// One choice of a select field.
#[derive(Debug, Clone, PartialEq, Eq)]
pub struct SelectOption {
    pub label: String,
    pub value: String,
}

/// Constraints on a setup field's value.
#[derive(Debug, Clone, PartialEq, Eq)]
pub struct FieldValidation {
    pub min_length: Option<usize>,
    pub max_length: Option<usize>,
    pub pattern: Option<String>,
}

/// A configured integration. Times are milliseconds since the Unix epoch.
#[derive(Debug, Clone, PartialEq, Eq)]
pub struct IntegrationInstance {
    pub version: u32,
    pub id: IntegrationInstanceId,
    pub definition_id: IntegrationDefinitionId,
    pub display_name: String,
    pub status: IntegrationStatus,
    pub enabled: bool,
    pub management: IntegrationManagement,
    pub configured_capabilities: Vec<CapabilityId>,
    pub created_at: i64,
    pub updated_at: i64,
}

/// The schema version of stored integration instances.
pub const INTEGRATION_INSTANCE_SCHEMA_VERSION: u32 = 1;

/// The schema version that stored instances without one are read as.
pub fn integration_instance_schema_version() -> (r: u32)
    ensures
        r == INTEGRATION_INSTANCE_SCHEMA_VERSION,
{
    INTEGRATION_INSTANCE_SCHEMA_VERSION
}

/// Who manages an integration instance.
#[derive(Debug, Clone, Copy, PartialEq, Eq, Structural)]
pub enum IntegrationManagement {
    UserManaged,
    AdministratorManaged,
    SystemManaged,
}

/// The lifecycle status of an integration instance.
#[derive(Debug, Clone, PartialEq, Eq)]
pub enum IntegrationStatus {
    NotConfigured,
    Configuring,
    Connecting,
    Ready,
    Degraded { reason: IntegrationIssue },
    NeedsAttention { reason: IntegrationIssue },
    Disabled,
    Unsupported { reason: String },
}

/// The name under which users see each status.
pub open spec fn user_status(s: IntegrationStatus) -> Seq<char> {
    match s {
        IntegrationStatus::NotConfigured => "not_configured"@,
        IntegrationStatus::Configuring => "configuring"@,
        IntegrationStatus::Connecting => "connecting"@,
        IntegrationStatus::Ready => "ready"@,
        IntegrationStatus::Degraded { .. } => "degraded"@,
        IntegrationStatus::NeedsAttention { .. } => "needs_attention"@,
        IntegrationStatus::Disabled => "disabled"@,
        IntegrationStatus::Unsupported { .. } => "unsupported"@,
    }
}

impl IntegrationStatus {
    /// The status as users see it; the reasons stay hidden.
    pub fn as_user_status(&self) -> (r: &'static str)
        ensures
            r@ == user_status(*self),
    {
        match self {
            IntegrationStatus::NotConfigured => "not_configured",
            IntegrationStatus::Configuring => "configuring",
            IntegrationStatus::Connecting => "connecting",
            IntegrationStatus::Ready => "ready",
            IntegrationStatus::Degraded { .. } => "degraded",
            IntegrationStatus::NeedsAttention { .. } => "needs_attention",
            IntegrationStatus::Disabled => "disabled",
            IntegrationStatus::Unsupported { .. } => "unsupported",
        }
    }
}

/// Why an integration is degraded or needs attention.
#[derive(Debug, Clone, Copy, PartialEq, Eq, Structural)]
pub enum IntegrationIssue {
    AuthenticationRequired,
    AuthenticationExpired,
    PermissionDenied,
    NetworkUnavailable,
    ServiceUnavailable,
    ConfigurationInvalid,
    RuntimeUnavailable,
    HealthCheckFailed,
    Unknown,
}

/// An integration as a user sees it.
#[derive(Debug, Clone, PartialEq, Eq)]
pub struct UserIntegrationDto {
    pub id: IntegrationInstanceId,
    pub definition_id: IntegrationDefinitionId,
    pub display_name: String,
    pub description: String,
    pub category: IntegrationCategory,
    pub status: String,
    pub enabled: bool,
    pub capabilities: Vec<UserCapabilityDto>,
}

/// A capability as a user sees it.
#[derive(Debug, Clone, PartialEq, Eq)]
pub struct UserCapabilityDto {
    pub id: CapabilityId,
    pub display_name: String,
    pub description: String,
    pub access: CapabilityAccess,
}

/// An integration as an administrator sees it.
#[derive(Debug, Clone, PartialEq, Eq)]
pub struct AdminIntegrationDto {
    pub id: IntegrationInstanceId,
    pub definition_id: IntegrationDefinitionId,
    pub display_name: String,
    pub status: IntegrationStatus,
    pub management: IntegrationManagement,
    pub setup_schema: Vec<SetupField>,
    pub configured_fields: Vec<ConfiguredFieldDto>,
    pub diagnostics: Option<IntegrationDiagnosticsDto>,
}

/// Whether a setup field is configured; secret values are never shown.
#[derive(Debug, Clone, PartialEq, Eq)]
pub struct ConfiguredFieldDto {
    pub key: String,
    pub configured: bool,
    pub value: Option<String>,
}

/// Health details for administrators (times in milliseconds since the
/// Unix epoch).
#[derive(Debug, Clone, PartialEq, Eq)]
pub struct IntegrationDiagnosticsDto {
    pub last_health_check: Option<i64>,
    pub error_count: u64,
    pub last_error: Option<String>,
}

/// Why an integration command failed.
#[derive(Debug, Clone, PartialEq, Eq)]
pub enum IntegrationCommandError {
    DefinitionNotFound,
    InstanceNotFound,
    AlreadyConfigured,
    ConfigurationInvalid { fields: Vec<FieldError> },
    AuthenticationRequired,
    PermissionDenied,
    RuntimeUnavailable,
    HealthCheckFailed,
    SecretStoreUnavailable,
    Persistence { message: String },
    UnsupportedSchemaVersion { version: u32 },
    Internal { message: String },
}

/// A problem with one submitted setup field.
#[derive(Debug, Clone, PartialEq, Eq)]
pub struct FieldError {
    pub key: String,
    pub message: String,
}

/// True when `d` is an available definition with the given fields and
/// numbers of capabilities and setup fields.
pub open spec fn def_is(
    d: IntegrationDefinition,
    id: Seq<char>,
    name: Seq<char>,
    desc: Seq<char>,
    cat: IntegrationCategory,
    icon: Seq<char>,
    ncaps: nat,
    nfields: nat,
) -> bool {
    &&& d.id.0@ == id
    &&& d.display_name@ == name
    &&& d.description@ == desc
    &&& d.category == cat
    &&& d.icon@ == icon
    &&& d.capabilities@.len() == ncaps
    &&& d.setup_schema@.len() == nfields
    &&& d.availability is Available
}

/// True when `c` is the capability with the given fields.
pub open spec fn cap_is(c: IntegrationCapability, id: Seq<char>, name: Seq<char>, desc: Seq<char>, access: CapabilityAccess) -> bool {
    &&& c.id.0@ == id
    &&& c.display_name@ == name
    &&& c.description@ == desc
    &&& c.access == access
}

/// True when `f` is a plain setup field with the given key and label: a
/// password field when secret, text otherwise, with no description,
/// default or validation.
pub open spec fn field_is(f: SetupField, key: Seq<char>, label: Seq<char>, required: bool, secret: bool) -> bool {
    &&& f.key@ == key
    &&& f.label@ == label
    &&& f.description is None
    &&& (if secret { f.field_type is Password } else { f.field_type is Text })
    &&& f.required == required
    &&& f.secret == secret
    &&& f.default_value is None
    &&& f.validation is None
}

fn definition(
    id: &str,
    display_name: &str,
    description: &str,
    category: IntegrationCategory,
    icon: &str,
    capabilities: Vec<IntegrationCapability>,
    setup_schema: Vec<SetupField>,
) -> (r: IntegrationDefinition)
    ensures
        def_is(r, id@, display_name@, description@, category, icon@, capabilities@.len(), setup_schema@.len()),
        r.capabilities@ == capabilities@,
        r.setup_schema@ == setup_schema@,
{
    IntegrationDefinition {
        id: IntegrationDefinitionId(id.to_owned()),
        display_name: display_name.to_owned(),
        description: description.to_owned(),
        category,
        icon: icon.to_owned(),
        capabilities,
        setup_schema,
        availability: IntegrationAvailability::Available,
    }
}

fn capability(id: &str, display_name: &str, description: &str, access: CapabilityAccess) -> (r: IntegrationCapability)
    ensures
        cap_is(r, id@, display_name@, description@, access),
{
    IntegrationCapability {
        id: CapabilityId(id.to_owned()),
        display_name: display_name.to_owned(),
        description: description.to_owned(),
        access,
    }
}

fn field(key: &str, label: &str, required: bool, secret: bool) -> (r: SetupField)
    ensures
        field_is(r, key@, label@, required, secret),
{
    SetupField {
        key: key.to_owned(),
        label: label.to_owned(),
        description: None,
        field_type: if secret {
            SetupFieldType::Password
        } else {
            SetupFieldType::Text
        },
        required,
        secret,
        default_value: None,
        validation: None,
    }
}

/// The ids of the curated integrations, in catalog order.
pub open spec fn curated_id(i: int) -> Seq<char> {
    if i == 0 {
        "gmail"@
    } else if i == 1 {
        "jira"@
    } else {
        "confluence"@
    }
}

/// True when `d` is entry `i` of the curated catalog, with its
/// capabilities and setup fields; every entry is available.
pub open spec fn curated_entry(d: IntegrationDefinition, i: int) -> bool {
    if i == 0 {
        &&& def_is(d, "gmail"@, "Gmail"@, "Connect Gmail to read and send email."@, IntegrationCategory::Communication, "gmail"@, 2, 2)
        &&& cap_is(d.capabilities@[0], "email.read"@, "Read email"@, "Read messages and labels."@, CapabilityAccess::Read)
        &&& cap_is(d.capabilities@[1], "email.send"@, "Send email"@, "Send email messages."@, CapabilityAccess::Write)
        &&& field_is(d.setup_schema@[0], "email"@, "Email address"@, false, false)
        &&& field_is(d.setup_schema@[1], "app_password"@, "App password"@, true, true)
    } else if i == 1 {
        &&& def_is(d, "jira"@, "Jira"@, "Connect Jira projects and issues."@, IntegrationCategory::ProjectManagement, "jira"@, 3, 3)
        &&& cap_is(d.capabilities@[0], "issue.read"@, "Read issues"@, "Read Jira issues."@, CapabilityAccess::Read)
        &&& cap_is(d.capabilities@[1], "issue.write"@, "Update issues"@, "Create and update Jira issues."@, CapabilityAccess::Write)
        &&& cap_is(d.capabilities@[2], "issue.transition"@, "Transition issues"@, "Change issue workflow status."@, CapabilityAccess::Execute)
        &&& field_is(d.setup_schema@[0], "base_url"@, "Jira URL"@, true, false)
        &&& field_is(d.setup_schema@[1], "email"@, "Email address"@, true, false)
        &&& field_is(d.setup_schema@[2], "api_token"@, "API token"@, true, true)
    } else {
        &&& def_is(d, "confluence"@, "Confluence"@, "Connect Confluence knowledge spaces."@, IntegrationCategory::Knowledge, "confluence"@, 2, 3)
        &&& cap_is(d.capabilities@[0], "page.read"@, "Read pages"@, "Read Confluence pages."@, CapabilityAccess::Read)
        &&& cap_is(d.capabilities@[1], "page.write"@, "Write pages"@, "Create and update pages."@, CapabilityAccess::Write)
        &&& field_is(d.setup_schema@[0], "base_url"@, "Confluence URL"@, true, false)
        &&& field_is(d.setup_schema@[1], "email"@, "Email address"@, true, false)
        &&& field_is(d.setup_schema@[2], "api_token"@, "API token"@, true, true)
    }
}

/// True when `r` is the curated catalog: Gmail, Jira and Confluence.
pub open spec fn is_curated_catalog(r: Seq<IntegrationDefinition>) -> bool {
    r.len() == 3 && forall|i: int| 0 <= i < 3 ==> curated_entry(#[trigger] r[i], i)
}

/// The integrations that the product offers.
pub fn curated_integration_catalog() -> (r: Vec<IntegrationDefinition>)
    ensures
        is_curated_catalog(r@),
{
    let mut r: Vec<IntegrationDefinition> = Vec::new();
    let mut caps: Vec<IntegrationCapability> = Vec::new();
    caps.push(capability("email.read", "Read email", "Read messages and labels.", CapabilityAccess::Read));
    caps.push(capability("email.send", "Send email", "Send email messages.", CapabilityAccess::Write));
    let mut fields: Vec<SetupField> = Vec::new();
    fields.push(field("email", "Email address", false, false));
    fields.push(field("app_password", "App password", true, true));
    r.push(definition("gmail", "Gmail", "Connect Gmail to read and send email.", IntegrationCategory::Communication, "gmail", caps, fields));
    let mut caps: Vec<IntegrationCapability> = Vec::new();
    caps.push(capability("issue.read", "Read issues", "Read Jira issues.", CapabilityAccess::Read));
    caps.push(capability("issue.write", "Update issues", "Create and update Jira issues.", CapabilityAccess::Write));
    caps.push(capability("issue.transition", "Transition issues", "Change issue workflow status.", CapabilityAccess::Execute));
    let mut fields: Vec<SetupField> = Vec::new();
    fields.push(field("base_url", "Jira URL", true, false));
    fields.push(field("email", "Email address", true, false));
    fields.push(field("api_token", "API token", true, true));
    r.push(definition("jira", "Jira", "Connect Jira projects and issues.", IntegrationCategory::ProjectManagement, "jira", caps, fields));
    let mut caps: Vec<IntegrationCapability> = Vec::new();
    caps.push(capability("page.read", "Read pages", "Read Confluence pages.", CapabilityAccess::Read));
    caps.push(capability("page.write", "Write pages", "Create and update pages.", CapabilityAccess::Write));
    let mut fields: Vec<SetupField> = Vec::new();
    fields.push(field("base_url", "Confluence URL", true, false));
    fields.push(field("email", "Email address", true, false));
    fields.push(field("api_token", "API token", true, true));
    r.push(definition("confluence", "Confluence", "Connect Confluence knowledge spaces.", IntegrationCategory::Knowledge, "confluence", caps, fields));
    assert(curated_entry(r@[0], 0) && curated_entry(r@[1], 1) && curated_entry(r@[2], 2));
    r
}

/// Where integration definitions come from.
pub trait IntegrationCatalogRepository {
    /// All definitions.
    fn list_definitions(&self) -> Result<Vec<IntegrationDefinition>, IntegrationCommandError>;

    /// The definition with the given id.
    fn get_definition(&self, id: &IntegrationDefinitionId) -> Result<IntegrationDefinition, IntegrationCommandError>;
}

/// The catalog of curated integrations.
pub struct StaticIntegrationCatalogRepository;

/// The definition with the given id in a list, if any (the first).
pub open spec fn find_definition(ds: Seq<IntegrationDefinition>, id: Seq<char>) -> Option<int> {
    if exists|i: int| 0 <= i < ds.len() && ds[i].id.0@ == id {
        Some(choose|i: int| 0 <= i < ds.len() && ds[i].id.0@ == id && forall|j: int| 0 <= j < i ==> ds[j].id.0@ != id)
    } else {
        None
    }
}

/// Takes the definition with the given id out of a list.
pub fn take_definition(ds: Vec<IntegrationDefinition>, id: &IntegrationDefinitionId) -> (r: Result<IntegrationDefinition, IntegrationCommandError>)
    ensures
        match find_definition(ds@, id.0@) {
            Some(i) => r == Ok::<IntegrationDefinition, IntegrationCommandError>(ds@[i]),
            None => r == Err::<IntegrationDefinition, IntegrationCommandError>(IntegrationCommandError::DefinitionNotFound),
        },
{
    let mut ds = ds;
    let ghost orig = ds@;
    let mut i: usize = 0;
    let mut found = false;
    while !found && i < ds.len()
        invariant
            ds@ == orig,
            i <= ds@.len(),
            found ==> i < ds@.len() && ds@[i as int].id.0@ == id.0@,
            forall|j: int| 0 <= j < i ==> ds@[j].id.0@ != id.0@,
        decreases ds@.len() - i + (if found { 0int } else { 1int }),
    {
        if str_eq(ds[i].id.0.as_str(), id.0.as_str()) {
            found = true;
        } else {
            i = i + 1;
        }
    }
    if found {
        proof {
            let w = choose|k: int| 0 <= k < orig.len() && orig[k].id.0@ == id.0@ && forall|j: int| 0 <= j < k ==> orig[j].id.0@ != id.0@;
            assert(0 <= i < orig.len() && orig[i as int].id.0@ == id.0@);
            if w < i {
            } else if w > i {
                assert(orig[i as int].id.0@ != id.0@);
            }
        }
        let d = ds.swap_remove(i);
        Ok(d)
    } else {
        Err(IntegrationCommandError::DefinitionNotFound)
    }
}

impl IntegrationCatalogRepository for StaticIntegrationCatalogRepository {
    fn list_definitions(&self) -> (r: Result<Vec<IntegrationDefinition>, IntegrationCommandError>)
        ensures
            r matches Ok(ds) && is_curated_catalog(ds@),
    {
        Ok(curated_integration_catalog())
    }

    fn get_definition(&self, id: &IntegrationDefinitionId) -> (r: Result<IntegrationDefinition, IntegrationCommandError>)
        ensures
            match r {
                Ok(d) => exists|i: int| 0 <= i < 3 && curated_entry(d, i) && curated_id(i) == id.0@,
                Err(e) => e == IntegrationCommandError::DefinitionNotFound && forall|i: int|
                    0 <= i < 3 ==> curated_id(i) != id.0@,
            },
    {
        let c = curated_integration_catalog();
        let ghost cv = c@;
        let r = take_definition(c, id);
        proof {
            match find_definition(cv, id.0@) {
                Some(i) => {
                    assert(curated_entry(cv[i], i));
                    assert(cv[i].id.0@ == id.0@);
                    assert(curated_id(i) == id.0@) by {
                        if i == 0 {
                        } else if i == 1 {
                        } else {
                        }
                    }
                    assert(0 <= i < 3 && curated_entry(cv[i], i) && curated_id(i) == id.0@);
                },
                None => {
                    assert forall|i: int| 0 <= i < 3 implies curated_id(i) != id.0@ by {
                        assert(curated_entry(cv[i], i));
                        assert(cv[i].id.0@ != id.0@);
                    }
                },
            }
        }
        r
    }
}

} // verus!
