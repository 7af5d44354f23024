//! The rules of the integration service: who may change an instance, which
//! setup values are accepted, how a configured instance is built, and what
//! users and administrators are shown of it.

use vstd::prelude::*;
use crate::json::ostring;
use crate::text::{str_eq, starts_with};
use crate::config::{byte_len, byte_count, strs_view};
use crate::float_syntax::{is_float_text, is_float_text_exec};
use crate::integration_domain::{IntegrationDefinition, IntegrationInstance, IntegrationInstanceId,
    IntegrationDefinitionId, IntegrationStatus, IntegrationIssue, IntegrationManagement,
    IntegrationCommandError, FieldError, SetupField, SetupFieldType, CapabilityId,
    IntegrationCapability, UserIntegrationDto, UserCapabilityDto, AdminIntegrationDto,
    ConfiguredFieldDto, user_status, INTEGRATION_INSTANCE_SCHEMA_VERSION};

verus! {

/// Who asks for an integration command.
#[derive(Debug, Clone, Copy, Default)]
pub struct IntegrationActor {
    pub is_admin: bool,
}

/// A submitted setup value.
#[derive(Clone)]
pub struct ConfiguredFieldValue {
    pub key: String,
    pub value: String,
}

/// A request to configure (create or update) an integration instance.
#[derive(Clone)]
pub struct ConfigureIntegrationRequest {
    pub definition_id: IntegrationDefinitionId,
    pub instance_id: Option<IntegrationInstanceId>,
    pub display_name: String,
    pub fields: Vec<ConfiguredFieldValue>,
    pub management: Option<IntegrationManagement>,
    pub enabled_capabilities: Vec<CapabilityId>,
}

/// What reconnecting the stored instances at start-up achieved.
#[derive(Debug, Clone, PartialEq, Eq)]
pub struct IntegrationRecoveryReport {
    pub loaded: usize,
    pub re_enabled: usize,
    pub failed: usize,
}

/// A health status as stored: transitional statuses reported by a health
/// check count as a failed check.
pub open spec fn normalized(s: IntegrationStatus) -> IntegrationStatus {
    match s {
        IntegrationStatus::Configuring | IntegrationStatus::Connecting | IntegrationStatus::NotConfigured => IntegrationStatus::Degraded {
            reason: IntegrationIssue::HealthCheckFailed,
        },
        other => other,
    }
}

/// Normalizes a status reported by a health check (see `normalized`).
pub fn normalize_status(status: IntegrationStatus) -> (r: IntegrationStatus)
    ensures
        r == normalized(status),
{
    match status {
        IntegrationStatus::Configuring | IntegrationStatus::Connecting | IntegrationStatus::NotConfigured => IntegrationStatus::Degraded {
            reason: IntegrationIssue::HealthCheckFailed,
        },
        other => other,
    }
}

/// The status an instance gets from a health check: the normalized status,
/// or degraded when the check itself failed.
pub fn status_from_health(health: Result<IntegrationStatus, IntegrationCommandError>) -> (r: IntegrationStatus)
    ensures
        r == (match health {
            Ok(s) => normalized(s),
            Err(_) => IntegrationStatus::Degraded { reason: IntegrationIssue::HealthCheckFailed },
        }),
{
    match health {
        Ok(s) => normalize_status(s),
        Err(_) => IntegrationStatus::Degraded { reason: IntegrationIssue::HealthCheckFailed },
    }
}

/// Only administrators may change an administrator-managed instance.
pub fn ensure_mutable(actor: &IntegrationActor, item: &IntegrationInstance) -> (r: Result<(), IntegrationCommandError>)
    ensures
        r is Err <==> (item.management == IntegrationManagement::AdministratorManaged && !actor.is_admin),
        r matches Err(e) ==> e == IntegrationCommandError::PermissionDenied,
{
    match item.management {
        IntegrationManagement::AdministratorManaged => {
            if !actor.is_admin {
                return Err(IntegrationCommandError::PermissionDenied);
            }
            Ok(())
        },
        _ => Ok(()),
    }
}

/// Names whether a regular expression compiles and matches a text:
/// `None` when the pattern is not a valid expression.
pub uninterp spec fn regex_match(pattern: Seq<char>, text: Seq<char>) -> Option<bool>;

/// `regex::Regex::new(pattern)` followed by `is_match(text)`.
#[verifier::external_body]
fn regex_is_match(pattern: &str, text: &str) -> (r: Option<bool>)
    ensures
        r == regex_match(pattern@, text@),
{
    match regex::Regex::new(pattern) {
        Ok(expression) => Some(expression.is_match(text)),
        Err(_) => None,
    }
}

/// True when some option of a select field has the value.
pub open spec fn has_option(options: Seq<crate::integration_domain::SelectOption>, v: Seq<char>) -> bool {
    exists|i: int| 0 <= i < options.len() && (#[trigger] options[i]).value@ == v
}

/// True when a value has the type of its field.
pub open spec fn typed_value(t: SetupFieldType, v: Seq<char>) -> bool {
    match t {
        SetupFieldType::Number => is_float_text(v),
        SetupFieldType::Boolean => v == "true"@ || v == "false"@,
        SetupFieldType::Url => starts_with(v, "http://"@) || starts_with(v, "https://"@),
        SetupFieldType::Select { options } => has_option(options@, v),
        _ => true,
    }
}

/// True when a value passes its field's type and validation: a length in
/// bytes within the bounds and, with a pattern, a valid expression that
/// matches.
pub open spec fn valid_value(f: SetupField, v: Seq<char>) -> bool {
    &&& typed_value(f.field_type, v)
    &&& match f.validation {
        None => true,
        Some(val) => {
            &&& (match val.min_length {
                Some(m) => byte_count(v) >= m,
                None => true,
            })
            &&& (match val.max_length {
                Some(m) => byte_count(v) <= m,
                None => true,
            })
            &&& (match val.pattern {
                Some(p) => regex_match(p@, v) == Some(true),
                None => true,
            })
        },
    }
}

/// Checks a value against its field's type and validation.
pub fn valid_field(field: &SetupField, value: &str) -> (r: bool)
    ensures
        r == valid_value(*field, value@),
{
    let typed = match &field.field_type {
        SetupFieldType::Number => is_float_text_exec(value),
        SetupFieldType::Boolean => str_eq(value, "true") || str_eq(value, "false"),
        SetupFieldType::Url => {
            let v = crate::text::chars_of(value);
            crate::text::starts_with_chars(v.as_slice(), crate::text::chars_of("http://").as_slice())
                || crate::text::starts_with_chars(v.as_slice(), crate::text::chars_of("https://").as_slice())
        },
        SetupFieldType::Select { options } => {
            let mut found = false;
            let mut i: usize = 0;
            while i < options.len()
                invariant
                    i <= options@.len(),
                    found == exists|j: int| 0 <= j < i && (#[trigger] options@[j]).value@ == value@,
                decreases options@.len() - i,
            {
                if str_eq(options[i].value.as_str(), value) {
                    found = true;
                }
                i = i + 1;
            }
            found
        },
        _ => true,
    };
    if !typed {
        return false;
    }
    match &field.validation {
        None => true,
        Some(val) => {
            let n = byte_len(value);
            let min_ok = match val.min_length {
                Some(m) => n >= m,
                None => true,
            };
            let max_ok = match val.max_length {
                Some(m) => n <= m,
                None => true,
            };
            if !min_ok || !max_ok {
                return false;
            }
            match &val.pattern {
                Some(p) => match regex_is_match(p.as_str(), value) {
                    Some(b) => b,
                    None => false,
                },
                None => true,
            }
        },
    }
}

/// The submitted values as key and value views.
pub open spec fn fields_view(fs: Seq<ConfiguredFieldValue>) -> Seq<(Seq<char>, Seq<char>)> {
    Seq::new(fs.len(), |i: int| (fs[i].key@, fs[i].value@))
}

/// The value submitted for a key: the last one given.
pub open spec fn supplied(fs: Seq<(Seq<char>, Seq<char>)>, key: Seq<char>) -> Option<Seq<char>>
    decreases fs.len(),
{
    if fs.len() == 0 {
        None
    } else if fs.last().0 == key {
        Some(fs.last().1)
    } else {
        supplied(fs.drop_last(), key)
    }
}

/// The value a setup field gets: the submitted one, else its default.
pub open spec fn field_value(f: SetupField, fs: Seq<(Seq<char>, Seq<char>)>) -> Option<Seq<char>> {
    match supplied(fs, f.key@) {
        Some(v) => Some(v),
        None => ostring(f.default_value),
    }
}

/// The problem with a setup field's value: `required` when a required
/// field has no value or an empty one, `invalid value` when a value fails
/// validation.
pub open spec fn field_problem(f: SetupField, fs: Seq<(Seq<char>, Seq<char>)>) -> Option<Seq<char>> {
    match field_value(f, fs) {
        None => if f.required {
            Some("required"@)
        } else {
            None
        },
        Some(v) => if f.required && v.len() == 0 {
            Some("required"@)
        } else if !valid_value(f, v) {
            Some("invalid value"@)
        } else {
            None
        },
    }
}

/// The field errors of the setup schema, in schema order.
pub open spec fn schema_errors(schema: Seq<SetupField>, fs: Seq<(Seq<char>, Seq<char>)>) -> Seq<(Seq<char>, Seq<char>)>
    decreases schema.len(),
{
    if schema.len() == 0 {
        Seq::empty()
    } else {
        let r = schema_errors(schema.drop_last(), fs);
        match field_problem(schema.last(), fs) {
            Some(m) => r.push((schema.last().key@, m)),
            None => r,
        }
    }
}

/// True when the schema has a field with the key.
pub open spec fn in_schema(schema: Seq<SetupField>, key: Seq<char>) -> bool {
    exists|i: int| 0 <= i < schema.len() && (#[trigger] schema[i]).key@ == key
}

/// An `unknown field` error for each submitted key that the schema lacks.
pub open spec fn unknown_errors(fs: Seq<(Seq<char>, Seq<char>)>, schema: Seq<SetupField>) -> Seq<(Seq<char>, Seq<char>)>
    decreases fs.len(),
{
    if fs.len() == 0 {
        Seq::empty()
    } else {
        let r = unknown_errors(fs.drop_last(), schema);
        if in_schema(schema, fs.last().0) {
            r
        } else {
            r.push((fs.last().0, "unknown field"@))
        }
    }
}

/// True when the definition offers the capability.
pub open spec fn offers(caps: Seq<IntegrationCapability>, id: Seq<char>) -> bool {
    exists|i: int| 0 <= i < caps.len() && (#[trigger] caps[i]).id.0@ == id
}

/// An `unsupported capability` error for each requested capability that
/// the definition does not offer.
pub open spec fn capability_errors(req: Seq<CapabilityId>, caps: Seq<IntegrationCapability>) -> Seq<(Seq<char>, Seq<char>)>
    decreases req.len(),
{
    if req.len() == 0 {
        Seq::empty()
    } else {
        let r = capability_errors(req.drop_last(), caps);
        if offers(caps, req.last().0@) {
            r
        } else {
            r.push((req.last().0@, "unsupported capability"@))
        }
    }
}

/// All problems of a configuration request, in order: schema fields,
/// unknown fields, unsupported capabilities.
pub open spec fn request_errors(d: IntegrationDefinition, req: ConfigureIntegrationRequest) -> Seq<(Seq<char>, Seq<char>)> {
    schema_errors(d.setup_schema@, fields_view(req.fields@)) + unknown_errors(fields_view(req.fields@), d.setup_schema@)
        + capability_errors(req.enabled_capabilities@, d.capabilities@)
}

/// The views of field errors.
pub open spec fn errors_view(es: Seq<FieldError>) -> Seq<(Seq<char>, Seq<char>)> {
    Seq::new(es.len(), |i: int| (es[i].key@, es[i].message@))
}

fn supplied_exec<'a>(fs: &'a Vec<ConfiguredFieldValue>, key: &str) -> (r: Option<&'a str>)
    ensures
        match r {
            Some(v) => supplied(fields_view(fs@), key@) == Some(v@),
            None => supplied(fields_view(fs@), key@) is None,
        },
{
    let ghost fv = fields_view(fs@);
    let mut i = fs.len();
    assert(fv.take(i as int) =~= fv);
    while i > 0
        invariant
            fv == fields_view(fs@),
            i <= fs@.len(),
            supplied(fv, key@) == supplied(fv.take(i as int), key@),
        decreases i,
    {
        proof {
            assert(fv.take(i as int).drop_last() =~= fv.take(i - 1));
            assert(fv.take(i as int).last() == fv[i - 1]);
        }
        if str_eq(fs[i - 1].key.as_str(), key) {
            return Some(fs[i - 1].value.as_str());
        }
        i = i - 1;
    }
    None
}

fn push_error(errors: &mut Vec<FieldError>, key: &str, message: &str)
    ensures
        errors_view(final(errors)@) == errors_view(old(errors)@).push((key@, message@)),
{
    errors.push(FieldError { key: key.to_owned(), message: message.to_owned() });
    assert(errors_view(errors@) =~= errors_view(old(errors)@).push((key@, message@)));
}

fn in_schema_exec(schema: &Vec<SetupField>, key: &str) -> (r: bool)
    ensures
        r == in_schema(schema@, key@),
{
    let mut i: usize = 0;
    while i < schema.len()
        invariant
            i <= schema@.len(),
            forall|j: int| 0 <= j < i ==> (#[trigger] schema@[j]).key@ != key@,
        decreases schema@.len() - i,
    {
        if str_eq(schema[i].key.as_str(), key) {
            return true;
        }
        i = i + 1;
    }
    false
}

fn offers_exec(caps: &Vec<IntegrationCapability>, id: &str) -> (r: bool)
    ensures
        r == offers(caps@, id@),
{
    let mut i: usize = 0;
    while i < caps.len()
        invariant
            i <= caps@.len(),
            forall|j: int| 0 <= j < i ==> (#[trigger] caps@[j]).id.0@ != id@,
        decreases caps@.len() - i,
    {
        if str_eq(caps[i].id.0.as_str(), id) {
            return true;
        }
        i = i + 1;
    }
    false
}

/// Checks a configuration request against its definition: every problem
/// becomes a field error (see `request_errors`), and any error rejects the
/// request.
pub fn validate_request(definition: &IntegrationDefinition, request: &ConfigureIntegrationRequest) -> (r: Result<(), IntegrationCommandError>)
    ensures
        match r {
            Ok(()) => request_errors(*definition, *request).len() == 0,
            Err(e) => e matches IntegrationCommandError::ConfigurationInvalid { fields }
                && errors_view(fields@) == request_errors(*definition, *request)
                && request_errors(*definition, *request).len() > 0,
        },
{
    let ghost fv = fields_view(request.fields@);
    let ghost schema = definition.setup_schema@;
    let mut errors: Vec<FieldError> = Vec::new();
    let mut i: usize = 0;
    proof {
        assert(errors_view(errors@) =~= schema_errors(schema.take(0), fv));
    }
    while i < definition.setup_schema.len()
        invariant
            fv == fields_view(request.fields@),
            schema == definition.setup_schema@,
            i <= schema.len(),
            errors_view(errors@) == schema_errors(schema.take(i as int), fv),
        decreases schema.len() - i,
    {
        proof {
            assert(schema.take(i + 1).drop_last() =~= schema.take(i as int));
            assert(schema.take(i + 1).last() == schema[i as int]);
        }
        let field = &definition.setup_schema[i];
        let value = match supplied_exec(&request.fields, field.key.as_str()) {
            Some(v) => Some(v),
            None => match &field.default_value {
                Some(d) => Some(d.as_str()),
                None => None,
            },
        };
        match value {
            None => {
                if field.required {
                    push_error(&mut errors, field.key.as_str(), "required");
                }
            },
            Some(v) => {
                if field.required && v.unicode_len() == 0 {
                    push_error(&mut errors, field.key.as_str(), "required");
                } else if !valid_field(field, v) {
                    push_error(&mut errors, field.key.as_str(), "invalid value");
                }
            },
        }
        i = i + 1;
    }
    proof {
        assert(schema.take(schema.len() as int) =~= schema);
    }
    let ghost after_schema = errors_view(errors@);
    let mut j: usize = 0;
    proof {
        assert(fv.take(0) =~= Seq::<(Seq<char>, Seq<char>)>::empty());
        assert(errors_view(errors@) =~= after_schema + unknown_errors(fv.take(0), schema));
    }
    while j < request.fields.len()
        invariant
            fv == fields_view(request.fields@),
            schema == definition.setup_schema@,
            j <= fv.len(),
            errors_view(errors@) == after_schema + unknown_errors(fv.take(j as int), schema),
        decreases fv.len() - j,
    {
        proof {
            assert(fv.take(j + 1).drop_last() =~= fv.take(j as int));
            assert(fv.take(j + 1).last() == fv[j as int]);
        }
        let key = request.fields[j].key.as_str();
        if !in_schema_exec(&definition.setup_schema, key) {
            push_error(&mut errors, key, "unknown field");
        }
        j = j + 1;
    }
    proof {
        assert(fv.take(fv.len() as int) =~= fv);
    }
    let ghost after_unknown = errors_view(errors@);
    let ghost req = request.enabled_capabilities@;
    let mut k: usize = 0;
    proof {
        assert(req.take(0) =~= Seq::<CapabilityId>::empty());
        assert(errors_view(errors@) =~= after_unknown + capability_errors(req.take(0), definition.capabilities@));
    }
    while k < request.enabled_capabilities.len()
        invariant
            req == request.enabled_capabilities@,
            k <= req.len(),
            errors_view(errors@) == after_unknown + capability_errors(req.take(k as int), definition.capabilities@),
        decreases req.len() - k,
    {
        proof {
            assert(req.take(k + 1).drop_last() =~= req.take(k as int));
            assert(req.take(k + 1).last() == req[k as int]);
        }
        let id = request.enabled_capabilities[k].0.as_str();
        if !offers_exec(&definition.capabilities, id) {
            push_error(&mut errors, id, "unsupported capability");
        }
        k = k + 1;
    }
    proof {
        assert(req.take(req.len() as int) =~= req);
        assert(errors_view(errors@) =~= request_errors(*definition, *request));
    }
    if errors.len() == 0 {
        Ok(())
    } else {
        Err(IntegrationCommandError::ConfigurationInvalid { fields: errors })
    }
}


fn copy_string(s: &String) -> (r: String)
    ensures
        r@ == s@,
{
    s.as_str().to_owned()
}

fn copy_status(s: &IntegrationStatus) -> (r: IntegrationStatus)
    ensures
        r == *s || (r is Unsupported && s is Unsupported && r->Unsupported_reason@ == s->Unsupported_reason@),
        user_status(r) == user_status(*s),
{
    match s {
        IntegrationStatus::NotConfigured => IntegrationStatus::NotConfigured,
        IntegrationStatus::Configuring => IntegrationStatus::Configuring,
        IntegrationStatus::Connecting => IntegrationStatus::Connecting,
        IntegrationStatus::Ready => IntegrationStatus::Ready,
        IntegrationStatus::Degraded { reason } => IntegrationStatus::Degraded { reason: *reason },
        IntegrationStatus::NeedsAttention { reason } => IntegrationStatus::NeedsAttention { reason: *reason },
        IntegrationStatus::Disabled => IntegrationStatus::Disabled,
        IntegrationStatus::Unsupported { reason } => IntegrationStatus::Unsupported { reason: copy_string(reason) },
    }
}

/// The views of capability ids.
pub open spec fn cap_ids(v: Seq<CapabilityId>) -> Seq<Seq<char>> {
    Seq::new(v.len(), |i: int| v[i].0@)
}

/// The capabilities of a definition that an instance has configured, in
/// definition order.
pub open spec fn configured_caps(caps: Seq<IntegrationCapability>, configured: Seq<Seq<char>>) -> Seq<IntegrationCapability>
    decreases caps.len(),
{
    if caps.len() == 0 {
        Seq::empty()
    } else {
        let r = configured_caps(caps.drop_last(), configured);
        if configured.contains(caps.last().id.0@) {
            r.push(caps.last())
        } else {
            r
        }
    }
}

/// True when a user capability shows a definition capability.
pub open spec fn shows_capability(u: UserCapabilityDto, c: IntegrationCapability) -> bool {
    u.id.0@ == c.id.0@ && u.display_name@ == c.display_name@ && u.description@ == c.description@ && u.access == c.access
}

fn contains_cap(ids: &Vec<CapabilityId>, id: &str) -> (r: bool)
    ensures
        r == cap_ids(ids@).contains(id@),
{
    let mut i: usize = 0;
    while i < ids.len()
        invariant
            i <= ids@.len(),
            forall|j: int| 0 <= j < i ==> cap_ids(ids@)[j] != id@,
        decreases ids@.len() - i,
    {
        if str_eq(ids[i].0.as_str(), id) {
            assert(cap_ids(ids@)[i as int] == id@);
            return true;
        }
        i = i + 1;
    }
    false
}

/// What a user sees of an instance: its identity, name and enabled flag,
/// the definition's description and category, the status by its user name,
/// and the configured capabilities (in definition order); nothing of the
/// setup or diagnostics.
pub fn user_integration_dto(instance: &IntegrationInstance, definition: &IntegrationDefinition) -> (r: UserIntegrationDto)
    ensures
        r.id.0@ == instance.id.0@,
        r.definition_id.0@ == instance.definition_id.0@,
        r.display_name@ == instance.display_name@,
        r.description@ == definition.description@,
        r.category == definition.category,
        r.status@ == user_status(instance.status),
        r.enabled == instance.enabled,
        r.capabilities@.len() == configured_caps(definition.capabilities@, cap_ids(instance.configured_capabilities@)).len(),
        forall|i: int| 0 <= i < r.capabilities@.len() ==> shows_capability(
            #[trigger] r.capabilities@[i],
            configured_caps(definition.capabilities@, cap_ids(instance.configured_capabilities@))[i],
        ),
{
    let ghost caps = definition.capabilities@;
    let ghost conf = cap_ids(instance.configured_capabilities@);
    let mut out: Vec<UserCapabilityDto> = Vec::new();
    let mut i: usize = 0;
    while i < definition.capabilities.len()
        invariant
            caps == definition.capabilities@,
            conf == cap_ids(instance.configured_capabilities@),
            i <= caps.len(),
            out@.len() == configured_caps(caps.take(i as int), conf).len(),
            forall|k: int| 0 <= k < out@.len() ==> shows_capability(#[trigger] out@[k], configured_caps(caps.take(i as int), conf)[k]),
        decreases caps.len() - i,
    {
        proof {
            assert(caps.take(i + 1).drop_last() =~= caps.take(i as int));
            assert(caps.take(i + 1).last() == caps[i as int]);
        }
        let c = &definition.capabilities[i];
        if contains_cap(&instance.configured_capabilities, c.id.0.as_str()) {
            out.push(UserCapabilityDto {
                id: CapabilityId(copy_string(&c.id.0)),
                display_name: copy_string(&c.display_name),
                description: copy_string(&c.description),
                access: c.access,
            });
        }
        i = i + 1;
    }
    proof {
        assert(caps.take(caps.len() as int) =~= caps);
    }
    UserIntegrationDto {
        id: IntegrationInstanceId(copy_string(&instance.id.0)),
        definition_id: IntegrationDefinitionId(copy_string(&instance.definition_id.0)),
        display_name: copy_string(&instance.display_name),
        description: copy_string(&definition.description),
        category: definition.category,
        status: instance.status.as_user_status().to_owned(),
        enabled: instance.enabled,
        capabilities: out,
    }
}

/// What an administrator sees of an instance: the instance, the setup
/// schema, and for each setup field whether it is configured (secret
/// fields by whether a secret is stored, `secret_present[i]` for field
/// `i`; other fields never); values are never shown.
pub fn admin_integration_dto(instance: IntegrationInstance, definition: IntegrationDefinition, secret_present: &Vec<bool>) -> (r: AdminIntegrationDto)
    requires
        secret_present@.len() == definition.setup_schema@.len(),
    ensures
        r.id == instance.id,
        r.definition_id == instance.definition_id,
        r.display_name == instance.display_name,
        r.status == instance.status,
        r.management == instance.management,
        r.setup_schema == definition.setup_schema,
        r.configured_fields@.len() == definition.setup_schema@.len(),
        forall|i: int| 0 <= i < r.configured_fields@.len() ==> {
            let c = #[trigger] r.configured_fields@[i];
            &&& c.key@ == definition.setup_schema@[i].key@
            &&& c.configured == (definition.setup_schema@[i].secret && secret_present@[i])
            &&& c.value is None
        },
        r.diagnostics is None,
{
    let mut fields: Vec<ConfiguredFieldDto> = Vec::new();
    let mut i: usize = 0;
    while i < definition.setup_schema.len()
        invariant
            secret_present@.len() == definition.setup_schema@.len(),
            i <= definition.setup_schema@.len(),
            fields@.len() == i,
            forall|k: int| 0 <= k < i ==> {
                let c = #[trigger] fields@[k];
                &&& c.key@ == definition.setup_schema@[k].key@
                &&& c.configured == (definition.setup_schema@[k].secret && secret_present@[k])
                &&& c.value is None
            },
        decreases definition.setup_schema@.len() - i,
    {
        let f = &definition.setup_schema[i];
        fields.push(ConfiguredFieldDto {
            key: copy_string(&f.key),
            configured: f.secret && secret_present[i],
            value: None,
        });
        i = i + 1;
    }
    AdminIntegrationDto {
        id: instance.id,
        definition_id: instance.definition_id,
        display_name: instance.display_name,
        status: instance.status,
        management: instance.management,
        setup_schema: definition.setup_schema,
        configured_fields: fields,
        diagnostics: None,
    }
}

/// The stored instance that a request without an instance id updates: the
/// first with the same definition and display name.
pub open spec fn existing_index(instances: Seq<IntegrationInstance>, def_id: Seq<char>, name: Seq<char>) -> Option<int> {
    if exists|i: int| 0 <= i < instances.len() && instances[i].definition_id.0@ == def_id && instances[i].display_name@ == name {
        Some(choose|i: int| 0 <= i < instances.len() && instances[i].definition_id.0@ == def_id && instances[i].display_name@ == name
            && forall|j: int| 0 <= j < i ==> !(instances[j].definition_id.0@ == def_id && instances[j].display_name@ == name))
    } else {
        None
    }
}

/// Finds the stored instance that a request without an instance id
/// updates (see `existing_index`).
pub fn find_existing(instances: &Vec<IntegrationInstance>, definition_id: &IntegrationDefinitionId, display_name: &str) -> (r: Option<usize>)
    ensures
        match r {
            Some(i) => existing_index(instances@, definition_id.0@, display_name@) == Some(i as int),
            None => existing_index(instances@, definition_id.0@, display_name@) is None,
        },
{
    let ghost v = instances@;
    let mut i: usize = 0;
    while i < instances.len()
        invariant
            v == instances@,
            i <= v.len(),
            forall|j: int| 0 <= j < i ==> !(v[j].definition_id.0@ == definition_id.0@ && v[j].display_name@ == display_name@),
        decreases v.len() - i,
    {
        if str_eq(instances[i].definition_id.0.as_str(), definition_id.0.as_str()) && str_eq(instances[i].display_name.as_str(), display_name) {
            proof {
                let w = choose|k: int| 0 <= k < v.len() && v[k].definition_id.0@ == definition_id.0@ && v[k].display_name@ == display_name@
                    && forall|j: int| 0 <= j < k ==> !(v[j].definition_id.0@ == definition_id.0@ && v[j].display_name@ == display_name@);
                assert(0 <= i < v.len() && v[i as int].definition_id.0@ == definition_id.0@ && v[i as int].display_name@ == display_name@);
                if w < i {
                } else if w > i {
                    assert(!(v[i as int].definition_id.0@ == definition_id.0@ && v[i as int].display_name@ == display_name@));
                }
            }
            return Some(i);
        }
        i = i + 1;
    }
    None
}

/// The instance that a configuration request leaves: the existing one (or
/// a new enabled one with id `new_id`, created at `now`) with the request's
/// definition, name, capabilities and management (kept when the request
/// names none), status configuring and updated at `now`. Only an
/// administrator may leave it administrator-managed.
pub fn configured_instance(
    existing: Option<IntegrationInstance>,
    definition_id: &IntegrationDefinitionId,
    request: &ConfigureIntegrationRequest,
    actor: &IntegrationActor,
    new_id: IntegrationInstanceId,
    now: i64,
) -> (r: Result<IntegrationInstance, IntegrationCommandError>)
    ensures
        ({
            let management = match request.management {
                Some(m) => m,
                None => match existing {
                    Some(e) => e.management,
                    None => IntegrationManagement::UserManaged,
                },
            };
            if management == IntegrationManagement::AdministratorManaged && !actor.is_admin {
                r == Err::<IntegrationInstance, IntegrationCommandError>(IntegrationCommandError::PermissionDenied)
            } else {
                r matches Ok(i) && {
                    &&& i.management == management
                    &&& i.definition_id.0@ == definition_id.0@
                    &&& i.display_name@ == request.display_name@
                    &&& cap_ids(i.configured_capabilities@) == cap_ids(request.enabled_capabilities@)
                    &&& i.status == IntegrationStatus::Configuring
                    &&& i.updated_at == now
                    &&& match existing {
                        Some(e) => i.id == e.id && i.version == e.version && i.enabled == e.enabled && i.created_at == e.created_at,
                        None => i.id == new_id && i.version == INTEGRATION_INSTANCE_SCHEMA_VERSION && i.enabled && i.created_at == now,
                    }
                }
            }
        }),
{
    let caps = copy_caps(&request.enabled_capabilities);
    let mut instance = match existing {
        Some(e) => e,
        None => IntegrationInstance {
            version: INTEGRATION_INSTANCE_SCHEMA_VERSION,
            id: new_id,
            definition_id: IntegrationDefinitionId(copy_string(&definition_id.0)),
            display_name: copy_string(&request.display_name),
            status: IntegrationStatus::Configuring,
            enabled: true,
            management: match request.management {
                Some(m) => m,
                None => IntegrationManagement::UserManaged,
            },
            configured_capabilities: copy_caps(&request.enabled_capabilities),
            created_at: now,
            updated_at: now,
        },
    };
    instance.definition_id = IntegrationDefinitionId(copy_string(&definition_id.0));
    instance.display_name = copy_string(&request.display_name);
    instance.management = match request.management {
        Some(m) => m,
        None => instance.management,
    };
    match instance.management {
        IntegrationManagement::AdministratorManaged => {
            if !actor.is_admin {
                return Err(IntegrationCommandError::PermissionDenied);
            }
        },
        _ => {},
    }
    instance.configured_capabilities = caps;
    instance.status = IntegrationStatus::Configuring;
    instance.updated_at = now;
    Ok(instance)
}

fn copy_caps(v: &Vec<CapabilityId>) -> (r: Vec<CapabilityId>)
    ensures
        cap_ids(r@) == cap_ids(v@),
{
    let mut out: Vec<CapabilityId> = Vec::new();
    let mut i: usize = 0;
    while i < v.len()
        invariant
            i <= v@.len(),
            out@.len() == i,
            forall|k: int| 0 <= k < i ==> (#[trigger] out@[k]).0@ == v@[k].0@,
        decreases v@.len() - i,
    {
        out.push(CapabilityId(copy_string(&v[i].0)));
        i = i + 1;
    }
    assert(cap_ids(out@) =~= cap_ids(v@));
    out
}

/// True when the definition has a secret setup field with the key.
pub open spec fn secret_key(schema: Seq<SetupField>, key: Seq<char>) -> bool {
    exists|i: int| 0 <= i < schema.len() && (#[trigger] schema[i]).key@ == key && schema[i].secret
}

/// The submitted values of secret fields, in submission order.
pub open spec fn secret_values(fs: Seq<(Seq<char>, Seq<char>)>, schema: Seq<SetupField>) -> Seq<(Seq<char>, Seq<char>)>
    decreases fs.len(),
{
    if fs.len() == 0 {
        Seq::empty()
    } else {
        let r = secret_values(fs.drop_last(), schema);
        if secret_key(schema, fs.last().0) {
            r.push(fs.last())
        } else {
            r
        }
    }
}

fn secret_key_exec(schema: &Vec<SetupField>, key: &str) -> (r: bool)
    ensures
        r == secret_key(schema@, key@),
{
    let mut i: usize = 0;
    while i < schema.len()
        invariant
            i <= schema@.len(),
            forall|j: int| 0 <= j < i ==> !((#[trigger] schema@[j]).key@ == key@ && schema@[j].secret),
        decreases schema@.len() - i,
    {
        if schema[i].secret && str_eq(schema[i].key.as_str(), key) {
            return true;
        }
        i = i + 1;
    }
    false
}

/// The secret values of a request that go to the secret store, in
/// submission order; other values are never stored.
pub fn secrets_to_store(definition: &IntegrationDefinition, request: &ConfigureIntegrationRequest) -> (r: Vec<ConfiguredFieldValue>)
    ensures
        fields_view(r@) == secret_values(fields_view(request.fields@), definition.setup_schema@),
{
    let ghost fv = fields_view(request.fields@);
    let mut out: Vec<ConfiguredFieldValue> = Vec::new();
    let mut i: usize = 0;
    proof {
        assert(fields_view(out@) =~= secret_values(fv.take(0), definition.setup_schema@));
    }
    while i < request.fields.len()
        invariant
            fv == fields_view(request.fields@),
            i <= fv.len(),
            fields_view(out@) == secret_values(fv.take(i as int), definition.setup_schema@),
        decreases fv.len() - i,
    {
        proof {
            assert(fv.take(i + 1).drop_last() =~= fv.take(i as int));
            assert(fv.take(i + 1).last() == fv[i as int]);
        }
        let f = &request.fields[i];
        if secret_key_exec(&definition.setup_schema, f.key.as_str()) {
            let ghost before = fields_view(out@);
            out.push(ConfiguredFieldValue { key: copy_string(&f.key), value: copy_string(&f.value) });
            proof {
                assert(fields_view(out@) =~= before.push(fv[i as int]));
            }
        }
        i = i + 1;
    }
    proof {
        assert(fv.take(fv.len() as int) =~= fv);
    }
    out
}

/// How a failed configuration is rolled back.
#[derive(Debug, Clone, Copy, PartialEq, Eq, Structural)]
pub enum RestorePlan {
    /// The instance was new: stop it and delete its secrets and record.
    RemoveNew,
    /// Save the previous record back; delete the secrets only when none
    /// were stored before.
    SavePrevious { delete_secrets: bool },
}

/// The rollback of a failed configuration, given whether the instance
/// existed before and, for each secret field, whether a secret was stored.
pub fn restore_plan(had_previous: bool, secrets_before: &Vec<bool>) -> (r: RestorePlan)
    ensures
        r == (if !had_previous {
            RestorePlan::RemoveNew
        } else {
            RestorePlan::SavePrevious { delete_secrets: forall|i: int| 0 <= i < secrets_before@.len() ==> !secrets_before@[i] }
        }),
{
    if !had_previous {
        return RestorePlan::RemoveNew;
    }
    let mut none = true;
    let mut i: usize = 0;
    while i < secrets_before.len()
        invariant
            i <= secrets_before@.len(),
            none == forall|j: int| 0 <= j < i ==> !secrets_before@[j],
        decreases secrets_before@.len() - i,
    {
        if secrets_before[i] {
            none = false;
        }
        i = i + 1;
    }
    RestorePlan::SavePrevious { delete_secrets: none }
}

/// How reconnecting one enabled instance at start-up went.
#[derive(Debug, Clone, Copy, PartialEq, Eq, Structural)]
pub enum RecoveryOutcome {
    /// It started; `saved` tells whether its refreshed record was saved.
    Started { saved: bool },
    /// It could not be configured or started (it is marked degraded).
    Failed,
}

/// The number of outcomes that count as re-enabled.
pub open spec fn count_started(os: Seq<RecoveryOutcome>) -> nat
    decreases os.len(),
{
    if os.len() == 0 {
        0
    } else {
        count_started(os.drop_last()) + if os.last() == (RecoveryOutcome::Started { saved: true }) { 1nat } else { 0nat }
    }
}

/// The recovery report: all loaded instances, those re-enabled (started
/// and saved), and the rest of the enabled ones as failed.
pub fn recovery_report(loaded: usize, outcomes: &Vec<RecoveryOutcome>) -> (r: IntegrationRecoveryReport)
    requires
        outcomes@.len() <= loaded,
    ensures
        r.loaded == loaded,
        r.re_enabled == count_started(outcomes@),
        r.failed == outcomes@.len() - count_started(outcomes@),
{
    let mut re: usize = 0;
    let mut failed: usize = 0;
    let mut i: usize = 0;
    while i < outcomes.len()
        invariant
            outcomes@.len() <= loaded,
            i <= outcomes@.len(),
            re == count_started(outcomes@.take(i as int)),
            re + failed == i,
        decreases outcomes@.len() - i,
    {
        proof {
            assert(outcomes@.take(i + 1).drop_last() =~= outcomes@.take(i as int));
        }
        match outcomes[i] {
            RecoveryOutcome::Started { saved } => {
                if saved {
                    re = re + 1;
                } else {
                    failed = failed + 1;
                }
            },
            RecoveryOutcome::Failed => {
                failed = failed + 1;
            },
        }
        i = i + 1;
    }
    proof {
        assert(outcomes@.take(outcomes@.len() as int) =~= outcomes@);
    }
    IntegrationRecoveryReport { loaded, re_enabled: re, failed }
}

/// Instance records on disk, one JSON file per instance in
/// `<hermes home>/integrations/instances`.
pub struct FileInstanceRepository {
    pub hermes_home: String,
    pub instances_dir: Vec<String>,
}

impl FileInstanceRepository {
    /// The repository below a Hermes home.
    pub fn new(hermes_home: &str) -> (r: Self)
        ensures
            r.hermes_home@ == hermes_home@,
            strs_view(r.instances_dir@) == seq!["integrations"@, "instances"@],
    {
        let mut dir: Vec<String> = Vec::new();
        dir.push("integrations".to_owned());
        dir.push("instances".to_owned());
        assert(strs_view(dir@) =~= seq!["integrations"@, "instances"@]);
        FileInstanceRepository { hermes_home: hermes_home.to_owned(), instances_dir: dir }
    }

    /// The file name of an instance's record: `<id>.json`.
    pub fn file_name(id: &IntegrationInstanceId) -> (r: String)
        ensures
            r@ == id.0@ + ".json"@,
    {
        id.0.as_str().to_owned().concat(".json")
    }

    /// Accepts a record read from disk only with the current schema version.
    pub fn check_version(instance: IntegrationInstance) -> (r: Result<IntegrationInstance, IntegrationCommandError>)
        ensures
            instance.version == INTEGRATION_INSTANCE_SCHEMA_VERSION ==> r == Ok::<IntegrationInstance, IntegrationCommandError>(instance),
            instance.version != INTEGRATION_INSTANCE_SCHEMA_VERSION ==> r == Err::<IntegrationInstance, IntegrationCommandError>(
                IntegrationCommandError::UnsupportedSchemaVersion { version: instance.version },
            ),
    {
        if instance.version != INTEGRATION_INSTANCE_SCHEMA_VERSION {
            return Err(IntegrationCommandError::UnsupportedSchemaVersion { version: instance.version });
        }
        Ok(instance)
    }
}

/// Secret values on disk in `<hermes home>/integrations/secrets`.
pub struct FileSecretStore {
    pub hermes_home: String,
    pub secrets_dir: Vec<String>,
}

impl FileSecretStore {
    /// The store below a Hermes home.
    pub fn new(hermes_home: &str) -> (r: Self)
        ensures
            r.hermes_home@ == hermes_home@,
            strs_view(r.secrets_dir@) == seq!["integrations"@, "secrets"@],
    {
        let mut dir: Vec<String> = Vec::new();
        dir.push("integrations".to_owned());
        dir.push("secrets".to_owned());
        assert(strs_view(dir@) =~= seq!["integrations"@, "secrets"@]);
        FileSecretStore { hermes_home: hermes_home.to_owned(), secrets_dir: dir }
    }
}

/// A catalog for tests and previews that holds the curated definitions.
pub struct FakeCatalogRepository {
    pub definitions: Vec<IntegrationDefinition>,
}

impl FakeCatalogRepository {
    /// A catalog of the curated definitions.
    pub fn new() -> (r: Self)
        ensures
            crate::integration_domain::is_curated_catalog(r.definitions@),
    {
        FakeCatalogRepository { definitions: crate::integration_domain::curated_integration_catalog() }
    }

    /// The number of definitions it holds.
    pub fn len(&self) -> (r: usize)
        ensures
            r == self.definitions@.len(),
    {
        self.definitions.len()
    }
}

/// One effect of an integration command on its ports, in the order the
/// service performs them.
#[derive(Debug, Clone, Copy, PartialEq, Eq, Structural)]
pub enum IntegrationEffect {
    /// Store the `i`-th secret value of the request.
    StoreSecret(usize),
    /// Create the instance record.
    CreateRecord,
    /// Save the instance record.
    SaveRecord,
    /// Save the record the instance had before the command.
    SavePreviousRecord,
    /// Hand the instance to the runtime.
    RuntimeConfigure,
    RuntimeStart,
    RuntimeStop,
    /// Ask the runtime for the instance's health.
    CheckHealth,
    /// Delete every secret of the instance.
    DeleteSecrets,
    /// Delete the instance record.
    DeleteRecord,
}

/// The effects of configuring an instance, in order: store each secret
/// value, create the record (save it when the instance existed), hand it
/// to the runtime, check its health and save the refreshed record. The
/// first effect that fails ends the command and the rollback runs.
pub open spec fn configure_effects_of(secrets: nat, had_previous: bool) -> Seq<IntegrationEffect> {
    Seq::new(secrets, |i: int| IntegrationEffect::StoreSecret(i as usize)) + seq![
        if had_previous {
            IntegrationEffect::SaveRecord
        } else {
            IntegrationEffect::CreateRecord
        },
        IntegrationEffect::RuntimeConfigure,
        IntegrationEffect::CheckHealth,
        IntegrationEffect::SaveRecord,
    ]
}

/// The effects of configuring an instance (see `configure_effects_of`).
pub fn configure_effects(secrets: usize, had_previous: bool) -> (r: Vec<IntegrationEffect>)
    ensures
        r@ == configure_effects_of(secrets as nat, had_previous),
{
    let mut r: Vec<IntegrationEffect> = Vec::new();
    let mut i: usize = 0;
    while i < secrets
        invariant
            i <= secrets,
            r@ == Seq::new(i as nat, |k: int| IntegrationEffect::StoreSecret(k as usize)),
        decreases secrets - i,
    {
        r.push(IntegrationEffect::StoreSecret(i));
        assert(r@ =~= Seq::new((i + 1) as nat, |k: int| IntegrationEffect::StoreSecret(k as usize)));
        i = i + 1;
    }
    let ghost stored = r@;
    if had_previous {
        r.push(IntegrationEffect::SaveRecord);
    } else {
        r.push(IntegrationEffect::CreateRecord);
    }
    r.push(IntegrationEffect::RuntimeConfigure);
    r.push(IntegrationEffect::CheckHealth);
    r.push(IntegrationEffect::SaveRecord);
    assert(r@ =~= configure_effects_of(secrets as nat, had_previous));
    r
}

/// The effects that roll a failed configuration back (its errors are
/// ignored): for a new instance, stop it and delete its secrets and its
/// record; for an existing one, save its previous record back and delete
/// its secrets only when it had none before.
pub open spec fn rollback_effects_of(plan: RestorePlan) -> Seq<IntegrationEffect> {
    match plan {
        RestorePlan::RemoveNew => seq![
            IntegrationEffect::RuntimeStop,
            IntegrationEffect::DeleteSecrets,
            IntegrationEffect::DeleteRecord,
        ],
        RestorePlan::SavePrevious { delete_secrets } => if delete_secrets {
            seq![IntegrationEffect::SavePreviousRecord, IntegrationEffect::DeleteSecrets]
        } else {
            seq![IntegrationEffect::SavePreviousRecord]
        },
    }
}

/// The effects that roll a failed configuration back (see
/// `rollback_effects_of`).
pub fn rollback_effects(plan: RestorePlan) -> (r: Vec<IntegrationEffect>)
    ensures
        r@ == rollback_effects_of(plan),
{
    let mut r: Vec<IntegrationEffect> = Vec::new();
    match plan {
        RestorePlan::RemoveNew => {
            r.push(IntegrationEffect::RuntimeStop);
            r.push(IntegrationEffect::DeleteSecrets);
            r.push(IntegrationEffect::DeleteRecord);
        },
        RestorePlan::SavePrevious { delete_secrets } => {
            r.push(IntegrationEffect::SavePreviousRecord);
            if delete_secrets {
                r.push(IntegrationEffect::DeleteSecrets);
            }
        },
    }
    assert(r@ =~= rollback_effects_of(plan));
    r
}

/// Where a configuration run stands: the position of the effect it last
/// asked for, in the configuration effects or, once one of them failed,
/// in the rollback effects.
#[derive(Debug, Clone, Copy, PartialEq, Eq, Structural)]
pub struct ConfigureRun {
    pub secrets: usize,
    pub had_previous: bool,
    pub plan: RestorePlan,
    pub pos: usize,
    pub rolling_back: bool,
}

/// What a configuration run asks for next.
#[derive(Debug, Clone, Copy, PartialEq, Eq, Structural)]
pub enum ConfigureStep {
    /// Perform this effect and report whether it succeeded.
    Perform(IntegrationEffect),
    /// Every effect succeeded: the command succeeds.
    Succeeded,
    /// An effect failed and the rollback is done: the command fails with
    /// the first error.
    Failed,
}

/// The effects a run steps through in its current mode.
pub open spec fn run_effects(run: ConfigureRun) -> Seq<IntegrationEffect> {
    if run.rolling_back {
        rollback_effects_of(run.plan)
    } else {
        configure_effects_of(run.secrets as nat, run.had_previous)
    }
}

/// A run is well formed when its position is inside its effects.
pub open spec fn run_wf(run: ConfigureRun) -> bool {
    run.pos < run_effects(run).len()
}

/// Starts a configuration run: it asks for the first configuration
/// effect.
pub fn configure_start(secrets: usize, had_previous: bool, plan: RestorePlan) -> (r: (ConfigureRun, ConfigureStep))
    requires
        secrets + 4 <= usize::MAX,
    ensures
        run_wf(r.0),
        r.0 == (ConfigureRun { secrets, had_previous, plan, pos: 0, rolling_back: false }),
        r.1 == ConfigureStep::Perform(configure_effects_of(secrets as nat, had_previous)[0]),
{
    let effects = configure_effects(secrets, had_previous);
    let run = ConfigureRun { secrets, had_previous, plan, pos: 0, rolling_back: false };
    (run, ConfigureStep::Perform(effects[0]))
}

/// The next step of a configuration run after the effect it asked for
/// succeeded (`ok`) or failed: while configuring, a success moves on to
/// the next effect, or ends the command successfully after the last one,
/// and a failure starts the rollback at its first effect; while rolling
/// back, outcomes are ignored and the run moves on, ending the command
/// as failed after the last rollback effect.
pub fn configure_next(run: ConfigureRun, ok: bool) -> (r: (ConfigureRun, ConfigureStep))
    requires
        run_wf(run),
        run.secrets + 4 <= usize::MAX,
    ensures
        run_wf(r.0),
        r.0.secrets == run.secrets && r.0.had_previous == run.had_previous && r.0.plan == run.plan,
        if !run.rolling_back && !ok {
            r.0.rolling_back && r.0.pos == 0 && r.1 == ConfigureStep::Perform(rollback_effects_of(run.plan)[0])
        } else if run.pos + 1 < run_effects(run).len() {
            r.0.rolling_back == run.rolling_back && r.0.pos == run.pos + 1
                && r.1 == ConfigureStep::Perform(run_effects(run)[run.pos + 1])
        } else {
            r.0 == run && r.1 == (if run.rolling_back { ConfigureStep::Failed } else { ConfigureStep::Succeeded })
        },
{
    if !run.rolling_back && !ok {
        let rb = rollback_effects(run.plan);
        let next = ConfigureRun { pos: 0, rolling_back: true, ..run };
        return (next, ConfigureStep::Perform(rb[0]));
    }
    let effects = if run.rolling_back {
        rollback_effects(run.plan)
    } else {
        configure_effects(run.secrets, run.had_previous)
    };
    if run.pos + 1 < effects.len() {
        let next = ConfigureRun { pos: run.pos + 1, ..run };
        (next, ConfigureStep::Perform(effects[run.pos + 1]))
    } else if run.rolling_back {
        (run, ConfigureStep::Failed)
    } else {
        (run, ConfigureStep::Succeeded)
    }
}

/// The effects of enabling an instance: none when it is enabled already;
/// else start it, check its health and save it enabled.
pub fn enable_effects(enabled: bool) -> (r: Vec<IntegrationEffect>)
    ensures
        r@ == (if enabled {
            Seq::<IntegrationEffect>::empty()
        } else {
            seq![IntegrationEffect::RuntimeStart, IntegrationEffect::CheckHealth, IntegrationEffect::SaveRecord]
        }),
{
    let mut r: Vec<IntegrationEffect> = Vec::new();
    if !enabled {
        r.push(IntegrationEffect::RuntimeStart);
        r.push(IntegrationEffect::CheckHealth);
        r.push(IntegrationEffect::SaveRecord);
    }
    assert(r@ =~= (if enabled {
        Seq::<IntegrationEffect>::empty()
    } else {
        seq![IntegrationEffect::RuntimeStart, IntegrationEffect::CheckHealth, IntegrationEffect::SaveRecord]
    }));
    r
}

/// The effects of disabling an instance: none when it is disabled
/// already; else stop it and save it disabled (see `disabled_record`).
/// Its secrets stay.
pub fn disable_effects(enabled: bool) -> (r: Vec<IntegrationEffect>)
    ensures
        r@ == disable_effects_of(enabled),
{
    let mut r: Vec<IntegrationEffect> = Vec::new();
    if enabled {
        r.push(IntegrationEffect::RuntimeStop);
        r.push(IntegrationEffect::SaveRecord);
    }
    assert(r@ =~= (if enabled {
        seq![IntegrationEffect::RuntimeStop, IntegrationEffect::SaveRecord]
    } else {
        Seq::<IntegrationEffect>::empty()
    }));
    r
}

/// The record after disabling: an enabled instance is saved disabled,
/// with status `Disabled` and the new time; a disabled one is left as it
/// is.
pub open spec fn disabled_record(inst: IntegrationInstance, now: i64) -> IntegrationInstance {
    if inst.enabled {
        IntegrationInstance { enabled: false, status: IntegrationStatus::Disabled, updated_at: now, ..inst }
    } else {
        inst
    }
}

/// The record after enabling, given the health its check reported: a
/// disabled instance is saved enabled with that status and the new time;
/// an enabled one is left as it is.
pub open spec fn enabled_record(inst: IntegrationInstance, health: IntegrationStatus, now: i64) -> IntegrationInstance {
    if !inst.enabled {
        IntegrationInstance { enabled: true, status: health, updated_at: now, ..inst }
    } else {
        inst
    }
}

/// The record that disabling saves (see `disabled_record`).
pub fn disable_record(inst: IntegrationInstance, now: i64) -> (r: IntegrationInstance)
    ensures
        r == disabled_record(inst, now),
{
    if inst.enabled {
        IntegrationInstance { enabled: false, status: IntegrationStatus::Disabled, updated_at: now, ..inst }
    } else {
        inst
    }
}

/// The record that enabling saves (see `enabled_record`).
pub fn enable_record(inst: IntegrationInstance, health: IntegrationStatus, now: i64) -> (r: IntegrationInstance)
    ensures
        r == enabled_record(inst, health, now),
{
    if !inst.enabled {
        IntegrationInstance { enabled: true, status: health, updated_at: now, ..inst }
    } else {
        inst
    }
}

/// Disabling is idempotent: after one disable the instance is disabled
/// with status `Disabled`, and a second disable performs no effect and
/// leaves the record as it is.
pub proof fn lemma_disable_twice(inst: IntegrationInstance, now: i64, later: i64)
    requires
        inst.enabled,
    ensures
        !disabled_record(inst, now).enabled,
        disabled_record(inst, now).status == IntegrationStatus::Disabled,
        disable_effects_of(disabled_record(inst, now).enabled).len() == 0,
        disabled_record(disabled_record(inst, now), later) == disabled_record(inst, now),
{
}

/// The effects of disabling an instance (see `disable_effects`).
pub open spec fn disable_effects_of(enabled: bool) -> Seq<IntegrationEffect> {
    if enabled {
        seq![IntegrationEffect::RuntimeStop, IntegrationEffect::SaveRecord]
    } else {
        Seq::<IntegrationEffect>::empty()
    }
}

/// The effects of refreshing an instance's status: for an enabled one,
/// check its health and save it; nothing for a disabled one.
pub fn refresh_effects(enabled: bool) -> (r: Vec<IntegrationEffect>)
    ensures
        r@ == (if enabled {
            seq![IntegrationEffect::CheckHealth, IntegrationEffect::SaveRecord]
        } else {
            Seq::<IntegrationEffect>::empty()
        }),
{
    let mut r: Vec<IntegrationEffect> = Vec::new();
    if enabled {
        r.push(IntegrationEffect::CheckHealth);
        r.push(IntegrationEffect::SaveRecord);
    }
    assert(r@ =~= (if enabled {
        seq![IntegrationEffect::CheckHealth, IntegrationEffect::SaveRecord]
    } else {
        Seq::<IntegrationEffect>::empty()
    }));
    r
}

/// The effects of removing an instance, in order.
pub open spec fn remove_effects_of() -> Seq<IntegrationEffect> {
    seq![IntegrationEffect::RuntimeStop, IntegrationEffect::DeleteSecrets, IntegrationEffect::DeleteRecord]
}

/// The effects that a command performs when it runs `effects` in order and
/// the first failure ends it: each effect is performed, and the next only
/// when this one succeeded (`outcomes`).
pub open spec fn performed(effects: Seq<IntegrationEffect>, outcomes: Seq<bool>) -> Seq<IntegrationEffect>
    decreases effects.len(),
{
    if effects.len() == 0 {
        Seq::empty()
    } else if outcomes.len() > 0 && outcomes[0] {
        seq![effects[0]] + performed(effects.drop_first(), outcomes.drop_first())
    } else {
        seq![effects[0]]
    }
}

/// What a removal asks for next after the effect at `pos` succeeded or
/// failed.
#[derive(Debug, Clone, Copy, PartialEq, Eq, Structural)]
pub enum RemoveStep {
    /// Perform the effect at this position next.
    Perform(usize, IntegrationEffect),
    /// Every effect succeeded: the instance is gone.
    Removed,
    /// An effect failed: the command fails with its error, and nothing after
    /// it is done.
    Failed,
}

/// The next step of a removal after the effect at `pos` (of
/// `remove_effects_of`) succeeded (`ok`) or failed: a failure ends the
/// command at once, a success moves on or, after the last effect, ends it
/// as removed.
pub fn remove_next(pos: usize, ok: bool) -> (r: RemoveStep)
    requires
        pos < 3,
    ensures
        !ok ==> r == RemoveStep::Failed,
        ok && pos < 2 ==> r == RemoveStep::Perform((pos + 1) as usize, remove_effects_of()[pos + 1]),
        ok && pos == 2 ==> r == RemoveStep::Removed,
{
    if !ok {
        RemoveStep::Failed
    } else if pos == 0 {
        RemoveStep::Perform(1, IntegrationEffect::DeleteSecrets)
    } else if pos == 1 {
        RemoveStep::Perform(2, IntegrationEffect::DeleteRecord)
    } else {
        RemoveStep::Removed
    }
}

/// A removal whose stop fails deletes neither the secrets nor the record;
/// one whose secret deletion fails keeps the record.
pub proof fn lemma_failed_stop_keeps_instance(rest: Seq<bool>)
    ensures
        performed(remove_effects_of(), seq![false] + rest) == seq![IntegrationEffect::RuntimeStop],
        performed(remove_effects_of(), seq![true, false] + rest)
            == seq![IntegrationEffect::RuntimeStop, IntegrationEffect::DeleteSecrets],
{
    let e = remove_effects_of();
    assert((seq![false] + rest)[0] == false);
    assert((seq![true, false] + rest)[0] == true);
    assert((seq![true, false] + rest).drop_first() =~= seq![false] + rest);
    assert(e.drop_first() =~= seq![IntegrationEffect::DeleteSecrets, IntegrationEffect::DeleteRecord]);
    assert(performed(e.drop_first(), seq![false] + rest) =~= seq![IntegrationEffect::DeleteSecrets]);
    assert(performed(e, seq![true, false] + rest) =~= seq![IntegrationEffect::RuntimeStop] + seq![IntegrationEffect::DeleteSecrets]);
}

/// The effects of removing an instance: stop it, delete its secrets, then
/// its record; the first that fails ends the command (see `remove_next`).
pub fn remove_effects() -> (r: Vec<IntegrationEffect>)
    ensures
        r@ == remove_effects_of(),
{
    let mut r: Vec<IntegrationEffect> = Vec::new();
    r.push(IntegrationEffect::RuntimeStop);
    r.push(IntegrationEffect::DeleteSecrets);
    r.push(IntegrationEffect::DeleteRecord);
    assert(r@ =~= seq![IntegrationEffect::RuntimeStop, IntegrationEffect::DeleteSecrets, IntegrationEffect::DeleteRecord]);
    r
}

/// Whatever step of configuring a new instance fails, the rollback
/// deletes every record and secret the configuration had made and stops
/// what it had handed to the runtime.
pub proof fn lemma_rollback_undoes_new_configuration(secrets: nat, failed_at: int)
    requires
        0 <= failed_at < configure_effects_of(secrets, false).len(),
    ensures
        ({
            let done = configure_effects_of(secrets, false).take(failed_at + 1);
            let undo = rollback_effects_of(RestorePlan::RemoveNew);
            &&& done.contains(IntegrationEffect::CreateRecord) ==> undo.contains(IntegrationEffect::DeleteRecord)
            &&& (exists|i: int| 0 <= i < done.len() && done[i] is StoreSecret) ==> undo.contains(IntegrationEffect::DeleteSecrets)
            &&& done.contains(IntegrationEffect::RuntimeConfigure) ==> undo.contains(IntegrationEffect::RuntimeStop)
            &&& !undo.contains(IntegrationEffect::SavePreviousRecord)
        }),
{
    let undo = rollback_effects_of(RestorePlan::RemoveNew);
    assert(undo[2] == IntegrationEffect::DeleteRecord);
    assert(undo[1] == IntegrationEffect::DeleteSecrets);
    assert(undo[0] == IntegrationEffect::RuntimeStop);
    assert forall|i: int| 0 <= i < undo.len() implies undo[i] != IntegrationEffect::SavePreviousRecord by {}
}

} // verus!
