//! Services: what can be called, how a call is checked, and what it changes.

use vstd::prelude::*;
use vstd::string::*;

use crate::ids;
use crate::ids::new_hex_id;
use crate::json;
use crate::json::{get_member, put_member, Json, JsonView, Members, ObjectBuilder};
use crate::state_store;
use crate::state_store::{
    make_state_with_context, Context, ContextView, State, StateAttributes, StateError, StateEvent,
    StateRun, StateStore, StateView,
};
use crate::text;
use crate::text::{chars_of, concat, copy_strings, str_eq};

verus! {

/// Whether a service answers its caller.
#[derive(Clone, Copy, Debug, PartialEq, Eq, Structural)]
pub enum SupportsResponse {
    Never,
    Optional,
    Only,
}

/// A parameter of a service.
pub struct ServiceField {
    pub required: bool,
    pub selector: Option<Json>,
}

/// A parameter of a service, with its name.
pub struct ServiceFieldView {
    pub field: String,
    pub required: bool,
    pub selector: Option<Json>,
}

/// A named parameter as a mathematical value: name, whether it is required, and selector.
pub type FieldModel = (Seq<char>, bool, Option<JsonView>);

/// An optional JSON value as a mathematical value.
pub open spec fn opt_json(j: Option<Json>) -> Option<JsonView> {
    match j {
        Some(v) => Some(v@),
        None => None,
    }
}

impl View for ServiceFieldView {
    type V = FieldModel;

    open spec fn view(&self) -> FieldModel {
        (self.field@, self.required, opt_json(self.selector))
    }
}

/// What a service does and takes. The parameters stand in the order of their names.
pub struct ServiceDescription {
    pub service: String,
    pub name: String,
    pub description: String,
    pub fields: Vec<(String, ServiceField)>,
    pub supports_response: SupportsResponse,
}

/// The mathematical value of a service description.
pub struct DescriptionModel {
    pub service: Seq<char>,
    pub name: Seq<char>,
    pub description: Seq<char>,
    pub fields: Seq<FieldModel>,
    pub supports_response: SupportsResponse,
}

/// The mathematical values of named parameters.
pub open spec fn fields_model(s: Seq<(String, ServiceField)>) -> Seq<FieldModel> {
    Seq::new(s.len(), |i: int| (s[i].0@, s[i].1.required, opt_json(s[i].1.selector)))
}

impl View for ServiceDescription {
    type V = DescriptionModel;

    open spec fn view(&self) -> DescriptionModel {
        DescriptionModel {
            service: self.service@,
            name: self.name@,
            description: self.description@,
            fields: fields_model(self.fields@),
            supports_response: self.supports_response,
        }
    }
}

impl ServiceDescription {
    /// The parameters, each with its name.
    pub fn fields_view(&self) -> (r: Vec<ServiceFieldView>)
        ensures
            r@.map_values(|f: ServiceFieldView| f@) == self@.fields,
    {
        let mut out: Vec<ServiceFieldView> = Vec::new();
        let mut i: usize = 0;
        while i < self.fields.len()
            invariant
                i <= self.fields.len(),
                out@.len() == i,
                forall|k: int| 0 <= k < i ==> (#[trigger] out@[k])@ == fields_model(self.fields@)[k],
            decreases self.fields.len() - i,
        {
            let entry: &(String, ServiceField) = &self.fields[i];
            let selector: Option<Json> = match &entry.1.selector {
                Some(s) => Some(json::copy_json(s)),
                None => None,
            };
            out.push(
                ServiceFieldView { field: entry.0.clone(), required: entry.1.required, selector },
            );
            i += 1;
        }
        assert(out@.map_values(|f: ServiceFieldView| f@) =~= self@.fields);
        out
    }
}

/// A service description whose parameters carry their names.
pub struct ServiceDescriptorView {
    pub service: String,
    pub name: String,
    pub description: String,
    pub fields: Vec<ServiceFieldView>,
    pub supports_response: SupportsResponse,
}

impl View for ServiceDescriptorView {
    type V = DescriptionModel;

    open spec fn view(&self) -> DescriptionModel {
        DescriptionModel {
            service: self.service@,
            name: self.name@,
            description: self.description@,
            fields: self.fields@.map_values(|f: ServiceFieldView| f@),
            supports_response: self.supports_response,
        }
    }
}

impl ServiceDescriptorView {
    /// The description with its parameters listed by name.
    pub fn from_description(value: ServiceDescription) -> (r: Self)
        ensures
            r@ == value@,
    {
        let fields: Vec<ServiceFieldView> = value.fields_view();
        ServiceDescriptorView {
            service: value.service,
            name: value.name,
            description: value.description,
            fields,
            supports_response: value.supports_response,
        }
    }
}

/// The services of a domain.
pub struct ServiceDomainCatalog {
    pub domain: String,
    pub services: Vec<ServiceDescriptorView>,
}

/// The services of a domain as a mathematical value.
pub type DomainModel = (Seq<char>, Seq<DescriptionModel>);

impl View for ServiceDomainCatalog {
    type V = DomainModel;

    open spec fn view(&self) -> DomainModel {
        (self.domain@, self.services@.map_values(|s: ServiceDescriptorView| s@))
    }
}

/// Why a service call fails.
pub enum ServiceError {
    NotFound { domain: String, service: String },
    InvalidFormat(String),
    ServiceValidation(String),
    HomeAssistant(String),
    Unknown(String),
}

impl ServiceError {
    /// The code of the error.
    pub open spec fn code_text(self) -> Seq<char> {
        match self {
            ServiceError::NotFound { .. } => "not_found"@,
            ServiceError::InvalidFormat(_) => "invalid_format"@,
            ServiceError::ServiceValidation(_) => "service_validation_error"@,
            ServiceError::HomeAssistant(_) => "home_assistant_error"@,
            ServiceError::Unknown(_) => "unknown_error"@,
        }
    }

    /// What the error says.
    pub open spec fn text(self) -> Seq<char> {
        match self {
            ServiceError::NotFound { domain, service } => "Service "@ + domain@ + "."@ + service@
                + " not found."@,
            ServiceError::InvalidFormat(m) => m@,
            ServiceError::ServiceValidation(m) => m@,
            ServiceError::HomeAssistant(m) => m@,
            ServiceError::Unknown(m) => m@,
        }
    }

    /// The error as a JSON object.
    pub open spec fn json(self) -> JsonView {
        let code = ("code"@, JsonView::Str(self.code_text()));
        let message = ("message"@, JsonView::Str(self.text()));
        match self {
            ServiceError::NotFound { domain, service } => JsonView::Object(
                json::no_members().push(code).push(message).push(
                    ("translation_key"@, JsonView::Str("service_not_found"@)),
                ).push(("translation_domain"@, JsonView::Str("homeassistant"@))).push(
                    (
                        "translation_placeholders"@,
                        JsonView::Object(
                            json::no_members().push(("domain"@, JsonView::Str(domain@))).push(
                                ("service"@, JsonView::Str(service@)),
                            ),
                        ),
                    ),
                ),
            ),
            _ => JsonView::Object(json::no_members().push(code).push(message)),
        }
    }

    /// The code of the error.
    pub fn code(&self) -> (r: &'static str)
        ensures
            r@ == self.code_text(),
    {
        match self {
            ServiceError::NotFound { .. } => "not_found",
            ServiceError::InvalidFormat(_) => "invalid_format",
            ServiceError::ServiceValidation(_) => "service_validation_error",
            ServiceError::HomeAssistant(_) => "home_assistant_error",
            ServiceError::Unknown(_) => "unknown_error",
        }
    }

    /// What the error says.
    pub fn message(&self) -> (r: String)
        ensures
            r@ == self.text(),
    {
        match self {
            ServiceError::NotFound { domain, service } => {
                let mut out: String = "Service ".to_owned();
                out.append(domain.as_str());
                out.append(".");
                out.append(service.as_str());
                out.append(" not found.");
                out
            },
            ServiceError::InvalidFormat(m) => m.clone(),
            ServiceError::ServiceValidation(m) => m.clone(),
            ServiceError::HomeAssistant(m) => m.clone(),
            ServiceError::Unknown(m) => m.clone(),
        }
    }

    /// The error as a JSON object.
    pub fn as_json(&self) -> (r: Json)
        ensures
            r@ == self.json(),
    {
        let base: ObjectBuilder = ObjectBuilder::new().text("code", self.code()).text(
            "message",
            self.message().as_str(),
        );
        match self {
            ServiceError::NotFound { domain, service } => {
                let placeholders: Json = ObjectBuilder::new().text("domain", domain.as_str()).text(
                    "service",
                    service.as_str(),
                ).done();
                base.text("translation_key", "service_not_found").text(
                    "translation_domain",
                    "homeassistant",
                ).field("translation_placeholders", placeholders).done()
            },
            _ => base.done(),
        }
    }

    /// The error of a refused state.
    pub fn from_state_error(e: StateError) -> (r: Self)
        ensures
            r is InvalidFormat,
            r.text() == e.text(),
    {
        ServiceError::InvalidFormat(e.message())
    }
}

/// Which entities and devices a call is about.
pub struct ServiceTarget {
    pub entity_ids: Vec<String>,
    pub device_ids: Vec<String>,
}

/// Whether a text holds the opening of a template.
pub open spec fn has_template(s: Seq<char>) -> bool {
    exists|i: int| 0 <= i && i + 1 < s.len() && #[trigger] s[i] == '{' && s[i + 1] == '{'
}

/// The text of one target entry, or what is wrong with it.
pub open spec fn target_entry(item: JsonView, key: Seq<char>) -> Result<Seq<char>, Seq<char>> {
    match item {
        JsonView::Str(s) => if has_template(s) {
            Err("templates are not allowed in target "@ + key)
        } else {
            Ok(s)
        },
        _ => Err("target "@ + key + " entries must be strings"@),
    }
}

/// The texts of target entries, or what is wrong with the first bad one.
pub open spec fn target_entries(
    items: Seq<JsonView>,
    key: Seq<char>,
) -> Result<Seq<Seq<char>>, Seq<char>>
    decreases items.len(),
{
    if items.len() == 0 {
        Ok(Seq::empty())
    } else {
        match target_entries(items.drop_last(), key) {
            Err(e) => Err(e),
            Ok(r) => match target_entry(items.last(), key) {
                Ok(t) => Ok(r.push(t)),
                Err(e) => Err(e),
            },
        }
    }
}

/// A target value as a list of texts, or what is wrong with it.
pub open spec fn normalized_target(
    value: JsonView,
    key: Seq<char>,
) -> Result<Seq<Seq<char>>, Seq<char>> {
    match value {
        JsonView::Str(s) => match target_entry(value, key) {
            Ok(t) => Ok(seq![t]),
            Err(e) => Err(e),
        },
        JsonView::Array(items) => target_entries(items, key),
        _ => Err("target "@ + key + " must be a string or list"@),
    }
}

proof fn lemma_target_error(items: Seq<JsonView>, key: Seq<char>, i: int)
    requires
        0 <= i <= items.len(),
        target_entries(items.take(i), key) is Err,
    ensures
        target_entries(items, key) == target_entries(items.take(i), key),
    decreases items.len() - i,
{
    if i == items.len() {
        assert(items.take(i) =~= items);
    } else {
        assert(items.take(i + 1).drop_last() =~= items.take(i));
        lemma_target_error(items, key, i + 1);
    }
}

/// Whether a string holds the opening of a template.
fn holds_template(s: &str) -> (r: bool)
    ensures
        r == has_template(s@),
{
    let cs: Vec<char> = chars_of(s);
    let mut i: usize = 0;
    while cs.len() - i > 1
        invariant
            i <= cs.len(),
            cs@ == s@,
            forall|k: int| 0 <= k < i && k + 1 < cs.len() ==> !(#[trigger] cs@[k] == '{' && cs@[k + 1] == '{'),
        decreases cs.len() - i,
    {
        if cs[i] == '{' && cs[i + 1] == '{' {
            assert(s@[i as int] == '{');
            return true;
        }
        i += 1;
    }
    false
}

/// The text of one target entry.
fn read_target_entry(item: &Json, key: &str) -> (r: Result<String, ServiceError>)
    ensures
        match r {
            Ok(t) => target_entry(item@, key@) == Ok::<Seq<char>, Seq<char>>(t@),
            Err(ServiceError::InvalidFormat(m)) => target_entry(item@, key@) == Err::<
                Seq<char>,
                Seq<char>,
            >(m@),
            Err(_) => false,
        },
{
    match item {
        Json::Str(s) => {
            if holds_template(s.as_str()) {
                return Err(
                    ServiceError::InvalidFormat(concat("templates are not allowed in target ", key)),
                );
            }
            Ok(s.clone())
        },
        _ => {
            let start: String = concat("target ", key);
            Err(ServiceError::InvalidFormat(concat(start.as_str(), " entries must be strings")))
        },
    }
}

/// A target value as a list of texts.
pub fn normalize_target_value(value: &Json, key: &str) -> (r: Result<Vec<String>, ServiceError>)
    ensures
        match r {
            Ok(v) => normalized_target(value@, key@) == Ok::<Seq<Seq<char>>, Seq<char>>(
                v.deep_view(),
            ),
            Err(ServiceError::InvalidFormat(m)) => normalized_target(value@, key@) == Err::<
                Seq<Seq<char>>,
                Seq<char>,
            >(m@),
            Err(_) => false,
        },
{
    match value {
        Json::Str(_) => match read_target_entry(value, key) {
            Ok(t) => {
                let mut out: Vec<String> = Vec::new();
                out.push(t);
                assert(out.deep_view() =~= seq![t@]);
                Ok(out)
            },
            Err(e) => Err(e),
        },
        Json::Array(items) => {
            let mut out: Vec<String> = Vec::new();
            let mut i: usize = 0;
            let ghost all = json::items_view(items@);
            proof {
                json::lemma_items_view(items@);
                assert(out.deep_view() =~= Seq::<Seq<char>>::empty());
                assert(all.take(0) =~= Seq::empty());
            }
            while i < items.len()
                invariant
                    i <= items.len(),
                    value@ == JsonView::Array(all),
                    all.len() == items.len(),
                    forall|k: int| #![trigger all[k]] 0 <= k < items.len() ==> all[k] == items@[k]@,
                    target_entries(all.take(i as int), key@) == Ok::<Seq<Seq<char>>, Seq<char>>(
                        out.deep_view(),
                    ),
                decreases items.len() - i,
            {
                proof {
                    assert(all.take(i + 1).drop_last() =~= all.take(i as int));
                    assert(all.take(i + 1).last() == all[i as int]);
                }
                match read_target_entry(&items[i], key) {
                    Ok(t) => {
                        let ghost before = out.deep_view();
                        out.push(t);
                        assert(out.deep_view() =~= before.push(t@));
                    },
                    Err(e) => {
                        proof {
                            lemma_target_error(all, key@, i + 1);
                        }
                        return Err(e);
                    },
                }
                i += 1;
            }
            assert(all.take(i as int) =~= all);
            Ok(out)
        },
        _ => {
            let start: String = concat("target ", key);
            Err(ServiceError::InvalidFormat(concat(start.as_str(), " must be a string or list")))
        },
    }
}

/// The part of a target that one source names: the value it gives, or else the one there was.
pub open spec fn override_target(
    before: Seq<Seq<char>>,
    given: Option<JsonView>,
    key: Seq<char>,
) -> Result<Seq<Seq<char>>, Seq<char>> {
    match given {
        Some(v) => normalized_target(v, key),
        None => Ok(before),
    }
}

/// The entity and device ids of a call: those of the explicit target, or else those of the
/// service data.
pub open spec fn target_from_parts(
    target: Option<JsonView>,
    data: Option<Members>,
) -> Result<(Seq<Seq<char>>, Seq<Seq<char>>), Seq<char>> {
    let data_entity = match data {
        Some(d) => json::member(d, "entity_id"@),
        None => None,
    };
    let data_device = match data {
        Some(d) => json::member(d, "device_id"@),
        None => None,
    };
    let target_entity = match target {
        Some(t) => t.field("entity_id"@),
        None => None,
    };
    let target_device = match target {
        Some(t) => t.field("device_id"@),
        None => None,
    };
    match override_target(Seq::empty(), data_entity, "entity_id"@) {
        Err(e) => Err(e),
        Ok(e1) => match override_target(Seq::empty(), data_device, "device_id"@) {
            Err(e) => Err(e),
            Ok(d1) => match override_target(e1, target_entity, "entity_id"@) {
                Err(e) => Err(e),
                Ok(e2) => match override_target(d1, target_device, "device_id"@) {
                    Err(e) => Err(e),
                    Ok(d2) => Ok((e2, d2)),
                },
            },
        },
    }
}

/// One part of a target, where a source may name it.
fn read_override(
    before: Vec<String>,
    given: Option<&Json>,
    key: &str,
) -> (r: Result<Vec<String>, ServiceError>)
    ensures
        ({
            let spec_given = match given {
                Some(v) => Some(v@),
                None => None,
            };
            match r {
                Ok(v) => override_target(before.deep_view(), spec_given, key@) == Ok::<
                    Seq<Seq<char>>,
                    Seq<char>,
                >(v.deep_view()),
                Err(ServiceError::InvalidFormat(m)) => override_target(
                    before.deep_view(),
                    spec_given,
                    key@,
                ) == Err::<Seq<Seq<char>>, Seq<char>>(m@),
                Err(_) => false,
            }
        }),
{
    match given {
        Some(v) => normalize_target_value(v, key),
        None => Ok(before),
    }
}

/// The members of an optional object as a mathematical value.
pub open spec fn opt_members(
    data: Option<&Vec<(String, Json)>>,
) -> Option<Members> {
    match data {
        Some(d) => Some(json::members_view(d@)),
        None => None,
    }
}

/// An optional JSON value as a mathematical value.
pub open spec fn opt_json_ref(j: Option<&Json>) -> Option<JsonView> {
    match j {
        Some(v) => Some(v@),
        None => None,
    }
}

impl ServiceTarget {
    /// The target of a call, from its explicit target and its service data.
    pub fn from_parts(
        target: Option<&Json>,
        service_data: Option<&Vec<(String, Json)>>,
    ) -> (r: Result<Self, ServiceError>)
        ensures
            match r {
                Ok(t) => target_from_parts(opt_json_ref(target), opt_members(service_data)) == Ok::<
                    (Seq<Seq<char>>, Seq<Seq<char>>),
                    Seq<char>,
                >((t.entity_ids.deep_view(), t.device_ids.deep_view())),
                Err(ServiceError::InvalidFormat(m)) => target_from_parts(
                    opt_json_ref(target),
                    opt_members(service_data),
                ) == Err::<(Seq<Seq<char>>, Seq<Seq<char>>), Seq<char>>(m@),
                Err(_) => false,
            },
    {
        let mut entity_ids: Vec<String> = Vec::new();
        let mut device_ids: Vec<String> = Vec::new();
        assert(entity_ids.deep_view() =~= Seq::<Seq<char>>::empty());
        assert(device_ids.deep_view() =~= Seq::<Seq<char>>::empty());
        let data_entity: Option<&Json> = match service_data {
            Some(data) => get_member(data, "entity_id"),
            None => None,
        };
        let data_device: Option<&Json> = match service_data {
            Some(data) => get_member(data, "device_id"),
            None => None,
        };
        let target_entity: Option<&Json> = match target {
            Some(t) => t.get("entity_id"),
            None => None,
        };
        let target_device: Option<&Json> = match target {
            Some(t) => t.get("device_id"),
            None => None,
        };
        match read_override(entity_ids, data_entity, "entity_id") {
            Ok(v) => {
                entity_ids = v;
            },
            Err(e) => {
                return Err(e);
            },
        }
        match read_override(device_ids, data_device, "device_id") {
            Ok(v) => {
                device_ids = v;
            },
            Err(e) => {
                return Err(e);
            },
        }
        match read_override(entity_ids, target_entity, "entity_id") {
            Ok(v) => {
                entity_ids = v;
            },
            Err(e) => {
                return Err(e);
            },
        }
        match read_override(device_ids, target_device, "device_id") {
            Ok(v) => {
                device_ids = v;
            },
            Err(e) => {
                return Err(e);
            },
        }
        Ok(ServiceTarget { entity_ids, device_ids })
    }

    /// The first entity of the target.
    pub fn primary_entity_id(&self) -> (r: Option<&str>)
        ensures
            match r {
                Some(s) => self.entity_ids@.len() > 0 && s@ == self.entity_ids@[0]@,
                None => self.entity_ids@.len() == 0,
            },
    {
        if self.entity_ids.len() > 0 {
            Some(self.entity_ids[0].as_str())
        } else {
            None
        }
    }
}

impl Default for ServiceTarget {
    fn default() -> (r: Self)
        ensures
            r.entity_ids@.len() == 0,
            r.device_ids@.len() == 0,
    {
        ServiceTarget { entity_ids: Vec::new(), device_ids: Vec::new() }
    }
}

/// The parameters of a call that services read.
#[derive(Clone, Copy, Debug, PartialEq, Eq)]
pub struct ServiceData {
    pub brightness: Option<i64>,
}

impl Default for ServiceData {
    fn default() -> (r: Self)
        ensures
            r.brightness is None,
    {
        ServiceData { brightness: None }
    }
}

/// The brightness that service data asks for, or what is wrong with it.
pub open spec fn brightness_of(
    data: Members,
) -> Result<Option<int>, Seq<char>> {
    match json::member(data, "brightness"@) {
        None | Some(JsonView::Null) => Ok(None),
        Some(JsonView::PosInt(n)) => Ok(json::int_value(JsonView::PosInt(n))),
        Some(JsonView::NegInt(n)) => Ok(Some(n as int)),
        Some(JsonView::Float(_)) => Ok(None),
        _ => Err("brightness must be a number"@),
    }
}

impl ServiceData {
    /// The parameters in service data.
    pub fn from_json(data: &Vec<(String, Json)>) -> (r: Result<Self, ServiceError>)
        ensures
            match r {
                Ok(d) => match brightness_of(json::members_view(data@)) {
                    Ok(Some(n)) => d.brightness == Some(n as i64) && n == n as i64,
                    Ok(None) => d.brightness is None,
                    Err(_) => false,
                },
                Err(ServiceError::InvalidFormat(m)) => brightness_of(json::members_view(data@))
                    == Err::<Option<int>, Seq<char>>(m@),
                Err(_) => false,
            },
    {
        match get_member(data, "brightness") {
            None => Ok(ServiceData { brightness: None }),
            Some(v) => match v {
                Json::Null => Ok(ServiceData { brightness: None }),
                Json::PosInt(_) => Ok(ServiceData { brightness: v.as_i64() }),
                Json::NegInt(_) => Ok(ServiceData { brightness: v.as_i64() }),
                Json::Float(_) => Ok(ServiceData { brightness: None }),
                _ => Err(ServiceError::InvalidFormat("brightness must be a number".to_owned())),
            },
        }
    }
}

/// A call of a service.
pub struct ServiceCall {
    pub domain: String,
    pub service: String,
    pub target: ServiceTarget,
    pub data: ServiceData,
    pub return_response: bool,
}

/// A call of a service in its context.
pub struct ServiceRequest {
    pub domain: String,
    pub service: String,
    pub target: ServiceTarget,
    pub data: ServiceData,
    pub context: Context,
    pub return_response: bool,
}

/// What a call has done.
pub struct ServiceOutcome {
    pub context: Context,
    pub changed_states: Vec<State>,
    pub response: Option<Json>,
}

/// The services that are built in.
#[derive(Clone, Copy, Debug, PartialEq, Eq, Structural)]
pub enum BuiltinServiceKind {
    LightTurnOn,
    LightTurnOff,
    SwitchTurnOn,
    SwitchTurnOff,
}

/// A check that a call must pass.
#[derive(Clone, Copy, Debug, PartialEq, Eq, Structural)]
pub enum ServiceValidator {
    RequireEntityId,
}

/// The built-in service of a domain with a given name.
pub open spec fn builtin_service(
    domain: Seq<char>,
    service: Seq<char>,
) -> Option<BuiltinServiceKind> {
    if domain == "light"@ && service == "turn_on"@ {
        Some(BuiltinServiceKind::LightTurnOn)
    } else if domain == "light"@ && service == "turn_off"@ {
        Some(BuiltinServiceKind::LightTurnOff)
    } else if domain == "switch"@ && service == "turn_on"@ {
        Some(BuiltinServiceKind::SwitchTurnOn)
    } else if domain == "switch"@ && service == "turn_off"@ {
        Some(BuiltinServiceKind::SwitchTurnOff)
    } else {
        None
    }
}

/// The built-in service of a domain with a given name.
pub fn find_builtin_service(domain: &str, service: &str) -> (r: Option<BuiltinServiceKind>)
    ensures
        r == builtin_service(domain@, service@),
{
    if str_eq(domain, "light") && str_eq(service, "turn_on") {
        Some(BuiltinServiceKind::LightTurnOn)
    } else if str_eq(domain, "light") && str_eq(service, "turn_off") {
        Some(BuiltinServiceKind::LightTurnOff)
    } else if str_eq(domain, "switch") && str_eq(service, "turn_on") {
        Some(BuiltinServiceKind::SwitchTurnOn)
    } else if str_eq(domain, "switch") && str_eq(service, "turn_off") {
        Some(BuiltinServiceKind::SwitchTurnOff)
    } else {
        None
    }
}

/// The selector of a parameter that names entities of a domain.
pub open spec fn entity_selector(domain: Seq<char>) -> JsonView {
    JsonView::Object(
        seq![
            (
                "entity"@,
                JsonView::Object(seq![("domain"@, JsonView::Str(domain))]),
            ),
        ],
    )
}

/// The selector of the brightness parameter.
pub open spec fn brightness_selector() -> JsonView {
    JsonView::Object(
        seq![
            (
                "number"@,
                JsonView::Object(
                    json::no_members().push(("min"@, JsonView::PosInt(0))).push(
                        ("max"@, JsonView::PosInt(255)),
                    ),
                ),
            ),
        ],
    )
}

/// What a built-in service does and takes.
pub open spec fn builtin_description(kind: BuiltinServiceKind) -> DescriptionModel {
    let light = ("entity_id"@, false, Some(entity_selector("light"@)));
    let switch = ("entity_id"@, false, Some(entity_selector("switch"@)));
    match kind {
        BuiltinServiceKind::LightTurnOn => DescriptionModel {
            service: "turn_on"@,
            name: "Turn on"@,
            description: "Turn on light entities."@,
            fields: seq![("brightness"@, false, Some(brightness_selector())), light],
            supports_response: SupportsResponse::Never,
        },
        BuiltinServiceKind::LightTurnOff => DescriptionModel {
            service: "turn_off"@,
            name: "Turn off"@,
            description: "Turn off light entities."@,
            fields: seq![light],
            supports_response: SupportsResponse::Never,
        },
        BuiltinServiceKind::SwitchTurnOn => DescriptionModel {
            service: "turn_on"@,
            name: "Turn on"@,
            description: "Turn on switch entities."@,
            fields: seq![switch],
            supports_response: SupportsResponse::Never,
        },
        BuiltinServiceKind::SwitchTurnOff => DescriptionModel {
            service: "turn_off"@,
            name: "Turn off"@,
            description: "Turn off switch entities."@,
            fields: seq![switch],
            supports_response: SupportsResponse::Never,
        },
    }
}

/// The parameter that names entities of a domain.
fn entity_field(domain: &str) -> (r: (String, ServiceField))
    ensures
        r.0@ == "entity_id"@,
        !r.1.required,
        opt_json(r.1.selector) == Some(entity_selector(domain@)),
{
    let inner: Json = ObjectBuilder::new().text("domain", domain).done();
    let selector: Json = ObjectBuilder::new().field("entity", inner).done();
    ("entity_id".to_owned(), ServiceField { required: false, selector: Some(selector) })
}

/// The brightness parameter.
fn brightness_field() -> (r: (String, ServiceField))
    ensures
        r.0@ == "brightness"@,
        !r.1.required,
        opt_json(r.1.selector) == Some(brightness_selector()),
{
    let inner: Json = ObjectBuilder::new().field("min", Json::PosInt(0)).field(
        "max",
        Json::PosInt(255),
    ).done();
    let selector: Json = ObjectBuilder::new().field("number", inner).done();
    ("brightness".to_owned(), ServiceField { required: false, selector: Some(selector) })
}

impl BuiltinServiceKind {
    /// What the service does and takes.
    pub fn description(&self) -> (r: ServiceDescription)
        ensures
            r@ == builtin_description(*self),
    {
        let mut fields: Vec<(String, ServiceField)> = Vec::new();
        let r: ServiceDescription = match self {
            BuiltinServiceKind::LightTurnOn => {
                fields.push(brightness_field());
                fields.push(entity_field("light"));
                ServiceDescription {
                    service: "turn_on".to_owned(),
                    name: "Turn on".to_owned(),
                    description: "Turn on light entities.".to_owned(),
                    fields,
                    supports_response: SupportsResponse::Never,
                }
            },
            BuiltinServiceKind::LightTurnOff => {
                fields.push(entity_field("light"));
                ServiceDescription {
                    service: "turn_off".to_owned(),
                    name: "Turn off".to_owned(),
                    description: "Turn off light entities.".to_owned(),
                    fields,
                    supports_response: SupportsResponse::Never,
                }
            },
            BuiltinServiceKind::SwitchTurnOn => {
                fields.push(entity_field("switch"));
                ServiceDescription {
                    service: "turn_on".to_owned(),
                    name: "Turn on".to_owned(),
                    description: "Turn on switch entities.".to_owned(),
                    fields,
                    supports_response: SupportsResponse::Never,
                }
            },
            BuiltinServiceKind::SwitchTurnOff => {
                fields.push(entity_field("switch"));
                ServiceDescription {
                    service: "turn_off".to_owned(),
                    name: "Turn off".to_owned(),
                    description: "Turn off switch entities.".to_owned(),
                    fields,
                    supports_response: SupportsResponse::Never,
                }
            },
        };
        assert(r@.fields =~= builtin_description(*self).fields);
        r
    }

    /// The check that a call of the service must pass.
    pub fn validator(&self) -> (r: Option<ServiceValidator>)
        ensures
            r == Some(ServiceValidator::RequireEntityId),
    {
        Some(ServiceValidator::RequireEntityId)
    }

    /// The state that the service gives to its entities.
    pub open spec fn state_value(self) -> Seq<char> {
        match self {
            BuiltinServiceKind::LightTurnOn | BuiltinServiceKind::SwitchTurnOn => "on"@,
            BuiltinServiceKind::LightTurnOff | BuiltinServiceKind::SwitchTurnOff => "off"@,
        }
    }
}

/// A built-in service gives its entities one of two states.
proof fn lemma_state_value_storable(kind: BuiltinServiceKind)
    ensures
        text::byte_count(kind.state_value()) <= state_store::MAX_STATE_BYTES,
{
    reveal_strlit("on");
    reveal_strlit("off");
    let s = kind.state_value();
    assert(vstd::utf8::is_ascii_chars(s));
    vstd::utf8::is_ascii_chars_encode_utf8(s);
}

/// The attributes of an entity, in a map of states.
pub open spec fn attributes_in(states: Map<Seq<char>, StateView>, id: Seq<char>) -> Members {
    if states.contains_key(id) {
        states[id].attributes
    } else {
        json::no_members()
    }
}

/// Attributes with the brightness that a call asks for.
pub open spec fn with_brightness(attributes: Members, brightness: Option<i64>) -> Members {
    match brightness {
        Some(b) => json::with_member(attributes, "brightness"@, json::int_json(b as int)),
        None => attributes,
    }
}

/// The state that a call gives to one entity.
pub open spec fn commanded_state(
    states: Map<Seq<char>, StateView>,
    id: Seq<char>,
    value: Seq<char>,
    brightness: Option<i64>,
    context: ContextView,
    timestamp: Seq<char>,
) -> StateView {
    state_store::state_at(
        id,
        value,
        with_brightness(attributes_in(states, id), brightness),
        context,
        timestamp,
    )
}

/// The states after a call has gone through some entities, one after the other, and the changes
/// that led to them.
pub open spec fn commanded(
    run: StateRun,
    ids: Seq<Seq<char>>,
    value: Seq<char>,
    brightness: Option<i64>,
    context: ContextView,
    timestamps: Seq<Seq<char>>,
) -> StateRun
    decreases ids.len(),
{
    if ids.len() == 0 {
        run
    } else {
        let n = (ids.len() - 1) as int;
        let before = commanded(run, ids.take(n), value, brightness, context, timestamps);
        let s = commanded_state(before.states, ids[n], value, brightness, context, timestamps[n]);
        StateRun {
            states: before.states.insert(ids[n], s),
            events: before.events.push((s, state_store::state_in(before.states, ids[n]))),
        }
    }
}

proof fn lemma_commanded_timestamps(
    run: StateRun,
    ids: Seq<Seq<char>>,
    value: Seq<char>,
    brightness: Option<i64>,
    context: ContextView,
    t1: Seq<Seq<char>>,
    t2: Seq<Seq<char>>,
)
    requires
        forall|i: int| 0 <= i < ids.len() ==> #[trigger] t1[i] == t2[i],
    ensures
        commanded(run, ids, value, brightness, context, t1) == commanded(
            run,
            ids,
            value,
            brightness,
            context,
            t2,
        ),
    decreases ids.len(),
{
    if ids.len() > 0 {
        let n = (ids.len() - 1) as int;
        lemma_commanded_timestamps(run, ids.take(n), value, brightness, context, t1, t2);
        assert(t1[n] == t2[n]);
    }
}

/// When the states of a call were made.
pub open spec fn made_at(changed: Seq<State>) -> Seq<Seq<char>> {
    Seq::new(changed.len(), |i: int| changed[i].last_updated@)
}

/// What a call leaves behind when it has gone through all of its entities.
pub open spec fn call_completed(
    before: StateRun,
    after: StateRun,
    ids: Seq<Seq<char>>,
    value: Seq<char>,
    brightness: Option<i64>,
    outcome: ServiceOutcome,
) -> bool {
    let ts = made_at(outcome.changed_states@);
    &&& forall|i: int| 0 <= i < ids.len() ==> state_store::valid_entity_id(#[trigger] ids[i])
    &&& outcome.changed_states@.len() == ids.len()
    &&& outcome.response is None
    &&& forall|i: int| 0 <= i < ids.len() ==> state_store::is_timestamp(#[trigger] ts[i])
    &&& after == commanded(before, ids, value, brightness, outcome.context@, ts)
    &&& forall|i: int|
        0 <= i < ids.len() ==> (#[trigger] outcome.changed_states@[i])@ == commanded(
            before,
            ids.take(i + 1),
            value,
            brightness,
            outcome.context@,
            ts,
        ).states[ids[i]]
}

/// Whether a context is one of its own.
pub open spec fn is_fresh(c: ContextView) -> bool {
    ids::is_hex_text(c.id, 32) && c.parent_id is None && c.user_id is None
}

/// What a call leaves behind when it meets a text that is no entity id: the entities before it
/// have changed.
pub open spec fn call_stopped(
    before: StateRun,
    after: StateRun,
    ids: Seq<Seq<char>>,
    value: Seq<char>,
    brightness: Option<i64>,
    context: ContextView,
    message: Seq<char>,
) -> bool {
    exists|ts: Seq<Seq<char>>, k: int|
        {
            &&& ts.len() == k < ids.len()
            &&& forall|i: int| 0 <= i < k ==> state_store::is_timestamp(#[trigger] ts[i])
            &&& !state_store::valid_entity_id(ids[k])
            &&& forall|i: int| 0 <= i < k ==> state_store::valid_entity_id(#[trigger] ids[i])
            &&& message == "Invalid entity ID: "@ + ids[k]
            &&& after == #[trigger] commanded(before, ids.take(k), value, brightness, context, ts)
        }
}

/// What a call leaves behind when it meets a text that is no entity id, in whatever context of its
/// own.
pub open spec fn call_stopped_afresh(
    before: StateRun,
    after: StateRun,
    ids: Seq<Seq<char>>,
    value: Seq<char>,
    brightness: Option<i64>,
    message: Seq<char>,
) -> bool {
    exists|context: ContextView|
        is_fresh(context) && #[trigger] call_stopped(
            before,
            after,
            ids,
            value,
            brightness,
            context,
            message,
        )
}

/// After a call has gone through entities, each of them has the value that it asks for, in its
/// context; all other entities are as they were. One change is told for each of the entities.
pub proof fn law_commanded(
    run: StateRun,
    ids: Seq<Seq<char>>,
    value: Seq<char>,
    brightness: Option<i64>,
    context: ContextView,
    timestamps: Seq<Seq<char>>,
    id: Seq<char>,
)
    ensures
        ({
            let states = run.states;
            let after = commanded(run, ids, value, brightness, context, timestamps).states;
            if ids.contains(id) {
                after.contains_key(id) && after[id].entity_id == id && after[id].state == value
                    && after[id].context == context
            } else {
                after.contains_key(id) == states.contains_key(id) && (states.contains_key(id)
                    ==> after[id] == states[id])
            }
        }),
        commanded(run, ids, value, brightness, context, timestamps).events.len() == run.events.len()
            + ids.len(),
    decreases ids.len(),
{
    if ids.len() > 0 {
        let n = (ids.len() - 1) as int;
        let front = ids.take(n);
        law_commanded(run, front, value, brightness, context, timestamps, id);
        if ids.contains(id) && ids[n] != id {
            let k = choose|k: int| 0 <= k < ids.len() && ids[k] == id;
            assert(front[k] == id);
        }
        if front.contains(id) {
            let k = choose|k: int| 0 <= k < front.len() && front[k] == id;
            assert(ids[k] == id);
        }
    }
}

/// The states that a call makes have points in time.
pub proof fn law_commanded_timed(
    run: StateRun,
    ids: Seq<Seq<char>>,
    value: Seq<char>,
    brightness: Option<i64>,
    context: ContextView,
    timestamps: Seq<Seq<char>>,
)
    requires
        state_store::all_timed(run),
        forall|i: int| 0 <= i < ids.len() ==> state_store::is_timestamp(#[trigger] timestamps[i]),
    ensures
        state_store::all_timed(commanded(run, ids, value, brightness, context, timestamps)),
    decreases ids.len(),
{
    if ids.len() > 0 {
        let n = (ids.len() - 1) as int;
        let front = ids.take(n);
        law_commanded_timed(run, front, value, brightness, context, timestamps);
        let before = commanded(run, front, value, brightness, context, timestamps);
        let after = commanded(run, ids, value, brightness, context, timestamps);
        assert(state_store::is_timestamp(timestamps[n]));
        assert forall|id: Seq<char>| #[trigger] after.states.contains_key(
            id,
        ) implies state_store::is_timed(after.states[id]) by {
            if id != ids[n] {
                assert(before.states.contains_key(id));
            }
        }
        assert forall|i: int| 0 <= i < after.events.len() implies state_store::is_timed(
            (#[trigger] after.events[i]).0,
        ) by {
            if i < before.events.len() {
                assert(after.events[i] == before.events[i]);
            }
        }
    }
}

/// A service call leaves all states with points in time.
pub proof fn law_call_timed(
    before: StateRun,
    after: StateRun,
    call: ServiceCall,
    r: Result<ServiceOutcome, ServiceError>,
)
    requires
        call_result(before, after, call, r),
        state_store::all_timed(before),
    ensures
        state_store::all_timed(after),
{
    let ids = call.target.entity_ids.deep_view();
    if let Some(kind) = builtin_service(call.domain@, call.service@) {
        if !call.return_response && call.target.entity_ids@.len() > 0 {
            let value = kind.state_value();
            match r {
                Ok(outcome) => {
                    law_commanded_timed(
                        before,
                        ids,
                        value,
                        call.data.brightness,
                        outcome.context@,
                        made_at(outcome.changed_states@),
                    );
                },
                Err(ServiceError::InvalidFormat(m)) => {
                    let context = choose|context: ContextView|
                        is_fresh(context) && #[trigger] call_stopped(
                            before,
                            after,
                            ids,
                            value,
                            call.data.brightness,
                            context,
                            m@,
                        );
                    let (ts, k) = choose|ts: Seq<Seq<char>>, k: int|
                        {
                            &&& ts.len() == k < ids.len()
                            &&& forall|i: int|
                                0 <= i < k ==> state_store::is_timestamp(#[trigger] ts[i])
                            &&& after == #[trigger] commanded(
                                before,
                                ids.take(k),
                                value,
                                call.data.brightness,
                                context,
                                ts,
                            )
                        };
                    law_commanded_timed(
                        before,
                        ids.take(k),
                        value,
                        call.data.brightness,
                        context,
                        ts,
                    );
                },
                Err(_) => {},
            }
        }
    }
}

/// Gives a state to entities, one after the other.
fn set_entities_state(
    request: &ServiceRequest,
    states: &mut StateStore,
    events: &mut Vec<StateEvent>,
    state_value: &str,
) -> (r: Result<ServiceOutcome, ServiceError>)
    requires
        text::byte_count(state_value@) <= state_store::MAX_STATE_BYTES,
        request.target.entity_ids@.len() > 0,
    ensures
        match r {
            Ok(outcome) => outcome.context == request.context && call_completed(
                state_store::run_of(*old(states), old(events)@),
                state_store::run_of(*final(states), final(events)@),
                request.target.entity_ids.deep_view(),
                state_value@,
                request.data.brightness,
                outcome,
            ),
            Err(ServiceError::InvalidFormat(m)) => call_stopped(
                state_store::run_of(*old(states), old(events)@),
                state_store::run_of(*final(states), final(events)@),
                request.target.entity_ids.deep_view(),
                state_value@,
                request.data.brightness,
                request.context@,
                m@,
            ),
            Err(_) => false,
        },
        old(states).wf() ==> final(states).wf(),
{
    let target: &ServiceTarget = &request.target;
    let data: ServiceData = request.data;
    let context: Context = request.context.clone();
    let mut changed_states: Vec<State> = Vec::new();
    let mut i: usize = 0;
    let ghost ids = target.entity_ids.deep_view();
    let ghost before = state_store::run_of(*states, events@);
    assert(ids.take(0) =~= Seq::empty());
    while i < target.entity_ids.len()
        invariant
            i <= target.entity_ids.len(),
            ids == target.entity_ids.deep_view(),
            before == state_store::run_of(*old(states), old(events)@),
            *target == request.target,
            data == request.data,
            context == request.context,
            text::byte_count(state_value@) <= state_store::MAX_STATE_BYTES,
            changed_states@.len() == i,
            old(states).wf() ==> states.wf(),
            forall|k: int| 0 <= k < i ==> state_store::valid_entity_id(#[trigger] ids[k]),
            forall|k: int|
                0 <= k < i ==> state_store::is_timestamp(#[trigger] made_at(changed_states@)[k]),
            state_store::run_of(*states, events@) == commanded(
                before,
                ids.take(i as int),
                state_value@,
                data.brightness,
                context@,
                made_at(changed_states@),
            ),
            forall|k: int|
                0 <= k < i ==> (#[trigger] changed_states@[k])@ == commanded(
                    before,
                    ids.take(k + 1),
                    state_value@,
                    data.brightness,
                    context@,
                    made_at(changed_states@),
                ).states[ids[k]],
        decreases target.entity_ids.len() - i,
    {
        let entity_id: &String = &target.entity_ids[i];
        let ghost prev = changed_states@;
        let ghost ts0 = made_at(prev);
        let ghost map0 = states@;
        let ghost events0 = events@;
        assert(ids[i as int] == entity_id@);
        let mut attributes: Vec<(String, Json)> = match states.get(entity_id.as_str()) {
            Some(state) => state.attributes,
            None => Vec::new(),
        };
        assert(json::members_view(attributes@) == attributes_in(map0, entity_id@));
        if let Some(brightness) = data.brightness {
            put_member(&mut attributes, "brightness", Json::from_i64(brightness));
        }
        let new_state: State = make_state_with_context(
            entity_id.as_str(),
            state_value,
            StateAttributes { members: attributes },
            context.clone(),
        );
        let copy: State = new_state.clone();
        match states.set(copy) {
            Ok(event) => {
                events.push(event);
                assert(state_store::events_model(events@) =~= state_store::events_model(
                    events0,
                ).push(event@));
            },
            Err(e) => {
                assert(call_stopped(
                    before,
                    state_store::run_of(*states, events@),
                    ids,
                    state_value@,
                    data.brightness,
                    context@,
                    e.text(),
                )) by {
                    assert(ts0.len() == i);
                    assert(state_store::run_of(*states, events@) == commanded(
                        before,
                        ids.take(i as int),
                        state_value@,
                        data.brightness,
                        context@,
                        ts0,
                    ));
                }
                return Err(ServiceError::from_state_error(e));
            },
        }
        changed_states.push(new_state);
        proof {
            let ts1 = made_at(changed_states@);
            assert forall|k: int| 0 <= k < i implies #[trigger] ts0[k] == ts1[k] by {}
            lemma_commanded_timestamps(
                before,
                ids.take(i as int),
                state_value@,
                data.brightness,
                context@,
                ts0,
                ts1,
            );
            assert(ids.take(i + 1).take(i as int) =~= ids.take(i as int));
            assert(ts1[i as int] == new_state.last_updated@);
            assert(new_state@ == commanded_state(
                map0,
                ids[i as int],
                state_value@,
                data.brightness,
                context@,
                ts1[i as int],
            ));
            assert forall|k: int| 0 <= k < i + 1 implies (#[trigger] changed_states@[k])@
                == commanded(
                before,
                ids.take(k + 1),
                state_value@,
                data.brightness,
                context@,
                ts1,
            ).states[ids[k]] by {
                if k < i {
                    assert(changed_states@[k] == prev[k]);
                    lemma_commanded_timestamps(
                        before,
                        ids.take(k + 1),
                        state_value@,
                        data.brightness,
                        context@,
                        ts0,
                        ts1,
                    );
                }
            }
        }
        i += 1;
    }
    assert(ids.take(i as int) =~= ids);
    Ok(ServiceOutcome { context, changed_states, response: None })
}

/// Checks that a call names an entity.
pub fn require_entity_id(call: &ServiceCall) -> (r: Result<(), ServiceError>)
    ensures
        match r {
            Ok(_) => call.target.entity_ids@.len() > 0,
            Err(ServiceError::InvalidFormat(m)) => call.target.entity_ids@.len() == 0 && m@
                == "target must include entity_id"@,
            Err(_) => false,
        },
{
    match call.target.primary_entity_id() {
        Some(_) => Ok(()),
        None => Err(ServiceError::InvalidFormat("target must include entity_id".to_owned())),
    }
}

/// A fresh context of a call.
pub fn new_context() -> (r: Context)
    ensures
        ids::is_hex_text(r.id@, 32),
        r.parent_id is None,
        r.user_id is None,
{
    Context { id: new_hex_id(), parent_id: None, user_id: None }
}

/// The services that can be called.
pub struct ServiceRegistry;

/// All services, by domain.
pub open spec fn service_catalog() -> Seq<DomainModel> {
    Seq::empty().push(
        (
            "light"@,
            Seq::empty().push(builtin_description(BuiltinServiceKind::LightTurnOn)).push(
                builtin_description(BuiltinServiceKind::LightTurnOff),
            ),
        ),
    ).push(
        (
            "switch"@,
            Seq::empty().push(builtin_description(BuiltinServiceKind::SwitchTurnOn)).push(
                builtin_description(BuiltinServiceKind::SwitchTurnOff),
            ),
        ),
    )
}

/// The two services of a domain.
fn domain_catalog(
    domain: &str,
    first: BuiltinServiceKind,
    second: BuiltinServiceKind,
) -> (r: ServiceDomainCatalog)
    ensures
        r@ == (domain@, Seq::empty().push(builtin_description(first)).push(
            builtin_description(second),
        )),
{
    let mut services: Vec<ServiceDescriptorView> = Vec::new();
    services.push(ServiceDescriptorView::from_description(first.description()));
    services.push(ServiceDescriptorView::from_description(second.description()));
    assert(services@.map_values(|s: ServiceDescriptorView| s@) =~= Seq::empty().push(
        builtin_description(first),
    ).push(builtin_description(second)));
    ServiceDomainCatalog { domain: domain.to_owned(), services }
}

/// What a service call returns and does to the states.
///
/// Nothing changes where the service does not exist, where a response is asked of a service that
/// gives none, or where no entity is named. Otherwise the entities of the target change their
/// state in a fresh context; at a text that is no entity id the call stops.
pub open spec fn call_result(
    before: StateRun,
    after: StateRun,
    call: ServiceCall,
    r: Result<ServiceOutcome, ServiceError>,
) -> bool {
    match builtin_service(call.domain@, call.service@) {
        None => {
            &&& after == before
            &&& r matches Err(ServiceError::NotFound { domain, service })
            &&& domain@ == call.domain@
            &&& service@ == call.service@
        },
        Some(kind) => if call.return_response {
            &&& after == before
            &&& r matches Err(ServiceError::ServiceValidation(m))
            &&& m@
                == "Service does not support responses. Remove return_response from request."@
        } else if call.target.entity_ids@.len() == 0 {
            &&& after == before
            &&& r matches Err(ServiceError::InvalidFormat(m))
            &&& m@ == "target must include entity_id"@
        } else {
            match r {
                Ok(outcome) => {
                    &&& ids::is_hex_text(outcome.context.id@, 32)
                    &&& outcome.context.parent_id is None
                    &&& outcome.context.user_id is None
                    &&& call_completed(
                        before,
                        after,
                        call.target.entity_ids.deep_view(),
                        kind.state_value(),
                        call.data.brightness,
                        outcome,
                    )
                },
                Err(ServiceError::InvalidFormat(m)) => call_stopped_afresh(
                    before,
                    after,
                    call.target.entity_ids.deep_view(),
                    kind.state_value(),
                    call.data.brightness,
                    m@,
                ),
                Err(_) => false,
            }
        },
    }
}

impl ServiceRegistry {
    /// A registry of the built-in services.
    pub fn new() -> Self {
        ServiceRegistry
    }

    /// All services, by domain.
    pub fn describe(&self) -> (r: Vec<ServiceDomainCatalog>)
        ensures
            r@.map_values(|d: ServiceDomainCatalog| d@) == service_catalog(),
    {
        let mut out: Vec<ServiceDomainCatalog> = Vec::new();
        out.push(
            domain_catalog(
                "light",
                BuiltinServiceKind::LightTurnOn,
                BuiltinServiceKind::LightTurnOff,
            ),
        );
        out.push(
            domain_catalog(
                "switch",
                BuiltinServiceKind::SwitchTurnOn,
                BuiltinServiceKind::SwitchTurnOff,
            ),
        );
        assert(out@.map_values(|d: ServiceDomainCatalog| d@) =~= service_catalog());
        out
    }

    /// Calls a service: the entities of its target change their state in a fresh context.
    ///
    /// Nothing changes where the service does not exist, where a response is asked of a service
    /// that gives none, or where no entity is named. At a text that is no entity id the call
    /// stops.
    pub fn call(
        &self,
        states: &mut StateStore,
        events: &mut Vec<StateEvent>,
        call: &ServiceCall,
    ) -> (r: Result<ServiceOutcome, ServiceError>)
        ensures
            call_result(
                state_store::run_of(*old(states), old(events)@),
                state_store::run_of(*final(states), final(events)@),
                *call,
                r,
            ),
            old(states).wf() ==> final(states).wf(),
    {
        let kind: BuiltinServiceKind = match find_builtin_service(
            call.domain.as_str(),
            call.service.as_str(),
        ) {
            Some(kind) => kind,
            None => {
                return Err(
                    ServiceError::NotFound {
                        domain: call.domain.clone(),
                        service: call.service.clone(),
                    },
                );
            },
        };
        let supports: SupportsResponse = kind.description().supports_response;
        match (supports, call.return_response) {
            (SupportsResponse::Never, true) => {
                return Err(
                    ServiceError::ServiceValidation(
                        "Service does not support responses. Remove return_response from request.".to_owned(),
                    ),
                );
            },
            (SupportsResponse::Only, false) => {
                return Err(
                    ServiceError::ServiceValidation(
                        "Service call requires responses but caller did not ask for responses. Add return_response to request.".to_owned(),
                    ),
                );
            },
            _ => {},
        }
        match kind.validator() {
            Some(ServiceValidator::RequireEntityId) => match require_entity_id(call) {
                Ok(_) => {},
                Err(e) => {
                    return Err(e);
                },
            },
            None => {},
        }
        let request: ServiceRequest = ServiceRequest {
            domain: call.domain.clone(),
            service: call.service.clone(),
            target: ServiceTarget {
                entity_ids: copy_strings(&call.target.entity_ids),
                device_ids: copy_strings(&call.target.device_ids),
            },
            data: call.data,
            context: new_context(),
            return_response: call.return_response,
        };
        let ghost fresh = request.context@;
        assert(is_fresh(fresh));
        kind.invoke(&request, states, events)
    }
}

impl BuiltinServiceKind {
    /// Carries out the service.
    pub fn invoke(
        self,
        request: &ServiceRequest,
        states: &mut StateStore,
        events: &mut Vec<StateEvent>,
    ) -> (r: Result<ServiceOutcome, ServiceError>)
        requires
            request.target.entity_ids@.len() > 0,
        ensures
            match r {
                Ok(outcome) => outcome.context == request.context && call_completed(
                    state_store::run_of(*old(states), old(events)@),
                    state_store::run_of(*final(states), final(events)@),
                    request.target.entity_ids.deep_view(),
                    self.state_value(),
                    request.data.brightness,
                    outcome,
                ),
                Err(ServiceError::InvalidFormat(m)) => call_stopped(
                    state_store::run_of(*old(states), old(events)@),
                    state_store::run_of(*final(states), final(events)@),
                    request.target.entity_ids.deep_view(),
                    self.state_value(),
                    request.data.brightness,
                    request.context@,
                    m@,
                ),
                Err(_) => false,
            },
            old(states).wf() ==> final(states).wf(),
    {
        proof {
            lemma_state_value_storable(self);
        }
        match self {
            BuiltinServiceKind::LightTurnOn | BuiltinServiceKind::SwitchTurnOn => set_entities_state(
                request,
                states,
                events,
                "on",
            ),
            BuiltinServiceKind::LightTurnOff
            | BuiltinServiceKind::SwitchTurnOff => set_entities_state(request, states, events, "off"),
        }
    }
}

impl Default for ServiceRegistry {
    fn default() -> Self {
        ServiceRegistry::new()
    }
}

} // verus!
