//! Authentication: tokens, login flows, and the authorization page.

use vstd::prelude::*;
use vstd::string::*;
use vstd::utf8::encode_utf8;

use crate::app_core;
use crate::app_core::{apply_owner, AuthorizeBootstrapInput, OwnerModel};
use crate::auth_store;
use crate::auth_store::{check_credentials, upgrade_password};
use crate::ids;
use crate::ids::new_uuid;
use crate::json;
use crate::json::{Json, JsonView, ObjectBuilder};
use crate::keyed;
use crate::keyed::{position, put, remove_key, Keyed};
use crate::storage::{OnboardingModel, OnboardingState};
use crate::text;
use crate::text::{concat, opt_is, split_on, split_once_on, str_eq, trim};
use crate::web;
use crate::web::{fits_header, html_escape, percent_decode, percent_encode, Reply, ReplyView};

verus! {

/// A token or code, and the client it was given to.
pub struct TokenEntry {
    pub token: String,
    pub client_id: String,
}

impl View for TokenEntry {
    type V = Seq<char>;

    open spec fn view(&self) -> Seq<char> {
        self.client_id@
    }
}

impl Keyed for TokenEntry {
    open spec fn key(&self) -> Seq<char> {
        self.token@
    }

    fn key_str(&self) -> (r: &str) {
        self.token.as_str()
    }
}

/// The codes and tokens that have been given out.
pub struct TokenStore {
    pub auth_codes: Vec<TokenEntry>,
    pub refresh_tokens: Vec<TokenEntry>,
    pub access_tokens: Vec<TokenEntry>,
}

/// The mathematical value of a [`TokenStore`]: three maps to clients.
#[verifier::ext_equal]
pub struct TokenModel {
    pub auth_codes: Map<Seq<char>, Seq<char>>,
    pub refresh_tokens: Map<Seq<char>, Seq<char>>,
    pub access_tokens: Map<Seq<char>, Seq<char>>,
}

impl View for TokenStore {
    type V = TokenModel;

    open spec fn view(&self) -> TokenModel {
        TokenModel {
            auth_codes: keyed::map_of(self.auth_codes@),
            refresh_tokens: keyed::map_of(self.refresh_tokens@),
            access_tokens: keyed::map_of(self.access_tokens@),
        }
    }
}

impl TokenModel {
    /// After a code has been given to a client.
    pub open spec fn with_code(self, code: Seq<char>, client_id: Seq<char>) -> TokenModel {
        TokenModel { auth_codes: self.auth_codes.insert(code, client_id), ..self }
    }

    /// After a code has been used up.
    pub open spec fn without_code(self, code: Seq<char>) -> TokenModel {
        TokenModel { auth_codes: self.auth_codes.remove(code), ..self }
    }

    /// After an access token has been given to a client.
    pub open spec fn with_access(self, token: Seq<char>, client_id: Seq<char>) -> TokenModel {
        TokenModel { access_tokens: self.access_tokens.insert(token, client_id), ..self }
    }

    /// After a refresh token has been given to a client.
    pub open spec fn with_refresh(self, token: Seq<char>, client_id: Seq<char>) -> TokenModel {
        TokenModel { refresh_tokens: self.refresh_tokens.insert(token, client_id), ..self }
    }

    /// After a refresh token has been revoked.
    pub open spec fn without_refresh(self, token: Seq<char>) -> TokenModel {
        TokenModel { refresh_tokens: self.refresh_tokens.remove(token), ..self }
    }

    /// Whether a code was given to a client and has not been used.
    pub open spec fn code_is_for(self, code: Seq<char>, client_id: Seq<char>) -> bool {
        self.auth_codes.contains_key(code) && self.auth_codes[code] == client_id
    }

    /// Whether a refresh token is known, and given to the client if one is named.
    pub open spec fn can_refresh(self, token: Seq<char>, client_id: Option<Seq<char>>) -> bool {
        &&& self.refresh_tokens.contains_key(token)
        &&& client_id is Some ==> self.refresh_tokens[token] == client_id->0
    }
}

/// The text of an optional string.
pub open spec fn opt_text(s: Option<&str>) -> Option<Seq<char>> {
    match s {
        Some(v) => Some(v@),
        None => None,
    }
}

impl TokenStore {
    /// A store that has given out nothing.
    pub fn new() -> (r: Self)
        ensures
            r@ == (TokenModel {
                auth_codes: Map::empty(),
                refresh_tokens: Map::empty(),
                access_tokens: Map::empty(),
            }),
    {
        let r = TokenStore {
            auth_codes: Vec::new(),
            refresh_tokens: Vec::new(),
            access_tokens: Vec::new(),
        };
        assert(r@.auth_codes =~= Map::empty());
        assert(r@.refresh_tokens =~= Map::empty());
        assert(r@.access_tokens =~= Map::empty());
        r
    }

    /// Gives a one-time code to a client.
    pub fn issue_auth_code(&mut self, client_id: &str) -> (r: String)
        ensures
            ids::is_hyphenated(r@),
            final(self)@ == old(self)@.with_code(r@, client_id@),
    {
        let code: String = new_uuid();
        let entry: TokenEntry = TokenEntry { token: code.clone(), client_id: client_id.to_owned() };
        proof {
            keyed::lemma_map_put(self.auth_codes@, entry);
        }
        let _ = put(&mut self.auth_codes, entry);
        code
    }

    /// Exchanges a code for an access token and a refresh token. A code that was given out is
    /// used up by this, even where the client is not the one it was given to.
    pub fn exchange_code(&mut self, client_id: &str, code: &str) -> (r: Option<(String, String)>)
        ensures
            r is Some == old(self)@.code_is_for(code@, client_id@),
            match r {
                Some(pair) => {
                    &&& ids::is_hyphenated(pair.0@)
                    &&& ids::is_hyphenated(pair.1@)
                    &&& final(self)@ == old(self)@.without_code(code@).with_refresh(
                        pair.1@,
                        client_id@,
                    ).with_access(pair.0@, client_id@)
                },
                None => final(self)@ == old(self)@.without_code(code@),
            },
    {
        let known: bool = match position(&self.auth_codes, code) {
            Some(i) => str_eq(self.auth_codes[i].client_id.as_str(), client_id),
            None => false,
        };
        proof {
            keyed::lemma_map_without_key(self.auth_codes@, code@);
        }
        let _ = remove_key(&mut self.auth_codes, code);
        if !known {
            return None;
        }
        let refresh_token: String = new_uuid();
        let access_token: String = new_uuid();
        let refresh_entry: TokenEntry = TokenEntry {
            token: refresh_token.clone(),
            client_id: client_id.to_owned(),
        };
        let access_entry: TokenEntry = TokenEntry {
            token: access_token.clone(),
            client_id: client_id.to_owned(),
        };
        proof {
            keyed::lemma_map_put(self.refresh_tokens@, refresh_entry);
            keyed::lemma_map_put(self.access_tokens@, access_entry);
        }
        let _ = put(&mut self.refresh_tokens, refresh_entry);
        let _ = put(&mut self.access_tokens, access_entry);
        Some((access_token, refresh_token))
    }

    /// Gives a new access token for a refresh token. Where a client is named, it has to be the
    /// one that the refresh token was given to.
    pub fn refresh_access_token(
        &mut self,
        client_id: Option<&str>,
        refresh_token: &str,
    ) -> (r: Option<String>)
        ensures
            r is Some == old(self)@.can_refresh(refresh_token@, opt_text(client_id)),
            match r {
                Some(token) => ids::is_hyphenated(token@) && final(self)@ == old(self)@.with_access(
                    token@,
                    old(self)@.refresh_tokens[refresh_token@],
                ),
                None => *final(self) == *old(self),
            },
    {
        let stored_client: String = match position(&self.refresh_tokens, refresh_token) {
            Some(i) => self.refresh_tokens[i].client_id.clone(),
            None => {
                return None;
            },
        };
        if let Some(cid) = client_id {
            if !str_eq(stored_client.as_str(), cid) {
                return None;
            }
        }
        let access_token: String = new_uuid();
        let entry: TokenEntry = TokenEntry { token: access_token.clone(), client_id: stored_client };
        proof {
            keyed::lemma_map_put(self.access_tokens@, entry);
        }
        let _ = put(&mut self.access_tokens, entry);
        Some(access_token)
    }

    /// Revokes a refresh token, if it is known.
    pub fn revoke_refresh_token(&mut self, token: &str)
        ensures
            final(self)@ == old(self)@.without_refresh(token@),
    {
        proof {
            keyed::lemma_map_without_key(self.refresh_tokens@, token@);
        }
        let _ = remove_key(&mut self.refresh_tokens, token);
    }

    /// The client of an access token that has been given out.
    pub fn validate_access_token(&self, access_token: &str) -> (r: Option<String>)
        ensures
            match r {
                Some(client) => self@.access_tokens.contains_key(access_token@) && client@
                    == self@.access_tokens[access_token@],
                None => !self@.access_tokens.contains_key(access_token@),
            },
    {
        match position(&self.access_tokens, access_token) {
            Some(i) => Some(self.access_tokens[i].client_id.clone()),
            None => None,
        }
    }
}

impl Default for TokenStore {
    fn default() -> (r: Self)
        ensures
            r@ == (TokenModel {
                auth_codes: Map::empty(),
                refresh_tokens: Map::empty(),
                access_tokens: Map::empty(),
            }),
    {
        TokenStore::new()
    }
}

/// A code works once: for the client it was given to, and then for nobody.
pub proof fn law_code_once(
    m: TokenModel,
    code: Seq<char>,
    client: Seq<char>,
    refresh: Seq<char>,
    access: Seq<char>,
    other: Seq<char>,
)
    ensures
        m.with_code(code, client).code_is_for(code, client),
        other != client ==> !m.with_code(code, client).code_is_for(code, other),
        !m.without_code(code).with_refresh(refresh, client).with_access(access, client).code_is_for(
            code,
            other,
        ),
        !m.without_code(code).code_is_for(code, other),
{
}

/// The tokens of an exchange belong to the client: the access token is valid, and the refresh
/// token gives further ones until it is revoked. Revoking leaves access tokens valid.
pub proof fn law_tokens(
    m: TokenModel,
    client: Seq<char>,
    refresh: Seq<char>,
    access: Seq<char>,
    named: Option<Seq<char>>,
)
    ensures
        ({
            let given = m.with_refresh(refresh, client).with_access(access, client);
            &&& given.access_tokens.contains_key(access)
            &&& given.access_tokens[access] == client
            &&& given.can_refresh(refresh, None)
            &&& given.can_refresh(refresh, Some(client))
            &&& !given.without_refresh(refresh).can_refresh(refresh, named)
            &&& given.without_refresh(refresh).access_tokens == given.access_tokens
        }),
{
}

/// How far a login has come.
#[derive(Clone, Copy, Debug, PartialEq, Eq, Structural)]
pub enum FlowStep {
    /// Waiting for a user name and a password.
    Form,
    /// Completed.
    Done,
}

/// A login in progress.
pub struct LoginFlow {
    pub flow_id: String,
    pub client_id: String,
    pub step: FlowStep,
}

/// A login as a mathematical value: the client and the step.
pub type FlowModel = (Seq<char>, FlowStep);

impl View for LoginFlow {
    type V = FlowModel;

    open spec fn view(&self) -> FlowModel {
        (self.client_id@, self.step)
    }
}

impl Keyed for LoginFlow {
    open spec fn key(&self) -> Seq<char> {
        self.flow_id@
    }

    fn key_str(&self) -> (r: &str) {
        self.flow_id.as_str()
    }
}

impl Clone for LoginFlow {
    fn clone(&self) -> (r: Self)
        ensures
            r == *self,
    {
        LoginFlow {
            flow_id: self.flow_id.clone(),
            client_id: self.client_id.clone(),
            step: self.step,
        }
    }
}

/// The logins in progress.
pub struct LoginFlowStore {
    pub flows: Vec<LoginFlow>,
}

impl View for LoginFlowStore {
    type V = Map<Seq<char>, FlowModel>;

    open spec fn view(&self) -> Map<Seq<char>, FlowModel> {
        keyed::map_of(self.flows@)
    }
}

impl LoginFlowStore {
    /// No logins.
    pub fn new() -> (r: Self)
        ensures
            r@ == Map::<Seq<char>, FlowModel>::empty(),
    {
        let r = LoginFlowStore { flows: Vec::new() };
        assert(r@ =~= Map::<Seq<char>, FlowModel>::empty());
        r
    }

    /// Starts a login for a client.
    pub fn create(&mut self, client_id: String) -> (r: String)
        ensures
            ids::is_hyphenated(r@),
            final(self)@ == old(self)@.insert(r@, (client_id@, FlowStep::Form)),
    {
        let flow_id: String = new_uuid();
        let flow: LoginFlow = LoginFlow {
            flow_id: flow_id.clone(),
            client_id,
            step: FlowStep::Form,
        };
        proof {
            keyed::lemma_map_put(self.flows@, flow);
        }
        let _ = put(&mut self.flows, flow);
        flow_id
    }

    /// A login in progress.
    pub fn get(&self, flow_id: &str) -> (r: Option<LoginFlow>)
        ensures
            match r {
                Some(flow) => self@.contains_key(flow_id@) && flow@ == self@[flow_id@]
                    && flow.flow_id@ == flow_id@,
                None => !self@.contains_key(flow_id@),
            },
    {
        match position(&self.flows, flow_id) {
            Some(i) => Some(self.flows[i].clone()),
            None => None,
        }
    }

    /// Marks a login as completed.
    pub fn mark_done(&mut self, flow_id: &str)
        ensures
            final(self)@ == if old(self)@.contains_key(flow_id@) {
                old(self)@.insert(flow_id@, (old(self)@[flow_id@].0, FlowStep::Done))
            } else {
                old(self)@
            },
    {
        match self.get(flow_id) {
            Some(flow) => {
                let done: LoginFlow = LoginFlow { step: FlowStep::Done, ..flow };
                proof {
                    keyed::lemma_map_put(self.flows@, done);
                }
                let _ = put(&mut self.flows, done);
            },
            None => {},
        }
    }

    /// Ends a login. Returns it, if it was there.
    pub fn remove(&mut self, flow_id: &str) -> (r: Option<LoginFlow>)
        ensures
            match r {
                Some(flow) => old(self)@.contains_key(flow_id@) && flow@ == old(self)@[flow_id@],
                None => !old(self)@.contains_key(flow_id@),
            },
            final(self)@ == old(self)@.remove(flow_id@),
    {
        let flow: Option<LoginFlow> = self.get(flow_id);
        proof {
            keyed::lemma_map_without_key(self.flows@, flow_id@);
        }
        let _ = remove_key(&mut self.flows, flow_id);
        flow
    }
}

impl Default for LoginFlowStore {
    fn default() -> (r: Self)
        ensures
            r@ == Map::<Seq<char>, FlowModel>::empty(),
    {
        LoginFlowStore::new()
    }
}

/// A JSON document that says what is wrong.
pub open spec fn message_json(message: Seq<char>) -> JsonView {
    JsonView::Object(json::no_members().push(("message"@, JsonView::Str(message))))
}

/// An answer that says what is wrong.
pub fn message_reply(status: u16, message: &str) -> (r: Reply)
    ensures
        r@ == ReplyView::Json(status, message_json(message@)),
{
    Reply::Json(status, ObjectBuilder::new().text("message", message).done())
}

/// An empty JSON object.
pub open spec fn empty_json() -> JsonView {
    JsonView::Object(json::no_members())
}

/// The answer that onboarding comes first.
pub open spec fn onboarding_required() -> ReplyView {
    ReplyView::Json(
        400,
        JsonView::Object(
            json::no_members().push(("message"@, JsonView::Str("Onboarding not finished"@))).push(
                ("code"@, JsonView::Str("onboarding_required"@)),
            ),
        ),
    )
}

/// The answer that onboarding comes first.
pub fn onboarding_required_response() -> (r: Reply)
    ensures
        r@ == onboarding_required(),
{
    Reply::Json(
        400,
        ObjectBuilder::new().text("message", "Onboarding not finished").text(
            "code",
            "onboarding_required",
        ).done(),
    )
}

/// Where the endpoints of authorization are.
pub open spec fn oauth_info() -> JsonView {
    JsonView::Object(
        json::no_members().push(("authorization_endpoint"@, JsonView::Str("/auth/authorize"@))).push(
            ("token_endpoint"@, JsonView::Str("/auth/token"@)),
        ).push(("revocation_endpoint"@, JsonView::Str("/auth/revoke"@))).push(
            (
                "response_types_supported"@,
                JsonView::Array(Seq::empty().push(JsonView::Str("code"@))),
            ),
        ).push(
            (
                "service_documentation"@,
                JsonView::Str("https://developers.home-assistant.io/docs/auth_api"@),
            ),
        ),
    )
}

/// An array of one value.
fn single(j: Json) -> (r: Json)
    ensures
        r@ == JsonView::Array(Seq::empty().push(j@)),
{
    let mut v: Vec<Json> = Vec::new();
    let ghost before = v@;
    v.push(j);
    assert(v@.drop_last() =~= before);
    assert(json::items_view(v@) == json::items_view(before).push(j@));
    Json::Array(v)
}

/// Where the endpoints of authorization are.
pub fn well_known_oauth_info() -> (r: Reply)
    ensures
        r@ == ReplyView::Json(200, oauth_info()),
{
    Reply::Json(
        200,
        ObjectBuilder::new().text("authorization_endpoint", "/auth/authorize").text(
            "token_endpoint",
            "/auth/token",
        ).text("revocation_endpoint", "/auth/revoke").field(
            "response_types_supported",
            single(Json::str("code")),
        ).text(
            "service_documentation",
            "https://developers.home-assistant.io/docs/auth_api",
        ).done(),
    )
}

/// The one way to log in: with a user name and a password.
pub open spec fn providers_json() -> JsonView {
    JsonView::Object(
        json::no_members().push(
            (
                "providers"@,
                JsonView::Array(
                    Seq::empty().push(
                        JsonView::Object(
                            json::no_members().push(
                                ("name"@, JsonView::Str("Home Assistant Local"@)),
                            ).push(("id"@, JsonView::Null)).push(
                                ("type"@, JsonView::Str("homeassistant"@)),
                            ),
                        ),
                    ),
                ),
            ),
        ).push(("preselect_remember_me"@, JsonView::Bool(true))),
    )
}

/// The ways to log in, once onboarding is complete.
pub fn auth_providers(onboarded: bool) -> (r: Reply)
    ensures
        r@ == if onboarded {
            ReplyView::Json(200, providers_json())
        } else {
            onboarding_required()
        },
{
    if !onboarded {
        return onboarding_required_response();
    }
    let entry: Json = ObjectBuilder::new().text("name", "Home Assistant Local").field(
        "id",
        Json::Null,
    ).text("type", "homeassistant").done();
    Reply::Json(
        200,
        ObjectBuilder::new().field("providers", single(entry)).field(
            "preselect_remember_me",
            Json::Bool(true),
        ).done(),
    )
}

/// The form that asks for a user name and a password.
pub open spec fn login_form(flow_id: Seq<char>, errors: JsonView) -> JsonView {
    JsonView::Object(
        json::no_members().push(("flow_id"@, JsonView::Str(flow_id))).push(
            ("type"@, JsonView::Str("form"@)),
        ).push(("step_id"@, JsonView::Str("init"@))).push(
            (
                "data_schema"@,
                JsonView::Array(
                    Seq::empty().push(
                        JsonView::Object(
                            json::no_members().push(("name"@, JsonView::Str("username"@))),
                        ),
                    ).push(
                        JsonView::Object(
                            json::no_members().push(("name"@, JsonView::Str("password"@))).push(
                                ("type"@, JsonView::Str("string"@)),
                            ),
                        ),
                    ),
                ),
            ),
        ).push(("errors"@, errors)),
    )
}

/// The form that asks for a user name and a password.
fn login_form_json(flow_id: &str, errors: Json) -> (r: Json)
    ensures
        r@ == login_form(flow_id@, errors@),
{
    let username: Json = ObjectBuilder::new().text("name", "username").done();
    let password: Json = ObjectBuilder::new().text("name", "password").text("type", "string").done();
    let mut schema: Vec<Json> = Vec::new();
    let ghost s0 = schema@;
    schema.push(username);
    let ghost s1 = schema@;
    schema.push(password);
    proof {
        assert(s1.drop_last() =~= s0);
        assert(schema@.drop_last() =~= s1);
        assert(json::items_view(s1) == json::items_view(s0).push(username@));
        assert(json::items_view(schema@) == json::items_view(s1).push(password@));
    }
    ObjectBuilder::new().text("flow_id", flow_id).text("type", "form").text("step_id", "init").field(
        "data_schema",
        Json::Array(schema),
    ).field("errors", errors).done()
}

/// Starts a login, once onboarding is complete.
pub fn login_flow_init(
    flows: &mut LoginFlowStore,
    onboarded: bool,
    client_id: &str,
) -> (r: Reply)
    ensures
        if !onboarded {
            r@ == onboarding_required() && *final(flows) == *old(flows)
        } else if client_id@.len() == 0 {
            r@ == ReplyView::Json(400, message_json("Invalid client id"@)) && *final(flows)
                == *old(flows)
        } else {
            exists|flow_id: Seq<char>|
                {
                    &&& ids::is_hyphenated(flow_id)
                    &&& final(flows)@ == old(flows)@.insert(flow_id, (client_id@, FlowStep::Form))
                    &&& r@ == ReplyView::Json(200, #[trigger] login_form(flow_id, empty_json()))
                }
        },
{
    if !onboarded {
        return onboarding_required_response();
    }
    if client_id.is_empty() {
        return message_reply(400, "Invalid client id");
    }
    let flow_id: String = flows.create(client_id.to_owned());
    Reply::Json(200, login_form_json(flow_id.as_str(), ObjectBuilder::new().done()))
}

/// What a client submits to a login.
pub struct LoginFlowStepRequest {
    pub client_id: String,
    pub username: Option<String>,
    pub password: Option<String>,
}

/// The form again, because the user name or the password was wrong.
pub open spec fn invalid_auth_form(flow_id: Seq<char>) -> JsonView {
    login_form(
        flow_id,
        JsonView::Object(json::no_members().push(("base"@, JsonView::Str("invalid_auth"@)))),
    )
}

/// The end of a login: the code that it gives.
pub open spec fn login_result(flow_id: Seq<char>, code: Seq<char>) -> JsonView {
    JsonView::Object(
        json::no_members().push(("flow_id"@, JsonView::Str(flow_id))).push(
            ("type"@, JsonView::Str("create_entry"@)),
        ).push(("result"@, JsonView::Str(code))),
    )
}

/// Whether onboarding differs by the password alone, which a login with it makes a hash.
pub open spec fn login_upgraded(
    before: OnboardingModel,
    after: OnboardingModel,
    password: Seq<char>,
) -> bool {
    &&& before.user is Some
    &&& after.user is Some
    &&& auth_store::upgraded(before.user->0, after.user->0, password)
    &&& after == (OnboardingModel { user: after.user, ..before })
}

/// What submitting to a login returns and does.
pub open spec fn login_step_result(
    flows0: Map<Seq<char>, FlowModel>,
    flows1: Map<Seq<char>, FlowModel>,
    tokens0: TokenModel,
    tokens1: TokenModel,
    onboarding0: OnboardingModel,
    onboarding1: OnboardingModel,
    flow_id: Seq<char>,
    client_id: Seq<char>,
    username: Option<Seq<char>>,
    password: Option<Seq<char>>,
    r: ReplyView,
) -> bool {
    let unchanged = flows1 == flows0 && tokens1 == tokens0 && onboarding1 == onboarding0;
    if client_id.len() == 0 {
        unchanged && r == ReplyView::Json(400, message_json("Invalid client id"@))
    } else if !flows0.contains_key(flow_id) {
        unchanged && r == ReplyView::Json(404, message_json("Invalid flow specified"@))
    } else if flows0[flow_id].0 != client_id {
        unchanged && r == ReplyView::Json(400, message_json("Invalid client id"@))
    } else if !auth_store::credentials_match(onboarding0.user, username, password) {
        unchanged && r == ReplyView::Json(200, invalid_auth_form(flow_id))
    } else {
        &&& flows1 == flows0.remove(flow_id)
        &&& login_upgraded(onboarding0, onboarding1, password->0)
        &&& exists|code: Seq<char>|
            {
                &&& ids::is_hyphenated(code)
                &&& tokens1 == tokens0.with_code(code, client_id)
                &&& r == ReplyView::Json(200, #[trigger] login_result(flow_id, code))
            }
    }
}

/// The text of an optional string.
fn as_text(s: &Option<String>) -> (r: Option<&str>)
    ensures
        opt_text(r) == s.deep_view(),
{
    match s {
        Some(v) => Some(v.as_str()),
        None => None,
    }
}

/// Upgrades the password of the account after a login with it.
fn upgrade_account(onboarding: &mut OnboardingState, password: &str)
    requires
        old(onboarding)@.user is Some,
    ensures
        login_upgraded(old(onboarding)@, final(onboarding)@, password@),
{
    let mut user_slot = None;
    std::mem::swap(&mut user_slot, &mut onboarding.user);
    match user_slot {
        Some(user) => {
            let mut user = user;
            upgrade_password(&mut user, password);
            onboarding.user = Some(user);
        },
        None => {},
    }
}

/// Submits a user name and a password to a login. The right ones end it with a code.
pub fn login_flow_step(
    flows: &mut LoginFlowStore,
    tokens: &mut TokenStore,
    onboarding: &mut OnboardingState,
    flow_id: &str,
    body: &LoginFlowStepRequest,
) -> (r: Reply)
    ensures
        login_step_result(
            old(flows)@,
            final(flows)@,
            old(tokens)@,
            final(tokens)@,
            old(onboarding)@,
            final(onboarding)@,
            flow_id@,
            body.client_id@,
            body.username.deep_view(),
            body.password.deep_view(),
            r@,
        ),
{
    if body.client_id.as_str().is_empty() {
        return message_reply(400, "Invalid client id");
    }
    let flow: LoginFlow = match flows.get(flow_id) {
        Some(f) => f,
        None => {
            return message_reply(404, "Invalid flow specified");
        },
    };
    if !str_eq(flow.client_id.as_str(), body.client_id.as_str()) {
        return message_reply(400, "Invalid client id");
    }
    let valid: bool = check_credentials(
        &onboarding.user,
        as_text(&body.username),
        as_text(&body.password),
    );
    if !valid {
        let errors: Json = ObjectBuilder::new().text("base", "invalid_auth").done();
        return Reply::Json(200, login_form_json(flow_id, errors));
    }
    if let Some(password) = &body.password {
        upgrade_account(onboarding, password.as_str());
    }
    let auth_code: String = tokens.issue_auth_code(body.client_id.as_str());
    let ghost f0 = flows@;
    flows.mark_done(flow_id);
    let _ = flows.remove(flow_id);
    assert(flows@ =~= f0.remove(flow_id@));
    let r: Reply = Reply::Json(
        200,
        ObjectBuilder::new().text("flow_id", flow_id).text("type", "create_entry").text(
            "result",
            auth_code.as_str(),
        ).done(),
    );
    assert(r@ == ReplyView::Json(200, login_result(flow_id@, auth_code@)));
    r
}

/// What a client sends to the token endpoint.
pub struct TokenRequest {
    pub grant_type: Option<String>,
    pub code: Option<String>,
    pub refresh_token: Option<String>,
    pub client_id: Option<String>,
    pub action: Option<String>,
    pub token: Option<String>,
}

/// An error of the token endpoint.
pub open spec fn token_error(error: Seq<char>) -> JsonView {
    JsonView::Object(json::no_members().push(("error"@, JsonView::Str(error))))
}

/// A request that the token endpoint does not accept.
pub open spec fn invalid_request(description: Seq<char>) -> JsonView {
    JsonView::Object(
        json::no_members().push(("error"@, JsonView::Str("invalid_request"@))).push(
            ("error_description"@, JsonView::Str(description)),
        ),
    )
}

/// The tokens that a code gives.
pub open spec fn granted_tokens(access: Seq<char>, refresh: Seq<char>) -> JsonView {
    JsonView::Object(
        json::no_members().push(("access_token"@, JsonView::Str(access))).push(
            ("token_type"@, JsonView::Str("Bearer"@)),
        ).push(("refresh_token"@, JsonView::Str(refresh))).push(
            ("expires_in"@, JsonView::PosInt(1800)),
        ).push(("ha_auth_provider"@, JsonView::Str("homeassistant"@))),
    )
}

/// The token that a refresh token gives.
pub open spec fn granted_access(access: Seq<char>) -> JsonView {
    JsonView::Object(
        json::no_members().push(("access_token"@, JsonView::Str(access))).push(
            ("token_type"@, JsonView::Str("Bearer"@)),
        ).push(("expires_in"@, JsonView::PosInt(1800))),
    )
}

/// Whether an optional text is there and not empty.
pub open spec fn given(s: Option<Seq<char>>) -> bool {
    s is Some && s->0.len() > 0
}

/// What a request for tokens in exchange for a code returns and does.
pub open spec fn code_grant_result(
    before: TokenModel,
    after: TokenModel,
    client_id: Option<Seq<char>>,
    code: Option<Seq<char>>,
    r: ReplyView,
) -> bool {
    if !given(client_id) {
        after == before && r == ReplyView::Json(400, invalid_request("Invalid client id"@))
    } else if !given(code) {
        after == before && r == ReplyView::Json(400, invalid_request("Invalid code"@))
    } else if !before.code_is_for(code->0, client_id->0) {
        after == before.without_code(code->0) && r == ReplyView::Json(
            400,
            invalid_request("Invalid code"@),
        )
    } else {
        exists|access: Seq<char>, refresh: Seq<char>|
            {
                &&& ids::is_hyphenated(access)
                &&& ids::is_hyphenated(refresh)
                &&& after == before.without_code(code->0).with_refresh(
                    refresh,
                    client_id->0,
                ).with_access(access, client_id->0)
                &&& r == ReplyView::Json(200, #[trigger] granted_tokens(access, refresh))
            }
    }
}

/// What a request for a token in exchange for a refresh token returns and does.
pub open spec fn refresh_grant_result(
    before: TokenModel,
    after: TokenModel,
    client_id: Option<Seq<char>>,
    refresh_token: Option<Seq<char>>,
    r: ReplyView,
) -> bool {
    if !given(refresh_token) {
        after == before && r == ReplyView::Json(400, token_error("invalid_request"@))
    } else if !before.can_refresh(refresh_token->0, client_id) {
        after == before && r == ReplyView::Json(400, token_error("invalid_grant"@))
    } else {
        exists|access: Seq<char>|
            {
                &&& ids::is_hyphenated(access)
                &&& after == before.with_access(access, before.refresh_tokens[refresh_token->0])
                &&& r == ReplyView::Json(200, #[trigger] granted_access(access))
            }
    }
}

/// After a refresh token has been revoked, if one is named.
pub open spec fn revoked(before: TokenModel, token: Option<Seq<char>>) -> TokenModel {
    match token {
        Some(t) => before.without_refresh(t),
        None => before,
    }
}

/// What a request to the token endpoint returns and does.
pub open spec fn token_result(
    before: TokenModel,
    after: TokenModel,
    body: TokenRequest,
    r: ReplyView,
) -> bool {
    if body.action.deep_view() == Some("revoke"@) {
        after == revoked(before, body.token.deep_view()) && r == ReplyView::Json(200, empty_json())
    } else if body.grant_type.deep_view() == Some("authorization_code"@) {
        code_grant_result(before, after, body.client_id.deep_view(), body.code.deep_view(), r)
    } else if body.grant_type.deep_view() == Some("refresh_token"@) {
        refresh_grant_result(
            before,
            after,
            body.client_id.deep_view(),
            body.refresh_token.deep_view(),
            r,
        )
    } else {
        after == before && r == ReplyView::Json(400, token_error("unsupported_grant_type"@))
    }
}

/// An error of the token endpoint with a description.
fn invalid_request_reply(description: &str) -> (r: Reply)
    ensures
        r@ == ReplyView::Json(400, invalid_request(description@)),
{
    Reply::Json(
        400,
        ObjectBuilder::new().text("error", "invalid_request").text(
            "error_description",
            description,
        ).done(),
    )
}

/// An error of the token endpoint.
fn token_error_reply(error: &str) -> (r: Reply)
    ensures
        r@ == ReplyView::Json(400, token_error(error@)),
{
    Reply::Json(400, ObjectBuilder::new().text("error", error).done())
}

/// A text that is there and not empty.
fn given_text(s: &Option<String>) -> (r: Option<&str>)
    ensures
        match r {
            Some(t) => given(s.deep_view()) && t@ == s.deep_view()->0,
            None => !given(s.deep_view()),
        },
{
    match s {
        Some(v) => if v.as_str().is_empty() {
            None
        } else {
            Some(v.as_str())
        },
        None => None,
    }
}

/// Gives tokens in exchange for a code or a refresh token, or revokes one.
pub fn auth_token(tokens: &mut TokenStore, body: &TokenRequest) -> (r: Reply)
    ensures
        token_result(old(tokens)@, final(tokens)@, *body, r@),
{
    if opt_is(&body.action, "revoke") {
        if let Some(token) = &body.token {
            tokens.revoke_refresh_token(token.as_str());
        }
        return Reply::Json(200, ObjectBuilder::new().done());
    }
    if opt_is(&body.grant_type, "authorization_code") {
        let client_id: &str = match given_text(&body.client_id) {
            Some(c) => c,
            None => {
                return invalid_request_reply("Invalid client id");
            },
        };
        let code: &str = match given_text(&body.code) {
            Some(c) => c,
            None => {
                return invalid_request_reply("Invalid code");
            },
        };
        match tokens.exchange_code(client_id, code) {
            Some((access_token, refresh_token)) => {
                let r: Reply = Reply::Json(
                    200,
                    ObjectBuilder::new().text("access_token", access_token.as_str()).text(
                        "token_type",
                        "Bearer",
                    ).text("refresh_token", refresh_token.as_str()).field(
                        "expires_in",
                        Json::PosInt(1800),
                    ).text("ha_auth_provider", "homeassistant").done(),
                );
                assert(r@ == ReplyView::Json(200, granted_tokens(access_token@, refresh_token@)));
                r
            },
            None => invalid_request_reply("Invalid code"),
        }
    } else if opt_is(&body.grant_type, "refresh_token") {
        let refresh_token: &str = match given_text(&body.refresh_token) {
            Some(t) => t,
            None => {
                return token_error_reply("invalid_request");
            },
        };
        match tokens.refresh_access_token(as_text(&body.client_id), refresh_token) {
            Some(access_token) => {
                let r: Reply = Reply::Json(
                    200,
                    ObjectBuilder::new().text("access_token", access_token.as_str()).text(
                        "token_type",
                        "Bearer",
                    ).field("expires_in", Json::PosInt(1800)).done(),
                );
                assert(r@ == ReplyView::Json(200, granted_access(access_token@)));
                r
            },
            None => token_error_reply("invalid_grant"),
        }
    } else {
        token_error_reply("unsupported_grant_type")
    }
}

/// Revokes a refresh token, if one is named. The answer is always the same.
pub fn auth_revoke(tokens: &mut TokenStore, token: Option<&str>) -> (r: Reply)
    ensures
        final(tokens)@ == revoked(old(tokens)@, opt_text(token)),
        r@ == ReplyView::Json(200, empty_json()),
{
    if let Some(t) = token {
        tokens.revoke_refresh_token(t);
    }
    Reply::Json(200, ObjectBuilder::new().done())
}

/// What a client asks of the authorization page.
pub struct AuthorizeRequest {
    pub response_type: Option<String>,
    pub client_id: Option<String>,
    pub redirect_uri: Option<String>,
    pub state: Option<String>,
}

/// The mathematical value of an [`AuthorizeRequest`].
pub struct AuthorizeModel {
    pub response_type: Option<Seq<char>>,
    pub client_id: Option<Seq<char>>,
    pub redirect_uri: Option<Seq<char>>,
    pub state: Option<Seq<char>>,
}

impl View for AuthorizeRequest {
    type V = AuthorizeModel;

    open spec fn view(&self) -> AuthorizeModel {
        AuthorizeModel {
            response_type: self.response_type.deep_view(),
            client_id: self.client_id.deep_view(),
            redirect_uri: self.redirect_uri.deep_view(),
            state: self.state.deep_view(),
        }
    }
}

/// A request that names nothing.
pub open spec fn no_authorize() -> AuthorizeModel {
    AuthorizeModel { response_type: None, client_id: None, redirect_uri: None, state: None }
}

impl Default for AuthorizeRequest {
    fn default() -> (r: Self)
        ensures
            r@ == no_authorize(),
    {
        AuthorizeRequest { response_type: None, client_id: None, redirect_uri: None, state: None }
    }
}

/// The name and the raw value of a part of a query.
pub open spec fn query_pair(part: Seq<char>) -> (Seq<char>, Seq<char>) {
    match text::split_once(part, '=') {
        Some(pair) => pair,
        None => (part, ""@),
    }
}

/// What a percent-encoded text stands for.
pub open spec fn decoded(raw: Seq<char>) -> Seq<char> {
    web::utf8_lossy(web::percent_decoded(encode_utf8(raw)))
}

/// A request after one more part of the query.
pub open spec fn with_part(request: AuthorizeModel, part: Seq<char>) -> AuthorizeModel {
    let (name, raw) = query_pair(part);
    let value = Some(decoded(raw));
    if name == "response_type"@ {
        AuthorizeModel { response_type: value, ..request }
    } else if name == "client_id"@ {
        AuthorizeModel { client_id: value, ..request }
    } else if name == "redirect_uri"@ {
        AuthorizeModel { redirect_uri: value, ..request }
    } else if name == "state"@ {
        AuthorizeModel { state: value, ..request }
    } else {
        request
    }
}

/// The request that the parts of a query make.
pub open spec fn parsed_parts(parts: Seq<Seq<char>>) -> AuthorizeModel
    decreases parts.len(),
{
    if parts.len() == 0 {
        no_authorize()
    } else {
        with_part(parsed_parts(parts.drop_last()), parts.last())
    }
}

/// The request that a query makes.
pub open spec fn parsed_query(query: Option<Seq<char>>) -> AuthorizeModel {
    match query {
        Some(q) => parsed_parts(text::split(q, '&')),
        None => no_authorize(),
    }
}

/// Reads the query of a request to the authorization page.
pub fn parse_authorize_request(query: Option<&str>) -> (r: AuthorizeRequest)
    ensures
        r@ == parsed_query(opt_text(query)),
{
    let mut request: AuthorizeRequest = AuthorizeRequest::default();
    let q: &str = match query {
        Some(q) => q,
        None => {
            return request;
        },
    };
    let parts: Vec<String> = split_on(q, '&');
    let ghost all = parts.deep_view();
    let mut i: usize = 0;
    assert(all.take(0) =~= Seq::empty());
    while i < parts.len()
        invariant
            i <= parts.len(),
            all == parts.deep_view(),
            request@ == parsed_parts(all.take(i as int)),
        decreases parts.len() - i,
    {
        let part: &str = parts[i].as_str();
        assert(all[i as int] == part@);
        assert(all.take(i + 1).drop_last() =~= all.take(i as int));
        assert(all.take(i + 1).last() == part@);
        let (raw_key, raw_value): (String, String) = match split_once_on(part, '=') {
            Some(pair) => pair,
            None => (part.to_owned(), "".to_owned()),
        };
        let value: String = percent_decode(raw_value.as_str());
        if str_eq(raw_key.as_str(), "response_type") {
            request.response_type = Some(value);
        } else if str_eq(raw_key.as_str(), "client_id") {
            request.client_id = Some(value);
        } else if str_eq(raw_key.as_str(), "redirect_uri") {
            request.redirect_uri = Some(value);
        } else if str_eq(raw_key.as_str(), "state") {
            request.state = Some(value);
        }
        i += 1;
    }
    assert(all.take(i as int) =~= all);
    request
}

/// What is wrong with a request to the authorization page.
pub open spec fn authorize_error(request: AuthorizeModel) -> Option<Seq<char>> {
    if request.response_type != Some("code"@) {
        Some("Unsupported response_type."@)
    } else if !given(request.client_id) {
        Some("Invalid client_id."@)
    } else if !given(request.redirect_uri) {
        Some("Invalid redirect_uri."@)
    } else {
        None
    }
}

/// What is wrong with a request to the authorization page.
pub fn authorize_request_error(request: &AuthorizeRequest) -> (r: Option<&'static str>)
    ensures
        opt_text(r) == authorize_error(request@),
{
    if !opt_is(&request.response_type, "code") {
        return Some("Unsupported response_type.");
    }
    if given_text(&request.client_id).is_none() {
        return Some("Invalid client_id.");
    }
    if given_text(&request.redirect_uri).is_none() {
        return Some("Invalid redirect_uri.");
    }
    None
}

/// Where a client is sent with its code.
pub open spec fn redirect_location(
    redirect_uri: Seq<char>,
    code: Seq<char>,
    state: Option<Seq<char>>,
) -> Seq<char> {
    let separator = if redirect_uri.contains('?') {
        "&"@
    } else {
        "?"@
    };
    let base = redirect_uri + separator + "code="@ + code;
    match state {
        Some(s) => base + "&state="@ + web::percent_encoded(encode_utf8(s)),
        None => base,
    }
}

/// Where a client is sent with its code.
pub fn build_authorize_redirect(redirect_uri: &str, code: &str, state: Option<&str>) -> (r: String)
    ensures
        r@ == redirect_location(redirect_uri@, code@, opt_text(state)),
{
    let cs: Vec<char> = text::chars_of(redirect_uri);
    let p: usize = text::position_of(&cs, '?', 0);
    proof {
        text::lemma_find_char(cs@, '?', 0);
        assert(redirect_uri@.contains('?') == (p < cs.len())) by {
            if p < cs.len() {
                assert(redirect_uri@[p as int] == '?');
            }
        }
    }
    let mut location: String = redirect_uri.to_owned();
    if p < cs.len() {
        location.append("&");
    } else {
        location.append("?");
    }
    location.append("code=");
    location.append(code);
    if let Some(s) = state {
        location.append("&state=");
        location.append(percent_encode(s).as_str());
    }
    location
}

pub const PAGE_START: &'static str = "<!doctype html><html lang=\"en\"><head><meta charset=\"utf-8\"><meta name=\"viewport\" content=\"width=device-width,initial-scale=1\"><title>";

pub const PAGE_TITLE_END: &'static str = "</title><style>body{font-family:-apple-system,BlinkMacSystemFont,Segoe UI,sans-serif;margin:0;background:#f5f1e8;color:#1d2a2a}main{max-width:28rem;margin:4rem auto;padding:1.5rem}section{background:#fff;border-radius:16px;padding:2rem;box-shadow:0 10px 30px rgba(0,0,0,.08)}h1{font-size:1.8rem;margin:0 0 1rem}p{line-height:1.5}label{display:block;font-weight:600;margin:.9rem 0 .35rem}input{width:100%;box-sizing:border-box;border:1px solid #ccd5d7;border-radius:10px;padding:.85rem;font-size:1rem}button{margin-top:1.2rem;width:100%;background:#204030;color:#fff;border:0;border-radius:10px;padding:.95rem 1rem;font-weight:700;cursor:pointer}</style></head><body><main><section><h1>";

pub const PAGE_INTRO: &'static str = "</h1><p>";

pub const PAGE_ERROR: &'static str = "</p>";

pub const PAGE_FORM: &'static str = "<form method=\"post\" action=\"/auth/authorize\"><input type=\"hidden\" name=\"response_type\" value=\"";

pub const PAGE_CLIENT: &'static str = "\"><input type=\"hidden\" name=\"client_id\" value=\"";

pub const PAGE_REDIRECT: &'static str = "\"><input type=\"hidden\" name=\"redirect_uri\" value=\"";

pub const PAGE_STATE: &'static str = "\"><input type=\"hidden\" name=\"state\" value=\"";

pub const PAGE_FIELDS: &'static str = "\">";

pub const PAGE_CREDENTIALS: &'static str = "<label for=\"username\">Username</label><input id=\"username\" name=\"username\" autocomplete=\"username\" required><label for=\"password\">Password</label><input id=\"password\" name=\"password\" type=\"password\" autocomplete=\"current-password\" required><button type=\"submit\">";

pub const PAGE_END: &'static str = "</button></form></section></main></body></html>";

pub const ERROR_START: &'static str = "<p style=\"margin:0 0 1rem;color:#9b1c1c;background:#fde8e8;padding:.8rem 1rem;border-radius:10px;\">";

pub const ONBOARDING_FIELDS: &'static str = "<label for=\"name\">Name</label><input id=\"name\" name=\"name\" autocomplete=\"name\" placeholder=\"Home Edge Owner\"><label for=\"location_name\">Location name</label><input id=\"location_name\" name=\"location_name\" autocomplete=\"organization\" placeholder=\"Home\"><input type=\"hidden\" name=\"language\" value=\"en\">";

/// The text of a field, or another where there is none.
pub open spec fn or_text(s: Option<Seq<char>>, other: Seq<char>) -> Seq<char> {
    match s {
        Some(v) => v,
        None => other,
    }
}

/// The authorization page: a form to log in, or, before onboarding, to create the account.
pub open spec fn authorize_page(
    product_name: Seq<char>,
    request: AuthorizeModel,
    onboarded: bool,
    error: Option<Seq<char>>,
) -> Seq<char> {
    let error_html = match error {
        Some(message) => ERROR_START@ + message + "</p>"@,
        None => Seq::empty(),
    };
    let heading = if onboarded {
        "Sign in to "@ + product_name
    } else {
        "Set up "@ + product_name
    };
    let intro = if onboarded {
        "Authorize the Home Assistant app to connect to this Home Edge instance."@
    } else {
        "Create the first owner account for this Home Edge instance. After setup, the Home Assistant app will continue automatically."@
    };
    let fields = if onboarded {
        Seq::empty()
    } else {
        ONBOARDING_FIELDS@
    };
    let button = if onboarded {
        "Authorize"@
    } else {
        "Create account and authorize"@
    };
    PAGE_START@ + product_name + PAGE_TITLE_END@ + heading + PAGE_INTRO@ + intro + PAGE_ERROR@
        + error_html + PAGE_FORM@ + web::html_escaped(or_text(request.response_type, "code"@), true)
        + PAGE_CLIENT@ + web::html_escaped(or_text(request.client_id, ""@), true) + PAGE_REDIRECT@
        + web::html_escaped(or_text(request.redirect_uri, ""@), true) + PAGE_STATE@
        + web::html_escaped(or_text(request.state, ""@), true) + PAGE_FIELDS@ + fields
        + PAGE_CREDENTIALS@ + button + PAGE_END@
}

/// An escaped field, or another text where there is none.
fn escaped_or(s: &Option<String>, other: &str) -> (r: String)
    ensures
        r@ == web::html_escaped(or_text(s.deep_view(), other@), true),
{
    match s {
        Some(v) => html_escape(v.as_str()),
        None => html_escape(other),
    }
}

/// The authorization page.
pub fn render_authorize_page(
    product_name: &str,
    request: &AuthorizeRequest,
    onboarded: bool,
    error: Option<&str>,
) -> (r: String)
    ensures
        r@ == authorize_page(product_name@, request@, onboarded, opt_text(error)),
{
    let error_html: String = match error {
        Some(message) => {
            let mut e: String = concat(ERROR_START, message);
            e.append("</p>");
            e
        },
        None => String::new(),
    };
    let heading: String = if onboarded {
        concat("Sign in to ", product_name)
    } else {
        concat("Set up ", product_name)
    };
    let intro: &str = if onboarded {
        "Authorize the Home Assistant app to connect to this Home Edge instance."
    } else {
        "Create the first owner account for this Home Edge instance. After setup, the Home Assistant app will continue automatically."
    };
    let button: &str = if onboarded {
        "Authorize"
    } else {
        "Create account and authorize"
    };
    let mut page: String = PAGE_START.to_owned();
    page.append(product_name);
    page.append(PAGE_TITLE_END);
    page.append(heading.as_str());
    page.append(PAGE_INTRO);
    page.append(intro);
    page.append(PAGE_ERROR);
    page.append(error_html.as_str());
    page.append(PAGE_FORM);
    page.append(escaped_or(&request.response_type, "code").as_str());
    page.append(PAGE_CLIENT);
    page.append(escaped_or(&request.client_id, "").as_str());
    page.append(PAGE_REDIRECT);
    page.append(escaped_or(&request.redirect_uri, "").as_str());
    page.append(PAGE_STATE);
    page.append(escaped_or(&request.state, "").as_str());
    page.append(PAGE_FIELDS);
    let fields: String = if onboarded {
        String::new()
    } else {
        ONBOARDING_FIELDS.to_owned()
    };
    page.append(fields.as_str());
    page.append(PAGE_CREDENTIALS);
    page.append(button);
    page.append(PAGE_END);
    page
}

/// Shows the authorization page.
pub fn auth_authorize(product_name: &str, query: Option<&str>, onboarded: bool) -> (r: Reply)
    ensures
        ({
            let request = parsed_query(opt_text(query));
            r@ == ReplyView::Html(
                200,
                authorize_page(
                    product_name@,
                    request,
                    onboarded,
                    if authorize_error(request) is Some {
                        Some("Invalid authorization request."@)
                    } else {
                        None
                    },
                ),
            )
        }),
{
    let request: AuthorizeRequest = parse_authorize_request(query);
    if authorize_request_error(&request).is_some() {
        return Reply::Html(
            200,
            render_authorize_page(
                product_name,
                &request,
                onboarded,
                Some("Invalid authorization request."),
            ),
        );
    }
    Reply::Html(200, render_authorize_page(product_name, &request, onboarded, None))
}

/// What the authorization page submits.
pub struct AuthorizeForm {
    pub response_type: String,
    pub client_id: String,
    pub redirect_uri: String,
    pub state: Option<String>,
    pub name: Option<String>,
    pub username: String,
    pub password: String,
    pub location_name: Option<String>,
    pub language: Option<String>,
}

impl AuthorizeForm {
    /// The request that the form repeats.
    pub open spec fn request(&self) -> AuthorizeModel {
        AuthorizeModel {
            response_type: Some(self.response_type@),
            client_id: Some(self.client_id@),
            redirect_uri: Some(self.redirect_uri@),
            state: self.state.deep_view(),
        }
    }

    /// The owner that the form describes.
    pub open spec fn owner(&self, product_name: Seq<char>) -> OwnerModel {
        OwnerModel {
            display_name: trimmed_or(self.name.deep_view(), text::trimmed(self.username@)),
            username: text::trimmed(self.username@),
            password: text::trimmed(self.password@),
            location_name: trimmed_or(self.location_name.deep_view(), product_name),
            language: trimmed_or(self.language.deep_view(), "en"@),
        }
    }
}

/// A field without white space at either end, or another text where nothing is left of it.
pub open spec fn trimmed_or(s: Option<Seq<char>>, other: Seq<char>) -> Seq<char> {
    match s {
        Some(v) => if text::trimmed(v).len() > 0 {
            text::trimmed(v)
        } else {
            other
        },
        None => other,
    }
}

/// A field without white space at either end, or another text where nothing is left of it.
fn trim_or(s: &Option<String>, other: &str) -> (r: String)
    ensures
        r@ == trimmed_or(s.deep_view(), other@),
{
    match s {
        Some(v) => {
            let t: String = trim(v.as_str());
            if t.as_str().is_empty() {
                other.to_owned()
            } else {
                t
            }
        },
        None => other.to_owned(),
    }
}

/// Whether onboarding comes from what it was when the form is looked at: before onboarding the form
/// sets up the owner.
pub open spec fn after_form(
    before: OnboardingModel,
    after: OnboardingModel,
    owner: OwnerModel,
    now_ms: u128,
) -> bool {
    if before.onboarded {
        after == before
    } else {
        app_core::owner_set_up(before, after, owner, now_ms)
    }
}

/// The authorization page with an error.
pub open spec fn error_page(
    product_name: Seq<char>,
    request: AuthorizeModel,
    onboarded: bool,
    error: Seq<char>,
) -> ReplyView {
    ReplyView::Html(200, authorize_page(product_name, request, onboarded, Some(error)))
}

/// What a client is answered whose user name and password are right, when it has got a code.
pub open spec fn code_reply(
    product_name: Seq<char>,
    form: AuthorizeForm,
    onboarded: bool,
    code: Seq<char>,
) -> ReplyView {
    let location = redirect_location(form.redirect_uri@, code, form.state.deep_view());
    if web::header_text(location) {
        ReplyView::Redirect(302, location)
    } else {
        error_page(product_name, form.request(), onboarded, "Invalid redirect URI."@)
    }
}

/// What the form is answered and does once the owner is set up.
pub open spec fn login_with_form(
    mid: OnboardingModel,
    onboarding1: OnboardingModel,
    tokens0: TokenModel,
    tokens1: TokenModel,
    product_name: Seq<char>,
    form: AuthorizeForm,
    r: ReplyView,
) -> bool {
    if !auth_store::credentials_match(mid.user, Some(form.username@), Some(form.password@)) {
        &&& r == error_page(
            product_name,
            form.request(),
            mid.onboarded,
            "Invalid username or password."@,
        )
        &&& onboarding1 == mid
        &&& tokens1 == tokens0
    } else {
        &&& login_upgraded(mid, onboarding1, form.password@)
        &&& exists|code: Seq<char>|
            {
                &&& ids::is_hyphenated(code)
                &&& tokens1 == tokens0.with_code(code, form.client_id@)
                &&& r == #[trigger] code_reply(product_name, form, mid.onboarded, code)
            }
    }
}

/// What submitting the authorization page returns and does.
pub open spec fn submit_result(
    onboarding0: OnboardingModel,
    onboarding1: OnboardingModel,
    tokens0: TokenModel,
    tokens1: TokenModel,
    product_name: Seq<char>,
    form: AuthorizeForm,
    now_ms: u128,
    r: ReplyView,
) -> bool {
    let request = form.request();
    let owner = form.owner(product_name);
    if authorize_error(request) is Some {
        &&& r == error_page(product_name, request, false, authorize_error(request)->0)
        &&& onboarding1 == onboarding0
        &&& tokens1 == tokens0
    } else if !onboarding0.onboarded && (owner.username.len() == 0 || owner.password.len() == 0) {
        &&& r == error_page(product_name, request, false, "Username and password are required."@)
        &&& onboarding1 == onboarding0
        &&& tokens1 == tokens0
    } else {
        exists|mid: OnboardingModel|
            after_form(onboarding0, mid, owner, now_ms) && #[trigger] login_with_form(
                mid,
                onboarding1,
                tokens0,
                tokens1,
                product_name,
                form,
                r,
            )
    }
}

/// Takes what the authorization page submits. Before onboarding it sets up the owner; the right
/// user name and password then send the client on with a code.
pub fn auth_authorize_submit(
    onboarding: &mut OnboardingState,
    tokens: &mut TokenStore,
    product_name: &str,
    form: &AuthorizeForm,
    now_ms: u128,
) -> (r: Reply)
    ensures
        submit_result(
            old(onboarding)@,
            final(onboarding)@,
            old(tokens)@,
            final(tokens)@,
            product_name@,
            *form,
            now_ms,
            r@,
        ),
{
    let request: AuthorizeRequest = AuthorizeRequest {
        response_type: Some(form.response_type.clone()),
        client_id: Some(form.client_id.clone()),
        redirect_uri: Some(form.redirect_uri.clone()),
        state: form.state.clone(),
    };
    assert(request@ == form.request());
    if let Some(error) = authorize_request_error(&request) {
        return Reply::Html(200, render_authorize_page(product_name, &request, false, Some(error)));
    }
    if !onboarding.onboarded {
        let username: String = trim(form.username.as_str());
        let password: String = trim(form.password.as_str());
        if username.as_str().is_empty() || password.as_str().is_empty() {
            return Reply::Html(
                200,
                render_authorize_page(
                    product_name,
                    &request,
                    false,
                    Some("Username and password are required."),
                ),
            );
        }
        let display_name: String = trim_or(&form.name, username.as_str());
        let location_name: String = trim_or(&form.location_name, product_name);
        let language: String = trim_or(&form.language, "en");
        apply_owner(
            onboarding,
            &AuthorizeBootstrapInput { display_name, username, password, location_name, language },
            now_ms,
        );
    }
    let ghost mid = onboarding@;
    assert(after_form(old(onboarding)@, mid, form.owner(product_name@), now_ms));
    let valid: bool = check_credentials(
        &onboarding.user,
        Some(form.username.as_str()),
        Some(form.password.as_str()),
    );
    let onboarded: bool = onboarding.onboarded;
    if !valid {
        let r: Reply = Reply::Html(
            200,
            render_authorize_page(
                product_name,
                &request,
                onboarded,
                Some("Invalid username or password."),
            ),
        );
        assert(login_with_form(
            mid,
            onboarding@,
            old(tokens)@,
            tokens@,
            product_name@,
            *form,
            r@,
        ));
        return r;
    }
    upgrade_account(onboarding, form.password.as_str());
    let auth_code: String = tokens.issue_auth_code(form.client_id.as_str());
    let location: String = build_authorize_redirect(
        form.redirect_uri.as_str(),
        auth_code.as_str(),
        as_text(&form.state),
    );
    let r: Reply = if fits_header(location.as_str()) {
        Reply::Redirect(302, location)
    } else {
        Reply::Html(
            200,
            render_authorize_page(product_name, &request, onboarded, Some("Invalid redirect URI.")),
        )
    };
    assert(r@ == code_reply(product_name@, *form, mid.onboarded, auth_code@));
    assert(login_with_form(mid, onboarding@, old(tokens)@, tokens@, product_name@, *form, r@));
    r
}

/// Where a client is sent may be the value of a header, if its redirect URI may.
proof fn lemma_location(redirect_uri: Seq<char>, code: Seq<char>, state: Option<Seq<char>>)
    requires
        web::header_text(redirect_uri),
        ids::is_hyphenated(code),
    ensures
        web::header_text(redirect_location(redirect_uri, code, state)),
{
    reveal_strlit("&");
    reveal_strlit("?");
    reveal_strlit("code=");
    reveal_strlit("&state=");
    let separator = if redirect_uri.contains('?') {
        "&"@
    } else {
        "?"@
    };
    web::lemma_header_text(separator, "code="@);
    web::lemma_header_text(redirect_uri, separator);
    web::lemma_header_text("code="@, code);
    web::lemma_header_text(redirect_uri + separator, "code="@);
    assert(web::printable(code)) by {
        assert forall|i: int| 0 <= i < code.len() implies ' ' <= #[trigger] code[i] && code[i]
            <= '~' by {
            assert(code[i] == '-' || ids::is_lower_hex(code[i]));
        }
    }
    web::lemma_header_text(code, code);
    web::lemma_header_text(redirect_uri + separator + "code="@, code);
    if state is Some {
        let base = redirect_uri + separator + "code="@ + code;
        let value = web::percent_encoded(encode_utf8(state->0));
        web::lemma_encoded_printable(encode_utf8(state->0));
        web::lemma_header_text(value, value);
        web::lemma_header_text("&state="@, value);
        web::lemma_header_text(base, "&state="@);
        web::lemma_header_text(base + "&state="@, value);
    }
}

/// The first authorization sets up the owner and sends the client on: with a fresh code, whatever
/// the password is, unless that is too long to be hashed and looks like a hash. Onboarding is then
/// complete, and the owner can log in.
pub proof fn law_first_authorization(
    onboarding0: OnboardingModel,
    onboarding1: OnboardingModel,
    tokens0: TokenModel,
    tokens1: TokenModel,
    product_name: Seq<char>,
    form: AuthorizeForm,
    now_ms: u128,
    r: ReplyView,
)
    requires
        submit_result(
            onboarding0,
            onboarding1,
            tokens0,
            tokens1,
            product_name,
            form,
            now_ms,
            r,
        ),
        !onboarding0.onboarded,
        authorize_error(form.request()) is None,
        web::header_text(form.redirect_uri@),
        form.username@.len() > 0 && text::trimmed(form.username@) == form.username@,
        form.password@.len() > 0 && text::trimmed(form.password@) == form.password@,
        app_core::hashable(form.password@),
    ensures
        exists|code: Seq<char>|
            {
                &&& ids::is_hyphenated(code)
                &&& tokens1 == tokens0.with_code(code, form.client_id@)
                &&& r == ReplyView::Redirect(
                    302,
                    #[trigger] redirect_location(form.redirect_uri@, code, form.state.deep_view()),
                )
            },
        onboarding1.onboarded,
        onboarding1.done == app_core::completed_steps(),
        onboarding1.location_name == Some(form.owner(product_name).location_name),
        onboarding1.language == Some(form.owner(product_name).language),
        onboarding1.user is Some,
        onboarding1.user->0.name == form.owner(product_name).display_name,
        auth_store::credentials_match(
            onboarding1.user,
            Some(form.username@),
            Some(form.password@),
        ),
{
    let owner = form.owner(product_name);
    let mid = choose|mid: OnboardingModel|
        after_form(onboarding0, mid, owner, now_ms) && #[trigger] login_with_form(
            mid,
            onboarding1,
            tokens0,
            tokens1,
            product_name,
            form,
            r,
        );
    app_core::law_new_owner(onboarding0, mid, owner, now_ms);
    let code = choose|code: Seq<char>|
        {
            &&& ids::is_hyphenated(code)
            &&& tokens1 == tokens0.with_code(code, form.client_id@)
            &&& r == #[trigger] code_reply(product_name, form, mid.onboarded, code)
        };
    lemma_location(form.redirect_uri@, code, form.state.deep_view());
    assert(r == ReplyView::Redirect(
        302,
        redirect_location(form.redirect_uri@, code, form.state.deep_view()),
    ));
}

} // verus!
