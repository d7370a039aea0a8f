//! Passwords, logins, tokens and registrations of devices.

use home_edge::auth_store::{
    check_credentials, hash_password, hash_password_with, user_with_legacy_fallback,
    verify_password,
};
use home_edge::ha_auth::{
    auth_authorize, auth_authorize_submit, auth_providers, auth_revoke, auth_token,
    build_authorize_redirect, login_flow_init, login_flow_step, well_known_oauth_info,
    AuthorizeForm, LoginFlowStepRequest, LoginFlowStore, TokenRequest, TokenStore,
};
use home_edge::ha_mobile::{mobile_app_register, mobile_app_register_with, RegistrationRequest};
use home_edge::ids::{new_hex_id, without_hyphens};
use home_edge::json::{to_text, Json};
use home_edge::long_lived_token_store::{days_to_ymd, sha256_hex, to_hex, LongLivedTokenStore};
use home_edge::mobile_device_store::{MobileDeviceRegistration, MobileDeviceStore};
use home_edge::mobile_entity_store::{
    derive_entity_id, sanitize_object_id, store_key, EntityMetaUpdate, MobileEntityRegistration,
    MobileEntityStore, RegistrationError,
};
use home_edge::storage::{OnboardingState, StoredUser};
use home_edge::web::{html_escape, percent_decode, percent_encode, Reply};

const CLIENT: &str = "https://home-assistant.io/iOS";

fn completed_onboarding() -> OnboardingState {
    let mut o = OnboardingState::default();
    o.onboarded = true;
    o.done = vec!["user".into(), "core_config".into()];
    o.user = Some(StoredUser {
        name: "Admin".into(),
        username: "admin".into(),
        password: "secret".into(),
        language: "en".into(),
    });
    o.location_name = Some("Test Home".into());
    o
}

fn json_reply(r: Reply) -> (u16, Json) {
    match r {
        Reply::Json(status, j) => (status, j),
        _ => panic!("no JSON reply"),
    }
}

// Passwords

#[test]
fn hash_and_verify_round_trip() {
    let hashed = hash_password("correct-horse").expect("hash");
    assert!(hashed.starts_with("$argon2"), "must be PHC string");
    assert!(verify_password("correct-horse", &hashed), "correct password must verify");
    assert!(!verify_password("wrong-password", &hashed), "wrong password must not verify");
}

#[test]
fn verify_legacy_plaintext_falls_back_correctly() {
    assert!(verify_password("secret", "secret"), "plaintext match");
    assert!(!verify_password("other", "secret"), "plaintext mismatch");
}

#[test]
fn a_salt_decides_the_hash() {
    let a = hash_password_with("secret", "c29tZXNhbHR0ZXh0").expect("hash");
    let b = hash_password_with("secret", "c29tZXNhbHR0ZXh0").expect("hash");
    let c = hash_password_with("secret", "b3RoZXJzYWx0dGV4").expect("hash");
    assert_eq!(a, b);
    assert_ne!(a, c);
    assert_ne!(hash_password("secret").unwrap(), hash_password("secret").unwrap());
    assert!(!verify_password("secret", "$argon2 nonsense"));
    // A number of threads that no hash has is refused, whatever else the text says.
    let many = a.replace("p=1$", "p=536870912$");
    assert_ne!(many, a);
    assert!(!verify_password("secret", &many));
    let last = a.replace("p=1$", "p=999999999,p=1$");
    assert!(verify_password("secret", &last));
    assert!(hash_password_with("secret", "!").is_err());
}

#[test]
fn migrates_legacy_onboarding_user() {
    let legacy = Some(StoredUser {
        name: "Legacy".into(),
        username: "legacy-user".into(),
        password: "secret".into(),
        language: "en".into(),
    });
    let (user, to_store) = user_with_legacy_fallback(None, &legacy);
    assert_eq!(user.expect("user").username, "legacy-user");
    assert!(to_store);
    let (user, to_store) = user_with_legacy_fallback(completed_onboarding().user, &legacy);
    assert_eq!(user.expect("user").username, "admin");
    assert!(!to_store);
    assert!(user_with_legacy_fallback(None, &None).0.is_none());
}

#[test]
fn credentials_need_both_parts() {
    let user = completed_onboarding().user;
    assert!(check_credentials(&user, Some("admin"), Some("secret")));
    assert!(!check_credentials(&user, Some("admin"), Some("Secret")));
    assert!(!check_credentials(&user, Some("root"), Some("secret")));
    assert!(!check_credentials(&user, Some("admin"), None));
    assert!(!check_credentials(&None, Some("admin"), Some("secret")));
}

// Logins

#[test]
fn get_providers_returns_200_with_provider_list() {
    let (status, j) = json_reply(auth_providers(true));
    assert_eq!(status, 200);
    assert!(j.get("preselect_remember_me").is_some(), "must have preselect_remember_me");
    let providers = match j.get("providers") {
        Some(Json::Array(p)) => p,
        _ => panic!("must have providers array"),
    };
    assert!(!providers.is_empty(), "must expose at least one provider");
    for p in providers {
        assert!(p.get("name").is_some(), "provider missing name");
        assert!(p.get("type").is_some(), "provider missing type");
    }
}

#[test]
fn well_known_oauth_info_returns_authorization_metadata() {
    let (status, j) = json_reply(well_known_oauth_info());
    assert_eq!(status, 200);
    assert_eq!(j.get_str("authorization_endpoint"), Some("/auth/authorize"));
    assert_eq!(j.get_str("token_endpoint"), Some("/auth/token"));
    assert_eq!(j.get_str("revocation_endpoint"), Some("/auth/revoke"));
    assert_eq!(to_text(j.get("response_types_supported").unwrap()), "[\"code\"]");
}

#[test]
fn get_authorize_returns_html_login_page() {
    let query = "response_type=code&client_id=https%3A%2F%2Fhome-assistant.io%2FiOS&redirect_uri=homeassistant%3A%2F%2Fauth-callback&state=abc123";
    let body = match auth_authorize("Test Home", Some(query), true) {
        Reply::Html(200, body) => body,
        _ => panic!("no page"),
    };
    assert!(body.contains("<form method=\"post\" action=\"/auth/authorize\">"));
    assert!(body.contains("Sign in to Test Home"));
    assert!(body.contains("name=\"client_id\" value=\"https://home-assistant.io/iOS\""));
}

#[test]
fn get_authorize_returns_onboarding_page_when_not_onboarded() {
    let query = "response_type=code&client_id=https%3A%2F%2Fhome-assistant.io%2FiOS&redirect_uri=homeassistant%3A%2F%2Fauth-callback";
    let body = match auth_authorize("Test Home", Some(query), false) {
        Reply::Html(200, body) => body,
        _ => panic!("no page"),
    };
    assert!(body.contains("Set up Test Home"));
    assert!(body.contains("Create account and authorize"));
}

fn form(username: &str, password: &str) -> AuthorizeForm {
    AuthorizeForm {
        response_type: "code".into(),
        client_id: CLIENT.into(),
        redirect_uri: "homeassistant://auth-callback".into(),
        state: None,
        name: None,
        username: username.into(),
        password: password.into(),
        location_name: None,
        language: None,
    }
}

fn found(r: Reply) -> String {
    match r {
        Reply::Redirect(302, location) => location,
        _ => panic!("no redirection"),
    }
}

#[test]
fn post_authorize_redirects_with_code_and_state() {
    let mut onboarding = completed_onboarding();
    let mut tokens = TokenStore::new();
    let mut f = form("admin", "secret");
    f.state = Some("abc#123".into());
    let location = found(auth_authorize_submit(&mut onboarding, &mut tokens, "Test Home", &f, 1));
    assert!(location.starts_with("homeassistant://auth-callback?code="));
    assert!(location.contains("&state=abc%23123"));
}

#[test]
fn post_authorize_bootstraps_onboarding_when_not_onboarded() {
    let mut onboarding = OnboardingState::default();
    let mut tokens = TokenStore::new();
    let mut f = form("owner", "secret");
    f.name = Some("Owner".into());
    f.location_name = Some("My Home".into());
    let location = found(auth_authorize_submit(&mut onboarding, &mut tokens, "Test Home", &f, 1));
    assert!(location.starts_with("homeassistant://auth-callback?code="));
    assert!(onboarding.onboarded);
    assert_eq!(json_reply(auth_providers(onboarding.onboarded)).0, 200);
}

#[test]
fn a_password_that_looks_like_a_hash_is_a_password() {
    let mut onboarding = OnboardingState::default();
    let mut tokens = TokenStore::new();
    let f = form("owner", "$argon2 is my password");
    let location = found(auth_authorize_submit(&mut onboarding, &mut tokens, "Test Home", &f, 1));
    assert!(location.starts_with("homeassistant://auth-callback?code="));
    assert_eq!(onboarding.done, vec!["user", "core_config"]);
    let user = onboarding.user.as_ref().unwrap();
    assert_eq!((user.name.as_str(), user.language.as_str()), ("owner", "en"));
    assert_ne!(user.password, f.password);
    assert!(verify_password(&f.password, &user.password));
    // It logs in from now on.
    let again = auth_authorize_submit(&mut onboarding, &mut tokens, "Test Home", &f, 2);
    assert!(found(again).starts_with("homeassistant://auth-callback?code="));
}

#[test]
fn authorize_with_a_wrong_password_shows_the_form_again() {
    let mut onboarding = completed_onboarding();
    let mut tokens = TokenStore::new();
    let r = auth_authorize_submit(
        &mut onboarding,
        &mut tokens,
        "Test Home",
        &form("admin", "wrong"),
        1,
    );
    assert!(matches!(r, Reply::Html(_, _)));
}

#[test]
fn redirects_join_with_a_question_mark_or_an_ampersand() {
    assert_eq!(build_authorize_redirect("app://x", "c", None), "app://x?code=c");
    assert_eq!(
        build_authorize_redirect("app://x?a=1", "c", Some("s t")),
        "app://x?a=1&code=c&state=s%20t"
    );
}

#[test]
fn post_login_flow_init_returns_form_step() {
    let mut flows = LoginFlowStore::new();
    let (status, j) = json_reply(login_flow_init(&mut flows, true, CLIENT));
    assert_eq!(status, 200);
    assert_eq!(j.get_str("type"), Some("form"));
    assert!(j.get("flow_id").is_some(), "must return flow_id");
    assert_eq!(j.get_str("step_id"), Some("init"));
    assert!(j.get("data_schema").is_some(), "form step must have data_schema");
}

#[test]
fn post_login_flow_empty_client_id_returns_400() {
    let mut flows = LoginFlowStore::new();
    assert_eq!(json_reply(login_flow_init(&mut flows, true, "")).0, 400);
}

struct Server {
    flows: LoginFlowStore,
    tokens: TokenStore,
    onboarding: OnboardingState,
}

impl Server {
    fn new() -> Server {
        Server {
            flows: LoginFlowStore::new(),
            tokens: TokenStore::new(),
            onboarding: completed_onboarding(),
        }
    }

    fn init_flow(&mut self) -> String {
        let (_, j) = json_reply(login_flow_init(&mut self.flows, true, CLIENT));
        j.get_str("flow_id").unwrap().to_string()
    }

    fn step(&mut self, flow_id: &str, username: &str, password: &str) -> (u16, Json) {
        json_reply(login_flow_step(
            &mut self.flows,
            &mut self.tokens,
            &mut self.onboarding,
            flow_id,
            &LoginFlowStepRequest {
                client_id: CLIENT.into(),
                username: Some(username.into()),
                password: Some(password.into()),
            },
        ))
    }

    fn auth_code(&mut self) -> String {
        let flow_id = self.init_flow();
        let (_, j) = self.step(&flow_id, "admin", "secret");
        j.get_str("result").unwrap().to_string()
    }

    fn token(&mut self, pairs: &[(&str, &str)]) -> (u16, Json) {
        let get = |name: &str| {
            pairs.iter().find(|p| p.0 == name).map(|p| p.1.to_string())
        };
        let body = TokenRequest {
            grant_type: get("grant_type"),
            code: get("code"),
            refresh_token: get("refresh_token"),
            client_id: get("client_id"),
            action: get("action"),
            token: get("token"),
        };
        json_reply(auth_token(&mut self.tokens, &body))
    }
}

#[test]
fn post_login_flow_step_valid_creds_returns_create_entry() {
    let mut server = Server::new();
    let flow_id = server.init_flow();
    let (status, j) = server.step(&flow_id, "admin", "secret");
    assert_eq!(status, 200);
    assert_eq!(j.get_str("type"), Some("create_entry"), "must be create_entry on success");
    assert!(j.get("result").is_some(), "create_entry must contain result (auth code)");
    // The password is kept as a hash from now on, and still fits.
    let stored = server.onboarding.user.as_ref().unwrap().password.clone();
    assert!(stored.starts_with("$argon2"));
    assert!(verify_password("secret", &stored));
}

#[test]
fn post_login_flow_step_bad_creds_returns_invalid_auth() {
    let mut server = Server::new();
    let flow_id = server.init_flow();
    let (status, j) = server.step(&flow_id, "", "");
    assert_eq!(status, 200);
    assert_eq!(j.get_str("type"), Some("form"));
    assert_eq!(j.get("errors").unwrap().get_str("base"), Some("invalid_auth"));
}

#[test]
fn post_login_flow_step_unknown_flow_returns_404() {
    let mut server = Server::new();
    assert_eq!(server.step("nonexistent-flow-id", "admin", "secret").0, 404);
}

#[test]
fn post_token_auth_code_grant_returns_tokens() {
    let mut server = Server::new();
    let code = server.auth_code();
    let (status, j) = server.token(&[
        ("grant_type", "authorization_code"),
        ("code", &code),
        ("client_id", CLIENT),
    ]);
    assert_eq!(status, 200);
    assert_eq!(j.get_str("token_type"), Some("Bearer"));
    assert!(j.get("access_token").is_some());
    assert!(j.get("refresh_token").is_some());
    assert!(j.get("expires_in").is_some());
    assert_eq!(j.get_str("ha_auth_provider"), Some("homeassistant"));
    let access = j.get_str("access_token").unwrap();
    assert_eq!(server.tokens.validate_access_token(access).as_deref(), Some(CLIENT));
    // A code can be used once.
    let (status, _) = server.token(&[
        ("grant_type", "authorization_code"),
        ("code", &code),
        ("client_id", CLIENT),
    ]);
    assert_eq!(status, 400);
}

#[test]
fn post_token_invalid_code_returns_400() {
    let mut server = Server::new();
    let (status, j) = server.token(&[
        ("grant_type", "authorization_code"),
        ("code", "not-a-real-code"),
        ("client_id", CLIENT),
    ]);
    assert_eq!(status, 400);
    assert_eq!(j.get_str("error"), Some("invalid_request"));
}

#[test]
fn post_token_refresh_grant_returns_new_access_token() {
    let mut server = Server::new();
    let code = server.auth_code();
    let (_, first) = server.token(&[
        ("grant_type", "authorization_code"),
        ("code", &code),
        ("client_id", CLIENT),
    ]);
    let refresh = first.get_str("refresh_token").unwrap().to_string();
    let (status, j) = server.token(&[
        ("grant_type", "refresh_token"),
        ("refresh_token", &refresh),
        ("client_id", CLIENT),
    ]);
    assert_eq!(status, 200);
    assert_eq!(j.get_str("token_type"), Some("Bearer"));
    assert!(j.get("access_token").is_some());
    assert!(j.get("expires_in").is_some());
    // refresh grant does NOT return a new refresh_token
    assert!(j.get("refresh_token").is_none());
}

#[test]
fn post_token_refresh_missing_token_returns_400() {
    let mut server = Server::new();
    let (status, j) = server.token(&[("grant_type", "refresh_token"), ("client_id", "test")]);
    assert_eq!(status, 400);
    assert_eq!(j.get_str("error"), Some("invalid_request"));
}

#[test]
fn post_token_refresh_bad_token_returns_invalid_grant() {
    let mut server = Server::new();
    let (status, j) = server.token(&[
        ("grant_type", "refresh_token"),
        ("refresh_token", "not-a-real-refresh-token"),
    ]);
    assert_eq!(status, 400);
    assert_eq!(j.get_str("error"), Some("invalid_grant"));
}

#[test]
fn post_token_unsupported_grant_returns_400() {
    let mut server = Server::new();
    let (status, j) = server.token(&[("grant_type", "client_credentials")]);
    assert_eq!(status, 400);
    assert_eq!(j.get_str("error"), Some("unsupported_grant_type"));
}

fn status_of(r: Reply) -> u16 {
    match r {
        Reply::Json(s, _) | Reply::Html(s, _) | Reply::Redirect(s, _) | Reply::Empty(s) => s,
    }
}

#[test]
fn post_revoke_returns_200_always() {
    let mut tokens = TokenStore::new();
    assert_eq!(status_of(auth_revoke(&mut tokens, Some("fake-token-that-does-not-exist"))), 200);
}

#[test]
fn post_revoke_invalidates_refresh_token() {
    let mut server = Server::new();
    let code = server.auth_code();
    let (_, tokens) = server.token(&[
        ("grant_type", "authorization_code"),
        ("code", &code),
        ("client_id", CLIENT),
    ]);
    let refresh = tokens.get_str("refresh_token").unwrap().to_string();
    assert_eq!(status_of(auth_revoke(&mut server.tokens, Some(&refresh))), 200);
    let (status, j) =
        server.token(&[("grant_type", "refresh_token"), ("refresh_token", &refresh)]);
    assert_eq!(status, 400);
    assert_eq!(j.get_str("error"), Some("invalid_grant"));
}

// Text formats of the web

#[test]
fn percent_encoding_goes_both_ways() {
    assert_eq!(percent_encode("a b/é"), "a%20b%2F%C3%A9");
    assert_eq!(percent_decode("a%20b%2F%C3%A9"), "a b/é");
    assert_eq!(percent_decode("%zz%4"), "%zz%4");
    assert_eq!(percent_decode("%FF"), "\u{fffd}");
    assert_eq!(html_escape("<a href=\"x\">&"), "&lt;a href=&quot;x&quot;&gt;&amp;");
}

// Tokens that do not expire

#[test]
fn digests_are_those_of_the_standard() {
    assert_eq!(
        sha256_hex(b"abc"),
        "ba7816bf8f01cfea414140de5dae2223b00361a396177a9cb410ff61f20015ad"
    );
    assert_eq!(to_hex(&vec![0, 15, 160, 255]), "000fa0ff");
}

#[test]
fn a_token_is_accepted_until_it_is_revoked() {
    let mut store = LongLivedTokenStore::new();
    let token = store.create("laptop".into());
    let other = store.create("phone".into());
    assert_eq!(token.len(), 64);
    assert!(store.verify_bearer(&token));
    assert!(!store.verify_bearer("nonsense"));
    let list = store.list();
    assert_eq!(list.len(), 2);
    assert_eq!(list[0].name, "laptop");
    assert_eq!(list[0].created_at.len(), 10);
    assert!(store.revoke(&list[0].id));
    assert!(!store.revoke(&list[0].id));
    assert!(!store.verify_bearer(&token));
    assert!(store.verify_bearer(&other));
    assert_eq!(days_to_ymd(19_782), "2024-02-29");
}

#[test]
fn identifiers_are_hexadecimal() {
    let id = new_hex_id();
    assert_eq!(id.len(), 32);
    assert!(id.chars().all(|c| c.is_ascii_hexdigit() && !c.is_ascii_uppercase()));
    assert_eq!(without_hyphens("a-b--c"), "abc");
}

// Devices

fn request() -> RegistrationRequest {
    RegistrationRequest {
        app_id: "io.homeassistant.ios".into(),
        app_name: "Home Assistant".into(),
        app_version: "2024.1".into(),
        device_name: "My iPhone".into(),
        manufacturer: "Apple".into(),
        model: "iPhone 15".into(),
        os_name: "iOS".into(),
        os_version: Some("17.0".into()),
        device_id: None,
        supports_encryption: false,
    }
}

fn register(devices: &mut MobileDeviceStore, req: RegistrationRequest) -> (u16, Json) {
    json_reply(mobile_app_register(devices, Ok(req), None))
}

#[test]
fn post_registration_valid_returns_201() {
    let mut devices = MobileDeviceStore::new();
    assert_eq!(register(&mut devices, request()).0, 201);
}

#[test]
fn post_registration_response_has_required_fields() {
    let mut devices = MobileDeviceStore::new();
    let (_, j) = register(&mut devices, request());
    for field in ["webhook_id", "cloudhook_url", "remote_ui_url", "secret"] {
        assert!(j.get(field).is_some(), "response must contain {field}");
    }
}

#[test]
fn post_registration_cloud_fields_are_null() {
    let mut devices = MobileDeviceStore::new();
    let (_, j) = register(&mut devices, request());
    assert_eq!(to_text(j.get("cloudhook_url").unwrap()), "null");
    assert_eq!(to_text(j.get("remote_ui_url").unwrap()), "null");
}

#[test]
fn post_registration_no_encryption_secret_is_null() {
    let mut devices = MobileDeviceStore::new();
    let (_, j) = register(&mut devices, request());
    assert_eq!(to_text(j.get("secret").unwrap()), "null");
}

#[test]
fn post_registration_with_encryption_secret_is_hex_string() {
    let mut devices = MobileDeviceStore::new();
    let mut req = request();
    req.supports_encryption = true;
    let (status, j) = register(&mut devices, req);
    assert_eq!(status, 201);
    let secret = j.get_str("secret").expect("secret must be a string");
    assert_eq!(secret.len(), 64, "secret must be 64 hex chars (32 bytes)");
    assert!(secret.chars().all(|c| c.is_ascii_hexdigit()), "secret must be hex-encoded");
}

#[test]
fn post_registration_webhook_ids_are_unique() {
    let mut devices = MobileDeviceStore::new();
    let (_, a) = register(&mut devices, request());
    let (_, b) = register(&mut devices, request());
    assert_ne!(a.get_str("webhook_id"), b.get_str("webhook_id"));
}

#[test]
fn post_registration_reuses_device_id_when_present() {
    let mut devices = MobileDeviceStore::new();
    let with_id = || {
        let mut req = request();
        req.device_id = Some("device-123".into());
        req.supports_encryption = true;
        req
    };
    let (_, first) = register(&mut devices, with_id());
    let (_, second) = register(&mut devices, with_id());
    assert_eq!(first.get_str("webhook_id"), second.get_str("webhook_id"));
    assert_eq!(first.get_str("secret"), second.get_str("secret"));
}

#[test]
fn post_registration_missing_required_field_returns_400() {
    let mut devices = MobileDeviceStore::new();
    let r = mobile_app_register(&mut devices, Err("missing field `app_id`".into()), None);
    let (status, j) = json_reply(r);
    assert_eq!(status, 400);
    assert_eq!(j.get_str("message"), Some("Invalid request: missing field `app_id`"));
    let mut req = request();
    req.model = "".into();
    let (status, j) = register(&mut devices, req);
    assert_eq!(status, 400);
    assert_eq!(j.get_str("message"), Some("Required field 'model' must not be empty"));
    assert!(devices.all().is_empty());
}

#[test]
fn a_registration_takes_the_webhook_and_the_secret_that_it_needs() {
    let mut devices = MobileDeviceStore::new();
    let mut req = request();
    req.supports_encryption = true;
    let r = mobile_app_register_with(
        &mut devices,
        Ok(req),
        Some("owner".into()),
        "hook".into(),
        "shh".into(),
    );
    let (_, j) = json_reply(r);
    assert_eq!(
        to_text(&j),
        "{\"cloudhook_url\":null,\"remote_ui_url\":null,\"secret\":\"shh\",\"webhook_id\":\"hook\"}"
    );
    assert_eq!(devices.all()[0].owner_username.as_deref(), Some("owner"));
}

fn registration(device_id: Option<&str>) -> MobileDeviceRegistration {
    MobileDeviceRegistration {
        app_id: "io.homeassistant.ios".into(),
        app_name: "Home Assistant".into(),
        app_version: "2024.1".into(),
        device_name: "My iPhone".into(),
        manufacturer: "Apple".into(),
        model: "iPhone 15".into(),
        os_name: "iOS".into(),
        os_version: Some("17.0".into()),
        device_id: device_id.map(str::to_string),
        supports_encryption: false,
        owner_username: Some("owner".into()),
    }
}

#[test]
fn persists_mobile_devices() {
    let mut store = MobileDeviceStore::new();
    let record = store.register(registration(Some("device-1")));
    let all = store.all();
    assert_eq!(all.len(), 1);
    assert_eq!(all[0].webhook_id, record.webhook_id);
    assert_eq!(all[0].device_name, record.device_name);
    assert_eq!(all[0].secret, None);
}

#[test]
fn reuses_device_registration_by_device_id() {
    let mut store = MobileDeviceStore::new();
    let first = store.register(registration(Some("device-1")));
    let second = store.register(registration(Some("device-1")));
    assert_eq!(first.webhook_id, second.webhook_id);
    assert_eq!(store.all().len(), 1);
}

#[test]
fn a_device_gets_a_secret_when_it_comes_to_support_encryption() {
    let mut store = MobileDeviceStore::new();
    store.register(registration(Some("device-1")));
    let mut again = registration(Some("device-1"));
    again.supports_encryption = true;
    let r = store.register_with(again, "unused".into(), "shh".into());
    assert_eq!(r.secret.as_deref(), Some("shh"));
    let r = store.register_with(registration(Some("device-1")), "unused".into(), "new".into());
    assert_eq!(r.secret.as_deref(), Some("shh"));
    assert!(!r.supports_encryption);
    assert!(store.rename(&r.webhook_id, "Phone".into()));
    assert!(!store.rename("nobody", "Phone".into()));
    assert_eq!(store.get_by_webhook_id(&r.webhook_id).unwrap().display_name(), "Phone");
}

// Entities of devices

fn entity(webhook_id: &str, entity_type: &str, unique_id: &str) -> MobileEntityRegistration {
    MobileEntityRegistration {
        webhook_id: webhook_id.into(),
        entity_type: entity_type.into(),
        sensor_unique_id: unique_id.into(),
        sensor_name: "Battery Level".into(),
        device_class: Some("battery".into()),
        unit_of_measurement: Some("%".into()),
        icon: Some("mdi:battery".into()),
        entity_category: Some("diagnostic".into()),
        state_class: Some("measurement".into()),
        disabled: false,
    }
}

fn enrol(
    store: &mut MobileEntityStore,
    reg: MobileEntityRegistration,
) -> home_edge::mobile_entity_store::MobileEntityRecord {
    match store.register(reg) {
        Ok(r) => r,
        Err(e) => panic!("{}", e.message()),
    }
}

#[test]
fn persists_mobile_entities() {
    let mut store = MobileEntityStore::new();
    let record = enrol(&mut store, entity("webhook-1", "sensor", "battery_level"));
    let all = store.all();
    assert_eq!(all.len(), 1);
    assert_eq!(all[0].entity_id, record.entity_id);
    assert_eq!(record.entity_id, "sensor.mobile_app_webhook_1_battery_level");
}

#[test]
fn reregister_updates_metadata_without_duplication() {
    let mut store = MobileEntityStore::new();
    let first = enrol(&mut store, entity("webhook-1", "sensor", "battery_level"));
    let mut updated = entity("webhook-1", "sensor", "battery_level");
    updated.sensor_name = "Phone Battery".into();
    updated.icon = Some("mdi:cellphone".into());
    updated.disabled = true;
    let second = enrol(&mut store, updated);
    assert_eq!(store.all().len(), 1);
    assert_eq!(first.entity_id, second.entity_id);
    assert_eq!(second.sensor_name, "Phone Battery");
    assert_eq!(second.icon.as_deref(), Some("mdi:cellphone"));
    assert!(second.disabled);
}

#[test]
fn same_unique_id_under_different_webhooks_does_not_collide() {
    let mut store = MobileEntityStore::new();
    let first = enrol(&mut store, entity("webhook-1", "sensor", "battery_level"));
    let second = enrol(&mut store, entity("webhook-2", "sensor", "battery_level"));
    assert_ne!(first.entity_id, second.entity_id);
    assert_eq!(store.all().len(), 2);
}

#[test]
fn stable_entity_id_for_same_registration_key() {
    let mut store = MobileEntityStore::new();
    let first = enrol(&mut store, entity("Webhook-ABC", "binary_sensor", "Motion-Sensor"));
    let mut updated = entity("Webhook-ABC", "binary_sensor", "Motion-Sensor");
    updated.sensor_name = "Front Door Motion".into();
    updated.device_class = Some("motion".into());
    let second = enrol(&mut store, updated);
    assert_eq!(first.entity_id, second.entity_id);
    assert_eq!(second.entity_id, "binary_sensor.mobile_app_webhook_abc_motion_sensor");
}

#[test]
fn list_by_webhook_id_filters_entities() {
    let mut store = MobileEntityStore::new();
    enrol(&mut store, entity("webhook-1", "sensor", "battery_level"));
    enrol(&mut store, entity("webhook-1", "binary_sensor", "motion"));
    enrol(&mut store, entity("webhook-2", "sensor", "battery_level"));
    let entities = store.list_by_webhook_id("webhook-1");
    assert_eq!(entities.len(), 2);
    assert!(entities.iter().all(|e| e.webhook_id == "webhook-1"));
    // The keys begin with the type.
    assert_eq!(entities[0].entity_type, "binary_sensor");
}

#[test]
fn registrations_are_checked() {
    let mut store = MobileEntityStore::new();
    assert!(matches!(
        store.register(entity("", "sensor", "a")),
        Err(RegistrationError::EmptyWebhookId)
    ));
    assert!(matches!(
        store.register(entity("w", "sensor", "")),
        Err(RegistrationError::EmptySensorUniqueId)
    ));
    let mut nameless = entity("w", "sensor", "a");
    nameless.sensor_name = "".into();
    assert!(matches!(store.register(nameless), Err(RegistrationError::EmptySensorName)));
    match store.register(entity("w", "light", "a")) {
        Err(e) => assert_eq!(e.message(), "unsupported mobile entity type: light"),
        Ok(_) => panic!("must be refused"),
    }
    assert!(store.all().is_empty());
    let both = vec![entity("w", "sensor", "a"), entity("w", "light", "b")];
    assert!(store.register_all(both).is_err());
    assert_eq!(store.all().len(), 1);
}

#[test]
fn object_ids_are_made_of_words() {
    assert_eq!(sanitize_object_id("--A b!!C--"), "a_b_c");
    assert_eq!(sanitize_object_id("é"), "entity");
    assert_eq!(sanitize_object_id(""), "entity");
    assert_eq!(store_key("w", "sensor", "u"), "sensor:w:u");
    assert_eq!(derive_entity_id("sensor:w:u"), "sensor.mobile_app_w_u");
}

#[test]
fn what_the_user_has_set_survives_a_registration() {
    let mut store = MobileEntityStore::new();
    let e = enrol(&mut store, entity("w", "sensor", "a"));
    let update = EntityMetaUpdate {
        name_by_user: Some("Mine".into()),
        user_area_id: Some(Some("attic".into())),
        unit_of_measurement: None,
        disabled: Some(true),
    };
    let changed = store.update_meta(&e.entity_id, update).expect("entity");
    assert_eq!(changed.display_name(), "Mine");
    let again = enrol(&mut store, entity("w", "sensor", "a"));
    assert_eq!(again.display_name(), "Mine");
    assert_eq!(again.user_area_id.as_deref(), Some("attic"));
    assert!(!again.disabled);
    assert!(store.get("w", "sensor", "a").is_some());
    assert!(store.get_by_entity_id("sensor.none").is_none());
    store.assign_all(&"cellar".to_string());
    assert_eq!(store.all()[0].user_area_id.as_deref(), Some("cellar"));
}
