//! What signing in and registering a device grants: laws over tokens, accounts and devices.

use vstd::prelude::*;
use vstd::string::*;
use vstd::utf8::*;

use crate::auth_store;
use crate::ha_auth::{
    authorize_error, authorize_page, granted_access, granted_tokens, login_result,
    login_step_result, parsed_parts, redirect_location, submit_result, token_result, AuthorizeForm,
    FlowModel, TokenModel, TokenRequest,
};
use crate::ha_mobile::{register_result, RegistrationRequest};
use crate::ids;
use crate::json;
use crate::json::JsonView;
use crate::long_lived_token_store::{summaries, TokenRecord};
use crate::mobile_device_store;
use crate::mobile_device_store::MobileDeviceRecord;
use crate::storage::OnboardingModel;
use crate::text;
use crate::value_laws::{lemma_more, lemma_piece_within};
use crate::web;
use crate::web::ReplyView;

verus! {

proof fn lemma_token_names()
    ensures
        "access_token"@.len() == 12,
        "token_type"@.len() == 10,
        "refresh_token"@.len() == 13,
        "expires_in"@.len() == 10,
        "ha_auth_provider"@.len() == 16,
        "token_type"@ != "expires_in"@,
        "authorization_code"@ != "refresh_token"@,
        "flow_id"@.len() == 7,
        "type"@.len() == 4,
        "result"@.len() == 6,
        "step_id"@.len() == 7,
        "flow_id"@ != "step_id"@,
        "data_schema"@.len() == 11,
        "errors"@.len() == 6,
        "error"@.len() == 5,
{
    reveal_strlit("access_token");
    reveal_strlit("token_type");
    reveal_strlit("refresh_token");
    reveal_strlit("expires_in");
    reveal_strlit("ha_auth_provider");
    reveal_strlit("authorization_code");
    reveal_strlit("flow_id");
    reveal_strlit("type");
    reveal_strlit("result");
    reveal_strlit("step_id");
    reveal_strlit("data_schema");
    reveal_strlit("errors");
    reveal_strlit("error");
    assert("token_type"@[0] == 't' && "expires_in"@[0] == 'e');
    assert("flow_id"@[0] == 'f' && "step_id"@[0] == 's');
    assert("authorization_code"@.len() == 18);
}

/// Whether all but one key of a map of tokens stays.
pub open spec fn same_but(
    before: Map<Seq<char>, Seq<char>>,
    after: Map<Seq<char>, Seq<char>>,
    key: Seq<char>,
) -> bool {
    forall|k: Seq<char>|
        k != key ==> #[trigger] after.contains_key(k) == before.contains_key(k) && (
        before.contains_key(k) ==> after[k] == before[k])
}

/// A client that shows a code that was given to it gets an access token and a refresh token, and
/// both are its own. The code is used up. A code that was given to another client grants nothing,
/// and is used up too.
pub proof fn law_code_granted(
    before: TokenModel,
    after: TokenModel,
    body: TokenRequest,
    r: ReplyView,
    client: Seq<char>,
    code: Seq<char>,
)
    requires
        token_result(before, after, body, r),
        body.action.deep_view() is None,
        body.grant_type.deep_view() == Some("authorization_code"@),
        body.client_id.deep_view() == Some(client),
        body.code.deep_view() == Some(code),
        client.len() > 0,
        code.len() > 0,
    ensures
        !after.auth_codes.contains_key(code),
        same_but(before.auth_codes, after.auth_codes, code),
        if before.auth_codes.contains_key(code) && before.auth_codes[code] == client {
            r matches ReplyView::Json(200, told) && {
                &&& told.field("token_type"@) == Some(JsonView::Str("Bearer"@))
                &&& told.field("expires_in"@) == Some(JsonView::PosInt(1800))
                &&& told.field("access_token"@) matches Some(JsonView::Str(access)) && {
                    &&& after.access_tokens.contains_key(access)
                    &&& after.access_tokens[access] == client
                    &&& same_but(before.access_tokens, after.access_tokens, access)
                }
                &&& told.field("refresh_token"@) matches Some(JsonView::Str(refresh)) && {
                    &&& after.refresh_tokens.contains_key(refresh)
                    &&& after.refresh_tokens[refresh] == client
                    &&& same_but(before.refresh_tokens, after.refresh_tokens, refresh)
                }
            }
        } else {
            &&& r matches ReplyView::Json(400, told) && told.field("error"@) == Some(
                JsonView::Str("invalid_request"@),
            )
            &&& after.access_tokens == before.access_tokens
            &&& after.refresh_tokens == before.refresh_tokens
        },
{
    lemma_token_names();
    reveal_with_fuel(json::member_from, 6);
    if before.code_is_for(code, client) {
        let (access, refresh) = choose|access: Seq<char>, refresh: Seq<char>|
            {
                &&& ids::is_hyphenated(access)
                &&& ids::is_hyphenated(refresh)
                &&& after == before.without_code(code).with_refresh(refresh, client).with_access(
                    access,
                    client,
                )
                &&& r == ReplyView::Json(200, #[trigger] granted_tokens(access, refresh))
            };
        let told = granted_tokens(access, refresh);
        assert(told.field("access_token"@) == Some(JsonView::Str(access)));
        assert(told.field("refresh_token"@) == Some(JsonView::Str(refresh)));
    }
}

/// A refresh token gets an access token for the client that it was given to, as often as it is
/// shown, unless another client shows it. One that is not known is refused.
pub proof fn law_refresh_granted(
    before: TokenModel,
    after: TokenModel,
    body: TokenRequest,
    r: ReplyView,
    token: Seq<char>,
)
    requires
        token_result(before, after, body, r),
        body.action.deep_view() is None,
        body.grant_type.deep_view() == Some("refresh_token"@),
        body.refresh_token.deep_view() == Some(token),
        token.len() > 0,
    ensures
        after.refresh_tokens == before.refresh_tokens,
        after.auth_codes == before.auth_codes,
        if before.refresh_tokens.contains_key(token) && (body.client_id.deep_view() is None
            || body.client_id.deep_view() == Some(before.refresh_tokens[token])) {
            r matches ReplyView::Json(200, told) && {
                &&& told.field("token_type"@) == Some(JsonView::Str("Bearer"@))
                &&& told.field("expires_in"@) == Some(JsonView::PosInt(1800))
                &&& told.field("access_token"@) matches Some(JsonView::Str(access)) && {
                    &&& after.access_tokens.contains_key(access)
                    &&& after.access_tokens[access] == before.refresh_tokens[token]
                    &&& same_but(before.access_tokens, after.access_tokens, access)
                }
            }
        } else {
            &&& r matches ReplyView::Json(400, told) && told.field("error"@) == Some(
                JsonView::Str("invalid_grant"@),
            )
            &&& after.access_tokens == before.access_tokens
        },
{
    lemma_token_names();
    reveal_with_fuel(json::member_from, 4);
    if before.can_refresh(token, body.client_id.deep_view()) {
        let access = choose|access: Seq<char>|
            {
                &&& ids::is_hyphenated(access)
                &&& after == before.with_access(access, before.refresh_tokens[token])
                &&& r == ReplyView::Json(200, #[trigger] granted_access(access))
            };
        assert(granted_access(access).field("access_token"@) == Some(JsonView::Str(access)));
    }
}

/// A refresh token that is revoked is not known any more; the access tokens that it got stay. The
/// answer is the same for one that never was.
pub proof fn law_revoked(
    before: TokenModel,
    after: TokenModel,
    body: TokenRequest,
    r: ReplyView,
    token: Seq<char>,
)
    requires
        token_result(before, after, body, r),
        body.action.deep_view() == Some("revoke"@),
        body.token.deep_view() == Some(token),
    ensures
        !after.refresh_tokens.contains_key(token),
        same_but(before.refresh_tokens, after.refresh_tokens, token),
        after.access_tokens == before.access_tokens,
        after.auth_codes == before.auth_codes,
        r == ReplyView::Json(200, JsonView::Object(Seq::empty())),
{
}

/// A client that signs in with the right name and password gets a code of its own, and its flow is
/// over. The account keeps its names and its language, and nothing else changes. With a wrong name
/// or password it is asked again, and nothing changes at all.
pub proof fn law_signed_in(
    flows0: Map<Seq<char>, FlowModel>,
    flows1: Map<Seq<char>, FlowModel>,
    tokens0: TokenModel,
    tokens1: TokenModel,
    onboarding0: OnboardingModel,
    onboarding1: OnboardingModel,
    flow_id: Seq<char>,
    client_id: Seq<char>,
    username: Option<Seq<char>>,
    password: Option<Seq<char>>,
    r: ReplyView,
)
    requires
        login_step_result(
            flows0,
            flows1,
            tokens0,
            tokens1,
            onboarding0,
            onboarding1,
            flow_id,
            client_id,
            username,
            password,
            r,
        ),
        client_id.len() > 0,
    ensures
        !flows0.contains_key(flow_id) ==> r matches ReplyView::Json(404, _),
        flows0.contains_key(flow_id) && flows0[flow_id].0 != client_id ==> r matches
            ReplyView::Json(400, _),
        ({
            let right = flows0.contains_key(flow_id) && flows0[flow_id].0 == client_id
                && onboarding0.user is Some && username == Some(onboarding0.user->0.username)
                && password is Some && auth_store::password_matches(
                password->0,
                onboarding0.user->0.password,
            );
            if right {
                &&& !flows1.contains_key(flow_id)
                &&& forall|k: Seq<char>|
                    k != flow_id ==> #[trigger] flows1.contains_key(k) == flows0.contains_key(k)
                &&& r matches ReplyView::Json(200, told) && {
                    &&& told.field("type"@) == Some(JsonView::Str("create_entry"@))
                    &&& told.field("flow_id"@) == Some(JsonView::Str(flow_id))
                    &&& told.field("result"@) matches Some(JsonView::Str(code)) && {
                        &&& tokens1.auth_codes.contains_key(code)
                        &&& tokens1.auth_codes[code] == client_id
                        &&& same_but(tokens0.auth_codes, tokens1.auth_codes, code)
                    }
                }
                &&& tokens1.access_tokens == tokens0.access_tokens
                &&& tokens1.refresh_tokens == tokens0.refresh_tokens
                &&& onboarding1.user is Some
                &&& onboarding1.user->0.name == onboarding0.user->0.name
                &&& onboarding1.user->0.username == onboarding0.user->0.username
                &&& onboarding1.user->0.language == onboarding0.user->0.language
                &&& onboarding1.onboarded == onboarding0.onboarded
                &&& onboarding1.done == onboarding0.done
                &&& onboarding1.location_name == onboarding0.location_name
                &&& onboarding1.country == onboarding0.country
                &&& onboarding1.time_zone == onboarding0.time_zone
                &&& onboarding1.unit_system == onboarding0.unit_system
            } else {
                &&& flows1 == flows0
                &&& tokens1 == tokens0
                &&& onboarding1 == onboarding0
                &&& flows0.contains_key(flow_id) && flows0[flow_id].0 == client_id ==> (r matches
                    ReplyView::Json(200, told) && told.field("type"@) == Some(
                    JsonView::Str("form"@),
                ) && told.field("flow_id"@) == Some(JsonView::Str(flow_id)) && (told.field(
                    "errors"@,
                ) matches Some(e) && e.field("base"@) == Some(JsonView::Str("invalid_auth"@))))
            }
        }),
{
    lemma_token_names();
    reveal_with_fuel(json::member_from, 6);
    let right = flows0.contains_key(flow_id) && flows0[flow_id].0 == client_id
        && auth_store::credentials_match(onboarding0.user, username, password);
    if right {
        let code = choose|code: Seq<char>|
            {
                &&& ids::is_hyphenated(code)
                &&& tokens1 == tokens0.with_code(code, client_id)
                &&& r == ReplyView::Json(200, #[trigger] login_result(flow_id, code))
            };
        assert(login_result(flow_id, code).field("result"@) == Some(JsonView::Str(code)));
    }
}

/// What a password that signs in leaves: one that is stored in the clear is hashed, so that the same
/// password signs in again, and one that is hashed is kept.
pub proof fn law_password_kept(
    before: crate::storage::StoredUserModel,
    after: crate::storage::StoredUserModel,
    password: Seq<char>,
)
    requires
        auth_store::upgraded(before, after, password),
        auth_store::password_matches(password, before.password),
    ensures
        after.name == before.name,
        after.username == before.username,
        after.language == before.language,
        auth_store::password_matches(password, after.password),
        auth_store::is_hashed(before.password) ==> after.password == before.password,
        !auth_store::is_hashed(before.password) && text::byte_count(password)
            <= auth_store::MAX_PASSWORD_BYTES ==> auth_store::is_hashed(after.password),
{
}

proof fn lemma_query_names()
    ensures
        "response_type"@.len() == 13,
        "client_id"@.len() == 9,
        "redirect_uri"@.len() == 12,
        "state"@.len() == 5,
{
    reveal_strlit("response_type");
    reveal_strlit("client_id");
    reveal_strlit("redirect_uri");
    reveal_strlit("state");
}

/// The name that a part of a query gives a value for: what stands before the first `=`.
pub open spec fn part_name(part: Seq<char>) -> Seq<char> {
    match text::split_once(part, '=') {
        Some((name, _)) => name,
        None => part,
    }
}

/// The last part of a query that names a member gives its value, decoded.
pub proof fn law_query_part(parts: Seq<Seq<char>>, i: int, name: Seq<char>, raw: Seq<char>)
    requires
        0 <= i < parts.len(),
        text::split_once(parts[i], '=') == Some((name, raw)),
        forall|j: int| i < j < parts.len() ==> part_name(#[trigger] parts[j]) != name,
    ensures
        ({
            let q = parsed_parts(parts);
            let value = Some(web::utf8_lossy(web::percent_decoded(encode_utf8(raw))));
            &&& name == "response_type"@ ==> q.response_type == value
            &&& name == "client_id"@ ==> q.client_id == value
            &&& name == "redirect_uri"@ ==> q.redirect_uri == value
            &&& name == "state"@ ==> q.state == value
        }),
    decreases parts.len(),
{
    lemma_query_names();
    let n = (parts.len() - 1) as int;
    if i < n {
        let front = parts.drop_last();
        assert(front[i] == parts[i]);
        assert forall|j: int| i < j < front.len() implies part_name(#[trigger] front[j]) != name by {
            assert(front[j] == parts[j]);
        }
        law_query_part(front, i, name, raw);
        assert(part_name(parts[n]) != name);
    }
}

/// A query without a part of a name gives the member no value.
pub proof fn law_query_absent(parts: Seq<Seq<char>>, name: Seq<char>)
    requires
        forall|j: int| 0 <= j < parts.len() ==> part_name(#[trigger] parts[j]) != name,
    ensures
        ({
            let q = parsed_parts(parts);
            &&& name == "response_type"@ ==> q.response_type is None
            &&& name == "client_id"@ ==> q.client_id is None
            &&& name == "redirect_uri"@ ==> q.redirect_uri is None
            &&& name == "state"@ ==> q.state is None
        }),
    decreases parts.len(),
{
    if parts.len() > 0 {
        let front = parts.drop_last();
        assert forall|j: int| 0 <= j < front.len() implies part_name(#[trigger] front[j]) != name by {
            assert(front[j] == parts[j]);
        }
        law_query_absent(front, name);
        assert(part_name(parts[parts.len() - 1]) != name);
    }
}

/// A client is sent back to the address that it gave, with the code after it and then what it gave
/// as its state, encoded.
pub proof fn law_redirected(uri: Seq<char>, code: Seq<char>, state: Option<Seq<char>>)
    ensures
        ({
            let l = redirect_location(uri, code, state);
            let at = uri.len() as int;
            &&& l.len() >= uri.len() + 6 + code.len()
            &&& l.take(at) == uri
            &&& l[at] == if uri.contains('?') {
                '&'
            } else {
                '?'
            }
            &&& l.subrange(at + 1, at + 6) == seq!['c', 'o', 'd', 'e', '=']
            &&& l.subrange(at + 6, at + 6 + code.len()) == code
            &&& state is None ==> l.len() == uri.len() + 6 + code.len()
            &&& state matches Some(s) ==> l.skip(at + 6 + code.len()) == "&state="@
                + web::percent_encoded(encode_utf8(s))
        }),
{
    reveal_strlit("&");
    reveal_strlit("?");
    reveal_strlit("code=");
    let l = redirect_location(uri, code, state);
    let at = uri.len() as int;
    assert(l.take(at) =~= uri);
    assert(l.subrange(at + 1, at + 6) =~= seq!['c', 'o', 'd', 'e', '=']);
    assert(l.subrange(at + 6, at + 6 + code.len()) =~= code);
    if let Some(s) = state {
        assert(l.skip(at + 6 + code.len()) =~= "&state="@ + web::percent_encoded(encode_utf8(s)));
    }
}

/// A request for authorization is in order if it asks for a code, names a client and gives an
/// address to go back to; what is wrong first is told.
pub proof fn law_authorize_checked(request: crate::ha_auth::AuthorizeModel)
    ensures
        authorize_error(request) is None <==> {
            &&& request.response_type == Some("code"@)
            &&& request.client_id is Some && request.client_id->0.len() > 0
            &&& request.redirect_uri is Some && request.redirect_uri->0.len() > 0
        },
        request.response_type != Some("code"@) ==> authorize_error(request) == Some(
            "Unsupported response_type."@,
        ),
{
}

/// The page on which a client authorizes shows what is wrong, if anything is, and repeats the
/// request in a form that cannot break out of it. It invites to sign in once there is an owner, and
/// to set up one before.
pub proof fn law_authorize_page(
    product_name: Seq<char>,
    request: crate::ha_auth::AuthorizeModel,
    onboarded: bool,
    error: Option<Seq<char>>,
)
    ensures
        ({
            let page = authorize_page(product_name, request, onboarded, error);
            &&& error is Some ==> text::has_text(page, error->0)
            &&& text::has_text(
                page,
                if onboarded {
                    "Sign in to "@ + product_name
                } else {
                    "Set up "@ + product_name
                },
            )
            &&& request.client_id is Some ==> text::has_text(
                page,
                web::html_escaped(request.client_id->0, true),
            )
            &&& request.redirect_uri is Some ==> text::has_text(
                page,
                web::html_escaped(request.redirect_uri->0, true),
            )
            &&& request.state is Some ==> text::has_text(
                page,
                web::html_escaped(request.state->0, true),
            )
        }),
{
    lemma_page(product_name, request, onboarded, error);
    if let Some(message) = error {
        let html = crate::ha_auth::ERROR_START@ + message + "</p>"@;
        lemma_more(crate::ha_auth::ERROR_START@, message);
        lemma_more(crate::ha_auth::ERROR_START@ + message, "</p>"@);
        lemma_piece_within(
            authorize_page(product_name, request, onboarded, error),
            html,
            message,
        );
    }
}

proof fn lemma_page(
    product_name: Seq<char>,
    request: crate::ha_auth::AuthorizeModel,
    onboarded: bool,
    error: Option<Seq<char>>,
)
    ensures
        ({
            let page = authorize_page(product_name, request, onboarded, error);
            let html = match error {
                Some(message) => crate::ha_auth::ERROR_START@ + message + "</p>"@,
                None => Seq::empty(),
            };
            &&& text::has_text(page, html)
            &&& text::has_text(
                page,
                if onboarded {
                    "Sign in to "@ + product_name
                } else {
                    "Set up "@ + product_name
                },
            )
            &&& request.client_id is Some ==> text::has_text(
                page,
                web::html_escaped(request.client_id->0, true),
            )
            &&& request.redirect_uri is Some ==> text::has_text(
                page,
                web::html_escaped(request.redirect_uri->0, true),
            )
            &&& request.state is Some ==> text::has_text(
                page,
                web::html_escaped(request.state->0, true),
            )
        }),
{
    let html = match error {
        Some(message) => crate::ha_auth::ERROR_START@ + message + "</p>"@,
        None => Seq::empty(),
    };
    let heading = if onboarded {
        "Sign in to "@ + product_name
    } else {
        "Set up "@ + product_name
    };
    let intro = if onboarded {
        "Authorize the Home Assistant app to connect to this Home Edge instance."@
    } else {
        "Create the first owner account for this Home Edge instance. After setup, the Home Assistant app will continue automatically."@
    };
    let fields = if onboarded {
        Seq::empty()
    } else {
        crate::ha_auth::ONBOARDING_FIELDS@
    };
    let button = if onboarded {
        "Authorize"@
    } else {
        "Create account and authorize"@
    };
    let kind = web::html_escaped(crate::ha_auth::or_text(request.response_type, "code"@), true);
    let client = web::html_escaped(crate::ha_auth::or_text(request.client_id, ""@), true);
    let uri = web::html_escaped(crate::ha_auth::or_text(request.redirect_uri, ""@), true);
    let state = web::html_escaped(crate::ha_auth::or_text(request.state, ""@), true);
    let p0 = crate::ha_auth::PAGE_START@ + product_name + crate::ha_auth::PAGE_TITLE_END@;
    lemma_more(p0, heading);
    let p1 = p0 + heading;
    lemma_more(p1, crate::ha_auth::PAGE_INTRO@);
    let p2 = p1 + crate::ha_auth::PAGE_INTRO@;
    lemma_more(p2, intro);
    let p3 = p2 + intro;
    lemma_more(p3, crate::ha_auth::PAGE_ERROR@);
    let p4 = p3 + crate::ha_auth::PAGE_ERROR@;
    lemma_more(p4, html);
    let p5 = p4 + html;
    lemma_more(p5, crate::ha_auth::PAGE_FORM@);
    let p6 = p5 + crate::ha_auth::PAGE_FORM@;
    lemma_more(p6, kind);
    let p7 = p6 + kind;
    lemma_more(p7, crate::ha_auth::PAGE_CLIENT@);
    let p8 = p7 + crate::ha_auth::PAGE_CLIENT@;
    lemma_more(p8, client);
    let p9 = p8 + client;
    lemma_more(p9, crate::ha_auth::PAGE_REDIRECT@);
    let p10 = p9 + crate::ha_auth::PAGE_REDIRECT@;
    lemma_more(p10, uri);
    let p11 = p10 + uri;
    lemma_more(p11, crate::ha_auth::PAGE_STATE@);
    let p12 = p11 + crate::ha_auth::PAGE_STATE@;
    lemma_more(p12, state);
    let p13 = p12 + state;
    lemma_more(p13, crate::ha_auth::PAGE_FIELDS@);
    let p14 = p13 + crate::ha_auth::PAGE_FIELDS@;
    lemma_more(p14, fields);
    let p15 = p14 + fields;
    lemma_more(p15, crate::ha_auth::PAGE_CREDENTIALS@);
    let p16 = p15 + crate::ha_auth::PAGE_CREDENTIALS@;
    lemma_more(p16, button);
    let p17 = p16 + button;
    lemma_more(p17, crate::ha_auth::PAGE_END@);
    assert(authorize_page(product_name, request, onboarded, error) == p17
        + crate::ha_auth::PAGE_END@);
}

/// A client that authorizes once there is an owner gets a code of its own and is sent back with it,
/// if the name and the password are those of the owner. If not, nothing changes, and the page says
/// so.
pub proof fn law_authorized(
    onboarding0: OnboardingModel,
    onboarding1: OnboardingModel,
    tokens0: TokenModel,
    tokens1: TokenModel,
    product_name: Seq<char>,
    form: AuthorizeForm,
    now_ms: u128,
    r: ReplyView,
)
    requires
        submit_result(
            onboarding0,
            onboarding1,
            tokens0,
            tokens1,
            product_name,
            form,
            now_ms,
            r,
        ),
        onboarding0.onboarded,
        form.response_type@ == "code"@,
        form.client_id@.len() > 0,
        form.redirect_uri@.len() > 0,
    ensures
        ({
            let right = onboarding0.user is Some && form.username@ == onboarding0.user->0.username
                && auth_store::password_matches(form.password@, onboarding0.user->0.password);
            if right {
                &&& exists|code: Seq<char>|
                    {
                        &&& #[trigger] tokens1.auth_codes.contains_key(code)
                        &&& tokens1.auth_codes[code] == form.client_id@
                        &&& same_but(tokens0.auth_codes, tokens1.auth_codes, code)
                        &&& r matches ReplyView::Redirect(302, l) ==> l == redirect_location(
                            form.redirect_uri@,
                            code,
                            form.state.deep_view(),
                        )
                        &&& r is Redirect <==> web::header_text(
                            redirect_location(form.redirect_uri@, code, form.state.deep_view()),
                        )
                    }
                &&& tokens1.access_tokens == tokens0.access_tokens
                &&& onboarding1.user is Some
                &&& onboarding1.user->0.username == onboarding0.user->0.username
                &&& onboarding1.user->0.name == onboarding0.user->0.name
                &&& onboarding1.location_name == onboarding0.location_name
            } else {
                &&& onboarding1 == onboarding0
                &&& tokens1 == tokens0
                &&& r matches ReplyView::Html(200, page) && text::has_text(
                    page,
                    "Invalid username or password."@,
                )
            }
        }),
{
    let mid = choose|mid: OnboardingModel|
        crate::ha_auth::after_form(onboarding0, mid, form.owner(product_name), now_ms)
            && #[trigger] crate::ha_auth::login_with_form(
            mid,
            onboarding1,
            tokens0,
            tokens1,
            product_name,
            form,
            r,
        );
    assert(mid == onboarding0);
    if auth_store::credentials_match(mid.user, Some(form.username@), Some(form.password@)) {
        let code = choose|code: Seq<char>|
            {
                &&& ids::is_hyphenated(code)
                &&& tokens1 == tokens0.with_code(code, form.client_id@)
                &&& r == #[trigger] crate::ha_auth::code_reply(
                    product_name,
                    form,
                    mid.onboarded,
                    code,
                )
            };
        assert(tokens1.auth_codes.contains_key(code));
    } else {
        law_authorize_page(
            product_name,
            form.request(),
            mid.onboarded,
            Some("Invalid username or password."@),
        );
    }
}

/// What a form sets up an owner with: what it gives, without the space around it; where it gives
/// nothing, the name is the user name, the home has the name of the product, and the language is
/// English.
pub proof fn law_owner_of_form(form: AuthorizeForm, product_name: Seq<char>)
    ensures
        ({
            let o = form.owner(product_name);
            &&& o.username == text::trimmed(form.username@)
            &&& o.password == text::trimmed(form.password@)
            &&& form.name is Some && text::trimmed(form.name->0@).len() > 0 ==> o.display_name
                == text::trimmed(form.name->0@)
            &&& form.name is None ==> o.display_name == text::trimmed(form.username@)
            &&& form.location_name is Some && text::trimmed(form.location_name->0@).len() > 0
                ==> o.location_name == text::trimmed(form.location_name->0@)
            &&& form.location_name is None ==> o.location_name == product_name
            &&& form.language is Some && text::trimmed(form.language->0@).len() > 0 ==> o.language
                == text::trimmed(form.language->0@)
            &&& form.language is None ==> o.language == "en"@
        }),
{
}

/// Whether a record is that of a device that has asked to be registered.
pub open spec fn is_record_of(
    d: MobileDeviceRecord,
    req: RegistrationRequest,
    owner: Option<String>,
) -> bool {
    &&& d.app_id@ == req.app_id@
    &&& d.app_name@ == req.app_name@
    &&& d.app_version@ == req.app_version@
    &&& d.device_name@ == req.device_name@
    &&& d.manufacturer@ == req.manufacturer@
    &&& d.model@ == req.model@
    &&& d.os_name@ == req.os_name@
    &&& d.os_version.deep_view() == req.os_version.deep_view()
    &&& d.device_id.deep_view() == req.device_id.deep_view()
    &&& d.supports_encryption == req.supports_encryption
    &&& d.owner_username.deep_view() == owner.deep_view()
}

/// A device that registers is stored with what it says of itself, and told its webhook and its
/// secret. One that is known, by its id and its app, keeps its webhook and its secret, and its
/// record is renewed; any other is added. A field that is empty is refused.
pub proof fn law_device_registered(
    before: Seq<MobileDeviceRecord>,
    after: Seq<MobileDeviceRecord>,
    req: RegistrationRequest,
    owner: Option<String>,
    webhook_id: String,
    secret: String,
    r: ReplyView,
)
    requires
        register_result(before, after, Ok(req), owner, webhook_id, secret, r),
    ensures
        ({
            let complete = req.app_id@.len() > 0 && req.app_name@.len() > 0
                && req.app_version@.len() > 0 && req.device_name@.len() > 0
                && req.manufacturer@.len() > 0 && req.model@.len() > 0 && req.os_name@.len() > 0;
            &&& !complete ==> after == before && (r matches ReplyView::Json(400, _))
            &&& complete ==> exists|k: int|
                {
                    &&& 0 <= k < after.len()
                    &&& is_record_of(#[trigger] after[k], req, owner)
                    &&& r matches ReplyView::Json(201, told) && {
                        &&& told.field("webhook_id"@) == Some(JsonView::Str(after[k].webhook_id@))
                        &&& told.field("secret"@) == match after[k].secret {
                            Some(s) => Some(JsonView::Str(s@)),
                            None => Some(JsonView::Null),
                        }
                    }
                    &&& forall|j: int| 0 <= j < before.len() && j != k ==> #[trigger] after[j] == before[j]
                    &&& if k < before.len() {
                        &&& after.len() == before.len()
                        &&& before[k].app_id@ == req.app_id@
                        &&& before[k].device_id is Some
                        &&& before[k].device_id.deep_view() == req.device_id.deep_view()
                        &&& after[k].webhook_id@ == before[k].webhook_id@
                        &&& before[k].secret is Some ==> after[k].secret == before[k].secret
                    } else {
                        &&& after.len() == before.len() + 1
                        &&& after[k].webhook_id == webhook_id
                        &&& after[k].secret == if req.supports_encryption {
                            Some(secret)
                        } else {
                            None
                        }
                        &&& forall|j: int|
                            0 <= j < before.len() ==> !(#[trigger] before[j].app_id@ == req.app_id@
                                && before[j].device_id is Some && req.device_id is Some
                                && before[j].device_id->0@ == req.device_id->0@)
                    }
                }
        }),
{
    reveal_strlit("webhook_id");
    reveal_strlit("secret");
    assert("webhook_id"@.len() == 10 && "secret"@.len() == 6);
    reveal_with_fuel(json::member_from, 3);
    let reg = crate::ha_mobile::registration_of(req, owner);
    lemma_device_pos(before, reg, 0);
    match mobile_device_store::device_pos_from(before, reg, 0) {
        Some(i) => {
            if crate::ha_mobile::empty_field(req) is None {
                assert(is_record_of(after[i], req, owner));
            }
        },
        None => {
            if crate::ha_mobile::empty_field(req) is None {
                assert(is_record_of(after[before.len() as int], req, owner));
            }
        },
    }
}

proof fn lemma_device_pos(
    s: Seq<MobileDeviceRecord>,
    reg: mobile_device_store::MobileDeviceRegistration,
    i: int,
)
    requires
        0 <= i,
    ensures
        match mobile_device_store::device_pos_from(s, reg, i) {
            Some(k) => i <= k < s.len() && mobile_device_store::same_device(s[k], reg),
            None => forall|j: int|
                i <= j < s.len() ==> !mobile_device_store::same_device(#[trigger] s[j], reg),
        },
    decreases s.len() - i,
{
    if i < s.len() && !mobile_device_store::same_device(s[i], reg) {
        lemma_device_pos(s, reg, i + 1);
    }
}

/// What is shown of tokens is their id, their name and when they were made, in order.
pub proof fn law_token_summaries(s: Seq<TokenRecord>, i: int)
    requires
        0 <= i < s.len(),
    ensures
        summaries(s).len() == s.len(),
        summaries(s)[i].id@ == s[i].id@,
        summaries(s)[i].name@ == s[i].name@,
        summaries(s)[i].created_at@ == s[i].created_at@,
{
}

/// What a request for tokens that cannot be granted is told, and that it changes nothing.
pub proof fn law_token_refused(
    before: TokenModel,
    after: TokenModel,
    body: TokenRequest,
    r: ReplyView,
)
    requires
        token_result(before, after, body, r),
        body.action.deep_view() is None,
    ensures
        body.grant_type.deep_view() != Some("authorization_code"@) && body.grant_type.deep_view()
            != Some("refresh_token"@) ==> after == before && (r matches ReplyView::Json(400, told)
            && told.field("error"@) == Some(JsonView::Str("unsupported_grant_type"@))),
        body.grant_type.deep_view() == Some("authorization_code"@) && (body.client_id.deep_view()
            is None || body.client_id.deep_view()->0.len() == 0 || body.code.deep_view() is None
            || body.code.deep_view()->0.len() == 0) ==> after == before && (r matches
            ReplyView::Json(400, told) && told.field("error"@) == Some(
            JsonView::Str("invalid_request"@),
        )),
        body.grant_type.deep_view() == Some("refresh_token"@) && (body.refresh_token.deep_view()
            is None || body.refresh_token.deep_view()->0.len() == 0) ==> after == before && (
        r matches ReplyView::Json(400, told) && told.field("error"@) == Some(
            JsonView::Str("invalid_request"@),
        )),
{
    lemma_token_names();
    reveal_with_fuel(json::member_from, 3);
}

/// The form for signing in asks for a user name and a password.
pub proof fn law_login_form(flow_id: Seq<char>, errors: JsonView)
    ensures
        ({
            let form = crate::ha_auth::login_form(flow_id, errors);
            &&& form.field("flow_id"@) == Some(JsonView::Str(flow_id))
            &&& form.field("type"@) == Some(JsonView::Str("form"@))
            &&& form.field("step_id"@) == Some(JsonView::Str("init"@))
            &&& form.field("errors"@) == Some(errors)
            &&& form.field("data_schema"@) matches Some(JsonView::Array(asked)) && {
                &&& asked.len() == 2
                &&& asked[0].field("name"@) == Some(JsonView::Str("username"@))
                &&& asked[1].field("name"@) == Some(JsonView::Str("password"@))
            }
        }),
{
    lemma_token_names();
    reveal_with_fuel(json::member_from, 6);
}

/// A form for authorization that is not in order, or that sets up an owner without a name or a
/// password, changes nothing; the page says what is wrong.
pub proof fn law_authorize_refused(
    onboarding0: OnboardingModel,
    onboarding1: OnboardingModel,
    tokens0: TokenModel,
    tokens1: TokenModel,
    product_name: Seq<char>,
    form: AuthorizeForm,
    now_ms: u128,
    r: ReplyView,
)
    requires
        submit_result(
            onboarding0,
            onboarding1,
            tokens0,
            tokens1,
            product_name,
            form,
            now_ms,
            r,
        ),
    ensures
        ({
            let in_order = form.response_type@ == "code"@ && form.client_id@.len() > 0
                && form.redirect_uri@.len() > 0;
            let lacking = !onboarding0.onboarded && (text::trimmed(form.username@).len() == 0
                || text::trimmed(form.password@).len() == 0);
            &&& !in_order || lacking ==> onboarding1 == onboarding0 && tokens1 == tokens0 && (
            r is Html)
            &&& in_order && lacking ==> (r matches ReplyView::Html(200, page) && text::has_text(
                page,
                "Username and password are required."@,
            ))
            &&& form.response_type@ != "code"@ ==> (r matches ReplyView::Html(200, page)
                && text::has_text(page, "Unsupported response_type."@))
        }),
{
    law_authorize_page(
        product_name,
        form.request(),
        false,
        Some("Username and password are required."@),
    );
    law_authorize_page(product_name, form.request(), false, Some("Unsupported response_type."@));
}

/// A message that is no registration is refused and changes nothing; a device that is registered has
/// neither a cloud hook nor a remote address.
pub proof fn law_registration_told(
    before: Seq<MobileDeviceRecord>,
    after: Seq<MobileDeviceRecord>,
    body: Result<RegistrationRequest, String>,
    owner: Option<String>,
    webhook_id: String,
    secret: String,
    r: ReplyView,
)
    requires
        register_result(before, after, body, owner, webhook_id, secret, r),
    ensures
        body is Err ==> after == before && (r matches ReplyView::Json(400, _)),
        r matches ReplyView::Json(201, told) ==> told.field("cloudhook_url"@) == Some(
            JsonView::Null,
        ) && told.field("remote_ui_url"@) == Some(JsonView::Null),
{
    reveal_strlit("webhook_id");
    reveal_strlit("secret");
    reveal_strlit("cloudhook_url");
    reveal_strlit("remote_ui_url");
    assert("webhook_id"@.len() == 10 && "secret"@.len() == 6 && "cloudhook_url"@.len() == 13
        && "remote_ui_url"@.len() == 13);
    assert("cloudhook_url"@[0] == 'c' && "remote_ui_url"@[0] == 'r');
    reveal_with_fuel(json::member_from, 5);
}

/// A password that is stored as a hash is told by how it begins; any other is compared as it is.
pub proof fn law_hash_told(stored: Seq<char>, candidate: Seq<char>)
    ensures
        auth_store::is_hashed(stored) <==> stored.len() >= 7 && stored.take(7) == seq![
            '$',
            'a',
            'r',
            'g',
            'o',
            'n',
            '2',
        ],
        !auth_store::is_hashed(stored) ==> (auth_store::password_matches(candidate, stored) <==>
            candidate == stored),
{
    reveal_strlit("$argon2");
    assert("$argon2"@ =~= seq!['$', 'a', 'r', 'g', 'o', 'n', '2']);
    if auth_store::is_hashed(stored) {
        assert(stored.take(7) =~= "$argon2"@);
    }
    if stored.len() >= 7 && stored.take(7) == "$argon2"@ {
        assert("$argon2"@.is_prefix_of(stored)) by {
            assert(stored.subrange(0, 7) =~= stored.take(7));
        }
    }
}

/// The field that is told to be empty is the first one that is.
pub proof fn law_empty_field(req: RegistrationRequest)
    ensures
        ({
            let f = crate::ha_mobile::empty_field(req);
            &&& req.app_id@.len() == 0 ==> f == Some("app_id"@)
            &&& req.app_id@.len() > 0 && req.app_name@.len() == 0 ==> f == Some("app_name"@)
            &&& req.app_id@.len() > 0 && req.app_name@.len() > 0 ==> {
                &&& req.app_version@.len() == 0 ==> f == Some("app_version"@)
                &&& req.app_version@.len() > 0 ==> {
                    &&& req.device_name@.len() == 0 ==> f == Some("device_name"@)
                    &&& req.device_name@.len() > 0 ==> {
                        &&& req.manufacturer@.len() == 0 ==> f == Some("manufacturer"@)
                        &&& req.manufacturer@.len() > 0 && req.model@.len() == 0 ==> f == Some(
                            "model"@,
                        )
                        &&& req.manufacturer@.len() > 0 && req.model@.len() > 0
                            && req.os_name@.len() == 0 ==> f == Some("os_name"@)
                    }
                }
            }
        }),
{
}

/// A device that is known and has no secret gets the one offered once it can encrypt.
pub proof fn law_secret_given(
    d: MobileDeviceRecord,
    reg: mobile_device_store::MobileDeviceRegistration,
    secret: String,
)
    ensures
        mobile_device_store::refreshed(d, reg, secret).secret == if d.secret is Some {
            d.secret
        } else if reg.supports_encryption {
            Some(secret)
        } else {
            None
        },
{
}

/// A client that is sent back is sent with 302.
pub proof fn law_sent_back(
    product_name: Seq<char>,
    form: AuthorizeForm,
    onboarded: bool,
    code: Seq<char>,
)
    ensures
        ({
            let r = crate::ha_auth::code_reply(product_name, form, onboarded, code);
            let l = redirect_location(form.redirect_uri@, code, form.state.deep_view());
            &&& web::header_text(l) ==> r == ReplyView::Redirect(302, l)
            &&& !web::header_text(l) ==> (r matches ReplyView::Html(200, page) && text::has_text(
                page,
                "Invalid redirect URI."@,
            ))
        }),
{
    law_authorize_page(product_name, form.request(), onboarded, Some("Invalid redirect URI."@));
}

/// What is wrong is told as a message.
pub proof fn law_message_told(message: Seq<char>)
    ensures
        crate::ha_auth::message_json(message).field("message"@) == Some(JsonView::Str(message)),
        crate::http::error_json(message).field("error"@) == Some(JsonView::Str(message)),
        crate::http::code_json(message).field("auth_code"@) == Some(JsonView::Str(message)),
{
    reveal_with_fuel(json::member_from, 2);
}

} // verus!
