//! Registration of phones and tablets.

use vstd::prelude::*;

use crate::ha_auth;
use crate::ha_auth::message_reply;
use crate::ids;
use crate::json;
use crate::json::{Json, JsonView, ObjectBuilder};
use crate::mobile_device_store;
use crate::mobile_device_store::{
    new_secret, new_webhook_id, MobileDeviceRecord, MobileDeviceRegistration, MobileDeviceStore,
};
use crate::text::concat;
use crate::web::{Reply, ReplyView};

verus! {

/// A request for registration.
pub struct RegistrationRequest {
    pub app_id: String,
    pub app_name: String,
    pub app_version: String,
    pub device_name: String,
    pub manufacturer: String,
    pub model: String,
    pub os_name: String,
    pub supports_encryption: bool,
    pub os_version: Option<String>,
    pub device_id: Option<String>,
}

/// The first of the required fields that is empty.
pub open spec fn empty_field(req: RegistrationRequest) -> Option<Seq<char>> {
    if req.app_id@.len() == 0 {
        Some("app_id"@)
    } else if req.app_name@.len() == 0 {
        Some("app_name"@)
    } else if req.app_version@.len() == 0 {
        Some("app_version"@)
    } else if req.device_name@.len() == 0 {
        Some("device_name"@)
    } else if req.manufacturer@.len() == 0 {
        Some("manufacturer"@)
    } else if req.model@.len() == 0 {
        Some("model"@)
    } else if req.os_name@.len() == 0 {
        Some("os_name"@)
    } else {
        None
    }
}

/// The first of the required fields that is empty.
pub fn find_empty_field(req: &RegistrationRequest) -> (r: Option<&'static str>)
    ensures
        match r {
            Some(f) => empty_field(*req) == Some(f@),
            None => empty_field(*req) is None,
        },
{
    if req.app_id.as_str().is_empty() {
        Some("app_id")
    } else if req.app_name.as_str().is_empty() {
        Some("app_name")
    } else if req.app_version.as_str().is_empty() {
        Some("app_version")
    } else if req.device_name.as_str().is_empty() {
        Some("device_name")
    } else if req.manufacturer.as_str().is_empty() {
        Some("manufacturer")
    } else if req.model.as_str().is_empty() {
        Some("model")
    } else if req.os_name.as_str().is_empty() {
        Some("os_name")
    } else {
        None
    }
}

/// The registration that a request asks for.
pub open spec fn registration_of(
    req: RegistrationRequest,
    owner_username: Option<String>,
) -> MobileDeviceRegistration {
    MobileDeviceRegistration {
        app_id: req.app_id,
        app_name: req.app_name,
        app_version: req.app_version,
        device_name: req.device_name,
        manufacturer: req.manufacturer,
        model: req.model,
        os_name: req.os_name,
        os_version: req.os_version,
        device_id: req.device_id,
        supports_encryption: req.supports_encryption,
        owner_username,
    }
}

/// The JSON form of a registration: where to post, and the secret, if there is one.
pub open spec fn registration_json(d: MobileDeviceRecord) -> JsonView {
    JsonView::Object(
        json::no_members().push(("webhook_id"@, JsonView::Str(d.webhook_id@))).push(
            ("secret"@, json::opt_str_json(d.secret.deep_view())),
        ).push(("cloudhook_url"@, JsonView::Null)).push(("remote_ui_url"@, JsonView::Null)),
    )
}

/// What a request for registration returns and does to the devices, with a webhook and a secret
/// for the case that they are needed.
pub open spec fn register_result(
    before: Seq<MobileDeviceRecord>,
    after: Seq<MobileDeviceRecord>,
    body: Result<RegistrationRequest, String>,
    owner_username: Option<String>,
    webhook_id: String,
    secret: String,
    r: ReplyView,
) -> bool {
    match body {
        Err(e) => r == ReplyView::Json(400, ha_auth::message_json("Invalid request: "@ + e@))
            && after == before,
        Ok(req) => match empty_field(req) {
            Some(f) => r == ReplyView::Json(
                400,
                ha_auth::message_json("Required field '"@ + f + "' must not be empty"@),
            ) && after == before,
            None => {
                let reg = registration_of(req, owner_username);
                &&& r == ReplyView::Json(
                    201,
                    registration_json(
                        mobile_device_store::registered_record(before, reg, webhook_id, secret),
                    ),
                )
                &&& after == mobile_device_store::registered_devices(
                    before,
                    reg,
                    webhook_id,
                    secret,
                )
            },
        },
    }
}

/// Registers a device, from a request or from what is wrong with it, with a webhook and a secret
/// for the case that they are needed.
pub fn mobile_app_register_with(
    devices: &mut MobileDeviceStore,
    body: Result<RegistrationRequest, String>,
    owner_username: Option<String>,
    webhook_id: String,
    secret: String,
) -> (r: Reply)
    ensures
        register_result(
            old(devices).devices@,
            final(devices).devices@,
            body,
            owner_username,
            webhook_id,
            secret,
            r@,
        ),
{
    let req: RegistrationRequest = match body {
        Ok(req) => req,
        Err(e) => {
            return message_reply(400, concat("Invalid request: ", e.as_str()).as_str());
        },
    };
    if let Some(field) = find_empty_field(&req) {
        let head: String = concat("Required field '", field);
        return message_reply(400, concat(head.as_str(), "' must not be empty").as_str());
    }
    let record: MobileDeviceRecord = devices.register_with(
        MobileDeviceRegistration {
            app_id: req.app_id,
            app_name: req.app_name,
            app_version: req.app_version,
            device_name: req.device_name,
            manufacturer: req.manufacturer,
            model: req.model,
            os_name: req.os_name,
            os_version: req.os_version,
            device_id: req.device_id,
            supports_encryption: req.supports_encryption,
            owner_username,
        },
        webhook_id,
        secret,
    );
    let json: Json = ObjectBuilder::new().text("webhook_id", record.webhook_id.as_str()).field(
        "secret",
        Json::opt_str(&record.secret),
    ).field("cloudhook_url", Json::Null).field("remote_ui_url", Json::Null).done();
    Reply::Json(201, json)
}

/// Registers a device, from a request or from what is wrong with it.
pub fn mobile_app_register(
    devices: &mut MobileDeviceStore,
    body: Result<RegistrationRequest, String>,
    owner_username: Option<String>,
) -> (r: Reply)
    ensures
        exists|webhook_id: String, secret: String|
            {
                &&& ids::is_hex_text(webhook_id@, 32)
                &&& ids::is_hex_text(secret@, 64)
                &&& #[trigger] register_result(
                    old(devices).devices@,
                    final(devices).devices@,
                    body,
                    owner_username,
                    webhook_id,
                    secret,
                    r@,
                )
            },
{
    let webhook_id: String = new_webhook_id();
    let secret: String = new_secret();
    mobile_app_register_with(devices, body, owner_username, webhook_id, secret)
}

} // verus!
