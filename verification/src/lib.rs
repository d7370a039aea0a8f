//! Verified core of a home automation edge controller.

pub mod account_laws;
pub mod announce_laws;
pub mod app_core;
pub mod area_registry_store;
pub mod auth_store;
pub mod calendar;
pub mod clock;
pub mod config;
pub mod demo;
pub mod demo_laws;
pub mod entity_view;
pub mod epoch;
pub mod ha_api;
pub mod ha_auth;
pub mod ha_mobile;
pub mod ha_webhook;
pub mod ha_ws;
pub mod history_store;
pub mod http;
pub mod ids;
pub mod json;
pub mod keyed;
pub mod label_registry_store;
pub mod logbook_store;
pub mod logging;
pub mod long_lived_token_store;
pub mod mobile_device_store;
pub mod mobile_entity_store;
pub mod notification_store;
pub mod onboarding_laws;
pub mod order;
pub mod page_laws;
pub mod person_store;
pub mod service;
pub mod service_laws;
pub mod socket_laws;
pub mod state_store;
pub mod storage;
pub mod store_laws;
pub mod templates;
pub mod text;
pub mod text_laws;
pub mod value_laws;
pub mod web;
pub mod webhook_laws;
pub mod zeroconf;
pub mod zigbee_device_store;
pub mod zigbee_entity_store;
pub mod zigbee_integration;
pub mod zigbee_laws;
pub mod zone_store;
