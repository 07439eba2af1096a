//! Verified core of a small-business ERP: money, modules, records, sales,
//! stock, imports, invoices, licensing, payments and request routing.

pub mod ai_assistant;
pub mod ai_chat;
pub mod ai_context;
pub mod auth;
pub mod backup;
pub mod basket_analysis;
pub mod batches;
pub mod bookkeeping;
pub mod business_branding;
pub mod business_panel;
pub mod business_pulse;
pub mod codec;
pub mod compound;
pub mod conditions;
pub mod crash_report;
pub mod crud;
pub mod currency;
pub mod customers;
pub mod dates;
pub mod db;
pub mod db_migrations;
pub mod debt_settlement;
pub mod excel_import;
pub mod forecast;
pub mod http_api;
pub mod invoice;
pub mod license;
pub mod lists;
pub mod module;
pub mod money;
pub mod network_mode;
pub mod notifications;
pub mod ocr_import;
pub mod offline_keygen;
pub mod onboarding;
pub mod payment;
pub mod pos;
pub mod profit;
pub mod rate_limit;
pub mod rbac;
pub mod reals;
pub mod registry;
pub mod routes;
pub mod spreadsheet;
pub mod text;
pub mod value;
