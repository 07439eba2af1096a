//! The endpoints of the local API: which request is for which of them, which
//! need a session, and what a session must be allowed to do.

use crate::rbac::{
    Access, AccessErrorView, denied_prefix, error_status, refusal, require, require_admin_tier, require_owner,
};
use crate::text::{begins, same, views};
use vstd::prelude::*;

verus! {

/// The method of a request.
#[derive(Clone, Copy, PartialEq, Eq, Structural, Debug)]
pub enum Method {
    Get,
    Post,
    Put,
    Delete,
    Other,
}

/// What a request can be for.
#[derive(Clone, Copy, PartialEq, Eq, Structural, Debug)]
pub enum Endpoint {
    SetupStatus,
    SetupDiagnostics,
    SetupBusinessId,
    SetupBranding,
    SetupCreateBusiness,
    SetupRestore,
    Upload,
    Login,
    TwoFactorLogin,
    RecoveryQuestions,
    RecoverByQuestions,
    RecoverByAdminCode,
    Logout,
    Me,
    TwoFactorSetup,
    TwoFactorVerify,
    TwoFactorStatus,
    TwoFactorDisable,
    AdminBackup,
    AdminRestore,
    Business,
    BrandingGet,
    BrandingUpdate,
    BusinessSettings,
    UsersList,
    UserCreate,
    UserRole,
    UserDeactivate,
    RolesList,
    RoleCreate,
    RoleDelete,
    RoleAdminFlag,
    RolePermissions,
    RoleSetPermissions,
    UnitsList,
    UnitCreate,
    UnitDelete,
    CurrenciesList,
    CurrencyCreate,
    CurrencyDelete,
    SettingsGet,
    SettingsSet,
    Checkout,
    ServiceSale,
    Order,
    Receipt,
    Refund,
    ProfitSummary,
    Receive,
    Repack,
    StockTakeInitiate,
    StockTakeOpen,
    StockTakeHistory,
    StockTakeGet,
    StockTakeCount,
    StockTakeClose,
    SettleDebt,
    DebtSummary,
    AuditLog,
    OnboardingSetup,
    NotificationSend,
    LowStockAlert,
    NotificationsList,
    AiSettings,
    AiContext,
    AiAsk,
    SessionsList,
    SessionCreate,
    SessionsExport,
    SessionMessages,
    SessionAsk,
    SessionClear,
    SessionDelete,
    CustomersList,
    CustomersSearch,
    CustomerDetail,
    InvoiceCreate,
    InvoiceSend,
    InvoicePay,
    InvoiceCancel,
    InvoiceRefundStatus,
    TaxRates,
    TaxRateSet,
    TaxCompute,
    CurrencyRates,
    CurrencyConvert,
    CurrencyRefresh,
    ImportTemplate,
    ImportExcel,
    ModulesList,
    ModuleSchema,
    ModuleExport,
    ModuleReport,
    ReportExport,
    Forecast,
    ModulesAvailable,
    ModuleEnable,
    ModuleDisable,
    RecordsList,
    RecordCreate,
    RecordUpdate,
    RecordDelete,
    NotFound,
}

/// The endpoints under `setup` that need no session.
pub open spec fn public_setup(m: Method, p: Seq<Seq<char>>) -> Option<Endpoint> {
    if m == Method::Get && (p.len() == 2 && p[0] == "setup"@ && p[1] == "status"@) {
        Some(Endpoint::SetupStatus)
    } else if m == Method::Get && (p.len() == 2 && p[0] == "setup"@ && p[1] == "diagnostics"@) {
        Some(Endpoint::SetupDiagnostics)
    } else if m == Method::Get && (p.len() == 2 && p[0] == "setup"@ && p[1] == "business-id"@) {
        Some(Endpoint::SetupBusinessId)
    } else if m == Method::Get && (p.len() == 2 && p[0] == "setup"@ && p[1] == "branding"@) {
        Some(Endpoint::SetupBranding)
    } else if m == Method::Post && (p.len() == 2 && p[0] == "setup"@ && p[1] == "create-business"@) {
        Some(Endpoint::SetupCreateBusiness)
    } else if m == Method::Post && (p.len() == 2 && p[0] == "setup"@ && p[1] == "restore"@) {
        Some(Endpoint::SetupRestore)
    } else {
        None
    }
}

fn match_public_setup(m: Method, p: &Vec<String>) -> (r: Option<Endpoint>)
    ensures
        r == public_setup(m, views(p@)),
{
    if m == Method::Get && p.len() == 2 && same(p[0].as_str(), "setup") && same(p[1].as_str(), "status") {
        Some(Endpoint::SetupStatus)
    } else if m == Method::Get && p.len() == 2 && same(p[0].as_str(), "setup") && same(p[1].as_str(), "diagnostics") {
        Some(Endpoint::SetupDiagnostics)
    } else if m == Method::Get && p.len() == 2 && same(p[0].as_str(), "setup") && same(p[1].as_str(), "business-id") {
        Some(Endpoint::SetupBusinessId)
    } else if m == Method::Get && p.len() == 2 && same(p[0].as_str(), "setup") && same(p[1].as_str(), "branding") {
        Some(Endpoint::SetupBranding)
    } else if m == Method::Post && p.len() == 2 && same(p[0].as_str(), "setup") && same(p[1].as_str(), "create-business") {
        Some(Endpoint::SetupCreateBusiness)
    } else if m == Method::Post && p.len() == 2 && same(p[0].as_str(), "setup") && same(p[1].as_str(), "restore") {
        Some(Endpoint::SetupRestore)
    } else {
        None
    }
}

/// The endpoints under `uploads` that need no session.
pub open spec fn public_uploads(m: Method, p: Seq<Seq<char>>) -> Option<Endpoint> {
    if m == Method::Get && (p.len() == 2 && p[0] == "uploads"@) {
        Some(Endpoint::Upload)
    } else {
        None
    }
}

fn match_public_uploads(m: Method, p: &Vec<String>) -> (r: Option<Endpoint>)
    ensures
        r == public_uploads(m, views(p@)),
{
    if m == Method::Get && p.len() == 2 && same(p[0].as_str(), "uploads") {
        Some(Endpoint::Upload)
    } else {
        None
    }
}

/// The endpoints under `auth` that need no session.
pub open spec fn public_auth(m: Method, p: Seq<Seq<char>>) -> Option<Endpoint> {
    if m == Method::Post && (p.len() == 2 && p[0] == "auth"@ && p[1] == "login"@) {
        Some(Endpoint::Login)
    } else if m == Method::Post && (p.len() == 3 && p[0] == "auth"@ && p[1] == "2fa"@ && p[2] == "login"@) {
        Some(Endpoint::TwoFactorLogin)
    } else if m == Method::Get && (p.len() == 3 && p[0] == "auth"@ && p[1] == "recover"@ && p[2] == "security-questions"@) {
        Some(Endpoint::RecoveryQuestions)
    } else if m == Method::Post && (p.len() == 3 && p[0] == "auth"@ && p[1] == "recover"@ && p[2] == "security-questions"@) {
        Some(Endpoint::RecoverByQuestions)
    } else if m == Method::Post && (p.len() == 3 && p[0] == "auth"@ && p[1] == "recover"@ && p[2] == "admin-code"@) {
        Some(Endpoint::RecoverByAdminCode)
    } else {
        None
    }
}

fn match_public_auth(m: Method, p: &Vec<String>) -> (r: Option<Endpoint>)
    ensures
        r == public_auth(m, views(p@)),
{
    if m == Method::Post && p.len() == 2 && same(p[0].as_str(), "auth") && same(p[1].as_str(), "login") {
        Some(Endpoint::Login)
    } else if m == Method::Post && p.len() == 3 && same(p[0].as_str(), "auth") && same(p[1].as_str(), "2fa") && same(p[2].as_str(), "login") {
        Some(Endpoint::TwoFactorLogin)
    } else if m == Method::Get && p.len() == 3 && same(p[0].as_str(), "auth") && same(p[1].as_str(), "recover") && same(p[2].as_str(), "security-questions") {
        Some(Endpoint::RecoveryQuestions)
    } else if m == Method::Post && p.len() == 3 && same(p[0].as_str(), "auth") && same(p[1].as_str(), "recover") && same(p[2].as_str(), "security-questions") {
        Some(Endpoint::RecoverByQuestions)
    } else if m == Method::Post && p.len() == 3 && same(p[0].as_str(), "auth") && same(p[1].as_str(), "recover") && same(p[2].as_str(), "admin-code") {
        Some(Endpoint::RecoverByAdminCode)
    } else {
        None
    }
}

/// The endpoint of a request that needs no session.
pub open spec fn public_endpoint(m: Method, p: Seq<Seq<char>>) -> Option<Endpoint> {
    if p.len() == 0 {
        None
    } else if p[0] == "setup"@ {
        public_setup(m, p)
    } else if p[0] == "uploads"@ {
        public_uploads(m, p)
    } else if p[0] == "auth"@ {
        public_auth(m, p)
    } else {
        None
    }
}

/// The endpoint of a request that needs no session.
pub fn match_public(m: Method, p: &Vec<String>) -> (r: Option<Endpoint>)
    ensures
        r == public_endpoint(m, views(p@)),
{
    if p.len() == 0 {
        None
    } else if same(p[0].as_str(), "setup") {
        match_public_setup(m, p)
    } else if same(p[0].as_str(), "uploads") {
        match_public_uploads(m, p)
    } else if same(p[0].as_str(), "auth") {
        match_public_auth(m, p)
    } else {
        None
    }
}

/// The endpoints under `auth`.
pub open spec fn account_endpoint(m: Method, p: Seq<Seq<char>>) -> Endpoint {
    if m == Method::Post && (p.len() == 2 && p[0] == "auth"@ && p[1] == "logout"@) {
        Endpoint::Logout
    } else if m == Method::Get && (p.len() == 2 && p[0] == "auth"@ && p[1] == "me"@) {
        Endpoint::Me
    } else if m == Method::Post && (p.len() == 3 && p[0] == "auth"@ && p[1] == "2fa"@ && p[2] == "setup"@) {
        Endpoint::TwoFactorSetup
    } else if m == Method::Post && (p.len() == 3 && p[0] == "auth"@ && p[1] == "2fa"@ && p[2] == "verify"@) {
        Endpoint::TwoFactorVerify
    } else if m == Method::Get && (p.len() == 3 && p[0] == "auth"@ && p[1] == "2fa"@ && p[2] == "status"@) {
        Endpoint::TwoFactorStatus
    } else if m == Method::Post && (p.len() == 3 && p[0] == "auth"@ && p[1] == "2fa"@ && p[2] == "disable"@) {
        Endpoint::TwoFactorDisable
    } else {
        Endpoint::NotFound
    }
}

fn match_account_endpoint(m: Method, p: &Vec<String>) -> (r: Endpoint)
    ensures
        r == account_endpoint(m, views(p@)),
{
    if m == Method::Post && p.len() == 2 && same(p[0].as_str(), "auth") && same(p[1].as_str(), "logout") {
        Endpoint::Logout
    } else if m == Method::Get && p.len() == 2 && same(p[0].as_str(), "auth") && same(p[1].as_str(), "me") {
        Endpoint::Me
    } else if m == Method::Post && p.len() == 3 && same(p[0].as_str(), "auth") && same(p[1].as_str(), "2fa") && same(p[2].as_str(), "setup") {
        Endpoint::TwoFactorSetup
    } else if m == Method::Post && p.len() == 3 && same(p[0].as_str(), "auth") && same(p[1].as_str(), "2fa") && same(p[2].as_str(), "verify") {
        Endpoint::TwoFactorVerify
    } else if m == Method::Get && p.len() == 3 && same(p[0].as_str(), "auth") && same(p[1].as_str(), "2fa") && same(p[2].as_str(), "status") {
        Endpoint::TwoFactorStatus
    } else if m == Method::Post && p.len() == 3 && same(p[0].as_str(), "auth") && same(p[1].as_str(), "2fa") && same(p[2].as_str(), "disable") {
        Endpoint::TwoFactorDisable
    } else {
        Endpoint::NotFound
    }
}

/// The endpoints under `admin`.
pub open spec fn admin_endpoint(m: Method, p: Seq<Seq<char>>) -> Endpoint {
    if m == Method::Post && (p.len() == 2 && p[0] == "admin"@ && p[1] == "backup"@) {
        Endpoint::AdminBackup
    } else if m == Method::Post && (p.len() == 2 && p[0] == "admin"@ && p[1] == "restore"@) {
        Endpoint::AdminRestore
    } else {
        Endpoint::NotFound
    }
}

fn match_admin_endpoint(m: Method, p: &Vec<String>) -> (r: Endpoint)
    ensures
        r == admin_endpoint(m, views(p@)),
{
    if m == Method::Post && p.len() == 2 && same(p[0].as_str(), "admin") && same(p[1].as_str(), "backup") {
        Endpoint::AdminBackup
    } else if m == Method::Post && p.len() == 2 && same(p[0].as_str(), "admin") && same(p[1].as_str(), "restore") {
        Endpoint::AdminRestore
    } else {
        Endpoint::NotFound
    }
}

/// The endpoints under `business`.
pub open spec fn business_endpoint(m: Method, p: Seq<Seq<char>>) -> Endpoint {
    if m == Method::Get && (p.len() == 1 && p[0] == "business"@) {
        Endpoint::Business
    } else if m == Method::Get && (p.len() == 2 && p[0] == "business"@ && p[1] == "branding"@) {
        Endpoint::BrandingGet
    } else if m == Method::Put && (p.len() == 2 && p[0] == "business"@ && p[1] == "branding"@) {
        Endpoint::BrandingUpdate
    } else if m == Method::Post && (p.len() == 2 && p[0] == "business"@ && p[1] == "settings"@) {
        Endpoint::BusinessSettings
    } else {
        Endpoint::NotFound
    }
}

fn match_business_endpoint(m: Method, p: &Vec<String>) -> (r: Endpoint)
    ensures
        r == business_endpoint(m, views(p@)),
{
    if m == Method::Get && p.len() == 1 && same(p[0].as_str(), "business") {
        Endpoint::Business
    } else if m == Method::Get && p.len() == 2 && same(p[0].as_str(), "business") && same(p[1].as_str(), "branding") {
        Endpoint::BrandingGet
    } else if m == Method::Put && p.len() == 2 && same(p[0].as_str(), "business") && same(p[1].as_str(), "branding") {
        Endpoint::BrandingUpdate
    } else if m == Method::Post && p.len() == 2 && same(p[0].as_str(), "business") && same(p[1].as_str(), "settings") {
        Endpoint::BusinessSettings
    } else {
        Endpoint::NotFound
    }
}

/// The endpoints under `users`.
pub open spec fn users_endpoint(m: Method, p: Seq<Seq<char>>) -> Endpoint {
    if m == Method::Get && (p.len() == 1 && p[0] == "users"@) {
        Endpoint::UsersList
    } else if m == Method::Post && (p.len() == 1 && p[0] == "users"@) {
        Endpoint::UserCreate
    } else if m == Method::Put && (p.len() == 3 && p[0] == "users"@ && p[2] == "role"@) {
        Endpoint::UserRole
    } else if m == Method::Delete && (p.len() == 2 && p[0] == "users"@) {
        Endpoint::UserDeactivate
    } else {
        Endpoint::NotFound
    }
}

fn match_users_endpoint(m: Method, p: &Vec<String>) -> (r: Endpoint)
    ensures
        r == users_endpoint(m, views(p@)),
{
    if m == Method::Get && p.len() == 1 && same(p[0].as_str(), "users") {
        Endpoint::UsersList
    } else if m == Method::Post && p.len() == 1 && same(p[0].as_str(), "users") {
        Endpoint::UserCreate
    } else if m == Method::Put && p.len() == 3 && same(p[0].as_str(), "users") && same(p[2].as_str(), "role") {
        Endpoint::UserRole
    } else if m == Method::Delete && p.len() == 2 && same(p[0].as_str(), "users") {
        Endpoint::UserDeactivate
    } else {
        Endpoint::NotFound
    }
}

/// The endpoints under `roles`.
pub open spec fn roles_endpoint(m: Method, p: Seq<Seq<char>>) -> Endpoint {
    if m == Method::Get && (p.len() == 1 && p[0] == "roles"@) {
        Endpoint::RolesList
    } else if m == Method::Post && (p.len() == 1 && p[0] == "roles"@) {
        Endpoint::RoleCreate
    } else if m == Method::Delete && (p.len() == 2 && p[0] == "roles"@) {
        Endpoint::RoleDelete
    } else if m == Method::Put && (p.len() == 3 && p[0] == "roles"@ && p[2] == "admin-flag"@) {
        Endpoint::RoleAdminFlag
    } else if m == Method::Get && (p.len() == 3 && p[0] == "roles"@ && p[2] == "permissions"@) {
        Endpoint::RolePermissions
    } else if m == Method::Put && (p.len() == 3 && p[0] == "roles"@ && p[2] == "permissions"@) {
        Endpoint::RoleSetPermissions
    } else {
        Endpoint::NotFound
    }
}

fn match_roles_endpoint(m: Method, p: &Vec<String>) -> (r: Endpoint)
    ensures
        r == roles_endpoint(m, views(p@)),
{
    if m == Method::Get && p.len() == 1 && same(p[0].as_str(), "roles") {
        Endpoint::RolesList
    } else if m == Method::Post && p.len() == 1 && same(p[0].as_str(), "roles") {
        Endpoint::RoleCreate
    } else if m == Method::Delete && p.len() == 2 && same(p[0].as_str(), "roles") {
        Endpoint::RoleDelete
    } else if m == Method::Put && p.len() == 3 && same(p[0].as_str(), "roles") && same(p[2].as_str(), "admin-flag") {
        Endpoint::RoleAdminFlag
    } else if m == Method::Get && p.len() == 3 && same(p[0].as_str(), "roles") && same(p[2].as_str(), "permissions") {
        Endpoint::RolePermissions
    } else if m == Method::Put && p.len() == 3 && same(p[0].as_str(), "roles") && same(p[2].as_str(), "permissions") {
        Endpoint::RoleSetPermissions
    } else {
        Endpoint::NotFound
    }
}

/// The endpoints under `units`.
pub open spec fn units_endpoint(m: Method, p: Seq<Seq<char>>) -> Endpoint {
    if m == Method::Get && (p.len() == 1 && p[0] == "units"@) {
        Endpoint::UnitsList
    } else if m == Method::Post && (p.len() == 1 && p[0] == "units"@) {
        Endpoint::UnitCreate
    } else if m == Method::Delete && (p.len() == 2 && p[0] == "units"@) {
        Endpoint::UnitDelete
    } else {
        Endpoint::NotFound
    }
}

fn match_units_endpoint(m: Method, p: &Vec<String>) -> (r: Endpoint)
    ensures
        r == units_endpoint(m, views(p@)),
{
    if m == Method::Get && p.len() == 1 && same(p[0].as_str(), "units") {
        Endpoint::UnitsList
    } else if m == Method::Post && p.len() == 1 && same(p[0].as_str(), "units") {
        Endpoint::UnitCreate
    } else if m == Method::Delete && p.len() == 2 && same(p[0].as_str(), "units") {
        Endpoint::UnitDelete
    } else {
        Endpoint::NotFound
    }
}

/// The endpoints under `currencies`.
pub open spec fn currencies_endpoint(m: Method, p: Seq<Seq<char>>) -> Endpoint {
    if m == Method::Get && (p.len() == 1 && p[0] == "currencies"@) {
        Endpoint::CurrenciesList
    } else if m == Method::Post && (p.len() == 1 && p[0] == "currencies"@) {
        Endpoint::CurrencyCreate
    } else if m == Method::Delete && (p.len() == 2 && p[0] == "currencies"@) {
        Endpoint::CurrencyDelete
    } else {
        Endpoint::NotFound
    }
}

fn match_currencies_endpoint(m: Method, p: &Vec<String>) -> (r: Endpoint)
    ensures
        r == currencies_endpoint(m, views(p@)),
{
    if m == Method::Get && p.len() == 1 && same(p[0].as_str(), "currencies") {
        Endpoint::CurrenciesList
    } else if m == Method::Post && p.len() == 1 && same(p[0].as_str(), "currencies") {
        Endpoint::CurrencyCreate
    } else if m == Method::Delete && p.len() == 2 && same(p[0].as_str(), "currencies") {
        Endpoint::CurrencyDelete
    } else {
        Endpoint::NotFound
    }
}

/// The endpoints under `settings`.
pub open spec fn settings_endpoint(m: Method, p: Seq<Seq<char>>) -> Endpoint {
    if m == Method::Get && (p.len() == 1 && p[0] == "settings"@) {
        Endpoint::SettingsGet
    } else if m == Method::Put && (p.len() == 1 && p[0] == "settings"@) {
        Endpoint::SettingsSet
    } else {
        Endpoint::NotFound
    }
}

fn match_settings_endpoint(m: Method, p: &Vec<String>) -> (r: Endpoint)
    ensures
        r == settings_endpoint(m, views(p@)),
{
    if m == Method::Get && p.len() == 1 && same(p[0].as_str(), "settings") {
        Endpoint::SettingsGet
    } else if m == Method::Put && p.len() == 1 && same(p[0].as_str(), "settings") {
        Endpoint::SettingsSet
    } else {
        Endpoint::NotFound
    }
}

/// The endpoints under `pos`.
pub open spec fn pos_endpoint(m: Method, p: Seq<Seq<char>>) -> Endpoint {
    if m == Method::Post && (p.len() == 2 && p[0] == "pos"@ && p[1] == "checkout"@) {
        Endpoint::Checkout
    } else if m == Method::Post && (p.len() == 2 && p[0] == "pos"@ && p[1] == "service-sale"@) {
        Endpoint::ServiceSale
    } else if m == Method::Get && (p.len() == 3 && p[0] == "pos"@ && p[1] == "orders"@) {
        Endpoint::Order
    } else if m == Method::Get && (p.len() == 3 && p[0] == "pos"@ && p[1] == "receipt"@) {
        Endpoint::Receipt
    } else {
        Endpoint::NotFound
    }
}

fn match_pos_endpoint(m: Method, p: &Vec<String>) -> (r: Endpoint)
    ensures
        r == pos_endpoint(m, views(p@)),
{
    if m == Method::Post && p.len() == 2 && same(p[0].as_str(), "pos") && same(p[1].as_str(), "checkout") {
        Endpoint::Checkout
    } else if m == Method::Post && p.len() == 2 && same(p[0].as_str(), "pos") && same(p[1].as_str(), "service-sale") {
        Endpoint::ServiceSale
    } else if m == Method::Get && p.len() == 3 && same(p[0].as_str(), "pos") && same(p[1].as_str(), "orders") {
        Endpoint::Order
    } else if m == Method::Get && p.len() == 3 && same(p[0].as_str(), "pos") && same(p[1].as_str(), "receipt") {
        Endpoint::Receipt
    } else {
        Endpoint::NotFound
    }
}

/// The endpoints under `sales`.
pub open spec fn sales_endpoint(m: Method, p: Seq<Seq<char>>) -> Endpoint {
    if m == Method::Post && (p.len() == 2 && p[0] == "sales"@ && p[1] == "refund"@) {
        Endpoint::Refund
    } else if m == Method::Get && (p.len() == 2 && p[0] == "sales"@ && p[1] == "profit-summary"@) {
        Endpoint::ProfitSummary
    } else {
        Endpoint::NotFound
    }
}

fn match_sales_endpoint(m: Method, p: &Vec<String>) -> (r: Endpoint)
    ensures
        r == sales_endpoint(m, views(p@)),
{
    if m == Method::Post && p.len() == 2 && same(p[0].as_str(), "sales") && same(p[1].as_str(), "refund") {
        Endpoint::Refund
    } else if m == Method::Get && p.len() == 2 && same(p[0].as_str(), "sales") && same(p[1].as_str(), "profit-summary") {
        Endpoint::ProfitSummary
    } else {
        Endpoint::NotFound
    }
}

/// The endpoints under `purchasing`.
pub open spec fn purchasing_endpoint(m: Method, p: Seq<Seq<char>>) -> Endpoint {
    if m == Method::Post && (p.len() == 2 && p[0] == "purchasing"@ && p[1] == "receive"@) {
        Endpoint::Receive
    } else {
        Endpoint::NotFound
    }
}

fn match_purchasing_endpoint(m: Method, p: &Vec<String>) -> (r: Endpoint)
    ensures
        r == purchasing_endpoint(m, views(p@)),
{
    if m == Method::Post && p.len() == 2 && same(p[0].as_str(), "purchasing") && same(p[1].as_str(), "receive") {
        Endpoint::Receive
    } else {
        Endpoint::NotFound
    }
}

/// The endpoints under `inventory`.
pub open spec fn inventory_endpoint(m: Method, p: Seq<Seq<char>>) -> Endpoint {
    if m == Method::Post && (p.len() == 2 && p[0] == "inventory"@ && p[1] == "repack"@) {
        Endpoint::Repack
    } else if m == Method::Post && (p.len() == 3 && p[0] == "inventory"@ && p[1] == "stocktake"@ && p[2] == "initiate"@) {
        Endpoint::StockTakeInitiate
    } else if m == Method::Get && (p.len() == 3 && p[0] == "inventory"@ && p[1] == "stocktake"@ && p[2] == "open"@) {
        Endpoint::StockTakeOpen
    } else if m == Method::Get && (p.len() == 3 && p[0] == "inventory"@ && p[1] == "stocktake"@ && p[2] == "history"@) {
        Endpoint::StockTakeHistory
    } else if m == Method::Get && (p.len() == 3 && p[0] == "inventory"@ && p[1] == "stocktake"@) {
        Endpoint::StockTakeGet
    } else if m == Method::Post && (p.len() == 3 && p[0] == "inventory"@ && p[1] == "stocktake"@ && p[2] == "count"@) {
        Endpoint::StockTakeCount
    } else if m == Method::Post && (p.len() == 4 && p[0] == "inventory"@ && p[1] == "stocktake"@ && p[3] == "close"@) {
        Endpoint::StockTakeClose
    } else {
        Endpoint::NotFound
    }
}

fn match_inventory_endpoint(m: Method, p: &Vec<String>) -> (r: Endpoint)
    ensures
        r == inventory_endpoint(m, views(p@)),
{
    if m == Method::Post && p.len() == 2 && same(p[0].as_str(), "inventory") && same(p[1].as_str(), "repack") {
        Endpoint::Repack
    } else if m == Method::Post && p.len() == 3 && same(p[0].as_str(), "inventory") && same(p[1].as_str(), "stocktake") && same(p[2].as_str(), "initiate") {
        Endpoint::StockTakeInitiate
    } else if m == Method::Get && p.len() == 3 && same(p[0].as_str(), "inventory") && same(p[1].as_str(), "stocktake") && same(p[2].as_str(), "open") {
        Endpoint::StockTakeOpen
    } else if m == Method::Get && p.len() == 3 && same(p[0].as_str(), "inventory") && same(p[1].as_str(), "stocktake") && same(p[2].as_str(), "history") {
        Endpoint::StockTakeHistory
    } else if m == Method::Get && p.len() == 3 && same(p[0].as_str(), "inventory") && same(p[1].as_str(), "stocktake") {
        Endpoint::StockTakeGet
    } else if m == Method::Post && p.len() == 3 && same(p[0].as_str(), "inventory") && same(p[1].as_str(), "stocktake") && same(p[2].as_str(), "count") {
        Endpoint::StockTakeCount
    } else if m == Method::Post && p.len() == 4 && same(p[0].as_str(), "inventory") && same(p[1].as_str(), "stocktake") && same(p[3].as_str(), "close") {
        Endpoint::StockTakeClose
    } else {
        Endpoint::NotFound
    }
}

/// The endpoints under `debt_credit`.
pub open spec fn debt_credit_endpoint(m: Method, p: Seq<Seq<char>>) -> Endpoint {
    if m == Method::Post && (p.len() == 2 && p[0] == "debt_credit"@ && p[1] == "settle"@) {
        Endpoint::SettleDebt
    } else if m == Method::Get && (p.len() == 2 && p[0] == "debt_credit"@ && p[1] == "summary"@) {
        Endpoint::DebtSummary
    } else {
        Endpoint::NotFound
    }
}

fn match_debt_credit_endpoint(m: Method, p: &Vec<String>) -> (r: Endpoint)
    ensures
        r == debt_credit_endpoint(m, views(p@)),
{
    if m == Method::Post && p.len() == 2 && same(p[0].as_str(), "debt_credit") && same(p[1].as_str(), "settle") {
        Endpoint::SettleDebt
    } else if m == Method::Get && p.len() == 2 && same(p[0].as_str(), "debt_credit") && same(p[1].as_str(), "summary") {
        Endpoint::DebtSummary
    } else {
        Endpoint::NotFound
    }
}

/// The endpoints under `audit-log`.
pub open spec fn audit_log_endpoint(m: Method, p: Seq<Seq<char>>) -> Endpoint {
    if m == Method::Get && (p.len() == 1 && p[0] == "audit-log"@) {
        Endpoint::AuditLog
    } else {
        Endpoint::NotFound
    }
}

fn match_audit_log_endpoint(m: Method, p: &Vec<String>) -> (r: Endpoint)
    ensures
        r == audit_log_endpoint(m, views(p@)),
{
    if m == Method::Get && p.len() == 1 && same(p[0].as_str(), "audit-log") {
        Endpoint::AuditLog
    } else {
        Endpoint::NotFound
    }
}

/// The endpoints under `onboarding`.
pub open spec fn onboarding_endpoint(m: Method, p: Seq<Seq<char>>) -> Endpoint {
    if m == Method::Post && (p.len() == 2 && p[0] == "onboarding"@ && p[1] == "setup"@) {
        Endpoint::OnboardingSetup
    } else {
        Endpoint::NotFound
    }
}

fn match_onboarding_endpoint(m: Method, p: &Vec<String>) -> (r: Endpoint)
    ensures
        r == onboarding_endpoint(m, views(p@)),
{
    if m == Method::Post && p.len() == 2 && same(p[0].as_str(), "onboarding") && same(p[1].as_str(), "setup") {
        Endpoint::OnboardingSetup
    } else {
        Endpoint::NotFound
    }
}

/// The endpoints under `notifications`.
pub open spec fn notifications_endpoint(m: Method, p: Seq<Seq<char>>) -> Endpoint {
    if m == Method::Post && (p.len() == 2 && p[0] == "notifications"@ && p[1] == "send"@) {
        Endpoint::NotificationSend
    } else if m == Method::Post && (p.len() == 2 && p[0] == "notifications"@ && p[1] == "low-stock-alert"@) {
        Endpoint::LowStockAlert
    } else if m == Method::Get && (p.len() == 1 && p[0] == "notifications"@) {
        Endpoint::NotificationsList
    } else {
        Endpoint::NotFound
    }
}

fn match_notifications_endpoint(m: Method, p: &Vec<String>) -> (r: Endpoint)
    ensures
        r == notifications_endpoint(m, views(p@)),
{
    if m == Method::Post && p.len() == 2 && same(p[0].as_str(), "notifications") && same(p[1].as_str(), "send") {
        Endpoint::NotificationSend
    } else if m == Method::Post && p.len() == 2 && same(p[0].as_str(), "notifications") && same(p[1].as_str(), "low-stock-alert") {
        Endpoint::LowStockAlert
    } else if m == Method::Get && p.len() == 1 && same(p[0].as_str(), "notifications") {
        Endpoint::NotificationsList
    } else {
        Endpoint::NotFound
    }
}

/// The endpoints under `ai`.
pub open spec fn ai_endpoint(m: Method, p: Seq<Seq<char>>) -> Endpoint {
    if m == Method::Get && (p.len() == 2 && p[0] == "ai"@ && p[1] == "settings"@) {
        Endpoint::AiSettings
    } else if m == Method::Get && (p.len() == 2 && p[0] == "ai"@ && p[1] == "context"@) {
        Endpoint::AiContext
    } else if m == Method::Post && (p.len() == 2 && p[0] == "ai"@ && p[1] == "ask"@) {
        Endpoint::AiAsk
    } else if m == Method::Get && (p.len() == 2 && p[0] == "ai"@ && p[1] == "sessions"@) {
        Endpoint::SessionsList
    } else if m == Method::Post && (p.len() == 2 && p[0] == "ai"@ && p[1] == "sessions"@) {
        Endpoint::SessionCreate
    } else if m == Method::Get && (p.len() == 3 && p[0] == "ai"@ && p[1] == "sessions"@ && p[2] == "export.xlsx"@) {
        Endpoint::SessionsExport
    } else if m == Method::Get && (p.len() == 4 && p[0] == "ai"@ && p[1] == "sessions"@ && p[3] == "messages"@) {
        Endpoint::SessionMessages
    } else if m == Method::Post && (p.len() == 4 && p[0] == "ai"@ && p[1] == "sessions"@ && p[3] == "ask"@) {
        Endpoint::SessionAsk
    } else if m == Method::Post && (p.len() == 4 && p[0] == "ai"@ && p[1] == "sessions"@ && p[3] == "clear"@) {
        Endpoint::SessionClear
    } else if m == Method::Delete && (p.len() == 3 && p[0] == "ai"@ && p[1] == "sessions"@) {
        Endpoint::SessionDelete
    } else {
        Endpoint::NotFound
    }
}

fn match_ai_endpoint(m: Method, p: &Vec<String>) -> (r: Endpoint)
    ensures
        r == ai_endpoint(m, views(p@)),
{
    if m == Method::Get && p.len() == 2 && same(p[0].as_str(), "ai") && same(p[1].as_str(), "settings") {
        Endpoint::AiSettings
    } else if m == Method::Get && p.len() == 2 && same(p[0].as_str(), "ai") && same(p[1].as_str(), "context") {
        Endpoint::AiContext
    } else if m == Method::Post && p.len() == 2 && same(p[0].as_str(), "ai") && same(p[1].as_str(), "ask") {
        Endpoint::AiAsk
    } else if m == Method::Get && p.len() == 2 && same(p[0].as_str(), "ai") && same(p[1].as_str(), "sessions") {
        Endpoint::SessionsList
    } else if m == Method::Post && p.len() == 2 && same(p[0].as_str(), "ai") && same(p[1].as_str(), "sessions") {
        Endpoint::SessionCreate
    } else if m == Method::Get && p.len() == 3 && same(p[0].as_str(), "ai") && same(p[1].as_str(), "sessions") && same(p[2].as_str(), "export.xlsx") {
        Endpoint::SessionsExport
    } else if m == Method::Get && p.len() == 4 && same(p[0].as_str(), "ai") && same(p[1].as_str(), "sessions") && same(p[3].as_str(), "messages") {
        Endpoint::SessionMessages
    } else if m == Method::Post && p.len() == 4 && same(p[0].as_str(), "ai") && same(p[1].as_str(), "sessions") && same(p[3].as_str(), "ask") {
        Endpoint::SessionAsk
    } else if m == Method::Post && p.len() == 4 && same(p[0].as_str(), "ai") && same(p[1].as_str(), "sessions") && same(p[3].as_str(), "clear") {
        Endpoint::SessionClear
    } else if m == Method::Delete && p.len() == 3 && same(p[0].as_str(), "ai") && same(p[1].as_str(), "sessions") {
        Endpoint::SessionDelete
    } else {
        Endpoint::NotFound
    }
}

/// The endpoints under `customers`.
pub open spec fn customers_endpoint(m: Method, p: Seq<Seq<char>>) -> Endpoint {
    if m == Method::Get && (p.len() == 1 && p[0] == "customers"@) {
        Endpoint::CustomersList
    } else if m == Method::Get && (p.len() == 2 && p[0] == "customers"@ && p[1] == "search"@) {
        Endpoint::CustomersSearch
    } else if m == Method::Get && (p.len() == 2 && p[0] == "customers"@) {
        Endpoint::CustomerDetail
    } else {
        Endpoint::NotFound
    }
}

fn match_customers_endpoint(m: Method, p: &Vec<String>) -> (r: Endpoint)
    ensures
        r == customers_endpoint(m, views(p@)),
{
    if m == Method::Get && p.len() == 1 && same(p[0].as_str(), "customers") {
        Endpoint::CustomersList
    } else if m == Method::Get && p.len() == 2 && same(p[0].as_str(), "customers") && same(p[1].as_str(), "search") {
        Endpoint::CustomersSearch
    } else if m == Method::Get && p.len() == 2 && same(p[0].as_str(), "customers") {
        Endpoint::CustomerDetail
    } else {
        Endpoint::NotFound
    }
}

/// The endpoints under `invoices`.
pub open spec fn invoices_endpoint(m: Method, p: Seq<Seq<char>>) -> Endpoint {
    if m == Method::Post && (p.len() == 1 && p[0] == "invoices"@) {
        Endpoint::InvoiceCreate
    } else if m == Method::Post && (p.len() == 3 && p[0] == "invoices"@ && p[2] == "send"@) {
        Endpoint::InvoiceSend
    } else if m == Method::Post && (p.len() == 3 && p[0] == "invoices"@ && p[2] == "pay"@) {
        Endpoint::InvoicePay
    } else if m == Method::Post && (p.len() == 3 && p[0] == "invoices"@ && p[2] == "cancel"@) {
        Endpoint::InvoiceCancel
    } else if m == Method::Get && (p.len() == 3 && p[0] == "invoices"@ && p[2] == "refund-status"@) {
        Endpoint::InvoiceRefundStatus
    } else {
        Endpoint::NotFound
    }
}

fn match_invoices_endpoint(m: Method, p: &Vec<String>) -> (r: Endpoint)
    ensures
        r == invoices_endpoint(m, views(p@)),
{
    if m == Method::Post && p.len() == 1 && same(p[0].as_str(), "invoices") {
        Endpoint::InvoiceCreate
    } else if m == Method::Post && p.len() == 3 && same(p[0].as_str(), "invoices") && same(p[2].as_str(), "send") {
        Endpoint::InvoiceSend
    } else if m == Method::Post && p.len() == 3 && same(p[0].as_str(), "invoices") && same(p[2].as_str(), "pay") {
        Endpoint::InvoicePay
    } else if m == Method::Post && p.len() == 3 && same(p[0].as_str(), "invoices") && same(p[2].as_str(), "cancel") {
        Endpoint::InvoiceCancel
    } else if m == Method::Get && p.len() == 3 && same(p[0].as_str(), "invoices") && same(p[2].as_str(), "refund-status") {
        Endpoint::InvoiceRefundStatus
    } else {
        Endpoint::NotFound
    }
}

/// The endpoints under `tax`.
pub open spec fn tax_endpoint(m: Method, p: Seq<Seq<char>>) -> Endpoint {
    if m == Method::Get && (p.len() == 2 && p[0] == "tax"@ && p[1] == "rates"@) {
        Endpoint::TaxRates
    } else if m == Method::Post && (p.len() == 2 && p[0] == "tax"@ && p[1] == "rates"@) {
        Endpoint::TaxRateSet
    } else if m == Method::Post && (p.len() == 2 && p[0] == "tax"@ && p[1] == "compute"@) {
        Endpoint::TaxCompute
    } else {
        Endpoint::NotFound
    }
}

fn match_tax_endpoint(m: Method, p: &Vec<String>) -> (r: Endpoint)
    ensures
        r == tax_endpoint(m, views(p@)),
{
    if m == Method::Get && p.len() == 2 && same(p[0].as_str(), "tax") && same(p[1].as_str(), "rates") {
        Endpoint::TaxRates
    } else if m == Method::Post && p.len() == 2 && same(p[0].as_str(), "tax") && same(p[1].as_str(), "rates") {
        Endpoint::TaxRateSet
    } else if m == Method::Post && p.len() == 2 && same(p[0].as_str(), "tax") && same(p[1].as_str(), "compute") {
        Endpoint::TaxCompute
    } else {
        Endpoint::NotFound
    }
}

/// The endpoints under `currency`.
pub open spec fn currency_endpoint(m: Method, p: Seq<Seq<char>>) -> Endpoint {
    if m == Method::Get && (p.len() == 2 && p[0] == "currency"@ && p[1] == "rates"@) {
        Endpoint::CurrencyRates
    } else if m == Method::Post && (p.len() == 2 && p[0] == "currency"@ && p[1] == "convert"@) {
        Endpoint::CurrencyConvert
    } else if m == Method::Post && (p.len() == 2 && p[0] == "currency"@ && p[1] == "refresh"@) {
        Endpoint::CurrencyRefresh
    } else {
        Endpoint::NotFound
    }
}

fn match_currency_endpoint(m: Method, p: &Vec<String>) -> (r: Endpoint)
    ensures
        r == currency_endpoint(m, views(p@)),
{
    if m == Method::Get && p.len() == 2 && same(p[0].as_str(), "currency") && same(p[1].as_str(), "rates") {
        Endpoint::CurrencyRates
    } else if m == Method::Post && p.len() == 2 && same(p[0].as_str(), "currency") && same(p[1].as_str(), "convert") {
        Endpoint::CurrencyConvert
    } else if m == Method::Post && p.len() == 2 && same(p[0].as_str(), "currency") && same(p[1].as_str(), "refresh") {
        Endpoint::CurrencyRefresh
    } else {
        Endpoint::NotFound
    }
}

/// The endpoints under `modules`.
pub open spec fn modules_endpoint(m: Method, p: Seq<Seq<char>>) -> Endpoint {
    if p.len() >= 3 && p[2] == "records"@ {
        if m == Method::Get && p.len() == 3 {
            Endpoint::RecordsList
        } else if m == Method::Post && p.len() == 3 {
            Endpoint::RecordCreate
        } else if m == Method::Put && p.len() > 3 {
            Endpoint::RecordUpdate
        } else if m == Method::Delete && p.len() > 3 {
            Endpoint::RecordDelete
        } else {
            Endpoint::NotFound
        }
    } else if m == Method::Get && (p.len() == 3 && p[0] == "modules"@ && p[2] == "import-template"@) {
        Endpoint::ImportTemplate
    } else if m == Method::Post && (p.len() == 3 && p[0] == "modules"@ && p[2] == "import-excel"@) {
        Endpoint::ImportExcel
    } else if m == Method::Get && (p.len() == 1 && p[0] == "modules"@) {
        Endpoint::ModulesList
    } else if m == Method::Get && (p.len() == 3 && p[0] == "modules"@ && p[2] == "schema"@) {
        Endpoint::ModuleSchema
    } else if m == Method::Get && (p.len() == 3 && p[0] == "modules"@ && p[2] == "export"@) {
        Endpoint::ModuleExport
    } else if m == Method::Get && (p.len() == 3 && p[0] == "modules"@ && p[2] == "report"@) {
        Endpoint::ModuleReport
    } else if m == Method::Get && (p.len() == 4 && p[0] == "modules"@ && p[2] == "report"@ && p[3] == "export"@) {
        Endpoint::ReportExport
    } else if m == Method::Get && (p.len() == 3 && p[0] == "modules"@ && p[2] == "forecast"@) {
        Endpoint::Forecast
    } else if m == Method::Get && (p.len() == 2 && p[0] == "modules"@ && p[1] == "available"@) {
        Endpoint::ModulesAvailable
    } else if m == Method::Post && (p.len() == 3 && p[0] == "modules"@ && p[2] == "enable"@) {
        Endpoint::ModuleEnable
    } else if m == Method::Post && (p.len() == 3 && p[0] == "modules"@ && p[2] == "disable"@) {
        Endpoint::ModuleDisable
    } else {
        Endpoint::NotFound
    }
}

fn match_modules_endpoint(m: Method, p: &Vec<String>) -> (r: Endpoint)
    ensures
        r == modules_endpoint(m, views(p@)),
{
    if p.len() >= 3 && same(p[2].as_str(), "records") {
        if m == Method::Get && p.len() == 3 {
            Endpoint::RecordsList
        } else if m == Method::Post && p.len() == 3 {
            Endpoint::RecordCreate
        } else if m == Method::Put && p.len() > 3 {
            Endpoint::RecordUpdate
        } else if m == Method::Delete && p.len() > 3 {
            Endpoint::RecordDelete
        } else {
            Endpoint::NotFound
        }
    } else if m == Method::Get && p.len() == 3 && same(p[0].as_str(), "modules") && same(p[2].as_str(), "import-template") {
        Endpoint::ImportTemplate
    } else if m == Method::Post && p.len() == 3 && same(p[0].as_str(), "modules") && same(p[2].as_str(), "import-excel") {
        Endpoint::ImportExcel
    } else if m == Method::Get && p.len() == 1 && same(p[0].as_str(), "modules") {
        Endpoint::ModulesList
    } else if m == Method::Get && p.len() == 3 && same(p[0].as_str(), "modules") && same(p[2].as_str(), "schema") {
        Endpoint::ModuleSchema
    } else if m == Method::Get && p.len() == 3 && same(p[0].as_str(), "modules") && same(p[2].as_str(), "export") {
        Endpoint::ModuleExport
    } else if m == Method::Get && p.len() == 3 && same(p[0].as_str(), "modules") && same(p[2].as_str(), "report") {
        Endpoint::ModuleReport
    } else if m == Method::Get && p.len() == 4 && same(p[0].as_str(), "modules") && same(p[2].as_str(), "report") && same(p[3].as_str(), "export") {
        Endpoint::ReportExport
    } else if m == Method::Get && p.len() == 3 && same(p[0].as_str(), "modules") && same(p[2].as_str(), "forecast") {
        Endpoint::Forecast
    } else if m == Method::Get && p.len() == 2 && same(p[0].as_str(), "modules") && same(p[1].as_str(), "available") {
        Endpoint::ModulesAvailable
    } else if m == Method::Post && p.len() == 3 && same(p[0].as_str(), "modules") && same(p[2].as_str(), "enable") {
        Endpoint::ModuleEnable
    } else if m == Method::Post && p.len() == 3 && same(p[0].as_str(), "modules") && same(p[2].as_str(), "disable") {
        Endpoint::ModuleDisable
    } else {
        Endpoint::NotFound
    }
}

/// The endpoint of a request with a session.
pub open spec fn private_endpoint(m: Method, p: Seq<Seq<char>>) -> Endpoint {
    if p.len() == 0 {
        Endpoint::NotFound
    } else if p[0] == "auth"@ {
        account_endpoint(m, p)
    } else if p[0] == "admin"@ {
        admin_endpoint(m, p)
    } else if p[0] == "business"@ {
        business_endpoint(m, p)
    } else if p[0] == "users"@ {
        users_endpoint(m, p)
    } else if p[0] == "roles"@ {
        roles_endpoint(m, p)
    } else if p[0] == "units"@ {
        units_endpoint(m, p)
    } else if p[0] == "currencies"@ {
        currencies_endpoint(m, p)
    } else if p[0] == "settings"@ {
        settings_endpoint(m, p)
    } else if p[0] == "pos"@ {
        pos_endpoint(m, p)
    } else if p[0] == "sales"@ {
        sales_endpoint(m, p)
    } else if p[0] == "purchasing"@ {
        purchasing_endpoint(m, p)
    } else if p[0] == "inventory"@ {
        inventory_endpoint(m, p)
    } else if p[0] == "debt_credit"@ {
        debt_credit_endpoint(m, p)
    } else if p[0] == "audit-log"@ {
        audit_log_endpoint(m, p)
    } else if p[0] == "onboarding"@ {
        onboarding_endpoint(m, p)
    } else if p[0] == "notifications"@ {
        notifications_endpoint(m, p)
    } else if p[0] == "ai"@ {
        ai_endpoint(m, p)
    } else if p[0] == "customers"@ {
        customers_endpoint(m, p)
    } else if p[0] == "invoices"@ {
        invoices_endpoint(m, p)
    } else if p[0] == "tax"@ {
        tax_endpoint(m, p)
    } else if p[0] == "currency"@ {
        currency_endpoint(m, p)
    } else if p[0] == "modules"@ {
        modules_endpoint(m, p)
    } else {
        Endpoint::NotFound
    }
}

/// The endpoint of a request with a session.
pub fn match_private(m: Method, p: &Vec<String>) -> (r: Endpoint)
    ensures
        r == private_endpoint(m, views(p@)),
{
    if p.len() == 0 {
        Endpoint::NotFound
    } else if same(p[0].as_str(), "auth") {
        match_account_endpoint(m, p)
    } else if same(p[0].as_str(), "admin") {
        match_admin_endpoint(m, p)
    } else if same(p[0].as_str(), "business") {
        match_business_endpoint(m, p)
    } else if same(p[0].as_str(), "users") {
        match_users_endpoint(m, p)
    } else if same(p[0].as_str(), "roles") {
        match_roles_endpoint(m, p)
    } else if same(p[0].as_str(), "units") {
        match_units_endpoint(m, p)
    } else if same(p[0].as_str(), "currencies") {
        match_currencies_endpoint(m, p)
    } else if same(p[0].as_str(), "settings") {
        match_settings_endpoint(m, p)
    } else if same(p[0].as_str(), "pos") {
        match_pos_endpoint(m, p)
    } else if same(p[0].as_str(), "sales") {
        match_sales_endpoint(m, p)
    } else if same(p[0].as_str(), "purchasing") {
        match_purchasing_endpoint(m, p)
    } else if same(p[0].as_str(), "inventory") {
        match_inventory_endpoint(m, p)
    } else if same(p[0].as_str(), "debt_credit") {
        match_debt_credit_endpoint(m, p)
    } else if same(p[0].as_str(), "audit-log") {
        match_audit_log_endpoint(m, p)
    } else if same(p[0].as_str(), "onboarding") {
        match_onboarding_endpoint(m, p)
    } else if same(p[0].as_str(), "notifications") {
        match_notifications_endpoint(m, p)
    } else if same(p[0].as_str(), "ai") {
        match_ai_endpoint(m, p)
    } else if same(p[0].as_str(), "customers") {
        match_customers_endpoint(m, p)
    } else if same(p[0].as_str(), "invoices") {
        match_invoices_endpoint(m, p)
    } else if same(p[0].as_str(), "tax") {
        match_tax_endpoint(m, p)
    } else if same(p[0].as_str(), "currency") {
        match_currency_endpoint(m, p)
    } else if same(p[0].as_str(), "modules") {
        match_modules_endpoint(m, p)
    } else {
        Endpoint::NotFound
    }
}

/// What a request must have besides a session.
#[derive(Clone, Copy, PartialEq, Eq, Structural, Debug)]
pub enum Guard {
    /// Nothing more; whatever else is needed is checked with the data.
    Session,
    /// The Owner's role.
    Owner,
    /// The Owner's role or one that may administer.
    AdminTier,
    /// The right to read sales.
    SalesRead,
}

/// What an endpoint needs besides a session.
pub open spec fn guard_of(e: Endpoint) -> Guard {
    match e {
        Endpoint::AdminBackup | Endpoint::AdminRestore | Endpoint::BusinessSettings | Endpoint::UsersList | Endpoint::UserCreate | Endpoint::UserRole | Endpoint::UserDeactivate | Endpoint::RoleCreate | Endpoint::RoleDelete | Endpoint::RoleAdminFlag | Endpoint::RolePermissions | Endpoint::RoleSetPermissions | Endpoint::AuditLog | Endpoint::OnboardingSetup | Endpoint::TaxRateSet | Endpoint::CurrencyRefresh | Endpoint::ModuleEnable | Endpoint::ModuleDisable => Guard::Owner,
        Endpoint::BrandingUpdate | Endpoint::UnitCreate | Endpoint::UnitDelete | Endpoint::CurrencyCreate | Endpoint::CurrencyDelete | Endpoint::SettingsSet | Endpoint::NotificationSend | Endpoint::LowStockAlert | Endpoint::AiSettings => Guard::AdminTier,
        Endpoint::CustomersList | Endpoint::CustomersSearch | Endpoint::CustomerDetail => Guard::SalesRead,
        _ => Guard::Session,
    }
}

/// What an endpoint needs besides a session.
pub fn guard_for(e: Endpoint) -> (g: Guard)
    ensures
        g == guard_of(e),
{
    match e {
        Endpoint::AdminBackup | Endpoint::AdminRestore | Endpoint::BusinessSettings | Endpoint::UsersList | Endpoint::UserCreate | Endpoint::UserRole | Endpoint::UserDeactivate | Endpoint::RoleCreate | Endpoint::RoleDelete | Endpoint::RoleAdminFlag | Endpoint::RolePermissions | Endpoint::RoleSetPermissions | Endpoint::AuditLog | Endpoint::OnboardingSetup | Endpoint::TaxRateSet | Endpoint::CurrencyRefresh | Endpoint::ModuleEnable | Endpoint::ModuleDisable => Guard::Owner,
        Endpoint::BrandingUpdate | Endpoint::UnitCreate | Endpoint::UnitDelete | Endpoint::CurrencyCreate | Endpoint::CurrencyDelete | Endpoint::SettingsSet | Endpoint::NotificationSend | Endpoint::LowStockAlert | Endpoint::AiSettings => Guard::AdminTier,
        Endpoint::CustomersList | Endpoint::CustomersSearch | Endpoint::CustomerDetail => Guard::SalesRead,
        _ => Guard::Session,
    }
}
// ---------------------------------------------------------------------------
// Answers
// ---------------------------------------------------------------------------

/// The status of a success.
pub open spec fn success_of(e: Endpoint) -> u16 {
    match e {
        Endpoint::SetupCreateBusiness | Endpoint::UserCreate | Endpoint::RoleCreate | Endpoint::UnitCreate | Endpoint::CurrencyCreate | Endpoint::RecordCreate | Endpoint::InvoiceCreate => 201,
        _ => 200,
    }
}

/// The status of a success: something new was made, or not.
pub fn success_status(e: Endpoint) -> (status: u16)
    ensures
        status == success_of(e),
{
    match e {
        Endpoint::SetupCreateBusiness | Endpoint::UserCreate | Endpoint::RoleCreate | Endpoint::UnitCreate | Endpoint::CurrencyCreate | Endpoint::RecordCreate | Endpoint::InvoiceCreate => 201,
        _ => 200,
    }
}

/// How an endpoint answers where its work fails.
#[derive(Clone, Copy, PartialEq, Eq, Structural, Debug)]
pub enum Failure {
    /// With this status, whatever went wrong.
    Status { status: u16 },
    /// With 403 where a permission is missing, and 400 else.
    ByMessage,
}

/// How far an endpoint came.
#[derive(Clone, Copy, PartialEq, Eq, Structural, Debug)]
pub enum Stage {
    /// What the request is about is looked for.
    Before,
    /// The work is done.
    Work,
    /// What was made is handed out or filled: a session is opened, a file
    /// written, an answer kept, a new business given the modules of its kind.
    After,
}

/// How an endpoint answers where its work fails.
pub open spec fn failure_of(e: Endpoint) -> Failure {
    match e {
        Endpoint::SetupStatus | Endpoint::SetupCreateBusiness | Endpoint::ModuleSchema | Endpoint::SetupBusinessId | Endpoint::SetupBranding | Endpoint::Me | Endpoint::AdminBackup | Endpoint::Business | Endpoint::UsersList | Endpoint::RolesList | Endpoint::UnitsList | Endpoint::CurrenciesList | Endpoint::SettingsGet | Endpoint::AiSettings | Endpoint::ImportTemplate | Endpoint::AuditLog | Endpoint::CustomersList | Endpoint::CustomersSearch | Endpoint::BrandingGet | Endpoint::TwoFactorStatus | Endpoint::TaxRates | Endpoint::CurrencyRates | Endpoint::CurrencyRefresh | Endpoint::ModulesAvailable => Failure::Status { status: 500 },
        Endpoint::Upload | Endpoint::Order | Endpoint::SessionMessages | Endpoint::SessionClear | Endpoint::SessionDelete | Endpoint::Receipt | Endpoint::CustomerDetail | Endpoint::InvoiceRefundStatus | Endpoint::NotFound => Failure::Status { status: 404 },
        Endpoint::Login => Failure::Status { status: 401 },
        Endpoint::AiAsk | Endpoint::SessionAsk => Failure::Status { status: 502 },
        Endpoint::Checkout | Endpoint::ServiceSale | Endpoint::Refund | Endpoint::Receive | Endpoint::Repack | Endpoint::StockTakeInitiate | Endpoint::StockTakeOpen | Endpoint::StockTakeHistory | Endpoint::StockTakeGet | Endpoint::StockTakeCount | Endpoint::StockTakeClose | Endpoint::SettleDebt | Endpoint::DebtSummary | Endpoint::ProfitSummary | Endpoint::RecordsList | Endpoint::RecordCreate | Endpoint::RecordUpdate | Endpoint::RecordDelete | Endpoint::ModuleExport => Failure::ByMessage,
        _ => Failure::Status { status: 400 },
    }
}

fn failure_for(e: Endpoint) -> (f: Failure)
    ensures
        f == failure_of(e),
{
    match e {
        Endpoint::SetupStatus | Endpoint::SetupCreateBusiness | Endpoint::ModuleSchema | Endpoint::SetupBusinessId | Endpoint::SetupBranding | Endpoint::Me | Endpoint::AdminBackup | Endpoint::Business | Endpoint::UsersList | Endpoint::RolesList | Endpoint::UnitsList | Endpoint::CurrenciesList | Endpoint::SettingsGet | Endpoint::AiSettings | Endpoint::ImportTemplate | Endpoint::AuditLog | Endpoint::CustomersList | Endpoint::CustomersSearch | Endpoint::BrandingGet | Endpoint::TwoFactorStatus | Endpoint::TaxRates | Endpoint::CurrencyRates | Endpoint::CurrencyRefresh | Endpoint::ModulesAvailable => Failure::Status { status: 500 },
        Endpoint::Upload | Endpoint::Order | Endpoint::SessionMessages | Endpoint::SessionClear | Endpoint::SessionDelete | Endpoint::Receipt | Endpoint::CustomerDetail | Endpoint::InvoiceRefundStatus | Endpoint::NotFound => Failure::Status { status: 404 },
        Endpoint::Login => Failure::Status { status: 401 },
        Endpoint::AiAsk | Endpoint::SessionAsk => Failure::Status { status: 502 },
        Endpoint::Checkout | Endpoint::ServiceSale | Endpoint::Refund | Endpoint::Receive | Endpoint::Repack | Endpoint::StockTakeInitiate | Endpoint::StockTakeOpen | Endpoint::StockTakeHistory | Endpoint::StockTakeGet | Endpoint::StockTakeCount | Endpoint::StockTakeClose | Endpoint::SettleDebt | Endpoint::DebtSummary | Endpoint::ProfitSummary | Endpoint::RecordsList | Endpoint::RecordCreate | Endpoint::RecordUpdate | Endpoint::RecordDelete | Endpoint::ModuleExport => Failure::ByMessage,
        _ => Failure::Status { status: 400 },
    }
}

/// How an endpoint answers where it fails, by how far it came.
pub open spec fn failure_at(e: Endpoint, stage: Stage) -> Failure {
    match (stage, e) {
        (Stage::Before, Endpoint::ImportTemplate) => Failure::Status { status: 404 },
        (Stage::Before, Endpoint::ImportExcel) => Failure::Status { status: 404 },
        (Stage::Before, Endpoint::ModuleSchema) => Failure::Status { status: 404 },
        (Stage::Before, Endpoint::ModuleEnable) => Failure::Status { status: 404 },
        (Stage::Before, Endpoint::SessionAsk) => Failure::Status { status: 404 },
        (Stage::Before, Endpoint::TwoFactorLogin) => Failure::Status { status: 401 },
        (Stage::Before, Endpoint::ModuleExport) => Failure::Status { status: 400 },
        (Stage::Before, Endpoint::SetupRestore) => Failure::Status { status: 500 },
        (Stage::After, Endpoint::Login) => Failure::Status { status: 500 },
        (Stage::After, Endpoint::TwoFactorLogin) => Failure::Status { status: 500 },
        (Stage::After, Endpoint::ModuleExport) => Failure::Status { status: 500 },
        (Stage::After, Endpoint::ReportExport) => Failure::Status { status: 500 },
        (Stage::After, Endpoint::SessionAsk) => Failure::Status { status: 400 },
        (Stage::After, Endpoint::SetupCreateBusiness) => Failure::Status { status: 400 },
        _ => failure_of(e),
    }
}

fn failure_for_stage(e: Endpoint, stage: Stage) -> (f: Failure)
    ensures
        f == failure_at(e, stage),
{
    match (stage, e) {
        (Stage::Before, Endpoint::ImportTemplate) => Failure::Status { status: 404 },
        (Stage::Before, Endpoint::ImportExcel) => Failure::Status { status: 404 },
        (Stage::Before, Endpoint::ModuleSchema) => Failure::Status { status: 404 },
        (Stage::Before, Endpoint::ModuleEnable) => Failure::Status { status: 404 },
        (Stage::Before, Endpoint::SessionAsk) => Failure::Status { status: 404 },
        (Stage::Before, Endpoint::TwoFactorLogin) => Failure::Status { status: 401 },
        (Stage::Before, Endpoint::ModuleExport) => Failure::Status { status: 400 },
        (Stage::Before, Endpoint::SetupRestore) => Failure::Status { status: 500 },
        (Stage::After, Endpoint::Login) => Failure::Status { status: 500 },
        (Stage::After, Endpoint::TwoFactorLogin) => Failure::Status { status: 500 },
        (Stage::After, Endpoint::ModuleExport) => Failure::Status { status: 500 },
        (Stage::After, Endpoint::ReportExport) => Failure::Status { status: 500 },
        (Stage::After, Endpoint::SessionAsk) => Failure::Status { status: 400 },
        (Stage::After, Endpoint::SetupCreateBusiness) => Failure::Status { status: 400 },
        _ => failure_for(e),
    }
}

/// The status of a failure with that sentence.
pub fn failure_status(e: Endpoint, stage: Stage, message: &str) -> (status: u16)
    ensures
        status == (match failure_at(e, stage) {
            Failure::Status { status } => status,
            Failure::ByMessage => if begins(message@, denied_prefix()) {
                403u16
            } else {
                400u16
            },
        }),
{
    match failure_for_stage(e, stage) {
        Failure::Status { status } => status,
        Failure::ByMessage => error_status(message),
    }
}

/// What is entered into the audit log when an endpoint of its own, not of a
/// module, has done its work.
pub open spec fn audit_entry(e: Endpoint) -> Option<(Seq<char>, Seq<char>)> {
    match e {
        Endpoint::AdminBackup => Some(("_backup"@, "create"@)),
        Endpoint::AdminRestore => Some(("_backup"@, "restore_staged"@)),
        Endpoint::UserCreate => Some(("_users"@, "create_user"@)),
        Endpoint::UserRole => Some(("_users"@, "set_role"@)),
        Endpoint::UserDeactivate => Some(("_users"@, "deactivate_user"@)),
        Endpoint::RoleCreate => Some(("_roles"@, "create_role"@)),
        Endpoint::RoleDelete => Some(("_roles"@, "delete_role"@)),
        Endpoint::RoleAdminFlag => Some(("_roles"@, "set_admin_flag"@)),
        Endpoint::RoleSetPermissions => Some(("_roles"@, "set_permissions"@)),
        Endpoint::UnitCreate => Some(("_units"@, "create"@)),
        Endpoint::UnitDelete => Some(("_units"@, "delete"@)),
        Endpoint::CurrencyCreate => Some(("_currencies"@, "create"@)),
        Endpoint::CurrencyDelete => Some(("_currencies"@, "delete"@)),
        Endpoint::SettingsSet => Some(("_settings"@, "set"@)),
        Endpoint::OnboardingSetup => Some(("_onboarding"@, "apply_business_type"@)),
        Endpoint::BrandingUpdate => Some(("_business"@, "branding_update"@)),
        Endpoint::BusinessSettings => Some(("_business"@, "settings_update"@)),
        Endpoint::ModuleEnable => Some(("_modules"@, "enable"@)),
        Endpoint::ModuleDisable => Some(("_modules"@, "disable"@)),
        Endpoint::Login => Some(("_auth"@, "login_success"@)),
        Endpoint::TwoFactorLogin => Some(("_auth"@, "login_success"@)),
        _ => None,
    }
}

/// What is entered into the audit log when an endpoint has done its work.
pub fn audit_names(e: Endpoint) -> (r: Option<(&'static str, &'static str)>)
    ensures
        match r {
            Some(p) => audit_entry(e) == Some((p.0@, p.1@)),
            None => audit_entry(e) is None,
        },
{
    match e {
        Endpoint::AdminBackup => Some(("_backup", "create")),
        Endpoint::AdminRestore => Some(("_backup", "restore_staged")),
        Endpoint::UserCreate => Some(("_users", "create_user")),
        Endpoint::UserRole => Some(("_users", "set_role")),
        Endpoint::UserDeactivate => Some(("_users", "deactivate_user")),
        Endpoint::RoleCreate => Some(("_roles", "create_role")),
        Endpoint::RoleDelete => Some(("_roles", "delete_role")),
        Endpoint::RoleAdminFlag => Some(("_roles", "set_admin_flag")),
        Endpoint::RoleSetPermissions => Some(("_roles", "set_permissions")),
        Endpoint::UnitCreate => Some(("_units", "create")),
        Endpoint::UnitDelete => Some(("_units", "delete")),
        Endpoint::CurrencyCreate => Some(("_currencies", "create")),
        Endpoint::CurrencyDelete => Some(("_currencies", "delete")),
        Endpoint::SettingsSet => Some(("_settings", "set")),
        Endpoint::OnboardingSetup => Some(("_onboarding", "apply_business_type")),
        Endpoint::BrandingUpdate => Some(("_business", "branding_update")),
        Endpoint::BusinessSettings => Some(("_business", "settings_update")),
        Endpoint::ModuleEnable => Some(("_modules", "enable")),
        Endpoint::ModuleDisable => Some(("_modules", "disable")),
        Endpoint::Login => Some(("_auth", "login_success")),
        Endpoint::TwoFactorLogin => Some(("_auth", "login_success")),
        _ => None,
    }
}

/// Whatever changes users, roles, modules, reference data or settings is on
/// record, and so is every backup and restore.
pub proof fn law_changes_are_audited(e: Endpoint)
    requires
        e == Endpoint::AdminBackup || e == Endpoint::AdminRestore || e == Endpoint::UserCreate || e
            == Endpoint::UserRole || e == Endpoint::UserDeactivate || e == Endpoint::RoleCreate || e
            == Endpoint::RoleDelete || e == Endpoint::RoleAdminFlag || e == Endpoint::RoleSetPermissions || e
            == Endpoint::UnitCreate || e == Endpoint::UnitDelete || e == Endpoint::CurrencyCreate || e
            == Endpoint::CurrencyDelete || e == Endpoint::SettingsSet || e == Endpoint::ModuleEnable || e
            == Endpoint::ModuleDisable || e == Endpoint::BrandingUpdate || e == Endpoint::BusinessSettings,
    ensures
        audit_entry(e) is Some,
{
}

/// What is known of the sender of a request.
#[derive(Debug)]
pub enum Session {
    /// No token came with the request.
    Missing,
    /// The token has not been used for too long.
    Expired,
    /// The token is not one of an open session, and why.
    Invalid(String),
    /// The token is one of an open session.
    Open,
}

/// What is to become of a request.
#[derive(Debug)]
pub enum Decision {
    /// The endpoint handles it; no session is needed.
    Anyone(Endpoint),
    /// The endpoint handles it for the user of the session.
    Granted(Endpoint),
    /// It is answered with this status and sentence.
    Refused { status: u16, text: String },
}

/// What is to become of a request.
pub enum DecisionView {
    Anyone(Endpoint),
    Granted(Endpoint),
    Refused(u16, Seq<char>),
}

impl View for Decision {
    type V = DecisionView;

    open spec fn view(&self) -> DecisionView {
        match *self {
            Decision::Anyone(e) => DecisionView::Anyone(e),
            Decision::Granted(e) => DecisionView::Granted(e),
            Decision::Refused { status, text } => DecisionView::Refused(status, text@),
        }
    }
}

/// Why a guard turns a user away, where it does.
pub open spec fn guard_refusal(g: Guard, access: Option<&Access>) -> Option<AccessErrorView> {
    match g {
        Guard::Session => None,
        Guard::Owner => match access {
            None => Some(AccessErrorView::UnknownUser),
            Some(a) => if a.role@ == "Owner"@ {
                None
            } else {
                Some(AccessErrorView::NotOwner(a.role@))
            },
        },
        Guard::AdminTier => match access {
            None => Some(AccessErrorView::UnknownUser),
            Some(a) => if a.is_system || a.can_administer {
                None
            } else {
                Some(AccessErrorView::NotAdmin(a.role@))
            },
        },
        Guard::SalesRead => refusal(access, "sales"@, "read"@),
    }
}

/// What is to become of a request: an endpoint that anyone may use; else the
/// session is looked at, next the endpoint, and last what it needs.
pub open spec fn decision(m: Method, p: Seq<Seq<char>>, session: Session, access: Option<&Access>) -> DecisionView {
    match public_endpoint(m, p) {
        Some(e) => DecisionView::Anyone(e),
        None => match session {
            Session::Missing => DecisionView::Refused(401, "missing Authorization: Bearer <token>"@),
            Session::Expired => DecisionView::Refused(
                401,
                "session expired due to inactivity, please log in again"@,
            ),
            Session::Invalid(text) => DecisionView::Refused(401, text@),
            Session::Open => {
                let e = private_endpoint(m, p);
                if e == Endpoint::NotFound {
                    DecisionView::Refused(404, "not found"@)
                } else {
                    match guard_refusal(guard_of(e), access) {
                        Some(why) => DecisionView::Refused(403, why.message()),
                        None => DecisionView::Granted(e),
                    }
                }
            },
        },
    }
}

/// What is to become of a request.
pub fn route(m: Method, p: &Vec<String>, session: &Session, access: Option<&Access>) -> (d: Decision)
    ensures
        d@ == decision(m, views(p@), *session, access),
{
    match match_public(m, p) {
        Some(e) => {
            return Decision::Anyone(e);
        },
        None => {},
    }
    match session {
        Session::Missing => {
            return Decision::Refused { status: 401, text: "missing Authorization: Bearer <token>".to_owned() };
        },
        Session::Expired => {
            return Decision::Refused {
                status: 401,
                text: "session expired due to inactivity, please log in again".to_owned(),
            };
        },
        Session::Invalid(text) => {
            return Decision::Refused { status: 401, text: text.clone() };
        },
        Session::Open => {},
    }
    let e: Endpoint = match_private(m, p);
    if e == Endpoint::NotFound {
        return Decision::Refused { status: 404, text: "not found".to_owned() };
    }
    let checked = match guard_for(e) {
        Guard::Session => Ok(()),
        Guard::Owner => require_owner(access),
        Guard::AdminTier => require_admin_tier(access),
        Guard::SalesRead => require(access, "sales", "read"),
    };
    match checked {
        Ok(()) => Decision::Granted(e),
        Err(why) => Decision::Refused { status: 403, text: why.message() },
    }
}

/// Without an open session only what lies under `setup`, `uploads` and `auth`
/// is served; everything else is answered with 401, whatever it is.
pub proof fn law_business_data_needs_a_session(
    m: Method,
    p: Seq<Seq<char>>,
    session: Session,
    access: Option<&Access>,
)
    requires
        session !is Open,
    ensures
        match decision(m, p, session, access) {
            DecisionView::Anyone(e) => p.len() > 0 && (p[0] == "setup"@ || p[0] == "uploads"@ || p[0] == "auth"@),
            DecisionView::Granted(e) => false,
            DecisionView::Refused(status, text) => status == 401,
        },
{
}

/// A request without a session learns nothing of what exists: whether the
/// endpoint is there or not, the answer is the same.
pub proof fn law_unknown_paths_look_like_known_ones(
    m1: Method,
    p1: Seq<Seq<char>>,
    m2: Method,
    p2: Seq<Seq<char>>,
    session: Session,
    access: Option<&Access>,
)
    requires
        session !is Open,
        public_endpoint(m1, p1) is None,
        public_endpoint(m2, p2) is None,
    ensures
        decision(m1, p1, session, access) == decision(m2, p2, session, access),
{
}

/// What takes or replaces a whole database, hands out rights, opens or closes
/// modules, or shows the audit log is for the Owner alone.
pub proof fn law_only_the_owner(e: Endpoint, access: Option<&Access>)
    requires
        e == Endpoint::AdminBackup || e == Endpoint::AdminRestore || e == Endpoint::UserCreate || e
            == Endpoint::UserRole || e == Endpoint::UserDeactivate || e == Endpoint::RoleCreate || e
            == Endpoint::RoleDelete || e == Endpoint::RoleAdminFlag || e == Endpoint::RoleSetPermissions || e
            == Endpoint::ModuleEnable || e == Endpoint::ModuleDisable || e == Endpoint::AuditLog || e
            == Endpoint::TaxRateSet,
    ensures
        guard_refusal(guard_of(e), access) is None <==> access is Some && access->0.role@ == "Owner"@,
{
}

/// Whether an endpoint changes what is stored.
pub open spec fn changes_something(e: Endpoint) -> bool {
    match e {
        Endpoint::Checkout | Endpoint::ServiceSale | Endpoint::Refund | Endpoint::Receive | Endpoint::Repack
        | Endpoint::StockTakeInitiate | Endpoint::StockTakeCount | Endpoint::StockTakeClose | Endpoint::SettleDebt
        | Endpoint::InvoiceCreate | Endpoint::InvoiceSend | Endpoint::InvoicePay | Endpoint::InvoiceCancel
        | Endpoint::RecordCreate | Endpoint::RecordUpdate | Endpoint::RecordDelete | Endpoint::ImportExcel
        | Endpoint::UserCreate | Endpoint::UserRole | Endpoint::UserDeactivate | Endpoint::RoleCreate
        | Endpoint::RoleDelete | Endpoint::RoleAdminFlag | Endpoint::RoleSetPermissions | Endpoint::UnitCreate
        | Endpoint::UnitDelete | Endpoint::CurrencyCreate | Endpoint::CurrencyDelete | Endpoint::SettingsSet
        | Endpoint::ModuleEnable | Endpoint::ModuleDisable | Endpoint::AdminRestore | Endpoint::TaxRateSet
        | Endpoint::SessionClear | Endpoint::SessionDelete | Endpoint::OnboardingSetup | Endpoint::Logout => true,
        _ => false,
    }
}

/// A request that only reads leads to nothing that changes what is stored, and a
/// request to delete leads to nothing but a deletion.
pub proof fn law_reading_changes_nothing(p: Seq<Seq<char>>)
    ensures
        !changes_something(private_endpoint(Method::Get, p)),
        match private_endpoint(Method::Delete, p) {
            Endpoint::RecordDelete | Endpoint::RoleDelete | Endpoint::UnitDelete | Endpoint::CurrencyDelete
            | Endpoint::SessionDelete | Endpoint::UserDeactivate | Endpoint::NotFound => true,
            _ => false,
        },
{
}

/// The first segments of the paths, told apart by their lengths and beginnings.
proof fn lemma_first_segments()
    ensures
        "auth"@.len() == 4 && "admin"@.len() == 5 && "business"@.len() == 8 && "users"@.len() == 5 && "roles"@.len() == 5 && "units"@.len() == 5 && "currencies"@.len() == 10 && "settings"@.len() == 8 && "pos"@.len() == 3 && "sales"@.len() == 5 && "purchasing"@.len() == 10 && "inventory"@.len() == 9 && "debt_credit"@.len() == 11 && "audit-log"@.len() == 9 && "onboarding"@.len() == 10 && "notifications"@.len() == 13 && "ai"@.len() == 2 && "customers"@.len() == 9 && "invoices"@.len() == 8 && "tax"@.len() == 3 && "currency"@.len() == 8 && "modules"@.len() == 7,
        "auth"@[0] == 'a' && "auth"@[1] == 'u' && "admin"@[0] == 'a' && "admin"@[1] == 'd' && "business"@[0] == 'b' && "business"@[1] == 'u' && "users"@[0] == 'u' && "users"@[1] == 's' && "roles"@[0] == 'r' && "roles"@[1] == 'o' && "units"@[0] == 'u' && "units"@[1] == 'n' && "currencies"@[0] == 'c' && "currencies"@[1] == 'u' && "settings"@[0] == 's' && "settings"@[1] == 'e' && "pos"@[0] == 'p' && "pos"@[1] == 'o' && "sales"@[0] == 's' && "sales"@[1] == 'a' && "purchasing"@[0] == 'p' && "purchasing"@[1] == 'u' && "inventory"@[0] == 'i' && "inventory"@[1] == 'n' && "debt_credit"@[0] == 'd' && "debt_credit"@[1] == 'e' && "audit-log"@[0] == 'a' && "audit-log"@[1] == 'u' && "onboarding"@[0] == 'o' && "onboarding"@[1] == 'n' && "notifications"@[0] == 'n' && "notifications"@[1] == 'o' && "ai"@[0] == 'a' && "ai"@[1] == 'i' && "customers"@[0] == 'c' && "customers"@[1] == 'u' && "invoices"@[0] == 'i' && "invoices"@[1] == 'n' && "tax"@[0] == 't' && "tax"@[1] == 'a' && "currency"@[0] == 'c' && "currency"@[1] == 'u' && "modules"@[0] == 'm' && "modules"@[1] == 'o',
{
    reveal_strlit("auth");
    reveal_strlit("admin");
    reveal_strlit("business");
    reveal_strlit("users");
    reveal_strlit("roles");
    reveal_strlit("units");
    reveal_strlit("currencies");
    reveal_strlit("settings");
    reveal_strlit("pos");
    reveal_strlit("sales");
    reveal_strlit("purchasing");
    reveal_strlit("inventory");
    reveal_strlit("debt_credit");
    reveal_strlit("audit-log");
    reveal_strlit("onboarding");
    reveal_strlit("notifications");
    reveal_strlit("ai");
    reveal_strlit("customers");
    reveal_strlit("invoices");
    reveal_strlit("tax");
    reveal_strlit("currency");
    reveal_strlit("modules");
}

/// A path leads to the action that it names: selling, settling, the steps of an
/// invoice, and the records of a module by the method of the request.
pub proof fn law_paths_lead_to_what_they_name(m: Method, p: Seq<Seq<char>>)
    ensures
        ({
            let e = private_endpoint(m, p);
            let posts = |head: Seq<char>, tail: Seq<char>| m == Method::Post && p.len() == 2 && p[0] == head && p[1] == tail;
            let steps = |tail: Seq<char>| m == Method::Post && p.len() == 3 && p[0] == "invoices"@ && p[2] == tail;
            let records = p.len() >= 3 && p[0] == "modules"@ && p[2] == "records"@;
            &&& e == Endpoint::Checkout <==> posts("pos"@, "checkout"@)
            &&& e == Endpoint::ServiceSale <==> posts("pos"@, "service-sale"@)
            &&& e == Endpoint::SettleDebt <==> posts("debt_credit"@, "settle"@)
            &&& e == Endpoint::Repack <==> posts("inventory"@, "repack"@)
            &&& e == Endpoint::Refund <==> posts("sales"@, "refund"@)
            &&& e == Endpoint::Receive <==> posts("purchasing"@, "receive"@)
            &&& e == Endpoint::InvoiceCreate <==> m == Method::Post && p.len() == 1 && p[0] == "invoices"@
            &&& e == Endpoint::InvoiceSend <==> steps("send"@)
            &&& e == Endpoint::InvoicePay <==> steps("pay"@)
            &&& e == Endpoint::InvoiceCancel <==> steps("cancel"@)
            &&& e == Endpoint::RecordsList <==> records && m == Method::Get && p.len() == 3
            &&& e == Endpoint::RecordCreate <==> records && m == Method::Post && p.len() == 3
            &&& e == Endpoint::RecordUpdate <==> records && m == Method::Put && p.len() > 3
            &&& e == Endpoint::RecordDelete <==> records && m == Method::Delete && p.len() > 3
            &&& e == Endpoint::ModuleEnable ==> m == Method::Post && p.len() == 3 && p[0] == "modules"@ && p[2]
                == "enable"@
            &&& e == Endpoint::ModuleDisable ==> m == Method::Post && p.len() == 3 && p[0] == "modules"@ && p[2]
                == "disable"@
            &&& e == Endpoint::AdminBackup ==> p.len() == 2 && p[0] == "admin"@ && p[1] == "backup"@
            &&& e == Endpoint::AdminRestore ==> p.len() == 2 && p[0] == "admin"@ && p[1] == "restore"@
        }),
{
    lemma_first_segments();
    reveal_strlit("send");
    reveal_strlit("pay");
    reveal_strlit("cancel");
    reveal_strlit("checkout");
    reveal_strlit("service-sale");
    assert("send"@.len() == 4 && "pay"@.len() == 3 && "cancel"@.len() == 6 && "checkout"@.len() == 8
        && "service-sale"@.len() == 12);
}

/// Who may use an endpoint that takes more than a session: users, roles, modules,
/// backups and the audit log are the Owner's; settings of the business take
/// administrative rights; customers are shown to whoever may read sales.
pub proof fn law_who_may_use_an_endpoint(e: Endpoint, access: Option<&Access>)
    ensures
        ({
            let allowed = guard_refusal(guard_of(e), access) is None;
            let owner = access is Some && access->0.role@ == "Owner"@;
            let admin = access is Some && (access->0.is_system || access->0.can_administer);
            match e {
                Endpoint::AdminBackup | Endpoint::AdminRestore | Endpoint::BusinessSettings | Endpoint::UsersList
                | Endpoint::UserCreate | Endpoint::UserRole | Endpoint::UserDeactivate | Endpoint::RoleCreate
                | Endpoint::RoleDelete | Endpoint::RoleAdminFlag | Endpoint::RolePermissions
                | Endpoint::RoleSetPermissions | Endpoint::AuditLog | Endpoint::OnboardingSetup | Endpoint::TaxRateSet
                | Endpoint::CurrencyRefresh | Endpoint::ModuleEnable | Endpoint::ModuleDisable => allowed <==> owner,
                Endpoint::BrandingUpdate | Endpoint::UnitCreate | Endpoint::UnitDelete | Endpoint::CurrencyCreate
                | Endpoint::CurrencyDelete | Endpoint::SettingsSet | Endpoint::NotificationSend
                | Endpoint::LowStockAlert | Endpoint::AiSettings => allowed <==> admin,
                Endpoint::CustomersList | Endpoint::CustomersSearch | Endpoint::CustomerDetail => allowed <==> access is Some
                    && crate::rbac::granted(access->0.permissions@, "sales"@, "read"@),
                _ => allowed,
            }
        }),
{
}

/// Something new is answered as such, and what is not there, not signed in or not
/// answered by another service as that.
pub proof fn law_answers_say_what_happened(e: Endpoint)
    ensures
        success_of(e) == 201 ==> changes_something(e) || e == Endpoint::SetupCreateBusiness,
        success_of(e) == 200 || success_of(e) == 201,
        success_of(Endpoint::RecordCreate) == 201 && success_of(Endpoint::InvoiceCreate) == 201,
        failure_of(Endpoint::Login) == (Failure::Status { status: 401 }),
        failure_of(Endpoint::NotFound) == (Failure::Status { status: 404 }),
        failure_of(Endpoint::AiAsk) == (Failure::Status { status: 502 }),
        failure_of(Endpoint::Checkout) is ByMessage && failure_of(Endpoint::SettleDebt) is ByMessage,
{
}

/// Every other endpoint is reached by a method and a path of its own, and by no other.
pub proof fn law_endpoints_have_a_path_of_their_own(m: Method, p: Seq<Seq<char>>)
    ensures
        ({
            let e = private_endpoint(m, p);
            &&& e == Endpoint::Logout ==> m == Method::Post && p.len() == 2 && p[0] == "auth"@ && p[1] == "logout"@
            &&& e == Endpoint::Me ==> m == Method::Get && p.len() == 2 && p[0] == "auth"@ && p[1] == "me"@
            &&& e == Endpoint::TwoFactorSetup ==> m == Method::Post && p.len() == 3 && p[0] == "auth"@ && p[1] == "2fa"@ && p[2] == "setup"@
            &&& e == Endpoint::TwoFactorVerify ==> m == Method::Post && p.len() == 3 && p[0] == "auth"@ && p[1] == "2fa"@ && p[2] == "verify"@
            &&& e == Endpoint::TwoFactorStatus ==> m == Method::Get && p.len() == 3 && p[0] == "auth"@ && p[1] == "2fa"@ && p[2] == "status"@
            &&& e == Endpoint::TwoFactorDisable ==> m == Method::Post && p.len() == 3 && p[0] == "auth"@ && p[1] == "2fa"@ && p[2] == "disable"@
            &&& e == Endpoint::AdminBackup ==> m == Method::Post && p.len() == 2 && p[0] == "admin"@ && p[1] == "backup"@
            &&& e == Endpoint::AdminRestore ==> m == Method::Post && p.len() == 2 && p[0] == "admin"@ && p[1] == "restore"@
            &&& e == Endpoint::Business ==> m == Method::Get && p.len() == 1 && p[0] == "business"@
            &&& e == Endpoint::BrandingGet ==> m == Method::Get && p.len() == 2 && p[0] == "business"@ && p[1] == "branding"@
            &&& e == Endpoint::BrandingUpdate ==> m == Method::Put && p.len() == 2 && p[0] == "business"@ && p[1] == "branding"@
            &&& e == Endpoint::BusinessSettings ==> m == Method::Post && p.len() == 2 && p[0] == "business"@ && p[1] == "settings"@
            &&& e == Endpoint::UsersList ==> m == Method::Get && p.len() == 1 && p[0] == "users"@
            &&& e == Endpoint::UserCreate ==> m == Method::Post && p.len() == 1 && p[0] == "users"@
            &&& e == Endpoint::UserRole ==> m == Method::Put && p.len() == 3 && p[0] == "users"@ && p[2] == "role"@
            &&& e == Endpoint::UserDeactivate ==> m == Method::Delete && p.len() == 2 && p[0] == "users"@
            &&& e == Endpoint::RolesList ==> m == Method::Get && p.len() == 1 && p[0] == "roles"@
            &&& e == Endpoint::RoleCreate ==> m == Method::Post && p.len() == 1 && p[0] == "roles"@
            &&& e == Endpoint::RoleDelete ==> m == Method::Delete && p.len() == 2 && p[0] == "roles"@
            &&& e == Endpoint::RoleAdminFlag ==> m == Method::Put && p.len() == 3 && p[0] == "roles"@ && p[2] == "admin-flag"@
            &&& e == Endpoint::RolePermissions ==> m == Method::Get && p.len() == 3 && p[0] == "roles"@ && p[2] == "permissions"@
            &&& e == Endpoint::RoleSetPermissions ==> m == Method::Put && p.len() == 3 && p[0] == "roles"@ && p[2] == "permissions"@
            &&& e == Endpoint::UnitsList ==> m == Method::Get && p.len() == 1 && p[0] == "units"@
            &&& e == Endpoint::UnitCreate ==> m == Method::Post && p.len() == 1 && p[0] == "units"@
            &&& e == Endpoint::UnitDelete ==> m == Method::Delete && p.len() == 2 && p[0] == "units"@
            &&& e == Endpoint::CurrenciesList ==> m == Method::Get && p.len() == 1 && p[0] == "currencies"@
            &&& e == Endpoint::CurrencyCreate ==> m == Method::Post && p.len() == 1 && p[0] == "currencies"@
            &&& e == Endpoint::CurrencyDelete ==> m == Method::Delete && p.len() == 2 && p[0] == "currencies"@
            &&& e == Endpoint::SettingsGet ==> m == Method::Get && p.len() == 1 && p[0] == "settings"@
            &&& e == Endpoint::SettingsSet ==> m == Method::Put && p.len() == 1 && p[0] == "settings"@
            &&& e == Endpoint::Order ==> m == Method::Get && p.len() == 3 && p[0] == "pos"@ && p[1] == "orders"@
            &&& e == Endpoint::Receipt ==> m == Method::Get && p.len() == 3 && p[0] == "pos"@ && p[1] == "receipt"@
            &&& e == Endpoint::ProfitSummary ==> m == Method::Get && p.len() == 2 && p[0] == "sales"@ && p[1] == "profit-summary"@
            &&& e == Endpoint::StockTakeInitiate ==> m == Method::Post && p.len() == 3 && p[0] == "inventory"@ && p[1] == "stocktake"@ && p[2] == "initiate"@
            &&& e == Endpoint::StockTakeOpen ==> m == Method::Get && p.len() == 3 && p[0] == "inventory"@ && p[1] == "stocktake"@ && p[2] == "open"@
            &&& e == Endpoint::StockTakeHistory ==> m == Method::Get && p.len() == 3 && p[0] == "inventory"@ && p[1] == "stocktake"@ && p[2] == "history"@
            &&& e == Endpoint::StockTakeGet ==> m == Method::Get && p.len() == 3 && p[0] == "inventory"@ && p[1] == "stocktake"@
            &&& e == Endpoint::StockTakeCount ==> m == Method::Post && p.len() == 3 && p[0] == "inventory"@ && p[1] == "stocktake"@ && p[2] == "count"@
            &&& e == Endpoint::StockTakeClose ==> m == Method::Post && p.len() == 4 && p[0] == "inventory"@ && p[1] == "stocktake"@ && p[3] == "close"@
            &&& e == Endpoint::DebtSummary ==> m == Method::Get && p.len() == 2 && p[0] == "debt_credit"@ && p[1] == "summary"@
            &&& e == Endpoint::AuditLog ==> m == Method::Get && p.len() == 1 && p[0] == "audit-log"@
            &&& e == Endpoint::OnboardingSetup ==> m == Method::Post && p.len() == 2 && p[0] == "onboarding"@ && p[1] == "setup"@
            &&& e == Endpoint::NotificationSend ==> m == Method::Post && p.len() == 2 && p[0] == "notifications"@ && p[1] == "send"@
            &&& e == Endpoint::LowStockAlert ==> m == Method::Post && p.len() == 2 && p[0] == "notifications"@ && p[1] == "low-stock-alert"@
            &&& e == Endpoint::NotificationsList ==> m == Method::Get && p.len() == 1 && p[0] == "notifications"@
            &&& e == Endpoint::AiSettings ==> m == Method::Get && p.len() == 2 && p[0] == "ai"@ && p[1] == "settings"@
            &&& e == Endpoint::AiContext ==> m == Method::Get && p.len() == 2 && p[0] == "ai"@ && p[1] == "context"@
            &&& e == Endpoint::AiAsk ==> m == Method::Post && p.len() == 2 && p[0] == "ai"@ && p[1] == "ask"@
            &&& e == Endpoint::SessionsList ==> m == Method::Get && p.len() == 2 && p[0] == "ai"@ && p[1] == "sessions"@
            &&& e == Endpoint::SessionCreate ==> m == Method::Post && p.len() == 2 && p[0] == "ai"@ && p[1] == "sessions"@
            &&& e == Endpoint::SessionsExport ==> m == Method::Get && p.len() == 3 && p[0] == "ai"@ && p[1] == "sessions"@ && p[2] == "export.xlsx"@
            &&& e == Endpoint::SessionMessages ==> m == Method::Get && p.len() == 4 && p[0] == "ai"@ && p[1] == "sessions"@ && p[3] == "messages"@
            &&& e == Endpoint::SessionAsk ==> m == Method::Post && p.len() == 4 && p[0] == "ai"@ && p[1] == "sessions"@ && p[3] == "ask"@
            &&& e == Endpoint::SessionClear ==> m == Method::Post && p.len() == 4 && p[0] == "ai"@ && p[1] == "sessions"@ && p[3] == "clear"@
            &&& e == Endpoint::SessionDelete ==> m == Method::Delete && p.len() == 3 && p[0] == "ai"@ && p[1] == "sessions"@
            &&& e == Endpoint::CustomersList ==> m == Method::Get && p.len() == 1 && p[0] == "customers"@
            &&& e == Endpoint::CustomersSearch ==> m == Method::Get && p.len() == 2 && p[0] == "customers"@ && p[1] == "search"@
            &&& e == Endpoint::CustomerDetail ==> m == Method::Get && p.len() == 2 && p[0] == "customers"@
            &&& e == Endpoint::InvoiceRefundStatus ==> m == Method::Get && p.len() == 3 && p[0] == "invoices"@ && p[2] == "refund-status"@
            &&& e == Endpoint::TaxRates ==> m == Method::Get && p.len() == 2 && p[0] == "tax"@ && p[1] == "rates"@
            &&& e == Endpoint::TaxRateSet ==> m == Method::Post && p.len() == 2 && p[0] == "tax"@ && p[1] == "rates"@
            &&& e == Endpoint::TaxCompute ==> m == Method::Post && p.len() == 2 && p[0] == "tax"@ && p[1] == "compute"@
            &&& e == Endpoint::CurrencyRates ==> m == Method::Get && p.len() == 2 && p[0] == "currency"@ && p[1] == "rates"@
            &&& e == Endpoint::CurrencyConvert ==> m == Method::Post && p.len() == 2 && p[0] == "currency"@ && p[1] == "convert"@
            &&& e == Endpoint::CurrencyRefresh ==> m == Method::Post && p.len() == 2 && p[0] == "currency"@ && p[1] == "refresh"@
            &&& e == Endpoint::ImportTemplate ==> m == Method::Get && p.len() == 3 && p[0] == "modules"@ && p[2] == "import-template"@
            &&& e == Endpoint::ImportExcel ==> m == Method::Post && p.len() == 3 && p[0] == "modules"@ && p[2] == "import-excel"@
            &&& e == Endpoint::ModulesList ==> m == Method::Get && p.len() == 1 && p[0] == "modules"@
            &&& e == Endpoint::ModuleSchema ==> m == Method::Get && p.len() == 3 && p[0] == "modules"@ && p[2] == "schema"@
            &&& e == Endpoint::ModuleExport ==> m == Method::Get && p.len() == 3 && p[0] == "modules"@ && p[2] == "export"@
            &&& e == Endpoint::ModuleReport ==> m == Method::Get && p.len() == 3 && p[0] == "modules"@ && p[2] == "report"@
            &&& e == Endpoint::ReportExport ==> m == Method::Get && p.len() == 4 && p[0] == "modules"@ && p[2] == "report"@ && p[3] == "export"@
            &&& e == Endpoint::Forecast ==> m == Method::Get && p.len() == 3 && p[0] == "modules"@ && p[2] == "forecast"@
            &&& e == Endpoint::ModulesAvailable ==> m == Method::Get && p.len() == 2 && p[0] == "modules"@ && p[1] == "available"@
            &&& e == Endpoint::ModuleEnable ==> m == Method::Post && p.len() == 3 && p[0] == "modules"@ && p[2] == "enable"@
            &&& e == Endpoint::ModuleDisable ==> m == Method::Post && p.len() == 3 && p[0] == "modules"@ && p[2] == "disable"@
        }),
        ({
            let e = public_endpoint(m, p);
            &&& e == Some(Endpoint::SetupStatus) ==> m == Method::Get && p.len() == 2 && p[0] == "setup"@ && p[1] == "status"@
            &&& e == Some(Endpoint::SetupDiagnostics) ==> m == Method::Get && p.len() == 2 && p[0] == "setup"@ && p[1] == "diagnostics"@
            &&& e == Some(Endpoint::SetupBusinessId) ==> m == Method::Get && p.len() == 2 && p[0] == "setup"@ && p[1] == "business-id"@
            &&& e == Some(Endpoint::SetupBranding) ==> m == Method::Get && p.len() == 2 && p[0] == "setup"@ && p[1] == "branding"@
            &&& e == Some(Endpoint::SetupCreateBusiness) ==> m == Method::Post && p.len() == 2 && p[0] == "setup"@ && p[1] == "create-business"@
            &&& e == Some(Endpoint::SetupRestore) ==> m == Method::Post && p.len() == 2 && p[0] == "setup"@ && p[1] == "restore"@
            &&& e == Some(Endpoint::Upload) ==> m == Method::Get && p.len() == 2 && p[0] == "uploads"@
            &&& e == Some(Endpoint::Login) ==> m == Method::Post && p.len() == 2 && p[0] == "auth"@ && p[1] == "login"@
            &&& e == Some(Endpoint::TwoFactorLogin) ==> m == Method::Post && p.len() == 3 && p[0] == "auth"@ && p[1] == "2fa"@ && p[2] == "login"@
            &&& e == Some(Endpoint::RecoveryQuestions) ==> m == Method::Get && p.len() == 3 && p[0] == "auth"@ && p[1] == "recover"@ && p[2] == "security-questions"@
            &&& e == Some(Endpoint::RecoverByQuestions) ==> m == Method::Post && p.len() == 3 && p[0] == "auth"@ && p[1] == "recover"@ && p[2] == "security-questions"@
            &&& e == Some(Endpoint::RecoverByAdminCode) ==> m == Method::Post && p.len() == 3 && p[0] == "auth"@ && p[1] == "recover"@ && p[2] == "admin-code"@
        }),
{
}

/// What is recorded of an action names what it was done to and what was done; what
/// changes nothing of the kind is not recorded.
pub proof fn law_actions_are_recorded_by_name(e: Endpoint)
    ensures
        match e {
            Endpoint::AdminBackup => audit_entry(e) == Some(("_backup"@, "create"@)),
            Endpoint::AdminRestore => audit_entry(e) == Some(("_backup"@, "restore_staged"@)),
            Endpoint::UserCreate => audit_entry(e) == Some(("_users"@, "create_user"@)),
            Endpoint::UserRole => audit_entry(e) == Some(("_users"@, "set_role"@)),
            Endpoint::UserDeactivate => audit_entry(e) == Some(("_users"@, "deactivate_user"@)),
            Endpoint::RoleCreate => audit_entry(e) == Some(("_roles"@, "create_role"@)),
            Endpoint::RoleDelete => audit_entry(e) == Some(("_roles"@, "delete_role"@)),
            Endpoint::RoleAdminFlag => audit_entry(e) == Some(("_roles"@, "set_admin_flag"@)),
            Endpoint::RoleSetPermissions => audit_entry(e) == Some(("_roles"@, "set_permissions"@)),
            Endpoint::UnitCreate => audit_entry(e) == Some(("_units"@, "create"@)),
            Endpoint::UnitDelete => audit_entry(e) == Some(("_units"@, "delete"@)),
            Endpoint::CurrencyCreate => audit_entry(e) == Some(("_currencies"@, "create"@)),
            Endpoint::CurrencyDelete => audit_entry(e) == Some(("_currencies"@, "delete"@)),
            Endpoint::SettingsSet => audit_entry(e) == Some(("_settings"@, "set"@)),
            Endpoint::OnboardingSetup => audit_entry(e) == Some(("_onboarding"@, "apply_business_type"@)),
            Endpoint::BrandingUpdate => audit_entry(e) == Some(("_business"@, "branding_update"@)),
            Endpoint::BusinessSettings => audit_entry(e) == Some(("_business"@, "settings_update"@)),
            Endpoint::ModuleEnable => audit_entry(e) == Some(("_modules"@, "enable"@)),
            Endpoint::ModuleDisable => audit_entry(e) == Some(("_modules"@, "disable"@)),
            Endpoint::Login | Endpoint::TwoFactorLogin => audit_entry(e) == Some(("_auth"@, "login_success"@)),
            _ => audit_entry(e) is None,
        },
{
}

} // verus!
