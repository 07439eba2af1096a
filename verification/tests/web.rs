use hmac::Mac;
use sme_pro::http_api::{
    audit_query, backup_passphrase, bearer_token, begin_attempt, build_report, business_type_of, finish_login,
    finish_recovery, forecast_request, get_param, header_value, import_file, measure_label, my_permissions, path_parts,
    query_params, question_of, restore_refusal, setup_request, urlish_decode, Attempt, Dimension, ForecastMethod, HeaderLine, LoginStep,
};
use sme_pro::license::LicenseError;
use sme_pro::notifications::{
    check_address, check_parts, low_stock_message, notification_error_text, provider_from, send, twilio_request,
    Delivery, LowItem, NotificationError, Provider,
};
use sme_pro::payment::{
    apply_payment, audit_action, basic_credentials, create_checkout_session, find_pending_intent, handle_callback,
    handle_webhook_event, initiate_stk_push, mpesa_base_url, payment_error_text, read_signature, stk_description, stk_password,
    verify_webhook_signature, LicenseEntry, PaymentError, PaymentIntent, Purpose,
};
use sme_pro::rate_limit::RateLimiter;
use sme_pro::rbac::{Access, Permission};
use sme_pro::routes::{
    audit_names, failure_status, guard_for, match_private, match_public, route, success_status, Decision, Endpoint,
    Guard, Method, Session, Stage,
};
use sme_pro::value::Record;

fn parts(url: &str) -> Vec<String> {
    path_parts(url)
}

fn owner() -> Access {
    Access {
        user_id: "o".to_string(),
        role: "Owner".to_string(),
        is_system: true,
        can_administer: true,
        can_view_reports: false,
        permissions: vec![Permission { module_id: "sales".to_string(), action: "read".to_string() }],
    }
}

fn clerk() -> Access {
    Access {
        user_id: "c".to_string(),
        role: "Clerk".to_string(),
        is_system: false,
        can_administer: false,
        can_view_reports: false,
        permissions: Vec::new(),
    }
}

#[test]
fn paths_ignore_extra_slashes_and_queries() {
    assert_eq!(parts("/a/b?x=1"), vec!["a", "b"]);
    assert_eq!(parts("//a///b/"), vec!["a", "b"]);
    assert_eq!(parts("/"), Vec::<String>::new());
}

#[test]
fn query_values_are_decoded() {
    assert_eq!(urlish_decode("a+b%20c%2F"), "a b c/");
    assert_eq!(urlish_decode("plain"), "plain");
    assert_eq!(urlish_decode("100%zz1"), "1001");
    let q = query_params("/x?search=blue+soap&limit=5&limit=7&flag");
    assert_eq!(get_param(&q, "search"), Some("blue soap".to_string()));
    assert_eq!(get_param(&q, "limit"), Some("7".to_string()));
    assert_eq!(get_param(&q, "none"), None);
}

#[test]
fn headers_are_found_in_any_case() {
    let h = vec![HeaderLine { name: "AUTHORIZATION".to_string(), value: "Bearer abc".to_string() }];
    assert_eq!(header_value(&h, "Authorization"), Some("Bearer abc".to_string()));
    assert_eq!(header_value(&h, "Cookie"), None);
    assert_eq!(bearer_token("Bearer abc"), Some("abc".to_string()));
    assert_eq!(bearer_token("Basic abc"), None);
}

#[test]
fn attempts_are_counted_by_kind() {
    let mut limiter = RateLimiter::new(1, 60_000_000_000);
    let b = Some("biz".to_string());
    let key = begin_attempt(&mut limiter, Attempt::Login, &b, "ann", 0).unwrap();
    assert_eq!(key, "login:biz:ann");
    let refused = begin_attempt(&mut limiter, Attempt::Login, &b, "ann", 0).unwrap_err();
    assert_eq!(refused.status, 429);
    assert_eq!(refused.text, "too many login attempts, try again in 60 seconds");
    assert_eq!(
        begin_attempt(&mut limiter, Attempt::SecurityQuestions, &b, "ann", 0).unwrap(),
        "recover-sq:biz:ann"
    );
    assert_eq!(begin_attempt(&mut limiter, Attempt::AdminCode, &b, "ann", 0).unwrap(), "recover-admin:biz");
    assert!(matches!(finish_login(&mut limiter, &key, &Some("no".to_string()), false), LoginStep::Wrong(_)));
    assert!(begin_attempt(&mut limiter, Attempt::Login, &b, "ann", 0).is_err());
    assert!(matches!(finish_login(&mut limiter, &key, &None, true), LoginStep::AskForCode));
    assert!(matches!(finish_login(&mut limiter, &key, &None, false), LoginStep::OpenSession));
    assert!(begin_attempt(&mut limiter, Attempt::Login, &b, "ann", 0).is_ok());
}

#[test]
fn a_recovery_forgets_its_attempts() {
    let mut limiter = RateLimiter::new(1, 60_000_000_000);
    let b = Some("biz".to_string());
    let key = begin_attempt(&mut limiter, Attempt::AdminCode, &b, "ann", 0).unwrap();
    let refused = finish_recovery(&mut limiter, &key, &Some("no".to_string())).unwrap_err();
    assert_eq!((refused.status, refused.text.as_str()), (400, "no"));
    assert!(begin_attempt(&mut limiter, Attempt::AdminCode, &b, "ann", 0).is_err());
    assert!(finish_recovery(&mut limiter, &key, &None).is_ok());
    assert!(begin_attempt(&mut limiter, Attempt::AdminCode, &b, "ann", 0).is_ok());
    assert!(begin_attempt(&mut limiter, Attempt::Login, &None, "ann", 0).is_err());
}

#[test]
fn forecasts_are_read_from_the_query() {
    let ask = |q: &str| forecast_request(&query_params(&format!("/f?{q}")));
    assert_eq!(ask("bucket=day").unwrap_err().status, 400);
    let f = ask("measure=revenue").unwrap();
    assert_eq!((f.measure.as_str(), f.bucket.as_str()), ("revenue", "month"));
    assert_eq!(f.method, ForecastMethod::MovingAverage { window: 3 });
    assert_eq!(ask("measure=r&window=12").unwrap().method, ForecastMethod::MovingAverage { window: 12 });
    assert_eq!(ask("measure=r&window=-1").unwrap().method, ForecastMethod::MovingAverage { window: 3 });
    assert_eq!(
        ask("measure=r&window=18446744073709551615").unwrap().method,
        ForecastMethod::MovingAverage { window: u64::MAX }
    );
    assert_eq!(
        ask("measure=r&window=18446744073709551616").unwrap().method,
        ForecastMethod::MovingAverage { window: 3 }
    );
    assert_eq!(
        ask("measure=r&method=exponential_smoothing").unwrap().method,
        ForecastMethod::Smoothing { weight: 0.5f64.to_bits() }
    );
    assert_eq!(
        ask("measure=r&method=exponential_smoothing&alpha=0.25").unwrap().method,
        ForecastMethod::Smoothing { weight: 0.25f64.to_bits() }
    );
}

#[test]
fn backups_and_onboarding_need_their_words() {
    let mut body = Record::new();
    assert_eq!(backup_passphrase(&None).unwrap_err().status, 400);
    assert!(backup_passphrase(&Some(body.copy())).is_err());
    assert!(business_type_of(&None).is_err());
    assert!(business_type_of(&Some(body.copy())).is_err());
    body.insert_text("passphrase", "long enough");
    body.insert_text("business_type", "retail");
    assert_eq!(backup_passphrase(&Some(body.copy())).unwrap(), "long enough");
    assert_eq!(business_type_of(&Some(body)).unwrap(), "retail");
    assert_eq!(restore_refusal(true).unwrap().status, 409);
    assert!(restore_refusal(false).is_none());
}

#[test]
fn an_import_brings_its_file() {
    assert_eq!(import_file(&None).unwrap_err().text, "invalid body");
    let mut body = Record::new();
    assert_eq!(import_file(&Some(body.copy())).unwrap_err().text, "'file_base64' is required");
    body.insert_text("file_base64", "UEs=");
    let f = import_file(&Some(body.copy())).unwrap();
    assert_eq!(f.bytes, b"PK".to_vec());
    assert_eq!(f.key_field, None);
    body.insert_text("key_field", "sku");
    assert_eq!(import_file(&Some(body.copy())).unwrap().key_field, Some("sku".to_string()));
    body.insert_text("file_base64", "UEs");
    let e = import_file(&Some(body)).unwrap_err();
    assert_eq!((e.status, e.text.as_str()), (400, "invalid base64 file data: Invalid padding"));
}

#[test]
fn a_business_is_set_up_once() {
    let mut body = Record::new();
    body.insert_text("business_name", "Shop");
    body.insert_text("owner_username", "ann");
    body.insert_text("owner_password", "long password");
    body.insert_text("security_q1", "q1");
    body.insert_text("security_a1", "a1");
    body.insert_text("security_q2", "q2");
    body.insert_text("security_a2", "a2");
    let r = setup_request(false, &Some(body.copy()), &None).unwrap();
    assert_eq!(r.business_name, "Shop");
    assert_eq!(r.currency, "USD");
    assert!(setup_request(true, &Some(body.copy()), &None).is_err());
    assert!(setup_request(false, &None, &None).is_err());
    assert!(setup_request(false, &Some(body.copy()), &Some("weak".to_string())).is_err());
    body.remove("security_a2");
    assert!(setup_request(false, &Some(body), &None).is_err());
}

#[test]
fn audit_and_reports_are_asked_for_in_the_query() {
    let q = audit_query(&query_params("/audit?module_id=sales&limit=5000"));
    assert_eq!(q.limit, 1000);
    assert_eq!(q.filters, vec!["sales".to_string()]);
    assert_eq!(audit_query(&query_params("/audit")).limit, 100);
    let r = build_report(&query_params("/r?measure=revenue&aggregation=sum&dimension=time&bucket=month")).unwrap();
    assert_eq!(r.measure, Some("revenue".to_string()));
    assert!(matches!(r.dimension, Dimension::Time { bucket, .. } if bucket == "month"));
    let r = build_report(&query_params("/r?aggregation=count")).unwrap();
    assert!(matches!(r.dimension, Dimension::Whole));
    assert!(!measure_label(&query_params("/r")).is_empty());
    let mut body = Record::new();
    body.insert_text("question", "How are sales?");
    assert_eq!(question_of(&Some(body)).unwrap(), "How are sales?");
    assert!(question_of(&None).is_err());
    let actions = vec!["read".to_string(), "create".to_string()];
    assert_eq!(my_permissions(&owner(), "sales", &actions), vec!["read".to_string()]);
}

#[test]
fn business_data_needs_a_session() {
    let p = parts("/modules");
    assert!(matches!(
        route(Method::Get, &p, &Session::Missing, None),
        Decision::Refused { status: 401, .. }
    ));
    assert!(matches!(
        route(Method::Get, &p, &Session::Expired, None),
        Decision::Refused { status: 401, .. }
    ));
    let o = owner();
    assert!(matches!(
        route(Method::Get, &p, &Session::Open, Some(&o)),
        Decision::Granted(Endpoint::ModulesList)
    ));
    assert!(matches!(
        route(Method::Get, &parts("/no/such/place/at/all"), &Session::Missing, None),
        Decision::Refused { status: 401, .. }
    ));
    assert_eq!(match_private(Method::Other, &p), Endpoint::NotFound);
}

#[test]
fn some_places_are_open_to_anyone() {
    assert_eq!(match_public(Method::Get, &parts("/setup/status")), Some(Endpoint::SetupStatus));
    assert!(matches!(
        route(Method::Get, &parts("/setup/status"), &Session::Missing, None),
        Decision::Anyone(Endpoint::SetupStatus)
    ));
    assert_eq!(match_public(Method::Get, &parts("/modules")), None);
}

#[test]
fn owner_places_are_for_the_owner() {
    assert_eq!(guard_for(Endpoint::AdminBackup), Guard::Owner);
    let p = parts("/admin/backup");
    let c = clerk();
    let o = owner();
    assert!(matches!(
        route(Method::Post, &p, &Session::Open, Some(&c)),
        Decision::Refused { status: 403, .. }
    ));
    assert!(matches!(
        route(Method::Post, &p, &Session::Open, Some(&o)),
        Decision::Granted(Endpoint::AdminBackup)
    ));
}

#[test]
fn answers_have_their_statuses() {
    assert_eq!(success_status(Endpoint::RecordCreate), 201);
    assert_eq!(success_status(Endpoint::RecordsList), 200);
    assert_eq!(
        failure_status(Endpoint::RecordCreate, Stage::Work, "permission denied: user u cannot 'create' on module 'm'"),
        403
    );
    assert_eq!(failure_status(Endpoint::RecordCreate, Stage::Work, "missing required field"), 400);
    for (e, stage, status) in [
        (Endpoint::ImportTemplate, Stage::Before, 404),
        (Endpoint::ImportTemplate, Stage::Work, 500),
        (Endpoint::ImportExcel, Stage::Before, 404),
        (Endpoint::ImportExcel, Stage::Work, 400),
        (Endpoint::ModuleSchema, Stage::Before, 404),
        (Endpoint::ModuleSchema, Stage::Work, 500),
        (Endpoint::SetupCreateBusiness, Stage::Work, 500),
        (Endpoint::SetupCreateBusiness, Stage::After, 400),
        (Endpoint::Login, Stage::Work, 401),
        (Endpoint::Login, Stage::After, 500),
        (Endpoint::SessionAsk, Stage::Before, 404),
        (Endpoint::SessionAsk, Stage::Work, 502),
        (Endpoint::SessionAsk, Stage::After, 400),
        (Endpoint::ReportExport, Stage::After, 500),
    ] {
        assert_eq!(failure_status(e, stage, "why"), status);
    }
    assert_eq!(audit_names(Endpoint::RecordsList), None);
    assert!(audit_names(Endpoint::RoleCreate).is_some());
}

fn intents() -> Vec<PaymentIntent> {
    let i = |r: &str, purpose: &str, status: &str| PaymentIntent {
        provider_reference: r.to_string(),
        business_id: "biz".to_string(),
        purpose: purpose.to_string(),
        status: status.to_string(),
    };
    vec![
        i("r1", "activation", "pending"),
        i("r2", "subscription", "pending"),
        i("r3", "activation", "succeeded"),
        i("r4", "gift", "pending"),
    ]
}

fn licenses(activated: i64) -> Vec<LicenseEntry> {
    vec![LicenseEntry { business_id: "biz".to_string(), activated, next_due_date: "2026-05-10".to_string() }]
}

fn today() -> i32 {
    sme_pro::dates::date_day("2026-05-01").unwrap()
}

#[test]
fn webhooks_carry_a_signature() {
    let mut mac = hmac::Hmac::<sha2::Sha256>::new_from_slice(b"secret").unwrap();
    mac.update(b"123.{\"a\":1}");
    let code = hex::encode(mac.finalize().into_bytes());
    let header = format!("t=123,v1={code}");
    assert_eq!(read_signature(&header), Some(("123".to_string(), code.clone())));
    assert!(verify_webhook_signature("{\"a\":1}", &header, "secret").is_ok());
    assert!(matches!(
        verify_webhook_signature("{\"a\":2}", &header, "secret"),
        Err(PaymentError::WrongSignature)
    ));
    assert!(matches!(
        verify_webhook_signature("{\"a\":1}", &header, "other"),
        Err(PaymentError::WrongSignature)
    ));
    assert!(matches!(verify_webhook_signature("x", "t=1", "secret"), Err(PaymentError::MalformedSignature)));
}

#[test]
fn a_payment_renews_the_license() {
    let session = Some("r1".to_string());
    let plan = handle_webhook_event("checkout.session.completed", &session, &intents(), &Vec::new(), today())
        .unwrap()
        .unwrap();
    assert_eq!(plan.purpose, Purpose::Activation);
    assert_eq!(plan.business_id, "biz");
    let change = plan.license.unwrap();
    assert!(change.first);
    assert_eq!(change.dates.next_due, "2026-05-31");
    let plan = handle_callback(&Some("r2".to_string()), Some(0), &intents(), &licenses(1), today()).unwrap().unwrap();
    assert_eq!(plan.license.unwrap().dates.next_due, "2026-06-09");
    let plan = handle_callback(&Some("r2".to_string()), Some(1032), &intents(), &licenses(1), today()).unwrap().unwrap();
    assert!(plan.license.is_none());
    assert_eq!(plan.status, "failed");
    assert!(handle_webhook_event("invoice.created", &session, &intents(), &Vec::new(), today()).unwrap().is_none());
}

#[test]
fn payments_fail_for_their_reasons() {
    assert!(matches!(find_pending_intent(&intents(), "r3"), Err(PaymentError::NoPendingIntent { .. })));
    assert!(matches!(find_pending_intent(&intents(), "r4"), Err(PaymentError::UnknownPurpose { .. })));
    let errors = vec![
        handle_webhook_event("checkout.session.completed", &None, &intents(), &Vec::new(), today()).err().unwrap(),
        handle_callback(&None, Some(0), &intents(), &Vec::new(), today()).err().unwrap(),
        handle_callback(&Some("r1".to_string()), None, &intents(), &Vec::new(), today()).err().unwrap(),
        handle_callback(&Some("r2".to_string()), Some(0), &intents(), &Vec::new(), today()).err().unwrap(),
        Purpose::parse("gift").err().unwrap(),
    ];
    assert!(matches!(errors[0], PaymentError::MissingSessionId));
    assert!(matches!(errors[1], PaymentError::MissingRequestId));
    assert!(matches!(errors[2], PaymentError::MissingResultCode));
    assert!(matches!(errors[3], PaymentError::License { why: LicenseError::NoLicense }));
    assert!(matches!(&errors[4], PaymentError::UnknownPurpose { named } if named == "gift"));
    for e in errors {
        assert!(!payment_error_text(&e).is_empty());
    }
    assert!(apply_payment(Purpose::Subscription, None, None, today()).is_err());
    assert_ne!(audit_action(Purpose::Activation), audit_action(Purpose::Subscription));
    assert_eq!(Purpose::parse(Purpose::Activation.as_str()).unwrap(), Purpose::Activation);
}

#[test]
fn payment_requests_are_filled_in() {
    let form = create_checkout_session("biz", Purpose::Activation, 5000, "usd", "https://ok", "https://no");
    let value = |name: &str| form.iter().find(|f| f.name == name).map(|f| f.value.clone());
    assert_eq!(value("success_url"), Some("https://ok".to_string()));
    assert_eq!(value("cancel_url"), Some("https://no".to_string()));
    assert!(form.iter().any(|f| f.value == "5000"));
    assert_ne!(stk_description(Purpose::Activation), stk_description(Purpose::Subscription));
    assert_ne!(mpesa_base_url(&None), mpesa_base_url(&Some("production".to_string())));
    assert_eq!(stk_password("174379", "key", "20260501"), "MTc0Mzc5a2V5MjAyNjA1MDE=");
    assert_eq!(basic_credentials("a", "b"), "Basic YTpi");
    let push = initiate_stk_push("174379", "key", "20260501", "254700", "https://cb", "biz", Purpose::Subscription);
    let field = |name: &str| push.iter().find(|f| f.name == name).map(|f| f.value.clone());
    assert_eq!(field("Password"), Some("MTc0Mzc5a2V5MjAyNjA1MDE=".to_string()));
    assert_eq!(field("PartyA"), Some("254700".to_string()));
    assert_eq!(field("AccountReference"), Some("biz".to_string()));
    assert_eq!(field("TransactionDesc"), Some("Ledger and Counter Subscription".to_string()));
    assert_eq!(push.len(), 10);
}

#[test]
fn notifications_are_checked_and_sent() {
    assert_eq!(provider_from(&None), Provider::Log);
    assert_eq!(provider_from(&Some("twilio".to_string())), Provider::Twilio);
    let n = send("sms", "+254700", "hi", Delivery::Sent).unwrap();
    assert_eq!((n.status.as_str(), n.id.len()), ("sent", 36));
    assert_ne!(send("sms", "+254700", "hi", Delivery::Sent).unwrap().id, n.id);
    assert_eq!(send("sms", "+254700", "hi", Delivery::Failed).unwrap().status, "failed");
    assert_eq!(send("fax", "+254700", "hi", Delivery::Sent).unwrap_err(), NotificationError::UnknownChannel);
    assert_eq!(check_parts("sms", "", "hi"), Err(NotificationError::MissingParts));
    assert_eq!(check_address("", "x"), Err(NotificationError::MissingAddress));
    for e in [NotificationError::UnknownChannel, NotificationError::MissingParts, NotificationError::MissingAddress] {
        assert!(!notification_error_text(e).is_empty());
    }
    let r = twilio_request("AC1", "tok", "+1", "whatsapp", "+2", "hi");
    assert_eq!(r.to, "whatsapp:+2");
    assert_eq!(r.from, "whatsapp:+1");
    assert_eq!(r.authorization, "Basic QUMxOnRvaw==");
    assert!(r.url.contains("AC1"));
    let item = LowItem {
        module_id: "inventory".to_string(),
        name: None,
        quantity: "2".to_string(),
        reorder_level: "5".to_string(),
    };
    let text = low_stock_message(&vec![item]);
    assert!(text.contains('?') && text.contains('2') && text.contains('5'));
}
