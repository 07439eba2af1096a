use sme_pro::auth::{
    admin_code_result, auth_error_text, hash_secret, login, login_result, normalize_answer, questions_result,
    recover_via_admin_code, recover_via_security_questions, set_security_questions, verify_secret, AuthError,
    RecoveryRow, UserRow,
};
use sme_pro::customers::{
    customer_key, find_or_create, is_sale_of, lifetime_value, normalize_phone, search, usable_name, usable_phone, CustomerAction,
    CustomerKey,
};
use sme_pro::rate_limit::RateLimiter;
use sme_pro::rbac::{
    error_status, is_allowed, require, require_admin_tier, require_owner, require_role, Access, AccessError, Permission,
};

fn cashier() -> Access {
    Access {
        user_id: "u1".to_string(),
        role: "Cashier".to_string(),
        is_system: false,
        can_administer: false,
        can_view_reports: false,
        permissions: vec![Permission { module_id: "sales".to_string(), action: "read".to_string() }],
    }
}

fn owner() -> Access {
    Access {
        user_id: "o1".to_string(),
        role: "Owner".to_string(),
        is_system: true,
        can_administer: false,
        can_view_reports: false,
        permissions: Vec::new(),
    }
}

#[test]
fn phones_are_compared_without_formatting() {
    assert_eq!(normalize_phone("+254 (700) 12-34.56"), normalize_phone("+254700123456"));
    let once = normalize_phone("0700 123 456");
    assert_eq!(normalize_phone(&once), once);
    assert_eq!(usable_phone(Some("  ")), None);
    assert_eq!(usable_name(Some(" Ann ")), Some("Ann".to_string()));
    assert_eq!(usable_name(None), None);
}

#[test]
fn a_phone_decides_who_a_customer_is() {
    match customer_key(Some("Ann"), Some("0700 123")).unwrap() {
        CustomerKey::Phone { phone, name } => {
            assert_eq!(phone, normalize_phone("0700 123"));
            assert_eq!(name, Some("Ann".to_string()));
        },
        other => panic!("{other:?}"),
    }
    match customer_key(Some("Ann"), None).unwrap() {
        CustomerKey::Name { known_as } => assert_eq!(known_as, "Ann"),
        other => panic!("{other:?}"),
    }
    assert!(customer_key(None, Some("")).is_none());
}

#[test]
fn customers_are_found_before_they_are_made() {
    let key = customer_key(Some("Ann"), Some("0700123")).unwrap();
    match find_or_create(key, Some("c1".to_string())) {
        CustomerAction::Use { id, .. } => assert_eq!(id, "c1"),
        other => panic!("{other:?}"),
    }
    let key = customer_key(Some("Ann"), None).unwrap();
    match find_or_create(key, None) {
        CustomerAction::Create { name, phone } => {
            assert_eq!(name, Some("Ann".to_string()));
            assert_eq!(phone, None);
        },
        other => panic!("{other:?}"),
    }
}

#[test]
fn customers_are_searched_by_phone_only_with_digits() {
    let q = search("ann").unwrap();
    assert!(q.phone.is_none());
    let q = search("0700").unwrap();
    assert!(q.phone.is_some());
    assert!(search("  ").is_none());
    assert_eq!(lifetime_value(&vec![5, 7, -2]), 10);
}

#[test]
fn a_phone_owns_its_sales() {
    let t = |s: &str| Some(s.to_string());
    assert!(is_sale_of(&t("0700"), &t("Ann"), &t("0700"), &None));
    assert!(!is_sale_of(&t("0701"), &t("Ann"), &t("0700"), &t("Ann")));
    assert!(!is_sale_of(&None, &t("Ann"), &t("0700"), &t("Ann")));
    assert!(is_sale_of(&None, &t("Ann"), &None, &t("ANN")));
    assert!(is_sale_of(&None, &t("Ann"), &t(""), &t("ann")));
    assert!(!is_sale_of(&None, &t("Ann"), &None, &t("Anna")));
    assert!(!is_sale_of(&None, &None, &None, &None));
}

#[test]
fn permissions_decide() {
    let a = cashier();
    assert!(is_allowed(&a, "sales", "read"));
    assert!(!is_allowed(&a, "sales", "create"));
    assert!(require(Some(&a), "sales", "read").is_ok());
    let e = require(Some(&a), "sales", "create").unwrap_err();
    assert_eq!(e.message(), "permission denied: user u1 cannot 'create' on module 'sales'");
    assert_eq!(error_status(&e.message()), 403);
    assert_eq!(error_status("something else"), 400);
}

#[test]
fn owners_and_administrators() {
    assert!(require_owner(Some(&owner())).is_ok());
    let e = require_owner(Some(&cashier())).unwrap_err();
    assert_eq!(e.message(), "this action is restricted to the business Owner (your role: Cashier)");
    assert!(matches!(require_owner(None), Err(AccessError::UnknownUser)));
    assert!(require_admin_tier(Some(&owner())).is_ok());
    let mut manager = cashier();
    manager.can_administer = true;
    assert!(require_admin_tier(Some(&manager)).is_ok());
    assert!(matches!(require_admin_tier(Some(&cashier())), Err(AccessError::NotAdmin { .. })));
    assert!(require_role(Some(&cashier()), &vec!["Cashier".to_string()]).is_ok());
    assert!(matches!(require_role(Some(&cashier()), &vec!["Owner".to_string()]), Err(AccessError::NotInRoles { .. })));
}

#[test]
fn attempts_are_limited_within_a_window() {
    let second = 1_000_000_000u64;
    let mut limiter = RateLimiter::new(2, 10 * second);
    assert_eq!(limiter.check("a", 0), Ok(()));
    assert_eq!(limiter.check("a", second), Ok(()));
    assert_eq!(limiter.check("a", 2 * second), Err(8));
    assert_eq!(limiter.check("b", 2 * second), Ok(()));
    assert_eq!(limiter.check("a", 10 * second), Ok(()));
    limiter.reset("a");
    assert_eq!(limiter.check("a", 10 * second), Ok(()));
    assert_eq!(limiter.check("a", 10 * second), Ok(()));
    assert_eq!(limiter.check("a", 10 * second), Err(10));
}

#[test]
fn refused_attempts_do_not_count() {
    let mut limiter = RateLimiter::new(1, 10);
    assert_eq!(limiter.check("a", 0), Ok(()));
    assert!(limiter.check("a", 5).is_err());
    assert!(limiter.check("a", 9).is_err());
    assert_eq!(limiter.check("a", 10), Ok(()));
    assert!(limiter.check("a", 19).is_err());
}

#[test]
fn hashed_secrets_are_recognised() {
    assert!(hash_secret("").is_ok());
    let h = hash_secret("correct horse").unwrap();
    assert_ne!(h, "correct horse");
    assert!(h.starts_with("$argon2"));
    assert!(verify_secret("correct horse", &h));
    assert!(!verify_secret("wrong horse", &h));
    assert!(!verify_secret("correct horse", "not a hash"));
    assert_ne!(hash_secret("correct horse").unwrap(), h);
}

#[test]
fn sign_in_says_the_same_of_both_mistakes() {
    let row = UserRow { id: "u".to_string(), password_hash: hash_secret("pw").unwrap() };
    let s = login(Some(&row), "pw").unwrap();
    assert_eq!(s.user_id, "u");
    assert_eq!(s.token.len(), 36);
    for (i, c) in s.token.chars().enumerate() {
        match i {
            8 | 13 | 18 | 23 => assert_eq!(c, '-'),
            14 => assert_eq!(c, '4'),
            19 => assert!("89ab".contains(c)),
            _ => assert!("0123456789abcdef".contains(c)),
        }
    }
    assert_eq!(s.lifetime_hours, 12);
    assert_eq!(login(Some(&row), "no").unwrap_err(), AuthError::InvalidLogin);
    assert_eq!(login(None, "pw").unwrap_err(), AuthError::InvalidLogin);
    assert_ne!(login(Some(&row), "pw").unwrap().token, s.token);
    assert_eq!(login_result(true, true), Ok(()));
    assert_eq!(login_result(true, false), login_result(false, true));
}

#[test]
fn security_answers_are_compared_loosely() {
    assert_eq!(normalize_answer("  BLUE\t"), "blue");
    let h = set_security_questions(" Blue", "Rex ").unwrap();
    let row = RecoveryRow {
        user_id: "u".to_string(),
        answer1_hash: Some(h.answer1),
        answer2_hash: Some(h.answer2),
    };
    let reset = recover_via_security_questions(Some(&row), "blue ", "REX", "new password").unwrap();
    assert_eq!(reset.user_id, "u");
    assert!(verify_secret("new password", &reset.password_hash));
    assert_eq!(
        recover_via_security_questions(Some(&row), "red", "rex", "x").unwrap_err(),
        AuthError::WrongAnswers
    );
    assert_eq!(
        recover_via_security_questions(Some(&row), "blue", "max", "x").unwrap_err(),
        AuthError::WrongAnswers
    );
    let none = RecoveryRow { user_id: "u".to_string(), answer1_hash: None, answer2_hash: None };
    assert_eq!(recover_via_security_questions(Some(&none), "a", "b", "x").unwrap_err(), AuthError::NoQuestions);
    assert_eq!(recover_via_security_questions(None, "a", "b", "x").unwrap_err(), AuthError::AccountNotFound);
    assert_eq!(questions_result(true, true, true, true), Ok(()));
}

#[test]
fn the_admin_code_is_the_last_resort() {
    let h = Some(hash_secret("AC-ABCD-2345").unwrap());
    let user = Some("u".to_string());
    assert!(recover_via_admin_code(&h, "AC-ABCD-2345", &user, "new").is_ok());
    assert_eq!(recover_via_admin_code(&h, "AC-0000-0000", &user, "new").unwrap_err(), AuthError::WrongAdminCode);
    assert_eq!(recover_via_admin_code(&h, "AC-ABCD-2345", &None, "new").unwrap_err(), AuthError::AccountNotFound);
    assert_eq!(recover_via_admin_code(&None, "AC-ABCD-2345", &user, "new").unwrap_err(), AuthError::NoAdminCode);
    assert_eq!(admin_code_result(true, true, true), Ok(()));
    for e in [
        AuthError::InvalidLogin,
        AuthError::AccountNotFound,
        AuthError::NoQuestions,
        AuthError::WrongAnswers,
        AuthError::NoAdminCode,
        AuthError::WrongAdminCode,
        AuthError::HashingFailed,
    ] {
        assert!(!auth_error_text(e).is_empty());
    }
}
