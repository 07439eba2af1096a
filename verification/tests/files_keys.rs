use ed25519_dalek::Verifier;
use sme_pro::backup::{
    create_backup, backup_error_text, check_passphrase, passphrase_statement, stage_restore, validation_result,
    wrapped_key_of, BackupError, RestoreInput,
};
use sme_pro::business_branding::{
    branding_error_text, check_logo, check_slogan, logo_file_name, logo_kind, logo_url, mime_type, read_logo, serve_logo,
    update_branding, BrandingError, LogoKind,
};
use sme_pro::business_panel::{
    admin_code, any_business_exists, available_modules, generate_admin_code, unknown_module_text, unknown_role_text,
    update_columns,
};
use sme_pro::codec::{hex_digit_value, is_all_hex};
use sme_pro::db::{key_of, key_path_for, key_statement, new_key, pending_restore_names, read_key};
use sme_pro::db_migrations::{
    ColumnInfo, IndexInfo, customers_statements, fixed_statements, minor_units_per_unit,
    missing_settlement_fields, money_rebuild, record_statement, run, scope_rebuild, settlement_statements,
    stock_take_grant, with_stock_take,
};
use sme_pro::module::{FieldDef, ModuleDef};
use sme_pro::network_mode::{bind_address, load, runs_server, NetworkModeConfig};
use sme_pro::offline_keygen::{
    base32_encode, generate_keypair, group_with_dashes, issue, key_error_text, key_pair_of, license_key,
    read_private_key, KeyError,
};
use sme_pro::onboarding::{apply_business_type, preset_modules};
use sme_pro::registry::{collect_modules, is_bundled, module_json, modules_dir, ModuleEntry};

fn texts(list: &[&str]) -> Vec<String> {
    list.iter().map(|s| s.to_string()).collect()
}

fn hex_text(bytes: &[u8]) -> String {
    hex::encode(bytes)
}

/// Reads the letters of the key alphabet back into bytes.
fn base32_bytes(s: &str) -> Vec<u8> {
    let alphabet = "0123456789ABCDEFGHJKMNPQRSTVWXYZ";
    let mut bits: Vec<u8> = Vec::new();
    for c in s.chars() {
        let v = alphabet.find(c).unwrap();
        for k in (0..5).rev() {
            bits.push(((v >> k) & 1) as u8);
        }
    }
    bits.chunks_exact(8).map(|b| b.iter().fold(0u8, |n, x| n * 2 + x)).collect()
}

#[test]
fn hex_digits_have_values() {
    for c in ' '..'~' {
        assert_eq!(hex_digit_value(c).map(u32::from), c.to_digit(16));
    }
    assert!(is_all_hex("00aF"));
    assert!(!is_all_hex("0g"));
}

#[test]
fn keys_are_written_in_groups() {
    assert_eq!(base32_encode(&vec![0xff, 0x00]), "ZW00");
    assert_eq!(base32_encode(&Vec::new()), "");
    assert_eq!(group_with_dashes("ABCDEFG", 3), "ABC-DEF-G");
    let key = license_key(&vec![1u8; 8], &vec![2u8; 64]);
    assert!(key.starts_with("SPK-"));
    let letters: String = key[4..].chars().filter(|c| *c != '-').collect();
    let mut expected = vec![1u8; 8];
    expected.extend(vec![2u8; 64]);
    assert_eq!(base32_bytes(&letters), expected);
}

#[test]
fn issued_keys_are_signed() {
    let private: Vec<u8> = (0u8..32).collect();
    let pair = key_pair_of(&private);
    assert_eq!(pair.private_hex, hex_text(&private));
    let public: [u8; 32] = hex::decode(&pair.public_hex).unwrap().try_into().unwrap();
    let verifying = ed25519_dalek::VerifyingKey::from_bytes(&public).unwrap();
    let key = issue(&pair.private_hex).unwrap();
    let letters: String = key[4..].chars().filter(|c| *c != '-').collect();
    let bytes = base32_bytes(&letters);
    let signature = ed25519_dalek::Signature::from_bytes(bytes[8..72].try_into().unwrap());
    assert!(verifying.verify(&bytes[..8], &signature).is_ok());
    assert_ne!(issue(&pair.private_hex).unwrap(), key);
}

#[test]
fn private_keys_are_read_with_care() {
    assert_eq!(read_private_key(&hex_text(&[7u8; 32])).unwrap(), vec![7u8; 32]);
    assert_eq!(read_private_key("zz").unwrap_err(), KeyError::NotHex);
    assert_eq!(read_private_key("aabb").unwrap_err(), KeyError::WrongLength);
    assert_eq!(issue("aabb").unwrap_err(), KeyError::WrongLength);
    for e in [KeyError::NotHex, KeyError::WrongLength] {
        assert!(!key_error_text(e).is_empty());
    }
    let pair = generate_keypair();
    assert_eq!(pair.private_hex.len(), 64);
    assert!(issue(&pair.private_hex).is_ok());
    assert_ne!(generate_keypair().private_hex, pair.private_hex);
}

#[test]
fn database_keys_come_back() {
    assert_eq!(key_path_for(&Some("shop.db".to_string())), "shop.db.key");
    assert_eq!(key_path_for(&None), "erp.key");
    let p = pending_restore_names(&Some("shop.db".to_string()));
    assert_eq!(p.database, "shop.db.restore-pending");
    assert_eq!(p.key, "shop.db.key.restore-pending");
    let k = key_of(&vec![0xabu8; 32]);
    assert_eq!(k, "ab".repeat(32));
    assert_eq!(read_key(&format!(" {k}\n")), Some(k.clone()));
    assert_eq!(read_key("abc"), None);
    assert_eq!(read_key(&"g".repeat(64)), None);
    let fresh = new_key();
    assert_eq!(read_key(&fresh), Some(fresh.clone()));
    assert_ne!(new_key(), fresh);
    assert!(key_statement(&k).contains(&k));
}

#[test]
fn a_restore_reads_what_a_backup_wrote() {
    let database = vec![1u8, 2, 3];
    let key = "cd".repeat(32);
    let wrapped = vec![9u8, 8];
    let b = create_backup(&database, &wrapped, "2026-05-01T00:00:00Z");
    assert_eq!(b.database_base64, "AQID");
    let input = RestoreInput {
        database_base64: b.database_base64,
        wrapped_key_base64: b.wrapped_key_base64,
        passphrase: "long enough".to_string(),
    };
    assert_eq!(wrapped_key_of(&input).unwrap(), wrapped);
    let staged = stage_restore(&input, &key).unwrap();
    assert_eq!(staged.database, database);
    assert_eq!(staged.key_hex, key);
    assert_eq!(stage_restore(&input, "short").unwrap_err(), BackupError::NoKey);
    let broken = RestoreInput {
        database_base64: "*".to_string(),
        wrapped_key_base64: "*".to_string(),
        passphrase: "x".to_string(),
    };
    assert_eq!(wrapped_key_of(&broken).unwrap_err(), BackupError::BadKeySection);
    assert_eq!(stage_restore(&broken, &key).unwrap_err(), BackupError::BadDatabase);
}

#[test]
fn passphrases_are_long_and_quoted() {
    assert_eq!(check_passphrase("1234567"), Err(BackupError::ShortPassphrase));
    assert_eq!(check_passphrase("éééééééé"), Ok(()));
    assert!(passphrase_statement("it's mine").contains("it''s mine"));
    assert_eq!(validation_result(false, false), Err(BackupError::CannotOpen));
    assert_eq!(validation_result(true, false), Err(BackupError::NotOurs));
    assert_eq!(validation_result(true, true), Ok(()));
    for e in [
        BackupError::ShortPassphrase,
        BackupError::BadKeySection,
        BackupError::NoKey,
        BackupError::BadDatabase,
        BackupError::CannotOpen,
        BackupError::NotOurs,
    ] {
        assert!(!backup_error_text(e).is_empty());
    }
}

#[test]
fn logos_are_known_by_their_bytes() {
    let png = vec![0x89, b'P', b'N', b'G', 0x0d, 0x0a, 0x1a, 0x0a, 0, 0];
    assert_eq!(logo_kind(&png), Some(LogoKind::Png));
    assert_eq!(logo_kind(&vec![0xff, 0xd8, 0xff, 0xe0, 0, 0, 0, 0]), Some(LogoKind::Jpg));
    assert_eq!(logo_kind(&b"<svg xmlns='x'></svg>".to_vec()), Some(LogoKind::Svg));
    assert_eq!(logo_kind(&b"GIF89a..........".to_vec()), None);
    assert_eq!(check_logo(&vec![0u8; 3]), Err(BrandingError::LogoTooSmall));
    assert_eq!(check_logo(&vec![0u8; 2_097_153]), Err(BrandingError::LogoTooLarge));
    assert_eq!(check_logo(&vec![0u8; 100]), Err(BrandingError::UnknownImage));
    assert_eq!(check_logo(&png), Ok(LogoKind::Png));
    assert!(logo_file_name("biz", LogoKind::Jpg).ends_with(".jpg"));
    assert_eq!(mime_type(&Some("png".to_string())), "image/png");
    assert_eq!(mime_type(&None), "application/octet-stream");
    let path = |s: &str| s.split('/').map(String::from).collect::<Vec<String>>();
    let dir = path("/data/uploads");
    assert_eq!(serve_logo(&path("/data/uploads/a.png"), &dir, &Some("png".to_string())), Some("image/png"));
    assert_eq!(serve_logo(&path("/data/uploads2/a.png"), &dir, &Some("png".to_string())), None);
    assert_eq!(serve_logo(&path("/etc"), &dir, &None), None);
    assert!(logo_url("x.png").ends_with("x.png"));
}

#[test]
fn branding_is_updated_whole() {
    let png = "iVBORw0KGgoAAA==".to_string();
    let logo = read_logo("biz", &png).unwrap();
    assert_eq!(logo.bytes[..4], [0x89, b'P', b'N', b'G']);
    let u = update_branding("biz", &Some(png.clone()), &Some("  We sell  ".to_string())).unwrap();
    assert!(u.logo.is_some());
    assert_eq!(u.slogan, Some("We sell".to_string()));
    assert_eq!(update_branding("biz", &Some("*".to_string()), &None).err(), Some(BrandingError::NotBase64));
    assert_eq!(update_branding("biz", &Some("".to_string()), &None).err(), Some(BrandingError::EmptyLogo));
    assert_eq!(check_slogan(&"x".repeat(201)).err(), Some(BrandingError::SloganTooLong));
    for e in [
        BrandingError::EmptyLogo,
        BrandingError::NotBase64,
        BrandingError::LogoTooLarge,
        BrandingError::LogoTooSmall,
        BrandingError::UnknownImage,
        BrandingError::SloganTooLong,
    ] {
        assert!(!branding_error_text(e).is_empty());
    }
}

#[test]
fn admin_codes_are_readable() {
    let code = generate_admin_code();
    assert!(code.starts_with("AC-"));
    assert!(!code.contains('O') && !code.contains('I'));
    assert_eq!(admin_code(&vec![0; 8]), admin_code(&vec![0; 8]));
    assert_ne!(admin_code(&vec![0; 8]), admin_code(&vec![1; 8]));
    assert!(!any_business_exists(0));
    assert!(any_business_exists(1));
}

#[test]
fn modules_are_listed_by_name() {
    let list = available_modules(&texts(&["s", "a"]), &texts(&["Sales", "Accounting"]), &texts(&["s"]));
    assert_eq!(list[0].display_name, "Accounting");
    assert!(!list[0].enabled);
    assert_eq!(list[1].id, "s");
    assert!(list[1].enabled);
    assert!(unknown_module_text("zoo").contains("zoo"));
    assert!(unknown_role_text("King").contains("King"));
    assert_eq!(update_columns(&None, &Some("USD".to_string()), false).len(), 1);
}

#[test]
fn presets_name_bundled_modules() {
    let list = preset_modules("retail").unwrap();
    assert!(!list.is_empty());
    for id in &list {
        assert!(is_bundled(id));
    }
    assert!(preset_modules("spaceport").is_err());
    let ids = ["accounting", "debt_credit", "hr", "inventory", "invoice", "purchasing", "refunds", "sales"];
    let entries = |skip: &str| -> Vec<ModuleEntry> {
        ids.iter()
            .filter(|id| **id != skip)
            .map(|id| ModuleEntry { id: id.to_string(), json: format!("{{{id}}}") })
            .collect()
    };
    assert_eq!(collect_modules(&entries("hr")).unwrap_err(), "hr");
    let defs = collect_modules(&entries("")).unwrap();
    for id in ids {
        assert_eq!(module_json(&defs, id), Some(format!("{{{id}}}").as_str()));
    }
    assert_eq!(module_json(&defs, "zoo"), None);
    assert_eq!(module_json(&defs, "Sales"), None);
    assert_eq!(apply_business_type("retail", &defs).unwrap(), list);
    for kind in ["retail", "food", "services", "manufacturing"] {
        let list = preset_modules(kind).unwrap();
        for (i, id) in list.iter().enumerate() {
            assert!(!list[..i].contains(id));
        }
    }
    assert_eq!(modules_dir(&Some("/m".to_string()), "/own"), "/m");
}

#[test]
fn only_a_host_is_reachable() {
    let c = |mode: &str| NetworkModeConfig { mode: mode.to_string(), host_address: None };
    assert_eq!(bind_address(&load(None)), "127.0.0.1:8080");
    assert!(runs_server(&load(None)));
    assert_eq!(bind_address(&c("host")), "0.0.0.0:8080");
    assert!(!runs_server(&c("client")));
}

fn field(name: &str, ty: &str, unique: bool) -> FieldDef {
    FieldDef {
        name: name.to_string(),
        field_type: ty.to_string(),
        required: false,
        unique,
        default: None,
        min: None,
        min_field: None,
        min_field_message: None,
    }
}

fn shop() -> ModuleDef {
    ModuleDef {
        id: "shop".to_string(),
        display_name: "Shop".to_string(),
        fields: vec![field("code", "text", true), field("price", "money", false)],
        actions: Vec::new(),
        default_roles: Vec::new(),
        dashboard_metric: None,
        date_field: None,
    }
}

fn column(name: &str, ty: &str) -> ColumnInfo {
    ColumnInfo { name: name.to_string(), type_text: ty.to_string() }
}

#[test]
fn migrations_run_once_and_resume() {
    assert_eq!(run(0), (1..=13).collect::<Vec<i32>>());
    assert_eq!(run(11), vec![12, 13]);
    assert!(run(13).is_empty());
    assert!(record_statement(4).contains('4'));
    assert!(fixed_statements(99).is_empty());
    assert_ne!(customers_statements(true), customers_statements(false));
}

#[test]
fn actions_and_fields_are_added_once() {
    let added = with_stock_take(&texts(&["read"])).unwrap();
    assert_eq!(added.len(), 2);
    assert_eq!(with_stock_take(&added), None);
    let none: Vec<String> = Vec::new();
    let missing = missing_settlement_fields("debt_credit", &none);
    assert!(!missing.is_empty());
    assert!(missing_settlement_fields("debt_credit", &missing).is_empty());
    assert!(settlement_statements(&None, &None).is_empty());
    assert!(!settlement_statements(&Some(texts(&["id"])), &None).is_empty());
}

#[test]
fn money_columns_become_whole_numbers_once() {
    let none = texts(&["", ""]);
    let old = vec![column("id", "TEXT"), column("code", "TEXT"), column("price", "REAL")];
    let r = money_rebuild(&shop(), &old, &texts(&["USD", "JPY"]), &none).unwrap().unwrap();
    assert_eq!(r.copies.len(), 2);
    assert!(r.copies[0].contains("ROUND(t.price * 100)"));
    assert!(r.copies[1].contains("ROUND(t.price * 1)"));
    assert!(r.create.contains("price INTEGER"));
    let new = vec![column("id", "TEXT"), column("code", "TEXT"), column("price", "INTEGER")];
    assert!(money_rebuild(&shop(), &new, &texts(&["USD"]), &none).unwrap().is_none());
    assert_eq!(minor_units_per_unit("KWD"), 1000);
}

#[test]
fn unique_fields_become_unique_within_a_business() {
    let none = texts(&["", ""]);
    let cols = vec![column("id", "TEXT"), column("code", "TEXT"), column("price", "INTEGER")];
    let old = vec![IndexInfo { unique: true, of_constraint: true, columns: texts(&["code"]) }];
    let r = scope_rebuild(&shop(), &cols, &old, &none).unwrap().unwrap();
    assert!(r.create.contains("UNIQUE(business_id, code)"));
    let new = vec![IndexInfo { unique: true, of_constraint: true, columns: texts(&["business_id", "code"]) }];
    assert!(scope_rebuild(&shop(), &cols, &new, &none).unwrap().is_none());
}

#[test]
fn only_owners_and_managers_are_let_into_stock_takes() {
    assert_eq!(
        stock_take_grant(),
        "INSERT INTO permissions (id, role_id, module_id, action) \
         SELECT lower(hex(randomblob(16))), id, 'inventory', 'stocktake' FROM roles \
         WHERE business_id = ?1 AND name IN ('Owner', 'Manager') \
         ON CONFLICT(role_id, module_id, action) DO NOTHING"
    );
}
