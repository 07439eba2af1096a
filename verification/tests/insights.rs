use sme_pro::ai_assistant::{
    fallback_error_text, key_is_set, model_for, next_request, prepare, provider_for, resolve_key, send, shown_provider,
    status_error_text, AiSettings, ConfiguredNames, Provider, Turn,
};
use sme_pro::ai_chat::{
    assert_owns_session, chat_error_text, empty_title, export_rows, export_to_xlsx, record_turn, session_title,
    ChatHistory, ChatMessage, ChatNotFound, ChatSession,
};
use sme_pro::ai_context::{build_snapshot, count_sql, details_sql, low_stock_sql, module_plan, Details, Insights};
use sme_pro::basket_analysis::{sales_not_enabled_text, top_pairs, BasketError};
use sme_pro::business_pulse::{compute, is_comparable, low_stock_total, recommendations, PulseInput};
use sme_pro::crash_report::{
    init, is_report, opt_out_setting, report_name, reporting_allowed, target_of, was_sent, ReportTarget,
};
use sme_pro::currency::{get_rate, is_usable, rates_stale, refresh_due, RateChoice};
use sme_pro::excel_import::cell_to_string;
use sme_pro::forecast::{
    check_weight, forecast_error_text, moving_average_name, moving_average_start, ForecastError,
};
use sme_pro::dates::date_day;
use sme_pro::module::{FieldDef, ModuleDef};
use sme_pro::profit::{
    by_category, by_item, by_item_trend, category_conditions, do_amounts_fit, item_limit, margin_trend, period_days,
    push_range_conditions, summary, ItemSale, ItemShrinkage, SalesTotals,
};
use sme_pro::rbac::{Access, Permission};
use sme_pro::spreadsheet::{are_rows_writable, is_writable, read_sheet, Cell};

fn names() -> ConfiguredNames {
    ConfiguredNames { key: "own".to_string(), api: "Own API".to_string(), model: "own-1".to_string() }
}

fn reader(modules: &[&str]) -> Access {
    Access {
        user_id: "u".to_string(),
        role: "Clerk".to_string(),
        is_system: false,
        can_administer: false,
        can_view_reports: false,
        permissions: modules
            .iter()
            .map(|m| Permission { module_id: m.to_string(), action: "read".to_string() })
            .collect(),
    }
}

fn module(id: &str, fields: &[(&str, &str)]) -> ModuleDef {
    ModuleDef {
        id: id.to_string(),
        display_name: id.to_string(),
        fields: fields
            .iter()
            .map(|(n, t)| FieldDef {
                name: n.to_string(),
                field_type: t.to_string(),
                required: false,
                unique: false,
                default: None,
                min: None,
                min_field: None,
                min_field_message: None,
            })
            .collect(),
        actions: Vec::new(),
        default_roles: Vec::new(),
        dashboard_metric: None,
        date_field: None,
    }
}

#[test]
fn providers_have_names_and_keys() {
    assert_eq!(provider_for("gemini", "own"), Provider::Gemini);
    assert_eq!(provider_for("own", "own"), Provider::Claude);
    let p = Provider::resolve(&Some("openai".to_string()), &Some("gemini".to_string()), &names());
    assert_eq!(p, Provider::OpenAi);
    assert_eq!(Provider::resolve(&None, &Some("gemini".to_string()), &names()), Provider::Gemini);
    assert_eq!(resolve_key(p, &Some("k".to_string()), &None), Ok("k".to_string()));
    assert_eq!(resolve_key(p, &None, &Some("e".to_string())), Ok("e".to_string()));
    assert!(resolve_key(p, &None, &None).is_err());
    assert_eq!(model_for(p, &Some("m".to_string()), &names()), "m");
    assert_eq!(model_for(Provider::Claude, &None, &names()), "own-1");
    assert!(!p.key_variable().is_empty());
    assert_ne!(p.key_setting(&names()), p.model_setting(&names()));
    assert!(key_is_set(&Some("x".to_string())));
    assert!(!key_is_set(&None));
    assert!(!shown_provider(&None).is_empty());
}

#[test]
fn questions_go_out_with_their_history() {
    let settings =
        AiSettings { stored_key: Some("k".to_string()), environment_key: None, stored_model: Some("m".to_string()) };
    let call = prepare(Provider::OpenAi, &names(), &settings, "SNAPSHOT").unwrap();
    assert!(call.system_prompt.contains("SNAPSHOT"));
    let history = vec![Turn { role: "user".to_string(), content: "before".to_string() }];
    let r = send(&call, "now?", &history);
    assert_eq!(r.model, "m");
    assert_eq!(r.messages.last().unwrap().content, "now?");
    assert!(r.messages.iter().any(|m| m.content == "before"));
    assert!(r.headers.iter().any(|h| h.content.contains('k')));
    let missing = AiSettings { stored_key: None, environment_key: None, stored_model: None };
    assert!(prepare(Provider::OpenAi, &names(), &missing, "S").is_err());
    if let Some(next) = next_request(&call, "m", "404", "now?", &history) {
        assert_ne!(next.model, "m");
    }
    assert!(status_error_text(Provider::OpenAi, &names(), 500, "boom").contains("500"));
    assert!(fallback_error_text("m", "boom").contains("boom"));
}

#[test]
fn chats_belong_to_their_user() {
    let s = vec![ChatSession {
        id: "s".to_string(),
        business_id: "b".to_string(),
        user_id: "u".to_string(),
        title: "t".to_string(),
        created_at: "c".to_string(),
    }];
    assert_eq!(assert_owns_session(&s, "b", "u", "s"), Ok(()));
    assert_eq!(assert_owns_session(&s, "b", "v", "s"), Err(ChatNotFound));
    assert_eq!(assert_owns_session(&s, "c", "u", "s"), Err(ChatNotFound));
    assert!(!chat_error_text().is_empty());
    assert_eq!(session_title("short"), "short");
    assert_eq!(session_title(&"é".repeat(61)).chars().count(), 61);
    assert!(session_title(&"é".repeat(61)).ends_with('…'));
    assert_eq!(record_turn(0, "Hello?"), Some("Hello?".to_string()));
    assert_eq!(record_turn(2, "Hello?"), None);
    assert!(!empty_title().is_empty());
}

#[test]
fn every_chat_is_exported() {
    let h = ChatHistory {
        title: "T".to_string(),
        created_at: "C".to_string(),
        messages: vec![ChatMessage {
            role: "user".to_string(),
            content: "Question".to_string(),
            created_at: "D".to_string(),
        }],
    };
    let empty = ChatHistory { title: "E".to_string(), created_at: "C".to_string(), messages: Vec::new() };
    let list = vec![h, empty];
    let rows = export_rows(&list);
    let read = read_sheet(export_to_xlsx(&list).unwrap()).unwrap();
    assert_eq!(read.len(), 1 + rows.len());
    for (a, b) in read[1..].iter().zip(rows.iter()) {
        for (cell, text) in a.iter().zip(b.iter()) {
            assert_eq!(&cell_to_string(cell), text);
        }
    }
    assert!(rows.iter().any(|r| r[0] == "T" && r[3] == "Question"));
    assert!(rows.iter().any(|r| r[0] == "E"));
}

fn one_message(content: &str) -> Vec<ChatHistory> {
    vec![ChatHistory {
        title: "T".to_string(),
        created_at: "C".to_string(),
        messages: vec![ChatMessage {
            role: "user".to_string(),
            content: content.to_string(),
            created_at: "D".to_string(),
        }],
    }]
}

#[test]
fn a_message_with_no_room_in_a_cell_is_not_exported() {
    assert!(export_to_xlsx(&one_message(&"a".repeat(32_767))).is_some());
    assert!(export_to_xlsx(&one_message(&"a".repeat(32_768))).is_none());
    assert!(export_to_xlsx(&one_message(&"é".repeat(32_767))).is_some());
    assert!(export_to_xlsx(&Vec::new()).is_some());
}

#[test]
fn texts_with_marks_of_their_own_are_told_apart() {
    for s in ["", "_x", "_x0041_", "_xabé", "_xéé and more", "_xé", "caf\u{e9}_y", "<r>_xaéé</r>"] {
        assert!(is_writable(s), "{s}");
        assert!(are_rows_writable(&export_rows(&one_message(s))));
        assert!(export_to_xlsx(&one_message(s)).is_some(), "{s}");
    }
    for s in ["_xabcé", "_xaéé", "a _x0041_ _x€€", "<r>_xaéé"] {
        assert!(!is_writable(s), "{s}");
        assert!(!are_rows_writable(&export_rows(&one_message(s))));
    }
}

#[test]
fn every_stored_chat_is_read_back_from_its_export() {
    let texts = [
        "What sold best (by margin), and why?",
        " outer blanks \t",
        "\nline\r\nline\rline\n",
        "a < b && c > d; \"quoted\" 'too' &amp; %25 {}[]",
        "_x0041_ _x005F_x0041_ __x000D_ _X0041_ _x0041",
        "_x_x1234_",
        "_x12345",
        "\u{1}\u{1f}_\u{2}_x005F\u{3}",
        "]]> <!-- --> <r> <t>x</t>",
        "\u{a0}caf\u{e9} \u{1f4f7} \u{2028}\u{feff}\u{ffff}",
        "#REF!",
        "=1+1",
        "12",
    ];
    let messages = texts
        .iter()
        .map(|s| ChatMessage {
            role: "user".to_string(),
            content: s.to_string(),
            created_at: "2026-01-31 08:00:01".to_string(),
        })
        .collect();
    let silent = ChatHistory { title: "".to_string(), created_at: "2026-01-31 09:00:00".to_string(), messages: vec![] };
    let talk =
        ChatHistory { title: "Sales: margins".to_string(), created_at: "2026-01-31 08:00:00".to_string(), messages };
    let list = vec![talk, silent];
    let rows = export_rows(&list);
    let read = read_sheet(export_to_xlsx(&list).unwrap()).unwrap();
    assert_eq!(read.len(), 1 + texts.len() + 1);
    for (cells, row) in read[1..].iter().zip(rows.iter()) {
        assert_eq!(cells.len(), 5);
        for (cell, text) in cells.iter().zip(row.iter()) {
            if text.is_empty() {
                assert!(matches!(cell, Cell::Empty));
            } else {
                assert!(matches!(cell, Cell::Text(s) if s == text), "{cell:?} {text:?}");
            }
        }
    }
    // A last row without any text is not read.
    let blank = ChatHistory {
        title: "".to_string(),
        created_at: "".to_string(),
        messages: vec![ChatMessage { role: "".to_string(), content: "".to_string(), created_at: "".to_string() }],
    };
    assert_eq!(read_sheet(export_to_xlsx(&vec![blank]).unwrap()).unwrap().len(), 1);
}

fn insights() -> Insights {
    Insights {
        stock_runway: vec!["{\"item\":\"Tea\"}".to_string()],
        day_of_week_sales_pattern: vec!["{\"day\":1}".to_string()],
    }
}

#[test]
fn unreadable_modules_stay_hidden() {
    let list = vec![
        module("inventory", &[("name", "text"), ("quantity", "integer"), ("reorder_level", "integer")]),
        module("sales", &[("item_name", "text"), ("revenue", "money")]),
    ];
    let shown = build_snapshot(&reader(&["sales"]), &list, insights());
    assert_eq!(shown.modules.len(), 1);
    assert_eq!(shown.modules[0].module, 1);
    assert!(shown.modules[0].plan.totals.is_empty());
    assert!(shown.insights.stock_runway.is_empty() && shown.insights.day_of_week_sales_pattern.is_empty());
    let mut analyst = reader(&["sales", "inventory"]);
    analyst.can_view_reports = true;
    let shown = build_snapshot(&analyst, &list, insights());
    assert_eq!(shown.modules.len(), 2);
    assert_eq!(shown.modules[0].plan.totals.len(), 2);
    assert_eq!(shown.insights.stock_runway, vec!["{\"item\":\"Tea\"}"]);
    assert_eq!(shown.insights.day_of_week_sales_pattern.len(), 1);
    assert!(module_plan(&reader(&[]), &list[0], true).is_none());
    let plan = module_plan(&reader(&["sales"]), &list[1], true).unwrap();
    assert!(plan.totals.iter().all(|t| t.field == 1 && t.is_money));
    assert!(module_plan(&reader(&["inventory"]), &list[0], true).unwrap().low_stock);
    assert!(count_sql("module_sales").contains("module_sales"));
    assert!(low_stock_sql("module_inventory").contains("reorder_level"));
    assert!(details_sql(Details::Debts, "module_debt_credit").contains("module_debt_credit"));
}

#[test]
fn pairs_are_counted_for_readers_of_sales() {
    let a = reader(&["sales"]);
    let q = top_pairs(Some(&a), true, true, false, 500).unwrap();
    assert_eq!(q.limit, 50);
    assert!(q.sql.contains("module_sales"));
    assert!(matches!(top_pairs(Some(&a), false, false, false, 5), Err(BasketError::SalesNotEnabled)));
    assert!(matches!(top_pairs(Some(&reader(&[])), true, false, false, 5), Err(BasketError::Access(_))));
    assert!(!sales_not_enabled_text().is_empty());
}

#[test]
fn the_pulse_is_never_silent() {
    let none = compute("USD", None);
    assert!(!none.has_data);
    assert!(!none.recommendations.is_empty());
    let input = PulseInput {
        history: vec![100.0f64.to_bits(), 200.4f64.to_bits()],
        forecast_next: 250.5f64.to_bits(),
        pct: 100.4f64.to_bits(),
        pct_size_text: "100.4".to_string(),
        low_stock_count: 3,
    };
    let p = compute("USD", Some(&input));
    assert!(p.has_data);
    assert_eq!(p.revenue_this_period_cents, 200);
    assert_eq!(p.revenue_last_period_cents, 100);
    assert_eq!(p.forecast_next_period_cents, 251);
    assert_eq!(p.low_stock_count, 3);
    assert!(p.recommendations.iter().any(|r| r.contains("100.4")));
    assert!(!recommendations(None, "", 0).is_empty());
    assert!(is_comparable(1.0f64.to_bits()));
    assert!(!is_comparable(0.0f64.to_bits()));
}

#[test]
fn crash_reports_respect_the_wish() {
    assert!(!opt_out_setting().is_empty());
    assert!(reporting_allowed(true, &None));
    assert!(reporting_allowed(true, &Some("true".to_string())));
    assert!(!reporting_allowed(true, &Some("false".to_string())));
    assert!(!init(false, true));
    assert!(!init(true, false));
    assert!(init(true, true));
    assert_eq!(target_of("https://x@o1.ingest.sentry.io/2"), ReportTarget::Sentry);
    assert_eq!(target_of("https://example.com/hook"), ReportTarget::Webhook);
    assert!(was_sent(ReportTarget::Webhook, 200));
    assert!(!was_sent(ReportTarget::Sentry, 500));
    assert!(is_report(&Some("json".to_string())));
    assert!(!is_report(&None));
    assert_eq!(report_name(17), "crash_17.json");
}

#[test]
fn rates_are_found_directly_or_through_dollars() {
    let two = 2.0f64.to_bits();
    let four = 4.0f64.to_bits();
    assert_eq!(get_rate("USD", "USD", None, None, None), RateChoice::Same);
    assert_eq!(get_rate("EUR", "KES", Some(two), None, None), RateChoice::Direct { rate: two });
    assert_eq!(get_rate("EUR", "KES", None, Some(two), Some(four)), RateChoice::ViaDollar { from: two, to: four });
    assert_eq!(get_rate("EUR", "KES", None, None, Some(four)), RateChoice::Unknown);
    assert!(is_usable(two));
    assert!(!is_usable(0.0f64.to_bits()));
    assert!(!is_usable(f64::NAN.to_bits()));
    assert!(!is_usable((-1.0f64).to_bits()));
    assert!(refresh_due(None, 0));
    assert!(!refresh_due(Some(100), 100 + 21_599));
    assert!(refresh_due(Some(100), 100 + 21_600));
    assert!(rates_stale(None, 0));
    assert!(!rates_stale(Some(100), 100 + 86_399));
    assert!(rates_stale(Some(100), 100 + 86_401));
}

#[test]
fn forecasts_are_asked_for_properly() {
    assert_eq!(moving_average_start(10, 3), Ok(7));
    assert_eq!(moving_average_start(2, 3), Ok(0));
    assert_eq!(moving_average_start(2, 0), Err(ForecastError::EmptyWindow));
    assert_eq!(check_weight(0.5f64.to_bits()), Ok(()));
    assert_eq!(check_weight(1.0f64.to_bits()), Ok(()));
    for bad in [0.0f64, -0.1, 1.1, f64::NAN, f64::INFINITY] {
        assert_eq!(check_weight(bad.to_bits()), Err(ForecastError::BadWeight));
    }
    assert!(moving_average_name(3).contains('3'));
    assert!(!forecast_error_text(ForecastError::EmptyWindow).is_empty());
    assert!(!forecast_error_text(ForecastError::BadWeight).is_empty());
}

fn totals(revenue: i64, cost: i64, bearing: i64) -> SalesTotals {
    SalesTotals { revenue_cents: revenue, cost_cents: cost, sales_count: 3, cost_bearing_sales_count: bearing }
}

fn item_sale(item: &str, date: &str, revenue: i64, cost: i64) -> ItemSale {
    ItemSale { item_name: item.to_string(), sale_date: date.to_string(), revenue, cost_at_sale: cost }
}

#[test]
fn the_biggest_losers_of_a_period_come_first() {
    let today = date_day("2026-03-31").unwrap();
    let sales = vec![
        item_sale("Rice", "2026-03-31", 900, 400),
        item_sale("Soap", "2026-03-22", 500, 600),
        item_sale("Soap", "2026-03-30", 100, 0),
        item_sale("Soap", "2026-03-21", 1000, 600),
        item_sale("Soap", "2026-03-11", 9000, 1),
        item_sale("Rice", "2026-04-01", 9000, 1),
        item_sale("Tea", "2026-03-15", 700, 100),
        item_sale("Salt", "2026-03-25", 0, 300),
        item_sale("Oil", "soon", 0, 300),
    ];
    assert!(do_amounts_fit(&sales, today, 10));
    let list = by_item_trend(&sales, today, 10, 50);
    assert_eq!(list.iter().map(|t| t.item_name.as_str()).collect::<Vec<&str>>(), vec!["Salt", "Soap", "Rice"]);
    assert_eq!(list[1].current, SalesTotals { revenue_cents: 600, cost_cents: 600, sales_count: 2, cost_bearing_sales_count: 1 });
    assert_eq!(list[1].previous, SalesTotals { revenue_cents: 1000, cost_cents: 600, sales_count: 1, cost_bearing_sales_count: 1 });
    assert!(list[1].comparable && !list[1].is_losing_money);
    assert!(list[0].is_losing_money && !list[0].current_has_margin && !list[0].comparable);
    assert!(list[2].current_has_margin && !list[2].previous_has_margin);
    assert_eq!(by_item_trend(&sales, today, 10, 0).len(), 1);
    assert_eq!(by_item_trend(&sales, today, 0, 50).len(), 1);
    let many = vec![item_sale("Gold", "2026-03-31", i64::MAX, 0), item_sale("Gold", "2026-03-30", 1, 0)];
    assert!(!do_amounts_fit(&many, today, 10));
    assert!(do_amounts_fit(&many, today - 1, 10));
}

#[test]
fn profit_is_revenue_less_cost_less_shrinkage() {
    let s = summary(totals(1000, 600, 3), 50);
    assert_eq!(s.profit_cents, 400);
    assert_eq!(s.profit_cents_after_shrinkage, 350);
    let off = vec![ItemShrinkage { item_name: "Soap".to_string(), cents: 20 }];
    assert_eq!(by_item("Soap", totals(1000, 600, 3), &off).shrinkage_cents, 20);
    assert_eq!(by_item("Rice", totals(1000, 600, 3), &off).shrinkage_cents, 0);
    assert_eq!(by_item("Soap", totals(1000, 600, 3), &off).profit_cents_after_shrinkage, 380);
    let c = by_category("Drinks", totals(1000, 600, 3));
    assert_eq!((c.category.as_str(), c.profit_cents, c.has_margin), ("Drinks", 400, true));
    assert!(!by_category("Other", totals(0, 0, 0)).has_margin);
    let t = margin_trend("Soap", totals(500, 600, 3), totals(1000, 600, 3));
    assert!(t.is_losing_money);
    assert_eq!((t.current_profit_cents, t.previous_profit_cents), (-100, 400));
    assert_eq!(item_limit(1000), 100);
    assert_eq!(period_days(1000), 180);
    assert!(t.current_has_margin && t.previous_has_margin && t.comparable);
    let fresh = margin_trend("Soap", totals(500, 600, 0), totals(0, 0, 0));
    assert!(fresh.current_has_margin && !fresh.previous_has_margin && !fresh.comparable && !fresh.is_losing_money);
    let mut list = Vec::new();
    push_range_conditions(&mut list, "sale_date", 1, true, true);
    assert_eq!(list, vec!["sale_date >= ?2".to_string(), "sale_date <= ?3".to_string()]);
    assert!(category_conditions(true, true).len() > category_conditions(false, false).len());
}

#[test]
fn low_stock_is_counted_over_all_modules() {
    assert_eq!(low_stock_total(&vec![2, 0, 3]), Some(5));
    assert_eq!(low_stock_total(&vec![]), Some(0));
    assert_eq!(low_stock_total(&vec![i64::MAX as usize]), Some(i64::MAX));
    assert_eq!(low_stock_total(&vec![i64::MAX as usize, 1]), None);
}
