//! The modules that a new business starts with, by what kind it is.

use crate::registry::{bundled, module_json, ModuleDefs};
use crate::text::{cat3, push_text, same, views};
use vstd::prelude::*;

verus! {

/// The modules of a kind of business; `None` for a kind that is not known.
pub open spec fn preset_of(business_type: Seq<char>) -> Option<Seq<Seq<char>>> {
    if business_type == "retail"@ {
        Some(seq!["inventory"@, "sales"@, "debt_credit"@, "accounting"@])
    } else if business_type == "food"@ {
        Some(seq!["inventory"@, "sales"@, "purchasing"@, "debt_credit"@, "accounting"@])
    } else if business_type == "services"@ {
        Some(seq!["hr"@, "sales"@, "debt_credit"@, "accounting"@])
    } else if business_type == "manufacturing"@ {
        Some(seq!["inventory"@, "purchasing"@, "hr"@, "sales"@, "accounting"@])
    } else {
        None
    }
}

/// The sentence for a kind that is not known.
pub open spec fn unknown_type_message(business_type: Seq<char>) -> Seq<char> {
    "unknown business type '"@ + business_type
        + "', expected one of: retail, food, services, manufacturing"@
}

/// The modules of a kind of business. An error is the sentence to show.
pub fn preset_modules(business_type: &str) -> (r: Result<Vec<String>, String>)
    ensures
        match r {
            Ok(list) => preset_of(business_type@) == Some(views(list@)),
            Err(text) => preset_of(business_type@) is None && text@ == unknown_type_message(business_type@),
        },
{
    let mut list: Vec<String> = Vec::new();
    assert(views(list@) =~= Seq::<Seq<char>>::empty());
    if same(business_type, "retail") {
        push_text(&mut list, "inventory");
        push_text(&mut list, "sales");
        push_text(&mut list, "debt_credit");
        push_text(&mut list, "accounting");
    } else if same(business_type, "food") {
        push_text(&mut list, "inventory");
        push_text(&mut list, "sales");
        push_text(&mut list, "purchasing");
        push_text(&mut list, "debt_credit");
        push_text(&mut list, "accounting");
    } else if same(business_type, "services") {
        push_text(&mut list, "hr");
        push_text(&mut list, "sales");
        push_text(&mut list, "debt_credit");
        push_text(&mut list, "accounting");
    } else if same(business_type, "manufacturing") {
        push_text(&mut list, "inventory");
        push_text(&mut list, "purchasing");
        push_text(&mut list, "hr");
        push_text(&mut list, "sales");
        push_text(&mut list, "accounting");
    } else {
        return Err(
            cat3("unknown business type '", business_type, "', expected one of: retail, food, services, manufacturing"),
        );
    }
    assert(views(list@) =~= preset_of(business_type@)->0);
    Ok(list)
}

/// The modules to enable for a kind of business: those of its preset, each of
/// which has a definition.
pub fn apply_business_type(business_type: &str, defs: &ModuleDefs) -> (r: Result<Vec<String>, String>)
    ensures
        match r {
            Ok(list) => preset_of(business_type@) == Some(views(list@)),
            Err(text) => preset_of(business_type@) is None && text@ == unknown_type_message(business_type@),
        },
{
    let preset = match preset_modules(business_type) {
        Err(e) => {
            return Err(e);
        },
        Ok(preset) => preset,
    };
    proof {
        law_presets_are_bundled(business_type@);
    }
    let mut list: Vec<String> = Vec::new();
    let mut i: usize = 0;
    assert(views(preset@).take(0) =~= views(list@));
    while i < preset.len()
        invariant
            i <= preset@.len(),
            forall|k: int| 0 <= k < preset@.len() ==> bundled(#[trigger] views(preset@)[k]),
            views(list@) == views(preset@).take(i as int),
        decreases preset@.len() - i,
    {
        assert(bundled(views(preset@)[i as int]));
        assert(views(preset@).take(i + 1) =~= views(preset@).take(i as int).push(preset@[i as int]@));
        if module_json(defs, preset[i].as_str()).is_some() {
            push_text(&mut list, preset[i].as_str());
        }
        i = i + 1;
    }
    assert(views(preset@).take(preset@.len() as int) =~= views(preset@));
    Ok(list)
}

/// Every module of a preset comes with the program, and every kind of business
/// sells and keeps accounts.
pub proof fn law_presets_are_bundled(business_type: Seq<char>)
    requires
        preset_of(business_type) is Some,
    ensures
        forall|i: int|
            0 <= i < preset_of(business_type)->0.len() ==> bundled(#[trigger] preset_of(business_type)->0[i]),
        preset_of(business_type)->0.contains("sales"@),
        preset_of(business_type)->0.contains("accounting"@),
{
    let list = preset_of(business_type)->0;
    assert(list[list.len() - 1] == "accounting"@);
    if business_type == "retail"@ || business_type == "food"@ || business_type == "services"@ {
        assert(list[1] == "sales"@);
    } else {
        assert(list[3] == "sales"@);
    }
}

/// No preset names a module twice.
pub proof fn law_presets_name_modules_once(business_type: Seq<char>)
    requires
        preset_of(business_type) is Some,
    ensures
        preset_of(business_type)->0.no_duplicates(),
{
    reveal_strlit("inventory");
    reveal_strlit("sales");
    reveal_strlit("purchasing");
    reveal_strlit("debt_credit");
    reveal_strlit("accounting");
    reveal_strlit("hr");
    assert("inventory"@.len() == 9 && "sales"@.len() == 5 && "purchasing"@.len() == 10 && "debt_credit"@.len() == 11
        && "accounting"@.len() == 10 && "hr"@.len() == 2);
    assert("accounting"@[0] == 'a' && "purchasing"@[0] == 'p');
}

/// Who deals in goods starts with the stock of them, who buys to make or to cook
/// with purchases, who works with people with staff, and who sells on credit with
/// debts. Any other kind of business is unknown.
pub proof fn law_presets_fit_their_business()
    ensures
        preset_of("retail"@) matches Some(p) && p.contains("inventory"@) && p.contains("debt_credit"@) && !p.contains(
            "hr"@,
        ) && !p.contains("purchasing"@),
        preset_of("food"@) matches Some(p) && p.contains("inventory"@) && p.contains("purchasing"@) && p.contains(
            "debt_credit"@,
        ) && !p.contains("hr"@),
        preset_of("services"@) matches Some(p) && p.contains("hr"@) && p.contains("debt_credit"@) && !p.contains(
            "inventory"@,
        ) && !p.contains("purchasing"@),
        preset_of("manufacturing"@) matches Some(p) && p.contains("inventory"@) && p.contains("purchasing"@)
            && p.contains("hr"@) && !p.contains("debt_credit"@),
        forall|t: Seq<char>|
            t != "retail"@ && t != "food"@ && t != "services"@ && t != "manufacturing"@ ==> (#[trigger] preset_of(
                t,
            )) is None,
{
    reveal_strlit("retail");
    reveal_strlit("food");
    reveal_strlit("services");
    reveal_strlit("manufacturing");
    reveal_strlit("accounting");
    reveal_strlit("debt_credit");
    reveal_strlit("hr");
    reveal_strlit("inventory");
    reveal_strlit("purchasing");
    reveal_strlit("sales");
    assert("retail"@.len() == 6 && "food"@.len() == 4 && "services"@.len() == 8 && "manufacturing"@.len() == 13);
    assert("accounting"@.len() == 10 && "debt_credit"@.len() == 11 && "hr"@.len() == 2 && "inventory"@.len() == 9
        && "purchasing"@.len() == 10 && "sales"@.len() == 5);
    assert("accounting"@[0] == 'a' && "purchasing"@[0] == 'p');
    let retail = preset_of("retail"@)->0;
    assert(retail[0] == "inventory"@ && retail[2] == "debt_credit"@);
    let food = preset_of("food"@)->0;
    assert(food[0] == "inventory"@ && food[2] == "purchasing"@ && food[3] == "debt_credit"@);
    let services = preset_of("services"@)->0;
    assert(services[0] == "hr"@ && services[2] == "debt_credit"@);
    let made = preset_of("manufacturing"@)->0;
    assert(made[0] == "inventory"@ && made[1] == "purchasing"@ && made[2] == "hr"@);
}

} // verus!
