//! The modules that come with the program.

use crate::text::{cat, opt_str_view, opt_view, same};
use vstd::prelude::*;

verus! {

/// A module that comes with the program: its id and its definition.
#[derive(Debug)]
pub struct ModuleEntry {
    pub id: String,
    pub json: String,
}

/// Whether a module comes with the program.
pub open spec fn bundled(id: Seq<char>) -> bool {
    ||| id == "accounting"@
    ||| id == "debt_credit"@
    ||| id == "hr"@
    ||| id == "inventory"@
    ||| id == "invoice"@
    ||| id == "purchasing"@
    ||| id == "refunds"@
    ||| id == "sales"@
}

/// Whether a module comes with the program.
pub fn is_bundled(id: &str) -> (b: bool)
    ensures
        b == bundled(id@),
{
    same(id, "accounting") || same(id, "debt_credit") || same(id, "hr") || same(id, "inventory") || same(id, "invoice")
        || same(id, "purchasing") || same(id, "refunds") || same(id, "sales")
}

/// The definition of the first module of that id.
pub open spec fn definition_of(defs: Seq<ModuleEntry>, id: Seq<char>) -> Option<Seq<char>>
    decreases defs.len(),
{
    if defs.len() == 0 {
        None
    } else if defs[0].id@ == id {
        Some(defs[0].json@)
    } else {
        definition_of(defs.skip(1), id)
    }
}

/// The definition of the first module of that id.
fn find_definition<'a>(defs: &'a Vec<ModuleEntry>, module_id: &str) -> (r: Option<&'a str>)
    ensures
        opt_str_view(r) == definition_of(defs@, module_id@),
{
    let mut i: usize = 0;
    assert(defs@.skip(0) =~= defs@);
    while i < defs.len()
        invariant
            i <= defs@.len(),
            definition_of(defs@.skip(i as int), module_id@) == definition_of(defs@, module_id@),
        decreases defs@.len() - i,
    {
        assert(defs@.skip(i as int)[0] == defs@[i as int]);
        assert(defs@.skip(i as int).skip(1) =~= defs@.skip(i + 1));
        if same(defs[i].id.as_str(), module_id) {
            return Some(defs[i].json.as_str());
        }
        i = i + 1;
    }
    None
}

/// The definitions of all the modules that come with the program.
#[derive(Debug)]
pub struct ModuleDefs {
    pub accounting: String,
    pub debt_credit: String,
    pub hr: String,
    pub inventory: String,
    pub invoice: String,
    pub purchasing: String,
    pub refunds: String,
    pub sales: String,
}

/// The definition of a module that comes with the program.
pub open spec fn bundled_json(defs: ModuleDefs, id: Seq<char>) -> Option<Seq<char>> {
    if id == "accounting"@ {
        Some(defs.accounting@)
    } else if id == "debt_credit"@ {
        Some(defs.debt_credit@)
    } else if id == "hr"@ {
        Some(defs.hr@)
    } else if id == "inventory"@ {
        Some(defs.inventory@)
    } else if id == "invoice"@ {
        Some(defs.invoice@)
    } else if id == "purchasing"@ {
        Some(defs.purchasing@)
    } else if id == "refunds"@ {
        Some(defs.refunds@)
    } else if id == "sales"@ {
        Some(defs.sales@)
    } else {
        None
    }
}

/// The definition of a module: of each that comes with the program its own, and
/// none of any other.
pub fn module_json<'a>(defs: &'a ModuleDefs, module_id: &str) -> (r: Option<&'a str>)
    ensures
        opt_str_view(r) == bundled_json(*defs, module_id@),
        r is Some == bundled(module_id@),
{
    if same(module_id, "accounting") {
        Some(defs.accounting.as_str())
    } else if same(module_id, "debt_credit") {
        Some(defs.debt_credit.as_str())
    } else if same(module_id, "hr") {
        Some(defs.hr.as_str())
    } else if same(module_id, "inventory") {
        Some(defs.inventory.as_str())
    } else if same(module_id, "invoice") {
        Some(defs.invoice.as_str())
    } else if same(module_id, "purchasing") {
        Some(defs.purchasing.as_str())
    } else if same(module_id, "refunds") {
        Some(defs.refunds.as_str())
    } else if same(module_id, "sales") {
        Some(defs.sales.as_str())
    } else {
        None
    }
}

fn definition(list: &Vec<ModuleEntry>, id: &str) -> (r: Result<String, String>)
    ensures
        match r {
            Ok(json) => definition_of(list@, id@) == Some(json@),
            Err(missing) => definition_of(list@, id@) is None && missing@ == id@,
        },
{
    match find_definition(list, id) {
        Some(json) => Ok(json.to_owned()),
        None => Err(id.to_owned()),
    }
}

/// Brings the definitions of all the modules that come with the program
/// together. An error is the first of them that has none.
pub fn collect_modules(list: &Vec<ModuleEntry>) -> (r: Result<ModuleDefs, String>)
    ensures
        match r {
            Ok(defs) => forall|id: Seq<char>|
                bundled(id) ==> #[trigger] bundled_json(defs, id) == definition_of(list@, id),
            Err(missing) => bundled(missing@) && definition_of(list@, missing@) is None,
        },
        (forall|id: Seq<char>| bundled(id) ==> #[trigger] definition_of(list@, id) is Some) ==> r is Ok,
{
    let accounting = match definition(list, "accounting") {
        Ok(json) => json,
        Err(missing) => {
            return Err(missing);
        },
    };
    let debt_credit = match definition(list, "debt_credit") {
        Ok(json) => json,
        Err(missing) => {
            return Err(missing);
        },
    };
    let hr = match definition(list, "hr") {
        Ok(json) => json,
        Err(missing) => {
            return Err(missing);
        },
    };
    let inventory = match definition(list, "inventory") {
        Ok(json) => json,
        Err(missing) => {
            return Err(missing);
        },
    };
    let invoice = match definition(list, "invoice") {
        Ok(json) => json,
        Err(missing) => {
            return Err(missing);
        },
    };
    let purchasing = match definition(list, "purchasing") {
        Ok(json) => json,
        Err(missing) => {
            return Err(missing);
        },
    };
    let refunds = match definition(list, "refunds") {
        Ok(json) => json,
        Err(missing) => {
            return Err(missing);
        },
    };
    let sales = match definition(list, "sales") {
        Ok(json) => json,
        Err(missing) => {
            return Err(missing);
        },
    };
    Ok(ModuleDefs { accounting, debt_credit, hr, inventory, invoice, purchasing, refunds, sales })
}

/// A module has a definition if and only if it comes with the program.
pub proof fn law_bundled_modules_are_defined(defs: ModuleDefs, id: Seq<char>)
    ensures
        bundled_json(defs, id) is Some <==> bundled(id),
{
}

/// Where the definitions lie: in the directory that was set at the start, else
/// under the program's own.
pub fn modules_dir(set: &Option<String>, own_dir: &str) -> (s: String)
    ensures
        s@ == match opt_view(*set) {
            Some(d) => d,
            None => own_dir@ + "/modules"@,
        },
{
    match set {
        Some(d) => d.clone(),
        None => cat(own_dir, "/modules"),
    }
}

/// Each module that comes with the program is defined by its own text.
pub proof fn law_modules_have_their_own_definition(defs: ModuleDefs)
    ensures
        bundled_json(defs, "accounting"@) == Some(defs.accounting@),
        bundled_json(defs, "debt_credit"@) == Some(defs.debt_credit@),
        bundled_json(defs, "hr"@) == Some(defs.hr@),
        bundled_json(defs, "inventory"@) == Some(defs.inventory@),
        bundled_json(defs, "invoice"@) == Some(defs.invoice@),
        bundled_json(defs, "purchasing"@) == Some(defs.purchasing@),
        bundled_json(defs, "refunds"@) == Some(defs.refunds@),
        bundled_json(defs, "sales"@) == Some(defs.sales@),
{
    reveal_strlit("accounting");
    reveal_strlit("debt_credit");
    reveal_strlit("hr");
    reveal_strlit("inventory");
    reveal_strlit("invoice");
    reveal_strlit("purchasing");
    reveal_strlit("refunds");
    reveal_strlit("sales");
    assert("accounting"@.len() == 10 && "debt_credit"@.len() == 11 && "hr"@.len() == 2 && "inventory"@.len() == 9
        && "invoice"@.len() == 7 && "purchasing"@.len() == 10 && "refunds"@.len() == 7 && "sales"@.len() == 5);
    assert("accounting"@[0] == 'a' && "purchasing"@[0] == 'p' && "invoice"@[0] == 'i' && "refunds"@[0] == 'r');
}

/// The text of a module is the first that the list has under its id.
pub proof fn law_definitions_are_found_by_id(defs: Seq<ModuleEntry>, id: Seq<char>, k: int)
    requires
        0 <= k <= defs.len(),
        k < defs.len() ==> defs[k].id@ == id,
        forall|i: int| 0 <= i < k ==> (#[trigger] defs[i]).id@ != id,
    ensures
        definition_of(defs, id) == if k < defs.len() {
            Some(defs[k].json@)
        } else {
            None
        },
    decreases defs.len(),
{
    if defs.len() > 0 && k > 0 {
        assert(defs[0].id@ != id);
        let rest = defs.skip(1);
        assert forall|i: int| 0 <= i < k - 1 implies (#[trigger] rest[i]).id@ != id by {
            assert(rest[i] == defs[i + 1]);
        }
        law_definitions_are_found_by_id(rest, id, k - 1);
    }
}

} // verus!
