//! Entries that other actions post to Bookkeeping.

use crate::module::{law_defaults_keep_values, record_error, with_defaults, ModuleDef, ValidationError};
use crate::text::opt_view;
use crate::value::{put_text, Record, ValueView};
use vstd::prelude::*;

verus! {

/// What an entry says, before the module's defaults are filled in.
pub open spec fn entry_map(
    description: Seq<char>,
    entry_type: Seq<char>,
    category: Seq<char>,
    amount: i64,
    payment_method: Option<Seq<char>>,
) -> Map<Seq<char>, ValueView> {
    put_text(
        Map::<Seq<char>, ValueView>::empty().insert("description"@, ValueView::Text(description)).insert(
            "entry_type"@,
            ValueView::Text(entry_type),
        ).insert("category"@, ValueView::Text(category)).insert("amount"@, ValueView::Int(amount)),
        "payment_method"@,
        payment_method,
    )
}

/// The entry as the accounting module stores it, or what is wrong with it.
pub fn ledger_entry(
    accounting: &ModuleDef,
    description: &str,
    entry_type: &str,
    category: &str,
    amount: i64,
    payment_method: &Option<String>,
) -> (r: Result<Record, ValidationError>)
    ensures
        ({
            let full = with_defaults(
                accounting.fields@,
                entry_map(description@, entry_type@, category@, amount, opt_view(*payment_method)),
            );
            match r {
                Ok(entry) => entry@ == full && record_error(accounting.fields@, full) is None,
                Err(e) => record_error(accounting.fields@, full) == Some(e),
            }
        }),
{
    let mut entry = Record::new();
    entry.insert_text("description", description);
    entry.insert_text("entry_type", entry_type);
    entry.insert_text("category", category);
    entry.insert_int("amount", amount);
    entry.insert_opt_text("payment_method", payment_method);
    accounting.complete(entry)
}

/// Whether an entry, as it is stored, says this of the money: what kind of
/// movement it is, under which category, how much, and how it was paid where
/// that is known.
pub open spec fn posts(
    entry: Map<Seq<char>, ValueView>,
    entry_type: Seq<char>,
    category: Seq<char>,
    amount: int,
    payment_method: Option<Seq<char>>,
) -> bool {
    &&& entry.contains_pair("entry_type"@, ValueView::Text(entry_type))
    &&& entry.contains_pair("category"@, ValueView::Text(category))
    &&& entry.contains_key("amount"@) && entry["amount"@] is Int && entry["amount"@]->Int_0 == amount
    &&& payment_method is Some ==> entry.contains_pair("payment_method"@, ValueView::Text(payment_method->0))
}

/// An entry posts just the money that it was made for, whatever defaults the
/// module fills in.
pub proof fn law_entries_post_what_they_are_made_for(
    accounting: ModuleDef,
    description: Seq<char>,
    entry_type: Seq<char>,
    category: Seq<char>,
    amount: i64,
    payment_method: Option<Seq<char>>,
)
    ensures
        ({
            let entry = with_defaults(
                accounting.fields@,
                entry_map(description, entry_type, category, amount, payment_method),
            );
            &&& posts(entry, entry_type, category, amount as int, payment_method)
            &&& entry.contains_pair("description"@, ValueView::Text(description))
        }),
{
    reveal_strlit("description");
    reveal_strlit("entry_type");
    reveal_strlit("category");
    reveal_strlit("amount");
    reveal_strlit("payment_method");
    assert("description"@.len() == 11 && "entry_type"@.len() == 10 && "category"@.len() == 8 && "amount"@.len() == 6
        && "payment_method"@.len() == 14);
    let base = entry_map(description, entry_type, category, amount, payment_method);
    let fields = accounting.fields@;
    assert(base.contains_pair("description"@, ValueView::Text(description)));
    assert(base.contains_pair("entry_type"@, ValueView::Text(entry_type)));
    assert(base.contains_pair("category"@, ValueView::Text(category)));
    assert(base.contains_pair("amount"@, ValueView::Int(amount)));
    law_defaults_keep_values(fields, fields.len(), base, "description"@);
    law_defaults_keep_values(fields, fields.len(), base, "entry_type"@);
    law_defaults_keep_values(fields, fields.len(), base, "category"@);
    law_defaults_keep_values(fields, fields.len(), base, "amount"@);
    if payment_method is Some {
        law_defaults_keep_values(fields, fields.len(), base, "payment_method"@);
    }
}

} // verus!
