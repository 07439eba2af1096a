//! Customers: how a phone number identifies one, and what a sale does to the
//! list of customers.
//!
//! A phone number is the preferred identity. A name alone is accepted where no
//! phone was given; only letter case is folded then.

use crate::lists::sum_upto;
use crate::text::{
    ascii_lowered, blank, cat3, char_is_digit, is_digit, is_empty, opt_str_view, opt_view, same, same_ignoring_case, to_chars, trim,
    trimmed,
};
use vstd::prelude::*;

verus! {

/// The ASCII digits of a text, in order.
pub open spec fn only_digits(s: Seq<char>) -> Seq<char>
    decreases s.len(),
{
    if s.len() == 0 {
        s
    } else if is_digit(s.last()) {
        only_digits(s.drop_last()).push(s.last())
    } else {
        only_digits(s.drop_last())
    }
}

/// A phone number without the formatting that varies between two typings of
/// it: its digits, and the plus sign if that is its first character.
pub open spec fn normalized_phone(phone: Seq<char>) -> Seq<char> {
    let t = trimmed(phone);
    if t.len() > 0 && t[0] == '+' {
        seq!['+'] + only_digits(t.skip(1))
    } else {
        only_digits(t)
    }
}

/// Strips the formatting of a phone number: spaces, dashes, dots, parentheses
/// and whatever else is no digit, except for a leading plus sign.
pub fn normalize_phone(phone: &str) -> (r: String)
    ensures
        r@ == normalized_phone(phone@),
{
    let t = to_chars(trim(phone).as_str());
    let mut r = String::new();
    let mut i: usize = 0;
    if t.len() > 0 && t[0] == '+' {
        r.push('+');
        i = 1;
    }
    let lo: usize = i;
    let ghost head = r@;
    let ghost all = t@.skip(lo as int);
    assert(head + only_digits(all.take(0)) =~= head);
    while i < t.len()
        invariant
            lo <= i <= t@.len(),
            all == t@.skip(lo as int),
            r@ == head + only_digits(all.take(i - lo)),
        decreases t@.len() - i,
    {
        assert(all.take(i - lo + 1).drop_last() =~= all.take(i - lo));
        if char_is_digit(t[i]) {
            r.push(t[i]);
            assert(r@ =~= head + only_digits(all.take(i - lo + 1)));
        }
        i = i + 1;
    }
    assert(all.take(all.len() as int) =~= all);
    if lo == 0 {
        assert(all =~= t@);
        assert(r@ =~= only_digits(t@));
    }
    r
}

proof fn lemma_only_digits(s: Seq<char>)
    ensures
        forall|i: int| 0 <= i < only_digits(s).len() ==> is_digit(#[trigger] only_digits(s)[i]),
    decreases s.len(),
{
    if s.len() > 0 {
        let before = only_digits(s.drop_last());
        lemma_only_digits(s.drop_last());
        assert forall|i: int| 0 <= i < only_digits(s).len() implies is_digit(#[trigger] only_digits(s)[i]) by {
            if i < before.len() {
                assert(only_digits(s)[i] == before[i]);
            }
        }
    }
}

proof fn lemma_only_digits_of_digits(s: Seq<char>)
    requires
        forall|i: int| 0 <= i < s.len() ==> is_digit(#[trigger] s[i]),
    ensures
        only_digits(s) == s,
    decreases s.len(),
{
    if s.len() > 0 {
        assert forall|i: int| 0 <= i < s.drop_last().len() implies is_digit(#[trigger] s.drop_last()[i]) by {
            assert(s.drop_last()[i] == s[i]);
        }
        lemma_only_digits_of_digits(s.drop_last());
        assert(is_digit(s[s.len() - 1]));
        assert(s.drop_last().push(s.last()) =~= s);
    }
}

/// Normalizing a normalized phone number changes nothing, so a stored number
/// and a typed one are compared alike.
pub proof fn law_normalizing_twice_is_once(phone: Seq<char>)
    ensures
        normalized_phone(normalized_phone(phone)) == normalized_phone(phone),
{
    let t = trimmed(phone);
    let n = normalized_phone(phone);
    let plus = t.len() > 0 && t[0] == '+';
    let digits = if plus {
        only_digits(t.skip(1))
    } else {
        only_digits(t)
    };
    lemma_only_digits(if plus { t.skip(1) } else { t });
    lemma_only_digits_of_digits(digits);
    assert forall|i: int| 0 <= i < n.len() implies is_digit(#[trigger] n[i]) || n[i] == '+' by {
        if plus {
            if i > 0 {
                assert(n[i] == digits[i - 1]);
            }
        } else {
            assert(n[i] == digits[i]);
        }
    }
    if n.len() > 0 {
        assert(!crate::text::is_white(n[0]));
        assert(!crate::text::is_white(n[n.len() - 1]));
    }
    crate::text::lemma_trim_fixed(n);
    if plus {
        assert(n.skip(1) =~= digits);
    } else if n.len() > 0 {
        assert(is_digit(digits[0]));
    }
}

/// Two typings with the same digits in the same order, both with a leading
/// plus sign or both without, are one phone number, whatever else stands
/// between the digits.
pub proof fn law_formatting_does_not_matter(a: Seq<char>, b: Seq<char>)
    requires
        only_digits(trimmed(a)) == only_digits(trimmed(b)),
        (trimmed(a).len() > 0 && trimmed(a)[0] == '+') == (trimmed(b).len() > 0 && trimmed(b)[0] == '+'),
    ensures
        normalized_phone(a) == normalized_phone(b),
{
    lemma_plus_is_no_digit(trimmed(a));
    lemma_plus_is_no_digit(trimmed(b));
}

proof fn lemma_plus_is_no_digit(t: Seq<char>)
    ensures
        t.len() > 0 && t[0] == '+' ==> only_digits(t.skip(1)) == only_digits(t),
    decreases t.len(),
{
    if t.len() > 0 && t[0] == '+' {
        if t.len() == 1 {
            assert(t.skip(1) =~= Seq::<char>::empty());
            assert(t.drop_last() =~= Seq::<char>::empty());
        } else {
            lemma_plus_is_no_digit(t.drop_last());
            assert(t.drop_last().skip(1) =~= t.skip(1).drop_last());
            assert(t.skip(1).last() == t.last());
        }
    }
}

// ---------------------------------------------------------------------------
// Finding or creating
// ---------------------------------------------------------------------------

/// What identifies a customer at a sale.
#[derive(Debug)]
pub enum CustomerKey {
    /// The normalized phone number, and the name if one was given.
    Phone { phone: String, name: Option<String> },
    /// The name alone, matched without regard to letter case.
    Name { known_as: String },
}

/// What identifies a customer.
pub enum KeyView {
    Phone(Seq<char>, Option<Seq<char>>),
    Name(Seq<char>),
}

impl View for CustomerKey {
    type V = KeyView;

    open spec fn view(&self) -> KeyView {
        match *self {
            CustomerKey::Phone { phone, name } => KeyView::Phone(phone@, opt_view(name)),
            CustomerKey::Name { known_as } => KeyView::Name(known_as@),
        }
    }
}

/// The trimmed text, where it is given and not blank.
pub open spec fn clean_name(name: Option<Seq<char>>) -> Option<Seq<char>> {
    match name {
        Some(n) => if trimmed(n).len() > 0 {
            Some(trimmed(n))
        } else {
            None
        },
        None => None,
    }
}

/// The normalized phone number, where it is given and has something to it.
pub open spec fn clean_phone(phone: Option<Seq<char>>) -> Option<Seq<char>> {
    match phone {
        Some(p) => if normalized_phone(p).len() > 0 {
            Some(normalized_phone(p))
        } else {
            None
        },
        None => None,
    }
}

/// What identifies the customer of a sale: the phone number where there is
/// one, else the name, else nothing.
pub open spec fn key_of(name: Option<Seq<char>>, phone: Option<Seq<char>>) -> Option<KeyView> {
    match (clean_phone(phone), clean_name(name)) {
        (Some(p), n) => Some(KeyView::Phone(p, n)),
        (None, Some(n)) => Some(KeyView::Name(n)),
        (None, None) => None,
    }
}

/// The normalized phone number, where it is given and has something to it.
pub fn usable_phone(phone: Option<&str>) -> (r: Option<String>)
    ensures
        opt_view(r) == clean_phone(opt_str_view(phone)),
{
    match phone {
        Some(p) => {
            let n = normalize_phone(p);
            if n.as_str().is_empty() {
                None
            } else {
                Some(n)
            }
        },
        None => None,
    }
}

/// The trimmed name, where it is given and not blank.
pub fn usable_name(name: Option<&str>) -> (r: Option<String>)
    ensures
        opt_view(r) == clean_name(opt_str_view(name)),
{
    match name {
        Some(n) => {
            let t = trim(n);
            if t.as_str().is_empty() {
                None
            } else {
                Some(t)
            }
        },
        None => None,
    }
}

/// What identifies the customer of a sale. `None` where neither a name nor a
/// phone number was given, which identifies nobody.
pub fn customer_key(name: Option<&str>, phone: Option<&str>) -> (r: Option<CustomerKey>)
    ensures
        match r {
            Some(k) => key_of(opt_str_view(name), opt_str_view(phone)) == Some(k@),
            None => key_of(opt_str_view(name), opt_str_view(phone)) is None,
        },
{
    let name = usable_name(name);
    match usable_phone(phone) {
        Some(phone) => Some(CustomerKey::Phone { phone, name }),
        None => match name {
            Some(known_as) => Some(CustomerKey::Name { known_as }),
            None => None,
        },
    }
}

/// What becomes of the list of customers.
#[derive(Debug)]
pub enum CustomerAction {
    /// The sale belongs to this customer, who may get a new name.
    Use { id: String, rename: Option<String> },
    /// A new customer.
    Create { name: Option<String>, phone: Option<String> },
}

/// What becomes of the list of customers.
pub enum ActionView {
    Use(Seq<char>, Option<Seq<char>>),
    Create(Option<Seq<char>>, Option<Seq<char>>),
}

impl View for CustomerAction {
    type V = ActionView;

    open spec fn view(&self) -> ActionView {
        match *self {
            CustomerAction::Use { id, rename } => ActionView::Use(id@, opt_view(rename)),
            CustomerAction::Create { name, phone } => ActionView::Create(opt_view(name), opt_view(phone)),
        }
    }
}

/// What a sale does to the list of customers, given the customer that the key
/// found. Someone found by phone takes the name given this time; someone found
/// by name stays as they are.
pub open spec fn action_for(key: KeyView, existing: Option<Seq<char>>) -> ActionView {
    match (key, existing) {
        (KeyView::Phone(phone, name), Some(id)) => ActionView::Use(id, name),
        (KeyView::Phone(phone, name), None) => ActionView::Create(name, Some(phone)),
        (KeyView::Name(name), Some(id)) => ActionView::Use(id, None),
        (KeyView::Name(name), None) => ActionView::Create(Some(name), None),
    }
}

/// Decides what a sale does to the list of customers.
pub fn find_or_create(key: CustomerKey, existing: Option<String>) -> (r: CustomerAction)
    ensures
        r@ == action_for(key@, opt_view(existing)),
{
    match (key, existing) {
        (CustomerKey::Phone { phone, name }, Some(id)) => CustomerAction::Use { id, rename: name },
        (CustomerKey::Phone { phone, name }, None) => CustomerAction::Create { name, phone: Some(phone) },
        (CustomerKey::Name { known_as }, Some(id)) => CustomerAction::Use { id, rename: None },
        (CustomerKey::Name { known_as }, None) => CustomerAction::Create { name: Some(known_as), phone: None },
    }
}

/// Two typings of one phone number find the same customer, whatever name was
/// given with them.
pub proof fn law_one_phone_is_one_customer(
    name_a: Option<Seq<char>>,
    name_b: Option<Seq<char>>,
    phone_a: Seq<char>,
    phone_b: Seq<char>,
)
    requires
        normalized_phone(phone_a) == normalized_phone(phone_b),
        normalized_phone(phone_a).len() > 0,
    ensures
        key_of(name_a, Some(phone_a)) == Some(KeyView::Phone(normalized_phone(phone_a), clean_name(name_a))),
        key_of(name_b, Some(phone_b)) == Some(KeyView::Phone(normalized_phone(phone_a), clean_name(name_b))),
{
}

/// A sale goes to the customer that was found for it, and where none was found a
/// new one is made of what the sale says: the name without outer blanks and the
/// number in its normal form. A customer known by the phone goes by the name
/// that was given last; one known by the name alone keeps it.
pub proof fn law_sales_go_to_their_customer(
    name: Option<Seq<char>>,
    phone: Option<Seq<char>>,
    existing: Option<Seq<char>>,
)
    ensures
        ({
            let has_name = name is Some && !blank(name->0);
            let has_phone = phone is Some && normalized_phone(phone->0).len() > 0;
            &&& key_of(name, phone) is Some <==> has_name || has_phone
            &&& key_of(name, phone) matches Some(key) ==> match action_for(key, existing) {
                ActionView::Use(id, rename) => {
                    &&& existing == Some(id)
                    &&& rename == if has_phone && has_name {
                        Some(trimmed(name->0))
                    } else {
                        None
                    }
                },
                ActionView::Create(new_name, new_phone) => {
                    &&& existing is None
                    &&& new_name == if has_name {
                        Some(trimmed(name->0))
                    } else {
                        None
                    }
                    &&& new_phone == if has_phone {
                        Some(normalized_phone(phone->0))
                    } else {
                        None
                    }
                },
            }
        }),
{
}

/// The normal form of a number has every digit that was typed, in order, and
/// nothing else but the plus that it began with.
pub proof fn law_a_number_keeps_its_digits(phone: Seq<char>)
    ensures
        ({
            let n = normalized_phone(phone);
            let t = trimmed(phone);
            &&& only_digits(n) == only_digits(t)
            &&& forall|i: int| 0 <= i < n.len() ==> is_digit(#[trigger] n[i]) || (i == 0 && n[i] == '+')
            &&& n.len() > 0 && n[0] == '+' <==> t.len() > 0 && t[0] == '+'
        }),
{
    let t = trimmed(phone);
    let n = normalized_phone(phone);
    if t.len() > 0 && t[0] == '+' {
        let rest = t.skip(1);
        lemma_only_digits(rest);
        lemma_only_digits_of_digits(only_digits(rest));
        lemma_plus_is_no_digit(t);
        lemma_plus_is_no_digit(n);
        assert(n.skip(1) =~= only_digits(rest));
        assert forall|i: int| 0 <= i < n.len() implies is_digit(#[trigger] n[i]) || (i == 0 && n[i] == '+') by {
            if i > 0 {
                assert(n[i] == only_digits(rest)[i - 1]);
            }
        }
    } else {
        lemma_only_digits(t);
        lemma_only_digits_of_digits(only_digits(t));
        if n.len() > 0 {
            assert(is_digit(n[0]));
        }
    }
}

// ---------------------------------------------------------------------------
// Searching
// ---------------------------------------------------------------------------

/// The patterns of a search among the customers.
#[derive(Debug)]
pub struct SearchPatterns {
    pub name: String,
    /// Only where the search term has a digit in it.
    pub phone: Option<String>,
}

/// The pattern that finds a text anywhere.
pub open spec fn anywhere(s: Seq<char>) -> Seq<char> {
    "%"@ + s + "%"@
}

/// Whether some digit is among the characters.
pub open spec fn has_digit(s: Seq<char>) -> bool {
    exists|i: int| 0 <= i < s.len() && is_digit(#[trigger] s[i])
}

/// What a search looks for among names, and among numbers.
pub open spec fn patterns_for(query: Seq<char>) -> (Seq<char>, Option<Seq<char>>) {
    (
        anywhere(trimmed(query)),
        if has_digit(trimmed(query)) {
            Some(anywhere(normalized_phone(trimmed(query))))
        } else {
            None
        },
    )
}

fn text_has_digit(s: &str) -> (b: bool)
    ensures
        b == has_digit(s@),
{
    let v = to_chars(s);
    let mut i: usize = 0;
    while i < v.len()
        invariant
            v@ == s@,
            i <= v@.len(),
            forall|k: int| 0 <= k < i ==> !is_digit(#[trigger] s@[k]),
        decreases v@.len() - i,
    {
        if char_is_digit(v[i]) {
            assert(is_digit(s@[i as int]));
            return true;
        }
        i = i + 1;
    }
    false
}

/// The patterns of a search. A blank term finds nobody. The phone is searched
/// by the normalized form that is stored, and only where the term has a digit:
/// a search for a name stays a search for a name.
pub fn search(query: &str) -> (r: Option<SearchPatterns>)
    ensures
        match r {
            None => crate::text::blank(query@),
            Some(p) => {
                let t = trimmed(query@);
                &&& !crate::text::blank(query@)
                &&& (p.name@, opt_view(p.phone)) == patterns_for(query@)
                &&& p.name@ == anywhere(t)
                &&& opt_view(p.phone) == if has_digit(t) {
                    Some(anywhere(normalized_phone(t)))
                } else {
                    None
                }
            },
        },
{
    let t = trim(query);
    if t.as_str().is_empty() {
        return None;
    }
    let phone = if text_has_digit(t.as_str()) {
        Some(cat3("%", normalize_phone(t.as_str()).as_str(), "%"))
    } else {
        None
    };
    Some(SearchPatterns { name: cat3("%", t.as_str(), "%"), phone })
}

// ---------------------------------------------------------------------------
// Lifetime value
// ---------------------------------------------------------------------------

/// The revenue of the first `n` purchases.
pub open spec fn revenue_of(purchases: Seq<i64>, n: nat) -> int
    decreases n,
{
    if n == 0 {
        0
    } else {
        revenue_of(purchases, (n - 1) as nat) + purchases[n - 1]
    }
}

/// Every partial sum of the revenues fits in 64 bits.
pub open spec fn revenue_fits(purchases: Seq<i64>) -> bool {
    forall|n: nat| n <= purchases.len() ==> i64::MIN <= #[trigger] revenue_of(purchases, n) <= i64::MAX
}

/// A customer's lifetime value: the revenue of all their purchases, computed
/// from the sales themselves.
pub fn lifetime_value(purchases: &Vec<i64>) -> (total: i64)
    requires
        revenue_fits(purchases@),
    ensures
        total == revenue_of(purchases@, purchases@.len()),
{
    let mut total: i64 = 0;
    let mut i: usize = 0;
    while i < purchases.len()
        invariant
            i <= purchases@.len(),
            revenue_fits(purchases@),
            total == revenue_of(purchases@, i as nat),
        decreases purchases@.len() - i,
    {
        assert(i64::MIN <= revenue_of(purchases@, (i + 1) as nat) <= i64::MAX);
        total = total + purchases[i];
        i = i + 1;
    }
    total
}

// ---------------------------------------------------------------------------
// Whose sale it is
// ---------------------------------------------------------------------------

/// Whether a sale is one of a customer's. A customer with a phone number has
/// the sales with that number. One without has the sales without a number that
/// carry the customer's name, in whatever case.
pub open spec fn owns_sale(
    phone: Option<Seq<char>>,
    name: Option<Seq<char>>,
    sale_phone: Option<Seq<char>>,
    sale_name: Option<Seq<char>>,
) -> bool {
    match phone {
        Some(p) => sale_phone == Some(p),
        None => {
            &&& sale_phone matches Some(p) ==> p.len() == 0
            &&& name is Some && sale_name is Some
            &&& ascii_lowered(sale_name->0) == ascii_lowered(name->0)
        },
    }
}

/// Whether a sale is one of a customer's.
pub fn is_sale_of(
    phone: &Option<String>,
    name: &Option<String>,
    sale_phone: &Option<String>,
    sale_name: &Option<String>,
) -> (b: bool)
    ensures
        b == owns_sale(opt_view(*phone), opt_view(*name), opt_view(*sale_phone), opt_view(*sale_name)),
{
    match phone {
        Some(p) => match sale_phone {
            Some(q) => same(q.as_str(), p.as_str()),
            None => false,
        },
        None => {
            let anonymous = match sale_phone {
                Some(q) => is_empty(q.as_str()),
                None => true,
            };
            match (name, sale_name) {
                (Some(n), Some(m)) => anonymous && same_ignoring_case(m.as_str(), n.as_str()),
                _ => false,
            }
        },
    }
}

/// A sale with a phone number belongs to whoever has that number, and to no
/// one else: neither to another number nor to a customer known by name alone.
pub proof fn law_a_phone_owns_its_sales(
    phone: Option<Seq<char>>,
    name: Option<Seq<char>>,
    sale_phone: Seq<char>,
    sale_name: Option<Seq<char>>,
)
    requires
        sale_phone.len() > 0,
    ensures
        owns_sale(phone, name, Some(sale_phone), sale_name) <==> phone == Some(sale_phone),
{
}

/// The customer that a sale was made for owns that sale: whoever was made of its
/// name and its number does. A sale without a number belongs to whoever goes by
/// its name, in any letter case, and has no number either.
pub proof fn law_customers_own_the_sales_made_for_them(
    name: Option<Seq<char>>,
    phone: Option<Seq<char>>,
    customer_name: Option<Seq<char>>,
    sale_name: Seq<char>,
)
    ensures
        key_of(name, phone) is Some ==> owns_sale(
            clean_phone(phone),
            clean_name(name),
            clean_phone(phone),
            clean_name(name),
        ),
        customer_name is Some ==> (owns_sale(None, customer_name, None, Some(sale_name)) <==> ascii_lowered(
            customer_name->0,
        ) == ascii_lowered(sale_name)),
        !owns_sale(None, None, None, Some(sale_name)),
        phone is Some ==> !owns_sale(phone, Some(sale_name), None, Some(sale_name)),
{
}

/// What a customer has spent in all is the sum of the purchases.
pub proof fn law_lifetime_value_is_the_sum(purchases: Seq<i64>, n: nat)
    requires
        n <= purchases.len(),
    ensures
        revenue_of(purchases, n) == sum_upto(n, |i: int| purchases[i] as int),
    decreases n,
{
    if n > 0 {
        law_lifetime_value_is_the_sum(purchases, (n - 1) as nat);
    }
}

/// A search looks for the term, without outer blanks, anywhere in a name, and for
/// its digits anywhere in a number where it has any.
pub proof fn law_searches_look_anywhere(query: Seq<char>)
    requires
        !blank(query),
    ensures
        ({
            let (name, phone) = patterns_for(query);
            let t = trimmed(query);
            &&& name.len() == t.len() + 2 && name[0] == '%' && name.last() == '%' && name.subrange(
                1,
                name.len() - 1,
            ) == t
            &&& phone is Some <==> exists|i: int| 0 <= i < t.len() && is_digit(#[trigger] t[i])
            &&& phone is Some ==> phone->0[0] == '%' && phone->0.last() == '%' && phone->0.subrange(
                1,
                phone->0.len() - 1,
            ) == normalized_phone(query)
        }),
{
    reveal_strlit("%");
    let t = trimmed(query);
    let (name, phone) = patterns_for(query);
    assert(name.subrange(1, name.len() - 1) =~= t);
    lemma_trimming_twice_is_once(query);
    if phone is Some {
        assert(phone->0.subrange(1, phone->0.len() - 1) =~= normalized_phone(query));
    }
}

proof fn lemma_trimming_twice_is_once(s: Seq<char>)
    ensures
        trimmed(trimmed(s)) == trimmed(s),
{
    let a = crate::text::trim_start(s);
    lemma_trim_start_ends(s);
    lemma_trim_end_ends(a);
    crate::text::lemma_trim_fixed(trimmed(s));
}

proof fn lemma_trim_start_ends(s: Seq<char>)
    ensures
        crate::text::trim_start(s).len() > 0 ==> !crate::text::is_white(crate::text::trim_start(s)[0]),
    decreases s.len(),
{
    if s.len() > 0 && crate::text::is_white(s[0]) {
        lemma_trim_start_ends(s.drop_first());
    }
}

proof fn lemma_trim_end_ends(s: Seq<char>)
    ensures
        crate::text::trim_end(s).len() > 0 ==> !crate::text::is_white(crate::text::trim_end(s).last()),
        crate::text::trim_end(s).len() > 0 ==> s.len() > 0 && crate::text::trim_end(s)[0] == s[0],
    decreases s.len(),
{
    if s.len() > 0 && crate::text::is_white(s.last()) {
        lemma_trim_end_ends(s.drop_last());
    }
}

} // verus!
