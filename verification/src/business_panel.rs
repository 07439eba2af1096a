//! The panel of a business: its modules, its recovery code and its settings.

use crate::codec::random_below;
use crate::text::{
    cat3, lemma_precedes_irreflexive, lemma_precedes_total, lemma_precedes_transitive, list_has, precedes, push_text,
    text_before, views,
};
use vstd::prelude::*;

verus! {

/// A module of a business, and whether it is on.
#[derive(Debug)]
pub struct ModuleStatus {
    pub id: String,
    pub display_name: String,
    pub enabled: bool,
}

impl View for ModuleStatus {
    type V = (Seq<char>, Seq<char>, bool);

    open spec fn view(&self) -> (Seq<char>, Seq<char>, bool) {
        (self.id@, self.display_name@, self.enabled)
    }
}

/// Whether a business has been set up.
pub fn any_business_exists(count: i64) -> (b: bool)
    ensures
        b == (count > 0),
{
    count > 0
}

// ---------------------------------------------------------------------------
// The recovery code
// ---------------------------------------------------------------------------

/// The characters of a recovery code: capital letters and digits without
/// those that are easily confused.
pub open spec fn code_char(k: int) -> char {
    (if k < 8 {
        65 + k
    } else if k < 13 {
        66 + k
    } else if k < 24 {
        67 + k
    } else {
        26 + k
    }) as char
}

/// Whether a character can stand in a recovery code: not `I`, `O`, `0` or `1`.
pub open spec fn in_code(c: char) -> bool {
    ||| 'A' <= c <= 'Z' && c != 'I' && c != 'O'
    ||| '2' <= c <= '9'
}

/// How many characters a recovery code is made of.
pub const CODE_CHARS: usize = 32;

fn get_code_char(k: usize) -> (c: char)
    requires
        k < CODE_CHARS,
    ensures
        c == code_char(k as int),
        in_code(c),
{
    let n: u8 = k as u8;
    let code: u8 = if n < 8 {
        65 + n
    } else if n < 13 {
        66 + n
    } else if n < 24 {
        67 + n
    } else {
        26 + n
    };
    code as char
}

/// Every character that may stand in a code is one of those it is made of.
pub proof fn law_code_chars_are_all(c: char)
    requires
        in_code(c),
    ensures
        exists|k: int| 0 <= k < CODE_CHARS && #[trigger] code_char(k) == c,
{
    let n = c as int;
    let k = if n < 65 {
        n - 26
    } else if n < 73 {
        n - 65
    } else if n < 79 {
        n - 66
    } else {
        n - 67
    };
    assert(code_char(k) == c);
}

/// The code of eight choices: two groups of four.
pub open spec fn code_of(k: Seq<int>) -> Seq<char> {
    "AC-"@ + seq![code_char(k[0]), code_char(k[1]), code_char(k[2]), code_char(k[3])] + "-"@ + seq![
        code_char(k[4]),
        code_char(k[5]),
        code_char(k[6]),
        code_char(k[7]),
    ]
}

/// The code of eight choices.
pub fn admin_code(choices: &Vec<usize>) -> (s: String)
    requires
        choices@.len() == 8,
        forall|i: int| 0 <= i < 8 ==> #[trigger] choices@[i] < CODE_CHARS,
    ensures
        s@ == code_of(choices@.map_values(|k: usize| k as int)),
{
    let mut s = "AC-".to_owned();
    let ghost k = choices@.map_values(|k: usize| k as int);
    s.push(get_code_char(choices[0]));
    s.push(get_code_char(choices[1]));
    s.push(get_code_char(choices[2]));
    s.push(get_code_char(choices[3]));
    s.append("-");
    s.push(get_code_char(choices[4]));
    s.push(get_code_char(choices[5]));
    s.push(get_code_char(choices[6]));
    s.push(get_code_char(choices[7]));
    assert(s@ =~= code_of(k));
    s
}

/// Makes a new recovery code. Which one cannot be said.
pub fn generate_admin_code() -> (s: String)
    ensures
        exists|k: Seq<int>|
            k.len() == 8 && (forall|i: int| 0 <= i < 8 ==> 0 <= #[trigger] k[i] < CODE_CHARS) && s@
                == #[trigger] code_of(k),
{
    let mut choices: Vec<usize> = Vec::new();
    while choices.len() < 8
        invariant
            choices@.len() <= 8,
            forall|i: int| 0 <= i < choices@.len() ==> #[trigger] choices@[i] < CODE_CHARS,
        decreases 8 - choices@.len(),
    {
        choices.push(random_below(CODE_CHARS));
    }
    let s = admin_code(&choices);
    proof {
        let k = choices@.map_values(|k: usize| k as int);
        assert forall|i: int| 0 <= i < 8 implies 0 <= #[trigger] k[i] < CODE_CHARS by {
            assert(choices@[i] < CODE_CHARS);
        }
        assert(s@ == code_of(k));
    }
    s
}

/// A code has twelve characters, and none that is easily confused with
/// another.
pub proof fn law_codes_are_readable(k: Seq<int>)
    requires
        k.len() == 8,
        forall|i: int| 0 <= i < 8 ==> 0 <= #[trigger] k[i] < CODE_CHARS,
    ensures
        code_of(k).len() == 12,
        forall|i: int| 3 <= i < 12 && i != 7 ==> in_code(#[trigger] code_of(k)[i]),
{
    reveal_strlit("AC-");
    reveal_strlit("-");
    assert(0 <= k[0] < CODE_CHARS && 0 <= k[1] < CODE_CHARS && 0 <= k[2] < CODE_CHARS && 0 <= k[3] < CODE_CHARS);
    assert(0 <= k[4] < CODE_CHARS && 0 <= k[5] < CODE_CHARS && 0 <= k[6] < CODE_CHARS && 0 <= k[7] < CODE_CHARS);
}

// ---------------------------------------------------------------------------
// The list of modules
// ---------------------------------------------------------------------------

/// The modules as ids, names and states.
pub open spec fn status_views(list: Seq<ModuleStatus>) -> Seq<(Seq<char>, Seq<char>, bool)> {
    list.map_values(|m: ModuleStatus| m@)
}

/// A list with one more module in the order of the names, after those of the
/// same name.
pub open spec fn placed_by_name(
    list: Seq<(Seq<char>, Seq<char>, bool)>,
    m: (Seq<char>, Seq<char>, bool),
) -> Seq<(Seq<char>, Seq<char>, bool)>
    decreases list.len(),
{
    if list.len() > 0 && precedes(m.1, list.last().1) {
        placed_by_name(list.drop_last(), m).push(list.last())
    } else {
        list.push(m)
    }
}

/// The modules in the order of their names; those of one name stay in order.
pub open spec fn by_name(list: Seq<(Seq<char>, Seq<char>, bool)>) -> Seq<(Seq<char>, Seq<char>, bool)>
    decreases list.len(),
{
    if list.len() == 0 {
        list
    } else {
        placed_by_name(by_name(list.drop_last()), list.last())
    }
}

/// Whether no module comes before one that is to stand before it.
pub open spec fn name_sorted(list: Seq<(Seq<char>, Seq<char>, bool)>) -> bool {
    forall|i: int, j: int| 0 <= i < j < list.len() ==> !precedes((#[trigger] list[j]).1, (#[trigger] list[i]).1)
}

/// A bundled module as the list shows it.
pub open spec fn shown(id: Seq<char>, name: Seq<char>, enabled: Seq<Seq<char>>) -> (Seq<char>, Seq<char>, bool) {
    (id, name, enabled.contains(id))
}

/// The modules of a program, each with whether it is on.
pub open spec fn all_shown(
    ids: Seq<Seq<char>>,
    names: Seq<Seq<char>>,
    enabled: Seq<Seq<char>>,
) -> Seq<(Seq<char>, Seq<char>, bool)> {
    Seq::new(ids.len(), |i: int| shown(ids[i], names[i], enabled))
}

fn place_by_name(list: &mut Vec<ModuleStatus>, m: ModuleStatus)
    ensures
        status_views(final(list)@) == placed_by_name(status_views(old(list)@), m@),
{
    let ghost before = status_views(list@);
    let mut k: usize = list.len();
    assert(before.take(k as int) =~= before);
    assert(placed_by_name(before.take(k as int), m@) + before.skip(k as int) =~= placed_by_name(before, m@));
    while k > 0 && text_before(m.display_name.as_str(), list[k - 1].display_name.as_str())
        invariant
            k <= list@.len(),
            before == status_views(list@),
            placed_by_name(before.take(k as int), m@) + before.skip(k as int) == placed_by_name(before, m@),
        decreases k,
    {
        proof {
            let head = before.take(k as int);
            assert(head.last() == list@[k - 1]@);
            assert(head.drop_last() =~= before.take(k - 1));
            assert(before.skip(k - 1) =~= seq![head.last()] + before.skip(k as int));
            assert(placed_by_name(before.take(k - 1), m@) + before.skip(k - 1) =~= placed_by_name(
                before.take(k - 1),
                m@,
            ).push(head.last()) + before.skip(k as int));
        }
        k = k - 1;
    }
    proof {
        let head = before.take(k as int);
        if k > 0 {
            assert(head.last() == list@[k - 1]@);
        }
        assert(placed_by_name(head, m@) == head.push(m@));
    }
    list.insert(k, m);
    assert(status_views(list@) =~= before.take(k as int).push(m@) + before.skip(k as int));
}

/// The modules that a business can have, in the order of their names, each
/// with whether it is on.
pub fn available_modules(ids: &Vec<String>, names: &Vec<String>, enabled: &Vec<String>) -> (list: Vec<ModuleStatus>)
    requires
        ids@.len() == names@.len(),
    ensures
        status_views(list@) == by_name(all_shown(views(ids@), views(names@), views(enabled@))),
{
    let mut list: Vec<ModuleStatus> = Vec::new();
    let ghost all = all_shown(views(ids@), views(names@), views(enabled@));
    let mut i: usize = 0;
    assert(status_views(list@) =~= all.take(0));
    while i < ids.len()
        invariant
            ids@.len() == names@.len(),
            i <= ids@.len(),
            all == all_shown(views(ids@), views(names@), views(enabled@)),
            status_views(list@) == by_name(all.take(i as int)),
        decreases ids@.len() - i,
    {
        assert(all.take(i + 1).drop_last() =~= all.take(i as int));
        let m = ModuleStatus {
            id: ids[i].clone(),
            display_name: names[i].clone(),
            enabled: list_has(enabled, ids[i].as_str()),
        };
        assert(m@ == all[i as int]);
        place_by_name(&mut list, m);
        i = i + 1;
    }
    assert(all.take(all.len() as int) =~= all);
    list
}

proof fn lemma_placed_keeps(
    list: Seq<(Seq<char>, Seq<char>, bool)>,
    m: (Seq<char>, Seq<char>, bool),
)
    requires
        name_sorted(list),
    ensures
        name_sorted(placed_by_name(list, m)),
        placed_by_name(list, m).to_multiset() =~= list.to_multiset().insert(m),
        forall|x: (Seq<char>, Seq<char>, bool)|
            #[trigger] placed_by_name(list, m).contains(x) <==> (list.contains(x) || x == m),
    decreases list.len(),
{
    broadcast use vstd::seq_lib::group_to_multiset_ensures;

    let out = placed_by_name(list, m);
    if list.len() > 0 && precedes(m.1, list.last().1) {
        let front = list.drop_last();
        assert(name_sorted(front)) by {
            assert forall|i: int, j: int| 0 <= i < j < front.len() implies !precedes(
                (#[trigger] front[j]).1,
                (#[trigger] front[i]).1,
            ) by {
                assert(front[j] == list[j] && front[i] == list[i]);
            }
        }
        lemma_placed_keeps(front, m);
        let rest = placed_by_name(front, m);
        assert(list =~= front.push(list.last()));
        assert forall|i: int, j: int| 0 <= i < j < out.len() implies !precedes(
            (#[trigger] out[j]).1,
            (#[trigger] out[i]).1,
        ) by {
            if j < rest.len() {
                assert(out[i] == rest[i] && out[j] == rest[j]);
            } else {
                assert(rest.contains(rest[i]));
                assert(front.contains(rest[i]) || rest[i] == m);
                assert(out[j] == list.last() && out[i] == rest[i]);
                if rest[i] == m {
                    lemma_precedes_irreflexive(m.1);
                    if precedes(list.last().1, m.1) {
                        lemma_precedes_transitive(m.1, list.last().1, m.1);
                    }
                } else {
                    let k = choose|k: int| 0 <= k < front.len() && front[k] == rest[i];
                    assert(list[k] == rest[i]);
                    assert(!precedes(list[list.len() - 1].1, list[k].1));
                }
            }
        }
        assert forall|x: (Seq<char>, Seq<char>, bool)| out.contains(x) <==> (list.contains(x) || x == m) by {
            if out.contains(x) {
                let k = choose|k: int| 0 <= k < out.len() && out[k] == x;
                if k < rest.len() {
                    assert(rest.contains(rest[k]));
                    if front.contains(x) {
                        let q = choose|q: int| 0 <= q < front.len() && front[q] == x;
                        assert(list[q] == x);
                    }
                } else {
                    assert(list[list.len() - 1] == x);
                }
            }
            if list.contains(x) {
                let k = choose|k: int| 0 <= k < list.len() && list[k] == x;
                if k < front.len() {
                    assert(front[k] == x);
                    assert(rest.contains(x));
                    let q = choose|q: int| 0 <= q < rest.len() && rest[q] == x;
                    assert(out[q] == x);
                } else {
                    assert(out[rest.len() as int] == x);
                }
            }
            if x == m {
                assert(rest.contains(m));
                let q = choose|q: int| 0 <= q < rest.len() && rest[q] == m;
                assert(out[q] == m);
            }
        }
        assert(out.to_multiset() =~= list.to_multiset().insert(m));
    } else {
        assert forall|i: int, j: int| 0 <= i < j < out.len() implies !precedes(
            (#[trigger] out[j]).1,
            (#[trigger] out[i]).1,
        ) by {
            if j < list.len() {
                assert(out[i] == list[i] && out[j] == list[j]);
            } else if i < list.len() - 1 {
                assert(!precedes(list[list.len() - 1].1, list[i].1));
                lemma_precedes_total(list.last().1, m.1);
                lemma_precedes_total(list[i].1, list.last().1);
                if precedes(m.1, list[i].1) {
                    if precedes(list[i].1, list.last().1) {
                        lemma_precedes_transitive(m.1, list[i].1, list.last().1);
                    }
                }
            }
        }
        assert forall|x: (Seq<char>, Seq<char>, bool)| out.contains(x) <==> (list.contains(x) || x == m) by {
            if list.contains(x) {
                let k = choose|k: int| 0 <= k < list.len() && list[k] == x;
                assert(out[k] == x);
            }
            if x == m {
                assert(out[list.len() as int] == x);
            }
        }
    }
}

/// The list shows every module exactly once, in the order of the names.
pub proof fn law_list_is_complete_and_sorted(list: Seq<(Seq<char>, Seq<char>, bool)>)
    ensures
        name_sorted(by_name(list)),
        by_name(list).to_multiset() == list.to_multiset(),
    decreases list.len(),
{
    broadcast use vstd::seq_lib::group_to_multiset_ensures;

    if list.len() > 0 {
        law_list_is_complete_and_sorted(list.drop_last());
        lemma_placed_keeps(by_name(list.drop_last()), list.last());
        assert(list =~= list.drop_last().push(list.last()));
        assert(by_name(list).to_multiset() =~= list.to_multiset());
    }
}

// ---------------------------------------------------------------------------
// Sentences
// ---------------------------------------------------------------------------

/// The sentence for a module that a business does not have.
pub fn unknown_module_text(module_id: &str) -> (s: String)
    ensures
        s@ == "module '"@ + module_id@ + "' not found for this business"@,
{
    cat3("module '", module_id, "' not found for this business")
}

/// The sentence for a role that a business does not have.
pub fn unknown_role_text(role: &str) -> (s: String)
    ensures
        s@ == "role '"@ + role@ + "' does not exist for this business"@,
{
    cat3("role '", role, "' does not exist for this business")
}

// ---------------------------------------------------------------------------
// Settings
// ---------------------------------------------------------------------------

/// The columns of a business that a change of settings touches: those that are
/// given, and no others.
pub open spec fn changed_columns(logo: bool, currency: bool, tax_rate: bool) -> Seq<Seq<char>> {
    (if logo {
        seq!["logo_path"@]
    } else {
        Seq::empty()
    }) + (if currency {
        seq!["currency"@]
    } else {
        Seq::empty()
    }) + (if tax_rate {
        seq!["tax_rate"@]
    } else {
        Seq::empty()
    })
}

/// The columns of a business that a change of settings touches.
pub fn update_columns(logo_path: &Option<String>, currency: &Option<String>, tax_rate: bool) -> (list: Vec<String>)
    ensures
        views(list@) == changed_columns(*logo_path is Some, *currency is Some, tax_rate),
{
    let mut list: Vec<String> = Vec::new();
    assert(views(list@) =~= Seq::<Seq<char>>::empty());
    if logo_path.is_some() {
        push_text(&mut list, "logo_path");
    }
    if currency.is_some() {
        push_text(&mut list, "currency");
    }
    if tax_rate {
        push_text(&mut list, "tax_rate");
    }
    assert(views(list@) =~= changed_columns(*logo_path is Some, *currency is Some, tax_rate));
    list
}

/// The list of modules says of each by its own name whether it is on: it is where
/// its id is among the enabled ones.
pub proof fn law_modules_say_whether_they_are_on(
    ids: Seq<Seq<char>>,
    names: Seq<Seq<char>>,
    enabled: Seq<Seq<char>>,
    i: int,
)
    requires
        0 <= i < ids.len() == names.len(),
    ensures
        all_shown(ids, names, enabled).len() == ids.len(),
        all_shown(ids, names, enabled)[i].0 == ids[i],
        all_shown(ids, names, enabled)[i].1 == names[i],
        all_shown(ids, names, enabled)[i].2 <==> enabled.contains(ids[i]),
{
}

/// Just the settings that were given are changed.
pub proof fn law_only_given_settings_change(logo: bool, currency: bool, tax_rate: bool)
    ensures
        changed_columns(logo, currency, tax_rate).contains("logo_path"@) <==> logo,
        changed_columns(logo, currency, tax_rate).contains("currency"@) <==> currency,
        changed_columns(logo, currency, tax_rate).contains("tax_rate"@) <==> tax_rate,
        changed_columns(logo, currency, tax_rate).no_duplicates(),
{
    reveal_strlit("logo_path");
    reveal_strlit("currency");
    reveal_strlit("tax_rate");
    assert("logo_path"@.len() == 9 && "currency"@.len() == 8 && "tax_rate"@.len() == 8);
    assert("currency"@[0] == 'c' && "tax_rate"@[0] == 't');
    let list = changed_columns(logo, currency, tax_rate);
    if logo {
        assert(list[0] == "logo_path"@);
    }
    if currency {
        assert(list[if logo {
            1int
        } else {
            0
        }] == "currency"@);
    }
    if tax_rate {
        assert(list[list.len() - 1] == "tax_rate"@);
    }
}

/// A recovery code says that it is one and is written in two groups of four.
pub proof fn law_codes_are_in_groups_of_four(k: Seq<int>, i: int)
    requires
        k.len() == 8,
        0 <= i < 8,
    ensures
        code_of(k).take(3) == "AC-"@,
        code_of(k)[7] == '-',
        code_of(k)[if i < 4 {
            3 + i
        } else {
            4 + i
        }] == code_char(k[i]),
{
    reveal_strlit("AC-");
    reveal_strlit("-");
    assert(code_of(k).take(3) =~= "AC-"@);
}

} // verus!
