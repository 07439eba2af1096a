//! Proposing records from the text of a scanned document. Nothing is created
//! from it: a person looks at every proposal first.

use crate::module::{FieldDef, ModuleDef, field_index, find_field};
use crate::reals::{finite, is_finite, real_bits, real_of, round_real, rounded};
use crate::text::{
    char_is_white, is_empty, is_white, join, joined, keep_nonempty, nonempty, pieces, push_text, remove_char, same,
    slice_text, split, to_chars, trim, trimmed, views, without,
};
use crate::value::{Record, Value, ValueView};
use vstd::prelude::*;

verus! {

// ---------------------------------------------------------------------------
// Tokens
// ---------------------------------------------------------------------------

/// The place of the first two spaces in a row, or the length.
pub open spec fn gap(s: Seq<char>) -> int
    decreases s.len(),
{
    if s.len() < 2 {
        s.len() as int
    } else if s[0] == ' ' && s[1] == ' ' {
        0
    } else {
        1 + gap(s.skip(1))
    }
}

proof fn lemma_gap(s: Seq<char>)
    ensures
        0 <= gap(s) <= s.len(),
        gap(s) < s.len() ==> gap(s) + 1 < s.len(),
    decreases s.len(),
{
    if s.len() >= 2 && !(s[0] == ' ' && s[1] == ' ') {
        lemma_gap(s.skip(1));
    }
}

/// The pieces of a line between gaps of two spaces.
pub open spec fn wide_pieces(s: Seq<char>) -> Seq<Seq<char>>
    decreases s.len(),
    via wide_pieces_decreases
{
    let k = gap(s);
    if k >= s.len() {
        seq![s]
    } else {
        seq![s.take(k)] + wide_pieces(s.skip(k + 2))
    }
}

#[via_fn]
proof fn wide_pieces_decreases(s: Seq<char>) {
    lemma_gap(s);
}

/// The place of the first white space, or the length.
pub open spec fn first_white(s: Seq<char>) -> int
    decreases s.len(),
{
    if s.len() == 0 || is_white(s[0]) {
        0
    } else {
        1 + first_white(s.skip(1))
    }
}

proof fn lemma_first_white(s: Seq<char>)
    ensures
        0 <= first_white(s) <= s.len(),
    decreases s.len(),
{
    if s.len() > 0 && !is_white(s[0]) {
        lemma_first_white(s.skip(1));
    }
}

/// The pieces of a line between single white spaces.
pub open spec fn white_pieces(s: Seq<char>) -> Seq<Seq<char>>
    decreases s.len(),
    via white_pieces_decreases
{
    let k = first_white(s);
    if k >= s.len() {
        seq![s]
    } else {
        seq![s.take(k)] + white_pieces(s.skip(k + 1))
    }
}

#[via_fn]
proof fn white_pieces_decreases(s: Seq<char>) {
    lemma_first_white(s);
}

/// The texts without white space around them.
pub open spec fn all_trimmed(list: Seq<Seq<char>>) -> Seq<Seq<char>> {
    list.map_values(|s: Seq<char>| trimmed(s))
}

/// The tokens of a line: its columns where wide gaps make more than one, else
/// its words.
pub open spec fn tokens_of(line: Seq<char>) -> Seq<Seq<char>> {
    let columns = nonempty(all_trimmed(wide_pieces(line)));
    if columns.len() > 1 {
        columns
    } else {
        nonempty(white_pieces(line))
    }
}

fn find_gap(v: &Vec<char>, lo: usize) -> (k: usize)
    requires
        lo <= v@.len(),
    ensures
        lo <= k <= v@.len(),
        k == lo + gap(v@.skip(lo as int)),
        k < v@.len() ==> k + 1 < v@.len(),
{
    let mut k: usize = lo;
    while k < v.len()
        invariant
            lo <= k <= v@.len(),
            k + gap(v@.skip(k as int)) == lo + gap(v@.skip(lo as int)),
        decreases v@.len() - k,
    {
        let ghost rest = v@.skip(k as int);
        assert(rest.skip(1) =~= v@.skip(k + 1));
        if v.len() - k < 2 {
            return v.len();
        }
        assert(rest[0] == v@[k as int] && rest[1] == v@[k + 1]);
        if v[k] == ' ' && v[k + 1] == ' ' {
            return k;
        }
        k = k + 1;
    }
    k
}

fn find_white(v: &Vec<char>, lo: usize) -> (k: usize)
    requires
        lo <= v@.len(),
    ensures
        lo <= k <= v@.len(),
        k == lo + first_white(v@.skip(lo as int)),
{
    let mut k: usize = lo;
    while k < v.len()
        invariant
            lo <= k <= v@.len(),
            k + first_white(v@.skip(k as int)) == lo + first_white(v@.skip(lo as int)),
        decreases v@.len() - k,
    {
        let ghost rest = v@.skip(k as int);
        assert(rest.skip(1) =~= v@.skip(k + 1));
        assert(rest[0] == v@[k as int]);
        if char_is_white(v[k]) {
            return k;
        }
        k = k + 1;
    }
    k
}

fn columns_of(line: &str) -> (r: Vec<String>)
    ensures
        views(r@) == all_trimmed(wide_pieces(line@)),
{
    let v = to_chars(line);
    let mut r: Vec<String> = Vec::new();
    let mut lo: usize = 0;
    let ghost goal = all_trimmed(wide_pieces(line@));
    proof {
        assert(v@.skip(0) =~= v@);
        assert(views(r@) + all_trimmed(wide_pieces(v@.skip(0))) =~= goal);
    }
    loop
        invariant_except_break
            lo <= v@.len(),
            views(r@) + all_trimmed(wide_pieces(v@.skip(lo as int))) == goal,
        ensures
            views(r@) == goal,
        decreases v@.len() - lo,
    {
        let k: usize = find_gap(&v, lo);
        let piece = slice_text(&v, lo, k);
        let ghost rest = v@.skip(lo as int);
        let ghost before = views(r@);
        assert(piece@ =~= rest.take(k - lo));
        let t = trim(piece.as_str());
        push_text(&mut r, t.as_str());
        if k >= v.len() {
            proof {
                assert(rest.take(k - lo) =~= rest);
                assert(all_trimmed(wide_pieces(rest)) =~= seq![trimmed(rest)]);
                assert(views(r@) =~= before + all_trimmed(wide_pieces(rest)));
            }
            break;
        }
        proof {
            assert(rest.skip(k - lo + 2) =~= v@.skip(k + 2));
            let tail = wide_pieces(v@.skip(k + 2));
            assert(wide_pieces(rest) =~= seq![rest.take(k - lo)] + tail);
            assert(all_trimmed(seq![rest.take(k - lo)] + tail) =~= seq![trimmed(rest.take(k - lo))] + all_trimmed(
                tail,
            ));
            assert(before + all_trimmed(wide_pieces(rest)) =~= before.push(t@) + all_trimmed(tail));
        }
        lo = k + 2;
    }
    r
}

fn words_of(line: &str) -> (r: Vec<String>)
    ensures
        views(r@) == white_pieces(line@),
{
    let v = to_chars(line);
    let mut r: Vec<String> = Vec::new();
    let mut lo: usize = 0;
    proof {
        assert(v@.skip(0) =~= v@);
        assert(views(r@) + white_pieces(v@.skip(0)) =~= white_pieces(line@));
    }
    loop
        invariant_except_break
            lo <= v@.len(),
            views(r@) + white_pieces(v@.skip(lo as int)) == white_pieces(line@),
        ensures
            views(r@) == white_pieces(line@),
        decreases v@.len() - lo,
    {
        let k: usize = find_white(&v, lo);
        let piece = slice_text(&v, lo, k);
        let ghost rest = v@.skip(lo as int);
        let ghost before = views(r@);
        assert(piece@ =~= rest.take(k - lo));
        push_text(&mut r, piece.as_str());
        if k >= v.len() {
            proof {
                assert(rest.take(k - lo) =~= rest);
                assert(views(r@) =~= before + white_pieces(rest));
            }
            break;
        }
        proof {
            assert(rest.skip(k - lo + 1) =~= v@.skip(k + 1));
            assert(before + white_pieces(rest) =~= before.push(piece@) + white_pieces(v@.skip(k + 1)));
        }
        lo = k + 1;
    }
    r
}

/// The tokens of a line.
pub fn tokenize(line: &str) -> (r: Vec<String>)
    ensures
        views(r@) == tokens_of(line@),
{
    let columns = keep_nonempty(&columns_of(line));
    assert(views(columns@).len() == columns@.len());
    if columns.len() > 1 {
        columns
    } else {
        keep_nonempty(&words_of(line))
    }
}

// ---------------------------------------------------------------------------
// Proposals
// ---------------------------------------------------------------------------

/// A token of a line, with the bits of the number that it writes where it
/// writes one.
#[derive(Debug)]
pub struct Token {
    pub text: String,
    pub number: Option<u64>,
}

impl View for Token {
    type V = (Seq<char>, Option<u64>);

    open spec fn view(&self) -> (Seq<char>, Option<u64>) {
        (self.text@, self.number)
    }
}

/// The tokens as pairs of text and number.
pub open spec fn token_views(tokens: Seq<Token>) -> Seq<(Seq<char>, Option<u64>)> {
    tokens.map_values(|t: Token| t@)
}

/// A proposed record.
#[derive(Debug)]
pub struct CandidateRecord {
    pub raw_line: String,
    pub fields: Record,
    /// The fields that a number was found for; the rest is a guess.
    pub confident_fields: Vec<String>,
    /// Required fields that the line does not have.
    pub missing_required_fields: Vec<String>,
}

/// The names of the fields of a proposal that take numbers, in order.
pub open spec fn number_fields(fields: Seq<FieldDef>) -> Seq<Seq<char>>
    decreases fields.len(),
{
    if fields.len() == 0 {
        Seq::empty()
    } else if fields.last().field_type@ == "integer"@ || fields.last().field_type@ == "real"@ {
        number_fields(fields.drop_last()).push(fields.last().name@)
    } else {
        number_fields(fields.drop_last())
    }
}

/// The names of the text fields, in order.
pub open spec fn text_fields(fields: Seq<FieldDef>) -> Seq<Seq<char>>
    decreases fields.len(),
{
    if fields.len() == 0 {
        Seq::empty()
    } else if fields.last().field_type@ == "text"@ {
        text_fields(fields.drop_last()).push(fields.last().name@)
    } else {
        text_fields(fields.drop_last())
    }
}

/// Whether a text field is the kind that names a thing.
pub open spec fn naming_field(name: Seq<char>) -> bool {
    name == "name"@ || name == "description"@ || name == "item_name"@ || name == "full_name"@
}

/// The first naming field of a list, or else its first field.
pub open spec fn naming_or_first(names: Seq<Seq<char>>, k: int) -> Option<Seq<char>>
    decreases names.len() - k,
{
    if k < 0 || k >= names.len() {
        if names.len() > 0 {
            Some(names[0])
        } else {
            None
        }
    } else if naming_field(names[k]) {
        Some(names[k])
    } else {
        naming_or_first(names, k + 1)
    }
}

/// The numbers of the tokens, in order.
pub open spec fn numbers_in(tokens: Seq<(Seq<char>, Option<u64>)>) -> Seq<u64>
    decreases tokens.len(),
{
    if tokens.len() == 0 {
        Seq::empty()
    } else if tokens.last().1 is Some {
        numbers_in(tokens.drop_last()).push(tokens.last().1->0)
    } else {
        numbers_in(tokens.drop_last())
    }
}

/// The tokens that are no numbers, in order.
pub open spec fn words_in(tokens: Seq<(Seq<char>, Option<u64>)>) -> Seq<Seq<char>>
    decreases tokens.len(),
{
    if tokens.len() == 0 {
        Seq::empty()
    } else if tokens.last().1 is Some {
        words_in(tokens.drop_last())
    } else {
        words_in(tokens.drop_last()).push(tokens.last().0)
    }
}

/// A number as the value of a field: whole for an integer field; one that is
/// not finite is no value for any other.
pub open spec fn number_value(fields: Seq<FieldDef>, name: Seq<char>, bits: u64) -> ValueView {
    if fields[field_index(fields, name)].field_type@ == "integer"@ {
        ValueView::Int(rounded(bits) as i64)
    } else if finite(bits) {
        ValueView::Real(bits)
    } else {
        ValueView::Null
    }
}

/// The values for the first `n` numbers: the k-th number goes to the k-th
/// field that takes one.
pub open spec fn placed(fields: Seq<FieldDef>, numbers: Seq<u64>, n: nat) -> Map<Seq<char>, ValueView>
    decreases n,
{
    if n == 0 {
        Map::empty()
    } else {
        let name = number_fields(fields)[n - 1];
        placed(fields, numbers, (n - 1) as nat).insert(name, number_value(fields, name, numbers[n - 1]))
    }
}

/// How many numbers find a field.
pub open spec fn placed_count(fields: Seq<FieldDef>, numbers: Seq<u64>) -> nat {
    if numbers.len() < number_fields(fields).len() {
        numbers.len()
    } else {
        number_fields(fields).len()
    }
}

/// The values that the tokens of a line give.
pub open spec fn candidate_fields(fields: Seq<FieldDef>, tokens: Seq<(Seq<char>, Option<u64>)>) -> Map<
    Seq<char>,
    ValueView,
> {
    let numbers = numbers_in(tokens);
    let map = placed(fields, numbers, placed_count(fields, numbers));
    match naming_or_first(text_fields(fields), 0) {
        Some(name) => if words_in(tokens).len() > 0 {
            map.insert(name, ValueView::Text(joined(words_in(tokens), " "@)))
        } else {
            map
        },
        None => map,
    }
}

/// The required fields without a default that a map lacks, in order.
pub open spec fn missing_fields(fields: Seq<FieldDef>, map: Map<Seq<char>, ValueView>) -> Seq<Seq<char>>
    decreases fields.len(),
{
    if fields.len() == 0 {
        Seq::empty()
    } else {
        let f = fields.last();
        let before = missing_fields(fields.drop_last(), map);
        if f.required && f.default is None && !map.dom().contains(f.name@) {
            before.push(f.name@)
        } else {
            before
        }
    }
}

/// The proposal for a line of these tokens; none where they give no value.
pub open spec fn proposes(
    c: CandidateRecord,
    fields: Seq<FieldDef>,
    line: Seq<char>,
    tokens: Seq<(Seq<char>, Option<u64>)>,
) -> bool {
    let numbers = numbers_in(tokens);
    let map = candidate_fields(fields, tokens);
    &&& c.raw_line@ == line
    &&& c.fields@ == map
    &&& views(c.confident_fields@) == number_fields(fields).take(placed_count(fields, numbers) as int)
    &&& views(c.missing_required_fields@) == missing_fields(fields, map)
}

fn get_number_fields(fields: &Vec<FieldDef>) -> (r: Vec<String>)
    ensures
        views(r@) == number_fields(fields@),
{
    let mut r: Vec<String> = Vec::new();
    let mut i: usize = 0;
    assert(fields@.take(0) =~= Seq::<FieldDef>::empty());
    assert(views(r@) =~= Seq::<Seq<char>>::empty());
    while i < fields.len()
        invariant
            i <= fields@.len(),
            views(r@) == number_fields(fields@.take(i as int)),
        decreases fields@.len() - i,
    {
        assert(fields@.take(i + 1).drop_last() =~= fields@.take(i as int));
        if same(fields[i].field_type.as_str(), "integer") || same(fields[i].field_type.as_str(), "real") {
            push_text(&mut r, fields[i].name.as_str());
        }
        i = i + 1;
    }
    assert(fields@.take(fields@.len() as int) =~= fields@);
    r
}

fn get_text_fields(fields: &Vec<FieldDef>) -> (r: Vec<String>)
    ensures
        views(r@) == text_fields(fields@),
{
    let mut r: Vec<String> = Vec::new();
    let mut i: usize = 0;
    assert(fields@.take(0) =~= Seq::<FieldDef>::empty());
    assert(views(r@) =~= Seq::<Seq<char>>::empty());
    while i < fields.len()
        invariant
            i <= fields@.len(),
            views(r@) == text_fields(fields@.take(i as int)),
        decreases fields@.len() - i,
    {
        assert(fields@.take(i + 1).drop_last() =~= fields@.take(i as int));
        if same(fields[i].field_type.as_str(), "text") {
            push_text(&mut r, fields[i].name.as_str());
        }
        i = i + 1;
    }
    assert(fields@.take(fields@.len() as int) =~= fields@);
    r
}

fn choose_naming_field(names: &Vec<String>) -> (r: Option<String>)
    ensures
        crate::text::opt_view(r) == naming_or_first(views(names@), 0),
{
    let mut k: usize = 0;
    while k < names.len()
        invariant
            k <= names@.len(),
            naming_or_first(views(names@), k as int) == naming_or_first(views(names@), 0),
        decreases names@.len() - k,
    {
        let n = names[k].as_str();
        assert(views(names@)[k as int] == n@);
        if same(n, "name") || same(n, "description") || same(n, "item_name") || same(n, "full_name") {
            return Some(n.to_owned());
        }
        k = k + 1;
    }
    if names.len() > 0 {
        assert(views(names@)[0] == names@[0]@);
        Some(names[0].clone())
    } else {
        None
    }
}

fn get_missing_fields(fields: &Vec<FieldDef>, map: &Record) -> (r: Vec<String>)
    ensures
        views(r@) == missing_fields(fields@, map@),
{
    let mut r: Vec<String> = Vec::new();
    let mut i: usize = 0;
    assert(fields@.take(0) =~= Seq::<FieldDef>::empty());
    assert(views(r@) =~= Seq::<Seq<char>>::empty());
    while i < fields.len()
        invariant
            i <= fields@.len(),
            views(r@) == missing_fields(fields@.take(i as int), map@),
        decreases fields@.len() - i,
    {
        assert(fields@.take(i + 1).drop_last() =~= fields@.take(i as int));
        let f = &fields[i];
        if f.required && f.default.is_none() && !map.has(f.name.as_str()) {
            push_text(&mut r, f.name.as_str());
        }
        i = i + 1;
    }
    assert(fields@.take(fields@.len() as int) =~= fields@);
    r
}

proof fn lemma_number_field_is_field(fields: Seq<FieldDef>, k: int)
    requires
        0 <= k < number_fields(fields).len(),
    ensures
        exists|i: int| 0 <= i < fields.len() && (#[trigger] fields[i]).name@ == number_fields(fields)[k],
    decreases fields.len(),
{
    if fields.len() > 0 {
        let before = number_fields(fields.drop_last());
        if k < before.len() {
            lemma_number_field_is_field(fields.drop_last(), k);
            let i = choose|i: int|
                0 <= i < fields.drop_last().len() && (#[trigger] fields.drop_last()[i]).name@ == before[k];
            assert(fields[i].name@ == number_fields(fields)[k]);
        } else {
            assert(fields[fields.len() - 1].name@ == number_fields(fields)[k]);
        }
    }
}

/// Proposes a record for a line, given its tokens.
pub fn propose(module: &ModuleDef, line: &str, tokens: &Vec<Token>) -> (r: Option<CandidateRecord>)
    ensures
        match r {
            Some(c) => {
                &&& candidate_fields(module.fields@, token_views(tokens@)) != Map::<Seq<char>, ValueView>::empty()
                &&& proposes(c, module.fields@, line@, token_views(tokens@))
            },
            None => candidate_fields(module.fields@, token_views(tokens@)) == Map::<Seq<char>, ValueView>::empty(),
        },
{
    let names = get_number_fields(&module.fields);
    let mut fields = Record::new();
    let mut confident: Vec<String> = Vec::new();
    let mut words: Vec<String> = Vec::new();
    let mut some: bool = false;
    let ghost all = module.fields@;
    let ghost seen = token_views(tokens@);
    let mut used: usize = 0;
    let mut i: usize = 0;
    assert(seen.take(0) =~= Seq::<(Seq<char>, Option<u64>)>::empty());
    assert(views(words@) =~= Seq::<Seq<char>>::empty());
    assert(views(confident@) =~= number_fields(all).take(0));
    while i < tokens.len()
        invariant
            all == module.fields@,
            seen == token_views(tokens@),
            i <= tokens@.len(),
            views(names@) == number_fields(all),
            used == placed_count(all, numbers_in(seen.take(i as int))),
            used <= names@.len(),
            fields@ == placed(all, numbers_in(seen.take(i as int)), used as nat),
            some == (used > 0),
            views(confident@) == number_fields(all).take(used as int),
            views(words@) == words_in(seen.take(i as int)),
        decreases tokens@.len() - i,
    {
        let ghost before = numbers_in(seen.take(i as int));
        let ghost after = numbers_in(seen.take(i + 1));
        assert(seen.take(i + 1).drop_last() =~= seen.take(i as int));
        assert(seen.take(i + 1).last() == tokens@[i as int]@);
        match tokens[i].number {
            Some(bits) => {
                proof {
                    assert(after == before.push(bits));
                    lemma_placed_prefix(all, before, after, used as nat);
                }
                if used < names.len() {
                    let name = names[used].as_str();
                    assert(views(names@)[used as int] == name@);
                    proof {
                        lemma_number_field_is_field(all, used as int);
                    }
                    let k: usize = find_field(&module.fields, name);
                    let value = if same(module.fields[k].field_type.as_str(), "integer") {
                        Value::Int(round_real(bits))
                    } else if is_finite(bits) {
                        Value::Real(bits)
                    } else {
                        Value::Null
                    };
                    assert(value@ == number_value(all, name@, bits));
                    fields.insert(name, value);
                    push_text(&mut confident, name);
                    used = used + 1;
                    some = true;
                    assert(number_fields(all).take(used as int) =~= number_fields(all).take(used - 1).push(name@));
                }
            },
            None => {
                push_text(&mut words, tokens[i].text.as_str());
            },
        }
        i = i + 1;
    }
    assert(seen.take(tokens@.len() as int) =~= seen);
    assert(views(words@).len() == words@.len());
    proof {
        lemma_placed_nonempty(all, numbers_in(seen), used as nat);
    }
    match choose_naming_field(&get_text_fields(&module.fields)) {
        Some(name) => {
            if words.len() > 0 {
                fields.insert_text(name.as_str(), join(&words, " ").as_str());
                some = true;
                assert(fields@.dom().contains(name@));
            }
        },
        None => {},
    }
    if !some {
        assert(fields@ =~= Map::<Seq<char>, ValueView>::empty());
        return None;
    }
    let missing = get_missing_fields(&module.fields, &fields);
    Some(
        CandidateRecord {
            raw_line: line.to_owned(),
            fields,
            confident_fields: confident,
            missing_required_fields: missing,
        },
    )
}

proof fn lemma_placed_prefix(fields: Seq<FieldDef>, a: Seq<u64>, b: Seq<u64>, n: nat)
    requires
        n <= a.len(),
        n <= b.len(),
        forall|i: int| 0 <= i < n ==> a[i] == b[i],
    ensures
        placed(fields, a, n) == placed(fields, b, n),
    decreases n,
{
    if n > 0 {
        lemma_placed_prefix(fields, a, b, (n - 1) as nat);
    }
}

proof fn lemma_placed_nonempty(fields: Seq<FieldDef>, numbers: Seq<u64>, n: nat)
    ensures
        n == 0 ==> placed(fields, numbers, n) == Map::<Seq<char>, ValueView>::empty(),
        n > 0 ==> placed(fields, numbers, n).dom().contains(number_fields(fields)[n - 1]),
{
}

// ---------------------------------------------------------------------------
// Documents
// ---------------------------------------------------------------------------

/// The tokens of some texts as they stand on the page: a number where a text
/// is one without its thousands separators.
pub open spec fn reading(texts: Seq<Seq<char>>) -> Seq<(Seq<char>, Option<u64>)> {
    texts.map_values(|s: Seq<char>| (s, real_of(without(s, ','))))
}

/// Reads the numbers among the tokens.
pub fn read_tokens(texts: &Vec<String>) -> (tokens: Vec<Token>)
    ensures
        token_views(tokens@) == reading(views(texts@)),
{
    let mut tokens: Vec<Token> = Vec::new();
    let mut i: usize = 0;
    while i < texts.len()
        invariant
            i <= texts@.len(),
            tokens@.len() == i,
            forall|k: int|
                0 <= k < i ==> (#[trigger] tokens@[k])@ == (texts@[k]@, real_of(without(texts@[k]@, ','))),
        decreases texts@.len() - i,
    {
        let cleaned = remove_char(texts[i].as_str(), ',');
        tokens.push(Token { text: texts[i].clone(), number: real_bits(cleaned.as_str()) });
        i = i + 1;
    }
    assert(token_views(tokens@) =~= reading(views(texts@)));
    tokens
}

/// The values that a line of a document gives.
pub open spec fn line_fields(fields: Seq<FieldDef>, line: Seq<char>) -> Map<Seq<char>, ValueView> {
    candidate_fields(fields, reading(tokens_of(trimmed(line))))
}

/// The proposals for the lines of a document: one for each line that is not
/// blank and gives some value, in order.
pub open spec fn document_proposes(list: Seq<CandidateRecord>, fields: Seq<FieldDef>, lines: Seq<Seq<char>>) -> bool
    decreases lines.len(),
{
    if lines.len() == 0 {
        list.len() == 0
    } else {
        let line = lines.last();
        if trimmed(line).len() == 0 || line_fields(fields, line) == Map::<Seq<char>, ValueView>::empty() {
            document_proposes(list, fields, lines.drop_last())
        } else {
            &&& list.len() > 0
            &&& proposes(list.last(), fields, trimmed(line), reading(tokens_of(trimmed(line))))
            &&& document_proposes(list.drop_last(), fields, lines.drop_last())
        }
    }
}

/// Proposes records from the text of a document.
pub fn parse_into_candidates(module: &ModuleDef, raw_text: &str) -> (list: Vec<CandidateRecord>)
    ensures
        document_proposes(list@, module.fields@, pieces(raw_text@, '\n')),
{
    let lines = split(raw_text, '\n');
    let mut list: Vec<CandidateRecord> = Vec::new();
    let mut i: usize = 0;
    assert(views(lines@).take(0) =~= Seq::<Seq<char>>::empty());
    while i < lines.len()
        invariant
            i <= lines@.len(),
            document_proposes(list@, module.fields@, views(lines@).take(i as int)),
        decreases lines@.len() - i,
    {
        let ghost upto = views(lines@).take(i + 1);
        assert(upto.drop_last() =~= views(lines@).take(i as int));
        assert(upto.last() == lines@[i as int]@);
        let line = trim(lines[i].as_str());
        let ghost before = list@;
        if !is_empty(line.as_str()) {
            let texts = tokenize(line.as_str());
            let tokens = read_tokens(&texts);
            match propose(module, line.as_str(), &tokens) {
                Some(c) => {
                    list.push(c);
                    assert(list@.drop_last() =~= before);
                },
                None => {},
            }
        }
        i = i + 1;
    }
    assert(views(lines@).take(lines@.len() as int) =~= views(lines@));
    list
}

/// Every field that a number was found for has a value, and no field that is
/// called missing has one.
pub proof fn law_proposals_are_honest(
    fields: Seq<FieldDef>,
    tokens: Seq<(Seq<char>, Option<u64>)>,
    k: int,
    name: Seq<char>,
)
    requires
        0 <= k < placed_count(fields, numbers_in(tokens)),
        missing_fields(fields, candidate_fields(fields, tokens)).contains(name),
    ensures
        candidate_fields(fields, tokens).dom().contains(number_fields(fields)[k]),
        !candidate_fields(fields, tokens).dom().contains(name),
{
    lemma_placed_has(fields, numbers_in(tokens), placed_count(fields, numbers_in(tokens)), k);
    lemma_missing_lacks(fields, candidate_fields(fields, tokens), name);
}

proof fn lemma_placed_has(fields: Seq<FieldDef>, numbers: Seq<u64>, n: nat, k: int)
    requires
        0 <= k < n,
    ensures
        placed(fields, numbers, n).dom().contains(number_fields(fields)[k]),
    decreases n,
{
    if k < n - 1 {
        lemma_placed_has(fields, numbers, (n - 1) as nat, k);
    }
}

proof fn lemma_missing_lacks(fields: Seq<FieldDef>, map: Map<Seq<char>, ValueView>, name: Seq<char>)
    requires
        missing_fields(fields, map).contains(name),
    ensures
        !map.dom().contains(name),
    decreases fields.len(),
{
    let all = missing_fields(fields, map);
    let i = choose|i: int| 0 <= i < all.len() && all[i] == name;
    if fields.len() > 0 {
        let before = missing_fields(fields.drop_last(), map);
        if i < before.len() {
            assert(before[i] == name);
            lemma_missing_lacks(fields.drop_last(), map, name);
        }
    }
}

proof fn lemma_placed_at(fields: Seq<FieldDef>, numbers: Seq<u64>, n: nat, k: int)
    requires
        0 <= k < n <= number_fields(fields).len(),
        number_fields(fields).no_duplicates(),
    ensures
        placed(fields, numbers, n).contains_pair(
            number_fields(fields)[k],
            number_value(fields, number_fields(fields)[k], numbers[k]),
        ),
    decreases n,
{
    if k < n - 1 {
        lemma_placed_at(fields, numbers, (n - 1) as nat, k);
        assert(number_fields(fields)[k] != number_fields(fields)[n - 1]);
    }
}

proof fn lemma_naming_is_listed(names: Seq<Seq<char>>, k: int)
    requires
        0 <= k,
    ensures
        naming_or_first(names, k) matches Some(name) ==> names.contains(name),
    decreases names.len() - k,
{
    if k < names.len() && !naming_field(names[k]) {
        lemma_naming_is_listed(names, k + 1);
    }
}

/// The numbers of a line go to the number fields in order, the first to the first and
/// so on, each as its field takes it; its words, joined again, go to the field that
/// names the record.
pub proof fn law_numbers_and_words_go_to_their_fields(
    fields: Seq<FieldDef>,
    tokens: Seq<(Seq<char>, Option<u64>)>,
    k: int,
)
    requires
        number_fields(fields).no_duplicates(),
        0 <= k < number_fields(fields).len() && k < numbers_in(tokens).len(),
        !text_fields(fields).contains(number_fields(fields)[k]),
    ensures
        candidate_fields(fields, tokens).contains_pair(
            number_fields(fields)[k],
            number_value(fields, number_fields(fields)[k], numbers_in(tokens)[k]),
        ),
        naming_or_first(text_fields(fields), 0) matches Some(name) ==> words_in(tokens).len() > 0
            ==> candidate_fields(fields, tokens).contains_pair(name, ValueView::Text(joined(words_in(tokens), " "@))),
{
    let numbers = numbers_in(tokens);
    lemma_placed_at(fields, numbers, placed_count(fields, numbers), k);
    lemma_naming_is_listed(text_fields(fields), 0);
}

/// A record is named by its name, its description or the like where it has one of
/// those, by the first of them, and else by its first text.
pub proof fn law_records_are_named_by_their_name(names: Seq<Seq<char>>, from: int, k: int)
    requires
        0 <= from <= k <= names.len(),
        0 < names.len(),
        forall|i: int| from <= i < k ==> ({
            let n = #[trigger] names[i];
            n != "name"@ && n != "description"@ && n != "item_name"@ && n != "full_name"@
        }),
        k < names.len() ==> ({
            let n = names[k];
            n == "name"@ || n == "description"@ || n == "item_name"@ || n == "full_name"@
        }),
    ensures
        naming_or_first(names, from) == Some(
            if k < names.len() {
                names[k]
            } else {
                names[0]
            },
        ),
    decreases names.len() - from,
{
    if from < k {
        assert(names[from] != "name"@);
        law_records_are_named_by_their_name(names, from + 1, k);
    }
}

proof fn lemma_missing_is(fields: Seq<FieldDef>, map: Map<Seq<char>, ValueView>, i: int)
    requires
        0 <= i < fields.len(),
        fields[i].required && fields[i].default is None && !map.contains_key(fields[i].name@),
    ensures
        missing_fields(fields, map).contains(fields[i].name@),
    decreases fields.len(),
{
    let all = missing_fields(fields, map);
    if i < fields.len() - 1 {
        lemma_missing_is(fields.drop_last(), map, i);
        let before = missing_fields(fields.drop_last(), map);
        let k = choose|k: int| 0 <= k < before.len() && before[k] == fields[i].name@;
        assert(all[k] == fields[i].name@);
    } else {
        assert(all[all.len() - 1] == fields[i].name@);
    }
}

/// Whatever a record needs and a line does not say is told.
pub proof fn law_what_is_missing_is_told(fields: Seq<FieldDef>, tokens: Seq<(Seq<char>, Option<u64>)>, i: int)
    requires
        0 <= i < fields.len(),
        fields[i].required && fields[i].default is None,
        !candidate_fields(fields, tokens).contains_key(fields[i].name@),
    ensures
        missing_fields(fields, candidate_fields(fields, tokens)).contains(fields[i].name@),
{
    lemma_missing_is(fields, candidate_fields(fields, tokens), i);
}

} // verus!
