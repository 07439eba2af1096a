//! Field values and records.
//!
//! A record is what a form, an API body or a spreadsheet row hands over: named
//! values, each name at most once.

use crate::text::same;
use vstd::prelude::*;

verus! {

/// One value of a record.
#[derive(Debug)]
pub enum Value {
    Null,
    Bool(bool),
    /// An integer of 64 bits.
    Int(i64),
    /// An integer above the largest `i64`.
    UInt(u64),
    /// A number with a fraction, by the bits of its 64-bit representation.
    Real(u64),
    Text(String),
    /// A list or an object, by its JSON text.
    Nested(String),
}

/// What a value is, with its text as a sequence of characters.
pub enum ValueView {
    Null,
    Bool(bool),
    Int(i64),
    UInt(u64),
    Real(u64),
    Text(Seq<char>),
    Nested(Seq<char>),
}

impl View for Value {
    type V = ValueView;

    open spec fn view(&self) -> ValueView {
        match *self {
            Value::Null => ValueView::Null,
            Value::Bool(b) => ValueView::Bool(b),
            Value::Int(n) => ValueView::Int(n),
            Value::UInt(n) => ValueView::UInt(n),
            Value::Real(bits) => ValueView::Real(bits),
            Value::Text(s) => ValueView::Text(s@),
            Value::Nested(s) => ValueView::Nested(s@),
        }
    }
}

impl ValueView {
    /// The value as an `i64`, where it is an integer that fits.
    pub open spec fn as_int(self) -> Option<i64> {
        match self {
            ValueView::Int(n) => Some(n),
            ValueView::UInt(n) => if n <= i64::MAX {
                Some(n as i64)
            } else {
                None
            },
            _ => None,
        }
    }

    /// The text of a text value.
    pub open spec fn as_text(self) -> Option<Seq<char>> {
        match self {
            ValueView::Text(s) => Some(s),
            _ => None,
        }
    }

    /// Equality of values: by kind and content, except that the two zeros
    /// among the numbers with a fraction are equal.
    pub open spec fn equals(self, other: ValueView) -> bool {
        match (self, other) {
            (ValueView::Real(a), ValueView::Real(b)) => a == b || (real_zero(a) && real_zero(b)),
            _ => self == other,
        }
    }
}

/// The bits of plus or minus zero.
pub open spec fn real_zero(bits: u64) -> bool {
    bits == 0 || bits == 0x8000_0000_0000_0000
}

impl Value {
    /// A copy of the value.
    pub fn copy(&self) -> (r: Value)
        ensures
            r@ == self@,
    {
        match self {
            Value::Null => Value::Null,
            Value::Bool(b) => Value::Bool(*b),
            Value::Int(n) => Value::Int(*n),
            Value::UInt(n) => Value::UInt(*n),
            Value::Real(bits) => Value::Real(*bits),
            Value::Text(s) => Value::Text(s.clone()),
            Value::Nested(s) => Value::Nested(s.clone()),
        }
    }

    /// The value as an `i64`, where it is an integer that fits.
    pub fn as_i64(&self) -> (r: Option<i64>)
        ensures
            r == self@.as_int(),
    {
        match self {
            Value::Int(n) => Some(*n),
            Value::UInt(n) => if *n <= i64::MAX as u64 {
                Some(*n as i64)
            } else {
                None
            },
            _ => None,
        }
    }

    /// The text of a text value.
    pub fn as_str(&self) -> (r: Option<&str>)
        ensures
            crate::text::opt_str_view(r) == self@.as_text(),
    {
        match self {
            Value::Text(s) => Some(s.as_str()),
            _ => None,
        }
    }

    /// Whether two values are equal.
    pub fn equals(&self, other: &Value) -> (b: bool)
        ensures
            b == self@.equals(other@),
    {
        match (self, other) {
            (Value::Null, Value::Null) => true,
            (Value::Bool(a), Value::Bool(b)) => *a == *b,
            (Value::Int(a), Value::Int(b)) => *a == *b,
            (Value::UInt(a), Value::UInt(b)) => *a == *b,
            (Value::Real(a), Value::Real(b)) => {
                *a == *b || ((*a == 0 || *a == 0x8000_0000_0000_0000) && (*b == 0 || *b == 0x8000_0000_0000_0000))
            },
            (Value::Text(a), Value::Text(b)) => *a == *b,
            (Value::Nested(a), Value::Nested(b)) => *a == *b,
            _ => false,
        }
    }
}

/// A named value.
#[derive(Debug)]
pub struct Entry {
    pub name: String,
    pub value: Value,
}

impl View for Entry {
    type V = (Seq<char>, ValueView);

    open spec fn view(&self) -> (Seq<char>, ValueView) {
        (self.name@, self.value@)
    }
}

/// The value that the first entry of that name holds.
pub open spec fn lookup(entries: Seq<Entry>, name: Seq<char>) -> Option<ValueView>
    decreases entries.len(),
{
    if entries.len() == 0 {
        None
    } else if entries[0].name@ == name {
        Some(entries[0].value@)
    } else {
        lookup(entries.drop_first(), name)
    }
}

proof fn lemma_lookup_at(entries: Seq<Entry>, k: int, name: Seq<char>)
    requires
        0 <= k < entries.len(),
        entries[k].name@ == name,
        forall|i: int| 0 <= i < k ==> entries[i].name@ != name,
    ensures
        lookup(entries, name) == Some(entries[k].value@),
    decreases entries.len(),
{
    if k > 0 {
        assert(entries[0].name@ != name);
        assert forall|i: int| 0 <= i < k - 1 implies entries.drop_first()[i].name@ != name by {
            assert(entries.drop_first()[i] == entries[i + 1]);
        }
        lemma_lookup_at(entries.drop_first(), k - 1, name);
    }
}

proof fn lemma_lookup_absent(entries: Seq<Entry>, name: Seq<char>)
    requires
        forall|i: int| 0 <= i < entries.len() ==> entries[i].name@ != name,
    ensures
        lookup(entries, name) is None,
    decreases entries.len(),
{
    if entries.len() > 0 {
        assert forall|i: int| 0 <= i < entries.drop_first().len() implies entries.drop_first()[i].name@ != name by {
            assert(entries.drop_first()[i] == entries[i + 1]);
        }
        lemma_lookup_absent(entries.drop_first(), name);
    }
}

/// Where a lookup finds something, some entry has that name.
proof fn lemma_lookup_present(entries: Seq<Entry>, name: Seq<char>) -> (k: int)
    requires
        lookup(entries, name) is Some,
    ensures
        0 <= k < entries.len(),
        entries[k].name@ == name,
        forall|i: int| 0 <= i < k ==> entries[i].name@ != name,
    decreases entries.len(),
{
    if entries[0].name@ == name {
        0
    } else {
        let j = lemma_lookup_present(entries.drop_first(), name);
        assert(entries.drop_first()[j] == entries[j + 1]);
        assert forall|i: int| 0 <= i < j + 1 implies entries[i].name@ != name by {
            if i > 0 {
                assert(entries.drop_first()[i - 1] == entries[i]);
            }
        }
        j + 1
    }
}

/// Named values; the view is the map from name to value.
#[derive(Debug)]
pub struct Record {
    entries: Vec<Entry>,
}

impl View for Record {
    type V = Map<Seq<char>, ValueView>;

    closed spec fn view(&self) -> Map<Seq<char>, ValueView> {
        map_of(self.entries@)
    }
}

/// The map that a list of entries stands for.
pub closed spec fn map_of(entries: Seq<Entry>) -> Map<Seq<char>, ValueView> {
    Map::new(|n: Seq<char>| lookup(entries, n) is Some, |n: Seq<char>| lookup(entries, n)->0)
}

/// The value of a name in a map, where the name is there.
pub open spec fn get_of(m: Map<Seq<char>, ValueView>, name: Seq<char>) -> Option<ValueView> {
    if m.dom().contains(name) {
        Some(m[name])
    } else {
        None
    }
}

/// The value of a name as an `i64`; `default` where it is missing or is no
/// integer of that size.
pub open spec fn int_or(m: Map<Seq<char>, ValueView>, name: Seq<char>, default: i64) -> i64 {
    match get_of(m, name) {
        Some(v) => match v.as_int() {
            Some(n) => n,
            None => default,
        },
        None => default,
    }
}

/// The text of a name; empty where it is missing or is no text.
pub open spec fn text_or_empty(m: Map<Seq<char>, ValueView>, name: Seq<char>) -> Seq<char> {
    match get_of(m, name) {
        Some(v) => match v.as_text() {
            Some(s) => s,
            None => Seq::empty(),
        },
        None => Seq::empty(),
    }
}

impl Record {
    /// A record without any value.
    pub fn new() -> (r: Record)
        ensures
            r@ == Map::<Seq<char>, ValueView>::empty(),
    {
        let r = Record { entries: Vec::new() };
        assert(r@ =~= Map::<Seq<char>, ValueView>::empty());
        r
    }

    /// The place of the first entry of that name, or the number of entries.
    fn position(&self, name: &str) -> (k: usize)
        ensures
            k <= self.entries@.len(),
            k < self.entries@.len() ==> self.entries@[k as int].name@ == name@,
            forall|i: int| 0 <= i < k ==> self.entries@[i].name@ != name@,
    {
        let mut k: usize = 0;
        while k < self.entries.len()
            invariant
                k <= self.entries@.len(),
                forall|i: int| 0 <= i < k ==> self.entries@[i].name@ != name@,
            decreases self.entries@.len() - k,
        {
            if same(self.entries[k].name.as_str(), name) {
                return k;
            }
            k = k + 1;
        }
        k
    }

    /// The value of a name.
    pub fn get(&self, name: &str) -> (r: Option<&Value>)
        ensures
            match r {
                Some(v) => get_of(self@, name@) == Some(v@),
                None => get_of(self@, name@) is None,
            },
    {
        let k: usize = self.position(name);
        if k < self.entries.len() {
            proof {
                lemma_lookup_at(self.entries@, k as int, name@);
            }
            Some(&self.entries[k].value)
        } else {
            proof {
                lemma_lookup_absent(self.entries@, name@);
            }
            None
        }
    }

    /// Whether there is a value of that name.
    pub fn has(&self, name: &str) -> (b: bool)
        ensures
            b == self@.dom().contains(name@),
    {
        self.get(name).is_some()
    }

    /// The value of a name as an `i64`, or `default`.
    pub fn get_int_or(&self, name: &str, default: i64) -> (r: i64)
        ensures
            r == int_or(self@, name@, default),
    {
        match self.get(name) {
            Some(v) => match v.as_i64() {
                Some(n) => n,
                None => default,
            },
            None => default,
        }
    }

    /// The text of a name, or the empty text.
    pub fn get_text(&self, name: &str) -> (r: String)
        ensures
            r@ == text_or_empty(self@, name@),
    {
        match self.get(name) {
            Some(v) => match v.as_str() {
                Some(s) => s.to_owned(),
                None => String::new(),
            },
            None => String::new(),
        }
    }

    /// Sets the value of a name, in place of any value it had.
    pub fn insert(&mut self, name: &str, value: Value)
        ensures
            final(self)@ == old(self)@.insert(name@, value@),
    {
        let ghost before = self.entries@;
        let k: usize = self.position(name);
        let entry = Entry { name: name.to_owned(), value };
        if k < self.entries.len() {
            self.entries.set(k, entry);
        } else {
            self.entries.push(entry);
        }
        proof {
            let after = self.entries@;
            lemma_lookup_at(after, k as int, name@);
            assert forall|n: Seq<char>| n != name@ implies lookup(after, n) == lookup(before, n) by {
                if lookup(before, n) is Some {
                    let j = lemma_lookup_present(before, n);
                    assert(before[j].name@ == n);
                    assert(after[j] == before[j]);
                    lemma_lookup_at(before, j, n);
                    assert forall|i: int| 0 <= i < j implies after[i].name@ != n by {
                        if i != k {
                            assert(after[i] == before[i]);
                        }
                    }
                    lemma_lookup_at(after, j, n);
                } else {
                    assert forall|i: int| 0 <= i < after.len() implies after[i].name@ != n by {
                        if i != k && after[i].name@ == n {
                            assert(after[i] == before[i]);
                            lemma_lookup_none_means_absent(before, n, i);
                        }
                    }
                    lemma_lookup_absent(after, n);
                }
            }
            assert(self@ =~= old(self)@.insert(name@, value@));
        }
    }

    /// Removes the value of a name, if it has one.
    pub fn remove(&mut self, name: &str)
        ensures
            final(self)@ == old(self)@.remove(name@),
    {
        let ghost before = self.entries@;
        let mut kept: Vec<Entry> = Vec::new();
        let mut i: usize = 0;
        while i < self.entries.len()
            invariant
                i <= self.entries@.len(),
                self.entries@ == before,
                forall|n: Seq<char>| n != name@ ==> lookup(kept@, n) == lookup(before.take(i as int), n),
                lookup(kept@, name@) is None,
            decreases self.entries@.len() - i,
        {
            let ghost e = before[i as int];
            if !same(self.entries[i].name.as_str(), name) {
                let copy = Entry { name: self.entries[i].name.clone(), value: self.entries[i].value.copy() };
                proof {
                    let k0 = kept@;
                    assert forall|n: Seq<char>| lookup(k0.push(copy), n) == (if lookup(k0, n) is Some {
                        lookup(k0, n)
                    } else if copy.name@ == n {
                        Some(copy.value@)
                    } else {
                        None
                    }) by {
                        lemma_lookup_push(k0, copy, n);
                    }
                }
                kept.push(copy);
            }
            proof {
                assert(before.take(i + 1) =~= before.take(i as int).push(e));
                assert forall|n: Seq<char>| n != name@ implies lookup(kept@, n) == lookup(before.take(i + 1), n) by {
                    lemma_lookup_push(before.take(i as int), e, n);
                }
            }
            i = i + 1;
        }
        proof {
            assert(before.take(before.len() as int) =~= before);
        }
        self.entries = kept;
        assert(self@ =~= old(self)@.remove(name@));
    }

    /// The names that have a value, in the order in which they were set.
    pub closed spec fn name_list(&self) -> Seq<Seq<char>> {
        Seq::new(self.entries@.len(), |i: int| self.entries@[i].name@)
    }

    /// The names that have a value, in the order in which they were set.
    pub fn names(&self) -> (r: Vec<String>)
        ensures
            crate::text::views(r@) == self.name_list(),
            forall|n: Seq<char>| #[trigger] self.name_list().contains(n) <==> self@.dom().contains(n),
    {
        let mut r: Vec<String> = Vec::new();
        let mut i: usize = 0;
        while i < self.entries.len()
            invariant
                i <= self.entries@.len(),
                r@.len() == i,
                forall|k: int| 0 <= k < i ==> r@[k]@ == self.entries@[k].name@,
            decreases self.entries@.len() - i,
        {
            r.push(self.entries[i].name.clone());
            i = i + 1;
        }
        proof {
            assert(crate::text::views(r@) =~= self.name_list());
            lemma_name_list(self);
        }
        r
    }

    /// A copy of the record.
    pub fn copy(&self) -> (r: Record)
        ensures
            r@ == self@,
    {
        let mut entries: Vec<Entry> = Vec::new();
        let mut i: usize = 0;
        assert(self.entries@.take(0) =~= entries@);
        while i < self.entries.len()
            invariant
                i <= self.entries@.len(),
                forall|n: Seq<char>| lookup(entries@, n) == lookup(self.entries@.take(i as int), n),
            decreases self.entries@.len() - i,
        {
            let copy = Entry { name: self.entries[i].name.clone(), value: self.entries[i].value.copy() };
            proof {
                let e = self.entries@[i as int];
                assert(self.entries@.take(i + 1) =~= self.entries@.take(i as int).push(e));
                assert forall|n: Seq<char>| lookup(entries@.push(copy), n) == lookup(self.entries@.take(i + 1), n) by {
                    lemma_lookup_push(entries@, copy, n);
                    lemma_lookup_push(self.entries@.take(i as int), e, n);
                }
            }
            entries.push(copy);
            i = i + 1;
        }
        assert(self.entries@.take(self.entries@.len() as int) =~= self.entries@);
        let r = Record { entries };
        assert(r@ =~= self@);
        r
    }
}

/// The names of a record are those that its map has values for.
pub proof fn lemma_name_list(r: &Record)
    ensures
        forall|n: Seq<char>| #[trigger] r.name_list().contains(n) <==> r@.dom().contains(n),
{
    let v = r.name_list();
    assert forall|n: Seq<char>| #[trigger] v.contains(n) <==> r@.dom().contains(n) by {
        if v.contains(n) {
            let k = choose|k: int| 0 <= k < v.len() && v[k] == n;
            assert(r.entries@[k].name@ == n);
            lemma_lookup_none_means_absent(r.entries@, n, k);
        }
        if r@.dom().contains(n) {
            let k = lemma_lookup_present(r.entries@, n);
            assert(v[k] == n);
        }
    }
}

proof fn lemma_lookup_none_means_absent(entries: Seq<Entry>, name: Seq<char>, i: int)
    requires
        0 <= i < entries.len(),
        entries[i].name@ == name,
    ensures
        lookup(entries, name) is Some,
    decreases entries.len(),
{
    if entries[0].name@ != name {
        assert(entries.drop_first()[i - 1] == entries[i]);
        lemma_lookup_none_means_absent(entries.drop_first(), name, i - 1);
    }
}

proof fn lemma_lookup_push(entries: Seq<Entry>, e: Entry, name: Seq<char>)
    ensures
        lookup(entries.push(e), name) == (if lookup(entries, name) is Some {
            lookup(entries, name)
        } else if e.name@ == name {
            Some(e.value@)
        } else {
            None
        }),
    decreases entries.len(),
{
    let all = entries.push(e);
    if entries.len() == 0 {
        assert(all.drop_first() =~= Seq::<Entry>::empty());
        assert(lookup(Seq::<Entry>::empty(), name) is None);
    } else {
        assert(all[0] == entries[0]);
        assert(all.drop_first() =~= entries.drop_first().push(e));
        lemma_lookup_push(entries.drop_first(), e, name);
    }
}

/// The map with a text under that name, where there is a text.
pub open spec fn put_text(
    m: Map<Seq<char>, ValueView>,
    name: Seq<char>,
    text: Option<Seq<char>>,
) -> Map<Seq<char>, ValueView> {
    match text {
        Some(s) => m.insert(name, ValueView::Text(s)),
        None => m,
    }
}

impl Record {
    /// Sets a text.
    pub fn insert_text(&mut self, name: &str, text: &str)
        ensures
            final(self)@ == old(self)@.insert(name@, ValueView::Text(text@)),
    {
        self.insert(name, Value::Text(text.to_owned()));
    }

    /// Sets an integer.
    pub fn insert_int(&mut self, name: &str, n: i64)
        ensures
            final(self)@ == old(self)@.insert(name@, ValueView::Int(n)),
    {
        self.insert(name, Value::Int(n));
    }

    /// Sets a text where there is one.
    pub fn insert_opt_text(&mut self, name: &str, text: &Option<String>)
        ensures
            final(self)@ == put_text(old(self)@, name@, crate::text::opt_view(*text)),
    {
        match text {
            Some(s) => {
                self.insert_text(name, s.as_str());
            },
            None => {},
        }
    }
}

} // verus!
