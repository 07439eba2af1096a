//! Module definitions: the schema of a business module, the checks that a
//! definition must pass, the tables derived from it, and the validation of
//! records against it.

use crate::dates::{calendar_date, is_date};
use crate::lists::{first_some, lemma_first_some_at};
use crate::text::{
    blank, cat, char_is_digit, char_is_letter, i64_text, is_blank, is_digit, is_letter, join, joined,
    opt_view, push_all, push_decimal, push_text, same, signed_decimal, to_chars, views,
};
use crate::value::{get_of, Record, Value, ValueView};
use vstd::prelude::*;

verus! {

/// One field of a module's schema.
#[derive(Debug)]
pub struct FieldDef {
    pub name: String,
    /// `text`, `integer`, `real`, `money`, `date`, `boolean`, `unit` or
    /// `currency`.
    pub field_type: String,
    pub required: bool,
    pub unique: bool,
    pub default: Option<Value>,
    /// Inclusive floor for `integer` and `money` fields; no floor without it.
    pub min: Option<i64>,
    /// Another field of the same record that this one may never be below.
    pub min_field: Option<String>,
    /// The sentence to show where the value is below that other field.
    pub min_field_message: Option<String>,
}

/// The one number that stands for a module on its dashboard tile.
#[derive(Debug)]
pub struct DashboardMetric {
    /// The field to aggregate; not needed for `count`.
    pub measure: Option<String>,
    /// `sum`, `count` or `avg`.
    pub aggregation: String,
    /// Shown next to the number.
    pub label: String,
}

/// The actions that a role is given by default.
#[derive(Debug)]
pub struct RoleActions {
    pub role: String,
    pub actions: Vec<String>,
}

/// A business module: its fields, actions and defaults.
#[derive(Debug)]
pub struct ModuleDef {
    pub id: String,
    pub display_name: String,
    pub fields: Vec<FieldDef>,
    pub actions: Vec<String>,
    pub default_roles: Vec<RoleActions>,
    pub dashboard_metric: Option<DashboardMetric>,
    /// The `date` field that says when a record happened, where a record can
    /// be entered later than that.
    pub date_field: Option<String>,
}

// ---------------------------------------------------------------------------
// Identifiers
// ---------------------------------------------------------------------------

/// The most characters that an identifier may have.
pub const MAX_IDENTIFIER_LEN: usize = 64;

/// Why a name cannot be a table or column name.
#[derive(Clone, Copy, PartialEq, Eq, Structural, Debug)]
pub enum IdentifierError {
    Empty,
    TooLong,
    BadStart,
    BadCharacter,
    Reserved,
}

/// Columns that every module table already has.
pub open spec fn reserved_column(name: Seq<char>) -> bool {
    ||| name == "id"@
    ||| name == "business_id"@
    ||| name == "created_at"@
    ||| name == "updated_at"@
    ||| name == "deleted_at"@
    ||| name == "created_by"@
}

/// A letter, a digit or the underscore.
pub open spec fn word_char(c: char) -> bool {
    is_letter(c) || is_digit(c) || c == '_'
}

/// What is wrong with a name that is to be used as an SQL identifier.
pub open spec fn identifier_problem(name: Seq<char>) -> Option<IdentifierError> {
    if name.len() == 0 {
        Some(IdentifierError::Empty)
    } else if name.len() > MAX_IDENTIFIER_LEN {
        Some(IdentifierError::TooLong)
    } else if !is_letter(name[0]) && name[0] != '_' {
        Some(IdentifierError::BadStart)
    } else if !(forall|i: int| 1 <= i < name.len() ==> word_char(#[trigger] name[i])) {
        Some(IdentifierError::BadCharacter)
    } else if reserved_column(name) {
        Some(IdentifierError::Reserved)
    } else {
        None
    }
}

/// Whether every module table already has a column of that name.
pub fn is_reserved_column(name: &str) -> (b: bool)
    ensures
        b == reserved_column(name@),
{
    same(name, "id") || same(name, "business_id") || same(name, "created_at") || same(name, "updated_at") || same(
        name,
        "deleted_at",
    ) || same(name, "created_by")
}

/// Checks that a name is safe to stand in SQL text as an identifier: at most
/// 64 letters, digits and underscores, not starting with a digit, and no name
/// of a column that every table has.
pub fn validate_identifier(name: &str) -> (r: Result<(), IdentifierError>)
    ensures
        match r {
            Ok(()) => identifier_problem(name@) is None,
            Err(e) => identifier_problem(name@) == Some(e),
        },
{
    let v = to_chars(name);
    if v.len() == 0 {
        return Err(IdentifierError::Empty);
    }
    if v.len() > MAX_IDENTIFIER_LEN {
        return Err(IdentifierError::TooLong);
    }
    if !(char_is_letter(v[0]) || v[0] == '_') {
        return Err(IdentifierError::BadStart);
    }
    let mut i: usize = 1;
    while i < v.len()
        invariant
            v@ == name@,
            1 <= i <= v@.len(),
            forall|k: int| 1 <= k < i ==> word_char(#[trigger] name@[k]),
            0 < name@.len() <= MAX_IDENTIFIER_LEN,
            is_letter(name@[0]) || name@[0] == '_',
        decreases v@.len() - i,
    {
        if !(char_is_letter(v[i]) || char_is_digit(v[i]) || v[i] == '_') {
            assert(!word_char(name@[i as int]));
            return Err(IdentifierError::BadCharacter);
        }
        i = i + 1;
    }
    if is_reserved_column(name) {
        return Err(IdentifierError::Reserved);
    }
    Ok(())
}

/// The sentence for a bad identifier; `kind` says what the name was to be.
pub open spec fn identifier_message(e: IdentifierError, kind: Seq<char>, name: Seq<char>) -> Seq<char> {
    match e {
        IdentifierError::Empty => kind + " name cannot be empty"@,
        IdentifierError::TooLong => kind + " name '"@ + name + "' is too long (max 64 characters)"@,
        IdentifierError::BadStart => kind + " name '"@ + name + "' must start with a letter or underscore"@,
        IdentifierError::BadCharacter => kind + " name '"@ + name
            + "' may only contain letters, numbers, and underscores — this is a hard requirement, not a style preference: this name gets used directly as a SQL column/table name"@,
        IdentifierError::Reserved => kind + " name '"@ + name + "' is reserved by the engine and can't be reused"@,
    }
}

/// The sentence for a bad identifier; `kind` says what the name was to be.
pub fn identifier_error_text(e: IdentifierError, kind: &str, name: &str) -> (s: String)
    ensures
        s@ == identifier_message(e, kind@, name@),
{
    let mut s = kind.to_owned();
    match e {
        IdentifierError::Empty => {
            s.append(" name cannot be empty");
        },
        IdentifierError::TooLong => {
            s.append(" name '");
            s.append(name);
            s.append("' is too long (max 64 characters)");
        },
        IdentifierError::BadStart => {
            s.append(" name '");
            s.append(name);
            s.append("' must start with a letter or underscore");
        },
        IdentifierError::BadCharacter => {
            s.append(" name '");
            s.append(name);
            s.append(
                "' may only contain letters, numbers, and underscores — this is a hard requirement, not a style preference: this name gets used directly as a SQL column/table name",
            );
        },
        IdentifierError::Reserved => {
            s.append(" name '");
            s.append(name);
            s.append("' is reserved by the engine and can't be reused");
        },
    }
    s
}

// ---------------------------------------------------------------------------
// Definitions
// ---------------------------------------------------------------------------

/// Why a module definition is refused.
#[derive(Clone, Copy, PartialEq, Eq, Structural, Debug)]
pub enum DefinitionError {
    BadId(IdentifierError),
    /// The name of the field at that place is no identifier.
    BadFieldName(usize, IdentifierError),
    /// The field at that place repeats the name of an earlier one.
    DuplicateField(usize),
    /// `sum` and `avg` need a field to aggregate.
    MetricWithoutMeasure,
    /// The measure names no field of the module.
    MetricUnknownMeasure,
    /// The measure is the field at that place, which is not numeric.
    MetricNotNumeric(usize),
    /// The aggregation is none of `sum`, `avg` and `count`.
    MetricAggregation,
}

/// What is wrong with the name of the field at place `i`.
pub open spec fn field_name_problem(fields: Seq<FieldDef>, i: int) -> Option<DefinitionError> {
    match identifier_problem(fields[i].name@) {
        Some(e) => Some(DefinitionError::BadFieldName(i as usize, e)),
        None => None,
    }
}

/// Whether some field before place `i` has the name of the field there.
pub open spec fn repeats(fields: Seq<FieldDef>, i: int) -> bool {
    exists|j: int| 0 <= j < i && (#[trigger] fields[j]).name@ == fields[i].name@
}

/// The complaint about a repeated field name at place `i`.
pub open spec fn duplicate_problem(fields: Seq<FieldDef>, i: int) -> Option<DefinitionError> {
    if repeats(fields, i) {
        Some(DefinitionError::DuplicateField(i as usize))
    } else {
        None
    }
}

/// The place of the first field with that name, or the number of fields.
pub open spec fn field_index(fields: Seq<FieldDef>, name: Seq<char>) -> int
    decreases fields.len(),
{
    if fields.len() == 0 {
        0
    } else if fields[0].name@ == name {
        0
    } else {
        1 + field_index(fields.drop_first(), name)
    }
}

/// Whether some field has that name.
pub open spec fn has_field(fields: Seq<FieldDef>, name: Seq<char>) -> bool {
    exists|i: int| 0 <= i < fields.len() && (#[trigger] fields[i]).name@ == name
}

/// The numeric field types.
pub open spec fn numeric_type(ty: Seq<char>) -> bool {
    ty == "integer"@ || ty == "real"@ || ty == "money"@
}

/// What is wrong with a dashboard metric.
pub open spec fn metric_problem(m: DashboardMetric, fields: Seq<FieldDef>) -> Option<DefinitionError> {
    if m.aggregation@ == "sum"@ || m.aggregation@ == "avg"@ {
        match m.measure {
            None => Some(DefinitionError::MetricWithoutMeasure),
            Some(name) => {
                let k = field_index(fields, name@);
                if k >= fields.len() {
                    Some(DefinitionError::MetricUnknownMeasure)
                } else if !numeric_type(fields[k].field_type@) {
                    Some(DefinitionError::MetricNotNumeric(k as usize))
                } else {
                    None
                }
            },
        }
    } else if m.aggregation@ == "count"@ {
        None
    } else {
        Some(DefinitionError::MetricAggregation)
    }
}

/// What is wrong with a module definition: first its id, then the name of
/// every field, then repeated names, then the dashboard metric.
pub open spec fn definition_problem(def: ModuleDef) -> Option<DefinitionError> {
    let fields = def.fields@;
    match identifier_problem(def.id@) {
        Some(e) => Some(DefinitionError::BadId(e)),
        None => match first_some(fields.len(), |i: int| field_name_problem(fields, i)) {
            Some(e) => Some(e),
            None => match first_some(fields.len(), |i: int| duplicate_problem(fields, i)) {
                Some(e) => Some(e),
                None => match def.dashboard_metric {
                    Some(m) => metric_problem(m, fields),
                    None => None,
                },
            },
        },
    }
}

/// The sentence for a refused definition.
pub open spec fn definition_message(def: ModuleDef, e: DefinitionError) -> Seq<char> {
    let metric = def.dashboard_metric->0;
    match e {
        DefinitionError::BadId(why) => identifier_message(why, "module id"@, def.id@),
        DefinitionError::BadFieldName(i, why) => identifier_message(why, "field"@, def.fields@[i as int].name@),
        DefinitionError::DuplicateField(i) => "duplicate field name '"@ + def.fields@[i as int].name@ + "' in module '"@
            + def.id@ + "'"@,
        DefinitionError::MetricWithoutMeasure => "module '"@ + def.id@ + "': dashboard_metric aggregation '"@
            + metric.aggregation@ + "' requires a measure field"@,
        DefinitionError::MetricUnknownMeasure => "module '"@ + def.id@ + "': dashboard_metric measure '"@
            + metric.measure->0@ + "' is not a field on this module"@,
        DefinitionError::MetricNotNumeric(i) => "module '"@ + def.id@ + "': dashboard_metric measure '"@
            + metric.measure->0@ + "' must be numeric (integer/real/money), got '"@ + def.fields@[i as int].field_type@
            + "'"@,
        DefinitionError::MetricAggregation => "module '"@ + def.id@
            + "': dashboard_metric aggregation must be sum/avg/count, got '"@ + metric.aggregation@ + "'"@,
    }
}

/// A complaint about a field's name is about a field that is there.
proof fn lemma_bad_name_is_there(fields: Seq<FieldDef>, n: nat)
    requires
        n <= fields.len() <= usize::MAX,
    ensures
        match first_some(n, |i: int| field_name_problem(fields, i)) {
            Some(e) => e matches DefinitionError::BadFieldName(i, _) && i < n,
            None => true,
        },
    decreases n,
{
    if n > 0 {
        lemma_bad_name_is_there(fields, (n - 1) as nat);
    }
}

/// A complaint about a repeated name is about a field that is there.
proof fn lemma_duplicate_is_there(fields: Seq<FieldDef>, n: nat)
    requires
        n <= fields.len() <= usize::MAX,
    ensures
        match first_some(n, |i: int| duplicate_problem(fields, i)) {
            Some(e) => e matches DefinitionError::DuplicateField(i) && i < n,
            None => true,
        },
    decreases n,
{
    if n > 0 {
        lemma_duplicate_is_there(fields, (n - 1) as nat);
    }
}

/// The place of a field is one of the fields, or right behind them.
proof fn lemma_field_index_range(fields: Seq<FieldDef>, name: Seq<char>)
    ensures
        0 <= field_index(fields, name) <= fields.len(),
    decreases fields.len(),
{
    if fields.len() > 0 {
        lemma_field_index_range(fields.drop_first(), name);
    }
}

pub proof fn lemma_field_index(fields: Seq<FieldDef>, name: Seq<char>, k: int)
    requires
        0 <= k <= fields.len(),
        k < fields.len() ==> fields[k].name@ == name,
        forall|i: int| 0 <= i < k ==> fields[i].name@ != name,
    ensures
        field_index(fields, name) == k,
    decreases fields.len(),
{
    if fields.len() > 0 && k > 0 {
        assert(fields[0].name@ != name);
        assert forall|i: int| 0 <= i < k - 1 implies fields.drop_first()[i].name@ != name by {
            assert(fields.drop_first()[i] == fields[i + 1]);
        }
        lemma_field_index(fields.drop_first(), name, k - 1);
    }
}

/// The place of the first field with that name, or the number of fields.
pub fn find_field(fields: &Vec<FieldDef>, name: &str) -> (k: usize)
    ensures
        k <= fields@.len(),
        k == field_index(fields@, name@),
        k < fields@.len() ==> fields@[k as int].name@ == name@,
        k < fields@.len() <==> has_field(fields@, name@),
{
    let mut k: usize = 0;
    while k < fields.len()
        invariant
            k <= fields@.len(),
            forall|i: int| 0 <= i < k ==> (#[trigger] fields@[i]).name@ != name@,
        decreases fields@.len() - k,
    {
        if same(fields[k].name.as_str(), name) {
            proof {
                lemma_field_index(fields@, name@, k as int);
            }
            return k;
        }
        k = k + 1;
    }
    proof {
        lemma_field_index(fields@, name@, k as int);
    }
    k
}

/// Whether the field type is numeric.
pub fn is_numeric_type(ty: &str) -> (b: bool)
    ensures
        b == numeric_type(ty@),
{
    same(ty, "integer") || same(ty, "real") || same(ty, "money")
}

fn check_metric(m: &DashboardMetric, fields: &Vec<FieldDef>) -> (r: Option<DefinitionError>)
    ensures
        r == metric_problem(*m, fields@),
{
    if same(m.aggregation.as_str(), "sum") || same(m.aggregation.as_str(), "avg") {
        match &m.measure {
            None => Some(DefinitionError::MetricWithoutMeasure),
            Some(name) => {
                let k: usize = find_field(fields, name.as_str());
                if k >= fields.len() {
                    Some(DefinitionError::MetricUnknownMeasure)
                } else if !is_numeric_type(fields[k].field_type.as_str()) {
                    Some(DefinitionError::MetricNotNumeric(k))
                } else {
                    None
                }
            },
        }
    } else if same(m.aggregation.as_str(), "count") {
        None
    } else {
        Some(DefinitionError::MetricAggregation)
    }
}

impl ModuleDef {
    /// Checks a definition. Only one that passes may ever reach SQL text.
    pub fn check(&self) -> (r: Result<(), DefinitionError>)
        ensures
            match r {
                Ok(()) => definition_problem(*self) is None,
                Err(e) => definition_problem(*self) == Some(e),
            },
    {
        let ghost fields = self.fields@;
        let ghost names = |i: int| field_name_problem(fields, i);
        let ghost dups = |i: int| duplicate_problem(fields, i);
        match validate_identifier(self.id.as_str()) {
            Err(e) => {
                return Err(DefinitionError::BadId(e));
            },
            Ok(()) => {},
        }
        let mut i: usize = 0;
        while i < self.fields.len()
            invariant
                fields == self.fields@,
                i <= fields.len(),
                names == (|i: int| field_name_problem(fields, i)),
                identifier_problem(self.id@) is None,
                first_some(i as nat, names) is None,
            decreases fields.len() - i,
        {
            match validate_identifier(self.fields[i].name.as_str()) {
                Err(e) => {
                    proof {
                        lemma_first_some_at(fields.len(), i as nat, names);
                    }
                    return Err(DefinitionError::BadFieldName(i, e));
                },
                Ok(()) => {},
            }
            i = i + 1;
        }
        let mut i: usize = 0;
        while i < self.fields.len()
            invariant
                fields == self.fields@,
                i <= fields.len(),
                names == (|i: int| field_name_problem(fields, i)),
                dups == (|i: int| duplicate_problem(fields, i)),
                identifier_problem(self.id@) is None,
                first_some(fields.len(), names) is None,
                first_some(i as nat, dups) is None,
            decreases fields.len() - i,
        {
            let mut j: usize = 0;
            while j < i
                invariant
                    fields == self.fields@,
                    j <= i < fields.len(),
                    names == (|i: int| field_name_problem(fields, i)),
                    dups == (|i: int| duplicate_problem(fields, i)),
                    identifier_problem(self.id@) is None,
                    first_some(fields.len(), names) is None,
                    first_some(i as nat, dups) is None,
                    forall|k: int| 0 <= k < j ==> (#[trigger] fields[k]).name@ != fields[i as int].name@,
                decreases i - j,
            {
                if same(self.fields[j].name.as_str(), self.fields[i].name.as_str()) {
                    proof {
                        assert(fields[j as int].name@ == fields[i as int].name@);
                        lemma_first_some_at(fields.len(), i as nat, dups);
                    }
                    return Err(DefinitionError::DuplicateField(i));
                }
                j = j + 1;
            }
            i = i + 1;
        }
        match &self.dashboard_metric {
            Some(m) => match check_metric(m, &self.fields) {
                Some(e) => Err(e),
                None => Ok(()),
            },
            None => Ok(()),
        }
    }

    /// The sentence for what is wrong with a definition, where something is.
    pub fn definition_error_text(&self) -> (r: Option<String>)
        ensures
            opt_view(r) == match definition_problem(*self) {
                Some(e) => Some(definition_message(*self, e)),
                None => None,
            },
    {
        let e = match self.check() {
            Ok(()) => {
                return None;
            },
            Err(e) => e,
        };
        assert(self.fields@.len() == self.fields.len());
        proof {
            lemma_bad_name_is_there(self.fields@, self.fields@.len());
            lemma_duplicate_is_there(self.fields@, self.fields@.len());
            lemma_field_index_range(self.fields@, self.dashboard_metric->0.measure->0@);
        }
        let (aggregation, measure) = match &self.dashboard_metric {
            Some(m) => (m.aggregation.as_str(), match &m.measure {
                Some(name) => name.as_str(),
                None => "",
            }),
            None => ("", ""),
        };
        let mut s = "module '".to_owned();
        s.append(self.id.as_str());
        match e {
            DefinitionError::BadId(why) => {
                return Some(identifier_error_text(why, "module id", self.id.as_str()));
            },
            DefinitionError::BadFieldName(i, why) => {
                return Some(identifier_error_text(why, "field", self.fields[i].name.as_str()));
            },
            DefinitionError::DuplicateField(i) => {
                s = "duplicate field name '".to_owned();
                s.append(self.fields[i].name.as_str());
                s.append("' in module '");
                s.append(self.id.as_str());
                s.append("'");
            },
            DefinitionError::MetricWithoutMeasure => {
                s.append("': dashboard_metric aggregation '");
                s.append(aggregation);
                s.append("' requires a measure field");
            },
            DefinitionError::MetricUnknownMeasure => {
                s.append("': dashboard_metric measure '");
                s.append(measure);
                s.append("' is not a field on this module");
            },
            DefinitionError::MetricNotNumeric(i) => {
                s.append("': dashboard_metric measure '");
                s.append(measure);
                s.append("' must be numeric (integer/real/money), got '");
                s.append(self.fields[i].field_type.as_str());
                s.append("'");
            },
            DefinitionError::MetricAggregation => {
                s.append("': dashboard_metric aggregation must be sum/avg/count, got '");
                s.append(aggregation);
                s.append("'");
            },
        }
        Some(s)
    }

    /// The field that reports bucket this module's records by: its own date
    /// field, or else the time of entry.
    pub fn time_field(&self) -> (s: &str)
        ensures
            s@ == match self.date_field {
                Some(f) => f@,
                None => "created_at"@,
            },
    {
        match &self.date_field {
            Some(f) => f.as_str(),
            None => "created_at",
        }
    }

    /// The table of a module.
    pub fn table_name(&self) -> (s: String)
        ensures
            s@ == "module_"@ + self.id@,
    {
        cat("module_", self.id.as_str())
    }
}

/// A definition that passes the check has only distinct field names, and its
/// id and every field name are identifiers.
pub proof fn law_checked_names(def: ModuleDef)
    requires
        definition_problem(def) is None,
    ensures
        identifier_problem(def.id@) is None,
        forall|i: int| 0 <= i < def.fields@.len() ==> identifier_problem((#[trigger] def.fields@[i]).name@) is None,
        forall|i: int, j: int|
            0 <= i < j < def.fields@.len() ==> (#[trigger] def.fields@[i]).name@ != (#[trigger] def.fields@[j]).name@,
{
    let fields = def.fields@;
    let names = |i: int| field_name_problem(fields, i);
    let dups = |i: int| duplicate_problem(fields, i);
    crate::lists::lemma_first_some_none(fields.len(), names);
    crate::lists::lemma_first_some_none(fields.len(), dups);
    assert forall|i: int| 0 <= i < fields.len() implies identifier_problem((#[trigger] fields[i]).name@) is None by {
        assert(names(i) is None);
    }
    assert forall|i: int, j: int| 0 <= i < j < fields.len() implies (#[trigger] fields[i]).name@ != (
    #[trigger] fields[j]).name@ by {
        assert(dups(j) is None);
        assert(!repeats(fields, j));
    }
}

/// No quote, space, semicolon or other character with a meaning in SQL gets
/// through the identifier check.
pub proof fn law_identifiers_are_plain(name: Seq<char>)
    requires
        identifier_problem(name) is None,
    ensures
        0 < name.len() <= MAX_IDENTIFIER_LEN,
        forall|i: int| 0 <= i < name.len() ==> word_char(#[trigger] name[i]),
        !is_digit(name[0]),
        !reserved_column(name),
{
}

// ---------------------------------------------------------------------------
// Tables
// ---------------------------------------------------------------------------

/// The SQL column type of a field type.
pub open spec fn sql_type_of(ty: Seq<char>) -> Option<Seq<char>> {
    if ty == "text"@ || ty == "date"@ || ty == "unit"@ || ty == "currency"@ {
        Some("TEXT"@)
    } else if ty == "integer"@ || ty == "boolean"@ || ty == "money"@ {
        Some("INTEGER"@)
    } else if ty == "real"@ {
        Some("REAL"@)
    } else {
        None
    }
}

/// The SQL column type of a field type; `None` for a type that no column has.
pub fn sql_type(field_type: &str) -> (r: Option<&'static str>)
    ensures
        crate::text::opt_str_view(r) == sql_type_of(field_type@),
{
    if same(field_type, "text") || same(field_type, "date") || same(field_type, "unit") || same(field_type, "currency") {
        Some("TEXT")
    } else if same(field_type, "integer") || same(field_type, "boolean") || same(field_type, "money") {
        Some("INTEGER")
    } else if same(field_type, "real") {
        Some("REAL")
    } else {
        None
    }
}

/// The column definition of a field whose type is known.
pub open spec fn column_def(f: FieldDef) -> Seq<char> {
    f.name@ + " "@ + sql_type_of(f.field_type@)->0 + (if f.required {
        " NOT NULL"@
    } else {
        Seq::empty()
    })
}

/// The column definitions of the fields, in order.
pub open spec fn column_defs(fields: Seq<FieldDef>) -> Seq<Seq<char>> {
    Seq::new(fields.len(), |i: int| column_def(fields[i]))
}

/// Every field has a type that a column can have.
pub open spec fn types_known(fields: Seq<FieldDef>) -> bool {
    forall|i: int| 0 <= i < fields.len() ==> sql_type_of((#[trigger] fields[i]).field_type@) is Some
}

/// The place of the first field whose type no column has.
pub open spec fn first_unknown_type(fields: Seq<FieldDef>, k: int) -> bool {
    &&& 0 <= k < fields.len()
    &&& sql_type_of(fields[k].field_type@) is None
    &&& forall|i: int| 0 <= i < k ==> sql_type_of((#[trigger] fields[i]).field_type@) is Some
}

/// The table constraints of the unique fields, in order: unique within one
/// business, never across businesses.
pub open spec fn unique_constraints(fields: Seq<FieldDef>) -> Seq<Seq<char>>
    decreases fields.len(),
{
    if fields.len() == 0 {
        Seq::empty()
    } else if fields.last().unique {
        unique_constraints(fields.drop_last()).push("UNIQUE(business_id, "@ + fields.last().name@ + ")"@)
    } else {
        unique_constraints(fields.drop_last())
    }
}

/// The columns and constraints of a module's table, in order.
pub open spec fn table_columns(fields: Seq<FieldDef>) -> Seq<Seq<char>> {
    seq!["id TEXT PRIMARY KEY"@, "business_id TEXT NOT NULL"@] + column_defs(fields) + seq![
        "created_at TEXT NOT NULL"@,
        "updated_at TEXT NOT NULL"@,
        "created_by TEXT"@,
        "deleted_at TEXT"@,
    ] + unique_constraints(fields)
}

/// The statement that creates a table with these columns.
pub open spec fn create_table_text(table: Seq<char>, columns: Seq<Seq<char>>) -> Seq<char> {
    "CREATE TABLE IF NOT EXISTS "@ + table + " ("@ + joined(columns, ", "@) + ");"@
}

/// The statement that indexes a module's table by business.
pub open spec fn business_index_text(table: Seq<char>) -> Seq<char> {
    "CREATE INDEX IF NOT EXISTS idx_"@ + table + "_business ON "@ + table + "(business_id, deleted_at);"@
}

/// The extra index of the modules that need one of their own.
pub open spec fn own_index(id: Seq<char>) -> Option<Seq<char>> {
    if id == "inventory"@ {
        Some(
            "CREATE UNIQUE INDEX IF NOT EXISTS idx_module_inventory_unique_name ON module_inventory(business_id, LOWER(TRIM(name))) WHERE deleted_at IS NULL;"@,
        )
    } else if id == "refunds"@ {
        Some("CREATE INDEX IF NOT EXISTS idx_module_refunds_sale_id ON module_refunds(business_id, sale_id);"@)
    } else if id == "sales"@ {
        Some("CREATE INDEX IF NOT EXISTS idx_module_sales_order_id ON module_sales(business_id, order_id);"@)
    } else {
        None
    }
}

/// The statements that create a module's table and its indexes, in order.
pub open spec fn table_statements(def: ModuleDef) -> Seq<Seq<char>> {
    let table = "module_"@ + def.id@;
    let base = seq![create_table_text(table, table_columns(def.fields@)), business_index_text(table)];
    match own_index(def.id@) {
        Some(s) => base.push(s),
        None => base,
    }
}

impl ModuleDef {
    /// The column definitions of the module's own fields: name, type, and
    /// `NOT NULL` where the field is required. An error gives the place of the
    /// first field whose type no column has.
    pub fn field_column_defs(&self) -> (r: Result<Vec<String>, usize>)
        ensures
            match r {
                Ok(cols) => types_known(self.fields@) && views(cols@) == column_defs(self.fields@),
                Err(k) => first_unknown_type(self.fields@, k as int),
            },
    {
        let mut cols: Vec<String> = Vec::new();
        let mut i: usize = 0;
        while i < self.fields.len()
            invariant
                i <= self.fields@.len(),
                forall|k: int| 0 <= k < i ==> sql_type_of((#[trigger] self.fields@[k]).field_type@) is Some,
                views(cols@) == column_defs(self.fields@).take(i as int),
            decreases self.fields@.len() - i,
        {
            let f = &self.fields[i];
            match sql_type(f.field_type.as_str()) {
                None => {
                    return Err(i);
                },
                Some(ty) => {
                    let mut col = f.name.clone();
                    col.append(" ");
                    col.append(ty);
                    if f.required {
                        col.append(" NOT NULL");
                    }
                    assert(col@ =~= column_def(self.fields@[i as int]));
                    let ghost before = views(cols@);
                    cols.push(col);
                    assert(views(cols@) =~= before.push(col@));
                    assert(column_defs(self.fields@).take(i + 1) =~= column_defs(self.fields@).take(i as int).push(
                        column_def(self.fields@[i as int]),
                    ));
                },
            }
            i = i + 1;
        }
        assert(column_defs(self.fields@).take(self.fields@.len() as int) =~= column_defs(self.fields@));
        Ok(cols)
    }

    /// `UNIQUE(business_id, field)` for every unique field.
    pub fn business_scoped_unique_constraints(&self) -> (r: Vec<String>)
        ensures
            views(r@) == unique_constraints(self.fields@),
    {
        let mut r: Vec<String> = Vec::new();
        let mut i: usize = 0;
        assert(views(r@) =~= Seq::<Seq<char>>::empty());
        while i < self.fields.len()
            invariant
                i <= self.fields@.len(),
                views(r@) == unique_constraints(self.fields@.take(i as int)),
            decreases self.fields@.len() - i,
        {
            assert(self.fields@.take(i + 1).drop_last() =~= self.fields@.take(i as int));
            if self.fields[i].unique {
                let mut s = "UNIQUE(business_id, ".to_owned();
                s.append(self.fields[i].name.as_str());
                s.append(")");
                let ghost before = views(r@);
                r.push(s);
                assert(views(r@) =~= before.push(s@));
            }
            i = i + 1;
        }
        assert(self.fields@.take(self.fields@.len() as int) =~= self.fields@);
        r
    }

    /// The statements that create this module's table and indexes, to be run
    /// in order as one unit. An error gives the place of the first field whose
    /// type no column has.
    pub fn create_table(&self) -> (r: Result<Vec<String>, usize>)
        ensures
            match r {
                Ok(list) => types_known(self.fields@) && views(list@) == table_statements(*self),
                Err(k) => first_unknown_type(self.fields@, k as int),
            },
    {
        let mut cols: Vec<String> = Vec::new();
        assert(views(cols@) =~= Seq::<Seq<char>>::empty());
        push_text(&mut cols, "id TEXT PRIMARY KEY");
        push_text(&mut cols, "business_id TEXT NOT NULL");
        match self.field_column_defs() {
            Err(k) => {
                return Err(k);
            },
            Ok(own) => {
                push_all(&mut cols, own);
            },
        }
        push_text(&mut cols, "created_at TEXT NOT NULL");
        push_text(&mut cols, "updated_at TEXT NOT NULL");
        push_text(&mut cols, "created_by TEXT");
        push_text(&mut cols, "deleted_at TEXT");
        push_all(&mut cols, self.business_scoped_unique_constraints());
        assert(views(cols@) =~= table_columns(self.fields@));

        let table = self.table_name();
        let mut create = "CREATE TABLE IF NOT EXISTS ".to_owned();
        create.append(table.as_str());
        create.append(" (");
        create.append(join(&cols, ", ").as_str());
        create.append(");");
        let mut index = "CREATE INDEX IF NOT EXISTS idx_".to_owned();
        index.append(table.as_str());
        index.append("_business ON ");
        index.append(table.as_str());
        index.append("(business_id, deleted_at);");

        let mut list: Vec<String> = Vec::new();
        assert(views(list@) =~= Seq::<Seq<char>>::empty());
        push_text(&mut list, create.as_str());
        push_text(&mut list, index.as_str());
        if same(self.id.as_str(), "inventory") {
            push_text(
                &mut list,
                "CREATE UNIQUE INDEX IF NOT EXISTS idx_module_inventory_unique_name ON module_inventory(business_id, LOWER(TRIM(name))) WHERE deleted_at IS NULL;",
            );
        } else if same(self.id.as_str(), "refunds") {
            push_text(
                &mut list,
                "CREATE INDEX IF NOT EXISTS idx_module_refunds_sale_id ON module_refunds(business_id, sale_id);",
            );
        } else if same(self.id.as_str(), "sales") {
            push_text(
                &mut list,
                "CREATE INDEX IF NOT EXISTS idx_module_sales_order_id ON module_sales(business_id, order_id);",
            );
        }
        assert(views(list@) =~= table_statements(*self));
        Ok(list)
    }
}

// ---------------------------------------------------------------------------
// Records
// ---------------------------------------------------------------------------

/// The most characters of a text field.
pub const MAX_TEXT_LEN: usize = 20000;

/// What is wrong with one field of a record.
#[derive(Clone, Copy, PartialEq, Eq, Structural, Debug)]
pub enum FieldProblem {
    /// A required field without a default has no value.
    Missing,
    /// The value is not of the field's type.
    WrongType,
    /// The number is below the field's floor.
    BelowMin { min: i64, got: i64 },
    /// A required text is blank.
    RequiredBlank,
    /// The text is no calendar date.
    BadDate,
    /// The text has more characters than a field may hold.
    TooLong { len: usize },
}

/// A problem and the place of the field that has it.
#[derive(Clone, Copy, PartialEq, Eq, Structural, Debug)]
pub struct ValidationError {
    pub field: usize,
    pub problem: FieldProblem,
}

/// The types whose values are texts.
pub open spec fn textual_type(ty: Seq<char>) -> bool {
    ty == "text"@ || ty == "date"@ || ty == "unit"@ || ty == "currency"@
}

/// The types whose values are whole numbers.
pub open spec fn whole_type(ty: Seq<char>) -> bool {
    ty == "integer"@ || ty == "money"@
}

/// Whether a value is of a field type. Money is always whole minor units, so
/// a number with a fraction is no money. A type that is not known takes
/// anything.
pub open spec fn type_ok(ty: Seq<char>, v: ValueView) -> bool {
    if textual_type(ty) {
        v is Text
    } else if whole_type(ty) {
        v is Int || v is UInt
    } else if ty == "real"@ {
        v is Real || v.as_int() is Some
    } else if ty == "boolean"@ {
        v is Bool
    } else {
        true
    }
}

/// The whole number that a floor is compared with. An integer above the
/// largest `i64` counts as the `i64` with the same bits.
pub open spec fn floor_number(v: ValueView) -> Option<int> {
    match v {
        ValueView::Int(n) => Some(n as int),
        ValueView::UInt(n) => Some(
            if n <= i64::MAX {
                n as int
            } else {
                n - 0x1_0000_0000_0000_0000
            },
        ),
        _ => None,
    }
}

/// What is wrong with a value for a field.
pub open spec fn value_problem(f: FieldDef, v: ValueView) -> Option<FieldProblem> {
    let ty = f.field_type@;
    let number = floor_number(v);
    let text = v.as_text();
    if !type_ok(ty, v) {
        Some(FieldProblem::WrongType)
    } else if f.min is Some && whole_type(ty) && number is Some && number->0 < f.min->0 {
        Some(FieldProblem::BelowMin { min: f.min->0, got: number->0 as i64 })
    } else if f.required && ty == "text"@ && text is Some && blank(text->0) {
        Some(FieldProblem::RequiredBlank)
    } else if ty == "date"@ && text is Some && !(text->0.len() == 0 && !f.required) && !calendar_date(text->0) {
        Some(FieldProblem::BadDate)
    } else if ty == "text"@ && text is Some && text->0.len() > MAX_TEXT_LEN {
        Some(FieldProblem::TooLong { len: text->0.len() as usize })
    } else {
        None
    }
}

/// What is wrong with a whole record at the field at place `i`.
pub open spec fn record_problem(
    fields: Seq<FieldDef>,
    record: Map<Seq<char>, ValueView>,
    i: int,
) -> Option<ValidationError> {
    let problem = match get_of(record, fields[i].name@) {
        Some(v) => value_problem(fields[i], v),
        None => if fields[i].required && fields[i].default is None {
            Some(FieldProblem::Missing)
        } else {
            None
        },
    };
    match problem {
        Some(p) => Some(ValidationError { field: i as usize, problem: p }),
        None => None,
    }
}

/// The same for a record that changes some fields only: a field that is not
/// there is not changed, so nothing is wrong with it.
pub open spec fn change_problem(
    fields: Seq<FieldDef>,
    record: Map<Seq<char>, ValueView>,
    i: int,
) -> Option<ValidationError> {
    match get_of(record, fields[i].name@) {
        Some(v) => match value_problem(fields[i], v) {
            Some(p) => Some(ValidationError { field: i as usize, problem: p }),
            None => None,
        },
        None => None,
    }
}

/// The first problem of a whole record, by the order of the fields.
pub open spec fn record_error(fields: Seq<FieldDef>, record: Map<Seq<char>, ValueView>) -> Option<ValidationError> {
    first_some(fields.len(), |i: int| record_problem(fields, record, i))
}

/// The first problem of a record that changes some fields.
pub open spec fn change_error(fields: Seq<FieldDef>, record: Map<Seq<char>, ValueView>) -> Option<ValidationError> {
    first_some(fields.len(), |i: int| change_problem(fields, record, i))
}

/// Whether the values of a field type are texts.
fn is_textual_type(ty: &str) -> (b: bool)
    ensures
        b == textual_type(ty@),
{
    same(ty, "text") || same(ty, "date") || same(ty, "unit") || same(ty, "currency")
}

/// Whether the values of a field type are whole numbers.
pub fn is_whole_type(ty: &str) -> (b: bool)
    ensures
        b == whole_type(ty@),
{
    same(ty, "integer") || same(ty, "money")
}

fn is_type_ok(ty: &str, v: &Value) -> (b: bool)
    ensures
        b == type_ok(ty@, v@),
{
    if is_textual_type(ty) {
        matches!(v, Value::Text(_))
    } else if is_whole_type(ty) {
        matches!(v, Value::Int(_) | Value::UInt(_))
    } else if same(ty, "real") {
        matches!(v, Value::Real(_)) || v.as_i64().is_some()
    } else if same(ty, "boolean") {
        matches!(v, Value::Bool(_))
    } else {
        true
    }
}

fn get_floor_number(v: &Value) -> (r: Option<i64>)
    ensures
        match r {
            Some(n) => floor_number(v@) == Some(n as int),
            None => floor_number(v@) is None,
        },
{
    match v {
        Value::Int(n) => Some(*n),
        Value::UInt(n) => {
            if *n <= i64::MAX as u64 {
                Some(*n as i64)
            } else {
                Some((*n - 0x8000_0000_0000_0000) as i64 + i64::MIN)
            }
        },
        _ => None,
    }
}

/// What is wrong with a value for a field.
pub fn validate_field_value(f: &FieldDef, v: &Value) -> (r: Option<FieldProblem>)
    ensures
        r == value_problem(*f, v@),
{
    let ty = f.field_type.as_str();
    if !is_type_ok(ty, v) {
        return Some(FieldProblem::WrongType);
    }
    match f.min {
        Some(min) => {
            if is_whole_type(ty) {
                match get_floor_number(v) {
                    Some(n) => {
                        if n < min {
                            return Some(FieldProblem::BelowMin { min, got: n });
                        }
                    },
                    None => {},
                }
            }
        },
        None => {},
    }
    match v.as_str() {
        Some(s) => {
            if f.required && same(ty, "text") && is_blank(s) {
                return Some(FieldProblem::RequiredBlank);
            }
            if same(ty, "date") && !(s.is_empty() && !f.required) && !is_date(s) {
                return Some(FieldProblem::BadDate);
            }
            if same(ty, "text") {
                let len: usize = to_chars(s).len();
                if len > MAX_TEXT_LEN {
                    return Some(FieldProblem::TooLong { len });
                }
            }
        },
        None => {},
    }
    None
}

impl ModuleDef {
    /// Validates a whole record against the required and type rules of every
    /// field, in order.
    pub fn validate(&self, record: &Record) -> (r: Result<(), ValidationError>)
        ensures
            match r {
                Ok(()) => record_error(self.fields@, record@) is None,
                Err(e) => record_error(self.fields@, record@) == Some(e),
            },
    {
        let ghost fields = self.fields@;
        let ghost problems = |i: int| record_problem(fields, record@, i);
        let mut i: usize = 0;
        while i < self.fields.len()
            invariant
                fields == self.fields@,
                problems == (|i: int| record_problem(fields, record@, i)),
                i <= fields.len(),
                first_some(i as nat, problems) is None,
            decreases fields.len() - i,
        {
            let f = &self.fields[i];
            let problem = match record.get(f.name.as_str()) {
                Some(v) => validate_field_value(f, v),
                None => if f.required && f.default.is_none() {
                    Some(FieldProblem::Missing)
                } else {
                    None
                },
            };
            match problem {
                Some(p) => {
                    proof {
                        lemma_first_some_at(fields.len(), i as nat, problems);
                    }
                    return Err(ValidationError { field: i, problem: p });
                },
                None => {},
            }
            i = i + 1;
        }
        Ok(())
    }

    /// Validates the fields that a partial update changes. A field that the
    /// update leaves out is never an error.
    pub fn validate_partial(&self, record: &Record) -> (r: Result<(), ValidationError>)
        ensures
            match r {
                Ok(()) => change_error(self.fields@, record@) is None,
                Err(e) => change_error(self.fields@, record@) == Some(e),
            },
    {
        let ghost fields = self.fields@;
        let ghost problems = |i: int| change_problem(fields, record@, i);
        let mut i: usize = 0;
        while i < self.fields.len()
            invariant
                fields == self.fields@,
                problems == (|i: int| change_problem(fields, record@, i)),
                i <= fields.len(),
                first_some(i as nat, problems) is None,
            decreases fields.len() - i,
        {
            let f = &self.fields[i];
            match record.get(f.name.as_str()) {
                Some(v) => match validate_field_value(f, v) {
                    Some(p) => {
                        proof {
                            lemma_first_some_at(fields.len(), i as nat, problems);
                        }
                        return Err(ValidationError { field: i, problem: p });
                    },
                    None => {},
                },
                None => {},
            }
            i = i + 1;
        }
        Ok(())
    }
}

/// A record that is valid as a whole is valid as a change, too.
pub proof fn law_valid_record_is_valid_change(fields: Seq<FieldDef>, record: Map<Seq<char>, ValueView>)
    requires
        record_error(fields, record) is None,
    ensures
        change_error(fields, record) is None,
{
    let whole = |i: int| record_problem(fields, record, i);
    let part = |i: int| change_problem(fields, record, i);
    crate::lists::lemma_first_some_none(fields.len(), whole);
    crate::lists::lemma_first_some_none(fields.len(), part);
    assert forall|i: int| 0 <= i < fields.len() implies (#[trigger] part(i)) is None by {
        assert(whole(i) is None);
    }
}

/// In a valid record no money field holds a number with a fraction, and none
/// is below its floor where it fits in 64 bits with a sign.
pub proof fn law_valid_money_is_whole(fields: Seq<FieldDef>, record: Map<Seq<char>, ValueView>, i: int)
    requires
        record_error(fields, record) is None,
        0 <= i < fields.len(),
        fields[i].field_type@ == "money"@,
        record.dom().contains(fields[i].name@),
    ensures
        record[fields[i].name@] is Int || record[fields[i].name@] is UInt,
        fields[i].min is Some && record[fields[i].name@] is Int ==> record[fields[i].name@]->Int_0 >= fields[i].min->0,
{
    let whole = |i: int| record_problem(fields, record, i);
    crate::lists::lemma_first_some_none(fields.len(), whole);
    assert(whole(i) is None);
    lemma_money_is_not_text();
}

proof fn lemma_money_is_not_text()
    ensures
        !textual_type("money"@),
{
    reveal_strlit("money");
    reveal_strlit("text");
    reveal_strlit("date");
    reveal_strlit("unit");
    reveal_strlit("currency");
    assert("money"@.len() == 5 && "text"@.len() == 4 && "date"@.len() == 4 && "unit"@.len() == 4 && "currency"@.len()
        == 8);
}

// ---------------------------------------------------------------------------
// One field as the floor of another
// ---------------------------------------------------------------------------

/// A name's whole number: from the record, or else from what is stored, or
/// else zero.
pub open spec fn current_number(
    record: Map<Seq<char>, ValueView>,
    stored: Map<Seq<char>, ValueView>,
    name: Seq<char>,
) -> i64 {
    crate::value::int_or(record, name, crate::value::int_or(stored, name, 0))
}

/// The sentence for a value below the field that is its floor.
pub open spec fn floor_message(f: FieldDef) -> Seq<char> {
    match f.min_field_message {
        Some(m) => m@,
        None => "'"@ + f.name@ + "' cannot be lower than '"@ + f.min_field->0@ + "'"@,
    }
}

/// The complaint about the field at place `i`, where a record sets it or the
/// field that is its floor, and leaves it below that floor.
pub open spec fn floor_problem(
    fields: Seq<FieldDef>,
    record: Map<Seq<char>, ValueView>,
    stored: Map<Seq<char>, ValueView>,
    i: int,
) -> Option<Seq<char>> {
    let f = fields[i];
    if f.min_field is Some && whole_type(f.field_type@) && (record.dom().contains(f.name@) || record.dom().contains(
        f.min_field->0@,
    )) && current_number(record, stored, f.name@) < current_number(record, stored, f.min_field->0@) {
        Some(floor_message(f))
    } else {
        None
    }
}

/// The first complaint, by the order of the fields.
pub open spec fn floor_error(
    fields: Seq<FieldDef>,
    record: Map<Seq<char>, ValueView>,
    stored: Map<Seq<char>, ValueView>,
) -> Option<Seq<char>> {
    first_some(fields.len(), |i: int| floor_problem(fields, record, stored, i))
}

fn get_current_number(record: &Record, stored: &Record, name: &str) -> (n: i64)
    ensures
        n == current_number(record@, stored@, name@),
{
    record.get_int_or(name, stored.get_int_or(name, 0))
}

impl ModuleDef {
    /// Checks every field that names another as its floor, where the record
    /// sets either of the two. `stored` holds what the database has for the
    /// fields that the record leaves out; it is empty for a new record.
    pub fn validate_cross_field_floors(&self, record: &Record, stored: &Record) -> (r: Result<(), String>)
        ensures
            match r {
                Ok(()) => floor_error(self.fields@, record@, stored@) is None,
                Err(m) => floor_error(self.fields@, record@, stored@) == Some(m@),
            },
    {
        let ghost fields = self.fields@;
        let ghost problems = |i: int| floor_problem(fields, record@, stored@, i);
        let mut i: usize = 0;
        while i < self.fields.len()
            invariant
                fields == self.fields@,
                problems == (|i: int| floor_problem(fields, record@, stored@, i)),
                i <= fields.len(),
                first_some(i as nat, problems) is None,
            decreases fields.len() - i,
        {
            let f = &self.fields[i];
            match &f.min_field {
                Some(floor_field) => {
                    if is_whole_type(f.field_type.as_str()) && (record.has(f.name.as_str()) || record.has(
                        floor_field.as_str(),
                    )) {
                        let value: i64 = get_current_number(record, stored, f.name.as_str());
                        let floor: i64 = get_current_number(record, stored, floor_field.as_str());
                        if value < floor {
                            let message = match &f.min_field_message {
                                Some(m) => m.clone(),
                                None => {
                                    let mut m = "'".to_owned();
                                    m.append(f.name.as_str());
                                    m.append("' cannot be lower than '");
                                    m.append(floor_field.as_str());
                                    m.append("'");
                                    m
                                },
                            };
                            proof {
                                assert(message@ == floor_message(fields[i as int]));
                                lemma_first_some_at(fields.len(), i as nat, problems);
                            }
                            return Err(message);
                        }
                    }
                },
                None => {},
            }
            i = i + 1;
        }
        Ok(())
    }
}

// ---------------------------------------------------------------------------
// Defaults
// ---------------------------------------------------------------------------

/// The record after the first `n` fields have had their defaults filled in,
/// each where it has a default and the record has no value for it yet.
pub open spec fn defaulted(fields: Seq<FieldDef>, n: nat, record: Map<Seq<char>, ValueView>) -> Map<
    Seq<char>,
    ValueView,
>
    decreases n,
{
    if n == 0 {
        record
    } else {
        let before = defaulted(fields, (n - 1) as nat, record);
        let f = fields[n - 1];
        if f.default is Some && !before.dom().contains(f.name@) {
            before.insert(f.name@, f.default->0@)
        } else {
            before
        }
    }
}

/// The record with every default filled in.
pub open spec fn with_defaults(fields: Seq<FieldDef>, record: Map<Seq<char>, ValueView>) -> Map<Seq<char>, ValueView> {
    defaulted(fields, fields.len(), record)
}

/// Fills in the default of every field that the record has no value for.
pub fn apply_defaults(fields: &Vec<FieldDef>, record: &mut Record)
    ensures
        final(record)@ == with_defaults(fields@, old(record)@),
{
    let ghost before = record@;
    let mut i: usize = 0;
    while i < fields.len()
        invariant
            i <= fields@.len(),
            record@ == defaulted(fields@, i as nat, before),
        decreases fields@.len() - i,
    {
        match &fields[i].default {
            Some(d) => {
                if !record.has(fields[i].name.as_str()) {
                    record.insert(fields[i].name.as_str(), d.copy());
                }
            },
            None => {},
        }
        i = i + 1;
    }
}

/// Defaults never replace a value that the record already has.
pub proof fn law_defaults_keep_values(fields: Seq<FieldDef>, n: nat, record: Map<Seq<char>, ValueView>, name: Seq<char>)
    requires
        record.dom().contains(name),
        n <= fields.len(),
    ensures
        defaulted(fields, n, record).dom().contains(name),
        defaulted(fields, n, record)[name] == record[name],
    decreases n,
{
    if n > 0 {
        law_defaults_keep_values(fields, (n - 1) as nat, record, name);
    }
}

/// After the defaults have been filled in, no field with a default is
/// without a value.
pub proof fn law_defaults_fill(fields: Seq<FieldDef>, n: nat, record: Map<Seq<char>, ValueView>, i: int)
    requires
        n <= fields.len(),
        0 <= i < n,
        fields[i].default is Some,
    ensures
        defaulted(fields, n, record).dom().contains(fields[i].name@),
    decreases n,
{
    if i < n - 1 {
        law_defaults_fill(fields, (n - 1) as nat, record, i);
    }
}

impl ModuleDef {
    /// Fills in the defaults of a new record and validates it.
    pub fn complete(&self, record: Record) -> (r: Result<Record, ValidationError>)
        ensures
            match r {
                Ok(full) => full@ == with_defaults(self.fields@, record@) && record_error(self.fields@, full@) is None,
                Err(e) => record_error(self.fields@, with_defaults(self.fields@, record@)) == Some(e),
            },
    {
        let mut full = record;
        apply_defaults(&self.fields, &mut full);
        match self.validate(&full) {
            Ok(()) => Ok(full),
            Err(e) => Err(e),
        }
    }
}

// ---------------------------------------------------------------------------
// Sentences
// ---------------------------------------------------------------------------

/// The sentence for a validation error about a field, given the field, the
/// rendering of the value that was refused, and its text.
pub open spec fn problem_message(f: FieldDef, p: FieldProblem, got: Seq<char>) -> Seq<char> {
    match p {
        FieldProblem::Missing => "missing required field: "@ + f.name@,
        FieldProblem::WrongType => "field '"@ + f.name@ + "' expected type "@ + f.field_type@ + " but got "@ + got,
        FieldProblem::BelowMin { min, got } => "field '"@ + f.name@ + "' must be at least "@ + signed_decimal(
            min as int,
        ) + ", got "@ + signed_decimal(got as int),
        FieldProblem::RequiredBlank => "field '"@ + f.name@ + "' is required and cannot be empty"@,
        FieldProblem::BadDate => "field '"@ + f.name@ + "' must be a valid date in YYYY-MM-DD form, got '"@ + got
            + "'"@,
        FieldProblem::TooLong { len } => "field '"@ + f.name@ + "' is too long ("@ + crate::text::decimal(len as nat)
            + " characters, max 20000)"@,
    }
}

/// The sentence for a validation error. `got` is how the refused value is
/// shown: its rendering where the type is wrong, its text where a date is.
pub fn problem_text(f: &FieldDef, p: FieldProblem, got: &str) -> (s: String)
    ensures
        s@ == problem_message(*f, p, got@),
{
    match p {
        FieldProblem::Missing => cat("missing required field: ", f.name.as_str()),
        FieldProblem::WrongType => {
            let mut s = "field '".to_owned();
            s.append(f.name.as_str());
            s.append("' expected type ");
            s.append(f.field_type.as_str());
            s.append(" but got ");
            s.append(got);
            s
        },
        FieldProblem::BelowMin { min, got } => {
            let mut s = "field '".to_owned();
            s.append(f.name.as_str());
            s.append("' must be at least ");
            s.append(i64_text(min).as_str());
            s.append(", got ");
            s.append(i64_text(got).as_str());
            s
        },
        FieldProblem::RequiredBlank => {
            let mut s = "field '".to_owned();
            s.append(f.name.as_str());
            s.append("' is required and cannot be empty");
            s
        },
        FieldProblem::BadDate => {
            let mut s = "field '".to_owned();
            s.append(f.name.as_str());
            s.append("' must be a valid date in YYYY-MM-DD form, got '");
            s.append(got);
            s.append("'");
            s
        },
        FieldProblem::TooLong { len } => {
            let mut s = "field '".to_owned();
            s.append(f.name.as_str());
            s.append("' is too long (");
            push_decimal(&mut s, len as u64);
            s.append(" characters, max 20000)");
            s
        },
    }
}

// ---------------------------------------------------------------------------
// What a definition demands
// ---------------------------------------------------------------------------

/// The types of fields are all different words.
proof fn lemma_field_types_differ()
    ensures
        "text"@.len() == 4 && "date"@.len() == 4 && "unit"@.len() == 4 && "real"@.len() == 4 && "money"@.len() == 5,
        "currency"@.len() == 8 && "integer"@.len() == 7 && "boolean"@.len() == 7,
        "text"@ != "date"@ && "text"@ != "unit"@ && "text"@ != "real"@ && "date"@ != "unit"@ && "date"@ != "real"@
            && "unit"@ != "real"@,
        "integer"@ != "boolean"@,
{
    reveal_strlit("text");
    reveal_strlit("date");
    reveal_strlit("unit");
    reveal_strlit("real");
    reveal_strlit("money");
    reveal_strlit("currency");
    reveal_strlit("integer");
    reveal_strlit("boolean");
    assert("text"@[0] == 't' && "date"@[0] == 'd' && "unit"@[0] == 'u' && "real"@[0] == 'r');
    assert("integer"@[0] == 'i' && "boolean"@[0] == 'b');
}

/// Whether a field takes a value: money and other whole numbers of at least its
/// least value, numbers, flags, texts that are not too long and not blank where
/// one is required, and dates that are in the calendar.
pub open spec fn takes(f: FieldDef, v: ValueView) -> bool {
    let ty = f.field_type@;
    &&& ty == "money"@ || ty == "integer"@ ==> match v {
        ValueView::Int(n) => f.min is Some ==> n >= f.min->0,
        ValueView::UInt(n) => f.min is Some && n <= i64::MAX ==> n >= f.min->0,
        _ => false,
    }
    &&& ty == "real"@ ==> v is Real || v is Int || v is UInt
    &&& ty == "boolean"@ ==> v is Bool
    &&& ty == "text"@ ==> v is Text && v->Text_0.len() <= 20000 && (f.required ==> !blank(v->Text_0))
    &&& ty == "date"@ ==> v is Text && (calendar_date(v->Text_0) || (v->Text_0.len() == 0 && !f.required))
    &&& ty == "unit"@ || ty == "currency"@ ==> v is Text
}

/// A value that is no number beyond 63 bits is taken exactly where it is right for
/// its field.
pub proof fn law_fields_take_what_is_right_for_them(f: FieldDef, v: ValueView)
    requires
        v matches ValueView::UInt(n) ==> n <= i64::MAX,
    ensures
        value_problem(f, v) is None <==> takes(f, v),
{
    lemma_field_types_differ();
}

/// A record is valid where every field takes the value that the record has for it
/// and no required field without a default is missing; a change where every field
/// that it names takes its value.
pub proof fn law_valid_records_meet_their_definition(fields: Seq<FieldDef>, record: Map<Seq<char>, ValueView>)
    requires
        forall|name: Seq<char>| #[trigger]
            record.contains_key(name) ==> (record[name] matches ValueView::UInt(n) ==> n <= i64::MAX),
    ensures
        record_error(fields, record) is None <==> forall|i: int|
            0 <= i < fields.len() ==> {
                let f = #[trigger] fields[i];
                &&& record.contains_key(f.name@) ==> takes(f, record[f.name@])
                &&& !record.contains_key(f.name@) ==> !f.required || f.default is Some
            },
        change_error(fields, record) is None <==> forall|i: int|
            0 <= i < fields.len() ==> {
                let f = #[trigger] fields[i];
                record.contains_key(f.name@) ==> takes(f, record[f.name@])
            },
{
    let whole = |i: int| record_problem(fields, record, i);
    let part = |i: int| change_problem(fields, record, i);
    assert forall|i: int| 0 <= i < fields.len() implies ({
        let f = #[trigger] fields[i];
        &&& whole(i) is None <==> {
            &&& record.contains_key(f.name@) ==> takes(f, record[f.name@])
            &&& !record.contains_key(f.name@) ==> !f.required || f.default is Some
        }
        &&& part(i) is None <==> (record.contains_key(f.name@) ==> takes(f, record[f.name@]))
    }) by {
        let f = fields[i];
        if record.contains_key(f.name@) {
            law_fields_take_what_is_right_for_them(f, record[f.name@]);
        }
    }
    if forall|i: int| 0 <= i < fields.len() ==> (#[trigger] whole(i)) is None {
        crate::lists::lemma_first_some_none(fields.len(), whole);
    } else {
        let i = choose|i: int| 0 <= i < fields.len() && (#[trigger] whole(i)) is Some;
        lemma_first_some_is_some(fields.len(), whole, i);
        assert(fields[i] == fields[i]);
    }
    if forall|i: int| 0 <= i < fields.len() ==> (#[trigger] part(i)) is None {
        crate::lists::lemma_first_some_none(fields.len(), part);
    } else {
        let i = choose|i: int| 0 <= i < fields.len() && (#[trigger] part(i)) is Some;
        lemma_first_some_is_some(fields.len(), part, i);
        assert(fields[i] == fields[i]);
    }
    if record_error(fields, record) is None {
        crate::lists::lemma_first_some_none(fields.len(), whole);
    }
    if change_error(fields, record) is None {
        crate::lists::lemma_first_some_none(fields.len(), part);
    }
}

proof fn lemma_first_some_is_some<T>(n: nat, f: spec_fn(int) -> Option<T>, i: int)
    requires
        0 <= i < n,
        f(i) is Some,
    ensures
        first_some(n, f) is Some,
{
    if first_some(n, f) is None {
        crate::lists::lemma_first_some_none(n, f);
        assert(f(i) is None);
    }
}

/// A field that has another for its floor may not fall below it: a change that
/// touches either of them is refused exactly where the first would be lower than
/// the second, each being what the change says or else what is stored.
pub proof fn law_floors_hold(
    fields: Seq<FieldDef>,
    record: Map<Seq<char>, ValueView>,
    stored: Map<Seq<char>, ValueView>,
)
    ensures
        floor_error(fields, record, stored) is None <==> forall|i: int|
            0 <= i < fields.len() ==> {
                let f = #[trigger] fields[i];
                let floor = f.min_field->0@;
                let now = |name: Seq<char>|
                    crate::value::int_or(record, name, crate::value::int_or(stored, name, 0));
                f.min_field is Some && (f.field_type@ == "money"@ || f.field_type@ == "integer"@) && (
                record.contains_key(f.name@) || record.contains_key(floor)) ==> now(floor) <= now(f.name@)
            },
{
    let problem = |i: int| floor_problem(fields, record, stored, i);
    assert forall|i: int| 0 <= i < fields.len() implies ({
        let f = #[trigger] fields[i];
        let floor = f.min_field->0@;
        let now = |name: Seq<char>| crate::value::int_or(record, name, crate::value::int_or(stored, name, 0));
        problem(i) is None <==> (f.min_field is Some && (f.field_type@ == "money"@ || f.field_type@ == "integer"@) && (
        record.contains_key(f.name@) || record.contains_key(floor)) ==> now(floor) <= now(f.name@))
    }) by {}
    if forall|i: int| 0 <= i < fields.len() ==> (#[trigger] problem(i)) is None {
        crate::lists::lemma_first_some_none(fields.len(), problem);
    } else {
        let i = choose|i: int| 0 <= i < fields.len() && (#[trigger] problem(i)) is Some;
        lemma_first_some_is_some(fields.len(), problem, i);
        assert(fields[i] == fields[i]);
    }
    if floor_error(fields, record, stored) is None {
        crate::lists::lemma_first_some_none(fields.len(), problem);
    }
}

/// A default is that of its own field, and only a field's own default is ever filled
/// in: what the record does not say and no field has a default for stays unsaid.
pub proof fn law_defaults_are_of_their_own_field(
    fields: Seq<FieldDef>,
    n: nat,
    record: Map<Seq<char>, ValueView>,
    name: Seq<char>,
)
    requires
        n <= fields.len(),
        !record.contains_key(name),
    ensures
        defaulted(fields, n, record).contains_key(name) <==> exists|i: int|
            0 <= i < n && (#[trigger] fields[i]).name@ == name && fields[i].default is Some,
        defaulted(fields, n, record).contains_key(name) ==> exists|i: int|
            0 <= i < n && (#[trigger] fields[i]).name@ == name && fields[i].default is Some && defaulted(
                fields,
                n,
                record,
            )[name] == fields[i].default->0@,
    decreases n,
{
    if n > 0 {
        law_defaults_are_of_their_own_field(fields, (n - 1) as nat, record, name);
        let before = defaulted(fields, (n - 1) as nat, record);
        let f = fields[n - 1];
        if before.contains_key(name) {
            let i = choose|i: int|
                0 <= i < n - 1 && (#[trigger] fields[i]).name@ == name && fields[i].default is Some && before[name]
                    == fields[i].default->0@;
            assert(fields[i].name@ == name);
        } else if f.default is Some && f.name@ == name {
            assert(fields[n - 1].name@ == name);
        }
    }
}

/// A name can be that of a module or of a field where it is made of letters, digits
/// and underscores, does not begin with a digit, is no longer than 64 characters and
/// is not one that every table has; and in no other case.
pub proof fn law_which_names_are_allowed(name: Seq<char>)
    ensures
        identifier_problem(name) is None <==> {
            &&& 0 < name.len() <= 64
            &&& forall|i: int| 0 <= i < name.len() ==> is_letter(#[trigger] name[i]) || is_digit(name[i]) || name[i] == '_'
            &&& !is_digit(name[0])
            &&& name != "id"@ && name != "business_id"@ && name != "created_at"@ && name != "updated_at"@ && name
                != "deleted_at"@ && name != "created_by"@
        },
{
    if identifier_problem(name) is None {
        law_identifiers_are_plain(name);
        assert forall|i: int| 0 <= i < name.len() implies is_letter(#[trigger] name[i]) || is_digit(name[i]) || name[i]
            == '_' by {
            assert(word_char(name[i]));
        }
    } else if 0 < name.len() <= 64 && (forall|i: int|
        0 <= i < name.len() ==> is_letter(#[trigger] name[i]) || is_digit(name[i]) || name[i] == '_') && !is_digit(
        name[0],
    ) {
        assert(is_letter(name[0]) || name[0] == '_');
        assert forall|i: int| 1 <= i < name.len() implies word_char(#[trigger] name[i]) by {}
    }
}

/// The table of a module has a column of its own for every field, of a type that
/// holds its values, which may not be empty where the field is required. A field
/// that is unique is so within one business, and no other field is.
pub proof fn law_tables_hold_their_fields(fields: Seq<FieldDef>, i: int, name: Seq<char>)
    requires
        0 <= i < fields.len(),
    ensures
        ({
            let f = fields[i];
            let ty = f.field_type@;
            let kind = if ty == "integer"@ || ty == "money"@ || ty == "boolean"@ {
                "INTEGER"@
            } else if ty == "real"@ {
                "REAL"@
            } else {
                "TEXT"@
            };
            &&& sql_type_of(ty) is Some ==> table_columns(fields)[2 + i] == f.name@ + " "@ + kind + (if f.required {
                " NOT NULL"@
            } else {
                Seq::empty()
            })
            &&& table_columns(fields)[0] == "id TEXT PRIMARY KEY"@
            &&& table_columns(fields)[1] == "business_id TEXT NOT NULL"@
        }),
        unique_constraints(fields).contains("UNIQUE(business_id, "@ + name + ")"@) <==> exists|k: int|
            0 <= k < fields.len() && (#[trigger] fields[k]).name@ == name && fields[k].unique,
{
    lemma_field_types_differ();
    lemma_unique_constraints(fields, name);
}

proof fn lemma_unique_constraints(fields: Seq<FieldDef>, name: Seq<char>)
    ensures
        unique_constraints(fields).contains("UNIQUE(business_id, "@ + name + ")"@) <==> exists|k: int|
            0 <= k < fields.len() && (#[trigger] fields[k]).name@ == name && fields[k].unique,
    decreases fields.len(),
{
    let wanted = "UNIQUE(business_id, "@ + name + ")"@;
    let all = unique_constraints(fields);
    if fields.len() > 0 {
        let rest = fields.drop_last();
        let before = unique_constraints(rest);
        let last = fields.last();
        lemma_unique_constraints(rest, name);
        reveal_strlit("UNIQUE(business_id, ");
        reveal_strlit(")");
        let own = "UNIQUE(business_id, "@ + last.name@ + ")"@;
        if own == wanted {
            let k = "UNIQUE(business_id, "@.len() as int;
            assert(own.subrange(k, own.len() - 1) =~= last.name@);
            assert(wanted.subrange(k, wanted.len() - 1) =~= name);
        }
        if before.contains(wanted) {
            let k = choose|k: int| 0 <= k < before.len() && before[k] == wanted;
            assert(all[k] == wanted);
            let j = choose|j: int| 0 <= j < rest.len() && (#[trigger] rest[j]).name@ == name && rest[j].unique;
            assert(fields[j] == rest[j]);
        }
        if last.unique && last.name@ == name {
            assert(all[all.len() - 1] == wanted);
            assert(fields[fields.len() - 1].name@ == name);
        }
        if exists|k: int| 0 <= k < fields.len() && (#[trigger] fields[k]).name@ == name && fields[k].unique {
            let k = choose|k: int| 0 <= k < fields.len() && (#[trigger] fields[k]).name@ == name && fields[k].unique;
            if k < rest.len() {
                assert(rest[k] == fields[k]);
            }
        }
        if all.contains(wanted) {
            let k = choose|k: int| 0 <= k < all.len() && all[k] == wanted;
            if k < before.len() {
                assert(before[k] == wanted);
            }
        }
    }
}

/// The sentences for a value that a field does not take name the field, what it
/// takes and what it got, each in its own place.
pub proof fn law_sentences_name_the_field(f: FieldDef, min: i64, got_number: i64, got: Seq<char>)
    ensures
        problem_message(f, FieldProblem::BelowMin { min, got: got_number }, got) == "field '"@ + f.name@
            + "' must be at least "@ + signed_decimal(min as int) + ", got "@ + signed_decimal(got_number as int),
        problem_message(f, FieldProblem::WrongType, got) == "field '"@ + f.name@ + "' expected type "@ + f.field_type@
            + " but got "@ + got,
        problem_message(f, FieldProblem::Missing, got) == "missing required field: "@ + f.name@,
        f.min_field is Some && f.min_field_message is None ==> floor_message(f) == "'"@ + f.name@
            + "' cannot be lower than '"@ + f.min_field->0@ + "'"@,
        f.min_field_message is Some ==> floor_message(f) == f.min_field_message->0@,
{
}

/// A dashboard sums or averages a number that the module has, or counts its records;
/// nothing else.
pub proof fn law_which_dashboard_metrics_work(m: DashboardMetric, fields: Seq<FieldDef>, k: int)
    requires
        0 <= k < fields.len(),
        m.measure is Some && m.measure->0@ == fields[k].name@,
        forall|i: int| 0 <= i < k ==> (#[trigger] fields[i]).name@ != fields[k].name@,
    ensures
        ({
            let ty = fields[k].field_type@;
            let number = ty == "integer"@ || ty == "real"@ || ty == "money"@;
            metric_problem(m, fields) is None <==> m.aggregation@ == "count"@ || ((m.aggregation@ == "sum"@
                || m.aggregation@ == "avg"@) && number)
        }),
{
    lemma_field_index(fields, fields[k].name@, k);
    reveal_strlit("sum");
    reveal_strlit("avg");
    reveal_strlit("count");
    assert("sum"@.len() == 3 && "avg"@.len() == 3 && "count"@.len() == 5);
}

/// A table is kept in order by business, so that what is not deleted of one business
/// is found at once, and is made of just the columns of its definition.
pub proof fn law_tables_are_made_of_their_columns(def: ModuleDef)
    ensures
        table_statements(def)[0] == "CREATE TABLE IF NOT EXISTS "@ + ("module_"@ + def.id@) + " ("@ + joined(
            table_columns(def.fields@),
            ", "@,
        ) + ");"@,
        table_statements(def)[1] == "CREATE INDEX IF NOT EXISTS idx_"@ + ("module_"@ + def.id@) + "_business ON "@ + (
        "module_"@ + def.id@) + "(business_id, deleted_at);"@,
        table_statements(def).len() == 3 <==> def.id@ == "inventory"@ || def.id@ == "refunds"@ || def.id@ == "sales"@,
{
}

} // verus!
