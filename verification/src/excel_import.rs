//! Bulk import from a spreadsheet: the template to fill in, and what becomes
//! of every row that comes back.
//!
//! A row whose key matches an existing record corrects that record, any other
//! row makes a new one. A key is only ever matched on a field that the module
//! declares unique. A bad row is reported with its number and skipped; it does
//! not stop the others.

use crate::crud::{
    apply_forced, blocked_field, is_priced_below_cost, is_update_blocked_field, number_field, priced_below_cost,
    with_forced,
};
use crate::dates::{calendar_date, is_date};
use crate::lists::{first_some, lemma_first_some_at};
use crate::module::{
    definition_problem, find_field, identifier_problem, law_checked_names, law_defaults_keep_values, law_identifiers_are_plain, record_error,
    with_defaults, word_char, FieldDef, ModuleDef, ValidationError,
};
use crate::money::{
    amount_of, law_amounts_are_the_numbers_typed, law_outer_blanks_do_not_matter, law_whole_amounts_are_scaled, number_text,
    parse_money_input, places_of,
};
use crate::rbac::{granted, refusal, require, Access, AccessError, AccessErrorView};
use crate::reals::{finite, is_finite, real_bits, real_of};
use crate::spreadsheet::{
    counted_date, get_counted_date, headings_fit, lemma_is_unmarked, lemma_narrow_is_writable, marked_up, narrow, read_sheet, reading_of,
    reads_as, reads_back, row_fits, row_unmarked, row_view, row_writable, rows_unmarked, rows_view, rows_writable,
    sheet_fits, size_of_row, size_of_rows, text_cells, text_fits, texts_view, used_rows, width, writable, write_sheet, Cell, CellView,
    MAX_COLUMNS, MAX_SAVED, SheetError, SheetProblem,
};
use crate::text::{
    all_digits, ascii_lower, blank, cat, char_ascii_lower, decimal, digits_value, i64_text, int_of, is_blank, is_digit, list_has, opt_view, parse_i64, same,
    signed_decimal, slice_text, ten_to, to_chars, trim, trimmed, views,
};
use crate::value::{get_of, int_or, text_or_empty, Record, Value, ValueView};
use vstd::prelude::*;

verus! {

// ---------------------------------------------------------------------------
// The template
// ---------------------------------------------------------------------------

/// Whether a field is a column of the template. Fields that the system sets by
/// itself are not: nobody filling in a sheet could know them, and what they
/// typed would not count.
pub open spec fn in_template(module_id: Seq<char>, field: Seq<char>) -> bool {
    &&& !(module_id == "inventory"@ && field == "quantity"@)
    &&& !(module_id == "purchasing"@ && (field == "received"@ || field == "inventory_record_id"@ || field
        == "po_number"@))
    &&& !(module_id == "debt_credit"@ && field == "entry_number"@)
}

/// Whether a field is a column of the template.
pub fn is_in_template(module_id: &str, field: &str) -> (b: bool)
    ensures
        b == in_template(module_id@, field@),
{
    !(same(module_id, "inventory") && same(field, "quantity")) && !(same(module_id, "purchasing") && (same(
        field,
        "received",
    ) || same(field, "inventory_record_id") || same(field, "po_number"))) && !(same(module_id, "debt_credit") && same(
        field,
        "entry_number",
    ))
}

/// The header of a column: the field's name, with a star where it is required.
pub open spec fn label(f: FieldDef) -> Seq<char> {
    if f.required {
        f.name@ + " *"@
    } else {
        f.name@
    }
}

/// What the example row shows for a field.
pub open spec fn example(f: FieldDef) -> Seq<char> {
    "# "@ + (if f.field_type@ == "integer"@ {
        "0"@
    } else if f.field_type@ == "real"@ || f.field_type@ == "money"@ {
        "0.00"@
    } else if f.field_type@ == "boolean"@ {
        "false"@
    } else if f.field_type@ == "date"@ {
        "2026-01-31"@
    } else {
        "example "@ + f.name@
    })
}

/// The headers of the template, in the order of the fields.
pub open spec fn template_labels(module_id: Seq<char>, fields: Seq<FieldDef>) -> Seq<Seq<char>>
    decreases fields.len(),
{
    if fields.len() == 0 {
        Seq::empty()
    } else if in_template(module_id, fields.last().name@) {
        template_labels(module_id, fields.drop_last()).push(label(fields.last()))
    } else {
        template_labels(module_id, fields.drop_last())
    }
}

/// The example row of the template.
pub open spec fn template_examples(module_id: Seq<char>, fields: Seq<FieldDef>) -> Seq<Seq<char>>
    decreases fields.len(),
{
    if fields.len() == 0 {
        Seq::empty()
    } else if in_template(module_id, fields.last().name@) {
        template_examples(module_id, fields.drop_last()).push(example(fields.last()))
    } else {
        template_examples(module_id, fields.drop_last())
    }
}

/// What a template shows.
#[derive(Debug)]
pub struct Template {
    pub labels: Vec<String>,
    pub examples: Vec<String>,
}

fn push_view(list: &mut Vec<String>, s: String)
    ensures
        views(final(list)@) == views(old(list)@).push(s@),
{
    list.push(s);
    assert(views(list@) =~= views(old(list)@).push(s@));
}

fn example_text(f: &FieldDef) -> (s: String)
    ensures
        s@ == example(*f),
{
    let ty = f.field_type.as_str();
    if same(ty, "integer") {
        cat("# ", "0")
    } else if same(ty, "real") || same(ty, "money") {
        cat("# ", "0.00")
    } else if same(ty, "boolean") {
        cat("# ", "false")
    } else if same(ty, "date") {
        cat("# ", "2026-01-31")
    } else {
        cat("# ", cat("example ", f.name.as_str()).as_str())
    }
}

/// The headers and the example row of a module's template.
pub fn template(module: &ModuleDef) -> (t: Template)
    ensures
        views(t.labels@) == template_labels(module.id@, module.fields@),
        views(t.examples@) == template_examples(module.id@, module.fields@),
{
    let mut labels: Vec<String> = Vec::new();
    let mut examples: Vec<String> = Vec::new();
    let mut i: usize = 0;
    proof {
        assert(views(labels@) =~= Seq::<Seq<char>>::empty());
        assert(views(examples@) =~= Seq::<Seq<char>>::empty());
    }
    while i < module.fields.len()
        invariant
            i <= module.fields@.len(),
            views(labels@) == template_labels(module.id@, module.fields@.take(i as int)),
            views(examples@) == template_examples(module.id@, module.fields@.take(i as int)),
        decreases module.fields@.len() - i,
    {
        let f = &module.fields[i];
        assert(module.fields@.take(i + 1).drop_last() =~= module.fields@.take(i as int));
        if is_in_template(module.id.as_str(), f.name.as_str()) {
            let text = if f.required {
                cat(f.name.as_str(), " *")
            } else {
                f.name.clone()
            };
            push_view(&mut labels, text);
            push_view(&mut examples, example_text(f));
        }
        i = i + 1;
    }
    assert(module.fields@.take(module.fields@.len() as int) =~= module.fields@);
    Template { labels, examples }
}

/// The rows of a module's template.
pub open spec fn template_sheet(module: ModuleDef) -> Seq<Seq<Seq<char>>> {
    seq![template_labels(module.id@, module.fields@), template_examples(module.id@, module.fields@)]
}

/// A file with the template of a module: the header row and one example row.
/// `None` where there is no room for its texts in a sheet; else a file, unless
/// the texts are over `MAX_SAVED` in size and it cannot be saved. What is read
/// back from the file is the template, unless a label is empty or a text is
/// taken for one that holds its own markup.
pub fn generate_template(module: &ModuleDef) -> (r: Option<Vec<u8>>)
    requires
        rows_writable(template_sheet(*module)),
    ensures
        ({
            let sheet = template_sheet(*module);
            let room = headings_fit(sheet[0]) && sheet_fits(sheet);
            &&& r is Some ==> room
            &&& room && size_of_rows(sheet) <= MAX_SAVED ==> r is Some
            &&& r matches Some(bytes) ==> reads_back(sheet) ==> reads_as(bytes@, sheet)
        }),
{
    let t = template(module);
    let mut rows: Vec<Vec<String>> = Vec::new();
    rows.push(t.examples);
    proof {
        let sheet = template_sheet(*module);
        assert(seq![views(t.labels@)] + texts_view(rows@) =~= sheet);
        assert(row_writable(sheet[0]) && row_writable(sheet[1]));
        reveal_strlit("Import");
    }
    let widths: Vec<u8> = Vec::new();
    write_sheet("Import", "#EAE3CE", &t.labels, &rows, &widths)
}

proof fn lemma_field_texts(f: FieldDef)
    requires
        identifier_problem(f.name@) is None,
    ensures
        narrow(label(f)),
        0 < label(f).len() <= 80,
        !marked_up(label(f)),
        narrow(example(f)),
        0 < example(f).len() <= 80,
        !marked_up(example(f)),
{
    law_identifiers_are_plain(f.name@);
    reveal_strlit(" *");
    reveal_strlit("# ");
    reveal_strlit("0");
    reveal_strlit("0.00");
    reveal_strlit("false");
    reveal_strlit("2026-01-31");
    reveal_strlit("example ");
    assert forall|i: int| 0 <= i < f.name@.len() implies width(#[trigger] f.name@[i]) == 1 by {
        assert(word_char(f.name@[i]));
    }
    assert(word_char(f.name@[0]));
    lemma_is_unmarked(label(f));
    lemma_is_unmarked(example(f));
}

proof fn lemma_template_texts(module_id: Seq<char>, fields: Seq<FieldDef>)
    requires
        forall|i: int| 0 <= i < fields.len() ==> identifier_problem((#[trigger] fields[i]).name@) is None,
    ensures
        ({
            let labels = template_labels(module_id, fields);
            let examples = template_examples(module_id, fields);
            &&& labels.len() <= fields.len() && examples.len() == labels.len()
            &&& forall|i: int|
                0 <= i < labels.len() ==> narrow(#[trigger] labels[i]) && 0 < labels[i].len() <= 80 && !marked_up(
                    labels[i],
                )
            &&& forall|i: int|
                0 <= i < examples.len() ==> narrow(#[trigger] examples[i]) && 0 < examples[i].len() <= 80 && !marked_up(
                    examples[i],
                )
            &&& size_of_row(labels) <= 81 * fields.len()
            &&& size_of_row(examples) <= 81 * fields.len()
        }),
    decreases fields.len(),
{
    if fields.len() > 0 {
        let rest = fields.drop_last();
        assert forall|i: int| 0 <= i < rest.len() implies identifier_problem((#[trigger] rest[i]).name@) is None by {
            assert(rest[i] == fields[i]);
        }
        lemma_template_texts(module_id, rest);
        lemma_field_texts(fields.last());
        let labels = template_labels(module_id, rest);
        let examples = template_examples(module_id, rest);
        assert(labels.push(label(fields.last())).drop_last() =~= labels);
        assert(examples.push(example(fields.last())).drop_last() =~= examples);
    }
}

/// Every definition that passes the check, and has no more fields than a sheet
/// has columns, has a template that is written and read back as it is.
pub proof fn law_checked_template_is_written(module: ModuleDef)
    requires
        definition_problem(module) is None,
        module.fields@.len() <= MAX_COLUMNS,
    ensures
        ({
            let sheet = template_sheet(module);
            &&& rows_writable(sheet)
            &&& headings_fit(sheet[0]) && sheet_fits(sheet)
            &&& size_of_rows(sheet) <= MAX_SAVED
            &&& reads_back(sheet)
        }),
{
    law_checked_names(module);
    lemma_template_texts(module.id@, module.fields@);
    let sheet = template_sheet(module);
    assert forall|i: int| 0 <= i < sheet.len() implies row_writable(#[trigger] sheet[i]) && row_fits(i, sheet[i]) by {
        assert forall|j: int| 0 <= j < sheet[i].len() implies writable(#[trigger] sheet[i][j]) && text_fits(
            i,
            j,
            sheet[i][j],
        ) by {
            lemma_narrow_is_writable(sheet[i][j]);
        }
    }
    assert(rows_unmarked(sheet)) by {
        assert(row_unmarked(sheet[0]) && row_unmarked(sheet[1]));
    }
    assert(sheet.drop_last() =~= seq![sheet[0]]);
    assert(sheet.drop_last().drop_last() =~= Seq::empty());
    reveal_with_fuel(size_of_rows, 3);
}

// ---------------------------------------------------------------------------
// The header row
// ---------------------------------------------------------------------------

/// The text that a cell shows.
pub open spec fn cell_text(c: CellView) -> Seq<char> {
    match c {
        CellView::Text(s) => s,
        CellView::Int(n) => signed_decimal(n as int),
        CellView::Real(bits, shown, whole) => shown,
        CellView::Bool(b) => if b {
            "true"@
        } else {
            "false"@
        },
        _ => Seq::empty(),
    }
}

/// The text that a cell shows.
pub fn cell_to_string(c: &Cell) -> (s: String)
    ensures
        s@ == cell_text(c@),
{
    match c {
        Cell::Text(s) => s.clone(),
        Cell::Int(n) => i64_text(*n),
        Cell::Real { shown, .. } => shown.clone(),
        Cell::Bool(b) => if *b {
            "true".to_owned()
        } else {
            "false".to_owned()
        },
        _ => String::new(),
    }
}

/// The text without the stars that mark a required column.
pub open spec fn unstarred(s: Seq<char>) -> Seq<char>
    decreases s.len(),
{
    if s.len() >= 2 && s[s.len() - 2] == ' ' && s[s.len() - 1] == '*' {
        unstarred(s.take(s.len() - 2))
    } else {
        s
    }
}

/// The text without the stars that mark a required column.
#[verifier::spinoff_prover]
pub fn unstar(s: &str) -> (r: String)
    ensures
        r@ == unstarred(s@),
{
    let v = to_chars(s);
    let mut n: usize = v.len();
    assert(v@.take(n as int) =~= v@);
    while n >= 2 && v[n - 2] == ' ' && v[n - 1] == '*'
        invariant
            v@ == s@,
            n <= v@.len(),
            unstarred(s@) == unstarred(v@.take(n as int)),
        decreases n,
    {
        assert(v@.take(n as int).take(n - 2) =~= v@.take(n - 2));
        n = n - 2;
    }
    assert(v@.subrange(0, n as int) =~= v@.take(n as int));
    slice_text(&v, 0, n)
}

/// The column names of a header row.
pub open spec fn header_names(row: Seq<CellView>) -> Seq<Seq<char>> {
    Seq::new(row.len(), |i: int| unstarred(cell_text(row[i])))
}

/// The column names of a header row.
pub fn read_header(row: &Vec<Cell>) -> (r: Vec<String>)
    ensures
        views(r@) == header_names(row_view(row@)),
{
    let mut r: Vec<String> = Vec::new();
    let mut i: usize = 0;
    while i < row.len()
        invariant
            i <= row@.len(),
            r@.len() == i,
            forall|k: int| 0 <= k < i ==> (#[trigger] r@[k])@ == unstarred(cell_text(row@[k]@)),
        decreases row@.len() - i,
    {
        let text = cell_to_string(&row[i]);
        r.push(unstar(text.as_str()));
        i = i + 1;
    }
    assert(views(r@) =~= header_names(row_view(row@)));
    r
}

/// The headers of a template come back as the names of the fields: for every
/// name that can be a field's, the star that marks a required column is taken
/// off again and nothing else is.
pub proof fn law_template_headers_come_back(f: FieldDef)
    requires
        identifier_problem(f.name@) is None,
    ensures
        unstarred(label(f)) == f.name@,
{
    crate::module::law_identifiers_are_plain(f.name@);
    let n = f.name@;
    reveal_strlit(" *");
    assert(crate::module::word_char(n[n.len() - 1]));
    assert(unstarred(n) == n);
    if f.required {
        let l = label(f);
        assert(l[l.len() - 2] == ' ' && l[l.len() - 1] == '*');
        assert(l.take(l.len() - 2) =~= n);
    }
}

/// The names of the fields that a template has columns for.
pub open spec fn template_names(module_id: Seq<char>, fields: Seq<FieldDef>) -> Seq<Seq<char>>
    decreases fields.len(),
{
    if fields.len() == 0 {
        Seq::empty()
    } else if in_template(module_id, fields.last().name@) {
        template_names(module_id, fields.drop_last()).push(fields.last().name@)
    } else {
        template_names(module_id, fields.drop_last())
    }
}

proof fn lemma_labels_name_fields(module_id: Seq<char>, fields: Seq<FieldDef>)
    requires
        forall|i: int| 0 <= i < fields.len() ==> identifier_problem((#[trigger] fields[i]).name@) is None,
    ensures
        template_labels(module_id, fields).map_values(|l: Seq<char>| unstarred(l)) == template_names(
            module_id,
            fields,
        ),
    decreases fields.len(),
{
    let unstarring = |l: Seq<char>| unstarred(l);
    if fields.len() > 0 {
        let rest = fields.drop_last();
        assert forall|i: int| 0 <= i < rest.len() implies identifier_problem((#[trigger] rest[i]).name@) is None by {
            assert(rest[i] == fields[i]);
        }
        lemma_labels_name_fields(module_id, rest);
        law_template_headers_come_back(fields.last());
    }
    assert(template_labels(module_id, fields).map_values(unstarring) =~= template_names(module_id, fields));
}

/// A template that comes back is understood: the header row that is read from
/// its file names the fields, in the order of the columns.
pub proof fn law_template_is_understood(module: ModuleDef, bytes: Seq<u8>)
    requires
        definition_problem(module) is None,
        template_names(module.id@, module.fields@).len() > 0,
        reads_as(bytes, template_sheet(module)),
    ensures
        match reading_of(bytes) {
            Ok(rows) => rows.len() == 2 && header_names(rows[0]) == template_names(module.id@, module.fields@),
            Err(_) => false,
        },
{
    let sheet = template_sheet(module);
    let names = template_names(module.id@, module.fields@);
    law_checked_names(module);
    lemma_template_texts(module.id@, module.fields@);
    lemma_labels_name_fields(module.id@, module.fields@);
    assert(sheet[0].map_values(|l: Seq<char>| unstarred(l)).len() == sheet[0].len());
    assert(sheet[1][0].len() > 0);
    assert(used_rows(sheet) == sheet);
    let rows = text_cells(sheet);
    assert(header_names(rows[0]) =~= names) by {
        assert forall|i: int| 0 <= i < names.len() implies header_names(rows[0])[i] == names[i] by {
            assert(rows[0][i] == CellView::Text(sheet[0][i]));
            assert(names[i] == sheet[0].map_values(|l: Seq<char>| unstarred(l))[i]);
        }
    }
}

// ---------------------------------------------------------------------------
// Before the rows
// ---------------------------------------------------------------------------

/// Why an import is refused as a whole.
#[derive(Debug)]
pub enum ImportError {
    Access(AccessError),
    Sheet(SheetError),
    /// There is no header row.
    EmptySheet,
    /// The header row has no column for the key.
    NoKeyColumn,
}

/// Why an import is refused as a whole.
pub enum ImportErrorView {
    Access(AccessErrorView),
    Sheet((SheetProblem, Seq<char>)),
    EmptySheet,
    NoKeyColumn,
}

impl View for ImportError {
    type V = ImportErrorView;

    open spec fn view(&self) -> ImportErrorView {
        match *self {
            ImportError::Access(e) => ImportErrorView::Access(e@),
            ImportError::Sheet(e) => ImportErrorView::Sheet(e@),
            ImportError::EmptySheet => ImportErrorView::EmptySheet,
            ImportError::NoKeyColumn => ImportErrorView::NoKeyColumn,
        }
    }
}

/// Why a user may not import into a module. Importing purchase orders also
/// receives them, so it needs the right to receive.
pub open spec fn import_refusal(access: Option<&Access>, module_id: Seq<char>) -> Option<AccessErrorView> {
    match refusal(access, module_id, "create"@) {
        Some(e) => Some(e),
        None => if module_id == "purchasing"@ {
            refusal(access, "inventory"@, "receive"@)
        } else {
            None
        },
    }
}

/// Requires the right to import into a module.
pub fn require_import(access: Option<&Access>, module_id: &str) -> (r: Result<(), AccessError>)
    ensures
        match r {
            Ok(()) => import_refusal(access, module_id@) is None,
            Err(e) => import_refusal(access, module_id@) == Some(e@),
        },
{
    match require(access, module_id, "create") {
        Err(e) => Err(e),
        Ok(()) => if same(module_id, "purchasing") {
            require(access, "inventory", "receive")
        } else {
            Ok(())
        },
    }
}

/// Whether the key is a field that the module declares unique. Only then does
/// an equal key mean the same record.
pub open spec fn key_is_unique(fields: Seq<FieldDef>, key_field: Seq<char>) -> bool {
    exists|i: int| 0 <= i < fields.len() && (#[trigger] fields[i]).name@ == key_field && fields[i].unique
}

/// Whether the key is one that the system makes for new records, so that a
/// sheet of new records has no column for it.
pub open spec fn key_is_generated(module_id: Seq<char>, key_field: Seq<char>) -> bool {
    number_field(module_id) == Some(key_field)
}

/// What the header row says about a sheet.
#[derive(Debug)]
pub struct SheetPlan {
    pub headers: Vec<String>,
    /// Whether rows are matched with existing records at all.
    pub matches_existing: bool,
    /// Whether the sheet carries counted quantities.
    pub has_quantity: bool,
}

fn is_key_unique(fields: &Vec<FieldDef>, key_field: &str) -> (b: bool)
    ensures
        b == key_is_unique(fields@, key_field@),
{
    let mut i: usize = 0;
    while i < fields.len()
        invariant
            i <= fields@.len(),
            forall|k: int| 0 <= k < i ==> !((#[trigger] fields@[k]).name@ == key_field@ && fields@[k].unique),
        decreases fields@.len() - i,
    {
        if same(fields[i].name.as_str(), key_field) && fields[i].unique {
            return true;
        }
        i = i + 1;
    }
    false
}

fn is_key_generated(module_id: &str, key_field: &str) -> (b: bool)
    ensures
        b == key_is_generated(module_id@, key_field@),
{
    if same(module_id, "purchasing") {
        same(key_field, "po_number")
    } else if same(module_id, "debt_credit") {
        same(key_field, "entry_number")
    } else {
        false
    }
}

/// Whether the header row lacks the column that rows would be matched by.
pub open spec fn key_column_missing(module: ModuleDef, headers: Seq<Seq<char>>, key_field: Seq<char>) -> bool {
    &&& key_is_unique(module.fields@, key_field)
    &&& !key_is_generated(module.id@, key_field)
    &&& !headers.contains(key_field)
}

/// Reads the header row of a sheet, if it has one.
pub fn plan_sheet(module: &ModuleDef, rows: &Vec<Vec<Cell>>, key_field: &str) -> (r: Result<SheetPlan, ImportError>)
    ensures
        match r {
            Ok(plan) => {
                &&& rows@.len() > 0
                &&& views(plan.headers@) == header_names(row_view(rows@[0]@))
                &&& !key_column_missing(*module, views(plan.headers@), key_field@)
                &&& plan.matches_existing == key_is_unique(module.fields@, key_field@)
                &&& plan.has_quantity == views(plan.headers@).contains("quantity"@)
            },
            Err(ImportError::EmptySheet) => rows@.len() == 0,
            Err(ImportError::NoKeyColumn) => rows@.len() > 0 && key_column_missing(
                *module,
                header_names(row_view(rows@[0]@)),
                key_field@,
            ),
            Err(_) => false,
        },
{
    if rows.len() == 0 {
        return Err(ImportError::EmptySheet);
    }
    let headers = read_header(&rows[0]);
    let matches_existing: bool = is_key_unique(&module.fields, key_field);
    if matches_existing && !is_key_generated(module.id.as_str(), key_field) && !list_has(&headers, key_field) {
        return Err(ImportError::NoKeyColumn);
    }
    let has_quantity: bool = list_has(&headers, "quantity");
    Ok(SheetPlan { headers, matches_existing, has_quantity })
}

/// An import that may go on: its rows and what their header says.
#[derive(Debug)]
pub struct OpenedImport {
    pub rows: Vec<Vec<Cell>>,
    pub plan: SheetPlan,
}

/// Starts an import: requires the right to it, reads the file and its header
/// row.
pub fn open_import(access: Option<&Access>, module: &ModuleDef, bytes: Vec<u8>, key_field: &str) -> (r: Result<
    OpenedImport,
    ImportError,
>)
    ensures
        match r {
            Ok(o) => {
                &&& import_refusal(access, module.id@) is None
                &&& reading_of(bytes@) == Ok::<Seq<Seq<CellView>>, (SheetProblem, Seq<char>)>(rows_view(o.rows@))
                &&& o.rows@.len() > 0
                &&& views(o.plan.headers@) == header_names(row_view(o.rows@[0]@))
                &&& !key_column_missing(*module, views(o.plan.headers@), key_field@)
                &&& o.plan.matches_existing == key_is_unique(module.fields@, key_field@)
                &&& o.plan.has_quantity == views(o.plan.headers@).contains("quantity"@)
            },
            Err(e) => match import_refusal(access, module.id@) {
                Some(a) => e@ == ImportErrorView::Access(a),
                None => match reading_of(bytes@) {
                    Err(s) => e@ == ImportErrorView::Sheet(s),
                    Ok(rows) => if rows.len() == 0 {
                        e@ == ImportErrorView::EmptySheet
                    } else {
                        &&& e@ == ImportErrorView::NoKeyColumn
                        &&& key_column_missing(*module, header_names(rows[0]), key_field@)
                    },
                },
            },
        },
{
    match require_import(access, module.id.as_str()) {
        Err(e) => {
            return Err(ImportError::Access(e));
        },
        Ok(()) => {},
    }
    match read_sheet(bytes) {
        Err(e) => Err(ImportError::Sheet(e)),
        Ok(rows) => {
            assert(rows_view(rows@).len() == rows@.len());
            match plan_sheet(module, &rows, key_field) {
                Ok(plan) => Ok(OpenedImport { rows, plan }),
                Err(e) => {
                    assert(rows@.len() > 0 ==> rows_view(rows@)[0] == row_view(rows@[0]@));
                    Err(e)
                },
            }
        },
    }
}

/// The sentence for an import that is refused as a whole.
pub open spec fn import_message(e: ImportErrorView, key_field: Seq<char>) -> Seq<char> {
    match e {
        ImportErrorView::Access(a) => a.message(),
        ImportErrorView::Sheet(s) => match s.0 {
            SheetProblem::NotASpreadsheet => "could not read this file as an Excel spreadsheet: "@ + s.1,
            SheetProblem::NoSheets => "this spreadsheet has no sheets"@,
            SheetProblem::Unreadable => "could not read the first sheet: "@ + s.1,
        },
        ImportErrorView::EmptySheet => "the spreadsheet is empty — no header row found"@,
        ImportErrorView::NoKeyColumn => "this spreadsheet's header row doesn't have a '"@ + key_field
            + "' column — download a fresh template and keep the header row exactly as it is"@,
    }
}

/// The sentence for an import that is refused as a whole.
pub fn import_error_text(e: &ImportError, key_field: &str) -> (s: String)
    ensures
        s@ == import_message(e@, key_field@),
{
    match e {
        ImportError::Access(a) => a.message(),
        ImportError::Sheet(s) => match s.problem {
            SheetProblem::NotASpreadsheet => cat(
                "could not read this file as an Excel spreadsheet: ",
                s.detail.as_str(),
            ),
            SheetProblem::NoSheets => "this spreadsheet has no sheets".to_owned(),
            SheetProblem::Unreadable => cat("could not read the first sheet: ", s.detail.as_str()),
        },
        ImportError::EmptySheet => "the spreadsheet is empty — no header row found".to_owned(),
        ImportError::NoKeyColumn => {
            let mut s = "this spreadsheet's header row doesn't have a '".to_owned();
            s.append(key_field);
            s.append("' column — download a fresh template and keep the header row exactly as it is");
            s
        },
    }
}

/// The key that rows are matched by where none was asked for: the first unique
/// field, or else the record's own id.
pub open spec fn default_key(fields: Seq<FieldDef>) -> Seq<char>
    decreases fields.len(),
{
    if fields.len() == 0 {
        "id"@
    } else if fields[0].unique {
        fields[0].name@
    } else {
        default_key(fields.drop_first())
    }
}

/// The key that rows are matched by where none was asked for.
pub fn default_key_field(fields: &Vec<FieldDef>) -> (s: String)
    ensures
        s@ == default_key(fields@),
{
    let mut i: usize = 0;
    assert(fields@.skip(0) =~= fields@);
    while i < fields.len()
        invariant
            i <= fields@.len(),
            default_key(fields@) == default_key(fields@.skip(i as int)),
        decreases fields@.len() - i,
    {
        if fields[i].unique {
            return fields[i].name.clone();
        }
        assert(fields@.skip(i as int).drop_first() =~= fields@.skip(i + 1));
        i = i + 1;
    }
    "id".to_owned()
}

// ---------------------------------------------------------------------------
// Cells
// ---------------------------------------------------------------------------

/// A number with a fraction as a value; what is not finite is no value.
pub open spec fn real_value(bits: Option<u64>) -> ValueView {
    match bits {
        Some(b) => if finite(b) {
            ValueView::Real(b)
        } else {
            ValueView::Null
        },
        None => ValueView::Null,
    }
}

/// An amount as a value, in minor units; what is no amount is no value.
pub open spec fn money_value(text: Seq<char>, currency: Seq<char>) -> ValueView {
    match amount_of(text, places_of(currency)) {
        Ok(cents) => ValueView::Int(cents as i64),
        Err(e) => ValueView::Null,
    }
}

/// Whether a text says yes: `true` in any letter case, or `1`.
pub open spec fn says_yes(s: Seq<char>) -> bool {
    s.map_values(|c: char| ascii_lower(c)) == "true"@ || s == "1"@
}

/// The value that a cell gives a field of a type. A person types an amount in
/// major units and any cell can hold it as a number or a text; the same goes
/// for whole numbers and dates.
pub open spec fn cell_value(c: CellView, ty: Seq<char>, currency: Seq<char>) -> ValueView {
    match c {
        CellView::Int(n) => if ty == "integer"@ {
            ValueView::Int(n)
        } else if ty == "real"@ {
            real_value(real_of(signed_decimal(n as int)))
        } else if ty == "money"@ {
            money_value(signed_decimal(n as int), currency)
        } else {
            ValueView::Text(signed_decimal(n as int))
        },
        CellView::Real(bits, shown, whole) => if ty == "integer"@ {
            ValueView::Int(whole)
        } else if ty == "real"@ {
            real_value(Some(bits))
        } else if ty == "money"@ {
            money_value(shown, currency)
        } else {
            ValueView::Text(shown)
        },
        CellView::Text(s) => if ty == "integer"@ {
            match int_of(trimmed(s)) {
                Some(n) => if i64::MIN <= n <= i64::MAX {
                    ValueView::Int(n as i64)
                } else {
                    ValueView::Null
                },
                None => ValueView::Null,
            }
        } else if ty == "real"@ {
            real_value(real_of(trimmed(s)))
        } else if ty == "money"@ {
            money_value(trimmed(s), currency)
        } else if ty == "boolean"@ {
            ValueView::Bool(says_yes(s))
        } else if ty == "date"@ {
            if calendar_date(trimmed(s)) {
                ValueView::Text(trimmed(s))
            } else {
                ValueView::Null
            }
        } else {
            ValueView::Text(s)
        },
        CellView::Bool(b) => if ty == "boolean"@ {
            ValueView::Bool(b)
        } else {
            ValueView::Null
        },
        CellView::IsoDate(s) => if ty == "date"@ {
            ValueView::Text(s)
        } else {
            ValueView::Null
        },
        CellView::Date(count, since_1904) => match counted_date(count, since_1904) {
            Some(d) if ty == "date"@ => ValueView::Text(d),
            _ => ValueView::Null,
        },
        _ => ValueView::Null,
    }
}

fn get_real_value(bits: Option<u64>) -> (v: Value)
    ensures
        v@ == real_value(bits),
{
    match bits {
        Some(b) => if is_finite(b) {
            Value::Real(b)
        } else {
            Value::Null
        },
        None => Value::Null,
    }
}

fn get_money_value(text: &str, currency: &str) -> (v: Value)
    ensures
        v@ == money_value(text@, currency@),
{
    match parse_money_input(text, currency) {
        Ok(cents) => Value::Int(cents),
        Err(_) => Value::Null,
    }
}

fn does_say_yes(s: &str) -> (b: bool)
    ensures
        b == says_yes(s@),
{
    let v = to_chars(s);
    let mut lower = String::new();
    let mut i: usize = 0;
    while i < v.len()
        invariant
            v@ == s@,
            i <= v@.len(),
            lower@.len() == i,
            forall|k: int| 0 <= k < i ==> lower@[k] == ascii_lower(s@[k]),
        decreases v@.len() - i,
    {
        lower.push(char_ascii_lower(v[i]));
        i = i + 1;
    }
    assert(lower@ =~= s@.map_values(|c: char| ascii_lower(c)));
    same(lower.as_str(), "true") || same(s, "1")
}

/// The value that a cell gives a field of a type.
pub fn cell_to_json(c: &Cell, field_type: &str, currency: &str) -> (v: Value)
    ensures
        v@ == cell_value(c@, field_type@, currency@),
{
    match c {
        Cell::Int(n) => {
            let text = i64_text(*n);
            if same(field_type, "integer") {
                Value::Int(*n)
            } else if same(field_type, "real") {
                get_real_value(real_bits(text.as_str()))
            } else if same(field_type, "money") {
                get_money_value(text.as_str(), currency)
            } else {
                Value::Text(text)
            }
        },
        Cell::Real { bits, shown, whole } => {
            if same(field_type, "integer") {
                Value::Int(*whole)
            } else if same(field_type, "real") {
                get_real_value(Some(*bits))
            } else if same(field_type, "money") {
                get_money_value(shown.as_str(), currency)
            } else {
                Value::Text(shown.clone())
            }
        },
        Cell::Text(s) => {
            let t = trim(s.as_str());
            if same(field_type, "integer") {
                match parse_i64(t.as_str()) {
                    Some(n) => Value::Int(n),
                    None => Value::Null,
                }
            } else if same(field_type, "real") {
                get_real_value(real_bits(t.as_str()))
            } else if same(field_type, "money") {
                get_money_value(t.as_str(), currency)
            } else if same(field_type, "boolean") {
                Value::Bool(does_say_yes(s.as_str()))
            } else if same(field_type, "date") {
                if is_date(t.as_str()) {
                    Value::Text(t)
                } else {
                    Value::Null
                }
            } else {
                Value::Text(s.clone())
            }
        },
        Cell::Bool(b) => if same(field_type, "boolean") {
            Value::Bool(*b)
        } else {
            Value::Null
        },
        Cell::IsoDate(s) => if same(field_type, "date") {
            Value::Text(s.clone())
        } else {
            Value::Null
        },
        Cell::Date { count, since_1904 } => if same(field_type, "date") {
            match get_counted_date(count.as_str(), *since_1904) {
                Some(d) => Value::Text(d),
                None => Value::Null,
            }
        } else {
            Value::Null
        },
        Cell::Empty => Value::Null,
        Cell::Other => Value::Null,
    }
}

/// An amount in a cell never becomes anything but whole minor units or
/// nothing: no fraction of a cent comes in by a spreadsheet.
pub proof fn law_cells_give_whole_money(c: CellView, currency: Seq<char>)
    requires
        c is Int || c is Real || c is Text,
    ensures
        cell_value(c, "money"@, currency) is Int || cell_value(c, "money"@, currency) is Null,
{
    reveal_strlit("money");
    reveal_strlit("integer");
    reveal_strlit("real");
    assert("money"@.len() == 5 && "integer"@.len() == 7 && "real"@.len() == 4);
}

/// The types of fields are all different words.
proof fn lemma_types_differ()
    ensures
        "integer"@.len() == 7 && "real"@.len() == 4 && "money"@.len() == 5 && "boolean"@.len() == 7 && "date"@.len()
            == 4 && "text"@.len() == 4,
        "integer"@ != "boolean"@,
        "real"@ != "date"@ && "real"@ != "text"@ && "date"@ != "text"@,
{
    reveal_strlit("integer");
    reveal_strlit("real");
    reveal_strlit("money");
    reveal_strlit("boolean");
    reveal_strlit("date");
    reveal_strlit("text");
    assert("integer"@[0] == 'i' && "boolean"@[0] == 'b');
    assert("real"@[0] == 'r' && "date"@[0] == 'd' && "text"@[0] == 't');
}

/// A spreadsheet may hold an amount as a number or as a text, and it is the same
/// amount: a numeric cell of a money field gives what a text cell with the
/// number as it is shown gives.
pub proof fn law_money_is_the_same_in_any_cell(bits: u64, shown: Seq<char>, whole: i64, n: i64, currency: Seq<char>)
    ensures
        cell_value(CellView::Real(bits, shown, whole), "money"@, currency) == cell_value(
            CellView::Text(shown),
            "money"@,
            currency,
        ),
        cell_value(CellView::Int(n), "money"@, currency) == cell_value(
            CellView::Text(signed_decimal(n as int)),
            "money"@,
            currency,
        ),
{
    lemma_types_differ();
    law_outer_blanks_do_not_matter(shown, places_of(currency));
    law_outer_blanks_do_not_matter(signed_decimal(n as int), places_of(currency));
}

/// An amount in a spreadsheet is in major units. What a cell gives a money field
/// is the number that it shows, scaled by ten to the places of the currency, and
/// nothing where the number has more places than that or does not fit.
pub proof fn law_money_cells_hold_major_units(
    bits: u64,
    rounded: i64,
    negative: bool,
    whole: Seq<char>,
    frac: Seq<char>,
    n: i64,
    currency: Seq<char>,
)
    requires
        whole.len() > 0,
        all_digits(whole),
        all_digits(frac),
        digits_value(whole) <= i64::MAX,
    ensures
        ({
            let places = places_of(currency);
            let number = digits_value(whole + frac) * if negative {
                -1int
            } else {
                1
            };
            match cell_value(CellView::Real(bits, number_text(negative, whole, frac), rounded), "money"@, currency) {
                ValueView::Int(cents) => frac.len() <= places && cents * ten_to(frac.len()) == number * ten_to(places),
                ValueView::Null => frac.len() > places || digits_value(whole + frac) * ten_to(places) > i64::MAX
                    * ten_to(frac.len()),
                _ => false,
            }
        }),
        match cell_value(CellView::Int(n), "money"@, currency) {
            ValueView::Int(cents) => cents == n * ten_to(places_of(currency)),
            ValueView::Null => n * ten_to(places_of(currency)) > i64::MAX || n * ten_to(places_of(currency))
                < -i64::MAX,
            _ => false,
        },
{
    lemma_types_differ();
    law_amounts_are_the_numbers_typed(negative, whole, frac, places_of(currency));
    law_whole_amounts_are_scaled(n as int, places_of(currency));
}

/// A whole number means the same in a numeric cell and in a text cell, whatever
/// type of number the field has. A number in a field that takes no number comes
/// in as its text.
pub proof fn law_whole_numbers_read_alike(n: i64, ty: Seq<char>, currency: Seq<char>)
    requires
        ty != "boolean"@ && ty != "date"@,
    ensures
        cell_value(CellView::Int(n), ty, currency) == cell_value(
            CellView::Text(signed_decimal(n as int)),
            ty,
            currency,
        ),
        cell_value(CellView::Int(n), "integer"@, currency) == ValueView::Int(n),
        cell_value(CellView::Int(n), "text"@, currency) == ValueView::Text(signed_decimal(n as int)),
{
    lemma_types_differ();
    let s = signed_decimal(n as int);
    let m: nat = if n < 0 {
        (-n) as nat
    } else {
        n as nat
    };
    crate::text::lemma_decimal(m);
    let d = decimal(m);
    assert(is_digit(d[0]) && is_digit(d[d.len() - 1]));
    assert(s.last() == d.last());
    assert(!crate::text::is_white(s[0]) && !crate::text::is_white(s.last()));
    crate::text::lemma_trim_fixed(s);
    if n < 0 {
        assert(s.skip(1) =~= d);
    }
    assert(int_of(s) == Some(n as int));
}

/// What a cell holds is kept as it is where the field is of its type: a flag, a
/// date, a text, a number with a fraction. Yes and no mean the same as a flag and
/// as a text, and an empty cell gives nothing to any field.
pub proof fn law_cells_keep_what_they_hold(
    b: bool,
    s: Seq<char>,
    bits: u64,
    shown: Seq<char>,
    whole: i64,
    ty: Seq<char>,
    currency: Seq<char>,
)
    ensures
        cell_value(CellView::Bool(b), "boolean"@, currency) == ValueView::Bool(b),
        cell_value(CellView::Text("true"@), "boolean"@, currency) == ValueView::Bool(true),
        cell_value(CellView::Text("false"@), "boolean"@, currency) == ValueView::Bool(false),
        cell_value(CellView::IsoDate(s), "date"@, currency) == ValueView::Text(s),
        calendar_date(trimmed(s)) ==> cell_value(CellView::Text(s), "date"@, currency) == ValueView::Text(trimmed(s)),
        !calendar_date(trimmed(s)) ==> cell_value(CellView::Text(s), "date"@, currency) == ValueView::Null,
        cell_value(CellView::Text(s), "text"@, currency) == ValueView::Text(s),
        cell_value(CellView::Real(bits, shown, whole), "text"@, currency) == ValueView::Text(shown),
        cell_value(CellView::Real(bits, shown, whole), "integer"@, currency) == ValueView::Int(whole),
        finite(bits) ==> cell_value(CellView::Real(bits, shown, whole), "real"@, currency) == ValueView::Real(bits),
        cell_value(CellView::Empty, ty, currency) == ValueView::Null,
        ty != "boolean"@ ==> cell_value(CellView::Bool(b), ty, currency) == ValueView::Null,
        ty != "date"@ ==> cell_value(CellView::IsoDate(s), ty, currency) == ValueView::Null,
{
    lemma_types_differ();
    reveal_strlit("true");
    reveal_strlit("false");
    reveal_strlit("1");
    assert("true"@.map_values(|c: char| ascii_lower(c)) =~= "true"@);
    assert("false"@.map_values(|c: char| ascii_lower(c)).len() == 5);
    assert("true"@.len() == 4 && "1"@.len() == 1);
}

// ---------------------------------------------------------------------------
// Rows
// ---------------------------------------------------------------------------

/// Whether every cell of a row is empty.
pub open spec fn blank_row(row: Seq<CellView>) -> bool {
    forall|i: int| 0 <= i < row.len() ==> (#[trigger] row[i]) is Empty
}

/// The values that the first `n` columns of a row give: columns that name no
/// field, cells that are not there and empty cells give none.
pub open spec fn row_values(
    fields: Seq<FieldDef>,
    headers: Seq<Seq<char>>,
    row: Seq<CellView>,
    currency: Seq<char>,
    n: nat,
) -> Map<Seq<char>, ValueView>
    decreases n,
{
    if n == 0 {
        Map::empty()
    } else {
        let before = row_values(fields, headers, row, currency, (n - 1) as nat);
        let k = crate::module::field_index(fields, headers[n - 1]);
        if k < fields.len() && n - 1 < row.len() && !(row[n - 1] is Empty) {
            before.insert(headers[n - 1], cell_value(row[n - 1], fields[k].field_type@, currency))
        } else {
            before
        }
    }
}

/// The record of a row, with the defaults filled in.
pub open spec fn row_record(
    fields: Seq<FieldDef>,
    headers: Seq<Seq<char>>,
    row: Seq<CellView>,
    currency: Seq<char>,
) -> Map<Seq<char>, ValueView> {
    with_defaults(fields, row_values(fields, headers, row, currency, headers.len()))
}

fn is_blank_row(row: &Vec<Cell>) -> (b: bool)
    ensures
        b == blank_row(row_view(row@)),
{
    let mut i: usize = 0;
    while i < row.len()
        invariant
            i <= row@.len(),
            forall|k: int| 0 <= k < i ==> (#[trigger] row_view(row@)[k]) is Empty,
        decreases row@.len() - i,
    {
        match &row[i] {
            Cell::Empty => {
                assert(row_view(row@)[i as int] is Empty);
            },
            _ => {
                assert(!(row_view(row@)[i as int] is Empty));
                return false;
            },
        }
        i = i + 1;
    }
    true
}

/// The record of a row; `None` for a row whose cells are all empty.
pub fn read_row(module: &ModuleDef, headers: &Vec<String>, row: &Vec<Cell>, currency: &str) -> (r: Option<Record>)
    ensures
        match r {
            None => blank_row(row_view(row@)),
            Some(record) => !blank_row(row_view(row@)) && record@ == row_record(
                module.fields@,
                views(headers@),
                row_view(row@),
                currency@,
            ),
        },
{
    if is_blank_row(row) {
        return None;
    }
    let ghost cells = row_view(row@);
    let ghost names = views(headers@);
    let mut record = Record::new();
    let mut i: usize = 0;
    while i < headers.len()
        invariant
            i <= headers@.len(),
            cells == row_view(row@),
            names == views(headers@),
            record@ == row_values(module.fields@, names, cells, currency@, i as nat),
        decreases headers@.len() - i,
    {
        let k: usize = find_field(&module.fields, headers[i].as_str());
        assert(names[i as int] == headers@[i as int]@);
        if k < module.fields.len() && i < row.len() {
            assert(cells[i as int] == row@[i as int]@);
            let empty: bool = matches!(&row[i], Cell::Empty);
            if !empty {
                let value = cell_to_json(&row[i], module.fields[k].field_type.as_str(), currency);
                record.insert(module.fields[k].name.as_str(), value);
            }
        }
        i = i + 1;
    }
    crate::module::apply_defaults(&module.fields, &mut record);
    Some(record)
}

/// The number of a row as a person counts them, the header row being the
/// first.
pub fn row_number(index: usize) -> (n: usize)
    requires
        index < usize::MAX - 1,
    ensures
        n == index + 2,
{
    index + 2
}

/// Why a row is refused.
#[derive(Debug)]
pub enum RowError {
    Invalid(ValidationError),
    /// A purchase order must say which item it is for.
    NoItemName,
    /// There is no such item in Inventory.
    NoSuchItem { item: String },
    /// The row matches an existing item, but the sheet has no counts.
    NoQuantityColumn,
    /// The row changes a field that only an action may change.
    Blocked { field: String },
    /// The row changes a purchase order that has been received.
    Received { changed: String },
    BelowCost,
}

/// Why a row is refused.
pub enum RowErrorView {
    Invalid(ValidationError),
    NoItemName,
    NoSuchItem(Seq<char>),
    NoQuantityColumn,
    Blocked(Seq<char>),
    Received(Seq<char>),
    BelowCost,
}

impl View for RowError {
    type V = RowErrorView;

    open spec fn view(&self) -> RowErrorView {
        match *self {
            RowError::Invalid(e) => RowErrorView::Invalid(e),
            RowError::NoItemName => RowErrorView::NoItemName,
            RowError::NoSuchItem { item } => RowErrorView::NoSuchItem(item@),
            RowError::NoQuantityColumn => RowErrorView::NoQuantityColumn,
            RowError::Blocked { field } => RowErrorView::Blocked(field@),
            RowError::Received { changed } => RowErrorView::Received(changed@),
            RowError::BelowCost => RowErrorView::BelowCost,
        }
    }
}

/// The sentence for a refused row. `invalid` is the sentence for a value that is
/// not valid.
pub open spec fn row_message(
    e: RowErrorView,
    module_id: Seq<char>,
    key_field: Seq<char>,
    invalid: Seq<char>,
) -> Seq<char> {
    match e {
        RowErrorView::Invalid(v) => invalid,
        RowErrorView::NoItemName => "'item_name' is required"@,
        RowErrorView::NoSuchItem(item) => "no Inventory item named '"@ + item
            + "' was found — create the item in Inventory first, then re-import"@,
        RowErrorView::NoQuantityColumn => "an item with this '"@ + key_field
            + "' already exists — this template is for adding new items only and has no quantity column; to correct an existing item's stock count, use \"Export to Excel\", edit the counted quantities, and reimport that file instead"@,
        RowErrorView::Blocked(field) => "'"@ + field + "' cannot be edited directly on '"@ + module_id
            + "' — use the sell, receive, refund, or repack action instead"@,
        RowErrorView::Received(field) => "'"@ + field
            + "' cannot be changed on a purchase order that's already been received — its stock and cost are already applied to Inventory; adjust Inventory directly (or use Repack) instead"@,
        RowErrorView::BelowCost => "selling price cannot be lower than the cost price — this would sell at a loss"@,
    }
}

/// The sentence for a refused row.
pub fn row_error_text(e: &RowError, module_id: &str, key_field: &str, invalid: &str) -> (s: String)
    ensures
        s@ == row_message(e@, module_id@, key_field@, invalid@),
{
    match e {
        RowError::Invalid(_) => invalid.to_owned(),
        RowError::NoItemName => "'item_name' is required".to_owned(),
        RowError::NoSuchItem { item } => {
            let mut s = "no Inventory item named '".to_owned();
            s.append(item.as_str());
            s.append("' was found — create the item in Inventory first, then re-import");
            s
        },
        RowError::NoQuantityColumn => {
            let mut s = "an item with this '".to_owned();
            s.append(key_field);
            s.append(
                "' already exists — this template is for adding new items only and has no quantity column; to correct an existing item's stock count, use \"Export to Excel\", edit the counted quantities, and reimport that file instead",
            );
            s
        },
        RowError::Blocked { field } => {
            let mut s = "'".to_owned();
            s.append(field.as_str());
            s.append("' cannot be edited directly on '");
            s.append(module_id);
            s.append("' — use the sell, receive, refund, or repack action instead");
            s
        },
        RowError::Received { changed } => {
            let mut s = "'".to_owned();
            s.append(changed.as_str());
            s.append(
                "' cannot be changed on a purchase order that's already been received — its stock and cost are already applied to Inventory; adjust Inventory directly (or use Repack) instead",
            );
            s
        },
        RowError::BelowCost => crate::crud::below_cost_text(),
    }
}

/// What is to be looked up for a row before it goes on.
#[derive(Debug)]
pub struct ReadyRow {
    pub record: Record,
    /// The item that a purchase order is for, to be found in Inventory by its
    /// name without regard to letter case.
    pub item_name: Option<String>,
}

/// Checks the record of a row, and says which item it is for.
pub fn check_row(module: &ModuleDef, record: Record) -> (r: Result<ReadyRow, RowError>)
    ensures
        ({
            let purchase = module.id@ == "purchasing"@;
            let item = trimmed(text_or_empty(record@, "item_name"@));
            match r {
                Ok(row) => {
                    &&& record_error(module.fields@, record@) is None
                    &&& row.record@ == record@
                    &&& purchase ==> item.len() > 0
                    &&& opt_view(row.item_name) == if purchase {
                        Some(item)
                    } else {
                        None
                    }
                },
                Err(e) => match record_error(module.fields@, record@) {
                    Some(v) => e@ == RowErrorView::Invalid(v),
                    None => purchase && item.len() == 0 && e@ == RowErrorView::NoItemName,
                },
            }
        }),
{
    match module.validate(&record) {
        Err(e) => {
            return Err(RowError::Invalid(e));
        },
        Ok(()) => {},
    }
    if same(module.id.as_str(), "purchasing") {
        let item = trim(record.get_text("item_name").as_str());
        if item.as_str().is_empty() {
            return Err(RowError::NoItemName);
        }
        Ok(ReadyRow { record, item_name: Some(item) })
    } else {
        Ok(ReadyRow { record, item_name: None })
    }
}

/// The record with the item it is for; `item_id` is what was found.
pub open spec fn linked(
    record: Map<Seq<char>, ValueView>,
    item_name: Option<Seq<char>>,
    item_id: Option<Seq<char>>,
) -> Result<Map<Seq<char>, ValueView>, RowErrorView> {
    match item_name {
        None => Ok(record),
        Some(name) => match item_id {
            Some(id) => Ok(record.insert("inventory_record_id"@, ValueView::Text(id))),
            None => Err(RowErrorView::NoSuchItem(name)),
        },
    }
}

/// Links a purchase order with the item that was found for it. An order for an
/// item that does not exist is refused, never left without a link.
pub fn link_item(row: ReadyRow, item_id: Option<&str>) -> (r: Result<Record, RowError>)
    ensures
        match r {
            Ok(record) => linked(row.record@, opt_view(row.item_name), crate::text::opt_str_view(item_id)) == Ok::<
                Map<Seq<char>, ValueView>,
                RowErrorView,
            >(record@),
            Err(e) => linked(row.record@, opt_view(row.item_name), crate::text::opt_str_view(item_id)) == Err::<
                Map<Seq<char>, ValueView>,
                RowErrorView,
            >(e@),
        },
{
    let mut record = row.record;
    match row.item_name {
        None => Ok(record),
        Some(item) => match item_id {
            Some(id) => {
                record.insert_text("inventory_record_id", id);
                Ok(record)
            },
            None => Err(RowError::NoSuchItem { item }),
        },
    }
}

/// What a generated number begins with.
pub open spec fn number_prefix(module_id: Seq<char>) -> Seq<char> {
    if module_id == "purchasing"@ {
        "PO-"@
    } else {
        "DC-"@
    }
}

/// Whether a row needs a number: its module numbers its records, and the row
/// brings no number of its own.
pub open spec fn needs_number(module_id: Seq<char>, record: Map<Seq<char>, ValueView>) -> bool {
    match number_field(module_id) {
        Some(f) => blank(text_or_empty(record, f)),
        None => false,
    }
}

/// The record with its number, `last` being the last number given out.
pub open spec fn numbered(
    module_id: Seq<char>,
    record: Map<Seq<char>, ValueView>,
    last: int,
) -> Map<Seq<char>, ValueView> {
    if needs_number(module_id, record) {
        record.insert(
            number_field(module_id)->0,
            ValueView::Text(number_prefix(module_id) + signed_decimal(last + 1)),
        )
    } else {
        record
    }
}

/// The number that a new record of a module gets, `last` being the last one
/// given out; empty where the module does not number its records.
pub fn next_number(module_id: &str, last: i64) -> (s: String)
    requires
        last < i64::MAX,
    ensures
        s@ == (if number_field(module_id@) is Some {
            number_prefix(module_id@) + signed_decimal(last + 1)
        } else {
            Seq::empty()
        }),
{
    if same(module_id, "purchasing") {
        cat("PO-", i64_text(last + 1).as_str())
    } else if same(module_id, "debt_credit") {
        cat("DC-", i64_text(last + 1).as_str())
    } else {
        String::new()
    }
}

/// Gives a row the next number where it needs one, and counts on. A row that
/// brings its own number keeps it.
pub fn number_row(module_id: &str, record: &mut Record, last: &mut i64)
    requires
        *old(last) < i64::MAX,
    ensures
        final(record)@ == numbered(module_id@, old(record)@, *old(last) as int),
        *final(last) == *old(last) + if needs_number(module_id@, old(record)@) {
            1int
        } else {
            0
        },
{
    let field = if same(module_id, "purchasing") {
        "po_number"
    } else if same(module_id, "debt_credit") {
        "entry_number"
    } else {
        return;
    };
    if is_blank(record.get_text(field).as_str()) {
        let number = next_number(module_id, *last);
        record.insert_text(field, number.as_str());
        *last = *last + 1;
    }
}

/// The numbers that two rows of one import get are different: the later row
/// counts on from the earlier one.
pub proof fn law_generated_numbers_differ(prefix: Seq<char>, a: nat, b: nat)
    requires
        prefix + signed_decimal(a as int) == prefix + signed_decimal(b as int),
    ensures
        a == b,
{
    let x = prefix + signed_decimal(a as int);
    assert(x.skip(prefix.len() as int) =~= crate::text::decimal(a));
    assert((prefix + signed_decimal(b as int)).skip(prefix.len() as int) =~= crate::text::decimal(b));
    crate::text::lemma_decimal(a);
    crate::text::lemma_decimal(b);
}

/// The key by which a row is matched with an existing record, where rows are
/// matched at all and the row has a text for it.
pub fn match_key(plan: &SheetPlan, record: &Record, key_field: &str) -> (r: Option<String>)
    ensures
        opt_view(r) == if plan.matches_existing {
            match get_of(record@, key_field@) {
                Some(v) => v.as_text(),
                None => None,
            }
        } else {
            None
        },
{
    if !plan.matches_existing {
        return None;
    }
    match record.get(key_field) {
        Some(v) => match v.as_str() {
            Some(s) => Some(s.to_owned()),
            None => None,
        },
        None => None,
    }
}

/// The first step of a row: reads and checks it. `None` for a row whose cells
/// are all empty, which is passed over.
pub fn start_row(
    module: &ModuleDef,
    plan: &SheetPlan,
    row: &Vec<Cell>,
    currency: &str,
) -> (r: Result<Option<ReadyRow>, RowError>)
    ensures
        ({
            let record = row_record(module.fields@, views(plan.headers@), row_view(row@), currency@);
            let purchase = module.id@ == "purchasing"@;
            let item = trimmed(text_or_empty(record, "item_name"@));
            if blank_row(row_view(row@)) {
                r matches Ok(None)
            } else {
                match record_error(module.fields@, record) {
                    Some(v) => r matches Err(e) && e@ == RowErrorView::Invalid(v),
                    None => if purchase && item.len() == 0 {
                        r matches Err(e) && e@ == RowErrorView::NoItemName
                    } else {
                        &&& r matches Ok(Some(ready))
                        &&& ready.record@ == record
                        &&& opt_view(ready.item_name) == (if purchase {
                            Some(item)
                        } else {
                            None
                        })
                    },
                }
            }
        }),
{
    match read_row(module, &plan.headers, row, currency) {
        None => Ok(None),
        Some(record) => match check_row(module, record) {
            Ok(ready) => Ok(Some(ready)),
            Err(e) => Err(e),
        },
    }
}

/// A row that is ready to be matched: its record, and the key to look for.
#[derive(Debug)]
pub struct KeyedRow {
    pub record: Record,
    pub key: Option<String>,
}

/// The second step of a row, once its item was looked up: links the item,
/// gives the row a number where it needs one, and says which key to look for.
/// A row that is refused uses up no number.
pub fn key_row(
    module: &ModuleDef,
    plan: &SheetPlan,
    key_field: &str,
    row: ReadyRow,
    item_id: Option<&str>,
    last: &mut i64,
) -> (r: Result<KeyedRow, RowError>)
    requires
        *old(last) < i64::MAX,
    ensures
        match linked(row.record@, opt_view(row.item_name), crate::text::opt_str_view(item_id)) {
            Err(why) => (r matches Err(e) && e@ == why) && *final(last) == *old(last),
            Ok(record) => {
                &&& r matches Ok(k)
                &&& k.record@ == numbered(module.id@, record, *old(last) as int)
                &&& opt_view(k.key) == (if plan.matches_existing {
                    match get_of(k.record@, key_field@) {
                        Some(v) => v.as_text(),
                        None => None,
                    }
                } else {
                    None
                })
                &&& *final(last) == *old(last) + if needs_number(module.id@, record) {
                    1int
                } else {
                    0
                }
            },
        },
{
    match link_item(row, item_id) {
        Err(e) => Err(e),
        Ok(record) => {
            let mut record = record;
            number_row(module.id.as_str(), &mut record, last);
            let key = match_key(plan, &record, key_field);
            Ok(KeyedRow { record, key })
        },
    }
}

// ---------------------------------------------------------------------------
// Correcting and creating
// ---------------------------------------------------------------------------

/// What is stored under a name; nothing is `Null`.
pub open spec fn stored_value(stored: Map<Seq<char>, ValueView>, name: Seq<char>) -> ValueView {
    match get_of(stored, name) {
        Some(v) => v,
        None => ValueView::Null,
    }
}

/// Whether a row changes the value of a name.
pub open spec fn changes(
    record: Map<Seq<char>, ValueView>,
    stored: Map<Seq<char>, ValueView>,
    name: Seq<char>,
) -> bool {
    record.dom().contains(name) && !record[name].equals(stored_value(stored, name))
}

/// Whether a row changes the value of a name that an import may not change.
pub open spec fn changes_blocked(
    module_id: Seq<char>,
    record: Map<Seq<char>, ValueView>,
    stored: Map<Seq<char>, ValueView>,
    name: Seq<char>,
) -> bool {
    blocked_field(module_id, name, true) && changes(record, stored, name)
}

/// The first name of the list whose value a row may not change but does.
pub open spec fn first_blocked_change(
    module_id: Seq<char>,
    names: Seq<Seq<char>>,
    record: Map<Seq<char>, ValueView>,
    stored: Map<Seq<char>, ValueView>,
) -> Option<Seq<char>> {
    first_some(
        names.len(),
        |i: int|
            if changes_blocked(module_id, record, stored, names[i]) {
                Some(names[i])
            } else {
                None
            },
    )
}

/// The field of a received purchase order that a row changes but may not:
/// its stock and cost are in Inventory already.
pub open spec fn received_change(
    module_id: Seq<char>,
    record: Map<Seq<char>, ValueView>,
    stored: Map<Seq<char>, ValueView>,
) -> Option<Seq<char>> {
    if module_id == "purchasing"@ && stored_value(stored, "received"@) == ValueView::Bool(true) {
        if changes(record, stored, "quantity"@) {
            Some("quantity"@)
        } else if changes(record, stored, "unit_cost"@) {
            Some("unit_cost"@)
        } else {
            None
        }
    } else {
        None
    }
}

/// Why a row cannot correct a record; `None` where it can.
pub open spec fn correction_problem(
    module_id: Seq<char>,
    has_quantity: bool,
    names: Seq<Seq<char>>,
    record: Map<Seq<char>, ValueView>,
    stored: Map<Seq<char>, ValueView>,
) -> Option<RowErrorView> {
    let blocked = first_blocked_change(module_id, names, record, stored);
    let received = received_change(module_id, record, stored);
    if module_id == "inventory"@ && !has_quantity {
        Some(RowErrorView::NoQuantityColumn)
    } else if blocked is Some {
        Some(RowErrorView::Blocked(blocked->0))
    } else if received is Some {
        Some(RowErrorView::Received(received->0))
    } else {
        None
    }
}

/// The part of a row that an import may change.
pub open spec fn correction(module_id: Seq<char>, record: Map<Seq<char>, ValueView>) -> Map<Seq<char>, ValueView> {
    Map::new(
        |n: Seq<char>| record.dom().contains(n) && !blocked_field(module_id, n, true),
        |n: Seq<char>| record[n],
    )
}

/// The first `i + 1` names are the first `i` and one more.
proof fn lemma_taken_names(names: Seq<Seq<char>>, i: int, n: Seq<char>)
    requires
        0 <= i < names.len(),
    ensures
        names.take(i + 1).contains(n) <==> names.take(i).contains(n) || names[i] == n,
{
    let longer = names.take(i + 1);
    let shorter = names.take(i);
    if longer.contains(n) {
        let k = choose|k: int| 0 <= k < longer.len() && longer[k] == n;
        if k < i {
            assert(shorter[k] == n);
        }
    }
    if shorter.contains(n) {
        let k = choose|k: int| 0 <= k < shorter.len() && shorter[k] == n;
        assert(longer[k] == n);
    }
    if names[i] == n {
        assert(longer[i] == n);
    }
}

fn does_change(record: &Record, stored: &Record, name: &str) -> (b: bool)
    ensures
        b == changes(record@, stored@, name@),
{
    match record.get(name) {
        None => false,
        Some(v) => match stored.get(name) {
            Some(s) => !v.equals(s),
            None => !v.equals(&Value::Null),
        },
    }
}

/// Decides how a row corrects the record that it matches: what of it is to be
/// applied, or why it is refused. A value that only an action may change is
/// left alone where the row repeats what is stored, and refused where it
/// differs; it is never dropped in silence.
pub fn plan_correction(module_id: &str, has_quantity: bool, record: &Record, stored: &Record) -> (r: Result<
    Record,
    RowError,
>)
    ensures
        match r {
            Ok(change) => correction_problem(module_id@, has_quantity, record.name_list(), record@, stored@) is None
                && change@ == correction(module_id@, record@),
            Err(e) => correction_problem(module_id@, has_quantity, record.name_list(), record@, stored@) == Some(e@),
        },
{
    if same(module_id, "inventory") && !has_quantity {
        return Err(RowError::NoQuantityColumn);
    }
    let fields = record.names();
    let ghost names = record.name_list();
    let ghost problems = |i: int|
        if changes_blocked(module_id@, record@, stored@, names[i]) {
            Some(names[i])
        } else {
            None
        };
    let mut change = record.copy();
    let mut i: usize = 0;
    while i < fields.len()
        invariant
            !(module_id@ == "inventory"@ && !has_quantity),
            names == record.name_list(),
            names == views(fields@),
            problems == (|i: int|
                if changes_blocked(module_id@, record@, stored@, names[i]) {
                    Some(names[i])
                } else {
                    None
                }),
            i <= names.len(),
            first_some(i as nat, problems) is None,
            forall|n: Seq<char>|
                #[trigger] change@.dom().contains(n) <==> record@.dom().contains(n) && !(blocked_field(
                    module_id@,
                    n,
                    true,
                ) && names.take(i as int).contains(n)),
            forall|n: Seq<char>| #[trigger] change@.dom().contains(n) ==> change@[n] == record@[n],
        decreases names.len() - i,
    {
        assert(names[i as int] == fields@[i as int]@);
        let name = fields[i].as_str();
        let ghost before = change@;
        if is_update_blocked_field(module_id, name, true) {
            if does_change(record, stored, name) {
                proof {
                    lemma_first_some_at(names.len(), i as nat, problems);
                }
                return Err(RowError::Blocked { field: fields[i].clone() });
            }
            change.remove(name);
        }
        proof {
            assert forall|n: Seq<char>|
                #[trigger] change@.dom().contains(n) <==> record@.dom().contains(n) && !(blocked_field(
                    module_id@,
                    n,
                    true,
                ) && names.take(i + 1).contains(n)) by {
                lemma_taken_names(names, i as int, n);
                assert(before.dom().contains(n) <==> record@.dom().contains(n) && !(blocked_field(module_id@, n, true)
                    && names.take(i as int).contains(n)));
            }
        }
        i = i + 1;
    }
    proof {
        assert(names.take(names.len() as int) =~= names);
        crate::value::lemma_name_list(record);
        assert(change@ =~= correction(module_id@, record@)) by {
            assert forall|n: Seq<char>|
                #[trigger] change@.dom().contains(n) <==> correction(module_id@, record@).dom().contains(n) by {
                if record@.dom().contains(n) {
                    assert(names.contains(n));
                }
            }
        }
    }
    if same(module_id, "purchasing") {
        let received: bool = match stored.get("received") {
            Some(Value::Bool(b)) => *b,
            _ => false,
        };
        if received {
            if does_change(record, stored, "quantity") {
                return Err(RowError::Received { changed: "quantity".to_owned() });
            }
            if does_change(record, stored, "unit_cost") {
                return Err(RowError::Received { changed: "unit_cost".to_owned() });
            }
        }
    }
    Ok(change)
}

/// A new record, and how many units of it are received at once.
#[derive(Debug)]
pub struct NewRow {
    pub record: Record,
    /// A purchase order that is imported has arrived already.
    pub receive: Option<i64>,
}

/// Decides the new record that a row makes. A new item brings no stock and is
/// never priced below its cost; a new order is received in full.
pub fn plan_new_row(module_id: &str, record: Record) -> (r: Result<NewRow, RowError>)
    ensures
        ({
            let full = with_forced(module_id@, record@);
            match r {
                Ok(row) => {
                    &&& !priced_below_cost(module_id@, full)
                    &&& row.record@ == full
                    &&& row.receive == if module_id@ == "purchasing"@ {
                        Some(int_or(full, "quantity"@, 0))
                    } else {
                        None
                    }
                },
                Err(e) => priced_below_cost(module_id@, full) && e@ == RowErrorView::BelowCost,
            }
        }),
{
    let mut full = record;
    apply_forced(module_id, &mut full);
    if is_priced_below_cost(module_id, &full) {
        return Err(RowError::BelowCost);
    }
    let receive = if same(module_id, "purchasing") {
        Some(full.get_int_or("quantity", 0))
    } else {
        None
    };
    Ok(NewRow { record: full, receive })
}

proof fn lemma_later_columns_keep(
    fields: Seq<FieldDef>,
    headers: Seq<Seq<char>>,
    row: Seq<CellView>,
    currency: Seq<char>,
    from: nat,
    n: nat,
    name: Seq<char>,
)
    requires
        from <= n <= headers.len(),
        forall|j: int| from <= j < n ==> #[trigger] headers[j] != name,
    ensures
        row_values(fields, headers, row, currency, n).dom().contains(name) <==> row_values(
            fields,
            headers,
            row,
            currency,
            from,
        ).dom().contains(name),
        row_values(fields, headers, row, currency, n)[name] == row_values(fields, headers, row, currency, from)[name],
    decreases n,
{
    if from < n {
        lemma_later_columns_keep(fields, headers, row, currency, from, (n - 1) as nat, name);
    }
}

/// What is in a cell goes to the field that its column is headed by, read as the
/// type of that field. A sheet says nothing of a name that heads no column.
pub proof fn law_cells_go_to_the_field_of_their_column(
    fields: Seq<FieldDef>,
    headers: Seq<Seq<char>>,
    row: Seq<CellView>,
    currency: Seq<char>,
    i: int,
    k: int,
    name: Seq<char>,
)
    requires
        0 <= i < headers.len() && i < row.len(),
        forall|j: int| i < j < headers.len() ==> #[trigger] headers[j] != headers[i],
        0 <= k < fields.len() && fields[k].name@ == headers[i],
        forall|j: int| 0 <= j < k ==> (#[trigger] fields[j]).name@ != headers[i],
        row[i] !is Empty,
        !headers.contains(name),
    ensures
        row_record(fields, headers, row, currency).contains_pair(
            headers[i],
            cell_value(row[i], fields[k].field_type@, currency),
        ),
        !row_values(fields, headers, row, currency, headers.len()).dom().contains(name),
{
    let before = row_values(fields, headers, row, currency, i as nat);
    crate::module::lemma_field_index(fields, headers[i], k);
    let here = row_values(fields, headers, row, currency, (i + 1) as nat);
    assert(here.contains_pair(headers[i], cell_value(row[i], fields[k].field_type@, currency)));
    lemma_later_columns_keep(fields, headers, row, currency, (i + 1) as nat, headers.len(), headers[i]);
    law_defaults_keep_values(
        fields,
        fields.len(),
        row_values(fields, headers, row, currency, headers.len()),
        headers[i],
    );
    assert forall|j: int| 0 <= j < headers.len() implies #[trigger] headers[j] != name by {}
    lemma_later_columns_keep(fields, headers, row, currency, 0, headers.len(), name);
}

/// A correction applies everything that a row says of its record, as the row
/// says it, but for what only an action may change. The quantities and costs of
/// an order that was received stay as they are, and everything else may change.
pub proof fn law_corrections_apply_the_rest(
    module_id: Seq<char>,
    record: Map<Seq<char>, ValueView>,
    stored: Map<Seq<char>, ValueView>,
    names: Seq<Seq<char>>,
    name: Seq<char>,
)
    requires
        record.dom().contains(name),
        !blocked_field(module_id, name, true),
    ensures
        correction(module_id, record).contains_pair(name, record[name]),
        ({
            let received = module_id == "purchasing"@ && stored.contains_pair("received"@, ValueView::Bool(true));
            let differs = |n: Seq<char>|
                record.contains_key(n) && !(stored.contains_key(n) && record[n].equals(stored[n])) && !(
                !stored.contains_key(n) && record[n] == ValueView::Null);
            received && (differs("quantity"@) || differs("unit_cost"@)) ==> correction_problem(
                module_id,
                true,
                names,
                record,
                stored,
            ) is Some
        }),
        !(module_id == "purchasing"@ && stored.contains_pair("received"@, ValueView::Bool(true))) && (forall|i: int|
            0 <= i < names.len() ==> !changes_blocked(module_id, record, stored, #[trigger] names[i]))
            ==> correction_problem(module_id, true, names, record, stored) is None,
        correction_problem("inventory"@, false, names, record, stored) is Some,
{
    let blocked = |i: int|
        if changes_blocked(module_id, record, stored, names[i]) {
            Some(names[i])
        } else {
            None
        };
    if forall|i: int| 0 <= i < names.len() ==> !changes_blocked(module_id, record, stored, #[trigger] names[i]) {
        assert forall|i: int| 0 <= i < names.len() implies (#[trigger] blocked(i)) is None by {
            assert(!changes_blocked(module_id, record, stored, names[i]));
        }
        crate::lists::lemma_first_some_none(names.len(), blocked);
    }
}

/// A new row is stored as the sheet says it, but for what no sheet may choose:
/// an item brings no stock, a debt is open and comes of no order, and an order is
/// received in full once it is stored. An item is refused where it would sell
/// below its cost, and nothing else is.
pub proof fn law_new_rows_are_stored_as_read(
    s: RunView,
    module_id: Seq<char>,
    record: Map<Seq<char>, ValueView>,
    name: Seq<char>,
)
    requires
        record.dom().contains(name),
        name != "quantity"@ && name != "settled"@ && name != "payment_method"@ && name != "source_order_id"@ && name
            != "received"@,
    ensures
        ({
            let (after, action) = new_row_step(s, module_id, record);
            &&& action is Insert || action is Skip
            &&& action is Skip <==> module_id == "inventory"@ && int_or(record, "unit_price"@, 0) < int_or(
                record,
                "unit_cost"@,
                0,
            )
            &&& action is Skip ==> after.created == s.created && after.updated == s.updated && after.errors.len()
                == s.errors.len() + 1 && after.next == s.next + 1
            &&& action matches ActionView::Insert(full, receive) ==> {
                &&& full.contains_pair(name, record[name])
                &&& module_id == "inventory"@ ==> full.contains_pair("quantity"@, ValueView::Int(0)) && receive is None
                &&& module_id == "debt_credit"@ ==> {
                    &&& full.contains_pair("settled"@, ValueView::Bool(false))
                    &&& !full.contains_key("payment_method"@) && !full.contains_key("source_order_id"@)
                    &&& receive is None
                }
                &&& module_id == "purchasing"@ ==> {
                    &&& full.contains_pair("received"@, ValueView::Bool(false))
                    &&& receive == Some(int_or(record, "quantity"@, 0))
                }
            }
        }),
{
    reveal_strlit("inventory");
    reveal_strlit("purchasing");
    reveal_strlit("debt_credit");
    reveal_strlit("quantity");
    reveal_strlit("unit_price");
    reveal_strlit("unit_cost");
    reveal_strlit("received");
    reveal_strlit("settled");
    reveal_strlit("payment_method");
    reveal_strlit("source_order_id");
    assert("inventory"@.len() == 9 && "purchasing"@.len() == 10 && "debt_credit"@.len() == 11);
    assert("quantity"@.len() == 8 && "unit_price"@.len() == 10 && "unit_cost"@.len() == 9 && "received"@.len() == 8);
    assert("settled"@.len() == 7 && "payment_method"@.len() == 14 && "source_order_id"@.len() == 15);
    assert("quantity"@[0] == 'q' && "received"@[0] == 'r');
}

/// An order is linked with the item that was found for it and keeps all else; an
/// order whose item was not found is refused by that item's name. A row that
/// needs a number gets the next one, a row with a number of its own keeps it, and
/// the rest of a row stays.
pub proof fn law_rows_are_linked_and_numbered(
    module_id: Seq<char>,
    record: Map<Seq<char>, ValueView>,
    item: Seq<char>,
    id: Seq<char>,
    last: int,
    name: Seq<char>,
)
    requires
        name != "inventory_record_id"@ && name != "po_number"@ && name != "entry_number"@,
    ensures
        ({
            let found = record.insert("inventory_record_id"@, ValueView::Text(id));
            &&& linked(record, Some(item), Some(id)) == Ok::<Map<Seq<char>, ValueView>, RowErrorView>(found)
            &&& linked(record, Some(item), None) == Err::<Map<Seq<char>, ValueView>, RowErrorView>(
                RowErrorView::NoSuchItem(item),
            )
            &&& linked(record, None, Some(id)) == Ok::<Map<Seq<char>, ValueView>, RowErrorView>(record)
        }),
        ({
            let full = numbered(module_id, record, last);
            let own = |field: Seq<char>| !blank(text_or_empty(record, field));
            &&& full.contains_key(name) == record.contains_key(name) && full[name] == record[name]
            &&& module_id == "purchasing"@ ==> if own("po_number"@) {
                full == record
            } else {
                full.contains_pair("po_number"@, ValueView::Text("PO-"@ + signed_decimal(last + 1)))
            }
            &&& module_id == "debt_credit"@ ==> if own("entry_number"@) {
                full == record
            } else {
                full.contains_pair("entry_number"@, ValueView::Text("DC-"@ + signed_decimal(last + 1)))
            }
            &&& module_id != "purchasing"@ && module_id != "debt_credit"@ ==> full == record
        }),
{
    reveal_strlit("purchasing");
    reveal_strlit("debt_credit");
    assert("purchasing"@.len() == 10 && "debt_credit"@.len() == 11);
}

/// Whoever may make records of a module may import them, but for orders: those
/// are received at once, so that takes the right to receive stock as well.
pub proof fn law_who_may_import(access: Option<&Access>, module_id: Seq<char>)
    ensures
        import_refusal(access, module_id) is None <==> {
            &&& access is Some
            &&& granted(access->0.permissions@, module_id, "create"@)
            &&& module_id == "purchasing"@ ==> granted(access->0.permissions@, "inventory"@, "receive"@)
        },
{
}

/// A row that is written counts once, as made where it made a record and as
/// updated where it corrected one. A row that could not be written counts as a
/// fault under its own number, and the rows before it are not touched.
pub proof fn law_written_rows_count_once(s: RunView, outcome: WriteOutcome)
    ensures
        ({
            let after = write_step(s, outcome);
            &&& after.next == s.next + 1 && after.wait is Nothing && after.rows == s.rows && after.last == s.last
            &&& outcome is Written ==> after.errors == s.errors && after.created + after.updated == s.created
                + s.updated + 1
            &&& outcome is Written ==> (after.updated == s.updated + 1 <==> s.wait is Update)
            &&& outcome !is Written ==> after.updated == s.updated && after.errors.len() == s.errors.len() + 1
                && after.errors.last().0 == s.next + 1 && after.errors.drop_last() == s.errors
            &&& outcome is NotWritten ==> after.created == s.created
            &&& outcome is NotReceived ==> after.created == s.created + 1
        }),
{
    let after = write_step(s, outcome);
    if outcome !is Written {
        assert(after.errors.drop_last() =~= s.errors);
    }
}

/// Where no key is asked for, rows are matched by the first field that is
/// unique, or by the record's own id where there is none.
pub proof fn law_default_key_is_the_first_unique_field(fields: Seq<FieldDef>, k: int)
    requires
        0 <= k <= fields.len(),
        forall|j: int| 0 <= j < k ==> !(#[trigger] fields[j]).unique,
        k < fields.len() ==> fields[k].unique,
    ensures
        default_key(fields) == if k < fields.len() {
            fields[k].name@
        } else {
            "id"@
        },
    decreases fields.len(),
{
    if fields.len() > 0 && k > 0 {
        assert(!fields[0].unique);
        assert forall|j: int| 0 <= j < k - 1 implies !(#[trigger] fields.drop_first()[j]).unique by {
            assert(!fields[j + 1].unique);
        }
        law_default_key_is_the_first_unique_field(fields.drop_first(), k - 1);
    }
}

/// A correction never carries a value that only an action may change.
pub proof fn law_corrections_leave_action_fields(
    module_id: Seq<char>,
    record: Map<Seq<char>, ValueView>,
    name: Seq<char>,
)
    requires
        blocked_field(module_id, name, true),
    ensures
        !correction(module_id, record).dom().contains(name),
{
}

/// A row that would change such a value is refused, whatever else it says.
pub proof fn law_blocked_change_is_refused(
    module_id: Seq<char>,
    has_quantity: bool,
    names: Seq<Seq<char>>,
    record: Map<Seq<char>, ValueView>,
    stored: Map<Seq<char>, ValueView>,
    i: int,
)
    requires
        0 <= i < names.len(),
        changes_blocked(module_id, record, stored, names[i]),
    ensures
        correction_problem(module_id, has_quantity, names, record, stored) is Some,
{
    let problems = |i: int|
        if changes_blocked(module_id, record, stored, names[i]) {
            Some(names[i])
        } else {
            None
        };
    crate::lists::lemma_first_some_none(names.len(), problems);
    assert(problems(i) is Some);
}

/// Importing a sheet again without having changed it is never refused for the
/// values that only an action may change.
pub proof fn law_unchanged_rows_pass(
    module_id: Seq<char>,
    names: Seq<Seq<char>>,
    record: Map<Seq<char>, ValueView>,
    stored: Map<Seq<char>, ValueView>,
)
    requires
        forall|n: Seq<char>| record.dom().contains(n) ==> #[trigger] record[n].equals(stored_value(stored, n)),
    ensures
        correction_problem(module_id, true, names, record, stored) is None,
{
    let problems = |i: int|
        if changes_blocked(module_id, record, stored, names[i]) {
            Some(names[i])
        } else {
            None
        };
    crate::lists::lemma_first_some_none(names.len(), problems);
    assert forall|i: int| 0 <= i < names.len() implies (#[trigger] problems(i)) is None by {
        assert(!changes(record, stored, names[i]));
    }
    assert(!changes(record, stored, "quantity"@));
    assert(!changes(record, stored, "unit_cost"@));
}

// ---------------------------------------------------------------------------
// The run of an import
// ---------------------------------------------------------------------------

/// Why a row was not taken as it is.
#[derive(Debug)]
pub enum RowFault {
    /// It was refused. The record is what the row says.
    Refused { error: RowError, record: Record },
    /// It could not be written.
    NotWritten { text: String },
    /// It was written, but the order could not be received.
    NotReceived { reason: String },
}

/// Why a row was not taken as it is.
pub enum FaultView {
    Refused(RowErrorView, Map<Seq<char>, ValueView>),
    NotWritten(Seq<char>),
    NotReceived(Seq<char>),
}

impl View for RowFault {
    type V = FaultView;

    open spec fn view(&self) -> FaultView {
        match *self {
            RowFault::Refused { error, record } => FaultView::Refused(error@, record@),
            RowFault::NotWritten { text } => FaultView::NotWritten(text@),
            RowFault::NotReceived { reason } => FaultView::NotReceived(reason@),
        }
    }
}

/// The sentence for a row that was not taken as it is. `invalid` is the
/// sentence for a value that is not valid.
pub open spec fn fault_message(
    f: FaultView,
    module_id: Seq<char>,
    key_field: Seq<char>,
    invalid: Seq<char>,
) -> Seq<char> {
    match f {
        FaultView::Refused(e, _) => row_message(e, module_id, key_field, invalid),
        FaultView::NotWritten(text) => text,
        FaultView::NotReceived(reason) => "created purchase order but could not automatically receive it: "@ + reason,
    }
}

/// The sentence for a row that was not taken as it is.
pub fn fault_text(f: &RowFault, module_id: &str, key_field: &str, invalid: &str) -> (s: String)
    ensures
        s@ == fault_message(f@, module_id@, key_field@, invalid@),
{
    match f {
        RowFault::Refused { error, record } => row_error_text(error, module_id, key_field, invalid),
        RowFault::NotWritten { text } => text.clone(),
        RowFault::NotReceived { reason } => cat(
            "created purchase order but could not automatically receive it: ",
            reason.as_str(),
        ),
    }
}

/// A row that was not taken as it is, by its number, and why.
#[derive(Debug)]
pub struct RowFailure {
    pub row: usize,
    pub fault: RowFault,
}

/// What an import has done so far.
#[derive(Debug)]
pub struct ImportResult {
    pub created: usize,
    pub updated: usize,
    pub errors: Vec<RowFailure>,
}

/// What an import waits for.
#[derive(Debug)]
enum Wait {
    Nothing,
    Item(ReadyRow),
    Existing(Record),
    Update,
    Insert,
}

/// What an import waits for.
pub enum WaitView {
    /// For nothing: the next row is up.
    Nothing,
    /// For the item that the row is for.
    Item(Map<Seq<char>, ValueView>, Option<Seq<char>>),
    /// For the record that the row matches.
    Existing(Record),
    /// For a record to be corrected.
    Update,
    /// For a record to be made.
    Insert,
}

/// An import under way.
#[derive(Debug)]
pub struct ImportRun {
    rows: Vec<Vec<Cell>>,
    plan: SheetPlan,
    key_field: String,
    next: usize,
    last: i64,
    result: ImportResult,
    wait: Wait,
}

/// An import under way.
pub struct RunView {
    pub rows: Seq<Seq<CellView>>,
    pub headers: Seq<Seq<char>>,
    pub matches_existing: bool,
    pub has_quantity: bool,
    pub key_field: Seq<char>,
    /// The place of the row that is up; the header row is at 0.
    pub next: int,
    /// The last number given out.
    pub last: int,
    pub created: int,
    pub updated: int,
    pub errors: Seq<(int, FaultView)>,
    pub wait: WaitView,
}

/// The faults of rows, by their numbers.
pub open spec fn failures_view(list: Seq<RowFailure>) -> Seq<(int, FaultView)> {
    Seq::new(list.len(), |i: int| (list[i].row as int, list[i].fault@))
}

impl View for ImportRun {
    type V = RunView;

    closed spec fn view(&self) -> RunView {
        RunView {
            rows: rows_view(self.rows@),
            headers: views(self.plan.headers@),
            matches_existing: self.plan.matches_existing,
            has_quantity: self.plan.has_quantity,
            key_field: self.key_field@,
            next: self.next as int,
            last: self.last as int,
            created: self.result.created as int,
            updated: self.result.updated as int,
            errors: failures_view(self.result.errors@),
            wait: match self.wait {
                Wait::Nothing => WaitView::Nothing,
                Wait::Item(ready) => WaitView::Item(ready.record@, opt_view(ready.item_name)),
                Wait::Existing(record) => WaitView::Existing(record),
                Wait::Update => WaitView::Update,
                Wait::Insert => WaitView::Insert,
            },
        }
    }
}

/// What an import asks for next.
#[derive(Debug)]
pub enum ImportAction {
    /// Nothing: the row is done with, and the next one is up.
    Skip,
    /// The item of that name in Inventory.
    FindItem { name: String },
    /// The record whose key field has that value.
    FindExisting { key: String },
    /// That these values are written to the record that was found.
    Update { body: Record },
    /// That a record is made.
    Insert { row: NewRow },
    /// Nothing any more: all rows are done with.
    Done,
}

/// What an import asks for next.
pub enum ActionView {
    Skip,
    FindItem(Seq<char>),
    FindExisting(Seq<char>),
    Update(Map<Seq<char>, ValueView>),
    Insert(Map<Seq<char>, ValueView>, Option<i64>),
    Done,
}

impl View for ImportAction {
    type V = ActionView;

    open spec fn view(&self) -> ActionView {
        match *self {
            ImportAction::Skip => ActionView::Skip,
            ImportAction::FindItem { name } => ActionView::FindItem(name@),
            ImportAction::FindExisting { key } => ActionView::FindExisting(key@),
            ImportAction::Update { body } => ActionView::Update(body@),
            ImportAction::Insert { row } => ActionView::Insert(row.record@, row.receive),
            ImportAction::Done => ActionView::Done,
        }
    }
}

/// How the writing of a row ended.
#[derive(Debug)]
pub enum WriteOutcome {
    Written,
    NotWritten { text: String },
    /// The order was made, but what it brought could not be received.
    NotReceived { reason: String },
}

/// The row that is up was refused: it is reported under its number, which
/// counts the header row as the first, and the next one is up.
pub open spec fn refused(s: RunView, e: RowErrorView, record: Map<Seq<char>, ValueView>) -> RunView {
    RunView {
        errors: s.errors.push((s.next + 1, FaultView::Refused(e, record))),
        next: s.next + 1,
        wait: WaitView::Nothing,
        ..s
    }
}

/// What becomes of a row that matches no record.
pub open spec fn new_row_step(s: RunView, module_id: Seq<char>, record: Map<Seq<char>, ValueView>) -> (
    RunView,
    ActionView,
) {
    let full = with_forced(module_id, record);
    if priced_below_cost(module_id, full) {
        (refused(s, RowErrorView::BelowCost, record), ActionView::Skip)
    } else {
        (
            RunView { wait: WaitView::Insert, ..s },
            ActionView::Insert(
                full,
                if module_id == "purchasing"@ {
                    Some(int_or(full, "quantity"@, 0))
                } else {
                    None
                },
            ),
        )
    }
}

/// What becomes of a row that matches a record. `names` are those of the row,
/// in the order in which they are gone through.
pub open spec fn correction_step(
    s: RunView,
    module_id: Seq<char>,
    names: Seq<Seq<char>>,
    record: Map<Seq<char>, ValueView>,
    stored: Map<Seq<char>, ValueView>,
) -> (RunView, ActionView) {
    match correction_problem(module_id, s.has_quantity, names, record, stored) {
        Some(e) => (refused(s, e, record), ActionView::Skip),
        None => (RunView { wait: WaitView::Update, ..s }, ActionView::Update(correction(module_id, record))),
    }
}

/// What becomes of a row whose item was looked up: it is linked with the item,
/// numbered, and matched by its key where it has one.
pub open spec fn key_step(
    s: RunView,
    module_id: Seq<char>,
    record: Map<Seq<char>, ValueView>,
    item_name: Option<Seq<char>>,
    item_id: Option<Seq<char>>,
    after: RunView,
    action: ActionView,
) -> bool {
    match linked(record, item_name, item_id) {
        Err(e) => after == refused(s, e, record) && action == ActionView::Skip,
        Ok(found) => {
            let full = numbered(module_id, found, s.last);
            let counted = RunView {
                last: s.last + if needs_number(module_id, found) {
                    1int
                } else {
                    0
                },
                wait: WaitView::Nothing,
                ..s
            };
            let key = match get_of(full, s.key_field) {
                Some(v) if s.matches_existing => v.as_text(),
                _ => None,
            };
            match key {
                Some(k) => {
                    &&& after.wait matches WaitView::Existing(r) && r@ == full
                    &&& after == (RunView { wait: after.wait, ..counted })
                    &&& action == ActionView::FindExisting(k)
                },
                None => (after, action) == new_row_step(counted, module_id, full),
            }
        },
    }
}

/// What becomes of the row that is up.
pub open spec fn row_step(
    s: RunView,
    module: ModuleDef,
    currency: Seq<char>,
    after: RunView,
    action: ActionView,
) -> bool {
    if s.next >= s.rows.len() {
        after == s && action == ActionView::Done
    } else {
        let row = s.rows[s.next];
        let record = row_record(module.fields@, s.headers, row, currency);
        let item = trimmed(text_or_empty(record, "item_name"@));
        if blank_row(row) {
            after == (RunView { next: s.next + 1, ..s }) && action == ActionView::Skip
        } else if record_error(module.fields@, record) is Some {
            &&& after == refused(s, RowErrorView::Invalid(record_error(module.fields@, record)->0), record)
            &&& action == ActionView::Skip
        } else if module.id@ != "purchasing"@ {
            key_step(s, module.id@, record, None, None, after, action)
        } else if item.len() == 0 {
            after == refused(s, RowErrorView::NoItemName, record) && action == ActionView::Skip
        } else {
            after == (RunView { wait: WaitView::Item(record, Some(item)), ..s }) && action == ActionView::FindItem(item)
        }
    }
}

/// What becomes of a row that was to be written.
pub open spec fn write_step(s: RunView, outcome: WriteOutcome) -> RunView {
    let passed = RunView { next: s.next + 1, wait: WaitView::Nothing, ..s };
    let number = s.next + 1;
    match outcome {
        WriteOutcome::NotWritten { text } => RunView {
            errors: s.errors.push((number, FaultView::NotWritten(text@))),
            ..passed
        },
        WriteOutcome::Written => if s.wait is Update {
            RunView { updated: s.updated + 1, ..passed }
        } else {
            RunView { created: s.created + 1, ..passed }
        },
        WriteOutcome::NotReceived { reason } => RunView {
            created: s.created + 1,
            errors: s.errors.push((number, FaultView::NotReceived(reason@))),
            ..passed
        },
    }
}

/// How many of the rows below the header, up to the one at `n`, are not blank.
pub open spec fn filled(rows: Seq<Seq<CellView>>, n: int) -> int
    decreases n,
{
    if n <= 1 {
        0
    } else {
        filled(rows, n - 1) + if blank_row(rows[n - 1]) {
            0int
        } else {
            1
        }
    }
}

/// How many of the faults are of rows that were made all the same.
pub open spec fn unreceived(errors: Seq<(int, FaultView)>) -> int
    decreases errors.len(),
{
    if errors.len() == 0 {
        0
    } else {
        unreceived(errors.drop_last()) + if errors.last().1 is NotReceived {
            1int
        } else {
            0
        }
    }
}

/// Whether every row that is done with and not blank was counted once: as made,
/// as updated, or as a fault. An order that was made but not received is both
/// made and a fault.
pub open spec fn counts_add_up(s: RunView) -> bool {
    s.created + s.updated + s.errors.len() - unreceived(s.errors) == filled(s.rows, s.next)
}

/// One more fault counts once, unless its row was made all the same.
proof fn lemma_one_more_fault(errors: Seq<(int, FaultView)>, e: (int, FaultView))
    ensures
        unreceived(errors.push(e)) == unreceived(errors) + if e.1 is NotReceived {
            1int
        } else {
            0
        },
{
    assert(errors.push(e).drop_last() =~= errors);
}

impl ImportRun {
    /// What holds of every import under way: the row that is up is one of the
    /// rows or right behind them, every row was counted at most once, and there
    /// are numbers left for those to come.
    pub closed spec fn well_formed(&self) -> bool {
        &&& 1 <= self.next <= self.rows@.len()
        &&& self.result.created + self.result.updated <= self.next - 1
        &&& counts_add_up(self@)
        &&& self.wait !is Nothing ==> !blank_row(rows_view(self.rows@)[self.next as int])
        &&& match self.wait {
            Wait::Nothing => self.last + (self.rows@.len() - self.next) <= i64::MAX,
            Wait::Item(_) => {
                &&& self.next < self.rows@.len()
                &&& self.last + (self.rows@.len() - self.next) <= i64::MAX
            },
            _ => {
                &&& self.next < self.rows@.len()
                &&& self.last + (self.rows@.len() - self.next - 1) <= i64::MAX
            },
        }
    }

    /// Starts an import at its first row below the header. `last` is the last
    /// number given out. `None` where there is no header, or where there are
    /// not enough numbers for all rows.
    pub fn start(opened: OpenedImport, key_field: &str, last: i64) -> (r: Option<ImportRun>)
        ensures
            r is Some <==> 0 < opened.rows@.len() <= i64::MAX && last + opened.rows@.len() <= i64::MAX,
            r matches Some(run) ==> {
                &&& run.well_formed()
                &&& run@ == (RunView {
                    rows: rows_view(opened.rows@),
                    headers: views(opened.plan.headers@),
                    matches_existing: opened.plan.matches_existing,
                    has_quantity: opened.plan.has_quantity,
                    key_field: key_field@,
                    next: 1,
                    last: last as int,
                    created: 0,
                    updated: 0,
                    errors: Seq::empty(),
                    wait: WaitView::Nothing,
                })
            },
    {
        let count: usize = opened.rows.len();
        if count == 0 || count as u64 > i64::MAX as u64 || last > i64::MAX - count as i64 {
            return None;
        }
        let result = ImportResult { created: 0, updated: 0, errors: Vec::new() };
        let run = ImportRun {
            rows: opened.rows,
            plan: opened.plan,
            key_field: key_field.to_owned(),
            next: 1,
            last,
            result,
            wait: Wait::Nothing,
        };
        assert(run@.errors =~= Seq::<(int, FaultView)>::empty());
        Some(run)
    }

    fn refuse(&mut self, error: RowError, record: Record) -> (action: ImportAction)
        requires
            1 <= old(self).next < old(self).rows@.len(),
            old(self).result.created + old(self).result.updated <= old(self).next - 1,
            old(self).last + (old(self).rows@.len() - old(self).next - 1) <= i64::MAX,
            counts_add_up(old(self)@),
            !blank_row(old(self)@.rows[old(self).next as int]),
        ensures
            final(self).well_formed(),
            final(self)@ == refused(old(self)@, error@, record@),
            action@ == ActionView::Skip,
    {
        assert(self.next < self.rows.len());
        let row: usize = row_number(self.next - 1);
        let ghost before = self.result.errors@;
        self.result.errors.push(RowFailure { row, fault: RowFault::Refused { error, record } });
        assert(failures_view(self.result.errors@) =~= failures_view(before).push(
            (row as int, FaultView::Refused(error@, record@)),
        ));
        proof {
            lemma_one_more_fault(failures_view(before), (row as int, FaultView::Refused(error@, record@)));
        }
        self.next = self.next + 1;
        self.wait = Wait::Nothing;
        ImportAction::Skip
    }

    fn take_new_row(&mut self, module_id: &str, record: Record) -> (action: ImportAction)
        requires
            1 <= old(self).next < old(self).rows@.len(),
            old(self).result.created + old(self).result.updated <= old(self).next - 1,
            old(self).last + (old(self).rows@.len() - old(self).next - 1) <= i64::MAX,
            counts_add_up(old(self)@),
            !blank_row(old(self)@.rows[old(self).next as int]),
        ensures
            final(self).well_formed(),
            (final(self)@, action@) == new_row_step(old(self)@, module_id@, record@),
    {
        let given = record.copy();
        match plan_new_row(module_id, record) {
            Err(e) => self.refuse(e, given),
            Ok(row) => {
                self.wait = Wait::Insert;
                ImportAction::Insert { row }
            },
        }
    }

    fn take_key(&mut self, module: &ModuleDef, ready: ReadyRow, item_id: Option<&str>) -> (action: ImportAction)
        requires
            old(self).well_formed(),
            old(self).wait is Nothing,
            old(self).next < old(self).rows@.len(),
            !blank_row(old(self)@.rows[old(self).next as int]),
        ensures
            final(self).well_formed(),
            key_step(
                old(self)@,
                module.id@,
                ready.record@,
                opt_view(ready.item_name),
                crate::text::opt_str_view(item_id),
                final(self)@,
                action@,
            ),
    {
        let given = ready.record.copy();
        match key_row(module, &self.plan, self.key_field.as_str(), ready, item_id, &mut self.last) {
            Err(e) => self.refuse(e, given),
            Ok(keyed) => match keyed.key {
                None => self.take_new_row(module.id.as_str(), keyed.record),
                Some(key) => {
                    self.wait = Wait::Existing(keyed.record);
                    ImportAction::FindExisting { key }
                },
            },
        }
    }

    /// Takes up the next row.
    pub fn next_row(&mut self, module: &ModuleDef, currency: &str) -> (action: ImportAction)
        requires
            old(self).well_formed(),
            old(self)@.wait is Nothing,
        ensures
            final(self).well_formed(),
            row_step(old(self)@, *module, currency@, final(self)@, action@),
    {
        if self.next >= self.rows.len() {
            return ImportAction::Done;
        }
        assert(self@.rows[self.next as int] == row_view(self.rows@[self.next as int]@));
        match start_row(module, &self.plan, &self.rows[self.next], currency) {
            Ok(None) => {
                self.next = self.next + 1;
                ImportAction::Skip
            },
            Err(e) => match read_row(module, &self.plan.headers, &self.rows[self.next], currency) {
                Some(record) => self.refuse(e, record),
                None => ImportAction::Skip,
            },
            Ok(Some(ready)) => match &ready.item_name {
                None => self.take_key(module, ready, None),
                Some(item) => {
                    let name = item.clone();
                    self.wait = Wait::Item(ready);
                    ImportAction::FindItem { name }
                },
            },
        }
    }

    /// Goes on once the item of a row was looked for.
    pub fn item_found(&mut self, module: &ModuleDef, item_id: Option<&str>) -> (action: ImportAction)
        requires
            old(self).well_formed(),
            old(self)@.wait is Item,
        ensures
            final(self).well_formed(),
            old(self)@.wait matches WaitView::Item(record, name) && key_step(
                old(self)@,
                module.id@,
                record,
                name,
                crate::text::opt_str_view(item_id),
                final(self)@,
                action@,
            ),
    {
        let mut wait = Wait::Nothing;
        std::mem::swap(&mut wait, &mut self.wait);
        match wait {
            Wait::Item(ready) => self.take_key(module, ready, item_id),
            _ => ImportAction::Skip,
        }
    }

    /// Goes on once the record that a row matches was looked for.
    pub fn existing_found(&mut self, module_id: &str, stored: Option<&Record>) -> (action: ImportAction)
        requires
            old(self).well_formed(),
            old(self)@.wait is Existing,
        ensures
            final(self).well_formed(),
            old(self)@.wait matches WaitView::Existing(record) && (final(self)@, action@) == (match stored {
                Some(st) => correction_step(old(self)@, module_id@, record.name_list(), record@, st@),
                None => new_row_step(old(self)@, module_id@, record@),
            }),
    {
        let mut wait = Wait::Nothing;
        std::mem::swap(&mut wait, &mut self.wait);
        match wait {
            Wait::Existing(record) => match stored {
                None => self.take_new_row(module_id, record),
                Some(st) => match plan_correction(module_id, self.plan.has_quantity, &record, st) {
                    Err(e) => self.refuse(e, record),
                    Ok(body) => {
                        self.wait = Wait::Update;
                        ImportAction::Update { body }
                    },
                },
            },
            _ => ImportAction::Skip,
        }
    }

    /// Goes on once a row was written, or could not be.
    pub fn written(&mut self, outcome: WriteOutcome)
        requires
            old(self).well_formed(),
            old(self)@.wait is Update || old(self)@.wait is Insert,
        ensures
            final(self).well_formed(),
            final(self)@ == write_step(old(self)@, outcome),
    {
        let is_update = match &self.wait {
            Wait::Update => true,
            _ => false,
        };
        assert(self.next < self.rows.len());
        let row: usize = row_number(self.next - 1);
        let ghost before = self.result.errors@;
        match outcome {
            WriteOutcome::Written => {
                if is_update {
                    self.result.updated = self.result.updated + 1;
                } else {
                    self.result.created = self.result.created + 1;
                }
            },
            WriteOutcome::NotWritten { text } => {
                self.result.errors.push(RowFailure { row, fault: RowFault::NotWritten { text } });
                assert(failures_view(self.result.errors@) =~= failures_view(before).push(
                    (row as int, FaultView::NotWritten(text@)),
                ));
                proof {
                    lemma_one_more_fault(failures_view(before), (row as int, FaultView::NotWritten(text@)));
                }
            },
            WriteOutcome::NotReceived { reason } => {
                self.result.created = self.result.created + 1;
                self.result.errors.push(RowFailure { row, fault: RowFault::NotReceived { reason } });
                assert(failures_view(self.result.errors@) =~= failures_view(before).push(
                    (row as int, FaultView::NotReceived(reason@)),
                ));
                proof {
                    lemma_one_more_fault(failures_view(before), (row as int, FaultView::NotReceived(reason@)));
                }
            },
        }
        self.next = self.next + 1;
        self.wait = Wait::Nothing;
    }

    /// What the import has done. Once all rows are done with, each that is not
    /// blank was counted once: as made, as updated, or as a fault, where an order
    /// that was made but not received is both made and a fault.
    pub fn finish(self) -> (r: ImportResult)
        ensures
            r.created == self@.created,
            r.updated == self@.updated,
            failures_view(r.errors@) == self@.errors,
            self.well_formed() && self@.next >= self@.rows.len() ==> r.created + r.updated + r.errors@.len()
                - unreceived(failures_view(r.errors@)) == filled(self@.rows, self@.rows.len() as int),
    {
        self.result
    }
}

/// No row is counted twice and none is passed over: whether the row that is up
/// is blank, refused or written, what was counted still adds up afterwards.
pub proof fn law_every_row_counts_once(
    s: RunView,
    e: RowErrorView,
    record: Map<Seq<char>, ValueView>,
    outcome: WriteOutcome,
)
    requires
        counts_add_up(s),
        1 <= s.next < s.rows.len(),
    ensures
        blank_row(s.rows[s.next]) ==> counts_add_up(RunView { next: s.next + 1, ..s }),
        !blank_row(s.rows[s.next]) ==> counts_add_up(refused(s, e, record)),
        !blank_row(s.rows[s.next]) ==> counts_add_up(write_step(s, outcome)),
{
    let number = s.next + 1;
    lemma_one_more_fault(s.errors, (number, FaultView::Refused(e, record)));
    match outcome {
        WriteOutcome::NotWritten { text } => {
            lemma_one_more_fault(s.errors, (number, FaultView::NotWritten(text@)));
        },
        WriteOutcome::NotReceived { reason } => {
            lemma_one_more_fault(s.errors, (number, FaultView::NotReceived(reason@)));
        },
        WriteOutcome::Written => {},
    }
}

/// Every step either asks for something about the row that is up or goes on to
/// the next one, so an import ends; and what is reported is never taken back.
pub proof fn law_import_goes_on(
    s: RunView,
    module: ModuleDef,
    currency: Seq<char>,
    after: RunView,
    action: ActionView,
)
    requires
        row_step(s, module, currency, after, action),
        action is Skip,
    ensures
        after.next == s.next + 1,
        after.created == s.created && after.updated == s.updated,
        s.errors.is_prefix_of(after.errors),
        after.errors.len() <= s.errors.len() + 1,
{
}

/// A template has a column for every field that a person can fill in, headed by the
/// field's name. It has none for what the system keeps by itself: the stock of an
/// item, the receipt, link and number of an order, and the number of a debt.
pub proof fn law_templates_ask_for_what_a_person_knows(module_id: Seq<char>, fields: Seq<FieldDef>, i: int)
    requires
        0 <= i < fields.len(),
    ensures
        ({
            let name = fields[i].name@;
            let kept = |module: Seq<char>, field: Seq<char>| module_id == module && name == field;
            let by_itself = kept("inventory"@, "quantity"@) || kept("purchasing"@, "received"@) || kept(
                "purchasing"@,
                "inventory_record_id"@,
            ) || kept("purchasing"@, "po_number"@) || kept("debt_credit"@, "entry_number"@);
            &&& in_template(module_id, name) <==> !by_itself
            &&& !by_itself ==> template_names(module_id, fields).contains(name)
        }),
    decreases fields.len(),
{
    reveal_strlit("purchasing");
    reveal_strlit("debt_credit");
    reveal_strlit("inventory");
    assert("purchasing"@.len() == 10 && "debt_credit"@.len() == 11 && "inventory"@.len() == 9);
    let all = template_names(module_id, fields);
    let rest = fields.drop_last();
    if i < rest.len() {
        law_templates_ask_for_what_a_person_knows(module_id, rest, i);
        let before = template_names(module_id, rest);
        if in_template(module_id, fields[i].name@) {
            let k = choose|k: int| 0 <= k < before.len() && before[k] == fields[i].name@;
            assert(all[k] == fields[i].name@);
        }
    } else if in_template(module_id, fields[i].name@) {
        assert(all[all.len() - 1] == fields[i].name@);
    }
}

/// Rows are matched with records by a key only where the module declares that key
/// unique, and a sheet has to have a column for such a key unless the system makes
/// it.
pub proof fn law_rows_are_matched_by_unique_keys(module: ModuleDef, headers: Seq<Seq<char>>, key_field: Seq<char>, k: int)
    requires
        0 <= k < module.fields@.len(),
        module.fields@[k].name@ == key_field,
    ensures
        module.fields@[k].unique ==> key_is_unique(module.fields@, key_field),
        (forall|i: int| 0 <= i < module.fields@.len() ==> !(#[trigger] module.fields@[i]).unique) ==> !key_is_unique(
            module.fields@,
            key_field,
        ),
        ({
            let generated = (module.id@ == "purchasing"@ && key_field == "po_number"@) || (module.id@ == "debt_credit"@
                && key_field == "entry_number"@);
            module.fields@[k].unique ==> (key_column_missing(module, headers, key_field) <==> !generated
                && !headers.contains(key_field))
        }),
{
    reveal_strlit("purchasing");
    reveal_strlit("debt_credit");
    assert("purchasing"@.len() == 10 && "debt_credit"@.len() == 11);
}

/// What is asked for once the item of a row was looked up: the record that has the
/// row's own key where rows are matched and the row has one, and else that the row
/// is made. The row goes on as it was read, linked and numbered.
pub proof fn law_rows_are_looked_up_by_their_own_key(
    s: RunView,
    module_id: Seq<char>,
    record: Map<Seq<char>, ValueView>,
    after: RunView,
    action: ActionView,
)
    requires
        key_step(s, module_id, record, None, None, after, action),
    ensures
        ({
            let full = numbered(module_id, record, s.last);
            let keyed = s.matches_existing && full.contains_key(s.key_field) && full[s.key_field].as_text() is Some;
            &&& keyed ==> action == ActionView::FindExisting(full[s.key_field].as_text()->0)
            &&& keyed ==> (after.wait matches WaitView::Existing(r) && r@ == full)
            &&& !keyed ==> action is Insert || action is Skip
            &&& after.rows == s.rows && after.headers == s.headers && after.key_field == s.key_field
            &&& after.created == s.created && after.updated == s.updated
        }),
{
}

/// A row that matches a record corrects it with what it may change, or is refused
/// and reported under its own number; either way nothing is counted as made.
pub proof fn law_matching_rows_correct_their_record(
    s: RunView,
    module_id: Seq<char>,
    names: Seq<Seq<char>>,
    record: Map<Seq<char>, ValueView>,
    stored: Map<Seq<char>, ValueView>,
)
    ensures
        ({
            let (after, action) = correction_step(s, module_id, names, record, stored);
            let refused_row = correction_problem(module_id, s.has_quantity, names, record, stored) is Some;
            &&& refused_row ==> action is Skip && after.errors.len() == s.errors.len() + 1 && after.errors.last().0
                == s.next + 1 && after.next == s.next + 1
            &&& !refused_row ==> action == ActionView::Update(correction(module_id, record)) && after.wait is Update
                && after.next == s.next && after.errors == s.errors
            &&& after.created == s.created && after.updated == s.updated
        }),
{
}

/// The example row shows by its mark that it is one, and for each field a value that
/// the field would take, or its name.
pub proof fn law_examples_are_marked(f: FieldDef)
    ensures
        example(f).len() > 2 && example(f)[0] == '#' && example(f)[1] == ' ',
        f.field_type@ == "integer"@ ==> example(f).skip(2) == "0"@,
        f.field_type@ == "money"@ || f.field_type@ == "real"@ ==> example(f).skip(2) == "0.00"@,
        f.field_type@ == "boolean"@ ==> example(f).skip(2) == "false"@,
        f.field_type@ == "text"@ ==> example(f).skip(2) == "example "@ + f.name@,
{
    lemma_types_differ();
    reveal_strlit("# ");
    reveal_strlit("0");
    reveal_strlit("0.00");
    reveal_strlit("false");
    reveal_strlit("2026-01-31");
    reveal_strlit("example ");
    let s = example(f);
    assert(s.skip(2) =~= if f.field_type@ == "integer"@ {
        "0"@
    } else if f.field_type@ == "real"@ || f.field_type@ == "money"@ {
        "0.00"@
    } else if f.field_type@ == "boolean"@ {
        "false"@
    } else if f.field_type@ == "date"@ {
        "2026-01-31"@
    } else {
        "example "@ + f.name@
    });
}

} // verus!
