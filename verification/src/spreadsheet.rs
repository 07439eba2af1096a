//! Spreadsheet files: reading the first sheet of one and writing one.

use crate::compound::{is_ole_like, is_ole_sound, ole_like, ole_sound};
use crate::reals::{parse_real, parsed_bits};
use crate::text::{begins, is_empty, opt_view, same, slice_text, to_chars, views};
use calamine::{Data, ExcelDateTime, ExcelDateTimeType, Reader};
use vstd::prelude::*;

verus! {

/// One cell of a sheet.
#[derive(Debug)]
pub enum Cell {
    Empty,
    Int(i64),
    /// A number with a fraction: its bits, its text, and its whole part.
    Real { bits: u64, shown: String, whole: i64 },
    Bool(bool),
    Text(String),
    /// A date that the file holds as an ISO text.
    IsoDate(String),
    /// A date that the file holds as a day count, and whether the days are
    /// counted from 1904 on.
    Date { count: String, since_1904: bool },
    /// An error or a duration.
    Other,
}

/// What a cell holds.
pub enum CellView {
    Empty,
    Int(i64),
    Real(u64, Seq<char>, i64),
    Bool(bool),
    Text(Seq<char>),
    IsoDate(Seq<char>),
    Date(Seq<char>, bool),
    Other,
}

impl View for Cell {
    type V = CellView;

    open spec fn view(&self) -> CellView {
        match *self {
            Cell::Empty => CellView::Empty,
            Cell::Int(n) => CellView::Int(n),
            Cell::Real { bits, shown, whole } => CellView::Real(bits, shown@, whole),
            Cell::Bool(b) => CellView::Bool(b),
            Cell::Text(s) => CellView::Text(s@),
            Cell::IsoDate(s) => CellView::IsoDate(s@),
            Cell::Date { count, since_1904 } => CellView::Date(count@, since_1904),
            Cell::Other => CellView::Other,
        }
    }
}

/// The cells of a row.
pub open spec fn row_view(row: Seq<Cell>) -> Seq<CellView> {
    Seq::new(row.len(), |i: int| row[i]@)
}

/// The rows of a sheet.
pub open spec fn rows_view(rows: Seq<Vec<Cell>>) -> Seq<Seq<CellView>> {
    Seq::new(rows.len(), |i: int| row_view(rows[i]@))
}

/// What keeps a file from being read.
#[derive(Clone, Copy, PartialEq, Eq, Structural, Debug)]
pub enum SheetProblem {
    /// It is no spreadsheet.
    NotASpreadsheet,
    /// It has no sheet.
    NoSheets,
    /// Its first sheet cannot be read.
    Unreadable,
}

/// What keeps a file from being read, with the reader's own words.
#[derive(Debug)]
pub struct SheetError {
    pub problem: SheetProblem,
    pub detail: String,
}

impl View for SheetError {
    type V = (SheetProblem, Seq<char>);

    open spec fn view(&self) -> (SheetProblem, Seq<char>) {
        (self.problem, self.detail@)
    }
}

/// A cell as calamine reads it.
#[verifier::external_type_specification]
#[verifier::external_body]
pub struct ExData(calamine::Data);

/// A sheet as calamine reads it: a grid of cells.
#[verifier::external_type_specification]
#[verifier::external_body]
#[verifier::reject_recursive_types(T)]
pub struct ExRange<T>(calamine::Range<T>);

/// The cells of a sheet, row by row.
pub uninterp spec fn grid_of(range: calamine::Range<calamine::Data>) -> Seq<Seq<CellView>>;

/// What calamine reads from a file as the rows of its first sheet.
pub uninterp spec fn sheet_of(bytes: Seq<u8>) -> Result<Seq<Seq<CellView>>, (SheetProblem, Seq<char>)>;

/// `calamine::open_workbook_from_rs` on the bytes of an xlsx file, and
/// `Reader::worksheet_range_at` for its first sheet. The same bytes always give
/// the same cells or the same error. The reader looks into a compound file for
/// a password, and panics or goes on without end where it cannot follow the
/// sectors; such a file is left out. What is left are files that ask for more
/// than the machine can hold or count, of which it panics: where the count of
/// texts that the file claims to share, or the grid between cells that lie far
/// apart, is larger than any memory, and, if it was built with overflow checks,
/// where a number that it reckons with while it reads does not fit (the row or
/// the column of a reference, the size of a range that ends before it begins,
/// the brackets of a number format). All of these stand in the packed parts of a
/// file, so nothing short of reading it tells them from others.
#[verifier::external_body]
pub(crate) fn first_sheet(bytes: Vec<u8>) -> (r: Result<calamine::Range<calamine::Data>, SheetError>)
    requires
        ole_like(bytes@) ==> ole_sound(bytes@),
    ensures
        match r {
            Ok(range) => sheet_of(bytes@) == Ok::<Seq<Seq<CellView>>, (SheetProblem, Seq<char>)>(grid_of(range)),
            Err(e) => sheet_of(bytes@) == Err::<Seq<Seq<CellView>>, (SheetProblem, Seq<char>)>(e@),
        },
{
    match calamine::open_workbook_from_rs::<calamine::Xlsx<_>, _>(std::io::Cursor::new(bytes)) {
        Err(e) => Err(SheetError { problem: SheetProblem::NotASpreadsheet, detail: e.to_string() }),
        Ok(mut book) => match book.worksheet_range_at(0) {
            None => Err(SheetError { problem: SheetProblem::NoSheets, detail: String::new() }),
            Some(Err(e)) => Err(SheetError { problem: SheetProblem::Unreadable, detail: e.to_string() }),
            Some(Ok(range)) => Ok(range),
        },
    }
}

/// Whether cells lie in a grid of that height and width.
pub open spec fn is_grid(cells: Seq<Seq<CellView>>, height: int, width: int) -> bool {
    cells.len() == height && forall|i: int| 0 <= i < height ==> (#[trigger] cells[i]).len() == width
}

/// Whether there is a cell at that place.
pub open spec fn in_grid(cells: Seq<Seq<CellView>>, row: int, col: int) -> bool {
    0 <= row < cells.len() && 0 <= col < cells[row].len()
}

/// `calamine::Range::get_size`: the rows and the columns of a sheet.
#[verifier::external_body]
fn grid_size(range: &calamine::Range<calamine::Data>) -> (r: (usize, usize))
    ensures
        is_grid(grid_of(*range), r.0 as int, r.1 as int),
{
    range.get_size()
}

/// `calamine::Range::get`, the cell turned into a cell of this library: a number
/// with a fraction with its bits, its text and its whole part. `None` for a day
/// count.
#[verifier::external_body]
fn plain_cell(range: &calamine::Range<calamine::Data>, row: usize, col: usize) -> (r: Option<Cell>)
    requires
        in_grid(grid_of(*range), row as int, col as int),
    ensures
        r matches Some(c) ==> c@ == grid_of(*range)[row as int][col as int],
        r is None == (grid_of(*range)[row as int][col as int] is Date),
{
    Some(match range.get((row, col))? {
        Data::Empty => Cell::Empty,
        Data::Int(n) => Cell::Int(*n),
        Data::Float(f) => Cell::Real { bits: f.to_bits(), shown: f.to_string(), whole: *f as i64 },
        Data::Bool(b) => Cell::Bool(*b),
        Data::String(s) => Cell::Text(s.clone()),
        Data::DateTimeIso(s) => Cell::IsoDate(s.clone()),
        Data::DateTime(_) => return None,
        _ => Cell::Other,
    })
}

/// `calamine::Range::get` for a day count: its text, and whether it counts from
/// 1904 on. That is one of the things of which calamine's `ExcelDateTime` is
/// made, and what makes two of them equal.
#[verifier::external_body]
fn date_cell(range: &calamine::Range<calamine::Data>, row: usize, col: usize) -> (c: Cell)
    requires
        in_grid(grid_of(*range), row as int, col as int),
        grid_of(*range)[row as int][col as int] is Date,
    ensures
        c@ == grid_of(*range)[row as int][col as int],
{
    let kinds = [ExcelDateTimeType::DateTime, ExcelDateTimeType::TimeDelta];
    match range.get((row, col)) {
        Some(Data::DateTime(d)) => Cell::Date {
            count: d.as_f64().to_string(),
            since_1904: kinds.iter().any(|kind| *d == ExcelDateTime::new(d.as_f64(), *kind, true)),
        },
        _ => Cell::Other,
    }
}

/// The cells of a sheet, row by row.
pub(crate) fn cells_of(range: &calamine::Range<calamine::Data>) -> (rows: Vec<Vec<Cell>>)
    ensures
        rows_view(rows@) == grid_of(*range),
{
    let (height, width) = grid_size(range);
    let ghost grid = grid_of(*range);
    let mut rows: Vec<Vec<Cell>> = Vec::new();
    let mut i: usize = 0;
    while i < height
        invariant
            grid == grid_of(*range),
            is_grid(grid, height as int, width as int),
            i <= height,
            rows@.len() == i,
            forall|k: int| 0 <= k < i ==> row_view((#[trigger] rows@[k])@) == grid[k],
        decreases height - i,
    {
        let mut row: Vec<Cell> = Vec::new();
        let mut j: usize = 0;
        while j < width
            invariant
                grid == grid_of(*range),
                is_grid(grid, height as int, width as int),
                i < height,
                j <= width,
                row@.len() == j,
                forall|k: int| 0 <= k < j ==> (#[trigger] row@[k])@ == grid[i as int][k],
            decreases width - j,
        {
            assert(grid[i as int].len() == width);
            let cell = match plain_cell(range, i, j) {
                Some(c) => c,
                None => date_cell(range, i, j),
            };
            row.push(cell);
            j = j + 1;
        }
        assert(row_view(row@) =~= grid[i as int]);
        rows.push(row);
        i = i + 1;
    }
    assert(rows_view(rows@) =~= grid);
    rows
}

/// The date that calamine makes of a day count.
pub uninterp spec fn date_on(count: Seq<char>, since_1904: bool) -> Option<Seq<char>>;

/// Whether a day count lies over a hundred thousand million days back.
pub open spec fn far_past(count: Seq<char>) -> bool {
    match parsed_bits(count) {
        Some(bits) => FAR_PAST <= bits <= ENDLESS_PAST,
        None => false,
    }
}

/// The bits of the day count -100,000,000,000; those of an earlier day are
/// larger.
pub const FAR_PAST: u64 = 0xc237_4876_e800_0000;

/// The bits of the day count that lies before all others.
pub const ENDLESS_PAST: u64 = 0xfff0_0000_0000_0000;

/// `ExcelDateTime::as_datetime` of calamine on a day count that is given as a
/// text, and the text of its date; `None` where the calendar does not reach
/// that far. Day counts at the far end of the past, on which it panics, are
/// left out.
#[verifier::external_body]
fn date_of(count: &str, since_1904: bool) -> (r: Option<String>)
    requires
        !far_past(count@),
    ensures
        opt_view(r) == date_on(count@, since_1904),
{
    let days = count.parse().ok()?;
    let day = ExcelDateTime::new(days, ExcelDateTimeType::DateTime, since_1904).as_datetime()?;
    Some(day.date().to_string())
}

/// The date of a day count, where the calendar reaches that far.
pub open spec fn counted_date(count: Seq<char>, since_1904: bool) -> Option<Seq<char>> {
    if far_past(count) {
        None
    } else {
        date_on(count, since_1904)
    }
}

/// The date of a day count, where the calendar reaches that far.
pub fn get_counted_date(count: &str, since_1904: bool) -> (r: Option<String>)
    ensures
        opt_view(r) == counted_date(count@, since_1904),
{
    match parse_real(count) {
        Some(bits) => if FAR_PAST <= bits && bits <= ENDLESS_PAST {
            return None;
        },
        None => {},
    }
    date_of(count, since_1904)
}

/// What is said of a compound file whose sectors cannot be followed.
pub open spec fn not_followed() -> Seq<char> {
    "the file is protected, damaged or in an older format"@
}

/// What is read from a file as the rows of its first sheet.
pub open spec fn reading_of(bytes: Seq<u8>) -> Result<Seq<Seq<CellView>>, (SheetProblem, Seq<char>)> {
    if ole_like(bytes) && !ole_sound(bytes) {
        Err((SheetProblem::NotASpreadsheet, not_followed()))
    } else {
        sheet_of(bytes)
    }
}

/// The rows of the first sheet of a file.
pub fn read_sheet(bytes: Vec<u8>) -> (r: Result<Vec<Vec<Cell>>, SheetError>)
    ensures
        match r {
            Ok(rows) => reading_of(bytes@) == Ok::<Seq<Seq<CellView>>, (SheetProblem, Seq<char>)>(rows_view(rows@)),
            Err(e) => reading_of(bytes@) == Err::<Seq<Seq<CellView>>, (SheetProblem, Seq<char>)>(e@),
        },
{
    if is_ole_like(&bytes) && !is_ole_sound(&bytes) {
        return Err(
            SheetError {
                problem: SheetProblem::NotASpreadsheet,
                detail: "the file is protected, damaged or in an older format".to_owned(),
            },
        );
    }
    match first_sheet(bytes) {
        Ok(range) => Ok(cells_of(&range)),
        Err(e) => Err(e),
    }
}

/// The rows of texts.
pub open spec fn texts_view(rows: Seq<Vec<String>>) -> Seq<Seq<Seq<char>>> {
    Seq::new(rows.len(), |i: int| views(rows[i]@))
}

/// Whether a text is taken for one that holds its own markup.
pub open spec fn marked_up(s: Seq<char>) -> bool {
    begins(s, "<r>"@) && s.len() >= 4 && s.skip(s.len() - 4) == "</r>"@
}

/// A text that begins with another sign is not taken for one that holds its own
/// markup.
pub proof fn lemma_is_unmarked(s: Seq<char>)
    requires
        s.len() > 0 ==> s[0] != '<',
    ensures
        !marked_up(s),
{
    reveal_strlit("<r>");
    if marked_up(s) {
        assert(s.take(3) == "<r>"@);
        assert(s.take(3)[0] == s[0]);
    }
}

/// Whether no text of a row is taken for one that holds its own markup.
pub open spec fn row_unmarked(row: Seq<Seq<char>>) -> bool {
    forall|j: int| 0 <= j < row.len() ==> !marked_up(#[trigger] row[j])
}

/// Whether no text of the rows is taken for one that holds its own markup.
pub open spec fn rows_unmarked(rows: Seq<Seq<Seq<char>>>) -> bool {
    forall|i: int| 0 <= i < rows.len() ==> row_unmarked(#[trigger] rows[i])
}

/// Whether rows of texts are read back as they were written: all are as long as
/// the first, which has no empty text, there is room for them in a sheet, and
/// no text is taken for one that holds its own markup.
pub open spec fn reads_back(rows: Seq<Seq<Seq<char>>>) -> bool {
    &&& rows.len() > 0
    &&& forall|j: int| 0 <= j < rows[0].len() ==> (#[trigger] rows[0][j]).len() > 0
    &&& forall|i: int| 0 <= i < rows.len() ==> (#[trigger] rows[i]).len() == rows[0].len()
    &&& sheet_fits(rows)
    &&& rows_unmarked(rows)
}

/// Whether a row has no text.
pub open spec fn is_blank_row(row: Seq<Seq<char>>) -> bool {
    forall|j: int| 0 <= j < row.len() ==> (#[trigger] row[j]).len() == 0
}

/// The rows up to the last one with a text.
pub open spec fn used_rows(rows: Seq<Seq<Seq<char>>>) -> Seq<Seq<Seq<char>>>
    decreases rows.len(),
{
    if rows.len() > 0 && is_blank_row(rows.last()) {
        used_rows(rows.drop_last())
    } else {
        rows
    }
}

/// The cell of a text.
pub open spec fn text_cell(s: Seq<char>) -> CellView {
    if s.len() == 0 {
        CellView::Empty
    } else {
        CellView::Text(s)
    }
}

/// The cells of rows of texts.
pub open spec fn text_cells(rows: Seq<Seq<Seq<char>>>) -> Seq<Seq<CellView>> {
    rows.map_values(|row: Seq<Seq<char>>| row.map_values(|s: Seq<char>| text_cell(s)))
}

/// Whether these rows of texts are what is read from a file, up to the last one
/// with a text.
pub open spec fn reads_as(bytes: Seq<u8>, rows: Seq<Seq<Seq<char>>>) -> bool {
    reading_of(bytes) == Ok::<Seq<Seq<CellView>>, (SheetProblem, Seq<char>)>(text_cells(used_rows(rows)))
}

// ---------------------------------------------------------------------------
// Writing
// ---------------------------------------------------------------------------

/// The rows that a sheet has room for.
pub const MAX_ROWS: u32 = 1_048_576;

/// The columns that a sheet has room for.
pub const MAX_COLUMNS: u16 = 16_384;

/// The characters that a cell has room for.
pub const MAX_CELL: usize = 32_767;

/// What keeps rust_xlsxwriter from writing a file.
#[verifier::external_type_specification]
#[verifier::external_body]
pub struct ExXlsxError(rust_xlsxwriter::XlsxError);

/// A sheet that rust_xlsxwriter writes to.
#[verifier::external_type_specification]
#[verifier::external_body]
pub struct ExWorksheet(rust_xlsxwriter::Worksheet);

/// The texts that were written to a sheet, by row and column.
pub uninterp spec fn written(sheet: rust_xlsxwriter::Worksheet) -> Map<(u32, u16), Seq<char>>;

/// Whether a sheet holds nothing but texts, headings on that colour in its
/// first row, and widths of columns.
pub uninterp spec fn texts_only(sheet: rust_xlsxwriter::Worksheet, colour: Seq<char>) -> bool;

/// Whether a sheet that held nothing but texts still does.
pub open spec fn stays_texts(before: rust_xlsxwriter::Worksheet, after: rust_xlsxwriter::Worksheet) -> bool {
    forall|colour: Seq<char>| texts_only(before, colour) ==> #[trigger] texts_only(after, colour)
}

/// How many bytes a character takes in UTF-8.
pub open spec fn width(c: char) -> int {
    let n = c as u32;
    if n < 0x80 {
        1
    } else if n < 0x800 {
        2
    } else if n < 0x10000 {
        3
    } else {
        4
    }
}

/// Whether a text can be cut after that many bytes: the cut falls between two
/// characters, or the text is no longer than that.
pub open spec fn cuts(s: Seq<char>, bytes: int) -> bool
    decreases s.len(),
{
    bytes == 0 || s.len() == 0 || (width(s[0]) <= bytes && cuts(s.skip(1), bytes - width(s[0])))
}

/// Whether a text can be written to a file: the four bytes behind each `_x` of
/// it, which a file gives a meaning of their own, are whole characters.
pub open spec fn writable(s: Seq<char>) -> bool {
    marked_up(s) || forall|i: int|
        0 <= i < s.len() - 1 && #[trigger] s[i] == '_' && s[i + 1] == 'x' ==> cuts(s.skip(i + 2), 4)
}

/// Whether every text of a row can be written.
pub open spec fn row_writable(row: Seq<Seq<char>>) -> bool {
    forall|i: int| 0 <= i < row.len() ==> writable(#[trigger] row[i])
}

/// Whether every text of the rows can be written.
pub open spec fn rows_writable(rows: Seq<Seq<Seq<char>>>) -> bool {
    forall|i: int| 0 <= i < rows.len() ==> row_writable(#[trigger] rows[i])
}

/// The size of rows of texts: the characters, the texts and the rows, counted
/// together.
pub open spec fn size_of_rows(rows: Seq<Seq<Seq<char>>>) -> nat
    decreases rows.len(),
{
    if rows.len() == 0 {
        0
    } else {
        size_of_rows(rows.drop_last()) + size_of_row(rows.last()) + 1
    }
}

/// The characters and the texts of a row, counted together.
pub open spec fn size_of_row(row: Seq<Seq<char>>) -> nat
    decreases row.len(),
{
    if row.len() == 0 {
        0
    } else {
        size_of_row(row.drop_last()) + row.last().len() + 1
    }
}

/// The size up to which rows of texts are always saved.
pub const MAX_SAVED: usize = 10_000_000;

/// Whether a sheet holds rows of texts of such a size.
pub open spec fn is_saved(sheet: rust_xlsxwriter::Worksheet) -> bool {
    exists|rows: Seq<Seq<Seq<char>>>| #[trigger]
        cell_texts(rows) == written(sheet) && size_of_rows(rows) <= MAX_SAVED
}

/// Whether a sheet can have that name.
pub open spec fn sheet_name(s: Seq<char>) -> bool {
    &&& 0 < s.len() <= 31
    &&& s[0] != '\'' && s.last() != '\''
    &&& forall|i: int|
        0 <= i < s.len() ==> {
            let c = #[trigger] s[i];
            c != '*' && c != '?' && c != ':' && c != '[' && c != ']' && c != '\\' && c != '/'
        }
}

/// Whether there is room in a sheet for a text at that place; an empty one
/// needs none.
pub open spec fn text_fits(row: int, col: int, text: Seq<char>) -> bool {
    text.len() == 0 || heading_fits(row, col, text)
}

/// Whether there is room in a sheet for a heading at that place.
pub open spec fn heading_fits(row: int, col: int, text: Seq<char>) -> bool {
    row < MAX_ROWS && col < MAX_COLUMNS && text.len() <= MAX_CELL
}

/// `Worksheet::new` of rust_xlsxwriter and `Worksheet::set_name`: an empty
/// sheet, where the name can be one.
#[verifier::external_body]
fn new_sheet(name: &str) -> (r: Result<rust_xlsxwriter::Worksheet, rust_xlsxwriter::XlsxError>)
    ensures
        r is Ok == sheet_name(name@),
        r matches Ok(sheet) ==> written(sheet) == cell_texts(Seq::empty()),
        r matches Ok(sheet) ==> forall|colour: Seq<char>| #[trigger] texts_only(sheet, colour),
{
    let mut sheet = rust_xlsxwriter::Worksheet::new();
    sheet.set_name(name)?;
    Ok(sheet)
}

/// `Worksheet::write_string` of rust_xlsxwriter: puts a text into a cell. An
/// empty text is passed over; one that is too long, or a cell outside the
/// sheet, is refused.
#[verifier::external_body]
fn write_text(sheet: &mut rust_xlsxwriter::Worksheet, row: u32, col: u16, text: &str) -> (r: Result<
    (),
    rust_xlsxwriter::XlsxError,
>)
    ensures
        r is Ok == text_fits(row as int, col as int, text@),
        written(*final(sheet)) == (if r is Ok && text@.len() > 0 {
            written(*old(sheet)).insert((row, col), text@)
        } else {
            written(*old(sheet))
        }),
        stays_texts(*old(sheet), *final(sheet)),
{
    sheet.write_string(row, col, text).map(|_| ())
}

/// `Worksheet::write_string_with_format` of rust_xlsxwriter with a bold format
/// on a coloured ground: puts a text into a cell, and blanks the cell where the
/// text is empty. A text that is too long, or a cell outside the sheet, is
/// refused.
#[verifier::external_body]
fn write_heading(sheet: &mut rust_xlsxwriter::Worksheet, row: u32, col: u16, text: &str, colour: &str) -> (r: Result<
    (),
    rust_xlsxwriter::XlsxError,
>)
    ensures
        r is Ok == heading_fits(row as int, col as int, text@),
        written(*final(sheet)) == (if r is Err {
            written(*old(sheet))
        } else if text@.len() > 0 {
            written(*old(sheet)).insert((row, col), text@)
        } else {
            written(*old(sheet)).remove((row, col))
        }),
        row == 0 && texts_only(*old(sheet), colour@) ==> texts_only(*final(sheet), colour@),
{
    let bold = rust_xlsxwriter::Format::new().set_bold().set_background_color(colour);
    sheet.write_string_with_format(row, col, text, &bold).map(|_| ())
}

/// `Worksheet::autofit` of rust_xlsxwriter: fits the columns to their texts,
/// which stay as they are.
#[verifier::external_body]
fn fit_columns(sheet: &mut rust_xlsxwriter::Worksheet)
    ensures
        written(*final(sheet)) == written(*old(sheet)),
        stays_texts(*old(sheet), *final(sheet)),
{
    sheet.autofit();
}

/// `Worksheet::set_column_width` of rust_xlsxwriter: the texts stay as they
/// are.
#[verifier::external_body]
fn set_width(sheet: &mut rust_xlsxwriter::Worksheet, col: u16, width: u8) -> (r: Result<
    (),
    rust_xlsxwriter::XlsxError,
>)
    requires
        width > 0,
    ensures
        r is Ok == (col < MAX_COLUMNS),
        written(*final(sheet)) == written(*old(sheet)),
        stays_texts(*old(sheet), *final(sheet)),
{
    sheet.set_column_width(col, width).map(|_| ())
}

/// `Workbook::push_worksheet` and `Workbook::save_to_buffer` of
/// rust_xlsxwriter: a file with that one sheet. The file holds the time at
/// which it was written, so its bytes are not said; what calamine reads back
/// from it is. A text goes into the table of shared texts, with its outer blanks
/// kept. Markup signs and control characters are escaped there, and so is each
/// `_x` that would read as such an escape; calamine undoes just that. A text that is
/// taken for one that holds its own markup goes in as it is: what is read back
/// from a file with such a text is not said. The grid that is read reaches to
/// the last row with a text. Saving fails where a part of the file would
/// be over 4 GiB, and in no other way for a sheet of texts; a sheet of the size
/// `MAX_SAVED` stays far below that, and what becomes of a larger one is not
/// said. Saving panics on a text that cannot be written.
#[verifier::external_body]
fn save_sheet(sheet: rust_xlsxwriter::Worksheet) -> (r: Result<Vec<u8>, rust_xlsxwriter::XlsxError>)
    requires
        exists|colour: Seq<char>| #[trigger] texts_only(sheet, colour),
        forall|k: (u32, u16)| written(sheet).contains_key(k) ==> writable(#[trigger] written(sheet)[k]),
    ensures
        is_saved(sheet) ==> r is Ok,
        r matches Ok(bytes) ==> forall|rows: Seq<Seq<Seq<char>>>|
            reads_back(rows) && written(sheet) == cell_texts(rows) ==> #[trigger] reads_as(bytes@, rows),
{
    let mut book = rust_xlsxwriter::Workbook::new();
    book.push_worksheet(sheet);
    book.save_to_buffer()
}

/// The texts of rows, by row and column; an empty one is none.
pub open spec fn cell_texts(rows: Seq<Seq<Seq<char>>>) -> Map<(u32, u16), Seq<char>> {
    Map::new(
        |k: (u32, u16)| k.0 < rows.len() && k.1 < rows[k.0 as int].len() && rows[k.0 as int][k.1 as int].len() > 0,
        |k: (u32, u16)| rows[k.0 as int][k.1 as int],
    )
}

/// Whether there is room in a sheet for the texts of a row.
pub open spec fn row_fits(row: int, texts: Seq<Seq<char>>) -> bool {
    forall|j: int| 0 <= j < texts.len() ==> text_fits(row, j, #[trigger] texts[j])
}

/// Whether there is room in a sheet for the headings of its first row.
pub open spec fn headings_fit(texts: Seq<Seq<char>>) -> bool {
    forall|j: int| 0 <= j < texts.len() ==> heading_fits(0, j, #[trigger] texts[j])
}

/// Whether there is room in a sheet for all the texts.
pub open spec fn sheet_fits(rows: Seq<Seq<Seq<char>>>) -> bool {
    forall|i: int| 0 <= i < rows.len() ==> row_fits(i, #[trigger] rows[i])
}

/// Whether every text that was written can be.
proof fn lemma_written_is_writable(rows: Seq<Seq<Seq<char>>>)
    requires
        rows_writable(rows),
    ensures
        forall|k: (u32, u16)| cell_texts(rows).contains_key(k) ==> writable(#[trigger] cell_texts(rows)[k]),
{
    assert forall|k: (u32, u16)| cell_texts(rows).contains_key(k) implies writable(
        #[trigger] cell_texts(rows)[k],
    ) by {
        assert(row_writable(rows[k.0 as int]));
    }
}

/// There are no more rows than their size.
proof fn lemma_rows_are_counted(rows: Seq<Seq<Seq<char>>>)
    ensures
        rows.len() <= size_of_rows(rows),
    decreases rows.len(),
{
    if rows.len() > 0 {
        lemma_rows_are_counted(rows.drop_last());
    }
}

/// Whether a text is of characters of one byte each.
pub open spec fn narrow(s: Seq<char>) -> bool {
    forall|i: int| 0 <= i < s.len() ==> width(#[trigger] s[i]) == 1
}

proof fn lemma_narrow_cuts(s: Seq<char>, bytes: int)
    requires
        narrow(s),
        bytes >= 0,
    ensures
        cuts(s, bytes),
    decreases s.len(),
{
    if bytes > 0 && s.len() > 0 {
        assert(width(s[0]) == 1);
        assert forall|i: int| 0 <= i < s.skip(1).len() implies width(#[trigger] s.skip(1)[i]) == 1 by {
            assert(s.skip(1)[i] == s[i + 1]);
        }
        lemma_narrow_cuts(s.skip(1), bytes - 1);
    }
}

/// A text of characters of one byte each can be written.
pub proof fn lemma_narrow_is_writable(s: Seq<char>)
    requires
        narrow(s),
    ensures
        writable(s),
{
    assert forall|i: int| 0 <= i < s.len() - 1 && #[trigger] s[i] == '_' && s[i + 1] == 'x' implies cuts(
        s.skip(i + 2),
        4,
    ) by {
        let rest = s.skip(i + 2);
        assert forall|j: int| 0 <= j < rest.len() implies width(#[trigger] rest[j]) == 1 by {
            assert(rest[j] == s[i + 2 + j]);
        }
        lemma_narrow_cuts(rest, 4);
    }
}

fn char_width(c: char) -> (n: u8)
    ensures
        n == width(c),
{
    let n = c as u32;
    if n < 0x80 {
        1
    } else if n < 0x800 {
        2
    } else if n < 0x10000 {
        3
    } else {
        4
    }
}

fn can_cut(v: &Vec<char>, from: usize, bytes: u8) -> (b: bool)
    requires
        from <= v@.len(),
    ensures
        b == cuts(v@.skip(from as int), bytes as int),
    decreases v@.len() - from,
{
    if bytes == 0 || from == v.len() {
        return true;
    }
    assert(v@.skip(from as int)[0] == v@[from as int]);
    let n = char_width(v[from]);
    if n > bytes {
        return false;
    }
    assert(v@.skip(from as int).skip(1) =~= v@.skip(from + 1));
    can_cut(v, from + 1, bytes - n)
}

/// Whether a text can be written to a file.
pub fn is_writable(s: &str) -> (b: bool)
    ensures
        b == writable(s@),
{
    let v = to_chars(s);
    proof {
        reveal_strlit("<r>");
        reveal_strlit("</r>");
    }
    if v.len() >= 4 && same(slice_text(&v, 0, 3).as_str(), "<r>") && same(
        slice_text(&v, v.len() - 4, v.len()).as_str(),
        "</r>",
    ) {
        assert(v@.subrange(0, 3) =~= v@.take(3));
        assert(v@.subrange(v@.len() - 4, v@.len() as int) =~= v@.skip(v@.len() - 4));
        return true;
    }
    proof {
        if marked_up(s@) {
            assert(v@.subrange(0, 3) =~= v@.take(3));
            assert(v@.subrange(v@.len() - 4, v@.len() as int) =~= v@.skip(v@.len() - 4));
        }
    }
    let mut i: usize = 0;
    while i < v.len()
        invariant
            v@ == s@,
            !marked_up(s@),
            i <= v@.len(),
            forall|k: int|
                0 <= k < i && k < s@.len() - 1 && #[trigger] s@[k] == '_' && s@[k + 1] == 'x' ==> cuts(
                    s@.skip(k + 2),
                    4,
                ),
        decreases v@.len() - i,
    {
        if v[i] == '_' && v.len() - i > 1 && v[i + 1] == 'x' {
            if !can_cut(&v, i + 2, 4) {
                assert(s@[i as int] == '_');
                return false;
            }
        }
        i = i + 1;
    }
    true
}

/// Whether every text of a row can be written.
pub fn is_row_writable(row: &Vec<String>) -> (b: bool)
    ensures
        b == row_writable(views(row@)),
{
    let mut i: usize = 0;
    while i < row.len()
        invariant
            i <= row@.len(),
            forall|k: int| 0 <= k < i ==> writable(#[trigger] views(row@)[k]),
        decreases row@.len() - i,
    {
        if !is_writable(row[i].as_str()) {
            assert(!writable(views(row@)[i as int]));
            return false;
        }
        i = i + 1;
    }
    true
}

/// Whether every text of the rows can be written.
pub fn are_rows_writable(rows: &Vec<Vec<String>>) -> (b: bool)
    ensures
        b == rows_writable(texts_view(rows@)),
{
    let mut i: usize = 0;
    while i < rows.len()
        invariant
            i <= rows@.len(),
            forall|k: int| 0 <= k < i ==> row_writable(#[trigger] texts_view(rows@)[k]),
        decreases rows@.len() - i,
    {
        if !is_row_writable(&rows[i]) {
            assert(!row_writable(texts_view(rows@)[i as int]));
            return false;
        }
        i = i + 1;
    }
    true
}

/// Writes the first row of a sheet, up to the first heading that there is no
/// room for; `done` where there is none.
fn write_header(sheet: &mut rust_xlsxwriter::Worksheet, header: &Vec<String>, colour: &str) -> (done: bool)
    requires
        written(*old(sheet)) == cell_texts(Seq::empty()),
    ensures
        done == headings_fit(views(header@)),
        done ==> written(*final(sheet)) == cell_texts(seq![views(header@)]),
        !done ==> exists|k: int|
            0 <= k < header@.len() && headings_fit(views(header@).take(k)) && !heading_fits(
                0,
                k,
                views(header@)[k],
            ) && written(*final(sheet)) == cell_texts(seq![#[trigger] views(header@).take(k)]),
        texts_only(*old(sheet), colour@) ==> texts_only(*final(sheet), colour@),
{
    let ghost all = views(header@);
    let mut j: usize = 0;
    assert(cell_texts(seq![all.take(0)]) =~= cell_texts(Seq::empty()));
    while j < header.len()
        invariant
            j <= header@.len(),
            all == views(header@),
            headings_fit(all.take(j as int)),
            written(*sheet) == cell_texts(seq![all.take(j as int)]),
            texts_only(*old(sheet), colour@) ==> texts_only(*sheet, colour@),
        decreases header@.len() - j,
    {
        if j >= MAX_COLUMNS as usize {
            assert(!heading_fits(0, j as int, all[j as int]));
            return false;
        }
        if write_heading(sheet, 0, j as u16, header[j].as_str(), colour).is_err() {
            assert(!heading_fits(0, j as int, all[j as int]));
            return false;
        }
        proof {
            let next = all.take(j + 1);
            assert(next.drop_last() =~= all.take(j as int));
            assert forall|k: int| 0 <= k < next.len() implies heading_fits(0, k, #[trigger] next[k]) by {
                if k < j {
                    assert(next[k] == all.take(j as int)[k]);
                }
            }
            assert(cell_texts(seq![next]) =~= written(*sheet));
        }
        j = j + 1;
    }
    assert(all.take(all.len() as int) =~= all);
    true
}

/// Writes a row of a sheet below those that are written, up to the first text
/// that there is no room for; `done` where there is none.
fn write_row(
    sheet: &mut rust_xlsxwriter::Worksheet,
    row: u32,
    texts: &Vec<String>,
    Ghost(above): Ghost<Seq<Seq<Seq<char>>>>,
) -> (done: bool)
    requires
        above.len() == row,
        written(*old(sheet)) == cell_texts(above),
    ensures
        done == row_fits(row as int, views(texts@)),
        done ==> written(*final(sheet)) == cell_texts(above.push(views(texts@))),
        !done ==> exists|k: int|
            0 <= k < texts@.len() && row_fits(row as int, views(texts@).take(k)) && !text_fits(
                row as int,
                k,
                views(texts@)[k],
            ) && written(*final(sheet)) == cell_texts(above.push(#[trigger] views(texts@).take(k))),
        stays_texts(*old(sheet), *final(sheet)),
{
    let ghost all = views(texts@);
    let mut j: usize = 0;
    assert(cell_texts(above.push(all.take(0))) =~= cell_texts(above));
    while j < texts.len()
        invariant
            j <= texts@.len(),
            all == views(texts@),
            above.len() == row,
            row_fits(row as int, all.take(j as int)),
            written(*sheet) == cell_texts(above.push(all.take(j as int))),
            stays_texts(*old(sheet), *sheet),
        decreases texts@.len() - j,
    {
        if j > u16::MAX as usize {
            if !is_empty(texts[j].as_str()) {
                assert(!text_fits(row as int, j as int, all[j as int]));
                return false;
            }
        } else if write_text(sheet, row, j as u16, texts[j].as_str()).is_err() {
            assert(!text_fits(row as int, j as int, all[j as int]));
            return false;
        }
        proof {
            let next = all.take(j + 1);
            assert(next.drop_last() =~= all.take(j as int));
            assert forall|k: int| 0 <= k < next.len() implies text_fits(row as int, k, #[trigger] next[k]) by {
                if k < j {
                    assert(next[k] == all.take(j as int)[k]);
                }
            }
            assert(cell_texts(above.push(next)) =~= written(*sheet));
        }
        j = j + 1;
    }
    assert(all.take(all.len() as int) =~= all);
    true
}

/// Writes a file with one sheet: its first row bold on that colour, then the
/// rows, the columns fitted to their texts except for those that a width is
/// given for. `None` where the name cannot be one or there is no room for a
/// text or a width; else a file, unless the texts are over `MAX_SAVED` in size
/// and it cannot be saved. What is read back from the file are the rows, where
/// they are of a shape for that and no text holds its own markup.
pub(crate) fn write_sheet(
    name: &str,
    colour: &str,
    header: &Vec<String>,
    rows: &Vec<Vec<String>>,
    widths: &Vec<u8>,
) -> (r: Option<Vec<u8>>)
    requires
        forall|i: int| 0 <= i < widths@.len() ==> #[trigger] widths@[i] > 0,
        row_writable(views(header@)),
        rows_writable(texts_view(rows@)),
    ensures
        ({
            let all = seq![views(header@)] + texts_view(rows@);
            let room = sheet_name(name@) && headings_fit(views(header@)) && sheet_fits(all) && widths@.len()
                <= MAX_COLUMNS;
            &&& r is Some ==> room
            &&& room && size_of_rows(all) <= MAX_SAVED ==> r is Some
            &&& r matches Some(bytes) ==> reads_back(all) ==> reads_as(bytes@, all)
        }),
{
    let ghost head = seq![views(header@)];
    let ghost below = texts_view(rows@);
    let ghost whole = head + below;
    let mut sheet = match new_sheet(name) {
        Ok(s) => s,
        Err(_) => {
            return None;
        },
    };
    if !write_header(&mut sheet, header, colour) {
        return None;
    }
    let mut i: usize = 0;
    assert(head + below.take(0) =~= head);
    while i < rows.len()
        invariant
            i <= rows@.len(),
            below == texts_view(rows@),
            head.len() == 1,
            whole == head + below,
            sheet_fits(head + below.take(i as int)),
            written(sheet) == cell_texts(head + below.take(i as int)),
            texts_only(sheet, colour@),
            whole == seq![views(header@)] + texts_view(rows@),
        decreases rows@.len() - i,
    {
        if i >= u32::MAX as usize {
            proof {
                lemma_rows_are_counted(whole);
            }
            return None;
        }
        let ghost above = head + below.take(i as int);
        if !write_row(&mut sheet, (i + 1) as u32, &rows[i], Ghost(above)) {
            assert(whole[i + 1] == views(rows@[i as int]@));
            return None;
        }
        proof {
            let next = head + below.take(i + 1);
            assert(next =~= above.push(views(rows@[i as int]@)));
            assert forall|k: int| 0 <= k < next.len() implies row_fits(k, #[trigger] next[k]) by {
                if k < above.len() {
                    assert(next[k] == above[k]);
                }
            }
        }
        i = i + 1;
    }
    assert(below.take(below.len() as int) =~= below);
    fit_columns(&mut sheet);
    let mut c: usize = 0;
    while c < widths.len()
        invariant
            c <= widths@.len(),
            c <= MAX_COLUMNS,
            forall|i: int| 0 <= i < widths@.len() ==> #[trigger] widths@[i] > 0,
            written(sheet) == cell_texts(whole),
            texts_only(sheet, colour@),
        decreases widths@.len() - c,
    {
        if set_width(&mut sheet, c as u16, widths[c]).is_err() {
            return None;
        }
        c = c + 1;
    }
    proof {
        assert forall|k: int| 0 <= k < whole.len() implies row_writable(#[trigger] whole[k]) by {
            if k > 0 {
                assert(whole[k] == below[k - 1]);
            }
        }
        lemma_written_is_writable(whole);
    }
    match save_sheet(sheet) {
        Ok(bytes) => Some(bytes),
        Err(_) => None,
    }
}

} // verus!
