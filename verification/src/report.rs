//! Rendering the report document through `docx_rs`: the summary table with
//! its header and one row per file, then the body with one numbered heading
//! and one content listing per file.
//!
//! The word-processing structures of `docx_rs` are opaque to this library,
//! so their contents are modelled by named spec functions: what texts a run,
//! a paragraph, a cell, a row and a table hold, and which blocks a document
//! holds, in order. Every call into the crate stands behind a small trusted
//! wrapper whose contract states, over those names, what the call appends;
//! the rendering functions are then verified to emit exactly the table and
//! the body of the document model.

use crate::document::spec_decimal;
use crate::document::row_matches;
use crate::document::section_matches;
use crate::document::BodySection;
use crate::document::FileRecord;
use crate::document::ReportDocument;
use crate::document::SummaryRow;
use crate::document::build_document;
use crate::metrics::line_views;
use docx_rs::Docx;
use docx_rs::Paragraph;
use docx_rs::Run;
use docx_rs::Table;
use docx_rs::TableCell;
use docx_rs::TableRow;
use vstd::prelude::*;
use vstd::utf8::decode_utf8;
use vstd::utf8::valid_utf8;

verus! {

#[verifier::external_type_specification]
#[verifier::external_body]
/// The `docx_rs` document being assembled; opaque to this library.
pub struct ExDocx(Docx);

#[verifier::external_type_specification]
#[verifier::external_body]
/// A `docx_rs` table; opaque to this library.
pub struct ExTable(Table);

#[verifier::external_type_specification]
#[verifier::external_body]
/// A `docx_rs` table row; opaque to this library.
pub struct ExTableRow(TableRow);

#[verifier::external_type_specification]
#[verifier::external_body]
/// A `docx_rs` table cell; opaque to this library.
pub struct ExTableCell(TableCell);

#[verifier::external_type_specification]
#[verifier::external_body]
/// A `docx_rs` paragraph; opaque to this library.
pub struct ExParagraph(Paragraph);

#[verifier::external_type_specification]
#[verifier::external_body]
/// A `docx_rs` text run; opaque to this library.
pub struct ExRun(Run);

/// The texts of a run's text children as a word processor displays them
/// (entity references decoded), in order.
pub uninterp spec fn run_texts(r: Run) -> Seq<Seq<char>>;

/// The texts of a paragraph's runs, flattened, in order.
pub uninterp spec fn paragraph_texts(p: Paragraph) -> Seq<Seq<char>>;

/// Whether a paragraph was put under a numbering.
pub uninterp spec fn paragraph_has_numbering(p: Paragraph) -> bool;

/// The texts of a cell's paragraphs, flattened, in order.
pub uninterp spec fn cell_texts(c: TableCell) -> Seq<Seq<char>>;

/// The texts of a row, cell by cell, in order.
pub uninterp spec fn row_cells(r: TableRow) -> Seq<Seq<Seq<char>>>;

/// The texts of a table, row by row and cell by cell, in order.
pub uninterp spec fn table_rows(t: Table) -> Seq<Seq<Seq<Seq<char>>>>;

/// The blocks of a document, in order.
pub uninterp spec fn docx_blocks(d: Docx) -> Seq<BlockContent>;

/// What `String::from_utf8_lossy` decodes the given bytes to.
pub uninterp spec fn lossy_decode(bytes: Seq<u8>) -> Seq<char>;

/// One block of the rendered document: a paragraph with its texts and its
/// numbering state, or a table with its cell texts.
pub enum BlockContent {
    /// A paragraph block: its texts, and whether it is numbered.
    Paragraph { texts: Seq<Seq<char>>, numbered: bool },
    /// A table block: its texts, row by row and cell by cell.
    Table { rows: Seq<Seq<Seq<Seq<char>>>> },
}

/// `s` without its newline and carriage-return characters, which the
/// renderer drops from every text it is handed.
pub open spec fn strip_line_breaks(s: Seq<char>) -> Seq<char>
    decreases s.len(),
{
    if s.len() == 0 {
        Seq::empty()
    } else if s.last() == '\n' || s.last() == '\r' {
        strip_line_breaks(s.drop_last())
    } else {
        strip_line_breaks(s.drop_last()).push(s.last())
    }
}

/// Stripping line breaks from a text that holds none leaves it unchanged.
pub proof fn lemma_strip_line_breaks_identity(s: Seq<char>)
    requires
        forall|i: int| 0 <= i < s.len() ==> s[i] != '\n' && s[i] != '\r',
    ensures
        strip_line_breaks(s) == s,
    decreases s.len(),
{
    if s.len() > 0 {
        assert(forall|i: int|
            0 <= i < s.drop_last().len() ==> s.drop_last()[i] != '\n'
                && s.drop_last()[i] != '\r');
        lemma_strip_line_breaks_identity(s.drop_last());
        assert(s.last() == s[s.len() - 1]);
        assert(strip_line_breaks(s) =~= s);
    }
}

/// Decimal digit texts hold no line break, so the renderer passes them
/// through unchanged.
pub proof fn lemma_spec_decimal_no_line_breaks(n: nat)
    ensures
        forall|i: int|
            0 <= i < spec_decimal(n).len() ==> spec_decimal(n)[i] != '\n'
                && spec_decimal(n)[i] != '\r',
        strip_line_breaks(spec_decimal(n)) == spec_decimal(n),
    decreases n,
{
    if n >= 10 {
        lemma_spec_decimal_no_line_breaks(n / 10);
        assert forall|i: int| 0 <= i < spec_decimal(n).len() implies spec_decimal(n)[i]
            != '\n' && spec_decimal(n)[i] != '\r' by {
            if i < spec_decimal(n / 10).len() {
                assert(spec_decimal(n)[i] == spec_decimal(n / 10)[i]);
            }
        }
    }
    lemma_strip_line_breaks_identity(spec_decimal(n));
}

/// The header row of the summary table: one cell per column label. The
/// labels hold no line break, so stripping is spelled out only for
/// uniformity with the data cells.
pub open spec fn header_row_model() -> Seq<Seq<Seq<char>>> {
    seq![
        seq![strip_line_breaks("File Name"@)],
        seq![strip_line_breaks("Line Count"@)],
        seq![strip_line_breaks("Size (KB)"@)],
    ]
}

/// The rendered cells of one summary row: the path, the line count text and
/// the size text, one cell each.
pub open spec fn summary_row_model(row: SummaryRow) -> Seq<Seq<Seq<char>>> {
    seq![
        seq![strip_line_breaks(row.path@)],
        seq![strip_line_breaks(row.line_count_text@)],
        seq![strip_line_breaks(row.size_kb_text@)],
    ]
}

/// The whole summary table: the header row, then one row per document row,
/// in order.
pub open spec fn summary_table_model(rows: Seq<SummaryRow>) -> Seq<Seq<Seq<Seq<char>>>> {
    seq![header_row_model()] + rows.map_values(|row: SummaryRow| summary_row_model(row))
}

/// The texts of one body listing: the section's lines, decoded and with
/// line breaks stripped, one text per line, in order.
pub open spec fn section_line_texts(lines: Seq<Vec<u8>>) -> Seq<Seq<char>> {
    lines.map_values(|l: Vec<u8>| strip_line_breaks(lossy_decode(l@)))
}

/// The two blocks one body section renders to: a numbered heading paragraph
/// holding the title, then a single-cell table holding the section's lines.
pub open spec fn section_blocks(section: BodySection) -> Seq<BlockContent> {
    seq![
        BlockContent::Paragraph {
            texts: seq![strip_line_breaks(section.title@)],
            numbered: true,
        },
        BlockContent::Table { rows: seq![seq![section_line_texts(section.lines@)]] },
    ]
}

/// The blocks of the whole body: the blocks of each section, in order.
pub open spec fn body_blocks(sections: Seq<BodySection>) -> Seq<BlockContent>
    decreases sections.len(),
{
    if sections.len() == 0 {
        Seq::empty()
    } else {
        body_blocks(sections.drop_last()) + section_blocks(sections.last())
    }
}

/// The rendered cells of one record's summary row: the path and the two
/// metrics as decimal text.
pub open spec fn record_row_model(rec: FileRecord) -> Seq<Seq<Seq<char>>> {
    seq![
        seq![strip_line_breaks(rec.path@)],
        seq![spec_decimal(rec.line_count as nat)],
        seq![spec_decimal(rec.size_kb as nat)],
    ]
}

/// The whole summary table of a record list: the header row, then one row
/// per record, in order.
pub open spec fn records_table_model(records: Seq<FileRecord>) -> Seq<Seq<Seq<Seq<char>>>> {
    seq![header_row_model()] + records.map_values(|rec: FileRecord| record_row_model(rec))
}

/// The two blocks one record's body section renders to.
pub open spec fn record_blocks(rec: FileRecord) -> Seq<BlockContent> {
    seq![
        BlockContent::Paragraph { texts: seq![strip_line_breaks(rec.path@)], numbered: true },
        BlockContent::Table { rows: seq![seq![section_line_texts(rec.lines@)]] },
    ]
}

/// The body blocks of a whole record list, in order.
pub open spec fn records_body_blocks(records: Seq<FileRecord>) -> Seq<BlockContent>
    decreases records.len(),
{
    if records.len() == 0 {
        Seq::empty()
    } else {
        records_body_blocks(records.drop_last()) + record_blocks(records.last())
    }
}

/// Relies on `Docx::new`: a fresh document holds no blocks.
#[verifier::external_body]
fn docx_new() -> (d: Docx)
    ensures
        docx_blocks(d) == Seq::<BlockContent>::empty(),
{
    Docx::new()
}

/// Relies on `Docx::add_table`: the table is appended to the document's
/// children, after everything already there.
#[verifier::external_body]
fn docx_add_table(d: Docx, t: Table) -> (r: Docx)
    ensures
        docx_blocks(r) == docx_blocks(d).push(BlockContent::Table { rows: table_rows(t) }),
{
    d.add_table(t)
}

/// Relies on `Docx::add_paragraph`: the paragraph is appended to the
/// document's children, after everything already there.
#[verifier::external_body]
fn docx_add_paragraph(d: Docx, p: Paragraph) -> (r: Docx)
    ensures
        docx_blocks(r) == docx_blocks(d).push(
            BlockContent::Paragraph {
                texts: paragraph_texts(p),
                numbered: paragraph_has_numbering(p),
            },
        ),
{
    d.add_paragraph(p)
}

/// Relies on `Table::new`: the table holds exactly the given rows, in
/// order.
#[verifier::external_body]
fn table_new(rows: Vec<TableRow>) -> (t: Table)
    ensures
        table_rows(t) == rows@.map_values(|r: TableRow| row_cells(r)),
{
    Table::new(rows)
}

/// Relies on `Table::add_row`: the row is appended after the table's
/// existing rows.
#[verifier::external_body]
fn table_add_row(t: Table, row: TableRow) -> (r: Table)
    ensures
        table_rows(r) == table_rows(t).push(row_cells(row)),
{
    t.add_row(row)
}

/// Relies on `TableRow::new`: the row holds exactly the given cells, in
/// order.
#[verifier::external_body]
fn table_row_new(cells: Vec<TableCell>) -> (r: TableRow)
    ensures
        row_cells(r) == cells@.map_values(|c: TableCell| cell_texts(c)),
{
    TableRow::new(cells)
}

/// Relies on `TableCell::new`: a fresh cell holds no content.
#[verifier::external_body]
fn table_cell_new() -> (c: TableCell)
    ensures
        cell_texts(c) == Seq::<Seq<char>>::empty(),
{
    TableCell::new()
}

/// Relies on `TableCell::add_paragraph`: the paragraph's texts are appended
/// after the cell's existing content.
#[verifier::external_body]
fn table_cell_add_paragraph(c: TableCell, p: Paragraph) -> (r: TableCell)
    ensures
        cell_texts(r) == cell_texts(c) + paragraph_texts(p),
{
    c.add_paragraph(p)
}

/// Relies on `TableCell::width`: only the cell's width property changes, in
/// twentieths of a point; its content stays.
#[verifier::external_body]
fn table_cell_width(c: TableCell, w: usize) -> (r: TableCell)
    ensures
        cell_texts(r) == cell_texts(c),
{
    c.width(w, docx_rs::WidthType::Dxa)
}

/// Relies on `Paragraph::new`: a fresh paragraph holds no runs and no
/// numbering.
#[verifier::external_body]
fn paragraph_new() -> (p: Paragraph)
    ensures
        paragraph_texts(p) == Seq::<Seq<char>>::empty(),
        !paragraph_has_numbering(p),
{
    Paragraph::new()
}

/// Relies on `Paragraph::add_run`: the run's texts are appended after the
/// paragraph's existing content; the numbering state stays.
#[verifier::external_body]
fn paragraph_add_run(p: Paragraph, r: Run) -> (q: Paragraph)
    ensures
        paragraph_texts(q) == paragraph_texts(p) + run_texts(r),
        paragraph_has_numbering(q) == paragraph_has_numbering(p),
{
    p.add_run(r)
}

/// Relies on `Paragraph::size`: only the font size property changes, in
/// half-points; content and numbering stay.
#[verifier::external_body]
fn paragraph_size(p: Paragraph, size: usize) -> (q: Paragraph)
    ensures
        paragraph_texts(q) == paragraph_texts(p),
        paragraph_has_numbering(q) == paragraph_has_numbering(p),
{
    p.size(size)
}

/// Relies on `Paragraph::numbering`: the paragraph is put under the given
/// numbering at the given indent level; its texts stay.
#[verifier::external_body]
fn paragraph_numbering(p: Paragraph, id: usize, level: usize) -> (q: Paragraph)
    ensures
        paragraph_texts(q) == paragraph_texts(p),
        paragraph_has_numbering(q),
{
    p.numbering(docx_rs::NumberingId::new(id), docx_rs::IndentLevel::new(level))
}

/// Relies on `Run::new`: a fresh run holds no text.
#[verifier::external_body]
fn run_new() -> (r: Run)
    ensures
        run_texts(r) == Seq::<Seq<char>>::empty(),
{
    Run::new()
}

/// Relies on `Run::add_text`, which drops newline characters, and on
/// `Text::new`'s escaping, which drops carriage returns and stores `&`,
/// `<`, `>`, `"` and `'` as entity references; the writer emits the stored
/// string as already escaped, so the displayed text is the input with its
/// line breaks removed.
#[verifier::external_body]
fn run_add_text(r: Run, text: &str) -> (q: Run)
    ensures
        run_texts(q) == run_texts(r).push(strip_line_breaks(text@)),
{
    r.add_text(text)
}

/// Relies on `Run::size`: only the font size property changes, in
/// half-points; the texts stay.
#[verifier::external_body]
fn run_size(r: Run, size: usize) -> (q: Run)
    ensures
        run_texts(q) == run_texts(r),
{
    r.size(size)
}

/// Relies on `Run::add_break`: a text-wrapping line break is appended; the
/// texts stay.
#[verifier::external_body]
fn run_add_break(r: Run) -> (q: Run)
    ensures
        run_texts(q) == run_texts(r),
{
    r.add_break(docx_rs::BreakType::TextWrapping)
}

/// Relies on `String::from_utf8_lossy`: the result depends on the bytes
/// alone; on valid UTF-8 it is exactly the decoded characters, and invalid
/// sequences are replaced, so the call returns on every input.
#[verifier::external_body]
fn bytes_to_string(v: &Vec<u8>) -> (r: String)
    ensures
        r@ == lossy_decode(v@),
        valid_utf8(v@) ==> r@ == decode_utf8(v@),
{
    String::from_utf8_lossy(v.as_slice()).into_owned()
}

/// A table cell holding `text` at the table's font size.
fn text_cell(text: &str) -> (c: TableCell)
    ensures
        cell_texts(c) == seq![strip_line_breaks(text@)],
{
    let run = run_size(run_add_text(run_new(), text), 24);
    let p = paragraph_add_run(paragraph_new(), run);
    let c = table_cell_add_paragraph(table_cell_new(), p);
    proof {
        assert(run_texts(run) =~~= seq![strip_line_breaks(text@)]);
        assert(paragraph_texts(p) =~~= seq![strip_line_breaks(text@)]);
        assert(cell_texts(c) =~~= seq![strip_line_breaks(text@)]);
    }
    c
}

/// Renders the summary table into `doc`: one table is appended, holding the
/// header row with the three column labels and then one row per document
/// row — the file's path, its line count text and its size text — in the
/// document's order. Nothing else changes.
fn gen_table(doc: Docx, document: &ReportDocument) -> (r: Docx)
    ensures
        docx_blocks(r) == docx_blocks(doc).push(
            BlockContent::Table { rows: summary_table_model(document.rows@) },
        ),
{
    let mut header: Vec<TableCell> = Vec::new();
    header.push(text_cell("File Name"));
    header.push(text_cell("Line Count"));
    header.push(text_cell("Size (KB)"));
    let header_row = table_row_new(header);
    let mut rows: Vec<TableRow> = Vec::new();
    rows.push(header_row);
    let mut table = table_new(rows);
    proof {
        assert(row_cells(header_row) =~~= header_row_model());
        assert(table_rows(table) =~~= seq![header_row_model()]);
        assert(document.rows@.take(0).map_values(|row: SummaryRow| summary_row_model(row))
            =~= Seq::<Seq<Seq<Seq<char>>>>::empty());
        assert(table_rows(table) =~~= seq![header_row_model()] + document.rows@.take(
            0,
        ).map_values(|row: SummaryRow| summary_row_model(row)));
    }
    let mut i: usize = 0;
    while i < document.rows.len()
        invariant
            0 <= i <= document.rows@.len(),
            table_rows(table) == seq![header_row_model()] + document.rows@.take(
                i as int,
            ).map_values(|row: SummaryRow| summary_row_model(row)),
        decreases document.rows@.len() - i,
    {
        let row = &document.rows[i];
        let mut cells: Vec<TableCell> = Vec::new();
        cells.push(text_cell(row.path.as_str()));
        cells.push(text_cell(row.line_count_text.as_str()));
        cells.push(text_cell(row.size_kb_text.as_str()));
        let data_row = table_row_new(cells);
        proof {
            assert(row_cells(data_row) =~~= summary_row_model(document.rows@[i as int]));
        }
        table = table_add_row(table, data_row);
        proof {
            assert(document.rows@.take(i + 1 as int).map_values(
                |row: SummaryRow| summary_row_model(row),
            ) =~= document.rows@.take(i as int).map_values(
                |row: SummaryRow| summary_row_model(row),
            ).push(summary_row_model(document.rows@[i as int])));
            assert(table_rows(table) =~= seq![header_row_model()] + document.rows@.take(
                i + 1 as int,
            ).map_values(|row: SummaryRow| summary_row_model(row)));
        }
        i = i + 1;
    }
    proof {
        assert(document.rows@.take(document.rows@.len() as int) =~= document.rows@);
        assert(table_rows(table) == summary_table_model(document.rows@));
    }
    docx_add_table(doc, table)
}

/// Renders the body into `doc`: for each section, in order, a numbered
/// heading paragraph holding the file's path is appended, then a
/// single-cell table holding the file's lines, one text per line, in their
/// original order. Nothing else changes.
fn gen_body_with_list(doc: Docx, document: &ReportDocument) -> (r: Docx)
    ensures
        docx_blocks(r) == docx_blocks(doc) + body_blocks(document.sections@),
{
    let mut doc = doc;
    let ghost doc0_blocks = docx_blocks(doc);
    proof {
        assert(body_blocks(document.sections@.take(0)) =~= Seq::<BlockContent>::empty());
        assert(docx_blocks(doc) =~= doc0_blocks + body_blocks(document.sections@.take(0)));
    }
    let mut i: usize = 0;
    while i < document.sections.len()
        invariant
            0 <= i <= document.sections@.len(),
            docx_blocks(doc) == doc0_blocks + body_blocks(document.sections@.take(i as int)),
        decreases document.sections@.len() - i,
    {
        let section = &document.sections[i];
        let title_run = run_size(run_add_text(run_new(), section.title.as_str()), 28);
        let title = paragraph_size(
            paragraph_numbering(paragraph_add_run(paragraph_new(), title_run), 2, 0),
            32,
        );
        proof {
            assert(paragraph_texts(title) =~~= seq![
                strip_line_breaks(document.sections@[i as int].title@),
            ]);
        }
        doc = docx_add_paragraph(doc, title);
        let mut p = paragraph_new();
        let mut j: usize = 0;
        proof {
            assert(section_line_texts(section.lines@.take(0)) =~= Seq::<Seq<char>>::empty());
            assert(paragraph_texts(p) =~= section_line_texts(section.lines@.take(0)));
        }
        while j < section.lines.len()
            invariant
                0 <= j <= section.lines@.len(),
                paragraph_texts(p) == section_line_texts(section.lines@.take(j as int)),
            decreases section.lines@.len() - j,
        {
            let line = bytes_to_string(&section.lines[j]);
            let run = run_size(run_add_break(run_add_text(run_new(), line.as_str())), 24);
            proof {
                assert(run_texts(run) =~~= seq![
                    strip_line_breaks(lossy_decode(section.lines@[j as int]@)),
                ]);
            }
            p = paragraph_size(paragraph_add_run(p, run), 32);
            proof {
                assert(section_line_texts(section.lines@.take(j + 1 as int))
                    =~= section_line_texts(section.lines@.take(j as int)).push(
                    strip_line_breaks(lossy_decode(section.lines@[j as int]@)),
                ));
                assert(paragraph_texts(p) =~= section_line_texts(section.lines@.take(
                    j + 1 as int,
                )));
            }
            j = j + 1;
        }
        proof {
            assert(section.lines@.take(section.lines@.len() as int) =~= section.lines@);
        }
        let cell = table_cell_add_paragraph(table_cell_width(table_cell_new(), 10000), p);
        let mut row_cells_vec: Vec<TableCell> = Vec::new();
        row_cells_vec.push(cell);
        let one_row = table_row_new(row_cells_vec);
        let mut table_rows_vec: Vec<TableRow> = Vec::new();
        table_rows_vec.push(one_row);
        let table = table_new(table_rows_vec);
        proof {
            assert(cell_texts(cell) =~~= section_line_texts(
                document.sections@[i as int].lines@,
            ));
            assert(row_cells(one_row) =~~= seq![
                section_line_texts(document.sections@[i as int].lines@),
            ]);
            assert(table_rows(table) =~~= seq![seq![
                section_line_texts(document.sections@[i as int].lines@),
            ]]);
        }
        doc = docx_add_table(doc, table);
        proof {
            assert(document.sections@.take(i + 1 as int).drop_last() =~= document.sections@.take(
                i as int,
            ));
            assert(document.sections@.take(i + 1 as int).last()
                == document.sections@[i as int]);
            assert(docx_blocks(doc) =~= doc0_blocks + body_blocks(document.sections@.take(
                i + 1 as int,
            )));
        }
        i = i + 1;
    }
    proof {
        assert(document.sections@.take(document.sections@.len() as int)
            =~= document.sections@);
    }
    doc
}

/// The summary rows of a document built from `records` render to the same
/// table as the records themselves, and its sections to the same body
/// blocks.
proof fn lemma_rendered_models_of_records(d: ReportDocument, records: Seq<FileRecord>)
    requires
        d.rows@.len() == records.len(),
        d.sections@.len() == records.len(),
        forall|i: int| #![auto]
            0 <= i < records.len() ==> row_matches(d.rows@[i], records[i])
                && section_matches(d.sections@[i], records[i]),
    ensures
        summary_table_model(d.rows@) == records_table_model(records),
        body_blocks(d.sections@) == records_body_blocks(records),
{
    assert forall|k: int| 0 <= k < records.len() implies summary_row_model(#[trigger] d.rows@[k])
        == record_row_model(records[k]) by {
        lemma_spec_decimal_no_line_breaks(records[k].line_count as nat);
        lemma_spec_decimal_no_line_breaks(records[k].size_kb as nat);
    }
    assert(d.rows@.map_values(|row: SummaryRow| summary_row_model(row))
        =~= records.map_values(|rec: FileRecord| record_row_model(rec)));
    assert(summary_table_model(d.rows@) =~= records_table_model(records));
    lemma_body_blocks_step(d.sections@, records);
}

/// Sections that match their records, position by position, render to the
/// same body blocks.
proof fn lemma_body_blocks_step(sections: Seq<BodySection>, records: Seq<FileRecord>)
    requires
        sections.len() == records.len(),
        forall|i: int| #![auto]
            0 <= i < records.len() ==> section_matches(sections[i], records[i]),
    ensures
        body_blocks(sections) == records_body_blocks(records),
    decreases records.len(),
{
    if records.len() > 0 {
        assert(forall|i: int| #![auto]
            0 <= i < records.drop_last().len() ==> section_matches(
                sections.drop_last()[i],
                records.drop_last()[i],
            ));
        lemma_body_blocks_step(sections.drop_last(), records.drop_last());
        let s = sections.last();
        let rec = records.last();
        assert(section_matches(sections[sections.len() - 1], records[records.len() - 1]));
        assert(line_views(s.lines@) == line_views(rec.lines@));
        assert forall|k: int| 0 <= k < s.lines@.len() implies strip_line_breaks(
            lossy_decode((#[trigger] s.lines@[k])@),
        ) == strip_line_breaks(lossy_decode(rec.lines@[k]@)) by {
            assert(line_views(s.lines@)[k] == s.lines@[k]@);
            assert(line_views(rec.lines@)[k] == rec.lines@[k]@);
        }
        assert(s.lines@.len() == rec.lines@.len()) by {
            assert(line_views(s.lines@).len() == s.lines@.len());
            assert(line_views(rec.lines@).len() == rec.lines@.len());
        }
        assert(section_line_texts(s.lines@) =~= section_line_texts(rec.lines@));
        assert(section_blocks(s) =~= record_blocks(rec));
        assert(body_blocks(sections) =~= records_body_blocks(records));
    }
}

/// The report generator: the word-processing document being assembled.
pub struct ReportGen {
    doc: Docx,
}

impl ReportGen {
    /// The document this generator holds.
    pub closed spec fn spec_doc(&self) -> Docx {
        self.doc
    }

    /// Wraps an already assembled document, unchanged.
    pub fn new(doc: Docx) -> (r: ReportGen)
        ensures
            r.spec_doc() == doc,
    {
        ReportGen { doc }
    }

    /// Renders an assembled report document into a fresh word-processing
    /// document: exactly one summary table — the header row, then one row
    /// per document row, in order — followed by, per section in order, a
    /// numbered heading paragraph with the section's title and a
    /// single-cell table with the section's lines. Nothing else is added.
    pub fn from_document(document: &ReportDocument) -> (r: ReportGen)
        ensures
            docx_blocks(r.spec_doc()) == seq![
                BlockContent::Table { rows: summary_table_model(document.rows@) },
            ] + body_blocks(document.sections@),
    {
        let doc = docx_new();
        let doc = gen_table(doc, document);
        proof {
            assert(docx_blocks(doc) =~= seq![
                BlockContent::Table { rows: summary_table_model(document.rows@) },
            ]);
        }
        let doc = gen_body_with_list(doc, document);
        ReportGen { doc }
    }

    /// Assembles and renders the report of `records` into a fresh
    /// word-processing document: exactly one summary table — the header
    /// row, then one row per record holding the path and its two metrics as
    /// decimal text — followed by, per record in order, a numbered heading
    /// paragraph with the record's path and a single-cell table with the
    /// record's lines. The table precedes all body content, and nothing
    /// else is added.
    pub fn from_records(records: &Vec<FileRecord>) -> (r: ReportGen)
        ensures
            docx_blocks(r.spec_doc()) == seq![
                BlockContent::Table { rows: records_table_model(records@) },
            ] + records_body_blocks(records@),
    {
        let document = build_document(records);
        let r = ReportGen::from_document(&document);
        proof {
            lemma_rendered_models_of_records(document, records@);
        }
        r
    }

    /// Hands out the rendered word-processing document, unchanged, for
    /// serialization by the caller.
    pub fn into_docx(self) -> (d: Docx)
        ensures
            d == self.spec_doc(),
    {
        self.doc
    }
}

} // verus!
