//! The in-memory report document: a summary table with one row per file and
//! a body with one section per file, built in one pass and in one order, so
//! that the table and the body always list the same files.

use crate::metrics::line_views;
use crate::metrics::spec_line_count;
use crate::metrics::spec_size_kb;
use crate::metrics::spec_split_lines;
use crate::metrics::line_count;
use crate::metrics::size_kb;
use crate::metrics::split_lines;
use vstd::prelude::*;

verus! {

/// One matched file: its path, its metrics, and its content split into
/// lines.
pub struct FileRecord {
    /// The file's path as handed to the library.
    pub path: String,
    /// The number of line segments of the content.
    pub line_count: usize,
    /// The content's size in kilobytes, rounded down.
    pub size_kb: usize,
    /// The content's lines, in order, without the newline separators.
    pub lines: Vec<Vec<u8>>,
}

impl FileRecord {
    /// Builds the record of one file from its path and its content bytes:
    /// the line count and size are the metrics of `content`, and the lines
    /// are its newline-separated segments.
    pub fn from_content(path: String, content: &Vec<u8>) -> (r: FileRecord)
        requires
            content@.len() < usize::MAX,
        ensures
            r.path@ == path@,
            r.line_count == spec_line_count(content@),
            r.size_kb == spec_size_kb(content@.len() as nat),
            line_views(r.lines@) == spec_split_lines(content@),
    {
        let lc = line_count(content);
        let kb = size_kb(content.len());
        let lines = split_lines(content);
        FileRecord { path, line_count: lc, size_kb: kb, lines }
    }
}

/// One data row of the summary table: the file's path and its metrics
/// rendered as text.
pub struct SummaryRow {
    /// The file's path.
    pub path: String,
    /// The line count in decimal digits.
    pub line_count_text: String,
    /// The size in kilobytes in decimal digits.
    pub size_kb_text: String,
}

/// One body section: the file's path as its title and its content line by
/// line.
pub struct BodySection {
    /// The file's path.
    pub title: String,
    /// The file's lines, in order.
    pub lines: Vec<Vec<u8>>,
}

/// The assembled report: the summary table's data rows and the body's
/// sections, in one shared order.
pub struct ReportDocument {
    /// The summary table's data rows, one per file, in discovery order.
    pub rows: Vec<SummaryRow>,
    /// The body's sections, one per file, in the same order.
    pub sections: Vec<BodySection>,
}

/// A document is aligned when its table and its body list the same files in
/// the same order: equally many rows and sections, and the row and the
/// section at each position name the same path.
pub open spec fn aligned(d: ReportDocument) -> bool {
    &&& d.rows@.len() == d.sections@.len()
    &&& forall|i: int|
        0 <= i < d.rows@.len() ==> d.rows@[i].path@ == d.sections@[i].title@
}

/// The decimal digit character of `n`'s lowest digit.
pub open spec fn decimal_digit(n: nat) -> char {
    ((48 + (n % 10)) as u8) as char
}

/// The decimal digits of `n`, most significant first, without leading
/// zeros; zero itself is the single digit `0`.
pub open spec fn spec_decimal(n: nat) -> Seq<char>
    decreases n,
{
    if n < 10 {
        seq![decimal_digit(n)]
    } else {
        spec_decimal(n / 10).push(decimal_digit(n))
    }
}

/// Relies on `usize`'s `Display` implementation, through `ToString`: the
/// result is the value's decimal digits, most significant first, with no
/// sign and no leading zeros.
#[verifier::external_body]
fn usize_to_string(n: usize) -> (r: String)
    ensures
        r@ == spec_decimal(n as nat),
{
    n.to_string()
}

/// Copies a byte vector.
fn clone_bytes(v: &Vec<u8>) -> (r: Vec<u8>)
    ensures
        r@ == v@,
{
    let mut r: Vec<u8> = Vec::new();
    let mut i: usize = 0;
    while i < v.len()
        invariant
            0 <= i <= v@.len(),
            r@ == v@.take(i as int),
        decreases v@.len() - i,
    {
        r.push(v[i]);
        proof {
            assert(r@ =~= v@.take(i + 1 as int));
        }
        i = i + 1;
    }
    proof {
        assert(v@.take(v@.len() as int) =~= v@);
    }
    r
}

/// Copies a sequence of lines.
fn clone_lines(v: &Vec<Vec<u8>>) -> (r: Vec<Vec<u8>>)
    ensures
        line_views(r@) == line_views(v@),
        r@.len() == v@.len(),
{
    let mut r: Vec<Vec<u8>> = Vec::new();
    let mut i: usize = 0;
    while i < v.len()
        invariant
            0 <= i <= v@.len(),
            r@.len() == i,
            forall|j: int| 0 <= j < i ==> r@[j]@ == v@[j]@,
        decreases v@.len() - i,
    {
        r.push(clone_bytes(&v[i]));
        i = i + 1;
    }
    proof {
        assert(line_views(r@) =~= line_views(v@));
    }
    r
}

/// Accumulates the report document row by row and section by section; the
/// construction is append-only and single-pass, and the finished document is
/// read afterwards, never changed.
pub struct ReportBuilder {
    rows: Vec<SummaryRow>,
    sections: Vec<BodySection>,
}

impl ReportBuilder {
    /// The table rows appended so far.
    pub closed spec fn spec_rows(&self) -> Seq<SummaryRow> {
        self.rows@
    }

    /// The body sections appended so far.
    pub closed spec fn spec_sections(&self) -> Seq<BodySection> {
        self.sections@
    }

    /// A fresh builder holds no rows and no sections.
    pub fn new() -> (r: ReportBuilder)
        ensures
            r.spec_rows() == Seq::<SummaryRow>::empty(),
            r.spec_sections() == Seq::<BodySection>::empty(),
    {
        ReportBuilder { rows: Vec::new(), sections: Vec::new() }
    }

    /// Appends one data row to the summary table.
    pub fn add_table_row(&mut self, row: SummaryRow)
        ensures
            final(self).spec_rows() == old(self).spec_rows().push(row),
            final(self).spec_sections() == old(self).spec_sections(),
    {
        self.rows.push(row);
    }

    /// Appends one section to the body.
    pub fn add_body_section(&mut self, section: BodySection)
        ensures
            final(self).spec_rows() == old(self).spec_rows(),
            final(self).spec_sections() == old(self).spec_sections().push(section),
    {
        self.sections.push(section);
    }

    /// Closes the builder and hands out the document exactly as accumulated.
    pub fn finalize(self) -> (d: ReportDocument)
        ensures
            d.rows@ == self.spec_rows(),
            d.sections@ == self.spec_sections(),
    {
        ReportDocument { rows: self.rows, sections: self.sections }
    }
}

/// The summary row that belongs to `rec`: its path, and its metrics as
/// decimal text.
pub open spec fn row_matches(row: SummaryRow, rec: FileRecord) -> bool {
    &&& row.path@ == rec.path@
    &&& row.line_count_text@ == spec_decimal(rec.line_count as nat)
    &&& row.size_kb_text@ == spec_decimal(rec.size_kb as nat)
}

/// The body section that belongs to `rec`: its path as the title and its
/// lines in order.
pub open spec fn section_matches(section: BodySection, rec: FileRecord) -> bool {
    &&& section.title@ == rec.path@
    &&& line_views(section.lines@) == line_views(rec.lines@)
}

/// Assembles the report document of `records`: one table row and one body
/// section per record, both in the records' order, the row holding the
/// path and the metrics as decimal text, the section holding the path and
/// the content lines.
pub fn build_document(records: &Vec<FileRecord>) -> (d: ReportDocument)
    ensures
        d.rows@.len() == records@.len(),
        d.sections@.len() == records@.len(),
        forall|i: int| #![auto]
            0 <= i < records@.len() ==> row_matches(d.rows@[i], records@[i])
                && section_matches(d.sections@[i], records@[i]),
        aligned(d),
{
    let mut b = ReportBuilder::new();
    let mut i: usize = 0;
    while i < records.len()
        invariant
            0 <= i <= records@.len(),
            b.spec_rows().len() == i,
            b.spec_sections().len() == i,
            forall|j: int| #![auto]
                0 <= j < i ==> row_matches(b.spec_rows()[j], records@[j])
                    && section_matches(b.spec_sections()[j], records@[j]),
        decreases records@.len() - i,
    {
        let rec = &records[i];
        let row = SummaryRow {
            path: rec.path.clone(),
            line_count_text: usize_to_string(rec.line_count),
            size_kb_text: usize_to_string(rec.size_kb),
        };
        let section = BodySection { title: rec.path.clone(), lines: clone_lines(&rec.lines) };
        let ghost rows_before = b.spec_rows();
        let ghost sections_before = b.spec_sections();
        b.add_table_row(row);
        b.add_body_section(section);
        proof {
            assert(b.spec_rows() == rows_before.push(row));
            assert(b.spec_sections() == sections_before.push(section));
            assert(row_matches(row, records@[i as int]));
            assert(section_matches(section, records@[i as int]));
            assert forall|j: int| #![auto]
                0 <= j < i + 1 implies row_matches(b.spec_rows()[j], records@[j])
                && section_matches(b.spec_sections()[j], records@[j]) by {
                if j < i {
                    assert(b.spec_rows()[j] == rows_before[j]);
                    assert(b.spec_sections()[j] == sections_before[j]);
                } else {
                    assert(b.spec_rows()[j] == row);
                    assert(b.spec_sections()[j] == section);
                }
            }
        }
        i = i + 1;
    }
    b.finalize()
}

/// What one summary row shows: path, line count text, size text.
pub open spec fn row_view(row: SummaryRow) -> (Seq<char>, Seq<char>, Seq<char>) {
    (row.path@, row.line_count_text@, row.size_kb_text@)
}

/// What one body section shows: title and lines.
pub open spec fn section_view(section: BodySection) -> (Seq<char>, Seq<Seq<u8>>) {
    (section.title@, line_views(section.lines@))
}

/// What one record holds, as plain values: path, metrics and lines.
pub open spec fn record_view(rec: FileRecord) -> (Seq<char>, nat, nat, Seq<Seq<u8>>) {
    (rec.path@, rec.line_count as nat, rec.size_kb as nat, line_views(rec.lines@))
}

/// The determinism law: two documents assembled from record lists that hold
/// the same paths, the same metrics and the same lines show identical
/// summary tables and identical bodies. Re-running the pipeline over an
/// unchanged input therefore reproduces the same document contents.
pub proof fn lemma_report_deterministic(
    d1: ReportDocument,
    records1: Seq<FileRecord>,
    d2: ReportDocument,
    records2: Seq<FileRecord>,
)
    requires
        d1.rows@.len() == records1.len(),
        d1.sections@.len() == records1.len(),
        forall|i: int| #![auto]
            0 <= i < records1.len() ==> row_matches(d1.rows@[i], records1[i])
                && section_matches(d1.sections@[i], records1[i]),
        d2.rows@.len() == records2.len(),
        d2.sections@.len() == records2.len(),
        forall|i: int| #![auto]
            0 <= i < records2.len() ==> row_matches(d2.rows@[i], records2[i])
                && section_matches(d2.sections@[i], records2[i]),
        records1.map_values(|r: FileRecord| record_view(r)) == records2.map_values(
            |r: FileRecord| record_view(r),
        ),
    ensures
        d1.rows@.map_values(|row: SummaryRow| row_view(row)) == d2.rows@.map_values(
            |row: SummaryRow| row_view(row),
        ),
        d1.sections@.map_values(|s: BodySection| section_view(s)) == d2.sections@.map_values(
            |s: BodySection| section_view(s),
        ),
{
    let v1 = records1.map_values(|r: FileRecord| record_view(r));
    let v2 = records2.map_values(|r: FileRecord| record_view(r));
    assert(v1.len() == records1.len());
    assert(v2.len() == records2.len());
    assert(records1.len() == records2.len());
    assert forall|i: int| 0 <= i < records1.len() implies record_view(#[trigger] records1[i])
        == record_view(records2[i]) by {
        assert(v1[i] == v2[i]);
    }
    assert forall|i: int| 0 <= i < records1.len() implies row_view(#[trigger] d1.rows@[i])
        == row_view(d2.rows@[i]) by {
        assert(row_matches(d1.rows@[i], records1[i]));
        assert(row_matches(d2.rows@[i], records2[i]));
        assert(record_view(records1[i]) == record_view(records2[i]));
    }
    assert forall|i: int| 0 <= i < records1.len() implies section_view(
        #[trigger] d1.sections@[i],
    ) == section_view(d2.sections@[i]) by {
        assert(section_matches(d1.sections@[i], records1[i]));
        assert(section_matches(d2.sections@[i], records2[i]));
        assert(record_view(records1[i]) == record_view(records2[i]));
    }
    assert(d1.rows@.map_values(|row: SummaryRow| row_view(row)) =~= d2.rows@.map_values(
        |row: SummaryRow| row_view(row),
    ));
    assert(d1.sections@.map_values(|s: BodySection| section_view(s)) =~= d2.sections@.map_values(
        |s: BodySection| section_view(s),
    ));
}

/// The table-and-body law: a document assembled from any record list is
/// aligned, so every file in the summary table has its body section at the
/// same position and with the same path, and the body holds no section
/// without its table row.
pub proof fn lemma_document_aligned(d: ReportDocument, records: Seq<FileRecord>)
    requires
        d.rows@.len() == records.len(),
        d.sections@.len() == records.len(),
        forall|i: int|
            0 <= i < records.len() ==> (#[trigger] d.rows@[i]).path@ == records[i].path@,
        forall|i: int|
            0 <= i < records.len() ==> (#[trigger] d.sections@[i]).title@
                == records[i].path@,
    ensures
        aligned(d),
{
}

} // verus!
