//! The conversion of a translation table into gettext catalogs.

use vstd::prelude::*;

use crate::po::{block, language_preamble, language_preamble_of, message_block, template_preamble, template_preamble_of};
use crate::table::{
    csv_rows, first_overlong, has_identifier, header_width, language_count, read_rows, row_fits, table_view,
    well_formed, QUOTE_ESCAPE,
};

verus! {

/// One file to write: its name inside the output directory and its text.
pub struct OutputFile {
    pub name: String,
    pub contents: String,
}

impl View for OutputFile {
    type V = (Seq<char>, Seq<char>);

    open spec fn view(&self) -> (Seq<char>, Seq<char>) {
        (self.name@, self.contents@)
    }
}

/// Everything one conversion writes: the template, and one catalog per
/// language column in header order.
pub struct Catalog {
    pub template: OutputFile,
    pub languages: Vec<OutputFile>,
}

/// Why a conversion failed.
#[derive(Debug)]
pub enum ConvertError {
    /// csv could not read the input.
    Input(csv::Error),
    /// The record at this row of the table (the header is row 0) has more
    /// cells than the header.
    Format { row: usize },
}

/// The template's messages for records `1..n`: one block per record with an
/// identifier, in row order, each with an empty translation.
pub open spec fn template_entries(t: Seq<Seq<Seq<char>>>, n: nat) -> Seq<char>
    decreases n,
{
    if n <= 1 {
        Seq::empty()
    } else {
        template_entries(t, (n - 1) as nat) + if has_identifier(t[n - 1]) {
            block(t[n - 1][0], Seq::empty())
        } else {
            Seq::empty()
        }
    }
}

/// The messages of language column `col` for records `1..n`: one block per
/// record with an identifier and a cell in that column, in row order.
pub open spec fn language_entries(t: Seq<Seq<Seq<char>>>, col: int, n: nat) -> Seq<char>
    decreases n,
{
    if n <= 1 {
        Seq::empty()
    } else {
        language_entries(t, col, (n - 1) as nat) + if has_identifier(t[n - 1]) && col
            < t[n - 1].len() {
            block(t[n - 1][0], t[n - 1][col])
        } else {
            Seq::empty()
        }
    }
}

/// The template file of table `t`.
pub open spec fn template_file(t: Seq<Seq<Seq<char>>>, project: Seq<char>) -> (
    Seq<char>,
    Seq<char>,
) {
    ("template.pot"@, template_preamble_of(project) + template_entries(t, t.len()))
}

/// The catalog of the `i`-th language column of table `t`, named after its
/// header cell.
pub open spec fn language_file(t: Seq<Seq<Seq<char>>>, project: Seq<char>, i: int) -> (
    Seq<char>,
    Seq<char>,
) {
    let language = t[0][i + 1];
    (
        language + ".po"@,
        language_preamble_of(project, language) + language_entries(t, i + 1, t.len()),
    )
}

/// `c` holds exactly the files converted from table `t`.
pub open spec fn catalog_of(c: Catalog, t: Seq<Seq<Seq<char>>>, project: Seq<char>) -> bool {
    &&& c.template@ == template_file(t, project)
    &&& c.languages.len() == language_count(t)
    &&& forall|i: int| 0 <= i < c.languages.len() ==> c.languages[i]@ == language_file(t, project, i)
}

/// What converting table `t` gives: the catalog where every record fits under
/// the header, else the first record that does not.
pub open spec fn table_outcome(
    t: Seq<Seq<Seq<char>>>,
    project: Seq<char>,
    r: Result<Catalog, ConvertError>,
) -> bool {
    match r {
        Ok(c) => well_formed(t) && catalog_of(c, t, project),
        Err(ConvertError::Format { row }) => first_overlong(t, row as int),
        Err(ConvertError::Input(_)) => false,
    }
}

/// What converting the bytes `input` gives: an input error where csv cannot
/// read them, else the outcome for the rows it reads.
pub open spec fn input_outcome(
    input: Seq<u8>,
    project: Seq<char>,
    r: Result<Catalog, ConvertError>,
) -> bool {
    match csv_rows(input, QUOTE_ESCAPE) {
        None => r matches Err(ConvertError::Input(_)),
        Some(t) => table_outcome(t, project, r),
    }
}

fn template_text(rows: &Vec<Vec<String>>, project: &str) -> (r: String)
    ensures
        r@ == template_file(table_view(rows@), project@).1,
{
    let ghost t = table_view(rows@);
    let mut text = template_preamble(project);
    let mut k: usize = 1;
    while k < rows.len()
        invariant
            1 <= k,
            k <= rows.len() || k == 1,
            t == table_view(rows@),
            text@ == template_preamble_of(project@) + template_entries(t, k as nat),
        decreases rows.len() - k,
    {
        let row = &rows[k];
        if row.len() > 0 && !row[0].as_str().is_empty() {
            let entry = message_block(row[0].as_str(), "");
            proof {
                reveal_strlit("");
            }
            text.append(entry.as_str());
        }
        proof {
            assert(t[k as int] == row@.map_values(|cell: String| cell@));
        }
        k = k + 1;
    }
    text
}

fn language_text(rows: &Vec<Vec<String>>, project: &str, col: usize) -> (r: String)
    requires
        0 < col < header_width(table_view(rows@)),
    ensures
        r@ == language_file(table_view(rows@), project@, col - 1).1,
{
    let ghost t = table_view(rows@);
    let mut text = language_preamble(project, rows[0][col].as_str());
    let mut k: usize = 1;
    while k < rows.len()
        invariant
            1 <= k <= rows.len(),
            0 < col < header_width(t),
            t == table_view(rows@),
            text@ == language_preamble_of(project@, t[0][col as int]) + language_entries(
                t,
                col as int,
                k as nat,
            ),
        decreases rows.len() - k,
    {
        let row = &rows[k];
        if row.len() > 0 && !row[0].as_str().is_empty() && col < row.len() {
            let entry = message_block(row[0].as_str(), row[col].as_str());
            text.append(entry.as_str());
        }
        proof {
            assert(t[k as int] == row@.map_values(|cell: String| cell@));
        }
        k = k + 1;
    }
    text
}

/// Finds the first record with more cells than the header, if any.
fn find_overlong(rows: &Vec<Vec<String>>) -> (r: Option<usize>)
    ensures
        match r {
            Some(k) => first_overlong(table_view(rows@), k as int),
            None => well_formed(table_view(rows@)),
        },
{
    let ghost t = table_view(rows@);
    let width: usize = if rows.len() == 0 {
        0
    } else {
        rows[0].len()
    };
    let mut k: usize = 1;
    while k < rows.len()
        invariant
            1 <= k,
            k <= rows.len() || k == 1,
            t == table_view(rows@),
            width == header_width(t),
            forall|j: int| 1 <= j < k ==> row_fits(t, j),
        decreases rows.len() - k,
    {
        let row = &rows[k];
        proof {
            assert(t[k as int] == row@.map_values(|cell: String| cell@));
        }
        if row.len() > 0 && !row[0].as_str().is_empty() && row.len() > width {
            return Some(k);
        }
        k = k + 1;
    }
    None
}

/// Converts a table whose row 0 is the header. Fails with `Format` at the
/// first record that has more cells than the header; otherwise returns the
/// template and one catalog per language column, named after the column's
/// header cell.
pub fn convert_table(rows: &Vec<Vec<String>>, project: &str) -> (r: Result<Catalog, ConvertError>)
    ensures
        table_outcome(table_view(rows@), project@, r),
{
    let ghost t = table_view(rows@);
    if let Some(row) = find_overlong(rows) {
        return Err(ConvertError::Format { row });
    }
    let template = OutputFile { name: String::from_str("template.pot"), contents: template_text(rows, project) };
    let width: usize = if rows.len() == 0 {
        0
    } else {
        rows[0].len()
    };
    let mut languages: Vec<OutputFile> = Vec::new();
    let mut col: usize = 1;
    while col < width
        invariant
            1 <= col,
            col <= width || col == 1,
            t == table_view(rows@),
            width == header_width(t),
            languages.len() == col - 1,
            forall|i: int| 0 <= i < languages.len() ==> languages[i]@ == language_file(t, project@, i),
        decreases width - col,
    {
        let mut name = rows[0][col].clone();
        name.append(".po");
        let contents = language_text(rows, project, col);
        languages.push(OutputFile { name, contents });
        col = col + 1;
    }
    Ok(Catalog { template, languages })
}

/// Reads `input` as comma-separated rows and converts them as `convert_table`
/// does; fails with `Input` where csv cannot read the bytes.
pub fn convert(input: &[u8], project: &str) -> (r: Result<Catalog, ConvertError>)
    ensures
        input_outcome(input@, project@, r),
{
    match read_rows(input, QUOTE_ESCAPE) {
        Ok(rows) => convert_table(&rows, project),
        Err(e) => Err(ConvertError::Input(e)),
    }
}

} // verus!
