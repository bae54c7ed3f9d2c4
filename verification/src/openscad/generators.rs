//! Writes a matrix of counts as an OpenSCAD data literal.

use vstd::prelude::*;
use crate::matrix::matrix_view;
use crate::text::{decimal, push_decimal};

verus! {

/// The cells of a row as decimal numerals separated by a comma and a space.
pub open spec fn cells_text(row: Seq<u32>) -> Seq<char>
    decreases row.len(),
{
    if row.len() == 0 {
        Seq::empty()
    } else if row.len() == 1 {
        decimal(row[0] as nat)
    } else {
        cells_text(row.drop_last()) + ", "@ + decimal(row.last() as nat)
    }
}

/// A row as an OpenSCAD vector: its cells between square brackets.
pub open spec fn row_text(row: Seq<u32>) -> Seq<char> {
    "["@ + cells_text(row) + "]"@
}

/// The rows of a matrix, one per line, each indented by four spaces and
/// followed by a comma.
pub open spec fn rows_text(rows: Seq<Seq<u32>>) -> Seq<char>
    decreases rows.len(),
{
    if rows.len() == 0 {
        Seq::empty()
    } else {
        rows_text(rows.drop_last()) + "    "@ + row_text(rows.last()) + ",\n"@
    }
}

/// A data block: two comment lines that tell how to include the file named
/// `file_stem`, then the assignment of the matrix to `variable`.
pub open spec fn data_block_text(
    file_stem: Seq<char>,
    variable: Seq<char>,
    rows: Seq<Seq<u32>>,
) -> Seq<char> {
    "// To be used in other OpenScad source file with\n"@ + "// include <"@ + file_stem
        + ".scad>\n"@ + variable + " = [\n"@ + rows_text(rows) + "];\n"@
}

/// The assignments of the user's handle and of the date span to the two
/// text variables of the model.
pub open spec fn labels_text(user_handle: Seq<char>, date_str: Seq<char>) -> Seq<char> {
    "ghHandleTxt = \""@ + user_handle + "\";\n"@ + "spanTxt = \""@ + date_str + "\";\n"@
}

/// The whole data source: the block that assigns the matrix to
/// `rawActivity`, two empty lines, and the two labels.
pub open spec fn data_source_text(
    user_handle: Seq<char>,
    date_str: Seq<char>,
    rows: Seq<Seq<u32>>,
) -> Seq<char> {
    data_block_text("activity-data"@, "rawActivity"@, rows) + "\n"@ + "\n"@ + labels_text(
        user_handle,
        date_str,
    )
}

fn push_row(out: &mut String, row: &Vec<u32>)
    ensures
        final(out)@ == old(out)@ + row_text(row@),
{
    out.push_str("[");
    let mut i: usize = 0;
    while i < row.len()
        invariant
            i <= row.len(),
            out@ == old(out)@ + "["@ + cells_text(row@.take(i as int)),
        decreases row.len() - i,
    {
        if i > 0 {
            out.push_str(", ");
        }
        push_decimal(out, row[i] as u64);
        proof {
            let before = row@.take(i as int);
            let now = row@.take(i + 1);
            assert(now.drop_last() =~= before);
            assert(now.last() == row@[i as int]);
            assert(out@ =~= old(out)@ + "["@ + cells_text(now));
        }
        i += 1;
    }
    out.push_str("]");
    proof {
        assert(row@.take(row.len() as int) =~= row@);
        assert(out@ =~= old(out)@ + row_text(row@));
    }
}

fn push_rows(out: &mut String, data: &Vec<Vec<u32>>)
    ensures
        final(out)@ == old(out)@ + rows_text(matrix_view(*data)),
{
    let ghost rows = matrix_view(*data);
    let mut i: usize = 0;
    while i < data.len()
        invariant
            i <= data.len(),
            rows == matrix_view(*data),
            out@ == old(out)@ + rows_text(rows.take(i as int)),
        decreases data.len() - i,
    {
        let ghost start = out@;
        out.push_str("    ");
        push_row(out, &data[i]);
        out.push_str(",\n");
        proof {
            let before = rows.take(i as int);
            let now = rows.take(i + 1);
            assert(now.drop_last() =~= before);
            assert(now.last() == data@[i as int]@);
            assert(out@ =~= old(out)@ + rows_text(now));
        }
        i += 1;
    }
    proof {
        assert(rows.take(data.len() as int) =~= rows);
    }
}

fn push_data_block(out: &mut String, file_stem: &str, variable: &str, data: &Vec<Vec<u32>>)
    ensures
        final(out)@ == old(out)@ + data_block_text(file_stem@, variable@, matrix_view(*data)),
{
    out.push_str("// To be used in other OpenScad source file with\n");
    out.push_str("// include <");
    out.push_str(file_stem);
    out.push_str(".scad>\n");
    out.push_str(variable);
    out.push_str(" = [\n");
    push_rows(out, data);
    out.push_str("];\n");
    proof {
        assert(out@ =~= old(out)@ + data_block_text(file_stem@, variable@, matrix_view(*data)));
    }
}

/// Writes `data` as an OpenSCAD file that assigns the matrix to a variable
/// called `name`, under a comment that tells how to include `name.scad`.
pub fn generate_matrix_source(name: String, data: Vec<Vec<u32>>) -> (source: String)
    ensures
        source@ == data_block_text(name@, name@, matrix_view(data)),
{
    let mut builder = String::new();
    push_data_block(&mut builder, name.as_str(), name.as_str(), &data);
    proof {
        assert(builder@ =~= data_block_text(name@, name@, matrix_view(data)));
    }
    builder
}

/// Writes the activity matrix and its two labels as the OpenSCAD data file
/// of the trophy model: the matrix as `rawActivity`, the user's handle as
/// `ghHandleTxt` and the date span as `spanTxt`.
pub fn generate_data_source(
    user_handle: String,
    date_str: String,
    activity_data: Vec<Vec<u32>>,
) -> (source: String)
    ensures
        source@ == data_source_text(user_handle@, date_str@, matrix_view(activity_data)),
{
    let mut builder = String::new();
    push_data_block(&mut builder, "activity-data", "rawActivity", &activity_data);
    builder.push_str("\n");
    builder.push_str("\n");
    builder.push_str("ghHandleTxt = \"");
    builder.push_str(user_handle.as_str());
    builder.push_str("\";\n");
    builder.push_str("spanTxt = \"");
    builder.push_str(date_str.as_str());
    builder.push_str("\";\n");
    proof {
        assert(builder@ =~= data_source_text(
            user_handle@,
            date_str@,
            matrix_view(activity_data),
        ));
    }
    builder
}

} // verus!
