use crate::text::{chars_of, lines, pieces, split, split_lines, text_of, texts};
use vstd::prelude::*;

verus! {

/// The texts of a list of rows.
pub open spec fn row_texts(rows: Seq<(String, String)>) -> Seq<(Seq<char>, Seq<char>)> {
    Seq::new(rows.len(), |i: int| (rows[i].0@, rows[i].1@))
}

/// Whether a line holds a time and an occupancy: two fields at least, with a
/// comma between them.
pub open spec fn is_row(line: Seq<char>) -> bool {
    pieces(line, ',').len() >= 2
}

/// The time and the occupancy that a line holds: its first two fields.
pub open spec fn row_of(line: Seq<char>) -> (Seq<char>, Seq<char>) {
    (pieces(line, ',')[0], pieces(line, ',')[1])
}

/// The rows that the output of a forecasting program holds, one for each line;
/// `None` where a line is no row.
pub open spec fn output_rows(output: Seq<char>) -> Option<Seq<(Seq<char>, Seq<char>)>> {
    let list = lines(output);
    if forall|i: int| 0 <= i < list.len() ==> is_row(#[trigger] list[i]) {
        Some(Seq::new(list.len(), |i: int| row_of(list[i])))
    } else {
        None
    }
}

/// Reads the output of a forecasting program: one row for each line, each a
/// time and an occupancy as they are written. A field after the second is
/// passed over.
pub fn read_output(output: &str) -> (rows: Option<Vec<(String, String)>>)
    ensures
        match output_rows(output@) {
            Some(expected) => rows is Some && row_texts(rows->0@) == expected,
            None => rows is None,
        },
{
    let chars: Vec<char> = chars_of(output);
    let list: Vec<Vec<char>> = split_lines(&chars);
    let mut rows: Vec<(String, String)> = Vec::new();
    let mut i: usize = 0;
    while i < list.len()
        invariant
            i <= list.len(),
            texts(list@) == lines(output@),
            rows.len() == i,
            forall|j: int| 0 <= j < i ==> is_row(#[trigger] lines(output@)[j]),
            forall|j: int|
                0 <= j < i ==> ((#[trigger] rows[j]).0@, rows[j].1@) == row_of(lines(output@)[j]),
        decreases list.len() - i,
    {
        assert(texts(list@)[i as int] == list[i as int]@);
        let fields: Vec<Vec<char>> = split(&list[i], ',');
        if fields.len() < 2 {
            return None;
        }
        rows.push((text_of(&fields[0]), text_of(&fields[1])));
        i += 1;
    }
    Some(rows)
}

} // verus!
