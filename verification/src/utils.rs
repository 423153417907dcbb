//! Tables for showing requests and JSON results: what stands in each cell.
//!
//! Drawing a table is left to whoever prints it. Here the rows are made: how
//! a value is written, where its text is parted into lines, and where a long
//! line is cut.

use crate::json::{array_view, lemma_array_view, lemma_object_view, object_view, Json, JsonModel};
use crate::text::{
    cut_text, decimal, decimal_string, first_index, join, join_strings, lemma_boundary_at_ascii,
    lemma_boundary_behind_ascii, lemma_first_index, lemma_split_whole, position,
    signed_decimal, signed_decimal_string, split_on, texts,
};
use vstd::prelude::*;
use vstd::string::*;
use vstd::utf8::{
    decode_utf8, encode_utf8, encode_utf8_decode_utf8, encode_utf8_valid_utf8,
    is_char_boundary_iff_not_is_continuation_byte, is_char_boundary_start_end_of_seq,
    is_continuation_byte,
};

verus! {

/// The widest that the text of a cell gets before it is cut, in bytes.
pub const MAX_COLUMN_WIDTH: usize = 80;

/// A row of a table of two columns.
pub type Row = (String, String);

/// The views of a list of rows.
pub open spec fn rows_view(rows: Seq<Row>) -> Seq<(Seq<char>, Seq<char>)> {
    Seq::new(rows.len(), |i: int| (rows[i].0@, rows[i].1@))
}

/// Where a line of UTF-8 is cut so that at most `limit` bytes stay and no
/// character is parted: at `limit`, or at the nearest start of a character
/// before it.
pub open spec fn cut_point(bytes: Seq<u8>, limit: int) -> int
    decreases limit,
{
    if limit <= 0 {
        0
    } else if limit >= bytes.len() || !is_continuation_byte(bytes[limit]) {
        limit
    } else {
        cut_point(bytes, limit - 1)
    }
}

/// A line as it is shown: as it is where its UTF-8 has at most 80 bytes, and
/// else cut (see [`cut_point`]) with `...` behind.
pub open spec fn truncated(line: Seq<char>) -> Seq<char> {
    let bytes = encode_utf8(line);
    if bytes.len() > MAX_COLUMN_WIDTH {
        decode_utf8(bytes.take(cut_point(bytes, MAX_COLUMN_WIDTH as int))) + "..."@
    } else {
        line
    }
}

/// Cuts a line to the width of a column. A line of more than 80 bytes is cut
/// to its first 80 bytes, or to fewer where the 80th byte lies inside a
/// character, and `...` is put behind.
pub fn truncate_line(line: &str) -> (shown: String)
    ensures
        shown@ == truncated(line@),
{
    let bytes = line.as_bytes();
    if bytes.len() <= MAX_COLUMN_WIDTH {
        return line.to_owned();
    }
    let mut cut: usize = MAX_COLUMN_WIDTH;
    while cut > 0 && 0x80 <= bytes[cut] && bytes[cut] <= 0xbf
        invariant
            cut <= MAX_COLUMN_WIDTH < bytes.len(),
            cut_point(bytes@, MAX_COLUMN_WIDTH as int) == cut_point(bytes@, cut as int),
        decreases cut,
    {
        cut -= 1;
    }
    proof {
        encode_utf8_valid_utf8(line@);
        if cut > 0 {
            is_char_boundary_iff_not_is_continuation_byte(bytes@, cut as int);
        } else {
            is_char_boundary_start_end_of_seq(bytes@);
        }
    }
    let (head, _) = cut_text(line, cut);
    let mut shown = head.to_owned();
    shown.append("...");
    shown
}

/// A JSON value as the text of a cell: a string as it is, a number in
/// decimal, `null`, `true` or `false` as the word, an array as its items
/// between brackets with `, ` between them, and any object as `{...}`.
pub open spec fn format_value(value: JsonModel) -> Seq<char>
    decreases value,
{
    match value {
        JsonModel::String(text) => text,
        JsonModel::Null => "null"@,
        JsonModel::Bool(b) => if b {
            "true"@
        } else {
            "false"@
        },
        JsonModel::Unsigned(n) => decimal(n as nat),
        JsonModel::Signed(n) => signed_decimal(n as int),
        JsonModel::Decimal(text) => text,
        JsonModel::Array(items) => "["@ + join(format_values(items), ", "@) + "]"@,
        JsonModel::Object(_) => "{...}"@,
    }
}

/// The texts of the items of an array, in order.
pub open spec fn format_values(items: Seq<JsonModel>) -> Seq<Seq<char>>
    decreases items,
{
    if items.len() == 0 {
        Seq::empty()
    } else {
        format_values(items.drop_last()).push(format_value(items.last()))
    }
}

/// `format_values` keeps length and order.
pub proof fn lemma_format_values(items: Seq<JsonModel>)
    ensures
        format_values(items).len() == items.len(),
        forall|i: int|
            0 <= i < items.len() ==> (#[trigger] format_values(items)[i]) == format_value(items[i]),
    decreases items.len(),
{
    if items.len() > 0 {
        lemma_format_values(items.drop_last());
        assert(format_values(items) == format_values(items.drop_last()).push(
            format_value(items.last()),
        ));
    } else {
        assert(format_values(items) == Seq::<Seq<char>>::empty());
    }
}

/// Writes a JSON value as the text of a cell.
pub fn format_json_value(value: &Json) -> (text: String)
    ensures
        text@ == format_value(value@),
    decreases value,
{
    match value {
        Json::String(text) => text.clone(),
        Json::Null => "null".to_owned(),
        Json::Bool(b) => if *b {
            "true".to_owned()
        } else {
            "false".to_owned()
        },
        Json::Unsigned(n) => decimal_string(*n),
        Json::Signed(n) => signed_decimal_string(*n),
        Json::Decimal(text) => text.clone(),
        Json::Array(items) => {
            let mut written: Vec<String> = Vec::new();
            let mut i: usize = 0;
            proof {
                lemma_array_view(items@);
                lemma_format_values(array_view(items@));
            }
            while i < items.len()
                invariant
                    i <= items.len(),
                    written@.len() == i,
                    value == Json::Array(*items),
                    array_view(items@).len() == items@.len(),
                    forall|j: int|
                        0 <= j < items@.len() ==> (#[trigger] array_view(items@)[j]) == items@[j]@,
                    forall|j: int|
                        0 <= j < i ==> (#[trigger] written@[j])@ == format_value(items@[j]@),
                decreases items.len() - i,
            {
                proof {
                    assert(decreases_to!(value->Array_0 => (value->Array_0)[i as int]));
                }
                let text = format_json_value(&items[i]);
                written.push(text);
                i += 1;
            }
            assert(texts(written@) =~= format_values(array_view(items@)));
            let mut text = "[".to_owned();
            let inner = join_strings(&written, ", ");
            text.append(inner.as_str());
            text.append("]");
            text
        },
        Json::Object(_) => "{...}".to_owned(),
    }
}

/// A line without the carriage return at its end, where it has one.
pub open spec fn strip_return(piece: Seq<u8>) -> Seq<u8> {
    if piece.len() > 0 && piece.last() == 0x0du8 {
        piece.drop_last()
    } else {
        piece
    }
}

/// The lines of a text in UTF-8. A line ends at a line feed, or at a
/// carriage return with a line feed behind it; neither belongs to the line.
/// What stands behind the last line feed is a line as it is, unless it is
/// empty: a text that ends in a line feed has no empty line at its end, and
/// the empty text has no line.
pub open spec fn line_pieces(bytes: Seq<u8>) -> Seq<Seq<u8>> {
    let pieces = split_on(bytes, 0x0au8);
    let ended = Seq::new((pieces.len() - 1) as nat, |i: int| strip_return(pieces[i]));
    if pieces.last().len() == 0 {
        ended
    } else {
        ended.push(pieces.last())
    }
}

/// The lines of a text.
pub open spec fn lines_of(text: Seq<char>) -> Seq<Seq<char>> {
    Seq::new(
        line_pieces(encode_utf8(text)).len(),
        |i: int| decode_utf8(line_pieces(encode_utf8(text))[i]),
    )
}

/// Parts a text into its lines.
pub fn lines(text: &str) -> (parted: Vec<String>)
    ensures
        texts(parted@) == lines_of(text@),
{
    let ghost all = split_on(encode_utf8(text@), 0x0au8);
    let ghost mut done: Seq<Seq<u8>> = Seq::empty();
    let mut parted: Vec<String> = Vec::new();
    let mut rest: &str = text;
    let mut length: usize = rest.as_bytes().len();
    let mut at: usize = position(rest.as_bytes(), 0x0a);
    assert(done + split_on(encode_utf8(rest@), 0x0au8) =~= all);
    while at < length
        invariant
            length == encode_utf8(rest@).len(),
            at == first_index(encode_utf8(rest@), 0x0au8),
            at <= length,
            all == done + split_on(encode_utf8(rest@), 0x0au8),
            parted@.len() == done.len(),
            forall|j: int|
                0 <= j < done.len() ==> (#[trigger] parted@[j])@ == decode_utf8(
                    strip_return(done[j]),
                ),
        decreases encode_utf8(rest@).len(),
    {
        let ghost bytes = encode_utf8(rest@);
        proof {
            encode_utf8_valid_utf8(rest@);
            lemma_first_index(bytes, 0x0au8);
            lemma_boundary_at_ascii(bytes, at as int);
        }
        let (piece, tail) = cut_text(rest, at);
        proof {
            encode_utf8_valid_utf8(tail@);
            encode_utf8_valid_utf8(piece@);
            assert(encode_utf8(tail@)[0] == bytes[at as int]);
            lemma_boundary_behind_ascii(encode_utf8(tail@), 1);
        }
        let (_, after) = cut_text(tail, 1);
        let held = piece.as_bytes();
        let line: &str = if held.len() > 0 && held[held.len() - 1] == 0x0d {
            proof {
                lemma_boundary_at_ascii(held@, held@.len() - 1);
                assert(held@.take(held@.len() - 1) =~= held@.drop_last());
            }
            cut_text(piece, held.len() - 1).0
        } else {
            proof {
                encode_utf8_decode_utf8(piece@);
            }
            piece
        };
        assert(line@ == decode_utf8(strip_return(bytes.take(at as int))));
        proof {
            assert(encode_utf8(after@) =~= bytes.skip(at + 1));
            assert(done.push(bytes.take(at as int)) + split_on(bytes.skip(at + 1), 0x0au8) =~= done
                + split_on(bytes, 0x0au8));
            done = done.push(bytes.take(at as int));
        }
        parted.push(line.to_owned());
        rest = after;
        length = rest.as_bytes().len();
        at = position(rest.as_bytes(), 0x0a);
    }
    proof {
        let last = encode_utf8(rest@);
        lemma_split_whole(last, 0x0au8);
        assert(all =~= done.push(last));
        encode_utf8_decode_utf8(rest@);
    }
    if !rest.is_empty() {
        parted.push(rest.to_owned());
    }
    assert(texts(parted@) =~= lines_of(text@));
    parted
}

/// `n` spaces.
pub open spec fn spaces(n: nat) -> Seq<char> {
    Seq::new(n, |i: int| ' ')
}

/// The rows that show one value: one row for each line of its text, the
/// label in the first of them, and each line cut to the width of the column.
pub open spec fn value_rows(label: Seq<char>, lines: Seq<Seq<char>>) -> Seq<
    (Seq<char>, Seq<char>),
> {
    Seq::new(
        lines.len(),
        |i: int|
            (
                if i == 0 {
                    label
                } else {
                    Seq::empty()
                },
                truncated(lines[i]),
            ),
    )
}

/// The rows that show the members of an object, in order: each member under
/// its name, which is indented by `indent` spaces. A member whose text has no
/// line, such as an empty string, has no row.
pub open spec fn structure_rows(members: Seq<(Seq<char>, JsonModel)>, indent: nat) -> Seq<
    (Seq<char>, Seq<char>),
>
    decreases members.len(),
{
    if members.len() == 0 {
        Seq::empty()
    } else {
        structure_rows(members.drop_last(), indent) + value_rows(
            spaces(indent) + members.last().0,
            lines_of(format_value(members.last().1)),
        )
    }
}

/// Makes the rows that show the members of an object.
pub fn display_nested_structure(members: &Vec<(String, Json)>, indent: usize) -> (rows: Vec<Row>)
    ensures
        rows_view(rows@) == structure_rows(object_view(members@), indent as nat),
{
    let mut margin = String::new();
    let mut n: usize = 0;
    proof {
        reveal_strlit(" ");
    }
    while n < indent
        invariant
            n <= indent,
            margin@ == spaces(n as nat),
            " "@ == seq![' '],
        decreases indent - n,
    {
        margin.append(" ");
        n += 1;
        assert(margin@ =~= spaces(n as nat));
    }
    let ghost shown = object_view(members@);
    let mut rows: Vec<Row> = Vec::new();
    let mut i: usize = 0;
    proof {
        lemma_object_view(members@);
        assert(shown.take(0) =~= Seq::<(Seq<char>, JsonModel)>::empty());
        assert(rows_view(rows@) =~= structure_rows(shown.take(0), indent as nat));
    }
    while i < members.len()
        invariant
            i <= members.len(),
            margin@ == spaces(indent as nat),
            shown == object_view(members@),
            shown.len() == members@.len(),
            forall|j: int|
                0 <= j < members@.len() ==> (#[trigger] shown[j]) == (
                    members@[j].0@,
                    members@[j].1@,
                ),
            rows_view(rows@) == structure_rows(shown.take(i as int), indent as nat),
        decreases members.len() - i,
    {
        let mut label = margin.clone();
        label.append(members[i].0.as_str());
        let text = format_json_value(&members[i].1);
        let parted = lines(text.as_str());
        let ghost before = rows_view(rows@);
        let ghost expected = value_rows(label@, texts(parted@));
        let mut j: usize = 0;
        assert(rows_view(rows@) =~= before + expected.take(0));
        while j < parted.len()
            invariant
                j <= parted.len(),
                expected == value_rows(label@, texts(parted@)),
                expected.len() == parted@.len(),
                rows_view(rows@) == before + expected.take(j as int),
            decreases parted.len() - j,
        {
            let name = if j == 0 {
                label.clone()
            } else {
                String::new()
            };
            let cell = truncate_line(parted[j].as_str());
            let ghost prior = rows_view(rows@);
            rows.push((name, cell));
            proof {
                let now = rows_view(rows@);
                assert(now.len() == prior.len() + 1);
                assert forall|k: int| 0 <= k < prior.len() implies now[k] == prior[k] by {}
                assert(now[prior.len() as int] == expected[j as int]);
                assert(now =~= prior.push(expected[j as int]));
                assert(expected.take(j + 1) =~= expected.take(j as int).push(expected[j as int]));
            }
            assert(rows_view(rows@) =~= before + expected.take(j + 1));
            j += 1;
        }
        proof {
            assert(expected.take(parted@.len() as int) =~= expected);
            let next = shown.take(i + 1);
            assert(next.drop_last() =~= shown.take(i as int));
            assert(next.last() == shown[i as int]);
            assert(structure_rows(next, indent as nat) == structure_rows(
                next.drop_last(),
                indent as nat,
            ) + value_rows(
                spaces(indent as nat) + next.last().0,
                lines_of(format_value(next.last().1)),
            ));
        }
        i += 1;
    }
    assert(shown.take(members@.len() as int) =~= shown);
    rows
}

/// The rows that show a JSON result: those of its members, unindented, where
/// it is an object; none, to say so, where it is not.
pub fn display_json_result(value: &Json) -> (rows: Option<Vec<Row>>)
    ensures
        match rows {
            Some(made) => value@ is Object && rows_view(made@) == structure_rows(
                value@->Object_0,
                0,
            ),
            None => !(value@ is Object),
        },
{
    match value {
        Json::Object(members) => Some(display_nested_structure(members, 0)),
        _ => None,
    }
}

/// The rows that show the parameters of a request: a heading, and each
/// parameter with its value as it is.
pub open spec fn parameter_rows(parameters: Seq<(Seq<char>, Seq<char>)>) -> Seq<
    (Seq<char>, Seq<char>),
> {
    seq![("Parameter"@, "Value"@)] + parameters
}

/// Makes the rows that show the parameters of a request.
pub fn display_request_parameters(parameters: &Vec<(String, String)>) -> (rows: Vec<Row>)
    ensures
        rows_view(rows@) == parameter_rows(rows_view(parameters@)),
{
    let mut rows: Vec<Row> = Vec::new();
    rows.push(("Parameter".to_owned(), "Value".to_owned()));
    let mut i: usize = 0;
    assert(rows_view(rows@) =~= seq![("Parameter"@, "Value"@)] + rows_view(parameters@).take(0));
    while i < parameters.len()
        invariant
            i <= parameters.len(),
            rows_view(rows@) == seq![("Parameter"@, "Value"@)] + rows_view(parameters@).take(
                i as int,
            ),
        decreases parameters.len() - i,
    {
        let ghost prior = rows_view(rows@);
        let ghost given = rows_view(parameters@);
        rows.push((parameters[i].0.clone(), parameters[i].1.clone()));
        proof {
            let now = rows_view(rows@);
            assert(now.len() == prior.len() + 1);
            assert forall|k: int| 0 <= k < prior.len() implies now[k] == prior[k] by {}
            assert(now[prior.len() as int] == given[i as int]);
            assert(now =~= prior.push(given[i as int]));
            assert(given.take(i + 1) =~= given.take(i as int).push(given[i as int]));
        }
        assert(rows_view(rows@) =~= seq![("Parameter"@, "Value"@)] + rows_view(
            parameters@,
        ).take(i + 1));
        i += 1;
    }
    assert(rows_view(parameters@).take(parameters@.len() as int) =~= rows_view(parameters@));
    rows
}

} // verus!
