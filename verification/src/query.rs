//! Query strings, written and read plainly.
//!
//! A query is written as `name=value` fields with `&` between them, every
//! name and value as it stands: nothing is percent-encoded. The reading
//! defined here is the plain one to match: it leaves the fragment aside,
//! parts the query at `&` and each field at its first `=`, and decodes
//! nothing. Writing and reading undo each other wherever no name or value
//! holds a character that parts. A reader of URLs by the URL standard does
//! more than the plain reading: it drops tabs and line breaks and decodes
//! `+` and percent escapes. Of a value that holds none of these it reads
//! what the plain reading reads (see [`reads_as_written`]).

use crate::http::{field_value, form_view};
use crate::text::{
    first_index, join, join_strings, lemma_first_index, lemma_first_index_is, lemma_occurs,
    lemma_split_step, lemma_split_whole, occurs, split_on, texts,
};
use vstd::prelude::*;
use vstd::string::*;

verus! {

/// One field as it is written: the name, `=`, the value.
pub open spec fn field_text(field: (Seq<char>, Seq<char>)) -> Seq<char> {
    field.0 + seq!['='] + field.1
}

/// The fields as they are written, in order.
pub open spec fn field_texts(fields: Seq<(Seq<char>, Seq<char>)>) -> Seq<Seq<char>> {
    Seq::new(fields.len(), |i: int| field_text(fields[i]))
}

/// The query that holds `fields`: each as `name=value`, with `&` between
/// neighbours.
pub open spec fn query_string(fields: Seq<(Seq<char>, Seq<char>)>) -> Seq<char> {
    join(field_texts(fields), seq!['&'])
}

/// Writes `fields` as a query.
pub fn write_query(fields: &Vec<(String, String)>) -> (query: String)
    ensures
        query@ == query_string(form_view(fields@)),
{
    let mut written: Vec<String> = Vec::new();
    let mut i: usize = 0;
    proof {
        reveal_strlit("=");
        reveal_strlit("&");
    }
    while i < fields.len()
        invariant
            i <= fields.len(),
            written@.len() == i,
            "="@ == seq!['='],
            forall|j: int|
                0 <= j < i ==> (#[trigger] written@[j])@ == field_text(form_view(fields@)[j]),
        decreases fields.len() - i,
    {
        let mut text = fields[i].0.clone();
        text.append("=");
        text.append(fields[i].1.as_str());
        written.push(text);
        i += 1;
    }
    assert(texts(written@) =~= field_texts(form_view(fields@)));
    assert("&"@ =~= seq!['&']);
    join_strings(&written, "&")
}

/// The name and the value of a field as it is read: what stands before its
/// first `=` and what stands after; a field without `=` is a name with an
/// empty value.
pub open spec fn read_field(text: Seq<char>) -> (Seq<char>, Seq<char>) {
    let at = first_index(text, '=');
    if 0 <= at < text.len() {
        (text.take(at), text.skip(at + 1))
    } else {
        (text, Seq::empty())
    }
}

/// The fields of a query as it is read: none for the empty query, else one
/// for each piece between `&`s.
pub open spec fn query_fields(query: Seq<char>) -> Seq<(Seq<char>, Seq<char>)> {
    if query.len() == 0 {
        Seq::empty()
    } else {
        Seq::new(
            split_on(query, '&').len(),
            |i: int| read_field(split_on(query, '&')[i]),
        )
    }
}

/// An URL without its fragment: what stands before its first `#`.
pub open spec fn without_fragment(url: Seq<char>) -> Seq<char> {
    url.take(first_index(url, '#'))
}

/// The query of an URL: what follows the first `?` of the URL without its
/// fragment; empty where there is no `?`.
pub open spec fn url_query(url: Seq<char>) -> Seq<char> {
    let body = without_fragment(url);
    let at = first_index(body, '?');
    if 0 <= at < body.len() {
        body.skip(at + 1)
    } else {
        Seq::empty()
    }
}

/// A hexadecimal digit.
pub open spec fn is_hex_digit(c: char) -> bool {
    let n = c as u32;
    (0x30 <= n <= 0x39) || (0x41 <= n <= 0x46) || (0x61 <= n <= 0x66)
}

/// The text holds a percent escape: `%` with two hexadecimal digits behind.
pub open spec fn has_escape(text: Seq<char>) -> bool {
    exists|i: int|
        0 <= i && i + 2 < text.len() && #[trigger] text[i] == '%' && is_hex_digit(text[i + 1])
            && is_hex_digit(text[i + 2])
}

/// A value that parts no query it is written into: it holds no `&`, which
/// ends a field, and no `#`, which ends the query.
pub open spec fn does_not_part(value: Seq<char>) -> bool {
    &&& !occurs(value, '&')
    &&& !occurs(value, '#')
}

/// A value that a reader by the URL standard reads as it was written into a
/// query, as the plain reading does: it does not part, it holds no `+` and
/// no percent escape, which such a reader decodes, and no tab, line feed or
/// carriage return, which such a reader drops.
pub open spec fn reads_as_written(value: Seq<char>) -> bool {
    &&& does_not_part(value)
    &&& !occurs(value, '+')
    &&& !has_escape(value)
    &&& !occurs(value, '\t')
    &&& !occurs(value, '\n')
    &&& !occurs(value, '\r')
}

/// An endpoint behind which a query is read as a query: it holds no `?` and
/// no `#` of its own.
pub open spec fn endpoint_is_plain(endpoint: Seq<char>) -> bool {
    &&& !occurs(endpoint, '?')
    &&& !occurs(endpoint, '#')
}

/// Fields that part no query: no name holds `=`, `&` or `#`, and no value
/// holds `&` or `#`.
pub open spec fn fields_do_not_part(fields: Seq<(Seq<char>, Seq<char>)>) -> bool {
    forall|i: int|
        0 <= i < fields.len() ==> {
            &&& !occurs((#[trigger] fields[i]).0, '=')
            &&& !occurs(fields[i].0, '&')
            &&& !occurs(fields[i].0, '#')
            &&& does_not_part(fields[i].1)
        }
}

/// The value of the first field called `name` in the query of `url`.
pub open spec fn url_parameter(url: Seq<char>, name: Seq<char>) -> Option<Seq<char>> {
    field_value(query_fields(url_query(url)), name)
}

/// Fields that are read back as they were written: no name holds `=` or `&`,
/// no value holds `&`.
pub open spec fn fields_are_plain(fields: Seq<(Seq<char>, Seq<char>)>) -> bool {
    forall|i: int|
        0 <= i < fields.len() ==> {
            &&& !occurs((#[trigger] fields[i]).0, '=')
            &&& !occurs(fields[i].0, '&')
            &&& !occurs(fields[i].1, '&')
        }
}

/// A character occurs in `a + b` exactly if it occurs in `a` or in `b`.
pub proof fn lemma_occurs_concat<T>(a: Seq<T>, b: Seq<T>, x: T)
    ensures
        occurs(a + b, x) <==> occurs(a, x) || occurs(b, x),
{
    let s = a + b;
    lemma_first_index(s, x);
    lemma_first_index(a, x);
    lemma_first_index(b, x);
    if occurs(a, x) {
        let k = first_index(a, x);
        assert(s[k] == x);
    } else if occurs(b, x) {
        let k = first_index(b, x);
        assert(s[a.len() + k] == x);
    } else {
        assert forall|j: int| 0 <= j < s.len() implies s[j] != x by {
            if j < a.len() {
                assert(s[j] == a[j]);
            } else {
                assert(s[j] == b[j - a.len()]);
            }
        }
    }
}

/// A written field is read back as its name and value, where the name holds
/// no `=`.
pub proof fn lemma_read_field(field: (Seq<char>, Seq<char>))
    requires
        !occurs(field.0, '='),
    ensures
        read_field(field_text(field)) == field,
{
    let text = field_text(field);
    let n = field.0.len() as int;
    lemma_first_index(field.0, '=');
    assert forall|j: int| 0 <= j < n implies text[j] != '=' by {
        assert(text[j] == field.0[j]);
    }
    assert(text[n] == '=');
    lemma_first_index_is(text, '=', n);
    assert(text.take(n) =~= field.0);
    assert(text.skip(n + 1) =~= field.1);
}

/// Items free of `sep`, joined by `sep`, split at `sep` into the same items.
pub proof fn lemma_split_join(items: Seq<Seq<char>>, sep: char)
    requires
        items.len() > 0,
        forall|i: int| 0 <= i < items.len() ==> !occurs(#[trigger] items[i], sep),
    ensures
        split_on(join(items, seq![sep]), sep) == items,
    decreases items.len(),
{
    if items.len() == 1 {
        lemma_split_whole(items[0], sep);
        assert(seq![items[0]] =~= items);
    } else {
        let rest = items.drop_first();
        assert forall|i: int| 0 <= i < rest.len() implies !occurs(#[trigger] rest[i], sep) by {
            assert(rest[i] == items[i + 1]);
        }
        lemma_split_join(rest, sep);
        lemma_split_step(items[0], sep, join(rest, seq![sep]));
        assert(seq![items[0]] + rest =~= items);
    }
}

/// Items free of `sep`, joined by `sep` and followed by `sep` and any text,
/// split at `sep` into the same items and then the pieces of that text.
pub proof fn lemma_split_join_then(items: Seq<Seq<char>>, sep: char, rest: Seq<char>)
    requires
        items.len() > 0,
        forall|i: int| 0 <= i < items.len() ==> !occurs(#[trigger] items[i], sep),
    ensures
        split_on(join(items, seq![sep]) + seq![sep] + rest, sep) == items + split_on(rest, sep),
    decreases items.len(),
{
    if items.len() == 1 {
        lemma_split_step(items[0], sep, rest);
        assert(seq![items[0]] =~= items);
    } else {
        let others = items.drop_first();
        assert forall|i: int| 0 <= i < others.len() implies !occurs(#[trigger] others[i], sep) by {
            assert(others[i] == items[i + 1]);
        }
        lemma_split_join_then(others, sep, rest);
        let tail = join(others, seq![sep]) + seq![sep] + rest;
        lemma_split_step(items[0], sep, tail);
        assert(join(items, seq![sep]) + seq![sep] + rest =~= items[0] + seq![sep] + tail);
        assert(seq![items[0]] + (others + split_on(rest, sep)) =~= items + split_on(rest, sep));
    }
}

/// Two lists of items joined as one are the joins of the two with the
/// separator between.
pub proof fn lemma_join_concat(a: Seq<Seq<char>>, b: Seq<Seq<char>>, sep: Seq<char>)
    requires
        a.len() > 0,
        b.len() > 0,
    ensures
        join(a + b, sep) == join(a, sep) + sep + join(b, sep),
    decreases a.len(),
{
    let all = a + b;
    assert(all[0] == a[0]);
    if a.len() == 1 {
        assert(all.drop_first() =~= b);
        assert(join(all, sep) =~= join(a, sep) + sep + join(b, sep));
    } else {
        let others = a.drop_first();
        assert(all.drop_first() =~= others + b);
        lemma_join_concat(others, b, sep);
        assert(join(all, sep) =~= join(a, sep) + sep + join(b, sep));
    }
}

/// The written fields are free of a character other than `=` of which the
/// names and values are free.
pub proof fn lemma_field_texts_are_free(fields: Seq<(Seq<char>, Seq<char>)>, x: char)
    requires
        x != '=',
        forall|i: int|
            0 <= i < fields.len() ==> !occurs((#[trigger] fields[i]).0, x) && !occurs(
                fields[i].1,
                x,
            ),
    ensures
        forall|i: int|
            0 <= i < fields.len() ==> !occurs(#[trigger] field_texts(fields)[i], x),
{
    let texts = field_texts(fields);
    lemma_first_index_is(seq!['='], x, 1);
    assert forall|i: int| 0 <= i < fields.len() implies !occurs(#[trigger] texts[i], x) by {
        let field = fields[i];
        lemma_occurs_concat(field.0, seq!['='], x);
        lemma_occurs_concat(field.0 + seq!['='], field.1, x);
    }
}

/// Reading undoes writing: plain fields, written as a query, are read back
/// as they were.
pub proof fn law_query_round_trip(fields: Seq<(Seq<char>, Seq<char>)>)
    requires
        fields_are_plain(fields),
    ensures
        query_fields(query_string(fields)) == fields,
{
    let texts = field_texts(fields);
    let query = query_string(fields);
    if fields.len() == 0 {
        assert(query_fields(query) =~= fields);
    } else {
        lemma_field_texts_are_free(fields, '&');
        lemma_split_join(texts, '&');
        lemma_join_is_long(texts, seq!['&']);
        assert(texts[0].len() > 0) by {
            assert(texts[0] == field_text(fields[0]));
        }
        assert forall|i: int| 0 <= i < fields.len() implies read_field(texts[i]) == fields[i] by {
            lemma_read_field(fields[i]);
        }
        assert(query_fields(query) =~= fields);
    }
}

/// Items free of `x`, joined by a separator free of `x`, are free of `x`.
pub proof fn lemma_join_is_free(items: Seq<Seq<char>>, sep: Seq<char>, x: char)
    requires
        !occurs(sep, x),
        forall|i: int| 0 <= i < items.len() ==> !occurs(#[trigger] items[i], x),
    ensures
        !occurs(join(items, sep), x),
    decreases items.len(),
{
    if items.len() == 0 {
        lemma_first_index(join(items, sep), x);
    } else if items.len() > 1 {
        let rest = items.drop_first();
        assert forall|i: int| 0 <= i < rest.len() implies !occurs(#[trigger] rest[i], x) by {
            assert(rest[i] == items[i + 1]);
        }
        lemma_join_is_free(rest, sep, x);
        lemma_occurs_concat(items[0], sep, x);
        lemma_occurs_concat(items[0] + sep, join(rest, sep), x);
    }
}

/// A query is free of a character other than `=` and `&` of which its names
/// and values are free.
pub proof fn lemma_query_is_free(fields: Seq<(Seq<char>, Seq<char>)>, x: char)
    requires
        x != '=',
        x != '&',
        forall|i: int|
            0 <= i < fields.len() ==> !occurs((#[trigger] fields[i]).0, x) && !occurs(
                fields[i].1,
                x,
            ),
    ensures
        !occurs(query_string(fields), x),
{
    lemma_first_index_is(seq!['&'], x, 1);
    lemma_field_texts_are_free(fields, x);
    lemma_join_is_free(field_texts(fields), seq!['&'], x);
}

/// A join is at least as long as its first item.
pub proof fn lemma_join_is_long(items: Seq<Seq<char>>, sep: Seq<char>)
    requires
        items.len() > 0,
    ensures
        join(items, sep).len() >= items[0].len(),
{
}

/// The first fields of a query are read as they were written, whatever
/// stands behind them: where the endpoint is plain and the first `count`
/// fields do not part, the query of the URL holds `count` fields at least,
/// and the first `count` are those that were written.
pub proof fn law_front_fields_are_read(
    endpoint: Seq<char>,
    fields: Seq<(Seq<char>, Seq<char>)>,
    count: int,
)
    requires
        endpoint_is_plain(endpoint),
        0 < count <= fields.len(),
        fields_do_not_part(fields.take(count)),
    ensures
        query_fields(url_query(endpoint + seq!['?'] + query_string(fields))).len() >= count,
        forall|i: int|
            0 <= i < count ==> (#[trigger] query_fields(
                url_query(endpoint + seq!['?'] + query_string(fields)),
            )[i]) == fields[i],
{
    let front = fields.take(count);
    let back = fields.skip(count);
    let front_texts = field_texts(front);
    let back_texts = field_texts(back);
    let head = query_string(front);
    let tail: Seq<char> = if back.len() == 0 {
        Seq::empty()
    } else {
        seq!['&'] + join(back_texts, seq!['&'])
    };
    let url = endpoint + seq!['?'] + query_string(fields);
    let prefix = endpoint + seq!['?'] + head;
    // The query is the front, and behind it `&` and the back where there is one.
    assert(field_texts(fields) =~= front_texts + back_texts);
    if back.len() > 0 {
        lemma_join_concat(front_texts, back_texts, seq!['&']);
    } else {
        assert(front_texts + back_texts =~= front_texts);
    }
    assert(query_string(fields) =~= head + tail);
    assert(url =~= prefix + tail);
    // No fragment starts before the end of the front.
    assert forall|i: int| 0 <= i < front.len() implies !occurs((#[trigger] front[i]).0, '#')
        && !occurs(front[i].1, '#') by {}
    lemma_query_is_free(front, '#');
    lemma_occurs(seq!['?'], '#');
    lemma_occurs_concat(endpoint, seq!['?'], '#');
    lemma_occurs_concat(endpoint + seq!['?'], head, '#');
    lemma_occurs(prefix, '#');
    lemma_first_index(url, '#');
    let cut = first_index(url, '#');
    if cut < prefix.len() {
        assert(url[cut] == prefix[cut]);
    }
    let kept = tail.take(cut - prefix.len());
    let body = without_fragment(url);
    assert(body =~= prefix + kept);
    // The query starts behind the `?` that follows the endpoint.
    lemma_first_index(endpoint, '?');
    assert forall|j: int| 0 <= j < endpoint.len() implies body[j] != '?' by {
        assert(body[j] == endpoint[j]);
    }
    assert(body[endpoint.len() as int] == '?');
    lemma_first_index_is(body, '?', endpoint.len() as int);
    let query = url_query(url);
    assert(query =~= head + kept);
    // The front parts into its fields, whatever is kept behind it.
    assert forall|i: int| 0 <= i < front.len() implies !occurs((#[trigger] front[i]).0, '&')
        && !occurs(front[i].1, '&') by {}
    lemma_field_texts_are_free(front, '&');
    lemma_join_is_long(front_texts, seq!['&']);
    assert(front_texts[0] == field_text(front[0]));
    if kept.len() == 0 {
        assert(query =~= head);
        lemma_split_join(front_texts, '&');
    } else {
        assert(kept[0] == tail[0]);
        let rest = kept.skip(1);
        assert(query =~= head + seq!['&'] + rest);
        lemma_split_join_then(front_texts, '&', rest);
    }
    let pieces = split_on(query, '&');
    let read = query_fields(query);
    assert(read.len() == pieces.len());
    assert forall|i: int| 0 <= i < count implies (#[trigger] read[i]) == fields[i] by {
        assert(pieces[i] == front_texts[i]);
        lemma_read_field(front[i]);
        assert(front[i] == fields[i]);
    }
}

/// A field is found by its name, whatever stands behind it: where the
/// endpoint is plain, the fields up to and with the one at `at` do not part,
/// and none before it has its name, the URL read back gives its value under
/// its name.
pub proof fn law_parameter_is_read(
    endpoint: Seq<char>,
    fields: Seq<(Seq<char>, Seq<char>)>,
    at: int,
)
    requires
        endpoint_is_plain(endpoint),
        0 <= at < fields.len(),
        fields_do_not_part(fields.take(at + 1)),
        forall|j: int| 0 <= j < at ==> (#[trigger] fields[j]).0 != fields[at].0,
    ensures
        url_parameter(endpoint + seq!['?'] + query_string(fields), fields[at].0) == Some(
            fields[at].1,
        ),
{
    law_front_fields_are_read(endpoint, fields, at + 1);
    let read = query_fields(url_query(endpoint + seq!['?'] + query_string(fields)));
    let names = crate::http::field_names(read);
    assert forall|j: int| 0 <= j < at implies names[j] != fields[at].0 by {
        assert(read[j] == fields[j]);
    }
    assert(read[at] == fields[at]);
    lemma_first_index_is(names, fields[at].0, at);
}

} // verus!
