//! Sequences of bytes and characters: searching, splitting, joining, and
//! decimal numerals.

use vstd::prelude::*;
use vstd::string::*;
use vstd::utf8::{
    decode_utf8, encode_utf8, encode_utf8_decode_utf8, is_char_boundary,
    is_char_boundary_iff_not_is_continuation_byte, is_char_boundary_start_end_of_seq, valid_utf8,
};

verus! {

/// The position of the first `x` in `s`, or `s.len()` where `s` holds none.
pub open spec fn first_index<T>(s: Seq<T>, x: T) -> int
    decreases s.len(),
{
    if s.len() == 0 {
        0
    } else if s[0] == x {
        0
    } else {
        1 + first_index(s.drop_first(), x)
    }
}

/// `first_index` stays within `0..=s.len()`, nothing before it equals `x`,
/// and where it is a position of `s`, that position holds `x`.
pub proof fn lemma_first_index<T>(s: Seq<T>, x: T)
    ensures
        0 <= first_index(s, x) <= s.len(),
        forall|j: int| 0 <= j < first_index(s, x) ==> s[j] != x,
        first_index(s, x) < s.len() ==> s[first_index(s, x)] == x,
    decreases s.len(),
{
    if s.len() > 0 && s[0] != x {
        let rest = s.drop_first();
        lemma_first_index(rest, x);
        assert forall|j: int| 0 <= j < first_index(s, x) implies s[j] != x by {
            if j > 0 {
                assert(rest[j - 1] == s[j]);
            }
        }
    }
}

/// A position `k` that nothing equal to `x` precedes, and that is the end of
/// `s` or holds `x`, is `first_index(s, x)`.
pub proof fn lemma_first_index_is<T>(s: Seq<T>, x: T, k: int)
    requires
        0 <= k <= s.len(),
        forall|j: int| 0 <= j < k ==> s[j] != x,
        k < s.len() ==> s[k] == x,
    ensures
        first_index(s, x) == k,
{
    lemma_first_index(s, x);
    let f = first_index(s, x);
    if f < k {
        assert(s[f] == x);
    } else if k < f {
        assert(s[k] != x);
    }
}

/// `s` holds `x` somewhere.
pub open spec fn occurs<T>(s: Seq<T>, x: T) -> bool {
    first_index(s, x) < s.len()
}

/// `occurs` is membership.
pub proof fn lemma_occurs<T>(s: Seq<T>, x: T)
    ensures
        occurs(s, x) <==> exists|j: int| 0 <= j < s.len() && s[j] == x,
{
    lemma_first_index(s, x);
    if occurs(s, x) {
        assert(s[first_index(s, x)] == x);
    }
}

/// The pieces of `s` between occurrences of `sep`. There is always at least
/// one piece, and `n` separators give `n + 1` pieces, empty ones included.
pub open spec fn split_on<T>(s: Seq<T>, sep: T) -> Seq<Seq<T>>
    decreases s.len(),
{
    let cut = first_index(s, sep);
    if 0 <= cut < s.len() {
        seq![s.take(cut)] + split_on(s.skip(cut + 1), sep)
    } else {
        seq![s]
    }
}

/// A sequence free of `sep` is its own single piece.
pub proof fn lemma_split_whole<T>(s: Seq<T>, sep: T)
    requires
        !occurs(s, sep),
    ensures
        split_on(s, sep) == seq![s],
{
    lemma_first_index(s, sep);
}

/// Where `head` is free of `sep`, splitting `head + [sep] + tail` gives
/// `head` and then the pieces of `tail`.
pub proof fn lemma_split_step<T>(head: Seq<T>, sep: T, tail: Seq<T>)
    requires
        !occurs(head, sep),
    ensures
        split_on(head + seq![sep] + tail, sep) == seq![head] + split_on(tail, sep),
{
    let s = head + seq![sep] + tail;
    lemma_first_index(head, sep);
    assert forall|j: int| 0 <= j < head.len() implies s[j] != sep by {
        assert(s[j] == head[j]);
    }
    assert(s[head.len() as int] == sep);
    lemma_first_index_is(s, sep, head.len() as int);
    assert(s.take(head.len() as int) =~= head);
    assert(s.skip(head.len() as int + 1) =~= tail);
}

/// The views of a sequence of byte vectors.
pub open spec fn byte_views(parts: Seq<Vec<u8>>) -> Seq<Seq<u8>> {
    Seq::new(parts.len(), |i: int| parts[i]@)
}

/// Splits `bytes` at every `sep`.
pub fn split(bytes: &[u8], sep: u8) -> (parts: Vec<Vec<u8>>)
    ensures
        byte_views(parts@) == split_on(bytes@, sep),
{
    let mut parts: Vec<Vec<u8>> = Vec::new();
    let mut piece: Vec<u8> = Vec::new();
    let mut start: usize = 0;
    let mut i: usize = 0;
    proof {
        assert(bytes@.skip(0) =~= bytes@);
        assert(byte_views(parts@) + split_on(bytes@, sep) =~= split_on(bytes@, sep));
    }
    while i < bytes.len()
        invariant
            start <= i <= bytes.len(),
            piece@ == bytes@.subrange(start as int, i as int),
            forall|j: int| start <= j < i ==> bytes@[j] != sep,
            split_on(bytes@, sep) == byte_views(parts@) + split_on(bytes@.skip(start as int), sep),
        decreases bytes.len() - i,
    {
        let b: u8 = bytes[i];
        if b == sep {
            proof {
                let rest = bytes@.skip(start as int);
                lemma_first_index_is(rest, sep, i - start);
                assert(rest.take(i - start) =~= piece@);
                assert(rest.skip(i - start + 1) =~= bytes@.skip(i + 1));
                assert(byte_views(parts@.push(piece)) =~= byte_views(parts@) + seq![piece@]);
            }
            parts.push(piece);
            piece = Vec::new();
            start = i + 1;
            assert(piece@ =~= bytes@.subrange(start as int, start as int));
        } else {
            piece.push(b);
            assert(piece@ =~= bytes@.subrange(start as int, i + 1));
        }
        i += 1;
    }
    proof {
        let rest = bytes@.skip(start as int);
        lemma_first_index_is(rest, sep, rest.len() as int);
        assert(rest =~= piece@);
        assert(byte_views(parts@.push(piece)) =~= byte_views(parts@) + seq![piece@]);
    }
    parts.push(piece);
    parts
}

/// Whether `a` and `b` hold the same text.
pub fn same_text(a: &str, b: &str) -> (same: bool)
    ensures
        same == (a@ == b@),
{
    let x = a.as_bytes();
    let y = b.as_bytes();
    proof {
        // Text is recovered from its UTF-8 encoding, so equal encodings mean equal text.
        vstd::utf8::encode_utf8_decode_utf8(a@);
        vstd::utf8::encode_utf8_decode_utf8(b@);
    }
    if x.len() != y.len() {
        return false;
    }
    let mut i: usize = 0;
    while i < x.len()
        invariant
            x.len() == y.len(),
            i <= x.len(),
            x@ == a.spec_bytes(),
            y@ == b.spec_bytes(),
            forall|j: int| 0 <= j < i ==> x@[j] == y@[j],
        decreases x.len() - i,
    {
        if x[i] != y[i] {
            return false;
        }
        i += 1;
    }
    assert(x@ =~= y@);
    true
}

/// The views of a sequence of strings.
pub open spec fn texts(items: Seq<String>) -> Seq<Seq<char>> {
    Seq::new(items.len(), |i: int| items[i]@)
}

/// `items` written one after another with `sep` between neighbours.
pub open spec fn join(items: Seq<Seq<char>>, sep: Seq<char>) -> Seq<char>
    decreases items.len(),
{
    if items.len() == 0 {
        Seq::empty()
    } else if items.len() == 1 {
        items[0]
    } else {
        items[0] + sep + join(items.drop_first(), sep)
    }
}

/// Joining one more item appends the separator and the item, or the item
/// alone where it is the first.
pub proof fn lemma_join_push(items: Seq<Seq<char>>, sep: Seq<char>, last: Seq<char>)
    ensures
        join(items.push(last), sep) == if items.len() == 0 {
            last
        } else {
            join(items, sep) + sep + last
        },
    decreases items.len(),
{
    let all = items.push(last);
    if items.len() == 0 {
        assert(all[0] == last);
    } else {
        let rest = items.drop_first();
        assert(all.drop_first() =~= rest.push(last));
        assert(all[0] == items[0]);
        lemma_join_push(rest, sep, last);
        assert(join(all, sep) =~= join(items, sep) + sep + last);
    }
}

/// Joins `items` with `sep` between neighbours.
pub fn join_strings(items: &Vec<String>, sep: &str) -> (out: String)
    ensures
        out@ == join(texts(items@), sep@),
{
    let mut out = String::new();
    let mut i: usize = 0;
    let ghost all = texts(items@);
    assert(all.take(0) =~= Seq::<Seq<char>>::empty());
    while i < items.len()
        invariant
            i <= items.len(),
            all == texts(items@),
            out@ == join(all.take(i as int), sep@),
        decreases items.len() - i,
    {
        proof {
            lemma_join_push(all.take(i as int), sep@, all[i as int]);
            assert(all.take(i as int).push(all[i as int]) =~= all.take(i + 1));
        }
        if i > 0 {
            out.append(sep);
        }
        out.append(items[i].as_str());
        i += 1;
    }
    assert(all.take(items.len() as int) =~= all);
    out
}

/// The character of the decimal digit `d`.
pub open spec fn digit_char(d: int) -> char {
    if d == 0 {
        '0'
    } else if d == 1 {
        '1'
    } else if d == 2 {
        '2'
    } else if d == 3 {
        '3'
    } else if d == 4 {
        '4'
    } else if d == 5 {
        '5'
    } else if d == 6 {
        '6'
    } else if d == 7 {
        '7'
    } else if d == 8 {
        '8'
    } else {
        '9'
    }
}

/// The decimal numeral of `n`, without sign or leading zeros.
pub open spec fn decimal(n: nat) -> Seq<char>
    decreases n,
{
    if n < 10 {
        seq![digit_char(n as int)]
    } else {
        decimal(n / 10).push(digit_char((n % 10) as int))
    }
}

/// The decimal numeral of `n`, with a minus sign where `n` is negative.
pub open spec fn signed_decimal(n: int) -> Seq<char> {
    if n < 0 {
        seq!['-'] + decimal((-n) as nat)
    } else {
        decimal(n as nat)
    }
}

fn digit_str(d: u64) -> (s: &'static str)
    requires
        d < 10,
    ensures
        s@ == seq![digit_char(d as int)],
{
    proof {
        reveal_strlit("0");
        reveal_strlit("1");
        reveal_strlit("2");
        reveal_strlit("3");
        reveal_strlit("4");
        reveal_strlit("5");
        reveal_strlit("6");
        reveal_strlit("7");
        reveal_strlit("8");
        reveal_strlit("9");
    }
    let s = if d == 0 {
        "0"
    } else if d == 1 {
        "1"
    } else if d == 2 {
        "2"
    } else if d == 3 {
        "3"
    } else if d == 4 {
        "4"
    } else if d == 5 {
        "5"
    } else if d == 6 {
        "6"
    } else if d == 7 {
        "7"
    } else if d == 8 {
        "8"
    } else {
        "9"
    };
    assert(s@ =~= seq![digit_char(d as int)]);
    s
}

/// Writes `n` in decimal.
pub fn decimal_string(n: u64) -> (out: String)
    ensures
        out@ == decimal(n as nat),
    decreases n,
{
    if n < 10 {
        let mut out = String::new();
        out.append(digit_str(n));
        assert(out@ =~= decimal(n as nat));
        out
    } else {
        let mut out = decimal_string(n / 10);
        out.append(digit_str(n % 10));
        assert(out@ =~= decimal(n as nat));
        out
    }
}

/// Writes `n` in decimal, with a minus sign where it is negative.
pub fn signed_decimal_string(n: i64) -> (out: String)
    ensures
        out@ == signed_decimal(n as int),
{
    if n < 0 {
        let magnitude: u64 = if n == i64::MIN {
            9223372036854775808u64
        } else {
            (-n) as u64
        };
        proof {
            reveal_strlit("-");
        }
        let mut out = String::new();
        out.append("-");
        let digits = decimal_string(magnitude);
        out.append(digits.as_str());
        assert(out@ =~= signed_decimal(n as int));
        out
    } else {
        decimal_string(n as u64)
    }
}

/// Behind a run of ASCII bytes, valid UTF-8 goes on as valid UTF-8.
pub proof fn lemma_skip_ascii(bytes: Seq<u8>, n: int)
    requires
        valid_utf8(bytes),
        0 <= n <= bytes.len(),
        forall|i: int| 0 <= i < n ==> bytes[i] <= 0x7f,
    ensures
        valid_utf8(bytes.skip(n)),
    decreases n,
{
    if n == 0 {
        assert(bytes.skip(0) =~= bytes);
    } else {
        let rest = bytes.skip(1);
        assert(bytes[0] <= 0x7f);
        assert(vstd::utf8::pop_first_scalar(bytes) =~= rest);
        assert forall|i: int| 0 <= i < n - 1 implies rest[i] <= 0x7f by {
            assert(rest[i] == bytes[i + 1]);
        }
        lemma_skip_ascii(rest, n - 1);
        assert(rest.skip(n - 1) =~= bytes.skip(n));
    }
}

/// The end of valid UTF-8 and every ASCII byte of it lie where a character
/// begins.
pub proof fn lemma_boundary_at_ascii(bytes: Seq<u8>, k: int)
    requires
        valid_utf8(bytes),
        0 <= k <= bytes.len(),
        k < bytes.len() ==> bytes[k] <= 0x7f,
    ensures
        is_char_boundary(bytes, k),
{
    if k == bytes.len() {
        is_char_boundary_start_end_of_seq(bytes);
    } else {
        is_char_boundary_iff_not_is_continuation_byte(bytes, k);
    }
}

/// Behind a run of ASCII bytes at the start of valid UTF-8 a character
/// begins.
pub proof fn lemma_boundary_behind_ascii(bytes: Seq<u8>, n: int)
    requires
        valid_utf8(bytes),
        0 <= n <= bytes.len(),
        forall|i: int| 0 <= i < n ==> bytes[i] <= 0x7f,
    ensures
        is_char_boundary(bytes, n),
{
    if n == bytes.len() {
        is_char_boundary_start_end_of_seq(bytes);
    } else {
        let rest = bytes.skip(n);
        lemma_skip_ascii(bytes, n);
        assert(rest[0] == bytes[n]);
        assert(vstd::utf8::valid_first_scalar(rest));
        is_char_boundary_iff_not_is_continuation_byte(bytes, n);
    }
}

/// The position of the first `x` in `bytes`, or the length of `bytes`.
pub fn position(bytes: &[u8], x: u8) -> (at: usize)
    ensures
        at == first_index(bytes@, x),
        at <= bytes@.len(),
        at < bytes@.len() ==> bytes@[at as int] == x,
{
    let mut i: usize = 0;
    while i < bytes.len()
        invariant
            i <= bytes.len(),
            forall|j: int| 0 <= j < i ==> bytes@[j] != x,
        decreases bytes.len() - i,
    {
        if bytes[i] == x {
            proof {
                lemma_first_index_is(bytes@, x, i as int);
            }
            return i;
        }
        i += 1;
    }
    proof {
        lemma_first_index_is(bytes@, x, i as int);
    }
    i
}

/// Cuts a text in two where a character begins, `at` bytes into its UTF-8.
pub(crate) fn cut_text<'a>(text: &'a str, at: usize) -> (parts: (&'a str, &'a str))
    requires
        is_char_boundary(encode_utf8(text@), at as int),
    ensures
        encode_utf8(parts.0@) == encode_utf8(text@).take(at as int),
        encode_utf8(parts.1@) == encode_utf8(text@).skip(at as int),
        parts.0@ == decode_utf8(encode_utf8(text@).take(at as int)),
        parts.1@ == decode_utf8(encode_utf8(text@).skip(at as int)),
{
    let parts = text.split_at(at);
    proof {
        encode_utf8_decode_utf8(parts.0@);
        encode_utf8_decode_utf8(parts.1@);
    }
    parts
}

/// The text that `String::from_utf8_lossy` makes of a byte sequence.
pub uninterp spec fn lossy_text(bytes: Seq<u8>) -> Seq<char>;

/// Calls `String::from_utf8_lossy` and takes the result as a `String`, for
/// bytes of which nothing is known, such as the body of a response. The
/// claim: the text depends on the bytes alone, and valid UTF-8 is decoded as
/// it stands (std replaces only invalid sequences, by U+FFFD).
#[verifier::external_body]
pub(crate) fn text_of(bytes: &[u8]) -> (text: String)
    ensures
        text@ == lossy_text(bytes@),
        vstd::utf8::valid_utf8(bytes@) ==> text@ == vstd::utf8::decode_utf8(bytes@),
{
    String::from_utf8_lossy(bytes).into_owned()
}

/// Calls `String::push`: the character is appended to the text.
#[verifier::external_body]
pub(crate) fn push_char(text: &mut String, c: char)
    ensures
        final(text)@ == old(text)@.push(c),
{
    text.push(c)
}

} // verus!
