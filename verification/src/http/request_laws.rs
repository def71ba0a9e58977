//! What a request says, character by character.

use crate::encoding::{lemma_first_ascii, lemma_is_ascii_property, utf8_lossy};
use crate::http::laws::{law_header_fields_do_not_matter, lemma_find_bytes, lemma_find_bytes_is};
use crate::http::{
    find_bytes, first_line, head_len_spec, hex_digit, is_decoded, name_and_value,
    parse_request_spec, path_end, path_text, percent_decoded, query_text, query_texts, raw_params,
    request_words, route_spec, without_trailing_cr, Route, MAX_HEAD,
};
use crate::search::{
    equal_to, fields, first_of, lemma_first_from_is, lemma_first_from_range,
};
use vstd::prelude::*;
use vstd::string::*;
use vstd::utf8::*;

verus! {

/// A hexadecimal digit in either case.
pub open spec fn is_hex(b: u8) -> bool {
    48 <= b <= 57 || 65 <= b <= 70 || 97 <= b <= 102
}

/// The digits `0` to `9` count 0 to 9, and `a` to `f` in either case 10 to 15;
/// nothing else is a hexadecimal digit.
pub proof fn law_hex_digits(b: u8)
    ensures
        48 <= b <= 57 ==> hex_digit(b) == Some((b - 48) as u8),
        65 <= b <= 70 ==> hex_digit(b) == Some((b - 55) as u8),
        97 <= b <= 102 ==> hex_digit(b) == Some((b - 87) as u8),
        hex_digit(b) is Some <==> is_hex(b),
{
}

/// How a query is decoded: a percent sign and two hexadecimal digits are one
/// byte, a percent sign with anything else behind it is itself, a plus sign is
/// a space, and every other byte is itself, whatever follows.
pub proof fn law_decoding(b: u8, h: u8, l: u8, rest: Seq<u8>)
    ensures
        percent_decoded(Seq::empty()) == Seq::<u8>::empty(),
        is_hex(h) && is_hex(l) ==> percent_decoded(seq![37u8, h, l] + rest) == seq![
            (16 * hex_digit(h)->0 + hex_digit(l)->0) as u8,
        ] + percent_decoded(rest),
        !(rest.len() >= 2 && is_hex(rest[0]) && is_hex(rest[1])) ==> percent_decoded(
            seq![37u8] + rest,
        ) == seq![37u8] + percent_decoded(rest),
        percent_decoded(seq![43u8] + rest) == seq![32u8] + percent_decoded(rest),
        b != 37 && b != 43 ==> percent_decoded(seq![b] + rest) == seq![b] + percent_decoded(rest),
{
    law_hex_digits(h);
    law_hex_digits(l);
    if rest.len() >= 2 {
        law_hex_digits(rest[0]);
        law_hex_digits(rest[1]);
    }
    let escape = seq![37u8, h, l] + rest;
    assert(escape.skip(3) =~= rest);
    let percent = seq![37u8] + rest;
    assert(percent.drop_first() =~= rest);
    if rest.len() >= 2 {
        assert(percent[1] == rest[0] && percent[2] == rest[1]);
    }
    let plus = seq![43u8] + rest;
    assert(plus.drop_first() =~= rest);
    let plain = seq![b] + rest;
    assert(plain.drop_first() =~= rest);
}

/// A decoded text is the one that the decoded bytes encode, where they encode
/// one.
pub proof fn law_decoded_text(text: Seq<char>, raw: Seq<char>)
    requires
        is_decoded(text, raw),
    ensures
        text == utf8_lossy(percent_decoded(encode_utf8(raw))),
        valid_utf8(percent_decoded(encode_utf8(raw))) ==> encode_utf8(text) == percent_decoded(
            encode_utf8(raw),
        ),
{
}

proof fn lemma_split_at(a: Seq<char>, sep: char, b: Seq<char>)
    requires
        !a.contains(sep),
    ensures
        first_of(a + seq![sep] + b, sep) == a.len(),
        first_of(a, sep) == a.len(),
        (a + seq![sep] + b).take(a.len() as int) == a,
        (a + seq![sep] + b).skip(a.len() as int + 1) == b,
{
    let s = a + seq![sep] + b;
    assert forall|i: int| 0 <= i < a.len() implies !equal_to(sep)(#[trigger] s[i]) by {
        assert(s[i] == a[i]);
        assert(a.contains(a[i]));
    }
    assert(s[a.len() as int] == sep);
    lemma_first_from_is(s, equal_to(sep), 0, a.len() as int);
    assert forall|i: int| 0 <= i < a.len() implies !equal_to(sep)(#[trigger] a[i]) by {
        assert(a.contains(a[i]));
    }
    lemma_first_from_is(a, equal_to(sep), 0, a.len() as int);
    assert(s.take(a.len() as int) =~= a);
    assert(s.skip(a.len() as int + 1) =~= b);
}

/// The path is all in front of the first question mark or number sign.
pub proof fn law_path(path: Seq<char>, rest: Seq<char>)
    requires
        !path.contains('?'),
        !path.contains('#'),
        rest.len() > 0 ==> rest[0] == '?' || rest[0] == '#',
    ensures
        path_text(path + rest) == path,
{
    let s = path + rest;
    assert forall|i: int| 0 <= i < path.len() implies !path_end()(#[trigger] s[i]) by {
        assert(s[i] == path[i]);
        assert(path.contains(path[i]));
    }
    if rest.len() > 0 {
        assert(s[path.len() as int] == rest[0]);
    }
    lemma_first_from_is(s, path_end(), 0, path.len() as int);
    assert(path_text(s) =~= path);
}

/// The query is what stands between the first question mark and the next
/// number sign; without a question mark there are no parameters. It is split at
/// ampersands, and each piece at its first equals sign.
pub proof fn law_query(
    front: Seq<char>,
    query: Seq<char>,
    fragment: Seq<char>,
    name: Seq<char>,
    value: Seq<char>,
)
    requires
        !front.contains('?'),
        !query.contains('#'),
        fragment.len() > 0 ==> fragment[0] == '#',
        !name.contains('='),
    ensures
        raw_params(front).len() == 0,
        name_and_value(name + seq!['='] + value) == (name, value),
        name_and_value(name) == (name, Seq::<char>::empty()),
        ({
            let target = front + seq!['?'] + query + fragment;
            let pieces = fields(query, '&');
            &&& raw_params(target).len() == pieces.len()
            &&& query_texts(target).len() == pieces.len()
            &&& forall|i: int|
                0 <= i < pieces.len() ==> {
                    let (n, v) = name_and_value(#[trigger] pieces[i]);
                    &&& raw_params(target)[i] == (n, v)
                    &&& query_texts(target)[i] == (
                        utf8_lossy(percent_decoded(encode_utf8(n))),
                        utf8_lossy(percent_decoded(encode_utf8(v))),
                    )
                }
        }),
{
    let after = query + fragment;
    let target = front + seq!['?'] + query + fragment;
    assert(target =~= front + seq!['?'] + after);
    lemma_split_at(front, '?', after);
    lemma_split_at(name, '=', value);
    if fragment.len() == 0 {
        assert(after =~= query);
        lemma_split_at(query, '#', Seq::empty());
    } else {
        assert(after =~= query + seq!['#'] + fragment.drop_first());
        lemma_split_at(query, '#', fragment.drop_first());
    }
    assert(after.take(query.len() as int) =~= query);
    assert(query_text(target) == Some(query));
}

/// Whether CR LF CR LF stands at a place.
pub open spec fn blank_line_at(buf: Seq<u8>, i: int) -> bool {
    &&& 0 <= i
    &&& i + 4 <= buf.len()
    &&& buf[i] == 13 && buf[i + 1] == 10 && buf[i + 2] == 13 && buf[i + 3] == 10
}

/// Whether LF LF stands at a place.
pub open spec fn bare_blank_line_at(buf: Seq<u8>, i: int) -> bool {
    &&& 0 <= i
    &&& i + 2 <= buf.len()
    &&& buf[i] == 10 && buf[i + 1] == 10
}

proof fn lemma_blank_lines(buf: Seq<u8>, i: int)
    requires
        0 <= i,
    ensures
        i + 4 <= buf.len() ==> (buf.subrange(i, i + 4) == seq![13u8, 10, 13, 10] <==> blank_line_at(
            buf,
            i,
        )),
        i + 2 <= buf.len() ==> (buf.subrange(i, i + 2) == seq![10u8, 10] <==> bare_blank_line_at(
            buf,
            i,
        )),
{
    if i + 4 <= buf.len() {
        let w = buf.subrange(i, i + 4);
        let c = seq![13u8, 10, 13, 10];
        assert(w[0] == buf[i] && w[1] == buf[i + 1] && w[2] == buf[i + 2] && w[3] == buf[i + 3]);
        if blank_line_at(buf, i) {
            assert(w =~= c);
        }
        assert(w == c ==> w[0] == 13 && w[1] == 10 && w[2] == 13 && w[3] == 10);
    }
    if i + 2 <= buf.len() {
        let w = buf.subrange(i, i + 2);
        let c = seq![10u8, 10];
        assert(w[0] == buf[i] && w[1] == buf[i + 1]);
        if bare_blank_line_at(buf, i) {
            assert(w =~= c);
        }
        assert(w == c ==> w[0] == 10 && w[1] == 10);
    }
}

/// A head ends behind its first CR LF CR LF, or where there is none behind its
/// first LF LF; without either it is not complete.
pub proof fn law_head_end(buf: Seq<u8>, i: int)
    ensures
        blank_line_at(buf, i) && (forall|j: int| 0 <= j < i ==> !#[trigger] blank_line_at(buf, j))
            ==> head_len_spec(buf) == Some(i + 4),
        bare_blank_line_at(buf, i) && (forall|j: int|
            0 <= j < i ==> !#[trigger] bare_blank_line_at(buf, j)) && (forall|j: int|
            !#[trigger] blank_line_at(buf, j)) ==> head_len_spec(buf) == Some(i + 2),
        (forall|j: int| !#[trigger] blank_line_at(buf, j)) && (forall|j: int|
            !#[trigger] bare_blank_line_at(buf, j)) ==> head_len_spec(buf) is None,
        head_len_spec(buf) is None ==> !blank_line_at(buf, i) && !bare_blank_line_at(buf, i),
{
    let crlf = seq![13u8, 10, 13, 10];
    let lf = seq![10u8, 10];
    lemma_find_bytes(buf, crlf, 0);
    lemma_find_bytes(buf, lf, 0);
    if blank_line_at(buf, i) {
        lemma_blank_lines(buf, i);
        if forall|j: int| 0 <= j < i ==> !#[trigger] blank_line_at(buf, j) {
            assert forall|j: int| 0 <= j < i implies #[trigger] buf.subrange(j, j + 4) != crlf by {
                lemma_blank_lines(buf, j);
                assert(!blank_line_at(buf, j));
            }
            lemma_find_bytes_is(buf, crlf, i);
        }
    }
    if let Some(k) = find_bytes(buf, crlf, 0) {
        lemma_blank_lines(buf, k);
        assert(blank_line_at(buf, k));
    } else {
        if bare_blank_line_at(buf, i) {
            lemma_blank_lines(buf, i);
            if forall|j: int| 0 <= j < i ==> !#[trigger] bare_blank_line_at(buf, j) {
                assert forall|j: int| 0 <= j < i implies #[trigger] buf.subrange(j, j + 2)
                    != lf by {
                    lemma_blank_lines(buf, j);
                    assert(!bare_blank_line_at(buf, j));
                }
                lemma_find_bytes_is(buf, lf, i);
            }
        }
        if let Some(k) = find_bytes(buf, lf, 0) {
            lemma_blank_lines(buf, k);
            assert(bare_blank_line_at(buf, k));
        }
    }
}

/// Carriage returns.
pub open spec fn carriage_returns(n: nat) -> Seq<char> {
    Seq::new(n, |i: int| '\r')
}

proof fn lemma_without_returns(line: Seq<char>, n: nat)
    requires
        line.len() > 0 ==> line.last() != '\r',
    ensures
        without_trailing_cr(line + carriage_returns(n)) == line,
    decreases n,
{
    if n == 0 {
        assert(line + carriage_returns(n) =~= line);
    } else {
        let s = line + carriage_returns(n);
        lemma_without_returns(line, (n - 1) as nat);
        assert(s.drop_last() =~= line + carriage_returns((n - 1) as nat));
        assert(s.last() == '\r');
    }
}

/// A request line is accepted exactly where it has three words, a method in
/// capital letters, a target that begins with a slash and a version that begins
/// with `HTTP/1.`; more than one space between words, carriage returns at the
/// end, and whatever follows the line make no difference.
pub proof fn law_request_line(line: Seq<char>, n: nat, rest: Seq<u8>)
    requires
        !line.contains('\n'),
        line.len() > 0 ==> line.last() != '\r',
        rest.len() > 0 ==> rest[0] == 10,
    ensures
        ({
            let words = fields(line, ' ');
            let parsed = parse_request_spec(encode_utf8(line + carriage_returns(n)) + rest);
            if words.len() == 3 && (forall|i: int|
                0 <= i < words[0].len() ==> 65 <= #[trigger] words[0][i] as int <= 90)
                && words[1].len() > 0 && words[1][0] == '/' && words[2].len() >= 7
                && words[2].take(7) == "HTTP/1."@ {
                parsed == Some((words[0], words[1]))
            } else {
                parsed is None
            }
        }),
{
    let text = line + carriage_returns(n);
    let bytes = encode_utf8(text);
    let head = bytes + rest;
    let lf = '\n' as u8;
    assert forall|i: int| 0 <= i < text.len() implies text[i] != '\n' by {
        if i < line.len() {
            assert(line.contains(line[i]));
        }
    }
    assert(!text.contains('\n'));
    lemma_split_at(text, '\n', Seq::empty());
    lemma_is_ascii_property('\n');
    lemma_first_ascii(text, equal_to('\n'), equal_to(lf));
    assert(text.take(text.len() as int) =~= text);
    lemma_first_from_range(bytes, equal_to(lf), 0);
    assert(!bytes.contains(lf)) by {
        if bytes.contains(lf) {
            let i = choose|i: int| 0 <= i < bytes.len() && bytes[i] == lf;
            assert(!equal_to(lf)(bytes[i]));
        }
    }
    if rest.len() > 0 {
        assert(head =~= bytes + seq![lf] + rest.drop_first());
        law_header_fields_do_not_matter(bytes, rest.drop_first());
    } else {
        assert(head =~= bytes);
    }
    assert(first_line(bytes) =~= bytes);
    encode_utf8_valid_utf8(text);
    encode_utf8_decode_utf8(text);
    lemma_without_returns(line, n);
    let words = fields(line, ' ');
    assert(request_words(bytes) == words);
    reveal_strlit("/");
    reveal_strlit("HTTP/1.");
    if words.len() == 3 {
        let t = words[1];
        let v = words[2];
        if t.len() > 0 {
            assert(t.subrange(0, 1)[0] == t[0]);
            if t[0] == '/' {
                assert("/"@ =~= t.subrange(0, 1));
            }
        }
        if v.len() >= 7 {
            assert(v.take(7) =~= v.subrange(0, 7));
        }
        assert forall|i: int| 0 <= i < words[0].len() implies (65 <= #[trigger] words[0][i] as int
            <= 90) == ('A' <= words[0][i] <= 'Z') by {}
    }
}

/// A request line that is not UTF-8 is refused, whatever follows it.
pub proof fn law_request_line_is_text(line: Seq<u8>, rest: Seq<u8>)
    requires
        !line.contains(10u8),
        !valid_utf8(line),
        rest.len() > 0 ==> rest[0] == 10,
    ensures
        parse_request_spec(line + rest) is None,
{
    let lf = '\n' as u8;
    assert forall|i: int| 0 <= i < line.len() implies !equal_to(lf)(#[trigger] line[i]) by {
        assert(line.contains(line[i]));
    }
    lemma_first_from_is(line, equal_to(lf), 0, line.len() as int);
    assert(first_line(line) =~= line);
    if rest.len() > 0 {
        assert(line + rest =~= line + seq![lf] + rest.drop_first());
        law_header_fields_do_not_matter(line, rest.drop_first());
    } else {
        assert(line + rest =~= line);
    }
}

/// What is served where: the image at `/` and `/snapshot.jpg`, the controls at
/// `/controls`, both for GET and HEAD.
pub proof fn law_what_is_served(method: Seq<char>, path: Seq<char>)
    ensures
        route_spec(method, path) == (if path == "/"@ || path == "/snapshot.jpg"@ {
            if method == "GET"@ {
                Route::Snapshot { head_only: false }
            } else if method == "HEAD"@ {
                Route::Snapshot { head_only: true }
            } else {
                Route::MethodNotAllowed
            }
        } else if path == "/controls"@ {
            if method == "GET"@ || method == "HEAD"@ {
                Route::Controls
            } else {
                Route::MethodNotAllowed
            }
        } else {
            Route::NotFound
        }),
        MAX_HEAD == 4096,
{
}

} // verus!
