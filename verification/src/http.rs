//! Just enough HTTP/1.1 for the snapshot server: parsing the request head of
//! a browser or `curl`, routing, and building a response. Bodies of requests
//! are ignored; every response is `Connection: close`.

pub mod laws;
pub mod request_laws;
pub mod round_trip;

use crate::encoding::{
    ascii_property, from_utf8, from_utf8_lossy, lemma_encode_char, lemma_encode_concat,
    lemma_encode_injective, lemma_fields_encoded, lemma_first_ascii, lemma_is_ascii_property,
    utf8_lossy,
};
use crate::search::{equal_to, fields, first_from, first_of, position, split_fields};
use crate::text::{append_nat, dec_nat, same};
use vstd::prelude::*;
use vstd::string::*;
use vstd::utf8::*;

verus! {

/// Largest request head accepted; anything longer is answered with 431.
pub const MAX_HEAD: usize = 4096;

#[derive(Debug, Clone, PartialEq, Eq)]
pub struct Request {
    pub method: String,
    /// Request target as sent (path and query).
    pub target: String,
}

/// The characters that end the path of a request target.
pub open spec fn path_end() -> spec_fn(char) -> bool {
    |c: char| c == '?' || c == '#'
}

/// The path of a request target: all before its first `?` or `#`.
pub open spec fn path_text(target: Seq<char>) -> Seq<char> {
    target.take(first_from(target, path_end(), 0))
}

/// The query of a request target: what stands between its first `?` and the
/// next `#`.
pub open spec fn query_text(target: Seq<char>) -> Option<Seq<char>> {
    let i = first_of(target, '?');
    if i >= target.len() {
        None
    } else {
        let after = target.skip(i + 1);
        Some(after.take(first_of(after, '#')))
    }
}

/// Name and value of one parameter: what stands before and after its first
/// `=`. A parameter without `=` has an empty value.
pub open spec fn name_and_value(param: Seq<char>) -> (Seq<char>, Seq<char>) {
    let i = first_of(param, '=');
    if i >= param.len() {
        (param, Seq::empty())
    } else {
        (param.take(i), param.skip(i + 1))
    }
}

/// The parameters of a request target as they were sent.
pub open spec fn raw_params(target: Seq<char>) -> Seq<(Seq<char>, Seq<char>)> {
    match query_text(target) {
        Some(q) => fields(q, '&').map_values(|p: Seq<char>| name_and_value(p)),
        None => Seq::empty(),
    }
}

/// The value of a hexadecimal digit.
pub open spec fn hex_digit(b: u8) -> Option<u8> {
    if '0' as u8 <= b <= '9' as u8 {
        Some((b - '0' as u8) as u8)
    } else if 'a' as u8 <= b <= 'f' as u8 {
        Some((b - 'a' as u8 + 10) as u8)
    } else if 'A' as u8 <= b <= 'F' as u8 {
        Some((b - 'A' as u8 + 10) as u8)
    } else {
        None
    }
}

/// The byte that two hexadecimal digits after `%` stand for.
pub open spec fn escaped_byte(b1: u8, b2: u8) -> Option<u8> {
    match (hex_digit(b1), hex_digit(b2)) {
        (Some(h), Some(l)) => Some((16 * h + l) as u8),
        _ => None,
    }
}

/// Percent-decoding: `+` stands for a space, `%` and two hexadecimal digits
/// for a byte. A `%` that begins no such escape stands for itself.
pub open spec fn percent_decoded(s: Seq<u8>) -> Seq<u8>
    decreases s.len(),
{
    if s.len() == 0 {
        Seq::empty()
    } else if s[0] == '+' as u8 {
        seq![' ' as u8] + percent_decoded(s.drop_first())
    } else if s[0] == '%' as u8 && s.len() > 2 && escaped_byte(s[1], s[2]) is Some {
        seq![escaped_byte(s[1], s[2])->0] + percent_decoded(s.skip(3))
    } else {
        seq![s[0]] + percent_decoded(s.drop_first())
    }
}

/// `text` is what percent-decoding makes of `raw`: the text that the decoded
/// bytes encode where they are UTF-8, else the text that stands in for them.
pub open spec fn is_decoded(text: Seq<char>, raw: Seq<char>) -> bool {
    let bytes = percent_decoded(encode_utf8(raw));
    &&& text == decoded_text(raw)
    &&& valid_utf8(bytes) ==> encode_utf8(text) == bytes
}

/// The text that percent-decoding makes of `raw`.
pub open spec fn decoded_text(raw: Seq<char>) -> Seq<char> {
    utf8_lossy(percent_decoded(encode_utf8(raw)))
}

/// The query parameters of a request target, decoded.
pub open spec fn query_texts(target: Seq<char>) -> Seq<(Seq<char>, Seq<char>)> {
    raw_params(target).map_values(
        |p: (Seq<char>, Seq<char>)| (decoded_text(p.0), decoded_text(p.1)),
    )
}

fn hex_value(b: u8) -> (r: Option<u8>)
    ensures
        r == hex_digit(b),
{
    if 48 <= b && b <= 57 {
        Some(b - 48)
    } else if 97 <= b && b <= 102 {
        Some(b - 97 + 10)
    } else if 65 <= b && b <= 70 {
        Some(b - 65 + 10)
    } else {
        None
    }
}

/// Percent-decodes bytes.
pub fn percent_decode_bytes(b: &[u8]) -> (r: Vec<u8>)
    ensures
        r@ == percent_decoded(b@),
{
    let mut out: Vec<u8> = Vec::new();
    let mut i: usize = 0;
    proof {
        assert(b@.skip(0) =~= b@);
        assert(out@ + percent_decoded(b@) =~= percent_decoded(b@));
    }
    while i < b.len()
        invariant
            i <= b.len(),
            percent_decoded(b@) == out@ + percent_decoded(b@.skip(i as int)),
        decreases b.len() - i,
    {
        let ghost rest = b@.skip(i as int);
        let ghost before = out@;
        let c: u8 = b[i];
        proof {
            assert(rest[0] == c);
            assert(rest.drop_first() =~= b@.skip(i + 1));
        }
        if c == 43 {
            out.push(32);
            assert(before + percent_decoded(rest) =~= out@ + percent_decoded(b@.skip(i + 1)));
        } else if c == 37 && b.len() - i > 2 {
            assert(rest[1] == b@[i + 1] && rest[2] == b@[i + 2]);
            match (hex_value(b[i + 1]), hex_value(b[i + 2])) {
                (Some(h), Some(l)) => {
                    out.push(16 * h + l);
                    proof {
                        assert(rest.skip(3) =~= b@.skip(i + 3));
                        assert(before + percent_decoded(rest) =~= out@ + percent_decoded(
                            b@.skip(i + 3),
                        ));
                    }
                    i = i + 2;
                },
                _ => {
                    out.push(37);
                    assert(before + percent_decoded(rest) =~= out@ + percent_decoded(
                        b@.skip(i + 1),
                    ));
                },
            }
        } else {
            out.push(c);
            assert(before + percent_decoded(rest) =~= out@ + percent_decoded(b@.skip(i + 1)));
        }
        i = i + 1;
    }
    assert(b@.skip(i as int) =~= Seq::empty());
    assert(out@ + percent_decoded(b@.skip(i as int)) =~= out@);
    out
}

/// Percent-decodes the bytes of a text and reads the result as text.
fn decode_part(b: &[u8], Ghost(raw): Ghost<Seq<char>>) -> (r: String)
    requires
        b@ == encode_utf8(raw),
    ensures
        is_decoded(r@, raw),
{
    let bytes = percent_decode_bytes(b);
    from_utf8_lossy(bytes.as_slice())
}

/// Percent-decodes a text.
pub fn percent_decode(s: &str) -> (r: String)
    ensures
        is_decoded(r@, s@),
{
    decode_part(s.as_bytes(), Ghost(s@))
}

impl Request {
    /// The path without the query string.
    pub fn path(&self) -> (r: &str)
        ensures
            r@ == path_text(self.target@),
    {
        let target = self.target.as_str();
        let b = target.as_bytes();
        let ghost stop = |b: u8| b == '?' as u8 || b == '#' as u8;
        let mut i: usize = 0;
        while i < b.len() && b[i] != 63 && b[i] != 35
            invariant
                i <= b.len(),
                stop == (|b: u8| b == '?' as u8 || b == '#' as u8),
                first_from(b@, stop, 0) == first_from(b@, stop, i as int),
            decreases b.len() - i,
        {
            i = i + 1;
        }
        proof {
            assert forall|c: char| 0 <= c as int <= 0x7f implies #[trigger] path_end()(c) == stop(
                c as u8,
            ) by {}
            assert(ascii_property(path_end(), stop));
            lemma_first_ascii(target@, path_end(), stop);
            encode_utf8_valid_utf8(target@);
            is_char_boundary_start_end_of_seq(b@);
            if i < b.len() {
                is_char_boundary_iff_not_is_continuation_byte(b@, i as int);
            }
        }
        let (path, _) = target.split_at(i);
        proof {
            assert(b@.subrange(0, i as int) =~= b@.take(i as int));
            lemma_encode_injective(path@, path_text(target@));
        }
        path
    }

    /// Query parameters in order, percent-decoded. A parameter without `=`
    /// has an empty value.
    pub fn query(&self) -> (r: Vec<(String, String)>)
        ensures
            r.len() == raw_params(self.target@).len(),
            forall|i: int|
                0 <= i < r.len() ==> {
                    &&& is_decoded((#[trigger] r@[i]).0@, raw_params(self.target@)[i].0)
                    &&& is_decoded(r@[i].1@, raw_params(self.target@)[i].1)
                },
    {
        let mut out: Vec<(String, String)> = Vec::new();
        let target = self.target.as_str();
        let ghost t = self.target@;
        let b = target.as_bytes();
        let i: usize = position(b, 63, 0);
        proof {
            lemma_is_ascii_property('?');
            lemma_first_ascii(t, equal_to('?'), equal_to('?' as u8));
        }
        if i == b.len() {
            return out;
        }
        let after = vstd::slice::slice_subrange(b, i + 1, b.len());
        let ghost after_text = t.skip(first_of(t, '?') + 1);
        let j: usize = position(after, 35, 0);
        let q = vstd::slice::slice_subrange(after, 0, j);
        let ghost query = after_text.take(first_of(after_text, '#'));
        proof {
            assert(after@ =~= b@.skip(i + 1));
            lemma_is_ascii_property('#');
            lemma_first_ascii(after_text, equal_to('#'), equal_to('#' as u8));
            assert(q@ =~= after@.take(j as int));
            lemma_fields_encoded(query, '&');
        }
        let parts = split_fields(q, 38);
        let mut k: usize = 0;
        let ghost raw = raw_params(t);
        while k < parts.len()
            invariant
                k <= parts.len(),
                out.len() == k,
                parts.len() == fields(query, '&').len(),
                raw.len() == parts.len(),
                forall|m: int|
                    0 <= m < parts.len() ==> (#[trigger] parts@[m])@ == encode_utf8(
                        fields(query, '&')[m],
                    ),
                forall|m: int|
                    0 <= m < parts.len() ==> #[trigger] raw[m] == name_and_value(
                        fields(query, '&')[m],
                    ),
                forall|m: int|
                    0 <= m < k ==> {
                        &&& is_decoded((#[trigger] out@[m]).0@, raw[m].0)
                        &&& is_decoded(out@[m].1@, raw[m].1)
                    },
            decreases parts.len() - k,
        {
            let part = parts[k];
            let ghost param = fields(query, '&')[k as int];
            let e: usize = position(part, 61, 0);
            proof {
                lemma_is_ascii_property('=');
                lemma_first_ascii(param, equal_to('='), equal_to('=' as u8));
            }
            let name = vstd::slice::slice_subrange(part, 0, e);
            let value = if e < part.len() {
                vstd::slice::slice_subrange(part, e + 1, part.len())
            } else {
                vstd::slice::slice_subrange(part, e, e)
            };
            proof {
                assert(raw[k as int] == name_and_value(param));
                assert(name@ =~= part@.take(e as int));
                if e < part.len() {
                    assert(value@ =~= part@.skip(e + 1));
                } else {
                    assert(param.take(first_of(param, '=')) =~= param);
                    assert(value@ =~= encode_utf8(Seq::empty()));
                }
            }
            let name = decode_part(name, Ghost(raw[k as int].0));
            let value = decode_part(value, Ghost(raw[k as int].1));
            out.push((name, value));
            k = k + 1;
        }
        out
    }
}

/// The index from `from` on at which `pat` first occurs in `buf`.
pub open spec fn find_bytes(buf: Seq<u8>, pat: Seq<u8>, from: int) -> Option<int>
    decreases buf.len() + 1 - from,
{
    if from + pat.len() > buf.len() {
        None
    } else if buf.subrange(from, from + pat.len()) == pat {
        Some(from)
    } else {
        find_bytes(buf, pat, from + 1)
    }
}

/// The end of the first blank line: after the first CR LF CR LF, or after the
/// first LF LF in a buffer without the former.
pub open spec fn head_len_spec(buf: Seq<u8>) -> Option<int> {
    match find_bytes(buf, seq![13u8, 10, 13, 10], 0) {
        Some(i) => Some(i + 4),
        None => match find_bytes(buf, seq![10u8, 10], 0) {
            Some(i) => Some(i + 2),
            None => None,
        },
    }
}

/// The head in `buf` ends in a blank line without carriage returns, and `more`
/// brings a blank line with them.
pub open spec fn late_blank_line(buf: Seq<u8>, more: Seq<u8>) -> bool {
    let crlf = seq![13u8, 10, 13, 10];
    &&& find_bytes(buf, crlf, 0) is None
    &&& find_bytes(buf, seq![10u8, 10], 0) is Some
    &&& find_bytes(buf + more, crlf, 0) is Some
}

/// Returns the length of the request head, blank line included, once the
/// buffer holds a complete one.
pub fn head_len(buf: &[u8]) -> (r: Option<usize>)
    ensures
        match r {
            Some(n) => head_len_spec(buf@) == Some(n as int) && n <= buf.len(),
            None => head_len_spec(buf@) is None,
        },
{
    let ghost crlf = seq![13u8, 10, 13, 10];
    let mut i: usize = 0;
    while buf.len() - i >= 4
        invariant
            i <= buf.len(),
            crlf == seq![13u8, 10, 13, 10],
            find_bytes(buf@, crlf, 0) == find_bytes(buf@, crlf, i as int),
        decreases buf.len() - i,
    {
        let ghost w = buf@.subrange(i as int, i + 4);
        if buf[i] == 13 && buf[i + 1] == 10 && buf[i + 2] == 13 && buf[i + 3] == 10 {
            assert(w =~= crlf);
            return Some(i + 4);
        }
        proof {
            if w == crlf {
                assert(w[0] == 13 && w[1] == 10 && w[2] == 13 && w[3] == 10);
            }
        }
        i = i + 1;
    }
    let ghost lf = seq![10u8, 10];
    let mut j: usize = 0;
    while buf.len() - j >= 2
        invariant
            j <= buf.len(),
            lf == seq![10u8, 10],
            find_bytes(buf@, seq![13u8, 10, 13, 10], 0) is None,
            find_bytes(buf@, lf, 0) == find_bytes(buf@, lf, j as int),
        decreases buf.len() - j,
    {
        let ghost w = buf@.subrange(j as int, j + 2);
        if buf[j] == 10 && buf[j + 1] == 10 {
            assert(w =~= lf);
            return Some(j + 2);
        }
        proof {
            if w == lf {
                assert(w[0] == 10 && w[1] == 10);
            }
        }
        j = j + 1;
    }
    None
}

/// A text without its trailing carriage returns.
pub open spec fn without_trailing_cr(s: Seq<char>) -> Seq<char>
    decreases s.len(),
{
    if s.len() > 0 && s.last() == '\r' {
        without_trailing_cr(s.drop_last())
    } else {
        s
    }
}

/// The bytes before the first line feed.
pub open spec fn first_line(head: Seq<u8>) -> Seq<u8> {
    head.take(first_of(head, '\n' as u8))
}

/// The words of the first line of a request head.
pub open spec fn request_words(head: Seq<u8>) -> Seq<Seq<char>> {
    fields(without_trailing_cr(decode_utf8(first_line(head))), ' ')
}

/// Upper case ASCII letters only.
pub open spec fn all_upper(s: Seq<char>) -> bool {
    forall|i: int| 0 <= i < s.len() ==> 'A' <= #[trigger] s[i] <= 'Z'
}

/// The words of an acceptable request line: a method in capitals, a target
/// that is a path, and a version of HTTP/1.
pub open spec fn acceptable(words: Seq<Seq<char>>) -> bool {
    &&& words.len() == 3
    &&& all_upper(words[0])
    &&& "/"@.is_prefix_of(words[1])
    &&& "HTTP/1."@.is_prefix_of(words[2])
}

/// Method and target of a request head, from its first line alone.
pub open spec fn parse_request_spec(head: Seq<u8>) -> Option<(Seq<char>, Seq<char>)> {
    let words = request_words(head);
    if valid_utf8(first_line(head)) && acceptable(words) {
        Some((words[0], words[1]))
    } else {
        None
    }
}

fn is_upper(s: &str) -> (r: bool)
    ensures
        r == all_upper(s@),
{
    if !s.is_ascii() {
        proof {
            let i = choose|i: int| 0 <= i < s@.len() && !('\0' <= #[trigger] s@[i] <= '\u{7f}');
            assert(!('A' <= s@[i] <= 'Z'));
        }
        return false;
    }
    let b = s.as_bytes();
    assert(b@ =~= Seq::new(s@.len(), |i: int| s@[i] as u8));
    let mut i: usize = 0;
    while i < b.len()
        invariant
            i <= b.len(),
            b.len() == s@.len(),
            forall|j: int| 0 <= j < b.len() ==> b@[j] == #[trigger] s@[j] as u8,
            forall|j: int| 0 <= j < b.len() ==> '\0' <= #[trigger] s@[j] <= '\u{7f}',
            forall|j: int| 0 <= j < i ==> 'A' <= #[trigger] s@[j] <= 'Z',
        decreases b.len() - i,
    {
        assert(b@[i as int] == s@[i as int] as u8);
        if b[i] < 65 || b[i] > 90 {
            return false;
        }
        i = i + 1;
    }
    true
}

/// An ASCII text begins a text where its bytes begin the bytes of the text.
proof fn lemma_ascii_prefix(p: Seq<char>, s: Seq<char>)
    requires
        is_ascii_chars(p),
    ensures
        encode_utf8(p).is_prefix_of(encode_utf8(s)) <==> p.is_prefix_of(s),
    decreases p.len(),
{
    if p.is_prefix_of(s) {
        assert(s =~= p + s.skip(p.len() as int));
        lemma_encode_concat(p, s.skip(p.len() as int));
    }
    if encode_utf8(p).is_prefix_of(encode_utf8(s)) && p.len() > 0 {
        let e = encode_utf8(s);
        lemma_encode_char(p[0]);
        assert(encode_utf8(p)[0] == p[0] as u8);
        assert(e[0] == encode_utf8(p)[0]);
        assert(s.len() > 0);
        lemma_encode_char(s[0]);
        assert(e[0] == encode_scalar(s[0] as u32)[0]);
        assert(s[0] == p[0]);
        let p1 = p.drop_first();
        let s1 = s.drop_first();
        assert forall|i: int| 0 <= i < p1.len() implies '\0' <= #[trigger] p1[i] <= '\u{7f}' by {
            assert(p1[i] == p[i + 1]);
        }
        assert(encode_utf8(p1) =~= encode_utf8(p).skip(1));
        assert(encode_utf8(s1) =~= e.skip(1));
        assert(encode_utf8(p1).is_prefix_of(encode_utf8(s1)));
        lemma_ascii_prefix(p1, s1);
        assert forall|i: int| 0 <= i < p.len() implies p[i] == s[i] by {
            if i > 0 {
                assert(p1[i - 1] == s1[i - 1]);
            }
        }
        assert(p =~= s.take(p.len() as int));
    }
}

/// Whether an ASCII text begins `s`.
fn starts_with(s: &str, prefix: &str) -> (r: bool)
    requires
        is_ascii_chars(prefix@),
    ensures
        r == prefix@.is_prefix_of(s@),
{
    let b = s.as_bytes();
    let p = prefix.as_bytes();
    proof {
        lemma_ascii_prefix(prefix@, s@);
    }
    if b.len() < p.len() {
        return false;
    }
    let mut i: usize = 0;
    while i < p.len()
        invariant
            i <= p.len() <= b.len(),
            b@ == encode_utf8(s@),
            p@ == encode_utf8(prefix@),
            p@.is_prefix_of(b@) <==> prefix@.is_prefix_of(s@),
            forall|j: int| 0 <= j < i ==> b@[j] == p@[j],
        decreases p.len() - i,
    {
        if b[i] != p[i] {
            assert(p@.is_prefix_of(b@) ==> b@[i as int] == p@[i as int]);
            return false;
        }
        i = i + 1;
    }
    assert(p@ =~= b@.subrange(0, p.len() as int));
    true
}

/// The bytes of a text that ends in a carriage return end in one, and no
/// others do.
proof fn lemma_trailing_cr(s: Seq<char>)
    ensures
        s.len() == 0 <==> encode_utf8(s).len() == 0,
        s.len() > 0 ==> (s.last() == '\r' <==> encode_utf8(s).last() == 13u8),
        s.len() > 0 && s.last() == '\r' ==> encode_utf8(s).drop_last() == encode_utf8(
            s.drop_last(),
        ),
{
    if s.len() > 0 {
        let last = seq![s.last()];
        assert(s =~= s.drop_last() + last);
        lemma_encode_concat(s.drop_last(), last);
        lemma_encode_char(s.last());
        assert(last.drop_first() =~= Seq::empty());
        assert(encode_utf8(last.drop_first()) =~= Seq::empty());
        assert(encode_utf8(last) =~= encode_scalar(s.last() as u32));
        if s.last() == '\r' {
            assert(encode_utf8(s).drop_last() =~= encode_utf8(s.drop_last()));
        }
    }
}

/// Parses the request line; header fields are not needed and are skipped.
pub fn parse_request(head: &[u8]) -> (r: Option<Request>)
    ensures
        match r {
            Some(req) => parse_request_spec(head@) == Some((req.method@, req.target@)),
            None => parse_request_spec(head@) is None,
        },
{
    let mut n: usize = position(head, 10, 0);
    let first = vstd::slice::slice_subrange(head, 0, n);
    assert(first@ =~= first_line(head@));
    let text = from_utf8(first)?;
    let ghost t = text@;
    let ghost mut line = t;
    proof {
        encode_utf8_valid_utf8(t);
        encode_utf8_decode_utf8(t);
        lemma_trailing_cr(line);
        assert(head@.take(n as int) =~= first@);
    }
    while n > 0 && head[n - 1] == 13
        invariant
            n <= head.len(),
            head@.take(n as int) == encode_utf8(line),
            without_trailing_cr(line) == without_trailing_cr(t),
            n == 0 <==> line.len() == 0,
            n > 0 ==> (line.last() == '\r' <==> head@[n - 1] == 13u8),
        decreases n,
    {
        proof {
            lemma_trailing_cr(line);
            line = line.drop_last();
            assert(head@.take(n - 1) =~= head@.take(n as int).drop_last());
            lemma_trailing_cr(line);
            if n > 1 {
                assert(head@.take(n - 1).last() == head@[n - 2]);
            }
        }
        n = n - 1;
    }
    let trimmed = vstd::slice::slice_subrange(head, 0, n);
    let ghost words = fields(line, ' ');
    proof {
        assert(trimmed@ =~= head@.take(n as int));
        assert(line == without_trailing_cr(t));
        assert(words == request_words(head@));
        lemma_fields_encoded(line, ' ');
    }
    let parts = split_fields(trimmed, 32);
    if parts.len() != 3 {
        return None;
    }
    proof {
        encode_utf8_valid_utf8(words[0]);
        encode_utf8_valid_utf8(words[1]);
        encode_utf8_valid_utf8(words[2]);
        assert(parts@[0]@ == encode_utf8(words[0]));
        assert(parts@[1]@ == encode_utf8(words[1]));
        assert(parts@[2]@ == encode_utf8(words[2]));
        reveal_strlit("/");
        reveal_strlit("HTTP/1.");
    }
    let method = from_utf8(parts[0])?;
    let target = from_utf8(parts[1])?;
    let version = from_utf8(parts[2])?;
    proof {
        lemma_encode_injective(method@, words[0]);
        lemma_encode_injective(target@, words[1]);
        lemma_encode_injective(version@, words[2]);
    }
    if !starts_with(version, "HTTP/1.") {
        return None;
    }
    if !is_upper(method) || !starts_with(target, "/") {
        return None;
    }
    Some(Request { method: method.to_owned(), target: target.to_owned() })
}

/// What the server does with a request.
#[derive(Debug, Clone, Copy, PartialEq, Eq, Structural)]
pub enum Route {
    /// `GET /` (or `HEAD /`): one JPEG frame from the camera, after applying
    /// the camera settings given as query parameters.
    Snapshot { head_only: bool },
    /// `GET /controls`: the camera's controls with their ranges, as JSON.
    Controls,
    NotFound,
    MethodNotAllowed,
}

/// The paths under which a snapshot is found.
pub open spec fn is_snapshot_path(path: Seq<char>) -> bool {
    path == "/"@ || path == "/snapshot.jpg"@
}

/// What is done with a request for a path by a method.
pub open spec fn route_spec(method: Seq<char>, path: Seq<char>) -> Route {
    if is_snapshot_path(path) {
        if method == "GET"@ {
            Route::Snapshot { head_only: false }
        } else if method == "HEAD"@ {
            Route::Snapshot { head_only: true }
        } else {
            Route::MethodNotAllowed
        }
    } else if path == "/controls"@ {
        if method == "GET"@ || method == "HEAD"@ {
            Route::Controls
        } else {
            Route::MethodNotAllowed
        }
    } else {
        Route::NotFound
    }
}

/// Decides what is done with a request: the image is at `/` and at
/// `/snapshot.jpg`, the report on the controls at `/controls`; any other path
/// is not found, and any method but `GET` and `HEAD` is refused.
pub fn route(req: &Request) -> (r: Route)
    ensures
        r == route_spec(req.method@, path_text(req.target@)),
{
    let path = req.path();
    let get = same(req.method.as_str(), "GET");
    let head = same(req.method.as_str(), "HEAD");
    proof {
        reveal_strlit("GET");
        reveal_strlit("HEAD");
        assert("GET"@.len() != "HEAD"@.len());
    }
    if same(path, "/") || same(path, "/snapshot.jpg") {
        if get || head {
            Route::Snapshot { head_only: head }
        } else {
            Route::MethodNotAllowed
        }
    } else if same(path, "/controls") {
        if get || head {
            Route::Controls
        } else {
            Route::MethodNotAllowed
        }
    } else {
        Route::NotFound
    }
}

/// The reason phrase of a status.
pub open spec fn reason_text(status: u16) -> Seq<char> {
    match status {
        200 => "OK"@,
        400 => "Bad Request"@,
        404 => "Not Found"@,
        405 => "Method Not Allowed"@,
        408 => "Request Timeout"@,
        431 => "Request Header Fields Too Large"@,
        503 => "Service Unavailable"@,
        504 => "Gateway Timeout"@,
        _ => "Unknown"@,
    }
}

/// The reason phrase for the status line.
pub fn reason(status: u16) -> (r: &'static str)
    ensures
        r@ == reason_text(status),
{
    match status {
        200 => "OK",
        400 => "Bad Request",
        404 => "Not Found",
        405 => "Method Not Allowed",
        408 => "Request Timeout",
        431 => "Request Header Fields Too Large",
        503 => "Service Unavailable",
        504 => "Gateway Timeout",
        _ => "Unknown",
    }
}

/// Status line and headers for a response of `len` bytes.
pub open spec fn response_head_text(status: u16, content_type: Seq<char>, len: nat) -> Seq<char> {
    "HTTP/1.1 "@ + dec_nat(status as nat) + " "@ + reason_text(status) + "\r\nContent-Type: "@
        + content_type + "\r\nContent-Length: "@ + dec_nat(len)
        + "\r\nCache-Control: no-store\r\nConnection: close\r\n"@ + (if status == 405 {
        "Allow: GET, HEAD\r\n"@
    } else {
        Seq::empty()
    }) + "\r\n"@
}

/// Status line and headers for a response of `len` bytes. Images are marked
/// uncacheable so that a reload always fetches a fresh frame.
pub fn response_head(status: u16, content_type: &str, len: usize) -> (r: Vec<u8>)
    ensures
        r@ == encode_utf8(response_head_text(status, content_type@, len as nat)),
{
    let mut h = String::new();
    h.append("HTTP/1.1 ");
    append_nat(&mut h, status as u64);
    h.append(" ");
    h.append(reason(status));
    h.append("\r\nContent-Type: ");
    h.append(content_type);
    h.append("\r\nContent-Length: ");
    append_nat(&mut h, len as u64);
    h.append("\r\nCache-Control: no-store\r\nConnection: close\r\n");
    if status == 405 {
        h.append("Allow: GET, HEAD\r\n");
    }
    h.append("\r\n");
    assert(h@ =~= response_head_text(status, content_type@, len as nat));
    vstd::slice::slice_to_vec(h.as_str().as_bytes())
}

/// A complete response: the head for a body of that many bytes, and the body.
pub open spec fn response_text(status: u16, content_type: Seq<char>, body: Seq<char>) -> Seq<char> {
    response_head_text(status, content_type, encode_utf8(body).len()) + body
}

/// The bytes of a plain-text response.
pub open spec fn text_response_spec(status: u16, body: Seq<char>) -> Seq<u8> {
    encode_utf8(response_text(status, "text/plain; charset=utf-8"@, body + "\n"@))
}

/// A complete plain-text response (for errors).
pub fn text_response(status: u16, body: &str) -> (r: Vec<u8>)
    ensures
        r@ == text_response_spec(status, body@),
{
    let mut text = String::new();
    text.append(body);
    text.append("\n");
    assert(text@ =~= body@ + "\n"@);
    let bytes = text.as_str().as_bytes();
    let mut r = response_head(status, "text/plain; charset=utf-8", bytes.len());
    let ghost head = r@;
    r.extend_from_slice(bytes);
    proof {
        assert(r@ =~= head + bytes@);
        lemma_encode_concat(
            response_head_text(status, "text/plain; charset=utf-8"@, bytes.len() as nat),
            text@,
        );
    }
    r
}

} // verus!
