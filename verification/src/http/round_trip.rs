//! What a client sends is what the server reads.

use crate::encoding::{
    lemma_encode_concat, lemma_encode_injective, lemma_first_ascii, lemma_is_ascii_property,
};
use crate::http::laws::{
    encodes, law_escaped_bytes_are_read_back, law_header_fields_do_not_matter,
};
use crate::http::{
    acceptable, all_upper, first_line, is_decoded, name_and_value, parse_request_spec, path_end,
    path_text, query_text, raw_params, without_trailing_cr,
};
use crate::search::{
    equal_to, fields, first_of, lemma_first_from_is, lemma_first_from_range,
};
use vstd::prelude::*;
use vstd::string::*;
use vstd::utf8::*;

verus! {

proof fn lemma_first_after(a: Seq<char>, sep: char, rest: Seq<char>)
    requires
        !a.contains(sep),
    ensures
        first_of(a + seq![sep] + rest, sep) == a.len(),
        first_of(a, sep) == a.len(),
{
    let s = a + seq![sep] + rest;
    assert forall|i: int| 0 <= i < a.len() implies !equal_to(sep)(#[trigger] s[i]) by {
        assert(s[i] == a[i]);
        assert(a.contains(a[i]));
    }
    assert(s[a.len() as int] == sep);
    lemma_first_from_is(s, equal_to(sep), 0, a.len() as int);
    assert forall|i: int| 0 <= i < a.len() implies !equal_to(sep)(#[trigger] a[i]) by {
        assert(a.contains(a[i]));
    }
    lemma_first_from_is(a, equal_to(sep), 0, a.len() as int);
}

/// A piece in front of a separator is the first field, and what follows makes
/// up the others.
proof fn lemma_fields_front(a: Seq<char>, sep: char, rest: Seq<char>)
    requires
        a.len() > 0,
        !a.contains(sep),
    ensures
        fields(a + seq![sep] + rest, sep) == seq![a] + fields(rest, sep),
        fields(a, sep) == seq![a],
{
    let s = a + seq![sep] + rest;
    lemma_first_after(a, sep, rest);
    assert(s.take(a.len() as int) =~= a);
    assert(s.skip(a.len() as int + 1) =~= rest);
    assert(a.take(a.len() as int) =~= a);
    assert(fields(a, sep) =~= seq![a]);
}

/// A request line with a method in capitals and a target that is a path, as
/// clients send it, is read back, whatever bytes follow it.
pub proof fn law_request_is_read_back(method: Seq<char>, target: Seq<char>, rest: Seq<u8>)
    requires
        method.len() > 0,
        all_upper(method),
        target.len() > 0,
        target[0] == '/',
        !target.contains(' '),
        !target.contains('\n'),
    ensures
        parse_request_spec(
            encode_utf8(method + " "@ + target + " HTTP/1.1\r\n"@) + rest,
        ) == Some((method, target)),
{
    let text = method + " "@ + target + " HTTP/1.1\r\n"@;
    let version = "HTTP/1.1"@;
    reveal_strlit(" ");
    reveal_strlit("/");
    reveal_strlit("HTTP/1.");
    reveal_strlit("HTTP/1.1");
    reveal_strlit(" HTTP/1.1\r\n");
    let words = method + seq![' '] + target + seq![' '] + version;
    let line = words + seq!['\r'];
    assert(text =~= line + seq!['\n']);
    assert forall|i: int| 0 <= i < method.len() implies method[i] != ' ' && method[i] != '\n' by {
        assert('A' <= method[i] <= 'Z');
    }
    assert(!line.contains('\n')) by {
        if line.contains('\n') {
            let i = choose|i: int| 0 <= i < line.len() && line[i] == '\n';
            let m = method.len();
            if m + 1 <= i < m + 1 + target.len() {
                assert(target[i - m - 1] == line[i]);
                assert(target.contains(line[i]));
            } else if i > m + 1 + target.len() && i < line.len() - 1 {
                assert(line[i] == version[i - m - target.len() - 2]);
            }
        }
    }
    let bytes = encode_utf8(line);
    let head = encode_utf8(text) + rest;
    let lf = '\n' as u8;
    lemma_first_after(line, '\n', Seq::empty());
    lemma_is_ascii_property('\n');
    lemma_first_ascii(line, equal_to('\n'), equal_to(lf));
    assert(line.take(line.len() as int) =~= line);
    lemma_first_from_range(bytes, equal_to(lf), 0);
    assert(!bytes.contains(lf)) by {
        if bytes.contains(lf) {
            let i = choose|i: int| 0 <= i < bytes.len() && bytes[i] == lf;
            assert(!equal_to(lf)(bytes[i]));
        }
    }
    lemma_encode_concat(line, seq!['\n']);
    is_ascii_chars_encode_utf8(seq!['\n']);
    assert(encode_utf8(seq!['\n']) =~= seq![lf]);
    assert(head =~= bytes + seq![lf] + rest);
    law_header_fields_do_not_matter(bytes, rest);
    assert(first_line(bytes) =~= bytes);
    encode_utf8_valid_utf8(line);
    encode_utf8_decode_utf8(line);
    assert(line.drop_last() =~= words);
    assert(words.last() == version.last());
    assert(without_trailing_cr(words) == words);
    assert(without_trailing_cr(line) == words);
    assert(!version.contains(' '));
    let tail = target + seq![' '] + version;
    assert(words =~= method + seq![' '] + tail);
    lemma_fields_front(method, ' ', tail);
    lemma_fields_front(target, ' ', version);
    lemma_fields_front(version, ' ', Seq::empty());
    let list = fields(words, ' ');
    assert(list =~= seq![method, target, version]);
    assert("/"@ =~= target.subrange(0, 1));
    assert("HTTP/1."@ =~= version.subrange(0, 7));
    assert(acceptable(list));
}

/// Whether a client may send `sent` for a parameter: name and value written as
/// [`encodes`] allows, the name without any delimiter, and the value without
/// those that would end it. An empty value may be left out together with the
/// equals sign, where there is a name.
pub open spec fn is_sent(
    sent: (Seq<char>, Option<Seq<char>>),
    param: (Seq<char>, Seq<char>),
) -> bool {
    &&& encodes(encode_utf8(sent.0), encode_utf8(param.0))
    &&& !sent.0.contains('&') && !sent.0.contains('=') && !sent.0.contains('#')
    &&& match sent.1 {
        Some(value) => {
            &&& encodes(encode_utf8(value), encode_utf8(param.1))
            &&& !value.contains('&') && !value.contains('#')
        },
        None => sent.0.len() > 0 && param.1.len() == 0,
    }
}

/// A text that was sent is read back.
proof fn lemma_sent(sent: Seq<char>, text: Seq<char>)
    requires
        encodes(encode_utf8(sent), encode_utf8(text)),
    ensures
        forall|read: Seq<char>| #[trigger] is_decoded(read, sent) ==> read == text,
{
    law_escaped_bytes_are_read_back(encode_utf8(sent), encode_utf8(text));
    encode_utf8_valid_utf8(text);
    assert forall|read: Seq<char>| #[trigger] is_decoded(read, sent) implies read == text by {
        lemma_encode_injective(read, text);
    }
}

/// One parameter as it stands in a query string.
pub open spec fn query_piece(sent: (Seq<char>, Option<Seq<char>>)) -> Seq<char> {
    match sent.1 {
        Some(value) => sent.0 + seq!['='] + value,
        None => sent.0,
    }
}

/// A query string of parameters.
pub open spec fn query_string(sent: Seq<(Seq<char>, Option<Seq<char>>)>) -> Seq<char>
    decreases sent.len(),
{
    if sent.len() == 0 {
        Seq::empty()
    } else if sent.len() == 1 {
        query_piece(sent[0])
    } else {
        query_piece(sent[0]) + seq!['&'] + query_string(sent.drop_first())
    }
}

proof fn lemma_query_piece(sent: (Seq<char>, Option<Seq<char>>), param: (Seq<char>, Seq<char>))
    requires
        is_sent(sent, param),
    ensures
        query_piece(sent).len() > 0,
        !query_piece(sent).contains('&'),
        !query_piece(sent).contains('#'),
        name_and_value(query_piece(sent)) == (
            sent.0,
            match sent.1 {
                Some(value) => value,
                None => Seq::empty(),
            },
        ),
{
    let p = query_piece(sent);
    let n = sent.0;
    if let Some(v) = sent.1 {
        lemma_first_after(n, '=', v);
        assert(p.take(n.len() as int) =~= n);
        assert(p.skip(n.len() as int + 1) =~= v);
        assert forall|i: int| 0 <= i < p.len() implies p[i] != '&' && p[i] != '#' by {
            if i < n.len() {
                assert(n.contains(n[i]));
            } else if i > n.len() {
                assert(v.contains(v[i - n.len() - 1]));
            }
        }
    } else {
        lemma_first_after(n, '=', Seq::empty());
    }
}

proof fn lemma_query_string(
    sent: Seq<(Seq<char>, Option<Seq<char>>)>,
    params: Seq<(Seq<char>, Seq<char>)>,
)
    requires
        sent.len() == params.len(),
        forall|i: int| 0 <= i < sent.len() ==> is_sent(#[trigger] sent[i], params[i]),
    ensures
        fields(query_string(sent), '&') == sent.map_values(
            |p: (Seq<char>, Option<Seq<char>>)| query_piece(p),
        ),
        !query_string(sent).contains('#'),
    decreases sent.len(),
{
    let q = query_string(sent);
    let pieces = sent.map_values(|p: (Seq<char>, Option<Seq<char>>)| query_piece(p));
    if sent.len() == 0 {
        assert(fields(q, '&') =~= pieces);
    } else {
        let first = query_piece(sent[0]);
        lemma_query_piece(sent[0], params[0]);
        if sent.len() == 1 {
            lemma_fields_front(first, '&', Seq::empty());
            assert(fields(q, '&') =~= pieces);
        } else {
            let rest = sent.drop_first();
            let rest_params = params.drop_first();
            assert forall|i: int| 0 <= i < rest.len() implies is_sent(
                #[trigger] rest[i],
                rest_params[i],
            ) by {
                assert(rest[i] == sent[i + 1]);
            }
            lemma_query_string(rest, rest_params);
            lemma_fields_front(first, '&', query_string(rest));
            assert(fields(q, '&') =~= pieces);
            assert forall|i: int| 0 <= i < q.len() implies q[i] != '#' by {
                if i < first.len() {
                    assert(first.contains(first[i]));
                } else if i > first.len() {
                    let r = query_string(rest);
                    assert(r.contains(r[i - first.len() - 1]));
                }
            }
        }
    }
}

/// Query parameters are read back, in order, in whichever way they were
/// written, on any path, and the path is not touched by them. A fragment that
/// follows the query does not matter.
pub proof fn law_parameters_are_read_back(
    path: Seq<char>,
    sent: Seq<(Seq<char>, Option<Seq<char>>)>,
    fragment: Seq<char>,
    params: Seq<(Seq<char>, Seq<char>)>,
)
    requires
        !path.contains('?'),
        !path.contains('#'),
        sent.len() == params.len(),
        forall|i: int| 0 <= i < sent.len() ==> is_sent(#[trigger] sent[i], params[i]),
        fragment.len() == 0 || fragment[0] == '#',
    ensures
        ({
            let target = path + "?"@ + query_string(sent) + fragment;
            &&& path_text(target) == path
            &&& raw_params(target).len() == params.len()
            &&& forall|i: int, name: Seq<char>|
                0 <= i < params.len() && #[trigger] is_decoded(name, raw_params(target)[i].0)
                    ==> name == params[i].0
            &&& forall|i: int, value: Seq<char>|
                0 <= i < params.len() && #[trigger] is_decoded(value, raw_params(target)[i].1)
                    ==> value == params[i].1
        }),
{
    let q = query_string(sent);
    let after = q + fragment;
    let target = path + "?"@ + q + fragment;
    reveal_strlit("?");
    assert(target =~= path + seq!['?'] + after);
    lemma_first_after(path, '?', after);
    assert(target.skip(path.len() as int + 1) =~= after);
    lemma_query_string(sent, params);
    if fragment.len() == 0 {
        assert(after =~= q);
        lemma_first_after(q, '#', Seq::empty());
    } else {
        assert(after =~= q + seq!['#'] + fragment.drop_first());
        lemma_first_after(q, '#', fragment.drop_first());
    }
    assert(after.take(q.len() as int) =~= q);
    assert(query_text(target) == Some(q));
    let raw = raw_params(target);
    assert forall|i: int| 0 <= i < params.len() implies #[trigger] raw[i] == (
        sent[i].0,
        match sent[i].1 {
            Some(value) => value,
            None => Seq::empty(),
        },
    ) by {
        lemma_query_piece(sent[i], params[i]);
        assert(fields(q, '&')[i] == query_piece(sent[i]));
    }
    assert forall|i: int, name: Seq<char>|
        0 <= i < params.len() && #[trigger] is_decoded(name, raw[i].0) implies name
        == params[i].0 by {
        assert(raw[i].0 == sent[i].0 && is_sent(sent[i], params[i]));
        lemma_sent(sent[i].0, params[i].0);
    }
    assert forall|i: int, value: Seq<char>|
        0 <= i < params.len() && #[trigger] is_decoded(value, raw[i].1) implies value
        == params[i].1 by {
        assert(is_sent(sent[i], params[i]));
        if let Some(v) = sent[i].1 {
            assert(raw[i].1 == v);
            lemma_sent(v, params[i].1);
        } else {
            let none = Seq::<char>::empty();
            assert(raw[i].1 == none);
            assert(params[i].1 =~= none);
            assert(encode_utf8(none) =~= Seq::empty());
            lemma_sent(none, params[i].1);
        }
    }
    assert forall|i: int| 0 <= i < path.len() implies !path_end()(#[trigger] target[i]) by {
        assert(target[i] == path[i]);
        assert(path.contains(path[i]));
    }
    assert(path_end()(target[path.len() as int]));
    lemma_first_from_is(target, path_end(), 0, path.len() as int);
    assert(path_text(target) =~= path);
}

} // verus!
