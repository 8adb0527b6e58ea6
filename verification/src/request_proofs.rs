//! What holds of the request parser on every input.

use crate::headers::{distinct_keys, lemma_with_entry, lemma_with_entry_lower, lower_keys};
use crate::request::{
    bad_request, first_line, header_of, header_text, headers_of, method_name, method_of,
    not_implemented, parse_spec, request_line, request_line_tokens, terminator, RequestView,
};
use crate::text::{
    find, find_from, lemma_ascii_lower_twice, lemma_find_from, lemma_find_from_first,
    lemma_split_from_nonempty, occurs_at, split, split_from, trim,
};
use vstd::prelude::*;
use vstd::utf8::{encode_scalar, encode_utf8};

verus! {

/// A request line without a space, be it empty or a single token, is a bad
/// request: status 400.
pub proof fn lemma_short_request_line(raw: Seq<u8>)
    requires
        header_text(raw) is Some,
        !first_line(header_text(raw)->Some_0).contains(' '),
    ensures
        parse_spec(raw) == Err::<RequestView, _>(bad_request()),
{
    let line = first_line(header_text(raw)->Some_0);
    lemma_find_from(line, seq![' '], 0);
    if find_from(line, seq![' '], 0) is Some {
        let i = find_from(line, seq![' '], 0)->Some_0;
        assert(line.subrange(i, i + 1)[0] == ' ');
        assert(line.contains(line[i]));
    }
}

/// A buffer without the terminator, or whose header block is not text, is a
/// bad request: status 400.
pub proof fn lemma_no_header_block(raw: Seq<u8>)
    requires
        header_text(raw) is None,
    ensures
        parse_spec(raw) == Err::<RequestView, _>(bad_request()),
{
}

/// A request line with a space whose first token is none of `GET`, `POST`
/// and `OPTIONS` is refused as not implemented: status 501.
pub proof fn lemma_unknown_method(raw: Seq<u8>)
    requires
        header_text(raw) is Some,
        first_line(header_text(raw)->Some_0).contains(' '),
        method_of(request_line_tokens(header_text(raw)->Some_0)[0]) is None,
    ensures
        parse_spec(raw) == Err::<RequestView, _>(not_implemented()),
{
    let line = first_line(header_text(raw)->Some_0);
    lemma_tokens_of_line_with_space(line);
}

/// A line with a space has at least two tokens, and the first is what
/// stands before its first space.
pub proof fn lemma_tokens_of_line_with_space(line: Seq<char>)
    requires
        line.contains(' '),
    ensures
        split(line, seq![' ']).len() >= 2,
        find(line, seq![' ']) is Some,
        split(line, seq![' '])[0] == line.take(find(line, seq![' '])->Some_0),
{
    let sep = seq![' '];
    lemma_find_from(line, sep, 0);
    let j = choose|j: int| 0 <= j < line.len() && line[j] == ' ';
    assert(line.subrange(j, j + 1) =~= sep);
    assert(occurs_at(line, sep, j));
    let i = find_from(line, sep, 0)->Some_0;
    lemma_split_from_nonempty(line, sep, i + 1);
    assert(line.subrange(0, i) =~= line.take(i));
}

/// Every element of a piece of a split at a single element is an element of
/// the sequence, and none is the separator.
pub proof fn lemma_split_pieces<T>(s: Seq<T>, c: T, pos: int, k: int)
    requires
        0 <= pos <= s.len(),
        0 <= k < split_from(s, seq![c], pos).len(),
    ensures
        forall|x: T| #[trigger]
            split_from(s, seq![c], pos)[k].contains(x) ==> x != c && s.contains(x),
    decreases s.len() - pos,
{
    let sep = seq![c];
    lemma_find_from(s, sep, pos);
    match find_from(s, sep, pos) {
        None => {
            let piece = s.subrange(pos, s.len() as int);
            assert forall|x: T| piece.contains(x) implies x != c && s.contains(x) by {
                let i = choose|i: int| 0 <= i < piece.len() && piece[i] == x;
                assert(s[pos + i] == x);
                if x == c {
                    assert(s.subrange(pos + i, pos + i + 1) =~= sep);
                    assert(occurs_at(s, sep, pos + i));
                }
            }
        },
        Some(i) => {
            let piece = s.subrange(pos, i);
            if k == 0 {
                assert forall|x: T| piece.contains(x) implies x != c && s.contains(x) by {
                    let n = choose|n: int| 0 <= n < piece.len() && piece[n] == x;
                    assert(s[pos + n] == x);
                    if x == c {
                        assert(s.subrange(pos + n, pos + n + 1) =~= sep);
                        assert(occurs_at(s, sep, pos + n));
                    }
                }
            } else {
                lemma_split_pieces(s, c, i + 1, k - 1);
                assert(split_from(s, sep, pos)[k] == split_from(s, sep, i + 1)[k - 1]);
            }
        },
    }
}

/// The encoding of a character holds the byte of a line feed only where the
/// character is a line feed.
proof fn lemma_scalar_line_feed(c: u32)
    by (bit_vector)
    ensures
        (c & 0x7F) as u8 == 10 && c <= 0x7F ==> c == 10,
        0xC0 | ((c >> 6) & 0x1F) as u8 != 10,
        0xE0 | ((c >> 12) & 0x0F) as u8 != 10,
        0xF0 | ((c >> 18) & 0x7) as u8 != 10,
        0x80 | (c & 0x3F) as u8 != 10,
        0x80 | ((c >> 6) & 0x3F) as u8 != 10,
        0x80 | ((c >> 12) & 0x3F) as u8 != 10,
{
}

/// The encoding of a text without a line feed holds no byte of a line feed.
pub proof fn lemma_encoding_without_line_feed(chars: Seq<char>)
    requires
        !chars.contains('\n'),
    ensures
        !encode_utf8(chars).contains(10u8),
    decreases chars.len(),
{
    if chars.len() > 0 {
        let rest = chars.drop_first();
        assert forall|x: char| rest.contains(x) implies chars.contains(x) by {
            let i = choose|i: int| 0 <= i < rest.len() && rest[i] == x;
            assert(chars[i + 1] == x);
        }
        lemma_encoding_without_line_feed(rest);
        let c = chars[0] as u32;
        lemma_scalar_line_feed(c);
        assert(chars.contains(chars[0]));
        assert(chars[0] != '\n');
        assert(c != 10) by {
            vstd::utf8::char_u32_cast(chars[0], c);
            vstd::utf8::char_u32_cast('\n', 10u32);
        }
        vstd::utf8::char_is_scalar(chars[0]);
        let head = encode_scalar(c);
        let tail = encode_utf8(rest);
        assert(!head.contains(10u8)) by {
            if head.contains(10u8) {
                let i = choose|i: int| 0 <= i < head.len() && head[i] == 10u8;
                assert(head[i] == 10u8);
            }
        }
        assert(!(head + tail).contains(10u8)) by {
            if (head + tail).contains(10u8) {
                let i = choose|i: int| 0 <= i < (head + tail).len() && (head + tail)[i] == 10u8;
                if i < head.len() {
                    assert(head.contains(head[i]));
                } else {
                    assert(tail.contains(tail[i - head.len()]));
                }
            }
        }
    }
}

/// What is parsed from a request, written again as a request line and
/// parsed again, gives the same method and the same path.
pub proof fn lemma_request_line_round_trip(raw: Seq<u8>)
    requires
        parse_spec(raw) is Ok,
    ensures
        ({
            let first = parse_spec(raw)->Ok_0;
            let again = parse_spec(
                encode_utf8(request_line(first.req_type, first.endpoint)) + terminator(),
            );
            again is Ok && again->Ok_0.req_type == first.req_type && again->Ok_0.endpoint
                == first.endpoint
        }),
{
    let first = parse_spec(raw)->Ok_0;
    let text = header_text(raw)->Some_0;
    let nl = seq!['\n'];
    let sp = seq![' '];
    let m = first.req_type;
    let endpoint = first.endpoint;
    // The path holds neither a space nor a line feed.
    lemma_split_from_nonempty(text, nl, 0);
    let whole = split(text, nl)[0];
    let line0 = first_line(text);
    lemma_split_pieces(text, '\n', 0, 0);
    lemma_split_pieces(line0, ' ', 0, 1);
    assert(!endpoint.contains(' '));
    assert(!endpoint.contains('\n')) by {
        if endpoint.contains('\n') {
            assert(line0.contains('\n'));
            let i = choose|i: int| 0 <= i < line0.len() && line0[i] == '\n';
            assert(whole[i] == '\n');
            assert(whole.contains('\n'));
        }
    }
    // The line that is written.
    let name = method_name(m);
    let tail = seq![' ', 'H', 'T', 'T', 'P', '/', '1', '.', '1'];
    let line = request_line(m, endpoint);
    assert(line == name + sp + endpoint + tail);
    let a = name.len() as int;
    let b = a + 1 + endpoint.len();
    assert forall|i: int| 0 <= i < line.len() implies line[i] != '\n' by {
        if i < a {
            assert(line[i] == name[i]);
        } else if i == a {
        } else if i < b {
            assert(line[i] == endpoint[i - a - 1]);
            assert(endpoint.contains(endpoint[i - a - 1]));
        } else {
            assert(line[i] == tail[i - b]);
        }
    }
    assert(!line.contains('\n'));
    // The bytes that are written end the header block where the line ends.
    let enc = encode_utf8(line);
    let bytes = enc + terminator();
    lemma_encoding_without_line_feed(line);
    let n = enc.len() as int;
    assert(bytes.subrange(n, n + 4) =~= terminator());
    assert forall|j: int| 0 <= j < n implies !occurs_at(bytes, terminator(), j) by {
        if occurs_at(bytes, terminator(), j) {
            assert(bytes.subrange(j, j + 4)[1] == 10u8);
            if j + 1 < n {
                assert(enc.contains(enc[j + 1]));
            } else {
                assert(bytes[j + 1] == terminator()[0]);
            }
        }
    }
    lemma_find_from_first(bytes, terminator(), 0, n);
    assert(bytes.take(n) =~= enc);
    assert(bytes.skip(n + 4) =~= Seq::<u8>::empty());
    vstd::utf8::encode_utf8_valid_utf8(line);
    vstd::utf8::encode_utf8_decode_utf8(line);
    assert(header_text(bytes) == Some(line));
    // The line is the only line.
    lemma_find_from(line, nl, 0);
    assert(find_from(line, nl, 0) is None) by {
        if find_from(line, nl, 0) is Some {
            let i = find_from(line, nl, 0)->Some_0;
            assert(line.subrange(i, i + 1)[0] == '\n');
        }
    }
    assert(line.subrange(0, line.len() as int) =~= line);
    assert(split(line, nl)[0] == line);
    assert(line.last() == '1');
    assert(first_line(line) == line);
    // Its first two tokens are the name of the method and the path.
    assert(line.subrange(a, a + 1) =~= sp);
    assert forall|j: int| 0 <= j < a implies !occurs_at(line, sp, j) by {
        if occurs_at(line, sp, j) {
            assert(line.subrange(j, j + 1)[0] == ' ');
            assert(line[j] == name[j]);
        }
    }
    lemma_find_from_first(line, sp, 0, a);
    assert(line.subrange(0, a) =~= name);
    assert(line.subrange(b, b + 1) =~= sp);
    assert forall|j: int| a + 1 <= j < b implies !occurs_at(line, sp, j) by {
        if occurs_at(line, sp, j) {
            assert(line.subrange(j, j + 1)[0] == ' ');
            assert(line[j] == endpoint[j - a - 1]);
            assert(endpoint.contains(endpoint[j - a - 1]));
        }
    }
    lemma_find_from_first(line, sp, a + 1, b);
    assert(line.subrange(a + 1, b) =~= endpoint);
    lemma_split_from_nonempty(line, sp, b + 1);
    let tokens = split(line, sp);
    assert(tokens == seq![name] + split_from(line, sp, a + 1));
    assert(split_from(line, sp, a + 1) == seq![endpoint] + split_from(line, sp, b + 1));
    assert(tokens[0] == name);
    assert(tokens[1] == endpoint);
    assert(method_of(name) == Some(m)) by {
        assert(seq!['G', 'E', 'T'].len() != seq!['P', 'O', 'S', 'T'].len());
        assert(seq!['G', 'E', 'T'].len() != seq!['O', 'P', 'T', 'I', 'O', 'N', 'S'].len());
        assert(seq!['P', 'O', 'S', 'T'].len() != seq!['O', 'P', 'T', 'I', 'O', 'N', 'S'].len());
    }
    assert(request_line_tokens(line) == tokens);
}

/// The header map of a request holds no key twice, whatever the lines.
pub proof fn lemma_headers_distinct(lines: Seq<Seq<char>>)
    ensures
        distinct_keys(headers_of(lines)),
    decreases lines.len(),
{
    if lines.len() > 0 {
        lemma_headers_distinct(lines.drop_last());
        match header_of(lines.last()) {
            Some(e) => {
                lemma_with_entry(headers_of(lines.drop_last()), e.0, e.1);
            },
            None => {},
        }
    }
}

/// Every key of the header map of a request is in lower case, however the
/// lines wrote it.
pub proof fn lemma_headers_lower(lines: Seq<Seq<char>>)
    ensures
        lower_keys(headers_of(lines)),
    decreases lines.len(),
{
    if lines.len() > 0 {
        lemma_headers_lower(lines.drop_last());
        match header_of(lines.last()) {
            Some(e) => {
                lemma_find_from(lines.last(), seq![':', ' '], 0);
                let i = find(lines.last(), seq![':', ' '])->Some_0;
                lemma_ascii_lower_twice(trim(lines.last().take(i)));
                lemma_with_entry_lower(headers_of(lines.drop_last()), e.0, e.1);
            },
            None => {},
        }
    }
}

} // verus!
