//! Sequences of characters and bytes: searching, splitting, trimming and
//! decimal numerals, each as a mathematical function with an executable
//! counterpart.

use vstd::prelude::*;
use vstd::std_specs::iter::IteratorSpec;
use vstd::utf8::{decode_utf8, valid_utf8};

verus! {

/// `pat` stands in `s` at position `i`.
pub open spec fn occurs_at<T>(s: Seq<T>, pat: Seq<T>, i: int) -> bool {
    0 <= i && i + pat.len() <= s.len() && s.subrange(i, i + pat.len()) == pat
}

/// The position of the first occurrence of `pat` in `s` at or after `from`.
pub open spec fn find_from<T>(s: Seq<T>, pat: Seq<T>, from: int) -> Option<int>
    decreases s.len() - from + 1,
{
    if from < 0 || from + pat.len() > s.len() {
        None
    } else if occurs_at(s, pat, from) {
        Some(from)
    } else {
        find_from(s, pat, from + 1)
    }
}

/// The position of the first occurrence of `pat` in `s`.
pub open spec fn find<T>(s: Seq<T>, pat: Seq<T>) -> Option<int> {
    find_from(s, pat, 0)
}

/// `find_from` returns the least position at or after `from` where `pat`
/// occurs, and `None` exactly when there is no such position.
pub proof fn lemma_find_from<T>(s: Seq<T>, pat: Seq<T>, from: int)
    requires
        0 <= from,
    ensures
        match find_from(s, pat, from) {
            Some(i) => from <= i && occurs_at(s, pat, i) && forall|j: int|
                from <= j < i ==> !occurs_at(s, pat, j),
            None => forall|j: int| from <= j ==> !occurs_at(s, pat, j),
        },
    decreases s.len() - from + 1,
{
    if from + pat.len() > s.len() {
    } else if occurs_at(s, pat, from) {
    } else {
        lemma_find_from(s, pat, from + 1);
    }
}

/// A position where `pat` occurs, with no occurrence between `from` and it,
/// is what `find_from` returns.
pub proof fn lemma_find_from_first<T>(s: Seq<T>, pat: Seq<T>, from: int, i: int)
    requires
        0 <= from <= i,
        occurs_at(s, pat, i),
        forall|j: int| from <= j < i ==> !occurs_at(s, pat, j),
    ensures
        find_from(s, pat, from) == Some(i),
{
    lemma_find_from(s, pat, from);
}

/// The pieces of `s` between the occurrences of `sep`, found from left to
/// right without overlap, starting at position `pos`.
pub open spec fn split_from<T>(s: Seq<T>, sep: Seq<T>, pos: int) -> Seq<Seq<T>>
    decreases s.len() - pos,
{
    if sep.len() == 0 || pos < 0 || pos > s.len() {
        seq![s]
    } else {
        match find_from(s, sep, pos) {
            None => seq![s.subrange(pos, s.len() as int)],
            Some(i) => {
                proof {
                    lemma_find_from(s, sep, pos);
                }
                seq![s.subrange(pos, i)] + split_from(s, sep, i + sep.len())
            },
        }
    }
}

/// The pieces of `s` between the occurrences of `sep`. There is always at
/// least one piece; a sequence without `sep` is its own single piece.
pub open spec fn split<T>(s: Seq<T>, sep: Seq<T>) -> Seq<Seq<T>> {
    split_from(s, sep, 0)
}

/// A split has at least one piece.
pub proof fn lemma_split_from_nonempty<T>(s: Seq<T>, sep: Seq<T>, pos: int)
    ensures
        split_from(s, sep, pos).len() >= 1,
    decreases s.len() - pos,
{
    if sep.len() == 0 || pos < 0 || pos > s.len() {
    } else {
        match find_from(s, sep, pos) {
            None => {},
            Some(i) => {
                lemma_find_from(s, sep, pos);
                lemma_split_from_nonempty(s, sep, i + sep.len());
            },
        }
    }
}

/// The first occurrence of `pat` in the slice at or after `from`.
pub fn find_bytes(s: &[u8], pat: &[u8], from: usize) -> (r: Option<usize>)
    ensures
        match r {
            Some(i) => find_from(s@, pat@, from as int) == Some(i as int),
            None => find_from(s@, pat@, from as int) is None,
        },
{
    if pat.len() > s.len() || from > s.len() - pat.len() {
        return None;
    }
    let last: usize = s.len() - pat.len();
    let mut i: usize = from;
    while i <= last
        invariant
            from <= i <= last + 1,
            last == s.len() - pat.len(),
            find_from(s@, pat@, from as int) == find_from(s@, pat@, i as int),
        decreases last + 1 - i,
    {
        let mut k: usize = 0;
        while k < pat.len() && s[i + k] == pat[k]
            invariant
                i <= last,
                last == s.len() - pat.len(),
                k <= pat.len(),
                s@.subrange(i as int, i + k) == pat@.subrange(0, k as int),
            decreases pat.len() - k,
        {
            k += 1;
            assert(s@.subrange(i as int, i + k) =~= s@.subrange(i as int, i + k - 1).push(
                s@[i + k - 1],
            ));
            assert(pat@.subrange(0, k as int) =~= pat@.subrange(0, k - 1).push(pat@[k - 1]));
        }
        if k == pat.len() {
            assert(pat@.subrange(0, k as int) =~= pat@);
            return Some(i);
        }
        assert(!occurs_at(s@, pat@, i as int)) by {
            if occurs_at(s@, pat@, i as int) {
                assert(s@.subrange(i as int, i + pat@.len())[k as int] == pat@[k as int]);
            }
        }
        i += 1;
    }
    None
}

/// The first occurrence of `pat` in the slice at or after `from`.
pub fn find_chars(s: &[char], pat: &[char], from: usize) -> (r: Option<usize>)
    ensures
        match r {
            Some(i) => find_from(s@, pat@, from as int) == Some(i as int),
            None => find_from(s@, pat@, from as int) is None,
        },
{
    if pat.len() > s.len() || from > s.len() - pat.len() {
        return None;
    }
    let last: usize = s.len() - pat.len();
    let mut i: usize = from;
    while i <= last
        invariant
            from <= i <= last + 1,
            last == s.len() - pat.len(),
            find_from(s@, pat@, from as int) == find_from(s@, pat@, i as int),
        decreases last + 1 - i,
    {
        let mut k: usize = 0;
        while k < pat.len() && s[i + k] == pat[k]
            invariant
                i <= last,
                last == s.len() - pat.len(),
                k <= pat.len(),
                s@.subrange(i as int, i + k) == pat@.subrange(0, k as int),
            decreases pat.len() - k,
        {
            k += 1;
            assert(s@.subrange(i as int, i + k) =~= s@.subrange(i as int, i + k - 1).push(
                s@[i + k - 1],
            ));
            assert(pat@.subrange(0, k as int) =~= pat@.subrange(0, k - 1).push(pat@[k - 1]));
        }
        if k == pat.len() {
            assert(pat@.subrange(0, k as int) =~= pat@);
            return Some(i);
        }
        assert(!occurs_at(s@, pat@, i as int)) by {
            if occurs_at(s@, pat@, i as int) {
                assert(s@.subrange(i as int, i + pat@.len())[k as int] == pat@[k as int]);
            }
        }
        i += 1;
    }
    None
}

/// The characters of a string slice, in order.
pub fn chars_of(s: &str) -> (out: Vec<char>)
    ensures
        out@ == s@,
{
    let mut out: Vec<char> = Vec::new();
    for c in it: s.chars()
        invariant
            out@ == it.seq().take(it.index() as int),
            it.seq() == s@,
    {
        out.push(c);
    }
    out
}

/// The pieces of `s` between the occurrences of `sep`, each as a vector of
/// its own.
pub fn split_chars(s: &[char], sep: &[char]) -> (out: Vec<Vec<char>>)
    requires
        sep@.len() > 0,
    ensures
        views(out@) == split(s@, sep@),
        out@.len() >= 1,
{
    let mut out: Vec<Vec<char>> = Vec::new();
    let mut pos: usize = 0;
    let len = s.len();
    assert(views(out@) + split_from(s@, sep@, 0) =~= split(s@, sep@));
    loop
        invariant
            sep@.len() > 0,
            pos <= len == s@.len(),
            views(out@) + split_from(s@, sep@, pos as int) == split(s@, sep@),
        decreases len - pos,
    {
        let ghost before = views(out@);
        match find_chars(s, sep, pos) {
            None => {
                let piece = copy_range(s, pos, len);
                out.push(piece);
                proof {
                    assert(views(out@) =~= before.push(piece@));
                    assert(before + seq![piece@] =~= before.push(piece@));
                }
                return out;
            },
            Some(i) => {
                proof {
                    lemma_find_from(s@, sep@, pos as int);
                    assert(occurs_at(s@, sep@, i as int));
                }
                let piece = copy_range(s, pos, i);
                out.push(piece);
                proof {
                    assert(views(out@) =~= before.push(piece@));
                    assert(before + (seq![piece@] + split_from(s@, sep@, i + sep@.len()))
                        =~= before.push(piece@) + split_from(s@, sep@, i + sep@.len()));
                }
                pos = i + sep.len();
            },
        }
    }
}

/// Whether a character parts the tokens of a list: a comma or a space.
pub open spec fn is_list_separator(c: char) -> bool {
    c == ',' || c == ' '
}

/// How many characters stand at the start of `s` before its first comma or
/// space.
pub open spec fn word_len(s: Seq<char>) -> nat
    decreases s.len(),
{
    if s.len() == 0 || is_list_separator(s[0]) {
        0
    } else {
        1 + word_len(s.drop_first())
    }
}

/// The word at the start of `s` ends within `s`, at its first comma or
/// space.
pub proof fn lemma_word_len(s: Seq<char>)
    ensures
        word_len(s) <= s.len(),
        forall|i: int| 0 <= i < word_len(s) ==> !is_list_separator(#[trigger] s[i]),
        word_len(s) < s.len() ==> is_list_separator(s[word_len(s) as int]),
    decreases s.len(),
{
    if s.len() == 0 || is_list_separator(s[0]) {
    } else {
        let rest = s.drop_first();
        lemma_word_len(rest);
        assert forall|i: int| 0 <= i < word_len(s) implies !is_list_separator(
            #[trigger] s[i],
        ) by {
            if i > 0 {
                assert(s[i] == rest[i - 1]);
            }
        }
        if word_len(s) < s.len() {
            assert(s[word_len(s) as int] == rest[word_len(rest) as int]);
        }
    }
}

/// The tokens of a list: the pieces of `s`, none of them empty, that stand
/// between its commas and spaces, in their order.
pub open spec fn tokens(s: Seq<char>) -> Seq<Seq<char>>
    decreases s.len(),
{
    if s.len() == 0 {
        Seq::empty()
    } else if is_list_separator(s[0]) {
        tokens(s.drop_first())
    } else {
        proof {
            lemma_word_len(s);
        }
        seq![s.take(word_len(s) as int)] + tokens(s.skip(word_len(s) as int))
    }
}

/// No token of a list is empty, and none holds a comma or a space.
pub proof fn lemma_tokens(s: Seq<char>, k: int)
    requires
        0 <= k < tokens(s).len(),
    ensures
        tokens(s)[k].len() > 0,
        forall|i: int|
            0 <= i < tokens(s)[k].len() ==> !is_list_separator(#[trigger] tokens(s)[k][i]),
    decreases s.len(),
{
    if s.len() == 0 {
    } else if is_list_separator(s[0]) {
        lemma_tokens(s.drop_first(), k);
    } else {
        lemma_word_len(s);
        if k > 0 {
            lemma_tokens(s.skip(word_len(s) as int), k - 1);
        }
    }
}

/// The tokens of a list, each as a vector of its own.
pub fn list_tokens(s: &[char]) -> (out: Vec<Vec<char>>)
    ensures
        views(out@) == tokens(s@),
{
    let mut out: Vec<Vec<char>> = Vec::new();
    let len = s.len();
    let mut pos: usize = 0;
    assert(s@.skip(0) =~= s@);
    assert(views(out@) + tokens(s@) =~= tokens(s@));
    while pos < len
        invariant
            pos <= len == s@.len(),
            views(out@) + tokens(s@.skip(pos as int)) == tokens(s@),
        decreases len - pos,
    {
        let ghost rest = s@.skip(pos as int);
        if s[pos] == ',' || s[pos] == ' ' {
            assert(rest.drop_first() =~= s@.skip(pos + 1));
            pos += 1;
        } else {
            let mut end: usize = pos + 1;
            assert(rest[0] == s@[pos as int]);
            assert(rest.drop_first() =~= s@.skip(pos + 1));
            while end < len && s[end] != ',' && s[end] != ' '
                invariant
                    pos < end <= len == s@.len(),
                    rest == s@.skip(pos as int),
                    !is_list_separator(rest[0]),
                    word_len(rest) == (end - pos) + word_len(s@.skip(end as int)),
                decreases len - end,
            {
                assert(s@.skip(end as int).drop_first() =~= s@.skip(end + 1));
                end += 1;
            }
            assert(word_len(rest) == end - pos) by {
                if end < len {
                    assert(is_list_separator(s@.skip(end as int)[0]));
                }
            }
            let ghost before = views(out@);
            let piece = copy_range(s, pos, end);
            out.push(piece);
            proof {
                assert(piece@ =~= rest.take(word_len(rest) as int));
                assert(rest.skip(word_len(rest) as int) =~= s@.skip(end as int));
                assert(views(out@) =~= before.push(piece@));
                assert(before + (seq![piece@] + tokens(s@.skip(end as int))) =~= before.push(
                    piece@,
                ) + tokens(s@.skip(end as int)));
            }
            pos = end;
        }
    }
    assert(s@.skip(pos as int) =~= Seq::<char>::empty());
    assert(views(out@) + Seq::<Seq<char>>::empty() =~= views(out@));
    out
}

/// The contents of each vector of `v`, in order.
pub open spec fn views(v: Seq<Vec<char>>) -> Seq<Seq<char>> {
    Seq::new(v.len(), |i: int| v[i]@)
}

/// The elements of `s` from position `from` up to, not including, `to`.
pub fn copy_range(s: &[char], from: usize, to: usize) -> (out: Vec<char>)
    requires
        from <= to <= s@.len(),
    ensures
        out@ == s@.subrange(from as int, to as int),
{
    let mut out: Vec<char> = Vec::new();
    let mut i: usize = from;
    while i < to
        invariant
            from <= i <= to <= s@.len(),
            out@ == s@.subrange(from as int, i as int),
        decreases to - i,
    {
        out.push(s[i]);
        i += 1;
        assert(s@.subrange(from as int, i as int) =~= s@.subrange(from as int, i - 1).push(
            s@[i - 1],
        ));
    }
    out
}

/// Whether two slices hold the same characters.
pub fn same_chars(a: &[char], b: &[char]) -> (r: bool)
    ensures
        r == (a@ == b@),
{
    if a.len() != b.len() {
        return false;
    }
    let mut i: usize = 0;
    while i < a.len()
        invariant
            a@.len() == b@.len(),
            i <= a@.len(),
            a@.take(i as int) == b@.take(i as int),
        decreases a@.len() - i,
    {
        if a[i] != b[i] {
            return false;
        }
        i += 1;
        assert(a@.take(i as int) =~= a@.take(i - 1).push(a@[i - 1]));
        assert(b@.take(i as int) =~= b@.take(i - 1).push(b@[i - 1]));
    }
    assert(a@ =~= a@.take(i as int));
    assert(b@ =~= b@.take(i as int));
    true
}

/// `s` begins with `prefix`.
pub open spec fn starts_with<T>(s: Seq<T>, prefix: Seq<T>) -> bool {
    occurs_at(s, prefix, 0)
}

/// `s` ends with `suffix`.
pub open spec fn ends_with<T>(s: Seq<T>, suffix: Seq<T>) -> bool {
    occurs_at(s, suffix, s.len() - suffix.len())
}

/// Whether `s` begins with `prefix`.
pub fn has_prefix(s: &[char], prefix: &[char]) -> (r: bool)
    ensures
        r == starts_with(s@, prefix@),
{
    if prefix.len() > s.len() {
        return false;
    }
    let head = copy_range(s, 0, prefix.len());
    same_chars(head.as_slice(), prefix)
}

/// Whether `s` ends with `suffix`.
pub fn has_suffix(s: &[char], suffix: &[char]) -> (r: bool)
    ensures
        r == ends_with(s@, suffix@),
{
    let n = s.len();
    let m = suffix.len();
    if m > n {
        return false;
    }
    let tail = copy_range(s, n - m, n);
    same_chars(tail.as_slice(), suffix)
}

/// The position of the last occurrence of `c` in `s`.
pub open spec fn rfind_char(s: Seq<char>, c: char) -> Option<int>
    decreases s.len(),
{
    if s.len() == 0 {
        None
    } else if s.last() == c {
        Some(s.len() - 1)
    } else {
        rfind_char(s.drop_last(), c)
    }
}

/// `rfind_char` returns the greatest position that holds `c`.
pub proof fn lemma_rfind_char(s: Seq<char>, c: char)
    ensures
        match rfind_char(s, c) {
            Some(i) => 0 <= i < s.len() && s[i] == c && forall|j: int|
                i < j < s.len() ==> s[j] != c,
            None => forall|j: int| 0 <= j < s.len() ==> s[j] != c,
        },
    decreases s.len(),
{
    if s.len() == 0 {
    } else if s.last() == c {
    } else {
        lemma_rfind_char(s.drop_last(), c);
        assert(forall|j: int| 0 <= j < s.len() - 1 ==> s.drop_last()[j] == s[j]);
    }
}

/// The position of the last occurrence of `c` in the slice.
pub fn last_index_of(s: &[char], c: char) -> (r: Option<usize>)
    ensures
        match r {
            Some(i) => rfind_char(s@, c) == Some(i as int),
            None => rfind_char(s@, c) is None,
        },
{
    let mut n: usize = s.len();
    assert(s@ =~= s@.take(n as int));
    while n > 0
        invariant
            n <= s@.len(),
            rfind_char(s@, c) == rfind_char(s@.take(n as int), c),
        decreases n,
    {
        if s[n - 1] == c {
            assert(s@.take(n as int).last() == c);
            return Some(n - 1);
        }
        assert(s@.take(n as int).drop_last() =~= s@.take(n - 1));
        n -= 1;
    }
    None
}

/// The last segment of a path: what follows its last slash, and the whole
/// path where it has none.
pub open spec fn last_segment(path: Seq<char>) -> Seq<char> {
    match rfind_char(path, '/') {
        Some(i) => path.skip(i + 1),
        None => path,
    }
}

/// The last segment of a path.
pub fn last_segment_chars(path: &[char]) -> (out: Vec<char>)
    ensures
        out@ == last_segment(path@),
{
    let len = path.len();
    match last_index_of(path, '/') {
        Some(i) => {
            proof {
                lemma_rfind_char(path@, '/');
            }
            assert(path@.subrange(i + 1, len as int) =~= path@.skip(i + 1));
            copy_range(path, i + 1, len)
        },
        None => {
            assert(path@.subrange(0, len as int) =~= path@);
            copy_range(path, 0, len)
        },
    }
}

/// White space as Unicode defines it (`White_Space`).
pub open spec fn is_whitespace(c: char) -> bool {
    let n = c as u32;
    (0x09 <= n <= 0x0D) || n == 0x20 || n == 0x85 || n == 0xA0 || n == 0x1680 || (0x2000 <= n
        <= 0x200A) || n == 0x2028 || n == 0x2029 || n == 0x202F || n == 0x205F || n == 0x3000
}

/// `s` without the white space at its start.
pub open spec fn trim_start(s: Seq<char>) -> Seq<char>
    decreases s.len(),
{
    if s.len() > 0 && is_whitespace(s[0]) {
        trim_start(s.drop_first())
    } else {
        s
    }
}

/// `s` without the white space at its end.
pub open spec fn trim_end(s: Seq<char>) -> Seq<char>
    decreases s.len(),
{
    if s.len() > 0 && is_whitespace(s.last()) {
        trim_end(s.drop_last())
    } else {
        s
    }
}

/// `s` without the white space at either end.
pub open spec fn trim(s: Seq<char>) -> Seq<char> {
    trim_end(trim_start(s))
}

/// Whether `c` is white space.
pub fn whitespace(c: char) -> (r: bool)
    ensures
        r == is_whitespace(c),
{
    let n: u32 = c as u32;
    (0x09 <= n && n <= 0x0D) || n == 0x20 || n == 0x85 || n == 0xA0 || n == 0x1680 || (0x2000 <= n
        && n <= 0x200A) || n == 0x2028 || n == 0x2029 || n == 0x202F || n == 0x205F || n == 0x3000
}

/// The slice without the white space at either end.
pub fn trim_chars(s: &[char]) -> (out: Vec<char>)
    ensures
        out@ == trim(s@),
{
    let mut a: usize = 0;
    assert(s@ =~= s@.skip(0));
    while a < s.len() && whitespace(s[a])
        invariant
            a <= s@.len(),
            trim_start(s@) == trim_start(s@.skip(a as int)),
        decreases s@.len() - a,
    {
        assert(s@.skip(a as int).drop_first() =~= s@.skip(a + 1));
        a += 1;
    }
    assert(trim_start(s@) == s@.skip(a as int));
    let mut b: usize = s.len();
    while b > a && whitespace(s[b - 1])
        invariant
            a <= b <= s@.len(),
            trim(s@) == trim_end(s@.subrange(a as int, b as int)),
        decreases b,
    {
        assert(s@.subrange(a as int, b as int).drop_last() =~= s@.subrange(a as int, b - 1));
        b -= 1;
    }
    copy_range(s, a, b)
}

/// The lower-case form of an ASCII capital; any other character unchanged.
pub open spec fn lower_char(c: char) -> char {
    if 'A' <= c <= 'Z' {
        ((c as u8) + 32) as char
    } else {
        c
    }
}

/// `s` with each ASCII capital replaced by its lower-case form.
pub open spec fn ascii_lower(s: Seq<char>) -> Seq<char> {
    Seq::new(s.len(), |i: int| lower_char(s[i]))
}

/// Putting a text in lower case a second time changes nothing.
pub proof fn lemma_ascii_lower_twice(s: Seq<char>)
    ensures
        ascii_lower(ascii_lower(s)) == ascii_lower(s),
{
    assert forall|i: int| 0 <= i < s.len() implies lower_char(lower_char(s[i])) == lower_char(
        s[i],
    ) by {
        let c = s[i];
        if 'A' <= c <= 'Z' {
            let d = ((c as u8) + 32) as char;
            assert(97 <= (c as u8) + 32 <= 122);
            assert(!('A' <= d <= 'Z'));
        }
    }
    assert(ascii_lower(ascii_lower(s)) =~= ascii_lower(s));
}

/// The slice with each ASCII capital replaced by its lower-case form.
pub fn lower_chars(s: &[char]) -> (out: Vec<char>)
    ensures
        out@ == ascii_lower(s@),
{
    let mut out: Vec<char> = Vec::new();
    let mut i: usize = 0;
    while i < s.len()
        invariant
            i <= s@.len(),
            out@ == ascii_lower(s@.take(i as int)),
        decreases s@.len() - i,
    {
        let c = s[i];
        let d = if 'A' <= c && c <= 'Z' {
            ((c as u8) + 32) as char
        } else {
            c
        };
        out.push(d);
        i += 1;
        assert(out@ =~= ascii_lower(s@.take(i as int)));
    }
    assert(s@ =~= s@.take(i as int));
    out
}

/// The text of a string that may be missing.
pub open spec fn maybe_text(s: Option<String>) -> Option<Seq<char>> {
    match s {
        Some(t) => Some(t@),
        None => None,
    }
}

/// The bytes of a content that may be missing, such as what reading a file
/// gave.
pub open spec fn content_of(file: Option<Vec<u8>>) -> Option<Seq<u8>> {
    match file {
        Some(content) => Some(content@),
        None => None,
    }
}

/// Whether two slices hold the same bytes.
pub fn same_bytes(a: &[u8], b: &[u8]) -> (r: bool)
    ensures
        r == (a@ == b@),
{
    if a.len() != b.len() {
        return false;
    }
    let mut i: usize = 0;
    while i < a.len()
        invariant
            a@.len() == b@.len(),
            i <= a@.len(),
            a@.take(i as int) == b@.take(i as int),
        decreases a@.len() - i,
    {
        if a[i] != b[i] {
            return false;
        }
        i += 1;
        assert(a@.take(i as int) =~= a@.take(i - 1).push(a@[i - 1]));
        assert(b@.take(i as int) =~= b@.take(i - 1).push(b@[i - 1]));
    }
    assert(a@ =~= a@.take(i as int));
    assert(b@ =~= b@.take(i as int));
    true
}

/// Whether two string slices hold the same text.
pub fn same_text(a: &str, b: &str) -> (r: bool)
    ensures
        r == (a@ == b@),
{
    let r = same_bytes(a.as_bytes(), b.as_bytes());
    proof {
        vstd::utf8::encode_utf8_decode_utf8(a@);
        vstd::utf8::encode_utf8_decode_utf8(b@);
    }
    r
}

/// `String::push` of std: the string grows by the one character `c`, at its
/// end.
#[verifier::external_body]
pub(crate) fn push_char(s: &mut String, c: char)
    ensures
        final(s)@ == old(s)@.push(c),
{
    s.push(c);
}

/// `core::str::from_utf8` of std: the bytes are accepted exactly when they
/// are well-formed UTF-8, and the text is then the one they encode.
#[verifier::external_body]
pub(crate) fn utf8_text(bytes: &[u8]) -> (r: Option<&str>)
    ensures
        r is Some <==> valid_utf8(bytes@),
        r matches Some(s) ==> s@ == decode_utf8(bytes@),
{
    match core::str::from_utf8(bytes) {
        Ok(s) => Some(s),
        Err(_) => None,
    }
}

/// The string that holds the characters of the slice.
pub fn string_of(chars: &[char]) -> (out: String)
    ensures
        out@ == chars@,
{
    let mut out = String::new();
    let mut i: usize = 0;
    while i < chars.len()
        invariant
            i <= chars@.len(),
            out@ == chars@.take(i as int),
        decreases chars@.len() - i,
    {
        push_char(&mut out, chars[i]);
        i += 1;
        assert(chars@.take(i as int) =~= chars@.take(i - 1).push(chars@[i - 1]));
    }
    assert(chars@ =~= chars@.take(i as int));
    out
}

/// The character that writes the digit `d`.
pub open spec fn digit_char(d: int) -> char {
    ((48 + d) as u8) as char
}

/// The decimal numeral of `n`, without leading zeros.
pub open spec fn decimal(n: nat) -> Seq<char>
    decreases n,
{
    if n < 10 {
        seq![digit_char(n as int)]
    } else {
        decimal(n / 10).push(digit_char((n % 10) as int))
    }
}

/// The decimal numeral of `n`.
pub fn decimal_chars(n: u64) -> (out: Vec<char>)
    ensures
        out@ == decimal(n as nat),
    decreases n,
{
    if n < 10 {
        let mut out: Vec<char> = Vec::new();
        out.push((48 + (n as u8)) as char);
        assert(out@ =~= seq![digit_char(n as int)]);
        out
    } else {
        let mut out = decimal_chars(n / 10);
        out.push((48 + ((n % 10) as u8)) as char);
        out
    }
}

/// Whether a byte is a decimal digit.
pub open spec fn is_digit(b: u8) -> bool {
    48 <= b <= 57
}

/// The number that decimal digits write.
pub open spec fn digits_value(digits: Seq<u8>) -> nat
    decreases digits.len(),
{
    if digits.len() == 0 {
        0
    } else {
        digits_value(digits.drop_last()) * 10 + (digits.last() - 48) as nat
    }
}

/// The digits of a numeral: the numeral without a plus sign at its start.
pub open spec fn unsigned_part(numeral: Seq<u8>) -> Seq<u8> {
    if numeral.len() > 0 && numeral[0] == 43 {
        numeral.skip(1)
    } else {
        numeral
    }
}

/// The number up to `max` that the bytes write in decimal: one digit or
/// more, after at most one plus sign, and nothing else.
pub open spec fn number_of(numeral: Seq<u8>, max: nat) -> Option<nat> {
    let digits = unsigned_part(numeral);
    if digits.len() > 0 && (forall|i: int| 0 <= i < digits.len() ==> is_digit(#[trigger] digits[i]))
        && digits_value(digits) <= max {
        Some(digits_value(digits))
    } else {
        None
    }
}

/// A numeral is worth at least as much as any of its beginnings.
proof fn lemma_digits_value_grows(digits: Seq<u8>, n: int)
    requires
        0 <= n <= digits.len(),
        forall|i: int| 0 <= i < digits.len() ==> is_digit(#[trigger] digits[i]),
    ensures
        digits_value(digits.take(n)) <= digits_value(digits),
    decreases digits.len() - n,
{
    if n < digits.len() {
        lemma_digits_value_grows(digits, n + 1);
        assert(digits.take(n + 1).drop_last() =~= digits.take(n));
        assert(digits.take(n + 1).last() == digits[n]);
    } else {
        assert(digits.take(n) =~= digits);
    }
}

/// The number up to `max` that the bytes write in decimal.
pub fn parse_number(numeral: &[u8], max: u32) -> (r: Option<u32>)
    ensures
        match r {
            Some(n) => number_of(numeral@, max as nat) == Some(n as nat),
            None => number_of(numeral@, max as nat) is None,
        },
{
    let start: usize = if numeral.len() > 0 && numeral[0] == 43 {
        1
    } else {
        0
    };
    let ghost digits = unsigned_part(numeral@);
    assert(digits =~= numeral@.skip(start as int));
    if start == numeral.len() {
        return None;
    }
    let mut value: u64 = 0;
    let mut i: usize = start;
    assert(digits.take(0) =~= Seq::<u8>::empty());
    while i < numeral.len()
        invariant
            start <= i <= numeral@.len(),
            digits == numeral@.skip(start as int),
            digits == unsigned_part(numeral@),
            forall|j: int| 0 <= j < i - start ==> is_digit(#[trigger] digits[j]),
            value == digits_value(digits.take(i - start)),
            value <= max,
        decreases numeral@.len() - i,
    {
        let b = numeral[i];
        assert(digits[i - start] == b);
        if b < 48 || b > 57 {
            assert(!is_digit(digits[i - start]));
            return None;
        }
        let ghost before = digits.take(i - start);
        let ghost now = digits.take(i - start + 1);
        assert(now.drop_last() =~= before);
        assert(now.last() == b);
        value = value * 10 + (b - 48) as u64;
        assert(value == digits_value(now));
        if value > max as u64 {
            proof {
                if forall|j: int| 0 <= j < digits.len() ==> is_digit(#[trigger] digits[j]) {
                    lemma_digits_value_grows(digits, i - start + 1);
                }
            }
            return None;
        }
        i += 1;
    }
    assert(digits.take(i - start) =~= digits);
    Some(value as u32)
}

} // verus!
