//! Text helpers: the order on keys and paths, prefixes, and substrings.

use vstd::prelude::*;
use vstd::string::StringSliceAdditionalSpecFns;
use vstd::utf8::encode_utf8;
use vstd::utf8::encode_utf8_decode_utf8;

verus! {

/// Lexicographic order on byte strings: the first differing byte decides,
/// and a proper prefix comes before the longer string.
pub open spec fn bytes_lt(a: Seq<u8>, b: Seq<u8>) -> bool
    decreases a.len(),
{
    if b.len() == 0 {
        false
    } else if a.len() == 0 {
        true
    } else if a[0] != b[0] {
        a[0] < b[0]
    } else {
        bytes_lt(a.drop_first(), b.drop_first())
    }
}

/// The order in which keys and paths are listed: the byte order of their
/// UTF-8 encodings, which is the order of `str` and `String`.
pub open spec fn key_lt(a: Seq<char>, b: Seq<char>) -> bool {
    bytes_lt(encode_utf8(a), encode_utf8(b))
}

pub proof fn lemma_bytes_lt_irreflexive(a: Seq<u8>)
    ensures
        !bytes_lt(a, a),
    decreases a.len(),
{
    if a.len() > 0 {
        lemma_bytes_lt_irreflexive(a.drop_first());
    }
}

pub proof fn lemma_bytes_lt_asymmetric(a: Seq<u8>, b: Seq<u8>)
    requires
        bytes_lt(a, b),
    ensures
        !bytes_lt(b, a),
    decreases a.len(),
{
    if a.len() > 0 && b.len() > 0 && a[0] == b[0] {
        lemma_bytes_lt_asymmetric(a.drop_first(), b.drop_first());
    }
}

pub proof fn lemma_bytes_lt_transitive(a: Seq<u8>, b: Seq<u8>, c: Seq<u8>)
    requires
        bytes_lt(a, b),
        bytes_lt(b, c),
    ensures
        bytes_lt(a, c),
    decreases a.len(),
{
    if a.len() > 0 && b.len() > 0 && c.len() > 0 && a[0] == b[0] && b[0] == c[0] {
        lemma_bytes_lt_transitive(a.drop_first(), b.drop_first(), c.drop_first());
    }
}

pub proof fn lemma_bytes_lt_total(a: Seq<u8>, b: Seq<u8>)
    ensures
        bytes_lt(a, b) || bytes_lt(b, a) || a == b,
    decreases a.len(),
{
    if a.len() > 0 && b.len() > 0 {
        if a[0] == b[0] {
            lemma_bytes_lt_total(a.drop_first(), b.drop_first());
            if a.drop_first() == b.drop_first() {
                assert(a =~= seq![a[0]] + a.drop_first());
                assert(b =~= seq![b[0]] + b.drop_first());
            }
        }
    } else if a.len() == 0 && b.len() == 0 {
        assert(a =~= b);
    }
}

/// While two byte strings agree, the order of the rest decides.
pub proof fn lemma_bytes_lt_skip(a: Seq<u8>, b: Seq<u8>, n: int)
    requires
        0 <= n <= a.len(),
        n <= b.len(),
        forall|j: int| 0 <= j < n ==> a[j] == b[j],
    ensures
        bytes_lt(a, b) == bytes_lt(a.skip(n), b.skip(n)),
    decreases n,
{
    if n == 0 {
        assert(a.skip(0) =~= a);
        assert(b.skip(0) =~= b);
    } else {
        lemma_bytes_lt_skip(a.drop_first(), b.drop_first(), n - 1);
        assert(a.drop_first().skip(n - 1) =~= a.skip(n));
        assert(b.drop_first().skip(n - 1) =~= b.skip(n));
    }
}

/// Of two keys at most one comes before the other.
pub proof fn lemma_key_lt_asymmetric(a: Seq<char>, b: Seq<char>)
    requires
        key_lt(a, b),
    ensures
        !key_lt(b, a),
        a != b,
{
    lemma_bytes_lt_asymmetric(encode_utf8(a), encode_utf8(b));
    lemma_bytes_lt_irreflexive(encode_utf8(a));
}

/// The key order is transitive.
pub proof fn lemma_key_lt_transitive(a: Seq<char>, b: Seq<char>, c: Seq<char>)
    requires
        key_lt(a, b),
        key_lt(b, c),
    ensures
        key_lt(a, c),
{
    lemma_bytes_lt_transitive(encode_utf8(a), encode_utf8(b), encode_utf8(c));
}

/// Two different keys are ordered one way or the other.
pub proof fn lemma_key_lt_total(a: Seq<char>, b: Seq<char>)
    ensures
        key_lt(a, b) || key_lt(b, a) || a == b,
{
    lemma_bytes_lt_total(encode_utf8(a), encode_utf8(b));
    if encode_utf8(a) == encode_utf8(b) {
        encode_utf8_decode_utf8(a);
        encode_utf8_decode_utf8(b);
    }
}

/// Whether `a` comes before `b` in the key order.
pub fn str_lt(a: &str, b: &str) -> (r: bool)
    ensures
        r == key_lt(a@, b@),
{
    let x = a.as_bytes();
    let y = b.as_bytes();
    let mut i: usize = 0;
    while i < x.len() && i < y.len()
        invariant
            i <= x@.len(),
            i <= y@.len(),
            x@ == encode_utf8(a@),
            y@ == encode_utf8(b@),
            forall|j: int| 0 <= j < i ==> x@[j] == y@[j],
        decreases x@.len() - i,
    {
        if x[i] != y[i] {
            proof {
                lemma_bytes_lt_skip(x@, y@, i as int);
                assert(x@.skip(i as int)[0] == x@[i as int]);
                assert(y@.skip(i as int)[0] == y@[i as int]);
            }
            return x[i] < y[i];
        }
        i += 1;
    }
    proof {
        lemma_bytes_lt_skip(x@, y@, i as int);
    }
    x.len() < y.len()
}

/// Whether `a` and `b` are the same text.
pub fn str_eq(a: &str, b: &str) -> (r: bool)
    ensures
        r == (a@ == b@),
{
    let x = a.as_bytes();
    let y = b.as_bytes();
    if x.len() != y.len() {
        return false;
    }
    let mut i: usize = 0;
    while i < x.len()
        invariant
            i <= x@.len(),
            x@.len() == y@.len(),
            x@ == encode_utf8(a@),
            y@ == encode_utf8(b@),
            forall|j: int| 0 <= j < i ==> x@[j] == y@[j],
        decreases x@.len() - i,
    {
        if x[i] != y[i] {
            return false;
        }
        i += 1;
    }
    proof {
        assert(x@ =~= y@);
        encode_utf8_decode_utf8(a@);
        encode_utf8_decode_utf8(b@);
    }
    true
}

/// Whether `s` begins with `prefix`.
pub fn chars_start_with(s: &Vec<char>, prefix: &Vec<char>) -> (r: bool)
    ensures
        r == prefix@.is_prefix_of(s@),
{
    if prefix.len() > s.len() {
        return false;
    }
    let mut i: usize = 0;
    while i < prefix.len()
        invariant
            i <= prefix@.len(),
            prefix@.len() <= s@.len(),
            forall|j: int| 0 <= j < i ==> prefix@[j] == s@[j],
        decreases prefix@.len() - i,
    {
        if prefix[i] != s[i] {
            assert(s@.subrange(0, prefix@.len() as int)[i as int] != prefix@[i as int]);
            return false;
        }
        i += 1;
    }
    assert(prefix@ =~= s@.subrange(0, prefix@.len() as int));
    true
}

/// The last place at which `c` stands in `s`, or -1 where it stands nowhere.
pub open spec fn last_index_of(s: Seq<char>, c: char) -> int
    decreases s.len(),
{
    if s.len() == 0 {
        -1
    } else if s.last() == c {
        s.len() - 1
    } else {
        last_index_of(s.drop_last(), c)
    }
}

/// `last_index_of` names a place of `c` behind which `c` does not stand again.
pub proof fn lemma_last_index_of(s: Seq<char>, c: char)
    ensures
        -1 <= last_index_of(s, c) < s.len(),
        last_index_of(s, c) >= 0 ==> s[last_index_of(s, c)] == c,
        forall|j: int| last_index_of(s, c) < j < s.len() ==> s[j] != c,
        (last_index_of(s, c) >= 0) == s.contains(c),
    decreases s.len(),
{
    if s.len() > 0 && s.last() != c {
        let front = s.drop_last();
        lemma_last_index_of(front, c);
        let r = last_index_of(s, c);
        assert forall|j: int| r < j < s.len() implies s[j] != c by {
            if j < front.len() {
                assert(front[j] == s[j]);
            }
        }
        if r >= 0 {
            assert(front[r] == s[r]);
        }
        if s.contains(c) {
            let j = choose|j: int| 0 <= j < s.len() && s[j] == c;
            assert(front[j] == c);
        }
    }
}

/// The last place of `c` in `v` at or behind `from`.
pub fn rfind_from(v: &Vec<char>, from: usize, c: char) -> (r: Option<usize>)
    requires
        from <= v@.len(),
    ensures
        match r {
            Some(i) => from <= i < v@.len() && i - from == last_index_of(v@.skip(from as int), c),
            None => last_index_of(v@.skip(from as int), c) == -1,
        },
{
    let mut i: usize = v.len();
    assert(v@.subrange(from as int, i as int) =~= v@.skip(from as int));
    while i > from
        invariant
            from <= i <= v@.len(),
            last_index_of(v@.skip(from as int), c) == last_index_of(
                v@.subrange(from as int, i as int),
                c,
            ),
        decreases i,
    {
        if v[i - 1] == c {
            assert(v@.subrange(from as int, i as int).last() == c);
            return Some(i - 1);
        }
        assert(v@.subrange(from as int, i as int).drop_last() =~= v@.subrange(
            from as int,
            i - 1,
        ));
        i -= 1;
    }
    None
}

/// Whether `c` stands somewhere in `s`.
pub fn contains_char(s: &str, c: char) -> (r: bool)
    ensures
        r == s@.contains(c),
{
    let v = chars_of(s);
    proof {
        assert(v@.skip(0) =~= v@);
        lemma_last_index_of(v@, c);
    }
    rfind_from(&v, 0, c).is_some()
}

/// `pat` stands in `s` at place `i`.
pub open spec fn occurs_at(s: Seq<char>, pat: Seq<char>, i: int) -> bool {
    0 <= i && i + pat.len() <= s.len() && s.subrange(i, i + pat.len()) == pat
}

/// `pat` stands somewhere in `s`.
pub open spec fn has_substring(s: Seq<char>, pat: Seq<char>) -> bool {
    exists|i: int| occurs_at(s, pat, i)
}

/// Whether `pat` stands in `s` at place `i`.
pub fn chars_match_at(s: &Vec<char>, pat: &Vec<char>, i: usize) -> (r: bool)
    requires
        i + pat@.len() <= s@.len(),
    ensures
        r == occurs_at(s@, pat@, i as int),
{
    let n = s.len();
    let mut j: usize = 0;
    while j < pat.len()
        invariant
            j <= pat@.len(),
            i + pat@.len() <= s@.len(),
            n == s@.len(),
            forall|x: int| 0 <= x < j ==> s@[i + x] == pat@[x],
        decreases pat@.len() - j,
    {
        if s[i + j] != pat[j] {
            assert(s@.subrange(i as int, i + pat@.len())[j as int] != pat@[j as int]);
            return false;
        }
        j += 1;
    }
    assert(s@.subrange(i as int, i + pat@.len()) =~= pat@);
    true
}

/// Whether `pat` stands somewhere in `s`.
pub fn contains_text(s: &str, pat: &str) -> (r: bool)
    ensures
        r == has_substring(s@, pat@),
{
    let v = chars_of(s);
    let p = chars_of(pat);
    chars_contain(&v, &p)
}

/// The part of a path behind its last `/`: the name of the file.
pub open spec fn file_name(path: Seq<char>) -> Seq<char> {
    path.skip(last_index_of(path, '/') + 1)
}

/// The part of a file's name behind its last `.`. A name without `.`,
/// one that only begins with `.`, and the name `..` have none.
pub open spec fn extension(path: Seq<char>) -> Option<Seq<char>> {
    let name = file_name(path);
    let dot = last_index_of(name, '.');
    if dot <= 0 || name == seq!['.', '.'] {
        None
    } else {
        Some(name.skip(dot + 1))
    }
}

/// Where the name of the file begins in `path`.
pub fn file_name_start(v: &Vec<char>) -> (start: usize)
    ensures
        start <= v@.len(),
        start == last_index_of(v@, '/') + 1,
        v@.skip(start as int) == file_name(v@),
{
    assert(v@.skip(0) =~= v@);
    let n = v.len();
    match rfind_from(v, 0, '/') {
        Some(i) => i + 1,
        None => 0,
    }
}

/// The name of the file that `path` leads to.
pub fn file_name_of<'a>(path: &'a str) -> (name: &'a str)
    ensures
        name@ == file_name(path@),
{
    let v = chars_of(path);
    let start = file_name_start(&v);
    path.substring_char(start, v.len())
}

/// The extension of the file that `path` leads to.
pub fn extension_of<'a>(path: &'a str) -> (r: Option<&'a str>)
    ensures
        match r {
            Some(e) => extension(path@) == Some(e@),
            None => extension(path@) is None,
        },
{
    let v = chars_of(path);
    let start = file_name_start(&v);
    let ghost name = v@.skip(start as int);
    match rfind_from(&v, start, '.') {
        Some(d) => {
            proof {
                lemma_last_index_of(name, '.');
            }
            if d == start {
                None
            } else if v.len() - start == 2 && v[start] == '.' {
                assert(name =~= seq!['.', '.']);
                None
            } else {
                proof {
                    if name == seq!['.', '.'] {
                        assert(name.len() == 2);
                        assert(name[0] == '.');
                    }
                    assert(name.skip(d - start + 1) =~= v@.subrange(d + 1, v@.len() as int));
                }
                Some(path.substring_char(d + 1, v.len()))
            }
        },
        None => None,
    }
}

/// The code of the small letter for the code of a capital ASCII letter;
/// any other code as it is.
pub open spec fn lower_code(u: u32) -> u32 {
    if 65 <= u <= 90 {
        (u + 32) as u32
    } else {
        u
    }
}

/// `s` with its capital ASCII letters made small.
pub open spec fn ascii_lower(s: Seq<char>) -> Seq<char> {
    Seq::new(s.len(), |i: int| lower_code(s[i] as u32) as char)
}

fn lower_of(c: char) -> (u: u32)
    ensures
        u == lower_code(c as u32),
{
    let u = c as u32;
    if 65 <= u && u <= 90 {
        u + 32
    } else {
        u
    }
}

/// Whether `a`, with its capital ASCII letters made small, is `b`.
pub fn eq_ignoring_case(a: &str, b: &str) -> (r: bool)
    ensures
        r == (ascii_lower(a@) == b@),
{
    let x = chars_of(a);
    let y = chars_of(b);
    if x.len() != y.len() {
        return false;
    }
    let mut i: usize = 0;
    while i < x.len()
        invariant
            i <= x@.len(),
            x@.len() == y@.len(),
            x@ == a@,
            y@ == b@,
            forall|j: int| 0 <= j < i ==> ascii_lower(a@)[j] == b@[j],
        decreases x@.len() - i,
    {
        let u = lower_of(x[i]);
        let w = y[i] as u32;
        proof {
            vstd::utf8::char_is_scalar(x@[i as int]);
            vstd::utf8::char_u32_cast(y@[i as int], w);
            assert(u == (u as char) as u32);
            assert(ascii_lower(a@)[i as int] == u as char);
        }
        if u != w {
            return false;
        }
        i += 1;
    }
    assert(ascii_lower(a@) =~= b@);
    true
}

/// The text of a decimal digit.
pub open spec fn digit_text(d: nat) -> Seq<char> {
    if d == 0 {
        "0"@
    } else if d == 1 {
        "1"@
    } else if d == 2 {
        "2"@
    } else if d == 3 {
        "3"@
    } else if d == 4 {
        "4"@
    } else if d == 5 {
        "5"@
    } else if d == 6 {
        "6"@
    } else if d == 7 {
        "7"@
    } else if d == 8 {
        "8"@
    } else {
        "9"@
    }
}

/// A number in decimal digits, without leading zeros.
pub open spec fn decimal(n: nat) -> Seq<char>
    decreases n,
{
    if n < 10 {
        digit_text(n)
    } else {
        decimal(n / 10) + digit_text(n % 10)
    }
}

fn digit_str(d: usize) -> (s: &'static str)
    requires
        d < 10,
    ensures
        s@ == digit_text(d as nat),
{
    if d == 0 {
        "0"
    } else if d == 1 {
        "1"
    } else if d == 2 {
        "2"
    } else if d == 3 {
        "3"
    } else if d == 4 {
        "4"
    } else if d == 5 {
        "5"
    } else if d == 6 {
        "6"
    } else if d == 7 {
        "7"
    } else if d == 8 {
        "8"
    } else {
        "9"
    }
}

/// `n` in decimal digits.
pub fn usize_to_text(n: usize) -> (s: String)
    ensures
        s@ == decimal(n as nat),
    decreases n,
{
    if n < 10 {
        digit_str(n).to_string()
    } else {
        let mut s = usize_to_text(n / 10);
        s.append(digit_str(n % 10));
        s
    }
}

/// White space, as Unicode defines it.
pub open spec fn is_space(c: char) -> bool {
    let u = c as u32;
    ||| 0x9 <= u <= 0xd
    ||| u == 0x20
    ||| u == 0x85
    ||| u == 0xa0
    ||| u == 0x1680
    ||| 0x2000 <= u <= 0x200a
    ||| u == 0x2028
    ||| u == 0x2029
    ||| u == 0x202f
    ||| u == 0x205f
    ||| u == 0x3000
}

/// `s` without the white space at its start.
pub open spec fn trim_start(s: Seq<char>) -> Seq<char>
    decreases s.len(),
{
    if s.len() > 0 && is_space(s[0]) {
        trim_start(s.drop_first())
    } else {
        s
    }
}

/// `s` without the white space at its end.
pub open spec fn trim_end(s: Seq<char>) -> Seq<char>
    decreases s.len(),
{
    if s.len() > 0 && is_space(s.last()) {
        trim_end(s.drop_last())
    } else {
        s
    }
}

/// `s` without the white space at its start and at its end.
pub open spec fn trimmed(s: Seq<char>) -> Seq<char> {
    trim_end(trim_start(s))
}

/// Whether `c` is white space.
pub fn char_is_space(c: char) -> (r: bool)
    ensures
        r == is_space(c),
{
    let u = c as u32;
    (0x9 <= u && u <= 0xd) || u == 0x20 || u == 0x85 || u == 0xa0 || u == 0x1680 || (0x2000 <= u
        && u <= 0x200a) || u == 0x2028 || u == 0x2029 || u == 0x202f || u == 0x205f || u
        == 0x3000
}

/// `s` without the white space at its start and at its end.
pub fn trim<'a>(s: &'a str) -> (t: &'a str)
    ensures
        t@ == trimmed(s@),
{
    let v = chars_of(s);
    let mut i: usize = 0;
    assert(v@.skip(0) =~= v@);
    while i < v.len() && char_is_space(v[i])
        invariant
            i <= v@.len(),
            trim_start(v@) == trim_start(v@.skip(i as int)),
        decreases v@.len() - i,
    {
        assert(v@.skip(i as int).drop_first() =~= v@.skip(i + 1));
        i += 1;
    }
    let mut j: usize = v.len();
    assert(v@.subrange(i as int, j as int) =~= v@.skip(i as int));
    while j > i && char_is_space(v[j - 1])
        invariant
            i <= j <= v@.len(),
            trim_end(v@.skip(i as int)) == trim_end(v@.subrange(i as int, j as int)),
        decreases j,
    {
        assert(v@.subrange(i as int, j as int).drop_last() =~= v@.subrange(i as int, j - 1));
        j -= 1;
    }
    s.substring_char(i, j)
}

/// The first `n` characters of `s`, or all of `s` where it has fewer.
pub open spec fn first_chars(s: Seq<char>, n: nat) -> Seq<char> {
    if s.len() <= n {
        s
    } else {
        s.take(n as int)
    }
}

/// The first `n` characters of `s`, or all of `s` where it has fewer.
pub fn take_chars<'a>(s: &'a str, n: usize) -> (t: &'a str)
    ensures
        t@ == first_chars(s@, n as nat),
{
    let len = s.unicode_len();
    if len <= n {
        s
    } else {
        s.substring_char(0, n)
    }
}

/// The texts of `parts` with `sep` between each two neighbours.
pub open spec fn joined(parts: Seq<Seq<char>>, sep: Seq<char>) -> Seq<char>
    decreases parts.len(),
{
    if parts.len() == 0 {
        Seq::empty()
    } else if parts.len() == 1 {
        parts[0]
    } else {
        joined(parts.drop_last(), sep) + sep + parts.last()
    }
}

/// The texts of a list of strings.
pub open spec fn string_views(v: Seq<String>) -> Seq<Seq<char>> {
    Seq::new(v.len(), |i: int| v[i]@)
}

/// Whether `text` is one of `list`.
pub fn list_contains(list: &Vec<String>, text: &str) -> (r: bool)
    ensures
        r == string_views(list@).contains(text@),
{
    let mut i: usize = 0;
    while i < list.len()
        invariant
            i <= list@.len(),
            forall|j: int| 0 <= j < i ==> string_views(list@)[j] != text@,
        decreases list@.len() - i,
    {
        if str_eq(list[i].as_str(), text) {
            assert(string_views(list@)[i as int] == text@);
            return true;
        }
        i += 1;
    }
    false
}

/// The strings of `parts` with `sep` between each two neighbours.
pub fn join(parts: &Vec<String>, sep: &str) -> (s: String)
    ensures
        s@ == joined(string_views(parts@), sep@),
{
    let ghost texts = string_views(parts@);
    let mut s = String::new();
    let mut i: usize = 0;
    while i < parts.len()
        invariant
            i <= parts@.len(),
            texts == string_views(parts@),
            s@ == joined(texts.take(i as int), sep@),
        decreases parts@.len() - i,
    {
        assert(texts.take(i + 1).drop_last() =~= texts.take(i as int));
        assert(texts.take(i + 1).last() == parts@[i as int]@);
        if i > 0 {
            s.append(sep);
        }
        s.append(parts[i].as_str());
        assert(s@ =~= joined(texts.take(i + 1), sep@));
        i += 1;
    }
    assert(texts.take(parts@.len() as int) =~= texts);
    s
}

/// The text that the bytes from `from` up to `to` of the UTF-8 encoding
/// of `s` encode.
pub open spec fn byte_slice(s: Seq<char>, from: int, to: int) -> Seq<char> {
    vstd::utf8::decode_utf8(encode_utf8(s).subrange(from, to))
}

/// A place of the UTF-8 encoding of `s` at which a character begins, or
/// its end.
pub open spec fn at_boundary(s: Seq<char>, i: int) -> bool {
    0 <= i <= encode_utf8(s).len() && vstd::utf8::is_char_boundary(encode_utf8(s), i)
}

/// A boundary of a text is a boundary of each part of it that ends at a
/// boundary behind it.
pub proof fn lemma_boundary_in_prefix(bytes: Seq<u8>, from: int, to: int)
    requires
        vstd::utf8::valid_utf8(bytes),
        0 <= from <= to <= bytes.len(),
        vstd::utf8::is_char_boundary(bytes, from),
        vstd::utf8::is_char_boundary(bytes, to),
    ensures
        vstd::utf8::valid_utf8(bytes.subrange(0, to)),
        vstd::utf8::is_char_boundary(bytes.subrange(0, to), from),
{
    let head = bytes.subrange(0, to);
    vstd::utf8::valid_utf8_split(bytes, to);
    if from == to {
        vstd::utf8::is_char_boundary_start_end_of_seq(head);
    } else {
        vstd::utf8::is_char_boundary_iff_not_is_continuation_byte(bytes, from);
        vstd::utf8::is_char_boundary_iff_not_is_continuation_byte(head, from);
    }
}

/// The part of `s` from byte `from` up to byte `to`.
pub fn slice_bytes<'a>(s: &'a str, from: usize, to: usize) -> (r: &'a str)
    requires
        from <= to,
        at_boundary(s@, from as int),
        at_boundary(s@, to as int),
    ensures
        r@ == byte_slice(s@, from as int, to as int),
        encode_utf8(r@) == encode_utf8(s@).subrange(from as int, to as int),
{
    let ghost bytes = encode_utf8(s@);
    proof {
        vstd::utf8::encode_utf8_valid_utf8(s@);
        lemma_boundary_in_prefix(bytes, from as int, to as int);
    }
    let (head, _) = s.split_at(to);
    let (_, body) = head.split_at(from);
    proof {
        assert(encode_utf8(body@) =~= bytes.subrange(from as int, to as int));
        encode_utf8_decode_utf8(body@);
    }
    body
}

/// The smallest place at or behind `i` that is a boundary of `s`.
pub open spec fn up_boundary(s: Seq<char>, i: int) -> int
    decreases encode_utf8(s).len() - i,
{
    if i < 0 || i >= encode_utf8(s).len() || at_boundary(s, i) {
        i
    } else {
        up_boundary(s, i + 1)
    }
}

/// The greatest place at or before `i` that is a boundary of `s`.
pub open spec fn down_boundary(s: Seq<char>, i: int) -> int
    decreases i,
{
    if i <= 0 || at_boundary(s, i) {
        i
    } else {
        down_boundary(s, i - 1)
    }
}

/// The smallest boundary of `s` at or behind `i`, for a place within `s`.
pub fn boundary_at_or_after(s: &str, i: usize) -> (r: usize)
    requires
        i <= encode_utf8(s@).len(),
    ensures
        r == up_boundary(s@, i as int),
        i <= r <= encode_utf8(s@).len(),
        at_boundary(s@, r as int),
{
    let n = s.as_bytes().len();
    proof {
        vstd::utf8::encode_utf8_valid_utf8(s@);
        vstd::utf8::is_char_boundary_start_end_of_seq(encode_utf8(s@));
    }
    let mut r: usize = i;
    while r < n && !s.is_char_boundary(r)
        invariant
            i <= r <= n,
            n == encode_utf8(s@).len(),
            at_boundary(s@, n as int),
            up_boundary(s@, i as int) == up_boundary(s@, r as int),
        decreases n - r,
    {
        r += 1;
    }
    r
}

/// The greatest boundary of `s` at or before `i`, for a place within `s`.
pub fn boundary_at_or_before(s: &str, i: usize) -> (r: usize)
    requires
        i <= encode_utf8(s@).len(),
    ensures
        r == down_boundary(s@, i as int),
        r <= i,
        at_boundary(s@, r as int),
{
    proof {
        vstd::utf8::encode_utf8_valid_utf8(s@);
        vstd::utf8::is_char_boundary_start_end_of_seq(encode_utf8(s@));
    }
    let mut r: usize = i;
    while r > 0 && !s.is_char_boundary(r)
        invariant
            r <= i,
            i <= encode_utf8(s@).len(),
            at_boundary(s@, 0),
            down_boundary(s@, i as int) == down_boundary(s@, r as int),
        decreases r,
    {
        r -= 1;
    }
    r
}

/// Whether `pat` stands somewhere in `s`.
pub fn chars_contain(s: &Vec<char>, pat: &Vec<char>) -> (r: bool)
    ensures
        r == has_substring(s@, pat@),
{
    if pat.len() > s.len() {
        return false;
    }
    let last: usize = s.len() - pat.len();
    let mut i: usize = 0;
    loop
        invariant
            i <= last,
            last + pat@.len() == s@.len(),
            forall|x: int| 0 <= x < i ==> !occurs_at(s@, pat@, x),
        decreases last - i,
    {
        if chars_match_at(s, pat, i) {
            return true;
        }
        if i == last {
            return false;
        }
        i += 1;
    }
}

/// The first place at which `c` stands in `s`, or the length of `s`
/// where it stands nowhere.
pub open spec fn first_index_of(s: Seq<char>, c: char) -> int
    decreases s.len(),
{
    if s.len() == 0 || s[0] == c {
        0
    } else {
        1 + first_index_of(s.drop_first(), c)
    }
}

/// `first_index_of` is the place before which `c` does not stand.
pub proof fn lemma_first_index_of(s: Seq<char>, c: char, k: int)
    requires
        0 <= k <= s.len(),
        forall|j: int| 0 <= j < k ==> s[j] != c,
        k == s.len() || s[k] == c,
    ensures
        first_index_of(s, c) == k,
    decreases s.len(),
{
    if k > 0 {
        lemma_first_index_of(s.drop_first(), c, k - 1);
    }
}

/// A line without the carriage return at its end, if it has one.
pub open spec fn strip_cr(line: Seq<char>) -> Seq<char> {
    if line.len() > 0 && line.last() == '\r' {
        line.drop_last()
    } else {
        line
    }
}

/// The lines of a text. A line ends with a line feed, or with a carriage
/// return and a line feed, which are not part of it; the last line may
/// end with the text.
pub open spec fn lines_of(s: Seq<char>) -> Seq<Seq<char>>
    decreases s.len(),
{
    if s.len() == 0 {
        Seq::empty()
    } else {
        let i = first_index_of(s, '\n');
        if i < 0 || i >= s.len() {
            seq![s]
        } else {
            seq![strip_cr(s.take(i))] + lines_of(s.skip(i + 1))
        }
    }
}

/// The lines of `text`.
pub fn split_lines(text: &str) -> (lines: Vec<String>)
    ensures
        string_views(lines@) == lines_of(text@),
{
    let v = chars_of(text);
    let mut lines: Vec<String> = Vec::new();
    let mut start: usize = 0;
    let mut i: usize = 0;
    assert(v@.skip(0) =~= v@);
    assert(string_views(lines@) + lines_of(v@) =~= lines_of(v@));
    while i < v.len()
        invariant
            start <= i <= v@.len(),
            v@ == text@,
            forall|j: int| start <= j < i ==> v@[j] != '\n',
            lines_of(v@) == string_views(lines@) + lines_of(v@.skip(start as int)),
        decreases v@.len() - i,
    {
        if v[i] == '\n' {
            let end = if i > start && v[i - 1] == '\r' {
                i - 1
            } else {
                i
            };
            let line = text.substring_char(start, end).to_string();
            let ghost before = string_views(lines@);
            let ghost rest = v@.skip(start as int);
            proof {
                lemma_first_index_of(rest, '\n', i - start);
                assert(rest.take(i - start) =~= v@.subrange(start as int, i as int));
                assert(strip_cr(rest.take(i - start)) =~= v@.subrange(start as int, end as int));
                assert(rest.skip(i - start + 1) =~= v@.skip(i + 1));
            }
            let ghost lv = line@;
            lines.push(line);
            proof {
                assert(string_views(lines@) =~= before.push(lv));
                assert(before + (seq![lv] + lines_of(v@.skip(i + 1))) =~= before.push(lv)
                    + lines_of(v@.skip(i + 1)));
            }
            start = i + 1;
        }
        i += 1;
    }
    if start < v.len() {
        let line = text.substring_char(start, v.len()).to_string();
        let ghost before = string_views(lines@);
        let ghost rest = v@.skip(start as int);
        proof {
            lemma_first_index_of(rest, '\n', rest.len() as int);
            assert(rest =~= v@.subrange(start as int, v@.len() as int));
        }
        let ghost lv = line@;
        lines.push(line);
        proof {
            assert(string_views(lines@) =~= before.push(lv));
            assert(before + seq![lv] =~= before.push(lv));
        }
    } else {
        assert(string_views(lines@) + Seq::<Seq<char>>::empty() =~= string_views(lines@));
    }
    lines
}

/// The text that bytes encode in UTF-8; none where they are not
/// well-formed UTF-8.
pub open spec fn text_of_bytes(data: Seq<u8>) -> Option<Seq<char>> {
    if vstd::utf8::valid_utf8(data) {
        Some(vstd::utf8::decode_utf8(data))
    } else {
        None
    }
}

/// The text of an optional string.
pub open spec fn opt_text(s: Option<String>) -> Option<Seq<char>> {
    match s {
        Some(t) => Some(t@),
        None => None,
    }
}

/// The text of an optional string slice.
pub open spec fn opt_str(s: Option<&str>) -> Option<Seq<char>> {
    match s {
        Some(t) => Some(t@),
        None => None,
    }
}

/// Reads bytes as UTF-8 with `std::str::from_utf8`: the text is there
/// exactly where the bytes are well-formed UTF-8, and is then what they
/// encode.
#[verifier::external_body]
pub(crate) fn utf8_text<'a>(data: &'a [u8]) -> (r: Option<&'a str>)
    ensures
        opt_str(r) == text_of_bytes(data@),
{
    std::str::from_utf8(data).ok()
}

/// The characters of `s`, one by one.
pub fn chars_of(s: &str) -> (v: Vec<char>)
    ensures
        v@ == s@,
{
    let mut v: Vec<char> = Vec::new();
    for c in it: s.chars()
        invariant
            it.seq() == s@,
            v@ == it.seq().take(it.index()),
    {
        v.push(c);
        assert(it.seq().take(it.index() + 1) =~= it.seq().take(it.index()).push(c));
    }
    assert(s@.take(s@.len() as int) =~= s@);
    v
}

} // verus!
