//! Text, as characters and as bytes: whitespace, prefixes, lines and UTF-8.
use vstd::prelude::*;
use vstd::slice::slice_subrange;
use vstd::string::StringSliceAdditionalSpecFns;
use vstd::utf8::{decode_utf8, encode_utf8, valid_utf8};

verus! {

// -----------------------------------------------------------------------------
// Whitespace

/// Whether `c` has the Unicode property `White_Space`.
pub open spec fn is_whitespace(c: char) -> bool {
    let u = c as u32;
    ||| 0x09 <= u <= 0x0D
    ||| u == 0x20
    ||| u == 0x85
    ||| u == 0xA0
    ||| u == 0x1680
    ||| 0x2000 <= u <= 0x200A
    ||| u == 0x2028
    ||| u == 0x2029
    ||| u == 0x202F
    ||| u == 0x205F
    ||| u == 0x3000
}

/// Tests a character for the Unicode property `White_Space`.
pub fn char_is_whitespace(c: char) -> (r: bool)
    ensures
        r == is_whitespace(c),
{
    let u: u32 = c as u32;
    (0x09 <= u && u <= 0x0D) || u == 0x20 || u == 0x85 || u == 0xA0 || u == 0x1680 || (0x2000 <= u
        && u <= 0x200A) || u == 0x2028 || u == 0x2029 || u == 0x202F || u == 0x205F || u == 0x3000
}

/// Whether `s` holds nothing but whitespace.
pub open spec fn is_blank(s: Seq<char>) -> bool {
    forall|i: int| 0 <= i < s.len() ==> is_whitespace(#[trigger] s[i])
}

/// `s` without its leading whitespace.
pub open spec fn trim_start(s: Seq<char>) -> Seq<char>
    decreases s.len(),
{
    if s.len() > 0 && is_whitespace(s[0]) {
        trim_start(s.drop_first())
    } else {
        s
    }
}

/// `s` without its trailing whitespace.
pub open spec fn trim_end(s: Seq<char>) -> Seq<char>
    decreases s.len(),
{
    if s.len() > 0 && is_whitespace(s.last()) {
        trim_end(s.drop_last())
    } else {
        s
    }
}

/// `s` without its leading and trailing whitespace.
pub open spec fn trim(s: Seq<char>) -> Seq<char> {
    trim_end(trim_start(s))
}

/// `trim_start` drops the longest run of whitespace at the start: it leaves
/// `s.skip(k)`, where `k` is the position of the first character that is no
/// whitespace, or the length of `s`.
pub proof fn lemma_trim_start(s: Seq<char>) -> (k: int)
    ensures
        0 <= k <= s.len(),
        trim_start(s) == s.skip(k),
        forall|i: int| 0 <= i < k ==> is_whitespace(#[trigger] s[i]),
        k < s.len() ==> !is_whitespace(s[k]),
    decreases s.len(),
{
    if s.len() > 0 && is_whitespace(s[0]) {
        let rest = s.drop_first();
        let inner = lemma_trim_start(rest);
        assert(rest.skip(inner) == s.skip(inner + 1));
        assert forall|i: int| 0 <= i < inner + 1 implies is_whitespace(#[trigger] s[i]) by {
            if i > 0 {
                assert(s[i] == rest[i - 1]);
            }
        }
        inner + 1
    } else {
        assert(s.skip(0) == s);
        0
    }
}

/// `trim_end` drops the longest run of whitespace at the end: it leaves
/// `s.take(m)`, where `m` is the position behind the last character that is no
/// whitespace, or 0.
pub proof fn lemma_trim_end(s: Seq<char>) -> (m: int)
    ensures
        0 <= m <= s.len(),
        trim_end(s) == s.take(m),
        forall|i: int| m <= i < s.len() ==> is_whitespace(#[trigger] s[i]),
        m > 0 ==> !is_whitespace(s[m - 1]),
    decreases s.len(),
{
    if s.len() > 0 && is_whitespace(s.last()) {
        let rest = s.drop_last();
        let inner = lemma_trim_end(rest);
        assert(rest.take(inner) == s.take(inner));
        assert forall|i: int| inner <= i < s.len() implies is_whitespace(#[trigger] s[i]) by {
            if i < s.len() - 1 {
                assert(s[i] == rest[i]);
            }
        }
        inner
    } else {
        assert(s.take(s.len() as int) == s);
        s.len() as int
    }
}

/// A text trims to nothing exactly when it holds nothing but whitespace.
pub proof fn lemma_trim_blank(s: Seq<char>)
    ensures
        trim(s).len() == 0 <==> is_blank(s),
{
    let k = lemma_trim_start(s);
    let m = lemma_trim_end(s.skip(k));
    if k < s.len() {
        assert(!is_whitespace(s[k]));
        assert(s.skip(k)[0] == s[k]);
        if m == 0 {
            assert(is_whitespace(s.skip(k)[0]));
        }
    }
}

/// A text that neither starts nor ends with whitespace is its own trimming,
/// and no other text is.
pub proof fn lemma_trim_fixed(s: Seq<char>)
    ensures
        trim(s) == s <==> (s.len() == 0 || (!is_whitespace(s[0]) && !is_whitespace(s.last()))),
{
    let k = lemma_trim_start(s);
    let m = lemma_trim_end(s.skip(k));
    if s.len() > 0 {
        if !is_whitespace(s[0]) && !is_whitespace(s.last()) {
            assert(k == 0);
            assert(s.skip(0) == s);
            assert(m == s.len()) by {
                if m < s.len() {
                    assert(is_whitespace(s[s.len() - 1]));
                }
            }
            assert(s.take(s.len() as int) == s);
        }
        if trim(s) == s {
            assert(s.skip(k).take(m).len() == s.len());
            assert(k == 0 && m == s.len());
            assert(s.skip(0) == s);
        }
    }
}

/// Removes leading whitespace.
pub fn trim_start_chars<'a>(s: &'a [char]) -> (r: &'a [char])
    ensures
        r@ == trim_start(s@),
{
    let mut a: usize = 0;
    assert(s@.skip(0) == s@);
    while a < s.len() && char_is_whitespace(s[a])
        invariant
            a <= s@.len(),
            trim_start(s@) == trim_start(s@.skip(a as int)),
        decreases s@.len() - a,
    {
        assert(s@.skip(a as int).drop_first() == s@.skip(a + 1));
        a += 1;
    }
    slice_subrange(s, a, s.len())
}

/// Removes trailing whitespace.
pub fn trim_end_chars<'a>(s: &'a [char]) -> (r: &'a [char])
    ensures
        r@ == trim_end(s@),
{
    let mut b: usize = s.len();
    assert(s@.take(b as int) == s@);
    while b > 0 && char_is_whitespace(s[b - 1])
        invariant
            b <= s@.len(),
            trim_end(s@) == trim_end(s@.take(b as int)),
        decreases b,
    {
        assert(s@.take(b as int).drop_last() == s@.take(b - 1));
        b -= 1;
    }
    slice_subrange(s, 0, b)
}

/// Removes leading and trailing whitespace.
pub fn trim_chars<'a>(s: &'a [char]) -> (r: &'a [char])
    ensures
        r@ == trim(s@),
{
    trim_end_chars(trim_start_chars(s))
}

// -----------------------------------------------------------------------------
// Prefixes

/// Whether two runs of characters are the same.
pub fn chars_eq(a: &[char], b: &[char]) -> (r: bool)
    ensures
        r == (a@ == b@),
{
    if a.len() != b.len() {
        return false;
    }
    let mut i: usize = 0;
    while i < a.len()
        invariant
            i <= a@.len(),
            a@.len() == b@.len(),
            a@.take(i as int) == b@.take(i as int),
        decreases a@.len() - i,
    {
        if a[i] != b[i] {
            return false;
        }
        assert(a@.take(i + 1) == a@.take(i as int).push(a@[i as int]));
        assert(b@.take(i + 1) == b@.take(i as int).push(b@[i as int]));
        i += 1;
    }
    assert(a@ == a@.take(i as int));
    assert(b@ == b@.take(i as int));
    true
}

/// Whether `s` begins with `prefix`.
pub fn starts_with(s: &[char], prefix: &[char]) -> (r: bool)
    ensures
        r == prefix@.is_prefix_of(s@),
{
    if prefix.len() > s.len() {
        return false;
    }
    chars_eq(slice_subrange(s, 0, prefix.len()), prefix)
}

/// `s` without `prefix` at its start, where it starts with it.
pub open spec fn strip_prefix(s: Seq<char>, prefix: Seq<char>) -> Seq<char> {
    if prefix.is_prefix_of(s) {
        s.skip(prefix.len() as int)
    } else {
        s
    }
}

/// Takes `prefix` off the start of `s`, where `s` starts with it.
pub fn strip_prefix_chars<'a>(s: &'a [char], prefix: &[char]) -> (r: &'a [char])
    ensures
        r@ == strip_prefix(s@, prefix@),
{
    if starts_with(s, prefix) {
        slice_subrange(s, prefix.len(), s.len())
    } else {
        s
    }
}

// -----------------------------------------------------------------------------
// Lines

/// The number of characters before the first line feed of `s`, or the length
/// of `s` where it holds none.
pub open spec fn line_end(s: Seq<char>) -> int
    decreases s.len(),
{
    if s.len() == 0 || s[0] == '\n' {
        0
    } else {
        1 + line_end(s.drop_first())
    }
}

/// `line` without one trailing carriage return.
pub open spec fn strip_carriage_return(line: Seq<char>) -> Seq<char> {
    if line.len() > 0 && line.last() == '\r' {
        line.drop_last()
    } else {
        line
    }
}

/// The lines of `s`. A line ends at a line feed, or at a carriage return
/// directly before a line feed; neither belongs to the line. The last line
/// needs no line ending, and a carriage return at its end stays. An empty text
/// has no lines.
pub open spec fn lines(s: Seq<char>) -> Seq<Seq<char>>
    decreases s.len(),
{
    if s.len() == 0 {
        Seq::empty()
    } else {
        let n = line_end(s);
        if n >= s.len() {
            seq![s]
        } else {
            proof {
                lemma_line_end(s);
            }
            seq![strip_carriage_return(s.take(n))] + lines(s.skip(n + 1))
        }
    }
}

/// `line_end` stays inside the text, stops at a line feed, and passes none.
pub proof fn lemma_line_end(s: Seq<char>)
    ensures
        0 <= line_end(s) <= s.len(),
        line_end(s) < s.len() ==> s[line_end(s)] == '\n',
        forall|i: int| 0 <= i < line_end(s) ==> s[i] != '\n',
    decreases s.len(),
{
    if s.len() == 0 || s[0] == '\n' {
    } else {
        let rest = s.drop_first();
        lemma_line_end(rest);
        assert forall|i: int| 0 <= i < line_end(s) implies s[i] != '\n' by {
            if i > 0 {
                assert(s[i] == rest[i - 1]);
            }
        }
    }
}

/// `line_end` is the one position that holds a line feed with none before it.
pub proof fn lemma_line_end_is(s: Seq<char>, n: int)
    requires
        0 <= n < s.len(),
        s[n] == '\n',
        forall|i: int| 0 <= i < n ==> s[i] != '\n',
    ensures
        line_end(s) == n,
{
    lemma_line_end(s);
    let found = line_end(s);
    if found < n {
        assert(s[found] == '\n');
    }
    if found > n {
        assert(s[n] != '\n');
    }
}

/// The lines of two texts put together are the lines of the first and then
/// the lines of the second, where the first is empty or ends with a line feed.
pub proof fn lemma_lines_concat(a: Seq<char>, b: Seq<char>)
    requires
        a.len() == 0 || a.last() == '\n',
    ensures
        lines(a + b) == lines(a) + lines(b),
    decreases a.len(),
{
    if a.len() == 0 {
        assert(a + b == b);
        assert(lines(a) + lines(b) == lines(b));
    } else {
        lemma_line_end(a);
        let n = line_end(a);
        assert(n < a.len()) by {
            if n >= a.len() {
                assert(a[a.len() - 1] != '\n');
            }
        }
        let whole = a + b;
        assert(whole[n] == a[n]);
        assert forall|i: int| 0 <= i < n implies whole[i] != '\n' by {
            assert(whole[i] == a[i]);
        }
        lemma_line_end_is(whole, n);
        assert(whole.take(n) == a.take(n));
        let rest = a.skip(n + 1);
        assert(whole.skip(n + 1) == rest + b);
        if rest.len() > 0 {
            assert(rest.last() == a.last());
        }
        lemma_lines_concat(rest, b);
        assert(seq![strip_carriage_return(a.take(n))] + (lines(rest) + lines(b)) == (seq![
            strip_carriage_return(a.take(n)),
        ] + lines(rest)) + lines(b));
    }
}

/// The character sequences behind a list of slices.
pub open spec fn views(parts: Seq<&[char]>) -> Seq<Seq<char>> {
    parts.map_values(|part: &[char]| part@)
}

/// The first position at or after `from` that holds a line feed, or the length
/// of `s`.
fn find_line_end(s: &[char], from: usize) -> (at: usize)
    requires
        from <= s@.len(),
    ensures
        from <= at <= s@.len(),
        at - from == line_end(s@.skip(from as int)),
{
    let mut at: usize = from;
    while at < s.len() && s[at] != '\n'
        invariant
            from <= at <= s@.len(),
            line_end(s@.skip(from as int)) == (at - from) + line_end(s@.skip(at as int)),
        decreases s@.len() - at,
    {
        assert(s@.skip(at as int).drop_first() == s@.skip(at + 1));
        at += 1;
    }
    at
}

/// Splits a text into its lines.
pub fn split_lines<'a>(s: &'a [char]) -> (r: Vec<&'a [char]>)
    ensures
        views(r@) == lines(s@),
{
    let mut out: Vec<&'a [char]> = Vec::new();
    let mut start: usize = 0;
    assert(s@.skip(0) == s@);
    assert(views(out@) + lines(s@) == lines(s@));
    while start < s.len()
        invariant
            start <= s@.len(),
            lines(s@) == views(out@) + lines(s@.skip(start as int)),
        decreases s@.len() - start,
    {
        let ghost rest = s@.skip(start as int);
        let ghost before = views(out@);
        let end = find_line_end(s, start);
        if end >= s.len() {
            out.push(slice_subrange(s, start, end));
            assert(s@.subrange(start as int, end as int) == rest);
            assert(views(out@) == before.push(rest));
            assert(lines(s@.skip(end as int)) == Seq::<Seq<char>>::empty());
            assert(before + seq![rest] == before.push(rest));
            start = end;
        } else {
            let stop = if end > start && s[end - 1] == '\r' {
                end - 1
            } else {
                end
            };
            let line = slice_subrange(s, start, stop);
            out.push(line);
            assert(rest.take(end - start) == s@.subrange(start as int, end as int));
            assert(line@ == strip_carriage_return(rest.take(end - start)));
            assert(rest.skip(end - start + 1) == s@.skip(end + 1));
            assert(views(out@) == before.push(line@));
            assert(before + (seq![line@] + lines(s@.skip(end + 1))) == before.push(line@) + lines(
                s@.skip(end + 1),
            ));
            start = end + 1;
        }
    }
    assert(lines(s@.skip(start as int)) == Seq::<Seq<char>>::empty());
    assert(views(out@) + Seq::<Seq<char>>::empty() == views(out@));
    out
}

// -----------------------------------------------------------------------------
// Strings and their characters

/// The characters of a string, in order.
pub fn chars_of(s: &str) -> (r: Vec<char>)
    ensures
        r@ == s@,
{
    let mut out: Vec<char> = Vec::new();
    for c in it: s.chars()
        invariant
            out@ == it.seq().take(it.index() as int),
            it.seq() == s@,
    {
        out.push(c);
    }
    out
}

/// Appending one character, as `String::push` does.
pub assume_specification[ std::string::String::push ](s: &mut std::string::String, c: char)
    ensures
        final(s)@ == old(s)@.push(c),
;

/// A string made of the given characters.
pub fn text_of(chars: &[char]) -> (r: String)
    ensures
        r@ == chars@,
{
    let mut out = String::new();
    let mut i: usize = 0;
    while i < chars.len()
        invariant
            i <= chars@.len(),
            out@ == chars@.take(i as int),
        decreases chars@.len() - i,
    {
        out.push(chars[i]);
        i += 1;
    }
    out
}

/// Whether two strings hold the same characters.
pub fn text_eq(a: &str, b: &str) -> (r: bool)
    ensures
        r == (a@ == b@),
{
    let x = a.as_bytes();
    let y = b.as_bytes();
    proof {
        vstd::utf8::encode_utf8_decode_utf8(a@);
        vstd::utf8::encode_utf8_decode_utf8(b@);
    }
    if x.len() != y.len() {
        return false;
    }
    let mut i: usize = 0;
    while i < x.len()
        invariant
            i <= x@.len(),
            x@.len() == y@.len(),
            x@.take(i as int) == y@.take(i as int),
            x@ == encode_utf8(a@),
            y@ == encode_utf8(b@),
            vstd::utf8::decode_utf8(encode_utf8(a@)) == a@,
            vstd::utf8::decode_utf8(encode_utf8(b@)) == b@,
        decreases x@.len() - i,
    {
        if x[i] != y[i] {
            return false;
        }
        assert(x@.take(i + 1) == x@.take(i as int).push(x@[i as int]));
        assert(y@.take(i + 1) == y@.take(i as int).push(y@[i as int]));
        i += 1;
    }
    assert(x@ == x@.take(i as int));
    assert(y@ == y@.take(i as int));
    true
}

// -----------------------------------------------------------------------------
// Bytes

/// The text that the standard library's UTF-8 error displays for bytes that are
/// not valid UTF-8.
pub uninterp spec fn utf8_fault(bytes: Seq<u8>) -> Seq<char>;

/// Calls `core::str::from_utf8`. Valid UTF-8 is handed back as the text it
/// encodes; for anything else the result is the text that the error displays,
/// which the contract only names.
#[verifier::external_body]
pub(crate) fn utf8_text(bytes: &[u8]) -> (r: Result<&str, String>)
    ensures
        match r {
            Ok(text) => valid_utf8(bytes@) && text.spec_bytes() == bytes@,
            Err(message) => !valid_utf8(bytes@) && message@ == utf8_fault(bytes@),
        },
{
    match core::str::from_utf8(bytes) {
        Ok(text) => Ok(text),
        Err(error) => Err(error.to_string()),
    }
}

/// The length of the part of `bytes` that is made of whole lines: the position
/// behind the last line feed, or 0 where there is none.
pub open spec fn complete_len(bytes: Seq<u8>) -> int
    decreases bytes.len(),
{
    if bytes.len() == 0 {
        0
    } else if bytes.last() == 0x0A {
        bytes.len() as int
    } else {
        complete_len(bytes.drop_last())
    }
}

/// `complete_len` is the position behind the last line feed.
pub proof fn lemma_complete_len(bytes: Seq<u8>)
    ensures
        0 <= complete_len(bytes) <= bytes.len(),
        complete_len(bytes) > 0 ==> bytes[complete_len(bytes) - 1] == 0x0A,
        forall|i: int| complete_len(bytes) <= i < bytes.len() ==> bytes[i] != 0x0A,
    decreases bytes.len(),
{
    if bytes.len() > 0 && bytes.last() != 0x0A {
        let shorter = bytes.drop_last();
        lemma_complete_len(shorter);
        assert forall|i: int| complete_len(bytes) <= i < bytes.len() implies bytes[i] != 0x0A by {
            if i < shorter.len() {
                assert(bytes[i] == shorter[i]);
            }
        }
    }
}

/// `complete_len` is the one position that has a line feed in front of it, or
/// is 0, and no line feed behind it.
pub proof fn lemma_complete_len_is(bytes: Seq<u8>, n: int)
    requires
        0 <= n <= bytes.len(),
        n > 0 ==> bytes[n - 1] == 0x0A,
        forall|i: int| n <= i < bytes.len() ==> bytes[i] != 0x0A,
    ensures
        complete_len(bytes) == n,
{
    lemma_complete_len(bytes);
    let found = complete_len(bytes);
    if found < n {
        assert(bytes[n - 1] != 0x0A);
    }
    if found > n {
        assert(bytes[found - 1] != 0x0A);
    }
}

/// None of the first bytes of valid UTF-8 that make up its first character is
/// a line feed, but where that character is one byte long.
proof fn lemma_width_bytes(bytes: Seq<u8>)
    requires
        valid_utf8(bytes),
        bytes.len() > 0,
    ensures
        1 <= vstd::utf8::length_of_first_scalar(bytes) <= bytes.len(),
        forall|i: int|
            0 <= i < vstd::utf8::length_of_first_scalar(bytes) - 1 ==> bytes[i] != 0x0A,
{
    reveal_with_fuel(valid_utf8, 2);
    vstd::utf8::utf8_byte_ranges_bitwise(bytes[0]);
    if bytes.len() > 1 {
        vstd::utf8::utf8_byte_ranges_bitwise(bytes[1]);
    }
    if bytes.len() > 2 {
        vstd::utf8::utf8_byte_ranges_bitwise(bytes[2]);
    }
}

/// In valid UTF-8 a character starts behind every line feed.
pub proof fn lemma_boundary_behind_line_feed(bytes: Seq<u8>, at: int)
    requires
        valid_utf8(bytes),
        0 < at <= bytes.len(),
        bytes[at - 1] == 0x0A,
    ensures
        vstd::utf8::is_char_boundary(bytes, at),
    decreases bytes.len(),
{
    reveal_with_fuel(valid_utf8, 2);
    reveal_with_fuel(vstd::utf8::is_char_boundary, 2);
    let width = vstd::utf8::length_of_first_scalar(bytes);
    let rest = vstd::utf8::pop_first_scalar(bytes);
    if at < width {
        assert(false) by {
            lemma_width_bytes(bytes);
        }
    } else if at == width {
        assert(valid_utf8(rest));
    } else {
        assert(rest[at - width - 1] == bytes[at - 1]);
        lemma_boundary_behind_line_feed(rest, at - width);
    }
}

/// Valid UTF-8 that ends with a line feed encodes a text that ends with one,
/// and cut behind a line feed it is valid UTF-8 on both sides and encodes the
/// two texts one after the other.
pub proof fn lemma_cut_behind_line_feed(bytes: Seq<u8>, at: int)
    requires
        valid_utf8(bytes),
        0 <= at <= bytes.len(),
        at > 0 ==> bytes[at - 1] == 0x0A,
    ensures
        valid_utf8(bytes.take(at)),
        valid_utf8(bytes.skip(at)),
        decode_utf8(bytes) == decode_utf8(bytes.take(at)) + decode_utf8(bytes.skip(at)),
        at > 0 ==> decode_utf8(bytes.take(at)).len() > 0 && decode_utf8(bytes.take(at)).last()
            == '\n',
{
    if at == 0 {
        vstd::utf8::is_char_boundary_start_end_of_seq(bytes);
    } else {
        lemma_boundary_behind_line_feed(bytes, at);
    }
    vstd::utf8::valid_utf8_split(bytes, at);
    vstd::utf8::decode_utf8_split(bytes, at);
    assert(bytes.take(at) == bytes.subrange(0, at));
    assert(bytes.skip(at) == bytes.subrange(at, bytes.len() as int));
    if at > 0 {
        let first = bytes.take(at);
        vstd::utf8::is_char_boundary_iff_is_leading_byte(first, at - 1);
        assert(vstd::utf8::is_leading_byte_width_1(first[at - 1])) by {
            vstd::utf8::utf8_byte_ranges_bitwise(first[at - 1]);
        }
        vstd::utf8::valid_utf8_split(first, at - 1);
        vstd::utf8::decode_utf8_split(first, at - 1);
        let last = first.subrange(at - 1, at);
        assert(last == seq![0x0Au8]);
        reveal_with_fuel(valid_utf8, 2);
        reveal_with_fuel(decode_utf8, 2);
        assert(vstd::utf8::pop_first_scalar(last) == Seq::<u8>::empty());
        assert(decode_utf8(last) == seq!['\n']) by {
            assert(0x0Au8 & 0x7F == 0x0Au8) by (bit_vector);
            assert(last[0] == 0x0Au8);
            assert(vstd::utf8::decode_first_scalar(last) == 0x0A);
            assert(0x0Au32 as char == '\n');
        }
    }
}

} // verus!
