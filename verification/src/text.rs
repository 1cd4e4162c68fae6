//! Text as sequences of characters: the string operations the rest of the library is built on.

use vstd::prelude::*;
use vstd::utf8::{decode_utf8, encode_utf8, valid_utf8};

pub mod laws;

verus! {

/// `String::push` appends one character to the end of the string.
pub assume_specification[ String::push ](s: &mut String, c: char)
    ensures
        final(s)@ == old(s)@.push(c),
;

/// The characters of a string, in order.
pub fn chars_of(s: &str) -> (out: Vec<char>)
    ensures
        out@ == s@,
{
    let mut out: Vec<char> = Vec::new();
    for c in it: s.chars()
        invariant
            out@ == s@.take(it.index()),
            it.seq() == s@,
    {
        assert(s@.take(it.index() + 1) =~= s@.take(it.index()).push(s@[it.index()]));
        out.push(c);
    }
    assert(s@.take(s@.len() as int) =~= s@);
    out
}

/// The string made of the given characters.
pub fn string_of(chars: &Vec<char>) -> (out: String)
    ensures
        out@ == chars@,
{
    let mut out = String::new();
    let mut i: usize = 0;
    while i < chars.len()
        invariant
            i <= chars.len(),
            out@ == chars@.take(i as int),
        decreases chars.len() - i,
    {
        assert(chars@.take(i + 1) =~= chars@.take(i as int).push(chars@[i as int]));
        out.push(chars[i]);
        i += 1;
    }
    assert(chars@.take(chars@.len() as int) =~= chars@);
    out
}

/// The decimal digit with value `d`.
pub open spec fn digit(d: nat) -> char {
    (d + 48) as char
}

/// The decimal notation of `n`, without leading zeros.
pub open spec fn decimal(n: nat) -> Seq<char>
    decreases n,
{
    if n < 10 {
        seq![digit(n)]
    } else {
        decimal(n / 10).push(digit(n % 10))
    }
}

fn digit_char(d: u8) -> (c: char)
    requires
        d < 10,
    ensures
        c == digit(d as nat),
{
    (d + 48) as char
}

/// Appends the decimal notation of `n` to `out`.
pub fn push_decimal(out: &mut String, n: u64)
    ensures
        final(out)@ == old(out)@ + decimal(n as nat),
    decreases n,
{
    if n >= 10 {
        push_decimal(out, n / 10);
    }
    out.push(digit_char((n % 10) as u8));
    assert(out@ =~= old(out)@ + decimal(n as nat));
}

/// The decimal notation of `n` as a string.
pub fn decimal_string(n: u64) -> (out: String)
    ensures
        out@ == decimal(n as nat),
{
    let mut out = String::new();
    push_decimal(&mut out, n);
    assert(out@ =~= decimal(n as nat));
    out
}

/// The bytes of the UTF-8 encoding of a string.
pub fn utf8_bytes(s: &str) -> (out: Vec<u8>)
    ensures
        out@ == encode_utf8(s@),
{
    vstd::slice::slice_to_vec(s.as_bytes())
}

/// What `String::from_utf8_lossy` makes of bytes: text in which every ill-formed part has become
/// the replacement character.
pub uninterp spec fn utf8_lossy(bytes: Seq<u8>) -> Seq<char>;

/// `String::from_utf8_lossy`: well-formed UTF-8 is decoded as it is. What it makes of other bytes
/// depends on those bytes alone.
#[verifier::external_body]
pub(crate) fn lossy_text(bytes: &[u8]) -> (out: String)
    ensures
        out@ == utf8_lossy(bytes@),
        valid_utf8(bytes@) ==> out@ == decode_utf8(bytes@),
{
    String::from_utf8_lossy(bytes).into_owned()
}

/// The texts of a list of strings.
pub open spec fn texts(parts: Seq<String>) -> Seq<Seq<char>> {
    parts.map_values(|part: String| part@)
}

/// The text of an optional string.
pub open spec fn opt_text(s: Option<String>) -> Option<Seq<char>> {
    match s {
        Some(t) => Some(t@),
        None => None,
    }
}

/// The parts one after the other, with `sep` between them.
pub open spec fn joined(parts: Seq<Seq<char>>, sep: Seq<char>) -> Seq<char>
    decreases parts.len(),
{
    if parts.len() == 0 {
        seq![]
    } else if parts.len() == 1 {
        parts[0]
    } else {
        joined(parts.drop_last(), sep) + sep + parts.last()
    }
}

/// Joins strings with a separator.
pub fn join(parts: &Vec<String>, sep: &str) -> (out: String)
    ensures
        out@ == joined(texts(parts@), sep@),
{
    let mut out = String::new();
    let mut i: usize = 0;
    assert(texts(parts@).take(0) =~= Seq::empty());
    while i < parts.len()
        invariant
            i <= parts.len(),
            out@ == joined(texts(parts@).take(i as int), sep@),
        decreases parts.len() - i,
    {
        let ghost so_far = texts(parts@).take(i as int);
        assert(texts(parts@).take(i + 1) =~= so_far.push(parts@[i as int]@));
        assert(so_far.push(parts@[i as int]@).drop_last() =~= so_far);
        if i > 0 {
            out.append(sep);
        }
        out.append(parts[i].as_str());
        i += 1;
        assert(out@ =~= joined(texts(parts@).take(i as int), sep@));
    }
    assert(texts(parts@).take(parts@.len() as int) =~= texts(parts@));
    out
}

/// Whether a character is white space in the sense of Unicode.
pub open spec fn is_white(c: char) -> bool {
    ||| '\u{9}' <= c <= '\u{d}'
    ||| c == ' '
    ||| c == '\u{85}'
    ||| c == '\u{a0}'
    ||| c == '\u{1680}'
    ||| '\u{2000}' <= c <= '\u{200a}'
    ||| c == '\u{2028}'
    ||| c == '\u{2029}'
    ||| c == '\u{202f}'
    ||| c == '\u{205f}'
    ||| c == '\u{3000}'
}

pub open spec fn trimmed_start(s: Seq<char>) -> Seq<char>
    decreases s.len(),
{
    if s.len() > 0 && is_white(s[0]) {
        trimmed_start(s.skip(1))
    } else {
        s
    }
}

pub open spec fn trimmed_end(s: Seq<char>) -> Seq<char>
    decreases s.len(),
{
    if s.len() > 0 && is_white(s.last()) {
        trimmed_end(s.drop_last())
    } else {
        s
    }
}

/// The text without white space at both ends.
pub open spec fn trimmed(s: Seq<char>) -> Seq<char> {
    trimmed_end(trimmed_start(s))
}

/// Whether a text holds nothing but white space.
pub open spec fn is_blank(s: Seq<char>) -> bool {
    trimmed(s).len() == 0
}

fn white(c: char) -> (yes: bool)
    ensures
        yes == is_white(c),
{
    ('\u{9}' <= c && c <= '\u{d}') || c == ' ' || c == '\u{85}' || c == '\u{a0}' || c == '\u{1680}'
        || ('\u{2000}' <= c && c <= '\u{200a}') || c == '\u{2028}' || c == '\u{2029}' || c
        == '\u{202f}' || c == '\u{205f}' || c == '\u{3000}'
}

/// The text without white space at its end.
pub fn trim_end(s: &str) -> (out: &str)
    ensures
        out@ == trimmed_end(s@),
{
    let chars = chars_of(s);
    let mut end: usize = chars.len();
    assert(s@.take(end as int) =~= s@);
    while end > 0 && white(chars[end - 1])
        invariant
            end <= chars.len(),
            chars@ == s@,
            trimmed_end(s@) == trimmed_end(s@.take(end as int)),
        decreases end,
    {
        assert(s@.take(end as int).drop_last() =~= s@.take(end - 1));
        end -= 1;
    }
    let out = s.substring_char(0, end);
    assert(out@ =~= s@.take(end as int));
    out
}

/// The text without white space at its start.
pub fn trim_start(s: &str) -> (out: &str)
    ensures
        out@ == trimmed_start(s@),
{
    let chars = chars_of(s);
    let mut start: usize = 0;
    assert(s@.skip(0) =~= s@);
    while start < chars.len() && white(chars[start])
        invariant
            start <= chars.len(),
            chars@ == s@,
            trimmed_start(s@) == trimmed_start(s@.skip(start as int)),
        decreases chars.len() - start,
    {
        assert(s@.skip(start as int).skip(1) =~= s@.skip(start + 1));
        start += 1;
    }
    let out = s.substring_char(start, chars.len());
    assert(out@ =~= s@.skip(start as int));
    out
}

/// The text without white space at both ends.
pub fn trim(s: &str) -> (out: &str)
    ensures
        out@ == trimmed(s@),
{
    trim_end(trim_start(s))
}

/// Whether two texts are the same.
pub fn same(a: &str, b: &str) -> (yes: bool)
    ensures
        yes == (a@ == b@),
{
    let left = chars_of(a);
    let right = chars_of(b);
    if left.len() != right.len() {
        return false;
    }
    let mut i: usize = 0;
    while i < left.len()
        invariant
            left@ == a@,
            right@ == b@,
            left.len() == right.len(),
            i <= left.len(),
            left@.take(i as int) == right@.take(i as int),
        decreases left.len() - i,
    {
        if left[i] != right[i] {
            assert(left@[i as int] != right@[i as int]);
            return false;
        }
        assert(left@.take(i + 1) =~= left@.take(i as int).push(left@[i as int]));
        assert(right@.take(i + 1) =~= right@.take(i as int).push(right@[i as int]));
        i += 1;
    }
    assert(left@.take(left@.len() as int) =~= left@);
    assert(right@.take(right@.len() as int) =~= right@);
    true
}

/// A character with ASCII letters in lower case.
pub open spec fn lower(c: char) -> char {
    if 'A' <= c <= 'Z' {
        (c as u32 + 32) as char
    } else {
        c
    }
}

/// The text with ASCII letters in lower case.
pub open spec fn lowered(s: Seq<char>) -> Seq<char> {
    s.map_values(|c: char| lower(c))
}

fn lower_char(c: char) -> (out: char)
    ensures
        out == lower(c),
{
    if 'A' <= c && c <= 'Z' {
        let code: u8 = c as u32 as u8;
        (code + 32) as char
    } else {
        c
    }
}

/// The text with ASCII letters in lower case.
pub fn to_lower(s: &str) -> (out: String)
    ensures
        out@ == lowered(s@),
{
    let mut out = String::new();
    for c in it: s.chars()
        invariant
            it.seq() == s@,
            out@ == lowered(s@).take(it.index()),
    {
        assert(lowered(s@).take(it.index() + 1) =~= lowered(s@).take(it.index()).push(
            lower(s@[it.index()]),
        ));
        out.push(lower_char(c));
    }
    assert(lowered(s@).take(s@.len() as int) =~= lowered(s@));
    out
}

/// Whether two texts are the same but for the case of ASCII letters.
pub fn same_ignoring_case(a: &str, b: &str) -> (yes: bool)
    ensures
        yes == (lowered(a@) == lowered(b@)),
{
    same(to_lower(a).as_str(), to_lower(b).as_str())
}

pub fn starts_with(s: &str, prefix: &str) -> (yes: bool)
    ensures
        yes == prefix@.is_prefix_of(s@),
{
    let n: usize = prefix.unicode_len();
    if n > s.unicode_len() {
        return false;
    }
    same(s.substring_char(0, n), prefix)
}

pub fn ends_with(s: &str, suffix: &str) -> (yes: bool)
    ensures
        yes == suffix@.is_suffix_of(s@),
{
    let n: usize = suffix.unicode_len();
    let len: usize = s.unicode_len();
    if n > len {
        return false;
    }
    same(s.substring_char(len - n, len), suffix)
}

/// What follows the prefix of a text, `None` where it has another.
pub open spec fn without_prefix(s: Seq<char>, prefix: Seq<char>) -> Option<Seq<char>> {
    if prefix.is_prefix_of(s) {
        Some(s.skip(prefix.len() as int))
    } else {
        None
    }
}

pub fn strip_prefix<'a>(s: &'a str, prefix: &str) -> (rest: Option<&'a str>)
    ensures
        match rest {
            Some(rest) => without_prefix(s@, prefix@) == Some(rest@),
            None => without_prefix(s@, prefix@) is None,
        },
{
    if starts_with(s, prefix) {
        let rest = s.substring_char(prefix.unicode_len(), s.unicode_len());
        assert(rest@ =~= s@.skip(prefix@.len() as int));
        Some(rest)
    } else {
        None
    }
}

/// Whether `part` stands in `s` at `at`.
pub open spec fn occurs_at(s: Seq<char>, part: Seq<char>, at: int) -> bool {
    0 <= at && at + part.len() <= s.len() && s.subrange(at, at + part.len()) == part
}

/// Whether `part` stands in `s`.
pub open spec fn occurs(s: Seq<char>, part: Seq<char>) -> bool {
    exists|at: int| occurs_at(s, part, at)
}

/// The first place behind `from` where `part` stands in `s`.
pub fn find_from(s: &Vec<char>, part: &Vec<char>, from: usize) -> (found: Option<usize>)
    requires
        from <= s@.len(),
    ensures
        match found {
            Some(at) => from <= at && occurs_at(s@, part@, at as int) && forall|before: int|
                from <= before < at ==> !#[trigger] occurs_at(s@, part@, before),
            None => forall|at: int| from <= at ==> !#[trigger] occurs_at(s@, part@, at),
        },
{
    let mut at: usize = from;
    assert(s.len() <= usize::MAX);
    while at <= s.len() && part.len() <= s.len() - at
        invariant
            from <= at <= s@.len() + 1,
            s@.len() <= usize::MAX,
            forall|before: int| from <= before < at ==> !#[trigger] occurs_at(s@, part@, before),
        decreases s@.len() + 1 - at,
    {
        let mut k: usize = 0;
        while k < part.len() && s[at + k] == part[k]
            invariant
                k <= part@.len(),
                at + part@.len() <= s@.len() <= usize::MAX,
                forall|j: int| 0 <= j < k ==> s@[at + j] == part@[j],
            decreases part@.len() - k,
        {
            k += 1;
        }
        if k == part.len() {
            assert(s@.subrange(at as int, at + part@.len()) =~= part@);
            return Some(at);
        }
        assert(!occurs_at(s@, part@, at as int)) by {
            if occurs_at(s@, part@, at as int) {
                assert(s@.subrange(at as int, at + part@.len())[k as int] == s@[at + k]);
            }
        }
        if at == s.len() {
            return None;
        }
        at += 1;
    }
    None
}

/// Whether `part` stands in `s`.
pub fn contains(s: &str, part: &str) -> (yes: bool)
    ensures
        yes == occurs(s@, part@),
{
    let found = find_from(&chars_of(s), &chars_of(part), 0);
    match found {
        Some(at) => {
            assert(occurs_at(s@, part@, at as int));
            true
        },
        None => false,
    }
}

/// The length of the UTF-8 encoding of a text.
pub open spec fn bytes_in(s: Seq<char>) -> nat {
    encode_utf8(s).len()
}

/// The encoding of two texts one after the other is the encodings one after the other.
pub proof fn lemma_encode_concat(a: Seq<char>, b: Seq<char>)
    ensures
        encode_utf8(a + b) == encode_utf8(a) + encode_utf8(b),
    decreases a.len(),
{
    if a.len() == 0 {
        assert(a + b =~= b);
        assert(encode_utf8(a + b) =~= encode_utf8(a) + encode_utf8(b));
    } else {
        lemma_encode_concat(a.drop_first(), b);
        assert((a + b).drop_first() =~= a.drop_first() + b);
        assert(encode_utf8(a + b) =~= encode_utf8(a) + encode_utf8(b));
    }
}

/// The length of the UTF-8 encoding of a text.
pub fn byte_len(s: &str) -> (n: usize)
    ensures
        n == bytes_in(s@),
{
    s.as_bytes().len()
}

/// The decimal notation of an integer.
pub open spec fn signed_decimal(n: int) -> Seq<char> {
    if n < 0 {
        seq!['-'] + decimal((-n) as nat)
    } else {
        decimal(n as nat)
    }
}

/// Appends the decimal notation of `n` to `out`.
pub fn push_signed(out: &mut String, n: i32)
    ensures
        final(out)@ == old(out)@ + signed_decimal(n as int),
{
    let n: i64 = n as i64;
    if n < 0 {
        out.push('-');
        push_decimal(out, (-n) as u64);
        assert(out@ =~= old(out)@ + signed_decimal(n as int));
    } else {
        push_decimal(out, n as u64);
    }
}

/// The first place at or behind `from` where `part` stands in `s`.
pub open spec fn first_from(s: Seq<char>, part: Seq<char>, from: int) -> Option<int>
    decreases s.len() - from + 1,
{
    if from < 0 || from + part.len() > s.len() {
        None
    } else if occurs_at(s, part, from) {
        Some(from)
    } else {
        first_from(s, part, from + 1)
    }
}

pub proof fn lemma_first_from(s: Seq<char>, part: Seq<char>, from: int)
    requires
        0 <= from,
    ensures
        match first_from(s, part, from) {
            Some(at) => from <= at && occurs_at(s, part, at) && forall|before: int|
                from <= before < at ==> !#[trigger] occurs_at(s, part, before),
            None => forall|at: int| from <= at ==> !#[trigger] occurs_at(s, part, at),
        },
    decreases s.len() - from + 1,
{
    if from + part.len() > s.len() {
    } else if occurs_at(s, part, from) {
    } else {
        lemma_first_from(s, part, from + 1);
    }
}

/// The first place at or behind `from` where `part` stands in `s`.
pub fn find_at(s: &Vec<char>, part: &Vec<char>, from: usize) -> (found: Option<usize>)
    requires
        from <= s@.len(),
    ensures
        match found {
            Some(at) => first_from(s@, part@, from as int) == Some(at as int),
            None => first_from(s@, part@, from as int) is None,
        },
{
    proof {
        lemma_first_from(s@, part@, from as int);
    }
    find_from(s, part, from)
}

/// Where the line that holds position `from` ends: behind its newline, or at the end of the text.
pub open spec fn line_end(s: Seq<char>, from: int) -> int
    decreases s.len() - from,
{
    if from < 0 || from >= s.len() {
        s.len() as int
    } else if s[from] == '\n' {
        from + 1
    } else {
        line_end(s, from + 1)
    }
}

/// The lines from position `from` on, each with its newline.
pub open spec fn pieces_from(s: Seq<char>, from: int) -> Seq<Seq<char>>
    decreases s.len() - from,
{
    if from < 0 || from >= s.len() {
        seq![]
    } else {
        proof {
            lemma_line_end(s, from);
        }
        seq![s.subrange(from, line_end(s, from))] + pieces_from(s, line_end(s, from))
    }
}

pub proof fn lemma_line_end(s: Seq<char>, from: int)
    requires
        0 <= from < s.len(),
    ensures
        from < line_end(s, from) <= s.len(),
    decreases s.len() - from,
{
    if from + 1 < s.len() {
        lemma_line_end(s, from + 1);
    } else {
        assert(line_end(s, from + 1) == s.len());
    }
}

/// A line ends behind its first newline.
pub proof fn lemma_line_ends_at(s: Seq<char>, from: int, at: int)
    requires
        0 <= from <= at < s.len(),
        s[at] == '\n',
        forall|i: int| from <= i < at ==> s[i] != '\n',
    ensures
        line_end(s, from) == at + 1,
    decreases at - from,
{
    if from < at {
        lemma_line_ends_at(s, from + 1, at);
    }
}

/// The lines of a text, each with its newline.
pub open spec fn pieces(s: Seq<char>) -> Seq<Seq<char>> {
    pieces_from(s, 0)
}

/// A line without its newline, and without a carriage return before that.
pub open spec fn bare_line(piece: Seq<char>) -> Seq<char> {
    if piece.len() > 0 && piece.last() == '\n' {
        let line = piece.drop_last();
        if line.len() > 0 && line.last() == '\r' {
            line.drop_last()
        } else {
            line
        }
    } else {
        piece
    }
}

/// The lines of a text, without what ends them.
pub open spec fn line_texts(s: Seq<char>) -> Seq<Seq<char>> {
    pieces(s).map_values(|piece: Seq<char>| bare_line(piece))
}

/// The lines of a text, each with its newline.
pub fn split_pieces(s: &str) -> (out: Vec<String>)
    ensures
        texts(out@) == pieces(s@),
{
    let chars = chars_of(s);
    let mut out: Vec<String> = Vec::new();
    let mut from: usize = 0;
    assert(texts(out@) =~= Seq::empty());
    assert(texts(out@) + pieces_from(s@, 0) =~= pieces(s@));
    while from < chars.len()
        invariant
            chars@ == s@,
            from <= chars.len(),
            texts(out@) + pieces_from(s@, from as int) == pieces(s@),
        decreases chars.len() - from,
    {
        let mut end: usize = from;
        proof {
            lemma_line_end(s@, from as int);
        }
        while end < chars.len() && chars[end] != '\n'
            invariant
                chars@ == s@,
                from <= end <= chars.len(),
                line_end(s@, from as int) == line_end(s@, end as int),
            decreases chars.len() - end,
        {
            end += 1;
        }
        if end < chars.len() {
            end += 1;
        }
        assert(end == line_end(s@, from as int));
        let ghost before = texts(out@);
        let piece = s.substring_char(from, end).to_owned();
        out.push(piece);
        assert(texts(out@) =~= before.push(piece@));
        assert(before.push(piece@) + pieces_from(s@, end as int) =~= before + pieces_from(
            s@,
            from as int,
        ));
        from = end;
    }
    assert(texts(out@) + pieces_from(s@, from as int) =~= texts(out@));
    out
}

/// A line without what ends it.
pub fn strip_line_end(piece: &str) -> (out: &str)
    ensures
        out@ == bare_line(piece@),
{
    let chars = chars_of(piece);
    let mut end: usize = chars.len();
    if end > 0 && chars[end - 1] == '\n' {
        end -= 1;
        if end > 0 && chars[end - 1] == '\r' {
            end -= 1;
        }
    }
    let out = piece.substring_char(0, end);
    assert(out@ =~= bare_line(piece@));
    out
}

/// The lines of a text, without what ends them.
pub fn split_lines(s: &str) -> (out: Vec<String>)
    ensures
        texts(out@) == line_texts(s@),
{
    let parts = split_pieces(s);
    let mut out: Vec<String> = Vec::new();
    let mut i: usize = 0;
    while i < parts.len()
        invariant
            i <= parts.len(),
            texts(parts@) == pieces(s@),
            out.len() == i,
            forall|j: int| 0 <= j < i ==> (#[trigger] out@[j])@ == bare_line(parts@[j]@),
        decreases parts.len() - i,
    {
        out.push(strip_line_end(parts[i].as_str()).to_owned());
        i += 1;
    }
    assert(texts(out@) =~= line_texts(s@)) by {
        assert forall|j: int| 0 <= j < out@.len() implies texts(out@)[j] == line_texts(s@)[j] by {
            assert(texts(parts@)[j] == parts@[j]@);
        }
    }
    out
}

/// The text from position `from` on, with every `part` replaced by `by`.
pub open spec fn replaced_from(s: Seq<char>, part: Seq<char>, by: Seq<char>, from: int) -> Seq<char>
    decreases s.len() - from + 1,
{
    if part.len() == 0 || from < 0 || from > s.len() {
        seq![]
    } else {
        match first_from(s, part, from) {
            None => s.skip(from),
            Some(at) => {
                proof {
                    lemma_first_from(s, part, from);
                }
                s.subrange(from, at) + by + replaced_from(s, part, by, at + part.len())
            },
        }
    }
}

/// Replaces every `part` of a text.
pub fn replace_all(s: &str, part: &str, by: &str) -> (out: String)
    requires
        part@.len() > 0,
    ensures
        out@ == replaced_from(s@, part@, by@, 0),
{
    let chars = chars_of(s);
    let wanted = chars_of(part);
    let mut out = String::new();
    let mut from: usize = 0;
    assert(out@ + replaced_from(s@, part@, by@, 0) =~= replaced_from(s@, part@, by@, 0));
    loop
        invariant
            chars@ == s@,
            wanted@ == part@,
            part@.len() > 0,
            from <= chars@.len(),
            out@ + replaced_from(s@, part@, by@, from as int) == replaced_from(s@, part@, by@, 0),
        decreases chars.len() - from + 1,
    {
        proof {
            lemma_first_from(s@, part@, from as int);
        }
        match find_at(&chars, &wanted, from) {
            None => {
                out.append(s.substring_char(from, chars.len()));
                assert(s@.subrange(from as int, s@.len() as int) =~= s@.skip(from as int));
                return out;
            },
            Some(at) => {
                let ghost before = out@;
                out.append(s.substring_char(from, at));
                out.append(by);
                assert(chars.len() <= usize::MAX);
                let next: usize = at + wanted.len();
                assert(out@ + replaced_from(s@, part@, by@, next as int) =~= before
                    + replaced_from(s@, part@, by@, from as int));
                from = next;
            },
        }
    }
}

/// Whether `a` comes before `b` in the order of code points.
pub open spec fn text_before(a: Seq<char>, b: Seq<char>) -> bool
    decreases a.len(),
{
    if b.len() == 0 {
        false
    } else if a.len() == 0 {
        true
    } else if a[0] == b[0] {
        text_before(a.skip(1), b.skip(1))
    } else {
        a[0] < b[0]
    }
}

/// Whether `a` comes before `b` in the order of code points.
pub fn is_before(a: &str, b: &str) -> (yes: bool)
    ensures
        yes == text_before(a@, b@),
{
    let left = chars_of(a);
    let right = chars_of(b);
    let mut i: usize = 0;
    assert(a@.skip(0) =~= a@);
    assert(b@.skip(0) =~= b@);
    while i < left.len() && i < right.len() && left[i] == right[i]
        invariant
            left@ == a@,
            right@ == b@,
            i <= left.len(),
            i <= right.len(),
            text_before(a@, b@) == text_before(a@.skip(i as int), b@.skip(i as int)),
        decreases left.len() - i,
    {
        assert(a@.skip(i as int).skip(1) =~= a@.skip(i + 1));
        assert(b@.skip(i as int).skip(1) =~= b@.skip(i + 1));
        i += 1;
    }
    if i == right.len() {
        false
    } else if i == left.len() {
        true
    } else {
        left[i] < right[i]
    }
}

pub open spec fn is_digit(c: char) -> bool {
    '0' <= c <= '9'
}

/// The number that decimal digits stand for, `None` where there is anything but digits.
pub open spec fn digits_value(s: Seq<char>) -> Option<nat>
    decreases s.len(),
{
    if s.len() == 0 {
        Some(0)
    } else {
        match digits_value(s.drop_last()) {
            Some(rest) => if is_digit(s.last()) {
                Some(rest * 10 + (s.last() as nat - 48) as nat)
            } else {
                None
            },
            None => None,
        }
    }
}

/// The number that a decimal notation with an optional plus sign stands for, if it is at most
/// `max`.
pub open spec fn unsigned_value(s: Seq<char>, max: nat) -> Option<nat> {
    let digits = if s.len() > 0 && s[0] == '+' {
        s.skip(1)
    } else {
        s
    };
    if digits.len() == 0 {
        None
    } else {
        match digits_value(digits) {
            Some(n) => if n <= max {
                Some(n)
            } else {
                None
            },
            None => None,
        }
    }
}

/// The number that a decimal notation with an optional sign stands for, if it fits in 32 bits.
pub open spec fn signed_value(s: Seq<char>) -> Option<int> {
    if s.len() > 0 && s[0] == '-' {
        if s.len() > 1 && s[1] == '+' {
            None
        } else {
            match unsigned_value(s.skip(1), 0x8000_0000) {
                Some(n) => Some(-(n as int)),
                None => None,
            }
        }
    } else {
        match unsigned_value(s, 0x7fff_ffff) {
            Some(n) => Some(n as int),
            None => None,
        }
    }
}

/// The decimal notation of a number is made of digits and stands for it.
pub proof fn lemma_decimal_value(n: nat)
    ensures
        decimal(n).len() > 0,
        digits_value(decimal(n)) == Some(n),
        forall|i: int| 0 <= i < decimal(n).len() ==> is_digit(#[trigger] decimal(n)[i]),
    decreases n,
{
    assert(forall|d: nat| d < 10 ==> is_digit(#[trigger] digit(d)) && digit(d) as nat == d + 48);
    if n < 10 {
        assert(decimal(n).drop_last() =~= seq![]);
        assert(decimal(n).last() == digit(n));
        reveal_with_fuel(digits_value, 2);
    } else {
        lemma_decimal_value(n / 10);
        assert(decimal(n).drop_last() =~= decimal(n / 10));
        assert(decimal(n).last() == digit(n % 10));
    }
}

/// The decimal notation of a number that fits in 32 bits stands for that number, and there is no
/// white space at its ends.
pub proof fn lemma_signed_decimal_value(n: i32)
    ensures
        signed_value(signed_decimal(n as int)) == Some(n as int),
        trimmed(signed_decimal(n as int)) == signed_decimal(n as int),
        forall|i: int|
            0 <= i < signed_decimal(n as int).len() ==> {
                let c = #[trigger] signed_decimal(n as int)[i];
                is_digit(c) || c == '-'
            },
        signed_decimal(n as int).len() > 0,
{
    let text = signed_decimal(n as int);
    if n < 0 {
        let digits = decimal((-n) as nat);
        lemma_decimal_value((-n) as nat);
        assert(text.skip(1) =~= digits);
        assert(text[1] == digits[0]);
        assert forall|i: int| 0 <= i < text.len() implies {
            let c = #[trigger] text[i];
            is_digit(c) || c == '-'
        } by {
            if i > 0 {
                assert(text[i] == digits[i - 1]);
            }
        }
    } else {
        lemma_decimal_value(n as nat);
    }
    assert(!is_white(text[0]));
    assert(!is_white(text[text.len() - 1]));
}

proof fn lemma_digits_grow(s: Seq<char>, n: int)
    requires
        0 <= n <= s.len(),
        digits_value(s) is Some,
    ensures
        digits_value(s.take(n)) is Some,
        digits_value(s.take(n))->0 <= digits_value(s)->0,
    decreases s.len() - n,
{
    if n == s.len() {
        assert(s.take(n) =~= s);
    } else {
        assert(s.take(n + 1).drop_last() =~= s.take(n));
        lemma_digits_grow(s, n + 1);
    }
}

fn parse_digits(s: &Vec<char>, from: usize, max: u64) -> (value: Option<u64>)
    requires
        from <= s@.len(),
        max <= u32::MAX,
    ensures
        match value {
            Some(n) => from < s@.len() && digits_value(s@.skip(from as int)) == Some(n as nat) && n
                <= max,
            None => from == s@.len() || digits_value(s@.skip(from as int)) is None || digits_value(
                s@.skip(from as int),
            )->0 > max,
        },
{
    if from == s.len() {
        return None;
    }
    let ghost digits = s@.skip(from as int);
    let mut value: u64 = 0;
    let mut i: usize = from;
    assert(digits.take(0) =~= Seq::empty());
    while i < s.len()
        invariant
            from <= i <= s@.len(),
            max <= u32::MAX,
            digits == s@.skip(from as int),
            value <= max,
            digits_value(digits.take(i - from)) == Some(value as nat),
        decreases s.len() - i,
    {
        assert(digits.take(i - from + 1).drop_last() =~= digits.take(i - from));
        assert(digits.take(i - from + 1).last() == s@[i as int]);
        let c: char = s[i];
        if !('0' <= c && c <= '9') {
            proof {
                if digits_value(digits) is Some {
                    lemma_digits_grow(digits, i - from + 1);
                }
            }
            return None;
        }
        let d: u64 = (c as u32 - 48) as u64;
        let next: u64 = value * 10 + d;
        if next > max {
            proof {
                if digits_value(digits) is Some {
                    lemma_digits_grow(digits, i - from + 1);
                }
            }
            return None;
        }
        value = next;
        i += 1;
    }
    assert(digits.take(digits.len() as int) =~= digits);
    Some(value)
}

fn parse_unsigned(s: &Vec<char>, from: usize, max: u64) -> (value: Option<u64>)
    requires
        from <= s@.len(),
        max <= u32::MAX,
    ensures
        match value {
            Some(n) => unsigned_value(s@.skip(from as int), max as nat) == Some(n as nat) && n
                <= max,
            None => unsigned_value(s@.skip(from as int), max as nat) is None,
        },
{
    if from < s.len() && s[from] == '+' {
        assert(s@.skip(from as int).skip(1) =~= s@.skip(from + 1));
        parse_digits(s, from + 1, max)
    } else {
        parse_digits(s, from, max)
    }
}

/// Reads a number of 32 bits.
pub fn parse_u32(s: &str) -> (value: Option<u32>)
    ensures
        match value {
            Some(n) => unsigned_value(s@, 0xffff_ffff) == Some(n as nat),
            None => unsigned_value(s@, 0xffff_ffff) is None,
        },
{
    let chars = chars_of(s);
    assert(s@.skip(0) =~= s@);
    match parse_unsigned(&chars, 0, 0xffff_ffff) {
        Some(n) => Some(n as u32),
        None => None,
    }
}

/// Reads a number of 32 bits with a sign.
pub fn parse_i32(s: &str) -> (value: Option<i32>)
    ensures
        match value {
            Some(n) => signed_value(s@) == Some(n as int),
            None => signed_value(s@) is None,
        },
{
    let chars = chars_of(s);
    assert(s@.skip(0) =~= s@);
    if chars.len() > 0 && chars[0] == '-' {
        if chars.len() > 1 && chars[1] == '+' {
            return None;
        }
        match parse_unsigned(&chars, 1, 0x8000_0000) {
            Some(n) => Some((-(n as i64)) as i32),
            None => None,
        }
    } else {
        match parse_unsigned(&chars, 0, 0x7fff_ffff) {
            Some(n) => Some(n as i32),
            None => None,
        }
    }
}

/// Where a character stands first.
pub open spec fn first_char(s: Seq<char>, c: char) -> Option<int>
    decreases s.len(),
{
    if s.len() == 0 {
        None
    } else {
        match first_char(s.drop_last(), c) {
            Some(at) => Some(at),
            None => if s.last() == c {
                Some(s.len() - 1)
            } else {
                None
            },
        }
    }
}

/// The text before and behind the first `c`.
pub fn split_once(s: &str, c: char) -> (out: Option<(String, String)>)
    ensures
        match out {
            Some((before, after)) => first_char(s@, c) matches Some(at) && before@ == s@.take(at)
                && after@ == s@.skip(at + 1),
            None => first_char(s@, c) is None,
        },
{
    let chars = chars_of(s);
    let mut i: usize = 0;
    assert(s@.take(0) =~= Seq::empty());
    while i < chars.len()
        invariant
            chars@ == s@,
            i <= chars.len(),
            first_char(s@.take(i as int), c) is None,
        decreases chars.len() - i,
    {
        assert(s@.take(i + 1).drop_last() =~= s@.take(i as int));
        if chars[i] == c {
            proof {
                lemma_first_char(s@, c, i + 1);
            }
            let before = s.substring_char(0, i).to_owned();
            let after = s.substring_char(i + 1, chars.len()).to_owned();
            assert(before@ =~= s@.take(i as int));
            assert(after@ =~= s@.skip(i + 1));
            return Some((before, after));
        }
        i += 1;
    }
    assert(s@.take(s@.len() as int) =~= s@);
    None
}

proof fn lemma_first_char(s: Seq<char>, c: char, n: int)
    requires
        0 <= n <= s.len(),
        first_char(s.take(n), c) is Some,
    ensures
        first_char(s, c) == first_char(s.take(n), c),
    decreases s.len() - n,
{
    if n == s.len() {
        assert(s.take(n) =~= s);
    } else {
        assert(s.take(n + 1).drop_last() =~= s.take(n));
        lemma_first_char(s, c, n + 1);
    }
}

pub proof fn lemma_order_strict(a: Seq<char>)
    ensures
        !text_before(a, a),
    decreases a.len(),
{
    if a.len() > 0 {
        lemma_order_strict(a.skip(1));
    }
}

pub proof fn lemma_order_total(a: Seq<char>, b: Seq<char>)
    ensures
        text_before(a, b) || a == b || text_before(b, a),
    decreases a.len(),
{
    if a.len() > 0 && b.len() > 0 {
        if a[0] == b[0] {
            lemma_order_total(a.skip(1), b.skip(1));
            if a.skip(1) == b.skip(1) {
                assert(a =~= seq![a[0]] + a.skip(1));
                assert(b =~= seq![b[0]] + b.skip(1));
            }
        }
    } else {
        assert(a.len() == 0 && b.len() == 0 ==> a =~= b);
    }
}

pub proof fn lemma_order_transitive(a: Seq<char>, b: Seq<char>, c: Seq<char>)
    requires
        text_before(a, b),
        text_before(b, c),
    ensures
        text_before(a, c),
    decreases a.len(),
{
    if a.len() > 0 && a[0] == b[0] && b[0] == c[0] {
        lemma_order_transitive(a.skip(1), b.skip(1), c.skip(1));
    }
}

/// The text without white space at its ends, if anything is left.
pub open spec fn nonblank(s: Seq<char>) -> Option<Seq<char>> {
    if is_blank(s) {
        None
    } else {
        Some(trimmed(s))
    }
}

/// The text without white space at its ends, if anything is left.
pub fn trim_nonblank(s: &str) -> (out: Option<String>)
    ensures
        opt_text(out) == nonblank(s@),
{
    let trimmed_text = trim(s);
    if trimmed_text.is_empty() {
        None
    } else {
        Some(trimmed_text.to_owned())
    }
}

proof fn lemma_trimmed_end_ends(s: Seq<char>)
    ensures
        trimmed_end(s).len() > 0 ==> !is_white(trimmed_end(s).last()),
        trimmed_end(trimmed_end(s)) == trimmed_end(s),
        trimmed_end(s).len() <= s.len(),
        trimmed_end(s).len() > 0 ==> trimmed_end(s)[0] == s[0],
    decreases s.len(),
{
    if s.len() > 0 && is_white(s.last()) {
        lemma_trimmed_end_ends(s.drop_last());
    }
}

proof fn lemma_trimmed_start_starts(s: Seq<char>)
    ensures
        trimmed_start(s).len() > 0 ==> !is_white(trimmed_start(s)[0]),
    decreases s.len(),
{
    if s.len() > 0 && is_white(s[0]) {
        lemma_trimmed_start_starts(s.skip(1));
    }
}

/// A text without white space at its ends stays as it is.
pub proof fn lemma_trimmed_twice(s: Seq<char>)
    ensures
        trimmed(trimmed(s)) == trimmed(s),
{
    lemma_trimmed_start_starts(s);
    lemma_trimmed_end_ends(s);
    lemma_trimmed_start_starts(trimmed_end(s));
    lemma_trimmed_end_ends(trimmed_start(s));
}

/// The longest start of a text that fits in `max` bytes.
pub open spec fn fitting(s: Seq<char>, max: nat) -> Seq<char>
    decreases s.len(),
{
    if s.len() == 0 || bytes_in(s) <= max {
        s
    } else {
        fitting(s.drop_last(), max)
    }
}

fn char_bytes(c: char) -> (n: usize)
    ensures
        n == vstd::utf8::encode_scalar(c as u32).len(),
        1 <= n <= 4,
{
    let code: u32 = c as u32;
    if code <= 0x7f {
        1
    } else if code <= 0x7ff {
        2
    } else if code <= 0xffff {
        3
    } else {
        4
    }
}

proof fn lemma_one_more(s: Seq<char>, n: int)
    requires
        0 <= n < s.len(),
    ensures
        bytes_in(s.take(n + 1)) == bytes_in(s.take(n)) + vstd::utf8::encode_scalar(
            s[n] as u32,
        ).len(),
{
    let one = seq![s[n]];
    assert(s.take(n + 1) =~= s.take(n) + one);
    lemma_encode_concat(s.take(n), one);
    assert(one.drop_first() =~= seq![]);
    assert(encode_utf8(one.drop_first()) =~= seq![]);
    assert(encode_utf8(one) =~= vstd::utf8::encode_scalar(s[n] as u32));
}

proof fn lemma_more_bytes(s: Seq<char>, n: int, m: int)
    requires
        0 <= n <= m <= s.len(),
    ensures
        bytes_in(s.take(n)) <= bytes_in(s.take(m)),
    decreases m - n,
{
    if n < m {
        lemma_one_more(s, m - 1);
        lemma_more_bytes(s, n, m - 1);
    }
}

proof fn lemma_fitting(s: Seq<char>, max: nat, n: int)
    requires
        0 <= n <= s.len(),
        bytes_in(s.take(n)) <= max,
        n < s.len() ==> bytes_in(s.take(n + 1)) > max,
    ensures
        fitting(s, max) == s.take(n),
    decreases s.len(),
{
    assert(s.take(s.len() as int) =~= s);
    if n < s.len() {
        lemma_more_bytes(s, n + 1, s.len() as int);
        let shorter = s.drop_last();
        assert(shorter.take(n) =~= s.take(n));
        if n < shorter.len() {
            assert(shorter.take(n + 1) =~= s.take(n + 1));
        }
        lemma_fitting(shorter, max, n);
    }
}

/// The longest start of a text that fits in `max` bytes.
pub fn cut_to_bytes(s: &str, max: usize) -> (out: &str)
    ensures
        out@ == fitting(s@, max as nat),
{
    let chars = chars_of(s);
    let mut n: usize = 0;
    let mut used: usize = 0;
    assert(s@.take(0) =~= seq![]);
    while n < chars.len() && char_bytes(chars[n]) <= max - used
        invariant
            n <= chars.len(),
            chars@ == s@,
            used == bytes_in(s@.take(n as int)),
            used <= max,
        decreases chars.len() - n,
    {
        proof {
            lemma_one_more(s@, n as int);
        }
        used += char_bytes(chars[n]);
        n += 1;
    }
    proof {
        if n < s@.len() {
            lemma_one_more(s@, n as int);
        }
        lemma_fitting(s@, max as nat, n as int);
    }
    let out = s.substring_char(0, n);
    assert(out@ =~= s@.take(n as int));
    out
}

proof fn lemma_ascii_scalar(c: char)
    requires
        c as int <= 0x7f,
    ensures
        vstd::utf8::encode_scalar(c as u32).len() == 1,
{
}

/// A text of ASCII characters has as many bytes as characters.
pub proof fn lemma_ascii_bytes(s: Seq<char>)
    requires
        forall|i: int| 0 <= i < s.len() ==> (#[trigger] s[i]) as int <= 0x7f,
    ensures
        bytes_in(s) == s.len(),
    decreases s.len(),
{
    reveal_with_fuel(encode_utf8, 2);
    if s.len() > 0 {
        let rest = s.drop_first();
        assert forall|i: int| 0 <= i < rest.len() implies (#[trigger] rest[i]) as int <= 0x7f by {
            assert(rest[i] == s[i + 1]);
        }
        lemma_ascii_bytes(rest);
        lemma_ascii_scalar(s[0]);
        assert(encode_utf8(s) == vstd::utf8::encode_scalar(s[0] as u32)
            + encode_utf8(rest));
    }
}

} // verus!
