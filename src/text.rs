use vstd::prelude::*;
use vstd::string::*;
use vstd::std_specs::iter::IteratorSpec;

verus! {

// Character-level helpers shared by the catalog, migration and transcription code.

/// The characters of `s`, in order.
pub(crate) fn chars_of(s: &str) -> (r: Vec<char>)
    ensures
        r@ == s@,
{
    broadcast use vstd::string::group_string_axioms;

    let mut it = s.chars();
    let mut out: Vec<char> = Vec::new();
    loop
        invariant
            out@ + it.remaining() == s@,
        decreases s@.len() - out@.len(),
    {
        let ghost before = it.remaining();
        match it.next() {
            Some(c) => {
                out.push(c);
                assert(out@ + it.remaining() =~= s@) by {
                    assert(before == seq![c] + it.remaining());
                }
            },
            None => {
                assert(out@ =~= s@);
                return out;
            },
        }
    }
}

/// Appends one character.
///
/// Relies on `String::push`: it appends the character at the end.
#[verifier::external_body]
pub(crate) fn push_char(s: &mut String, c: char)
    ensures
        final(s)@ == old(s)@.push(c),
{
    s.push(c)
}

pub open spec fn digit_char(d: int) -> char {
    if d == 0 {
        '0'
    } else if d == 1 {
        '1'
    } else if d == 2 {
        '2'
    } else if d == 3 {
        '3'
    } else if d == 4 {
        '4'
    } else if d == 5 {
        '5'
    } else if d == 6 {
        '6'
    } else if d == 7 {
        '7'
    } else if d == 8 {
        '8'
    } else {
        '9'
    }
}

/// The decimal digits of `n`, most significant first, without leading zeros.
pub open spec fn nat_digits(n: nat) -> Seq<char>
    decreases n,
{
    if n < 10 {
        seq![digit_char(n as int)]
    } else {
        nat_digits(n / 10).push(digit_char((n % 10) as int))
    }
}

/// `n` written in decimal, with a leading `-` when negative.
pub open spec fn decimal_text(n: int) -> Seq<char> {
    if n < 0 {
        seq!['-'] + nat_digits((-n) as nat)
    } else {
        nat_digits(n as nat)
    }
}

/// `n` written in decimal.
///
/// Relies on the `Display` impl of `i64` (through `to_string`): decimal
/// digits without leading zeros, `-` before a negative value.
#[verifier::external_body]
pub(crate) fn decimal(n: i64) -> (r: String)
    ensures
        r@ == decimal_text(n as int),
{
    n.to_string()
}

/// `n` written in decimal.
///
/// Relies on the `Display` impl of `u128` (through `to_string`): decimal
/// digits without leading zeros.
#[verifier::external_body]
pub(crate) fn decimal_unsigned(n: u128) -> (r: String)
    ensures
        r@ == decimal_text(n as int),
{
    n.to_string()
}

/// `c` with ASCII upper-case letters turned to lower case.
pub open spec fn ascii_lower(c: char) -> char {
    if 'A' <= c && c <= 'Z' {
        ((c as u32) + 32) as char
    } else {
        c
    }
}

/// `name` has the audio extension `m4a` in any ASCII case, after a dot that
/// does not start the name.
pub open spec fn is_audio_name(name: Seq<char>) -> bool {
    &&& name.len() >= 5
    &&& name[name.len() - 4] == '.'
    &&& ascii_lower(name[name.len() - 3]) == 'm'
    &&& name[name.len() - 2] == '4'
    &&& ascii_lower(name[name.len() - 1]) == 'a'
}

/// Whether the file name carries the audio extension (`.m4a`, any case).
pub fn has_audio_extension(name: &str) -> (r: bool)
    ensures
        r == is_audio_name(name@),
{
    let cs = chars_of(name);
    let n = cs.len();
    if n < 5 {
        return false;
    }
    let m = cs[n - 3];
    let a = cs[n - 1];
    cs[n - 4] == '.' && (m == 'm' || m == 'M') && cs[n - 2] == '4' && (a == 'a' || a == 'A')
}

/// `s` ends with `suffix`.
pub open spec fn ends_with(s: Seq<char>, suffix: Seq<char>) -> bool {
    suffix.len() <= s.len() && s.subrange(s.len() - suffix.len(), s.len() as int) == suffix
}

/// Whether `s` ends with `suffix`.
pub fn ends_with_chars(s: &Vec<char>, suffix: &Vec<char>) -> (r: bool)
    ensures
        r == ends_with(s@, suffix@),
{
    if suffix.len() > s.len() {
        return false;
    }
    let off = s.len() - suffix.len();
    let mut i: usize = 0;
    while i < suffix.len()
        invariant
            off as int + suffix@.len() == s@.len(),
            s@.len() <= usize::MAX,
            i <= suffix@.len(),
            forall|k: int| 0 <= k < i ==> s@[off + k] == suffix@[k],
        decreases suffix@.len() - i,
    {
        assert((off as int) + (i as int) < s@.len());
        if s[off + i] != suffix[i] {
            assert(s@.subrange(off as int, s@.len() as int)[i as int] != suffix@[i as int]);
            return false;
        }
        i += 1;
    }
    assert(s@.subrange(off as int, s@.len() as int) =~= suffix@);
    true
}

/// Joins a relative path component onto a directory path, with one `/`
/// between them.
pub open spec fn joined(base: Seq<char>, part: Seq<char>) -> Seq<char> {
    if base.len() == 0 {
        part
    } else if base.last() == '/' {
        base + part
    } else {
        base + seq!['/'] + part
    }
}

/// `base` with the relative component `part` appended.
pub fn join_path(base: &String, part: &str) -> (r: String)
    ensures
        r@ == joined(base@, part@),
{
    let cs = chars_of(base.as_str());
    if cs.len() == 0 {
        return String::from_str(part);
    }
    let mut out = base.clone();
    if cs[cs.len() - 1] != '/' {
        push_char(&mut out, '/');
    }
    out.append(part);
    out
}

/// Whether `c` has the Unicode `White_Space` property.
pub open spec fn is_white_space(c: char) -> bool {
    ('\u{9}' <= c && c <= '\u{d}') || c == ' ' || c == '\u{85}' || c == '\u{a0}' || c == '\u{1680}'
        || ('\u{2000}' <= c && c <= '\u{200a}') || c == '\u{2028}' || c == '\u{2029}' || c
        == '\u{202f}' || c == '\u{205f}' || c == '\u{3000}'
}

/// Relies on `char::is_whitespace`: true exactly for the characters with
/// the Unicode `White_Space` property.
#[verifier::external_body]
pub(crate) fn is_whitespace(c: char) -> (r: bool)
    ensures
        r == is_white_space(c),
{
    c.is_whitespace()
}

/// `s` without leading whitespace.
pub open spec fn trim_start(s: Seq<char>) -> Seq<char>
    decreases s.len(),
{
    if s.len() > 0 && is_white_space(s[0]) {
        trim_start(s.drop_first())
    } else {
        s
    }
}

/// `s` without trailing whitespace.
pub open spec fn trim_end(s: Seq<char>) -> Seq<char>
    decreases s.len(),
{
    if s.len() > 0 && is_white_space(s.last()) {
        trim_end(s.drop_last())
    } else {
        s
    }
}


/// `s` without whitespace at either end.
pub open spec fn trimmed(s: Seq<char>) -> Seq<char> {
    trim_end(trim_start(s))
}

/// The characters `v[a..b]` as a string.
pub fn string_of_range(v: &Vec<char>, a: usize, b: usize) -> (r: String)
    requires
        a <= b <= v@.len(),
    ensures
        r@ == v@.subrange(a as int, b as int),
{
    let mut out = String::new();
    let mut k: usize = a;
    while k < b
        invariant
            a <= k <= b,
            b <= v@.len(),
            out@ == v@.subrange(a as int, k as int),
        decreases b - k,
    {
        push_char(&mut out, v[k]);
        proof {
            assert(out@ =~= v@.subrange(a as int, k as int + 1));
        }
        k += 1;
    }
    out
}

/// The bounds `(a, b)` of `v` without whitespace at either end.
pub fn trim_bounds(v: &Vec<char>) -> (r: (usize, usize))
    ensures
        r.0 <= r.1 <= v@.len(),
        v@.subrange(r.0 as int, r.1 as int) == trimmed(v@),
{
    let mut a: usize = 0;
    assert(v@.subrange(0, v@.len() as int) =~= v@);
    while a < v.len() && is_whitespace(v[a])
        invariant
            a <= v@.len(),
            trim_start(v@) == trim_start(v@.subrange(a as int, v@.len() as int)),
        decreases v@.len() - a,
    {
        proof {
            let rest = v@.subrange(a as int, v@.len() as int);
            assert(rest.drop_first() =~= v@.subrange(a as int + 1, v@.len() as int));
        }
        a += 1;
    }
    let ghost start = v@.subrange(a as int, v@.len() as int);
    assert(trim_start(v@) == start) by {
        if a < v@.len() {
            assert(start[0] == v@[a as int]);
        }
    }
    let mut b: usize = v.len();
    while b > a && is_whitespace(v[b - 1])
        invariant
            a <= b <= v@.len(),
            start == v@.subrange(a as int, v@.len() as int),
            trim_end(start) == trim_end(v@.subrange(a as int, b as int)),
        decreases b,
    {
        proof {
            let cur = v@.subrange(a as int, b as int);
            assert(cur.drop_last() =~= v@.subrange(a as int, b as int - 1));
            assert(cur.last() == v@[b - 1]);
        }
        b -= 1;
    }
    assert(trim_end(start) == v@.subrange(a as int, b as int)) by {
        if b > a {
            assert(v@.subrange(a as int, b as int).last() == v@[b - 1]);
        }
    }
    (a, b)
}

/// `s` without whitespace at either end.
pub fn trim_str(s: &str) -> (r: String)
    ensures
        r@ == trimmed(s@),
{
    let cs = chars_of(s);
    let (a, b) = trim_bounds(&cs);
    string_of_range(&cs, a, b)
}

/// Position of the first line feed of `s`, or its length when it has none.
pub open spec fn newline_index(s: Seq<char>) -> int
    decreases s.len(),
{
    if s.len() == 0 {
        0
    } else if s[0] == '\n' {
        0
    } else {
        1 + newline_index(s.drop_first())
    }
}

/// A line without the carriage return that ended it.
pub open spec fn without_cr(line: Seq<char>) -> Seq<char> {
    if line.len() > 0 && line.last() == '\r' {
        line.drop_last()
    } else {
        line
    }
}

/// The lines of `s`: split at each line feed, a carriage return before it
/// dropped, no empty line after a final line feed.
pub open spec fn lines_of(s: Seq<char>) -> Seq<Seq<char>>
    decreases s.len(),
{
    if s.len() == 0 {
        Seq::empty()
    } else {
        let k = newline_index(s);
        if k < 0 || k >= s.len() {
            seq![s]
        } else {
            seq![without_cr(s.subrange(0, k))] + lines_of(s.subrange(k + 1, s.len() as int))
        }
    }
}

/// The lines of `s`.
///
/// Relies on `str::lines`: pieces split at `\n`, each without its `\n` and
/// without a `\r` just before it, and no empty piece after a final `\n`.
#[verifier::external_body]
pub(crate) fn split_lines(s: &str) -> (r: Vec<String>)
    ensures
        r@.len() == lines_of(s@).len(),
        forall|i: int| 0 <= i < r@.len() ==> (#[trigger] r@[i])@ == lines_of(s@)[i],
{
    s.lines().map(|l| l.to_string()).collect()
}

/// The maximal runs of non-whitespace characters of `s`, in order.
pub open spec fn words_of(s: Seq<char>) -> Seq<Seq<char>>
    decreases s.len(),
{
    if s.len() == 0 {
        Seq::empty()
    } else if is_white_space(s.last()) {
        words_of(s.drop_last())
    } else if s.len() == 1 || is_white_space(s[s.len() - 2]) {
        words_of(s.drop_last()).push(seq![s.last()])
    } else {
        let w = words_of(s.drop_last());
        w.update(w.len() - 1, w.last().push(s.last()))
    }
}

/// The words of `s`.
///
/// Relies on `str::split_whitespace`: the non-empty runs between
/// characters with the Unicode `White_Space` property, in order.
#[verifier::external_body]
pub(crate) fn split_words(s: &str) -> (r: Vec<String>)
    ensures
        r@.len() == words_of(s@).len(),
        forall|i: int| 0 <= i < r@.len() ==> (#[trigger] r@[i])@ == words_of(s@)[i],
{
    s.split_whitespace().map(|w| w.to_string()).collect()
}

/// Whether `c` is a control character (general category `Cc`).
pub open spec fn is_control_char(c: char) -> bool {
    c <= '\u{1f}' || ('\u{7f}' <= c && c <= '\u{9f}')
}

/// Relies on `char::is_control`: true exactly for general category `Cc`.
#[verifier::external_body]
pub(crate) fn is_control(c: char) -> (r: bool)
    ensures
        r == is_control_char(c),
{
    c.is_control()
}

/// `s` without its control characters.
pub open spec fn without_control(s: Seq<char>) -> Seq<char>
    decreases s.len(),
{
    if s.len() == 0 {
        s
    } else if is_control_char(s.last()) {
        without_control(s.drop_last())
    } else {
        without_control(s.drop_last()).push(s.last())
    }
}

/// Words joined with one space between neighbours.
pub open spec fn join_words(ws: Seq<Seq<char>>) -> Seq<char>
    decreases ws.len(),
{
    if ws.len() == 0 {
        Seq::empty()
    } else if ws.len() == 1 {
        ws[0]
    } else {
        join_words(ws.drop_last()) + seq![' '] + ws.last()
    }
}

} // verus!
