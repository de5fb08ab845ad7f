//! Character and string utilities shared by every emitter.
//!
//! Everything that touches text goes through the helpers in this module:
//! exact string equality, decimal rendering of integers, whitespace
//! trimming, line splitting and the join/concat specification functions the
//! emitters state their contracts with.

use vstd::prelude::*;

verus! {

// ---------------------------------------------------------------------------
// Sequence building blocks for contracts
// ---------------------------------------------------------------------------

/// `parts` glued together with `sep` between consecutive elements.
pub open spec fn spec_join(parts: Seq<Seq<char>>, sep: Seq<char>) -> Seq<char>
    decreases parts.len(),
{
    if parts.len() == 0 {
        Seq::<char>::empty()
    } else if parts.len() == 1 {
        parts[0]
    } else {
        parts[0] + sep + spec_join(parts.drop_first(), sep)
    }
}

/// `parts` glued together with nothing in between.
pub open spec fn spec_concat(parts: Seq<Seq<char>>) -> Seq<char>
    decreases parts.len(),
{
    if parts.len() == 0 {
        Seq::<char>::empty()
    } else {
        parts[0] + spec_concat(parts.drop_first())
    }
}

/// `s` begins with `p`.
pub open spec fn spec_starts_with(s: Seq<char>, p: Seq<char>) -> bool {
    s.len() >= p.len() && s.take(p.len() as int) == p
}

/// `s` ends with `p`.
pub open spec fn spec_ends_with(s: Seq<char>, p: Seq<char>) -> bool {
    s.len() >= p.len() && s.skip(s.len() - p.len()) == p
}

pub proof fn lemma_join_take_succ(parts: Seq<Seq<char>>, sep: Seq<char>, i: int)
    requires
        0 <= i < parts.len(),
    ensures
        spec_join(parts.take(i + 1), sep) == if i == 0 {
            parts[0]
        } else {
            spec_join(parts.take(i), sep) + sep + parts[i]
        },
    decreases i,
{
    if i == 0 {
        assert(parts.take(1).len() == 1);
        assert(parts.take(1)[0] == parts[0]);
    } else {
        let tail = parts.drop_first();
        assert(parts.take(i + 1).drop_first() =~= tail.take(i));
        assert(parts.take(i).drop_first() =~= tail.take(i - 1));
        lemma_join_take_succ(tail, sep, i - 1);
        assert(parts.take(i + 1)[0] == parts[0]);
        assert(parts.take(i)[0] == parts[0]);
        assert(tail[i - 1] == parts[i]);
        if i == 1 {
            assert(spec_join(parts.take(2), sep) == parts[0] + sep + spec_join(tail.take(1), sep));
            assert(spec_join(tail.take(1), sep) == tail[0]);
            assert(spec_join(parts.take(1), sep) == parts[0]);
        } else {
            assert(spec_join(parts.take(i + 1), sep) == parts[0] + sep + spec_join(
                tail.take(i),
                sep,
            ));
            assert(spec_join(tail.take(i), sep) == spec_join(tail.take(i - 1), sep) + sep + tail[i
                - 1]);
            assert(spec_join(parts.take(i), sep) == parts[0] + sep + spec_join(
                tail.take(i - 1),
                sep,
            ));
            assert((parts[0] + sep + (spec_join(tail.take(i - 1), sep) + sep + tail[i - 1]))
                =~= ((parts[0] + sep + spec_join(tail.take(i - 1), sep)) + sep + tail[i - 1]));
        }
    }
}

pub proof fn lemma_concat_take_succ(parts: Seq<Seq<char>>, i: int)
    requires
        0 <= i < parts.len(),
    ensures
        spec_concat(parts.take(i + 1)) == spec_concat(parts.take(i)) + parts[i],
    decreases i,
{
    if i == 0 {
        assert(parts.take(1).len() == 1);
        assert(parts.take(1)[0] == parts[0]);
        assert(parts.take(1).drop_first() =~= Seq::<Seq<char>>::empty());
        assert(parts.take(0) =~= Seq::<Seq<char>>::empty());
        assert(spec_concat(Seq::<Seq<char>>::empty()) == Seq::<char>::empty());
        assert(spec_concat(parts.take(1)) == parts[0] + Seq::<char>::empty());
        assert(parts[0] + Seq::<char>::empty() =~= parts[0]);
    } else {
        let tail = parts.drop_first();
        assert(parts.take(i + 1).drop_first() =~= tail.take(i));
        assert(parts.take(i).drop_first() =~= tail.take(i - 1));
        lemma_concat_take_succ(tail, i - 1);
        assert(parts.take(i + 1)[0] == parts[0]);
        assert(parts.take(i)[0] == parts[0]);
        assert(tail[i - 1] == parts[i]);
        assert((parts[0] + (spec_concat(tail.take(i - 1)) + tail[i - 1])) =~= ((parts[0]
            + spec_concat(tail.take(i - 1))) + tail[i - 1]));
    }
}

// ---------------------------------------------------------------------------
// Exact string primitives
// ---------------------------------------------------------------------------

/// The characters of `s`, in order, as a vector.
pub fn str_chars(s: &str) -> (v: Vec<char>)
    ensures
        v@ == s@,
{
    let n: usize = s.unicode_len();
    let mut v: Vec<char> = Vec::new();
    let mut i: usize = 0;
    while i < n
        invariant
            n == s@.len(),
            i <= n,
            v@ == s@.take(i as int),
        decreases n - i,
    {
        let c = s.get_char(i);
        v.push(c);
        i = i + 1;
        proof {
            assert(v@ =~= s@.take(i as int));
        }
    }
    proof {
        assert(v@ =~= s@);
    }
    v
}

/// Relies on `String::push`: appends one character at the end.
#[verifier::external_body]
pub fn push_char(s: &mut String, c: char)
    ensures
        final(s)@ == old(s)@ + seq![c],
{
    s.push(c);
}

/// A `String` holding exactly the characters of `v`.
pub fn chars_to_string(v: &[char]) -> (s: String)
    ensures
        s@ == v@,
{
    let mut s = String::new();
    let n: usize = v.len();
    let mut i: usize = 0;
    while i < n
        invariant
            n == v@.len(),
            i <= n,
            s@ == v@.take(i as int),
        decreases n - i,
    {
        push_char(&mut s, v[i]);
        i = i + 1;
        proof {
            assert(s@ =~= v@.take(i as int));
        }
    }
    proof {
        assert(s@ =~= v@);
    }
    s
}

// ---------------------------------------------------------------------------
// Decimal rendering of unsigned integers
// ---------------------------------------------------------------------------

/// The decimal digit character for `d`.
pub open spec fn spec_digit(d: int) -> char {
    if d == 0 {
        '0'
    } else if d == 1 {
        '1'
    } else if d == 2 {
        '2'
    } else if d == 3 {
        '3'
    } else if d == 4 {
        '4'
    } else if d == 5 {
        '5'
    } else if d == 6 {
        '6'
    } else if d == 7 {
        '7'
    } else if d == 8 {
        '8'
    } else {
        '9'
    }
}

/// The decimal notation of `n`, without sign or leading zeros.
pub open spec fn spec_dec(n: nat) -> Seq<char>
    decreases n,
{
    if n < 10 {
        seq![spec_digit(n as int)]
    } else {
        spec_dec(n / 10).push(spec_digit((n % 10) as int))
    }
}

fn digit_char(d: u8) -> (c: char)
    requires
        d < 10,
    ensures
        c == spec_digit(d as int),
{
    if d == 0 {
        '0'
    } else if d == 1 {
        '1'
    } else if d == 2 {
        '2'
    } else if d == 3 {
        '3'
    } else if d == 4 {
        '4'
    } else if d == 5 {
        '5'
    } else if d == 6 {
        '6'
    } else if d == 7 {
        '7'
    } else if d == 8 {
        '8'
    } else {
        '9'
    }
}

/// The decimal notation of `n`.
pub fn u128_to_string(n: u128) -> (s: String)
    ensures
        s@ == spec_dec(n as nat),
{
    let mut digits: Vec<char> = Vec::new();
    let mut m: u128 = n;
    if m == 0 {
        let mut s = String::new();
        push_char(&mut s, '0');
        proof {
            assert(s@ =~= spec_dec(0));
        }
        return s;
    }
    while m > 0
        invariant
            m > 0 ==> spec_dec(n as nat) == spec_dec(m as nat) + digits@.reverse(),
            m == 0 ==> spec_dec(n as nat) == digits@.reverse(),
        decreases m,
    {
        let d: u8 = (m % 10) as u8;
        let c = digit_char(d);
        proof {
            let dv = digits@;
            assert(dv.push(c).reverse() =~= seq![c] + dv.reverse());
            if m >= 10 {
                assert(spec_dec(m as nat) == spec_dec((m as nat) / 10).push(
                    spec_digit(((m as nat) % 10) as int),
                ));
                assert(spec_dec((m as nat) / 10).push(c) =~= spec_dec((m as nat) / 10) + seq![c]);
                assert((spec_dec((m as nat) / 10) + seq![c]) + dv.reverse() =~= spec_dec(
                    (m as nat) / 10,
                ) + (seq![c] + dv.reverse()));
            } else {
                assert(spec_dec(m as nat) == seq![c]);
                assert(seq![c] + dv.reverse() =~= spec_dec(m as nat) + dv.reverse());
            }
        }
        digits.push(c);
        m = m / 10;
    }
    let mut s = String::new();
    let mut j: usize = digits.len();
    while j > 0
        invariant
            j <= digits.len(),
            s@ == digits@.skip(j as int).reverse(),
        decreases j,
    {
        j = j - 1;
        push_char(&mut s, digits[j]);
        proof {
            assert(s@ =~= digits@.skip(j as int).reverse());
        }
    }
    proof {
        assert(digits@.skip(0) =~= digits@);
    }
    s
}

/// The decimal notation of `n`.
pub fn usize_to_string(n: usize) -> (s: String)
    ensures
        s@ == spec_dec(n as nat),
{
    u128_to_string(n as u128)
}

// ---------------------------------------------------------------------------
// Trusted bridges to std character and string case mapping
// ---------------------------------------------------------------------------

/// Whether `c` has the Unicode `Uppercase` property, as decided by
/// `char::is_uppercase`.
pub uninterp spec fn spec_is_upper(c: char) -> bool;

/// The full Unicode uppercase mapping of `c` (one or more characters), as
/// produced by `char::to_uppercase`.
pub uninterp spec fn spec_upper_chars(c: char) -> Seq<char>;

/// The full Unicode lowercase mapping of `c` (one or more characters), as
/// produced by `char::to_lowercase`.
pub uninterp spec fn spec_lower_chars(c: char) -> Seq<char>;

/// The Unicode lowercase mapping of a whole string, as produced by
/// `str::to_lowercase`.
pub uninterp spec fn spec_lower_str(s: Seq<char>) -> Seq<char>;

/// The Unicode uppercase mapping of a whole string, as produced by
/// `str::to_uppercase`.
pub uninterp spec fn spec_upper_str(s: Seq<char>) -> Seq<char>;

/// Relies on `char::is_uppercase`: true exactly for characters with the
/// Unicode `Uppercase` property; among ASCII characters those are `A`..`Z`.
#[verifier::external_body]
pub fn char_is_uppercase(c: char) -> (r: bool)
    ensures
        r == spec_is_upper(c),
        (c as u32) < 128 ==> r == (65 <= c as u32 && c as u32 <= 90),
{
    c.is_uppercase()
}

/// Relies on `char::to_lowercase`: yields at least one character; an ASCII
/// letter `A`..`Z` maps to the single letter 32 code points above it, and any
/// other ASCII character maps to itself.
#[verifier::external_body]
pub fn char_to_lowercase(c: char) -> (r: char)
    ensures
        r == spec_lower_chars(c)[0],
        (65 <= c as u32 && c as u32 <= 90) ==> r as u32 == c as u32 + 32,
        ((c as u32) < 128 && !(65 <= c as u32 && c as u32 <= 90)) ==> r == c,
{
    c.to_lowercase().next().unwrap()
}

/// Relies on `char::to_uppercase`: yields at least one character; an ASCII
/// letter `a`..`z` maps to the single letter 32 code points below it, and any
/// other ASCII character maps to itself.
#[verifier::external_body]
pub fn char_to_uppercase(c: char) -> (r: char)
    ensures
        r == spec_upper_chars(c)[0],
        (97 <= c as u32 && c as u32 <= 122) ==> r as u32 == c as u32 - 32,
        ((c as u32) < 128 && !(97 <= c as u32 && c as u32 <= 122)) ==> r == c,
{
    c.to_uppercase().next().unwrap()
}

/// Relies on `char::to_uppercase`: the full (possibly multi-character)
/// uppercase mapping; for an ASCII character it is the single character that
/// `char_to_uppercase` returns.
#[verifier::external_body]
pub fn char_to_uppercase_full(c: char) -> (r: String)
    ensures
        r@ == spec_upper_chars(c),
        (c as u32) < 128 ==> r@ =~= seq![spec_upper_chars(c)[0]],
{
    c.to_uppercase().collect::<String>()
}

/// Relies on `str::to_lowercase`: the Unicode lowercase mapping of the whole
/// string; an empty string stays empty.
#[verifier::external_body]
pub fn str_to_lowercase(s: &str) -> (r: String)
    ensures
        r@ == spec_lower_str(s@),
        s@.len() == 0 ==> r@.len() == 0,
{
    s.to_lowercase()
}

/// Relies on `str::to_uppercase`: the Unicode uppercase mapping of the whole
/// string; an empty string stays empty.
#[verifier::external_body]
pub fn str_to_uppercase(s: &str) -> (r: String)
    ensures
        r@ == spec_upper_str(s@),
        s@.len() == 0 ==> r@.len() == 0,
{
    s.to_uppercase()
}

/// Exact equality of two string slices, decided character by character.
pub fn str_eq(a: &str, b: &str) -> (r: bool)
    ensures
        r == (a@ == b@),
{
    let na: usize = a.unicode_len();
    let nb: usize = b.unicode_len();
    if na != nb {
        proof {
            assert(a@ != b@);
        }
        return false;
    }
    let mut i: usize = 0;
    while i < na
        invariant
            na == a@.len(),
            na == b@.len(),
            i <= na,
            forall|j: int| 0 <= j < i ==> a@[j] == b@[j],
        decreases na - i,
    {
        if a.get_char(i) != b.get_char(i) {
            return false;
        }
        i = i + 1;
    }
    proof {
        assert(a@ =~= b@);
    }
    true
}

// ---------------------------------------------------------------------------
// Whitespace trimming (ASCII whitespace)
// ---------------------------------------------------------------------------

/// ASCII whitespace, the only whitespace the document parser recognises.
pub open spec fn spec_is_ws(c: char) -> bool {
    c == ' ' || c == '\t' || c == '\n' || c == '\r' || c == '\u{b}' || c == '\u{c}'
}

fn is_ws(c: char) -> (r: bool)
    ensures
        r == spec_is_ws(c),
{
    c == ' ' || c == '\t' || c == '\n' || c == '\r' || c == '\u{b}' || c == '\u{c}'
}

pub open spec fn spec_trim_start(s: Seq<char>) -> Seq<char>
    decreases s.len(),
{
    if s.len() > 0 && spec_is_ws(s[0]) {
        spec_trim_start(s.drop_first())
    } else {
        s
    }
}

pub open spec fn spec_trim_end(s: Seq<char>) -> Seq<char>
    decreases s.len(),
{
    if s.len() > 0 && spec_is_ws(s.last()) {
        spec_trim_end(s.drop_last())
    } else {
        s
    }
}

/// `s` without leading and trailing ASCII whitespace.
pub open spec fn spec_trim(s: Seq<char>) -> Seq<char> {
    spec_trim_end(spec_trim_start(s))
}

pub proof fn lemma_trim_start_props(s: Seq<char>)
    ensures
        spec_trim_start(s).len() > 0 ==> !spec_is_ws(spec_trim_start(s)[0]),
    decreases s.len(),
{
    if s.len() > 0 && spec_is_ws(s[0]) {
        lemma_trim_start_props(s.drop_first());
    }
}

pub proof fn lemma_trim_end_props(s: Seq<char>)
    ensures
        spec_trim_end(s).len() > 0 ==> !spec_is_ws(spec_trim_end(s).last()),
        spec_trim_end(s).len() > 0 ==> spec_trim_end(s)[0] == s[0],
    decreases s.len(),
{
    if s.len() > 0 && spec_is_ws(s.last()) {
        lemma_trim_end_props(s.drop_last());
    }
}

/// Trimming is idempotent.
pub proof fn lemma_trim_idempotent(s: Seq<char>)
    ensures
        spec_trim(spec_trim(s)) == spec_trim(s),
{
    let ts = spec_trim_start(s);
    let t = spec_trim_end(ts);
    lemma_trim_start_props(s);
    lemma_trim_end_props(ts);
    if t.len() == 0 {
        assert(spec_trim_start(t) == t);
        assert(spec_trim_end(t) == t);
    } else {
        assert(t[0] == ts[0]);
        assert(!spec_is_ws(t[0]));
        assert(spec_trim_start(t) == t);
        assert(!spec_is_ws(t.last()));
        assert(spec_trim_end(t) == t);
    }
}

/// The characters of `v[a..b]`.
pub fn slice_range(v: &[char], a: usize, b: usize) -> (r: Vec<char>)
    requires
        a <= b <= v@.len(),
    ensures
        r@ == v@.subrange(a as int, b as int),
{
    let mut r: Vec<char> = Vec::new();
    let mut i: usize = a;
    while i < b
        invariant
            a <= i <= b <= v@.len(),
            r@ == v@.subrange(a as int, i as int),
        decreases b - i,
    {
        r.push(v[i]);
        i = i + 1;
        proof {
            assert(r@ =~= v@.subrange(a as int, i as int));
        }
    }
    r
}

/// `v` without leading and trailing ASCII whitespace.
pub fn trim_chars(v: &[char]) -> (r: Vec<char>)
    ensures
        r@ == spec_trim(v@),
{
    let n: usize = v.len();
    let mut a: usize = 0;
    proof {
        assert(v@.skip(0) =~= v@);
    }
    while a < n && is_ws(v[a])
        invariant
            a <= n,
            n == v@.len(),
            spec_trim_start(v@) == spec_trim_start(v@.skip(a as int)),
        decreases n - a,
    {
        proof {
            let s = v@.skip(a as int);
            assert(s[0] == v@[a as int]);
            assert(s.drop_first() =~= v@.skip(a as int + 1));
        }
        a = a + 1;
    }
    proof {
        let s = v@.skip(a as int);
        if a < n {
            assert(s[0] == v@[a as int]);
            assert(!spec_is_ws(s[0]));
        } else {
            assert(s.len() == 0);
        }
        assert(spec_trim_start(s) == s);
    }
    let mut b: usize = n;
    proof {
        assert(v@.skip(a as int).take(n as int - a as int) =~= v@.skip(a as int));
    }
    while b > a && is_ws(v[b - 1])
        invariant
            a <= b <= n,
            n == v@.len(),
            spec_trim_start(v@) == v@.skip(a as int),
            spec_trim_end(v@.skip(a as int)) == spec_trim_end(
                v@.skip(a as int).take(b as int - a as int),
            ),
        decreases b,
    {
        proof {
            let s = v@.skip(a as int).take(b as int - a as int);
            assert(s.last() == v@[b as int - 1]);
            assert(s.drop_last() =~= v@.skip(a as int).take(b as int - 1 - a as int));
        }
        b = b - 1;
    }
    proof {
        let s = v@.skip(a as int).take(b as int - a as int);
        if b > a {
            assert(s.last() == v@[b as int - 1]);
            assert(!spec_is_ws(s.last()));
        } else {
            assert(s.len() == 0);
        }
        assert(spec_trim_end(s) == s);
        assert(s =~= v@.subrange(a as int, b as int));
    }
    slice_range(v, a, b)
}

// ---------------------------------------------------------------------------
// Line splitting (the `str::lines` convention)
// ---------------------------------------------------------------------------

/// The first position `>= i` in `s` holding `c`, or `s.len()` if none does.
pub open spec fn spec_find(s: Seq<char>, c: char, i: int) -> int
    decreases s.len() - i,
{
    if i < 0 || i >= s.len() {
        s.len() as int
    } else if s[i] == c {
        i
    } else {
        spec_find(s, c, i + 1)
    }
}

pub proof fn lemma_find_props(s: Seq<char>, c: char, i: int)
    requires
        0 <= i <= s.len(),
    ensures
        i <= spec_find(s, c, i) <= s.len(),
        spec_find(s, c, i) < s.len() ==> s[spec_find(s, c, i)] == c,
        forall|k: int| i <= k < spec_find(s, c, i) ==> s[k] != c,
    decreases s.len() - i,
{
    if i < s.len() && s[i] != c {
        lemma_find_props(s, c, i + 1);
    }
}

/// A line with a trailing carriage return dropped.
pub open spec fn spec_strip_cr(l: Seq<char>) -> Seq<char> {
    if l.len() > 0 && l.last() == '\r' {
        l.drop_last()
    } else {
        l
    }
}

pub open spec fn spec_lines_from(s: Seq<char>, pos: int) -> Seq<Seq<char>>
    decreases s.len() - pos,
    via spec_lines_from_dec
{
    if pos < 0 || pos >= s.len() {
        Seq::<Seq<char>>::empty()
    } else {
        let j = spec_find(s, c_nl(), pos);
        if j >= s.len() {
            seq![s.subrange(pos, s.len() as int)]
        } else {
            seq![spec_strip_cr(s.subrange(pos, j))] + spec_lines_from(s, j + 1)
        }
    }
}

#[via_fn]
proof fn spec_lines_from_dec(s: Seq<char>, pos: int) {
    if 0 <= pos < s.len() {
        lemma_find_props(s, c_nl(), pos);
    }
}

/// The newline character.
pub open spec fn c_nl() -> char {
    '\n'
}

/// The lines of `s`, split at newlines, a carriage return before a newline
/// dropped, and no final empty line for a trailing newline.
pub open spec fn spec_lines(s: Seq<char>) -> Seq<Seq<char>> {
    spec_lines_from(s, 0)
}

/// Splits `v` into lines.
pub fn split_lines(v: &[char]) -> (out: Vec<Vec<char>>)
    ensures
        out.deep_view() == spec_lines(v@),
{
    let n: usize = v.len();
    let mut out: Vec<Vec<char>> = Vec::new();
    let mut pos: usize = 0;
    proof {
        assert(out.deep_view() + spec_lines_from(v@, 0) =~= spec_lines_from(v@, 0));
    }
    while pos < n
        invariant
            pos <= n,
            n == v@.len(),
            spec_lines(v@) == out.deep_view() + spec_lines_from(v@, pos as int),
        decreases n - pos,
    {
        let ghost entry_pos = pos as int;
        let ghost entry_out = out.deep_view();
        let mut j: usize = pos;
        while j < n && v[j] != '\n'
            invariant
                pos <= j <= n,
                n == v@.len(),
                forall|k: int| pos <= k < j ==> v@[k] != c_nl(),
            decreases n - j,
        {
            j = j + 1;
        }
        proof {
            lemma_find_props(v@, c_nl(), entry_pos);
            if spec_find(v@, c_nl(), entry_pos) < j as int {
                assert(v@[spec_find(v@, c_nl(), entry_pos)] == c_nl());
                assert(false);
            }
            if (j as int) < spec_find(v@, c_nl(), entry_pos) {
                assert(j < n);
                assert(v@[j as int] == c_nl());
                assert(false);
            }
            assert(spec_find(v@, c_nl(), entry_pos) == j as int);
        }
        if j >= n {
            let line = slice_range(v, pos, n);
            out.push(line);
            pos = n;
            proof {
                assert(spec_lines_from(v@, entry_pos) =~= seq![
                    v@.subrange(entry_pos, n as int),
                ]);
                assert(out.deep_view() =~~= entry_out + seq![v@.subrange(entry_pos, n as int)]);
                assert(spec_lines_from(v@, n as int) =~= Seq::<Seq<char>>::empty());
                assert(entry_out + seq![v@.subrange(entry_pos, n as int)] + Seq::<
                    Seq<char>,
                >::empty() =~= entry_out + seq![v@.subrange(entry_pos, n as int)]);
            }
        } else {
            let line = if j > pos && v[j - 1] == '\r' {
                slice_range(v, pos, j - 1)
            } else {
                slice_range(v, pos, j)
            };
            proof {
                let raw = v@.subrange(entry_pos, j as int);
                if j > pos && v@[j as int - 1] == '\r' {
                    assert(raw.len() > 0 && raw.last() == '\r');
                    assert(raw.drop_last() =~= v@.subrange(entry_pos, j as int - 1));
                    assert(line@ == spec_strip_cr(raw));
                } else {
                    if raw.len() > 0 {
                        assert(raw.last() == v@[j as int - 1]);
                    }
                    assert(line@ == spec_strip_cr(raw));
                }
            }
            out.push(line);
            pos = j + 1;
            proof {
                let raw = v@.subrange(entry_pos, j as int);
                assert(spec_lines_from(v@, entry_pos) == seq![spec_strip_cr(raw)]
                    + spec_lines_from(v@, j as int + 1));
                assert(out.deep_view() =~~= entry_out + seq![spec_strip_cr(raw)]);
                assert(entry_out + (seq![spec_strip_cr(raw)] + spec_lines_from(v@, j as int + 1))
                    =~= (entry_out + seq![spec_strip_cr(raw)]) + spec_lines_from(
                    v@,
                    j as int + 1,
                ));
            }
        }
    }
    proof {
        assert(spec_lines_from(v@, pos as int) =~= Seq::<Seq<char>>::empty());
        assert(out.deep_view() + Seq::<Seq<char>>::empty() =~= out.deep_view());
    }
    out
}

// ---------------------------------------------------------------------------
// Prefix tests
// ---------------------------------------------------------------------------

/// Whether `s` ends with the characters of `p`.
pub fn str_ends_with(s: &str, p: &str) -> (r: bool)
    ensures
        r == spec_ends_with(s@, p@),
{
    let n: usize = s.unicode_len();
    let m: usize = p.unicode_len();
    if n < m {
        return false;
    }
    let mut i: usize = 0;
    while i < m
        invariant
            i <= m,
            m == p@.len(),
            m <= n == s@.len(),
            forall|k: int| 0 <= k < i ==> s@[n - m + k] == p@[k],
        decreases m - i,
    {
        if s.get_char(n - m + i) != p.get_char(i) {
            proof {
                assert(s@.skip(n as int - m as int)[i as int] != p@[i as int]);
            }
            return false;
        }
        i = i + 1;
    }
    proof {
        assert(s@.skip(n as int - m as int) =~= p@);
    }
    true
}

/// Whether `v` starts with the characters of `p`.
pub fn chars_start_with(v: &[char], p: &str) -> (r: bool)
    ensures
        r == spec_starts_with(v@, p@),
{
    let m: usize = p.unicode_len();
    let n: usize = v.len();
    if n < m {
        return false;
    }
    let mut i: usize = 0;
    while i < m
        invariant
            i <= m,
            m == p@.len(),
            m <= n == v@.len(),
            forall|k: int| 0 <= k < i ==> v@[k] == p@[k],
        decreases m - i,
    {
        if v[i] != p.get_char(i) {
            proof {
                assert(v@.take(m as int)[i as int] != p@[i as int]);
            }
            return false;
        }
        i = i + 1;
    }
    proof {
        assert(v@.take(m as int) =~= p@);
    }
    true
}

} // verus!
