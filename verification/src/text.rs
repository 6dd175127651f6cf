//! Character-level string operations with specifications over `Seq<char>`.

use vstd::prelude::*;

verus! {

/// Appends one character to a string with `String::push`. Trusted: the
/// contract claims what the documentation of `String::push` says, that the
/// character is appended at the end and nothing else changes.
#[verifier::external_body]
fn push_char(s: &mut String, c: char)
    ensures
        final(s)@ == old(s)@.push(c),
{
    s.push(c);
}

/// The characters of `s`, in order.
pub fn chars_of(s: &str) -> (v: Vec<char>)
    ensures
        v@ == s@,
{
    let mut v: Vec<char> = Vec::new();
    for c in it: s.chars()
        invariant
            v@ == it.seq().take(it.index() as int),
    {
        v.push(c);
    }
    v
}

/// A string made of the given characters.
pub fn string_of(cs: &Vec<char>) -> (s: String)
    ensures
        s@ == cs@,
{
    let mut s = String::new();
    let mut i: usize = 0;
    while i < cs.len()
        invariant
            i <= cs.len(),
            s@ == cs@.take(i as int),
        decreases cs.len() - i,
    {
        push_char(&mut s, cs[i]);
        assert(cs@.take(i as int).push(cs@[i as int]) =~= cs@.take(i + 1));
        i += 1;
    }
    assert(cs@.take(cs.len() as int) =~= cs@);
    s
}


/// `p` is a prefix of `s`.
pub open spec fn has_prefix(s: Seq<char>, p: Seq<char>) -> bool {
    p.len() <= s.len() && s.take(p.len() as int) == p
}

/// `p` is a suffix of `s`.
pub open spec fn has_suffix(s: Seq<char>, p: Seq<char>) -> bool {
    p.len() <= s.len() && s.skip(s.len() - p.len()) == p
}

/// `s` with every non-overlapping occurrence of `from`, scanned left to right,
/// replaced by `to` (`str::replace`).
pub open spec fn replaced(s: Seq<char>, from: Seq<char>, to: Seq<char>) -> Seq<char>
    decreases s.len(),
{
    if s.len() == 0 || from.len() == 0 {
        s
    } else if has_prefix(s, from) {
        to + replaced(s.skip(from.len() as int), from, to)
    } else {
        seq![s[0]] + replaced(s.drop_first(), from, to)
    }
}

/// `s` with every `from` character replaced by `to`.
pub open spec fn char_replaced(s: Seq<char>, from: char, to: char) -> Seq<char> {
    s.map_values(|c: char| if c == from { to } else { c })
}

/// White space as `char::is_whitespace` defines it (the Unicode `White_Space` property).
pub open spec fn is_white(c: char) -> bool {
    ||| ('\u{9}' <= c && c <= '\u{d}')
    ||| c == ' '
    ||| c == '\u{85}'
    ||| c == '\u{a0}'
    ||| c == '\u{1680}'
    ||| ('\u{2000}' <= c && c <= '\u{200a}')
    ||| c == '\u{2028}'
    ||| c == '\u{2029}'
    ||| c == '\u{202f}'
    ||| c == '\u{205f}'
    ||| c == '\u{3000}'
}

/// `s` without trailing white space (`str::trim_end`).
pub open spec fn trimmed_end(s: Seq<char>) -> Seq<char>
    decreases s.len(),
{
    if s.len() > 0 && is_white(s.last()) {
        trimmed_end(s.drop_last())
    } else {
        s
    }
}

/// `s` without leading white space (`str::trim_start`).
pub open spec fn trimmed_start(s: Seq<char>) -> Seq<char>
    decreases s.len(),
{
    if s.len() > 0 && is_white(s[0]) {
        trimmed_start(s.drop_first())
    } else {
        s
    }
}

/// `s` without leading and trailing white space (`str::trim`).
pub open spec fn trimmed(s: Seq<char>) -> Seq<char> {
    trimmed_end(trimmed_start(s))
}

/// The decimal digit character for `d < 10`.
pub open spec fn digit_char(d: nat) -> char {
    if d == 0 { '0' } else if d == 1 { '1' } else if d == 2 { '2' } else if d == 3 { '3' }
    else if d == 4 { '4' } else if d == 5 { '5' } else if d == 6 { '6' } else if d == 7 { '7' }
    else if d == 8 { '8' } else { '9' }
}

/// The decimal notation of `n`, without sign or leading zeros.
pub open spec fn decimal(n: nat) -> Seq<char>
    decreases n,
{
    if n < 10 {
        seq![digit_char(n)]
    } else {
        decimal(n / 10) + seq![digit_char(n % 10)]
    }
}

/// `c` is an ASCII decimal digit.
pub open spec fn is_digit(c: char) -> bool {
    '0' <= c && c <= '9'
}

/// Every character of `s` is a decimal digit.
pub open spec fn all_digits(s: Seq<char>) -> bool {
    forall|i: int| 0 <= i < s.len() ==> is_digit(#[trigger] s[i])
}

/// The number that the decimal digits `s` denote.
pub open spec fn digits_value(s: Seq<char>) -> nat
    decreases s.len(),
{
    if s.len() == 0 {
        0
    } else {
        digits_value(s.drop_last()) * 10 + ((s.last() as nat) - ('0' as nat)) as nat
    }
}

/// What `s.parse::<usize>()` gives: an optional `+`, then at least one decimal
/// digit, with the value in range.
pub open spec fn parsed_usize(s: Seq<char>) -> Option<usize> {
    let t = if s.len() > 0 && s[0] == '+' { s.drop_first() } else { s };
    if t.len() > 0 && all_digits(t) && digits_value(t) <= usize::MAX {
        Some(digits_value(t) as usize)
    } else {
        None
    }
}

/// The parts joined with `sep` between consecutive ones (`[T]::join`).
pub open spec fn joined(parts: Seq<Seq<char>>, sep: Seq<char>) -> Seq<char>
    decreases parts.len(),
{
    if parts.len() == 0 {
        Seq::empty()
    } else if parts.len() == 1 {
        parts[0]
    } else {
        joined(parts.drop_last(), sep) + sep + parts.last()
    }
}

/// The views of a list of strings.
pub open spec fn views(v: Seq<String>) -> Seq<Seq<char>> {
    v.map_values(|s: String| s@)
}

/// `s` padded on the left with spaces to at least `width` characters (`{:>width}`).
pub open spec fn padded_left(s: Seq<char>, width: nat) -> Seq<char> {
    if s.len() >= width {
        s
    } else {
        Seq::new((width - s.len()) as nat, |i: int| ' ') + s
    }
}

/// `c` lower-cases to `l` when only ASCII letters have case: `c` is `l`, or `l`
/// is an ASCII lower-case letter and `c` its capital.
pub open spec fn lowers_to(c: char, l: char) -> bool {
    c == l || ('a' <= l && l <= 'z' && (c as u32) + 32 == (l as u32))
}

/// `s` begins with `p` when ASCII letters are compared without case; `p` is
/// written in lower case.
pub open spec fn has_prefix_ignore_ascii_case(s: Seq<char>, p: Seq<char>) -> bool {
    p.len() <= s.len() && forall|i: int| 0 <= i < p.len() ==> lowers_to(#[trigger] s[i], p[i])
}

/// `sub` occurs in `s`.
pub open spec fn contains_seq(s: Seq<char>, sub: Seq<char>) -> bool {
    exists|i: int| 0 <= i <= s.len() - sub.len() && #[trigger] s.subrange(i, i + sub.len()) == sub
}

/// `c` occurs in `s`.
pub open spec fn has_char(s: Seq<char>, c: char) -> bool {
    exists|i: int| 0 <= i < s.len() && s[i] == c
}

/// Whether `s` begins with `p` (`str::starts_with`).
pub fn starts_with(s: &str, p: &str) -> (r: bool)
    ensures
        r == has_prefix(s@, p@),
{
    let x = chars_of(s);
    let y = chars_of(p);
    assert(x@.skip(0) =~= x@);
    seq_starts_with(&x, 0, &y)
}

/// Whether `p` occurs in `x` at position `at`.
pub fn seq_starts_with(x: &Vec<char>, at: usize, p: &Vec<char>) -> (r: bool)
    requires
        at <= x.len(),
    ensures
        r == has_prefix(x@.skip(at as int), p@),
{
    if p.len() > x.len() - at {
        return false;
    }
    let mut i: usize = 0;
    while i < p.len()
        invariant
            at <= x.len(),
            p.len() <= x.len() - at,
            i <= p.len(),
            forall|j: int| 0 <= j < i ==> x@[at + j] == p@[j],
        decreases p.len() - i,
    {
        if x[at + i] != p[i] {
            assert(x@.skip(at as int).take(p.len() as int)[i as int] != p@[i as int]);
            return false;
        }
        i += 1;
    }
    assert(x@.skip(at as int).take(p.len() as int) =~= p@);
    true
}

/// Whether `s` ends with `p` (`str::ends_with`).
pub fn ends_with(s: &str, p: &str) -> (r: bool)
    ensures
        r == has_suffix(s@, p@),
{
    let x = chars_of(s);
    let y = chars_of(p);
    if y.len() > x.len() {
        return false;
    }
    let r = seq_starts_with(&x, x.len() - y.len(), &y);
    assert(x@.skip(x@.len() - y@.len()).take(y@.len() as int) =~= x@.skip(x@.len() - y@.len()));
    r
}

/// `s` without the prefix `p`, if it has it (`str::strip_prefix`).
pub fn strip_prefix(s: &str, p: &str) -> (r: Option<String>)
    ensures
        r is Some <==> has_prefix(s@, p@),
        r matches Some(t) ==> t@ == s@.skip(p@.len() as int),
{
    let x = chars_of(s);
    let y = chars_of(p);
    if seq_starts_with(&x, 0, &y) {
        assert(x@.skip(0) =~= x@);
        Some(string_of(&subvec(&x, y.len(), x.len())))
    } else {
        assert(x@.skip(0) =~= x@);
        None
    }
}

/// `s` without the suffix `p`, if it has it (`str::strip_suffix`).
pub fn strip_suffix(s: &str, p: &str) -> (r: Option<String>)
    ensures
        r is Some <==> has_suffix(s@, p@),
        r matches Some(t) ==> t@ == s@.take(s@.len() - p@.len()),
{
    if ends_with(s, p) {
        let x = chars_of(s);
        let y = chars_of(p);
        Some(string_of(&subvec(&x, 0, x.len() - y.len())))
    } else {
        None
    }
}

/// The characters `x[from..to]`.
pub fn subvec(x: &Vec<char>, from: usize, to: usize) -> (r: Vec<char>)
    requires
        from <= to <= x.len(),
    ensures
        r@ == x@.subrange(from as int, to as int),
{
    let mut r: Vec<char> = Vec::new();
    let mut i = from;
    while i < to
        invariant
            from <= i <= to <= x.len(),
            r@ == x@.subrange(from as int, i as int),
        decreases to - i,
    {
        r.push(x[i]);
        assert(x@.subrange(from as int, i as int).push(x@[i as int]) =~= x@.subrange(from as int, i + 1));
        i += 1;
    }
    r
}

/// The string `a` followed by `b`.
pub fn concat(a: &str, b: &str) -> (r: String)
    ensures
        r@ == a@ + b@,
{
    let mut r = String::from_str(a);
    r.append(b);
    r
}

/// `s` with every occurrence of `from` replaced by `to` (`str::replace`).
pub fn replace_all(s: &str, from: &str, to: &str) -> (r: String)
    ensures
        r@ == replaced(s@, from@, to@),
{
    let x = chars_of(s);
    let f = chars_of(from);
    let t = chars_of(to);
    let mut out: Vec<char> = Vec::new();
    if f.len() == 0 {
        return String::from_str(s);
    }
    let mut i: usize = 0;
    assert(x@.skip(0) =~= x@);
    while i < x.len()
        invariant
            x@ == s@,
            f@ == from@,
            t@ == to@,
            f.len() > 0,
            i <= x.len(),
            out@ + replaced(x@.skip(i as int), f@, t@) == replaced(s@, from@, to@),
        decreases x.len() - i,
    {
        let ghost rest = x@.skip(i as int);
        if seq_starts_with(&x, i, &f) {
            let mut k: usize = 0;
            let ghost out0 = out@;
            while k < t.len()
                invariant
                    k <= t.len(),
                    out@ == out0 + t@.take(k as int),
                decreases t.len() - k,
            {
                out.push(t[k]);
                assert(out0 + t@.take(k as int).push(t@[k as int]) =~= out0 + t@.take(k + 1));
                k += 1;
            }
            assert(t@.take(t.len() as int) =~= t@);
            assert(rest.skip(f@.len() as int) =~= x@.skip(i + f.len()));
            assert(out0 + (t@ + replaced(rest.skip(f@.len() as int), f@, t@))
                =~= out@ + replaced(x@.skip(i + f.len()), f@, t@));
            i = i + f.len();
        } else {
            let ghost out0 = out@;
            out.push(x[i]);
            assert(rest.drop_first() =~= x@.skip(i + 1));
            assert(rest[0] == x@[i as int]);
            assert(out0 + (seq![rest[0]] + replaced(rest.drop_first(), f@, t@))
                =~= out@ + replaced(x@.skip(i + 1), f@, t@));
            i += 1;
        }
    }
    assert(x@.skip(i as int) =~= Seq::<char>::empty());
    assert(out@ + Seq::<char>::empty() =~= out@);
    string_of(&out)
}

/// `s` with every `from` character replaced by `to` (`str::replace` with characters).
pub fn replace_char(s: &str, from: char, to: char) -> (r: String)
    ensures
        r@ == char_replaced(s@, from, to),
{
    let x = chars_of(s);
    let mut out: Vec<char> = Vec::new();
    let mut i: usize = 0;
    while i < x.len()
        invariant
            x@ == s@,
            i <= x.len(),
            out@ == char_replaced(x@.take(i as int), from, to),
        decreases x.len() - i,
    {
        let c = x[i];
        out.push(if c == from { to } else { c });
        assert(char_replaced(x@.take(i + 1), from, to) =~= char_replaced(x@.take(i as int), from, to).push(if c == from { to } else { c }));
        i += 1;
    }
    assert(x@.take(x.len() as int) =~= x@);
    string_of(&out)
}

/// Whether `c` is white space (`char::is_whitespace`).
pub fn char_is_white(c: char) -> (r: bool)
    ensures
        r == is_white(c),
{
    ('\u{9}' <= c && c <= '\u{d}') || c == ' ' || c == '\u{85}' || c == '\u{a0}' || c == '\u{1680}'
        || ('\u{2000}' <= c && c <= '\u{200a}') || c == '\u{2028}' || c == '\u{2029}'
        || c == '\u{202f}' || c == '\u{205f}' || c == '\u{3000}'
}

proof fn lemma_trimmed_end_take(s: Seq<char>, k: int)
    requires
        0 <= k <= s.len(),
        forall|j: int| k <= j < s.len() ==> is_white(#[trigger] s[j]),
    ensures
        trimmed_end(s) == trimmed_end(s.take(k)),
    decreases s.len() - k,
{
    if k < s.len() {
        assert(s.drop_last() =~= s.take(s.len() - 1));
        assert(s.take(s.len() - 1).take(k) =~= s.take(k));
        lemma_trimmed_end_take(s.drop_last(), k);
    } else {
        assert(s.take(k) =~= s);
    }
}

proof fn lemma_trimmed_start_skip(s: Seq<char>, k: int)
    requires
        0 <= k <= s.len(),
        forall|j: int| 0 <= j < k ==> is_white(#[trigger] s[j]),
    ensures
        trimmed_start(s) == trimmed_start(s.skip(k)),
    decreases k,
{
    if k > 0 {
        assert(s.drop_first().skip(k - 1) =~= s.skip(k));
        lemma_trimmed_start_skip(s.drop_first(), k - 1);
    } else {
        assert(s.skip(0) =~= s);
    }
}

/// `s` without trailing white space (`str::trim_end`).
pub fn trim_end(s: &str) -> (r: String)
    ensures
        r@ == trimmed_end(s@),
{
    let x = chars_of(s);
    let mut k = x.len();
    while k > 0 && char_is_white(x[k - 1])
        invariant
            x@ == s@,
            k <= x.len(),
            forall|j: int| k <= j < x.len() ==> is_white(#[trigger] x@[j]),
        decreases k,
    {
        k -= 1;
    }
    proof {
        lemma_trimmed_end_take(x@, k as int);
        assert(x@.take(k as int).take(k as int) =~= x@.take(k as int));
        if k > 0 {
            assert(x@.take(k as int).last() == x@[k - 1]);
        }
        assert(trimmed_end(x@.take(k as int)) == x@.take(k as int));
    }
    string_of(&subvec(&x, 0, k))
}

/// `s` without leading and trailing white space (`str::trim`).
pub fn trim(s: &str) -> (r: String)
    ensures
        r@ == trimmed(s@),
{
    let x = chars_of(s);
    let mut k: usize = 0;
    while k < x.len() && char_is_white(x[k])
        invariant
            x@ == s@,
            k <= x.len(),
            forall|j: int| 0 <= j < k ==> is_white(#[trigger] x@[j]),
        decreases x.len() - k,
    {
        k += 1;
    }
    proof {
        lemma_trimmed_start_skip(x@, k as int);
        if k < x.len() {
            assert(x@.skip(k as int)[0] == x@[k as int]);
        }
        assert(trimmed_start(x@.skip(k as int)) == x@.skip(k as int));
    }
    let rest = string_of(&subvec(&x, k, x.len()));
    assert(rest@ =~= x@.skip(k as int));
    trim_end(rest.as_str())
}

/// The decimal notation of `n` (`u64::to_string`).
pub fn decimal_string(n: u64) -> (r: String)
    ensures
        r@ == decimal(n as nat),
{
    let mut digits: Vec<char> = Vec::new();
    let mut m = n;
    while m >= 10
        invariant
            m <= n,
            decimal(n as nat) == decimal(m as nat) + digits@,
        decreases m,
    {
        let c = digit(m % 10);
        let ghost old_digits = digits@;
        digits.insert(0, c);
        assert(decimal(m as nat) == decimal((m / 10) as nat) + seq![digit_char((m % 10) as nat)]);
        m = m / 10;
        assert(decimal(n as nat) =~= decimal(m as nat) + digits@);
    }
    let c = digit(m);
    let ghost old_digits = digits@;
    digits.insert(0, c);
    assert(decimal(n as nat) =~= digits@);
    string_of(&digits)
}

/// A digit character stands for its digit.
proof fn lemma_digit_char(d: nat)
    requires
        d < 10,
    ensures
        is_digit(digit_char(d)),
        (digit_char(d) as nat) - ('0' as nat) == d,
{
}

/// The decimal notation of a number is a non-empty run of digits that denotes it.
pub proof fn lemma_decimal_digits(n: nat)
    ensures
        decimal(n).len() > 0,
        all_digits(decimal(n)),
        digits_value(decimal(n)) == n,
    decreases n,
{
    lemma_digit_char(n % 10);
    if n < 10 {
        assert(decimal(n).drop_last() =~= Seq::<char>::empty());
        assert(digits_value(Seq::<char>::empty()) == 0);
        assert(digits_value(decimal(n)) == digits_value(decimal(n).drop_last()) * 10
            + ((decimal(n).last() as nat) - ('0' as nat)) as nat);
    } else {
        lemma_decimal_digits(n / 10);
        let d = decimal(n);
        assert(d.drop_last() =~= decimal(n / 10));
        assert(d.last() == digit_char(n % 10));
        assert forall|i: int| 0 <= i < d.len() implies is_digit(#[trigger] d[i]) by {
            if i < d.len() - 1 {
                assert(d[i] == decimal(n / 10)[i]);
            }
        }
        assert(digits_value(d) == digits_value(d.drop_last()) * 10 + ((d.last() as nat) - ('0' as nat)) as nat);
        assert(n == (n / 10) * 10 + n % 10);
    }
}

/// A prefix of a run of digits denotes no more than the whole run.
proof fn lemma_digits_value_prefix(s: Seq<char>, k: int)
    requires
        all_digits(s),
        0 <= k <= s.len(),
    ensures
        digits_value(s.take(k)) <= digits_value(s),
    decreases s.len() - k,
{
    if k == s.len() {
        assert(s.take(k) =~= s);
    } else {
        lemma_digits_value_prefix(s, k + 1);
        assert(s.take(k + 1).drop_last() =~= s.take(k));
        assert(is_digit(s[k]));
    }
}

/// Reads a `usize` as `str::parse::<usize>` does: an optional `+`, then one or
/// more decimal digits whose value fits.
pub fn parse_usize(s: &str) -> (r: Option<usize>)
    ensures
        r == parsed_usize(s@),
{
    let cs = chars_of(s);
    let start: usize = if cs.len() > 0 && cs[0] == '+' { 1 } else { 0 };
    let ghost t = if s@.len() > 0 && s@[0] == '+' { s@.drop_first() } else { s@ };
    assert(t =~= cs@.skip(start as int));
    if start == cs.len() {
        return None;
    }
    let mut value: usize = 0;
    let mut i: usize = start;
    while i < cs.len()
        invariant
            cs@ == s@,
            t == cs@.skip(start as int),
            t == (if s@.len() > 0 && s@[0] == '+' { s@.drop_first() } else { s@ }),
            start <= i <= cs.len(),
            all_digits(t.take(i - start)),
            value == digits_value(t.take(i - start)),
        decreases cs.len() - i,
    {
        let c = cs[i];
        let ghost k = (i - start) as int;
        assert(t[k] == c);
        if !('0' <= c && c <= '9') {
            assert(!is_digit(t[k]));
            assert(!all_digits(t));
            return None;
        }
        let d = (c as u32 - '0' as u32) as usize;
        assert(t.take(k + 1).drop_last() =~= t.take(k));
        assert(t.take(k + 1).last() == c);
        if value > (usize::MAX - d) / 10 {
            proof {
                assert(value * 10 + d > usize::MAX);
                assert(digits_value(t.take(k + 1)) == value * 10 + d);
                if all_digits(t) {
                    lemma_digits_value_prefix(t, k + 1);
                }
            }
            return None;
        }
        value = value * 10 + d;
        i += 1;
        assert forall|j: int| 0 <= j < t.take(i - start).len() implies is_digit(#[trigger] t.take(i - start)[j]) by {
            if j < k {
                assert(t.take(i - start)[j] == t.take(k)[j]);
            }
        }
    }
    assert(t.take(i - start) =~= t);
    Some(value)
}

/// The character of the decimal digit `d`.
fn digit(d: u64) -> (c: char)
    requires
        d < 10,
    ensures
        c == digit_char(d as nat),
{
    if d == 0 { '0' } else if d == 1 { '1' } else if d == 2 { '2' } else if d == 3 { '3' }
    else if d == 4 { '4' } else if d == 5 { '5' } else if d == 6 { '6' } else if d == 7 { '7' }
    else if d == 8 { '8' } else { '9' }
}

/// The decimal notation of `n` right-aligned in a field of `width` characters
/// (`format!("{:>width$}", n)`).
pub fn decimal_padded(n: u64, width: usize) -> (r: String)
    ensures
        r@ == padded_left(decimal(n as nat), width as nat),
{
    let d = decimal_string(n);
    let x = chars_of(d.as_str());
    if x.len() >= width {
        return d;
    }
    let mut out: Vec<char> = Vec::new();
    let pad = width - x.len();
    let mut i: usize = 0;
    while i < pad
        invariant
            i <= pad,
            out@ == Seq::new(i as nat, |j: int| ' '),
        decreases pad - i,
    {
        out.push(' ');
        assert(out@ =~= Seq::new((i + 1) as nat, |j: int| ' '));
        i += 1;
    }
    let mut k: usize = 0;
    let ghost p = out@;
    while k < x.len()
        invariant
            k <= x.len(),
            out@ == p + x@.take(k as int),
        decreases x.len() - k,
    {
        out.push(x[k]);
        assert(p + x@.take(k as int).push(x@[k as int]) =~= p + x@.take(k + 1));
        k += 1;
    }
    assert(x@.take(x.len() as int) =~= x@);
    string_of(&out)
}

/// The parts joined with `sep` between consecutive ones (`[String]::join`).
pub fn join(parts: &Vec<String>, sep: &str) -> (r: String)
    ensures
        r@ == joined(views(parts@), sep@),
{
    let mut r = String::new();
    let mut i: usize = 0;
    while i < parts.len()
        invariant
            i <= parts.len(),
            r@ == joined(views(parts@.take(i as int)), sep@),
        decreases parts.len() - i,
    {
        let ghost before = views(parts@.take(i as int));
        assert(views(parts@.take(i + 1)).drop_last() =~= before);
        assert(views(parts@.take(i + 1)).last() == parts@[i as int]@);
        if i > 0 {
            r.append(sep);
        } else {
            assert(before =~= Seq::<Seq<char>>::empty());
        }
        r.append(parts[i].as_str());
        i += 1;
    }
    assert(parts@.take(parts.len() as int) =~= parts@);
    r
}

/// Whether `s` begins with the lower-case `p` when ASCII case is ignored.
pub fn starts_with_ignore_ascii_case(s: &str, p: &str) -> (r: bool)
    ensures
        r == has_prefix_ignore_ascii_case(s@, p@),
{
    let x = chars_of(s);
    let y = chars_of(p);
    if y.len() > x.len() {
        return false;
    }
    let mut i: usize = 0;
    while i < y.len()
        invariant
            x@ == s@,
            y@ == p@,
            y.len() <= x.len(),
            i <= y.len(),
            forall|j: int| 0 <= j < i ==> lowers_to(#[trigger] x@[j], y@[j]),
        decreases y.len() - i,
    {
        let c = x[i];
        let l = y[i];
        if !(c == l || ('a' <= l && l <= 'z' && (c as u32) as u64 + 32 == (l as u32) as u64)) {
            return false;
        }
        i += 1;
    }
    true
}

/// Whether `sub` occurs in `s` (`str::contains`).
pub fn contains(s: &str, sub: &str) -> (r: bool)
    ensures
        r == contains_seq(s@, sub@),
{
    let x = chars_of(s);
    let y = chars_of(sub);
    if y.len() == 0 {
        assert(s@.subrange(0int, 0int + sub@.len()) =~= sub@);
        return true;
    }
    if y.len() > x.len() {
        return false;
    }
    let mut i: usize = 0;
    while i <= x.len() - y.len()
        invariant
            x@ == s@,
            y@ == sub@,
            1 <= y.len() <= x.len(),
            i <= x.len() - y.len() + 1,
            forall|j: int| 0 <= j < i ==> #[trigger] x@.subrange(j, j + y@.len()) != y@,
        decreases x.len() - y.len() + 1 - i,
    {
        if seq_starts_with(&x, i, &y) {
            assert(x@.skip(i as int).take(y@.len() as int) =~= x@.subrange(i as int, i + y@.len()));
            return true;
        }
        assert(x@.skip(i as int).take(y@.len() as int) =~= x@.subrange(i as int, i + y@.len()));
        i += 1;
    }
    false
}


/// The position of the first `c` in `s`.
pub open spec fn first_index_of(s: Seq<char>, c: char) -> Option<int>
    decreases s.len(),
{
    if s.len() == 0 {
        None
    } else if s[0] == c {
        Some(0)
    } else {
        match first_index_of(s.drop_first(), c) {
            Some(k) => Some(k + 1),
            None => None,
        }
    }
}

/// `s` without one trailing carriage return.
pub open spec fn without_cr(s: Seq<char>) -> Seq<char> {
    if s.len() > 0 && s.last() == '\r' { s.drop_last() } else { s }
}

/// The lines of `s` as `str::lines` gives them: split after each `\n`, with the
/// `\n` (and a `\r` just before it) removed, and no empty line after a final `\n`.
pub open spec fn lines_of(s: Seq<char>) -> Seq<Seq<char>>
    decreases s.len(),
{
    if s.len() == 0 {
        Seq::empty()
    } else {
        match first_index_of(s, '\n') {
            None => seq![s],
            Some(k) => if 0 <= k < s.len() {
                seq![without_cr(s.take(k))] + lines_of(s.skip(k + 1))
            } else {
                Seq::empty()
            },
        }
    }
}

/// The first `c` in `cur + [c] + rest` stands just after `cur` when `cur` holds none.
pub proof fn lemma_first_index_after(cur: Seq<char>, c: char, rest: Seq<char>)
    requires
        !has_char(cur, c),
    ensures
        first_index_of(cur + seq![c] + rest, c) == Some(cur.len() as int),
    decreases cur.len(),
{
    let s = cur + seq![c] + rest;
    if cur.len() > 0 {
        assert(cur[0] != c) by {
            if cur[0] == c {
                assert(has_char(cur, c));
            }
        }
        assert(s.drop_first() =~= cur.drop_first() + seq![c] + rest);
        assert(!has_char(cur.drop_first(), c)) by {
            if has_char(cur.drop_first(), c) {
                let i = choose|i: int| 0 <= i < cur.drop_first().len() && cur.drop_first()[i] == c;
                assert(cur[i + 1] == c);
            }
        }
        lemma_first_index_after(cur.drop_first(), c, rest);
    }
}

/// A sequence without `c` has no first `c`.
pub proof fn lemma_no_index(s: Seq<char>, c: char)
    requires
        !has_char(s, c),
    ensures
        first_index_of(s, c) is None,
    decreases s.len(),
{
    if s.len() > 0 {
        assert(s[0] != c) by {
            if s[0] == c {
                assert(has_char(s, c));
            }
        }
        assert(!has_char(s.drop_first(), c)) by {
            if has_char(s.drop_first(), c) {
                let i = choose|i: int| 0 <= i < s.drop_first().len() && s.drop_first()[i] == c;
                assert(s[i + 1] == c);
            }
        }
        lemma_no_index(s.drop_first(), c);
    }
}

/// The lines of `s` (`str::lines`).
pub fn lines(s: &str) -> (r: Vec<String>)
    ensures
        views(r@) == lines_of(s@),
{
    let x = chars_of(s);
    let mut out: Vec<String> = Vec::new();
    let mut cur: Vec<char> = Vec::new();
    let mut i: usize = 0;
    assert(x@.skip(0) =~= x@);
    assert(cur@ + x@.skip(0) =~= x@);
    while i < x.len()
        invariant
            x@ == s@,
            i <= x.len(),
            !has_char(cur@, '\n'),
            lines_of(s@) == views(out@) + lines_of(cur@ + x@.skip(i as int)),
        decreases x.len() - i,
    {
        let c = x[i];
        let ghost rest = x@.skip(i + 1);
        assert(x@.skip(i as int) =~= seq![c] + rest);
        if c == '\n' {
            proof {
                lemma_first_index_after(cur@, '\n', rest);
                let whole = cur@ + seq!['\n'] + rest;
                assert(cur@ + x@.skip(i as int) =~= whole);
                assert(whole.take(cur@.len() as int) =~= cur@);
                assert(whole.skip(cur@.len() as int + 1) =~= rest);
            }
            let mut line = cur;
            if line.len() > 0 && line[line.len() - 1] == '\r' {
                line.pop();
            }
            let ghost before = out@;
            out.push(string_of(&line));
            assert(views(out@) =~= views(before).push(line@));
            cur = Vec::new();
            assert(cur@ + rest =~= rest);
            assert(lines_of(s@) =~= views(out@) + lines_of(cur@ + x@.skip(i + 1)));
        } else {
            let ghost old_cur = cur@;
            cur.push(c);
            assert(cur@ + rest =~= old_cur + x@.skip(i as int));
            assert(!has_char(cur@, '\n')) by {
                if has_char(cur@, '\n') {
                    let k = choose|k: int| 0 <= k < cur@.len() && cur@[k] == '\n';
                    if k < old_cur.len() {
                        assert(old_cur[k] == '\n');
                    }
                }
            }
        }
        i += 1;
    }
    assert(x@.skip(i as int) =~= Seq::<char>::empty());
    assert(cur@ + x@.skip(i as int) =~= cur@);
    if cur.len() > 0 {
        proof { lemma_no_index(cur@, '\n'); }
        let ghost before = out@;
        out.push(string_of(&cur));
        assert(views(out@) =~= views(before).push(cur@));
        assert(lines_of(s@) =~= views(out@));
    } else {
        assert(lines_of(cur@) =~= Seq::<Seq<char>>::empty());
        assert(lines_of(s@) =~= views(out@));
    }
    out
}

/// Whether two strings hold the same characters.
pub fn str_eq(a: &str, b: &str) -> (r: bool)
    ensures
        r == (a@ == b@),
{
    let x = chars_of(a);
    let y = chars_of(b);
    if x.len() != y.len() {
        return false;
    }
    let mut i: usize = 0;
    while i < x.len()
        invariant
            x@ == a@,
            y@ == b@,
            x.len() == y.len(),
            i <= x.len(),
            forall|j: int| 0 <= j < i ==> x@[j] == y@[j],
        decreases x.len() - i,
    {
        if x[i] != y[i] {
            return false;
        }
        i += 1;
    }
    assert(x@ =~= y@);
    true
}

} // verus!
