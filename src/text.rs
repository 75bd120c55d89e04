//! Primitive scanners over the characters of a log line.
//!
//! A position in a line is an `int`; the value `-1` stands for "this scan
//! failed", and every scanner maps a failed start to a failed end, so a chain
//! of scans fails as a whole as soon as one link fails.
use vstd::prelude::*;

verus! {

/// Unicode `White_Space`: the characters for which `char::is_whitespace` holds.
pub open spec fn is_space(c: char) -> bool {
    let u = c as u32;
    (0x9 <= u && u <= 0xd) || u == 0x20 || u == 0x85 || u == 0xa0 || u == 0x1680
        || (0x2000 <= u && u <= 0x200a) || u == 0x2028 || u == 0x2029 || u == 0x202f
        || u == 0x205f || u == 0x3000
}

pub open spec fn is_digit(c: char) -> bool {
    '0' <= c && c <= '9'
}

pub open spec fn is_hex_digit(c: char) -> bool {
    is_digit(c) || ('a' <= c && c <= 'f') || ('A' <= c && c <= 'F')
}

/// The value of a hexadecimal (or decimal) digit.
pub open spec fn digit_value(c: char) -> nat {
    if is_digit(c) {
        (c as u32 - '0' as u32) as nat
    } else if 'a' <= c && c <= 'f' {
        (c as u32 - 'a' as u32 + 10) as nat
    } else if 'A' <= c && c <= 'F' {
        (c as u32 - 'A' as u32 + 10) as nat
    } else {
        0
    }
}

/// The number written by the digits `t` in the given radix.
pub open spec fn value_in(t: Seq<char>, radix: nat) -> nat
    decreases t.len(),
{
    if t.len() == 0 {
        0
    } else {
        value_in(t.drop_last(), radix) * radix + digit_value(t.last())
    }
}

/// `char::is_whitespace`.
pub fn is_space_char(c: char) -> (r: bool)
    ensures
        r == is_space(c),
{
    let u = c as u32;
    (0x9 <= u && u <= 0xd) || u == 0x20 || u == 0x85 || u == 0xa0 || u == 0x1680
        || (0x2000 <= u && u <= 0x200a) || u == 0x2028 || u == 0x2029 || u == 0x202f
        || u == 0x205f || u == 0x3000
}

/// Holds of every character that is not whitespace.
pub fn not_ws(c: char) -> (r: bool)
    ensures
        r == !is_space(c),
{
    !is_space_char(c)
}

/// Holds of every character that is neither whitespace nor a comma.
pub fn not_ws_comma(c: char) -> (r: bool)
    ensures
        r == !(is_space(c) || c == ','),
{
    !(is_space_char(c) || c == ',')
}

/// The classes of characters that a field of a log line may run over.
#[derive(Clone, Copy, PartialEq, Eq, Structural, Debug)]
pub enum Class {
    Digit,
    HexDigit,
    /// Digits and `.`, the characters of a decimal number.
    DecimalChar,
    Space,
    NotSpace,
    NotSpaceOrComma,
    /// Any character but the one given.
    Except(char),
}

pub open spec fn in_class(k: Class, c: char) -> bool {
    match k {
        Class::Digit => is_digit(c),
        Class::HexDigit => is_hex_digit(c),
        Class::DecimalChar => is_digit(c) || c == '.',
        Class::Space => is_space(c),
        Class::NotSpace => !is_space(c),
        Class::NotSpaceOrComma => !(is_space(c) || c == ','),
        Class::Except(x) => c != x,
    }
}

pub fn class_holds(k: Class, c: char) -> (r: bool)
    ensures
        r == in_class(k, c),
{
    match k {
        Class::Digit => '0' <= c && c <= '9',
        Class::HexDigit => ('0' <= c && c <= '9') || ('a' <= c && c <= 'f') || ('A' <= c
            && c <= 'F'),
        Class::DecimalChar => ('0' <= c && c <= '9') || c == '.',
        Class::Space => is_space_char(c),
        Class::NotSpace => not_ws(c),
        Class::NotSpaceOrComma => not_ws_comma(c),
        Class::Except(x) => c != x,
    }
}

/// The end of the longest run of characters of class `k` that starts at `i`.
pub open spec fn run_end(s: Seq<char>, i: int, k: Class) -> int
    decreases s.len() - i,
{
    if 0 <= i < s.len() && in_class(k, s[i]) {
        run_end(s, i + 1, k)
    } else {
        i
    }
}

/// Scans a (possibly empty) run of class `k` from `i`; fails on a failed start.
pub open spec fn scan(s: Seq<char>, i: int, k: Class) -> int {
    if i < 0 {
        -1
    } else {
        run_end(s, i, k)
    }
}

/// Scans the literal `t` at `i`.
pub open spec fn lit(s: Seq<char>, i: int, t: Seq<char>) -> int {
    if 0 <= i && i + t.len() <= s.len() && s.subrange(i, i + t.len()) == t {
        i + t.len()
    } else {
        -1
    }
}

/// Scans a non-empty run of decimal digits at `i` whose value is at most `max`.
pub open spec fn uint_end(s: Seq<char>, i: int, max: nat) -> int {
    let j = scan(s, i, Class::Digit);
    if i >= 0 && j > i && value_in(s.subrange(i, j), 10) <= max {
        j
    } else {
        -1
    }
}

/// Scans a non-empty run of hexadecimal digits at `i` that fits in a `usize`.
pub open spec fn hex_end(s: Seq<char>, i: int) -> int {
    let j = scan(s, i, Class::HexDigit);
    if i >= 0 && j > i && value_in(s.subrange(i, j), 16) <= usize::MAX {
        j
    } else {
        -1
    }
}

/// The number of `.` in `t`.
pub open spec fn dots(t: Seq<char>) -> nat
    decreases t.len(),
{
    if t.len() == 0 {
        0
    } else {
        dots(t.drop_last()) + if t.last() == '.' {
            1nat
        } else {
            0nat
        }
    }
}

/// A run of digits and dots that reads as a decimal number: at least one
/// digit and at most one dot (`5`, `5.`, `.5`, `30.25`).
pub open spec fn is_decimal_text(t: Seq<char>) -> bool {
    &&& forall|k: int| 0 <= k < t.len() ==> #[trigger] in_class(Class::DecimalChar, t[k])
    &&& dots(t) <= 1
    &&& t.len() > dots(t)
}

/// Scans the longest run of digits and dots at `i`, which must be a decimal number.
pub open spec fn decimal_end(s: Seq<char>, i: int) -> int {
    let j = scan(s, i, Class::DecimalChar);
    if i >= 0 && is_decimal_text(s.subrange(i, j)) {
        j
    } else {
        -1
    }
}

/// The decimal number written by the characters `i..j` of `s`.
pub open spec fn num(s: Seq<char>, i: int, j: int) -> nat {
    value_in(s.subrange(i, j), 10)
}

/// The hexadecimal number written by the characters `i..j` of `s`.
pub open spec fn hex(s: Seq<char>, i: int, j: int) -> nat {
    value_in(s.subrange(i, j), 16)
}

/// A position returned by an executable scanner, `-1` for a failure.
pub open spec fn pos(r: Option<usize>) -> int {
    match r {
        Some(j) => j as int,
        None => -1,
    }
}

/// A run stays inside the line, holds only characters of its class, and
/// stops at the end of the line or at a character outside the class.
pub proof fn lemma_run_end_bounds(s: Seq<char>, i: int, k: Class)
    requires
        0 <= i <= s.len(),
    ensures
        i <= run_end(s, i, k) <= s.len(),
        forall|m: int| i <= m < run_end(s, i, k) ==> in_class(k, #[trigger] s[m]),
        run_end(s, i, k) < s.len() ==> !in_class(k, s[run_end(s, i, k)]),
    decreases s.len() - i,
{
    if i < s.len() && in_class(k, s[i]) {
        lemma_run_end_bounds(s, i + 1, k);
    }
}

/// A stretch of characters of class `k` that ends at the end of the line or
/// before a character outside the class is the run from its start.
pub proof fn lemma_run_end_stops(s: Seq<char>, i: int, j: int, k: Class)
    requires
        0 <= i <= j <= s.len(),
        forall|m: int| i <= m < j ==> in_class(k, #[trigger] s[m]),
        j == s.len() || !in_class(k, s[j]),
    ensures
        run_end(s, i, k) == j,
    decreases j - i,
{
    if i < j {
        lemma_run_end_stops(s, i + 1, j, k);
    }
}

/// The end of a run, counted in the part of the line that starts at `i`.
pub proof fn lemma_run_end_shift(s: Seq<char>, i: int, j: int, k: Class)
    requires
        0 <= i <= j <= s.len(),
    ensures
        run_end(s, j, k) == i + run_end(s.subrange(i, s.len() as int), j - i, k),
    decreases s.len() - j,
{
    let t = s.subrange(i, s.len() as int);
    if j < s.len() {
        assert(t[j - i] == s[j]);
        if in_class(k, s[j]) {
            lemma_run_end_shift(s, i, j + 1, k);
        }
    }
}

proof fn lemma_value_prefix_le(t: Seq<char>, n: int, radix: nat)
    requires
        0 <= n <= t.len(),
        radix >= 1,
    ensures
        value_in(t.subrange(0, n), radix) <= value_in(t, radix),
    decreases t.len(),
{
    if n < t.len() {
        lemma_value_prefix_le(t.drop_last(), n, radix);
        assert(t.drop_last().subrange(0, n) =~= t.subrange(0, n));
        assert(value_in(t.drop_last(), radix) <= value_in(t.drop_last(), radix) * radix
            + digit_value(t.last())) by (nonlinear_arith)
            requires
                radix >= 1,
        ;
    } else {
        assert(t.subrange(0, n) =~= t);
    }
}

proof fn lemma_dots_prefix_le(t: Seq<char>, n: int)
    requires
        0 <= n <= t.len(),
    ensures
        dots(t.subrange(0, n)) <= dots(t),
    decreases t.len(),
{
    if n < t.len() {
        lemma_dots_prefix_le(t.drop_last(), n);
        assert(t.drop_last().subrange(0, n) =~= t.subrange(0, n));
    } else {
        assert(t.subrange(0, n) =~= t);
    }
}

/// Copies the characters of `s` into a vector, in order.
pub fn chars_of(s: &str) -> (r: Vec<char>)
    ensures
        r@ == s@,
{
    broadcast use vstd::string::group_string_axioms;

    let mut out: Vec<char> = Vec::new();
    for c in it: s.chars()
        invariant
            out@ == it.seq().subrange(0, it.index() as int),
    {
        out.push(c);
    }
    out
}

/// The characters `from..to` of `text`, as a new string.
pub fn text_between(text: &str, from: usize, to: usize) -> (r: String)
    requires
        from <= to <= text@.len(),
    ensures
        r@ == text@.subrange(from as int, to as int),
{
    String::from_str(text.substring_char(from, to))
}

/// Scans the run of class `k` that starts at `i`.
pub fn scan_run(s: &Vec<char>, i: usize, k: Class) -> (r: usize)
    requires
        i <= s@.len(),
    ensures
        r as int == run_end(s@, i as int, k),
        i <= r <= s@.len(),
{
    let mut j = i;
    proof {
        lemma_run_end_bounds(s@, i as int, k);
    }
    while j < s.len() && class_holds(k, s[j])
        invariant
            i <= j <= s@.len(),
            run_end(s@, j as int, k) == run_end(s@, i as int, k),
        decreases s@.len() - j,
    {
        j = j + 1;
    }
    j
}

/// Whether the characters `i..j` of `s` are exactly `t`.
pub fn same_text(s: &Vec<char>, i: usize, j: usize, t: &str) -> (r: bool)
    requires
        i <= j <= s@.len(),
    ensures
        r == (s@.subrange(i as int, j as int) == t@),
{
    let n = t.unicode_len();
    if j - i != n {
        return false;
    }
    let mut k: usize = 0;
    while k < n
        invariant
            n == t@.len(),
            j - i == n,
            i <= j <= s@.len(),
            0 <= k <= n,
            forall|m: int| 0 <= m < k ==> s@[i + m] == t@[m],
        decreases n - k,
    {
        if s[i + k] != t.get_char(k) {
            assert(s@.subrange(i as int, j as int)[k as int] != t@[k as int]);
            return false;
        }
        k = k + 1;
    }
    assert(s@.subrange(i as int, j as int) =~= t@);
    true
}

/// Matches the literal `t` at `i`; returns the position after it.
pub fn take_lit(s: &Vec<char>, i: usize, t: &str) -> (r: Option<usize>)
    requires
        i <= s@.len(),
    ensures
        pos(r) == lit(s@, i as int, t@),
        r matches Some(j) ==> i <= j <= s@.len(),
{
    let n = t.unicode_len();
    if n > s.len() - i {
        return None;
    }
    if same_text(s, i, i + n, t) {
        Some(i + n)
    } else {
        None
    }
}

/// The value of the digits `i..j` of `s` in the given radix, or `None` where
/// it exceeds `max`.
fn value_upto(s: &Vec<char>, i: usize, j: usize, radix: usize, max: usize) -> (r: Option<usize>)
    requires
        i <= j <= s@.len(),
        2 <= radix <= 16,
    ensures
        match r {
            Some(v) => v == value_in(s@.subrange(i as int, j as int), radix as nat) && v <= max,
            None => value_in(s@.subrange(i as int, j as int), radix as nat) > max,
        },
{
    let mut acc: usize = 0;
    let mut k = i;
    while k < j
        invariant
            i <= k <= j <= s@.len(),
            2 <= radix <= 16,
            acc == value_in(s@.subrange(i as int, k as int), radix as nat),
            acc <= max,
        decreases j - k,
    {
        let c = s[k];
        let d: usize = if '0' <= c && c <= '9' {
            (c as u32 - '0' as u32) as usize
        } else if 'a' <= c && c <= 'f' {
            (c as u32 - 'a' as u32 + 10) as usize
        } else if 'A' <= c && c <= 'F' {
            (c as u32 - 'A' as u32 + 10) as usize
        } else {
            0
        };
        let ghost next = s@.subrange(i as int, k + 1);
        assert(next.drop_last() =~= s@.subrange(i as int, k as int));
        assert(d == digit_value(c));
        if d > max || acc > (max - d) / radix {
            assert(acc * radix + d > max) by (nonlinear_arith)
                requires
                    d > max || acc > (max - d) / radix as int,
                    radix >= 2,
            ;
            proof {
                lemma_value_prefix_le(
                    s@.subrange(i as int, j as int),
                    k + 1 - i,
                    radix as nat,
                );
                assert(s@.subrange(i as int, j as int).subrange(0, k + 1 - i) =~= next);
            }
            return None;
        }
        assert(acc * radix + d <= max) by (nonlinear_arith)
            requires
                acc <= (max - d) / radix as int,
                radix >= 2,
                d <= max,
        ;
        acc = acc * radix + d;
        k = k + 1;
    }
    Some(acc)
}

/// Reads a non-empty run of decimal digits at `i` whose value is at most
/// `max`; returns the value and the position after the digits.
pub fn take_uint(s: &Vec<char>, i: usize, max: usize) -> (r: Option<(usize, usize)>)
    requires
        i <= s@.len(),
    ensures
        pos(
            match r {
                Some((_, j)) => Some(j),
                None => None,
            },
        ) == uint_end(s@, i as int, max as nat),
        r matches Some((v, j)) ==> v == value_in(s@.subrange(i as int, j as int), 10) && v
            <= max && i < j <= s@.len(),
{
    let j = scan_run(s, i, Class::Digit);
    if j == i {
        return None;
    }
    match value_upto(s, i, j, 10, max) {
        Some(v) => Some((v, j)),
        None => None,
    }
}

/// Reads a non-empty run of hexadecimal digits at `i` that fits in a `usize`;
/// returns the value and the position after the digits.
pub fn take_hex(s: &Vec<char>, i: usize) -> (r: Option<(usize, usize)>)
    requires
        i <= s@.len(),
    ensures
        pos(
            match r {
                Some((_, j)) => Some(j),
                None => None,
            },
        ) == hex_end(s@, i as int),
        r matches Some((v, j)) ==> v == value_in(s@.subrange(i as int, j as int), 16) && i < j
            <= s@.len(),
{
    let j = scan_run(s, i, Class::HexDigit);
    if j == i {
        return None;
    }
    match value_upto(s, i, j, 16, usize::MAX) {
        Some(v) => Some((v, j)),
        None => None,
    }
}

/// Reads the longest run of digits and dots at `i`, which must be a decimal
/// number; returns the position after it.
pub fn take_decimal(s: &Vec<char>, i: usize) -> (r: Option<usize>)
    requires
        i <= s@.len(),
    ensures
        pos(r) == decimal_end(s@, i as int),
        r matches Some(j) ==> i <= j <= s@.len(),
{
    let j = scan_run(s, i, Class::DecimalChar);
    proof {
        lemma_run_end_bounds(s@, i as int, Class::DecimalChar);
    }
    let ghost t = s@.subrange(i as int, j as int);
    let mut n_dots: usize = 0;
    let mut k = i;
    while k < j
        invariant
            i <= k <= j <= s@.len(),
            t == s@.subrange(i as int, j as int),
            j as int == run_end(s@, i as int, Class::DecimalChar),
            n_dots == dots(s@.subrange(i as int, k as int)),
            n_dots <= k - i,
            n_dots <= 1,
        decreases j - k,
    {
        assert(s@.subrange(i as int, k + 1).drop_last() =~= s@.subrange(i as int, k as int));
        assert(s@.subrange(i as int, k + 1).last() == s@[k as int]);
        if s[k] == '.' {
            if n_dots == 1 {
                proof {
                    lemma_dots_prefix_le(t, k + 1 - i);
                    assert(t.subrange(0, k + 1 - i) =~= s@.subrange(i as int, k + 1));
                    assert(dots(s@.subrange(i as int, k + 1)) == 2);
                    assert(dots(t) >= 2);
                    assert(!is_decimal_text(t));
                    assert(scan(s@, i as int, Class::DecimalChar) == j);
                }
                return None;
            }
            n_dots = n_dots + 1;
        }
        k = k + 1;
    }
    assert(s@.subrange(i as int, k as int) == t);
    assert forall|m: int| 0 <= m < t.len() implies #[trigger] in_class(Class::DecimalChar, t[m]) by {
        assert(t[m] == s@[i + m]);
    }
    if j - i > n_dots {
        Some(j)
    } else {
        None
    }
}

/// Reads a whole string as a hexadecimal number that fits in a `usize`, with
/// an optional leading `+`, as `usize::from_str_radix(input, 16)` does.
pub fn from_hex(input: &str) -> (r: Option<usize>)
    ensures
        r == hex_number(input@),
{
    let s = chars_of(input);
    let start: usize = if s.len() > 0 && s[0] == '+' {
        1
    } else {
        0
    };
    let j = scan_run(&s, start, Class::HexDigit);
    proof {
        lemma_run_end_bounds(s@, start as int, Class::HexDigit);
    }
    let ghost d = s@.subrange(start as int, s@.len() as int);
    assert(d =~= unsigned_digits(s@));
    if j == start || j != s.len() {
        proof {
            if j != s.len() {
                assert(!is_hex_digit(s@[j as int]));
                assert(d[j - start] == s@[j as int]);
                assert(!is_hex_digit(d[j - start]));
                assert(!(forall|k: int| 0 <= k < d.len() ==> is_hex_digit(#[trigger] d[k])));
            } else {
                assert(d.len() == 0);
            }
            assert(hex_number(s@) is None);
        }
        return None;
    }
    assert forall|k: int| 0 <= k < d.len() implies is_hex_digit(#[trigger] d[k]) by {
        assert(d[k] == s@[start + k]);
    }
    value_upto(&s, start, j, 16, usize::MAX)
}

/// The digits of a number written with an optional leading `+`.
pub open spec fn unsigned_digits(t: Seq<char>) -> Seq<char> {
    if t.len() > 0 && t[0] == '+' {
        t.subrange(1, t.len() as int)
    } else {
        t
    }
}

/// What `from_hex` reads from a whole string.
pub open spec fn hex_number(t: Seq<char>) -> Option<usize> {
    let d = unsigned_digits(t);
    if d.len() > 0 && (forall|k: int| 0 <= k < d.len() ==> is_hex_digit(#[trigger] d[k]))
        && value_in(d, 16) <= usize::MAX {
        Some(value_in(d, 16) as usize)
    } else {
        None
    }
}

} // verus!
