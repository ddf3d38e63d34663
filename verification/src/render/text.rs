//! Character-level reading: scanning, line splitting, whitespace tokens and
//! decimal integers, each with a mathematical definition over `Seq<char>`.

use vstd::prelude::*;

verus! {

/// Unicode `White_Space`: the characters that separate tokens.
pub open spec fn is_whitespace(c: char) -> bool {
    let u = c as u32;
    ||| 0x09 <= u <= 0x0D
    ||| u == 0x20
    ||| u == 0x85
    ||| u == 0xA0
    ||| u == 0x1680
    ||| 0x2000 <= u <= 0x200A
    ||| u == 0x2028
    ||| u == 0x2029
    ||| u == 0x202F
    ||| u == 0x205F
    ||| u == 0x3000
}

pub open spec fn is_digit(c: char) -> bool {
    0x30 <= c as u32 <= 0x39
}

pub fn char_is_digit(c: char) -> (b: bool)
    ensures
        b == is_digit(c),
{
    let u: u32 = c as u32;
    0x30 <= u && u <= 0x39
}

pub fn char_is_whitespace(c: char) -> (b: bool)
    ensures
        b == is_whitespace(c),
{
    let u: u32 = c as u32;
    (0x09 <= u && u <= 0x0D) || u == 0x20 || u == 0x85 || u == 0xA0 || u == 0x1680 || (0x2000 <= u
        && u <= 0x200A) || u == 0x2028 || u == 0x2029 || u == 0x202F || u == 0x205F || u == 0x3000
}

/// What ends a scan.
#[derive(Clone, Copy)]
pub enum Stop {
    /// Any whitespace character.
    Whitespace,
    /// Any character that is not whitespace.
    Visible,
    /// Any character that is no decimal digit.
    NotDigit,
    /// This character.
    At(char),
}

impl Stop {
    pub open spec fn hits(self, c: char) -> bool {
        match self {
            Stop::Whitespace => is_whitespace(c),
            Stop::Visible => !is_whitespace(c),
            Stop::NotDigit => !is_digit(c),
            Stop::At(d) => c == d,
        }
    }

    pub fn test(&self, c: char) -> (b: bool)
        ensures
            b == self.hits(c),
    {
        match self {
            Stop::Whitespace => char_is_whitespace(c),
            Stop::Visible => !char_is_whitespace(c),
            Stop::NotDigit => !char_is_digit(c),
            Stop::At(d) => c == *d,
        }
    }
}

/// The first position at or after `from` whose character `stop` hits; where
/// there is none, the end of `s` (or `from` itself when it lies outside `s`).
pub open spec fn scan(s: Seq<char>, from: int, stop: Stop) -> int
    decreases s.len() - from,
{
    if 0 <= from < s.len() && !stop.hits(s[from]) {
        scan(s, from + 1, stop)
    } else {
        from
    }
}

/// `scan` stays inside `s`, passes over no hit, and ends on a hit or at the end.
pub proof fn lemma_scan(s: Seq<char>, from: int, stop: Stop)
    requires
        0 <= from <= s.len(),
    ensures
        from <= scan(s, from, stop) <= s.len(),
        forall|i: int| from <= i < scan(s, from, stop) ==> !stop.hits(#[trigger] s[i]),
        scan(s, from, stop) < s.len() ==> stop.hits(s[scan(s, from, stop)]),
    decreases s.len() - from,
{
    if from < s.len() && !stop.hits(s[from]) {
        lemma_scan(s, from + 1, stop);
    }
}

pub fn scan_to(s: &Vec<char>, from: usize, stop: Stop) -> (end: usize)
    requires
        from <= s.len(),
    ensures
        end == scan(s@, from as int, stop),
        from <= end <= s.len(),
{
    let mut i: usize = from;
    while i < s.len() && !stop.test(s[i])
        invariant
            from <= i <= s.len(),
            scan(s@, from as int, stop) == scan(s@, i as int, stop),
        decreases s.len() - i,
    {
        i += 1;
    }
    i
}

/// The characters of `s`, in order.
pub fn chars_of(s: &str) -> (v: Vec<char>)
    ensures
        v@ == s@,
{
    let mut v: Vec<char> = Vec::new();
    for c in it: s.chars()
        invariant
            v@ == it.seq().take(it.index()),
    {
        v.push(c);
    }
    v
}

/// A copy of `s[from..to]`.
pub fn copy_range(s: &Vec<char>, from: usize, to: usize) -> (part: Vec<char>)
    requires
        from <= to <= s.len(),
    ensures
        part@ == s@.subrange(from as int, to as int),
{
    let mut part: Vec<char> = Vec::new();
    let mut i: usize = from;
    while i < to
        invariant
            from <= i <= to <= s.len(),
            part@ == s@.subrange(from as int, i as int),
        decreases to - i,
    {
        part.push(s[i]);
        i += 1;
    }
    part
}

/// The contents of a list of character vectors.
pub open spec fn views(parts: Seq<Vec<char>>) -> Seq<Seq<char>> {
    parts.map_values(|p: Vec<char>| p@)
}

/// The lines of `s` from position `from` on: the stretches between line
/// feeds. A line feed at the very end opens no further line.
pub open spec fn lines_from(s: Seq<char>, from: int) -> Seq<Seq<char>>
    decreases s.len() + 1 - from,
{
    if 0 <= from < s.len() {
        let end = scan(s, from, Stop::At('\n'));
        proof {
            lemma_scan(s, from, Stop::At('\n'));
        }
        seq![s.subrange(from, end)] + lines_from(s, end + 1)
    } else {
        Seq::empty()
    }
}

pub open spec fn lines(s: Seq<char>) -> Seq<Seq<char>> {
    lines_from(s, 0)
}

pub fn split_lines(s: &Vec<char>) -> (out: Vec<Vec<char>>)
    ensures
        views(out@) == lines(s@),
{
    let mut out: Vec<Vec<char>> = Vec::new();
    let mut pos: usize = 0;
    while pos < s.len()
        invariant
            pos <= s.len(),
            views(out@) + lines_from(s@, pos as int) == lines(s@),
        decreases s.len() - pos,
    {
        let end = scan_to(s, pos, Stop::At('\n'));
        let line = copy_range(s, pos, end);
        proof {
            let rest = lines_from(s@, end + 1);
            assert(lines_from(s@, pos as int) == seq![line@] + rest);
            assert(views(out@.push(line)) =~= views(out@).push(line@));
            assert(views(out@).push(line@) + rest =~= views(out@) + (seq![line@] + rest));
        }
        out.push(line);
        pos = if end < s.len() {
            end + 1
        } else {
            end
        };
    }
    proof {
        assert(views(out@) + Seq::<Seq<char>>::empty() =~= views(out@));
    }
    out
}

/// The whitespace-separated tokens of `s` from position `from` on: each is a
/// longest stretch of visible characters.
pub open spec fn tokens_from(s: Seq<char>, from: int) -> Seq<Seq<char>>
    decreases s.len() - from,
{
    let start = scan(s, from, Stop::Visible);
    if 0 <= from <= start < s.len() {
        let end = scan(s, start, Stop::Whitespace);
        proof {
            lemma_scan(s, from, Stop::Visible);
            lemma_scan(s, start, Stop::Whitespace);
        }
        seq![s.subrange(start, end)] + tokens_from(s, end)
    } else {
        Seq::empty()
    }
}

pub open spec fn tokens(s: Seq<char>) -> Seq<Seq<char>> {
    tokens_from(s, 0)
}

/// Every token is non-empty and holds no whitespace.
pub proof fn lemma_tokens_visible(s: Seq<char>, from: int)
    requires
        0 <= from <= s.len(),
    ensures
        forall|k: int|
            0 <= k < tokens_from(s, from).len() ==> {
                let t = #[trigger] tokens_from(s, from)[k];
                &&& t.len() > 0
                &&& forall|i: int| 0 <= i < t.len() ==> !is_whitespace(#[trigger] t[i])
            },
    decreases s.len() - from,
{
    let start = scan(s, from, Stop::Visible);
    lemma_scan(s, from, Stop::Visible);
    if start < s.len() {
        let end = scan(s, start, Stop::Whitespace);
        lemma_scan(s, start, Stop::Whitespace);
        lemma_tokens_visible(s, end);
        let first = s.subrange(start, end);
        assert forall|i: int| 0 <= i < first.len() implies !is_whitespace(#[trigger] first[i]) by {
            assert(!Stop::Whitespace.hits(s[start + i]));
        }
        assert forall|k: int| 0 <= k < tokens_from(s, from).len() implies {
            let t = #[trigger] tokens_from(s, from)[k];
            &&& t.len() > 0
            &&& forall|i: int| 0 <= i < t.len() ==> !is_whitespace(#[trigger] t[i])
        } by {
            if k > 0 {
                assert(tokens_from(s, from)[k] == tokens_from(s, end)[k - 1]);
            }
        }
    }
}

pub fn tokenize(s: &Vec<char>) -> (out: Vec<Vec<char>>)
    ensures
        views(out@) == tokens(s@),
{
    let mut out: Vec<Vec<char>> = Vec::new();
    let mut pos: usize = 0;
    loop
        invariant_except_break
            pos <= s.len(),
            views(out@) + tokens_from(s@, pos as int) == tokens(s@),
        ensures
            views(out@) == tokens(s@),
        decreases s.len() - pos,
    {
        let start = scan_to(s, pos, Stop::Visible);
        if start >= s.len() {
            proof {
                assert(views(out@) + Seq::<Seq<char>>::empty() =~= views(out@));
            }
            break ;
        }
        let end = scan_to(s, start, Stop::Whitespace);
        let token = copy_range(s, start, end);
        proof {
            lemma_scan(s@, start as int, Stop::Whitespace);
            let rest = tokens_from(s@, end as int);
            assert(tokens_from(s@, pos as int) == seq![token@] + rest);
            assert(views(out@.push(token)) =~= views(out@).push(token@));
            assert(views(out@).push(token@) + rest =~= views(out@) + (seq![token@] + rest));
        }
        out.push(token);
        pos = end;
    }
    out
}

pub open spec fn all_digits(s: Seq<char>) -> bool {
    forall|i: int| 0 <= i < s.len() ==> is_digit(#[trigger] s[i])
}

/// The number that the decimal digits `s` write.
pub open spec fn decimal(s: Seq<char>) -> int
    decreases s.len(),
{
    if s.len() == 0 {
        0
    } else {
        10 * decimal(s.drop_last()) + (s.last() as u32 - 0x30)
    }
}

/// `s` without its sign, if it starts with `+` or `-`.
pub open spec fn unsigned(s: Seq<char>) -> Seq<char> {
    if s.len() > 0 && (s[0] == '-' || s[0] == '+') {
        s.subrange(1, s.len() as int)
    } else {
        s
    }
}

/// The integer that `s` writes: an optional `+` or `-`, then one or more
/// decimal digits and nothing else.
pub open spec fn signed_decimal(s: Seq<char>) -> Option<int> {
    let digits = unsigned(s);
    if digits.len() == 0 || !all_digits(digits) {
        None
    } else if s[0] == '-' {
        Some(-decimal(digits))
    } else {
        Some(decimal(digits))
    }
}

/// `signed_decimal`, where the value fits in 32 bits.
pub open spec fn parse_i32(s: Seq<char>) -> Option<i32> {
    match signed_decimal(s) {
        Some(v) => if i32::MIN <= v <= i32::MAX {
            Some(v as i32)
        } else {
            None
        },
        None => None,
    }
}

proof fn lemma_decimal_nonneg(s: Seq<char>)
    requires
        all_digits(s),
    ensures
        decimal(s) >= 0,
    decreases s.len(),
{
    if s.len() > 0 {
        assert(is_digit(s[s.len() - 1]));
        lemma_decimal_nonneg(s.drop_last());
    }
}

pub fn read_i32(s: &Vec<char>) -> (r: Option<i32>)
    ensures
        r == parse_i32(s@),
{
    let n = s.len();
    if n == 0 {
        return None;
    }
    let negative = s[0] == '-';
    let start: usize = if s[0] == '-' || s[0] == '+' {
        1
    } else {
        0
    };
    if start == n {
        return None;
    }
    let ghost digits = s@.subrange(start as int, n as int);
    proof {
        assert(start == 0 ==> digits =~= s@);
    }
    // `acc` follows the value of the digits read, held at `cap` once it passes it.
    let cap: i64 = 0x1_0000_0000;
    let mut acc: i64 = 0;
    let mut i: usize = start;
    while i < n
        invariant
            start <= i <= n == s.len(),
            cap == 0x1_0000_0000,
            digits == s@.subrange(start as int, n as int),
            start == 0 ==> digits == s@,
            start == 1 <==> s@[0] == '-' || s@[0] == '+',
            all_digits(digits.take(i - start)),
            0 <= acc <= cap,
            decimal(digits.take(i - start)) >= cap ==> acc == cap,
            decimal(digits.take(i - start)) < cap ==> acc == decimal(digits.take(i - start)),
        decreases n - i,
    {
        let c = s[i];
        let u: u32 = c as u32;
        if u < 0x30 || u > 0x39 {
            proof {
                assert(!is_digit(digits[i - start]));
            }
            return None;
        }
        proof {
            let before = digits.take(i - start);
            let after = digits.take(i - start + 1);
            assert(after.drop_last() =~= before);
            assert(after.last() == c);
            lemma_decimal_nonneg(before);
            assert(decimal(after) == 10 * decimal(before) + (u - 0x30));
        }
        acc = if acc >= cap {
            cap
        } else {
            let next = acc * 10 + (u - 0x30) as i64;
            if next >= cap {
                cap
            } else {
                next
            }
        };
        i += 1;
    }
    proof {
        assert(digits.take(n - start) =~= digits);
    }
    if negative {
        if acc <= 0x8000_0000 {
            Some((-acc) as i32)
        } else {
            None
        }
    } else {
        if acc <= 0x7fff_ffff {
            Some(acc as i32)
        } else {
            None
        }
    }
}

/// Whether `c` is the lower-case ASCII letter `letter` or its upper case.
pub open spec fn is_letter(c: char, letter: char) -> bool {
    c == letter || c as u32 + 0x20 == letter as u32
}

fn char_is_letter(c: char, letter: char) -> (b: bool)
    ensures
        b == is_letter(c, letter),
{
    c == letter || c as u32 + 0x20 == letter as u32
}

/// Whether `s` spells the lower-case word `word`, in either case of each letter.
pub open spec fn spells(s: Seq<char>, word: Seq<char>) -> bool {
    &&& s.len() == word.len()
    &&& forall|i: int| 0 <= i < s.len() ==> is_letter(#[trigger] s[i], word[i])
}

fn spells_word(s: &Vec<char>, word: &Vec<char>) -> (b: bool)
    ensures
        b == spells(s@, word@),
{
    if s.len() != word.len() {
        return false;
    }
    let mut i: usize = 0;
    while i < s.len()
        invariant
            0 <= i <= s.len() == word.len(),
            forall|j: int| 0 <= j < i ==> is_letter(#[trigger] s[j], word[j]),
        decreases s.len() - i,
    {
        if !char_is_letter(s[i], word[i]) {
            return false;
        }
        i += 1;
    }
    true
}

/// An exponent: `e` or `E`, an optional sign, then one or more digits.
pub open spec fn is_exponent(s: Seq<char>) -> bool {
    &&& s.len() >= 1
    &&& is_letter(s[0], 'e')
    &&& unsigned(s.subrange(1, s.len() as int)).len() > 0
    &&& all_digits(unsigned(s.subrange(1, s.len() as int)))
}

/// A decimal number: digits with at most one `.` among them, before it,
/// after it or both, and at least one digit in all; then an optional exponent.
pub open spec fn is_number(s: Seq<char>) -> bool {
    let whole_end = scan(s, 0, Stop::NotDigit);
    let fraction_start = if whole_end < s.len() && s[whole_end] == '.' {
        whole_end + 1
    } else {
        whole_end
    };
    let fraction_end = scan(s, fraction_start, Stop::NotDigit);
    &&& whole_end + (fraction_end - fraction_start) > 0
    &&& (fraction_end == s.len() || is_exponent(s.subrange(fraction_end, s.len() as int)))
}

/// The literals that Rust reads as a floating-point number: an optional
/// sign, then `inf`, `infinity` or `nan` in any case, or a decimal number.
pub open spec fn is_float_literal(s: Seq<char>) -> bool {
    let body = unsigned(s);
    ||| spells(body, seq!['i', 'n', 'f'])
    ||| spells(body, seq!['i', 'n', 'f', 'i', 'n', 'i', 't', 'y'])
    ||| spells(body, seq!['n', 'a', 'n'])
    ||| is_number(body)
}

/// `s` from `from` on, after a sign if one stands at `from`.
fn skip_sign(s: &Vec<char>, from: usize) -> (rest: Vec<char>)
    requires
        from <= s.len(),
    ensures
        rest@ == unsigned(s@.subrange(from as int, s.len() as int)),
{
    let ghost tail = s@.subrange(from as int, s.len() as int);
    if from < s.len() && (s[from] == '-' || s[from] == '+') {
        assert(tail[0] == s[from as int]);
        assert(tail.subrange(1, tail.len() as int) =~= s@.subrange(from + 1, s.len() as int));
        copy_range(s, from + 1, s.len())
    } else {
        assert(from < s.len() ==> tail[0] == s[from as int]);
        copy_range(s, from, s.len())
    }
}

fn only_digits(s: &Vec<char>) -> (b: bool)
    ensures
        b == all_digits(s@),
{
    let end = scan_to(s, 0, Stop::NotDigit);
    proof {
        lemma_scan(s@, 0, Stop::NotDigit);
        if end < s.len() {
            assert(!is_digit(s@[end as int]));
        } else {
            assert forall|i: int| 0 <= i < s.len() implies is_digit(#[trigger] s@[i]) by {
                assert(!Stop::NotDigit.hits(s@[i]));
            }
        }
    }
    end == s.len()
}

fn check_exponent(s: &Vec<char>) -> (b: bool)
    ensures
        b == is_exponent(s@),
{
    if s.len() == 0 || !char_is_letter(s[0], 'e') {
        return false;
    }
    let digits = skip_sign(s, 1);
    digits.len() > 0 && only_digits(&digits)
}

fn check_number(s: &Vec<char>) -> (b: bool)
    ensures
        b == is_number(s@),
{
    let whole_end = scan_to(s, 0, Stop::NotDigit);
    let fraction_start = if whole_end < s.len() && s[whole_end] == '.' {
        whole_end + 1
    } else {
        whole_end
    };
    let fraction_end = scan_to(s, fraction_start, Stop::NotDigit);
    if whole_end + (fraction_end - fraction_start) == 0 {
        return false;
    }
    if fraction_end == s.len() {
        return true;
    }
    let tail = copy_range(s, fraction_end, s.len());
    check_exponent(&tail)
}

pub fn check_float_literal(s: &Vec<char>) -> (b: bool)
    ensures
        b == is_float_literal(s@),
{
    let body = skip_sign(s, 0);
    proof {
        assert(s@.subrange(0, s.len() as int) =~= s@);
    }
    let inf = vec!['i', 'n', 'f'];
    let infinity = vec!['i', 'n', 'f', 'i', 'n', 'i', 't', 'y'];
    let nan = vec!['n', 'a', 'n'];
    spells_word(&body, &inf) || spells_word(&body, &infinity) || spells_word(&body, &nan)
        || check_number(&body)
}

} // verus!
