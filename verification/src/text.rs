//! Character-level helpers shared by the assembler and the diagnostics:
//! white space, tokens, unsigned numbers and number formatting.
//!
//! Every specification here is a function on `Seq<char>`; the executable
//! code works on `Vec<char>` ranges and on `String`s.

use crate::word::signed;
use vstd::prelude::*;

verus! {

// ----------------------------------------------------------------------
// Conversions between strings and character vectors
// ----------------------------------------------------------------------

/// Appends one character to a string.
///
/// Trusted: this is `String::push`, which puts the given character at the
/// end of the string and leaves what was there untouched.
#[verifier::external_body]
fn push_char(s: &mut String, c: char)
    ensures
        final(s)@ == old(s)@.push(c),
{
    s.push(c)
}

/// The characters of `s`, in order.
pub fn chars_of(s: &str) -> (v: Vec<char>)
    ensures
        v@ == s@,
{
    let mut v: Vec<char> = Vec::new();
    for c in it: s.chars()
        invariant
            it.seq() == s@,
            v@ == it.seq().take(it.index()),
    {
        v.push(c);
    }
    v
}

/// The string made of `chars[from..to]`.
pub fn string_of(chars: &Vec<char>, from: usize, to: usize) -> (s: String)
    requires
        from <= to <= chars.len(),
    ensures
        s@ == chars@.subrange(from as int, to as int),
{
    let mut s = String::new();
    let mut i = from;
    while i < to
        invariant
            from <= i <= to <= chars.len(),
            s@ == chars@.subrange(from as int, i as int),
        decreases to - i,
    {
        push_char(&mut s, chars[i]);
        i += 1;
    }
    s
}

/// Whether two strings hold the same characters.
pub fn same_text(a: &str, b: &str) -> (r: bool)
    ensures
        r == (a@ == b@),
{
    let x = chars_of(a);
    let y = chars_of(b);
    if x.len() != y.len() {
        return false;
    }
    let mut i: usize = 0;
    while i < x.len()
        invariant
            x@ == a@,
            y@ == b@,
            x.len() == y.len(),
            i <= x.len(),
            x@.take(i as int) == y@.take(i as int),
        decreases x.len() - i,
    {
        if x[i] != y[i] {
            return false;
        }
        i += 1;
    }
    assert(x@ == x@.take(x.len() as int));
    assert(y@ == y@.take(y.len() as int));
    true
}

// ----------------------------------------------------------------------
// Upper case
// ----------------------------------------------------------------------

/// The upper-case form of a text under the Unicode case mapping, which may
/// be longer than the text itself.
pub uninterp spec fn uppercase_of(s: Seq<char>) -> Seq<char>;

/// The upper-case form of `s`.
///
/// Trusted: this is `str::to_uppercase`. The mapping is the Unicode one,
/// fixed by the character tables and independent of any locale, so its
/// result is named rather than spelled out.
#[verifier::external_body]
pub(crate) fn to_uppercase(s: &str) -> (r: String)
    ensures
        r@ == uppercase_of(s@),
{
    s.to_uppercase()
}

// ----------------------------------------------------------------------
// White space and runs of characters
// ----------------------------------------------------------------------

/// Whether `c` has the Unicode property `White_Space`.
pub open spec fn is_white_space(c: char) -> bool {
    let u = c as u32;
    ||| 0x09 <= u <= 0x0D
    ||| u == 0x20
    ||| u == 0x85
    ||| u == 0xA0
    ||| u == 0x1680
    ||| 0x2000 <= u <= 0x200A
    ||| u == 0x2028
    ||| u == 0x2029
    ||| u == 0x202F
    ||| u == 0x205F
    ||| u == 0x3000
}

/// Whether `c` is white space.
pub fn is_whitespace(c: char) -> (r: bool)
    ensures
        r == is_white_space(c),
{
    let u: u32 = c as u32;
    (0x09 <= u && u <= 0x0D) || u == 0x20 || u == 0x85 || u == 0xA0 || u == 0x1680 || (0x2000 <= u
        && u <= 0x200A) || u == 0x2028 || u == 0x2029 || u == 0x202F || u == 0x205F || u == 0x3000
}

/// Length of the longest prefix of `s` all of whose characters satisfy `p`.
pub open spec fn run_len(s: Seq<char>, p: spec_fn(char) -> bool) -> nat
    decreases s.len(),
{
    if s.len() > 0 && p(s[0]) {
        1 + run_len(s.skip(1), p)
    } else {
        0
    }
}

/// Length of the longest suffix of `s` all of whose characters satisfy `p`.
pub open spec fn run_len_back(s: Seq<char>, p: spec_fn(char) -> bool) -> nat
    decreases s.len(),
{
    if s.len() > 0 && p(s.last()) {
        1 + run_len_back(s.drop_last(), p)
    } else {
        0
    }
}

/// The prefix run ends where the predicate first fails: a place up to which
/// every character satisfies it, and whose own character does not, is the
/// length of the run.
pub proof fn lemma_run_len(s: Seq<char>, p: spec_fn(char) -> bool, n: int)
    requires
        0 <= n <= s.len(),
        forall|i: int| 0 <= i < n ==> p(#[trigger] s[i]),
        n < s.len() ==> !p(s[n]),
    ensures
        run_len(s, p) == n,
    decreases n,
{
    if n > 0 {
        lemma_run_len(s.skip(1), p, n - 1);
    }
}

/// The suffix run begins behind the last place where the predicate fails.
pub proof fn lemma_run_len_back(s: Seq<char>, p: spec_fn(char) -> bool, n: int)
    requires
        0 <= n <= s.len(),
        forall|i: int| s.len() - n <= i < s.len() ==> p(#[trigger] s[i]),
        n < s.len() ==> !p(s[s.len() - n - 1]),
    ensures
        run_len_back(s, p) == n,
    decreases n,
{
    if n > 0 {
        lemma_run_len_back(s.drop_last(), p, n - 1);
    }
}

/// The prefix run lies inside the text, every character of it satisfies the
/// predicate, and the character behind it, if there is one, does not.
pub proof fn lemma_run_len_bound(s: Seq<char>, p: spec_fn(char) -> bool)
    ensures
        run_len(s, p) <= s.len(),
        run_len(s, p) < s.len() ==> !p(s[run_len(s, p) as int]),
        forall|i: int| 0 <= i < run_len(s, p) ==> p(#[trigger] s[i]),
    decreases s.len(),
{
    if s.len() > 0 && p(s[0]) {
        let t = s.skip(1);
        lemma_run_len_bound(t, p);
        assert forall|i: int| 0 <= i < run_len(s, p) implies p(#[trigger] s[i]) by {
            if i > 0 {
                assert(s[i] == t[i - 1]);
            }
        }
    }
}

/// The suffix run lies inside the text, and every character of it
/// satisfies the predicate.
pub proof fn lemma_run_len_back_bound(s: Seq<char>, p: spec_fn(char) -> bool)
    ensures
        run_len_back(s, p) <= s.len(),
        forall|i: int| s.len() - run_len_back(s, p) <= i < s.len() ==> p(#[trigger] s[i]),
    decreases s.len(),
{
    if s.len() > 0 && p(s.last()) {
        let t = s.drop_last();
        lemma_run_len_back_bound(t, p);
        assert forall|i: int| s.len() - run_len_back(s, p) <= i < s.len() implies p(
            #[trigger] s[i],
        ) by {
            if i < s.len() - 1 {
                assert(s[i] == t[i]);
            }
        }
    }
}

/// The predicate "is white space".
pub open spec fn space() -> spec_fn(char) -> bool {
    |c: char| is_white_space(c)
}

/// The predicate "is not white space".
pub open spec fn non_space() -> spec_fn(char) -> bool {
    |c: char| !is_white_space(c)
}

/// The predicate "differs from `d`".
pub open spec fn other_than(d: char) -> spec_fn(char) -> bool {
    |c: char| c != d
}

/// `s` without its leading and trailing white space.
pub open spec fn trimmed(s: Seq<char>) -> Seq<char> {
    let t = s.skip(run_len(s, space()) as int);
    t.take(t.len() - run_len_back(t, space()))
}

/// `s` up to, and without, the first occurrence of `d`; all of `s` where `d`
/// does not occur.
pub open spec fn before_first(s: Seq<char>, d: char) -> Seq<char> {
    s.take(run_len(s, other_than(d)) as int)
}

/// First index in `chars[from..to]` whose character is `d`, or `to`.
pub fn find_char(chars: &Vec<char>, from: usize, to: usize, d: char) -> (i: usize)
    requires
        from <= to <= chars.len(),
    ensures
        from <= i <= to,
        i - from == run_len(chars@.subrange(from as int, to as int), other_than(d)),
{
    let mut i = from;
    while i < to && chars[i] != d
        invariant
            from <= i <= to <= chars.len(),
            forall|k: int| from <= k < i ==> chars@[k] != d,
        decreases to - i,
    {
        i += 1;
    }
    proof {
        lemma_run_len(chars@.subrange(from as int, to as int), other_than(d), i - from);
    }
    i
}

/// Bounds of `chars[from..to]` without its leading and trailing white space.
pub fn trim_range(chars: &Vec<char>, from: usize, to: usize) -> (r: (usize, usize))
    requires
        from <= to <= chars.len(),
    ensures
        from <= r.0 <= r.1 <= to,
        chars@.subrange(r.0 as int, r.1 as int) == trimmed(chars@.subrange(from as int, to as int)),
{
    let ghost s = chars@.subrange(from as int, to as int);
    let mut a = from;
    while a < to && is_whitespace(chars[a])
        invariant
            from <= a <= to <= chars.len(),
            forall|k: int| from <= k < a ==> is_white_space(chars@[k]),
        decreases to - a,
    {
        a += 1;
    }
    let mut b = to;
    while a < b && is_whitespace(chars[b - 1])
        invariant
            a <= b <= to <= chars.len(),
            forall|k: int| b <= k < to ==> is_white_space(chars@[k]),
        decreases b - a,
    {
        b -= 1;
    }
    proof {
        lemma_run_len(s, space(), a - from);
        let t = s.skip(a - from);
        lemma_run_len_back(t, space(), to - b);
    }
    (a, b)
}

// ----------------------------------------------------------------------
// Tokens
// ----------------------------------------------------------------------

/// The maximal runs of characters of `s` that hold no white space, in order.
pub open spec fn tokens(s: Seq<char>) -> Seq<Seq<char>>
    decreases s.len(),
{
    let t = s.skip(run_len(s, space()) as int);
    if t.len() == 0 {
        Seq::empty()
    } else {
        let n = run_len(t, non_space());
        proof {
            lemma_run_len_bound(s, space());
            lemma_run_len_bound(t, non_space());
        }
        seq![t.take(n as int)] + tokens(t.skip(n as int))
    }
}

/// Whether `w` is a word: not empty and without white space.
pub open spec fn is_word(w: Seq<char>) -> bool {
    &&& w.len() > 0
    &&& forall|j: int| 0 <= j < w.len() ==> !is_white_space(#[trigger] w[j])
}

/// Every token is a word.
pub proof fn lemma_tokens_are_words(s: Seq<char>)
    ensures
        forall|i: int| 0 <= i < tokens(s).len() ==> is_word(#[trigger] tokens(s)[i]),
    decreases s.len(),
{
    lemma_run_len_bound(s, space());
    let t = s.skip(run_len(s, space()) as int);
    if t.len() > 0 {
        lemma_run_len_bound(t, non_space());
        let n = run_len(t, non_space());
        let first = t.take(n as int);
        let rest = tokens(t.skip(n as int));
        assert(!is_white_space(t[0]));
        assert(is_word(first)) by {
            assert forall|j: int| 0 <= j < first.len() implies !is_white_space(
                #[trigger] first[j],
            ) by {
                assert(non_space()(t[j]));
            }
        }
        lemma_tokens_are_words(t.skip(n as int));
        assert forall|i: int| 0 <= i < tokens(s).len() implies is_word(
            #[trigger] tokens(s)[i],
        ) by {
            if i > 0 {
                assert(tokens(s)[i] == rest[i - 1]);
            }
        }
    }
}

/// A text has no token exactly when it is white space throughout, which is
/// when nothing is left of it once it is trimmed.
pub proof fn lemma_blank(s: Seq<char>)
    ensures
        (tokens(s).len() == 0) == (forall|i: int| 0 <= i < s.len() ==> is_white_space(s[i])),
        (tokens(s).len() == 0) == (trimmed(s).len() == 0),
{
    lemma_run_len_bound(s, space());
    let a = run_len(s, space());
    let t = s.skip(a as int);
    if t.len() > 0 {
        assert(!is_white_space(s[a as int]));
        lemma_run_len_bound(t, non_space());
        // The white space at the end stops before the first character.
        lemma_run_len_back_bound(t, space());
        if run_len_back(t, space()) >= t.len() {
            assert(space()(t[0]));
        }
    } else {
        assert forall|i: int| 0 <= i < s.len() implies is_white_space(s[i]) by {
            assert(space()(s[i]));
        }
    }
}

/// The tokens of `chars[from..to]`, each as a string.
pub fn split_tokens(chars: &Vec<char>, from: usize, to: usize) -> (out: Vec<String>)
    requires
        from <= to <= chars.len(),
    ensures
        out.deep_view() == tokens(chars@.subrange(from as int, to as int)),
{
    let mut out: Vec<String> = Vec::new();
    let mut i = from;
    while i < to
        invariant
            from <= i <= to <= chars.len(),
            out.deep_view() + tokens(chars@.subrange(i as int, to as int)) == tokens(
                chars@.subrange(from as int, to as int),
            ),
        decreases to - i,
    {
        let ghost rest = chars@.subrange(i as int, to as int);
        let mut j = i;
        while j < to && is_whitespace(chars[j])
            invariant
                i <= j <= to <= chars.len(),
                forall|k: int| i <= k < j ==> is_white_space(chars@[k]),
            decreases to - j,
        {
            j += 1;
        }
        let mut k = j;
        while k < to && !is_whitespace(chars[k])
            invariant
                j <= k <= to <= chars.len(),
                forall|m: int| j <= m < k ==> !is_white_space(chars@[m]),
            decreases to - k,
        {
            k += 1;
        }
        proof {
            lemma_run_len(rest, space(), j - i);
            let t = rest.skip(j - i);
            lemma_run_len(t, non_space(), k - j);
            assert(t.take(k - j) == chars@.subrange(j as int, k as int));
            assert(t.skip(k - j) == chars@.subrange(k as int, to as int));
        }
        if j < to {
            let word = string_of(chars, j, k);
            out.push(word);
        }
        i = k;
    }
    out
}

// ----------------------------------------------------------------------
// Unsigned numbers
// ----------------------------------------------------------------------

/// Value of `c` as a digit in base `radix`: `0`-`9` count 0 to 9, and the
/// letters of either case count from 10 on. `None` where `c` is no such
/// character or counts `radix` or more.
pub open spec fn digit_value(c: char, radix: nat) -> Option<nat> {
    let u = c as u32;
    if 0x30 <= u <= 0x39 && u - 0x30 < radix {
        Some((u - 0x30) as nat)
    } else if 0x61 <= u <= 0x7A && u - 0x61 + 10 < radix {
        Some((u - 0x61 + 10) as nat)
    } else if 0x41 <= u <= 0x5A && u - 0x41 + 10 < radix {
        Some((u - 0x41 + 10) as nat)
    } else {
        None
    }
}

/// Value of a run of digits in base `radix`, most significant first.
/// `None` where some character is no digit; the empty run counts 0.
pub open spec fn digits_value(s: Seq<char>, radix: nat) -> Option<nat>
    decreases s.len(),
{
    if s.len() == 0 {
        Some(0)
    } else {
        match (digits_value(s.drop_last(), radix), digit_value(s.last(), radix)) {
            (Some(high), Some(d)) => Some(high * radix + d),
            _ => None,
        }
    }
}

/// Value of an unsigned number in base `radix`: an optional `+`, then one
/// digit or more, with nothing before, between or after. `None` where `s`
/// has another shape or where the value is above `max`.
pub open spec fn unsigned_value(s: Seq<char>, radix: nat, max: nat) -> Option<nat> {
    let digits = if s.len() > 0 && s[0] == '+' {
        s.skip(1)
    } else {
        s
    };
    if digits.len() == 0 {
        None
    } else {
        match digits_value(digits, radix) {
            Some(v) => if v <= max {
                Some(v)
            } else {
                None
            },
            None => None,
        }
    }
}

/// A run of digits counts at least as much as each of its prefixes, and
/// is no number where a prefix is none.
pub proof fn lemma_digits_value_prefix(s: Seq<char>, radix: nat, n: int)
    requires
        0 <= n <= s.len(),
        radix >= 1,
    ensures
        digits_value(s, radix) matches Some(v) ==> (digits_value(s.take(n), radix) matches Some(p)
            && p <= v),
    decreases s.len(),
{
    if n < s.len() {
        lemma_digits_value_prefix(s.drop_last(), radix, n);
        assert(s.drop_last().take(n) == s.take(n));
        if let Some(high) = digits_value(s.drop_last(), radix) {
            assert(high * radix >= high) by (nonlinear_arith)
                requires
                    radix >= 1,
                    high >= 0,
            ;
        }
    } else {
        assert(s.take(n) == s);
    }
}

/// The digit that `c` stands for in base `radix`.
pub fn to_digit(c: char, radix: u32) -> (r: Option<u32>)
    requires
        2 <= radix <= 36,
    ensures
        r matches Some(d) ==> digit_value(c, radix as nat) == Some(d as nat),
        r is None ==> digit_value(c, radix as nat) is None,
{
    let u: u32 = c as u32;
    if 0x30 <= u && u <= 0x39 && u - 0x30 < radix {
        Some(u - 0x30)
    } else if 0x61 <= u && u <= 0x7A && u - 0x61 + 10 < radix {
        Some(u - 0x61 + 10)
    } else if 0x41 <= u && u <= 0x5A && u - 0x41 + 10 < radix {
        Some(u - 0x41 + 10)
    } else {
        None
    }
}

/// Reads `chars[from..to]` as an unsigned number in base `radix` that is
/// at most `max`.
pub fn parse_unsigned(chars: &Vec<char>, from: usize, to: usize, radix: u32, max: u32) -> (r:
    Option<u32>)
    requires
        from <= to <= chars.len(),
        2 <= radix <= 36,
        max <= 0xFFFF,
    ensures
        r matches Some(v) ==> unsigned_value(
            chars@.subrange(from as int, to as int),
            radix as nat,
            max as nat,
        ) == Some(v as nat),
        r is None ==> unsigned_value(
            chars@.subrange(from as int, to as int),
            radix as nat,
            max as nat,
        ) is None,
{
    let ghost s = chars@.subrange(from as int, to as int);
    let start = if from < to && chars[from] == '+' {
        from + 1
    } else {
        from
    };
    let ghost digits = chars@.subrange(start as int, to as int);
    if start == to {
        return None;
    }
    let mut acc: u32 = 0;
    let mut i = start;
    while i < to
        invariant
            start <= i <= to <= chars.len(),
            2 <= radix <= 36,
            max <= 0xFFFF,
            acc <= max,
            from <= start < to,
            s == chars@.subrange(from as int, to as int),
            digits == chars@.subrange(start as int, to as int),
            digits == if s.len() > 0 && s[0] == '+' {
                s.skip(1)
            } else {
                s
            },
            digits_value(digits.take(i - start), radix as nat) == Some(acc as nat),
        decreases to - i,
    {
        proof {
            lemma_digits_value_prefix(digits, radix as nat, i - start + 1);
            assert(digits.take(i - start + 1).drop_last() == digits.take(i - start));
        }
        match to_digit(chars[i], radix) {
            None => {
                return None;
            },
            Some(d) => {
                assert(acc * radix + d <= 0xFFFF * 36 + 35) by (nonlinear_arith)
                    requires
                        acc <= 0xFFFF,
                        radix <= 36,
                        d < 36,
                ;
                let next = acc * radix + d;
                if next > max {
                    return None;
                }
                acc = next;
            },
        }
        i += 1;
    }
    assert(digits.take(to - start) == digits);
    Some(acc)
}

// ----------------------------------------------------------------------
// Writing numbers
// ----------------------------------------------------------------------

/// The character for the digit `d`, upper case from ten on.
pub open spec fn digit_char(d: nat) -> char
    recommends
        d < 16,
{
    if d < 10 {
        (0x30 + d) as char
    } else {
        (0x41 + d - 10) as char
    }
}

/// `x` in base sixteen: four digits, upper case, with leading zeros.
pub open spec fn hex4(x: u16) -> Seq<char> {
    seq![
        digit_char((x / 0x1000) as nat),
        digit_char((x / 0x100 % 0x10) as nat),
        digit_char((x / 0x10 % 0x10) as nat),
        digit_char((x % 0x10) as nat),
    ]
}

/// `n` in base ten, without leading zeros.
pub open spec fn decimal(n: nat) -> Seq<char>
    decreases n,
{
    if n < 10 {
        seq![digit_char(n)]
    } else {
        decimal(n / 10).push(digit_char(n % 10))
    }
}

/// `v` in base ten, with a minus sign where it is negative.
pub open spec fn signed_decimal(v: int) -> Seq<char> {
    if v < 0 {
        seq!['-'] + decimal((-v) as nat)
    } else {
        decimal(v as nat)
    }
}

/// The character for the digit `d`.
pub fn digit_to_char(d: u8) -> (c: char)
    requires
        d < 16,
    ensures
        c == digit_char(d as nat),
{
    if d < 10 {
        (0x30 + d) as char
    } else {
        (0x41 + d - 10) as char
    }
}

/// Appends the character for the digit `d` to `s`.
pub fn push_digit(s: &mut String, d: u8)
    requires
        d < 16,
    ensures
        final(s)@ == old(s)@.push(digit_char(d as nat)),
{
    push_char(s, digit_to_char(d));
}

/// Appends `hex4(x)` to `s`.
pub fn push_hex4(s: &mut String, x: u16)
    ensures
        final(s)@ == old(s)@ + hex4(x),
{
    push_digit(s, (x / 0x1000) as u8);
    push_digit(s, (x / 0x100 % 0x10) as u8);
    push_digit(s, (x / 0x10 % 0x10) as u8);
    push_digit(s, (x % 0x10) as u8);
}

/// Appends `decimal(n)` to `s`.
pub fn push_decimal(s: &mut String, n: u64)
    ensures
        final(s)@ == old(s)@ + decimal(n as nat),
    decreases n,
{
    if n >= 10 {
        push_decimal(s, n / 10);
    }
    push_digit(s, (n % 10) as u8);
}

/// Appends to `s` the word `x` read as a signed number, in base ten.
pub fn push_signed(s: &mut String, x: u16)
    ensures
        final(s)@ == old(s)@ + signed_decimal(signed(x)),
{
    if x < 0x8000 {
        push_decimal(s, x as u64);
    } else {
        push_char(s, '-');
        push_decimal(s, 0x1_0000 - x as u64);
    }
}

/// Appends the text `t` to `s`.
pub fn push_text(s: &mut String, t: &str)
    ensures
        final(s)@ == old(s)@ + t@,
{
    s.append(t);
}

/// The character of a digit counts as that digit in every base above it.
pub proof fn lemma_digit_char_value(d: nat, radix: nat)
    requires
        d < radix <= 16,
    ensures
        digit_value(digit_char(d), radix) == Some(d),
        digit_char(d) != '+',
{
}

/// What is written in base ten reads back as the number it was: `decimal`
/// gives digits only, one at least, and their value is the number.
pub proof fn lemma_decimal_reads_back(n: nat)
    ensures
        decimal(n).len() > 0,
        decimal(n)[0] != '+',
        digits_value(decimal(n), 10) == Some(n),
        forall|max: nat| n <= max ==> #[trigger] unsigned_value(decimal(n), 10, max) == Some(n),
    decreases n,
{
    lemma_digit_char_value(n % 10, 10);
    if n >= 10 {
        lemma_decimal_reads_back(n / 10);
        let high = decimal(n / 10);
        assert(decimal(n).drop_last() == high);
        assert(decimal(n)[0] == high[0]);
    } else {
        assert(decimal(n).drop_last() == Seq::<char>::empty());
    }
}

/// What is written as four digits in base sixteen reads back as the word
/// it was.
pub proof fn lemma_hex4_reads_back(x: u16)
    ensures
        unsigned_value(hex4(x), 16, 0xFFFF) == Some(x as nat),
{
    let s = hex4(x);
    let d3 = (x / 0x1000) as nat;
    let d2 = (x / 0x100 % 0x10) as nat;
    let d1 = (x / 0x10 % 0x10) as nat;
    let d0 = (x % 0x10) as nat;
    lemma_digit_char_value(d3, 16);
    lemma_digit_char_value(d2, 16);
    lemma_digit_char_value(d1, 16);
    lemma_digit_char_value(d0, 16);
    let s3 = s.drop_last();
    let s2 = s3.drop_last();
    let s1 = s2.drop_last();
    assert(s1.drop_last() == Seq::<char>::empty());
    assert(s1.last() == digit_char(d3) && s2.last() == digit_char(d2) && s3.last() == digit_char(
        d1,
    ) && s.last() == digit_char(d0));
    assert(digits_value(s1.drop_last(), 16) == Some(0nat));
    assert(digits_value(s1, 16) == Some(d3));
    assert(digits_value(s2, 16) == Some(d3 * 16 + d2));
    assert(digits_value(s3, 16) == Some((d3 * 16 + d2) * 16 + d1));
    assert(digits_value(s, 16) == Some(((d3 * 16 + d2) * 16 + d1) * 16 + d0));
}

} // verus!
