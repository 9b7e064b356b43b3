//! String and number utilities shared by the batching, naming and parameter
//! code: decimal rendering of counters, blank tests, trimming, comma
//! splitting and integer parsing.

use vstd::prelude::*;
use vstd::string::*;

verus! {

/// The decimal digit character for a value below ten.
pub open spec fn spec_digit_char(d: int) -> char {
    if d == 0 {
        '0'
    } else if d == 1 {
        '1'
    } else if d == 2 {
        '2'
    } else if d == 3 {
        '3'
    } else if d == 4 {
        '4'
    } else if d == 5 {
        '5'
    } else if d == 6 {
        '6'
    } else if d == 7 {
        '7'
    } else if d == 8 {
        '8'
    } else {
        '9'
    }
}

/// The usual decimal rendering of a non-negative integer, without leading
/// zeros (a lone zero is rendered as "0").
pub open spec fn spec_dec_str(n: int) -> Seq<char>
    decreases n,
{
    if n < 10 {
        seq![spec_digit_char(n)]
    } else {
        spec_dec_str(n / 10).push(spec_digit_char(n % 10))
    }
}

fn digit_str(d: usize) -> (s: &'static str)
    requires
        d < 10,
    ensures
        s@ =~= seq![spec_digit_char(d as int)],
{
    proof {
        reveal_strlit("0");
        reveal_strlit("1");
        reveal_strlit("2");
        reveal_strlit("3");
        reveal_strlit("4");
        reveal_strlit("5");
        reveal_strlit("6");
        reveal_strlit("7");
        reveal_strlit("8");
        reveal_strlit("9");
    }
    if d == 0 {
        "0"
    } else if d == 1 {
        "1"
    } else if d == 2 {
        "2"
    } else if d == 3 {
        "3"
    } else if d == 4 {
        "4"
    } else if d == 5 {
        "5"
    } else if d == 6 {
        "6"
    } else if d == 7 {
        "7"
    } else if d == 8 {
        "8"
    } else {
        "9"
    }
}

/// Renders a count in decimal, as archive names embed it.
pub fn usize_to_string(n: usize) -> (s: String)
    ensures
        s@ == spec_dec_str(n as int),
    decreases n,
{
    if n < 10 {
        let s = digit_str(n).to_owned();
        assert(s@ =~= spec_dec_str(n as int));
        s
    } else {
        let mut s = usize_to_string(n / 10);
        s.append(digit_str(n % 10));
        assert(s@ =~= spec_dec_str(n as int));
        s
    }
}

/// An ASCII whitespace character, as trimming and blank tests treat it.
pub open spec fn spec_is_space(c: char) -> bool {
    c == ' ' || c == '\t' || c == '\n' || c == '\r'
}

/// A string is blank when every character is whitespace (the empty string is
/// blank).
pub open spec fn spec_is_blank(s: Seq<char>) -> bool {
    forall|i: int| 0 <= i < s.len() ==> spec_is_space(s[i])
}

fn is_space_char(c: char) -> (r: bool)
    ensures
        r == spec_is_space(c),
{
    c == ' ' || c == '\t' || c == '\n' || c == '\r'
}

/// Tests whether a string consists of whitespace alone.
pub fn str_is_blank(s: &str) -> (r: bool)
    ensures
        r == spec_is_blank(s@),
{
    let n = s.unicode_len();
    let mut i: usize = 0;
    while i < n
        invariant
            n == s@.len(),
            0 <= i <= n,
            forall|j: int| 0 <= j < i ==> spec_is_space(s@[j]),
        decreases n - i,
    {
        if !is_space_char(s.get_char(i)) {
            return false;
        }
        i += 1;
    }
    true
}

/// The string with its leading whitespace removed.
pub open spec fn spec_trim_front(s: Seq<char>) -> Seq<char>
    decreases s.len(),
{
    if s.len() > 0 && spec_is_space(s[0]) {
        spec_trim_front(s.drop_first())
    } else {
        s
    }
}

/// The string with its trailing whitespace removed.
pub open spec fn spec_trim_back(s: Seq<char>) -> Seq<char>
    decreases s.len(),
{
    if s.len() > 0 && spec_is_space(s.last()) {
        spec_trim_back(s.drop_last())
    } else {
        s
    }
}

/// The string with whitespace removed from both ends.
pub open spec fn spec_trim(s: Seq<char>) -> Seq<char> {
    spec_trim_back(spec_trim_front(s))
}

fn trim_front<'a>(s: &'a str) -> (r: &'a str)
    ensures
        r@ == spec_trim_front(s@),
    decreases s@.len(),
{
    let n = s.unicode_len();
    if n > 0 && is_space_char(s.get_char(0)) {
        let rest = s.substring_char(1, n);
        assert(rest@ =~= s@.drop_first());
        trim_front(rest)
    } else {
        s
    }
}

fn trim_back<'a>(s: &'a str) -> (r: &'a str)
    ensures
        r@ == spec_trim_back(s@),
    decreases s@.len(),
{
    let n = s.unicode_len();
    if n > 0 && is_space_char(s.get_char(n - 1)) {
        let rest = s.substring_char(0, n - 1);
        assert(rest@ =~= s@.drop_last());
        trim_back(rest)
    } else {
        s
    }
}

/// Removes leading and trailing whitespace.
pub fn trim_str(s: &str) -> (r: String)
    ensures
        r@ == spec_trim(s@),
{
    trim_back(trim_front(s)).to_owned()
}

/// Splitting at commas, scanned from the left with the token read so far.
pub open spec fn spec_split_acc(s: Seq<char>, cur: Seq<char>) -> Seq<Seq<char>>
    decreases s.len(),
{
    if s.len() == 0 {
        seq![cur]
    } else if s[0] == ',' {
        seq![cur] + spec_split_acc(s.drop_first(), Seq::empty())
    } else {
        spec_split_acc(s.drop_first(), cur.push(s[0]))
    }
}

/// The comma-separated tokens of a string; the empty string yields one empty
/// token.
pub open spec fn spec_split_commas(s: Seq<char>) -> Seq<Seq<char>> {
    spec_split_acc(s, Seq::empty())
}

proof fn lemma_split_acc_no_comma(rem: Seq<char>, cur: Seq<char>, k: int)
    requires
        0 <= k <= rem.len(),
        forall|j: int| 0 <= j < k ==> rem[j] != ',',
    ensures
        spec_split_acc(rem, cur) == spec_split_acc(rem.skip(k), cur + rem.take(k)),
    decreases k,
{
    if k > 0 {
        lemma_split_acc_no_comma(rem.drop_first(), cur.push(rem[0]), k - 1);
        assert(rem.drop_first().skip(k - 1) =~= rem.skip(k));
        assert(cur.push(rem[0]) + rem.drop_first().take(k - 1) =~= cur + rem.take(k));
    } else {
        assert(rem.skip(0) =~= rem);
        assert(cur + rem.take(0) =~= cur);
    }
}

/// Splits a string at commas.
pub fn split_commas(s: &str) -> (toks: Vec<String>)
    ensures
        toks@.map_values(|t: String| t@) == spec_split_commas(s@),
{
    let n = s.unicode_len();
    let mut toks: Vec<String> = Vec::new();
    proof {
        assert(s@.skip(0) =~= s@);
        assert(toks@.map_values(|t: String| t@) =~= Seq::<Seq<char>>::empty());
        assert(Seq::<Seq<char>>::empty() + spec_split_acc(s@, Seq::empty()) =~= spec_split_acc(
            s@,
            Seq::empty(),
        ));
    }
    let mut start: usize = 0;
    let mut i: usize = 0;
    while i < n
        invariant
            n == s@.len(),
            0 <= start <= i <= n,
            forall|j: int| start <= j < i ==> s@[j] != ',',
            spec_split_commas(s@) == toks@.map_values(|t: String| t@) + spec_split_acc(
                s@.skip(start as int),
                Seq::empty(),
            ),
        decreases n - i,
    {
        let c = s.get_char(i);
        if c == ',' {
            let tok = s.substring_char(start, i).to_owned();
            proof {
                let rem = s@.skip(start as int);
                let d = i - start;
                assert(forall|j: int| 0 <= j < d ==> rem[j] == s@[start + j] && rem[j] != ',');
                lemma_split_acc_no_comma(rem, Seq::empty(), d as int);
                assert(rem.skip(d as int) =~= s@.skip(i as int));
                assert(Seq::empty() + rem.take(d as int) =~= tok@);
                assert(s@.skip(i as int)[0] == ',');
                assert(s@.skip(i as int).drop_first() =~= s@.skip(i as int + 1));
            }
            toks.push(tok);
            proof {
                assert(toks@.map_values(|t: String| t@) =~= toks@.drop_last().map_values(
                    |t: String| t@,
                ).push(toks@.last()@));
            }
            start = i + 1;
        }
        i += 1;
    }
    let tok = s.substring_char(start, n).to_owned();
    proof {
        let rem = s@.skip(start as int);
        let d = n - start;
        assert(forall|j: int| 0 <= j < d ==> rem[j] == s@[start + j] && rem[j] != ',');
        lemma_split_acc_no_comma(rem, Seq::empty(), d as int);
        assert(rem.skip(d as int) =~= Seq::<char>::empty());
        assert(Seq::empty() + rem.take(d as int) =~= tok@);
    }
    toks.push(tok);
    proof {
        assert(toks@.map_values(|t: String| t@) =~= toks@.drop_last().map_values(
            |t: String| t@,
        ).push(toks@.last()@));
    }
    toks
}

/// Ten to the given power (one for non-positive exponents).
pub open spec fn spec_pow10(k: int) -> int
    decreases k,
{
    if k <= 0 {
        1
    } else {
        10 * spec_pow10(k - 1)
    }
}

/// A decimal digit character.
pub open spec fn spec_is_digit(c: char) -> bool {
    '0' as int <= c as int <= '9' as int
}

/// The numeric value of a digit character.
pub open spec fn spec_digit_val(c: char) -> int {
    c as int - '0' as int
}

/// The value of a digit string, read in base ten.
pub open spec fn spec_digits_val(s: Seq<char>) -> int
    decreases s.len(),
{
    if s.len() == 0 {
        0
    } else {
        spec_digits_val(s.drop_last()) * 10 + spec_digit_val(s.last())
    }
}

/// Every character is a decimal digit.
pub open spec fn spec_all_digits(s: Seq<char>) -> bool {
    forall|i: int| 0 <= i < s.len() ==> spec_is_digit(s[i])
}

/// A token that parses as an `i32`: an optional sign, then one or more
/// digits, with the value in range.
pub open spec fn spec_is_i32_token(s: Seq<char>) -> bool {
    let signed = s.len() > 0 && (s[0] == '-' || s[0] == '+');
    let t = if signed {
        s.skip(1)
    } else {
        s
    };
    &&& t.len() > 0
    &&& spec_all_digits(t)
    &&& if s.len() > 0 && s[0] == '-' {
        spec_digits_val(t) <= 0x8000_0000
    } else {
        spec_digits_val(t) <= 0x7fff_ffff
    }
}

/// The value of an `i32` token.
pub open spec fn spec_i32_token_val(s: Seq<char>) -> int {
    if s.len() > 0 && s[0] == '-' {
        -spec_digits_val(s.skip(1))
    } else if s.len() > 0 && s[0] == '+' {
        spec_digits_val(s.skip(1))
    } else {
        spec_digits_val(s)
    }
}

proof fn lemma_digits_val_drop_zero(s: Seq<char>)
    requires
        s.len() > 0,
        s[0] == '0',
    ensures
        spec_digits_val(s) == spec_digits_val(s.drop_first()),
    decreases s.len(),
{
    if s.len() == 1 {
        assert(s.drop_last() =~= Seq::<char>::empty());
        assert(s.drop_first() =~= Seq::<char>::empty());
        assert(s.last() == s[0]);
        assert(spec_digit_val('0') == 0);
    } else {
        lemma_digits_val_drop_zero(s.drop_last());
        assert(s.drop_last().drop_first() =~= s.drop_first().drop_last());
        assert(s.drop_first().last() == s.last());
    }
}

proof fn lemma_digits_val_drop_zeros(s: Seq<char>, k: int)
    requires
        0 <= k <= s.len(),
        forall|j: int| 0 <= j < k ==> s[j] == '0',
    ensures
        spec_digits_val(s) == spec_digits_val(s.skip(k)),
    decreases k,
{
    if k > 0 {
        lemma_digits_val_drop_zero(s);
        lemma_digits_val_drop_zeros(s.drop_first(), k - 1);
        assert(s.drop_first().skip(k - 1) =~= s.skip(k));
    } else {
        assert(s.skip(0) =~= s);
    }
}

proof fn lemma_digits_val_bounds(s: Seq<char>)
    requires
        spec_all_digits(s),
    ensures
        0 <= spec_digits_val(s) < spec_pow10(s.len() as int),
    decreases s.len(),
{
    if s.len() > 0 {
        lemma_digits_val_bounds(s.drop_last());
        let v = spec_digits_val(s.drop_last());
        let p = spec_pow10(s.len() - 1);
        assert(0 <= spec_digit_val(s.last()) <= 9);
        assert(v * 10 + spec_digit_val(s.last()) < p * 10) by (nonlinear_arith)
            requires
                0 <= v < p,
                0 <= spec_digit_val(s.last()) <= 9,
        ;
        assert(v * 10 + spec_digit_val(s.last()) >= 0) by (nonlinear_arith)
            requires
                0 <= v,
                0 <= spec_digit_val(s.last()),
        ;
    }
}

proof fn lemma_digits_val_lower(s: Seq<char>)
    requires
        spec_all_digits(s),
        s.len() > 0,
        s[0] != '0',
    ensures
        spec_digits_val(s) >= spec_pow10(s.len() - 1),
    decreases s.len(),
{
    if s.len() == 1 {
        assert(spec_digits_val(s) == spec_digits_val(s.drop_last()) * 10 + spec_digit_val(s.last()));
        assert(s.drop_last() =~= Seq::<char>::empty());
        assert(spec_digit_val(s[0]) >= 1);
    } else {
        lemma_digits_val_lower(s.drop_last());
        let v = spec_digits_val(s.drop_last());
        let p = spec_pow10(s.len() - 2);
        assert(v * 10 >= p * 10) by (nonlinear_arith)
            requires
                v >= p,
        ;
        assert(spec_digit_val(s.last()) >= 0);
    }
}

proof fn lemma_pow10_ten()
    ensures
        spec_pow10(10) == 10_000_000_000,
{
    reveal_with_fuel(spec_pow10, 11);
    assert(spec_pow10(10) == 10_000_000_000);
}

fn is_digit_char(c: char) -> (r: bool)
    ensures
        r == spec_is_digit(c),
{
    c >= '0' && c <= '9'
}

/// Parses a decimal `i32`, exactly as a list of catalog ids expects its
/// entries: an optional sign, then digits, rejected on any other character or
/// on overflow.
pub fn parse_i32(s: &str) -> (r: Option<i32>)
    ensures
        r is Some <==> spec_is_i32_token(s@),
        r is Some ==> r.unwrap() as int == spec_i32_token_val(s@),
{
    let n = s.unicode_len();
    if n == 0 {
        return None;
    }
    let c0 = s.get_char(0);
    let neg = c0 == '-';
    let b: usize = if c0 == '-' || c0 == '+' {
        1
    } else {
        0
    };
    let ghost t = if b == 1 {
        s@.skip(1)
    } else {
        s@
    };
    assert(t =~= s@.skip(b as int));
    if n == b {
        return None;
    }
    let mut i: usize = b;
    while i < n
        invariant
            n == s@.len(),
            b <= i <= n,
            t == s@.skip(b as int),
            n > b,
            c0 == s@[0],
            neg == (c0 == '-'),
            b == 1 <==> (c0 == '-' || c0 == '+'),
            forall|j: int| b <= j < i ==> spec_is_digit(s@[j]),
        decreases n - i,
    {
        if !is_digit_char(s.get_char(i)) {
            proof {
                assert(t[i - b] == s@[i as int]);
            }
            return None;
        }
        i += 1;
    }
    assert(spec_all_digits(t)) by {
        assert(forall|j: int| 0 <= j < t.len() ==> t[j] == s@[b + j] && spec_is_digit(s@[b + j]));
    }
    let mut z: usize = b;
    while z < n && s.get_char(z) == '0'
        invariant
            n == s@.len(),
            b <= z <= n,
            forall|j: int| b <= j < z ==> s@[j] == '0',
        decreases n - z,
    {
        z += 1;
    }
    proof {
        lemma_digits_val_drop_zeros(t, z - b);
        assert(t.skip(z - b) =~= s@.skip(z as int));
    }
    let ghost rest = s@.skip(z as int);
    let m = n - z;
    if m == 0 {
        proof {
            lemma_digits_val_bounds(rest);
        }
        return Some(0);
    }
    if m > 10 {
        proof {
            assert(m == rest.len());
            assert(rest[0] == s@[z as int]);
            assert(rest[0] != '0');
            lemma_digits_val_lower(rest);
            lemma_pow10_ten();
            lemma_pow10_monotone(10, rest.len() - 1);
            assert(spec_digits_val(rest) >= 10_000_000_000);
        }
        return None;
    }
    let mut val: u64 = 0;
    let mut i: usize = z;
    while i < n
        invariant
            n == s@.len(),
            z <= i <= n,
            n - z <= 10,
            rest == s@.skip(z as int),
            spec_all_digits(rest),
            val == spec_digits_val(rest.take(i - z)),
            val < spec_pow10(i - z),
        decreases n - i,
    {
        let c = s.get_char(i);
        proof {
            assert(rest[i - z] == s@[i as int]);
            assert(spec_is_digit(rest[i - z]));
            assert(c as int >= '0' as int && c as int <= '9' as int);
            assert(rest.take(i + 1 - z).drop_last() =~= rest.take(i - z));
            assert(rest.take(i + 1 - z).last() == s@[i as int]);
            let p = spec_pow10(i - z);
            assert(val * 10 + 9 < p * 10) by (nonlinear_arith)
                requires
                    val < p,
                    0 < p,
            ;
            lemma_pow10_monotone(i + 1 - z, 10);
            lemma_pow10_ten();
        }
        let d = (c as u32) - 48;
        val = val * 10 + (d as u64);
        i += 1;
    }
    proof {
        assert(rest.take(n - z) =~= rest);
        lemma_pow10_ten();
    }
    if neg {
        if val <= 0x8000_0000 {
            let sv = -(val as i64);
            Some(sv as i32)
        } else {
            None
        }
    } else {
        if val <= 0x7fff_ffff {
            Some(val as i32)
        } else {
            None
        }
    }
}

/// Powers of ten do not shrink as the exponent grows.
pub proof fn lemma_pow10_monotone(a: int, b: int)
    requires
        0 <= a <= b,
    ensures
        spec_pow10(a) <= spec_pow10(b),
    decreases b,
{
    if a < b {
        lemma_pow10_monotone(a, b - 1);
        lemma_pow10_positive(b - 1);
        assert(spec_pow10(b - 1) <= 10 * spec_pow10(b - 1)) by (nonlinear_arith)
            requires
                spec_pow10(b - 1) >= 0,
        ;
    }
}

/// Powers of ten are positive.
pub proof fn lemma_pow10_positive(k: int)
    ensures
        spec_pow10(k) >= 1,
    decreases k,
{
    if k > 0 {
        lemma_pow10_positive(k - 1);
        assert(10 * spec_pow10(k - 1) >= spec_pow10(k - 1)) by (nonlinear_arith)
            requires
                spec_pow10(k - 1) >= 1,
        ;
    }
}

/// Powers of ten grow strictly with the exponent.
pub proof fn lemma_pow10_strict_mono(a: int, b: int)
    requires
        0 <= a < b,
    ensures
        spec_pow10(a) < spec_pow10(b),
    decreases b,
{
    lemma_pow10_positive(a);
    if a + 1 < b {
        lemma_pow10_strict_mono(a, b - 1);
    }
    lemma_pow10_positive(b - 1);
    assert(spec_pow10(b - 1) < 10 * spec_pow10(b - 1)) by (nonlinear_arith)
        requires
            spec_pow10(b - 1) >= 1,
    ;
}

/// The given piece repeated a number of times.
pub open spec fn spec_repeat(part: Seq<char>, n: int) -> Seq<char>
    decreases n,
{
    if n <= 0 {
        Seq::empty()
    } else {
        spec_repeat(part, n - 1) + part
    }
}

/// The length of a repetition.
pub proof fn lemma_repeat_len(part: Seq<char>, n: int)
    requires
        n >= 0,
    ensures
        spec_repeat(part, n).len() == n * part.len(),
    decreases n,
{
    if n > 0 {
        lemma_repeat_len(part, n - 1);
        assert((n - 1) * part.len() + part.len() == n * part.len()) by (nonlinear_arith);
    } else {
        assert(0 * part.len() == 0) by (nonlinear_arith);
    }
}

/// Repeats a string piece a number of times.
pub fn repeat_str(part: &str, n: usize) -> (r: String)
    ensures
        r@ == spec_repeat(part@, n as int),
{
    let mut r = String::new();
    let mut i: usize = 0;
    assert(r@ =~= spec_repeat(part@, 0));
    while i < n
        invariant
            0 <= i <= n,
            r@ == spec_repeat(part@, i as int),
        decreases n - i,
    {
        r.append(part);
        i += 1;
    }
    r
}

} // verus!

