//! Character-level text handling: line splitting, whitespace fields,
//! decimal numbers, all stated over `Seq<char>`.
use vstd::prelude::*;

verus! {

// ---------------------------------------------------------------------------
// Characters
// ---------------------------------------------------------------------------

/// White space in the sense of Unicode's `White_Space` property.
pub open spec fn is_space(c: char) -> bool {
    ||| ('\u{9}' <= c && c <= '\u{d}')
    ||| c == ' '
    ||| c == '\u{85}'
    ||| c == '\u{a0}'
    ||| c == '\u{1680}'
    ||| ('\u{2000}' <= c && c <= '\u{200a}')
    ||| c == '\u{2028}'
    ||| c == '\u{2029}'
    ||| c == '\u{202f}'
    ||| c == '\u{205f}'
    ||| c == '\u{3000}'
}

/// Executable form of [`is_space`].
pub fn is_space_char(c: char) -> (b: bool)
    ensures
        b == is_space(c),
{
    ('\u{9}' <= c && c <= '\u{d}') || c == ' ' || c == '\u{85}' || c == '\u{a0}' || c
        == '\u{1680}' || ('\u{2000}' <= c && c <= '\u{200a}') || c == '\u{2028}' || c
        == '\u{2029}' || c == '\u{202f}' || c == '\u{205f}' || c == '\u{3000}'
}

/// An ASCII decimal digit.
pub open spec fn is_digit(c: char) -> bool {
    '0' <= c && c <= '9'
}

/// The value of a decimal digit character.
pub open spec fn digit_value(c: char) -> int {
    (c as int) - ('0' as int)
}

/// The character of a decimal digit `0 <= d < 10`.
pub open spec fn digit_char(d: int) -> char {
    (('0' as int) + d) as char
}

/// The characters of `s`, in order.
pub fn chars_of(s: &str) -> (v: Vec<char>)
    ensures
        v@ == s@,
{
    let mut v: Vec<char> = Vec::new();
    for c in it: s.chars()
        invariant
            v@ == it.seq().take(it.index() as int),
    {
        v.push(c);
    }
    v
}

/// `s` begins with `p`.
pub open spec fn starts_with(s: Seq<char>, p: Seq<char>) -> bool {
    p.len() <= s.len() && s.take(p.len() as int) == p
}

/// Whether `s[start..stop]` begins with `p`.
pub fn range_starts_with(s: &Vec<char>, start: usize, stop: usize, p: &Vec<char>) -> (b: bool)
    requires
        start <= stop <= s.len(),
    ensures
        b == starts_with(s@.subrange(start as int, stop as int), p@),
{
    if p.len() > stop - start {
        return false;
    }
    let mut k: usize = 0;
    while k < p.len()
        invariant
            k <= p.len(),
            p.len() <= stop - start,
            start <= stop <= s.len(),
            forall|j: int| 0 <= j < k ==> s@[start + j] == p@[j],
        decreases p.len() - k,
    {
        if s[start + k] != p[k] {
            assert(s@.subrange(start as int, stop as int).take(p.len() as int)[k as int] != p@[k as int]);
            return false;
        }
        k = k + 1;
    }
    assert(s@.subrange(start as int, stop as int).take(p.len() as int) =~= p@);
    true
}

// ---------------------------------------------------------------------------
// Lines
// ---------------------------------------------------------------------------

/// Index of the first `'\n'` at or after `i`, or `s.len()` when there is none.
pub open spec fn line_end(s: Seq<char>, i: int) -> int
    decreases s.len() - i,
{
    if i >= s.len() {
        s.len() as int
    } else if s[i] == '\n' {
        i
    } else {
        line_end(s, i + 1)
    }
}

/// Bounds of [`line_end`].
pub proof fn lemma_line_end(s: Seq<char>, i: int)
    requires
        0 <= i,
    ensures
        i <= s.len() ==> i <= line_end(s, i) <= s.len(),
        i > s.len() ==> line_end(s, i) == s.len(),
        line_end(s, i) < s.len() ==> s[line_end(s, i)] == '\n',
        forall|k: int| i <= k < line_end(s, i) ==> s[k] != '\n',
    decreases s.len() - i,
{
    if i < s.len() && s[i] != '\n' {
        lemma_line_end(s, i + 1);
    }
}

/// `l` without one trailing `'\r'`.
pub open spec fn strip_cr(l: Seq<char>) -> Seq<char> {
    if l.len() > 0 && l.last() == '\r' {
        l.drop_last()
    } else {
        l
    }
}

/// The lines of `s` from index `i` on: split at `'\n'`, a `'\r'` right before a
/// `'\n'` dropped, and no empty line after a final `'\n'`.
pub open spec fn lines_from(s: Seq<char>, i: int) -> Seq<Seq<char>>
    decreases s.len() - i,
{
    if i < 0 || i >= s.len() {
        seq![]
    } else {
        let e = line_end(s, i);
        proof {
            lemma_line_end(s, i);
        }
        if e >= s.len() {
            seq![s.subrange(i, s.len() as int)]
        } else {
            seq![strip_cr(s.subrange(i, e))] + lines_from(s, e + 1)
        }
    }
}

/// The lines of `s`, as `str::lines` yields them.
pub open spec fn lines(s: Seq<char>) -> Seq<Seq<char>> {
    lines_from(s, 0)
}

/// The first of `ls` that begins with `p`.
pub open spec fn first_with_prefix(ls: Seq<Seq<char>>, p: Seq<char>) -> Option<Seq<char>>
    decreases ls.len(),
{
    if ls.len() == 0 {
        None
    } else if starts_with(ls[0], p) {
        Some(ls[0])
    } else {
        first_with_prefix(ls.drop_first(), p)
    }
}

/// Index of the first `'\n'` at or after `i` in `s`, or `s.len()`.
pub fn find_line_end(s: &Vec<char>, i: usize) -> (e: usize)
    requires
        i <= s.len(),
    ensures
        e == line_end(s@, i as int),
{
    let mut j = i;
    while j < s.len() && s[j] != '\n'
        invariant
            i <= j <= s.len(),
            line_end(s@, i as int) == line_end(s@, j as int),
        decreases s.len() - j,
    {
        j = j + 1;
    }
    j
}

/// The character range of the first line of `s` that begins with `p`.
pub fn find_line_with_prefix(s: &Vec<char>, p: &Vec<char>) -> (r: Option<(usize, usize)>)
    ensures
        match r {
            None => first_with_prefix(lines(s@), p@) is None,
            Some((a, b)) => a <= b <= s.len() && first_with_prefix(lines(s@), p@) == Some(
                s@.subrange(a as int, b as int),
            ),
        },
        // The line found starts a line, holds no line break and begins with `p`.
        r matches Some((a, b)) ==> (a == 0 || s@[a - 1] == '\n') && (forall|j: int|
            a <= j < b ==> #[trigger] s@[j] != '\n') && starts_with(
            s@.subrange(a as int, b as int),
            p@,
        ),
{
    let mut start: usize = 0;
    while start < s.len()
        invariant
            start <= s.len(),
            first_with_prefix(lines(s@), p@) == first_with_prefix(lines_from(s@, start as int), p@),
            start == 0 || s@[start - 1] == '\n',
        decreases s.len() - start,
    {
        let e = find_line_end(s, start);
        proof {
            lemma_line_end(s@, start as int);
        }
        if e == s.len() {
            let ghost l = s@.subrange(start as int, e as int);
            assert(lines_from(s@, start as int) == seq![l]);
            if range_starts_with(s, start, e, p) {
                return Some((start, e));
            }
            assert(seq![l].drop_first() =~= Seq::<Seq<char>>::empty());
            assert(first_with_prefix(Seq::<Seq<char>>::empty(), p@) is None);
            return None;
        }
        let stop = if e > start && s[e - 1] == '\r' {
            e - 1
        } else {
            e
        };
        let ghost l = strip_cr(s@.subrange(start as int, e as int));
        assert(l =~= s@.subrange(start as int, stop as int));
        let ghost rest = lines_from(s@, e + 1);
        assert(lines_from(s@, start as int) == seq![l] + rest);
        if range_starts_with(s, start, stop, p) {
            return Some((start, stop));
        }
        assert((seq![l] + rest).drop_first() =~= rest);
        start = e + 1;
    }
    None
}

// ---------------------------------------------------------------------------
// Whitespace-separated fields
// ---------------------------------------------------------------------------

/// Index of the first white space at or after `i`, or `s.len()`.
pub open spec fn token_end(s: Seq<char>, i: int) -> int
    decreases s.len() - i,
{
    if i >= s.len() {
        s.len() as int
    } else if is_space(s[i]) {
        i
    } else {
        token_end(s, i + 1)
    }
}

/// Bounds of [`token_end`].
pub proof fn lemma_token_end(s: Seq<char>, i: int)
    requires
        0 <= i <= s.len(),
    ensures
        i <= token_end(s, i) <= s.len(),
        token_end(s, i) < s.len() ==> is_space(s[token_end(s, i)]),
        forall|k: int| i <= k < token_end(s, i) ==> !is_space(s[k]),
    decreases s.len() - i,
{
    if i < s.len() && !is_space(s[i]) {
        lemma_token_end(s, i + 1);
    }
}

/// The white-space separated fields of `s` from index `i` on, as
/// `str::split_whitespace` yields them.
pub open spec fn fields_from(s: Seq<char>, i: int) -> Seq<Seq<char>>
    decreases s.len() - i,
{
    if i < 0 || i >= s.len() {
        seq![]
    } else if is_space(s[i]) {
        fields_from(s, i + 1)
    } else {
        let e = token_end(s, i);
        proof {
            lemma_token_end(s, i);
            lemma_token_end(s, i + 1);
        }
        seq![s.subrange(i, e)] + fields_from(s, e)
    }
}

/// The white-space separated fields of `s`.
pub open spec fn fields(s: Seq<char>) -> Seq<Seq<char>> {
    fields_from(s, 0)
}

/// The character range of the first field of `s` at or after `i`.
pub fn next_field(s: &Vec<char>, i: usize) -> (r: Option<(usize, usize)>)
    requires
        i <= s.len(),
    ensures
        match r {
            None => fields_from(s@, i as int).len() == 0,
            Some((a, b)) => {
                &&& i <= a < b <= s.len()
                &&& fields_from(s@, i as int).len() > 0
                &&& fields_from(s@, i as int)[0] == s@.subrange(a as int, b as int)
                &&& fields_from(s@, i as int).drop_first() == fields_from(s@, b as int)
            },
        },
        // The field is the first run of non-space characters from `i`.
        match r {
            None => forall|j: int| i <= j < s.len() ==> is_space(#[trigger] s@[j]),
            Some((a, b)) => {
                &&& forall|j: int| i <= j < a ==> is_space(#[trigger] s@[j])
                &&& forall|j: int| a <= j < b ==> !is_space(#[trigger] s@[j])
                &&& b == s.len() || is_space(s@[b as int])
            },
        },
{
    let mut a = i;
    while a < s.len() && is_space_char(s[a])
        invariant
            i <= a <= s.len(),
            fields_from(s@, i as int) == fields_from(s@, a as int),
            forall|j: int| i <= j < a ==> is_space(#[trigger] s@[j]),
        decreases s.len() - a,
    {
        a = a + 1;
    }
    if a == s.len() {
        return None;
    }
    let mut b = a + 1;
    proof {
        lemma_token_end(s@, a as int);
    }
    while b < s.len() && !is_space_char(s[b])
        invariant
            a < b <= s.len(),
            token_end(s@, a as int) == token_end(s@, b as int),
            forall|j: int| a <= j < b ==> !is_space(#[trigger] s@[j]),
        decreases s.len() - b,
    {
        b = b + 1;
    }
    let ghost f = fields_from(s@, a as int);
    assert(f == seq![s@.subrange(a as int, b as int)] + fields_from(s@, b as int));
    assert(f.drop_first() =~= fields_from(s@, b as int));
    Some((a, b))
}

// ---------------------------------------------------------------------------
// Decimal numbers
// ---------------------------------------------------------------------------

/// Every character of `s` is a decimal digit.
pub open spec fn all_digits(s: Seq<char>) -> bool {
    forall|i: int| 0 <= i < s.len() ==> is_digit(#[trigger] s[i])
}

/// The number that the digits `s` spell, most significant first.
pub open spec fn digits_value(s: Seq<char>) -> int
    decreases s.len(),
{
    if s.len() == 0 {
        0
    } else {
        digits_value(s.drop_last()) * 10 + digit_value(s.last())
    }
}

/// What `str::parse::<u64>` gives for `s`: an optional `'+'`, then one or more
/// decimal digits whose value fits in a `u64`.
pub open spec fn parse_u64(s: Seq<char>) -> Option<u64> {
    let d = if s.len() > 0 && s[0] == '+' {
        s.drop_first()
    } else {
        s
    };
    if d.len() > 0 && all_digits(d) && digits_value(d) <= u64::MAX {
        Some(digits_value(d) as u64)
    } else {
        None
    }
}

/// The decimal digits of `n`, without leading zeros.
pub open spec fn decimal(n: nat) -> Seq<char>
    decreases n,
{
    if n < 10 {
        seq![digit_char(n as int)]
    } else {
        decimal(n / 10).push(digit_char((n % 10) as int))
    }
}

/// A prefix of a digit string spells no more than the whole.
pub proof fn lemma_digits_value_prefix(s: Seq<char>, j: int)
    requires
        all_digits(s),
        0 <= j <= s.len(),
    ensures
        0 <= digits_value(s.take(j)) <= digits_value(s),
    decreases s.len(),
{
    if s.len() > 0 {
        lemma_digits_value_nonneg(s);
        if j < s.len() {
            assert(s.drop_last().take(j) =~= s.take(j));
            lemma_digits_value_prefix(s.drop_last(), j);
            lemma_digits_value_nonneg(s.drop_last());
        } else {
            assert(s.take(j) =~= s);
        }
    } else {
        assert(s.take(j) =~= s);
    }
}

/// A digit string spells a natural number.
pub proof fn lemma_digits_value_nonneg(s: Seq<char>)
    requires
        all_digits(s),
    ensures
        digits_value(s) >= 0,
    decreases s.len(),
{
    if s.len() > 0 {
        lemma_digits_value_nonneg(s.drop_last());
    }
}

/// The number spelled by `s[a..b]`, if `str::parse::<u64>` accepts it.
pub fn parse_u64_range(s: &Vec<char>, a: usize, b: usize) -> (r: Option<u64>)
    requires
        a <= b <= s.len(),
    ensures
        r == parse_u64(s@.subrange(a as int, b as int)),
{
    let ghost t = s@.subrange(a as int, b as int);
    let start = if a < b && s[a] == '+' {
        a + 1
    } else {
        a
    };
    let ghost d = s@.subrange(start as int, b as int);
    assert(d =~= (if t.len() > 0 && t[0] == '+' {
        t.drop_first()
    } else {
        t
    }));
    if start == b {
        return None;
    }
    let mut acc: u64 = 0;
    let mut k = start;
    while k < b
        invariant
            start <= k <= b <= s.len(),
            d == s@.subrange(start as int, b as int),
            t == s@.subrange(a as int, b as int),
            d == (if t.len() > 0 && t[0] == '+' {
                t.drop_first()
            } else {
                t
            }),
            acc == digits_value(d.take(k - start)),
            forall|j: int| 0 <= j < k - start ==> is_digit(#[trigger] d[j]),
        decreases b - k,
    {
        let c = s[k];
        if !('0' <= c && c <= '9') {
            assert(!is_digit(d[k - start]));
            assert(!all_digits(d));
            return None;
        }
        let dv = (c as u32 - '0' as u32) as u64;
        assert(d.take(k - start + 1).drop_last() =~= d.take(k - start));
        assert(d.take(k - start + 1).last() == c);
        assert(digits_value(d.take(k - start + 1)) == acc * 10 + dv);
        match acc.checked_mul(10) {
            Some(m) => match m.checked_add(dv) {
                Some(v) => {
                    acc = v;
                },
                None => {
                    proof {
                        if all_digits(d) {
                            lemma_digits_value_prefix(d, k - start + 1);
                        }
                        assert(!(all_digits(d) && digits_value(d) <= u64::MAX));
                    }
                    return None;
                },
            },
            None => {
                proof {
                    if all_digits(d) {
                        lemma_digits_value_prefix(d, k - start + 1);
                    }
                    assert(!(all_digits(d) && digits_value(d) <= u64::MAX));
                }
                return None;
            },
        }
        k = k + 1;
    }
    assert(d.take(b - start) =~= d);
    Some(acc)
}


/// The character of a digit is a digit of that value.
pub proof fn lemma_digit_char(k: int)
    requires
        0 <= k < 10,
    ensures
        is_digit(digit_char(k)),
        digit_value(digit_char(k)) == k,
{
}

/// The decimal digits of `n` are digits, and spell `n`.
pub proof fn lemma_decimal_digits(n: nat)
    ensures
        decimal(n).len() > 0,
        all_digits(decimal(n)),
        digits_value(decimal(n)) == n,
    decreases n,
{
    lemma_digit_char((n % 10) as int);
    if n >= 10 {
        lemma_decimal_digits(n / 10);
        let d = decimal(n);
        assert(d.drop_last() =~= decimal(n / 10));
        assert(d.last() == digit_char((n % 10) as int));
        assert(digits_value(d) == digits_value(decimal(n / 10)) * 10 + (n % 10));
        assert((n / 10) * 10 + n % 10 == n) by (nonlinear_arith);
        assert forall|i: int| 0 <= i < d.len() implies is_digit(#[trigger] d[i]) by {
            if i < d.len() - 1 {
                assert(d[i] == decimal(n / 10)[i]);
            }
        }
    } else {
        let d = decimal(n);
        assert(d.drop_last() =~= Seq::<char>::empty());
        assert(digits_value(Seq::<char>::empty()) == 0);
        assert(digits_value(d) == digit_value(d.last()));
    }
}

/// Parsing the decimal digits of a `u64` gives the number back.
pub proof fn lemma_parse_decimal(n: u64)
    ensures
        parse_u64(decimal(n as nat)) == Some(n),
{
    lemma_decimal_digits(n as nat);
    assert(is_digit(decimal(n as nat)[0]));
}

/// The one-character string of the digit `d`.
fn digit_str(d: u64) -> (r: &'static str)
    requires
        d < 10,
    ensures
        r@ == seq![digit_char(d as int)],
{
    let r = if d == 0 {
        proof { reveal_strlit("0"); }
        "0"
    } else if d == 1 {
        proof { reveal_strlit("1"); }
        "1"
    } else if d == 2 {
        proof { reveal_strlit("2"); }
        "2"
    } else if d == 3 {
        proof { reveal_strlit("3"); }
        "3"
    } else if d == 4 {
        proof { reveal_strlit("4"); }
        "4"
    } else if d == 5 {
        proof { reveal_strlit("5"); }
        "5"
    } else if d == 6 {
        proof { reveal_strlit("6"); }
        "6"
    } else if d == 7 {
        proof { reveal_strlit("7"); }
        "7"
    } else if d == 8 {
        proof { reveal_strlit("8"); }
        "8"
    } else {
        proof { reveal_strlit("9"); }
        "9"
    };
    assert(r@ =~= seq![digit_char(d as int)]);
    r
}

/// Appends the decimal digits of `n` to `out`.
pub fn push_decimal(out: &mut String, n: u64)
    ensures
        final(out)@ == old(out)@ + decimal(n as nat),
    decreases n,
{
    if n >= 10 {
        push_decimal(out, n / 10);
    }
    out.append(digit_str(n % 10));
    proof {
        if n >= 10 {
            assert(decimal(n as nat) == decimal((n / 10) as nat).push(digit_char((n % 10) as int)));
        }
    }
    assert(final(out)@ =~= old(out)@ + decimal(n as nat));
}

/// `n` in decimal, padded with zeros on the left to at least two digits
/// (`{:02}`).
pub open spec fn two_digits(n: nat) -> Seq<char> {
    if n < 10 {
        seq!['0'] + decimal(n)
    } else {
        decimal(n)
    }
}

/// Appends `n` to `out` as `{:02}` writes it.
pub fn push_two_digits(out: &mut String, n: u64)
    ensures
        final(out)@ == old(out)@ + two_digits(n as nat),
{
    if n < 10 {
        proof { reveal_strlit("0"); }
        out.append("0");
    }
    push_decimal(out, n);
    assert(final(out)@ =~= old(out)@ + two_digits(n as nat));
}


/// `s` without its leading white space.
pub open spec fn trim_front(s: Seq<char>) -> Seq<char>
    decreases s.len(),
{
    if s.len() > 0 && is_space(s[0]) {
        trim_front(s.drop_first())
    } else {
        s
    }
}

/// `s` without its trailing white space.
pub open spec fn trim_back(s: Seq<char>) -> Seq<char>
    decreases s.len(),
{
    if s.len() > 0 && is_space(s.last()) {
        trim_back(s.drop_last())
    } else {
        s
    }
}

/// `s` without leading and trailing white space, as `str::trim` gives it.
pub open spec fn trimmed(s: Seq<char>) -> Seq<char> {
    trim_back(trim_front(s))
}

/// `s` without leading and trailing white space.
pub fn trim(s: &str) -> (r: String)
    ensures
        r@ == trimmed(s@),
        // A stretch of `s` with only white space cut from either end, and no
        // white space left at its ends.
        exists|a: int, b: int|
            #![trigger s@.subrange(a, b)]
            {
                &&& 0 <= a <= b <= s@.len()
                &&& r@ == s@.subrange(a, b)
                &&& forall|j: int| 0 <= j < a ==> is_space(#[trigger] s@[j])
                &&& forall|j: int| b <= j < s@.len() ==> is_space(#[trigger] s@[j])
                &&& a < b ==> !is_space(s@[a]) && !is_space(s@[b - 1])
            },
{
    let v = chars_of(s);
    let n = v.len();
    let mut a: usize = 0;
    assert(v@.subrange(0, n as int) =~= v@);
    while a < n && is_space_char(v[a])
        invariant
            a <= n == v@.len(),
            trim_front(v@) == trim_front(v@.subrange(a as int, n as int)),
            forall|j: int| 0 <= j < a ==> is_space(#[trigger] v@[j]),
        decreases n - a,
    {
        assert(v@.subrange(a as int, n as int).drop_first() =~= v@.subrange(a + 1, n as int));
        a = a + 1;
    }
    assert(trim_front(v@.subrange(a as int, n as int)) == v@.subrange(a as int, n as int));
    let mut b: usize = n;
    while b > a && is_space_char(v[b - 1])
        invariant
            a <= b <= n == v@.len(),
            trim_back(v@.subrange(a as int, n as int)) == trim_back(v@.subrange(a as int, b as int)),
            forall|j: int| b <= j < n ==> is_space(#[trigger] v@[j]),
            a < n ==> !is_space(v@[a as int]),
        decreases b - a,
    {
        assert(v@.subrange(a as int, b as int).drop_last() =~= v@.subrange(a as int, b - 1));
        b = b - 1;
    }
    assert(trim_back(v@.subrange(a as int, b as int)) == v@.subrange(a as int, b as int));
    let r = s.substring_char(a, b).to_owned();
    assert(r@ == s@.subrange(a as int, b as int));
    r
}


/// `line_end` from `i` is `k` when no `'\n'` lies in `s[i..k]` and `s[k]` is
/// one, or `k` is the end of `s`.
pub proof fn lemma_line_end_at(s: Seq<char>, i: int, k: int)
    requires
        0 <= i <= k <= s.len(),
        forall|j: int| i <= j < k ==> s[j] != '\n',
        k == s.len() || s[k] == '\n',
    ensures
        line_end(s, i) == k,
    decreases k - i,
{
    if i < k {
        lemma_line_end_at(s, i + 1, k);
    }
}

/// `token_end` from `i` is `k` when no white space lies in `s[i..k]` and
/// `s[k]` is white space, or `k` is the end of `s`.
pub proof fn lemma_token_end_at(s: Seq<char>, i: int, k: int)
    requires
        0 <= i <= k <= s.len(),
        forall|j: int| i <= j < k ==> !is_space(s[j]),
        k == s.len() || is_space(s[k]),
    ensures
        token_end(s, i) == k,
    decreases k - i,
{
    if i < k {
        lemma_token_end_at(s, i + 1, k);
    }
}

/// White space at the front does not change the fields.
pub proof fn lemma_fields_skip_space(s: Seq<char>, i: int, k: int)
    requires
        0 <= i <= k <= s.len(),
        forall|j: int| i <= j < k ==> is_space(s[j]),
    ensures
        fields_from(s, i) == fields_from(s, k),
    decreases k - i,
{
    if i < k {
        lemma_fields_skip_space(s, i + 1, k);
    }
}

/// Decimal digits are neither white space nor line breaks.
pub proof fn lemma_decimal_plain(n: nat)
    ensures
        forall|j: int|
            0 <= j < decimal(n).len() ==> !is_space(#[trigger] decimal(n)[j]) && decimal(n)[j]
                != '\n',
{
    lemma_decimal_digits(n);
    assert forall|j: int| 0 <= j < decimal(n).len() implies !is_space(#[trigger] decimal(n)[j])
        && decimal(n)[j] != '\n' by {
        assert(is_digit(decimal(n)[j]));
    }
}


/// `bytes` without one trailing NUL byte, as a C string buffer ends.
pub open spec fn strip_nul(bytes: Seq<u8>) -> Seq<u8> {
    if bytes.len() > 0 && bytes.last() == 0 {
        bytes.drop_last()
    } else {
        bytes
    }
}

/// Drops one trailing NUL byte from a C string buffer, if it ends with one.
pub fn without_trailing_nul(bytes: Vec<u8>) -> (r: Vec<u8>)
    ensures
        r@ == strip_nul(bytes@),
        bytes@.len() > 0 && bytes@.last() == 0 ==> r@ == bytes@.take(bytes@.len() - 1),
        !(bytes@.len() > 0 && bytes@.last() == 0) ==> r@ == bytes@,
{
    let mut bytes = bytes;
    let n = bytes.len();
    if n > 0 && bytes[n - 1] == 0 {
        bytes.pop();
    }
    bytes
}


/// Two-digit text is two characters below 100, starts with `0` below 10,
/// and reads back as the number.
pub proof fn lemma_two_digits(n: u64)
    ensures
        n < 100 ==> two_digits(n as nat).len() == 2,
        n < 10 ==> two_digits(n as nat)[0] == '0',
        parse_u64(two_digits(n as nat)) == Some(n),
{
    lemma_decimal_digits(n as nat);
    let d = decimal(n as nat);
    if n < 10 {
        let t = seq!['0'] + d;
        assert(t.drop_last() =~= seq!['0']);
        assert(seq!['0'].drop_last() =~= Seq::<char>::empty());
        assert(digits_value(Seq::<char>::empty()) == 0);
        assert(digits_value(seq!['0']) == 0);
        assert(t.last() == d[0]);
        assert(d.drop_last() =~= Seq::<char>::empty());
        assert(digits_value(d) == digit_value(d[0]));
        assert(digits_value(t) == n);
        assert forall|i: int| 0 <= i < t.len() implies is_digit(#[trigger] t[i]) by {
            if i > 0 {
                assert(t[i] == d[i - 1]);
            }
        }
    } else {
        lemma_parse_decimal(n);
        if n < 100 {
            assert(decimal((n / 10) as nat).len() == 1);
        }
    }
}

/// Decimal text has no leading zero.
pub proof fn lemma_decimal_no_leading_zero(n: nat)
    ensures
        n > 0 ==> decimal(n)[0] != '0',
    decreases n,
{
    if n >= 10 {
        lemma_decimal_no_leading_zero(n / 10);
        lemma_decimal_digits(n / 10);
        assert(decimal(n)[0] == decimal(n / 10)[0]);
    }
}

} // verus!
