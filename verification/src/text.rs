//! Character-level helpers: zero-padded decimal rendering and
//! left-to-right, non-overlapping substring replacement.

use vstd::prelude::*;

verus! {

/// The character sequences held by a sequence of strings.
pub open spec fn string_views(v: Seq<String>) -> Seq<Seq<char>> {
    v.map_values(|s: String| s@)
}

/// The character of decimal digit `d` (for `d < 10`).
pub open spec fn digit_char(d: nat) -> char {
    (48 + d) as char
}

/// The shortest decimal rendering of `n`, most significant digit first.
pub open spec fn decimal_digits(n: nat) -> Seq<char>
    decreases n,
{
    if n < 10 {
        seq![digit_char(n)]
    } else {
        decimal_digits(n / 10).push(digit_char(n % 10))
    }
}

/// The rendering of `n` left-padded with `'0'` up to `width` characters
/// (the text of `format!("{n:0width$}")`).
pub open spec fn zero_padded(n: nat, width: nat) -> Seq<char> {
    let d = decimal_digits(n);
    if d.len() >= width {
        d
    } else {
        Seq::new((width - d.len()) as nat, |i: int| '0') + d
    }
}

/// Calls `String::push`; the contract claims that the string afterwards
/// holds its former characters followed by `c`.
#[verifier::external_body]
pub(crate) fn push_char(s: &mut String, c: char)
    ensures
        final(s)@ == old(s)@.push(c),
{
    s.push(c);
}

fn digit(d: usize) -> (c: char)
    requires
        d < 10,
    ensures
        c == digit_char(d as nat),
{
    match d {
        0 => '0',
        1 => '1',
        2 => '2',
        3 => '3',
        4 => '4',
        5 => '5',
        6 => '6',
        7 => '7',
        8 => '8',
        _ => '9',
    }
}

fn push_decimal(out: &mut String, n: usize)
    ensures
        final(out)@ == old(out)@ + decimal_digits(n as nat),
    decreases n,
{
    if n >= 10 {
        push_decimal(out, n / 10);
    }
    let c = digit(n % 10);
    push_char(out, c);
}


fn decimal_len(n: usize) -> (len: usize)
    ensures
        len == decimal_digits(n as nat).len(),
        1 <= len <= 20,
    decreases n,
{
    if n >= 10 {
        let l = decimal_len(n / 10);
        assert(l < 20) by {
            lemma_decimal_len_bound((n / 10) as nat);
        }
        l + 1
    } else {
        1
    }
}

proof fn lemma_decimal_len_bound(n: nat)
    requires
        n <= usize::MAX / 10,
    ensures
        decimal_digits(n).len() < 20,
    decreases n,
{
    assert(pow10(19) == 10000000000000000000nat) by {
        reveal_with_fuel(pow10, 20);
    }
    lemma_decimal_len_pow(n, 18);
}

/// `decimal_digits(n)` has at most `k + 1` digits when `n < 10^(k+1)`.
proof fn lemma_decimal_len_pow(n: nat, k: nat)
    requires
        n < pow10(k + 1),
    ensures
        decimal_digits(n).len() <= k + 1,
    decreases n,
{
    if n >= 10 {
        if k == 0 {
            assert(pow10(1) == 10) by {
                reveal_with_fuel(pow10, 2);
            }
        } else {
            assert(pow10(k + 1) == 10 * pow10(k));
            lemma_decimal_len_pow(n / 10, (k - 1) as nat);
        }
    }
}

/// `10^k`.
pub open spec fn pow10(k: nat) -> nat
    decreases k,
{
    if k == 0 {
        1
    } else {
        10 * pow10((k - 1) as nat)
    }
}

/// Renders `n` in decimal, left-padded with zeros to `width` characters.
pub fn zero_padded_decimal(n: usize, width: usize) -> (s: String)
    ensures
        s@ == zero_padded(n as nat, width as nat),
{
    let mut s = String::new();
    let len = decimal_len(n);
    let mut i: usize = len;
    while i < width
        invariant
            len <= i <= width || (i == len && len > width),
            s@ == Seq::new((i - len) as nat, |j: int| '0'),
        decreases width - i,
    {
        push_char(&mut s, '0');
        i = i + 1;
        assert(s@ =~= Seq::new((i - len) as nat, |j: int| '0'));
    }
    push_decimal(&mut s, n);
    assert(s@ =~= zero_padded(n as nat, width as nat));
    s
}


/// `s` with every occurrence of `pat` replaced by `rep`, scanning left to
/// right and never replacing overlapping occurrences (the result of
/// `str::replace` for a non-empty `pat`; an empty `pat` leaves `s` as it is).
pub open spec fn replace_all(s: Seq<char>, pat: Seq<char>, rep: Seq<char>) -> Seq<char>
    decreases s.len(),
{
    if s.len() == 0 {
        s
    } else if pat.len() > 0 && s.len() >= pat.len() && s.take(pat.len() as int) == pat {
        rep + replace_all(s.skip(pat.len() as int), pat, rep)
    } else {
        seq![s[0]] + replace_all(s.skip(1), pat, rep)
    }
}

/// The characters of `s`, in order.
pub fn chars_of(s: &str) -> (v: Vec<char>)
    ensures
        v@ == s@,
{
    let n = s.unicode_len();
    let mut v: Vec<char> = Vec::new();
    for i in 0..n
        invariant
            n == s@.len(),
            v@ == s@.take(i as int),
    {
        v.push(s.get_char(i));
        assert(v@ =~= s@.take(i + 1));
    }
    assert(v@ =~= s@);
    v
}

/// The string made of the characters of `v`.
pub fn string_of(v: &Vec<char>) -> (s: String)
    ensures
        s@ == v@,
{
    let mut s = String::new();
    for i in 0..v.len()
        invariant
            s@ == v@.take(i as int),
    {
        push_char(&mut s, v[i]);
        assert(s@ =~= v@.take(i + 1));
    }
    assert(s@ =~= v@);
    s
}

fn matches_at(s: &Vec<char>, pat: &Vec<char>, i: usize) -> (b: bool)
    requires
        i + pat@.len() <= s@.len(),
    ensures
        b == (s@.subrange(i as int, i + pat@.len()) == pat@),
{
    let n = s.len();
    let mut k: usize = 0;
    while k < pat.len()
        invariant
            n == s@.len(),
            i + pat@.len() <= s@.len(),
            k <= pat@.len(),
            s@.subrange(i as int, i + k) == pat@.take(k as int),
        decreases pat@.len() - k,
    {
        if s[i + k] != pat[k] {
            assert(s@.subrange(i as int, i + pat@.len())[k as int] != pat@[k as int]);
            return false;
        }
        k = k + 1;
        assert(s@.subrange(i as int, i + k) =~= pat@.take(k as int));
    }
    assert(pat@.take(k as int) =~= pat@);
    true
}

/// Replaces every occurrence of `pat` in `s` by `rep`, as `str::replace` does.
pub fn replace_chars(s: &Vec<char>, pat: &Vec<char>, rep: &Vec<char>) -> (r: Vec<char>)
    requires
        pat@.len() > 0,
    ensures
        r@ == replace_all(s@, pat@, rep@),
{
    let mut r: Vec<char> = Vec::new();
    let mut i: usize = 0;
    assert(s@.skip(0) =~= s@);
    assert(r@ + replace_all(s@, pat@, rep@) =~= replace_all(s@, pat@, rep@));
    while i < s.len()
        invariant
            i <= s@.len(),
            pat@.len() > 0,
            replace_all(s@, pat@, rep@) == r@ + replace_all(s@.skip(i as int), pat@, rep@),
        decreases s@.len() - i,
    {
        let ghost t = s@.skip(i as int);
        if pat.len() <= s.len() - i && matches_at(s, pat, i) {
            assert(t.take(pat@.len() as int) =~= s@.subrange(i as int, i + pat@.len()));
            assert(t.skip(pat@.len() as int) =~= s@.skip(i + pat@.len()));
            let ghost r0 = r@;
            for k in 0..rep.len()
                invariant
                    r@ == r0 + rep@.take(k as int),
            {
                r.push(rep[k]);
                assert(r@ =~= r0 + rep@.take(k + 1));
            }
            assert(rep@.take(rep@.len() as int) =~= rep@);
            i = i + pat.len();
        } else {
            proof {
                if pat@.len() <= t.len() {
                    assert(t.take(pat@.len() as int) =~= s@.subrange(i as int, i + pat@.len()));
                }
                assert(t.skip(1) =~= s@.skip(i + 1));
            }
            r.push(s[i]);
            i = i + 1;
        }
    }
    assert(s@.skip(i as int) =~= Seq::<char>::empty());
    assert(r@ =~= r@ + Seq::<char>::empty());
    r
}

/// `s` with every occurrence of the non-empty `pat` replaced by `rep`.
pub fn replace_str(s: &str, pat: &str, rep: &str) -> (r: String)
    requires
        pat@.len() > 0,
    ensures
        r@ == replace_all(s@, pat@, rep@),
{
    let sv = chars_of(s);
    let pv = chars_of(pat);
    let rv = chars_of(rep);
    let out = replace_chars(&sv, &pv, &rv);
    string_of(&out)
}


/// The number that a sequence of decimal digits writes.
pub open spec fn decimal_value(s: Seq<char>) -> nat
    decreases s.len(),
{
    if s.len() == 0 {
        0
    } else {
        decimal_value(s.drop_last()) * 10 + ((s.last() as int) - 48) as nat
    }
}

/// Every character of `s` is a decimal digit.
pub open spec fn all_digits(s: Seq<char>) -> bool {
    forall|i: int| 0 <= i < s.len() ==> '0' <= #[trigger] s[i] <= '9'
}

proof fn lemma_decimal_digits_roundtrip(n: nat)
    ensures
        decimal_value(decimal_digits(n)) == n,
        all_digits(decimal_digits(n)),
        decimal_digits(n).len() >= 1,
    decreases n,
{
    assert(digit_char(n % 10) as int == 48 + n % 10);
    if n >= 10 {
        lemma_decimal_digits_roundtrip(n / 10);
        let d = decimal_digits(n);
        assert(d.drop_last() =~= decimal_digits(n / 10));
        assert(d.last() == digit_char(n % 10));
        assert(decimal_value(d) == decimal_value(decimal_digits(n / 10)) * 10 + n % 10);
        assert((n / 10) * 10 + n % 10 == n) by (nonlinear_arith);
    } else {
        let d = decimal_digits(n);
        assert(d.drop_last() =~= Seq::<char>::empty());
        assert(decimal_value(d.drop_last()) == 0);
        assert(d.last() == digit_char(n));
    }
}

proof fn lemma_leading_zeros(k: nat, d: Seq<char>)
    ensures
        decimal_value(Seq::new(k, |i: int| '0') + d) == decimal_value(d),
    decreases d.len() + k,
{
    let z = Seq::new(k, |i: int| '0');
    if d.len() == 0 {
        assert(z + d =~= z);
        if k > 0 {
            assert(z.drop_last() =~= Seq::new((k - 1) as nat, |i: int| '0'));
            lemma_leading_zeros((k - 1) as nat, d);
            assert(Seq::new((k - 1) as nat, |i: int| '0') + d =~= z.drop_last());
        }
    } else {
        assert((z + d).drop_last() =~= z + d.drop_last());
        lemma_leading_zeros(k, d.drop_last());
    }
}

/// Law: the zero-padded rendering of `n` is made of decimal digits only,
/// is `width` characters long when `n` has no more digits than that, and
/// reads back as `n`.
pub proof fn lemma_zero_padded_roundtrip(n: nat, width: nat)
    ensures
        decimal_value(zero_padded(n, width)) == n,
        all_digits(zero_padded(n, width)),
        zero_padded(n, width).len() >= width,
        n < pow10(width) && width > 0 ==> zero_padded(n, width).len() == width,
{
    lemma_decimal_digits_roundtrip(n);
    let d = decimal_digits(n);
    if d.len() < width {
        lemma_leading_zeros((width - d.len()) as nat, d);
        let p = zero_padded(n, width);
        assert forall|i: int| 0 <= i < p.len() implies '0' <= #[trigger] p[i] <= '9' by {
            if i >= width - d.len() {
                assert(p[i] == d[i - (width - d.len())]);
            }
        }
    } else if n < pow10(width) && width > 0 {
        lemma_decimal_len_pow(n, (width - 1) as nat);
    }
}

/// Whether `pat` occurs in `s` at some position.
pub open spec fn occurs_in(pat: Seq<char>, s: Seq<char>) -> bool {
    exists|i: int| 0 <= i && i + pat.len() <= s.len() && #[trigger] s.subrange(i, i + pat.len()) == pat
}

/// Law: replacing a pattern that does not occur leaves the text unchanged.
pub proof fn lemma_replace_absent(s: Seq<char>, pat: Seq<char>, rep: Seq<char>)
    requires
        !occurs_in(pat, s),
    ensures
        replace_all(s, pat, rep) == s,
    decreases s.len(),
{
    if s.len() > 0 {
        if pat.len() > 0 && s.len() >= pat.len() {
            assert(s.subrange(0, 0int + pat.len()) != pat);
            assert(s.take(pat.len() as int) =~= s.subrange(0, 0int + pat.len()));
        }
        let t = s.skip(1);
        assert forall|i: int| 0 <= i && i + pat.len() <= t.len() implies #[trigger] t.subrange(
            i,
            i + pat.len(),
        ) != pat by {
            assert(t.subrange(i, i + pat.len()) =~= s.subrange(i + 1, i + 1 + pat.len()));
        }
        lemma_replace_absent(t, pat, rep);
        assert(seq![s[0]] + t =~= s);
    }
}

/// The number of replacements that `replace_all(s, pat, _)` makes.
pub open spec fn replace_count(s: Seq<char>, pat: Seq<char>) -> nat
    decreases s.len(),
{
    if s.len() == 0 {
        0
    } else if pat.len() > 0 && s.len() >= pat.len() && s.take(pat.len() as int) == pat {
        1 + replace_count(s.skip(pat.len() as int), pat)
    } else {
        replace_count(s.skip(1), pat)
    }
}

proof fn lemma_replace_len(s: Seq<char>, pat: Seq<char>, rep: Seq<char>)
    ensures
        replace_all(s, pat, rep).len() == s.len() + replace_count(s, pat) * (rep.len() - pat.len()),
    decreases s.len(),
{
    if s.len() > 0 {
        if pat.len() > 0 && s.len() >= pat.len() && s.take(pat.len() as int) == pat {
            lemma_replace_len(s.skip(pat.len() as int), pat, rep);
            let k = replace_count(s.skip(pat.len() as int), pat);
            let d: int = rep.len() - pat.len();
            assert((k + 1) * d == k * d + d) by (nonlinear_arith);
            assert(replace_count(s, pat) == k + 1);
            assert(replace_all(s, pat, rep).len() == rep.len() + replace_all(
                s.skip(pat.len() as int),
                pat,
                rep,
            ).len());
        } else {
            lemma_replace_len(s.skip(1), pat, rep);
            assert(replace_count(s, pat) == replace_count(s.skip(1), pat));
            assert(replace_all(s, pat, rep).len() == 1 + replace_all(s.skip(1), pat, rep).len());
        }
    } else {
        assert(replace_count(s, pat) == 0);
        assert(0 * (rep.len() - pat.len()) == 0);
    }
}

proof fn lemma_occurs_counted(s: Seq<char>, pat: Seq<char>)
    requires
        pat.len() > 0,
        occurs_in(pat, s),
    ensures
        replace_count(s, pat) >= 1,
    decreases s.len(),
{
    let i = choose|i: int| 0 <= i && i + pat.len() <= s.len() && #[trigger] s.subrange(i, i + pat.len()) == pat;
    if !(s.len() >= pat.len() && s.take(pat.len() as int) == pat) {
        if i == 0 {
            assert(s.take(pat.len() as int) =~= s.subrange(0, 0int + pat.len()));
        }
        let t = s.skip(1);
        assert(t.subrange(i - 1, i - 1 + pat.len()) =~= s.subrange(i, i + pat.len()));
        lemma_occurs_counted(t, pat);
    }
}

proof fn lemma_replace_distinct_same_len(s: Seq<char>, pat: Seq<char>, r1: Seq<char>, r2: Seq<char>)
    requires
        pat.len() > 0,
        replace_count(s, pat) >= 1,
        r1.len() == r2.len(),
        r1 != r2,
    ensures
        replace_all(s, pat, r1) != replace_all(s, pat, r2),
    decreases s.len(),
{
    let (x1, x2) = (replace_all(s, pat, r1), replace_all(s, pat, r2));
    if s.len() >= pat.len() && s.take(pat.len() as int) == pat {
        assert(!(r1 =~= r2));
        let k = choose|k: int| 0 <= k < r1.len() && r1[k] != r2[k];
        assert(x1[k] == r1[k] && x2[k] == r2[k]);
    } else {
        lemma_replace_distinct_same_len(s.skip(1), pat, r1, r2);
        if x1 == x2 {
            assert(x1.drop_first() =~= replace_all(s.skip(1), pat, r1));
            assert(x2.drop_first() =~= replace_all(s.skip(1), pat, r2));
        }
    }
}

/// Law: where the pattern occurs, replacing it by two different texts
/// gives two different results.
pub proof fn lemma_replace_distinct(s: Seq<char>, pat: Seq<char>, r1: Seq<char>, r2: Seq<char>)
    requires
        pat.len() > 0,
        occurs_in(pat, s),
        r1 != r2,
    ensures
        replace_all(s, pat, r1) != replace_all(s, pat, r2),
{
    lemma_occurs_counted(s, pat);
    if r1.len() == r2.len() {
        lemma_replace_distinct_same_len(s, pat, r1, r2);
    } else {
        lemma_replace_len(s, pat, r1);
        lemma_replace_len(s, pat, r2);
        let k = replace_count(s, pat);
        let (d1, d2) = (r1.len() - pat.len(), r2.len() - pat.len());
        assert(k >= 1 && d1 != d2 ==> k * d1 != k * d2) by (nonlinear_arith);
    }
}

/// Law: a text that starts with the pattern starts, once replaced, with the
/// replacement, and the rest is replaced in the same way; every occurrence
/// met from the left is replaced, not only the first.
pub proof fn lemma_replace_leading_pattern(s: Seq<char>, pat: Seq<char>, rep: Seq<char>)
    requires
        pat.len() > 0,
    ensures
        replace_all(pat + s, pat, rep) == rep + replace_all(s, pat, rep),
        replace_all(pat + pat, pat, rep) == rep + rep,
{
    assert((pat + s).take(pat.len() as int) =~= pat);
    assert((pat + s).skip(pat.len() as int) =~= s);
    let e = Seq::<char>::empty();
    assert(pat + e =~= pat);
    assert((pat + e).take(pat.len() as int) =~= pat);
    assert((pat + e).skip(pat.len() as int) =~= e);
    assert(replace_all(pat, pat, rep) == rep + replace_all(e, pat, rep));
    assert(rep + e =~= rep);
    assert((pat + pat).take(pat.len() as int) =~= pat);
    assert((pat + pat).skip(pat.len() as int) =~= pat);
    assert(replace_all(pat + pat, pat, rep) == rep + replace_all(pat, pat, rep));
}

/// Law: different numbers have different zero-padded renderings.
pub proof fn lemma_zero_padded_distinct(n: nat, m: nat, width: nat)
    requires
        n != m,
    ensures
        zero_padded(n, width) != zero_padded(m, width),
{
    lemma_zero_padded_roundtrip(n, width);
    lemma_zero_padded_roundtrip(m, width);
}

} // verus!
