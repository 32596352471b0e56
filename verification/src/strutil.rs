//! String helpers shared by the validation, expansion and logging code.
//!
//! Everything here works on `&str` / `String` values through their
//! `Seq<char>` views, so the rest of the crate can state its contracts
//! directly over character sequences.

use vstd::prelude::*;
use vstd::string::*;

verus! {

/// `needle` occurs contiguously somewhere inside `hay`.
pub open spec fn is_substring(hay: Seq<char>, needle: Seq<char>) -> bool {
    exists|i: int|
        0 <= i <= hay.len() - needle.len() && #[trigger] hay.subrange(
            i,
            i + needle.len(),
        ) == needle
}

/// Substring search, the engine's replacement for `str::contains`.
pub fn contains_substring(hay: &str, needle: &str) -> (r: bool)
    ensures
        r == is_substring(hay@, needle@),
{
    let hay_len = hay.unicode_len();
    let needle_len = needle.unicode_len();
    if needle_len > hay_len {
        assert(!is_substring(hay@, needle@));
        return false;
    }
    let mut start: usize = 0;
    while start <= hay_len - needle_len
        invariant
            needle_len <= hay_len,
            hay_len == hay@.len(),
            needle_len == needle@.len(),
            start <= hay_len - needle_len + 1,
            forall|s: int|
                0 <= s < start ==> #[trigger] hay@.subrange(s, s + needle@.len()) != needle@,
        decreases hay_len - needle_len - start + 1,
    {
        let mut j: usize = 0;
        let mut mismatch = false;
        while j < needle_len && !mismatch
            invariant
                needle_len <= hay_len,
                hay_len == hay@.len(),
                needle_len == needle@.len(),
                start <= hay_len - needle_len,
                j <= needle_len,
                !mismatch ==> forall|t: int| 0 <= t < j ==> hay@[start + t] == needle@[t],
                mismatch ==> j < needle_len && hay@[start + j] != needle@[j as int],
            decreases needle_len - j + (if mismatch { 0int } else { 1int }),
        {
            if hay.get_char(start + j) != needle.get_char(j) {
                mismatch = true;
            } else {
                j += 1;
            }
        }
        if !mismatch {
            assert(hay@.subrange(start as int, start + needle@.len()) =~= needle@);
            return true;
        }
        assert(hay@.subrange(start as int, start + needle@.len()) != needle@) by {
            assert(hay@.subrange(start as int, start + needle@.len())[j as int] == hay@[start
                + j]);
        }
        start += 1;
    }
    assert forall|i: int| 0 <= i <= hay@.len() - needle@.len() implies #[trigger] hay@.subrange(
        i,
        i + needle@.len(),
    ) != needle@ by {
        assert(i < start);
    }
    false
}

/// What `str::to_lowercase` returns for a given character sequence.
pub uninterp spec fn lower_of(s: Seq<char>) -> Seq<char>;

/// Relies on `str::to_lowercase`: the result depends on the input
/// characters alone.
#[verifier::external_body]
pub fn lowercase(s: &str) -> (r: String)
    ensures
        r@ == lower_of(s@),
{
    s.to_lowercase()
}

/// The characters of `s` as a vector, for in-place processing.
pub fn chars_of(s: &str) -> (r: Vec<char>)
    ensures
        r@ == s@,
{
    let n = s.unicode_len();
    let mut r: Vec<char> = Vec::new();
    let mut i: usize = 0;
    while i < n
        invariant
            n == s@.len(),
            i <= n,
            r@ == s@.subrange(0, i as int),
        decreases n - i,
    {
        r.push(s.get_char(i));
        assert(r@ =~= s@.subrange(0, i + 1));
        i += 1;
    }
    assert(r@ =~= s@);
    r
}

/// Relies on `String`'s `FromIterator<char>` implementation: collecting an
/// iterator of characters yields the string of exactly those characters.
#[verifier::external_body]
pub fn string_of(v: &Vec<char>) -> (r: String)
    ensures
        r@ == v@,
{
    v.iter().collect()
}

/// Appends every character of `xs` to `r`.
pub fn push_all(r: &mut Vec<char>, xs: &Vec<char>)
    ensures
        final(r)@ == old(r)@ + xs@,
{
    let mut j: usize = 0;
    while j < xs.len()
        invariant
            j <= xs@.len(),
            r@ == old(r)@ + xs@.subrange(0, j as int),
        decreases xs@.len() - j,
    {
        r.push(xs[j]);
        assert(r@ =~= old(r)@ + xs@.subrange(0, j + 1));
        j += 1;
    }
    assert(r@ =~= old(r)@ + xs@);
}

/// `from` occurs in `s` starting exactly at position `i`.
pub open spec fn matches_at(s: Seq<char>, from: Seq<char>, i: int) -> bool {
    i + from.len() <= s.len() && s.subrange(i, i + from.len()) == from
}

fn check_match_at(s: &Vec<char>, from: &Vec<char>, i: usize) -> (r: bool)
    requires
        i <= s@.len(),
    ensures
        r == matches_at(s@, from@, i as int),
{
    if from.len() > s.len() - i {
        return false;
    }
    let n = s.len();
    let mut j: usize = 0;
    while j < from.len()
        invariant
            n == s@.len(),
            i + from@.len() <= n,
            j <= from@.len(),
            forall|t: int| 0 <= t < j ==> s@[i + t] == from@[t],
        decreases from@.len() - j,
    {
        if s[i + j] != from[j] {
            assert(s@.subrange(i as int, i + from@.len())[j as int] == s@[i + j]);
            return false;
        }
        j += 1;
    }
    assert(s@.subrange(i as int, i + from@.len()) =~= from@);
    true
}

/// Every occurrence of `from` in `s` replaced by `to`: matches are found
/// left to right, do not overlap, and text introduced by `to` is not
/// scanned again within the same pass.  An empty `from` matches at every
/// position, as it does for `str::replace`.
pub open spec fn replace_all(s: Seq<char>, from: Seq<char>, to: Seq<char>) -> Seq<char>
    decreases s.len(),
{
    if s.len() == 0 {
        if from.len() == 0 {
            to
        } else {
            s
        }
    } else if from.len() == 0 {
        to + seq![s[0]] + replace_all(s.skip(1), from, to)
    } else if matches_at(s, from, 0) {
        to + replace_all(s.skip(from.len() as int), from, to)
    } else {
        seq![s[0]] + replace_all(s.skip(1), from, to)
    }
}

/// Executable counterpart of [`replace_all`], one substitution pass.
pub fn replace_chars(s: &Vec<char>, from: &Vec<char>, to: &Vec<char>) -> (r: Vec<char>)
    ensures
        r@ == replace_all(s@, from@, to@),
{
    let mut r: Vec<char> = Vec::new();
    if from.len() == 0 {
        push_all(&mut r, to);
        let mut i: usize = 0;
        while i < s.len()
            invariant
                i <= s@.len(),
                from@.len() == 0,
                i < s@.len() ==> r@ + seq![s@[i as int]] + replace_all(
                    s@.skip(i + 1),
                    from@,
                    to@,
                ) == replace_all(s@, from@, to@),
                i == s@.len() ==> r@ == replace_all(s@, from@, to@),
            decreases s@.len() - i,
        {
            let ghost prev = r@;
            r.push(s[i]);
            push_all(&mut r, to);
            proof {
                assert(s@.skip(i + 1).len() == s@.len() - i - 1);
                if i + 1 < s@.len() {
                    assert(s@.skip(i + 1)[0] == s@[i + 1]);
                    assert(s@.skip(i + 1).skip(1) =~= s@.skip(i + 2));
                    assert(replace_all(s@.skip(i + 1), from@, to@) == to@ + seq![s@[i + 1]]
                        + replace_all(s@.skip(i + 2), from@, to@));
                    assert(r@ + seq![s@[i + 1]] + replace_all(s@.skip(i + 2), from@, to@)
                        =~= prev + seq![s@[i as int]] + replace_all(s@.skip(i + 1), from@, to@));
                } else {
                    assert(s@.skip(i + 1) =~= Seq::<char>::empty());
                    assert(replace_all(s@.skip(i + 1), from@, to@) == to@);
                    assert(r@ =~= prev + seq![s@[i as int]] + replace_all(
                        s@.skip(i + 1),
                        from@,
                        to@,
                    ));
                }
            }
            i += 1;
        }
        return r;
    }
    let mut i: usize = 0;
    proof {
        assert(s@.skip(0) =~= s@);
        assert(r@ + replace_all(s@, from@, to@) =~= replace_all(s@, from@, to@));
    }
    while i < s.len()
        invariant
            i <= s@.len(),
            from@.len() > 0,
            r@ + replace_all(s@.skip(i as int), from@, to@) == replace_all(s@, from@, to@),
        decreases s@.len() - i,
    {
        let ghost prev = r@;
        let ghost rest = s@.skip(i as int);
        if check_match_at(s, from, i) {
            push_all(&mut r, to);
            proof {
                assert(rest.len() > 0);
                assert(rest.subrange(0, from@.len() as int) =~= s@.subrange(
                    i as int,
                    i + from@.len(),
                ));
                assert(matches_at(rest, from@, 0));
                assert(rest.skip(from@.len() as int) =~= s@.skip(i + from@.len()));
                assert(replace_all(rest, from@, to@) == to@ + replace_all(
                    s@.skip(i + from@.len()),
                    from@,
                    to@,
                ));
                assert(r@ + replace_all(s@.skip(i + from@.len()), from@, to@) =~= prev
                    + replace_all(rest, from@, to@));
            }
            i += from.len();
        } else {
            r.push(s[i]);
            proof {
                assert(rest.len() > 0);
                if matches_at(rest, from@, 0) {
                    assert(rest.subrange(0, from@.len() as int) =~= s@.subrange(
                        i as int,
                        i + from@.len(),
                    ));
                    assert(false);
                }
                assert(rest[0] == s@[i as int]);
                assert(rest.skip(1) =~= s@.skip(i + 1));
                assert(replace_all(rest, from@, to@) == seq![s@[i as int]] + replace_all(
                    s@.skip(i + 1),
                    from@,
                    to@,
                ));
                assert(r@ + replace_all(s@.skip(i + 1), from@, to@) =~= prev + replace_all(
                    rest,
                    from@,
                    to@,
                ));
            }
            i += 1;
        }
    }
    proof {
        assert(s@.skip(i as int) =~= Seq::<char>::empty());
        assert(r@ + replace_all(s@.skip(i as int), from@, to@) =~= r@);
    }
    r
}

/// `c` is a decimal digit.
pub open spec fn is_digit(c: char) -> bool {
    48 <= c as u32 <= 57
}

/// The numeric value of a digit character.
pub open spec fn digit_val(c: char) -> nat {
    (c as u32 - 48) as nat
}

/// The digit character for a value below ten.
pub open spec fn digit_char(d: nat) -> char {
    ((48 + d) as u32) as char
}

/// Ten to the `k`.
pub open spec fn pow10(k: nat) -> nat
    decreases k,
{
    if k == 0 {
        1
    } else {
        10 * pow10((k - 1) as nat)
    }
}

/// The decimal rendering of a natural number, most significant digit
/// first, without leading zeros (zero itself renders as one digit).
pub open spec fn render_nat(n: nat) -> Seq<char>
    decreases n,
{
    if n < 10 {
        seq![digit_char(n)]
    } else {
        render_nat(n / 10).push(digit_char(n % 10))
    }
}

/// The decimal rendering of an integer: a minus sign before the
/// magnitude when negative.
pub open spec fn render_int(n: int) -> Seq<char> {
    if n < 0 {
        seq!['-'] + render_nat((-n) as nat)
    } else {
        render_nat(n as nat)
    }
}

/// The value of a digit string, most significant digit first.
pub open spec fn digits_val(ds: Seq<char>) -> nat
    decreases ds.len(),
{
    if ds.len() == 0 {
        0
    } else {
        digits_val(ds.drop_last()) * 10 + digit_val(ds.last())
    }
}

/// A rendered natural number is a non-empty digit string whose value is
/// the number itself.
pub proof fn lemma_render_nat_digits(n: nat)
    ensures
        render_nat(n).len() >= 1,
        forall|i: int| 0 <= i < render_nat(n).len() ==> is_digit(#[trigger] render_nat(n)[i]),
        digits_val(render_nat(n)) == n,
    decreases n,
{
    if n < 10 {
        assert(render_nat(n) =~= seq![digit_char(n)]);
        assert(digit_val(digit_char(n)) == n);
        assert(render_nat(n).drop_last() =~= Seq::<char>::empty());
        assert(digits_val(Seq::<char>::empty()) == 0);
        assert(render_nat(n).last() == digit_char(n));
        assert(digits_val(render_nat(n)) == digits_val(render_nat(n).drop_last()) * 10
            + digit_val(render_nat(n).last()));
    } else {
        lemma_render_nat_digits(n / 10);
        let prefix = render_nat(n / 10);
        assert(render_nat(n) == prefix.push(digit_char(n % 10)));
        assert(render_nat(n).drop_last() =~= prefix);
        assert(render_nat(n).last() == digit_char(n % 10));
        assert(digit_val(digit_char(n % 10)) == n % 10);
        assert(digits_val(render_nat(n)) == (n / 10) * 10 + n % 10);
        assert((n / 10) * 10 + n % 10 == n) by (nonlinear_arith);
        assert(forall|i: int|
            0 <= i < prefix.len() ==> is_digit(#[trigger] render_nat(n)[i]));
    }
}

/// Splitting the leading digit off a digit string.
pub proof fn lemma_digits_val_first(d: char, t: Seq<char>)
    ensures
        digits_val(seq![d] + t) == digit_val(d) * pow10(t.len()) + digits_val(t),
    decreases t.len(),
{
    if t.len() == 0 {
        assert(seq![d] + t =~= seq![d]);
        assert((seq![d]).drop_last() =~= Seq::<char>::empty());
        assert(digits_val(Seq::<char>::empty()) == 0);
        assert((seq![d]).last() == d);
        assert(digits_val(seq![d]) == digits_val((seq![d]).drop_last()) * 10 + digit_val(
            (seq![d]).last(),
        ));
        assert(pow10(0) == 1);
    } else {
        let t2 = t.drop_last();
        let x = t.last();
        lemma_digits_val_first(d, t2);
        assert(seq![d] + t =~= (seq![d] + t2).push(x));
        assert((seq![d] + t).drop_last() =~= seq![d] + t2);
        assert(digits_val(seq![d] + t) == digits_val(seq![d] + t2) * 10 + digit_val(x));
        assert((digit_val(d) * pow10(t2.len()) + digits_val(t2)) * 10 + digit_val(x) == digit_val(
            d,
        ) * (10 * pow10(t2.len())) + (digits_val(t2) * 10 + digit_val(x))) by (nonlinear_arith);
        assert(pow10(t.len()) == 10 * pow10(t2.len()));
        assert(digits_val(t) == digits_val(t2) * 10 + digit_val(x));
    }
}

/// A forward scan over digits, accumulating the value read so far.
pub open spec fn parse_digits_from(s: Seq<char>, i: int, acc: nat) -> (nat, int)
    decreases s.len() - i,
{
    if 0 <= i < s.len() && is_digit(s[i]) {
        parse_digits_from(s, i + 1, acc * 10 + digit_val(s[i]))
    } else {
        (acc, i)
    }
}

/// Reads a run of at least one digit starting at `i`; the value must not
/// exceed `bound`.
pub open spec fn parse_nat(s: Seq<char>, i: int, bound: nat) -> Option<(nat, int)> {
    if 0 <= i < s.len() && is_digit(s[i]) {
        let (v, j) = parse_digits_from(s, i, 0);
        if v <= bound {
            Some((v, j))
        } else {
            None
        }
    } else {
        None
    }
}

/// The scan never shrinks the accumulator and never runs off the string.
pub proof fn lemma_parse_digits_bounds(s: Seq<char>, i: int, acc: nat)
    requires
        0 <= i <= s.len(),
    ensures
        parse_digits_from(s, i, acc).0 >= acc,
        i <= parse_digits_from(s, i, acc).1 <= s.len(),
    decreases s.len() - i,
{
    if i < s.len() && is_digit(s[i]) {
        lemma_parse_digits_bounds(s, i + 1, acc * 10 + digit_val(s[i]));
        assert(acc * 10 + digit_val(s[i]) >= acc) by (nonlinear_arith);
    }
}

/// Scanning an exact digit string delimited on the right gives its value
/// under the accumulator.
pub proof fn lemma_parse_digits_exact(s: Seq<char>, i: int, acc: nat, ds: Seq<char>)
    requires
        0 <= i,
        i + ds.len() <= s.len(),
        forall|k: int| 0 <= k < ds.len() ==> is_digit(#[trigger] ds[k]),
        s.subrange(i, i + ds.len()) == ds,
        i + ds.len() == s.len() || !is_digit(s[i + ds.len()]),
    ensures
        parse_digits_from(s, i, acc) == (
            acc * pow10(ds.len()) + digits_val(ds),
            i + ds.len(),
        ),
    decreases ds.len(),
{
    if ds.len() == 0 {
        if i < s.len() {
            assert(!is_digit(s[i]));
        }
        assert(pow10(0) == 1);
        assert(digits_val(ds) == 0);
        assert(acc * 1 == acc);
    } else {
        let d = ds[0];
        let t = ds.drop_first();
        assert(s[i] == s.subrange(i, i + ds.len())[0]);
        assert(is_digit(s[i]));
        assert(s.subrange(i + 1, i + 1 + t.len()) =~= t) by {
            assert forall|k: int| 0 <= k < t.len() implies #[trigger] s.subrange(
                i + 1,
                i + 1 + t.len(),
            )[k] == t[k] by {
                assert(s.subrange(i, i + ds.len())[k + 1] == ds[k + 1]);
            }
        }
        lemma_parse_digits_exact(s, i + 1, acc * 10 + digit_val(d), t);
        lemma_digits_val_first(d, t);
        assert(ds =~= seq![d] + t);
        assert((acc * 10 + digit_val(d)) * pow10(t.len()) + digits_val(t) == acc * (10 * pow10(
            t.len(),
        )) + (digit_val(d) * pow10(t.len()) + digits_val(t))) by (nonlinear_arith);
        assert(pow10(ds.len()) == 10 * pow10(t.len()));
    }
}

/// Reading back a rendered natural number that is delimited on the right.
pub proof fn lemma_parse_nat_render(s: Seq<char>, i: int, n: nat, bound: nat)
    requires
        0 <= i,
        i + render_nat(n).len() <= s.len(),
        s.subrange(i, i + render_nat(n).len()) == render_nat(n),
        i + render_nat(n).len() == s.len() || !is_digit(s[i + render_nat(n).len()]),
        n <= bound,
    ensures
        parse_nat(s, i, bound) == Some((n, i + render_nat(n).len())),
{
    lemma_render_nat_digits(n);
    lemma_parse_digits_exact(s, i, 0, render_nat(n));
    assert(s[i] == s.subrange(i, i + render_nat(n).len())[0]);
    assert(is_digit(s[i]));
    assert(0 * pow10(render_nat(n).len()) == 0) by (nonlinear_arith);
}

/// Appends the decimal rendering of `n`.
pub fn push_nat(out: &mut Vec<char>, n: u64)
    ensures
        final(out)@ == old(out)@ + render_nat(n as nat),
    decreases n,
{
    if n < 10 {
        out.push((48 + n as u8) as char);
        proof {
            assert(out@ =~= old(out)@ + render_nat(n as nat));
        }
    } else {
        push_nat(out, n / 10);
        out.push((48 + (n % 10) as u8) as char);
        proof {
            assert(out@ =~= old(out)@ + render_nat(n as nat));
        }
    }
}

/// Appends the decimal rendering of `n`, sign included.
pub fn push_int(out: &mut Vec<char>, n: i64)
    ensures
        final(out)@ == old(out)@ + render_int(n as int),
{
    if n < 0 {
        out.push('-');
        let magnitude: u64 = ((-(n + 1)) as u64) + 1;
        proof {
            assert(magnitude == -(n as int));
        }
        push_nat(out, magnitude);
        proof {
            assert(out@ =~= old(out)@ + render_int(n as int));
        }
    } else {
        push_nat(out, n as u64);
    }
}

/// The decimal rendering of an integer as a string.
pub fn int_to_string(n: i64) -> (r: String)
    ensures
        r@ == render_int(n as int),
{
    let mut out: Vec<char> = Vec::new();
    push_int(&mut out, n);
    string_of(&out)
}

/// Reads a digit run whose value is at most `bound`, as [`parse_nat`]
/// does.
pub fn parse_nat_chars(s: &Vec<char>, i: usize, bound: u64) -> (r: Option<(u64, usize)>)
    requires
        i <= s@.len(),
    ensures
        match r {
            Some(v) => parse_nat(s@, i as int, bound as nat) == Some((v.0 as nat, v.1 as int))
                && i <= v.1 <= s@.len(),
            None => parse_nat(s@, i as int, bound as nat) is None,
        },
{
    if i == s.len() || (s[i] as u32) < 48 || (s[i] as u32) > 57 {
        return None;
    }
    let mut j: usize = i;
    let mut acc: u64 = 0;
    while j < s.len() && (s[j] as u32) >= 48 && (s[j] as u32) <= 57
        invariant
            i <= j <= s@.len(),
            acc <= bound,
            parse_digits_from(s@, i as int, 0) == parse_digits_from(s@, j as int, acc as nat),
        decreases s@.len() - j,
    {
        let d: u64 = (s[j] as u32 as u64) - 48;
        proof {
            assert(is_digit(s@[j as int]));
            assert(d == digit_val(s@[j as int]));
        }
        let next: u128 = acc as u128 * 10 + d as u128;
        if next > bound as u128 {
            proof {
                lemma_parse_digits_bounds(s@, j + 1, acc as nat * 10 + d as nat);
            }
            return None;
        }
        acc = next as u64;
        j += 1;
    }
    proof {
        if j < s@.len() {
            assert(!is_digit(s@[j as int]));
        }
        assert(parse_digits_from(s@, j as int, acc as nat) == (acc as nat, j as int));
    }
    Some((acc, j))
}

} // verus!
