//! Text helpers over characters and bytes: the characters of a string,
//! pattern search, literal replacement and decimal numerals.

use vstd::prelude::*;
use vstd::string::StringExecFns;

verus! {

/// `String::push` appends the given character to the end of the string.
pub assume_specification[ String::push ](s: &mut String, c: char)
    ensures
        final(s)@ == old(s)@.push(c),
;

/// `pat` occurs in `s` starting at position `at`.
pub open spec fn occurs_at<T>(s: Seq<T>, pat: Seq<T>, at: int) -> bool {
    &&& 0 <= at
    &&& at + pat.len() <= s.len()
    &&& s.subrange(at, at + pat.len()) == pat
}

/// `pat` occurs somewhere in `s`.
pub open spec fn occurs_in<T>(s: Seq<T>, pat: Seq<T>) -> bool {
    exists|at: int| occurs_at(s, pat, at)
}

/// `text` with every occurrence of `from` replaced by `to`. The text is read
/// from left to right and occurrences do not overlap. An empty `from` occurs
/// before every character and at the end.
pub open spec fn replace_all(text: Seq<char>, from: Seq<char>, to: Seq<char>) -> Seq<char>
    decreases text.len(),
{
    if text.len() == 0 {
        if from.len() == 0 {
            to
        } else {
            text
        }
    } else if from.len() == 0 {
        to + seq![text[0]] + replace_all(text.skip(1), from, to)
    } else if occurs_at(text, from, 0) {
        to + replace_all(text.skip(from.len() as int), from, to)
    } else {
        seq![text[0]] + replace_all(text.skip(1), from, to)
    }
}

/// The decimal numeral of `n` as ASCII digits, without leading zeros.
pub open spec fn decimal_digits(n: nat) -> Seq<u8>
    decreases n,
{
    if n < 10 {
        seq![(48 + n) as u8]
    } else {
        decimal_digits(n / 10).push((48 + n % 10) as u8)
    }
}

/// The number that the decimal digits `digits` denote.
pub open spec fn decimal_value(digits: Seq<u8>) -> nat
    decreases digits.len(),
{
    if digits.len() == 0 {
        0
    } else {
        (decimal_value(digits.drop_last()) * 10 + (digits.last() - 48)) as nat
    }
}

/// The decimal numeral of a number is made of ASCII digits, has no leading
/// zero unless the number is zero, and denotes the number.
pub proof fn law_decimal_digits_denote(n: nat)
    ensures
        decimal_digits(n).len() >= 1,
        forall|i: int|
            0 <= i < decimal_digits(n).len() ==> 48 <= #[trigger] decimal_digits(n)[i] <= 57,
        n > 0 ==> decimal_digits(n)[0] != 48,
        decimal_value(decimal_digits(n)) == n,
    decreases n,
{
    let digits = decimal_digits(n);
    if n < 10 {
        assert(digits.drop_last() =~= Seq::<u8>::empty());
        assert(decimal_value(digits.drop_last()) == 0);
        assert(digits.last() == 48 + n);
    } else {
        law_decimal_digits_denote(n / 10);
        let front = decimal_digits(n / 10);
        assert(digits.drop_last() =~= front);
        assert(digits.last() == 48 + n % 10);
        assert(digits[0] == front[0]);
        assert(n == n / 10 * 10 + n % 10);
    }
}

/// A text in which `from` does not occur is not changed by the replacement.
pub proof fn law_replace_without_occurrence(text: Seq<char>, from: Seq<char>, to: Seq<char>)
    requires
        !occurs_in(text, from),
    ensures
        replace_all(text, from, to) == text,
    decreases text.len(),
{
    assert(from.len() > 0) by {
        if from.len() == 0 {
            assert(text.subrange(0, 0) =~= from);
            assert(occurs_at(text, from, 0));
        }
    }
    if text.len() > 0 {
        let rest = text.skip(1);
        assert(!occurs_at(text, from, 0));
        assert forall|at: int| !occurs_at(rest, from, at) by {
            if occurs_at(rest, from, at) {
                assert(text.subrange(at + 1, at + 1 + from.len()) == rest.subrange(
                    at,
                    at + from.len(),
                ));
                assert(occurs_at(text, from, at + 1));
            }
        }
        law_replace_without_occurrence(rest, from, to);
        assert(seq![text[0]] + rest == text);
    }
}

/// The replacement keeps what stands before the first occurrence of `from`,
/// puts `to` in its place, and goes on behind it: every occurrence is
/// replaced, from left to right.
pub proof fn law_replace_first_occurrence(
    text: Seq<char>,
    from: Seq<char>,
    to: Seq<char>,
    at: int,
)
    requires
        from.len() > 0,
        occurs_at(text, from, at),
        forall|k: int| 0 <= k < at ==> !occurs_at(text, from, k),
    ensures
        replace_all(text, from, to) == text.take(at) + to + replace_all(
            text.skip(at + from.len()),
            from,
            to,
        ),
    decreases at,
{
    if at == 0 {
        assert(text.take(0) + to == to);
    } else {
        let rest = text.skip(1);
        assert(!occurs_at(text, from, 0));
        assert(rest.subrange(at - 1, at - 1 + from.len()) == text.subrange(at, at + from.len()));
        assert forall|k: int| 0 <= k < at - 1 implies !occurs_at(rest, from, k) by {
            if occurs_at(rest, from, k) {
                assert(text.subrange(k + 1, k + 1 + from.len()) == rest.subrange(
                    k,
                    k + from.len(),
                ));
                assert(occurs_at(text, from, k + 1));
            }
        }
        law_replace_first_occurrence(rest, from, to, at - 1);
        assert(rest.skip(at - 1 + from.len()) == text.skip(at + from.len()));
        assert(seq![text[0]] + rest.take(at - 1) == text.take(at));
        assert(seq![text[0]] + (rest.take(at - 1) + to + replace_all(
            text.skip(at + from.len()),
            from,
            to,
        )) == text.take(at) + to + replace_all(text.skip(at + from.len()), from, to));
    }
}

/// The characters of `text`, in order.
pub fn chars_of(text: &str) -> (chars: Vec<char>)
    ensures
        chars@ == text@,
{
    let mut chars: Vec<char> = Vec::new();
    proof {
        broadcast use vstd::string::axiom_spec_iter;

    }
    for c in it: text.chars()
        invariant
            it.seq() == text@,
            chars@ == text@.take(it.index() as int),
    {
        chars.push(c);
    }
    chars
}

/// Whether the characters `pat` occur in `s` at position `at`.
pub fn chars_occur_at(s: &Vec<char>, pat: &Vec<char>, at: usize) -> (found: bool)
    ensures
        found == occurs_at(s@, pat@, at as int),
{
    if at > s.len() || pat.len() > s.len() - at {
        return false;
    }
    let mut j: usize = 0;
    while j < pat.len()
        invariant
            j <= pat.len(),
            at + pat.len() <= s.len(),
            s@.subrange(at as int, at + j) == pat@.subrange(0, j as int),
        decreases pat.len() - j,
    {
        if s[at + j] != pat[j] {
            assert(s@.subrange(at as int, at + pat.len())[j as int] != pat@[j as int]);
            return false;
        }
        assert(s@.subrange(at as int, at + j + 1) == s@.subrange(at as int, at + j).push(
            s@[at + j],
        ));
        assert(pat@.subrange(0, j + 1) == pat@.subrange(0, j as int).push(pat@[j as int]));
        j = j + 1;
    }
    assert(pat@.subrange(0, pat.len() as int) == pat@);
    true
}

/// Whether the bytes `pat` occur in `s` at position `at`.
pub fn bytes_occur_at(s: &[u8], pat: &[u8], at: usize) -> (found: bool)
    ensures
        found == occurs_at(s@, pat@, at as int),
{
    if at > s.len() || pat.len() > s.len() - at {
        return false;
    }
    let mut j: usize = 0;
    while j < pat.len()
        invariant
            j <= pat.len(),
            at + pat.len() <= s.len(),
            s@.subrange(at as int, at + j) == pat@.subrange(0, j as int),
        decreases pat.len() - j,
    {
        if s[at + j] != pat[j] {
            assert(s@.subrange(at as int, at + pat.len())[j as int] != pat@[j as int]);
            return false;
        }
        assert(s@.subrange(at as int, at + j + 1) == s@.subrange(at as int, at + j).push(
            s@[at + j],
        ));
        assert(pat@.subrange(0, j + 1) == pat@.subrange(0, j as int).push(pat@[j as int]));
        j = j + 1;
    }
    assert(pat@.subrange(0, pat.len() as int) == pat@);
    true
}

/// Whether the characters `pat` occur anywhere in `s`.
pub fn chars_occur_in(s: &Vec<char>, pat: &Vec<char>) -> (found: bool)
    ensures
        found == occurs_in(s@, pat@),
{
    let mut at: usize = 0;
    loop
        invariant
            at <= s.len(),
            forall|k: int| 0 <= k < at ==> !occurs_at(s@, pat@, k),
        decreases s.len() - at,
    {
        if chars_occur_at(s, pat, at) {
            return true;
        }
        if at == s.len() {
            return false;
        }
        at = at + 1;
    }
}

/// Whether the bytes `pat` occur anywhere in `s`.
pub fn bytes_occur_in(s: &[u8], pat: &[u8]) -> (found: bool)
    ensures
        found == occurs_in(s@, pat@),
{
    let mut at: usize = 0;
    loop
        invariant
            at <= s.len(),
            forall|k: int| 0 <= k < at ==> !occurs_at(s@, pat@, k),
        decreases s.len() - at,
    {
        if bytes_occur_at(s, pat, at) {
            return true;
        }
        if at == s.len() {
            return false;
        }
        at = at + 1;
    }
}

/// Replaces every occurrence of `from` in `text` by `to`.
pub fn replace(text: &str, from: &str, to: &str) -> (out: String)
    ensures
        out@ == replace_all(text@, from@, to@),
{
    let source = chars_of(text);
    let pattern = chars_of(from);
    let mut out = String::new();
    let mut at: usize = 0;
    assert(source@.skip(0) == source@);
    assert(out@ + replace_all(text@, from@, to@) == replace_all(text@, from@, to@));
    loop
        invariant
            at <= source.len(),
            source@ == text@,
            pattern@ == from@,
            out@ + replace_all(source@.skip(at as int), from@, to@) == replace_all(
                text@,
                from@,
                to@,
            ),
        decreases source.len() - at,
    {
        let ghost rest = source@.skip(at as int);
        if at == source.len() {
            if pattern.len() == 0 {
                out.append(to);
            }
            return out;
        }
        assert(rest.len() > 0 && rest[0] == source@[at as int]);
        if pattern.len() == 0 {
            out.append(to);
            out.push(source[at]);
            assert(rest.skip(1) == source@.skip(at + 1));
            at = at + 1;
        } else if chars_occur_at(&source, &pattern, at) {
            assert(occurs_at(rest, from@, 0)) by {
                assert(rest.subrange(0, from@.len() as int) == source@.subrange(
                    at as int,
                    at + from@.len(),
                ));
            }
            out.append(to);
            assert(rest.skip(from@.len() as int) == source@.skip(at + from@.len()));
            at = at + pattern.len();
        } else {
            assert(!occurs_at(rest, from@, 0)) by {
                if occurs_at(rest, from@, 0) {
                    assert(rest.subrange(0, from@.len() as int) == source@.subrange(
                        at as int,
                        at + from@.len(),
                    ));
                }
            }
            out.push(source[at]);
            assert(rest.skip(1) == source@.skip(at + 1));
            at = at + 1;
        }
    }
}

/// The decimal numeral of `n`, as ASCII digits.
pub fn decimal(n: usize) -> (digits: Vec<u8>)
    ensures
        digits@ == decimal_digits(n as nat),
    decreases n,
{
    if n < 10 {
        let mut digits: Vec<u8> = Vec::new();
        digits.push(48 + n as u8);
        digits
    } else {
        let mut digits = decimal(n / 10);
        digits.push(48 + (n % 10) as u8);
        digits
    }
}

} // verus!
