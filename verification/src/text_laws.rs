//! What the operations on text do, said of the texts themselves.

use vstd::prelude::*;

use crate::text::{
    ascii_lowered, decimal, digits_value, first_at, has_part, has_prefix, is_blank, is_digit,
    is_space, joined, lemma_first_at_is, lemma_first_at_of, lines_of, nonblank, trimmed,
    trimmed_end, trimmed_start, unsigned_of, without_prefixes,
};

verus! {

/// Nothing but white space.
pub open spec fn all_space(s: Seq<char>) -> bool {
    forall|i: int| 0 <= i < s.len() ==> is_space(#[trigger] s[i])
}

/// Neither starts nor ends with white space.
pub open spec fn is_bare(s: Seq<char>) -> bool {
    s.len() > 0 ==> !is_space(s[0]) && !is_space(s[s.len() - 1])
}

/// White space is a tab, a line feed and what lies between it and a carriage return, a blank, and
/// the other separators of Unicode.
pub proof fn lemma_white_space(c: char)
    ensures
        is_space(c) <==> {
            let n = c as int;
            ||| 9 <= n <= 13
            ||| n == 32
            ||| n == 0x85
            ||| n == 0xa0
            ||| n == 0x1680
            ||| 0x2000 <= n <= 0x200a
            ||| 0x2028 <= n <= 0x2029
            ||| n == 0x202f
            ||| n == 0x205f
            ||| n == 0x3000
        },
{
}

/// A text is what is left of it when it is trimmed, with white space before and behind it; nothing
/// more could be taken off.
pub proof fn lemma_trimmed_parts(s: Seq<char>)
    ensures
        is_bare(trimmed(s)),
        exists|a: Seq<char>, b: Seq<char>|
            all_space(a) && all_space(b) && s == #[trigger] (a + trimmed(s) + b),
{
    lemma_trimmed_start_parts(s);
    let a = choose|a: Seq<char>| all_space(a) && s == #[trigger] (a + trimmed_start(s));
    let t = trimmed_start(s);
    lemma_trimmed_end_parts(t);
    let b = choose|b: Seq<char>| all_space(b) && t == #[trigger] (trimmed_end(t) + b);
    assert(a + (trimmed(s) + b) =~= a + trimmed(s) + b);
    assert(s == a + trimmed(s) + b);
    if trimmed(s).len() > 0 {
        assert(t[0] == trimmed(s)[0]);
    }
}

proof fn lemma_trimmed_start_parts(s: Seq<char>)
    ensures
        trimmed_start(s).len() > 0 ==> !is_space(trimmed_start(s)[0]),
        exists|a: Seq<char>| all_space(a) && s == #[trigger] (a + trimmed_start(s)),
    decreases s.len(),
{
    if s.len() > 0 && is_space(s[0]) {
        let rest = s.drop_first();
        lemma_trimmed_start_parts(rest);
        let a = choose|a: Seq<char>| all_space(a) && rest == #[trigger] (a + trimmed_start(rest));
        let b = seq![s[0]] + a;
        assert(all_space(b));
        assert(s =~= seq![s[0]] + rest);
        assert(seq![s[0]] + (a + trimmed_start(rest)) =~= b + trimmed_start(s));
    } else {
        let a = Seq::<char>::empty();
        assert(all_space(a));
        assert(s =~= a + trimmed_start(s));
    }
}

proof fn lemma_trimmed_end_parts(s: Seq<char>)
    ensures
        trimmed_end(s).len() > 0 ==> !is_space(trimmed_end(s)[trimmed_end(s).len() - 1]),
        exists|b: Seq<char>| all_space(b) && s == #[trigger] (trimmed_end(s) + b),
    decreases s.len(),
{
    if s.len() > 0 && is_space(s.last()) {
        let rest = s.drop_last();
        lemma_trimmed_end_parts(rest);
        let b = choose|b: Seq<char>| all_space(b) && rest == #[trigger] (trimmed_end(rest) + b);
        let c = b.push(s.last());
        assert(all_space(c));
        assert(s =~= rest.push(s.last()));
        assert((trimmed_end(rest) + b).push(s.last()) =~= trimmed_end(s) + c);
    } else {
        let b = Seq::<char>::empty();
        assert(all_space(b));
        assert(s =~= trimmed_end(s) + b);
    }
}

/// White space around a text that neither starts nor ends with any is what trimming takes off.
pub proof fn lemma_trimmed_of(a: Seq<char>, s: Seq<char>, b: Seq<char>)
    requires
        all_space(a),
        all_space(b),
        is_bare(s),
    ensures
        trimmed(a + s + b) == s,
{
    lemma_start_taken(a, s + b);
    assert(a + (s + b) =~= a + s + b);
    if s.len() > 0 {
        assert((s + b)[0] == s[0]);
        assert(trimmed_start(s + b) == s + b);
        lemma_end_taken(s, b);
    } else {
        assert(s + b =~= b);
        lemma_start_taken(b, Seq::empty());
        assert(b + Seq::<char>::empty() =~= b);
        assert(trimmed_start(b) =~= Seq::<char>::empty());
        assert(s =~= Seq::empty());
    }
}

proof fn lemma_start_taken(a: Seq<char>, s: Seq<char>)
    requires
        all_space(a),
    ensures
        trimmed_start(a + s) == trimmed_start(s),
    decreases a.len(),
{
    if a.len() == 0 {
        assert(a + s =~= s);
    } else {
        assert((a + s)[0] == a[0]);
        assert((a + s).drop_first() =~= a.drop_first() + s);
        lemma_start_taken(a.drop_first(), s);
    }
}

proof fn lemma_end_taken(s: Seq<char>, b: Seq<char>)
    requires
        all_space(b),
        s.len() > 0,
        !is_space(s[s.len() - 1]),
    ensures
        trimmed_end(s + b) == s,
    decreases b.len(),
{
    if b.len() == 0 {
        assert(s + b =~= s);
    } else {
        assert((s + b).last() == b[b.len() - 1]);
        assert((s + b).drop_last() =~= s + b.drop_last());
        lemma_end_taken(s, b.drop_last());
    }
}

/// A text is blank if it is nothing but white space; what is not blank counts without the white
/// space around it.
pub proof fn lemma_blank(s: Seq<char>)
    ensures
        is_blank(s) <==> all_space(s),
        nonblank(Some(s)) == (if all_space(s) {
            None
        } else {
            Some(trimmed(s))
        }),
        nonblank(None) is None,
{
    if all_space(s) {
        let none = Seq::<char>::empty();
        lemma_trimmed_of(s, none, none);
        assert(s + none + none =~= s);
    }
    if is_blank(s) {
        lemma_trimmed_parts(s);
        let (a, b) = choose|a: Seq<char>, b: Seq<char>|
            all_space(a) && all_space(b) && s == #[trigger] (a + trimmed(s) + b);
        assert(s =~= a + b);
    }
}

/// A prefix is what something stands behind.
pub proof fn lemma_prefix(s: Seq<char>, prefix: Seq<char>)
    ensures
        has_prefix(s, prefix) <==> exists|rest: Seq<char>| s == #[trigger] (prefix + rest),
{
    if has_prefix(s, prefix) {
        let rest = s.skip(prefix.len() as int);
        assert(s =~= s.take(prefix.len() as int) + rest);
    }
    if exists|rest: Seq<char>| s == #[trigger] (prefix + rest) {
        let rest = choose|rest: Seq<char>| s == #[trigger] (prefix + rest);
        assert(s.take(prefix.len() as int) =~= prefix);
    }
}

/// A part is what stands between two others.
pub proof fn lemma_part_cuts(s: Seq<char>, part: Seq<char>)
    ensures
        has_part(s, part) <==> exists|a: Seq<char>, b: Seq<char>| s == #[trigger] (a + part + b),
{
    if has_part(s, part) {
        let i = choose|i: int|
            0 <= i <= s.len() - part.len() && #[trigger] has_prefix(s.skip(i), part);
        let a = s.take(i);
        let b = s.skip(i + part.len());
        assert(s.skip(i).take(part.len() as int) == part);
        assert(s =~= a + part + b) by {
            assert forall|k: int| 0 <= k < s.len() implies s[k] == (a + part + b)[k] by {
                if i <= k < i + part.len() {
                    assert(part[k - i] == s.skip(i).take(part.len() as int)[k - i]);
                }
            }
        }
    }
    if exists|a: Seq<char>, b: Seq<char>| s == #[trigger] (a + part + b) {
        let (a, b) = choose|a: Seq<char>, b: Seq<char>| s == #[trigger] (a + part + b);
        assert(s.skip(a.len() as int).take(part.len() as int) =~= part);
        assert(has_prefix(s.skip(a.len() as int), part));
    }
}

/// Taking prefixes off takes off one after the other, until there is none.
pub proof fn lemma_prefixes_taken(s: Seq<char>, prefix: Seq<char>)
    requires
        prefix.len() > 0,
    ensures
        without_prefixes(prefix + s, prefix) == without_prefixes(s, prefix),
        !has_prefix(s, prefix) ==> without_prefixes(s, prefix) == s,
{
    assert((prefix + s).take(prefix.len() as int) =~= prefix);
    assert((prefix + s).skip(prefix.len() as int) =~= s);
}

/// Lower case changes the letters from A to Z and nothing else.
pub proof fn lemma_lowered(s: Seq<char>)
    ensures
        ascii_lowered(s).len() == s.len(),
        forall|i: int|
            0 <= i < s.len() ==> (#[trigger] ascii_lowered(s)[i]) as int == (if 65 <= s[i] as int
                <= 90 {
                s[i] as int + 32
            } else {
                s[i] as int
            }),
{
}

/// The first of a character is where it stands and has none of it before it.
pub proof fn lemma_first(s: Seq<char>, c: char, before: Seq<char>, after: Seq<char>)
    requires
        s == before + seq![c] + after,
        !before.contains(c),
    ensures
        first_at(s, c) == before.len(),
{
    assert(s[before.len() as int] == c);
    assert forall|k: int| 0 <= k < before.len() implies s[k] != c by {
        assert(before[k] == s[k]);
        assert(before.contains(before[k]));
    }
    lemma_first_at_is(s, c, before.len() as int);
}

/// A number in decimal is written in digits, without a zero in front, and read again it is the same
/// number.
pub proof fn lemma_decimal_read(n: nat)
    ensures
        decimal(n).len() > 0,
        forall|i: int| 0 <= i < decimal(n).len() ==> is_digit(#[trigger] decimal(n)[i]),
        digits_value(decimal(n)) == n,
        n > 0 ==> decimal(n)[0] != '0',
        n <= u64::MAX ==> unsigned_of(decimal(n)) == Some(n as u64),
    decreases n,
{
    if n < 10 {
        assert(decimal(n).drop_last().len() == 0);
        assert(digits_value(decimal(n).drop_last()) == 0);
    } else {
        lemma_decimal_read(n / 10);
        assert(decimal(n).drop_last() =~= decimal(n / 10));
    }
    assert(is_digit(decimal(n)[0]));
}

/// Digits are read by their places: each one more counts the ones before it ten times.
pub proof fn lemma_digits_read(s: Seq<char>, digit: char)
    requires
        is_digit(digit),
    ensures
        digits_value(Seq::empty()) == 0,
        digits_value(s.push(digit)) == 10 * digits_value(s) + (digit as int - 48),
        is_digit(digit) <==> 48 <= digit as int <= 57,
{
    assert(s.push(digit).drop_last() =~= s);
}

/// A text is a number of 64 bits if it is made of digits that come to one, with or without a plus
/// sign; anything else is none.
pub proof fn lemma_unsigned_read(s: Seq<char>, digits: Seq<char>)
    requires
        s == digits || s == seq!['+'] + digits,
    ensures
        digits.len() > 0 && digits[0] != '+' ==> unsigned_of(s) == (if (forall|i: int|
            0 <= i < digits.len() ==> 48 <= #[trigger] digits[i] as int <= 57) && digits_value(
            digits,
        ) <= u64::MAX {
            Some(digits_value(digits) as u64)
        } else {
            None
        }),
        digits.len() == 0 ==> unsigned_of(s) is None,
{
    if s == seq!['+'] + digits {
        assert(s.drop_first() =~= digits);
    }
    assert(forall|i: int| 0 <= i < digits.len() ==> (is_digit(#[trigger] digits[i]) <==> 48
        <= digits[i] as int <= 57));
    if digits.len() > 0 && digits[0] != '+' && (forall|i: int|
        0 <= i < digits.len() ==> 48 <= #[trigger] digits[i] as int <= 57) {
        assert(forall|i: int| 0 <= i < digits.len() ==> is_digit(#[trigger] digits[i]));
    }
}

/// Texts joined stand one behind the other, with the separator between neighbours and nowhere else.
pub proof fn lemma_joined_parts(first: Seq<Seq<char>>, second: Seq<Seq<char>>, separator: Seq<char>)
    ensures
        joined(Seq::empty(), separator) == Seq::<char>::empty(),
        first.len() == 1 ==> joined(first, separator) == first[0],
        first.len() > 0 && second.len() > 0 ==> joined(first + second, separator) == joined(
            first,
            separator,
        ) + separator + joined(second, separator),
    decreases second.len(),
{
    if first.len() > 0 && second.len() > 0 {
        let all = first + second;
        assert(all.drop_last() =~= first + second.drop_last());
        assert(all.last() == second.last());
        if second.len() == 1 {
            assert(first + second.drop_last() =~= first);
        } else {
            lemma_joined_parts(first, second.drop_last(), separator);
            let a = joined(first, separator);
            let b = joined(second.drop_last(), separator);
            assert(a + separator + b + separator + second.last() =~= a + separator + (b + separator
                + second.last()));
        }
    }
}

/// The lines of a text are what stands between its line feeds: joined by line feeds they are the
/// text again, and none of them holds one.
pub proof fn lemma_lines_joined(s: Seq<char>)
    ensures
        lines_of(s).len() > 0,
        joined(lines_of(s), seq!['\n']) == s,
        forall|i: int| 0 <= i < lines_of(s).len() ==> !(#[trigger] lines_of(s)[i]).contains('\n'),
    decreases s.len(),
{
    let at = first_at(s, '\n');
    lemma_first_at_of(s, '\n');
    if at < s.len() {
        let head = seq![s.take(at)];
        let rest = s.skip(at + 1);
        lemma_lines_joined(rest);
        lemma_joined_parts(head, lines_of(rest), seq!['\n']);
        assert(s =~= s.take(at) + seq!['\n'] + rest);
        assert forall|i: int| 0 <= i < lines_of(s).len() implies !(#[trigger] lines_of(
            s,
        )[i]).contains('\n') by {
            if i > 0 {
                assert(lines_of(s)[i] == lines_of(rest)[i - 1]);
            }
        }
    }
}

/// Lines joined by line feeds are taken apart again into the same lines.
pub proof fn lemma_lines_of_joined(lines: Seq<Seq<char>>)
    requires
        lines.len() > 0,
        forall|i: int| 0 <= i < lines.len() ==> !(#[trigger] lines[i]).contains('\n'),
    ensures
        lines_of(joined(lines, seq!['\n'])) == lines,
    decreases lines.len(),
{
    let feed = seq!['\n'];
    let s = joined(lines, feed);
    let head = seq![lines[0]];
    let rest = lines.drop_first();
    assert(lines =~= head + rest);
    lemma_joined_parts(head, rest, feed);
    lemma_first_at_of(s, '\n');
    if rest.len() == 0 {
        assert(lines =~= head);
        assert(s == lines[0]);
        let at = first_at(s, '\n');
        if at < s.len() {
            assert(s.contains(s[at]));
        }
    } else {
        let after = joined(rest, feed);
        assert(s == lines[0] + feed + after);
        lemma_first(s, '\n', lines[0], after);
        assert(s.take(lines[0].len() as int) =~= lines[0]);
        assert(s.skip(lines[0].len() as int + 1) =~= after);
        assert forall|i: int| 0 <= i < rest.len() implies !(#[trigger] rest[i]).contains('\n') by {
            assert(rest[i] == lines[i + 1]);
        }
        lemma_lines_of_joined(rest);
    }
}

} // verus!
