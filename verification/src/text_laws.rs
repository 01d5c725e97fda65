//! What trimming, joining and spelling numbers do to texts.

use crate::flat;
use crate::text;
use vstd::prelude::*;

verus! {

/// Whether a text is white space and nothing else.
pub open spec fn blank(s: Seq<char>) -> bool {
    forall|i: int| 0 <= i < s.len() ==> text::white_space(#[trigger] s[i])
}

/// Whether a text neither begins nor ends in white space.
pub open spec fn tight(s: Seq<char>) -> bool {
    s.len() > 0 ==> !text::white_space(s[0]) && !text::white_space(s.last())
}

proof fn lemma_trim_start(a: Seq<char>, s: Seq<char>)
    requires
        blank(a),
        s.len() > 0 ==> !text::white_space(s[0]),
    ensures
        text::trim_start(a + s) == s,
    decreases a.len(),
{
    if a.len() == 0 {
        assert(a + s =~= s);
    } else {
        assert((a + s)[0] == a[0]);
        assert((a + s).drop_first() =~= a.drop_first() + s);
        assert(blank(a.drop_first())) by {
            assert forall|i: int| 0 <= i < a.drop_first().len() implies text::white_space(
                #[trigger] a.drop_first()[i],
            ) by {
                assert(a.drop_first()[i] == a[i + 1]);
            }
        }
        lemma_trim_start(a.drop_first(), s);
    }
}

proof fn lemma_trim_end(s: Seq<char>, b: Seq<char>)
    requires
        blank(b),
        s.len() > 0 ==> !text::white_space(s.last()),
    ensures
        text::trim_end(s + b) == s,
    decreases b.len(),
{
    if b.len() == 0 {
        assert(s + b =~= s);
    } else {
        assert((s + b).last() == b.last());
        assert((s + b).drop_last() =~= s + b.drop_last());
        lemma_trim_end(s, b.drop_last());
    }
}

/// Trimming takes away the white space at the two ends, and nothing else.
pub proof fn law_trimming(before: Seq<char>, s: Seq<char>, after: Seq<char>)
    requires
        blank(before),
        tight(s),
        blank(after),
    ensures
        text::trimmed(before + s + after) == s,
{
    if s.len() == 0 {
        let all = before + s + after;
        assert(blank(all)) by {
            assert forall|i: int| 0 <= i < all.len() implies text::white_space(
                #[trigger] all[i],
            ) by {
                if i < before.len() {
                    assert(all[i] == before[i]);
                } else {
                    assert(all[i] == after[i - before.len()]);
                }
            }
        }
        lemma_trim_start(all, s);
        assert(all + s =~= all);
        assert(s =~= Seq::<char>::empty());
    } else {
        assert(before + s + after =~= before + (s + after));
        assert((s + after)[0] == s[0]);
        lemma_trim_start(before, s + after);
        lemma_trim_end(s, after);
    }
}

/// Every text is what trimming leaves of it, with white space before and behind it.
pub proof fn law_trimmed_is_a_part(s: Seq<char>)
    ensures
        tight(text::trimmed(s)),
        exists|before: Seq<char>, after: Seq<char>|
            blank(before) && blank(after) && #[trigger] (before + text::trimmed(s) + after) == s,
{
    let a = lemma_start_part(s);
    let b = lemma_end_part(text::trim_start(s));
    let t = text::trimmed(s);
    assert(a + t + b =~= a + (t + b));
    if t.len() > 0 {
        assert(text::trim_start(s)[0] == t[0]);
    }
}

proof fn lemma_start_part(s: Seq<char>) -> (a: Seq<char>)
    ensures
        blank(a),
        a + text::trim_start(s) == s,
        text::trim_start(s).len() > 0 ==> !text::white_space(text::trim_start(s)[0]),
    decreases s.len(),
{
    if s.len() > 0 && text::white_space(s[0]) {
        let a = lemma_start_part(s.drop_first());
        assert(seq![s[0]] + a + text::trim_start(s) =~= seq![s[0]] + s.drop_first());
        assert(seq![s[0]] + s.drop_first() =~= s);
        seq![s[0]] + a
    } else {
        assert(Seq::<char>::empty() + s =~= s);
        Seq::empty()
    }
}

proof fn lemma_end_part(s: Seq<char>) -> (b: Seq<char>)
    ensures
        blank(b),
        text::trim_end(s) + b == s,
        text::trim_end(s).len() > 0 ==> !text::white_space(text::trim_end(s).last()),
    decreases s.len(),
{
    if s.len() > 0 && text::white_space(s.last()) {
        let b = lemma_end_part(s.drop_last());
        assert(text::trim_end(s) + b.push(s.last()) =~= s.drop_last().push(s.last()));
        assert(s.drop_last().push(s.last()) =~= s);
        b.push(s.last())
    } else {
        assert(s + Seq::<char>::empty() =~= s);
        Seq::empty()
    }
}

/// Nothing is left of a text by trimming exactly where it is white space and nothing else.
pub proof fn law_blank(s: Seq<char>)
    ensures
        text::trimmed(s).len() == 0 <==> blank(s),
{
    if blank(s) {
        law_trimming(s, Seq::empty(), Seq::empty());
        assert(s + Seq::<char>::empty() + Seq::<char>::empty() =~= s);
    }
    if text::trimmed(s).len() == 0 {
        law_trimmed_is_a_part(s);
        let (a, b) = choose|a: Seq<char>, b: Seq<char>|
            blank(a) && blank(b) && #[trigger] (a + text::trimmed(s) + b) == s;
        assert forall|i: int| 0 <= i < s.len() implies text::white_space(#[trigger] s[i]) by {
            if i < a.len() {
                assert(s[i] == a[i]);
            } else {
                assert(s[i] == b[i - a.len()]);
            }
        }
    }
}

/// Copies of a character at the end of a text are taken away, and nothing else.
pub proof fn law_without_trailing(s: Seq<char>, c: char, n: nat)
    requires
        s.len() > 0 ==> s.last() != c,
    ensures
        text::without_trailing(s + Seq::new(n, |i: int| c), c) == s,
    decreases n,
{
    let all = s + Seq::new(n, |i: int| c);
    if n == 0 {
        assert(all =~= s);
    } else {
        assert(all.last() == c);
        assert(all.drop_last() =~= s + Seq::new((n - 1) as nat, |i: int| c));
        law_without_trailing(s, c, (n - 1) as nat);
    }
}

/// A line, with the mark of a new one in front of it.
pub open spec fn broken(line: Seq<char>) -> Seq<char> {
    seq!['\n'] + line
}

/// Joined lines are all the lines, in order, with one line feed between each two.
pub proof fn law_joined(lines: Seq<Seq<char>>)
    ensures
        lines.len() == 0 ==> text::join_lines(lines) == Seq::<char>::empty(),
        lines.len() > 0 ==> seq!['\n'] + text::join_lines(lines) == lines.flat_map(
            |l: Seq<char>| broken(l),
        ),
    decreases lines.len(),
{
    let f = |l: Seq<char>| broken(l);
    if lines.len() == 1 {
        assert(lines =~= seq![lines[0]]);
        flat::lemma_flat_one(lines[0], f);
    } else if lines.len() > 1 {
        let front = lines.drop_last();
        law_joined(front);
        flat::lemma_flat_last(lines, f);
        assert(seq!['\n'] + text::join_lines(lines) =~= (seq!['\n'] + text::join_lines(front))
            + broken(lines.last()));
    }
}

proof fn lemma_digit(d: nat)
    requires
        d < 10,
    ensures
        text::digit_value(text::digit_char(d)) == Some(d),
{
}

proof fn lemma_decimal(n: nat)
    ensures
        text::all_digits(text::decimal_text(n)),
        text::digits_value(text::decimal_text(n)) == n,
        text::decimal_text(n)[0] != '+',
        text::decimal_text(n).len() > 1 ==> text::decimal_text(n)[0] != '0',
        n > 0 ==> text::decimal_text(n)[0] != '0',
    decreases n,
{
    let t = text::decimal_text(n);
    if n < 10 {
        lemma_digit(n);
        assert(t.drop_last() =~= Seq::<char>::empty());
        assert(text::digits_value(t.drop_last()) == 0);
    } else {
        lemma_decimal(n / 10);
        lemma_digit(n % 10);
        let front = text::decimal_text(n / 10);
        assert(t.drop_last() =~= front);
        assert(t[0] == front[0]);
        assert forall|i: int| 0 <= i < t.len() implies text::digit_value(
            #[trigger] t[i],
        ) is Some by {
            if i < front.len() {
                assert(t[i] == front[i]);
            }
        }
    }
}

/// A number that is written down and read again is the same number, with or without a plus sign in
/// front of it. It is written in digits alone, and none of them is a zero that leads.
pub proof fn law_numbers(n: u64)
    ensures
        text::spelled_u64(text::decimal_text(n as nat)) == Some(n),
        text::spelled_u64(seq!['+'] + text::decimal_text(n as nat)) == Some(n),
        text::all_digits(text::decimal_text(n as nat)),
        text::decimal_text(n as nat)[0] == '0' ==> n == 0,
{
    lemma_decimal(n as nat);
    let t = text::decimal_text(n as nat);
    assert((seq!['+'] + t).drop_first() =~= t);
}

/// Where a text spells a number, it is digits behind an optional plus sign, and what the number is
/// written as differs from it by leading zeros only.
pub proof fn law_spelled(s: Seq<char>)
    ensures
        match text::spelled_u64(s) {
            Some(n) => exists|zeros: nat, plus: bool|
                s == #[trigger] text_with_zeros(zeros, n, plus),
            None => true,
        },
{
    let d = if s.len() > 0 && s[0] == '+' {
        s.drop_first()
    } else {
        s
    };
    if text::spelled_u64(s) is Some {
        let n = text::spelled_u64(s)->0;
        let zeros = lemma_zeros(d);
        let plus = s.len() > 0 && s[0] == '+';
        let spelled = text_with_zeros(zeros, n, plus);
        if plus {
            assert(s =~= seq!['+'] + d);
        }
        assert(s =~= spelled);
    }
}

/// A number with zeros in front of it, and a plus sign in front of these.
pub open spec fn text_with_zeros(zeros: nat, n: u64, plus: bool) -> Seq<char> {
    (if plus {
        seq!['+']
    } else {
        Seq::empty()
    }) + (Seq::new(zeros, |i: int| '0') + text::decimal_text(n as nat))
}

proof fn lemma_zeros(d: Seq<char>) -> (zeros: nat)
    requires
        text::all_digits(d),
    ensures
        d == Seq::new(zeros, |i: int| '0') + text::decimal_text(text::digits_value(d)),
    decreases d.len(),
{
    let front = d.drop_last();
    let v = text::digit_value(d.last())->0;
    assert(text::digit_value(d.last()) is Some);
    assert(d.last() == text::digit_char(v));
    assert(d =~= front.push(d.last()));
    if front.len() == 0 {
        assert(text::digits_value(front) == 0);
        assert(d =~= Seq::new(0, |i: int| '0') + text::decimal_text(v));
        0
    } else {
        assert forall|i: int| 0 <= i < front.len() implies text::digit_value(
            #[trigger] front[i],
        ) is Some by {
            assert(front[i] == d[i]);
        }
        let zeros = lemma_zeros(front);
        let m = text::digits_value(front);
        let n = text::digits_value(d);
        assert(n == 10 * m + v);
        assert(n / 10 == m && n % 10 == v);
        if m == 0 {
            assert(text::decimal_text(0) =~= seq!['0']);
            assert(d =~= Seq::new(zeros + 1, |i: int| '0') + text::decimal_text(v));
            zeros + 1
        } else {
            assert(text::decimal_text(n) == text::decimal_text(m).push(d.last()));
            assert(d =~= Seq::new(zeros, |i: int| '0') + text::decimal_text(n));
            zeros
        }
    }
}

/// Zeros in front of a number do not change it.
pub proof fn law_leading_zeros(zeros: nat, n: u64, plus: bool)
    ensures
        text::spelled_u64(text_with_zeros(zeros, n, plus)) == Some(n),
{
    lemma_decimal(n as nat);
    let d = Seq::new(zeros, |i: int| '0') + text::decimal_text(n as nat);
    lemma_zeros_value(zeros, text::decimal_text(n as nat));
    assert(text::all_digits(d)) by {
        assert forall|i: int| 0 <= i < d.len() implies text::digit_value(
            #[trigger] d[i],
        ) is Some by {
            if i >= zeros {
                assert(d[i] == text::decimal_text(n as nat)[i - zeros]);
            }
        }
    }
    let s = text_with_zeros(zeros, n, plus);
    if plus {
        assert(s.drop_first() =~= d);
    } else {
        assert(s =~= d);
        if zeros == 0 {
            assert(d[0] == text::decimal_text(n as nat)[0]);
        }
    }
}

proof fn lemma_zeros_value(zeros: nat, t: Seq<char>)
    ensures
        text::digits_value(Seq::new(zeros, |i: int| '0') + t) == text::digits_value(t),
    decreases t.len(), zeros,
{
    let d = Seq::new(zeros, |i: int| '0') + t;
    if t.len() > 0 {
        assert(d.drop_last() =~= Seq::new(zeros, |i: int| '0') + t.drop_last());
        lemma_zeros_value(zeros, t.drop_last());
    } else if zeros > 0 {
        assert(d.drop_last() =~= Seq::new((zeros - 1) as nat, |i: int| '0') + t);
        lemma_zeros_value((zeros - 1) as nat, t);
    }
}

} // verus!
