//! Decimal numbers as text: an optional sign, digits, and an optional
//! fraction behind a point. A number is held by its digits, so that it has
//! as many of them as were written.

use vstd::prelude::*;
use vstd::string::StringExecFns;

use crate::text::{all_digits, chars_of, decimal_value, digit_value, is_digit, str_eq};

verus! {

/// How many characters at the start of `s` satisfy `keep`.
pub open spec fn leading(s: Seq<char>, keep: spec_fn(char) -> bool) -> nat
    decreases s.len(),
{
    if s.len() > 0 && keep(s.first()) {
        1 + leading(s.drop_first(), keep)
    } else {
        0
    }
}

/// How many characters at the end of `s` satisfy `keep`.
pub open spec fn trailing(s: Seq<char>, keep: spec_fn(char) -> bool) -> nat
    decreases s.len(),
{
    if s.len() > 0 && keep(s.last()) {
        1 + trailing(s.drop_last(), keep)
    } else {
        0
    }
}

/// The character is the digit zero.
pub open spec fn zero_digit() -> spec_fn(char) -> bool {
    |c: char| c == '0'
}

/// The character is no decimal point.
pub open spec fn no_point() -> spec_fn(char) -> bool {
    |c: char| c != '.'
}

/// The character is no space.
pub open spec fn no_space() -> spec_fn(char) -> bool {
    |c: char| c != ' '
}

/// `leading` is the first position whose character fails `keep`.
pub proof fn lemma_leading(s: Seq<char>, keep: spec_fn(char) -> bool, i: int)
    requires
        0 <= i <= s.len(),
        forall|k: int| 0 <= k < i ==> keep(#[trigger] s[k]),
        i == s.len() || !keep(s[i]),
    ensures
        leading(s, keep) == i,
    decreases i,
{
    if i > 0 {
        assert(keep(s[0]));
        assert forall|k: int| 0 <= k < i - 1 implies keep(#[trigger] s.drop_first()[k]) by {
            assert(s.drop_first()[k] == s[k + 1]);
        }
        lemma_leading(s.drop_first(), keep, i - 1);
    }
}

/// `trailing` counts back to the last position whose character fails `keep`.
pub proof fn lemma_trailing(s: Seq<char>, keep: spec_fn(char) -> bool, j: int)
    requires
        0 <= j <= s.len(),
        forall|k: int| j <= k < s.len() ==> keep(#[trigger] s[k]),
        j == 0 || !keep(s[j - 1]),
    ensures
        trailing(s, keep) == s.len() - j,
    decreases s.len() - j,
{
    if j < s.len() {
        assert(keep(s[s.len() - 1]));
        assert forall|k: int| j <= k < s.len() - 1 implies keep(#[trigger] s.drop_last()[k]) by {
            assert(s.drop_last()[k] == s[k]);
        }
        lemma_trailing(s.drop_last(), keep, j);
    }
}

/// A decimal number: its sign, the digits before the point without leading
/// zeros (`0` for none), and the digits behind the point without trailing
/// zeros.
pub struct DecimalModel {
    pub negative: bool,
    pub whole: Seq<char>,
    pub fraction: Seq<char>,
}

/// `s` without a sign at its start.
pub open spec fn without_sign(s: Seq<char>) -> Seq<char> {
    if s.len() > 0 && (s[0] == '+' || s[0] == '-') {
        s.drop_first()
    } else {
        s
    }
}

/// What stands before the point of the literal `s`, the sign left out.
pub open spec fn whole_digits(s: Seq<char>) -> Seq<char> {
    let body = without_sign(s);
    body.take(leading(body, no_point()) as int)
}

/// What stands behind the first point of the literal `s`.
pub open spec fn fraction_digits(s: Seq<char>) -> Seq<char> {
    let body = without_sign(s);
    let point = leading(body, no_point()) as int;
    if point < body.len() {
        body.skip(point + 1)
    } else {
        Seq::empty()
    }
}

/// `s` is a decimal literal: an optional sign, then digits with at most one
/// point among them, and at least one digit.
pub open spec fn is_decimal(s: Seq<char>) -> bool {
    &&& all_digits(whole_digits(s))
    &&& all_digits(fraction_digits(s))
    &&& whole_digits(s).len() + fraction_digits(s).len() > 0
}

/// The digits `d` without leading zeros; `0` if nothing is left.
pub open spec fn canonical_whole(d: Seq<char>) -> Seq<char> {
    let kept = d.skip(leading(d, zero_digit()) as int);
    if kept.len() == 0 {
        seq!['0']
    } else {
        kept
    }
}

/// The digits `d` without trailing zeros.
pub open spec fn canonical_fraction(d: Seq<char>) -> Seq<char> {
    d.take(d.len() - trailing(d, zero_digit()))
}

/// The number that the literal `s` writes, if it is one.
pub open spec fn decimal_of(s: Seq<char>) -> Option<DecimalModel> {
    if is_decimal(s) {
        Some(
            DecimalModel {
                negative: s[0] == '-',
                whole: canonical_whole(whole_digits(s)),
                fraction: canonical_fraction(fraction_digits(s)),
            },
        )
    } else {
        None
    }
}

/// How the number is written: `-` if negative, the whole digits, and the
/// fraction behind a point if there is one.
pub open spec fn decimal_text(m: DecimalModel) -> Seq<char> {
    (if m.negative {
        seq!['-']
    } else {
        Seq::<char>::empty()
    }) + m.whole + (if m.fraction.len() > 0 {
        seq!['.'] + m.fraction
    } else {
        Seq::<char>::empty()
    })
}

/// The number is zero.
pub open spec fn is_zero(m: DecimalModel) -> bool {
    m.whole == seq!['0'] && m.fraction.len() == 0
}

/// The number lies between 0 and 100, both included: it is not below zero,
/// and either has at most two whole digits or is exactly 100.
pub open spec fn in_percent_range(m: DecimalModel) -> bool {
    &&& !m.negative || is_zero(m)
    &&& m.whole.len() <= 2 || (m.whole == seq!['1', '0', '0'] && m.fraction.len() == 0)
}

/// The number times one hundred: the point moves two digits to the right.
pub open spec fn times_hundred(m: DecimalModel) -> DecimalModel {
    DecimalModel {
        negative: m.negative,
        whole: canonical_whole(m.whole + (m.fraction + seq!['0', '0']).take(2)),
        fraction: if m.fraction.len() > 2 {
            m.fraction.skip(2)
        } else {
            Seq::empty()
        },
    }
}

/// Digits as they stand before the point of a number in its shortest
/// writing: at least one, and no zero in front of another.
pub open spec fn is_shortest_whole(d: Seq<char>) -> bool {
    all_digits(d) && d.len() > 0 && (d.len() > 1 ==> d[0] != '0')
}

/// What `leading` counts: every character before its end is kept, and the
/// one at its end, if there is one, is not.
pub proof fn lemma_leading_found(s: Seq<char>, keep: spec_fn(char) -> bool)
    ensures
        leading(s, keep) <= s.len(),
        forall|k: int| 0 <= k < leading(s, keep) ==> keep(#[trigger] s[k]),
        leading(s, keep) < s.len() ==> !keep(s[leading(s, keep) as int]),
    decreases s.len(),
{
    if s.len() > 0 && keep(s.first()) {
        lemma_leading_found(s.drop_first(), keep);
        assert forall|k: int| 0 <= k < leading(s, keep) implies keep(#[trigger] s[k]) by {
            if k > 0 {
                assert(s.drop_first()[k - 1] == s[k]);
            }
        }
        if leading(s, keep) < s.len() {
            assert(s.drop_first()[leading(s.drop_first(), keep) as int] == s[leading(s, keep) as int]);
        }
    }
}

/// A number that was read has its whole digits in their shortest writing.
pub proof fn lemma_decimal_is_shortest(s: Seq<char>)
    requires
        is_decimal(s),
    ensures
        is_shortest_whole(decimal_of(s)->0.whole),
{
    let d = whole_digits(s);
    lemma_leading_found(d, zero_digit());
    let kept = d.skip(leading(d, zero_digit()) as int);
    if kept.len() > 0 {
        assert(kept[0] == d[leading(d, zero_digit()) as int]);
        assert forall|i: int| 0 <= i < kept.len() implies is_digit(#[trigger] kept[i]) by {
            assert(kept[i] == d[leading(d, zero_digit()) + i]);
        }
    }
}

/// A digit stands for a number from 0 to 9.
proof fn lemma_digit_value(c: char)
    requires
        is_digit(c),
    ensures
        digit_value(c) <= 9,
        digit_value(c) == 0 <==> c == '0',
        digit_value(c) == 1 <==> c == '1',
{
}

/// What up to three digits spell.
proof fn lemma_value_of_few_digits(d: Seq<char>)
    requires
        1 <= d.len() <= 3,
    ensures
        d.len() == 1 ==> decimal_value(d) == digit_value(d[0]),
        d.len() == 2 ==> decimal_value(d) == digit_value(d[0]) * 10 + digit_value(d[1]),
        d.len() == 3 ==> decimal_value(d) == digit_value(d[0]) * 100 + digit_value(d[1]) * 10
            + digit_value(d[2]),
    decreases d.len(),
{
    let front = d.drop_last();
    assert(decimal_value(d) == decimal_value(front) * 10 + digit_value(d.last()));
    if d.len() == 1 {
        assert(decimal_value(front) == 0);
    } else {
        lemma_value_of_few_digits(front);
        assert(front[0] == d[0]);
        if d.len() == 3 {
            assert(front[1] == d[1]);
        }
    }
}

/// Three or more digits without a zero in front spell at least one
/// hundred.
pub proof fn lemma_three_digits_spell_a_hundred(d: Seq<char>)
    requires
        all_digits(d),
        d.len() >= 3,
        d[0] != '0',
    ensures
        decimal_value(d) >= 100,
        d.len() > 3 ==> decimal_value(d) >= 1000,
    decreases d.len(),
{
    let front = d.drop_last();
    assert(decimal_value(d) == decimal_value(front) * 10 + digit_value(d.last()));
    if d.len() == 3 {
        lemma_value_of_few_digits(d);
        assert(is_digit(d[0]));
        lemma_digit_value(d[0]);
    } else {
        assert(front[0] == d[0]);
        assert forall|i: int| 0 <= i < front.len() implies is_digit(#[trigger] front[i]) by {
            assert(front[i] == d[i]);
        }
        lemma_three_digits_spell_a_hundred(front);
    }
}

/// What the range from 0 to 100 means in numbers: of a number in its
/// shortest writing, the whole digits spell less than 100, or they spell
/// 100 and no fraction follows.
pub proof fn lemma_percent_range_is_numeric(m: DecimalModel)
    requires
        is_shortest_whole(m.whole),
    ensures
        m.whole.len() <= 2 <==> decimal_value(m.whole) < 100,
        m.whole == seq!['1', '0', '0'] <==> decimal_value(m.whole) == 100,
        in_percent_range(m) <==> (!m.negative || is_zero(m)) && (decimal_value(m.whole) < 100 || (
        decimal_value(m.whole) == 100 && m.fraction.len() == 0)),
{
    let d = m.whole;
    assert(is_digit(d[0]));
    lemma_digit_value(d[0]);
    if d.len() <= 3 {
        lemma_value_of_few_digits(d);
        if d.len() >= 2 {
            assert(is_digit(d[1]));
            lemma_digit_value(d[1]);
        }
        if d.len() == 3 {
            assert(is_digit(d[2]));
            lemma_digit_value(d[2]);
            if decimal_value(d) == 100 {
                assert(d[0] == '1' && d[1] == '0' && d[2] == '0');
                assert(d =~= seq!['1', '0', '0']);
            }
        }
    } else {
        lemma_three_digits_spell_a_hundred(d);
    }
    assert(seq!['1', '0', '0'].len() == 3);
}

/// A decimal number held by its digits.
pub struct Decimal {
    negative: bool,
    whole: String,
    fraction: String,
}

/// Whether `chars[from..to]` are all digits.
fn digits_between(chars: &Vec<char>, from: usize, to: usize) -> (r: bool)
    requires
        from <= to <= chars.len(),
    ensures
        r == all_digits(chars@.subrange(from as int, to as int)),
{
    let mut i: usize = from;
    while i < to
        invariant
            from <= i <= to <= chars.len(),
            forall|k: int| from <= k < i ==> is_digit(#[trigger] chars@[k]),
        decreases to - i,
    {
        let c: char = chars[i];
        if !('0' <= c && c <= '9') {
            assert(chars@.subrange(from as int, to as int)[i - from] == c);
            return false;
        }
        i = i + 1;
    }
    assert forall|k: int| 0 <= k < to - from implies is_digit(
        #[trigger] chars@.subrange(from as int, to as int)[k],
    ) by {
        assert(chars@.subrange(from as int, to as int)[k] == chars@[from + k]);
    }
    true
}

/// Which characters a scan passes over.
enum Kept {
    Zero,
    NoPoint,
    NoSpace,
}

impl Kept {
    spec fn test(self) -> spec_fn(char) -> bool {
        match self {
            Kept::Zero => zero_digit(),
            Kept::NoPoint => no_point(),
            Kept::NoSpace => no_space(),
        }
    }

    fn keeps(&self, c: char) -> (r: bool)
        ensures
            r == (self.test())(c),
    {
        match self {
            Kept::Zero => c == '0',
            Kept::NoPoint => c != '.',
            Kept::NoSpace => c != ' ',
        }
    }
}

/// The first position from `from` on, before `to`, whose character is not
/// kept; `to` if there is none.
fn end_of_leading(chars: &Vec<char>, from: usize, to: usize, kept: Kept) -> (end: usize)
    requires
        from <= to <= chars.len(),
    ensures
        from <= end <= to,
        end - from == leading(chars@.subrange(from as int, to as int), kept.test()),
{
    let mut end: usize = from;
    while end < to && kept.keeps(chars[end])
        invariant
            from <= end <= to <= chars.len(),
            forall|k: int| from <= k < end ==> (kept.test())(#[trigger] chars@[k]),
        decreases to - end,
    {
        end = end + 1;
    }
    proof {
        let part = chars@.subrange(from as int, to as int);
        assert forall|k: int| 0 <= k < end - from implies (kept.test())(#[trigger] part[k]) by {
            assert(part[k] == chars@[from + k]);
        }
        if end < to {
            assert(part[end - from] == chars@[end as int]);
        }
        lemma_leading(part, kept.test(), end - from);
    }
    end
}

/// The position behind the last character of `chars[from..to]` that is no
/// zero; `from` if there is none.
fn start_of_trailing_zeros(chars: &Vec<char>, from: usize, to: usize) -> (start: usize)
    requires
        from <= to <= chars.len(),
    ensures
        from <= start <= to,
        to - start == trailing(chars@.subrange(from as int, to as int), zero_digit()),
{
    let mut start: usize = to;
    while start > from && chars[start - 1] == '0'
        invariant
            from <= start <= to <= chars.len(),
            forall|k: int| start <= k < to ==> chars@[k] == '0',
        decreases start,
    {
        start = start - 1;
    }
    proof {
        let part = chars@.subrange(from as int, to as int);
        assert forall|k: int| start - from <= k < part.len() implies zero_digit()(
            #[trigger] part[k],
        ) by {
            assert(part[k] == chars@[from + k]);
        }
        if start > from {
            assert(part[start - from - 1] == chars@[start - 1]);
        }
        lemma_trailing(part, zero_digit(), start - from);
    }
    start
}

/// The position of the first space among `chars`; their number if there is
/// none.
pub fn first_space(chars: &Vec<char>) -> (at: usize)
    ensures
        at <= chars.len(),
        at == leading(chars@, no_space()),
{
    assert(chars@.subrange(0, chars@.len() as int) =~= chars@);
    end_of_leading(chars, 0, chars.len(), Kept::NoSpace)
}

impl Decimal {
    /// The number held.
    pub closed spec fn model(&self) -> DecimalModel {
        DecimalModel { negative: self.negative, whole: self.whole@, fraction: self.fraction@ }
    }

    /// Zero.
    pub fn zero() -> (d: Decimal)
        ensures
            d.model() == (DecimalModel { negative: false, whole: seq!['0'], fraction: Seq::empty() }),
            is_zero(d.model()),
    {
        proof {
            reveal_strlit("0");
            reveal_strlit("");
        }
        let d = Decimal {
            negative: false,
            whole: String::from_str("0"),
            fraction: String::from_str(""),
        };
        assert(d.whole@ =~= seq!['0']);
        assert(d.fraction@ =~= Seq::<char>::empty());
        d
    }

    /// Reads the literal `source[from..to]`, where `chars` are the
    /// characters of `source`.
    pub fn read(source: &str, chars: &Vec<char>, from: usize, to: usize) -> (r: Option<Decimal>)
        requires
            chars@ == source@,
            from <= to <= chars.len(),
        ensures
            match r {
                Some(d) => decimal_of(source@.subrange(from as int, to as int)) == Some(d.model()),
                None => decimal_of(source@.subrange(from as int, to as int)) is None,
            },
    {
        let ghost literal = source@.subrange(from as int, to as int);
        let signed: bool = from < to && (chars[from] == '+' || chars[from] == '-');
        let negative: bool = from < to && chars[from] == '-';
        let start: usize = if signed {
            from + 1
        } else {
            from
        };
        let ghost body = chars@.subrange(start as int, to as int);
        assert(without_sign(literal) == body && (from < to ==> negative == (literal[0] == '-'))) by {
            if from < to {
                assert(literal[0] == chars@[from as int]);
            }
            assert(without_sign(literal) =~= body);
        }
        let point: usize = end_of_leading(chars, start, to, Kept::NoPoint);
        let after: usize = if point < to {
            point + 1
        } else {
            to
        };
        let ghost whole = chars@.subrange(start as int, point as int);
        let ghost fraction = chars@.subrange(after as int, to as int);
        assert(whole_digits(literal) == whole && fraction_digits(literal) == fraction) by {
            assert(body.take(point - start) =~= whole);
            if point < to {
                assert(body.skip(point - start + 1) =~= fraction);
            } else {
                assert(fraction =~= Seq::<char>::empty());
            }
        }
        if !digits_between(chars, start, point) || !digits_between(chars, after, to) {
            return None;
        }
        if point - start + (to - after) == 0 {
            return None;
        }
        let first: usize = end_of_leading(chars, start, point, Kept::Zero);
        let last: usize = start_of_trailing_zeros(chars, after, to);
        proof {
            reveal_strlit("0");
            assert(whole.skip(first - start) =~= source@.subrange(first as int, point as int));
            assert(fraction.take(last - after) =~= source@.subrange(after as int, last as int));
        }
        let whole_text = if first == point {
            String::from_str("0")
        } else {
            String::from_str(source.substring_char(first, point))
        };
        assert(whole_text@ =~= canonical_whole(whole));
        let fraction_text = String::from_str(source.substring_char(after, last));
        Some(Decimal { negative, whole: whole_text, fraction: fraction_text })
    }

    /// Reads the literal `s`.
    pub fn parse(s: &str) -> (r: Option<Decimal>)
        ensures
            match r {
                Some(d) => decimal_of(s@) == Some(d.model()),
                None => decimal_of(s@) is None,
            },
    {
        let chars = chars_of(s);
        assert(s@.subrange(0, chars@.len() as int) =~= s@);
        Decimal::read(s, &chars, 0, chars.len())
    }

    /// Writes the number.
    pub fn to_text(&self) -> (text: String)
        ensures
            text@ == decimal_text(self.model()),
    {
        proof {
            reveal_strlit("-");
            reveal_strlit("");
            reveal_strlit(".");
        }
        let mut text = if self.negative {
            String::from_str("-")
        } else {
            String::from_str("")
        };
        text.append(self.whole.as_str());
        if self.fraction.as_str().unicode_len() > 0 {
            text.append(".");
            text.append(self.fraction.as_str());
        }
        assert(text@ =~= decimal_text(self.model()));
        text
    }

    /// Whether the number lies between 0 and 100, both included.
    pub fn is_percent(&self) -> (r: bool)
        ensures
            r == in_percent_range(self.model()),
    {
        proof {
            reveal_strlit("0");
            reveal_strlit("100");
            assert("0"@ =~= seq!['0']);
            assert("100"@ =~= seq!['1', '0', '0']);
        }
        let no_fraction: bool = self.fraction.as_str().unicode_len() == 0;
        let zero: bool = no_fraction && str_eq(self.whole.as_str(), "0");
        let small: bool = self.whole.as_str().unicode_len() <= 2;
        let hundred: bool = no_fraction && str_eq(self.whole.as_str(), "100");
        (!self.negative || zero) && (small || hundred)
    }

    /// The number times one hundred.
    pub fn times_hundred(&self) -> (r: Decimal)
        ensures
            r.model() == times_hundred(self.model()),
    {
        proof {
            reveal_strlit("00");
            reveal_strlit("0");
            reveal_strlit("");
            assert("00"@ =~= seq!['0', '0']);
        }
        let whole_len: usize = self.whole.as_str().unicode_len();
        let fraction_len: usize = self.fraction.as_str().unicode_len();
        let mut padded = self.fraction.clone();
        padded.append("00");
        let mut joined = self.whole.clone();
        joined.append(padded.as_str().substring_char(0, 2));
        let ghost shifted = self.whole@ + (self.fraction@ + seq!['0', '0']).take(2);
        assert(joined@ =~= shifted);
        let chars = chars_of(joined.as_str());
        let first: usize = end_of_leading(&chars, 0, chars.len(), Kept::Zero);
        assert(chars@.subrange(0, chars@.len() as int) =~= chars@);
        let whole = if first == chars.len() {
            String::from_str("0")
        } else {
            String::from_str(joined.as_str().substring_char(first, chars.len()))
        };
        assert(whole@ =~= canonical_whole(shifted));
        let fraction = if fraction_len > 2 {
            String::from_str(self.fraction.as_str().substring_char(2, fraction_len))
        } else {
            String::from_str("")
        };
        assert(fraction@ =~= times_hundred(self.model()).fraction);
        Decimal { negative: self.negative, whole, fraction }
    }
}

} // verus!
