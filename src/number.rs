use vstd::prelude::*;
use crate::scanner::spec_is_digit;

verus! {

/// An exact decimal number, kept as its digit strings: `whole` before the
/// point, `fraction` after it (empty when there is no fractional part).
#[derive(Debug, Clone)]
pub struct Decimal {
    pub negative: bool,
    pub whole: String,
    pub fraction: String,
}

pub struct DecimalView {
    pub negative: bool,
    pub whole: Seq<char>,
    pub fraction: Seq<char>,
}

/// Every character of `s` is a decimal digit.
pub open spec fn is_digits(s: Seq<char>) -> bool {
    forall|i: int| 0 <= i < s.len() ==> spec_is_digit(#[trigger] s[i])
}

impl DecimalView {
    /// A well-formed number: at least one digit before the point, and digits
    /// only on both sides of it.
    pub open spec fn valid(self) -> bool {
        &&& self.whole.len() > 0
        &&& is_digits(self.whole)
        &&& is_digits(self.fraction)
    }
}

impl View for Decimal {
    type V = DecimalView;

    open spec fn view(&self) -> DecimalView {
        DecimalView { negative: self.negative, whole: self.whole@, fraction: self.fraction@ }
    }
}

/// The decimal digit character for `d` in `0..10`.
pub open spec fn digit_char(d: int) -> char {
    seq!['0', '1', '2', '3', '4', '5', '6', '7', '8', '9'][d]
}

/// The decimal spelling of a natural number, without leading zeros.
pub open spec fn nat_text(n: nat) -> Seq<char>
    decreases n,
{
    if n < 10 {
        seq![digit_char(n as int)]
    } else {
        nat_text(n / 10).push(digit_char((n % 10) as int))
    }
}

pub open spec fn strip_leading_zeros(s: Seq<char>) -> Seq<char>
    decreases s.len(),
{
    if s.len() > 0 && s[0] == '0' {
        strip_leading_zeros(s.drop_first())
    } else {
        s
    }
}

pub open spec fn strip_trailing_zeros(s: Seq<char>) -> Seq<char>
    decreases s.len(),
{
    if s.len() > 0 && s.last() == '0' {
        strip_trailing_zeros(s.drop_last())
    } else {
        s
    }
}

/// An integer as an exact decimal.
pub open spec fn int_decimal(x: int) -> DecimalView {
    DecimalView {
        negative: x < 0,
        whole: nat_text((if x < 0 { -x } else { x }) as nat),
        fraction: Seq::empty(),
    }
}

/// The shortest decimal text of a number: no leading zeros in the whole part
/// (but at least one digit), no trailing zeros in the fraction, and no point
/// when the fraction is zero.
pub open spec fn decimal_text(d: DecimalView) -> Seq<char> {
    let w = strip_leading_zeros(d.whole);
    let whole = if w.len() == 0 { seq!['0'] } else { w };
    let f = strip_trailing_zeros(d.fraction);
    let sign = if d.negative { seq!['-'] } else { Seq::<char>::empty() };
    let point = if f.len() == 0 { Seq::<char>::empty() } else { seq!['.'] + f };
    sign + whole + point
}

proof fn lemma_digit_char(d: int)
    requires
        0 <= d < 10,
    ensures
        spec_is_digit(digit_char(d)),
{
    if d == 0 {
    } else if d == 1 {
    } else if d == 2 {
    } else if d == 3 {
    } else if d == 4 {
    } else if d == 5 {
    } else if d == 6 {
    } else if d == 7 {
    } else if d == 8 {
    } else {
    }
}

/// The spelling of a natural number has at least one digit, and only digits.
pub proof fn lemma_nat_text_digits(n: nat)
    ensures
        nat_text(n).len() > 0,
        is_digits(nat_text(n)),
    decreases n,
{
    if n < 10 {
        lemma_digit_char(n as int);
    } else {
        lemma_nat_text_digits(n / 10);
        lemma_digit_char((n % 10) as int);
        let s = nat_text(n);
        assert forall|i: int| 0 <= i < s.len() implies spec_is_digit(#[trigger] s[i]) by {
            if i < s.len() - 1 {
                assert(s[i] == nat_text(n / 10)[i]);
            }
        }
    }
}

fn digit_str(d: u64) -> (r: &'static str)
    requires
        d < 10,
    ensures
        r@ == seq![digit_char(d as int)],
{
    proof {
        reveal_strlit("0123456789");
    }
    let r = "0123456789".substring_char(d as usize, d as usize + 1);
    assert(r@ =~= seq![digit_char(d as int)]);
    r
}

/// The decimal spelling of `n`.
pub fn u64_text(n: u64) -> (r: String)
    ensures
        r@ == nat_text(n as nat),
{
    let mut s = String::from_str(digit_str(n % 10));
    let mut m: u64 = n / 10;
    while m > 0
        invariant
            m == 0 ==> nat_text(n as nat) == s@,
            m > 0 ==> nat_text(n as nat) == nat_text(m as nat) + s@,
        decreases m,
    {
        let t = String::from_str(digit_str(m % 10));
        let ghost old_s = s@;
        s = t.concat(s.as_str());
        proof {
            if m >= 10 {
                assert(nat_text(m as nat) + old_s =~= nat_text((m / 10) as nat) + s@);
            } else {
                assert(nat_text(m as nat) + old_s =~= s@);
            }
        }
        m = m / 10;
    }
    s
}

pub(crate) fn chars_of(s: &str) -> (r: Vec<char>)
    ensures
        r@ == s@,
{
    let mut v: Vec<char> = Vec::new();
    for c in it: s.chars()
        invariant
            v@ == it.seq().take(it.index() as int),
    {
        v.push(c);
    }
    v
}

fn all_digits(s: &Vec<char>) -> (r: bool)
    ensures
        r == is_digits(s@),
{
    let mut i: usize = 0;
    while i < s.len()
        invariant
            i <= s@.len(),
            forall|k: int| 0 <= k < i ==> spec_is_digit(#[trigger] s@[k]),
        decreases s.len() - i,
    {
        if !('0' <= s[i] && s[i] <= '9') {
            return false;
        }
        i = i + 1;
    }
    true
}

impl Decimal {
    /// The exact decimal of an integer.
    pub fn from_int(x: i64) -> (r: Decimal)
        ensures
            r@ == int_decimal(x as int),
            r@.valid(),
    {
        proof {
            lemma_nat_text_digits((if x < 0 { -(x as int) } else { x as int }) as nat);
        }
        let magnitude: u64 = if x < 0 {
            (-(x + 1)) as u64 + 1
        } else {
            x as u64
        };
        let r = Decimal { negative: x < 0, whole: u64_text(magnitude), fraction: String::new() };
        assert(r@.fraction =~= Seq::<char>::empty());
        r
    }

    /// Whether the number is well formed.
    pub fn is_valid(&self) -> (r: bool)
        ensures
            r == self@.valid(),
    {
        let w = chars_of(self.whole.as_str());
        let f = chars_of(self.fraction.as_str());
        w.len() > 0 && all_digits(&w) && all_digits(&f)
    }

    /// A copy of the number, equal to it.
    pub fn copied(&self) -> (r: Decimal)
        ensures
            r@ == self@,
    {
        Decimal { negative: self.negative, whole: self.whole.clone(), fraction: self.fraction.clone() }
    }

    /// The shortest decimal text of the number.
    pub fn to_string(&self) -> (r: String)
        requires
            self@.valid(),
        ensures
            r@ == decimal_text(self@),
    {
        let w = chars_of(self.whole.as_str());
        let mut i: usize = 0;
        assert(w@.subrange(0, w@.len() as int) =~= w@);
        while i < w.len() && w[i] == '0'
            invariant
                i <= w@.len(),
                strip_leading_zeros(w@) == strip_leading_zeros(w@.subrange(i as int, w@.len() as int)),
            decreases w.len() - i,
        {
            assert(w@.subrange(i as int, w@.len() as int).drop_first() =~= w@.subrange(
                i + 1,
                w@.len() as int,
            ));
            i = i + 1;
        }
        let f = chars_of(self.fraction.as_str());
        let mut j: usize = f.len();
        assert(f@.subrange(0, f@.len() as int) =~= f@);
        while j > 0 && f[j - 1] == '0'
            invariant
                j <= f@.len(),
                strip_trailing_zeros(f@) == strip_trailing_zeros(f@.subrange(0, j as int)),
            decreases j,
        {
            assert(f@.subrange(0, j as int).drop_last() =~= f@.subrange(0, j - 1));
            j = j - 1;
        }
        proof {
            reveal_strlit("-");
            reveal_strlit("0");
            reveal_strlit(".");
        }
        let mut r = if self.negative {
            String::from_str("-")
        } else {
            String::new()
        };
        if i == w.len() {
            r.append("0");
        } else {
            r.append(self.whole.as_str().substring_char(i, w.len()));
        }
        if j > 0 {
            r.append(".");
            r.append(self.fraction.as_str().substring_char(0, j));
        }
        proof {
            let ws = w@.subrange(i as int, w@.len() as int);
            let fs = f@.subrange(0, j as int);
            if i < w.len() {
                assert(strip_leading_zeros(ws) == ws);
            } else {
                assert(ws.len() == 0);
            }
            assert(strip_trailing_zeros(fs) == fs);
            assert(r@ =~= decimal_text(self@));
        }
        r
    }
}

} // verus!
