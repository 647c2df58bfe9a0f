//! Numbers of the language: exact decimals, kept as their canonical text.

use vstd::prelude::*;
use crate::chars::{
    chars_of, digit, digits, lemma_run_end, lemma_tail_start_is, run_end, string_of, tail_start,
};

verus! {

/// Whether `s` is a plain decimal: digits with at most one point among
/// them, and at least one digit.
pub open spec fn is_decimal(s: Seq<char>) -> bool {
    let point = run_end(s, 0, digits());
    &&& s.len() > 0
    &&& point < s.len() ==> s[point] == '.' && s.len() > 1 && run_end(s, point + 1, digits())
        == s.len()
}

/// The class that holds `'0'` alone.
pub open spec fn zeros() -> spec_fn(char) -> bool {
    |c: char| c == '0'
}

/// The digits of a plain decimal that stand before the point.
pub open spec fn whole_part(s: Seq<char>) -> Seq<char> {
    s.subrange(0, run_end(s, 0, digits()))
}

/// The digits of a plain decimal that stand after the point.
pub open spec fn fraction_part(s: Seq<char>) -> Seq<char> {
    let point = run_end(s, 0, digits());
    if point < s.len() {
        s.subrange(point + 1, s.len() as int)
    } else {
        Seq::empty()
    }
}

/// The index of the first character of `s` that is not `'0'`, or the length
/// of `s`.
pub open spec fn leading_zeros(s: Seq<char>) -> int {
    run_end(s, 0, zeros())
}

/// The canonical text of a numeric literal. A plain decimal loses the zeros
/// before its whole part and after its fraction, keeps one `0` where the
/// whole part is zero, and loses the point where no fraction is left. Any
/// other text stands for zero.
pub open spec fn canonical(s: Seq<char>) -> Seq<char> {
    if !is_decimal(s) {
        seq!['0']
    } else {
        let whole = whole_part(s);
        let fraction = fraction_part(s);
        let w = whole.subrange(leading_zeros(whole), whole.len() as int);
        let f = fraction.subrange(0, tail_start(fraction, zeros()));
        let head = if w.len() == 0 {
            seq!['0']
        } else {
            w
        };
        if f.len() == 0 {
            head
        } else {
            head + seq!['.'] + f
        }
    }
}

/// A number of the language: an exact decimal, held as canonical text.
#[derive(Debug, PartialEq)]
pub struct Number {
    text: String,
}

impl View for Number {
    type V = Seq<char>;

    /// The canonical text of the number.
    closed spec fn view(&self) -> Seq<char> {
        self.text@
    }
}

impl Clone for Number {
    fn clone(&self) -> (r: Self)
        ensures
            r@ == self@,
    {
        Number { text: self.text.clone() }
    }
}

/// The end of the run of digits that starts at `start`.
fn digits_end(v: &Vec<char>, start: usize) -> (end: usize)
    requires
        start <= v.len(),
    ensures
        end == run_end(v@, start as int, digits()),
        start <= end <= v.len(),
{
    let mut i: usize = start;
    proof {
        lemma_run_end(v@, start as int, digits());
    }
    while i < v.len() && digit(v[i])
        invariant
            start <= i <= v.len(),
            run_end(v@, i as int, digits()) == run_end(v@, start as int, digits()),
        decreases v.len() - i,
    {
        i += 1;
    }
    i
}

impl Number {
    /// Reads a numeric literal.
    pub fn parse(literal: &str) -> (n: Number)
        ensures
            n@ == canonical(literal@),
    {
        let v = chars_of(literal);
        let len = v.len();
        let point = digits_end(&v, 0);
        let mut well_formed = len > 0;
        let mut fraction_start: usize = len;
        if point < len {
            if v[point] == '.' && len > 1 {
                fraction_start = point + 1;
                let end = digits_end(&v, fraction_start);
                well_formed = end == len;
            } else {
                well_formed = false;
            }
        }
        proof {
            reveal_strlit("0");
            assert("0"@ =~= seq!['0']);
        }
        if !well_formed {
            return Number { text: String::from_str("0") };
        }
        let ghost whole = whole_part(v@);
        let ghost fraction = fraction_part(v@);
        assert(whole == v@.subrange(0, point as int));
        assert(fraction == v@.subrange(fraction_start as int, len as int));
        // Zeros in front of the whole part.
        let mut first: usize = 0;
        while first < point && v[first] == '0'
            invariant
                first <= point <= len,
                len == v.len(),
                whole == v@.subrange(0, point as int),
                run_end(whole, first as int, zeros()) == leading_zeros(whole),
            decreases point - first,
        {
            assert(whole[first as int] == v[first as int]);
            first += 1;
        }
        assert(leading_zeros(whole) == first) by {
            if first < point {
                assert(whole[first as int] == v[first as int]);
            }
        }
        // Zeros behind the fraction.
        let mut last: usize = len;
        while last > fraction_start && v[last - 1] == '0'
            invariant
                fraction_start <= last <= len,
                len == v.len(),
                forall|k: int| last <= k < len ==> v[k] == '0',
            decreases last,
        {
            last -= 1;
        }
        proof {
            let n = last - fraction_start;
            assert forall|k: int| n <= k < fraction.len() implies #[trigger] fraction[k]
                == '0' by {
                assert(fraction[k] == v[k + fraction_start]);
            }
            if n > 0 {
                assert(fraction[n - 1] == v[last - 1]);
            }
            lemma_tail_start_is(fraction, n, zeros());
        }
        let mut text = if first < point {
            string_of(&v, first, point)
        } else {
            String::from_str("0")
        };
        proof {
            assert(whole.subrange(first as int, whole.len() as int) =~= v@.subrange(
                first as int,
                point as int,
            ));
        }
        if fraction_start < last {
            let f = string_of(&v, fraction_start, last);
            text.push('.');
            text.append(f.as_str());
            assert(fraction.subrange(0, last - fraction_start) =~= f@);
            assert(text@ =~= canonical(v@));
        } else {
            assert(text@ =~= canonical(v@));
        }
        Number { text }
    }

    /// Tests whether two numbers are the same decimal.
    pub fn same_as(&self, other: &Number) -> (same: bool)
        ensures
            same == (self@ == other@),
    {
        self.text == other.text
    }

    /// The canonical text of the number.
    pub fn to_text(&self) -> (s: String)
        ensures
            s@ == self@,
    {
        self.text.clone()
    }
}

} // verus!
