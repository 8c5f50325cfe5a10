use vstd::prelude::*;
use vstd::string::*;

use crate::digits::{
    all_digits, decimal_digits, digit_char, digit_count, digits_value, is_digit,
    lemma_decimal_digits, lemma_digit_count_pos, lemma_digit_count_u32,
    lemma_digits_value_prefix,
};

verus! {

/// A title identifier: the number behind the `tt0000001` form.
#[derive(Clone, Copy, PartialEq, Eq, Hash, Debug, Structural)]
pub struct Id(pub u32);

/// The text of a title identifier was not `tt` followed by at least seven digits
/// denoting a number that fits in 32 bits.
#[derive(Clone, Copy, PartialEq, Eq, Debug, Structural)]
pub struct InvalidId;

/// The external form of `v`: `tt`, then the decimal digits of `v`,
/// zero-padded to at least seven.
pub open spec fn id_text(v: u32) -> Seq<char> {
    let n = digit_count(v as nat);
    seq!['t', 't'] + decimal_digits(v as nat, if n < 7 { 7 } else { n })
}

/// The texts that the parser accepts.
pub open spec fn is_id_text(s: Seq<char>) -> bool {
    &&& s.len() >= 9
    &&& s[0] == 't'
    &&& s[1] == 't'
    &&& all_digits(s.skip(2))
    &&& digits_value(s.skip(2)) <= u32::MAX
}

/// The number that an accepted text denotes.
pub open spec fn id_value(s: Seq<char>) -> nat {
    digits_value(s.skip(2))
}

fn digit_str(d: u32) -> (r: &'static str)
    requires
        d < 10,
    ensures
        r@ == seq![digit_char(d as nat)],
{
    proof {
        reveal_strlit("0");
        reveal_strlit("1");
        reveal_strlit("2");
        reveal_strlit("3");
        reveal_strlit("4");
        reveal_strlit("5");
        reveal_strlit("6");
        reveal_strlit("7");
        reveal_strlit("8");
        reveal_strlit("9");
    }
    match d {
        0 => "0",
        1 => "1",
        2 => "2",
        3 => "3",
        4 => "4",
        5 => "5",
        6 => "6",
        7 => "7",
        8 => "8",
        _ => "9",
    }
}

/// Appends the last `w` decimal digits of `v` to `out`.
fn push_digits(out: &mut String, v: u32, w: usize)
    ensures
        final(out)@ == old(out)@ + decimal_digits(v as nat, w as nat),
    decreases w,
{
    if w > 0 {
        push_digits(out, v / 10, w - 1);
        out.append(digit_str(v % 10));
        assert(final(out)@ =~= old(out)@ + decimal_digits(v as nat, w as nat));
    }
}

fn count_digits(v: u32) -> (r: usize)
    ensures
        r == digit_count(v as nat),
        r <= 10,
{
    let mut n: usize = 1;
    let mut rest: u32 = v;
    proof {
        lemma_digit_count_u32(v);
    }
    while rest >= 10
        invariant
            n + digit_count(rest as nat) == digit_count(v as nat) + 1,
            digit_count(v as nat) <= 10,
            1 <= n,
        decreases rest,
    {
        proof {
            lemma_digit_count_pos((rest / 10) as nat);
        }
        rest = rest / 10;
        n = n + 1;
    }
    n
}

impl Id {
    pub fn get(&self) -> (r: u32)
        ensures
            r == self.0,
    {
        self.0
    }

    /// The external form, such as `tt0000001`.
    pub fn to_string(&self) -> (r: String)
        ensures
            r@ == id_text(self.0),
    {
        let n = count_digits(self.0);
        let w: usize = if n < 7 { 7 } else { n };
        let mut out = String::new();
        proof {
            reveal_strlit("tt");
        }
        out.append("tt");
        push_digits(&mut out, self.0, w);
        out
    }

    /// Reads the external form: `tt` and at least seven decimal digits.
    pub fn parse(s: &str) -> (r: Result<Id, InvalidId>)
        ensures
            r is Ok <==> is_id_text(s@),
            r matches Ok(id) ==> id.0 == id_value(s@),
    {
        let n = s.unicode_len();
        if n < 9 {
            return Err(InvalidId);
        }
        if s.get_char(0) != 't' || s.get_char(1) != 't' {
            return Err(InvalidId);
        }
        let ghost t = s@.skip(2);
        let mut acc: u64 = 0;
        let mut i: usize = 2;
        while i < n
            invariant
                2 <= i <= n,
                n == s@.len(),
                t == s@.skip(2),
                all_digits(t.subrange(0, i - 2)),
                acc == digits_value(t.subrange(0, i - 2)),
                acc <= u32::MAX,
            decreases n - i,
        {
            let c = s.get_char(i);
            if c < '0' || c > '9' {
                assert(!is_digit(t[i - 2]));
                return Err(InvalidId);
            }
            let d = (c as u32 - '0' as u32) as u64;
            acc = acc * 10 + d;
            assert(t.subrange(0, i - 1).drop_last() =~= t.subrange(0, i - 2));
            if acc > u32::MAX as u64 {
                proof {
                    lemma_digits_value_prefix(t, i - 1);
                }
                return Err(InvalidId);
            }
            i = i + 1;
        }
        assert(t.subrange(0, n - 2) =~= t);
        Ok(Id(acc as u32))
    }
}

/// Formatting an identifier and reading the text back gives the same identifier.
pub proof fn lemma_id_round_trip(id: Id)
    ensures
        is_id_text(id_text(id.0)),
        id_value(id_text(id.0)) == id.0,
{
    let n = digit_count(id.0 as nat);
    let w: nat = if n < 7 { 7 } else { n };
    lemma_decimal_digits(id.0 as nat, w);
    assert(id_text(id.0).skip(2) =~= decimal_digits(id.0 as nat, w));
}

} // verus!
