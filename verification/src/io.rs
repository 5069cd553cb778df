//! Output rendering: the flat text the file-writer collaborator
//! receives, one `<count>x <name>` line per entry.
use vstd::prelude::*;
use vstd::string::StringExecFns;
use crate::CardModel;
use crate::request::CardList;

verus! {

/// The decimal digit character for `d`.
pub open spec fn digit_char(d: int) -> char {
    if d == 0 {
        '0'
    } else if d == 1 {
        '1'
    } else if d == 2 {
        '2'
    } else if d == 3 {
        '3'
    } else if d == 4 {
        '4'
    } else if d == 5 {
        '5'
    } else if d == 6 {
        '6'
    } else if d == 7 {
        '7'
    } else if d == 8 {
        '8'
    } else {
        '9'
    }
}

/// Decimal text of a non-negative number, most significant digit
/// first, with no leading zeroes.
pub open spec fn spec_digits(n: int) -> Seq<char>
    decreases n,
{
    if n < 10 {
        seq![digit_char(n)]
    } else {
        spec_digits(n / 10).push(digit_char(n % 10))
    }
}

/// One line of the output: the count, a literal `x `, the name, and
/// a newline.
pub open spec fn spec_entry_line(c: CardModel) -> Seq<char> {
    spec_digits(c.count) + "x "@ + c.name + "\n"@
}

/// The whole output: the entries' lines in order.
pub open spec fn spec_render(s: Seq<CardModel>) -> Seq<char>
    decreases s.len(),
{
    if s.len() == 0 {
        Seq::<char>::empty()
    } else {
        spec_render(s.drop_last()) + spec_entry_line(s.last())
    }
}

/// The character for one digit.
fn digit_str(d: u8) -> (s: &'static str)
    requires
        d < 10,
    ensures
        s@ == seq![digit_char(d as int)],
{
    let lit = "0123456789";
    proof {
        reveal_strlit("0123456789");
    }
    let s = lit.substring_char(d as usize, d as usize + 1);
    proof {
        assert(s@ =~= seq![digit_char(d as int)]);
    }
    s
}

/// Decimal text of a count.
pub fn u8_digits(n: u8) -> (s: String)
    ensures
        s@ == spec_digits(n as int),
{
    if n < 10 {
        String::from_str(digit_str(n))
    } else if n < 100 {
        let s = String::from_str(digit_str(n / 10)).concat(digit_str(n % 10));
        proof {
            reveal_with_fuel(spec_digits, 3);
            assert(s@ =~= spec_digits(n as int));
        }
        s
    } else {
        let s = String::from_str(digit_str(n / 100)).concat(digit_str((n / 10) % 10)).concat(
            digit_str(n % 10),
        );
        proof {
            reveal_with_fuel(spec_digits, 4);
            assert(((n as int) / 10) / 10 == (n as int) / 100) by (nonlinear_arith);
            assert(s@ =~= spec_digits(n as int));
        }
        s
    }
}

/// Renders the finished collection as the flat text the file writer
/// stores: one `<count>x <name>` line per entry, a newline after
/// each.
pub fn render_list(list: &CardList) -> (s: String)
    ensures
        s@ == spec_render(list@),
{
    let mut s = String::new();
    let n = list.len();
    let mut i: usize = 0;
    proof {
        assert(list@.take(0) =~= Seq::<CardModel>::empty());
    }
    while i < n
        invariant
            n == list@.len(),
            0 <= i <= n,
            s@ == spec_render(list@.take(i as int)),
        decreases n - i,
    {
        let c = list.get(i);
        let cnt = u8_digits(c.count);
        s.append(cnt.as_str());
        s.append("x ");
        s.append(c.name.as_str());
        s.append("\n");
        proof {
            assert(list@.take(i + 1).drop_last() =~= list@.take(i as int));
            assert(list@.take(i + 1).last() == list@[i as int]);
            assert(s@ =~= spec_render(list@.take(i + 1)));
        }
        i = i + 1;
    }
    proof {
        assert(list@.take(n as int) =~= list@);
    }
    s
}

} // verus!
