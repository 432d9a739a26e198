//! Decimal rendering of a list of integers: `"[]"` when empty, otherwise
//! the numerals in traversal order between brackets, separated by `", "`.

use vstd::prelude::*;
use vstd::string::StringExecFns;
use crate::list::List;
use crate::list::Node;

verus! {

/// The decimal digit character for `d`.
pub open spec fn digit_char(d: nat) -> char {
    if d == 0 {
        '0'
    } else if d == 1 {
        '1'
    } else if d == 2 {
        '2'
    } else if d == 3 {
        '3'
    } else if d == 4 {
        '4'
    } else if d == 5 {
        '5'
    } else if d == 6 {
        '6'
    } else if d == 7 {
        '7'
    } else if d == 8 {
        '8'
    } else {
        '9'
    }
}

/// The decimal digits of `n`, most significant first, with no leading zero
/// except for `n == 0` itself.
pub open spec fn digits_of(n: nat) -> Seq<char>
    decreases n,
{
    if n < 10 {
        seq![digit_char(n)]
    } else {
        digits_of(n / 10) + seq![digit_char(n % 10)]
    }
}

/// The decimal numeral of `i`, with a leading minus sign when negative.
pub open spec fn decimal_of(i: int) -> Seq<char> {
    if i >= 0 {
        digits_of(i as nat)
    } else {
        seq!['-'] + digits_of((-i) as nat)
    }
}

/// The items as numerals separated by `", "`; empty for the empty sequence.
pub open spec fn items_rendered(s: Seq<i32>) -> Seq<char>
    decreases s.len(),
{
    if s.len() == 0 {
        Seq::empty()
    } else if s.len() == 1 {
        decimal_of(s[0] as int)
    } else {
        decimal_of(s[0] as int) + seq![',', ' '] + items_rendered(s.drop_first())
    }
}

/// Order preservation: the items stand in the display in the exact order
/// they entered the list.  Appending an item appends its numeral at the
/// right-hand end of the rendering, after everything already there; no
/// earlier numeral moves.
pub proof fn lemma_items_rendered_push(s: Seq<i32>, x: i32)
    ensures
        items_rendered(s.push(x)) == if s.len() == 0 {
            decimal_of(x as int)
        } else {
            items_rendered(s) + seq![',', ' '] + decimal_of(x as int)
        },
    decreases s.len(),
{
    let t = s.push(x);
    if s.len() == 0 {
        assert(t.len() == 1);
        assert(t[0] == x);
    } else if s.len() == 1 {
        assert(t.drop_first() =~= seq![x]);
        assert(items_rendered(seq![x]) == decimal_of(x as int));
        assert(items_rendered(s) == decimal_of(s[0] as int));
        assert(t[0] == s[0]);
        assert(items_rendered(t) =~= items_rendered(s) + seq![',', ' '] + decimal_of(x as int));
    } else {
        assert(t.drop_first() =~= s.drop_first().push(x));
        lemma_items_rendered_push(s.drop_first(), x);
        assert(items_rendered(t) =~= items_rendered(s) + seq![',', ' '] + decimal_of(x as int));
    }
}

/// The full display of a list of items: the rendered items between brackets.
pub open spec fn rendered(s: Seq<i32>) -> Seq<char> {
    seq!['['] + items_rendered(s) + seq![']']
}

/// The one-character string for the digit `d`.
fn digit_str(d: u32) -> (r: &'static str)
    requires
        d < 10,
    ensures
        r@ == seq![digit_char(d as nat)],
{
    if d == 0 {
        proof {
            reveal_strlit("0");
            assert("0"@ =~= seq![digit_char(0)]);
        }
        "0"
    } else if d == 1 {
        proof {
            reveal_strlit("1");
            assert("1"@ =~= seq![digit_char(1)]);
        }
        "1"
    } else if d == 2 {
        proof {
            reveal_strlit("2");
            assert("2"@ =~= seq![digit_char(2)]);
        }
        "2"
    } else if d == 3 {
        proof {
            reveal_strlit("3");
            assert("3"@ =~= seq![digit_char(3)]);
        }
        "3"
    } else if d == 4 {
        proof {
            reveal_strlit("4");
            assert("4"@ =~= seq![digit_char(4)]);
        }
        "4"
    } else if d == 5 {
        proof {
            reveal_strlit("5");
            assert("5"@ =~= seq![digit_char(5)]);
        }
        "5"
    } else if d == 6 {
        proof {
            reveal_strlit("6");
            assert("6"@ =~= seq![digit_char(6)]);
        }
        "6"
    } else if d == 7 {
        proof {
            reveal_strlit("7");
            assert("7"@ =~= seq![digit_char(7)]);
        }
        "7"
    } else if d == 8 {
        proof {
            reveal_strlit("8");
            assert("8"@ =~= seq![digit_char(8)]);
        }
        "8"
    } else {
        proof {
            reveal_strlit("9");
            assert("9"@ =~= seq![digit_char(9)]);
        }
        "9"
    }
}

/// Appends the decimal digits of `n` to `out`.
fn push_digits(n: u32, out: &mut String)
    ensures
        final(out)@ == old(out)@ + digits_of(n as nat),
    decreases n,
{
    if n >= 10 {
        push_digits(n / 10, out);
    }
    let d = digit_str(n % 10);
    out.append(d);
    proof {
        assert(out@ =~= old(out)@ + digits_of(n as nat));
    }
}

/// Appends the decimal numeral of `v` to `out`.
fn push_numeral(v: i32, out: &mut String)
    ensures
        final(out)@ == old(out)@ + decimal_of(v as int),
{
    if v < 0 {
        proof {
            reveal_strlit("-");
            assert("-"@ =~= seq!['-']);
        }
        out.append("-");
        let wide: i64 = v as i64;
        let magnitude: u32 = (-wide) as u32;
        assert(magnitude as nat == -(v as int));
        push_digits(magnitude, out);
        proof {
            assert(out@ =~= old(out)@ + decimal_of(v as int));
        }
    } else {
        push_digits(v as u32, out);
    }
}

impl<'a> Node<'a, i32> {
    /// Appends the numerals of this node's chain, separated by `", "`.
    fn write_items(&self, out: &mut String)
        ensures
            final(out)@ == old(out)@ + items_rendered(self@),
        decreases *self,
    {
        push_numeral(*self.item, out);
        match &self.next {
            None => {},
            Some(rest) => {
                proof {
                    reveal_strlit(", ");
                    assert(", "@ =~= seq![',', ' ']);
                }
                out.append(", ");
                rest.write_items(out);
                proof {
                    assert(self@.drop_first() =~= rest@);
                    assert(out@ =~= old(out)@ + items_rendered(self@));
                }
            },
        }
    }
}

impl<'a> List<'a, i32> {
    /// Renders the list: `"[]"` when empty, otherwise the items in
    /// traversal order between brackets, separated by `", "`.
    pub fn display(&self) -> (r: String)
        ensures
            r@ == rendered(self@),
    {
        let mut out = String::new();
        proof {
            reveal_strlit("[");
            assert("["@ =~= seq!['[']);
            reveal_strlit("]");
            assert("]"@ =~= seq![']']);
        }
        out.append("[");
        match &self.head {
            None => {},
            Some(node) => {
                node.write_items(&mut out);
            },
        }
        out.append("]");
        proof {
            assert(out@ =~= rendered(self@));
        }
        out
    }
}

} // verus!
