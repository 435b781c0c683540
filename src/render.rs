//! Turning a resolved value into printable lines.

use vstd::prelude::*;
use crate::value::DocValue;

verus! {

/// The decimal digit for `d`.
pub open spec fn digit_char(d: nat) -> char {
    seq!['0', '1', '2', '3', '4', '5', '6', '7', '8', '9'][d as int]
}

/// The decimal digits of `n`, most significant first, without leading zeros.
pub open spec fn digits(n: nat) -> Seq<char>
    decreases n,
{
    if n < 10 {
        seq![digit_char(n)]
    } else {
        digits(n / 10).push(digit_char(n % 10))
    }
}

/// The decimal text of `i`, with a leading `-` when it is negative.
pub open spec fn decimal(i: int) -> Seq<char> {
    if i < 0 {
        seq!['-'] + digits((-i) as nat)
    } else {
        digits(i as nat)
    }
}

fn digit_text(d: u64) -> (r: String)
    requires
        d < 10,
    ensures
        r@ == seq![digit_char(d as nat)],
{
    proof {
        reveal_strlit("0123456789");
    }
    let all = "0123456789";
    let piece = all.substring_char(d as usize, d as usize + 1);
    assert(piece@ =~= seq![digit_char(d as nat)]);
    piece.to_owned()
}

/// Writes `i` in decimal.
pub fn decimal_text(i: i64) -> (r: String)
    ensures
        r@ == decimal(i as int),
{
    let mut n: u64 = if i < 0 {
        (0i128 - i as i128) as u64
    } else {
        i as u64
    };
    let ghost whole = n as nat;
    let mut tail = String::new();
    while n >= 10
        invariant
            digits(whole) == digits(n as nat) + tail@,
        decreases n,
    {
        let d = digit_text(n % 10);
        let ghost old_tail = tail@;
        tail = d.concat(tail.as_str());
        assert(digits(n as nat) == digits((n / 10) as nat).push(digit_char((n % 10) as nat)));
        assert(digits(n as nat) + old_tail =~= digits((n / 10) as nat) + tail@);
        n = n / 10;
    }
    let lead = digit_text(n);
    let ghost old_tail = tail@;
    let body = lead.concat(tail.as_str());
    assert(body@ =~= digits(n as nat) + old_tail);
    if i < 0 {
        proof {
            reveal_strlit("-");
        }
        let minus = "-".to_owned();
        let r = minus.concat(body.as_str());
        assert(r@ =~= decimal(i as int));
        r
    } else {
        body
    }
}

/// The text of a boolean.
pub open spec fn bool_text(b: bool) -> Seq<char> {
    if b {
        seq!['t', 'r', 'u', 'e']
    } else {
        seq!['f', 'a', 'l', 's', 'e']
    }
}

/// The lines that print `v`: one per scalar, arrays flattened in order.
/// `None` where a table stands anywhere in `v`.
pub open spec fn lines_of(v: DocValue) -> Option<Seq<Seq<char>>>
    decreases v,
{
    match v {
        DocValue::Str(s) => Some(seq![s@]),
        DocValue::Integer(i) => Some(seq![decimal(i as int)]),
        DocValue::Float(t) => Some(seq![t@]),
        DocValue::Boolean(b) => Some(seq![bool_text(b)]),
        DocValue::Datetime(t) => Some(seq![t@]),
        DocValue::Array(items) => lines_of_items(items@),
        DocValue::Table(_) => None,
    }
}

/// The lines of the elements of an array, one after the other; `None` where
/// any element has none.
pub open spec fn lines_of_items(items: Seq<DocValue>) -> Option<Seq<Seq<char>>>
    decreases items,
{
    if items.len() == 0 {
        Some(Seq::<Seq<char>>::empty())
    } else {
        match (lines_of_items(items.subrange(0, items.len() - 1)), lines_of(items.last())) {
            (Some(front), Some(back)) => Some(front + back),
            _ => None,
        }
    }
}

/// A table found where a printable value was wanted. `within_array` tells
/// whether it stood inside an array.
#[derive(Debug, PartialEq, Eq, Structural)]
pub enum RenderError {
    UnprintableTable { within_array: bool },
}

fn bool_string(b: bool) -> (r: String)
    ensures
        r@ == bool_text(b),
{
    if b {
        proof {
            reveal_strlit("true");
        }
        "true".to_owned()
    } else {
        proof {
            reveal_strlit("false");
        }
        "false".to_owned()
    }
}

/// Renders `v` as printable lines. A table is refused; `within_array` tells
/// the context it is refused in, and every element of an array is rendered
/// within an array.
pub fn render(v: &DocValue, within_array: bool) -> (r: Result<Vec<String>, RenderError>)
    ensures
        match r {
            Ok(lines) => lines_of(*v) == Some(lines@.map_values(|s: String| s@)),
            Err(e) => lines_of(*v) is None && e == (RenderError::UnprintableTable {
                within_array: within_array || v is Array,
            }),
        },
    decreases v,
{
    match v {
        DocValue::Str(s) => {
            let r = vec![s.clone()];
            assert(r@.map_values(|s: String| s@) =~= seq![s@]);
            Ok(r)
        },
        DocValue::Integer(i) => {
            let r = vec![decimal_text(*i)];
            assert(r@.map_values(|s: String| s@) =~= seq![decimal(*i as int)]);
            Ok(r)
        },
        DocValue::Float(t) => {
            let r = vec![t.clone()];
            assert(r@.map_values(|s: String| s@) =~= seq![t@]);
            Ok(r)
        },
        DocValue::Boolean(b) => {
            let r = vec![bool_string(*b)];
            assert(r@.map_values(|s: String| s@) =~= seq![bool_text(*b)]);
            Ok(r)
        },
        DocValue::Datetime(t) => {
            let r = vec![t.clone()];
            assert(r@.map_values(|s: String| s@) =~= seq![t@]);
            Ok(r)
        },
        DocValue::Array(items) => {
            let mut out: Vec<String> = Vec::new();
            let mut i: usize = 0;
            assert(items@.subrange(0, 0) =~= Seq::<DocValue>::empty());
            while i < items.len()
                invariant
                    *v == DocValue::Array(*items),
                    i <= items@.len(),
                    lines_of_items(items@.subrange(0, i as int)) == Some(
                        out@.map_values(|s: String| s@),
                    ),
                decreases items@.len() - i,
            {
                let ghost pre = items@.subrange(0, i + 1);
                assert(pre.subrange(0, pre.len() - 1) =~= items@.subrange(0, i as int));
                assert(pre.last() == items@[i as int]);
                proof {
                    assert(decreases_to!(*v => *items));
                    assert(decreases_to!(*items => items@));
                    assert(decreases_to!(items@ => items@[i as int]));
                }
                match render(&items[i], true) {
                    Ok(lines) => {
                        let ghost before = out@;
                        let mut more = lines;
                        out.append(&mut more);
                        assert(out@.map_values(|s: String| s@) =~= before.map_values(
                            |s: String| s@,
                        ) + lines@.map_values(|s: String| s@));
                    },
                    Err(_) => {
                        proof {
                            lemma_items_none(items@, i as int);
                            assert(lines_of(*v) == lines_of_items(items@));
                        }
                        return Err(RenderError::UnprintableTable { within_array: true });
                    },
                }
                i = i + 1;
            }
            assert(items@.subrange(0, items@.len() as int) =~= items@);
            Ok(out)
        },
        DocValue::Table(_) => Err(RenderError::UnprintableTable { within_array }),
    }
}

/// An element without lines leaves the whole array without lines.
pub proof fn lemma_items_none(items: Seq<DocValue>, i: int)
    requires
        0 <= i < items.len(),
        lines_of(items[i]) is None,
    ensures
        lines_of_items(items) is None,
    decreases items.len(),
{
    let init = items.subrange(0, items.len() - 1);
    if i < items.len() - 1 {
        assert(init[i] == items[i]);
        lemma_items_none(init, i);
    }
}

/// An array with a table among its elements cannot be printed, whatever its
/// other elements are.
pub proof fn table_in_array_is_unprintable(v: DocValue, i: int)
    requires
        v is Array,
        0 <= i < v->Array_0@.len(),
        v->Array_0@[i] is Table,
    ensures
        lines_of(v) is None,
{
    lemma_items_none(v->Array_0@, i);
}

/// Two scalars of the same kind and the same content.
pub open spec fn same_scalar(a: DocValue, b: DocValue) -> bool {
    match (a, b) {
        (DocValue::Str(x), DocValue::Str(y)) => x@ == y@,
        (DocValue::Integer(x), DocValue::Integer(y)) => x == y,
        (DocValue::Float(x), DocValue::Float(y)) => x@ == y@,
        (DocValue::Boolean(x), DocValue::Boolean(y)) => x == y,
        (DocValue::Datetime(x), DocValue::Datetime(y)) => x@ == y@,
        _ => false,
    }
}

/// The printed form of a scalar depends on its kind and content alone:
/// scalars alike in both print alike, as one line.
pub proof fn alike_scalars_print_alike(a: DocValue, b: DocValue)
    requires
        same_scalar(a, b),
    ensures
        lines_of(a) == lines_of(b),
        lines_of(a) matches Some(lines) && lines.len() == 1,
{
}

} // verus!
