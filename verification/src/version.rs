//! Ordering of version strings: `version_compare` first, plain text order of
//! the trimmed strings when either side does not parse as a version.
use vstd::prelude::*;
use crate::text::{str_chars, trim, trim_chars};

verus! {

/// Outcome of comparing a left value with a right value.
#[derive(Debug, Clone, Copy, PartialEq, Eq, Structural)]
pub enum Order {
    Less,
    Equal,
    Greater,
}

/// What `version_compare::compare` reports for two version strings:
/// `Some` of `Lt`, `Eq` or `Gt`, and `None` when either string is not a version.
pub uninterp spec fn version_compare_outcome(left: Seq<char>, right: Seq<char>) -> Option<Order>;

/// Calls `version_compare::compare(left, right)`; an error, or an operator
/// other than `Lt`, `Eq` and `Gt`, becomes `None`.
#[verifier::external_body]
fn version_compare_call(left: &str, right: &str) -> (r: Option<Order>)
    ensures
        r == version_compare_outcome(left@, right@),
{
    match version_compare::compare(left, right) {
        Ok(version_compare::Cmp::Lt) => Some(Order::Less),
        Ok(version_compare::Cmp::Eq) => Some(Order::Equal),
        Ok(version_compare::Cmp::Gt) => Some(Order::Greater),
        Ok(version_compare::Cmp::Ne) => None,
        Ok(version_compare::Cmp::Le) => None,
        Ok(version_compare::Cmp::Ge) => None,
        Err(()) => None,
    }
}

/// Lexicographic order of two texts by code point (the order of `str`).
pub open spec fn lex_order(a: Seq<char>, b: Seq<char>) -> Order
    decreases a.len(),
{
    if a.len() == 0 && b.len() == 0 {
        Order::Equal
    } else if a.len() == 0 {
        Order::Less
    } else if b.len() == 0 {
        Order::Greater
    } else if a[0] < b[0] {
        Order::Less
    } else if a[0] > b[0] {
        Order::Greater
    } else {
        lex_order(a.drop_first(), b.drop_first())
    }
}

/// The order of two version strings given what `version_compare` reported
/// for them: its verdict, or else the trimmed strings in text order.
pub open spec fn order_with_outcome(outcome: Option<Order>, left: Seq<char>, right: Seq<char>) -> Order {
    match outcome {
        Some(o) => o,
        None => lex_order(trim(left), trim(right)),
    }
}

/// The order `compare_versions` gives two version strings.
pub open spec fn version_order(left: Seq<char>, right: Seq<char>) -> Order {
    order_with_outcome(version_compare_outcome(left, right), left, right)
}

pub fn lex_order_chars(a: &Vec<char>, b: &Vec<char>) -> (r: Order)
    ensures
        r == lex_order(a@, b@),
{
    let mut i: usize = 0;
    assert(a@.skip(0) == a@);
    assert(b@.skip(0) == b@);
    loop
        invariant
            i <= a.len(),
            i <= b.len(),
            lex_order(a@, b@) == lex_order(a@.skip(i as int), b@.skip(i as int)),
        decreases a.len() - i,
    {
        let ghost sa = a@.skip(i as int);
        let ghost sb = b@.skip(i as int);
        if i == a.len() && i == b.len() {
            return Order::Equal;
        } else if i == a.len() {
            return Order::Less;
        } else if i == b.len() {
            return Order::Greater;
        }
        assert(sa[0] == a@[i as int]);
        assert(sb[0] == b@[i as int]);
        if a[i] < b[i] {
            return Order::Less;
        } else if a[i] > b[i] {
            return Order::Greater;
        }
        assert(sa.drop_first() == a@.skip(i + 1));
        assert(sb.drop_first() == b@.skip(i + 1));
        i += 1;
    }
}

/// Orders two version strings from what `version_compare` reported for them:
/// its verdict when there is one, otherwise the trimmed strings in text order.
pub fn version_order_from_outcome(outcome: Option<Order>, left: &str, right: &str) -> (r: Order)
    ensures
        r == order_with_outcome(outcome, left@, right@),
{
    match outcome {
        Some(o) => o,
        None => {
            let l = trim_chars(&str_chars(left));
            let rt = trim_chars(&str_chars(right));
            lex_order_chars(&l, &rt)
        },
    }
}

/// Orders two version strings: `version_compare` when both parse, otherwise
/// the trimmed strings in text order.
pub fn compare_versions(left: &str, right: &str) -> (r: Order)
    ensures
        r == version_order(left@, right@),
{
    let outcome = version_compare_call(left, right);
    version_order_from_outcome(outcome, left, right)
}

} // verus!
