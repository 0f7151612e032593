//! Three-way comparison results and the orders the dock sorts by.

use vstd::prelude::*;

use crate::text::{lemma_seq_lt_transitive, lemma_seq_lt_trichotomy, seq_lt, str_lt};

verus! {

/// The result of comparing two values.
#[derive(Clone, Copy, Debug, PartialEq, Eq, Structural)]
pub enum Order {
    Less,
    Equal,
    Greater,
}

/// `first`, unless it is `Equal`, in which case `second`.
pub open spec fn or_else_order(first: Order, second: Order) -> Order {
    if first == Order::Equal {
        second
    } else {
        first
    }
}

/// The comparison seen from the other side.
pub open spec fn flip(o: Order) -> Order {
    match o {
        Order::Less => Order::Greater,
        Order::Equal => Order::Equal,
        Order::Greater => Order::Less,
    }
}

/// Numbers in their natural order.
pub open spec fn ord_int(a: int, b: int) -> Order {
    if a < b {
        Order::Less
    } else if a == b {
        Order::Equal
    } else {
        Order::Greater
    }
}

/// Strings in lexicographic order of code points.
pub open spec fn ord_seq(a: Seq<char>, b: Seq<char>) -> Order {
    if seq_lt(a, b) {
        Order::Less
    } else if a == b {
        Order::Equal
    } else {
        Order::Greater
    }
}

/// Optional strings: absent first, then in lexicographic order.
pub open spec fn ord_opt_seq(a: Option<Seq<char>>, b: Option<Seq<char>>) -> Order {
    match (a, b) {
        (None, None) => Order::Equal,
        (None, Some(_)) => Order::Less,
        (Some(_), None) => Order::Greater,
        (Some(x), Some(y)) => ord_seq(x, y),
    }
}

/// Pairs of numbers, first component first.
pub open spec fn ord_pair(a: (int, int), b: (int, int)) -> Order {
    or_else_order(ord_int(a.0, b.0), ord_int(a.1, b.1))
}

/// The comparison says "less or equal".
pub open spec fn no_greater(o: Order) -> bool {
    o != Order::Greater
}

/// String comparison is antisymmetric, transitive, and `Equal` only on equal strings.
pub proof fn lemma_ord_seq(a: Seq<char>, b: Seq<char>, c: Seq<char>)
    ensures
        ord_seq(a, b) == flip(ord_seq(b, a)),
        ord_seq(a, b) == Order::Equal <==> a == b,
        no_greater(ord_seq(a, b)) && no_greater(ord_seq(b, c)) ==> no_greater(ord_seq(a, c)),
        ord_seq(a, b) == Order::Less && no_greater(ord_seq(b, c)) ==> ord_seq(a, c) == Order::Less,
        no_greater(ord_seq(a, b)) && ord_seq(b, c) == Order::Less ==> ord_seq(a, c) == Order::Less,
{
    lemma_seq_lt_trichotomy(a, b);
    lemma_seq_lt_trichotomy(b, c);
    lemma_seq_lt_trichotomy(a, c);
    if seq_lt(a, b) && seq_lt(b, c) {
        lemma_seq_lt_transitive(a, b, c);
    }
}

/// The same for optional strings.
pub proof fn lemma_ord_opt_seq(a: Option<Seq<char>>, b: Option<Seq<char>>, c: Option<Seq<char>>)
    ensures
        ord_opt_seq(a, b) == flip(ord_opt_seq(b, a)),
        ord_opt_seq(a, b) == Order::Equal <==> a == b,
        no_greater(ord_opt_seq(a, b)) && no_greater(ord_opt_seq(b, c)) ==> no_greater(ord_opt_seq(a, c)),
        ord_opt_seq(a, b) == Order::Less && no_greater(ord_opt_seq(b, c)) ==> ord_opt_seq(a, c) == Order::Less,
        no_greater(ord_opt_seq(a, b)) && ord_opt_seq(b, c) == Order::Less ==> ord_opt_seq(a, c) == Order::Less,
{
    match (a, b, c) {
        (Some(x), Some(y), Some(z)) => lemma_ord_seq(x, y, z),
        (Some(x), Some(y), None) => lemma_ord_seq(x, y, x),
        (Some(x), None, Some(z)) => lemma_ord_seq(x, z, x),
        (None, Some(y), Some(z)) => lemma_ord_seq(y, z, y),
        _ => {},
    }
}

/// Compares two strings in lexicographic order of code points.
pub fn order_str(a: &str, b: &str) -> (r: Order)
    ensures
        r == ord_seq(a@, b@),
{
    proof {
        lemma_seq_lt_trichotomy(a@, b@);
    }
    if str_lt(a, b) {
        Order::Less
    } else if str_lt(b, a) {
        Order::Greater
    } else {
        Order::Equal
    }
}

/// Compares two optional strings: absent first, then lexicographically.
pub fn order_opt_str(a: &Option<String>, b: &Option<String>) -> (r: Order)
    ensures
        r == ord_opt_seq(crate::text::opt_view(*a), crate::text::opt_view(*b)),
{
    match (a, b) {
        (None, None) => Order::Equal,
        (None, Some(_)) => Order::Less,
        (Some(_), None) => Order::Greater,
        (Some(x), Some(y)) => order_str(x.as_str(), y.as_str()),
    }
}

/// Compares two numbers.
pub fn order_u64(a: u64, b: u64) -> (r: Order)
    ensures
        r == ord_int(a as int, b as int),
{
    if a < b {
        Order::Less
    } else if a == b {
        Order::Equal
    } else {
        Order::Greater
    }
}

/// `first`, unless it is `Equal`, in which case `second`.
pub fn order_then(first: Order, second: Order) -> (r: Order)
    ensures
        r == or_else_order(first, second),
{
    match first {
        Order::Equal => second,
        _ => first,
    }
}

} // verus!
