//! The Cartesian product of a list of lists, as a sequence of tuples.

use vstd::arithmetic::div_mod::*;
use vstd::prelude::*;

verus! {

/// How many tuples the lists give: the product of their lengths.
pub open spec fn count<T>(lists: Seq<Seq<T>>) -> nat
    decreases lists.len(),
{
    if lists.len() == 0 {
        1
    } else {
        lists[0].len() * count(lists.drop_first())
    }
}

/// All tuples that take their first entry from the first list, their second
/// from the second, and so on. The last list is walked through fastest.
pub open spec fn tuples<T>(lists: Seq<Seq<T>>) -> Seq<Seq<T>>
    decreases lists.len(),
{
    if lists.len() == 0 {
        seq![Seq::empty()]
    } else {
        let rest = lists.drop_first();
        Seq::new(
            lists[0].len() * count(rest),
            |i: int| seq![lists[0][i / (count(rest) as int)]] + tuples(rest)[i % (count(rest) as int)],
        )
    }
}

/// The Cartesian product of the lists, in the order of `tuples`. No lists
/// at all give no tuple.
pub open spec fn product<T>(lists: Seq<Seq<T>>) -> Seq<Seq<T>> {
    if lists.len() == 0 {
        Seq::empty()
    } else {
        tuples(lists)
    }
}

/// The place in list `j` from which tuple `i` takes its entry `j`.
pub open spec fn digit<T>(lists: Seq<Seq<T>>, i: int, j: int) -> int
    decreases lists.len(),
{
    if lists.len() == 0 {
        0
    } else {
        let rest = lists.drop_first();
        if j == 0 {
            i / (count(rest) as int)
        } else {
            digit(rest, i % (count(rest) as int), j - 1)
        }
    }
}

/// The number of the tuple that takes entry `j` from place `choice[j]`.
pub open spec fn index_of<T>(lists: Seq<Seq<T>>, choice: Seq<int>) -> int
    decreases lists.len(),
{
    if lists.len() == 0 {
        0
    } else {
        choice[0] * count(lists.drop_first()) + index_of(lists.drop_first(), choice.drop_first())
    }
}

/// A choice names one place in each list.
pub open spec fn is_choice<T>(lists: Seq<Seq<T>>, choice: Seq<int>) -> bool {
    &&& choice.len() == lists.len()
    &&& forall|j: int| 0 <= j < lists.len() ==> 0 <= #[trigger] choice[j] < lists[j].len()
}

/// An empty list among the lists leaves no tuple.
pub proof fn lemma_empty_list_no_tuples<T>(lists: Seq<Seq<T>>, j: int)
    requires
        0 <= j < lists.len(),
        lists[j].len() == 0,
    ensures
        count(lists) == 0,
        product(lists).len() == 0,
    decreases lists.len(),
{
    let rest = lists.drop_first();
    if j > 0 {
        lemma_empty_list_no_tuples(rest, j - 1);
    }
}

proof fn lemma_split<T>(lists: Seq<Seq<T>>, i: int)
    requires
        lists.len() > 0,
        0 <= i < count(lists),
    ensures
        count(lists.drop_first()) > 0,
        0 <= i / (count(lists.drop_first()) as int) < lists[0].len(),
        0 <= i % (count(lists.drop_first()) as int) < count(lists.drop_first()),
        tuples(lists)[i] == seq![lists[0][i / (count(lists.drop_first()) as int)]] + tuples(
            lists.drop_first(),
        )[i % (count(lists.drop_first()) as int)],
{
    let m = count(lists.drop_first()) as int;
    let n = lists[0].len() as int;
    assert(m > 0) by (nonlinear_arith)
        requires
            0 <= i < n * m,
            m >= 0,
    ;
    lemma_multiply_divide_lt(i, m, n);
}

/// Every tuple has one entry for each list.
pub proof fn lemma_tuple_len<T>(lists: Seq<Seq<T>>, i: int)
    requires
        0 <= i < count(lists),
    ensures
        tuples(lists)[i].len() == lists.len(),
    decreases lists.len(),
{
    if lists.len() > 0 {
        lemma_split(lists, i);
        lemma_tuple_len(lists.drop_first(), i % (count(lists.drop_first()) as int));
    }
}

/// Entry `j` of tuple `i` is the entry of list `j` at place `digit(lists, i, j)`.
pub proof fn lemma_tuple_entry<T>(lists: Seq<Seq<T>>, i: int, j: int)
    requires
        0 <= i < count(lists),
        0 <= j < lists.len(),
    ensures
        0 <= digit(lists, i, j) < lists[j].len(),
        tuples(lists)[i].len() == lists.len(),
        tuples(lists)[i][j] == lists[j][digit(lists, i, j)],
    decreases lists.len(),
{
    let rest = lists.drop_first();
    let m = count(rest) as int;
    lemma_split(lists, i);
    lemma_tuple_len(lists, i);
    if j > 0 {
        lemma_tuple_entry(rest, i % m, j - 1);
    }
}

/// Two different tuple numbers differ in the place taken from some list.
pub proof fn lemma_distinct<T>(lists: Seq<Seq<T>>, a: int, b: int) -> (j: int)
    requires
        0 <= a < count(lists),
        0 <= b < count(lists),
        a != b,
    ensures
        0 <= j < lists.len(),
        digit(lists, a, j) != digit(lists, b, j),
    decreases lists.len(),
{
    let rest = lists.drop_first();
    let m = count(rest) as int;
    lemma_split(lists, a);
    lemma_fundamental_div_mod(a, m);
    lemma_fundamental_div_mod(b, m);
    if a / m != b / m {
        0
    } else {
        let below = lemma_distinct(rest, a % m, b % m);
        below + 1
    }
}

/// Every choice of places is the choice of some tuple.
pub proof fn lemma_found<T>(lists: Seq<Seq<T>>, choice: Seq<int>)
    requires
        is_choice(lists, choice),
    ensures
        0 <= index_of(lists, choice) < count(lists),
        forall|j: int|
            0 <= j < lists.len() ==> #[trigger] digit(lists, index_of(lists, choice), j)
                == choice[j],
    decreases lists.len(),
{
    if lists.len() > 0 {
        let rest = lists.drop_first();
        let later = choice.drop_first();
        let m = count(rest) as int;
        let n = lists[0].len() as int;
        lemma_found(rest, later);
        let r = index_of(rest, later);
        let x = index_of(lists, choice);
        let c = choice[0];
        lemma_fundamental_div_mod_converse(x, m, c, r);
        assert(0 <= x < n * m) by (nonlinear_arith)
            requires
                x == c * m + r,
                0 <= r < m,
                0 <= c < n,
        ;
        assert forall|j: int| 0 <= j < lists.len() implies #[trigger] digit(lists, x, j)
            == choice[j] by {
            if j > 0 {
                assert(digit(rest, r, j - 1) == later[j - 1]);
            }
        }
    }
}

} // verus!
