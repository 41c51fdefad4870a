use vstd::prelude::*;

use crate::order::{compare_names, natural_lexical_rank, NameOrder};
use crate::order_safety::natural_order_safe;

verus! {

/// Items that are ordered by a name.
pub trait Named {
    spec fn name_view(&self) -> Seq<char>;

    fn name_str(&self) -> (s: &str)
        ensures
            s@ == self.name_view(),
    ;
}

impl Named for String {
    open spec fn name_view(&self) -> Seq<char> {
        self@
    }

    fn name_str(&self) -> (s: &str) {
        self.as_str()
    }
}

/// The order in which items are sorted by name.
#[derive(PartialEq, Eq, Structural, Clone, Copy, Debug)]
pub enum NameOrdering {
    /// Natural order (`lexicmp::natural_lexical_cmp`), ascending.
    Natural,
    /// Natural order, descending.
    NaturalReversed,
    /// Order of the characters' code points, ascending (the order of `str`).
    Plain,
}

/// Comparison of two names by the code points of their characters:
/// negative, zero or positive.
pub open spec fn plain_rank(a: Seq<char>, b: Seq<char>) -> int
    decreases a.len(),
{
    if a.len() == 0 {
        if b.len() == 0 { 0 } else { -1 }
    } else if b.len() == 0 {
        1
    } else if (a[0] as u32) < (b[0] as u32) {
        -1
    } else if (a[0] as u32) > (b[0] as u32) {
        1
    } else {
        plain_rank(a.drop_first(), b.drop_first())
    }
}

/// Placing an item named `a` right before an item named `b` breaks `order`.
pub open spec fn out_of_order(a: Seq<char>, b: Seq<char>, order: NameOrdering) -> bool {
    match order {
        NameOrdering::Natural => natural_lexical_rank(a, b) > 0,
        NameOrdering::NaturalReversed => natural_lexical_rank(b, a) > 0,
        NameOrdering::Plain => plain_rank(a, b) > 0,
    }
}

/// Compares two names by the code points of their characters.
pub fn plain_compare(a: &str, b: &str) -> (r: i8)
    ensures
        r as int == plain_rank(a@, b@),
{
    let va = crate::strings::chars_of(a);
    let vb = crate::strings::chars_of(b);
    let mut i: usize = 0;
    assert(a@.skip(0) =~= a@);
    assert(b@.skip(0) =~= b@);
    while i < va.len() && i < vb.len()
        invariant
            va@ == a@,
            vb@ == b@,
            i <= va.len(),
            i <= vb.len(),
            plain_rank(a@, b@) == plain_rank(a@.skip(i as int), b@.skip(i as int)),
        decreases va.len() - i,
    {
        let ca = va[i] as u32;
        let cb = vb[i] as u32;
        assert(a@.skip(i as int)[0] == va@[i as int]);
        assert(b@.skip(i as int)[0] == vb@[i as int]);
        if ca < cb {
            return -1;
        }
        if ca > cb {
            return 1;
        }
        assert(a@.skip(i as int).drop_first() =~= a@.skip(i + 1));
        assert(b@.skip(i as int).drop_first() =~= b@.skip(i + 1));
        i = i + 1;
    }
    if va.len() == vb.len() {
        0
    } else if i == va.len() {
        -1
    } else {
        1
    }
}

/// Inserts `x` into `l` right after the last item that may precede it.
pub open spec fn sorted_insert<T: Named>(l: Seq<T>, x: T, order: NameOrdering) -> Seq<T>
    decreases l.len(),
{
    if l.len() == 0 {
        seq![x]
    } else if out_of_order(l.last().name_view(), x.name_view(), order) {
        sorted_insert(l.drop_last(), x, order).push(l.last())
    } else {
        l.push(x)
    }
}

/// The stable sort of `s` by name in `order`: each item, in turn, goes right
/// after the last item already placed that may precede it.
pub open spec fn sorted_by_name<T: Named>(s: Seq<T>, order: NameOrdering) -> Seq<T>
    decreases s.len(),
{
    if s.len() == 0 {
        Seq::empty()
    } else {
        sorted_insert(sorted_by_name(s.drop_last(), order), s.last(), order)
    }
}

/// All names in `s` are accepted by natural ordering.
pub open spec fn names_safe<T: Named>(s: Seq<T>) -> bool {
    forall|i: int| 0 <= i < s.len() ==> natural_order_safe(#[trigger] s[i].name_view())
}

proof fn lemma_sorted_insert_at<T: Named>(l: Seq<T>, x: T, order: NameOrdering, j: int)
    requires
        0 <= j <= l.len(),
        forall|k: int| j <= k < l.len() ==> out_of_order(#[trigger] l[k].name_view(), x.name_view(), order),
        j == 0 || !out_of_order(l[j - 1].name_view(), x.name_view(), order),
    ensures
        sorted_insert(l, x, order) == l.insert(j, x),
    decreases l.len(),
{
    if l.len() == 0 {
        assert(l.insert(j, x) =~= seq![x]);
    } else if j == l.len() {
        assert(l.insert(j, x) =~= l.push(x));
    } else {
        assert(out_of_order(l[l.len() - 1].name_view(), x.name_view(), order));
        let d = l.drop_last();
        assert forall|k: int| j <= k < d.len() implies out_of_order(#[trigger] d[k].name_view(), x.name_view(), order) by {
            assert(d[k] == l[k]);
        }
        lemma_sorted_insert_at(d, x, order, j);
        assert(d.insert(j, x).push(l.last()) =~= l.insert(j, x));
    }
}

/// Sorts items by name in the given order (stable).
pub fn sort_by_name<T: Named>(items: Vec<T>, order: NameOrdering) -> (sorted: Vec<T>)
    requires
        order == NameOrdering::Plain || names_safe(items@),
    ensures
        sorted@ == sorted_by_name(items@, order),
{
    let ghost orig = items@;
    let mut input = items;
    let mut result: Vec<T> = Vec::new();
    let ghost mut i: int = 0;
    assert(orig.take(0) =~= Seq::<T>::empty());
    assert(orig.skip(0) =~= orig);
    while input.len() > 0
        invariant
            0 <= i <= orig.len(),
            order == NameOrdering::Plain || names_safe(orig),
            input@ == orig.skip(i),
            result@ == sorted_by_name(orig.take(i), order),
            order == NameOrdering::Plain || names_safe(result@),
        decreases input.len(),
    {
        let x = input.remove(0);
        proof {
            assert(x == orig[i]);
            assert(orig.skip(i).remove(0) =~= orig.skip(i + 1));
            assert(orig.take(i + 1).drop_last() =~= orig.take(i));
            assert(orig.take(i + 1).last() == orig[i]);
            if order != NameOrdering::Plain {
                assert(natural_order_safe(x.name_view()));
            }
        }
        let mut j = result.len();
        while j > 0
            invariant
                j <= result.len(),
                order == NameOrdering::Plain || names_safe(result@),
                order == NameOrdering::Plain || natural_order_safe(x.name_view()),
                forall|k: int| j <= k < result.len() ==> out_of_order(#[trigger] result@[k].name_view(), x.name_view(), order),
            ensures
                j <= result.len(),
                forall|k: int| j <= k < result.len() ==> out_of_order(#[trigger] result@[k].name_view(), x.name_view(), order),
                j == 0 || !out_of_order(result@[j - 1].name_view(), x.name_view(), order),
            decreases j,
        {
            let greater = match order {
                NameOrdering::Natural => compare_names(result[j - 1].name_str(), x.name_str()) == NameOrder::Greater,
                NameOrdering::NaturalReversed => compare_names(x.name_str(), result[j - 1].name_str()) == NameOrder::Greater,
                NameOrdering::Plain => plain_compare(result[j - 1].name_str(), x.name_str()) > 0,
            };
            if greater {
                j = j - 1;
            } else {
                break;
            }
        }
        proof {
            lemma_sorted_insert_at(result@, x, order, j as int);
        }
        let ghost before = result@;
        result.insert(j, x);
        proof {
            i = i + 1;
            if order != NameOrdering::Plain {
                assert forall|k: int| 0 <= k < result@.len() implies natural_order_safe(#[trigger] result@[k].name_view()) by {
                    if k < j {
                    } else if k > j {
                        assert(result@[k] == before[k - 1]);
                    }
                }
            }
        }
    }
    assert(orig.take(i) =~= orig);
    result
}

} // verus!

verus! {

/// Tells whether natural ordering accepts every name of `items` (see
/// `names_safe`).
pub fn names_are_safe<T: Named>(items: &Vec<T>) -> (r: bool)
    ensures
        r == names_safe(items@),
{
    let mut i: usize = 0;
    while i < items.len()
        invariant
            i <= items.len(),
            forall|k: int| 0 <= k < i ==> natural_order_safe(#[trigger] items@[k].name_view()),
        decreases items.len() - i,
    {
        if !crate::order_safety::is_natural_order_safe(items[i].name_str()) {
            return false;
        }
        i = i + 1;
    }
    true
}

} // verus!
