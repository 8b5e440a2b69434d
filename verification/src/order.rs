//! The order of texts, and sets of texts as sorted lists.
use vstd::prelude::*;

use crate::text::chars_of;
use crate::text::same;
use crate::text::views;

verus! {

broadcast use vstd::string::group_string_axioms;

/// Whether `a` comes before `b` in the order of characters.
pub open spec fn before(a: Seq<char>, b: Seq<char>) -> bool
    decreases a.len(),
{
    if b.len() == 0 {
        false
    } else if a.len() == 0 {
        true
    } else if a[0] != b[0] {
        a[0] < b[0]
    } else {
        before(a.skip(1), b.skip(1))
    }
}

/// The order is total.
pub proof fn before_is_total(a: Seq<char>, b: Seq<char>)
    ensures
        a == b || before(a, b) || before(b, a),
    decreases a.len(),
{
    if a.len() > 0 && b.len() > 0 && a[0] == b[0] {
        before_is_total(a.skip(1), b.skip(1));
        if a.skip(1) == b.skip(1) {
            assert(a =~= seq![a[0]] + a.skip(1));
            assert(b =~= seq![b[0]] + b.skip(1));
        }
    } else if a.len() == 0 && b.len() == 0 {
        assert(a =~= b);
    }
}

/// The order is strict: no text comes before itself, nor two before each other.
pub proof fn before_is_strict(a: Seq<char>, b: Seq<char>)
    ensures
        !before(a, a),
        !(before(a, b) && before(b, a)),
    decreases a.len(),
{
    if a.len() > 0 {
        if b.len() > 0 {
            before_is_strict(a.skip(1), b.skip(1));
        } else {
            before_is_strict(a.skip(1), b);
        }
    }
}

/// The order is transitive.
pub proof fn before_is_transitive(a: Seq<char>, b: Seq<char>, c: Seq<char>)
    requires
        before(a, b),
        before(b, c),
    ensures
        before(a, c),
    decreases a.len(),
{
    if a.len() > 0 && b.len() > 0 && c.len() > 0 && a[0] == b[0] && b[0] == c[0] {
        before_is_transitive(a.skip(1), b.skip(1), c.skip(1));
    }
}

/// Whether `a` comes before `b`.
pub fn comes_before(a: &str, b: &str) -> (r: bool)
    ensures
        r == before(a@, b@),
{
    let x = chars_of(a);
    let y = chars_of(b);
    let mut i: usize = 0;
    assert(x@.skip(0) =~= x@ && y@.skip(0) =~= y@);
    while i < x.len() && i < y.len()
        invariant
            i <= x.len(),
            i <= y.len(),
            x@ == a@,
            y@ == b@,
            before(a@, b@) == before(x@.skip(i as int), y@.skip(i as int)),
        decreases x.len() - i,
    {
        if x[i] != y[i] {
            return x[i] < y[i];
        }
        assert(x@.skip(i as int).skip(1) =~= x@.skip(i + 1));
        assert(y@.skip(i as int).skip(1) =~= y@.skip(i + 1));
        i = i + 1;
    }
    i < y.len()
}

/// Whether texts stand in order, each once.
pub open spec fn sorted(s: Seq<Seq<char>>) -> bool {
    forall|i: int, j: int| 0 <= i < j < s.len() ==> before(#[trigger] s[i], #[trigger] s[j])
}

/// Two sorted lists of the same texts are the same.
pub proof fn sorted_lists_are_unique(a: Seq<Seq<char>>, b: Seq<Seq<char>>)
    requires
        sorted(a),
        sorted(b),
        forall|s: Seq<char>| a.contains(s) <==> b.contains(s),
    ensures
        a == b,
    decreases a.len(),
{
    if a.len() == 0 {
        if b.len() > 0 {
            assert(b.contains(b[0]));
            assert(a.contains(b[0]));
        }
        assert(a =~= b);
    } else {
        assert(a.contains(a[0]));
        assert(b.contains(a[0]));
        let j = choose|j: int| 0 <= j < b.len() && b[j] == a[0];
        assert(b.contains(b[0]));
        let i = choose|i: int| 0 <= i < a.len() && a[i] == b[0];
        if j > 0 && i > 0 {
            before_is_strict(a[0], b[0]);
        } else if j > 0 {
            before_is_strict(a[0], a[0]);
        } else if i > 0 {
            before_is_strict(a[0], a[0]);
        }
        assert(a[0] == b[0]);
        let x = a.skip(1);
        let y = b.skip(1);
        assert forall|s: Seq<char>| x.contains(s) <==> y.contains(s) by {
            if x.contains(s) {
                let k = choose|k: int| 0 <= k < x.len() && x[k] == s;
                assert(a[k + 1] == s);
                assert(a.contains(s));
                let m = choose|m: int| 0 <= m < b.len() && b[m] == s;
                if m == 0 {
                    before_is_strict(s, s);
                }
                assert(y[m - 1] == s);
            }
            if y.contains(s) {
                let k = choose|k: int| 0 <= k < y.len() && y[k] == s;
                assert(b[k + 1] == s);
                assert(b.contains(s));
                let m = choose|m: int| 0 <= m < a.len() && a[m] == s;
                if m == 0 {
                    before_is_strict(s, s);
                }
                assert(x[m - 1] == s);
            }
        }
        sorted_lists_are_unique(x, y);
        assert(a =~= seq![a[0]] + x);
        assert(b =~= seq![b[0]] + y);
    }
}

/// The texts of a list in order, each once.
pub fn sorted_unique(texts: &[String]) -> (r: Vec<String>)
    ensures
        sorted(views(r@)),
        forall|s: Seq<char>| views(r@).contains(s) <==> views(texts@).contains(s),
{
    let mut out: Vec<String> = Vec::new();
    let mut i: usize = 0;
    while i < texts.len()
        invariant
            i <= texts.len(),
            sorted(views(out@)),
            forall|s: Seq<char>|
                views(out@).contains(s) <==> #[trigger] views(texts@).take(i as int).contains(s),
        decreases texts.len() - i,
    {
        let ghost all = views(texts@);
        let ghost old_out = views(out@);
        let ghost id = texts@[i as int]@;
        assert(all.take(i + 1) =~= all.take(i as int).push(id));
        let mut p: usize = 0;
        while p < out.len() && comes_before(out[p].as_str(), texts[i].as_str())
            invariant
                p <= out.len(),
                i < texts.len(),
                id == texts@[i as int]@,
                old_out == views(out@),
                forall|k: int| 0 <= k < p ==> before(#[trigger] old_out[k], id),
            decreases out.len() - p,
        {
            p = p + 1;
        }
        if p < out.len() && same(out[p].as_str(), texts[i].as_str()) {
            assert(old_out[p as int] == id);
            assert forall|s: Seq<char>|
                old_out.contains(s) <==> #[trigger] all.take(i + 1).contains(s) by {
                lemma_push_contains(all.take(i as int), id, s);
                assert(old_out.contains(id));
            }
        } else {
            out.insert(p, texts[i].clone());
            proof {
                let now = views(out@);
                assert(now =~= old_out.insert(p as int, id));
                if p < old_out.len() {
                    before_is_total(old_out[p as int], id);
                }
                assert forall|a: int, b: int| 0 <= a < b < now.len() implies before(
                    #[trigger] now[a],
                    #[trigger] now[b],
                ) by {
                    if b < p {
                        assert(before(old_out[a], old_out[b]));
                    } else if b == p {
                        assert(before(old_out[a], id));
                    } else if a < p {
                        assert(before(old_out[a], old_out[b - 1]));
                    } else if a == p {
                        if b - 1 > p {
                            assert(before(old_out[p as int], old_out[b - 1]));
                            before_is_transitive(id, old_out[p as int], old_out[b - 1]);
                        }
                    } else {
                        assert(before(old_out[a - 1], old_out[b - 1]));
                    }
                }
                assert forall|s: Seq<char>|
                    now.contains(s) <==> #[trigger] all.take(i + 1).contains(s) by {
                    lemma_push_contains(all.take(i as int), id, s);
                    lemma_insert_contains(old_out, p as int, id, s);
                }
            }
        }
        i = i + 1;
    }
    assert(views(texts@).take(i as int) =~= views(texts@));
    out
}

proof fn lemma_push_contains(list: Seq<Seq<char>>, x: Seq<char>, s: Seq<char>)
    ensures
        list.push(x).contains(s) <==> (list.contains(s) || s == x),
{
    if list.contains(s) {
        let k = choose|k: int| 0 <= k < list.len() && list[k] == s;
        assert(list.push(x)[k] == s);
    }
    assert(list.push(x)[list.len() as int] == x);
}

proof fn lemma_insert_contains(list: Seq<Seq<char>>, p: int, x: Seq<char>, s: Seq<char>)
    requires
        0 <= p <= list.len(),
    ensures
        list.insert(p, x).contains(s) <==> (list.contains(s) || s == x),
{
    let now = list.insert(p, x);
    if list.contains(s) {
        let k = choose|k: int| 0 <= k < list.len() && list[k] == s;
        if k < p {
            assert(now[k] == s);
        } else {
            assert(now[k + 1] == s);
        }
    }
    assert(now[p] == x);
    if now.contains(s) {
        let k = choose|k: int| 0 <= k < now.len() && now[k] == s;
        if k < p {
            assert(list[k] == s);
        } else if k > p {
            assert(list[k - 1] == s);
        }
    }
}

proof fn lemma_insert_sorted(list: Seq<Seq<char>>, x: Seq<char>) -> (r: Seq<Seq<char>>)
    requires
        sorted(list),
    ensures
        sorted(r),
        forall|s: Seq<char>| #[trigger] r.contains(s) <==> (list.contains(s) || s == x),
    decreases list.len(),
{
    if list.len() == 0 {
        let r = seq![x];
        assert forall|s: Seq<char>| #[trigger] r.contains(s) <==> (list.contains(s) || s == x) by {
            if s == x {
                assert(r[0] == s);
            }
        }
        r
    } else {
        let last = list.last();
        before_is_total(last, x);
        if last == x {
            assert(list.contains(x));
            list
        } else if before(last, x) {
            let r = list.push(x);
            assert forall|a: int, b: int| 0 <= a < b < r.len() implies before(
                #[trigger] r[a],
                #[trigger] r[b],
            ) by {
                if b == list.len() && a < list.len() - 1 {
                    before_is_transitive(list[a], last, x);
                }
            }
            assert forall|s: Seq<char>| #[trigger] r.contains(s) <==> (list.contains(s) || s
                == x) by {
                lemma_push_contains(list, x, s);
            }
            r
        } else {
            let rest = lemma_insert_sorted(list.drop_last(), x);
            let r = rest.push(last);
            assert(list =~= list.drop_last().push(last));
            assert forall|a: int, b: int| 0 <= a < b < r.len() implies before(
                #[trigger] r[a],
                #[trigger] r[b],
            ) by {
                if b == rest.len() {
                    assert(rest.contains(rest[a]));
                    if rest[a] != x {
                        let k = choose|k: int|
                            0 <= k < list.len() - 1 && list.drop_last()[k] == rest[a];
                        assert(before(list[k], list[list.len() - 1]));
                    }
                }
            }
            assert forall|s: Seq<char>| #[trigger] r.contains(s) <==> (list.contains(s) || s
                == x) by {
                lemma_push_contains(rest, last, s);
                lemma_push_contains(list.drop_last(), last, s);
            }
            r
        }
    }
}

/// Every list can be put in order.
pub proof fn lists_can_be_sorted(texts: Seq<Seq<char>>) -> (r: Seq<Seq<char>>)
    ensures
        sorted(r),
        forall|s: Seq<char>| #[trigger] r.contains(s) <==> texts.contains(s),
    decreases texts.len(),
{
    if texts.len() == 0 {
        texts
    } else {
        let rest = lists_can_be_sorted(texts.drop_last());
        let r = lemma_insert_sorted(rest, texts.last());
        assert(texts =~= texts.drop_last().push(texts.last()));
        assert forall|s: Seq<char>| #[trigger] r.contains(s) <==> texts.contains(s) by {
            lemma_push_contains(texts.drop_last(), texts.last(), s);
        }
        r
    }
}

/// Texts are ordered by the first character in which they differ, and a text comes before what is
/// made by adding to it.
pub proof fn the_first_difference_decides(
    common: Seq<char>,
    c: char,
    d: char,
    x: Seq<char>,
    y: Seq<char>,
)
    requires
        c != d,
    ensures
        before(common + (seq![c] + x), common + (seq![d] + y)) <==> c < d,
        before(common, common + (seq![c] + x)),
        !before(common + (seq![c] + x), common),
        !before(common, common),
    decreases common.len(),
{
    let a = common + (seq![c] + x);
    let b = common + (seq![d] + y);
    if common.len() == 0 {
        assert(a[0] == c && b[0] == d);
    } else {
        let rest = common.skip(1);
        the_first_difference_decides(rest, c, d, x, y);
        assert(a[0] == common[0] && b[0] == common[0]);
        assert(a.skip(1) =~= rest + (seq![c] + x));
        assert(b.skip(1) =~= rest + (seq![d] + y));
    }
}

} // verus!
