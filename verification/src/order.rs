//! Lexicographic order of texts, and lists kept in that order without repeats.
use crate::text::{chars_of, texts};
use vstd::prelude::*;

verus! {

/// Whether `a` comes strictly before `b` in character order.
pub open spec fn before(a: Seq<char>, b: Seq<char>) -> bool
    decreases a.len(),
{
    if b.len() == 0 {
        false
    } else if a.len() == 0 {
        true
    } else if a[0] == b[0] {
        before(a.skip(1), b.skip(1))
    } else {
        a[0] < b[0]
    }
}

/// The order is strict: no text comes before itself.
pub proof fn before_irreflexive(a: Seq<char>)
    ensures
        !before(a, a),
    decreases a.len(),
{
    if a.len() > 0 {
        before_irreflexive(a.skip(1));
    }
}

/// The order is transitive.
pub proof fn before_transitive(a: Seq<char>, b: Seq<char>, c: Seq<char>)
    requires
        before(a, b),
        before(b, c),
    ensures
        before(a, c),
    decreases a.len(),
{
    if a.len() > 0 && b.len() > 0 && c.len() > 0 && a[0] == b[0] && b[0] == c[0] {
        before_transitive(a.skip(1), b.skip(1), c.skip(1));
    }
}

/// Any two different texts are ordered one way or the other.
pub proof fn before_total(a: Seq<char>, b: Seq<char>)
    ensures
        a == b || before(a, b) || before(b, a),
    decreases a.len(),
{
    if a.len() > 0 && b.len() > 0 {
        if a[0] == b[0] {
            before_total(a.skip(1), b.skip(1));
            if a.skip(1) == b.skip(1) {
                assert(a =~= seq![a[0]] + a.skip(1));
                assert(b =~= seq![b[0]] + b.skip(1));
            }
        }
    } else if a.len() == 0 && b.len() == 0 {
        assert(a =~= b);
    }
}

/// Whether `a` comes strictly before `b` in character order.
pub fn comes_before(a: &str, b: &str) -> (r: bool)
    ensures
        r == before(a@, b@),
{
    let x = chars_of(a);
    let y = chars_of(b);
    let mut i: usize = 0;
    proof {
        assert(a@.skip(0) =~= a@);
        assert(b@.skip(0) =~= b@);
    }
    while i < x.len() && i < y.len() && x[i] == y[i]
        invariant
            x@ == a@,
            y@ == b@,
            i <= x@.len(),
            i <= y@.len(),
            before(a@, b@) == before(a@.skip(i as int), b@.skip(i as int)),
        decreases x@.len() - i,
    {
        proof {
            assert(a@.skip(i as int).skip(1) =~= a@.skip(i + 1));
            assert(b@.skip(i as int).skip(1) =~= b@.skip(i + 1));
        }
        i = i + 1;
    }
    if i == y.len() {
        false
    } else if i == x.len() {
        true
    } else {
        x[i] < y[i]
    }
}

/// Whether a list is in order without repeats.
pub open spec fn increasing(list: Seq<Seq<char>>) -> bool {
    forall|i: int, j: int|
        0 <= i < j < list.len() ==> before(#[trigger] list[i], #[trigger] list[j])
}

/// What an ordered list holds fixes the list.
pub proof fn increasing_is_canonical(a: Seq<Seq<char>>, b: Seq<Seq<char>>)
    requires
        increasing(a),
        increasing(b),
        forall|x: Seq<char>| a.contains(x) <==> b.contains(x),
    ensures
        a == b,
    decreases a.len(),
{
    if a.len() == 0 {
        if b.len() > 0 {
            assert(b.contains(b[0]));
        }
        assert(a =~= b);
    } else {
        assert(a.contains(a.last()));
        let k = choose|k: int| 0 <= k < b.len() && b[k] == a.last();
        assert(b.contains(b.last()));
        let m = choose|m: int| 0 <= m < a.len() && a[m] == b.last();
        if k < b.len() - 1 {
            assert(before(b[k], b[b.len() - 1]));
            if m < a.len() - 1 {
                assert(before(a[m], a[a.len() - 1]));
                before_transitive(a.last(), b.last(), a.last());
            }
            before_irreflexive(a.last());
        }
        assert(a.last() == b.last());
        let c = a.drop_last();
        let d = b.drop_last();
        assert forall|x: Seq<char>| c.contains(x) <==> d.contains(x) by {
            if c.contains(x) {
                let i = choose|i: int| 0 <= i < c.len() && c[i] == x;
                assert(a[i] == x);
                assert(before(a[i], a[a.len() - 1]));
                before_irreflexive(x);
                assert(a.contains(x));
                let j = choose|j: int| 0 <= j < b.len() && b[j] == x;
                assert(j < b.len() - 1);
                assert(d[j] == x);
            }
            if d.contains(x) {
                let i = choose|i: int| 0 <= i < d.len() && d[i] == x;
                assert(b[i] == x);
                assert(before(b[i], b[b.len() - 1]));
                before_irreflexive(x);
                assert(b.contains(x));
                let j = choose|j: int| 0 <= j < a.len() && a[j] == x;
                assert(j < a.len() - 1);
                assert(c[j] == x);
            }
        }
        increasing_is_canonical(c, d);
        assert(a =~= c.push(a.last()));
        assert(b =~= d.push(b.last()));
    }
}

/// Puts `item` into an ordered list without repeats, which stays one.
pub fn insert_ordered(list: &mut Vec<String>, item: String)
    requires
        increasing(texts(old(list)@)),
    ensures
        increasing(texts(final(list)@)),
        forall|x: Seq<char>| #[trigger]
            texts(final(list)@).contains(x) <==> texts(old(list)@).contains(x) || x == item@,
{
    let ghost was = texts(list@);
    let mut at: usize = 0;
    while at < list.len() && comes_before(list[at].as_str(), item.as_str())
        invariant
            was == texts(list@),
            at <= list@.len(),
            forall|k: int| 0 <= k < at ==> before(#[trigger] was[k], item@),
        decreases list@.len() - at,
    {
        at = at + 1;
    }
    if at < list.len() && crate::text::same(list[at].as_str(), item.as_str()) {
        assert(was[at as int] == item@);
        return;
    }
    let ghost text = item@;
    proof {
        if at < was.len() {
            before_total(was[at as int], text);
            assert(before(text, was[at as int]));
            assert forall|k: int| at <= k < was.len() implies before(text, #[trigger] was[k]) by {
                if k > at {
                    before_transitive(text, was[at as int], was[k]);
                }
            }
        }
    }
    list.insert(at, item);
    let ghost now = texts(list@);
    assert(now =~= was.insert(at as int, text));
    assert forall|i: int, j: int| 0 <= i < j < now.len() implies before(
        #[trigger] now[i],
        #[trigger] now[j],
    ) by {
        let oi = if i < at { i } else { i - 1 };
        let oj = if j < at { j } else { j - 1 };
        if i != at {
            assert(now[i] == was[oi]);
        }
        if j != at {
            assert(now[j] == was[oj]);
        }
    }
    assert forall|x: Seq<char>| #[trigger] now.contains(x) <==> was.contains(x) || x == text by {
        if was.contains(x) {
            let k = choose|k: int| 0 <= k < was.len() && was[k] == x;
            assert(now[if k < at { k } else { k + 1 }] == x);
        }
        if x == text {
            assert(now[at as int] == x);
        }
        if now.contains(x) && x != text {
            let k = choose|k: int| 0 <= k < now.len() && now[k] == x;
            assert(was[if k < at { k } else { k - 1 }] == x);
        }
    }
}

/// The first character in which two texts differ decides which comes first, and a
/// text comes before all longer ones that start with it.
pub proof fn first_difference_decides(
    same: Seq<char>,
    x: char,
    a: Seq<char>,
    y: char,
    b: Seq<char>,
)
    requires
        x < y,
    ensures
        before(same + seq![x] + a, same + seq![y] + b),
        !before(same + seq![y] + b, same + seq![x] + a),
        before(same, same + seq![x] + a),
    decreases same.len(),
{
    let l = same + seq![x] + a;
    let r = same + seq![y] + b;
    if same.len() > 0 {
        first_difference_decides(same.skip(1), x, a, y, b);
        assert(l.skip(1) =~= same.skip(1) + seq![x] + a);
        assert(r.skip(1) =~= same.skip(1) + seq![y] + b);
        assert(l[0] == same[0] && r[0] == same[0]);
    } else {
        assert(l[0] == x && r[0] == y);
    }
}

} // verus!
