//! Strings in increasing byte order, each once.
use vstd::prelude::*;

use crate::text::{lemma_text_order, text_before, text_equal, text_less, texts};

verus! {

/// Each text comes before the next in byte order; so none occurs twice.
pub open spec fn increasing(s: Seq<Seq<char>>) -> bool {
    forall|i: int, j: int| 0 <= i < j < s.len() ==> text_less(#[trigger] s[i], #[trigger] s[j])
}

/// An increasing sequence holds no text twice.
pub proof fn increasing_has_no_duplicates(s: Seq<Seq<char>>)
    requires
        increasing(s),
    ensures
        s.no_duplicates(),
{
    assert forall|i: int, j: int| 0 <= i < j < s.len() implies s[i] != s[j] by {
        lemma_text_order(s[i], s[j], s[j]);
    }
}

/// Two increasing sequences with the same members are the same sequence.
pub proof fn increasing_is_canonical(a: Seq<Seq<char>>, b: Seq<Seq<char>>)
    requires
        increasing(a),
        increasing(b),
        forall|t: Seq<char>| a.contains(t) <==> b.contains(t),
    ensures
        a == b,
    decreases a.len(),
{
    increasing_has_no_duplicates(a);
    increasing_has_no_duplicates(b);
    if a.len() == 0 {
        if b.len() > 0 {
            assert(b.contains(b[0]));
            assert(a.contains(b[0]));
        }
        assert(a =~= b);
    } else {
        assert(a.contains(a.last()));
        assert(b.contains(a.last()));
        assert(b.contains(b.last()));
        assert(a.contains(b.last()));
        let i = choose|i: int| 0 <= i < b.len() && b[i] == a.last();
        let j = choose|j: int| 0 <= j < a.len() && a[j] == b.last();
        lemma_text_order(a.last(), b.last(), a.last());
        assert(a.last() == b.last());
        let (x, y) = (a.drop_last(), b.drop_last());
        assert forall|t: Seq<char>| x.contains(t) implies y.contains(t) by {
            let k = choose|k: int| 0 <= k < x.len() && x[k] == t;
            assert(a[k] == t);
            assert(a.contains(t));
            let m = choose|m: int| 0 <= m < b.len() && b[m] == t;
            assert(y[m] == t);
        }
        assert forall|t: Seq<char>| y.contains(t) implies x.contains(t) by {
            let k = choose|k: int| 0 <= k < y.len() && y[k] == t;
            assert(b[k] == t);
            assert(b.contains(t));
            let m = choose|m: int| 0 <= m < a.len() && a[m] == t;
            assert(x[m] == t);
        }
        increasing_is_canonical(x, y);
        assert(a =~= x.push(a.last()));
        assert(b =~= y.push(b.last()));
    }
}

/// Inserting a text at the one place where it fits keeps the order.
pub proof fn lemma_insert_keeps_increasing(s: Seq<Seq<char>>, at: int, t: Seq<char>)
    requires
        increasing(s),
        0 <= at <= s.len(),
        forall|i: int| 0 <= i < at ==> text_less(#[trigger] s[i], t),
        at < s.len() ==> text_less(t, s[at]),
    ensures
        increasing(s.insert(at, t)),
        forall|u: Seq<char>| s.insert(at, t).contains(u) <==> s.contains(u) || u == t,
{
    let r = s.insert(at, t);
    assert forall|i: int, j: int| 0 <= i < j < r.len() implies text_less(
        #[trigger] r[i],
        #[trigger] r[j],
    ) by {
        if at < s.len() && at < j {
            lemma_text_order(t, s[at], s[j - 1]);
        }
    }
    assert forall|u: Seq<char>| s.contains(u) || u == t implies r.contains(u) by {
        if u == t {
            assert(r[at] == t);
        } else {
            let k = choose|k: int| 0 <= k < s.len() && s[k] == u;
            assert(r[if k < at { k } else { k + 1 }] == u);
        }
    }
    assert forall|u: Seq<char>| r.contains(u) implies s.contains(u) || u == t by {
        let k = choose|k: int| 0 <= k < r.len() && r[k] == u;
        if k < at {
            assert(s[k] == u);
        } else if k > at {
            assert(s[k - 1] == u);
        }
    }
}

/// The strings in increasing order, each once.
pub fn sorted_distinct(strings: &Vec<String>) -> (r: Vec<String>)
    ensures
        increasing(texts(r@)),
        forall|t: Seq<char>| texts(r@).contains(t) <==> texts(strings@).contains(t),
{
    let mut r: Vec<String> = Vec::new();
    let mut i: usize = 0;
    while i < strings.len()
        invariant
            i <= strings.len(),
            increasing(texts(r@)),
            forall|t: Seq<char>|
                texts(r@).contains(t) <==> texts(strings@).take(i as int).contains(t),
        decreases strings.len() - i,
    {
        let ghost before = texts(r@);
        let ghost seen = texts(strings@).take(i as int);
        let ghost next = strings@[i as int]@;
        let mut at: usize = 0;
        while at < r.len() && text_before(r[at].as_str(), strings[i].as_str())
            invariant
                at <= r.len(),
                i < strings.len(),
                before == texts(r@),
                next == strings@[i as int]@,
                forall|k: int| 0 <= k < at ==> text_less(#[trigger] before[k], next),
            decreases r.len() - at,
        {
            at += 1;
        }
        proof {
            let after = texts(strings@).take(i + 1);
            assert(after =~= seen.push(next));
            assert forall|t: Seq<char>| after.contains(t) <==> seen.contains(t) || t == next by {
                if seen.contains(t) {
                    let k = choose|k: int| 0 <= k < seen.len() && seen[k] == t;
                    assert(after[k] == t);
                }
                if t == next {
                    assert(after[i as int] == t);
                }
            }
        }
        if at < r.len() && text_equal(r[at].as_str(), strings[i].as_str()) {
            assert(before[at as int] == next);
            assert(before.contains(next));
            assert(before == texts(r@));
            proof {
                assert forall|t: Seq<char>|
                    before.contains(t) <==> texts(strings@).take(i + 1).contains(t) by {}
            }
            i += 1;
            continue;
        }
        proof {
            if at < r.len() {
                lemma_text_order(next, before[at as int], next);
            }
            lemma_insert_keeps_increasing(before, at as int, next);
        }
        r.insert(at, strings[i].clone());
        assert(texts(r@) =~= before.insert(at as int, next));
        proof {
            assert forall|t: Seq<char>|
                texts(r@).contains(t) <==> texts(strings@).take(i + 1).contains(t) by {
                assert(before.insert(at as int, next).contains(t) <==> before.contains(t) || t
                    == next);
                assert(before.contains(t) <==> seen.contains(t));
            }
        }
        i += 1;
    }
    assert(texts(strings@).take(strings@.len() as int) =~= texts(strings@));
    r
}

} // verus!
