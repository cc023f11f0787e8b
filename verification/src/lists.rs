//! Facts on lists whose items have keys of their own, and on sorting lists.

use vstd::prelude::*;

verus! {

/// Whether no two items have the same key.
pub open spec fn distinct_by<T, K>(s: Seq<T>, key: spec_fn(T) -> K) -> bool {
    forall|i: int, j: int|
        #![trigger s[i], s[j]]
        0 <= i < j < s.len() ==> key(s[i]) != key(s[j])
}

/// A filtered list holds what it keeps of the list, and keys told apart stay so.
pub proof fn filter_facts<T, K>(s: Seq<T>, keep: spec_fn(T) -> bool, key: spec_fn(T) -> K)
    ensures
        forall|x: T| #[trigger] s.filter(keep).contains(x) <==> s.contains(x) && keep(x),
        distinct_by(s, key) ==> distinct_by(s.filter(keep), key),
    decreases s.len(),
{
    reveal(Seq::filter);
    if s.len() > 0 {
        let rest = s.drop_last();
        let last = s.last();
        filter_facts(rest, keep, key);
        let out = s.filter(keep);
        let short = rest.filter(keep);
        assert forall|x: T| #[trigger] out.contains(x) <==> s.contains(x) && keep(x) by {
            assert(short.contains(x) <==> rest.contains(x) && keep(x));
            if s.contains(x) && keep(x) {
                let i = choose|i: int| 0 <= i < s.len() && s[i] == x;
                if i < rest.len() {
                    assert(rest[i] == x);
                    let k = choose|k: int| 0 <= k < short.len() && short[k] == x;
                    assert(out[k] == x);
                } else {
                    assert(out.last() == x);
                }
            }
            if out.contains(x) {
                let k = choose|k: int| 0 <= k < out.len() && out[k] == x;
                if k < short.len() {
                    assert(short[k] == x);
                    let i = choose|i: int| 0 <= i < rest.len() && rest[i] == x;
                    assert(s[i] == x);
                } else {
                    assert(s[s.len() - 1] == x);
                }
            }
        }
        if distinct_by(s, key) {
            assert forall|i: int, j: int|
                #![trigger rest[i], rest[j]]
                0 <= i < j < rest.len() implies key(rest[i]) != key(rest[j]) by {
                assert(rest[i] == s[i] && rest[j] == s[j]);
            }
            assert forall|i: int, j: int|
                #![trigger out[i], out[j]]
                0 <= i < j < out.len() implies key(out[i]) != key(out[j]) by {
                assert(out[i] == short[i]);
                if j < short.len() {
                    assert(out[j] == short[j]);
                } else {
                    assert(out[j] == last);
                    assert(short.contains(short[i]));
                    let k = choose|k: int| 0 <= k < rest.len() && rest[k] == short[i];
                    assert(s[k] == short[i] && s[s.len() - 1] == last);
                }
            }
        }
    }
}

/// A filter that keeps nothing leaves nothing.
pub proof fn none_kept<T>(s: Seq<T>, keep: spec_fn(T) -> bool)
    requires
        forall|x: T| !#[trigger] keep(x),
    ensures
        s.filter(keep) == Seq::<T>::empty(),
    decreases s.len(),
{
    reveal(Seq::filter);
    if s.len() > 0 {
        none_kept(s.drop_last(), keep);
    }
}

/// One more item is kept or left out.
pub proof fn filter_one_more<T>(s: Seq<T>, keep: spec_fn(T) -> bool, i: int)
    requires
        0 <= i < s.len(),
    ensures
        s.take(i + 1).filter(keep) == if keep(s[i]) {
            s.take(i).filter(keep).push(s[i])
        } else {
            s.take(i).filter(keep)
        },
{
    reveal(Seq::filter);
    assert(s.take(i + 1).drop_last() =~= s.take(i));
    assert(s.take(i + 1).last() == s[i]);
}

/// What an item added or put in place of another leaves in the list.
pub proof fn push_facts<T, K>(s: Seq<T>, x: T, key: spec_fn(T) -> K)
    ensures
        forall|y: T| #[trigger] s.push(x).contains(y) <==> s.contains(y) || y == x,
        distinct_by(s, key) && (forall|y: T| #[trigger] s.contains(y) ==> key(y) != key(x))
            ==> distinct_by(s.push(x), key),
{
    let out = s.push(x);
    assert forall|y: T| #[trigger] out.contains(y) <==> s.contains(y) || y == x by {
        if s.contains(y) {
            let i = choose|i: int| 0 <= i < s.len() && s[i] == y;
            assert(out[i] == y);
        }
        if y == x {
            assert(out[s.len() as int] == y);
        }
    }
    if distinct_by(s, key) && (forall|y: T| #[trigger] s.contains(y) ==> key(y) != key(x)) {
        assert forall|i: int, j: int|
            #![trigger out[i], out[j]]
            0 <= i < j < out.len() implies key(out[i]) != key(out[j]) by {
            assert(out[i] == s[i]);
            assert(s.contains(s[i]));
            if j < s.len() {
                assert(out[j] == s[j]);
            }
        }
    }
}

/// An item put in the place of one with the same key.
pub proof fn update_facts<T, K>(s: Seq<T>, i: int, x: T, key: spec_fn(T) -> K)
    requires
        0 <= i < s.len(),
        distinct_by(s, key),
        key(x) == key(s[i]),
    ensures
        distinct_by(s.update(i, x), key),
        forall|y: T| #[trigger]
            s.update(i, x).contains(y) <==> y == x || (s.contains(y) && key(y) != key(x)),
{
    let out = s.update(i, x);
    assert forall|a: int, b: int|
        #![trigger out[a], out[b]]
        0 <= a < b < out.len() implies key(out[a]) != key(out[b]) by {
        assert(key(out[a]) == key(s[a]) && key(out[b]) == key(s[b]));
    }
    assert forall|y: T| #[trigger]
        out.contains(y) <==> y == x || (s.contains(y) && key(y) != key(x)) by {
        if out.contains(y) {
            let k = choose|k: int| 0 <= k < out.len() && out[k] == y;
            if k != i {
                assert(s[k] == y);
                assert(s.contains(y));
                if k < i {
                    assert(key(s[k]) != key(s[i]));
                } else {
                    assert(key(s[i]) != key(s[k]));
                }
            }
        }
        if y == x {
            assert(out[i] == y);
        } else if s.contains(y) && key(y) != key(x) {
            let k = choose|k: int| 0 <= k < s.len() && s[k] == y;
            assert(out[k] == y);
        }
    }
}

/// Two items of a list with the same key are the same.
pub proof fn same_key<T, K>(s: Seq<T>, a: T, b: T, key: spec_fn(T) -> K)
    requires
        distinct_by(s, key),
        s.contains(a),
        s.contains(b),
        key(a) == key(b),
    ensures
        a == b,
{
    let i = choose|i: int| 0 <= i < s.len() && s[i] == a;
    let j = choose|j: int| 0 <= j < s.len() && s[j] == b;
    if i < j {
        assert(key(s[i]) != key(s[j]));
    } else if j < i {
        assert(key(s[j]) != key(s[i]));
    }
}

/// Whether items can be sorted: of two not both go before the other, and what goes
/// before neither of its neighbours is in order throughout.
pub open spec fn is_order<T>(earlier: spec_fn(T, T) -> bool) -> bool {
    &&& forall|a: T, b: T| #[trigger] earlier(a, b) ==> !earlier(b, a)
    &&& forall|a: T, b: T, c: T|
        #![trigger earlier(b, a), earlier(c, b)]
        !earlier(b, a) && !earlier(c, b) ==> !earlier(c, a)
}

/// Whether no item goes before one it comes after.
pub open spec fn in_order<T>(s: Seq<T>, earlier: spec_fn(T, T) -> bool) -> bool {
    forall|i: int, j: int|
        #![trigger s[i], s[j]]
        0 <= i < j < s.len() ==> !earlier(s[j], s[i])
}

/// Whether neither of two items goes before the other.
pub open spec fn level<T>(earlier: spec_fn(T, T) -> bool, a: T) -> spec_fn(T) -> bool {
    |b: T| !earlier(a, b) && !earlier(b, a)
}

/// A list in order with one more, behind those it does not go before.
pub open spec fn inserted<T>(s: Seq<T>, x: T, earlier: spec_fn(T, T) -> bool) -> Seq<T>
    decreases s.len(),
{
    if s.len() == 0 || !earlier(x, s.last()) {
        s.push(x)
    } else {
        inserted(s.drop_last(), x, earlier).push(s.last())
    }
}

/// A list put in order.
pub open spec fn sorted<T>(s: Seq<T>, earlier: spec_fn(T, T) -> bool) -> Seq<T>
    decreases s.len(),
{
    if s.len() == 0 {
        s
    } else {
        inserted(sorted(s.drop_last(), earlier), s.last(), earlier)
    }
}

/// What goes before no item goes before none with one more, if not before that.
proof fn inserted_bound<T>(s: Seq<T>, x: T, earlier: spec_fn(T, T) -> bool, u: T)
    requires
        !earlier(u, x),
        forall|k: int| 0 <= k < s.len() ==> !earlier(u, #[trigger] s[k]),
    ensures
        forall|k: int|
            0 <= k < inserted(s, x, earlier).len() ==> !earlier(
                u,
                #[trigger] inserted(s, x, earlier)[k],
            ),
    decreases s.len(),
{
    if s.len() > 0 && earlier(x, s.last()) {
        let rest = s.drop_last();
        assert forall|k: int| 0 <= k < rest.len() implies !earlier(u, #[trigger] rest[k]) by {
            assert(rest[k] == s[k]);
        }
        inserted_bound(rest, x, earlier, u);
        let out = inserted(s, x, earlier);
        assert forall|k: int| 0 <= k < out.len() implies !earlier(u, #[trigger] out[k]) by {
            if k < out.len() - 1 {
                assert(out[k] == inserted(rest, x, earlier)[k]);
            } else {
                assert(out[k] == s[s.len() - 1]);
            }
        }
    }
}

/// One more goes in its place, behind those it is level with.
pub proof fn inserting_orders<T>(s: Seq<T>, x: T, earlier: spec_fn(T, T) -> bool, z: T)
    requires
        is_order(earlier),
        in_order(s, earlier),
    ensures
        in_order(inserted(s, x, earlier), earlier),
        inserted(s, x, earlier).to_multiset() == s.to_multiset().insert(x),
        inserted(s, x, earlier).filter(level(earlier, z)) == s.push(x).filter(level(earlier, z)),
    decreases s.len(),
{
    broadcast use vstd::seq_lib::group_to_multiset_ensures;

    reveal(Seq::filter);
    let out = inserted(s, x, earlier);
    if s.len() == 0 || !earlier(x, s.last()) {
        assert forall|i: int, j: int|
            #![trigger out[i], out[j]]
            0 <= i < j < out.len() implies !earlier(out[j], out[i]) by {
            if j == s.len() {
                if i < s.len() - 1 {
                    assert(!earlier(s[s.len() - 1], s[i]));
                }
                assert(!earlier(x, s[s.len() - 1]));
            } else {
                assert(out[i] == s[i] && out[j] == s[j]);
            }
        }
    } else {
        let rest = s.drop_last();
        let last = s.last();
        let short = inserted(rest, x, earlier);
        assert forall|i: int, j: int|
            #![trigger rest[i], rest[j]]
            0 <= i < j < rest.len() implies !earlier(rest[j], rest[i]) by {
            assert(rest[i] == s[i] && rest[j] == s[j]);
        }
        inserting_orders(rest, x, earlier, z);
        assert forall|k: int| 0 <= k < rest.len() implies !earlier(last, #[trigger] rest[k]) by {
            assert(rest[k] == s[k] && last == s[s.len() - 1]);
        }
        assert(!earlier(last, x));
        inserted_bound(rest, x, earlier, last);
        assert forall|i: int, j: int|
            #![trigger out[i], out[j]]
            0 <= i < j < out.len() implies !earlier(out[j], out[i]) by {
            assert(out[i] == short[i]);
            if j < short.len() {
                assert(out[j] == short[j]);
            } else {
                assert(out[j] == last);
            }
        }
        assert(s =~= rest.push(last));
        assert(out.to_multiset() =~= s.to_multiset().insert(x));
        let f = level(earlier, z);
        assert(out.drop_last() =~= short);
        assert(rest.push(x).drop_last() =~= rest);
        assert(s.push(x).drop_last() =~= s);
        if f(x) && f(last) {
            assert(!earlier(z, last) && !earlier(x, z));
        }
        let kept = rest.filter(f);
        assert(short.filter(f) == if f(x) {
            kept.push(x)
        } else {
            kept
        });
        assert(out.filter(f) == if f(last) {
            short.filter(f).push(last)
        } else {
            short.filter(f)
        });
        assert(s.filter(f) == if f(last) {
            kept.push(last)
        } else {
            kept
        });
        assert(s.push(x).filter(f) == if f(x) {
            s.filter(f).push(x)
        } else {
            s.filter(f)
        });
    }
}

/// Sorting puts the items in order, neither loses nor adds one, and leaves those
/// level with one another in the order they were in.
pub proof fn sorting_orders<T>(s: Seq<T>, earlier: spec_fn(T, T) -> bool, z: T)
    requires
        is_order(earlier),
    ensures
        in_order(sorted(s, earlier), earlier),
        sorted(s, earlier).to_multiset() == s.to_multiset(),
        sorted(s, earlier).filter(level(earlier, z)) == s.filter(level(earlier, z)),
    decreases s.len(),
{
    broadcast use vstd::seq_lib::group_to_multiset_ensures;

    if s.len() > 0 {
        let rest = s.drop_last();
        let short = sorted(rest, earlier);
        sorting_orders(rest, earlier, z);
        inserting_orders(short, s.last(), earlier, z);
        assert(s =~= rest.push(s.last()));
        reveal(Seq::filter);
        assert(short.push(s.last()).drop_last() =~= short);
    }
}

} // verus!
