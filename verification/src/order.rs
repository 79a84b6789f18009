//! The order in which names are listed.
use vstd::prelude::*;
use vstd::std_specs::iter::IteratorSpec;

verus! {

/// Whether `a` stands before `b`: at the first place where they differ, `a` has ended or has
/// the smaller character.
pub open spec fn precedes(a: Seq<char>, b: Seq<char>) -> bool
    decreases a.len(),
{
    if b.len() == 0 {
        false
    } else if a.len() == 0 {
        true
    } else if a[0] != b[0] {
        a[0] < b[0]
    } else {
        precedes(a.drop_first(), b.drop_first())
    }
}

/// Whether the bytes `a` stand before the bytes `b`, in lexicographic order.
pub open spec fn bytes_precede(a: Seq<u8>, b: Seq<u8>) -> bool
    decreases a.len(),
{
    if b.len() == 0 {
        false
    } else if a.len() == 0 {
        true
    } else if a[0] != b[0] {
        a[0] < b[0]
    } else {
        bytes_precede(a.drop_first(), b.drop_first())
    }
}

/// Whether `names` is in strictly ascending order.
pub open spec fn ascending(names: Seq<Seq<char>>) -> bool {
    forall|i: int, j: int|
        #![trigger names[i], names[j]]
        0 <= i < j < names.len() ==> precedes(names[i], names[j])
}

/// Where one name stands relative to another.
#[derive(Debug, Clone, Copy, PartialEq, Eq, Structural)]
pub enum Side {
    Before,
    Same,
    After,
}

/// No name stands before itself.
pub proof fn law_order_irreflexive(a: Seq<char>)
    ensures
        !precedes(a, a),
    decreases a.len(),
{
    if a.len() > 0 {
        law_order_irreflexive(a.drop_first());
    }
}

/// Of two different names one stands before the other.
pub proof fn law_order_total(a: Seq<char>, b: Seq<char>)
    ensures
        a == b || precedes(a, b) || precedes(b, a),
    decreases a.len(),
{
    if a.len() == 0 || b.len() == 0 {
        if a.len() == b.len() {
            assert(a =~= b);
        }
    } else if a[0] == b[0] {
        law_order_total(a.drop_first(), b.drop_first());
        if a.drop_first() == b.drop_first() {
            assert(a =~= seq![a[0]] + a.drop_first());
            assert(b =~= seq![b[0]] + b.drop_first());
        }
    }
}

/// A name before a second one, which is before a third, is before the third.
pub proof fn law_order_transitive(a: Seq<char>, b: Seq<char>, c: Seq<char>)
    requires
        precedes(a, b),
        precedes(b, c),
    ensures
        precedes(a, c),
    decreases a.len(),
{
    if a.len() > 0 && b.len() > 0 && c.len() > 0 && a[0] == b[0] && b[0] == c[0] {
        law_order_transitive(a.drop_first(), b.drop_first(), c.drop_first());
    }
}

/// A name stands before another exactly if at the first place where they differ it has ended or
/// has the character with the smaller code.
pub proof fn law_order_is_decided_at_first_difference(a: Seq<char>, b: Seq<char>)
    ensures
        precedes(a, b) <==> exists|k: int|
            0 <= k <= a.len() && k < b.len() && #[trigger] a.take(k) == b.take(k) && (k == a.len()
                || (a[k] as int) < b[k] as int),
    decreases a.len(),
{
    let x = a.drop_first();
    let y = b.drop_first();
    if a.len() > 0 && b.len() > 0 && a[0] == b[0] {
        law_order_is_decided_at_first_difference(x, y);
        if precedes(a, b) {
            let k: int = choose|k: int|
                0 <= k <= x.len() && k < y.len() && #[trigger] x.take(k) == y.take(k) && (k
                    == x.len() || (x[k] as int) < y[k] as int);
            assert(a.take(k + 1) =~= seq![a[0]] + x.take(k));
            assert(b.take(k + 1) =~= seq![b[0]] + y.take(k));
        }
        if exists|k: int|
            0 <= k <= a.len() && k < b.len() && #[trigger] a.take(k) == b.take(k) && (k == a.len()
                || (a[k] as int) < b[k] as int) {
            let k: int = choose|k: int|
                0 <= k <= a.len() && k < b.len() && #[trigger] a.take(k) == b.take(k) && (k
                    == a.len() || (a[k] as int) < b[k] as int);
            assert(k > 0);
            assert(x.take(k - 1) =~= a.take(k).drop_first());
            assert(y.take(k - 1) =~= b.take(k).drop_first());
            assert(x.take(k - 1) == y.take(k - 1));
        }
    } else {
        if precedes(a, b) {
            assert(a.take(0) =~= b.take(0));
        }
        if exists|k: int|
            0 <= k <= a.len() && k < b.len() && #[trigger] a.take(k) == b.take(k) && (k == a.len()
                || (a[k] as int) < b[k] as int) {
            let k: int = choose|k: int|
                0 <= k <= a.len() && k < b.len() && #[trigger] a.take(k) == b.take(k) && (k
                    == a.len() || (a[k] as int) < b[k] as int);
            if k > 0 {
                assert(a.take(k)[0] == b.take(k)[0]);
            }
        }
    }
}

/// Names are in ascending order exactly if each stands before every later one.
pub proof fn law_ascending_orders_every_pair(names: Seq<Seq<char>>)
    ensures
        ascending(names) <==> forall|i: int, j: int|
            #![trigger names[i], names[j]]
            0 <= i < j < names.len() ==> precedes(names[i], names[j]),
{
}

/// On ASCII text, as every registered name is, the order is that of the encoded bytes.
pub proof fn law_order_is_byte_order(a: Seq<char>, b: Seq<char>)
    requires
        vstd::utf8::is_ascii_chars(a),
        vstd::utf8::is_ascii_chars(b),
    ensures
        precedes(a, b) <==> bytes_precede(
            vstd::utf8::encode_utf8(a),
            vstd::utf8::encode_utf8(b),
        ),
    decreases a.len(),
{
    let x = vstd::utf8::encode_utf8(a);
    let y = vstd::utf8::encode_utf8(b);
    vstd::utf8::is_ascii_chars_encode_utf8(a);
    vstd::utf8::is_ascii_chars_encode_utf8(b);
    if a.len() > 0 && b.len() > 0 && a[0] == b[0] {
        law_order_is_byte_order(a.drop_first(), b.drop_first());
        vstd::utf8::is_ascii_chars_encode_utf8(a.drop_first());
        vstd::utf8::is_ascii_chars_encode_utf8(b.drop_first());
        assert(x.drop_first() =~= vstd::utf8::encode_utf8(a.drop_first()));
        assert(y.drop_first() =~= vstd::utf8::encode_utf8(b.drop_first()));
    }
}

/// Names in ascending order are all different.
pub proof fn law_ascending_distinct(names: Seq<Seq<char>>)
    requires
        ascending(names),
    ensures
        names.no_duplicates(),
{
    assert forall|i: int, j: int|
        0 <= i < names.len() && 0 <= j < names.len() && i != j implies names[i] != names[j] by {
        if i < j {
            law_order_irreflexive(names[i]);
            assert(precedes(names[i], names[j]));
        } else {
            law_order_irreflexive(names[j]);
            assert(precedes(names[j], names[i]));
        }
    }
}

/// There is one way only to put given names in ascending order.
pub proof fn law_ascending_unique(a: Seq<Seq<char>>, b: Seq<Seq<char>>)
    requires
        ascending(a),
        ascending(b),
        a.to_set() == b.to_set(),
    ensures
        a == b,
    decreases a.len(),
{
    if a.len() == 0 {
        if b.len() > 0 {
            assert(b.to_set().contains(b[0]));
            assert(a.to_set().contains(b[0]));
        }
        assert(a =~= b);
    } else {
        assert(a.to_set().contains(a.last()));
        assert(b.to_set().contains(a.last()));
        let at_b: int = choose|i: int| 0 <= i < b.len() && b[i] == a.last();
        assert(b.to_set().contains(b.last()));
        assert(a.to_set().contains(b.last()));
        let at_a: int = choose|i: int| 0 <= i < a.len() && a[i] == b.last();
        if a.last() != b.last() {
            assert(precedes(a[at_a], a[a.len() - 1]));
            assert(precedes(b[at_b], b[b.len() - 1]));
            law_order_transitive(a.last(), b.last(), a.last());
            law_order_irreflexive(a.last());
        }
        law_ascending_distinct(a);
        law_ascending_distinct(b);
        let a1 = a.drop_last();
        let b1 = b.drop_last();
        assert forall|x: Seq<char>| a1.to_set().contains(x) <==> b1.to_set().contains(x) by {
            lemma_drop_last_members(a, x);
            lemma_drop_last_members(b, x);
        }
        assert(a1.to_set() =~= b1.to_set());
        law_ascending_unique(a1, b1);
        assert(a =~= a1.push(a.last()));
        assert(b =~= b1.push(b.last()));
    }
}

proof fn lemma_drop_last_members(a: Seq<Seq<char>>, x: Seq<char>)
    requires
        a.len() > 0,
        a.no_duplicates(),
    ensures
        a.drop_last().to_set().contains(x) <==> a.to_set().contains(x) && x != a.last(),
{
    let a1 = a.drop_last();
    if a1.contains(x) {
        let i: int = choose|i: int| 0 <= i < a1.len() && a1[i] == x;
        assert(a[i] == x);
    }
    if a.contains(x) && x != a.last() {
        let i: int = choose|i: int| 0 <= i < a.len() && a[i] == x;
        assert(a1[i] == x);
    }
}

/// Finds where `a` stands relative to `b`.
pub fn side_of(a: &str, b: &str) -> (side: Side)
    ensures
        match side {
            Side::Before => precedes(a@, b@),
            Side::Same => a@ == b@,
            Side::After => precedes(b@, a@),
        },
{
    let mut left = a.chars();
    let mut right = b.chars();
    loop
        invariant
            left.obeys_prophetic_iter_laws(),
            right.obeys_prophetic_iter_laws(),
            left.decrease() is Some,
            precedes(left.remaining(), right.remaining()) ==> precedes(a@, b@),
            precedes(right.remaining(), left.remaining()) ==> precedes(b@, a@),
            left.remaining() == right.remaining() ==> a@ == b@,
        decreases left.decrease()->0,
    {
        let ghost l = left.remaining();
        let ghost r = right.remaining();
        let x = left.next();
        let y = right.next();
        match (x, y) {
            (None, None) => {
                assert(l =~= r);
                return Side::Same;
            },
            (None, Some(_)) => {
                return Side::Before;
            },
            (Some(_), None) => {
                return Side::After;
            },
            (Some(c), Some(d)) => {
                if c < d {
                    return Side::Before;
                }
                if d < c {
                    return Side::After;
                }
                proof {
                    assert(l =~= seq![l[0]] + l.drop_first());
                    assert(r =~= seq![r[0]] + r.drop_first());
                }
            },
        }
    }
}

} // verus!
