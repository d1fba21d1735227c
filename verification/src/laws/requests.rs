//! What holds of requests and of the mappings they are executed on.

use vstd::prelude::*;
use crate::protocol::{answer, apply, mutates, RequestText, ResponseText};
use crate::store::{
    distinct_keys,
    has_key,
    lemma_put_all_decides,
    lemma_put_all_distinct,
    lemma_put_all_keeps,
    lookup,
    TextMap,
    TextPair,
};

verus! {

/// Whether `request` may change what is held for the key `k`.
pub open spec fn writes(request: RequestText, k: Seq<char>) -> bool {
    match request {
        RequestText::Get { key } => false,
        RequestText::Put { key, value } => key == k,
        RequestText::Delete { key } => key == k,
        RequestText::BatchPut { pairs } => has_key(pairs, k),
    }
}

/// Whether `request` reads or may change what is held for the key `k`.
pub open spec fn touches(request: RequestText, k: Seq<char>) -> bool {
    match request {
        RequestText::Get { key } => key == k,
        _ => writes(request, k),
    }
}

/// The mapping after the requests of `requests` were executed on `m`, from
/// first to last.
pub open spec fn apply_all(m: TextMap, requests: Seq<RequestText>) -> TextMap
    decreases requests.len(),
{
    if requests.len() == 0 {
        m
    } else {
        apply(apply_all(m, requests.drop_last()), requests.last())
    }
}

/// A request leaves every key alone that it does not write.
pub proof fn lemma_apply_keeps(m: TextMap, request: RequestText, k: Seq<char>)
    requires
        !writes(request, k),
    ensures
        lookup(apply(m, request), k) == lookup(m, k),
{
    match request {
        RequestText::BatchPut { pairs } => {
            lemma_put_all_keeps(m, pairs, k);
        },
        _ => {},
    }
}

/// What a request leaves for a key that it writes does not depend on the
/// mapping it is executed on.
pub proof fn lemma_apply_decides(m: TextMap, n: TextMap, request: RequestText, k: Seq<char>)
    requires
        writes(request, k),
    ensures
        lookup(apply(m, request), k) == lookup(apply(n, request), k),
{
    match request {
        RequestText::BatchPut { pairs } => {
            lemma_put_all_decides(m, n, pairs, k);
        },
        _ => {},
    }
}

/// Two mappings that hold the same for every key are one mapping.
pub proof fn lemma_same_lookups(a: TextMap, b: TextMap)
    requires
        forall|k: Seq<char>| lookup(a, k) == lookup(b, k),
    ensures
        a == b,
{
    assert forall|k: Seq<char>| a.contains_key(k) == b.contains_key(k) by {
        assert(lookup(a, k) == lookup(b, k));
    }
    assert forall|k: Seq<char>| a.contains_key(k) implies a[k] == b[k] by {
        assert(lookup(a, k) == lookup(b, k));
    }
}

/// A read after a write gives what was written: once `key` was set to
/// `value`, a read of `key` answers with `value`.
pub proof fn law_get_after_set(m: TextMap, key: Seq<char>, value: Seq<char>)
    ensures
        answer(apply(m, RequestText::Put { key, value }), RequestText::Get { key })
            == (ResponseText::Value { key, value: Some(value) }),
{
}

/// What was written stays until it is overwritten or deleted: after `key`
/// was set to `value`, and after any requests that do not write `key`, a
/// read of `key` answers with `value`.
pub proof fn law_set_lasts(
    m: TextMap,
    key: Seq<char>,
    value: Seq<char>,
    between: Seq<RequestText>,
)
    requires
        forall|i: int| 0 <= i < between.len() ==> !writes(#[trigger] between[i], key),
    ensures
        answer(
            apply_all(apply(m, RequestText::Put { key, value }), between),
            RequestText::Get { key },
        ) == (ResponseText::Value { key, value: Some(value) }),
    decreases between.len(),
{
    if between.len() > 0 {
        let front = between.drop_last();
        assert forall|i: int| 0 <= i < front.len() implies !writes(#[trigger] front[i], key) by {
            assert(front[i] == between[i]);
        }
        law_set_lasts(m, key, value, front);
        let before = apply_all(apply(m, RequestText::Put { key, value }), front);
        lemma_apply_keeps(before, between.last(), key);
    }
}

/// A read after a delete finds nothing, whether or not the key was there.
pub proof fn law_get_after_delete(m: TextMap, key: Seq<char>)
    ensures
        answer(apply(m, RequestText::Delete { key }), RequestText::Get { key })
            == (ResponseText::Value { key, value: None }),
{
}

/// A key stays deleted until it is written: after `key` was deleted, and
/// after any requests that do not write `key`, a read of `key` finds nothing.
pub proof fn law_delete_lasts(m: TextMap, key: Seq<char>, between: Seq<RequestText>)
    requires
        forall|i: int| 0 <= i < between.len() ==> !writes(#[trigger] between[i], key),
    ensures
        answer(apply_all(apply(m, RequestText::Delete { key }), between), RequestText::Get { key })
            == (ResponseText::Value { key, value: None }),
    decreases between.len(),
{
    if between.len() > 0 {
        let front = between.drop_last();
        assert forall|i: int| 0 <= i < front.len() implies !writes(#[trigger] front[i], key) by {
            assert(front[i] == between[i]);
        }
        law_delete_lasts(m, key, front);
        let before = apply_all(apply(m, RequestText::Delete { key }), front);
        lemma_apply_keeps(before, between.last(), key);
    }
}

/// A batch is whole: after it, every key that it names is present, so that
/// no reader finds one of its keys set and another still unset.
pub proof fn law_batch_sets_every_key(m: TextMap, pairs: Seq<TextPair>, i: int)
    requires
        0 <= i < pairs.len(),
    ensures
        apply(m, RequestText::BatchPut { pairs }).contains_key(pairs[i].0),
{
    lemma_put_all_decides(m, m, pairs, pairs[i].0);
}

/// After a batch, a key that it names once has the value that the batch
/// gives it, and a key that it does not name is as it was.
pub proof fn law_batch_values(m: TextMap, pairs: Seq<TextPair>, k: Seq<char>)
    requires
        distinct_keys(pairs),
    ensures
        forall|i: int|
            0 <= i < pairs.len() ==> lookup(
                apply(m, RequestText::BatchPut { pairs }),
                (#[trigger] pairs[i]).0,
            ) == Some(pairs[i].1),
        !has_key(pairs, k) ==> lookup(apply(m, RequestText::BatchPut { pairs }), k) == lookup(
            m,
            k,
        ),
{
    assert forall|i: int| 0 <= i < pairs.len() implies lookup(
        apply(m, RequestText::BatchPut { pairs }),
        (#[trigger] pairs[i]).0,
    ) == Some(pairs[i].1) by {
        lemma_put_all_distinct(m, pairs, i);
    }
    if !has_key(pairs, k) {
        lemma_put_all_keeps(m, pairs, k);
    }
}

/// A batch of two pairs with different keys sets both.
pub proof fn law_batch_of_two(
    m: TextMap,
    k1: Seq<char>,
    v1: Seq<char>,
    k2: Seq<char>,
    v2: Seq<char>,
)
    requires
        k1 != k2,
    ensures
        lookup(apply(m, RequestText::BatchPut { pairs: seq![(k1, v1), (k2, v2)] }), k1) == Some(
            v1,
        ),
        lookup(apply(m, RequestText::BatchPut { pairs: seq![(k1, v1), (k2, v2)] }), k2) == Some(
            v2,
        ),
{
    let pairs = seq![(k1, v1), (k2, v2)];
    law_batch_values(m, pairs, k1);
    assert(pairs[0] == (k1, v1) && pairs[1] == (k2, v2));
}

/// Deleting again changes nothing: the mapping after two deletes of a key
/// is the mapping after one, and a read finds nothing after either.
pub proof fn law_delete_idempotent(m: TextMap, key: Seq<char>)
    ensures
        apply(apply(m, RequestText::Delete { key }), RequestText::Delete { key }) == apply(
            m,
            RequestText::Delete { key },
        ),
        answer(
            apply(apply(m, RequestText::Delete { key }), RequestText::Delete { key }),
            RequestText::Get { key },
        ) == (ResponseText::Value { key, value: None }),
{
}

/// Setting again changes nothing: the mapping after a key was set twice to
/// one value is the mapping after it was set once.
pub proof fn law_set_idempotent(m: TextMap, key: Seq<char>, value: Seq<char>)
    ensures
        apply(apply(m, RequestText::Put { key, value }), RequestText::Put { key, value })
            == apply(m, RequestText::Put { key, value }),
{
}

/// A request that is no mutation leaves the mapping as it was.
pub proof fn law_read_changes_nothing(m: TextMap, request: RequestText)
    requires
        !mutates(request),
    ensures
        apply(m, request) == m,
{
}

/// Requests on different keys do not see each other: where no key is
/// touched by both, the two can be executed in either order with the same
/// mapping at the end, and each is answered as if the other had not been
/// made.
pub proof fn law_disjoint_requests_commute(m: TextMap, a: RequestText, b: RequestText)
    requires
        forall|k: Seq<char>| !(touches(a, k) && touches(b, k)),
    ensures
        apply(apply(m, a), b) == apply(apply(m, b), a),
        answer(apply(m, a), b) == answer(m, b),
        answer(apply(m, b), a) == answer(m, a),
{
    let ab = apply(apply(m, a), b);
    let ba = apply(apply(m, b), a);
    assert forall|k: Seq<char>| lookup(ab, k) == lookup(ba, k) by {
        assert(!(touches(a, k) && touches(b, k)));
        if writes(a, k) {
            lemma_apply_keeps(apply(m, a), b, k);
            lemma_apply_decides(m, apply(m, b), a, k);
        } else if writes(b, k) {
            lemma_apply_keeps(apply(m, b), a, k);
            lemma_apply_decides(m, apply(m, a), b, k);
        } else {
            lemma_apply_keeps(m, a, k);
            lemma_apply_keeps(m, b, k);
            lemma_apply_keeps(apply(m, a), b, k);
            lemma_apply_keeps(apply(m, b), a, k);
        }
    }
    lemma_same_lookups(ab, ba);
    match b {
        RequestText::Get { key } => {
            assert(!(touches(a, key) && touches(b, key)));
            lemma_apply_keeps(m, a, key);
        },
        _ => {},
    }
    match a {
        RequestText::Get { key } => {
            assert(!(touches(a, key) && touches(b, key)));
            lemma_apply_keeps(m, b, key);
        },
        _ => {},
    }
}

/// Whether the requests `a` and `b` both touch the key `k`.
pub open spec fn meet(a: RequestText, b: RequestText, k: Seq<char>) -> bool {
    touches(a, k) && touches(b, k)
}

/// Whether no key is touched both by a request of `xs` and by one of `ys`.
pub open spec fn disjoint(xs: Seq<RequestText>, ys: Seq<RequestText>) -> bool {
    forall|i: int, j: int, k: Seq<char>|
        0 <= i < xs.len() && 0 <= j < ys.len() ==> !#[trigger] meet(xs[i], ys[j], k)
}

/// Whether `zs` holds the requests of `xs` and those of `ys`, each list in
/// its own order, mixed in any way.
pub open spec fn interleaves(
    zs: Seq<RequestText>,
    xs: Seq<RequestText>,
    ys: Seq<RequestText>,
) -> bool
    decreases zs.len(),
{
    if zs.len() == 0 {
        xs.len() == 0 && ys.len() == 0
    } else {
        ||| xs.len() > 0 && xs.last() == zs.last() && interleaves(
            zs.drop_last(),
            xs.drop_last(),
            ys,
        )
        ||| ys.len() > 0 && ys.last() == zs.last() && interleaves(
            zs.drop_last(),
            xs,
            ys.drop_last(),
        )
    }
}

/// A list of requests without its last is as disjoint from another list as
/// the whole list is.
proof fn lemma_disjoint_front(xs: Seq<RequestText>, ys: Seq<RequestText>)
    requires
        disjoint(xs, ys),
    ensures
        xs.len() > 0 ==> disjoint(xs.drop_last(), ys),
        ys.len() > 0 ==> disjoint(xs, ys.drop_last()),
{
    if xs.len() > 0 {
        let front = xs.drop_last();
        assert forall|i: int, j: int, k: Seq<char>|
            0 <= i < front.len() && 0 <= j < ys.len() implies !#[trigger] meet(
            front[i],
            ys[j],
            k,
        ) by {
            assert(!meet(xs[i], ys[j], k));
        }
    }
    if ys.len() > 0 {
        let front = ys.drop_last();
        assert forall|i: int, j: int, k: Seq<char>|
            0 <= i < xs.len() && 0 <= j < front.len() implies !#[trigger] meet(
            xs[i],
            front[j],
            k,
        ) by {
            assert(!meet(xs[i], ys[j], k));
        }
    }
}

/// A request can be moved in front of requests on other keys.
proof fn lemma_commute_past(m: TextMap, x: RequestText, ys: Seq<RequestText>)
    requires
        disjoint(seq![x], ys),
    ensures
        apply(apply_all(m, ys), x) == apply_all(apply(m, x), ys),
    decreases ys.len(),
{
    if ys.len() > 0 {
        let front = ys.drop_last();
        let y = ys.last();
        lemma_disjoint_front(seq![x], ys);
        lemma_commute_past(m, x, front);
        assert forall|k: Seq<char>| !(touches(y, k) && touches(x, k)) by {
            assert(!meet(seq![x][0], ys[ys.len() - 1], k));
        }
        law_disjoint_requests_commute(apply_all(m, front), y, x);
    }
}

/// The store at the end is that of a serial order: when two connections
/// work on different keys, however their requests are mixed, the mapping at
/// the end is the one that is reached when all requests of one connection
/// are executed before those of the other, in either order of the two.
pub proof fn law_interleaving_is_serial(
    m: TextMap,
    zs: Seq<RequestText>,
    xs: Seq<RequestText>,
    ys: Seq<RequestText>,
)
    requires
        interleaves(zs, xs, ys),
        disjoint(xs, ys),
    ensures
        apply_all(m, zs) == apply_all(apply_all(m, xs), ys),
        apply_all(m, zs) == apply_all(apply_all(m, ys), xs),
{
    lemma_disjoint_sides(xs, ys);
    lemma_interleaves_sides(zs, xs, ys);
    lemma_interleaving_is_serial(m, zs, xs, ys);
    lemma_interleaving_is_serial(m, zs, ys, xs);
}

/// Being disjoint does not depend on the order of the two lists.
proof fn lemma_disjoint_sides(xs: Seq<RequestText>, ys: Seq<RequestText>)
    requires
        disjoint(xs, ys),
    ensures
        disjoint(ys, xs),
{
    assert forall|i: int, j: int, k: Seq<char>|
        0 <= i < ys.len() && 0 <= j < xs.len() implies !#[trigger] meet(ys[i], xs[j], k) by {
        assert(!meet(xs[j], ys[i], k));
    }
}

/// Being an interleaving does not depend on the order of the two lists.
proof fn lemma_interleaves_sides(
    zs: Seq<RequestText>,
    xs: Seq<RequestText>,
    ys: Seq<RequestText>,
)
    requires
        interleaves(zs, xs, ys),
    ensures
        interleaves(zs, ys, xs),
    decreases zs.len(),
{
    if zs.len() > 0 {
        if xs.len() > 0 && xs.last() == zs.last() && interleaves(
            zs.drop_last(),
            xs.drop_last(),
            ys,
        ) {
            lemma_interleaves_sides(zs.drop_last(), xs.drop_last(), ys);
        } else {
            lemma_interleaves_sides(zs.drop_last(), xs, ys.drop_last());
        }
    }
}

/// The mapping after an interleaving is the mapping after the first list
/// and then the second.
proof fn lemma_interleaving_is_serial(
    m: TextMap,
    zs: Seq<RequestText>,
    xs: Seq<RequestText>,
    ys: Seq<RequestText>,
)
    requires
        interleaves(zs, xs, ys),
        disjoint(xs, ys),
    ensures
        apply_all(m, zs) == apply_all(apply_all(m, xs), ys),
    decreases zs.len(),
{
    if zs.len() > 0 {
        lemma_disjoint_front(xs, ys);
        if xs.len() > 0 && xs.last() == zs.last() && interleaves(
            zs.drop_last(),
            xs.drop_last(),
            ys,
        ) {
            let x = xs.last();
            lemma_interleaving_is_serial(m, zs.drop_last(), xs.drop_last(), ys);
            assert forall|i: int, j: int, k: Seq<char>|
                0 <= i < 1 && 0 <= j < ys.len() implies !#[trigger] meet(seq![x][i], ys[j], k) by {
                assert(!meet(xs[xs.len() - 1], ys[j], k));
            }
            lemma_commute_past(apply_all(m, xs.drop_last()), x, ys);
        } else {
            lemma_interleaving_is_serial(m, zs.drop_last(), xs, ys.drop_last());
        }
    }
}

/// A connection sees only its own requests: when two connections work on
/// different keys, what the mapping holds for a key that the second does
/// not write is, however the requests are mixed, what it would hold had the
/// first connection been alone. So every read of the first connection is
/// answered as if it had been alone.
pub proof fn law_connections_are_isolated(
    m: TextMap,
    zs: Seq<RequestText>,
    xs: Seq<RequestText>,
    ys: Seq<RequestText>,
    k: Seq<char>,
)
    requires
        interleaves(zs, xs, ys),
        forall|j: int| 0 <= j < ys.len() ==> !writes(#[trigger] ys[j], k),
    ensures
        lookup(apply_all(m, zs), k) == lookup(apply_all(m, xs), k),
        answer(apply_all(m, zs), RequestText::Get { key: k }) == answer(
            apply_all(m, xs),
            RequestText::Get { key: k },
        ),
    decreases zs.len(),
{
    if zs.len() > 0 {
        if xs.len() > 0 && xs.last() == zs.last() && interleaves(
            zs.drop_last(),
            xs.drop_last(),
            ys,
        ) {
            law_connections_are_isolated(m, zs.drop_last(), xs.drop_last(), ys, k);
            let mixed = apply_all(m, zs.drop_last());
            let alone = apply_all(m, xs.drop_last());
            if writes(xs.last(), k) {
                lemma_apply_decides(mixed, alone, xs.last(), k);
            } else {
                lemma_apply_keeps(mixed, xs.last(), k);
                lemma_apply_keeps(alone, xs.last(), k);
            }
        } else {
            let front = ys.drop_last();
            assert forall|j: int| 0 <= j < front.len() implies !writes(#[trigger] front[j], k) by {
                assert(front[j] == ys[j]);
            }
            law_connections_are_isolated(m, zs.drop_last(), xs, front, k);
            assert(!writes(ys[ys.len() - 1], k));
            lemma_apply_keeps(apply_all(m, zs.drop_last()), ys.last(), k);
        }
    }
}

} // verus!
