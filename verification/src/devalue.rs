use vstd::prelude::*;

use vstd::set_lib::{lemma_int_range, lemma_len_subset, set_int_range};

use crate::json::{json_view, views, Json, JsonView};

verus! {

// A devalue payload is a flat array of values. Inside an object or an array stored
// in it, a non-negative integer refers to another slot of the payload; any other
// value stands for itself. Resolving slot `idx` rebuilds the document that it
// denotes. A payload whose references leave the array, or that refer back to a slot
// being resolved, has no resolution.

/// The values held by a container: the members of an object, the items of an array;
/// other values hold none.
pub open spec fn members(v: JsonView) -> Seq<JsonView> {
    match v {
        JsonView::Object(entries) => entries.map_values(|e: (Seq<char>, JsonView)| e.1),
        JsonView::Array(items) => items,
        _ => Seq::empty(),
    }
}

/// A value found inside a container of the payload resolves with references nested
/// at most `depth` deep.
pub open spec fn member_resolvable_within(payload: Seq<JsonView>, v: JsonView, depth: nat) -> bool
    decreases depth, 1nat,
{
    match v {
        JsonView::PosInt(i) => resolvable_within(payload, i as int, depth),
        _ => true,
    }
}

/// Slot `idx` of `payload` resolves with references nested at most `depth` deep.
pub open spec fn resolvable_within(payload: Seq<JsonView>, idx: int, depth: nat) -> bool
    decreases depth, 0nat,
{
    &&& depth > 0
    &&& 0 <= idx < payload.len()
    &&& forall|k: int|
        0 <= k < members(payload[idx]).len() ==> member_resolvable_within(
            payload,
            #[trigger] members(payload[idx])[k],
            (depth - 1) as nat,
        )
}

/// Slot `idx` of `payload` has a resolution.
pub open spec fn resolvable(payload: Seq<JsonView>, idx: int) -> bool {
    exists|depth: nat| resolvable_within(payload, idx, depth)
}

/// What a value found inside a container of the payload stands for.
pub open spec fn resolve_member(payload: Seq<JsonView>, v: JsonView, depth: nat) -> JsonView
    decreases depth, 1nat,
{
    match v {
        JsonView::PosInt(i) => resolve_slot(payload, i as int, depth),
        _ => v,
    }
}

/// The document that slot `idx` denotes, resolving references at most `depth` deep.
pub open spec fn resolve_slot(payload: Seq<JsonView>, idx: int, depth: nat) -> JsonView
    decreases depth, 0nat,
{
    if depth == 0 || !(0 <= idx < payload.len()) {
        JsonView::Null
    } else {
        match payload[idx] {
            JsonView::Object(entries) => JsonView::Object(
                Seq::new(
                    entries.len(),
                    |k: int| (entries[k].0, resolve_member(payload, entries[k].1, (depth - 1) as nat)),
                ),
            ),
            JsonView::Array(items) => JsonView::Array(
                Seq::new(
                    items.len(),
                    |k: int| resolve_member(payload, items[k], (depth - 1) as nat),
                ),
            ),
            other => other,
        }
    }
}

/// The document that slot `idx` of `payload` denotes.
pub open spec fn resolved(payload: Seq<JsonView>, idx: int) -> JsonView {
    resolve_slot(payload, idx, choose|depth: nat| resolvable_within(payload, idx, depth))
}

/// What a value found inside a container of the payload stands for (see `resolve_member`).
fn resolve_member_exec(payload: &Vec<Json>, v: &Json, Ghost(depth): Ghost<nat>) -> (r: Json)
    requires
        member_resolvable_within(views(payload@), v@, depth),
    ensures
        r@ == resolve_member(views(payload@), v@, depth),
    decreases depth, 1nat,
{
    match v {
        Json::PosInt(i) => {
            assert(resolvable_within(views(payload@), *i as int, depth));
            assert(views(payload@).len() == payload@.len());
            assert(*i < payload.len());
            resolve_slot_exec(payload, *i as usize, Ghost(depth))
        },
        _ => v.copy(),
    }
}

/// The document that slot `idx` denotes (see `resolve_slot`).
fn resolve_slot_exec(payload: &Vec<Json>, idx: usize, Ghost(depth): Ghost<nat>) -> (r: Json)
    requires
        resolvable_within(views(payload@), idx as int, depth),
    ensures
        r@ == resolve_slot(views(payload@), idx as int, depth),
    decreases depth, 0nat,
{
    let ghost pv = views(payload@);
    assert(pv[idx as int] == json_view(payload@[idx as int]));
    match &payload[idx] {
        Json::Object(entries) => {
            let mut out: Vec<(String, Json)> = Vec::new();
            for k in 0..entries.len()
                invariant
                    pv == views(payload@),
                    0 <= idx < payload@.len(),
                    payload@[idx as int] == Json::Object(*entries),
                    pv[idx as int] == json_view(payload@[idx as int]),
                    resolvable_within(pv, idx as int, depth),
                    out@.len() == k,
                    forall|m: int|
                        0 <= m < k ==> (#[trigger] out@[m]).0@ == entries@[m].0@ && json_view(
                            out@[m].1,
                        ) == resolve_member(pv, json_view(entries@[m].1), (depth - 1) as nat),
            {
                let entry = &entries[k];
                let ghost es = match pv[idx as int] {
                    JsonView::Object(es) => es,
                    _ => Seq::empty(),
                };
                assert(es[k as int].1 == json_view(entry.1));
                assert(members(pv[idx as int])[k as int] == es[k as int].1);
                let value = resolve_member_exec(payload, &entry.1, Ghost((depth - 1) as nat));
                out.push((entry.0.clone(), value));
            }
            let r = Json::Object(out);
            assert(json_view(r) == resolve_slot(pv, idx as int, depth)) by {
                if let JsonView::Object(a) = json_view(r) {
                    if let JsonView::Object(b) = resolve_slot(pv, idx as int, depth) {
                        assert(a =~= b);
                    }
                }
            }
            r
        },
        Json::Array(items) => {
            let mut out: Vec<Json> = Vec::new();
            for k in 0..items.len()
                invariant
                    pv == views(payload@),
                    0 <= idx < payload@.len(),
                    payload@[idx as int] == Json::Array(*items),
                    pv[idx as int] == json_view(payload@[idx as int]),
                    resolvable_within(pv, idx as int, depth),
                    out@.len() == k,
                    forall|m: int|
                        0 <= m < k ==> json_view(#[trigger] out@[m]) == resolve_member(
                            pv,
                            json_view(items@[m]),
                            (depth - 1) as nat,
                        ),
            {
                let ghost vs = match pv[idx as int] {
                    JsonView::Array(vs) => vs,
                    _ => Seq::empty(),
                };
                assert(vs[k as int] == json_view(items@[k as int]));
                assert(members(pv[idx as int])[k as int] == vs[k as int]);
                let value = resolve_member_exec(payload, &items[k], Ghost((depth - 1) as nat));
                out.push(value);
            }
            let r = Json::Array(out);
            assert(json_view(r) == resolve_slot(pv, idx as int, depth)) by {
                if let JsonView::Array(a) = json_view(r) {
                    if let JsonView::Array(b) = resolve_slot(pv, idx as int, depth) {
                        assert(a =~= b);
                    }
                }
            }
            r
        },
        other => other.copy(),
    }
}

/// Resolves slot `idx` of a devalue payload into the document that it denotes.
pub fn devalue_resolve(payload: &Vec<Json>, idx: usize) -> (r: Json)
    requires
        resolvable(views(payload@), idx as int),
    ensures
        r@ == resolved(views(payload@), idx as int),
{
    let ghost depth = choose|depth: nat| resolvable_within(views(payload@), idx as int, depth);
    resolve_slot_exec(payload, idx, Ghost(depth))
}

/// Whether a value found inside a container of the payload resolves with references
/// nested at most `depth` deep.
fn member_resolves_within(payload: &Vec<Json>, v: &Json, depth: u64) -> (r: bool)
    ensures
        r == member_resolvable_within(views(payload@), v@, depth as nat),
    decreases depth, 1nat,
{
    match v {
        Json::PosInt(i) => {
            if *i < payload.len() as u64 {
                slot_resolves_within(payload, *i as usize, depth)
            } else {
                false
            }
        },
        _ => true,
    }
}

/// Whether slot `idx` of the payload resolves with references nested at most `depth` deep.
pub fn slot_resolves_within(payload: &Vec<Json>, idx: usize, depth: u64) -> (r: bool)
    ensures
        r == resolvable_within(views(payload@), idx as int, depth as nat),
    decreases depth, 0nat,
{
    let ghost pv = views(payload@);
    if depth == 0 || idx >= payload.len() {
        return false;
    }
    assert(pv[idx as int] == json_view(payload@[idx as int]));
    match &payload[idx] {
        Json::Object(entries) => {
            let ghost es = pv[idx as int]->Object_0;
            for k in 0..entries.len()
                invariant
                    pv == views(payload@),
                    pv.len() == payload@.len(),
                    idx < payload@.len(),
                    depth > 0,
                    pv[idx as int] == JsonView::Object(es),
                    es.len() == entries@.len(),
                    forall|m: int| 0 <= m < es.len() ==> #[trigger] es[m] == (entries@[m].0@, json_view(entries@[m].1)),
                    forall|m: int|
                        0 <= m < k ==> member_resolvable_within(
                            pv,
                            (#[trigger] es[m]).1,
                            (depth - 1) as nat,
                        ),
            {
                if !member_resolves_within(payload, &entries[k].1, depth - 1) {
                    assert(es[k as int].1 == json_view(entries@[k as int].1));
                    assert(members(pv[idx as int])[k as int] == es[k as int].1);
                    return false;
                }
            }
            true
        },
        Json::Array(items) => {
            let ghost vs = pv[idx as int]->Array_0;
            for k in 0..items.len()
                invariant
                    pv == views(payload@),
                    pv.len() == payload@.len(),
                    idx < payload@.len(),
                    depth > 0,
                    pv[idx as int] == JsonView::Array(vs),
                    vs.len() == items@.len(),
                    forall|m: int| 0 <= m < vs.len() ==> #[trigger] vs[m] == json_view(items@[m]),
                    forall|m: int|
                        0 <= m < k ==> member_resolvable_within(pv, #[trigger] vs[m], (depth - 1) as nat),
            {
                if !member_resolves_within(payload, &items[k], depth - 1) {
                    assert(vs[k as int] == json_view(items@[k as int]));
                    assert(members(pv[idx as int])[k as int] == vs[k as int]);
                    return false;
                }
            }
            true
        },
        _ => true,
    }
}

/// Resolves the root slot of a devalue payload, as the FIP service's live feed is
/// read. A payload whose references leave it or loop back has no resolution, and
/// gives `None`.
pub fn resolve_payload(payload: &Vec<Json>) -> (r: Option<Json>)
    ensures
        r is Some <==> resolvable(views(payload@), 0),
        r matches Some(doc) ==> doc@ == resolved(views(payload@), 0),
{
    let ghost pv = views(payload@);
    proof {
        if resolvable(pv, 0) {
            let depth = choose|depth: nat| resolvable_within(pv, 0, depth);
            lemma_resolution_depth_bounded(pv, 0, depth);
        }
    }
    assert(pv.len() == payload@.len());
    if slot_resolves_within(payload, 0, payload.len() as u64) {
        Some(devalue_resolve(payload, 0))
    } else {
        None
    }
}

/// The slot that a value refers to, when it is a reference.
pub open spec fn reference(v: JsonView) -> Option<int> {
    match v {
        JsonView::PosInt(i) => Some(i as int),
        _ => None,
    }
}

/// Slot `a` of the payload holds a reference to slot `b`.
pub open spec fn refers_to(payload: Seq<JsonView>, a: int, b: int) -> bool {
    &&& 0 <= a < payload.len()
    &&& exists|k: int|
        0 <= k < members(payload[a]).len() && reference(#[trigger] members(payload[a])[k]) == Some(b)
}

/// The `i`-th slot of `w` refers to the next one.
pub open spec fn link(payload: Seq<JsonView>, w: Seq<int>, i: int) -> bool {
    refers_to(payload, w[i], w[i + 1])
}

/// `w` is a walk through the payload: each slot of it refers to the next.
pub open spec fn is_walk(payload: Seq<JsonView>, w: Seq<int>) -> bool {
    &&& w.len() > 0
    &&& forall|i: int| 0 <= i < w.len() - 1 ==> #[trigger] link(payload, w, i)
}

/// A stretch of a walk is a walk.
proof fn lemma_walk_stretch(payload: Seq<JsonView>, w: Seq<int>, lo: int, hi: int)
    requires
        is_walk(payload, w),
        0 <= lo < hi <= w.len(),
    ensures
        is_walk(payload, w.subrange(lo, hi)),
{
    let s = w.subrange(lo, hi);
    assert forall|i: int| 0 <= i < s.len() - 1 implies #[trigger] link(payload, s, i) by {
        assert(link(payload, w, lo + i));
        assert(s[i] == w[lo + i] && s[i + 1] == w[lo + i + 1]);
    }
}

/// A walk followed by a walk that its last slot refers to is a walk.
proof fn lemma_walk_join(payload: Seq<JsonView>, u: Seq<int>, v: Seq<int>)
    requires
        is_walk(payload, u),
        is_walk(payload, v),
        refers_to(payload, u.last(), v[0]),
    ensures
        is_walk(payload, u + v),
{
    let s = u + v;
    assert forall|i: int| 0 <= i < s.len() - 1 implies #[trigger] link(payload, s, i) by {
        if i < u.len() - 1 {
            assert(link(payload, u, i));
        } else if i == u.len() - 1 {
        } else {
            assert(link(payload, v, i - u.len()));
            assert(s[i] == v[i - u.len()] && s[i + 1] == v[i - u.len() + 1]);
        }
    }
}

/// Along a walk from a slot that resolves within `depth` levels, the `i`-th slot
/// resolves within `depth - i` levels; so the walk has at most `depth` slots.
proof fn lemma_walk_within(payload: Seq<JsonView>, w: Seq<int>, depth: nat)
    requires
        is_walk(payload, w),
        resolvable_within(payload, w[0], depth),
    ensures
        w.len() <= depth,
        forall|i: int| 0 <= i < w.len() ==> resolvable_within(payload, #[trigger] w[i], (depth - i) as nat),
    decreases w.len(),
{
    if w.len() > 1 {
        assert(link(payload, w, 0));
        let k: int = choose|k: int|
            0 <= k < members(payload[w[0]]).len() && reference(#[trigger] members(payload[w[0]])[k])
                == Some(w[1]);
        assert(member_resolvable_within(payload, members(payload[w[0]])[k], (depth - 1) as nat));
        let rest = w.subrange(1, w.len() as int);
        lemma_walk_stretch(payload, w, 1, w.len() as int);
        lemma_walk_within(payload, rest, (depth - 1) as nat);
        assert forall|i: int| 0 <= i < w.len() implies resolvable_within(
            payload,
            #[trigger] w[i],
            (depth - i) as nat,
        ) by {
            if i > 0 {
                assert(rest[i - 1] == w[i]);
            }
        }
    }
}

/// The walk that goes once along `w` up to slot `j`, then goes round the loop from
/// slot `i` back to slot `j` another `rounds` times.
pub open spec fn pumped(w: Seq<int>, i: int, j: int, rounds: nat) -> Seq<int>
    decreases rounds,
{
    if rounds == 0 {
        w.subrange(0, j + 1)
    } else {
        pumped(w, i, j, (rounds - 1) as nat) + w.subrange(i + 1, j + 1)
    }
}

/// Going round a loop of a walk again and again gives ever longer walks.
proof fn lemma_pumped(payload: Seq<JsonView>, w: Seq<int>, i: int, j: int, rounds: nat)
    requires
        is_walk(payload, w),
        0 <= i < j < w.len(),
        w[i] == w[j],
    ensures
        is_walk(payload, pumped(w, i, j, rounds)),
        pumped(w, i, j, rounds).len() >= rounds + 1,
        pumped(w, i, j, rounds)[0] == w[0],
        pumped(w, i, j, rounds).last() == w[j],
    decreases rounds,
{
    lemma_walk_stretch(payload, w, 0, j + 1);
    if rounds > 0 {
        lemma_pumped(payload, w, i, j, (rounds - 1) as nat);
        lemma_walk_stretch(payload, w, i + 1, j + 1);
        assert(link(payload, w, i));
        lemma_walk_join(payload, pumped(w, i, j, (rounds - 1) as nat), w.subrange(i + 1, j + 1));
    }
}

/// A walk from a slot that resolves never comes back to a slot it went through.
proof fn lemma_walk_is_simple(payload: Seq<JsonView>, w: Seq<int>, depth: nat)
    requires
        is_walk(payload, w),
        resolvable_within(payload, w[0], depth),
    ensures
        w.no_duplicates(),
{
    assert forall|i: int, j: int| 0 <= i < w.len() && 0 <= j < w.len() && i != j implies w[i]
        != w[j] by {
        if w[i] == w[j] {
            let (a, b) = if i < j {
                (i, j)
            } else {
                (j, i)
            };
            lemma_pumped(payload, w, a, b, depth);
            lemma_walk_within(payload, pumped(w, a, b, depth), depth);
        }
    }
}

/// A slot whose walks all have at most `depth` slots, all of them in the payload,
/// resolves within `depth` levels.
proof fn lemma_short_walks_resolve(payload: Seq<JsonView>, a: int, depth: nat)
    requires
        forall|w: Seq<int>|
            #[trigger] is_walk(payload, w) && w[0] == a ==> w.len() <= depth && forall|i: int|
                0 <= i < w.len() ==> 0 <= #[trigger] w[i] < payload.len(),
    ensures
        resolvable_within(payload, a, depth),
    decreases depth,
{
    assert(is_walk(payload, seq![a]));
    assert(seq![a][0] == a);
    assert forall|k: int| 0 <= k < members(payload[a]).len() implies member_resolvable_within(
        payload,
        #[trigger] members(payload[a])[k],
        (depth - 1) as nat,
    ) by {
        if let JsonView::PosInt(c) = members(payload[a])[k] {
            let b: int = c as int;
            assert(refers_to(payload, a, b));
            assert forall|w: Seq<int>| #[trigger] is_walk(payload, w) && w[0] == b implies w.len()
                <= depth - 1 && forall|i: int| 0 <= i < w.len() ==> 0 <= #[trigger] w[i] < payload.len() by {
                let longer = seq![a] + w;
                lemma_walk_join(payload, seq![a], w);
                assert(longer[0] == a);
                assert forall|i: int| 0 <= i < w.len() implies 0 <= #[trigger] w[i] < payload.len() by {
                    assert(longer[i + 1] == w[i]);
                }
            }
            lemma_short_walks_resolve(payload, b, (depth - 1) as nat);
        }
    }
}

/// A slot that resolves at all resolves within as many levels as the payload has
/// slots: a reference chain that visited more slots would have to come back to one.
pub proof fn lemma_resolution_depth_bounded(payload: Seq<JsonView>, idx: int, depth: nat)
    requires
        resolvable_within(payload, idx, depth),
    ensures
        resolvable_within(payload, idx, payload.len()),
{
    let n: int = payload.len() as int;
    assert forall|w: Seq<int>| #[trigger] is_walk(payload, w) && w[0] == idx implies w.len() <= n
        && forall|i: int| 0 <= i < w.len() ==> 0 <= #[trigger] w[i] < n by {
        lemma_walk_within(payload, w, depth);
        lemma_walk_is_simple(payload, w, depth);
        w.unique_seq_to_set();
        lemma_int_range(0, n);
        assert(w.to_set().subset_of(set_int_range(0, n)));
        lemma_len_subset(w.to_set(), set_int_range(0, n));
    }
    lemma_short_walks_resolve(payload, idx, payload.len());
}

/// Resolving a slot gives the same document whatever bound on the nesting of
/// references it was resolved within, as long as the slot resolves within it.
pub proof fn lemma_resolution_depth_irrelevant(payload: Seq<JsonView>, idx: int, d1: nat, d2: nat)
    requires
        resolvable_within(payload, idx, d1),
        resolvable_within(payload, idx, d2),
    ensures
        resolve_slot(payload, idx, d1) == resolve_slot(payload, idx, d2),
    decreases d1,
{
    let ms = members(payload[idx]);
    assert forall|k: int| 0 <= k < ms.len() implies resolve_member(
        payload,
        #[trigger] ms[k],
        (d1 - 1) as nat,
    ) == resolve_member(payload, ms[k], (d2 - 1) as nat) by {
        assert(member_resolvable_within(payload, members(payload[idx])[k], (d1 - 1) as nat));
        assert(member_resolvable_within(payload, members(payload[idx])[k], (d2 - 1) as nat));
        if let JsonView::PosInt(i) = ms[k] {
            lemma_resolution_depth_irrelevant(payload, i as int, (d1 - 1) as nat, (d2 - 1) as nat);
        }
    }
    match payload[idx] {
        JsonView::Object(entries) => {
            assert forall|k: int| 0 <= k < entries.len() implies resolve_member(
                payload,
                #[trigger] entries[k].1,
                (d1 - 1) as nat,
            ) == resolve_member(payload, entries[k].1, (d2 - 1) as nat) by {
                assert(ms[k] == entries[k].1);
            }
            if let JsonView::Object(a) = resolve_slot(payload, idx, d1) {
                if let JsonView::Object(b) = resolve_slot(payload, idx, d2) {
                    assert(a =~= b);
                }
            }
        },
        JsonView::Array(items) => {
            if let JsonView::Array(a) = resolve_slot(payload, idx, d1) {
                if let JsonView::Array(b) = resolve_slot(payload, idx, d2) {
                    assert(a =~= b);
                }
            }
        },
        _ => {},
    }
}

/// What a member of a container of the payload stands for once resolved: the
/// document of the slot it refers to when it is a reference, itself otherwise.
pub open spec fn resolved_member(payload: Seq<JsonView>, v: JsonView) -> JsonView {
    match v {
        JsonView::PosInt(i) => resolved(payload, i as int),
        _ => v,
    }
}

/// Resolution keeps the kind of the slot's value and replaces each reference by the
/// document of the slot it refers to, which resolves too: an object stays an object
/// with the same keys in the same order, each member resolved; an array stays an
/// array of the same length, each item resolved (so an empty array stays empty); any
/// other value is its own document.
pub proof fn lemma_resolution_structure(payload: Seq<JsonView>, idx: int)
    requires
        resolvable(payload, idx),
    ensures
        0 <= idx < payload.len(),
        forall|k: int|
            0 <= k < members(payload[idx]).len() && #[trigger] members(payload[idx])[k] is PosInt
                ==> resolvable(payload, members(payload[idx])[k]->PosInt_0 as int),
        payload[idx] matches JsonView::Object(entries) ==> resolved(payload, idx) matches JsonView::Object(
            out,
        ) && out.len() == entries.len() && forall|k: int|
            0 <= k < entries.len() ==> (#[trigger] out[k]).0 == entries[k].0 && out[k].1
                == resolved_member(payload, entries[k].1),
        payload[idx] matches JsonView::Array(items) ==> resolved(payload, idx) matches JsonView::Array(
            out,
        ) && out.len() == items.len() && forall|k: int|
            0 <= k < items.len() ==> #[trigger] out[k] == resolved_member(payload, items[k]),
        !(payload[idx] is Object) && !(payload[idx] is Array) ==> resolved(payload, idx)
            == payload[idx],
{
    let d = choose|depth: nat| resolvable_within(payload, idx, depth);
    let ms = members(payload[idx]);
    assert forall|k: int| 0 <= k < ms.len() implies (#[trigger] ms[k] is PosInt ==> resolvable(
        payload,
        ms[k]->PosInt_0 as int,
    )) && resolve_member(payload, ms[k], (d - 1) as nat) == resolved_member(payload, ms[k]) by {
        assert(member_resolvable_within(payload, members(payload[idx])[k], (d - 1) as nat));
        if let JsonView::PosInt(i) = ms[k] {
            let j: int = i as int;
            assert(resolvable_within(payload, j, (d - 1) as nat));
            let e = choose|depth: nat| resolvable_within(payload, j, depth);
            lemma_resolution_depth_irrelevant(payload, j, (d - 1) as nat, e);
        }
    }
    match payload[idx] {
        JsonView::Object(entries) => {
            assert forall|k: int| 0 <= k < entries.len() implies resolve_member(
                payload,
                #[trigger] entries[k].1,
                (d - 1) as nat,
            ) == resolved_member(payload, entries[k].1) by {
                assert(ms[k] == entries[k].1);
            }
        },
        _ => {},
    }
}

/// A slot has a resolution exactly when every walk of references from it stays
/// inside the payload and never comes back to a slot it went through.
pub proof fn lemma_resolvable_iff_walks_are_simple(payload: Seq<JsonView>, idx: int)
    ensures
        resolvable(payload, idx) <==> forall|w: Seq<int>|
            #[trigger] is_walk(payload, w) && w[0] == idx ==> w.no_duplicates() && forall|i: int|
                0 <= i < w.len() ==> 0 <= #[trigger] w[i] < payload.len(),
{
    let n: int = payload.len() as int;
    if resolvable(payload, idx) {
        let d = choose|depth: nat| resolvable_within(payload, idx, depth);
        assert forall|w: Seq<int>| #[trigger] is_walk(payload, w) && w[0] == idx implies w.no_duplicates()
            && forall|i: int| 0 <= i < w.len() ==> 0 <= #[trigger] w[i] < payload.len() by {
            lemma_walk_within(payload, w, d);
            lemma_walk_is_simple(payload, w, d);
        }
    }
    if forall|w: Seq<int>|
        #[trigger] is_walk(payload, w) && w[0] == idx ==> w.no_duplicates() && forall|i: int|
            0 <= i < w.len() ==> 0 <= #[trigger] w[i] < payload.len() {
        assert forall|w: Seq<int>| #[trigger] is_walk(payload, w) && w[0] == idx implies w.len() <= n
            && forall|i: int| 0 <= i < w.len() ==> 0 <= #[trigger] w[i] < n by {
            w.unique_seq_to_set();
            lemma_int_range(0, n);
            assert(w.to_set().subset_of(set_int_range(0, n)));
            lemma_len_subset(w.to_set(), set_int_range(0, n));
        }
        lemma_short_walks_resolve(payload, idx, payload.len());
    }
}

} // verus!
