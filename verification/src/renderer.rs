//! The order in which tattoys are composited around the user's terminal.
//!
//! The PTY is always layer 0. A tattoy with a layer below 0 appears below the user's terminal
//! content, one with a layer above 0 above it. On each side the layers are composited from the
//! lowest up; tattoys on the same layer keep the order they are given in.
use vstd::prelude::*;

verus! {

/// Which side of the terminal's own content.
#[derive(Clone, Copy, Debug, PartialEq, Eq, Structural)]
pub enum Side {
    /// Below the terminal's content: layers below 0.
    Below,
    /// Above the terminal's content: layers above 0.
    Above,
}

/// A layer belongs to a side.
pub open spec fn on_side(layer: i16, side: Side) -> bool {
    match side {
        Side::Below => layer < 0,
        Side::Above => layer > 0,
    }
}

/// Tattoy `a` is composited before tattoy `b`: a lower layer, or the same layer given earlier.
pub open spec fn before(layers: Seq<i16>, a: int, b: int) -> bool {
    layers[a] < layers[b] || (layers[a] == layers[b] && a < b)
}

/// `order` lists the tattoys of a side, each once, lowest layer first and, on the same layer,
/// in the order they are given.
pub open spec fn is_render_order(layers: Seq<i16>, side: Side, order: Seq<int>) -> bool {
    &&& forall|k: int| 0 <= k < order.len() ==> 0 <= #[trigger] order[k] < layers.len() && on_side(layers[order[k]], side)
    &&& forall|a: int, b: int| 0 <= a < b < order.len() ==> before(layers, #[trigger] order[a], #[trigger] order[b])
    &&& forall|j: int| 0 <= j < layers.len() && on_side(layers[j], side) ==> order.contains(j)
}

/// Tattoy `i` comes after the last one chosen (every tattoy does when none is chosen yet).
pub open spec fn after_last(layers: Seq<i16>, last: Option<usize>, i: int) -> bool {
    match last {
        Some(l) => before(layers, l as int, i),
        None => true,
    }
}

/// Tattoy `j` is the first, among the tattoys of the side below index `bound` that come after
/// the last one chosen.
pub open spec fn is_first_after(layers: Seq<i16>, side: Side, last: Option<usize>, j: int, bound: int) -> bool {
    &&& 0 <= j < bound
    &&& on_side(layers[j], side)
    &&& after_last(layers, last, j)
    &&& forall|k: int|
        0 <= k < bound && on_side(layers[k], side) && after_last(layers, last, k) && k != j ==> before(
            layers,
            j,
            k,
        )
}

/// No tattoy of the side below index `bound` comes after the last one chosen.
pub open spec fn none_after(layers: Seq<i16>, side: Side, last: Option<usize>, bound: int) -> bool {
    forall|k: int| 0 <= k < bound && on_side(layers[k], side) ==> !after_last(layers, last, k)
}

/// The next tattoy to composite after `last` (or the first one, when there is no last).
fn next_after(layers: &Vec<i16>, side: Side, last: Option<usize>) -> (res: Option<usize>)
    requires
        last matches Some(l) ==> l < layers@.len(),
    ensures
        match res {
            Some(j) => is_first_after(layers@, side, last, j as int, layers@.len() as int),
            None => none_after(layers@, side, last, layers@.len() as int),
        },
{
    let mut best: Option<usize> = None;
    let mut i: usize = 0;
    while i < layers.len()
        invariant
            0 <= i <= layers@.len(),
            last matches Some(l) ==> l < layers@.len(),
            match best {
                Some(j) => is_first_after(layers@, side, last, j as int, i as int),
                None => none_after(layers@, side, last, i as int),
            },
        decreases layers@.len() - i,
    {
        let layer = layers[i];
        let is_on_side = match side {
            Side::Below => layer < 0,
            Side::Above => layer > 0,
        };
        let is_after_last = match last {
            Some(l) => layers[l] < layer || (layers[l] == layer && l < i),
            None => true,
        };
        assert(is_on_side == on_side(layers@[i as int], side));
        assert(is_after_last == after_last(layers@, last, i as int));
        if is_on_side && is_after_last {
            match best {
                Some(j) => {
                    if layer < layers[j] {
                        best = Some(i);
                        assert forall|k: int|
                            0 <= k < i + 1 && on_side(layers@[k], side) && after_last(layers@, last, k)
                                && k != i implies before(layers@, i as int, k) by {
                            if k != j as int {
                                assert(before(layers@, j as int, k));
                            }
                        }
                    }
                },
                None => {
                    best = Some(i);
                },
            }
        }
        i = i + 1;
    }
    best
}

/// The order in which the tattoys of one side are composited, given their layers: lowest
/// layer first, and on the same layer in the order given.
pub fn render_order(layers: &Vec<i16>, side: Side) -> (res: Vec<usize>)
    ensures
        is_render_order(layers@, side, res@.map_values(|i: usize| i as int)),
{
    let mut order: Vec<usize> = Vec::new();
    let mut last: Option<usize> = None;
    loop
        invariant
            order@.len() <= layers@.len(),
            last matches Some(l) ==> l < layers@.len() && order@.len() > 0 && order@[order@.len() - 1] == l,
            last is None ==> order@.len() == 0,
            forall|k: int| 0 <= k < order@.len() ==> 0 <= #[trigger] order@[k] < layers@.len()
                && on_side(layers@[order@[k] as int], side),
            forall|a: int, b: int|
                0 <= a < b < order@.len() ==> before(layers@, #[trigger] order@[a] as int, #[trigger] order@[b] as int),
            forall|j: int|
                0 <= j < layers@.len() && on_side(layers@[j], side) && !after_last(layers@, last, j)
                    ==> order@.map_values(|i: usize| i as int).contains(j),
        ensures
            is_render_order(layers@, side, order@.map_values(|i: usize| i as int)),
        decreases layers@.len() - order@.len(),
    {
        let next = next_after(layers, side, last);
        match next {
            None => {
                proof {
                    let view = order@.map_values(|i: usize| i as int);
                    assert forall|k: int| 0 <= k < view.len() implies 0 <= #[trigger] view[k]
                        < layers@.len() && on_side(layers@[view[k]], side) by {
                        assert(view[k] == order@[k] as int);
                    }
                    assert forall|a: int, b: int| 0 <= a < b < view.len() implies before(
                        layers@,
                        #[trigger] view[a],
                        #[trigger] view[b],
                    ) by {
                        assert(view[a] == order@[a] as int);
                        assert(view[b] == order@[b] as int);
                    }
                    assert forall|j: int| 0 <= j < layers@.len() && on_side(layers@[j], side) implies view.contains(j) by {
                        assert(!after_last(layers@, last, j));
                    }
                }
                break;
            },
            Some(j) => {
                proof {
                    lemma_order_bound(layers@, order@, j);
                }
                let ghost before_push = order@;
                order.push(j);
                proof {
                    let old_view = before_push.map_values(|i: usize| i as int);
                    let view = order@.map_values(|i: usize| i as int);
                    assert(view =~= old_view.push(j as int));
                    assert forall|i: int|
                        0 <= i < layers@.len() && on_side(layers@[i], side) && !after_last(
                            layers@,
                            Some(j),
                            i,
                        ) implies view.contains(i) by {
                        if i == j as int {
                            assert(view[view.len() - 1] == i);
                        } else if after_last(layers@, last, i) {
                            assert(before(layers@, j as int, i));
                        } else {
                            assert(old_view.contains(i));
                            let k = choose|k: int| 0 <= k < old_view.len() && old_view[k] == i;
                            assert(view[k] == i);
                        }
                    }
                    assert forall|a: int, b: int| 0 <= a < b < order@.len() implies before(
                        layers@,
                        #[trigger] order@[a] as int,
                        #[trigger] order@[b] as int,
                    ) by {
                        if b == order@.len() - 1 && a < b - 1 {
                            assert(before(layers@, order@[a] as int, order@[b - 1] as int));
                        }
                    }
                }
                last = Some(j);
            },
        }
    }
    order
}

/// The tattoys chosen so far and the next one are distinct indices of tattoys, so the next
/// one fits.
proof fn lemma_order_bound(layers: Seq<i16>, order: Seq<usize>, j: usize)
    requires
        0 <= j < layers.len(),
        forall|a: int, b: int| 0 <= a < b < order.len() ==> before(layers, #[trigger] order[a] as int, #[trigger] order[b] as int),
        forall|k: int| 0 <= k < order.len() ==> 0 <= #[trigger] order[k] < layers.len(),
        order.len() > 0 ==> before(layers, order[order.len() - 1] as int, j as int),
    ensures
        order.len() < layers.len(),
{
    let chosen = order.push(j);
    assert forall|a: int, b: int| 0 <= a < b < chosen.len() implies chosen[a] != chosen[b] by {
        if b < order.len() {
            assert(chosen[a] == order[a] && chosen[b] == order[b]);
            assert(before(layers, order[a] as int, order[b] as int));
        } else {
            assert(chosen[b] == j);
            assert(chosen[a] == order[a]);
            let z = order[order.len() - 1] as int;
            if a < order.len() - 1 {
                assert(before(layers, order[a] as int, z));
            }
            assert(before(layers, order[a] as int, j as int));
        }
    }
    assert forall|k: int| 0 <= k < chosen.len() implies #[trigger] chosen[k] < layers.len() by {
        if k < order.len() {
            assert(chosen[k] == order[k]);
        }
    }
    lemma_distinct_bounded(chosen, layers.len() as int);
}

/// A sequence of distinct indices below `n` has at most `n` elements.
proof fn lemma_distinct_bounded(s: Seq<usize>, n: int)
    requires
        n >= 0,
        forall|a: int, b: int| 0 <= a < b < s.len() ==> s[a] != s[b],
        forall|k: int| 0 <= k < s.len() ==> #[trigger] s[k] < n,
    ensures
        s.len() <= n,
    decreases s.len(),
{
    if s.len() > 0 {
        let top = s[s.len() - 1];
        let rest = Seq::new(
            (s.len() - 1) as nat,
            |k: int| if s[k] > top { (s[k] - 1) as usize } else { s[k] },
        );
        assert forall|a: int, b: int| 0 <= a < b < rest.len() implies rest[a] != rest[b] by {
            assert(s[a] != s[b]);
            assert(s[a] != top);
            assert(s[b] != top);
        }
        assert forall|k: int| 0 <= k < rest.len() implies #[trigger] rest[k] < n - 1 by {
            assert(s[k] != top);
            assert(s[k] < n);
            assert(top < n);
        }
        lemma_distinct_bounded(rest, n - 1);
    }
}

} // verus!
