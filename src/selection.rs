//! Hovering and selecting: which pawns lie under the pointer, and which one
//! a click selects.
use vstd::prelude::*;

use crate::arith::abs_int;
use crate::motion::Pawn;
use crate::transform::{WorldPos, HALF_TILE};

verus! {

/// The tile-sized square centered on `center` contains `pointer`, edges
/// included.
pub open spec fn hovers(pointer: WorldPos, center: WorldPos) -> bool {
    abs_int(pointer.x - center.x) <= HALF_TILE && abs_int(pointer.y - center.y) <= HALF_TILE
}

/// For each pawn, whether it lies under the pointer.
pub open spec fn hover_seq(pawns: Seq<Pawn>, pointer: WorldPos) -> Seq<bool> {
    Seq::new(pawns.len(), |i: int| hovers(pointer, pawns[i].position))
}

/// The hover flags after a frame: recomputed from the pointer when it is in
/// the window, left as they were while it is outside.
pub open spec fn hover_update(flags: Seq<bool>, pawns: Seq<Pawn>, pointer: Option<WorldPos>) -> Seq<
    bool,
> {
    match pointer {
        Some(p) => hover_seq(pawns, p),
        None => flags,
    }
}

/// The index of the first set flag, if any.
pub open spec fn first_set(flags: Seq<bool>) -> Option<usize>
    decreases flags.len(),
{
    if flags.len() == 0 {
        None
    } else {
        let earlier = first_set(flags.drop_last());
        if earlier is Some {
            earlier
        } else if flags.last() {
            Some((flags.len() - 1) as usize)
        } else {
            None
        }
    }
}

/// The selection after clicks in a sequence of frames, each with its
/// pointer: every frame updates the hover flags, and every click drops the
/// selection and then selects the first hovered pawn, if any.
pub open spec fn after_clicks(
    flags: Seq<bool>,
    selected: Option<usize>,
    pawns: Seq<Pawn>,
    clicks: Seq<Option<WorldPos>>,
) -> Option<usize>
    decreases clicks.len(),
{
    if clicks.len() == 0 {
        selected
    } else {
        let next = hover_update(flags, pawns, clicks[0]);
        after_clicks(next, first_set(next), pawns, clicks.drop_first())
    }
}

/// A selection names an existing pawn, if it names one.
pub open spec fn valid_selection(selected: Option<usize>, len: int) -> bool {
    selected is Some ==> selected->0 < len
}

/// `first_set` names the first set flag, or none if no flag is set.
pub proof fn lemma_first_set(flags: Seq<bool>)
    requires
        flags.len() <= usize::MAX,
    ensures
        match first_set(flags) {
            Some(i) => i < flags.len() && flags[i as int] && forall|j: int|
                0 <= j < i ==> !#[trigger] flags[j],
            None => forall|j: int| 0 <= j < flags.len() ==> !#[trigger] flags[j],
        },
    decreases flags.len(),
{
    if flags.len() > 0 {
        let init = flags.drop_last();
        lemma_first_set(init);
        assert forall|j: int| 0 <= j < flags.len() - 1 implies #[trigger] flags[j] == init[j] by {}
    }
}

/// Whether the square of a pawn centered on `center` contains `pointer`.
pub fn is_hovered(pointer: WorldPos, center: WorldPos) -> (r: bool)
    requires
        pointer.in_world(),
        center.in_world(),
    ensures
        r == hovers(pointer, center),
{
    let dx: i64 = pointer.x - center.x;
    let dy: i64 = pointer.y - center.y;
    -HALF_TILE <= dx && dx <= HALF_TILE && -HALF_TILE <= dy && dy <= HALF_TILE
}

/// For each pawn, whether it lies under the pointer.
pub fn hover_flags(pawns: &Vec<Pawn>, pointer: WorldPos) -> (r: Vec<bool>)
    requires
        forall|i: int| 0 <= i < pawns.len() ==> (#[trigger] pawns[i]).wf(),
        pointer.in_world(),
    ensures
        r@ == hover_seq(pawns@, pointer),
{
    let mut r: Vec<bool> = Vec::new();
    let mut i: usize = 0;
    while i < pawns.len()
        invariant
            i <= pawns.len(),
            r.len() == i,
            forall|k: int| 0 <= k < pawns.len() ==> (#[trigger] pawns[k]).wf(),
            pointer.in_world(),
            forall|k: int| 0 <= k < i ==> #[trigger] r[k] == hovers(pointer, pawns[k].position),
        decreases pawns.len() - i,
    {
        r.push(is_hovered(pointer, pawns[i].position));
        i = i + 1;
    }
    assert(r@ =~= hover_seq(pawns@, pointer));
    r
}

/// The selection after a primary click: the first hovered pawn, or nothing.
pub fn click_select(hovered: &Vec<bool>) -> (r: Option<usize>)
    ensures
        r == first_set(hovered@),
        match r {
            Some(i) => i < hovered.len() && hovered[i as int] && forall|j: int|
                0 <= j < i ==> !#[trigger] hovered[j],
            None => forall|j: int| 0 <= j < hovered.len() ==> !#[trigger] hovered[j],
        },
{
    let mut r: Option<usize> = None;
    let mut i: usize = 0;
    while i < hovered.len()
        invariant
            i <= hovered.len(),
            r == first_set(hovered@.take(i as int)),
        decreases hovered.len() - i,
    {
        proof {
            assert(hovered@.take(i + 1).drop_last() =~= hovered@.take(i as int));
        }
        if r.is_none() && hovered[i] {
            r = Some(i);
        }
        i = i + 1;
    }
    proof {
        assert(hovered@.take(hovered.len() as int) =~= hovered@);
        lemma_first_set(hovered@);
    }
    r
}

/// After any sequence of clicks there is at most one selection, and it
/// names an existing pawn. A last click with the pointer in the window
/// selects the first pawn under it, and over empty ground leaves nothing
/// selected; while the pointer is outside, the hover flags stay as they
/// were and the click selects from them.
pub proof fn lemma_clicks_select_at_most_one(
    flags: Seq<bool>,
    selected: Option<usize>,
    pawns: Seq<Pawn>,
    clicks: Seq<Option<WorldPos>>,
)
    requires
        flags.len() == pawns.len(),
        valid_selection(selected, pawns.len() as int),
        pawns.len() <= usize::MAX,
    ensures
        valid_selection(after_clicks(flags, selected, pawns, clicks), pawns.len() as int),
        clicks.len() > 0 && clicks.last() is Some ==> after_clicks(flags, selected, pawns, clicks)
            == first_set(hover_seq(pawns, clicks.last()->0)),
        clicks.len() > 0 && clicks.last() is Some && (forall|j: int|
            0 <= j < pawns.len() ==> !hovers(clicks.last()->0, #[trigger] pawns[j].position))
            ==> after_clicks(flags, selected, pawns, clicks) is None,
    decreases clicks.len(),
{
    if clicks.len() > 0 {
        let next = hover_update(flags, pawns, clicks[0]);
        lemma_first_set(next);
        lemma_clicks_select_at_most_one(next, first_set(next), pawns, clicks.drop_first());
        if clicks.len() > 1 {
            assert(clicks.drop_first().last() == clicks.last());
        }
        if let Some(p) = clicks.last() {
            let last = hover_seq(pawns, p);
            lemma_first_set(last);
            if forall|j: int| 0 <= j < pawns.len() ==> !hovers(p, #[trigger] pawns[j].position) {
                assert forall|j: int| 0 <= j < last.len() implies !#[trigger] last[j] by {
                    assert(!hovers(p, pawns[j].position));
                }
                if first_set(last) is Some {
                    let i = first_set(last)->0 as int;
                    assert(last[i]);
                }
            }
        }
    }
}

} // verus!
