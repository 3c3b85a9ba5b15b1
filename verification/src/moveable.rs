//! Picking things up with the pointer, dragging them along and removing them.
//!
//! The caller measures, for every moveable thing, whether the pointer is within
//! its selection radius, and reads the mouse buttons. [`update_moveables`]
//! decides from that what happens this frame; the caller carries it out.

use vstd::prelude::*;

verus! {

/// The pointer's look.
#[derive(Clone, Copy, Debug, PartialEq, Eq, Structural)]
pub enum CursorIcon {
    Default,
    Pointer,
}

/// The mouse buttons, as read this frame.
#[derive(Clone, Copy, Debug, PartialEq, Eq, Structural)]
pub struct Mouse {
    /// The left button is down.
    pub left_pressed: bool,
    /// The left button went down this frame.
    pub left_just_pressed: bool,
    /// The right button went down this frame.
    pub right_just_pressed: bool,
}

/// What is being dragged when the frame begins.
#[derive(Clone, Copy, Debug, PartialEq, Eq, Structural)]
pub enum Held {
    /// Nothing is being dragged.
    Nothing,
    /// Something was being dragged, but it is no longer among the moveables.
    Missing,
    /// Something is being dragged and is still there.
    Present,
}

/// One moveable thing, as the pointer meets it this frame.
#[derive(Clone, Copy, Debug, PartialEq, Eq, Structural)]
pub struct Candidate {
    /// It is shown on screen.
    pub visible: bool,
    /// The pointer is within its selection radius.
    pub in_reach: bool,
    /// It may be removed with the right button.
    pub deletable: bool,
}

/// What becomes of the drag this frame.
#[derive(Clone, Copy, Debug, PartialEq, Eq, Structural)]
pub enum Grip {
    /// Nothing changes.
    Keep,
    /// The dragged thing is let go and comes to rest.
    Release,
    /// The dragged thing follows the pointer.
    Follow,
    /// The candidate with this index is picked up.
    Grab(usize),
}

/// The outcome of one frame.
#[derive(Debug)]
pub struct Update {
    pub icon: CursorIcon,
    pub grip: Grip,
    /// Indices of the candidates to remove, in rising order.
    pub despawn: Vec<usize>,
}

impl Candidate {
    /// The pointer is on this candidate: it is visible and within reach.
    pub open spec fn hit(self) -> bool {
        self.visible && self.in_reach
    }

    /// A right click removes this candidate.
    pub open spec fn doomed(self) -> bool {
        self.hit() && self.deletable
    }
}

/// The lowest index from `from` on whose candidate the pointer is on, if any.
pub open spec fn first_hit_from(candidates: Seq<Candidate>, from: int) -> Option<usize>
    decreases candidates.len() - from,
{
    if from < 0 || from >= candidates.len() {
        None
    } else if candidates[from].hit() {
        Some(from as usize)
    } else {
        first_hit_from(candidates, from + 1)
    }
}

/// The lowest index whose candidate the pointer is on, if any.
pub open spec fn first_hit(candidates: Seq<Candidate>) -> Option<usize> {
    first_hit_from(candidates, 0)
}

/// The indices below `end` of the candidates that a right click removes, in
/// rising order.
pub open spec fn doomed_below(candidates: Seq<Candidate>, end: int) -> Seq<usize>
    decreases end,
{
    if end <= 0 || end > candidates.len() {
        Seq::empty()
    } else if candidates[end - 1].doomed() {
        doomed_below(candidates, end - 1).push((end - 1) as usize)
    } else {
        doomed_below(candidates, end - 1)
    }
}

/// The pointer's look after the frame: a hand while something is dragged or
/// the pointer is on a candidate, the default otherwise.
pub open spec fn icon_of(held: Held, candidates: Seq<Candidate>) -> CursorIcon {
    if held != Held::Nothing || first_hit(candidates) is Some {
        CursorIcon::Pointer
    } else {
        CursorIcon::Default
    }
}

/// What becomes of the drag. A thing that went missing stays held. A thing
/// that is there is let go once the left button is up, and follows the pointer
/// while it is down. With nothing held, a left click picks up the first
/// candidate under the pointer.
pub open spec fn grip_of(held: Held, mouse: Mouse, candidates: Seq<Candidate>) -> Grip {
    match held {
        Held::Missing => Grip::Keep,
        Held::Present => if mouse.left_pressed {
            Grip::Follow
        } else {
            Grip::Release
        },
        Held::Nothing => match first_hit(candidates) {
            Some(i) if mouse.left_just_pressed => Grip::Grab(i),
            _ => Grip::Keep,
        },
    }
}

/// What is removed: with nothing held, a right click without a left click
/// removes every deletable candidate under the pointer.
pub open spec fn despawn_of(held: Held, mouse: Mouse, candidates: Seq<Candidate>) -> Seq<usize> {
    if held == Held::Nothing && mouse.right_just_pressed && !mouse.left_just_pressed {
        doomed_below(candidates, candidates.len() as int)
    } else {
        Seq::empty()
    }
}

/// The first hit from `from` on names a candidate under the pointer with none
/// between `from` and it; there is none only if the pointer is on no candidate
/// from `from` on.
pub proof fn lemma_first_hit_from(candidates: Seq<Candidate>, from: int)
    requires
        0 <= from,
        candidates.len() <= usize::MAX,
    ensures
        first_hit_from(candidates, from) matches Some(i) ==> from <= i < candidates.len()
            && candidates[i as int].hit() && forall|j: int|
            from <= j < i ==> !(#[trigger] candidates[j]).hit(),
        first_hit_from(candidates, from) is None ==> forall|j: int|
            from <= j < candidates.len() ==> !(#[trigger] candidates[j]).hit(),
    decreases candidates.len() - from,
{
    if from < candidates.len() && !candidates[from].hit() {
        lemma_first_hit_from(candidates, from + 1);
    }
}

/// What a right click removes below `end`: only doomed candidates, every one
/// of them, in rising order and so none twice.
pub proof fn lemma_doomed_below(candidates: Seq<Candidate>, end: int)
    requires
        0 <= end <= candidates.len() <= usize::MAX,
    ensures
        forall|k: int|
            0 <= k < doomed_below(candidates, end).len() ==> (#[trigger] doomed_below(
                candidates,
                end,
            )[k]) < end && candidates[doomed_below(candidates, end)[k] as int].doomed(),
        forall|j: int, k: int|
            0 <= j < k < doomed_below(candidates, end).len() ==> (#[trigger] doomed_below(
                candidates,
                end,
            )[j]) < (#[trigger] doomed_below(candidates, end)[k]),
        forall|i: int|
            0 <= i < end && (#[trigger] candidates[i]).doomed() ==> doomed_below(
                candidates,
                end,
            ).contains(i as usize),
    decreases end,
{
    if end > 0 {
        let rest = doomed_below(candidates, end - 1);
        let all = doomed_below(candidates, end);
        lemma_doomed_below(candidates, end - 1);
        assert forall|i: int| 0 <= i < end && (#[trigger] candidates[i]).doomed() implies all.contains(
            i as usize,
        ) by {
            if i < end - 1 {
                let k = rest.index_of(i as usize);
                assert(all[k] == i as usize);
            } else {
                assert(all[all.len() - 1] == i as usize);
            }
        }
    }
}

/// At most one thing happens in a frame. While something is held, nothing is
/// picked up or removed; a frame that picks something up removes nothing; and
/// only a thing that is held and still there is let go or dragged along.
pub proof fn lemma_one_thing_at_a_time(held: Held, mouse: Mouse, candidates: Seq<Candidate>)
    ensures
        held != Held::Nothing ==> !(grip_of(held, mouse, candidates) is Grab) && despawn_of(
            held,
            mouse,
            candidates,
        ).len() == 0,
        grip_of(held, mouse, candidates) is Grab ==> despawn_of(held, mouse, candidates).len() == 0,
        grip_of(held, mouse, candidates) is Release || grip_of(held, mouse, candidates) is Follow
            ==> held == Held::Present,
{
}

/// Decides one frame of pointer handling.
///
/// `candidates` lists the moveables in the order in which they are visited; it
/// is only read while nothing is held.
pub fn update_moveables(held: Held, mouse: Mouse, candidates: &Vec<Candidate>) -> (update: Update)
    ensures
        update.icon == icon_of(held, candidates@),
        update.grip == grip_of(held, mouse, candidates@),
        update.despawn@ == despawn_of(held, mouse, candidates@),
{
    let mut despawn: Vec<usize> = Vec::new();
    match held {
        Held::Missing => {
            return Update { icon: CursorIcon::Pointer, grip: Grip::Keep, despawn };
        },
        Held::Present => {
            let grip = if mouse.left_pressed {
                Grip::Follow
            } else {
                Grip::Release
            };
            return Update { icon: CursorIcon::Pointer, grip, despawn };
        },
        Held::Nothing => {},
    }
    let mut icon = CursorIcon::Default;
    let removing = mouse.right_just_pressed && !mouse.left_just_pressed;
    let mut i: usize = 0;
    while i < candidates.len()
        invariant
            i <= candidates.len(),
            held == Held::Nothing,
            removing == (mouse.right_just_pressed && !mouse.left_just_pressed),
            icon == CursorIcon::Default ==> first_hit(candidates@) == first_hit_from(
                candidates@,
                i as int,
            ),
            icon == CursorIcon::Pointer ==> first_hit(candidates@) is Some
                && !mouse.left_just_pressed,
            despawn@ == if removing {
                doomed_below(candidates@, i as int)
            } else {
                Seq::empty()
            },
        decreases candidates.len() - i,
    {
        let candidate = candidates[i];
        if candidate.visible && candidate.in_reach {
            if mouse.left_just_pressed {
                return Update { icon: CursorIcon::Pointer, grip: Grip::Grab(i), despawn };
            }
            icon = CursorIcon::Pointer;
            if mouse.right_just_pressed && candidate.deletable {
                despawn.push(i);
            }
        }
        i = i + 1;
    }
    Update { icon, grip: Grip::Keep, despawn }
}

} // verus!
