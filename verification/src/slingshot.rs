//! The slingshot: the gesture that grabs an asteroid on a press, aims while
//! the button is held, and flings the asteroid on release.

use vstd::prelude::*;

use crate::bodies::{
    among, is_live, lemma_filter_take_step, lemma_live_after_split, listed, picked, spared, Bodies,
    Body,
};

verus! {

/// The aim gesture: it holds the asteroid that was grabbed until the button
/// is let go. At most one is live, so it is kept in an `Option`.
#[derive(Clone, Copy, PartialEq, Eq, Structural, Debug)]
pub struct Slingshot {
    /// The handle of the asteroid that was grabbed.
    pub target: u64,
}

/// The first body, in spawn order, that `handles` names.
pub open spec fn first_picked(bodies: Seq<Body>, handles: Seq<u64>) -> Option<Body> {
    if picked(bodies, handles).len() > 0 {
        Some(picked(bodies, handles)[0])
    } else {
        None
    }
}

/// The gesture after a frame in which the button went down, or did not,
/// with the bodies named by `under_cursor` lying under the cursor: a press
/// on an asteroid grabs the first such asteroid, unless one is held already.
pub open spec fn loaded(
    gesture: Option<Slingshot>,
    just_pressed: bool,
    bodies: Seq<Body>,
    under_cursor: Seq<u64>,
) -> Option<Slingshot> {
    if just_pressed && gesture is None {
        match first_picked(bodies, under_cursor) {
            Some(body) => Some(Slingshot { target: body.handle }),
            None => None,
        }
    } else {
        gesture
    }
}

/// The asteroid that `gesture` holds, if the gesture is live and its
/// asteroid still is.
pub open spec fn held(gesture: Option<Slingshot>, bodies: Seq<Body>) -> Option<u64> {
    match gesture {
        Some(slingshot) => if is_live(bodies, slingshot.target) {
            Some(slingshot.target)
        } else {
            None
        },
        None => None,
    }
}

/// A gesture holds nothing once its asteroid is among those taken out of the
/// registry, whether the planet swallowed it or it drifted away.
pub proof fn lemma_gesture_on_removed_body(
    gesture: Option<Slingshot>,
    bodies: Seq<Body>,
    removed: Seq<u64>,
)
    requires
        gesture matches Some(slingshot) && removed.contains(slingshot.target),
    ensures
        held(gesture, spared(bodies, removed)) is None,
{
    lemma_live_after_split(bodies, removed, gesture->0.target);
}

/// The bodies before the first one that `handles` names filter to nothing,
/// and that body is the first picked.
proof fn lemma_first_picked(bodies: Seq<Body>, handles: Seq<u64>, at: int)
    requires
        0 <= at < bodies.len(),
        picked(bodies.take(at), handles).len() == 0,
        handles.contains(bodies[at].handle),
    ensures
        first_picked(bodies, handles) == Some(bodies[at]),
{
    lemma_filter_take_step(bodies, among(handles), at);
    let head = bodies.take(at + 1);
    let tail = bodies.skip(at + 1);
    assert(head + tail =~= bodies);
    Seq::filter_distributes_over_add(head, tail, among(handles));
}

/// Starts an aim gesture on a press: if the button went down in this frame,
/// no gesture is live, and an asteroid lies under the cursor, the first such
/// asteroid in spawn order is grabbed. Says whether a gesture started.
pub fn load_slingshot(
    gesture: &mut Option<Slingshot>,
    just_pressed: bool,
    bodies: &Bodies,
    under_cursor: &Vec<u64>,
) -> (started: bool)
    ensures
        *final(gesture) == loaded(*old(gesture), just_pressed, bodies@, under_cursor@),
        started == (*final(gesture) != *old(gesture)),
{
    if !just_pressed || gesture.is_some() {
        return false;
    }
    let mut i: usize = 0;
    proof {
        reveal(Seq::filter);
        assert(bodies@.take(0) =~= Seq::<Body>::empty());
    }
    while i < bodies.len()
        invariant
            i <= bodies@.len(),
            picked(bodies@.take(i as int), under_cursor@).len() == 0,
            just_pressed,
            *gesture == *old(gesture),
            *gesture is None,
        decreases bodies@.len() - i,
    {
        if let Some(body) = bodies.get(i) {
            if listed(under_cursor, body.handle) {
                proof {
                    lemma_first_picked(bodies@, under_cursor@, i as int);
                }
                *gesture = Some(Slingshot { target: body.handle });
                return true;
            }
        }
        proof {
            lemma_filter_take_step(bodies@, among(under_cursor@), i as int);
        }
        i += 1;
    }
    assert(bodies@.take(i as int) =~= bodies@);
    false
}

/// Follows the gesture while the button is held. Gives the asteroid whose
/// aim is to be drawn anew, if the gesture is live and its asteroid still
/// is. A gesture whose asteroid is gone is dropped.
pub fn update_slingshot(gesture: &mut Option<Slingshot>, pressed: bool, bodies: &Bodies) -> (aimed:
    Option<u64>)
    ensures
        aimed == if pressed {
            held(*old(gesture), bodies@)
        } else {
            None
        },
        *final(gesture) == if pressed && aimed is None {
            None
        } else {
            *old(gesture)
        },
{
    if !pressed {
        return None;
    }
    match *gesture {
        Some(slingshot) => {
            if bodies.contains(slingshot.target) {
                Some(slingshot.target)
            } else {
                *gesture = None;
                None
            }
        },
        None => None,
    }
}

/// Ends the gesture on release. Gives the asteroid to fling, if the gesture
/// was live and its asteroid still is. The gesture is dropped either way.
pub fn release_slingshot(gesture: &mut Option<Slingshot>, just_released: bool, bodies: &Bodies) -> (flung:
    Option<u64>)
    ensures
        flung == if just_released {
            held(*old(gesture), bodies@)
        } else {
            None
        },
        *final(gesture) == if just_released {
            None
        } else {
            *old(gesture)
        },
{
    if !just_released {
        return None;
    }
    let flung = match *gesture {
        Some(slingshot) => {
            if bodies.contains(slingshot.target) {
                Some(slingshot.target)
            } else {
                None
            }
        },
        None => None,
    };
    *gesture = None;
    flung
}

} // verus!
