//! The registry of live asteroids, and what takes asteroids in and out of
//! it: the spawner, the despawner, and the collision with the planet.

use rand::Rng;
use vstd::prelude::*;

use crate::constants::{EXPLOSION_FRAMES, N_ASTEROIDS};
use crate::economy::{absorb_all, all_kinds, biomass_fits, Economy};

verus! {

/// The kind of an asteroid, which is also the kind of ingredient it yields.
#[derive(Clone, Copy, PartialEq, Eq, Structural, Debug)]
pub struct Asteroid(pub usize);

/// A live asteroid: its kind, under the handle it was given when it spawned.
#[derive(Clone, Copy, PartialEq, Eq, Structural, Debug)]
pub struct Body {
    pub handle: u64,
    pub asteroid: Asteroid,
}

/// Some body of `bodies` goes by `handle`.
pub open spec fn is_live(bodies: Seq<Body>, handle: u64) -> bool {
    exists|i: int| 0 <= i < bodies.len() && (#[trigger] bodies[i]).handle == handle
}

/// Later bodies have greater handles.
pub open spec fn handles_ascend(bodies: Seq<Body>) -> bool {
    forall|i: int, j: int|
        0 <= i < j < bodies.len() ==> (#[trigger] bodies[i]).handle < (#[trigger] bodies[j]).handle
}

/// Holds of the bodies whose handle is in `handles`.
pub open spec fn among(handles: Seq<u64>) -> spec_fn(Body) -> bool {
    |body: Body| handles.contains(body.handle)
}

/// Holds of the bodies whose handle is not in `handles`.
pub open spec fn beyond(handles: Seq<u64>) -> spec_fn(Body) -> bool {
    |body: Body| !handles.contains(body.handle)
}

/// The bodies of `bodies` that `handles` names, in the order of `bodies`.
pub open spec fn picked(bodies: Seq<Body>, handles: Seq<u64>) -> Seq<Body> {
    bodies.filter(among(handles))
}

/// The bodies of `bodies` that `handles` does not name, in the order of
/// `bodies`.
pub open spec fn spared(bodies: Seq<Body>, handles: Seq<u64>) -> Seq<Body> {
    bodies.filter(beyond(handles))
}

/// The kinds of `bodies`, in order.
pub open spec fn kinds_of(bodies: Seq<Body>) -> Seq<usize> {
    bodies.map_values(|body: Body| body.asteroid.0)
}

/// Filtering keeps the order of the handles, and keeps only what was there.
pub proof fn lemma_filter_keeps_order(bodies: Seq<Body>, keep: spec_fn(Body) -> bool)
    requires
        handles_ascend(bodies),
    ensures
        handles_ascend(bodies.filter(keep)),
        forall|i: int|
            0 <= i < bodies.filter(keep).len() ==> bodies.contains(#[trigger] bodies.filter(keep)[i]),
    decreases bodies.len(),
{
    reveal(Seq::filter);
    if bodies.len() > 0 {
        let front = bodies.drop_last();
        lemma_filter_keeps_order(front, keep);
        let kept = bodies.filter(keep);
        assert forall|i: int| 0 <= i < kept.len() implies bodies.contains(#[trigger] kept[i]) by {
            if i < front.filter(keep).len() {
                let at = choose|at: int| 0 <= at < front.len() && front[at] == front.filter(keep)[i];
                assert(bodies[at] == kept[i]);
            } else {
                assert(bodies[bodies.len() - 1] == kept[i]);
            }
        }
        assert forall|i: int, j: int| 0 <= i < j < kept.len() implies (#[trigger] kept[i]).handle < (
        #[trigger] kept[j]).handle by {
            if j == front.filter(keep).len() {
                let at = choose|at: int| 0 <= at < front.len() && front[at] == front.filter(keep)[i];
                assert(bodies[at].handle < bodies[bodies.len() - 1].handle);
            }
        }
    }
}

/// The first `upto + 1` bodies filter to what the first `upto` filter to,
/// with body `upto` behind them where it is kept.
pub proof fn lemma_filter_take_step(bodies: Seq<Body>, keep: spec_fn(Body) -> bool, upto: int)
    requires
        0 <= upto < bodies.len(),
    ensures
        bodies.take(upto + 1).filter(keep) == if keep(bodies[upto]) {
            bodies.take(upto).filter(keep).push(bodies[upto])
        } else {
            bodies.take(upto).filter(keep)
        },
{
    assert(bodies.take(upto + 1) =~= bodies.take(upto).push(bodies[upto]));
    bodies.take(upto).lemma_filter_push(bodies[upto], keep);
}

/// A body is among the picked just when it is live and named, and among the
/// spared just when it is live and not named.
pub proof fn lemma_live_after_split(bodies: Seq<Body>, handles: Seq<u64>, handle: u64)
    ensures
        is_live(picked(bodies, handles), handle) <==> is_live(bodies, handle) && handles.contains(
            handle,
        ),
        is_live(spared(bodies, handles), handle) <==> is_live(bodies, handle) && !handles.contains(
            handle,
        ),
{
    lemma_filter_keeps_what_passes(bodies, among(handles), handle);
    lemma_filter_keeps_what_passes(bodies, beyond(handles), handle);
    if is_live(bodies, handle) {
        let at = choose|at: int| 0 <= at < bodies.len() && (#[trigger] bodies[at]).handle == handle;
        assert(among(handles)(bodies[at]) == handles.contains(handle));
        assert(beyond(handles)(bodies[at]) == !handles.contains(handle));
    }
}

/// A handle is live in what a filter keeps just when it is the handle of a
/// body that passes the filter.
proof fn lemma_filter_keeps_what_passes(bodies: Seq<Body>, keep: spec_fn(Body) -> bool, handle: u64)
    ensures
        is_live(bodies.filter(keep), handle) <==> exists|i: int|
            0 <= i < bodies.len() && (#[trigger] bodies[i]).handle == handle && keep(bodies[i]),
{
    let kept = bodies.filter(keep);
    if is_live(kept, handle) {
        let at = choose|at: int| 0 <= at < kept.len() && (#[trigger] kept[at]).handle == handle;
        bodies.lemma_filter_pred(keep, at);
        assert(kept.contains(kept[at]));
        bodies.lemma_filter_contains_rev(keep, kept[at]);
        let i = choose|i: int| 0 <= i < bodies.len() && bodies[i] == kept[at];
        assert(bodies[i].handle == handle && keep(bodies[i]));
    }
    if exists|i: int| 0 <= i < bodies.len() && (#[trigger] bodies[i]).handle == handle && keep(bodies[i]) {
        let i = choose|i: int|
            0 <= i < bodies.len() && (#[trigger] bodies[i]).handle == handle && keep(bodies[i]);
        bodies.lemma_filter_contains(keep, i);
        let at = choose|at: int| 0 <= at < kept.len() && kept[at] == bodies[i];
        assert(kept[at].handle == handle);
    }
}

/// Whether `handle` is one of `handles`.
pub fn listed(handles: &Vec<u64>, handle: u64) -> (found: bool)
    ensures
        found == handles@.contains(handle),
{
    let mut i: usize = 0;
    while i < handles.len()
        invariant
            i <= handles@.len(),
            forall|j: int| 0 <= j < i ==> handles@[j] != handle,
        decreases handles@.len() - i,
    {
        if handles[i] == handle {
            return true;
        }
        i += 1;
    }
    false
}

/// The kinds of `bodies`, in order.
pub fn kinds(bodies: &Vec<Body>) -> (kinds: Vec<usize>)
    ensures
        kinds@ == kinds_of(bodies@),
{
    let mut kinds: Vec<usize> = Vec::new();
    let mut i: usize = 0;
    while i < bodies.len()
        invariant
            i <= bodies@.len(),
            kinds@ == kinds_of(bodies@.take(i as int)),
        decreases bodies@.len() - i,
    {
        kinds.push(bodies[i].asteroid.0);
        assert(kinds@ =~= kinds_of(bodies@.take(i + 1)));
        i += 1;
    }
    assert(bodies@.take(i as int) =~= bodies@);
    kinds
}

/// The live asteroids, in the order in which they spawned.
pub struct Bodies {
    live: Vec<Body>,
    next_handle: u64,
}

impl View for Bodies {
    type V = Seq<Body>;

    closed spec fn view(&self) -> Seq<Body> {
        self.live@
    }
}

impl Bodies {
    /// The handle that the next asteroid to spawn will get.
    pub closed spec fn next_handle(&self) -> nat {
        self.next_handle as nat
    }

    /// Handles rise in spawn order and lie below the next handle, and every
    /// kind is an asteroid kind.
    pub open spec fn wf(&self) -> bool {
        &&& handles_ascend(self@)
        &&& forall|i: int|
            0 <= i < self@.len() ==> (#[trigger] self@[i]).handle < self.next_handle()
                && self@[i].asteroid.0 < N_ASTEROIDS
        &&& self.next_handle() <= u64::MAX
    }

    /// A handle is left for one more asteroid.
    pub open spec fn has_room(&self) -> bool {
        self.next_handle() < u64::MAX
    }

    /// No asteroid yet.
    pub fn new() -> (bodies: Self)
        ensures
            bodies.wf(),
            bodies@ == Seq::<Body>::empty(),
            bodies.next_handle() == 0,
    {
        Bodies { live: Vec::new(), next_handle: 0 }
    }

    /// The number of live bodies.
    pub fn len(&self) -> (len: usize)
        ensures
            len == self@.len(),
    {
        self.live.len()
    }

    /// The body at `index` in spawn order, if there are that many.
    pub fn get(&self, index: usize) -> (body: Option<Body>)
        ensures
            body == if index < self@.len() {
                Some(self@[index as int])
            } else {
                None
            },
    {
        if index < self.live.len() {
            Some(self.live[index])
        } else {
            None
        }
    }

    /// Whether a live body goes by `handle`.
    pub fn contains(&self, handle: u64) -> (live: bool)
        ensures
            live == is_live(self@, handle),
    {
        let mut i: usize = 0;
        while i < self.live.len()
            invariant
                i <= self.live@.len(),
                forall|j: int| 0 <= j < i ==> (#[trigger] self.live@[j]).handle != handle,
            decreases self.live@.len() - i,
        {
            if self.live[i].handle == handle {
                return true;
            }
            i += 1;
        }
        false
    }

    /// Whether a handle is left for one more asteroid.
    pub fn room(&self) -> (room: bool)
        ensures
            room == self.has_room(),
    {
        self.next_handle < u64::MAX
    }

    /// Registers a new asteroid behind the others, under the next handle,
    /// which lies above the handles of all live asteroids. Handles only rise,
    /// so one that has been given out never comes back.
    pub fn spawn(&mut self, asteroid: Asteroid) -> (body: Body)
        requires
            old(self).wf(),
            old(self).has_room(),
            asteroid.0 < N_ASTEROIDS,
        ensures
            final(self).wf(),
            body.handle == old(self).next_handle(),
            body.asteroid == asteroid,
            !is_live(old(self)@, body.handle),
            final(self)@ == old(self)@.push(body),
            final(self).next_handle() == old(self).next_handle() + 1,
    {
        let body = Body { handle: self.next_handle, asteroid };
        self.live.push(body);
        self.next_handle = self.next_handle + 1;
        body
    }

    /// The kinds of the bodies that `handles` names, in spawn order.
    pub fn kinds_among(&self, handles: &Vec<u64>) -> (kinds: Vec<usize>)
        ensures
            kinds@ == kinds_of(picked(self@, handles@)),
    {
        let mut kinds: Vec<usize> = Vec::new();
        let mut i: usize = 0;
        proof {
            reveal(Seq::filter);
            assert(self.live@.take(0) =~= Seq::<Body>::empty());
        }
        while i < self.live.len()
            invariant
                i <= self.live@.len(),
                kinds@ == kinds_of(picked(self.live@.take(i as int), handles@)),
            decreases self.live@.len() - i,
        {
            let body = self.live[i];
            proof {
                lemma_filter_take_step(self.live@, among(handles@), i as int);
            }
            if listed(handles, body.handle) {
                kinds.push(body.asteroid.0);
                assert(kinds@ =~= kinds_of(picked(self.live@.take(i + 1), handles@)));
            }
            i += 1;
        }
        assert(self.live@.take(i as int) =~= self.live@);
        kinds
    }

    /// Takes out the bodies that `handles` names and hands them over, in
    /// spawn order. Handles that name no live body are passed over.
    pub fn remove_all(&mut self, handles: &Vec<u64>) -> (removed: Vec<Body>)
        requires
            old(self).wf(),
        ensures
            final(self).wf(),
            final(self)@ == spared(old(self)@, handles@),
            removed@ == picked(old(self)@, handles@),
            final(self).next_handle() == old(self).next_handle(),
    {
        let mut kept: Vec<Body> = Vec::new();
        let mut removed: Vec<Body> = Vec::new();
        let mut i: usize = 0;
        proof {
            reveal(Seq::filter);
            assert(self.live@.take(0) =~= Seq::<Body>::empty());
        }
        while i < self.live.len()
            invariant
                i <= self.live@.len(),
                self.live@ == old(self).live@,
                self.next_handle == old(self).next_handle,
                kept@ == spared(self.live@.take(i as int), handles@),
                removed@ == picked(self.live@.take(i as int), handles@),
            decreases self.live@.len() - i,
        {
            let body = self.live[i];
            proof {
                lemma_filter_take_step(self.live@, among(handles@), i as int);
                lemma_filter_take_step(self.live@, beyond(handles@), i as int);
            }
            if listed(handles, body.handle) {
                removed.push(body);
            } else {
                kept.push(body);
            }
            i += 1;
        }
        proof {
            assert(self.live@.take(i as int) =~= self.live@);
            lemma_filter_keeps_order(self.live@, beyond(handles@));
        }
        self.live = kept;
        removed
    }
}

/// The blast that a swallowed asteroid leaves behind, by the frame it shows.
#[derive(Clone, Copy, PartialEq, Eq, Structural, Debug)]
pub struct Explosion {
    pub frame: usize,
}

/// The sprite of frame `frame` of an explosion, or `None` past the last
/// frame.
pub open spec fn explosion_sprite(frame: int) -> Option<u32> {
    if 0 <= frame < EXPLOSION_FRAMES@.len() {
        Some(EXPLOSION_FRAMES@[frame])
    } else {
        None
    }
}

impl Explosion {
    /// An explosion on its first frame.
    pub fn new() -> (explosion: Self)
        ensures
            explosion.frame == 0,
    {
        Explosion { frame: 0 }
    }

    /// The sprite to draw, or `None` if the explosion is over.
    pub fn sprite(&self) -> (sprite: Option<u32>)
        ensures
            sprite == explosion_sprite(self.frame as int),
    {
        if self.frame < EXPLOSION_FRAMES.len() {
            Some(EXPLOSION_FRAMES[self.frame])
        } else {
            None
        }
    }
}

/// Moves `explosion` on by one frame and gives the sprite to draw, or `None`
/// if that was its last frame, after which it stays as it is.
pub fn animate_explosion(explosion: &mut Explosion) -> (sprite: Option<u32>)
    ensures
        final(explosion).frame == if old(explosion).frame < EXPLOSION_FRAMES@.len() {
            old(explosion).frame + 1
        } else {
            old(explosion).frame as int
        },
        sprite == explosion_sprite(final(explosion).frame as int),
{
    if explosion.frame < EXPLOSION_FRAMES.len() {
        explosion.frame = explosion.frame + 1;
    }
    explosion.sprite()
}

/// `rand::rngs::ThreadRng`, the generator that each thread keeps for itself.
/// Nothing is known of its state.
#[verifier::external_type_specification]
#[verifier::external_body]
pub struct ExThreadRng(rand::rngs::ThreadRng);

/// `rand::thread_rng` hands out the generator of the calling thread, which
/// is seeded from the operating system when the thread first asks for it, and
/// panics if the system has no seed to give. Nothing is claimed of the
/// generator.
pub assume_specification[ rand::thread_rng ]() -> (rng: rand::rngs::ThreadRng)
;

/// A number below `bound` from `rng`, drawn by `rand::Rng::gen_range` on the
/// range `0..bound`, which must not be empty. Nothing is said of which number
/// comes out, only that it lies in the range.
#[verifier::external_body]
fn gen_below(rng: &mut rand::rngs::ThreadRng, bound: usize) -> (drawn: usize)
    requires
        bound > 0,
    ensures
        drawn < bound,
{
    rng.gen_range(0..bound)
}

/// Spawns one asteroid of a random kind, unless no handle is left.
pub fn asteroid_spawner(bodies: &mut Bodies) -> (spawned: Option<Body>)
    requires
        old(bodies).wf(),
    ensures
        final(bodies).wf(),
        spawned is Some <==> old(bodies).has_room(),
        match spawned {
            Some(body) => {
                &&& body.asteroid.0 < N_ASTEROIDS
                &&& body.handle == old(bodies).next_handle()
                &&& final(bodies)@ == old(bodies)@.push(body)
                &&& final(bodies).next_handle() == old(bodies).next_handle() + 1
            },
            None => *final(bodies) == *old(bodies),
        },
{
    if bodies.room() {
        let mut rng = rand::thread_rng();
        let kind = gen_below(&mut rng, N_ASTEROIDS);
        Some(bodies.spawn(Asteroid(kind)))
    } else {
        None
    }
}

/// Takes out the asteroids that have drifted away, named by `escaped`, and
/// hands them over. The economy has no part in it.
pub fn asteroid_despawner(bodies: &mut Bodies, escaped: &Vec<u64>) -> (gone: Vec<Body>)
    requires
        old(bodies).wf(),
    ensures
        final(bodies).wf(),
        final(bodies)@ == spared(old(bodies)@, escaped@),
        gone@ == picked(old(bodies)@, escaped@),
        final(bodies).next_handle() == old(bodies).next_handle(),
{
    bodies.remove_all(escaped)
}

/// The kinds of the bodies that `handles` names are asteroid kinds.
proof fn lemma_picked_kinds(bodies: &Bodies, handles: Seq<u64>)
    requires
        bodies.wf(),
    ensures
        all_kinds(kinds_of(picked(bodies@, handles))),
{
    lemma_filter_keeps_order(bodies@, among(handles));
    let taken = picked(bodies@, handles);
    assert forall|i: int| 0 <= i < kinds_of(taken).len() implies #[trigger] kinds_of(taken)[i]
        < N_ASTEROIDS by {
        assert(bodies@.contains(taken[i]));
    }
}

/// The planet swallows the asteroids that touch it, named by `touching`, in
/// spawn order: each leaves the registry and counts as one ingredient of its
/// kind, the economy settling after each. The swallowed bodies are handed
/// over in that order.
pub fn collision(bodies: &mut Bodies, touching: &Vec<u64>, economy: &mut Economy) -> (captured: Vec<
    Body,
>)
    requires
        old(bodies).wf(),
        old(economy).wf(),
        biomass_fits(
            old(economy).table(),
            old(economy)@,
            kinds_of(picked(old(bodies)@, touching@)),
        ),
    ensures
        final(bodies).wf(),
        final(bodies)@ == spared(old(bodies)@, touching@),
        final(bodies).next_handle() == old(bodies).next_handle(),
        captured@ == picked(old(bodies)@, touching@),
        final(economy).wf(),
        final(economy).table() == old(economy).table(),
        final(economy)@ == absorb_all(old(economy).table(), old(economy)@, kinds_of(captured@)),
{
    proof {
        lemma_picked_kinds(bodies, touching@);
    }
    let captured = bodies.remove_all(touching);
    let swallowed = kinds(&captured);
    economy.capture_all(&swallowed);
    captured
}

/// As [`collision`], where the biomass stays within what a `u32` holds.
/// Where it would not, nothing is changed and `None` is returned.
pub fn try_collision(bodies: &mut Bodies, touching: &Vec<u64>, economy: &mut Economy) -> (captured:
    Option<Vec<Body>>)
    requires
        old(bodies).wf(),
        old(economy).wf(),
    ensures
        final(bodies).wf(),
        final(economy).wf(),
        final(economy).table() == old(economy).table(),
        final(bodies).next_handle() == old(bodies).next_handle(),
        captured is Some <==> biomass_fits(
            old(economy).table(),
            old(economy)@,
            kinds_of(picked(old(bodies)@, touching@)),
        ),
        match captured {
            Some(captured) => {
                &&& captured@ == picked(old(bodies)@, touching@)
                &&& final(bodies)@ == spared(old(bodies)@, touching@)
                &&& final(economy)@ == absorb_all(
                    old(economy).table(),
                    old(economy)@,
                    kinds_of(captured@),
                )
            },
            None => *final(bodies) == *old(bodies) && *final(economy) == *old(economy),
        },
{
    proof {
        lemma_picked_kinds(bodies, touching@);
    }
    let swallowed = bodies.kinds_among(touching);
    if economy.can_absorb(&swallowed) {
        Some(collision(bodies, touching, economy))
    } else {
        None
    }
}

} // verus!
