//! Trails: for each planet, the last few hundred positions it was recorded
//! at, kept in a ring buffer, and the bookkeeping that records them.
use vstd::prelude::*;
use crate::compact::{self, swap_remove_marked};
use std::collections::HashSet;

verus! {

/// How many positions a trail holds at most.
pub const MAX_TRAIL_LENGTH: usize = 500;

/// Positions are recorded once every this many frames.
pub const RECORD_INTERVAL: usize = 3;

/// A trail with room for one more position gains it at the end; a full trail
/// also loses its oldest position.
pub open spec fn extended<T>(points: Seq<T>, p: T) -> Seq<T> {
    if points.len() < MAX_TRAIL_LENGTH {
        points.push(p)
    } else {
        points.drop_first().push(p)
    }
}

/// A circular queue holding the last positions of one planet, oldest first.
pub struct TrailPositions<T> {
    planet: usize,
    positions: Vec<T>,
    front: usize,
    back: usize,
}

impl<T> TrailPositions<T> {
    /// The buffer has its full size and both ends lie inside it.
    pub closed spec fn well_formed(self) -> bool {
        &&& self.positions.len() == MAX_TRAIL_LENGTH
        &&& self.front < MAX_TRAIL_LENGTH
        &&& self.back < MAX_TRAIL_LENGTH
    }

    /// The planet this trail belongs to.
    pub closed spec fn planet_id(self) -> usize {
        self.planet
    }

    spec fn stored(self) -> nat {
        ((self.back as int - self.front as int + MAX_TRAIL_LENGTH as int) % (
        MAX_TRAIL_LENGTH as int) + 1) as nat
    }

    /// The recorded positions, oldest first.
    pub closed spec fn points(self) -> Seq<T> {
        Seq::new(
            self.stored(),
            |i: int| self.positions@[(self.front as int + i) % (MAX_TRAIL_LENGTH as int)],
        )
    }
}

proof fn lemma_mod_small(x: int)
    requires
        0 <= x < 1000,
    ensures
        x % 500 == if x < 500 { x } else { x - 500 },
{
    if x >= 500 {
        assert((x - 500) % 500 == x % 500) by (nonlinear_arith)
            requires 500 <= x < 1000;
    }
}

/// Where the ends of the ring go when a position is added.
proof fn lemma_ring_step(f: int, b: int, len: int)
    requires
        0 <= f < 500,
        0 <= b < 500,
        len == (b - f + 500) % 500 + 1,
    ensures
        1 <= len <= 500,
        len < 500 ==> {
            let nb = (b + 1) % 500;
            &&& nb != f
            &&& (nb - f + 500) % 500 + 1 == len + 1
            &&& (f + len) % 500 == nb
        },
        len == 500 ==> {
            let nb = (b + 1) % 500;
            let nf = (f + 1) % 500;
            &&& nb == f
            &&& (nb - nf + 500) % 500 + 1 == 500
        },
{
    lemma_mod_small(b - f + 500);
    lemma_mod_small(b + 1);
    lemma_mod_small(f + 1);
    let nb = (b + 1) % 500;
    let nf = (f + 1) % 500;
    lemma_mod_small(nb - f + 500);
    lemma_mod_small(nb - nf + 500);
    lemma_mod_small(f + len);
}

/// A well-formed trail holds at least one and at most `MAX_TRAIL_LENGTH`
/// positions.
pub proof fn lemma_trail_len<T>(t: TrailPositions<T>)
    requires
        t.well_formed(),
    ensures
        1 <= t@.len() <= MAX_TRAIL_LENGTH,
{
    lemma_mod_small(t.back as int - t.front as int + 500);
}

impl<T> View for TrailPositions<T> {
    type V = Seq<T>;

    open spec fn view(&self) -> Seq<T> {
        self.points()
    }
}

impl<T: Copy> TrailPositions<T> {
    /// A trail for `planet` that starts at `position`.
    pub fn new(planet: usize, position: T) -> (t: Self)
        ensures
            t.well_formed(),
            t.planet_id() == planet,
            t@ == seq![position],
    {
        let mut positions: Vec<T> = Vec::new();
        while positions.len() < MAX_TRAIL_LENGTH
            invariant
                positions.len() <= MAX_TRAIL_LENGTH,
                forall|i: int| 0 <= i < positions.len() ==> positions@[i] == position,
            decreases MAX_TRAIL_LENGTH - positions.len(),
        {
            positions.push(position);
        }
        let t = TrailPositions { planet, positions, front: 0, back: 0 };
        assert(t@ =~= seq![position]);
        t
    }

    /// The planet this trail belongs to.
    pub fn planet(&self) -> (id: usize)
        ensures
            id == self.planet_id(),
    {
        self.planet
    }

    /// Records a new position at the end, forgetting the oldest one when full.
    pub fn enqueue_position(&mut self, position: T)
        requires
            old(self).well_formed(),
        ensures
            final(self).well_formed(),
            final(self).planet_id() == old(self).planet_id(),
            final(self)@ == extended(old(self)@, position),
            1 <= final(self)@.len() <= MAX_TRAIL_LENGTH,
    {
        let ghost f = self.front as int;
        let ghost b = self.back as int;
        let ghost old_points = self@;
        let ghost len = old_points.len();
        let ghost old_positions = self.positions@;
        let back = (self.back + 1) % MAX_TRAIL_LENGTH;
        let front = if self.front == back {
            (self.front + 1) % MAX_TRAIL_LENGTH
        } else {
            self.front
        };
        self.positions.set(back, position);
        self.front = front;
        self.back = back;
        proof {
            lemma_ring_step(f, b, len as int);
            assert(self.positions@ == old_positions.update(back as int, position));
            if len < MAX_TRAIL_LENGTH {
                assert(self@.len() == len + 1);
                assert forall|i: int| 0 <= i < len + 1 implies #[trigger] self@[i]
                    == old_points.push(position)[i] by {
                    lemma_mod_small(f + i);
                    if i < len {
                        assert(old_points[i] == old_positions[(f + i) % 500]);
                    }
                }
                assert(self@ =~= old_points.push(position));
            } else {
                assert(self@.len() == len);
                assert forall|i: int| 0 <= i < len implies #[trigger] self@[i]
                    == old_points.drop_first().push(position)[i] by {
                    lemma_mod_small(f + i + 1);
                    lemma_mod_small(front as int + i);
                    if i < len - 1 {
                        assert(old_points[i + 1] == old_positions[(f + i + 1) % 500]);
                    }
                }
                assert(self@ =~= old_points.drop_first().push(position));
            }
        }
    }

    /// Forgets the oldest position, unless it is the only one left; tells
    /// whether there was nothing left to forget.
    pub fn dequeue_until_empty(&mut self) -> (empty: bool)
        requires
            old(self).well_formed(),
        ensures
            final(self).well_formed(),
            final(self).planet_id() == old(self).planet_id(),
            1 <= old(self)@.len() <= MAX_TRAIL_LENGTH,
            empty == (old(self)@.len() == 1),
            empty ==> final(self)@ == old(self)@,
            !empty ==> final(self)@ == old(self)@.drop_first(),
            1 <= final(self)@.len() <= MAX_TRAIL_LENGTH,
    {
        if self.front == self.back {
            return true;
        }
        let ghost old_points = self@;
        let ghost f = self.front as int;
        self.front = (self.front + 1) % MAX_TRAIL_LENGTH;
        proof {
            assert forall|i: int| 0 <= i < self@.len() implies #[trigger] self@[i]
                == old_points.drop_first()[i] by {
                assert((self.front as int + i) % 500 == (f + i + 1) % 500);
            }
            assert(self@ =~= old_points.drop_first());
        }
        false
    }

    /// The recorded positions, oldest first.
    pub fn points_in_order(&self) -> (v: Vec<T>)
        requires
            self.well_formed(),
        ensures
            v@ == self@,
    {
        let mut v: Vec<T> = Vec::new();
        let mut idx = self.front;
        v.push(self.positions[idx]);
        while idx != self.back
            invariant
                idx < MAX_TRAIL_LENGTH,
                self.positions.len() == MAX_TRAIL_LENGTH,
                self.front < MAX_TRAIL_LENGTH,
                self.back < MAX_TRAIL_LENGTH,
                1 <= v.len() <= self@.len(),
                idx as int == (self.front as int + v.len() - 1) % 500,
                forall|i: int| 0 <= i < v.len() ==> v@[i] == self@[i],
            decreases self@.len() - v.len(),
        {
            idx = (idx + 1) % MAX_TRAIL_LENGTH;
            v.push(self.positions[idx]);
        }
        assert(v@ =~= self@);
        v
    }
}

} // verus!

verus! {

/// A trail as a value: the planet it belongs to and its positions, oldest first.
pub type TrailView<T> = (usize, Seq<T>);

/// The position of the first planet in `planets` with identity `id`, if any.
pub open spec fn position_of<T>(planets: Seq<(usize, T)>, id: usize) -> Option<T>
    decreases planets.len(),
{
    if planets.len() == 0 {
        None
    } else if planets[0].0 == id {
        Some(planets[0].1)
    } else {
        position_of(planets.drop_first(), id)
    }
}

/// A trail after one recording: a trail whose planet still exists gains the
/// planet's position; a trail whose planet is gone loses its oldest position
/// while it has more than one.
pub open spec fn moved_trail<T>(t: TrailView<T>, planets: Seq<(usize, T)>) -> TrailView<T> {
    match position_of(planets, t.0) {
        Some(p) => (t.0, extended(t.1, p)),
        None => if t.1.len() <= 1 {
            t
        } else {
            (t.0, t.1.drop_first())
        },
    }
}

/// A trail is dropped once its planet is gone and it is down to one position.
pub open spec fn expired<T>(t: TrailView<T>, planets: Seq<(usize, T)>) -> bool {
    position_of(planets, t.0) is None && t.1.len() <= 1
}

/// Whether some trail belongs to planet `id`.
pub open spec fn has_trail<T>(trails: Seq<TrailView<T>>, id: usize) -> bool {
    exists|i: int| 0 <= i < trails.len() && (#[trigger] trails[i]).0 == id
}

/// New trails, in the planets' order, for the planets that had none.
pub open spec fn new_trails<T>(planets: Seq<(usize, T)>, trails: Seq<TrailView<T>>) -> Seq<
    TrailView<T>,
>
    decreases planets.len(),
{
    if planets.len() == 0 {
        seq![]
    } else {
        let p = planets.last();
        new_trails(planets.drop_last(), trails) + if has_trail(trails, p.0) {
            Seq::<TrailView<T>>::empty()
        } else {
            seq![(p.0, seq![p.1])]
        }
    }
}

/// The trails after a recording: every trail moves, expired trails are
/// removed by swapping the last trail into their place, and planets without
/// a trail get a new one at the end.
pub open spec fn trails_after_move<T>(trails: Seq<TrailView<T>>, planets: Seq<(usize, T)>) -> Seq<
    TrailView<T>,
> {
    compact::swap_compact(
        trails.map_values(|t: TrailView<T>| moved_trail(t, planets)),
        trails.map_values(|t: TrailView<T>| expired(t, planets)),
        0,
    ) + new_trails(planets, trails)
}

/// The trails of all planets, and a frame counter that decides when the
/// planets' positions are recorded.
pub struct TrailManager<T> {
    trails: Vec<TrailPositions<T>>,
    frame: usize,
}

impl<T> TrailManager<T> {
    /// Every trail is well formed and the frame counter is below the interval.
    pub closed spec fn well_formed(self) -> bool {
        &&& self.frame < RECORD_INTERVAL
        &&& forall|i: int| 0 <= i < self.trails.len() ==> (#[trigger] self.trails@[i]).well_formed()
    }

    /// The trails as values, in order.
    pub closed spec fn trail_views(self) -> Seq<TrailView<T>> {
        self.trails@.map_values(|t: TrailPositions<T>| (t.planet_id(), t@))
    }

    /// The frame counter.
    pub closed spec fn frame_count(self) -> nat {
        self.frame as nat
    }

    /// A manager with no trails.
    pub fn new() -> (m: Self)
        ensures
            m.well_formed(),
            m.trail_views() == Seq::<TrailView<T>>::empty(),
            m.frame_count() == 0,
    {
        let m = TrailManager { trails: Vec::new(), frame: 0 };
        assert(m.trail_views() =~= Seq::<TrailView<T>>::empty());
        m
    }

    /// The trails, in order.
    pub fn trails(&self) -> (t: &Vec<TrailPositions<T>>)
        requires
            self.well_formed(),
        ensures
            t@.map_values(|t: TrailPositions<T>| (t.planet_id(), t@)) == self.trail_views(),
            forall|i: int| 0 <= i < t.len() ==> (#[trigger] t@[i]).well_formed(),
    {
        &self.trails
    }
}

fn find_position<T: Copy>(planets: &Vec<(usize, T)>, id: usize) -> (r: Option<T>)
    ensures
        r == position_of(planets@, id),
{
    let mut j: usize = 0;
    assert(planets@.skip(0) =~= planets@);
    while j < planets.len()
        invariant
            j <= planets.len(),
            position_of(planets@, id) == position_of(planets@.skip(j as int), id),
        decreases planets.len() - j,
    {
        let ghost rest = planets@.skip(j as int);
        assert(rest.drop_first() =~= planets@.skip(j + 1));
        assert(rest[0] == planets@[j as int]);
        if planets[j].0 == id {
            return Some(planets[j].1);
        }
        j = j + 1;
    }
    None
}

impl<T: Copy> TrailManager<T> {
    /// Called once per frame while the simulation runs.  Every
    /// `RECORD_INTERVAL` frames each trail records its planet's position (or
    /// shrinks if the planet is gone), expired trails are dropped, and each
    /// planet without a trail gets one.  Planets are given by identity and
    /// current position.
    pub fn planets_moved(&mut self, planets: &Vec<(usize, T)>)
        requires
            old(self).well_formed(),
        ensures
            final(self).well_formed(),
            final(self).frame_count() == (old(self).frame_count() + 1) % (RECORD_INTERVAL as nat),
            final(self).frame_count() != 0 ==> final(self).trail_views() == old(self).trail_views(),
            final(self).frame_count() == 0 ==> final(self).trail_views() == trails_after_move(
                old(self).trail_views(),
                planets@,
            ),
    {
        self.frame = (self.frame + 1) % RECORD_INTERVAL;
        if self.frame != 0 {
            return;
        }
        broadcast use vstd::std_specs::hash::group_hash_axioms;

        let ghost old_views = self.trail_views();
        let n = self.trails.len();
        let mut marks: Vec<bool> = Vec::new();
        // The planets that have a trail
        let mut trailed: HashSet<usize> = HashSet::new();
        let mut i: usize = 0;
        while i < n
            invariant
                n == self.trails.len(),
                i <= n,
                self.frame == 0,
                old_views.len() == n,
                forall|k: int| 0 <= k < n ==> (#[trigger] self.trails@[k]).well_formed(),
                marks.len() == i,
                forall|x: usize|
                    #[trigger] trailed@.contains(x) <==> exists|k: int|
                        0 <= k < i && (#[trigger] old_views[k]).0 == x,
                forall|k: int|
                    0 <= k < i ==> (#[trigger] self.trails@[k].planet_id(), self.trails@[k]@)
                        == moved_trail(old_views[k], planets@),
                forall|k: int| 0 <= k < i ==> #[trigger] marks@[k] == expired(old_views[k], planets@),
                forall|k: int|
                    i <= k < n ==> (#[trigger] self.trails@[k].planet_id(), self.trails@[k]@)
                        == old_views[k],
            decreases n - i,
        {
            let id = self.trails[i].planet();
            let ghost before = trailed@;
            trailed.insert(id);
            proof {
                assert forall|x: usize| #[trigger] trailed@.contains(x) <==> exists|k: int|
                    0 <= k < i + 1 && (#[trigger] old_views[k]).0 == x by {
                    if x == id {
                        assert(old_views[i as int].0 == id);
                    } else if trailed@.contains(x) {
                        assert(before.contains(x));
                    }
                }
            }
            match find_position(planets, id) {
                Some(p) => {
                    self.trails[i].enqueue_position(p);
                    marks.push(false);
                },
                None => {
                    let empty = self.trails[i].dequeue_until_empty();
                    marks.push(empty);
                },
            }
            i = i + 1;
        }
        let ghost moved = self.trails@;
        proof {
            let f = |t: TrailPositions<T>| (t.planet_id(), t@);
            assert(moved.map_values(f) =~= old_views.map_values(
                |t: TrailView<T>| moved_trail(t, planets@),
            ));
            assert(marks@ =~= old_views.map_values(|t: TrailView<T>| expired(t, planets@)));
            compact::lemma_swap_compact_map(moved, marks@, 0, f);
        }
        swap_remove_marked(&mut self.trails, marks);
        proof {
            compact::lemma_swap_compact_preserves(
                moved,
                old_views.map_values(|t: TrailView<T>| expired(t, planets@)),
                0,
                |t: TrailPositions<T>| t.well_formed(),
            );
        }
        let ghost compacted = self.trail_views();
        let mut j: usize = 0;
        while j < planets.len()
            invariant
                j <= planets.len(),
                self.frame == 0,
                forall|k: int| 0 <= k < self.trails.len() ==> (#[trigger] self.trails@[k]).well_formed(),
                forall|x: usize|
                    #[trigger] trailed@.contains(x) <==> exists|k: int|
                        0 <= k < old_views.len() && (#[trigger] old_views[k]).0 == x,
                self.trail_views() == compacted + new_trails(planets@.take(j as int), old_views),
            decreases planets.len() - j,
        {
            let (id, position) = planets[j];
            let ghost before = self.trail_views();
            let ghost p = planets@[j as int];
            let known = trailed.contains(&id);
            proof {
                assert(known == trailed@.contains(id));
                if known {
                    let k = choose|k: int| 0 <= k < old_views.len() && (#[trigger] old_views[k]).0 == id;
                    assert(has_trail(old_views, id));
                } else {
                    assert forall|k: int| 0 <= k < old_views.len() implies (#[trigger] old_views[k]).0
                        != id by {
                        if old_views[k].0 == id {
                            assert(trailed@.contains(id));
                        }
                    }
                }
                assert(planets@.take(j + 1).drop_last() =~= planets@.take(j as int));
                assert(planets@.take(j + 1).last() == p);
            }
            if !known {
                self.trails.push(TrailPositions::new(id, position));
                proof {
                    assert(self.trail_views() =~= before.push((id, seq![position])));
                }
            }
            j = j + 1;
        }
        proof {
            assert(planets@.take(planets.len() as int) =~= planets@);
        }
    }
}

} // verus!

verus! {

/// After a recording, every planet has a trail: a trail that belonged to a
/// planet that still exists is kept, and a planet without one gets one.
pub proof fn lemma_every_planet_has_trail<T>(trails: Seq<TrailView<T>>, planets: Seq<(usize, T)>)
    ensures
        forall|j: int|
            0 <= j < planets.len() ==> has_trail(
                trails_after_move(trails, planets),
                #[trigger] planets[j].0,
            ),
{
    let moved = trails.map_values(|t: TrailView<T>| moved_trail(t, planets));
    let marks = trails.map_values(|t: TrailView<T>| expired(t, planets));
    let kept = compact::swap_compact(moved, marks, 0);
    let result = trails_after_move(trails, planets);
    assert(result == kept + new_trails(planets, trails));
    assert forall|j: int| 0 <= j < planets.len() implies has_trail(
        result,
        #[trigger] planets[j].0,
    ) by {
        let id = planets[j].0;
        lemma_position_of_found(planets, j);
        if has_trail(trails, id) {
            let k = choose|k: int| 0 <= k < trails.len() && (#[trigger] trails[k]).0 == id;
            let x = moved[k];
            assert(x.0 == id);
            assert(!marks[k]);
            compact::lemma_swap_compact_keeps_unmarked(moved, marks);
            lemma_unmarked_count_positive(moved, marks, k);
            assert(kept.to_multiset().count(x) > 0);
            broadcast use vstd::seq_lib::group_to_multiset_ensures;
            assert(kept.contains(x));
            let q = choose|q: int| 0 <= q < kept.len() && kept[q] == x;
            assert(result[q] == x);
        } else {
            lemma_new_trails_cover(planets, trails, j);
            let q = choose|q: int|
                0 <= q < new_trails(planets, trails).len() && (#[trigger] new_trails(
                    planets,
                    trails,
                )[q]).0 == id;
            assert(result[kept.len() + q] == new_trails(planets, trails)[q]);
        }
    }
}

proof fn lemma_position_of_found<T>(planets: Seq<(usize, T)>, j: int)
    requires
        0 <= j < planets.len(),
    ensures
        position_of(planets, planets[j].0) is Some,
    decreases planets.len(),
{
    if planets[0].0 != planets[j].0 {
        assert(planets.drop_first()[j - 1] == planets[j]);
        lemma_position_of_found(planets.drop_first(), j - 1);
    }
}

proof fn lemma_unmarked_count_positive<A>(s: Seq<A>, m: Seq<bool>, k: int)
    requires
        s.len() == m.len(),
        0 <= k < s.len(),
        !m[k],
    ensures
        compact::unmarked_count(s, m, s[k]) > 0,
    decreases s.len(),
{
    if k < s.len() - 1 {
        assert(s.drop_last()[k] == s[k]);
        assert(m.drop_last()[k] == m[k]);
        lemma_unmarked_count_positive(s.drop_last(), m.drop_last(), k);
    }
}

proof fn lemma_new_trails_cover<T>(planets: Seq<(usize, T)>, trails: Seq<TrailView<T>>, j: int)
    requires
        0 <= j < planets.len(),
        !has_trail(trails, planets[j].0),
    ensures
        exists|q: int|
            0 <= q < new_trails(planets, trails).len() && (#[trigger] new_trails(
                planets,
                trails,
            )[q]).0 == planets[j].0,
    decreases planets.len(),
{
    let init = planets.drop_last();
    let prefix = new_trails(init, trails);
    if j == planets.len() - 1 {
        let q = prefix.len() as int;
        assert(new_trails(planets, trails)[q].0 == planets[j].0);
    } else {
        assert(init[j] == planets[j]);
        lemma_new_trails_cover(init, trails, j);
        let q = choose|q: int|
            0 <= q < prefix.len() && (#[trigger] new_trails(init, trails)[q]).0 == planets[j].0;
        assert(new_trails(planets, trails)[q] == prefix[q]);
    }
}

} // verus!
