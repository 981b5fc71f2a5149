//! The particles of the smokey cursor plugin: which particles are added for the user's
//! terminal and the cursor, and which old ones are dropped.
//!
//! The simulation's physics (positions, velocities, colours) is floating point and runs in the
//! application. Here a particle is the integer position it starts from and whether it can move.
use crate::plugin_protocol::Cell;
use crate::util::{is_whitespace, spec_is_whitespace};
use std::collections::VecDeque;
use vstd::prelude::*;

verus! {

/// Where a particle starts, in pixels, and whether it can move.
#[derive(Clone, Copy, Debug, PartialEq, Eq, Structural)]
pub struct ParticleSeed {
    /// Column.
    pub x: i64,
    /// Pixel row.
    pub y: i64,
    /// Immovable particles interact with the others but never move.
    pub is_immovable: bool,
}

/// The particles of the simulation, newest first.
pub struct Simulation {
    /// The width of the simulated area, in pixels.
    pub width: usize,
    /// The height of the simulated area, in pixels.
    pub height: usize,
    /// The maximum number of particles in the simulation.
    pub max_particles: usize,
    /// All the particles, newest first.
    pub particles: VecDeque<ParticleSeed>,
}

/// The two immovable particles of a character that is not white space: one at the cell and
/// one just below it.
pub open spec fn cell_particles<C>(cell: Cell<C>) -> Seq<ParticleSeed> {
    if spec_is_whitespace(cell.character) {
        Seq::empty()
    } else {
        seq![
            ParticleSeed { x: cell.coordinates.0 as i64, y: cell.coordinates.1 as i64, is_immovable: true },
            ParticleSeed { x: cell.coordinates.0 as i64, y: (cell.coordinates.1 + 1) as i64, is_immovable: true },
        ]
    }
}

/// The particles of the terminal's characters, in the order they are added.
pub open spec fn pty_particles<C>(cells: Seq<Cell<C>>) -> Seq<ParticleSeed>
    decreases cells.len(),
{
    if cells.len() == 0 {
        Seq::empty()
    } else {
        pty_particles(cells.drop_last()) + cell_particles(cells.last())
    }
}

/// The movable particles that surround the cursor, row by row, in the order they are added:
/// an 8 by 8 square centred on the cursor's pixel, one pixel lower.
pub open spec fn cursor_particles(cursor: (u16, u16)) -> Seq<ParticleSeed> {
    Seq::new(
        64,
        |i: int|
            ParticleSeed {
                x: (cursor.0 + i % 8 - 4) as i64,
                y: (cursor.1 * 2 + i / 8 - 4 + 1) as i64,
                is_immovable: false,
            },
    )
}

/// The number of characters that are not white space.
pub open spec fn visible_count<C>(cells: Seq<Cell<C>>) -> nat
    decreases cells.len(),
{
    if cells.len() == 0 {
        0
    } else {
        visible_count(cells.drop_last()) + if spec_is_whitespace(cells.last().character) {
            0nat
        } else {
            1nat
        }
    }
}

/// The particles of the terminal's characters are two per visible character.
proof fn lemma_pty_particles_len<C>(cells: Seq<Cell<C>>)
    ensures
        pty_particles(cells).len() == 2 * visible_count(cells),
    decreases cells.len(),
{
    if cells.len() > 0 {
        lemma_pty_particles_len(cells.drop_last());
    }
}

/// The particles of the first characters grow character by character.
proof fn lemma_pty_particles_step<C>(cells: Seq<Cell<C>>, i: int)
    requires
        0 <= i < cells.len(),
    ensures
        pty_particles(cells.take(i + 1)) == pty_particles(cells.take(i)) + cell_particles(cells[i]),
        visible_count(cells.take(i + 1)) == visible_count(cells.take(i)) + if spec_is_whitespace(
            cells[i].character,
        ) {
            0nat
        } else {
            1nat
        },
{
    assert(cells.take(i + 1).drop_last() =~= cells.take(i));
    assert(cells.take(i + 1).last() == cells[i]);
}

/// Push the particles of one character to the front of the queue, returning how many.
fn push_cell_particles<C: Copy>(particles: &mut VecDeque<ParticleSeed>, cell: Cell<C>) -> (added: usize)
    ensures
        final(particles)@ == cell_particles(cell).reverse() + old(particles)@,
        added == cell_particles(cell).len(),
        added == if spec_is_whitespace(cell.character) { 0usize } else { 2usize },
{
    if is_whitespace(cell.character) {
        assert(cell_particles(cell).reverse() =~= Seq::<ParticleSeed>::empty());
        assert(particles@ =~= Seq::<ParticleSeed>::empty() + particles@);
        return 0;
    }
    let x = cell.coordinates.0 as i64;
    let y = cell.coordinates.1 as i64;
    let first = ParticleSeed { x, y, is_immovable: true };
    let second = ParticleSeed { x, y: y + 1, is_immovable: true };
    push_particle(particles, first);
    push_particle(particles, second);
    assert(cell_particles(cell) == seq![first, second]);
    assert(seq![first, second].reverse() =~= seq![second, first]);
    assert(particles@ =~= seq![second, first] + old(particles)@);
    2
}

/// Push a particle to the front of the queue.
fn push_particle(particles: &mut VecDeque<ParticleSeed>, seed: ParticleSeed)
    ensures
        final(particles)@ == seq![seed] + old(particles)@,
{
    particles.push_front(seed);
}

impl Simulation {
    /// An empty simulation of the given size.
    pub fn new(width: usize, height: usize, max_particles: usize) -> (res: Self)
        ensures
            res.width == width,
            res.height == height,
            res.max_particles == max_particles,
            res.particles@.len() == 0,
    {
        Simulation { width, height, max_particles, particles: VecDeque::new() }
    }

    /// Whether the simulation has a size.
    pub fn is_ready(&self) -> (res: bool)
        ensures
            res == (self.width > 0 && self.height > 0),
    {
        self.width > 0 && self.height > 0
    }

    /// Add particles that represent the characters of the user's terminal, two immovable
    /// particles per character that is not white space, then a square of movable particles
    /// around the cursor so that the cursor can interact with the others. Each particle goes
    /// to the front of the queue. Returns how many particles were added.
    pub fn add_pty_particles<C: Copy>(&mut self, cursor: (u16, u16), pty: &Vec<Cell<C>>) -> (count: usize)
        requires
            old(self).particles@.len() + 2 * pty@.len() + 64 <= usize::MAX,
        ensures
            final(self).particles@ == (pty_particles(pty@) + cursor_particles(cursor)).reverse()
                + old(self).particles@,
            count == 2 * visible_count(pty@) + 64,
            final(self).width == old(self).width,
            final(self).height == old(self).height,
            final(self).max_particles == old(self).max_particles,
    {
        let ghost start = self.particles@;
        let mut count: usize = 0;
        let mut i: usize = 0;
        while i < pty.len()
            invariant
                0 <= i <= pty@.len(),
                self.particles@ == pty_particles(pty@.take(i as int)).reverse() + start,
                count == 2 * visible_count(pty@.take(i as int)),
                visible_count(pty@.take(i as int)) <= i,
                start.len() + 2 * pty@.len() + 64 <= usize::MAX,
                self.width == old(self).width,
                self.height == old(self).height,
                self.max_particles == old(self).max_particles,
            decreases pty@.len() - i,
        {
            let cell = pty[i];
            let ghost before = self.particles@;
            let added = push_cell_particles(&mut self.particles, cell);
            count = count + added;
            proof {
                lemma_pty_particles_step(pty@, i as int);
                assert((pty_particles(pty@.take(i as int)) + cell_particles(cell)).reverse()
                    =~= cell_particles(cell).reverse() + pty_particles(pty@.take(i as int)).reverse());
                assert(self.particles@ =~= pty_particles(pty@.take(i + 1)).reverse() + start);
            }
            i = i + 1;
        }
        proof {
            assert(pty@.take(i as int) =~= pty@);
            lemma_pty_particles_len(pty@);
        }
        let ghost after_pty = self.particles@;
        let radius: i32 = 8;
        let cursor_x: i32 = cursor.0 as i32;
        let cursor_y: i32 = cursor.1 as i32;
        let mut y: i32 = 0;
        while y < radius
            invariant
                0 <= y <= radius,
                radius == 8,
                cursor_x == cursor.0,
                cursor_y == cursor.1,
                self.particles@ == cursor_particles(cursor).take(y * 8).reverse() + after_pty,
                count == 2 * visible_count(pty@) + y * 8,
                2 * visible_count(pty@) <= 2 * pty@.len(),
                start.len() + 2 * pty@.len() + 64 <= usize::MAX,
                self.width == old(self).width,
                self.height == old(self).height,
                self.max_particles == old(self).max_particles,
            decreases radius - y,
        {
            let mut x: i32 = 0;
            while x < radius
                invariant
                    0 <= x <= radius,
                    0 <= y < radius,
                    radius == 8,
                    cursor_x == cursor.0,
                    cursor_y == cursor.1,
                    self.particles@ == cursor_particles(cursor).take(y * 8 + x).reverse() + after_pty,
                    count == 2 * visible_count(pty@) + y * 8 + x,
                    2 * visible_count(pty@) <= 2 * pty@.len(),
                    start.len() + 2 * pty@.len() + 64 <= usize::MAX,
                    self.width == old(self).width,
                    self.height == old(self).height,
                    self.max_particles == old(self).max_particles,
                decreases radius - x,
            {
                let px = (cursor_x + x - radius / 2) as i64;
                let py = (cursor_y * 2 + y - radius / 2 + 1) as i64;
                let seed = ParticleSeed { x: px, y: py, is_immovable: false };
                let ghost before = self.particles@;
                push_particle(&mut self.particles, seed);
                count = count + 1;
                proof {
                    let k = y * 8 + x;
                    assert(cursor_particles(cursor)[k] == seed) by {
                        assert(k % 8 == x as int) by (nonlinear_arith)
                            requires
                                k == y * 8 + x,
                                0 <= x < 8,
                                0 <= y,
                        ;
                        assert(k / 8 == y as int) by (nonlinear_arith)
                            requires
                                k == y * 8 + x,
                                0 <= x < 8,
                                0 <= y,
                        ;
                    }
                    assert(cursor_particles(cursor).take(k + 1) =~= cursor_particles(cursor).take(
                        k,
                    ).push(seed));
                    assert(cursor_particles(cursor).take(k).push(seed).reverse() =~= seq![seed]
                        + cursor_particles(cursor).take(k).reverse());
                    assert(self.particles@ =~= cursor_particles(cursor).take(k + 1).reverse()
                        + after_pty);
                }
                x = x + 1;
            }
            y = y + 1;
        }
        proof {
            assert(cursor_particles(cursor).take(64) =~= cursor_particles(cursor));
            assert((pty_particles(pty@) + cursor_particles(cursor)).reverse() =~= cursor_particles(
                cursor,
            ).reverse() + pty_particles(pty@).reverse());
            assert(self.particles@ =~= (pty_particles(pty@) + cursor_particles(cursor)).reverse()
                + old(self).particles@);
        }
        count
    }

    /// Remove the oldest particle, the last in the queue, once the simulation holds its
    /// maximum number of particles.
    pub fn remove_old_particles(&mut self)
        ensures
            old(self).particles@.len() < old(self).max_particles
                ==> final(self).particles@ == old(self).particles@,
            old(self).particles@.len() >= old(self).max_particles
                ==> final(self).particles@ == old(self).particles@.drop_last()
                || (old(self).particles@.len() == 0 && final(self).particles@.len() == 0),
            final(self).width == old(self).width,
            final(self).height == old(self).height,
            final(self).max_particles == old(self).max_particles,
    {
        if self.particles.len() < self.max_particles {
            return;
        }
        let _ = self.particles.pop_back();
    }
}

} // verus!
