use vstd::prelude::*;

use crate::direction::Direction;
use crate::grid::contains_point;
use crate::grid::in_bounds;
use crate::grid::pick_free_cell;
use crate::grid::step;
use crate::grid::step_spec;
use crate::point::Point;

verus! {

/// Points the score gains when the snake's head reaches the food.
pub const FOOD_SCORE: u32 = 50;

/// Points the score loses on every tick that eats nothing, floored at zero.
pub const SCORE_DECAY_PER_TICK: u32 = 1;

/// Whether the session is still running. The engine moves from `Playing` to
/// `Over` and never back.
#[derive(Clone, Copy, PartialEq, Eq, Structural, Debug)]
pub enum GameState {
    Playing,
    Over,
}

/// The game engine: a snake on a toroidal grid of `columns` by `rows` cells.
///
/// The fields are public so that contracts can speak about them directly;
/// every method assumes and preserves [`Game::wf`]. Hosts drive the engine
/// through its methods only.
pub struct Game {
    /// `columns * rows`, cached for full-board detection.
    pub area: usize,
    pub columns: u16,
    pub direction: Direction,
    pub food: Option<Point>,
    pub rows: u16,
    pub score: u32,
    /// The body, head first; the tail is the last element.
    pub snake: Vec<Point>,
    pub state: GameState,
}

impl Game {
    /// The engine's invariant: positive bounds, a cached area that fits the
    /// grid arithmetic, a non-empty duplicate-free snake on the board, and
    /// food (when present) on a free cell of the board.
    pub open spec fn wf(&self) -> bool {
        &&& self.columns >= 1
        &&& self.rows >= 1
        &&& self.area == self.columns * self.rows
        &&& self.area <= u16::MAX
        &&& 1 <= self.snake@.len() <= self.area
        &&& self.snake@.no_duplicates()
        &&& (forall|i: int|
            0 <= i < self.snake@.len() ==> in_bounds(
                #[trigger] self.snake@[i],
                self.columns,
                self.rows,
            ))
        &&& (self.food matches Some(f) ==> in_bounds(f, self.columns, self.rows)
            && !self.snake@.contains(f))
    }

    /// The game has ended.
    pub open spec fn over(&self) -> bool {
        self.state == GameState::Over
    }

    /// The snake's head.
    pub open spec fn head(&self) -> Point {
        self.snake@[0]
    }

    /// The cell the head moves into on the next tick.
    pub open spec fn next_head(&self) -> Point {
        step_spec(self.head(), self.direction, self.columns, self.rows)
    }

    /// The next tick ends the game: the head would run into the body, or the
    /// snake already fills the whole board.
    pub open spec fn blocked(&self) -> bool {
        self.snake@.contains(self.next_head()) || self.snake@.len() == self.area
    }

    /// The next tick eats: food is present exactly where the head moves.
    pub open spec fn eats(&self) -> bool {
        self.food == Some(self.next_head())
    }

    /// A fresh game: a single segment at the origin heading right, no food,
    /// score zero, still playing.
    pub fn new(columns: u16, rows: u16) -> (g: Game)
        requires
            columns >= 1,
            rows >= 1,
            columns * rows <= u16::MAX,
        ensures
            g.wf(),
            g.columns == columns,
            g.rows == rows,
            g.direction == Direction::Right,
            g.food is None,
            g.score == 0,
            g.snake@ == seq![(Point { x: 0u16, y: 0u16 })],
            !g.over(),
    {
        let area: u16 = columns * rows;
        let mut snake: Vec<Point> = Vec::new();
        snake.push(Point::default());
        let g = Game {
            area: area as usize,
            columns,
            direction: Direction::default(),
            food: None,
            rows,
            score: 0,
            snake,
            state: GameState::Playing,
        };
        proof {
            assert(g.snake@ =~= seq![(Point { x: 0u16, y: 0u16 })]);
            assert(columns * rows >= 1) by (nonlinear_arith)
                requires
                    columns >= 1,
                    rows >= 1,
            ;
        }
        g
    }

    /// The body, head first.
    pub fn snake(&self) -> (r: &Vec<Point>)
        ensures
            r@ == self.snake@,
    {
        &self.snake
    }

    /// The food's location, if any is on the board.
    pub fn food(&self) -> (r: &Option<Point>)
        ensures
            *r == self.food,
    {
        &self.food
    }

    pub fn score(&self) -> (r: u32)
        ensures
            r == self.score,
    {
        self.score
    }

    pub fn is_over(&self) -> (r: bool)
        ensures
            r == self.over(),
    {
        self.state == GameState::Over
    }

    /// Ask to head up. Adopted unless the snake is longer than one segment
    /// and is currently heading down: a longer snake cannot reverse in place.
    pub fn up(&mut self)
        ensures
            final(self).direction == (if old(self).snake@.len() != 1 && Direction::Up
                == old(self).direction.opposite() {
                old(self).direction
            } else {
                Direction::Up
            }),
            final(self).snake == old(self).snake,
            final(self).food == old(self).food,
            final(self).score == old(self).score,
            final(self).state == old(self).state,
            final(self).columns == old(self).columns,
            final(self).rows == old(self).rows,
            final(self).area == old(self).area,
    {
        if self.snake.len() == 1 || self.direction != Direction::Down {
            self.direction = Direction::Up;
        }
    }

    /// Ask to head right; rejected only while a longer snake heads left.
    pub fn right(&mut self)
        ensures
            final(self).direction == (if old(self).snake@.len() != 1 && Direction::Right
                == old(self).direction.opposite() {
                old(self).direction
            } else {
                Direction::Right
            }),
            final(self).snake == old(self).snake,
            final(self).food == old(self).food,
            final(self).score == old(self).score,
            final(self).state == old(self).state,
            final(self).columns == old(self).columns,
            final(self).rows == old(self).rows,
            final(self).area == old(self).area,
    {
        if self.snake.len() == 1 || self.direction != Direction::Left {
            self.direction = Direction::Right;
        }
    }

    /// Ask to head down; rejected only while a longer snake heads up.
    pub fn down(&mut self)
        ensures
            final(self).direction == (if old(self).snake@.len() != 1 && Direction::Down
                == old(self).direction.opposite() {
                old(self).direction
            } else {
                Direction::Down
            }),
            final(self).snake == old(self).snake,
            final(self).food == old(self).food,
            final(self).score == old(self).score,
            final(self).state == old(self).state,
            final(self).columns == old(self).columns,
            final(self).rows == old(self).rows,
            final(self).area == old(self).area,
    {
        if self.snake.len() == 1 || self.direction != Direction::Up {
            self.direction = Direction::Down;
        }
    }

    /// Ask to head left; rejected only while a longer snake heads right.
    pub fn left(&mut self)
        ensures
            final(self).direction == (if old(self).snake@.len() != 1 && Direction::Left
                == old(self).direction.opposite() {
                old(self).direction
            } else {
                Direction::Left
            }),
            final(self).snake == old(self).snake,
            final(self).food == old(self).food,
            final(self).score == old(self).score,
            final(self).state == old(self).state,
            final(self).columns == old(self).columns,
            final(self).rows == old(self).rows,
            final(self).area == old(self).area,
    {
        if self.snake.len() == 1 || self.direction != Direction::Right {
            self.direction = Direction::Left;
        }
    }

    /// Advance the simulation by one tick; a no-op once the game is over.
    ///
    /// The head moves one cell in the current heading, wrapping around the
    /// board. If it would land on the body, or the snake already fills the
    /// board, the game ends with nothing else changed. Otherwise, landing on
    /// the food scores [`FOOD_SCORE`] and grows the snake by keeping its
    /// tail; any other move costs [`SCORE_DECAY_PER_TICK`] (floored at zero)
    /// and shifts the snake by dropping its tail. Whenever no food is left
    /// and a free cell remains, new food is placed on a uniformly chosen
    /// free cell.
    pub fn tick(&mut self)
        requires
            old(self).wf(),
            old(self).score + FOOD_SCORE <= u32::MAX,
        ensures
            final(self).wf(),
            final(self).columns == old(self).columns,
            final(self).rows == old(self).rows,
            final(self).area == old(self).area,
            final(self).direction == old(self).direction,
            old(self).over() ==> *final(self) == *old(self),
            !old(self).over() ==> (final(self).over() <==> old(self).blocked()),
            !old(self).over() && old(self).blocked() ==> final(self).snake == old(self).snake
                && final(self).food == old(self).food && final(self).score == old(self).score,
            !old(self).over() && !old(self).blocked() && old(self).eats() ==> final(self).score
                == old(self).score + FOOD_SCORE && final(self).snake@ == seq![
                old(self).next_head(),
            ] + old(self).snake@ && (if old(self).snake@.len() + 1 == old(self).area {
                final(self).food is None
            } else {
                final(self).food is Some
            }),
            !old(self).over() && !old(self).blocked() && !old(self).eats() ==> final(self).score
                == (if old(self).score >= SCORE_DECAY_PER_TICK {
                (old(self).score - SCORE_DECAY_PER_TICK) as u32
            } else {
                0u32
            }) && final(self).snake@ == seq![old(self).next_head()] + old(
                self,
            ).snake@.drop_last() && (old(self).food is Some ==> final(self).food == old(
                self,
            ).food) && (old(self).food is None ==> final(self).food is Some),
    {
        if self.state == GameState::Over {
            return ;
        }
        let head = self.snake[0];
        let new_head = step(head, self.direction, self.columns, self.rows);
        let hit = contains_point(&self.snake, new_head);
        if hit || self.snake.len() == self.area {
            self.state = GameState::Over;
            return ;
        }
        let ghost old_snake = self.snake@;
        let mut ate = false;
        if let Some(f) = self.food {
            if f == new_head {
                ate = true;
            }
        }
        if ate {
            self.score = self.score + FOOD_SCORE;
            self.food = None;
        } else {
            self.score = if self.score >= SCORE_DECAY_PER_TICK {
                self.score - SCORE_DECAY_PER_TICK
            } else {
                0
            };
            self.snake.pop();
        }
        self.snake.insert(0, new_head);
        proof {
            let ns = self.snake@;
            if ate {
                assert(ns =~= seq![new_head] + old_snake);
            } else {
                assert(old_snake.subrange(0, old_snake.len() - 1) =~= old_snake.drop_last());
                assert(ns =~= seq![new_head] + old_snake.drop_last());
            }
            assert forall|m: int| 1 <= m < ns.len() implies ns[m] == old_snake[m - 1] by {
                if !ate {
                    assert(ns[m] == old_snake.drop_last()[m - 1]);
                }
            }
            assert forall|i: int, j: int|
                0 <= i < ns.len() && 0 <= j < ns.len() && i != j implies ns[i] != ns[j] by {
                if i >= 1 && j >= 1 {
                    assert(ns[i] == old_snake[i - 1] && ns[j] == old_snake[j - 1]);
                } else if i == 0 {
                    assert(ns[j] == old_snake[j - 1]);
                    assert(old_snake.contains(old_snake[j - 1]));
                } else {
                    assert(ns[i] == old_snake[i - 1]);
                    assert(old_snake.contains(old_snake[i - 1]));
                }
            }
            assert(ns.no_duplicates());
            assert forall|i: int| 0 <= i < ns.len() implies in_bounds(
                #[trigger] ns[i],
                self.columns,
                self.rows,
            ) by {
                if i >= 1 {
                    assert(ns[i] == old_snake[i - 1]);
                }
            }
        }
        if self.food.is_none() && self.snake.len() != self.area {
            let p = pick_free_cell(&self.snake, self.columns, self.rows);
            self.food = Some(p);
        }
        proof {
            if !ate && self.food is Some && self.food == old(self).food {
                let f = self.food->Some_0;
                assert(!self.snake@.contains(f)) by {
                    if self.snake@.contains(f) {
                        let m = choose|m: int|
                            0 <= m < self.snake@.len() && self.snake@[m] == f;
                        assert(m != 0);
                        assert(self.snake@[m] == old_snake[m - 1]);
                        assert(old_snake.contains(f));
                    }
                }
            }
        }
    }
}

} // verus!
