//! The game state and its two operations, `apply_input` and `tick`, plus
//! `restart`. Every state change is specified by a relation between the state
//! before and after the call; where food is placed at random, the relation
//! states what holds of every sample.

use crate::grid::{
    in_grid, is_opposite, lemma_grid_capacity, opposite, pos_in_grid, step, step_pos, Direction,
    Pos, GRID_HEIGHT, GRID_WIDTH,
};
use crate::rng::{sample_below, sample_one_in_ten};
use vstd::prelude::*;

verus! {

/// Horizontal start coordinate of the snake: half the grid width.
pub const START_X: i32 = 15;
/// Vertical start coordinate of the snake: half the grid height.
pub const START_Y: i32 = 10;
/// Time a bonus food stays on the board, in milliseconds.
pub const BONUS_DURATION_MS: u64 = 7000;
/// Points awarded for eating a bonus food.
pub const BONUS_SCORE: u32 = 5;
/// Points awarded for eating an ordinary food.
pub const NORMAL_SCORE: u32 = 1;

/// The snake: its body cells, head first and tail last, and the direction it
/// is headed.
pub struct Snake {
    pub body: Vec<Pos>,
    pub direction: Direction,
}

/// A food item on the board. An ordinary food has no timer; a bonus food
/// carries the milliseconds left before it expires and is replaced.
#[derive(Clone, Copy, PartialEq, Eq, Structural, Debug)]
pub struct Food {
    pub position: Pos,
    pub is_bonus: bool,
    pub timer_ms: u64,
}

/// The whole game: snake, food, score and the two lifecycle flags.
pub struct Game {
    pub snake: Snake,
    pub food: Food,
    pub score: u32,
    pub game_over: bool,
    pub game_started: bool,
}

impl Snake {
    /// The head cell: the first element of the body.
    pub open spec fn head(self) -> Pos {
        self.body@[0]
    }

    /// Well-formed snake: at least one cell, every cell on the grid, and no
    /// cell occupied twice.
    pub open spec fn wf(self) -> bool {
        &&& self.body@.len() >= 1
        &&& forall|i: int| 0 <= i < self.body@.len() ==> in_grid(#[trigger] self.body@[i])
        &&& self.body@.no_duplicates()
    }
}

impl Food {
    /// Well-formed food: on the grid; a bonus food has time left, at most the
    /// full duration, and an ordinary food has none.
    pub open spec fn wf(self) -> bool {
        &&& in_grid(self.position)
        &&& self.is_bonus ==> 0 < self.timer_ms <= BONUS_DURATION_MS
        &&& !self.is_bonus ==> self.timer_ms == 0
    }
}

/// What placing a food on the board guarantees, whatever was sampled: the
/// food is well formed, lies on none of the given body cells, and a bonus
/// food starts with the full duration on its timer.
pub open spec fn freshly_placed(f: Food, body: Seq<Pos>) -> bool {
    &&& f.wf()
    &&& !body.contains(f.position)
    &&& f.is_bonus ==> f.timer_ms == BONUS_DURATION_MS
}

/// The body occupies every cell of the grid, leaving no room for a food.
pub open spec fn grid_full(body: Seq<Pos>) -> bool {
    forall|p: Pos| in_grid(p) ==> #[trigger] body.contains(p)
}

impl Game {
    /// Well-formed game: snake and food are well formed, the food lies off
    /// the snake, and the score is bounded by what the snake's growth since
    /// the start can have earned.
    pub open spec fn wf(self) -> bool {
        &&& self.snake.wf()
        &&& self.food.wf()
        &&& !self.snake.body@.contains(self.food.position)
        &&& self.score <= BONUS_SCORE * (self.snake.body@.len() - 1)
    }
}

/// The two states agree in every observable component.
pub open spec fn same_state(a: Game, b: Game) -> bool {
    &&& a.snake.body@ == b.snake.body@
    &&& a.snake.direction == b.snake.direction
    &&& a.food == b.food
    &&& a.score == b.score
    &&& a.game_over == b.game_over
    &&& a.game_started == b.game_started
}

/// A freshly initialised game: a one-cell snake at the grid centre, idle,
/// score zero, not over, not started, with a freshly placed food.
pub open spec fn fresh_game(g: Game) -> bool {
    &&& g.snake.body@ == seq![Pos { x: START_X, y: START_Y }]
    &&& g.snake.direction is Idle
    &&& g.score == 0
    &&& !g.game_over
    &&& !g.game_started
    &&& freshly_placed(g.food, g.snake.body@)
}

/// What `apply_input` does: after the game is over, and on an input that
/// exactly reverses the current direction, nothing changes; otherwise the
/// direction becomes the input and the game counts as started.
pub open spec fn input_rel(pre: Game, d: Direction, post: Game) -> bool {
    if pre.game_over || opposite(d, pre.snake.direction) {
        same_state(post, pre)
    } else {
        &&& post.snake.body@ == pre.snake.body@
        &&& post.snake.direction == d
        &&& post.food == pre.food
        &&& post.score == pre.score
        &&& !post.game_over
        &&& post.game_started
    }
}

/// The bonus food's timer runs out within this tick.
pub open spec fn expires(f: Food, dt_ms: u64) -> bool {
    f.is_bonus && dt_ms >= f.timer_ms
}

/// The food after the timer phase of a tick in which it does not expire: a
/// bonus food's timer is decreased by the elapsed time, an ordinary food is
/// untouched.
pub open spec fn ticked_food(f: Food, dt_ms: u64) -> Food {
    if f.is_bonus {
        Food { position: f.position, is_bonus: f.is_bonus, timer_ms: (f.timer_ms - dt_ms) as u64 }
    } else {
        f
    }
}

/// The food after the timer phase of a tick: replaced by a freshly placed one
/// when it expires, otherwise merely ticked.
pub open spec fn food_step_rel(pre: Game, dt_ms: u64, f1: Food) -> bool {
    if expires(pre.food, dt_ms) {
        freshly_placed(f1, pre.snake.body@)
    } else {
        f1 == ticked_food(pre.food, dt_ms)
    }
}

/// The cell the head would move to this tick.
pub open spec fn cand_of(pre: Game) -> Pos {
    step(pre.snake.head(), pre.snake.direction)
}

/// The candidate head lands on a body cell other than the tail. The tail is
/// excluded because it is normally vacated within the same tick; it stays
/// excluded even on a tick that eats and so keeps the tail, a deliberate
/// tie-break. From a well-formed state the food never lies on the body, so a
/// growing move onto the tail cannot arise in play.
pub open spec fn hits_body(body: Seq<Pos>, p: Pos) -> bool {
    exists|i: int| 0 <= i < body.len() - 1 && body[i] == p
}

/// The movement phase of a tick, given the food `f1` that the timer phase
/// left on the board. Leaving the grid or landing on a non-tail body cell
/// ends the game without moving; landing on the food grows the snake by its
/// new head, scores, and places a new food; otherwise the head advances and
/// the tail is vacated.
pub open spec fn move_rel(pre: Game, f1: Food, post: Game) -> bool {
    let cand = cand_of(pre);
    if !in_grid(cand) || hits_body(pre.snake.body@, cand) {
        &&& post.game_over
        &&& post.snake.body@ == pre.snake.body@
        &&& post.snake.direction == pre.snake.direction
        &&& post.score == pre.score
        &&& post.food == f1
        &&& post.game_started == pre.game_started
    } else if cand == f1.position {
        &&& post.snake.body@ == seq![cand] + pre.snake.body@
        &&& post.snake.direction == pre.snake.direction
        &&& post.score == pre.score + (if f1.is_bonus {
            BONUS_SCORE as int
        } else {
            NORMAL_SCORE as int
        })
        &&& !grid_full(post.snake.body@) ==> freshly_placed(post.food, post.snake.body@)
        &&& grid_full(post.snake.body@) ==> post.food == f1
        &&& !post.game_over
        &&& post.game_started == pre.game_started
    } else {
        &&& post.snake.body@ == seq![cand] + pre.snake.body@.drop_last()
        &&& post.snake.direction == pre.snake.direction
        &&& post.score == pre.score
        &&& post.food == f1
        &&& !post.game_over
        &&& post.game_started == pre.game_started
    }
}

/// What `tick` does. A finished or not-yet-started game is untouched. While
/// idle only the food timer runs. Otherwise the timer phase yields some food
/// `f1` — exactly determined unless the bonus expired, in which case it was
/// sampled — and the movement phase runs against it.
pub open spec fn tick_rel(pre: Game, dt_ms: u64, post: Game) -> bool {
    if pre.game_over || !pre.game_started {
        same_state(post, pre)
    } else if pre.snake.direction is Idle {
        &&& post.snake.body@ == pre.snake.body@
        &&& post.snake.direction == pre.snake.direction
        &&& post.score == pre.score
        &&& post.game_over == pre.game_over
        &&& post.game_started == pre.game_started
        &&& food_step_rel(pre, dt_ms, post.food)
    } else if !expires(pre.food, dt_ms) {
        move_rel(pre, ticked_food(pre.food, dt_ms), post)
    } else {
        exists|f1: Food|
            #[trigger] move_rel(pre, f1, post) && freshly_placed(f1, pre.snake.body@)
    }
}

/// Prepending a cell that occurs nowhere in a duplicate-free sequence keeps
/// the sequence duplicate free.
proof fn lemma_prepend_no_dup(s: Seq<Pos>, p: Pos)
    requires
        s.no_duplicates(),
        !s.contains(p),
    ensures
        (seq![p] + s).no_duplicates(),
{
    let t = seq![p] + s;
    assert forall|i: int, j: int|
        0 <= i < t.len() && 0 <= j < t.len() && i != j implies t[i] != t[j] by {
        if i == 0 {
            assert(t[j] == s[j - 1]);
            assert(s.contains(s[j - 1]));
        } else if j == 0 {
            assert(t[i] == s[i - 1]);
            assert(s.contains(s[i - 1]));
        } else {
            assert(t[i] == s[i - 1] && t[j] == s[j - 1]);
        }
    }
}

/// Dropping the last cell of a duplicate-free sequence keeps it duplicate
/// free.
proof fn lemma_drop_last_no_dup(s: Seq<Pos>)
    requires
        s.len() >= 1,
        s.no_duplicates(),
    ensures
        s.drop_last().no_duplicates(),
{
    let t = s.drop_last();
    assert forall|i: int, j: int|
        0 <= i < t.len() && 0 <= j < t.len() && i != j implies t[i] != t[j] by {
        assert(t[i] == s[i] && t[j] == s[j]);
    }
}

/// Whether `p` occurs among the first `end` cells of the body.
fn body_prefix_contains(body: &Vec<Pos>, p: Pos, end: usize) -> (r: bool)
    requires
        end <= body@.len(),
    ensures
        r == exists|i: int| 0 <= i < end && body@[i] == p,
{
    let mut k: usize = 0;
    while k < end
        invariant
            k <= end <= body@.len(),
            forall|i: int| 0 <= i < k ==> body@[i] != p,
        decreases end - k,
    {
        if body[k] == p {
            return true;
        }
        k = k + 1;
    }
    false
}

impl Game {
    /// Puts a food on a cell drawn uniformly among the cells free of the
    /// snake, exactly the draw that sampling grid cells and rejecting
    /// occupied ones would make; with probability one in ten it is a bonus
    /// food with the full duration on its timer. A snake covering the whole
    /// grid leaves no free cell, and the food stays as it was — a state
    /// regular play cannot reach, since the game ends by collision first.
    pub fn place_food(&mut self)
        ensures
            final (self).snake.body@ == old(self).snake.body@,
            final (self).snake.direction == old(self).snake.direction,
            final (self).score == old(self).score,
            final (self).game_over == old(self).game_over,
            final (self).game_started == old(self).game_started,
            !grid_full(old(self).snake.body@) ==> freshly_placed(
                final (self).food,
                old(self).snake.body@,
            ),
            grid_full(old(self).snake.body@) ==> final (self).food == old(self).food,
    {
        let mut free: Vec<Pos> = Vec::new();
        let mut y: i32 = 0;
        while y < GRID_HEIGHT
            invariant
                0 <= y <= GRID_HEIGHT,
                same_state(*self, *old(self)),
                free@.len() <= y * (GRID_WIDTH as int),
                forall|i: int|
                    0 <= i < free@.len() ==> in_grid(#[trigger] free@[i])
                        && !self.snake.body@.contains(free@[i]),
                forall|p: Pos|
                    in_grid(p) && p.y < y ==> self.snake.body@.contains(p) || free@.contains(p),
            decreases GRID_HEIGHT - y,
        {
            let mut x: i32 = 0;
            while x < GRID_WIDTH
                invariant
                    0 <= x <= GRID_WIDTH,
                    0 <= y < GRID_HEIGHT,
                    same_state(*self, *old(self)),
                    free@.len() <= y * (GRID_WIDTH as int) + x,
                    forall|i: int|
                        0 <= i < free@.len() ==> in_grid(#[trigger] free@[i])
                            && !self.snake.body@.contains(free@[i]),
                    forall|p: Pos|
                        in_grid(p) && (p.y < y || (p.y == y && p.x < x))
                            ==> self.snake.body@.contains(p) || free@.contains(p),
                decreases GRID_WIDTH - x,
            {
                let p = Pos { x, y };
                let n = self.snake.body.len();
                let ghost free0 = free@;
                if !body_prefix_contains(&self.snake.body, p, n) {
                    free.push(p);
                    proof {
                        assert(free@[free@.len() - 1] == p);
                        assert forall|q: Pos| free0.contains(q) implies free@.contains(q) by {
                            let i = choose|i: int| 0 <= i < free0.len() && free0[i] == q;
                            assert(free@[i] == q);
                        }
                    }
                }
                assert(self.snake.body@.contains(p) || free@.contains(p));
                x = x + 1;
            }
            y = y + 1;
        }
        if free.len() == 0 {
            assert(grid_full(self.snake.body@)) by {
                assert forall|p: Pos| in_grid(p) implies self.snake.body@.contains(p) by {
                    assert(!free@.contains(p));
                }
            }
            return ;
        }
        let idx = sample_below(free.len() as i32);
        let p = free[idx as usize];
        assert(in_grid(p) && !old(self).snake.body@.contains(p));
        assert(!grid_full(old(self).snake.body@));
        let bonus = sample_one_in_ten();
        self.food = Food {
            position: p,
            is_bonus: bonus,
            timer_ms: if bonus {
                BONUS_DURATION_MS
            } else {
                0
            },
        };
    }

    /// A fresh game: a one-cell snake at the grid centre, idle and not yet
    /// started, score zero, and a freshly placed food.
    pub fn new() -> (g: Game)
        ensures
            g.wf(),
            fresh_game(g),
    {
        let mut body: Vec<Pos> = Vec::new();
        body.push(Pos { x: START_X, y: START_Y });
        let mut g = Game {
            snake: Snake { body, direction: Direction::Idle },
            food: Food { position: Pos { x: 0, y: 0 }, is_bonus: false, timer_ms: 0 },
            score: 0,
            game_over: false,
            game_started: false,
        };
        proof {
            let b = g.snake.body@;
            if grid_full(b) {
                assert(b.contains(Pos { x: 0, y: 0 }));
                assert(b.contains(Pos { x: 1, y: 0 }));
                assert(false);
            }
        }
        g.place_food();
        g
    }

    /// Discards the state and reinitialises it as `new` would.
    pub fn restart(&mut self)
        ensures
            final (self).wf(),
            fresh_game(*final (self)),
    {
        *self = Game::new();
    }

    /// Steers the snake. Ignored once the game is over, and when the input
    /// exactly reverses the current direction; otherwise the direction is set
    /// and the game counts as started.
    pub fn apply_input(&mut self, d: Direction)
        requires
            !(d is Idle),
        ensures
            input_rel(*old(self), d, *final (self)),
            old(self).wf() ==> final (self).wf(),
    {
        if self.game_over {
            return ;
        }
        if is_opposite(d, self.snake.direction) {
            return ;
        }
        self.snake.direction = d;
        self.game_started = true;
    }

    /// One simulation step, `dt_ms` milliseconds after the last. A finished
    /// or not-yet-started game is untouched. A bonus food's timer runs down
    /// and an expired one is replaced. Then, unless still idle, the head
    /// advances one cell: leaving the grid or landing on a non-tail body cell
    /// ends the game without moving; landing on the food grows the snake and
    /// scores; otherwise the tail is vacated. Well-formedness is kept, save
    /// for the food in the unreachable state where the snake covers the
    /// whole grid.
    pub fn tick(&mut self, dt_ms: u64)
        requires
            old(self).wf(),
        ensures
            tick_rel(*old(self), dt_ms, *final (self)),
            final (self).snake.wf(),
            !grid_full(final (self).snake.body@) ==> final (self).wf(),
    {
        if self.game_over || !self.game_started {
            return ;
        }
        let ghost pre = *old(self);
        proof {
            // the food's own cell is free of the snake, so the grid is not full
            assert(!pre.snake.body@.contains(pre.food.position));
            assert(!grid_full(pre.snake.body@));
        }
        if self.food.is_bonus {
            if dt_ms >= self.food.timer_ms {
                self.place_food();
            } else {
                self.food.timer_ms = self.food.timer_ms - dt_ms;
            }
        }
        let ghost f1 = self.food;
        assert(food_step_rel(pre, dt_ms, f1));
        match self.snake.direction {
            Direction::Idle => {
                return ;
            },
            _ => {},
        }
        let head = self.snake.body[0];
        let cand = step_pos(head, self.snake.direction);
        if !pos_in_grid(cand) {
            self.game_over = true;
            proof {
                assert(move_rel(pre, f1, *self));
            }
            return ;
        }
        let n = self.snake.body.len();
        if body_prefix_contains(&self.snake.body, cand, n - 1) {
            proof {
                assert(hits_body(pre.snake.body@, cand));
            }
            self.game_over = true;
            proof {
                assert(move_rel(pre, f1, *self));
            }
            return ;
        }
        proof {
            // bounds the score so that eating cannot overflow it
            lemma_grid_capacity(self.snake.body@);
        }
        self.snake.body.insert(0, cand);
        proof {
            assert(self.snake.body@ =~= seq![cand] + pre.snake.body@);
        }
        if cand == self.food.position {
            let bump: u32 = if self.food.is_bonus {
                BONUS_SCORE
            } else {
                NORMAL_SCORE
            };
            proof {
                // the candidate equals the food's cell, which is off the old body
                assert(!pre.snake.body@.contains(cand));
                lemma_prepend_no_dup(pre.snake.body@, cand);
            }
            self.score = self.score + bump;
            self.place_food();
            proof {
                assert(move_rel(pre, f1, *self));
            }
        } else {
            let ghost grown = self.snake.body@;
            let _ = self.snake.body.pop();
            proof {
                assert(self.snake.body@ =~= seq![cand] + pre.snake.body@.drop_last());
                lemma_drop_last_no_dup(pre.snake.body@);
                assert forall|i: int|
                    0 <= i < pre.snake.body@.drop_last().len() implies pre.snake.body@.drop_last()[i]
                    != cand by {
                    assert(pre.snake.body@[i] == pre.snake.body@.drop_last()[i]);
                }
                assert(!pre.snake.body@.drop_last().contains(cand));
                lemma_prepend_no_dup(pre.snake.body@.drop_last(), cand);
                assert(move_rel(pre, f1, *self));
            }
        }
    }
}

} // verus!
