//! Laws of the game, proved from the transition relations that the methods'
//! contracts establish: how the head moves, when the snake grows, what ends
//! the game, and that a finished game stays put.

use crate::game::{
    cand_of, expires, food_step_rel, freshly_placed, grid_full, hits_body, input_rel, move_rel,
    same_state, tick_rel, ticked_food, Food, Game, BONUS_SCORE, NORMAL_SCORE,
};
use crate::grid::{in_grid, opposite, step, Direction};
use vstd::prelude::*;

verus! {

/// A direction change that is not a reversal, followed by one tick whose move
/// stays on the grid and misses every non-tail body cell, moves the head by
/// exactly one cell in the chosen direction.
pub proof fn lemma_input_then_tick_moves_head(
    pre: Game,
    d: Direction,
    dt_ms: u64,
    mid: Game,
    post: Game,
)
    requires
        !pre.game_over,
        !(d is Idle),
        !opposite(d, pre.snake.direction),
        pre.snake.body@.len() >= 1,
        input_rel(pre, d, mid),
        tick_rel(mid, dt_ms, post),
        in_grid(step(pre.snake.head(), d)),
        !hits_body(pre.snake.body@, step(pre.snake.head(), d)),
    ensures
        post.snake.body@.len() >= 1,
        post.snake.head() == step(pre.snake.head(), d),
{
    let cand = step(pre.snake.head(), d);
    assert(mid.snake.body@ == pre.snake.body@ && mid.snake.direction == d);
    assert(cand_of(mid) == cand);
    if !expires(mid.food, dt_ms) {
        assert(move_rel(mid, ticked_food(mid.food, dt_ms), post));
    } else {
        let f1 = choose|f1: Food|
            #[trigger] move_rel(mid, f1, post) && freshly_placed(f1, mid.snake.body@);
        assert(move_rel(mid, f1, post));
    }
}

/// An input that exactly reverses the current direction changes nothing; in
/// particular the direction stays what it was.
pub proof fn lemma_reversal_rejected(pre: Game, d: Direction, post: Game)
    requires
        opposite(d, pre.snake.direction),
        input_rel(pre, d, post),
    ensures
        same_state(post, pre),
        post.snake.direction == pre.snake.direction,
{
}

/// On a tick whose move lands exactly on the food, the snake grows by one
/// cell and the score rises by the bonus value for a bonus food and by the
/// normal value otherwise.
pub proof fn lemma_growth_on_food(pre: Game, dt_ms: u64, post: Game)
    requires
        !pre.game_over,
        pre.game_started,
        !(pre.snake.direction is Idle),
        !expires(pre.food, dt_ms),
        in_grid(cand_of(pre)),
        !hits_body(pre.snake.body@, cand_of(pre)),
        cand_of(pre) == pre.food.position,
        tick_rel(pre, dt_ms, post),
    ensures
        post.snake.body@.len() == pre.snake.body@.len() + 1,
        post.score == pre.score + (if pre.food.is_bonus {
            BONUS_SCORE as int
        } else {
            NORMAL_SCORE as int
        }),
{
    assert(move_rel(pre, ticked_food(pre.food, dt_ms), post));
}

/// On a tick whose move stays on the grid, misses the body and does not land
/// on the food, the snake's length is unchanged: the new head is prepended
/// and the tail is vacated, and the score is unchanged.
pub proof fn lemma_steady_length_off_food(pre: Game, dt_ms: u64, post: Game)
    requires
        !pre.game_over,
        pre.game_started,
        !(pre.snake.direction is Idle),
        !expires(pre.food, dt_ms),
        in_grid(cand_of(pre)),
        !hits_body(pre.snake.body@, cand_of(pre)),
        cand_of(pre) != pre.food.position,
        pre.snake.body@.len() >= 1,
        tick_rel(pre, dt_ms, post),
    ensures
        post.snake.body@.len() == pre.snake.body@.len(),
        post.snake.body@ == seq![cand_of(pre)] + pre.snake.body@.drop_last(),
        post.score == pre.score,
{
    assert(move_rel(pre, ticked_food(pre.food, dt_ms), post));
}

/// A move that would leave the grid ends the game and commits nothing: the
/// body and the score stay exactly as they were.
pub proof fn lemma_wall_ends_game(pre: Game, dt_ms: u64, post: Game)
    requires
        !pre.game_over,
        pre.game_started,
        !(pre.snake.direction is Idle),
        !in_grid(cand_of(pre)),
        tick_rel(pre, dt_ms, post),
    ensures
        post.game_over,
        post.snake.body@ == pre.snake.body@,
        post.score == pre.score,
{
    if !expires(pre.food, dt_ms) {
        assert(move_rel(pre, ticked_food(pre.food, dt_ms), post));
    } else {
        let f1 = choose|f1: Food|
            #[trigger] move_rel(pre, f1, post) && freshly_placed(f1, pre.snake.body@);
        assert(move_rel(pre, f1, post));
    }
}

/// A move whose target cell is occupied by a body cell other than the tail
/// ends the game and commits nothing: the body and the score stay exactly as
/// they were.
pub proof fn lemma_self_collision_ends_game(pre: Game, dt_ms: u64, post: Game)
    requires
        !pre.game_over,
        pre.game_started,
        !(pre.snake.direction is Idle),
        hits_body(pre.snake.body@, cand_of(pre)),
        tick_rel(pre, dt_ms, post),
    ensures
        post.game_over,
        post.snake.body@ == pre.snake.body@,
        post.score == pre.score,
{
    if !expires(pre.food, dt_ms) {
        assert(move_rel(pre, ticked_food(pre.food, dt_ms), post));
    } else {
        let f1 = choose|f1: Food|
            #[trigger] move_rel(pre, f1, post) && freshly_placed(f1, pre.snake.body@);
        assert(move_rel(pre, f1, post));
    }
}

/// Once the game is over, a tick changes nothing, and the game stays over:
/// ticking any number of further times leaves the state as it is.
pub proof fn lemma_game_over_is_final(pre: Game, dt_ms: u64, post: Game)
    requires
        pre.game_over,
        tick_rel(pre, dt_ms, post),
    ensures
        same_state(post, pre),
        post.game_over,
{
}

/// A bonus food whose timer runs out within the tick is replaced within that
/// same tick: afterwards the food is freshly placed off the snake — unless
/// the snake covers the whole grid, where no cell is free.
pub proof fn lemma_expired_bonus_replaced(pre: Game, dt_ms: u64, post: Game)
    requires
        !pre.game_over,
        pre.game_started,
        pre.snake.body@.len() >= 1,
        expires(pre.food, dt_ms),
        tick_rel(pre, dt_ms, post),
    ensures
        !grid_full(post.snake.body@) ==> freshly_placed(post.food, post.snake.body@),
{
    if pre.snake.direction is Idle {
        assert(food_step_rel(pre, dt_ms, post.food));
        assert(freshly_placed(post.food, pre.snake.body@));
    } else {
        let f1 = choose|f1: Food|
            #[trigger] move_rel(pre, f1, post) && freshly_placed(f1, pre.snake.body@);
        assert(move_rel(pre, f1, post));
        let cand = cand_of(pre);
        if !in_grid(cand) || hits_body(pre.snake.body@, cand) {
            assert(post.snake.body@ == pre.snake.body@ && post.food == f1);
        } else if cand == f1.position {
        } else {
            assert(post.food == f1);
            if post.snake.body@.contains(f1.position) {
                let i = choose|i: int|
                    0 <= i < post.snake.body@.len() && post.snake.body@[i] == f1.position;
                if i == 0 {
                    assert(post.snake.body@[0] == cand);
                } else {
                    assert(post.snake.body@[i] == pre.snake.body@.drop_last()[i - 1]);
                    assert(pre.snake.body@[i - 1] == f1.position);
                    assert(pre.snake.body@.contains(pre.snake.body@[i - 1]));
                }
                assert(false);
            }
        }
    }
}

} // verus!
