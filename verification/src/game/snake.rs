//! The snake itself: its body, movement, collision checks, and the food it
//! chases.  Picking a fresh food cell uses the process's random number
//! generator behind a small trusted wrapper; everything around that call is
//! verified for every value the generator may give.

use vstd::prelude::*;
use std::collections::VecDeque;
use crate::game::GameState;
use crate::game::game_direction::Direction;

verus! {

/// A cell of the canvas.
#[derive(PartialEq, Eq, Structural, Clone, Copy, Debug)]
pub struct Position {
    pub x: i32,
    pub y: i32,
}

/// The outcome of one movement step.
#[derive(PartialEq, Eq, Structural, Clone, Copy, Debug)]
pub enum MoveOutcome {
    /// The snake moved one cell ahead.
    Moved,
    /// The snake moved onto the food and grew by one.
    Ate,
    /// The step would leave the canvas; the game suspends instead.
    OutOfBounds,
    /// The step would hit the snake's own body; the game suspends instead.
    SelfCollision,
}

/// Where one step in direction `dir` from `pos` ends.
pub open spec fn predicted_spec(pos: Position, dir: Direction) -> Position {
    (Position {
        x: (pos.x + dir.spec_to_vec().0) as i32,
        y: (pos.y + dir.spec_to_vec().1) as i32,
    })
}

/// Whether `pos` lies outside a canvas of `w` by `h` cells.
pub open spec fn out_of_bounds_spec(pos: Position, w: int, h: int) -> bool {
    pos.x < 0 || pos.x as int >= w || pos.y < 0 || pos.y as int >= h
}

/// A cell the food may occupy: inside the canvas with a one-cell margin at
/// the low edges, and not on the snake's body.
pub open spec fn valid_food(p: Position, w: int, h: int, body: Seq<Position>) -> bool {
    1 <= p.x && (p.x as int) < w && 1 <= p.y && (p.y as int) < h && !body.contains(p)
}

/// Whether any cell is free for food.
pub open spec fn free_exists(w: int, h: int, body: Seq<Position>) -> bool {
    exists|p: Position| valid_food(p, w, h, body)
}

/// The direction after one steering request, `None` meaning no request.
pub open spec fn spec_steer(current: Direction, input: Option<Direction>) -> Direction {
    match input {
        Some(d) => match current.spec_apply(d) {
            Some(nd) => nd,
            None => current,
        },
        None => current,
    }
}

/// How one movement step relates the snake and the game state before and
/// after.  Stepping out of bounds or into the body leaves the snake alone
/// and suspends the game; stepping onto the food grows the body and places
/// new food on a free cell (if one exists); otherwise the body advances by
/// one cell.
pub open spec fn move_rel(
    pre: Snake,
    post: Snake,
    pre_s: GameState,
    post_s: GameState,
    w: int,
    h: int,
) -> bool {
    let next = predicted_spec(pre.spec_head_position(), pre.spec_head_direction());
    if out_of_bounds_spec(next, w, h) || (!out_of_bounds_spec(next, w, h)
        && pre.spec_body().contains(next)) {
        post == pre && post_s.spec_is_suspend() && post_s.spec_is_runing()
            == pre_s.spec_is_runing() && post_s.spec_score() == pre_s.spec_score()
            && post_s.spec_historic_score() == pre_s.spec_historic_score()
    } else {
        post_s == pre_s && post.spec_head_position() == next && post.spec_head_direction()
            == pre.spec_head_direction() && if next == pre.spec_food() {
            post.spec_body() == seq![next] + pre.spec_body() && post.spec_len() == pre.spec_len()
                + 1 && (free_exists(w, h, post.spec_body()) ==> valid_food(
                post.spec_food(),
                w,
                h,
                post.spec_body(),
            )) && (!free_exists(w, h, post.spec_body()) ==> post.spec_food() == pre.spec_food())
        } else {
            post.spec_body() == (seq![next] + pre.spec_body()).drop_last() && post.spec_len()
                == pre.spec_len() && post.spec_food() == pre.spec_food()
        }
    }
}

/// Re-pointing a snake in the direction it already has changes nothing.
pub proof fn lemma_with_direction_self(s: Snake)
    ensures
        s.with_direction(s.spec_head_direction()) == s,
{
}

/// Re-pointing a snake changes its direction and nothing else; callers
/// outside this module need this to read `move_rel` on a steered snake.
pub proof fn lemma_with_direction_views(s: Snake, d: Direction)
    ensures
        s.with_direction(d).spec_head_direction() == d,
        s.with_direction(d).spec_head_position() == s.spec_head_position(),
        s.with_direction(d).spec_body() == s.spec_body(),
        s.with_direction(d).spec_len() == s.spec_len(),
        s.with_direction(d).spec_food() == s.spec_food(),
{
}

/// The snake: its body cells (head first), head position and direction,
/// length, and the food's position.
pub struct Snake {
    body: VecDeque<Position>,
    head_position: Position,
    head_direction: Direction,
    snake_body_length: usize,
    snak_food_position: Position,
}

/// Relies on rand's `thread_rng` and `Rng::gen_range`: a number drawn
/// uniformly from `0..n`; nothing is assumed beyond the range.
#[verifier::external_body]
fn random_below(n: usize) -> (r: usize)
    requires
        n >= 1,
    ensures
        r < n,
{
    rand::Rng::gen_range(&mut rand::thread_rng(), 0..n)
}

impl Snake {
    /// The body cells, head first.
    pub closed spec fn spec_body(&self) -> Seq<Position> {
        self.body@
    }

    /// Where the head sits.
    pub closed spec fn spec_head_position(&self) -> Position {
        self.head_position
    }

    /// Where the head points.
    pub closed spec fn spec_head_direction(&self) -> Direction {
        self.head_direction
    }

    /// How long the snake is.
    pub closed spec fn spec_len(&self) -> int {
        self.snake_body_length as int
    }

    /// Where the food sits.
    pub closed spec fn spec_food(&self) -> Position {
        self.snak_food_position
    }

    /// The same snake pointed in direction `d`.
    pub closed spec fn with_direction(&self, d: Direction) -> Snake {
        (Snake { head_direction: d, ..*self })
    }

    /// The recorded length is the body's length, the body is never empty,
    /// and the head stays in a comfortable coordinate range.
    pub closed spec fn inv(&self) -> bool {
        &&& self.body@.len() == self.snake_body_length
        &&& self.body@.len() >= 1
        &&& 0 <= self.head_position.x <= 1000000
        &&& 0 <= self.head_position.y <= 1000000
    }

    /// A new snake: three cells long, lying at row five and pointing
    /// rightwards, with the food below its head.
    pub fn new() -> (s: Self)
        ensures
            s.inv(),
            s.spec_head_position() == (Position { x: 5, y: 5 }),
            s.spec_head_direction() == Direction::Right,
            s.spec_len() == 3,
            s.spec_food() == (Position { x: 5, y: 8 }),
            s.spec_body() == seq![
                Position { x: 5, y: 5 },
                Position { x: 4, y: 5 },
                Position { x: 3, y: 5 },
            ],
    {
        let head_position = Position { x: 5, y: 5 };
        let mut body: VecDeque<Position> = VecDeque::new();
        body.push_back(Position { x: 5, y: 5 });
        body.push_back(Position { x: 4, y: 5 });
        body.push_back(Position { x: 3, y: 5 });
        let snake = Snake {
            body,
            head_direction: Direction::Right,
            head_position,
            snake_body_length: 3,
            snak_food_position: Position { x: 5, y: 8 },
        };
        proof {
            assert(snake.spec_body() =~= seq![
                Position { x: 5, y: 5 },
                Position { x: 4, y: 5 },
                Position { x: 3, y: 5 },
            ]);
        }
        snake
    }

    /// Where one step from `snake_head_current_position` in
    /// `snake_head_current_direction` ends.
    pub fn predicted_position(
        &self,
        snake_head_current_position: Position,
        snake_head_current_direction: Direction,
    ) -> (r: Position)
        requires
            i32::MIN < snake_head_current_position.x < i32::MAX,
            i32::MIN < snake_head_current_position.y < i32::MAX,
        ensures
            r == predicted_spec(snake_head_current_position, snake_head_current_direction),
    {
        let (x, y) = snake_head_current_direction.to_vec();
        Position {
            x: x + snake_head_current_position.x,
            y: y + snake_head_current_position.y,
        }
    }

    /// Whether the next head position leaves the canvas.
    pub fn is_out_of_bounds(
        &self,
        snake_head_next_position: &Position,
        canvas_width: usize,
        canvas_height: usize,
    ) -> (r: bool)
        requires
            canvas_width <= i32::MAX,
            canvas_height <= i32::MAX,
        ensures
            r == out_of_bounds_spec(
                *snake_head_next_position,
                canvas_width as int,
                canvas_height as int,
            ),
    {
        snake_head_next_position.x < 0 || snake_head_next_position.x >= canvas_width as i32
            || snake_head_next_position.y < 0 || snake_head_next_position.y >= canvas_height as i32
    }

    /// Whether the next head position touches one of the body's cells.
    pub fn is_touch_self_body(
        &self,
        snake_head_next_position: &Position,
        body: &VecDeque<Position>,
    ) -> (r: bool)
        ensures
            r == body@.contains(*snake_head_next_position),
    {
        let mut i: usize = 0;
        while i < body.len()
            invariant
                i <= body@.len(),
                forall|j: int| 0 <= j < i ==> body@[j] != *snake_head_next_position,
            decreases body@.len() - i,
        {
            if body[i] == *snake_head_next_position {
                return true;
            }
            i = i + 1;
        }
        proof {
            assert(!body@.contains(*snake_head_next_position));
        }
        false
    }

    /// Take one step in the current direction: suspend the game on a wall
    /// or self collision, grow and reseat the food when the step lands on
    /// it, and otherwise advance one cell.
    pub fn snake_move(
        &mut self,
        game_state: &mut GameState,
        canvas_width: usize,
        canvas_height: usize,
    ) -> (r: MoveOutcome)
        requires
            old(self).inv(),
            2 <= canvas_width <= 1000000,
            2 <= canvas_height <= 1000000,
        ensures
            final(self).inv(),
            move_rel(
                *old(self),
                *final(self),
                *old(game_state),
                *final(game_state),
                canvas_width as int,
                canvas_height as int,
            ),
            r == MoveOutcome::OutOfBounds <==> out_of_bounds_spec(
                predicted_spec(old(self).spec_head_position(), old(self).spec_head_direction()),
                canvas_width as int,
                canvas_height as int,
            ),
    {
        let next_position = self.predicted_position(self.head_position, self.head_direction);
        if self.is_out_of_bounds(&next_position, canvas_width, canvas_height) {
            game_state.set_game_is_suspend(true);
            MoveOutcome::OutOfBounds
        } else if self.is_touch_self_body(&next_position, &self.body) {
            game_state.set_game_is_suspend(true);
            MoveOutcome::SelfCollision
        } else {
            self.body.push_front(next_position);
            let grown_len: usize = self.body.len();
            self.set_head_position(next_position);
            if next_position == self.snak_food_position {
                proof {
                    assert(self.snake_body_length + 1 == grown_len as int);
                }
                self.snake_body_length = self.snake_body_length + 1;
                self.generate_food(canvas_width, canvas_height);
                MoveOutcome::Ate
            } else {
                self.body.pop_back();
                proof {
                    assert(self.body@ =~= (seq![next_position] + old(self).body@).drop_last());
                }
                MoveOutcome::Moved
            }
        }
    }

    /// Put the food on a cell the body does not cover, chosen at random
    /// among all such cells; when the body covers every candidate cell the
    /// food stays where it was.
    fn generate_food(&mut self, canvas_width: usize, canvas_height: usize)
        requires
            2 <= canvas_width <= 1000000,
            2 <= canvas_height <= 1000000,
        ensures
            final(self).spec_body() == old(self).spec_body(),
            final(self).spec_head_position() == old(self).spec_head_position(),
            final(self).spec_head_direction() == old(self).spec_head_direction(),
            final(self).spec_len() == old(self).spec_len(),
            free_exists(canvas_width as int, canvas_height as int, old(self).spec_body())
                ==> valid_food(
                final(self).spec_food(),
                canvas_width as int,
                canvas_height as int,
                final(self).spec_body(),
            ),
            !free_exists(canvas_width as int, canvas_height as int, old(self).spec_body())
                ==> final(self).spec_food() == old(self).spec_food(),
    {
        let mut free: Vec<Position> = Vec::new();
        let mut x: usize = 1;
        while x < canvas_width
            invariant
                1 <= x <= canvas_width,
                canvas_width <= 1000000,
                canvas_height <= 1000000,
                2 <= canvas_height,
                self == old(self),
                forall|k: int|
                    0 <= k < free@.len() ==> valid_food(
                        #[trigger] free@[k],
                        canvas_width as int,
                        canvas_height as int,
                        self.body@,
                    ),
                free@.len() == 0 ==> forall|p: Position|
                    1 <= p.x && (p.x as int) < x ==> !(#[trigger] valid_food(
                        p,
                        canvas_width as int,
                        canvas_height as int,
                        self.body@,
                    )),
            decreases canvas_width - x,
        {
            let mut y: usize = 1;
            while y < canvas_height
                invariant
                    1 <= x < canvas_width,
                    1 <= y <= canvas_height,
                    canvas_width <= 1000000,
                    canvas_height <= 1000000,
                    self == old(self),
                    forall|k: int|
                        0 <= k < free@.len() ==> valid_food(
                            #[trigger] free@[k],
                            canvas_width as int,
                            canvas_height as int,
                            self.body@,
                        ),
                    free@.len() == 0 ==> forall|p: Position|
                        1 <= p.x && (p.x as int) < x ==> !(#[trigger] valid_food(
                            p,
                            canvas_width as int,
                            canvas_height as int,
                            self.body@,
                        )),
                    free@.len() == 0 ==> forall|p: Position|
                        (p.x as int) == x && 1 <= p.y && (p.y as int) < y ==> !(#[trigger] valid_food(
                            p,
                            canvas_width as int,
                            canvas_height as int,
                            self.body@,
                        )),
                decreases canvas_height - y,
            {
                let candidate = Position { x: x as i32, y: y as i32 };
                let mut on_body = false;
                let mut i: usize = 0;
                while i < self.body.len()
                    invariant
                        i <= self.body@.len(),
                        on_body == exists|j: int| 0 <= j < i && self.body@[j] == candidate,
                    decreases self.body@.len() - i,
                {
                    if self.body[i] == candidate {
                        on_body = true;
                    }
                    i = i + 1;
                }
                if !on_body {
                    proof {
                        assert(!self.body@.contains(candidate));
                    }
                    free.push(candidate);
                }
                y = y + 1;
            }
            x = x + 1;
        }
        if free.len() == 0 {
            proof {
                assert(!free_exists(canvas_width as int, canvas_height as int, self.body@)) by {
                    assert forall|p: Position|
                        !(#[trigger] valid_food(
                            p,
                            canvas_width as int,
                            canvas_height as int,
                            self.body@,
                        )) by {}
                }
            }
            return ;
        }
        let idx = random_below(free.len());
        self.snak_food_position = free[idx];
    }

    /// The body cells, head first.
    pub fn get_snake_body(&self) -> (r: &VecDeque<Position>)
        ensures
            r@ == self.spec_body(),
    {
        &self.body
    }

    /// Where the head points.
    pub fn get_head_direction(&self) -> (r: Direction)
        ensures
            r == self.spec_head_direction(),
    {
        self.head_direction
    }

    /// Point the head in a new direction.
    pub fn set_head_direction(&mut self, new_direction: Direction)
        ensures
            *final(self) == old(self).with_direction(new_direction),
            final(self).inv() == old(self).inv(),
    {
        self.head_direction = new_direction;
    }

    /// Move the head to a new position.
    pub fn set_head_position(&mut self, new_position: Position)
        ensures
            final(self).spec_head_position() == new_position,
            final(self).spec_body() == old(self).spec_body(),
            final(self).spec_head_direction() == old(self).spec_head_direction(),
            final(self).spec_len() == old(self).spec_len(),
            final(self).spec_food() == old(self).spec_food(),
    {
        self.head_position = new_position;
    }

    /// How long the snake is.
    pub fn get_snake_body_length(&self) -> (r: usize)
        ensures
            r as int == self.spec_len(),
    {
        self.snake_body_length
    }

    /// Where the food sits.
    pub fn get_snak_food_position(&self) -> (r: Position)
        ensures
            r == self.spec_food(),
    {
        self.snak_food_position
    }
}

} // verus!
