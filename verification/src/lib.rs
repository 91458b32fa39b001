//! Core of a classic snake arcade game: a snake moves on a bounded, wrapping
//! grid, grows when it eats an apple, and dies when it collides with itself.
//! This crate holds the game-state machine and the snake geometry; drawing a
//! window and polling the keyboard are left to the caller, who drives
//! [`Game::update`] once per frame and [`Game::update_move_dir`] per key event.

pub mod snake;

use snake::{body_contains_pos, collision_of, in_grid, moved_body, opposite_dir};
use snake::{Block, Collision, Direction, Snake};
use std::collections::VecDeque;
use vstd::prelude::*;

verus! {

/// Milliseconds between two forced snake steps while the game is `Moving`.
pub const STEP_TIME_MS: u64 = 200;

/// The game's state machine: idle before the first input, stepping in some
/// direction, growing after an apple was reached, or terminally dead.
#[derive(Clone, Copy, Debug, PartialEq, Eq, Structural)]
pub enum GameState {
    Waiting,
    Moving(Direction),
    AteApple,
    Dead,
}

/// A whole game: grid size, the snake, the state machine, the countdown until
/// the next forced step, the apple's cell, and the score.
#[derive(Debug)]
pub struct Game {
    pub game_size: (i32, i32),
    pub snake: Snake,
    pub state: GameState,
    pub interval_ms: u64,
    pub apple_loc: (i32, i32),
    pub points: i32,
}

/// `p` lies in the apple region: one cell of margin away from every border.
pub open spec fn in_margin(p: (i32, i32), game_size: (i32, i32)) -> bool {
    1 <= p.0 < game_size.0 - 1 && 1 <= p.1 < game_size.1 - 1
}

/// Some cell of the apple region is not occupied by `body`.
pub open spec fn free_margin_cell_exists(body: Seq<Block>, game_size: (i32, i32)) -> bool {
    exists|x: int, y: int|
        1 <= x < game_size.0 - 1 && 1 <= y < game_size.1 - 1 && !body_contains_pos(body, x, y)
}

/// One completed step of the snake while `Moving` along `d`: the body moves,
/// the heading is committed, the countdown restarts, and the state follows
/// from what the new head ran into.
pub open spec fn step_outcome(pre: Game, d: Direction, post: Game) -> bool {
    let w = pre.game_size.0 as int;
    let h = pre.game_size.1 as int;
    let new_body = moved_body(pre.snake.body@, d, w, h);
    &&& post.game_size == pre.game_size
    &&& post.snake.body@ == new_body
    &&& post.snake.prev_dir == d
    &&& post.snake.game_size == pre.snake.game_size
    &&& post.apple_loc == pre.apple_loc
    &&& post.points == pre.points
    &&& post.interval_ms == STEP_TIME_MS
    &&& post.state == (match collision_of(new_body, pre.apple_loc) {
        Collision::Apple => GameState::AteApple,
        Collision::Snake => GameState::Dead,
        Collision::Nothing => GameState::Moving(d),
    })
}

/// The deferred reaction to an eaten apple: the score rises by one, the body
/// grows by a duplicated tail segment, a fresh apple lies in the margin region
/// off the snake, and stepping resumes along the committed heading.
pub open spec fn growth_outcome(pre: Game, post: Game) -> bool {
    &&& post.game_size == pre.game_size
    &&& post.points == pre.points + 1
    &&& post.snake.body@ == pre.snake.body@.push(pre.snake.body@.last())
    &&& post.snake.prev_dir == pre.snake.prev_dir
    &&& post.snake.game_size == pre.snake.game_size
    &&& post.interval_ms == pre.interval_ms
    &&& post.state == GameState::Moving(pre.snake.prev_dir)
    &&& in_margin(post.apple_loc, pre.game_size)
    &&& !body_contains_pos(post.snake.body@, post.apple_loc.0 as int, post.apple_loc.1 as int)
}

/// How one `update` call with elapsed time `delta_ms` relates the game before
/// to the game after: `Waiting` and `Dead` are no-ops, `Moving` counts the
/// interval down and takes at most one step, `AteApple` applies the growth.
pub open spec fn update_rel(pre: Game, delta_ms: u64, post: Game) -> bool {
    match pre.state {
        GameState::Waiting => post == pre,
        GameState::Dead => post == pre,
        GameState::Moving(d) => if pre.interval_ms > delta_ms {
            post == (Game { interval_ms: (pre.interval_ms - delta_ms) as u64, ..pre })
        } else {
            step_outcome(pre, d, post)
        },
        GameState::AteApple => growth_outcome(pre, post),
    }
}

/// How one `update_move_dir` call relates the game before to the game after:
/// a reversal of the committed heading is ignored, otherwise the request takes
/// effect exactly in the `Waiting` and `Moving` states.
pub open spec fn move_dir_rel(pre: Game, dir: Direction, post: Game) -> bool {
    &&& post.snake == pre.snake
    &&& post.game_size == pre.game_size
    &&& post.apple_loc == pre.apple_loc
    &&& post.points == pre.points
    &&& post.interval_ms == pre.interval_ms
    &&& post.state == (if dir == opposite_dir(pre.snake.prev_dir) {
        pre.state
    } else if pre.state is Moving || pre.state is Waiting {
        GameState::Moving(dir)
    } else {
        pre.state
    })
}

/// How many random draws the apple placement makes before it falls back to a
/// deterministic scan for a free cell.
pub const RESAMPLE_TRIES: u32 = 64;

/// The grid sizes a game can be built on: the snake's three initial segments
/// fit left of the centered head, and the apple region holds more cells than
/// the snake, so a free cell always exists at the start.
pub open spec fn grid_has_capacity(width: i32, height: i32) -> bool {
    &&& 4 <= width
    &&& 3 <= height
    &&& (width - 2) * (height - 2) > 3
}

/// Relies on rand::Rng::gen_range over rand::thread_rng: a draw from a
/// nonempty half-open range lies in that range (it panics on an empty one).
#[verifier::external_body]
fn random_in_range(lo: i32, hi: i32) -> (r: i32)
    requires
        lo < hi,
    ensures
        lo <= r < hi,
{
    rand::Rng::gen_range(&mut rand::thread_rng(), lo..hi)
}

/// Growing by a duplicate of the tail segment occupies no new cell.
pub proof fn lemma_push_tail_preserves_cells(body: Seq<Block>)
    requires
        body.len() >= 1,
    ensures
        forall|x: int, y: int|
            #[trigger] body_contains_pos(body.push(body.last()), x, y) <==> body_contains_pos(
                body,
                x,
                y,
            ),
{
    let grown = body.push(body.last());
    assert forall|x: int, y: int| #[trigger]
        body_contains_pos(grown, x, y) implies body_contains_pos(body, x, y) by {
        let i = choose|i: int| 0 <= i < grown.len() && grown[i].x == x && grown[i].y == y;
        if i < body.len() {
            assert(body[i].x == x && body[i].y == y);
        } else {
            assert(grown[i] == body[body.len() - 1]);
            assert(body[body.len() - 1].x == x && body[body.len() - 1].y == y);
        }
    }
    assert forall|x: int, y: int|
        body_contains_pos(body, x, y) implies #[trigger] body_contains_pos(grown, x, y) by {
        let i = choose|i: int| 0 <= i < body.len() && body[i].x == x && body[i].y == y;
        assert(grown[i] == body[i]);
    }
}

impl Game {
    /// The game's invariant: a well-formed snake on this game's grid, bounds
    /// that leave room for the apple margin, and an apple on the grid.
    pub open spec fn wf(self) -> bool {
        &&& self.snake.wf()
        &&& self.snake.game_size == self.game_size
        &&& 3 <= self.game_size.0
        &&& 3 <= self.game_size.1
        &&& 0 <= self.apple_loc.0 < self.game_size.0
        &&& 0 <= self.apple_loc.1 < self.game_size.1
    }

    /// Assembles a game from explicitly given parts, unchanged.
    pub fn new_constructed(
        game_size: (i32, i32),
        snake: Snake,
        state: GameState,
        interval_ms: u64,
        apple_loc: (i32, i32),
        points: i32,
    ) -> (g: Game)
        ensures
            g == (Game { game_size, snake, state, interval_ms, apple_loc, points }),
    {
        Game { game_size, snake, state, interval_ms, apple_loc, points }
    }

    /// Builds a game on a `width` by `height` grid: a centered three-segment
    /// snake heading `Right`, one apple off the snake, no points, and the
    /// state machine `Waiting` for the first input. Grids without the
    /// capacity for snake and apple are rejected.
    pub fn new(width: i32, height: i32) -> (r: Option<Game>)
        ensures
            r is Some <==> grid_has_capacity(width, height),
            r matches Some(g) ==> {
                &&& g.wf()
                &&& g.game_size == (width, height)
                &&& g.state is Waiting
                &&& g.interval_ms == 0
                &&& g.points == 0
                &&& g.snake.prev_dir == Direction::Right
                &&& g.snake.body@.len() == 3
                &&& forall|i: int|
                    0 <= i < 3 ==> g.snake.body@[i] == (Block {
                        x: (width / 2 - i) as i32,
                        y: (height / 2) as i32,
                    })
                &&& in_margin(g.apple_loc, (width, height))
                &&& !body_contains_pos(g.snake.body@, g.apple_loc.0 as int, g.apple_loc.1 as int)
            },
    {
        if width < 4 || height < 3 {
            return None;
        }
        proof {
            assert(0 <= (width as i64 - 2) * (height as i64 - 2) <= 0x4000_0000_0000_0000i64)
                by (nonlinear_arith)
                requires
                    2 <= width as i64 - 2 <= 0x8000_0000i64,
                    1 <= height as i64 - 2 <= 0x8000_0000i64,
            ;
        }
        let usable = (width as i64 - 2) * (height as i64 - 2);
        if usable <= 3 {
            return None;
        }
        let snake = Snake::init_snake(3, Direction::Right, (width, height));
        proof {
            Game::lemma_initial_free_cell(width, height, snake.body@);
        }
        let apple_loc = Game::generate_random_apple_location((width, height), snake.get_body());
        Some(
            Game {
                game_size: (width, height),
                apple_loc,
                snake,
                state: GameState::Waiting,
                interval_ms: 0,
                points: 0,
            },
        )
    }

    /// On a grid with capacity, the freshly initialized snake leaves at least
    /// one cell of the apple region unoccupied.
    proof fn lemma_initial_free_cell(width: i32, height: i32, body: Seq<Block>)
        requires
            grid_has_capacity(width, height),
            body.len() == 3,
            forall|i: int|
                0 <= i < 3 ==> body[i] == (Block {
                    x: (width / 2 - i) as i32,
                    y: (height / 2) as i32,
                }),
        ensures
            free_margin_cell_exists(body, (width, height)),
    {
        let w = width as int;
        let h = height as int;
        let cx = w / 2;
        let cy = h / 2;
        if h >= 4 {
            // every segment sits on row cy >= 2, so the cell (1, 1) is free
            assert(!body_contains_pos(body, 1, 1)) by {
                if body_contains_pos(body, 1, 1) {
                    let i = choose|i: int| 0 <= i < body.len() && body[i].x == 1 && body[i].y == 1;
                    assert(body[i] == (Block { x: (cx - i) as i32, y: cy as i32 }));
                }
            }
            assert(free_margin_cell_exists(body, (width, height)));
        } else {
            // height == 3: capacity forces width >= 6, and every segment sits
            // left of the cell (cx + 1, 1), which is therefore free
            assert((w - 2) * (h - 2) == w - 2) by (nonlinear_arith)
                requires
                    h == 3,
            ;
            assert(w >= 6);
            assert(!body_contains_pos(body, cx + 1, 1)) by {
                if body_contains_pos(body, cx + 1, 1) {
                    let i = choose|i: int|
                        0 <= i < body.len() && body[i].x == cx + 1 && body[i].y == 1;
                    assert(body[i] == (Block { x: (cx - i) as i32, y: cy as i32 }));
                }
            }
            assert(free_margin_cell_exists(body, (width, height)));
        }
    }

    /// Picks a cell of the apple region that no segment of `snake_body`
    /// occupies: a bounded number of uniform random draws, then, should they
    /// all land on the snake, the first free cell in scanning order.
    pub fn generate_random_apple_location(game_size: (i32, i32), snake_body: &VecDeque<Block>) -> (r:
        (i32, i32))
        requires
            3 <= game_size.0,
            3 <= game_size.1,
            free_margin_cell_exists(snake_body@, game_size),
        ensures
            in_margin(r, game_size),
            !body_contains_pos(snake_body@, r.0 as int, r.1 as int),
    {
        let mut x = random_in_range(1, game_size.0 - 1);
        let mut y = random_in_range(1, game_size.1 - 1);
        let mut hit = Snake::intersects_body(snake_body, (x, y));
        let mut attempts: u32 = 0;
        while hit && attempts < RESAMPLE_TRIES
            invariant
                3 <= game_size.0,
                3 <= game_size.1,
                1 <= x < game_size.0 - 1,
                1 <= y < game_size.1 - 1,
                hit == body_contains_pos(snake_body@, x as int, y as int),
                attempts <= RESAMPLE_TRIES,
            decreases RESAMPLE_TRIES - attempts,
        {
            x = random_in_range(1, game_size.0 - 1);
            y = random_in_range(1, game_size.1 - 1);
            hit = Snake::intersects_body(snake_body, (x, y));
            attempts = attempts + 1;
        }
        if hit {
            match Game::find_free_margin_cell(game_size, snake_body) {
                Some(p) => p,
                None => {
                    // a free cell exists by the precondition, so the scan
                    // cannot come back empty
                    proof {
                        assert(false);
                    }
                    (1, 1)
                },
            }
        } else {
            (x, y)
        }
    }

    /// The first cell of the apple region, in column-by-column scanning
    /// order, that no segment of `body` occupies; `None` when the snake
    /// covers the whole region.
    fn find_free_margin_cell(game_size: (i32, i32), body: &VecDeque<Block>) -> (r: Option<
        (i32, i32),
    >)
        requires
            3 <= game_size.0,
            3 <= game_size.1,
        ensures
            r is Some <==> free_margin_cell_exists(body@, game_size),
            r matches Some(p) ==> in_margin(p, game_size) && !body_contains_pos(
                body@,
                p.0 as int,
                p.1 as int,
            ),
    {
        let w = game_size.0;
        let h = game_size.1;
        let mut best: Option<(i32, i32)> = None;
        let mut sx: i32 = 1;
        while sx < w - 1
            invariant
                3 <= w,
                3 <= h,
                game_size == (w, h),
                1 <= sx <= w - 1,
                best matches Some(p) ==> in_margin(p, game_size) && !body_contains_pos(
                    body@,
                    p.0 as int,
                    p.1 as int,
                ),
                best is None ==> forall|px: int, py: int|
                    1 <= px < sx as int && 1 <= py < h - 1 ==> body_contains_pos(body@, px, py),
            decreases w - 1 - sx,
        {
            let mut sy: i32 = 1;
            while sy < h - 1
                invariant
                    3 <= w,
                    3 <= h,
                    game_size == (w, h),
                    1 <= sx < w - 1,
                    1 <= sy <= h - 1,
                    best matches Some(p) ==> in_margin(p, game_size) && !body_contains_pos(
                        body@,
                        p.0 as int,
                        p.1 as int,
                    ),
                    best is None ==> forall|px: int, py: int|
                        1 <= px < sx as int && 1 <= py < h - 1 ==> body_contains_pos(body@, px, py),
                    best is None ==> forall|py: int|
                        1 <= py < sy as int ==> body_contains_pos(body@, sx as int, py),
                decreases h - 1 - sy,
            {
                if best.is_none() && !Snake::intersects_body(body, (sx, sy)) {
                    best = Some((sx, sy));
                }
                sy = sy + 1;
            }
            sx = sx + 1;
        }
        proof {
            if best is None && free_margin_cell_exists(body@, game_size) {
                let (px, py) = choose|px: int, py: int|
                    1 <= px < game_size.0 - 1 && 1 <= py < game_size.1 - 1 && !body_contains_pos(
                        body@,
                        px,
                        py,
                    );
                assert(body_contains_pos(body@, px, py));
            }
        }
        best
    }

    /// True when the apple region still has a cell free of the snake, so that
    /// an `AteApple` update can respawn the apple.
    pub fn can_respawn_apple(&self) -> (b: bool)
        requires
            self.wf(),
        ensures
            b == free_margin_cell_exists(self.snake.body@, self.game_size),
    {
        Game::find_free_margin_cell(self.game_size, self.snake.get_body()).is_some()
    }

    /// Advances the game by `delta_ms` milliseconds of elapsed time. While
    /// `Moving` the countdown is decremented, and once it runs out the snake
    /// takes exactly one step and the collision is resolved; an `AteApple`
    /// state applies score, growth and the apple respawn; `Waiting` and
    /// `Dead` ignore the call.
    pub fn update(&mut self, delta_ms: u64)
        requires
            old(self).wf(),
            old(self).state is AteApple ==> old(self).points < i32::MAX,
            old(self).state is AteApple ==> free_margin_cell_exists(
                old(self).snake.body@,
                old(self).game_size,
            ),
        ensures
            final(self).wf(),
            update_rel(*old(self), delta_ms, *final(self)),
    {
        match self.state {
            GameState::Waiting => {},
            GameState::Moving(dir) => {
                if self.interval_ms > delta_ms {
                    self.interval_ms = self.interval_ms - delta_ms;
                } else {
                    self.snake.move_snake(&dir);
                    self.snake.prev_dir = dir;
                    let col = self.snake.check_collision(self.apple_loc);
                    self.handle_collision(col);
                    self.interval_ms = STEP_TIME_MS;
                }
            },
            GameState::AteApple => {
                self.points = self.points + 1;
                self.snake.grow_snake();
                proof {
                    let body0 = old(self).snake.body@;
                    lemma_push_tail_preserves_cells(body0);
                    let (px, py) = choose|px: int, py: int|
                        1 <= px < old(self).game_size.0 - 1 && 1 <= py < old(self).game_size.1 - 1
                            && !body_contains_pos(body0, px, py);
                    assert(!body_contains_pos(self.snake.body@, px, py));
                    assert(free_margin_cell_exists(self.snake.body@, self.game_size));
                }
                let new_apple = Game::generate_random_apple_location(
                    self.game_size,
                    self.snake.get_body(),
                );
                self.apple_loc = new_apple;
                self.state = GameState::Moving(self.snake.prev_dir);
            },
            GameState::Dead => {},
        }
    }

    /// Requests a new heading. A reversal of the committed heading is
    /// rejected; otherwise the request takes effect in the `Waiting` and
    /// `Moving` states and is ignored in `AteApple` and `Dead`.
    pub fn update_move_dir(&mut self, dir: Direction)
        ensures
            move_dir_rel(*old(self), dir, *final(self)),
    {
        if self.is_opposite(&dir) {
            return ;
        }
        match self.state {
            GameState::Moving(_) | GameState::Waiting => self.state = GameState::Moving(dir),
            _ => return ,
        }
    }

    /// True when `dir` reverses the snake's committed heading.
    fn is_opposite(&self, dir: &Direction) -> (r: bool)
        ensures
            r == (opposite_dir(self.snake.prev_dir) == *dir),
    {
        self.snake.prev_dir.opposite() == *dir
    }

    /// Applies what the head ran into: the apple starts the growth phase, a
    /// body segment is fatal, nothing leaves the state alone.
    fn handle_collision(&mut self, col: Collision)
        ensures
            final(self).game_size == old(self).game_size,
            final(self).snake == old(self).snake,
            final(self).interval_ms == old(self).interval_ms,
            final(self).apple_loc == old(self).apple_loc,
            final(self).points == old(self).points,
            final(self).state == (match col {
                Collision::Apple => GameState::AteApple,
                Collision::Snake => GameState::Dead,
                Collision::Nothing => old(self).state,
            }),
    {
        match col {
            Collision::Apple => {
                self.state = GameState::AteApple;
            },
            Collision::Snake => self.state = GameState::Dead,
            Collision::Nothing => {},
        }
    }

    /// Grid size as `(width, height)`.
    pub fn get_game_size(&self) -> (s: (i32, i32))
        ensures
            s == self.game_size,
    {
        self.game_size
    }

    /// The snake.
    pub fn get_snake(&self) -> (s: &Snake)
        ensures
            *s == self.snake,
    {
        &self.snake
    }

    /// Current state of the game's state machine.
    pub fn get_state(&self) -> (s: GameState)
        ensures
            s == self.state,
    {
        self.state
    }

    /// The apple's cell.
    pub fn get_apple_loc(&self) -> (p: (i32, i32))
        ensures
            p == self.apple_loc,
    {
        self.apple_loc
    }

    /// Current score: one point per apple applied.
    pub fn get_points(&self) -> (p: i32)
        ensures
            p == self.points,
    {
        self.points
    }
}

/// A reversal request never changes anything: if `dir` is the opposite of the
/// committed heading, `update_move_dir` leaves the game exactly as it was.
pub proof fn lemma_reversal_rejected(pre: Game, dir: Direction, post: Game)
    requires
        move_dir_rel(pre, dir, post),
        dir == opposite_dir(pre.snake.prev_dir),
    ensures
        post == pre,
{
}

/// `gn` is reachable from `g0` by one `update` per element of `deltas`.
pub open spec fn updates_to(g0: Game, deltas: Seq<u64>, gn: Game) -> bool
    decreases deltas.len(),
{
    if deltas.len() == 0 {
        gn == g0
    } else {
        exists|g1: Game|
            #[trigger] update_rel(g0, deltas[0], g1) && updates_to(g1, deltas.drop_first(), gn)
    }
}

/// As `updates_to`, but no game along the run is in the `AteApple` state:
/// the snake never eats.
pub open spec fn updates_to_without_eating(g0: Game, deltas: Seq<u64>, gn: Game) -> bool
    decreases deltas.len(),
{
    if deltas.len() == 0 {
        gn == g0
    } else {
        exists|g1: Game|
            #[trigger] update_rel(g0, deltas[0], g1) && !(g1.state is AteApple)
                && updates_to_without_eating(g1, deltas.drop_first(), gn)
    }
}

/// One update outside the `AteApple` state never changes the snake's length.
pub proof fn lemma_step_keeps_length(pre: Game, delta_ms: u64, post: Game)
    requires
        update_rel(pre, delta_ms, post),
        !(pre.state is AteApple),
        pre.snake.body@.len() >= 1,
    ensures
        post.snake.body@.len() == pre.snake.body@.len(),
{
}

/// A snake that never eats keeps its length, over any number of updates.
pub proof fn lemma_length_constant_without_eating(g0: Game, deltas: Seq<u64>, gn: Game)
    requires
        updates_to_without_eating(g0, deltas, gn),
        !(g0.state is AteApple),
        g0.snake.body@.len() >= 1,
    ensures
        gn.snake.body@.len() == g0.snake.body@.len(),
    decreases deltas.len(),
{
    if deltas.len() != 0 {
        let g1 = choose|g1: Game|
            #[trigger] update_rel(g0, deltas[0], g1) && !(g1.state is AteApple)
                && updates_to_without_eating(g1, deltas.drop_first(), gn);
        lemma_step_keeps_length(g0, deltas[0], g1);
        lemma_length_constant_without_eating(g1, deltas.drop_first(), gn);
    }
}

/// `Dead` is terminal: once the game is dead, any number of updates leaves
/// it exactly as it is, score and body frozen.
pub proof fn lemma_dead_is_terminal(g0: Game, deltas: Seq<u64>, gn: Game)
    requires
        updates_to(g0, deltas, gn),
        g0.state is Dead,
    ensures
        gn == g0,
    decreases deltas.len(),
{
    if deltas.len() != 0 {
        let g1 = choose|g1: Game|
            #[trigger] update_rel(g0, deltas[0], g1) && updates_to(g1, deltas.drop_first(), gn);
        lemma_dead_is_terminal(g1, deltas.drop_first(), gn);
    }
}

/// Eating exactly one apple raises length and score by exactly one, seen two
/// updates after the step onto the apple: the first update detects the apple
/// and the second applies growth, score and respawn.
pub proof fn lemma_eating_grows_once(g0: Game, d1: u64, g1: Game, d2: u64, g2: Game)
    requires
        update_rel(g0, d1, g1),
        update_rel(g1, d2, g2),
        !(g0.state is AteApple),
        g1.state is AteApple,
        g0.snake.body@.len() >= 1,
    ensures
        g2.snake.body@.len() == g0.snake.body@.len() + 1,
        g2.points == g0.points + 1,
        g2.state == GameState::Moving(g1.snake.prev_dir),
{
}

/// A freshly respawned apple lies on no snake segment and differs from the
/// apple that was just eaten.
pub proof fn lemma_fresh_apple_avoids_snake(g0: Game, d1: u64, g1: Game, d2: u64, g2: Game)
    requires
        update_rel(g0, d1, g1),
        update_rel(g1, d2, g2),
        !(g0.state is AteApple),
        g1.state is AteApple,
        g0.snake.body@.len() >= 1,
    ensures
        !body_contains_pos(g2.snake.body@, g2.apple_loc.0 as int, g2.apple_loc.1 as int),
        g2.apple_loc != g1.apple_loc,
{
    // g1 can only have been entered by a step whose new head reached the
    // apple, so the head cell of g1 (and of the grown g2 body) is the old
    // apple cell; the fresh apple avoids the grown body, hence differs.
    let body1 = g1.snake.body@;
    assert(body1[0].x == g1.apple_loc.0 && body1[0].y == g1.apple_loc.1);
    assert(g2.snake.body@[0] == body1[0]);
    assert(body_contains_pos(g2.snake.body@, g1.apple_loc.0 as int, g1.apple_loc.1 as int));
}

} // verus!

