//! The snake itself: an ordered body of grid cells, a committed heading,
//! and the grid bounds it wraps within.

use std::collections::VecDeque;
use vstd::prelude::*;

verus! {

/// One of the four headings the snake can take.
#[derive(Clone, Copy, Debug, PartialEq, Eq, Structural)]
pub enum Direction {
    Up,
    Down,
    Left,
    Right,
}

/// A single body segment: one occupied grid cell.
#[derive(Clone, Copy, Debug, PartialEq, Eq, Structural)]
pub struct Block {
    pub x: i32,
    pub y: i32,
}

/// What the snake's head ran into after a step.
#[derive(Clone, Copy, Debug, PartialEq, Eq, Structural)]
pub enum Collision {
    Nothing,
    Apple,
    Snake,
}

/// The heading opposite to `d` (`Up`/`Down` and `Left`/`Right` swap).
pub open spec fn opposite_dir(d: Direction) -> Direction {
    match d {
        Direction::Up => Direction::Down,
        Direction::Down => Direction::Up,
        Direction::Left => Direction::Right,
        Direction::Right => Direction::Left,
    }
}

/// Horizontal displacement of one step along `d`.
pub open spec fn dir_dx(d: Direction) -> int {
    match d {
        Direction::Left => -1,
        Direction::Right => 1,
        _ => 0,
    }
}

/// Vertical displacement of one step along `d` (the y axis points down).
pub open spec fn dir_dy(d: Direction) -> int {
    match d {
        Direction::Up => -1,
        Direction::Down => 1,
        _ => 0,
    }
}

/// Wrap a coordinate that stepped one cell past an edge back onto `[0, limit)`.
pub open spec fn wrap_coord(v: int, limit: int) -> int {
    if v >= limit {
        0
    } else if v < 0 {
        limit - 1
    } else {
        v
    }
}

/// `b` lies on the `w` by `h` grid.
pub open spec fn in_grid(b: Block, w: int, h: int) -> bool {
    0 <= b.x < w && 0 <= b.y < h
}

/// Some segment of `body` occupies the cell `(x, y)`.
pub open spec fn body_contains_pos(body: Seq<Block>, x: int, y: int) -> bool {
    exists|i: int| 0 <= i < body.len() && body[i].x == x && body[i].y == y
}

/// Where the head lands after one step along `d`, wrapping at the grid edges.
pub open spec fn next_head_pos(head: Block, d: Direction, w: int, h: int) -> Block {
    Block {
        x: wrap_coord(head.x + dir_dx(d), w) as i32,
        y: wrap_coord(head.y + dir_dy(d), h) as i32,
    }
}

/// The body after one step along `d`: the new head is prepended and the old
/// tail segment is dropped.
pub open spec fn moved_body(body: Seq<Block>, d: Direction, w: int, h: int) -> Seq<Block>
    recommends
        body.len() >= 1,
{
    seq![next_head_pos(body[0], d, w, h)] + body.drop_last()
}

/// The collision a freshly moved body reports: the head landing on another
/// segment takes priority over the head landing on the apple.
pub open spec fn collision_of(body: Seq<Block>, apple_loc: (i32, i32)) -> Collision
    recommends
        body.len() >= 1,
{
    if body_contains_pos(body.drop_first(), body[0].x as int, body[0].y as int) {
        Collision::Snake
    } else if body[0].x == apple_loc.0 && body[0].y == apple_loc.1 {
        Collision::Apple
    } else {
        Collision::Nothing
    }
}

/// The snake: ordered body segments with the head at index 0, the heading
/// last committed by a completed step, and the grid bounds it wraps within.
#[derive(Debug)]
pub struct Snake {
    pub body: VecDeque<Block>,
    pub game_size: (i32, i32),
    pub prev_dir: Direction,
}

impl Snake {
    /// The snake's invariant: at least one segment, positive grid bounds, and
    /// every segment on the grid.
    pub open spec fn wf(self) -> bool {
        &&& self.body@.len() >= 1
        &&& 1 <= self.game_size.0
        &&& 1 <= self.game_size.1
        &&& forall|i: int|
            0 <= i < self.body@.len() ==> in_grid(
                #[trigger] self.body@[i],
                self.game_size.0 as int,
                self.game_size.1 as int,
            )
    }

    /// Builds a straight horizontal body of `size` segments whose head sits at
    /// `(x, y)` and whose remaining segments extend to the left.
    pub fn new(x: i32, y: i32, size: i32, default_move_dir: Direction, game_size: (i32, i32)) -> (s:
        Snake)
        requires
            1 <= size,
            size <= x + 1,
            x < game_size.0,
            0 <= y < game_size.1,
        ensures
            s.wf(),
            s.game_size == game_size,
            s.prev_dir == default_move_dir,
            s.body@.len() == size,
            forall|i: int| 0 <= i < size ==> s.body@[i] == (Block { x: (x - i) as i32, y: y }),
    {
        let mut body: VecDeque<Block> = VecDeque::new();
        let mut i: i32 = 0;
        while i < size
            invariant
                0 <= i <= size,
                size <= x + 1,
                body@.len() == i as int,
                forall|j: int| 0 <= j < i as int ==> body@[j] == (Block { x: (x - j) as i32, y: y }),
            decreases size - i,
        {
            body.push_back(Block { x: x - i, y });
            i = i + 1;
        }
        Snake { body, prev_dir: default_move_dir, game_size }
    }

    /// Builds a `size`-segment snake centered on the grid, head rightmost.
    pub fn init_snake(size: i32, default_move_dir: Direction, game_size: (i32, i32)) -> (s: Snake)
        requires
            1 <= size,
            size <= game_size.0 / 2 + 1,
            1 <= game_size.0,
            1 <= game_size.1,
        ensures
            s.wf(),
            s.game_size == game_size,
            s.prev_dir == default_move_dir,
            s.body@.len() == size,
            forall|i: int|
                0 <= i < size ==> s.body@[i] == (Block {
                    x: (game_size.0 / 2 - i) as i32,
                    y: (game_size.1 / 2) as i32,
                }),
    {
        let x_loc = game_size.0 / 2;
        let y_loc = game_size.1 / 2;
        Self::new(x_loc, y_loc, size, default_move_dir, game_size)
    }

    /// Steps the snake one cell along `dir`: the tail segment is removed and
    /// the wrapped new head position is prepended.
    pub fn move_snake(&mut self, dir: &Direction)
        requires
            old(self).wf(),
        ensures
            final(self).wf(),
            final(self).game_size == old(self).game_size,
            final(self).prev_dir == old(self).prev_dir,
            final(self).body@ == moved_body(
                old(self).body@,
                *dir,
                old(self).game_size.0 as int,
                old(self).game_size.1 as int,
            ),
    {
        match dir {
            Direction::Up => self.perform_move_snake(0, -1),
            Direction::Down => self.perform_move_snake(0, 1),
            Direction::Left => self.perform_move_snake(-1, 0),
            Direction::Right => self.perform_move_snake(1, 0),
        }
    }

    /// Reports what the head ran into: another body segment first, then the
    /// apple, otherwise nothing.
    pub fn check_collision(&self, apple_loc: (i32, i32)) -> (c: Collision)
        requires
            self.wf(),
        ensures
            c == collision_of(self.body@, apple_loc),
    {
        let head = self.get_head_pos();
        let mut i: usize = 1;
        while i < self.body.len()
            invariant
                self.wf(),
                1 <= i <= self.body@.len(),
                head.0 == self.body@[0].x,
                head.1 == self.body@[0].y,
                forall|j: int|
                    1 <= j < i as int ==> !(self.body@[j].x == head.0 && self.body@[j].y
                        == head.1),
            decreases self.body@.len() - i,
        {
            let b = self.body[i];
            if b.x == head.0 && b.y == head.1 {
                assert(self.body@.drop_first()[i - 1] == self.body@[i as int]);
                return Collision::Snake;
            }
            i = i + 1;
        }
        proof {
            assert forall|k: int| 0 <= k < self.body@.drop_first().len() implies !(
            #[trigger] self.body@.drop_first()[k].x == head.0 && self.body@.drop_first()[k].y
                == head.1) by {
                assert(self.body@.drop_first()[k] == self.body@[k + 1]);
            }
        }
        if head.0 == apple_loc.0 && head.1 == apple_loc.1 {
            return Collision::Apple;
        }
        Collision::Nothing
    }

    /// Appends a duplicate of the tail segment, growing the body by one.
    pub fn grow_snake(&mut self)
        requires
            old(self).wf(),
        ensures
            final(self).wf(),
            final(self).game_size == old(self).game_size,
            final(self).prev_dir == old(self).prev_dir,
            final(self).body@ == old(self).body@.push(old(self).body@.last()),
    {
        let (x, y) = self.get_tail_pos();
        self.body.push_back(Block { x, y });
    }

    /// Steps the body by `(delta_x, delta_y)`, one axis at a time: the wrapped
    /// target replaces the head and the tail segment is dropped.
    fn perform_move_snake(&mut self, delta_x: i32, delta_y: i32)
        requires
            old(self).wf(),
            (delta_x == 0 && (delta_y == 1 || delta_y == -1)) || (delta_y == 0 && (delta_x == 1
                || delta_x == -1)),
        ensures
            final(self).wf(),
            final(self).game_size == old(self).game_size,
            final(self).prev_dir == old(self).prev_dir,
            final(self).body@.len() == old(self).body@.len(),
            final(self).body@ == seq![
                Snake::spec_stepped(old(self).body@[0], delta_x as int, delta_y as int, old(
                    self,
                ).game_size),
            ] + old(self).body@.drop_last(),
    {
        let target = Snake::calculate_next_position(
            self.get_head_pos(),
            delta_x,
            delta_y,
            self.game_size,
        );
        self.body.pop_back();
        self.body.push_front(target);
        proof {
            assert(self.body@ =~= seq![target] + old(self).body@.drop_last());
        }
    }

    /// The wrapped cell one `(delta_x, delta_y)` step from `head`.
    pub open spec fn spec_stepped(head: Block, delta_x: int, delta_y: int, game_size: (i32, i32)) -> Block {
        Block {
            x: wrap_coord(head.x + delta_x, game_size.0 as int) as i32,
            y: wrap_coord(head.y + delta_y, game_size.1 as int) as i32,
        }
    }

    /// Current head cell, the segment at index 0.
    pub fn get_head_pos(&self) -> (p: (i32, i32))
        requires
            self.wf(),
        ensures
            p.0 == self.body@[0].x,
            p.1 == self.body@[0].y,
    {
        let head = self.body[0];
        (head.x, head.y)
    }

    /// Current tail cell, the last segment.
    pub fn get_tail_pos(&self) -> (p: (i32, i32))
        requires
            self.wf(),
        ensures
            p.0 == self.body@.last().x,
            p.1 == self.body@.last().y,
    {
        let tail = self.body[self.body.len() - 1];
        (tail.x, tail.y)
    }

    /// Number of body segments.
    pub fn get_length(&self) -> (n: usize)
        ensures
            n == self.body@.len(),
    {
        self.body.len()
    }

    /// The ordered body, head first.
    pub fn get_body(&self) -> (b: &VecDeque<Block>)
        ensures
            b@ == self.body@,
    {
        &self.body
    }

    /// Computes the next head position one `(delta_x, delta_y)` step from
    /// `current_pos`, re-entering from the opposite edge when it steps past one.
    pub fn calculate_next_position(
        current_pos: (i32, i32),
        delta_x: i32,
        delta_y: i32,
        game_size: (i32, i32),
    ) -> (b: Block)
        requires
            0 <= current_pos.0 < game_size.0,
            0 <= current_pos.1 < game_size.1,
            (delta_x == 0 && (delta_y == 1 || delta_y == -1)) || (delta_y == 0 && (delta_x == 1
                || delta_x == -1)),
        ensures
            b.x == wrap_coord(current_pos.0 + delta_x, game_size.0 as int),
            b.y == wrap_coord(current_pos.1 + delta_y, game_size.1 as int),
            in_grid(b, game_size.0 as int, game_size.1 as int),
    {
        let (head_x, head_y) = current_pos;
        let target = Block { x: head_x + delta_x, y: head_y + delta_y };
        if target.x >= game_size.0 {
            return Block { x: 0, y: head_y + delta_y };
        }
        if target.x < 0 {
            return Block { x: game_size.0 - 1, y: head_y + delta_y };
        }
        if target.y >= game_size.1 {
            return Block { x: head_x + delta_x, y: 0 };
        }
        if target.y < 0 {
            return Block { x: head_x + delta_x, y: game_size.1 - 1 };
        }
        target
    }

    /// True when some segment of `body` occupies the cell `other`.
    pub fn intersects_body(body: &VecDeque<Block>, other: (i32, i32)) -> (r: bool)
        ensures
            r == body_contains_pos(body@, other.0 as int, other.1 as int),
    {
        let mut i: usize = 0;
        while i < body.len()
            invariant
                0 <= i <= body@.len(),
                forall|j: int|
                    0 <= j < i as int ==> !(body@[j].x == other.0 && body@[j].y == other.1),
            decreases body@.len() - i,
        {
            let b = body[i];
            if b.x == other.0 && b.y == other.1 {
                return true;
            }
            i = i + 1;
        }
        false
    }
}

impl Direction {
    /// The opposite heading; pure, no state.
    pub fn opposite(&self) -> (r: Direction)
        ensures
            r == opposite_dir(*self),
    {
        match self {
            Self::Up => Direction::Down,
            Self::Down => Direction::Up,
            Self::Left => Direction::Right,
            Self::Right => Direction::Left,
        }
    }
}

/// Taking the opposite heading twice leads back to the original heading.
pub proof fn lemma_opposite_involution(d: Direction)
    ensures
        opposite_dir(opposite_dir(d)) == d,
{
}

/// Edge wrap-around: a head that steps past the right edge re-enters at
/// `x == 0` on the same row, one past the left edge at `x == w - 1`, and
/// likewise past the bottom and top edges using the grid height.
pub proof fn lemma_edge_wrap(head: Block, w: i32, h: i32)
    requires
        in_grid(head, w as int, h as int),
    ensures
        head.x == w - 1 ==> next_head_pos(head, Direction::Right, w as int, h as int) == (Block {
            x: 0,
            y: head.y,
        }),
        head.x == 0 ==> next_head_pos(head, Direction::Left, w as int, h as int) == (Block {
            x: (w - 1) as i32,
            y: head.y,
        }),
        head.y == h - 1 ==> next_head_pos(head, Direction::Down, w as int, h as int) == (Block {
            x: head.x,
            y: 0,
        }),
        head.y == 0 ==> next_head_pos(head, Direction::Up, w as int, h as int) == (Block {
            x: head.x,
            y: (h - 1) as i32,
        }),
{
}

} // verus!
