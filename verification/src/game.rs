//! The per-tick state machine of the game: a one-row snake with wrap-around
//! movement, food consumption that grows the snake and raises the score, and
//! hazard contact that resets the snake (but, deliberately, not the score).
//!
//! `tick` is pure with respect to the display: it advances the state and
//! returns the frame's draw commands in the order a host must apply them.

use crate::modular::ModNum;
use crate::screen::{lemma_digits_len_below, number_cmds, pow10, render_number, Color, DrawCmd};
use crate::{HEIGHT, WIDTH};
use vstd::prelude::*;

verus! {

/// A directional key, already decoded by the host's keyboard layer.
#[derive(Clone, Copy, Debug, PartialEq, Eq, Structural)]
pub enum ArrowKey {
    Left,
    Right,
    Up,
    Down,
    Other,
}

/// A decoded input event: either a directional key or a plain character.
#[derive(Clone, Copy, Debug, PartialEq, Eq, Structural)]
pub enum InputEvent {
    RawDirectional(ArrowKey),
    UnicodeChar(char),
}

/// The mathematical state of the game, over unbounded integers and sequences.
/// `letters` is the glyph buffer of capacity `WIDTH`; the snake's body is the
/// `length` consecutive columns starting at `col` (taken modulo `WIDTH`), all
/// in row `row`. `food` and `hazards` hold the diagonal cells `(k, k)` of the
/// two fixed coordinate lists.
#[verifier::ext_equal]
pub struct GameModel {
    pub letters: Seq<char>,
    pub length: int,
    pub next_letter: int,
    pub col: int,
    pub row: int,
    pub dx: int,
    pub dy: int,
    pub food: Seq<int>,
    pub hazards: Seq<int>,
    pub score: int,
}

impl GameModel {
    /// Every field lies in its domain.
    pub open spec fn wf(self) -> bool {
        &&& self.letters.len() == WIDTH
        &&& 1 <= self.length <= WIDTH
        &&& 0 <= self.next_letter < WIDTH
        &&& 0 <= self.col < WIDTH
        &&& 0 <= self.row < HEIGHT
        &&& 0 <= self.dx < WIDTH
        &&& 0 <= self.dy < HEIGHT
        &&& self.food.len() == 6
        &&& self.hazards.len() == 6
        &&& (forall|j: int| 0 <= j < 6 ==> 0 <= #[trigger] self.food[j] < HEIGHT)
        &&& (forall|j: int| 0 <= j < 6 ==> 0 <= #[trigger] self.hazards[j] < HEIGHT)
        &&& 0 <= self.score
    }

    /// The state a fresh game starts in.
    pub open spec fn initial() -> GameModel {
        GameModel {
            letters: Seq::new(WIDTH as nat, |i: int| '*'),
            length: 1,
            next_letter: 1,
            col: WIDTH as int / 2,
            row: HEIGHT as int / 2,
            dx: 0,
            dy: 0,
            food: seq![2, 5, 8, 16, 15, 9],
            hazards: seq![1, 3, 7, 19, 13, 11],
            score: 0,
        }
    }

    /// Column of body segment `i` (segment 0 is the head column).
    pub open spec fn body_col(self, i: int) -> int {
        (self.col + i) % (WIDTH as int)
    }

    /// Body segment `i` stands on the food cell of entry `j`.
    pub open spec fn food_hit(self, i: int, j: int) -> bool {
        self.body_col(i) == self.food[j] && self.row == self.food[j]
    }

    /// Body segment `i` stands on the hazard cell of entry `j`.
    pub open spec fn hazard_hit_at(self, i: int, j: int) -> bool {
        self.body_col(i) == self.hazards[j] && self.row == self.hazards[j]
    }

    /// Some body segment stands on some hazard cell.
    pub open spec fn hazard_hit(self) -> bool {
        exists|i: int, j: int|
            0 <= i < self.length && 0 <= j < self.hazards.len() && #[trigger] self.hazard_hit_at(
                i,
                j,
            )
    }

    /// The state after the velocity is added to the position, wrapping.
    pub open spec fn moved(self) -> GameModel {
        GameModel {
            col: (self.col + self.dx) % (WIDTH as int),
            row: (self.row + self.dy) % (HEIGHT as int),
            ..self
        }
    }

    /// One food consumption: write the filler glyph into the next free slot,
    /// advance that slot, count the score, and grow by one segment,
    /// saturating at the buffer capacity.
    pub open spec fn eat_one(self) -> GameModel {
        GameModel {
            letters: self.letters.update(self.next_letter, '*'),
            next_letter: (self.next_letter + 1) % (WIDTH as int),
            score: self.score + 1,
            length: if self.length < WIDTH {
                self.length + 1
            } else {
                self.length
            },
            ..self
        }
    }

    /// The food-consumption pass from pair `(i, j)` on: food entries `j..`
    /// for body segment `i`, then all entries for segments `i+1 .. bound`.
    /// `bound` is the body length at the start of the pass; growth during the
    /// pass does not extend it.
    pub open spec fn consume_from(self, bound: int, i: int, j: int) -> GameModel
        decreases bound - i, self.food.len() - j,
    {
        if i >= bound {
            self
        } else if j >= self.food.len() {
            self.consume_from(bound, i + 1, 0)
        } else if self.food_hit(i, j) {
            self.eat_one().consume_from(bound, i, j + 1)
        } else {
            self.consume_from(bound, i, j + 1)
        }
    }

    /// The state after the whole food-consumption pass.
    pub open spec fn consumed(self) -> GameModel {
        self.consume_from(self.length, 0, 0)
    }

    /// The state a hazard collision restores: everything as at construction
    /// except the score and the two coordinate lists, which are kept.
    pub open spec fn reset_state(self) -> GameModel {
        GameModel {
            letters: Seq::new(WIDTH as nat, |i: int| '*'),
            length: 1,
            next_letter: 1,
            col: WIDTH as int / 2,
            row: HEIGHT as int / 2,
            dx: 0,
            dy: 0,
            ..self
        }
    }

    /// The full per-tick state transition: move, consume food, and reset on
    /// hazard contact.
    pub open spec fn tick_state(self) -> GameModel {
        let after = self.moved().consumed();
        if after.hazard_hit() {
            after.reset_state()
        } else {
            after
        }
    }

    /// The effect of one directional key on the velocity.
    pub open spec fn raw_key_state(self, key: ArrowKey) -> GameModel {
        match key {
            ArrowKey::Left => GameModel { dx: (self.dx + WIDTH - 1) % (WIDTH as int), ..self },
            ArrowKey::Right => GameModel { dx: (self.dx + 1) % (WIDTH as int), ..self },
            ArrowKey::Up => GameModel { dy: (self.dy + HEIGHT - 1) % (HEIGHT as int), ..self },
            ArrowKey::Down => GameModel { dy: (self.dy + 1) % (HEIGHT as int), ..self },
            ArrowKey::Other => self,
        }
    }

    /// The effect of one input event: directional keys steer, characters are
    /// deliberately ignored.
    pub open spec fn key_state(self, key: InputEvent) -> GameModel {
        match key {
            InputEvent::RawDirectional(code) => self.raw_key_state(code),
            InputEvent::UnicodeChar(_) => self,
        }
    }

    /// Draw commands for the food cells.
    pub open spec fn food_cmds(self) -> Seq<DrawCmd> {
        Seq::new(
            self.food.len(),
            |j: int|
                DrawCmd {
                    glyph: '@',
                    col: self.food[j] as usize,
                    row: self.food[j] as usize,
                    foreground: Color::Cyan,
                    background: Color::Black,
                },
        )
    }

    /// Draw commands for the hazard cells.
    pub open spec fn hazard_cmds(self) -> Seq<DrawCmd> {
        Seq::new(
            self.hazards.len(),
            |j: int|
                DrawCmd {
                    glyph: 'W',
                    col: self.hazards[j] as usize,
                    row: self.hazards[j] as usize,
                    foreground: Color::Red,
                    background: Color::Black,
                },
        )
    }

    /// Draw commands for the score, rendered at the origin cell.
    pub open spec fn score_cmds(self) -> Seq<DrawCmd> {
        number_cmds(self.score, 0, 0, Color::Yellow, Color::Black)
    }

    /// Draw commands that erase the snake's current body cells.
    pub open spec fn clear_cmds(self) -> Seq<DrawCmd> {
        Seq::new(
            self.length as nat,
            |i: int|
                DrawCmd {
                    glyph: ' ',
                    col: self.body_col(i) as usize,
                    row: self.row as usize,
                    foreground: Color::Black,
                    background: Color::Black,
                },
        )
    }

    /// Draw commands for the snake's body at its current position.
    /// The draw command for body segment `i` at the snake's current position.
    pub open spec fn snake_cmd_at(self, i: int) -> DrawCmd {
        DrawCmd {
            glyph: self.letters[i],
            col: self.body_col(i) as usize,
            row: self.row as usize,
            foreground: Color::Cyan,
            background: Color::Black,
        }
    }

    pub open spec fn snake_cmds(self) -> Seq<DrawCmd> {
        Seq::new(self.length as nat, |i: int| self.snake_cmd_at(i))
    }

    /// The frame's full command sequence, in application order: food cells,
    /// hazard cells, score, erasure of the old body, the body at its new
    /// position, and, if a hazard was hit, erasure of the new body before the
    /// reset.
    pub open spec fn tick_cmds(self) -> Seq<DrawCmd> {
        let m1 = self.moved();
        let m2 = m1.consumed();
        self.food_cmds() + self.hazard_cmds() + self.score_cmds() + self.clear_cmds()
            + m1.snake_cmds() + (if m2.hazard_hit() {
            m2.clear_cmds()
        } else {
            Seq::empty()
        })
    }
}

/// The game state: the snake's glyph buffer and geometry, its velocity, the
/// two fixed coordinate lists, and the score.
#[derive(Clone, Debug)]
pub struct LetterMover {
    letters: Vec<char>,
    num_letters: usize,
    next_letter: ModNum,
    col: ModNum,
    row: ModNum,
    dx: ModNum,
    dy: ModNum,
    pub example: [usize; 6],
    pub bad: [usize; 6],
    score: isize,
}

impl View for LetterMover {
    type V = GameModel;

    closed spec fn view(&self) -> GameModel {
        GameModel {
            letters: self.letters@,
            length: self.num_letters as int,
            next_letter: self.next_letter.val(),
            col: self.col.val(),
            row: self.row.val(),
            dx: self.dx.val(),
            dy: self.dy.val(),
            food: self.example@.map_values(|v: usize| v as int),
            hazards: self.bad@.map_values(|v: usize| v as int),
            score: self.score as int,
        }
    }
}

impl LetterMover {
    /// The model is well formed and every modular field carries the board's
    /// modulus.
    pub closed spec fn wf(&self) -> bool {
        &&& self@.wf()
        &&& self.col.md() == WIDTH
        &&& self.row.md() == HEIGHT
        &&& self.dx.md() == WIDTH
        &&& self.dy.md() == HEIGHT
        &&& self.next_letter.md() == WIDTH
    }

    /// A fresh game: one filler glyph, centered, at rest, score zero.
    pub fn new() -> (s: LetterMover)
        ensures
            s.wf(),
            s@ == GameModel::initial(),
    {
        let s = LetterMover {
            letters: filler_row(),
            num_letters: 1,
            next_letter: ModNum::new(1, WIDTH),
            col: ModNum::new(WIDTH / 2, WIDTH),
            row: ModNum::new(HEIGHT / 2, HEIGHT),
            dx: ModNum::new(0, WIDTH),
            dy: ModNum::new(0, HEIGHT),
            example: [2, 5, 8, 16, 15, 9],
            bad: [1, 3, 7, 19, 13, 11],
            score: 0,
        };
        proof {
            assert(s@.food =~= GameModel::initial().food);
            assert(s@.hazards =~= GameModel::initial().hazards);
            assert(s@ =~= GameModel::initial());
        }
        s
    }

    /// The head's column.
    pub fn column(&self) -> (r: usize)
        ensures
            r == self@.col,
    {
        self.col.value()
    }

    /// The snake's row.
    pub fn row(&self) -> (r: usize)
        ensures
            r == self@.row,
    {
        self.row.value()
    }

    /// The horizontal velocity, as a modular delta in `[0, WIDTH)`.
    pub fn dx(&self) -> (r: usize)
        ensures
            r == self@.dx,
    {
        self.dx.value()
    }

    /// The vertical velocity, as a modular delta in `[0, HEIGHT)`.
    pub fn dy(&self) -> (r: usize)
        ensures
            r == self@.dy,
    {
        self.dy.value()
    }

    /// The number of body segments.
    pub fn length(&self) -> (r: usize)
        ensures
            r == self@.length,
    {
        self.num_letters
    }

    /// The running score.
    pub fn score(&self) -> (r: isize)
        ensures
            r == self@.score,
    {
        self.score
    }

    /// A copy of the glyph buffer.
    pub fn glyphs(&self) -> (r: Vec<char>)
        requires
            self.wf(),
        ensures
            r@ == self@.letters,
    {
        let mut r: Vec<char> = Vec::new();
        let mut k: usize = 0;
        while k < WIDTH
            invariant
                self.wf(),
                k <= WIDTH,
                r@ =~= self@.letters.subrange(0, k as int),
            decreases WIDTH - k,
        {
            r.push(self.letters[k]);
            k += 1;
        }
        proof {
            assert(r@ =~= self@.letters);
        }
        r
    }

    /// The columns the body occupies, head first.
    pub fn letter_columns(&self) -> (r: Vec<usize>)
        requires
            self.wf(),
        ensures
            r@.len() == self@.length,
            forall|i: int| 0 <= i < r@.len() ==> r@[i] == self@.body_col(i),
    {
        let mut r: Vec<usize> = Vec::new();
        let mut i: usize = 0;
        while i < self.num_letters
            invariant
                self.wf(),
                i <= self@.length,
                r@.len() == i,
                forall|k: int| 0 <= k < i ==> r@[k] == self@.body_col(k),
            decreases self@.length - i,
        {
            r.push(self.col.wrapping_add(i).value());
            i += 1;
        }
        r
    }

    /// Consume one decoded input event: directional keys steer the velocity
    /// modularly; character input is deliberately ignored.
    pub fn key(&mut self, key: InputEvent)
        requires
            old(self).wf(),
        ensures
            final(self).wf(),
            final(self)@ == old(self)@.key_state(key),
    {
        match key {
            InputEvent::RawDirectional(code) => self.handle_raw(code),
            InputEvent::UnicodeChar(c) => self.handle_unicode(c),
        }
    }

    fn handle_raw(&mut self, key: ArrowKey)
        requires
            old(self).wf(),
        ensures
            final(self).wf(),
            final(self)@ == old(self)@.raw_key_state(key),
    {
        match key {
            ArrowKey::Left => {
                self.dx = self.dx.wrapping_sub(1);
            },
            ArrowKey::Right => {
                self.dx = self.dx.wrapping_add(1);
            },
            ArrowKey::Up => {
                self.dy = self.dy.wrapping_sub(1);
            },
            ArrowKey::Down => {
                self.dy = self.dy.wrapping_add(1);
            },
            ArrowKey::Other => {},
        }
        proof {
            assert(self@ =~= old(self)@.raw_key_state(key));
        }
    }

    fn handle_unicode(&mut self, _key: char)
        ensures
            *final(self) == *old(self),
    {
    }

    /// Advance one frame: draw food, hazards and score, erase the old body,
    /// move, draw the body, consume food, and reset on hazard contact. The
    /// returned commands are the frame, in application order.
    pub fn tick(&mut self) -> (cmds: Vec<DrawCmd>)
        requires
            old(self).wf(),
            old(self)@.score + 480 <= isize::MAX,
        ensures
            final(self).wf(),
            final(self)@ == old(self)@.tick_state(),
            cmds@ == old(self)@.tick_cmds(),
    {
        let mut cmds: Vec<DrawCmd> = Vec::new();
        self.draw_food(&mut cmds);
        self.draw_bad(&mut cmds);
        self.draw_score(&mut cmds);
        self.clear_current(&mut cmds);
        self.update_location();
        self.draw_current(&mut cmds);
        self.clear_food();
        self.check_reset(&mut cmds);
        proof {
            assert(cmds@ =~= old(self)@.tick_cmds());
        }
        cmds
    }

    fn draw_food(&self, cmds: &mut Vec<DrawCmd>)
        requires
            self.wf(),
        ensures
            final(cmds)@ == old(cmds)@ + self@.food_cmds(),
    {
        let ghost base = cmds@;
        let mut j: usize = 0;
        while j < 6
            invariant
                self.wf(),
                j <= 6,
                cmds@ =~= base + self@.food_cmds().subrange(0, j as int),
            decreases 6 - j,
        {
            let y = self.example[j];
            cmds.push(
                DrawCmd {
                    glyph: '@',
                    col: y,
                    row: y,
                    foreground: Color::Cyan,
                    background: Color::Black,
                },
            );
            proof {
                assert(cmds@ =~= base + self@.food_cmds().subrange(0, j as int + 1));
            }
            j += 1;
        }
        proof {
            assert(cmds@ =~= base + self@.food_cmds());
        }
    }

    fn draw_bad(&self, cmds: &mut Vec<DrawCmd>)
        requires
            self.wf(),
        ensures
            final(cmds)@ == old(cmds)@ + self@.hazard_cmds(),
    {
        let ghost base = cmds@;
        let mut j: usize = 0;
        while j < 6
            invariant
                self.wf(),
                j <= 6,
                cmds@ =~= base + self@.hazard_cmds().subrange(0, j as int),
            decreases 6 - j,
        {
            let y = self.bad[j];
            cmds.push(
                DrawCmd {
                    glyph: 'W',
                    col: y,
                    row: y,
                    foreground: Color::Red,
                    background: Color::Black,
                },
            );
            proof {
                assert(cmds@ =~= base + self@.hazard_cmds().subrange(0, j as int + 1));
            }
            j += 1;
        }
        proof {
            assert(cmds@ =~= base + self@.hazard_cmds());
        }
    }

    fn draw_score(&self, cmds: &mut Vec<DrawCmd>)
        requires
            self.wf(),
        ensures
            final(cmds)@ == old(cmds)@ + self@.score_cmds(),
    {
        proof {
            reveal_with_fuel(pow10, 20);
            assert(self@.score < pow10(19));
            lemma_digits_len_below(self@.score, 19);
        }
        let mut d = render_number(self.score, 0, 0, Color::Yellow, Color::Black);
        cmds.append(&mut d);
    }

    fn clear_current(&self, cmds: &mut Vec<DrawCmd>)
        requires
            self.wf(),
        ensures
            final(cmds)@ == old(cmds)@ + self@.clear_cmds(),
    {
        let ghost base = cmds@;
        let row = self.row.value();
        let mut i: usize = 0;
        while i < self.num_letters
            invariant
                self.wf(),
                i <= self@.length,
                row == self@.row,
                cmds@ =~= base + self@.clear_cmds().subrange(0, i as int),
            decreases self@.length - i,
        {
            let x = self.col.wrapping_add(i).value();
            cmds.push(
                DrawCmd {
                    glyph: ' ',
                    col: x,
                    row,
                    foreground: Color::Black,
                    background: Color::Black,
                },
            );
            proof {
                assert(cmds@ =~= base + self@.clear_cmds().subrange(0, i as int + 1));
            }
            i += 1;
        }
        proof {
            assert(cmds@ =~= base + self@.clear_cmds());
        }
    }

    fn update_location(&mut self)
        requires
            old(self).wf(),
        ensures
            final(self).wf(),
            final(self)@ == old(self)@.moved(),
    {
        self.col = self.col.wrapping_add(self.dx.value());
        self.row = self.row.wrapping_add(self.dy.value());
        proof {
            assert(self@ =~= old(self)@.moved());
        }
    }

    fn draw_current(&self, cmds: &mut Vec<DrawCmd>)
        requires
            self.wf(),
        ensures
            final(cmds)@ == old(cmds)@ + self@.snake_cmds(),
    {
        let ghost base = cmds@;
        let row = self.row.value();
        let mut i: usize = 0;
        while i < self.num_letters
            invariant
                self.wf(),
                i <= self@.length,
                row == self@.row,
                cmds@ =~= base + self@.snake_cmds().subrange(0, i as int),
            decreases self@.length - i,
        {
            let x = self.col.wrapping_add(i).value();
            cmds.push(
                DrawCmd {
                    glyph: self.letters[i],
                    col: x,
                    row,
                    foreground: Color::Cyan,
                    background: Color::Black,
                },
            );
            proof {
                let ghost k = i as int;
                assert(cmds@[base.len() + k] == self@.snake_cmds()[k]);
                assert(cmds@ =~= base + self@.snake_cmds().subrange(0, k + 1));
            }
            i += 1;
        }
        proof {
            assert(cmds@ =~= base + self@.snake_cmds());
        }
    }

    fn clear_food(&mut self)
        requires
            old(self).wf(),
            old(self)@.score + 480 <= isize::MAX,
        ensures
            final(self).wf(),
            final(self)@ == old(self)@.consumed(),
    {
        let ghost m0 = self@;
        let len0 = self.num_letters;
        let ghost bound = len0 as int;
        let mut i: usize = 0;
        while i < len0
            invariant
                self.wf(),
                i <= len0,
                bound == len0 as int,
                bound == m0.length,
                bound <= WIDTH,
                m0.wf(),
                m0.score + 480 <= isize::MAX,
                self@.col == m0.col,
                self@.row == m0.row,
                self@.dx == m0.dx,
                self@.dy == m0.dy,
                self@.food == m0.food,
                self@.hazards == m0.hazards,
                self@.score <= m0.score + 6 * i,
                m0.consume_from(bound, 0, 0) == self@.consume_from(bound, i as int, 0),
            decreases len0 - i,
        {
            let x = self.col.wrapping_add(i).value();
            let row = self.row.value();
            let mut j: usize = 0;
            while j < 6
                invariant
                    self.wf(),
                    i < len0,
                    j <= 6,
                    bound == len0 as int,
                    bound <= WIDTH,
                    m0.wf(),
                    m0.score + 480 <= isize::MAX,
                    x == self@.body_col(i as int),
                    row == self@.row,
                    self@.col == m0.col,
                    self@.row == m0.row,
                    self@.dx == m0.dx,
                    self@.dy == m0.dy,
                    self@.food == m0.food,
                    self@.hazards == m0.hazards,
                    self@.score <= m0.score + 6 * i + j,
                    m0.consume_from(bound, 0, 0) == self@.consume_from(bound, i as int, j as int),
                decreases 6 - j,
            {
                let y = self.example[j];
                if x == y && row == y {
                    let ghost pre = self@;
                    let next = self.next_letter.value();
                    self.letters[next] = '*';
                    self.next_letter = self.next_letter.wrapping_add(1);
                    self.score = self.score + 1;
                    if self.num_letters < WIDTH {
                        self.num_letters = self.num_letters + 1;
                    }
                    proof {
                        assert(pre.food_hit(i as int, j as int));
                        assert(self@ =~= pre.eat_one());
                        assert(pre.consume_from(bound, i as int, j as int) == self
                            @.consume_from(bound, i as int, j as int + 1));
                    }
                } else {
                    proof {
                        assert(!self@.food_hit(i as int, j as int));
                        assert(self@.consume_from(bound, i as int, j as int) == self
                            @.consume_from(bound, i as int, j as int + 1));
                    }
                }
                j += 1;
            }
            proof {
                assert(self@.consume_from(bound, i as int, 6) == self@.consume_from(
                    bound,
                    i as int + 1,
                    0,
                ));
            }
            i += 1;
        }
        proof {
            assert(self@.consume_from(bound, bound, 0) == self@);
            assert(m0.consumed() == m0.consume_from(bound, 0, 0));
        }
    }

    fn check_reset(&mut self, cmds: &mut Vec<DrawCmd>)
        requires
            old(self).wf(),
        ensures
            final(self).wf(),
            old(self)@.hazard_hit() ==> final(self)@ == old(self)@.reset_state() && final(cmds)@
                == old(cmds)@ + old(self)@.clear_cmds(),
            !old(self)@.hazard_hit() ==> *final(self) == *old(self) && final(cmds)@ == old(cmds)@,
    {
        let mut hit = false;
        let len = self.num_letters;
        let row = self.row.value();
        let mut i: usize = 0;
        while i < len
            invariant
                self.wf(),
                self == old(self),
                i <= len,
                len == self@.length,
                row == self@.row,
                hit <==> exists|a: int, b: int|
                    0 <= a < i && 0 <= b < 6 && #[trigger] self@.hazard_hit_at(a, b),
            decreases len - i,
        {
            let x = self.col.wrapping_add(i).value();
            let mut j: usize = 0;
            while j < 6
                invariant
                    self.wf(),
                    self == old(self),
                    i < len,
                    j <= 6,
                    len == self@.length,
                    row == self@.row,
                    x == self@.body_col(i as int),
                    hit <==> (exists|a: int, b: int|
                        0 <= a < i && 0 <= b < 6 && #[trigger] self@.hazard_hit_at(a, b)) || (
                    exists|b: int| 0 <= b < j && #[trigger] self@.hazard_hit_at(i as int, b)),
                decreases 6 - j,
            {
                let y = self.bad[j];
                if x == y && row == y {
                    hit = true;
                    proof {
                        assert(self@.hazard_hit_at(i as int, j as int));
                    }
                }
                j += 1;
            }
            i += 1;
        }
        proof {
            assert(hit <==> self@.hazard_hit());
        }
        if hit {
            self.clear_current(cmds);
            self.reset();
        }
    }

    fn reset(&mut self)
        requires
            old(self).wf(),
        ensures
            final(self).wf(),
            final(self)@ == old(self)@.reset_state(),
    {
        self.letters = filler_row();
        self.num_letters = 1;
        self.next_letter = ModNum::new(1, WIDTH);
        self.col = ModNum::new(WIDTH / 2, WIDTH);
        self.row = ModNum::new(HEIGHT / 2, HEIGHT);
        self.dx = ModNum::new(0, WIDTH);
        self.dy = ModNum::new(0, HEIGHT);
        proof {
            assert(self@ =~= old(self)@.reset_state());
        }
    }
}

/// A well-formed game state has a well-formed model.
pub proof fn lemma_wf_view(s: &LetterMover)
    requires
        s.wf(),
    ensures
        s@.wf(),
{
}

/// A glyph buffer of capacity `WIDTH`, filled with the filler glyph.
fn filler_row() -> (v: Vec<char>)
    ensures
        v@ == Seq::new(WIDTH as nat, |i: int| '*'),
{
    let mut v: Vec<char> = Vec::new();
    let mut k: usize = 0;
    while k < WIDTH
        invariant
            k <= WIDTH,
            v@.len() == k,
            forall|t: int| 0 <= t < k ==> v@[t] == '*',
        decreases WIDTH - k,
    {
        v.push('*');
        k += 1;
    }
    proof {
        assert(v@ =~= Seq::new(WIDTH as nat, |i: int| '*'));
    }
    v
}

} // verus!
