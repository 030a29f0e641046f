//! The canvas: a rectangular character buffer the game's state is painted
//! into, and the functions that turn it into one printable frame.  Writing
//! the frame to the terminal stays with the embedding program.

use vstd::prelude::*;
use crate::game::GameState;
use crate::game::snake::{Position, Snake};
use crate::textutil;

verus! {

/// Where `pos` lands in a row-major buffer of width `w`.
pub open spec fn cell_index(pos: Position, w: int) -> int {
    pos.y * w + pos.x
}

/// Whether `pos` addresses a cell of a `w` by `h` buffer.
pub open spec fn cell_in_range(pos: Position, w: int, h: int) -> bool {
    0 <= pos.x < w && 0 <= pos.y < h
}

/// The buffer after writing `c` at `pos`: unchanged when `pos` is outside.
pub open spec fn buffer_set(buf: Seq<char>, w: int, h: int, pos: Position, c: char) -> Seq<char> {
    if cell_in_range(pos, w, h) {
        buf.update(cell_index(pos, w), c)
    } else {
        buf
    }
}

/// The first `x` cells of row `y` as printed: each cell followed by one
/// space.
pub open spec fn row_cells(buf: Seq<char>, w: int, y: int, x: int) -> Seq<char>
    decreases x,
{
    if x <= 0 {
        Seq::empty()
    } else {
        row_cells(buf, w, y, x - 1) + seq![buf[y * w + (x - 1)], ' ']
    }
}

/// The first `y` rows of the map as printed: each row between two wall
/// characters, ended by a newline.
pub open spec fn map_rows(buf: Seq<char>, w: int, y: int) -> Seq<char>
    decreases y,
{
    if y <= 0 {
        Seq::empty()
    } else {
        map_rows(buf, w, y - 1) + seq!['█'] + row_cells(buf, w, y - 1, w) + seq!['█', '\n']
    }
}

/// The map's top border.
pub open spec fn top_border(w: int) -> Seq<char> {
    seq!['◆'] + textutil::repeated('▄', 2 * w) + seq!['◆', '\n']
}

/// The map's bottom border.
pub open spec fn bottom_border(w: int) -> Seq<char> {
    seq!['◆'] + textutil::repeated('▀', 2 * w) + seq!['◆', '\n']
}

/// The whole printed map: the buffer's rows between two borders.
pub open spec fn map_string(buf: Seq<char>, w: int, h: int) -> Seq<char> {
    top_border(w) + map_rows(buf, w, h) + bottom_border(w)
}

/// The text block under the map: both scores and the controls.
pub open spec fn ui_string(historic: int, score: int) -> Seq<char> {
    "--------------------------------\n"@ + "历史最高分数："@ + textutil::dec_digits(historic)
        + "\n"@ + "当前分数："@ + textutil::dec_digits(score) + "\n"@
        + "操作说明: WSAD 移动, Q 退出!\n"@ + "---------------------------------\n"@
}

/// The buffer after painting the first `n` body cells: the head as `O`,
/// the rest as `■`.
pub open spec fn painted(buf: Seq<char>, w: int, h: int, body: Seq<Position>, n: int) -> Seq<char>
    decreases n,
{
    if n <= 0 {
        buf
    } else {
        buffer_set(
            painted(buf, w, h, body, n - 1),
            w,
            h,
            body[n - 1],
            if n - 1 == 0 {
                'O'
            } else {
                '■'
            },
        )
    }
}

/// A rectangular character buffer.
pub struct Canvas {
    canvas_width: usize,
    canvas_height: usize,
    buffer: Vec<char>,
}

impl Canvas {
    /// The buffer's width in cells.
    pub closed spec fn spec_width(&self) -> int {
        self.canvas_width as int
    }

    /// The buffer's height in cells.
    pub closed spec fn spec_height(&self) -> int {
        self.canvas_height as int
    }

    /// The buffer's cells, row-major.
    pub closed spec fn spec_buffer(&self) -> Seq<char> {
        self.buffer@
    }

    /// The buffer covers exactly the rectangle, and the rectangle is small
    /// enough for all index arithmetic.
    pub closed spec fn inv(&self) -> bool {
        &&& self.buffer@.len() == self.canvas_width * self.canvas_height
        &&& 1 <= self.canvas_width <= 4096
        &&& 1 <= self.canvas_height <= 4096
    }

    /// A blank forty-by-fifteen canvas.
    pub fn new() -> (c: Self)
        ensures
            c.inv(),
            c.spec_width() == 40,
            c.spec_height() == 15,
            c.spec_buffer() == Seq::new(600nat, |i: int| ' '),
    {
        let canvas_width: usize = 40;
        let canvas_height: usize = 15;
        let c = Canvas { canvas_width, canvas_height, buffer: vec![' '; canvas_width * canvas_height] };
        proof {
            assert(c.spec_buffer() =~= Seq::new(600nat, |i: int| ' '));
        }
        c
    }

    /// Blank every cell.
    pub fn clear(&mut self)
        requires
            old(self).inv(),
        ensures
            final(self).inv(),
            final(self).spec_width() == old(self).spec_width(),
            final(self).spec_height() == old(self).spec_height(),
            final(self).spec_buffer() == Seq::new(old(self).spec_buffer().len(), |i: int| ' '),
    {
        let n: usize = self.buffer.len();
        let mut i: usize = 0;
        while i < n
            invariant
                i <= n,
                n == self.buffer@.len(),
                self.canvas_width == old(self).canvas_width,
                self.canvas_height == old(self).canvas_height,
                self.buffer@.len() == old(self).buffer@.len(),
                forall|j: int| 0 <= j < i ==> self.buffer@[j] == ' ',
            decreases n - i,
        {
            self.buffer.set(i, ' ');
            i = i + 1;
        }
        proof {
            assert(self.buffer@ =~= Seq::new(old(self).spec_buffer().len(), |i: int| ' '));
        }
    }

    /// Write `display_char` at `char_position`; writes outside the
    /// rectangle are ignored.
    pub fn set_canvas_disply_char(&mut self, display_char: char, char_position: &Position)
        requires
            old(self).inv(),
        ensures
            final(self).inv(),
            final(self).spec_width() == old(self).spec_width(),
            final(self).spec_height() == old(self).spec_height(),
            final(self).spec_buffer() == buffer_set(
                old(self).spec_buffer(),
                old(self).spec_width(),
                old(self).spec_height(),
                *char_position,
                display_char,
            ),
    {
        if char_position.x >= 0 && char_position.y >= 0 {
            let x: usize = char_position.x as usize;
            let y: usize = char_position.y as usize;
            if x < self.canvas_width && y < self.canvas_height {
                let buffer_len: usize = self.buffer.len();
                proof {
                    assert(y * self.canvas_width + x < self.canvas_width * self.canvas_height)
                        by (nonlinear_arith)
                        requires
                            y < self.canvas_height,
                            x < self.canvas_width,
                            self.canvas_width >= 1,
                    ;
                    assert(self.canvas_width * self.canvas_height == buffer_len);
                }
                let index: usize = y * self.canvas_width + x;
                self.buffer.set(index, display_char);
            }
        }
    }

    /// Paint the snake and the food into the buffer: the head as `O`, the
    /// rest of the body as `■`, the food as `$`, everything else blank.
    pub fn prepare_buffer(&mut self, snake: &Snake)
        requires
            old(self).inv(),
        ensures
            final(self).inv(),
            final(self).spec_width() == old(self).spec_width(),
            final(self).spec_height() == old(self).spec_height(),
            final(self).spec_buffer() == buffer_set(
                painted(
                    Seq::new(old(self).spec_buffer().len(), |i: int| ' '),
                    old(self).spec_width(),
                    old(self).spec_height(),
                    snake.spec_body(),
                    snake.spec_body().len() as int,
                ),
                old(self).spec_width(),
                old(self).spec_height(),
                snake.spec_food(),
                '$',
            ),
    {
        self.clear();
        let ghost blank = Seq::new(old(self).spec_buffer().len(), |i: int| ' ');
        let body = snake.get_snake_body();
        let mut i: usize = 0;
        while i < body.len()
            invariant
                i <= body@.len(),
                self.inv(),
                body@ == snake.spec_body(),
                self.canvas_width == old(self).canvas_width,
                self.canvas_height == old(self).canvas_height,
                self.spec_buffer() == painted(
                    blank,
                    self.spec_width(),
                    self.spec_height(),
                    body@,
                    i as int,
                ),
            decreases body@.len() - i,
        {
            let symbol: char = if i == 0 {
                'O'
            } else {
                '■'
            };
            let pos: Position = body[i];
            self.set_canvas_disply_char(symbol, &pos);
            i = i + 1;
        }
        let food = snake.get_snak_food_position();
        self.set_canvas_disply_char('$', &food);
    }

    /// Append the printed map — the buffer's rows between two borders — to
    /// `frame`.
    pub fn draw_map_to_string(&self, frame: &mut String)
        requires
            self.inv(),
        ensures
            final(frame)@ == old(frame)@ + map_string(
                self.spec_buffer(),
                self.spec_width(),
                self.spec_height(),
            ),
    {
        textutil::push_char(frame, '◆');
        textutil::push_repeated(frame, '▄', 2 * self.canvas_width);
        textutil::push_char(frame, '◆');
        textutil::push_char(frame, '\n');
        proof {
            assert(frame@ =~= old(frame)@ + top_border(self.spec_width()));
        }
        let mut y: usize = 0;
        while y < self.canvas_height
            invariant
                y <= self.canvas_height,
                self.inv(),
                frame@ == old(frame)@ + top_border(self.spec_width()) + map_rows(
                    self.spec_buffer(),
                    self.spec_width(),
                    y as int,
                ),
            decreases self.canvas_height - y,
        {
            textutil::push_char(frame, '█');
            let ghost row_base = frame@;
            let mut x: usize = 0;
            while x < self.canvas_width
                invariant
                    x <= self.canvas_width,
                    y < self.canvas_height,
                    self.inv(),
                    frame@ == row_base + row_cells(
                        self.spec_buffer(),
                        self.spec_width(),
                        y as int,
                        x as int,
                    ),
                decreases self.canvas_width - x,
            {
                let buffer_len: usize = self.buffer.len();
                proof {
                    assert(y * self.canvas_width + x < self.canvas_width * self.canvas_height)
                        by (nonlinear_arith)
                        requires
                            y < self.canvas_height,
                            x < self.canvas_width,
                            self.canvas_width >= 1,
                    ;
                    assert(self.canvas_width * self.canvas_height == buffer_len);
                }
                let c: char = self.buffer[y * self.canvas_width + x];
                textutil::push_char(frame, c);
                textutil::push_char(frame, ' ');
                x = x + 1;
                proof {
                    assert(frame@ =~= row_base + row_cells(
                        self.spec_buffer(),
                        self.spec_width(),
                        y as int,
                        x as int,
                    ));
                }
            }
            textutil::push_char(frame, '█');
            textutil::push_char(frame, '\n');
            y = y + 1;
            proof {
                assert(frame@ =~= old(frame)@ + top_border(self.spec_width()) + map_rows(
                    self.spec_buffer(),
                    self.spec_width(),
                    y as int,
                ));
            }
        }
        textutil::push_char(frame, '◆');
        textutil::push_repeated(frame, '▀', 2 * self.canvas_width);
        textutil::push_char(frame, '◆');
        textutil::push_char(frame, '\n');
        proof {
            assert(frame@ =~= old(frame)@ + map_string(
                self.spec_buffer(),
                self.spec_width(),
                self.spec_height(),
            ));
        }
    }

    /// Append the text block under the map — both scores and the controls
    /// — to `frame`.
    pub fn draw_ui_to_string(&self, frame: &mut String, state: &GameState)
        ensures
            final(frame)@ == old(frame)@ + ui_string(
                state.spec_historic_score(),
                state.spec_score(),
            ),
    {
        frame.append("--------------------------------\n");
        frame.append("历史最高分数：");
        textutil::push_decimal(frame, state.get_game_historic_score());
        frame.append("\n");
        frame.append("当前分数：");
        textutil::push_decimal(frame, state.get_game_score());
        frame.append("\n");
        frame.append("操作说明: WSAD 移动, Q 退出!\n");
        frame.append("---------------------------------\n");
        proof {
            assert(frame@ =~= old(frame)@ + ui_string(
                state.spec_historic_score(),
                state.spec_score(),
            ));
        }
    }

    /// Build the full printable frame for this moment of the game: paint
    /// the snake and food, recompute the score from the snake's length
    /// (three starting cells are free), and lay the map and the text block
    /// after one another.  Printing it is the embedding program's part.
    pub fn compose_frame(&mut self, snake: &Snake, game_state: &mut GameState) -> (frame: String)
        requires
            old(self).inv(),
        ensures
            final(self).inv(),
            final(self).spec_width() == old(self).spec_width(),
            final(self).spec_height() == old(self).spec_height(),
            final(game_state).spec_score() == (if snake.spec_len() > 3 {
                snake.spec_len() - 3
            } else {
                0
            }),
            final(game_state).spec_is_runing() == old(game_state).spec_is_runing(),
            final(game_state).spec_is_suspend() == old(game_state).spec_is_suspend(),
            final(game_state).spec_historic_score() == old(game_state).spec_historic_score(),
            frame@ == map_string(
                final(self).spec_buffer(),
                final(self).spec_width(),
                final(self).spec_height(),
            ) + ui_string(
                final(game_state).spec_historic_score(),
                final(game_state).spec_score(),
            ),
            final(self).spec_buffer() == buffer_set(
                painted(
                    Seq::new(old(self).spec_buffer().len(), |i: int| ' '),
                    old(self).spec_width(),
                    old(self).spec_height(),
                    snake.spec_body(),
                    snake.spec_body().len() as int,
                ),
                old(self).spec_width(),
                old(self).spec_height(),
                snake.spec_food(),
                '$',
            ),
    {
        self.prepare_buffer(snake);
        let len = snake.get_snake_body_length();
        let current_score: usize = if len > 3 {
            len - 3
        } else {
            0
        };
        game_state.set_game_score(current_score);
        let mut frame = String::new();
        self.draw_map_to_string(&mut frame);
        self.draw_ui_to_string(&mut frame, game_state);
        frame
    }

    /// The buffer's width in cells.
    pub fn get_canvas_width(&self) -> (r: usize)
        ensures
            r as int == self.spec_width(),
    {
        self.canvas_width
    }

    /// The buffer's height in cells.
    pub fn get_canvas_height(&self) -> (r: usize)
        ensures
            r as int == self.spec_height(),
    {
        self.canvas_height
    }
}

} // verus!
