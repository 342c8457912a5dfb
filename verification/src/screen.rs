//! The text frame: a bordered board in the middle of the terminal, with a
//! line of words in its upper and in its lower border.

use vstd::prelude::*;
use vstd::string::*;
use vstd::utf8::encode_utf8;
use crate::board::Board;
use crate::entity::Entity;
use crate::geometry::Vector2;
use crate::text::push_char;

verus! {

/// The words in the upper border.
pub const TITLE: &'static str = " SNAKE-TTY ";

/// The narrowest board that is played on.
pub const MIN_WIDTH: u32 = 50;

/// The lowest board that is played on.
pub const MIN_HEIGHT: u32 = 15;

/// The part of a terminal's span that the board takes: seven tenths,
/// rounded down.
pub open spec fn share(span: nat) -> nat {
    span * 7 / 10
}

/// The margin on either side of a board and its border, the spare column
/// of an odd rest going to the far side.
pub open spec fn margin(span: nat) -> nat {
    ((span - (share(span) + 2)) / 2) as nat
}

/// `count` times the character `c`.
pub open spec fn run(c: char, count: nat) -> Seq<char> {
    Seq::new(count, |i: int| c)
}

/// The length of a label in bytes of UTF-8, as `str::len` gives it.
pub open spec fn byte_len(label: Seq<char>) -> usize {
    encode_utf8(label).len() as usize
}

/// The inside of a border line: the label between two rules, the longer
/// one behind it, where the label is shorter in bytes than the line is
/// wide; else a rule alone.
pub open spec fn banner(width: nat, label: Seq<char>) -> Seq<char> {
    if byte_len(label) < width {
        let before: nat = ((width - byte_len(label)) / 2) as nat;
        let behind: nat = (width - (before + byte_len(label))) as nat;
        run('─', before) + label + run('─', behind)
    } else {
        run('─', width)
    }
}

/// What a cell shows: the glyph of the first entity that stands on it, or
/// a blank.
pub open spec fn glyph_at(objects: Seq<Entity>, cell: Vector2) -> char
    decreases objects.len(),
{
    if objects.len() == 0 {
        ' '
    } else if objects[0].position == cell {
        objects[0].glyph
    } else {
        glyph_at(objects.drop_first(), cell)
    }
}

/// The cells of row `y`, from the left.
pub open spec fn cells_of_row(width: nat, objects: Seq<Entity>, y: int) -> Seq<char> {
    Seq::new(width, |x: int| glyph_at(objects, Vector2 { x: x as i32, y: y as i32 }))
}

/// A screen as plain values.
pub struct ScreenModel {
    pub width: nat,
    pub height: nat,
    pub padx: nat,
    pub pady: nat,
    pub header: Seq<char>,
    pub footer: Seq<char>,
}

/// Where the board stands in the terminal, and the words in its border.
pub struct Screen {
    width: u32,
    height: u32,
    padx: u32,
    pady: u32,
    header: String,
    footer: String,
}

impl ScreenModel {
    /// The screen that fits a terminal of the given size, with empty
    /// borders.
    pub open spec fn fitted(term_width: nat, term_height: nat) -> ScreenModel {
        ScreenModel {
            width: share(term_width),
            height: share(term_height),
            padx: margin(term_width),
            pady: margin(term_height),
            header: Seq::empty(),
            footer: Seq::empty(),
        }
    }

    /// The left margin of every line of the frame.
    pub open spec fn indent(self) -> Seq<char> {
        run(' ', self.padx)
    }

    /// The upper border.
    pub open spec fn top(self) -> Seq<char> {
        self.indent() + seq!['┌'] + banner(self.width, self.header) + seq!['┐', '\n']
    }

    /// The lower border.
    pub open spec fn bottom(self) -> Seq<char> {
        self.indent() + seq!['└'] + banner(self.width, self.footer) + seq!['┘', '\n']
    }

    /// The line of row `y` of the board.
    pub open spec fn row(self, objects: Seq<Entity>, y: int) -> Seq<char> {
        self.indent() + seq!['│'] + cells_of_row(self.width, objects, y) + seq!['│', '\n']
    }

    /// The lines of the first `count` rows of the board.
    pub open spec fn rows(self, objects: Seq<Entity>, count: nat) -> Seq<char>
        decreases count,
    {
        if count == 0 {
            Seq::empty()
        } else {
            self.rows(objects, (count - 1) as nat) + self.row(objects, count - 1)
        }
    }

    /// The whole frame: empty lines, the upper border, the rows, the lower
    /// border, empty lines.
    pub open spec fn painted(self, objects: Seq<Entity>) -> Seq<char> {
        run('\n', self.pady) + self.top() + self.rows(objects, self.height) + self.bottom() + run(
            '\n',
            self.pady,
        )
    }
}

/// Appends `count` times the character `c`.
pub fn append_run(text: &mut String, c: char, count: usize)
    ensures
        final(text)@ == old(text)@ + run(c, count as nat),
{
    let mut done: usize = 0;
    while done < count
        invariant
            done <= count,
            text@ == old(text)@ + run(c, done as nat),
        decreases count - done,
    {
        push_char(text, c);
        done += 1;
        assert(text@ =~= old(text)@ + run(c, done as nat));
    }
}

/// Appends the inside of a border line of the given width.
pub fn append_banner(text: &mut String, width: u32, label: &String)
    ensures
        final(text)@ == old(text)@ + banner(width as nat, label@),
{
    let bytes: usize = label.as_str().len();
    if bytes < width as usize {
        let before: usize = (width as usize - bytes) / 2;
        let behind: usize = width as usize - (before + bytes);
        append_run(text, '─', before);
        text.append(label.as_str());
        append_run(text, '─', behind);
        assert(text@ =~= old(text)@ + banner(width as nat, label@));
    } else {
        append_run(text, '─', width as usize);
    }
}

/// What a cell shows: the glyph of the first entity that stands on it, or
/// a blank.
pub fn glyph_on(objects: &[Entity], cell: Vector2) -> (glyph: char)
    ensures
        glyph == glyph_at(objects@, cell),
{
    let mut index: usize = 0;
    assert(objects@.skip(0) == objects@);
    while index < objects.len()
        invariant
            index <= objects@.len(),
            glyph_at(objects@, cell) == glyph_at(objects@.skip(index as int), cell),
        decreases objects@.len() - index,
    {
        proof {
            let rest = objects@.skip(index as int);
            assert(rest[0] == objects@[index as int]);
            assert(rest.drop_first() == objects@.skip(index + 1));
        }
        if objects[index].position == cell {
            return objects[index].glyph;
        }
        index += 1;
    }
    ' '
}

impl View for Screen {
    type V = ScreenModel;

    closed spec fn view(&self) -> ScreenModel {
        ScreenModel {
            width: self.width as nat,
            height: self.height as nat,
            padx: self.padx as nat,
            pady: self.pady as nat,
            header: self.header@,
            footer: self.footer@,
        }
    }
}

impl Screen {
    #[verifier::type_invariant]
    spec fn playable(self) -> bool {
        MIN_WIDTH <= self.width <= u16::MAX && MIN_HEIGHT <= self.height <= u16::MAX
    }

    /// The screen for a terminal of the given size: the board takes seven
    /// tenths of either span and stands in the middle. None where that
    /// leaves the board narrower than `MIN_WIDTH` or lower than
    /// `MIN_HEIGHT`.
    pub fn new(term_width: u16, term_height: u16) -> (made: Option<Screen>)
        ensures
            made is Some <==> share(term_width as nat) >= MIN_WIDTH && share(term_height as nat)
                >= MIN_HEIGHT,
            made matches Some(screen) ==> screen@ == ScreenModel::fitted(
                term_width as nat,
                term_height as nat,
            ),
    {
        let width: u32 = term_width as u32 * 7 / 10;
        let height: u32 = term_height as u32 * 7 / 10;
        if width < MIN_WIDTH || height < MIN_HEIGHT {
            return None;
        }
        let padx: u32 = (term_width as u32 - (width + 2)) / 2;
        let pady: u32 = (term_height as u32 - (height + 2)) / 2;
        Some(Screen { width, height, padx, pady, header: String::new(), footer: String::new() })
    }

    /// The number of columns of the board.
    pub fn width(&self) -> (width: u32)
        ensures
            width == self@.width,
            MIN_WIDTH <= width <= u16::MAX,
    {
        proof {
            use_type_invariant(self);
        }
        self.width
    }

    /// The number of rows of the board.
    pub fn height(&self) -> (height: u32)
        ensures
            height == self@.height,
            MIN_HEIGHT <= height <= u16::MAX,
    {
        proof {
            use_type_invariant(self);
        }
        self.height
    }

    /// The blank columns to the left of the border.
    pub fn padx(&self) -> (padx: u32)
        ensures
            padx == self@.padx,
    {
        self.padx
    }

    /// The empty lines above and below the border.
    pub fn pady(&self) -> (pady: u32)
        ensures
            pady == self@.pady,
    {
        self.pady
    }

    /// The board that this screen shows.
    pub fn board(&self) -> (board: Board)
        ensures
            board.valid(),
            board.width() == self@.width,
            board.height() == self@.height,
    {
        proof {
            use_type_invariant(self);
        }
        Board::new(self.width, self.height).unwrap()
    }

    /// Puts words into the upper border.
    pub fn set_header(&mut self, header: String)
        ensures
            final(self)@ == (ScreenModel { header: header@, ..old(self)@ }),
    {
        proof {
            use_type_invariant(&*self);
        }
        self.header = header;
    }

    /// Puts words into the lower border.
    pub fn set_footer(&mut self, footer: String)
        ensures
            final(self)@ == (ScreenModel { footer: footer@, ..old(self)@ }),
    {
        proof {
            use_type_invariant(&*self);
        }
        self.footer = footer;
    }

    /// Appends the line of row `y`.
    fn append_row(&self, text: &mut String, objects: &[Entity], y: u32)
        requires
            y < self@.height,
        ensures
            final(text)@ == old(text)@ + self@.row(objects@, y as int),
    {
        proof {
            use_type_invariant(self);
        }
        append_run(text, ' ', self.padx as usize);
        push_char(text, '│');
        let ghost start = text@;
        let mut x: u32 = 0;
        while x < self.width
            invariant
                x <= self.width,
                self.width <= u16::MAX,
                y <= u16::MAX,
                text@ == start + cells_of_row(x as nat, objects@, y as int),
            decreases self.width - x,
        {
            let glyph = glyph_on(objects, Vector2 { x: x as i32, y: y as i32 });
            push_char(text, glyph);
            x += 1;
            assert(text@ =~= start + cells_of_row(x as nat, objects@, y as int));
        }
        push_char(text, '│');
        push_char(text, '\n');
        assert(text@ =~= old(text)@ + self@.row(objects@, y as int));
    }

    /// The frame as text: each cell of the board shows the first of
    /// `objects` that stands on it.
    pub fn render(&self, objects: &[Entity]) -> (text: String)
        ensures
            text@ == self@.painted(objects@),
    {
        proof {
            use_type_invariant(self);
        }
        let mut text = String::new();
        append_run(&mut text, '\n', self.pady as usize);
        append_run(&mut text, ' ', self.padx as usize);
        push_char(&mut text, '┌');
        append_banner(&mut text, self.width, &self.header);
        push_char(&mut text, '┐');
        push_char(&mut text, '\n');
        let ghost upper = text@;
        assert(upper =~= run('\n', self@.pady) + self@.top());
        let mut y: u32 = 0;
        while y < self.height
            invariant
                y <= self.height,
                text@ == upper + self@.rows(objects@, y as nat),
            decreases self.height - y,
        {
            self.append_row(&mut text, objects, y);
            y += 1;
            assert(text@ =~= upper + self@.rows(objects@, y as nat));
        }
        let ghost middle = text@;
        append_run(&mut text, ' ', self.padx as usize);
        push_char(&mut text, '└');
        append_banner(&mut text, self.width, &self.footer);
        push_char(&mut text, '┘');
        push_char(&mut text, '\n');
        assert(text@ =~= middle + self@.bottom());
        append_run(&mut text, '\n', self.pady as usize);
        assert(text@ =~= self@.painted(objects@));
        text
    }
}

} // verus!
