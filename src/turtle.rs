//! The turtle: position, heading, pen and colour, drawing into an image.

use vstd::prelude::*;
use crate::error::{ErrorV, RSLogoError};
use crate::text::{count_to_text, int_text};

verus! {

#[verifier::external_type_specification]
#[verifier::external_body]
pub struct ExImage(unsvg::Image);

/// A line drawn into an image: start x and y, end x and y, palette colour.
pub type Line = (i32, i32, i32, i32, u32);

/// The lines that `unsvg::Image::draw_simple_line` has drawn into an image,
/// each as its two points and the palette position of its colour.
pub uninterp spec fn drawn_lines(image: unsvg::Image) -> Seq<Line>;

/// The bound on a starting coordinate within which the image library stores
/// it in `f32` exactly.
pub const COORD_LIMIT: i32 = 0x100_0000;

/// The bound on a length within which the end point stays far inside `i32`,
/// so that the image library's conversion back cannot fail.
pub const LENGTH_LIMIT: i32 = 0x2000_0000;

/// Whether a line of `length` from `(x, y)` stays within the bounds.
pub open spec fn in_range(x: int, y: int, length: int) -> bool {
    -COORD_LIMIT <= x <= COORD_LIMIT && -COORD_LIMIT <= y <= COORD_LIMIT && 0 <= length
        <= LENGTH_LIMIT
}

/// The number of colours in the palette.
pub const PALETTE_SIZE: u32 = 16;

/// The palette position of white, the starting colour.
pub const WHITE: u32 = 7;

/// Relies on `unsvg::Image::new`, which panics unless both sides are
/// positive; a new image has no lines.
#[verifier::external_body]
fn new_image(width: u32, height: u32) -> (r: unsvg::Image)
    requires
        width > 0,
        height > 0,
    ensures
        drawn_lines(r) == Seq::<Line>::empty(),
{
    unsvg::Image::new(width, height)
}

/// Relies on `unsvg::get_end_coordinates` for where a line ends; it computes
/// in `f32` with `sin` and `cos`, whose precision std leaves open, so nothing
/// is stated of the point. Its conversions cannot fail within the bounds.
#[verifier::external_body]
fn end_coordinates(x: i32, y: i32, direction: i32, length: i32) -> (r: (i32, i32))
    requires
        in_range(x as int, y as int, length as int),
{
    unsvg::get_end_coordinates(x, y, direction, length)
}

/// The line from `(x, y)` to `end`, in palette colour `color`.
pub open spec fn segment(x: i32, y: i32, end: (i32, i32), color: u32) -> Line {
    (x, y, end.0, end.1, color)
}

/// Relies on `unsvg::Image::draw_simple_line`: it returns the end point it
/// drew to and appends that line; its path of a move and a line between
/// finite points always builds.
#[verifier::external_body]
fn draw_line(
    image: &mut unsvg::Image,
    x: i32,
    y: i32,
    direction: i32,
    length: i32,
    color: u32,
) -> (r: Result<(i32, i32), String>)
    requires
        in_range(x as int, y as int, length as int),
        color < PALETTE_SIZE,
    ensures
        r is Ok,
        r is Ok ==> drawn_lines(*final(image)) == drawn_lines(*old(image)).push(segment(x, y, r->Ok_0, color)),
{
    image.draw_simple_line(x, y, direction, length, unsvg::COLORS[color as usize])
}

/// The turtle's state and the lines it has drawn.
pub ghost struct TurtleV {
    pub x: i32,
    pub y: i32,
    pub heading: i32,
    pub pen_down: bool,
    pub color: u32,
    pub lines: Seq<Line>,
    /// The end points the image library has returned, one for each move.
    pub answers: Seq<(i32, i32)>,
}

/// The answer a move from `before` got, as recorded in `after`.
pub open spec fn next_answer(before: TurtleV, after: TurtleV) -> (i32, i32) {
    answer_of(after.answers, before.answers.len() as int)
}

/// The `k`-th answer of a list of end points, or the origin past its end.
pub open spec fn answer_of(answers: Seq<(i32, i32)>, k: int) -> (i32, i32) {
    if 0 <= k < answers.len() {
        answers[k]
    } else {
        (0, 0)
    }
}

pub open spec fn out_of_range_error() -> ErrorV {
    ErrorV::DrawError("position out of drawable range"@)
}

/// The turtle after a movement of `length` (not negative) in `direction` that
/// the image library ended at `p`, or the error that stops it before.
pub open spec fn moved(t: TurtleV, direction: int, length: int, p: (i32, i32)) -> Result<TurtleV, ErrorV> {
    if !(i32::MIN <= direction <= i32::MAX) || !(i32::MIN <= length <= i32::MAX) {
        Err(ErrorV::Overflow)
    } else if !in_range(t.x as int, t.y as int, length) {
        Err(out_of_range_error())
    } else {
        let lines = if t.pen_down { t.lines.push(segment(t.x, t.y, p, t.color)) } else { t.lines };
        Ok(TurtleV { x: p.0, y: p.1, lines, answers: t.answers.push(p), ..t })
    }
}

/// `FORWARD n`: a negative distance goes back.
pub open spec fn forward_of(t: TurtleV, n: i32, p: (i32, i32)) -> Result<TurtleV, ErrorV> {
    if n >= 0 {
        moved(t, t.heading as int, n as int, p)
    } else {
        moved(t, t.heading + 180, -n, p)
    }
}

/// `BACK n`: a negative distance goes forward.
pub open spec fn back_of(t: TurtleV, n: i32, p: (i32, i32)) -> Result<TurtleV, ErrorV> {
    if n >= 0 {
        moved(t, t.heading + 180, n as int, p)
    } else {
        moved(t, t.heading as int, -n, p)
    }
}

/// `LEFT n`: a negative distance goes right.
pub open spec fn left_of(t: TurtleV, n: i32, p: (i32, i32)) -> Result<TurtleV, ErrorV> {
    if n >= 0 {
        moved(t, t.heading - 90, n as int, p)
    } else {
        moved(t, t.heading + 90, -n, p)
    }
}

/// `RIGHT n`: a negative distance is handed to `LEFT` unchanged, which turns
/// it back into a move to the right by its size.
pub open spec fn right_of(t: TurtleV, n: i32, p: (i32, i32)) -> Result<TurtleV, ErrorV> {
    if n >= 0 {
        moved(t, t.heading + 90, n as int, p)
    } else {
        left_of(t, n, p)
    }
}

pub open spec fn color_error(code: u32) -> ErrorV {
    ErrorV::InvalidArgument {
        command: "SETPENCOLOR"@,
        argument: int_text(code as int),
        expected: "SETPENCOLOR <u32 type String>"@,
    }
}

/// The cursor that draws.
pub struct Turtle {
    x: i32,
    y: i32,
    heading: i32,
    pen_down: bool,
    color: u32,
    image: unsvg::Image,
    answers: Ghost<Seq<(i32, i32)>>,
}

impl View for Turtle {
    type V = TurtleV;

    closed spec fn view(&self) -> TurtleV {
        TurtleV {
            x: self.x,
            y: self.y,
            heading: self.heading,
            pen_down: self.pen_down,
            color: self.color,
            lines: drawn_lines(self.image),
            answers: self.answers@,
        }
    }
}

pub open spec fn start_turtle(width: u32, height: u32) -> TurtleV {
    TurtleV {
        x: (width / 2) as i32,
        y: (height / 2) as i32,
        heading: 0,
        pen_down: false,
        color: WHITE,
        lines: Seq::empty(),
        answers: Seq::empty(),
    }
}

impl Turtle {
    /// A turtle in the middle of a blank image, heading up, pen up, in white.
    pub fn new(width: u32, height: u32) -> (r: Self)
        requires
            width > 0,
            height > 0,
        ensures
            r@ == start_turtle(width, height),
            r.wf(),
    {
        Self {
            x: (width / 2) as i32,
            y: (height / 2) as i32,
            heading: 0,
            pen_down: false,
            color: WHITE,
            image: new_image(width, height),
            answers: Ghost(Seq::empty()),
        }
    }

    pub open spec fn wf(&self) -> bool {
        self@.color < PALETTE_SIZE
    }

    pub fn pen_up(&mut self)
        ensures
            final(self)@ == (TurtleV { pen_down: false, ..old(self)@ }),
    {
        self.pen_down = false;
    }

    pub fn pen_down(&mut self)
        ensures
            final(self)@ == (TurtleV { pen_down: true, ..old(self)@ }),
    {
        self.pen_down = true;
    }

    fn apply_move(&mut self, direction: i64, length: i64) -> (r: Result<(), RSLogoError>)
        requires
            old(self).wf(),
            length >= 0,
        ensures
            final(self).wf(),
            match moved(old(self)@, direction as int, length as int, next_answer(old(self)@, final(self)@)) {
                Ok(t) => r is Ok && final(self)@ == t,
                Err(e) => r is Err && r->Err_0@ == e && final(self)@ == old(self)@,
            },
    {
        if direction < i32::MIN as i64 || direction > i32::MAX as i64 || length > i32::MAX as i64 {
            return Err(RSLogoError::Overflow);
        }
        if self.x < -COORD_LIMIT || self.x > COORD_LIMIT || self.y < -COORD_LIMIT || self.y
            > COORD_LIMIT || length > LENGTH_LIMIT as i64 {
            return Err(RSLogoError::DrawError("position out of drawable range".to_owned()));
        }
        self.process_movement(length as i32, direction as i32)
    }

    fn process_movement(&mut self, numpixels: i32, direction: i32) -> (r: Result<(), RSLogoError>)
        requires
            old(self).wf(),
            in_range(old(self)@.x as int, old(self)@.y as int, numpixels as int),
        ensures
            final(self).wf(),
            match moved(old(self)@, direction as int, numpixels as int, next_answer(old(self)@, final(self)@)) {
                Ok(t) => r is Ok && final(self)@ == t,
                Err(e) => r is Err && r->Err_0@ == e && final(self)@ == old(self)@,
            },
    {
        let p = if self.pen_down {
            match draw_line(&mut self.image, self.x, self.y, direction, numpixels, self.color) {
                Ok(p) => p,
                Err(m) => {
                    return Err(RSLogoError::DrawError(m));
                },
            }
        } else {
            end_coordinates(self.x, self.y, direction, numpixels)
        };
        self.x = p.0;
        self.y = p.1;
        self.answers = Ghost(self.answers@.push(p));
        Ok(())
    }

    pub fn forward(&mut self, numpixels: i32) -> (r: Result<(), RSLogoError>)
        requires
            old(self).wf(),
        ensures
            final(self).wf(),
            match forward_of(old(self)@, numpixels, next_answer(old(self)@, final(self)@)) {
                Ok(t) => r is Ok && final(self)@ == t,
                Err(e) => r is Err && r->Err_0@ == e && final(self)@ == old(self)@,
            },
    {
        let h = self.heading as i64;
        let n = numpixels as i64;
        if n >= 0 {
            self.apply_move(h, n)
        } else {
            self.apply_move(h + 180, -n)
        }
    }

    pub fn back(&mut self, numpixels: i32) -> (r: Result<(), RSLogoError>)
        requires
            old(self).wf(),
        ensures
            final(self).wf(),
            match back_of(old(self)@, numpixels, next_answer(old(self)@, final(self)@)) {
                Ok(t) => r is Ok && final(self)@ == t,
                Err(e) => r is Err && r->Err_0@ == e && final(self)@ == old(self)@,
            },
    {
        let h = self.heading as i64;
        let n = numpixels as i64;
        if n >= 0 {
            self.apply_move(h + 180, n)
        } else {
            self.apply_move(h, -n)
        }
    }

    pub fn left(&mut self, numpixels: i32) -> (r: Result<(), RSLogoError>)
        requires
            old(self).wf(),
        ensures
            final(self).wf(),
            match left_of(old(self)@, numpixels, next_answer(old(self)@, final(self)@)) {
                Ok(t) => r is Ok && final(self)@ == t,
                Err(e) => r is Err && r->Err_0@ == e && final(self)@ == old(self)@,
            },
    {
        let h = self.heading as i64;
        let n = numpixels as i64;
        if n >= 0 {
            self.apply_move(h - 90, n)
        } else {
            self.apply_move(h + 90, -n)
        }
    }

    pub fn right(&mut self, numpixels: i32) -> (r: Result<(), RSLogoError>)
        requires
            old(self).wf(),
        ensures
            final(self).wf(),
            match right_of(old(self)@, numpixels, next_answer(old(self)@, final(self)@)) {
                Ok(t) => r is Ok && final(self)@ == t,
                Err(e) => r is Err && r->Err_0@ == e && final(self)@ == old(self)@,
            },
    {
        if numpixels >= 0 {
            self.apply_move(self.heading as i64 + 90, numpixels as i64)
        } else {
            self.left(numpixels)
        }
    }

    /// Picks a palette colour; a code past the palette is `InvalidArgument`.
    pub fn set_pen_color(&mut self, colorcode: u32) -> (r: Result<(), RSLogoError>)
        requires
            old(self).wf(),
        ensures
            final(self).wf(),
            colorcode < PALETTE_SIZE ==> r is Ok && final(self)@ == (TurtleV {
                color: colorcode,
                ..old(self)@
            }),
            colorcode >= PALETTE_SIZE ==> r is Err && r->Err_0@ == color_error(colorcode)
                && final(self)@ == old(self)@,
    {
        if colorcode >= PALETTE_SIZE {
            return Err(
                RSLogoError::InvalidArgument {
                    command: "SETPENCOLOR".to_owned(),
                    argument: count_to_text(colorcode as usize),
                    expected: "SETPENCOLOR <u32 type String>".to_owned(),
                },
            );
        }
        self.color = colorcode;
        Ok(())
    }

    /// Turns by `degrees`; a heading past 32 bits is `Overflow`.
    pub fn turn(&mut self, degrees: i32) -> (r: Result<(), RSLogoError>)
        ensures
            ({
                let h = old(self)@.heading + degrees;
                &&& i32::MIN <= h <= i32::MAX ==> r is Ok && final(self)@ == (TurtleV {
                    heading: h as i32,
                    ..old(self)@
                })
                &&& !(i32::MIN <= h <= i32::MAX) ==> r is Err && r->Err_0 is Overflow
                    && final(self)@ == old(self)@
            }),
    {
        match self.heading.checked_add(degrees) {
            Some(h) => {
                self.heading = h;
                Ok(())
            },
            None => Err(RSLogoError::Overflow),
        }
    }

    pub fn set_heading(&mut self, degrees: i32)
        ensures
            final(self)@ == (TurtleV { heading: degrees, ..old(self)@ }),
    {
        self.heading = degrees;
    }

    pub fn set_x(&mut self, location: i32)
        ensures
            final(self)@ == (TurtleV { x: location, ..old(self)@ }),
    {
        self.x = location;
    }

    pub fn set_y(&mut self, location: i32)
        ensures
            final(self)@ == (TurtleV { y: location, ..old(self)@ }),
    {
        self.y = location;
    }

    pub fn get_x(&self) -> (r: i32)
        ensures
            r == self@.x,
    {
        self.x
    }

    pub fn get_y(&self) -> (r: i32)
        ensures
            r == self@.y,
    {
        self.y
    }

    pub fn get_heading(&self) -> (r: i32)
        ensures
            r == self@.heading,
    {
        self.heading
    }

    /// The palette position of the pen colour.
    pub fn get_pen_color(&self) -> (r: u32)
        ensures
            r == self@.color,
    {
        self.color
    }

    pub fn is_pen_down(&self) -> (r: bool)
        ensures
            r == self@.pen_down,
    {
        self.pen_down
    }

    /// What has been drawn so far.
    pub fn image(&self) -> &unsvg::Image {
        &self.image
    }
}

} // verus!
