//! The text that shows the car: a marker above the row of floors, and the
//! state of the car below it.

use vstd::prelude::*;
use vstd::string::*;
use crate::elevator::Elevator;
use crate::error::ElevatorError;
use crate::floor::{in_range, Floor, MAX_FLOOR, MIN_FLOOR};
use crate::model::Car;
use crate::motion::{Dir, State};

verus! {

/// The character that writes the digit `d`.
pub open spec fn digit_char(d: int) -> char {
    if d == 0 {
        '0'
    } else if d == 1 {
        '1'
    } else if d == 2 {
        '2'
    } else if d == 3 {
        '3'
    } else if d == 4 {
        '4'
    } else if d == 5 {
        '5'
    } else if d == 6 {
        '6'
    } else if d == 7 {
        '7'
    } else if d == 8 {
        '8'
    } else {
        '9'
    }
}

/// The digits that write `n` in base ten, without leading zeros.
pub open spec fn digits_text(n: nat) -> Seq<char>
    decreases n,
{
    if n < 10 {
        seq![digit_char(n as int)]
    } else {
        digits_text(n / 10).push(digit_char((n % 10) as int))
    }
}

/// The text that writes `n` in base ten, with a minus sign where it is
/// negative.
pub open spec fn numeral_text(n: int) -> Seq<char> {
    if n < 0 {
        seq!['-'] + digits_text((-n) as nat)
    } else {
        digits_text(n as nat)
    }
}

/// `n` spaces.
pub open spec fn spaces(n: nat) -> Seq<char> {
    Seq::new(n, |i: int| ' ')
}

/// `s`, with spaces before it where it is shorter than `width`.
pub open spec fn right_aligned(s: Seq<char>, width: nat) -> Seq<char> {
    if s.len() >= width {
        s
    } else {
        spaces((width - s.len()) as nat) + s
    }
}

/// The cell of floor `n` in the row of floors: its number in brackets,
/// right-aligned to two places and followed by a space.
pub open spec fn cell_text(n: int) -> Seq<char> {
    seq!['['] + right_aligned(numeral_text(n), 2) + seq![' ', ']']
}

/// The cells of the floors from `lo` to `hi`, with a space between each two.
pub open spec fn row_text(lo: int, hi: int) -> Seq<char>
    decreases hi - lo,
{
    if hi < lo {
        Seq::empty()
    } else if hi == lo {
        cell_text(lo)
    } else {
        row_text(lo, hi - 1) + seq![' '] + cell_text(hi)
    }
}

/// The name of a motion state.
pub open spec fn state_text(state: State) -> Seq<char> {
    match state {
        State::Stopped => "Stopped"@,
        State::Moving(Dir::Up) => "Moving(Up)"@,
        State::Moving(Dir::Down) => "Moving(Down)"@,
        State::Opened => "Opened"@,
    }
}

/// The marker that stands above the car's floor: a star while the doors are
/// open, and an arrow head otherwise.
pub open spec fn marker(state: State) -> char {
    if state is Opened {
        '*'
    } else {
        'v'
    }
}

/// The picture of a car: a line with the marker above the number of the
/// car's floor, the row of all floors, an empty line, and the state.
pub open spec fn picture_text(car: Car) -> Seq<char> {
    spaces((6 * (car.cur - MIN_FLOOR) + 2) as nat) + seq![marker(car.state), '\n'] + row_text(
        MIN_FLOOR as int,
        MAX_FLOOR as int,
    ) + "\n\nState: "@ + state_text(car.state)
}

/// The whole screen: a heading, a line of instructions, and the picture of
/// the car.
pub open spec fn frame_text(car: Car) -> Seq<char> {
    "\nElevator\n\nEnter floor number to move elevator\n\n"@ + picture_text(car) + "\n  "@
}

/// What an error says.
pub open spec fn message_text(e: ElevatorError) -> Seq<char> {
    match e {
        ElevatorError::InvalidFloorText => "Floor is not a number"@,
        ElevatorError::OutOfRange(_) => "Floor not in range"@,
        ElevatorError::ChannelDisconnected => "Input has gone away"@,
        ElevatorError::DisplayIOFailure => "Display could not be drawn"@,
    }
}

/// The line that reports an error below the screen.
pub open spec fn error_line_text(e: ElevatorError) -> Seq<char> {
    "Error: "@ + message_text(e) + "\n"@
}

/// The text of one digit.
fn digit_str(d: u8) -> (s: &'static str)
    requires
        d < 10,
    ensures
        s@ == seq![digit_char(d as int)],
{
    proof {
        reveal_strlit("0");
        reveal_strlit("1");
        reveal_strlit("2");
        reveal_strlit("3");
        reveal_strlit("4");
        reveal_strlit("5");
        reveal_strlit("6");
        reveal_strlit("7");
        reveal_strlit("8");
        reveal_strlit("9");
    }
    let s = match d {
        0 => "0",
        1 => "1",
        2 => "2",
        3 => "3",
        4 => "4",
        5 => "5",
        6 => "6",
        7 => "7",
        8 => "8",
        _ => "9",
    };
    assert(s@ =~= seq![digit_char(d as int)]);
    s
}

/// Appends the digits that write `m` in base ten to `out`.
fn push_digits(out: &mut String, m: u64)
    ensures
        final(out)@ == old(out)@ + digits_text(m as nat),
    decreases m,
{
    if m >= 10 {
        push_digits(out, m / 10);
    }
    out.append(digit_str((m % 10) as u8));
    assert(out@ =~= old(out)@ + digits_text(m as nat));
}

/// Writes `n` in base ten.
pub fn numeral(n: i64) -> (s: String)
    ensures
        s@ == numeral_text(n as int),
{
    let mut s = String::new();
    let m: u64 = if n < 0 {
        proof {
            reveal_strlit("-");
        }
        s.append("-");
        (0 - n as i128) as u64
    } else {
        n as u64
    };
    let ghost sign = s@;
    assert(sign =~= if n < 0 {
        seq!['-']
    } else {
        Seq::<char>::empty()
    });
    push_digits(&mut s, m);
    s
}

/// Appends `n` spaces to `out`.
fn push_spaces(out: &mut String, n: usize)
    ensures
        final(out)@ == old(out)@ + spaces(n as nat),
{
    proof {
        reveal_strlit(" ");
    }
    let mut i: usize = 0;
    assert(out@ =~= old(out)@ + spaces(0));
    while i < n
        invariant
            i <= n,
            " "@ == seq![' '],
            out@ == old(out)@ + spaces(i as nat),
        decreases n - i,
    {
        out.append(" ");
        assert(out@ =~= old(out)@ + spaces((i + 1) as nat));
        i = i + 1;
    }
}

/// The cell of `floor` in the row of floors.
pub fn cell(floor: Floor) -> (s: String)
    ensures
        s@ == cell_text(floor@),
{
    proof {
        reveal_strlit("[");
        reveal_strlit(" ]");
    }
    let number = numeral(floor.0);
    let mut s = String::from_str("[");
    let width: usize = number.as_str().unicode_len();
    if width < 2 {
        push_spaces(&mut s, 2 - width);
    }
    s.append(number.as_str());
    s.append(" ]");
    assert(s@ =~= cell_text(floor@));
    s
}

/// The row of all floors that the car serves, from the lowest to the
/// highest.
pub fn row() -> (s: String)
    ensures
        s@ == row_text(MIN_FLOOR as int, MAX_FLOOR as int),
{
    proof {
        reveal_strlit(" ");
    }
    let mut s = cell(Floor(MIN_FLOOR));
    let mut f: i64 = MIN_FLOOR;
    assert(s@ == row_text(MIN_FLOOR as int, f as int));
    while f < MAX_FLOOR
        invariant
            MIN_FLOOR <= f <= MAX_FLOOR,
            " "@ == seq![' '],
            s@ == row_text(MIN_FLOOR as int, f as int),
        decreases MAX_FLOOR - f,
    {
        f = f + 1;
        s.append(" ");
        let c = cell(Floor(f));
        s.append(c.as_str());
    }
    s
}

/// The name of a motion state.
pub fn state_name(state: &State) -> (s: &'static str)
    ensures
        s@ == state_text(*state),
{
    match state {
        State::Stopped => "Stopped",
        State::Moving(Dir::Up) => "Moving(Up)",
        State::Moving(Dir::Down) => "Moving(Down)",
        State::Opened => "Opened",
    }
}

impl ElevatorError {
    /// What the error says.
    pub fn message(&self) -> (s: String)
        ensures
            s@ == message_text(*self),
    {
        match self {
            ElevatorError::InvalidFloorText => String::from_str("Floor is not a number"),
            ElevatorError::OutOfRange(_) => String::from_str("Floor not in range"),
            ElevatorError::ChannelDisconnected => String::from_str("Input has gone away"),
            ElevatorError::DisplayIOFailure => String::from_str("Display could not be drawn"),
        }
    }
}

/// The line that reports an error below the screen.
pub fn error_line(e: &ElevatorError) -> (s: String)
    ensures
        s@ == error_line_text(*e),
{
    let mut s = String::from_str("Error: ");
    let message = e.message();
    s.append(message.as_str());
    s.append("\n");
    s
}

impl Elevator {
    /// The picture of the car. The car has to stand at a floor that it
    /// serves, for the marker to have a place.
    pub fn render(&self) -> (s: String)
        requires
            in_range(self@.cur),
        ensures
            s@ == picture_text(self@),
    {
        proof {
            reveal_strlit("*\n");
            reveal_strlit("v\n");
        }
        let mut s = String::new();
        push_spaces(&mut s, 6 * self.idx() + 2);
        if self.is_opened() {
            s.append("*\n");
        } else {
            s.append("v\n");
        }
        let floors = row();
        s.append(floors.as_str());
        s.append("\n\nState: ");
        s.append(state_name(self.state()));
        assert(s@ =~= picture_text(self@));
        s
    }

    /// The whole screen for the car: heading, instructions and picture.
    pub fn frame(&self) -> (s: String)
        requires
            in_range(self@.cur),
        ensures
            s@ == frame_text(self@),
    {
        let mut s = String::from_str("\nElevator\n\nEnter floor number to move elevator\n\n");
        let picture = self.render();
        s.append(picture.as_str());
        s.append("\n  ");
        s
    }
}

} // verus!
