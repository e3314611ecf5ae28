//! What can be wrong with the inputs.
use vstd::prelude::*;
use vstd::string::StringExecFns;

verus! {

/// One of the three inputs.
#[derive(Clone, Copy, Debug, PartialEq, Eq, Structural)]
pub enum Input {
    X,
    Y,
    Classes,
}

/// Why the inputs were refused. Nothing is rendered where one of these is
/// returned.
#[derive(Clone, Copy, Debug, PartialEq, Eq, Structural)]
pub enum WktError {
    /// An input does not have exactly one axis; `rank` is the number it has.
    Dimension { input: Input, rank: usize },
    /// The three inputs are not all of one length.
    LengthMismatch { x: usize, y: usize, classes: usize },
    /// There are fewer than two points.
    InsufficientLength { length: usize },
}

/// The decimal digit `d`, for `d` below 10.
pub open spec fn digit_text(d: nat) -> Seq<char> {
    if d == 0 {
        "0"@
    } else if d == 1 {
        "1"@
    } else if d == 2 {
        "2"@
    } else if d == 3 {
        "3"@
    } else if d == 4 {
        "4"@
    } else if d == 5 {
        "5"@
    } else if d == 6 {
        "6"@
    } else if d == 7 {
        "7"@
    } else if d == 8 {
        "8"@
    } else {
        "9"@
    }
}

/// `n` in decimal, without leading zeros.
pub open spec fn decimal_text(n: nat) -> Seq<char>
    decreases n,
{
    if n < 10 {
        digit_text(n)
    } else {
        decimal_text(n / 10) + digit_text(n % 10)
    }
}

fn digit(d: usize) -> (text: &'static str)
    requires
        d < 10,
    ensures
        text@ == digit_text(d as nat),
{
    if d == 0 {
        "0"
    } else if d == 1 {
        "1"
    } else if d == 2 {
        "2"
    } else if d == 3 {
        "3"
    } else if d == 4 {
        "4"
    } else if d == 5 {
        "5"
    } else if d == 6 {
        "6"
    } else if d == 7 {
        "7"
    } else if d == 8 {
        "8"
    } else {
        "9"
    }
}

/// `n` written in decimal.
pub fn decimal(n: usize) -> (text: String)
    ensures
        text@ == decimal_text(n as nat),
    decreases n,
{
    if n < 10 {
        String::from_str(digit(n))
    } else {
        let mut text = decimal(n / 10);
        text.append(digit(n % 10));
        text
    }
}

impl Input {
    /// The name by which messages call the input.
    pub open spec fn name_text(self) -> Seq<char> {
        match self {
            Input::X => "x"@,
            Input::Y => "y"@,
            Input::Classes => "classes"@,
        }
    }

    /// The name by which messages call the input.
    pub fn name(&self) -> (text: &'static str)
        ensures
            text@ == self.name_text(),
    {
        match self {
            Input::X => "x",
            Input::Y => "y",
            Input::Classes => "classes",
        }
    }
}

impl WktError {
    /// What `message` says: which input has how many axes, the three lengths
    /// (x, y, labels), or the length that is too short.
    pub open spec fn message_text(self) -> Seq<char> {
        match self {
            WktError::Dimension { input, rank } => "Expected 1d array for "@ + input.name_text()
                + ", but found "@ + decimal_text(rank as nat),
            WktError::LengthMismatch { x, y, classes } => "Array lengths mismatch "@
                + decimal_text(x as nat) + " "@ + decimal_text(y as nat) + " "@ + decimal_text(
                classes as nat,
            ),
            WktError::InsufficientLength { length } => "Insufficient array length "@
                + decimal_text(length as nat),
        }
    }

    /// The fault in words.
    pub fn message(&self) -> (text: String)
        ensures
            text@ == self.message_text(),
    {
        match self {
            WktError::Dimension { input, rank } => {
                let mut text = String::from_str("Expected 1d array for ");
                text.append(input.name());
                text.append(", but found ");
                text.append(decimal(*rank).as_str());
                text
            },
            WktError::LengthMismatch { x, y, classes } => {
                let mut text = String::from_str("Array lengths mismatch ");
                text.append(decimal(*x).as_str());
                text.append(" ");
                text.append(decimal(*y).as_str());
                text.append(" ");
                text.append(decimal(*classes).as_str());
                text
            },
            WktError::InsufficientLength { length } => {
                let mut text = String::from_str("Insufficient array length ");
                text.append(decimal(*length).as_str());
                text
            },
        }
    }
}

} // verus!
