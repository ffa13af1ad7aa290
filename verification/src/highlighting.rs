use vstd::prelude::*;

verus! {

/// The class of one character of a row, by which it is coloured when drawn.
#[derive(PartialEq, Eq, Structural, Clone, Copy, Debug)]
pub enum Type {
    Plain,
    Number,
    String,
    Character,
    Comment,
    PrimaryKeywords,
    SecondaryKeywords,
    Match,
}

/// A foreground colour of the terminal.
#[derive(PartialEq, Eq, Structural, Clone, Copy, Debug)]
pub enum Colour {
    /// The terminal's own default foreground.
    Reset,
    Green,
    Yellow,
    Cyan,
    White,
    Rgb { r: u8, g: u8, b: u8 },
}

impl Type {
    /// The colour in which a character of this class is drawn.
    pub open spec fn colour(self) -> Colour {
        match self {
            Type::Number => Colour::Rgb { r: 244, g: 162, b: 97 },
            Type::String => Colour::Rgb { r: 233, g: 237, b: 201 },
            Type::Character => Colour::Rgb { r: 255, g: 200, b: 221 },
            Type::Comment => Colour::Rgb { r: 133, g: 153, b: 0 },
            Type::PrimaryKeywords => Colour::Green,
            Type::SecondaryKeywords => Colour::Yellow,
            Type::Match => Colour::Cyan,
            Type::Plain => Colour::White,
        }
    }

    /// The colour in which a character of this class is drawn.
    pub fn to_colour(self) -> (colour: Colour)
        ensures
            colour == self.colour(),
    {
        match self {
            Type::Number => Colour::Rgb { r: 244, g: 162, b: 97 },
            Type::String => Colour::Rgb { r: 233, g: 237, b: 201 },
            Type::Character => Colour::Rgb { r: 255, g: 200, b: 221 },
            Type::Comment => Colour::Rgb { r: 133, g: 153, b: 0 },
            Type::PrimaryKeywords => Colour::Green,
            Type::SecondaryKeywords => Colour::Yellow,
            Type::Match => Colour::Cyan,
            Type::Plain => Colour::White,
        }
    }
}

} // verus!
