use crate::grapheme::texts;
use crate::highlighting::{Colour, Type};
use crate::status::decimal;
use vstd::prelude::*;

verus! {

/// The control sequences that switch the colour of what a terminal prints
/// next: one for each highlight class, and one that ends the colouring.
pub struct Palette {
    pub plain: String,
    pub number: String,
    pub string: String,
    pub character: String,
    pub comment: String,
    pub primary_keywords: String,
    pub secondary_keywords: String,
    pub search_match: String,
    pub reset: String,
}

/// A palette as plain mathematical values.
pub struct PaletteView {
    pub plain: Seq<char>,
    pub number: Seq<char>,
    pub string: Seq<char>,
    pub character: Seq<char>,
    pub comment: Seq<char>,
    pub primary_keywords: Seq<char>,
    pub secondary_keywords: Seq<char>,
    pub search_match: Seq<char>,
    pub reset: Seq<char>,
}

impl PaletteView {
    /// The sequence that switches to the colour of the class `tag`.
    pub open spec fn marker(self, tag: Type) -> Seq<char> {
        match tag {
            Type::Plain => self.plain,
            Type::Number => self.number,
            Type::String => self.string,
            Type::Character => self.character,
            Type::Comment => self.comment,
            Type::PrimaryKeywords => self.primary_keywords,
            Type::SecondaryKeywords => self.secondary_keywords,
            Type::Match => self.search_match,
        }
    }
}

impl View for Palette {
    type V = PaletteView;

    open spec fn view(&self) -> PaletteView {
        PaletteView {
            plain: self.plain@,
            number: self.number@,
            string: self.string@,
            character: self.character@,
            comment: self.comment@,
            primary_keywords: self.primary_keywords@,
            secondary_keywords: self.secondary_keywords@,
            search_match: self.search_match@,
            reset: self.reset@,
        }
    }
}

/// The parameters by which a control sequence selects `colour` as the
/// foreground: 39 for the terminal's default, 38;5 and the number of one of
/// the sixteen named colours, 38;2 and the three parts of any other colour.
pub open spec fn colour_code(colour: Colour) -> Seq<char> {
    match colour {
        Colour::Reset => "39"@,
        Colour::Green => "38;5;10"@,
        Colour::Yellow => "38;5;11"@,
        Colour::Cyan => "38;5;14"@,
        Colour::White => "38;5;15"@,
        Colour::Rgb { r, g, b } => "38;2;"@ + decimal(r as nat) + seq![';'] + decimal(g as nat)
            + seq![';'] + decimal(b as nat),
    }
}

/// The control sequence that sets the way characters are drawn by the
/// parameters `code`: escape, an opening bracket, the parameters and `m`.
pub open spec fn control_sequence(code: Seq<char>) -> Seq<char> {
    seq!['\u{1b}', '['] + code + seq!['m']
}

/// `sequence` is what a terminal is sent to make `colour` its foreground:
/// the control sequence with the colour's parameters; the one without any
/// parameter, where the environment asks for output without colour; or
/// nothing, for a console that takes no control sequences.
pub open spec fn is_foreground_sequence(sequence: Seq<char>, colour: Colour) -> bool {
    ||| sequence == control_sequence(colour_code(colour))
    ||| sequence == control_sequence(Seq::empty())
    ||| sequence == Seq::<char>::empty()
}

impl PaletteView {
    /// Every marker is what a terminal is sent to make the colour of its
    /// class the foreground, and the reset sequence what it is sent to go
    /// back to its default foreground.
    pub open spec fn of_terminal(self) -> bool {
        &&& forall|tag: Type| is_foreground_sequence(#[trigger] self.marker(tag), tag.colour())
        &&& is_foreground_sequence(self.reset, Colour::Reset)
    }
}

/// Formats crossterm's command `SetForegroundColor` for `colour`, which gives
/// the control sequence that a terminal takes for it. Trusted: the text is
/// one of the three that crossterm's formatting can give for the colour. It
/// writes escape, a bracket, the colour's parameters and `m`; it leaves the
/// parameters out where the environment asks for output without colour; and
/// it writes nothing for a console that takes no control sequences. Which of
/// the three comes back is the environment's to decide.
#[verifier::external_body]
fn foreground_sequence(colour: Colour) -> (sequence: String)
    ensures
        is_foreground_sequence(sequence@, colour),
{
    let colour = match colour {
        Colour::Reset => crossterm::style::Color::Reset,
        Colour::Green => crossterm::style::Color::Green,
        Colour::Yellow => crossterm::style::Color::Yellow,
        Colour::Cyan => crossterm::style::Color::Cyan,
        Colour::White => crossterm::style::Color::White,
        Colour::Rgb { r, g, b } => crossterm::style::Color::Rgb { r, g, b },
    };
    format!("{}", crossterm::style::SetForegroundColor(colour))
}

impl Palette {
    /// The palette of the terminal: for each class the sequence that crossterm
    /// gives for setting the foreground to the colour of that class, and for
    /// the reset the one that it gives for the terminal's default foreground.
    pub fn terminal() -> (palette: Palette)
        ensures
            palette@.of_terminal(),
    {
        Palette {
            plain: foreground_sequence(Type::Plain.to_colour()),
            number: foreground_sequence(Type::Number.to_colour()),
            string: foreground_sequence(Type::String.to_colour()),
            character: foreground_sequence(Type::Character.to_colour()),
            comment: foreground_sequence(Type::Comment.to_colour()),
            primary_keywords: foreground_sequence(Type::PrimaryKeywords.to_colour()),
            secondary_keywords: foreground_sequence(Type::SecondaryKeywords.to_colour()),
            search_match: foreground_sequence(Type::Match.to_colour()),
            reset: foreground_sequence(Colour::Reset),
        }
    }

    /// The sequence that switches to the colour of the class `tag`.
    pub fn marker(&self, tag: Type) -> (sequence: &str)
        ensures
            sequence@ == self@.marker(tag),
    {
        match tag {
            Type::Plain => self.plain.as_str(),
            Type::Number => self.number.as_str(),
            Type::String => self.string.as_str(),
            Type::Character => self.character.as_str(),
            Type::Comment => self.comment.as_str(),
            Type::PrimaryKeywords => self.primary_keywords.as_str(),
            Type::SecondaryKeywords => self.secondary_keywords.as_str(),
            Type::Match => self.search_match.as_str(),
        }
    }
}

/// What is printed for the scalar value `c`: a tab is shown as one space.
pub open spec fn shown(c: char) -> char {
    if c == '\t' {
        ' '
    } else {
        c
    }
}

/// The class kept for index `index`: plain where `tags` holds none for it.
pub open spec fn tag_at(tags: Seq<Type>, index: int) -> Type {
    if 0 <= index < tags.len() {
        tags[index]
    } else {
        Type::Plain
    }
}

/// What is printed for the pieces of `parts` from index `from` up to index
/// `to` when the colour in force is that of `current`: of each piece its
/// first scalar value, and before it the marker of its class where that class
/// differs from the one in force.
pub open spec fn drawn(
    parts: Seq<Seq<char>>,
    tags: Seq<Type>,
    palette: PaletteView,
    from: int,
    to: int,
    current: Type,
) -> Seq<char>
    decreases to - from,
{
    if from < 0 || from >= to || from >= parts.len() {
        Seq::empty()
    } else if parts[from].len() == 0 {
        drawn(parts, tags, palette, from + 1, to, current)
    } else {
        let tag = tag_at(tags, from);
        let marker = if tag != current { palette.marker(tag) } else { Seq::empty() };
        marker + seq![shown(parts[from][0])] + drawn(parts, tags, palette, from + 1, to, tag)
    }
}

/// What is printed for the pieces of `parts` from index `start` up to index
/// `end`, with the markers of `palette` at every change of class and its
/// reset sequence at the end.
pub open spec fn rendered(
    parts: Seq<Seq<char>>,
    tags: Seq<Type>,
    palette: PaletteView,
    start: int,
    end: int,
) -> Seq<char> {
    drawn(parts, tags, palette, start, end, Type::Plain) + palette.reset
}

/// Renders the pieces of `parts` from index `start` up to index `end`.
/// `tags` holds the class of each piece by the piece's index.
pub fn render_clusters(
    parts: &[&str],
    tags: &[Type],
    start: usize,
    end: usize,
    palette: &Palette,
) -> (text: String)
    ensures
        text@ == rendered(texts(parts@), tags@, palette@, start as int, end as int),
{
    let stop = if end < parts.len() { end } else { parts.len() };
    let ghost pieces = texts(parts@);
    let mut text = String::new();
    let mut current = Type::Plain;
    let mut i = start;
    assert(text@ + drawn(pieces, tags@, palette@, i as int, end as int, current) =~= drawn(
        pieces,
        tags@,
        palette@,
        start as int,
        end as int,
        Type::Plain,
    ));
    while i < stop
        invariant
            pieces == texts(parts@),
            stop == (if end < parts@.len() { end as int } else { parts@.len() as int }),
            text@ + drawn(pieces, tags@, palette@, i as int, end as int, current) == drawn(
                pieces,
                tags@,
                palette@,
                start as int,
                end as int,
                Type::Plain,
            ),
        decreases stop - i,
    {
        let piece = parts[i];
        let ghost before = text@;
        let ghost rest = drawn(
            pieces,
            tags@,
            palette@,
            i + 1,
            end as int,
            tag_at(tags@, i as int),
        );
        assert(pieces[i as int] == piece@);
        if !piece.is_empty() {
            let c = piece.get_char(0);
            let tag = if i < tags.len() { tags[i] } else { Type::Plain };
            if tag != current {
                current = tag;
                text.append(palette.marker(tag));
            }
            let ghost marker = text@.subrange(before.len() as int, text@.len() as int);
            text.push(if c == '\t' { ' ' } else { c });
            assert(text@ + rest =~= before + (marker + seq![shown(c)] + rest));
        }
        i += 1;
    }
    text.append(palette.reset.as_str());
    text
}

} // verus!
