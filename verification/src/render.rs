//! The text that shows an airport and its runways.

use crate::model::{runway_views, Airport, AirportView, Runway, RunwayView};
use vstd::prelude::*;

verus! {

/// The character that stands for a decimal digit.
pub open spec fn digit(value: int) -> char {
    ('0' as int + value) as char
}

/// The decimal digits of a natural number, the most significant first.
pub open spec fn digits(value: nat) -> Seq<char>
    decreases value,
{
    if value < 10 {
        seq![digit(value as int)]
    } else {
        digits(value / 10).push(digit((value % 10) as int))
    }
}

/// A whole number in decimal, with a minus sign before a negative one.
pub open spec fn decimal(value: int) -> Seq<char> {
    if value < 0 {
        seq!['-'] + digits((-value) as nat)
    } else {
        digits(value as nat)
    }
}

/// `text` moved to the right edge of a column of `width` characters: spaces
/// fill the column on the left, and a text that is wider stays as it is.
pub open spec fn right_aligned(text: Seq<char>, width: nat) -> Seq<char> {
    if text.len() >= width {
        text
    } else {
        Seq::new((width - text.len()) as nat, |i: int| ' ') + text
    }
}

/// The length of a runway as it is shown: in feet, or as unknown.
pub open spec fn length_text(length: Option<i32>) -> Seq<char> {
    match length {
        Some(feet) => decimal(feet as int) + "ft"@,
        None => "unknown"@,
    }
}

/// The line that shows a runway: its name, its length at the right edge of a
/// column of eight characters, and a mark where it is lighted.
pub open spec fn runway_line(runway: RunwayView) -> Seq<char> {
    "  "@ + runway.name + " "@ + right_aligned(length_text(runway.length), 8) + (if runway.is_lighted {
        "  +L"@
    } else {
        Seq::empty()
    }) + "\n"@
}

/// The lines that show `runways`, one after the other.
pub open spec fn runway_lines(runways: Seq<RunwayView>) -> Seq<char>
    decreases runways.len(),
{
    if runways.len() == 0 {
        Seq::empty()
    } else {
        runway_lines(runways.drop_last()) + runway_line(runways.last())
    }
}

/// The text that shows an airport: identifier and name, with the elevation
/// where it is known; municipality, region and position, each on a line of
/// its own; and, where the airport has runways, their lines under a heading.
/// `position` is the position of the airport as it is to be shown.
pub open spec fn airport_text(airport: AirportView, position: Seq<char>) -> Seq<char> {
    airport.ident + " "@ + airport.name + (match airport.elevation_ft {
        Some(feet) => " ("@ + decimal(feet as int) + " feet)"@,
        None => Seq::empty(),
    }) + "\n  "@ + airport.municipality + "\n  "@ + airport.iso_region + "\n  "@ + position + (
    if airport.runways.len() == 0 {
        Seq::empty()
    } else {
        "\n\nRunways:\n"@ + runway_lines(airport.runways)
    })
}

fn digit_text(value: u32) -> (text: &'static str)
    requires
        value < 10,
    ensures
        text@ == seq![digit(value as int)],
{
    proof {
        reveal_strlit("0");
        reveal_strlit("1");
        reveal_strlit("2");
        reveal_strlit("3");
        reveal_strlit("4");
        reveal_strlit("5");
        reveal_strlit("6");
        reveal_strlit("7");
        reveal_strlit("8");
        reveal_strlit("9");
    }
    let text = if value == 0 {
        "0"
    } else if value == 1 {
        "1"
    } else if value == 2 {
        "2"
    } else if value == 3 {
        "3"
    } else if value == 4 {
        "4"
    } else if value == 5 {
        "5"
    } else if value == 6 {
        "6"
    } else if value == 7 {
        "7"
    } else if value == 8 {
        "8"
    } else {
        "9"
    };
    assert(text@ =~= seq![digit(value as int)]);
    text
}

fn append_digits(text: &mut String, value: u32)
    ensures
        final(text)@ == old(text)@ + digits(value as nat),
    decreases value,
{
    if value >= 10 {
        append_digits(text, value / 10);
    }
    text.append(digit_text(value % 10));
    proof {
        if value >= 10 {
            assert(old(text)@ + digits(value as nat) =~= (old(text)@ + digits((value / 10) as nat))
                + seq![digit((value % 10) as int)]);
        }
    }
}

/// Writes a whole number in decimal.
pub fn decimal_text(value: i32) -> (text: String)
    ensures
        text@ == decimal(value as int),
{
    let mut text = String::new();
    if value < 0 {
        let magnitude: u32 = (0 - (value as i64)) as u32;
        text.append("-");
        append_digits(&mut text, magnitude);
        proof {
            reveal_strlit("-");
            assert(text@ =~= seq!['-'] + digits((-value) as nat));
        }
    } else {
        append_digits(&mut text, value as u32);
        assert(text@ =~= digits(value as nat));
    }
    text
}

/// Writes `text` at the end of `line`, at the right edge of a column of
/// `width` characters.
pub fn append_right_aligned(line: &mut String, text: &str, width: usize)
    ensures
        final(line)@ == old(line)@ + right_aligned(text@, width as nat),
{
    let length = text.unicode_len();
    let mut filled: usize = length;
    while filled < width
        invariant
            length == text@.len(),
            length <= filled,
            filled <= width || filled == length,
            line@ == old(line)@ + Seq::new((filled - length) as nat, |i: int| ' '),
        decreases width - filled,
    {
        line.append(" ");
        filled = filled + 1;
        proof {
            reveal_strlit(" ");
            assert(line@ =~= old(line)@ + Seq::new((filled - length) as nat, |i: int| ' '));
        }
    }
    line.append(text);
    proof {
        assert(line@ =~= old(line)@ + right_aligned(text@, width as nat));
    }
}

impl Runway {
    /// The line that shows the runway in the text of its airport.
    pub fn render(&self) -> (line: String)
        ensures
            line@ == runway_line(self@),
    {
        let length = match self.length {
            Some(feet) => {
                let mut length = decimal_text(feet);
                length.append("ft");
                length
            },
            None => String::from_str("unknown"),
        };
        let mut line = String::from_str("  ");
        line.append(self.name.as_str());
        line.append(" ");
        append_right_aligned(&mut line, length.as_str(), 8);
        if self.is_lighted {
            line.append("  +L");
        }
        line.append("\n");
        proof {
            assert(line@ =~= runway_line(self@));
        }
        line
    }
}

impl Airport {
    /// The text that shows the airport. `position` is the position of the
    /// airport as it is to be shown.
    pub fn render(&self, position: &str) -> (text: String)
        ensures
            text@ == airport_text(self@, position@),
    {
        let mut text = self.ident.clone();
        text.append(" ");
        text.append(self.name.as_str());
        match self.elevation_ft {
            Some(feet) => {
                text.append(" (");
                text.append(decimal_text(feet).as_str());
                text.append(" feet)");
            },
            None => {},
        }
        text.append("\n  ");
        text.append(self.municipality.as_str());
        text.append("\n  ");
        text.append(self.iso_region.as_str());
        text.append("\n  ");
        text.append(position);
        let ghost head = text@;
        let ghost shown = runway_views(self.runways@);
        if self.runways.len() > 0 {
            text.append("\n\nRunways:\n");
            let ghost heading = text@;
            assert(runway_lines(shown.take(0)) =~= Seq::<char>::empty());
            assert(text@ =~= heading + runway_lines(shown.take(0)));
            let mut position: usize = 0;
            while position < self.runways.len()
                invariant
                    position <= self.runways.len(),
                    shown == runway_views(self.runways@),
                    text@ == heading + runway_lines(shown.take(position as int)),
                decreases self.runways.len() - position,
            {
                let line = self.runways[position].render();
                text.append(line.as_str());
                proof {
                    let next = shown.take(position + 1);
                    assert(next.drop_last() =~= shown.take(position as int));
                    assert(next.last() == self.runways@[position as int]@);
                    assert(text@ =~= heading + runway_lines(next));
                }
                position = position + 1;
            }
            proof {
                assert(shown.take(position as int) =~= shown);
            }
        }
        proof {
            assert(text@ =~= airport_text(self@, position@));
        }
        text
    }
}

} // verus!
