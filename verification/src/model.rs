//! The records of the dataset: airports, runways and positions.

use std::num::ParseFloatError;
use vstd::prelude::*;
use vstd::std_specs::convert::FromSpecImpl;

verus! {

/// The error that `str::parse` gives for text that is no decimal number. Its
/// inside is never looked at here; it is carried to the caller unchanged.
#[verifier::external_type_specification]
#[verifier::external_body]
pub struct ExParseFloatError(ParseFloatError);

/// A geographic position in degrees.
///
/// Each coordinate is held as the IEEE 754 binary64 bit pattern of its value
/// in degrees, so that a position passes through this library bit for bit.
/// Nothing here computes with the values; distances and rendering belong to
/// the caller, which turns the patterns back into numbers.
#[derive(Clone, Copy, Debug, PartialEq, Eq, Structural)]
pub struct Coords {
    pub latitude: u64,
    pub longitude: u64,
}

/// Why a text is no coordinate pair.
#[derive(Debug)]
pub enum ParseCoordsError {
    /// Fewer than two components.
    MissingComponent,
    /// More than two components.
    TooManyComponents,
    /// A component that is no number.
    Float(ParseFloatError),
}

impl From<ParseFloatError> for ParseCoordsError {
    fn from(value: ParseFloatError) -> (error: Self) {
        ParseCoordsError::Float(value)
    }
}

impl FromSpecImpl<ParseFloatError> for ParseCoordsError {
    open spec fn obeys_from_spec() -> bool {
        true
    }

    open spec fn from_spec(value: ParseFloatError) -> Self {
        ParseCoordsError::Float(value)
    }
}

/// Whether `c` parts two components of a coordinate pair: ASCII white space
/// (space, tab, line feed, form feed, carriage return) or a comma.
pub open spec fn is_separator(c: char) -> bool {
    c == ' ' || c == '\t' || c == '\n' || c == '\x0C' || c == '\r' || c == ','
}

/// The first position at or after `from` that holds a separator, or the end
/// of `text`.
pub open spec fn component_end(text: Seq<char>, from: int) -> int
    decreases text.len() - from,
{
    if from < 0 || from >= text.len() || is_separator(text[from]) {
        from
    } else {
        component_end(text, from + 1)
    }
}

/// The components of `text` that begin at or after `from`.
pub open spec fn components_from(text: Seq<char>, from: int) -> Seq<Seq<char>>
    decreases text.len() - from,
    via components_from_decreases
{
    if from < 0 || from >= text.len() {
        Seq::empty()
    } else if is_separator(text[from]) {
        components_from(text, from + 1)
    } else {
        seq![text.subrange(from, component_end(text, from))] + components_from(
            text,
            component_end(text, from),
        )
    }
}

#[via_fn]
proof fn components_from_decreases(text: Seq<char>, from: int) {
    if 0 <= from < text.len() && !is_separator(text[from]) {
        lemma_component_end_bounds(text, from + 1);
    }
}

/// The components of `text`: its longest runs of characters that are no
/// separators, from left to right.
pub open spec fn components(text: Seq<char>) -> Seq<Seq<char>> {
    components_from(text, 0)
}

/// A component ends between where it was looked for and the end of the text.
pub proof fn lemma_component_end_bounds(text: Seq<char>, from: int)
    requires
        0 <= from <= text.len(),
    ensures
        from <= component_end(text, from) <= text.len(),
    decreases text.len() - from,
{
    if from < text.len() && !is_separator(text[from]) {
        lemma_component_end_bounds(text, from + 1);
    }
}

/// The characters of a component are those of the text from where the
/// component begins, and none of them is a separator.
pub proof fn lemma_component_holds_no_separator(text: Seq<char>, from: int, offset: int)
    requires
        0 <= from <= text.len(),
        0 <= offset < component_end(text, from) - from,
    ensures
        !is_separator(text[from + offset]),
    decreases offset,
{
    if offset > 0 {
        lemma_component_holds_no_separator(text, from + 1, offset - 1);
    }
}

/// Every component that begins at or after `from` holds at least one
/// character and no separator.
pub proof fn lemma_components_from_are_runs(text: Seq<char>, from: int)
    requires
        0 <= from <= text.len(),
    ensures
        forall|i: int|
            0 <= i < components_from(text, from).len() ==> (#[trigger] components_from(
                text,
                from,
            )[i]).len() > 0,
        forall|i: int, j: int|
            0 <= i < components_from(text, from).len() && 0 <= j < components_from(
                text,
                from,
            )[i].len() ==> !is_separator(#[trigger] components_from(text, from)[i][j]),
    decreases text.len() - from,
{
    if from < text.len() {
        if is_separator(text[from]) {
            lemma_components_from_are_runs(text, from + 1);
            assert(components_from(text, from) == components_from(text, from + 1));
        } else {
            let end = component_end(text, from);
            assert(end == component_end(text, from + 1));
            lemma_component_end_bounds(text, from + 1);
            lemma_components_from_are_runs(text, end);
            let first = text.subrange(from, end);
            let rest = components_from(text, end);
            assert(components_from(text, from) == seq![first] + rest);
            assert(components_from(text, from)[0] == first);
            assert forall|i: int, j: int|
                0 <= i < components_from(text, from).len() && 0 <= j < components_from(
                    text,
                    from,
                )[i].len() implies !is_separator(#[trigger] components_from(text, from)[i][j]) by {
                if i == 0 {
                    lemma_component_holds_no_separator(text, from, j);
                } else {
                    assert(components_from(text, from)[i] == rest[i - 1]);
                }
            }
            assert forall|i: int| 0 <= i < components_from(text, from).len() implies (
            #[trigger] components_from(text, from)[i]).len() > 0 by {
                if i > 0 {
                    assert(components_from(text, from)[i] == rest[i - 1]);
                }
            }
        }
    }
}

/// Every component of a text holds at least one character and no separator.
pub proof fn law_components_are_runs(text: Seq<char>)
    ensures
        forall|i: int|
            0 <= i < components(text).len() ==> (#[trigger] components(text)[i]).len() > 0,
        forall|i: int, j: int|
            0 <= i < components(text).len() && 0 <= j < components(text)[i].len()
                ==> !is_separator(#[trigger] components(text)[i][j]),
{
    lemma_components_from_are_runs(text, 0);
}

/// What the components of a text, each read as a number, say of the position:
/// the first is the latitude and the second the longitude. The components are
/// taken in order, and the first that is missing or is no number decides the
/// error; a third component is an error only after two numbers.
pub open spec fn coords_of(parsed: Seq<Result<u64, ParseFloatError>>) -> Result<
    Coords,
    ParseCoordsError,
> {
    if parsed.len() == 0 {
        Err(ParseCoordsError::MissingComponent)
    } else if parsed[0] is Err {
        Err(ParseCoordsError::Float(parsed[0]->Err_0))
    } else if parsed.len() == 1 {
        Err(ParseCoordsError::MissingComponent)
    } else if parsed[1] is Err {
        Err(ParseCoordsError::Float(parsed[1]->Err_0))
    } else if parsed.len() > 2 {
        Err(ParseCoordsError::TooManyComponents)
    } else {
        Ok(Coords { latitude: parsed[0]->Ok_0, longitude: parsed[1]->Ok_0 })
    }
}

fn is_separator_char(c: char) -> (r: bool)
    ensures
        r == is_separator(c),
{
    c == ' ' || c == '\t' || c == '\n' || c == '\x0C' || c == '\r' || c == ','
}

impl Coords {
    /// Splits a text into its components.
    pub fn components(text: &str) -> (parts: Vec<String>)
        ensures
            parts@.len() == components(text@).len(),
            forall|i: int| 0 <= i < parts@.len() ==> parts@[i]@ == components(text@)[i],
    {
        let length = text.unicode_len();
        let mut parts: Vec<String> = Vec::new();
        let mut position: usize = 0;
        while position < length
            invariant
                length == text@.len(),
                position <= length,
                parts@.map_values(|part: String| part@) + components_from(text@, position as int)
                    == components(text@),
            decreases length - position,
        {
            if is_separator_char(text.get_char(position)) {
                position = position + 1;
            } else {
                let start = position;
                position = position + 1;
                while position < length && !is_separator_char(text.get_char(position))
                    invariant
                        length == text@.len(),
                        start < position <= length,
                        component_end(text@, position as int) == component_end(text@, start as int),
                    decreases length - position,
                {
                    position = position + 1;
                }
                let part = String::from_str(text.substring_char(start, position));
                proof {
                    let ghost before = parts@.map_values(|part: String| part@);
                    assert(parts@.push(part).map_values(|part: String| part@) == before.push(
                        part@,
                    ));
                    assert(before.push(part@) + components_from(text@, position as int) == before
                        + components_from(text@, start as int));
                }
                parts.push(part);
            }
        }
        proof {
            let ghost views = parts@.map_values(|part: String| part@);
            assert(views + Seq::<Seq<char>>::empty() == views);
        }
        parts
    }

    /// Builds a position from the components of a text, each already read as a
    /// number: `Ok` with the bit pattern of the value, or the error of reading
    /// it.
    pub fn from_components(parsed: Vec<Result<u64, ParseFloatError>>) -> (r: Result<
        Coords,
        ParseCoordsError,
    >)
        ensures
            r == coords_of(parsed@),
    {
        let mut rest = parsed;
        let count = rest.len();
        if count == 0 {
            return Err(ParseCoordsError::MissingComponent);
        }
        let first = rest.remove(0);
        let latitude = match first {
            Ok(bits) => bits,
            Err(error) => {
                return Err(ParseCoordsError::from(error));
            },
        };
        if count == 1 {
            return Err(ParseCoordsError::MissingComponent);
        }
        let second = rest.remove(0);
        let longitude = match second {
            Ok(bits) => bits,
            Err(error) => {
                return Err(ParseCoordsError::from(error));
            },
        };
        if count > 2 {
            return Err(ParseCoordsError::TooManyComponents);
        }
        Ok(Coords { latitude, longitude })
    }
}

/// One row of the runway table.
#[derive(Clone, Debug, PartialEq, Eq)]
pub struct RunwayTemplate {
    pub airport_ident: String,
    pub length_ft: Option<i32>,
    pub lighted: i8,
    pub closed: i8,
    /// Identifier of the low end, such as 16R.
    pub le_ident: String,
    /// Identifier of the high end, such as 34L.
    pub he_ident: String,
}

/// A runway of an airport.
#[derive(Clone, Debug, PartialEq, Eq)]
pub struct Runway {
    /// Identifier of the airport that the runway belongs to.
    pub airport: String,
    /// The identifiers of the two ends, low end first, with a slash between.
    pub name: String,
    /// Length in feet, where known.
    pub length: Option<i32>,
    pub is_closed: bool,
    pub is_lighted: bool,
}

/// What a [`Runway`] holds, with texts as sequences of characters.
pub ghost struct RunwayView {
    pub airport: Seq<char>,
    pub name: Seq<char>,
    pub length: Option<i32>,
    pub is_closed: bool,
    pub is_lighted: bool,
}

impl View for Runway {
    type V = RunwayView;

    open spec fn view(&self) -> RunwayView {
        RunwayView {
            airport: self.airport@,
            name: self.name@,
            length: self.length,
            is_closed: self.is_closed,
            is_lighted: self.is_lighted,
        }
    }
}

impl RunwayTemplate {
    /// The runway that this row describes. The two flags are set by the
    /// number 1 and by no other.
    pub open spec fn runway(self) -> RunwayView {
        RunwayView {
            airport: self.airport_ident@,
            name: self.le_ident@ + "/"@ + self.he_ident@,
            length: self.length_ft,
            is_closed: self.closed == 1,
            is_lighted: self.lighted == 1,
        }
    }
}

impl From<RunwayTemplate> for Runway {
    fn from(template: RunwayTemplate) -> (runway: Self)
        ensures
            runway@ == template.runway(),
    {
        let RunwayTemplate { airport_ident, length_ft, lighted, closed, le_ident, he_ident } =
            template;
        let mut name = le_ident;
        name.append("/");
        name.append(he_ident.as_str());
        Runway {
            airport: airport_ident,
            name,
            length: length_ft,
            is_closed: closed == 1,
            is_lighted: lighted == 1,
        }
    }
}

impl FromSpecImpl<RunwayTemplate> for Runway {
    open spec fn obeys_from_spec() -> bool {
        false
    }

    open spec fn from_spec(template: RunwayTemplate) -> Self {
        arbitrary()
    }
}

/// The views of the runways in `runways`, in order.
pub open spec fn runway_views(runways: Seq<Runway>) -> Seq<RunwayView> {
    runways.map_values(|runway: Runway| runway@)
}

/// One row of the airport table.
#[derive(Clone, Debug, PartialEq, Eq)]
pub struct AirportTemplate {
    pub ident: String,
    pub kind: String,
    pub name: String,
    pub elevation_ft: Option<i32>,
    pub continent: String,
    pub iso_country: String,
    pub iso_region: String,
    pub municipality: String,
    pub gps_code: String,
    pub iata_code: String,
    pub local_code: String,
    /// Bit pattern of the latitude in degrees, as in [`Coords`].
    pub latitude_deg: u64,
    /// Bit pattern of the longitude in degrees, as in [`Coords`].
    pub longitude_deg: u64,
}

/// An airport with its runways.
#[derive(Clone, Debug, PartialEq, Eq)]
pub struct Airport {
    pub ident: String,
    pub kind: String,
    pub name: String,
    /// Elevation in feet, where known.
    pub elevation_ft: Option<i32>,
    pub continent: String,
    pub iso_country: String,
    pub iso_region: String,
    pub municipality: String,
    pub gps_code: String,
    pub iata_code: String,
    pub local_code: String,
    pub coordinates: Coords,
    pub runways: Vec<Runway>,
}

/// What an [`Airport`] holds, with texts as sequences of characters.
pub ghost struct AirportView {
    pub ident: Seq<char>,
    pub kind: Seq<char>,
    pub name: Seq<char>,
    pub elevation_ft: Option<i32>,
    pub continent: Seq<char>,
    pub iso_country: Seq<char>,
    pub iso_region: Seq<char>,
    pub municipality: Seq<char>,
    pub gps_code: Seq<char>,
    pub iata_code: Seq<char>,
    pub local_code: Seq<char>,
    pub coordinates: Coords,
    pub runways: Seq<RunwayView>,
}

impl View for Airport {
    type V = AirportView;

    open spec fn view(&self) -> AirportView {
        AirportView {
            ident: self.ident@,
            kind: self.kind@,
            name: self.name@,
            elevation_ft: self.elevation_ft,
            continent: self.continent@,
            iso_country: self.iso_country@,
            iso_region: self.iso_region@,
            municipality: self.municipality@,
            gps_code: self.gps_code@,
            iata_code: self.iata_code@,
            local_code: self.local_code@,
            coordinates: self.coordinates,
            runways: runway_views(self.runways@),
        }
    }
}

impl AirportTemplate {
    /// The airport that this row describes, before any runway is attached.
    pub open spec fn airport(self) -> AirportView {
        AirportView {
            ident: self.ident@,
            kind: self.kind@,
            name: self.name@,
            elevation_ft: self.elevation_ft,
            continent: self.continent@,
            iso_country: self.iso_country@,
            iso_region: self.iso_region@,
            municipality: self.municipality@,
            gps_code: self.gps_code@,
            iata_code: self.iata_code@,
            local_code: self.local_code@,
            coordinates: Coords { latitude: self.latitude_deg, longitude: self.longitude_deg },
            runways: Seq::empty(),
        }
    }
}

impl Airport {
    /// Builds the airport of a row. Every row that was read gives an airport;
    /// its runways are attached afterwards.
    pub fn from_template(template: AirportTemplate) -> (airport: Option<Self>)
        ensures
            airport matches Some(built) && built@ == template.airport(),
    {
        let AirportTemplate {
            ident,
            kind,
            name,
            elevation_ft,
            continent,
            iso_country,
            iso_region,
            municipality,
            gps_code,
            iata_code,
            local_code,
            latitude_deg,
            longitude_deg,
        } = template;
        let runways: Vec<Runway> = Vec::new();
        assert(runway_views(runways@) =~= Seq::<RunwayView>::empty());
        Some(
            Airport {
                ident,
                kind,
                name,
                elevation_ft,
                continent,
                iso_country,
                iso_region,
                municipality,
                gps_code,
                iata_code,
                local_code,
                coordinates: Coords { latitude: latitude_deg, longitude: longitude_deg },
                runways,
            },
        )
    }
}

} // verus!
