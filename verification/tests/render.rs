use adb::model::{Airport, Coords, Runway};
use adb::render::{append_right_aligned, decimal_text};

fn runway(name: &str, length: Option<i32>, is_lighted: bool) -> Runway {
    Runway { airport: "PANC".to_string(), name: name.to_string(), length, is_closed: false, is_lighted }
}

fn airport(elevation_ft: Option<i32>, runways: Vec<Runway>) -> Airport {
    Airport {
        ident: "PANC".to_string(),
        kind: "large_airport".to_string(),
        name: "Ted Stevens Anchorage International Airport".to_string(),
        elevation_ft,
        continent: "NA".to_string(),
        iso_country: "US".to_string(),
        iso_region: "US-AK".to_string(),
        municipality: "Anchorage".to_string(),
        gps_code: "PANC".to_string(),
        iata_code: "ANC".to_string(),
        local_code: "ANC".to_string(),
        coordinates: Coords { latitude: 61.2f64.to_bits(), longitude: (-149.9f64).to_bits() },
        runways,
    }
}

#[test]
fn whole_numbers_are_written_in_decimal() {
    assert_eq!(decimal_text(0), "0");
    assert_eq!(decimal_text(7), "7");
    assert_eq!(decimal_text(10), "10");
    assert_eq!(decimal_text(152), "152");
    assert_eq!(decimal_text(10600), "10600");
    assert_eq!(decimal_text(-1), "-1");
    assert_eq!(decimal_text(-27), "-27");
    assert_eq!(decimal_text(i32::MAX), "2147483647");
    assert_eq!(decimal_text(i32::MIN), "-2147483648");
}

#[test]
fn decimal_agrees_with_the_standard_rendering() {
    for value in [-100_000, -1001, -10, -9, 0, 9, 10, 99, 100, 101, 4096, 99_999, 1_000_000] {
        assert_eq!(decimal_text(value), value.to_string());
    }
}

#[test]
fn short_text_moves_to_the_right_edge() {
    let mut line = String::from("|");
    append_right_aligned(&mut line, "1850ft", 8);
    assert_eq!(line, "|  1850ft");
}

#[test]
fn text_of_the_width_of_the_column_stays() {
    let mut line = String::new();
    append_right_aligned(&mut line, "12400ft!", 8);
    assert_eq!(line, "12400ft!");
}

#[test]
fn wider_text_is_not_cut() {
    let mut line = String::from("x");
    append_right_aligned(&mut line, "2147483647ft", 8);
    assert_eq!(line, "x2147483647ft");
}

#[test]
fn empty_text_fills_the_column_with_spaces() {
    let mut line = String::new();
    append_right_aligned(&mut line, "", 3);
    assert_eq!(line, "   ");
    let mut line = String::new();
    append_right_aligned(&mut line, "", 0);
    assert_eq!(line, "");
}

#[test]
fn width_counts_characters() {
    let mut line = String::new();
    append_right_aligned(&mut line, "é", 3);
    assert_eq!(line, "  é");
    assert_eq!(line, format!("{:>3}", "é"));
}

#[test]
fn lighted_runway_is_marked() {
    assert_eq!(runway("07L/25R", Some(10600), true).render(), "  07L/25R  10600ft  +L\n");
}

#[test]
fn unlit_runway_has_no_mark() {
    assert_eq!(runway("01/19", Some(1850), false).render(), "  01/19   1850ft\n");
}

#[test]
fn runway_of_unknown_length_says_so() {
    assert_eq!(runway("15/33", None, false).render(), "  15/33  unknown\n");
    assert_eq!(runway("15/33", None, true).render(), "  15/33  unknown  +L\n");
}

#[test]
fn airport_with_elevation_and_runways_is_shown_in_full() {
    let shown = airport(
        Some(152),
        vec![runway("07L/25R", Some(10600), true), runway("15/33", None, false)],
    )
    .render("61.2000°N 149.9000°W");
    assert_eq!(
        shown,
        "PANC Ted Stevens Anchorage International Airport (152 feet)\n  Anchorage\n  US-AK\n  \
         61.2000°N 149.9000°W\n\nRunways:\n  07L/25R  10600ft  +L\n  15/33  unknown\n"
    );
}

#[test]
fn airport_without_elevation_or_runways_is_shown_short() {
    let shown = airport(None, Vec::new()).render("61.2000°N 149.9000°W");
    assert_eq!(
        shown,
        "PANC Ted Stevens Anchorage International Airport\n  Anchorage\n  US-AK\n  \
         61.2000°N 149.9000°W"
    );
}

#[test]
fn airport_below_sea_level_shows_the_sign() {
    let shown = airport(Some(-210), Vec::new()).render("");
    assert!(shown.starts_with("PANC Ted Stevens Anchorage International Airport (-210 feet)\n"));
    assert!(shown.ends_with("\n  US-AK\n  "));
}
