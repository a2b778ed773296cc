use adb::database::{
    by_identifier, materialize_query, search, summary, IDENTIFIER_LIMIT, SEARCH_LIMIT,
};
use adb::model::{Airport, Coords};

fn airport(ident: &str) -> Airport {
    Airport {
        ident: ident.to_string(),
        kind: "small_airport".to_string(),
        name: format!("{} Field", ident),
        elevation_ft: None,
        continent: "NA".to_string(),
        iso_country: "US".to_string(),
        iso_region: "US-AK".to_string(),
        municipality: "Somewhere".to_string(),
        gps_code: String::new(),
        iata_code: String::new(),
        local_code: String::new(),
        coordinates: Coords { latitude: 0, longitude: 0 },
        runways: Vec::new(),
    }
}

fn identifiers(airports: &[Airport]) -> Vec<&str> {
    airports.iter().map(|airport| airport.ident.as_str()).collect()
}

#[test]
fn limits_are_one_and_twenty_five() {
    assert_eq!(IDENTIFIER_LIMIT, 1);
    assert_eq!(SEARCH_LIMIT, 25);
}

#[test]
fn unreadable_matches_are_left_out() {
    let candidates = vec![Some(airport("A")), None, Some(airport("B")), None, None];
    let airports = materialize_query(candidates, 10);
    assert_eq!(identifiers(&airports), vec!["A", "B"]);
}

#[test]
fn matches_keep_their_order() {
    let candidates = vec![Some(airport("C")), Some(airport("A")), Some(airport("B"))];
    let airports = materialize_query(candidates, 3);
    assert_eq!(identifiers(&airports), vec!["C", "A", "B"]);
}

#[test]
fn matches_beyond_the_limit_are_not_looked_at() {
    let candidates = vec![None, Some(airport("A")), Some(airport("B")), Some(airport("C"))];
    let airports = materialize_query(candidates, 2);
    assert_eq!(identifiers(&airports), vec!["A"]);
}

#[test]
fn limit_of_nothing_gives_nothing() {
    assert!(materialize_query(vec![Some(airport("A"))], 0).is_empty());
}

#[test]
fn no_matches_give_no_airports() {
    assert!(materialize_query(Vec::new(), 25).is_empty());
    assert!(materialize_query(vec![None, None], 25).is_empty());
}

#[test]
fn lookup_gives_the_stored_airport() {
    let stored = airport("PANC");
    assert_eq!(by_identifier(vec![Some(stored.clone())]), Some(stored));
}

#[test]
fn lookup_of_an_absent_identifier_finds_nothing() {
    assert_eq!(by_identifier(Vec::new()), None);
}

#[test]
fn lookup_looks_at_the_best_match_only() {
    assert_eq!(by_identifier(vec![None, Some(airport("B"))]), None);
    let found = by_identifier(vec![Some(airport("A")), Some(airport("B"))]);
    assert_eq!(found.map(|airport| airport.ident), Some("A".to_string()));
}

#[test]
fn search_gives_up_to_twenty_five_airports() {
    let candidates: Vec<Option<Airport>> =
        (0..30).map(|number| Some(airport(&format!("A{}", number)))).collect();
    let airports = search(candidates);
    assert_eq!(airports.len(), 25);
    assert_eq!(airports[0].ident, "A0");
    assert_eq!(airports[24].ident, "A24");
}

#[test]
fn search_with_few_matches_gives_them_all() {
    let candidates = vec![Some(airport("A")), None, Some(airport("B"))];
    assert_eq!(identifiers(&search(candidates)), vec!["A", "B"]);
}

#[test]
fn summary_shows_identifier_region_and_name() {
    assert_eq!(summary(&airport("PANC")), "PANC US-AK PANC Field");
}
