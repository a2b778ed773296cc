use adb::database::by_identifier;
use adb::error::Error;
use adb::model::{Airport, AirportTemplate, Coords, ParseCoordsError};
use adb::route::{legs, resolve_route, Candidate, RouteTable};
use adb::search::{build_documents, IndexDocument};
use adb::waypoint::Waypoint;
use geoutils::Location;

const METERS_PER_NAUTICAL_MILE: f64 = 1852.0;

fn airport_row(ident: &str, latitude: f64, longitude: f64) -> AirportTemplate {
    AirportTemplate {
        ident: ident.to_string(),
        kind: "small_airport".to_string(),
        name: format!("{} Field", ident),
        elevation_ft: None,
        continent: "NA".to_string(),
        iso_country: "US".to_string(),
        iso_region: "US-AK".to_string(),
        municipality: "Somewhere".to_string(),
        gps_code: String::new(),
        iata_code: String::new(),
        local_code: String::new(),
        latitude_deg: latitude.to_bits(),
        longitude_deg: longitude.to_bits(),
    }
}

fn dataset() -> Vec<IndexDocument> {
    build_documents(
        vec![airport_row("KEB", 59.4, -151.9), airport_row("PANC", 61.2, -149.9)],
        Vec::new(),
    )
}

fn lookup(documents: &[IndexDocument], token: &str) -> Option<Airport> {
    let matches = documents
        .iter()
        .filter(|document| document.identifier.eq_ignore_ascii_case(token))
        .map(|document| Some(document.object.clone()))
        .collect();
    by_identifier(matches)
}

fn read_position(token: &str) -> Result<Coords, ParseCoordsError> {
    let numbers = Coords::components(token)
        .iter()
        .map(|part| part.parse::<f64>().map(f64::to_bits))
        .collect();
    Coords::from_components(numbers)
}

fn candidates(documents: &[IndexDocument], tokens: &[&str]) -> Vec<Candidate> {
    tokens
        .iter()
        .map(|token| Candidate {
            token: token.to_string(),
            airport: lookup(documents, token),
            position: read_position(token),
        })
        .collect()
}

fn location(waypoint: &Waypoint) -> Location {
    let coordinates = waypoint.coordinates();
    Location::new(f64::from_bits(coordinates.latitude), f64::from_bits(coordinates.longitude))
}

fn meters(from: &Waypoint, to: &Waypoint) -> f64 {
    let left = location(from);
    let right = location(to);
    match left.distance_to(&right) {
        Ok(distance) => distance.meters(),
        Err(_) => left.haversine_distance_to(&right).meters(),
    }
}

fn bare(latitude: f64, longitude: f64) -> Waypoint {
    Waypoint::Coords(Coords { latitude: latitude.to_bits(), longitude: longitude.to_bits() })
}

#[test]
fn route_between_two_airports_has_one_leg() {
    let documents = dataset();
    let route = resolve_route(candidates(&documents, &["KEB", "PANC"])).unwrap();
    assert_eq!(route.len(), 2);

    let mut table = RouteTable::new();
    let mut total = 0.0;
    for (from, to) in legs(&route) {
        let leg = meters(from, to);
        table.add_leg(from, to, format!("{:.01}", leg / METERS_PER_NAUTICAL_MILE));
        total += leg;
    }
    assert_eq!(table.records().len(), 1);
    let record = &table.records()[0];
    assert_eq!(record.origin.identifier(), Some("KEB".to_string()));
    assert_eq!(record.destination.identifier(), Some("PANC".to_string()));
    assert_eq!(table.distance_width(), record.distance.len());
    assert!(total / METERS_PER_NAUTICAL_MILE > 0.0);
    assert!(record.distance.parse::<f64>().unwrap() > 100.0);
}

#[test]
fn route_with_an_unknown_token_fails_without_legs() {
    let documents = dataset();
    let resolved = resolve_route(candidates(&documents, &["KEB", "ZZZZZ"]));
    match resolved {
        Err(Error::UnknownIdentifier(token)) => assert_eq!(token, "ZZZZZ"),
        other => panic!("unexpected outcome {:?}", other),
    }
}

#[test]
fn first_unknown_token_is_reported() {
    let documents = dataset();
    let resolved = resolve_route(candidates(&documents, &["KEB", "QQQ", "PANC", "ZZZZZ"]));
    assert!(matches!(resolved, Err(Error::UnknownIdentifier(token)) if token == "QQQ"));
}

#[test]
fn unknown_origin_alone_fails() {
    let documents = dataset();
    let resolved = resolve_route(candidates(&documents, &["ZZZZZ"]));
    assert!(matches!(resolved, Err(Error::UnknownIdentifier(token)) if token == "ZZZZZ"));
}

#[test]
fn token_that_reads_as_a_position_is_a_bare_waypoint() {
    let documents = dataset();
    let route = resolve_route(candidates(&documents, &["KEB", "61.2 -149.9"])).unwrap();
    assert!(matches!(route[0], Waypoint::Airport(_)));
    assert_eq!(route[1], bare(61.2, -149.9));
}

#[test]
fn airport_comes_before_a_position() {
    let found = Airport::from_template(airport_row("KEB", 59.4, -151.9)).unwrap();
    let candidate = Candidate {
        token: "1 2".to_string(),
        airport: Some(found.clone()),
        position: Ok(Coords { latitude: 1, longitude: 2 }),
    };
    assert_eq!(candidate.resolve().unwrap(), Waypoint::Airport(found));
}

#[test]
fn token_that_names_nothing_is_unknown() {
    let candidate = Candidate {
        token: "nowhere".to_string(),
        airport: None,
        position: Err(ParseCoordsError::MissingComponent),
    };
    assert!(matches!(
        candidate.resolve(),
        Err(Error::UnknownIdentifier(token)) if token == "nowhere"
    ));
}

#[test]
fn empty_route_resolves_to_nothing() {
    assert_eq!(resolve_route(Vec::new()).unwrap(), Vec::<Waypoint>::new());
}

#[test]
fn route_keeps_the_order_of_its_tokens() {
    let documents = dataset();
    let route = resolve_route(candidates(&documents, &["PANC", "1 2", "KEB", "PANC"])).unwrap();
    let names: Vec<Option<String>> =
        route.iter().map(|waypoint| waypoint.name().identifier()).collect();
    assert_eq!(
        names,
        vec![Some("PANC".to_string()), None, Some("KEB".to_string()), Some("PANC".to_string())]
    );
}

#[test]
fn legs_of_short_routes_are_none() {
    assert!(legs(&Vec::new()).is_empty());
    assert!(legs(&vec![bare(1.0, 2.0)]).is_empty());
}

#[test]
fn legs_join_neighbours_only() {
    let route = vec![bare(1.0, 1.0), bare(2.0, 2.0), bare(3.0, 3.0)];
    let found = legs(&route);
    assert_eq!(found, vec![(&route[0], &route[1]), (&route[1], &route[2])]);
}

#[test]
fn three_point_route_sums_its_two_legs() {
    let route = vec![bare(59.4, -151.9), bare(61.2, -149.9), bare(64.8, -147.9)];
    let mut total = 0.0;
    for (from, to) in legs(&route) {
        total += meters(from, to);
    }
    assert_eq!(total, meters(&route[0], &route[1]) + meters(&route[1], &route[2]));
    assert!(total > meters(&route[0], &route[2]));
}

#[test]
fn distance_to_the_same_point_is_nothing() {
    let point = bare(59.4, -151.9);
    assert_eq!(meters(&point, &point), 0.0);
}

#[test]
fn distance_is_the_same_both_ways() {
    let keb = bare(59.4, -151.9);
    let panc = bare(61.2, -149.9);
    let there = meters(&keb, &panc);
    let back = meters(&panc, &keb);
    assert!((there - back).abs() < 0.001);
    assert!(there > 0.0);
}

#[test]
fn table_without_rows_needs_no_width() {
    let table = RouteTable::new();
    assert!(table.records().is_empty());
    assert_eq!(table.distance_width(), 0);
}

#[test]
fn table_is_as_wide_as_its_widest_length() {
    let route = vec![bare(1.0, 1.0), bare(2.0, 2.0), bare(3.0, 3.0), bare(4.0, 4.0)];
    let mut table = RouteTable::new();
    table.add_leg(&route[0], &route[1], "84.7".to_string());
    assert_eq!(table.distance_width(), 4);
    table.add_leg(&route[1], &route[2], "1204.9".to_string());
    assert_eq!(table.distance_width(), 6);
    table.add_leg(&route[2], &route[3], "9.0".to_string());
    assert_eq!(table.distance_width(), 6);
    let lengths: Vec<&str> =
        table.records().iter().map(|record| record.distance.as_str()).collect();
    assert_eq!(lengths, vec!["84.7", "1204.9", "9.0"]);
    assert_eq!(table.records()[1].origin.coordinates(), Some(route[1].coordinates()));
    assert_eq!(table.records()[1].destination.coordinates(), Some(route[2].coordinates()));
}
