use winnipeg_data::geospatial::polygon::PolygonBuilder;
use winnipeg_data::geospatial::windows;
use winnipeg_data::location::location_pairs;
use winnipeg_data::neighbourhood::boundary::{
    boundary_record, check_boundary_headers, parse_id, NeighbourhoodBoundaryError,
};
use winnipeg_data::street::definition::{
    header_indices, new_error, record_fields, records_text, split_record, HeaderIndices, SDFromCSVError,
    StreetDefinitionParseError,
};
use winnipeg_data::street::{collect_results, StreetDefinition};
use winnipeg_data::text::{chars_of, remove_commas, str_eq, trim, white_space};

fn pairs(s: &str) -> Vec<(String, String)> {
    location_pairs(s)
}

fn p(a: &str, b: &str) -> (String, String) {
    (a.to_string(), b.to_string())
}

#[test]
fn trim_white_space() {
    assert_eq!(trim("  a b \n"), "a b");
    assert_eq!(trim("\u{2003}x\u{85}"), "x");
    assert_eq!(trim("   "), "");
    assert_eq!(trim(""), "");
    assert_eq!(trim("é "), "é");
    assert!(str_eq("abc", "abc"));
    assert!(!str_eq("abc", "abd"));
    assert!(!str_eq("abc", "ab"));
}

#[test]
fn commas_removed() {
    assert_eq!(remove_commas("1,234,567.5"), "1234567.5");
    assert_eq!(remove_commas(",,"), "");
    assert_eq!(remove_commas("12"), "12");
}

#[test]
fn location_of_a_polygon() {
    assert_eq!(
        pairs("MULTIPOLYGON (((-97.1 49.8, -97.2 49.9, -97.1 49.8)))"),
        vec![p("-97.1", "49.8"), p("-97.2", "49.9"), p("-97.1", "49.8")]
    );
}

#[test]
fn location_leftmost_matches() {
    assert_eq!(pairs("1234.5 12.3"), vec![p("34.5", "12.3")]);
    assert_eq!(pairs("--12.5 -13.25"), vec![p("-12.5", "-13.25")]);
    assert_eq!(pairs("12.5  13.5"), Vec::<(String, String)>::new());
    assert_eq!(pairs("12.5 13.5,,, 14.5 15.5"), vec![p("12.5", "13.5"), p("14.5", "15.5")]);
    assert_eq!(pairs("12.5 13.5, 14.5 15.5"), vec![p("12.5", "13.5"), p("14.5", "15.5")]);
    assert_eq!(pairs("12. 13.5"), Vec::<(String, String)>::new());
    assert_eq!(pairs("12.5\u{a0}13.5"), vec![p("12.5", "13.5")]);
    assert_eq!(pairs(""), Vec::<(String, String)>::new());
}

fn strings(v: &[&str]) -> Vec<String> {
    v.iter().map(|s| s.to_string()).collect()
}

#[test]
fn headers_in_any_order_and_case() {
    let ix = header_indices(&strings(&["Location", "END MEASURE", "Street Name", "begin measure", "Street Qualifier"])).unwrap();
    assert_eq!(
        ix,
        HeaderIndices { street_name: 2, street_qualifier: 4, begin_measure: 3, end_measure: 1, location: 0 }
    );
}

#[test]
fn header_errors() {
    match header_indices(&strings(&["street name", "Street Name"])) {
        Err(SDFromCSVError::RepeatHeader(h)) => assert_eq!(h, "street name"),
        other => panic!("unexpected {:?}", other),
    }
    match header_indices(&strings(&["street name", "Colour"])) {
        Err(SDFromCSVError::UnknownHeader(h)) => assert_eq!(h, "colour"),
        other => panic!("unexpected {:?}", other),
    }
    match header_indices(&strings(&["location", "street name", "end measure"])) {
        Err(SDFromCSVError::MissingHeader(h)) => assert_eq!(h, "street qualifier"),
        other => panic!("unexpected {:?}", other),
    }
    match header_indices(&strings(&[])) {
        Err(SDFromCSVError::MissingHeader(h)) => assert_eq!(h, "street name"),
        other => panic!("unexpected {:?}", other),
    }
}

#[test]
fn record_fields_by_column() {
    let ix = HeaderIndices { street_name: 0, street_qualifier: 1, begin_measure: 2, end_measure: 3, location: 4 };
    let r = record_fields(&ix, &strings(&["Main St", "N", "1,000", "2,500.5", "49.1 -97.2"])).unwrap();
    assert_eq!(r.name, "Main St");
    assert_eq!(r.location, "49.1 -97.2");
    match record_fields(&ix, &strings(&["Main St", "N", "1"])) {
        Err(StreetDefinitionParseError::MissingEntry(e)) => assert_eq!(e, "end measure"),
        other => panic!("unexpected {:?}", other),
    }
    let raw = split_record(&r.name, &r.qualifier, &r.begin_measure, &r.end_measure, &r.location);
    assert_eq!(raw.begin_measure, "1000");
    assert_eq!(raw.end_measure, "2500.5");
    assert_eq!(raw.coordinates, vec![p("49.1", "-97.2")]);
}

#[test]
fn streets_grouped_by_name_and_qualifier() {
    let input = vec![
        ("Main".to_string(), "N".to_string(), 1),
        ("Portage".to_string(), "".to_string(), 2),
        ("Main".to_string(), "S".to_string(), 3),
        ("Main".to_string(), "N".to_string(), 4),
    ];
    let streets = StreetDefinition::group(input);
    assert_eq!(streets.len(), 2);
    let main = streets.iter().find(|s| s.name == "Main").unwrap();
    let n = main.qualifiers.iter().find(|q| q.0 == "N").unwrap();
    assert_eq!(n.1.measures, vec![1, 4]);
    let s = main.qualifiers.iter().find(|q| q.0 == "S").unwrap();
    assert_eq!(s.1.measures, vec![3]);
    let total: usize = streets.iter().flat_map(|s| s.qualifiers.iter()).map(|q| q.1.measures.len()).sum();
    assert_eq!(total, 4);
}

#[test]
fn first_error_spoils_all_records() {
    let rs: Vec<Result<i32, &str>> = vec![Ok(1), Err("a"), Ok(2), Err("b")];
    assert_eq!(collect_results(rs), Err("a"));
    let rs: Vec<Result<i32, &str>> = vec![Ok(1), Ok(2)];
    assert_eq!(collect_results(rs), Ok(vec![1, 2]));
    let records: Vec<Result<(String, String, u8), &str>> = vec![Ok(("A".to_string(), "".to_string(), 1)), Err("bad line")];
    assert_eq!(StreetDefinition::from_records(records).map(|v| v.len()), Err("bad line"));
}

#[test]
fn segment_windows() {
    assert_eq!(windows(&vec![1, 2, 3]), vec![(1, 2), (2, 3)]);
    assert_eq!(windows::<i32>(&vec![]), vec![]);
    assert_eq!(windows(&vec![7]), vec![]);
}

#[test]
fn polygon_builder_decisions() {
    let mut b = PolygonBuilder::new();
    assert_eq!(b.add_point(1, &vec![]), Ok(()));
    assert_eq!(b.add_point(2, &vec![]), Ok(()));
    assert_eq!(b.add_point(3, &vec![false]), Ok(()));
    assert_eq!(b.add_point(4, &vec![false, true]), Err((2, 3)));
    assert_eq!(b.points(), &vec![1, 2, 3]);
    let b = b.with_point(4, &vec![false, false]).ok().unwrap();
    let b = b.with_point(1, &vec![false, false, false]).ok().unwrap();
    let b = match b.try_build(false) {
        Err(b) => b,
        Ok(_) => panic!("open ring accepted"),
    };
    let polygon = b.try_build(true).ok().unwrap();
    assert_eq!(polygon.points(), &[1, 2, 3, 4, 1]);
    assert_eq!(polygon.create_lines(), vec![(1, 2), (2, 3), (3, 4), (4, 1)]);
}

#[test]
fn short_ring_refused() {
    let mut b = PolygonBuilder::new();
    for x in [1, 2, 1] {
        let n = b.points().len();
        let flags = vec![false; n.saturating_sub(1)];
        b.add_point(x, &flags).unwrap();
    }
    assert!(b.try_build(true).is_err());
}

#[test]
fn neighbourhood_ids() {
    assert_eq!(parse_id(2, "42").ok(), Some(42));
    assert_eq!(parse_id(2, "+7").ok(), Some(7));
    match parse_id(5, "-1") {
        Err(NeighbourhoodBoundaryError::IDParseFailure { line, id, .. }) => {
            assert_eq!(line, 5);
            assert_eq!(id, "-1");
        }
        other => panic!("unexpected {:?}", other),
    }
    assert!(parse_id(2, "").is_err());
    assert!(parse_id(2, "18446744073709551616").is_err());
    assert_eq!(parse_id(2, "18446744073709551615").ok(), Some(u64::MAX));
}

/// The pairs that the location pattern, written as a regular expression,
/// gives, through the regex crate.
fn regex_pairs(s: &str) -> Vec<(String, String)> {
    let re = regex::Regex::new(
        r"((?P<latitude>-?[0-9]{2}\.[0-9]+)\s(?P<longitude>-?[0-9]{2}\.[0-9]+)[,\s]{0,2})",
    )
    .unwrap();
    re.captures_iter(s).map(|c| (c["latitude"].to_string(), c["longitude"].to_string())).collect()
}

#[test]
fn location_agrees_with_regex() {
    let alphabet = ['1', '2', '-', '.', ' ', ',', '\u{a0}', 'x', '9', '0'];
    let mut state: u64 = 0x2545F4914F6CDD1D;
    for _ in 0..3000 {
        let mut s = String::new();
        state ^= state << 13;
        state ^= state >> 7;
        state ^= state << 17;
        let len = (state % 40) as usize;
        for _ in 0..len {
            state ^= state << 13;
            state ^= state >> 7;
            state ^= state << 17;
            s.push(alphabet[(state % alphabet.len() as u64) as usize]);
        }
        assert_eq!(pairs(&s), regex_pairs(&s), "on {:?}", s);
    }
    let samples = [
        "MULTIPOLYGON (((-97.1 49.8, -97.2 49.9, -97.1 49.8)))",
        "LINESTRING (-97.13795 49.88934, -97.13801 49.88926)",
        "49.1 -97.2 49.3 -97.4",
        "12.34 56.78\n90.12 34.56",
    ];
    for s in samples {
        assert_eq!(pairs(s), regex_pairs(s), "on {:?}", s);
    }
}

#[test]
fn white_space_and_chars() {
    assert!(white_space(' '));
    assert!(white_space('\u{3000}'));
    assert!(white_space('\u{85}'));
    assert!(!white_space('a'));
    assert!(!white_space('\u{200b}'));
    assert_eq!(chars_of("aé b"), vec!['a', 'é', ' ', 'b']);
    assert_eq!(chars_of(""), Vec::<char>::new());
}

#[test]
fn record_errors_carry_their_line() {
    let e = new_error(7, StreetDefinitionParseError::MissingEntry("location"));
    assert_eq!(e.line, 7);
    assert!(matches!(e.error, StreetDefinitionParseError::MissingEntry("location")));
}

#[test]
fn builder_lines_follow_points() {
    let mut b = PolygonBuilder::new();
    assert!(b.lines().is_empty());
    b.add_point(10, &vec![]).unwrap();
    b.add_point(20, &vec![]).unwrap();
    b.add_point(30, &vec![false]).unwrap();
    assert_eq!(b.lines(), vec![(10, 20), (20, 30)]);
}

/// A reader error: a record longer than the header.
fn read_error() -> csv::Error {
    let mut reader = csv::Reader::from_reader("a,b\n1,2,3\n".as_bytes());
    reader.records().next().unwrap().unwrap_err()
}

#[test]
fn street_records_numbered_from_line_two() {
    let ix = HeaderIndices { street_name: 0, street_qualifier: 1, begin_measure: 2, end_measure: 3, location: 4 };
    let records = vec![
        Ok(strings(&["MAIN ST", "N", "1,000", "2", "MULTILINESTRING ((49.8 -97.1))"])),
        Err(read_error()),
        Ok(strings(&["MAIN ST", "N", "1"])),
    ];
    let out = records_text(&ix, records);
    assert_eq!(out.len(), 3);
    match &out[0] {
        Ok((line, text)) => {
            assert_eq!(*line, 2);
            assert_eq!(text.name, "MAIN ST");
            assert_eq!(text.begin_measure, "1,000");
        }
        Err(e) => panic!("unexpected {:?}", e),
    }
    match &out[1] {
        Err(e) => {
            assert_eq!(e.line, 3);
            assert!(matches!(e.error, StreetDefinitionParseError::ReadFailure(_)));
        }
        Ok(_) => panic!("read error lost"),
    }
    match &out[2] {
        Err(e) => {
            assert_eq!(e.line, 4);
            assert!(matches!(e.error, StreetDefinitionParseError::MissingEntry("end measure")));
        }
        Ok(_) => panic!("short record accepted"),
    }
    assert!(records_text(&ix, vec![]).is_empty());
}

#[test]
fn boundary_headers_in_place() {
    assert!(check_boundary_headers(&strings(&["ID", "Name", "Location", "Extra"])));
    assert!(!check_boundary_headers(&strings(&["ID", "Name"])));
    assert!(!check_boundary_headers(&strings(&["id", "Name", "Location"])));
}

#[test]
fn boundary_records() {
    let b = boundary_record(0, Ok(strings(&["12", "Wolseley", "MULTIPOLYGON (((49.8 -97.1, 49.9 -97.2)))"]))).unwrap();
    assert_eq!((b.line, b.id, b.name.as_str()), (2, 12, "Wolseley"));
    assert_eq!(b.coordinates, vec![p("49.8", "-97.1"), p("49.9", "-97.2")]);
    match boundary_record(3, Ok(strings(&["x1", "A", ""]))) {
        Err(NeighbourhoodBoundaryError::IDParseFailure { line, id, .. }) => {
            assert_eq!(line, 5);
            assert_eq!(id, "x1");
        }
        other => panic!("unexpected {:?}", other),
    }
    match boundary_record(1, Err(read_error())) {
        Err(NeighbourhoodBoundaryError::ReadRecordFailure { line, .. }) => assert_eq!(line, 3),
        other => panic!("unexpected {:?}", other),
    }
}

#[test]
fn reordered_columns_give_the_same_records() {
    let hs = strings(&["Street Name", "Street Qualifier", "Begin Measure", "End Measure", "Location"]);
    let hs2 = strings(&["LOCATION", "end measure", "street name", "Begin Measure", "STREET qualifier"]);
    let ix = header_indices(&hs).unwrap();
    let ix2 = header_indices(&hs2).unwrap();
    let rec = strings(&["MAIN ST", "N", "1,000", "2,500", "MULTILINESTRING ((49.8 -97.1, 49.9 -97.2))"]);
    // Column j of the second file is column perm[j] of the first.
    let perm = [4, 3, 0, 2, 1];
    let rec2: Vec<String> = perm.iter().map(|&k| rec[k].clone()).collect();
    let out = records_text(&ix, vec![Ok(rec.clone()), Err(read_error())]);
    let out2 = records_text(&ix2, vec![Ok(rec2), Err(read_error())]);
    match (&out[0], &out2[0]) {
        (Ok((l, a)), Ok((l2, b))) => {
            assert_eq!(l, l2);
            assert_eq!(
                (&a.name, &a.qualifier, &a.begin_measure, &a.end_measure, &a.location),
                (&b.name, &b.qualifier, &b.begin_measure, &b.end_measure, &b.location)
            );
        }
        _ => panic!("record lost"),
    }
    match (&out[1], &out2[1]) {
        (Err(e), Err(e2)) => assert_eq!(e.line, e2.line),
        _ => panic!("error lost"),
    }
}

#[test]
fn no_records_no_streets() {
    let streets = StreetDefinition::<u32>::group(vec![]);
    assert!(streets.is_empty());
}
