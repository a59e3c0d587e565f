use rolodex::parse::{parse_multiple_value, parse_typed_value, parse_value, ErrorKind};
use rolodex::types::{Address, Date, Gender, GeoPosition, Kind, Sex};
use rolodex::{AtLeastOne, Parse, TypeOrRaw, VCard, Value};

#[test]
fn multiplicity_single() {
    let (v, end) = parse_multiple_value("a", 0).unwrap();
    assert_eq!(v, AtLeastOne::Single("a".to_string()));
    assert_eq!(end, 1);
}

#[test]
fn multiplicity_multiple() {
    let (v, end) = parse_multiple_value("a,b,c", 0).unwrap();
    assert_eq!(
        v,
        AtLeastOne::Multiple(vec!["a".to_string(), "b".to_string(), "c".to_string()])
    );
    assert_eq!(end, 5);
    // a list result never has fewer than two items
    let (v, _) = parse_multiple_value("a,b\nrest", 0).unwrap();
    match v {
        AtLeastOne::Multiple(items) => assert!(items.len() >= 2),
        AtLeastOne::Single(_) => panic!("two segments must stay a list"),
    }
}

#[test]
fn multiplicity_stops_at_line_end() {
    let (v, end) = parse_multiple_value("Jim,Jimmie\nEND:VCARD", 0).unwrap();
    assert_eq!(
        v,
        AtLeastOne::Multiple(vec!["Jim".to_string(), "Jimmie".to_string()])
    );
    assert_eq!(end, 10);
}

#[test]
fn escaping_law() {
    // the escaped line terminator is part of the value; the first unescaped
    // one ends it and stays unconsumed
    let input = "a\\\nb\nc";
    let (v, end) = parse_value(input, 0).unwrap();
    assert_eq!(v, "a\\\nb");
    assert_eq!(end, 4);
    assert_eq!(&input[end..], "\nc");
}

#[test]
fn unterminated_value_is_incomplete() {
    let err = parse_value("abc", 0).unwrap_err();
    assert_eq!(err.kind, ErrorKind::Incomplete);
}

#[test]
fn geo_scenario() {
    let (geo, end) = <GeoPosition as Parse>::parse("37.386013,-122.082932", 0).unwrap();
    assert_eq!(
        geo,
        GeoPosition("37.386013".to_string(), "-122.082932".to_string())
    );
    assert_eq!(end, 21);
    // the verbatim number texts denote the expected coordinates
    let lat: f64 = geo.0.parse().unwrap();
    let lon: f64 = geo.1.parse().unwrap();
    assert_eq!(lat, 37.386013);
    assert_eq!(lon, -122.082932);
    assert_eq!(geo.render(), "37.386013,-122.082932");
}

#[test]
fn geo_mismatch_falls_back() {
    let (v, _) = parse_typed_value::<GeoPosition>("not,a position\n", 0).unwrap();
    assert_eq!(v, TypeOrRaw::Raw("not,a position".to_string()));
}

#[test]
fn fallback_keeps_verbatim_text() {
    // a value that is valid for the wrong grammar never fails the property:
    // a URL fed to the record-kind grammar stays verbatim raw text
    let (v, end) = parse_typed_value::<Kind>("http://example.com\n", 0).unwrap();
    assert_eq!(v, TypeOrRaw::Raw("http://example.com".to_string()));
    assert_eq!(end, 18);
    // and a kind token fed to the email grammar stays verbatim too
    let (v, _) = parse_typed_value::<rolodex::types::Email>("individual\n", 0).unwrap();
    assert_eq!(v, TypeOrRaw::Raw("individual".to_string()));
}

#[test]
fn kind_tokens() {
    let (k, end) = <Kind as Parse>::parse("individual\n", 0).unwrap();
    assert_eq!(k, Kind::Individual);
    assert_eq!(end, 10);
    let (k, _) = <Kind as Parse>::parse("group\n", 0).unwrap();
    assert_eq!(k, Kind::Group);
    let (k, end) = <Kind as Parse>::parse("org\n", 0).unwrap();
    assert_eq!(k, Kind::Organization);
    assert_eq!(end, 3);
    let (k, _) = <Kind as Parse>::parse("location\n", 0).unwrap();
    assert_eq!(k, Kind::Location);
    assert!(<Kind as Parse>::parse("household\n", 0).is_err());
}

#[test]
fn gender_with_identity() {
    let (g, end) = <Gender as Parse>::parse("M;boy\n", 0).unwrap();
    assert_eq!(
        g,
        Gender {
            sex: Some(Sex::Male),
            identity: "boy".to_string(),
        }
    );
    assert_eq!(end, 5);
    let (g, end) = <Gender as Parse>::parse("F\n", 0).unwrap();
    assert_eq!(
        g,
        Gender {
            sex: Some(Sex::Female),
            identity: "".to_string(),
        }
    );
    assert_eq!(end, 1);
    let (g, _) = <Gender as Parse>::parse(";genderfluid\n", 0).unwrap();
    assert_eq!(
        g,
        Gender {
            sex: None,
            identity: "genderfluid".to_string(),
        }
    );
}

#[test]
fn address_absent_fields() {
    let (a, end) =
        <Address as Parse>::parse(";;100 Waters Edge;Baytown;LA;30314;United States of America\n", 0)
            .unwrap();
    assert_eq!(
        a,
        Address {
            po_box: None,
            extended: None,
            street: Some("100 Waters Edge".to_string()),
            locality: Some("Baytown".to_string()),
            region: Some("LA".to_string()),
            code: Some("30314".to_string()),
            country: Some("United States of America".to_string()),
        }
    );
    assert_eq!(end, 59);
    assert_eq!(a.render(), ";;100 Waters Edge;Baytown;LA;30314;United States of America");
}

#[test]
fn date_values() {
    let card = VCard::parse("BEGIN:VCARD\nBDAY:19960415\nEND:VCARD").unwrap();
    assert_eq!(
        card.0[1].value,
        Value::Birthday(TypeOrRaw::Type(Date {
            year: 1996,
            month: 4,
            day: 15,
        }))
    );
    // a syntactically plausible but invalid calendar date stays raw
    let card = VCard::parse("BEGIN:VCARD\nBDAY:19961340\nEND:VCARD").unwrap();
    assert_eq!(
        card.0[1].value,
        Value::Birthday(TypeOrRaw::Raw("19961340".to_string()))
    );
    assert_eq!(
        Date { year: 1996, month: 4, day: 15 }.render(),
        "19960415"
    );
}

#[test]
fn type_or_raw_predicates() {
    let typed: TypeOrRaw<Kind> = TypeOrRaw::Type(Kind::Group);
    assert!(typed.is_type());
    assert!(!typed.is_raw());
    let raw: TypeOrRaw<Kind> = TypeOrRaw::Raw("plain".to_string());
    assert!(raw.is_raw());
    assert!(!raw.is_type());
}

#[test]
fn at_least_one_items() {
    let single = AtLeastOne::Single("a".to_string());
    assert_eq!(single.into_iterator(), vec!["a".to_string()]);
    let multi = AtLeastOne::Multiple(vec!["a".to_string(), "b".to_string()]);
    assert_eq!(multi.into_iterator(), vec!["a".to_string(), "b".to_string()]);
}

#[test]
fn nickname_multiplicity_in_record() {
    let card = VCard::parse("BEGIN:VCARD\nNICKNAME:Jim,Jimmie\nEND:VCARD").unwrap();
    assert_eq!(
        card.0[1].value,
        Value::Nickname(AtLeastOne::Multiple(vec![
            "Jim".to_string(),
            "Jimmie".to_string()
        ]))
    );
    let card = VCard::parse("BEGIN:VCARD\nCATEGORIES:swimmer\nEND:VCARD").unwrap();
    assert_eq!(
        card.0[1].value,
        Value::Categories(AtLeastOne::Single("swimmer".to_string()))
    );
}

#[test]
fn missing_value_delimiter_is_framing_error() {
    let err = <rolodex::Property as Parse>::parse("A=B:x\n", 0).unwrap_err();
    assert_eq!(err.kind, ErrorKind::Framing);
}

#[test]
fn empty_property_name_is_mismatch() {
    let err = <rolodex::Property as Parse>::parse(":x\n", 0).unwrap_err();
    assert_eq!(err.kind, ErrorKind::Mismatch);
}

#[test]
fn names_and_labels() {
    let v = Value::Tel("555".to_string());
    assert_eq!(v.name_raw(), "TEL");
    assert_eq!(v.name_label(), "Phone");
    let v = Value::Other("X-THING".to_string(), "1".to_string());
    assert_eq!(v.name_raw(), "X-THING");
    assert_eq!(v.name_label(), "X-THING");
}

#[test]
fn decimal_rendering() {
    assert_eq!(rolodex::parse::decimal_string(0), "0");
    assert_eq!(rolodex::parse::decimal_string(1234), "1234");
    assert_eq!(rolodex::parse::decimal_string(907), "907");
}
