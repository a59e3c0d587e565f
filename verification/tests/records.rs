use rolodex::parse::ErrorKind;
use rolodex::types::Email;
use rolodex::{Parameter, Parameters, Parse, Property, TypeOrRaw, VCard, Value, Vcf};

const SIMPLE: &str = "BEGIN:VCARD\nVERSION:4.0\nFN:Jane Doe\nEMAIL;TYPE=work:jane@example.com\nEND:VCARD";

fn simple_card() -> VCard {
    VCard(vec![
        Property {
            params: Parameters(vec![]),
            value: Value::Begin,
        },
        Property {
            params: Parameters(vec![]),
            value: Value::Version("4.0".to_string()),
        },
        Property {
            params: Parameters(vec![]),
            value: Value::Fn("Jane Doe".to_string()),
        },
        Property {
            params: Parameters(vec![Parameter {
                name: "TYPE".to_string(),
                value: Some("work".to_string()),
            }]),
            value: Value::Email(TypeOrRaw::Type(Email {
                user: "jane".to_string(),
                domain: "example.com".to_string(),
            })),
        },
        Property {
            params: Parameters(vec![]),
            value: Value::End,
        },
    ])
}

#[test]
fn end_to_end_record() {
    // the record parses to five properties in source order, frame markers
    // included
    let card = VCard::parse(SIMPLE).unwrap();
    assert_eq!(card, simple_card());
    assert_eq!(card.iter().len(), 5);
}

#[test]
fn frame_rejection() {
    // a generic property parse must fail on a frame-marker line, not produce
    // a catch-all property
    let err = <Property as Parse>::parse("BEGIN:VCARD\n", 0).unwrap_err();
    assert_eq!(err.kind, ErrorKind::Reserved);
    let err = <Property as Parse>::parse("END:VCARD\n", 0).unwrap_err();
    assert_eq!(err.kind, ErrorKind::Reserved);
}

#[test]
fn record_render_round_trip() {
    let card = VCard::parse(SIMPLE).unwrap();
    let rendered = card.render();
    assert_eq!(rendered, SIMPLE);
    let again = VCard::parse(&rendered).unwrap();
    assert_eq!(again, card);
}

#[test]
fn unknown_names_are_kept() {
    let card = VCard::parse("BEGIN:VCARD\nx-qq:21588891\nEND:VCARD").unwrap();
    assert_eq!(
        card.0[1],
        Property {
            params: Parameters(vec![]),
            value: Value::Other("x-qq".to_string(), "21588891".to_string()),
        }
    );
}

#[test]
fn lowercase_names_are_recognized() {
    // property-name dispatch is case-insensitive
    let card = VCard::parse("BEGIN:VCARD\nfn:Jane Doe\nEND:VCARD").unwrap();
    assert_eq!(card.0[1].value, Value::Fn("Jane Doe".to_string()));
}

#[test]
fn carriage_returns_are_tolerated() {
    let card = VCard::parse("BEGIN:VCARD\r\nEMAIL:jane@example.com\r\nEND:VCARD\r\n").unwrap();
    assert_eq!(
        card.0[1].value,
        Value::Email(TypeOrRaw::Type(Email {
            user: "jane".to_string(),
            domain: "example.com".to_string(),
        }))
    );
}

#[test]
fn missing_end_marker_fails() {
    let err = VCard::parse("BEGIN:VCARD\nFN:Jane Doe\n").unwrap_err();
    assert_eq!(err.kind, ErrorKind::Framing);
    assert!(!err.trail.is_empty());
}

#[test]
fn missing_begin_marker_fails() {
    let err = VCard::parse("VERSION:4.0\nEND:VCARD\n").unwrap_err();
    assert_eq!(err.kind, ErrorKind::Framing);
}

#[test]
fn multiple_records() {
    let input = format!("{}\n{}", SIMPLE, "BEGIN:VCARD\nNOTE:second\nEND:VCARD");
    let (stream, end) = <Vcf as Parse>::parse(&input, 0).unwrap();
    assert_eq!(stream.0.len(), 2);
    assert_eq!(stream.0[0], simple_card());
    assert_eq!(
        stream.0[1].0[1].value,
        Value::Note("second".to_string())
    );
    assert_eq!(end, input.chars().count());
}

#[test]
fn empty_stream_is_not_an_error() {
    let (stream, end) = <Vcf as Parse>::parse("", 0).unwrap();
    assert_eq!(stream.0.len(), 0);
    assert_eq!(end, 0);
}

#[test]
fn stream_render_round_trip() {
    let input = format!("{}\n{}", SIMPLE, "BEGIN:VCARD\nNOTE:second\nEND:VCARD");
    let (stream, _) = <Vcf as Parse>::parse(&input, 0).unwrap();
    let rendered = stream.render();
    let (again, _) = <Vcf as Parse>::parse(&rendered, 0).unwrap();
    assert_eq!(again, stream);
}

#[test]
fn error_display_names_positions() {
    let err = VCard::parse("BEGIN:VCARD\nFN:Jane Doe\n").unwrap_err();
    let text = err.display("BEGIN:VCARD\nFN:Jane Doe\n");
    assert!(text.contains("at 24"));
}
