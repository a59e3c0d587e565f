use rolodex::property::{parse_begin, parse_end, parse_parameters};
use rolodex::{Parameter, Parameters, Parse, Property, Value};

#[test]
fn parameters_simple() {
    // Frame markers are recognized by the frame parsers (and only there: the
    // generic property parser rejects them, which is what ends a record body).
    let (begin, end_pos) = parse_begin("BEGIN:VCARD\n", 0).unwrap();
    assert_eq!(
        begin,
        Property {
            params: Parameters(vec![]),
            value: Value::Begin,
        }
    );
    assert_eq!(end_pos, 12);

    let (end, end_pos) = parse_end("END:VCARD\n", 0).unwrap();
    assert_eq!(
        end,
        Property {
            params: Parameters(vec![]),
            value: Value::End,
        }
    );
    assert_eq!(end_pos, 10);

    let input = "VERSION:4.0\n";
    let (prop, end_pos) = <Property as Parse>::parse(input, 0).unwrap();
    assert_eq!(
        prop,
        Property {
            params: Parameters(vec![]),
            value: Value::Version("4.0".to_string()),
        }
    );
    // the line terminator is left unconsumed
    assert_eq!(&input[end_pos..], "\n");

    let input = ";MEDIATYPE=image/gif;OTHER=value:VALUE\n";
    let (params, end_pos) = parse_parameters(input, 0).unwrap();
    assert_eq!(
        params,
        vec![
            Parameter {
                name: "MEDIATYPE".to_string(),
                value: Some("image/gif".to_string()),
            },
            Parameter {
                name: "OTHER".to_string(),
                value: Some("value".to_string()),
            },
        ]
    );
    // the value delimiter is left unconsumed
    assert_eq!(&input[end_pos..], ":VALUE\n");
}
