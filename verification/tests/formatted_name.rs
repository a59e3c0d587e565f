use rolodex::types::FormattedName;
use rolodex::Parse;

const DATA: &str = "Stevenson;John;Philip,Paul;Dr.;Jr.,M.D.,A.C.P.\n";

fn name() -> FormattedName {
    FormattedName {
        surname: vec!["Stevenson".to_string()],
        given: vec!["John".to_string()],
        additional: vec!["Philip".to_string(), "Paul".to_string()],
        suffix: vec!["Jr.".to_string(), "M.D.".to_string(), "A.C.P.".to_string()],
        prefix: vec!["Dr.".to_string()],
    }
}

#[test]
fn formatted_name_simple() {
    let (parsed, end) = <FormattedName as Parse>::parse(DATA, 0).unwrap();
    assert_eq!(parsed, name());
    assert_eq!(&DATA[end..], "\n");
}

#[test]
fn formatted_name_round_trip() {
    let rendered = name().render();
    assert_eq!(rendered, "Stevenson;John;Philip,Paul;Dr.;Jr.,M.D.,A.C.P.");
    let with_terminator = format!("{}\n", rendered);
    let (parsed, _) = <FormattedName as Parse>::parse(&with_terminator, 0).unwrap();
    assert_eq!(parsed, name());
}

#[test]
fn formatted_name_empty_segments() {
    // empty comma-lists stay empty (and absent trailing list is empty)
    let (parsed, end) = <FormattedName as Parse>::parse("Gump;Forrest;;Mr.;\n", 0).unwrap();
    assert_eq!(
        parsed,
        FormattedName {
            surname: vec!["Gump".to_string()],
            given: vec!["Forrest".to_string()],
            additional: vec![],
            prefix: vec!["Mr.".to_string()],
            suffix: vec![],
        }
    );
    assert_eq!(end, 18);
}
