use rolodex::types::Url;
use rolodex::{Parse, TypeOrRaw};

const DATA: &str = "http://www.example.com/dir_photos/my_photo.gif\n";

fn url() -> Url {
    Url {
        schema: "http".to_string(),
        domain: "www.example.com".to_string(),
        path: Some("/dir_photos/my_photo.gif".to_string()),
        params: vec![],
    }
}

#[test]
fn url_simple() {
    let (parsed, end) = <Url as Parse>::parse(DATA, 0).unwrap();
    assert_eq!(parsed, url());
    assert_eq!(&DATA[end..], "\n");

    let (resolved, end) = <TypeOrRaw<Url> as Parse>::parse(DATA, 0).unwrap();
    assert_eq!(resolved, TypeOrRaw::Type(url()));
    assert_eq!(&DATA[end..], "\n");
}

#[test]
fn url_params_keep_last_write() {
    // the query parameters form a mapping: last write wins, first position kept
    let (parsed, _) = <Url as Parse>::parse("https://a.example?x=c&y&x=d\n", 0).unwrap();
    assert_eq!(
        parsed.params,
        vec![
            ("x".to_string(), Some("d".to_string())),
            ("y".to_string(), None),
        ]
    );
}

#[test]
fn url_render_round_trip() {
    let text = url().render();
    assert_eq!(text, "http://www.example.com/dir_photos/my_photo.gif");
    let with_terminator = format!("{}\n", text);
    let (parsed, _) = <Url as Parse>::parse(&with_terminator, 0).unwrap();
    assert_eq!(parsed, url());
}
