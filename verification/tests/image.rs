use rolodex::parse::parse_typed_value;
use rolodex::types::{Image, Url};
use rolodex::{Parse, TypeOrRaw};

const DATA: &str = "https://testurl\n";
const RAW_DATA: &str = "data:image/gif;base64,R0lGODlhEAAQAMQAAORHHOVSKudfOulrSOp3WOyDZu6QdvCchPGolfO0o/XBs/fNwfjZ0frl3/zy7////wAAAAAAAAAAAAAAAAAAAAAAAAAAAAAAAAAAAAAAAAAAAAAAAAAAAAAAAAAAAAAAACH5BAkAABAALAAAAAAQABAAAAVVICSOZGlCQAosJ6mu7fiyZeKqNKToQGDsM8hBADgUXoGAiqhSvp5QAnQKGIgUhwFUYLCVDFCrKUE1lBavAViFIDlTImbKC5Gm2hB0SlBCBMQiB0UjIQA7\n";

fn url() -> Image {
    Image::Url(Url {
        schema: "https".to_string(),
        domain: "testurl".to_string(),
        path: None,
        params: vec![],
    })
}

fn raw_url() -> Image {
    Image::Data {
        ty: "image/gif".to_string(),
        encoding: "base64".to_string(),
        data: "R0lGODlhEAAQAMQAAORHHOVSKudfOulrSOp3WOyDZu6QdvCchPGolfO0o/XBs/fNwfjZ0frl3/zy7////wAAAAAAAAAAAAAAAAAAAAAAAAAAAAAAAAAAAAAAAAAAAAAAAAAAAAAAAAAAAAAAACH5BAkAABAALAAAAAAQABAAAAVVICSOZGlCQAosJ6mu7fiyZeKqNKToQGDsM8hBADgUXoGAiqhSvp5QAnQKGIgUhwFUYLCVDFCrKUE1lBavAViFIDlTImbKC5Gm2hB0SlBCBMQiB0UjIQA7".to_string(),
    }
}

#[test]
fn image_simple() {
    let (parsed, end) = <Image as Parse>::parse(DATA, 0).unwrap();
    assert_eq!(parsed, url());
    assert_eq!(&DATA[end..], "\n");

    let (resolved, end) = parse_typed_value::<Image>(RAW_DATA, 0).unwrap();
    assert_eq!(resolved, TypeOrRaw::Type(raw_url()));
    assert_eq!(&RAW_DATA[end..], "\n");

    let (parsed, end) = <Image as Parse>::parse(RAW_DATA, 0).unwrap();
    assert_eq!(parsed, raw_url());
    assert_eq!(&RAW_DATA[end..], "\n");
}

#[test]
fn image_render_round_trip() {
    let text = raw_url().render();
    let with_terminator = format!("{}\n", text);
    let (parsed, _) = <Image as Parse>::parse(&with_terminator, 0).unwrap();
    assert_eq!(parsed, raw_url());
}
