//! The image reference value: either a URL or an inline data form.

use vstd::prelude::*;

use crate::parse::{
    parse_error, parse_value, spec_value_text, ErrorKind, Parse, ParseError, ScanOutcome,
};
use crate::scan;
use crate::scan::StopSet;
use super::url::{spec_parse_url, spec_render_url, SpecUrl, Url};

verus! {

/// Specification-level counterpart of [`Image`].
#[verifier::ext_equal]
pub enum SpecImage {
    Url(SpecUrl),
    Data { ty: Seq<char>, encoding: Seq<char>, data: Seq<char> },
}

/// An image reference: a URL, or an inline `data:<type>;<encoding>,<payload>`
/// form.
#[derive(Debug, PartialEq, Clone)]
pub enum Image {
    Url(Url),
    Data { ty: String, encoding: String, data: String },
}

impl View for Image {
    type V = SpecImage;

    open spec fn view(&self) -> SpecImage {
        match self {
            Image::Url(u) => SpecImage::Url(u@),
            Image::Data { ty, encoding, data } => SpecImage::Data {
                ty: ty@,
                encoding: encoding@,
                data: data@,
            },
        }
    }
}

/// Whether the first `target` found from `i` stands before the first line
/// terminator found from `i`: the delimiters of the inline data form may not
/// be sought past the end of the line.
pub open spec fn found_in_line(s: Seq<char>, i: int, target: Option<int>, nl: Option<int>) -> bool {
    match target {
        Option::None => false,
        Option::Some(j) => match nl {
            Option::Some(n) => j < n,
            Option::None => true,
        },
    }
}

/// Grammar: when the input starts with the literal `data:`, commit to the
/// data form — type up to `;`, encoding up to `,` (both delimiters must stand
/// before the first line terminator, else the form does not match), payload
/// scanned as an unstructured value; otherwise attempt the URL grammar.
#[verifier::opaque]
pub open spec fn spec_parse_image(s: Seq<char>) -> ScanOutcome<SpecImage> {
    if scan::spec_match_lit(s, "data:"@) {
        let i0 = "data:"@.len() as int;
        let sc = scan::spec_find(s, i0, StopSet::Lit(';'));
        let nl = scan::spec_find(s, i0, StopSet::Lit('\n'));
        if !found_in_line(s, i0, sc, nl) {
            match sc {
                Option::None => match nl {
                    Option::None => ScanOutcome::Incomplete,
                    Option::Some(_) => ScanOutcome::NoMatch,
                },
                Option::Some(_) => ScanOutcome::NoMatch,
            }
        } else {
            let j = sc->Some_0;
            let cm = scan::spec_find(s, j + 1, StopSet::Lit(','));
            let nl2 = scan::spec_find(s, j + 1, StopSet::Lit('\n'));
            if !found_in_line(s, j + 1, cm, nl2) {
                match cm {
                    Option::None => match nl2 {
                        Option::None => ScanOutcome::Incomplete,
                        Option::Some(_) => ScanOutcome::NoMatch,
                    },
                    Option::Some(_) => ScanOutcome::NoMatch,
                }
            } else {
                let k = cm->Some_0;
                match spec_value_text(s.skip(k + 1)) {
                    ScanOutcome::Match { value, used } => ScanOutcome::Match {
                        value: SpecImage::Data {
                            ty: s.subrange(i0, j),
                            encoding: s.subrange(j + 1, k),
                            data: value,
                        },
                        used: k + 1 + used,
                    },
                    _ => ScanOutcome::Incomplete,
                }
            }
        }
    } else {
        match spec_parse_url(s) {
            ScanOutcome::Match { value, used } => ScanOutcome::Match {
                value: SpecImage::Url(value),
                used,
            },
            ScanOutcome::Incomplete => ScanOutcome::Incomplete,
            ScanOutcome::Reserved => ScanOutcome::Reserved,
            ScanOutcome::NoMatch => ScanOutcome::NoMatch,
        }
    }
}

impl Parse for Image {
    open spec fn spec_parse(s: Seq<char>) -> ScanOutcome<SpecImage> {
        spec_parse_image(s)
    }

    fn parse(input: &str, pos: usize) -> (r: Result<(Self, usize), ParseError>) {
        proof {
            reveal(spec_parse_image);
        }
        let ghost sub = input@.skip(pos as int);
        let len = input.unicode_len();
        if let Some(i0) = scan::match_keyword(input, pos, "data:") {
            proof {
                assert(len == input@.len());
                assert(sub.skip(i0 - pos) =~= input@.skip(i0 as int));
                scan::lemma_find_shift(sub, i0 - pos, 0, StopSet::Lit(';'));
                scan::lemma_find_shift(sub, i0 - pos, 0, StopSet::Lit('\n'));
            }
            let nl = scan::find_stop(input, i0, StopSet::Lit('\n'));
            let sc = scan::find_stop(input, i0, StopSet::Lit(';'));
            let in_line = match (sc, nl) {
                (Some(j), Some(n)) => j < n,
                (Some(_), None) => true,
                _ => false,
            };
            if !in_line {
                let kind = if sc.is_none() && nl.is_none() {
                    ErrorKind::Incomplete
                } else {
                    ErrorKind::Mismatch
                };
                return Err(parse_error(kind, pos, "no data type before the end of the line"));
            }
            let j = match sc {
                Some(j) => j,
                None => {
                    return Err(parse_error(ErrorKind::Mismatch, pos, "missing image data type"));
                },
            };
            proof {
                assert(sub.skip(j + 1 - pos) =~= input@.skip(j + 1));
                scan::lemma_find_shift(sub, j + 1 - pos, 0, StopSet::Lit(','));
                scan::lemma_find_shift(sub, j + 1 - pos, 0, StopSet::Lit('\n'));
            }
            let nl2 = scan::find_stop(input, j + 1, StopSet::Lit('\n'));
            let cm = scan::find_stop(input, j + 1, StopSet::Lit(','));
            let in_line2 = match (cm, nl2) {
                (Some(k), Some(n)) => k < n,
                (Some(_), None) => true,
                _ => false,
            };
            if !in_line2 {
                let kind = if cm.is_none() && nl2.is_none() {
                    ErrorKind::Incomplete
                } else {
                    ErrorKind::Mismatch
                };
                return Err(parse_error(kind, pos, "no encoding before the end of the line"));
            }
            let k = match cm {
                Some(k) => k,
                None => {
                    return Err(parse_error(ErrorKind::Mismatch, pos, "missing image encoding"));
                },
            };
            match parse_value(input, k + 1) {
                Ok((data, end)) => {
                    let img = Image::Data {
                        ty: scan::extract(input, i0, j),
                        encoding: scan::extract(input, j + 1, k),
                        data,
                    };
                    proof {
                        assert(sub.skip(k + 1 - pos) =~= input@.skip(k + 1));
                        assert(input@.subrange(i0 as int, j as int) =~= sub.subrange(
                            i0 - pos,
                            j - pos,
                        ));
                        assert(input@.subrange(j + 1, k as int) =~= sub.subrange(
                            j + 1 - pos,
                            k - pos,
                        ));
                        assert(spec_parse_image(sub) =~= (ScanOutcome::Match {
                            value: img@,
                            used: end - pos,
                        }));
                    }
                    Ok((img, end))
                },
                Err(e) => {
                    proof {
                        assert(sub.skip(k + 1 - pos) =~= input@.skip(k + 1));
                    }
                    Err(e)
                },
            }
        } else {
            match Url::parse(input, pos) {
                Ok((u, end)) => {
                    let img = Image::Url(u);
                    proof {
                        assert(spec_parse_image(sub) =~= (ScanOutcome::Match {
                            value: img@,
                            used: end - pos,
                        }));
                    }
                    Ok((img, end))
                },
                Err(e) => Err(e),
            }
        }
    }
}

/// Rendered form of an image reference.
pub open spec fn spec_render_image(img: SpecImage) -> Seq<char> {
    match img {
        SpecImage::Url(u) => spec_render_url(u),
        SpecImage::Data { ty, encoding, data } => "data:"@ + ty + ";"@ + encoding + ","@ + data,
    }
}

impl Image {
    /// Render this image reference as value text.
    pub fn render(&self) -> (r: String)
        ensures
            r@ == spec_render_image(self@),
    {
        match self {
            Image::Url(u) => u.render(),
            Image::Data { ty, encoding, data } => {
                let mut out = "data:".to_owned();
                out.append(ty.as_str());
                out.append(";");
                out.append(encoding.as_str());
                out.append(",");
                out.append(data.as_str());
                proof {
                    assert(out@ =~= spec_render_image(self@));
                }
                out
            },
        }
    }
}

} // verus!
