//! Links as QR codes for the terminal.

use qrcode::render::unicode::Dense1x2;
use qrcode::QrCode;
use vstd::prelude::*;

verus! {

/// The QR code of a text, drawn with block characters; `None` if the text has none,
/// being too long.
pub uninterp spec fn qr_image(text: Seq<char>) -> Option<Seq<char>>;

/// The error of `qrcode`.
#[verifier::external_type_specification]
#[verifier::external_body]
pub struct ExQrError(qrcode::types::QrError);

/// `QrCode::new` on the bytes of a text, and `QrCode::render` as characters of two
/// modules each, dark modules drawn.
#[verifier::external_body]
fn render_qr(text: &str) -> (out: Result<String, qrcode::types::QrError>)
    ensures
        match out {
            Ok(image) => qr_image(text@) == Some(image@),
            Err(_) => qr_image(text@) is None,
        },
{
    let code = QrCode::new(text.as_bytes())?;
    let mut renderer = code.render::<Dense1x2>();
    Ok(renderer.dark_color(Dense1x2::Dark).light_color(Dense1x2::Light).build())
}

/// What is shown below a link: its QR code, or a line that says that there is none.
pub open spec fn below_link(image: Option<Seq<char>>) -> Seq<char> {
    match image {
        Some(i) => i,
        None => "  (QR generation failed, use the URL above)"@,
    }
}

/// What is shown below a link with the given QR code.
pub fn qr_or_hint(image: Option<String>) -> (out: String)
    ensures
        out@ == below_link(
            match image {
                Some(i) => Some(i@),
                None => None,
            },
        ),
{
    match image {
        Some(i) => i,
        None => "  (QR generation failed, use the URL above)".to_owned(),
    }
}

/// What is shown below a link.
pub fn print_qr(url: &str) -> (out: String)
    ensures
        out@ == below_link(qr_image(url@)),
{
    match render_qr(url) {
        Ok(image) => qr_or_hint(Some(image)),
        Err(_) => qr_or_hint(None),
    }
}

/// Below a link stands its QR code, whole, if it has one, and else a hint to use the link.
pub proof fn law_below_link(image: Seq<char>)
    ensures
        below_link(Some(image)) == image,
        below_link(None) == "  (QR generation failed, use the URL above)"@,
{
}

} // verus!
