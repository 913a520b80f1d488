//! The server's status, and its message of the day in the form a client asks
//! for.
use vstd::prelude::*;
use crate::json::{text_to_json, tree_of, Json};
use crate::markup::{clean_tags, html_of, strip_codes, text_to_html};
use crate::settings::Settings;
use crate::text::push_str;

verus! {

/// The form of the message of the day that a client asks for.
#[derive(Clone, Copy, Debug, PartialEq, Eq, Structural)]
pub enum MotdOutputType {
    JSON,
    HTML,
    PlainText,
}

/// The message of the day in one of its forms.
#[derive(Debug)]
pub enum MotdOutput {
    JSON(Json),
    HTML(String),
    PlainText(String),
}

/// The state of the game server.
#[derive(Clone, Copy, Debug, PartialEq, Eq, Structural)]
pub enum ServerStatus {
    Sleeping,
    Running,
    Starting,
    Stopped,
}

/// The server's name, with its formatting codes, in the form asked for.
pub fn get_motd(settings: &Settings, output_type: MotdOutputType) -> (r: Option<MotdOutput>)
    ensures
        r matches Some(out) && match output_type {
            MotdOutputType::JSON => out matches MotdOutput::JSON(j) && j@ == tree_of(
                settings.serverName@,
            ),
            MotdOutputType::HTML => out matches MotdOutput::HTML(h) && h@ == html_of(
                settings.serverName@,
            ),
            MotdOutputType::PlainText => out matches MotdOutput::PlainText(p) && p@
                == strip_codes(settings.serverName@),
        },
{
    match output_type {
        MotdOutputType::JSON => Some(MotdOutput::JSON(text_to_json(&settings.serverName))),
        MotdOutputType::PlainText => Some(MotdOutput::PlainText(clean_tags(&settings.serverName))),
        MotdOutputType::HTML => Some(MotdOutput::HTML(text_to_html(&settings.serverName))),
    }
}

/// The URL-safe base64 encoding of some bytes, with padding.
pub uninterp spec fn base64_url_of(b: Seq<u8>) -> Seq<char>;

/// Relies on base64's `URL_SAFE` engine and `Engine::encode`: the padded
/// URL-safe encoding, which depends on the bytes alone. `encode` panics when
/// the encoded length overflows `usize`, which the bound on the input rules
/// out.
#[verifier::external_body]
fn encode_url_safe(b: &[u8]) -> (r: String)
    requires
        b@.len() <= usize::MAX / 2,
    ensures
        r@ == base64_url_of(b@),
{
    base64::Engine::encode(&base64::engine::general_purpose::URL_SAFE, b)
}

/// The text that starts a PNG data URL in base64.
pub open spec fn png_data_prefix() -> Seq<char> {
    "data:image/png;base64,"@
}

/// Where the server icon comes from.
#[derive(Clone, Debug, PartialEq)]
pub enum FavIconSource {
    /// The icon given inline in the settings, as a data URL.
    Inline(String),
    /// The path of a PNG file to read.
    File(String),
    /// The built-in icon.
    Default,
}

/// Where the server icon comes from: the inline icon when the settings give
/// one, else the file when they name one, else the built-in icon.
pub fn fav_icon_source(settings: &Settings) -> (r: FavIconSource)
    ensures
        match settings.favIcon {
            Some(icon) => r matches FavIconSource::Inline(i) && i@ == icon@,
            None => match settings.favIconPath {
                Some(path) => r matches FavIconSource::File(p) && p@ == path@,
                None => r is Default,
            },
        },
{
    match &settings.favIcon {
        Some(icon) => FavIconSource::Inline(icon.clone()),
        None => match &settings.favIconPath {
            Some(path) => FavIconSource::File(path.clone()),
            None => FavIconSource::Default,
        },
    }
}

/// The PNG data URL around base64 text that is already encoded.
pub fn png_data_url(encoded: &str) -> (r: String)
    ensures
        r@ == png_data_prefix() + encoded@,
{
    let mut out = String::new();
    push_str(&mut out, "data:image/png;base64,");
    push_str(&mut out, encoded);
    out
}

/// The PNG data URL of the bytes of an icon file.
pub fn fav_icon_from_bytes(bytes: &Vec<u8>) -> (r: String)
    requires
        bytes@.len() <= usize::MAX / 2,
    ensures
        r@ == png_data_prefix() + base64_url_of(bytes@),
{
    let encoded = encode_url_safe(bytes.as_slice());
    png_data_url(encoded.as_str())
}

/// The server icon once the file, if any, has been read: the inline icon, the
/// data URL of the bytes read, or `default_icon` when there is no file or it
/// could not be read.
pub fn fav_icon_from(source: &FavIconSource, read: Option<&Vec<u8>>, default_icon: &str) -> (r:
    String)
    requires
        read matches Some(b) ==> b@.len() <= usize::MAX / 2,
    ensures
        match source {
            FavIconSource::Inline(i) => r@ == i@,
            FavIconSource::File(_) => match read {
                Some(b) => r@ == png_data_prefix() + base64_url_of(b@),
                None => r@ == default_icon@,
            },
            FavIconSource::Default => r@ == default_icon@,
        },
{
    match source {
        FavIconSource::Inline(i) => i.clone(),
        FavIconSource::File(_) => match read {
            Some(b) => fav_icon_from_bytes(b),
            None => default_icon.to_owned(),
        },
        FavIconSource::Default => default_icon.to_owned(),
    }
}

} // verus!
