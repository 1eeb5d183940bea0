//! Icons: telling a themed icon name from an image file, checking image files
//! before they are accepted, and the pixel data a tray host is given.
//!
//! Whether a path exists on disk and what a file holds are read by the caller
//! and handed in as plain values (`exists`, `contents`).
use crate::protocol::opt_view;
use crate::text::{eq_ignore_ascii_case, has_char, str_eq_ignore_ascii_case, str_has_char};
use vstd::prelude::*;

verus! {

/// How an icon string is to be checked before an item accepts it.
#[derive(Debug, Clone, Copy, PartialEq, Eq)]
pub enum IconSource {
    /// Not checked: empty, a themed icon name, or a file of another type.
    Name,
    /// A PNG file, decoded to check it.
    Png,
    /// An SVG file, parsed to check it.
    Svg,
}

/// What `std::path::Path::extension` gives for a path, as characters.
pub uninterp spec fn path_extension(path: Seq<char>) -> Option<Seq<char>>;

/// Calls `std::path::Path::extension` on `path`. Trusted: the result is the named
/// `path_extension` of the path's characters (the extension is valid UTF-8, since
/// the path is).
#[verifier::external_body]
fn extension_of(path: &str) -> (r: Option<String>)
    ensures
        opt_view(r) == path_extension(path@),
{
    match std::path::Path::new(path).extension() {
        Some(e) => Some(e.to_string_lossy().into_owned()),
        None => None,
    }
}

/// The image crate's file format type.
#[verifier::external_type_specification]
#[verifier::external_body]
pub struct ExImageFormat(image::ImageFormat);

/// What `image::ImageFormat::from_path` gives for a path: the format its
/// extension names, or the error's message.
pub uninterp spec fn path_image_format(path: Seq<char>) -> Result<image::ImageFormat, Seq<char>>;

/// Calls `image::ImageFormat::from_path`. Trusted: the result is the named
/// `path_image_format` of the path's characters.
#[verifier::external_body]
fn image_format_of_path(path: &str) -> (r: Result<image::ImageFormat, String>)
    ensures
        match r {
            Ok(f) => path_image_format(path@) == Ok::<image::ImageFormat, Seq<char>>(f),
            Err(e) => path_image_format(path@) == Err::<image::ImageFormat, Seq<char>>(e@),
        },
{
    match image::ImageFormat::from_path(path) {
        Ok(f) => Ok(f),
        Err(e) => Err(e.to_string()),
    }
}

/// What `image::load_from_memory_with_format` gives for `bytes` in `format`,
/// converted to RGBA8: (width, height, pixel bytes), or the error's message.
pub uninterp spec fn rgba8_decoding(bytes: Seq<u8>, format: image::ImageFormat) -> Result<(u32, u32, Seq<u8>), Seq<char>>;

/// Calls `image::load_from_memory_with_format` and converts the image with
/// `to_rgba8`. Trusted: the result is the named `rgba8_decoding`, and the buffer
/// that `to_rgba8` makes holds exactly four bytes per pixel.
#[verifier::external_body]
fn decode_rgba8(bytes: &[u8], format: image::ImageFormat) -> (r: Result<(u32, u32, Vec<u8>), String>)
    ensures
        match r {
            Ok((w, h, px)) => rgba8_decoding(bytes@, format) == Ok::<(u32, u32, Seq<u8>), Seq<char>>((w, h, px@))
                && px@.len() == 4 * (w as int) * (h as int),
            Err(e) => rgba8_decoding(bytes@, format) == Err::<(u32, u32, Seq<u8>), Seq<char>>(e@),
        },
{
    match image::load_from_memory_with_format(bytes, format) {
        Ok(img) => {
            let rgba = img.to_rgba8();
            Ok((rgba.width(), rgba.height(), rgba.into_raw()))
        },
        Err(e) => Err(e.to_string()),
    }
}

/// What `image::open` gives for the file at `path` holding `bytes`: the format
/// from the path's extension, then the decoded image in RGBA8.
pub open spec fn image_decoding(path: Seq<char>, bytes: Seq<u8>) -> Result<(u32, u32, Seq<u8>), Seq<char>> {
    match path_image_format(path) {
        Err(e) => Err(e),
        Ok(f) => rgba8_decoding(bytes, f),
    }
}

/// Decodes the bytes of the image file at `path` as `image::open` does once the
/// file is read, into RGBA8.
fn decode_image(path: &str, bytes: &[u8]) -> (r: Result<(u32, u32, Vec<u8>), String>)
    ensures
        match r {
            Ok((w, h, px)) => image_decoding(path@, bytes@) == Ok::<(u32, u32, Seq<u8>), Seq<char>>((w, h, px@))
                && px@.len() == 4 * (w as int) * (h as int),
            Err(e) => image_decoding(path@, bytes@) == Err::<(u32, u32, Seq<u8>), Seq<char>>(e@),
        },
{
    match image_format_of_path(path) {
        Err(e) => Err(e),
        Ok(f) => decode_rgba8(bytes, f),
    }
}

/// The outcome of `usvg::Tree::from_data` on `data`, with default options except
/// that `<image>` references resolve to nothing: success, or the error's message.
/// (usvg only logs and skips an `<image>` it cannot resolve, so whether parsing
/// succeeds and its error do not depend on what the references name.)
pub uninterp spec fn svg_parsing(data: Seq<u8>) -> Result<(), Seq<char>>;

/// usvg's parsing options.
#[verifier::external_type_specification]
#[verifier::external_body]
pub struct ExSvgOptions<'a>(usvg::Options<'a>);

/// usvg's image data type.
#[verifier::external_type_specification]
#[verifier::external_body]
pub struct ExSvgImageKind(usvg::ImageKind);

/// What an `<image>` that names a file resolves to while an icon is checked:
/// nothing, so that checking an icon reads nothing from disk.
fn no_linked_image(_href: &str, _opt: &usvg::Options) -> (r: Option<usvg::ImageKind>)
    ensures
        r is None,
{
    None
}

/// What an `<image>` with inline data resolves to while an icon is checked:
/// nothing (the data is not needed to tell whether the icon parses).
fn no_embedded_image(_mime: &str, _data: std::sync::Arc<Vec<u8>>, _opt: &usvg::Options) -> (r: Option<usvg::ImageKind>)
    ensures
        r is None,
{
    None
}

/// Parses `data` with `usvg::Tree::from_data`, using `usvg::Options::default()`
/// with an `image_href_resolver` whose two functions resolve nothing, so that the
/// parse reads no file an `<image href=..>` names. Trusted: the result is the
/// named `svg_parsing` of the bytes.
#[verifier::external_body]
fn parse_svg(data: &[u8]) -> (r: Result<(), String>)
    ensures
        match r {
            Ok(()) => svg_parsing(data@) == Ok::<(), Seq<char>>(()),
            Err(e) => svg_parsing(data@) == Err::<(), Seq<char>>(e@),
        },
{
    let resolver = usvg::ImageHrefResolver {
        resolve_data: Box::new(|mime, bytes, opt| no_embedded_image(mime, bytes, opt)),
        resolve_string: Box::new(|href, opt| no_linked_image(href, opt)),
    };
    let opt = usvg::Options { image_href_resolver: resolver, ..usvg::Options::default() };
    match usvg::Tree::from_data(data, &opt) {
        Ok(_) => Ok(()),
        Err(e) => Err(e.to_string()),
    }
}

/// An icon string names a file: it holds a `/` (an absolute path always does) or
/// the path exists.
pub open spec fn names_file(icon: Seq<char>, exists: bool) -> bool {
    has_char(icon, '/') || exists
}

/// The check an icon string gets, by its extension (ASCII case ignored).
pub open spec fn icon_source_of(icon: Seq<char>, exists: bool) -> IconSource {
    if icon.len() == 0 || !names_file(icon, exists) {
        IconSource::Name
    } else {
        match path_extension(icon) {
            Some(ext) => if eq_ignore_ascii_case(ext, seq!['p', 'n', 'g']) {
                IconSource::Png
            } else if eq_ignore_ascii_case(ext, seq!['s', 'v', 'g']) {
                IconSource::Svg
            } else {
                IconSource::Name
            },
            None => IconSource::Name,
        }
    }
}

/// The message of a file that usvg refuses.
pub open spec fn svg_error(e: Seq<char>) -> Seq<char> {
    "failed to parse SVG: "@ + e
}

/// What checking an icon gives: `Ok` when it is accepted, else the error's message.
pub open spec fn icon_check(icon: Seq<char>, exists: bool, contents: Result<Seq<u8>, Seq<char>>) -> Result<(), Seq<char>> {
    match icon_source_of(icon, exists) {
        IconSource::Name => Ok(()),
        IconSource::Png => match contents {
            Err(e) => Err(e),
            Ok(bytes) => match image_decoding(icon, bytes) {
                Ok(_) => Ok(()),
                Err(e) => Err(e),
            },
        },
        IconSource::Svg => match contents {
            Err(e) => Err(e),
            Ok(bytes) => match svg_parsing(bytes) {
                Ok(()) => Ok(()),
                Err(e) => Err(svg_error(e)),
            },
        },
    }
}

/// What an icon check decides: a themed name (or an unchecked file) passes; a
/// file to be checked fails with its read error when it cannot be read; a PNG
/// file passes exactly when its bytes decode in the format its path names, and
/// an SVG file exactly when its bytes parse.
pub proof fn lemma_icon_check_outcomes(icon: Seq<char>, exists: bool, contents: Result<Seq<u8>, Seq<char>>)
    ensures
        icon_source_of(icon, exists) == IconSource::Name ==> icon_check(icon, exists, contents) == Ok::<(), Seq<char>>(()),
        icon_source_of(icon, exists) != IconSource::Name ==> (contents matches Err(e) ==> icon_check(icon, exists, contents) == Err::<(), Seq<char>>(e)),
        icon_source_of(icon, exists) == IconSource::Svg ==> (icon_check(icon, exists, contents) is Ok <==> (contents matches Ok(b) && svg_parsing(b) is Ok)),
        icon_source_of(icon, exists) == IconSource::Png ==> (icon_check(icon, exists, contents) is Ok <==> (contents matches Ok(b) && (path_image_format(icon) matches Ok(f) && rgba8_decoding(b, f) is Ok))),
{
}

/// The characters of a read result.
pub open spec fn contents_view(c: Result<Vec<u8>, String>) -> Result<Seq<u8>, Seq<char>> {
    match c {
        Ok(b) => Ok(b@),
        Err(e) => Err(e@),
    }
}

/// The characters of a check result.
pub open spec fn check_view(c: Result<(), String>) -> Result<(), Seq<char>> {
    match c {
        Ok(()) => Ok(()),
        Err(e) => Err(e@),
    }
}

/// Which check `icon` gets; `exists` tells whether the path exists on disk.
/// Only for `Png` and `Svg` does the file need to be read.
pub fn icon_source(icon: &str, exists: bool) -> (r: IconSource)
    ensures
        r == icon_source_of(icon@, exists),
{
    if icon.unicode_len() == 0 {
        return IconSource::Name;
    }
    if !(str_has_char(icon, '/') || exists) {
        return IconSource::Name;
    }
    match extension_of(icon) {
        Some(ext) => {
            proof {
                reveal_strlit("png");
                reveal_strlit("svg");
            }
            if str_eq_ignore_ascii_case(ext.as_str(), "png") {
                IconSource::Png
            } else if str_eq_ignore_ascii_case(ext.as_str(), "svg") {
                IconSource::Svg
            } else {
                IconSource::Name
            }
        },
        None => IconSource::Name,
    }
}

/// Checks an icon before an item takes it: a PNG file must decode and an SVG
/// file must parse. `exists` tells whether the path exists; `contents` is the
/// file's bytes, or the read error's message (unused unless the icon is a PNG or
/// an SVG file).
pub fn resolve_icon(icon: &str, exists: bool, contents: Result<Vec<u8>, String>) -> (r: Result<(), String>)
    ensures
        check_view(r) == icon_check(icon@, exists, contents_view(contents)),
        icon_source_of(icon@, exists) == IconSource::Name ==> r is Ok,
        icon_source_of(icon@, exists) != IconSource::Name ==> (contents matches Err(e) ==> (r matches Err(m) && m@ == e@)),
{
    proof {
        lemma_icon_check_outcomes(icon@, exists, contents_view(contents));
    }
    match icon_source(icon, exists) {
        IconSource::Name => Ok(()),
        IconSource::Png => match contents {
            Err(e) => Err(e),
            Ok(bytes) => match decode_image(icon, bytes.as_slice()) {
                Ok(_) => Ok(()),
                Err(e) => Err(e),
            },
        },
        IconSource::Svg => match contents {
            Err(e) => Err(e),
            Ok(bytes) => match parse_svg(bytes.as_slice()) {
                Ok(()) => Ok(()),
                Err(e) => {
                    let msg = String::from_str("failed to parse SVG: ");
                    Err(msg.concat(e.as_str()))
                },
            },
        },
    }
}

/// `out` is `rgba` with each pixel's bytes reordered from R, G, B, A to A, R, G, B.
pub open spec fn is_argb_of(out: Seq<u8>, rgba: Seq<u8>) -> bool {
    &&& out.len() == rgba.len()
    &&& forall|k: int|
        0 <= k < rgba.len() / 4 ==> {
            &&& #[trigger] out[4 * k] == rgba[4 * k + 3]
            &&& out[4 * k + 1] == rgba[4 * k]
            &&& out[4 * k + 2] == rgba[4 * k + 1]
            &&& out[4 * k + 3] == rgba[4 * k + 2]
        }
}

/// Reorders RGBA pixel bytes into the ARGB order of the tray protocol.
pub fn rgba_to_argb(rgba: &Vec<u8>) -> (out: Vec<u8>)
    requires
        rgba@.len() % 4 == 0,
    ensures
        is_argb_of(out@, rgba@),
{
    let n = rgba.len() / 4;
    assert(rgba@.len() == 4 * n);
    let mut out: Vec<u8> = Vec::new();
    let mut k: usize = 0;
    while k < n
        invariant
            n == rgba@.len() / 4,
            rgba@.len() == 4 * n,
            rgba@.len() <= usize::MAX,
            k <= n,
            out@.len() == 4 * k,
            forall|j: int|
                0 <= j < k ==> {
                    &&& #[trigger] out@[4 * j] == rgba@[4 * j + 3]
                    &&& out@[4 * j + 1] == rgba@[4 * j]
                    &&& out@[4 * j + 2] == rgba@[4 * j + 1]
                    &&& out@[4 * j + 3] == rgba@[4 * j + 2]
                },
        decreases n - k,
    {
        let p = 4 * k;
        let ghost old_out = out@;
        out.push(rgba[p + 3]);
        out.push(rgba[p]);
        out.push(rgba[p + 1]);
        out.push(rgba[p + 2]);
        proof {
            assert forall|j: int| 0 <= j < k + 1 implies {
                &&& #[trigger] out@[4 * j] == rgba@[4 * j + 3]
                &&& out@[4 * j + 1] == rgba@[4 * j]
                &&& out@[4 * j + 2] == rgba@[4 * j + 1]
                &&& out@[4 * j + 3] == rgba@[4 * j + 2]
            } by {
                if j < k {
                    assert(out@[4 * j] == old_out[4 * j]);
                    assert(out@[4 * j + 1] == old_out[4 * j + 1]);
                    assert(out@[4 * j + 2] == old_out[4 * j + 2]);
                    assert(out@[4 * j + 3] == old_out[4 * j + 3]);
                }
            }
        }
        k = k + 1;
    }
    out
}

/// The pixmaps of an icon: one ARGB pixmap when the icon names an image file
/// that decodes, none otherwise.
pub open spec fn pixmap_of(icon: Seq<char>, exists: bool, contents: Result<Seq<u8>, Seq<char>>) -> Option<(u32, u32, Seq<u8>)> {
    if icon.len() == 0 || !names_file(icon, exists) {
        None
    } else {
        match contents {
            Err(_) => None,
            Ok(bytes) => match image_decoding(icon, bytes) {
                Ok(img) => Some(img),
                Err(_) => None,
            },
        }
    }
}

/// The icon's pixmaps, as `(width, height, ARGB bytes)`; empty unless the icon is
/// an image file that decodes.
pub fn load_icon_pixmap(icon: &str, exists: bool, contents: Result<Vec<u8>, String>) -> (r: Vec<(i32, i32, Vec<u8>)>)
    ensures
        match pixmap_of(icon@, exists, contents_view(contents)) {
            None => r@.len() == 0,
            Some((w, h, rgba)) => {
                &&& r@.len() == 1
                &&& r@[0].0 == w as i32
                &&& r@[0].1 == h as i32
                &&& is_argb_of(r@[0].2@, rgba)
            },
        },
{
    let mut r: Vec<(i32, i32, Vec<u8>)> = Vec::new();
    if icon.unicode_len() == 0 {
        return r;
    }
    if !(str_has_char(icon, '/') || exists) {
        return r;
    }
    let bytes = match contents {
        Ok(b) => b,
        Err(_) => return r,
    };
    match decode_image(icon, bytes.as_slice()) {
        Ok((w, h, rgba)) => {
            let ghost x = (w as int) * (h as int);
            assert(rgba@.len() == 4 * x) by (nonlinear_arith)
                requires
                    rgba@.len() == 4 * (w as int) * (h as int),
                    x == (w as int) * (h as int),
            ;
            assert((4 * x) % 4 == 0) by (nonlinear_arith);
            let argb = rgba_to_argb(&rgba);
            r.push((#[verifier::truncate] (w as i32), #[verifier::truncate] (h as i32), argb));
            r
        },
        Err(_) => r,
    }
}

/// The themed icon name a tray host is given: the icon itself, unless it is empty
/// or names a file.
pub open spec fn icon_name_of(icon: Seq<char>, exists: bool) -> Seq<char> {
    if icon.len() == 0 || names_file(icon, exists) {
        Seq::empty()
    } else {
        icon
    }
}

/// The themed icon name for `icon`; `exists` tells whether the path exists.
pub fn icon_name(icon: &str, exists: bool) -> (r: String)
    ensures
        r@ == icon_name_of(icon@, exists),
{
    if icon.unicode_len() == 0 || str_has_char(icon, '/') || exists {
        String::new()
    } else {
        String::from_str(icon)
    }
}

} // verus!
