use systray::icon::{icon_name, icon_source, load_icon_pixmap, resolve_icon, rgba_to_argb, IconSource};

fn png_bytes() -> Vec<u8> {
    let img = image::RgbaImage::from_raw(2, 1, vec![1, 2, 3, 4, 5, 6, 7, 8]).unwrap();
    let mut out = std::io::Cursor::new(Vec::new());
    img.write_to(&mut out, image::ImageFormat::Png).unwrap();
    out.into_inner()
}

const SVG: &[u8] = b"<svg xmlns='http://www.w3.org/2000/svg' width='10' height='10'><rect width='5' height='5'/></svg>";

#[test]
fn icon_source_names() {
    assert_eq!(icon_source("", false), IconSource::Name);
    assert_eq!(icon_source("media-record", false), IconSource::Name);
    // A name without '/' counts as a file only when it exists.
    assert_eq!(icon_source("icon.png", false), IconSource::Name);
    assert_eq!(icon_source("icon.png", true), IconSource::Png);
}

#[test]
fn icon_source_by_extension() {
    assert_eq!(icon_source("/x/icon.png", false), IconSource::Png);
    assert_eq!(icon_source("/x/icon.PNG", false), IconSource::Png);
    assert_eq!(icon_source("dir/icon.Svg", false), IconSource::Svg);
    assert_eq!(icon_source("/x/icon.jpg", false), IconSource::Name);
    assert_eq!(icon_source("/x/icon", false), IconSource::Name);
    assert_eq!(icon_source("/x/.png", false), IconSource::Name);
}

#[test]
fn resolve_name_needs_no_file() {
    assert_eq!(resolve_icon("media-record", false, Err("unread".to_string())), Ok(()));
    assert_eq!(resolve_icon("", false, Err("unread".to_string())), Ok(()));
}

#[test]
fn resolve_png() {
    assert_eq!(resolve_icon("/x/a.png", true, Ok(png_bytes())), Ok(()));
    assert!(resolve_icon("/x/a.png", true, Ok(b"not a png".to_vec())).is_err());
    assert_eq!(
        resolve_icon("/x/a.png", false, Err("No such file or directory (os error 2)".to_string())),
        Err("No such file or directory (os error 2)".to_string())
    );
}

#[test]
fn resolve_svg() {
    assert_eq!(resolve_icon("/x/a.svg", true, Ok(SVG.to_vec())), Ok(()));
    let e = resolve_icon("/x/a.svg", true, Ok(b"not svg".to_vec())).unwrap_err();
    assert!(e.starts_with("failed to parse SVG: "), "{}", e);
    assert!(e.len() > "failed to parse SVG: ".len());
}

#[test]
fn argb_order() {
    assert_eq!(rgba_to_argb(&vec![1, 2, 3, 4, 5, 6, 7, 8]), vec![4, 1, 2, 3, 8, 5, 6, 7]);
    assert_eq!(rgba_to_argb(&vec![]), Vec::<u8>::new());
}

#[test]
fn pixmap_of_png() {
    let px = load_icon_pixmap("/x/a.png", true, Ok(png_bytes()));
    assert_eq!(px, vec![(2, 1, vec![4, 1, 2, 3, 8, 5, 6, 7])]);
}

#[test]
fn pixmap_empty_cases() {
    assert!(load_icon_pixmap("", true, Ok(png_bytes())).is_empty());
    assert!(load_icon_pixmap("media-record", false, Ok(png_bytes())).is_empty());
    assert!(load_icon_pixmap("/x/a.png", true, Err("gone".to_string())).is_empty());
    assert!(load_icon_pixmap("/x/a.png", true, Ok(b"junk".to_vec())).is_empty());
    // image cannot decode SVG files.
    assert!(load_icon_pixmap("/x/a.svg", true, Ok(SVG.to_vec())).is_empty());
}

#[test]
fn themed_icon_name() {
    assert_eq!(icon_name("media-record", false), "media-record");
    assert_eq!(icon_name("", false), "");
    assert_eq!(icon_name("/x/a.png", false), "");
    assert_eq!(icon_name("a.png", true), "");
}

#[test]
fn svg_with_image_references_parses() {
    let svg = b"<svg xmlns='http://www.w3.org/2000/svg' xmlns:xlink='http://www.w3.org/1999/xlink' width='10' height='10'>\
<image href='/no/such/file.png' width='5' height='5'/>\
<image xlink:href='data:image/png;base64,AAAA' width='5' height='5'/></svg>";
    assert_eq!(resolve_icon("/x/a.svg", true, Ok(svg.to_vec())), Ok(()));
}
