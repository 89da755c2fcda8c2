use std::io::Read;

use scannedpdf::codec::{compress_stream, encode_image, preprocess};
use scannedpdf::{Error, Margin, PageConfig, PageSize, PDF};

fn count(hay: &[u8], needle: &[u8]) -> usize {
    hay.windows(needle.len()).filter(|w| *w == needle).count()
}

fn find(hay: &[u8], needle: &[u8]) -> Option<usize> {
    hay.windows(needle.len()).position(|w| w == needle)
}

/// Checks every cross-reference line against the object it names and
/// returns the number of entries the table declares.
fn check_xref(doc: &[u8]) -> usize {
    let start = find(doc, b"\nxref\n").expect("xref") + 1;
    let text = String::from_utf8_lossy(&doc[start..]).to_string();
    let mut lines = text.lines();
    assert_eq!(lines.next(), Some("xref"));
    let header = lines.next().unwrap();
    let n: usize = header.strip_prefix("0 ").unwrap().parse().unwrap();
    assert_eq!(lines.next(), Some("0000000000 65535 f"));
    for id in 1..n {
        let line = lines.next().unwrap();
        assert_eq!(line.len(), 18);
        assert!(line.ends_with(" 00000 n"));
        let offset: usize = line[..10].parse().unwrap();
        let head = format!("{} 0 obj\n<<\n", id);
        assert_eq!(&doc[offset..offset + head.len()], head.as_bytes());
    }
    assert_eq!(lines.next(), Some("trailer"));
    let startxref = find(doc, b"startxref\n").unwrap() + 10;
    let rest = String::from_utf8_lossy(&doc[startxref..]).to_string();
    let xref_at: usize = rest.lines().next().unwrap().parse().unwrap();
    assert_eq!(xref_at, start);
    n
}

#[test]
fn two_pages_with_outlines() {
    let mut pdf = PDF::create(PageConfig::new(), 2);
    let a = image::DynamicImage::new_rgb8(300, 300);
    let b = image::DynamicImage::new_rgb8(300, 300);
    pdf.add_page_from_image(a, Some("A".to_string()), None).unwrap();
    pdf.add_page_from_image(b, Some("B".to_string()), None).unwrap();
    assert_eq!(pdf.total_objects(), 11);
    let doc = pdf.finish().unwrap();
    assert!(doc.starts_with(b"%PDF-1.7\n1 0 obj\n<<\n/Type /Catalog\n"));
    assert!(doc.ends_with(b"%%EOF\n"));
    assert_eq!(count(&doc, b"/Size 11\n"), 1);
    assert_eq!(count(&doc, b"/Type /Outlines\n/Count 2/First 10 0 R\n/Last 11 0 R\n"), 1);
    assert_eq!(count(&doc, b"/Parent 3 0 R\n"), 2);
    assert_eq!(count(&doc, b"/Next 11 0 R\n"), 1);
    assert_eq!(count(&doc, b"/Prev 10 0 R\n"), 1);
    assert_eq!(count(&doc, b"/Next "), 1);
    assert_eq!(count(&doc, b"/Prev "), 1);
    assert_eq!(count(&doc, b"/Title (\xFE\xFF\x00A)"), 1);
    assert_eq!(count(&doc, b"/Title (\xFE\xFF\x00B)"), 1);
    assert_eq!(count(&doc, b"[4 0 R /XYZ 0 0 0]"), 1);
    assert_eq!(count(&doc, b"[7 0 R /XYZ 0 0 0]"), 1);
    assert_eq!(count(&doc, b"/Kids [\n4 0 R\n7 0 R\n]\n"), 1);
    assert_eq!(count(&doc, b"300 0 0 300 147 271 cm\n"), 2);
    assert_eq!(count(&doc, b"/MediaBox [0 0 595 842]\n"), 2);
    assert_eq!(check_xref(&doc), 12);
    let second = find(&doc, b"11 0 obj\n<<\n").unwrap();
    let tail = &doc[second..];
    assert_eq!(count(&tail[..find(tail, b"endobj").unwrap()], b"/Next "), 0);
}

#[test]
fn no_outlines() {
    let mut pdf = PDF::create(PageConfig::new(), 1);
    pdf.add_page_encoded(10, 20, vec![1, 2, 3], None, None).unwrap();
    assert_eq!(pdf.total_objects(), 6);
    let doc = pdf.finish().unwrap();
    assert_eq!(count(&doc, b"3 0 obj\n<<\n/Type /Outlines\n/Count 0>>\nendobj\n"), 1);
    assert_eq!(count(&doc, b"/First "), 0);
    assert_eq!(count(&doc, b"/Size 6\n"), 1);
    assert_eq!(check_xref(&doc), 7);
}

#[test]
fn empty_document() {
    let pdf = PDF::create(PageConfig::new(), 0);
    assert_eq!(pdf.total_objects(), 3);
    let doc = pdf.finish().unwrap();
    assert_eq!(count(&doc, b"/Count 0/Kids [\n]\n"), 1);
    assert_eq!(check_xref(&doc), 4);
}

#[test]
fn encoded_page_bytes() {
    let mut pdf = PDF::create(PageConfig::new(), 1);
    let before = pdf.bytes().len();
    pdf.add_page_encoded(10, 20, vec![7, 8, 9], Some("t".to_string()), None).unwrap();
    let page = pdf.bytes()[before..].to_vec();
    let expected: Vec<u8> = [
        &b"5 0 obj\n<<\n/Type /XObject\n/Subtype /Image\n/Width 10\n/Height 20\n/ColorSpace /DeviceRGB\n/BitsPerComponent 8\n/Filter /DCTDecode\n/Length 3\n>>\nstream\n"[..],
        &[7, 8, 9],
        b"\nendstream\nendobj\n",
        b"4 0 obj\n<<\n/Type /Page\n/Parent 2 0 R\n/MediaBox [0 0 595 842]\n/Resources <<\n/XObject <<\n/Img 5 0 R\n>>\n>>\n/Contents 6 0 R\n>>\nendobj\n",
        b"6 0 obj\n<<\n/Length 33\n>>\nstream\nq\n10 0 0 20 292 411 cm\n/Img Do\nQ\n\nendstream\nendobj\n",
    ]
    .concat();
    assert_eq!(page, expected);
}

#[test]
fn declared_pages_then_overflow() {
    let mut pdf = PDF::create(PageConfig::new(), 3);
    for k in 0..3 {
        assert_eq!(pdf.current_page(), k);
        assert!(pdf.add_page_encoded(1, 1, vec![0], None, None).is_ok());
    }
    let len = pdf.bytes().len();
    let r = pdf.add_page_encoded(1, 1, vec![0], None, None);
    assert!(matches!(r, Err(Error::PageOverflow)));
    assert_eq!(pdf.current_page(), 3);
    assert_eq!(pdf.total_pages(), 3);
    assert_eq!(pdf.bytes().len(), len);
    let img = image::DynamicImage::new_rgb8(4, 4);
    assert!(matches!(pdf.add_page_from_image(img, None, None), Err(Error::PageOverflow)));
    assert!(pdf.finish().is_ok());
}

#[test]
fn finish_with_missing_pages_fails() {
    let mut pdf = PDF::create(PageConfig::new(), 2);
    pdf.add_page_encoded(1, 1, vec![0], None, None).unwrap();
    assert!(matches!(pdf.finish(), Err(Error::MissingPages)));
}

#[test]
fn total_objects_counts_outlines() {
    let mut pdf = PDF::create(PageConfig::new(), 3);
    assert_eq!(pdf.total_objects(), 12);
    pdf.add_page_encoded(1, 1, vec![0], Some("x".to_string()), None).unwrap();
    assert_eq!(pdf.total_objects(), 13);
    pdf.add_page_encoded(1, 1, vec![0], None, None).unwrap();
    assert_eq!(pdf.total_objects(), 13);
    pdf.add_page_encoded(1, 1, vec![0], Some("y".to_string()), None).unwrap();
    assert_eq!(pdf.total_objects(), 14);
    let doc = pdf.finish().unwrap();
    assert_eq!(check_xref(&doc), 15);
    assert_eq!(count(&doc, b"/Size 14\n"), 1);
}

#[test]
fn page_override_does_not_persist() {
    let mut pdf = PDF::create(PageConfig::new(), 2);
    let custom = PageConfig::new().size(PageSize::Custom(100, 50));
    pdf.add_page_encoded(10, 10, vec![0], None, Some(custom)).unwrap();
    pdf.add_page_encoded(10, 10, vec![0], None, None).unwrap();
    let doc = pdf.finish().unwrap();
    assert_eq!(count(&doc, b"/MediaBox [0 0 100 50]\n"), 1);
    assert_eq!(count(&doc, b"/MediaBox [0 0 595 842]\n"), 1);
}

#[test]
fn image_sized_page_media_box() {
    let cfg = PageConfig::new().size(PageSize::Image);
    let mut pdf = PDF::create(cfg, 1);
    pdf.add_page_from_image(image::DynamicImage::new_rgb8(640, 480), None, None).unwrap();
    let doc = pdf.finish().unwrap();
    assert_eq!(count(&doc, b"/MediaBox [0 0 640 480]\n"), 1);
    assert_eq!(count(&doc, b"640 0 0 480 0 0 cm\n"), 1);
}

#[test]
fn compressed_filter_chain() {
    let cfg = PageConfig::new().compression(true);
    let mut pdf = PDF::create(cfg, 1);
    pdf.add_page_from_image(image::DynamicImage::new_rgb8(8, 8), None, None).unwrap();
    let doc = pdf.finish().unwrap();
    assert_eq!(count(&doc, b"/Filter [/FlateDecode /DCTDecode]\n"), 1);
    assert_eq!(count(&doc, b"/Filter /DCTDecode\n"), 0);
}

#[test]
fn large_image_is_shrunk_to_page() {
    let big = image::DynamicImage::new_rgb8(1200, 600);
    let out = preprocess(big, &PageConfig::new());
    assert_eq!((out.width(), out.height()), (595, 298));
    let cfg = PageConfig::new().margin(Margin::new(100, 100));
    let out = preprocess(image::DynamicImage::new_rgb8(1000, 1000), &cfg);
    assert_eq!((out.width(), out.height()), (495, 495));
    let small = preprocess(image::DynamicImage::new_rgb8(30, 40), &cfg);
    assert_eq!((small.width(), small.height()), (30, 40));
}

#[test]
fn jpeg_encoding() {
    let img = image::DynamicImage::new_rgb8(16, 16);
    let data = encode_image(&img, 60, false).unwrap();
    assert_eq!(&data[..2], &[0xFF, 0xD8]);
}

#[test]
fn zlib_layer() {
    let jpeg = vec![0xFF, 0xD8, 1, 2, 3, 3, 3, 3, 3, 3, 0xFF, 0xD9];
    assert_eq!(compress_stream(jpeg.clone(), false).unwrap(), jpeg);
    let z = compress_stream(jpeg.clone(), true).unwrap();
    assert_ne!(z, jpeg);
    let mut back = Vec::new();
    flate2::read::ZlibDecoder::new(&z[..]).read_to_end(&mut back).unwrap();
    assert_eq!(back, jpeg);
    let img = image::DynamicImage::new_rgb8(16, 16);
    let wrapped = encode_image(&img, 60, true).unwrap();
    let mut plain = Vec::new();
    flate2::read::ZlibDecoder::new(&wrapped[..]).read_to_end(&mut plain).unwrap();
    assert_eq!(plain, encode_image(&img, 60, false).unwrap());
}

#[test]
fn preprocess_twice_changes_nothing() {
    let cfg = PageConfig::new().margin(Margin::new(40, 10));
    let once = preprocess(image::DynamicImage::new_rgb8(1200, 600), &cfg);
    assert_eq!((once.width(), once.height()), (555, 278));
    let twice = preprocess(once.clone(), &cfg);
    assert_eq!((twice.width(), twice.height()), (once.width(), once.height()));
    assert_eq!(twice.as_bytes(), once.as_bytes());
}

#[test]
fn preprocess_halves_to_a4() {
    let out = preprocess(image::DynamicImage::new_rgb8(1190, 1684), &PageConfig::new());
    assert_eq!((out.width(), out.height()), (595, 842));
}

#[test]
fn preprocess_image_sized_page_keeps_image() {
    let cfg = PageConfig::new().size(PageSize::Image).margin(Margin::new(50, 50));
    let out = preprocess(image::DynamicImage::new_rgb8(5000, 10), &cfg);
    assert_eq!((out.width(), out.height()), (5000, 10));
}

#[test]
fn catalog_and_page_tree_offsets() {
    let pdf = PDF::create(PageConfig::new(), 1);
    let bytes = pdf.bytes();
    assert_eq!(&bytes[..9], b"%PDF-1.7\n");
    assert_eq!(&bytes[9..20], b"1 0 obj\n<<\n");
    assert_eq!(&bytes[97..108], b"2 0 obj\n<<\n");
}

#[test]
fn unsupported_colour_type_is_image_error() {
    let img = image::DynamicImage::new_rgb32f(4, 4);
    assert!(matches!(encode_image(&img, 60, false), Err(Error::Image(_))));
    let mut pdf = PDF::create(PageConfig::new(), 1);
    let r = pdf.add_page_from_image(img, Some("x".to_string()), None);
    assert!(matches!(r, Err(Error::Image(_))));
    assert_eq!(pdf.current_page(), 0);
    assert_eq!(pdf.total_objects(), 6);
}

#[test]
fn title_delimiters_are_escaped() {
    let mut pdf = PDF::create(PageConfig::new(), 1);
    pdf.add_page_encoded(1, 1, vec![0], Some("(\\)".to_string()), None).unwrap();
    let doc = pdf.finish().unwrap();
    assert_eq!(
        count(&doc, b"/Title (\xFE\xFF\x00\\(\x00\\\\\x00\\))\n"),
        1
    );
}

#[test]
fn prepared_image_is_not_resized() {
    let mut pdf = PDF::create(PageConfig::new().size(PageSize::Custom(10, 10)), 1);
    pdf.add_page_prepared(image::DynamicImage::new_rgb8(40, 20), None, None).unwrap();
    let doc = pdf.finish().unwrap();
    assert_eq!(count(&doc, b"/Width 40\n/Height 20\n"), 1);
    assert_eq!(count(&doc, b"40 0 0 20 0 0 cm\n"), 1);
}

#[test]
fn shrunk_image_keeps_aspect_and_reaches_a_bound() {
    let cfg = PageConfig::new().size(PageSize::Custom(300, 200));
    let out = preprocess(image::DynamicImage::new_rgb8(1000, 333), &cfg);
    let (w, h) = (out.width() as i64, out.height() as i64);
    assert!(w <= 300 && h <= 200);
    assert!(w == 300 || h == 200);
    assert!((w * 333 - h * 1000).abs() <= 1333);
}
