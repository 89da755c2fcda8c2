use scannedpdf::layout::{get_operands, page_dimensions, position, resize_target};
use scannedpdf::{Alignment, Margin, PageConfig, PageSize};

#[test]
fn page_size_dimensions() {
    assert_eq!(PageSize::A4.dimensions(), (595, 842));
    assert_eq!(PageSize::Custom(100, 200).dimensions(), (100, 200));
    assert_eq!(PageSize::Image.dimensions(), (0, 0));
    assert_eq!(PageSize::A4.width(), 595);
    assert_eq!(PageSize::A4.height(), 842);
}

#[test]
fn margin_dimensions() {
    assert_eq!(Margin::Zero.dimensions(), (0, 0));
    assert_eq!(Margin::vertical(10).dimensions(), (0, 10));
    assert_eq!(Margin::horizontal(10).dimensions(), (10, 0));
    assert_eq!(Margin::new(20, 30).dimensions(), (20, 30));
}

#[test]
fn config_builders() {
    let c = PageConfig::new();
    assert_eq!(c.size, PageSize::A4);
    assert_eq!(c.margin, Margin::Zero);
    assert_eq!(c.vertical_alignment, Alignment::Center);
    assert_eq!(c.horizontal_alignment, Alignment::Center);
    assert_eq!(c.quality, 60);
    assert!(!c.compress);
    let c = c
        .size(PageSize::Custom(10, 20))
        .margin(Margin::new(2, 4))
        .vertical_alignment(Alignment::Start)
        .horizontal_alignment(Alignment::End)
        .quality(90)
        .compression(true);
    assert_eq!(c.size, PageSize::Custom(10, 20));
    assert_eq!(c.margin, Margin::Custom(2, 4));
    assert_eq!(c.vertical_alignment, Alignment::Start);
    assert_eq!(c.horizontal_alignment, Alignment::End);
    assert_eq!(c.quality, 90);
    assert!(c.compress);
}

#[test]
fn no_resize_when_image_fits() {
    let c = PageConfig::new();
    assert_eq!(resize_target(300, 300, &c), None);
    assert_eq!(resize_target(595, 842, &c), None);
    let c = PageConfig::new().margin(Margin::new(100, 100));
    assert_eq!(resize_target(495, 742, &c), None);
}

#[test]
fn resize_to_usable_area() {
    let c = PageConfig::new();
    assert_eq!(resize_target(1000, 300, &c), Some((595, 842)));
    assert_eq!(resize_target(300, 843, &c), Some((595, 842)));
    let c = PageConfig::new().margin(Margin::new(100, 100));
    assert_eq!(resize_target(496, 100, &c), Some((495, 742)));
}

#[test]
fn resize_skipped_for_image_sized_page() {
    let c = PageConfig::new().size(PageSize::Image);
    assert_eq!(resize_target(5000, 5000, &c), None);
}

#[test]
fn margin_wider_than_page_clamps() {
    let c = PageConfig::new().size(PageSize::Custom(50, 50)).margin(Margin::new(80, 80));
    assert_eq!(resize_target(10, 10, &c), Some((0, 0)));
}

#[test]
fn operands_center_a4() {
    let c = PageConfig::new();
    assert_eq!(get_operands((300, 300), &c), b"300 0 0 300 147 271 cm\n".to_vec());
}

#[test]
fn operands_start_and_end() {
    let c = PageConfig::new()
        .horizontal_alignment(Alignment::Start)
        .vertical_alignment(Alignment::Start);
    assert_eq!(get_operands((300, 300), &c), b"300 0 0 300 0 542 cm\n".to_vec());
    let c = PageConfig::new()
        .horizontal_alignment(Alignment::End)
        .vertical_alignment(Alignment::End);
    assert_eq!(get_operands((300, 300), &c), b"300 0 0 300 295 0 cm\n".to_vec());
}

#[test]
fn operands_with_margin() {
    let c = PageConfig::new()
        .margin(Margin::new(100, 60))
        .horizontal_alignment(Alignment::Start)
        .vertical_alignment(Alignment::Start);
    assert_eq!(get_operands((300, 300), &c), b"300 0 0 300 50 512 cm\n".to_vec());
    let c = PageConfig::new()
        .margin(Margin::new(100, 60))
        .horizontal_alignment(Alignment::End)
        .vertical_alignment(Alignment::End);
    assert_eq!(get_operands((300, 300), &c), b"300 0 0 300 245 30 cm\n".to_vec());
}

#[test]
fn operands_custom_alignment() {
    let c = PageConfig::new()
        .margin(Margin::new(100, 100))
        .horizontal_alignment(Alignment::Custom(10))
        .vertical_alignment(Alignment::Custom(70));
    assert_eq!(get_operands((300, 300), &c), b"300 0 0 300 50 70 cm\n".to_vec());
}

#[test]
fn placement_stays_on_page() {
    let aligns = [Alignment::Start, Alignment::Center, Alignment::End];
    let margins = [Margin::Zero, Margin::new(100, 40), Margin::vertical(7), Margin::horizontal(9)];
    for m in margins {
        for h in aligns {
            for v in aligns {
                let c = PageConfig::new().margin(m).horizontal_alignment(h).vertical_alignment(v);
                let (mx, my) = m.dimensions();
                for (w, ht) in [(1u32, 1u32), (300, 300), (595 - mx, 842 - my)] {
                    let (x, y) = position((w, ht), &c);
                    assert!(x + w <= 595);
                    assert!(y + ht <= 842);
                }
            }
        }
    }
}

#[test]
fn full_page_image_at_origin() {
    let aligns = [Alignment::Start, Alignment::Center, Alignment::End];
    for h in aligns {
        for v in aligns {
            let c = PageConfig::new()
                .size(PageSize::Custom(300, 400))
                .horizontal_alignment(h)
                .vertical_alignment(v);
            assert_eq!(get_operands((300, 400), &c), b"300 0 0 400 0 0 cm\n".to_vec());
        }
    }
}

#[test]
fn oversized_image_does_not_underflow() {
    let c = PageConfig::new().size(PageSize::Custom(100, 100));
    assert_eq!(position((300, 300), &c), (0, 0));
    let c = c.horizontal_alignment(Alignment::End).vertical_alignment(Alignment::Start);
    assert_eq!(position((300, 300), &c), (0, 0));
}

#[test]
fn image_sized_page() {
    let c = PageConfig::new().size(PageSize::Image).margin(Margin::new(40, 40));
    assert_eq!(get_operands((640, 480), &c), b"640 0 0 480 0 0 cm\n".to_vec());
    assert_eq!(page_dimensions((640, 480), &c), (640, 480));
    assert_eq!(page_dimensions((640, 480), &PageConfig::new()), (595, 842));
}
