//! Geometry: whether an image must shrink to fit its page, and where on the
//! page it is drawn.
use vstd::prelude::*;

use crate::config::{Alignment, Margin, PageConfig, PageSize};
use crate::text::{dec, lit, push_dec, push_str};

verus! {

/// `a - b`, clamped at zero.
pub open spec fn sat_sub(a: int, b: int) -> int {
    if a >= b {
        a - b
    } else {
        0
    }
}

/// The area of the page that the margins leave: `(width, height)`.
pub open spec fn spec_usable(cfg: PageConfig) -> (int, int) {
    (
        sat_sub(cfg.size.spec_width() as int, cfg.margin.spec_dimensions().0 as int),
        sat_sub(cfg.size.spec_height() as int, cfg.margin.spec_dimensions().1 as int),
    )
}

/// The bounds an image of `width` x `height` must be resized into, if any:
/// the usable area, when the image exceeds it on either axis and the page
/// does not take the image's own size.
pub open spec fn spec_resize_target(width: u32, height: u32, cfg: PageConfig) -> Option<(u32, u32)> {
    if cfg.size == PageSize::Image {
        None
    } else {
        let (uw, uh) = spec_usable(cfg);
        if width > uw || height > uh {
            Some((uw as u32, uh as u32))
        } else {
            None
        }
    }
}

/// The bounds into which an image of the given size is resized, or `None`
/// when it fits the usable area of the page already.
pub fn resize_target(width: u32, height: u32, page_config: &PageConfig) -> (r: Option<(u32, u32)>)
    ensures
        r == spec_resize_target(width, height, *page_config),
        page_config.size != PageSize::Image && width <= spec_usable(*page_config).0 && height
            <= spec_usable(*page_config).1 ==> r is None,
{
    if page_config.size == PageSize::Image {
        return None;
    }
    let (page_width, page_height) = page_config.size.dimensions();
    let (margin_x, margin_y) = page_config.margin.dimensions();
    let usable_width = page_width.saturating_sub(margin_x);
    let usable_height = page_height.saturating_sub(margin_y);
    if width > usable_width || height > usable_height {
        Some((usable_width, usable_height))
    } else {
        None
    }
}

} // verus!

verus! {

/// Half of the total horizontal margin: the margin on each side.
pub open spec fn half_margin_x(cfg: PageConfig) -> int {
    cfg.margin.spec_dimensions().0 as int / 2
}

/// Half of the total vertical margin: the margin on each side.
pub open spec fn half_margin_y(cfg: PageConfig) -> int {
    cfg.margin.spec_dimensions().1 as int / 2
}

pub open spec fn max(a: int, b: int) -> int {
    if a >= b {
        a
    } else {
        b
    }
}

/// Horizontal position of an image of width `iw` on a fixed-size page.
/// PDF's origin is the bottom left corner: start is the left edge.
pub open spec fn spec_x(cfg: PageConfig, iw: u32) -> int {
    let pw = cfg.size.spec_width() as int;
    let m = half_margin_x(cfg);
    match cfg.horizontal_alignment {
        Alignment::Start => m,
        Alignment::Center => max(sat_sub(pw, iw as int) / 2, m),
        Alignment::End => sat_sub(sat_sub(pw, iw as int), m),
        Alignment::Custom(x) => max(x as int, m),
    }
}

/// Vertical position of an image of height `ih` on a fixed-size page.
/// Start is the visual top, which is the far end of PDF's upward y axis.
pub open spec fn spec_y(cfg: PageConfig, ih: u32) -> int {
    let ph = cfg.size.spec_height() as int;
    let m = half_margin_y(cfg);
    match cfg.vertical_alignment {
        Alignment::Start => sat_sub(sat_sub(ph, ih as int), m),
        Alignment::Center => max(sat_sub(ph, ih as int) / 2, m),
        Alignment::End => m,
        Alignment::Custom(y) => max(y as int, m),
    }
}

/// Offset of the image on its page: the origin when the page takes
/// the image's own size.
pub open spec fn spec_position(cfg: PageConfig, iw: u32, ih: u32) -> (int, int) {
    if cfg.size == PageSize::Image {
        (0, 0)
    } else {
        (spec_x(cfg, iw), spec_y(cfg, ih))
    }
}

/// Size of the page that holds an image of `iw` x `ih`.
pub open spec fn spec_page_dims(cfg: PageConfig, iw: u32, ih: u32) -> (int, int) {
    if cfg.size == PageSize::Image {
        (iw as int, ih as int)
    } else {
        (cfg.size.spec_width() as int, cfg.size.spec_height() as int)
    }
}

/// The content-stream matrix operator `iw 0 0 ih x y cm`: scale to the
/// image's pixel size, then move it to `(x, y)`.
pub open spec fn spec_operands(iw: u32, ih: u32, x: int, y: int) -> Seq<u8> {
    dec(iw as nat) + lit(" 0 0 ") + dec(ih as nat) + lit(" ") + dec(x as nat) + lit(" ")
        + dec(y as nat) + lit(" cm\n")
}

fn max_u32(a: u32, b: u32) -> (r: u32)
    ensures
        r == max(a as int, b as int),
{
    if a >= b {
        a
    } else {
        b
    }
}

/// Position of the image on its page, `(x, y)` from the bottom left corner.
pub fn position(image: (u32, u32), page_config: &PageConfig) -> (r: (u32, u32))
    ensures
        (r.0 as int, r.1 as int) == spec_position(*page_config, image.0, image.1),
{
    if page_config.size == PageSize::Image {
        return (0, 0);
    }
    let (image_width, image_height) = image;
    let (page_width, page_height) = page_config.size.dimensions();
    let (margin_x, margin_y) = page_config.margin.dimensions();
    let margin_x = margin_x / 2;
    let margin_y = margin_y / 2;
    let x = match page_config.horizontal_alignment {
        Alignment::Start => margin_x,
        Alignment::Center => max_u32(page_width.saturating_sub(image_width) / 2, margin_x),
        Alignment::End => page_width.saturating_sub(image_width).saturating_sub(margin_x),
        Alignment::Custom(x) => max_u32(x, margin_x),
    };
    let y = match page_config.vertical_alignment {
        Alignment::Start => page_height.saturating_sub(image_height).saturating_sub(margin_y),
        Alignment::Center => max_u32(page_height.saturating_sub(image_height) / 2, margin_y),
        Alignment::End => margin_y,
        Alignment::Custom(y) => max_u32(y, margin_y),
    };
    (x, y)
}

/// The placement operator of the content stream, `w 0 0 h x y cm` and a
/// newline, for an image of the given final size.
pub fn get_operands(image: (u32, u32), page_config: &PageConfig) -> (r: Vec<u8>)
    ensures
        r@ == spec_operands(
            image.0,
            image.1,
            spec_position(*page_config, image.0, image.1).0,
            spec_position(*page_config, image.0, image.1).1,
        ),
{
    let (x, y) = position(image, page_config);
    let mut out: Vec<u8> = Vec::new();
    push_dec(&mut out, image.0 as usize);
    push_str(&mut out, " 0 0 ");
    push_dec(&mut out, image.1 as usize);
    push_str(&mut out, " ");
    push_dec(&mut out, x as usize);
    push_str(&mut out, " ");
    push_dec(&mut out, y as usize);
    push_str(&mut out, " cm\n");
    proof {
        assert(out@ =~= spec_operands(image.0, image.1, x as int, y as int));
    }
    out
}

/// An image that fits the usable area of its page, placed at the start, the
/// center or the end of each axis, lies entirely on the page.
pub proof fn lemma_placement_within_page(cfg: PageConfig, iw: u32, ih: u32)
    requires
        !(cfg.horizontal_alignment is Custom),
        !(cfg.vertical_alignment is Custom),
        cfg.size == PageSize::Image || (iw as int + cfg.margin.spec_dimensions().0
            <= cfg.size.spec_width() && ih as int + cfg.margin.spec_dimensions().1
            <= cfg.size.spec_height()),
    ensures
        0 <= spec_position(cfg, iw, ih).0,
        0 <= spec_position(cfg, iw, ih).1,
        spec_position(cfg, iw, ih).0 + iw <= spec_page_dims(cfg, iw, ih).0,
        spec_position(cfg, iw, ih).1 + ih <= spec_page_dims(cfg, iw, ih).1,
{
}

/// An image exactly the size of a fixed page, with no margin, is placed at
/// the origin whatever the start, center or end alignment.
pub proof fn lemma_full_page_at_origin(cfg: PageConfig, iw: u32, ih: u32)
    requires
        !(cfg.horizontal_alignment is Custom),
        !(cfg.vertical_alignment is Custom),
        cfg.margin == Margin::Zero,
        cfg.size.spec_width() == iw,
        cfg.size.spec_height() == ih,
    ensures
        spec_position(cfg, iw, ih) == (0int, 0int),
{
}

} // verus!

verus! {

/// Size of the page that holds an image of the given final size: the
/// configured size, or the image's own.
pub fn page_dimensions(image: (u32, u32), page_config: &PageConfig) -> (r: (u32, u32))
    ensures
        (r.0 as int, r.1 as int) == spec_page_dims(*page_config, image.0, image.1),
{
    if page_config.size == PageSize::Image {
        image
    } else {
        page_config.size.dimensions()
    }
}

} // verus!
