//! Page configuration: size, margin, alignment and encoding options.
//! All units are pixels, which are also PDF user-space units here.
use vstd::prelude::*;

verus! {

/// Width of an A4 page.
pub const A4_WIDTH: u32 = 595;

/// Height of an A4 page.
pub const A4_HEIGHT: u32 = 842;

/// JPEG quality used when none is configured.
pub const DEFAULT_QUALITY: u8 = 60;

/// Page size, default is A4.
#[derive(Clone, Copy, Debug, PartialEq, Eq, Structural)]
pub enum PageSize {
    A4,
    Custom(u32, u32),
    /// Same size as the image
    Image,
}

/// Page margin, default is none. The margin of an axis is split evenly
/// between its two sides.
#[derive(Clone, Copy, Debug, PartialEq, Eq, Structural)]
pub enum Margin {
    Zero,
    Vertical(u32),
    Horizontal(u32),
    Custom(u32, u32),
}

/// Alignment of the image along one axis.
#[derive(Clone, Copy, Debug, PartialEq, Eq, Structural)]
pub enum Alignment {
    Center,
    Start,
    End,
    Custom(u32),
}

/// Config of a single page.
#[derive(Clone, Copy, Debug, PartialEq, Eq, Structural)]
pub struct PageConfig {
    pub size: PageSize,
    pub margin: Margin,
    pub vertical_alignment: Alignment,
    pub horizontal_alignment: Alignment,
    pub quality: u8,
    /// Whether the encoded image stream gets a second, zlib layer.
    pub compress: bool,
}

impl PageSize {
    /// Width of the page; zero when the page takes the image's size.
    pub open spec fn spec_width(self) -> u32 {
        match self {
            PageSize::A4 => A4_WIDTH,
            PageSize::Custom(w, _) => w,
            PageSize::Image => 0,
        }
    }

    /// Height of the page; zero when the page takes the image's size.
    pub open spec fn spec_height(self) -> u32 {
        match self {
            PageSize::A4 => A4_HEIGHT,
            PageSize::Custom(_, h) => h,
            PageSize::Image => 0,
        }
    }

    pub fn width(&self) -> (r: u32)
        ensures
            r == self.spec_width(),
    {
        match self {
            PageSize::A4 => A4_WIDTH,
            PageSize::Custom(width, _) => *width,
            PageSize::Image => 0,
        }
    }

    pub fn height(&self) -> (r: u32)
        ensures
            r == self.spec_height(),
    {
        match self {
            PageSize::A4 => A4_HEIGHT,
            PageSize::Custom(_, height) => *height,
            PageSize::Image => 0,
        }
    }

    pub fn dimensions(&self) -> (r: (u32, u32))
        ensures
            r == (self.spec_width(), self.spec_height()),
    {
        (self.width(), self.height())
    }
}

impl Margin {
    /// Total horizontal and vertical margin.
    pub open spec fn spec_dimensions(self) -> (u32, u32) {
        match self {
            Margin::Zero => (0, 0),
            Margin::Vertical(m) => (0, m),
            Margin::Horizontal(m) => (m, 0),
            Margin::Custom(w, h) => (w, h),
        }
    }

    pub fn dimensions(&self) -> (r: (u32, u32))
        ensures
            r == self.spec_dimensions(),
    {
        match self {
            Margin::Zero => (0, 0),
            Margin::Vertical(margin) => (0, *margin),
            Margin::Horizontal(margin) => (*margin, 0),
            Margin::Custom(width, height) => (*width, *height),
        }
    }

    pub fn new(x: u32, y: u32) -> (r: Self)
        ensures
            r == Margin::Custom(x, y),
    {
        Margin::Custom(x, y)
    }

    pub fn vertical(margin: u32) -> (r: Self)
        ensures
            r == Margin::Vertical(margin),
    {
        Margin::Vertical(margin)
    }

    pub fn horizontal(margin: u32) -> (r: Self)
        ensures
            r == Margin::Horizontal(margin),
    {
        Margin::Horizontal(margin)
    }
}

impl PageConfig {
    /// A4, no margin, centered on both axes, quality 60, no zlib layer.
    pub open spec fn spec_default() -> PageConfig {
        PageConfig {
            size: PageSize::A4,
            margin: Margin::Zero,
            vertical_alignment: Alignment::Center,
            horizontal_alignment: Alignment::Center,
            quality: DEFAULT_QUALITY,
            compress: false,
        }
    }

    pub fn new() -> (r: Self)
        ensures
            r == Self::spec_default(),
    {
        Self::default()
    }

    pub fn size(self, size: PageSize) -> (r: Self)
        ensures
            r == (PageConfig { size, ..self }),
    {
        PageConfig { size, ..self }
    }

    pub fn vertical_alignment(self, alignment: Alignment) -> (r: Self)
        ensures
            r == (PageConfig { vertical_alignment: alignment, ..self }),
    {
        PageConfig { vertical_alignment: alignment, ..self }
    }

    pub fn horizontal_alignment(self, alignment: Alignment) -> (r: Self)
        ensures
            r == (PageConfig { horizontal_alignment: alignment, ..self }),
    {
        PageConfig { horizontal_alignment: alignment, ..self }
    }

    pub fn margin(self, margin: Margin) -> (r: Self)
        ensures
            r == (PageConfig { margin, ..self }),
    {
        PageConfig { margin, ..self }
    }

    pub fn quality(self, quality: u8) -> (r: Self)
        ensures
            r == (PageConfig { quality, ..self }),
    {
        PageConfig { quality, ..self }
    }

    /// Chooses whether the image stream is wrapped in a zlib layer.
    pub fn compression(self, compress: bool) -> (r: Self)
        ensures
            r == (PageConfig { compress, ..self }),
    {
        PageConfig { compress, ..self }
    }
}

impl Default for PageConfig {
    fn default() -> (r: Self)
        ensures
            r == Self::spec_default(),
    {
        PageConfig {
            size: PageSize::A4,
            margin: Margin::Zero,
            vertical_alignment: Alignment::Center,
            horizontal_alignment: Alignment::Center,
            quality: DEFAULT_QUALITY,
            compress: false,
        }
    }
}

} // verus!
