use vstd::prelude::*;

use crate::types::Rgb;

verus! {

/// The state of the StatusNotifierItem: the pixels of the icon and its two
/// colours.
pub struct StatusNotifierItem {
    pub bitmap: [bool; 256],
    pub font_color: Rgb,
    pub bg_color: Rgb,
}

/// The four bytes (alpha, red, green, blue) of pixel `k` of the icon.
pub open spec fn pixel_argb(bitmap: [bool; 256], font: Rgb, bg: Rgb, k: int) -> Seq<u8> {
    let c = if bitmap[k] { font } else { bg };
    seq![255u8, c.r, c.g, c.b]
}

/// The icon image: 256 pixels of four bytes each, row after row.
pub open spec fn icon_image(bitmap: [bool; 256], font: Rgb, bg: Rgb) -> Seq<u8> {
    Seq::new(1024, |b: int| pixel_argb(bitmap, font, bg, b / 4)[b % 4])
}

impl StatusNotifierItem {
    pub fn new(bitmap: [bool; 256], font_color: Rgb, bg_color: Rgb) -> (r: Self)
        ensures
            r.bitmap == bitmap,
            r.font_color == font_color,
            r.bg_color == bg_color,
    {
        Self { bitmap, font_color, bg_color }
    }

    /// The `IconPixmap` property: one 16x16 image in ARGB32.
    pub fn icon_pixmap(&self) -> (r: Vec<(i32, i32, Vec<u8>)>)
        ensures
            r@.len() == 1,
            r@[0].0 == 16,
            r@[0].1 == 16,
            r@[0].2@ == icon_image(self.bitmap, self.font_color, self.bg_color),
    {
        let font_color = self.font_color;
        let bg_color = self.bg_color;
        let mut img: Vec<u8> = Vec::new();
        for k in 0..256usize
            invariant
                font_color == self.font_color,
                bg_color == self.bg_color,
                img@.len() == 4 * k,
                forall|b: int| 0 <= b < 4 * k ==> #[trigger] img@[b] == pixel_argb(self.bitmap, self.font_color, self.bg_color, b / 4)[b % 4],
        {
            let color = if self.bitmap[k] { font_color } else { bg_color };
            img.push(255u8);
            img.push(color.r);
            img.push(color.g);
            img.push(color.b);
            assert forall|b: int| 4 * k <= b < 4 * k + 4 implies #[trigger] img@[b] == pixel_argb(self.bitmap, self.font_color, self.bg_color, b / 4)[b % 4] by {
                assert(b / 4 == k);
            }
        }
        assert(img@ =~= icon_image(self.bitmap, self.font_color, self.bg_color));
        let mut out = Vec::new();
        out.push((16i32, 16i32, img));
        out
    }

    /// The `Category` property.
    pub fn category(&self) -> (r: String)
        ensures
            r@ == "ApplicationStatus"@,
    {
        String::from_str("ApplicationStatus")
    }

    /// The `Id` property.
    pub fn id(&self) -> (r: String)
        ensures
            r@ == "pomodoro-sni"@,
    {
        String::from_str("pomodoro-sni")
    }

    /// The `Title` property.
    pub fn title(&self) -> (r: String)
        ensures
            r@ == "pomodoro timer which implements SNI."@,
    {
        String::from_str("pomodoro timer which implements SNI.")
    }

    /// The `Status` property.
    pub fn status(&self) -> (r: String)
        ensures
            r@ == "Active"@,
    {
        String::from_str("Active")
    }

    /// The `ToolTip` property: icon name, icon images, title and description.
    pub fn tool_tip(&self) -> (r: (String, Vec<(i32, i32, Vec<u8>)>, String, String))
        ensures
            r.0@.len() == 0,
            r.1@.len() == 0,
            r.2@ == "my sni tooltip"@,
            r.3@ == "this is tooltip description"@,
    {
        let icon_name = String::new();
        let icon_data = Vec::new();
        let title = String::from_str("my sni tooltip");
        let desc = String::from_str("this is tooltip description");
        (icon_name, icon_data, title, desc)
    }
}

/// The icon is the bitmap row after row: the pixel at row `row` and column
/// `col` is the four bytes from `4 * (16 * row + col)`, opaque, in the font
/// colour where the bitmap's bit `16 * row + col` is set and in the
/// background colour where it is not.
pub proof fn lemma_icon_is_the_bitmap_row_by_row(bitmap: [bool; 256], font: Rgb, bg: Rgb, row: int, col: int)
    requires
        0 <= row < 16,
        0 <= col < 16,
    ensures
        icon_image(bitmap, font, bg).len() == 1024,
        ({
            let k = 16 * row + col;
            let shown = if bitmap[k] { font } else { bg };
            &&& icon_image(bitmap, font, bg)[4 * k] == 255u8
            &&& icon_image(bitmap, font, bg)[4 * k + 1] == shown.r
            &&& icon_image(bitmap, font, bg)[4 * k + 2] == shown.g
            &&& icon_image(bitmap, font, bg)[4 * k + 3] == shown.b
        }),
{
    let k = 16 * row + col;
    assert((4 * k) / 4 == k && (4 * k) % 4 == 0);
    assert((4 * k + 1) / 4 == k && (4 * k + 1) % 4 == 1);
    assert((4 * k + 2) / 4 == k && (4 * k + 2) % 4 == 2);
    assert((4 * k + 3) / 4 == k && (4 * k + 3) % 4 == 3);
}

} // verus!
