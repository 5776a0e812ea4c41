//! Tags: coloured labels on tickets.

use vstd::prelude::*;
use crate::color::{parsed_base_color, read_base_color, write_color, written_color, Rgba};

verus! {

/// A label with the colour of its background and of its text, each written
/// as `#` and eight hexadecimal digits.
#[derive(Eq, PartialOrd, Ord, Debug, PartialEq, Clone)]
pub struct Tag {
    pub adapter: String,
    pub name: String,
    pub color: String,
    pub color_text: String,
}

impl Default for Tag {
    fn default() -> (r: Self)
        ensures
            r.adapter@ == Seq::<char>::empty(),
            r.name@ == Seq::<char>::empty(),
            r.color@ == "#ffffffff"@,
            r.color_text@ == "#000000ff"@,
    {
        Tag {
            adapter: String::new(),
            name: String::new(),
            color: "#ffffffff".to_string(),
            color_text: "#000000ff".to_string(),
        }
    }
}

impl Tag {
    /// The tag with the given colours of its background and of its text.
    pub fn with_hex_colors(self, background: &str, text: &str) -> (r: Tag)
        ensures
            r.adapter == self.adapter,
            r.name == self.name,
            r.color@ == background@,
            r.color_text@ == text@,
    {
        let mut tag = self;
        tag.color = background.to_string();
        tag.color_text = text.to_string();
        tag
    }

    /// The tag in the given colour: the text in the colour itself, opaque,
    /// the background in a third of it, half opaque. The colour is written
    /// as six hexadecimal digits, with or without number signs before them.
    pub fn with_hex_color(self, text: &str) -> (r: Tag)
        requires
            parsed_base_color(text@) is Some,
        ensures
            r.adapter == self.adapter,
            r.name == self.name,
            ({
                let (red, green, blue) = parsed_base_color(text@).unwrap();
                &&& r.color_text@ == written_color(
                    Rgba { r: red as u8, g: green as u8, b: blue as u8, a: 255 },
                    false,
                )
                &&& r.color@ == written_color(
                    Rgba {
                        r: (red / 3) as u8,
                        g: (green / 3) as u8,
                        b: (blue / 3) as u8,
                        a: 128,
                    },
                    false,
                )
            }),
    {
        let mut tag = self;
        if let Some((r, g, b)) = read_base_color(text) {
            tag.color_text = write_color(Rgba { r, g, b, a: 255 }, false);
            tag.color = write_color(Rgba { r: r / 3, g: g / 3, b: b / 3, a: 128 }, false);
        }
        tag
    }

    /// The tag with the given name.
    pub fn with_name(self, name: String) -> (r: Tag)
        ensures
            r == (Tag { name, ..self }),
    {
        let mut tag = self;
        tag.name = name;
        tag
    }

    /// The tag as one of the adapter with the given name.
    pub fn with_adapter_name(self, adapter: String) -> (r: Tag)
        ensures
            r == (Tag { adapter, ..self }),
    {
        let mut tag = self;
        tag.adapter = adapter;
        tag
    }
}

} // verus!
