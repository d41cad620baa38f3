use vstd::prelude::*;

verus! {

/// Rendering knobs. The four numeric knobs are in whole pixels; `scale`
/// multiplies all of them uniformly.
pub struct Settings {
    /// Width of one character cell, in pixels.
    pub text_width: u32,
    /// Height of one character cell, in pixels.
    pub text_height: u32,
    /// Font family for text runs.
    pub font_family: String,
    /// Font size, in pixels.
    pub font_size: u32,
    /// Stroke width for lines, arcs and circles, in pixels.
    pub stroke_width: u32,
}

impl Settings {
    /// Multiply every numeric knob by `factor`.
    pub fn scale(&mut self, factor: u32)
        requires
            old(self).text_width * factor <= u32::MAX,
            old(self).text_height * factor <= u32::MAX,
            old(self).font_size * factor <= u32::MAX,
            old(self).stroke_width * factor <= u32::MAX,
        ensures
            final(self).text_width == old(self).text_width * factor,
            final(self).text_height == old(self).text_height * factor,
            final(self).font_size == old(self).font_size * factor,
            final(self).stroke_width == old(self).stroke_width * factor,
            final(self).font_family == old(self).font_family,
    {
        self.text_width = self.text_width * factor;
        self.text_height = self.text_height * factor;
        self.font_size = self.font_size * factor;
        self.stroke_width = self.stroke_width * factor;
    }
}

impl Clone for Settings {
    fn clone(&self) -> (r: Self)
        ensures
            r.text_width == self.text_width,
            r.text_height == self.text_height,
            r.font_size == self.font_size,
            r.stroke_width == self.stroke_width,
            r.font_family@ == self.font_family@,
    {
        Settings {
            text_width: self.text_width,
            text_height: self.text_height,
            font_family: self.font_family.clone(),
            font_size: self.font_size,
            stroke_width: self.stroke_width,
        }
    }
}

impl Default for Settings {
    /// The stock settings: an 8 by 16 pixel cell, arial at 14px, 2px strokes.
    fn default() -> (r: Self)
        ensures
            r.text_width == 8,
            r.text_height == 16,
            r.font_size == 14,
            r.stroke_width == 2,
            r.font_family@ == "arial"@,
    {
        Settings {
            text_width: 8,
            text_height: 16,
            font_family: String::from_str("arial"),
            font_size: 14,
            stroke_width: 2,
        }
    }
}

} // verus!
