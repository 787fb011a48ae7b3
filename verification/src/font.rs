use vstd::prelude::*;
use vstd::string::*;
use crate::bitmap::{Bitmap, Grid};
use crate::error::Error;

verus! {

/// The largest width and height, in pixels, of a glyph cell or of the focus arrow.
pub const MAX_GLYPH: usize = 255;

/// The mathematical content of a font: one cell per code point, all of one
/// size, and the arrow that marks the focused entry.
pub struct FontView {
    pub glyph_width: nat,
    pub glyph_height: nat,
    pub glyphs: Seq<Grid>,
    pub arrow: Grid,
}

impl FontView {
    pub open spec fn wf(self) -> bool {
        &&& self.glyph_width <= MAX_GLYPH
        &&& self.glyph_height <= MAX_GLYPH
        &&& forall|i: int| 0 <= i < self.glyphs.len() ==> {
            &&& (#[trigger] self.glyphs[i]).wf()
            &&& self.glyphs[i].width == self.glyph_width
            &&& self.glyphs[i].height() == self.glyph_height
        }
        &&& self.arrow.wf()
        &&& self.arrow.width <= MAX_GLYPH
        &&& self.arrow.height() <= MAX_GLYPH
    }

    /// The cell drawn for `c`: its glyph, or a blank cell where the font has none.
    pub open spec fn glyph(self, c: char) -> Grid {
        if (c as u32) < self.glyphs.len() {
            self.glyphs[c as u32 as int]
        } else {
            Grid::blank(self.glyph_width, self.glyph_height)
        }
    }

    /// The cells of `s` set side by side, left to right.
    pub open spec fn text(self, s: Seq<char>) -> Grid
        decreases s.len(),
    {
        if s.len() == 0 {
            Grid::blank(0, 0)
        } else {
            self.text(s.drop_last()).blit(
                self.glyph(s.last()),
                ((s.len() - 1) * self.glyph_width) as nat,
                0,
            )
        }
    }

    /// `text`, refused where the cells would reach past what a coordinate
    /// can address.
    pub open spec fn try_text(self, s: Seq<char>) -> Result<Grid, Error> {
        if s.len() * self.glyph_width > usize::MAX {
            Err(Error::FrameTooLarge)
        } else {
            Ok(self.text(s))
        }
    }
}

/// A fixed-cell bitmap font.
#[derive(Clone, Debug, PartialEq, Eq)]
pub struct Font {
    glyph_width: usize,
    glyph_height: usize,
    glyphs: Vec<Bitmap>,
    arrow: Bitmap,
}

impl View for Font {
    type V = FontView;

    closed spec fn view(&self) -> FontView {
        FontView {
            glyph_width: self.glyph_width as nat,
            glyph_height: self.glyph_height as nat,
            glyphs: Seq::new(self.glyphs@.len(), |i: int| self.glyphs@[i]@),
            arrow: self.arrow@,
        }
    }
}

impl Font {
    /// The representation invariant: the stored bitmaps are well formed and
    /// the content is a well-formed font.
    pub closed spec fn wf(&self) -> bool {
        &&& self@.wf()
        &&& self.arrow.wf()
        &&& forall|i: int| 0 <= i < self.glyphs@.len() ==> (#[trigger] self.glyphs@[i]).wf()
    }

    /// A well-formed font has well-formed content: cells of one size, no
    /// larger than `MAX_GLYPH` either way, and an arrow no larger than that.
    pub proof fn lemma_view_wf(&self)
        requires
            self.wf(),
        ensures
            self@.wf(),
    {
    }

    /// The content of a font made of the given parts.
    pub open spec fn content(glyph_width: usize, glyph_height: usize, glyphs: Seq<Bitmap>, arrow: Bitmap) -> FontView {
        FontView {
            glyph_width: glyph_width as nat,
            glyph_height: glyph_height as nat,
            glyphs: Seq::new(glyphs.len(), |i: int| glyphs[i]@),
            arrow: arrow@,
        }
    }

    /// A font whose glyph for code point `i` is `glyphs[i]`. Returns `None`
    /// unless every glyph is `glyph_width` by `glyph_height` and neither a
    /// cell nor the arrow is larger than `MAX_GLYPH` in either direction.
    pub fn new(glyph_width: usize, glyph_height: usize, glyphs: Vec<Bitmap>, arrow: Bitmap) -> (font: Option<
        Font,
    >)
        requires
            arrow.wf(),
            forall|i: int| 0 <= i < glyphs@.len() ==> (#[trigger] glyphs@[i]).wf(),
        ensures
            font matches Some(f) ==> f.wf() && f@ == Font::content(glyph_width, glyph_height, glyphs@, arrow),
            font is Some <==> Font::content(glyph_width, glyph_height, glyphs@, arrow).wf(),
    {
        let ghost content = Font::content(glyph_width, glyph_height, glyphs@, arrow);
        proof {
            arrow.lemma_view_wf();
        }
        if glyph_width > MAX_GLYPH || glyph_height > MAX_GLYPH || arrow.width() > MAX_GLYPH || arrow.height()
            > MAX_GLYPH {
            return None;
        }
        let mut i: usize = 0;
        while i < glyphs.len()
            invariant
                i <= glyphs@.len(),
                forall|k: int| 0 <= k < glyphs@.len() ==> (#[trigger] glyphs@[k]).wf(),
                content == Font::content(glyph_width, glyph_height, glyphs@, arrow),
                forall|k: int| 0 <= k < i ==> {
                    &&& (#[trigger] content.glyphs[k]).wf()
                    &&& content.glyphs[k].width == glyph_width
                    &&& content.glyphs[k].height() == glyph_height
                },
            decreases glyphs@.len() - i,
        {
            proof {
                glyphs@[i as int].lemma_view_wf();
            }
            if glyphs[i].width() != glyph_width || glyphs[i].height() != glyph_height {
                assert(content.glyphs[i as int] == glyphs@[i as int]@);
                assert(!(content.glyphs[i as int].width == content.glyph_width && content.glyphs[i as int].height()
                    == content.glyph_height));
                assert(!content.wf());
                return None;
            }
            i += 1;
        }
        Some(Font { glyph_width, glyph_height, glyphs, arrow })
    }

    /// The arrow that marks the focused entry.
    pub fn arrow(&self) -> (arrow: &Bitmap)
        requires
            self.wf(),
        ensures
            arrow.wf(),
            arrow@ == self@.arrow,
    {
        &self.arrow
    }

    /// Draws `text`, one cell per character, left to right.
    pub fn render_text(&self, text: &str) -> (result: Result<Bitmap, Error>)
        requires
            self.wf(),
        ensures
            match self@.try_text(text@) {
                Ok(grid) => result matches Ok(bitmap) && bitmap.wf() && bitmap@ == grid,
                Err(e) => result matches Err(f) && f == e,
            },
    {
        let count: usize = text.unicode_len();
        if self.glyph_width > 0 && count > usize::MAX / self.glyph_width {
            assert(count * self.glyph_width > usize::MAX) by (nonlinear_arith)
                requires
                    self.glyph_width > 0,
                    count > usize::MAX / self.glyph_width,
            ;
            return Err(Error::FrameTooLarge);
        }
        assert(count * self.glyph_width <= usize::MAX) by (nonlinear_arith)
            requires
                self.glyph_width == 0 || count <= usize::MAX / self.glyph_width,
        ;
        let mut bitmap = Bitmap::new(0, 0);
        let mut at: usize = 0;
        let mut i: usize = 0;
        while i < count
            invariant
                self.wf(),
                count == text@.len(),
                i <= count,
                at == i * self.glyph_width,
                text@.len() * self@.glyph_width <= usize::MAX,
                bitmap.wf(),
                bitmap@ == self@.text(text@.take(i as int)),
            decreases count - i,
        {
            let c = text.get_char(i);
            let code: u32 = c as u32;
            proof {
                assert(text@.take(i + 1).drop_last() =~= text@.take(i as int));
                assert(text@.take(i + 1).last() == c);
                assert((i + 1) * self.glyph_width <= text@.len() * self.glyph_width) by (nonlinear_arith)
                    requires
                        i + 1 <= text@.len(),
                ;
                assert((i + 1) * self.glyph_width == i * self.glyph_width + self.glyph_width)
                    by (nonlinear_arith);
            }
            assert(at + self.glyph_width <= usize::MAX);
            if (code as usize) < self.glyphs.len() {
                assert(self@.glyphs[code as int] == self.glyphs@[code as int]@);
                assert(self.glyphs@[code as int]@.width == self.glyph_width);
                bitmap.blit(&self.glyphs[code as usize], (at, 0));
            } else {
                let blank = Bitmap::new(self.glyph_width, self.glyph_height);
                bitmap.blit(&blank, (at, 0));
            }
            at += self.glyph_width;
            i += 1;
        }
        assert(text@.take(count as int) =~= text@);
        Ok(bitmap)
    }
}

} // verus!
