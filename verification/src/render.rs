use vstd::prelude::*;
use crate::bitmap::{Bitmap, Grid};
use crate::displaymanager::Window;
use crate::error::Error;
use crate::font::{Font, FontView};

verus! {

/// Whether what a render call returned is what was expected of it: the
/// expected grid in a well-formed bitmap, or the expected error.
pub open spec fn rendered(result: Result<Bitmap, Error>, expected: Result<Grid, Error>) -> bool {
    match expected {
        Ok(grid) => result matches Ok(bitmap) && bitmap.wf() && bitmap@ == grid,
        Err(e) => result matches Err(f) && f == e,
    }
}

/// What a drawable widget is, mathematically.
pub trait RenderModel {
    /// What the widget looks like: a function of its own state, the font,
    /// and the state of its window, and of nothing else.
    spec fn render_spec(&self, font: FontView, window: Window) -> Result<Grid, Error>;
}

/// The capability to draw oneself.
pub trait Render: View where Self::V: RenderModel {
    /// Draws the widget into a new bitmap.
    fn render(&self, font: &Font, window: &Window) -> (result: Result<Bitmap, Error>)
        requires
            font.wf(),
        ensures
            rendered(result, self@.render_spec(font@, *window)),
    ;
}

/// `base` with the text `s` drawn at column `x`, row `y`.
pub open spec fn draw_text_spec(base: Grid, font: FontView, s: Seq<char>, x: nat, y: nat) -> Result<
    Grid,
    Error,
> {
    match font.try_text(s) {
        Ok(label) => base.try_blit(label, x, y),
        Err(e) => Err(e),
    }
}

/// `draw_text_spec` on a drawing that may already have failed.
pub open spec fn then_text(base: Result<Grid, Error>, font: FontView, s: Seq<char>, x: nat, y: nat) -> Result<
    Grid,
    Error,
> {
    match base {
        Ok(grid) => draw_text_spec(grid, font, s, x, y),
        Err(e) => Err(e),
    }
}

/// `try_blit` on a drawing that may already have failed.
pub open spec fn then_blit(base: Result<Grid, Error>, other: Grid, x: nat, y: nat) -> Result<Grid, Error> {
    match base {
        Ok(grid) => grid.try_blit(other, x, y),
        Err(e) => Err(e),
    }
}

/// Draws `text` onto `base` with its top-left corner at `at` (column, row).
/// On failure `base` stays as it was.
pub fn draw_text(base: &mut Bitmap, font: &Font, text: &str, at: (usize, usize)) -> (result: Result<(), Error>)
    requires
        old(base).wf(),
        font.wf(),
    ensures
        final(base).wf(),
        match draw_text_spec(old(base)@, font@, text@, at.0 as nat, at.1 as nat) {
            Ok(grid) => result == Ok::<(), Error>(()) && final(base)@ == grid,
            Err(e) => result == Err::<(), Error>(e) && final(base)@ == old(base)@,
        },
{
    match font.render_text(text) {
        Ok(label) => base.try_blit(&label, at),
        Err(e) => Err(e),
    }
}

} // verus!
