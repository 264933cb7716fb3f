use base64::Engine;
use vstd::prelude::*;

verus! {

/// Layout of the sheet that holds the frames of an animation: a grid of
/// cells of one size, filled row by row.
#[derive(Clone, Copy, Debug, PartialEq, Eq, Structural)]
pub struct Spritesheet {
    pub cell_width: usize,
    pub cell_height: usize,
    pub colums: usize,
    pub frame_count: usize,
}

impl Spritesheet {
    /// Rows of the grid: as many as it takes to hold every frame.
    pub open spec fn row_count(self) -> int {
        (self.frame_count + self.colums - 1) / (self.colums as int)
    }

    /// Rows of the grid.
    pub fn rows(&self) -> (r: usize)
        requires
            self.colums > 0,
        ensures
            r == self.row_count(),
            r * self.colums >= self.frame_count,
            self.frame_count > 0 ==> (r - 1) * self.colums < self.frame_count,
    {
        let full: usize = self.frame_count / self.colums;
        let rest: usize = self.frame_count % self.colums;
        proof {
            let count = self.frame_count as int;
            let width = self.colums as int;
            vstd::arithmetic::div_mod::lemma_fundamental_div_mod(count, width);
            assert(count == width * full + rest);
            if rest == 0 {
                assert(count + width - 1 == full * width + (width - 1));
                vstd::arithmetic::div_mod::lemma_fundamental_div_mod_converse(
                    count + width - 1,
                    width,
                    full as int,
                    width - 1,
                );
            } else {
                assert(count + width - 1 == (full + 1) * width + (rest - 1)) by (nonlinear_arith)
                    requires
                        count == width * full + rest,
                ;
                vstd::arithmetic::div_mod::lemma_fundamental_div_mod_converse(
                    count + width - 1,
                    width,
                    full + 1,
                    rest - 1,
                );
            }
            if rest > 0 {
                assert(full < usize::MAX) by (nonlinear_arith)
                    requires
                        self.frame_count == width * full + rest,
                        width >= 2,
                        rest > 0,
                        full >= 0,
                ;
            }
            assert(full * width == width * full) by (nonlinear_arith);
            assert((full + 1) * width == width * full + width) by (nonlinear_arith);
            assert((full - 1) * width == width * full - width) by (nonlinear_arith);
        }
        if rest == 0 {
            full
        } else {
            full + 1
        }
    }
}

/// The bytes that a text stands for in base64, in the standard alphabet
/// and without padding; none for a text that is no such encoding.
pub uninterp spec fn base64_decoded(text: Seq<char>) -> Option<Seq<u8>>;

/// Calls `Engine::decode` of the crate base64 on its engine
/// `STANDARD_NO_PAD`, and drops what the error says. Taken on trust: the
/// call returns, and what it returns depends on the text alone.
#[verifier::external_body]
fn decode_base64(text: &str) -> (r: Option<Vec<u8>>)
    ensures
        match r {
            Some(bytes) => base64_decoded(text@) == Some(bytes@),
            None => base64_decoded(text@) is None,
        },
{
    base64::engine::general_purpose::STANDARD_NO_PAD.decode(text).ok()
}

/// The image of a sheet, as an animation file holds it in text.
pub fn decode_spritesheet(text: &str) -> (r: Option<Vec<u8>>)
    ensures
        match r {
            Some(bytes) => base64_decoded(text@) == Some(bytes@),
            None => base64_decoded(text@) is None,
        },
{
    decode_base64(text)
}

} // verus!
