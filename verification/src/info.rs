//! The canvas description that the mapper and the encoder work from.

use vstd::prelude::*;

verus! {

/// One palette slot: a colour written as six hexadecimal digits, with or without
/// a leading `#`.
#[derive(Clone, Debug)]
pub struct PxlsInfoColor {
    pub value: String,
}

impl View for PxlsInfoColor {
    type V = Seq<char>;

    open spec fn view(&self) -> Seq<char> {
        self.value@
    }
}

/// The part of the canvas description that rendering needs.
///
/// The order of `palette` is the lookup key: board byte `k` names `palette[k]`.
#[derive(Clone, Debug)]
pub struct PartialPxlsInfo {
    /// Identifies one session of the canvas; used only to name the output file.
    pub canvas_code: Option<String>,
    pub width: u32,
    pub height: u32,
    pub palette: Vec<PxlsInfoColor>,
}

/// A canvas description as plain mathematical values.
pub struct CanvasModel {
    pub canvas_code: Option<Seq<char>>,
    pub width: nat,
    pub height: nat,
    pub palette: Seq<Seq<char>>,
}

impl View for PartialPxlsInfo {
    type V = CanvasModel;

    open spec fn view(&self) -> CanvasModel {
        CanvasModel {
            canvas_code: match self.canvas_code {
                Some(code) => Some(code@),
                None => None,
            },
            width: self.width as nat,
            height: self.height as nat,
            palette: Seq::new(self.palette@.len(), |k: int| self.palette@[k]@),
        }
    }
}

impl CanvasModel {
    /// The number of pixels of the canvas.
    pub open spec fn area(self) -> nat {
        self.width * self.height
    }
}

} // verus!
