//! Per-frame derived maps that carry no floating-point data: the binary
//! edge map and the semantic label map.

use vstd::prelude::*;

verus! {

/// Binary edge map: `data` holds one byte per pixel, row-major, 255 for an
/// edge and 0 otherwise.
#[derive(Debug, Clone)]
pub struct EdgeMap {
    pub width: u32,
    pub height: u32,
    pub data: Vec<u8>,
}

/// Semantic segmentation output: a class label per pixel, row-major, and
/// the class names by label.
#[derive(Debug, Clone)]
pub struct SemanticMap {
    pub width: u32,
    pub height: u32,
    pub labels: Vec<u8>,
    pub class_names: Vec<String>,
}

impl SemanticMap {
    /// The map used until a segmentation model is plugged in: every pixel
    /// labelled 0, the single class `unknown`.
    pub fn placeholder(width: u32, height: u32) -> (m: Self)
        requires
            width * height <= u32::MAX,
        ensures
            m.width == width,
            m.height == height,
            m.labels@ == Seq::new((width * height) as nat, |i: int| 0u8),
            m.class_names@.len() == 1,
            m.class_names@[0]@ == "unknown"@,
    {
        let n: usize = (width * height) as usize;
        let labels: Vec<u8> = vec![0u8; n];
        assert(labels@ =~= Seq::new((width * height) as nat, |i: int| 0u8));
        let mut class_names: Vec<String> = Vec::new();
        class_names.push(String::from_str("unknown"));
        SemanticMap { width, height, labels, class_names }
    }
}

} // verus!
