use vstd::prelude::*;

verus! {

/// The cross drawn at the centre of the screen: a vertical bar (vertices 0..4) and a
/// horizontal bar (vertices 4..8), each a quad of two triangles. Its vertices are
/// floating point and live with the renderer.
pub struct Cursor;

impl Cursor {
    /// The two triangles of each bar.
    pub fn indices() -> (indices: Vec<u32>)
        ensures
            indices@ == seq![0u32, 1, 2, 0, 2, 3, 4, 5, 6, 4, 6, 7],
    {
        let mut indices: Vec<u32> = Vec::new();
        indices.push(0);
        indices.push(1);
        indices.push(2);
        indices.push(0);
        indices.push(2);
        indices.push(3);
        indices.push(4);
        indices.push(5);
        indices.push(6);
        indices.push(4);
        indices.push(6);
        indices.push(7);
        assert(indices@ =~= seq![0u32, 1, 2, 0, 2, 3, 4, 5, 6, 4, 6, 7]);
        indices
    }
}

} // verus!
