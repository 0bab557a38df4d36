//! Per-vertex mesh data as it comes out of the OBJ reader.
//!
//! Coordinates are carried as their original text tokens — already checked
//! against the grammar in `scalar` — so that the renderer converts them to
//! its own number format only at the edge of the library.

use vstd::prelude::*;

verus! {

/// Three coordinate tokens: a position, a colour or a normal.
#[derive(Debug)]
pub struct Triple {
    pub x: String,
    pub y: String,
    pub z: String,
}

/// The value of a `Triple`: its three tokens.
pub struct TripleView {
    pub x: Seq<char>,
    pub y: Seq<char>,
    pub z: Seq<char>,
}

impl View for Triple {
    type V = TripleView;

    open spec fn view(&self) -> TripleView {
        TripleView { x: self.x@, y: self.y@, z: self.z@ }
    }
}

impl Clone for Triple {
    fn clone(&self) -> (r: Self)
        ensures
            r@ == self@,
    {
        Triple { x: self.x.clone(), y: self.y.clone(), z: self.z.clone() }
    }
}

/// Two coordinate tokens: a texture position.
#[derive(Debug)]
pub struct Double {
    pub x: String,
    pub y: String,
}

/// The value of a `Double`: its two tokens.
pub struct DoubleView {
    pub x: Seq<char>,
    pub y: Seq<char>,
}

impl View for Double {
    type V = DoubleView;

    open spec fn view(&self) -> DoubleView {
        DoubleView { x: self.x@, y: self.y@ }
    }
}

impl Clone for Double {
    fn clone(&self) -> (r: Self)
        ensures
            r@ == self@,
    {
        Double { x: self.x.clone(), y: self.y.clone() }
    }
}

/// Everything one mesh vertex carries.
#[derive(Debug)]
pub struct VertexData {
    pub coordinates: Triple,
    pub texture_coordinates: Double,
    pub color: Triple,
    pub normal: Triple,
}

/// The value of a `VertexData`.
pub struct VertexDataView {
    pub coordinates: TripleView,
    pub texture_coordinates: DoubleView,
    pub color: TripleView,
    pub normal: TripleView,
}

impl View for VertexData {
    type V = VertexDataView;

    open spec fn view(&self) -> VertexDataView {
        VertexDataView {
            coordinates: self.coordinates@,
            texture_coordinates: self.texture_coordinates@,
            color: self.color@,
            normal: self.normal@,
        }
    }
}

impl Clone for VertexData {
    fn clone(&self) -> (r: Self)
        ensures
            r@ == self@,
    {
        VertexData {
            coordinates: self.coordinates.clone(),
            texture_coordinates: self.texture_coordinates.clone(),
            color: self.color.clone(),
            normal: self.normal.clone(),
        }
    }
}

/// The colour every OBJ vertex is given: full white, one token `1` per
/// channel.
pub open spec fn white_view() -> TripleView {
    TripleView { x: "1"@, y: "1"@, z: "1"@ }
}

/// Builds the `white_view` colour.
pub fn white() -> (r: Triple)
    ensures
        r@ == white_view(),
{
    Triple { x: "1".to_owned(), y: "1".to_owned(), z: "1".to_owned() }
}

} // verus!
