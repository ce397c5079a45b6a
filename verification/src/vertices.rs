//! Vertex flavors: a position plus optional texture coordinates or normal.
use crate::vectors::{Vector2, Vector3};
use vstd::prelude::*;

verus! {

/// Anything with a position in space.
pub trait Vertex {
    /// The position this vertex contributes.
    spec fn pos_spec(&self) -> Vector3;

    fn get_pos(&self) -> (r: &Vector3)
        ensures
            *r == self.pos_spec(),
    ;
}

#[derive(Debug, Clone, Copy, PartialEq, Eq, Structural)]
pub struct VertexUV {
    pub pos: Vector3,
    pub uv: Vector2,
}

#[derive(Debug, Clone, Copy, PartialEq, Eq, Structural)]
pub struct VertexNormal {
    pub pos: Vector3,
    pub normal: Vector3,
}

#[derive(Debug, Clone, Copy, PartialEq, Eq, Structural)]
pub struct VertexUvn {
    pub pos: Vector3,
    pub normal: Vector3,
    pub uv: Vector2,
}

impl Vertex for VertexUV {
    open spec fn pos_spec(&self) -> Vector3 {
        self.pos
    }

    fn get_pos(&self) -> (r: &Vector3) {
        &self.pos
    }
}

impl Vertex for VertexNormal {
    open spec fn pos_spec(&self) -> Vector3 {
        self.pos
    }

    fn get_pos(&self) -> (r: &Vector3) {
        &self.pos
    }
}

impl Vertex for VertexUvn {
    open spec fn pos_spec(&self) -> Vector3 {
        self.pos
    }

    fn get_pos(&self) -> (r: &Vector3) {
        &self.pos
    }
}

} // verus!
