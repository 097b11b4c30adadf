//! The shape of an Entry project document.

use vstd::prelude::*;
use crate::json::Json;

verus! {

/// Top level of a project document.
#[derive(Debug)]
pub struct Project {
    pub name: String,
    pub objects: Vec<Sprite>,
    pub variables: Vec<Variable>,
    pub messages: Vec<Json>,
    pub functions: Vec<Function>,
    pub scenes: Vec<Scene>,
    /// Frames per second, by its decimal text.
    pub speed: String,
    pub interface: Interface,
    pub meta: Meta,
}

/// An object of a scene.
#[derive(Debug)]
pub struct Sprite {
    pub id: String,
    pub name: String,
    pub object_type: String,
    pub sprite: SpriteInfo,
    pub selected_sound: Json,
    pub scene: String,
    pub script: Json,
}

/// What an object looks like.
#[derive(Debug)]
pub struct SpriteInfo {
    pub name: String,
    pub category: String,
    pub pictures: Vec<Picture>,
}

/// One picture of an object.
#[derive(Debug)]
pub struct Picture {
    pub id: String,
    pub name: String,
    pub file_url: String,
    pub dimension: Dimension,
}

/// Size of a picture, in pixels.
#[derive(Debug, Clone, Copy, PartialEq, Eq, Structural)]
pub struct Dimension {
    pub width: i64,
    pub height: i64,
}

/// A project variable.
#[derive(Debug)]
pub struct Variable {
    pub id: String,
    pub name: String,
    pub variable_type: String,
    pub value: Json,
    pub object: Json,
}

/// A project function.
#[derive(Debug)]
pub struct Function {
    pub id: String,
    pub name: String,
    pub content: Json,
    pub param: Vec<Param>,
}

/// A function parameter.
#[derive(Debug)]
pub struct Param {
    pub name: String,
    pub value: Json,
}

/// A scene.
#[derive(Debug)]
pub struct Scene {
    pub id: String,
    pub name: String,
}

/// The editor's interface state.
#[derive(Debug)]
pub struct Interface {
    pub views: Vec<InterfaceView>,
}

/// One view of the interface.
#[derive(Debug)]
pub struct InterfaceView {
    pub id: String,
    pub name: String,
    pub location: Vec<i64>,
    pub size: Vec<i64>,
}

/// Document metadata.
#[derive(Debug)]
pub struct Meta {
    pub last_modified: String,
    pub created_at: String,
    pub version: String,
}

} // verus!
