//! The frame pipeline and asset streaming core of a renderer.
//!
//! Meshes stream in through load queues into an asset table (`lookup`,
//! `resource_manager`); image uploads are committed only once they have
//! signalled (`upload`). Each frame, render nodes (`nodes`) are snapshotted
//! against the committed meshes (`extract`), turned into ordered submit
//! nodes (`prepare`) and finally into draw commands (`write`).

pub mod assets;
pub mod lookup;
pub mod nodes;
pub mod extract;
pub mod prepare;
pub mod write;
pub mod upload;
pub mod resource_manager;
