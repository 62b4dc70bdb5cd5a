use crate::lookup::LoadHandle;
use std::sync::Arc;
use vstd::prelude::*;

verus! {

/// A committed material instance, reduced to what drawing needs: the
/// material pass its pipeline is built from, and its per-material-instance
/// descriptor set.
#[derive(Clone, Copy, PartialEq, Eq, Structural, Debug)]
pub struct MaterialInstanceAsset {
    pub material_pass: u64,
    pub descriptor_set: u64,
}

/// A committed material: the material passes it is drawn with.
#[derive(Debug)]
pub struct MaterialAsset {
    pub passes: Vec<u64>,
}

impl MaterialAsset {
    /// The material's pass, when it has exactly one.
    pub fn get_single_material_pass(&self) -> (r: Option<u64>)
        ensures
            r == (if self.passes@.len() == 1 {
                Some(self.passes@[0])
            } else {
                None::<u64>
            }),
    {
        if self.passes.len() == 1 {
            Some(self.passes[0])
        } else {
            None
        }
    }
}

/// A GPU buffer that mesh parts point into.
#[derive(Clone, Copy, PartialEq, Eq, Structural, Debug)]
pub struct BufferAsset {
    pub buffer: u64,
}

/// One part of a mesh as the asset file describes it.
#[derive(Clone, Copy, PartialEq, Eq, Structural, Debug)]
pub struct MeshPartData {
    pub material_instance: LoadHandle,
    pub vertex_buffer_offset_in_bytes: u32,
    pub vertex_buffer_size_in_bytes: u32,
    pub index_buffer_offset_in_bytes: u32,
    pub index_buffer_size_in_bytes: u32,
}

/// Raw mesh data handed to the loader: the buffers it uses and its parts.
#[derive(Debug)]
pub struct MeshAssetData {
    pub vertex_buffer: LoadHandle,
    pub index_buffer: LoadHandle,
    pub mesh_parts: Vec<MeshPartData>,
}

/// One part of a loaded mesh, with its material instance resolved.
#[derive(Clone, Copy, PartialEq, Eq, Structural, Debug)]
pub struct MeshAssetPart {
    pub material_pass: u64,
    pub material_instance_descriptor_set: u64,
    pub vertex_buffer_offset_in_bytes: u32,
    pub vertex_buffer_size_in_bytes: u32,
    pub index_buffer_offset_in_bytes: u32,
    pub index_buffer_size_in_bytes: u32,
}

/// What a loaded mesh holds: the buffers it draws from and its parts, in
/// order.
#[derive(Debug)]
pub struct MeshAssetInner {
    pub vertex_buffer: u64,
    pub index_buffer: u64,
    pub mesh_parts: Vec<MeshAssetPart>,
}

/// A loaded mesh. Immutable once committed, and shared: the asset table and
/// every frame snapshot that took it hold the same data, which is released
/// when the last of them lets go.
#[derive(Debug)]
pub struct MeshAsset {
    pub inner: Arc<MeshAssetInner>,
}

/// What a mesh holds, as plain values.
pub struct MeshAssetView {
    pub vertex_buffer: u64,
    pub index_buffer: u64,
    pub mesh_parts: Seq<MeshAssetPart>,
}

impl View for MeshAsset {
    type V = MeshAssetView;

    open spec fn view(&self) -> MeshAssetView {
        MeshAssetView {
            vertex_buffer: self.inner.vertex_buffer,
            index_buffer: self.inner.index_buffer,
            mesh_parts: self.inner.mesh_parts@,
        }
    }
}

impl MeshAsset {
    /// Wraps freshly built mesh data.
    pub fn new(vertex_buffer: u64, index_buffer: u64, mesh_parts: Vec<MeshAssetPart>) -> (r:
        MeshAsset)
        ensures
            r@ == (MeshAssetView { vertex_buffer, index_buffer, mesh_parts: mesh_parts@ }),
    {
        MeshAsset { inner: Arc::new(MeshAssetInner { vertex_buffer, index_buffer, mesh_parts }) }
    }

    /// Another holder of this mesh's data.
    pub fn share(&self) -> (r: MeshAsset)
        ensures
            r@ == self@,
    {
        MeshAsset { inner: self.inner.clone() }
    }
}

} // verus!
