use crate::assets::{MeshAssetPart, MeshAssetView};
use crate::extract::ExtractedFrameNodeMeshData;
use crate::prepare::{
    lemma_stable_sort_sorted, lemma_submit_nodes_shape, prepared_nodes, submit_nodes,
    PreparedSubmitNodeMeshData,
};
use vstd::prelude::*;

verus! {

/// Descriptor-set slot of the per-view set.
pub const PER_VIEW_SET_SLOT: u32 = 0;

/// Descriptor-set slot of the per-material-instance set.
pub const PER_MATERIAL_SET_SLOT: u32 = 1;

/// Descriptor-set slot of the per-instance set.
pub const PER_INSTANCE_SET_SLOT: u32 = 2;

/// Size of one index: indices are 16-bit.
pub const INDEX_SIZE_IN_BYTES: u32 = 2;

/// A graphics command, in terms of the resources it names.
#[derive(Clone, Copy, PartialEq, Eq, Structural, Debug)]
pub enum DrawCommand {
    /// Bind the pipeline built for this material pass and the current
    /// render target.
    BindPipeline { material_pass: u64 },
    BindDescriptorSet { slot: u32, descriptor_set: u64 },
    BindVertexBuffer { buffer: u64, offset_in_bytes: u64 },
    BindIndexBuffer { buffer: u64, offset_in_bytes: u64 },
    DrawIndexed { index_count: u32 },
}

/// Why a submit node cannot be drawn.
#[derive(Clone, Copy, PartialEq, Eq, Structural, Debug)]
pub enum WriteError {
    /// No submit node has this index.
    SubmitNodeOutOfRange,
    /// The submit node points at a frame node with no extracted data.
    MissingExtractedData,
    /// The submit node points past the mesh's parts.
    MeshPartOutOfRange,
}

/// The commands that draw part `part` of `mesh` for submit node `node`.
pub open spec fn element_commands(
    node: PreparedSubmitNodeMeshData,
    mesh: MeshAssetView,
    part: MeshAssetPart,
) -> Seq<DrawCommand> {
    seq![
        DrawCommand::BindPipeline { material_pass: part.material_pass },
        DrawCommand::BindDescriptorSet {
            slot: PER_VIEW_SET_SLOT,
            descriptor_set: node.per_view_descriptor_set,
        },
        DrawCommand::BindDescriptorSet {
            slot: PER_MATERIAL_SET_SLOT,
            descriptor_set: part.material_instance_descriptor_set,
        },
        DrawCommand::BindDescriptorSet {
            slot: PER_INSTANCE_SET_SLOT,
            descriptor_set: node.per_instance_descriptor_set,
        },
        DrawCommand::BindVertexBuffer {
            buffer: mesh.vertex_buffer,
            offset_in_bytes: part.vertex_buffer_offset_in_bytes as u64,
        },
        DrawCommand::BindIndexBuffer {
            buffer: mesh.index_buffer,
            offset_in_bytes: part.index_buffer_offset_in_bytes as u64,
        },
        DrawCommand::DrawIndexed {
            index_count: part.index_buffer_size_in_bytes / INDEX_SIZE_IN_BYTES,
        },
    ]
}

/// Emits the draw commands of the prepared submit nodes.
pub struct MeshCommandWriter {
    pub extracted_frame_node_mesh_data: Vec<Option<ExtractedFrameNodeMeshData>>,
    pub prepared_submit_node_mesh_data: Vec<PreparedSubmitNodeMeshData>,
}

impl MeshCommandWriter {
    /// What `render_element(index)` yields.
    pub open spec fn element_spec(&self, index: int) -> Result<Seq<DrawCommand>, WriteError> {
        if !(0 <= index < self.prepared_submit_node_mesh_data@.len()) {
            Err(WriteError::SubmitNodeOutOfRange)
        } else {
            let node = self.prepared_submit_node_mesh_data@[index];
            let f = node.frame_node_index as int;
            if !(f < self.extracted_frame_node_mesh_data@.len()) {
                Err(WriteError::MissingExtractedData)
            } else {
                match self.extracted_frame_node_mesh_data@[f] {
                    None => Err(WriteError::MissingExtractedData),
                    Some(e) => {
                        let p = node.mesh_part_index as int;
                        if !(p < e.mesh_asset@.mesh_parts.len()) {
                            Err(WriteError::MeshPartOutOfRange)
                        } else {
                            Ok(element_commands(node, e.mesh_asset@, e.mesh_asset@.mesh_parts[p]))
                        }
                    },
                }
            }
        }
    }

    /// The commands that set up a render phase before its elements are
    /// drawn: the mesh feature binds everything per element, so none.
    pub fn apply_setup(&self) -> (r: Vec<DrawCommand>)
        ensures
            r@.len() == 0,
    {
        Vec::new()
    }

    /// The commands that undo `apply_setup`: none.
    pub fn revert_setup(&self) -> (r: Vec<DrawCommand>)
        ensures
            r@.len() == 0,
    {
        Vec::new()
    }

    /// The commands that draw submit node `index`: bind its pipeline, its
    /// descriptor sets in their fixed slots, its buffers at the part's byte
    /// offsets, then one indexed draw over the part's indices.
    pub fn render_element(&self, index: usize) -> (r: Result<Vec<DrawCommand>, WriteError>)
        ensures
            match (r, self.element_spec(index as int)) {
                (Ok(v), Ok(s)) => v@ == s,
                (Err(e), Err(s)) => e == s,
                _ => false,
            },
    {
        if index >= self.prepared_submit_node_mesh_data.len() {
            return Err(WriteError::SubmitNodeOutOfRange);
        }
        let node = self.prepared_submit_node_mesh_data[index];
        if node.frame_node_index >= self.extracted_frame_node_mesh_data.len() {
            return Err(WriteError::MissingExtractedData);
        }
        match &self.extracted_frame_node_mesh_data[node.frame_node_index] {
            None => Err(WriteError::MissingExtractedData),
            Some(e) => {
                if node.mesh_part_index >= e.mesh_asset.inner.mesh_parts.len() {
                    return Err(WriteError::MeshPartOutOfRange);
                }
                let part = e.mesh_asset.inner.mesh_parts[node.mesh_part_index];
                let v = vec![
                    DrawCommand::BindPipeline { material_pass: part.material_pass },
                    DrawCommand::BindDescriptorSet {
                        slot: PER_VIEW_SET_SLOT,
                        descriptor_set: node.per_view_descriptor_set,
                    },
                    DrawCommand::BindDescriptorSet {
                        slot: PER_MATERIAL_SET_SLOT,
                        descriptor_set: part.material_instance_descriptor_set,
                    },
                    DrawCommand::BindDescriptorSet {
                        slot: PER_INSTANCE_SET_SLOT,
                        descriptor_set: node.per_instance_descriptor_set,
                    },
                    DrawCommand::BindVertexBuffer {
                        buffer: e.mesh_asset.inner.vertex_buffer,
                        offset_in_bytes: part.vertex_buffer_offset_in_bytes as u64,
                    },
                    DrawCommand::BindIndexBuffer {
                        buffer: e.mesh_asset.inner.index_buffer,
                        offset_in_bytes: part.index_buffer_offset_in_bytes as u64,
                    },
                    DrawCommand::DrawIndexed {
                        index_count: part.index_buffer_size_in_bytes / INDEX_SIZE_IN_BYTES,
                    },
                ];
                assert(v@ =~= element_commands(node, e.mesh_asset@, part));
                Ok(v)
            },
        }
    }
}

/// A writer that Prepare built draws every one of its submit nodes: none
/// points past the prepared list, at a hole in the extracted data, or past
/// the parts of its mesh. (Vec lengths fit in `usize`.)
pub proof fn lemma_prepared_writer_renders_all(
    w: MeshCommandWriter,
    visible: Seq<bool>,
    per_view_descriptor_set: u64,
    per_instance_descriptor_sets: Seq<u64>,
    sort_keys: Seq<u64>,
)
    requires
        w.prepared_submit_node_mesh_data@ == prepared_nodes(
            w.extracted_frame_node_mesh_data@,
            visible,
            per_view_descriptor_set,
            per_instance_descriptor_sets,
            sort_keys,
        ),
        w.extracted_frame_node_mesh_data@.len() <= usize::MAX,
        forall|i: int|
            0 <= i < w.extracted_frame_node_mesh_data@.len()
                && #[trigger] w.extracted_frame_node_mesh_data@[i] is Some
                ==> w.extracted_frame_node_mesh_data@[i]->0.mesh_asset@.mesh_parts.len()
                <= usize::MAX,
        visible.len() == w.extracted_frame_node_mesh_data@.len(),
        per_instance_descriptor_sets.len() == w.extracted_frame_node_mesh_data@.len(),
    ensures
        forall|i: int|
            0 <= i < w.prepared_submit_node_mesh_data@.len() ==> (#[trigger] w.element_spec(i))
                is Ok,
{
    let ex = w.extracted_frame_node_mesh_data@;
    let s = submit_nodes(
        ex,
        visible,
        per_view_descriptor_set,
        per_instance_descriptor_sets,
        ex.len() as int,
    );
    lemma_submit_nodes_shape(
        ex,
        visible,
        per_view_descriptor_set,
        per_instance_descriptor_sets,
        ex.len() as int,
    );
    lemma_stable_sort_sorted(s, sort_keys);
    assert forall|i: int| 0 <= i < w.prepared_submit_node_mesh_data@.len() implies (
    #[trigger] w.element_spec(i)) is Ok by {
        let n = w.prepared_submit_node_mesh_data@[i];
        assert(s.contains(n));
        let k = choose|k: int| 0 <= k < s.len() && s[k] == n;
        assert(s[k] == n);
    }
}

} // verus!
