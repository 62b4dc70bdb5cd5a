use crate::assets::{MaterialAsset, MeshAsset};
use crate::lookup::{commit_spec, AssetLookup, LoadHandle};
use crate::nodes::{MeshRenderNodeSet, RenderNodeHandle};
use crate::prepare::{
    lemma_stable_sort_sorted, lemma_submit_nodes_shape, prepared_nodes, submit_nodes, MeshPrepareJob,
};
use vstd::prelude::*;

verus! {

/// One entity seen by one view this frame, and the render node it draws.
#[derive(Clone, Copy, PartialEq, Eq, Structural, Debug)]
pub struct FrameNode {
    pub entity: u64,
    pub render_node: RenderNodeHandle,
}

/// The per-frame snapshot of one frame node: the entity, whose transform is
/// read alongside, and the committed mesh it draws.
#[derive(Debug)]
pub struct ExtractedFrameNodeMeshData {
    pub entity: u64,
    pub mesh_asset: MeshAsset,
}

/// Whether `e` is the snapshot of frame node `f` against the render nodes
/// and the committed meshes: present exactly when the node resolves and its
/// mesh is committed, and then a copy of that mesh.
pub open spec fn extracted_as(
    e: Option<ExtractedFrameNodeMeshData>,
    f: FrameNode,
    render_nodes: MeshRenderNodeSet,
    committed: Map<u64, MeshAsset>,
) -> bool {
    match render_nodes.node_at(f.render_node) {
        Some(n) => if committed.contains_key(n.mesh) {
            &&& e is Some
            &&& e->0.entity == f.entity
            &&& e->0.mesh_asset@ == committed[n.mesh]@
        } else {
            e is None
        },
        None => e is None,
    }
}

/// Whether `extracted` is, index by index, the snapshot of `frame_nodes`.
pub open spec fn extraction_of(
    extracted: Seq<Option<ExtractedFrameNodeMeshData>>,
    frame_nodes: Seq<FrameNode>,
    render_nodes: MeshRenderNodeSet,
    committed: Map<u64, MeshAsset>,
) -> bool {
    &&& extracted.len() == frame_nodes.len()
    &&& forall|i: int|
        0 <= i < frame_nodes.len() ==> extracted_as(
            #[trigger] extracted[i],
            frame_nodes[i],
            render_nodes,
            committed,
        )
}

/// Snapshots the mesh frame nodes of one frame.
pub struct MeshExtractJob {}

impl MeshExtractJob {
    pub fn new() -> Self {
        MeshExtractJob {  }
    }

    /// Brings the render nodes up to date, then snapshots each frame node in
    /// order. Holes stand where a node does not resolve or its mesh is not
    /// committed yet. The depth material must be committed with a single
    /// pass; that pass goes to the prepare job.
    pub fn extract(
        self,
        frame_nodes: &Vec<FrameNode>,
        render_nodes: &mut MeshRenderNodeSet,
        meshes: &AssetLookup<MeshAsset>,
        materials: &AssetLookup<MaterialAsset>,
        depth_material: LoadHandle,
    ) -> (r: MeshPrepareJob)
        requires
            old(render_nodes).wf(),
            materials.committed_view().contains_key(depth_material),
            materials.committed_view()[depth_material].passes@.len() == 1,
        ensures
            r.depth_material_pass == materials.committed_view()[depth_material].passes@[0],
            final(render_nodes).wf(),
            final(render_nodes).pending_free_view().len() == 0,
            forall|h: RenderNodeHandle|
                final(render_nodes).node_at(h) == old(render_nodes).node_at(h),
            extraction_of(
                r.extracted_frame_node_mesh_data@,
                frame_nodes@,
                *final(render_nodes),
                meshes.committed_view(),
            ),
    {
        render_nodes.update();
        let extracted = extract_frame_nodes(frame_nodes, render_nodes, meshes);
        let depth_material_pass = match materials.get_committed(depth_material) {
            Some(m) => m.get_single_material_pass().unwrap(),
            None => vstd::pervasive::unreached(),
        };
        MeshPrepareJob { depth_material_pass, extracted_frame_node_mesh_data: extracted }
    }
}

/// The snapshot of a single frame node.
pub fn extract_frame_node(
    f: FrameNode,
    render_nodes: &MeshRenderNodeSet,
    meshes: &AssetLookup<MeshAsset>,
) -> (r: Option<ExtractedFrameNodeMeshData>)
    ensures
        extracted_as(r, f, *render_nodes, meshes.committed_view()),
{
    match render_nodes.get(f.render_node) {
        Some(n) => match meshes.get_committed(n.mesh) {
            Some(mesh) => Some(
                ExtractedFrameNodeMeshData { entity: f.entity, mesh_asset: mesh.share() },
            ),
            None => None,
        },
        None => None,
    }
}

/// The snapshot of each frame node, index-aligned with `frame_nodes`.
pub fn extract_frame_nodes(
    frame_nodes: &Vec<FrameNode>,
    render_nodes: &MeshRenderNodeSet,
    meshes: &AssetLookup<MeshAsset>,
) -> (r: Vec<Option<ExtractedFrameNodeMeshData>>)
    ensures
        extraction_of(r@, frame_nodes@, *render_nodes, meshes.committed_view()),
{
    let mut r: Vec<Option<ExtractedFrameNodeMeshData>> = Vec::with_capacity(frame_nodes.len());
    let mut i: usize = 0;
    while i < frame_nodes.len()
        invariant
            i <= frame_nodes@.len(),
            r@.len() == i,
            forall|k: int|
                0 <= k < i ==> extracted_as(
                    #[trigger] r@[k],
                    frame_nodes@[k],
                    *render_nodes,
                    meshes.committed_view(),
                ),
        decreases frame_nodes@.len() - i,
    {
        let e = extract_frame_node(frame_nodes[i], render_nodes, meshes);
        r.push(e);
        i = i + 1;
    }
    r
}

/// A frame node whose mesh is not committed is extracted as a hole, and no
/// submit node that preparing the extraction yields refers to it.
pub proof fn lemma_uncommitted_mesh_not_submitted(
    extracted: Seq<Option<ExtractedFrameNodeMeshData>>,
    frame_nodes: Seq<FrameNode>,
    render_nodes: MeshRenderNodeSet,
    committed: Map<u64, MeshAsset>,
    visible: Seq<bool>,
    per_view_descriptor_set: u64,
    per_instance_descriptor_sets: Seq<u64>,
    sort_keys: Seq<u64>,
    k: int,
)
    requires
        extraction_of(extracted, frame_nodes, render_nodes, committed),
        extracted.len() <= usize::MAX,
        forall|i: int|
            0 <= i < extracted.len() && #[trigger] extracted[i] is Some
                ==> extracted[i]->0.mesh_asset@.mesh_parts.len() <= usize::MAX,
        visible.len() == extracted.len(),
        per_instance_descriptor_sets.len() == extracted.len(),
        0 <= k < frame_nodes.len(),
        render_nodes.node_at(frame_nodes[k].render_node) is Some,
        !committed.contains_key(render_nodes.node_at(frame_nodes[k].render_node)->0.mesh),
    ensures
        extracted[k] is None,
        forall|j: int|
            0 <= j < prepared_nodes(
                extracted,
                visible,
                per_view_descriptor_set,
                per_instance_descriptor_sets,
                sort_keys,
            ).len() ==> (#[trigger] prepared_nodes(
                extracted,
                visible,
                per_view_descriptor_set,
                per_instance_descriptor_sets,
                sort_keys,
            )[j]).frame_node_index != k,
{
    assert(extracted_as(extracted[k], frame_nodes[k], render_nodes, committed));
    let s = submit_nodes(
        extracted,
        visible,
        per_view_descriptor_set,
        per_instance_descriptor_sets,
        extracted.len() as int,
    );
    lemma_submit_nodes_shape(
        extracted,
        visible,
        per_view_descriptor_set,
        per_instance_descriptor_sets,
        extracted.len() as int,
    );
    lemma_stable_sort_sorted(s, sort_keys);
    let r = prepared_nodes(
        extracted,
        visible,
        per_view_descriptor_set,
        per_instance_descriptor_sets,
        sort_keys,
    );
    assert forall|j: int| 0 <= j < r.len() implies (#[trigger] r[j]).frame_node_index != k by {
        assert(s.contains(r[j]));
        let w = choose|w: int| 0 <= w < s.len() && s[w] == r[j];
        assert(extracted[s[w].frame_node_index as int] is Some);
    }
}

/// Committing a new version of mesh `h` leaves what an earlier extraction
/// took intact: snapshots of `h` keep the version they copied, and every
/// other snapshot is also what extracting against the new table gives. The
/// new table holds the new version of `h`.
pub proof fn lemma_commit_keeps_extraction(
    extracted: Seq<Option<ExtractedFrameNodeMeshData>>,
    frame_nodes: Seq<FrameNode>,
    render_nodes: MeshRenderNodeSet,
    uncommitted: Map<LoadHandle, MeshAsset>,
    committed: Map<LoadHandle, MeshAsset>,
    h: LoadHandle,
    next: MeshAsset,
)
    requires
        extraction_of(extracted, frame_nodes, render_nodes, committed),
    ensures
        ({
            let after = commit_spec(uncommitted.insert(h, next), committed, h).1;
            &&& after[h] == next
            &&& forall|i: int|
                0 <= i < frame_nodes.len() && render_nodes.node_at(frame_nodes[i].render_node)
                    is Some && render_nodes.node_at(frame_nodes[i].render_node)->0.mesh != h
                    ==> extracted_as(#[trigger] extracted[i], frame_nodes[i], render_nodes, after)
            &&& forall|i: int|
                0 <= i < frame_nodes.len() && render_nodes.node_at(frame_nodes[i].render_node)
                    is Some && render_nodes.node_at(frame_nodes[i].render_node)->0.mesh == h
                    && committed.contains_key(h) ==> (#[trigger] extracted[i])->0.mesh_asset@
                    == committed[h]@
        }),
{
    let after = commit_spec(uncommitted.insert(h, next), committed, h).1;
    assert forall|i: int|
        0 <= i < frame_nodes.len() && render_nodes.node_at(frame_nodes[i].render_node) is Some
            && render_nodes.node_at(frame_nodes[i].render_node)->0.mesh != h implies extracted_as(
        #[trigger] extracted[i],
        frame_nodes[i],
        render_nodes,
        after,
    ) by {
        assert(extracted_as(extracted[i], frame_nodes[i], render_nodes, committed));
    }
    assert forall|i: int|
        0 <= i < frame_nodes.len() && render_nodes.node_at(frame_nodes[i].render_node) is Some
            && render_nodes.node_at(frame_nodes[i].render_node)->0.mesh == h
            && committed.contains_key(h) implies (#[trigger] extracted[i])->0.mesh_asset@
        == committed[h]@ by {
        assert(extracted_as(extracted[i], frame_nodes[i], render_nodes, committed));
    }
}

} // verus!
