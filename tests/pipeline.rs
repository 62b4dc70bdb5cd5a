use render_pipeline::assets::{
    BufferAsset, MaterialAsset, MaterialInstanceAsset, MeshAssetData, MeshPartData,
};
use render_pipeline::extract::{ExtractedFrameNodeMeshData, FrameNode, MeshExtractJob};
use render_pipeline::lookup::AssetLookup;
use render_pipeline::nodes::{MeshRenderNode, MeshRenderNodeSet};
use render_pipeline::resource_manager::{
    load_mesh, GameResourceManager, MeshLoadError, RenderAssetLookupSet,
};
use render_pipeline::prepare::{sort_submit_nodes, PreparedSubmitNodeMeshData};
use render_pipeline::write::{DrawCommand, MeshCommandWriter, WriteError};

const VERTEX_BUFFER: u64 = 1;
const INDEX_BUFFER: u64 = 2;
const MATERIAL: u64 = 10;
const MESH: u64 = 20;
const DEPTH_MATERIAL: u64 = 30;

fn depth_materials() -> AssetLookup<MaterialAsset> {
    let mut materials = AssetLookup::new();
    materials.set_uncommitted(DEPTH_MATERIAL, MaterialAsset { passes: vec![700] });
    materials.commit(DEPTH_MATERIAL);
    materials
}

fn part(vertex_offset: u32, vertex_size: u32, index_offset: u32, index_size: u32) -> MeshPartData {
    MeshPartData {
        material_instance: MATERIAL,
        vertex_buffer_offset_in_bytes: vertex_offset,
        vertex_buffer_size_in_bytes: vertex_size,
        index_buffer_offset_in_bytes: index_offset,
        index_buffer_size_in_bytes: index_size,
    }
}

fn two_part_mesh() -> MeshAssetData {
    MeshAssetData {
        vertex_buffer: VERTEX_BUFFER,
        index_buffer: INDEX_BUFFER,
        mesh_parts: vec![part(0, 96, 0, 12), part(96, 48, 12, 6)],
    }
}

fn resources(commit_material: bool) -> RenderAssetLookupSet {
    let mut buffers = AssetLookup::new();
    buffers.set_uncommitted(VERTEX_BUFFER, BufferAsset { buffer: 100 });
    buffers.commit(VERTEX_BUFFER);
    buffers.set_uncommitted(INDEX_BUFFER, BufferAsset { buffer: 200 });
    let mut material_instances = AssetLookup::new();
    material_instances.set_uncommitted(
        MATERIAL,
        MaterialInstanceAsset { material_pass: 300, descriptor_set: 400 },
    );
    if commit_material {
        material_instances.commit(MATERIAL);
    }
    RenderAssetLookupSet { buffers, material_instances }
}

#[test]
fn end_to_end_two_parts() {
    let res = resources(true);
    let mut manager = GameResourceManager::new();
    manager.request_mesh_load(MESH, two_part_mesh());
    let outcomes = manager.update_resources(&res);
    assert_eq!(outcomes.len(), 1);
    assert_eq!(outcomes[0].load_handle, MESH);
    assert!(outcomes[0].result.is_ok());
    assert!(manager.mesh(MESH).is_none());
    manager.request_mesh_commit(MESH);
    manager.update_resources(&res);
    assert!(manager.mesh(MESH).is_some());

    let mut nodes = MeshRenderNodeSet::new();
    let handle = nodes.allocate(MeshRenderNode { mesh: MESH }).unwrap();
    let frame_nodes = vec![FrameNode { entity: 7, render_node: handle }];
    let prepare = MeshExtractJob::new().extract(&frame_nodes, &mut nodes, manager.mesh_lookup(), &depth_materials(), DEPTH_MATERIAL);
    assert_eq!(prepare.extracted_frame_node_mesh_data.len(), 1);
    assert_eq!(prepare.depth_material_pass, 700);
    let writer = prepare.prepare(&vec![true], 500, &vec![600], &vec![0]);
    let submit = &writer.prepared_submit_node_mesh_data;
    assert_eq!(submit.len(), 2);
    assert_eq!(submit[0].frame_node_index, 0);
    assert_eq!(submit[1].frame_node_index, 0);
    assert_eq!(submit[0].mesh_part_index, 0);
    assert_eq!(submit[1].mesh_part_index, 1);

    let first = writer.render_element(0).unwrap();
    assert_eq!(
        first,
        vec![
            DrawCommand::BindPipeline { material_pass: 300 },
            DrawCommand::BindDescriptorSet { slot: 0, descriptor_set: 500 },
            DrawCommand::BindDescriptorSet { slot: 1, descriptor_set: 400 },
            DrawCommand::BindDescriptorSet { slot: 2, descriptor_set: 600 },
            DrawCommand::BindVertexBuffer { buffer: 100, offset_in_bytes: 0 },
            DrawCommand::BindIndexBuffer { buffer: 200, offset_in_bytes: 0 },
            DrawCommand::DrawIndexed { index_count: 6 },
        ]
    );
    let second = writer.render_element(1).unwrap();
    assert_eq!(second[0], DrawCommand::BindPipeline { material_pass: 300 });
    assert_eq!(second[4], DrawCommand::BindVertexBuffer { buffer: 100, offset_in_bytes: 96 });
    assert_eq!(second[5], DrawCommand::BindIndexBuffer { buffer: 200, offset_in_bytes: 12 });
    assert_eq!(second[6], DrawCommand::DrawIndexed { index_count: 3 });
    let draws = first
        .iter()
        .chain(second.iter())
        .filter(|c| matches!(c, DrawCommand::DrawIndexed { .. }))
        .count();
    assert_eq!(draws, 2);
    assert_eq!(writer.render_element(2), Err(WriteError::SubmitNodeOutOfRange));
}

#[test]
fn extraction_keeps_length_and_holes() {
    let res = resources(true);
    let mut manager = GameResourceManager::new();
    manager.request_mesh_load(MESH, two_part_mesh());
    manager.request_mesh_commit(MESH);
    manager.update_resources(&res);

    let mut nodes = MeshRenderNodeSet::new();
    let drawn = nodes.allocate(MeshRenderNode { mesh: MESH }).unwrap();
    let not_loaded = nodes.allocate(MeshRenderNode { mesh: 99 }).unwrap();
    let removed = nodes.allocate(MeshRenderNode { mesh: MESH }).unwrap();
    assert!(nodes.free(removed));
    let frame_nodes = vec![
        FrameNode { entity: 1, render_node: not_loaded },
        FrameNode { entity: 2, render_node: drawn },
        FrameNode { entity: 3, render_node: removed },
        FrameNode { entity: 4, render_node: drawn },
    ];
    let prepare = MeshExtractJob::new().extract(&frame_nodes, &mut nodes, manager.mesh_lookup(), &depth_materials(), DEPTH_MATERIAL);
    let extracted = &prepare.extracted_frame_node_mesh_data;
    assert_eq!(extracted.len(), 4);
    assert!(extracted[0].is_none());
    assert_eq!(extracted[1].as_ref().unwrap().entity, 2);
    assert!(extracted[2].is_none());
    assert_eq!(extracted[3].as_ref().unwrap().entity, 4);

    let writer = prepare.prepare(&vec![true, true, true, false], 5, &vec![11, 12, 13, 14], &vec![0, 0, 0, 0]);
    let submit = &writer.prepared_submit_node_mesh_data;
    assert_eq!(submit.len(), 2);
    assert!(submit.iter().all(|s| s.frame_node_index == 1));
    assert!(submit.iter().all(|s| s.per_instance_descriptor_set == 12));
}

#[test]
fn empty_frame_extracts_nothing() {
    let manager = GameResourceManager::new();
    let mut nodes = MeshRenderNodeSet::new();
    let prepare = MeshExtractJob::new().extract(&vec![], &mut nodes, manager.mesh_lookup(), &depth_materials(), DEPTH_MATERIAL);
    assert!(prepare.extracted_frame_node_mesh_data.is_empty());
    let writer = prepare.prepare(&vec![], 0, &vec![], &vec![]);
    assert!(writer.prepared_submit_node_mesh_data.is_empty());
}

#[test]
fn commit_of_new_version_keeps_extracted_copy() {
    let res = resources(true);
    let mut manager = GameResourceManager::new();
    manager.request_mesh_load(MESH, two_part_mesh());
    manager.request_mesh_commit(MESH);
    manager.update_resources(&res);

    let mut nodes = MeshRenderNodeSet::new();
    let handle = nodes.allocate(MeshRenderNode { mesh: MESH }).unwrap();
    let frame_nodes = vec![FrameNode { entity: 7, render_node: handle }];
    let prepare = MeshExtractJob::new().extract(&frame_nodes, &mut nodes, manager.mesh_lookup(), &depth_materials(), DEPTH_MATERIAL);

    let shared = &prepare.extracted_frame_node_mesh_data[0].as_ref().unwrap().mesh_asset.inner;
    assert!(std::sync::Arc::ptr_eq(shared, &manager.mesh(MESH).unwrap().inner));

    let mut next = two_part_mesh();
    next.mesh_parts = vec![part(0, 32, 0, 4)];
    manager.request_mesh_load(MESH, next);
    manager.request_mesh_commit(MESH);
    manager.update_resources(&res);
    assert_eq!(manager.mesh(MESH).unwrap().inner.mesh_parts.len(), 1);

    let old = prepare.extracted_frame_node_mesh_data[0].as_ref().unwrap();
    assert_eq!(old.mesh_asset.inner.mesh_parts.len(), 2);
    let writer = prepare.prepare(&vec![true], 0, &vec![0], &vec![0]);
    assert_eq!(writer.prepared_submit_node_mesh_data.len(), 2);
}

#[test]
fn prepare_is_deterministic() {
    let res = resources(true);
    let mut manager = GameResourceManager::new();
    manager.request_mesh_load(MESH, two_part_mesh());
    manager.request_mesh_commit(MESH);
    manager.update_resources(&res);
    let mut runs = Vec::new();
    for _ in 0..2 {
        let mut nodes = MeshRenderNodeSet::new();
        let a = nodes.allocate(MeshRenderNode { mesh: MESH }).unwrap();
        let b = nodes.allocate(MeshRenderNode { mesh: MESH }).unwrap();
        let frame_nodes = vec![
            FrameNode { entity: 1, render_node: b },
            FrameNode { entity: 2, render_node: a },
        ];
        let prepare = MeshExtractJob::new().extract(&frame_nodes, &mut nodes, manager.mesh_lookup(), &depth_materials(), DEPTH_MATERIAL);
        let writer = prepare.prepare(&vec![true, true], 9, &vec![1, 2], &vec![4, 4]);
        runs.push(writer.prepared_submit_node_mesh_data);
    }
    assert_eq!(runs[0], runs[1]);
    let order: Vec<(usize, usize)> =
        runs[0].iter().map(|s| (s.frame_node_index, s.mesh_part_index)).collect();
    assert_eq!(order, vec![(0, 0), (0, 1), (1, 0), (1, 1)]);
}

#[test]
fn uncommitted_material_fails_the_load() {
    let res = resources(false);
    let mut manager = GameResourceManager::new();
    manager.request_mesh_load(MESH, two_part_mesh());
    manager.request_mesh_commit(MESH);
    let outcomes = manager.update_resources(&res);
    assert_eq!(
        outcomes[0].result.as_ref().err(),
        Some(&MeshLoadError::MaterialInstanceNotCommitted { part_index: 0 })
    );
    assert!(manager.mesh(MESH).is_none());
    let metrics = manager.metrics();
    assert_eq!(metrics.game_loaded_asset_metrics.meshes.uncommitted_count, 0);
    assert_eq!(metrics.game_loaded_asset_metrics.meshes.committed_count, 0);
}

#[test]
fn load_mesh_reports_missing_buffers() {
    let res = resources(true);
    let mut data = two_part_mesh();
    data.vertex_buffer = 55;
    assert_eq!(load_mesh(&res, &data).err(), Some(MeshLoadError::MissingVertexBuffer));
    let mut data = two_part_mesh();
    data.index_buffer = 56;
    assert_eq!(load_mesh(&res, &data).err(), Some(MeshLoadError::MissingIndexBuffer));
    let mut data = two_part_mesh();
    data.mesh_parts[1].material_instance = 77;
    assert_eq!(
        load_mesh(&res, &data).err(),
        Some(MeshLoadError::MaterialInstanceNotCommitted { part_index: 1 })
    );
    let mesh = load_mesh(&res, &two_part_mesh()).unwrap();
    assert_eq!(mesh.inner.vertex_buffer, 100);
    assert_eq!(mesh.inner.index_buffer, 200);
    assert_eq!(mesh.inner.mesh_parts[1].material_pass, 300);
    assert_eq!(mesh.inner.mesh_parts[1].material_instance_descriptor_set, 400);
    assert_eq!(mesh.inner.mesh_parts[1].vertex_buffer_offset_in_bytes, 96);
}

#[test]
fn free_request_removes_mesh_and_metrics_count() {
    let res = resources(true);
    let mut manager = GameResourceManager::new();
    manager.request_mesh_load(MESH, two_part_mesh());
    manager.request_mesh_load(MESH + 1, two_part_mesh());
    manager.request_mesh_commit(MESH);
    manager.update_resources(&res);
    let metrics = manager.metrics();
    assert_eq!(metrics.game_loaded_asset_metrics.meshes.uncommitted_count, 1);
    assert_eq!(metrics.game_loaded_asset_metrics.meshes.committed_count, 1);
    manager.request_mesh_free(MESH);
    manager.update_resources(&res);
    assert!(manager.mesh(MESH).is_none());
    let metrics = manager.metrics();
    assert_eq!(metrics.game_loaded_asset_metrics.meshes.committed_count, 0);
    manager.destroy();
    assert_eq!(manager.metrics().game_loaded_asset_metrics.meshes.uncommitted_count, 0);
}

#[test]
fn writer_reports_bad_submit_nodes() {
    let res = resources(true);
    let mesh = load_mesh(&res, &two_part_mesh()).unwrap();
    let writer = MeshCommandWriter {
        extracted_frame_node_mesh_data: vec![
            None,
            Some(ExtractedFrameNodeMeshData { entity: 1, mesh_asset: mesh }),
        ],
        prepared_submit_node_mesh_data: vec![
            PreparedSubmitNodeMeshData {
                frame_node_index: 0,
                mesh_part_index: 0,
                per_view_descriptor_set: 0,
                per_instance_descriptor_set: 0,
            },
            PreparedSubmitNodeMeshData {
                frame_node_index: 1,
                mesh_part_index: 2,
                per_view_descriptor_set: 0,
                per_instance_descriptor_set: 0,
            },
            PreparedSubmitNodeMeshData {
                frame_node_index: 5,
                mesh_part_index: 0,
                per_view_descriptor_set: 0,
                per_instance_descriptor_set: 0,
            },
        ],
    };
    assert_eq!(writer.render_element(0), Err(WriteError::MissingExtractedData));
    assert_eq!(writer.render_element(1), Err(WriteError::MeshPartOutOfRange));
    assert_eq!(writer.render_element(2), Err(WriteError::MissingExtractedData));
    assert_eq!(writer.render_element(3), Err(WriteError::SubmitNodeOutOfRange));
}

fn submit(frame_node_index: usize, mesh_part_index: usize) -> PreparedSubmitNodeMeshData {
    PreparedSubmitNodeMeshData {
        frame_node_index,
        mesh_part_index,
        per_view_descriptor_set: 0,
        per_instance_descriptor_set: 0,
    }
}

#[test]
fn prepare_orders_by_sort_key() {
    let res = resources(true);
    let mut manager = GameResourceManager::new();
    manager.request_mesh_load(MESH, two_part_mesh());
    manager.request_mesh_commit(MESH);
    manager.update_resources(&res);
    let mut nodes = MeshRenderNodeSet::new();
    let a = nodes.allocate(MeshRenderNode { mesh: MESH }).unwrap();
    let frame_nodes = vec![
        FrameNode { entity: 1, render_node: a },
        FrameNode { entity: 2, render_node: a },
        FrameNode { entity: 3, render_node: a },
    ];
    let prepare = MeshExtractJob::new().extract(&frame_nodes, &mut nodes, manager.mesh_lookup(), &depth_materials(), DEPTH_MATERIAL);
    let writer = prepare.prepare(&vec![true, true, true], 0, &vec![0, 0, 0], &vec![9, 2, 9]);
    let order: Vec<(usize, usize)> = writer
        .prepared_submit_node_mesh_data
        .iter()
        .map(|s| (s.frame_node_index, s.mesh_part_index))
        .collect();
    assert_eq!(order, vec![(1, 0), (1, 1), (0, 0), (0, 1), (2, 0), (2, 1)]);
}

#[test]
fn sort_is_stable_for_equal_keys() {
    let nodes = vec![submit(2, 0), submit(0, 0), submit(1, 0), submit(0, 1), submit(2, 1)];
    let sorted = sort_submit_nodes(&nodes, &vec![3, 1, 3]);
    let order: Vec<(usize, usize)> =
        sorted.iter().map(|s| (s.frame_node_index, s.mesh_part_index)).collect();
    assert_eq!(order, vec![(1, 0), (2, 0), (0, 0), (0, 1), (2, 1)]);
    assert!(sort_submit_nodes(&vec![], &vec![]).is_empty());
}

#[test]
fn single_material_pass_only_for_one_pass() {
    assert_eq!(MaterialAsset { passes: vec![3] }.get_single_material_pass(), Some(3));
    assert_eq!(MaterialAsset { passes: vec![3, 4] }.get_single_material_pass(), None);
    assert_eq!(MaterialAsset { passes: vec![] }.get_single_material_pass(), None);
}
