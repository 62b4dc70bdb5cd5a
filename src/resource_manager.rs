use crate::assets::{
    BufferAsset, MaterialInstanceAsset, MeshAsset, MeshAssetData, MeshAssetPart, MeshAssetView,
    MeshPartData,
};
use crate::lookup::{
    commit_all_spec, free_all_spec, latest_spec, AssetLookup, LoadHandle,
};
use vstd::prelude::*;

verus! {

/// A request to build the mesh of `load_handle` from raw data.
pub struct MeshLoadRequest {
    pub load_handle: LoadHandle,
    pub asset: MeshAssetData,
}

/// How one load request ended. On success the mesh is also stored as
/// uncommitted; this copy is for whoever waits on the load.
pub struct MeshLoadOutcome {
    pub load_handle: LoadHandle,
    pub result: Result<MeshAsset, MeshLoadError>,
}

/// Why a mesh could not be built.
#[derive(Clone, Copy, PartialEq, Eq, Structural, Debug)]
pub enum MeshLoadError {
    /// The vertex buffer has not been loaded.
    MissingVertexBuffer,
    /// The index buffer has not been loaded.
    MissingIndexBuffer,
    /// The material instance of this part has not been committed.
    MaterialInstanceNotCommitted { part_index: usize },
}

/// The render assets meshes depend on.
pub struct RenderAssetLookupSet {
    pub buffers: AssetLookup<BufferAsset>,
    pub material_instances: AssetLookup<MaterialInstanceAsset>,
}

/// Pending requests for one asset type, drained once per update.
pub struct LoadQueues {
    pub load_requests: Vec<MeshLoadRequest>,
    pub commit_requests: Vec<LoadHandle>,
    pub free_requests: Vec<LoadHandle>,
}

pub struct GameLoadQueueSet {
    pub meshes: LoadQueues,
}

pub struct GameLoadedAssetLookupSet {
    pub meshes: AssetLookup<MeshAsset>,
}

/// How many assets of one type are waiting for a commit, and how many are
/// committed.
#[derive(Clone, Copy, PartialEq, Eq, Structural, Debug)]
pub struct LoadedAssetMetrics {
    pub uncommitted_count: usize,
    pub committed_count: usize,
}

#[derive(Clone, Copy, PartialEq, Eq, Structural, Debug)]
pub struct GameLoadedAssetMetrics {
    pub meshes: LoadedAssetMetrics,
}

#[derive(Clone, Copy, PartialEq, Eq, Structural, Debug)]
pub struct GameResourceManagerMetrics {
    pub game_loaded_asset_metrics: GameLoadedAssetMetrics,
}

/// A table of meshes, as plain values.
pub open spec fn mesh_views(m: Map<LoadHandle, MeshAsset>) -> Map<LoadHandle, MeshAssetView> {
    m.map_values(|a: MeshAsset| a@)
}

/// Part `p` with its committed material instance `m`.
pub open spec fn resolve_part(p: MeshPartData, m: MaterialInstanceAsset) -> MeshAssetPart {
    MeshAssetPart {
        material_pass: m.material_pass,
        material_instance_descriptor_set: m.descriptor_set,
        vertex_buffer_offset_in_bytes: p.vertex_buffer_offset_in_bytes,
        vertex_buffer_size_in_bytes: p.vertex_buffer_size_in_bytes,
        index_buffer_offset_in_bytes: p.index_buffer_offset_in_bytes,
        index_buffer_size_in_bytes: p.index_buffer_size_in_bytes,
    }
}

/// The parts with their material instances resolved, or the index of the
/// first part whose material instance is not committed.
pub open spec fn resolve_parts_spec(
    parts: Seq<MeshPartData>,
    materials: Map<LoadHandle, MaterialInstanceAsset>,
) -> Result<Seq<MeshAssetPart>, usize>
    decreases parts.len(),
{
    if parts.len() == 0 {
        Ok(Seq::empty())
    } else {
        match resolve_parts_spec(parts.drop_last(), materials) {
            Err(i) => Err(i),
            Ok(s) => if materials.contains_key(parts.last().material_instance) {
                Ok(s.push(resolve_part(parts.last(), materials[parts.last().material_instance])))
            } else {
                Err((parts.len() - 1) as usize)
            },
        }
    }
}

/// The mesh that `data` builds against the render assets: both buffers in
/// their newest version, every part with its committed material instance.
pub open spec fn load_mesh_spec(
    resources: RenderAssetLookupSet,
    data: MeshAssetData,
) -> Result<MeshAssetView, MeshLoadError> {
    let buffers = resources.buffers;
    match latest_spec(buffers.uncommitted_view(), buffers.committed_view(), data.vertex_buffer) {
        None => Err(MeshLoadError::MissingVertexBuffer),
        Some(vb) => match latest_spec(
            buffers.uncommitted_view(),
            buffers.committed_view(),
            data.index_buffer,
        ) {
            None => Err(MeshLoadError::MissingIndexBuffer),
            Some(ib) => match resolve_parts_spec(
                data.mesh_parts@,
                resources.material_instances.committed_view(),
            ) {
                Err(i) => Err(MeshLoadError::MaterialInstanceNotCommitted { part_index: i }),
                Ok(parts) => Ok(
                    MeshAssetView {
                        vertex_buffer: vb.buffer,
                        index_buffer: ib.buffer,
                        mesh_parts: parts,
                    },
                ),
            },
        },
    }
}

/// The uncommitted meshes after serving the load requests `reqs` in turn.
pub open spec fn load_all_spec(
    unc: Map<LoadHandle, MeshAssetView>,
    resources: RenderAssetLookupSet,
    reqs: Seq<MeshLoadRequest>,
) -> Map<LoadHandle, MeshAssetView>
    decreases reqs.len(),
{
    if reqs.len() == 0 {
        unc
    } else {
        let prev = load_all_spec(unc, resources, reqs.drop_last());
        match load_mesh_spec(resources, reqs.last().asset) {
            Ok(v) => prev.insert(reqs.last().load_handle, v),
            Err(_) => prev,
        }
    }
}

/// Whether `o` reports the load of `req`.
pub open spec fn outcome_of(
    o: MeshLoadOutcome,
    req: MeshLoadRequest,
    resources: RenderAssetLookupSet,
) -> bool {
    &&& o.load_handle == req.load_handle
    &&& match (o.result, load_mesh_spec(resources, req.asset)) {
        (Ok(a), Ok(v)) => a@ == v,
        (Err(e), Err(s)) => e == s,
        _ => false,
    }
}

/// Committing commutes with looking at the meshes as plain values.
pub proof fn lemma_mesh_views_commit_all(
    unc: Map<LoadHandle, MeshAsset>,
    com: Map<LoadHandle, MeshAsset>,
    hs: Seq<LoadHandle>,
)
    ensures
        ({
            let r = commit_all_spec(unc, com, hs);
            (mesh_views(r.0), mesh_views(r.1)) == commit_all_spec(
                mesh_views(unc),
                mesh_views(com),
                hs,
            )
        }),
    decreases hs.len(),
{
    if hs.len() > 0 {
        lemma_mesh_views_commit_all(unc, com, hs.drop_last());
        let p = commit_all_spec(unc, com, hs.drop_last());
        let h = hs.last();
        if p.0.contains_key(h) {
            assert(mesh_views(p.0.remove(h)) =~= mesh_views(p.0).remove(h));
            assert(mesh_views(p.1.insert(h, p.0[h])) =~= mesh_views(p.1).insert(h, p.0[h]@));
        }
    }
}

/// Freeing commutes with looking at the meshes as plain values.
pub proof fn lemma_mesh_views_free_all(
    unc: Map<LoadHandle, MeshAsset>,
    com: Map<LoadHandle, MeshAsset>,
    hs: Seq<LoadHandle>,
)
    ensures
        ({
            let r = free_all_spec(unc, com, hs);
            (mesh_views(r.0), mesh_views(r.1)) == free_all_spec(
                mesh_views(unc),
                mesh_views(com),
                hs,
            )
        }),
    decreases hs.len(),
{
    if hs.len() > 0 {
        lemma_mesh_views_free_all(unc, com, hs.drop_last());
        let p = free_all_spec(unc, com, hs.drop_last());
        let h = hs.last();
        assert(mesh_views(p.0.remove(h)) =~= mesh_views(p.0).remove(h));
        assert(mesh_views(p.1.remove(h)) =~= mesh_views(p.1).remove(h));
    }
}

impl LoadQueues {
    pub fn new() -> (r: Self)
        ensures
            r.load_requests@.len() == 0,
            r.commit_requests@.len() == 0,
            r.free_requests@.len() == 0,
    {
        LoadQueues { load_requests: Vec::new(), commit_requests: Vec::new(), free_requests: Vec::new() }
    }

    /// Drains the queued load requests, oldest first.
    pub fn take_load_requests(&mut self) -> (r: Vec<MeshLoadRequest>)
        ensures
            r@ == old(self).load_requests@,
            final(self).load_requests@.len() == 0,
            final(self).commit_requests@ == old(self).commit_requests@,
            final(self).free_requests@ == old(self).free_requests@,
    {
        let mut r = Vec::new();
        std::mem::swap(&mut r, &mut self.load_requests);
        r
    }

    /// Drains the queued commit requests, oldest first.
    pub fn take_commit_requests(&mut self) -> (r: Vec<LoadHandle>)
        ensures
            r@ == old(self).commit_requests@,
            final(self).commit_requests@.len() == 0,
            final(self).load_requests@ == old(self).load_requests@,
            final(self).free_requests@ == old(self).free_requests@,
    {
        let mut r = Vec::new();
        std::mem::swap(&mut r, &mut self.commit_requests);
        r
    }

    /// Drains the queued free requests, oldest first.
    pub fn take_free_requests(&mut self) -> (r: Vec<LoadHandle>)
        ensures
            r@ == old(self).free_requests@,
            final(self).free_requests@.len() == 0,
            final(self).load_requests@ == old(self).load_requests@,
            final(self).commit_requests@ == old(self).commit_requests@,
    {
        let mut r = Vec::new();
        std::mem::swap(&mut r, &mut self.free_requests);
        r
    }
}

/// Resolves each part's material instance against the committed ones.
pub fn resolve_parts(
    parts: &Vec<MeshPartData>,
    materials: &AssetLookup<MaterialInstanceAsset>,
) -> (r: Result<Vec<MeshAssetPart>, usize>)
    ensures
        match (r, resolve_parts_spec(parts@, materials.committed_view())) {
            (Ok(v), Ok(s)) => v@ == s,
            (Err(i), Err(j)) => i == j,
            _ => false,
        },
{
    let mut out: Vec<MeshAssetPart> = Vec::with_capacity(parts.len());
    let mut i: usize = 0;
    while i < parts.len()
        invariant
            i <= parts@.len(),
            resolve_parts_spec(parts@.subrange(0, i as int), materials.committed_view()) == Ok::<
                Seq<MeshAssetPart>,
                usize,
            >(out@),
        decreases parts@.len() - i,
    {
        let p = parts[i];
        assert(parts@.subrange(0, i + 1).drop_last() =~= parts@.subrange(0, i as int));
        match materials.get_committed(p.material_instance) {
            Some(m) => {
                out.push(
                    MeshAssetPart {
                        material_pass: m.material_pass,
                        material_instance_descriptor_set: m.descriptor_set,
                        vertex_buffer_offset_in_bytes: p.vertex_buffer_offset_in_bytes,
                        vertex_buffer_size_in_bytes: p.vertex_buffer_size_in_bytes,
                        index_buffer_offset_in_bytes: p.index_buffer_offset_in_bytes,
                        index_buffer_size_in_bytes: p.index_buffer_size_in_bytes,
                    },
                );
            },
            None => {
                proof {
                    lemma_resolve_parts_err_extends(parts@, materials.committed_view(), i as int);
                    assert(parts@.subrange(0, parts@.len() as int) =~= parts@);
                }
                return Err(i);
            },
        }
        i = i + 1;
    }
    assert(parts@.subrange(0, i as int) =~= parts@);
    Ok(out)
}

/// Once a prefix fails at its last part, every longer prefix fails there.
proof fn lemma_resolve_parts_err_extends(
    parts: Seq<MeshPartData>,
    materials: Map<LoadHandle, MaterialInstanceAsset>,
    i: int,
)
    requires
        0 <= i < parts.len(),
        resolve_parts_spec(parts.subrange(0, i), materials) is Ok,
        !materials.contains_key(parts[i].material_instance),
    ensures
        forall|n: int|
            i < n <= parts.len() ==> #[trigger] resolve_parts_spec(parts.subrange(0, n), materials)
                == Err::<Seq<MeshAssetPart>, usize>(i as usize),
    decreases parts.len() - i,
{
    assert forall|n: int| i < n <= parts.len() implies #[trigger] resolve_parts_spec(
        parts.subrange(0, n),
        materials,
    ) == Err::<Seq<MeshAssetPart>, usize>(i as usize) by {
        lemma_resolve_prefix(parts, materials, i, n);
    }
}

proof fn lemma_resolve_prefix(
    parts: Seq<MeshPartData>,
    materials: Map<LoadHandle, MaterialInstanceAsset>,
    i: int,
    n: int,
)
    requires
        0 <= i < n <= parts.len(),
        resolve_parts_spec(parts.subrange(0, i), materials) is Ok,
        !materials.contains_key(parts[i].material_instance),
    ensures
        resolve_parts_spec(parts.subrange(0, n), materials) == Err::<Seq<MeshAssetPart>, usize>(
            i as usize,
        ),
    decreases n,
{
    assert(parts.subrange(0, n).drop_last() =~= parts.subrange(0, n - 1));
    if n > i + 1 {
        lemma_resolve_prefix(parts, materials, i, n - 1);
    }
}

/// Builds the mesh that `data` describes against the render assets.
pub fn load_mesh(resources: &RenderAssetLookupSet, data: &MeshAssetData) -> (r: Result<
    MeshAsset,
    MeshLoadError,
>)
    ensures
        match (r, load_mesh_spec(*resources, *data)) {
            (Ok(a), Ok(v)) => a@ == v,
            (Err(e), Err(s)) => e == s,
            _ => false,
        },
{
    let vertex_buffer = match resources.buffers.get_latest(data.vertex_buffer) {
        Some(b) => b.buffer,
        None => return Err(MeshLoadError::MissingVertexBuffer),
    };
    let index_buffer = match resources.buffers.get_latest(data.index_buffer) {
        Some(b) => b.buffer,
        None => return Err(MeshLoadError::MissingIndexBuffer),
    };
    match resolve_parts(&data.mesh_parts, &resources.material_instances) {
        Err(i) => Err(MeshLoadError::MaterialInstanceNotCommitted { part_index: i }),
        Ok(mesh_parts) => Ok(MeshAsset::new(vertex_buffer, index_buffer, mesh_parts)),
    }
}

/// Stores a successfully loaded mesh as uncommitted and hands back a copy
/// for whoever waits on the load; a failed load changes nothing.
pub fn handle_load_result(
    load_handle: LoadHandle,
    loaded_asset: Result<MeshAsset, MeshLoadError>,
    asset_lookup: &mut AssetLookup<MeshAsset>,
) -> (r: MeshLoadOutcome)
    ensures
        r.load_handle == load_handle,
        match (r.result, loaded_asset) {
            (Ok(a), Ok(b)) => a@ == b@,
            (Err(e), Err(f)) => e == f,
            _ => false,
        },
        final(asset_lookup).committed_view() == old(asset_lookup).committed_view(),
        mesh_views(final(asset_lookup).uncommitted_view()) == match loaded_asset {
            Ok(b) => mesh_views(old(asset_lookup).uncommitted_view()).insert(load_handle, b@),
            Err(_) => mesh_views(old(asset_lookup).uncommitted_view()),
        },
{
    match loaded_asset {
        Ok(asset) => {
            let copy = asset.share();
            asset_lookup.set_uncommitted(load_handle, asset);
            assert(mesh_views(asset_lookup.uncommitted_view()) =~= mesh_views(
                old(asset_lookup).uncommitted_view(),
            ).insert(load_handle, copy@));
            MeshLoadOutcome { load_handle, result: Ok(copy) }
        },
        Err(e) => MeshLoadOutcome { load_handle, result: Err(e) },
    }
}

/// Keeps the game's meshes: the requests queued for them and the table
/// that loads and commits fill.
pub struct GameResourceManager {
    loaded_assets: GameLoadedAssetLookupSet,
    load_queues: GameLoadQueueSet,
}

impl GameResourceManager {
    /// The mesh table.
    pub closed spec fn mesh_table(&self) -> AssetLookup<MeshAsset> {
        self.loaded_assets.meshes
    }

    /// The queued mesh requests.
    pub closed spec fn mesh_queues(&self) -> LoadQueues {
        self.load_queues.meshes
    }

    pub fn new() -> (r: Self)
        ensures
            r.mesh_table().uncommitted_view() == Map::<LoadHandle, MeshAsset>::empty(),
            r.mesh_table().committed_view() == Map::<LoadHandle, MeshAsset>::empty(),
            r.mesh_queues().load_requests@.len() == 0,
            r.mesh_queues().commit_requests@.len() == 0,
            r.mesh_queues().free_requests@.len() == 0,
    {
        GameResourceManager {
            loaded_assets: GameLoadedAssetLookupSet { meshes: AssetLookup::new() },
            load_queues: GameLoadQueueSet { meshes: LoadQueues::new() },
        }
    }

    /// Queues a load of `asset` for `load_handle`.
    pub fn request_mesh_load(&mut self, load_handle: LoadHandle, asset: MeshAssetData)
        ensures
            final(self).mesh_queues().load_requests@ == old(self).mesh_queues().load_requests@.push(
                MeshLoadRequest { load_handle, asset },
            ),
            final(self).mesh_queues().commit_requests@ == old(self).mesh_queues().commit_requests@,
            final(self).mesh_queues().free_requests@ == old(self).mesh_queues().free_requests@,
            final(self).mesh_table() == old(self).mesh_table(),
    {
        self.load_queues.meshes.load_requests.push(MeshLoadRequest { load_handle, asset });
    }

    /// Queues a commit of the mesh of `load_handle`.
    pub fn request_mesh_commit(&mut self, load_handle: LoadHandle)
        ensures
            final(self).mesh_queues().commit_requests@ == old(
                self,
            ).mesh_queues().commit_requests@.push(load_handle),
            final(self).mesh_queues().load_requests@ == old(self).mesh_queues().load_requests@,
            final(self).mesh_queues().free_requests@ == old(self).mesh_queues().free_requests@,
            final(self).mesh_table() == old(self).mesh_table(),
    {
        self.load_queues.meshes.commit_requests.push(load_handle);
    }

    /// Queues the removal of the mesh of `load_handle`.
    pub fn request_mesh_free(&mut self, load_handle: LoadHandle)
        ensures
            final(self).mesh_queues().free_requests@ == old(self).mesh_queues().free_requests@.push(
                load_handle,
            ),
            final(self).mesh_queues().load_requests@ == old(self).mesh_queues().load_requests@,
            final(self).mesh_queues().commit_requests@ == old(self).mesh_queues().commit_requests@,
            final(self).mesh_table() == old(self).mesh_table(),
    {
        self.load_queues.meshes.free_requests.push(load_handle);
    }

    /// The mesh table, for extraction to read.
    pub fn mesh_lookup(&self) -> (r: &AssetLookup<MeshAsset>)
        ensures
            *r == self.mesh_table(),
    {
        &self.loaded_assets.meshes
    }

    /// The committed mesh of `load_handle`.
    pub fn mesh(&self, load_handle: LoadHandle) -> (r: Option<&MeshAsset>)
        ensures
            r.is_some() == self.mesh_table().committed_view().contains_key(load_handle),
            r.is_some() ==> *r.unwrap() == self.mesh_table().committed_view()[load_handle],
    {
        self.loaded_assets.meshes.get_committed(load_handle)
    }

    /// Handles the queued mesh requests; see `process_mesh_load_requests`.
    pub fn update_resources(&mut self, resources: &RenderAssetLookupSet) -> (r: Vec<
        MeshLoadOutcome,
    >)
        ensures
            Self::processed(*old(self), *final(self), *resources, r@),
    {
        self.process_mesh_load_requests(resources)
    }

    /// Whether `after` and `outcomes` are what processing the queues of
    /// `before` yields: every load served in order, then every commit, then
    /// every free; the queues end empty.
    pub open spec fn processed(
        before: Self,
        after: Self,
        resources: RenderAssetLookupSet,
        outcomes: Seq<MeshLoadOutcome>,
    ) -> bool {
        let reqs = before.mesh_queues().load_requests@;
        let loaded = load_all_spec(
            mesh_views(before.mesh_table().uncommitted_view()),
            resources,
            reqs,
        );
        let committed = commit_all_spec(
            loaded,
            mesh_views(before.mesh_table().committed_view()),
            before.mesh_queues().commit_requests@,
        );
        let freed = free_all_spec(committed.0, committed.1, before.mesh_queues().free_requests@);
        &&& outcomes.len() == reqs.len()
        &&& forall|i: int|
            0 <= i < reqs.len() ==> outcome_of(#[trigger] outcomes[i], reqs[i], resources)
        &&& mesh_views(after.mesh_table().uncommitted_view()) == freed.0
        &&& mesh_views(after.mesh_table().committed_view()) == freed.1
        &&& after.mesh_queues().load_requests@.len() == 0
        &&& after.mesh_queues().commit_requests@.len() == 0
        &&& after.mesh_queues().free_requests@.len() == 0
    }

    /// Serves the queued load requests in order, then the commit requests,
    /// then the free requests. Returns the outcome of each load.
    fn process_mesh_load_requests(&mut self, resources: &RenderAssetLookupSet) -> (r: Vec<
        MeshLoadOutcome,
    >)
        ensures
            Self::processed(*old(self), *final(self), *resources, r@),
    {
        let reqs = self.load_queues.meshes.take_load_requests();
        let mut outcomes: Vec<MeshLoadOutcome> = Vec::with_capacity(reqs.len());
        let mut i: usize = 0;
        while i < reqs.len()
            invariant
                i <= reqs@.len(),
                reqs@ == old(self).mesh_queues().load_requests@,
                self.mesh_queues().load_requests@.len() == 0,
                self.mesh_queues().commit_requests@ == old(self).mesh_queues().commit_requests@,
                self.mesh_queues().free_requests@ == old(self).mesh_queues().free_requests@,
                self.mesh_table().committed_view() == old(self).mesh_table().committed_view(),
                mesh_views(self.mesh_table().uncommitted_view()) == load_all_spec(
                    mesh_views(old(self).mesh_table().uncommitted_view()),
                    *resources,
                    reqs@.subrange(0, i as int),
                ),
                outcomes@.len() == i,
                forall|k: int|
                    0 <= k < i ==> outcome_of(#[trigger] outcomes@[k], reqs@[k], *resources),
            decreases reqs@.len() - i,
        {
            let request = &reqs[i];
            let loaded = load_mesh(resources, &request.asset);
            let outcome = handle_load_result(
                request.load_handle,
                loaded,
                &mut self.loaded_assets.meshes,
            );
            outcomes.push(outcome);
            assert(reqs@.subrange(0, i + 1).drop_last() =~= reqs@.subrange(0, i as int));
            i = i + 1;
        }
        assert(reqs@.subrange(0, i as int) =~= reqs@);
        let ghost mid = self.mesh_table();
        let commits = self.load_queues.meshes.take_commit_requests();
        self.loaded_assets.meshes.commit_all(&commits);
        let ghost mid2 = self.mesh_table();
        let frees = self.load_queues.meshes.take_free_requests();
        self.loaded_assets.meshes.free_all(&frees);
        proof {
            lemma_mesh_views_commit_all(mid.uncommitted_view(), mid.committed_view(), commits@);
            lemma_mesh_views_free_all(mid2.uncommitted_view(), mid2.committed_view(), frees@);
        }
        outcomes
    }

    /// Counts of the meshes waiting for a commit and of those committed.
    pub fn metrics(&self) -> (r: GameResourceManagerMetrics)
        ensures
            r.game_loaded_asset_metrics.meshes.uncommitted_count
                == self.mesh_table().uncommitted_view().dom().len(),
            r.game_loaded_asset_metrics.meshes.committed_count
                == self.mesh_table().committed_view().dom().len(),
    {
        let meshes = LoadedAssetMetrics {
            uncommitted_count: self.loaded_assets.meshes.uncommitted_count(),
            committed_count: self.loaded_assets.meshes.committed_count(),
        };
        GameResourceManagerMetrics { game_loaded_asset_metrics: GameLoadedAssetMetrics { meshes } }
    }

    /// Drops every loaded mesh. Meshes still held elsewhere stay valid.
    pub fn destroy(&mut self)
        ensures
            final(self).mesh_table().uncommitted_view() == Map::<LoadHandle, MeshAsset>::empty(),
            final(self).mesh_table().committed_view() == Map::<LoadHandle, MeshAsset>::empty(),
            final(self).mesh_queues() == old(self).mesh_queues(),
    {
        self.loaded_assets.meshes.destroy();
    }
}

} // verus!
