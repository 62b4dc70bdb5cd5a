use crate::extract::ExtractedFrameNodeMeshData;
use crate::write::MeshCommandWriter;
use vstd::prelude::*;

verus! {

/// One draw call: the extracted frame node and the mesh part it draws, and
/// the per-view and per-instance descriptor sets bound for it.
#[derive(Clone, Copy, PartialEq, Eq, Structural, Debug)]
pub struct PreparedSubmitNodeMeshData {
    pub frame_node_index: usize,
    pub mesh_part_index: usize,
    pub per_view_descriptor_set: u64,
    pub per_instance_descriptor_set: u64,
}

/// The submit nodes of frame node `i`: one per mesh part, in part order, when
/// the node is visible and was extracted; none otherwise.
pub open spec fn submit_nodes_of(
    extracted: Seq<Option<ExtractedFrameNodeMeshData>>,
    visible: Seq<bool>,
    per_view_descriptor_set: u64,
    per_instance_descriptor_sets: Seq<u64>,
    i: int,
) -> Seq<PreparedSubmitNodeMeshData> {
    if visible[i] && extracted[i] is Some {
        Seq::new(
            extracted[i]->0.mesh_asset@.mesh_parts.len(),
            |p: int|
                PreparedSubmitNodeMeshData {
                    frame_node_index: i as usize,
                    mesh_part_index: p as usize,
                    per_view_descriptor_set,
                    per_instance_descriptor_set: per_instance_descriptor_sets[i],
                },
        )
    } else {
        Seq::empty()
    }
}

/// The submit nodes of the first `n` frame nodes, ordered by frame node
/// index, then by mesh part index.
pub open spec fn submit_nodes(
    extracted: Seq<Option<ExtractedFrameNodeMeshData>>,
    visible: Seq<bool>,
    per_view_descriptor_set: u64,
    per_instance_descriptor_sets: Seq<u64>,
    n: int,
) -> Seq<PreparedSubmitNodeMeshData>
    decreases n,
{
    if n <= 0 {
        Seq::empty()
    } else {
        submit_nodes(extracted, visible, per_view_descriptor_set, per_instance_descriptor_sets, n - 1)
            + submit_nodes_of(
            extracted,
            visible,
            per_view_descriptor_set,
            per_instance_descriptor_sets,
            n - 1,
        )
    }
}

/// The submit nodes of all frame nodes, sorted stably by the sort key of
/// their frame node.
pub open spec fn prepared_nodes(
    extracted: Seq<Option<ExtractedFrameNodeMeshData>>,
    visible: Seq<bool>,
    per_view_descriptor_set: u64,
    per_instance_descriptor_sets: Seq<u64>,
    sort_keys: Seq<u64>,
) -> Seq<PreparedSubmitNodeMeshData> {
    stable_sort_spec(
        submit_nodes(
            extracted,
            visible,
            per_view_descriptor_set,
            per_instance_descriptor_sets,
            extracted.len() as int,
        ),
        sort_keys,
    )
}

/// The extracted snapshot of one frame, waiting to be prepared.
pub struct MeshPrepareJob {
    /// The pass that draws meshes into the depth prepass.
    pub depth_material_pass: u64,
    pub extracted_frame_node_mesh_data: Vec<Option<ExtractedFrameNodeMeshData>>,
}

impl MeshPrepareJob {
    /// Builds the submit nodes for one view: for each visible extracted frame
    /// node, one per mesh part, then sorts them stably by the sort key of
    /// their frame node. `visible`, `per_instance_descriptor_sets` and
    /// `sort_keys` are indexed like the extracted data.
    pub fn prepare(
        self,
        visible: &Vec<bool>,
        per_view_descriptor_set: u64,
        per_instance_descriptor_sets: &Vec<u64>,
        sort_keys: &Vec<u64>,
    ) -> (r: MeshCommandWriter)
        requires
            visible@.len() == self.extracted_frame_node_mesh_data@.len(),
            per_instance_descriptor_sets@.len() == self.extracted_frame_node_mesh_data@.len(),
            sort_keys@.len() == self.extracted_frame_node_mesh_data@.len(),
        ensures
            r.extracted_frame_node_mesh_data@ == self.extracted_frame_node_mesh_data@,
            r.prepared_submit_node_mesh_data@ == prepared_nodes(
                self.extracted_frame_node_mesh_data@,
                visible@,
                per_view_descriptor_set,
                per_instance_descriptor_sets@,
                sort_keys@,
            ),
    {
        let unsorted = prepare_submit_nodes(
            &self.extracted_frame_node_mesh_data,
            visible,
            per_view_descriptor_set,
            per_instance_descriptor_sets,
        );
        let prepared = sort_submit_nodes(&unsorted, sort_keys);
        MeshCommandWriter {
            extracted_frame_node_mesh_data: self.extracted_frame_node_mesh_data,
            prepared_submit_node_mesh_data: prepared,
        }
    }
}

/// The submit nodes of all frame nodes, in order.
pub fn prepare_submit_nodes(
    extracted: &Vec<Option<ExtractedFrameNodeMeshData>>,
    visible: &Vec<bool>,
    per_view_descriptor_set: u64,
    per_instance_descriptor_sets: &Vec<u64>,
) -> (r: Vec<PreparedSubmitNodeMeshData>)
    requires
        visible@.len() == extracted@.len(),
        per_instance_descriptor_sets@.len() == extracted@.len(),
    ensures
        r@ == submit_nodes(
            extracted@,
            visible@,
            per_view_descriptor_set,
            per_instance_descriptor_sets@,
            extracted@.len() as int,
        ),
        forall|j: int| 0 <= j < r@.len() ==> (#[trigger] r@[j]).frame_node_index < extracted@.len(),
{
    let mut r: Vec<PreparedSubmitNodeMeshData> = Vec::new();
    let mut i: usize = 0;
    while i < extracted.len()
        invariant
            i <= extracted@.len(),
            visible@.len() == extracted@.len(),
            per_instance_descriptor_sets@.len() == extracted@.len(),
            r@ == submit_nodes(
                extracted@,
                visible@,
                per_view_descriptor_set,
                per_instance_descriptor_sets@,
                i as int,
            ),
            forall|j: int| 0 <= j < r@.len() ==> (#[trigger] r@[j]).frame_node_index < i,
        decreases extracted@.len() - i,
    {
        let ghost before = r@;
        if visible[i] {
            match &extracted[i] {
                Some(e) => {
                    let n = e.mesh_asset.inner.mesh_parts.len();
                    let mut p: usize = 0;
                    while p < n
                        invariant
                            i < extracted@.len(),
                            per_instance_descriptor_sets@.len() == extracted@.len(),
                            extracted@[i as int] is Some,
                            n == extracted@[i as int]->0.mesh_asset@.mesh_parts.len(),
                            p <= n,
                            r@ == before + submit_nodes_of(
                                extracted@,
                                visible@,
                                per_view_descriptor_set,
                                per_instance_descriptor_sets@,
                                i as int,
                            ).subrange(0, p as int),
                            visible@[i as int],
                            forall|j: int|
                                0 <= j < r@.len() ==> (#[trigger] r@[j]).frame_node_index <= i,
                        decreases n - p,
                    {
                        r.push(
                            PreparedSubmitNodeMeshData {
                                frame_node_index: i,
                                mesh_part_index: p,
                                per_view_descriptor_set,
                                per_instance_descriptor_set: per_instance_descriptor_sets[i],
                            },
                        );
                        p = p + 1;
                        assert(r@ =~= before + submit_nodes_of(
                            extracted@,
                            visible@,
                            per_view_descriptor_set,
                            per_instance_descriptor_sets@,
                            i as int,
                        ).subrange(0, p as int));
                    }
                    assert(submit_nodes_of(
                        extracted@,
                        visible@,
                        per_view_descriptor_set,
                        per_instance_descriptor_sets@,
                        i as int,
                    ).subrange(0, p as int) =~= submit_nodes_of(
                        extracted@,
                        visible@,
                        per_view_descriptor_set,
                        per_instance_descriptor_sets@,
                        i as int,
                    ));
                },
                None => {
                    assert(r@ =~= before + Seq::<PreparedSubmitNodeMeshData>::empty());
                },
            }
        } else {
            assert(r@ =~= before + Seq::<PreparedSubmitNodeMeshData>::empty());
        }
        i = i + 1;
    }
    r
}

/// Every submit node points at a visible frame node that was extracted and
/// at one of its mesh parts, and the nodes come in strictly increasing order
/// of frame node index, then mesh part index. So a hole in the extracted data
/// never gets a submit node.
pub proof fn lemma_submit_nodes_shape(
    extracted: Seq<Option<ExtractedFrameNodeMeshData>>,
    visible: Seq<bool>,
    per_view_descriptor_set: u64,
    per_instance_descriptor_sets: Seq<u64>,
    n: int,
)
    requires
        0 <= n <= extracted.len(),
        n <= usize::MAX,
        visible.len() == extracted.len(),
        per_instance_descriptor_sets.len() == extracted.len(),
        forall|i: int|
            0 <= i < extracted.len() && #[trigger] extracted[i] is Some
                ==> extracted[i]->0.mesh_asset@.mesh_parts.len() <= usize::MAX,
    ensures
        ({
            let s = submit_nodes(
                extracted,
                visible,
                per_view_descriptor_set,
                per_instance_descriptor_sets,
                n,
            );
            &&& forall|j: int|
                0 <= j < s.len() ==> {
                    let f = (#[trigger] s[j]).frame_node_index as int;
                    &&& f < n
                    &&& visible[f]
                    &&& extracted[f] is Some
                    &&& s[j].mesh_part_index < extracted[f]->0.mesh_asset@.mesh_parts.len()
                    &&& s[j].per_view_descriptor_set == per_view_descriptor_set
                    &&& s[j].per_instance_descriptor_set == per_instance_descriptor_sets[f]
                }
            &&& forall|j1: int, j2: int|
                0 <= j1 < j2 < s.len() ==> {
                    ||| (#[trigger] s[j1]).frame_node_index < (#[trigger] s[j2]).frame_node_index
                    ||| (s[j1].frame_node_index == s[j2].frame_node_index
                        && s[j1].mesh_part_index < s[j2].mesh_part_index)
                }
        }),
    decreases n,
{
    if n > 0 {
        lemma_submit_nodes_shape(
            extracted,
            visible,
            per_view_descriptor_set,
            per_instance_descriptor_sets,
            n - 1,
        );
        let prev = submit_nodes(
            extracted,
            visible,
            per_view_descriptor_set,
            per_instance_descriptor_sets,
            n - 1,
        );
        let last = submit_nodes_of(
            extracted,
            visible,
            per_view_descriptor_set,
            per_instance_descriptor_sets,
            n - 1,
        );
        let s = prev + last;
        assert forall|j: int| 0 <= j < s.len() implies {
            let f = (#[trigger] s[j]).frame_node_index as int;
            &&& f < n
            &&& visible[f]
            &&& extracted[f] is Some
            &&& s[j].mesh_part_index < extracted[f]->0.mesh_asset@.mesh_parts.len()
            &&& s[j].per_view_descriptor_set == per_view_descriptor_set
            &&& s[j].per_instance_descriptor_set == per_instance_descriptor_sets[f]
        } by {
            if j < prev.len() {
                assert(s[j] == prev[j]);
            } else {
                assert(s[j] == last[j - prev.len()]);
            }
        }
        assert forall|j1: int, j2: int| 0 <= j1 < j2 < s.len() implies {
            ||| (#[trigger] s[j1]).frame_node_index < (#[trigger] s[j2]).frame_node_index
            ||| (s[j1].frame_node_index == s[j2].frame_node_index && s[j1].mesh_part_index
                < s[j2].mesh_part_index)
        } by {
            if j2 < prev.len() {
                assert(s[j1] == prev[j1]);
                assert(s[j2] == prev[j2]);
            } else if j1 < prev.len() {
                assert(s[j1] == prev[j1]);
                assert(s[j2] == last[j2 - prev.len()]);
                assert(last[j2 - prev.len()].frame_node_index == (n - 1) as usize);
            } else {
                assert(s[j1] == last[j1 - prev.len()]);
                assert(s[j2] == last[j2 - prev.len()]);
                assert(last[j1 - prev.len()].mesh_part_index == (j1 - prev.len()) as usize);
                assert(last[j2 - prev.len()].mesh_part_index == (j2 - prev.len()) as usize);
            }
        }
    }
}

/// The submit nodes Prepare yields come in ascending order of sort key,
/// and are exactly the nodes of the visible extracted entries, each once.
/// The order is fixed by the inputs alone: equal inputs give it again.
pub proof fn lemma_prepare_ordered(
    extracted: Seq<Option<ExtractedFrameNodeMeshData>>,
    visible: Seq<bool>,
    per_view_descriptor_set: u64,
    per_instance_descriptor_sets: Seq<u64>,
    sort_keys: Seq<u64>,
)
    ensures
        ({
            let u = submit_nodes(
                extracted,
                visible,
                per_view_descriptor_set,
                per_instance_descriptor_sets,
                extracted.len() as int,
            );
            let r = prepared_nodes(
                extracted,
                visible,
                per_view_descriptor_set,
                per_instance_descriptor_sets,
                sort_keys,
            );
            &&& r.to_multiset() == u.to_multiset()
            &&& forall|i: int, j: int|
                0 <= i < j < r.len() ==> node_key(#[trigger] r[i], sort_keys) <= node_key(
                    #[trigger] r[j],
                    sort_keys,
                )
        }),
{
    lemma_stable_sort_sorted(
        submit_nodes(
            extracted,
            visible,
            per_view_descriptor_set,
            per_instance_descriptor_sets,
            extracted.len() as int,
        ),
        sort_keys,
    );
}

/// The sort key of submit node `n`: the key of its frame node.
pub open spec fn node_key(n: PreparedSubmitNodeMeshData, sort_keys: Seq<u64>) -> u64 {
    sort_keys[n.frame_node_index as int]
}

/// Where a node with key `k` goes into `s`: after every node up to the
/// first one whose key is greater than `k`.
pub open spec fn insert_position(
    s: Seq<PreparedSubmitNodeMeshData>,
    k: u64,
    sort_keys: Seq<u64>,
) -> int
    decreases s.len(),
{
    if s.len() == 0 {
        0
    } else if node_key(s[0], sort_keys) > k {
        0
    } else {
        1 + insert_position(s.drop_first(), k, sort_keys)
    }
}

/// `s` sorted by key, nodes with equal keys keeping their order in `s`.
pub open spec fn stable_sort_spec(
    s: Seq<PreparedSubmitNodeMeshData>,
    sort_keys: Seq<u64>,
) -> Seq<PreparedSubmitNodeMeshData>
    decreases s.len(),
{
    if s.len() == 0 {
        s
    } else {
        let prev = stable_sort_spec(s.drop_last(), sort_keys);
        prev.insert(insert_position(prev, node_key(s.last(), sort_keys), sort_keys), s.last())
    }
}

proof fn lemma_insert_position(s: Seq<PreparedSubmitNodeMeshData>, k: u64, sort_keys: Seq<u64>)
    ensures
        0 <= insert_position(s, k, sort_keys) <= s.len(),
        forall|i: int|
            0 <= i < insert_position(s, k, sort_keys) ==> node_key(#[trigger] s[i], sort_keys)
                <= k,
        insert_position(s, k, sort_keys) < s.len() ==> node_key(
            s[insert_position(s, k, sort_keys)],
            sort_keys,
        ) > k,
    decreases s.len(),
{
    if s.len() > 0 && node_key(s[0], sort_keys) <= k {
        lemma_insert_position(s.drop_first(), k, sort_keys);
        assert forall|i: int| 0 <= i < insert_position(s, k, sort_keys) implies node_key(
            #[trigger] s[i],
            sort_keys,
        ) <= k by {
            if i > 0 {
                assert(s[i] == s.drop_first()[i - 1]);
            }
        }
    }
}

/// The stable sort orders the nodes by key and holds exactly the nodes of
/// its input, each as often as the input does.
pub proof fn lemma_stable_sort_sorted(s: Seq<PreparedSubmitNodeMeshData>, sort_keys: Seq<u64>)
    ensures
        ({
            let r = stable_sort_spec(s, sort_keys);
            &&& r.len() == s.len()
            &&& forall|i: int, j: int|
                0 <= i < j < r.len() ==> node_key(#[trigger] r[i], sort_keys) <= node_key(
                    #[trigger] r[j],
                    sort_keys,
                )
            &&& forall|j: int| 0 <= j < r.len() ==> s.contains(#[trigger] r[j])
            &&& r.to_multiset() == s.to_multiset()
        }),
    decreases s.len(),
{
    if s.len() > 0 {
        let prev = stable_sort_spec(s.drop_last(), sort_keys);
        lemma_stable_sort_sorted(s.drop_last(), sort_keys);
        let x = s.last();
        let k = node_key(x, sort_keys);
        lemma_insert_position(prev, k, sort_keys);
        let q = insert_position(prev, k, sort_keys);
        let r = prev.insert(q, x);
        vstd::seq_lib::to_multiset_insert(prev, q, x);
        vstd::seq_lib::to_multiset_build(s.drop_last(), x);
        assert(s.drop_last().push(x) =~= s);
        assert forall|i: int, j: int| 0 <= i < j < r.len() implies node_key(
            #[trigger] r[i],
            sort_keys,
        ) <= node_key(#[trigger] r[j], sort_keys) by {
            if j < q {
                assert(r[i] == prev[i] && r[j] == prev[j]);
            } else if j == q {
                assert(r[i] == prev[i]);
            } else if i < q {
                assert(r[i] == prev[i] && r[j] == prev[j - 1]);
            } else if i == q {
                assert(r[j] == prev[j - 1]);
                if q < prev.len() {
                    assert(node_key(prev[q], sort_keys) <= node_key(prev[j - 1], sort_keys)
                        || q == j - 1);
                }
            } else {
                assert(r[i] == prev[i - 1] && r[j] == prev[j - 1]);
            }
        }
        assert forall|j: int| 0 <= j < r.len() implies s.contains(#[trigger] r[j]) by {
            if j == q {
                assert(s[s.len() - 1] == x);
            } else {
                let jj = if j < q { j } else { j - 1 };
                assert(r[j] == prev[jj]);
                assert(s.drop_last().contains(prev[jj]));
                let w = choose|w: int| 0 <= w < s.drop_last().len() && s.drop_last()[w] == prev[jj];
                assert(s[w] == prev[jj]);
            }
        }
    }
}

/// The sort is stable: the nodes of any one key come out in the order they
/// went in.
pub proof fn lemma_stable_sort_stable(
    s: Seq<PreparedSubmitNodeMeshData>,
    sort_keys: Seq<u64>,
    c: u64,
)
    ensures
        stable_sort_spec(s, sort_keys).filter(
            |n: PreparedSubmitNodeMeshData| node_key(n, sort_keys) == c,
        ) == s.filter(|n: PreparedSubmitNodeMeshData| node_key(n, sort_keys) == c),
    decreases s.len(),
{
    let pred = |n: PreparedSubmitNodeMeshData| node_key(n, sort_keys) == c;
    reveal(Seq::filter);
    if s.len() > 0 {
        lemma_stable_sort_stable(s.drop_last(), sort_keys, c);
        lemma_stable_sort_sorted(s.drop_last(), sort_keys);
        let prev = stable_sort_spec(s.drop_last(), sort_keys);
        let x = s.last();
        let k = node_key(x, sort_keys);
        lemma_insert_position(prev, k, sort_keys);
        let q = insert_position(prev, k, sort_keys);
        let a = prev.subrange(0, q);
        let b = prev.subrange(q, prev.len() as int);
        let one = seq![x];
        assert(prev.insert(q, x) =~= a + one + b);
        assert(prev =~= a + b);
        Seq::filter_distributes_over_add(a + one, b, pred);
        Seq::filter_distributes_over_add(a, one, pred);
        Seq::filter_distributes_over_add(a, b, pred);
        assert(one.drop_last() =~= Seq::<PreparedSubmitNodeMeshData>::empty());
        assert(Seq::<PreparedSubmitNodeMeshData>::empty().filter(pred).len() == 0);
        if k == c {
            assert forall|i: int| 0 <= i < b.len() implies !pred(#[trigger] b[i]) by {
                assert(b[i] == prev[q + i]);
                if i > 0 {
                    assert(node_key(prev[q], sort_keys) <= node_key(prev[q + i], sort_keys));
                }
            }
            b.lemma_all_neg_filter_empty(pred);
            assert(b.filter(pred) =~= Seq::<PreparedSubmitNodeMeshData>::empty());
            assert(one.filter(pred) =~= seq![x]);
            assert(prev.filter(pred) =~= a.filter(pred));
            assert(stable_sort_spec(s, sort_keys).filter(pred) =~= a.filter(pred) + seq![x]);
        } else {
            assert(one.filter(pred) =~= Seq::<PreparedSubmitNodeMeshData>::empty());
            assert(stable_sort_spec(s, sort_keys).filter(pred) =~= a.filter(pred) + b.filter(
                pred,
            ));
        }
    }
}

/// Sorts submit nodes by the key of their frame node, keeping the order of
/// nodes with equal keys, so equal inputs always give the same order.
pub fn sort_submit_nodes(nodes: &Vec<PreparedSubmitNodeMeshData>, sort_keys: &Vec<u64>) -> (r: Vec<
    PreparedSubmitNodeMeshData,
>)
    requires
        forall|i: int|
            0 <= i < nodes@.len() ==> (#[trigger] nodes@[i]).frame_node_index < sort_keys@.len(),
    ensures
        r@ == stable_sort_spec(nodes@, sort_keys@),
{
    let mut r: Vec<PreparedSubmitNodeMeshData> = Vec::with_capacity(nodes.len());
    let mut i: usize = 0;
    while i < nodes.len()
        invariant
            i <= nodes@.len(),
            forall|j: int|
                0 <= j < nodes@.len() ==> (#[trigger] nodes@[j]).frame_node_index
                    < sort_keys@.len(),
            r@ == stable_sort_spec(nodes@.subrange(0, i as int), sort_keys@),
            forall|j: int| 0 <= j < r@.len() ==> nodes@.contains(#[trigger] r@[j]),
        decreases nodes@.len() - i,
    {
        let x = nodes[i];
        let k = sort_keys[x.frame_node_index];
        let ghost before = r@;
        let mut p: usize = 0;
        assert(r@.subrange(0, r@.len() as int) =~= r@);
        while p < r.len() && sort_keys[r[p].frame_node_index] <= k
            invariant
                p <= r@.len(),
                r@ == before,
                forall|j: int|
                    0 <= j < nodes@.len() ==> (#[trigger] nodes@[j]).frame_node_index
                        < sort_keys@.len(),
                forall|j: int| 0 <= j < r@.len() ==> nodes@.contains(#[trigger] r@[j]),
                insert_position(r@, k, sort_keys@) == p + insert_position(
                    r@.subrange(p as int, r@.len() as int),
                    k,
                    sort_keys@,
                ),
            decreases r@.len() - p,
        {
            assert(r@.subrange(p as int, r@.len() as int).drop_first() =~= r@.subrange(
                p + 1,
                r@.len() as int,
            ));
            p = p + 1;
        }
        proof {
            if p < r@.len() {
                assert(r@.subrange(p as int, r@.len() as int)[0] == r@[p as int]);
            }
        }
        assert(nodes@.subrange(0, i + 1).drop_last() =~= nodes@.subrange(0, i as int));
        assert(nodes@.subrange(0, i + 1).last() == x);
        r.insert(p, x);
        assert forall|j: int| 0 <= j < r@.len() implies nodes@.contains(#[trigger] r@[j]) by {
            if j < p {
                assert(r@[j] == before[j]);
            } else if j > p {
                assert(r@[j] == before[j - 1]);
            } else {
                assert(nodes@[i as int] == x);
            }
        }
        i = i + 1;
    }
    assert(nodes@.subrange(0, i as int) =~= nodes@);
    r
}

} // verus!
