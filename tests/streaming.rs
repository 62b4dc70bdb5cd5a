use render_pipeline::lookup::AssetLookup;
use render_pipeline::nodes::{MeshRenderNode, MeshRenderNodeSet, RenderNodeHandle};
use render_pipeline::upload::{
    complete_commit, take_completed_image, CommitError, ImageLoadHandler, ImageUploadOpResult,
    PendingLookup,
};

#[test]
fn commit_replaces_committed_value() {
    let mut lookup: AssetLookup<u32> = AssetLookup::new();
    assert!(!lookup.commit(3));
    lookup.set_uncommitted(3, 1);
    assert_eq!(lookup.get_committed(3), None);
    assert_eq!(lookup.get_latest(3), Some(&1));
    assert!(lookup.commit(3));
    assert_eq!(lookup.get_committed(3), Some(&1));
    lookup.set_uncommitted(3, 2);
    lookup.set_uncommitted(3, 5);
    assert_eq!(lookup.get_committed(3), Some(&1));
    assert_eq!(lookup.get_latest(3), Some(&5));
    assert!(lookup.commit(3));
    assert_eq!(lookup.get_committed(3), Some(&5));
    assert_eq!(lookup.uncommitted_count(), 0);
    assert_eq!(lookup.committed_count(), 1);
    lookup.free(3);
    assert_eq!(lookup.get_latest(3), None);
}

#[test]
fn bulk_commit_and_free_follow_order() {
    let mut lookup: AssetLookup<u32> = AssetLookup::new();
    lookup.set_uncommitted(1, 10);
    lookup.set_uncommitted(2, 20);
    lookup.commit_all(&vec![1, 2, 1]);
    assert_eq!(lookup.get_committed(1), Some(&10));
    assert_eq!(lookup.get_committed(2), Some(&20));
    lookup.free_all(&vec![2]);
    assert_eq!(lookup.get_committed(2), None);
    assert_eq!(lookup.committed_count(), 1);
    lookup.destroy();
    assert_eq!(lookup.committed_count(), 0);
}

#[test]
fn commit_needs_signalled_upload() {
    let image = take_completed_image(Some(ImageUploadOpResult::UploadComplete(9u32))).ok().unwrap();
    let commit = complete_commit(4, 77, image);
    assert_eq!(commit.image_update.image, 9);
    assert_eq!(commit.image_update.resource_handle, 4);
    assert_eq!(commit.image_update.asset_uuid, 77);
    assert_eq!(commit.sprite_update.image_uuid, 77);
    assert_eq!(commit.sprite_update.sprite_uuid, 77);
    assert_eq!(commit.sprite_update.resource_handle, 4);
    assert_eq!(take_completed_image::<u32>(None).err(), Some(CommitError::NotSignaled));
    assert_eq!(
        take_completed_image::<u32>(Some(ImageUploadOpResult::UploadError)).err(),
        Some(CommitError::UploadFailed)
    );
    assert_eq!(
        take_completed_image::<u32>(Some(ImageUploadOpResult::UploadDrop)).err(),
        Some(CommitError::UploadDropped)
    );
}

fn is_missing<A>(r: &PendingLookup<A>) -> bool {
    matches!(r, PendingLookup::Missing)
}

fn is_freed<A>(r: &PendingLookup<A>) -> bool {
    matches!(r, PendingLookup::Freed)
}

#[test]
fn pending_update_is_taken_once_per_version() {
    let mut handler: ImageLoadHandler<&str> = ImageLoadHandler::new();
    handler.update_asset(1, 1, 100, "first");
    handler.update_asset(1, 2, 100, "second");
    match handler.commit_asset_version(1, 2) {
        PendingLookup::Pending(taken) => {
            assert_eq!(taken.awaiter, "second");
            assert_eq!(taken.asset_uuid, 100);
        }
        _ => panic!("expected a pending update"),
    }
    assert!(is_missing(&handler.commit_asset_version(1, 2)));
    match handler.commit_asset_version(1, 1) {
        PendingLookup::Pending(taken) => assert_eq!(taken.awaiter, "first"),
        _ => panic!("expected a pending update"),
    }
    assert!(is_missing(&handler.commit_asset_version(9, 1)));
}

#[test]
fn free_drops_pending_update_and_late_commit_is_noop() {
    let mut handler: ImageLoadHandler<u8> = ImageLoadHandler::new();
    handler.update_asset(5, 3, 42, 0);
    handler.update_asset(6, 3, 43, 1);
    handler.free(5);
    assert!(is_freed(&handler.commit_asset_version(5, 3)));
    match handler.commit_asset_version(6, 3) {
        PendingLookup::Pending(taken) => assert_eq!(taken.asset_uuid, 43),
        _ => panic!("expected a pending update"),
    }
    handler.update_asset(5, 4, 42, 2);
    assert!(is_missing(&handler.commit_asset_version(5, 3)));

    let mut lookup: AssetLookup<u32> = AssetLookup::new();
    lookup.set_uncommitted(5, 1);
    lookup.free(5);
    assert!(!lookup.commit(5));
    assert_eq!(lookup.get_committed(5), None);
}

#[test]
fn freed_slot_waits_for_update() {
    let mut nodes = MeshRenderNodeSet::new();
    let a = nodes.allocate(MeshRenderNode { mesh: 1 }).unwrap();
    assert_eq!(nodes.get(a), Some(MeshRenderNode { mesh: 1 }));
    assert!(nodes.free(a));
    assert!(!nodes.free(a));
    assert_eq!(nodes.get(a), None);
    let b = nodes.allocate(MeshRenderNode { mesh: 2 }).unwrap();
    assert_ne!(b.index, a.index);
    nodes.update();
    let c = nodes.allocate(MeshRenderNode { mesh: 3 }).unwrap();
    assert_eq!(c.index, a.index);
    assert_ne!(c.generation, a.generation);
    assert_eq!(nodes.get(a), None);
    assert_eq!(nodes.get(c), Some(MeshRenderNode { mesh: 3 }));
    assert_eq!(nodes.get(RenderNodeHandle { index: 40, generation: 0 }), None);
}

#[test]
fn allocation_reuses_released_slots_last_first() {
    let mut nodes = MeshRenderNodeSet::new();
    let a = nodes.allocate(MeshRenderNode { mesh: 1 }).unwrap();
    let b = nodes.allocate(MeshRenderNode { mesh: 2 }).unwrap();
    assert_eq!((a.index, a.generation), (0, 0));
    assert_eq!((b.index, b.generation), (1, 0));
    assert!(nodes.free(a));
    assert!(nodes.free(b));
    nodes.update();
    let c = nodes.allocate(MeshRenderNode { mesh: 3 }).unwrap();
    assert_eq!((c.index, c.generation), (1, 1));
    let d = nodes.allocate(MeshRenderNode { mesh: 4 }).unwrap();
    assert_eq!((d.index, d.generation), (0, 1));
    let e = nodes.allocate(MeshRenderNode { mesh: 5 }).unwrap();
    assert_eq!((e.index, e.generation), (2, 0));
    assert_eq!(nodes.get(b), None);
    assert_eq!(nodes.get(c), Some(MeshRenderNode { mesh: 3 }));
}
