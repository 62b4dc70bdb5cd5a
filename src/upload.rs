use crate::lookup::{commit_spec, LoadHandle};
use std::collections::{HashMap, HashSet};
use vstd::prelude::*;

verus! {

broadcast use vstd::std_specs::hash::group_hash_axioms;

/// How an upload ended, as its awaiter reports it.
pub enum ImageUploadOpResult<I> {
    UploadComplete(I),
    UploadError,
    UploadDrop,
}

/// An upload in flight for one version of one image.
pub struct PendingImageUpdate<A> {
    pub awaiter: A,
    pub asset_uuid: u128,
}

/// Tells the image resources that a new image version is live.
pub struct ImageResourceUpdate<I> {
    pub image: I,
    pub resource_handle: u64,
    pub asset_uuid: u128,
}

/// Tells the sprite resources that the image behind a sprite changed.
#[derive(Clone, Copy, PartialEq, Eq, Structural, Debug)]
pub struct SpriteResourceUpdate {
    pub image_uuid: u128,
    pub resource_handle: u64,
    pub sprite_uuid: u128,
}

/// The two notifications that committing an image version sends.
pub struct ImageCommit<I> {
    pub image_update: ImageResourceUpdate<I>,
    pub sprite_update: SpriteResourceUpdate,
}

/// A commit that broke the upload protocol.
#[derive(Clone, Copy, PartialEq, Eq, Structural, Debug)]
pub enum CommitError {
    /// The upload had not signalled when its commit came.
    NotSignaled,
    /// The upload signalled an error, yet a commit came.
    UploadFailed,
    /// The upload was dropped, yet a commit came.
    UploadDropped,
}

/// What looking up a pending update for a commit found.
pub enum PendingLookup<A> {
    /// The update, now taken out of the table.
    Pending(PendingImageUpdate<A>),
    /// No update, and the handle was freed since its last update: the
    /// commit arrived late and is to be ignored.
    Freed,
    /// No update, and the handle was not freed: the commit was never
    /// announced, or was already made, which breaks the protocol.
    Missing,
}

/// Tracks, per load handle and version, the uploads not yet committed, and
/// the handles freed since their last update.
pub struct ImageLoadHandler<A> {
    pending_updates: HashMap<LoadHandle, HashMap<u32, PendingImageUpdate<A>>>,
    freed: HashSet<LoadHandle>,
}

impl<A> ImageLoadHandler<A> {
    /// The pending updates, keyed by load handle and version.
    pub closed spec fn pending_view(&self) -> Map<(LoadHandle, u32), PendingImageUpdate<A>> {
        Map::new(
            |k: (LoadHandle, u32)|
                self.pending_updates@.contains_key(k.0) && self.pending_updates@[k.0]@.contains_key(
                    k.1,
                ),
            |k: (LoadHandle, u32)| self.pending_updates@[k.0]@[k.1],
        )
    }

    /// The handles freed and not updated since.
    pub closed spec fn freed_view(&self) -> Set<LoadHandle> {
        self.freed@
    }

    pub fn new() -> (r: Self)
        ensures
            r.pending_view() == Map::<(LoadHandle, u32), PendingImageUpdate<A>>::empty(),
            r.freed_view() == Set::<LoadHandle>::empty(),
    {
        let r = ImageLoadHandler { pending_updates: HashMap::new(), freed: HashSet::new() };
        assert(r.pending_view() =~= Map::<(LoadHandle, u32), PendingImageUpdate<A>>::empty());
        r
    }

    /// Records the upload started for `version` of `load_handle`, replacing
    /// any record of the same version.
    pub fn update_asset(
        &mut self,
        load_handle: LoadHandle,
        version: u32,
        asset_uuid: u128,
        awaiter: A,
    )
        ensures
            final(self).pending_view() == old(self).pending_view().insert(
                (load_handle, version),
                PendingImageUpdate { awaiter, asset_uuid },
            ),
            final(self).freed_view() == old(self).freed_view().remove(load_handle),
    {
        let mut versions = match self.pending_updates.remove(&load_handle) {
            Some(v) => v,
            None => HashMap::new(),
        };
        versions.insert(version, PendingImageUpdate { awaiter, asset_uuid });
        self.pending_updates.insert(load_handle, versions);
        self.freed.remove(&load_handle);
        assert(self.pending_view() =~= old(self).pending_view().insert(
            (load_handle, version),
            PendingImageUpdate { awaiter, asset_uuid },
        ));
    }

    /// Takes the record of `version` of `load_handle` out of the table, for
    /// its upload result to be committed. Without a record nothing changes,
    /// and the result says whether the handle was freed meanwhile.
    pub fn commit_asset_version(&mut self, load_handle: LoadHandle, version: u32) -> (r:
        PendingLookup<A>)
        ensures
            final(self).pending_view() == old(self).pending_view().remove((load_handle, version)),
            final(self).freed_view() == old(self).freed_view(),
            match r {
                PendingLookup::Pending(p) => {
                    &&& old(self).pending_view().contains_key((load_handle, version))
                    &&& p == old(self).pending_view()[(load_handle, version)]
                },
                PendingLookup::Freed => {
                    &&& !old(self).pending_view().contains_key((load_handle, version))
                    &&& old(self).freed_view().contains(load_handle)
                },
                PendingLookup::Missing => {
                    &&& !old(self).pending_view().contains_key((load_handle, version))
                    &&& !old(self).freed_view().contains(load_handle)
                },
            },
    {
        let taken = match self.pending_updates.remove(&load_handle) {
            Some(mut versions) => {
                let r = versions.remove(&version);
                self.pending_updates.insert(load_handle, versions);
                r
            },
            None => None,
        };
        assert(self.pending_view() =~= old(self).pending_view().remove((load_handle, version)));
        match taken {
            Some(p) => PendingLookup::Pending(p),
            None => if self.freed.contains(&load_handle) {
                PendingLookup::Freed
            } else {
                PendingLookup::Missing
            },
        }
    }

    /// Drops every pending record of `load_handle` and notes it as freed.
    /// The uploads themselves run to completion and are never committed.
    pub fn free(&mut self, load_handle: LoadHandle)
        ensures
            final(self).pending_view() == old(self).pending_view().restrict(
                old(self).pending_view().dom().filter(|k: (LoadHandle, u32)| k.0 != load_handle),
            ),
            final(self).freed_view() == old(self).freed_view().insert(load_handle),
    {
        self.pending_updates.remove(&load_handle);
        self.freed.insert(load_handle);
        assert(self.pending_view() =~= old(self).pending_view().restrict(
            old(self).pending_view().dom().filter(|k: (LoadHandle, u32)| k.0 != load_handle),
        ));
    }
}

/// What the awaiter of a pending update held at commit time (`None`:
/// nothing yet) says of the commit: the image of a completed upload, or the
/// protocol error.
pub open spec fn poll_spec<I>(polled: Option<ImageUploadOpResult<I>>) -> Result<I, CommitError> {
    match polled {
        None => Err(CommitError::NotSignaled),
        Some(ImageUploadOpResult::UploadError) => Err(CommitError::UploadFailed),
        Some(ImageUploadOpResult::UploadDrop) => Err(CommitError::UploadDropped),
        Some(ImageUploadOpResult::UploadComplete(image)) => Ok(image),
    }
}

/// Checks the polled upload result of a pending update before its commit:
/// only a completed upload yields an image to commit.
pub fn take_completed_image<I>(polled: Option<ImageUploadOpResult<I>>) -> (r: Result<
    I,
    CommitError,
>)
    ensures
        r == poll_spec(polled),
{
    match polled {
        None => Err(CommitError::NotSignaled),
        Some(ImageUploadOpResult::UploadError) => Err(CommitError::UploadFailed),
        Some(ImageUploadOpResult::UploadDrop) => Err(CommitError::UploadDropped),
        Some(ImageUploadOpResult::UploadComplete(image)) => Ok(image),
    }
}

/// The notifications that commit the uploaded `image` of a pending update.
pub fn complete_commit<I>(resource_handle: u64, asset_uuid: u128, image: I) -> (r: ImageCommit<I>)
    ensures
        r == (ImageCommit {
            image_update: ImageResourceUpdate { image, resource_handle, asset_uuid },
            sprite_update: SpriteResourceUpdate {
                image_uuid: asset_uuid,
                resource_handle,
                sprite_uuid: asset_uuid,
            },
        }),
{
    ImageCommit {
        image_update: ImageResourceUpdate { image, resource_handle, asset_uuid },
        sprite_update: SpriteResourceUpdate {
            image_uuid: asset_uuid,
            resource_handle,
            sprite_uuid: asset_uuid,
        },
    }
}

/// Freeing a load handle drops its pending updates, and a commit of one of
/// them that arrives afterwards is told apart as late: the pending table
/// stays as it is, and the asset table, freed of the handle too, gains no
/// committed value for it.
pub proof fn lemma_free_then_late_commit<A, T>(
    handler: ImageLoadHandler<A>,
    freed: ImageLoadHandler<A>,
    uncommitted: Map<LoadHandle, T>,
    committed: Map<LoadHandle, T>,
    load_handle: LoadHandle,
    version: u32,
)
    requires
        freed.pending_view() == handler.pending_view().restrict(
            handler.pending_view().dom().filter(|k: (LoadHandle, u32)| k.0 != load_handle),
        ),
        freed.freed_view() == handler.freed_view().insert(load_handle),
    ensures
        !freed.pending_view().contains_key((load_handle, version)),
        freed.freed_view().contains(load_handle),
        freed.pending_view().remove((load_handle, version)) == freed.pending_view(),
        ({
            let after = commit_spec(
                uncommitted.remove(load_handle),
                committed.remove(load_handle),
                load_handle,
            );
            &&& !after.1.contains_key(load_handle)
            &&& after == (uncommitted.remove(load_handle), committed.remove(load_handle))
        }),
{
    assert(freed.pending_view().remove((load_handle, version)) =~= freed.pending_view());
}

/// An image reaches a commit exactly when its upload signalled completion;
/// a commit that comes before any signal is reported as such.
pub proof fn lemma_commit_only_after_completion<I>(polled: Option<ImageUploadOpResult<I>>)
    ensures
        poll_spec(polled) is Ok <==> (polled is Some && polled->0 is UploadComplete),
        polled is None ==> poll_spec(polled) == Err::<I, CommitError>(CommitError::NotSignaled),
{
}

} // verus!
