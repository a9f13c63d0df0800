//! The builder's half of the store: blobs by digest and resolved images by
//! `<name>:<tag>`, with the fetch steps that read and fill them.
use vstd::prelude::*;
use vstd::string::StringSliceAdditionalSpecFns;
use vstd::utf8::encode_utf8;

use crate::digest::{digest_text, digestible, verify_digest, DigestError};
use crate::image::{
    cache_key, cache_key_of, normalize_image_name, normalized_name, LayerDownloadStatus, Unpacker,
};
use crate::manifest_index::{first_match_from, ManifestIndex, PlatformError};
use crate::image_config::strs;
use crate::manifest::{Descriptor, Manifest};
use crate::storage::lookup;
use crate::table::Table;
use crate::text::copy_bytes;

verus! {

/// A resolved image: its manifest and the blobs the manifest refers to.
pub struct ImageRecord {
    pub manifest: String,
    pub config: String,
    pub layers: Vec<String>,
}

/// Why a builder step was refused.
#[derive(Debug, PartialEq, Eq, Clone, Copy, Structural)]
pub enum BuildError {
    ContentHashMismatch,
    StorageCorruption,
}

/// The store key of a digest string.
pub open spec fn key_of(d: Seq<char>) -> Seq<u8> {
    encode_utf8(d)
}

/// Blobs by digest and resolved images by cache key.
pub struct ImageStore {
    pub blobs: Table<Vec<u8>>,
    pub images: Table<ImageRecord>,
}

pub open spec fn descriptor_digests(ds: Seq<Descriptor>) -> Seq<Seq<char>> {
    ds.map_values(|d: Descriptor| d.digest@)
}

impl ImageStore {
    pub open spec fn blob_map(&self) -> Map<Seq<u8>, Vec<u8>> {
        self.blobs.view()
    }

    pub open spec fn image_map(&self) -> Map<Seq<u8>, ImageRecord> {
        self.images.view()
    }

    pub open spec fn has_blob(&self, d: Seq<char>) -> bool {
        self.blob_map().contains_key(key_of(d))
    }

    /// Every blob of `r` is stored.
    pub open spec fn complete(&self, r: ImageRecord) -> bool {
        &&& self.has_blob(r.manifest@)
        &&& self.has_blob(r.config@)
        &&& forall|i: int| 0 <= i < r.layers@.len() ==> self.has_blob(#[trigger] r.layers@[i]@)
    }

    /// Each blob is stored under its own digest, and each image only once
    /// its manifest, configuration and layers are all stored.
    pub open spec fn wf(&self) -> bool {
        &&& self.blobs.wf()
        &&& self.images.wf()
        &&& forall|k: Seq<u8>| #[trigger]
            self.blob_map().contains_key(k) ==> k == key_of(digest_text(self.blob_map()[k]@))
        &&& forall|k: Seq<u8>| #[trigger]
            self.image_map().contains_key(k) ==> self.complete(self.image_map()[k])
    }

    pub fn new() -> (r: ImageStore)
        ensures
            r.wf(),
            r.blob_map() == Map::<Seq<u8>, Vec<u8>>::empty(),
            r.image_map() == Map::<Seq<u8>, ImageRecord>::empty(),
    {
        ImageStore { blobs: Table::new(), images: Table::new() }
    }

    /// Whether the blob `digest` is stored.
    pub fn contains_blob(&self, digest: &str) -> (r: bool)
        requires
            self.wf(),
        ensures
            r == self.has_blob(digest@),
    {
        self.blobs.contains(digest.as_bytes())
    }

    /// The stored blob `digest`.
    pub fn get(&self, digest: &str) -> (r: Option<&Vec<u8>>)
        requires
            self.wf(),
        ensures
            match r {
                Some(v) => self.has_blob(digest@) && self.blob_map()[key_of(digest@)] == *v,
                None => !self.has_blob(digest@),
            },
    {
        match self.blobs.get(digest.as_bytes()) {
            Some(v) => Some(v),
            None => None,
        }
    }

    /// Stores a fetched blob under the digest it was requested by, once the
    /// body is checked against it; a mismatching body is not stored.
    pub fn put_blob(&mut self, digest: &str, body: Vec<u8>) -> (r: Result<(), BuildError>)
        requires
            old(self).wf(),
            digestible(body@),
        ensures
            final(self).wf(),
            final(self).image_map() == old(self).image_map(),
            digest@ == digest_text(body@) ==> r is Ok && final(self).blob_map() == old(
                self,
            ).blob_map().insert(key_of(digest@), body),
            digest@ != digest_text(body@) ==> r == Err::<(), BuildError>(
                BuildError::ContentHashMismatch,
            ) && final(self).blob_map() == old(self).blob_map(),
    {
        match verify_digest(digest, body.as_slice()) {
            Ok(()) => {},
            Err(_) => return Err(BuildError::ContentHashMismatch),
        }
        let ghost pre = self.blob_map();
        let k = copy_bytes(digest.as_bytes());
        self.blobs.insert(k.as_slice(), body);
        assert forall|k2: Seq<u8>| #[trigger] self.image_map().contains_key(k2) implies self.complete(
            self.image_map()[k2],
        ) by {
            let r = self.image_map()[k2];
            assert(old(self).image_map().contains_key(k2));
            assert(old(self).complete(r));
            assert forall|i: int| 0 <= i < r.layers@.len() implies self.has_blob(#[trigger] r.layers@[i]@) by {
                assert(old(self).has_blob(r.layers@[i]@));
            }
        }
        Ok(())
    }

    /// The manifest digest an image was resolved to, if it is cached.
    pub fn cached_image(&self, key: &str) -> (r: Option<String>)
        requires
            self.wf(),
        ensures
            match lookup(self.image_map(), key_of(key@)) {
                Some(x) => r matches Some(d) && d@ == x.manifest@,
                None => r is None,
            },
    {
        match self.images.get(key.as_bytes()) {
            Some(x) => Some(x.manifest.clone()),
            None => None,
        }
    }

    /// Whether every layer of `manifest` is stored.
    pub fn layers_cached(&self, manifest: &Manifest) -> (r: bool)
        requires
            self.wf(),
        ensures
            r == forall|i: int|
                0 <= i < manifest.layers@.len() ==> self.has_blob(
                    #[trigger] manifest.layers@[i].digest@,
                ),
    {
        let mut i: usize = 0;
        while i < manifest.layers.len()
            invariant
                self.wf(),
                i <= manifest.layers@.len(),
                forall|j: int| 0 <= j < i ==> self.has_blob(#[trigger] manifest.layers@[j].digest@),
            decreases manifest.layers@.len() - i,
        {
            if !self.contains_blob(manifest.layers[i].digest.as_str()) {
                return false;
            }
            i = i + 1;
        }
        true
    }

    /// Remembers that `key` resolves to the manifest `manifest_digest`;
    /// refused unless the manifest, its configuration and every layer are
    /// stored.
    pub fn record_image(&mut self, key: &str, manifest_digest: &str, manifest: &Manifest) -> (r: Result<
        (),
        BuildError,
    >)
        requires
            old(self).wf(),
        ensures
            final(self).wf(),
            final(self).blob_map() == old(self).blob_map(),
            ({
                let ok = old(self).has_blob(manifest_digest@) && old(self).has_blob(
                    manifest.config.digest@,
                ) && forall|i: int|
                    0 <= i < manifest.layers@.len() ==> old(self).has_blob(
                        #[trigger] manifest.layers@[i].digest@,
                    );
                &&& ok ==> r is Ok && final(self).image_map().contains_key(key_of(key@))
                    && final(self).image_map()[key_of(key@)].manifest@ == manifest_digest@
                    && final(self).image_map()[key_of(key@)].config@ == manifest.config.digest@
                    && strs(final(self).image_map()[key_of(key@)].layers@) == descriptor_digests(
                    manifest.layers@,
                ) && final(self).image_map().remove(key_of(key@)) == old(self).image_map().remove(
                    key_of(key@),
                )
                &&& !ok ==> r == Err::<(), BuildError>(BuildError::StorageCorruption) && *final(self)
                    == *old(self)
            }),
    {
        if !self.contains_blob(manifest_digest) || !self.contains_blob(manifest.config.digest.as_str())
            || !self.layers_cached(manifest) {
            return Err(BuildError::StorageCorruption);
        }
        let mut layers: Vec<String> = Vec::new();
        let mut i: usize = 0;
        while i < manifest.layers.len()
            invariant
                i <= manifest.layers@.len(),
                strs(layers@) == descriptor_digests(manifest.layers@).take(i as int),
            decreases manifest.layers@.len() - i,
        {
            let d = manifest.layers[i].digest.clone();
            let ghost o = layers@;
            layers.push(d);
            assert(strs(layers@) =~= strs(o).push(manifest.layers@[i as int].digest@));
            assert(descriptor_digests(manifest.layers@).take(i as int + 1) =~= descriptor_digests(
                manifest.layers@,
            ).take(i as int).push(manifest.layers@[i as int].digest@));
            i = i + 1;
        }
        assert(descriptor_digests(manifest.layers@).take(i as int) =~= descriptor_digests(
            manifest.layers@,
        ));
        let rec = ImageRecord {
            manifest: String::from_str(manifest_digest),
            config: manifest.config.digest.clone(),
            layers,
        };
        assert(self.complete(rec)) by {
            assert forall|j: int| 0 <= j < rec.layers@.len() implies self.has_blob(#[trigger] rec.layers@[j]@) by {
                assert(strs(rec.layers@)[j] == rec.layers@[j]@);
                assert(descriptor_digests(manifest.layers@)[j] == manifest.layers@[j].digest@);
            }
        }
        let k = copy_bytes(key.as_bytes());
        self.images.insert(k.as_slice(), rec);
        assert(self.image_map().remove(key_of(key@)) =~= old(self).image_map().remove(key_of(key@)));
        Ok(())
    }

    /// The first step of fetching `image:tag`: the cached manifest digest if
    /// the image was resolved before, else the repository name and cache
    /// key to resolve it under. The store is not touched.
    pub fn begin_fetch(&self, image: &str, tag: &str) -> (r: FetchStep)
        requires
            self.wf(),
        ensures
            ({
                let key = cache_key_of(normalized_name(image@), tag@);
                match lookup(self.image_map(), key_of(key)) {
                    Some(x) => r matches FetchStep::Cached(d) && d@ == x.manifest@,
                    None => r matches FetchStep::Resolve(n, k) && n@ == normalized_name(image@)
                        && k@ == key,
                }
            }),
    {
        let name = normalize_image_name(image);
        let key = cache_key(name.as_str(), tag);
        match self.cached_image(key.as_str()) {
            Some(d) => FetchStep::Cached(d),
            None => FetchStep::Resolve(name, key),
        }
    }
}

/// What fetching an image starts with.
pub enum FetchStep {
    /// The image was resolved before: its manifest digest.
    Cached(String),
    /// The repository name and the cache key to resolve the image under.
    Resolve(String, String),
}

/// The last update for `layer`: `Cached` when it was stored already,
/// else the completed download `(digest, size, size)`.
pub open spec fn final_update(u: LayerDownloadStatus, layer: Descriptor, cached: bool) -> bool {
    if cached {
        u matches LayerDownloadStatus::Cached(d) && d@ == layer.digest@
    } else {
        u matches LayerDownloadStatus::InProgress(d, got, total) && d@ == layer.digest@ && got
            == layer.size && total == layer.size
    }
}

/// Fetches images for one architecture and a set of operating systems.
pub struct Fetcher {
    architecture: String,
    os: Vec<String>,
}

impl Fetcher {
    pub closed spec fn spec_architecture(&self) -> Seq<char> {
        self.architecture@
    }

    pub closed spec fn spec_os(&self) -> Seq<Seq<char>> {
        strs(self.os@)
    }

    pub fn new(architecture: String, os: Vec<String>) -> (r: Fetcher)
        ensures
            r.spec_architecture() == architecture@,
            r.spec_os() == strs(os@),
    {
        Fetcher { architecture, os }
    }

    /// The manifest of `index` to fetch: the first built for the fetcher's
    /// architecture and one of its systems.
    pub fn resolve_manifest_digest(&self, index: &ManifestIndex) -> (r: Result<String, PlatformError>)
        ensures
            match first_match_from(index.manifests@, self.spec_architecture(), self.spec_os(), 0) {
                Some(i) => r matches Ok(d) && d@ == index.manifests@[i].descriptor.digest@,
                None => r == Err::<String, PlatformError>(PlatformError::NoMatchingPlatform),
            },
    {
        index.resolve_manifest_digest(&self.architecture, &self.os)
    }

    /// The update for a layer that is stored already; `None` when the layer
    /// has to be downloaded.
    pub fn cached_layer(&self, store: &ImageStore, layer: &Descriptor) -> (r: Option<
        LayerDownloadStatus,
    >)
        requires
            store.wf(),
        ensures
            store.has_blob(layer.digest@) ==> (r matches Some(LayerDownloadStatus::Cached(d)) && d@
                == layer.digest@),
            !store.has_blob(layer.digest@) ==> r is None,
    {
        if store.contains_blob(layer.digest.as_str()) {
            Some(LayerDownloadStatus::Cached(layer.digest.clone()))
        } else {
            None
        }
    }

    /// The last update a fetch sends for each layer of `manifest`, in
    /// manifest order, when every download completes: `Cached` for a layer
    /// stored already, `InProgress(digest, size, size)` for one downloaded.
    pub fn final_updates(&self, store: &ImageStore, manifest: &Manifest) -> (r: Vec<
        LayerDownloadStatus,
    >)
        requires
            store.wf(),
        ensures
            r@.len() == manifest.layers@.len(),
            forall|i: int|
                0 <= i < r@.len() ==> final_update(
                    #[trigger] r@[i],
                    manifest.layers@[i],
                    store.has_blob(manifest.layers@[i].digest@),
                ),
    {
        let mut out: Vec<LayerDownloadStatus> = Vec::new();
        let mut i: usize = 0;
        while i < manifest.layers.len()
            invariant
                store.wf(),
                i <= manifest.layers@.len(),
                out@.len() == i,
                forall|j: int|
                    0 <= j < i ==> final_update(
                        #[trigger] out@[j],
                        manifest.layers@[j],
                        store.has_blob(manifest.layers@[j].digest@),
                    ),
            decreases manifest.layers@.len() - i,
        {
            let layer = &manifest.layers[i];
            let u = match self.cached_layer(store, layer) {
                Some(c) => c,
                None => self.progress(layer, layer.size),
            };
            out.push(u);
            i = i + 1;
        }
        out
    }

    /// The update after `received` bytes of a layer of `size` bytes; the
    /// last one of a download reads `(digest, size, size)`.
    pub fn progress(&self, layer: &Descriptor, received: usize) -> (r: LayerDownloadStatus)
        ensures
            r matches LayerDownloadStatus::InProgress(d, got, total) && d@ == layer.digest@ && got
                == received && total == layer.size,
            r.is_complete_spec() <==> received == layer.size,
    {
        LayerDownloadStatus::InProgress(layer.digest.clone(), received, layer.size)
    }
}

impl Unpacker {
    /// The layers to extract for the image whose manifest `manifest` is
    /// stored as `manifest_digest`, in manifest order; refused when the
    /// manifest or a layer is missing from the store.
    pub fn unpack(&self, store: &ImageStore, manifest_digest: &str, manifest: &Manifest) -> (r: Result<
        Vec<String>,
        BuildError,
    >)
        requires
            store.wf(),
        ensures
            ({
                let ok = store.has_blob(manifest_digest@) && forall|i: int|
                    0 <= i < manifest.layers@.len() ==> store.has_blob(
                        #[trigger] manifest.layers@[i].digest@,
                    );
                &&& ok ==> (r matches Ok(v) && strs(v@) == descriptor_digests(manifest.layers@))
                &&& !ok ==> r == Err::<Vec<String>, BuildError>(BuildError::StorageCorruption)
            }),
    {
        if !store.contains_blob(manifest_digest) || !store.layers_cached(manifest) {
            return Err(BuildError::StorageCorruption);
        }
        let mut layers: Vec<String> = Vec::new();
        let mut i: usize = 0;
        while i < manifest.layers.len()
            invariant
                i <= manifest.layers@.len(),
                strs(layers@) == descriptor_digests(manifest.layers@).take(i as int),
            decreases manifest.layers@.len() - i,
        {
            let d = manifest.layers[i].digest.clone();
            let ghost o = layers@;
            layers.push(d);
            assert(strs(layers@) =~= strs(o).push(manifest.layers@[i as int].digest@));
            assert(descriptor_digests(manifest.layers@).take(i as int + 1) =~= descriptor_digests(
                manifest.layers@,
            ).take(i as int).push(manifest.layers@[i as int].digest@));
            i = i + 1;
        }
        assert(descriptor_digests(manifest.layers@).take(i as int) =~= descriptor_digests(
            manifest.layers@,
        ));
        Ok(layers)
    }
}

/// A blob stored under a digest is the blob that digest names.
pub proof fn lemma_blob_matches_digest(store: ImageStore, k: Seq<u8>)
    requires
        store.wf(),
        store.blob_map().contains_key(k),
    ensures
        k == key_of(digest_text(store.blob_map()[k]@)),
{
}

/// An image that is cached has its manifest, configuration and every layer
/// stored.
pub proof fn lemma_cached_image_complete(store: ImageStore, k: Seq<u8>)
    requires
        store.wf(),
        store.image_map().contains_key(k),
    ensures
        store.has_blob(store.image_map()[k].manifest@),
        store.has_blob(store.image_map()[k].config@),
        forall|i: int|
            0 <= i < store.image_map()[k].layers@.len() ==> store.has_blob(
                #[trigger] store.image_map()[k].layers@[i]@,
            ),
{
}

} // verus!
