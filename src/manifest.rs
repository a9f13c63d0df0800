//! Registry documents: content descriptors, image manifests and manifest
//! indexes, and the choice of a manifest for a platform.
use vstd::prelude::*;
use vstd::string::StringExecFns;


verus! {

/// A reference to a blob by digest.
pub struct Descriptor {
    pub media_type: String,
    pub digest: String,
    pub size: usize,
    pub urls: Option<Vec<String>>,
}

/// An image manifest: the configuration blob and the layer blobs, in order.
pub struct Manifest {
    pub schema_version: u32,
    pub media_type: Option<String>,
    pub config: Descriptor,
    pub layers: Vec<Descriptor>,
    pub annotations: Option<Vec<(String, String)>>,
}

/// The registry path of a manifest or manifest index: by tag or digest.
pub fn manifest_path(name: &str, reference: &str) -> (r: String)
    ensures
        r@ == "/v2/"@ + name@ + "/manifests/"@ + reference@,
{
    String::from_str("/v2/").concat(name).concat("/manifests/").concat(reference)
}

/// The registry path of a blob (configuration or layer) by digest.
pub fn blob_path(name: &str, digest: &str) -> (r: String)
    ensures
        r@ == "/v2/"@ + name@ + "/blobs/"@ + digest@,
{
    String::from_str("/v2/").concat(name).concat("/blobs/").concat(digest)
}

} // verus!
