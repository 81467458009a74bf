//! The decisions of the asset service around the transcoder: which assets to
//! fetch, and how to answer for each transcode outcome.
use vstd::prelude::*;

use crate::rbxmesh_parser::TranscodeResult;

verus! {

/// The asset type number of a mesh.
pub const MESH_ASSET_TYPE: i64 = 4;

/// The query of an asset request.
#[derive(Clone, Copy, Debug, PartialEq, Eq, Structural)]
pub struct Params {
    pub id: u64,
}

/// How the service answers one request.
#[derive(Debug)]
pub enum Reply {
    /// Serve these bytes as an octet stream.
    Octets(Vec<u8>),
    /// Redirect to the original, untranscoded asset.
    RedirectToOriginal,
}

/// Whether the asset descriptor's type number names a mesh, the one kind of
/// asset worth fetching for transcoding.
pub fn is_mesh_asset(asset_type_id: Option<i64>) -> (r: bool)
    ensures
        r == (asset_type_id == Some(MESH_ASSET_TYPE)),
{
    match asset_type_id {
        Some(t) => t == MESH_ASSET_TYPE,
        None => false,
    }
}

/// Serves transcoded bytes; every other outcome redirects to the original.
pub fn reply_for(result: TranscodeResult) -> (r: Reply)
    ensures
        match result {
            TranscodeResult::Transcoded(b) => r == Reply::Octets(b),
            _ => r == Reply::RedirectToOriginal,
        },
{
    match result {
        TranscodeResult::Transcoded(b) => Reply::Octets(b),
        _ => Reply::RedirectToOriginal,
    }
}

} // verus!
