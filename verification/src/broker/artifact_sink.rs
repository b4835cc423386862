//! Where ingested items are filed in the artifact store layout: transcript
//! entries go to the case's transcript log, video segments to per-segment
//! metadata files `<root>/cases/<case>/video/seg-NNNNNN.json`, clip assets to
//! `<root>/cases/<case>/clips/<clip>.json`. Serialising and writing the
//! files is the caller's.

use std::sync::Arc;
use vstd::prelude::*;
use crate::broker::case_registry::CaseRegistry;
use crate::proto::broker::IngestItem;
use crate::proto::id::CaseId;
use crate::text::{dec, join_path, owned, path_join, push_dec_padded, push_str, zero_pad};

verus! {

/// Where one ingested item goes.
#[derive(Debug)]
pub enum IngestTarget {
    /// Append to the case's transcript log.
    Transcript,
    /// Create `dir` and write the item's JSON to `path`.
    File { dir: String, path: String },
}

/// `<root>/cases/<case>/<sub>`.
pub open spec fn case_subdir(root: Seq<char>, case: Seq<char>, sub: Seq<char>) -> Seq<char> {
    path_join(path_join(path_join(root, "cases"@), case), sub)
}

/// File name of the metadata of the video segment with this index.
pub open spec fn segment_file_name(index: nat) -> Seq<char> {
    "seg-"@ + zero_pad(dec(index), 6) + ".json"@
}

/// Where an item is filed under `root`.
pub open spec fn target_of(root: Seq<char>, item: IngestItem) -> (bool, Seq<char>, Seq<char>) {
    match item {
        IngestItem::Transcript(_) => (true, Seq::empty(), Seq::empty()),
        IngestItem::VideoSegment(seg) => {
            let dir = case_subdir(root, seg.case_id.0@, "video"@);
            (false, dir, path_join(dir, segment_file_name(seg.index as nat)))
        },
        IngestItem::ClipAsset(asset) => {
            let dir = case_subdir(root, asset.case_id.0@, "clips"@);
            (false, dir, path_join(dir, asset.clip_id.0@ + ".json"@))
        },
    }
}

/// Routes ingested items to the artifact store layout under `root`.
pub struct ArtifactIngestSink {
    #[allow(dead_code)]
    registry: Arc<CaseRegistry>,
    root: String,
}

impl ArtifactIngestSink {
    /// The store's root directory.
    pub closed spec fn root(&self) -> Seq<char> {
        self.root@
    }

    /// A sink filing under `root`, holding the case registry.
    pub fn new(registry: Arc<CaseRegistry>, root: &str) -> (r: Self)
        ensures
            r.root() == root@,
    {
        ArtifactIngestSink { registry, root: owned(root) }
    }

    fn case_subdir(&self, case_id: &CaseId, sub: &str) -> (r: String)
        ensures
            r@ == case_subdir(self.root(), case_id.0@, sub@),
    {
        let cases = join_path(self.root.as_str(), "cases");
        let case_dir = join_path(cases.as_str(), case_id.as_str());
        join_path(case_dir.as_str(), sub)
    }

    /// Where `item` goes: the transcript log for transcript entries, a
    /// metadata file (and its directory) for video segments and clips.
    pub fn ingest_target(&self, item: &IngestItem) -> (r: IngestTarget)
        ensures
            target_of(self.root(), *item).0 <==> r is Transcript,
            r matches IngestTarget::File { dir, path } ==> dir@ == target_of(self.root(), *item).1
                && path@ == target_of(self.root(), *item).2,
    {
        match item {
            IngestItem::Transcript(_) => IngestTarget::Transcript,
            IngestItem::VideoSegment(seg) => {
                let dir = self.case_subdir(&seg.case_id, "video");
                let mut name = owned("seg-");
                push_dec_padded(&mut name, seg.index as u64, 6);
                push_str(&mut name, ".json");
                let path = join_path(dir.as_str(), name.as_str());
                IngestTarget::File { dir, path }
            },
            IngestItem::ClipAsset(asset) => {
                let dir = self.case_subdir(&asset.case_id, "clips");
                let mut name = owned(asset.clip_id.as_str());
                push_str(&mut name, ".json");
                let path = join_path(dir.as_str(), name.as_str());
                IngestTarget::File { dir, path }
            },
        }
    }
}

} // verus!
