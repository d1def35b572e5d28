//! Mirror of a package registry: reads the line-delimited metadata index,
//! works out which archives the local store lacks or holds corrupt, and
//! drives their verified fetch.

pub mod record;
pub mod layout;
pub mod text;
pub mod json;
pub mod digest;
pub mod index;
pub mod reconcile;
pub mod fetch;

pub use record::{Args, Crate, CrateData, RecordModel, RepoConfig};
pub use digest::{checksum_matches, digest_matches};
pub use fetch::{Dispatcher, DownloadBudget, FetchAction, FetchEvent, FetchOutcome, FetchPhase, FetchTask};
pub use index::{
    check_duplicate_version, get_crate_info, lookup_path, parse_index_file, parse_index_line,
    parse_repo_config, process_crate_definition, store_entry, walk_entry, WalkStep,
};
pub use layout::{download_url, path_to_crate};
pub use reconcile::{
    classify_stored, parse_manifest, parse_manifest_line, process_existing_crates_list,
    prune_by_manifest, verify_store, Manifest, ManifestEntry, Pruned, StoreStatus,
};
