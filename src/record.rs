//! The data that flows through the mirror: index records, store entries and
//! the run's settings.
use vstd::prelude::*;

verus! {

/// One published version of one package, as the index describes it.
#[derive(Debug, Clone, Default)]
pub struct CrateData {
    pub name: String,
    pub vers: String,
    /// Lowercase hex SHA-256 of the archive.
    pub cksum: String,
    /// Retracted from the registry.
    pub yanked: bool,
}

/// The mathematical value of a `CrateData`.
pub struct RecordModel {
    pub name: Seq<char>,
    pub vers: Seq<char>,
    pub cksum: Seq<char>,
    pub yanked: bool,
}

impl View for CrateData {
    type V = RecordModel;

    open spec fn view(&self) -> RecordModel {
        RecordModel { name: self.name@, vers: self.vers@, cksum: self.cksum@, yanked: self.yanked }
    }
}

impl CrateData {
    /// A copy of this record, field for field.
    pub fn copied(&self) -> (r: CrateData)
        ensures
            r@ == self@,
    {
        CrateData {
            name: self.name.clone(),
            vers: self.vers.clone(),
            cksum: self.cksum.clone(),
            yanked: self.yanked,
        }
    }
}

/// The views of a sequence of records, in order.
pub open spec fn records_view(s: Seq<CrateData>) -> Seq<RecordModel> {
    s.map_values(|c: CrateData| c@)
}

/// The index's own configuration: where archives are downloaded from.
#[derive(Debug, Default)]
pub struct RepoConfig {
    /// Download location, either a base URL or a template with markers.
    pub dl: String,
}

/// A record placed in the store: where its archive lives.
#[derive(Debug, Clone, Default)]
pub struct Crate {
    pub name: String,
    pub version: String,
    pub checksum: String,
    /// Location of the archive, the store root joined with `relative_path`.
    pub file_path: String,
    /// Location of the archive below the store root.
    pub relative_path: String,
}

/// The mathematical value of a `Crate`.
pub struct CrateModel {
    pub name: Seq<char>,
    pub version: Seq<char>,
    pub checksum: Seq<char>,
    pub file_path: Seq<char>,
    pub relative_path: Seq<char>,
}

impl View for Crate {
    type V = CrateModel;

    open spec fn view(&self) -> CrateModel {
        CrateModel {
            name: self.name@,
            version: self.version@,
            checksum: self.checksum@,
            file_path: self.file_path@,
            relative_path: self.relative_path@,
        }
    }
}

impl Crate {
    /// A copy of this entry, field for field.
    pub fn copied(&self) -> (r: Crate)
        ensures
            r@ == self@,
    {
        Crate {
            name: self.name.clone(),
            version: self.version.clone(),
            checksum: self.checksum.clone(),
            file_path: self.file_path.clone(),
            relative_path: self.relative_path.clone(),
        }
    }
}

/// The views of a sequence of store entries, in order.
pub open spec fn crates_view(s: Seq<Crate>) -> Seq<CrateModel> {
    s.map_values(|c: Crate| c@)
}

/// Settings of one mirroring run.
#[derive(Debug, Clone)]
pub struct Args {
    /// Repository of the index to mirror.
    pub repository: String,
    /// Branch of the index to check out.
    pub branch: String,
    /// Most downloads per worker in this run; zero or less means no bound.
    pub limit: i32,
    /// Root of the store.
    pub location: String,
    /// Local checkout of the index.
    pub git_repository: String,
    /// Directories searched for archives before downloading, in order.
    pub search_path: Vec<String>,
    /// Manifest of archives known to be present.
    pub existing: Option<String>,
    /// Check the store's files against their checksums instead of trusting
    /// a manifest.
    pub verify: bool,
}

} // verus!
