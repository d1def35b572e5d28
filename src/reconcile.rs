//! Dropping records that the store already holds: by a manifest of known
//! checksums, or by what is on disk.
use vstd::prelude::*;
use vstd::hash_map::StringHashMap;
use vstd::string::*;
use vstd::seq_lib::lemma_seq_contains_after_push;
use crate::digest::{checksum_accepts, checksum_matches};
use crate::record::{crates_view, records_view, Crate, CrateData, CrateModel, RecordModel};
use crate::text::{split_lines, text_lines};

verus! {

/// Width of a checksum in a manifest line.
pub const CHECKSUM_WIDTH: usize = 64;

/// Blank space between a manifest line's checksum and its path.
pub open spec fn is_blank(c: char) -> bool {
    c == ' ' || c == '\t'
}

/// `s` without its leading blanks.
pub open spec fn trim_blanks(s: Seq<char>) -> Seq<char>
    decreases s.len(),
{
    if s.len() > 0 && is_blank(s[0]) {
        trim_blanks(s.skip(1))
    } else {
        s
    }
}

/// Where the last component of a `/`-separated path starts.
pub open spec fn name_start(s: Seq<char>) -> nat
    decreases s.len(),
{
    if s.len() == 0 {
        0
    } else if s.last() == '/' {
        s.len()
    } else {
        name_start(s.drop_last())
    }
}

/// The last component of a `/`-separated path.
pub open spec fn file_name(s: Seq<char>) -> Seq<char> {
    s.skip(name_start(s) as int)
}

/// The checksum and file name that a manifest line lists, if it is long
/// enough to hold a checksum.
pub open spec fn manifest_line(line: Seq<char>) -> Option<(Seq<char>, Seq<char>)> {
    if line.len() < CHECKSUM_WIDTH {
        None
    } else {
        Some(
            (
                line.take(CHECKSUM_WIDTH as int),
                file_name(trim_blanks(line.skip(CHECKSUM_WIDTH as int))),
            ),
        )
    }
}

/// The map from checksum to file name that manifest lines give; a later line
/// overrides an earlier one with the same checksum.
pub open spec fn manifest_map(lines: Seq<Seq<char>>) -> Map<Seq<char>, Seq<char>>
    decreases lines.len(),
{
    if lines.len() == 0 {
        Map::empty()
    } else {
        let m = manifest_map(lines.drop_last());
        match manifest_line(lines.last()) {
            Some((c, f)) => m.insert(c, f),
            None => m,
        }
    }
}

/// One line of a manifest: an archive known to be present.
pub struct ManifestEntry {
    pub checksum: String,
    pub filename: String,
}

/// Archives known to be present, by checksum.
pub struct Manifest {
    entries: StringHashMap<String>,
}

impl View for Manifest {
    type V = Map<Seq<char>, Seq<char>>;

    closed spec fn view(&self) -> Map<Seq<char>, Seq<char>> {
        self.entries@.map_values(|f: String| f@)
    }
}

/// Offset of the first non-blank character of `s` at or after `from`.
fn skip_blanks(s: &str, from: usize) -> (r: usize)
    requires
        from <= s@.len(),
    ensures
        from <= r <= s@.len(),
        trim_blanks(s@.skip(from as int)) == s@.skip(r as int),
{
    let n = s.unicode_len();
    let mut i = from;
    while i < n && (s.get_char(i) == ' ' || s.get_char(i) == '\t')
        invariant
            n == s@.len(),
            from <= i <= n,
            trim_blanks(s@.skip(from as int)) == trim_blanks(s@.skip(i as int)),
        decreases n - i,
    {
        assert(s@.skip(i as int).skip(1) =~= s@.skip(i + 1));
        i = i + 1;
    }
    proof {
        lemma_trimmed_at(s@, i as int);
    }
    i
}

proof fn lemma_trimmed_at(s: Seq<char>, i: int)
    requires
        0 <= i <= s.len(),
        i < s.len() ==> !is_blank(s[i]),
    ensures
        trim_blanks(s.skip(i)) == s.skip(i),
{
    if i < s.len() {
        assert(s.skip(i)[0] == s[i]);
    }
}

/// The entry that one manifest line lists, if it is long enough to hold a
/// checksum.
pub fn parse_manifest_line(line: &str) -> (r: Option<ManifestEntry>)
    ensures
        match r {
            Some(e) => manifest_line(line@) == Some((e.checksum@, e.filename@)),
            None => manifest_line(line@) is None,
        },
{
    let n = line.unicode_len();
    if n < CHECKSUM_WIDTH {
        return None;
    }
    let checksum = String::from_str(line.substring_char(0, CHECKSUM_WIDTH));
    let start = skip_blanks(line, CHECKSUM_WIDTH);
    let ghost path = line@.skip(start as int);
    let mut j = n;
    assert(path.take(n - start) =~= path);
    while j > start && line.get_char(j - 1) != '/'
        invariant
            n == line@.len(),
            start <= j <= n,
            path == line@.skip(start as int),
            name_start(path) == name_start(path.take(j - start)),
        decreases j,
    {
        assert(path.take(j - start).drop_last() =~= path.take(j - 1 - start));
        assert(path.take(j - start).last() == line@[j - 1]);
        j = j - 1;
    }
    assert(path.take(j - start).len() == j - start);
    if j > start {
        assert(path.take(j - start).last() == line@[j - 1]);
    }
    let filename = String::from_str(line.substring_char(j, n));
    assert(filename@ =~= file_name(path));
    assert(checksum@ =~= line@.take(CHECKSUM_WIDTH as int));
    Some(ManifestEntry { checksum, filename })
}

/// The manifest that a text of `<checksum> <path>` lines lists.
pub fn parse_manifest(text: &str) -> (r: Manifest)
    ensures
        r@ == manifest_map(text_lines(text@)),
{
    let lines = split_lines(text);
    let ghost ls = text_lines(text@);
    let mut entries: StringHashMap<String> = StringHashMap::new();
    let mut i: usize = 0;
    while i < lines.len()
        invariant
            i <= lines@.len(),
            lines@.len() == ls.len(),
            forall|j: int| 0 <= j < lines@.len() ==> #[trigger] lines@[j]@ == ls[j],
            entries@.map_values(|f: String| f@) == manifest_map(ls.take(i as int)),
        decreases lines@.len() - i,
    {
        assert(ls.take(i + 1).drop_last() =~= ls.take(i as int));
        assert(ls.take(i + 1).last() == lines@[i as int]@);
        match parse_manifest_line(lines[i].as_str()) {
            Some(e) => {
                let ghost before = entries@;
                let ghost f = e.filename@;
                entries.insert(e.checksum, e.filename);
                assert(entries@.map_values(|f: String| f@) =~= before.map_values(|f: String| f@).insert(
                    e.checksum@,
                    f,
                ));
            },
            None => {},
        }
        i = i + 1;
    }
    assert(ls.take(i as int) =~= ls);
    Manifest { entries }
}

/// The file name under which the store keeps a record's archive.
pub open spec fn archive_name(r: RecordModel) -> Seq<char> {
    r.name + "-"@ + r.vers + ".crate"@
}

/// The records whose checksum the manifest does not list, in order.
pub open spec fn pruned(records: Seq<RecordModel>, m: Map<Seq<char>, Seq<char>>) -> Seq<RecordModel>
    decreases records.len(),
{
    if records.len() == 0 {
        seq![]
    } else {
        let prev = pruned(records.drop_last(), m);
        if m.contains_key(records.last().cksum) {
            prev
        } else {
            prev.push(records.last())
        }
    }
}

/// The records whose checksum the manifest lists under another file name
/// than the record's own, in order.
pub open spec fn renamed(records: Seq<RecordModel>, m: Map<Seq<char>, Seq<char>>) -> Seq<RecordModel>
    decreases records.len(),
{
    if records.len() == 0 {
        seq![]
    } else {
        let prev = renamed(records.drop_last(), m);
        let r = records.last();
        if m.contains_key(r.cksum) && m[r.cksum] != archive_name(r) {
            prev.push(r)
        } else {
            prev
        }
    }
}

/// What pruning by a manifest leaves.
pub struct Pruned {
    /// Records still to be fetched.
    pub kept: Vec<CrateData>,
    /// Dropped records that the manifest lists under another file name.
    pub renamed: Vec<CrateData>,
}

/// Drops the records whose checksum the manifest lists; a file name that
/// disagrees with the record's own does not keep a record.
pub fn prune_by_manifest(manifest: &Manifest, crates: Vec<CrateData>) -> (r: Pruned)
    ensures
        records_view(r.kept@) == pruned(records_view(crates@), manifest@),
        records_view(r.renamed@) == renamed(records_view(crates@), manifest@),
{
    let ghost rs = records_view(crates@);
    let mut kept: Vec<CrateData> = Vec::new();
    let mut moved: Vec<CrateData> = Vec::new();
    let mut i: usize = 0;
    while i < crates.len()
        invariant
            i <= crates@.len(),
            rs == records_view(crates@),
            records_view(kept@) == pruned(rs.take(i as int), manifest@),
            records_view(moved@) == renamed(rs.take(i as int), manifest@),
        decreases crates@.len() - i,
    {
        assert(rs.take(i + 1).drop_last() =~= rs.take(i as int));
        assert(rs.take(i + 1).last() == crates@[i as int]@);
        let c = &crates[i];
        match manifest.entries.get(c.cksum.as_str()) {
            Some(found) => {
                let mut expected = c.name.clone();
                expected.append("-");
                expected.append(c.vers.as_str());
                expected.append(".crate");
                proof {
                    reveal_strlit("-");
                    reveal_strlit(".crate");
                }
                assert(expected@ =~= archive_name(c@));
                if *found != expected {
                    let ghost before = moved@;
                    moved.push(c.copied());
                    assert(records_view(moved@) =~= records_view(before).push(c@));
                }
            },
            None => {
                let ghost before = kept@;
                kept.push(c.copied());
                assert(records_view(kept@) =~= records_view(before).push(c@));
            },
        }
        i = i + 1;
    }
    assert(rs.take(i as int) =~= rs);
    Pruned { kept, renamed: moved }
}

/// Dropping by a manifest keeps exactly the records whose checksum it does
/// not list: a listed checksum drops every record that carries it, and a
/// record with another checksum stays, whatever its name and version.
pub proof fn lemma_manifest_prunes_by_checksum(records: Seq<RecordModel>, m: Map<Seq<char>, Seq<char>>)
    ensures
        forall|r: RecordModel|
            records.contains(r) ==> (#[trigger] pruned(records, m).contains(r) <==> !m.contains_key(
                r.cksum,
            )),
        forall|r: RecordModel| #[trigger] pruned(records, m).contains(r) ==> records.contains(r),
    decreases records.len(),
{
    if records.len() > 0 {
        let init = records.drop_last();
        let last = records.last();
        lemma_manifest_prunes_by_checksum(init, m);
        assert(records =~= init.push(last));
        let p0 = pruned(init, m);
        assert forall|r: RecordModel| records.contains(r) implies (#[trigger] pruned(
            records,
            m,
        ).contains(r) <==> !m.contains_key(r.cksum)) by {
            lemma_seq_contains_after_push(init, last, r);
            lemma_seq_contains_after_push(p0, last, r);
        }
        assert forall|r: RecordModel| #[trigger] pruned(records, m).contains(r) implies records.contains(
            r,
        ) by {
            lemma_seq_contains_after_push(init, last, r);
            lemma_seq_contains_after_push(p0, last, r);
        }
    }
}

/// An empty manifest drops nothing.
pub proof fn lemma_pruned_by_nothing(records: Seq<RecordModel>)
    ensures
        pruned(records, Map::empty()) == records,
    decreases records.len(),
{
    if records.len() > 0 {
        lemma_pruned_by_nothing(records.drop_last());
        assert(records =~= records.drop_last().push(records.last()));
    }
}

/// The manifest that an optional manifest text lists; none lists nothing.
pub open spec fn manifest_of(existing: Option<String>) -> Map<Seq<char>, Seq<char>> {
    match existing {
        Some(text) => manifest_map(text_lines(text@)),
        None => Map::empty(),
    }
}

/// Drops the records whose checksum the manifest text `existing` lists, and
/// reports those that it lists under another file name.
pub fn process_existing_crates_list(existing: &Option<String>, crates: Vec<CrateData>) -> (r: Pruned)
    ensures
        records_view(r.kept@) == pruned(records_view(crates@), manifest_of(*existing)),
        records_view(r.renamed@) == renamed(records_view(crates@), manifest_of(*existing)),
        existing is None ==> records_view(r.kept@) == records_view(crates@),
{
    let manifest = match existing {
        Some(text) => parse_manifest(text.as_str()),
        None => Manifest { entries: StringHashMap::new() },
    };
    proof {
        assert(manifest@ =~= manifest_of(*existing));
        lemma_pruned_by_nothing(records_view(crates@));
    }
    prune_by_manifest(&manifest, crates)
}

/// What the store holds for a record.
#[derive(Debug, Clone, Copy, PartialEq, Eq, Structural)]
pub enum StoreStatus {
    /// No file at the record's path.
    Missing,
    /// A file whose contents disagree with the record's checksum.
    Invalid,
    /// A file whose contents agree with the record's checksum.
    Valid,
}

/// What the store holds for a record with checksum `cksum`, where `stored`
/// is the file at its path, if there is one.
pub open spec fn status_of(cksum: Seq<char>, stored: Option<Seq<u8>>) -> StoreStatus {
    match stored {
        None => StoreStatus::Missing,
        Some(b) => if checksum_accepts(b, cksum) {
            StoreStatus::Valid
        } else {
            StoreStatus::Invalid
        },
    }
}

/// Classifies the file at a record's path, given its contents if it exists.
pub fn classify_stored(checksum: &str, stored: &Option<Vec<u8>>) -> (r: StoreStatus)
    ensures
        r == status_of(
            checksum@,
            match stored {
                Some(b) => Some(b@),
                None => None,
            },
        ),
{
    match stored {
        None => StoreStatus::Missing,
        Some(b) => if checksum_matches(b.as_slice(), checksum) {
            StoreStatus::Valid
        } else {
            StoreStatus::Invalid
        },
    }
}

/// The entries whose status is not `Valid`, in order.
pub open spec fn selected(entries: Seq<CrateModel>, statuses: Seq<StoreStatus>) -> Seq<CrateModel>
    decreases entries.len(),
{
    if entries.len() == 0 || statuses.len() == 0 {
        seq![]
    } else {
        let prev = selected(entries.drop_last(), statuses.drop_last());
        if statuses.last() == StoreStatus::Valid {
            prev
        } else {
            prev.push(entries.last())
        }
    }
}

/// The entries that still need a fetch, where `statuses[i]` is what the
/// store holds for `crates[i]`: the missing and the invalid ones.
pub fn verify_store(crates: &Vec<Crate>, statuses: &Vec<StoreStatus>) -> (r: Vec<Crate>)
    requires
        crates@.len() == statuses@.len(),
    ensures
        crates_view(r@) == selected(crates_view(crates@), statuses@),
{
    let ghost es = crates_view(crates@);
    let mut out: Vec<Crate> = Vec::new();
    let mut i: usize = 0;
    while i < crates.len()
        invariant
            i <= crates@.len(),
            crates@.len() == statuses@.len(),
            es == crates_view(crates@),
            crates_view(out@) == selected(es.take(i as int), statuses@.take(i as int)),
        decreases crates@.len() - i,
    {
        assert(es.take(i + 1).drop_last() =~= es.take(i as int));
        assert(statuses@.take(i + 1).drop_last() =~= statuses@.take(i as int));
        assert(es.take(i + 1).last() == crates@[i as int]@);
        if statuses[i] != StoreStatus::Valid {
            let ghost before = out@;
            out.push(crates[i].copied());
            assert(crates_view(out@) =~= crates_view(before).push(crates@[i as int]@));
        }
        i = i + 1;
    }
    assert(es.take(i as int) =~= es);
    assert(statuses@.take(i as int) =~= statuses@);
    out
}

/// The contents at `path` on a disk, if a file is there.
pub open spec fn stored_at(disk: Map<Seq<char>, Seq<u8>>, path: Seq<char>) -> Option<Seq<u8>> {
    if disk.contains_key(path) {
        Some(disk[path])
    } else {
        None
    }
}

/// What a disk holds for each entry.
pub open spec fn statuses_on(entries: Seq<CrateModel>, disk: Map<Seq<char>, Seq<u8>>) -> Seq<StoreStatus> {
    entries.map_values(|e: CrateModel| status_of(e.checksum, stored_at(disk, e.file_path)))
}

/// The entries that the verification of a disk selects for fetching.
pub open spec fn needs_fetch(entries: Seq<CrateModel>, disk: Map<Seq<char>, Seq<u8>>) -> Seq<CrateModel> {
    selected(entries, statuses_on(entries, disk))
}

proof fn lemma_needs_fetch_step(entries: Seq<CrateModel>, disk: Map<Seq<char>, Seq<u8>>)
    requires
        entries.len() > 0,
    ensures
        needs_fetch(entries, disk) == if status_of(
            entries.last().checksum,
            stored_at(disk, entries.last().file_path),
        ) == StoreStatus::Valid {
            needs_fetch(entries.drop_last(), disk)
        } else {
            needs_fetch(entries.drop_last(), disk).push(entries.last())
        },
{
    assert(statuses_on(entries, disk).drop_last() =~= statuses_on(entries.drop_last(), disk));
}

proof fn lemma_needs_fetch_not_valid(entries: Seq<CrateModel>, disk: Map<Seq<char>, Seq<u8>>)
    ensures
        forall|i: int|
            0 <= i < needs_fetch(entries, disk).len() ==> status_of(
                (#[trigger] needs_fetch(entries, disk)[i]).checksum,
                stored_at(disk, needs_fetch(entries, disk)[i].file_path),
            ) != StoreStatus::Valid,
    decreases entries.len(),
{
    if entries.len() > 0 {
        lemma_needs_fetch_not_valid(entries.drop_last(), disk);
        lemma_needs_fetch_step(entries, disk);
        let prev = needs_fetch(entries.drop_last(), disk);
        assert forall|i: int| 0 <= i < needs_fetch(entries, disk).len() implies status_of(
            (#[trigger] needs_fetch(entries, disk)[i]).checksum,
            stored_at(disk, needs_fetch(entries, disk)[i].file_path),
        ) != StoreStatus::Valid by {
            if i < prev.len() {
                assert(needs_fetch(entries, disk)[i] == prev[i]);
            }
        }
    }
}

proof fn lemma_needs_fetch_keeps_stale(entries: Seq<CrateModel>, disk: Map<Seq<char>, Seq<u8>>)
    requires
        forall|i: int|
            0 <= i < entries.len() ==> status_of(
                (#[trigger] entries[i]).checksum,
                stored_at(disk, entries[i].file_path),
            ) != StoreStatus::Valid,
    ensures
        needs_fetch(entries, disk) == entries,
    decreases entries.len(),
{
    if entries.len() > 0 {
        let init = entries.drop_last();
        assert forall|i: int| 0 <= i < init.len() implies status_of(
            (#[trigger] init[i]).checksum,
            stored_at(disk, init[i].file_path),
        ) != StoreStatus::Valid by {
            assert(init[i] == entries[i]);
        }
        lemma_needs_fetch_keeps_stale(init, disk);
        lemma_needs_fetch_step(entries, disk);
        assert(entries[entries.len() - 1] == entries.last());
        assert(entries =~= init.push(entries.last()));
    }
}

/// Verifying the store twice with no write in between selects the same
/// entries the second time as the first: everything the first pass selected
/// is still missing or invalid, and nothing else is offered.
pub proof fn lemma_verify_store_idempotent(entries: Seq<CrateModel>, disk: Map<Seq<char>, Seq<u8>>)
    ensures
        needs_fetch(needs_fetch(entries, disk), disk) == needs_fetch(entries, disk),
{
    lemma_needs_fetch_not_valid(entries, disk);
    lemma_needs_fetch_keeps_stale(needs_fetch(entries, disk), disk);
}

} // verus!
