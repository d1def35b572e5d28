//! Turning the index's metadata files into records.
use vstd::prelude::*;
use vstd::string::*;
use crate::json::{bool_member, json_member_bool, json_member_str, str_member};
use crate::layout::{path_to_crate, shard_path};
use crate::record::{crates_view, records_view, Crate, CrateData, CrateModel, RecordModel, RepoConfig};
use crate::text::{split_lines, text_lines};

verus! {

/// The record that one index line describes: a JSON object with a non-empty
/// string `name`, strings `vers` and `cksum`, and a boolean `yanked`.
pub open spec fn decode_record(line: Seq<char>) -> Option<RecordModel> {
    match (
        json_member_str(line, "name"@),
        json_member_str(line, "vers"@),
        json_member_str(line, "cksum"@),
        json_member_bool(line, "yanked"@),
    ) {
        (Some(n), Some(v), Some(c), Some(y)) => if n.len() > 0 {
            Some(RecordModel { name: n, vers: v, cksum: c, yanked: y })
        } else {
            None
        },
        _ => None,
    }
}

/// The records that survive from a file's lines, in order: lines that do not
/// decode are skipped, and so are retracted records.
pub open spec fn kept_records(lines: Seq<Seq<char>>) -> Seq<RecordModel>
    decreases lines.len(),
{
    if lines.len() == 0 {
        seq![]
    } else {
        let prev = kept_records(lines.drop_last());
        match decode_record(lines.last()) {
            Some(r) => if r.yanked {
                prev
            } else {
                prev.push(r)
            },
            None => prev,
        }
    }
}

/// The records of a whole index, file after file.
pub open spec fn index_records(files: Seq<Seq<char>>) -> Seq<RecordModel>
    decreases files.len(),
{
    if files.len() == 0 {
        seq![]
    } else {
        index_records(files.drop_last()) + kept_records(text_lines(files.last()))
    }
}

/// The texts of a sequence of strings.
pub open spec fn texts_view(s: Seq<String>) -> Seq<Seq<char>> {
    s.map_values(|t: String| t@)
}

/// A record that can reach the store: a name to shard by, not retracted.
pub open spec fn storable(r: RecordModel) -> bool {
    r.name.len() > 0 && !r.yanked
}

/// Every record that survives the parse is storable.
pub proof fn lemma_kept_records_storable(lines: Seq<Seq<char>>)
    ensures
        forall|i: int|
            0 <= i < kept_records(lines).len() ==> storable(#[trigger] kept_records(lines)[i]),
    decreases lines.len(),
{
    if lines.len() > 0 {
        let prev = kept_records(lines.drop_last());
        lemma_kept_records_storable(lines.drop_last());
        assert forall|i: int|
            0 <= i < kept_records(lines).len() implies storable(
            #[trigger] kept_records(lines)[i],
        ) by {
            if i < prev.len() {
                assert(kept_records(lines)[i] == prev[i]);
            }
        }
    }
}

/// A retracted record never leaves the parse of an index, whatever else its
/// file holds.
pub proof fn lemma_retracted_never_parsed(files: Seq<Seq<char>>)
    ensures
        forall|i: int|
            0 <= i < index_records(files).len() ==> !(#[trigger] index_records(files)[i]).yanked
                && index_records(files)[i].name.len() > 0,
    decreases files.len(),
{
    if files.len() > 0 {
        lemma_retracted_never_parsed(files.drop_last());
        lemma_kept_records_storable(text_lines(files.last()));
        let a = index_records(files.drop_last());
        let b = kept_records(text_lines(files.last()));
        assert forall|i: int| 0 <= i < index_records(files).len() implies !(
        #[trigger] index_records(files)[i]).yanked && index_records(files)[i].name.len() > 0 by {
            if i >= a.len() {
                assert(index_records(files)[i] == b[i - a.len()]);
            }
        }
    }
}

/// The record on one index line, if it decodes.
pub fn parse_index_line(line: &str) -> (r: Option<CrateData>)
    ensures
        match r {
            Some(c) => decode_record(line@) == Some(c@),
            None => decode_record(line@) is None,
        },
{
    let name = str_member(line, "name");
    let vers = str_member(line, "vers");
    let cksum = str_member(line, "cksum");
    let yanked = bool_member(line, "yanked");
    match (name, vers, cksum, yanked) {
        (Some(name), Some(vers), Some(cksum), Some(yanked)) => {
            if name.as_str().unicode_len() > 0 {
                Some(CrateData { name, vers, cksum, yanked })
            } else {
                None
            }
        },
        _ => None,
    }
}

/// The storable records of one metadata file, in the order of its lines.
pub fn parse_index_file(text: &str) -> (r: Vec<CrateData>)
    ensures
        records_view(r@) == kept_records(text_lines(text@)),
        forall|i: int| 0 <= i < r@.len() ==> storable(#[trigger] r@[i]@),
{
    let lines = split_lines(text);
    let ghost ls = text_lines(text@);
    let mut out: Vec<CrateData> = Vec::new();
    let mut i: usize = 0;
    while i < lines.len()
        invariant
            i <= lines@.len(),
            lines@.len() == ls.len(),
            forall|j: int| 0 <= j < lines@.len() ==> #[trigger] lines@[j]@ == ls[j],
            records_view(out@) == kept_records(ls.take(i as int)),
            forall|j: int| 0 <= j < out@.len() ==> storable(#[trigger] out@[j]@),
        decreases lines@.len() - i,
    {
        assert(ls.take(i + 1).drop_last() =~= ls.take(i as int));
        assert(ls.take(i + 1).last() == lines@[i as int]@);
        match parse_index_line(lines[i].as_str()) {
            Some(c) => {
                if !c.yanked {
                    let ghost before = out@;
                    out.push(c);
                    assert(records_view(out@) =~= records_view(before).push(out@.last()@));
                }
            },
            None => {},
        }
        i = i + 1;
    }
    assert(ls.take(i as int) =~= ls);
    out
}

/// All storable records of the index whose metadata files hold `files`,
/// file after file.
pub fn process_crate_definition(files: &Vec<String>) -> (r: Vec<CrateData>)
    ensures
        records_view(r@) == index_records(texts_view(files@)),
        forall|i: int| 0 <= i < r@.len() ==> storable(#[trigger] r@[i]@),
{
    let ghost fs = texts_view(files@);
    let mut out: Vec<CrateData> = Vec::new();
    let mut i: usize = 0;
    while i < files.len()
        invariant
            i <= files@.len(),
            fs == texts_view(files@),
            records_view(out@) == index_records(fs.take(i as int)),
            forall|j: int| 0 <= j < out@.len() ==> storable(#[trigger] out@[j]@),
        decreases files@.len() - i,
    {
        assert(fs.take(i + 1).drop_last() =~= fs.take(i as int));
        let mut found = parse_index_file(files[i].as_str());
        let ghost before = out@;
        let ghost added = found@;
        out.append(&mut found);
        assert(out@ =~= before + added);
        assert(records_view(out@) =~= records_view(before) + records_view(added));
        i = i + 1;
    }
    assert(fs.take(i as int) =~= fs);
    out
}

/// The download location named by the index's configuration text.
pub fn parse_repo_config(text: &str) -> (r: Option<RepoConfig>)
    ensures
        match r {
            Some(c) => json_member_str(text@, "dl"@) == Some(c.dl@),
            None => json_member_str(text@, "dl"@) is None,
        },
{
    match str_member(text, "dl") {
        Some(dl) => Some(RepoConfig { dl }),
        None => None,
    }
}

/// The store entry of a record below the store root `store`.
pub open spec fn entry_of(r: RecordModel, store: Seq<char>) -> CrateModel {
    CrateModel {
        name: r.name,
        version: r.vers,
        checksum: r.cksum,
        file_path: store + "/"@ + shard_path(r.name, r.vers),
        relative_path: shard_path(r.name, r.vers),
    }
}

/// The store entry of a record below the store root `file_store`.
pub fn store_entry(data: &CrateData, file_store: &str) -> (r: Crate)
    requires
        data.name@.len() > 0,
    ensures
        r@ == entry_of(data@, file_store@),
{
    let relative_path = path_to_crate(data);
    let mut file_path = String::from_str(file_store);
    file_path.append("/");
    file_path.append(relative_path.as_str());
    Crate {
        name: data.name.clone(),
        version: data.vers.clone(),
        checksum: data.cksum.clone(),
        file_path,
        relative_path,
    }
}

/// Appends to `crates` the store entry of every storable record of the index
/// whose metadata files hold `files`, below the store root `file_store`.
pub fn get_crate_info(files: &Vec<String>, crates: &mut Vec<Crate>, file_store: &str)
    ensures
        crates_view(final(crates)@) == crates_view(old(crates)@) + index_records(
            texts_view(files@),
        ).map_values(|r: RecordModel| entry_of(r, file_store@)),
{
    let records = process_crate_definition(files);
    let ghost rs = records_view(records@);
    let ghost start = crates_view(crates@);
    let mut i: usize = 0;
    while i < records.len()
        invariant
            i <= records@.len(),
            rs == records_view(records@),
            forall|j: int| 0 <= j < records@.len() ==> storable(#[trigger] records@[j]@),
            crates_view(crates@) == start + rs.take(i as int).map_values(
                |r: RecordModel| entry_of(r, file_store@),
            ),
        decreases records@.len() - i,
    {
        assert(storable(records@[i as int]@));
        let entry = store_entry(&records[i], file_store);
        let ghost before = crates@;
        crates.push(entry);
        assert(crates_view(crates@) =~= crates_view(before).push(entry@));
        assert(rs.take(i + 1).map_values(|r: RecordModel| entry_of(r, file_store@)) =~= rs.take(
            i as int,
        ).map_values(|r: RecordModel| entry_of(r, file_store@)).push(entry_of(rs[i as int], file_store@)));
        i = i + 1;
    }
    assert(rs.take(i as int) =~= rs);
}

/// Whether `crates` holds version `version` of `name` with a checksum other
/// than `checksum`: the index published one version twice with different
/// contents.
pub fn check_duplicate_version(name: String, version: String, checksum: String, crates: &[Crate]) -> (r: bool)
    ensures
        r == exists|i: int|
            0 <= i < crates@.len() && (#[trigger] crates@[i]).name@ == name@
                && crates@[i].version@ == version@ && crates@[i].checksum@ != checksum@,
{
    let mut i: usize = 0;
    while i < crates.len()
        invariant
            i <= crates@.len(),
            forall|j: int|
                0 <= j < i ==> !((#[trigger] crates@[j]).name@ == name@ && crates@[j].version@
                    == version@ && crates@[j].checksum@ != checksum@),
        decreases crates@.len() - i,
    {
        let c = &crates[i];
        if c.name == name && c.version == version && c.checksum != checksum {
            return true;
        }
        i = i + 1;
    }
    false
}

/// Store path of the first record that is version `version` of `name`, if
/// any: the lookup that serves archives to consumers.
pub fn lookup_path(crates: &[CrateData], name: &String, version: &String) -> (r: Option<String>)
    requires
        forall|i: int| 0 <= i < crates@.len() ==> (#[trigger] crates@[i]).name@.len() > 0,
    ensures
        match r {
            Some(p) => exists|i: int|
                0 <= i < crates@.len() && (#[trigger] crates@[i]).name@ == name@
                    && crates@[i].vers@ == version@ && p@ == shard_path(name@, version@),
            None => forall|i: int|
                0 <= i < crates@.len() ==> !((#[trigger] crates@[i]).name@ == name@
                    && crates@[i].vers@ == version@),
        },
{
    let mut i: usize = 0;
    while i < crates.len()
        invariant
            i <= crates@.len(),
            forall|j: int| 0 <= j < crates@.len() ==> (#[trigger] crates@[j]).name@.len() > 0,
            forall|j: int|
                0 <= j < i ==> !((#[trigger] crates@[j]).name@ == name@ && crates@[j].vers@
                    == version@),
        decreases crates@.len() - i,
    {
        if crates[i].name == *name && crates[i].vers == *version {
            assert(crates@[i as int].name@.len() > 0);
            return Some(path_to_crate(&crates[i]));
        }
        i = i + 1;
    }
    None
}

/// What the walk of the index does with one directory entry.
#[derive(Debug, Clone, Copy, PartialEq, Eq, Structural)]
pub enum WalkStep {
    /// Leave it, and for a directory everything below it.
    Skip,
    /// Walk the directory.
    Descend,
    /// Read the file as metadata.
    Take,
}

/// What the walk does with an entry called `name`: hidden entries (those of
/// version control) are left, and so is the configuration file.
pub open spec fn walk_step(name: Seq<char>, is_dir: bool) -> WalkStep {
    if name.len() > 0 && name[0] == '.' {
        WalkStep::Skip
    } else if is_dir {
        WalkStep::Descend
    } else if name == "config.json"@ {
        WalkStep::Skip
    } else {
        WalkStep::Take
    }
}

/// Decides what the walk of the index does with the entry called `name`.
pub fn walk_entry(name: &String, is_dir: bool) -> (r: WalkStep)
    ensures
        r == walk_step(name@, is_dir),
{
    if name.as_str().unicode_len() > 0 && name.as_str().get_char(0) == '.' {
        WalkStep::Skip
    } else if is_dir {
        WalkStep::Descend
    } else if *name == String::from_str("config.json") {
        WalkStep::Skip
    } else {
        WalkStep::Take
    }
}

} // verus!
