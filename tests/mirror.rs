use crate_mirror::{
    check_duplicate_version, checksum_matches, classify_stored, digest_matches, download_url,
    get_crate_info, lookup_path, parse_index_file, parse_index_line, parse_manifest_line,
    parse_repo_config, path_to_crate, process_crate_definition, process_existing_crates_list,
    verify_store, walk_entry, Crate, CrateData, Dispatcher, DownloadBudget, FetchAction,
    FetchEvent, FetchOutcome, FetchTask, StoreStatus, WalkStep,
};

const ABC_SHA256: &str = "ba7816bf8f01cfea414140de5dae2223b00361a396177a9cb410ff61f20015ad";
const EMPTY_SHA256: &str = "e3b0c44298fc1c149afbf4c8996fb92427ae41e4649b934ca495991b7852b855";

fn record(name: &str, vers: &str, cksum: &str) -> CrateData {
    CrateData { name: name.to_string(), vers: vers.to_string(), cksum: cksum.to_string(), yanked: false }
}

fn entry(name: &str, version: &str, checksum: &str) -> Crate {
    Crate {
        name: name.to_string(),
        version: version.to_string(),
        checksum: checksum.to_string(),
        file_path: format!("store/{}", name),
        relative_path: name.to_string(),
    }
}

fn line(name: &str, vers: &str, cksum: &str, yanked: bool) -> String {
    format!(
        "{{\"name\":\"{}\",\"vers\":\"{}\",\"deps\":[],\"cksum\":\"{}\",\"yanked\":{}}}",
        name, vers, cksum, yanked
    )
}

#[test]
fn path_for_one_character_name() {
    assert_eq!(path_to_crate(&record("a", "1.0.0", "")), "1/a-1.0.0.crate");
}

#[test]
fn path_for_two_character_name() {
    assert_eq!(path_to_crate(&record("ab", "0.1.0", "")), "2/ab-0.1.0.crate");
}

#[test]
fn path_for_three_character_name() {
    assert_eq!(path_to_crate(&record("abc", "2.1.0", "")), "3/ab/abc-2.1.0.crate");
}

#[test]
fn path_for_long_name() {
    assert_eq!(path_to_crate(&record("serde", "1.0.0", "")), "se/rd/serde-1.0.0.crate");
    assert_eq!(path_to_crate(&record("rand", "0.8.5", "")), "ra/nd/rand-0.8.5.crate");
}

#[test]
fn path_is_stable_across_calls() {
    let r = record("tokio", "1.2.3", "");
    assert_eq!(path_to_crate(&r), path_to_crate(&r.clone()));
}

#[test]
fn index_line_decodes() {
    let c = parse_index_line(&line("serde", "1.0.0", ABC_SHA256, false)).unwrap();
    assert_eq!(c.name, "serde");
    assert_eq!(c.vers, "1.0.0");
    assert_eq!(c.cksum, ABC_SHA256);
    assert!(!c.yanked);
    let y = parse_index_line(&line("serde", "1.0.1", ABC_SHA256, true)).unwrap();
    assert!(y.yanked);
}

#[test]
fn malformed_index_lines_do_not_decode() {
    assert!(parse_index_line("not json").is_none());
    assert!(parse_index_line("{\"name\":\"x\",\"vers\":\"1\",\"cksum\":\"aa\"}").is_none());
    assert!(parse_index_line("{\"name\":\"x\",\"vers\":1,\"cksum\":\"aa\",\"yanked\":false}").is_none());
    assert!(parse_index_line(&line("", "1.0.0", "aa", false)).is_none());
    assert!(parse_index_line("").is_none());
}

#[test]
fn retracted_records_are_dropped_from_a_file() {
    let text = format!(
        "{}\n{}\ngarbage\n{}\r\n{}",
        line("a", "1.0.0", "11", true),
        line("a", "1.1.0", "22", false),
        line("a", "1.2.0", "33", true),
        line("a", "1.3.0", "44", false)
    );
    let out = parse_index_file(&text);
    assert_eq!(out.len(), 2);
    assert_eq!(out[0].vers, "1.1.0");
    assert_eq!(out[1].vers, "1.3.0");
    assert!(out.iter().all(|c| !c.yanked));
}

#[test]
fn empty_file_has_no_records() {
    assert!(parse_index_file("").is_empty());
    assert!(parse_index_file("\n\n").is_empty());
}

#[test]
fn index_records_follow_file_order() {
    let files = vec![
        format!("{}\n{}\n", line("aa", "1.0.0", "01", false), line("aa", "2.0.0", "02", true)),
        line("bb", "0.1.0", "03", false),
    ];
    let out = process_crate_definition(&files);
    assert_eq!(out.len(), 2);
    assert_eq!(out[0].name, "aa");
    assert_eq!(out[1].name, "bb");
}

#[test]
fn end_to_end_single_download() {
    let aa = "a".repeat(64);
    let bb = "b".repeat(64);
    let file = format!("{}\n{}\n", line("foo", "1.0.0", &aa, false), line("foo", "1.0.0", &bb, true));
    let records = process_crate_definition(&vec![file]);
    assert_eq!(records.len(), 1);
    assert_eq!(records[0].cksum, aa);
    assert_eq!(path_to_crate(&records[0]), "3/fo/foo-1.0.0.crate");

    let mut downloads = 0;
    for r in &records {
        let mut task = FetchTask::new(r, 0);
        assert_eq!(task.action(), FetchAction::ReadLocal);
        let mut action = task.step(FetchEvent::Local(None));
        while let FetchAction::Download = action {
            downloads += 1;
            action = task.step(FetchEvent::Downloaded(Some(b"not the archive".to_vec())));
        }
        assert_eq!(action, FetchAction::Remove);
        assert_eq!(task.step(FetchEvent::Removed), FetchAction::Finish(FetchOutcome::Failed));
    }
    assert_eq!(downloads, 1);
}

#[test]
fn checksum_of_known_contents() {
    assert!(checksum_matches(b"abc", ABC_SHA256));
    assert!(checksum_matches(b"", EMPTY_SHA256));
    assert!(checksum_matches(b"abc", &ABC_SHA256.to_uppercase()));
    assert!(!checksum_matches(b"abd", ABC_SHA256));
    assert!(!checksum_matches(b"abc", EMPTY_SHA256));
    assert!(!checksum_matches(b"abc", "abc"));
    assert!(!checksum_matches(b"abc", "zz"));
}

#[test]
fn digest_against_hex() {
    assert!(digest_matches(&vec![0x01, 0xab, 0xff], "01abff"));
    assert!(digest_matches(&vec![0x01, 0xab, 0xff], "01ABFF"));
    assert!(!digest_matches(&vec![0x01, 0xab, 0xff], "01abfe"));
    assert!(!digest_matches(&vec![0x01], "1"));
    assert!(digest_matches(&vec![], ""));
}

#[test]
fn store_status_of_files() {
    assert_eq!(classify_stored(ABC_SHA256, &None), StoreStatus::Missing);
    assert_eq!(classify_stored(ABC_SHA256, &Some(b"abc".to_vec())), StoreStatus::Valid);
    assert_eq!(classify_stored(ABC_SHA256, &Some(b"xyz".to_vec())), StoreStatus::Invalid);
}

#[test]
fn verify_selects_missing_and_invalid() {
    let crates = vec![entry("a", "1", "x"), entry("b", "1", "y"), entry("c", "1", "z")];
    let statuses = vec![StoreStatus::Missing, StoreStatus::Valid, StoreStatus::Invalid];
    let out = verify_store(&crates, &statuses);
    assert_eq!(out.len(), 2);
    assert_eq!(out[0].name, "a");
    assert_eq!(out[1].name, "c");
}

#[test]
fn verify_twice_selects_the_same() {
    let crates = vec![entry("abc", "1", ABC_SHA256), entry("e", "1", EMPTY_SHA256), entry("m", "1", ABC_SHA256)];
    let disk = |c: &Crate| -> Option<Vec<u8>> {
        match c.name.as_str() {
            "abc" => Some(b"abc".to_vec()),
            "e" => Some(b"changed".to_vec()),
            _ => None,
        }
    };
    let first_status: Vec<StoreStatus> = crates.iter().map(|c| classify_stored(&c.checksum, &disk(c))).collect();
    let first = verify_store(&crates, &first_status);
    let second_status: Vec<StoreStatus> = first.iter().map(|c| classify_stored(&c.checksum, &disk(c))).collect();
    let second = verify_store(&first, &second_status);
    let names = |v: &Vec<Crate>| v.iter().map(|c| c.name.clone()).collect::<Vec<_>>();
    assert_eq!(names(&first), vec!["e", "m"]);
    assert_eq!(names(&second), names(&first));
}

#[test]
fn manifest_line_fields() {
    let l = format!("{}  ./crates/se/rd/serde-1.0.0.crate", ABC_SHA256);
    let e = parse_manifest_line(&l).unwrap();
    assert_eq!(e.checksum, ABC_SHA256);
    assert_eq!(e.filename, "serde-1.0.0.crate");
    let bare = format!("{}\tfoo-1.0.0.crate", EMPTY_SHA256);
    assert_eq!(parse_manifest_line(&bare).unwrap().filename, "foo-1.0.0.crate");
    assert!(parse_manifest_line("abc ./x.crate").is_none());
}

#[test]
fn manifest_prunes_by_checksum() {
    let x = "1".repeat(64);
    let y = "2".repeat(64);
    let manifest = format!("{} ./fo/o/foo-1.0.0.crate\n", x);
    let crates = vec![record("foo", "1.0.0", &x), record("foo", "1.0.0", &y)];
    let out = process_existing_crates_list(&Some(manifest), crates);
    assert_eq!(out.kept.len(), 1);
    assert_eq!(out.kept[0].cksum, y);
    assert!(out.renamed.is_empty());
}

#[test]
fn manifest_name_mismatch_still_drops() {
    let x = "3".repeat(64);
    let manifest = format!("{} ./other-2.0.0.crate", x);
    let out = process_existing_crates_list(&Some(manifest), vec![record("foo", "1.0.0", &x)]);
    assert!(out.kept.is_empty());
    assert_eq!(out.renamed.len(), 1);
    assert_eq!(out.renamed[0].name, "foo");
}

#[test]
fn no_manifest_keeps_everything() {
    let crates = vec![record("a", "1", "x"), record("b", "1", "y")];
    let out = process_existing_crates_list(&None, crates);
    assert_eq!(out.kept.len(), 2);
    assert!(out.renamed.is_empty());
}

#[test]
fn url_from_plain_base() {
    let r = record("serde", "1.0.0", "");
    assert_eq!(
        download_url("https://crates.io/api/v1/crates", &r),
        "https://crates.io/api/v1/crates/serde/1.0.0/download"
    );
}

#[test]
fn url_from_template() {
    let r = record("serde", "1.0.0", "");
    assert_eq!(
        download_url("https://static.example/{crate}/{crate}-{version}.crate", &r),
        "https://static.example/serde/serde-1.0.0.crate"
    );
    assert_eq!(download_url("http://m/{name}/{version}", &r), "http://m/serde/1.0.0");
}

#[test]
fn repo_config_download_field() {
    let c = parse_repo_config("{\"dl\":\"https://crates.io/api/v1/crates\",\"api\":\"https://crates.io\"}").unwrap();
    assert_eq!(c.dl, "https://crates.io/api/v1/crates");
    assert!(parse_repo_config("{\"api\":\"x\"}").is_none());
    assert!(parse_repo_config("nonsense").is_none());
}

#[test]
fn duplicate_versions_with_other_checksum() {
    let crates = vec![entry("foo", "1.0.0", "aa"), entry("bar", "1.0.0", "bb")];
    assert!(check_duplicate_version("foo".into(), "1.0.0".into(), "cc".into(), &crates));
    assert!(!check_duplicate_version("foo".into(), "1.0.0".into(), "aa".into(), &crates));
    assert!(!check_duplicate_version("foo".into(), "2.0.0".into(), "cc".into(), &crates));
    assert!(!check_duplicate_version("foo".into(), "1.0.0".into(), "cc".into(), &[]));
}

#[test]
fn lookup_by_name_and_version() {
    let crates = vec![record("foo", "1.0.0", "aa"), record("serde", "1.0.0", "bb")];
    assert_eq!(lookup_path(&crates, &"serde".to_string(), &"1.0.0".to_string()), Some("se/rd/serde-1.0.0.crate".to_string()));
    assert_eq!(lookup_path(&crates, &"serde".to_string(), &"2.0.0".to_string()), None);
}

#[test]
fn store_entries_below_root() {
    let files = vec![line("serde", "1.0.0", "aa", false)];
    let mut crates = vec![entry("x", "1", "zz")];
    get_crate_info(&files, &mut crates, "/srv/store");
    assert_eq!(crates.len(), 2);
    assert_eq!(crates[1].relative_path, "se/rd/serde-1.0.0.crate");
    assert_eq!(crates[1].file_path, "/srv/store/se/rd/serde-1.0.0.crate");
    assert_eq!(crates[1].checksum, "aa");
}

#[test]
fn walk_skips_hidden_and_config() {
    assert_eq!(walk_entry(&".git".to_string(), true), WalkStep::Skip);
    assert_eq!(walk_entry(&"se".to_string(), true), WalkStep::Descend);
    assert_eq!(walk_entry(&"config.json".to_string(), false), WalkStep::Skip);
    assert_eq!(walk_entry(&"serde".to_string(), false), WalkStep::Take);
    assert_eq!(walk_entry(&".gitignore".to_string(), false), WalkStep::Skip);
}

#[test]
fn budget_counts_downloads() {
    let mut b = DownloadBudget::new(2);
    assert!(!b.exhausted());
    b.record_download();
    assert!(!b.exhausted());
    b.record_download();
    assert!(b.exhausted());
    let mut unbounded = DownloadBudget::new(-1);
    unbounded.record_download();
    assert!(!unbounded.exhausted());
}

#[test]
fn dispatcher_takes_turns() {
    let mut d = Dispatcher::new(3);
    let turns: Vec<usize> = (0..7).map(|_| d.assign()).collect();
    assert_eq!(turns, vec![0, 1, 2, 0, 1, 2, 0]);
}

#[test]
fn local_hit_skips_everything() {
    let r = record("abc", "1.0.0", ABC_SHA256);
    let mut t = FetchTask::new(&r, 2);
    assert_eq!(t.step(FetchEvent::Local(Some(b"abc".to_vec()))), FetchAction::Finish(FetchOutcome::LocalHit));
    assert!(t.is_finished());
}

#[test]
fn search_paths_in_order() {
    let r = record("abc", "1.0.0", ABC_SHA256);
    let mut t = FetchTask::new(&r, 2);
    assert_eq!(t.step(FetchEvent::Local(Some(b"corrupt".to_vec()))), FetchAction::SearchDir(0));
    assert_eq!(t.step(FetchEvent::Candidates(vec![b"x".to_vec()])), FetchAction::SearchDir(1));
    assert_eq!(
        t.step(FetchEvent::Candidates(vec![b"y".to_vec(), b"abc".to_vec(), b"abc".to_vec()])),
        FetchAction::CopyCandidate { dir: 1, candidate: 1 }
    );
    assert_eq!(t.step(FetchEvent::Copied(true)), FetchAction::Finish(FetchOutcome::SearchPathHit));
}

#[test]
fn search_miss_goes_to_network() {
    let r = record("abc", "1.0.0", ABC_SHA256);
    let mut t = FetchTask::new(&r, 1);
    assert_eq!(t.step(FetchEvent::Local(None)), FetchAction::SearchDir(0));
    assert_eq!(t.step(FetchEvent::Candidates(vec![])), FetchAction::Download);
    assert_eq!(t.step(FetchEvent::Downloaded(Some(b"abc".to_vec()))), FetchAction::Finish(FetchOutcome::Downloaded));
}

#[test]
fn failed_download_is_removed() {
    let r = record("abc", "1.0.0", ABC_SHA256);
    let mut t = FetchTask::new(&r, 0);
    assert_eq!(t.step(FetchEvent::Local(None)), FetchAction::Download);
    assert_eq!(t.step(FetchEvent::Downloaded(None)), FetchAction::Remove);
    assert_eq!(t.step(FetchEvent::Copied(true)), FetchAction::Remove);
    assert_eq!(t.step(FetchEvent::Removed), FetchAction::Finish(FetchOutcome::Failed));
    assert_eq!(t.step(FetchEvent::Local(None)), FetchAction::Finish(FetchOutcome::Failed));
}
