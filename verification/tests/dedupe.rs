use cgex::dedup::remove_duplicates;
use cgex::dedup::sort_records;
use cgex::dedup::FileRecord;
use cgex::digest::finish_digest;
use cgex::digest::hash_bytes;
use cgex::digest::StreamingDigest;

fn rec(path: &str, digest: &str) -> FileRecord {
    FileRecord {
        path: path.to_string(),
        digest: digest.to_string(),
    }
}

fn paths(rs: &[FileRecord]) -> Vec<String> {
    rs.iter().map(|r| r.path.clone()).collect()
}

#[test]
fn sha256_of_empty_input() {
    assert_eq!(
        hash_bytes(b""),
        "E3B0C44298FC1C149AFBF4C8996FB92427AE41E4649B934CA495991B7852B855"
    );
}

#[test]
fn sha256_of_abc() {
    assert_eq!(
        hash_bytes(b"abc"),
        "BA7816BF8F01CFEA414140DE5DAE2223B00361A396177A9CB410FF61F20015AD"
    );
}

#[test]
fn streamed_chunks_hash_like_one_shot() {
    let mut sd = StreamingDigest::new();
    sd.update(b"ab");
    sd.update(b"c");
    assert_eq!(finish_digest(sd), hash_bytes(b"abc"));
}

#[test]
fn distinct_contents_hash_differently() {
    assert_ne!(hash_bytes(b"abc"), hash_bytes(b"abd"));
}

#[test]
fn sort_orders_by_path() {
    let entries = vec![rec("c.bmp", "1"), rec("a.bmp", "2"), rec("b.bmp", "3")];
    let sorted = sort_records(&entries);
    assert_eq!(paths(&sorted), vec!["a.bmp", "b.bmp", "c.bmp"]);
}

#[test]
fn dedup_keeps_first_of_each_digest() {
    let entries = vec![
        rec("a.bmp", "X"),
        rec("b.bmp", "Y"),
        rec("c.bmp", "X"),
        rec("d.bmp", "Z"),
        rec("e.bmp", "Y"),
    ];
    let plan = remove_duplicates(&entries);
    assert_eq!(paths(&plan.keep), vec!["a.bmp", "b.bmp", "d.bmp"]);
    assert_eq!(paths(&plan.remove), vec!["c.bmp", "e.bmp"]);
}

#[test]
fn dedup_after_sort_keeps_path_sorted_earliest() {
    // discovery order differs from path order: the survivor of digest X must
    // be the path-sorted-earliest member, not the first discovered
    let entries = vec![rec("z.bmp", "X"), rec("a.bmp", "X")];
    let plan = remove_duplicates(&sort_records(&entries));
    assert_eq!(paths(&plan.keep), vec!["a.bmp"]);
    assert_eq!(paths(&plan.remove), vec!["z.bmp"]);
}

#[test]
fn surviving_digests_are_distinct() {
    let entries = vec![
        rec("a.bmp", "X"),
        rec("b.bmp", "X"),
        rec("c.bmp", "X"),
        rec("d.bmp", "W"),
    ];
    let plan = remove_duplicates(&entries);
    let mut digests: Vec<String> = plan.keep.iter().map(|r| r.digest.clone()).collect();
    digests.sort();
    digests.dedup();
    assert_eq!(digests.len(), plan.keep.len());
}

#[test]
fn dedup_is_idempotent() {
    let entries = vec![
        rec("a.bmp", "X"),
        rec("b.bmp", "Y"),
        rec("c.bmp", "X"),
    ];
    let first = remove_duplicates(&entries);
    let second = remove_duplicates(&first.keep);
    assert_eq!(paths(&second.keep), paths(&first.keep));
    assert!(second.remove.is_empty());
}

#[test]
fn dedup_of_empty_pool() {
    let entries: Vec<FileRecord> = Vec::new();
    let plan = remove_duplicates(&entries);
    assert!(plan.keep.is_empty());
    assert!(plan.remove.is_empty());
}
