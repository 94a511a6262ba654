use agent_host::git::parse_porcelain;

#[test]
fn porcelain_lines_are_parsed() {
    let out = " M src/main.rs\nA  new.txt\n?? scratch/\nD  gone.rs\nR  old -> new\nMM both.rs\n";
    let c = parse_porcelain(out, "");
    assert_eq!(c.len(), 6);
    assert_eq!((c[0].file.as_str(), c[0].status.as_str(), c[0].staged), ("src/main.rs", "M", false));
    assert_eq!((c[1].file.as_str(), c[1].status.as_str(), c[1].staged), ("new.txt", "A", true));
    assert_eq!((c[2].file.as_str(), c[2].status.as_str(), c[2].staged), ("scratch/", "??", true));
    assert_eq!((c[3].file.as_str(), c[3].status.as_str(), c[3].staged), ("gone.rs", "D", true));
    assert_eq!((c[4].file.as_str(), c[4].status.as_str(), c[4].staged), ("old -> new", "R", true));
    assert_eq!((c[5].file.as_str(), c[5].status.as_str(), c[5].staged), ("both.rs", "M", true));
    assert!(c.iter().all(|x| x.insertions == 0 && x.deletions == 0));
}

#[test]
fn line_counts_come_from_numstat() {
    let numstat = "12\t3\tsrc/main.rs\n-\t-\tlogo.png\n5\t0\tnew.txt\n";
    let c = parse_porcelain(" M src/main.rs\nA  new.txt\n M logo.png\n?? scratch/\n", numstat);
    assert_eq!(c.len(), 4);
    assert_eq!((c[0].file.as_str(), c[0].insertions, c[0].deletions), ("src/main.rs", 12, 3));
    assert_eq!((c[1].file.as_str(), c[1].insertions, c[1].deletions), ("new.txt", 5, 0));
    assert_eq!((c[2].file.as_str(), c[2].insertions, c[2].deletions), ("logo.png", 0, 0));
    assert_eq!((c[3].file.as_str(), c[3].insertions, c[3].deletions), ("scratch/", 0, 0));
}

#[test]
fn short_lines_are_skipped() {
    let c = parse_porcelain("M\nab\n\n UU x\n", "");
    assert_eq!(c.len(), 1);
    assert_eq!(c[0].status, "?");
    assert_eq!(c[0].file, "x");
    assert!(!c[0].staged);
}

#[test]
fn empty_status_has_no_changes() {
    assert!(parse_porcelain("", "1\t1\tx\n").is_empty());
}
