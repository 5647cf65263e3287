use pasua::git::{diff_stats, parse_name_status, parse_numstat, GitStatus};

#[test]
fn name_status_entries() {
    let out = "M\0src/a.rs\0R086\0old.go\0new.go\0A\0added.txt\0X\0weird\0D\0gone.py\0";
    let e = parse_name_status(out);
    assert_eq!(e.len(), 4);
    assert!(matches!(&e[0], (GitStatus::Modified, p) if p == "src/a.rs"));
    assert!(matches!(&e[1], (GitStatus::Renamed(a, b, 86), p) if a == "old.go" && b == "new.go" && p == "new.go"));
    assert!(matches!(&e[2], (GitStatus::Added, p) if p == "added.txt"));
    assert!(matches!(&e[3], (GitStatus::Deleted, p) if p == "gone.py"));
}

#[test]
fn numstat_entries() {
    let out = "12\t8\tsrc/a.rs\u{0}1\t2\t\u{0}old.go\u{0}new.go\u{0}-\t-\timg.png\u{0}";
    let c = parse_numstat(out);
    assert_eq!(c, vec![("src/a.rs".to_string(), 12, 8), ("new.go".to_string(), 1, 2), ("img.png".to_string(), 0, 0)]);
}

#[test]
fn stats_pair_statuses_with_counts() {
    let stats = diff_stats("M\0a.rs\0C100\0x\0y\0", "3\t4\ta.rs\0");
    assert_eq!(stats.len(), 2);
    assert_eq!((stats[0].path.as_str(), stats[0].added, stats[0].removed), ("a.rs", 3, 4));
    assert!(matches!(&stats[1].status, GitStatus::Copied(a, b, 100) if a == "x" && b == "y"));
    assert_eq!((stats[1].added, stats[1].removed), (0, 0));
}
