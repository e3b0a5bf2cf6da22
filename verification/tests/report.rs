use linecount::report::{sort_by_count_desc, PathCount};

fn row(count: usize, path: &str) -> PathCount {
    PathCount { count, path: String::from(path) }
}

#[test]
fn sorts_descending_and_keeps_the_order_of_ties() {
    let entries = vec![row(5, "a"), row(20, "b"), row(0, "c"), row(20, "d")];
    let report = sort_by_count_desc(entries);
    let flat: Vec<(usize, String)> = report.into_iter().map(|p| (p.count, p.path)).collect();
    assert_eq!(
        flat,
        vec![
            (20, String::from("b")),
            (20, String::from("d")),
            (5, String::from("a")),
            (0, String::from("c")),
        ]
    );
}

#[test]
fn equal_counts_keep_their_original_order() {
    let entries = vec![row(7, "first"), row(7, "second"), row(7, "third")];
    let report = sort_by_count_desc(entries);
    let paths: Vec<String> = report.into_iter().map(|p| p.path).collect();
    assert_eq!(paths, vec!["first", "second", "third"]);
}

#[test]
fn empty_and_single_reports_pass_through() {
    assert_eq!(sort_by_count_desc(vec![]).len(), 0);
    let report = sort_by_count_desc(vec![row(3, "only")]);
    assert_eq!(report.len(), 1);
    assert_eq!(report[0].count, 3);
    assert_eq!(report[0].path, "only");
}
