use green_linter::eco_checks::{Finding, FindingCategory};
use green_linter::project_scanner::ProjectType;
use green_linter::report_printer::{
    category_counts, category_icon, location, summary_line, total_wasted_bytes, type_line,
};

fn finding(category: FindingCategory, wasted: u64, file: Option<&str>, line: Option<usize>) -> Finding {
    Finding {
        category,
        title: "t".to_string(),
        detail: "d".to_string(),
        wasted_bytes: wasted,
        file: file.map(|s| s.to_string()),
        line,
    }
}

#[test]
fn type_line_joins_names() {
    assert_eq!(type_line(&vec![ProjectType::Node, ProjectType::Docker]), "Node + Docker");
    assert_eq!(type_line(&vec![ProjectType::Docker]), "Docker");
    assert_eq!(type_line(&vec![]), "");
}

#[test]
fn icons_and_locations() {
    assert_eq!(category_icon(FindingCategory::DockerCache), "D");
    assert_eq!(category_icon(FindingCategory::NodeDeprecated), "N");
    assert_eq!(category_icon(FindingCategory::BuildArtifact), "A");
    assert_eq!(category_icon(FindingCategory::MissingLockfile), "L");
    assert_eq!(location(&finding(FindingCategory::DockerCache, 0, Some("Dockerfile"), Some(12))), "Dockerfile:12");
    assert_eq!(location(&finding(FindingCategory::DockerCache, 0, Some("package.json"), None)), "package.json");
    assert_eq!(location(&finding(FindingCategory::DockerCache, 0, None, Some(3))), "");
}

#[test]
fn totals_and_counts() {
    let f = vec![
        finding(FindingCategory::BuildArtifact, 100, None, None),
        finding(FindingCategory::NodePhantom, 0, None, None),
        finding(FindingCategory::NodePhantom, 0, None, None),
        finding(FindingCategory::BuildArtifact, 23, None, None),
        finding(FindingCategory::NodePhantom, 0, None, None),
        finding(FindingCategory::MissingLockfile, 0, None, None),
    ];
    assert_eq!(total_wasted_bytes(&f), 123);
    let counts = category_counts(&f);
    assert_eq!(
        counts,
        vec![
            ("Build Artifact".to_string(), 2),
            ("Phantom Dependency".to_string(), 3),
            ("Missing Lockfile".to_string(), 1),
        ]
    );
    let total: usize = counts.iter().map(|c| c.1).sum();
    assert_eq!(total, f.len());
    assert_eq!(summary_line(&f), "3 Phantom Dependency | 2 Build Artifact | 1 Missing Lockfile");
}

#[test]
fn summary_of_nothing() {
    assert_eq!(summary_line(&vec![]), "");
    assert_eq!(total_wasted_bytes(&vec![]), 0);
}
