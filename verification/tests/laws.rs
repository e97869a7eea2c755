use green_linter::config::{prompt_answer, PromptAnswer};
use green_linter::eco_checks::{docker_waste, heavy_deps, lockfile_audit, Finding, FindingCategory};
use green_linter::project_scanner::{
    normalize_package_name, parse_package_json,
    build_import_index, packages_of_file, scan_compose_dockerfiles, DockerfileInfo,
    PackageJsonInfo, ProjectInfo, ProjectType, RootEntry, SourceFile,
};
use green_linter::report_printer::{category_counts, summary_line};

fn base_project() -> ProjectInfo {
    ProjectInfo {
        root: "/p".to_string(),
        project_type: vec![],
        package_json: None,
        dockerfile: None,
        extra_dockerfiles: vec![],
        compose_referenced: vec![],
        source_files: vec![],
        has_node_modules: false,
        node_modules_size: 0,
        has_dist: false,
        dist_size: 0,
        has_lockfile: false,
        has_dockerignore: false,
        extra_artifacts: vec![],
        lockfiles_found: vec![],
        import_index: vec![],
        root_files: vec![],
        installed_manifests: vec![],
    }
}

fn dockerfile(name: &str, lines: &[&str]) -> DockerfileInfo {
    DockerfileInfo { lines: lines.iter().map(|l| l.to_string()).collect(), filename: name.to_string() }
}

fn finding(category: FindingCategory) -> Finding {
    Finding {
        category,
        title: "t".to_string(),
        detail: "d".to_string(),
        wasted_bytes: 0,
        file: None,
        line: None,
    }
}

fn pairs(v: &[(&str, &str)]) -> Vec<(String, String)> {
    v.iter().map(|(a, b)| (a.to_string(), b.to_string())).collect()
}

fn source(path: &str, content: &str) -> SourceFile {
    SourceFile { relative_path: path.to_string(), content: content.to_string() }
}

#[test]
fn category_counts_add_up_and_sort_largest_first() {
    let f = vec![
        finding(FindingCategory::DockerCache),
        finding(FindingCategory::NodePhantom),
        finding(FindingCategory::BuildArtifact),
        finding(FindingCategory::NodePhantom),
        finding(FindingCategory::BuildArtifact),
        finding(FindingCategory::LockfileConflict),
    ];
    let counts = category_counts(&f);
    assert_eq!(counts.iter().map(|c| c.1).sum::<usize>(), f.len());
    let mut labels: Vec<&String> = counts.iter().map(|c| &c.0).collect();
    labels.dedup();
    assert_eq!(labels.len(), counts.len());
    assert_eq!(
        summary_line(&f),
        "2 Phantom Dependency | 2 Build Artifact | 1 Docker Cache | 1 Lockfile Conflict"
    );
}

#[test]
fn dockerignore_reported_once_for_many_dockerfiles() {
    let mut p = base_project();
    p.has_dist = true;
    p.dist_size = 1536;
    p.dockerfile = Some(dockerfile("Dockerfile", &["FROM alpine:3", "USER x"]));
    p.extra_dockerfiles = vec![
        dockerfile("Dockerfile.dev", &["FROM alpine:3", "USER x"]),
        dockerfile("api.Dockerfile", &["FROM alpine:3"]),
    ];
    let mut f = Vec::new();
    docker_waste::check(&p, &mut f);
    let unfiled: Vec<&Finding> = f.iter().filter(|x| x.file.is_none()).collect();
    assert_eq!(unfiled.len(), 1);
    assert_eq!(unfiled[0].title, "Missing .dockerignore");
    assert_eq!(
        unfiled[0].detail,
        "No .dockerignore found. Entire directory (~1.5 KB) sent as build context. node_modules, .git, dist/ included."
    );
    assert_eq!(unfiled[0].wasted_bytes, 1536);
}

#[test]
fn no_dockerignore_finding_when_present() {
    let mut p = base_project();
    p.has_dockerignore = true;
    p.dockerfile = Some(dockerfile("Dockerfile", &["FROM alpine:3"]));
    let mut f = Vec::new();
    docker_waste::check(&p, &mut f);
    assert!(f.iter().all(|x| x.file.is_some()));
}

#[test]
fn each_finding_points_at_its_dockerfile() {
    let mut p = base_project();
    p.has_dockerignore = true;
    p.dockerfile = Some(dockerfile("Dockerfile", &["FROM ubuntu:22.04", "RUN apt-get install x"]));
    p.extra_dockerfiles = vec![dockerfile(
        "Dockerfile.ci",
        &["FROM node:20", "ADD a.js /a", "RUN make", "RUN npm install"],
    )];
    let mut f = Vec::new();
    docker_waste::check(&p, &mut f);
    let first: Vec<&str> = f.iter().map(|x| x.file.as_deref().unwrap()).collect();
    let split = first.iter().position(|n| *n == "Dockerfile.ci").unwrap();
    assert!(split > 0);
    assert!(first[..split].iter().all(|n| *n == "Dockerfile"));
    assert!(first[split..].iter().all(|n| *n == "Dockerfile.ci"));
}

#[test]
fn orphans_are_exactly_the_unreferenced_dockerfiles() {
    let mut p = base_project();
    p.has_dockerignore = true;
    p.dockerfile = Some(dockerfile("Dockerfile", &["FROM scratch", "USER x"]));
    p.extra_dockerfiles = vec![
        dockerfile("Dockerfile.a", &["FROM scratch", "USER x"]),
        dockerfile("Dockerfile.b", &["FROM scratch", "USER x"]),
        dockerfile("c.Dockerfile", &["FROM scratch", "USER x"]),
    ];
    p.compose_referenced = vec!["Dockerfile.a".to_string(), "Dockerfile.zzz".to_string()];
    p.root_files = vec!["x.yaml".to_string(), "B.sh".to_string()];
    let mut f = Vec::new();
    docker_waste::check(&p, &mut f);
    let names: Vec<Option<String>> = f.iter().map(|x| x.file.clone()).collect();
    assert_eq!(
        names,
        vec![
            Some("Dockerfile".to_string()),
            Some("Dockerfile.b".to_string()),
            Some("c.Dockerfile".to_string()),
        ]
    );
    assert!(f.iter().all(|x| x.category == FindingCategory::DockerOrphaned && x.wasted_bytes == 0));
    assert!(f[0].detail.contains("Searched: [B.sh, x.yaml]."));
}

#[test]
fn references_are_listed_once() {
    let entries = vec![
        RootEntry {
            name: "compose.yml".to_string(),
            is_file: true,
            text: Some(
                "a:\n  build:\n    dockerfile: Dockerfile.prod\nb:\n  build:\n    dockerfile: ./x/Dockerfile.prod\nc:\n  build: .\n"
                    .to_string(),
            ),
        },
        RootEntry {
            name: "run.sh".to_string(),
            is_file: true,
            text: Some("docker build -f Dockerfile.prod .\ndocker build -f Dockerfile .\ndocker build -f \n".to_string()),
        },
    ];
    let refs = scan_compose_dockerfiles(&entries);
    assert_eq!(refs, vec!["Dockerfile.prod".to_string(), "Dockerfile".to_string()]);
}

#[test]
fn import_index_records_who_imports_what() {
    let files = vec![
        source("a.js", "import x from 'react';\nconst y = require('./local');"),
        source("b.js", "import 'lodash/map';\nimport z from 'react-dom';"),
        source("c.js", "const r = require(\"react\"); const l = require('lodash')"),
    ];
    let idx = build_import_index(&files);
    let keys: Vec<&str> = idx.iter().map(|e| e.0.as_str()).collect();
    assert_eq!(keys, vec!["react", "lodash", "react-dom"]);
    assert_eq!(idx[0].1, vec!["a.js".to_string(), "c.js".to_string()]);
    assert_eq!(idx[1].1, vec!["b.js".to_string(), "c.js".to_string()]);
    assert_eq!(idx[2].1, vec!["b.js".to_string()]);
}

#[test]
fn file_packages_once_each() {
    let pkgs = packages_of_file(
        &"import a from '@s/p/x';\nimport b from '@s/p';\nrequire('./rel'); require('/abs'); require('q/r'); require('q')"
            .to_string(),
    );
    let got: Vec<String> = pkgs.iter().map(|p| p.iter().collect()).collect();
    assert_eq!(got, vec!["@s/p".to_string(), "q".to_string()]);
}

#[test]
fn usage_files_counted_once_across_import_names() {
    let mut p = base_project();
    p.package_json = Some(PackageJsonInfo { dependencies: pairs(&[("lodash", "4")]), dev_dependencies: vec![] });
    p.source_files = vec![
        source("a.js", "const l = require('lodash');\nconst u = require('_');"),
        source("b.js", "const u = require('_');"),
    ];
    p.import_index = build_import_index(&p.source_files);
    let mut f = Vec::new();
    heavy_deps::check(&p, &mut f);
    assert_eq!(f[0].title, "Heavy dependency: lodash (~1500KB) -- SAFE to replace");
    assert_eq!(
        f[0].detail,
        "Consider: native ES6+ or lodash-es (~0KB). Delta: 1500KB. Used in 2 file(s): a.js, b.js. map/filter/find/reduce/debounce all have native equivalents."
    );
}

#[test]
fn one_heavy_finding_per_heavy_dependency_entry() {
    let mut p = base_project();
    p.package_json = Some(PackageJsonInfo {
        dependencies: pairs(&[("axios", "1"), ("react", "18"), ("axios", "1")]),
        dev_dependencies: pairs(&[("chalk", "5")]),
    });
    let mut f = Vec::new();
    heavy_deps::check(&p, &mut f);
    let heavy: Vec<&Finding> = f.iter().filter(|x| x.category == FindingCategory::HeavyDependency).collect();
    assert_eq!(heavy.len(), 3);
    assert!(heavy[0].title.starts_with("Heavy dependency: axios (~"));
    assert!(heavy[1].title.starts_with("Heavy dependency: axios (~"));
    assert!(heavy[2].title.starts_with("Heavy dependency: chalk (~"));
    assert!(heavy.iter().all(|x| x.file.as_deref() == Some("package.json")));
}

#[test]
fn phantoms_are_exactly_the_unused_plain_dependencies() {
    let mut p = base_project();
    p.package_json = Some(PackageJsonInfo {
        dependencies: pairs(&[
            ("express", "4"),
            ("@types/express", "4"),
            ("dotenv", "16"),
            ("axios", "1"),
            ("cors", "2"),
        ]),
        dev_dependencies: pairs(&[("jest", "29")]),
    });
    p.source_files = vec![source("index.js", "const e = require('express');")];
    p.import_index = build_import_index(&p.source_files);
    let mut f = Vec::new();
    heavy_deps::check(&p, &mut f);
    let phantoms: Vec<&str> = f
        .iter()
        .filter(|x| x.category == FindingCategory::NodePhantom)
        .map(|x| x.title.as_str())
        .collect();
    assert_eq!(phantoms, vec!["Phantom dependency: dotenv", "Phantom dependency: cors"]);
}

#[test]
fn no_phantoms_without_sources() {
    let mut p = base_project();
    p.package_json = Some(PackageJsonInfo { dependencies: pairs(&[("dotenv", "16")]), dev_dependencies: vec![] });
    let mut f = Vec::new();
    heavy_deps::check(&p, &mut f);
    assert!(f.iter().all(|x| x.category != FindingCategory::NodePhantom));
}

#[test]
fn lockfile_findings_are_exclusive() {
    for (found, expected) in [
        (vec![], Some(FindingCategory::MissingLockfile)),
        (vec!["yarn.lock"], None),
        (vec!["package-lock.json", "yarn.lock", "pnpm-lock.yaml"], Some(FindingCategory::LockfileConflict)),
    ] {
        let mut p = base_project();
        p.project_type = vec![ProjectType::Node, ProjectType::Docker];
        p.lockfiles_found = found.iter().map(|s| s.to_string()).collect();
        p.has_lockfile = !found.is_empty();
        let mut f = Vec::new();
        lockfile_audit::check(&p, &mut f);
        assert_eq!(f.iter().map(|x| x.category).collect::<Vec<_>>(), expected.into_iter().collect::<Vec<_>>());
    }
    let mut p = base_project();
    p.project_type = vec![ProjectType::Docker];
    let mut f = Vec::new();
    lockfile_audit::check(&p, &mut f);
    assert!(f.is_empty());
}

#[test]
fn prompt_settles_on_known_codes_only() {
    let valid = vec!["USA".to_string(), "DEU".to_string()];
    for input in ["usa", " DeU ", "", "\n", "fra", "world"] {
        match prompt_answer(input, &valid) {
            PromptAnswer::Accept(c) => assert!(c == "WORLD" || valid.contains(&c)),
            PromptAnswer::Retry(c) => {
                assert!(!c.is_empty());
                assert!(!valid.contains(&c));
            }
        }
    }
}

#[test]
fn same_contents_same_findings_wherever_the_root_is() {
    let make = |root: &str| {
        let mut p = base_project();
        p.root = root.to_string();
        p.project_type = vec![ProjectType::Node, ProjectType::Docker];
        p.package_json = Some(PackageJsonInfo { dependencies: pairs(&[("moment", "2"), ("cors", "2")]), dev_dependencies: vec![] });
        p.source_files = vec![source("a.js", "import m from 'moment';")];
        p.import_index = build_import_index(&p.source_files);
        p.dockerfile = Some(dockerfile("Dockerfile", &["FROM node:20", "RUN npm install"]));
        p
    };
    let a = green_linter::eco_checks::run_all_checks(&make("/one"));
    let b = green_linter::eco_checks::run_all_checks(&make("/elsewhere/two"));
    let view = |f: &Vec<Finding>| {
        f.iter()
            .map(|x| (x.category, x.title.clone(), x.detail.clone(), x.wasted_bytes, x.file.clone(), x.line))
            .collect::<Vec<_>>()
    };
    assert!(!a.is_empty());
    assert_eq!(view(&a), view(&b));
}

#[test]
fn no_config_files_no_references() {
    let entries = vec![
        RootEntry { name: "README.md".to_string(), is_file: true, text: Some("dockerfile: Dockerfile.x\ndocker build -f Dockerfile.y .".to_string()) },
        RootEntry { name: "Dockerfile.x".to_string(), is_file: true, text: Some("FROM scratch".to_string()) },
    ];
    assert!(scan_compose_dockerfiles(&entries).is_empty());
}

#[test]
fn risky_patterns_listed_once_from_using_files_only() {
    let mut p = base_project();
    p.package_json = Some(PackageJsonInfo { dependencies: pairs(&[("moment", "2")]), dev_dependencies: vec![] });
    p.source_files = vec![
        source("a.js", "import m from 'moment'; m.tz('x')"),
        source("b.js", "import m from 'moment'; m.duration(1); m.tz('y')"),
        source("c.js", "x.utcOffset()"),
    ];
    p.import_index = build_import_index(&p.source_files);
    let mut f = Vec::new();
    heavy_deps::check(&p, &mut f);
    assert_eq!(f[0].title, "Heavy dependency: moment (~4400KB) -- PARTIAL -- some usage needs attention");
    assert_eq!(
        f[0].detail,
        "Consider: dayjs (~2KB). Delta: 4398KB. Used in 2 file(s): a.js, b.js. Uses duration/timezone features. dayjs needs plugins: dayjs/plugin/duration, dayjs/plugin/timezone. Detected: .tz(, .duration("
    );
}

#[test]
fn package_names_are_normal() {
    for raw in ["@scope/pkg/sub", "@scope", "lodash/fp", "express", "./x", "/abs", "", "@a/", "a//b"] {
        let v: Vec<char> = raw.chars().collect();
        let n = normalize_package_name(&v);
        assert_eq!(normalize_package_name(&n), n);
        assert_eq!(n.is_empty(), raw.is_empty() || raw.starts_with('.') || raw.starts_with('/'));
    }
}

#[test]
fn dependency_keys_that_hold_no_object() {
    let p = parse_package_json("{\"dependencies\": [\"a\"], \"devDependencies\": 3}").unwrap();
    assert!(p.dependencies.is_empty());
    assert!(p.dev_dependencies.is_empty());
}

#[test]
fn peer_manifest_with_no_object_requires_nothing() {
    let mut p = base_project();
    p.has_node_modules = true;
    p.package_json = Some(PackageJsonInfo {
        dependencies: pairs(&[("react", "18"), ("scheduler", "1"), ("loose", "1")]),
        dev_dependencies: vec![],
    });
    p.source_files = vec![source("a.js", "import r from 'react';")];
    p.import_index = build_import_index(&p.source_files);
    p.installed_manifests = vec![(
        "react".to_string(),
        "{\"peerDependencies\": \"x\", \"dependencies\": {\"scheduler\": \"1\"}}".to_string(),
    )];
    let mut f = Vec::new();
    heavy_deps::check(&p, &mut f);
    let phantoms: Vec<&str> = f
        .iter()
        .filter(|x| x.category == FindingCategory::NodePhantom)
        .map(|x| x.title.as_str())
        .collect();
    assert_eq!(phantoms, vec!["Phantom dependency: loose"]);
}
