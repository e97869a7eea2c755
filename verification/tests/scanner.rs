use green_linter::project_scanner::{
    artifact_dir_names, build_import_index, extract_import_paths, is_dockerfile_variant,
    is_skipped_dir, is_source_file, normalize_package_name, parse_package_json,
    scan_compose_dockerfiles, scan_project, ArtifactDir, ProjectType, RootEntry, RootListing,
    SourceFile,
};

fn v(s: &str) -> Vec<char> {
    s.chars().collect()
}

fn st(v: &[char]) -> String {
    v.iter().collect()
}

fn strs(v: &[Vec<char>]) -> Vec<String> {
    v.iter().map(|x| st(x)).collect()
}

fn entry(name: &str, text: Option<&str>) -> RootEntry {
    RootEntry { name: name.to_string(), is_file: true, text: text.map(|t| t.to_string()) }
}

fn empty_listing() -> RootListing {
    RootListing {
        root: "/p".to_string(),
        package_json: None,
        dockerfile: None,
        entries: vec![],
        node_modules_size: None,
        dist_size: None,
        package_lock: false,
        yarn_lock: false,
        pnpm_lock: false,
        has_dockerignore: false,
        extra_artifacts: vec![],
        source_files: vec![],
        installed_manifests: vec![],
    }
}

#[test]
fn import_paths_of_require_from_and_import() {
    let line = v("const a = require('lodash'); import b from \"react-dom/client\"; import './x.css';");
    let got = strs(&extract_import_paths(&line));
    assert_eq!(got, vec!["lodash", "react-dom/client", "./x.css"]);
}

#[test]
fn import_paths_marker_by_marker() {
    let line = v("require(\"b\"); require('a'); require('c')");
    let got = strs(&extract_import_paths(&line));
    assert_eq!(got, vec!["a", "c", "b"]);
}

#[test]
fn import_paths_skip_empty_and_unclosed() {
    assert!(extract_import_paths(&v("require('')")).is_empty());
    assert!(extract_import_paths(&v("require('abc")).is_empty());
    assert!(extract_import_paths(&v("from '")).is_empty());
}

#[test]
fn package_names_from_paths() {
    assert_eq!(st(&normalize_package_name(&v("lodash/fp"))), "lodash");
    assert_eq!(st(&normalize_package_name(&v("@scope/pkg/sub/x"))), "@scope/pkg");
    assert_eq!(st(&normalize_package_name(&v("@scope"))), "@scope");
    assert_eq!(st(&normalize_package_name(&v("./local"))), "");
    assert_eq!(st(&normalize_package_name(&v("/abs"))), "");
    assert_eq!(st(&normalize_package_name(&v("express"))), "express");
}

#[test]
fn import_index_lists_each_file_once() {
    let files = vec![
        SourceFile {
            relative_path: "a.js".to_string(),
            content: "const _ = require('lodash');\nimport x from 'lodash/fp';\nimport 'axios';".to_string(),
        },
        SourceFile { relative_path: "b.ts".to_string(), content: "import y from 'lodash'".to_string() },
    ];
    let idx = build_import_index(&files);
    assert_eq!(idx.len(), 2);
    assert_eq!(idx[0].0, "lodash");
    assert_eq!(idx[0].1, vec!["a.js".to_string(), "b.ts".to_string()]);
    assert_eq!(idx[1].0, "axios");
    assert_eq!(idx[1].1, vec!["a.js".to_string()]);
}

#[test]
fn package_json_dependencies() {
    let p = parse_package_json(
        "{\"dependencies\": {\"zod\": \"^3\", \"axios\": \"1.0\", \"weird\": 5}, \"devDependencies\": {\"jest\": \"29\"}}",
    )
    .unwrap();
    let deps: Vec<(String, String)> = p.dependencies;
    assert_eq!(
        deps,
        vec![
            ("axios".to_string(), "1.0".to_string()),
            ("weird".to_string(), "*".to_string()),
            ("zod".to_string(), "^3".to_string()),
        ]
    );
    assert_eq!(p.dev_dependencies, vec![("jest".to_string(), "29".to_string())]);
}

#[test]
fn package_json_that_is_no_json() {
    assert!(parse_package_json("{ not json").is_none());
    let p = parse_package_json("{\"name\": \"x\"}").unwrap();
    assert!(p.dependencies.is_empty());
    assert!(p.dev_dependencies.is_empty());
}

#[test]
fn dockerfile_variant_names() {
    assert!(is_dockerfile_variant(&v("Dockerfile.prod"), &v("dockerfile.prod")));
    assert!(is_dockerfile_variant(&v("api.Dockerfile"), &v("api.dockerfile")));
    assert!(is_dockerfile_variant(&v("Containerfile"), &v("containerfile")));
    assert!(!is_dockerfile_variant(&v("Dockerfile"), &v("dockerfile")));
    assert!(!is_dockerfile_variant(&v("README.md"), &v("readme.md")));
}

#[test]
fn compose_references() {
    let entries = vec![
        entry(
            "docker-compose.yml",
            Some("services:\n  api:\n    build:\n      context: .\n      dockerfile: \"./docker/Dockerfile.api\"\n  web:\n    build: .\n"),
        ),
        entry("notes.txt", Some("dockerfile: Dockerfile.ignored")),
    ];
    let refs = scan_compose_dockerfiles(&entries);
    assert_eq!(refs, vec!["Dockerfile.api".to_string(), "Dockerfile".to_string()]);
}

#[test]
fn script_references() {
    let entries = vec![
        entry("build.sh", Some("#!/bin/sh\n  docker build -f docker/Dockerfile.prod .\nDOCKER BUILD -F Other.Dockerfile .\n")),
        entry("Makefile", Some("image:\n\tpodman build -f Containerfile .\n")),
        entry("dir.sh", None),
    ];
    let refs = scan_compose_dockerfiles(&entries);
    assert_eq!(
        refs,
        vec!["Dockerfile.prod".to_string(), "Other.Dockerfile".to_string(), "Containerfile".to_string()]
    );
}

#[test]
fn compose_with_explicit_dockerfile_for_every_build() {
    let entries = vec![entry("compose.yaml", Some("x:\n  build:\n    dockerfile: api.Dockerfile\n"))];
    assert_eq!(scan_compose_dockerfiles(&entries), vec!["api.Dockerfile".to_string()]);
}

#[test]
fn script_prefix_found_in_the_line_itself() {
    // Characters whose lower-case forms take another number of bytes do not
    // shift the word that is read after the prefix.
    let entries = vec![
        entry("run.sh", Some("\u{212A}docker build -f \u{e9}x")),
        entry("b.sh", Some("\u{23A} DOCKER Build -F docker/\u{130}.Dockerfile .")),
    ];
    assert_eq!(
        scan_compose_dockerfiles(&entries),
        vec!["\u{e9}x".to_string(), "\u{130}.Dockerfile".to_string()]
    );
}

#[test]
fn script_prefix_without_a_word_names_nothing() {
    let entries = vec![entry("x.sh", Some("docker build -f   \ndocker compose build"))];
    assert!(scan_compose_dockerfiles(&entries).is_empty());
}

#[test]
fn source_file_filter() {
    assert!(is_source_file("index.js", 100));
    assert!(is_source_file("a.b.tsx", 524288));
    assert!(!is_source_file("a.js", 524289));
    assert!(!is_source_file(".js", 1));
    assert!(!is_source_file("readme.md", 1));
    assert!(!is_source_file("Makefile", 1));
    assert!(is_skipped_dir("node_modules"));
    assert!(is_skipped_dir(".git"));
    assert!(!is_skipped_dir("src"));
    assert_eq!(artifact_dir_names().len(), 8);
}

#[test]
fn scan_of_a_root_listing() {
    let mut l = empty_listing();
    l.package_json = Some(Some("{\"dependencies\": {\"left-pad\": \"1\"}}".to_string()));
    l.dockerfile = Some(Some("FROM node:20\nRUN npm ci\n".to_string()));
    l.entries = vec![
        entry("Dockerfile.dev", Some("FROM node:20-alpine")),
        entry("app.DOCKERFILE", Some("FROM ubuntu")),
        RootEntry { name: "src".to_string(), is_file: false, text: None },
    ];
    l.node_modules_size = Some(4096);
    l.yarn_lock = true;
    l.pnpm_lock = true;
    l.extra_artifacts = vec![ArtifactDir { name: "build".to_string(), size: 10 }];
    l.source_files = vec![SourceFile { relative_path: "i.js".to_string(), content: "require('left-pad')".to_string() }];
    let p = scan_project(l);
    assert_eq!(p.project_type, vec![ProjectType::Node, ProjectType::Docker]);
    assert_eq!(p.package_json.as_ref().unwrap().dependencies.len(), 1);
    let df = p.dockerfile.as_ref().unwrap();
    assert_eq!(df.filename, "Dockerfile");
    assert_eq!(df.lines, vec!["FROM node:20".to_string(), "RUN npm ci".to_string()]);
    let extras: Vec<&str> = p.extra_dockerfiles.iter().map(|d| d.filename.as_str()).collect();
    assert_eq!(extras, vec!["Dockerfile.dev", "app.DOCKERFILE"]);
    assert!(p.has_node_modules);
    assert_eq!(p.node_modules_size, 4096);
    assert!(!p.has_dist);
    assert_eq!(p.lockfiles_found, vec!["yarn.lock".to_string(), "pnpm-lock.yaml".to_string()]);
    assert!(p.has_lockfile);
    assert_eq!(p.import_index.len(), 1);
    assert_eq!(p.root_files, vec!["Dockerfile.dev".to_string(), "app.DOCKERFILE".to_string()]);
    assert!(p.compose_referenced.is_empty());
}

#[test]
fn first_variant_is_main_without_a_dockerfile() {
    let mut l = empty_listing();
    l.dockerfile = Some(None);
    l.entries = vec![entry("Containerfile", Some("FROM alpine")), entry("Dockerfile.b", None)];
    let p = scan_project(l);
    assert_eq!(p.project_type, vec![ProjectType::Docker]);
    assert_eq!(p.dockerfile.as_ref().unwrap().filename, "Containerfile");
    assert!(p.extra_dockerfiles.is_empty());
    assert!(p.package_json.is_none());
    assert!(!p.has_lockfile);
}

#[test]
fn empty_root_has_no_type() {
    let p = scan_project(empty_listing());
    assert!(p.project_type.is_empty());
    assert!(p.dockerfile.is_none());
}
