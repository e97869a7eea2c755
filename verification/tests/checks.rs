use green_linter::eco_checks::{
    build_artifacts, docker_waste, heavy_deps, lockfile_audit, run_all_checks, Finding,
    FindingCategory,
};
use green_linter::project_scanner::{
    build_import_index, ArtifactDir, DockerfileInfo, PackageJsonInfo, ProjectInfo, ProjectType,
    SourceFile,
};

fn base_project() -> ProjectInfo {
    ProjectInfo {
        root: "/p".to_string(),
        project_type: vec![],
        package_json: None,
        dockerfile: None,
        extra_dockerfiles: vec![],
        compose_referenced: vec![],
        source_files: vec![],
        has_node_modules: false,
        node_modules_size: 0,
        has_dist: false,
        dist_size: 0,
        has_lockfile: false,
        has_dockerignore: false,
        extra_artifacts: vec![],
        lockfiles_found: vec![],
        import_index: vec![],
        root_files: vec![],
        installed_manifests: vec![],
    }
}

fn dockerfile(name: &str, lines: &[&str]) -> DockerfileInfo {
    DockerfileInfo { lines: lines.iter().map(|l| l.to_string()).collect(), filename: name.to_string() }
}

fn titles(f: &[Finding]) -> Vec<String> {
    f.iter().map(|x| x.title.clone()).collect()
}

fn pairs(v: &[(&str, &str)]) -> Vec<(String, String)> {
    v.iter().map(|(a, b)| (a.to_string(), b.to_string())).collect()
}

#[test]
fn dockerfile_patterns() {
    let mut p = base_project();
    p.project_type = vec![ProjectType::Docker];
    p.has_node_modules = true;
    p.node_modules_size = 2048;
    p.dockerfile = Some(dockerfile(
        "Dockerfile",
        &[
            "FROM ubuntu:22.04",
            "RUN apt-get update",
            "RUN apt-get install -y curl",
            "COPY . .",
            "RUN npm install",
            "ADD app.js /app/",
        ],
    ));
    let mut f = Vec::new();
    docker_waste::check(&p, &mut f);
    assert_eq!(
        titles(&f),
        vec![
            "Heavy base image: ubuntu:22.04",
            "apt-get without --no-install-recommends (line 3)",
            "ADD used where COPY suffices (line 6)",
            "COPY . before install (lines 4/5)",
            "apt-get without cleanup (line 3)",
            "2 consecutive RUN commands (lines 2-3)",
            "npm install includes devDependencies (line 5)",
            "No USER directive (runs as root)",
            "Missing .dockerignore",
        ]
    );
    assert_eq!(f[0].detail, "ubuntu:22.04 = ~77MB. alpine equivalent = ~7MB. Delta: 70MB");
    assert_eq!(f[0].wasted_bytes, 70 * 1024 * 1024);
    assert_eq!(f[0].line, Some(1));
    assert_eq!(f[0].file.as_deref(), Some("Dockerfile"));
    assert_eq!(f[1].wasted_bytes, 50 * 1024 * 1024);
    assert_eq!(f[3].line, Some(4));
    assert_eq!(
        f[3].detail,
        "COPY . . at line 4 invalidates cache for install at line 5. Copy package.json first, install, then COPY the rest."
    );
    assert_eq!(f[4].wasted_bytes, 40 * 1024 * 1024);
    assert_eq!(f[5].detail, "2 separate RUN = 2 layers. Combine with && to reduce image size.");
    assert_eq!(f[5].line, Some(2));
    assert_eq!(
        f[8].detail,
        "No .dockerignore found. Entire directory (~2.0 KB) sent as build context. node_modules, .git, dist/ included."
    );
    assert_eq!(f[8].wasted_bytes, 2048);
    assert_eq!(f[8].file, None);
    assert!(matches!(f[0].category, FindingCategory::DockerBaseImage));
    assert!(matches!(f[8].category, FindingCategory::DockerStructure));
}

#[test]
fn unpinned_and_multistage_images() {
    let mut p = base_project();
    p.has_dockerignore = true;
    p.dockerfile = Some(dockerfile(
        "Dockerfile",
        &[
            "FROM node:latest AS build",
            "RUN npm ci",
            "RUN npm run build",
            "FROM nginx",
            "USER app",
            "RUN npm ci --omit=dev",
        ],
    ));
    let mut f = Vec::new();
    docker_waste::check(&p, &mut f);
    assert_eq!(
        titles(&f),
        vec![
            "Heavy base image: node:latest",
            "Non-pinned image tag: node:latest",
            "Non-pinned image tag: nginx",
            "2 consecutive RUN commands (lines 2-3)",
        ]
    );
    assert_eq!(f[1].detail, "'node:latest' has no version pin. Builds are non-reproducible across time.");
    assert_eq!(f[2].line, Some(4));
}

#[test]
fn build_tools_without_multistage() {
    let mut p = base_project();
    p.has_dockerignore = true;
    p.dockerfile = Some(dockerfile("Dockerfile", &["FROM debian:12-slim", "RUN make all", "USER x"]));
    let mut f = Vec::new();
    docker_waste::check(&p, &mut f);
    assert_eq!(titles(&f), vec!["No multi-stage build with build tools"]);
    assert_eq!(f[0].wasted_bytes, 200 * 1024 * 1024);
}

#[test]
fn orphaned_dockerfiles() {
    let mut p = base_project();
    p.has_dockerignore = true;
    p.dockerfile = Some(dockerfile("Dockerfile", &["FROM scratch", "USER x"]));
    p.extra_dockerfiles = vec![dockerfile("Dockerfile.old", &["FROM scratch", "USER x"])];
    p.compose_referenced = vec!["Dockerfile".to_string()];
    p.root_files = vec![
        "deploy.sh".to_string(),
        "Dockerfile".to_string(),
        "compose.yml".to_string(),
        "Makefile".to_string(),
    ];
    let mut f = Vec::new();
    docker_waste::check(&p, &mut f);
    assert_eq!(titles(&f), vec!["Orphaned Dockerfile: Dockerfile.old"]);
    assert_eq!(
        f[0].detail,
        "'Dockerfile.old' is not referenced by any config file. Searched: [Makefile, compose.yml, deploy.sh]. Dead config wastes maintenance and causes confusion."
    );
}

#[test]
fn orphans_when_config_files_reference_none() {
    let mut p = base_project();
    p.has_dockerignore = true;
    p.dockerfile = Some(dockerfile("Dockerfile", &["FROM scratch", "USER x"]));
    p.root_files = vec!["x.sh".to_string(), "Dockerfile".to_string()];
    let mut f = Vec::new();
    docker_waste::check(&p, &mut f);
    assert_eq!(titles(&f), vec!["Orphaned Dockerfile: Dockerfile"]);
    assert_eq!(
        f[0].detail,
        "'Dockerfile' is not referenced by any config file. Searched: [x.sh]. Dead config wastes maintenance and causes confusion."
    );
}

#[test]
fn no_orphan_check_without_config_files() {
    let mut p = base_project();
    p.has_dockerignore = true;
    p.dockerfile = Some(dockerfile("Dockerfile", &["FROM scratch", "USER x"]));
    p.root_files = vec!["README.md".to_string(), "Dockerfile".to_string()];
    let mut f = Vec::new();
    docker_waste::check(&p, &mut f);
    assert!(f.is_empty());
}

#[test]
fn duplicate_groups_count_distinct_names() {
    let mut p = base_project();
    p.package_json = Some(PackageJsonInfo {
        dependencies: pairs(&[("yup", "1"), ("zod", "3"), ("chalk", "5")]),
        dev_dependencies: pairs(&[("zod", "3"), ("chalk", "5")]),
    });
    let mut f = Vec::new();
    heavy_deps::check(&p, &mut f);
    let dups: Vec<&Finding> = f.iter().filter(|x| x.category == FindingCategory::NodeDuplicate).collect();
    assert_eq!(dups.len(), 1);
    assert_eq!(dups[0].title, "Duplicate schema validation packages: yup + zod");
    assert_eq!(
        dups[0].detail,
        "2 packages serve the same purpose (schema validation): yup, zod. Keep one, remove the rest to reduce node_modules size and maintenance burden."
    );
}

fn node_project() -> ProjectInfo {
    let mut p = base_project();
    p.project_type = vec![ProjectType::Node];
    p.package_json = Some(PackageJsonInfo {
        dependencies: pairs(&[("moment", "^2"), ("left-pad", "1"), ("lodash", "4")]),
        dev_dependencies: pairs(&[("underscore", "1"), ("@types/node", "20")]),
    });
    p.source_files = vec![SourceFile {
        relative_path: "a.js".to_string(),
        content: "const m = require('moment');\nm.duration(1); m.tz('x');".to_string(),
    }];
    p.import_index = build_import_index(&p.source_files);
    p
}

#[test]
fn heavy_phantom_duplicate_deprecated() {
    let p = node_project();
    let mut f = Vec::new();
    heavy_deps::check(&p, &mut f);
    assert_eq!(
        titles(&f),
        vec![
            "Heavy dependency: moment (~4400KB) -- PARTIAL -- some usage needs attention",
            "Heavy dependency: lodash (~1500KB) -- NOT IMPORTED -- safe to remove",
            "Heavy dependency: underscore (~700KB) -- NOT IMPORTED -- safe to remove",
            "Phantom dependency: left-pad",
            "Duplicate utility belt packages: lodash + underscore",
            "Deprecated package: left-pad (since 2016)",
        ]
    );
    assert_eq!(
        f[0].detail,
        "Consider: dayjs (~2KB). Delta: 4398KB. Used in 1 file(s): a.js. Uses duration/timezone features. dayjs needs plugins: dayjs/plugin/duration, dayjs/plugin/timezone. Detected: .duration(, .tz("
    );
    assert_eq!(f[0].wasted_bytes, 4398 * 1024);
    assert_eq!(
        f[1].detail,
        "Consider: native ES6+ or lodash-es (~0KB). Delta: 1500KB. Installed but not imported in any source file. Safe to remove entirely, or replace with lighter alternative."
    );
    assert_eq!(
        f[3].detail,
        "'left-pad' is listed in dependencies but not imported in 1 source file(s) and not found as a peer/transitive dependency of any imported package. Likely removable. Note: dynamic requires or config-only usage may not be detected."
    );
    assert_eq!(
        f[4].detail,
        "2 packages serve the same purpose (utility belt): lodash, underscore. Keep one, remove the rest to reduce node_modules size and maintenance burden."
    );
    assert_eq!(
        f[5].detail,
        "'left-pad' is deprecated: Native method since ES2017. Replace with: String.prototype.padStart()."
    );
}

#[test]
fn peer_dependency_is_no_phantom() {
    let mut p = node_project();
    p.has_node_modules = true;
    p.installed_manifests =
        vec![("moment".to_string(), "{\"peerDependencies\": {\"left-pad\": \"*\"}}".to_string())];
    let mut f = Vec::new();
    heavy_deps::check(&p, &mut f);
    assert!(!titles(&f).iter().any(|t| t.starts_with("Phantom")));
}

#[test]
fn transitive_dependency_is_no_phantom() {
    let mut p = node_project();
    p.has_node_modules = true;
    p.installed_manifests = vec![(
        "moment".to_string(),
        "{\"peerDependencies\": {}, \"dependencies\": {\"left-pad\": \"1\"}}".to_string(),
    )];
    let mut f = Vec::new();
    heavy_deps::check(&p, &mut f);
    assert!(!titles(&f).iter().any(|t| t.starts_with("Phantom")));
}

#[test]
fn heavy_without_sources() {
    let mut p = base_project();
    p.package_json = Some(PackageJsonInfo {
        dependencies: pairs(&[("node-sass", "4"), ("axios", "1")]),
        dev_dependencies: vec![],
    });
    let mut f = Vec::new();
    heavy_deps::check(&p, &mut f);
    assert_eq!(
        titles(&f),
        vec![
            "Heavy dependency: node-sass (~15000KB) -- check usage before replacing",
            "Heavy dependency: axios (~450KB) -- check usage before replacing",
            "Deprecated package: node-sass (since 2020-10)",
        ]
    );
    assert_eq!(
        f[0].detail,
        "Consider: sass (Dart) (~5000KB). Delta: 10000KB. sass (Dart) is API-compatible. Drop-in replacement. Pure JS, no native binary."
    );
    assert_eq!(
        f[1].detail,
        "Consider: native fetch (~0KB). Delta: 450KB. No .js/.ts files found to analyze. fetch() handles basic HTTP. Add response.json() calls."
    );
}

#[test]
fn heavy_used_in_many_files() {
    let mut p = base_project();
    p.package_json = Some(PackageJsonInfo { dependencies: pairs(&[("axios", "1")]), dev_dependencies: vec![] });
    p.source_files = (0..5)
        .map(|i| SourceFile { relative_path: format!("f{}.js", i), content: "import a from 'axios'".to_string() })
        .collect();
    p.import_index = build_import_index(&p.source_files);
    let mut f = Vec::new();
    heavy_deps::check(&p, &mut f);
    assert_eq!(f[0].title, "Heavy dependency: axios (~450KB) -- SAFE to replace");
    assert_eq!(
        f[0].detail,
        "Consider: native fetch (~0KB). Delta: 450KB. Used in 5 file(s): f0.js, f1.js, f2.js +2 more. fetch() handles basic HTTP. Add response.json() calls."
    );
}

#[test]
fn build_artifacts_found() {
    let mut p = base_project();
    p.has_node_modules = true;
    p.node_modules_size = 3 * 1024 * 1024;
    p.has_dist = true;
    p.dist_size = 512;
    p.extra_artifacts = vec![ArtifactDir { name: ".next".to_string(), size: 1536 }];
    let mut f = Vec::new();
    build_artifacts::check(&p, &mut f);
    assert_eq!(
        titles(&f),
        vec!["node_modules in repository (3.0 MB)", "dist/ in repository (512 B)", ".next/ in repository (1.5 KB)"]
    );
    assert_eq!(f[0].detail, "node_modules/ found in project root: 3.0 MB. This should be in .gitignore.");
    assert_eq!(f[2].file.as_deref(), Some(".next/"));
    assert_eq!(f[2].wasted_bytes, 1536);
}

#[test]
fn lockfile_missing_and_conflicting() {
    let mut p = base_project();
    p.project_type = vec![ProjectType::Node];
    let mut f = Vec::new();
    lockfile_audit::check(&p, &mut f);
    assert_eq!(titles(&f), vec!["No lockfile found"]);
    assert_eq!(f[0].file.as_deref(), Some("package.json"));
    p.has_lockfile = true;
    p.lockfiles_found = vec!["package-lock.json".to_string(), "yarn.lock".to_string()];
    let mut g = Vec::new();
    lockfile_audit::check(&p, &mut g);
    assert_eq!(titles(&g), vec!["2 lockfiles found (conflict)"]);
    assert!(g[0].detail.starts_with("Found: package-lock.json, yarn.lock. Multiple lockfiles"));
}

#[test]
fn lockfiles_ignored_outside_node() {
    let mut p = base_project();
    p.project_type = vec![ProjectType::Docker];
    let mut f = Vec::new();
    lockfile_audit::check(&p, &mut f);
    assert!(f.is_empty());
}

#[test]
fn all_checks_in_order() {
    let mut p = node_project();
    p.has_dist = true;
    p.dist_size = 10;
    let f = run_all_checks(&p);
    let cats: Vec<&str> = f.iter().map(|x| x.category.label()).collect();
    assert_eq!(
        cats,
        vec![
            "Heavy Dependency",
            "Heavy Dependency",
            "Heavy Dependency",
            "Phantom Dependency",
            "Duplicate Dependency",
            "Deprecated Dependency",
            "Build Artifact",
            "Missing Lockfile",
        ]
    );
}

#[test]
fn category_labels() {
    assert_eq!(FindingCategory::DockerOrphaned.label(), "Docker Orphaned");
    assert_eq!(FindingCategory::NodePhantom.label(), "Phantom Dependency");
    assert_eq!(FindingCategory::LockfileConflict.label(), "Lockfile Conflict");
}
