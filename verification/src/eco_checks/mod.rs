//! Findings, their categories, and the checks that produce them.
pub mod build_artifacts;
pub mod docker_waste;
pub mod heavy_deps;
pub mod lockfile_audit;
use crate::project_scanner::ProjectInfo;
use crate::text::{decimal, digit, digit_exec, push_decimal, push_str, string_of};
use vstd::prelude::*;

verus! {

broadcast use crate::lemma_deep_view_chars;

/// One measurable piece of waste found in a project.
#[derive(Debug)]
pub struct Finding {
    pub category: FindingCategory,
    pub title: String,
    pub detail: String,
    pub wasted_bytes: u64,
    pub file: Option<String>,
    pub line: Option<usize>,
}

/// The kinds of waste the checks report.
#[derive(Debug, Clone, Copy, PartialEq, Eq, Structural)]
pub enum FindingCategory {
    DockerBaseImage,
    DockerCache,
    DockerLayerBloat,
    DockerStructure,
    DockerOrphaned,
    HeavyDependency,
    NodePhantom,
    NodeDuplicate,
    NodeDeprecated,
    BuildArtifact,
    MissingLockfile,
    LockfileConflict,
}

/// A finding as plain values.
pub struct FindingView {
    pub category: FindingCategory,
    pub title: Seq<char>,
    pub detail: Seq<char>,
    pub wasted_bytes: u64,
    pub file: Option<Seq<char>>,
    pub line: Option<usize>,
}

impl DeepView for Finding {
    type V = FindingView;

    open spec fn deep_view(&self) -> FindingView {
        FindingView {
            category: self.category,
            title: self.title@,
            detail: self.detail@,
            wasted_bytes: self.wasted_bytes,
            file: self.file.deep_view(),
            line: self.line,
        }
    }
}

/// The finding with these parts.
pub open spec fn finding(
    category: FindingCategory,
    title: Seq<char>,
    detail: Seq<char>,
    wasted_bytes: u64,
    file: Option<Seq<char>>,
    line: Option<usize>,
) -> FindingView {
    FindingView { category, title, detail, wasted_bytes, file, line }
}

/// The display label of a category.
pub open spec fn spec_label(c: FindingCategory) -> Seq<char> {
    match c {
        FindingCategory::DockerBaseImage => "Docker Base Image"@,
        FindingCategory::DockerCache => "Docker Cache"@,
        FindingCategory::DockerLayerBloat => "Docker Layer Bloat"@,
        FindingCategory::DockerStructure => "Docker Structure"@,
        FindingCategory::DockerOrphaned => "Docker Orphaned"@,
        FindingCategory::HeavyDependency => "Heavy Dependency"@,
        FindingCategory::NodePhantom => "Phantom Dependency"@,
        FindingCategory::NodeDuplicate => "Duplicate Dependency"@,
        FindingCategory::NodeDeprecated => "Deprecated Dependency"@,
        FindingCategory::BuildArtifact => "Build Artifact"@,
        FindingCategory::MissingLockfile => "Missing Lockfile"@,
        FindingCategory::LockfileConflict => "Lockfile Conflict"@,
    }
}

impl FindingCategory {
    /// The display label of the category.
    pub fn label(&self) -> (r: &str)
        ensures
            r@ == spec_label(*self),
    {
        match self {
            FindingCategory::DockerBaseImage => "Docker Base Image",
            FindingCategory::DockerCache => "Docker Cache",
            FindingCategory::DockerLayerBloat => "Docker Layer Bloat",
            FindingCategory::DockerStructure => "Docker Structure",
            FindingCategory::DockerOrphaned => "Docker Orphaned",
            FindingCategory::HeavyDependency => "Heavy Dependency",
            FindingCategory::NodePhantom => "Phantom Dependency",
            FindingCategory::NodeDuplicate => "Duplicate Dependency",
            FindingCategory::NodeDeprecated => "Deprecated Dependency",
            FindingCategory::BuildArtifact => "Build Artifact",
            FindingCategory::MissingLockfile => "Missing Lockfile",
            FindingCategory::LockfileConflict => "Lockfile Conflict",
        }
    }
}

/// Builds a finding from character vectors.
pub fn make_finding(
    category: FindingCategory,
    title: Vec<char>,
    detail: Vec<char>,
    wasted_bytes: u64,
    file: Option<Vec<char>>,
    line: Option<usize>,
) -> (f: Finding)
    ensures
        f.deep_view() == finding(
            category,
            title@,
            detail@,
            wasted_bytes,
            match file {
                Some(v) => Some(v@),
                None => None,
            },
            line,
        ),
{
    let file_s = match file {
        Some(v) => Some(string_of(&v)),
        None => None,
    };
    Finding {
        category,
        title: string_of(&title),
        detail: string_of(&detail),
        wasted_bytes,
        file: file_s,
        line,
    }
}

/// Appends a finding.
pub fn push_finding(findings: &mut Vec<Finding>, f: Finding)
    ensures
        final(findings).deep_view() == old(findings).deep_view().push(f.deep_view()),
{
    let ghost before = findings@;
    let ghost fv = f.deep_view();
    findings.push(f);
    assert forall|k: int| 0 <= k < before.len() implies findings.deep_view()[k]
        == old(findings).deep_view()[k] by {
        assert(findings@[k] == before[k]);
    }
    assert(findings.deep_view() =~= old(findings).deep_view().push(fv));
}

// ---------------------------------------------------------------------------
// Byte counts for display
// ---------------------------------------------------------------------------

pub open spec fn kib() -> nat {
    1024
}

pub open spec fn mib() -> nat {
    1048576
}

pub open spec fn gib() -> nat {
    1073741824
}

/// `a / d` rounded to the nearest integer, ties to the even one.
pub open spec fn round_half_even(a: nat, d: nat) -> nat {
    let q = a / d;
    let r = a % d;
    if 2 * r > d {
        q + 1
    } else if 2 * r < d {
        q
    } else if q % 2 == 0 {
        q
    } else {
        q + 1
    }
}

/// The spacing of 64-bit floats around `b` (for `2^53 <= b < 2^64`).
pub open spec fn float_spacing(b: nat) -> nat {
    if b < 0x40_0000_0000_0000 {
        2
    } else if b < 0x80_0000_0000_0000 {
        4
    } else if b < 0x100_0000_0000_0000 {
        8
    } else if b < 0x200_0000_0000_0000 {
        16
    } else if b < 0x400_0000_0000_0000 {
        32
    } else if b < 0x800_0000_0000_0000 {
        64
    } else if b < 0x1000_0000_0000_0000 {
        128
    } else if b < 0x2000_0000_0000_0000 {
        256
    } else if b < 0x4000_0000_0000_0000 {
        512
    } else if b < 0x8000_0000_0000_0000 {
        1024
    } else {
        2048
    }
}

/// The value of `b as f64`: `b` rounded to 53 significant bits, ties to even.
pub open spec fn as_float(b: nat) -> nat {
    if b < 0x20_0000_0000_0000 {
        b
    } else {
        let u = float_spacing(b);
        round_half_even(b, u) * u
    }
}

/// `t / 10` with one decimal (`{:.1}` of a value of `t` tenths).
pub open spec fn one_decimal(t: nat) -> Seq<char> {
    decimal(t / 10) + seq!['.', digit(t % 10)]
}

/// `b / d` as `{:.1}` prints the float quotient: rounded to tenths, ties to even.
pub open spec fn tenths(b: nat, d: nat) -> nat {
    round_half_even(10 * as_float(b), d)
}

/// A byte count for display: `B` below 1 KiB, else KB, MB or GB with one decimal.
pub open spec fn spec_format_bytes(b: u64) -> Seq<char> {
    if b >= gib() {
        one_decimal(tenths(b as nat, gib())) + " GB"@
    } else if b >= mib() {
        one_decimal(tenths(b as nat, mib())) + " MB"@
    } else if b >= kib() {
        one_decimal(tenths(b as nat, kib())) + " KB"@
    } else {
        decimal(b as nat) + " B"@
    }
}

fn round_half_even_exec(a: u128, d: u128) -> (r: u128)
    requires
        0 < d,
        a < 0x1_0000_0000_0000_0000_0000_0000,
    ensures
        r == round_half_even(a as nat, d as nat),
        r * d <= a + d,
{
    let q = a / d;
    let m = a % d;
    proof {
        vstd::arithmetic::div_mod::lemma_fundamental_div_mod(a as int, d as int);
        assert(q * d <= a) by (nonlinear_arith)
            requires
                a == d * q + m,
                0 <= m,
        ;
        assert((q + 1) * d == q * d + d) by (nonlinear_arith);
    }
    if 2 * m > d {
        q + 1
    } else if 2 * m < d {
        q
    } else if q % 2 == 0 {
        q
    } else {
        q + 1
    }
}

fn as_float_exec(b: u64) -> (r: u128)
    ensures
        r == as_float(b as nat),
        r <= b + 2048,
{
    let x = b as u128;
    if b < 0x20_0000_0000_0000 {
        return x;
    }
    let u: u128 = if b < 0x40_0000_0000_0000 {
        2
    } else if b < 0x80_0000_0000_0000 {
        4
    } else if b < 0x100_0000_0000_0000 {
        8
    } else if b < 0x200_0000_0000_0000 {
        16
    } else if b < 0x400_0000_0000_0000 {
        32
    } else if b < 0x800_0000_0000_0000 {
        64
    } else if b < 0x1000_0000_0000_0000 {
        128
    } else if b < 0x2000_0000_0000_0000 {
        256
    } else if b < 0x4000_0000_0000_0000 {
        512
    } else if b < 0x8000_0000_0000_0000 {
        1024
    } else {
        2048
    };
    let q = round_half_even_exec(x, u);
    q * u
}

fn push_one_decimal(v: &mut Vec<char>, t: u128)
    requires
        t < 0x1_0000_0000_0000,
    ensures
        final(v)@ == old(v)@ + one_decimal(t as nat),
{
    push_decimal(v, (t / 10) as u64);
    v.push('.');
    v.push(digit_exec((t % 10) as u64));
}

/// A byte count for display, e.g. `"1.5 KB"` or `"512 B"`.
pub fn format_bytes(bytes: u64) -> (r: Vec<char>)
    ensures
        r@ == spec_format_bytes(bytes),
{
    let mut v: Vec<char> = Vec::new();
    if bytes >= 1073741824 {
        let f = as_float_exec(bytes);
        let t = round_half_even_exec(10 * f, 1073741824);
        push_one_decimal(&mut v, t);
        push_str(&mut v, " GB");
    } else if bytes >= 1048576 {
        let f = as_float_exec(bytes);
        let t = round_half_even_exec(10 * f, 1048576);
        push_one_decimal(&mut v, t);
        push_str(&mut v, " MB");
    } else if bytes >= 1024 {
        let f = as_float_exec(bytes);
        let t = round_half_even_exec(10 * f, 1024);
        push_one_decimal(&mut v, t);
        push_str(&mut v, " KB");
    } else {
        push_decimal(&mut v, bytes);
        push_str(&mut v, " B");
    }
    v
}

// ---------------------------------------------------------------------------
// All checks
// ---------------------------------------------------------------------------

/// Every finding of a project: Docker, then npm dependencies, then build
/// artifacts, then lockfiles.
pub open spec fn spec_all_findings(p: &ProjectInfo) -> Seq<FindingView> {
    docker_waste::spec_docker_findings(p) + heavy_deps::spec_heavy_deps_findings(p)
        + build_artifacts::spec_build_artifact_findings(
        p.has_node_modules,
        p.node_modules_size,
        p.has_dist,
        p.dist_size,
        p.extra_artifacts.deep_view(),
    ) + lockfile_audit::spec_lockfile_findings(
        p.project_type@,
        p.has_lockfile,
        p.lockfiles_found.deep_view(),
    )
}

/// Runs every check on the project.
pub fn run_all_checks(project: &ProjectInfo) -> (r: Vec<Finding>)
    requires
        docker_waste::has_any_dockerfile(project) && !project.has_dockerignore
            ==> docker_waste::build_context(
            project.has_node_modules,
            project.node_modules_size,
            project.has_dist,
            project.dist_size,
        ) <= u64::MAX,
    ensures
        r.deep_view() == spec_all_findings(project),
{
    let mut findings: Vec<Finding> = Vec::new();
    docker_waste::check(project, &mut findings);
    heavy_deps::check(project, &mut findings);
    build_artifacts::check(project, &mut findings);
    lockfile_audit::check(project, &mut findings);
    assert(findings.deep_view() =~= spec_all_findings(project));
    findings
}

/// Two projects that hold the same files and facts, wherever their roots are.
pub open spec fn same_contents(p: &ProjectInfo, q: &ProjectInfo) -> bool {
    &&& p.project_type@ == q.project_type@
    &&& p.package_json.deep_view() == q.package_json.deep_view()
    &&& p.dockerfile.deep_view() == q.dockerfile.deep_view()
    &&& p.extra_dockerfiles.deep_view() == q.extra_dockerfiles.deep_view()
    &&& p.compose_referenced.deep_view() == q.compose_referenced.deep_view()
    &&& p.source_files.deep_view() == q.source_files.deep_view()
    &&& p.has_node_modules == q.has_node_modules
    &&& p.node_modules_size == q.node_modules_size
    &&& p.has_dist == q.has_dist
    &&& p.dist_size == q.dist_size
    &&& p.has_lockfile == q.has_lockfile
    &&& p.has_dockerignore == q.has_dockerignore
    &&& p.extra_artifacts.deep_view() == q.extra_artifacts.deep_view()
    &&& p.lockfiles_found.deep_view() == q.lockfiles_found.deep_view()
    &&& p.import_index.deep_view() == q.import_index.deep_view()
    &&& p.root_files.deep_view() == q.root_files.deep_view()
    &&& p.installed_manifests.deep_view() == q.installed_manifests.deep_view()
}

proof fn lemma_heavy_findings_same(
    p: &ProjectInfo,
    q: &ProjectInfo,
    all: Seq<(Seq<char>, Seq<char>)>,
    n: int,
)
    requires
        same_contents(p, q),
    ensures
        heavy_deps::heavy_findings(p, all, n) == heavy_deps::heavy_findings(q, all, n),
    decreases n,
{
    assert(p.source_files@.len() == q.source_files.deep_view().len());
    if n > 0 {
        lemma_heavy_findings_same(p, q, all, n - 1);
        let name = all[n - 1].0;
        match heavy_deps::heavy_index(name) {
            None => {},
            Some(k) => {
                let h = heavy_deps::heavy_table(k);
                assert(heavy_deps::spec_usage_files(p, h) == heavy_deps::spec_usage_files(q, h));
                assert(heavy_deps::spec_risky(p, h) == heavy_deps::spec_risky(q, h));
            },
        }
    }
}

/// The same project contents always give the same findings, in the same
/// order; where the project's root lies plays no part.
pub proof fn law_findings_reproducible(p: &ProjectInfo, q: &ProjectInfo)
    requires
        same_contents(p, q),
    ensures
        spec_all_findings(p) == spec_all_findings(q),
{
    assert(p.source_files@.len() == q.source_files.deep_view().len());
    match p.package_json.deep_view() {
        None => {},
        Some(pkg) => {
            let all = pkg.0 + pkg.1;
            lemma_heavy_findings_same(p, q, all, all.len() as int);
            assert(heavy_deps::imported_names(p) == heavy_deps::imported_names(q));
            assert(heavy_deps::peer_required(p, heavy_deps::imported_names(p))
                == heavy_deps::peer_required(q, heavy_deps::imported_names(q)));
        },
    }
    assert(heavy_deps::spec_heavy_deps_findings(p) == heavy_deps::spec_heavy_deps_findings(q));
    assert(docker_waste::spec_docker_findings(p) == docker_waste::spec_docker_findings(q));
}

} // verus!
