//! Build output committed to the repository.
use crate::eco_checks::{
    finding, format_bytes, make_finding, push_finding, spec_format_bytes, Finding,
    FindingCategory, FindingView,
};
use crate::project_scanner::ProjectInfo;
use crate::text::{chars_of, push_all, push_str};
use vstd::prelude::*;

verus! {

broadcast use crate::lemma_deep_view_chars;

/// The finding for one artifact directory `name` of `size` bytes.
pub open spec fn artifact_finding(name: Seq<char>, size: u64) -> FindingView {
    finding(
        FindingCategory::BuildArtifact,
        name + "/ in repository ("@ + spec_format_bytes(size) + ")"@,
        name + "/ found in project root: "@ + spec_format_bytes(size)
            + ". Build artifacts should be generated in CI, not committed."@,
        size,
        Some(name + "/"@),
        None,
    )
}

/// The findings for the artifact directories, in order.
pub open spec fn artifact_findings(arts: Seq<(Seq<char>, u64)>) -> Seq<FindingView>
    decreases arts.len(),
{
    if arts.len() == 0 {
        seq![]
    } else {
        artifact_findings(arts.drop_last()).push(artifact_finding(arts.last().0, arts.last().1))
    }
}

/// Committed `node_modules/` and `dist/` (when present), then each other
/// artifact directory.
pub open spec fn spec_build_artifact_findings(
    has_node_modules: bool,
    node_modules_size: u64,
    has_dist: bool,
    dist_size: u64,
    arts: Seq<(Seq<char>, u64)>,
) -> Seq<FindingView> {
    (if has_node_modules {
        seq![
            finding(
                FindingCategory::BuildArtifact,
                "node_modules in repository ("@ + spec_format_bytes(node_modules_size) + ")"@,
                "node_modules/ found in project root: "@ + spec_format_bytes(node_modules_size)
                    + ". This should be in .gitignore."@,
                node_modules_size,
                Some("node_modules/"@),
                None,
            ),
        ]
    } else {
        seq![]
    }) + (if has_dist {
        seq![
            finding(
                FindingCategory::BuildArtifact,
                "dist/ in repository ("@ + spec_format_bytes(dist_size) + ")"@,
                "dist/ found in project root: "@ + spec_format_bytes(dist_size)
                    + ". Build artifacts should be generated in CI, not committed."@,
                dist_size,
                Some("dist/"@),
                None,
            ),
        ]
    } else {
        seq![]
    }) + artifact_findings(arts)
}

/// Reports committed build output: `node_modules/`, `dist/`, and the other
/// artifact directories, each with its size.
pub fn check(project: &ProjectInfo, findings: &mut Vec<Finding>)
    ensures
        final(findings).deep_view() == old(findings).deep_view() + spec_build_artifact_findings(
            project.has_node_modules,
            project.node_modules_size,
            project.has_dist,
            project.dist_size,
            project.extra_artifacts.deep_view(),
        ),
{
    let ghost start = findings.deep_view();
    if project.has_node_modules {
        let size = project.node_modules_size;
        let fb = format_bytes(size);
        let mut title = chars_of("node_modules in repository (");
        push_all(&mut title, &fb);
        push_str(&mut title, ")");
        let mut detail = chars_of("node_modules/ found in project root: ");
        push_all(&mut detail, &fb);
        push_str(&mut detail, ". This should be in .gitignore.");
        let f = make_finding(
            FindingCategory::BuildArtifact,
            title,
            detail,
            size,
            Some(chars_of("node_modules/")),
            None,
        );
        push_finding(findings, f);
    }
    if project.has_dist {
        let size = project.dist_size;
        let fb = format_bytes(size);
        let mut title = chars_of("dist/ in repository (");
        push_all(&mut title, &fb);
        push_str(&mut title, ")");
        let mut detail = chars_of("dist/ found in project root: ");
        push_all(&mut detail, &fb);
        push_str(&mut detail, ". Build artifacts should be generated in CI, not committed.");
        let f = make_finding(
            FindingCategory::BuildArtifact,
            title,
            detail,
            size,
            Some(chars_of("dist/")),
            None,
        );
        push_finding(findings, f);
    }
    let ghost mid = findings.deep_view();
    let ghost arts = project.extra_artifacts.deep_view();
    let n = project.extra_artifacts.len();
    for i in 0..n
        invariant
            n == project.extra_artifacts@.len(),
            arts == project.extra_artifacts.deep_view(),
            findings.deep_view() == mid + artifact_findings(arts.take(i as int)),
    {
        let a = &project.extra_artifacts[i];
        assert(arts[i as int] == a.deep_view());
        assert(arts.take(i + 1).drop_last() =~= arts.take(i as int));
        let name = chars_of(a.name.as_str());
        let fb = format_bytes(a.size);
        let mut title = name.clone();
        assert(title@ == name@);
        push_str(&mut title, "/ in repository (");
        push_all(&mut title, &fb);
        push_str(&mut title, ")");
        let mut detail = name.clone();
        push_str(&mut detail, "/ found in project root: ");
        push_all(&mut detail, &fb);
        push_str(&mut detail, ". Build artifacts should be generated in CI, not committed.");
        let mut file = name.clone();
        push_str(&mut file, "/");
        let f = make_finding(FindingCategory::BuildArtifact, title, detail, a.size, Some(file), None);
        push_finding(findings, f);
        assert(findings.deep_view() =~= mid + artifact_findings(arts.take(i + 1)));
    }
    assert(arts.take(n as int) =~= arts);
    assert(findings.deep_view() =~= old(findings).deep_view() + spec_build_artifact_findings(
        project.has_node_modules,
        project.node_modules_size,
        project.has_dist,
        project.dist_size,
        project.extra_artifacts.deep_view(),
    ));
}

proof fn lemma_artifact_findings(arts: Seq<(Seq<char>, u64)>)
    ensures
        artifact_findings(arts).len() == arts.len(),
        forall|k: int|
            0 <= k < arts.len() ==> {
                let f = #[trigger] artifact_findings(arts)[k];
                &&& f.category == FindingCategory::BuildArtifact
                &&& f.file == Some(arts[k].0 + "/"@)
                &&& f.wasted_bytes == arts[k].1
                &&& f.line is None
            },
    decreases arts.len(),
{
    if arts.len() > 0 {
        lemma_artifact_findings(arts.drop_last());
        let prev = artifact_findings(arts.drop_last());
        assert forall|k: int| 0 <= k < arts.len() - 1 implies artifact_findings(arts)[k] == prev[k] by {}
    }
}

/// Each committed artifact directory is reported once, in the order
/// `node_modules/`, `dist/`, then the other directories, each pointing at
/// that directory and counting its size.
pub proof fn law_artifacts_reported(
    has_node_modules: bool,
    node_modules_size: u64,
    has_dist: bool,
    dist_size: u64,
    arts: Seq<(Seq<char>, u64)>,
)
    ensures
        ({
            let fs = spec_build_artifact_findings(
                has_node_modules,
                node_modules_size,
                has_dist,
                dist_size,
                arts,
            );
            let a: int = if has_node_modules { 1 } else { 0 };
            let b: int = if has_dist { 1 } else { 0 };
            &&& fs.len() == a + b + arts.len()
            &&& forall|k: int|
                0 <= k < fs.len() ==> (#[trigger] fs[k]).category == FindingCategory::BuildArtifact
                    && fs[k].line is None
            &&& has_node_modules ==> fs[0].file == Some("node_modules/"@) && fs[0].wasted_bytes
                == node_modules_size
            &&& has_dist ==> fs[a].file == Some("dist/"@) && fs[a].wasted_bytes == dist_size
            &&& forall|k: int|
                0 <= k < arts.len() ==> fs[a + b + k].file == Some(arts[k].0 + "/"@) && fs[a + b
                    + k].wasted_bytes == arts[k].1
        }),
{
    lemma_artifact_findings(arts);
    let fs = spec_build_artifact_findings(has_node_modules, node_modules_size, has_dist, dist_size, arts);
    let af = artifact_findings(arts);
    let a: int = if has_node_modules { 1 } else { 0 };
    let b: int = if has_dist { 1 } else { 0 };
    assert forall|k: int| 0 <= k < af.len() implies fs[a + b + k] == af[k] by {}
    assert forall|k: int| 0 <= k < fs.len() implies (#[trigger] fs[k]).category
        == FindingCategory::BuildArtifact && fs[k].line is None by {
        if k >= a + b {
            assert(fs[k] == af[k - a - b]);
        }
    }
}

} // verus!
