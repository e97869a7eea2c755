//! Missing and conflicting lockfiles.
use crate::eco_checks::{finding, make_finding, push_finding, Finding, FindingCategory, FindingView};
use crate::project_scanner::{ProjectInfo, ProjectType};
use crate::text::{chars_of, decimal, join, join_exec, push_all, push_decimal, push_str};
use vstd::prelude::*;

verus! {

broadcast use crate::lemma_deep_view_chars;

/// The lockfile findings of a Node project: one where no lockfile exists,
/// one where more than one does; none for other projects.
pub open spec fn spec_lockfile_findings(
    types: Seq<ProjectType>,
    has_lockfile: bool,
    lockfiles: Seq<Seq<char>>,
) -> Seq<FindingView> {
    if !types.contains(ProjectType::Node) {
        seq![]
    } else {
        (if !has_lockfile {
            seq![
                finding(
                    FindingCategory::MissingLockfile,
                    "No lockfile found"@,
                    "No package-lock.json, yarn.lock, or pnpm-lock.yaml. Builds are non-reproducible: CI installs different versions each time, wasting compute."@,
                    0,
                    Some("package.json"@),
                    None,
                ),
            ]
        } else {
            seq![]
        }) + (if lockfiles.len() > 1 {
            seq![
                finding(
                    FindingCategory::LockfileConflict,
                    decimal(lockfiles.len()) + " lockfiles found (conflict)"@,
                    "Found: "@ + join(lockfiles, ", "@)
                        + ". Multiple lockfiles cause ambiguous installs -- different team members may get different dependency trees. Keep one, delete the rest."@,
                    0,
                    None,
                    None,
                ),
            ]
        } else {
            seq![]
        })
    }
}

/// Reports a Node project without a lockfile, and one with several.
pub fn check(project: &ProjectInfo, findings: &mut Vec<Finding>)
    ensures
        final(findings).deep_view() == old(findings).deep_view() + spec_lockfile_findings(
            project.project_type@,
            project.has_lockfile,
            project.lockfiles_found.deep_view(),
        ),
{
    let mut is_node = false;
    let n = project.project_type.len();
    for i in 0..n
        invariant
            n == project.project_type@.len(),
            is_node == exists|k: int| 0 <= k < i && project.project_type@[k] == ProjectType::Node,
    {
        if project.project_type[i] == ProjectType::Node {
            is_node = true;
        }
    }
    if !is_node {
        assert(!project.project_type@.contains(ProjectType::Node));
        assert(old(findings).deep_view() + Seq::<FindingView>::empty() =~= old(
            findings,
        ).deep_view());
        return ;
    }
    let ghost start = findings.deep_view();
    if !project.has_lockfile {
        let f = make_finding(
            FindingCategory::MissingLockfile,
            chars_of("No lockfile found"),
            chars_of(
                "No package-lock.json, yarn.lock, or pnpm-lock.yaml. Builds are non-reproducible: CI installs different versions each time, wasting compute.",
            ),
            0,
            Some(chars_of("package.json")),
            None,
        );
        push_finding(findings, f);
    }
    let ghost mid = findings.deep_view();
    let count = project.lockfiles_found.len();
    if count > 1 {
        let mut title: Vec<char> = Vec::new();
        push_decimal(&mut title, count as u64);
        push_str(&mut title, " lockfiles found (conflict)");
        let mut names: Vec<Vec<char>> = Vec::new();
        for i in 0..count
            invariant
                count == project.lockfiles_found@.len(),
                names.deep_view() == project.lockfiles_found.deep_view().take(i as int),
        {
            crate::push_deep(&mut names, chars_of(project.lockfiles_found[i].as_str()));
            assert(names.deep_view() =~= project.lockfiles_found.deep_view().take(i + 1));
        }
        assert(project.lockfiles_found.deep_view().take(count as int)
            =~= project.lockfiles_found.deep_view());
        let mut detail = chars_of("Found: ");
        let joined = join_exec(&names, ", ");
        push_all(&mut detail, &joined);
        push_str(
            &mut detail,
            ". Multiple lockfiles cause ambiguous installs -- different team members may get different dependency trees. Keep one, delete the rest.",
        );
        let f = make_finding(FindingCategory::LockfileConflict, title, detail, 0, None, None);
        push_finding(findings, f);
    }
    assert(findings.deep_view() =~= old(findings).deep_view() + spec_lockfile_findings(
        project.project_type@,
        project.has_lockfile,
        project.lockfiles_found.deep_view(),
    ));
}

/// For a project as scanned (it has a lockfile exactly where some lockfile
/// was found), a Node project gets one lockfile finding exactly where it has
/// no lockfile or more than one, and never both; other projects get none.
pub proof fn law_lockfile_findings(types: Seq<ProjectType>, lockfiles: Seq<Seq<char>>)
    ensures
        ({
            let fs = spec_lockfile_findings(types, lockfiles.len() > 0, lockfiles);
            &&& fs.len() <= 1
            &&& fs.len() == 1 <==> (types.contains(ProjectType::Node) && lockfiles.len() != 1)
            &&& fs.len() == 1 ==> (fs[0].category == FindingCategory::MissingLockfile
                <==> lockfiles.len() == 0)
            &&& fs.len() == 1 ==> (fs[0].category == FindingCategory::LockfileConflict
                <==> lockfiles.len() > 1)
        }),
{
}

} // verus!
