//! Dockerfile anti-patterns, a missing `.dockerignore`, and Dockerfiles
//! that nothing references.
use crate::eco_checks::{
    finding, format_bytes, make_finding, push_finding, spec_format_bytes, Finding,
    FindingCategory, FindingView,
};
use crate::project_scanner::{is_compose_name, is_script_name, DockerfileInfo, ProjectInfo};
use crate::text::{
    begins, chars_of, contains, decimal, finishes, first_word, first_word_exec, includes, is_ws, join,
    join_exec, lines, lower, lower_exec, push_all, push_decimal, push_str, slice_of,
    starts_with, trim, trim_exec, upper, upper_exec,
};
use vstd::prelude::*;

verus! {

broadcast use crate::lemma_deep_view_chars;

// ---------------------------------------------------------------------------
// Base images (patterns 1-3)
// ---------------------------------------------------------------------------

/// The image a `FROM` line names: the first word after the keyword. The
/// keyword is cut off as its first five characters; where the line's upper
/// case starts with `FROM `, these are ASCII, so this is the byte cut `[5..]`.
pub open spec fn image_of(t: Seq<char>) -> Seq<char> {
    let k = if t.len() < 5 {
        t.len() as int
    } else {
        5
    };
    first_word(trim(t.subrange(k, t.len() as int)))
}

/// The images known to be heavy: a pattern, its size and that of its
/// alpine equivalent, in MB.
pub open spec fn heavy_image(k: int) -> (Seq<char>, u64, u64) {
    if k == 0 {
        ("ubuntu"@, 77, 7)
    } else if k == 1 {
        ("debian"@, 124, 7)
    } else if k == 2 {
        ("centos"@, 231, 7)
    } else if k == 3 {
        ("fedora"@, 187, 7)
    } else if k == 4 {
        ("node:"@, 350, 50)
    } else {
        ("python:"@, 340, 50)
    }
}

/// The first heavy image at or after `k` whose pattern the (lower-case)
/// image contains.
pub open spec fn first_heavy(il: Seq<char>, k: int) -> Option<int>
    decreases 6 - k,
{
    if k < 0 || k >= 6 {
        None
    } else if contains(il, heavy_image(k).0) {
        Some(k)
    } else {
        first_heavy(il, k + 1)
    }
}

/// The heavy image the line's image matches, given its lower-case form:
/// none where it is an alpine or slim variant.
pub open spec fn heavy_match(il: Seq<char>) -> Option<int> {
    if !contains(il, "alpine"@) && !contains(il, "slim"@) {
        first_heavy(il, 0)
    } else {
        None
    }
}

/// The base-image findings of one line (patterns 1-3), given the trimmed
/// line's upper-case form `u` and the image's lower-case form `il`.
pub open spec fn from_line_findings(
    fname: Seq<char>,
    line: Seq<char>,
    u: Seq<char>,
    il: Seq<char>,
    i: int,
) -> Seq<FindingView> {
    if !starts_with(u, "FROM "@) {
        seq![]
    } else {
        let image = image_of(trim(line));
        let ln = Some((i + 1) as usize);
        let f = Some(fname);
        let heavy = heavy_match(il);
        (match heavy {
            Some(k) => {
                let (pat, size, alp) = heavy_image(k);
                let delta = (size - alp) as u64;
                seq![
                    finding(
                        FindingCategory::DockerBaseImage,
                        "Heavy base image: "@ + image,
                        image + " = ~"@ + decimal(size as nat) + "MB. alpine equivalent = ~"@
                            + decimal(alp as nat) + "MB. Delta: "@ + decimal(delta as nat)
                            + "MB"@,
                        (delta * 1024 * 1024) as u64,
                        f,
                        ln,
                    ),
                ]
            },
            None => seq![],
        }) + (if contains(image, ":latest"@) || (!contains(image, ":"@) && !contains(
            image,
            "scratch"@,
        )) {
            seq![
                finding(
                    FindingCategory::DockerBaseImage,
                    "Non-pinned image tag: "@ + image,
                    "'"@ + image + "' has no version pin. Builds are non-reproducible across time."@,
                    0,
                    f,
                    ln,
                ),
            ]
        } else {
            seq![]
        }) + (if heavy is None && !contains(il, "alpine"@) && !contains(il, "slim"@) && !contains(
            il,
            "scratch"@,
        ) && (starts_with(il, "node:"@) || starts_with(il, "python:"@)) {
            seq![
                finding(
                    FindingCategory::DockerBaseImage,
                    "No slim/alpine variant: "@ + image,
                    "'"@ + image + "' uses full image (~350MB). "@ + (if starts_with(il, "node:"@) {
                        "node"@
                    } else {
                        "python"@
                    }) + "-alpine is ~50MB. Delta: ~300MB"@,
                    314572800,
                    f,
                    ln,
                ),
            ]
        } else {
            seq![]
        })
    }
}

/// The base-image findings of the first `n` lines.
pub open spec fn from_findings(
    fname: Seq<char>,
    ls: Seq<Seq<char>>,
    us: Seq<Seq<char>>,
    ils: Seq<Seq<char>>,
    n: int,
) -> Seq<FindingView>
    decreases n,
{
    if n <= 0 {
        seq![]
    } else {
        from_findings(fname, ls, us, ils, n - 1) + from_line_findings(
            fname,
            ls[n - 1],
            us[n - 1],
            ils[n - 1],
            n - 1,
        )
    }
}

fn heavy_image_exec(k: usize) -> (r: (Vec<char>, u64, u64))
    requires
        k < 6,
    ensures
        r.0@ == heavy_image(k as int).0,
        r.1 == heavy_image(k as int).1,
        r.2 == heavy_image(k as int).2,
{
    if k == 0 {
        (chars_of("ubuntu"), 77, 7)
    } else if k == 1 {
        (chars_of("debian"), 124, 7)
    } else if k == 2 {
        (chars_of("centos"), 231, 7)
    } else if k == 3 {
        (chars_of("fedora"), 187, 7)
    } else if k == 4 {
        (chars_of("node:"), 350, 50)
    } else {
        (chars_of("python:"), 340, 50)
    }
}

fn heavy_match_exec(il: &Vec<char>) -> (r: Option<usize>)
    ensures
        match r {
            Some(k) => heavy_match(il@) == Some(k as int) && k < 6,
            None => heavy_match(il@) is None,
        },
{
    if includes(il, "alpine") || includes(il, "slim") {
        return None;
    }
    let mut k: usize = 0;
    while k < 6
        invariant
            k <= 6,
            !contains(il@, "alpine"@),
            !contains(il@, "slim"@),
            first_heavy(il@, k as int) == first_heavy(il@, 0),
        decreases 6 - k,
    {
        let (pat, _, _) = heavy_image_exec(k);
        if crate::text::contains_exec(il, &pat) {
            assert(first_heavy(il@, k as int) == Some(k as int));
            return Some(k);
        }
        k = k + 1;
    }
    None
}

/// The image a trimmed `FROM` line names.
pub fn image_of_exec(t: &Vec<char>) -> (r: Vec<char>)
    ensures
        r@ == image_of(t@),
{
    let k = if t.len() < 5 {
        t.len()
    } else {
        5
    };
    let rest = slice_of(t, k, t.len());
    let tr = trim_exec(&rest);
    first_word_exec(&tr)
}

fn from_line_exec(
    out: &mut Vec<Finding>,
    fname: &Vec<char>,
    line: &Vec<char>,
    u: &Vec<char>,
    il: &Vec<char>,
    i: usize,
)
    requires
        i < usize::MAX,
    ensures
        final(out).deep_view() == old(out).deep_view() + from_line_findings(
            fname@,
            line@,
            u@,
            il@,
            i as int,
        ),
{
    if !begins(u, "FROM ") {
        assert(old(out).deep_view() + Seq::<FindingView>::empty() =~= old(out).deep_view());
        return ;
    }
    let t = trim_exec(line);
    let image = image_of_exec(&t);
    let ln = i + 1;
    let ghost start = out.deep_view();
    let heavy = heavy_match_exec(il);
    match heavy {
        Some(k) => {
            let (_, size, alp) = heavy_image_exec(k);
            let delta = size - alp;
            let mut title = chars_of("Heavy base image: ");
            push_all(&mut title, &image);
            let mut detail = slice_of(&image, 0, image.len());
            push_str(&mut detail, " = ~");
            push_decimal(&mut detail, size);
            push_str(&mut detail, "MB. alpine equivalent = ~");
            push_decimal(&mut detail, alp);
            push_str(&mut detail, "MB. Delta: ");
            push_decimal(&mut detail, delta);
            push_str(&mut detail, "MB");
            assert(image@.subrange(0, image@.len() as int) =~= image@);
            let f = make_finding(
                FindingCategory::DockerBaseImage,
                title,
                detail,
                delta * 1024 * 1024,
                Some(slice_of(fname, 0, fname.len())),
                Some(ln),
            );
            assert(fname@.subrange(0, fname@.len() as int) =~= fname@);
            push_finding(out, f);
        },
        None => {},
    }
    let ghost mid1 = out.deep_view();
    if includes(&image, ":latest") || (!includes(&image, ":") && !includes(&image, "scratch")) {
        let mut title = chars_of("Non-pinned image tag: ");
        push_all(&mut title, &image);
        let mut detail = chars_of("'");
        push_all(&mut detail, &image);
        push_str(&mut detail, "' has no version pin. Builds are non-reproducible across time.");
        let f = make_finding(
            FindingCategory::DockerBaseImage,
            title,
            detail,
            0,
            Some(slice_of(fname, 0, fname.len())),
            Some(ln),
        );
        assert(fname@.subrange(0, fname@.len() as int) =~= fname@);
        push_finding(out, f);
    }
    let ghost mid2 = out.deep_view();
    if heavy.is_none() && !includes(il, "alpine") && !includes(il, "slim") && !includes(il, "scratch") && (begins(
        il,
        "node:",
    ) || begins(il, "python:")) {
        let mut title = chars_of("No slim/alpine variant: ");
        push_all(&mut title, &image);
        let mut detail = chars_of("'");
        push_all(&mut detail, &image);
        push_str(&mut detail, "' uses full image (~350MB). ");
        if begins(il, "node:") {
            push_str(&mut detail, "node");
        } else {
            push_str(&mut detail, "python");
        }
        push_str(&mut detail, "-alpine is ~50MB. Delta: ~300MB");
        let f = make_finding(
            FindingCategory::DockerBaseImage,
            title,
            detail,
            314572800,
            Some(slice_of(fname, 0, fname.len())),
            Some(ln),
        );
        assert(fname@.subrange(0, fname@.len() as int) =~= fname@);
        push_finding(out, f);
    }
    assert(out.deep_view() =~= old(out).deep_view() + from_line_findings(
        fname@,
        line@,
        u@,
        il@,
        i as int,
    ));
}

// ---------------------------------------------------------------------------
// Cache (patterns 4-6)
// ---------------------------------------------------------------------------

/// `COPY . ` or `COPY ./` (upper case, trimmed).
pub open spec fn is_copy_all(u: Seq<char>) -> bool {
    starts_with(u, "COPY . "@) || starts_with(u, "COPY ./"@)
}

/// A package install (upper case, trimmed).
pub open spec fn is_install(u: Seq<char>) -> bool {
    contains(u, "NPM INSTALL"@) || contains(u, "YARN INSTALL"@) || contains(u, "PNPM INSTALL"@)
}

/// The cache findings raised on line `i` itself (patterns 5 and 6).
pub open spec fn cache_line_findings(fname: Seq<char>, u: Seq<char>, i: int) -> Seq<FindingView> {
    let ln = (i + 1) as usize;
    (if starts_with(u, "ADD "@) && !contains(u, "HTTP"@) && !contains(u, ".TAR"@) && !contains(
        u,
        ".GZ"@,
    ) {
        seq![
            finding(
                FindingCategory::DockerCache,
                "ADD used where COPY suffices (line "@ + decimal(ln as nat) + ")"@,
                "ADD has extra functionality (URL fetch, tar extraction). COPY is explicit and cache-friendly."@,
                0,
                Some(fname),
                Some(ln),
            ),
        ]
    } else {
        seq![]
    }) + (if contains(u, "APT-GET INSTALL"@) && !contains(u, "--NO-INSTALL-RECOMMENDS"@) {
        seq![
            finding(
                FindingCategory::DockerCache,
                "apt-get without --no-install-recommends (line "@ + decimal(ln as nat) + ")"@,
                "Recommended packages add ~30-100MB of unnecessary dependencies."@,
                52428800,
                Some(fname),
                Some(ln),
            ),
        ]
    } else {
        seq![]
    })
}

/// The per-line cache findings of the first `n` lines.
pub open spec fn cache_lines(fname: Seq<char>, us: Seq<Seq<char>>, n: int) -> Seq<FindingView>
    decreases n,
{
    if n <= 0 {
        seq![]
    } else {
        cache_lines(fname, us, n - 1) + cache_line_findings(fname, us[n - 1], n - 1)
    }
}

/// The first of the first `n` lines that copies the whole context.
pub open spec fn first_copy(us: Seq<Seq<char>>, n: int) -> Option<int>
    decreases n,
{
    if n <= 0 {
        None
    } else {
        match first_copy(us, n - 1) {
            Some(k) => Some(k),
            None => if is_copy_all(us[n - 1]) {
                Some(n - 1)
            } else {
                None
            },
        }
    }
}

/// The last of the first `n` lines that installs packages.
pub open spec fn last_install(us: Seq<Seq<char>>, n: int) -> Option<int>
    decreases n,
{
    if n <= 0 {
        None
    } else if is_install(us[n - 1]) {
        Some(n - 1)
    } else {
        last_install(us, n - 1)
    }
}

/// The cache findings of a Dockerfile: per line, then a whole-context copy
/// that comes before the last install (pattern 4).
pub open spec fn cache_findings(fname: Seq<char>, us: Seq<Seq<char>>) -> Seq<FindingView> {
    cache_lines(fname, us, us.len() as int) + match (
        first_copy(us, us.len() as int),
        last_install(us, us.len() as int),
    ) {
        (Some(c), Some(s)) => if c < s {
            let cl = (c + 1) as usize;
            let sl = (s + 1) as usize;
            seq![
                finding(
                    FindingCategory::DockerCache,
                    "COPY . before install (lines "@ + decimal(cl as nat) + "/"@ + decimal(
                        sl as nat,
                    ) + ")"@,
                    "COPY . . at line "@ + decimal(cl as nat) + " invalidates cache for install at line "@
                        + decimal(sl as nat)
                        + ". Copy package.json first, install, then COPY the rest."@,
                    0,
                    Some(fname),
                    Some(cl),
                ),
            ]
        } else {
            seq![]
        },
        _ => seq![],
    }
}

fn cache_findings_exec(out: &mut Vec<Finding>, fname: &Vec<char>, us: &Vec<Vec<char>>)
    ensures
        final(out).deep_view() == old(out).deep_view() + cache_findings(fname@, us.deep_view()),
{
    let ghost ud = us.deep_view();
    let ghost start = out.deep_view();
    let mut copy_all: Option<usize> = None;
    let mut install: Option<usize> = None;
    let n = us.len();
    assert(fname@.subrange(0, fname@.len() as int) =~= fname@);
    for i in 0..n
        invariant
            n == us@.len(),
            ud == us.deep_view(),
            fname@.subrange(0, fname@.len() as int) == fname@,
            out.deep_view() == start + cache_lines(fname@, ud, i as int),
            copy_all == match first_copy(ud, i as int) {
                Some(k) => Some(k as usize),
                None => None::<usize>,
            },
            install == match last_install(ud, i as int) {
                Some(k) => Some(k as usize),
                None => None::<usize>,
            },
            first_copy(ud, i as int) matches Some(k) ==> 0 <= k < i,
            last_install(ud, i as int) matches Some(k) ==> 0 <= k < i,
    {
        let u = &us[i];
        assert(ud[i as int] == u@);
        let ln = i + 1;
        if begins(u, "COPY . ") || begins(u, "COPY ./") {
            if copy_all.is_none() {
                copy_all = Some(i);
            }
        }
        if includes(u, "NPM INSTALL") || includes(u, "YARN INSTALL") || includes(u, "PNPM INSTALL") {
            install = Some(i);
        }
        let ghost before = out.deep_view();
        if begins(u, "ADD ") && !includes(u, "HTTP") && !includes(u, ".TAR") && !includes(u, ".GZ") {
            let mut title = chars_of("ADD used where COPY suffices (line ");
            push_decimal(&mut title, ln as u64);
            push_str(&mut title, ")");
            let f = make_finding(
                FindingCategory::DockerCache,
                title,
                chars_of(
                    "ADD has extra functionality (URL fetch, tar extraction). COPY is explicit and cache-friendly.",
                ),
                0,
                Some(slice_of(fname, 0, fname.len())),
                Some(ln),
            );
            push_finding(out, f);
        }
        if includes(u, "APT-GET INSTALL") && !includes(u, "--NO-INSTALL-RECOMMENDS") {
            let mut title = chars_of("apt-get without --no-install-recommends (line ");
            push_decimal(&mut title, ln as u64);
            push_str(&mut title, ")");
            let f = make_finding(
                FindingCategory::DockerCache,
                title,
                chars_of("Recommended packages add ~30-100MB of unnecessary dependencies."),
                52428800,
                Some(slice_of(fname, 0, fname.len())),
                Some(ln),
            );
            push_finding(out, f);
        }
        assert(out.deep_view() =~= before + cache_line_findings(fname@, ud[i as int], i as int));
    }
    let ghost mid = out.deep_view();
    match (copy_all, install) {
        (Some(c), Some(s)) => {
            if c < s {
                let cl = c + 1;
                let sl = s + 1;
                let mut title = chars_of("COPY . before install (lines ");
                push_decimal(&mut title, cl as u64);
                push_str(&mut title, "/");
                push_decimal(&mut title, sl as u64);
                push_str(&mut title, ")");
                let mut detail = chars_of("COPY . . at line ");
                push_decimal(&mut detail, cl as u64);
                push_str(&mut detail, " invalidates cache for install at line ");
                push_decimal(&mut detail, sl as u64);
                push_str(&mut detail, ". Copy package.json first, install, then COPY the rest.");
                let f = make_finding(
                    FindingCategory::DockerCache,
                    title,
                    detail,
                    0,
                    Some(slice_of(fname, 0, fname.len())),
                    Some(cl),
                );
                push_finding(out, f);
            }
        },
        _ => {},
    }
    assert(out.deep_view() =~= old(out).deep_view() + cache_findings(fname@, ud));
}

// ---------------------------------------------------------------------------
// Structure (patterns 10 and 12)
// ---------------------------------------------------------------------------

/// A `FROM` line (upper case, trimmed).
pub open spec fn is_from(u: Seq<char>) -> bool {
    starts_with(u, "FROM "@)
}

/// The number of `FROM` lines among the first `n`.
pub open spec fn from_count(us: Seq<Seq<char>>, n: int) -> nat
    decreases n,
{
    if n <= 0 {
        0
    } else {
        from_count(us, n - 1) + if is_from(us[n - 1]) {
            1nat
        } else {
            0nat
        }
    }
}

/// The structure findings: build tools without a multi-stage build, and no
/// `USER` directive; `cu` is the upper case of the whole Dockerfile.
pub open spec fn structure_findings(fname: Seq<char>, us: Seq<Seq<char>>, cu: Seq<char>) -> Seq<
    FindingView,
> {
    let tools = contains(cu, "GCC"@) || contains(cu, "G++"@) || contains(cu, "MAKE"@) || contains(
        cu,
        "BUILD-ESSENTIAL"@,
    ) || contains(cu, "NPM RUN BUILD"@);
    let has_user = exists|i: int| 0 <= i < us.len() && starts_with(#[trigger] us[i], "USER "@);
    (if from_count(us, us.len() as int) <= 1 && tools {
        seq![
            finding(
                FindingCategory::DockerStructure,
                "No multi-stage build with build tools"@,
                "Build tools (gcc, make, build-essential, npm run build) remain in production image. Use multi-stage to drop them."@,
                209715200,
                Some(fname),
                None,
            ),
        ]
    } else {
        seq![]
    }) + (if !has_user {
        seq![
            finding(
                FindingCategory::DockerStructure,
                "No USER directive (runs as root)"@,
                "Container runs as root. Add USER directive for security."@,
                0,
                Some(fname),
                None,
            ),
        ]
    } else {
        seq![]
    })
}

fn structure_findings_exec(
    out: &mut Vec<Finding>,
    fname: &Vec<char>,
    us: &Vec<Vec<char>>,
    cu: &Vec<char>,
)
    ensures
        final(out).deep_view() == old(out).deep_view() + structure_findings(
            fname@,
            us.deep_view(),
            cu@,
        ),
{
    let ghost ud = us.deep_view();
    let mut count: usize = 0;
    let mut has_user = false;
    let n = us.len();
    for i in 0..n
        invariant
            n == us@.len(),
            ud == us.deep_view(),
            count == from_count(ud, i as int),
            count <= i,
            has_user == exists|k: int| 0 <= k < i && starts_with(#[trigger] ud[k], "USER "@),
    {
        assert(ud[i as int] == us@[i as int]@);
        if begins(&us[i], "FROM ") {
            count = count + 1;
        }
        if begins(&us[i], "USER ") {
            has_user = true;
        }
    }
    let tools = includes(cu, "GCC") || includes(cu, "G++") || includes(cu, "MAKE") || includes(
        cu,
        "BUILD-ESSENTIAL",
    ) || includes(cu, "NPM RUN BUILD");
    assert(fname@.subrange(0, fname@.len() as int) =~= fname@);
    if count <= 1 && tools {
        let f = make_finding(
            FindingCategory::DockerStructure,
            chars_of("No multi-stage build with build tools"),
            chars_of(
                "Build tools (gcc, make, build-essential, npm run build) remain in production image. Use multi-stage to drop them.",
            ),
            209715200,
            Some(slice_of(fname, 0, fname.len())),
            None,
        );
        push_finding(out, f);
    }
    if !has_user {
        let f = make_finding(
            FindingCategory::DockerStructure,
            chars_of("No USER directive (runs as root)"),
            chars_of("Container runs as root. Add USER directive for security."),
            0,
            Some(slice_of(fname, 0, fname.len())),
            None,
        );
        push_finding(out, f);
    }
    assert(out.deep_view() =~= old(out).deep_view() + structure_findings(fname@, ud, cu@));
}

// ---------------------------------------------------------------------------
// Layer bloat (patterns 7-9)
// ---------------------------------------------------------------------------

/// The index of the last `FROM` line among the first `n`, or 0.
pub open spec fn last_from(us: Seq<Seq<char>>, n: int) -> int
    decreases n,
{
    if n <= 0 {
        0
    } else if is_from(us[n - 1]) {
        n - 1
    } else {
        last_from(us, n - 1)
    }
}

/// The finding for a run of consecutive `RUN` lines (by line number).
pub open spec fn runs_finding(fname: Seq<char>, runs: Seq<usize>) -> FindingView {
    finding(
        FindingCategory::DockerLayerBloat,
        decimal(runs.len()) + " consecutive RUN commands (lines "@ + decimal(runs[0] as nat) + "-"@
            + decimal(runs.last() as nat) + ")"@,
        decimal(runs.len()) + " separate RUN = "@ + decimal(runs.len())
            + " layers. Combine with && to reduce image size."@,
        0,
        Some(fname),
        Some(runs[0]),
    )
}

/// The layer-bloat scan so far: its findings, and the current run of
/// consecutive `RUN` lines.
pub struct BloatScan {
    pub findings: Seq<FindingView>,
    pub runs: Seq<usize>,
}

/// Line `i` (upper case `u`) added to the scan; `in_final` tells whether it
/// lies in the final build stage.
pub open spec fn bloat_line(
    st: BloatScan,
    fname: Seq<char>,
    u: Seq<char>,
    i: int,
    in_final: bool,
) -> BloatScan {
    let ln = (i + 1) as usize;
    let f1 = if contains(u, "APT-GET INSTALL"@) && !contains(u, "RM -RF"@) && !contains(
        u,
        "CLEAN"@,
    ) {
        seq![
            finding(
                FindingCategory::DockerLayerBloat,
                "apt-get without cleanup (line "@ + decimal(ln as nat) + ")"@,
                "apt cache stays in layer (~30-50MB). Add: && rm -rf /var/lib/apt/lists/*"@,
                41943040,
                Some(fname),
                Some(ln),
            ),
        ]
    } else {
        seq![]
    };
    let is_run = starts_with(u, "RUN "@);
    let breaks = !is_run && u.len() > 0 && !starts_with(u, "#"@);
    let f2 = if breaks && st.runs.len() > 1 {
        seq![runs_finding(fname, st.runs)]
    } else {
        seq![]
    };
    let runs = if is_run {
        st.runs.push(ln)
    } else if breaks {
        seq![]
    } else {
        st.runs
    };
    let f3 = if in_final && (contains(u, "NPM INSTALL"@) || contains(u, "NPM CI"@)) && !contains(
        u,
        "--OMIT=DEV"@,
    ) && !contains(u, "--PRODUCTION"@) && !contains(u, "NODE_ENV=PRODUCTION"@) {
        seq![
            finding(
                FindingCategory::DockerLayerBloat,
                "npm install includes devDependencies (line "@ + decimal(ln as nat) + ")"@,
                "Production image includes devDependencies. Add --omit=dev to exclude them."@,
                0,
                Some(fname),
                Some(ln),
            ),
        ]
    } else {
        seq![]
    };
    BloatScan { findings: st.findings + f1 + f2 + f3, runs }
}

/// The first `n` lines scanned; `multi` tells whether the Dockerfile has
/// several stages, `lf` is the index of its last `FROM` line.
pub open spec fn bloat_fold(fname: Seq<char>, us: Seq<Seq<char>>, n: int, multi: bool, lf: int) -> BloatScan
    decreases n,
{
    if n <= 0 {
        BloatScan { findings: seq![], runs: seq![] }
    } else {
        bloat_line(
            bloat_fold(fname, us, n - 1, multi, lf),
            fname,
            us[n - 1],
            n - 1,
            !multi || n - 1 >= lf,
        )
    }
}

/// The layer-bloat findings of a Dockerfile, with a final run of `RUN`
/// lines reported at its end.
pub open spec fn bloat_findings(fname: Seq<char>, us: Seq<Seq<char>>) -> Seq<FindingView> {
    let n = us.len() as int;
    let st = bloat_fold(fname, us, n, from_count(us, n) > 1, last_from(us, n));
    st.findings + if st.runs.len() > 1 {
        seq![runs_finding(fname, st.runs)]
    } else {
        seq![]
    }
}

fn runs_finding_exec(fname: &Vec<char>, runs: &Vec<usize>) -> (f: Finding)
    requires
        runs@.len() > 1,
    ensures
        f.deep_view() == runs_finding(fname@, runs@),
{
    let n = runs.len();
    let mut title: Vec<char> = Vec::new();
    push_decimal(&mut title, n as u64);
    push_str(&mut title, " consecutive RUN commands (lines ");
    push_decimal(&mut title, runs[0] as u64);
    push_str(&mut title, "-");
    push_decimal(&mut title, runs[n - 1] as u64);
    push_str(&mut title, ")");
    let mut detail: Vec<char> = Vec::new();
    push_decimal(&mut detail, n as u64);
    push_str(&mut detail, " separate RUN = ");
    push_decimal(&mut detail, n as u64);
    push_str(&mut detail, " layers. Combine with && to reduce image size.");
    let fc = slice_of(fname, 0, fname.len());
    assert(fc@ =~= fname@);
    make_finding(FindingCategory::DockerLayerBloat, title, detail, 0, Some(fc), Some(runs[0]))
}

fn bloat_findings_exec(out: &mut Vec<Finding>, fname: &Vec<char>, us: &Vec<Vec<char>>)
    ensures
        final(out).deep_view() == old(out).deep_view() + bloat_findings(fname@, us.deep_view()),
{
    let ghost ud = us.deep_view();
    let n = us.len();
    let mut count: usize = 0;
    let mut lf: usize = 0;
    for i in 0..n
        invariant
            n == us@.len(),
            ud == us.deep_view(),
            count == from_count(ud, i as int),
            count <= i,
            lf == last_from(ud, i as int),
            lf <= i,
    {
        assert(ud[i as int] == us@[i as int]@);
        if begins(&us[i], "FROM ") {
            count = count + 1;
            lf = i;
        }
    }
    let multi = count > 1;
    let ghost start = out.deep_view();
    let mut runs: Vec<usize> = Vec::new();
    assert(fname@.subrange(0, fname@.len() as int) =~= fname@);
    for i in 0..n
        invariant
            n == us@.len(),
            ud == us.deep_view(),
            multi == (from_count(ud, n as int) > 1),
            lf == last_from(ud, n as int),
            fname@.subrange(0, fname@.len() as int) == fname@,
            forall|k: int| 0 <= k < runs@.len() ==> runs@[k] <= i,
            ({
                let st = bloat_fold(fname@, ud, i as int, multi, lf as int);
                &&& out.deep_view() == start + st.findings
                &&& runs@ == st.runs
            }),
    {
        let u = &us[i];
        assert(ud[i as int] == u@);
        let ln = i + 1;
        let ghost st0 = bloat_fold(fname@, ud, i as int, multi, lf as int);
        let ghost before = out.deep_view();
        if includes(u, "APT-GET INSTALL") && !includes(u, "RM -RF") && !includes(u, "CLEAN") {
            let mut title = chars_of("apt-get without cleanup (line ");
            push_decimal(&mut title, ln as u64);
            push_str(&mut title, ")");
            let f = make_finding(
                FindingCategory::DockerLayerBloat,
                title,
                chars_of("apt cache stays in layer (~30-50MB). Add: && rm -rf /var/lib/apt/lists/*"),
                41943040,
                Some(slice_of(fname, 0, fname.len())),
                Some(ln),
            );
            push_finding(out, f);
        }
        if begins(u, "RUN ") {
            runs.push(ln);
        } else if u.len() > 0 && !begins(u, "#") {
            if runs.len() > 1 {
                let f = runs_finding_exec(fname, &runs);
                push_finding(out, f);
            }
            runs.clear();
        }
        let in_final = !multi || i >= lf;
        if in_final && (includes(u, "NPM INSTALL") || includes(u, "NPM CI")) && !includes(
            u,
            "--OMIT=DEV",
        ) && !includes(u, "--PRODUCTION") && !includes(u, "NODE_ENV=PRODUCTION") {
            let mut title = chars_of("npm install includes devDependencies (line ");
            push_decimal(&mut title, ln as u64);
            push_str(&mut title, ")");
            let f = make_finding(
                FindingCategory::DockerLayerBloat,
                title,
                chars_of(
                    "Production image includes devDependencies. Add --omit=dev to exclude them.",
                ),
                0,
                Some(slice_of(fname, 0, fname.len())),
                Some(ln),
            );
            push_finding(out, f);
        }
        let ghost st1 = bloat_line(st0, fname@, ud[i as int], i as int, !multi || i >= lf);
        assert(runs@ =~= st1.runs);
        assert(out.deep_view() =~= start + st1.findings);
    }
    if runs.len() > 1 {
        let f = runs_finding_exec(fname, &runs);
        push_finding(out, f);
    }
    assert(out.deep_view() =~= old(out).deep_view() + bloat_findings(fname@, ud));
}

// ---------------------------------------------------------------------------
// One Dockerfile
// ---------------------------------------------------------------------------

/// All findings of one Dockerfile named `fname` with lines `ls`, given per
/// line the upper case of the trimmed line (`us`) and the lower case of the
/// image it would name (`ils`), and the upper case of the whole file (`cu`).
pub open spec fn spec_dockerfile_findings(
    fname: Seq<char>,
    ls: Seq<Seq<char>>,
    us: Seq<Seq<char>>,
    ils: Seq<Seq<char>>,
    cu: Seq<char>,
) -> Seq<FindingView> {
    from_findings(fname, ls, us, ils, ls.len() as int) + cache_findings(fname, us) + bloat_findings(
        fname,
        us,
    ) + structure_findings(fname, us, cu)
}

/// All findings of one Dockerfile, from its lines and their case-mapped forms.
pub fn dockerfile_findings_from(
    fname: &Vec<char>,
    ls: &Vec<Vec<char>>,
    us: &Vec<Vec<char>>,
    ils: &Vec<Vec<char>>,
    cu: &Vec<char>,
) -> (r: Vec<Finding>)
    requires
        us@.len() == ls@.len(),
        ils@.len() == ls@.len(),
    ensures
        r.deep_view() == spec_dockerfile_findings(
            fname@,
            ls.deep_view(),
            us.deep_view(),
            ils.deep_view(),
            cu@,
        ),
{
    let mut out: Vec<Finding> = Vec::new();
    let ghost ld = ls.deep_view();
    let ghost ud = us.deep_view();
    let ghost id = ils.deep_view();
    let n = ls.len();
    for i in 0..n
        invariant
            n == ls@.len(),
            us@.len() == n,
            ils@.len() == n,
            ld == ls.deep_view(),
            ud == us.deep_view(),
            id == ils.deep_view(),
            out.deep_view() == from_findings(fname@, ld, ud, id, i as int),
    {
        assert(ld[i as int] == ls@[i as int]@);
        assert(ud[i as int] == us@[i as int]@);
        assert(id[i as int] == ils@[i as int]@);
        from_line_exec(&mut out, fname, &ls[i], &us[i], &ils[i], i);
    }
    cache_findings_exec(&mut out, fname, us);
    bloat_findings_exec(&mut out, fname, us);
    structure_findings_exec(&mut out, fname, us, cu);
    assert(out.deep_view() =~= spec_dockerfile_findings(fname@, ld, ud, id, cu@));
    out
}

/// The upper case of each trimmed line.
pub open spec fn line_uppers(ls: Seq<Seq<char>>) -> Seq<Seq<char>> {
    Seq::new(ls.len(), |i: int| upper(trim(ls[i])))
}

/// The lower case of the image each trimmed line would name.
pub open spec fn image_lowers(ls: Seq<Seq<char>>) -> Seq<Seq<char>> {
    Seq::new(ls.len(), |i: int| lower(image_of(trim(ls[i]))))
}

/// All findings of one Dockerfile (lines, name).
pub open spec fn single_dockerfile_findings(df: (Seq<Seq<char>>, Seq<char>)) -> Seq<FindingView> {
    spec_dockerfile_findings(
        df.1,
        df.0,
        line_uppers(df.0),
        image_lowers(df.0),
        upper(join(df.0, "\n"@)),
    )
}

fn check_single_dockerfile(out: &mut Vec<Finding>, df: &DockerfileInfo)
    ensures
        final(out).deep_view() == old(out).deep_view() + single_dockerfile_findings(
            df.deep_view(),
        ),
{
    let fname = chars_of(df.filename.as_str());
    let mut ls: Vec<Vec<char>> = Vec::new();
    let mut us: Vec<Vec<char>> = Vec::new();
    let mut ils: Vec<Vec<char>> = Vec::new();
    let ghost dl = df.lines.deep_view();
    let n = df.lines.len();
    for i in 0..n
        invariant
            n == df.lines@.len(),
            dl == df.lines.deep_view(),
            ls.deep_view() == dl.take(i as int),
            us.deep_view() == line_uppers(dl).take(i as int),
            ils.deep_view() == image_lowers(dl).take(i as int),
    {
        let l = chars_of(df.lines[i].as_str());
        assert(dl[i as int] == l@);
        let t = trim_exec(&l);
        let u = upper_exec(&t);
        let im = image_of_exec(&t);
        let il = lower_exec(&im);
        crate::push_deep(&mut ls, l);
        crate::push_deep(&mut us, u);
        crate::push_deep(&mut ils, il);
        assert(ls.deep_view() =~= dl.take(i + 1));
        assert(us.deep_view() =~= line_uppers(dl).take(i + 1));
        assert(ils.deep_view() =~= image_lowers(dl).take(i + 1));
    }
    assert(dl.take(n as int) =~= dl);
    assert(line_uppers(dl).take(n as int) =~= line_uppers(dl));
    assert(image_lowers(dl).take(n as int) =~= image_lowers(dl));
    let joined = join_exec(&ls, "\n");
    let cu = upper_exec(&joined);
    let mut found = dockerfile_findings_from(&fname, &ls, &us, &ils, &cu);
    let ghost before = out.deep_view();
    let ghost fd = found.deep_view();
    out.append(&mut found);
    assert(out.deep_view() =~= before + fd) by {
        assert forall|k: int| 0 <= k < out@.len() implies out.deep_view()[k] == (before + fd)[k] by {
            if k < before.len() {
            } else {
            }
        }
    }
}

// ---------------------------------------------------------------------------
// The project: a missing .dockerignore (pattern 11), orphans (pattern 13)
// ---------------------------------------------------------------------------

/// What `.dockerignore` would keep out of the build context: `node_modules/`
/// and `dist/` where they exist.
pub open spec fn build_context(has_nm: bool, nm: u64, has_dist: bool, dist: u64) -> int {
    (if has_nm {
        nm as int
    } else {
        0
    }) + (if has_dist {
        dist as int
    } else {
        0
    })
}

/// A missing `.dockerignore` where the project has a Dockerfile.
pub open spec fn project_level_findings(any_docker: bool, has_dockerignore: bool, ctx: u64) -> Seq<
    FindingView,
> {
    if any_docker && !has_dockerignore {
        seq![
            finding(
                FindingCategory::DockerStructure,
                "Missing .dockerignore"@,
                "No .dockerignore found. Entire directory (~"@ + spec_format_bytes(ctx)
                    + ") sent as build context. node_modules, .git, dist/ included."@,
                ctx,
                None,
                None,
            ),
        ]
    } else {
        seq![]
    }
}

/// `a` sorts before `b` (compared from index `k` on), as `String`s compare.
pub open spec fn lex_lt_from(a: Seq<char>, b: Seq<char>, k: int) -> bool
    decreases a.len() - k,
{
    if k < 0 {
        false
    } else if k >= a.len() {
        k < b.len()
    } else if k >= b.len() {
        false
    } else if a[k] < b[k] {
        true
    } else if a[k] > b[k] {
        false
    } else {
        lex_lt_from(a, b, k + 1)
    }
}

/// `a < b` as `String`s compare: lexicographically by character.
pub open spec fn lex_lt(a: Seq<char>, b: Seq<char>) -> bool {
    lex_lt_from(a, b, 0)
}

/// Where `x` goes into the sorted `s`: before the first element greater
/// than it, searching from `k`.
pub open spec fn insert_pos(s: Seq<Seq<char>>, x: Seq<char>, k: int) -> int
    decreases s.len() - k,
{
    if 0 <= k < s.len() && !lex_lt(x, s[k]) {
        insert_pos(s, x, k + 1)
    } else {
        k
    }
}

pub proof fn lemma_insert_pos_bounds(s: Seq<Seq<char>>, x: Seq<char>, k: int)
    requires
        0 <= k <= s.len(),
    ensures
        k <= insert_pos(s, x, k) <= s.len(),
    decreases s.len() - k,
{
    if k < s.len() && !lex_lt(x, s[k]) {
        lemma_insert_pos_bounds(s, x, k + 1);
    }
}

/// The names sorted, by insertion.
pub open spec fn sort_names(s: Seq<Seq<char>>) -> Seq<Seq<char>>
    decreases s.len(),
{
    if s.len() == 0 {
        seq![]
    } else {
        let t = sort_names(s.drop_last());
        let p = insert_pos(t, s.last(), 0);
        if 0 <= p <= t.len() {
            t.insert(p, s.last())
        } else {
            t
        }
    }
}

pub fn lex_lt_exec(a: &Vec<char>, b: &Vec<char>) -> (r: bool)
    ensures
        r == lex_lt(a@, b@),
{
    let mut k: usize = 0;
    loop
        invariant
            k <= a@.len(),
            lex_lt_from(a@, b@, k as int) == lex_lt(a@, b@),
        decreases a@.len() - k,
    {
        if k >= a.len() {
            return k < b.len();
        }
        if k >= b.len() {
            return false;
        }
        if a[k] < b[k] {
            return true;
        }
        if a[k] > b[k] {
            return false;
        }
        k = k + 1;
    }
}

/// The names sorted as `Vec<String>::sort` sorts them.
pub fn sort_names_exec(names: &Vec<Vec<char>>) -> (r: Vec<Vec<char>>)
    ensures
        r.deep_view() == sort_names(names.deep_view()),
{
    let ghost nd = names.deep_view();
    let mut out: Vec<Vec<char>> = Vec::new();
    let n = names.len();
    for i in 0..n
        invariant
            n == names@.len(),
            nd == names.deep_view(),
            out.deep_view() == sort_names(nd.take(i as int)),
    {
        let x = slice_of(&names[i], 0, names[i].len());
        assert(x@ =~= nd[i as int]);
        let ghost t = out.deep_view();
        let mut p: usize = 0;
        while p < out.len() && !lex_lt_exec(&x, &out[p])
            invariant
                p <= out@.len(),
                t == out.deep_view(),
                insert_pos(t, x@, p as int) == insert_pos(t, x@, 0),
            decreases out@.len() - p,
        {
            assert(t[p as int] == out@[p as int]@);
            p = p + 1;
        }
        proof {
            if p < out@.len() {
                assert(t[p as int] == out@[p as int]@);
            }
            lemma_insert_pos_bounds(t, x@, 0);
        }
        let ghost raw = out@;
        let ghost xv = x@;
        out.insert(p, x);
        assert(nd.take(i + 1).drop_last() =~= nd.take(i as int));
        assert(out.deep_view() =~= t.insert(p as int, xv)) by {
            assert forall|k: int| 0 <= k < out@.len() implies out.deep_view()[k] == t.insert(
                p as int,
                xv,
            )[k] by {
                if k < p {
                    assert(out@[k] == raw[k]);
                } else if k == p {
                } else {
                    assert(out@[k] == raw[k - 1]);
                }
            }
        }
    }
    assert(nd.take(n as int) =~= nd);
    out
}

/// A lower-case root file name of a config file that may name a Dockerfile.
pub open spec fn is_config_name(ln: Seq<char>) -> bool {
    is_compose_name(ln) || is_script_name(ln)
}

/// The names whose lower-case forms are config file names, in order.
pub open spec fn config_sources(names: Seq<Seq<char>>, lowers: Seq<Seq<char>>, n: int) -> Seq<
    Seq<char>,
>
    decreases n,
{
    if n <= 0 {
        seq![]
    } else if is_config_name(lowers[n - 1]) {
        config_sources(names, lowers, n - 1).push(names[n - 1])
    } else {
        config_sources(names, lowers, n - 1)
    }
}

/// The orphan findings among the first `n` Dockerfile names.
pub open spec fn orphan_list(
    dfnames: Seq<Seq<char>>,
    referenced: Seq<Seq<char>>,
    searched: Seq<char>,
    n: int,
) -> Seq<FindingView>
    decreases n,
{
    if n <= 0 {
        seq![]
    } else {
        let prev = orphan_list(dfnames, referenced, searched, n - 1);
        let name = dfnames[n - 1];
        if referenced.contains(name) {
            prev
        } else {
            prev.push(
                finding(
                    FindingCategory::DockerOrphaned,
                    "Orphaned Dockerfile: "@ + name,
                    "'"@ + name + "' is not referenced by any config file. Searched: ["@ + searched
                        + "]. Dead config wastes maintenance and causes confusion."@,
                    0,
                    Some(name),
                    None,
                ),
            )
        }
    }
}

/// Dockerfiles that no config file references, where the root holds some
/// config file (a compose file, shell script, makefile or justfile); the
/// config files searched are listed sorted. `rf_lowers` are the lower-case
/// forms of the root file names `root_files`.
pub open spec fn spec_orphan_findings(
    dfnames: Seq<Seq<char>>,
    referenced: Seq<Seq<char>>,
    root_files: Seq<Seq<char>>,
    rf_lowers: Seq<Seq<char>>,
) -> Seq<FindingView> {
    let sources = config_sources(root_files, rf_lowers, root_files.len() as int);
    if sources.len() == 0 {
        seq![]
    } else {
        orphan_list(dfnames, referenced, join(sort_names(sources), ", "@), dfnames.len() as int)
    }
}

/// The orphan findings, given the lower-case forms of the root file names.
pub fn orphan_findings_from(
    dfnames: &Vec<Vec<char>>,
    referenced: &Vec<Vec<char>>,
    root_files: &Vec<Vec<char>>,
    rf_lowers: &Vec<Vec<char>>,
) -> (r: Vec<Finding>)
    requires
        rf_lowers@.len() == root_files@.len(),
    ensures
        r.deep_view() == spec_orphan_findings(
            dfnames.deep_view(),
            referenced.deep_view(),
            root_files.deep_view(),
            rf_lowers.deep_view(),
        ),
{
    let mut out: Vec<Finding> = Vec::new();
    let ghost rd = root_files.deep_view();
    let ghost lw = rf_lowers.deep_view();
    let mut sources: Vec<Vec<char>> = Vec::new();
    let m = root_files.len();
    for i in 0..m
        invariant
            m == root_files@.len(),
            rf_lowers@.len() == m,
            rd == root_files.deep_view(),
            lw == rf_lowers.deep_view(),
            sources.deep_view() == config_sources(rd, lw, i as int),
    {
        let ln = &rf_lowers[i];
        assert(lw[i as int] == ln@);
        assert(rd[i as int] == root_files@[i as int]@);
        if finishes(ln, ".yml") || finishes(ln, ".yaml") || finishes(ln, ".sh") || begins(
            ln,
            "makefile",
        ) || crate::text::is_text(ln, "justfile") {
            let c = slice_of(&root_files[i], 0, root_files[i].len());
            assert(c@ =~= rd[i as int]);
            crate::push_deep(&mut sources, c);
            assert(sources.deep_view() =~= config_sources(rd, lw, i as int).push(rd[i as int]));
        }
    }
    if sources.len() == 0 {
        assert(out.deep_view() =~= Seq::<FindingView>::empty());
        return out;
    }
    let sorted = sort_names_exec(&sources);
    let searched = join_exec(&sorted, ", ");
    let ghost dd = dfnames.deep_view();
    let ghost refd = referenced.deep_view();
    let n = dfnames.len();
    for i in 0..n
        invariant
            n == dfnames@.len(),
            dd == dfnames.deep_view(),
            refd == referenced.deep_view(),
            searched@ == join(sort_names(config_sources(rd, lw, rd.len() as int)), ", "@),
            out.deep_view() == orphan_list(dd, refd, searched@, i as int),
    {
        let name = &dfnames[i];
        assert(dd[i as int] == name@);
        if !crate::text::contains_text(referenced, name) {
            let mut title = chars_of("Orphaned Dockerfile: ");
            push_all(&mut title, name);
            let mut detail = chars_of("'");
            push_all(&mut detail, name);
            push_str(&mut detail, "' is not referenced by any config file. Searched: [");
            push_all(&mut detail, &searched);
            push_str(&mut detail, "]. Dead config wastes maintenance and causes confusion.");
            let fc = slice_of(name, 0, name.len());
            assert(fc@ =~= name@);
            let f = make_finding(FindingCategory::DockerOrphaned, title, detail, 0, Some(fc), None);
            push_finding(&mut out, f);
        }
    }
    out
}

// ---------------------------------------------------------------------------
// The check
// ---------------------------------------------------------------------------

/// The project's Dockerfiles: the main one, then the others.
pub open spec fn all_dockerfiles(
    main: Option<(Seq<Seq<char>>, Seq<char>)>,
    extras: Seq<(Seq<Seq<char>>, Seq<char>)>,
) -> Seq<(Seq<Seq<char>>, Seq<char>)> {
    (match main {
        Some(d) => seq![d],
        None => seq![],
    }) + extras
}

/// The findings of the first `n` Dockerfiles, one after another.
pub open spec fn dockerfiles_findings(dfs: Seq<(Seq<Seq<char>>, Seq<char>)>, n: int) -> Seq<
    FindingView,
>
    decreases n,
{
    if n <= 0 {
        seq![]
    } else {
        dockerfiles_findings(dfs, n - 1) + single_dockerfile_findings(dfs[n - 1])
    }
}

/// The names of the Dockerfiles.
pub open spec fn dockerfile_names(dfs: Seq<(Seq<Seq<char>>, Seq<char>)>) -> Seq<Seq<char>> {
    Seq::new(dfs.len(), |i: int| dfs[i].1)
}

/// The lower-case forms of the names.
pub open spec fn lowers_of(names: Seq<Seq<char>>) -> Seq<Seq<char>> {
    Seq::new(names.len(), |i: int| lower(names[i]))
}

/// Whether the project has a Dockerfile of any name.
pub open spec fn has_any_dockerfile(p: &ProjectInfo) -> bool {
    p.dockerfile is Some || p.extra_dockerfiles@.len() > 0
}

/// All Docker findings of a project: each Dockerfile's, then a missing
/// `.dockerignore`, then the orphaned Dockerfiles.
pub open spec fn spec_docker_findings(p: &ProjectInfo) -> Seq<FindingView> {
    let dfs = all_dockerfiles(p.dockerfile.deep_view(), p.extra_dockerfiles.deep_view());
    dockerfiles_findings(dfs, dfs.len() as int) + project_level_findings(
        has_any_dockerfile(p),
        p.has_dockerignore,
        build_context(p.has_node_modules, p.node_modules_size, p.has_dist, p.dist_size) as u64,
    ) + spec_orphan_findings(
        dockerfile_names(dfs),
        p.compose_referenced.deep_view(),
        p.root_files.deep_view(),
        lowers_of(p.root_files.deep_view()),
    )
}

/// Appends the findings of `more`.
pub fn append_findings(out: &mut Vec<Finding>, more: Vec<Finding>)
    ensures
        final(out).deep_view() == old(out).deep_view() + more.deep_view(),
{
    let mut more = more;
    let ghost before = out.deep_view();
    let ghost md = more.deep_view();
    out.append(&mut more);
    assert(out.deep_view() =~= before + md) by {
        assert forall|q: int| 0 <= q < out@.len() implies out.deep_view()[q] == (before + md)[q] by {
            if q < before.len() {
            } else {
            }
        }
    }
}

fn check_dockerfiles(project: &ProjectInfo, findings: &mut Vec<Finding>) -> (names: Vec<Vec<char>>)
    ensures
        ({
            let dfs = all_dockerfiles(
                project.dockerfile.deep_view(),
                project.extra_dockerfiles.deep_view(),
            );
            &&& final(findings).deep_view() == old(findings).deep_view() + dockerfiles_findings(
                dfs,
                dfs.len() as int,
            )
            &&& names.deep_view() == dockerfile_names(dfs)
        }),
{
    let ghost dfs = all_dockerfiles(
        project.dockerfile.deep_view(),
        project.extra_dockerfiles.deep_view(),
    );
    let ghost ed = project.extra_dockerfiles.deep_view();
    let ghost start = findings.deep_view();
    let mut names: Vec<Vec<char>> = Vec::new();
    let mut done: usize = 0;
    match &project.dockerfile {
        Some(df) => {
            check_single_dockerfile(findings, df);
            crate::push_deep(&mut names, chars_of(df.filename.as_str()));
            done = 1;
            assert(dfs[0] == df.deep_view());
            assert(dockerfiles_findings(dfs, 0) =~= Seq::<FindingView>::empty());
            assert(dockerfiles_findings(dfs, 1) == dockerfiles_findings(dfs, 0)
                + single_dockerfile_findings(dfs[0]));
            assert(dockerfiles_findings(dfs, 1) =~= single_dockerfile_findings(dfs[0]));
            assert(findings.deep_view() =~= start + dockerfiles_findings(dfs, 1));
        },
        None => {
            assert(findings.deep_view() =~= start + dockerfiles_findings(dfs, 0));
        },
    }
    assert(names.deep_view() =~= dockerfile_names(dfs).take(done as int));
    assert forall|q: int| 0 <= q < ed.len() implies dfs[done + q] == ed[q] by {}
    let m = project.extra_dockerfiles.len();
    for i in 0..m
        invariant
            m == project.extra_dockerfiles@.len(),
            ed == project.extra_dockerfiles.deep_view(),
            dfs.len() == done + m,
            forall|q: int| 0 <= q < ed.len() ==> dfs[done + q] == ed[q],
            findings.deep_view() == start + dockerfiles_findings(dfs, done + i),
            names.deep_view() == dockerfile_names(dfs).take(done + i),
    {
        let df = &project.extra_dockerfiles[i];
        assert(dfs[done + i] == ed[i as int]);
        assert(ed[i as int] == df.deep_view());
        check_single_dockerfile(findings, df);
        crate::push_deep(&mut names, chars_of(df.filename.as_str()));
        assert(names.deep_view() =~= dockerfile_names(dfs).take(done + i + 1));
        assert(findings.deep_view() =~= start + dockerfiles_findings(dfs, done + i + 1));
    }
    assert(dockerfile_names(dfs).take(dfs.len() as int) =~= dockerfile_names(dfs));
    names
}

fn check_project_level(project: &ProjectInfo, findings: &mut Vec<Finding>)
    requires
        has_any_dockerfile(project) && !project.has_dockerignore ==> build_context(
            project.has_node_modules,
            project.node_modules_size,
            project.has_dist,
            project.dist_size,
        ) <= u64::MAX,
    ensures
        final(findings).deep_view() == old(findings).deep_view() + project_level_findings(
            has_any_dockerfile(project),
            project.has_dockerignore,
            build_context(
                project.has_node_modules,
                project.node_modules_size,
                project.has_dist,
                project.dist_size,
            ) as u64,
        ),
{
    let any_docker = project.dockerfile.is_some() || project.extra_dockerfiles.len() > 0;
    if any_docker && !project.has_dockerignore {
        let mut ctx: u64 = 0;
        if project.has_node_modules {
            ctx = ctx + project.node_modules_size;
        }
        if project.has_dist {
            ctx = ctx + project.dist_size;
        }
        let fb = format_bytes(ctx);
        let mut detail = chars_of("No .dockerignore found. Entire directory (~");
        push_all(&mut detail, &fb);
        push_str(&mut detail, ") sent as build context. node_modules, .git, dist/ included.");
        let f = make_finding(
            FindingCategory::DockerStructure,
            chars_of("Missing .dockerignore"),
            detail,
            ctx,
            None,
            None,
        );
        push_finding(findings, f);
    } else {
        assert(findings.deep_view() =~= old(findings).deep_view() + Seq::<FindingView>::empty());
    }
}

/// The characters of each string.
pub fn chars_of_all(v: &Vec<String>) -> (r: Vec<Vec<char>>)
    ensures
        r.deep_view() == v.deep_view(),
{
    let mut out: Vec<Vec<char>> = Vec::new();
    let n = v.len();
    for i in 0..n
        invariant
            n == v@.len(),
            out.deep_view() == v.deep_view().take(i as int),
    {
        crate::push_deep(&mut out, chars_of(v[i].as_str()));
        assert(out.deep_view() =~= v.deep_view().take(i + 1));
    }
    assert(v.deep_view().take(n as int) =~= v.deep_view());
    out
}

fn check_orphaned_dockerfiles(
    project: &ProjectInfo,
    names: &Vec<Vec<char>>,
    findings: &mut Vec<Finding>,
)
    ensures
        final(findings).deep_view() == old(findings).deep_view() + spec_orphan_findings(
            names.deep_view(),
            project.compose_referenced.deep_view(),
            project.root_files.deep_view(),
            lowers_of(project.root_files.deep_view()),
        ),
{
    let referenced = chars_of_all(&project.compose_referenced);
    let rf = chars_of_all(&project.root_files);
    let mut rfl: Vec<Vec<char>> = Vec::new();
    let ghost rfd = project.root_files.deep_view();
    let r = rf.len();
    for i in 0..r
        invariant
            r == rf@.len(),
            rfd == rf.deep_view(),
            rfl.deep_view() == lowers_of(rfd).take(i as int),
    {
        assert(rfd[i as int] == rf@[i as int]@);
        let low = lower_exec(&rf[i]);
        crate::push_deep(&mut rfl, low);
        assert(rfl.deep_view() =~= lowers_of(rfd).take(i + 1));
    }
    assert(lowers_of(rfd).take(r as int) =~= lowers_of(rfd));
    let orphans = orphan_findings_from(names, &referenced, &rf, &rfl);
    append_findings(findings, orphans);
}

/// Reports each Dockerfile's waste, a missing `.dockerignore`, and
/// Dockerfiles that no config file references.
pub fn check(project: &ProjectInfo, findings: &mut Vec<Finding>)
    requires
        has_any_dockerfile(project) && !project.has_dockerignore ==> build_context(
            project.has_node_modules,
            project.node_modules_size,
            project.has_dist,
            project.dist_size,
        ) <= u64::MAX,
    ensures
        final(findings).deep_view() == old(findings).deep_view() + spec_docker_findings(project),
{
    let names = check_dockerfiles(project, findings);
    check_project_level(project, findings);
    check_orphaned_dockerfiles(project, &names, findings);
    assert(findings.deep_view() =~= old(findings).deep_view() + spec_docker_findings(project));
}


// ---------------------------------------------------------------------------
// Laws
// ---------------------------------------------------------------------------

proof fn lemma_lex_asymmetric(a: Seq<char>, b: Seq<char>, k: int)
    requires
        0 <= k,
    ensures
        !(lex_lt_from(a, b, k) && lex_lt_from(b, a, k)),
    decreases a.len() - k,
{
    if k < a.len() && k < b.len() && a[k] == b[k] {
        lemma_lex_asymmetric(a, b, k + 1);
    }
}

proof fn lemma_lex_transitive(a: Seq<char>, b: Seq<char>, c: Seq<char>, k: int)
    requires
        0 <= k,
        lex_lt_from(a, b, k),
        lex_lt_from(b, c, k),
    ensures
        lex_lt_from(a, c, k),
    decreases a.len() - k,
{
    if k < a.len() && k < b.len() && k < c.len() && a[k] == b[k] && b[k] == c[k] {
        lemma_lex_transitive(a, b, c, k + 1);
    }
}

proof fn lemma_insert_pos(s: Seq<Seq<char>>, x: Seq<char>, k: int)
    requires
        0 <= k <= s.len(),
    ensures
        k <= insert_pos(s, x, k) <= s.len(),
        forall|j: int| k <= j < insert_pos(s, x, k) ==> !lex_lt(x, #[trigger] s[j]),
        insert_pos(s, x, k) < s.len() ==> lex_lt(x, s[insert_pos(s, x, k)]),
    decreases s.len() - k,
{
    if k < s.len() && !lex_lt(x, s[k]) {
        lemma_insert_pos(s, x, k + 1);
    }
}

/// Names in `String` order: no name sorts before one that precedes it.
pub open spec fn names_sorted(s: Seq<Seq<char>>) -> bool {
    forall|i: int, j: int| 0 <= i < j < s.len() ==> !lex_lt(#[trigger] s[j], #[trigger] s[i])
}

/// The config files an orphan finding lists as searched come sorted as
/// `String`s sort, and they are exactly the files found, each as often.
pub proof fn law_sorted_names(s: Seq<Seq<char>>)
    ensures
        names_sorted(sort_names(s)),
        sort_names(s).to_multiset() == s.to_multiset(),
        sort_names(s).len() == s.len(),
    decreases s.len(),
{
    broadcast use vstd::seq_lib::group_to_multiset_ensures;

    if s.len() > 0 {
        let d = s.drop_last();
        law_sorted_names(d);
        let t = sort_names(d);
        let x = s.last();
        lemma_insert_pos(t, x, 0);
        let p = insert_pos(t, x, 0);
        let r = t.insert(p, x);
        assert(sort_names(s) == r);
        assert(s =~= d.push(x));
        vstd::seq_lib::to_multiset_insert(t, p, x);
        assert forall|i: int, j: int| 0 <= i < j < r.len() implies !lex_lt(
            #[trigger] r[j],
            #[trigger] r[i],
        ) by {
            if j < p {
                assert(r[i] == t[i] && r[j] == t[j]);
            } else if j == p {
                assert(r[i] == t[i]);
            } else if i < p {
                assert(r[i] == t[i] && r[j] == t[j - 1]);
            } else if i == p {
                assert(r[j] == t[j - 1]);
                assert(lex_lt(x, t[p]));
                if j - 1 == p {
                    lemma_lex_asymmetric(t[p], x, 0);
                } else {
                    assert(!lex_lt(t[j - 1], t[p]));
                    if lex_lt(t[j - 1], x) {
                        lemma_lex_transitive(t[j - 1], x, t[p], 0);
                    }
                }
            } else {
                assert(r[i] == t[i - 1] && r[j] == t[j - 1]);
            }
        }
    }
}

/// Every finding points at the file `name`.
pub open spec fn all_point_at(fs: Seq<FindingView>, name: Seq<char>) -> bool {
    forall|i: int| 0 <= i < fs.len() ==> (#[trigger] fs[i]).file == Some(name)
}

proof fn lemma_from_point_at(
    fname: Seq<char>,
    ls: Seq<Seq<char>>,
    us: Seq<Seq<char>>,
    ils: Seq<Seq<char>>,
    n: int,
)
    ensures
        all_point_at(from_findings(fname, ls, us, ils, n), fname),
    decreases n,
{
    if n > 0 {
        lemma_from_point_at(fname, ls, us, ils, n - 1);
        let a = from_findings(fname, ls, us, ils, n - 1);
        let b = from_line_findings(fname, ls[n - 1], us[n - 1], ils[n - 1], n - 1);
        assert(all_point_at(b, fname));
        assert(from_findings(fname, ls, us, ils, n) == a + b);
        assert forall|i: int| 0 <= i < (a + b).len() implies (#[trigger] (a + b)[i]).file == Some(
            fname,
        ) by {
            if i < a.len() {
                assert((a + b)[i] == a[i]);
            } else {
                assert((a + b)[i] == b[i - a.len()]);
            }
        }
    }
}

proof fn lemma_cache_point_at(fname: Seq<char>, us: Seq<Seq<char>>, n: int)
    ensures
        all_point_at(cache_lines(fname, us, n), fname),
    decreases n,
{
    if n > 0 {
        lemma_cache_point_at(fname, us, n - 1);
        let a = cache_lines(fname, us, n - 1);
        let b = cache_line_findings(fname, us[n - 1], n - 1);
        assert(all_point_at(b, fname));
        assert forall|i: int| 0 <= i < (a + b).len() implies (#[trigger] (a + b)[i]).file == Some(
            fname,
        ) by {
            if i < a.len() {
                assert((a + b)[i] == a[i]);
            } else {
                assert((a + b)[i] == b[i - a.len()]);
            }
        }
    }
}

proof fn lemma_bloat_point_at(fname: Seq<char>, us: Seq<Seq<char>>, n: int, multi: bool, lf: int)
    ensures
        all_point_at(bloat_fold(fname, us, n, multi, lf).findings, fname),
    decreases n,
{
    if n > 0 {
        lemma_bloat_point_at(fname, us, n - 1, multi, lf);
        let st = bloat_fold(fname, us, n - 1, multi, lf);
        let nx = bloat_fold(fname, us, n, multi, lf);
        assert(nx == bloat_line(st, fname, us[n - 1], n - 1, !multi || n - 1 >= lf));
        let f = nx.findings;
        assert forall|i: int| 0 <= i < f.len() implies (#[trigger] f[i]).file == Some(fname) by {
            if i < st.findings.len() {
                assert(f[i] == st.findings[i]);
            }
        }
    }
}

proof fn lemma_concat_point_at(a: Seq<FindingView>, b: Seq<FindingView>, name: Seq<char>)
    requires
        all_point_at(a, name),
        all_point_at(b, name),
    ensures
        all_point_at(a + b, name),
{
    assert forall|i: int| 0 <= i < (a + b).len() implies (#[trigger] (a + b)[i]).file == Some(
        name,
    ) by {
        if i < a.len() {
            assert((a + b)[i] == a[i]);
        } else {
            assert((a + b)[i] == b[i - a.len()]);
        }
    }
}

/// Each Dockerfile is audited on its own: every finding of one Dockerfile
/// points at that Dockerfile.
pub proof fn law_dockerfile_findings_point_at_file(df: (Seq<Seq<char>>, Seq<char>))
    ensures
        all_point_at(single_dockerfile_findings(df), df.1),
{
    let fname = df.1;
    let ls = df.0;
    let us = line_uppers(ls);
    let ils = image_lowers(ls);
    let cu = upper(join(ls, "\n"@));
    lemma_from_point_at(fname, ls, us, ils, ls.len() as int);
    lemma_cache_point_at(fname, us, us.len() as int);
    let n = us.len() as int;
    lemma_bloat_point_at(fname, us, n, from_count(us, n) > 1, last_from(us, n));
    let a = from_findings(fname, ls, us, ils, ls.len() as int);
    let c = cache_findings(fname, us);
    let cl = cache_lines(fname, us, n);
    lemma_concat_point_at(cl, c.subrange(cl.len() as int, c.len() as int), fname);
    assert(c =~= cl + c.subrange(cl.len() as int, c.len() as int));
    let b = bloat_findings(fname, us);
    let st = bloat_fold(fname, us, n, from_count(us, n) > 1, last_from(us, n));
    lemma_concat_point_at(st.findings, b.subrange(st.findings.len() as int, b.len() as int), fname);
    assert(b =~= st.findings + b.subrange(st.findings.len() as int, b.len() as int));
    let t = structure_findings(fname, us, cu);
    assert(all_point_at(t, fname));
    lemma_concat_point_at(a, c, fname);
    lemma_concat_point_at(a + c, b, fname);
    lemma_concat_point_at(a + c + b, t, fname);
}

proof fn lemma_dockerfiles_have_files(dfs: Seq<(Seq<Seq<char>>, Seq<char>)>, n: int)
    requires
        n <= dfs.len(),
    ensures
        forall|i: int|
            0 <= i < dockerfiles_findings(dfs, n).len() ==> (#[trigger] dockerfiles_findings(
                dfs,
                n,
            )[i]).file is Some,
    decreases n,
{
    if n > 0 {
        lemma_dockerfiles_have_files(dfs, n - 1);
        let a = dockerfiles_findings(dfs, n - 1);
        let b = single_dockerfile_findings(dfs[n - 1]);
        law_dockerfile_findings_point_at_file(dfs[n - 1]);
        assert forall|i: int| 0 <= i < (a + b).len() implies (#[trigger] (a + b)[i]).file is Some by {
            if i < a.len() {
                assert((a + b)[i] == a[i]);
            } else {
                assert((a + b)[i] == b[i - a.len()]);
            }
        }
    }
}

proof fn lemma_orphan_list(
    dfnames: Seq<Seq<char>>,
    referenced: Seq<Seq<char>>,
    searched: Seq<char>,
    n: int,
)
    requires
        0 <= n <= dfnames.len(),
    ensures
        ({
            let o = orphan_list(dfnames, referenced, searched, n);
            let un = dfnames.take(n).filter(|x: Seq<char>| !referenced.contains(x));
            &&& o.len() == un.len()
            &&& forall|k: int|
                0 <= k < o.len() ==> (#[trigger] o[k]).file == Some(un[k]) && o[k].category
                    == FindingCategory::DockerOrphaned && o[k].wasted_bytes == 0
        }),
    decreases n,
{
    reveal(Seq::filter);
    let pred = |x: Seq<char>| !referenced.contains(x);
    if n > 0 {
        lemma_orphan_list(dfnames, referenced, searched, n - 1);
        assert(dfnames.take(n).drop_last() =~= dfnames.take(n - 1));
        assert(dfnames.take(n).last() == dfnames[n - 1]);
        let o = orphan_list(dfnames, referenced, searched, n);
        let po = orphan_list(dfnames, referenced, searched, n - 1);
        assert forall|k: int| 0 <= k < po.len() implies o[k] == po[k] by {}
    } else {
        assert(dfnames.take(n) =~= Seq::<Seq<char>>::empty());
    }
}

proof fn lemma_config_sources_nonempty(names: Seq<Seq<char>>, lowers: Seq<Seq<char>>, n: int)
    ensures
        config_sources(names, lowers, n).len() > 0 <==> exists|i: int|
            0 <= i < n && is_config_name(#[trigger] lowers[i]),
    decreases n,
{
    if n > 0 {
        lemma_config_sources_nonempty(names, lowers, n - 1);
        if exists|i: int| 0 <= i < n && is_config_name(#[trigger] lowers[i]) {
            let i = choose|i: int| 0 <= i < n && is_config_name(#[trigger] lowers[i]);
            if i < n - 1 {
                assert(config_sources(names, lowers, n - 1).len() > 0);
            }
        }
    }
}

/// Orphaned Dockerfiles: where the root holds no compose file, shell script,
/// makefile or justfile, none is reported; otherwise exactly the Dockerfiles
/// that no config file names are reported, one finding each, in order, with
/// no bytes counted (all of them, where no config file names any).
pub proof fn law_orphans_are_the_unreferenced(
    dfnames: Seq<Seq<char>>,
    referenced: Seq<Seq<char>>,
    root_files: Seq<Seq<char>>,
    rf_lowers: Seq<Seq<char>>,
)
    ensures
        ({
            let o = spec_orphan_findings(dfnames, referenced, root_files, rf_lowers);
            let un = dfnames.filter(|x: Seq<char>| !referenced.contains(x));
            let has_config = exists|i: int|
                0 <= i < root_files.len() && is_config_name(#[trigger] rf_lowers[i]);
            &&& !has_config ==> o.len() == 0
            &&& has_config ==> o.len() == un.len()
            &&& has_config ==> forall|k: int|
                0 <= k < o.len() ==> (#[trigger] o[k]).file == Some(un[k]) && o[k].category
                    == FindingCategory::DockerOrphaned && o[k].wasted_bytes == 0
        }),
{
    let sources = config_sources(root_files, rf_lowers, root_files.len() as int);
    lemma_config_sources_nonempty(root_files, rf_lowers, root_files.len() as int);
    if sources.len() > 0 {
        let searched = join(sort_names(sources), ", "@);
        lemma_orphan_list(dfnames, referenced, searched, dfnames.len() as int);
        assert(dfnames.take(dfnames.len() as int) =~= dfnames);
    }
}

/// A missing `.dockerignore` is reported once per project, however many
/// Dockerfiles it has: among the Docker findings, the only one that points
/// at no file is that report, and it is there exactly where the project has
/// a Dockerfile and no `.dockerignore`.
pub proof fn law_dockerignore_reported_once(p: &ProjectInfo)
    ensures
        ({
            let fs = spec_docker_findings(p);
            &&& (exists|i: int| 0 <= i < fs.len() && (#[trigger] fs[i]).file is None) <==> (
            has_any_dockerfile(p) && !p.has_dockerignore)
            &&& forall|i: int, j: int|
                0 <= i < fs.len() && 0 <= j < fs.len() && (#[trigger] fs[i]).file is None
                    && (#[trigger] fs[j]).file is None ==> i == j
            &&& forall|i: int|
                0 <= i < fs.len() && (#[trigger] fs[i]).file is None ==> fs[i].title
                    == "Missing .dockerignore"@ && fs[i].category == FindingCategory::DockerStructure
        }),
{
    let dfs = all_dockerfiles(p.dockerfile.deep_view(), p.extra_dockerfiles.deep_view());
    let a = dockerfiles_findings(dfs, dfs.len() as int);
    let b = project_level_findings(
        has_any_dockerfile(p),
        p.has_dockerignore,
        build_context(p.has_node_modules, p.node_modules_size, p.has_dist, p.dist_size) as u64,
    );
    let refs = p.compose_referenced.deep_view();
    let dn = dockerfile_names(dfs);
    let c = spec_orphan_findings(dn, refs, p.root_files.deep_view(), lowers_of(p.root_files.deep_view()));
    lemma_dockerfiles_have_files(dfs, dfs.len() as int);
    law_orphans_are_the_unreferenced(dn, refs, p.root_files.deep_view(), lowers_of(p.root_files.deep_view()));
    let fs = spec_docker_findings(p);
    assert(fs == a + b + c);
    assert forall|i: int| 0 <= i < fs.len() && (#[trigger] fs[i]).file is None implies i == a.len()
        && b.len() == 1 by {
        if i < a.len() {
            assert(fs[i] == a[i]);
        } else if i >= a.len() + b.len() {
            assert(fs[i] == c[i - a.len() - b.len()]);
        } else {
            assert(fs[i] == b[i - a.len()]);
        }
    }
    if has_any_dockerfile(p) && !p.has_dockerignore {
        assert(fs[a.len() as int] == b[0]);
    }
}

proof fn lemma_bloat_prefix(fname: Seq<char>, us: Seq<Seq<char>>, n: int, m: int, multi: bool, lf: int)
    requires
        0 <= n <= m,
    ensures
        bloat_fold(fname, us, n, multi, lf).findings.len() <= bloat_fold(fname, us, m, multi, lf).findings.len(),
        forall|k: int|
            0 <= k < bloat_fold(fname, us, n, multi, lf).findings.len() ==> bloat_fold(
                fname,
                us,
                m,
                multi,
                lf,
            ).findings[k] == #[trigger] bloat_fold(fname, us, n, multi, lf).findings[k],
    decreases m - n,
{
    if n < m {
        lemma_bloat_prefix(fname, us, n, m - 1, multi, lf);
        let st = bloat_fold(fname, us, m - 1, multi, lf);
        let nx = bloat_fold(fname, us, m, multi, lf);
        assert(nx == bloat_line(st, fname, us[m - 1], m - 1, !multi || m - 1 >= lf));
        assert forall|k: int| 0 <= k < st.findings.len() implies nx.findings[k] == st.findings[k] by {}
    }
}

proof fn lemma_last_from_at_most(us: Seq<Seq<char>>, n: int, i: int)
    requires
        0 <= i,
        forall|j: int| i < j < n ==> !is_from(#[trigger] us[j]),
    ensures
        last_from(us, n) <= i,
    decreases n,
{
    if n > 0 && !(is_from(us[n - 1])) {
        lemma_last_from_at_most(us, n - 1, i);
    } else if n > 0 && n - 1 > i {
        assert(!is_from(us[n - 1]));
    }
}

/// `npm install` or `npm ci` in the final stage of a Dockerfile, without
/// `--omit=dev`, `--production` or `NODE_ENV=production`, is reported on its
/// line as installing devDependencies. A line is in the final stage where no
/// `FROM` line follows it.
pub proof fn law_npm_dev_install_reported(df: (Seq<Seq<char>>, Seq<char>), i: int)
    requires
        0 <= i < df.0.len() <= usize::MAX,
        ({
            let u = upper(trim(df.0[i]));
            &&& contains(u, "NPM INSTALL"@) || contains(u, "NPM CI"@)
            &&& !contains(u, "--OMIT=DEV"@)
            &&& !contains(u, "--PRODUCTION"@)
            &&& !contains(u, "NODE_ENV=PRODUCTION"@)
        }),
        forall|j: int| i < j < df.0.len() ==> !starts_with(#[trigger] upper(trim(df.0[j])), "FROM "@),
    ensures
        single_dockerfile_findings(df).contains(
            finding(
                FindingCategory::DockerLayerBloat,
                "npm install includes devDependencies (line "@ + decimal((i + 1) as nat) + ")"@,
                "Production image includes devDependencies. Add --omit=dev to exclude them."@,
                0,
                Some(df.1),
                Some((i + 1) as usize),
            ),
        ),
{
    let ls = df.0;
    let fname = df.1;
    let us = line_uppers(ls);
    let n = us.len() as int;
    let multi = from_count(us, n) > 1;
    let lf = last_from(us, n);
    assert forall|j: int| i < j < n implies !is_from(#[trigger] us[j]) by {
        assert(us[j] == upper(trim(ls[j])));
        assert(!starts_with(upper(trim(ls[j])), "FROM "@));
    }
    lemma_last_from_at_most(us, n, i);
    let want = finding(
        FindingCategory::DockerLayerBloat,
        "npm install includes devDependencies (line "@ + decimal((i + 1) as nat) + ")"@,
        "Production image includes devDependencies. Add --omit=dev to exclude them."@,
        0,
        Some(fname),
        Some((i + 1) as usize),
    );
    let st = bloat_fold(fname, us, i, multi, lf);
    let nx = bloat_fold(fname, us, i + 1, multi, lf);
    assert(us[i] == upper(trim(ls[i])));
    assert(nx == bloat_line(st, fname, us[i], i, !multi || i >= lf));
    assert((i + 1) as usize as nat == (i + 1) as nat);
    assert(nx.findings.last() == want);
    let kk = nx.findings.len() - 1;
    lemma_bloat_prefix(fname, us, i + 1, n, multi, lf);
    let full = bloat_fold(fname, us, n, multi, lf);
    assert(full.findings[kk] == want);
    let b = bloat_findings(fname, us);
    assert(b[kk] == want);
    let a = from_findings(fname, ls, us, image_lowers(ls), ls.len() as int);
    let c = cache_findings(fname, us);
    let t = structure_findings(fname, us, upper(join(ls, "\n"@)));
    let all = single_dockerfile_findings(df);
    assert(all == a + c + b + t);
    assert(all[a.len() + c.len() + kk] == want);
}

proof fn lemma_in_concat(a: Seq<FindingView>, b: Seq<FindingView>, x: FindingView)
    ensures
        a.contains(x) ==> (a + b).contains(x),
        b.contains(x) ==> (a + b).contains(x),
{
    if a.contains(x) {
        let i = choose|i: int| 0 <= i < a.len() && a[i] == x;
        assert((a + b)[i] == x);
    }
    if b.contains(x) {
        let i = choose|i: int| 0 <= i < b.len() && b[i] == x;
        assert((a + b)[a.len() + i] == x);
    }
}

proof fn lemma_cache_lines_has(fname: Seq<char>, us: Seq<Seq<char>>, n: int, i: int, x: FindingView)
    requires
        0 <= i < n,
        cache_line_findings(fname, us[i], i).contains(x),
    ensures
        cache_lines(fname, us, n).contains(x),
    decreases n,
{
    if i == n - 1 {
        lemma_in_concat(cache_lines(fname, us, n - 1), cache_line_findings(fname, us[i], i), x);
    } else {
        lemma_cache_lines_has(fname, us, n - 1, i, x);
        lemma_in_concat(
            cache_lines(fname, us, n - 1),
            cache_line_findings(fname, us[n - 1], n - 1),
            x,
        );
    }
}

/// Where the cache findings of a Dockerfile hold a finding, so do all its findings.
proof fn lemma_single_has_cache(df: (Seq<Seq<char>>, Seq<char>), x: FindingView)
    requires
        cache_lines(df.1, line_uppers(df.0), df.0.len() as int).contains(x),
    ensures
        single_dockerfile_findings(df).contains(x),
{
    let ls = df.0;
    let fname = df.1;
    let us = line_uppers(ls);
    let a = from_findings(fname, ls, us, image_lowers(ls), ls.len() as int);
    let cl = cache_lines(fname, us, us.len() as int);
    let c = cache_findings(fname, us);
    let b = bloat_findings(fname, us);
    let t = structure_findings(fname, us, upper(join(ls, "\n"@)));
    assert(c =~= cl + c.subrange(cl.len() as int, c.len() as int));
    lemma_in_concat(cl, c.subrange(cl.len() as int, c.len() as int), x);
    lemma_in_concat(a, c, x);
    lemma_in_concat(a + c, b, x);
    lemma_in_concat(a + c + b, t, x);
    assert(single_dockerfile_findings(df) == a + c + b + t);
}

/// Where the layer-bloat scan of a Dockerfile holds a finding, so do all its findings.
proof fn lemma_single_has_bloat(df: (Seq<Seq<char>>, Seq<char>), i: int, x: FindingView)
    requires
        0 <= i < df.0.len(),
        ({
            let us = line_uppers(df.0);
            let n = us.len() as int;
            bloat_fold(df.1, us, i + 1, from_count(us, n) > 1, last_from(us, n)).findings.contains(x)
        }),
    ensures
        single_dockerfile_findings(df).contains(x),
{
    let ls = df.0;
    let fname = df.1;
    let us = line_uppers(ls);
    let n = us.len() as int;
    let multi = from_count(us, n) > 1;
    let lf = last_from(us, n);
    let part = bloat_fold(fname, us, i + 1, multi, lf).findings;
    let k = choose|k: int| 0 <= k < part.len() && part[k] == x;
    lemma_bloat_prefix(fname, us, i + 1, n, multi, lf);
    let full = bloat_fold(fname, us, n, multi, lf).findings;
    assert(full[k] == x);
    let b = bloat_findings(fname, us);
    assert(b[k] == x);
    let a = from_findings(fname, ls, us, image_lowers(ls), ls.len() as int);
    let c = cache_findings(fname, us);
    let t = structure_findings(fname, us, upper(join(ls, "\n"@)));
    lemma_in_concat(a + c, b, x);
    lemma_in_concat(a + c + b, t, x);
    assert(single_dockerfile_findings(df) == a + c + b + t);
}

/// `ADD` of a local file (no URL, no archive) is reported on its line as
/// used where `COPY` suffices.
pub proof fn law_add_reported(df: (Seq<Seq<char>>, Seq<char>), i: int)
    requires
        0 <= i < df.0.len() <= usize::MAX,
        ({
            let u = upper(trim(df.0[i]));
            &&& starts_with(u, "ADD "@)
            &&& !contains(u, "HTTP"@)
            &&& !contains(u, ".TAR"@)
            &&& !contains(u, ".GZ"@)
        }),
    ensures
        single_dockerfile_findings(df).contains(
            finding(
                FindingCategory::DockerCache,
                "ADD used where COPY suffices (line "@ + decimal((i + 1) as nat) + ")"@,
                "ADD has extra functionality (URL fetch, tar extraction). COPY is explicit and cache-friendly."@,
                0,
                Some(df.1),
                Some((i + 1) as usize),
            ),
        ),
{
    let us = line_uppers(df.0);
    assert(us[i] == upper(trim(df.0[i])));
    assert((i + 1) as usize as nat == (i + 1) as nat);
    let lf = cache_line_findings(df.1, us[i], i);
    assert(lf[0] == finding(
        FindingCategory::DockerCache,
        "ADD used where COPY suffices (line "@ + decimal((i + 1) as nat) + ")"@,
        "ADD has extra functionality (URL fetch, tar extraction). COPY is explicit and cache-friendly."@,
        0,
        Some(df.1),
        Some((i + 1) as usize),
    ));
    lemma_cache_lines_has(df.1, us, df.0.len() as int, i, lf[0]);
    lemma_single_has_cache(df, lf[0]);
}

/// `apt-get install` without `--no-install-recommends` is reported on its
/// line, counted at 50 MiB (52428800 bytes).
pub proof fn law_apt_recommends_reported(df: (Seq<Seq<char>>, Seq<char>), i: int)
    requires
        0 <= i < df.0.len() <= usize::MAX,
        contains(upper(trim(df.0[i])), "APT-GET INSTALL"@),
        !contains(upper(trim(df.0[i])), "--NO-INSTALL-RECOMMENDS"@),
    ensures
        single_dockerfile_findings(df).contains(
            finding(
                FindingCategory::DockerCache,
                "apt-get without --no-install-recommends (line "@ + decimal((i + 1) as nat) + ")"@,
                "Recommended packages add ~30-100MB of unnecessary dependencies."@,
                52428800u64,
                Some(df.1),
                Some((i + 1) as usize),
            ),
        ),
{
    let us = line_uppers(df.0);
    assert(us[i] == upper(trim(df.0[i])));
    assert((i + 1) as usize as nat == (i + 1) as nat);
    let lf = cache_line_findings(df.1, us[i], i);
    let x = lf[lf.len() - 1];
    assert(x == finding(
        FindingCategory::DockerCache,
        "apt-get without --no-install-recommends (line "@ + decimal((i + 1) as nat) + ")"@,
        "Recommended packages add ~30-100MB of unnecessary dependencies."@,
        52428800u64,
        Some(df.1),
        Some((i + 1) as usize),
    ));
    assert(lf.contains(x));
    lemma_cache_lines_has(df.1, us, df.0.len() as int, i, x);
    lemma_single_has_cache(df, x);
}

/// `apt-get install` without `rm -rf` or `clean` on its line is reported
/// as leaving the apt cache in the layer, counted at 40 MiB (41943040 bytes).
pub proof fn law_apt_cleanup_reported(df: (Seq<Seq<char>>, Seq<char>), i: int)
    requires
        0 <= i < df.0.len() <= usize::MAX,
        contains(upper(trim(df.0[i])), "APT-GET INSTALL"@),
        !contains(upper(trim(df.0[i])), "RM -RF"@),
        !contains(upper(trim(df.0[i])), "CLEAN"@),
    ensures
        single_dockerfile_findings(df).contains(
            finding(
                FindingCategory::DockerLayerBloat,
                "apt-get without cleanup (line "@ + decimal((i + 1) as nat) + ")"@,
                "apt cache stays in layer (~30-50MB). Add: && rm -rf /var/lib/apt/lists/*"@,
                41943040u64,
                Some(df.1),
                Some((i + 1) as usize),
            ),
        ),
{
    let ls = df.0;
    let fname = df.1;
    let us = line_uppers(ls);
    let n = us.len() as int;
    let multi = from_count(us, n) > 1;
    let lf = last_from(us, n);
    assert(us[i] == upper(trim(ls[i])));
    assert((i + 1) as usize as nat == (i + 1) as nat);
    let st = bloat_fold(fname, us, i, multi, lf);
    let nx = bloat_fold(fname, us, i + 1, multi, lf);
    assert(nx == bloat_line(st, fname, us[i], i, !multi || i >= lf));
    let x = finding(
        FindingCategory::DockerLayerBloat,
        "apt-get without cleanup (line "@ + decimal((i + 1) as nat) + ")"@,
        "apt cache stays in layer (~30-50MB). Add: && rm -rf /var/lib/apt/lists/*"@,
        41943040u64,
        Some(fname),
        Some((i + 1) as usize),
    );
    assert(nx.findings[st.findings.len() as int] == x);
    lemma_single_has_bloat(df, i, x);
}

/// A Dockerfile with no `USER` line is reported as running as root.
pub proof fn law_no_user_reported(df: (Seq<Seq<char>>, Seq<char>))
    requires
        forall|i: int| 0 <= i < df.0.len() ==> !starts_with(#[trigger] upper(trim(df.0[i])), "USER "@),
    ensures
        single_dockerfile_findings(df).contains(
            finding(
                FindingCategory::DockerStructure,
                "No USER directive (runs as root)"@,
                "Container runs as root. Add USER directive for security."@,
                0,
                Some(df.1),
                None,
            ),
        ),
{
    let ls = df.0;
    let fname = df.1;
    let us = line_uppers(ls);
    let cu = upper(join(ls, "\n"@));
    assert(!(exists|i: int| 0 <= i < us.len() && starts_with(#[trigger] us[i], "USER "@))) by {
        assert forall|i: int| 0 <= i < us.len() implies !starts_with(#[trigger] us[i], "USER "@) by {
            assert(us[i] == upper(trim(ls[i])));
        }
    }
    let t = structure_findings(fname, us, cu);
    let x = t[t.len() - 1];
    assert(x == finding(
        FindingCategory::DockerStructure,
        "No USER directive (runs as root)"@,
        "Container runs as root. Add USER directive for security."@,
        0,
        Some(fname),
        None,
    ));
    let a = from_findings(fname, ls, us, image_lowers(ls), ls.len() as int);
    let c = cache_findings(fname, us);
    let b = bloat_findings(fname, us);
    assert(t.contains(x));
    lemma_in_concat(a + c + b, t, x);
    assert(single_dockerfile_findings(df) == a + c + b + t);
}

proof fn lemma_from_findings_has(
    fname: Seq<char>,
    ls: Seq<Seq<char>>,
    us: Seq<Seq<char>>,
    ils: Seq<Seq<char>>,
    n: int,
    i: int,
    x: FindingView,
)
    requires
        0 <= i < n,
        from_line_findings(fname, ls[i], us[i], ils[i], i).contains(x),
    ensures
        from_findings(fname, ls, us, ils, n).contains(x),
    decreases n,
{
    let prev = from_findings(fname, ls, us, ils, n - 1);
    let cur = from_line_findings(fname, ls[n - 1], us[n - 1], ils[n - 1], n - 1);
    if i < n - 1 {
        lemma_from_findings_has(fname, ls, us, ils, n - 1, i, x);
    }
    lemma_in_concat(prev, cur, x);
}

/// A `FROM` line whose image has the tag `:latest`, or no tag at all (and
/// is not `scratch`), is reported on its line as a non-pinned image.
pub proof fn law_unpinned_image_reported(df: (Seq<Seq<char>>, Seq<char>), i: int)
    requires
        0 <= i < df.0.len() <= usize::MAX,
        starts_with(upper(trim(df.0[i])), "FROM "@),
        ({
            let image = image_of(trim(df.0[i]));
            contains(image, ":latest"@) || (!contains(image, ":"@) && !contains(image, "scratch"@))
        }),
    ensures
        single_dockerfile_findings(df).contains(
            finding(
                FindingCategory::DockerBaseImage,
                "Non-pinned image tag: "@ + image_of(trim(df.0[i])),
                "'"@ + image_of(trim(df.0[i]))
                    + "' has no version pin. Builds are non-reproducible across time."@,
                0,
                Some(df.1),
                Some((i + 1) as usize),
            ),
        ),
{
    let ls = df.0;
    let fname = df.1;
    let us = line_uppers(ls);
    let ils = image_lowers(ls);
    let image = image_of(trim(ls[i]));
    assert(us[i] == upper(trim(ls[i])));
    let x = finding(
        FindingCategory::DockerBaseImage,
        "Non-pinned image tag: "@ + image,
        "'"@ + image + "' has no version pin. Builds are non-reproducible across time."@,
        0,
        Some(fname),
        Some((i + 1) as usize),
    );
    let lf = from_line_findings(fname, ls[i], us[i], ils[i], i);
    let heavy = heavy_match(ils[i]);
    let pa: Seq<FindingView> = match heavy {
        Some(k) => {
            let (pat, size, alp) = heavy_image(k);
            let delta = (size - alp) as u64;
            seq![
                finding(
                    FindingCategory::DockerBaseImage,
                    "Heavy base image: "@ + image,
                    image + " = ~"@ + decimal(size as nat) + "MB. alpine equivalent = ~"@
                        + decimal(alp as nat) + "MB. Delta: "@ + decimal(delta as nat) + "MB"@,
                    (delta * 1024 * 1024) as u64,
                    Some(fname),
                    Some((i + 1) as usize),
                ),
            ]
        },
        None => seq![],
    };
    assert(lf[pa.len() as int] == x);
    assert(lf.contains(x));
    lemma_from_findings_has(fname, ls, us, ils, ls.len() as int, i, x);
    let a = from_findings(fname, ls, us, ils, ls.len() as int);
    let c = cache_findings(fname, us);
    let b = bloat_findings(fname, us);
    let t = structure_findings(fname, us, upper(join(ls, "\n"@)));
    lemma_in_concat(a, c, x);
    lemma_in_concat(a + c, b, x);
    lemma_in_concat(a + c + b, t, x);
    assert(single_dockerfile_findings(df) == a + c + b + t);
}

proof fn lemma_from_count_single(us: Seq<Seq<char>>, n: int)
    requires
        0 <= n <= us.len(),
        forall|j: int, k: int| 0 <= j < k < n ==> !(is_from(#[trigger] us[j]) && is_from(#[trigger] us[k])),
    ensures
        from_count(us, n) <= 1,
        from_count(us, n) == 1 ==> exists|j: int| 0 <= j < n && is_from(#[trigger] us[j]),
    decreases n,
{
    if n > 0 {
        lemma_from_count_single(us, n - 1);
        if is_from(us[n - 1]) && from_count(us, n - 1) == 1 {
            let j = choose|j: int| 0 <= j < n - 1 && is_from(#[trigger] us[j]);
            assert(!(is_from(us[j]) && is_from(us[n - 1])));
        }
    }
}

/// A single-stage Dockerfile (at most one `FROM` line) that mentions build
/// tools (gcc, g++, make, build-essential, `npm run build`, in any case) is
/// reported as keeping them in the image, counted at 200 MiB (209715200 bytes).
pub proof fn law_build_tools_without_stages_reported(df: (Seq<Seq<char>>, Seq<char>))
    requires
        forall|j: int, k: int|
            0 <= j < k < df.0.len() ==> !(starts_with(#[trigger] upper(trim(df.0[j])), "FROM "@)
                && starts_with(#[trigger] upper(trim(df.0[k])), "FROM "@)),
        ({
            let cu = upper(join(df.0, "\n"@));
            contains(cu, "GCC"@) || contains(cu, "G++"@) || contains(cu, "MAKE"@) || contains(
                cu,
                "BUILD-ESSENTIAL"@,
            ) || contains(cu, "NPM RUN BUILD"@)
        }),
    ensures
        single_dockerfile_findings(df).contains(
            finding(
                FindingCategory::DockerStructure,
                "No multi-stage build with build tools"@,
                "Build tools (gcc, make, build-essential, npm run build) remain in production image. Use multi-stage to drop them."@,
                209715200u64,
                Some(df.1),
                None,
            ),
        ),
{
    let ls = df.0;
    let fname = df.1;
    let us = line_uppers(ls);
    assert forall|j: int, k: int| 0 <= j < k < us.len() implies !(is_from(#[trigger] us[j]) && is_from(
        #[trigger] us[k],
    )) by {
        assert(us[j] == upper(trim(ls[j])) && us[k] == upper(trim(ls[k])));
    }
    lemma_from_count_single(us, us.len() as int);
    let cu = upper(join(ls, "\n"@));
    let t = structure_findings(fname, us, cu);
    let x = t[0];
    assert(x == finding(
        FindingCategory::DockerStructure,
        "No multi-stage build with build tools"@,
        "Build tools (gcc, make, build-essential, npm run build) remain in production image. Use multi-stage to drop them."@,
        209715200u64,
        Some(fname),
        None,
    ));
    assert(t.contains(x));
    let a = from_findings(fname, ls, us, image_lowers(ls), ls.len() as int);
    let c = cache_findings(fname, us);
    let b = bloat_findings(fname, us);
    lemma_in_concat(a + c + b, t, x);
    assert(single_dockerfile_findings(df) == a + c + b + t);
}

} // verus!
