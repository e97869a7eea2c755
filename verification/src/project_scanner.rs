//! What a project holds, and how it is read from the files of its root.
use crate::json::{json_object_members, members_or_empty, members_or_empty_exec, object_members};
use crate::text::{
    after_last, after_last_exec, begins, chars_eq, chars_of,
    contains_text, ends_with, find, find_from, find_from_exec, finishes, first_word,
    first_word_exec, is_text, lemma_find_from_props, lemma_next_char_bounds,
    lines, lines_exec, lower, lower_exec, next_char, next_char_exec, push_all, push_str, slice_of,
    starts_with, string_of, trim, trim_char, trim_char_exec, trim_exec,
};
use vstd::prelude::*;

verus! {

broadcast use crate::lemma_deep_view_chars;

/// A build-artifact directory found in the project root, with its size.
pub struct ArtifactDir {
    pub name: String,
    pub size: u64,
}

/// Everything the checks read about a project.
pub struct ProjectInfo {
    /// The project root, as displayed.
    pub root: String,
    pub project_type: Vec<ProjectType>,
    pub package_json: Option<PackageJsonInfo>,
    pub dockerfile: Option<DockerfileInfo>,
    pub extra_dockerfiles: Vec<DockerfileInfo>,
    /// Dockerfile names that compose files, scripts and makefiles refer to.
    pub compose_referenced: Vec<String>,
    pub source_files: Vec<SourceFile>,
    pub has_node_modules: bool,
    pub node_modules_size: u64,
    pub has_dist: bool,
    pub dist_size: u64,
    pub has_lockfile: bool,
    pub has_dockerignore: bool,
    pub extra_artifacts: Vec<ArtifactDir>,
    pub lockfiles_found: Vec<String>,
    /// For each imported package, in order of first import, the source files
    /// that import it (each file once, in scan order).
    pub import_index: Vec<(String, Vec<String>)>,
    /// The names of the regular files in the project root, in listing order.
    pub root_files: Vec<String>,
    /// For dependencies installed under `node_modules`, the name and the text
    /// of the installed `package.json`.
    pub installed_manifests: Vec<(String, String)>,
}

/// A JavaScript or TypeScript source file, by its path below the root.
pub struct SourceFile {
    pub relative_path: String,
    pub content: String,
}

/// The ecosystems a project belongs to.
#[derive(Debug, Clone, Copy, PartialEq, Eq, Structural)]
pub enum ProjectType {
    Node,
    Docker,
}

/// The dependencies a `package.json` declares, as (name, version) pairs.
pub struct PackageJsonInfo {
    pub dependencies: Vec<(String, String)>,
    pub dev_dependencies: Vec<(String, String)>,
}

/// A Dockerfile by its lines.
pub struct DockerfileInfo {
    pub lines: Vec<String>,
    pub filename: String,
}

// ---------------------------------------------------------------------------
// Import paths in a line of JavaScript
// ---------------------------------------------------------------------------

/// The paths quoted after `marker` in `line`, searching from `from`: each
/// occurrence of the marker opens a path that ends at the next `quote`.
pub open spec fn marker_paths(line: Seq<char>, marker: Seq<char>, quote: char, from: int) -> Seq<
    Seq<char>,
>
    decreases line.len() - from,
{
    if from < 0 || from >= line.len() {
        seq![]
    } else {
        match find_from(line, marker, from) {
            None => seq![],
            Some(st) => {
                let a = st + marker.len();
                if a >= line.len() {
                    seq![]
                } else {
                    let e = next_char(line, quote, a);
                    proof {
                        lemma_find_from_props(line, marker, from);
                        lemma_next_char_bounds(line, quote, a);
                    }
                    if e >= line.len() {
                        seq![]
                    } else if e > a {
                        seq![line.subrange(a, e)] + marker_paths(line, marker, quote, e + 1)
                    } else {
                        marker_paths(line, marker, quote, e + 1)
                    }
                }
            },
        }
    }
}

/// The module paths that `require(..)`, `from ..` and `import ..` name in a
/// line, marker by marker.
pub open spec fn spec_extract_import_paths(line: Seq<char>) -> Seq<Seq<char>> {
    marker_paths(line, "require('"@, '\'', 0) + marker_paths(line, "require(\""@, '"', 0)
        + marker_paths(line, "from '"@, '\'', 0) + marker_paths(line, "from \""@, '"', 0)
        + marker_paths(line, "import '"@, '\'', 0) + marker_paths(line, "import \""@, '"', 0)
}

fn push_marker_paths(out: &mut Vec<Vec<char>>, line: &Vec<char>, marker: &str, quote: char)
    ensures
        final(out).deep_view() == old(out).deep_view() + marker_paths(line@, marker@, quote, 0),
{
    let m = chars_of(marker);
    let mut search_from: usize = 0;
    let ghost start = out.deep_view();
    while search_from < line.len()
        invariant
            search_from <= line@.len(),
            m@ == marker@,
            start + marker_paths(line@, m@, quote, search_from as int) == old(out).deep_view()
                + marker_paths(line@, m@, quote, 0),
            start == out.deep_view(),
        ensures
            out.deep_view() == old(out).deep_view() + marker_paths(line@, m@, quote, 0),
        decreases line@.len() - search_from,
    {
        let found = find_from_exec(line, &m, search_from);
        proof {
            lemma_find_from_props(line@, m@, search_from as int);
        }
        match found {
            None => {
                assert(marker_paths(line@, m@, quote, search_from as int) =~= Seq::<
                    Seq<char>,
                >::empty());
                break ;
            },
            Some(st) => {
                if st > line.len() || m.len() >= line.len() - st {
                    assert(marker_paths(line@, m@, quote, search_from as int) =~= Seq::<
                        Seq<char>,
                    >::empty());
                    break ;
                }
                let a = st + m.len();
                let e = next_char_exec(line, quote, a);
                proof {
                    lemma_next_char_bounds(line@, quote, a as int);
                }
                if e >= line.len() {
                    assert(marker_paths(line@, m@, quote, search_from as int) =~= Seq::<
                        Seq<char>,
                    >::empty());
                    break ;
                }
                if e > a {
                    let p = slice_of(line, a, e);
                    let ghost before = out@;
                    out.push(p);
                    assert forall|k: int| 0 <= k < before.len() implies out.deep_view()[k]
                        == start[k] by {
                        assert(out@[k] == before[k]);
                    }
                    assert(out.deep_view() =~= start.push(line@.subrange(a as int, e as int)));
                    proof {
                        assert(start.push(line@.subrange(a as int, e as int)) + marker_paths(
                            line@,
                            m@,
                            quote,
                            e + 1,
                        ) =~= start + marker_paths(line@, m@, quote, search_from as int));
                    }
                }
                search_from = e + 1;
                proof {
                    start = out.deep_view();
                }
            },
        }
    }
}

/// The module paths imported in one line of JavaScript.
pub fn extract_import_paths(line: &Vec<char>) -> (r: Vec<Vec<char>>)
    ensures
        r.deep_view() == spec_extract_import_paths(line@),
{
    let mut out: Vec<Vec<char>> = Vec::new();
    push_marker_paths(&mut out, line, "require('", '\'');
    push_marker_paths(&mut out, line, "require(\"", '"');
    push_marker_paths(&mut out, line, "from '", '\'');
    push_marker_paths(&mut out, line, "from \"", '"');
    push_marker_paths(&mut out, line, "import '", '\'');
    push_marker_paths(&mut out, line, "import \"", '"');
    out
}

/// The package a module path belongs to: empty for relative and absolute
/// paths, `@scope/name` for scoped packages, else the part before the first `/`.
pub open spec fn spec_normalize_package_name(raw: Seq<char>) -> Seq<char> {
    if raw.len() > 0 && (raw[0] == '.' || raw[0] == '/') {
        seq![]
    } else if raw.len() > 0 && raw[0] == '@' {
        let i = next_char(raw, '/', 0);
        if i >= raw.len() {
            raw
        } else {
            let j = next_char(raw, '/', i + 1);
            raw.subrange(0, i) + seq!['/'] + raw.subrange(i + 1, j)
        }
    } else {
        raw.subrange(0, next_char(raw, '/', 0))
    }
}

/// The package that a module path names.
pub fn normalize_package_name(raw: &Vec<char>) -> (r: Vec<char>)
    ensures
        r@ == spec_normalize_package_name(raw@),
{
    if raw.len() > 0 && (raw[0] == '.' || raw[0] == '/') {
        return Vec::new();
    }
    proof {
        lemma_next_char_bounds(raw@, '/', 0);
    }
    if raw.len() > 0 && raw[0] == '@' {
        let i = next_char_exec(raw, '/', 0);
        if i >= raw.len() {
            return slice_of(raw, 0, raw.len());
        }
        let j = next_char_exec(raw, '/', i + 1);
        let mut r = slice_of(raw, 0, i);
        r.push('/');
        let rest = slice_of(raw, i + 1, j);
        push_all(&mut r, &rest);
        return r;
    }
    let k = next_char_exec(raw, '/', 0);
    slice_of(raw, 0, k)
}

// ---------------------------------------------------------------------------
// The import index
// ---------------------------------------------------------------------------

impl DeepView for SourceFile {
    type V = (Seq<char>, Seq<char>);

    open spec fn deep_view(&self) -> (Seq<char>, Seq<char>) {
        (self.relative_path@, self.content@)
    }
}

/// The raw import paths of the lines, line by line.
pub open spec fn raw_imports(ls: Seq<Seq<char>>) -> Seq<Seq<char>>
    decreases ls.len(),
{
    if ls.len() == 0 {
        seq![]
    } else {
        raw_imports(ls.drop_last()) + spec_extract_import_paths(ls.last())
    }
}

/// The distinct non-empty package names of the raw paths, in order of
/// first appearance.
pub open spec fn package_fold(raws: Seq<Seq<char>>) -> Seq<Seq<char>>
    decreases raws.len(),
{
    if raws.len() == 0 {
        seq![]
    } else {
        let prev = package_fold(raws.drop_last());
        let p = spec_normalize_package_name(raws.last());
        if p.len() > 0 && !prev.contains(p) {
            prev.push(p)
        } else {
            prev
        }
    }
}

/// The packages a source text imports, each once, in order of first import.
pub open spec fn file_packages(content: Seq<char>) -> Seq<Seq<char>> {
    package_fold(raw_imports(lines(content)))
}

/// The first position of `key` among the entries' keys, or their number.
pub open spec fn key_position<V>(idx: Seq<(Seq<char>, V)>, key: Seq<char>, from: int) -> int
    decreases idx.len() - from,
{
    if 0 <= from < idx.len() && idx[from].0 != key {
        key_position(idx, key, from + 1)
    } else {
        from
    }
}

pub proof fn lemma_key_position<V>(idx: Seq<(Seq<char>, V)>, key: Seq<char>, from: int)
    requires
        0 <= from <= idx.len(),
    ensures
        from <= key_position(idx, key, from) <= idx.len(),
        key_position(idx, key, from) < idx.len() ==> idx[key_position(idx, key, from)].0
            == key,
        forall|j: int| from <= j < key_position(idx, key, from) ==> idx[j].0 != key,
    decreases idx.len() - from,
{
    if from < idx.len() && idx[from].0 != key {
        lemma_key_position(idx, key, from + 1);
    }
}

/// Records that `path` imports `pkg`.
pub open spec fn index_add(
    idx: Seq<(Seq<char>, Seq<Seq<char>>)>,
    pkg: Seq<char>,
    path: Seq<char>,
) -> Seq<(Seq<char>, Seq<Seq<char>>)> {
    let k = key_position(idx, pkg, 0);
    if k < idx.len() {
        idx.update(k, (pkg, idx[k].1.push(path)))
    } else {
        idx.push((pkg, seq![path]))
    }
}

/// Records that `path` imports each of `pkgs`.
pub open spec fn index_add_all(
    idx: Seq<(Seq<char>, Seq<Seq<char>>)>,
    pkgs: Seq<Seq<char>>,
    path: Seq<char>,
) -> Seq<(Seq<char>, Seq<Seq<char>>)>
    decreases pkgs.len(),
{
    if pkgs.len() == 0 {
        idx
    } else {
        index_add(index_add_all(idx, pkgs.drop_last(), path), pkgs.last(), path)
    }
}

/// The import index of the source files (path, content), file by file.
pub open spec fn spec_build_import_index(files: Seq<(Seq<char>, Seq<char>)>) -> Seq<
    (Seq<char>, Seq<Seq<char>>),
>
    decreases files.len(),
{
    if files.len() == 0 {
        seq![]
    } else {
        index_add_all(
            spec_build_import_index(files.drop_last()),
            file_packages(files.last().1),
            files.last().0,
        )
    }
}

/// The packages a source text imports, each once, in order of first import.
pub fn packages_of_file(content: &String) -> (r: Vec<Vec<char>>)
    ensures
        r.deep_view() == file_packages(content@),
{
    let text = chars_of(content.as_str());
    let ls = lines_exec(&text);
    let ghost lsv = ls.deep_view();
    let mut seen: Vec<Vec<char>> = Vec::new();
    let ghost mut raws: Seq<Seq<char>> = seq![];
    let n = ls.len();
    for j in 0..n
        invariant
            n == ls@.len(),
            lsv == ls.deep_view(),
            lsv == lines(content@),
            raws == raw_imports(lsv.take(j as int)),
            seen.deep_view() == package_fold(raws),
    {
        let paths = extract_import_paths(&ls[j]);
        assert(lsv[j as int] == ls@[j as int]@);
        assert(lsv.take(j + 1).drop_last() =~= lsv.take(j as int));
        let ghost pd = paths.deep_view();
        let m = paths.len();
        for r in 0..m
            invariant
                m == paths@.len(),
                pd == paths.deep_view(),
                raws == raw_imports(lsv.take(j as int)) + pd.take(r as int),
                seen.deep_view() == package_fold(raws),
        {
            let pkg = normalize_package_name(&paths[r]);
            let ghost prev = raws;
            proof {
                raws = raws.push(pd[r as int]);
                assert(raws.drop_last() =~= prev);
                assert(pd[r as int] == paths@[r as int]@);
                assert(raw_imports(lsv.take(j as int)) + pd.take(r + 1) =~= raws);
            }
            if pkg.len() > 0 && !crate::text::contains_text(&seen, &pkg) {
                let ghost before = seen@;
                let ghost bd = seen.deep_view();
                seen.push(pkg);
                assert forall|k: int| 0 <= k < before.len() implies seen.deep_view()[k]
                    == bd[k] by {
                    assert(seen@[k] == before[k]);
                }
                assert(seen.deep_view() =~= bd.push(pkg@));
            }
        }
        assert(pd.take(m as int) =~= pd);
    }
    assert(lsv.take(n as int) =~= lsv);
    seen
}

/// The import index of the source files: for each package, in order of first
/// import, the files that import it, in scan order.
pub fn build_import_index(source_files: &Vec<SourceFile>) -> (r: Vec<(String, Vec<String>)>)
    ensures
        r.deep_view() == spec_build_import_index(source_files.deep_view()),
{
    let mut keys: Vec<Vec<char>> = Vec::new();
    let mut lists: Vec<Vec<Vec<char>>> = Vec::new();
    let ghost files = source_files.deep_view();
    let ghost mut idx: Seq<(Seq<char>, Seq<Seq<char>>)> = seq![];
    let n = source_files.len();
    for f in 0..n
        invariant
            n == source_files@.len(),
            files == source_files.deep_view(),
            idx == spec_build_import_index(files.take(f as int)),
            keys@.len() == idx.len(),
            lists@.len() == idx.len(),
            forall|k: int| 0 <= k < idx.len() ==> idx[k].0 == (#[trigger] keys@[k])@,
            forall|k: int| 0 <= k < idx.len() ==> idx[k].1 == (#[trigger] lists@[k]).deep_view(),
    {
        let src = &source_files[f];
        assert(files[f as int] == source_files@[f as int].deep_view());
        let pkgs = packages_of_file(&src.content);
        let path = chars_of(src.relative_path.as_str());
        let ghost pd = pkgs.deep_view();
        let ghost idx0 = idx;
        let m = pkgs.len();
        for q in 0..m
            invariant
                m == pkgs@.len(),
                pd == pkgs.deep_view(),
                path@ == files[f as int].0,
                idx == index_add_all(idx0, pd.take(q as int), path@),
                keys@.len() == idx.len(),
                lists@.len() == idx.len(),
                forall|k: int| 0 <= k < idx.len() ==> idx[k].0 == (#[trigger] keys@[k])@,
                forall|k: int|
                    0 <= k < idx.len() ==> idx[k].1 == (#[trigger] lists@[k]).deep_view(),
        {
            let key = &pkgs[q];
            assert(pd[q as int] == key@);
            assert(pd.take(q + 1).drop_last() =~= pd.take(q as int));
            let mut pos: usize = 0;
            while pos < keys.len() && !crate::text::chars_eq(&keys[pos], key)
                invariant
                    pos <= keys@.len(),
                    keys@.len() == idx.len(),
                    forall|k: int| 0 <= k < idx.len() ==> idx[k].0 == (#[trigger] keys@[k])@,
                    key_position(idx, key@, pos as int) == key_position(idx, key@, 0),
                decreases keys@.len() - pos,
            {
                pos = pos + 1;
            }
            proof {
                lemma_key_position(idx, key@, 0);
            }
            let ghost old_idx = idx;
            let ghost old_lists = lists@;
            if pos < keys.len() {
                let mut tmp: Vec<Vec<char>> = Vec::new();
                lists.set_and_swap(pos, &mut tmp);
                let ghost tmp_before = tmp.deep_view();
                let ghost tmp_raw = tmp@;
                let pc = slice_of(&path, 0, path.len());
                assert(pc@ =~= path@);
                tmp.push(pc);
                assert(tmp.deep_view()[tmp_raw.len() as int] == path@);
                assert forall|k: int| 0 <= k < tmp_raw.len() implies tmp.deep_view()[k]
                    == tmp_before[k] by {
                    assert(tmp@[k] == tmp_raw[k]);
                }
                assert(tmp.deep_view() =~= tmp_before.push(path@));
                let ghost newl = tmp.deep_view();
                lists.set_and_swap(pos, &mut tmp);
                proof {
                    idx = old_idx.update(pos as int, (key@, old_idx[pos as int].1.push(path@)));
                    assert(lists@[pos as int].deep_view() == newl);
                }
            } else {
                let kc = slice_of(key, 0, key.len());
                assert(kc@ =~= key@);
                keys.push(kc);
                let mut l: Vec<Vec<char>> = Vec::new();
                let pc = slice_of(&path, 0, path.len());
                assert(pc@ =~= path@);
                l.push(pc);
                assert(l.deep_view()[0] == path@);
                assert(l.deep_view() =~= seq![path@]);
                lists.push(l);
                proof {
                    idx = old_idx.push((key@, seq![path@]));
                }
            }
        }
        assert(pd.take(m as int) =~= pd);
        assert(files.take(f + 1).drop_last() =~= files.take(f as int));
    }
    assert(files.take(n as int) =~= files);
    let mut out: Vec<(String, Vec<String>)> = Vec::new();
    let c = keys.len();
    for k in 0..c
        invariant
            c == keys@.len(),
            keys@.len() == idx.len(),
            lists@.len() == idx.len(),
            forall|i: int| 0 <= i < idx.len() ==> idx[i].0 == (#[trigger] keys@[i])@,
            forall|i: int| 0 <= i < idx.len() ==> idx[i].1 == (#[trigger] lists@[i]).deep_view(),
            out.deep_view() == idx.take(k as int),
    {
        let name = string_of(&keys[k]);
        let files_of = strings_of(&lists[k]);
        let ghost before = out@;
        let ghost bd = out.deep_view();
        let ghost nv = name@;
        let ghost fv = files_of.deep_view();
        assert(bd.len() == k);
        assert(before.len() == k);
        let pair = (name, files_of);
        let ghost pg = pair;
        out.push(pair);
        assert(out@.len() == k + 1);
        assert(out@[k as int] == pg);
        assert(out.deep_view()[k as int] == (nv, fv));
        assert forall|i: int| 0 <= i < before.len() implies out.deep_view()[i] == bd[i] by {
            assert(out@[i] == before[i]);
        }
        assert(out.deep_view() =~= idx.take(k + 1));
    }
    assert(idx.take(c as int) =~= idx);
    out
}

/// The `String`s of the character vectors.
pub fn strings_of(v: &Vec<Vec<char>>) -> (r: Vec<String>)
    ensures
        r.deep_view() == v.deep_view(),
{
    let mut out: Vec<String> = Vec::new();
    let n = v.len();
    for i in 0..n
        invariant
            n == v@.len(),
            out.deep_view() == v.deep_view().take(i as int),
    {
        let s = string_of(&v[i]);
        let ghost before = out@;
        let ghost bd = out.deep_view();
        let ghost sv = s@;
        let ghost sg = s;
        assert(v.deep_view()[i as int] == v@[i as int].deep_view());
        assert(bd.len() == i);
        assert(before.len() == i);
        out.push(s);
        assert(out@.len() == i + 1);
        assert(out@[i as int] == sg);
        assert(out.deep_view()[i as int] == sv);
        assert forall|k: int| 0 <= k < before.len() implies out.deep_view()[k] == bd[k] by {
            assert(out@[k] == before[k]);
        }
        assert(out.deep_view() =~= v.deep_view().take(i + 1));
    }
    assert(v.deep_view().take(n as int) =~= v.deep_view());
    out
}

// ---------------------------------------------------------------------------
// package.json
// ---------------------------------------------------------------------------

impl DeepView for PackageJsonInfo {
    type V = (Seq<(Seq<char>, Seq<char>)>, Seq<(Seq<char>, Seq<char>)>);

    open spec fn deep_view(&self) -> Self::V {
        (self.dependencies.deep_view(), self.dev_dependencies.deep_view())
    }
}

/// Dependency pairs from JSON members: a version that is no string reads `*`.
pub open spec fn deps_of(members: Seq<(Seq<char>, Option<Seq<char>>)>) -> Seq<
    (Seq<char>, Seq<char>),
> {
    Seq::new(
        members.len(),
        |i: int|
            (
                members[i].0,
                match members[i].1 {
                    Some(v) => v,
                    None => "*"@,
                },
            ),
    )
}

/// The declared dependencies of a `package.json` text, `None` where it is no JSON.
pub open spec fn spec_parse_package_json(text: Seq<char>) -> Option<
    (Seq<(Seq<char>, Seq<char>)>, Seq<(Seq<char>, Seq<char>)>),
> {
    match json_object_members(text, "dependencies"@) {
        None => None,
        Some(d) => match json_object_members(text, "devDependencies"@) {
            None => None,
            Some(dd) => Some((deps_of(members_or_empty(d)), deps_of(members_or_empty(dd)))),
        },
    }
}

/// Dependency pairs from the members of a JSON object.
pub fn deps_from_members(members: &Vec<(String, Option<String>)>) -> (r: Vec<(String, String)>)
    ensures
        r.deep_view() == deps_of(members.deep_view()),
{
    let mut out: Vec<(String, String)> = Vec::new();
    let n = members.len();
    let ghost md = members.deep_view();
    for i in 0..n
        invariant
            n == members@.len(),
            md == members.deep_view(),
            out.deep_view() == deps_of(md).take(i as int),
    {
        let name = members[i].0.clone();
        let version = match &members[i].1 {
            Some(v) => v.clone(),
            None => String::from_str("*"),
        };
        assert(md[i as int] == members@[i as int].deep_view());
        let pair = (name, version);
        let ghost pg = pair;
        let ghost before = out@;
        let ghost bd = out.deep_view();
        assert(bd.len() == i);
        out.push(pair);
        assert(out@[i as int] == pg);
        assert forall|k: int| 0 <= k < before.len() implies out.deep_view()[k] == bd[k] by {
            assert(out@[k] == before[k]);
        }
        assert(out.deep_view() =~= deps_of(md).take(i + 1));
    }
    assert(deps_of(md).take(n as int) =~= deps_of(md));
    out
}

/// The dependencies a `package.json` text declares, `None` where it is no JSON.
pub fn parse_package_json(text: &str) -> (r: Option<PackageJsonInfo>)
    ensures
        match r {
            None => spec_parse_package_json(text@) is None,
            Some(p) => spec_parse_package_json(text@) == Some(p.deep_view()),
        },
{
    let d = match object_members(text, "dependencies") {
        None => {
            return None;
        },
        Some(d) => members_or_empty_exec(d),
    };
    let dd = match object_members(text, "devDependencies") {
        None => {
            return None;
        },
        Some(dd) => members_or_empty_exec(dd),
    };
    Some(
        PackageJsonInfo {
            dependencies: deps_from_members(&d),
            dev_dependencies: deps_from_members(&dd),
        },
    )
}

// ---------------------------------------------------------------------------
// Dockerfile names
// ---------------------------------------------------------------------------

/// A root file name that names a Dockerfile variant (`Dockerfile.*`,
/// `*.Dockerfile` in any case, `Containerfile`, `Containerfile.*`), given the
/// name and its lower-case form.
pub open spec fn spec_is_dockerfile_variant(name: Seq<char>, lower_name: Seq<char>) -> bool {
    ||| starts_with(name, "Dockerfile."@)
    ||| ends_with(lower_name, ".dockerfile"@)
    ||| name == "Containerfile"@
    ||| starts_with(name, "Containerfile."@)
}

/// Whether a root file name names a Dockerfile variant, given its lower-case form.
pub fn is_dockerfile_variant(name: &Vec<char>, lower_name: &Vec<char>) -> (r: bool)
    ensures
        r == spec_is_dockerfile_variant(name@, lower_name@),
{
    begins(name, "Dockerfile.") || finishes(lower_name, ".dockerfile") || is_text(
        name,
        "Containerfile",
    ) || begins(name, "Containerfile.")
}

// ---------------------------------------------------------------------------
// Dockerfiles referenced by compose files, scripts and makefiles
// ---------------------------------------------------------------------------

/// A file of the project root: its name, whether it is a regular file, and
/// its text where it could be read as UTF-8.
pub struct RootEntry {
    pub name: String,
    pub is_file: bool,
    pub text: Option<String>,
}

impl DeepView for RootEntry {
    type V = (Seq<char>, bool, Option<Seq<char>>);

    open spec fn deep_view(&self) -> Self::V {
        (self.name@, self.is_file, self.text.deep_view())
    }
}

/// `refs` with `x` added at the end, unless `x` is empty or already there.
pub open spec fn add_unique(refs: Seq<Seq<char>>, x: Seq<char>) -> Seq<Seq<char>> {
    if x.len() > 0 && !refs.contains(x) {
        refs.push(x)
    } else {
        refs
    }
}

pub fn add_unique_exec(refs: &mut Vec<Vec<char>>, x: Vec<char>)
    ensures
        final(refs).deep_view() == add_unique(old(refs).deep_view(), x@),
{
    if x.len() > 0 && !contains_text(refs, &x) {
        let ghost before = refs@;
        let ghost bd = refs.deep_view();
        let ghost xv = x@;
        refs.push(x);
        assert(refs.deep_view()[before.len() as int] == xv);
        assert forall|k: int| 0 <= k < before.len() implies refs.deep_view()[k] == bd[k] by {
            assert(refs@[k] == before[k]);
        }
        assert(refs.deep_view() =~= bd.push(xv));
    }
}

/// What a compose file has shown so far: the names referenced, and the
/// numbers of `dockerfile:` and `build:` keys.
pub struct ComposeScan {
    pub refs: Seq<Seq<char>>,
    pub explicit: nat,
    pub builds: nat,
}

/// The Dockerfile an explicit `dockerfile:` value names: quotes trimmed, the
/// part after the last `/`.
pub open spec fn dockerfile_value_name(val: Seq<char>) -> Seq<char> {
    after_last(trim_char(trim_char(trim(val), '"'), '\''), '/')
}

/// One line of a compose file.
pub open spec fn compose_line(st: ComposeScan, line: Seq<char>) -> ComposeScan {
    let t = trim(line);
    let st1 = if starts_with(t, "dockerfile:"@) {
        ComposeScan {
            refs: add_unique(
                st.refs,
                dockerfile_value_name(t.subrange("dockerfile:"@.len() as int, t.len() as int)),
            ),
            explicit: st.explicit + 1,
            builds: st.builds,
        }
    } else {
        st
    };
    if starts_with(t, "build:"@) {
        ComposeScan { refs: st1.refs, explicit: st1.explicit, builds: st1.builds + 1 }
    } else {
        st1
    }
}

/// The lines of a compose file, one after another.
pub open spec fn compose_lines(st: ComposeScan, ls: Seq<Seq<char>>) -> ComposeScan
    decreases ls.len(),
{
    if ls.len() == 0 {
        st
    } else {
        compose_line(compose_lines(st, ls.drop_last()), ls.last())
    }
}

/// The names a compose file references: its explicit `dockerfile:` values,
/// and `Dockerfile` itself where some `build:` has no explicit Dockerfile.
pub open spec fn compose_file(refs: Seq<Seq<char>>, ls: Seq<Seq<char>>) -> Seq<Seq<char>> {
    let st = compose_lines(ComposeScan { refs, explicit: 0, builds: 0 }, ls);
    if st.builds > 0 && st.builds > st.explicit {
        add_unique(st.refs, "Dockerfile"@)
    } else {
        st.refs
    }
}

/// The command prefixes after which scripts name a Dockerfile.
pub open spec fn script_prefixes() -> Seq<Seq<char>> {
    seq![
        "docker build -f "@,
        "buildah bud -f "@,
        "podman build -f "@,
        "docker build --file "@,
        "docker buildx build -f "@,
        "docker compose build"@,
    ]
}

/// `c` is `pc`, or the ASCII capital of the ASCII small letter `pc`.
pub open spec fn ci_char_eq(c: char, pc: char) -> bool {
    c == pc || (97 <= pc as int <= 122 && c as int + 32 == pc as int)
}

/// `p` occurs in `t` at index `i`, ignoring ASCII case.
pub open spec fn ci_matches_at(t: Seq<char>, p: Seq<char>, i: int) -> bool {
    &&& 0 <= i
    &&& i + p.len() <= t.len()
    &&& forall|k: int| 0 <= k < p.len() ==> ci_char_eq(#[trigger] t[i + k], p[k])
}

/// The first index at or after `i` where `p` occurs in `t`, ignoring ASCII case.
pub open spec fn ci_find_from(t: Seq<char>, p: Seq<char>, i: int) -> Option<int>
    decreases t.len() + 1 - i,
{
    if i < 0 || i + p.len() > t.len() {
        None
    } else if ci_matches_at(t, p, i) {
        Some(i)
    } else {
        ci_find_from(t, p, i + 1)
    }
}

pub proof fn lemma_ci_find_from(t: Seq<char>, p: Seq<char>, i: int)
    ensures
        ci_find_from(t, p, i) matches Some(k) ==> 0 <= i <= k && k + p.len() <= t.len(),
    decreases t.len() + 1 - i,
{
    if !(i < 0 || i + p.len() > t.len()) && !ci_matches_at(t, p, i) {
        lemma_ci_find_from(t, p, i + 1);
    }
}

/// What follows the first occurrence of the command prefix `p` in the line
/// `t` (letters compared without regard to ASCII case), where it occurs.
pub open spec fn prefix_rest(t: Seq<char>, p: Seq<char>) -> Option<Seq<char>> {
    match ci_find_from(t, p, 0) {
        None => None,
        Some(pos) => Some(t.subrange(pos + p.len(), t.len() as int)),
    }
}

/// The first `k` script prefixes applied to one trimmed line `t`: after each
/// prefix found, the basename of the next word.
pub open spec fn script_line_upto(refs: Seq<Seq<char>>, t: Seq<char>, k: int) -> Seq<Seq<char>>
    decreases k,
{
    if k <= 0 {
        refs
    } else {
        let prev = script_line_upto(refs, t, k - 1);
        match prefix_rest(t, script_prefixes()[k - 1]) {
            Some(rest) => add_unique(prev, after_last(first_word(rest), '/')),
            None => prev,
        }
    }
}

/// The lines of a script, each trimmed, one after another.
pub open spec fn script_lines(refs: Seq<Seq<char>>, ls: Seq<Seq<char>>) -> Seq<Seq<char>>
    decreases ls.len(),
{
    if ls.len() == 0 {
        refs
    } else {
        script_line_upto(script_lines(refs, ls.drop_last()), trim(ls.last()), 6)
    }
}

/// A lower-case file name of a compose file.
pub open spec fn is_compose_name(ln: Seq<char>) -> bool {
    ends_with(ln, ".yml"@) || ends_with(ln, ".yaml"@)
}

/// A lower-case file name of a shell script, makefile or justfile.
pub open spec fn is_script_name(ln: Seq<char>) -> bool {
    ends_with(ln, ".sh"@) || starts_with(ln, "makefile"@) || ln == "justfile"@
}

/// The references one root file adds, given its lower-case name and its text.
pub open spec fn file_refs(refs: Seq<Seq<char>>, ln: Seq<char>, content: Seq<char>) -> Seq<Seq<char>> {
    let ls = lines(content);
    let r1 = if is_compose_name(ln) {
        compose_file(refs, ls)
    } else {
        refs
    };
    if is_script_name(ln) {
        script_lines(r1, ls)
    } else {
        r1
    }
}

/// The Dockerfile names that the readable regular files of the root
/// reference, in order of first reference, given the lower-case names.
pub open spec fn spec_references(
    entries: Seq<(Seq<char>, bool, Option<Seq<char>>)>,
    lns: Seq<Seq<char>>,
) -> Seq<Seq<char>>
    decreases entries.len(),
{
    if entries.len() == 0 {
        seq![]
    } else {
        let prev = spec_references(entries.drop_last(), lns);
        let e = entries.last();
        let i = entries.len() - 1;
        if e.1 && e.2 is Some {
            file_refs(prev, lns[i], e.2->0)
        } else {
            prev
        }
    }
}

/// The lower-case forms of the entries' names.
pub open spec fn name_lowers(entries: Seq<(Seq<char>, bool, Option<Seq<char>>)>) -> Seq<Seq<char>> {
    Seq::new(entries.len(), |i: int| lower(entries[i].0))
}

fn ci_char_eq_exec(c: char, pc: char) -> (r: bool)
    ensures
        r == ci_char_eq(c, pc),
{
    c == pc || ('a' <= pc && pc <= 'z' && (c as u32) + 32 == pc as u32)
}

fn ci_matches_at_exec(t: &Vec<char>, p: &Vec<char>, i: usize) -> (r: bool)
    ensures
        r == ci_matches_at(t@, p@, i as int),
{
    if i > t.len() || p.len() > t.len() - i {
        return false;
    }
    let n = p.len();
    for k in 0..n
        invariant
            n == p@.len(),
            i + n <= t@.len(),
            t.len() == t@.len(),
            forall|q: int| 0 <= q < k ==> ci_char_eq(#[trigger] t@[i + q], p@[q]),
    {
        if !ci_char_eq_exec(t[i + k], p[k]) {
            return false;
        }
    }
    true
}

fn ci_find_exec(t: &Vec<char>, p: &Vec<char>) -> (r: Option<usize>)
    ensures
        match r {
            Some(k) => ci_find_from(t@, p@, 0) == Some(k as int),
            None => ci_find_from(t@, p@, 0) is None,
        },
{
    let mut k: usize = 0;
    while k <= t.len() && p.len() <= t.len() - k
        invariant
            ci_find_from(t@, p@, k as int) == ci_find_from(t@, p@, 0),
        decreases t@.len() + 1 - k,
    {
        if ci_matches_at_exec(t, p, k) {
            return Some(k);
        }
        if k == t.len() {
            assert(ci_find_from(t@, p@, k + 1) is None);
            return None;
        }
        k = k + 1;
    }
    None
}

fn script_prefix_list() -> (r: Vec<Vec<char>>)
    ensures
        r.deep_view() == script_prefixes(),
{
    let mut r: Vec<Vec<char>> = Vec::new();
    r.push(chars_of("docker build -f "));
    r.push(chars_of("buildah bud -f "));
    r.push(chars_of("podman build -f "));
    r.push(chars_of("docker build --file "));
    r.push(chars_of("docker buildx build -f "));
    r.push(chars_of("docker compose build"));
    assert(r.deep_view() =~= script_prefixes());
    r
}

/// One trimmed script line's references added to `refs`.
fn script_line_refs(refs: &mut Vec<Vec<char>>, t: &Vec<char>)
    ensures
        final(refs).deep_view() == script_line_upto(old(refs).deep_view(), t@, 6),
{
    let ps = script_prefix_list();
    let ghost pd = ps.deep_view();
    assert(pd.len() == 6);
    for k in 0..6
        invariant
            pd == ps.deep_view(),
            pd == script_prefixes(),
            ps@.len() == 6,
            refs.deep_view() == script_line_upto(old(refs).deep_view(), t@, k as int),
    {
        let p = &ps[k];
        assert(pd[k as int] == ps@[k as int].deep_view());
        assert(pd[k as int] == p@);
        match ci_find_exec(t, p) {
            None => {},
            Some(pos) => {
                proof {
                    lemma_ci_find_from(t@, p@, 0);
                }
                assert(pos + p@.len() <= t@.len());
                assert(p@.len() == p.len() && t@.len() == t.len());
                let rest = slice_of(t, pos + p.len(), t.len());
                let token = first_word_exec(&rest);
                let base = after_last_exec(&token, '/');
                add_unique_exec(refs, base);
            },
        }
    }
}

/// One compose line added to the scan state.
fn compose_line_exec(
    refs: &mut Vec<Vec<char>>,
    explicit: usize,
    builds: usize,
    line: &Vec<char>,
) -> (r: (usize, usize))
    requires
        explicit < usize::MAX,
        builds < usize::MAX,
    ensures
        ({
            let st = compose_line(
                ComposeScan {
                    refs: old(refs).deep_view(),
                    explicit: explicit as nat,
                    builds: builds as nat,
                },
                line@,
            );
            &&& final(refs).deep_view() == st.refs
            &&& r.0 == st.explicit
            &&& r.1 == st.builds
        }),
{
    let t = trim_exec(line);
    let key = chars_of("dockerfile:");
    let mut e = explicit;
    if crate::text::starts_with_exec(&t, &key) {
        let val = slice_of(&t, key.len(), t.len());
        let v1 = trim_exec(&val);
        let v2 = trim_char_exec(&v1, '"');
        let v3 = trim_char_exec(&v2, '\'');
        let base = after_last_exec(&v3, '/');
        add_unique_exec(refs, base);
        e = e + 1;
    }
    let mut b = builds;
    if begins(&t, "build:") {
        b = b + 1;
    }
    (e, b)
}

/// The names one compose file references, added to `refs`.
fn compose_file_exec(refs: &mut Vec<Vec<char>>, ls: &Vec<Vec<char>>)
    ensures
        final(refs).deep_view() == compose_file(old(refs).deep_view(), ls.deep_view()),
{
    let ghost lsd = ls.deep_view();
    let ghost r0 = refs.deep_view();
    let mut explicit: usize = 0;
    let mut builds: usize = 0;
    let n = ls.len();
    for j in 0..n
        invariant
            n == ls@.len(),
            lsd == ls.deep_view(),
            explicit <= j,
            builds <= j,
            ({
                let st = compose_lines(ComposeScan { refs: r0, explicit: 0, builds: 0 }, lsd.take(j as int));
                &&& refs.deep_view() == st.refs
                &&& explicit == st.explicit
                &&& builds == st.builds
            }),
    {
        assert(lsd.take(j + 1).drop_last() =~= lsd.take(j as int));
        assert(lsd[j as int] == ls@[j as int]@);
        let r = compose_line_exec(refs, explicit, builds, &ls[j]);
        explicit = r.0;
        builds = r.1;
    }
    assert(lsd.take(n as int) =~= lsd);
    if builds > 0 && builds > explicit {
        add_unique_exec(refs, chars_of("Dockerfile"));
    }
}

/// The Dockerfile names that the readable regular files of the root
/// reference: the `dockerfile:` values of compose files (and `Dockerfile`
/// where some `build:` names none), and the word after a `-f` option of a
/// docker, buildah or podman command in scripts, makefiles and justfiles
/// (commands matched without regard to ASCII case); each by its basename,
/// once, in order of first reference.
pub fn scan_compose_dockerfiles(entries: &Vec<RootEntry>) -> (r: Vec<String>)
    ensures
        r.deep_view() == spec_references(entries.deep_view(), name_lowers(entries.deep_view())),
{
    let ghost ed = entries.deep_view();
    let ghost lnd = name_lowers(ed);
    let mut refs: Vec<Vec<char>> = Vec::new();
    let n = entries.len();
    for i in 0..n
        invariant
            n == entries@.len(),
            ed == entries.deep_view(),
            lnd == name_lowers(ed),
            refs.deep_view() == spec_references(ed.take(i as int), lnd),
    {
        let e = &entries[i];
        assert(ed[i as int] == e.deep_view());
        assert(ed.take(i + 1).drop_last() =~= ed.take(i as int));
        if e.is_file {
            match &e.text {
                None => {},
                Some(content) => {
                    let ln = lower_exec(&chars_of(e.name.as_str()));
                    assert(lnd[i as int] == ln@);
                    let text = chars_of(content.as_str());
                    let ls = lines_exec(&text);
                    if finishes(&ln, ".yml") || finishes(&ln, ".yaml") {
                        compose_file_exec(&mut refs, &ls);
                    }
                    if finishes(&ln, ".sh") || begins(&ln, "makefile") || is_text(&ln, "justfile") {
                        let ghost lsd = ls.deep_view();
                        let ghost r1 = refs.deep_view();
                        let m = ls.len();
                        for j in 0..m
                            invariant
                                m == ls@.len(),
                                lsd == ls.deep_view(),
                                refs.deep_view() == script_lines(r1, lsd.take(j as int)),
                        {
                            assert(lsd.take(j + 1).drop_last() =~= lsd.take(j as int));
                            assert(lsd[j as int] == ls@[j as int]@);
                            let t = trim_exec(&ls[j]);
                            script_line_refs(&mut refs, &t);
                        }
                        assert(lsd.take(m as int) =~= lsd);
                    }
                },
            }
        }
    }
    assert(ed.take(n as int) =~= ed);
    strings_of(&refs)
}

// ---------------------------------------------------------------------------
// Assembling the project
// ---------------------------------------------------------------------------

impl DeepView for DockerfileInfo {
    type V = (Seq<Seq<char>>, Seq<char>);

    open spec fn deep_view(&self) -> Self::V {
        (self.lines.deep_view(), self.filename@)
    }
}

impl DeepView for ArtifactDir {
    type V = (Seq<char>, u64);

    open spec fn deep_view(&self) -> Self::V {
        (self.name@, self.size)
    }
}

/// What was read from a project root: whether `package.json` and
/// `Dockerfile` exist (with their text where readable), the root's files in
/// listing order, the sizes of `node_modules/` and `dist/` where they are
/// directories, which lockfiles exist, whether `.dockerignore` exists, the
/// other artifact directories, the source files, and the installed manifests.
pub struct RootListing {
    pub root: String,
    pub package_json: Option<Option<String>>,
    pub dockerfile: Option<Option<String>>,
    pub entries: Vec<RootEntry>,
    pub node_modules_size: Option<u64>,
    pub dist_size: Option<u64>,
    pub package_lock: bool,
    pub yarn_lock: bool,
    pub pnpm_lock: bool,
    pub has_dockerignore: bool,
    pub extra_artifacts: Vec<ArtifactDir>,
    pub source_files: Vec<SourceFile>,
    pub installed_manifests: Vec<(String, String)>,
}

/// The Dockerfile variants among the root's readable regular files, in
/// listing order, each as its lines and name.
pub open spec fn variant_files(
    ed: Seq<(Seq<char>, bool, Option<Seq<char>>)>,
    nl: Seq<Seq<char>>,
) -> Seq<(Seq<Seq<char>>, Seq<char>)>
    decreases ed.len(),
{
    if ed.len() == 0 {
        seq![]
    } else {
        let prev = variant_files(ed.drop_last(), nl);
        let e = ed.last();
        if e.1 && spec_is_dockerfile_variant(e.0, nl[ed.len() - 1]) && e.2 is Some {
            prev.push((lines(e.2->0), e.0))
        } else {
            prev
        }
    }
}

/// Some regular file of the root is a Dockerfile variant.
pub open spec fn any_variant(ed: Seq<(Seq<char>, bool, Option<Seq<char>>)>, nl: Seq<Seq<char>>) -> bool {
    exists|i: int|
        0 <= i < ed.len() && (#[trigger] ed[i]).1 && spec_is_dockerfile_variant(ed[i].0, nl[i])
}

/// `Node` where there is a `package.json`, then `Docker` where there is a
/// Dockerfile of any name.
pub open spec fn spec_project_types(node: bool, docker: bool) -> Seq<ProjectType> {
    (if node {
        seq![ProjectType::Node]
    } else {
        seq![]
    }) + (if docker {
        seq![ProjectType::Docker]
    } else {
        seq![]
    })
}

/// The main Dockerfile: `Dockerfile` where it was read, else the first variant.
pub open spec fn spec_main_dockerfile(
    main: Option<Seq<char>>,
    variants: Seq<(Seq<Seq<char>>, Seq<char>)>,
) -> Option<(Seq<Seq<char>>, Seq<char>)> {
    match main {
        Some(t) => Some((lines(t), "Dockerfile"@)),
        None => if variants.len() > 0 {
            Some(variants[0])
        } else {
            None
        },
    }
}

/// The other Dockerfiles: all variants, or all but the first where that one
/// is the main Dockerfile.
pub open spec fn spec_extra_dockerfiles(
    main: Option<Seq<char>>,
    variants: Seq<(Seq<Seq<char>>, Seq<char>)>,
) -> Seq<(Seq<Seq<char>>, Seq<char>)> {
    match main {
        Some(_) => variants,
        None => if variants.len() > 0 {
            variants.drop_first()
        } else {
            seq![]
        },
    }
}

/// The lockfiles present, in the order package-lock, yarn, pnpm.
pub open spec fn spec_lockfiles(pl: bool, yl: bool, pn: bool) -> Seq<Seq<char>> {
    (if pl {
        seq!["package-lock.json"@]
    } else {
        seq![]
    }) + (if yl {
        seq!["yarn.lock"@]
    } else {
        seq![]
    }) + (if pn {
        seq!["pnpm-lock.yaml"@]
    } else {
        seq![]
    })
}

/// The names of the regular files among the entries.
pub open spec fn regular_file_names(ed: Seq<(Seq<char>, bool, Option<Seq<char>>)>) -> Seq<
    Seq<char>,
>
    decreases ed.len(),
{
    if ed.len() == 0 {
        seq![]
    } else if ed.last().1 {
        regular_file_names(ed.drop_last()).push(ed.last().0)
    } else {
        regular_file_names(ed.drop_last())
    }
}

/// The text where it was read.
pub open spec fn read_text(t: Option<Option<Seq<char>>>) -> Option<Seq<char>> {
    match t {
        Some(Some(x)) => Some(x),
        _ => None,
    }
}

/// A Dockerfile from its text and name.
pub fn dockerfile_from_text(text: &String, name: String) -> (r: DockerfileInfo)
    ensures
        r.deep_view() == (lines(text@), name@),
{
    let chars = chars_of(text.as_str());
    let ls = lines_exec(&chars);
    DockerfileInfo { lines: strings_of(&ls), filename: name }
}

/// The project that a root listing shows: its types, manifests, Dockerfiles,
/// artifacts, lockfiles, source files, import index and the Dockerfile names
/// its files reference.
pub fn scan_project(listing: RootListing) -> (p: ProjectInfo)
    ensures
        ({
            let ed = listing.entries.deep_view();
            let nl = name_lowers(ed);
            {
                &&& p.root@ == listing.root@
                &&& p.project_type@ == spec_project_types(
                    listing.package_json is Some,
                    listing.dockerfile is Some || any_variant(ed, nl),
                )
                &&& p.package_json.deep_view() == match read_text(listing.package_json.deep_view()) {
                    Some(t) => spec_parse_package_json(t),
                    None => None,
                }
                &&& p.dockerfile.deep_view() == spec_main_dockerfile(
                    read_text(listing.dockerfile.deep_view()),
                    variant_files(ed, nl),
                )
                &&& p.extra_dockerfiles.deep_view() == spec_extra_dockerfiles(
                    read_text(listing.dockerfile.deep_view()),
                    variant_files(ed, nl),
                )
                &&& p.compose_referenced.deep_view() == spec_references(ed, nl)
                &&& p.source_files.deep_view() == listing.source_files.deep_view()
                &&& p.has_node_modules == listing.node_modules_size is Some
                &&& p.node_modules_size == match listing.node_modules_size {
                    Some(x) => x,
                    None => 0,
                }
                &&& p.has_dist == listing.dist_size is Some
                &&& p.dist_size == match listing.dist_size {
                    Some(x) => x,
                    None => 0,
                }
                &&& p.lockfiles_found.deep_view() == spec_lockfiles(
                    listing.package_lock,
                    listing.yarn_lock,
                    listing.pnpm_lock,
                )
                &&& p.has_lockfile == (p.lockfiles_found@.len() > 0)
                &&& p.has_lockfile == (listing.package_lock || listing.yarn_lock
                    || listing.pnpm_lock)
                &&& p.has_dockerignore == listing.has_dockerignore
                &&& p.extra_artifacts.deep_view() == listing.extra_artifacts.deep_view()
                &&& p.import_index.deep_view() == spec_build_import_index(
                    listing.source_files.deep_view(),
                )
                &&& p.root_files.deep_view() == regular_file_names(ed)
                &&& p.installed_manifests.deep_view() == listing.installed_manifests.deep_view()
            }
        }),
{
    let ghost ed = listing.entries.deep_view();
    let compose_referenced = scan_compose_dockerfiles(&listing.entries);
    let mut project_type: Vec<ProjectType> = Vec::new();
    let package_json = match &listing.package_json {
        Some(text) => {
            project_type.push(ProjectType::Node);
            match text {
                Some(t) => parse_package_json(t.as_str()),
                None => None,
            }
        },
        None => None,
    };
    let main_text: Option<&String> = match &listing.dockerfile {
        Some(Some(t)) => Some(t),
        _ => None,
    };
    let mut docker = listing.dockerfile.is_some();
    let mut variants: Vec<DockerfileInfo> = Vec::new();
    let mut root_files: Vec<String> = Vec::new();
    let n = listing.entries.len();
    for i in 0..n
        invariant
            n == listing.entries@.len(),
            ed == listing.entries.deep_view(),
            variants.deep_view() == variant_files(ed.take(i as int), name_lowers(ed)),
            root_files.deep_view() == regular_file_names(ed.take(i as int)),
            docker == (listing.dockerfile is Some || exists|k: int|
                0 <= k < i && (#[trigger] ed[k]).1 && spec_is_dockerfile_variant(
                    ed[k].0,
                    name_lowers(ed)[k],
                )),
    {
        let e = &listing.entries[i];
        assert(ed[i as int] == e.deep_view());
        assert(ed.take(i + 1).drop_last() =~= ed.take(i as int));
        assert(ed.take(i + 1).last() == ed[i as int]);
        let name = chars_of(e.name.as_str());
        let ln = lower_exec(&name);
        assert(name_lowers(ed)[i as int] == ln@);
        if e.is_file {
            crate::push_deep(&mut root_files, e.name.clone());
            if is_dockerfile_variant(&name, &ln) {
                docker = true;
                match &e.text {
                    Some(t) => {
                        let df = dockerfile_from_text(t, e.name.clone());
                        crate::push_deep(&mut variants, df);
                    },
                    None => {},
                }
            }
        }
        proof {
            assert(variant_files(ed.take(i + 1), name_lowers(ed)) == if ed[i as int].1
                && spec_is_dockerfile_variant(ed[i as int].0, name_lowers(ed)[i as int])
                && ed[i as int].2 is Some {
                variant_files(ed.take(i as int), name_lowers(ed)).push(
                    (lines(ed[i as int].2->0), ed[i as int].0),
                )
            } else {
                variant_files(ed.take(i as int), name_lowers(ed))
            });
        }
    }
    assert(ed.take(n as int) =~= ed);
    if docker {
        project_type.push(ProjectType::Docker);
    }
    assert(project_type@ =~= spec_project_types(
        listing.package_json is Some,
        listing.dockerfile is Some || any_variant(ed, name_lowers(ed)),
    ));
    let ghost vd = variants.deep_view();
    let dockerfile: Option<DockerfileInfo>;
    let extra_dockerfiles: Vec<DockerfileInfo>;
    match main_text {
        Some(t) => {
            dockerfile = Some(dockerfile_from_text(t, String::from_str("Dockerfile")));
            extra_dockerfiles = variants;
        },
        None => {
            if variants.len() > 0 {
                let first = variants.remove(0);
                assert(first.deep_view() == vd[0]);
                assert(variants.deep_view() =~= vd.drop_first());
                dockerfile = Some(first);
                extra_dockerfiles = variants;
            } else {
                dockerfile = None;
                extra_dockerfiles = variants;
                assert(extra_dockerfiles.deep_view() =~= Seq::<(Seq<Seq<char>>, Seq<char>)>::empty());
            }
        },
    }
    let mut lockfiles_found: Vec<String> = Vec::new();
    if listing.package_lock {
        lockfiles_found.push(String::from_str("package-lock.json"));
    }
    if listing.yarn_lock {
        lockfiles_found.push(String::from_str("yarn.lock"));
    }
    if listing.pnpm_lock {
        lockfiles_found.push(String::from_str("pnpm-lock.yaml"));
    }
    assert(lockfiles_found.deep_view() =~= spec_lockfiles(
        listing.package_lock,
        listing.yarn_lock,
        listing.pnpm_lock,
    ));
    let has_lockfile = lockfiles_found.len() > 0;
    let import_index = build_import_index(&listing.source_files);
    let (has_node_modules, node_modules_size) = match listing.node_modules_size {
        Some(x) => (true, x),
        None => (false, 0),
    };
    let (has_dist, dist_size) = match listing.dist_size {
        Some(x) => (true, x),
        None => (false, 0),
    };
    ProjectInfo {
        root: listing.root,
        project_type,
        package_json,
        dockerfile,
        extra_dockerfiles,
        compose_referenced,
        source_files: listing.source_files,
        has_node_modules,
        node_modules_size,
        has_dist,
        dist_size,
        has_lockfile,
        has_dockerignore: listing.has_dockerignore,
        extra_artifacts: listing.extra_artifacts,
        lockfiles_found,
        import_index,
        root_files,
        installed_manifests: listing.installed_manifests,
    }
}

// ---------------------------------------------------------------------------
// What the directory walk keeps
// ---------------------------------------------------------------------------

/// Build-output directories looked for in the root, besides `dist/`.
pub open spec fn spec_artifact_dirs() -> Seq<Seq<char>> {
    seq![
        ".next"@,
        ".nuxt"@,
        "build"@,
        "out"@,
        "coverage"@,
        ".parcel-cache"@,
        "storybook-static"@,
        ".turbo"@,
    ]
}

/// The build-output directories looked for in the root, in order.
pub fn artifact_dir_names() -> (r: Vec<String>)
    ensures
        r.deep_view() == spec_artifact_dirs(),
{
    let mut r: Vec<String> = Vec::new();
    r.push(String::from_str(".next"));
    r.push(String::from_str(".nuxt"));
    r.push(String::from_str("build"));
    r.push(String::from_str("out"));
    r.push(String::from_str("coverage"));
    r.push(String::from_str(".parcel-cache"));
    r.push(String::from_str("storybook-static"));
    r.push(String::from_str(".turbo"));
    assert(r.deep_view() =~= spec_artifact_dirs());
    r
}

/// Directories the source scan does not enter.
pub open spec fn spec_skip_dirs() -> Seq<Seq<char>> {
    seq!["node_modules"@, "dist"@, ".git"@, "build"@, "coverage"@, ".next"@, ".nuxt"@]
}

/// Whether the source scan skips a directory of this name.
pub fn is_skipped_dir(name: &str) -> (r: bool)
    ensures
        r == spec_skip_dirs().contains(name@),
{
    let v = chars_of(name);
    let r = is_text(&v, "node_modules") || is_text(&v, "dist") || is_text(&v, ".git") || is_text(
        &v,
        "build",
    ) || is_text(&v, "coverage") || is_text(&v, ".next") || is_text(&v, ".nuxt");
    proof {
        let sd = spec_skip_dirs();
        if r {
            if v@ == "node_modules"@ {
                assert(sd[0] == v@);
            } else if v@ == "dist"@ {
                assert(sd[1] == v@);
            } else if v@ == ".git"@ {
                assert(sd[2] == v@);
            } else if v@ == "build"@ {
                assert(sd[3] == v@);
            } else if v@ == "coverage"@ {
                assert(sd[4] == v@);
            } else if v@ == ".next"@ {
                assert(sd[5] == v@);
            } else {
                assert(sd[6] == v@);
            }
        } else {
            if sd.contains(v@) {
                let k = choose|k: int| 0 <= k < sd.len() && sd[k] == v@;
                assert(k == 0 || k == 1 || k == 2 || k == 3 || k == 4 || k == 5 || k == 6);
            }
        }
    }
    r
}

/// `Path::extension` of a file name: what follows its last `.`, where that
/// dot is not the name's first character and the name is not `..`.
pub open spec fn spec_file_extension(name: Seq<char>) -> Option<Seq<char>> {
    let k = crate::text::after_last_from(name, '.', name.len() as int);
    if name == ".."@ || k <= 1 {
        None
    } else {
        Some(name.subrange(k, name.len() as int))
    }
}

/// Source-file extensions the scan reads.
pub open spec fn spec_source_extensions() -> Seq<Seq<char>> {
    seq!["js"@, "ts"@, "jsx"@, "tsx"@, "mjs"@, "cjs"@]
}

/// The largest source file the scan reads, in bytes.
pub open spec fn max_source_size() -> nat {
    524288
}

/// Whether the source scan reads a file of this name and size: a
/// JavaScript/TypeScript extension and at most 512 KiB.
pub fn is_source_file(name: &str, size: u64) -> (r: bool)
    ensures
        r == (match spec_file_extension(name@) {
            Some(e) => spec_source_extensions().contains(e),
            None => false,
        } && size <= max_source_size()),
{
    let v = chars_of(name);
    let mut k = v.len();
    while k > 0 && v[k - 1] != '.'
        invariant
            k <= v@.len(),
            crate::text::after_last_from(v@, '.', k as int) == crate::text::after_last_from(
                v@,
                '.',
                v@.len() as int,
            ),
        decreases k,
    {
        k = k - 1;
    }
    if is_text(&v, "..") || k <= 1 {
        return false;
    }
    let e = slice_of(&v, k, v.len());
    let ok = is_text(&e, "js") || is_text(&e, "ts") || is_text(&e, "jsx") || is_text(&e, "tsx")
        || is_text(&e, "mjs") || is_text(&e, "cjs");
    proof {
        let se = spec_source_extensions();
        if ok {
            if e@ == "js"@ {
                assert(se[0] == e@);
            } else if e@ == "ts"@ {
                assert(se[1] == e@);
            } else if e@ == "jsx"@ {
                assert(se[2] == e@);
            } else if e@ == "tsx"@ {
                assert(se[3] == e@);
            } else if e@ == "mjs"@ {
                assert(se[4] == e@);
            } else {
                assert(se[5] == e@);
            }
        } else {
            if se.contains(e@) {
                let q = choose|q: int| 0 <= q < se.len() && se[q] == e@;
                assert(q == 0 || q == 1 || q == 2 || q == 3 || q == 4 || q == 5);
            }
        }
    }
    ok && size <= 524288
}


// ---------------------------------------------------------------------------
// Laws
// ---------------------------------------------------------------------------

/// No name occurs twice, and none is empty.
pub open spec fn distinct_nonempty(s: Seq<Seq<char>>) -> bool {
    &&& forall|i: int, j: int| 0 <= i < j < s.len() ==> #[trigger] s[i] != #[trigger] s[j]
    &&& forall|i: int| 0 <= i < s.len() ==> (#[trigger] s[i]).len() > 0
}

proof fn lemma_add_unique_keeps(refs: Seq<Seq<char>>, x: Seq<char>)
    requires
        distinct_nonempty(refs),
    ensures
        distinct_nonempty(add_unique(refs, x)),
{
    if x.len() > 0 && !refs.contains(x) {
        let r = refs.push(x);
        assert forall|i: int, j: int| 0 <= i < j < r.len() implies #[trigger] r[i] != #[trigger] r[j] by {
            if j == refs.len() {
                assert(r[i] == refs[i]);
            } else {
                assert(r[i] == refs[i] && r[j] == refs[j]);
            }
        }
        assert forall|i: int| 0 <= i < r.len() implies (#[trigger] r[i]).len() > 0 by {
            if i < refs.len() {
                assert(r[i] == refs[i]);
            }
        }
    }
}

proof fn lemma_compose_lines_keep(st: ComposeScan, ls: Seq<Seq<char>>)
    requires
        distinct_nonempty(st.refs),
    ensures
        distinct_nonempty(compose_lines(st, ls).refs),
    decreases ls.len(),
{
    if ls.len() > 0 {
        lemma_compose_lines_keep(st, ls.drop_last());
        let prev = compose_lines(st, ls.drop_last());
        let t = trim(ls.last());
        lemma_add_unique_keeps(
            prev.refs,
            dockerfile_value_name(t.subrange("dockerfile:"@.len() as int, t.len() as int)),
        );
    }
}

proof fn lemma_script_line_keeps(refs: Seq<Seq<char>>, t: Seq<char>, k: int)
    requires
        distinct_nonempty(refs),
    ensures
        distinct_nonempty(script_line_upto(refs, t, k)),
    decreases k,
{
    if k > 0 {
        lemma_script_line_keeps(refs, t, k - 1);
        let prev = script_line_upto(refs, t, k - 1);
        match prefix_rest(t, script_prefixes()[k - 1]) {
            Some(rest) => lemma_add_unique_keeps(prev, after_last(first_word(rest), '/')),
            None => {},
        }
    }
}

proof fn lemma_script_lines_keep(refs: Seq<Seq<char>>, ls: Seq<Seq<char>>)
    requires
        distinct_nonempty(refs),
    ensures
        distinct_nonempty(script_lines(refs, ls)),
    decreases ls.len(),
{
    if ls.len() > 0 {
        lemma_script_lines_keep(refs, ls.drop_last());
        lemma_script_line_keeps(script_lines(refs, ls.drop_last()), trim(ls.last()), 6);
    }
}

/// The Dockerfile names that config files reference are listed once each,
/// and none is empty.
pub proof fn law_references_distinct(
    entries: Seq<(Seq<char>, bool, Option<Seq<char>>)>,
    lns: Seq<Seq<char>>,
)
    ensures
        distinct_nonempty(spec_references(entries, lns)),
    decreases entries.len(),
{
    if entries.len() > 0 {
        law_references_distinct(entries.drop_last(), lns);
        let prev = spec_references(entries.drop_last(), lns);
        let e = entries.last();
        let i = entries.len() - 1;
        if e.1 && e.2 is Some {
            let ls = lines(e.2->0);
            let st = compose_lines(ComposeScan { refs: prev, explicit: 0, builds: 0 }, ls);
            lemma_compose_lines_keep(ComposeScan { refs: prev, explicit: 0, builds: 0 }, ls);
            lemma_add_unique_keeps(st.refs, "Dockerfile"@);
            let r1 = if is_compose_name(lns[i]) {
                compose_file(prev, ls)
            } else {
                prev
            };
            lemma_script_lines_keep(r1, ls);
        }
    }
}

/// `path` is listed in the index under `pkg`.
pub open spec fn indexed(idx: Seq<(Seq<char>, Seq<Seq<char>>)>, pkg: Seq<char>, path: Seq<char>) -> bool {
    exists|k: int| 0 <= k < idx.len() && (#[trigger] idx[k]).0 == pkg && idx[k].1.contains(path)
}

/// No package is a key twice.
pub open spec fn keys_distinct(idx: Seq<(Seq<char>, Seq<Seq<char>>)>) -> bool {
    forall|i: int, j: int| 0 <= i < j < idx.len() ==> (#[trigger] idx[i]).0 != (#[trigger] idx[j]).0
}

proof fn lemma_index_add(idx: Seq<(Seq<char>, Seq<Seq<char>>)>, pkg: Seq<char>, path: Seq<char>)
    requires
        keys_distinct(idx),
    ensures
        keys_distinct(index_add(idx, pkg, path)),
        forall|q: Seq<char>, r: Seq<char>|
            #[trigger] indexed(index_add(idx, pkg, path), q, r) <==> (indexed(idx, q, r) || (q
                == pkg && r == path)),
{
    lemma_key_position(idx, pkg, 0);
    let k = key_position(idx, pkg, 0);
    let n = index_add(idx, pkg, path);
    if k < idx.len() {
        assert(n == idx.update(k, (pkg, idx[k].1.push(path))));
        assert forall|i: int, j: int| 0 <= i < j < n.len() implies (#[trigger] n[i]).0 != (
        #[trigger] n[j]).0 by {
            assert(n[i].0 == idx[i].0 && n[j].0 == idx[j].0);
        }
        assert forall|q: Seq<char>, r: Seq<char>| #[trigger] indexed(n, q, r) <==> (indexed(
            idx,
            q,
            r,
        ) || (q == pkg && r == path)) by {
            if indexed(n, q, r) {
                let m = choose|m: int| 0 <= m < n.len() && (#[trigger] n[m]).0 == q && n[m].1.contains(r);
                if m != k {
                    assert(n[m] == idx[m]);
                } else if r != path {
                    let w = choose|w: int| 0 <= w < n[m].1.len() && n[m].1[w] == r;
                    assert(idx[k].1[w] == r);
                    assert(idx[k].0 == q);
                }
            }
            if indexed(idx, q, r) {
                let m = choose|m: int| 0 <= m < idx.len() && (#[trigger] idx[m]).0 == q && idx[m].1.contains(r);
                if m != k {
                    assert(n[m] == idx[m]);
                } else {
                    let w = choose|w: int| 0 <= w < idx[m].1.len() && idx[m].1[w] == r;
                    assert(n[k].1[w] == r);
                    assert(n[k].0 == q);
                }
            }
            if q == pkg && r == path {
                assert(n[k].1[idx[k].1.len() as int] == path);
                assert(n[k].0 == pkg);
            }
        }
    } else {
        assert(n == idx.push((pkg, seq![path])));
        assert forall|i: int, j: int| 0 <= i < j < n.len() implies (#[trigger] n[i]).0 != (
        #[trigger] n[j]).0 by {
            if j < idx.len() {
                assert(n[i] == idx[i] && n[j] == idx[j]);
            } else {
                assert(n[i] == idx[i]);
            }
        }
        assert forall|q: Seq<char>, r: Seq<char>| #[trigger] indexed(n, q, r) <==> (indexed(
            idx,
            q,
            r,
        ) || (q == pkg && r == path)) by {
            if indexed(n, q, r) {
                let m = choose|m: int| 0 <= m < n.len() && (#[trigger] n[m]).0 == q && n[m].1.contains(r);
                if m < idx.len() {
                    assert(n[m] == idx[m]);
                } else {
                    let w = choose|w: int| 0 <= w < n[m].1.len() && n[m].1[w] == r;
                    assert(n[m].1 == seq![path]);
                }
            }
            if indexed(idx, q, r) {
                let m = choose|m: int| 0 <= m < idx.len() && (#[trigger] idx[m]).0 == q && idx[m].1.contains(r);
                assert(n[m] == idx[m]);
            }
            if q == pkg && r == path {
                let m = idx.len() as int;
                assert(n[m].1[0] == path);
                assert(n[m].0 == pkg);
            }
        }
    }
}

proof fn lemma_index_add_all(idx: Seq<(Seq<char>, Seq<Seq<char>>)>, pkgs: Seq<Seq<char>>, path: Seq<char>)
    requires
        keys_distinct(idx),
    ensures
        keys_distinct(index_add_all(idx, pkgs, path)),
        forall|q: Seq<char>, r: Seq<char>|
            #[trigger] indexed(index_add_all(idx, pkgs, path), q, r) <==> (indexed(idx, q, r) || (
            pkgs.contains(q) && r == path)),
    decreases pkgs.len(),
{
    if pkgs.len() > 0 {
        let d = pkgs.drop_last();
        lemma_index_add_all(idx, d, path);
        let mid = index_add_all(idx, d, path);
        lemma_index_add(mid, pkgs.last(), path);
        assert forall|q: Seq<char>, r: Seq<char>| #[trigger] indexed(
            index_add_all(idx, pkgs, path),
            q,
            r,
        ) <==> (indexed(idx, q, r) || (pkgs.contains(q) && r == path)) by {
            assert(indexed(mid, q, r) <==> (indexed(idx, q, r) || (d.contains(q) && r == path)));
            if d.contains(q) {
                let w = choose|w: int| 0 <= w < d.len() && d[w] == q;
                assert(pkgs[w] == q);
            }
            if pkgs.contains(q) && q != pkgs.last() {
                let w = choose|w: int| 0 <= w < pkgs.len() && pkgs[w] == q;
                assert(d[w] == q);
            }
            if q == pkgs.last() {
                assert(pkgs[pkgs.len() - 1] == q);
            }
        }
    }
}

/// The import index records exactly which source file imports which
/// package: each package is a key once, and a path is listed under a
/// package exactly where a source file with that path imports it.
pub proof fn law_import_index_exact(files: Seq<(Seq<char>, Seq<char>)>)
    ensures
        keys_distinct(spec_build_import_index(files)),
        forall|q: Seq<char>, r: Seq<char>|
            #[trigger] indexed(spec_build_import_index(files), q, r) <==> exists|i: int|
                0 <= i < files.len() && (#[trigger] files[i]).0 == r && file_packages(
                    files[i].1,
                ).contains(q),
    decreases files.len(),
{
    if files.len() > 0 {
        let d = files.drop_last();
        law_import_index_exact(d);
        let prev = spec_build_import_index(d);
        let last = files.last();
        lemma_index_add_all(prev, file_packages(last.1), last.0);
        assert forall|q: Seq<char>, r: Seq<char>| #[trigger] indexed(
            spec_build_import_index(files),
            q,
            r,
        ) <==> exists|i: int|
            0 <= i < files.len() && (#[trigger] files[i]).0 == r && file_packages(
                files[i].1,
            ).contains(q) by {
            if indexed(prev, q, r) {
                let i = choose|i: int|
                    0 <= i < d.len() && (#[trigger] d[i]).0 == r && file_packages(d[i].1).contains(q);
                assert(files[i] == d[i]);
            }
            if file_packages(last.1).contains(q) && r == last.0 {
                assert(files[files.len() - 1] == last);
            }
            if exists|i: int|
                0 <= i < files.len() && (#[trigger] files[i]).0 == r && file_packages(
                    files[i].1,
                ).contains(q) {
                let i = choose|i: int|
                    0 <= i < files.len() && (#[trigger] files[i]).0 == r && file_packages(
                        files[i].1,
                    ).contains(q);
                if i < d.len() {
                    assert(d[i] == files[i]);
                }
            }
        }
    }
}

proof fn lemma_package_fold(raws: Seq<Seq<char>>)
    ensures
        distinct_nonempty(package_fold(raws)),
    decreases raws.len(),
{
    if raws.len() > 0 {
        lemma_package_fold(raws.drop_last());
        lemma_add_unique_keeps(
            package_fold(raws.drop_last()),
            spec_normalize_package_name(raws.last()),
        );
    }
}

/// The packages a source file imports are listed once each, and none is
/// empty (relative and absolute paths name no package).
pub proof fn law_file_packages_distinct(content: Seq<char>)
    ensures
        distinct_nonempty(file_packages(content)),
{
    lemma_package_fold(raw_imports(lines(content)));
}

/// Where no file of the root is a compose file, a shell script, a makefile
/// or a justfile, nothing references a Dockerfile.
pub proof fn law_no_config_files_no_references(
    entries: Seq<(Seq<char>, bool, Option<Seq<char>>)>,
    lns: Seq<Seq<char>>,
)
    requires
        forall|i: int|
            0 <= i < entries.len() ==> !is_compose_name(#[trigger] lns[i]) && !is_script_name(lns[i]),
    ensures
        spec_references(entries, lns) == Seq::<Seq<char>>::empty(),
    decreases entries.len(),
{
    if entries.len() > 0 {
        let i = entries.len() - 1;
        assert(!is_compose_name(lns[i]) && !is_script_name(lns[i]));
        law_no_config_files_no_references(entries.drop_last(), lns);
    }
}

proof fn lemma_next_char_at(s: Seq<char>, c: char, i: int, k: int)
    requires
        0 <= i <= k <= s.len(),
        forall|j: int| i <= j < k ==> s[j] != c,
        k == s.len() || s[k] == c,
    ensures
        next_char(s, c, i) == k,
    decreases k - i,
{
    if i < k {
        lemma_next_char_at(s, c, i + 1, k);
    }
}

/// A package name names itself: normalizing it again changes nothing; and
/// it is empty exactly for an empty, relative or absolute path.
pub proof fn law_package_name_normal(raw: Seq<char>)
    ensures
        spec_normalize_package_name(spec_normalize_package_name(raw)) == spec_normalize_package_name(raw),
        spec_normalize_package_name(raw).len() == 0 <==> (raw.len() == 0 || raw[0] == '.' || raw[0]
            == '/'),
{
    let n = spec_normalize_package_name(raw);
    if raw.len() > 0 && (raw[0] == '.' || raw[0] == '/') {
        assert(n.len() == 0);
        assert(spec_normalize_package_name(n) =~= n);
    } else if raw.len() > 0 && raw[0] == '@' {
        lemma_next_char_bounds(raw, '/', 0);
        let i = next_char(raw, '/', 0);
        if i >= raw.len() {
            assert(n == raw);
            lemma_next_char_bounds(n, '/', 0);
        } else {
            lemma_next_char_bounds(raw, '/', i + 1);
            let j = next_char(raw, '/', i + 1);
            assert(n == raw.subrange(0, i) + seq!['/'] + raw.subrange(i + 1, j));
            assert(i > 0);
            assert(n.len() == j);
            assert(n[0] == '@');
            assert forall|q: int| 0 <= q < i implies n[q] != '/' by {
                assert(n[q] == raw[q]);
            }
            assert(n[i] == '/');
            lemma_next_char_at(n, '/', 0, i);
            assert forall|q: int| i + 1 <= q < n.len() implies n[q] != '/' by {
                assert(n[q] == raw[q]);
            }
            lemma_next_char_at(n, '/', i + 1, n.len() as int);
            assert(n.subrange(0, i) + seq!['/'] + n.subrange(i + 1, n.len() as int) =~= n);
        }
    } else {
        lemma_next_char_bounds(raw, '/', 0);
        let k = next_char(raw, '/', 0);
        assert(n == raw.subrange(0, k));
        if raw.len() > 0 {
            assert(k > 0);
            assert(n[0] == raw[0]);
        }
        assert forall|q: int| 0 <= q < n.len() implies n[q] != '/' by {
            assert(n[q] == raw[q]);
        }
        lemma_next_char_at(n, '/', 0, n.len() as int);
        assert(n.subrange(0, n.len() as int) =~= n);
    }
}

/// The lockfiles found are exactly those present, each named once: the list
/// holds `package-lock.json`, `yarn.lock`, `pnpm-lock.yaml` exactly where
/// that file exists, nothing else, and is empty exactly where none exists.
pub proof fn law_lockfiles_found(pl: bool, yl: bool, pn: bool)
    ensures
        spec_lockfiles(pl, yl, pn).contains("package-lock.json"@) <==> pl,
        spec_lockfiles(pl, yl, pn).contains("yarn.lock"@) <==> yl,
        spec_lockfiles(pl, yl, pn).contains("pnpm-lock.yaml"@) <==> pn,
        forall|x: Seq<char>|
            #[trigger] spec_lockfiles(pl, yl, pn).contains(x) ==> x == "package-lock.json"@ || x
                == "yarn.lock"@ || x == "pnpm-lock.yaml"@,
        spec_lockfiles(pl, yl, pn).no_duplicates(),
        (spec_lockfiles(pl, yl, pn).len() > 0) == (pl || yl || pn),
{
    reveal_strlit("package-lock.json");
    reveal_strlit("yarn.lock");
    reveal_strlit("pnpm-lock.yaml");
    let a = "package-lock.json"@;
    let b = "yarn.lock"@;
    let c = "pnpm-lock.yaml"@;
    assert(a.len() == 17 && b.len() == 9 && c.len() == 14);
    let l = spec_lockfiles(pl, yl, pn);
    let sa: Seq<Seq<char>> = if pl { seq![a] } else { seq![] };
    let sb: Seq<Seq<char>> = if yl { seq![b] } else { seq![] };
    let sc: Seq<Seq<char>> = if pn { seq![c] } else { seq![] };
    assert(l == sa + sb + sc);
    assert forall|x: Seq<char>| #[trigger] l.contains(x) implies x == a || x == b || x == c by {
        let i = choose|i: int| 0 <= i < l.len() && l[i] == x;
        if i < sa.len() {
            assert(l[i] == sa[i]);
        } else if i < sa.len() + sb.len() {
            assert(l[i] == sb[i - sa.len()]);
        } else {
            assert(l[i] == sc[i - sa.len() - sb.len()]);
        }
    }
    if pl {
        assert(l[0] == a);
    }
    if yl {
        assert(l[sa.len() as int] == b);
    }
    if pn {
        assert(l[(sa.len() + sb.len()) as int] == c);
    }
    assert(l.contains(a) ==> pl) by {
        if l.contains(a) {
            let i = choose|i: int| 0 <= i < l.len() && l[i] == a;
            if i < sa.len() {
            } else if i < sa.len() + sb.len() {
                assert(l[i] == b);
            } else {
                assert(l[i] == c);
            }
        }
    }
    assert(l.contains(b) ==> yl) by {
        if l.contains(b) {
            let i = choose|i: int| 0 <= i < l.len() && l[i] == b;
            if i < sa.len() {
                assert(l[i] == a);
            } else if i < sa.len() + sb.len() {
            } else {
                assert(l[i] == c);
            }
        }
    }
    assert(l.contains(c) ==> pn) by {
        if l.contains(c) {
            let i = choose|i: int| 0 <= i < l.len() && l[i] == c;
            if i < sa.len() {
                assert(l[i] == a);
            } else if i < sa.len() + sb.len() {
                assert(l[i] == b);
            } else {
            }
        }
    }
    assert forall|i: int, j: int| 0 <= i < l.len() && 0 <= j < l.len() && i != j implies l[i]
        != l[j] by {
        let vi = if i < sa.len() { a } else if i < sa.len() + sb.len() { b } else { c };
        let vj = if j < sa.len() { a } else if j < sa.len() + sb.len() { b } else { c };
        if i < sa.len() {
            assert(l[i] == sa[i]);
        } else if i < sa.len() + sb.len() {
            assert(l[i] == sb[i - sa.len()]);
        } else {
            assert(l[i] == sc[i - sa.len() - sb.len()]);
        }
        if j < sa.len() {
            assert(l[j] == sa[j]);
        } else if j < sa.len() + sb.len() {
            assert(l[j] == sb[j - sa.len()]);
        } else {
            assert(l[j] == sc[j - sa.len() - sb.len()]);
        }
        assert(l[i] == vi && l[j] == vj);
    }
}

proof fn lemma_contains_in_concat<A>(a: Seq<A>, b: Seq<A>, x: A)
    ensures
        a.contains(x) ==> (a + b).contains(x),
        b.contains(x) ==> (a + b).contains(x),
{
    if a.contains(x) {
        let i = choose|i: int| 0 <= i < a.len() && a[i] == x;
        assert((a + b)[i] == x);
    }
    if b.contains(x) {
        let i = choose|i: int| 0 <= i < b.len() && b[i] == x;
        assert((a + b)[a.len() + i] == x);
    }
}

proof fn lemma_marker_path(m: Seq<char>, q: char, p: Seq<char>)
    requires
        m.len() > 0,
        p.len() > 0,
        !p.contains(q),
    ensures
        marker_paths(m + p + seq![q], m, q, 0).contains(p),
{
    let line = m + p + seq![q];
    assert(line.subrange(0, m.len() as int) =~= m);
    assert(crate::text::matches_at(line, m, 0));
    assert(find_from(line, m, 0) == Some(0int));
    let a = m.len() as int;
    let e = a + p.len();
    assert forall|j: int| a <= j < e implies line[j] != q by {
        assert(line[j] == p[j - a]);
    }
    assert(line[e] == q);
    lemma_next_char_at(line, q, a, e);
    assert(line.subrange(a, e) =~= p);
    let r = marker_paths(line, m, q, 0);
    assert(r == seq![p] + marker_paths(line, m, q, e + 1));
    assert(r[0] == p);
}

/// Every quoted module path after `require(`, `from` or `import` is read: a
/// line that is a marker, a non-empty path without the closing quote, and
/// that quote yields that path, for each of the six markers.
pub proof fn law_quoted_imports_found(p: Seq<char>)
    requires
        p.len() > 0,
    ensures
        !p.contains('\'') ==> spec_extract_import_paths("require('"@ + p + "'"@).contains(p),
        !p.contains('"') ==> spec_extract_import_paths("require(\""@ + p + "\""@).contains(p),
        !p.contains('\'') ==> spec_extract_import_paths("from '"@ + p + "'"@).contains(p),
        !p.contains('"') ==> spec_extract_import_paths("from \""@ + p + "\""@).contains(p),
        !p.contains('\'') ==> spec_extract_import_paths("import '"@ + p + "'"@).contains(p),
        !p.contains('"') ==> spec_extract_import_paths("import \""@ + p + "\""@).contains(p),
{
    reveal_strlit("require('");
    reveal_strlit("require(\"");
    reveal_strlit("from '");
    reveal_strlit("from \"");
    reveal_strlit("import '");
    reveal_strlit("import \"");
    reveal_strlit("'");
    reveal_strlit("\"");
    assert("'"@ =~= seq!['\'']);
    assert("\""@ =~= seq!['"']);
    let ms = seq!["require('"@, "require(\""@, "from '"@, "from \""@, "import '"@, "import \""@];
    let qs = seq!['\'', '"', '\'', '"', '\'', '"'];
    assert forall|k: int| 0 <= k < 6 && !p.contains(qs[k]) implies spec_extract_import_paths(
        ms[k] + p + seq![qs[k]],
    ).contains(p) by {
        let line = ms[k] + p + seq![qs[k]];
        lemma_marker_path(ms[k], qs[k], p);
        let m0 = marker_paths(line, "require('"@, '\'', 0);
        let m1 = marker_paths(line, "require(\""@, '"', 0);
        let m2 = marker_paths(line, "from '"@, '\'', 0);
        let m3 = marker_paths(line, "from \""@, '"', 0);
        let m4 = marker_paths(line, "import '"@, '\'', 0);
        let m5 = marker_paths(line, "import \""@, '"', 0);
        lemma_contains_in_concat(m0, m1, p);
        lemma_contains_in_concat(m0 + m1, m2, p);
        lemma_contains_in_concat(m0 + m1 + m2, m3, p);
        lemma_contains_in_concat(m0 + m1 + m2 + m3, m4, p);
        lemma_contains_in_concat(m0 + m1 + m2 + m3 + m4, m5, p);
    }
    assert(ms[0] + p + seq![qs[0]] == "require('"@ + p + "'"@);
    assert(ms[1] + p + seq![qs[1]] == "require(\""@ + p + "\""@);
    assert(ms[2] + p + seq![qs[2]] == "from '"@ + p + "'"@);
    assert(ms[3] + p + seq![qs[3]] == "from \""@ + p + "\""@);
    assert(ms[4] + p + seq![qs[4]] == "import '"@ + p + "'"@);
    assert(ms[5] + p + seq![qs[5]] == "import \""@ + p + "\""@);
}

proof fn lemma_skip_ws_to(x: Seq<char>, i: int, k: int)
    requires
        0 <= i <= k <= x.len(),
        forall|q: int| i <= q < k ==> crate::text::is_ws(#[trigger] x[q]),
        k == x.len() || !crate::text::is_ws(x[k]),
    ensures
        crate::text::skip_ws(x, i) == k,
    decreases k - i,
{
    if i < k {
        lemma_skip_ws_to(x, i + 1, k);
    }
}

proof fn lemma_next_ws_to(x: Seq<char>, i: int, k: int)
    requires
        0 <= i <= k <= x.len(),
        forall|q: int| i <= q < k ==> !crate::text::is_ws(#[trigger] x[q]),
        k == x.len() || crate::text::is_ws(x[k]),
    ensures
        crate::text::next_ws(x, i) == k,
    decreases k - i,
{
    if i < k {
        lemma_next_ws_to(x, i + 1, k);
    }
}

proof fn lemma_after_last_none(w: Seq<char>, c: char, j: int)
    requires
        0 <= j <= w.len(),
        forall|q: int| 0 <= q < w.len() ==> #[trigger] w[q] != c,
    ensures
        crate::text::after_last_from(w, c, j) == 0,
    decreases j,
{
    if j > 0 {
        lemma_after_last_none(w, c, j - 1);
    }
}

/// A word with no whitespace and no `/`.
pub open spec fn plain_word(w: Seq<char>) -> bool {
    &&& w.len() > 0
    &&& forall|q: int| 0 <= q < w.len() ==> !crate::text::is_ws(#[trigger] w[q]) && w[q] != '/'
}

proof fn lemma_prefix_word(p: Seq<char>, sp: Seq<char>, w: Seq<char>, tail: Seq<char>)
    requires
        forall|q: int| 0 <= q < sp.len() ==> crate::text::is_ws(#[trigger] sp[q]),
        plain_word(w),
        tail.len() == 0 || crate::text::is_ws(tail[0]),
    ensures
        prefix_rest(p + sp + w + tail, p) == Some(sp + w + tail),
        after_last(first_word(sp + w + tail), '/') == w,
{
    let t = p + sp + w + tail;
    assert(ci_matches_at(t, p, 0)) by {
        assert forall|k: int| 0 <= k < p.len() implies ci_char_eq(#[trigger] t[0 + k], p[k]) by {
            assert(t[k] == p[k]);
        }
    }
    assert(ci_find_from(t, p, 0) == Some(0int));
    assert(t.subrange(p.len() as int, t.len() as int) =~= sp + w + tail);
    let x = sp + w + tail;
    assert forall|q: int| 0 <= q < sp.len() implies crate::text::is_ws(#[trigger] x[q]) by {
        assert(x[q] == sp[q]);
    }
    assert(x[sp.len() as int] == w[0]);
    lemma_skip_ws_to(x, 0, sp.len() as int);
    let y = crate::text::trim_start(x);
    assert(y =~= w + tail);
    assert forall|q: int| 0 <= q < w.len() implies !crate::text::is_ws(#[trigger] y[q]) by {
        assert(y[q] == w[q]);
    }
    if tail.len() > 0 {
        assert(y[w.len() as int] == tail[0]);
    }
    lemma_next_ws_to(y, 0, w.len() as int);
    assert(first_word(x) =~= w);
    lemma_after_last_none(w, '/', w.len() as int);
    assert(after_last(w, '/') =~= w);
}

proof fn lemma_add_unique_grows(refs: Seq<Seq<char>>, y: Seq<char>)
    ensures
        forall|x: Seq<char>| refs.contains(x) ==> #[trigger] add_unique(refs, y).contains(x),
        y.len() > 0 ==> add_unique(refs, y).contains(y),
{
    if y.len() > 0 && !refs.contains(y) {
        assert(refs.push(y)[refs.len() as int] == y);
        assert forall|x: Seq<char>| refs.contains(x) implies #[trigger] add_unique(refs, y).contains(x) by {
            let i = choose|i: int| 0 <= i < refs.len() && refs[i] == x;
            assert(refs.push(y)[i] == x);
        }
    }
}

proof fn lemma_upto_grows(refs: Seq<Seq<char>>, t: Seq<char>, k: int)
    ensures
        forall|x: Seq<char>| refs.contains(x) ==> #[trigger] script_line_upto(refs, t, k).contains(x),
    decreases k,
{
    if k > 0 {
        lemma_upto_grows(refs, t, k - 1);
        let prev = script_line_upto(refs, t, k - 1);
        match prefix_rest(t, script_prefixes()[k - 1]) {
            Some(rest) => lemma_add_unique_grows(prev, after_last(first_word(rest), '/')),
            None => {},
        }
    }
}

proof fn lemma_upto_adds(refs: Seq<Seq<char>>, t: Seq<char>, k: int, idx: int, w: Seq<char>)
    requires
        0 <= idx < k,
        idx < script_prefixes().len(),
        w.len() > 0,
        prefix_rest(t, script_prefixes()[idx]) matches Some(rest) && after_last(first_word(rest), '/')
            == w,
    ensures
        script_line_upto(refs, t, k).contains(w),
    decreases k,
{
    let prev = script_line_upto(refs, t, k - 1);
    if k - 1 == idx {
        lemma_add_unique_grows(prev, w);
    } else {
        lemma_upto_adds(refs, t, k - 1, idx, w);
        match prefix_rest(t, script_prefixes()[k - 1]) {
            Some(rest) => lemma_add_unique_grows(prev, after_last(first_word(rest), '/')),
            None => {},
        }
    }
}

proof fn lemma_script_lines_grow(refs: Seq<Seq<char>>, ls: Seq<Seq<char>>)
    ensures
        forall|x: Seq<char>| refs.contains(x) ==> #[trigger] script_lines(refs, ls).contains(x),
    decreases ls.len(),
{
    if ls.len() > 0 {
        lemma_script_lines_grow(refs, ls.drop_last());
        lemma_upto_grows(script_lines(refs, ls.drop_last()), trim(ls.last()), 6);
    }
}

/// The commands whose `-f` word (or, for `docker compose build`, whose next
/// word) names a Dockerfile, each with the space that follows it.
pub open spec fn is_dockerfile_command(c: Seq<char>) -> bool {
    ||| c == "docker build -f "@
    ||| c == "buildah bud -f "@
    ||| c == "podman build -f "@
    ||| c == "docker build --file "@
    ||| c == "docker buildx build -f "@
    ||| c == "docker compose build "@
}

proof fn lemma_command_line_refs(refs: Seq<Seq<char>>, c: Seq<char>, w: Seq<char>, tail: Seq<char>)
    requires
        is_dockerfile_command(c),
        plain_word(w),
        tail.len() == 0 || crate::text::is_ws(tail[0]),
    ensures
        script_line_upto(refs, c + w + tail, 6).contains(w),
{
    reveal_strlit("docker compose build ");
    reveal_strlit("docker compose build");
    let ps = script_prefixes();
    let idx: int = if c == "docker build -f "@ {
        0
    } else if c == "buildah bud -f "@ {
        1
    } else if c == "podman build -f "@ {
        2
    } else if c == "docker build --file "@ {
        3
    } else if c == "docker buildx build -f "@ {
        4
    } else {
        5
    };
    let p = ps[idx];
    let sp: Seq<char> = if idx == 5 { seq![' '] } else { seq![] };
    assert(c =~= p + sp);
    assert(crate::text::is_ws(' '));
    assert(c + w + tail =~= p + sp + w + tail);
    lemma_prefix_word(p, sp, w, tail);
    lemma_upto_adds(refs, c + w + tail, 6, idx, w);
}

/// A script line that runs `docker build -f`, `buildah bud -f`,
/// `podman build -f`, `docker build --file`, `docker buildx build -f` or
/// `docker compose build` names the Dockerfile that follows: whatever was
/// referenced before, the references after the script's lines hold it.
pub proof fn law_script_commands_reference(
    refs: Seq<Seq<char>>,
    ls: Seq<Seq<char>>,
    j: int,
    c: Seq<char>,
    w: Seq<char>,
    tail: Seq<char>,
)
    requires
        0 <= j < ls.len(),
        is_dockerfile_command(c),
        trim(ls[j]) == c + w + tail,
        plain_word(w),
        tail.len() == 0 || crate::text::is_ws(tail[0]),
    ensures
        script_lines(refs, ls).contains(w),
    decreases ls.len(),
{
    let d = ls.drop_last();
    if j == ls.len() - 1 {
        lemma_command_line_refs(script_lines(refs, d), c, w, tail);
    } else {
        assert(d[j] == ls[j]);
        law_script_commands_reference(refs, d, j, c, w, tail);
        lemma_upto_grows(script_lines(refs, d), trim(ls.last()), 6);
    }
}

proof fn lemma_compose_lines_grow(st: ComposeScan, ls: Seq<Seq<char>>)
    ensures
        forall|x: Seq<char>| st.refs.contains(x) ==> #[trigger] compose_lines(st, ls).refs.contains(x),
    decreases ls.len(),
{
    if ls.len() > 0 {
        lemma_compose_lines_grow(st, ls.drop_last());
        let prev = compose_lines(st, ls.drop_last());
        let t = trim(ls.last());
        lemma_add_unique_grows(
            prev.refs,
            dockerfile_value_name(t.subrange("dockerfile:"@.len() as int, t.len() as int)),
        );
    }
}

proof fn lemma_file_refs_grow(refs: Seq<Seq<char>>, ln: Seq<char>, content: Seq<char>)
    ensures
        forall|x: Seq<char>| refs.contains(x) ==> #[trigger] file_refs(refs, ln, content).contains(x),
{
    let ls = lines(content);
    let st = compose_lines(ComposeScan { refs, explicit: 0, builds: 0 }, ls);
    lemma_compose_lines_grow(ComposeScan { refs, explicit: 0, builds: 0 }, ls);
    lemma_add_unique_grows(st.refs, "Dockerfile"@);
    let r1 = if is_compose_name(ln) {
        compose_file(refs, ls)
    } else {
        refs
    };
    lemma_script_lines_grow(r1, ls);
}

proof fn lemma_references_grow(
    entries: Seq<(Seq<char>, bool, Option<Seq<char>>)>,
    lns: Seq<Seq<char>>,
    n: int,
)
    requires
        0 <= n <= entries.len(),
    ensures
        forall|x: Seq<char>|
            spec_references(entries.take(n), lns).contains(x) ==> #[trigger] spec_references(
                entries,
                lns,
            ).contains(x),
    decreases entries.len() - n,
{
    if n < entries.len() {
        let d = entries.drop_last();
        assert(d.take(n) =~= entries.take(n));
        lemma_references_grow(d, lns, n);
        let prev = spec_references(d, lns);
        let e = entries.last();
        if e.1 && e.2 is Some {
            lemma_file_refs_grow(prev, lns[entries.len() - 1], e.2->0);
        }
    } else {
        assert(entries.take(n) =~= entries);
    }
}

/// A readable script, makefile or justfile of the root whose line runs one
/// of the Dockerfile commands makes the word that follows a referenced
/// Dockerfile, whatever the other files of the root hold.
pub proof fn law_root_script_references(
    entries: Seq<(Seq<char>, bool, Option<Seq<char>>)>,
    lns: Seq<Seq<char>>,
    i: int,
    j: int,
    c: Seq<char>,
    w: Seq<char>,
    tail: Seq<char>,
)
    requires
        0 <= i < entries.len(),
        entries[i].1,
        entries[i].2 is Some,
        is_script_name(lns[i]),
        0 <= j < lines(entries[i].2->0).len(),
        is_dockerfile_command(c),
        trim(lines(entries[i].2->0)[j]) == c + w + tail,
        plain_word(w),
        tail.len() == 0 || crate::text::is_ws(tail[0]),
    ensures
        spec_references(entries, lns).contains(w),
{
    let pre = entries.take(i + 1);
    assert(pre.drop_last() =~= entries.take(i));
    assert(pre.last() == entries[i]);
    let prev = spec_references(entries.take(i), lns);
    let content = entries[i].2->0;
    let ls = lines(content);
    let r1 = if is_compose_name(lns[i]) {
        compose_file(prev, ls)
    } else {
        prev
    };
    law_script_commands_reference(r1, ls, j, c, w, tail);
    assert(spec_references(pre, lns) == file_refs(prev, lns[i], content));
    lemma_references_grow(entries, lns, i + 1);
}

proof fn lemma_back_ws_to(x: Seq<char>, j: int)
    requires
        0 < j <= x.len(),
        !crate::text::is_ws(x[j - 1]),
    ensures
        crate::text::back_ws(x, j) == j,
{
}

proof fn lemma_skip_char_none(x: Seq<char>, c: char)
    requires
        forall|q: int| 0 <= q < x.len() ==> #[trigger] x[q] != c,
    ensures
        trim_char(x, c) == x,
{
    assert(crate::text::skip_char(x, c, 0) == 0);
    let t = x.subrange(0, x.len() as int);
    assert(t =~= x);
    assert(crate::text::back_char(t, c, t.len() as int) == t.len());
    assert(t.subrange(0, t.len() as int) =~= x);
}

/// A plain word that holds no quote either.
pub open spec fn unquoted_word(w: Seq<char>) -> bool {
    &&& plain_word(w)
    &&& forall|q: int| 0 <= q < w.len() ==> #[trigger] w[q] != '"' && w[q] != '\''
}

proof fn lemma_value_name(sp: Seq<char>, w: Seq<char>)
    requires
        forall|q: int| 0 <= q < sp.len() ==> crate::text::is_ws(#[trigger] sp[q]),
        unquoted_word(w),
    ensures
        dockerfile_value_name(sp + w) == w,
{
    let v = sp + w;
    assert forall|q: int| 0 <= q < sp.len() implies crate::text::is_ws(#[trigger] v[q]) by {
        assert(v[q] == sp[q]);
    }
    assert(v[sp.len() as int] == w[0]);
    lemma_skip_ws_to(v, 0, sp.len() as int);
    let ts = crate::text::trim_start(v);
    assert(ts =~= w);
    lemma_back_ws_to(w, w.len() as int);
    assert(trim(v) =~= w);
    lemma_skip_char_none(w, '"');
    lemma_skip_char_none(w, '\'');
    lemma_after_last_none(w, '/', w.len() as int);
    assert(after_last(w, '/') =~= w);
}

proof fn lemma_compose_line_grows(st: ComposeScan, line: Seq<char>)
    ensures
        forall|x: Seq<char>| st.refs.contains(x) ==> #[trigger] compose_line(st, line).refs.contains(x),
{
    let t = trim(line);
    lemma_add_unique_grows(
        st.refs,
        dockerfile_value_name(t.subrange("dockerfile:"@.len() as int, t.len() as int)),
    );
}

proof fn lemma_compose_lines_names(st: ComposeScan, ls: Seq<Seq<char>>, j: int, sp: Seq<char>, w: Seq<char>)
    requires
        0 <= j < ls.len(),
        trim(ls[j]) == "dockerfile:"@ + sp + w,
        forall|q: int| 0 <= q < sp.len() ==> crate::text::is_ws(#[trigger] sp[q]),
        unquoted_word(w),
    ensures
        compose_lines(st, ls).refs.contains(w),
    decreases ls.len(),
{
    let d = ls.drop_last();
    if j == ls.len() - 1 {
        let prev = compose_lines(st, d);
        let t = trim(ls[j]);
        reveal_strlit("dockerfile:");
        let key = "dockerfile:"@;
        assert(t.subrange(0, key.len() as int) =~= key);
        assert(starts_with(t, key));
        assert(t.subrange(key.len() as int, t.len() as int) =~= sp + w);
        lemma_value_name(sp, w);
        lemma_add_unique_grows(prev.refs, w);
        let st1 = ComposeScan {
            refs: add_unique(prev.refs, w),
            explicit: prev.explicit + 1,
            builds: prev.builds,
        };
        assert(compose_line(prev, ls.last()).refs == st1.refs);
    } else {
        assert(d[j] == ls[j]);
        lemma_compose_lines_names(st, d, j, sp, w);
        lemma_compose_line_grows(compose_lines(st, d), ls.last());
    }
}

/// A compose file line `dockerfile: NAME` references the Dockerfile `NAME`.
pub proof fn law_compose_dockerfile_referenced(
    refs: Seq<Seq<char>>,
    ls: Seq<Seq<char>>,
    j: int,
    sp: Seq<char>,
    w: Seq<char>,
)
    requires
        0 <= j < ls.len(),
        trim(ls[j]) == "dockerfile:"@ + sp + w,
        forall|q: int| 0 <= q < sp.len() ==> crate::text::is_ws(#[trigger] sp[q]),
        unquoted_word(w),
    ensures
        compose_file(refs, ls).contains(w),
{
    let st0 = ComposeScan { refs, explicit: 0, builds: 0 };
    lemma_compose_lines_names(st0, ls, j, sp, w);
    lemma_add_unique_grows(compose_lines(st0, ls).refs, "Dockerfile"@);
}

proof fn lemma_compose_counts(st: ComposeScan, ls: Seq<Seq<char>>)
    requires
        forall|k: int| 0 <= k < ls.len() ==> !starts_with(#[trigger] trim(ls[k]), "dockerfile:"@),
    ensures
        compose_lines(st, ls).explicit == st.explicit,
        compose_lines(st, ls).builds >= st.builds,
        (exists|k: int| 0 <= k < ls.len() && starts_with(#[trigger] trim(ls[k]), "build:"@))
            ==> compose_lines(st, ls).builds > st.builds,
    decreases ls.len(),
{
    if ls.len() > 0 {
        let d = ls.drop_last();
        assert forall|k: int| 0 <= k < d.len() implies !starts_with(#[trigger] trim(d[k]), "dockerfile:"@) by {
            assert(d[k] == ls[k]);
        }
        lemma_compose_counts(st, d);
        assert(!starts_with(trim(ls[ls.len() - 1]), "dockerfile:"@));
        if exists|k: int| 0 <= k < ls.len() && starts_with(#[trigger] trim(ls[k]), "build:"@) {
            let k = choose|k: int| 0 <= k < ls.len() && starts_with(#[trigger] trim(ls[k]), "build:"@);
            if k < d.len() {
                assert(d[k] == ls[k]);
            }
        }
    }
}

/// A compose file with a `build:` key and no `dockerfile:` key at all uses
/// (and so references) the default `Dockerfile`.
pub proof fn law_compose_build_uses_default(refs: Seq<Seq<char>>, ls: Seq<Seq<char>>)
    requires
        exists|k: int| 0 <= k < ls.len() && starts_with(#[trigger] trim(ls[k]), "build:"@),
        forall|k: int| 0 <= k < ls.len() ==> !starts_with(#[trigger] trim(ls[k]), "dockerfile:"@),
    ensures
        compose_file(refs, ls).contains("Dockerfile"@),
{
    let st0 = ComposeScan { refs, explicit: 0, builds: 0 };
    lemma_compose_counts(st0, ls);
    reveal_strlit("Dockerfile");
    lemma_add_unique_grows(compose_lines(st0, ls).refs, "Dockerfile"@);
}

/// The Dockerfile variants of a root: `Dockerfile.*`, `Containerfile`,
/// `Containerfile.*`, and any name whose lower-case form ends in
/// `.dockerfile`; the plain `Dockerfile` is no variant.
pub proof fn law_dockerfile_variant_names(s: Seq<char>, name: Seq<char>, ln: Seq<char>)
    ensures
        spec_is_dockerfile_variant("Dockerfile."@ + s, ln),
        spec_is_dockerfile_variant("Containerfile"@, ln),
        spec_is_dockerfile_variant("Containerfile."@ + s, ln),
        ends_with(ln, ".dockerfile"@) ==> spec_is_dockerfile_variant(name, ln),
        !spec_is_dockerfile_variant("Dockerfile"@, "dockerfile"@),
{
    reveal_strlit("Dockerfile.");
    reveal_strlit("Dockerfile");
    reveal_strlit("dockerfile");
    reveal_strlit(".dockerfile");
    reveal_strlit("Containerfile");
    reveal_strlit("Containerfile.");
    let a = "Dockerfile."@;
    let c = "Containerfile."@;
    assert(("Dockerfile."@ + s).subrange(0, a.len() as int) =~= a);
    assert(("Containerfile."@ + s).subrange(0, c.len() as int) =~= c);
}

} // verus!
