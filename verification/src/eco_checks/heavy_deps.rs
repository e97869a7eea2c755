//! Heavy, phantom, duplicate and deprecated npm dependencies.
use crate::eco_checks::{finding, make_finding, push_finding, Finding, FindingCategory, FindingView};
use crate::eco_checks::docker_waste::append_findings;
use crate::json::{json_object_members, members_or_empty, members_or_empty_exec, object_members};
use crate::project_scanner::{key_position, lemma_key_position, ProjectInfo};
use crate::text::{
    begins, chars_eq, chars_of, contains, contains_exec, contains_text, copy_chars, decimal, join,
    join_exec, push_all, push_decimal, push_str, starts_with,
};
use vstd::prelude::*;

verus! {

broadcast use crate::lemma_deep_view_chars;

// ---------------------------------------------------------------------------
// Tables
// ---------------------------------------------------------------------------

/// A heavy package: its size, a lighter alternative and its size (in KB),
/// the names it is imported by, the call patterns that make a migration
/// harder, and the notes shown for safe and risky usage.
pub struct HeavyDep {
    pub name: Vec<char>,
    pub size_kb: u64,
    pub alternative: Vec<char>,
    pub alt_size_kb: u64,
    pub import_names: Vec<Vec<char>>,
    pub risky_patterns: Vec<Vec<char>>,
    pub safe_note: Vec<char>,
    pub risky_note: Vec<char>,
}

/// A heavy package as plain values.
pub struct HeavyDepSpec {
    pub name: Seq<char>,
    pub size_kb: u64,
    pub alternative: Seq<char>,
    pub alt_size_kb: u64,
    pub import_names: Seq<Seq<char>>,
    pub risky_patterns: Seq<Seq<char>>,
    pub safe_note: Seq<char>,
    pub risky_note: Seq<char>,
}

impl DeepView for HeavyDep {
    type V = HeavyDepSpec;

    open spec fn deep_view(&self) -> HeavyDepSpec {
        HeavyDepSpec {
            name: self.name@,
            size_kb: self.size_kb,
            alternative: self.alternative@,
            alt_size_kb: self.alt_size_kb,
            import_names: self.import_names.deep_view(),
            risky_patterns: self.risky_patterns.deep_view(),
            safe_note: self.safe_note@,
            risky_note: self.risky_note@,
        }
    }
}

/// Appends the characters of a string slice as one more entry.
fn push_lit(v: &mut Vec<Vec<char>>, s: &str)
    ensures
        final(v).deep_view() == old(v).deep_view().push(s@),
{
    crate::push_deep(v, chars_of(s));
}

/// The number of known heavy packages.
pub open spec fn heavy_count() -> int {
    20
}

/// The known heavy package at `k`.
pub open spec fn heavy_table(k: int) -> HeavyDepSpec {
    if k == 0 {
        HeavyDepSpec {
            name: "moment"@,
            size_kb: 4400,
            alternative: "dayjs"@,
            alt_size_kb: 2,
            import_names: seq!["moment"@],
            risky_patterns: seq![".duration("@, ".tz("@, ".utcOffset("@, "defineLocale("@],
            safe_note: "dayjs is API-compatible for formatting/parsing. Drop-in for basic usage."@,
            risky_note: "Uses duration/timezone features. dayjs needs plugins: dayjs/plugin/duration, dayjs/plugin/timezone."@,
        }
    } else if k == 1 {
        HeavyDepSpec {
            name: "lodash"@,
            size_kb: 1500,
            alternative: "native ES6+ or lodash-es"@,
            alt_size_kb: 0,
            import_names: seq!["lodash"@, "_"@],
            risky_patterns: seq![".cloneDeep("@, ".merge("@, ".template("@, ".memoize("@, ".curry("@, ".flowRight("@],
            safe_note: "map/filter/find/reduce/debounce all have native equivalents."@,
            risky_note: "Uses deep utilities (cloneDeep/merge/template) with no native equivalent. Consider lodash-es for tree-shaking."@,
        }
    } else if k == 2 {
        HeavyDepSpec {
            name: "underscore"@,
            size_kb: 700,
            alternative: "native ES6+"@,
            alt_size_kb: 0,
            import_names: seq!["underscore"@, "_"@],
            risky_patterns: seq![".template("@, ".chain("@],
            safe_note: "Most methods have ES6+ equivalents (map, filter, reduce, find)."@,
            risky_note: "Uses template/chain which need custom replacements."@,
        }
    } else if k == 3 {
        HeavyDepSpec {
            name: "request"@,
            size_kb: 800,
            alternative: "native fetch"@,
            alt_size_kb: 0,
            import_names: seq!["request"@],
            risky_patterns: seq![".pipe("@, ".form("@, "request.jar("@, ".auth("@],
            safe_note: "fetch() is native since Node 18. Basic GET/POST is straightforward."@,
            risky_note: "Uses streaming/cookies/auth helpers. Migration needs custom wrappers."@,
        }
    } else if k == 4 {
        HeavyDepSpec {
            name: "axios"@,
            size_kb: 450,
            alternative: "native fetch"@,
            alt_size_kb: 0,
            import_names: seq!["axios"@],
            risky_patterns: seq![".interceptors"@, ".create("@, "axios.all("@, "CancelToken"@, "cancelToken"@],
            safe_note: "fetch() handles basic HTTP. Add response.json() calls."@,
            risky_note: "Uses interceptors/custom instances. Needs wrapper to replicate."@,
        }
    } else if k == 5 {
        HeavyDepSpec {
            name: "bluebird"@,
            size_kb: 560,
            alternative: "native Promise"@,
            alt_size_kb: 0,
            import_names: seq!["bluebird"@],
            risky_patterns: seq!["Promise.map("@, "Promise.each("@, "Promise.reduce("@, "Promise.props("@, ".spread("@],
            safe_note: "Native Promise + Promise.all covers basic async patterns."@,
            risky_note: "Uses concurrent utilities (map/each/reduce). Replace with Promise.all + Array methods."@,
        }
    } else if k == 6 {
        HeavyDepSpec {
            name: "express-validator"@,
            size_kb: 350,
            alternative: "zod"@,
            alt_size_kb: 13,
            import_names: seq!["express-validator"@],
            risky_patterns: seq![".custom("@, "oneOf("@, "validationResult("@],
            safe_note: "zod schemas handle validation with better TypeScript support."@,
            risky_note: "Uses custom validators/oneOf. Different validation approach with zod."@,
        }
    } else if k == 7 {
        HeavyDepSpec {
            name: "node-uuid"@,
            size_kb: 120,
            alternative: "crypto.randomUUID()"@,
            alt_size_kb: 0,
            import_names: seq!["node-uuid"@],
            risky_patterns: seq!["v1("@, "v3("@, "v5("@],
            safe_note: "crypto.randomUUID() is drop-in for UUID v4. Node 19+."@,
            risky_note: "Uses v1/v3/v5 UUIDs. Keep uuid package for those variants."@,
        }
    } else if k == 8 {
        HeavyDepSpec {
            name: "uuid"@,
            size_kb: 120,
            alternative: "crypto.randomUUID()"@,
            alt_size_kb: 0,
            import_names: seq!["uuid"@],
            risky_patterns: seq!["v1("@, "v3("@, "v5("@],
            safe_note: "crypto.randomUUID() is drop-in for UUID v4. Node 19+."@,
            risky_note: "Uses v1/v3/v5 UUIDs. Keep uuid package for those variants."@,
        }
    } else if k == 9 {
        HeavyDepSpec {
            name: "chalk"@,
            size_kb: 150,
            alternative: "picocolors"@,
            alt_size_kb: 3,
            import_names: seq!["chalk"@],
            risky_patterns: seq![".rgb("@, ".hex("@, ".bgRgb("@, ".keyword("@, ".level"@],
            safe_note: "picocolors covers bold, dim, red, green, blue, cyan, etc."@,
            risky_note: "Uses RGB/hex colors. picocolors only supports named colors."@,
        }
    } else if k == 10 {
        HeavyDepSpec {
            name: "colors"@,
            size_kb: 80,
            alternative: "picocolors"@,
            alt_size_kb: 3,
            import_names: seq!["colors"@],
            risky_patterns: seq![".rainbow"@, ".america"@, ".trap"@, ".zalgo"@],
            safe_note: "picocolors covers basic named colors."@,
            risky_note: "Uses fancy styles (rainbow/america). picocolors does not support those."@,
        }
    } else if k == 11 {
        HeavyDepSpec {
            name: "commander"@,
            size_kb: 250,
            alternative: "util.parseArgs (native Node 18+)"@,
            alt_size_kb: 0,
            import_names: seq!["commander"@, "Command"@],
            risky_patterns: seq![".command("@, ".addCommand("@, ".action("@],
            safe_note: "parseArgs handles basic flags and positional args."@,
            risky_note: "Uses subcommands. parseArgs does not support subcommand routing."@,
        }
    } else if k == 12 {
        HeavyDepSpec {
            name: "yargs"@,
            size_kb: 400,
            alternative: "util.parseArgs (native Node 18+)"@,
            alt_size_kb: 0,
            import_names: seq!["yargs"@],
            risky_patterns: seq![".command("@, ".middleware("@, ".completion("@],
            safe_note: "parseArgs handles basic flags and positional args."@,
            risky_note: "Uses subcommands/middleware. parseArgs does not support those."@,
        }
    } else if k == 13 {
        HeavyDepSpec {
            name: "node-sass"@,
            size_kb: 15000,
            alternative: "sass (Dart)"@,
            alt_size_kb: 5000,
            import_names: seq!["node-sass"@],
            risky_patterns: seq![],
            safe_note: "sass (Dart) is API-compatible. Drop-in replacement. Pure JS, no native binary."@,
            risky_note: ""@,
        }
    } else if k == 14 {
        HeavyDepSpec {
            name: "imagemin"@,
            size_kb: 3500,
            alternative: "sharp"@,
            alt_size_kb: 1500,
            import_names: seq!["imagemin"@],
            risky_patterns: seq!["imageminJpegtran"@, "imageminPngquant"@, "imageminSvgo"@, "imageminGifsicle"@],
            safe_note: "sharp handles resize, convert, compress with native performance."@,
            risky_note: "Uses specific imagemin plugins. sharp has different plugin architecture."@,
        }
    } else if k == 15 {
        HeavyDepSpec {
            name: "jquery"@,
            size_kb: 290,
            alternative: "native DOM API"@,
            alt_size_kb: 0,
            import_names: seq!["jquery"@, "jQuery"@],
            risky_patterns: seq![".ajax("@, ".animate("@, ".delegate("@, ".live("@, ".deferred("@],
            safe_note: "querySelector + fetch + addEventListener replace basic jQuery."@,
            risky_note: "Uses AJAX/animation/delegation. Needs fetch + CSS transitions + event delegation."@,
        }
    } else if k == 16 {
        HeavyDepSpec {
            name: "async"@,
            size_kb: 500,
            alternative: "native async/await"@,
            alt_size_kb: 0,
            import_names: seq!["async"@],
            risky_patterns: seq![".waterfall("@, ".auto("@, ".retry("@, ".cargo("@, ".queue("@],
            safe_note: "async/await + Promise.all replace series/parallel patterns."@,
            risky_note: "Uses waterfall/auto/queue. Needs manual refactoring of control flow."@,
        }
    } else if k == 17 {
        HeavyDepSpec {
            name: "mkdirp"@,
            size_kb: 40,
            alternative: "fs.mkdirSync({recursive:true})"@,
            alt_size_kb: 0,
            import_names: seq!["mkdirp"@],
            risky_patterns: seq![],
            safe_note: "Drop-in. fs.mkdirSync(path, {recursive: true}). Node 10+."@,
            risky_note: ""@,
        }
    } else if k == 18 {
        HeavyDepSpec {
            name: "rimraf"@,
            size_kb: 120,
            alternative: "fs.rmSync({recursive:true})"@,
            alt_size_kb: 0,
            import_names: seq!["rimraf"@],
            risky_patterns: seq![],
            safe_note: "Drop-in. fs.rmSync(path, {recursive: true, force: true}). Node 14+."@,
            risky_note: ""@,
        }
    } else {
        HeavyDepSpec {
            name: "glob"@,
            size_kb: 200,
            alternative: "fs.globSync (Node 22+)"@,
            alt_size_kb: 0,
            import_names: seq!["glob"@],
            risky_patterns: seq![".hasMagic("@, "Glob("@, ".stream("@],
            safe_note: "fs.globSync() covers basic patterns. Node 22+."@,
            risky_note: "Uses advanced glob features. fs.globSync() may not cover all patterns."@,
        }
    }
}

/// The known heavy package at `k`.
pub fn heavy_entry(k: usize) -> (r: HeavyDep)
    requires
        k < heavy_count(),
    ensures
        r.deep_view() == heavy_table(k as int),
{
    if k == 0 {
        let mut imports: Vec<Vec<char>> = Vec::new();
        push_lit(&mut imports, "moment");
        assert(imports.deep_view() =~= seq!["moment"@]);
        let mut risky: Vec<Vec<char>> = Vec::new();
        push_lit(&mut risky, ".duration(");
        push_lit(&mut risky, ".tz(");
        push_lit(&mut risky, ".utcOffset(");
        push_lit(&mut risky, "defineLocale(");
        assert(risky.deep_view() =~= seq![".duration("@, ".tz("@, ".utcOffset("@, "defineLocale("@]);
        HeavyDep {
            name: chars_of("moment"),
            size_kb: 4400,
            alternative: chars_of("dayjs"),
            alt_size_kb: 2,
            import_names: imports,
            risky_patterns: risky,
            safe_note: chars_of("dayjs is API-compatible for formatting/parsing. Drop-in for basic usage."),
            risky_note: chars_of("Uses duration/timezone features. dayjs needs plugins: dayjs/plugin/duration, dayjs/plugin/timezone."),
        }
    } else if k == 1 {
        let mut imports: Vec<Vec<char>> = Vec::new();
        push_lit(&mut imports, "lodash");
        push_lit(&mut imports, "_");
        assert(imports.deep_view() =~= seq!["lodash"@, "_"@]);
        let mut risky: Vec<Vec<char>> = Vec::new();
        push_lit(&mut risky, ".cloneDeep(");
        push_lit(&mut risky, ".merge(");
        push_lit(&mut risky, ".template(");
        push_lit(&mut risky, ".memoize(");
        push_lit(&mut risky, ".curry(");
        push_lit(&mut risky, ".flowRight(");
        assert(risky.deep_view() =~= seq![".cloneDeep("@, ".merge("@, ".template("@, ".memoize("@, ".curry("@, ".flowRight("@]);
        HeavyDep {
            name: chars_of("lodash"),
            size_kb: 1500,
            alternative: chars_of("native ES6+ or lodash-es"),
            alt_size_kb: 0,
            import_names: imports,
            risky_patterns: risky,
            safe_note: chars_of("map/filter/find/reduce/debounce all have native equivalents."),
            risky_note: chars_of("Uses deep utilities (cloneDeep/merge/template) with no native equivalent. Consider lodash-es for tree-shaking."),
        }
    } else if k == 2 {
        let mut imports: Vec<Vec<char>> = Vec::new();
        push_lit(&mut imports, "underscore");
        push_lit(&mut imports, "_");
        assert(imports.deep_view() =~= seq!["underscore"@, "_"@]);
        let mut risky: Vec<Vec<char>> = Vec::new();
        push_lit(&mut risky, ".template(");
        push_lit(&mut risky, ".chain(");
        assert(risky.deep_view() =~= seq![".template("@, ".chain("@]);
        HeavyDep {
            name: chars_of("underscore"),
            size_kb: 700,
            alternative: chars_of("native ES6+"),
            alt_size_kb: 0,
            import_names: imports,
            risky_patterns: risky,
            safe_note: chars_of("Most methods have ES6+ equivalents (map, filter, reduce, find)."),
            risky_note: chars_of("Uses template/chain which need custom replacements."),
        }
    } else if k == 3 {
        let mut imports: Vec<Vec<char>> = Vec::new();
        push_lit(&mut imports, "request");
        assert(imports.deep_view() =~= seq!["request"@]);
        let mut risky: Vec<Vec<char>> = Vec::new();
        push_lit(&mut risky, ".pipe(");
        push_lit(&mut risky, ".form(");
        push_lit(&mut risky, "request.jar(");
        push_lit(&mut risky, ".auth(");
        assert(risky.deep_view() =~= seq![".pipe("@, ".form("@, "request.jar("@, ".auth("@]);
        HeavyDep {
            name: chars_of("request"),
            size_kb: 800,
            alternative: chars_of("native fetch"),
            alt_size_kb: 0,
            import_names: imports,
            risky_patterns: risky,
            safe_note: chars_of("fetch() is native since Node 18. Basic GET/POST is straightforward."),
            risky_note: chars_of("Uses streaming/cookies/auth helpers. Migration needs custom wrappers."),
        }
    } else if k == 4 {
        let mut imports: Vec<Vec<char>> = Vec::new();
        push_lit(&mut imports, "axios");
        assert(imports.deep_view() =~= seq!["axios"@]);
        let mut risky: Vec<Vec<char>> = Vec::new();
        push_lit(&mut risky, ".interceptors");
        push_lit(&mut risky, ".create(");
        push_lit(&mut risky, "axios.all(");
        push_lit(&mut risky, "CancelToken");
        push_lit(&mut risky, "cancelToken");
        assert(risky.deep_view() =~= seq![".interceptors"@, ".create("@, "axios.all("@, "CancelToken"@, "cancelToken"@]);
        HeavyDep {
            name: chars_of("axios"),
            size_kb: 450,
            alternative: chars_of("native fetch"),
            alt_size_kb: 0,
            import_names: imports,
            risky_patterns: risky,
            safe_note: chars_of("fetch() handles basic HTTP. Add response.json() calls."),
            risky_note: chars_of("Uses interceptors/custom instances. Needs wrapper to replicate."),
        }
    } else if k == 5 {
        let mut imports: Vec<Vec<char>> = Vec::new();
        push_lit(&mut imports, "bluebird");
        assert(imports.deep_view() =~= seq!["bluebird"@]);
        let mut risky: Vec<Vec<char>> = Vec::new();
        push_lit(&mut risky, "Promise.map(");
        push_lit(&mut risky, "Promise.each(");
        push_lit(&mut risky, "Promise.reduce(");
        push_lit(&mut risky, "Promise.props(");
        push_lit(&mut risky, ".spread(");
        assert(risky.deep_view() =~= seq!["Promise.map("@, "Promise.each("@, "Promise.reduce("@, "Promise.props("@, ".spread("@]);
        HeavyDep {
            name: chars_of("bluebird"),
            size_kb: 560,
            alternative: chars_of("native Promise"),
            alt_size_kb: 0,
            import_names: imports,
            risky_patterns: risky,
            safe_note: chars_of("Native Promise + Promise.all covers basic async patterns."),
            risky_note: chars_of("Uses concurrent utilities (map/each/reduce). Replace with Promise.all + Array methods."),
        }
    } else if k == 6 {
        let mut imports: Vec<Vec<char>> = Vec::new();
        push_lit(&mut imports, "express-validator");
        assert(imports.deep_view() =~= seq!["express-validator"@]);
        let mut risky: Vec<Vec<char>> = Vec::new();
        push_lit(&mut risky, ".custom(");
        push_lit(&mut risky, "oneOf(");
        push_lit(&mut risky, "validationResult(");
        assert(risky.deep_view() =~= seq![".custom("@, "oneOf("@, "validationResult("@]);
        HeavyDep {
            name: chars_of("express-validator"),
            size_kb: 350,
            alternative: chars_of("zod"),
            alt_size_kb: 13,
            import_names: imports,
            risky_patterns: risky,
            safe_note: chars_of("zod schemas handle validation with better TypeScript support."),
            risky_note: chars_of("Uses custom validators/oneOf. Different validation approach with zod."),
        }
    } else if k == 7 {
        let mut imports: Vec<Vec<char>> = Vec::new();
        push_lit(&mut imports, "node-uuid");
        assert(imports.deep_view() =~= seq!["node-uuid"@]);
        let mut risky: Vec<Vec<char>> = Vec::new();
        push_lit(&mut risky, "v1(");
        push_lit(&mut risky, "v3(");
        push_lit(&mut risky, "v5(");
        assert(risky.deep_view() =~= seq!["v1("@, "v3("@, "v5("@]);
        HeavyDep {
            name: chars_of("node-uuid"),
            size_kb: 120,
            alternative: chars_of("crypto.randomUUID()"),
            alt_size_kb: 0,
            import_names: imports,
            risky_patterns: risky,
            safe_note: chars_of("crypto.randomUUID() is drop-in for UUID v4. Node 19+."),
            risky_note: chars_of("Uses v1/v3/v5 UUIDs. Keep uuid package for those variants."),
        }
    } else if k == 8 {
        let mut imports: Vec<Vec<char>> = Vec::new();
        push_lit(&mut imports, "uuid");
        assert(imports.deep_view() =~= seq!["uuid"@]);
        let mut risky: Vec<Vec<char>> = Vec::new();
        push_lit(&mut risky, "v1(");
        push_lit(&mut risky, "v3(");
        push_lit(&mut risky, "v5(");
        assert(risky.deep_view() =~= seq!["v1("@, "v3("@, "v5("@]);
        HeavyDep {
            name: chars_of("uuid"),
            size_kb: 120,
            alternative: chars_of("crypto.randomUUID()"),
            alt_size_kb: 0,
            import_names: imports,
            risky_patterns: risky,
            safe_note: chars_of("crypto.randomUUID() is drop-in for UUID v4. Node 19+."),
            risky_note: chars_of("Uses v1/v3/v5 UUIDs. Keep uuid package for those variants."),
        }
    } else if k == 9 {
        let mut imports: Vec<Vec<char>> = Vec::new();
        push_lit(&mut imports, "chalk");
        assert(imports.deep_view() =~= seq!["chalk"@]);
        let mut risky: Vec<Vec<char>> = Vec::new();
        push_lit(&mut risky, ".rgb(");
        push_lit(&mut risky, ".hex(");
        push_lit(&mut risky, ".bgRgb(");
        push_lit(&mut risky, ".keyword(");
        push_lit(&mut risky, ".level");
        assert(risky.deep_view() =~= seq![".rgb("@, ".hex("@, ".bgRgb("@, ".keyword("@, ".level"@]);
        HeavyDep {
            name: chars_of("chalk"),
            size_kb: 150,
            alternative: chars_of("picocolors"),
            alt_size_kb: 3,
            import_names: imports,
            risky_patterns: risky,
            safe_note: chars_of("picocolors covers bold, dim, red, green, blue, cyan, etc."),
            risky_note: chars_of("Uses RGB/hex colors. picocolors only supports named colors."),
        }
    } else if k == 10 {
        let mut imports: Vec<Vec<char>> = Vec::new();
        push_lit(&mut imports, "colors");
        assert(imports.deep_view() =~= seq!["colors"@]);
        let mut risky: Vec<Vec<char>> = Vec::new();
        push_lit(&mut risky, ".rainbow");
        push_lit(&mut risky, ".america");
        push_lit(&mut risky, ".trap");
        push_lit(&mut risky, ".zalgo");
        assert(risky.deep_view() =~= seq![".rainbow"@, ".america"@, ".trap"@, ".zalgo"@]);
        HeavyDep {
            name: chars_of("colors"),
            size_kb: 80,
            alternative: chars_of("picocolors"),
            alt_size_kb: 3,
            import_names: imports,
            risky_patterns: risky,
            safe_note: chars_of("picocolors covers basic named colors."),
            risky_note: chars_of("Uses fancy styles (rainbow/america). picocolors does not support those."),
        }
    } else if k == 11 {
        let mut imports: Vec<Vec<char>> = Vec::new();
        push_lit(&mut imports, "commander");
        push_lit(&mut imports, "Command");
        assert(imports.deep_view() =~= seq!["commander"@, "Command"@]);
        let mut risky: Vec<Vec<char>> = Vec::new();
        push_lit(&mut risky, ".command(");
        push_lit(&mut risky, ".addCommand(");
        push_lit(&mut risky, ".action(");
        assert(risky.deep_view() =~= seq![".command("@, ".addCommand("@, ".action("@]);
        HeavyDep {
            name: chars_of("commander"),
            size_kb: 250,
            alternative: chars_of("util.parseArgs (native Node 18+)"),
            alt_size_kb: 0,
            import_names: imports,
            risky_patterns: risky,
            safe_note: chars_of("parseArgs handles basic flags and positional args."),
            risky_note: chars_of("Uses subcommands. parseArgs does not support subcommand routing."),
        }
    } else if k == 12 {
        let mut imports: Vec<Vec<char>> = Vec::new();
        push_lit(&mut imports, "yargs");
        assert(imports.deep_view() =~= seq!["yargs"@]);
        let mut risky: Vec<Vec<char>> = Vec::new();
        push_lit(&mut risky, ".command(");
        push_lit(&mut risky, ".middleware(");
        push_lit(&mut risky, ".completion(");
        assert(risky.deep_view() =~= seq![".command("@, ".middleware("@, ".completion("@]);
        HeavyDep {
            name: chars_of("yargs"),
            size_kb: 400,
            alternative: chars_of("util.parseArgs (native Node 18+)"),
            alt_size_kb: 0,
            import_names: imports,
            risky_patterns: risky,
            safe_note: chars_of("parseArgs handles basic flags and positional args."),
            risky_note: chars_of("Uses subcommands/middleware. parseArgs does not support those."),
        }
    } else if k == 13 {
        let mut imports: Vec<Vec<char>> = Vec::new();
        push_lit(&mut imports, "node-sass");
        assert(imports.deep_view() =~= seq!["node-sass"@]);
        let mut risky: Vec<Vec<char>> = Vec::new();
        assert(risky.deep_view() =~= seq![]);
        HeavyDep {
            name: chars_of("node-sass"),
            size_kb: 15000,
            alternative: chars_of("sass (Dart)"),
            alt_size_kb: 5000,
            import_names: imports,
            risky_patterns: risky,
            safe_note: chars_of("sass (Dart) is API-compatible. Drop-in replacement. Pure JS, no native binary."),
            risky_note: chars_of(""),
        }
    } else if k == 14 {
        let mut imports: Vec<Vec<char>> = Vec::new();
        push_lit(&mut imports, "imagemin");
        assert(imports.deep_view() =~= seq!["imagemin"@]);
        let mut risky: Vec<Vec<char>> = Vec::new();
        push_lit(&mut risky, "imageminJpegtran");
        push_lit(&mut risky, "imageminPngquant");
        push_lit(&mut risky, "imageminSvgo");
        push_lit(&mut risky, "imageminGifsicle");
        assert(risky.deep_view() =~= seq!["imageminJpegtran"@, "imageminPngquant"@, "imageminSvgo"@, "imageminGifsicle"@]);
        HeavyDep {
            name: chars_of("imagemin"),
            size_kb: 3500,
            alternative: chars_of("sharp"),
            alt_size_kb: 1500,
            import_names: imports,
            risky_patterns: risky,
            safe_note: chars_of("sharp handles resize, convert, compress with native performance."),
            risky_note: chars_of("Uses specific imagemin plugins. sharp has different plugin architecture."),
        }
    } else if k == 15 {
        let mut imports: Vec<Vec<char>> = Vec::new();
        push_lit(&mut imports, "jquery");
        push_lit(&mut imports, "jQuery");
        assert(imports.deep_view() =~= seq!["jquery"@, "jQuery"@]);
        let mut risky: Vec<Vec<char>> = Vec::new();
        push_lit(&mut risky, ".ajax(");
        push_lit(&mut risky, ".animate(");
        push_lit(&mut risky, ".delegate(");
        push_lit(&mut risky, ".live(");
        push_lit(&mut risky, ".deferred(");
        assert(risky.deep_view() =~= seq![".ajax("@, ".animate("@, ".delegate("@, ".live("@, ".deferred("@]);
        HeavyDep {
            name: chars_of("jquery"),
            size_kb: 290,
            alternative: chars_of("native DOM API"),
            alt_size_kb: 0,
            import_names: imports,
            risky_patterns: risky,
            safe_note: chars_of("querySelector + fetch + addEventListener replace basic jQuery."),
            risky_note: chars_of("Uses AJAX/animation/delegation. Needs fetch + CSS transitions + event delegation."),
        }
    } else if k == 16 {
        let mut imports: Vec<Vec<char>> = Vec::new();
        push_lit(&mut imports, "async");
        assert(imports.deep_view() =~= seq!["async"@]);
        let mut risky: Vec<Vec<char>> = Vec::new();
        push_lit(&mut risky, ".waterfall(");
        push_lit(&mut risky, ".auto(");
        push_lit(&mut risky, ".retry(");
        push_lit(&mut risky, ".cargo(");
        push_lit(&mut risky, ".queue(");
        assert(risky.deep_view() =~= seq![".waterfall("@, ".auto("@, ".retry("@, ".cargo("@, ".queue("@]);
        HeavyDep {
            name: chars_of("async"),
            size_kb: 500,
            alternative: chars_of("native async/await"),
            alt_size_kb: 0,
            import_names: imports,
            risky_patterns: risky,
            safe_note: chars_of("async/await + Promise.all replace series/parallel patterns."),
            risky_note: chars_of("Uses waterfall/auto/queue. Needs manual refactoring of control flow."),
        }
    } else if k == 17 {
        let mut imports: Vec<Vec<char>> = Vec::new();
        push_lit(&mut imports, "mkdirp");
        assert(imports.deep_view() =~= seq!["mkdirp"@]);
        let mut risky: Vec<Vec<char>> = Vec::new();
        assert(risky.deep_view() =~= seq![]);
        HeavyDep {
            name: chars_of("mkdirp"),
            size_kb: 40,
            alternative: chars_of("fs.mkdirSync({recursive:true})"),
            alt_size_kb: 0,
            import_names: imports,
            risky_patterns: risky,
            safe_note: chars_of("Drop-in. fs.mkdirSync(path, {recursive: true}). Node 10+."),
            risky_note: chars_of(""),
        }
    } else if k == 18 {
        let mut imports: Vec<Vec<char>> = Vec::new();
        push_lit(&mut imports, "rimraf");
        assert(imports.deep_view() =~= seq!["rimraf"@]);
        let mut risky: Vec<Vec<char>> = Vec::new();
        assert(risky.deep_view() =~= seq![]);
        HeavyDep {
            name: chars_of("rimraf"),
            size_kb: 120,
            alternative: chars_of("fs.rmSync({recursive:true})"),
            alt_size_kb: 0,
            import_names: imports,
            risky_patterns: risky,
            safe_note: chars_of("Drop-in. fs.rmSync(path, {recursive: true, force: true}). Node 14+."),
            risky_note: chars_of(""),
        }
    } else {
        let mut imports: Vec<Vec<char>> = Vec::new();
        push_lit(&mut imports, "glob");
        assert(imports.deep_view() =~= seq!["glob"@]);
        let mut risky: Vec<Vec<char>> = Vec::new();
        push_lit(&mut risky, ".hasMagic(");
        push_lit(&mut risky, "Glob(");
        push_lit(&mut risky, ".stream(");
        assert(risky.deep_view() =~= seq![".hasMagic("@, "Glob("@, ".stream("@]);
        HeavyDep {
            name: chars_of("glob"),
            size_kb: 200,
            alternative: chars_of("fs.globSync (Node 22+)"),
            alt_size_kb: 0,
            import_names: imports,
            risky_patterns: risky,
            safe_note: chars_of("fs.globSync() covers basic patterns. Node 22+."),
            risky_note: chars_of("Uses advanced glob features. fs.globSync() may not cover all patterns."),
        }
    }
}

/// The groups of packages that serve one purpose: the purpose, the members.
pub open spec fn duplicate_group(k: int) -> (Seq<char>, Seq<Seq<char>>) {
    if k == 0 {
        ("utility belt"@, seq!["lodash"@, "underscore"@, "ramda"@])
    } else if k == 1 {
        ("date handling"@, seq!["moment"@, "dayjs"@, "date-fns"@, "luxon"@])
    } else if k == 2 {
        ("HTTP client"@, seq!["axios"@, "request"@, "got"@, "node-fetch"@, "superagent"@, "undici"@])
    } else if k == 3 {
        ("schema validation"@, seq!["joi"@, "yup"@, "zod"@, "ajv"@, "superstruct"@])
    } else if k == 4 {
        ("CLI argument parsing"@, seq!["commander"@, "yargs"@, "meow"@, "minimist"@, "arg"@])
    } else if k == 5 {
        ("UUID generation"@, seq!["uuid"@, "node-uuid"@, "nanoid"@, "cuid"@])
    } else {
        ("terminal colors"@, seq!["chalk"@, "colors"@, "picocolors"@, "colorette"@, "kleur"@, "ansi-colors"@])
    }
}

fn duplicate_group_exec(k: usize) -> (r: (Vec<char>, Vec<Vec<char>>))
    requires
        k < 7,
    ensures
        r.0@ == duplicate_group(k as int).0,
        r.1.deep_view() == duplicate_group(k as int).1,
{
    if k == 0 {
        let mut members: Vec<Vec<char>> = Vec::new();
        push_lit(&mut members, "lodash");
        push_lit(&mut members, "underscore");
        push_lit(&mut members, "ramda");
        assert(members.deep_view() =~= seq!["lodash"@, "underscore"@, "ramda"@]);
        (chars_of("utility belt"), members)
    } else if k == 1 {
        let mut members: Vec<Vec<char>> = Vec::new();
        push_lit(&mut members, "moment");
        push_lit(&mut members, "dayjs");
        push_lit(&mut members, "date-fns");
        push_lit(&mut members, "luxon");
        assert(members.deep_view() =~= seq!["moment"@, "dayjs"@, "date-fns"@, "luxon"@]);
        (chars_of("date handling"), members)
    } else if k == 2 {
        let mut members: Vec<Vec<char>> = Vec::new();
        push_lit(&mut members, "axios");
        push_lit(&mut members, "request");
        push_lit(&mut members, "got");
        push_lit(&mut members, "node-fetch");
        push_lit(&mut members, "superagent");
        push_lit(&mut members, "undici");
        assert(members.deep_view() =~= seq!["axios"@, "request"@, "got"@, "node-fetch"@, "superagent"@, "undici"@]);
        (chars_of("HTTP client"), members)
    } else if k == 3 {
        let mut members: Vec<Vec<char>> = Vec::new();
        push_lit(&mut members, "joi");
        push_lit(&mut members, "yup");
        push_lit(&mut members, "zod");
        push_lit(&mut members, "ajv");
        push_lit(&mut members, "superstruct");
        assert(members.deep_view() =~= seq!["joi"@, "yup"@, "zod"@, "ajv"@, "superstruct"@]);
        (chars_of("schema validation"), members)
    } else if k == 4 {
        let mut members: Vec<Vec<char>> = Vec::new();
        push_lit(&mut members, "commander");
        push_lit(&mut members, "yargs");
        push_lit(&mut members, "meow");
        push_lit(&mut members, "minimist");
        push_lit(&mut members, "arg");
        assert(members.deep_view() =~= seq!["commander"@, "yargs"@, "meow"@, "minimist"@, "arg"@]);
        (chars_of("CLI argument parsing"), members)
    } else if k == 5 {
        let mut members: Vec<Vec<char>> = Vec::new();
        push_lit(&mut members, "uuid");
        push_lit(&mut members, "node-uuid");
        push_lit(&mut members, "nanoid");
        push_lit(&mut members, "cuid");
        assert(members.deep_view() =~= seq!["uuid"@, "node-uuid"@, "nanoid"@, "cuid"@]);
        (chars_of("UUID generation"), members)
    } else {
        let mut members: Vec<Vec<char>> = Vec::new();
        push_lit(&mut members, "chalk");
        push_lit(&mut members, "colors");
        push_lit(&mut members, "picocolors");
        push_lit(&mut members, "colorette");
        push_lit(&mut members, "kleur");
        push_lit(&mut members, "ansi-colors");
        assert(members.deep_view() =~= seq!["chalk"@, "colors"@, "picocolors"@, "colorette"@, "kleur"@, "ansi-colors"@]);
        (chars_of("terminal colors"), members)
    }
}

/// The deprecated packages: name, since when, replacement, reason.
pub open spec fn deprecated_entry(k: int) -> (Seq<char>, Seq<char>, Seq<char>, Seq<char>) {
    if k == 0 {
        ("request"@, "2020-02"@, "native fetch (Node 18+) or undici"@, "Fully deprecated, no security patches"@)
    } else if k == 1 {
        ("node-uuid"@, "2016"@, "uuid"@, "Renamed to uuid"@)
    } else if k == 2 {
        ("nomnom"@, "2015"@, "commander or yargs"@, "Abandoned, no maintainer"@)
    } else if k == 3 {
        ("jade"@, "2016"@, "pug"@, "Renamed due to trademark"@)
    } else if k == 4 {
        ("istanbul"@, "2018"@, "nyc or c8"@, "Superseded by nyc/c8"@)
    } else if k == 5 {
        ("tslint"@, "2019"@, "@typescript-eslint/eslint-plugin"@, "Deprecated in favor of ESLint"@)
    } else if k == 6 {
        ("left-pad"@, "2016"@, "String.prototype.padStart()"@, "Native method since ES2017"@)
    } else if k == 7 {
        ("colors"@, "2022-01"@, "picocolors or chalk"@, "Maintainer injected malicious code, abandoned"@)
    } else if k == 8 {
        ("node-sass"@, "2020-10"@, "sass (Dart Sass)"@, "LibSass deprecated, no new features"@)
    } else {
        ("querystring"@, "2019"@, "URLSearchParams (native)"@, "Node.js legacy, native alternative available"@)
    }
}

fn deprecated_entry_exec(k: usize) -> (r: (Vec<char>, Vec<char>, Vec<char>, Vec<char>))
    requires
        k < 10,
    ensures
        r.0@ == deprecated_entry(k as int).0,
        r.1@ == deprecated_entry(k as int).1,
        r.2@ == deprecated_entry(k as int).2,
        r.3@ == deprecated_entry(k as int).3,
{
    if k == 0 {
        (chars_of("request"), chars_of("2020-02"), chars_of("native fetch (Node 18+) or undici"), chars_of("Fully deprecated, no security patches"))
    } else if k == 1 {
        (chars_of("node-uuid"), chars_of("2016"), chars_of("uuid"), chars_of("Renamed to uuid"))
    } else if k == 2 {
        (chars_of("nomnom"), chars_of("2015"), chars_of("commander or yargs"), chars_of("Abandoned, no maintainer"))
    } else if k == 3 {
        (chars_of("jade"), chars_of("2016"), chars_of("pug"), chars_of("Renamed due to trademark"))
    } else if k == 4 {
        (chars_of("istanbul"), chars_of("2018"), chars_of("nyc or c8"), chars_of("Superseded by nyc/c8"))
    } else if k == 5 {
        (chars_of("tslint"), chars_of("2019"), chars_of("@typescript-eslint/eslint-plugin"), chars_of("Deprecated in favor of ESLint"))
    } else if k == 6 {
        (chars_of("left-pad"), chars_of("2016"), chars_of("String.prototype.padStart()"), chars_of("Native method since ES2017"))
    } else if k == 7 {
        (chars_of("colors"), chars_of("2022-01"), chars_of("picocolors or chalk"), chars_of("Maintainer injected malicious code, abandoned"))
    } else if k == 8 {
        (chars_of("node-sass"), chars_of("2020-10"), chars_of("sass (Dart Sass)"), chars_of("LibSass deprecated, no new features"))
    } else {
        (chars_of("querystring"), chars_of("2019"), chars_of("URLSearchParams (native)"), chars_of("Node.js legacy, native alternative available"))
    }
}

// ---------------------------------------------------------------------------
// Lookups
// ---------------------------------------------------------------------------

/// The first heavy package named `name`, searching from `k`.
pub open spec fn heavy_index_from(name: Seq<char>, k: int) -> Option<int>
    decreases heavy_count() - k,
{
    if k < 0 || k >= heavy_count() {
        None
    } else if heavy_table(k).name == name {
        Some(k)
    } else {
        heavy_index_from(name, k + 1)
    }
}

/// The heavy package named `name`, if any.
pub open spec fn heavy_index(name: Seq<char>) -> Option<int> {
    heavy_index_from(name, 0)
}

pub proof fn lemma_heavy_index_from(name: Seq<char>, k: int)
    requires
        0 <= k,
    ensures
        heavy_index_from(name, k) matches Some(i) ==> k <= i < heavy_count(),
    decreases heavy_count() - k,
{
    if k < heavy_count() && heavy_table(k).name != name {
        lemma_heavy_index_from(name, k + 1);
    }
}

fn heavy_index_exec(name: &Vec<char>) -> (r: Option<usize>)
    ensures
        match r {
            Some(k) => heavy_index(name@) == Some(k as int) && k < heavy_count(),
            None => heavy_index(name@) is None,
        },
{
    let mut k: usize = 0;
    while k < 20
        invariant
            k <= 20,
            heavy_index_from(name@, k as int) == heavy_index(name@),
        decreases 20 - k,
    {
        let h = heavy_entry(k);
        if chars_eq(&h.name, name) {
            return Some(k);
        }
        k = k + 1;
    }
    None
}

/// The files the import index lists for `name`, or none.
pub open spec fn index_files(idx: Seq<(Seq<char>, Seq<Seq<char>>)>, name: Seq<char>) -> Seq<
    Seq<char>,
> {
    let k = key_position(idx, name, 0);
    if 0 <= k < idx.len() {
        idx[k].1
    } else {
        seq![]
    }
}

/// Whether the import index has an entry for `name`.
pub open spec fn is_imported(idx: Seq<(Seq<char>, Seq<Seq<char>>)>, name: Seq<char>) -> bool {
    key_position(idx, name, 0) < idx.len()
}

/// Where `name` is among the import index's keys (or the number of entries).
pub fn index_position(idx: &Vec<(String, Vec<String>)>, name: &Vec<char>) -> (r: usize)
    ensures
        r == key_position(idx.deep_view(), name@, 0),
        r <= idx@.len(),
{
    let ghost d = idx.deep_view();
    proof {
        lemma_key_position(d, name@, 0);
    }
    let mut k: usize = 0;
    while k < idx.len()
        invariant
            k <= idx@.len(),
            d == idx.deep_view(),
            key_position(d, name@, k as int) == key_position(d, name@, 0),
        decreases idx@.len() - k,
    {
        let key = chars_of(idx[k].0.as_str());
        assert(d[k as int].0 == key@);
        if chars_eq(&key, name) {
            return k;
        }
        k = k + 1;
    }
    k
}

/// Where the source file with this path is (or the number of files).
fn source_position(sources: &Vec<crate::project_scanner::SourceFile>, path: &Vec<char>) -> (r: usize)
    ensures
        r == key_position(sources.deep_view(), path@, 0),
        r <= sources@.len(),
{
    let ghost d = sources.deep_view();
    proof {
        lemma_key_position(d, path@, 0);
    }
    let mut k: usize = 0;
    while k < sources.len()
        invariant
            k <= sources@.len(),
            d == sources.deep_view(),
            key_position(d, path@, k as int) == key_position(d, path@, 0),
        decreases sources@.len() - k,
    {
        let key = chars_of(sources[k].relative_path.as_str());
        assert(d[k as int].0 == key@);
        if chars_eq(&key, path) {
            return k;
        }
        k = k + 1;
    }
    k
}

/// `s` with `x` at the end unless `s` holds it already.
pub open spec fn add_new(s: Seq<Seq<char>>, x: Seq<char>) -> Seq<Seq<char>> {
    if s.contains(x) {
        s
    } else {
        s.push(x)
    }
}

fn add_new_exec(s: &mut Vec<Vec<char>>, x: Vec<char>)
    ensures
        final(s).deep_view() == add_new(old(s).deep_view(), x@),
{
    if !contains_text(s, &x) {
        crate::push_deep(s, x);
    }
}

/// Each of `xs` added with `add_new`, in order.
pub open spec fn add_all_new(s: Seq<Seq<char>>, xs: Seq<Seq<char>>) -> Seq<Seq<char>>
    decreases xs.len(),
{
    if xs.len() == 0 {
        s
    } else {
        add_new(add_all_new(s, xs.drop_last()), xs.last())
    }
}

// ---------------------------------------------------------------------------
// Usage analysis
// ---------------------------------------------------------------------------

/// The files importing any of the first `n` names, each once, in order of
/// the names and then of the index.
pub open spec fn usage_files(
    idx: Seq<(Seq<char>, Seq<Seq<char>>)>,
    names: Seq<Seq<char>>,
    n: int,
) -> Seq<Seq<char>>
    decreases n,
{
    if n <= 0 {
        seq![]
    } else {
        add_all_new(usage_files(idx, names, n - 1), index_files(idx, names[n - 1]))
    }
}

/// The first `n` risky patterns that `content` contains, added to `found`.
pub open spec fn risky_in(found: Seq<Seq<char>>, content: Seq<char>, pats: Seq<Seq<char>>, n: int) -> Seq<
    Seq<char>,
>
    decreases n,
{
    if n <= 0 {
        found
    } else {
        let prev = risky_in(found, content, pats, n - 1);
        if contains(content, pats[n - 1]) {
            add_new(prev, pats[n - 1])
        } else {
            prev
        }
    }
}

/// The risky patterns found in the first `n` of the using files, each once.
pub open spec fn risky_found(
    files: Seq<Seq<char>>,
    sources: Seq<(Seq<char>, Seq<char>)>,
    pats: Seq<Seq<char>>,
    n: int,
) -> Seq<Seq<char>>
    decreases n,
{
    if n <= 0 {
        seq![]
    } else {
        let prev = risky_found(files, sources, pats, n - 1);
        let k = key_position(sources, files[n - 1], 0);
        if 0 <= k < sources.len() {
            risky_in(prev, sources[k].1, pats, pats.len() as int)
        } else {
            prev
        }
    }
}

/// The files that use a heavy package (none where there are no sources).
pub open spec fn spec_usage_files(p: &ProjectInfo, h: HeavyDepSpec) -> Seq<Seq<char>> {
    if p.source_files@.len() == 0 {
        seq![]
    } else {
        usage_files(p.import_index.deep_view(), h.import_names, h.import_names.len() as int)
    }
}

/// The risky patterns the using files contain.
pub open spec fn spec_risky(p: &ProjectInfo, h: HeavyDepSpec) -> Seq<Seq<char>> {
    let files = spec_usage_files(p, h);
    if files.len() == 0 {
        seq![]
    } else {
        risky_found(files, p.source_files.deep_view(), h.risky_patterns, files.len() as int)
    }
}

fn usage_files_exec(project: &ProjectInfo, h: &HeavyDep) -> (r: Vec<Vec<char>>)
    ensures
        r.deep_view() == spec_usage_files(project, h.deep_view()),
{
    let mut out: Vec<Vec<char>> = Vec::new();
    if project.source_files.len() == 0 {
        return out;
    }
    let ghost idx = project.import_index.deep_view();
    let ghost names = h.import_names.deep_view();
    let n = h.import_names.len();
    for i in 0..n
        invariant
            n == h.import_names@.len(),
            idx == project.import_index.deep_view(),
            names == h.import_names.deep_view(),
            out.deep_view() == usage_files(idx, names, i as int),
    {
        let name = &h.import_names[i];
        assert(names[i as int] == name@);
        let k = index_position(&project.import_index, name);
        let ghost before = out.deep_view();
        if k < project.import_index.len() {
            let files = crate::eco_checks::docker_waste::chars_of_all(&project.import_index[k].1);
            assert(idx[k as int].1 == files.deep_view());
            let ghost fd = files.deep_view();
            let m = files.len();
            for j in 0..m
                invariant
                    m == files@.len(),
                    fd == files.deep_view(),
                    out.deep_view() == add_all_new(before, fd.take(j as int)),
            {
                assert(fd.take(j + 1).drop_last() =~= fd.take(j as int));
                assert(fd[j as int] == files@[j as int]@);
                add_new_exec(&mut out, copy_chars(&files[j]));
            }
            assert(fd.take(m as int) =~= fd);
        } else {
            assert(index_files(idx, name@) =~= Seq::<Seq<char>>::empty());
        }
    }
    out
}

fn risky_exec(project: &ProjectInfo, h: &HeavyDep, files: &Vec<Vec<char>>) -> (r: Vec<Vec<char>>)
    requires
        files.deep_view() == spec_usage_files(project, h.deep_view()),
    ensures
        r.deep_view() == spec_risky(project, h.deep_view()),
{
    let mut out: Vec<Vec<char>> = Vec::new();
    if files.len() == 0 {
        return out;
    }
    let ghost fd = files.deep_view();
    let ghost sd = project.source_files.deep_view();
    let ghost pats = h.risky_patterns.deep_view();
    let n = files.len();
    for i in 0..n
        invariant
            n == files@.len(),
            fd == files.deep_view(),
            sd == project.source_files.deep_view(),
            pats == h.risky_patterns.deep_view(),
            out.deep_view() == risky_found(fd, sd, pats, i as int),
    {
        assert(fd[i as int] == files@[i as int]@);
        let k = source_position(&project.source_files, &files[i]);
        if k < project.source_files.len() {
            let content = chars_of(project.source_files[k].content.as_str());
            assert(sd[k as int].1 == content@);
            let ghost prev = out.deep_view();
            let m = h.risky_patterns.len();
            for j in 0..m
                invariant
                    m == h.risky_patterns@.len(),
                    pats == h.risky_patterns.deep_view(),
                    out.deep_view() == risky_in(prev, content@, pats, j as int),
            {
                let pat = &h.risky_patterns[j];
                assert(pats[j as int] == pat@);
                if contains_exec(&content, pat) {
                    add_new_exec(&mut out, copy_chars(pat));
                }
            }
        }
    }
    out
}

// ---------------------------------------------------------------------------
// Heavy dependencies
// ---------------------------------------------------------------------------

/// The verdict label and the note of a heavy package's usage.
pub open spec fn usage_label(n_sources: nat, files: Seq<Seq<char>>, risky: Seq<Seq<char>>) -> Seq<
    char,
> {
    if n_sources == 0 {
        "check usage before replacing"@
    } else if files.len() == 0 {
        "NOT IMPORTED -- safe to remove"@
    } else if risky.len() == 0 {
        "SAFE to replace"@
    } else {
        "PARTIAL -- some usage needs attention"@
    }
}

pub open spec fn usage_note(
    h: HeavyDepSpec,
    n_sources: nat,
    files: Seq<Seq<char>>,
    risky: Seq<Seq<char>>,
) -> Seq<char> {
    if n_sources == 0 {
        if h.risky_patterns.len() == 0 {
            h.safe_note
        } else {
            "No .js/.ts files found to analyze. "@ + h.safe_note
        }
    } else if files.len() == 0 {
        "Installed but not imported in any source file. Safe to remove entirely, or replace with lighter alternative."@
    } else if risky.len() == 0 {
        h.safe_note
    } else {
        h.risky_note + " Detected: "@ + join(risky, ", "@)
    }
}

/// The files shown: at most three, and how many more there are.
pub open spec fn files_info(files: Seq<Seq<char>>) -> Seq<char> {
    if files.len() > 0 {
        " Used in "@ + decimal(files.len()) + " file(s): "@ + join(
            files.take(
                if files.len() < 3 {
                    files.len() as int
                } else {
                    3
                },
            ),
            ", "@,
        ) + (if files.len() > 3 {
            " +"@ + decimal((files.len() - 3) as nat) + " more"@
        } else {
            seq![]
        }) + "."@
    } else {
        seq![]
    }
}

/// `a - b`, or 0 where `b` is larger.
pub open spec fn saturating_sub(a: u64, b: u64) -> u64 {
    if a >= b {
        (a - b) as u64
    } else {
        0
    }
}

/// The finding for dependency `dep_name`, the heavy package `h`.
pub open spec fn heavy_finding(
    dep_name: Seq<char>,
    h: HeavyDepSpec,
    n_sources: nat,
    files: Seq<Seq<char>>,
    risky: Seq<Seq<char>>,
) -> FindingView {
    let delta = saturating_sub(h.size_kb, h.alt_size_kb);
    finding(
        FindingCategory::HeavyDependency,
        "Heavy dependency: "@ + dep_name + " (~"@ + decimal(h.size_kb as nat) + "KB) -- "@
            + usage_label(n_sources, files, risky),
        "Consider: "@ + h.alternative + " (~"@ + decimal(h.alt_size_kb as nat) + "KB). Delta: "@
            + decimal(delta as nat) + "KB."@ + files_info(files) + " "@ + usage_note(
            h,
            n_sources,
            files,
            risky,
        ),
        (delta * 1024) as u64,
        Some("package.json"@),
        None,
    )
}

/// The heavy-package finding of one dependency, where it is one.
pub open spec fn dep_heavy_findings(p: &ProjectInfo, dep_name: Seq<char>) -> Seq<FindingView> {
    match heavy_index(dep_name) {
        None => seq![],
        Some(k) => {
            let h = heavy_table(k);
            seq![
                heavy_finding(
                    dep_name,
                    h,
                    p.source_files@.len(),
                    spec_usage_files(p, h),
                    spec_risky(p, h),
                ),
            ]
        },
    }
}

/// The heavy-package findings of the first `n` dependencies.
pub open spec fn heavy_findings(p: &ProjectInfo, deps: Seq<(Seq<char>, Seq<char>)>, n: int) -> Seq<
    FindingView,
>
    decreases n,
{
    if n <= 0 {
        seq![]
    } else {
        heavy_findings(p, deps, n - 1) + dep_heavy_findings(p, deps[n - 1].0)
    }
}

#[verifier::spinoff_prover]
#[verifier::rlimit(40)]
fn heavy_finding_exec(project: &ProjectInfo, dep_name: &Vec<char>, h: &HeavyDep) -> (f: Finding)
    requires
        h.size_kb <= 15000,
    ensures
        f.deep_view() == heavy_finding(
            dep_name@,
            h.deep_view(),
            project.source_files@.len(),
            spec_usage_files(project, h.deep_view()),
            spec_risky(project, h.deep_view()),
        ),
{
    let files = usage_files_exec(project, h);
    let risky = risky_exec(project, h, &files);
    let nsrc = project.source_files.len();
    let delta = if h.size_kb >= h.alt_size_kb {
        h.size_kb - h.alt_size_kb
    } else {
        0
    };
    let ghost hv = h.deep_view();
    let ghost rd = risky.deep_view();
    let mut title = chars_of("Heavy dependency: ");
    push_all(&mut title, dep_name);
    push_str(&mut title, " (~");
    push_decimal(&mut title, h.size_kb);
    push_str(&mut title, "KB) -- ");
    if nsrc == 0 {
        push_str(&mut title, "check usage before replacing");
    } else if files.len() == 0 {
        push_str(&mut title, "NOT IMPORTED -- safe to remove");
    } else if risky.len() == 0 {
        push_str(&mut title, "SAFE to replace");
    } else {
        push_str(&mut title, "PARTIAL -- some usage needs attention");
    }
    assert(title@ =~= "Heavy dependency: "@ + dep_name@ + " (~"@ + decimal(h.size_kb as nat)
        + "KB) -- "@ + usage_label(nsrc as nat, files.deep_view(), risky.deep_view()));
    let mut detail = chars_of("Consider: ");
    push_all(&mut detail, &h.alternative);
    push_str(&mut detail, " (~");
    push_decimal(&mut detail, h.alt_size_kb);
    push_str(&mut detail, "KB). Delta: ");
    push_decimal(&mut detail, delta);
    push_str(&mut detail, "KB.");
    let ghost fd = files.deep_view();
    let ghost before_info = detail@;
    if files.len() > 0 {
        push_str(&mut detail, " Used in ");
        push_decimal(&mut detail, files.len() as u64);
        push_str(&mut detail, " file(s): ");
        let shown_n = if files.len() < 3 {
            files.len()
        } else {
            3
        };
        let mut shown: Vec<Vec<char>> = Vec::new();
        for j in 0..shown_n
            invariant
                shown_n <= files@.len(),
                fd == files.deep_view(),
                shown.deep_view() == fd.take(j as int),
        {
            assert(fd[j as int] == files@[j as int]@);
            crate::push_deep(&mut shown, copy_chars(&files[j]));
            assert(shown.deep_view() =~= fd.take(j + 1));
        }
        let joined = join_exec(&shown, ", ");
        push_all(&mut detail, &joined);
        if files.len() > 3 {
            push_str(&mut detail, " +");
            push_decimal(&mut detail, (files.len() - 3) as u64);
            push_str(&mut detail, " more");
        }
        push_str(&mut detail, ".");
    }
    assert(detail@ =~= before_info + files_info(fd));
    push_str(&mut detail, " ");
    let ghost before_note = detail@;
    if nsrc == 0 {
        if h.risky_patterns.len() == 0 {
            push_all(&mut detail, &h.safe_note);
        } else {
            push_str(&mut detail, "No .js/.ts files found to analyze. ");
            push_all(&mut detail, &h.safe_note);
        }
    } else if files.len() == 0 {
        push_str(
            &mut detail,
            "Installed but not imported in any source file. Safe to remove entirely, or replace with lighter alternative.",
        );
    } else if risky.len() == 0 {
        push_all(&mut detail, &h.safe_note);
    } else {
        push_all(&mut detail, &h.risky_note);
        push_str(&mut detail, " Detected: ");
        let joined = join_exec(&risky, ", ");
        push_all(&mut detail, &joined);
    }
    assert(detail@ =~= before_note + usage_note(hv, nsrc as nat, fd, rd));
    let f = make_finding(
        FindingCategory::HeavyDependency,
        title,
        detail,
        delta * 1024,
        Some(chars_of("package.json")),
        None,
    );
    assert(f.deep_view() == heavy_finding(
        dep_name@,
        h.deep_view(),
        project.source_files@.len(),
        spec_usage_files(project, h.deep_view()),
        spec_risky(project, h.deep_view()),
    ));
    f
}

// ---------------------------------------------------------------------------
// Phantom dependencies
// ---------------------------------------------------------------------------

/// A type-definition package (`@types/..`).
pub open spec fn is_types_pkg(name: Seq<char>) -> bool {
    starts_with(name, "@types/"@)
}

/// The first `n` dependencies that no source file imports (type packages aside).
pub open spec fn phantom_candidates(
    deps: Seq<(Seq<char>, Seq<char>)>,
    idx: Seq<(Seq<char>, Seq<Seq<char>>)>,
    n: int,
) -> Seq<Seq<char>>
    decreases n,
{
    if n <= 0 {
        seq![]
    } else {
        let prev = phantom_candidates(deps, idx, n - 1);
        let name = deps[n - 1].0;
        if !is_types_pkg(name) && !is_imported(idx, name) {
            prev.push(name)
        } else {
            prev
        }
    }
}

/// The first `n` dependencies that some source file imports (type packages aside).
pub open spec fn imported_deps(
    deps: Seq<(Seq<char>, Seq<char>)>,
    idx: Seq<(Seq<char>, Seq<Seq<char>>)>,
    n: int,
) -> Seq<Seq<char>>
    decreases n,
{
    if n <= 0 {
        seq![]
    } else {
        let prev = imported_deps(deps, idx, n - 1);
        let name = deps[n - 1].0;
        if !is_types_pkg(name) && is_imported(idx, name) {
            prev.push(name)
        } else {
            prev
        }
    }
}

/// The text of the installed manifest of `name`, where one was read.
pub open spec fn manifest_text(manifests: Seq<(Seq<char>, Seq<char>)>, name: Seq<char>) -> Option<
    Seq<char>,
> {
    let k = key_position(manifests, name, 0);
    if 0 <= k < manifests.len() {
        Some(manifests[k].1)
    } else {
        None
    }
}

/// The keys of JSON members.
pub open spec fn member_keys(m: Seq<(Seq<char>, Option<Seq<char>>)>) -> Seq<Seq<char>> {
    Seq::new(m.len(), |i: int| m[i].0)
}

/// The packages an installed manifest requires: its peer dependencies and
/// its dependencies, where these are objects (none where the text is no JSON).
pub open spec fn manifest_requirements(text: Seq<char>) -> Seq<Seq<char>> {
    match json_object_members(text, "peerDependencies"@) {
        None => seq![],
        Some(peers) => member_keys(members_or_empty(peers)) + match json_object_members(
            text,
            "dependencies"@,
        ) {
            None => seq![],
            Some(d) => member_keys(members_or_empty(d)),
        },
    }
}

/// What the installed manifests of the first `n` imported packages require.
pub open spec fn requirements_of(
    manifests: Seq<(Seq<char>, Seq<char>)>,
    imported: Seq<Seq<char>>,
    n: int,
) -> Seq<Seq<char>>
    decreases n,
{
    if n <= 0 {
        seq![]
    } else {
        requirements_of(manifests, imported, n - 1) + match manifest_text(
            manifests,
            imported[n - 1],
        ) {
            Some(t) => manifest_requirements(t),
            None => seq![],
        }
    }
}

/// The packages that imported packages need as peers or dependencies
/// (none where `node_modules/` is absent).
pub open spec fn peer_required(p: &ProjectInfo, imported: Seq<Seq<char>>) -> Seq<Seq<char>> {
    if !p.has_node_modules {
        seq![]
    } else {
        requirements_of(p.installed_manifests.deep_view(), imported, imported.len() as int)
    }
}

/// The phantom findings among the first `n` candidates.
pub open spec fn phantom_list(
    cands: Seq<Seq<char>>,
    heavy_names: Seq<Seq<char>>,
    required: Seq<Seq<char>>,
    n_sources: nat,
    n: int,
) -> Seq<FindingView>
    decreases n,
{
    if n <= 0 {
        seq![]
    } else {
        let prev = phantom_list(cands, heavy_names, required, n_sources, n - 1);
        let name = cands[n - 1];
        if heavy_names.contains(name) || required.contains(name) {
            prev
        } else {
            prev.push(
                finding(
                    FindingCategory::NodePhantom,
                    "Phantom dependency: "@ + name,
                    "'"@ + name + "' is listed in dependencies but not imported in "@ + decimal(
                        n_sources,
                    )
                        + " source file(s) and not found as a peer/transitive dependency of any imported package. Likely removable. Note: dynamic requires or config-only usage may not be detected."@,
                    0,
                    Some("package.json"@),
                    None,
                ),
            )
        }
    }
}

/// Dependencies that no source imports, that are no heavy package already
/// reported and that no imported package requires.
pub open spec fn spec_phantom_findings(
    p: &ProjectInfo,
    heavy_names: Seq<Seq<char>>,
    required: Seq<Seq<char>>,
) -> Seq<FindingView> {
    match p.package_json.deep_view() {
        None => seq![],
        Some(pkg) => if p.source_files@.len() == 0 {
            seq![]
        } else {
            let c = phantom_candidates(pkg.0, p.import_index.deep_view(), pkg.0.len() as int);
            phantom_list(c, heavy_names, required, p.source_files@.len(), c.len() as int)
        },
    }
}

/// The imported dependencies and dev dependencies of a project.
pub open spec fn imported_names(p: &ProjectInfo) -> Seq<Seq<char>> {
    match p.package_json.deep_view() {
        None => seq![],
        Some(pkg) => imported_deps(pkg.0, p.import_index.deep_view(), pkg.0.len() as int)
            + imported_deps(pkg.1, p.import_index.deep_view(), pkg.1.len() as int),
    }
}

fn dep_filter_exec(deps: &Vec<(String, String)>, idx: &Vec<(String, Vec<String>)>, imported: bool) -> (r: Vec<Vec<char>>)
    ensures
        imported ==> r.deep_view() == imported_deps(deps.deep_view(), idx.deep_view(), deps@.len() as int),
        !imported ==> r.deep_view() == phantom_candidates(deps.deep_view(), idx.deep_view(), deps@.len() as int),
{
    let ghost dd = deps.deep_view();
    let mut out: Vec<Vec<char>> = Vec::new();
    let n = deps.len();
    for i in 0..n
        invariant
            n == deps@.len(),
            dd == deps.deep_view(),
            imported ==> out.deep_view() == imported_deps(dd, idx.deep_view(), i as int),
            !imported ==> out.deep_view() == phantom_candidates(dd, idx.deep_view(), i as int),
    {
        let name = chars_of(deps[i].0.as_str());
        assert(dd[i as int].0 == name@);
        let k = index_position(idx, &name);
        let is_imp = k < idx.len();
        if !begins(&name, "@types/") && is_imp == imported {
            crate::push_deep(&mut out, name);
        }
    }
    out
}

/// What the installed manifests of the imported packages require.
fn peer_requirements(project: &ProjectInfo, imported: &Vec<Vec<char>>) -> (r: Vec<Vec<char>>)
    ensures
        r.deep_view() == peer_required(project, imported.deep_view()),
{
    let mut out: Vec<Vec<char>> = Vec::new();
    if !project.has_node_modules {
        return out;
    }
    let ghost md = project.installed_manifests.deep_view();
    let ghost imd = imported.deep_view();
    let n = imported.len();
    for i in 0..n
        invariant
            n == imported@.len(),
            md == project.installed_manifests.deep_view(),
            imd == imported.deep_view(),
            out.deep_view() == requirements_of(md, imd, i as int),
    {
        let name = &imported[i];
        assert(imd[i as int] == name@);
        proof {
            lemma_key_position(md, name@, 0);
        }
        let mut k: usize = 0;
        while k < project.installed_manifests.len()
            invariant
                k <= md.len(),
                md == project.installed_manifests.deep_view(),
                key_position(md, name@, k as int) == key_position(md, name@, 0),
            ensures
                k <= md.len(),
                key_position(md, name@, 0) == k,
            decreases md.len() - k,
        {
            let key = chars_of(project.installed_manifests[k].0.as_str());
            assert(md[k as int].0 == key@);
            if chars_eq(&key, name) {
                break ;
            }
            k = k + 1;
        }
        let ghost before = out.deep_view();
        if k < project.installed_manifests.len() {
            let text = project.installed_manifests[k].1.as_str();
            assert(md[k as int].1 == text@);
            match object_members(text, "peerDependencies") {
                None => {
                    assert(before + Seq::<Seq<char>>::empty() =~= before);
                },
                Some(peers_obj) => {
                    let peers = members_or_empty_exec(peers_obj);
                    let ghost pd = peers.deep_view();
                    let m = peers.len();
                    for j in 0..m
                        invariant
                            m == peers@.len(),
                            pd == peers.deep_view(),
                            out.deep_view() == before + member_keys(pd).take(j as int),
                    {
                        assert(pd[j as int] == peers@[j as int].deep_view());
                        crate::push_deep(&mut out, chars_of(peers[j].0.as_str()));
                        assert(out.deep_view() =~= before + member_keys(pd).take(j + 1));
                    }
                    assert(member_keys(pd).take(m as int) =~= member_keys(pd));
                    let ghost mid = out.deep_view();
                    match object_members(text, "dependencies") {
                        None => {
                            assert(mid + Seq::<Seq<char>>::empty() =~= mid);
                        },
                        Some(d_obj) => {
                            let d = members_or_empty_exec(d_obj);
                            let ghost ddv = d.deep_view();
                            let q = d.len();
                            for j in 0..q
                                invariant
                                    q == d@.len(),
                                    ddv == d.deep_view(),
                                    out.deep_view() == mid + member_keys(ddv).take(j as int),
                            {
                                assert(ddv[j as int] == d@[j as int].deep_view());
                                crate::push_deep(&mut out, chars_of(d[j].0.as_str()));
                                assert(out.deep_view() =~= mid + member_keys(ddv).take(j + 1));
                            }
                            assert(member_keys(ddv).take(q as int) =~= member_keys(ddv));
                        },
                    }
                    assert(out.deep_view() =~= before + manifest_requirements(text@));
                },
            }
        } else {
            assert(before + Seq::<Seq<char>>::empty() =~= before);
        }
    }
    out
}

/// The phantom findings, given the heavy dependency names and the packages
/// that imported packages require.
pub fn phantom_findings_from(
    project: &ProjectInfo,
    heavy_names: &Vec<Vec<char>>,
    required: &Vec<Vec<char>>,
) -> (r: Vec<Finding>)
    ensures
        r.deep_view() == spec_phantom_findings(
            project,
            heavy_names.deep_view(),
            required.deep_view(),
        ),
{
    let mut out: Vec<Finding> = Vec::new();
    let pkg = match &project.package_json {
        None => {
            return out;
        },
        Some(p) => p,
    };
    if project.source_files.len() == 0 {
        return out;
    }
    let cands = dep_filter_exec(&pkg.dependencies, &project.import_index, false);
    let ghost cd = cands.deep_view();
    let nsrc = project.source_files.len();
    let n = cands.len();
    for i in 0..n
        invariant
            n == cands@.len(),
            cd == cands.deep_view(),
            nsrc == project.source_files@.len(),
            out.deep_view() == phantom_list(
                cd,
                heavy_names.deep_view(),
                required.deep_view(),
                nsrc as nat,
                i as int,
            ),
    {
        let name = &cands[i];
        assert(cd[i as int] == name@);
        if !contains_text(heavy_names, name) && !contains_text(required, name) {
            let mut title = chars_of("Phantom dependency: ");
            push_all(&mut title, name);
            let mut detail = chars_of("'");
            push_all(&mut detail, name);
            push_str(&mut detail, "' is listed in dependencies but not imported in ");
            push_decimal(&mut detail, nsrc as u64);
            push_str(
                &mut detail,
                " source file(s) and not found as a peer/transitive dependency of any imported package. Likely removable. Note: dynamic requires or config-only usage may not be detected.",
            );
            let f = make_finding(
                FindingCategory::NodePhantom,
                title,
                detail,
                0,
                Some(chars_of("package.json")),
                None,
            );
            push_finding(&mut out, f);
        }
    }
    out
}

/// The phantom findings, with the requirements read from the installed
/// manifests of the imported packages.
pub open spec fn phantom_findings(p: &ProjectInfo, heavy_names: Seq<Seq<char>>) -> Seq<FindingView> {
    spec_phantom_findings(p, heavy_names, peer_required(p, imported_names(p)))
}

fn check_phantom_deps(project: &ProjectInfo, heavy_names: &Vec<Vec<char>>, findings: &mut Vec<Finding>)
    ensures
        final(findings).deep_view() == old(findings).deep_view() + phantom_findings(
            project,
            heavy_names.deep_view(),
        ),
{
    let pkg = match &project.package_json {
        None => {
            assert(old(findings).deep_view() + Seq::<FindingView>::empty() =~= old(
                findings,
            ).deep_view());
            return ;
        },
        Some(p) => p,
    };
    if project.source_files.len() == 0 {
        assert(old(findings).deep_view() + Seq::<FindingView>::empty() =~= old(
            findings,
        ).deep_view());
        return ;
    }
    let cands = dep_filter_exec(&pkg.dependencies, &project.import_index, false);
    if cands.len() == 0 {
        assert(old(findings).deep_view() + Seq::<FindingView>::empty() =~= old(
            findings,
        ).deep_view());
        return ;
    }
    let mut imported = dep_filter_exec(&pkg.dependencies, &project.import_index, true);
    let mut imported_dev = dep_filter_exec(&pkg.dev_dependencies, &project.import_index, true);
    let ghost a = imported.deep_view();
    let ghost b = imported_dev.deep_view();
    let ghost araw = imported@;
    let ghost braw = imported_dev@;
    imported.append(&mut imported_dev);
    assert(imported.deep_view() =~= a + b) by {
        assert forall|q: int| 0 <= q < imported@.len() implies imported.deep_view()[q] == (a
            + b)[q] by {
            if q < araw.len() {
                assert(imported@[q] == araw[q]);
            } else {
                assert(imported@[q] == braw[q - araw.len()]);
            }
        }
    }
    let required = peer_requirements(project, &imported);
    let found = phantom_findings_from(project, heavy_names, &required);
    append_findings(findings, found);
}

// ---------------------------------------------------------------------------
// Duplicate and deprecated packages
// ---------------------------------------------------------------------------

/// The distinct names among the first `n` that belong to the group, in
/// order of first appearance.
pub open spec fn group_found(names: Seq<Seq<char>>, members: Seq<Seq<char>>, n: int) -> Seq<
    Seq<char>,
>
    decreases n,
{
    if n <= 0 {
        seq![]
    } else {
        let prev = group_found(names, members, n - 1);
        if members.contains(names[n - 1]) && !prev.contains(names[n - 1]) {
            prev.push(names[n - 1])
        } else {
            prev
        }
    }
}

/// The duplicate findings of the first `k` groups.
pub open spec fn duplicate_findings(names: Seq<Seq<char>>, k: int) -> Seq<FindingView>
    decreases k,
{
    if k <= 0 {
        seq![]
    } else {
        let prev = duplicate_findings(names, k - 1);
        let (purpose, members) = duplicate_group(k - 1);
        let found = group_found(names, members, names.len() as int);
        if found.len() >= 2 {
            prev.push(
                finding(
                    FindingCategory::NodeDuplicate,
                    "Duplicate "@ + purpose + " packages: "@ + join(found, " + "@),
                    decimal(found.len()) + " packages serve the same purpose ("@ + purpose + "): "@
                        + join(found, ", "@)
                        + ". Keep one, remove the rest to reduce node_modules size and maintenance burden."@,
                    0,
                    Some("package.json"@),
                    None,
                ),
            )
        } else {
            prev
        }
    }
}

/// The deprecated findings of the first `k` deprecated packages.
pub open spec fn deprecated_findings(names: Seq<Seq<char>>, k: int) -> Seq<FindingView>
    decreases k,
{
    if k <= 0 {
        seq![]
    } else {
        let prev = deprecated_findings(names, k - 1);
        let (name, since, replacement, reason) = deprecated_entry(k - 1);
        if names.contains(name) {
            prev.push(
                finding(
                    FindingCategory::NodeDeprecated,
                    "Deprecated package: "@ + name + " (since "@ + since + ")"@,
                    "'"@ + name + "' is deprecated: "@ + reason + ". Replace with: "@ + replacement
                        + "."@,
                    0,
                    Some("package.json"@),
                    None,
                ),
            )
        } else {
            prev
        }
    }
}

fn check_duplicate_deps(names: &Vec<Vec<char>>, findings: &mut Vec<Finding>)
    ensures
        final(findings).deep_view() == old(findings).deep_view() + duplicate_findings(
            names.deep_view(),
            7,
        ),
{
    let ghost nd = names.deep_view();
    let ghost start = findings.deep_view();
    for k in 0..7
        invariant
            nd == names.deep_view(),
            findings.deep_view() == start + duplicate_findings(nd, k as int),
    {
        let (purpose, members) = duplicate_group_exec(k);
        let mut found: Vec<Vec<char>> = Vec::new();
        let n = names.len();
        for i in 0..n
            invariant
                n == names@.len(),
                nd == names.deep_view(),
                found.deep_view() == group_found(nd, members.deep_view(), i as int),
        {
            assert(nd[i as int] == names@[i as int]@);
            if contains_text(&members, &names[i]) && !contains_text(&found, &names[i]) {
                crate::push_deep(&mut found, copy_chars(&names[i]));
            }
        }
        let ghost before = findings.deep_view();
        if found.len() >= 2 {
            let mut title = chars_of("Duplicate ");
            push_all(&mut title, &purpose);
            push_str(&mut title, " packages: ");
            let j1 = join_exec(&found, " + ");
            push_all(&mut title, &j1);
            let mut detail: Vec<char> = Vec::new();
            push_decimal(&mut detail, found.len() as u64);
            push_str(&mut detail, " packages serve the same purpose (");
            push_all(&mut detail, &purpose);
            push_str(&mut detail, "): ");
            let j2 = join_exec(&found, ", ");
            push_all(&mut detail, &j2);
            push_str(
                &mut detail,
                ". Keep one, remove the rest to reduce node_modules size and maintenance burden.",
            );
            let f = make_finding(
                FindingCategory::NodeDuplicate,
                title,
                detail,
                0,
                Some(chars_of("package.json")),
                None,
            );
            push_finding(findings, f);
        }
        assert(findings.deep_view() =~= start + duplicate_findings(nd, k + 1));
    }
}

fn check_deprecated_deps(names: &Vec<Vec<char>>, findings: &mut Vec<Finding>)
    ensures
        final(findings).deep_view() == old(findings).deep_view() + deprecated_findings(
            names.deep_view(),
            10,
        ),
{
    let ghost nd = names.deep_view();
    let ghost start = findings.deep_view();
    for k in 0..10
        invariant
            nd == names.deep_view(),
            findings.deep_view() == start + deprecated_findings(nd, k as int),
    {
        let (name, since, replacement, reason) = deprecated_entry_exec(k);
        if contains_text(names, &name) {
            let mut title = chars_of("Deprecated package: ");
            push_all(&mut title, &name);
            push_str(&mut title, " (since ");
            push_all(&mut title, &since);
            push_str(&mut title, ")");
            let mut detail = chars_of("'");
            push_all(&mut detail, &name);
            push_str(&mut detail, "' is deprecated: ");
            push_all(&mut detail, &reason);
            push_str(&mut detail, ". Replace with: ");
            push_all(&mut detail, &replacement);
            push_str(&mut detail, ".");
            let f = make_finding(
                FindingCategory::NodeDeprecated,
                title,
                detail,
                0,
                Some(chars_of("package.json")),
                None,
            );
            push_finding(findings, f);
        }
        assert(findings.deep_view() =~= start + deprecated_findings(nd, k + 1));
    }
}

// ---------------------------------------------------------------------------
// The check
// ---------------------------------------------------------------------------

/// The names of the first `n` dependencies that are known heavy packages.
pub open spec fn heavy_dep_names(all: Seq<(Seq<char>, Seq<char>)>, n: int) -> Seq<Seq<char>>
    decreases n,
{
    if n <= 0 {
        seq![]
    } else if heavy_index(all[n - 1].0) is Some {
        heavy_dep_names(all, n - 1).push(all[n - 1].0)
    } else {
        heavy_dep_names(all, n - 1)
    }
}

/// The names of the dependencies.
pub open spec fn dep_names(all: Seq<(Seq<char>, Seq<char>)>) -> Seq<Seq<char>> {
    Seq::new(all.len(), |i: int| all[i].0)
}

/// All npm findings of a project with a `package.json`: heavy packages (in
/// dependency order, dependencies before dev dependencies), phantom
/// dependencies, duplicate groups and deprecated packages.
pub open spec fn spec_heavy_deps_findings(p: &ProjectInfo) -> Seq<FindingView> {
    match p.package_json.deep_view() {
        None => seq![],
        Some(pkg) => {
            let all = pkg.0 + pkg.1;
            heavy_findings(p, all, all.len() as int) + phantom_findings(
                p,
                heavy_dep_names(all, all.len() as int),
            ) + duplicate_findings(dep_names(all), 7) + deprecated_findings(dep_names(all), 10)
        },
    }
}

/// Reports heavy, phantom, duplicate and deprecated npm dependencies.
pub fn check(project: &ProjectInfo, findings: &mut Vec<Finding>)
    ensures
        final(findings).deep_view() == old(findings).deep_view() + spec_heavy_deps_findings(
            project,
        ),
{
    let pkg = match &project.package_json {
        None => {
            assert(old(findings).deep_view() + Seq::<FindingView>::empty() =~= old(
                findings,
            ).deep_view());
            return ;
        },
        Some(p) => p,
    };
    let ghost all = pkg.dependencies.deep_view() + pkg.dev_dependencies.deep_view();
    let mut names: Vec<Vec<char>> = Vec::new();
    let a = pkg.dependencies.len();
    let b = pkg.dev_dependencies.len();
    for i in 0..a
        invariant
            a == pkg.dependencies@.len(),
            all == pkg.dependencies.deep_view() + pkg.dev_dependencies.deep_view(),
            names.deep_view() == dep_names(all).take(i as int),
    {
        assert(all[i as int] == pkg.dependencies.deep_view()[i as int]);
        crate::push_deep(&mut names, chars_of(pkg.dependencies[i].0.as_str()));
        assert(names.deep_view() =~= dep_names(all).take(i + 1));
    }
    for i in 0..b
        invariant
            a == pkg.dependencies@.len(),
            b == pkg.dev_dependencies@.len(),
            all == pkg.dependencies.deep_view() + pkg.dev_dependencies.deep_view(),
            names.deep_view() == dep_names(all).take(a + i),
    {
        assert(all[a + i] == pkg.dev_dependencies.deep_view()[i as int]);
        crate::push_deep(&mut names, chars_of(pkg.dev_dependencies[i].0.as_str()));
        assert(names.deep_view() =~= dep_names(all).take(a + i + 1));
    }
    assert(dep_names(all).take(a + b) =~= dep_names(all));
    let ghost nd = names.deep_view();
    let ghost start = findings.deep_view();
    let mut heavy_names: Vec<Vec<char>> = Vec::new();
    let total = names.len();
    for i in 0..total
        invariant
            total == names@.len(),
            nd == names.deep_view(),
            nd == dep_names(all),
            total == all.len(),
            findings.deep_view() == start + heavy_findings(project, all, i as int),
            heavy_names.deep_view() == heavy_dep_names(all, i as int),
    {
        let name = &names[i];
        assert(nd[i as int] == name@);
        assert(all[i as int].0 == name@);
        match heavy_index_exec(name) {
            None => {
                assert(findings.deep_view() =~= start + heavy_findings(project, all, i + 1));
            },
            Some(k) => {
                let h = heavy_entry(k);
                assert(heavy_table(k as int).size_kb <= 15000);
                let f = heavy_finding_exec(project, name, &h);
                push_finding(findings, f);
                crate::push_deep(&mut heavy_names, copy_chars(name));
                assert(findings.deep_view() =~= start + heavy_findings(project, all, i + 1));
            },
        }
    }
    check_phantom_deps(project, &heavy_names, findings);
    check_duplicate_deps(&names, findings);
    check_deprecated_deps(&names, findings);
    assert(findings.deep_view() =~= old(findings).deep_view() + spec_heavy_deps_findings(project));
}


// ---------------------------------------------------------------------------
// Laws
// ---------------------------------------------------------------------------

proof fn lemma_add_all_new(s: Seq<Seq<char>>, xs: Seq<Seq<char>>)
    requires
        s.no_duplicates(),
    ensures
        add_all_new(s, xs).no_duplicates(),
        forall|x: Seq<char>| #[trigger] add_all_new(s, xs).contains(x) <==> (s.contains(x) || xs.contains(x)),
    decreases xs.len(),
{
    if xs.len() > 0 {
        let d = xs.drop_last();
        lemma_add_all_new(s, d);
        let prev = add_all_new(s, d);
        let y = xs.last();
        if !prev.contains(y) {
            let r = prev.push(y);
            assert forall|i: int, j: int| 0 <= i < r.len() && 0 <= j < r.len() && i != j implies r[i]
                != r[j] by {
                if i < prev.len() && j < prev.len() {
                    assert(r[i] == prev[i] && r[j] == prev[j]);
                } else if i < prev.len() {
                    assert(r[i] == prev[i]);
                } else {
                    assert(r[j] == prev[j]);
                }
            }
        }
        assert forall|x: Seq<char>| #[trigger] add_all_new(s, xs).contains(x) <==> (s.contains(x)
            || xs.contains(x)) by {
            let r = add_all_new(s, xs);
            if r.contains(x) && !prev.contains(x) {
                assert(x == y);
                assert(xs[xs.len() - 1] == x);
            }
            if prev.contains(x) {
                let w = choose|w: int| 0 <= w < prev.len() && prev[w] == x;
                if !prev.contains(y) {
                    assert(r[w] == x);
                }
            }
            if d.contains(x) {
                let w = choose|w: int| 0 <= w < d.len() && d[w] == x;
                assert(xs[w] == x);
            }
            if xs.contains(x) && x != y {
                let w = choose|w: int| 0 <= w < xs.len() && xs[w] == x;
                assert(d[w] == x);
            }
            if x == y && !prev.contains(y) {
                assert(r[prev.len() as int] == x);
            }
        }
    }
}

/// The files found to use a heavy package are listed once each, and they
/// are exactly the files the import index lists under any of its import
/// names.
pub proof fn law_usage_files_exact(idx: Seq<(Seq<char>, Seq<Seq<char>>)>, names: Seq<Seq<char>>, n: int)
    requires
        0 <= n <= names.len(),
    ensures
        usage_files(idx, names, n).no_duplicates(),
        forall|x: Seq<char>| #[trigger] usage_files(idx, names, n).contains(x) <==> exists|k: int|
            0 <= k < n && #[trigger] index_files(idx, names[k]).contains(x),
    decreases n,
{
    if n > 0 {
        law_usage_files_exact(idx, names, n - 1);
        let prev = usage_files(idx, names, n - 1);
        lemma_add_all_new(prev, index_files(idx, names[n - 1]));
        assert forall|x: Seq<char>| #[trigger] usage_files(idx, names, n).contains(x) <==> exists|k: int|
            0 <= k < n && #[trigger] index_files(idx, names[k]).contains(x) by {
            if prev.contains(x) {
                let k = choose|k: int| 0 <= k < n - 1 && #[trigger] index_files(idx, names[k]).contains(x);
                assert(index_files(idx, names[k]).contains(x));
            }
            if exists|k: int| 0 <= k < n && #[trigger] index_files(idx, names[k]).contains(x) {
                let k = choose|k: int| 0 <= k < n && #[trigger] index_files(idx, names[k]).contains(x);
                if k < n - 1 {
                    assert(prev.contains(x));
                }
            }
        }
    }
}

/// A dependency is a phantom candidate: no type package, and not imported.
pub open spec fn candidate_pred(idx: Seq<(Seq<char>, Seq<Seq<char>>)>) -> spec_fn(Seq<char>) -> bool {
    |n: Seq<char>| !is_types_pkg(n) && !is_imported(idx, n)
}

/// A candidate is reported: no heavy package already reported, and not
/// required by an imported package.
pub open spec fn reported_pred(heavy_names: Seq<Seq<char>>, required: Seq<Seq<char>>) -> spec_fn(
    Seq<char>,
) -> bool {
    |n: Seq<char>| !heavy_names.contains(n) && !required.contains(n)
}

proof fn lemma_candidates_filter(
    deps: Seq<(Seq<char>, Seq<char>)>,
    idx: Seq<(Seq<char>, Seq<Seq<char>>)>,
    n: int,
)
    requires
        0 <= n <= deps.len(),
    ensures
        phantom_candidates(deps, idx, n) == dep_names(deps).take(n).filter(candidate_pred(idx)),
    decreases n,
{
    reveal(Seq::filter);
    if n > 0 {
        lemma_candidates_filter(deps, idx, n - 1);
        assert(dep_names(deps).take(n).drop_last() =~= dep_names(deps).take(n - 1));
        assert(dep_names(deps).take(n).last() == deps[n - 1].0);
    } else {
        assert(dep_names(deps).take(n) =~= Seq::<Seq<char>>::empty());
    }
}

proof fn lemma_phantom_list(
    cands: Seq<Seq<char>>,
    heavy_names: Seq<Seq<char>>,
    required: Seq<Seq<char>>,
    n_sources: nat,
    n: int,
)
    requires
        0 <= n <= cands.len(),
    ensures
        ({
            let fs = phantom_list(cands, heavy_names, required, n_sources, n);
            let names = cands.take(n).filter(reported_pred(heavy_names, required));
            &&& fs.len() == names.len()
            &&& forall|k: int|
                0 <= k < fs.len() ==> (#[trigger] fs[k]).title == "Phantom dependency: "@ + names[k]
                    && fs[k].category == FindingCategory::NodePhantom && fs[k].file == Some(
                    "package.json"@,
                ) && fs[k].wasted_bytes == 0
        }),
    decreases n,
{
    reveal(Seq::filter);
    if n > 0 {
        lemma_phantom_list(cands, heavy_names, required, n_sources, n - 1);
        assert(cands.take(n).drop_last() =~= cands.take(n - 1));
        assert(cands.take(n).last() == cands[n - 1]);
        let fs = phantom_list(cands, heavy_names, required, n_sources, n);
        let prev = phantom_list(cands, heavy_names, required, n_sources, n - 1);
        assert forall|k: int| 0 <= k < prev.len() implies fs[k] == prev[k] by {}
    } else {
        assert(cands.take(n) =~= Seq::<Seq<char>>::empty());
    }
}

proof fn lemma_filter_filter(s: Seq<Seq<char>>, p1: spec_fn(Seq<char>) -> bool, p2: spec_fn(Seq<char>) -> bool)
    ensures
        s.filter(p1).filter(p2) == s.filter(|x: Seq<char>| p1(x) && p2(x)),
    decreases s.len(),
{
    reveal(Seq::filter);
    if s.len() > 0 {
        lemma_filter_filter(s.drop_last(), p1, p2);
        let a = s.drop_last().filter(p1);
        if p1(s.last()) {
            assert(a.push(s.last()).drop_last() =~= a);
        }
    }
}

/// Phantom dependencies: with a `package.json` and source files to look at,
/// exactly the dependencies (not dev dependencies) that are no `@types/`
/// package, that no source imports, that are no heavy package already
/// reported and that no imported package requires are reported, one finding
/// each, in order; with no `package.json` or no source file, none is.
pub proof fn law_phantoms_exact(p: &ProjectInfo, heavy_names: Seq<Seq<char>>, required: Seq<Seq<char>>)
    ensures
        ({
            let fs = spec_phantom_findings(p, heavy_names, required);
            &&& (p.package_json is None || p.source_files@.len() == 0) ==> fs.len() == 0
            &&& (p.package_json is Some && p.source_files@.len() > 0) ==> {
                let pkg = p.package_json->0;
                let idx = p.import_index.deep_view();
                let names = dep_names(pkg.dependencies.deep_view()).filter(
                    |x: Seq<char>|
                        !is_types_pkg(x) && !is_imported(idx, x) && !heavy_names.contains(x)
                            && !required.contains(x),
                );
                &&& fs.len() == names.len()
                &&& forall|k: int|
                    0 <= k < fs.len() ==> (#[trigger] fs[k]).title == "Phantom dependency: "@
                        + names[k] && fs[k].category == FindingCategory::NodePhantom
                        && fs[k].file == Some("package.json"@) && fs[k].wasted_bytes == 0
            }
        }),
{
    match p.package_json.deep_view() {
        None => {},
        Some(pkg) => {
            if p.source_files@.len() > 0 {
                let idx = p.import_index.deep_view();
                lemma_candidates_filter(pkg.0, idx, pkg.0.len() as int);
                assert(dep_names(pkg.0).take(pkg.0.len() as int) =~= dep_names(pkg.0));
                let c = phantom_candidates(pkg.0, idx, pkg.0.len() as int);
                lemma_phantom_list(c, heavy_names, required, p.source_files@.len(), c.len() as int);
                assert(c.take(c.len() as int) =~= c);
                lemma_filter_filter(
                    dep_names(pkg.0),
                    candidate_pred(idx),
                    reported_pred(heavy_names, required),
                );
                let both = |x: Seq<char>| candidate_pred(idx)(x) && reported_pred(heavy_names, required)(x);
                let direct = |x: Seq<char>|
                    !is_types_pkg(x) && !is_imported(idx, x) && !heavy_names.contains(x)
                        && !required.contains(x);
                assert(both =~= direct);
                assert(p.package_json->0.dependencies.deep_view() == pkg.0);
            }
        },
    }
}

proof fn lemma_heavy_findings(p: &ProjectInfo, all: Seq<(Seq<char>, Seq<char>)>, n: int)
    requires
        0 <= n <= all.len(),
    ensures
        ({
            let fs = heavy_findings(p, all, n);
            let names = heavy_dep_names(all, n);
            &&& fs.len() == names.len()
            &&& forall|k: int|
                0 <= k < fs.len() ==> {
                    let h = heavy_table(heavy_index(names[k])->0);
                    &&& (#[trigger] fs[k]).category == FindingCategory::HeavyDependency
                    &&& heavy_index(names[k]) is Some
                    &&& fs[k].file == Some("package.json"@)
                    &&& fs[k].wasted_bytes == (saturating_sub(h.size_kb, h.alt_size_kb) * 1024) as u64
                    &&& fs[k].title == "Heavy dependency: "@ + names[k] + " (~"@ + decimal(
                        h.size_kb as nat,
                    ) + "KB) -- "@ + usage_label(
                        p.source_files@.len(),
                        spec_usage_files(p, h),
                        spec_risky(p, h),
                    )
                }
        }),
    decreases n,
{
    if n > 0 {
        lemma_heavy_findings(p, all, n - 1);
        let fs = heavy_findings(p, all, n);
        let prev = heavy_findings(p, all, n - 1);
        assert forall|k: int| 0 <= k < prev.len() implies fs[k] == prev[k] by {}
    }
}

/// Heavy packages: each dependency or dev dependency that is a known heavy
/// package gets one finding, in dependency order, which names it, counts
/// the size it would save, and gives the usage verdict.
pub proof fn law_one_finding_per_heavy_dependency(p: &ProjectInfo, all: Seq<(Seq<char>, Seq<char>)>)
    ensures
        ({
            let fs = heavy_findings(p, all, all.len() as int);
            let names = heavy_dep_names(all, all.len() as int);
            &&& fs.len() == names.len()
            &&& forall|k: int|
                0 <= k < fs.len() ==> {
                    let h = heavy_table(heavy_index(names[k])->0);
                    &&& (#[trigger] fs[k]).category == FindingCategory::HeavyDependency
                    &&& heavy_index(names[k]) is Some
                    &&& fs[k].file == Some("package.json"@)
                    &&& fs[k].wasted_bytes == (saturating_sub(h.size_kb, h.alt_size_kb) * 1024) as u64
                    &&& fs[k].title == "Heavy dependency: "@ + names[k] + " (~"@ + decimal(
                        h.size_kb as nat,
                    ) + "KB) -- "@ + usage_label(
                        p.source_files@.len(),
                        spec_usage_files(p, h),
                        spec_risky(p, h),
                    )
                }
        }),
{
    lemma_heavy_findings(p, all, all.len() as int);
}

proof fn lemma_risky_in(found: Seq<Seq<char>>, content: Seq<char>, pats: Seq<Seq<char>>, n: int)
    requires
        found.no_duplicates(),
        0 <= n <= pats.len(),
    ensures
        risky_in(found, content, pats, n).no_duplicates(),
        forall|x: Seq<char>| #[trigger] risky_in(found, content, pats, n).contains(x) <==> (found.contains(x)
            || exists|j: int| 0 <= j < n && pats[j] == x && contains(content, #[trigger] pats[j])),
    decreases n,
{
    if n > 0 {
        lemma_risky_in(found, content, pats, n - 1);
        let prev = risky_in(found, content, pats, n - 1);
        lemma_add_all_new(prev, seq![pats[n - 1]]);
        assert(add_all_new(prev, seq![pats[n - 1]]) == add_new(prev, pats[n - 1])) by {
            let ys = seq![pats[n - 1]];
            assert(ys.drop_last() =~= Seq::<Seq<char>>::empty());
            assert(ys.last() == pats[n - 1]);
            assert(add_all_new(prev, ys.drop_last()) == prev);
        }
        assert forall|x: Seq<char>| #[trigger] risky_in(found, content, pats, n).contains(x) <==> (
        found.contains(x) || exists|j: int|
            0 <= j < n && pats[j] == x && contains(content, #[trigger] pats[j])) by {
            if seq![pats[n - 1]].contains(x) {
                assert(seq![pats[n - 1]][0] == x);
            }
            if x == pats[n - 1] {
                assert(seq![pats[n - 1]][0] == x);
            }
            if exists|j: int| 0 <= j < n && pats[j] == x && contains(content, #[trigger] pats[j]) {
                let j = choose|j: int| 0 <= j < n && pats[j] == x && contains(content, #[trigger] pats[j]);
                if j < n - 1 {
                    assert(prev.contains(x));
                }
            }
        }
    }
}

/// The risky patterns a PARTIAL verdict lists are listed once each, and
/// they are exactly the heavy package's risky patterns that the source of
/// some using file contains.
pub proof fn law_risky_found_exact(
    files: Seq<Seq<char>>,
    sources: Seq<(Seq<char>, Seq<char>)>,
    pats: Seq<Seq<char>>,
    n: int,
)
    requires
        0 <= n <= files.len(),
    ensures
        risky_found(files, sources, pats, n).no_duplicates(),
        forall|x: Seq<char>| #[trigger] risky_found(files, sources, pats, n).contains(x) <==> exists|m: int, j: int|
            0 <= m < n && 0 <= j < pats.len() && pats[j] == x && 0 <= key_position(
                sources,
                files[m],
                0,
            ) < sources.len() && contains(
                #[trigger] sources[key_position(sources, files[m], 0)].1,
                #[trigger] pats[j],
            ),
    decreases n,
{
    if n > 0 {
        law_risky_found_exact(files, sources, pats, n - 1);
        let prev = risky_found(files, sources, pats, n - 1);
        let k = key_position(sources, files[n - 1], 0);
        if 0 <= k < sources.len() {
            lemma_risky_in(prev, sources[k].1, pats, pats.len() as int);
        }
        assert forall|x: Seq<char>| #[trigger] risky_found(files, sources, pats, n).contains(x) <==> exists|
            m: int,
            j: int,
        |
            0 <= m < n && 0 <= j < pats.len() && pats[j] == x && 0 <= key_position(
                sources,
                files[m],
                0,
            ) < sources.len() && contains(
                #[trigger] sources[key_position(sources, files[m], 0)].1,
                #[trigger] pats[j],
            ) by {
            if prev.contains(x) {
                let (m, j) = choose|m: int, j: int|
                    0 <= m < n - 1 && 0 <= j < pats.len() && pats[j] == x && 0 <= key_position(
                        sources,
                        files[m],
                        0,
                    ) < sources.len() && contains(
                        #[trigger] sources[key_position(sources, files[m], 0)].1,
                        #[trigger] pats[j],
                    );
                assert(contains(sources[key_position(sources, files[m], 0)].1, pats[j]));
            }
            if 0 <= k < sources.len() && exists|j: int|
                0 <= j < pats.len() && pats[j] == x && contains(sources[k].1, #[trigger] pats[j]) {
                let j = choose|j: int|
                    0 <= j < pats.len() && pats[j] == x && contains(sources[k].1, #[trigger] pats[j]);
                assert(contains(sources[key_position(sources, files[n - 1], 0)].1, pats[j]));
            }
            if exists|m: int, j: int|
                0 <= m < n && 0 <= j < pats.len() && pats[j] == x && 0 <= key_position(
                    sources,
                    files[m],
                    0,
                ) < sources.len() && contains(
                    #[trigger] sources[key_position(sources, files[m], 0)].1,
                    #[trigger] pats[j],
                ) {
                let (m, j) = choose|m: int, j: int|
                    0 <= m < n && 0 <= j < pats.len() && pats[j] == x && 0 <= key_position(
                        sources,
                        files[m],
                        0,
                    ) < sources.len() && contains(
                        #[trigger] sources[key_position(sources, files[m], 0)].1,
                        #[trigger] pats[j],
                    );
                if m < n - 1 {
                    assert(contains(sources[key_position(sources, files[m], 0)].1, pats[j]));
                    assert(prev.contains(x));
                } else {
                    assert(contains(sources[k].1, pats[j]));
                }
            }
        }
    }
}

/// A duplicate group lists each of its members that the dependencies name,
/// once each: the names found are distinct, and a name is found exactly
/// where it is a member of the group and some dependency has it.
pub proof fn law_duplicate_group_distinct(names: Seq<Seq<char>>, members: Seq<Seq<char>>, n: int)
    requires
        0 <= n <= names.len(),
    ensures
        group_found(names, members, n).no_duplicates(),
        forall|x: Seq<char>| #[trigger] group_found(names, members, n).contains(x) <==> (
        members.contains(x) && exists|i: int| 0 <= i < n && names[i] == x),
    decreases n,
{
    if n > 0 {
        law_duplicate_group_distinct(names, members, n - 1);
        let prev = group_found(names, members, n - 1);
        let y = names[n - 1];
        let r = group_found(names, members, n);
        if members.contains(y) && !prev.contains(y) {
            assert forall|i: int, j: int| 0 <= i < r.len() && 0 <= j < r.len() && i != j implies r[i]
                != r[j] by {
                if i < prev.len() && j < prev.len() {
                    assert(r[i] == prev[i] && r[j] == prev[j]);
                } else if i < prev.len() {
                    assert(r[i] == prev[i]);
                } else {
                    assert(r[j] == prev[j]);
                }
            }
        }
        assert forall|x: Seq<char>| #[trigger] r.contains(x) <==> (members.contains(x) && exists|i: int|
            0 <= i < n && names[i] == x) by {
            if r.contains(x) && !prev.contains(x) {
                assert(x == y);
            }
            if prev.contains(x) {
                let w = choose|w: int| 0 <= w < prev.len() && prev[w] == x;
                if members.contains(y) && !prev.contains(y) {
                    assert(r[w] == x);
                }
                let i = choose|i: int| 0 <= i < n - 1 && names[i] == x;
                assert(0 <= i < n && names[i] == x);
            }
            if members.contains(x) && exists|i: int| 0 <= i < n && names[i] == x {
                let i = choose|i: int| 0 <= i < n && names[i] == x;
                if i < n - 1 {
                    assert(prev.contains(x));
                } else if !prev.contains(x) {
                    assert(r[prev.len() as int] == x);
                }
            }
        }
    }
}

proof fn lemma_heavy_index_exact(name: Seq<char>, k: int)
    requires
        0 <= k,
    ensures
        heavy_index_from(name, k) matches Some(i) ==> k <= i < heavy_count() && heavy_table(i).name
            == name,
        heavy_index_from(name, k) is None ==> forall|i: int|
            k <= i < heavy_count() ==> #[trigger] heavy_table(i).name != name,
    decreases heavy_count() - k,
{
    if k < heavy_count() && heavy_table(k).name != name {
        lemma_heavy_index_exact(name, k + 1);
    }
}

/// A dependency is taken for a heavy package only when its name is exactly
/// that package's name: the lookup finds an entry of the table with that
/// very name, and finds none where no entry has it (a name that merely
/// starts with a heavy package's name, such as `lodash.debounce`, is none).
pub proof fn law_heavy_lookup_exact(name: Seq<char>)
    ensures
        heavy_index(name) matches Some(k) ==> 0 <= k < heavy_count() && heavy_table(k).name == name,
        heavy_index(name) is None <==> forall|k: int|
            0 <= k < heavy_count() ==> #[trigger] heavy_table(k).name != name,
{
    lemma_heavy_index_exact(name, 0);
}

/// Type-definition packages are exactly those under `@types/`, and a
/// package counts as imported exactly where the import index has an entry
/// for it.
pub proof fn law_types_and_imported(s: Seq<char>, name: Seq<char>, idx: Seq<(Seq<char>, Seq<Seq<char>>)>)
    ensures
        is_types_pkg("@types/"@ + s),
        (name.len() == 0 || name[0] != '@') ==> !is_types_pkg(name),
        is_imported(idx, name) <==> exists|k: int| 0 <= k < idx.len() && (#[trigger] idx[k]).0 == name,
{
    reveal_strlit("@types/");
    let t = "@types/"@;
    assert(("@types/"@ + s).subrange(0, t.len() as int) =~= t);
    if name.len() > 0 && name[0] != '@' && name.len() >= t.len() {
        assert(name.subrange(0, t.len() as int)[0] != t[0]);
    }
    lemma_key_position(idx, name, 0);
}

} // verus!
