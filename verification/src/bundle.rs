//! Module resolution and bundling.
//!
//! A plugin's source tree is a finite map from normalized relative paths to
//! source texts. Bundling walks the tree depth first from an entry file,
//! resolves relative import specifiers against the importing file's
//! directory, guards against cycles with a visited set, and concatenates the
//! transpiled bodies in dependency order: a dependency's body always precedes
//! its importer's.

use vstd::prelude::*;
use crate::text::{find_from, spec_join, str_eq};
use crate::transpile::{
    oxc_codegen_output_spec, oxc_parse_errors_spec, oxc_semantic_errors_spec,
    oxc_transform_errors_spec, spec_local_imports, spec_strip_imports_exports, TranspileError,
};

verus! {

/// The segments of a path, split at `/`.
pub open spec fn spec_split_slash(s: Seq<char>) -> Seq<Seq<char>>
    decreases s.len(),
    via spec_split_slash_dec
{
    match crate::text::spec_find_from(s, seq!['/'], 0) {
        None => seq![s],
        Some(i) => seq![s.subrange(0, i)] + spec_split_slash(s.subrange(i + 1, s.len() as int)),
    }
}

#[via_fn]
proof fn spec_split_slash_dec(s: Seq<char>) {
    crate::text::lemma_find_is_occurrence(s, seq!['/'], 0);
}

/// Lexical path normalization over segments: empty and `.` segments vanish,
/// `..` removes the segment before it where one remains, and leading `..`
/// segments stay.
pub open spec fn spec_norm_segs(segs: Seq<Seq<char>>, acc: Seq<Seq<char>>) -> Seq<Seq<char>>
    decreases segs.len(),
{
    if segs.len() == 0 {
        acc
    } else {
        let s0 = segs[0];
        let rest = segs.subrange(1, segs.len() as int);
        if s0.len() == 0 || s0 == "."@ {
            spec_norm_segs(rest, acc)
        } else if s0 == ".."@ {
            if acc.len() > 0 && acc.last() != ".."@ {
                spec_norm_segs(rest, acc.drop_last())
            } else {
                spec_norm_segs(rest, acc.push(s0))
            }
        } else {
            spec_norm_segs(rest, acc.push(s0))
        }
    }
}

/// The normalized form of a path: segments cleaned lexically and re-joined
/// with `/`.
pub open spec fn spec_normalize_path(p: Seq<char>) -> Seq<char> {
    spec_join(spec_norm_segs(spec_split_slash(p), Seq::empty()), "/"@)
}

/// Splits a path at `/`.
fn split_slash(s: &str) -> (r: Vec<String>)
    ensures
        r@.len() == spec_split_slash(s@).len(),
        forall|i: int| 0 <= i < r@.len() ==> r@[i]@ == spec_split_slash(s@)[i],
    decreases s@.len(),
{
    proof {
        reveal_strlit("/");
        assert("/"@ =~= seq!['/']);
    }
    let slen = s.unicode_len();
    let mut result: Vec<String> = Vec::new();
    match find_from(s, "/", 0) {
        None => {
            result.push(s.to_owned());
            result
        },
        Some(i) => {
            let ghost whole = spec_split_slash(s@);
            let head = s.substring_char(0, i);
            result.push(head.to_owned());
            let tail = s.substring_char(i + 1, slen);
            let mut rest = split_slash(tail);
            let ghost rest0 = rest@;
            result.append(&mut rest);
            proof {
                assert(whole == seq![s@.subrange(0, i as int)] + spec_split_slash(tail@));
                assert forall|j: int| 0 <= j < result@.len() implies result@[j]@ == whole[j] by {
                    if j > 0 {
                        assert(result@[j] == rest0[j - 1]);
                        assert(whole[j] == spec_split_slash(tail@)[j - 1]);
                    }
                }
            }
            result
        },
    }
}

/// Normalizes a path lexically.
pub fn normalize_path(p: &str) -> (r: String)
    ensures
        r@ == spec_normalize_path(p@),
{
    let segs = split_slash(p);
    let ghost sviews = spec_split_slash(p@);
    let n = segs.len();
    let mut acc: Vec<String> = Vec::new();
    let mut i: usize = 0;
    proof {
        assert(sviews.subrange(0, n as int) =~= sviews);
        assert(acc@.map_values(|x: String| x@) =~= Seq::<Seq<char>>::empty());
    }
    while i < n
        invariant
            0 <= i <= n,
            n == segs@.len(),
            sviews.len() == n,
            forall|j: int| 0 <= j < n ==> segs@[j]@ == sviews[j],
            spec_norm_segs(sviews, Seq::empty()) == spec_norm_segs(
                sviews.subrange(i as int, n as int),
                acc@.map_values(|x: String| x@),
            ),
        decreases n - i,
    {
        let ghost rem = sviews.subrange(i as int, n as int);
        let ghost accv = acc@.map_values(|x: String| x@);
        proof {
            assert(rem[0] == sviews[i as int]);
            assert(rem.subrange(1, rem.len() as int) =~= sviews.subrange(i as int + 1, n as int));
        }
        let seg = &segs[i];
        let slen = seg.as_str().unicode_len();
        if slen == 0 || str_eq(seg.as_str(), ".") {
            // dropped
        } else if str_eq(seg.as_str(), "..") {
            let keep_pop = acc.len() > 0 && !str_eq(acc[acc.len() - 1].as_str(), "..");
            if keep_pop {
                acc.pop();
                proof {
                    assert(acc@.map_values(|x: String| x@) =~= accv.drop_last());
                }
            } else {
                acc.push(seg.clone());
                proof {
                    assert(acc@.map_values(|x: String| x@) =~= accv.push(sviews[i as int]));
                }
            }
        } else {
            acc.push(seg.clone());
            proof {
                assert(acc@.map_values(|x: String| x@) =~= accv.push(sviews[i as int]));
            }
        }
        i += 1;
    }
    proof {
        assert(sviews.subrange(n as int, n as int) =~= Seq::<Seq<char>>::empty());
    }
    crate::text::join_strs(&acc, "/")
}

/// The index of the last `/` of a path, if any.
pub open spec fn spec_rfind_slash(s: Seq<char>) -> Option<int>
    decreases s.len(),
{
    if s.len() == 0 {
        None
    } else if s.last() == '/' {
        Some(s.len() - 1)
    } else {
        spec_rfind_slash(s.drop_last())
    }
}

/// The directory of a path: everything before the last `/`, or the empty
/// string for a bare file name.
pub open spec fn spec_dirname(p: Seq<char>) -> Seq<char> {
    match spec_rfind_slash(p) {
        Some(i) => p.subrange(0, i),
        None => Seq::empty(),
    }
}

proof fn lemma_rfind_slash_bounds(s: Seq<char>)
    ensures
        match spec_rfind_slash(s) {
            Some(i) => 0 <= i < s.len(),
            None => true,
        },
    decreases s.len(),
{
    if s.len() > 0 && s.last() != '/' {
        lemma_rfind_slash_bounds(s.drop_last());
        assert(s.drop_last().len() == s.len() - 1);
    }
}

/// The directory part of a path.
pub fn dirname(p: &str) -> (r: String)
    ensures
        r@ == spec_dirname(p@),
    decreases p@.len(),
{
    let plen = p.unicode_len();
    if plen == 0 {
        return String::new();
    }
    if p.get_char(plen - 1) == '/' {
        return p.substring_char(0, plen - 1).to_owned();
    }
    let head = p.substring_char(0, plen - 1);
    let r = dirname(head);
    proof {
        lemma_rfind_slash_bounds(p@.drop_last());
        assert(p@.drop_last() =~= head@);
        match spec_rfind_slash(head@) {
            Some(i) => {
                assert(head@.subrange(0, i) =~= p@.subrange(0, i));
            },
            None => {},
        }
    }
    r
}

/// The content stored for a path in an association list of files.
pub open spec fn spec_tree_lookup(entries: Seq<(String, String)>, path: Seq<char>) -> Option<
    Seq<char>,
>
    decreases entries.len(),
{
    if entries.len() == 0 {
        None
    } else if entries[0].0@ == path {
        Some(entries[0].1@)
    } else {
        spec_tree_lookup(entries.subrange(1, entries.len() as int), path)
    }
}

/// The paths stored in an association list of files.
pub open spec fn spec_tree_keys(entries: Seq<(String, String)>) -> Seq<Seq<char>> {
    entries.map_values(|e: (String, String)| e.0@)
}

/// A stored path is among the keys.
pub proof fn lemma_lookup_some_is_key(entries: Seq<(String, String)>, path: Seq<char>)
    requires
        spec_tree_lookup(entries, path) is Some,
    ensures
        spec_tree_keys(entries).contains(path),
    decreases entries.len(),
{
    if entries.len() > 0 {
        if entries[0].0@ == path {
            assert(spec_tree_keys(entries)[0] == path);
        } else {
            lemma_lookup_some_is_key(entries.subrange(1, entries.len() as int), path);
            let rest = entries.subrange(1, entries.len() as int);
            let k = choose|k: int|
                0 <= k < spec_tree_keys(rest).len() && spec_tree_keys(rest)[k] == path;
            assert(spec_tree_keys(entries)[k + 1] == path);
        }
    }
}

/// A plugin's source tree: a finite map from normalized relative paths to
/// source texts. This is what the bundler reads in place of a file system.
pub struct SourceTree {
    entries: Vec<(String, String)>,
}

impl View for SourceTree {
    type V = Seq<(String, String)>;

    closed spec fn view(&self) -> Seq<(String, String)> {
        self.entries@
    }
}

impl SourceTree {
    /// An empty tree.
    pub fn new() -> (r: SourceTree)
        ensures
            r@.len() == 0,
    {
        SourceTree { entries: Vec::new() }
    }

    /// Stores `content` under the normalized form of `path`; an earlier entry
    /// for the same path is shadowed.
    pub fn add_file(&mut self, path: &str, content: &str)
        ensures
            spec_tree_lookup(final(self)@, spec_normalize_path(path@)) == Some(content@),
            forall|q: Seq<char>|
                q != spec_normalize_path(path@) ==> spec_tree_lookup(final(self)@, q)
                    == spec_tree_lookup(old(self)@, q),
    {
        let np = normalize_path(path);
        self.entries.insert(0, (np, content.to_owned()));
        proof {
            assert(self@.subrange(1, self@.len() as int) =~= old(self)@);
        }
    }

    /// The content stored for an already-normalized path.
    pub fn get(&self, path: &str) -> (r: Option<String>)
        ensures
            match r {
                Some(c) => spec_tree_lookup(self@, path@) == Some(c@),
                None => spec_tree_lookup(self@, path@) is None,
            },
    {
        let n = self.entries.len();
        let mut i: usize = 0;
        proof {
            assert(self@.subrange(0, n as int) =~= self@);
        }
        while i < n
            invariant
                0 <= i <= n,
                n == self@.len(),
                spec_tree_lookup(self@, path@) == spec_tree_lookup(
                    self@.subrange(i as int, n as int),
                    path@,
                ),
            decreases n - i,
        {
            let ghost rem = self@.subrange(i as int, n as int);
            proof {
                assert(rem[0] == self@[i as int]);
                assert(rem.subrange(1, rem.len() as int) =~= self@.subrange(
                    i as int + 1,
                    n as int,
                ));
            }
            if str_eq(self.entries[i].0.as_str(), path) {
                return Some(self.entries[i].1.clone());
            }
            i += 1;
        }
        proof {
            assert(self@.subrange(n as int, n as int) =~= Seq::<(String, String)>::empty());
        }
        None
    }
}

/// The resolution of a relative import specifier against the importing
/// file's directory: the joined path is tried literally, then with a script
/// extension appended, then with an alternate extension, then as a directory
/// holding an index file with each extension. The first form stored in the
/// tree wins.
pub open spec fn spec_resolve(
    entries: Seq<(String, String)>,
    dir: Seq<char>,
    imp: Seq<char>,
) -> Option<Seq<char>> {
    let base = spec_normalize_path(dir + "/"@ + imp);
    if spec_tree_lookup(entries, base) is Some {
        Some(base)
    } else if spec_tree_lookup(entries, base + ".ts"@) is Some {
        Some(base + ".ts"@)
    } else if spec_tree_lookup(entries, base + ".js"@) is Some {
        Some(base + ".js"@)
    } else if spec_tree_lookup(entries, base + "/index.ts"@) is Some {
        Some(base + "/index.ts"@)
    } else if spec_tree_lookup(entries, base + "/index.js"@) is Some {
        Some(base + "/index.js"@)
    } else {
        None
    }
}

/// Resolves one import specifier against the importing file's directory.
pub fn resolve_import(tree: &SourceTree, import_path: &str, parent_dir: &str) -> (r: Option<
    String,
>)
    ensures
        match r {
            Some(rp) => spec_resolve(tree@, parent_dir@, import_path@) == Some(rp@)
                && spec_tree_lookup(tree@, rp@) is Some,
            None => spec_resolve(tree@, parent_dir@, import_path@) is None,
        },
{
    let mut joined = parent_dir.to_owned();
    joined.append("/");
    joined.append(import_path);
    let base = normalize_path(joined.as_str());
    if tree.get(base.as_str()).is_some() {
        return Some(base);
    }
    let mut with_ts = base.clone();
    with_ts.append(".ts");
    if tree.get(with_ts.as_str()).is_some() {
        return Some(with_ts);
    }
    let mut with_js = base.clone();
    with_js.append(".js");
    if tree.get(with_js.as_str()).is_some() {
        return Some(with_js);
    }
    let mut index_ts = base.clone();
    index_ts.append("/index.ts");
    if tree.get(index_ts.as_str()).is_some() {
        return Some(index_ts);
    }
    let mut index_js = base.clone();
    index_js.append("/index.js");
    if tree.get(index_js.as_str()).is_some() {
        return Some(index_js);
    }
    None
}

/// A failed bundling.
#[derive(Debug)]
pub enum BundleError {
    /// An import specifier could not be resolved to a stored file. Carries
    /// the specifier and the importing file's path.
    UnresolvedImport { specifier: String, importer: String },
    /// The entry file is not stored in the tree.
    ReadFailure { path: String },
    /// A bundled unit failed to transpile.
    Transpile(TranspileError),
}

/// One step of work during the depth-first walk, at specification level.
pub enum BundleStep {
    /// Resolve an import specifier of the named importing file, and walk into
    /// the resolved file if it was not visited yet.
    Resolve(Seq<char>, Seq<char>),
    /// Emit the named file's transpiled body.
    Emit(Seq<char>),
}

/// The outcome of a bundling walk, at specification level.
pub enum BundleOutcome {
    /// The flat output and the visited set, in visit order.
    Done(Seq<char>, Seq<Seq<char>>),
    /// An unresolved import: the specifier and the importing file's path.
    Unresolved(Seq<char>, Seq<char>),
    /// A path that could not be read from the tree.
    ReadFail(Seq<char>),
    /// A unit whose stripped source failed to transpile: the path and the
    /// stripped source.
    TranspileFail(Seq<char>, Seq<char>),
}

/// Whether a transpilation of this source and unit name fails at some stage.
pub open spec fn spec_transpile_fails(source: Seq<char>, unit: Seq<char>) -> bool {
    oxc_parse_errors_spec(source, unit).len() > 0 || oxc_semantic_errors_spec(source, unit).len()
        > 0 || oxc_transform_errors_spec(source, unit).len() > 0
}

/// The error that a failed transpilation of this source and unit carries.
pub open spec fn spec_transpile_error_matches(
    te: TranspileError,
    source: Seq<char>,
    unit: Seq<char>,
) -> bool {
    let pe = oxc_parse_errors_spec(source, unit);
    let se = oxc_semantic_errors_spec(source, unit);
    let tr = oxc_transform_errors_spec(source, unit);
    if pe.len() > 0 {
        te matches TranspileError::Syntax(v) && v@ == pe
    } else if se.len() > 0 {
        te matches TranspileError::Semantic(v) && v@ == se
    } else {
        te matches TranspileError::Transform(v) && v@ == tr
    }
}

/// The resolution steps for the imports of one file, in source order.
pub open spec fn spec_resolve_steps(path: Seq<char>, source: Seq<char>) -> Seq<BundleStep> {
    spec_local_imports(source).map_values(|im: Seq<char>| BundleStep::Resolve(path, im))
}

/// The pending steps for one file: its import resolutions, then its own
/// emission — so its dependencies land in the output before its own body.
pub open spec fn spec_steps_for(path: Seq<char>, source: Seq<char>) -> Seq<BundleStep> {
    spec_resolve_steps(path, source) + seq![BundleStep::Emit(path)]
}

/// How many stored paths the walk has not visited yet.
pub open spec fn unvisited_count(
    entries: Seq<(String, String)>,
    visited: Seq<Seq<char>>,
) -> nat {
    spec_tree_keys(entries).to_set().difference(visited.to_set()).len()
}

/// Visiting a stored, unvisited path strictly shrinks the unvisited count.
proof fn lemma_unvisited_decreases(
    entries: Seq<(String, String)>,
    visited: Seq<Seq<char>>,
    p: Seq<char>,
)
    requires
        spec_tree_keys(entries).contains(p),
        !visited.contains(p),
    ensures
        unvisited_count(entries, visited.push(p)) < unvisited_count(entries, visited),
{
    let keys = spec_tree_keys(entries).to_set();
    let before = keys.difference(visited.to_set());
    let after = keys.difference(visited.push(p).to_set());
    assert(visited.push(p).contains(p)) by {
        assert(visited.push(p)[visited.len() as int] == p);
    }
    assert forall|x: Seq<char>| visited.contains(x) implies visited.push(p).contains(x) by {
        let k = choose|k: int| 0 <= k < visited.len() && visited[k] == x;
        assert(visited.push(p)[k] == x);
    }
    assert forall|x: Seq<char>| visited.push(p).contains(x) implies visited.contains(x) || x
        == p by {
        let k = choose|k: int| 0 <= k < visited.push(p).len() && visited.push(p)[k] == x;
        if k < visited.len() {
            assert(visited[k] == x);
        }
    }
    assert(after =~= before.remove(p));
    assert(before.contains(p));
    assert(keys.finite()) by {
        vstd::seq_lib::seq_to_set_is_finite(spec_tree_keys(entries));
    }
    vstd::set_lib::lemma_len_subset(before, keys);
    assert(before.remove(p).len() == before.len() - 1);
}

/// The depth-first walk over the pending steps: resolving an unvisited file
/// expands its own resolution steps and its emission in front of the rest,
/// resolving a visited file skips it silently, and emitting appends the
/// file's transpiled body and a newline.
pub open spec fn spec_walk(
    entries: Seq<(String, String)>,
    visited: Seq<Seq<char>>,
    work: Seq<BundleStep>,
    out: Seq<char>,
) -> BundleOutcome
    decreases unvisited_count(entries, visited), work.len(),
    via spec_walk_dec
{
    if work.len() == 0 {
        BundleOutcome::Done(out, visited)
    } else {
        let rest = work.subrange(1, work.len() as int);
        match work[0] {
            BundleStep::Resolve(importer, imp) => {
                match spec_resolve(entries, spec_dirname(importer), imp) {
                    None => BundleOutcome::Unresolved(imp, importer),
                    Some(rp) => {
                        if visited.contains(rp) {
                            spec_walk(entries, visited, rest, out)
                        } else {
                            match spec_tree_lookup(entries, rp) {
                                None => BundleOutcome::ReadFail(rp),
                                Some(src) => spec_walk(
                                    entries,
                                    visited.push(rp),
                                    spec_steps_for(rp, src) + rest,
                                    out,
                                ),
                            }
                        }
                    },
                }
            },
            BundleStep::Emit(p) => {
                match spec_tree_lookup(entries, p) {
                    None => BundleOutcome::ReadFail(p),
                    Some(src) => {
                        let stripped = spec_strip_imports_exports(src);
                        if spec_transpile_fails(stripped, p) {
                            BundleOutcome::TranspileFail(p, stripped)
                        } else {
                            spec_walk(
                                entries,
                                visited,
                                rest,
                                out + oxc_codegen_output_spec(stripped, p) + "\n"@,
                            )
                        }
                    },
                }
            },
        }
    }
}

#[via_fn]
proof fn spec_walk_dec(
    entries: Seq<(String, String)>,
    visited: Seq<Seq<char>>,
    work: Seq<BundleStep>,
    out: Seq<char>,
) {
    if work.len() > 0 {
        match work[0] {
            BundleStep::Resolve(importer, imp) => {
                match spec_resolve(entries, spec_dirname(importer), imp) {
                    None => {},
                    Some(rp) => {
                        if !visited.contains(rp) {
                            match spec_tree_lookup(entries, rp) {
                                None => {},
                                Some(_) => {
                                    lemma_lookup_some_is_key(entries, rp);
                                    lemma_unvisited_decreases(entries, visited, rp);
                                },
                            }
                        }
                    },
                }
            },
            BundleStep::Emit(_) => {},
        }
    }
}

/// What bundling an entry path against a source tree yields: the entry is
/// read, its imports are walked depth first, and the transpiled bodies are
/// concatenated with every dependency ahead of its importer.
pub open spec fn spec_bundle(entries: Seq<(String, String)>, entry: Seq<char>) -> BundleOutcome {
    let ep = spec_normalize_path(entry);
    match spec_tree_lookup(entries, ep) {
        None => BundleOutcome::ReadFail(ep),
        Some(src) => spec_walk(entries, seq![ep], spec_steps_for(ep, src), Seq::empty()),
    }
}

/// One pending step of the executable walk.
enum BundleTask {
    Resolve(String, String),
    Emit(String),
}

/// The specification-level step an executable step stands for.
spec fn task_view(t: BundleTask) -> BundleStep {
    match t {
        BundleTask::Resolve(importer, imp) => BundleStep::Resolve(importer@, imp@),
        BundleTask::Emit(p) => BundleStep::Emit(p@),
    }
}

/// Whether a path is in the visited list.
fn contains_path(visited: &Vec<String>, p: &str) -> (r: bool)
    ensures
        r <==> visited@.map_values(|s: String| s@).contains(p@),
{
    let ghost vviews = visited@.map_values(|s: String| s@);
    let n = visited.len();
    let mut i: usize = 0;
    while i < n
        invariant
            0 <= i <= n,
            n == visited@.len(),
            vviews == visited@.map_values(|s: String| s@),
            forall|j: int| 0 <= j < i ==> vviews[j] != p@,
        decreases n - i,
    {
        if str_eq(visited[i].as_str(), p) {
            proof {
                assert(vviews[i as int] == p@);
            }
            return true;
        }
        i += 1;
    }
    proof {
        if vviews.contains(p@) {
            let k = choose|k: int| 0 <= k < vviews.len() && vviews[k] == p@;
        }
    }
    false
}

/// The pending steps for one file: one resolution per local import, in source
/// order, then the file's own emission.
fn tasks_for(path: &str, source: &str) -> (r: Vec<BundleTask>)
    ensures
        r@.map_values(|t: BundleTask| task_view(t)) == spec_steps_for(path@, source@),
{
    let imports = crate::transpile::extract_local_imports(source);
    let ghost iviews = spec_local_imports(source@);
    let n = imports.len();
    let mut tasks: Vec<BundleTask> = Vec::new();
    let mut i: usize = 0;
    while i < n
        invariant
            0 <= i <= n,
            n == imports@.len(),
            iviews.len() == n,
            forall|j: int| 0 <= j < n ==> imports@[j]@ == iviews[j],
            tasks@.len() == i,
            forall|j: int|
                0 <= j < i ==> task_view(tasks@[j]) == BundleStep::Resolve(path@, iviews[j]),
        decreases n - i,
    {
        tasks.push(BundleTask::Resolve(path.to_owned(), imports[i].clone()));
        i += 1;
    }
    tasks.push(BundleTask::Emit(path.to_owned()));
    proof {
        assert(tasks@.map_values(|t: BundleTask| task_view(t)) =~= spec_steps_for(path@, source@));
    }
    tasks
}

/// Bundles the file stored under `entry_path` together with every local
/// module it transitively imports into one flat script.
///
/// Dependencies are walked depth first and emitted before their importers. A
/// path already visited is skipped silently, so an import cycle terminates
/// and each file's body appears at most once. An import that resolves to no
/// stored file fails with the specifier and the importing file's path; a
/// missing entry fails as unreadable; a unit whose stripped source does not
/// transpile fails with that unit's transpile error.
pub fn bundle_module(tree: &SourceTree, entry_path: &str) -> (r: Result<String, BundleError>)
    ensures
        ({
            let sr = spec_bundle(tree@, entry_path@);
            &&& (sr matches BundleOutcome::Done(out, vis) ==> (r matches Ok(code) && code@
                == out))
            &&& (sr matches BundleOutcome::Unresolved(sp, im) ==> (r matches Err(
                BundleError::UnresolvedImport { specifier, importer },
            ) && specifier@ == sp && importer@ == im))
            &&& (sr matches BundleOutcome::ReadFail(p) ==> (r matches Err(
                BundleError::ReadFailure { path },
            ) && path@ == p))
            &&& (sr matches BundleOutcome::TranspileFail(p, src) ==> (r matches Err(
                BundleError::Transpile(te),
            ) && spec_transpile_error_matches(te, src, p)))
        }),
{
    let ghost target = spec_bundle(tree@, entry_path@);
    let ep = normalize_path(entry_path);
    let entry_src = match tree.get(ep.as_str()) {
        Some(s) => s,
        None => {
            return Err(BundleError::ReadFailure { path: ep });
        },
    };
    let mut visited: Vec<String> = Vec::new();
    visited.push(ep.clone());
    let mut work: Vec<BundleTask> = tasks_for(ep.as_str(), entry_src.as_str());
    let mut out = String::new();
    proof {
        assert(visited@.map_values(|s: String| s@) =~= seq![ep@]);
        assert(target == spec_walk(
            tree@,
            visited@.map_values(|s: String| s@),
            work@.map_values(|t: BundleTask| task_view(t)),
            out@,
        ));
    }
    while work.len() > 0
        invariant
            target == spec_bundle(tree@, entry_path@),
            target == spec_walk(
                tree@,
                visited@.map_values(|s: String| s@),
                work@.map_values(|t: BundleTask| task_view(t)),
                out@,
            ),
        decreases
                unvisited_count(tree@, visited@.map_values(|s: String| s@)),
                work@.len(),
    {
        let ghost vis0 = visited@.map_values(|s: String| s@);
        let ghost work0 = work@.map_values(|t: BundleTask| task_view(t));
        let task = work.remove(0);
        proof {
            assert(work@.map_values(|t: BundleTask| task_view(t)) =~= work0.subrange(1, work0.len() as int));
        }
        match task {
            BundleTask::Resolve(importer, imp) => {
                let dir = dirname(importer.as_str());
                match resolve_import(tree, imp.as_str(), dir.as_str()) {
                    None => {
                        proof {
                            assert(target == BundleOutcome::Unresolved(imp@, importer@));
                        }
                        return Err(
                            BundleError::UnresolvedImport { specifier: imp, importer },
                        );
                    },
                    Some(rp) => {
                        if !contains_path(&visited, rp.as_str()) {
                            let src = match tree.get(rp.as_str()) {
                                Some(s) => s,
                                None => {
                                    return Err(BundleError::ReadFailure { path: rp });
                                },
                            };
                            proof {
                                lemma_lookup_some_is_key(tree@, rp@);
                                lemma_unvisited_decreases(tree@, vis0, rp@);
                            }
                            visited.push(rp.clone());
                            let mut new_work = tasks_for(rp.as_str(), src.as_str());
                            new_work.append(&mut work);
                            work = new_work;
                            proof {
                                assert(visited@.map_values(|s: String| s@) =~= vis0.push(rp@));
                                assert(work@.map_values(|t: BundleTask| task_view(t)) =~= spec_steps_for(rp@, src@)
                                    + work0.subrange(1, work0.len() as int));
                            }
                        }
                    },
                }
            },
            BundleTask::Emit(p) => {
                let src = match tree.get(p.as_str()) {
                    Some(s) => s,
                    None => {
                        return Err(BundleError::ReadFailure { path: p });
                    },
                };
                let stripped = crate::transpile::strip_imports_and_exports(src.as_str());
                match crate::transpile::transpile_typescript(stripped.as_str(), p.as_str()) {
                    Ok(code) => {
                        out.append(code.as_str());
                        out.append("\n");
                    },
                    Err(te) => {
                        return Err(BundleError::Transpile(te));
                    },
                }
            },
        }
    }
    proof {
        assert(work@.map_values(|t: BundleTask| task_view(t)) =~= Seq::<BundleStep>::empty());
        assert(target == BundleOutcome::Done(out@, visited@.map_values(|s: String| s@)));
    }
    Ok(out)
}

/// Walking a concatenation of step lists is walking the first list and, if
/// that succeeds, continuing from its output and visited set with the second:
/// everything the first list emits precedes everything the second emits.
pub proof fn lemma_walk_append(
    entries: Seq<(String, String)>,
    visited: Seq<Seq<char>>,
    w1: Seq<BundleStep>,
    w2: Seq<BundleStep>,
    out: Seq<char>,
)
    ensures
        match spec_walk(entries, visited, w1, out) {
            BundleOutcome::Done(o1, v1) => spec_walk(entries, visited, w1 + w2, out) == spec_walk(
                entries,
                v1,
                w2,
                o1,
            ),
            err => spec_walk(entries, visited, w1 + w2, out) == err,
        },
    decreases unvisited_count(entries, visited), w1.len(),
{
    if w1.len() == 0 {
        assert(w1 + w2 =~= w2);
    } else {
        let rest = w1.subrange(1, w1.len() as int);
        assert((w1 + w2)[0] == w1[0]);
        assert((w1 + w2).subrange(1, (w1 + w2).len() as int) =~= rest + w2);
        match w1[0] {
            BundleStep::Resolve(importer, imp) => {
                match spec_resolve(entries, spec_dirname(importer), imp) {
                    None => {},
                    Some(rp) => {
                        if visited.contains(rp) {
                            lemma_walk_append(entries, visited, rest, w2, out);
                        } else {
                            match spec_tree_lookup(entries, rp) {
                                None => {},
                                Some(src) => {
                                    lemma_lookup_some_is_key(entries, rp);
                                    lemma_unvisited_decreases(entries, visited, rp);
                                    lemma_walk_append(
                                        entries,
                                        visited.push(rp),
                                        spec_steps_for(rp, src) + rest,
                                        w2,
                                        out,
                                    );
                                    assert((spec_steps_for(rp, src) + rest) + w2
                                        =~= spec_steps_for(rp, src) + (rest + w2));
                                },
                            }
                        }
                    },
                }
            },
            BundleStep::Emit(p) => {
                match spec_tree_lookup(entries, p) {
                    None => {},
                    Some(src) => {
                        let stripped = spec_strip_imports_exports(src);
                        if !spec_transpile_fails(stripped, p) {
                            lemma_walk_append(
                                entries,
                                visited,
                                rest,
                                w2,
                                out + oxc_codegen_output_spec(stripped, p) + "\n"@,
                            );
                        }
                    },
                }
            },
        }
    }
}

/// Cycle safety in general: the walk visits every file at most once, whatever
/// the import graph — also across arbitrary cycles. The visited list only
/// grows by paths not yet in it, so the final visit order has no duplicates
/// and extends the initial one; each visit expands one emission step, so each
/// file's body lands in the output at most once, and the walk terminates by
/// the shrinking count of unvisited stored paths.
pub proof fn lemma_walk_visits_each_once(
    entries: Seq<(String, String)>,
    visited: Seq<Seq<char>>,
    work: Seq<BundleStep>,
    out: Seq<char>,
)
    requires
        visited.no_duplicates(),
    ensures
        match spec_walk(entries, visited, work, out) {
            BundleOutcome::Done(_, v) => v.no_duplicates() && visited.is_prefix_of(v),
            _ => true,
        },
    decreases unvisited_count(entries, visited), work.len(),
{
    if work.len() == 0 {
        assert(visited.is_prefix_of(visited)) by {
            assert(visited.subrange(0, visited.len() as int) =~= visited);
        }
    } else {
        let rest = work.subrange(1, work.len() as int);
        match work[0] {
            BundleStep::Resolve(importer, imp) => {
                match spec_resolve(entries, spec_dirname(importer), imp) {
                    None => {},
                    Some(rp) => {
                        if visited.contains(rp) {
                            lemma_walk_visits_each_once(entries, visited, rest, out);
                        } else {
                            match spec_tree_lookup(entries, rp) {
                                None => {},
                                Some(src) => {
                                    lemma_lookup_some_is_key(entries, rp);
                                    lemma_unvisited_decreases(entries, visited, rp);
                                    assert(visited.push(rp).no_duplicates()) by {
                                        assert forall|a: int, b: int|
                                            0 <= a < b < visited.push(rp).len() implies visited.push(
                                            rp,
                                        )[a] != visited.push(rp)[b] by {
                                            if b < visited.len() {
                                            } else {
                                                assert(visited.push(rp)[a] == visited[a]);
                                                assert(visited.contains(visited[a]));
                                            }
                                        }
                                    }
                                    lemma_walk_visits_each_once(
                                        entries,
                                        visited.push(rp),
                                        spec_steps_for(rp, src) + rest,
                                        out,
                                    );
                                    match spec_walk(
                                        entries,
                                        visited.push(rp),
                                        spec_steps_for(rp, src) + rest,
                                        out,
                                    ) {
                                        BundleOutcome::Done(_, v) => {
                                            assert(visited.is_prefix_of(v)) by {
                                                assert(visited.push(rp).subrange(
                                                    0,
                                                    visited.len() as int,
                                                ) =~= visited);
                                                assert(v.subrange(0, visited.push(rp).len() as int)
                                                    == visited.push(rp));
                                                assert(v.subrange(0, visited.len() as int)
                                                    =~= visited.push(rp).subrange(
                                                    0,
                                                    visited.len() as int,
                                                ));
                                            }
                                        },
                                        _ => {},
                                    }
                                },
                            }
                        }
                    },
                }
            },
            BundleStep::Emit(p) => {
                match spec_tree_lookup(entries, p) {
                    None => {},
                    Some(src) => {
                        let stripped = spec_strip_imports_exports(src);
                        if !spec_transpile_fails(stripped, p) {
                            lemma_walk_visits_each_once(
                                entries,
                                visited,
                                rest,
                                out + oxc_codegen_output_spec(stripped, p) + "\n"@,
                            );
                        }
                    },
                }
            },
        }
    }
}

/// Dependency order: a successful bundle's output is the output of walking
/// the entry's import resolutions — every transitively imported module's body
/// — followed by the entry's own transpiled body and a separator. Dependency
/// modules' top-level code therefore stands strictly before the importing
/// module's. A failing walk fails the bundle with the same error.
pub proof fn lemma_bundle_dependencies_first(entries: Seq<(String, String)>, entry: Seq<char>)
    requires
        spec_tree_lookup(entries, spec_normalize_path(entry)) is Some,
    ensures
        ({
            let ep = spec_normalize_path(entry);
            let src = spec_tree_lookup(entries, ep).unwrap();
            let stripped = spec_strip_imports_exports(src);
            match spec_walk(entries, seq![ep], spec_resolve_steps(ep, src), Seq::empty()) {
                BundleOutcome::Done(deps_out, vis) => {
                    if spec_transpile_fails(stripped, ep) {
                        spec_bundle(entries, entry) == BundleOutcome::TranspileFail(ep, stripped)
                    } else {
                        spec_bundle(entries, entry) == BundleOutcome::Done(
                            deps_out + oxc_codegen_output_spec(stripped, ep) + "\n"@,
                            vis,
                        )
                    }
                },
                err => spec_bundle(entries, entry) == err,
            }
        }),
{
    let ep = spec_normalize_path(entry);
    let src = spec_tree_lookup(entries, ep).unwrap();
    lemma_walk_append(
        entries,
        seq![ep],
        spec_resolve_steps(ep, src),
        seq![BundleStep::Emit(ep)],
        Seq::empty(),
    );
    match spec_walk(entries, seq![ep], spec_resolve_steps(ep, src), Seq::empty()) {
        BundleOutcome::Done(deps_out, vis) => {
            let stripped = spec_strip_imports_exports(src);
            if !spec_transpile_fails(stripped, ep) {
                assert(spec_walk(
                    entries,
                    vis,
                    Seq::<BundleStep>::empty(),
                    deps_out + oxc_codegen_output_spec(stripped, ep) + "\n"@,
                ) == BundleOutcome::Done(
                    deps_out + oxc_codegen_output_spec(stripped, ep) + "\n"@,
                    vis,
                ));
                assert(seq![BundleStep::Emit(ep)].subrange(1, 1) =~= Seq::<BundleStep>::empty());
            }
        },
        _ => {},
    }
}

/// Dependency order at every file, not only the entry. Visiting a file puts
/// its import resolutions ahead of its own emission, so from any such state:
/// everything those resolutions bundle — every dependency not already visited
/// — lands in the output strictly before the file's own body, whatever work
/// follows. An import that resolves to an already-visited file is the silent
/// cycle skip: that partner's body may come later, which is the documented
/// cycle behavior.
pub proof fn lemma_walk_file_dependencies_first(
    entries: Seq<(String, String)>,
    visited: Seq<Seq<char>>,
    path: Seq<char>,
    rest: Seq<BundleStep>,
    out: Seq<char>,
)
    requires
        spec_tree_lookup(entries, path) is Some,
    ensures
        ({
            let src = spec_tree_lookup(entries, path).unwrap();
            let stripped = spec_strip_imports_exports(src);
            match spec_walk(entries, visited, spec_resolve_steps(path, src), out) {
                BundleOutcome::Done(deps_out, vis1) => {
                    if spec_transpile_fails(stripped, path) {
                        spec_walk(entries, visited, spec_steps_for(path, src) + rest, out)
                            == BundleOutcome::TranspileFail(path, stripped)
                    } else {
                        spec_walk(entries, visited, spec_steps_for(path, src) + rest, out)
                            == spec_walk(
                            entries,
                            vis1,
                            rest,
                            deps_out + oxc_codegen_output_spec(stripped, path) + "\n"@,
                        )
                    }
                },
                err => spec_walk(entries, visited, spec_steps_for(path, src) + rest, out) == err,
            }
        }),
{
    let src = spec_tree_lookup(entries, path).unwrap();
    assert(spec_steps_for(path, src) + rest =~= spec_resolve_steps(path, src) + (seq![
        BundleStep::Emit(path),
    ] + rest));
    lemma_walk_append(
        entries,
        visited,
        spec_resolve_steps(path, src),
        seq![BundleStep::Emit(path)] + rest,
        out,
    );
    match spec_walk(entries, visited, spec_resolve_steps(path, src), out) {
        BundleOutcome::Done(deps_out, vis1) => {
            let emit_then_rest = seq![BundleStep::Emit(path)] + rest;
            assert(emit_then_rest[0] == BundleStep::Emit(path));
            assert(emit_then_rest.subrange(1, emit_then_rest.len() as int) =~= rest);
        },
        _ => {},
    }
}

/// Round trip: bundling an entry whose source has no local imports is
/// transpiling that one stripped source directly — the output is its
/// transpiled body and the separator, and only the entry is visited. A
/// source whose stripped text fails to transpile fails the bundle with that
/// error.
pub proof fn lemma_bundle_single_file(entries: Seq<(String, String)>, entry: Seq<char>)
    requires
        spec_tree_lookup(entries, spec_normalize_path(entry)) is Some,
        spec_local_imports(spec_tree_lookup(entries, spec_normalize_path(entry)).unwrap()).len()
            == 0,
    ensures
        ({
            let ep = spec_normalize_path(entry);
            let src = spec_tree_lookup(entries, ep).unwrap();
            let stripped = spec_strip_imports_exports(src);
            if spec_transpile_fails(stripped, ep) {
                spec_bundle(entries, entry) == BundleOutcome::TranspileFail(ep, stripped)
            } else {
                spec_bundle(entries, entry) == BundleOutcome::Done(
                    oxc_codegen_output_spec(stripped, ep) + "\n"@,
                    seq![ep],
                )
            }
        }),
{
    let ep = spec_normalize_path(entry);
    let src = spec_tree_lookup(entries, ep).unwrap();
    lemma_bundle_dependencies_first(entries, entry);
    assert(spec_resolve_steps(ep, src) =~= Seq::<BundleStep>::empty());
    assert(spec_walk(entries, seq![ep], Seq::<BundleStep>::empty(), Seq::empty())
        == BundleOutcome::Done(Seq::<char>::empty(), seq![ep]));
    assert(Seq::<char>::empty() + oxc_codegen_output_spec(
        spec_strip_imports_exports(src),
        ep,
    ) + "\n"@ =~= oxc_codegen_output_spec(spec_strip_imports_exports(src), ep) + "\n"@);
}

/// Cycle safety: in a two-file cycle — the entry imports one module whose
/// only import resolves back to the entry — bundling terminates, the second
/// skip of the already-visited entry is silent, and each file's body appears
/// exactly once, the dependency's first. The entry thereby observes only
/// what the dependency's body produced; nothing recurses forever.
pub proof fn lemma_bundle_two_file_cycle(
    entries: Seq<(String, String)>,
    entry: Seq<char>,
    other: Seq<char>,
)
    requires
        ({
            let ep = spec_normalize_path(entry);
            &&& spec_tree_lookup(entries, ep) is Some
            &&& spec_tree_lookup(entries, other) is Some
            &&& ep != other
            &&& spec_local_imports(spec_tree_lookup(entries, ep).unwrap()).len() == 1
            &&& spec_resolve(
                entries,
                spec_dirname(ep),
                spec_local_imports(spec_tree_lookup(entries, ep).unwrap())[0],
            ) == Some(other)
            &&& spec_local_imports(spec_tree_lookup(entries, other).unwrap()).len() == 1
            &&& spec_resolve(
                entries,
                spec_dirname(other),
                spec_local_imports(spec_tree_lookup(entries, other).unwrap())[0],
            ) == Some(ep)
            &&& !spec_transpile_fails(
                spec_strip_imports_exports(spec_tree_lookup(entries, ep).unwrap()),
                ep,
            )
            &&& !spec_transpile_fails(
                spec_strip_imports_exports(spec_tree_lookup(entries, other).unwrap()),
                other,
            )
        }),
    ensures
        ({
            let ep = spec_normalize_path(entry);
            let code_e = oxc_codegen_output_spec(
                spec_strip_imports_exports(spec_tree_lookup(entries, ep).unwrap()),
                ep,
            );
            let code_o = oxc_codegen_output_spec(
                spec_strip_imports_exports(spec_tree_lookup(entries, other).unwrap()),
                other,
            );
            spec_bundle(entries, entry) == BundleOutcome::Done(
                code_o + "\n"@ + code_e + "\n"@,
                seq![ep, other],
            )
        }),
{
    let ep = spec_normalize_path(entry);
    let src_e = spec_tree_lookup(entries, ep).unwrap();
    let src_o = spec_tree_lookup(entries, other).unwrap();
    let imp_e = spec_local_imports(src_e)[0];
    let imp_o = spec_local_imports(src_o)[0];
    let code_e = oxc_codegen_output_spec(spec_strip_imports_exports(src_e), ep);
    let code_o = oxc_codegen_output_spec(spec_strip_imports_exports(src_o), other);
    let s0 = spec_steps_for(ep, src_e);
    assert(s0 =~= seq![BundleStep::Resolve(ep, imp_e), BundleStep::Emit(ep)]) by {
        assert(spec_local_imports(src_e) =~= seq![imp_e]);
        assert(spec_resolve_steps(ep, src_e) =~= seq![BundleStep::Resolve(ep, imp_e)]);
    }
    // Step one: resolve the entry's import to the other file and walk into it.
    assert(!seq![ep].contains(other)) by {
        if seq![ep].contains(other) {
            let k = choose|k: int| 0 <= k < 1 && seq![ep][k] == other;
        }
    }
    let s1 = spec_steps_for(other, src_o) + s0.subrange(1, 2);
    assert(spec_walk(entries, seq![ep], s0, Seq::empty()) == spec_walk(
        entries,
        seq![ep].push(other),
        s1,
        Seq::empty(),
    ));
    // Step two: the other file's import resolves back to the visited entry
    // and is skipped silently.
    assert(s1 =~= seq![
        BundleStep::Resolve(other, imp_o),
        BundleStep::Emit(other),
        BundleStep::Emit(ep),
    ]) by {
        assert(spec_local_imports(src_o) =~= seq![imp_o]);
        assert(spec_resolve_steps(other, src_o) =~= seq![BundleStep::Resolve(other, imp_o)]);
        assert(s0.subrange(1, 2) =~= seq![BundleStep::Emit(ep)]);
    }
    let vis = seq![ep].push(other);
    assert(vis.contains(ep)) by {
        assert(vis[0] == ep);
    }
    let s2 = seq![BundleStep::Emit(other), BundleStep::Emit(ep)];
    assert(s1.subrange(1, 3) =~= s2);
    assert(spec_walk(entries, vis, s1, Seq::empty()) == spec_walk(
        entries,
        vis,
        s2,
        Seq::empty(),
    ));
    // Step three: emit the dependency's body first.
    let out1 = Seq::<char>::empty() + code_o + "\n"@;
    assert(s2.subrange(1, 2) =~= seq![BundleStep::Emit(ep)]);
    assert(spec_walk(entries, vis, s2, Seq::empty()) == spec_walk(
        entries,
        vis,
        seq![BundleStep::Emit(ep)],
        out1,
    ));
    // Step four: emit the entry's body last.
    let out2 = out1 + code_e + "\n"@;
    assert(seq![BundleStep::Emit(ep)].subrange(1, 1) =~= Seq::<BundleStep>::empty());
    assert(spec_walk(entries, vis, seq![BundleStep::Emit(ep)], out1) == spec_walk(
        entries,
        vis,
        Seq::<BundleStep>::empty(),
        out2,
    ));
    assert(spec_walk(entries, vis, Seq::<BundleStep>::empty(), out2) == BundleOutcome::Done(
        out2,
        vis,
    ));
    assert(out2 =~= code_o + "\n"@ + code_e + "\n"@);
    assert(vis =~= seq![ep, other]);
}

} // verus!
