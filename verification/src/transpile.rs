//! Typed-script to plain-script transpilation, and the textual module-syntax
//! rules used before bundling.
//!
//! The pipeline parses one source unit, builds a semantic model, strips
//! type-only constructs and renders the tree back to executable script text.
//! Each stage is fatal on error and carries all collected messages.

use vstd::prelude::*;
use crate::text::{
    contains_str, find_from, join_strs, replace_all, spec_contains, spec_find_from, spec_join,
    spec_lines, spec_replace, spec_starts_with, spec_trim, split_lines, starts_with, trim_str,
};

verus! {

/// A failed transpilation, one variant per pipeline stage, each carrying all
/// messages that the stage collected.
#[derive(Debug, Clone)]
pub enum TranspileError {
    /// The source text could not be parsed.
    Syntax(Vec<String>),
    /// The semantic model over the tree reported errors.
    Semantic(Vec<String>),
    /// Stripping type-only constructs failed.
    Transform(Vec<String>),
    /// Rendering the tree back to text failed.
    Codegen(Vec<String>),
}

/// The parse diagnostics that the syntax stage collects for a source unit.
/// A function of the text and the unit name alone.
pub uninterp spec fn oxc_parse_errors_spec(source: Seq<char>, unit: Seq<char>) -> Seq<String>;

/// The diagnostics of the semantic stage, run after a parse of the same unit.
pub uninterp spec fn oxc_semantic_errors_spec(source: Seq<char>, unit: Seq<char>) -> Seq<String>;

/// The diagnostics of the type-stripping stage, run after parse and semantic
/// stages of the same unit.
pub uninterp spec fn oxc_transform_errors_spec(source: Seq<char>, unit: Seq<char>) -> Seq<String>;

/// The executable script text that the full pipeline renders for a unit.
pub uninterp spec fn oxc_codegen_output_spec(source: Seq<char>, unit: Seq<char>) -> Seq<char>;

/// Relies on oxc_parser::Parser::parse: parses `source` as the unit named
/// `unit` and reports the collected diagnostics, which depend on the two
/// arguments alone.
#[verifier::external_body]
fn oxc_parse_errors(source: &str, unit: &str) -> (r: Vec<String>)
    ensures
        r@ == oxc_parse_errors_spec(source@, unit@),
{
    let allocator = oxc_allocator::Allocator::default();
    let st = oxc_span::SourceType::from_path(unit).unwrap_or_default();
    let ret = oxc_parser::Parser::new(&allocator, source, st).parse();
    ret.diagnostics.into_vec().iter().map(|e| e.to_string()).collect()
}

/// Relies on oxc_semantic::SemanticBuilder::build: builds the semantic model
/// over a fresh parse of the unit and reports its diagnostics, a function of
/// the two arguments alone.
#[verifier::external_body]
fn oxc_semantic_errors(source: &str, unit: &str) -> (r: Vec<String>)
    ensures
        r@ == oxc_semantic_errors_spec(source@, unit@),
{
    let allocator = oxc_allocator::Allocator::default();
    let st = oxc_span::SourceType::from_path(unit).unwrap_or_default();
    let ret = oxc_parser::Parser::new(&allocator, source, st).parse();
    let sem = oxc_semantic::SemanticBuilder::new().build(&ret.program);
    sem.diagnostics.into_vec().iter().map(|e| e.to_string()).collect()
}

/// Relies on oxc_transformer::Transformer::build_with_scoping: strips
/// type-only constructs from a fresh parse of the unit and reports the
/// transformer's diagnostics, a function of the two arguments alone.
#[verifier::external_body]
fn oxc_transform_errors(source: &str, unit: &str) -> (r: Vec<String>)
    ensures
        r@ == oxc_transform_errors_spec(source@, unit@),
{
    let allocator = oxc_allocator::Allocator::default();
    let st = oxc_span::SourceType::from_path(unit).unwrap_or_default();
    let ret = oxc_parser::Parser::new(&allocator, source, st).parse();
    let mut program = ret.program;
    let sem = oxc_semantic::SemanticBuilder::new().build(&program);
    let opts = oxc_transformer::TransformOptions::default();
    let tret = oxc_transformer::Transformer::new(&allocator, std::path::Path::new(unit), &opts)
        .build_with_scoping(sem.semantic.into_scoping(), &mut program);
    tret.diagnostics.into_vec().iter().map(|e| e.to_string()).collect()
}

/// Relies on oxc_codegen::Codegen::build: renders the parsed, type-stripped
/// tree of the unit back to script text, a function of the two arguments
/// alone.
#[verifier::external_body]
fn oxc_codegen_output(source: &str, unit: &str) -> (r: String)
    ensures
        r@ == oxc_codegen_output_spec(source@, unit@),
{
    let allocator = oxc_allocator::Allocator::default();
    let st = oxc_span::SourceType::from_path(unit).unwrap_or_default();
    let ret = oxc_parser::Parser::new(&allocator, source, st).parse();
    let mut program = ret.program;
    let sem = oxc_semantic::SemanticBuilder::new().build(&program);
    let opts = oxc_transformer::TransformOptions::default();
    let _ = oxc_transformer::Transformer::new(&allocator, std::path::Path::new(unit), &opts)
        .build_with_scoping(sem.semantic.into_scoping(), &mut program);
    oxc_codegen::Codegen::new().build(&program).code
}

/// Transpiles one typed source unit to executable script text.
///
/// The stages run in order — parse, semantic model, type stripping, rendering
/// — and the first stage with diagnostics is fatal and names every collected
/// message. Identical input text and unit name give identical output.
pub fn transpile_typescript(source: &str, filename: &str) -> (r: Result<String, TranspileError>)
    ensures
        ({
            let pe = oxc_parse_errors_spec(source@, filename@);
            let se = oxc_semantic_errors_spec(source@, filename@);
            let te = oxc_transform_errors_spec(source@, filename@);
            &&& (pe.len() > 0 ==> (r matches Err(TranspileError::Syntax(v)) && v@ == pe))
            &&& (pe.len() == 0 && se.len() > 0 ==> (r matches Err(TranspileError::Semantic(v))
                && v@ == se))
            &&& (pe.len() == 0 && se.len() == 0 && te.len() > 0 ==> (r matches Err(
                TranspileError::Transform(v),
            ) && v@ == te))
            &&& (pe.len() == 0 && se.len() == 0 && te.len() == 0 ==> (r matches Ok(code) && code@
                == oxc_codegen_output_spec(source@, filename@)))
        }),
{
    let pe = oxc_parse_errors(source, filename);
    if pe.len() > 0 {
        return Err(TranspileError::Syntax(pe));
    }
    let se = oxc_semantic_errors(source, filename);
    if se.len() > 0 {
        return Err(TranspileError::Semantic(se));
    }
    let te = oxc_transform_errors(source, filename);
    if te.len() > 0 {
        return Err(TranspileError::Transform(te));
    }
    Ok(oxc_codegen_output(source, filename))
}

/// Whether a source text statically contains module import syntax: an
/// `import ` keyword somewhere and a ` from ` clause somewhere.
pub open spec fn spec_has_es_imports(s: Seq<char>) -> bool {
    spec_contains(s, "import "@) && spec_contains(s, " from "@)
}

/// Whether any line of the text, once trimmed, begins with `export `.
pub open spec fn spec_has_export_line(lines: Seq<Seq<char>>) -> bool {
    exists|i: int|
        0 <= i < lines.len() && spec_starts_with(spec_trim(lines[i]), "export "@)
}

/// Whether the text contains module import syntax.
pub fn has_es_imports(source: &str) -> (r: bool)
    ensures
        r == spec_has_es_imports(source@),
{
    contains_str(source, "import ") && contains_str(source, " from ")
}

/// Whether the text contains module syntax at all — import syntax, or a line
/// beginning with `export `. Such a unit needs bundling; a plain script does
/// not.
pub fn has_es_module_syntax(source: &str) -> (r: bool)
    ensures
        r == (spec_has_es_imports(source@) || spec_has_export_line(spec_lines(source@))),
{
    if has_es_imports(source) {
        return true;
    }
    let lines = split_lines(source);
    let ghost lviews = spec_lines(source@);
    let n = lines.len();
    let mut i: usize = 0;
    while i < n
        invariant
            0 <= i <= n,
            n == lines@.len(),
            lviews == spec_lines(source@),
            lviews.len() == n,
            forall|j: int| 0 <= j < n ==> lines@[j]@ == lviews[j],
            forall|j: int| 0 <= j < i ==> !spec_starts_with(spec_trim(lviews[j]), "export "@),
        decreases n - i,
    {
        let t = trim_str(lines[i].as_str());
        if starts_with(t.as_str(), "export ") {
            proof {
                assert(spec_starts_with(spec_trim(lviews[i as int]), "export "@));
                assert(spec_has_export_line(lviews));
            }
            return true;
        }
        i += 1;
    }
    false
}

/// The relative import specifier of one line, if the line is an import of a
/// local module: the line must begin (after trimming) with `import `, carry a
/// ` from ` clause followed by a quoted specifier, and the specifier must
/// begin with `./` or `../`.
pub open spec fn spec_import_of_line(line: Seq<char>) -> Option<Seq<char>> {
    let t = spec_trim(line);
    if !spec_starts_with(t, "import "@) {
        None
    } else {
        match spec_find_from(t, " from "@, 0) {
            None => None,
            Some(fi) => {
                let after = t.subrange(fi + 6, t.len() as int);
                if after.len() == 0 {
                    None
                } else if after[0] == '"' || after[0] == '\'' {
                    match spec_find_from(after, seq![after[0]], 1) {
                        None => None,
                        Some(e) => {
                            let p = after.subrange(1, e);
                            if spec_starts_with(p, "./"@) || spec_starts_with(p, "../"@) {
                                Some(p)
                            } else {
                                None
                            }
                        },
                    }
                } else {
                    None
                }
            },
        }
    }
}

/// The local import specifiers of a sequence of lines, in line order.
pub open spec fn spec_imports_of_lines(lines: Seq<Seq<char>>) -> Seq<Seq<char>>
    decreases lines.len(),
{
    if lines.len() == 0 {
        Seq::empty()
    } else {
        (match spec_import_of_line(lines[0]) {
            Some(p) => seq![p],
            None => Seq::empty(),
        }) + spec_imports_of_lines(lines.subrange(1, lines.len() as int))
    }
}

/// The local import specifiers of a source text, in source order.
pub open spec fn spec_local_imports(s: Seq<char>) -> Seq<Seq<char>> {
    spec_imports_of_lines(spec_lines(s))
}

/// The local import specifier of one line, if any.
fn import_of_line(line: &str) -> (r: Option<String>)
    ensures
        match r {
            Some(p) => spec_import_of_line(line@) == Some(p@),
            None => spec_import_of_line(line@) is None,
        },
{
    let t = trim_str(line);
    let ts = t.as_str();
    if !starts_with(ts, "import ") {
        return None;
    }
    proof {
        reveal_strlit(" from ");
    }
    let fi = match find_from(ts, " from ", 0) {
        Some(fi) => fi,
        None => {
            return None;
        },
    };
    let tlen = ts.unicode_len();
    let after = ts.substring_char(fi + 6, tlen);
    let alen = after.unicode_len();
    if alen == 0 {
        return None;
    }
    let q = after.get_char(0);
    let e = if q == '"' {
        proof {
            reveal_strlit("\"");
            assert("\""@ =~= seq!['"']);
        }
        match find_from(after, "\"", 1) {
            Some(e) => e,
            None => {
                return None;
            },
        }
    } else if q == '\'' {
        proof {
            reveal_strlit("'");
            assert("'"@ =~= seq!['\'']);
        }
        match find_from(after, "'", 1) {
            Some(e) => e,
            None => {
                return None;
            },
        }
    } else {
        return None;
    };
    let p = after.substring_char(1, e);
    if starts_with(p, "./") || starts_with(p, "../") {
        Some(p.to_owned())
    } else {
        None
    }
}

/// Extracts the relative import specifiers of a source text, in source order.
/// Bare package specifiers are ignored: bundling covers only the local file
/// tree.
pub fn extract_local_imports(source: &str) -> (r: Vec<String>)
    ensures
        r@.len() == spec_local_imports(source@).len(),
        forall|i: int| 0 <= i < r@.len() ==> r@[i]@ == spec_local_imports(source@)[i],
{
    let lines = split_lines(source);
    let ghost lviews = spec_lines(source@);
    let n = lines.len();
    let mut result: Vec<String> = Vec::new();
    let mut i: usize = 0;
    proof {
        assert(lviews.subrange(0, n as int) =~= lviews);
        assert(result@.map_values(|p: String| p@) + spec_imports_of_lines(lviews)
            =~= spec_imports_of_lines(lviews));
    }
    while i < n
        invariant
            0 <= i <= n,
            n == lines@.len(),
            lviews.len() == n,
            forall|j: int| 0 <= j < n ==> lines@[j]@ == lviews[j],
            spec_imports_of_lines(lviews) == result@.map_values(|p: String| p@)
                + spec_imports_of_lines(lviews.subrange(i as int, n as int)),
        decreases n - i,
    {
        let ghost before = result@;
        let ghost rem = lviews.subrange(i as int, n as int);
        proof {
            assert(rem[0] == lviews[i as int]);
            assert(rem.subrange(1, rem.len() as int) =~= lviews.subrange(i as int + 1, n as int));
        }
        match import_of_line(lines[i].as_str()) {
            Some(p) => {
                result.push(p);
                proof {
                    assert(result@.map_values(|p: String| p@) =~= before.map_values(
                        |p: String| p@,
                    ).push(result@[result@.len() - 1]@));
                    assert(before.map_values(|p: String| p@).push(
                        spec_import_of_line(lviews[i as int]).unwrap(),
                    ) + spec_imports_of_lines(lviews.subrange(i as int + 1, n as int))
                        =~= before.map_values(|p: String| p@) + spec_imports_of_lines(rem));
                }
            },
            None => {},
        }
        i += 1;
    }
    proof {
        assert(lviews.subrange(n as int, n as int) =~= Seq::<Seq<char>>::empty());
        assert(spec_imports_of_lines(lviews) =~= result@.map_values(|p: String| p@));
        assert forall|j: int| 0 <= j < result@.len() implies result@[j]@ == spec_local_imports(
            source@,
        )[j] by {
            assert(result@.map_values(|p: String| p@)[j] == result@[j]@);
        }
    }
    result
}

/// What one line becomes when import statements are stripped and `export`
/// keywords are removed from declarations: `None` drops the line, `Some`
/// keeps its replacement.
pub open spec fn spec_strip_line(line: Seq<char>) -> Option<Seq<char>> {
    let t = spec_trim(line);
    if spec_starts_with(t, "import "@) && spec_contains(t, " from "@) {
        None
    } else if spec_starts_with(t, "export default "@) {
        None
    } else if spec_starts_with(t, "export {"@) && spec_contains(t, " from "@) {
        None
    } else if spec_starts_with(t, "export type "@) {
        Some(spec_replace(line, "export type "@, "type "@))
    } else if spec_starts_with(t, "export interface "@) {
        Some(spec_replace(line, "export interface "@, "interface "@))
    } else if spec_starts_with(t, "export const "@) {
        Some(spec_replace(line, "export const "@, "const "@))
    } else if spec_starts_with(t, "export let "@) {
        Some(spec_replace(line, "export let "@, "let "@))
    } else if spec_starts_with(t, "export var "@) {
        Some(spec_replace(line, "export var "@, "var "@))
    } else if spec_starts_with(t, "export function "@) {
        Some(spec_replace(line, "export function "@, "function "@))
    } else if spec_starts_with(t, "export async function "@) {
        Some(spec_replace(line, "export async function "@, "async function "@))
    } else if spec_starts_with(t, "export class "@) {
        Some(spec_replace(line, "export class "@, "class "@))
    } else if spec_starts_with(t, "export enum "@) {
        Some(spec_replace(line, "export enum "@, "enum "@))
    } else {
        Some(line)
    }
}

/// The lines kept by stripping, in order.
pub open spec fn spec_kept_lines(lines: Seq<Seq<char>>) -> Seq<Seq<char>>
    decreases lines.len(),
{
    if lines.len() == 0 {
        Seq::empty()
    } else {
        (match spec_strip_line(lines[0]) {
            Some(l) => seq![l],
            None => Seq::empty(),
        }) + spec_kept_lines(lines.subrange(1, lines.len() as int))
    }
}

/// A source text with import lines removed and `export` keywords stripped
/// from declarations, lines joined by a newline.
pub open spec fn spec_strip_imports_exports(s: Seq<char>) -> Seq<char> {
    spec_join(spec_kept_lines(spec_lines(s)), "\n"@)
}

/// What one line becomes under stripping.
fn strip_line(line: &str) -> (r: Option<String>)
    ensures
        match r {
            Some(l) => spec_strip_line(line@) == Some(l@),
            None => spec_strip_line(line@) is None,
        },
{
    proof {
        reveal_strlit("export type ");
        reveal_strlit("export interface ");
        reveal_strlit("export const ");
        reveal_strlit("export let ");
        reveal_strlit("export var ");
        reveal_strlit("export function ");
        reveal_strlit("export async function ");
        reveal_strlit("export class ");
        reveal_strlit("export enum ");
    }
    let t = trim_str(line);
    let ts = t.as_str();
    if starts_with(ts, "import ") && contains_str(ts, " from ") {
        None
    } else if starts_with(ts, "export default ") {
        None
    } else if starts_with(ts, "export {") && contains_str(ts, " from ") {
        None
    } else if starts_with(ts, "export type ") {
        Some(replace_all(line, "export type ", "type "))
    } else if starts_with(ts, "export interface ") {
        Some(replace_all(line, "export interface ", "interface "))
    } else if starts_with(ts, "export const ") {
        Some(replace_all(line, "export const ", "const "))
    } else if starts_with(ts, "export let ") {
        Some(replace_all(line, "export let ", "let "))
    } else if starts_with(ts, "export var ") {
        Some(replace_all(line, "export var ", "var "))
    } else if starts_with(ts, "export function ") {
        Some(replace_all(line, "export function ", "function "))
    } else if starts_with(ts, "export async function ") {
        Some(replace_all(line, "export async function ", "async function "))
    } else if starts_with(ts, "export class ") {
        Some(replace_all(line, "export class ", "class "))
    } else if starts_with(ts, "export enum ") {
        Some(replace_all(line, "export enum ", "enum "))
    } else {
        Some(line.to_owned())
    }
}

/// Strips import statements and `export` keywords from a source text, turning
/// module syntax into plain script syntax: import lines and `export default`
/// and re-export lines are dropped, exported declarations keep their binding
/// under the same name.
pub fn strip_imports_and_exports(source: &str) -> (r: String)
    ensures
        r@ == spec_strip_imports_exports(source@),
{
    let lines = split_lines(source);
    let ghost lviews = spec_lines(source@);
    let n = lines.len();
    let mut kept: Vec<String> = Vec::new();
    let mut i: usize = 0;
    proof {
        assert(lviews.subrange(0, n as int) =~= lviews);
        assert(kept@.map_values(|l: String| l@) + spec_kept_lines(lviews) =~= spec_kept_lines(
            lviews,
        ));
    }
    while i < n
        invariant
            0 <= i <= n,
            n == lines@.len(),
            lviews.len() == n,
            forall|j: int| 0 <= j < n ==> lines@[j]@ == lviews[j],
            spec_kept_lines(lviews) == kept@.map_values(|l: String| l@) + spec_kept_lines(
                lviews.subrange(i as int, n as int),
            ),
        decreases n - i,
    {
        let ghost before = kept@;
        let ghost rem = lviews.subrange(i as int, n as int);
        proof {
            assert(rem[0] == lviews[i as int]);
            assert(rem.subrange(1, rem.len() as int) =~= lviews.subrange(i as int + 1, n as int));
        }
        match strip_line(lines[i].as_str()) {
            Some(l) => {
                kept.push(l);
                proof {
                    assert(kept@.map_values(|l: String| l@) =~= before.map_values(
                        |l: String| l@,
                    ).push(kept@[kept@.len() - 1]@));
                    assert(before.map_values(|l: String| l@).push(
                        spec_strip_line(lviews[i as int]).unwrap(),
                    ) + spec_kept_lines(lviews.subrange(i as int + 1, n as int)) =~= before.map_values(
                        |l: String| l@,
                    ) + spec_kept_lines(rem));
                }
            },
            None => {},
        }
        i += 1;
    }
    proof {
        assert(lviews.subrange(n as int, n as int) =~= Seq::<Seq<char>>::empty());
        assert(spec_kept_lines(lviews) =~= kept@.map_values(|l: String| l@));
    }
    join_strs(&kept, "\n")
}

} // verus!
