//! What one transform call produces, and the rules that name its output
//! modules.
use crate::path::{extension_of, file_name_of, starts_with, PathData};
use crate::transform::Hook;
use crate::utils::Diagnostic;
use vstd::prelude::*;

verus! {

/// What is reported of each extracted hook.
#[derive(Debug)]
pub struct HookAnalysis {
    pub origin: String,
    pub name: String,
    pub entry: Option<String>,
    pub canonical_filename: String,
    pub local_decl: Vec<String>,
    pub local_idents: Vec<String>,
}

#[derive(Debug, Clone, Copy, PartialEq, Eq, Structural)]
pub enum MinifyMode {
    Minify,
    Simplify,
    /// No minification.
    Disabled,
}

/// One output module.
#[derive(Debug)]
pub struct TransformModule {
    pub path: String,
    pub code: String,
    pub map: Option<Vec<u8>>,
    pub is_entry: bool,
}

#[derive(Debug)]
pub struct TransformStringResult {
    pub path: String,
    pub code: String,
    pub map: Option<String>,
}

/// The outputs of one or more transform calls.
#[derive(Debug)]
pub struct TransformResult {
    pub modules: Vec<TransformModule>,
    pub diagnostics: Vec<Diagnostic>,
    pub hooks: Vec<HookAnalysis>,
    pub is_type_script: bool,
    pub is_jsx: bool,
}

impl TransformResult {
    pub fn new() -> (r: Self)
        ensures
            r.modules@.len() == 0,
            r.diagnostics@.len() == 0,
            r.hooks@.len() == 0,
            !r.is_type_script,
            !r.is_jsx,
    {
        TransformResult {
            modules: Vec::new(),
            diagnostics: Vec::new(),
            hooks: Vec::new(),
            is_type_script: false,
            is_jsx: false,
        }
    }

    /// Moves the modules, hooks and diagnostics of `output` to the end of
    /// this result's.
    pub fn append(&mut self, output: &mut Self)
        ensures
            final(self).modules@ == old(self).modules@ + old(output).modules@,
            final(self).hooks@ == old(self).hooks@ + old(output).hooks@,
            final(self).diagnostics@ == old(self).diagnostics@ + old(output).diagnostics@,
            final(self).is_type_script == old(self).is_type_script,
            final(self).is_jsx == old(self).is_jsx,
            final(output).modules@.len() == 0,
            final(output).hooks@.len() == 0,
            final(output).diagnostics@.len() == 0,
            final(output).is_type_script == old(output).is_type_script,
            final(output).is_jsx == old(output).is_jsx,
    {
        self.modules.append(&mut output.modules);
        self.hooks.append(&mut output.hooks);
        self.diagnostics.append(&mut output.diagnostics);
    }
}

/// The language of a file by its extension: (TypeScript, JSX).
pub open spec fn language_of(filename: Seq<char>) -> (bool, bool) {
    let ext = extension_of(file_name_of(filename));
    if ext == "ts"@ {
        (true, false)
    } else if ext == "js"@ {
        (false, false)
    } else if ext == "jsx"@ {
        (false, true)
    } else {
        (true, true)
    }
}

/// Whether a file is TypeScript and whether it holds JSX, by its extension.
pub fn parse_filename(filename: &str) -> (r: (bool, bool))
    ensures
        r == language_of(filename@),
{
    let p = crate::path::parse_path(filename);
    let ext = p.extension.as_str();
    if crate::text::str_eq(ext, "ts") {
        (true, false)
    } else if crate::text::str_eq(ext, "js") {
        (false, false)
    } else if crate::text::str_eq(ext, "jsx") {
        (false, true)
    } else {
        (true, true)
    }
}

/// The extension of the output modules: `js` once transpiled, the input's
/// own otherwise.
pub open spec fn output_extension(path: PathData, transpile: bool) -> Seq<char> {
    if transpile {
        "js"@
    } else {
        path.extension@
    }
}

fn output_extension_of(path: &PathData, transpile: bool) -> (r: &str)
    ensures
        r@ == output_extension(*path, transpile),
{
    if transpile {
        "js"
    } else {
        path.extension.as_str()
    }
}

/// The path of a hook's module: `<canonical_filename>.<extension>`.
pub fn hook_module_path(canonical_filename: &str, path: &PathData, transpile: bool) -> (r: String)
    ensures
        r@ == canonical_filename@ + "."@ + output_extension(*path, transpile),
{
    let mut out = String::from_str(canonical_filename);
    out.append(".");
    out.append(output_extension_of(path, transpile));
    out
}

/// The path of the rewritten entry module: `<dir>/<file_stem>.<extension>`,
/// or `<file_stem>.<extension>` where the directory is empty.
pub fn main_module_path(path: &PathData, transpile: bool) -> (r: String)
    ensures
        r@ == (if path.dir@.len() == 0 {
            Seq::empty()
        } else {
            path.dir@ + "/"@
        }) + path.file_stem@ + "."@ + output_extension(*path, transpile),
{
    let mut out = String::new();
    if path.dir.as_str().unicode_len() > 0 {
        out.append(path.dir.as_str());
        out.append("/");
    }
    out.append(path.file_stem.as_str());
    out.append(".");
    out.append(output_extension_of(path, transpile));
    proof {
        if path.dir@.len() == 0 {
            assert(out@ =~= Seq::<char>::empty() + path.file_stem@ + "."@ + output_extension(*path, transpile));
        }
    }
    out
}

/// Splits a recorded hook into what is reported of it and its body.
pub fn hook_analysis<E>(h: Hook<E>) -> (r: (HookAnalysis, E))
    ensures
        r.0.origin == h.origin,
        r.0.name == h.name,
        r.0.entry == h.entry,
        r.0.canonical_filename == h.canonical_filename,
        r.0.local_decl == h.local_decl,
        r.0.local_idents == h.local_idents,
        r.1 == h.expr,
{
    let Hook { entry, canonical_filename, name, module_index: _, expr, local_decl, local_idents, origin } = h;
    (HookAnalysis { origin, name, entry, canonical_filename, local_decl, local_idents }, expr)
}

} // verus!
