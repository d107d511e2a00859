//! The hook transform's state and decisions: the context stack that names
//! hooks, the recognition of hook call sites, the record of each extracted
//! hook, and the stub that replaces it.
use crate::collector::{GlobalCollect, HookCollect};
use crate::entry_strategy::{BundlingPolicy, EntryPolicy, opt_view};
use crate::path::{fix_path, fix_path_spec, PathData, PathError};
use crate::text::{
    ascii_lower_seq, char_to_ascii_lowercase, contains_str, decimal, push_char, strs,
    usize_to_string,
};
use vstd::prelude::*;
use vstd::multiset::*;

verus! {

broadcast use vstd::seq_lib::group_to_multiset_ensures;

/// An extracted hook; `E` is the folded body expression.
pub struct Hook<E> {
    pub entry: Option<String>,
    pub canonical_filename: String,
    pub name: String,
    pub module_index: usize,
    pub expr: E,
    pub local_decl: Vec<String>,
    pub local_idents: Vec<String>,
    pub origin: String,
}

/// State shared by the hooks of one transform call.
pub struct TransformContext {
    /// Hook names already given out.
    pub hooks_names: Vec<String>,
    pub bundling_policy: BundlingPolicy,
}

impl TransformContext {
    pub fn new(bundling_policy: BundlingPolicy) -> (r: Self)
        ensures
            r.hooks_names@.len() == 0,
            r.bundling_policy == bundling_policy,
    {
        TransformContext { hooks_names: Vec::new(), bundling_policy }
    }
}

/// Whether `c` may stand in a symbol as it is.
pub open spec fn is_sym_char(c: char) -> bool {
    ('A' <= c <= 'Z') || ('a' <= c <= 'z') || ('0' <= c <= '9') || c == '_'
}

pub open spec fn escape_char(c: char) -> char {
    if is_sym_char(c) {
        c
    } else {
        '_'
    }
}

/// `s` with every character outside `[A-Za-z0-9_]` replaced by `_`.
pub open spec fn escape_spec(s: Seq<char>) -> Seq<char> {
    s.map_values(|c: char| escape_char(c))
}

/// A valid hook name: a letter or `_`, then up to 30 letters, digits or `_`.
pub open spec fn valid_sym(s: Seq<char>) -> bool {
    &&& 1 <= s.len() <= 31
    &&& (('A' <= s[0] <= 'Z') || ('a' <= s[0] <= 'z') || s[0] == '_')
    &&& forall|i: int| 1 <= i < s.len() ==> is_sym_char(#[trigger] s[i])
}

/// The items of `stack` joined with `_`.
pub open spec fn join_underscore(stack: Seq<Seq<char>>) -> Seq<char>
    decreases stack.len(),
{
    if stack.len() == 0 {
        Seq::empty()
    } else if stack.len() == 1 {
        stack[0]
    } else {
        join_underscore(stack.drop_last()) + seq!['_'] + stack.last()
    }
}

/// The name that the context stack gives a hook, before it is made unique.
pub open spec fn context_base(stack: Seq<Seq<char>>) -> Seq<char> {
    if stack.len() == 0 {
        "_h"@
    } else {
        join_underscore(stack)
    }
}

/// The context name: the escaped stack name, with the number of hooks
/// recorded so far appended where the name is already in use.
pub open spec fn context_name(stack: Seq<Seq<char>>, used: Seq<Seq<char>>, count: nat) -> Seq<char> {
    let esc = escape_spec(context_base(stack));
    if used.contains(esc) {
        esc + decimal(count)
    } else {
        esc
    }
}

/// The second argument of a hook call.
pub enum SecondArg {
    Absent,
    /// A string literal.
    Str(String),
    /// Any other expression.
    Other,
}

/// A hook's final name: a valid string literal given as second argument, or
/// else the context name.
pub open spec fn final_name(ctx: Seq<char>, second: SecondArg) -> Seq<char> {
    match second {
        SecondArg::Str(s) => if valid_sym(s@) {
            s@
        } else {
            ctx
        },
        _ => ctx,
    }
}

/// The lower-case file stem of a hook's module.
pub open spec fn canonical_spec(file_prefix: Seq<char>, name: Seq<char>) -> Seq<char> {
    ascii_lower_seq("h_"@ + file_prefix + "_"@ + name)
}

/// A hook call site, named before its body is folded.
pub struct HookSite {
    pub name: String,
    pub canonical_filename: String,
    /// The second argument was a string literal that is not a valid name.
    pub invalid_name: bool,
}

/// What a recognised call is.
#[derive(Debug, Clone, Copy, PartialEq, Eq, Structural)]
pub enum CallKind {
    /// A hook to extract.
    Hook,
    /// A component declaration, to annotate as pure.
    Component,
    Other,
}

/// The shape of a call's first argument, as far as recognition needs it.
#[derive(Debug, Clone, Copy, PartialEq, Eq, Structural)]
pub enum FirstArg {
    Absent,
    /// A parameterless arrow whose body is `import("...")`: a stub's loader.
    ImportThunk,
    Other,
}

pub open spec fn call_kind_spec(callee: Seq<char>, first: FirstArg) -> CallKind {
    if callee == "qComponent"@ {
        CallKind::Component
    } else if callee == "qHook"@ && first != FirstArg::ImportThunk {
        CallKind::Hook
    } else {
        CallKind::Other
    }
}

/// Recognises a call by its callee identifier. A `qHook` call whose first
/// argument already loads a module is a stub, and is left alone.
pub fn classify_call(callee: &str, first: FirstArg) -> (r: CallKind)
    ensures
        r == call_kind_spec(callee@, first),
{
    if crate::text::str_eq(callee, "qComponent") {
        CallKind::Component
    } else if crate::text::str_eq(callee, "qHook") && first != FirstArg::ImportThunk {
        CallKind::Hook
    } else {
        CallKind::Other
    }
}

/// The call that replaces a hook: `qHook(() => import("<import_specifier>"), "<name>")`.
pub struct HookStub {
    pub callee: String,
    pub import_specifier: String,
    pub name: String,
}

/// The stub call for a hook named `symbol` whose module is at `url`.
pub fn create_inline_qhook(url: String, symbol: &str) -> (r: HookStub)
    ensures
        r.callee@ == "qHook"@,
        r.import_specifier@ == url@,
        r.name@ == symbol@,
{
    HookStub { callee: String::from_str("qHook"), import_specifier: url, name: String::from_str(symbol) }
}

/// A stub is not taken for a hook again: its first argument is the loader,
/// so a second pass leaves it in place.
pub proof fn lemma_stub_not_extracted_again(stub: HookStub)
    requires
        stub.callee@ == "qHook"@,
    ensures
        call_kind_spec(stub.callee@, FirstArg::ImportThunk) != CallKind::Hook,
{
}

/// `s` with every character outside `[A-Za-z0-9_]` replaced by `_`.
pub fn escape_sym(s: &str) -> (r: String)
    ensures
        r@ == escape_spec(s@),
{
    let n = s.unicode_len();
    let mut out = String::new();
    let mut i: usize = 0;
    while i < n
        invariant
            n == s@.len(),
            i <= n,
            out@ == escape_spec(s@.subrange(0, i as int)),
        decreases n - i,
    {
        let c = s.get_char(i);
        let e = if ('A' <= c && c <= 'Z') || ('a' <= c && c <= 'z') || ('0' <= c && c <= '9') || c == '_' {
            c
        } else {
            '_'
        };
        push_char(&mut out, e);
        assert(escape_spec(s@.subrange(0, i + 1)) =~= escape_spec(s@.subrange(0, i as int)).push(e));
        i += 1;
    }
    assert(s@.subrange(0, n as int) =~= s@);
    out
}

/// What `regex::Regex::is_match` says of `haystack` for the compiled
/// `pattern`, or `None` where the pattern does not compile.
pub uninterp spec fn regex_match_of(pattern: Seq<char>, haystack: Seq<char>) -> Option<bool>;

pub open spec fn sym_pattern() -> Seq<char> {
    "^[_a-zA-Z][_a-zA-Z0-9]{0,30}$"@
}

/// Relies on `regex::Regex::new` and `regex::Regex::is_match`: the pattern is
/// compiled and searched for in `haystack`. The hook name pattern is anchored
/// at both ends and uses ASCII classes only, so it matches exactly the valid
/// names.
#[verifier::external_body]
fn regex_is_match(pattern: &str, haystack: &str) -> (r: Option<bool>)
    ensures
        r == regex_match_of(pattern@, haystack@),
        pattern@ == sym_pattern() ==> r == Some(valid_sym(haystack@)),
{
    match regex::Regex::new(pattern) {
        Ok(re) => Some(re.is_match(haystack)),
        Err(_) => None,
    }
}

/// Whether `sym` is a valid hook name.
pub fn validate_sym(sym: &str) -> (r: bool)
    ensures
        r == valid_sym(sym@),
{
    let pattern = "^[_a-zA-Z][_a-zA-Z0-9]{0,30}$";
    match regex_is_match(pattern, sym) {
        Some(b) => b,
        None => false,
    }
}

/// `"h_" + file_prefix + "_" + name`, in lower case.
fn canonical_filename(file_prefix: &str, name: &str) -> (r: String)
    ensures
        r@ == canonical_spec(file_prefix@, name@),
{
    let mut raw = String::from_str("h_");
    raw.append(file_prefix);
    raw.append("_");
    raw.append(name);
    let src = raw.as_str();
    let n = src.unicode_len();
    let mut out = String::new();
    let mut i: usize = 0;
    while i < n
        invariant
            n == src@.len(),
            src@ == "h_"@ + file_prefix@ + "_"@ + name@,
            i <= n,
            out@ == ascii_lower_seq(src@.subrange(0, i as int)),
        decreases n - i,
    {
        let c = char_to_ascii_lowercase(src.get_char(i));
        push_char(&mut out, c);
        assert(ascii_lower_seq(src@.subrange(0, i + 1)) =~= ascii_lower_seq(src@.subrange(0, i as int)).push(c));
        i += 1;
    }
    assert(src@.subrange(0, n as int) =~= src@);
    out
}

/// The folding state of one transform pass over a module.
pub struct HookTransform<E> {
    /// Names of the enclosing declarations, JSX elements and properties.
    pub stack_ctxt: Vec<String>,
    /// Position of the current top-level module item.
    pub module_item: usize,
    /// The symbol that the current top-level item declares.
    pub root_sym: Option<String>,
    pub context: TransformContext,
    pub hooks: Vec<Hook<E>>,
    pub path_data: PathData,
}

pub open spec fn hook_names<E>(hooks: Seq<Hook<E>>) -> Seq<Seq<char>> {
    hooks.map_values(|h: Hook<E>| h.name@)
}

pub open spec fn sorted_desc<E>(hooks: Seq<Hook<E>>) -> bool {
    forall|i: int, j: int| 0 <= i < j < hooks.len() ==> hooks[i].module_index >= hooks[j].module_index
}

impl<E> HookTransform<E> {
    pub open spec fn stack(&self) -> Seq<Seq<char>> {
        strs(self.stack_ctxt@)
    }

    pub open spec fn used_names(&self) -> Seq<Seq<char>> {
        strs(self.context.hooks_names@)
    }

    /// Every recorded hook's name has been registered as used.
    pub open spec fn wf(&self) -> bool {
        forall|i: int| 0 <= i < self.hooks@.len() ==> self.used_names().contains(#[trigger] self.hooks@[i].name@)
    }

    pub fn new(context: TransformContext, path_data: PathData) -> (r: Self)
        ensures
            r.wf(),
            r.stack_ctxt@.len() == 0,
            r.module_item == 0,
            r.root_sym is None,
            r.hooks@.len() == 0,
            r.context == context,
            r.path_data == path_data,
    {
        HookTransform { stack_ctxt: Vec::new(), module_item: 0, root_sym: None, context, hooks: Vec::new(), path_data }
    }

    /// Enters a named scope.
    pub fn push_context(&mut self, name: String)
        ensures
            final(self).stack() == old(self).stack().push(name@),
            final(self).hooks == old(self).hooks,
            final(self).context == old(self).context,
            final(self).module_item == old(self).module_item,
            final(self).root_sym == old(self).root_sym,
            final(self).path_data == old(self).path_data,
    {
        self.stack_ctxt.push(name);
        assert(self.stack() =~= old(self).stack().push(name@));
    }

    /// Leaves the innermost named scope.
    pub fn pop_context(&mut self)
        ensures
            final(self).stack() == if old(self).stack().len() == 0 {
                old(self).stack()
            } else {
                old(self).stack().drop_last()
            },
            final(self).hooks == old(self).hooks,
            final(self).context == old(self).context,
            final(self).module_item == old(self).module_item,
            final(self).root_sym == old(self).root_sym,
            final(self).path_data == old(self).path_data,
    {
        let _ = self.stack_ctxt.pop();
        assert(self.stack() =~= if old(self).stack().len() == 0 {
            old(self).stack()
        } else {
            old(self).stack().drop_last()
        });
    }

    /// Sets the symbol that the current top-level item declares, or clears it.
    pub fn set_root_sym(&mut self, sym: Option<String>)
        ensures
            final(self).root_sym == sym,
            final(self).stack_ctxt == old(self).stack_ctxt,
            final(self).hooks == old(self).hooks,
            final(self).context == old(self).context,
            final(self).module_item == old(self).module_item,
            final(self).path_data == old(self).path_data,
    {
        self.root_sym = sym;
    }

    /// Moves on to the next top-level item.
    pub fn end_module_item(&mut self)
        requires
            old(self).module_item < usize::MAX,
        ensures
            final(self).module_item == old(self).module_item + 1,
            final(self).stack_ctxt == old(self).stack_ctxt,
            final(self).hooks == old(self).hooks,
            final(self).context == old(self).context,
            final(self).root_sym == old(self).root_sym,
            final(self).path_data == old(self).path_data,
    {
        self.module_item += 1;
    }

    fn join_stack(&self) -> (r: String)
        ensures
            r@ == join_underscore(self.stack()),
    {
        let mut out = String::new();
        let mut i: usize = 0;
        while i < self.stack_ctxt.len()
            invariant
                i <= self.stack_ctxt@.len(),
                out@ == join_underscore(self.stack().subrange(0, i as int)),
            decreases self.stack_ctxt@.len() - i,
        {
            proof {
                assert(self.stack().subrange(0, i + 1).drop_last() =~= self.stack().subrange(0, i as int));
            }
            if i > 0 {
                out.append("_");
            }
            out.append(self.stack_ctxt[i].as_str());
            proof {
                reveal_strlit("_");
                if i == 0 {
                    assert(out@ =~= self.stack().subrange(0, 1)[0]);
                } else {
                    assert(out@ =~= join_underscore(self.stack().subrange(0, i as int)) + seq!['_']
                        + self.stack().subrange(0, i + 1).last());
                }
            }
            i += 1;
        }
        assert(self.stack().subrange(0, self.stack_ctxt@.len() as int) =~= self.stack());
        out
    }

    /// The name that the context gives a hook here.
    pub fn get_context_name(&self) -> (r: String)
        ensures
            r@ == context_name(self.stack(), self.used_names(), self.hooks@.len()),
    {
        let base = if self.stack_ctxt.len() == 0 {
            String::from_str("_h")
        } else {
            self.join_stack()
        };
        let mut ctx = escape_sym(base.as_str());
        if contains_str(&self.context.hooks_names, ctx.as_str()) {
            let count = usize_to_string(self.hooks.len());
            ctx.append(count.as_str());
        }
        ctx
    }

    /// Names a hook call site from the context and its second argument.
    pub fn begin_hook(&self, second: &SecondArg) -> (r: HookSite)
        ensures
            r.name@ == final_name(context_name(self.stack(), self.used_names(), self.hooks@.len()), *second),
            r.canonical_filename@ == canonical_spec(self.path_data.file_prefix@, r.name@),
            r.invalid_name == (second matches SecondArg::Str(s) && !valid_sym(s@)),
    {
        let ctx = self.get_context_name();
        let (name, invalid_name) = match second {
            SecondArg::Str(s) => if validate_sym(s.as_str()) {
                (s.clone(), false)
            } else {
                (ctx, true)
            },
            _ => (ctx, false),
        };
        let canonical = canonical_filename(self.path_data.file_prefix.as_str(), name.as_str());
        HookSite { name, canonical_filename: canonical, invalid_name }
    }

    /// Records the hook named by `site`, whose folded body is `expr`, and
    /// gives the stub that replaces the call. The body declares `declared`
    /// and refers to `referenced`. Where the stub's import specifier cannot
    /// be formed nothing is recorded.
    pub fn record_hook(
        &mut self,
        site: HookSite,
        expr: E,
        declared: &Vec<String>,
        referenced: &Vec<String>,
        global: &GlobalCollect,
    ) -> (r: Result<HookStub, PathError>)
        requires
            old(self).wf(),
        ensures
            final(self).wf(),
            hook_names(old(self).hooks@).no_duplicates() && !old(self).used_names().contains(site.name@)
                ==> hook_names(final(self).hooks@).no_duplicates(),
            final(self).stack_ctxt == old(self).stack_ctxt,
            final(self).module_item == old(self).module_item,
            final(self).path_data == old(self).path_data,
            final(self).context.bundling_policy == old(self).context.bundling_policy,
            ({
                let entry = old(self).context.bundling_policy.entry_for(site.name@, old(self).stack());
                let target = "./"@ + match entry {
                    Some(e) => e,
                    None => site.canonical_filename@,
                };
                match fix_path_spec(old(self).path_data.path@, target) {
                    Err(e) => r == Err::<HookStub, PathError>(e) && final(self).hooks == old(self).hooks
                        && final(self).context == old(self).context,
                    Ok(spec) => r matches Ok(stub) && {
                        let h = final(self).hooks@.last();
                        &&& stub.callee@ == "qHook"@
                        &&& stub.import_specifier@ == spec
                        &&& stub.name@ == site.name@
                        &&& final(self).hooks@.len() == old(self).hooks@.len() + 1
                        &&& final(self).hooks@.drop_last() == old(self).hooks@
                        &&& h.name@ == site.name@
                        &&& h.canonical_filename@ == site.canonical_filename@
                        &&& opt_view(h.entry) == entry
                        &&& h.module_index == old(self).module_item
                        &&& h.expr == expr
                        &&& h.origin@ == old(self).path_data.path@
                        &&& strs(h.local_decl@).to_set() == strs(declared@).to_set()
                        &&& forall|id: Seq<char>| #[trigger] strs(h.local_idents@).contains(id)
                            <==> (strs(referenced@).contains(id) && !strs(declared@).contains(id)
                            && global.is_global(id))
                        &&& final(self).used_names() == old(self).used_names().push(site.name@)
                    },
                }
            }),
    {
        let collect = HookCollect::new(declared, referenced, global);
        let entry = self.context.bundling_policy.get_entry_for_sym(
            site.name.as_str(),
            &self.path_data,
            self.stack_ctxt.as_slice(),
            &collect,
        );
        let mut target = String::from_str("./");
        match &entry {
            Some(e) => target.append(e.as_str()),
            None => target.append(site.canonical_filename.as_str()),
        }
        let import_path = match fix_path(self.path_data.path.as_str(), target.as_str()) {
            Ok(p) => p,
            Err(e) => {
                return Err(e);
            },
        };
        let ghost old_hooks = self.hooks@;
        let ghost old_names = self.used_names();
        let stub = create_inline_qhook(import_path, site.name.as_str());
        let HookCollect { local_decl, local_idents } = collect;
        self.hooks.push(
            Hook {
                entry,
                canonical_filename: site.canonical_filename,
                name: site.name.clone(),
                module_index: self.module_item,
                expr,
                local_decl,
                local_idents,
                origin: self.path_data.path.clone(),
            },
        );
        self.context.hooks_names.push(site.name);
        proof {
            assert(self.hooks@.drop_last() =~= old_hooks);
            assert(self.used_names() =~= old_names.push(site.name@));
            assert forall|i: int| 0 <= i < self.hooks@.len() implies self.used_names().contains(
                #[trigger] self.hooks@[i].name@,
            ) by {
                if i < old_hooks.len() {
                    let j = choose|j: int| 0 <= j < old_names.len() && old_names[j] == old_hooks[i].name@;
                    assert(self.used_names()[j] == old_hooks[i].name@);
                } else {
                    assert(self.used_names()[old_names.len() as int] == site.name@);
                }
            };
            if hook_names(old_hooks).no_duplicates() && !old_names.contains(site.name@) {
                lemma_fresh_name_stays_unique(old_hooks, old_names, self.hooks@);
            }
        }
        Ok(stub)
    }
}

/// Names stay unique within a file while each recorded name is fresh: a
/// hook whose name was not in use when it was recorded differs in name from
/// every hook recorded before it.
pub proof fn lemma_fresh_name_stays_unique<E>(before: Seq<Hook<E>>, used: Seq<Seq<char>>, after: Seq<Hook<E>>)
    requires
        hook_names(before).no_duplicates(),
        forall|i: int| 0 <= i < before.len() ==> used.contains(#[trigger] before[i].name@),
        after.len() == before.len() + 1,
        after.drop_last() == before,
        !used.contains(after.last().name@),
    ensures
        hook_names(after).no_duplicates(),
{
    assert forall|i: int, j: int| 0 <= i < after.len() && 0 <= j < after.len() && i != j implies hook_names(
        after,
    )[i] != hook_names(after)[j] by {
        if i < before.len() && j < before.len() {
            assert(after[i] == before[i] && after[j] == before[j]);
            assert(hook_names(before)[i] != hook_names(before)[j]);
        } else if i < before.len() {
            assert(after[i] == before[i]);
            assert(used.contains(before[i].name@));
        } else {
            assert(after[j] == before[j]);
            assert(used.contains(before[j].name@));
        }
    };
}

/// Orders hooks by descending `module_index`. Each hook is inserted after
/// those with an index at least its own, so hooks of one item keep their
/// relative order.
pub fn sort_hooks<E>(hooks: &mut Vec<Hook<E>>)
    ensures
        sorted_desc(final(hooks)@),
        final(hooks)@.to_multiset() == old(hooks)@.to_multiset(),
{
    let ghost orig = hooks@.to_multiset();
    let mut out: Vec<Hook<E>> = Vec::new();
    while hooks.len() > 0
        invariant
            sorted_desc(out@),
            out@.to_multiset().add(hooks@.to_multiset()) == orig,
        decreases hooks@.len(),
    {
        let ghost before = hooks@;
        let h = hooks.remove(0);
        let key = h.module_index;
        let mut p: usize = 0;
        while p < out.len() && out[p].module_index >= key
            invariant
                p <= out@.len(),
                forall|j: int| 0 <= j < p ==> out@[j].module_index >= key,
            decreases out@.len() - p,
        {
            p += 1;
        }
        let ghost out_before = out@;
        out.insert(p, h);
        proof {
            assert(before.remove(0).to_multiset() == before.to_multiset().remove(before[0]));
            assert(out@.to_multiset() == out_before.to_multiset().insert(h));
            assert(out@.to_multiset().add(hooks@.to_multiset()) =~= orig);
            assert forall|i: int, j: int| 0 <= i < j < out@.len() implies out@[i].module_index
                >= out@[j].module_index by {
                if j < p {
                } else if j == p {
                } else if i < p {
                    assert(out@[i] == out_before[i]);
                    assert(out@[j] == out_before[j - 1]);
                    assert(out_before[p as int].module_index < key);
                } else if i == p {
                    assert(out@[j] == out_before[j - 1]);
                    assert(out_before[p as int].module_index < key);
                } else {
                }
            };
        }
    }
    assert(hooks@.to_multiset() =~= Multiset::empty());
    assert(out@.to_multiset() =~= orig);
    *hooks = out;
}

} // verus!
