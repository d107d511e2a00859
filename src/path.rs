//! The path model: splitting an input path into its parts, and rewriting a
//! relative import specifier from one module's location.
use relative_path::RelativePath;
use vstd::prelude::*;

verus! {

/// Index of the last occurrence of `c` in `s`, or -1.
pub open spec fn last_index_of(s: Seq<char>, c: char) -> int
    decreases s.len(),
{
    if s.len() == 0 {
        -1
    } else if s.last() == c {
        s.len() - 1
    } else {
        last_index_of(s.drop_last(), c)
    }
}

/// Index of the first occurrence of `c` in `s`, or -1.
pub open spec fn first_index_of(s: Seq<char>, c: char) -> int
    decreases s.len(),
{
    if s.len() == 0 {
        -1
    } else if s[0] == c {
        0
    } else {
        let k = first_index_of(s.drop_first(), c);
        if k < 0 {
            -1
        } else {
            k + 1
        }
    }
}

pub proof fn lemma_last_index_of(s: Seq<char>, c: char, i: int)
    requires
        i == -1 || (0 <= i < s.len() && s[i] == c),
        forall|j: int| i < j < s.len() ==> s[j] != c,
    ensures
        last_index_of(s, c) == i,
    decreases s.len(),
{
    if s.len() > 0 && s.last() != c {
        lemma_last_index_of(s.drop_last(), c, i);
    }
}

pub proof fn lemma_first_index_of(s: Seq<char>, c: char, i: int)
    requires
        i == -1 || (0 <= i < s.len() && s[i] == c),
        forall|j: int| 0 <= j < s.len() && (i == -1 || j < i) ==> s[j] != c,
    ensures
        first_index_of(s, c) == i,
    decreases s.len(),
{
    if s.len() > 0 && s[0] != c {
        lemma_first_index_of(s.drop_first(), c, if i == -1 { -1 } else { i - 1 });
    }
}

/// Everything before the final `/`, or empty when there is none.
pub open spec fn dir_of(s: Seq<char>) -> Seq<char> {
    let k = last_index_of(s, '/');
    if k < 0 {
        Seq::empty()
    } else {
        s.subrange(0, k)
    }
}

/// Everything after the final `/`.
pub open spec fn file_name_of(s: Seq<char>) -> Seq<char> {
    s.subrange(last_index_of(s, '/') + 1, s.len() as int)
}

/// The file name up to its final `.`.
pub open spec fn stem_of(name: Seq<char>) -> Seq<char> {
    let k = last_index_of(name, '.');
    if k < 0 {
        name
    } else {
        name.subrange(0, k)
    }
}

/// The file name after its final `.`, or empty when there is none.
pub open spec fn extension_of(name: Seq<char>) -> Seq<char> {
    let k = last_index_of(name, '.');
    if k < 0 {
        Seq::empty()
    } else {
        name.subrange(k + 1, name.len() as int)
    }
}

/// The file name up to its first `.`.
pub open spec fn prefix_of(name: Seq<char>) -> Seq<char> {
    let k = first_index_of(name, '.');
    if k < 0 {
        name
    } else {
        name.subrange(0, k)
    }
}

pub open spec fn starts_with(s: Seq<char>, c: char) -> bool {
    s.len() > 0 && s[0] == c
}

/// The parts of an input location.
pub struct PathData {
    pub path: String,
    pub dir: String,
    pub file_stem: String,
    pub extension: String,
    pub file_name: String,
    pub file_prefix: String,
}

impl PathData {
    /// The parts are those that `parse_path` gives for `path`.
    pub open spec fn wf(&self) -> bool {
        &&& self.dir@ == dir_of(self.path@)
        &&& self.file_name@ == file_name_of(self.path@)
        &&& self.file_stem@ == stem_of(self.file_name@)
        &&& self.extension@ == extension_of(self.file_name@)
        &&& self.file_prefix@ == prefix_of(self.file_name@)
    }
}

fn last_index(s: &str, c: char) -> (r: Option<usize>)
    ensures
        match r {
            None => last_index_of(s@, c) == -1,
            Some(i) => last_index_of(s@, c) == i as int && i < s@.len(),
        },
{
    let n = s.unicode_len();
    let mut i: usize = n;
    while i > 0
        invariant
            i <= n,
            n == s@.len(),
            forall|j: int| i <= j < n ==> s@[j] != c,
        decreases i,
    {
        if s.get_char(i - 1) == c {
            proof {
                lemma_last_index_of(s@, c, i - 1);
            }
            return Some(i - 1);
        }
        i -= 1;
    }
    proof {
        lemma_last_index_of(s@, c, -1);
    }
    None
}

fn first_index(s: &str, c: char) -> (r: Option<usize>)
    ensures
        match r {
            None => first_index_of(s@, c) == -1,
            Some(i) => first_index_of(s@, c) == i as int && i < s@.len(),
        },
{
    let n = s.unicode_len();
    let mut i: usize = 0;
    while i < n
        invariant
            i <= n,
            n == s@.len(),
            forall|j: int| 0 <= j < i ==> s@[j] != c,
        decreases n - i,
    {
        if s.get_char(i) == c {
            proof {
                lemma_first_index_of(s@, c, i as int);
            }
            return Some(i);
        }
        i += 1;
    }
    proof {
        lemma_first_index_of(s@, c, -1);
    }
    None
}

/// Whether `s` begins with `c`.
fn starts_with_char(s: &str, c: char) -> (r: bool)
    ensures
        r == starts_with(s@, c),
{
    s.unicode_len() > 0 && s.get_char(0) == c
}

/// Everything before the final `/` of `s`.
fn dir_slice(s: &str) -> (r: &str)
    ensures
        r@ == dir_of(s@),
{
    match last_index(s, '/') {
        None => {
            let e = "";
            proof {
                reveal_strlit("");
                assert(e@ =~= Seq::<char>::empty());
            }
            e
        },
        Some(k) => s.substring_char(0, k),
    }
}

/// Splits `src` at its final `/` and the dots of its file name.
pub fn parse_path(src: &str) -> (r: PathData)
    ensures
        r.path@ == src@,
        r.wf(),
{
    let n = src.unicode_len();
    let dir = dir_slice(src);
    let name = match last_index(src, '/') {
        None => src,
        Some(k) => src.substring_char(k + 1, n),
    };
    assert(name@ =~= file_name_of(src@));
    let m = name.unicode_len();
    let (stem, ext) = match last_index(name, '.') {
        None => {
            let e = "";
            proof {
                reveal_strlit("");
                assert(e@ =~= Seq::<char>::empty());
            }
            (name, e)
        },
        Some(k) => (name.substring_char(0, k), name.substring_char(k + 1, m)),
    };
    let prefix = match first_index(name, '.') {
        None => name,
        Some(k) => name.substring_char(0, k),
    };
    PathData {
        path: String::from_str(src),
        dir: String::from_str(dir),
        file_stem: String::from_str(stem),
        extension: String::from_str(ext),
        file_name: String::from_str(name),
        file_prefix: String::from_str(prefix),
    }
}

/// Rebuilding a path from the parts that `parse_path` gives returns it:
/// `<dir>/<file_stem>.<extension>`, without the `<dir>/` part where the
/// path has no `/`. This needs a `.` in the file name, which the rebuilt
/// form always holds.
pub proof fn lemma_parse_path_round_trip(src: Seq<char>, p: PathData)
    requires
        p.path@ == src,
        p.wf(),
        first_index_of(file_name_of(src), '.') >= 0,
    ensures
        src == if last_index_of(src, '/') >= 0 {
            p.dir@ + seq!['/'] + p.file_stem@ + seq!['.'] + p.extension@
        } else {
            p.file_stem@ + seq!['.'] + p.extension@
        },
{
    let name = file_name_of(src);
    let k = last_index_of(name, '.');
    lemma_last_index_bounds(name, '.');
    if k < 0 {
        lemma_first_index_of(name, '.', -1);
    }
    lemma_last_index_bounds(src, '/');
    assert(name =~= p.file_stem@ + seq!['.'] + p.extension@);
    if last_index_of(src, '/') >= 0 {
        assert(src =~= p.dir@ + seq!['/'] + name);
    } else {
        assert(src =~= name);
    }
}

pub proof fn lemma_last_index_bounds(s: Seq<char>, c: char)
    ensures
        -1 <= last_index_of(s, c) < s.len(),
        last_index_of(s, c) >= 0 ==> s[last_index_of(s, c)] == c,
        last_index_of(s, c) == -1 ==> forall|j: int| 0 <= j < s.len() ==> s[j] != c,
    decreases s.len(),
{
    if s.len() > 0 && s.last() != c {
        lemma_last_index_bounds(s.drop_last(), c);
        assert forall|j: int| 0 <= j < s.len() && last_index_of(s, c) == -1 implies s[j] != c by {
            if j < s.len() - 1 {
                assert(s.drop_last()[j] == s[j]);
            }
        };
    }
}

/// Why an import specifier could not be rewritten.
#[derive(Debug, Clone, Copy, PartialEq, Eq, Structural)]
pub enum PathError {
    /// The origin path is absolute: only relative origins are supported.
    AbsoluteOrigin,
    /// The origin's directory does not form a relative path.
    NotRelative,
}

/// What `pathdiff::diff_paths` returns for two paths.
pub uninterp spec fn diff_paths_of(path: Seq<char>, base: Seq<char>) -> Option<Seq<char>>;

/// What `RelativePath::from_path` accepts of a path, as text.
pub uninterp spec fn relative_from_path_of(path: Seq<char>) -> Option<Seq<char>>;

/// What `RelativePath::join` returns, as text.
pub uninterp spec fn relative_join_of(base: Seq<char>, path: Seq<char>) -> Seq<char>;

/// What `RelativePath::normalize` returns, as text.
pub uninterp spec fn relative_normalize_of(path: Seq<char>) -> Seq<char>;

/// Relies on `pathdiff::diff_paths`: the relative path from `base` to `path`,
/// when there is one; it depends on the two paths alone.
#[verifier::external_body]
fn diff_paths(path: &str, base: &str) -> (r: Option<String>)
    ensures
        match r {
            None => diff_paths_of(path@, base@) is None,
            Some(d) => diff_paths_of(path@, base@) == Some(d@),
        },
{
    match pathdiff::diff_paths(std::path::Path::new(path), std::path::Path::new(base)) {
        Some(d) => Some(d.to_string_lossy().into_owned()),
        None => None,
    }
}

/// Relies on `relative_path::RelativePath::from_path`: the path as a relative
/// path, or nothing where it is not relative.
#[verifier::external_body]
fn relative_from_path(path: &str) -> (r: Option<String>)
    ensures
        match r {
            None => relative_from_path_of(path@) is None,
            Some(p) => relative_from_path_of(path@) == Some(p@),
        },
{
    match RelativePath::from_path(path) {
        Ok(p) => Some(p.as_str().to_string()),
        Err(_) => None,
    }
}

/// Relies on `relative_path::RelativePath::join`: `path` appended to `base`.
#[verifier::external_body]
fn relative_join(base: &str, path: &str) -> (r: String)
    ensures
        r@ == relative_join_of(base@, path@),
{
    RelativePath::new(base).join(path).into_string()
}

/// Relies on `relative_path::RelativePath::normalize`: `.` and `..`
/// components folded away.
#[verifier::external_body]
fn relative_normalize(path: &str) -> (r: String)
    ensures
        r@ == relative_normalize_of(path@),
{
    RelativePath::new(path).normalize().into_string()
}

/// `s`, with `./` in front unless it already begins with `.`.
pub open spec fn dot_relative(s: Seq<char>) -> Seq<char> {
    if starts_with(s, '.') {
        s
    } else {
        seq!['.', '/'] + s
    }
}

/// The specifier that `target` becomes when imported from a module at
/// `origin`.
pub open spec fn fix_path_spec(origin: Seq<char>, target: Seq<char>) -> Result<Seq<char>, PathError> {
    if starts_with(origin, '/') {
        Err(PathError::AbsoluteOrigin)
    } else if !starts_with(target, '.') {
        Ok(target)
    } else {
        match diff_paths_of(dir_of(origin), Seq::empty()) {
            None => Ok(target),
            Some(d) => match relative_from_path_of(d) {
                None => Err(PathError::NotRelative),
                Some(rel) => Ok(dot_relative(relative_normalize_of(relative_join_of(rel, target)))),
            },
        }
    }
}

pub open spec fn string_result_view(r: Result<String, PathError>) -> Result<Seq<char>, PathError> {
    match r {
        Ok(s) => Ok(s@),
        Err(e) => Err(e),
    }
}

/// Rewrites the import specifier `target`, written in the module at `origin`,
/// so that it resolves from the working directory. A bare specifier (one
/// that does not begin with `.`) is kept as it is.
pub fn fix_path(origin: &str, target: &str) -> (r: Result<String, PathError>)
    ensures
        string_result_view(r) == fix_path_spec(origin@, target@),
{
    if starts_with_char(origin, '/') {
        return Err(PathError::AbsoluteOrigin);
    }
    if !starts_with_char(target, '.') {
        return Ok(String::from_str(target));
    }
    let dir = dir_slice(origin);
    let empty = "";
    proof {
        reveal_strlit("");
        assert(empty@ =~= Seq::<char>::empty());
    }
    match diff_paths(dir, empty) {
        None => Ok(String::from_str(target)),
        Some(d) => match relative_from_path(d.as_str()) {
            None => Err(PathError::NotRelative),
            Some(rel) => {
                let joined = relative_join(rel.as_str(), target);
                let fixed = relative_normalize(joined.as_str());
                if starts_with_char(fixed.as_str(), '.') {
                    Ok(fixed)
                } else {
                    let mut out = String::from_str("./");
                    proof {
                        reveal_strlit("./");
                    }
                    out.append(fixed.as_str());
                    assert(out@ =~= dot_relative(fixed@));
                    Ok(out)
                }
            },
        },
    }
}

/// A bare specifier is left as it is by `fix_path`, whatever the origin
/// (where the origin is relative).
pub proof fn lemma_fix_path_bare(origin: Seq<char>, target: Seq<char>)
    requires
        !starts_with(origin, '/'),
        !starts_with(target, '.'),
    ensures
        fix_path_spec(origin, target) == Ok::<Seq<char>, PathError>(target),
{
}

} // verus!
