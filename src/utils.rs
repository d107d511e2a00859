//! Shared value types: a multi-valued map, source locations and diagnostics.
use std::collections::HashMap;
use std::hash::Hash;
use vstd::prelude::*;
use vstd::std_specs::hash::obeys_key_model;

verus! {

broadcast use vstd::std_specs::hash::group_hash_axioms;

/// A map from each key to the values pushed under it, in push order.
#[derive(Debug)]
pub struct MapVec<K, V> {
    map: HashMap<K, Vec<V>>,
}

impl<K, V> MapVec<K, V> where K: Eq + Hash {
    /// The values held under each key.
    pub closed spec fn contents(&self) -> Map<K, Seq<V>> {
        self.map@.map_values(|v: Vec<V>| v@)
    }

    pub fn new() -> (r: Self)
        ensures
            r.contents() == Map::<K, Seq<V>>::empty(),
    {
        let r = Self { map: HashMap::new() };
        assert(r.contents() =~= Map::<K, Seq<V>>::empty());
        r
    }

    /// The values pushed under `key`, if any.
    pub fn get(&self, key: &K) -> (r: Option<&Vec<V>>)
        ensures
            obeys_key_model::<K>() ==> match r {
                Some(v) => self.contents().contains_key(*key) && self.contents()[*key] == v@,
                None => !self.contents().contains_key(*key),
            },
    {
        self.map.get(key)
    }

    /// Appends `value` to the values under `key`.
    pub fn push(&mut self, key: K, value: V)
        ensures
            obeys_key_model::<K>() ==> final(self).contents() == old(self).contents().insert(
                key,
                if old(self).contents().contains_key(key) {
                    old(self).contents()[key].push(value)
                } else {
                    seq![value]
                },
            ),
    {
        let ghost k = key;
        match self.map.remove(&key) {
            Some(mut v) => {
                v.push(value);
                self.map.insert(key, v);
            },
            None => {
                let mut v = Vec::new();
                v.push(value);
                self.map.insert(key, v);
            },
        }
        proof {
            if obeys_key_model::<K>() {
                assert(self.contents() =~= old(self).contents().insert(
                    k,
                    if old(self).contents().contains_key(k) {
                        old(self).contents()[k].push(value)
                    } else {
                        seq![value]
                    },
                ));
            }
        }
    }
}

/// A span of source text: 1-based lines, 1-based inclusive columns.
#[derive(Debug, Clone, PartialEq, Eq, Structural)]
pub struct SourceLocation {
    pub start_line: usize,
    pub start_col: usize,
    pub end_line: usize,
    pub end_col: usize,
}

impl SourceLocation {
    /// The location of a span whose ends are given as lines and 0-based
    /// display columns, the end column exclusive.
    pub fn from(start_line: usize, start_col_display: usize, end_line: usize, end_col_display: usize) -> (r: Self)
        requires
            start_col_display < usize::MAX,
        ensures
            r.start_line == start_line,
            r.start_col == start_col_display + 1,
            r.end_line == end_line,
            r.end_col == end_col_display,
    {
        // 0-based exclusive columns become 1-based inclusive ones: the start
        // moves by one, the end stays.
        SourceLocation { start_line, start_col: start_col_display + 1, end_line, end_col: end_col_display }
    }
}

pub open spec fn cmp_usize(a: usize, b: usize) -> std::cmp::Ordering {
    if a < b {
        std::cmp::Ordering::Less
    } else if a == b {
        std::cmp::Ordering::Equal
    } else {
        std::cmp::Ordering::Greater
    }
}

impl vstd::std_specs::cmp::PartialOrdSpecImpl for SourceLocation {
    open spec fn obeys_partial_cmp_spec() -> bool {
        true
    }

    open spec fn partial_cmp_spec(&self, other: &SourceLocation) -> Option<std::cmp::Ordering> {
        if self.start_line == other.start_line {
            Some(cmp_usize(self.start_col, other.start_col))
        } else {
            Some(cmp_usize(self.start_line, other.start_line))
        }
    }
}

impl PartialOrd for SourceLocation {
    /// Orders by start line, then by start column.
    fn partial_cmp(&self, other: &SourceLocation) -> (r: Option<std::cmp::Ordering>) {
        let (a, b) = if self.start_line == other.start_line {
            (self.start_col, other.start_col)
        } else {
            (self.start_line, other.start_line)
        };
        if a < b {
            Some(std::cmp::Ordering::Less)
        } else if a == b {
            Some(std::cmp::Ordering::Equal)
        } else {
            Some(std::cmp::Ordering::Greater)
        }
    }
}

/// A labelled location in a diagnostic.
#[derive(Debug)]
pub struct CodeHighlight {
    pub message: Option<String>,
    pub loc: SourceLocation,
}

/// A message about the input, with where it applies and how to fix it.
#[derive(Debug)]
pub struct Diagnostic {
    pub message: String,
    pub code_highlights: Option<Vec<CodeHighlight>>,
    pub hints: Option<Vec<String>>,
    pub show_environment: bool,
    pub severity: DiagnosticSeverity,
    pub documentation_url: Option<String>,
}

#[derive(Debug, Clone, Copy, PartialEq, Eq, Structural)]
pub enum DiagnosticSeverity {
    /// Fails the build with an error.
    Error,
    /// Logs a warning, but the build does not fail.
    Warning,
    /// An error if this is source code in the project, or a warning if in node_modules.
    SourceError,
}

#[derive(Debug, Clone, Copy, PartialEq, Eq, Structural)]
pub enum SourceType {
    Script,
    Module,
}

} // verus!
