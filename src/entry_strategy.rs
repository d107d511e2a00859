//! Entry policies: which bundling entry a hook's module is grouped into.
use crate::collector::HookCollect;
use crate::path::PathData;
use crate::text::{contains_str, decimal, strs, usize_to_string};
use vstd::prelude::*;

verus! {

/// The policy selection, as configured.
#[derive(Debug)]
pub enum EntryStrategy {
    Single,
    Hook,
    Component,
    Smart,
    Manual(Vec<Vec<String>>),
}

/// A policy that assigns an optional entry group to each hook.
pub trait EntryPolicy {
    /// The entry that the policy gives a hook named `symbol` whose context
    /// stack is `context`.
    spec fn entry_for(&self, symbol: Seq<char>, context: Seq<Seq<char>>) -> Option<Seq<char>>;

    fn get_entry_for_sym(
        &self,
        symbol: &str,
        location: &PathData,
        context: &[String],
        analytics: &HookCollect,
    ) -> (r: Option<String>)
        ensures
            opt_view(r) == self.entry_for(symbol@, strs(context@)),
    ;
}

pub open spec fn opt_view(r: Option<String>) -> Option<Seq<char>> {
    match r {
        None => None,
        Some(s) => Some(s@),
    }
}

/// `entry_<first>` for a nonempty context, the fallback entry otherwise.
pub open spec fn component_entry(context: Seq<Seq<char>>) -> Seq<char> {
    if context.len() > 0 {
        "entry_"@ + context[0]
    } else {
        "entry-fallback"@
    }
}

/// Every hook goes into one entry.
#[derive(Default)]
pub struct SingleStrategy;

impl EntryPolicy for SingleStrategy {
    open spec fn entry_for(&self, symbol: Seq<char>, context: Seq<Seq<char>>) -> Option<Seq<char>> {
        Some("entry_hooks"@)
    }

    fn get_entry_for_sym(
        &self,
        _symbol: &str,
        _path: &PathData,
        _context: &[String],
        _analytics: &HookCollect,
    ) -> (r: Option<String>) {
        Some(String::from_str("entry_hooks"))
    }
}

/// Every hook is an entry of its own.
#[derive(Default)]
pub struct PerHookStrategy {}

impl EntryPolicy for PerHookStrategy {
    open spec fn entry_for(&self, symbol: Seq<char>, context: Seq<Seq<char>>) -> Option<Seq<char>> {
        None
    }

    fn get_entry_for_sym(
        &self,
        _symbol: &str,
        _path: &PathData,
        _context: &[String],
        _analytics: &HookCollect,
    ) -> (r: Option<String>) {
        None
    }
}

/// The hooks of one outermost component share an entry.
fn component_entry_of(context: &[String]) -> (r: String)
    ensures
        r@ == component_entry(strs(context@)),
{
    if context.len() > 0 {
        let mut s = String::from_str("entry_");
        s.append(context[0].as_str());
        s
    } else {
        String::from_str("entry-fallback")
    }
}

#[derive(Default)]
pub struct PerComponentStrategy {}

impl EntryPolicy for PerComponentStrategy {
    open spec fn entry_for(&self, symbol: Seq<char>, context: Seq<Seq<char>>) -> Option<Seq<char>> {
        Some(component_entry(context))
    }

    fn get_entry_for_sym(
        &self,
        _symbol: &str,
        _path: &PathData,
        context: &[String],
        _analytics: &HookCollect,
    ) -> (r: Option<String>) {
        Some(component_entry_of(context))
    }
}

/// Hooks under an `onMount` go to the server entry; the others are grouped
/// by component.
#[derive(Default)]
pub struct SmartStrategy;

impl EntryPolicy for SmartStrategy {
    open spec fn entry_for(&self, symbol: Seq<char>, context: Seq<Seq<char>>) -> Option<Seq<char>> {
        if context.contains("onMount"@) {
            Some("entry-server"@)
        } else {
            Some(component_entry(context))
        }
    }

    fn get_entry_for_sym(
        &self,
        _symbol: &str,
        _path: &PathData,
        context: &[String],
        _analytics: &HookCollect,
    ) -> (r: Option<String>) {
        let mut i: usize = 0;
        while i < context.len()
            invariant
                i <= context@.len(),
                forall|j: int| 0 <= j < i ==> strs(context@)[j] != "onMount"@,
            decreases context@.len() - i,
        {
            if crate::text::str_eq(context[i].as_str(), "onMount") {
                assert(strs(context@)[i as int] == "onMount"@);
                return Some(String::from_str("entry-server"));
            }
            i += 1;
        }
        Some(component_entry_of(context))
    }
}

/// Index of the last group that holds `symbol`, or -1.
pub open spec fn last_group_of(groups: Seq<Seq<Seq<char>>>, symbol: Seq<char>) -> int
    decreases groups.len(),
{
    if groups.len() == 0 {
        -1
    } else if groups.last().contains(symbol) {
        groups.len() - 1
    } else {
        last_group_of(groups.drop_last(), symbol)
    }
}

proof fn lemma_last_group_of(groups: Seq<Seq<Seq<char>>>, symbol: Seq<char>, g: int)
    requires
        g == -1 || (0 <= g < groups.len() && groups[g].contains(symbol)),
        forall|j: int| g < j < groups.len() ==> !groups[j].contains(symbol),
    ensures
        last_group_of(groups, symbol) == g,
    decreases groups.len(),
{
    if groups.len() > 0 && !groups.last().contains(symbol) {
        lemma_last_group_of(groups.drop_last(), symbol, g);
    }
}

/// Hooks go to the entry of the group that names them: `entry_<i>` for the
/// group at index `i`, the last such group where several do.
pub struct ManualStrategy {
    pub groups: Vec<Vec<String>>,
    pub fallback: String,
}

impl ManualStrategy {
    pub open spec fn groups_view(&self) -> Seq<Seq<Seq<char>>> {
        self.groups@.map_values(|g: Vec<String>| strs(g@))
    }

    pub open spec fn wf(&self) -> bool {
        self.fallback@ == "entry-fallback"@
    }

    pub fn new(groups: Vec<Vec<String>>) -> (r: Self)
        ensures
            r.wf(),
            r.groups_view() == groups@.map_values(|g: Vec<String>| strs(g@)),
    {
        ManualStrategy { groups, fallback: String::from_str("entry-fallback") }
    }
}

impl EntryPolicy for ManualStrategy {
    open spec fn entry_for(&self, symbol: Seq<char>, context: Seq<Seq<char>>) -> Option<Seq<char>> {
        let g = last_group_of(self.groups_view(), symbol);
        if g < 0 {
            Some(self.fallback@)
        } else {
            Some("entry_"@ + decimal(g as nat))
        }
    }

    fn get_entry_for_sym(
        &self,
        symbol: &str,
        _path: &PathData,
        _context: &[String],
        _analytics: &HookCollect,
    ) -> (r: Option<String>) {
        let n = self.groups.len();
        let mut g: usize = n;
        while g > 0
            invariant
                g <= n,
                n == self.groups@.len(),
                forall|j: int| g <= j < n ==> !self.groups_view()[j].contains(symbol@),
            decreases g,
        {
            if contains_str(&self.groups[g - 1], symbol) {
                proof {
                    lemma_last_group_of(self.groups_view(), symbol@, g - 1);
                }
                let mut s = String::from_str("entry_");
                let digits = usize_to_string(g - 1);
                s.append(digits.as_str());
                return Some(s);
            }
            g -= 1;
        }
        proof {
            lemma_last_group_of(self.groups_view(), symbol@, -1);
        }
        Some(self.fallback.clone())
    }
}

/// One of the five policies.
pub enum BundlingPolicy {
    Single(SingleStrategy),
    Hook(PerHookStrategy),
    Component(PerComponentStrategy),
    Smart(SmartStrategy),
    Manual(ManualStrategy),
}

impl EntryPolicy for BundlingPolicy {
    open spec fn entry_for(&self, symbol: Seq<char>, context: Seq<Seq<char>>) -> Option<Seq<char>> {
        match self {
            BundlingPolicy::Single(p) => p.entry_for(symbol, context),
            BundlingPolicy::Hook(p) => p.entry_for(symbol, context),
            BundlingPolicy::Component(p) => p.entry_for(symbol, context),
            BundlingPolicy::Smart(p) => p.entry_for(symbol, context),
            BundlingPolicy::Manual(p) => p.entry_for(symbol, context),
        }
    }

    fn get_entry_for_sym(
        &self,
        symbol: &str,
        path: &PathData,
        context: &[String],
        analytics: &HookCollect,
    ) -> (r: Option<String>) {
        match self {
            BundlingPolicy::Single(p) => p.get_entry_for_sym(symbol, path, context, analytics),
            BundlingPolicy::Hook(p) => p.get_entry_for_sym(symbol, path, context, analytics),
            BundlingPolicy::Component(p) => p.get_entry_for_sym(symbol, path, context, analytics),
            BundlingPolicy::Smart(p) => p.get_entry_for_sym(symbol, path, context, analytics),
            BundlingPolicy::Manual(p) => p.get_entry_for_sym(symbol, path, context, analytics),
        }
    }
}

impl BundlingPolicy {
    pub open spec fn wf(&self) -> bool {
        match self {
            BundlingPolicy::Manual(p) => p.wf(),
            _ => true,
        }
    }
}

/// The policy that a configured strategy selects.
pub fn parse_entry_strategy(strategy: EntryStrategy) -> (r: BundlingPolicy)
    ensures
        r.wf(),
        match strategy {
            EntryStrategy::Single => r is Single,
            EntryStrategy::Hook => r is Hook,
            EntryStrategy::Component => r is Component,
            EntryStrategy::Smart => r is Smart,
            EntryStrategy::Manual(groups) => r matches BundlingPolicy::Manual(m) && m.groups_view()
                == groups@.map_values(|g: Vec<String>| strs(g@)),
        },
{
    match strategy {
        EntryStrategy::Single => BundlingPolicy::Single(SingleStrategy),
        EntryStrategy::Hook => BundlingPolicy::Hook(PerHookStrategy {  }),
        EntryStrategy::Component => BundlingPolicy::Component(PerComponentStrategy {  }),
        EntryStrategy::Smart => BundlingPolicy::Smart(SmartStrategy),
        EntryStrategy::Manual(groups) => BundlingPolicy::Manual(ManualStrategy::new(groups)),
    }
}

} // verus!
