//! Rule definitions as configured, their compiled form, and the compiler.

use vstd::prelude::*;
use crate::pattern::{Pattern, pattern_compiles};
use crate::text::{lower_of, to_lower};

verus! {

/// The header key that sets the action for every header not listed.
pub const DEFAULT_HEADER_KEY: &'static str = "$default";

/// `"$default"` as a sequence of characters.
pub open spec fn default_key() -> Seq<char> {
    seq!['$', 'd', 'e', 'f', 'a', 'u', 'l', 't']
}

/// What a header action does, on plain values.
pub enum ActionSpec {
    Passthrough,
    Ignore,
    Replace { pattern: Seq<char>, replace: Seq<char> },
}

/// A header action as configured, before its pattern is compiled.
pub enum HeaderActionDefinition {
    Passthrough,
    Ignore,
    Replace { pattern: String, replace: String },
}

impl View for HeaderActionDefinition {
    type V = ActionSpec;

    open spec fn view(&self) -> ActionSpec {
        match self {
            HeaderActionDefinition::Passthrough => ActionSpec::Passthrough,
            HeaderActionDefinition::Ignore => ActionSpec::Ignore,
            HeaderActionDefinition::Replace { pattern, replace } => ActionSpec::Replace {
                pattern: pattern@,
                replace: replace@,
            },
        }
    }
}

/// One entry of a rule's header table as configured: a header name (or
/// `"$default"`) and its action.
pub struct HeaderDefinition {
    pub name: String,
    pub action: HeaderActionDefinition,
}

/// A routing rule as configured.
pub struct RuleDefinition {
    pub name: String,
    pub pattern: String,
    pub target: String,
    pub follow_redirect: bool,
    pub headers: Vec<HeaderDefinition>,
}

/// A compiled header action.
pub enum HeaderAction {
    Passthrough,
    Ignore,
    Replace { pattern: Pattern, replace: String },
}

impl View for HeaderAction {
    type V = ActionSpec;

    open spec fn view(&self) -> ActionSpec {
        match self {
            HeaderAction::Passthrough => ActionSpec::Passthrough,
            HeaderAction::Ignore => ActionSpec::Ignore,
            HeaderAction::Replace { pattern, replace } => ActionSpec::Replace {
                pattern: pattern@,
                replace: replace@,
            },
        }
    }
}

/// An entry of a compiled header table, keyed by lower-case name.
pub struct HeaderEntry {
    name: String,
    action: HeaderAction,
}

/// The table that a sequence of entries denotes: a later entry for a name
/// overrides an earlier one.
spec fn entries_table(es: Seq<HeaderEntry>) -> Map<Seq<char>, ActionSpec>
    decreases es.len(),
{
    if es.len() == 0 {
        Map::empty()
    } else {
        entries_table(es.drop_last()).insert(es.last().name@, es.last().action@)
    }
}

/// A rule on plain values.
pub struct RuleSpec {
    pub name: Seq<char>,
    pub pattern: Seq<char>,
    pub target: Seq<char>,
    pub follow_redirect: bool,
    pub headers: Map<Seq<char>, ActionSpec>,
    pub fallback: ActionSpec,
}

impl RuleSpec {
    /// The action for a lower-case header name: its entry, else the fallback.
    pub open spec fn action_for(self, name: Seq<char>) -> ActionSpec {
        if self.headers.contains_key(name) {
            self.headers[name]
        } else {
            self.fallback
        }
    }
}

/// A compiled rule. It is only made by `compile`, so every pattern in it
/// compiled.
pub struct ProxyRule {
    name: String,
    pattern: Pattern,
    target: String,
    follow_redirect: bool,
    header_actions: Vec<HeaderEntry>,
    header_action_fallback: HeaderAction,
}

impl View for ProxyRule {
    type V = RuleSpec;

    closed spec fn view(&self) -> RuleSpec {
        RuleSpec {
            name: self.name@,
            pattern: self.pattern@,
            target: self.target@,
            follow_redirect: self.follow_redirect,
            headers: entries_table(self.header_actions@),
            fallback: self.header_action_fallback@,
        }
    }
}

impl ProxyRule {
    /// The rule's name.
    pub fn name(&self) -> (r: &String)
        ensures
            r@ == self@.name,
    {
        &self.name
    }

    /// The pattern matched against the routing key.
    pub fn pattern(&self) -> (r: &Pattern)
        ensures
            r@ == self@.pattern,
    {
        &self.pattern
    }

    /// The template that the upstream URL is built from.
    pub fn target(&self) -> (r: &String)
        ensures
            r@ == self@.target,
    {
        &self.target
    }

    /// Whether upstream redirects are followed.
    pub fn follow_redirect(&self) -> (r: bool)
        ensures
            r == self@.follow_redirect,
    {
        self.follow_redirect
    }

    /// The action for a header: the entry for its lower-case name, else the
    /// rule's fallback.
    pub fn resolve(&self, name: &str) -> (r: &HeaderAction)
        ensures
            r@ == self@.action_for(lower_of(name@)),
    {
        let key = to_lower(name);
        let ghost es = self.header_actions@;
        let mut i: usize = self.header_actions.len();
        proof {
            assert(es.take(i as int) =~= es);
        }
        while i > 0
            invariant
                es == self.header_actions@,
                i <= es.len(),
                key@ == lower_of(name@),
                entries_table(es.take(i as int)).contains_key(key@) <==> entries_table(es).contains_key(key@),
                entries_table(es).contains_key(key@) ==> entries_table(es.take(i as int))[key@]
                    == entries_table(es)[key@],
            decreases i,
        {
            proof {
                assert(es.take(i as int).drop_last() =~= es.take(i - 1));
                assert(es.take(i as int).last() == es[i - 1]);
            }
            if self.header_actions[i - 1].name == key {
                return &self.header_actions[i - 1].action;
            }
            i = i - 1;
        }
        proof {
            assert(es.take(0) =~= Seq::<HeaderEntry>::empty());
        }
        &self.header_action_fallback
    }
}

/// The header table that a rule's configured headers give: `"$default"` is
/// left out, other names are lower-cased, and a later name wins.
pub open spec fn definitions_table(hs: Seq<HeaderDefinition>) -> Map<Seq<char>, ActionSpec>
    decreases hs.len(),
{
    if hs.len() == 0 {
        Map::empty()
    } else if hs.last().name@ == default_key() {
        definitions_table(hs.drop_last())
    } else {
        definitions_table(hs.drop_last()).insert(lower_of(hs.last().name@), hs.last().action@)
    }
}

/// The fallback action that a rule's configured headers give: the last
/// `"$default"` entry, else `Ignore`.
pub open spec fn definitions_fallback(hs: Seq<HeaderDefinition>) -> ActionSpec
    decreases hs.len(),
{
    if hs.len() == 0 {
        ActionSpec::Ignore
    } else if hs.last().name@ == default_key() {
        hs.last().action@
    } else {
        definitions_fallback(hs.drop_last())
    }
}

/// The rule that a definition compiles to.
pub open spec fn compiled(d: RuleDefinition) -> RuleSpec {
    RuleSpec {
        name: d.name@,
        pattern: d.pattern@,
        target: d.target@,
        follow_redirect: d.follow_redirect,
        headers: definitions_table(d.headers@),
        fallback: definitions_fallback(d.headers@),
    }
}

/// The first header pattern from index `i` on that does not compile.
pub open spec fn header_error(hs: Seq<HeaderDefinition>, i: int) -> Option<Seq<char>>
    decreases hs.len() - i,
{
    if i < 0 || i >= hs.len() {
        None
    } else {
        match hs[i].action {
            HeaderActionDefinition::Replace { pattern, .. } if !pattern_compiles(pattern@) => Some(
                pattern@,
            ),
            _ => header_error(hs, i + 1),
        }
    }
}

/// The first pattern of a definition that does not compile: its match
/// pattern, else the first failing header pattern.
pub open spec fn rule_error(d: RuleDefinition) -> Option<Seq<char>> {
    if !pattern_compiles(d.pattern@) {
        Some(d.pattern@)
    } else {
        header_error(d.headers@, 0)
    }
}

/// The first definition from index `i` on with a pattern that does not
/// compile, as the rule's name and that pattern.
pub open spec fn definitions_error(ds: Seq<RuleDefinition>, i: int) -> Option<(Seq<char>, Seq<char>)>
    decreases ds.len() - i,
{
    if i < 0 || i >= ds.len() {
        None
    } else {
        match rule_error(ds[i]) {
            Some(p) => Some((ds[i].name@, p)),
            None => definitions_error(ds, i + 1),
        }
    }
}

/// A pattern in a definition that does not compile.
#[derive(Debug)]
pub struct CompileError {
    pub rule: String,
    pub pattern: String,
}

fn compile_action(a: &HeaderActionDefinition) -> (r: Result<HeaderAction, String>)
    ensures
        match a {
            HeaderActionDefinition::Replace { pattern, .. } => {
                &&& (r is Ok <==> pattern_compiles(pattern@))
                &&& (r is Err ==> r->Err_0@ == pattern@)
            },
            _ => r is Ok,
        },
        r is Ok ==> r->Ok_0@ == a@,
{
    match a {
        HeaderActionDefinition::Passthrough => Ok(HeaderAction::Passthrough),
        HeaderActionDefinition::Ignore => Ok(HeaderAction::Ignore),
        HeaderActionDefinition::Replace { pattern, replace } => match Pattern::new(pattern.as_str()) {
            Ok(p) => Ok(HeaderAction::Replace { pattern: p, replace: replace.clone() }),
            Err(_) => Err(pattern.clone()),
        },
    }
}

/// Compiles one definition; on failure, returns the first pattern that does
/// not compile.
fn compile_rule(d: &RuleDefinition) -> (r: Result<ProxyRule, String>)
    ensures
        match r {
            Ok(rule) => rule_error(*d) is None && rule@ == compiled(*d),
            Err(p) => rule_error(*d) == Some(p@),
        },
{
    let pattern = match Pattern::new(d.pattern.as_str()) {
        Ok(p) => p,
        Err(_) => {
            return Err(d.pattern.clone());
        },
    };
    let ghost hs = d.headers@;
    let mut entries: Vec<HeaderEntry> = Vec::new();
    let mut fallback = HeaderAction::Ignore;
    let mut i: usize = 0;
    proof {
        assert(hs.take(0) =~= Seq::<HeaderDefinition>::empty());
    }
    while i < d.headers.len()
        invariant
            hs == d.headers@,
            i <= hs.len(),
            pattern_compiles(d.pattern@),
            pattern@ == d.pattern@,
            header_error(hs, 0) == header_error(hs, i as int),
            entries_table(entries@) == definitions_table(hs.take(i as int)),
            fallback@ == definitions_fallback(hs.take(i as int)),
        decreases hs.len() - i,
    {
        let h = &d.headers[i];
        let action = match compile_action(&h.action) {
            Ok(a) => a,
            Err(p) => {
                return Err(p);
            },
        };
        proof {
            assert(hs.take(i + 1).drop_last() =~= hs.take(i as int));
            assert(hs.take(i + 1).last() == hs[i as int]);
        }
        if is_default_key(&h.name) {
            fallback = action;
        } else {
            let ghost before = entries@;
            entries.push(HeaderEntry { name: to_lower(h.name.as_str()), action });
            proof {
                assert(entries@.drop_last() =~= before);
            }
        }
        i = i + 1;
    }
    proof {
        assert(hs.take(i as int) =~= hs);
    }
    Ok(
        ProxyRule {
            name: d.name.clone(),
            pattern,
            target: d.target.clone(),
            follow_redirect: d.follow_redirect,
            header_actions: entries,
            header_action_fallback: fallback,
        },
    )
}

/// Compiles every definition, in order. Compilation is all or nothing: the
/// first pattern that does not compile fails the whole set.
pub fn compile(defs: &Vec<RuleDefinition>) -> (r: Result<Vec<ProxyRule>, CompileError>)
    ensures
        match r {
            Ok(rules) => {
                &&& definitions_error(defs@, 0) is None
                &&& rules@.len() == defs@.len()
                &&& forall|i: int| 0 <= i < defs@.len() ==> #[trigger] rules@[i]@ == compiled(defs@[i])
            },
            Err(e) => definitions_error(defs@, 0) == Some((e.rule@, e.pattern@)),
        },
{
    let mut rules: Vec<ProxyRule> = Vec::new();
    let mut i: usize = 0;
    while i < defs.len()
        invariant
            i <= defs@.len(),
            rules@.len() == i,
            definitions_error(defs@, 0) == definitions_error(defs@, i as int),
            forall|j: int| 0 <= j < i ==> #[trigger] rules@[j]@ == compiled(defs@[j]),
        decreases defs@.len() - i,
    {
        match compile_rule(&defs[i]) {
            Ok(rule) => {
                rules.push(rule);
            },
            Err(p) => {
                return Err(CompileError { rule: defs[i].name.clone(), pattern: p });
            },
        }
        i = i + 1;
    }
    Ok(rules)
}

fn is_default_key(name: &String) -> (r: bool)
    ensures
        r == (name@ == default_key()),
{
    let key = DEFAULT_HEADER_KEY.to_owned();
    proof {
        reveal_strlit("$default");
        assert(key@ =~= default_key());
    }
    *name == key
}

/// Whether some pattern of `d`, its match pattern or a header's `Replace`
/// pattern, does not compile.
pub open spec fn has_invalid_pattern(d: RuleDefinition) -> bool {
    ||| !pattern_compiles(d.pattern@)
    ||| exists|k: int|
        0 <= k < d.headers@.len() && #[trigger] d.headers@[k].action is Replace && !pattern_compiles(
            d.headers@[k].action->Replace_pattern@,
        )
}

proof fn lemma_header_error_found(hs: Seq<HeaderDefinition>, i: int, k: int)
    requires
        0 <= i <= k < hs.len(),
        hs[k].action is Replace,
        !pattern_compiles(hs[k].action->Replace_pattern@),
    ensures
        header_error(hs, i) is Some,
    decreases k - i,
{
    if i < k {
        lemma_header_error_found(hs, i + 1, k);
    }
}

proof fn lemma_definitions_error_found(ds: Seq<RuleDefinition>, j: int, i: int)
    requires
        0 <= j <= i < ds.len(),
        rule_error(ds[i]) is Some,
    ensures
        definitions_error(ds, j) is Some,
    decreases i - j,
{
    if j < i {
        lemma_definitions_error_found(ds, j + 1, i);
    }
}

/// Compilation is all or nothing: a single pattern that does not compile,
/// in any definition, makes the whole set fail, so `compile` returns no rules.
pub proof fn lemma_compile_all_or_nothing(defs: Seq<RuleDefinition>, i: int)
    requires
        0 <= i < defs.len(),
        has_invalid_pattern(defs[i]),
    ensures
        definitions_error(defs, 0) is Some,
{
    let d = defs[i];
    if pattern_compiles(d.pattern@) {
        let k = choose|k: int|
            0 <= k < d.headers@.len() && #[trigger] d.headers@[k].action is Replace && !pattern_compiles(
                d.headers@[k].action->Replace_pattern@,
            );
        lemma_header_error_found(d.headers@, 0, k);
    }
    lemma_definitions_error_found(defs, 0, i);
}

/// Without a `"$default"` entry the fallback is `Ignore`.
pub proof fn lemma_fallback_without_default(hs: Seq<HeaderDefinition>)
    requires
        forall|k: int| 0 <= k < hs.len() ==> (#[trigger] hs[k]).name@ != default_key(),
    ensures
        definitions_fallback(hs) == ActionSpec::Ignore,
    decreases hs.len(),
{
    if hs.len() > 0 {
        assert(hs.last() == hs[hs.len() - 1]);
        let rest = hs.drop_last();
        assert forall|k: int| 0 <= k < rest.len() implies (#[trigger] rest[k]).name@ != default_key() by {
            assert(rest[k] == hs[k]);
        }
        lemma_fallback_without_default(rest);
    }
}

} // verus!
