//! Tiered compilation: a rule starts out interpreted from its AST and is
//! compiled to bytecode once it has been evaluated often enough.  This
//! module keeps a rule's tier and evaluation count, promotes it, and keeps
//! a cache of rules by id with its statistics.

use vstd::prelude::*;
use crate::json_logic::ast::Expr;
use crate::json_logic::compiler::{spec_bytecode, CompiledBytecode, Compiler, JsonLogicError, Outcome};
use crate::json_logic::config::Config;
use crate::text::{chars_equal, str_chars};

verus! {

/// Compilation tier for a rule
#[derive(Debug, Clone, Copy, PartialEq, Eq, Structural)]
pub enum CompilationTier {
    /// Tier 0: AST interpretation (default)
    Ast,
    /// Tier 1: Bytecode VM execution
    Bytecode,
    /// Tier 2: JIT compiled (future)
    Jit,
}

impl Default for CompilationTier {
    fn default() -> (t: Self)
        ensures
            t == CompilationTier::Ast,
    {
        CompilationTier::Ast
    }
}

/// Statistics about the rule cache
#[derive(Debug, Clone)]
pub struct CacheStats {
    /// Total number of rules in cache
    pub total_rules: usize,
    /// Number of rules at Tier 0 (AST)
    pub tier0_rules: usize,
    /// Number of rules at Tier 1 (Bytecode)
    pub tier1_rules: usize,
    /// Number of rules at Tier 2 (JIT)
    pub tier2_rules: usize,
    /// Total number of evaluations across all rules
    pub total_evaluations: u64,
}

impl Default for CacheStats {
    fn default() -> (s: Self)
        ensures
            s.total_rules == 0,
            s.tier0_rules == 0,
            s.tier1_rules == 0,
            s.tier2_rules == 0,
            s.total_evaluations == 0,
    {
        CacheStats { total_rules: 0, tier0_rules: 0, tier1_rules: 0, tier2_rules: 0, total_evaluations: 0 }
    }
}

/// The tier a rule is at after one more evaluation, when its count after
/// that evaluation is `count`: a rule still interpreted from its AST whose
/// count reached the threshold is compiled, when its bytecode can be made.
pub open spec fn tier_after_evaluation(tier: CompilationTier, count: u64, threshold: u64, compiles: bool) -> CompilationTier {
    if tier == CompilationTier::Ast && count >= threshold && compiles {
        CompilationTier::Bytecode
    } else {
        tier
    }
}

/// An evaluation count after one more evaluation (it wraps around, as an
/// atomic counter does).
pub open spec fn count_after(count: u64) -> u64 {
    if count == u64::MAX {
        0
    } else {
        (count + 1) as u64
    }
}

/// Whether the bytecode of an expression can be made.
pub open spec fn compiles(e: Expr) -> bool {
    spec_bytecode(e) is Done
}

/// A compiled rule with tier tracking
#[derive(Debug)]
pub struct CompiledRule {
    /// The parsed AST (always available)
    pub ast: Expr,
    /// Compiled bytecode (populated after promotion to Tier 1)
    bytecode: Option<CompiledBytecode>,
    /// Current compilation tier
    tier: CompilationTier,
    /// Number of times this rule has been evaluated
    eval_count: u64,
}

impl CompiledRule {
    pub closed spec fn spec_ast(&self) -> Expr {
        self.ast
    }

    pub closed spec fn spec_tier(&self) -> CompilationTier {
        self.tier
    }

    pub closed spec fn spec_count(&self) -> u64 {
        self.eval_count
    }

    /// The code of the rule's bytecode, when it has some.
    pub closed spec fn spec_code(&self) -> Option<Seq<u8>> {
        match self.bytecode {
            Some(b) => Some(b.bytecode@),
            None => None,
        }
    }

    /// Whether one more evaluation promotes the rule: it is at the AST tier
    /// and its count reaches the threshold.
    pub open spec fn promotes_on_evaluation(&self, threshold: u64) -> bool {
        self.spec_tier() == CompilationTier::Ast && count_after(self.spec_count()) >= threshold
    }

    /// Whether promoting the rule is safe: a rule still at the AST tier
    /// has an AST the compiler can go through.
    pub open spec fn promotable(&self) -> bool {
        self.spec_tier() == CompilationTier::Ast ==> !(spec_bytecode(self.spec_ast()) is Panics)
    }

    /// Create a new compiled rule at Tier 0 (AST)
    pub fn new(ast: Expr) -> (r: Self)
        ensures
            r.spec_ast() == ast,
            r.spec_tier() == CompilationTier::Ast,
            r.spec_count() == 0,
            r.spec_code() is None,
    {
        CompiledRule { ast, bytecode: None, tier: CompilationTier::Ast, eval_count: 0 }
    }

    /// Create a new compiled rule pre-compiled to Tier 1 (Bytecode)
    pub fn with_bytecode(ast: Expr, bytecode: CompiledBytecode) -> (r: Self)
        ensures
            r.spec_ast() == ast,
            r.spec_tier() == CompilationTier::Bytecode,
            r.spec_count() == 0,
            r.spec_code() == Some(bytecode.bytecode@),
    {
        CompiledRule { ast, bytecode: Some(bytecode), tier: CompilationTier::Bytecode, eval_count: 0 }
    }

    /// Restore a rule in a given state: its AST, bytecode, tier and count.
    pub fn from_parts(ast: Expr, bytecode: Option<CompiledBytecode>, tier: CompilationTier, eval_count: u64) -> (r: Self)
        ensures
            r.spec_ast() == ast,
            r.spec_tier() == tier,
            r.spec_count() == eval_count,
            r.spec_code() == match bytecode {
                Some(b) => Some(b.bytecode@),
                None => None::<Seq<u8>>,
            },
    {
        CompiledRule { ast, bytecode, tier, eval_count }
    }

    /// Get the current compilation tier
    pub fn tier(&self) -> (t: CompilationTier)
        ensures
            t == self.spec_tier(),
    {
        self.tier
    }

    /// Get the evaluation count
    pub fn eval_count(&self) -> (n: u64)
        ensures
            n == self.spec_count(),
    {
        self.eval_count
    }

    /// Get the bytecode if available
    pub fn bytecode(&self) -> (r: Option<&CompiledBytecode>)
        ensures
            match r {
                Some(b) => self.spec_code() == Some(b.bytecode@),
                None => self.spec_code() is None,
            },
    {
        match &self.bytecode {
            Some(b) => Some(b),
            None => None,
        }
    }

    /// Check if this rule should be promoted with a custom threshold: it is
    /// still at the AST tier and was evaluated at least `threshold` times.
    pub fn should_promote_at(&self, threshold: u64) -> (r: bool)
        ensures
            r == (self.spec_tier() == CompilationTier::Ast && self.spec_count() >= threshold),
    {
        self.tier == CompilationTier::Ast && self.eval_count >= threshold
    }

    /// Count one evaluation of the rule (the count wraps around, as an
    /// atomic counter does).
    pub fn count_evaluation(&mut self)
        ensures
            final(self).spec_count() == (if old(self).spec_count() == u64::MAX {
                0
            } else {
                (old(self).spec_count() + 1) as u64
            }),
            final(self).spec_tier() == old(self).spec_tier(),
            final(self).spec_code() == old(self).spec_code(),
            final(self).spec_ast() == old(self).spec_ast(),
    {
        self.eval_count = self.eval_count.wrapping_add(1);
    }

    /// Promote to Tier 1 (Bytecode): a rule at the AST tier is compiled;
    /// a rule at a higher tier is left as it is.
    pub fn promote_to_bytecode(&mut self) -> (r: Result<(), JsonLogicError>)
        requires
            old(self).promotable(),
        ensures
            final(self).spec_ast() == old(self).spec_ast(),
            final(self).spec_count() == old(self).spec_count(),
            old(self).spec_tier() != CompilationTier::Ast ==> r is Ok && final(self).spec_tier() == old(self).spec_tier()
                && final(self).spec_code() == old(self).spec_code(),
            old(self).spec_tier() == CompilationTier::Ast ==> match spec_bytecode(old(self).spec_ast()) {
                Outcome::Done(g) => r is Ok && final(self).spec_tier() == CompilationTier::Bytecode
                    && final(self).spec_code() == Some(g.code),
                Outcome::Failed(err) => r matches Err(e) && e@ == err && final(self).spec_tier() == CompilationTier::Ast
                    && final(self).spec_code() == old(self).spec_code(),
                Outcome::Panics => false,
            },
    {
        if self.tier != CompilationTier::Ast {
            return Ok(());
        }
        let mut compiler = Compiler::new();
        let bytecode = compiler.compile(&self.ast)?;
        self.bytecode = Some(bytecode);
        self.tier = CompilationTier::Bytecode;
        Ok(())
    }

    /// The bookkeeping of one evaluation: the count goes up, and a rule
    /// that reached the threshold at the AST tier is promoted (a rule whose
    /// bytecode cannot be made stays at the AST tier).
    pub fn note_evaluation(&mut self, threshold: u64)
        requires
            old(self).promotes_on_evaluation(threshold) ==> !(spec_bytecode(old(self).spec_ast()) is Panics),
        ensures
            final(self).spec_ast() == old(self).spec_ast(),
            final(self).spec_count() == (if old(self).spec_count() == u64::MAX {
                0
            } else {
                (old(self).spec_count() + 1) as u64
            }),
            final(self).spec_tier() == tier_after_evaluation(
                old(self).spec_tier(),
                final(self).spec_count(),
                threshold,
                compiles(old(self).spec_ast()),
            ),
    {
        self.count_evaluation();
        if self.should_promote_at(threshold) {
            let _ = self.promote_to_bytecode();
        }
    }
}

/// The tier of a rule after `n` evaluations that start from a fresh rule
/// (tier AST, count 0), when the threshold is `threshold`.
pub open spec fn tier_after(n: nat, threshold: u64, compiles: bool) -> CompilationTier
    decreases n,
{
    if n == 0 {
        CompilationTier::Ast
    } else {
        tier_after_evaluation(tier_after((n - 1) as nat, threshold, compiles), n as u64, threshold, compiles)
    }
}

/// A rule whose bytecode can be made is compiled once it has been
/// evaluated as often as the threshold says (at least once), and stays
/// compiled.
pub proof fn lemma_promoted_after_threshold(n: nat, threshold: u64, compiles: bool)
    requires
        compiles,
        n >= threshold,
        n >= 1,
        n <= u64::MAX,
    ensures
        tier_after(n, threshold, compiles) == CompilationTier::Bytecode,
    decreases n,
{
    let prev = tier_after((n - 1) as nat, threshold, compiles);
    if n == 1 {
        assert(prev == CompilationTier::Ast);
    } else if n - 1 >= threshold {
        lemma_promoted_after_threshold((n - 1) as nat, threshold, compiles);
    } else {
        lemma_interpreted_before_threshold((n - 1) as nat, threshold, compiles);
    }
    assert(n as u64 == n);
    assert(tier_after(n, threshold, compiles) == tier_after_evaluation(prev, n as u64, threshold, compiles));
}

/// Before the threshold, a rule stays at the AST tier.
pub proof fn lemma_interpreted_before_threshold(n: nat, threshold: u64, compiles: bool)
    requires
        n < threshold,
    ensures
        tier_after(n, threshold, compiles) == CompilationTier::Ast,
    decreases n,
{
    if n > 0 {
        lemma_interpreted_before_threshold((n - 1) as nat, threshold, compiles);
    }
}

/// Cache for compiled rules, by rule id, with automatic tier promotion
#[derive(Debug)]
pub struct RuleCache {
    /// Cached compiled rules by rule ID
    rules: Vec<(String, CompiledRule)>,
    /// Promotion threshold
    promotion_threshold: u64,
}

impl RuleCache {
    /// The ids of the cached rules, in the order they were added.
    pub closed spec fn ids(&self) -> Seq<Seq<char>> {
        self.rules@.map_values(|e: (String, CompiledRule)| e.0@)
    }

    /// The rule cached at position `i`.
    pub closed spec fn rule(&self, i: int) -> CompiledRule {
        self.rules@[i].1
    }

    pub closed spec fn threshold(&self) -> u64 {
        self.promotion_threshold
    }

    /// The cache is sound: no id twice.
    pub open spec fn wf(&self) -> bool {
        forall|a: int, b: int| 0 <= a < b < self.ids().len() ==> self.ids()[a] != self.ids()[b]
    }

    /// The rule an operation on `rule_id` works on: the cached one, or a new
    /// rule for `expr`.
    pub open spec fn rule_for(&self, rule_id: Seq<char>, expr: Expr) -> CompiledRule {
        if self.ids().contains(rule_id) {
            self.rule(choose|i: int| 0 <= i < self.ids().len() && self.ids()[i] == rule_id)
        } else {
            CompiledRule::new_state(expr)
        }
    }

    /// The number of cached rules at tier `t` among the first `k`.
    pub open spec fn tier_count(&self, t: CompilationTier, k: int) -> nat
        decreases k,
    {
        if k <= 0 {
            0
        } else {
            self.tier_count(t, k - 1) + if self.rule(k - 1).spec_tier() == t {
                1nat
            } else {
                0nat
            }
        }
    }

    /// The evaluations counted by the first `k` cached rules.
    pub open spec fn evaluations(&self, k: int) -> nat
        decreases k,
    {
        if k <= 0 {
            0
        } else {
            self.evaluations(k - 1) + (self.rule(k - 1).spec_count() as nat)
        }
    }

    proof fn lemma_ids(&self)
        ensures
            self.ids().len() == self.rules@.len(),
            forall|i: int| 0 <= i < self.rules@.len() ==> #[trigger] self.ids()[i] == self.rules@[i].0@,
    {
    }

    /// Create a new rule cache with the default promotion threshold
    pub fn new() -> (c: Self)
        ensures
            c.wf(),
            c.ids().len() == 0,
            c.threshold() == 100,
    {
        let config = Config::default();
        RuleCache::with_threshold(config.bytecode_promotion_threshold)
    }

    /// Create a new rule cache with custom promotion threshold
    pub fn with_threshold(threshold: u64) -> (c: Self)
        ensures
            c.wf(),
            c.ids().len() == 0,
            c.threshold() == threshold,
    {
        let c = RuleCache { rules: Vec::new(), promotion_threshold: threshold };
        proof {
            c.lemma_ids();
        }
        c
    }

    /// The position of the rule with id `rule_id`, if it is cached.
    fn position(&self, rule_id: &str) -> (r: Option<usize>)
        ensures
            match r {
                Some(i) => i < self.ids().len() && self.ids()[i as int] == rule_id@,
                None => !self.ids().contains(rule_id@),
            },
    {
        proof {
            self.lemma_ids();
        }
        let id = str_chars(rule_id);
        let mut i: usize = 0;
        while i < self.rules.len()
            invariant
                0 <= i <= self.rules@.len(),
                id@ == rule_id@,
                self.ids().len() == self.rules@.len(),
                forall|j: int| 0 <= j < self.rules@.len() ==> #[trigger] self.ids()[j] == self.rules@[j].0@,
                forall|j: int| 0 <= j < i ==> self.ids()[j] != rule_id@,
            decreases self.rules@.len() - i,
        {
            let k = str_chars(self.rules[i].0.as_str());
            if chars_equal(k.as_slice(), id.as_slice()) {
                return Some(i);
            }
            i = i + 1;
        }
        None
    }

    /// The cached rule with id `rule_id`, if any.
    pub fn get(&self, rule_id: &str) -> (r: Option<&CompiledRule>)
        ensures
            match r {
                Some(rule) => exists|i: int| 0 <= i < self.ids().len() && self.ids()[i] == rule_id@ && *rule == self.rule(i),
                None => !self.ids().contains(rule_id@),
            },
    {
        match self.position(rule_id) {
            Some(i) => {
                let r = &self.rules[i].1;
                assert(*r == self.rule(i as int));
                Some(r)
            },
            None => None,
        }
    }

    /// Make sure a rule with id `rule_id` is cached: when there is none, a
    /// new rule at the AST tier is added for `expr`.
    pub fn get_or_compile(&mut self, rule_id: &str, expr: Expr)
        requires
            old(self).wf(),
        ensures
            final(self).wf(),
            final(self).threshold() == old(self).threshold(),
            old(self).ids().contains(rule_id@) ==> final(self).ids() == old(self).ids() && forall|i: int|
                0 <= i < old(self).ids().len() ==> #[trigger] final(self).rule(i) == old(self).rule(i),
            !old(self).ids().contains(rule_id@) ==> {
                &&& final(self).ids() == old(self).ids().push(rule_id@)
                &&& forall|i: int| 0 <= i < old(self).ids().len() ==> #[trigger] final(self).rule(i) == old(self).rule(i)
                &&& final(self).rule(old(self).ids().len() as int) == CompiledRule::new_state(expr)
            },
    {
        proof {
            self.lemma_ids();
        }
        match self.position(rule_id) {
            Some(_) => {},
            None => {
                let ghost before = *self;
                self.rules.push((rule_id.to_owned(), CompiledRule::new(expr)));
                proof {
                    self.lemma_ids();
                    assert(self.ids() =~= before.ids().push(rule_id@));
                    assert forall|i: int| 0 <= i < before.ids().len() implies #[trigger] self.rule(i) == before.rule(i) by {
                        assert(self.rules@[i] == before.rules@[i]);
                    }
                    assert forall|a: int, b: int| 0 <= a < b < self.ids().len() implies self.ids()[a] != self.ids()[b] by {
                        if b == before.ids().len() {
                            assert(before.ids()[a] == self.ids()[a]);
                            assert(before.ids().contains(before.ids()[a]));
                        } else {
                            assert(before.ids()[a] == self.ids()[a]);
                            assert(before.ids()[b] == self.ids()[b]);
                        }
                    }
                }
            },
        }
    }

    /// Count one evaluation of the rule `rule_id` (added for `expr` when it
    /// is not cached) and promote it once it reached the threshold.  A rule
    /// whose bytecode cannot be made stays at the AST tier.
    pub fn note_evaluation(&mut self, rule_id: &str, expr: Expr)
        requires
            old(self).wf(),
            old(self).rule_for(rule_id@, expr).promotes_on_evaluation(old(self).threshold()) ==> !(spec_bytecode(
                old(self).rule_for(rule_id@, expr).spec_ast(),
            ) is Panics),
        ensures
            final(self).wf(),
            final(self).threshold() == old(self).threshold(),
            final(self).ids() == (if old(self).ids().contains(rule_id@) {
                old(self).ids()
            } else {
                old(self).ids().push(rule_id@)
            }),
            exists|i: int|
                0 <= i < final(self).ids().len() && final(self).ids()[i] == rule_id@ && {
                    let before = if i < old(self).ids().len() {
                        old(self).rule(i)
                    } else {
                        CompiledRule::new_state(expr)
                    };
                    &&& final(self).rule(i).spec_ast() == before.spec_ast()
                    &&& final(self).rule(i).spec_count() == (if before.spec_count() == u64::MAX {
                        0
                    } else {
                        (before.spec_count() + 1) as u64
                    })
                    &&& final(self).rule(i).spec_tier() == tier_after_evaluation(
                        before.spec_tier(),
                        final(self).rule(i).spec_count(),
                        old(self).threshold(),
                        compiles(before.spec_ast()),
                    )
                    &&& forall|j: int| 0 <= j < final(self).ids().len() && j != i ==> #[trigger] final(self).rule(j) == (
                        if j < old(self).ids().len() {
                            old(self).rule(j)
                        } else {
                            CompiledRule::new_state(expr)
                        })
                },
    {
        let ghost start = *self;
        self.get_or_compile(rule_id, expr);
        let ghost mid = *self;
        proof {
            self.lemma_ids();
            if !start.ids().contains(rule_id@) {
                assert(self.ids()[start.ids().len() as int] == rule_id@);
            }
            assert(self.ids().contains(rule_id@));
        }
        match self.position(rule_id) {
            Some(i) => {
                let (id, mut rule) = self.rules.remove(i);
                assert(rule == mid.rule(i as int));
                proof {
                    if start.ids().contains(rule_id@) {
                        let c = choose|c: int| 0 <= c < start.ids().len() && start.ids()[c] == rule_id@;
                        assert(mid.ids()[c] == rule_id@);
                        assert(c == i);
                    } else {
                        assert(i == start.ids().len()) by {
                            if i < start.ids().len() {
                                assert(start.ids()[i as int] == rule_id@);
                            }
                        }
                    }
                    assert(rule == start.rule_for(rule_id@, expr));
                }
                rule.note_evaluation(self.promotion_threshold);
                self.rules.insert(i, (id, rule));
                proof {
                    self.lemma_ids();
                    assert(self.ids() =~= mid.ids());
                    assert forall|j: int| 0 <= j < self.ids().len() && j != i implies #[trigger] self.rule(j) == mid.rule(j) by {
                        assert(self.rules@[j] == mid.rules@[j]);
                    }
                    assert(self.ids()[i as int] == rule_id@);
                }
            },
            None => {
                assert(false);
            },
        }
    }

    /// Force compile a rule to bytecode (Tier 1), adding it for `expr` when
    /// it is not cached.
    pub fn force_compile(&mut self, rule_id: &str, expr: Expr) -> (r: Result<(), JsonLogicError>)
        requires
            old(self).wf(),
            old(self).rule_for(rule_id@, expr).promotable(),
        ensures
            final(self).wf(),
            final(self).threshold() == old(self).threshold(),
            final(self).ids() == (if old(self).ids().contains(rule_id@) {
                old(self).ids()
            } else {
                old(self).ids().push(rule_id@)
            }),
            exists|i: int|
                0 <= i < final(self).ids().len() && final(self).ids()[i] == rule_id@ && {
                    let before = if i < old(self).ids().len() {
                        old(self).rule(i)
                    } else {
                        CompiledRule::new_state(expr)
                    };
                    &&& final(self).rule(i).spec_ast() == before.spec_ast()
                    &&& final(self).rule(i).spec_count() == before.spec_count()
                    &&& (before.spec_tier() == CompilationTier::Ast ==> match spec_bytecode(before.spec_ast()) {
                        Outcome::Done(g) => r is Ok && final(self).rule(i).spec_tier() == CompilationTier::Bytecode,
                        Outcome::Failed(err) => r matches Err(e) && e@ == err && final(self).rule(i).spec_tier()
                            == CompilationTier::Ast,
                        Outcome::Panics => false,
                    })
                    &&& (before.spec_tier() != CompilationTier::Ast ==> r is Ok && final(self).rule(i).spec_tier()
                        == before.spec_tier())
                    &&& forall|j: int| 0 <= j < final(self).ids().len() && j != i ==> #[trigger] final(self).rule(j) == (
                        if j < old(self).ids().len() {
                            old(self).rule(j)
                        } else {
                            CompiledRule::new_state(expr)
                        })
                },
    {
        let ghost start = *self;
        self.get_or_compile(rule_id, expr);
        let ghost mid = *self;
        proof {
            self.lemma_ids();
            if !start.ids().contains(rule_id@) {
                assert(self.ids()[start.ids().len() as int] == rule_id@);
            }
            assert(self.ids().contains(rule_id@));
        }
        match self.position(rule_id) {
            Some(i) => {
                let (id, mut rule) = self.rules.remove(i);
                assert(rule == mid.rule(i as int));
                proof {
                    if start.ids().contains(rule_id@) {
                        let c = choose|c: int| 0 <= c < start.ids().len() && start.ids()[c] == rule_id@;
                        assert(mid.ids()[c] == rule_id@);
                        assert(c == i);
                    } else {
                        assert(i == start.ids().len()) by {
                            if i < start.ids().len() {
                                assert(start.ids()[i as int] == rule_id@);
                            }
                        }
                    }
                    assert(rule == start.rule_for(rule_id@, expr));
                }
                let r = rule.promote_to_bytecode();
                self.rules.insert(i, (id, rule));
                proof {
                    self.lemma_ids();
                    assert(self.ids() =~= mid.ids());
                    assert forall|j: int| 0 <= j < self.ids().len() && j != i implies #[trigger] self.rule(j) == mid.rule(j) by {
                        assert(self.rules@[j] == mid.rules@[j]);
                    }
                    assert(self.ids()[i as int] == rule_id@);
                }
                r
            },
            None => {
                assert(false);
                Ok(())
            },
        }
    }

    /// Get cache statistics: the rules at each tier and the evaluations
    /// counted by all of them.
    pub fn stats(&self) -> (s: CacheStats)
        requires
            self.evaluations(self.ids().len() as int) <= u64::MAX,
        ensures
            s.total_rules == self.ids().len(),
            s.tier0_rules == self.tier_count(CompilationTier::Ast, self.ids().len() as int),
            s.tier1_rules == self.tier_count(CompilationTier::Bytecode, self.ids().len() as int),
            s.tier2_rules == self.tier_count(CompilationTier::Jit, self.ids().len() as int),
            s.total_evaluations == self.evaluations(self.ids().len() as int),
    {
        proof {
            self.lemma_ids();
        }
        let mut stats = CacheStats::default();
        let mut i: usize = 0;
        while i < self.rules.len()
            invariant
                0 <= i <= self.rules@.len(),
                self.ids().len() == self.rules@.len(),
                self.evaluations(self.ids().len() as int) <= u64::MAX,
                stats.total_rules == i,
                stats.tier0_rules == self.tier_count(CompilationTier::Ast, i as int),
                stats.tier1_rules == self.tier_count(CompilationTier::Bytecode, i as int),
                stats.tier2_rules == self.tier_count(CompilationTier::Jit, i as int),
                stats.total_evaluations == self.evaluations(i as int),
                stats.tier0_rules + stats.tier1_rules + stats.tier2_rules == i,
            decreases self.rules@.len() - i,
        {
            let rule = &self.rules[i].1;
            assert(*rule == self.rule(i as int));
            proof {
                self.lemma_evaluations_grow(i as int + 1, self.ids().len() as int);
            }
            stats.total_rules = stats.total_rules + 1;
            match rule.tier() {
                CompilationTier::Ast => stats.tier0_rules = stats.tier0_rules + 1,
                CompilationTier::Bytecode => stats.tier1_rules = stats.tier1_rules + 1,
                CompilationTier::Jit => stats.tier2_rules = stats.tier2_rules + 1,
            }
            stats.total_evaluations = stats.total_evaluations + rule.eval_count();
            i = i + 1;
        }
        stats
    }

    proof fn lemma_evaluations_grow(&self, a: int, b: int)
        requires
            0 <= a <= b,
        ensures
            self.evaluations(a) <= self.evaluations(b),
        decreases b - a,
    {
        if a < b {
            self.lemma_evaluations_grow(a, b - 1);
        }
    }

    /// Clear the cache
    pub fn clear(&mut self)
        ensures
            final(self).wf(),
            final(self).ids().len() == 0,
            final(self).threshold() == old(self).threshold(),
    {
        self.rules = Vec::new();
        proof {
            self.lemma_ids();
        }
    }

    /// Remove a specific rule from the cache; whether it was there.
    pub fn remove(&mut self, rule_id: &str) -> (r: bool)
        requires
            old(self).wf(),
        ensures
            final(self).wf(),
            final(self).threshold() == old(self).threshold(),
            r == old(self).ids().contains(rule_id@),
            !final(self).ids().contains(rule_id@),
            r ==> exists|i: int|
                0 <= i < old(self).ids().len() && old(self).ids()[i] == rule_id@ && final(self).ids() == old(self).ids().remove(i)
                    && forall|j: int| 0 <= j < final(self).ids().len() ==> #[trigger] final(self).rule(j) == old(self).rule(
                        if j < i { j } else { j + 1 },
                    ),
            !r ==> final(self).ids() == old(self).ids(),
    {
        proof {
            self.lemma_ids();
        }
        match self.position(rule_id) {
            Some(i) => {
                let ghost before = *self;
                let _ = self.rules.remove(i);
                proof {
                    self.lemma_ids();
                    assert(self.ids() =~= before.ids().remove(i as int));
                    assert forall|j: int| 0 <= j < self.ids().len() implies #[trigger] self.rule(j) == before.rule(
                        if j < i { j } else { j + 1 },
                    ) by {
                        assert(self.rules@[j] == before.rules@[if j < i { j } else { j + 1 }]);
                    }
                    assert forall|a: int, b: int| 0 <= a < b < self.ids().len() implies self.ids()[a] != self.ids()[b] by {
                        let a2 = if a < i { a } else { a + 1 };
                        let b2 = if b < i { b } else { b + 1 };
                        assert(self.ids()[a] == before.ids()[a2]);
                        assert(self.ids()[b] == before.ids()[b2]);
                    }
                    if self.ids().contains(rule_id@) {
                        let j = choose|j: int| 0 <= j < self.ids().len() && #[trigger] self.ids()[j] == rule_id@;
                        let j2 = if j < i { j } else { j + 1 };
                        assert(before.ids()[j2] == rule_id@);
                        assert(before.ids()[i as int] == rule_id@);
                    }
                    assert(before.ids().contains(rule_id@)) by {
                        assert(before.ids()[i as int] == rule_id@);
                    }
                }
                true
            },
            None => false,
        }
    }

    /// Get the number of cached rules
    pub fn len(&self) -> (n: usize)
        ensures
            n == self.ids().len(),
    {
        proof {
            self.lemma_ids();
        }
        self.rules.len()
    }

    /// Check if the cache is empty
    pub fn is_empty(&self) -> (r: bool)
        ensures
            r == (self.ids().len() == 0),
    {
        proof {
            self.lemma_ids();
        }
        self.rules.len() == 0
    }
}

impl CompiledRule {
    /// The state of a new rule for `ast`.
    pub closed spec fn new_state(ast: Expr) -> CompiledRule {
        CompiledRule { ast, bytecode: None, tier: CompilationTier::Ast, eval_count: 0 }
    }
}

/// The rules of a cache are at one tier each.
pub proof fn lemma_stats_tiers_add_up(c: RuleCache, k: int)
    requires
        0 <= k,
    ensures
        c.tier_count(CompilationTier::Ast, k) + c.tier_count(CompilationTier::Bytecode, k) + c.tier_count(
            CompilationTier::Jit,
            k,
        ) == k,
    decreases k,
{
    if k > 0 {
        lemma_stats_tiers_add_up(c, k - 1);
    }
}

} // verus!
