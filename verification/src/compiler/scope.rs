//! What a scope binds: the identifiers that a list of statements introduces
//! at one lexical level, in the order in which a walk of the tree meets them.

use crate::compiler::errors::{CompilerError, CompilerErrorView, Construct};
use crate::parser::ast::{Alias, Arg, Arguments, Comprehension, Expression, Statement};
use crate::compiler::names::{distinct_names, lemma_distinct_names};
use vstd::hash_map::StringHashMap;
use vstd::prelude::*;
use vstd::seq_lib::seq_to_set_is_finite;

verus! {

/// The name of the method whose body declares the attributes of a class.
pub open spec fn init_name() -> Seq<char> {
    "__init__"@
}

/// The first of two findings.
pub open spec fn first_of(a: Option<Construct>, b: Option<Construct>) -> Option<Construct> {
    if a is Some {
        a
    } else {
        b
    }
}

/// The names that an assignment target binds: a plain name binds itself, a
/// tuple binds what its elements bind, anything else binds nothing.
pub open spec fn target_names(target: Expression) -> Seq<Seq<char>>
    decreases target, 0nat,
{
    match target {
        Expression::Name { id, .. } => seq![id@],
        Expression::Tuple { elts, .. } => targets_names(elts@, elts@.len()),
        _ => Seq::empty(),
    }
}

/// The names that the first `n` of `targets` bind.
pub open spec fn targets_names(targets: Seq<Expression>, n: nat) -> Seq<Seq<char>>
    decreases targets, n,
{
    if 0 < n <= targets.len() {
        targets_names(targets, (n - 1) as nat) + target_names(targets[n - 1])
    } else {
        Seq::empty()
    }
}

/// Whether a target can be unpacked: a list cannot, a tuple can if each of
/// its elements can, anything else can.
pub open spec fn target_supported(target: Expression) -> bool
    decreases target, 0nat,
{
    match target {
        Expression::List { .. } => false,
        Expression::Tuple { elts, .. } => targets_supported(elts@, elts@.len()),
        _ => true,
    }
}

/// Whether each of the first `n` of `targets` can be unpacked.
pub open spec fn targets_supported(targets: Seq<Expression>, n: nat) -> bool
    decreases targets, n,
{
    if 0 < n <= targets.len() {
        targets_supported(targets, (n - 1) as nat) && target_supported(targets[n - 1])
    } else {
        true
    }
}

/// The attributes of `alias` that a target assigns: `alias.attr` gives
/// `attr`, a tuple gives what its elements give, anything else gives nothing.
pub open spec fn alias_target_names(target: Expression, alias: Seq<char>) -> Seq<Seq<char>>
    decreases target, 0nat,
{
    match target {
        Expression::Attribute { value, attr, .. } => match *value {
            Expression::Name { id, .. } => if id@ == alias {
                seq![attr@]
            } else {
                Seq::empty()
            },
            _ => Seq::empty(),
        },
        Expression::Tuple { elts, .. } => alias_targets_names(elts@, elts@.len(), alias),
        _ => Seq::empty(),
    }
}

/// The attributes of `alias` that the first `n` of `targets` assign.
pub open spec fn alias_targets_names(targets: Seq<Expression>, n: nat, alias: Seq<char>) -> Seq<
    Seq<char>,
>
    decreases targets, n,
{
    if 0 < n <= targets.len() {
        alias_targets_names(targets, (n - 1) as nat, alias) + alias_target_names(
            targets[n - 1],
            alias,
        )
    } else {
        Seq::empty()
    }
}

/// The attributes of `alias` that a statement in the body of an initialiser
/// assigns, loops and conditionals included.
pub open spec fn init_stmt_names(stmt: Statement, alias: Seq<char>) -> Seq<Seq<char>>
    decreases stmt, 0nat,
{
    match stmt {
        Statement::Assign { targets, .. } => alias_targets_names(targets@, targets@.len(), alias),
        Statement::For { body, orelse, .. } => init_stmts_names(body@, body@.len(), alias)
            + init_stmts_names(orelse@, orelse@.len(), alias),
        Statement::While { body, orelse, .. } => init_stmts_names(body@, body@.len(), alias)
            + init_stmts_names(orelse@, orelse@.len(), alias),
        Statement::If { body, orelse, .. } => init_stmts_names(body@, body@.len(), alias)
            + init_stmts_names(orelse@, orelse@.len(), alias),
        _ => Seq::empty(),
    }
}

/// The attributes of `alias` that the first `n` of `stmts` assign.
pub open spec fn init_stmts_names(stmts: Seq<Statement>, n: nat, alias: Seq<char>) -> Seq<
    Seq<char>,
>
    decreases stmts, n,
{
    if 0 < n <= stmts.len() {
        init_stmts_names(stmts, (n - 1) as nat, alias) + init_stmt_names(stmts[n - 1], alias)
    } else {
        Seq::empty()
    }
}

/// The first construct in a statement of an initialiser's body that cannot
/// be handled, if there is one.
pub open spec fn init_stmt_unsupported(stmt: Statement) -> Option<Construct>
    decreases stmt, 0nat,
{
    match stmt {
        Statement::Assign { targets, .. } => if targets_supported(targets@, targets@.len()) {
            None
        } else {
            Some(Construct::ListTarget)
        },
        Statement::For { body, orelse, .. } => first_of(
            init_stmts_unsupported(body@, body@.len()),
            init_stmts_unsupported(orelse@, orelse@.len()),
        ),
        Statement::While { body, orelse, .. } => first_of(
            init_stmts_unsupported(body@, body@.len()),
            init_stmts_unsupported(orelse@, orelse@.len()),
        ),
        Statement::If { body, orelse, .. } => first_of(
            init_stmts_unsupported(body@, body@.len()),
            init_stmts_unsupported(orelse@, orelse@.len()),
        ),
        _ => None,
    }
}

/// The first construct in the first `n` of `stmts` that cannot be handled.
pub open spec fn init_stmts_unsupported(stmts: Seq<Statement>, n: nat) -> Option<Construct>
    decreases stmts, n,
{
    if 0 < n <= stmts.len() {
        first_of(
            init_stmts_unsupported(stmts, (n - 1) as nat),
            init_stmt_unsupported(stmts[n - 1]),
        )
    } else {
        None
    }
}

/// The name of the first parameter, if there is one.
pub open spec fn first_param(params: Arguments) -> Option<Seq<char>> {
    match params {
        Arguments::Arguments { args, .. } => if args@.len() > 0 {
            match args@[0] {
                Arg::Arg { arg, .. } => Some(arg@),
            }
        } else {
            None
        },
    }
}

/// The instance attributes that an initialiser declares: what its body
/// assigns through its first parameter. Without parameters, none.
pub open spec fn class_init_names(func: Statement) -> Seq<Seq<char>> {
    match func {
        Statement::FunctionDef { args, body, .. } => match first_param(args) {
            Some(alias) => init_stmts_names(body@, body@.len(), alias),
            None => Seq::empty(),
        },
        _ => Seq::empty(),
    }
}

/// The first construct in an initialiser that cannot be handled.
pub open spec fn class_init_unsupported(func: Statement) -> Option<Construct> {
    match func {
        Statement::FunctionDef { args, body, .. } => match first_param(args) {
            Some(_) => init_stmts_unsupported(body@, body@.len()),
            None => None,
        },
        _ => None,
    }
}

/// The name that an import binds: the alias if there is one, else the name.
pub open spec fn alias_name(alias: Alias) -> Seq<char> {
    match alias {
        Alias::Alias { name, asname } => match asname {
            Some(other) => other@,
            None => name@,
        },
    }
}

/// The names that the first `n` imports of `aliases` bind.
pub open spec fn alias_names(aliases: Seq<Alias>, n: nat) -> Seq<Seq<char>>
    decreases n,
{
    if 0 < n <= aliases.len() {
        alias_names(aliases, (n - 1) as nat).push(alias_name(aliases[n - 1]))
    } else {
        Seq::empty()
    }
}

/// The names that a statement binds in the scope it stands in.
///
/// Definitions bind their name; assignments and `for` bind their targets;
/// loops and conditionals bind what their bodies bind; an import binds each
/// imported name. In a class body an initialiser also binds the instance
/// attributes it declares.
pub open spec fn stmt_names(stmt: Statement, is_class: bool) -> Seq<Seq<char>>
    decreases stmt, 0nat,
{
    match stmt {
        Statement::FunctionDef { name, .. } => if is_class && name@ == init_name() {
            seq![name@] + class_init_names(stmt)
        } else {
            seq![name@]
        },
        Statement::ClassDef { name, .. } => seq![name@],
        Statement::Assign { targets, .. } => targets_names(targets@, targets@.len()),
        Statement::For { target, body, orelse, .. } => target_names(target) + stmts_names(
            body@,
            body@.len(),
            is_class,
        ) + stmts_names(orelse@, orelse@.len(), is_class),
        Statement::While { body, orelse, .. } => stmts_names(body@, body@.len(), is_class)
            + stmts_names(orelse@, orelse@.len(), is_class),
        Statement::If { body, orelse, .. } => stmts_names(body@, body@.len(), is_class)
            + stmts_names(orelse@, orelse@.len(), is_class),
        Statement::Import { names } => alias_names(names@, names@.len()),
        _ => Seq::empty(),
    }
}

/// The names that the first `n` of `stmts` bind.
pub open spec fn stmts_names(stmts: Seq<Statement>, n: nat, is_class: bool) -> Seq<Seq<char>>
    decreases stmts, n,
{
    if 0 < n <= stmts.len() {
        stmts_names(stmts, (n - 1) as nat, is_class) + stmt_names(stmts[n - 1], is_class)
    } else {
        Seq::empty()
    }
}

/// The first construct in a statement that scope gathering cannot handle.
pub open spec fn stmt_unsupported(stmt: Statement, is_class: bool) -> Option<Construct>
    decreases stmt, 0nat,
{
    match stmt {
        Statement::FunctionDef { name, .. } => if is_class && name@ == init_name() {
            class_init_unsupported(stmt)
        } else {
            None
        },
        Statement::Assign { targets, .. } => if targets_supported(targets@, targets@.len()) {
            None
        } else {
            Some(Construct::ListTarget)
        },
        Statement::For { target, body, orelse, .. } => first_of(
            if target_supported(target) {
                None
            } else {
                Some(Construct::ListTarget)
            },
            first_of(
                stmts_unsupported(body@, body@.len(), is_class),
                stmts_unsupported(orelse@, orelse@.len(), is_class),
            ),
        ),
        Statement::While { body, orelse, .. } => first_of(
            stmts_unsupported(body@, body@.len(), is_class),
            stmts_unsupported(orelse@, orelse@.len(), is_class),
        ),
        Statement::If { body, orelse, .. } => first_of(
            stmts_unsupported(body@, body@.len(), is_class),
            stmts_unsupported(orelse@, orelse@.len(), is_class),
        ),
        Statement::ImportFrom { .. } => Some(Construct::ImportFrom),
        _ => None,
    }
}

/// The first construct in the first `n` of `stmts` that scope gathering
/// cannot handle.
pub open spec fn stmts_unsupported(stmts: Seq<Statement>, n: nat, is_class: bool) -> Option<
    Construct,
>
    decreases stmts, n,
{
    if 0 < n <= stmts.len() {
        first_of(
            stmts_unsupported(stmts, (n - 1) as nat, is_class),
            stmt_unsupported(stmts[n - 1], is_class),
        )
    } else {
        None
    }
}

/// The names of the first `n` positional parameters.
pub open spec fn param_names(args: Seq<Arg>, n: nat) -> Seq<Seq<char>>
    decreases n,
{
    if 0 < n <= args.len() {
        param_names(args, (n - 1) as nat).push(
            match args[n - 1] {
                Arg::Arg { arg, .. } => arg@,
            },
        )
    } else {
        Seq::empty()
    }
}

/// The names that the targets of the first `n` comprehension clauses bind.
pub open spec fn comp_names(generators: Seq<Comprehension>, n: nat) -> Seq<Seq<char>>
    decreases n,
{
    if 0 < n <= generators.len() {
        comp_names(generators, (n - 1) as nat) + match generators[n - 1] {
            Comprehension::Comprehension { target, .. } => target_names(target),
        }
    } else {
        Seq::empty()
    }
}

/// Whether the targets of the first `n` comprehension clauses can be unpacked.
pub open spec fn comp_supported(generators: Seq<Comprehension>, n: nat) -> bool
    decreases n,
{
    if 0 < n <= generators.len() {
        comp_supported(generators, (n - 1) as nat) && match generators[n - 1] {
            Comprehension::Comprehension { target, .. } => target_supported(target),
        }
    } else {
        true
    }
}

/// The map that gives the first `n` names of `order` the slots from `start`
/// on, in their order.
pub open spec fn slots(order: Seq<Seq<char>>, n: nat, start: int) -> Map<Seq<char>, usize>
    decreases n,
{
    if 0 < n <= order.len() {
        slots(order, (n - 1) as nat, start).insert(order[n - 1], (start + n - 1) as usize)
    } else {
        Map::empty()
    }
}

/// The scope of a list of bound names: each name once, numbered from `start`
/// on in the order of first occurrence.
pub open spec fn scope_map(names: Seq<Seq<char>>, start: int) -> Map<Seq<char>, usize> {
    let order = distinct_names(names);
    slots(order, order.len(), start)
}

/// Whether some name has slot `j` in `m`.
pub open spec fn has_slot(m: Map<Seq<char>, usize>, j: int) -> bool {
    exists|x: Seq<char>| m.contains_key(x) && #[trigger] m[x] == j
}

/// Whether the slots of the scope of `names` from `start` on can be
/// addressed: the slot behind the last is no greater than the largest
/// address.
pub open spec fn scope_fits(names: Seq<Seq<char>>, start: int) -> bool {
    start + distinct_names(names).len() <= usize::MAX
}

/// Whether `r` is the scope of `names` from `start` on, or the overflow
/// where its slots cannot be addressed.
pub open spec fn is_scope_of(r: Result<StringHashMap<usize>, CompilerError>, names: Seq<Seq<char>>, start: int) -> bool {
    match r {
        Ok(m) => {
            &&& scope_fits(names, start)
            &&& m@ == scope_map(names, start)
            &&& is_numbering(m@, names.to_set(), start)
        },
        Err(e) => !scope_fits(names, start) && e@ == CompilerErrorView::ScopeOverflow,
    }
}

/// Whether `m` numbers the names of `names` from `start` on: each name has a
/// slot, no two share one, and the slots are exactly those from `start` up
/// to `start` plus the number of names.
pub open spec fn is_numbering(m: Map<Seq<char>, usize>, names: Set<Seq<char>>, start: int) -> bool {
    &&& names.finite()
    &&& m.dom() == names
    &&& m.is_injective()
    &&& forall|x: Seq<char>| names.contains(x) ==> start <= #[trigger] m[x] < start + names.len()
    &&& forall|j: int| start <= j < start + names.len() ==> #[trigger] has_slot(m, j)
}

/// What `slots` holds when no name of `order` occurs twice: the first `n`
/// names, the `i`-th with slot `start + i`.
pub proof fn lemma_slots(order: Seq<Seq<char>>, n: nat, start: int)
    requires
        order.no_duplicates(),
        n <= order.len(),
        0 <= start,
        start + n <= usize::MAX + 1,
    ensures
        forall|x: Seq<char>|
            slots(order, n, start).contains_key(x) <==> exists|i: int|
                0 <= i < n && #[trigger] order[i] == x,
        forall|i: int| 0 <= i < n ==> #[trigger] slots(order, n, start)[order[i]] == start + i,
    decreases n,
{
    if n > 0 {
        let prev = slots(order, (n - 1) as nat, start);
        let cur = slots(order, n, start);
        lemma_slots(order, (n - 1) as nat, start);
        assert forall|x: Seq<char>| cur.contains_key(x) <==> exists|i: int|
            0 <= i < n && #[trigger] order[i] == x by {
            if cur.contains_key(x) {
                if x == order[n - 1] {
                } else {
                    assert(prev.contains_key(x));
                    let i = choose|i: int| 0 <= i < n - 1 && #[trigger] order[i] == x;
                    assert(0 <= i < n && order[i] == x);
                }
            }
            if exists|i: int| 0 <= i < n && #[trigger] order[i] == x {
                let i = choose|i: int| 0 <= i < n && #[trigger] order[i] == x;
                if i < n - 1 {
                    assert(prev.contains_key(x));
                }
            }
        }
        assert forall|i: int| 0 <= i < n implies #[trigger] cur[order[i]] == start + i by {
            if i < n - 1 {
                assert(order[i] != order[n - 1]);
                assert(prev[order[i]] == start + i);
            }
        }
    }
}

/// A scope is a bijection between the bound names and the slots from `start`
/// on: as many slots as there are names.
pub proof fn lemma_scope_map_numbers(names: Seq<Seq<char>>, start: int)
    requires
        0 <= start,
        start + distinct_names(names).len() <= usize::MAX + 1,
    ensures
        is_numbering(scope_map(names, start), names.to_set(), start),
        names.to_set().len() == distinct_names(names).len(),
{
    let order = distinct_names(names);
    let m = scope_map(names, start);
    let set = names.to_set();
    lemma_distinct_names(names);
    lemma_slots(order, order.len(), start);
    seq_to_set_is_finite(names);
    assert(order.to_set() =~= set);
    order.unique_seq_to_set();
    assert(m.dom() =~= set) by {
        assert forall|x: Seq<char>| m.dom().contains(x) <==> set.contains(x) by {
            if m.contains_key(x) {
                let i = choose|i: int| 0 <= i < order.len() && #[trigger] order[i] == x;
                assert(order.contains(x));
            }
            if set.contains(x) {
                assert(order.contains(x));
                let i = choose|i: int| 0 <= i < order.len() && order[i] == x;
                assert(order[i] == x);
            }
        }
    }
    assert forall|x: Seq<char>| set.contains(x) implies start <= #[trigger] m[x] < start
        + set.len() by {
        assert(order.contains(x));
        let i = choose|i: int| 0 <= i < order.len() && order[i] == x;
        assert(m[order[i]] == start + i);
    }
    assert forall|x: Seq<char>, y: Seq<char>|
        x != y && m.dom().contains(x) && m.dom().contains(y) implies #[trigger] m[x]
        != #[trigger] m[y] by {
        assert(order.contains(x));
        assert(order.contains(y));
        let i = choose|i: int| 0 <= i < order.len() && order[i] == x;
        let j = choose|j: int| 0 <= j < order.len() && order[j] == y;
        assert(m[order[i]] == start + i);
        assert(m[order[j]] == start + j);
    }
    assert forall|j: int| start <= j < start + set.len() implies #[trigger] has_slot(m, j) by {
        let x = order[j - start];
        assert(order.contains(x));
        assert(m[order[j - start]] == j);
        assert(m.contains_key(x) && m[x] == j);
    }
}

/// Where the innermost of the first `n` scopes of a stack that binds `id`
/// has it: the depth of that scope and the slot of `id` in it. The last
/// scope of a stack is the innermost.
pub open spec fn innermost(scopes: Seq<Map<Seq<char>, usize>>, n: nat, id: Seq<char>) -> Option<
    (usize, usize),
>
    decreases n,
{
    if 0 < n <= scopes.len() {
        if scopes[n - 1].contains_key(id) {
            Some(((n - 1) as usize, scopes[n - 1][id]))
        } else {
            innermost(scopes, (n - 1) as nat, id)
        }
    } else {
        None
    }
}

/// Where a stack of scopes has `id`: in the innermost scope that binds it.
pub open spec fn resolve(scopes: Seq<Map<Seq<char>, usize>>, id: Seq<char>) -> Option<
    (usize, usize),
> {
    innermost(scopes, scopes.len(), id)
}

/// `resolve` finds the scope of greatest depth that binds the name, and
/// nothing exactly if no scope binds it.
pub proof fn lemma_innermost(scopes: Seq<Map<Seq<char>, usize>>, n: nat, id: Seq<char>)
    requires
        n <= scopes.len() <= usize::MAX,
    ensures
        match innermost(scopes, n, id) {
            Some((depth, slot)) => {
                &&& depth < n
                &&& scopes[depth as int].contains_key(id)
                &&& slot == scopes[depth as int][id]
                &&& forall|d: int| depth < d < n ==> !(#[trigger] scopes[d]).contains_key(id)
            },
            None => forall|d: int| 0 <= d < n ==> !(#[trigger] scopes[d]).contains_key(id),
        },
    decreases n,
{
    if n > 0 {
        lemma_innermost(scopes, (n - 1) as nat, id);
    }
}

/// An inner scope shadows an outer one: where both bind a name, it resolves
/// to the inner scope, at depth 1, and to the slot it has there.
pub proof fn lemma_inner_scope_shadows(
    outer: Map<Seq<char>, usize>,
    inner: Map<Seq<char>, usize>,
    id: Seq<char>,
)
    requires
        outer.contains_key(id),
        inner.contains_key(id),
    ensures
        resolve(seq![outer, inner], id) == Some((1usize, inner[id])),
{
}

/// Whether a result reports `found`: success where nothing was found, else
/// the construct that was.
pub open spec fn reports(r: Result<(), CompilerError>, found: Option<Construct>) -> bool {
    match r {
        Ok(_) => found is None,
        Err(e) => found matches Some(c) && e@ == CompilerErrorView::Unsupported(c),
    }
}

/// If the first `n` targets can be unpacked, so can each of them.
pub proof fn lemma_targets_supported_at(targets: Seq<Expression>, n: nat, i: int)
    requires
        0 <= i < n <= targets.len(),
        targets_supported(targets, n),
    ensures
        target_supported(targets[i]),
    decreases n,
{
    if i < n - 1 {
        lemma_targets_supported_at(targets, (n - 1) as nat, i);
    }
}

/// What was found among the first `k` statements of an initialiser's body
/// is what is found among the first `n`, for `n` from `k` on.
pub proof fn lemma_init_stmts_unsupported_stays(stmts: Seq<Statement>, k: nat, n: nat)
    requires
        k <= n <= stmts.len(),
        init_stmts_unsupported(stmts, k) is Some,
    ensures
        init_stmts_unsupported(stmts, n) == init_stmts_unsupported(stmts, k),
    decreases n,
{
    if k < n {
        lemma_init_stmts_unsupported_stays(stmts, k, (n - 1) as nat);
    }
}

/// What was found among the first `k` statements is what is found among the
/// first `n`, for `n` from `k` on.
pub proof fn lemma_stmts_unsupported_stays(stmts: Seq<Statement>, k: nat, n: nat, is_class: bool)
    requires
        k <= n <= stmts.len(),
        stmts_unsupported(stmts, k, is_class) is Some,
    ensures
        stmts_unsupported(stmts, n, is_class) == stmts_unsupported(stmts, k, is_class),
    decreases n,
{
    if k < n {
        lemma_stmts_unsupported_stays(stmts, k, (n - 1) as nat, is_class);
    }
}

/// If the targets of the first `n` clauses can be unpacked, so can each of them.
pub proof fn lemma_comp_supported_at(generators: Seq<Comprehension>, n: nat, i: int)
    requires
        0 <= i < n <= generators.len(),
        comp_supported(generators, n),
    ensures
        generators[i] matches Comprehension::Comprehension { target, .. } && target_supported(
            target,
        ),
    decreases n,
{
    if i < n - 1 {
        lemma_comp_supported_at(generators, (n - 1) as nat, i);
    }
}

} // verus!
