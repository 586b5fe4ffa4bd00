//! Scope gathering and identifier lookup.

use crate::compiler::cfg::inst::{BinOpStruct, Instruction, InstructionView};
use crate::compiler::cfg::operand::{Operand, OperandView};
use crate::compiler::cfg::CFG;
use crate::compiler::errors::{CompilerError, CompilerErrorView, Construct};
use crate::compiler::names::{distinct_names, extend_names, lemma_extend_names_concat,
    lemma_extend_names_empty, lemma_extend_names_one, lemma_extend_names_push, NameSet};
use crate::compiler::pattern::{match_groups, regex_captures};
use crate::compiler::scope::{alias_name, alias_names, alias_target_names, alias_targets_names,
    class_init_names, class_init_unsupported, comp_names, comp_supported, init_name,
    init_stmt_names, init_stmt_unsupported, init_stmts_names, init_stmts_unsupported, innermost,
    is_scope_of, lemma_comp_supported_at, lemma_init_stmts_unsupported_stays, lemma_innermost,
    lemma_scope_map_numbers, lemma_stmts_unsupported_stays, lemma_targets_supported_at,
    param_names, reports, resolve, slots, stmt_names, stmt_unsupported, stmts_names,
    stmts_unsupported, target_names, target_supported, targets_names, targets_supported};
use crate::parser::ast::{Alias, Arg, Arguments, Comprehension, Expression, Number, Operator,
    Statement};
use vstd::hash_map::StringHashMap;
use vstd::prelude::*;
use vstd::string::StringExecFns;

verus! {

/// The pattern of a source file's path: an optional directory, which ends
/// with the last `/`, then the module's name and the extension `.py`.
pub const FILENAME_RE: &'static str = r"(.*/)?(.+)\.py$";

/// The directory that stands for a path without one.
pub open spec fn default_root() -> Seq<char> {
    "./"@
}

/// The message for a path that the pattern does not match.
pub open spec fn unsupported_filetype(file: Seq<char>) -> Seq<char> {
    "unsupported filetype for file: "@ + file
}

/// The message for a path in which no module name was found.
pub open spec fn module_not_found(file: Seq<char>) -> Seq<char> {
    "'"@ + file + "' not found"@
}

/// The message for a pattern that is no regular expression.
pub open spec fn invalid_pattern() -> Seq<char> {
    "invalid file name pattern"@
}

/// What group `i` of a match holds; nothing beyond the last group.
pub open spec fn group_at(groups: Seq<Option<Seq<char>>>, i: int) -> Option<Seq<char>> {
    if 0 <= i < groups.len() {
        groups[i]
    } else {
        None
    }
}

/// The directory and the module name of the file `file`, from what the
/// pattern of file names captured in it: group 1 is the directory, group 2
/// the module.
pub open spec fn file_prefix(file: Seq<char>, caps: Option<Seq<Option<Seq<char>>>>) -> Result<
    (Seq<char>, Seq<char>),
    CompilerErrorView,
> {
    match caps {
        None => Err(CompilerErrorView::IOError(unsupported_filetype(file))),
        Some(groups) => match (group_at(groups, 1), group_at(groups, 2)) {
            (Some(src_root), Some(module)) => Ok((src_root, module)),
            (None, Some(module)) => Ok((default_root(), module)),
            _ => Err(CompilerErrorView::IOError(module_not_found(file))),
        },
    }
}

/// A result of `get_file_prefix` with its strings as sequences of characters.
pub open spec fn prefix_view(r: Result<(String, String), CompilerError>) -> Result<
    (Seq<char>, Seq<char>),
    CompilerErrorView,
> {
    match r {
        Ok((src_root, module)) => Ok((src_root@, module@)),
        Err(e) => Err(e@),
    }
}

/// Returns the root directory of the given file and the file name without
/// its extension.
///
/// The path is matched against [`FILENAME_RE`]. Fails with an I/O error if
/// it does not match, that is if it does not end in `.py` behind a name.
pub fn get_file_prefix(file: &str) -> (r: Result<(String, String), CompilerError>)
    ensures
        prefix_view(r) == match regex_captures(FILENAME_RE@, file@) {
            Ok(caps) => file_prefix(file@, caps),
            Err(_) => Err(CompilerErrorView::IOError(invalid_pattern())),
        },
{
    match match_groups(FILENAME_RE, file) {
        Ok(caps) => file_prefix_from_captures(file, caps),
        Err(_) => Err(CompilerError::IOError(String::from_str("invalid file name pattern"))),
    }
}

/// Returns the root directory and the module name of `file`, given the
/// groups that the pattern of file names captured in it, or `None` if it did
/// not match: the root is group 1, or `./` where the path has no directory;
/// the module name is group 2.
///
/// Fails with an I/O error if there was no match or no module name.
pub fn file_prefix_from_captures(file: &str, caps: Option<Vec<Option<String>>>) -> (r: Result<
    (String, String),
    CompilerError,
>)
    ensures
        prefix_view(r) == file_prefix(file@, caps.deep_view()),
{
    if let Some(groups) = caps {
        match (capture_at(&groups, 1), capture_at(&groups, 2)) {
            (Some(src_root), Some(module)) => Ok((src_root.clone(), module.clone())),
            (None, Some(module)) => Ok((String::from_str("./"), module.clone())),
            (Some(_), None) | (None, None) => Err(
                CompilerError::IOError(String::from_str("'").concat(file).concat("' not found")),
            ),
        }
    } else {
        Err(
            CompilerError::IOError(
                String::from_str("unsupported filetype for file: ").concat(file),
            ),
        )
    }
}

/// What group `i` of a match holds; nothing beyond the last group.
fn capture_at(groups: &Vec<Option<String>>, i: usize) -> (group: Option<&String>)
    ensures
        group.deep_view() == group_at(groups.deep_view(), i as int),
{
    if i < groups.len() {
        match &groups[i] {
            Some(text) => Some(text),
            None => None,
        }
    } else {
        None
    }
}

/// One level of scope: the slot of each identifier that the level binds.
pub type Scope = StringHashMap<usize>;

/// The scopes of a stack as maps, the outermost first.
pub open spec fn stack_view(scope: Seq<Scope>) -> Seq<Map<Seq<char>, usize>> {
    Seq::new(scope.len(), |i: int| scope[i]@)
}

/// Gathers the identifiers that `stmts` bind in the scope they stand in, and
/// numbers them from `start_ndx` on in the order in which they are first met.
///
/// With `is_class`, the instance attributes that an initialiser declares
/// belong to the scope too. Fails on the first construct that cannot be
/// handled, a list target or an `import from`, and else with an overflow
/// where the slots would reach beyond the largest address.
pub fn gather_scope(stmts: &Vec<Statement>, start_ndx: usize, is_class: bool) -> (r: Result<
    Scope,
    CompilerError,
>)
    ensures
        match stmts_unsupported(stmts@, stmts@.len(), is_class) {
            Some(c) => r matches Err(e) && e@ == CompilerErrorView::Unsupported(c),
            None => is_scope_of(
                r,
                stmts_names(stmts@, stmts@.len(), is_class),
                start_ndx as int,
            ),
        },
{
    let mut scope_set = NameSet::new();
    rec_gather_scope(&mut scope_set, stmts, is_class)?;
    number_names(
        &scope_set,
        start_ndx,
        Ghost(stmts_names(stmts@, stmts@.len(), is_class)),
    )
}

/// Gathers the positional parameters of a function and numbers them from
/// `start_ndx` on, in their order. The other kinds of parameters are not
/// bound.
///
/// Fails with an overflow where the slots would reach beyond the largest
/// address.
pub fn gather_func_params(params: &Arguments, start_ndx: usize) -> (r: Result<
    Scope,
    CompilerError,
>)
    ensures
        params matches Arguments::Arguments { args, .. } && is_scope_of(
            r,
            param_names(args@, args@.len()),
            start_ndx as int,
        ),
{
    let mut scope_set = NameSet::new();
    let args = match params {
        Arguments::Arguments { args, .. } => args,
    };
    let mut i: usize = 0;
    while i < args.len()
        invariant
            i <= args.len(),
            scope_set.wf(),
            scope_set@ == distinct_names(param_names(args@, i as nat)),
        decreases args.len() - i,
    {
        let arg_name = match &args[i] {
            Arg::Arg { arg, .. } => arg,
        };
        scope_set.insert(arg_name.clone());
        proof {
            lemma_extend_names_push(Seq::empty(), param_names(args@, i as nat), arg_name@);
        }
        i += 1;
    }
    number_names(&scope_set, start_ndx, Ghost(param_names(args@, args@.len())))
}

/// Gathers the names that the targets of the clauses of a comprehension
/// bind, and numbers them from `start_ndx` on in the order in which they are
/// first met.
///
/// Fails on a list target, and else with an overflow where the slots would
/// reach beyond the largest address.
pub fn gather_comp_targets(generators: &Vec<Comprehension>, start_ndx: usize) -> (r: Result<
    Scope,
    CompilerError,
>)
    ensures
        if comp_supported(generators@, generators@.len()) {
            is_scope_of(r, comp_names(generators@, generators@.len()), start_ndx as int)
        } else {
            r matches Err(e) && e@ == CompilerErrorView::Unsupported(Construct::ListTarget)
        },
{
    let mut scope_set = NameSet::new();
    let mut i: usize = 0;
    while i < generators.len()
        invariant
            i <= generators.len(),
            scope_set.wf(),
            comp_supported(generators@, i as nat),
            scope_set@ == distinct_names(comp_names(generators@, i as nat)),
        decreases generators.len() - i,
    {
        let target = match &generators[i] {
            Comprehension::Comprehension { target, .. } => target,
        };
        let step = unpack_assign_targets(&mut scope_set, target);
        proof {
            if step is Err {
                if comp_supported(generators@, generators@.len()) {
                    lemma_comp_supported_at(generators@, generators@.len(), i as int);
                }
            } else {
                lemma_extend_names_concat(
                    Seq::empty(),
                    comp_names(generators@, i as nat),
                    target_names(*target),
                );
            }
        }
        step?;
        i += 1;
    }
    number_names(&scope_set, start_ndx, Ghost(comp_names(generators@, generators@.len())))
}

/// Numbers the names of `scope_set`, the distinct names of `names`, from
/// `start_ndx` on, in their order.
fn number_names(scope_set: &NameSet, start_ndx: usize, Ghost(names): Ghost<Seq<Seq<char>>>) -> (r:
    Result<Scope, CompilerError>)
    requires
        scope_set.wf(),
        scope_set@ == distinct_names(names),
    ensures
        is_scope_of(r, names, start_ndx as int),
{
    let end_ndx = match start_ndx.checked_add(scope_set.len()) {
        Some(end_ndx) => end_ndx,
        None => {
            return Err(CompilerError::ScopeOverflow);
        },
    };
    let mut scope_map = StringHashMap::new();
    let mut ndx: usize = start_ndx;
    while ndx < end_ndx
        invariant
            start_ndx <= ndx <= end_ndx,
            end_ndx == start_ndx + scope_set@.len(),
            scope_map@ == slots(scope_set@, (ndx - start_ndx) as nat, start_ndx as int),
        decreases end_ndx - ndx,
    {
        scope_map.insert(scope_set.get(ndx - start_ndx).clone(), ndx);
        ndx += 1;
    }
    proof {
        lemma_scope_map_numbers(names, start_ndx as int);
    }
    Ok(scope_map)
}

/// Looks `id` up in a stack of scopes, the outermost first: the innermost
/// scope that binds it shadows the others. Gives the depth of that scope in
/// the stack and the slot of `id` in it.
///
/// Fails with a name error if no scope binds `id`.
#[verifier::loop_isolation(false)]
pub fn lookup_value(scope: &Vec<Scope>, id: &str) -> (r: Result<(usize, usize), CompilerError>)
    ensures
        match r {
            Ok(found) => resolve(stack_view(scope@), id@) == Some(found),
            Err(e) => resolve(stack_view(scope@), id@) is None && e@
                == CompilerErrorView::NameError(id@),
        },
        match r {
            Ok((depth, slot)) => {
                &&& depth < scope@.len()
                &&& scope@[depth as int]@.contains_key(id@)
                &&& slot == scope@[depth as int]@[id@]
                &&& forall|d: int|
                    depth < d < scope@.len() ==> !(#[trigger] scope@[d])@.contains_key(id@)
            },
            Err(_) => forall|d: int|
                0 <= d < scope@.len() ==> !(#[trigger] scope@[d])@.contains_key(id@),
        },
{
    let ghost scopes = stack_view(scope@);
    let mut ndx: usize = scope.len();
    proof {
        lemma_innermost(scopes, scopes.len(), id@);
        assert forall|d: int| 0 <= d < scope@.len() implies (#[trigger] scope@[d])@
            == scopes[d] by {}
    }
    while ndx > 0
        invariant
            ndx <= scope@.len(),
            scopes == stack_view(scope@),
            resolve(scopes, id@) == innermost(scopes, ndx as nat, id@),
        decreases ndx,
    {
        ndx -= 1;
        let tbl = &scope[ndx];
        if let Some(offset) = tbl.get(id) {
            return Ok((ndx, *offset));
        }
    }
    Err(CompilerError::NameError(String::from_str(id)))
}

/// The operand for the numeric literal `n`: the literal itself, as an
/// immediate. Nothing is emitted.
pub fn gen_imm_num(cfg: &mut CFG, cur_block: usize, n: &Number) -> (operand: Operand)
    ensures
        *final(cfg) == *old(cfg),
        operand@ == OperandView::Immediate(n@),
{
    Operand::Immediate(n.clone())
}

/// Emits into block `cur_block` the binary operation `op` on the operands
/// `lft_oper` and `rht_oper`, and returns the new register that receives
/// the result.
pub fn gen_bin_inst(
    cfg: &mut CFG,
    cur_block: usize,
    op: &Operator,
    lft_oper: Operand,
    rht_oper: Operand,
) -> (operand: Operand)
    requires
        old(cfg).wf(),
        cur_block < old(cfg)@.blocks.len(),
    ensures
        final(cfg).wf(),
        operand@ == OperandView::Register(old(cfg)@.registers.len() as usize),
        final(cfg)@ == old(cfg)@.emit(
            cur_block,
            seq![
                InstructionView::BinOp {
                    dest: old(cfg)@.registers.len() as usize,
                    op: *op,
                    left: lft_oper@,
                    right: rht_oper@,
                },
            ],
        ),
{
    let dest = cfg.new_register(cur_block);
    let inst = Instruction::BinOp(
        BinOpStruct { dest, op: *op, left: lft_oper, right: rht_oper },
    );
    cfg.add_inst(cur_block, inst);
    proof {
        assert(cfg@ =~~= old(cfg)@.emit(cur_block, seq![inst@]));
    }
    Operand::Register(dest)
}

/// Whether `name` is the name of a class initialiser.
fn is_init_name(name: &String) -> (found: bool)
    ensures
        found == (name@ == init_name()),
{
    let init = String::from_str("__init__");
    *name == init
}

/// Recursively identifies the statements that modify a single level of
/// scope, and adds the names they bind to `scope`.
///
/// Fails on the first construct that cannot be handled: a list target or an
/// `import from`.
pub fn rec_gather_scope(scope: &mut NameSet, stmts: &Vec<Statement>, is_class: bool) -> (r: Result<
    (),
    CompilerError,
>)
    requires
        old(scope).wf(),
    ensures
        final(scope).wf(),
        reports(r, stmts_unsupported(stmts@, stmts@.len(), is_class)),
        r is Ok ==> final(scope)@ == extend_names(
            old(scope)@,
            stmts_names(stmts@, stmts@.len(), is_class),
        ),
    decreases *stmts,
{
    let ghost before = scope@;
    let mut n: usize = 0;
    proof {
        lemma_extend_names_empty(before);
    }
    while n < stmts.len()
        invariant
            n <= stmts.len(),
            scope.wf(),
            stmts_unsupported(stmts@, n as nat, is_class) is None,
            scope@ == extend_names(before, stmts_names(stmts@, n as nat, is_class)),
        decreases stmts.len() - n,
    {
        let stmt = &stmts[n];
        let step = gather_stmt_scope(scope, stmt, is_class);
        proof {
            if step is Err {
                lemma_stmts_unsupported_stays(stmts@, (n + 1) as nat, stmts@.len(), is_class);
            } else {
                lemma_extend_names_concat(
                    before,
                    stmts_names(stmts@, n as nat, is_class),
                    stmt_names(stmts@[n as int], is_class),
                );
            }
        }
        step?;
        n += 1;
    }
    Ok(())
}

/// Adds to `scope` the names that the one statement `stmt` binds.
#[verifier::loop_isolation(false)]
fn gather_stmt_scope(scope: &mut NameSet, stmt: &Statement, is_class: bool) -> (r: Result<
    (),
    CompilerError,
>)
    requires
        old(scope).wf(),
    ensures
        final(scope).wf(),
        reports(r, stmt_unsupported(*stmt, is_class)),
        r is Ok ==> final(scope)@ == extend_names(old(scope)@, stmt_names(*stmt, is_class)),
    decreases *stmt,
{
    let ghost before = scope@;
    match stmt {
        Statement::FunctionDef { name, .. } => {
            scope.insert(name.clone());
            proof {
                lemma_extend_names_one(before, name@);
            }
            if is_class && is_init_name(name) {
                gather_class_init(scope, stmt)?;
                proof {
                    lemma_extend_names_concat(before, seq![name@], class_init_names(*stmt));
                }
            }
        },
        Statement::ClassDef { name, .. } => {
            scope.insert(name.clone());
            proof {
                lemma_extend_names_one(before, name@);
            }
        },
        Statement::Assign { targets, .. } => {
            let mut i: usize = 0;
            proof {
                lemma_extend_names_empty(before);
            }
            while i < targets.len()
                invariant
                    i <= targets.len(),
                    scope.wf(),
                    targets_supported(targets@, i as nat),
                    scope@ == extend_names(before, targets_names(targets@, i as nat)),
                decreases targets.len() - i,
            {
                let step = unpack_assign_targets(scope, &targets[i]);
                proof {
                    if step is Err {
                        if targets_supported(targets@, targets@.len()) {
                            lemma_targets_supported_at(targets@, targets@.len(), i as int);
                        }
                    } else {
                        lemma_extend_names_concat(
                            before,
                            targets_names(targets@, i as nat),
                            target_names(targets@[i as int]),
                        );
                    }
                }
                step?;
                i += 1;
            }
        },
        Statement::For { target, body, orelse, .. } => {
            unpack_assign_targets(scope, target)?;
            rec_gather_scope(scope, body, is_class)?;
            rec_gather_scope(scope, orelse, is_class)?;
            proof {
                let a = target_names(*target);
                let b = stmts_names(body@, body@.len(), is_class);
                let c = stmts_names(orelse@, orelse@.len(), is_class);
                lemma_extend_names_concat(before, a, b);
                lemma_extend_names_concat(before, a + b, c);
            }
        },
        Statement::While { body, orelse, .. } => {
            rec_gather_scope(scope, body, is_class)?;
            rec_gather_scope(scope, orelse, is_class)?;
            proof {
                lemma_extend_names_concat(
                    before,
                    stmts_names(body@, body@.len(), is_class),
                    stmts_names(orelse@, orelse@.len(), is_class),
                );
            }
        },
        Statement::If { body, orelse, .. } => {
            rec_gather_scope(scope, body, is_class)?;
            rec_gather_scope(scope, orelse, is_class)?;
            proof {
                lemma_extend_names_concat(
                    before,
                    stmts_names(body@, body@.len(), is_class),
                    stmts_names(orelse@, orelse@.len(), is_class),
                );
            }
        },
        Statement::Import { names } => {
            let mut i: usize = 0;
            proof {
                lemma_extend_names_empty(before);
            }
            while i < names.len()
                invariant
                    i <= names.len(),
                    scope.wf(),
                    scope@ == extend_names(before, alias_names(names@, i as nat)),
                decreases names.len() - i,
            {
                let bound = match &names[i] {
                    Alias::Alias { name, asname } => match asname {
                        Some(alias) => alias,
                        None => name,
                    },
                };
                scope.insert(bound.clone());
                proof {
                    lemma_extend_names_push(
                        before,
                        alias_names(names@, i as nat),
                        alias_name(names@[i as int]),
                    );
                }
                i += 1;
            }
        },
        Statement::ImportFrom { .. } => {
            return Err(CompilerError::Unsupported(Construct::ImportFrom));
        },
        _ => {
            proof {
                lemma_extend_names_empty(before);
            }
        },
    }
    Ok(())
}

/// Adds to `scope` the instance attributes that the initialiser `func`
/// declares: the attributes that its body assigns through its first
/// parameter. Adds nothing where `func` has no parameters.
pub fn gather_class_init(scope: &mut NameSet, func: &Statement) -> (r: Result<(), CompilerError>)
    requires
        old(scope).wf(),
        *func matches Statement::FunctionDef { name, .. } && name@ == init_name(),
    ensures
        final(scope).wf(),
        reports(r, class_init_unsupported(*func)),
        r is Ok ==> final(scope)@ == extend_names(old(scope)@, class_init_names(*func)),
{
    proof {
        lemma_extend_names_empty(scope@);
    }
    match func {
        Statement::FunctionDef { args, body, .. } => {
            match args {
                Arguments::Arguments { args, .. } => {
                    if args.len() > 0 {
                        match &args[0] {
                            Arg::Arg { arg, .. } => rec_gather_class_init(scope, body, arg),
                        }
                    } else {
                        // the method may not follow the usual shape
                        Ok(())
                    }
                },
            }
        },
        _ => Ok(()),
    }
}

/// Adds to `scope` the attributes of `self_alias` that `stmts` assign, loops
/// and conditionals included.
pub fn rec_gather_class_init(scope: &mut NameSet, stmts: &Vec<Statement>, self_alias: &String) -> (r:
    Result<(), CompilerError>)
    requires
        old(scope).wf(),
    ensures
        final(scope).wf(),
        reports(r, init_stmts_unsupported(stmts@, stmts@.len())),
        r is Ok ==> final(scope)@ == extend_names(
            old(scope)@,
            init_stmts_names(stmts@, stmts@.len(), self_alias@),
        ),
    decreases *stmts,
{
    let ghost before = scope@;
    let mut n: usize = 0;
    proof {
        lemma_extend_names_empty(before);
    }
    while n < stmts.len()
        invariant
            n <= stmts.len(),
            scope.wf(),
            init_stmts_unsupported(stmts@, n as nat) is None,
            scope@ == extend_names(before, init_stmts_names(stmts@, n as nat, self_alias@)),
        decreases stmts.len() - n,
    {
        let step = gather_stmt_class_init(scope, &stmts[n], self_alias);
        proof {
            if step is Err {
                lemma_init_stmts_unsupported_stays(stmts@, (n + 1) as nat, stmts@.len());
            } else {
                lemma_extend_names_concat(
                    before,
                    init_stmts_names(stmts@, n as nat, self_alias@),
                    init_stmt_names(stmts@[n as int], self_alias@),
                );
            }
        }
        step?;
        n += 1;
    }
    Ok(())
}

/// Adds to `scope` the attributes of `self_alias` that the one statement
/// `stmt` assigns.
#[verifier::loop_isolation(false)]
fn gather_stmt_class_init(scope: &mut NameSet, stmt: &Statement, self_alias: &String) -> (r: Result<
    (),
    CompilerError,
>)
    requires
        old(scope).wf(),
    ensures
        final(scope).wf(),
        reports(r, init_stmt_unsupported(*stmt)),
        r is Ok ==> final(scope)@ == extend_names(
            old(scope)@,
            init_stmt_names(*stmt, self_alias@),
        ),
    decreases *stmt,
{
    let ghost before = scope@;
    match stmt {
        Statement::Assign { targets, .. } => {
            let mut i: usize = 0;
            proof {
                lemma_extend_names_empty(before);
            }
            while i < targets.len()
                invariant
                    i <= targets.len(),
                    scope.wf(),
                    targets_supported(targets@, i as nat),
                    scope@ == extend_names(
                        before,
                        alias_targets_names(targets@, i as nat, self_alias@),
                    ),
                decreases targets.len() - i,
            {
                let step = unpack_assign_alias(scope, &targets[i], self_alias);
                proof {
                    if step is Err {
                        if targets_supported(targets@, targets@.len()) {
                            lemma_targets_supported_at(targets@, targets@.len(), i as int);
                        }
                    } else {
                        lemma_extend_names_concat(
                            before,
                            alias_targets_names(targets@, i as nat, self_alias@),
                            alias_target_names(targets@[i as int], self_alias@),
                        );
                    }
                }
                step?;
                i += 1;
            }
        },
        Statement::For { body, orelse, .. } => {
            rec_gather_class_init(scope, body, self_alias)?;
            rec_gather_class_init(scope, orelse, self_alias)?;
            proof {
                lemma_extend_names_concat(
                    before,
                    init_stmts_names(body@, body@.len(), self_alias@),
                    init_stmts_names(orelse@, orelse@.len(), self_alias@),
                );
            }
        },
        Statement::While { body, orelse, .. } => {
            rec_gather_class_init(scope, body, self_alias)?;
            rec_gather_class_init(scope, orelse, self_alias)?;
            proof {
                lemma_extend_names_concat(
                    before,
                    init_stmts_names(body@, body@.len(), self_alias@),
                    init_stmts_names(orelse@, orelse@.len(), self_alias@),
                );
            }
        },
        Statement::If { body, orelse, .. } => {
            rec_gather_class_init(scope, body, self_alias)?;
            rec_gather_class_init(scope, orelse, self_alias)?;
            proof {
                lemma_extend_names_concat(
                    before,
                    init_stmts_names(body@, body@.len(), self_alias@),
                    init_stmts_names(orelse@, orelse@.len(), self_alias@),
                );
            }
        },
        _ => {
            proof {
                lemma_extend_names_empty(before);
            }
        },
    }
    Ok(())
}

/// Adds to `scope` the names that the assignment target `target` binds: a
/// plain name binds itself, a tuple what its elements bind.
///
/// Fails on a list target, anywhere inside `target`.
#[verifier::loop_isolation(false)]
pub fn unpack_assign_targets(scope: &mut NameSet, target: &Expression) -> (r: Result<
    (),
    CompilerError,
>)
    requires
        old(scope).wf(),
    ensures
        final(scope).wf(),
        r is Ok <==> target_supported(*target),
        r is Ok ==> final(scope)@ == extend_names(old(scope)@, target_names(*target)),
        r matches Err(e) ==> e@ == CompilerErrorView::Unsupported(Construct::ListTarget),
    decreases *target,
{
    let ghost before = scope@;
    match target {
        Expression::Name { id, .. } => {
            scope.insert(id.clone());
            proof {
                lemma_extend_names_one(before, id@);
            }
        },
        Expression::List { .. } => {
            return Err(CompilerError::Unsupported(Construct::ListTarget));
        },
        Expression::Tuple { elts, .. } => {
            let mut i: usize = 0;
            proof {
                lemma_extend_names_empty(before);
            }
            while i < elts.len()
                invariant
                    i <= elts.len(),
                    scope.wf(),
                    targets_supported(elts@, i as nat),
                    scope@ == extend_names(before, targets_names(elts@, i as nat)),
                decreases elts.len() - i,
            {
                let step = unpack_assign_targets(scope, &elts[i]);
                proof {
                    if step is Err {
                        if targets_supported(elts@, elts@.len()) {
                            lemma_targets_supported_at(elts@, elts@.len(), i as int);
                        }
                    } else {
                        lemma_extend_names_concat(
                            before,
                            targets_names(elts@, i as nat),
                            target_names(elts@[i as int]),
                        );
                    }
                }
                step?;
                i += 1;
            }
        },
        _ => {
            proof {
                lemma_extend_names_empty(before);
            }
        },
    }
    Ok(())
}

/// Adds to `scope` the attributes of `alias` that the assignment target
/// `target` assigns: `alias.attr` gives `attr`, a tuple what its elements
/// give. It collects the `self.*` assignments of a class initialiser.
///
/// Fails on a list target, anywhere inside `target`.
#[verifier::loop_isolation(false)]
pub fn unpack_assign_alias(scope: &mut NameSet, target: &Expression, alias: &String) -> (r: Result<
    (),
    CompilerError,
>)
    requires
        old(scope).wf(),
    ensures
        final(scope).wf(),
        r is Ok <==> target_supported(*target),
        r is Ok ==> final(scope)@ == extend_names(
            old(scope)@,
            alias_target_names(*target, alias@),
        ),
        r matches Err(e) ==> e@ == CompilerErrorView::Unsupported(Construct::ListTarget),
    decreases *target,
{
    let ghost before = scope@;
    proof {
        lemma_extend_names_empty(before);
    }
    match target {
        Expression::Attribute { value, attr, .. } => {
            let name = match &**value {
                Expression::Name { id, .. } => id,
                _ => {
                    return Ok(());
                },
            };
            if *name == *alias {
                scope.insert(attr.clone());
                proof {
                    lemma_extend_names_one(before, attr@);
                }
            }
        },
        Expression::List { .. } => {
            return Err(CompilerError::Unsupported(Construct::ListTarget));
        },
        Expression::Tuple { elts, .. } => {
            let mut i: usize = 0;
            while i < elts.len()
                invariant
                    i <= elts.len(),
                    scope.wf(),
                    targets_supported(elts@, i as nat),
                    scope@ == extend_names(before, alias_targets_names(elts@, i as nat, alias@)),
                decreases elts.len() - i,
            {
                let step = unpack_assign_alias(scope, &elts[i], alias);
                proof {
                    if step is Err {
                        if targets_supported(elts@, elts@.len()) {
                            lemma_targets_supported_at(elts@, elts@.len(), i as int);
                        }
                    } else {
                        lemma_extend_names_concat(
                            before,
                            alias_targets_names(elts@, i as nat, alias@),
                            alias_target_names(elts@[i as int], alias@),
                        );
                    }
                }
                step?;
                i += 1;
            }
        },
        _ => {},
    }
    Ok(())
}

} // verus!
