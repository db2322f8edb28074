//! The evaluator: a recursive tree walk over the AST against an arena
//! of environments, producing an [`Object`].
//!
//! The executable functions are proved equal to a spec-level evaluator
//! ([`eval_program_spec`] and its helpers): pure functions from the
//! node's view, the arena's view, the current scope handle and a
//! recursion budget to the result and the new arena. Interpreted
//! programs can recurse without bound, so the budget is real: when it
//! runs out, evaluation yields an error object, the language's one
//! error channel.
//!
//! Errors are data, not host faults: every composite rule checks each
//! sub-result and returns an error object unchanged the moment one
//! appears. A `return` wraps its value in a `ReturnValue` that blocks
//! pass outward unchanged and that a function call boundary, or the
//! program's top level, unwraps.

use vstd::prelude::*;
use vstd::string::StringExecFns;
use crate::ast::BlockStatement;
use crate::ast::ExprV;
use crate::ast::Expression;
use crate::ast::Identifier;
use crate::ast::IfExpression;
use crate::ast::stmts_view;
use crate::ast::Program;
use crate::ast::Statement;
use crate::ast::StmtV;
use crate::environment::Environment;
use crate::environment::ScopeV;
use crate::environment::arena_view;
use crate::environment::arena_wf;
use crate::environment::env_lookup;
use crate::environment::new_enclosed_environment;
use crate::environment::obj_wf;
use crate::object::ObjV;
use crate::object::Object;
use crate::object::ObjectType;
use crate::object::obj_type_name;
use crate::object::obj_type_of;
use crate::strutil::dec_nat;

verus! {

/// What evaluation of one node yields: the result, if any, and the
/// arena afterwards (a `let` adds a binding; a call adds a scope).
pub struct EvalOut {
    pub r: Option<ObjV>,
    pub envs: Seq<ScopeV>,
}

/// What evaluating an argument list yields: the values in order, or a
/// single error value when one argument failed.
pub struct ExprsOut {
    pub vals: Seq<Option<ObjV>>,
    pub envs: Seq<ScopeV>,
}

/// The message of the error produced when the recursion budget runs
/// out.
pub open spec fn eval_depth_msg() -> Seq<char> {
    "evaluation is nested too deeply"@
}

/// The error object produced when the recursion budget runs out.
pub open spec fn out_of_budget() -> ObjV {
    ObjV::Error { message: eval_depth_msg() }
}

pub open spec fn is_err(o: ObjV) -> bool {
    o is Error
}

pub open spec fn opt_obj_wf(r: Option<ObjV>, len: int) -> bool {
    match r {
        Some(o) => obj_wf(o, len),
        None => true,
    }
}

/// Truthiness: `false` and null are falsy, nothing is falsy, and every
/// other value (zero included) is truthy.
pub open spec fn truthy(o: Option<ObjV>) -> bool {
    match o {
        None => false,
        Some(v) => match v {
            ObjV::Null => false,
            ObjV::Bool { value } => value,
            _ => true,
        },
    }
}

pub open spec fn identifier_not_found_msg(name: Seq<char>) -> Seq<char> {
    "identifier not found: "@ + name
}

pub open spec fn unknown_prefix_msg(op: Seq<char>, t: ObjectType) -> Seq<char> {
    "unknown operator: "@ + op + obj_type_name(t)
}

pub open spec fn type_mismatch_msg(l: ObjectType, op: Seq<char>, r: ObjectType) -> Seq<char> {
    "type mismatch: "@ + obj_type_name(l) + " "@ + op + " "@ + obj_type_name(r)
}

pub open spec fn unknown_infix_msg(l: ObjectType, op: Seq<char>, r: ObjectType) -> Seq<char> {
    "unknown operator: "@ + obj_type_name(l) + " "@ + op + " "@ + obj_type_name(r)
}

pub open spec fn not_a_function_msg(t: ObjectType) -> Seq<char> {
    "not a function: "@ + obj_type_name(t)
}

pub open spec fn division_by_zero_msg() -> Seq<char> {
    "division by zero"@
}

pub open spec fn arity_msg(want: nat, got: nat) -> Seq<char> {
    "wrong number of arguments: expected "@ + dec_nat(want) + ", got "@ + dec_nat(got)
}

/// The `!` rule: the negation of truthiness, except that only booleans
/// and null have a defined negation; everything else maps to `false`.
pub open spec fn bang_of(r: ObjV) -> ObjV {
    match r {
        ObjV::Bool { value } => ObjV::Bool { value: !value },
        ObjV::Null => ObjV::Bool { value: true },
        _ => ObjV::Bool { value: false },
    }
}

/// The unary `-` rule: integers negate (wrapping at the 64-bit
/// boundary); anything else is an error.
pub open spec fn minus_of(r: ObjV) -> ObjV {
    match r {
        ObjV::Int { value } => ObjV::Int { value: vstd::wrapping::i64_specs::wrapping_sub(0, value) },
        _ => ObjV::Error { message: unknown_prefix_msg("-"@, obj_type_of(r)) },
    }
}

/// What a prefix operator yields on an already-evaluated operand.
pub open spec fn eval_prefix_spec(op: Seq<char>, r: ObjV) -> ObjV {
    if op == "!"@ {
        bang_of(r)
    } else if op == "-"@ {
        minus_of(r)
    } else {
        ObjV::Error { message: unknown_prefix_msg(op, obj_type_of(r)) }
    }
}

pub open spec fn abs_int(a: int) -> int {
    if a < 0 {
        -a
    } else {
        a
    }
}

/// 64-bit signed division, truncating toward zero; the one overflowing
/// quotient wraps to the minimum value, as the wrapping operations do.
/// The divisor is not zero.
pub open spec fn div_i64(a: i64, b: i64) -> i64 {
    if a == i64::MIN && b == -1 {
        i64::MIN
    } else if (a < 0) == (b < 0) {
        (abs_int(a as int) / abs_int(b as int)) as i64
    } else {
        (-(abs_int(a as int) / abs_int(b as int))) as i64
    }
}

/// Integer infix rules: wrapping 64-bit arithmetic, truncating
/// division (division by zero is an error object), and the four
/// comparisons.
pub open spec fn int_infix_spec(op: Seq<char>, a: i64, b: i64) -> ObjV {
    if op == "+"@ {
        ObjV::Int { value: vstd::wrapping::i64_specs::wrapping_add(a, b) }
    } else if op == "-"@ {
        ObjV::Int { value: vstd::wrapping::i64_specs::wrapping_sub(a, b) }
    } else if op == "*"@ {
        ObjV::Int { value: vstd::wrapping::i64_specs::wrapping_mul(a, b) }
    } else if op == "/"@ {
        if b == 0 {
            ObjV::Error { message: division_by_zero_msg() }
        } else {
            ObjV::Int { value: div_i64(a, b) }
        }
    } else if op == "<"@ {
        ObjV::Bool { value: a < b }
    } else if op == ">"@ {
        ObjV::Bool { value: a > b }
    } else if op == "=="@ {
        ObjV::Bool { value: a == b }
    } else if op == "!="@ {
        ObjV::Bool { value: a != b }
    } else {
        ObjV::Error {
            message: unknown_infix_msg(ObjectType::IntegerObj, op, ObjectType::IntegerObj),
        }
    }
}

/// Boolean infix rules: only equality and inequality are defined.
pub open spec fn bool_infix_spec(op: Seq<char>, a: bool, b: bool) -> ObjV {
    if op == "=="@ {
        ObjV::Bool { value: a == b }
    } else if op == "!="@ {
        ObjV::Bool { value: a != b }
    } else {
        ObjV::Error {
            message: unknown_infix_msg(ObjectType::BooleanObj, op, ObjectType::BooleanObj),
        }
    }
}

/// What an infix operator yields on two already-evaluated operands:
/// integer rules, boolean rules, a type-mismatch error when the
/// operand types differ, and an unknown-operator error otherwise.
pub open spec fn eval_infix_spec(op: Seq<char>, l: ObjV, r: ObjV) -> ObjV {
    if l is Int && r is Int {
        int_infix_spec(op, l->Int_value, r->Int_value)
    } else if l is Bool && r is Bool {
        bool_infix_spec(op, l->Bool_value, r->Bool_value)
    } else if obj_type_of(l) != obj_type_of(r) {
        ObjV::Error { message: type_mismatch_msg(obj_type_of(l), op, obj_type_of(r)) }
    } else {
        ObjV::Error { message: unknown_infix_msg(obj_type_of(l), op, obj_type_of(r)) }
    }
}

/// The arena after binding `name` to `v` in the scope with handle `h`.
pub open spec fn set_binding(envs: Seq<ScopeV>, h: int, name: Seq<char>, v: ObjV) -> Seq<ScopeV> {
    if 0 <= h < envs.len() {
        envs.update(
            h,
            ScopeV { bindings: envs[h].bindings.insert(name, v), outer: envs[h].outer },
        )
    } else {
        envs
    }
}

/// A missing argument value is bound as null.
pub open spec fn arg_or_null(a: Option<ObjV>) -> ObjV {
    match a {
        Some(v) => v,
        None => ObjV::Null,
    }
}

pub open spec fn arg_at(args: Seq<Option<ObjV>>, i: int) -> Option<ObjV> {
    if 0 <= i < args.len() {
        args[i]
    } else {
        None
    }
}

/// The bindings of a fresh call scope: the first `k` parameters bound
/// to their arguments in order, a later duplicate name winning.
pub open spec fn bind_params(params: Seq<Seq<char>>, args: Seq<Option<ObjV>>, k: int) -> Map<
    Seq<char>,
    ObjV,
>
    decreases k,
{
    if k <= 0 || k > params.len() {
        Map::empty()
    } else {
        bind_params(params, args, k - 1).insert(params[k - 1], arg_or_null(arg_at(args, k - 1)))
    }
}

/// Evaluates the statements of a program from index `i` on: the result
/// is the last statement's result, except that a return value stops
/// the program and is unwrapped, and an error stops it unchanged.
pub open spec fn eval_program_spec(
    stmts: Seq<StmtV>,
    i: int,
    envs: Seq<ScopeV>,
    env: int,
    fuel: nat,
) -> EvalOut
    decreases fuel,
{
    if fuel == 0 {
        EvalOut { r: Some(out_of_budget()), envs }
    } else if !(0 <= i < stmts.len()) {
        EvalOut { r: None, envs }
    } else {
        let o = eval_stmt_spec(stmts[i], envs, env, (fuel - 1) as nat);
        match o.r {
            Some(v) => if v is Return {
                EvalOut { r: Some(*v->Return_value), envs: o.envs }
            } else if v is Error {
                o
            } else if i + 1 < stmts.len() {
                eval_program_spec(stmts, i + 1, o.envs, env, (fuel - 1) as nat)
            } else {
                o
            },
            None => if i + 1 < stmts.len() {
                eval_program_spec(stmts, i + 1, o.envs, env, (fuel - 1) as nat)
            } else {
                o
            },
        }
    }
}

/// Evaluates the statements of a block from index `i` on: like a
/// program, except that a return value stops the block and passes
/// outward still wrapped, so it escapes nested blocks untouched.
pub open spec fn eval_block_spec(
    stmts: Seq<StmtV>,
    i: int,
    envs: Seq<ScopeV>,
    env: int,
    fuel: nat,
) -> EvalOut
    decreases fuel,
{
    if fuel == 0 {
        EvalOut { r: Some(out_of_budget()), envs }
    } else if !(0 <= i < stmts.len()) {
        EvalOut { r: None, envs }
    } else {
        let o = eval_stmt_spec(stmts[i], envs, env, (fuel - 1) as nat);
        match o.r {
            Some(v) => if v is Return || v is Error {
                o
            } else if i + 1 < stmts.len() {
                eval_block_spec(stmts, i + 1, o.envs, env, (fuel - 1) as nat)
            } else {
                o
            },
            None => if i + 1 < stmts.len() {
                eval_block_spec(stmts, i + 1, o.envs, env, (fuel - 1) as nat)
            } else {
                o
            },
        }
    }
}

/// Evaluates one statement.
pub open spec fn eval_stmt_spec(s: StmtV, envs: Seq<ScopeV>, env: int, fuel: nat) -> EvalOut
    decreases fuel,
{
    if fuel == 0 {
        EvalOut { r: Some(out_of_budget()), envs }
    } else {
        match s {
            StmtV::Expr { value } => eval_expr_spec(value, envs, env, (fuel - 1) as nat),
            StmtV::Block { stmts } => eval_block_spec(stmts, 0, envs, env, (fuel - 1) as nat),
            StmtV::Ret { value } => {
                let o = eval_expr_spec(value, envs, env, (fuel - 1) as nat);
                match o.r {
                    Some(v) => if is_err(v) {
                        o
                    } else {
                        EvalOut { r: Some(ObjV::Return { value: Box::new(v) }), envs: o.envs }
                    },
                    None => EvalOut { r: None, envs: o.envs },
                }
            },
            StmtV::Let { name, value } => {
                let o = eval_expr_spec(value, envs, env, (fuel - 1) as nat);
                match o.r {
                    Some(v) => if is_err(v) {
                        o
                    } else {
                        EvalOut { r: None, envs: set_binding(o.envs, env, name, v) }
                    },
                    None => EvalOut { r: None, envs: o.envs },
                }
            },
        }
    }
}

/// Evaluates one expression.
pub open spec fn eval_expr_spec(e: ExprV, envs: Seq<ScopeV>, env: int, fuel: nat) -> EvalOut
    decreases fuel,
{
    if fuel == 0 {
        EvalOut { r: Some(out_of_budget()), envs }
    } else {
        match e {
            ExprV::IntLit { lit, value } => EvalOut { r: Some(ObjV::Int { value }), envs },
            ExprV::BoolLit { value } => EvalOut { r: Some(ObjV::Bool { value }), envs },
            ExprV::Ident { name } => match env_lookup(envs, env, name) {
                Some(v) => EvalOut { r: Some(v), envs },
                None => EvalOut {
                    r: Some(ObjV::Error { message: identifier_not_found_msg(name) }),
                    envs,
                },
            },
            ExprV::Prefix { op, right } => {
                let o = eval_expr_spec(*right, envs, env, (fuel - 1) as nat);
                match o.r {
                    Some(v) => if is_err(v) {
                        o
                    } else {
                        EvalOut { r: Some(eval_prefix_spec(op, v)), envs: o.envs }
                    },
                    None => EvalOut { r: None, envs: o.envs },
                }
            },
            ExprV::Infix { left, op, right } => {
                let lo = eval_expr_spec(*left, envs, env, (fuel - 1) as nat);
                match lo.r {
                    Some(lv) => if is_err(lv) {
                        lo
                    } else {
                        let ro = eval_expr_spec(*right, lo.envs, env, (fuel - 1) as nat);
                        match ro.r {
                            Some(rv) => if is_err(rv) {
                                ro
                            } else {
                                EvalOut { r: Some(eval_infix_spec(op, lv, rv)), envs: ro.envs }
                            },
                            None => EvalOut { r: None, envs: ro.envs },
                        }
                    },
                    None => EvalOut { r: None, envs: lo.envs },
                }
            },
            ExprV::If { cond, cons, alt } => {
                let co = eval_expr_spec(*cond, envs, env, (fuel - 1) as nat);
                if co.r is Some && is_err(co.r->0) {
                    co
                } else if truthy(co.r) {
                    eval_block_spec(cons, 0, co.envs, env, (fuel - 1) as nat)
                } else {
                    match alt {
                        Some(a) => eval_block_spec(a, 0, co.envs, env, (fuel - 1) as nat),
                        None => EvalOut { r: Some(ObjV::Null), envs: co.envs },
                    }
                }
            },
            ExprV::Func { params, body } => EvalOut {
                r: Some(ObjV::Func { params, body, env }),
                envs,
            },
            ExprV::Call { func, args } => {
                let fo = eval_expr_spec(*func, envs, env, (fuel - 1) as nat);
                match fo.r {
                    Some(fv) => if is_err(fv) {
                        fo
                    } else {
                        let ao = eval_exprs_spec(args, 0, fo.envs, env, (fuel - 1) as nat);
                        if ao.vals.len() == 1 && ao.vals[0] is Some && is_err(ao.vals[0]->0) {
                            EvalOut { r: ao.vals[0], envs: ao.envs }
                        } else {
                            apply_function_spec(fv, ao.vals, ao.envs, (fuel - 1) as nat)
                        }
                    },
                    None => EvalOut { r: None, envs: fo.envs },
                }
            },
        }
    }
}

/// Evaluates an argument list left to right from index `i` on,
/// stopping at the first error, which becomes the only value.
pub open spec fn eval_exprs_spec(
    es: Seq<ExprV>,
    i: int,
    envs: Seq<ScopeV>,
    env: int,
    fuel: nat,
) -> ExprsOut
    decreases fuel,
{
    if fuel == 0 {
        ExprsOut { vals: seq![Some(out_of_budget())], envs }
    } else if !(0 <= i < es.len()) {
        ExprsOut { vals: Seq::empty(), envs }
    } else {
        let o = eval_expr_spec(es[i], envs, env, (fuel - 1) as nat);
        if o.r is Some && is_err(o.r->0) {
            ExprsOut { vals: seq![o.r], envs: o.envs }
        } else {
            let rest = eval_exprs_spec(es, i + 1, o.envs, env, (fuel - 1) as nat);
            if rest.vals.len() == 1 && rest.vals[0] is Some && is_err(rest.vals[0]->0) {
                rest
            } else {
                ExprsOut { vals: seq![o.r] + rest.vals, envs: rest.envs }
            }
        }
    }
}

/// Applies a function value: the callee must be a function with as
/// many parameters as there are arguments; a fresh scope whose parent
/// is the function's captured scope (never the caller's) is pushed and
/// the body runs there; a return value is unwrapped at this boundary.
pub open spec fn apply_function_spec(
    f: ObjV,
    args: Seq<Option<ObjV>>,
    envs: Seq<ScopeV>,
    fuel: nat,
) -> EvalOut
    decreases fuel,
{
    if fuel == 0 {
        EvalOut { r: Some(out_of_budget()), envs }
    } else {
        match f {
            ObjV::Func { params, body, env } => {
                if params.len() != args.len() {
                    EvalOut {
                        r: Some(ObjV::Error { message: arity_msg(params.len(), args.len()) }),
                        envs,
                    }
                } else {
                    let scope = ScopeV {
                        bindings: bind_params(params, args, params.len() as int),
                        outer: Some(env),
                    };
                    let h = envs.len() as int;
                    let o = eval_block_spec(body, 0, envs.push(scope), h, (fuel - 1) as nat);
                    match o.r {
                        Some(v) => if v is Return {
                            EvalOut { r: Some(*v->Return_value), envs: o.envs }
                        } else {
                            o
                        },
                        None => o,
                    }
                }
            },
            _ => EvalOut {
                r: Some(ObjV::Error { message: not_a_function_msg(obj_type_of(f)) }),
                envs,
            },
        }
    }
}

} // verus!
verus! {

/// The value views of an evaluated argument list.
pub open spec fn opt_objs_view(s: Seq<Option<Object>>) -> Seq<Option<ObjV>> {
    s.map(|i: int, a: Option<Object>| crate::environment::opt_obj_view(a))
}

/// The bindings of a fresh call scope are well formed when every
/// argument is.
pub proof fn lemma_bind_params_wf(
    params: Seq<Seq<char>>,
    args: Seq<Option<ObjV>>,
    k: int,
    len: int,
)
    requires
        forall|i: int| 0 <= i < args.len() ==> opt_obj_wf(#[trigger] args[i], len),
    ensures
        forall|name: Seq<char>| #[trigger] bind_params(params, args, k).contains_key(name)
            ==> obj_wf(bind_params(params, args, k)[name], len),
    decreases k,
{
    if 0 < k <= params.len() {
        lemma_bind_params_wf(params, args, k - 1, len);
        let m = bind_params(params, args, k);
        assert forall|name: Seq<char>| #[trigger] m.contains_key(name) implies obj_wf(
            m[name],
            len,
        ) by {
            if name == params[k - 1] {
                if 0 <= k - 1 < args.len() {
                    assert(opt_obj_wf(args[k - 1], len));
                }
            } else {
                assert(bind_params(params, args, k - 1).contains_key(name));
            }
        }
    }
}

/// Rebinding a name to a well-formed value keeps the arena well
/// formed.
pub proof fn lemma_arena_wf_set(envs: Seq<ScopeV>, h: int, name: Seq<char>, v: ObjV)
    requires
        arena_wf(envs),
        0 <= h < envs.len(),
        obj_wf(v, envs.len() as int),
    ensures
        arena_wf(set_binding(envs, h, name, v)),
{
    let after = set_binding(envs, h, name, v);
    assert forall|i: int| 0 <= i < after.len() implies crate::environment::scope_wf(
        #[trigger] after[i],
        i,
        after.len() as int,
    ) by {
        assert(crate::environment::scope_wf(envs[i], i, envs.len() as int));
        if i == h {
            assert forall|k: Seq<char>| #[trigger] after[i].bindings.contains_key(k) implies obj_wf(
                after[i].bindings[k],
                after.len() as int,
            ) by {
                if k != name {
                    assert(envs[i].bindings.contains_key(k));
                }
            }
        }
    }
}

fn is_error(node: &Object) -> (r: bool)
    ensures
        r == is_err(node@),
{
    match node {
        Object::Error(_) => true,
        _ => false,
    }
}

fn native_bool_to_boolean_object(val: bool) -> (r: Option<Object>)
    ensures
        crate::environment::opt_obj_view(r) == Some(ObjV::Bool { value: val }),
{
    if val {
        Some(Object::Boolean(crate::object::Boolean { value: true }))
    } else {
        Some(Object::Boolean(crate::object::Boolean { value: false }))
    }
}

fn new_error(message: String) -> (r: Object)
    ensures
        r@ == (ObjV::Error { message: message@ }),
{
    Object::Error(crate::object::Error { message })
}

fn out_of_budget_error() -> (r: Object)
    ensures
        r@ == out_of_budget(),
{
    new_error(String::from_str("evaluation is nested too deeply"))
}

fn is_truthy(obj: &Option<Object>) -> (r: bool)
    ensures
        r == truthy(crate::environment::opt_obj_view(*obj)),
{
    match obj {
        Some(v) => match v {
            Object::Null(_) => false,
            Object::Boolean(b) => b.value,
            _ => true,
        },
        None => false,
    }
}

fn eval_bang_operator_expression(right: Object) -> (r: Option<Object>)
    ensures
        crate::environment::opt_obj_view(r) == Some(bang_of(right@)),
{
    match right {
        Object::Boolean(t) => native_bool_to_boolean_object(!t.value),
        Object::Null(_) => native_bool_to_boolean_object(true),
        _ => native_bool_to_boolean_object(false),
    }
}

fn eval_minus_prefix_operator_expression(right: Object) -> (r: Option<Object>)
    ensures
        crate::environment::opt_obj_view(r) == Some(minus_of(right@)),
{
    match right {
        Object::Integer(i) => Some(
            Object::Integer(crate::object::Integer { value: (0i64).wrapping_sub(i.value) }),
        ),
        other => {
            let mut msg = String::from_str("unknown operator: ");
            msg.append("-");
            let tn = other.get_type().name();
            msg.append(tn.as_str());
            Some(new_error(msg))
        },
    }
}

fn eval_prefix_expression(operator: &String, right: Object) -> (r: Option<Object>)
    ensures
        crate::environment::opt_obj_view(r) == Some(eval_prefix_spec(operator@, right@)),
{
    if *operator == String::from_str("!") {
        eval_bang_operator_expression(right)
    } else if *operator == String::from_str("-") {
        eval_minus_prefix_operator_expression(right)
    } else {
        let mut msg = String::from_str("unknown operator: ");
        msg.append(operator.as_str());
        let tn = right.get_type().name();
        msg.append(tn.as_str());
        Some(new_error(msg))
    }
}

fn eval_integer_infix_expression(operator: &String, left_val: i64, right_val: i64) -> (r: Option<
    Object,
>)
    ensures
        crate::environment::opt_obj_view(r) == Some(int_infix_spec(operator@, left_val, right_val)),
{
    if *operator == String::from_str("+") {
        Some(Object::Integer(crate::object::Integer { value: left_val.wrapping_add(right_val) }))
    } else if *operator == String::from_str("-") {
        Some(Object::Integer(crate::object::Integer { value: left_val.wrapping_sub(right_val) }))
    } else if *operator == String::from_str("*") {
        Some(Object::Integer(crate::object::Integer { value: left_val.wrapping_mul(right_val) }))
    } else if *operator == String::from_str("/") {
        if right_val == 0 {
            Some(new_error(String::from_str("division by zero")))
        } else {
            Some(Object::Integer(crate::object::Integer { value: div_trunc(left_val, right_val) }))
        }
    } else if *operator == String::from_str("<") {
        native_bool_to_boolean_object(left_val < right_val)
    } else if *operator == String::from_str(">") {
        native_bool_to_boolean_object(left_val > right_val)
    } else if *operator == String::from_str("==") {
        native_bool_to_boolean_object(left_val == right_val)
    } else if *operator == String::from_str("!=") {
        native_bool_to_boolean_object(left_val != right_val)
    } else {
        Some(new_error(unknown_infix_error(ObjectType::IntegerObj, operator, ObjectType::IntegerObj)))
    }
}

/// Truncating 64-bit signed division; the divisor is not zero, and the
/// one overflowing quotient wraps to the minimum value.
fn div_trunc(a: i64, b: i64) -> (q: i64)
    requires
        b != 0,
    ensures
        q == div_i64(a, b),
{
    if a == i64::MIN && b == -1 {
        i64::MIN
    } else {
        let neg = (a < 0) != (b < 0);
        let la: u64 = if a < 0 {
            (-(a as i128)) as u64
        } else {
            a as u64
        };
        let lb: u64 = if b < 0 {
            (-(b as i128)) as u64
        } else {
            b as u64
        };
        let q: u64 = la / lb;
        proof {
            assert(la as int == abs_int(a as int));
            assert(lb as int == abs_int(b as int));
            vstd::arithmetic::div_mod::lemma_div_is_ordered_by_denominator(la as int, 1, lb as int);
            vstd::arithmetic::div_mod::lemma_div_basics(la as int);
            if la == 9_223_372_036_854_775_808u64 && !neg {
                assert(b <= -2);
                assert(lb >= 2);
                vstd::arithmetic::div_mod::lemma_div_is_ordered_by_denominator(
                    la as int,
                    2,
                    lb as int,
                );
                assert((la as int) / 2 == 0x4000_0000_0000_0000int);
            }
        }
        if neg {
            if q == 9_223_372_036_854_775_808u64 {
                i64::MIN
            } else {
                0i64.wrapping_sub(q as i64)
            }
        } else {
            q as i64
        }
    }
}

fn unknown_infix_error(lt: ObjectType, operator: &String, rt: ObjectType) -> (s: String)
    ensures
        s@ == unknown_infix_msg(lt, operator@, rt),
{
    let mut msg = String::from_str("unknown operator: ");
    let ln = lt.name();
    msg.append(ln.as_str());
    msg.append(" ");
    msg.append(operator.as_str());
    msg.append(" ");
    let rn = rt.name();
    msg.append(rn.as_str());
    msg
}

fn eval_boolean_infix_expression(operator: &String, left_val: bool, right_val: bool) -> (r: Option<
    Object,
>)
    ensures
        crate::environment::opt_obj_view(r) == Some(
            bool_infix_spec(operator@, left_val, right_val),
        ),
{
    if *operator == String::from_str("==") {
        native_bool_to_boolean_object(left_val == right_val)
    } else if *operator == String::from_str("!=") {
        native_bool_to_boolean_object(left_val != right_val)
    } else {
        Some(new_error(unknown_infix_error(ObjectType::BooleanObj, operator, ObjectType::BooleanObj)))
    }
}

fn eval_infix_expression(operator: &String, left: Object, right: Object) -> (r: Option<Object>)
    ensures
        crate::environment::opt_obj_view(r) == Some(eval_infix_spec(operator@, left@, right@)),
{
    match (&left, &right) {
        (Object::Integer(a), Object::Integer(b)) => eval_integer_infix_expression(
            operator,
            a.value,
            b.value,
        ),
        (Object::Boolean(a), Object::Boolean(b)) => eval_boolean_infix_expression(
            operator,
            a.value,
            b.value,
        ),
        _ => {
            let lt = left.get_type();
            let rt = right.get_type();
            let same = match (&left, &right) {
                (Object::Integer(_), Object::Integer(_)) => true,
                (Object::Boolean(_), Object::Boolean(_)) => true,
                (Object::Null(_), Object::Null(_)) => true,
                (Object::ReturnValue(_), Object::ReturnValue(_)) => true,
                (Object::Error(_), Object::Error(_)) => true,
                (Object::Function(_), Object::Function(_)) => true,
                _ => false,
            };
            if !same {
                let mut msg = String::from_str("type mismatch: ");
                let ln = lt.name();
                msg.append(ln.as_str());
                msg.append(" ");
                msg.append(operator.as_str());
                msg.append(" ");
                let rn = rt.name();
                msg.append(rn.as_str());
                Some(new_error(msg))
            } else {
                Some(new_error(unknown_infix_error(lt, operator, rt)))
            }
        },
    }
}

fn eval_identifier(node: &Identifier, envs: &Vec<Environment>, env: usize) -> (r: Option<Object>)
    requires
        env < envs@.len(),
        arena_wf(arena_view(envs@)),
    ensures
        crate::environment::opt_obj_view(r) == (match env_lookup(
            arena_view(envs@),
            env as int,
            node.value@,
        ) {
            Some(v) => Some(v),
            None => Some(ObjV::Error { message: identifier_not_found_msg(node.value@) }),
        }),
        opt_obj_wf(crate::environment::opt_obj_view(r), envs@.len() as int),
    {
    proof {
        crate::environment::lemma_env_lookup_wf(arena_view(envs@), env as int, node.value@);
    }
    match Environment::get(envs, env, &node.value) {
        Some(val) => Some(val),
        None => {
            let mut msg = String::from_str("identifier not found: ");
            msg.append(node.value.as_str());
            Some(new_error(msg))
        },
    }
}

} // verus!
verus! {

fn unwrap_return_value(obj: Option<Object>) -> (r: Option<Object>)
    ensures
        crate::environment::opt_obj_view(r) == (match crate::environment::opt_obj_view(obj) {
            Some(v) => if v is Return {
                Some(*v->Return_value)
            } else {
                Some(v)
            },
            None => None,
        }),
{
    match obj {
        Some(o) => match o {
            Object::ReturnValue(rv) => Some(*rv.value),
            other => Some(other),
        },
        None => None,
    }
}

fn extend_function_env(func: &crate::object::Function, args: Vec<Option<Object>>) -> (e:
    Environment)
    requires
        args@.len() == func.parameters@.len(),
    ensures
        e@.outer == Some(func.env as int),
        e@.bindings == bind_params(
            crate::ast::idents_view(func.parameters@),
            opt_objs_view(args@),
            func.parameters@.len() as int,
        ),
{
    let mut env = new_enclosed_environment(func.env);
    let n = func.parameters.len();
    let mut i: usize = 0;
    while i < n
        invariant
            n == func.parameters@.len(),
            args@.len() == n,
            i <= n,
            env@.outer == Some(func.env as int),
            env@.bindings == bind_params(
                crate::ast::idents_view(func.parameters@),
                opt_objs_view(args@),
                i as int,
            ),
        decreases n - i,
    {
        let p: &Identifier = &func.parameters[i];
        let name = p.value.clone();
        let val: Object = match &args[i] {
            Some(o) => o.duplicate(),
            None => Object::Null(crate::object::Null {}),
        };
        proof {
            crate::ast::lemma_idents_view(func.parameters@);
            assert(crate::ast::idents_view(func.parameters@)[i as int] == p.value@);
            assert(opt_objs_view(args@)[i as int] == crate::environment::opt_obj_view(
                args@[i as int],
            ));
        }
        env.set(name, val);
        i = i + 1;
    }
    env
}

/// Applies a callee to evaluated arguments: the callee must be a
/// function value taking exactly that many arguments; its body runs in
/// a fresh scope whose parent is the scope the function captured when
/// it was created, never the caller's scope, which is what makes
/// scoping lexical. A `return` value is unwrapped here.
fn apply_function(
    func: Object,
    args: Vec<Option<Object>>,
    envs: &mut Vec<Environment>,
    fuel: u64,
) -> (r: Option<Object>)
    requires
        arena_wf(arena_view(old(envs)@)),
        obj_wf(func@, old(envs)@.len() as int),
        forall|j: int| 0 <= j < args@.len() ==> opt_obj_wf(
            crate::environment::opt_obj_view(#[trigger] args@[j]),
            old(envs)@.len() as int,
        ),
    ensures
        old(envs)@.len() <= final(envs)@.len(),
        arena_wf(arena_view(final(envs)@)),
        arena_view(final(envs)@) == apply_function_spec(
            func@,
            opt_objs_view(args@),
            arena_view(old(envs)@),
            fuel as nat,
        ).envs,
        crate::environment::opt_obj_view(r) == apply_function_spec(
            func@,
            opt_objs_view(args@),
            arena_view(old(envs)@),
            fuel as nat,
        ).r,
        opt_obj_wf(crate::environment::opt_obj_view(r), final(envs)@.len() as int),
    decreases fuel, 5int,
{
    if fuel == 0 {
        return Some(out_of_budget_error());
    }
    match func {
        Object::Function(f) => {
            proof {
                crate::ast::lemma_idents_view(f.parameters@);
            }
            let plen = f.parameters.len();
            if plen != args.len() {
                let mut msg = String::from_str("wrong number of arguments: expected ");
                let w = crate::strutil::u64_to_string(plen as u64);
                msg.append(w.as_str());
                msg.append(", got ");
                let g = crate::strutil::u64_to_string(args.len() as u64);
                msg.append(g.as_str());
                return Some(new_error(msg));
            }
            let ghost params_v = crate::ast::idents_view(f.parameters@);
            let ghost args_v = opt_objs_view(args@);
            let h = envs.len();
            let extended = extend_function_env(&f, args);
            proof {
                crate::environment::lemma_arena_view_push(envs@, extended);
                assert forall|j: int| 0 <= j < args_v.len() implies opt_obj_wf(
                    #[trigger] args_v[j],
                    envs@.len() + 1 as int,
                ) by {
                    match args_v[j] {
                        Some(v) => {
                            crate::environment::lemma_obj_wf_grow(
                                v,
                                envs@.len() as int,
                                envs@.len() + 1 as int,
                            );
                        },
                        None => {},
                    }
                }
                lemma_bind_params_wf(params_v, args_v, params_v.len() as int, envs@.len() + 1 as int);
                crate::environment::lemma_arena_wf_push(arena_view(envs@), extended@);
            }
            envs.push(extended);
            let result = eval_block_statement(&f.body, envs, h, fuel - 1);
            proof {
                match crate::environment::opt_obj_view(result) {
                    Some(v) => {
                        if v is Return {
                            assert(obj_wf(*v->Return_value, final(envs)@.len() as int));
                        }
                    },
                    None => {},
                }
            }
            unwrap_return_value(result)
        },
        other => {
            let t = other.get_type();
            let mut msg = String::from_str("not a function: ");
            let tn = t.name();
            msg.append(tn.as_str());
            Some(new_error(msg))
        },
    }
}

/// Evaluates the argument expressions from index `i` on, left to
/// right; the first error stops evaluation and becomes the only value.
fn eval_expressions(
    exps: &Vec<Expression>,
    i: usize,
    envs: &mut Vec<Environment>,
    env: usize,
    fuel: u64,
) -> (r: Vec<Option<Object>>)
    requires
        env < old(envs)@.len(),
        arena_wf(arena_view(old(envs)@)),
    ensures
        old(envs)@.len() <= final(envs)@.len(),
        arena_wf(arena_view(final(envs)@)),
        arena_view(final(envs)@) == eval_exprs_spec(
            crate::ast::exprs_view(exps@),
            i as int,
            arena_view(old(envs)@),
            env as int,
            fuel as nat,
        ).envs,
        opt_objs_view(r@) == eval_exprs_spec(
            crate::ast::exprs_view(exps@),
            i as int,
            arena_view(old(envs)@),
            env as int,
            fuel as nat,
        ).vals,
        forall|j: int| 0 <= j < r@.len() ==> opt_obj_wf(
            crate::environment::opt_obj_view(#[trigger] r@[j]),
            final(envs)@.len() as int,
        ),
    decreases fuel, 5int,
{
    proof {
        crate::ast::lemma_exprs_view(exps@);
    }
    if fuel == 0 {
        let out = vec![Some(out_of_budget_error())];
        proof {
            assert(opt_objs_view(out@) =~= seq![Some(out_of_budget())]);
        }
        return out;
    }
    if i >= exps.len() {
        let out: Vec<Option<Object>> = Vec::new();
        proof {
            assert(opt_objs_view(out@) =~= Seq::<Option<ObjV>>::empty());
        }
        return out;
    }
    let e: &Expression = &exps[i];
    let o = eval_expression(e, envs, env, fuel - 1);
    let o_is_err = match &o {
        Some(v) => is_error(v),
        None => false,
    };
    let ghost ov = crate::environment::opt_obj_view(o);
    if o_is_err {
        let mut out: Vec<Option<Object>> = Vec::new();
        out.push(o);
        proof {
            assert(opt_objs_view(out@) =~= seq![ov]);
        }
        return out;
    }
    let ghost len_mid = envs@.len() as int;
    let rest = eval_expressions(exps, i + 1, envs, env, fuel - 1);
    let rest_is_err = rest.len() == 1 && (match &rest[0] {
        Some(v) => is_error(v),
        None => false,
    });
    if rest_is_err {
        return rest;
    }
    let ghost rest_v = opt_objs_view(rest@);
    let mut out: Vec<Option<Object>> = Vec::new();
    out.push(o);
    let mut rest_m = rest;
    out.append(&mut rest_m);
    proof {
        assert(opt_objs_view(out@) =~= seq![ov] + rest_v);
        match ov {
            Some(v) => {
                crate::environment::lemma_obj_wf_grow(v, len_mid, envs@.len() as int);
            },
            None => {},
        }
    }
    out
}

/// Evaluates the statements of a block from index `i` on: a return
/// value or an error stops the block and is its result, still wrapped.
fn eval_block_from(
    stmts: &Vec<Statement>,
    i: usize,
    envs: &mut Vec<Environment>,
    env: usize,
    fuel: u64,
) -> (r: Option<Object>)
    requires
        env < old(envs)@.len(),
        arena_wf(arena_view(old(envs)@)),
    ensures
        old(envs)@.len() <= final(envs)@.len(),
        arena_wf(arena_view(final(envs)@)),
        arena_view(final(envs)@) == eval_block_spec(
            stmts_view(stmts@),
            i as int,
            arena_view(old(envs)@),
            env as int,
            fuel as nat,
        ).envs,
        crate::environment::opt_obj_view(r) == eval_block_spec(
            stmts_view(stmts@),
            i as int,
            arena_view(old(envs)@),
            env as int,
            fuel as nat,
        ).r,
        opt_obj_wf(crate::environment::opt_obj_view(r), final(envs)@.len() as int),
    decreases fuel, 1int,
{
    proof {
        crate::ast::lemma_stmts_view(stmts@);
    }
    if fuel == 0 {
        return Some(out_of_budget_error());
    }
    if i >= stmts.len() {
        return None;
    }
    let st: &Statement = &stmts[i];
    let o = eval_statement(st, envs, env, fuel - 1);
    match o {
        Some(v) => {
            let tp = v.get_type();
            if tp == ObjectType::ReturnValueObj || tp == ObjectType::ErrorObj {
                Some(v)
            } else if i + 1 < stmts.len() {
                eval_block_from(stmts, i + 1, envs, env, fuel - 1)
            } else {
                Some(v)
            }
        },
        None => {
            if i + 1 < stmts.len() {
                eval_block_from(stmts, i + 1, envs, env, fuel - 1)
            } else {
                None
            }
        },
    }
}

fn eval_block_statement(
    block: &BlockStatement,
    envs: &mut Vec<Environment>,
    env: usize,
    fuel: u64,
) -> (r: Option<Object>)
    requires
        env < old(envs)@.len(),
        arena_wf(arena_view(old(envs)@)),
    ensures
        old(envs)@.len() <= final(envs)@.len(),
        arena_wf(arena_view(final(envs)@)),
        arena_view(final(envs)@) == eval_block_spec(
            block@,
            0,
            arena_view(old(envs)@),
            env as int,
            fuel as nat,
        ).envs,
        crate::environment::opt_obj_view(r) == eval_block_spec(
            block@,
            0,
            arena_view(old(envs)@),
            env as int,
            fuel as nat,
        ).r,
        opt_obj_wf(crate::environment::opt_obj_view(r), final(envs)@.len() as int),
    decreases fuel, 2int,
{
    eval_block_from(&block.statements, 0, envs, env, fuel)
}

/// Evaluates an `if`: the condition's truthiness picks the consequence
/// or the alternative; with no alternative, a falsy condition yields
/// null.
fn eval_if_expression(ie: &IfExpression, envs: &mut Vec<Environment>, env: usize, fuel: u64) -> (r:
    Option<Object>)
    requires
        fuel >= 1,
        env < old(envs)@.len(),
        arena_wf(arena_view(old(envs)@)),
    ensures
        old(envs)@.len() <= final(envs)@.len(),
        arena_wf(arena_view(final(envs)@)),
        arena_view(final(envs)@) == eval_expr_spec(
            crate::ast::expr_view(Expression::If(*ie)),
            arena_view(old(envs)@),
            env as int,
            fuel as nat,
        ).envs,
        crate::environment::opt_obj_view(r) == eval_expr_spec(
            crate::ast::expr_view(Expression::If(*ie)),
            arena_view(old(envs)@),
            env as int,
            fuel as nat,
        ).r,
        opt_obj_wf(crate::environment::opt_obj_view(r), final(envs)@.len() as int),
    decreases fuel, 3int,
{
    let condition = eval_expression(&ie.condition, envs, env, fuel - 1);
    let cond_is_err = match &condition {
        Some(v) => is_error(v),
        None => false,
    };
    if cond_is_err {
        return condition;
    }
    if is_truthy(&condition) {
        eval_block_statement(&ie.consequence, envs, env, fuel - 1)
    } else {
        match &ie.alternative {
            Some(alternative) => eval_block_statement(alternative, envs, env, fuel - 1),
            None => Some(Object::Null(crate::object::Null {})),
        }
    }
}

/// Evaluates one statement against the scope with handle `env`.
fn eval_statement(stmt: &Statement, envs: &mut Vec<Environment>, env: usize, fuel: u64) -> (r:
    Option<Object>)
    requires
        env < old(envs)@.len(),
        arena_wf(arena_view(old(envs)@)),
    ensures
        old(envs)@.len() <= final(envs)@.len(),
        arena_wf(arena_view(final(envs)@)),
        arena_view(final(envs)@) == eval_stmt_spec(
            stmt@,
            arena_view(old(envs)@),
            env as int,
            fuel as nat,
        ).envs,
        crate::environment::opt_obj_view(r) == eval_stmt_spec(
            stmt@,
            arena_view(old(envs)@),
            env as int,
            fuel as nat,
        ).r,
        opt_obj_wf(crate::environment::opt_obj_view(r), final(envs)@.len() as int),
    decreases fuel, 5int,
{
    if fuel == 0 {
        return Some(out_of_budget_error());
    }
    match stmt {
        Statement::Expression(es) => eval_expression(&es.expression, envs, env, fuel - 1),
        Statement::Block(bs) => eval_block_statement(bs, envs, env, fuel - 1),
        Statement::Return(rs) => {
            let val = eval_expression(&rs.return_value, envs, env, fuel - 1);
            match val {
                Some(v) => {
                    if is_error(&v) {
                        Some(v)
                    } else {
                        Some(
                            Object::ReturnValue(
                                crate::object::ReturnValue { value: Box::new(v) },
                            ),
                        )
                    }
                },
                None => None,
            }
        },
        Statement::Let(ls) => {
            let val = eval_expression(&ls.value, envs, env, fuel - 1);
            match val {
                Some(v) => {
                    if is_error(&v) {
                        Some(v)
                    } else {
                        let name = ls.name.value.clone();
                        let ghost vv = v@;
                        let ghost namev = name@;
                        proof {
                            lemma_arena_wf_set(arena_view(envs@), env as int, namev, vv);
                        }
                        let ghost pre = envs@;
                        let sc = &mut envs[env];
                        sc.set(name, v);
                        proof {
                            assert(arena_view(envs@) =~= set_binding(
                                arena_view(pre),
                                env as int,
                                namev,
                                vv,
                            ));
                        }
                        None
                    }
                },
                None => None,
            }
        },
    }
}

/// Evaluates one expression against the scope with handle `env`.
fn eval_expression(exp: &Expression, envs: &mut Vec<Environment>, env: usize, fuel: u64) -> (r:
    Option<Object>)
    requires
        env < old(envs)@.len(),
        arena_wf(arena_view(old(envs)@)),
    ensures
        old(envs)@.len() <= final(envs)@.len(),
        arena_wf(arena_view(final(envs)@)),
        arena_view(final(envs)@) == eval_expr_spec(
            exp@,
            arena_view(old(envs)@),
            env as int,
            fuel as nat,
        ).envs,
        crate::environment::opt_obj_view(r) == eval_expr_spec(
            exp@,
            arena_view(old(envs)@),
            env as int,
            fuel as nat,
        ).r,
        opt_obj_wf(crate::environment::opt_obj_view(r), final(envs)@.len() as int),
    decreases fuel, 4int,
{
    if fuel == 0 {
        return Some(out_of_budget_error());
    }
    match exp {
        Expression::IntegerLiteral(il) => Some(
            Object::Integer(crate::object::Integer { value: il.value }),
        ),
        Expression::Boolean(b) => native_bool_to_boolean_object(b.value),
        Expression::Identifier(id) => eval_identifier(id, envs, env),
        Expression::Prefix(pe) => {
            let right = eval_expression(&pe.right, envs, env, fuel - 1);
            match right {
                Some(v) => {
                    if is_error(&v) {
                        Some(v)
                    } else {
                        eval_prefix_expression(&pe.operator, v)
                    }
                },
                None => None,
            }
        },
        Expression::Infix(ie) => {
            let left = eval_expression(&ie.left, envs, env, fuel - 1);
            match left {
                Some(lv) => {
                    if is_error(&lv) {
                        Some(lv)
                    } else {
                        let right = eval_expression(&ie.right, envs, env, fuel - 1);
                        match right {
                            Some(rv) => {
                                if is_error(&rv) {
                                    Some(rv)
                                } else {
                                    eval_infix_expression(&ie.operator, lv, rv)
                                }
                            },
                            None => None,
                        }
                    }
                },
                None => None,
            }
        },
        Expression::If(ie) => eval_if_expression(ie, envs, env, fuel),
        Expression::FunctionLiteral(fl) => Some(
            Object::Function(
                crate::object::Function {
                    parameters: crate::object::rc_clone(&fl.parameters),
                    body: crate::object::rc_clone(&fl.body),
                    env,
                },
            ),
        ),
        Expression::Call(ce) => {
            let function = match eval_expression(&ce.function, envs, env, fuel - 1) {
                None => {
                    return None;
                },
                Some(f) => f,
            };
            if is_error(&function) {
                return Some(function);
            }
            let ghost len_f = envs@.len() as int;
            let args = eval_expressions(&ce.arguments, 0, envs, env, fuel - 1);
            proof {
                crate::environment::lemma_obj_wf_grow(function@, len_f, envs@.len() as int);
            }
            let single_err = args.len() == 1 && (match &args[0] {
                Some(o) => is_error(o),
                None => false,
            });
            if single_err {
                let mut args2 = args;
                match args2.pop() {
                    Some(x) => x,
                    None => None,
                }
            } else {
                apply_function(function, args, envs, fuel - 1)
            }
        },
    }
}

/// Evaluates the program's statements in order: a `return` at the top
/// level stops the program and its value, unwrapped, is the program's
/// result; an error stops it unchanged; otherwise the last statement's
/// result is the program's.
fn eval_program(program: &Program, envs: &mut Vec<Environment>, env: usize, fuel: u64) -> (r:
    Option<Object>)
    requires
        env < old(envs)@.len(),
        arena_wf(arena_view(old(envs)@)),
    ensures
        old(envs)@.len() <= final(envs)@.len(),
        arena_wf(arena_view(final(envs)@)),
        arena_view(final(envs)@) == eval_program_spec(
            program@,
            0,
            arena_view(old(envs)@),
            env as int,
            fuel as nat,
        ).envs,
        crate::environment::opt_obj_view(r) == eval_program_spec(
            program@,
            0,
            arena_view(old(envs)@),
            env as int,
            fuel as nat,
        ).r,
        opt_obj_wf(crate::environment::opt_obj_view(r), final(envs)@.len() as int),
    decreases fuel, 2int,
{
    eval_program_from(&program.statements, 0, envs, env, fuel)
}

fn eval_program_from(
    stmts: &Vec<Statement>,
    i: usize,
    envs: &mut Vec<Environment>,
    env: usize,
    fuel: u64,
) -> (r: Option<Object>)
    requires
        env < old(envs)@.len(),
        arena_wf(arena_view(old(envs)@)),
    ensures
        old(envs)@.len() <= final(envs)@.len(),
        arena_wf(arena_view(final(envs)@)),
        arena_view(final(envs)@) == eval_program_spec(
            stmts_view(stmts@),
            i as int,
            arena_view(old(envs)@),
            env as int,
            fuel as nat,
        ).envs,
        crate::environment::opt_obj_view(r) == eval_program_spec(
            stmts_view(stmts@),
            i as int,
            arena_view(old(envs)@),
            env as int,
            fuel as nat,
        ).r,
        opt_obj_wf(crate::environment::opt_obj_view(r), final(envs)@.len() as int),
    decreases fuel, 1int,
{
    proof {
        crate::ast::lemma_stmts_view(stmts@);
    }
    if fuel == 0 {
        return Some(out_of_budget_error());
    }
    if i >= stmts.len() {
        return None;
    }
    let st: &Statement = &stmts[i];
    let o = eval_statement(st, envs, env, fuel - 1);
    match o {
        Some(v) => {
            match v {
                Object::ReturnValue(rv) => Some(*rv.value),
                Object::Error(e) => Some(Object::Error(e)),
                other => {
                    if i + 1 < stmts.len() {
                        eval_program_from(stmts, i + 1, envs, env, fuel - 1)
                    } else {
                        Some(other)
                    }
                },
            }
        },
        None => {
            if i + 1 < stmts.len() {
                eval_program_from(stmts, i + 1, envs, env, fuel - 1)
            } else {
                None
            }
        },
    }
}

/// Evaluates a whole program against the scope with handle `env` in
/// the arena `envs`. The budget bounds the interpreted program's own
/// recursion: when it runs out, the result is an error object.
pub fn eval(program: &Program, envs: &mut Vec<Environment>, env: usize, fuel: u64) -> (r: Option<
    Object,
>)
    requires
        env < old(envs)@.len(),
        arena_wf(arena_view(old(envs)@)),
    ensures
        old(envs)@.len() <= final(envs)@.len(),
        arena_wf(arena_view(final(envs)@)),
        arena_view(final(envs)@) == eval_program_spec(
            program@,
            0,
            arena_view(old(envs)@),
            env as int,
            fuel as nat,
        ).envs,
        crate::environment::opt_obj_view(r) == eval_program_spec(
            program@,
            0,
            arena_view(old(envs)@),
            env as int,
            fuel as nat,
        ).r,
        opt_obj_wf(crate::environment::opt_obj_view(r), final(envs)@.len() as int),
    decreases fuel, 3int,
{
    eval_program(program, envs, env, fuel)
}

} // verus!
