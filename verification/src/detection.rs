//! Structural matchers over the syntax-tree model: the call, arrow and
//! conditional shapes that decorator transpilation emits.
use vstd::prelude::*;

use crate::ast::{ArrowBody, ArrowBodyV, BinOp, Expr, ExprV, UnaryOp, expr_model};

verus! {

broadcast use vstd::std_specs::vec::group_vec_axioms, vstd::seq::group_seq_axioms, crate::ast::group_model_lemmas;

/// Character-wise string equality, usable wherever the engine compares an
/// identifier or string literal against a well-known name.
pub(crate) fn str_eq(a: &str, b: &str) -> (r: bool)
    ensures
        r == (a@ == b@),
{
    let n = a.unicode_len();
    let m = b.unicode_len();
    if n != m {
        return false;
    }
    let mut i: usize = 0;
    while i < n
        invariant
            i <= n,
            n == a@.len(),
            n == b@.len(),
            forall|j: int| 0 <= j < i ==> a@[j] == b@[j],
        decreases n - i,
    {
        if a.get_char(i) != b.get_char(i) {
            return false;
        }
        i = i + 1;
    }
    proof {
        assert(a@ =~= b@);
    }
    true
}

/// Check if an expression is the bare identifier with the given name.
pub(crate) fn ident_equals(e: &Expr, name: &str) -> (r: bool)
    ensures
        r == (expr_model(*e) matches ExprV::Ident(n) && n == name@),
{
    match e {
        Expr::Ident(s) => str_eq(s.as_str(), name),
        _ => false,
    }
}

/// Whether the expression is a call to the decorator-application helper,
/// `_ts_decorate`.
pub open spec fn spec_is_ts_decorate_call(e: ExprV) -> bool {
    &&& e matches ExprV::Call(callee, _)
    &&& *callee matches ExprV::Ident(name)
    &&& name == "_ts_decorate"@
}

/// Whether the expression is a call to the type-metadata helper,
/// `_ts_metadata`.
pub open spec fn spec_is_ts_metadata_call(e: ExprV) -> bool {
    &&& e matches ExprV::Call(callee, _)
    &&& *callee matches ExprV::Ident(name)
    &&& name == "_ts_metadata"@
}

/// Check if an expression is a `_ts_decorate(...)` call.
pub fn is_ts_decorate_call(e: &Expr) -> (r: bool)
    ensures
        r == spec_is_ts_decorate_call(expr_model(*e)),
{
    match e {
        Expr::Call(callee, _) => ident_equals(callee, "_ts_decorate"),
        _ => false,
    }
}

/// Check if an expression is a `_ts_metadata(...)` call.
pub fn is_ts_metadata_call(e: &Expr) -> (r: bool)
    ensures
        r == spec_is_ts_metadata_call(expr_model(*e)),
{
    match e {
        Expr::Call(callee, _) => ident_equals(callee, "_ts_metadata"),
        _ => false,
    }
}

/// One side of a strict-equality comparison is a `typeof` expression and the
/// other is the string literal `"undefined"`.
pub open spec fn spec_is_typeof_undefined_pair(maybe_typeof: ExprV, maybe_lit: ExprV) -> bool {
    &&& maybe_typeof matches ExprV::Unary(UnaryOp::TypeOf, _)
    &&& maybe_lit matches ExprV::StrLit(s)
    &&& s == "undefined"@
}

/// Whether the expression is `typeof X === "undefined"`, in either operand
/// order.
pub open spec fn spec_is_typeof_undefined_check(e: ExprV) -> bool {
    &&& e matches ExprV::Bin(BinOp::StrictEq, l, r)
    &&& (spec_is_typeof_undefined_pair(*l, *r) || spec_is_typeof_undefined_pair(*r, *l))
}

fn is_typeof_undefined_pair(maybe_typeof: &Expr, maybe_lit: &Expr) -> (r: bool)
    ensures
        r == spec_is_typeof_undefined_pair(expr_model(*maybe_typeof), expr_model(*maybe_lit)),
{
    let is_typeof = match maybe_typeof {
        Expr::Unary(UnaryOp::TypeOf, _) => true,
        _ => false,
    };
    let is_undefined_str = match maybe_lit {
        Expr::StrLit(s) => str_eq(s.as_str(), "undefined"),
        _ => false,
    };
    is_typeof && is_undefined_str
}

/// Check if an expression is `typeof X === "undefined"` (either operand
/// order).
pub fn is_typeof_undefined_check(e: &Expr) -> (r: bool)
    ensures
        r == spec_is_typeof_undefined_check(expr_model(*e)),
{
    match e {
        Expr::Bin(BinOp::StrictEq, l, r) => {
            is_typeof_undefined_pair(l, r) || is_typeof_undefined_pair(r, l)
        },
        _ => false,
    }
}

/// Whether the expression is a single `typeof ... === "undefined"` check, or
/// a chain of such checks joined by logical-OR.
pub open spec fn spec_is_typeof_or_chain(e: ExprV) -> bool
    decreases e,
{
    if spec_is_typeof_undefined_check(e) {
        true
    } else {
        &&& e matches ExprV::Bin(BinOp::Or, l, r)
        &&& spec_is_typeof_or_chain(*l)
        &&& spec_is_typeof_or_chain(*r)
    }
}

fn is_typeof_or_chain(e: &Expr) -> (r: bool)
    ensures
        r == spec_is_typeof_or_chain(expr_model(*e)),
    decreases *e,
{
    if is_typeof_undefined_check(e) {
        return true;
    }
    match e {
        Expr::Bin(BinOp::Or, l, r) => is_typeof_or_chain(l) && is_typeof_or_chain(r),
        _ => false,
    }
}

/// Whether the expression is a typeof-guard conditional: its test is a
/// typeof-or-chain and its consequent is the bare identifier `Object`.
pub open spec fn spec_is_typeof_guard_conditional(e: ExprV) -> bool {
    &&& e matches ExprV::Cond(test, cons, _)
    &&& spec_is_typeof_or_chain(*test)
    &&& *cons matches ExprV::Ident(name)
    &&& name == "Object"@
}

/// Check if a conditional expression is a typeof guard:
///
///   `typeof X === "undefined" ? Object : X`                                  (simple)
///   `typeof X === "undefined" || typeof X.Y === "undefined" ? Object : X.Y`  (chained)
///
/// The test must be a single typeof check or a `||` chain of typeof checks,
/// and the consequent must be the `Object` identifier.
pub fn is_typeof_guard_conditional(e: &Expr) -> (r: bool)
    ensures
        r == spec_is_typeof_guard_conditional(expr_model(*e)),
{
    match e {
        Expr::Cond(test, cons, _) => {
            let test_is_typeof_chain = is_typeof_or_chain(test);
            let consequent_is_object = ident_equals(cons, "Object");
            test_is_typeof_chain && consequent_is_object
        },
        _ => false,
    }
}

/// Whether a decorator-application call decorates a constructor: its third
/// argument is absent or is literally the identifier `undefined`.
pub open spec fn spec_is_constructor_decorate(e: ExprV) -> bool {
    &&& e matches ExprV::Call(_, args)
    &&& (args.len() <= 2 || (args[2] matches ExprV::Ident(name) && name == "undefined"@))
}

/// Check if a `_ts_decorate` call is decorating a constructor (vs a
/// method or property).
///
/// Constructor: `_ts_decorate([...], ClassName, undefined, null)`
/// Method:      `_ts_decorate([...], ClassName.prototype, "methodName", null)`
///
/// The third argument (index 2) is `undefined` or absent for constructors.
/// On anything that is not a call this returns false.
pub fn is_constructor_decorate(e: &Expr) -> (r: bool)
    ensures
        r == spec_is_constructor_decorate(expr_model(*e)),
{
    match e {
        Expr::Call(c, args) => {
            proof {
                assert(expr_model(*e) == ExprV::Call(
                    Box::new(expr_model(**c)),
                    crate::ast::exprs_model(args@),
                ));
            }
            if args.len() <= 2 {
                true
            } else {
                proof {
                    assert(crate::ast::exprs_model(args@)[2] == expr_model(args@[2]));
                }
                ident_equals(&args[2], "undefined")
            }
        },
        _ => false,
    }
}

/// Whether the expression is an arrow function that is safe to unwrap: no
/// parameters, and a body that is a single expression of one of three
/// side-effect-free shapes: an identifier, a member access, or an array
/// literal.
pub open spec fn spec_is_simple_arrow(e: ExprV) -> bool {
    &&& e matches ExprV::Arrow(params, body)
    &&& params == 0
    &&& body matches ArrowBodyV::ExprBody(b)
    &&& (*b matches ExprV::Ident(_) || *b matches ExprV::Member(_) || *b matches ExprV::Array(_))
}

/// Check if an arrow function has a simple body (single returned expression)
/// and no parameters.  Only these are safe to unwrap: other bodies may have
/// observable side effects.
///
/// Safe patterns:
/// - `() => String`           (identifier)
/// - `() => SomeModule.Type`  (member access)
/// - `() => [Type]`           (array literal)
pub fn is_simple_arrow(e: &Expr) -> (r: bool)
    ensures
        r == spec_is_simple_arrow(expr_model(*e)),
{
    match e {
        Expr::Arrow(params, body) => {
            proof {
                assert(expr_model(*e) == ExprV::Arrow(*params, crate::ast::body_model(*body)));
            }
            if *params != 0 {
                return false;
            }
            match body {
                ArrowBody::ExprBody(b) => {
                    proof {
                        assert(crate::ast::body_model(*body) == ArrowBodyV::ExprBody(
                            Box::new(expr_model(**b)),
                        ));
                    }
                    is_simple_body(b)
                },
                _ => false,
            }
        },
        _ => false,
    }
}

pub(crate) fn is_simple_body(b: &Expr) -> (r: bool)
    ensures
        r == (expr_model(*b) matches ExprV::Ident(_) || expr_model(*b) matches ExprV::Member(_)
            || expr_model(*b) matches ExprV::Array(_)),
{
    match b {
        Expr::Ident(_) => true,
        Expr::Member(_) => true,
        Expr::Array(_) => true,
        _ => false,
    }
}

} // verus!
