//! A verified rewrite engine for compiler-emitted decorator and
//! reflection-metadata call patterns, together with a layered configuration
//! resolver that decides, per source file, which rewrites are active.

pub mod ast;
pub mod config;
pub mod detection;
pub mod idempotence;
pub mod laws;
pub mod measure;
pub mod rewrite;
pub mod transforms;

pub use ast::{ArrowBody, BinOp, Expr, Prop, PropKey, UnaryOp};
pub use config::{Config, OverrideRule, PluginConfig};
pub use detection::{is_constructor_decorate, is_simple_arrow, is_ts_decorate_call,
    is_ts_metadata_call, is_typeof_guard_conditional, is_typeof_undefined_check};
pub use rewrite::{rewrite_decorator_array, rewrite_expr};
pub use transforms::{simplify_design_type_typeof_guards, simplify_metadata_typeof_guards,
    strip_metadata_calls, unwrap_decorator_arrow_args, unwrap_type_arrow_props};
