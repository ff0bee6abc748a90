//! The cascade: the four import passes, then the four export passes, each
//! run once over the whole module.
//!
//! The order carries the meaning. A pass takes the shapes that it recognises
//! out of the tree, so a later, more general pass sees only what is left; and
//! every import pass is through before the first export pass starts.
use crate::ast::{Module, ModuleView};
use crate::converted::{fully_converted, law_cascade_output_is_converted};
use crate::failure::{
    holds_dynamic_require, law_cascade_fails_exactly_on_dynamic_require,
    law_import_pass_and_dynamic_require, law_imports_fail_exactly_on_dynamic_require,
};
use crate::frame::{law_exports_end_well, law_imports_do_not_warn, law_passes_keep_to_their_frame};
use crate::single_default::{
    default_exports, law_cascade_makes_one_default_at_most, law_pass_makes_no_second_default,
};
use crate::tidy::tidy_module;
use crate::unassigned::{law_no_assignment_no_warning, unassigned_module};
use crate::traverse::{apply, outcome, visit_mut_module, Output, OutputView};
use crate::utils::RewriteError;
use crate::visitors::{Pass, Warning};
use vstd::prelude::*;

verus! {

/// What holds after `prev` and then pass `p` on its module: the warnings add
/// up, and the first error ends the chain.
pub open spec fn followed_by(prev: Result<OutputView, RewriteError>, p: Pass) -> Result<
    OutputView,
    RewriteError,
> {
    match prev {
        Ok(before) => match apply(p, before.module) {
            Ok(after) => Ok(
                OutputView { module: after.module, warnings: before.warnings + after.warnings },
            ),
            Err(e) => Err(e),
        },
        Err(e) => Err(e),
    }
}

/// A module on which no pass has run yet.
pub open spec fn untouched(m: ModuleView) -> Result<OutputView, RewriteError> {
    Ok(OutputView { module: m, warnings: Seq::empty() })
}

/// The four import passes in their order.
pub open spec fn imports_of(prev: Result<OutputView, RewriteError>) -> Result<
    OutputView,
    RewriteError,
> {
    followed_by(
        followed_by(
            followed_by(followed_by(prev, Pass::RequireStatement), Pass::RequireIdent),
            Pass::PureDestructuredRequire,
        ),
        Pass::RequireFallback,
    )
}

/// The four export passes in their order.
pub open spec fn exports_of(prev: Result<OutputView, RewriteError>) -> Result<
    OutputView,
    RewriteError,
> {
    followed_by(
        followed_by(
            followed_by(followed_by(prev, Pass::ModuleExportsIdent), Pass::ModuleExportsNamedExpr),
            Pass::ExportDefaultObject,
        ),
        Pass::ModuleDefaultExport,
    )
}

/// The whole cascade.
pub open spec fn cascade(m: ModuleView) -> Result<OutputView, RewriteError> {
    exports_of(imports_of(untouched(m)))
}

/// Runs pass `p` on the module of `prev` and adds its warnings to those of
/// `prev`.
pub fn follow(prev: Output, p: Pass) -> (r: Result<Output, RewriteError>)
    ensures
        outcome(r) == followed_by(Ok(prev@), p),
        r matches Ok(out) ==> tidy_module(out@.module),
{
    let Output { module, warnings } = prev;
    let mut warnings = warnings;
    match visit_mut_module(p, &module) {
        Ok(after) => {
            let Output { module: rewritten, warnings: more } = after;
            let mut more = more;
            warnings.append(&mut more);
            let out = Output { module: rewritten, warnings };
            assert(out@ =~~= (OutputView {
                module: after@.module,
                warnings: prev@.warnings + after@.warnings,
            }));
            Ok(out)
        },
        Err(e) => Err(e),
    }
}

/// Turns `require('foo');` into `import 'foo';`.
pub fn transform_require_expr_stmt(module: &Module) -> (r: Result<Output, RewriteError>)
    ensures
        outcome(r) == apply(Pass::RequireStatement, module@),
        r matches Ok(out) ==> tidy_module(out@.module),
        r matches Ok(out) ==> out.warnings@.len() == 0,
        r is Err ==> holds_dynamic_require(module@),
{
    proof {
        law_passes_keep_to_their_frame(Pass::RequireStatement, module@);
        law_import_pass_and_dynamic_require(Pass::RequireStatement, module@);
    }
    visit_mut_module(Pass::RequireStatement, module)
}

/// Turns `const foo = require('foo');` into `import * as foo from 'foo';`.
pub fn transform_require_ident_to_import(module: &Module) -> (r: Result<Output, RewriteError>)
    ensures
        outcome(r) == apply(Pass::RequireIdent, module@),
        r matches Ok(out) ==> tidy_module(out@.module),
        r matches Ok(out) ==> out.warnings@.len() == 0,
        r is Err ==> holds_dynamic_require(module@),
{
    proof {
        law_passes_keep_to_their_frame(Pass::RequireIdent, module@);
        law_import_pass_and_dynamic_require(Pass::RequireIdent, module@);
    }
    visit_mut_module(Pass::RequireIdent, module)
}

/// Turns `const { foo, bar: baz } = require('foo');` into
/// `import { foo, bar as baz } from 'foo';`.
pub fn transform_require_pure_destructure_to_named_imports(module: &Module) -> (r: Result<
    Output,
    RewriteError,
>)
    ensures
        outcome(r) == apply(Pass::PureDestructuredRequire, module@),
        r matches Ok(out) ==> tidy_module(out@.module),
        r matches Ok(out) ==> out.warnings@.len() == 0,
        r is Err ==> holds_dynamic_require(module@),
{
    proof {
        law_passes_keep_to_their_frame(Pass::PureDestructuredRequire, module@);
        law_import_pass_and_dynamic_require(Pass::PureDestructuredRequire, module@);
    }
    visit_mut_module(Pass::PureDestructuredRequire, module)
}

/// Turns every other `require('foo')` into a reference to a synthetic
/// namespace import: `const bar = require('foo').bar;` becomes
/// `import * as _mod$1 from 'foo'; const bar = _mod$1.bar;`.
pub fn transform_require_expression_to_import(module: &Module) -> (r: Result<
    Output,
    RewriteError,
>)
    ensures
        outcome(r) == apply(Pass::RequireFallback, module@),
        r matches Ok(out) ==> tidy_module(out@.module),
        r matches Ok(out) ==> out.warnings@.len() == 0,
        r is Err <==> holds_dynamic_require(module@),
{
    proof {
        law_passes_keep_to_their_frame(Pass::RequireFallback, module@);
        law_import_pass_and_dynamic_require(Pass::RequireFallback, module@);
    }
    visit_mut_module(Pass::RequireFallback, module)
}

/// Turns `module.exports = foo;` into `export { foo };` and
/// `export default foo;`.
pub fn transform_module_exports_ident_to_named_export(module: &Module) -> (r: Result<
    Output,
    RewriteError,
>)
    ensures
        outcome(r) == apply(Pass::ModuleExportsIdent, module@),
        r matches Ok(out) ==> tidy_module(out@.module),
        r is Ok,
        default_exports(module@.body) <= 1 ==> default_exports(r->Ok_0@.module.body) <= 1,
{
    proof {
        law_passes_keep_to_their_frame(Pass::ModuleExportsIdent, module@);
        law_pass_makes_no_second_default(Pass::ModuleExportsIdent, module@);
    }
    visit_mut_module(Pass::ModuleExportsIdent, module)
}

/// Turns `module.exports = { foo: bar, baz };` into
/// `export { bar as foo, baz };`.
pub fn transform_module_exports_object(module: &Module) -> (r: Result<Output, RewriteError>)
    ensures
        outcome(r) == apply(Pass::ExportDefaultObject, module@),
        r matches Ok(out) ==> tidy_module(out@.module),
        r is Ok,
{
    proof {
        law_passes_keep_to_their_frame(Pass::ExportDefaultObject, module@);
    }
    visit_mut_module(Pass::ExportDefaultObject, module)
}

/// Turns `module.exports.foo = 123;` into `export const foo = 123;`.
pub fn transform_module_exports_named_expression(module: &Module) -> (r: Result<
    Output,
    RewriteError,
>)
    ensures
        outcome(r) == apply(Pass::ModuleExportsNamedExpr, module@),
        r matches Ok(out) ==> tidy_module(out@.module),
        r is Ok,
{
    proof {
        law_passes_keep_to_their_frame(Pass::ModuleExportsNamedExpr, module@);
    }
    visit_mut_module(Pass::ModuleExportsNamedExpr, module)
}

/// Turns `module.exports = 123;` into `export default 123;` and warns that
/// the module has an opaque default export.
pub fn transform_module_default_export(module: &Module) -> (r: Result<Output, RewriteError>)
    ensures
        outcome(r) == apply(Pass::ModuleDefaultExport, module@),
        r matches Ok(out) ==> tidy_module(out@.module),
        r is Ok,
        default_exports(module@.body) <= 1 ==> default_exports(r->Ok_0@.module.body) <= 1,
        unassigned_module(module@) ==> r->Ok_0.warnings@.len() == 0,
{
    proof {
        law_passes_keep_to_their_frame(Pass::ModuleDefaultExport, module@);
        law_pass_makes_no_second_default(Pass::ModuleDefaultExport, module@);
        if unassigned_module(module@) {
            law_no_assignment_no_warning(module@);
        }
    }
    visit_mut_module(Pass::ModuleDefaultExport, module)
}

/// Turns `require` into `import`, by the four import passes in their order.
pub fn transform_imports(module: &Module) -> (r: Result<Output, RewriteError>)
    ensures
        outcome(r) == imports_of(untouched(module@)),
        r matches Ok(out) ==> tidy_module(out@.module),
        r matches Ok(out) ==> out.warnings@.len() == 0,
        r is Err <==> holds_dynamic_require(module@),
{
    proof {
        law_imports_do_not_warn(module@);
        law_imports_fail_exactly_on_dynamic_require(module@);
    }
    let a = visit_mut_module(Pass::RequireStatement, module)?;
    assert(a@.warnings =~= Seq::<Warning>::empty() + a@.warnings);
    let b = follow(a, Pass::RequireIdent)?;
    let c = follow(b, Pass::PureDestructuredRequire)?;
    follow(c, Pass::RequireFallback)
}

/// Turns `module.exports` and `exports.<name>` into `export`, by the four
/// export passes in their order.
pub fn transform_exports(module: &Module) -> (r: Result<Output, RewriteError>)
    ensures
        outcome(r) == exports_of(untouched(module@)),
        r matches Ok(out) ==> tidy_module(out@.module),
        r is Ok,
{
    proof {
        law_exports_end_well(untouched(module@));
    }
    let a = visit_mut_module(Pass::ModuleExportsIdent, module)?;
    assert(a@.warnings =~= Seq::<Warning>::empty() + a@.warnings);
    let b = follow(a, Pass::ModuleExportsNamedExpr)?;
    let c = follow(b, Pass::ExportDefaultObject)?;
    follow(c, Pass::ModuleDefaultExport)
}

/// Rewrites CommonJS to ESM: the whole cascade, once.
pub fn cjs_to_esm(module: &Module) -> (r: Result<Output, RewriteError>)
    ensures
        outcome(r) == cascade(module@),
        r matches Ok(out) ==> tidy_module(out@.module) && fully_converted(out@.module),
        r is Err <==> holds_dynamic_require(module@),
        default_exports(module@.body) <= 1 ==> (r matches Ok(out) ==> default_exports(
            out@.module.body,
        ) <= 1),
{
    proof {
        law_cascade_fails_exactly_on_dynamic_require(module@);
        law_cascade_output_is_converted(module@);
        if default_exports(module@.body) <= 1 {
            law_cascade_makes_one_default_at_most(module@);
        }
    }
    let a = transform_imports(module)?;
    let b = follow(a, Pass::ModuleExportsIdent)?;
    let c = follow(b, Pass::ModuleExportsNamedExpr)?;
    let d = follow(c, Pass::ExportDefaultObject)?;
    follow(d, Pass::ModuleDefaultExport)
}

} // verus!
