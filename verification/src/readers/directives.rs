//! Readers for directive occurrences and their arguments.

use vstd::prelude::*;
use crate::ast::{Ast, AstView, directive_wf, argument_wf};
use crate::ids::{DirectiveId, ArgumentId, ValueId};
use super::ReadContext;

verus! {

/// A read-only view of one `@name(args...)` occurrence.
#[derive(Clone, Copy)]
pub struct Directive<'a>(pub ReadContext<'a, DirectiveId>);

impl<'a> Directive<'a> {
    pub open spec fn doc(&self) -> AstView {
        self.0.document@
    }

    pub open spec fn node(&self) -> crate::ast::Directive {
        self.doc().directives[self.0.id.0 as int]
    }

    pub open spec fn valid(&self) -> bool {
        self.doc().wf() && self.0.id.0 < self.doc().directives.len()
    }

    /// The directive's name.
    pub fn name(&self) -> (r: &'a str)
        requires
            self.valid(),
        ensures
            r@ == self.doc().strings[self.node().name.0 as int],
    {
        let ast = self.0.document;
        proof {
            assert(directive_wf(ast@.directives[self.0.id.0 as int], ast@));
        }
        ast.lookup_string(ast.lookup_directive(self.0.id).name)
    }

    /// One reader per argument, in source order.
    #[verifier::loop_isolation(false)]
    pub fn arguments(&self) -> (r: Vec<Argument<'a>>)
        requires
            self.valid(),
        ensures
            r@.len() == self.node().arguments@.len(),
            forall|i: int| 0 <= i < r@.len() ==> (#[trigger] r@[i]).valid()
                && r@[i].doc() == self.doc()
                && r@[i].node() == self.doc().arguments[self.node().arguments@[i].0 as int],
    {
        let ast = self.0.document;
        proof {
            assert(directive_wf(ast@.directives[self.0.id.0 as int], ast@));
        }
        let node = ast.lookup_directive(self.0.id);
        let mut out: Vec<Argument<'a>> = Vec::new();
        let n = node.arguments.len();
        let mut j: usize = 0;
        while j < n
            invariant
                self.valid(),
                n == self.node().arguments@.len(),
                *node == self.node(),
                j <= n,
                out@.len() == j,
                forall|i: int| 0 <= i < j ==> (#[trigger] out@[i]).valid()
                    && out@[i].doc() == self.doc()
                    && out@[i].node() == self.doc().arguments[
                        self.node().arguments@[i].0 as int],
            decreases n - j,
        {
            let aid = node.arguments[j];
            proof {
                assert(directive_wf(self.doc().directives[self.0.id.0 as int], self.doc()));
            }
            proof {
                assert(aid == self.node().arguments@[j as int]);
                assert((self.node().arguments@[j as int]).0 < self.doc().arguments.len());
            }
            out.push(Argument(ReadContext { document: ast, id: aid }));
            j = j + 1;
        }
        out
    }
}

/// A read-only view of one `name: value` argument.
#[derive(Clone, Copy)]
pub struct Argument<'a>(pub ReadContext<'a, ArgumentId>);

impl<'a> Argument<'a> {
    pub open spec fn doc(&self) -> AstView {
        self.0.document@
    }

    pub open spec fn node(&self) -> crate::ast::Argument {
        self.doc().arguments[self.0.id.0 as int]
    }

    pub open spec fn valid(&self) -> bool {
        self.doc().wf() && self.0.id.0 < self.doc().arguments.len()
    }

    /// The argument's name.
    pub fn name(&self) -> (r: &'a str)
        requires
            self.valid(),
        ensures
            r@ == self.doc().strings[self.node().name.0 as int],
    {
        let ast = self.0.document;
        proof {
            assert(argument_wf(ast@.arguments[self.0.id.0 as int], ast@));
        }
        ast.lookup_string(ast.lookup_argument(self.0.id).name)
    }

    /// The handle of the argument's value.
    pub fn value_id(&self) -> (r: ValueId)
        requires
            self.valid(),
        ensures
            r == self.node().value,
            r.0 < self.doc().values.len(),
    {
        let ast = self.0.document;
        proof {
            assert(argument_wf(ast@.arguments[self.0.id.0 as int], ast@));
        }
        ast.lookup_argument(self.0.id).value
    }

    /// The argument's value node.
    pub fn value(&self) -> (r: &'a crate::ast::Value)
        requires
            self.valid(),
        ensures
            *r == self.doc().values[self.node().value.0 as int],
    {
        let ast = self.0.document;
        proof {
            assert(argument_wf(ast@.arguments[self.0.id.0 as int], ast@));
        }
        ast.lookup_value(ast.lookup_argument(self.0.id).value)
    }
}

} // verus!
