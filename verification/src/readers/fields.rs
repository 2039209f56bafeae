//! Readers for field definitions.

use vstd::prelude::*;
use crate::ast::{AstView, field_definition_wf};
use crate::ids::FieldDefinitionId;
use super::ReadContext;
use super::input_values::InputValueDefinition;
use super::directives::Directive;

verus! {

/// A read-only view of one field definition.
#[derive(Clone, Copy)]
pub struct FieldDefinition<'a>(pub ReadContext<'a, FieldDefinitionId>);

impl<'a> FieldDefinition<'a> {
    pub open spec fn doc(&self) -> AstView {
        self.0.document@
    }

    pub open spec fn node(&self) -> crate::ast::FieldDefinition {
        self.doc().field_definitions[self.0.id.0 as int]
    }

    pub open spec fn valid(&self) -> bool {
        self.doc().wf() && self.0.id.0 < self.doc().field_definitions.len()
    }

    /// The field's name.
    pub fn name(&self) -> (r: &'a str)
        requires
            self.valid(),
        ensures
            r@ == self.doc().strings[self.node().name.0 as int],
    {
        let ast = self.0.document;
        proof {
            assert(field_definition_wf(ast@.field_definitions[self.0.id.0 as int], ast@));
        }
        ast.lookup_string(ast.lookup_field(self.0.id).name)
    }

    /// The field's return type.
    pub fn ty(&self) -> (r: &'a crate::ast::Type)
        requires
            self.valid(),
        ensures
            *r == self.doc().type_references[self.node().ty.0 as int],
    {
        let ast = self.0.document;
        proof {
            assert(field_definition_wf(ast@.field_definitions[self.0.id.0 as int], ast@));
        }
        ast.lookup_type(ast.lookup_field(self.0.id).ty)
    }

    /// The description, if one was written.
    pub fn description(&self) -> (r: Option<&'a str>)
        requires
            self.valid(),
        ensures
            match (self.node().description, r) {
                (Some(id), Some(s)) => s@ == self.doc().strings[id.0 as int],
                (None, None) => true,
                _ => false,
            },
    {
        let ast = self.0.document;
        proof {
            assert(field_definition_wf(ast@.field_definitions[self.0.id.0 as int], ast@));
        }
        match ast.lookup_field(self.0.id).description {
            Some(id) => Some(ast.lookup_string(id)),
            None => None,
        }
    }

    /// One reader per declared argument, in source order.
    #[verifier::loop_isolation(false)]
    pub fn arguments(&self) -> (r: Vec<InputValueDefinition<'a>>)
        requires
            self.valid(),
        ensures
            r@.len() == self.node().arguments@.len(),
            forall|i: int| 0 <= i < r@.len() ==> (#[trigger] r@[i]).valid()
                && r@[i].doc() == self.doc()
                && r@[i].node() == self.doc().input_value_definitions[
                    self.node().arguments@[i].0 as int],
    {
        let ast = self.0.document;
        proof {
            assert(field_definition_wf(ast@.field_definitions[self.0.id.0 as int], ast@));
        }
        let node = ast.lookup_field(self.0.id);
        let mut out: Vec<InputValueDefinition<'a>> = Vec::new();
        let n = node.arguments.len();
        let mut j: usize = 0;
        while j < n
            invariant
                self.valid(),
                n == self.node().arguments@.len(),
                *node == self.node(),
                j <= n,
                out@.len() == j,
                forall|i: int| 0 <= i < j ==> (#[trigger] out@[i]).valid()
                    && out@[i].doc() == self.doc()
                    && out@[i].node() == self.doc().input_value_definitions[
                        self.node().arguments@[i].0 as int],
            decreases n - j,
        {
            proof {
                assert(field_definition_wf(
                    self.doc().field_definitions[self.0.id.0 as int], self.doc()));
            }
            let aid = node.arguments[j];
            proof {
                assert(aid == self.node().arguments@[j as int]);
                assert((self.node().arguments@[j as int]).0
                    < self.doc().input_value_definitions.len());
            }
            out.push(InputValueDefinition(ReadContext { document: ast, id: aid }));
            j = j + 1;
        }
        out
    }

    /// One reader per directive on the field, in source order.
    #[verifier::loop_isolation(false)]
    pub fn directives(&self) -> (r: Vec<Directive<'a>>)
        requires
            self.valid(),
        ensures
            r@.len() == self.node().directives@.len(),
            forall|i: int| 0 <= i < r@.len() ==> (#[trigger] r@[i]).valid()
                && r@[i].doc() == self.doc()
                && r@[i].node() == self.doc().directives[self.node().directives@[i].0 as int],
    {
        let ast = self.0.document;
        proof {
            assert(field_definition_wf(ast@.field_definitions[self.0.id.0 as int], ast@));
        }
        let node = ast.lookup_field(self.0.id);
        let mut out: Vec<Directive<'a>> = Vec::new();
        let n = node.directives.len();
        let mut j: usize = 0;
        while j < n
            invariant
                self.valid(),
                n == self.node().directives@.len(),
                *node == self.node(),
                j <= n,
                out@.len() == j,
                forall|i: int| 0 <= i < j ==> (#[trigger] out@[i]).valid()
                    && out@[i].doc() == self.doc()
                    && out@[i].node() == self.doc().directives[
                        self.node().directives@[i].0 as int],
            decreases n - j,
        {
            proof {
                assert(field_definition_wf(
                    self.doc().field_definitions[self.0.id.0 as int], self.doc()));
            }
            let did = node.directives[j];
            proof {
                assert(did == self.node().directives@[j as int]);
                assert((self.node().directives@[j as int]).0 < self.doc().directives.len());
            }
            out.push(Directive(ReadContext { document: ast, id: did }));
            j = j + 1;
        }
        out
    }
}

} // verus!
