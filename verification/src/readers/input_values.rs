//! Readers for arguments and input-object fields.

use vstd::prelude::*;
use crate::ast::{AstView, input_value_definition_wf};
use crate::ids::InputValueDefinitionId;
use super::ReadContext;

verus! {

/// A read-only view of one argument or input-object field definition.
#[derive(Clone, Copy)]
pub struct InputValueDefinition<'a>(pub ReadContext<'a, InputValueDefinitionId>);

impl<'a> InputValueDefinition<'a> {
    pub open spec fn doc(&self) -> AstView {
        self.0.document@
    }

    pub open spec fn node(&self) -> crate::ast::InputValueDefinition {
        self.doc().input_value_definitions[self.0.id.0 as int]
    }

    pub open spec fn valid(&self) -> bool {
        self.doc().wf() && self.0.id.0 < self.doc().input_value_definitions.len()
    }

    /// The argument's name.
    pub fn name(&self) -> (r: &'a str)
        requires
            self.valid(),
        ensures
            r@ == self.doc().strings[self.node().name.0 as int],
    {
        let ast = self.0.document;
        proof {
            assert(input_value_definition_wf(
                ast@.input_value_definitions[self.0.id.0 as int], ast@));
        }
        ast.lookup_string(ast.lookup_input_value(self.0.id).name)
    }

    /// The argument's declared type.
    pub fn ty(&self) -> (r: &'a crate::ast::Type)
        requires
            self.valid(),
        ensures
            *r == self.doc().type_references[self.node().ty.0 as int],
    {
        let ast = self.0.document;
        proof {
            assert(input_value_definition_wf(
                ast@.input_value_definitions[self.0.id.0 as int], ast@));
        }
        ast.lookup_type(ast.lookup_input_value(self.0.id).ty)
    }

    /// The description, if one was written.
    pub fn description(&self) -> (r: Option<&'a str>)
        requires
            self.valid(),
        ensures
            match (self.node().description, r) {
                (Some(id), Some(s)) => s@ == self.doc().strings[id.0 as int],
                (None, None) => true,
                _ => false,
            },
    {
        let ast = self.0.document;
        proof {
            assert(input_value_definition_wf(
                ast@.input_value_definitions[self.0.id.0 as int], ast@));
        }
        match ast.lookup_input_value(self.0.id).description {
            Some(id) => Some(ast.lookup_string(id)),
            None => None,
        }
    }

    /// The default value node, if a default was written.
    pub fn default_value(&self) -> (r: Option<&'a crate::ast::Value>)
        requires
            self.valid(),
        ensures
            match (self.node().default, r) {
                (Some(id), Some(v)) => *v == self.doc().values[id.0 as int],
                (None, None) => true,
                _ => false,
            },
    {
        let ast = self.0.document;
        proof {
            assert(input_value_definition_wf(
                ast@.input_value_definitions[self.0.id.0 as int], ast@));
        }
        match ast.lookup_input_value(self.0.id).default {
            Some(id) => Some(ast.lookup_value(id)),
            None => None,
        }
    }
}

} // verus!
