//! Readers for object type definitions.

use vstd::prelude::*;
use crate::ast::{Ast, AstView, object_definition_wf, string_ok};
use crate::ids::ObjectDefinitionId;
use super::ReadContext;
use super::fields::FieldDefinition;
use super::directives::Directive;

verus! {

/// A read-only view of one object type definition.
#[derive(Clone, Copy)]
pub struct ObjectDefinition<'a>(pub ReadContext<'a, ObjectDefinitionId>);

impl<'a> ObjectDefinition<'a> {
    pub open spec fn doc(&self) -> AstView {
        self.0.document@
    }

    pub open spec fn node(&self) -> crate::ast::ObjectDefinition {
        self.doc().object_definitions[self.0.id.0 as int]
    }

    pub open spec fn valid(&self) -> bool {
        self.doc().wf() && self.0.id.0 < self.doc().object_definitions.len()
    }

    /// The type's name.
    pub fn name(&self) -> (r: &'a str)
        requires
            self.valid(),
        ensures
            r@ == self.doc().strings[self.node().name.0 as int],
    {
        let ast = self.0.document;
        proof {
            assert(object_definition_wf(ast@.object_definitions[self.0.id.0 as int], ast@));
        }
        ast.lookup_string(ast.lookup_object(self.0.id).name)
    }

    /// The description, if one was written.
    pub fn description(&self) -> (r: Option<&'a str>)
        requires
            self.valid(),
        ensures
            match (self.node().description, r) {
                (Some(id), Some(s)) => s@ == self.doc().strings[id.0 as int],
                (None, None) => true,
                _ => false,
            },
    {
        let ast = self.0.document;
        proof {
            assert(object_definition_wf(ast@.object_definitions[self.0.id.0 as int], ast@));
        }
        match ast.lookup_object(self.0.id).description {
            Some(id) => Some(ast.lookup_string(id)),
            None => None,
        }
    }

    /// The names of the interfaces this type implements, in source order.
    #[verifier::loop_isolation(false)]
    pub fn implements_interfaces(&self) -> (r: Vec<&'a str>)
        requires
            self.valid(),
        ensures
            r@.len() == self.node().implements@.len(),
            forall|i: int| 0 <= i < r@.len() ==> (#[trigger] r@[i])@ == self.doc().strings[
                self.node().implements@[i].0 as int],
    {
        let ast = self.0.document;
        proof {
            assert(object_definition_wf(ast@.object_definitions[self.0.id.0 as int], ast@));
        }
        let node = ast.lookup_object(self.0.id);
        let mut out: Vec<&'a str> = Vec::new();
        let n = node.implements.len();
        let mut j: usize = 0;
        while j < n
            invariant
                self.valid(),
                n == self.node().implements@.len(),
                *node == self.node(),
                j <= n,
                out@.len() == j,
                forall|i: int| 0 <= i < j ==> (#[trigger] out@[i])@ == self.doc().strings[
                    self.node().implements@[i].0 as int],
            decreases n - j,
        {
            proof {
                assert(object_definition_wf(
                    self.doc().object_definitions[self.0.id.0 as int], self.doc()));
            }
            let sid = node.implements[j];
            proof {
                assert(sid == self.node().implements@[j as int]);
                assert(string_ok(self.node().implements@[j as int], self.doc()));
            }
            out.push(ast.lookup_string(sid));
            j = j + 1;
        }
        out
    }

    /// One reader per field, in source order.
    #[verifier::loop_isolation(false)]
    pub fn fields(&self) -> (r: Vec<FieldDefinition<'a>>)
        requires
            self.valid(),
        ensures
            r@.len() == self.node().fields@.len(),
            forall|i: int| 0 <= i < r@.len() ==> (#[trigger] r@[i]).valid()
                && r@[i].doc() == self.doc()
                && r@[i].node() == self.doc().field_definitions[self.node().fields@[i].0 as int],
    {
        let ast = self.0.document;
        proof {
            assert(object_definition_wf(ast@.object_definitions[self.0.id.0 as int], ast@));
        }
        let node = ast.lookup_object(self.0.id);
        let mut out: Vec<FieldDefinition<'a>> = Vec::new();
        let n = node.fields.len();
        let mut j: usize = 0;
        while j < n
            invariant
                self.valid(),
                n == self.node().fields@.len(),
                *node == self.node(),
                j <= n,
                out@.len() == j,
                forall|i: int| 0 <= i < j ==> (#[trigger] out@[i]).valid()
                    && out@[i].doc() == self.doc()
                    && out@[i].node() == self.doc().field_definitions[
                        self.node().fields@[i].0 as int],
            decreases n - j,
        {
            proof {
                assert(object_definition_wf(
                    self.doc().object_definitions[self.0.id.0 as int], self.doc()));
            }
            let fid = node.fields[j];
            proof {
                assert(fid == self.node().fields@[j as int]);
                assert((self.node().fields@[j as int]).0 < self.doc().field_definitions.len());
            }
            out.push(FieldDefinition(ReadContext { document: ast, id: fid }));
            j = j + 1;
        }
        out
    }

    /// One reader per directive on the type, in source order.
    #[verifier::loop_isolation(false)]
    pub fn directives(&self) -> (r: Vec<Directive<'a>>)
        requires
            self.valid(),
        ensures
            r@.len() == self.node().directives@.len(),
            forall|i: int| 0 <= i < r@.len() ==> (#[trigger] r@[i]).valid()
                && r@[i].doc() == self.doc()
                && r@[i].node() == self.doc().directives[self.node().directives@[i].0 as int],
    {
        let ast = self.0.document;
        proof {
            assert(object_definition_wf(ast@.object_definitions[self.0.id.0 as int], ast@));
        }
        let node = ast.lookup_object(self.0.id);
        let mut out: Vec<Directive<'a>> = Vec::new();
        let n = node.directives.len();
        let mut j: usize = 0;
        while j < n
            invariant
                self.valid(),
                n == self.node().directives@.len(),
                *node == self.node(),
                j <= n,
                out@.len() == j,
                forall|i: int| 0 <= i < j ==> (#[trigger] out@[i]).valid()
                    && out@[i].doc() == self.doc()
                    && out@[i].node() == self.doc().directives[
                        self.node().directives@[i].0 as int],
            decreases n - j,
        {
            proof {
                assert(object_definition_wf(
                    self.doc().object_definitions[self.0.id.0 as int], self.doc()));
            }
            let did = node.directives[j];
            proof {
                assert(did == self.node().directives@[j as int]);
                assert((self.node().directives@[j as int]).0 < self.doc().directives.len());
            }
            out.push(Directive(ReadContext { document: ast, id: did }));
            j = j + 1;
        }
        out
    }
}

impl Ast {
    /// A reader over the object definition behind `id`.
    pub fn read_object(&self, id: ObjectDefinitionId) -> (r: ObjectDefinition<'_>)
        requires
            self@.wf(),
            id.0 < self@.object_definitions.len(),
        ensures
            r.valid(),
            r.doc() == self@,
            r.node() == self@.object_definitions[id.0 as int],
    {
        ObjectDefinition(ReadContext { document: self, id })
    }
}

} // verus!
