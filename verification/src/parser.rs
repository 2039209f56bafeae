//! A recursive-descent parser for type-system documents, feeding the
//! builder. Parsing is a single pass; on any syntax error the whole parse
//! fails with `None`.
//!
//! The contracts work on two levels. Every function keeps the document
//! well-formed and only ever grows the arenas, so the finished document
//! satisfies `wf` by construction. On top of that, spec functions written
//! down here define the token and type-reference grammar (`ws_end`,
//! `name_end`, `digits_val`, `type_scan`), and the corresponding parsers
//! promise exactly what they store for the text they consume: interned
//! names and string bodies are the input slices, integers are the decimal
//! value of their digits, a parsed type reference is precisely what
//! `type_scan` yields, a stored value's kind and scalar payload match the
//! consumed text, and each definition parser appends one index entry of its
//! kind whose name is the input's name token. The full document grammar is
//! not written out as one spec function, so the whole-document round trip
//! is checked by tests rather than implied by the top-level contract.

use vstd::prelude::*;
use vstd::string::StrSliceExecFns;
use crate::ids::{StringId, TypeId, ValueId, DirectiveId, FieldDefinitionId,
    InputValueDefinitionId, EnumValueDefinitionId};
use crate::ast::{Ast, AstDefinition, Value, WrappingType, Type, Directive, Argument,
    SchemaDefinition, ScalarDefinition, ObjectDefinition, InterfaceDefinition, UnionDefinition,
    EnumDefinition, EnumValueDefinition, InputObjectDefinition, FieldDefinition,
    InputValueDefinition, RootOperationTypeDefinition, OperationType, grows, strings_prefix,
    string_ok,
    value_wf_at, directive_wf, argument_wf, type_wf, field_definition_wf,
    input_value_definition_wf, enum_value_definition_wf, schema_definition_wf,
    scalar_definition_wf, object_definition_wf, interface_definition_wf, union_definition_wf,
    enum_definition_wf, input_object_definition_wf};
use crate::builder::AstBuilder;
use crate::Span;

verus! {

/// Whether the code point is insignificant between tokens (whitespace or a
/// comma).
pub open spec fn is_ws_code(u: u32) -> bool {
    u == 32 || u == 9 || u == 10 || u == 13 || u == 44
}

pub open spec fn is_name_start_code(u: u32) -> bool {
    (65 <= u && u <= 90) || (97 <= u && u <= 122) || u == 95
}

pub open spec fn is_name_code(u: u32) -> bool {
    is_name_start_code(u) || (48 <= u && u <= 57)
}

/// The value of a run of decimal digits, most significant first.
pub open spec fn digits_val(s: Seq<char>) -> int
    decreases s.len(),
{
    if s.len() == 0 {
        0
    } else {
        digits_val(s.drop_last()) * 10 + (s.last() as u32 - 48)
    }
}

/// The first position at or after `pos` holding a significant character.
pub open spec fn ws_end(s: Seq<char>, pos: int) -> int
    decreases s.len() - pos
        when 0 <= pos <= s.len()
{
    if pos < s.len() && is_ws_code(s[pos] as u32) {
        ws_end(s, pos + 1)
    } else {
        pos
    }
}

/// The end of the run of name characters starting at `pos`.
pub open spec fn name_cont_end(s: Seq<char>, pos: int) -> int
    decreases s.len() - pos
        when 0 <= pos <= s.len()
{
    if pos < s.len() && is_name_code(s[pos] as u32) {
        name_cont_end(s, pos + 1)
    } else {
        pos
    }
}

/// The end of the name starting at `pos`, or `pos` when none starts there.
pub open spec fn name_end(s: Seq<char>, pos: int) -> int {
    if pos < s.len() && is_name_start_code(s[pos] as u32) {
        name_cont_end(s, pos + 1)
    } else {
        pos
    }
}

/// The type-reference grammar: after insignificant characters, a name or a
/// bracketed type, each optionally followed by `!`. Yields the end
/// position, the named type's text, and the wrappers innermost-first, so
/// `[String!]!` scans to `String` with `[NonNull, List, NonNull]`. `fuel`
/// bounds bracket nesting; the input length is always enough.
pub open spec fn type_scan(s: Seq<char>, pos: int, fuel: nat) -> Option<(
    int,
    Seq<char>,
    Seq<WrappingType>,
)>
    decreases fuel,
{
    let p = ws_end(s, pos);
    if !(0 <= p < s.len()) {
        None
    } else if s[p] as u32 == 91 {
        if fuel == 0 {
            None
        } else {
            match type_scan(s, p + 1, (fuel - 1) as nat) {
                None => None,
                Some((p2, nm, w)) => {
                    let p3 = ws_end(s, p2);
                    if 0 <= p3 < s.len() && s[p3] as u32 == 93 {
                        if p3 + 1 < s.len() && s[p3 + 1] as u32 == 33 {
                            Some((
                                p3 + 2,
                                nm,
                                w.push(WrappingType::List).push(WrappingType::NonNull),
                            ))
                        } else {
                            Some((p3 + 1, nm, w.push(WrappingType::List)))
                        }
                    } else {
                        None
                    }
                },
            }
        }
    } else {
        let e = name_end(s, p);
        if e == p {
            None
        } else {
            let nm = s.subrange(p, e);
            if e < s.len() && s[e] as u32 == 33 {
                Some((e + 1, nm, seq![WrappingType::NonNull]))
            } else {
                Some((e, nm, Seq::<WrappingType>::empty()))
            }
        }
    }
}

/// More fuel never changes a successful scan.
pub proof fn lemma_type_scan_fuel_mono(s: Seq<char>, pos: int, f1: nat, f2: nat)
    requires
        f1 <= f2,
        type_scan(s, pos, f1) matches Some(x),
    ensures
        type_scan(s, pos, f2) == type_scan(s, pos, f1),
    decreases f1,
{
    let p = ws_end(s, pos);
    if 0 <= p < s.len() && s[p] as u32 == 91 {
        lemma_type_scan_fuel_mono(s, p + 1, (f1 - 1) as nat, (f2 - 1) as nat);
    }
}

/// Skips whitespace; GraphQL treats commas as insignificant, so they are
/// skipped too.
#[verifier::loop_isolation(false)]
fn skip_ws(s: &str, pos: usize, n: usize) -> (r: usize)
    requires
        pos <= n,
        n == s@.len(),
    ensures
        pos <= r <= n,
        r == ws_end(s@, pos as int),
{
    let mut p = pos;
    while p < n
        invariant
            pos <= p <= n,
            ws_end(s@, pos as int) == ws_end(s@, p as int),
        decreases n - p,
    {
        let u = s.get_char(p) as u32;
        if u == 32 || u == 9 || u == 10 || u == 13 || u == 44 {
            proof {
                assert(ws_end(s@, p as int) == ws_end(s@, p as int + 1));
            }
            p = p + 1;
        } else {
            proof {
                assert(ws_end(s@, p as int) == p);
            }
            return p;
        }
    }
    proof {
        assert(ws_end(s@, p as int) == p);
    }
    p
}

fn is_name_start(u: u32) -> (r: bool)
    ensures
        r == is_name_start_code(u),
{
    (65 <= u && u <= 90) || (97 <= u && u <= 122) || u == 95
}

fn is_name_char(u: u32) -> (r: bool)
    ensures
        r == is_name_code(u),
{
    (65 <= u && u <= 90) || (97 <= u && u <= 122) || u == 95 || (48 <= u && u <= 57)
}

/// The end of the name starting at `pos`, or `pos` when no name starts
/// there.
#[verifier::loop_isolation(false)]
fn scan_name_end(s: &str, pos: usize, n: usize) -> (r: usize)
    requires
        pos <= n,
        n == s@.len(),
    ensures
        pos <= r <= n,
        r == name_end(s@, pos as int),
{
    if pos >= n {
        return pos;
    }
    if !is_name_start(s.get_char(pos) as u32) {
        return pos;
    }
    let mut p = pos + 1;
    while p < n
        invariant
            pos < p <= n,
            name_cont_end(s@, pos as int + 1) == name_cont_end(s@, p as int),
        decreases n - p,
    {
        if !is_name_char(s.get_char(p) as u32) {
            proof {
                assert(name_cont_end(s@, p as int) == p);
            }
            return p;
        }
        proof {
            assert(name_cont_end(s@, p as int) == name_cont_end(s@, p as int + 1));
        }
        p = p + 1;
    }
    proof {
        assert(name_cont_end(s@, p as int) == p);
    }
    p
}

/// Whether the characters in `from..to` are exactly the keyword.
#[verifier::loop_isolation(false)]
fn match_kw(s: &str, from: usize, to: usize, kw: &str) -> bool
    requires
        from <= to <= s@.len(),
{
    let klen = kw.unicode_len();
    if to - from != klen {
        return false;
    }
    let mut i: usize = 0;
    while i < klen
        invariant
            i <= klen,
            klen == kw@.len(),
            from + klen == to,
            to <= s@.len(),
        decreases klen - i,
    {
        if s.get_char(from + i) as u32 != kw.get_char(i) as u32 {
            return false;
        }
        i = i + 1;
    }
    true
}

/// Interns the name starting at `pos`.
fn parse_name(s: &str, pos: usize, n: usize, b: &mut AstBuilder) -> (r: Option<(usize, StringId)>)
    requires
        old(b).ast@.wf(),
        pos <= n,
        n == s@.len(),
    ensures
        final(b).ast@.wf(),
        grows(old(b).ast@, final(b).ast@),
        strings_prefix(old(b).ast@.strings, final(b).ast@.strings),
        r matches Some(x) ==> pos < x.0 <= n && string_ok(x.1, final(b).ast@)
            && x.0 == name_end(s@, pos as int)
            && final(b).ast@.strings[x.1.0 as int] == s@.subrange(pos as int, x.0 as int),
    decreases n - pos,
{
    let end = scan_name_end(s, pos, n);
    if end == pos {
        return None;
    }
    let txt = s.substring_char(pos, end);
    let sid = b.intern_string(txt);
    Some((end, sid))
}

/// Interns the body of the quoted string starting at `pos`; escape
/// sequences are not interpreted.
#[verifier::loop_isolation(false)]
fn parse_string(s: &str, pos: usize, n: usize, b: &mut AstBuilder) -> (r: Option<(
    usize,
    StringId,
)>)
    requires
        old(b).ast@.wf(),
        pos <= n,
        n == s@.len(),
    ensures
        final(b).ast@.wf(),
        grows(old(b).ast@, final(b).ast@),
        strings_prefix(old(b).ast@.strings, final(b).ast@.strings),
        r matches Some(x) ==> pos + 2 <= x.0 <= n && string_ok(x.1, final(b).ast@)
            && final(b).ast@.strings[x.1.0 as int] == s@.subrange(pos as int + 1, x.0 - 1),
{
    if pos >= n || s.get_char(pos) as u32 != 34 {
        return None;
    }
    let mut p = pos + 1;
    while p < n
        invariant
            pos + 1 <= p <= n,
            b.ast@ == old(b).ast@,
        decreases n - p,
    {
        let u = s.get_char(p) as u32;
        if u == 34 {
            let txt = s.substring_char(pos + 1, p);
            let sid = b.intern_string(txt);
            return Some((p + 1, sid));
        }
        if u == 92 {
            return None;
        }
        p = p + 1;
    }
    None
}

/// Parses an integer or float literal; a float keeps its source text.
#[verifier::loop_isolation(false)]
fn parse_number(s: &str, pos: usize, n: usize, b: &mut AstBuilder) -> (r: Option<(usize, Value)>)
    requires
        old(b).ast@.wf(),
        pos <= n,
        n == s@.len(),
    ensures
        final(b).ast@.wf(),
        grows(old(b).ast@, final(b).ast@),
        strings_prefix(old(b).ast@.strings, final(b).ast@.strings),
        r matches Some(x) ==> pos < x.0 <= n && (match x.1 {
            Value::Int(v) => (if s@[pos as int] as u32 == 45 {
                v as int == -digits_val(s@.subrange(pos as int + 1, x.0 as int))
            } else {
                v as int == digits_val(s@.subrange(pos as int, x.0 as int))
            }),
            Value::Float(sid) => string_ok(sid, final(b).ast@)
                && final(b).ast@.strings[sid.0 as int] == s@.subrange(pos as int, x.0 as int),
            _ => false,
        }),
{
    let mut p = pos;
    let mut neg = false;
    if p < n && s.get_char(p) as u32 == 45 {
        neg = true;
        p = p + 1;
    }
    let digits_start = p;
    while p < n
        invariant
            digits_start <= p <= n,
        decreases n - p,
    {
        let u = s.get_char(p) as u32;
        if !(48 <= u && u <= 57) {
            break;
        }
        p = p + 1;
    }
    if p == digits_start {
        return None;
    }
    let mut is_float = false;
    if p < n {
        let u = s.get_char(p) as u32;
        if u == 46 || u == 69 || u == 101 {
            is_float = true;
        }
    }
    if is_float {
        while p < n
            invariant
                digits_start < p <= n,
            decreases n - p,
        {
            let u = s.get_char(p) as u32;
            if (48 <= u && u <= 57) || u == 46 || u == 69 || u == 101 || u == 43 || u == 45 {
                p = p + 1;
            } else {
                break;
            }
        }
        let txt = s.substring_char(pos, p);
        let sid = b.intern_string(txt);
        return Some((p, Value::Float(sid)));
    }
    if p - digits_start > 10 {
        return None;
    }
    let mut acc: i64 = 0;
    let mut i = digits_start;
    proof {
        assert(s@.subrange(digits_start as int, digits_start as int)
            =~= Seq::<char>::empty());
    }
    while i < p
        invariant
            digits_start <= i <= p <= n,
            p - digits_start <= 10,
            0 <= acc,
            acc <= 99999999999,
            acc == digits_val(s@.subrange(digits_start as int, i as int)),
        decreases p - i,
    {
        let u = s.get_char(i) as u32;
        if !(48 <= u && u <= 57) {
            return None;
        }
        if acc > 9999999999 {
            return None;
        }
        acc = acc * 10 + ((u - 48) as i64);
        proof {
            assert(s@.subrange(digits_start as int, i as int + 1).drop_last()
                =~= s@.subrange(digits_start as int, i as int));
            assert(s@.subrange(digits_start as int, i as int + 1).last() == s@[i as int]);
        }
        i = i + 1;
    }
    if neg {
        if acc > 2147483648 {
            return None;
        }
        Some((p, Value::Int((-acc) as i32)))
    } else {
        if acc > 2147483647 {
            return None;
        }
        Some((p, Value::Int(acc as i32)))
    }
}

/// Parses a type reference: a name in arbitrarily nested list and non-null
/// wrappers, recorded innermost-first.
#[verifier::loop_isolation(false)]
fn parse_type_ref(s: &str, pos: usize, n: usize, b: &mut AstBuilder) -> (r: Option<(
    usize,
    StringId,
    Vec<WrappingType>,
)>)
    requires
        old(b).ast@.wf(),
        pos <= n,
        n == s@.len(),
    ensures
        final(b).ast@.wf(),
        grows(old(b).ast@, final(b).ast@),
        strings_prefix(old(b).ast@.strings, final(b).ast@.strings),
        r matches Some(x) ==> pos < x.0 <= n && string_ok(x.1, final(b).ast@)
            && (type_scan(s@, pos as int, (n - pos) as nat) matches Some(y)
                && x.0 == y.0
                && final(b).ast@.strings[x.1.0 as int] == y.1
                && x.2@ == y.2),
    decreases n - pos,
{
    let p = skip_ws(s, pos, n);
    if p >= n {
        return None;
    }
    if s.get_char(p) as u32 == 91 {
        let inner = parse_type_ref(s, p + 1, n, b);
        match inner {
            None => None,
            Some((p2, name, mut ws)) => {
                let p3 = skip_ws(s, p2, n);
                if p3 >= n || s.get_char(p3) as u32 != 93 {
                    return None;
                }
                let ghost w0 = ws@;
                let mut p4 = p3 + 1;
                ws.push(WrappingType::List);
                if p4 < n && s.get_char(p4) as u32 == 33 {
                    ws.push(WrappingType::NonNull);
                    p4 = p4 + 1;
                }
                proof {
                    lemma_type_scan_fuel_mono(
                        s@,
                        p as int + 1,
                        (n - (p + 1)) as nat,
                        ((n - pos) - 1) as nat,
                    );
                    assert(type_scan(s@, pos as int, (n - pos) as nat) == Some((
                        p4 as int,
                        b.ast@.strings[name.0 as int],
                        ws@,
                    )));
                }
                Some((p4, name, ws))
            },
        }
    } else {
        match parse_name(s, p, n, b) {
            None => None,
            Some((p2, sid)) => {
                let mut ws: Vec<WrappingType> = Vec::new();
                let mut p3 = p2;
                if p3 < n && s.get_char(p3) as u32 == 33 {
                    ws.push(WrappingType::NonNull);
                    p3 = p3 + 1;
                    proof {
                        assert(ws@ =~= seq![WrappingType::NonNull]);
                    }
                } else {
                    proof {
                        assert(ws@ =~= Seq::<WrappingType>::empty());
                    }
                }
                proof {
                    assert(type_scan(s@, pos as int, (n - pos) as nat) == Some((
                        p3 as int,
                        s@.subrange(p as int, p2 as int),
                        ws@,
                    )));
                }
                Some((p3, sid, ws))
            },
        }
    }
}

/// Parses a type reference and stores it, returning its handle. The stored
/// node holds exactly what the type grammar yields for the consumed text:
/// the named type's text and the wrappers innermost-first.
fn parse_type(s: &str, pos: usize, n: usize, b: &mut AstBuilder) -> (r: Option<(usize, TypeId)>)
    requires
        old(b).ast@.wf(),
        pos <= n,
        n == s@.len(),
    ensures
        final(b).ast@.wf(),
        grows(old(b).ast@, final(b).ast@),
        strings_prefix(old(b).ast@.strings, final(b).ast@.strings),
        r matches Some(x) ==> pos < x.0 <= n && x.1.0 < final(b).ast@.type_references.len()
            && (type_scan(s@, pos as int, (n - pos) as nat) matches Some(y)
                && x.0 == y.0
                && final(b).ast@.strings[
                    final(b).ast@.type_references[x.1.0 as int].name.0 as int] == y.1
                && final(b).ast@.type_references[x.1.0 as int].wrappers@ == y.2),
    decreases n - pos,
{
    match parse_type_ref(s, pos, n, b) {
        None => None,
        Some((p2, name, ws)) => {
            let ghost pre = b.ast@;
            let ghost gws = ws@;
            let ty = Type { name, wrappers: ws };
            proof {
                assert(type_wf(ty, pre));
            }
            let tid = b.type_reference(ty);
            proof {
                assert(b.ast@.type_references[tid.0 as int].name == name);
                assert(b.ast@.type_references[tid.0 as int].wrappers@ == gws);
            }
            Some((p2, tid))
        },
    }
}

/// What a stored value must look like given the text it was parsed from:
/// the value's kind is the one the first significant character announces,
/// and scalar payloads (integer value, float lexeme, string body, enum
/// name) are exactly what the consumed slice holds.
pub open spec fn value_head_matches(
    s: Seq<char>,
    pos: int,
    end: int,
    v: crate::ast::AstView,
    vid: ValueId,
) -> bool {
    let p = ws_end(s, pos);
    &&& p < s.len()
    &&& match v.values[vid.0 as int] {
        Value::Variable(sid) => s[p] as u32 == 36
            && v.strings[sid.0 as int] == s.subrange(p + 1, end),
        Value::Int(x) => (s[p] as u32 == 45 || (48 <= s[p] as u32 && s[p] as u32 <= 57))
            && (if s[p] as u32 == 45 {
                x as int == -digits_val(s.subrange(p + 1, end))
            } else {
                x as int == digits_val(s.subrange(p, end))
            }),
        Value::Float(sid) => (s[p] as u32 == 45 || (48 <= s[p] as u32 && s[p] as u32 <= 57))
            && v.strings[sid.0 as int] == s.subrange(p, end),
        Value::String(sid) => s[p] as u32 == 34
            && v.strings[sid.0 as int] == s.subrange(p + 1, end - 1),
        Value::Boolean(_) => is_name_start_code(s[p] as u32),
        Value::Null => is_name_start_code(s[p] as u32),
        Value::Enum(sid) => is_name_start_code(s[p] as u32)
            && v.strings[sid.0 as int] == s.subrange(p, end),
        Value::List(_) => s[p] as u32 == 91,
        Value::Object(_) => s[p] as u32 == 123,
    }
}

/// Parses one value; nested lists and objects recurse through handles that
/// already exist, so nesting is acyclic by construction.
#[verifier::loop_isolation(false)]
fn parse_value(s: &str, pos: usize, n: usize, b: &mut AstBuilder) -> (r: Option<(usize, ValueId)>)
    requires
        old(b).ast@.wf(),
        pos <= n,
        n == s@.len(),
    ensures
        final(b).ast@.wf(),
        grows(old(b).ast@, final(b).ast@),
        strings_prefix(old(b).ast@.strings, final(b).ast@.strings),
        r matches Some(x) ==> pos < x.0 <= n && x.1.0 < final(b).ast@.values.len()
            && value_head_matches(s@, pos as int, x.0 as int, final(b).ast@, x.1),
    decreases n - pos,
{
    let p = skip_ws(s, pos, n);
    if p >= n {
        return None;
    }
    let c = s.get_char(p) as u32;
    if c == 36 {
        match parse_name(s, p + 1, n, b) {
            None => None,
            Some((p2, sid)) => {
                let vid = push_value(b, Value::Variable(sid));
                Some((p2, vid))
            },
        }
    } else if c == 34 {
        match parse_string(s, p, n, b) {
            None => None,
            Some((p2, sid)) => {
                let vid = push_value(b, Value::String(sid));
                Some((p2, vid))
            },
        }
    } else if c == 45 || (48 <= c && c <= 57) {
        match parse_number(s, p, n, b) {
            None => None,
            Some((p2, v)) => {
                let vid = push_value(b, v);
                Some((p2, vid))
            },
        }
    } else if c == 91 {
        let mut p2 = p + 1;
        let mut ids: Vec<ValueId> = Vec::new();
        loop
            invariant
                b.ast@.wf(),
                grows(old(b).ast@, b.ast@),
                strings_prefix(old(b).ast@.strings, b.ast@.strings),
            strings_prefix(old(b).ast@.strings, b.ast@.strings),
                p < p2 <= n,
                forall|k: int| 0 <= k < ids@.len() ==> (#[trigger] ids@[k]).0 < b.ast@.values.len(),
            decreases n - p2,
        {
            let q = skip_ws(s, p2, n);
            if q >= n {
                return None;
            }
            if s.get_char(q) as u32 == 93 {
                let vid = push_value(b, Value::List(ids));
                return Some((q + 1, vid));
            }
            match parse_value(s, q, n, b) {
                None => {
                    return None;
                },
                Some((p3, vid)) => {
                    ids.push(vid);
                    p2 = p3;
                },
            }
        }
    } else if c == 123 {
        let mut p2 = p + 1;
        let mut entries: Vec<(StringId, ValueId)> = Vec::new();
        loop
            invariant
                b.ast@.wf(),
                grows(old(b).ast@, b.ast@),
                strings_prefix(old(b).ast@.strings, b.ast@.strings),
            strings_prefix(old(b).ast@.strings, b.ast@.strings),
                p < p2 <= n,
                forall|k: int| 0 <= k < entries@.len() ==> string_ok(
                    (#[trigger] entries@[k]).0, b.ast@)
                    && entries@[k].1.0 < b.ast@.values.len(),
            decreases n - p2,
        {
            let q = skip_ws(s, p2, n);
            if q >= n {
                return None;
            }
            if s.get_char(q) as u32 == 125 {
                let vid = push_value(b, Value::Object(entries));
                return Some((q + 1, vid));
            }
            let (q2, name) = match parse_name(s, q, n, b) {
                None => {
                    return None;
                },
                Some(x) => x,
            };
            let q3 = skip_ws(s, q2, n);
            if q3 >= n || s.get_char(q3) as u32 != 58 {
                return None;
            }
            match parse_value(s, q3 + 1, n, b) {
                None => {
                    return None;
                },
                Some((p3, vid)) => {
                    entries.push((name, vid));
                    p2 = p3;
                },
            }
        }
    } else {
        let end = scan_name_end(s, p, n);
        if end == p {
            return None;
        }
        if match_kw(s, p, end, "true") {
            let vid = push_value(b, Value::Boolean(true));
            Some((end, vid))
        } else if match_kw(s, p, end, "false") {
            let vid = push_value(b, Value::Boolean(false));
            Some((end, vid))
        } else if match_kw(s, p, end, "null") {
            let vid = push_value(b, Value::Null);
            Some((end, vid))
        } else {
            let txt = s.substring_char(p, end);
            let sid = b.intern_string(txt);
            let vid = push_value(b, Value::Enum(sid));
            Some((end, vid))
        }
    }
}

/// Stores a value whose text handles and children are already valid.
fn push_value(b: &mut AstBuilder, v: Value) -> (r: ValueId)
    requires
        old(b).ast@.wf(),
        value_wf_at(
            old(b).ast@.values.push(v),
            old(b).ast@.values.len() as int,
            old(b).ast@,
        ),
    ensures
        final(b).ast@.wf(),
        grows(old(b).ast@, final(b).ast@),
        strings_prefix(old(b).ast@.strings, final(b).ast@.strings),
        r.0 == old(b).ast@.values.len(),
        r.0 < final(b).ast@.values.len(),
        final(b).ast@.values[r.0 as int] == v,
        final(b).ast@.strings == old(b).ast@.strings,
{
    b.value(v)
}

/// Parses an optional leading description string.
fn parse_opt_description(s: &str, pos: usize, n: usize, b: &mut AstBuilder) -> (r: Option<(
    usize,
    Option<StringId>,
)>)
    requires
        old(b).ast@.wf(),
        pos <= n,
        n == s@.len(),
    ensures
        final(b).ast@.wf(),
        grows(old(b).ast@, final(b).ast@),
        strings_prefix(old(b).ast@.strings, final(b).ast@.strings),
        r matches Some(x) ==> pos <= x.0 <= n && crate::ast::opt_string_ok(x.1, final(b).ast@),
{
    if pos < n && s.get_char(pos) as u32 == 34 {
        match parse_string(s, pos, n, b) {
            None => None,
            Some((p2, sid)) => Some((p2, Some(sid))),
        }
    } else {
        Some((pos, None))
    }
}

/// Parses the arguments of a directive application, after the opening
/// parenthesis.
#[verifier::loop_isolation(false)]
fn parse_arguments(s: &str, pos: usize, n: usize, b: &mut AstBuilder) -> (r: Option<(
    usize,
    Vec<crate::ids::ArgumentId>,
)>)
    requires
        old(b).ast@.wf(),
        pos <= n,
        n == s@.len(),
    ensures
        final(b).ast@.wf(),
        grows(old(b).ast@, final(b).ast@),
        strings_prefix(old(b).ast@.strings, final(b).ast@.strings),
        r matches Some(x) ==> pos <= x.0 <= n && (forall|k: int|
            0 <= k < x.1@.len() ==> (#[trigger] x.1@[k]).0 < final(b).ast@.arguments.len()),
{
    let mut p = pos;
    let mut ids: Vec<crate::ids::ArgumentId> = Vec::new();
    loop
        invariant
            b.ast@.wf(),
            grows(old(b).ast@, b.ast@),
            strings_prefix(old(b).ast@.strings, b.ast@.strings),
            pos <= p <= n,
            forall|k: int| 0 <= k < ids@.len() ==> (#[trigger] ids@[k]).0
                < b.ast@.arguments.len(),
        decreases n - p,
    {
        let q = skip_ws(s, p, n);
        if q >= n {
            return None;
        }
        if s.get_char(q) as u32 == 41 {
            return Some((q + 1, ids));
        }
        let (q2, name) = match parse_name(s, q, n, b) {
            None => {
                return None;
            },
            Some(x) => x,
        };
        let q3 = skip_ws(s, q2, n);
        if q3 >= n || s.get_char(q3) as u32 != 58 {
            return None;
        }
        let (q4, vid) = match parse_value(s, q3 + 1, n, b) {
            None => {
                return None;
            },
            Some(x) => x,
        };
        let ghost pre = b.ast@;
        let arg = Argument { name, value: vid };
        proof {
            assert(argument_wf(arg, pre));
        }
        let aid = b.argument(arg);
        ids.push(aid);
        p = q4;
    }
}

/// Parses a possibly-empty run of directive applications.
#[verifier::loop_isolation(false)]
fn parse_directives(s: &str, pos: usize, n: usize, b: &mut AstBuilder) -> (r: Option<(
    usize,
    Vec<DirectiveId>,
)>)
    requires
        old(b).ast@.wf(),
        pos <= n,
        n == s@.len(),
    ensures
        final(b).ast@.wf(),
        grows(old(b).ast@, final(b).ast@),
        strings_prefix(old(b).ast@.strings, final(b).ast@.strings),
        r matches Some(x) ==> pos <= x.0 <= n && (forall|k: int|
            0 <= k < x.1@.len() ==> (#[trigger] x.1@[k]).0 < final(b).ast@.directives.len()),
{
    let mut p = pos;
    let mut ids: Vec<DirectiveId> = Vec::new();
    loop
        invariant
            b.ast@.wf(),
            grows(old(b).ast@, b.ast@),
            strings_prefix(old(b).ast@.strings, b.ast@.strings),
            pos <= p <= n,
            forall|k: int| 0 <= k < ids@.len() ==> (#[trigger] ids@[k]).0
                < b.ast@.directives.len(),
        decreases n - p,
    {
        let q = skip_ws(s, p, n);
        if q >= n || s.get_char(q) as u32 != 64 {
            return Some((p, ids));
        }
        let (q2, name) = match parse_name(s, q + 1, n, b) {
            None => {
                return None;
            },
            Some(x) => x,
        };
        let mut q3 = q2;
        let mut args: Vec<crate::ids::ArgumentId> = Vec::new();
        if q3 < n && s.get_char(q3) as u32 == 40 {
            let (q4, parsed) = match parse_arguments(s, q3 + 1, n, b) {
                None => {
                    return None;
                },
                Some(x) => x,
            };
            q3 = q4;
            args = parsed;
        }
        let ghost pre = b.ast@;
        let d = Directive { name, arguments: args };
        proof {
            assert(directive_wf(d, pre));
        }
        let did = b.directive(d);
        ids.push(did);
        p = q3;
    }
}

/// Parses one argument or input-object field definition.
#[verifier::loop_isolation(false)]
fn parse_input_value_def(s: &str, pos: usize, n: usize, b: &mut AstBuilder) -> (r: Option<(
    usize,
    InputValueDefinitionId,
)>)
    requires
        old(b).ast@.wf(),
        pos <= n,
        n == s@.len(),
    ensures
        final(b).ast@.wf(),
        grows(old(b).ast@, final(b).ast@),
        strings_prefix(old(b).ast@.strings, final(b).ast@.strings),
        r matches Some(x) ==> pos < x.0 <= n && x.1.0
            < final(b).ast@.input_value_definitions.len(),
{
    let p0 = skip_ws(s, pos, n);
    let (p1, desc) = match parse_opt_description(s, p0, n, b) {
        None => {
            return None;
        },
        Some(x) => x,
    };
    let p2 = skip_ws(s, p1, n);
    let (p3, name) = match parse_name(s, p2, n, b) {
        None => {
            return None;
        },
        Some(x) => x,
    };
    let p4 = skip_ws(s, p3, n);
    if p4 >= n || s.get_char(p4) as u32 != 58 {
        return None;
    }
    let (p5, ty) = match parse_type(s, p4 + 1, n, b) {
        None => {
            return None;
        },
        Some(x) => x,
    };
    let mut p6 = p5;
    let mut default: Option<ValueId> = None;
    let q = skip_ws(s, p6, n);
    if q < n && s.get_char(q) as u32 == 61 {
        let (q2, vid) = match parse_value(s, q + 1, n, b) {
            None => {
                return None;
            },
            Some(x) => x,
        };
        p6 = q2;
        default = Some(vid);
    }
    let (p7, directives) = match parse_directives(s, p6, n, b) {
        None => {
            return None;
        },
        Some(x) => x,
    };
    let ghost pre = b.ast@;
    let node = InputValueDefinition {
        name,
        ty,
        description: desc,
        default,
        directives,
        span: Span::new(pos, p7),
    };
    proof {
        assert(input_value_definition_wf(node, pre));
    }
    let id = b.input_value_definition(node);
    Some((p7, id))
}

/// Parses one field definition.
#[verifier::loop_isolation(false)]
fn parse_field_def(s: &str, pos: usize, n: usize, b: &mut AstBuilder) -> (r: Option<(
    usize,
    FieldDefinitionId,
)>)
    requires
        old(b).ast@.wf(),
        pos <= n,
        n == s@.len(),
    ensures
        final(b).ast@.wf(),
        grows(old(b).ast@, final(b).ast@),
        strings_prefix(old(b).ast@.strings, final(b).ast@.strings),
        r matches Some(x) ==> pos < x.0 <= n && x.1.0 < final(b).ast@.field_definitions.len(),
{
    let p0 = skip_ws(s, pos, n);
    let (p1, desc) = match parse_opt_description(s, p0, n, b) {
        None => {
            return None;
        },
        Some(x) => x,
    };
    let p2 = skip_ws(s, p1, n);
    let (p3, name) = match parse_name(s, p2, n, b) {
        None => {
            return None;
        },
        Some(x) => x,
    };
    let mut p4 = p3;
    let mut arguments: Vec<InputValueDefinitionId> = Vec::new();
    let q = skip_ws(s, p4, n);
    if q < n && s.get_char(q) as u32 == 40 {
        let mut p5 = q + 1;
        loop
            invariant
                b.ast@.wf(),
                grows(old(b).ast@, b.ast@),
                strings_prefix(old(b).ast@.strings, b.ast@.strings),
            strings_prefix(old(b).ast@.strings, b.ast@.strings),
                pos < p5 <= n,
                string_ok(name, b.ast@),
                crate::ast::opt_string_ok(desc, b.ast@),
                forall|k: int| 0 <= k < arguments@.len() ==> (#[trigger] arguments@[k]).0
                    < b.ast@.input_value_definitions.len(),
            decreases n - p5,
        {
            let q2 = skip_ws(s, p5, n);
            if q2 >= n {
                return None;
            }
            if s.get_char(q2) as u32 == 41 {
                p4 = q2 + 1;
                break;
            }
            let (q3, aid) = match parse_input_value_def(s, q2, n, b) {
                None => {
                    return None;
                },
                Some(x) => x,
            };
            arguments.push(aid);
            p5 = q3;
        }
    }
    let p6 = skip_ws(s, p4, n);
    if p6 >= n || s.get_char(p6) as u32 != 58 {
        return None;
    }
    let (p7, ty) = match parse_type(s, p6 + 1, n, b) {
        None => {
            return None;
        },
        Some(x) => x,
    };
    let (p8, directives) = match parse_directives(s, p7, n, b) {
        None => {
            return None;
        },
        Some(x) => x,
    };
    let ghost pre = b.ast@;
    let node = FieldDefinition {
        name,
        ty,
        arguments,
        description: desc,
        directives,
        span: Span::new(pos, p8),
    };
    proof {
        assert(field_definition_wf(node, pre));
    }
    let id = b.field_definition(node);
    Some((p8, id))
}

/// Parses an optional braced block of field definitions.
#[verifier::loop_isolation(false)]
fn parse_fields_block(s: &str, pos: usize, n: usize, b: &mut AstBuilder) -> (r: Option<(
    usize,
    Vec<FieldDefinitionId>,
)>)
    requires
        old(b).ast@.wf(),
        pos <= n,
        n == s@.len(),
    ensures
        final(b).ast@.wf(),
        grows(old(b).ast@, final(b).ast@),
        strings_prefix(old(b).ast@.strings, final(b).ast@.strings),
        r matches Some(x) ==> pos <= x.0 <= n && (forall|k: int|
            0 <= k < x.1@.len() ==> (#[trigger] x.1@[k]).0
                < final(b).ast@.field_definitions.len()),
{
    let mut fields: Vec<FieldDefinitionId> = Vec::new();
    let q = skip_ws(s, pos, n);
    if q >= n || s.get_char(q) as u32 != 123 {
        return Some((pos, fields));
    }
    let mut p = q + 1;
    loop
        invariant
            b.ast@.wf(),
            grows(old(b).ast@, b.ast@),
            strings_prefix(old(b).ast@.strings, b.ast@.strings),
            pos < p <= n,
            forall|k: int| 0 <= k < fields@.len() ==> (#[trigger] fields@[k]).0
                < b.ast@.field_definitions.len(),
        decreases n - p,
    {
        let q2 = skip_ws(s, p, n);
        if q2 >= n {
            return None;
        }
        if s.get_char(q2) as u32 == 125 {
            return Some((q2 + 1, fields));
        }
        let (q3, fid) = match parse_field_def(s, q2, n, b) {
            None => {
                return None;
            },
            Some(x) => x,
        };
        fields.push(fid);
        p = q3;
    }
}

/// Parses an optional `implements` clause.
#[verifier::loop_isolation(false)]
fn parse_implements(s: &str, pos: usize, n: usize, b: &mut AstBuilder) -> (r: Option<(
    usize,
    Vec<StringId>,
)>)
    requires
        old(b).ast@.wf(),
        pos <= n,
        n == s@.len(),
    ensures
        final(b).ast@.wf(),
        grows(old(b).ast@, final(b).ast@),
        strings_prefix(old(b).ast@.strings, final(b).ast@.strings),
        r matches Some(x) ==> pos <= x.0 <= n && (forall|k: int|
            0 <= k < x.1@.len() ==> string_ok(#[trigger] x.1@[k], final(b).ast@)),
{
    let mut names: Vec<StringId> = Vec::new();
    let q = skip_ws(s, pos, n);
    let end = scan_name_end(s, q, n);
    if !(end > q && match_kw(s, q, end, "implements")) {
        return Some((pos, names));
    }
    let (p1, first) = match parse_name(s, skip_ws(s, end, n), n, b) {
        None => {
            return None;
        },
        Some(x) => x,
    };
    names.push(first);
    let mut p = p1;
    loop
        invariant
            b.ast@.wf(),
            grows(old(b).ast@, b.ast@),
            strings_prefix(old(b).ast@.strings, b.ast@.strings),
            pos < p <= n,
            forall|k: int| 0 <= k < names@.len() ==> string_ok(
                #[trigger] names@[k], b.ast@),
        decreases n - p,
    {
        let q2 = skip_ws(s, p, n);
        if q2 >= n || s.get_char(q2) as u32 != 38 {
            return Some((p, names));
        }
        let (q3, nm) = match parse_name(s, skip_ws(s, q2 + 1, n), n, b) {
            None => {
                return None;
            },
            Some(x) => x,
        };
        names.push(nm);
        p = q3;
    }
}

/// Parses everything of an object definition after the `type` keyword.
#[verifier::loop_isolation(false)]
fn parse_object_def(
    s: &str,
    pos: usize,
    n: usize,
    b: &mut AstBuilder,
    desc: Option<StringId>,
) -> (r: Option<usize>)
    requires
        old(b).ast@.wf(),
        pos <= n,
        n == s@.len(),
        crate::ast::opt_string_ok(desc, old(b).ast@),
    ensures
        final(b).ast@.wf(),
        grows(old(b).ast@, final(b).ast@),
        strings_prefix(old(b).ast@.strings, final(b).ast@.strings),
        r matches Some(np) ==> pos < np <= n && ({
            let q = ws_end(s@, pos as int);
            let v = final(b).ast@;
            &&& v.definitions.len() > old(b).ast@.definitions.len()
            &&& (v.definitions.last() matches AstDefinition::Object(did)
                && did.0 < v.object_definitions.len()
                && v.strings[v.object_definitions[did.0 as int].name.0 as int]
                    == s@.subrange(q, name_end(s@, q))
                && v.object_definitions[did.0 as int].description == desc)
        }),
{
    let (p1, name) = match parse_name(s, skip_ws(s, pos, n), n, b) {
        None => {
            return None;
        },
        Some(x) => x,
    };
    let (p2, implements) = match parse_implements(s, p1, n, b) {
        None => {
            return None;
        },
        Some(x) => x,
    };
    let (p3, directives) = match parse_directives(s, p2, n, b) {
        None => {
            return None;
        },
        Some(x) => x,
    };
    let (p4, fields) = match parse_fields_block(s, p3, n, b) {
        None => {
            return None;
        },
        Some(x) => x,
    };
    let ghost pre = b.ast@;
    let node = ObjectDefinition {
        name,
        description: desc,
        fields,
        directives,
        implements,
        span: Span::new(pos, p4),
    };
    let ghost gnode = node;
    proof {
        assert(object_definition_wf(node, pre));
    }
    b.object_definition(node);
    proof {
        assert(b.ast@.object_definitions[pre.object_definitions.len() as int] == gnode);
        assert(b.ast@.definitions.last() == AstDefinition::Object(
            crate::ids::ObjectDefinitionId(pre.object_definitions.len() as usize)));
    }
    Some(p4)
}

/// Parses everything of an interface definition after the keyword.
#[verifier::loop_isolation(false)]
fn parse_interface_def(
    s: &str,
    pos: usize,
    n: usize,
    b: &mut AstBuilder,
    desc: Option<StringId>,
) -> (r: Option<usize>)
    requires
        old(b).ast@.wf(),
        pos <= n,
        n == s@.len(),
        crate::ast::opt_string_ok(desc, old(b).ast@),
    ensures
        final(b).ast@.wf(),
        grows(old(b).ast@, final(b).ast@),
        strings_prefix(old(b).ast@.strings, final(b).ast@.strings),
        r matches Some(np) ==> pos < np <= n && ({
            let q = ws_end(s@, pos as int);
            let v = final(b).ast@;
            &&& v.definitions.len() > old(b).ast@.definitions.len()
            &&& (v.definitions.last() matches AstDefinition::Interface(did)
                && did.0 < v.interface_definitions.len()
                && v.strings[v.interface_definitions[did.0 as int].name.0 as int]
                    == s@.subrange(q, name_end(s@, q))
                && v.interface_definitions[did.0 as int].description == desc)
        }),
{
    let (p1, name) = match parse_name(s, skip_ws(s, pos, n), n, b) {
        None => {
            return None;
        },
        Some(x) => x,
    };
    let (p2, implements) = match parse_implements(s, p1, n, b) {
        None => {
            return None;
        },
        Some(x) => x,
    };
    let (p3, directives) = match parse_directives(s, p2, n, b) {
        None => {
            return None;
        },
        Some(x) => x,
    };
    let (p4, fields) = match parse_fields_block(s, p3, n, b) {
        None => {
            return None;
        },
        Some(x) => x,
    };
    let ghost pre = b.ast@;
    let node = InterfaceDefinition {
        name,
        description: desc,
        fields,
        directives,
        implements,
        span: Span::new(pos, p4),
    };
    let ghost gnode = node;
    proof {
        assert(interface_definition_wf(node, pre));
    }
    b.interface_definition(node);
    proof {
        assert(b.ast@.interface_definitions[pre.interface_definitions.len() as int] == gnode);
        assert(b.ast@.definitions.last() == AstDefinition::Interface(
            crate::ids::InterfaceDefinitionId(pre.interface_definitions.len() as usize)));
    }
    Some(p4)
}

/// Parses everything of a scalar definition after the keyword.
fn parse_scalar_def(
    s: &str,
    pos: usize,
    n: usize,
    b: &mut AstBuilder,
    desc: Option<StringId>,
) -> (r: Option<usize>)
    requires
        old(b).ast@.wf(),
        pos <= n,
        n == s@.len(),
        crate::ast::opt_string_ok(desc, old(b).ast@),
    ensures
        final(b).ast@.wf(),
        grows(old(b).ast@, final(b).ast@),
        strings_prefix(old(b).ast@.strings, final(b).ast@.strings),
        r matches Some(np) ==> pos < np <= n && ({
            let q = ws_end(s@, pos as int);
            let v = final(b).ast@;
            &&& v.definitions.len() > old(b).ast@.definitions.len()
            &&& (v.definitions.last() matches AstDefinition::Scalar(did)
                && did.0 < v.scalar_definitions.len()
                && v.strings[v.scalar_definitions[did.0 as int].name.0 as int]
                    == s@.subrange(q, name_end(s@, q))
                && v.scalar_definitions[did.0 as int].description == desc)
        }),
{
    let (p1, name) = match parse_name(s, skip_ws(s, pos, n), n, b) {
        None => {
            return None;
        },
        Some(x) => x,
    };
    let (p2, directives) = match parse_directives(s, p1, n, b) {
        None => {
            return None;
        },
        Some(x) => x,
    };
    let ghost pre = b.ast@;
    let node = ScalarDefinition {
        name,
        description: desc,
        directives,
        span: Span::new(pos, p2),
    };
    let ghost gnode = node;
    proof {
        assert(scalar_definition_wf(node, pre));
    }
    b.scalar_definition(node);
    proof {
        assert(b.ast@.scalar_definitions[pre.scalar_definitions.len() as int] == gnode);
        assert(b.ast@.definitions.last() == AstDefinition::Scalar(
            crate::ids::ScalarDefinitionId(pre.scalar_definitions.len() as usize)));
    }
    Some(p2)
}

/// Parses everything of a union definition after the keyword.
#[verifier::loop_isolation(false)]
fn parse_union_def(
    s: &str,
    pos: usize,
    n: usize,
    b: &mut AstBuilder,
    desc: Option<StringId>,
) -> (r: Option<usize>)
    requires
        old(b).ast@.wf(),
        pos <= n,
        n == s@.len(),
        crate::ast::opt_string_ok(desc, old(b).ast@),
    ensures
        final(b).ast@.wf(),
        grows(old(b).ast@, final(b).ast@),
        strings_prefix(old(b).ast@.strings, final(b).ast@.strings),
        r matches Some(np) ==> pos < np <= n && ({
            let q = ws_end(s@, pos as int);
            let v = final(b).ast@;
            &&& v.definitions.len() > old(b).ast@.definitions.len()
            &&& (v.definitions.last() matches AstDefinition::Union(did)
                && did.0 < v.union_definitions.len()
                && v.strings[v.union_definitions[did.0 as int].name.0 as int]
                    == s@.subrange(q, name_end(s@, q))
                && v.union_definitions[did.0 as int].description == desc)
        }),
{
    let (p1, name) = match parse_name(s, skip_ws(s, pos, n), n, b) {
        None => {
            return None;
        },
        Some(x) => x,
    };
    let (p2, directives) = match parse_directives(s, p1, n, b) {
        None => {
            return None;
        },
        Some(x) => x,
    };
    let mut members: Vec<StringId> = Vec::new();
    let mut p3 = p2;
    let q = skip_ws(s, p2, n);
    if q < n && s.get_char(q) as u32 == 61 {
        let (q2, first) = match parse_name(s, skip_ws(s, q + 1, n), n, b) {
            None => {
                return None;
            },
            Some(x) => x,
        };
        members.push(first);
        p3 = q2;
        loop
            invariant
                b.ast@.wf(),
                grows(old(b).ast@, b.ast@),
                strings_prefix(old(b).ast@.strings, b.ast@.strings),
            strings_prefix(old(b).ast@.strings, b.ast@.strings),
                pos < p3 <= n,
                string_ok(name, b.ast@),
                b.ast@.strings[name.0 as int] == s@.subrange(
                    ws_end(s@, pos as int),
                    name_end(s@, ws_end(s@, pos as int)),
                ),
                crate::ast::opt_string_ok(desc, b.ast@),
                crate::ast::directive_list_ok(directives@, b.ast@),
                forall|k: int| 0 <= k < members@.len() ==> string_ok(
                    #[trigger] members@[k], b.ast@),
            decreases n - p3,
        {
            let q3 = skip_ws(s, p3, n);
            if q3 >= n || s.get_char(q3) as u32 != 124 {
                break;
            }
            let (q4, nm) = match parse_name(s, skip_ws(s, q3 + 1, n), n, b) {
                None => {
                    return None;
                },
                Some(x) => x,
            };
            members.push(nm);
            p3 = q4;
        }
    }
    let ghost pre = b.ast@;
    let node = UnionDefinition {
        name,
        description: desc,
        members,
        directives,
        span: Span::new(pos, p3),
    };
    let ghost gnode = node;
    proof {
        assert(union_definition_wf(node, pre));
    }
    b.union_definition(node);
    proof {
        assert(b.ast@.union_definitions[pre.union_definitions.len() as int] == gnode);
        assert(b.ast@.definitions.last() == AstDefinition::Union(
            crate::ids::UnionDefinitionId(pre.union_definitions.len() as usize)));
    }
    Some(p3)
}

/// Parses everything of an enum definition after the keyword.
#[verifier::loop_isolation(false)]
fn parse_enum_def(
    s: &str,
    pos: usize,
    n: usize,
    b: &mut AstBuilder,
    desc: Option<StringId>,
) -> (r: Option<usize>)
    requires
        old(b).ast@.wf(),
        pos <= n,
        n == s@.len(),
        crate::ast::opt_string_ok(desc, old(b).ast@),
    ensures
        final(b).ast@.wf(),
        grows(old(b).ast@, final(b).ast@),
        strings_prefix(old(b).ast@.strings, final(b).ast@.strings),
        r matches Some(np) ==> pos < np <= n && ({
            let q = ws_end(s@, pos as int);
            let v = final(b).ast@;
            &&& v.definitions.len() > old(b).ast@.definitions.len()
            &&& (v.definitions.last() matches AstDefinition::Enum(did)
                && did.0 < v.enum_definitions.len()
                && v.strings[v.enum_definitions[did.0 as int].name.0 as int]
                    == s@.subrange(q, name_end(s@, q))
                && v.enum_definitions[did.0 as int].description == desc)
        }),
{
    let (p1, name) = match parse_name(s, skip_ws(s, pos, n), n, b) {
        None => {
            return None;
        },
        Some(x) => x,
    };
    let (p2, directives) = match parse_directives(s, p1, n, b) {
        None => {
            return None;
        },
        Some(x) => x,
    };
    let mut values: Vec<EnumValueDefinitionId> = Vec::new();
    let mut p3 = p2;
    let q = skip_ws(s, p2, n);
    if q < n && s.get_char(q) as u32 == 123 {
        let mut p4 = q + 1;
        loop
            invariant
                b.ast@.wf(),
                grows(old(b).ast@, b.ast@),
                strings_prefix(old(b).ast@.strings, b.ast@.strings),
            strings_prefix(old(b).ast@.strings, b.ast@.strings),
                pos < p4 <= n,
                string_ok(name, b.ast@),
                b.ast@.strings[name.0 as int] == s@.subrange(
                    ws_end(s@, pos as int),
                    name_end(s@, ws_end(s@, pos as int)),
                ),
                crate::ast::opt_string_ok(desc, b.ast@),
                crate::ast::directive_list_ok(directives@, b.ast@),
                forall|k: int| 0 <= k < values@.len() ==> (#[trigger] values@[k]).0
                    < b.ast@.enum_value_definitions.len(),
            decreases n - p4,
        {
            let q2 = skip_ws(s, p4, n);
            if q2 >= n {
                return None;
            }
            if s.get_char(q2) as u32 == 125 {
                p3 = q2 + 1;
                break;
            }
            let (q3, vdesc) = match parse_opt_description(s, q2, n, b) {
                None => {
                    return None;
                },
                Some(x) => x,
            };
            let (q4, vname) = match parse_name(s, skip_ws(s, q3, n), n, b) {
                None => {
                    return None;
                },
                Some(x) => x,
            };
            let (q5, vdirectives) = match parse_directives(s, q4, n, b) {
                None => {
                    return None;
                },
                Some(x) => x,
            };
            let ghost pre = b.ast@;
            let vnode = EnumValueDefinition {
                value: vname,
                description: vdesc,
                directives: vdirectives,
                span: Span::new(q2, q5),
            };
            proof {
                assert(enum_value_definition_wf(vnode, pre));
            }
            let vid = b.enum_value_definition(vnode);
            values.push(vid);
            p4 = q5;
        }
    }
    let ghost pre = b.ast@;
    let node = EnumDefinition {
        name,
        description: desc,
        values,
        directives,
        span: Span::new(pos, p3),
    };
    let ghost gnode = node;
    proof {
        assert(enum_definition_wf(node, pre));
    }
    b.enum_definition(node);
    proof {
        assert(b.ast@.enum_definitions[pre.enum_definitions.len() as int] == gnode);
        assert(b.ast@.definitions.last() == AstDefinition::Enum(
            crate::ids::EnumDefinitionId(pre.enum_definitions.len() as usize)));
    }
    Some(p3)
}

/// Parses everything of an input object definition after the keyword.
#[verifier::loop_isolation(false)]
fn parse_input_object_def(
    s: &str,
    pos: usize,
    n: usize,
    b: &mut AstBuilder,
    desc: Option<StringId>,
) -> (r: Option<usize>)
    requires
        old(b).ast@.wf(),
        pos <= n,
        n == s@.len(),
        crate::ast::opt_string_ok(desc, old(b).ast@),
    ensures
        final(b).ast@.wf(),
        grows(old(b).ast@, final(b).ast@),
        strings_prefix(old(b).ast@.strings, final(b).ast@.strings),
        r matches Some(np) ==> pos < np <= n && ({
            let q = ws_end(s@, pos as int);
            let v = final(b).ast@;
            &&& v.definitions.len() > old(b).ast@.definitions.len()
            &&& (v.definitions.last() matches AstDefinition::InputObject(did)
                && did.0 < v.input_object_definitions.len()
                && v.strings[v.input_object_definitions[did.0 as int].name.0 as int]
                    == s@.subrange(q, name_end(s@, q))
                && v.input_object_definitions[did.0 as int].description == desc)
        }),
{
    let (p1, name) = match parse_name(s, skip_ws(s, pos, n), n, b) {
        None => {
            return None;
        },
        Some(x) => x,
    };
    let (p2, directives) = match parse_directives(s, p1, n, b) {
        None => {
            return None;
        },
        Some(x) => x,
    };
    let mut fields: Vec<InputValueDefinitionId> = Vec::new();
    let mut p3 = p2;
    let q = skip_ws(s, p2, n);
    if q < n && s.get_char(q) as u32 == 123 {
        let mut p4 = q + 1;
        loop
            invariant
                b.ast@.wf(),
                grows(old(b).ast@, b.ast@),
                strings_prefix(old(b).ast@.strings, b.ast@.strings),
            strings_prefix(old(b).ast@.strings, b.ast@.strings),
                pos < p4 <= n,
                string_ok(name, b.ast@),
                b.ast@.strings[name.0 as int] == s@.subrange(
                    ws_end(s@, pos as int),
                    name_end(s@, ws_end(s@, pos as int)),
                ),
                crate::ast::opt_string_ok(desc, b.ast@),
                crate::ast::directive_list_ok(directives@, b.ast@),
                forall|k: int| 0 <= k < fields@.len() ==> (#[trigger] fields@[k]).0
                    < b.ast@.input_value_definitions.len(),
            decreases n - p4,
        {
            let q2 = skip_ws(s, p4, n);
            if q2 >= n {
                return None;
            }
            if s.get_char(q2) as u32 == 125 {
                p3 = q2 + 1;
                break;
            }
            let (q3, fid) = match parse_input_value_def(s, q2, n, b) {
                None => {
                    return None;
                },
                Some(x) => x,
            };
            fields.push(fid);
            p4 = q3;
        }
    }
    let ghost pre = b.ast@;
    let node = InputObjectDefinition {
        name,
        description: desc,
        fields,
        directives,
        span: Span::new(pos, p3),
    };
    let ghost gnode = node;
    proof {
        assert(input_object_definition_wf(node, pre));
    }
    b.input_object_definition(node);
    proof {
        assert(b.ast@.input_object_definitions[pre.input_object_definitions.len() as int] == gnode);
        assert(b.ast@.definitions.last() == AstDefinition::InputObject(
            crate::ids::InputObjectDefinitionId(pre.input_object_definitions.len() as usize)));
    }
    Some(p3)
}

/// Parses everything of a schema definition after the keyword.
#[verifier::loop_isolation(false)]
fn parse_schema_def(
    s: &str,
    pos: usize,
    n: usize,
    b: &mut AstBuilder,
    desc: Option<StringId>,
) -> (r: Option<usize>)
    requires
        old(b).ast@.wf(),
        pos <= n,
        n == s@.len(),
        crate::ast::opt_string_ok(desc, old(b).ast@),
    ensures
        final(b).ast@.wf(),
        grows(old(b).ast@, final(b).ast@),
        strings_prefix(old(b).ast@.strings, final(b).ast@.strings),
        r matches Some(np) ==> pos < np <= n && ({
            let v = final(b).ast@;
            &&& v.definitions.len() > old(b).ast@.definitions.len()
            &&& (v.definitions.last() matches AstDefinition::Schema(did)
                && did.0 < v.schema_definitions.len()
                && v.schema_definitions[did.0 as int].description == desc)
        }),
{
    let q = skip_ws(s, pos, n);
    if q >= n || s.get_char(q) as u32 != 123 {
        return None;
    }
    let mut roots: Vec<RootOperationTypeDefinition> = Vec::new();
    let mut p = q + 1;
    loop
        invariant
            b.ast@.wf(),
            grows(old(b).ast@, b.ast@),
            strings_prefix(old(b).ast@.strings, b.ast@.strings),
            pos < p <= n,
            crate::ast::opt_string_ok(desc, b.ast@),
            forall|k: int| 0 <= k < roots@.len() ==> string_ok(
                (#[trigger] roots@[k]).named_type, b.ast@),
        decreases n - p,
    {
        let q2 = skip_ws(s, p, n);
        if q2 >= n {
            return None;
        }
        if s.get_char(q2) as u32 == 125 {
            let ghost pre = b.ast@;
            let node = SchemaDefinition { description: desc, roots };
            let ghost gnode = node;
            proof {
                assert(schema_definition_wf(node, pre));
            }
            b.schema_definition(node);
            proof {
                assert(b.ast@.schema_definitions[pre.schema_definitions.len() as int] == gnode);
                assert(b.ast@.definitions.last() == AstDefinition::Schema(
                    crate::ids::SchemaDefinitionId(pre.schema_definitions.len() as usize)));
            }
            return Some(q2 + 1);
        }
        let end = scan_name_end(s, q2, n);
        if end == q2 {
            return None;
        }
        let op = if match_kw(s, q2, end, "query") {
            OperationType::Query
        } else if match_kw(s, q2, end, "mutation") {
            OperationType::Mutation
        } else if match_kw(s, q2, end, "subscription") {
            OperationType::Subscription
        } else {
            return None;
        };
        let q3 = skip_ws(s, end, n);
        if q3 >= n || s.get_char(q3) as u32 != 58 {
            return None;
        }
        let (q4, nm) = match parse_name(s, skip_ws(s, q3 + 1, n), n, b) {
            None => {
                return None;
            },
            Some(x) => x,
        };
        roots.push(RootOperationTypeDefinition { operation_type: op, named_type: nm });
        p = q4;
    }
}

/// Parses a whole type-system document. On success the document is
/// well-formed, so every reader and the printer can be used on it; on any
/// syntax error the parse fails as a whole with `None`. Empty input yields
/// exactly the empty document, and only input with no significant
/// characters can yield a document without definitions; what each
/// definition holds is stated on the definition parsers above.
#[verifier::loop_isolation(false)]
pub fn parse_type_system_document(input: &str) -> (r: Option<Ast>)
    ensures
        r matches Some(a) ==> a@.wf(),
        input@.len() == 0 ==> (r matches Some(a) && a@ == crate::ast::empty_ast_view()),
        r matches Some(a) && a@.definitions.len() == 0 ==> ws_end(input@, 0) == input@.len(),
{
    let n = input.unicode_len();
    let mut b = AstBuilder::new();
    if n == 0 {
        return Some(b.finish());
    }
    let mut p: usize = 0;
    loop
        invariant
            b.ast@.wf(),
            p <= n,
            n == input@.len(),
            p == 0 || b.ast@.definitions.len() > 0,
            p == 0 ==> b.ast@ == crate::ast::empty_ast_view(),
        decreases n - p,
    {
        let q = skip_ws(input, p, n);
        if q >= n {
            return Some(b.finish());
        }
        let (q1, desc) = match parse_opt_description(input, q, n, &mut b) {
            None => {
                return None;
            },
            Some(x) => x,
        };
        let q2 = skip_ws(input, q1, n);
        let end = scan_name_end(input, q2, n);
        if end == q2 {
            return None;
        }
        let np = if match_kw(input, q2, end, "schema") {
            parse_schema_def(input, end, n, &mut b, desc)
        } else if match_kw(input, q2, end, "scalar") {
            parse_scalar_def(input, end, n, &mut b, desc)
        } else if match_kw(input, q2, end, "type") {
            parse_object_def(input, end, n, &mut b, desc)
        } else if match_kw(input, q2, end, "interface") {
            parse_interface_def(input, end, n, &mut b, desc)
        } else if match_kw(input, q2, end, "union") {
            parse_union_def(input, end, n, &mut b, desc)
        } else if match_kw(input, q2, end, "enum") {
            parse_enum_def(input, end, n, &mut b, desc)
        } else if match_kw(input, q2, end, "input") {
            parse_input_object_def(input, end, n, &mut b, desc)
        } else {
            return None;
        };
        match np {
            None => {
                return None;
            },
            Some(x) => {
                p = x;
            },
        }
    }
}

} // verus!
