use vstd::prelude::*;

use super::stack_effect::{SpecStackEffect, StackEffect};
use crate::parser::tree::{Literal, SpecLiteral};
use crate::utils::{chars_of, owned};

verus! {

/// What an opaque (built-in) type holds.
#[derive(Debug, Clone, Copy, PartialEq, Eq, Structural)]
pub enum OpaqueTypeKind {
    UnsignedInt,
    SignedInt,
    Float,
    Bool,
    Str,
    Array,
}

/// A type of the tower language.
#[derive(Debug, PartialEq)]
pub enum Type {
    Opaque { size: Option<usize>, kind: OpaqueTypeKind },
    /// A struct or enum: its name, its fields (sorted by name, each name once), and whether
    /// it is a sum type/enum (true) or product type/struct (false).
    Transparent { name: String, fields: Vec<(String, Type)>, sum_type: bool },
    Reference { to: Box<Type> },
    Generic { name: String },
    Function { name: String, effect: StackEffect },
}

/// The mathematical value of a `Type`.
pub enum SpecType {
    Opaque { size: Option<usize>, kind: OpaqueTypeKind },
    Transparent { name: Seq<char>, fields: Seq<(Seq<char>, SpecType)>, sum_type: bool },
    Reference { to: Box<SpecType> },
    Generic { name: Seq<char> },
    Function { name: Seq<char>, effect: SpecStackEffect },
}

/// A placeholder type, the value of out-of-range positions.
pub open spec fn no_type() -> SpecType {
    SpecType::Generic { name: Seq::empty() }
}

pub open spec fn view_type(t: Type) -> SpecType
    decreases t,
{
    match t {
        Type::Opaque { size, kind } => SpecType::Opaque { size, kind },
        Type::Transparent { name, fields, sum_type } => SpecType::Transparent {
            name: name@,
            fields: Seq::new(
                fields.len() as nat,
                |i: int| if 0 <= i < fields.len() {
                    (fields@[i].0@, view_type(fields@[i].1))
                } else {
                    (Seq::empty(), no_type())
                },
            ),
            sum_type,
        },
        Type::Reference { to } => SpecType::Reference { to: Box::new(view_type(*to)) },
        Type::Generic { name } => SpecType::Generic { name: name@ },
        Type::Function { name, effect } => SpecType::Function { name: name@, effect: view_effect(effect) },
    }
}

pub open spec fn view_types(v: Vec<Type>) -> Seq<SpecType> {
    Seq::new(v.len() as nat, |i: int| if 0 <= i < v.len() { view_type(v@[i]) } else { no_type() })
}

pub open spec fn view_effect(e: StackEffect) -> SpecStackEffect
    decreases e,
{
    SpecStackEffect {
        pushed: Seq::new(
            e.pushed.len() as nat,
            |i: int| if 0 <= i < e.pushed.len() { view_type(e.pushed@[i]) } else { no_type() },
        ),
        popped: Seq::new(
            e.popped.len() as nat,
            |i: int| if 0 <= i < e.popped.len() { view_type(e.popped@[i]) } else { no_type() },
        ),
    }
}

impl View for Type {
    type V = SpecType;

    open spec fn view(&self) -> SpecType {
        view_type(*self)
    }
}

/// The view of a list of named types.
pub open spec fn view_fields(v: Seq<(String, Type)>) -> Seq<(Seq<char>, SpecType)> {
    Seq::new(v.len(), |i: int| (v[i].0@, view_type(v[i].1)))
}

/// A copy of `t`.
pub fn clone_type(t: &Type) -> (r: Type)
    ensures
        r@ == t@,
    decreases t,
{
    match t {
        Type::Opaque { size, kind } => Type::Opaque { size: *size, kind: *kind },
        Type::Transparent { name, fields, sum_type } => {
            let mut out: Vec<(String, Type)> = Vec::new();
            let mut i: usize = 0;
            while i < fields.len()
                invariant
                    *t == (Type::Transparent { name: *name, fields: *fields, sum_type: *sum_type }),
                    i <= fields@.len(),
                    out@.len() == i,
                    forall|j: int| 0 <= j < i ==> (#[trigger] out@[j]).0@ == fields@[j].0@ && out@[j].1@ == fields@[j].1@,
                decreases fields.len() - i,
            {
                proof {
                    assert(decreases_to!(*t => (*t)->fields));
                    assert(decreases_to!(*fields => fields@));
                    assert(decreases_to!(fields@ => fields@[i as int]));
                    assert(decreases_to!(fields@[i as int] => fields@[i as int].1));
                }
                let c = clone_type(&fields[i].1);
                let n = crate::utils::owned(fields[i].0.as_str());
                out.push((n, c));
                i += 1;
            }
            let r = Type::Transparent { name: crate::utils::owned(name.as_str()), fields: out, sum_type: *sum_type };
            proof {
                let (a, b) = match (r@, t@) {
                    (SpecType::Transparent { fields: a, .. }, SpecType::Transparent { fields: b, .. }) => (a, b),
                    _ => (Seq::empty(), Seq::empty()),
                };
                assert(a =~= b);
            }
            r
        },
        Type::Reference { to } => Type::Reference { to: Box::new(clone_type(&**to)) },
        Type::Generic { name } => Type::Generic { name: crate::utils::owned(name.as_str()) },
        Type::Function { name, effect } => Type::Function {
            name: crate::utils::owned(name.as_str()),
            effect: clone_effect(effect),
        },
    }
}

/// A copy of each type of `v`.
pub fn clone_types(v: &Vec<Type>) -> (r: Vec<Type>)
    ensures
        view_types(r) == view_types(*v),
    decreases v,
{
    let mut out: Vec<Type> = Vec::new();
    let mut i: usize = 0;
    while i < v.len()
        invariant
            i <= v@.len(),
            out@.len() == i,
            forall|j: int| 0 <= j < i ==> (#[trigger] out@[j])@ == v@[j]@,
        decreases v.len() - i,
    {
        proof {
            assert(decreases_to!(v => v@[i as int]));
        }
        out.push(clone_type(&v[i]));
        i += 1;
    }
    proof {
        assert(view_types(out) =~= view_types(*v));
    }
    out
}

/// A copy of `e`.
pub fn clone_effect(e: &StackEffect) -> (r: StackEffect)
    ensures
        r@ == e@,
    decreases e,
{
    let pushed = clone_types(&e.pushed);
    let popped = clone_types(&e.popped);
    let r = StackEffect { pushed, popped };
    proof {
        assert(r@.pushed =~= view_types(r.pushed));
        assert(e@.pushed =~= view_types(e.pushed));
        assert(r@.popped =~= view_types(r.popped));
        assert(e@.popped =~= view_types(e.popped));
    }
    r
}

/// Whether `a` and `b` are the same type.
pub fn type_eq(a: &Type, b: &Type) -> (r: bool)
    ensures
        r == (a@ == b@),
    decreases a,
{
    match (a, b) {
        (Type::Opaque { size: s1, kind: k1 }, Type::Opaque { size: s2, kind: k2 }) => {
            let same_size = match (s1, s2) {
                (Some(x), Some(y)) => *x == *y,
                (None, None) => true,
                _ => false,
            };
            same_size && *k1 == *k2
        },
        (
            Type::Transparent { name: n1, fields: f1, sum_type: t1 },
            Type::Transparent { name: n2, fields: f2, sum_type: t2 },
        ) => {
            if !n1.eq(n2) || *t1 != *t2 || f1.len() != f2.len() {
                proof {
                    if a@ == b@ {
                        let (v1, v2) = (a@->fields, b@->fields);
                        assert(v1.len() == v2.len());
                    }
                }
                return false;
            }
            let mut i: usize = 0;
            while i < f1.len()
                invariant
                    *a == (Type::Transparent { name: *n1, fields: *f1, sum_type: *t1 }),
                    *b == (Type::Transparent { name: *n2, fields: *f2, sum_type: *t2 }),
                    n1@ == n2@,
                    *t1 == *t2,
                    i <= f1@.len() == f2@.len(),
                    forall|j: int| 0 <= j < i ==> (#[trigger] f1@[j]).0@ == f2@[j].0@ && f1@[j].1@ == f2@[j].1@,
                decreases f1.len() - i,
            {
                proof {
                    assert(decreases_to!(*a => (*a)->fields));
                    assert(decreases_to!(*f1 => f1@));
                    assert(decreases_to!(f1@ => f1@[i as int]));
                    assert(decreases_to!(f1@[i as int] => f1@[i as int].1));
                }
                if !f1[i].0.eq(&f2[i].0) || !type_eq(&f1[i].1, &f2[i].1) {
                    proof {
                        if a@ == b@ {
                            assert(a@->fields[i as int] == b@->fields[i as int]);
                        }
                    }
                    return false;
                }
                i += 1;
            }
            proof {
                assert(a@->fields =~= b@->fields);
            }
            true
        },
        (Type::Reference { to: x }, Type::Reference { to: y }) => type_eq(&**x, &**y),
        (Type::Generic { name: x }, Type::Generic { name: y }) => x.eq(y),
        (Type::Function { name: n1, effect: e1 }, Type::Function { name: n2, effect: e2 }) => {
            n1.eq(n2) && effect_eq(e1, e2)
        },
        _ => false,
    }
}

/// Whether `a` and `b` hold the same types, in order.
pub fn types_eq(a: &Vec<Type>, b: &Vec<Type>) -> (r: bool)
    ensures
        r == (view_types(*a) == view_types(*b)),
    decreases a,
{
    if a.len() != b.len() {
        proof {
            if view_types(*a) == view_types(*b) {
                assert(view_types(*a).len() == view_types(*b).len());
            }
        }
        return false;
    }
    let mut i: usize = 0;
    while i < a.len()
        invariant
            i <= a@.len() == b@.len(),
            forall|j: int| 0 <= j < i ==> (#[trigger] a@[j])@ == b@[j]@,
        decreases a.len() - i,
    {
        proof {
            assert(decreases_to!(*a => a@));
            assert(decreases_to!(a@ => a@[i as int]));
        }
        if !type_eq(&a[i], &b[i]) {
            proof {
                if view_types(*a) == view_types(*b) {
                    assert(view_types(*a)[i as int] == view_types(*b)[i as int]);
                }
            }
            return false;
        }
        i += 1;
    }
    proof {
        assert(view_types(*a) =~= view_types(*b));
    }
    true
}

/// Whether `a` and `b` are the same stack effect.
pub fn effect_eq(a: &StackEffect, b: &StackEffect) -> (r: bool)
    ensures
        r == (a@ == b@),
    decreases a,
{
    proof {
        assert(a@.pushed =~= view_types(a.pushed));
        assert(b@.pushed =~= view_types(b.pushed));
        assert(a@.popped =~= view_types(a.popped));
        assert(b@.popped =~= view_types(b.popped));
        assert(decreases_to!(*a => a.pushed));
        assert(decreases_to!(*a => a.popped));
    }
    types_eq(&a.pushed, &b.pushed) && types_eq(&a.popped, &b.popped)
}

/// An opaque type of `size` bytes.
pub open spec fn opaque(size: Option<usize>, kind: OpaqueTypeKind) -> SpecType {
    SpecType::Opaque { size, kind }
}

/// The size in bytes that a type of `bits` bits is given (whole bytes, rounding down).
pub open spec fn bytes_of_bits(bits: usize) -> Option<usize> {
    Some((bits / 8) as usize)
}

/// The type of a literal, if it can be known without context.
pub open spec fn literal_type(lit: SpecLiteral) -> Option<SpecType> {
    match lit {
        SpecLiteral::U128(_) => Some(opaque(bytes_of_bits(128), OpaqueTypeKind::UnsignedInt)),
        SpecLiteral::U64(_) => Some(opaque(bytes_of_bits(64), OpaqueTypeKind::UnsignedInt)),
        SpecLiteral::U32(_) => Some(opaque(bytes_of_bits(32), OpaqueTypeKind::UnsignedInt)),
        SpecLiteral::U16(_) => Some(opaque(bytes_of_bits(16), OpaqueTypeKind::UnsignedInt)),
        SpecLiteral::U8(_) => Some(opaque(bytes_of_bits(8), OpaqueTypeKind::UnsignedInt)),
        SpecLiteral::I128(_) => Some(opaque(bytes_of_bits(128), OpaqueTypeKind::SignedInt)),
        SpecLiteral::I64(_) => Some(opaque(bytes_of_bits(64), OpaqueTypeKind::SignedInt)),
        SpecLiteral::I32(_) => Some(opaque(bytes_of_bits(32), OpaqueTypeKind::SignedInt)),
        SpecLiteral::I16(_) => Some(opaque(bytes_of_bits(16), OpaqueTypeKind::SignedInt)),
        SpecLiteral::I8(_) => Some(opaque(bytes_of_bits(8), OpaqueTypeKind::SignedInt)),
        SpecLiteral::Bool(_) => Some(opaque(Some(1), OpaqueTypeKind::Bool)),
        SpecLiteral::String(s) => Some(str_ref(Some(vstd::utf8::encode_utf8(s).len() as usize))),
        SpecLiteral::FnPtr(_) => None,
    }
}

/// A reference to a string of `len_bytes` bytes (of unknown length if `None`).
pub open spec fn str_ref(len_bytes: Option<usize>) -> SpecType {
    SpecType::Reference { to: Box::new(opaque(len_bytes, OpaqueTypeKind::Str)) }
}

/// Whether a value of type `a` can be used where `b` is expected: the same type, or a
/// reference to a sized opaque value where a reference to an unsized one of its kind is
/// expected.
pub open spec fn coerces(a: SpecType, b: SpecType) -> bool {
    ||| a == b
    ||| match (a, b) {
        (SpecType::Reference { to: x }, SpecType::Reference { to: y }) => match (*x, *y) {
            (SpecType::Opaque { size, kind }, SpecType::Opaque { size: other_size, kind: other_kind }) =>
                size is Some && other_size is None && kind == other_kind,
            _ => false,
        },
        _ => false,
    }
}


/// A type coerces to itself, and a reference to a sized opaque value to a reference to an
/// unsized one of the same kind; to nothing else. So references to values of two
/// different sizes never coerce either way.
pub proof fn law_coercions(a: SpecType, b: SpecType)
    ensures
        coerces(a, a),
        coerces(a, b) && a != b ==> (match (a, b) {
            (SpecType::Reference { to: x }, SpecType::Reference { to: y }) => match (*x, *y) {
                (SpecType::Opaque { size: Some(_), kind: k1 }, SpecType::Opaque { size: None, kind: k2 }) => k1 == k2,
                _ => false,
            },
            _ => false,
        }),
        forall|k: OpaqueTypeKind, m: usize, n: usize| m != n ==> !coerces(#[trigger] opaque_ref(Some(m), k), #[trigger] opaque_ref(Some(n), k)),
        forall|k: OpaqueTypeKind, m: usize| coerces(#[trigger] opaque_ref(Some(m), k), opaque_ref(None, k)),
        forall|k: OpaqueTypeKind, m: usize| !coerces(opaque_ref(None, k), #[trigger] opaque_ref(Some(m), k)),
{
}

/// A reference to an opaque value of the given size and kind.
pub open spec fn opaque_ref(size: Option<usize>, kind: OpaqueTypeKind) -> SpecType {
    SpecType::Reference { to: Box::new(opaque(size, kind)) }
}

/// The built-in type called `s`, if there is one.
pub open spec fn builtin_named(s: Seq<char>) -> Option<SpecType> {
    if s == seq!['u', '1', '2', '8'] {
        Some(opaque(bytes_of_bits(128), OpaqueTypeKind::UnsignedInt))
    } else if s == seq!['u', '6', '4'] {
        Some(opaque(bytes_of_bits(64), OpaqueTypeKind::UnsignedInt))
    } else if s == seq!['u', '3', '2'] {
        Some(opaque(bytes_of_bits(32), OpaqueTypeKind::UnsignedInt))
    } else if s == seq!['u', '1', '6'] {
        Some(opaque(bytes_of_bits(16), OpaqueTypeKind::UnsignedInt))
    } else if s == seq!['u', '8'] {
        Some(opaque(bytes_of_bits(8), OpaqueTypeKind::UnsignedInt))
    } else if s == seq!['i', '1', '2', '8'] {
        Some(opaque(bytes_of_bits(128), OpaqueTypeKind::SignedInt))
    } else if s == seq!['i', '6', '4'] {
        Some(opaque(bytes_of_bits(64), OpaqueTypeKind::SignedInt))
    } else if s == seq!['i', '3', '2'] {
        Some(opaque(bytes_of_bits(32), OpaqueTypeKind::SignedInt))
    } else if s == seq!['i', '1', '6'] {
        Some(opaque(bytes_of_bits(16), OpaqueTypeKind::SignedInt))
    } else if s == seq!['i', '8'] {
        Some(opaque(bytes_of_bits(8), OpaqueTypeKind::SignedInt))
    } else if s == seq!['b', 'o', 'o', 'l'] {
        Some(opaque(Some(1), OpaqueTypeKind::Bool))
    } else {
        None
    }
}

/// The type a type name written in source denotes without context: a built-in type, or
/// `&` followed by such a name.
pub open spec fn type_named(s: Seq<char>) -> Option<SpecType>
    decreases s.len(),
{
    if s.len() > 0 && s[0] == '&' {
        match type_named(s.drop_first()) {
            Some(t) => Some(SpecType::Reference { to: Box::new(t) }),
            None => None,
        }
    } else {
        builtin_named(s)
    }
}

/// Whether `name` can tell the name of `t`.
pub open spec fn has_name(t: SpecType) -> bool {
    match t {
        SpecType::Opaque { size: Some(size), kind } => (kind == OpaqueTypeKind::UnsignedInt || kind == OpaqueTypeKind::SignedInt
            || kind == OpaqueTypeKind::Float || kind == OpaqueTypeKind::Bool) && size * 8 <= usize::MAX,
        SpecType::Transparent { .. } => true,
        _ => false,
    }
}

/// The name of `t`, where `has_name(t)`.
pub open spec fn name_of_type(t: SpecType) -> Seq<char> {
    match t {
        SpecType::Opaque { size: Some(size), kind } => match kind {
            OpaqueTypeKind::UnsignedInt => seq!['u'] + crate::utils::decimal((size * 8) as nat),
            OpaqueTypeKind::SignedInt => seq!['i'] + crate::utils::decimal((size * 8) as nat),
            OpaqueTypeKind::Float => seq!['f'] + crate::utils::decimal((size * 8) as nat),
            _ => seq!['b', 'o', 'o', 'l'],
        },
        SpecType::Transparent { name, .. } => name,
        _ => Seq::empty(),
    }
}

/// The name of a built-in type is the name it was found by: `name` undoes `from_name` on the
/// built-in names.
pub proof fn law_name_of_builtin(s: Seq<char>)
    requires
        builtin_named(s) is Some,
    ensures
        has_name(builtin_named(s)->0),
        name_of_type(builtin_named(s)->0) == s,
{
    reveal_with_fuel(crate::utils::decimal, 4);
    assert(crate::utils::decimal(8) =~= seq!['8']);
    assert(crate::utils::decimal(16) =~= seq!['1', '6']);
    assert(crate::utils::decimal(32) =~= seq!['3', '2']);
    assert(crate::utils::decimal(64) =~= seq!['6', '4']);
    assert(crate::utils::decimal(128) =~= seq!['1', '2', '8']);
    assert(seq!['u'] + seq!['8'] =~= seq!['u', '8']);
    assert(seq!['u'] + seq!['1', '6'] =~= seq!['u', '1', '6']);
    assert(seq!['u'] + seq!['3', '2'] =~= seq!['u', '3', '2']);
    assert(seq!['u'] + seq!['6', '4'] =~= seq!['u', '6', '4']);
    assert(seq!['u'] + seq!['1', '2', '8'] =~= seq!['u', '1', '2', '8']);
    assert(seq!['i'] + seq!['8'] =~= seq!['i', '8']);
    assert(seq!['i'] + seq!['1', '6'] =~= seq!['i', '1', '6']);
    assert(seq!['i'] + seq!['3', '2'] =~= seq!['i', '3', '2']);
    assert(seq!['i'] + seq!['6', '4'] =~= seq!['i', '6', '4']);
    assert(seq!['i'] + seq!['1', '2', '8'] =~= seq!['i', '1', '2', '8']);
}

/// A struct's name is the name it was made with.
pub proof fn law_name_of_struct(name: Seq<char>, fields: Seq<(Seq<char>, SpecType)>, sum_type: bool)
    ensures
        has_name(SpecType::Transparent { name, fields, sum_type }),
        name_of_type(SpecType::Transparent { name, fields, sum_type }) == name,
{
}

/// Whether a type can tell its name; see `has_name`.
pub fn can_name(ty: &Type) -> (r: bool)
    ensures
        r == has_name(ty@),
{
    match ty {
        Type::Opaque { size: Some(size), kind } => {
            let named_kind = match kind {
                OpaqueTypeKind::UnsignedInt | OpaqueTypeKind::SignedInt | OpaqueTypeKind::Float | OpaqueTypeKind::Bool => true,
                _ => false,
            };
            named_kind && *size <= usize::MAX / 8
        },
        Type::Transparent { .. } => true,
        _ => false,
    }
}

impl Type {
    pub fn new_int(bits: usize) -> (r: Type)
        ensures
            r@ == opaque(bytes_of_bits(bits), OpaqueTypeKind::SignedInt),
    {
        Type::Opaque { size: Some(bits / 8), kind: OpaqueTypeKind::SignedInt }
    }

    pub fn new_uint(bits: usize) -> (r: Type)
        ensures
            r@ == opaque(bytes_of_bits(bits), OpaqueTypeKind::UnsignedInt),
    {
        Type::Opaque { size: Some(bits / 8), kind: OpaqueTypeKind::UnsignedInt }
    }

    pub fn new_bool() -> (r: Type)
        ensures
            r@ == opaque(Some(1), OpaqueTypeKind::Bool),
    {
        Type::Opaque { size: Some(1), kind: OpaqueTypeKind::Bool }
    }

    pub fn new_str(len_bytes: usize) -> (r: Type)
        ensures
            r@ == opaque(Some(len_bytes), OpaqueTypeKind::Str),
    {
        Type::Opaque { size: Some(len_bytes), kind: OpaqueTypeKind::Str }
    }

    pub fn new_strref(len_bytes: Option<usize>) -> (r: Type)
        ensures
            r@ == str_ref(len_bytes),
    {
        let inner = Type::Opaque { size: len_bytes, kind: OpaqueTypeKind::Str };
        proof {
            assert(inner@ == opaque(len_bytes, OpaqueTypeKind::Str));
        }
        Type::Reference { to: Box::new(inner) }
    }

    /// The struct called `name` with the given fields.
    pub fn new_struct(name: String, fields: &Vec<(String, Type)>) -> (r: Type)
        ensures
            r@ == (SpecType::Transparent { name: name@, fields: view_fields(fields@), sum_type: false }),
    {
        let fields = clone_fields(fields);
        let r = Type::Transparent { name, fields, sum_type: false };
        proof {
            assert(r@->fields =~= view_fields(fields@));
        }
        r
    }

    /// The enum called `name` with the given variants.
    pub fn new_enum(name: String, fields: &Vec<(String, Type)>) -> (r: Type)
        ensures
            r@ == (SpecType::Transparent { name: name@, fields: view_fields(fields@), sum_type: true }),
    {
        let fields = clone_fields(fields);
        let r = Type::Transparent { name, fields, sum_type: true };
        proof {
            assert(r@->fields =~= view_fields(fields@));
        }
        r
    }

    /// A reference to the function `name`.
    pub fn new_fnref(name: String, effect: StackEffect) -> (r: Type)
        ensures
            r@ == (SpecType::Reference { to: Box::new(SpecType::Function { name: name@, effect: effect@ }) }),
    {
        let inner = Type::Function { name, effect };
        proof {
            assert(inner@ == SpecType::Function { name: name@, effect: effect@ });
        }
        Type::Reference { to: Box::new(inner) }
    }

    /// The type of a literal, or None if the literal requires context (e.g. a function pointer).
    pub fn from_lit(lit: &Literal) -> (r: Option<Type>)
        ensures
            match r {
                Some(t) => literal_type(lit@) == Some(t@),
                None => literal_type(lit@) is None,
            },
    {
        match lit {
            Literal::U128(_) => Some(Type::new_uint(128)),
            Literal::U64(_) => Some(Type::new_uint(64)),
            Literal::U32(_) => Some(Type::new_uint(32)),
            Literal::U16(_) => Some(Type::new_uint(16)),
            Literal::U8(_) => Some(Type::new_uint(8)),
            Literal::I128(_) => Some(Type::new_int(128)),
            Literal::I64(_) => Some(Type::new_int(64)),
            Literal::I32(_) => Some(Type::new_int(32)),
            Literal::I16(_) => Some(Type::new_int(16)),
            Literal::I8(_) => Some(Type::new_int(8)),
            Literal::Bool(_) => Some(Type::new_bool()),
            Literal::String(val) => Some(Type::new_strref(Some(val.as_str().len()))),
            Literal::FnPtr(_) => None,
        }
    }

    /// The type referred to, if this is a reference; otherwise this type.
    pub fn deref<'a>(&'a self) -> (r: &'a Type)
        ensures
            r@ == match self@ {
                SpecType::Reference { to } => *to,
                t => t,
            },
    {
        match self {
            Type::Reference { to } => &**to,
            _ => self,
        }
    }

    pub fn is_opaque(&self) -> (r: bool)
        ensures
            r == self@ is Opaque,
    {
        match self {
            Type::Opaque { .. } => true,
            _ => false,
        }
    }

    /// The size and kind of an opaque type.
    pub fn as_opaque<'a>(&'a self) -> (r: Option<(&'a Option<usize>, &'a OpaqueTypeKind)>)
        ensures
            match self@ {
                SpecType::Opaque { size, kind } => r == Some((&size, &kind)),
                _ => r is None,
            },
    {
        match self {
            Type::Opaque { size, kind } => Some((size, kind)),
            _ => None,
        }
    }

    /// Whether a value of this type can be used where `other` is expected.
    pub fn coerces_to(&self, other: &Type) -> (r: bool)
        ensures
            r == coerces(self@, other@),
    {
        if type_eq(self, other) {
            return true;
        }
        match (self, other) {
            (Type::Reference { to: x }, Type::Reference { to: y }) => {
                proof {
                    assert(self@ == SpecType::Reference { to: Box::new((**x)@) });
                    assert(other@ == SpecType::Reference { to: Box::new((**y)@) });
                }
                match (&**x, &**y) {
                    (Type::Opaque { size, kind }, Type::Opaque { size: other_size, kind: other_kind }) => {
                        proof {
                            assert((**x)@ == opaque(*size, *kind));
                            assert((**y)@ == opaque(*other_size, *other_kind));
                        }
                        size.is_some() && other_size.is_none() && *kind == *other_kind
                    },
                    (Type::Opaque { .. }, _) => {
                        proof {
                            assert((**x)@ is Opaque);
                            assert(!((**y)@ is Opaque));
                        }
                        false
                    },
                    _ => {
                        proof {
                            assert(!((**x)@ is Opaque));
                        }
                        false
                    },
                }
            },
            _ => false,
        }
    }

    /// The type that a type name written in source denotes without context, if any.
    pub fn from_name(name: &str) -> (r: Option<Type>)
        ensures
            match r {
                Some(t) => type_named(name@) == Some(t@),
                None => type_named(name@) is None,
            },
    {
        let chars = chars_of(name);
        proof {
            assert(chars@.skip(0) =~= chars@);
        }
        type_named_from(&chars, 0)
    }

    /// How the type is shown; see `type_string`.
    pub fn to_string(&self) -> (r: String)
        requires
            showable(self@),
        ensures
            r@ == type_string(self@),
    {
        show_type(self)
    }

    /// The name of the type, as source code writes it.
    pub fn name(&self) -> (r: String)
        requires
            has_name(self@),
        ensures
            r@ == name_of_type(self@),
    {
        match self {
            Type::Opaque { size: Some(size), kind } => {
                let bits = crate::utils::u128_to_decimal((*size as u128) * 8);
                let mut s = match kind {
                    OpaqueTypeKind::UnsignedInt => owned("u"),
                    OpaqueTypeKind::SignedInt => owned("i"),
                    OpaqueTypeKind::Float => owned("f"),
                    _ => {
                        proof {
                            reveal_strlit("bool");
                        }
                        return owned("bool");
                    },
                };
                proof {
                    reveal_strlit("u");
                    reveal_strlit("i");
                    reveal_strlit("f");
                    assert((*size as u128) * 8 == size * 8);
                }
                s.append(bits.as_str());
                s
            },
            Type::Transparent { name, .. } => owned(name.as_str()),
            _ => {
                proof {
                    assert(false);
                }
                String::new()
            },
        }
    }
}

/// A copy of each named type of `v`.
pub fn clone_fields(v: &Vec<(String, Type)>) -> (r: Vec<(String, Type)>)
    ensures
        view_fields(r@) == view_fields(v@),
{
    let mut out: Vec<(String, Type)> = Vec::new();
    let mut i: usize = 0;
    while i < v.len()
        invariant
            i <= v@.len(),
            out@.len() == i,
            forall|j: int| 0 <= j < i ==> (#[trigger] out@[j]).0@ == v@[j].0@ && out@[j].1@ == v@[j].1@,
        decreases v.len() - i,
    {
        let c = clone_type(&v[i].1);
        out.push((owned(v[i].0.as_str()), c));
        i += 1;
    }
    proof {
        assert(view_fields(out@) =~= view_fields(v@));
    }
    out
}

/// Whether `chars` from `start` on spell `word`.
fn spells(chars: &Vec<char>, start: usize, word: &str) -> (r: bool)
    requires
        start <= chars@.len(),
    ensures
        r == (chars@.skip(start as int) == word@),
{
    let w = chars_of(word);
    if chars.len() - start != w.len() {
        proof {
            if chars@.skip(start as int) == word@ {
                assert(chars@.skip(start as int).len() == w@.len());
            }
        }
        return false;
    }
    let mut i: usize = 0;
    while i < w.len()
        invariant
            i <= w@.len(),
            w@ == word@,
            start + w@.len() == chars@.len(),
            start + w.len() == chars.len(),
            forall|j: int| 0 <= j < i ==> chars@[start + j] == w@[j],
        decreases w.len() - i,
    {
        if chars[start + i] != w[i] {
            proof {
                if chars@.skip(start as int) == word@ {
                    assert(chars@.skip(start as int)[i as int] == w@[i as int]);
                }
            }
            return false;
        }
        i += 1;
    }
    proof {
        assert(chars@.skip(start as int) =~= word@);
    }
    true
}

/// The built-in type spelt by `chars` from `start` on, if any.
fn builtin_named_from(chars: &Vec<char>, start: usize) -> (r: Option<Type>)
    requires
        start <= chars@.len(),
    ensures
        match r {
            Some(t) => builtin_named(chars@.skip(start as int)) == Some(t@),
            None => builtin_named(chars@.skip(start as int)) is None,
        },
{
    proof {
        reveal_strlit("u128");
        reveal_strlit("u64");
        reveal_strlit("u32");
        reveal_strlit("u16");
        reveal_strlit("u8");
        reveal_strlit("i128");
        reveal_strlit("i64");
        reveal_strlit("i32");
        reveal_strlit("i16");
        reveal_strlit("i8");
        reveal_strlit("bool");
        assert("u128"@ =~= seq!['u', '1', '2', '8']);
        assert("u64"@ =~= seq!['u', '6', '4']);
        assert("u32"@ =~= seq!['u', '3', '2']);
        assert("u16"@ =~= seq!['u', '1', '6']);
        assert("u8"@ =~= seq!['u', '8']);
        assert("i128"@ =~= seq!['i', '1', '2', '8']);
        assert("i64"@ =~= seq!['i', '6', '4']);
        assert("i32"@ =~= seq!['i', '3', '2']);
        assert("i16"@ =~= seq!['i', '1', '6']);
        assert("i8"@ =~= seq!['i', '8']);
        assert("bool"@ =~= seq!['b', 'o', 'o', 'l']);
    }
    if spells(chars, start, "u128") {
        Some(Type::new_uint(128))
    } else if spells(chars, start, "u64") {
        Some(Type::new_uint(64))
    } else if spells(chars, start, "u32") {
        Some(Type::new_uint(32))
    } else if spells(chars, start, "u16") {
        Some(Type::new_uint(16))
    } else if spells(chars, start, "u8") {
        Some(Type::new_uint(8))
    } else if spells(chars, start, "i128") {
        Some(Type::new_int(128))
    } else if spells(chars, start, "i64") {
        Some(Type::new_int(64))
    } else if spells(chars, start, "i32") {
        Some(Type::new_int(32))
    } else if spells(chars, start, "i16") {
        Some(Type::new_int(16))
    } else if spells(chars, start, "i8") {
        Some(Type::new_int(8))
    } else if spells(chars, start, "bool") {
        Some(Type::new_bool())
    } else {
        None
    }
}

/// The type named by `chars` from `start` on, if any.
fn type_named_from(chars: &Vec<char>, start: usize) -> (r: Option<Type>)
    requires
        start <= chars@.len(),
    ensures
        match r {
            Some(t) => type_named(chars@.skip(start as int)) == Some(t@),
            None => type_named(chars@.skip(start as int)) is None,
        },
    decreases chars@.len() - start,
{
    if start < chars.len() && chars[start] == '&' {
        proof {
            assert(chars@.skip(start as int).drop_first() =~= chars@.skip(start + 1));
        }
        match type_named_from(chars, start + 1) {
            Some(t) => Some(Type::Reference { to: Box::new(t) }),
            None => None,
        }
    } else {
        builtin_named_from(chars, start)
    }
}

// ---------------------------------------------------------------- how types are shown

/// How a type is shown.
pub open spec fn type_string(t: SpecType) -> Seq<char>
    decreases t, 0int,
{
    match t {
        SpecType::Opaque { size: Some(size), kind } => match kind {
            OpaqueTypeKind::UnsignedInt => "u"@ + crate::utils::decimal((size * 8) as nat),
            OpaqueTypeKind::SignedInt => "i"@ + crate::utils::decimal((size * 8) as nat),
            OpaqueTypeKind::Float => "f"@ + crate::utils::decimal((size * 8) as nat),
            OpaqueTypeKind::Bool => "bool"@,
            OpaqueTypeKind::Str => "str(byte_len: "@ + crate::utils::decimal(size as nat) + ")"@,
            OpaqueTypeKind::Array => Seq::empty(),
        },
        SpecType::Opaque { size: None, .. } => "str"@,
        SpecType::Transparent { name, fields, sum_type } => (if sum_type { "enum "@ } else { "struct "@ }) + name + " { "@
            + fields_string(fields, fields.len() as int, sum_type) + " }"@,
        SpecType::Reference { to } => "&"@ + type_string(*to),
        SpecType::Generic { name } => name,
        SpecType::Function { name, effect } => name + " "@ + effect_string(effect),
    }
}

/// How the first `n` fields of a struct (or variants of an enum) are shown, separated by commas.
pub open spec fn fields_string(fields: Seq<(Seq<char>, SpecType)>, n: int, sum_type: bool) -> Seq<char>
    decreases fields, n,
{
    if n <= 0 || n > fields.len() {
        Seq::empty()
    } else {
        let f = fields[n - 1];
        let shown = f.0 + (if sum_type { " "@ } else { ": "@ }) + type_string(f.1);
        if n == 1 {
            shown
        } else {
            fields_string(fields, n - 1, sum_type) + ", "@ + shown
        }
    }
}

/// How the first `n` of a list of types are shown, separated by commas.
pub open spec fn types_string(ts: Seq<SpecType>, n: int) -> Seq<char>
    decreases ts, n,
{
    if n <= 0 || n > ts.len() {
        Seq::empty()
    } else if n == 1 {
        type_string(ts[0])
    } else {
        types_string(ts, n - 1) + ", "@ + type_string(ts[n - 1])
    }
}

/// How a stack effect is shown: `( popped -> pushed )`.
pub open spec fn effect_string(e: SpecStackEffect) -> Seq<char>
    decreases e, 0int,
{
    "("@ + (if e.popped.len() == 0 { Seq::empty() } else { " "@ + types_string(e.popped, e.popped.len() as int) })
        + " -> "@ + (if e.pushed.len() == 0 { Seq::empty() } else { types_string(e.pushed, e.pushed.len() as int) + " "@ })
        + ")"@
}

/// Whether a type can be shown: no arrays, no unsized types but strings, and sizes whose
/// bit counts fit a `usize`, all the way down.
pub open spec fn showable(t: SpecType) -> bool
    decreases t, 0int,
{
    match t {
        SpecType::Opaque { size: Some(size), kind } => kind != OpaqueTypeKind::Array && size * 8 <= usize::MAX,
        SpecType::Opaque { size: None, kind } => kind == OpaqueTypeKind::Str,
        SpecType::Transparent { fields, .. } => fields_showable(fields, fields.len() as int),
        SpecType::Reference { to } => showable(*to),
        SpecType::Generic { .. } => true,
        SpecType::Function { effect, .. } => effect_showable(effect),
    }
}

pub open spec fn fields_showable(fields: Seq<(Seq<char>, SpecType)>, n: int) -> bool
    decreases fields, n,
{
    if n <= 0 || n > fields.len() {
        true
    } else {
        fields_showable(fields, n - 1) && showable(fields[n - 1].1)
    }
}

pub open spec fn types_showable(ts: Seq<SpecType>, n: int) -> bool
    decreases ts, n,
{
    if n <= 0 || n > ts.len() {
        true
    } else {
        types_showable(ts, n - 1) && showable(ts[n - 1])
    }
}

pub open spec fn effect_showable(e: SpecStackEffect) -> bool
    decreases e, 0int,
{
    types_showable(e.popped, e.popped.len() as int) && types_showable(e.pushed, e.pushed.len() as int)
}

proof fn lemma_fields_showable(fields: Seq<(Seq<char>, SpecType)>, n: int, j: int)
    requires
        fields_showable(fields, n),
        0 <= j < n <= fields.len(),
    ensures
        showable(fields[j].1),
    decreases n,
{
    if j < n - 1 {
        lemma_fields_showable(fields, n - 1, j);
    }
}

proof fn lemma_types_showable(ts: Seq<SpecType>, n: int, j: int)
    requires
        types_showable(ts, n),
        0 <= j < n <= ts.len(),
    ensures
        showable(ts[j]),
    decreases n,
{
    if j < n - 1 {
        lemma_types_showable(ts, n - 1, j);
    }
}

/// How the type `t` is shown; see `type_string`.
pub fn show_type(t: &Type) -> (r: String)
    requires
        showable(t@),
    ensures
        r@ == type_string(t@),
    decreases t, 1int,
{
    proof {
        reveal_strlit("u");
        reveal_strlit("i");
        reveal_strlit("f");
        reveal_strlit("bool");
        reveal_strlit("str(byte_len: ");
        reveal_strlit(")");
        reveal_strlit("str");
        reveal_strlit("enum ");
        reveal_strlit("struct ");
        reveal_strlit(" { ");
        reveal_strlit(" }");
        reveal_strlit("&");
        reveal_strlit(" ");
        reveal_strlit(": ");
        reveal_strlit(", ");
    }
    match t {
        Type::Opaque { size: Some(size), kind } => {
            let mut out = match kind {
                OpaqueTypeKind::UnsignedInt => owned("u"),
                OpaqueTypeKind::SignedInt => owned("i"),
                OpaqueTypeKind::Float => owned("f"),
                OpaqueTypeKind::Bool => {
                    return owned("bool");
                },
                OpaqueTypeKind::Str => {
                    let mut out = owned("str(byte_len: ");
                    let d = crate::utils::usize_to_decimal(*size);
                    crate::utils::append(&mut out, d.as_str());
                    crate::utils::append(&mut out, ")");
                    return out;
                },
                OpaqueTypeKind::Array => {
                    return vstd::pervasive::unreached();
                },
            };
            let d = crate::utils::usize_to_decimal(*size * 8);
            crate::utils::append(&mut out, d.as_str());
            out
        },
        Type::Opaque { size: None, .. } => owned("str"),
        Type::Transparent { name, fields, sum_type } => {
            let ghost vf = t@->fields;
            let mut out = if *sum_type { owned("enum ") } else { owned("struct ") };
            crate::utils::append(&mut out, name.as_str());
            crate::utils::append(&mut out, " { ");
            let ghost head = out@;
            let mut shown = String::new();
            let mut i: usize = 0;
            while i < fields.len()
                invariant
                    *t == (Type::Transparent { name: *name, fields: *fields, sum_type: *sum_type }),
                    vf == t@->fields,
                    vf.len() == fields@.len(),
                    fields_showable(vf, vf.len() as int),
                    i <= fields@.len(),
                    shown@ == fields_string(vf, i as int, *sum_type),
                decreases fields.len() - i,
            {
                proof {
                    lemma_fields_showable(vf, vf.len() as int, i as int);
                    assert(vf[i as int] == (fields@[i as int].0@, fields@[i as int].1@));
                    assert(decreases_to!(*t => (*t)->fields));
                    assert(decreases_to!(*fields => fields@));
                    assert(decreases_to!(fields@ => fields@[i as int]));
                    assert(decreases_to!(fields@[i as int] => fields@[i as int].1));
                }
                if i > 0 {
                    crate::utils::append(&mut shown, ", ");
                }
                crate::utils::append(&mut shown, fields[i].0.as_str());
                crate::utils::append(&mut shown, if *sum_type { " " } else { ": " });
                let ft = show_type(&fields[i].1);
                crate::utils::append(&mut shown, ft.as_str());
                i += 1;
                proof {
                    let f = vf[i - 1];
                    let piece = f.0 + (if *sum_type { " "@ } else { ": "@ }) + type_string(f.1);
                    if i == 1 {
                        assert(fields_string(vf, 0, *sum_type) == Seq::<char>::empty());
                        assert(shown@ =~= piece);
                    } else {
                        assert(shown@ =~= fields_string(vf, i - 1, *sum_type) + ", "@ + piece);
                    }
                }
            }
            crate::utils::append(&mut out, shown.as_str());
            crate::utils::append(&mut out, " }");
            out
        },
        Type::Reference { to } => {
            let mut out = owned("&");
            let inner = show_type(&**to);
            crate::utils::append(&mut out, inner.as_str());
            out
        },
        Type::Generic { name } => owned(name.as_str()),
        Type::Function { name, effect } => {
            let mut out = owned(name.as_str());
            crate::utils::append(&mut out, " ");
            let e = show_effect(effect);
            crate::utils::append(&mut out, e.as_str());
            out
        },
    }
}

/// How the types `v` are shown, separated by commas.
fn show_types(v: &Vec<Type>) -> (r: String)
    requires
        types_showable(view_types(*v), v@.len() as int),
    ensures
        r@ == types_string(view_types(*v), v@.len() as int),
    decreases v, 0int,
{
    proof {
        reveal_strlit(", ");
    }
    let ghost vt = view_types(*v);
    let mut shown = String::new();
    let mut i: usize = 0;
    while i < v.len()
        invariant
            vt == view_types(*v),
            i <= v@.len(),
            types_showable(vt, v@.len() as int),
            shown@ == types_string(vt, i as int),
        decreases v.len() - i,
    {
        proof {
            lemma_types_showable(vt, v@.len() as int, i as int);
            assert(decreases_to!(*v => v@));
            assert(decreases_to!(v@ => v@[i as int]));
        }
        if i > 0 {
            crate::utils::append(&mut shown, ", ");
        }
        let ts = show_type(&v[i]);
        crate::utils::append(&mut shown, ts.as_str());
        i += 1;
        proof {
            if i == 1 {
                assert(shown@ =~= type_string(vt[0]));
            } else {
                assert(shown@ =~= types_string(vt, i - 1) + ", "@ + type_string(vt[i - 1]));
            }
        }
    }
    shown
}

/// How the stack effect `e` is shown; see `effect_string`.
pub fn show_effect(e: &StackEffect) -> (r: String)
    requires
        effect_showable(e@),
    ensures
        r@ == effect_string(e@),
    decreases e, 1int,
{
    proof {
        reveal_strlit("(");
        reveal_strlit(" ");
        reveal_strlit(" -> ");
        reveal_strlit(")");
        assert(e@.popped =~= view_types(e.popped));
        assert(e@.pushed =~= view_types(e.pushed));
        assert(decreases_to!(*e => e.popped));
        assert(decreases_to!(*e => e.pushed));
    }
    let mut out = owned("(");
    if e.popped.len() > 0 {
        crate::utils::append(&mut out, " ");
        let p = show_types(&e.popped);
        crate::utils::append(&mut out, p.as_str());
    }
    crate::utils::append(&mut out, " -> ");
    if e.pushed.len() > 0 {
        let p = show_types(&e.pushed);
        crate::utils::append(&mut out, p.as_str());
        crate::utils::append(&mut out, " ");
    }
    crate::utils::append(&mut out, ")");
    out
}

} // verus!
