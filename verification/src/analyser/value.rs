use vstd::prelude::*;

use std::rc::Rc;

use super::stack_effect::StackEffect;
use super::ttype::{clone_type, literal_type, opaque, show_type, showable, type_string, OpaqueTypeKind, SpecType, Type};
use crate::parser::tree::{Literal, SpecLiteral};

verus! {

/// A value of the tower language, with its type.
#[derive(Debug, PartialEq)]
pub struct Value {
    pub ty: Type,
    pub inner: ValueInner,
}

#[derive(Debug, PartialEq)]
pub enum ValueInner {
    Bytes(Vec<u8>),
    Struct(Vec<Value>),
    Reference { to: Rc<Value> },
    Function { fn_name: String },
}

/// The mathematical value of a `Value`.
pub struct SpecValue {
    pub ty: SpecType,
    pub inner: SpecValueInner,
}

/// The mathematical value of a `ValueInner`.
pub enum SpecValueInner {
    Bytes(Seq<u8>),
    Struct(Seq<SpecValue>),
    Reference { to: Box<SpecValue> },
    Function { fn_name: Seq<char> },
}

pub open spec fn view_value(v: Value) -> SpecValue
    decreases v,
{
    SpecValue {
        ty: v.ty@,
        inner: match v.inner {
            ValueInner::Bytes(b) => SpecValueInner::Bytes(b@),
            ValueInner::Struct(vs) => SpecValueInner::Struct(
                Seq::new(
                    vs.len() as nat,
                    |i: int| if 0 <= i < vs.len() {
                        view_value(vs@[i])
                    } else {
                        SpecValue { ty: SpecType::Generic { name: Seq::empty() }, inner: SpecValueInner::Bytes(Seq::empty()) }
                    },
                ),
            ),
            ValueInner::Reference { to } => SpecValueInner::Reference { to: Box::new(view_value(*to)) },
            ValueInner::Function { fn_name } => SpecValueInner::Function { fn_name: fn_name@ },
        },
    }
}

impl View for Value {
    type V = SpecValue;

    open spec fn view(&self) -> SpecValue {
        view_value(*self)
    }
}

/// The views of a list of values.
pub open spec fn view_values(v: Seq<Value>) -> Seq<SpecValue> {
    Seq::new(v.len(), |i: int| view_value(v[i]))
}

/// The `n` bytes of the number `v`, least significant first (`v` taken modulo 256 to the `n`).
pub open spec fn le_bytes(v: nat, n: nat) -> Seq<u8>
    decreases n,
{
    if n == 0 {
        Seq::empty()
    } else {
        seq![(v % 256) as u8] + le_bytes(v / 256, (n - 1) as nat)
    }
}

/// The bytes `s` (least significant first) in the byte order of the machine the code runs on.
pub open spec fn native_order(s: Seq<u8>) -> Seq<u8> {
    match vstd::endian::endianness() {
        vstd::endian::Endian::Little => s,
        vstd::endian::Endian::Big => s.reverse(),
    }
}

/// std's `u128::to_ne_bytes`.
/// Trusted: the contract claims the result is the number's 16 bytes in the machine's native
/// byte order: least significant first on little-endian machines, most significant first
/// on big-endian ones, as std documents.
#[verifier::external_body]
fn u128_ne_bytes(v: u128) -> (r: [u8; 16])
    ensures
        r@ == native_order(le_bytes(v as nat, 16)),
{
    v.to_ne_bytes()
}

/// std's `u64::to_ne_bytes`.
/// Trusted: the contract claims the result is the number's 8 bytes in the machine's native
/// byte order, as std documents.
#[verifier::external_body]
fn u64_ne_bytes(v: u64) -> (r: [u8; 8])
    ensures
        r@ == native_order(le_bytes(v as nat, 8)),
{
    v.to_ne_bytes()
}

/// std's `u32::to_ne_bytes`.
/// Trusted: the contract claims the result is the number's 4 bytes in the machine's native
/// byte order, as std documents.
#[verifier::external_body]
fn u32_ne_bytes(v: u32) -> (r: [u8; 4])
    ensures
        r@ == native_order(le_bytes(v as nat, 4)),
{
    v.to_ne_bytes()
}

/// std's `u16::to_ne_bytes`.
/// Trusted: the contract claims the result is the number's 2 bytes in the machine's native
/// byte order, as std documents.
#[verifier::external_body]
fn u16_ne_bytes(v: u16) -> (r: [u8; 2])
    ensures
        r@ == native_order(le_bytes(v as nat, 2)),
{
    v.to_ne_bytes()
}

/// std's `String::from_utf8`, without its error.
/// Trusted: the contract claims that the call succeeds exactly when the bytes are valid
/// UTF-8, and then gives the characters they encode, as std documents.
#[verifier::external_body]
fn string_from_utf8(bytes: Vec<u8>) -> (r: Option<String>)
    ensures
        match r {
            Some(s) => vstd::utf8::valid_utf8(bytes@) && s@ == vstd::utf8::decode_utf8(bytes@),
            None => !vstd::utf8::valid_utf8(bytes@),
        },
{
    String::from_utf8(bytes).ok()
}

/// A value of type `ty` held as `bytes`.
pub open spec fn bytes_value(ty: SpecType, bytes: Seq<u8>) -> SpecValue {
    SpecValue { ty, inner: SpecValueInner::Bytes(bytes) }
}

/// A reference to `to`.
pub open spec fn reference_value(to: SpecValue) -> SpecValue {
    SpecValue { ty: SpecType::Reference { to: Box::new(to.ty) }, inner: SpecValueInner::Reference { to: Box::new(to) } }
}

/// The value a literal stands for, if it can be known without context: numbers are held as
/// their bytes in native order, `bool`s as one byte, and strings as a reference to their
/// UTF-8 bytes.
pub open spec fn literal_value(lit: SpecLiteral) -> Option<SpecValue> {
    match lit {
        SpecLiteral::U128(v) => Some(bytes_value(literal_type(lit)->0, native_order(le_bytes(v as nat, 16)))),
        SpecLiteral::U64(v) => Some(bytes_value(literal_type(lit)->0, native_order(le_bytes(v as nat, 8)))),
        SpecLiteral::U32(v) => Some(bytes_value(literal_type(lit)->0, native_order(le_bytes(v as nat, 4)))),
        SpecLiteral::U16(v) => Some(bytes_value(literal_type(lit)->0, native_order(le_bytes(v as nat, 2)))),
        SpecLiteral::U8(v) => Some(bytes_value(literal_type(lit)->0, seq![v])),
        SpecLiteral::I128(v) => Some(bytes_value(literal_type(lit)->0, native_order(le_bytes((v as u128) as nat, 16)))),
        SpecLiteral::I64(v) => Some(bytes_value(literal_type(lit)->0, native_order(le_bytes((v as u64) as nat, 8)))),
        SpecLiteral::I32(v) => Some(bytes_value(literal_type(lit)->0, native_order(le_bytes((v as u32) as nat, 4)))),
        SpecLiteral::I16(v) => Some(bytes_value(literal_type(lit)->0, native_order(le_bytes((v as u16) as nat, 2)))),
        SpecLiteral::I8(v) => Some(bytes_value(literal_type(lit)->0, seq![v as u8])),
        SpecLiteral::Bool(b) => Some(bytes_value(literal_type(lit)->0, seq![if b { 1u8 } else { 0u8 }])),
        SpecLiteral::String(s) => {
            let bytes = vstd::utf8::encode_utf8(s);
            Some(reference_value(bytes_value(opaque(Some(bytes.len() as usize), OpaqueTypeKind::Str), bytes)))
        },
        SpecLiteral::FnPtr(_) => None,
    }
}

proof fn lemma_le_bytes_len(v: nat, n: nat)
    ensures
        le_bytes(v, n).len() == n,
    decreases n,
{
    if n > 0 {
        lemma_le_bytes_len(v / 256, (n - 1) as nat);
    }
}

/// Every literal but a function pointer has a value, of the literal's type. A number or a
/// `bool` is held as exactly as many bytes as its type is wide; a string is a reference to
/// its UTF-8 bytes.
pub proof fn law_literal_value(lit: SpecLiteral)
    ensures
        (lit is FnPtr) <==> literal_value(lit) is None,
        !(lit is FnPtr) ==> literal_value(lit)->0.ty == literal_type(lit)->0,
        !(lit is FnPtr) && !(lit is String) ==> (literal_value(lit)->0.inner matches SpecValueInner::Bytes(b)
            && literal_type(lit)->0 == opaque(Some(b.len() as usize), literal_type(lit)->0->Opaque_kind)),
        lit matches SpecLiteral::String(s) ==> deref_value(literal_value(lit)->0).inner == SpecValueInner::Bytes(
            vstd::utf8::encode_utf8(s),
        ),
{
    lemma_le_bytes_len(0, 0);
    match lit {
        SpecLiteral::U128(v) => lemma_le_bytes_len(v as nat, 16),
        SpecLiteral::U64(v) => lemma_le_bytes_len(v as nat, 8),
        SpecLiteral::U32(v) => lemma_le_bytes_len(v as nat, 4),
        SpecLiteral::U16(v) => lemma_le_bytes_len(v as nat, 2),
        SpecLiteral::I128(v) => lemma_le_bytes_len((v as u128) as nat, 16),
        SpecLiteral::I64(v) => lemma_le_bytes_len((v as u64) as nat, 8),
        SpecLiteral::I32(v) => lemma_le_bytes_len((v as u32) as nat, 4),
        SpecLiteral::I16(v) => lemma_le_bytes_len((v as u16) as nat, 2),
        _ => {},
    }
}

/// The value referred to, if `v` is a reference; otherwise `v`.
pub open spec fn deref_value(v: SpecValue) -> SpecValue {
    match v.inner {
        SpecValueInner::Reference { to } => *to,
        _ => v,
    }
}

/// Whether `v`'s type is, or refers to, an opaque string type.
pub open spec fn is_str_typed(v: SpecValue) -> bool {
    match v.ty {
        SpecType::Reference { to } => match *to {
            SpecType::Opaque { kind, .. } => kind == OpaqueTypeKind::Str,
            _ => false,
        },
        SpecType::Opaque { kind, .. } => kind == OpaqueTypeKind::Str,
        _ => false,
    }
}

/// Where `as_strref` can tell: a string-typed value must hold (or refer to) bytes.
pub open spec fn strref_defined(v: SpecValue) -> bool {
    is_str_typed(v) ==> deref_value(v).inner is Bytes
}

/// The string a string-typed value holds, if its bytes are valid UTF-8.
pub open spec fn strref_of(v: SpecValue) -> Option<Seq<char>> {
    if is_str_typed(v) {
        let b = deref_value(v).inner->Bytes_0;
        if vstd::utf8::valid_utf8(b) {
            Some(vstd::utf8::decode_utf8(b))
        } else {
            None
        }
    } else {
        None
    }
}

/// A copy of the bytes of a slice.
fn bytes_vec(b: &[u8]) -> (r: Vec<u8>)
    ensures
        r@ == b@,
{
    let mut v: Vec<u8> = Vec::new();
    let mut i: usize = 0;
    while i < b.len()
        invariant
            i <= b@.len(),
            v@ == b@.take(i as int),
        decreases b.len() - i,
    {
        v.push(b[i]);
        proof {
            assert(b@.take(i + 1) =~= b@.take(i as int).push(b@[i as int]));
        }
        i += 1;
    }
    proof {
        assert(b@.take(b@.len() as int) =~= b@);
    }
    v
}

impl Value {
    pub fn from_typed_bytes(ty: Type, bytes: Vec<u8>) -> (r: Value)
        ensures
            r@ == bytes_value(ty@, bytes@),
    {
        Value { ty, inner: ValueInner::Bytes(bytes) }
    }

    pub fn new_reference(to: Value) -> (r: Value)
        ensures
            r@ == reference_value(to@),
    {
        let ty = Type::Reference { to: Box::new(clone_type(&to.ty)) };
        let r = Value { ty, inner: ValueInner::Reference { to: Rc::new(to) } };
        proof {
            assert(r@.ty == reference_value(to@).ty);
        }
        r
    }

    pub fn new_fn(fn_name: String, effect: StackEffect) -> (r: Value)
        ensures
            r@ == (SpecValue {
                ty: SpecType::Function { name: fn_name@, effect: effect@ },
                inner: SpecValueInner::Function { fn_name: fn_name@ },
            }),
    {
        let ty = Type::Function { name: crate::utils::owned(fn_name.as_str()), effect };
        Value { ty, inner: ValueInner::Function { fn_name } }
    }

    pub fn new_struct(ty: Type, values: Vec<Value>) -> (r: Value)
        ensures
            r@ == (SpecValue { ty: ty@, inner: SpecValueInner::Struct(view_values(values@)) }),
    {
        let r = Value { ty, inner: ValueInner::Struct(values) };
        proof {
            assert(r@.inner->Struct_0 =~= view_values(values@));
        }
        r
    }

    /// Produces a Value from the passed-in literal. Returns None if the literal requires context (e.g. Literal::FnPtr)
    pub fn from_lit(lit: &Literal) -> (r: Option<Value>)
        ensures
            match r {
                Some(v) => literal_value(lit@) == Some(v@),
                None => literal_value(lit@) is None,
            },
    {
        let ty = match Type::from_lit(lit) {
            Some(t) => t,
            None => return None,
        };
        let bytes: Vec<u8> = match lit {
            Literal::U128(v) => bytes_vec(u128_ne_bytes(*v).as_slice()),
            Literal::U64(v) => bytes_vec(u64_ne_bytes(*v).as_slice()),
            Literal::U32(v) => bytes_vec(u32_ne_bytes(*v).as_slice()),
            Literal::U16(v) => bytes_vec(u16_ne_bytes(*v).as_slice()),
            Literal::U8(v) => {
                let b = vec![*v];
                proof {
                    assert(b@ =~= seq![*v]);
                }
                b
            },
            Literal::I128(v) => bytes_vec(u128_ne_bytes(#[verifier::truncate] (*v as u128)).as_slice()),
            Literal::I64(v) => bytes_vec(u64_ne_bytes(#[verifier::truncate] (*v as u64)).as_slice()),
            Literal::I32(v) => bytes_vec(u32_ne_bytes(#[verifier::truncate] (*v as u32)).as_slice()),
            Literal::I16(v) => bytes_vec(u16_ne_bytes(#[verifier::truncate] (*v as u16)).as_slice()),
            Literal::I8(v) => {
                let b = vec![#[verifier::truncate] (*v as u8)];
                proof {
                    assert(b@ =~= seq![*v as u8]);
                }
                b
            },
            Literal::Bool(x) => {
                let b = vec![if *x { 1u8 } else { 0u8 }];
                proof {
                    assert(b@ =~= seq![if *x { 1u8 } else { 0u8 }]);
                }
                b
            },
            Literal::String(s) => {
                let raw = bytes_vec(s.as_str().as_bytes());
                let n = raw.len();
                let inner = Value::from_typed_bytes(Type::new_str(n), raw);
                return Some(Value::new_reference(inner));
            },
            Literal::FnPtr(_) => return None,
        };
        Some(Value::from_typed_bytes(ty, bytes))
    }

    /// The value referred to, if this is a reference; otherwise this value.
    pub fn deref<'a>(&'a self) -> (r: &'a Value)
        ensures
            r@ == deref_value(self@),
    {
        match &self.inner {
            ValueInner::Reference { to } => &**to,
            _ => self,
        }
    }

    /// The string a string-typed value holds, if its bytes are valid UTF-8.
    pub fn as_strref(&self) -> (r: Option<String>)
        requires
            strref_defined(self@),
        ensures
            match r {
                Some(s) => strref_of(self@) == Some(s@),
                None => strref_of(self@) is None,
            },
    {
        let is_str = match self.ty.deref().as_opaque() {
            Some((_, kind)) => *kind == OpaqueTypeKind::Str,
            None => false,
        };
        if !is_str {
            return None;
        }
        match &self.deref().inner {
            ValueInner::Bytes(b) => {
                let copy = bytes_vec(b.as_slice());
                string_from_utf8(copy)
            },
            _ => vstd::pervasive::unreached(),
        }
    }

    /// How the value is shown: its type only.
    pub fn to_string(&self) -> (r: String)
        requires
            showable(self@.ty),
        ensures
            r@ == "Value(of_type: "@ + type_string(self@.ty) + ", value: (unable to be displayed))"@,
    {
        let mut out = crate::utils::owned("Value(of_type: ");
        let t = show_type(&self.ty);
        crate::utils::append(&mut out, t.as_str());
        crate::utils::append(&mut out, ", value: (unable to be displayed))");
        out
    }

    /// The bytes the value holds, if it holds bytes.
    pub fn as_bytes(&self) -> (r: Option<&[u8]>)
        ensures
            match self@.inner {
                SpecValueInner::Bytes(b) => r matches Some(s) && s@ == b,
                _ => r is None,
            },
    {
        match &self.inner {
            ValueInner::Bytes(b) => Some(b.as_slice()),
            _ => None,
        }
    }
}

/// A copy of `v`.
pub fn clone_value(v: &Value) -> (r: Value)
    ensures
        r@ == v@,
    decreases v,
{
    let ty = clone_type(&v.ty);
    let inner = match &v.inner {
        ValueInner::Bytes(b) => ValueInner::Bytes(bytes_vec(b.as_slice())),
        ValueInner::Struct(vs) => {
            let mut out: Vec<Value> = Vec::new();
            let mut i: usize = 0;
            while i < vs.len()
                invariant
                    v.inner == ValueInner::Struct(*vs),
                    i <= vs@.len(),
                    out@.len() == i,
                    forall|j: int| 0 <= j < i ==> (#[trigger] out@[j])@ == vs@[j]@,
                decreases vs.len() - i,
            {
                proof {
                    assert(decreases_to!(*v => v.inner));
                    assert(decreases_to!(v.inner => (v.inner)->Struct_0));
                    assert(decreases_to!((v.inner)->Struct_0 => (v.inner)->Struct_0@));
                    assert(decreases_to!((v.inner)->Struct_0@ => (v.inner)->Struct_0@[i as int]));
                }
                out.push(clone_value(&vs[i]));
                i += 1;
            }
            let r = ValueInner::Struct(out);
            proof {
                assert(view_values(out@) =~= view_values(vs@));
            }
            r
        },
        ValueInner::Reference { to } => {
            proof {
                assert(decreases_to!(*v => v.inner));
                assert(decreases_to!(v.inner => (v.inner)->to));
            }
            ValueInner::Reference { to: Rc::new(clone_value(&**to)) }
        },
        ValueInner::Function { fn_name } => ValueInner::Function { fn_name: crate::utils::owned(fn_name.as_str()) },
    };
    let r = Value { ty, inner };
    proof {
        if v.inner is Struct {
            assert(r@.inner->Struct_0 =~= v@.inner->Struct_0);
        }
    }
    r
}

} // verus!
