use vstd::prelude::*;

use super::error::{AnalysisError, AnalysisErrorKind, SpecAnalysisError, SpecAnalysisErrorKind};
use super::ttype::{
    clone_type, clone_types, effect_showable, effect_string, literal_type, show_effect, type_eq, view_effect, view_fields,
    view_types, SpecType, Type,
};
use crate::parser::tree::Literal;

verus! {

/// What running a piece of code does to the stack: the types it pops (first popped first)
/// and the types it pushes (last pushed last).
#[derive(Debug, PartialEq)]
pub struct StackEffect {
    pub pushed: Vec<Type>,
    pub popped: Vec<Type>,
}

/// The mathematical value of a `StackEffect`.
pub struct SpecStackEffect {
    pub pushed: Seq<SpecType>,
    pub popped: Seq<SpecType>,
}

impl View for StackEffect {
    type V = SpecStackEffect;

    open spec fn view(&self) -> SpecStackEffect {
        view_effect(*self)
    }
}

/// The effect that pops `popped` and pushes `pushed`.
pub open spec fn effect(popped: Seq<SpecType>, pushed: Seq<SpecType>) -> SpecStackEffect {
    SpecStackEffect { pushed, popped }
}

/// The effect of code that does nothing to the stack.
pub open spec fn no_effect() -> SpecStackEffect {
    effect(Seq::empty(), Seq::empty())
}

/// The first pair of types that do not agree when what `pushed` leaves on the stack (its
/// last type on top) is taken by a pop of `popped` (its first type first): the type pushed
/// and the type the pop wants.
pub open spec fn first_mismatch(pushed: Seq<SpecType>, popped: Seq<SpecType>) -> Option<(SpecType, SpecType)>
    decreases popped.len(),
{
    if pushed.len() == 0 || popped.len() == 0 {
        None
    } else if pushed.last() == popped[0] {
        first_mismatch(pushed.drop_last(), popped.drop_first())
    } else {
        Some((pushed.last(), popped[0]))
    }
}

/// How many pushed types a pop of `popped` takes from `pushed`.
pub open spec fn matched(pushed: Seq<SpecType>, popped: Seq<SpecType>) -> int {
    if pushed.len() < popped.len() {
        pushed.len() as int
    } else {
        popped.len() as int
    }
}

/// The effect of running code of effect `a`, then code of effect `b`: the types `b` pops
/// are taken from what `a` pushed (top first) and must be the same types; what `b` pops
/// beyond that is popped from below, and what `a` pushed beyond that stays under what `b`
/// pushes.
pub open spec fn combined(a: SpecStackEffect, b: SpecStackEffect) -> Result<SpecStackEffect, SpecAnalysisError> {
    match first_mismatch(a.pushed, b.popped) {
        Some((source, dest)) => Err(SpecAnalysisError {
            kind: SpecAnalysisErrorKind::IncompatibleTypes { source, dest },
            cursor: 0,
        }),
        None => {
            let k = matched(a.pushed, b.popped);
            Ok(effect(a.popped + b.popped.skip(k), a.pushed.take(a.pushed.len() - k) + b.pushed))
        },
    }
}

/// Whether combining `a` with `b` is defined: the first types that do not agree, if any,
/// are not generic (generic types cannot be combined yet).
pub open spec fn combinable(a: SpecStackEffect, b: SpecStackEffect) -> bool {
    match first_mismatch(a.pushed, b.popped) {
        Some((source, dest)) => !(source is Generic) && !(dest is Generic),
        None => true,
    }
}

/// The effect of a literal, if it can be known without context.
pub open spec fn literal_effect_of(lit: crate::parser::tree::SpecLiteral) -> Option<SpecStackEffect> {
    match literal_type(lit) {
        Some(t) => Some(effect(Seq::empty(), seq![t])),
        None => None,
    }
}

proof fn lemma_view_new(e: StackEffect)
    ensures
        e@ == effect(view_types(e.popped), view_types(e.pushed)),
{
    assert(e@.pushed =~= view_types(e.pushed));
    assert(e@.popped =~= view_types(e.popped));
}

impl StackEffect {
    pub fn new(popped: Vec<Type>, pushed: Vec<Type>) -> (r: Self)
        ensures
            r@ == effect(view_types(popped), view_types(pushed)),
    {
        let r = StackEffect { popped, pushed };
        proof {
            lemma_view_new(r);
        }
        r
    }

    pub fn new_popped(popped: Vec<Type>) -> (r: Self)
        ensures
            r@ == effect(view_types(popped), Seq::empty()),
    {
        let empty: Vec<Type> = Vec::new();
        proof {
            assert(view_types(empty) =~= Seq::<SpecType>::empty());
        }
        let r = Self::new(popped, empty);
        r
    }

    pub fn new_pushed(pushed: Vec<Type>) -> (r: Self)
        ensures
            r@ == effect(Seq::empty(), view_types(pushed)),
    {
        let empty: Vec<Type> = Vec::new();
        proof {
            assert(view_types(empty) =~= Seq::<SpecType>::empty());
        }
        let r = Self::new(empty, pushed);
        r
    }

    pub fn none() -> (r: Self)
        ensures
            r@ == no_effect(),
    {
        let r = StackEffect { popped: Vec::new(), pushed: Vec::new() };
        proof {
            lemma_view_new(r);
            assert(view_types(r.popped) =~= Seq::<SpecType>::empty());
            assert(view_types(r.pushed) =~= Seq::<SpecType>::empty());
        }
        r
    }

    /// The effect of constructing a value of type `of` from its fields: the field types are
    /// popped in field order, and the value is pushed.
    pub fn new_constructor(of: Type, fields: &Vec<(String, Type)>) -> (r: StackEffect)
        ensures
            r@ == effect(view_fields(fields@).map_values(|f: (Seq<char>, SpecType)| f.1), seq![of@]),
    {
        let mut popped: Vec<Type> = Vec::new();
        let mut i: usize = 0;
        while i < fields.len()
            invariant
                i <= fields@.len(),
                popped@.len() == i,
                forall|j: int| 0 <= j < i ==> (#[trigger] popped@[j])@ == fields@[j].1@,
            decreases fields.len() - i,
        {
            popped.push(clone_type(&fields[i].1));
            i += 1;
        }
        let pushed = vec![of];
        let r = StackEffect::new(popped, pushed);
        proof {
            assert(view_types(popped) =~= view_fields(fields@).map_values(|f: (Seq<char>, SpecType)| f.1));
            assert(view_types(pushed) =~= seq![of@]);
        }
        r
    }

    /// The effect of reading a field of type `field_type` from a value of type `of`: the value
    /// stays, and the field's value is pushed on it.
    pub fn new_field_access(of: Type, field_type: Type) -> (r: StackEffect)
        ensures
            r@ == effect(seq![of@], seq![of@, field_type@]),
    {
        let copy = clone_type(&of);
        let popped = vec![copy];
        let pushed = vec![of, field_type];
        let r = StackEffect::new(popped, pushed);
        proof {
            assert(view_types(popped) =~= seq![of@]);
            assert(view_types(pushed) =~= seq![of@, field_type@]);
        }
        r
    }

    /// How the effect is shown: `( popped -> pushed )`.
    pub fn to_string(&self) -> (r: String)
        requires
            effect_showable(self@),
        ensures
            r@ == effect_string(self@),
    {
        show_effect(self)
    }

    /// The type pushed last, if any.
    pub fn last_pushed<'a>(&'a self) -> (r: Option<&'a Type>)
        ensures
            match r {
                Some(t) => self@.pushed.len() > 0 && t@ == self@.pushed.last(),
                None => self@.pushed.len() == 0,
            },
    {
        let n = self.pushed.len();
        if n == 0 {
            None
        } else {
            Some(&self.pushed[n - 1])
        }
    }

    /// Returns the stack effect of the passed-in literal, or None if the literal requires context to work out the type (e.g. FnPtr)
    pub fn from_lit(lit: &Literal) -> (r: Option<StackEffect>)
        ensures
            match r {
                Some(e) => literal_effect_of(lit@) == Some(e@),
                None => literal_effect_of(lit@) is None,
            },
    {
        match Type::from_lit(lit) {
            Some(t) => {
                let pushed = vec![t];
                let r = StackEffect::new_pushed(pushed);
                proof {
                    assert(view_types(pushed) =~= seq![t@]);
                }
                Some(r)
            },
            None => None,
        }
    }

    /// Whether `self` and `next` can be combined: where a pushed type and the type popped
    /// against it differ, neither is generic (see `combinable`).
    pub fn can_combine(&self, next: &StackEffect) -> (r: bool)
        ensures
            r == combinable(self@, next@),
    {
        let ghost a = self@;
        let ghost b = next@;
        proof {
            lemma_view_new(*self);
            lemma_view_new(*next);
            assert(b.popped.skip(0) =~= b.popped);
            assert(a.pushed.take(self.pushed@.len() as int) =~= a.pushed);
        }
        let n = self.pushed.len();
        let mut i: usize = 0;
        while i < n && i < next.popped.len()
            invariant
                a == self@,
                b == next@,
                a.pushed == view_types(self.pushed),
                b.popped == view_types(next.popped),
                n == self.pushed@.len(),
                i <= n,
                i <= b.popped.len(),
                first_mismatch(a.pushed, b.popped) == first_mismatch(a.pushed.take(n - i), b.popped.skip(i as int)),
            decreases n - i,
        {
            let ghost ps = a.pushed.take(n - i);
            let ghost qs = b.popped.skip(i as int);
            let p = &self.pushed[n - 1 - i];
            proof {
                assert(ps.last() == p@);
                assert(qs[0] == next.popped@[i as int]@);
                assert(ps.drop_last() =~= a.pushed.take(n - (i + 1)));
                assert(qs.drop_first() =~= b.popped.skip(i + 1));
            }
            if !type_eq(p, &next.popped[i]) {
                let is_generic = match (p, &next.popped[i]) {
                    (Type::Generic { .. }, _) => true,
                    (_, Type::Generic { .. }) => true,
                    _ => false,
                };
                proof {
                    assert(first_mismatch(ps, qs) == Some((p@, qs[0])));
                }
                return !is_generic;
            }
            i += 1;
        }
        proof {
            let ps = a.pushed.take(n - i);
            let qs = b.popped.skip(i as int);
            assert(ps.len() == 0 || qs.len() == 0);
        }
        true
    }

    /// The effect of running code of this effect, then code of effect `next`; an error if
    /// the types that `next` pops from what this one pushed differ.
    pub fn combine(self, next: &StackEffect) -> (r: Result<StackEffect, AnalysisError>)
        requires
            combinable(self@, next@),
        ensures
            match r {
                Ok(e) => combined(self@, next@) == Ok::<SpecStackEffect, SpecAnalysisError>(e@),
                Err(x) => combined(self@, next@) == Err::<SpecStackEffect, SpecAnalysisError>(x@),
            },
    {
        let ghost a = self@;
        let ghost b = next@;
        proof {
            lemma_view_new(self);
            lemma_view_new(*next);
        }
        let StackEffect { pushed: mut pushed, popped: mut popped } = self;
        let n = pushed.len();
        let mut i: usize = 0;
        proof {
            assert(b.popped.skip(0) =~= b.popped);
            assert(a.pushed.take(n as int) =~= a.pushed);
        }
        while pushed.len() > 0 && i < next.popped.len()
            invariant
                a == self@,
                b == next@,
                b.popped == view_types(next.popped),
                combinable(a, b),
                i <= b.popped.len(),
                pushed@.len() + i == a.pushed.len(),
                view_types(pushed) == a.pushed.take(pushed@.len() as int),
                first_mismatch(a.pushed, b.popped) == first_mismatch(view_types(pushed), b.popped.skip(i as int)),
                matched(a.pushed, b.popped) == i + matched(view_types(pushed), b.popped.skip(i as int)),
            decreases pushed.len(),
        {
            let ghost ps = view_types(pushed);
            let ghost qs = b.popped.skip(i as int);
            let p = pushed.pop().unwrap();
            proof {
                assert(ps.last() == p@);
                assert(qs[0] == next.popped@[i as int]@);
                assert(ps.drop_last() =~= view_types(pushed));
                assert(qs.drop_first() =~= b.popped.skip(i + 1));
                assert(view_types(pushed) =~= a.pushed.take(pushed@.len() as int));
            }
            if type_eq(&p, &next.popped[i]) {
                i += 1;
            } else {
                let is_generic = match (&p, &next.popped[i]) {
                    (Type::Generic { .. }, _) => true,
                    (_, Type::Generic { .. }) => true,
                    _ => false,
                };
                if is_generic {
                    // generic types cannot be combined yet
                    return vstd::pervasive::unreached();
                }
                let dest = clone_type(&next.popped[i]);
                proof {
                    assert(ps.len() > 0 && qs.len() > 0);
                    assert(ps.last() != qs[0]);
                    assert(first_mismatch(ps, qs) == Some((p@, dest@)));
                }
                let kind = AnalysisErrorKind::IncompatibleTypes { source: p, dest };
                let err = AnalysisError::new(kind, 0);
                proof {
                    assert(kind@ == SpecAnalysisErrorKind::IncompatibleTypes { source: p@, dest: dest@ });
                    assert(combined(a, b) == Err::<SpecStackEffect, SpecAnalysisError>(err@));
                }
                return Err(err);
            }
        }
        let mut j: usize = i;
        while j < next.popped.len()
            invariant
                b == next@,
                b.popped == view_types(next.popped),
                i <= j <= b.popped.len(),
                view_types(popped) == a.popped + b.popped.subrange(i as int, j as int),
            decreases next.popped.len() - j,
        {
            let ghost before = view_types(popped);
            popped.push(clone_type(&next.popped[j]));
            proof {
                assert(view_types(popped) =~= before.push(next.popped@[j as int]@));
                assert(b.popped.subrange(i as int, j + 1) =~= b.popped.subrange(i as int, j as int).push(b.popped[j as int]));
            }
            j += 1;
        }
        let mut extra = clone_types(&next.pushed);
        let ghost kept = view_types(pushed);
        pushed.append(&mut extra);
        proof {
            assert(b.pushed =~= view_types(next.pushed));
            assert(view_types(pushed) =~= kept + b.pushed);
            assert(b.popped.subrange(i as int, b.popped.len() as int) =~= b.popped.skip(i as int));
        }
        let r = StackEffect { pushed, popped };
        proof {
            lemma_view_new(r);
        }
        Ok(r)
    }
}

/// The types that a pop of `popped` takes from `pushed` are, top first, the types it wants.
pub open spec fn agree(pushed: Seq<SpecType>, popped: Seq<SpecType>) -> bool {
    forall|i: int| 0 <= i < matched(pushed, popped) ==> #[trigger] pushed[pushed.len() - 1 - i] == popped[i]
}

proof fn lemma_first_mismatch(pushed: Seq<SpecType>, popped: Seq<SpecType>)
    ensures
        first_mismatch(pushed, popped) is None <==> agree(pushed, popped),
    decreases popped.len(),
{
    if pushed.len() == 0 || popped.len() == 0 {
    } else if pushed.last() == popped[0] {
        let p2 = pushed.drop_last();
        let q2 = popped.drop_first();
        lemma_first_mismatch(p2, q2);
        if agree(p2, q2) {
            assert forall|i: int| 0 <= i < matched(pushed, popped) implies #[trigger] pushed[pushed.len() - 1 - i] == popped[i] by {
                if i > 0 {
                    assert(p2[p2.len() - 1 - (i - 1)] == q2[i - 1]);
                }
            }
        }
        if agree(pushed, popped) {
            assert forall|i: int| 0 <= i < matched(p2, q2) implies #[trigger] p2[p2.len() - 1 - i] == q2[i] by {
                assert(pushed[pushed.len() - 1 - (i + 1)] == popped[i + 1]);
            }
        }
    } else {
        assert(pushed[pushed.len() - 1 - 0] != popped[0]);
    }
}

/// Doing nothing, then running code of effect `e`, has effect `e`.
pub proof fn law_combine_none_left(e: SpecStackEffect)
    ensures
        combined(no_effect(), e) == Ok::<SpecStackEffect, SpecAnalysisError>(e),
{
    assert(e.popped.skip(0) =~= e.popped);
    assert(Seq::<SpecType>::empty().take(0) + e.pushed =~= e.pushed);
    assert(Seq::<SpecType>::empty() + e.popped =~= e.popped);
}

/// Running code of effect `e`, then doing nothing, has effect `e`.
pub proof fn law_combine_none_right(e: SpecStackEffect)
    ensures
        combined(e, no_effect()) == Ok::<SpecStackEffect, SpecAnalysisError>(e),
{
    assert(e.popped + Seq::<SpecType>::empty().skip(0) =~= e.popped);
    assert(e.pushed.take(e.pushed.len() as int) + Seq::<SpecType>::empty() =~= e.pushed);
}

/// Combining is associative: where running `a` then `b`, and that then `c`, is well typed,
/// so is running `b` then `c`, and running `a` then that has the same effect.
pub proof fn law_combine_associative(a: SpecStackEffect, b: SpecStackEffect, c: SpecStackEffect)
    requires
        combined(a, b) is Ok,
        combined(combined(a, b)->Ok_0, c) is Ok,
    ensures
        combined(b, c) is Ok,
        combined(a, combined(b, c)->Ok_0) == combined(combined(a, b)->Ok_0, c),
{
    let ab = combined(a, b)->Ok_0;
    let (ua, pb, ub, pc) = (a.pushed, b.popped, b.pushed, c.popped);
    lemma_first_mismatch(ua, pb);
    lemma_first_mismatch(ab.pushed, pc);
    let k1 = matched(ua, pb);
    let k2 = matched(ab.pushed, pc);
    assert(ab.pushed =~= ua.take(ua.len() - k1) + ub);
    // b then c agrees: c takes from what b pushed first
    lemma_first_mismatch(ub, pc);
    let k3 = matched(ub, pc);
    assert forall|i: int| 0 <= i < k3 implies #[trigger] ub[ub.len() - 1 - i] == pc[i] by {
        assert(ab.pushed[ab.pushed.len() - 1 - i] == pc[i]);
    }
    let bc = combined(b, c)->Ok_0;
    assert(bc.popped == pb + pc.skip(k3));
    assert(bc.pushed == ub.take(ub.len() - k3) + c.pushed);
    // a then (b then c) agrees
    lemma_first_mismatch(ua, bc.popped);
    let k4 = matched(ua, bc.popped);
    assert forall|i: int| 0 <= i < k4 implies #[trigger] ua[ua.len() - 1 - i] == bc.popped[i] by {
        if i < pb.len() {
            assert(ua[ua.len() - 1 - i] == pb[i]);
        } else {
            let j = ub.len() + i - pb.len();
            assert(ab.pushed[ab.pushed.len() - 1 - j] == pc[j]);
        }
    }
    let abc = combined(a, bc)->Ok_0;
    let ab_c = combined(ab, c)->Ok_0;
    assert(abc.popped =~= ab_c.popped);
    assert(abc.pushed =~= ab_c.pushed);
}

} // verus!
