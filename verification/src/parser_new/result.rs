use vstd::prelude::*;

verus! {

/// The outcome of trying to scan one syntactic structure.
#[must_use]
pub enum ScanResult<T, E> {
    /// Denotes a correctly scanned/parsed structure
    Valid(T),
    /// Denotes a structure that was present but was not correctly scanned/parsed - i.e., it had an error
    WithErr(E),
    /// Denotes that the text was not recognised to be the structure, so when choosing between multiple it is likely to be other structures
    Unrecognised,
}

impl<T: View, E: View> View for ScanResult<T, E> {
    type V = ScanResult<T::V, E::V>;

    open spec fn view(&self) -> ScanResult<T::V, E::V> {
        match self {
            ScanResult::Valid(v) => ScanResult::Valid(v@),
            ScanResult::WithErr(e) => ScanResult::WithErr(e@),
            ScanResult::Unrecognised => ScanResult::Unrecognised,
        }
    }
}

impl<T, E> ScanResult<T, E> {
    pub fn is_valid(&self) -> (r: bool)
        ensures
            r == (self is Valid),
    {
        match self {
            ScanResult::Valid(_) => true,
            _ => false,
        }
    }

    /// Turns an `Unrecognised` into the given error; keeps the other outcomes.
    pub fn require(self, err: E) -> (r: Self)
        ensures
            r == (match self {
                ScanResult::Unrecognised => ScanResult::WithErr(err),
                s => s,
            }),
    {
        match self {
            ScanResult::Unrecognised => ScanResult::WithErr(err),
            s => s,
        }
    }

    /// Applies `f` to a valid result; keeps errors and `Unrecognised`.
    pub fn map<U>(self, f: impl FnOnce(T) -> U) -> (r: ScanResult<U, E>)
        requires
            self matches ScanResult::Valid(v) ==> f.requires((v,)),
        ensures
            match self {
                ScanResult::Valid(v) => r matches ScanResult::Valid(u) && f.ensures((v,), u),
                ScanResult::WithErr(e) => r == ScanResult::<U, E>::WithErr(e),
                ScanResult::Unrecognised => r is Unrecognised,
            },
            forall|sf: spec_fn(T) -> U| #![auto] (forall|v: T, u: U| #[trigger] f.ensures((v,), u) ==> u == sf(v))
                ==> r == map_valid(self, sf),
    {
        match self {
            ScanResult::Valid(v) => ScanResult::Valid(f(v)),
            ScanResult::WithErr(e) => ScanResult::WithErr(e),
            ScanResult::Unrecognised => ScanResult::Unrecognised,
        }
    }

    /// Makes a missing structure acceptable: `Unrecognised` becomes `Valid(None)`.
    pub fn optional(self) -> (r: ScanResult<Option<T>, E>)
        ensures
            r == (match self {
                ScanResult::Valid(v) => ScanResult::Valid(Some(v)),
                ScanResult::WithErr(e) => ScanResult::WithErr(e),
                ScanResult::Unrecognised => ScanResult::<Option<T>, E>::Valid(None),
            }),
    {
        match self {
            ScanResult::Valid(v) => ScanResult::Valid(Some(v)),
            ScanResult::WithErr(e) => ScanResult::WithErr(e),
            ScanResult::Unrecognised => ScanResult::Valid(None),
        }
    }
}

/// `r` with `f` applied to a valid result.
pub open spec fn map_valid<T, U, E>(r: ScanResult<T, E>, f: spec_fn(T) -> U) -> ScanResult<U, E> {
    match r {
        ScanResult::Valid(v) => ScanResult::Valid(f(v)),
        ScanResult::WithErr(e) => ScanResult::WithErr(e),
        ScanResult::Unrecognised => ScanResult::Unrecognised,
    }
}

/// Mapping with the identity changes nothing.
pub proof fn law_map_identity<T, E>(r: ScanResult<T, E>)
    ensures
        map_valid(r, |x: T| x) == r,
{
}

/// Mapping with `f` and then with `g` is mapping once with `g` after `f`.
pub proof fn law_map_composition<T, U, V, E>(r: ScanResult<T, E>, f: spec_fn(T) -> U, g: spec_fn(U) -> V)
    ensures
        map_valid(map_valid(r, f), g) == map_valid(r, |x: T| g(f(x))),
{
}

/// What `map` gives with a function `f` whose results `sf` names: `map_valid(r, sf)`; `f`
/// is called on the value of a valid result and only then.
pub proof fn law_map_is_map_valid<T, U, E, F: FnOnce(T) -> U>(r: ScanResult<T, E>, f: F, sf: spec_fn(T) -> U, out: ScanResult<U, E>)
    requires
        forall|v: T, u: U| #[trigger] f.ensures((v,), u) ==> u == sf(v),
        match r {
            ScanResult::Valid(v) => out matches ScanResult::Valid(u) && f.ensures((v,), u),
            ScanResult::WithErr(e) => out == ScanResult::<U, E>::WithErr(e),
            ScanResult::Unrecognised => out is Unrecognised,
        },
    ensures
        out == map_valid(r, sf),
{
}

/// What converting an `Option` gives: `Some` is valid, `None` is not recognised.
pub open spec fn scan_of_option<T, E>(value: Option<T>) -> ScanResult<T, E> {
    match value {
        Some(v) => ScanResult::Valid(v),
        None => ScanResult::Unrecognised,
    }
}

/// What converting a `bool` gives: `true` is valid, `false` is not recognised.
pub open spec fn scan_of_bool<E>(value: bool) -> ScanResult<(), E> {
    if value {
        ScanResult::Valid(())
    } else {
        ScanResult::Unrecognised
    }
}

impl<T, E> From<Option<T>> for ScanResult<T, E> {
    fn from(value: Option<T>) -> (r: Self) {
        match value {
            Some(v) => ScanResult::Valid(v),
            None => ScanResult::Unrecognised,
        }
    }
}

impl<T, E> vstd::std_specs::convert::FromSpecImpl<Option<T>> for ScanResult<T, E> {
    open spec fn obeys_from_spec() -> bool {
        true
    }

    open spec fn from_spec(v: Option<T>) -> Self {
        scan_of_option(v)
    }
}

impl<E> From<bool> for ScanResult<(), E> {
    fn from(value: bool) -> (r: Self) {
        if value {
            ScanResult::Valid(())
        } else {
            ScanResult::Unrecognised
        }
    }
}

impl<E> vstd::std_specs::convert::FromSpecImpl<bool> for ScanResult<(), E> {
    open spec fn obeys_from_spec() -> bool {
        true
    }

    open spec fn from_spec(v: bool) -> Self {
        scan_of_bool(v)
    }
}

} // verus!
