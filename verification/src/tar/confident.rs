//! Values that remember how much their source is trusted, so that a more trusted source is never
//! overridden by a less trusted one.
use vstd::prelude::*;

verus! {

/// How much a value read from a tar archive is trusted, by the record it came from: a `v7`
/// header, a `ustar` header, a GNU header, a global PAX header or a local PAX header, from the
/// least to the most trusted.
#[derive(PartialEq, Eq, Clone, Copy, Debug, Structural)]
pub enum TarConfidence {
    V7,
    Ustar,
    Gnu,
    PaxGlobal,
    PaxLocal,
}

impl TarConfidence {
    /// The place of the confidence, from the least trusted up.
    pub open spec fn rank(&self) -> nat {
        match self {
            TarConfidence::V7 => 1,
            TarConfidence::Ustar => 2,
            TarConfidence::Gnu => 3,
            TarConfidence::PaxGlobal => 4,
            TarConfidence::PaxLocal => 5,
        }
    }

    /// The place of the confidence, from the least trusted up.
    pub fn level(&self) -> (r: u8)
        ensures
            r == self.rank(),
    {
        match self {
            TarConfidence::V7 => 1,
            TarConfidence::Ustar => 2,
            TarConfidence::Gnu => 3,
            TarConfidence::PaxGlobal => 4,
            TarConfidence::PaxLocal => 5,
        }
    }

    /// The confidence of a value from a PAX header of the given kind.
    pub open spec fn of_pax(c: PaxConfidence) -> TarConfidence {
        match c {
            PaxConfidence::GLOBAL => TarConfidence::PaxGlobal,
            PaxConfidence::LOCAL => TarConfidence::PaxLocal,
        }
    }

    /// The confidence of a value from a PAX header of the given kind.
    pub fn from_pax(c: PaxConfidence) -> (r: TarConfidence)
        ensures
            r == TarConfidence::of_pax(c),
    {
        match c {
            PaxConfidence::GLOBAL => TarConfidence::PaxGlobal,
            PaxConfidence::LOCAL => TarConfidence::PaxLocal,
        }
    }
}

/// The kind of PAX header a value came from: a global one, or the local one of the next entry,
/// which is more trusted.
#[derive(Debug, PartialEq, Eq, Clone, Copy, Structural)]
#[allow(non_camel_case_types)]
pub enum PaxConfidence {
    GLOBAL,
    LOCAL,
}

/// A value together with the confidence of its source.
///
/// A `ConfidentValue` only takes a new value from a source that is trusted at least as much as
/// the source of the value it holds, unless it is set outright.
#[derive(Debug, PartialEq, Eq, Clone)]
pub struct ConfidentValue<T> {
    value: Option<(TarConfidence, T)>,
}

impl<T> ConfidentValue<T> {
    /// The confidence and the value held, if any.
    pub closed spec fn held(&self) -> Option<(TarConfidence, T)> {
        self.value
    }

    /// The value held is trusted strictly more than `c`.
    pub open spec fn superior_to(&self, c: TarConfidence) -> bool {
        self.held() matches Some((current, _)) && current.rank() > c.rank()
    }

    /// The value held, if any.
    pub open spec fn value_of(&self) -> Option<T> {
        match self.held() {
            Some((_, v)) => Some(v),
            None => None,
        }
    }

    /// Creates a new, empty `ConfidentValue`.
    pub fn new() -> (r: Self)
        ensures
            r.held() == None::<(TarConfidence, T)>,
    {
        ConfidentValue { value: None }
    }

    /// Returns `true` if the value held has a strictly greater confidence than `new_confidence`.
    pub fn has_superior_confidence(&self, new_confidence: TarConfidence) -> (r: bool)
        ensures
            r == self.superior_to(new_confidence),
    {
        match &self.value {
            Some((current, _)) => current.level() > new_confidence.level(),
            None => false,
        }
    }

    /// Unconditionally sets or replaces the value and its confidence.
    pub fn set(&mut self, confidence: TarConfidence, value: T)
        ensures
            final(self).held() == Some((confidence, value)),
    {
        self.value = Some((confidence, value));
    }

    /// Returns a reference to the value held, if any.
    pub fn get(&self) -> (r: Option<&T>)
        ensures
            r matches Some(v) ==> self.value_of() == Some(*v),
            r is None <==> self.held() is None,
    {
        match &self.value {
            Some((_, v)) => Some(v),
            None => None,
        }
    }

    /// Returns the confidence and the value held, if any.
    pub fn get_with_confidence(&self) -> (r: Option<(&TarConfidence, &T)>)
        ensures
            r matches Some((c, v)) ==> self.held() == Some((*c, *v)),
            r is None <==> self.held() is None,
    {
        match &self.value {
            Some((c, v)) => Some((c, v)),
            None => None,
        }
    }

    /// Returns the value held only if its confidence is at most `max_confidence`.
    pub fn get_if_confidence_le(&self, max_confidence: TarConfidence) -> (r: Option<&T>)
        ensures
            r matches Some(v) ==> {
                &&& self.held() matches Some((c, w))
                &&& w == *v
                &&& c.rank() <= max_confidence.rank()
            },
            r is None <==> !(self.held() matches Some((c, _)) && c.rank() <= max_confidence.rank()),
    {
        match &self.value {
            Some((c, v)) => {
                if c.level() <= max_confidence.level() {
                    Some(v)
                } else {
                    None
                }
            },
            None => None,
        }
    }

    /// Takes the value out when its confidence is at most `max_confidence`.
    pub fn extract_if_confidence_le(&mut self, max_confidence: TarConfidence) -> (r: Option<T>)
        ensures
            match old(self).held() {
                Some((c, v)) => if c.rank() <= max_confidence.rank() {
                    r == Some(v) && final(self).held() is None
                } else {
                    r is None && final(self).held() == old(self).held()
                },
                None => r is None && final(self).held() == old(self).held(),
            },
    {
        let take = match &self.value {
            Some((c, _)) => c.level() <= max_confidence.level(),
            None => false,
        };
        if take {
            match self.value.take() {
                Some((_, v)) => Some(v),
                None => None,
            }
        } else {
            None
        }
    }

    /// Sets the value from `f` unless the value held has a greater confidence; an error of `f`
    /// leaves the value as it was. Returns the value held in the end, or the error.
    pub fn try_get_or_set_with<E, F: FnOnce() -> Result<T, E>>(
        &mut self,
        new_confidence: TarConfidence,
        f: F,
    ) -> (r: Result<&T, E>)
        requires
            !old(self).superior_to(new_confidence) ==> f.requires(()),
        ensures
            old(self).superior_to(new_confidence) ==> {
                &&& final(self).held() == old(self).held()
                &&& r matches Ok(v) && old(self).value_of() == Some(*v)
            },
            !old(self).superior_to(new_confidence) ==> match r {
                Ok(v) => f.ensures((), Ok(*v)) && final(self).held() == Some((new_confidence, *v)),
                Err(e) => f.ensures((), Err(e)) && final(self).held() == old(self).held(),
            },
    {
        if !self.has_superior_confidence(new_confidence) {
            match f() {
                Ok(parsed) => {
                    self.value = Some((new_confidence, parsed));
                },
                Err(e) => {
                    return Err(e);
                },
            }
        }
        let held = self.value.as_ref().unwrap();
        Ok(&held.1)
    }

    /// Sets the value from `f` unless the value held has a greater confidence or `f` gives
    /// nothing. Returns the value held in the end.
    pub fn get_or_set_with<F: FnOnce() -> Option<T>>(&mut self, new_confidence: TarConfidence, f: F) -> (r: Option<&T>)
        requires
            !old(self).superior_to(new_confidence) ==> f.requires(()),
        ensures
            old(self).superior_to(new_confidence) ==> final(self).held() == old(self).held(),
            !old(self).superior_to(new_confidence) ==> exists|out: Option<T>|
                f.ensures((), out) && match out {
                    Some(v) => final(self).held() == Some((new_confidence, v)),
                    None => final(self).held() == old(self).held(),
                },
            r matches Some(v) ==> final(self).value_of() == Some(*v),
            r is None <==> final(self).held() is None,
    {
        if !self.has_superior_confidence(new_confidence) {
            match f() {
                Some(parsed) => {
                    self.value = Some((new_confidence, parsed));
                },
                None => {},
            }
        }
        self.get()
    }

    /// Takes the value of `other` unless the value held has a greater confidence.
    /// Returns the value held in the end.
    pub fn update_with(&mut self, other: ConfidentValue<T>) -> (r: Option<&T>)
        ensures
            match other.held() {
                Some((c, v)) => if old(self).superior_to(c) {
                    final(self).held() == old(self).held()
                } else {
                    final(self).held() == Some((c, v))
                },
                None => final(self).held() == old(self).held(),
            },
            r matches Some(v) ==> final(self).value_of() == Some(*v),
            r is None <==> final(self).held() is None,
    {
        match other.value {
            Some((c, v)) => {
                if !self.has_superior_confidence(c) {
                    self.value = Some((c, v));
                }
            },
            None => {},
        }
        self.get()
    }
}

/// Whatever a `ConfidentValue` is updated with, the confidence it holds never drops, and it
/// holds a value from then on if it held one before.
pub proof fn law_confidence_never_drops<T>(before: Option<(TarConfidence, T)>, other: Option<(TarConfidence, T)>, after: Option<(TarConfidence, T)>)
    requires
        match other {
            Some((c, v)) => if (before matches Some((cur, _)) && cur.rank() > c.rank()) {
                after == before
            } else {
                after == Some((c, v))
            },
            None => after == before,
        },
    ensures
        before matches Some((cb, _)) ==> after matches Some((ca, _)) && ca.rank() >= cb.rank(),
{
}

/// A value from a global PAX header and one from the local PAX header of the next entry; the
/// local one is the one that counts while it is set.
#[derive(Debug, PartialEq, Eq, Clone)]
pub struct PaxConfidentValue<T> {
    global: Option<T>,
    local: Option<T>,
}

impl<T> PaxConfidentValue<T> {
    /// The value from a global header.
    pub closed spec fn global_value(&self) -> Option<T> {
        self.global
    }

    /// The value from the local header.
    pub closed spec fn local_value(&self) -> Option<T> {
        self.local
    }

    /// The value that counts: the local one if set, else the global one.
    pub open spec fn current(&self) -> Option<T> {
        if self.local_value() is Some {
            self.local_value()
        } else {
            self.global_value()
        }
    }

    /// No value at all.
    pub fn new() -> (r: Self)
        ensures
            r.global_value() == None::<T>,
            r.local_value() == None::<T>,
    {
        PaxConfidentValue { global: None, local: None }
    }

    /// Forgets the local value.
    pub fn reset_local(&mut self)
        ensures
            final(self).local_value() == None::<T>,
            final(self).global_value() == old(self).global_value(),
    {
        self.local = None;
    }

    /// Returns the local value if it exists, otherwise the global value.
    pub fn get(&self) -> (r: Option<&T>)
        ensures
            r matches Some(v) ==> self.current() == Some(*v),
            r is None <==> self.current() is None,
    {
        match &self.local {
            Some(v) => Some(v),
            None => match &self.global {
                Some(v) => Some(v),
                None => None,
            },
        }
    }

    /// Returns the local value if it exists, otherwise the global value, for changing in place.
    pub fn get_mut(&mut self) -> (r: Option<&mut T>)
        ensures
            match old(self).local_value() {
                Some(l) => {
                    &&& r is Some
                    &&& *r.unwrap() == l
                    &&& final(self).local_value() == Some(*final(r.unwrap()))
                    &&& final(self).global_value() == old(self).global_value()
                },
                None => {
                    &&& final(self).local_value() is None
                    &&& match old(self).global_value() {
                        Some(g) => {
                            &&& r is Some
                            &&& *r.unwrap() == g
                            &&& final(self).global_value() == Some(*final(r.unwrap()))
                        },
                        None => r is None && final(self).global_value() is None,
                    }
                },
            },
    {
        if self.local.is_some() {
            self.local.as_mut()
        } else {
            self.global.as_mut()
        }
    }

    /// Returns the value that counts and the kind of header it came from.
    pub fn get_with_confidence(&self) -> (r: Option<(PaxConfidence, &T)>)
        ensures
            self.local_value() matches Some(l) ==> r matches Some((c, v)) && c == PaxConfidence::LOCAL
                && *v == l,
            self.local_value() is None ==> match self.global_value() {
                Some(g) => r matches Some((c, v)) && c == PaxConfidence::GLOBAL && *v == g,
                None => r is None,
            },
    {
        match &self.local {
            Some(v) => Some((PaxConfidence::LOCAL, v)),
            None => match &self.global {
                Some(v) => Some((PaxConfidence::GLOBAL, v)),
                None => None,
            },
        }
    }

    /// Stores a value from a header of the given kind; returns the value that counts then.
    pub fn insert_with_confidence(&mut self, confidence: PaxConfidence, value: T) -> (r: Option<&T>)
        ensures
            confidence == PaxConfidence::GLOBAL ==> final(self).global_value() == Some(value)
                && final(self).local_value() == old(self).local_value(),
            confidence == PaxConfidence::LOCAL ==> final(self).local_value() == Some(value)
                && final(self).global_value() == old(self).global_value(),
            r matches Some(v) ==> final(self).current() == Some(*v),
            r is None <==> final(self).current() is None,
    {
        match confidence {
            PaxConfidence::GLOBAL => {
                self.global = Some(value);
            },
            PaxConfidence::LOCAL => {
                self.local = Some(value);
            },
        }
        self.get()
    }
}

/// A local value shadows the global one until it is reset, and the global one counts again
/// after a reset.
pub proof fn law_local_shadows_global<T>(v: PaxConfidentValue<T>)
    ensures
        v.local_value() is Some ==> v.current() == v.local_value(),
        v.local_value() is None ==> v.current() == v.global_value(),
{
}

} // verus!
