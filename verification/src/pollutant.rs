//! The pollutants the engine knows about, and a small total map keyed by them.

use vstd::prelude::*;

verus! {

/// A pollutant, or the overall air-quality index, that a reading can carry.
#[derive(Clone, Copy, Debug, PartialEq, Eq, Structural)]
pub enum PollutantKind {
    Pm25,
    Pm10,
    O3,
    Aqi,
}

/// Number of pollutant kinds.
pub const KIND_COUNT: usize = 4;

impl PollutantKind {
    /// Position of this kind in the canonical order `Pm25, Pm10, O3, Aqi`.
    pub open spec fn spec_index(self) -> int {
        match self {
            PollutantKind::Pm25 => 0,
            PollutantKind::Pm10 => 1,
            PollutantKind::O3 => 2,
            PollutantKind::Aqi => 3,
        }
    }

    /// The kind at position `i` of the canonical order (`Aqi` past the end).
    pub open spec fn spec_at(i: int) -> PollutantKind {
        if i == 0 {
            PollutantKind::Pm25
        } else if i == 1 {
            PollutantKind::Pm10
        } else if i == 2 {
            PollutantKind::O3
        } else {
            PollutantKind::Aqi
        }
    }

    /// Position of this kind in the canonical order.
    pub fn index(self) -> (i: usize)
        ensures
            i == self.spec_index(),
            i < KIND_COUNT,
            PollutantKind::spec_at(i as int) == self,
    {
        match self {
            PollutantKind::Pm25 => 0,
            PollutantKind::Pm10 => 1,
            PollutantKind::O3 => 2,
            PollutantKind::Aqi => 3,
        }
    }

    /// The kind at position `i` of the canonical order.
    pub fn at(i: usize) -> (kind: PollutantKind)
        requires
            i < KIND_COUNT,
        ensures
            kind == PollutantKind::spec_at(i as int),
            kind.spec_index() == i,
    {
        if i == 0 {
            PollutantKind::Pm25
        } else if i == 1 {
            PollutantKind::Pm10
        } else if i == 2 {
            PollutantKind::O3
        } else {
            PollutantKind::Aqi
        }
    }
}

/// A finite map from pollutant kind to a value, with at most one value per
/// kind. Its view is the mathematical map.
#[derive(Clone, Copy, Debug, PartialEq, Eq)]
pub struct KindMap<T> {
    pub pm25: Option<T>,
    pub pm10: Option<T>,
    pub o3: Option<T>,
    pub aqi: Option<T>,
}

impl<T> KindMap<T> {
    /// The entry for `kind`, if there is one.
    pub open spec fn spec_get(&self, kind: PollutantKind) -> Option<T> {
        match kind {
            PollutantKind::Pm25 => self.pm25,
            PollutantKind::Pm10 => self.pm10,
            PollutantKind::O3 => self.o3,
            PollutantKind::Aqi => self.aqi,
        }
    }
}

impl<T> View for KindMap<T> {
    type V = Map<PollutantKind, T>;

    open spec fn view(&self) -> Map<PollutantKind, T> {
        Map::new(
            |k: PollutantKind| self.spec_get(k) is Some,
            |k: PollutantKind| self.spec_get(k)->Some_0,
        )
    }
}

impl<T: Copy> KindMap<T> {
    /// The map with no entries.
    pub fn new() -> (m: Self)
        ensures
            m@ == Map::<PollutantKind, T>::empty(),
    {
        let m = KindMap { pm25: None, pm10: None, o3: None, aqi: None };
        assert(m@ =~= Map::<PollutantKind, T>::empty());
        m
    }

    /// The value stored for `kind`, or `None` where there is none.
    pub fn get(&self, kind: PollutantKind) -> (r: Option<T>)
        ensures
            r == (if self@.contains_key(kind) {
                Some(self@[kind])
            } else {
                None
            }),
    {
        match kind {
            PollutantKind::Pm25 => self.pm25,
            PollutantKind::Pm10 => self.pm10,
            PollutantKind::O3 => self.o3,
            PollutantKind::Aqi => self.aqi,
        }
    }

    /// Whether `kind` has a value.
    pub fn contains(&self, kind: PollutantKind) -> (r: bool)
        ensures
            r == self@.contains_key(kind),
    {
        self.get(kind).is_some()
    }

    /// Stores `value` for `kind`, replacing what was there.
    pub fn insert(&mut self, kind: PollutantKind, value: T)
        ensures
            final(self)@ == old(self)@.insert(kind, value),
    {
        match kind {
            PollutantKind::Pm25 => {
                self.pm25 = Some(value);
            },
            PollutantKind::Pm10 => {
                self.pm10 = Some(value);
            },
            PollutantKind::O3 => {
                self.o3 = Some(value);
            },
            PollutantKind::Aqi => {
                self.aqi = Some(value);
            },
        }
        assert(self@ =~= old(self)@.insert(kind, value));
    }

    /// Removes the value of `kind`, if any.
    pub fn remove(&mut self, kind: PollutantKind)
        ensures
            final(self)@ == old(self)@.remove(kind),
    {
        match kind {
            PollutantKind::Pm25 => {
                self.pm25 = None;
            },
            PollutantKind::Pm10 => {
                self.pm10 = None;
            },
            PollutantKind::O3 => {
                self.o3 = None;
            },
            PollutantKind::Aqi => {
                self.aqi = None;
            },
        }
        assert(self@ =~= old(self)@.remove(kind));
    }

    /// Whether the map has no entry at all.
    pub fn is_empty(&self) -> (r: bool)
        ensures
            r == (self@ == Map::<PollutantKind, T>::empty()),
    {
        let r = self.pm25.is_none() && self.pm10.is_none() && self.o3.is_none()
            && self.aqi.is_none();
        proof {
            if r {
                assert(self@ =~= Map::<PollutantKind, T>::empty());
            } else {
                let k = if self.pm25 is Some {
                    PollutantKind::Pm25
                } else if self.pm10 is Some {
                    PollutantKind::Pm10
                } else if self.o3 is Some {
                    PollutantKind::O3
                } else {
                    PollutantKind::Aqi
                };
                assert(self@.contains_key(k));
            }
        }
        r
    }

    /// Number of entries.
    pub fn len(&self) -> (n: usize)
        ensures
            self@.dom().finite(),
            n == self@.dom().len(),
            n <= KIND_COUNT,
    {
        proof {
            lemma_view_len(self@);
        }
        let mut n: usize = 0;
        if self.pm25.is_some() {
            n = n + 1;
        }
        if self.pm10.is_some() {
            n = n + 1;
        }
        if self.o3.is_some() {
            n = n + 1;
        }
        if self.aqi.is_some() {
            n = n + 1;
        }
        n
    }
}

/// How many of the four kinds `m` has a value for.
pub open spec fn spec_kinds_in<T>(m: Map<PollutantKind, T>) -> int {
    count_if(m.contains_key(PollutantKind::Pm25)) + count_if(m.contains_key(PollutantKind::Pm10))
        + count_if(m.contains_key(PollutantKind::O3)) + count_if(
        m.contains_key(PollutantKind::Aqi),
    )
}

/// The set of the kinds among the first `n` of the canonical order that `m`
/// has a value for.
spec fn kinds_upto<T>(m: Map<PollutantKind, T>, n: int) -> Set<PollutantKind> {
    Set::new(|k: PollutantKind| m.contains_key(k) && k.spec_index() < n)
}

/// A map keyed by pollutant kind is finite, and its size is the number of
/// kinds it has a value for.
pub proof fn lemma_view_len<T>(m: Map<PollutantKind, T>)
    ensures
        m.dom().finite(),
        m.dom().len() == spec_kinds_in(m),
        m.dom().len() <= KIND_COUNT,
        m.dom().len() == 0 <==> m == Map::<PollutantKind, T>::empty(),
{
    let s0 = kinds_upto(m, 0);
    let s1 = kinds_upto(m, 1);
    let s2 = kinds_upto(m, 2);
    let s3 = kinds_upto(m, 3);
    let s4 = kinds_upto(m, 4);
    assert(s0 =~= Set::<PollutantKind>::empty());
    assert(s1 =~= if m.contains_key(PollutantKind::Pm25) {
        s0.insert(PollutantKind::Pm25)
    } else {
        s0
    });
    assert(s2 =~= if m.contains_key(PollutantKind::Pm10) {
        s1.insert(PollutantKind::Pm10)
    } else {
        s1
    });
    assert(s3 =~= if m.contains_key(PollutantKind::O3) {
        s2.insert(PollutantKind::O3)
    } else {
        s2
    });
    assert(s4 =~= if m.contains_key(PollutantKind::Aqi) {
        s3.insert(PollutantKind::Aqi)
    } else {
        s3
    });
    assert(s4 =~= m.dom());
    assert(s1.finite() && s1.len() == count_if(m.contains_key(PollutantKind::Pm25)));
    assert(s2.finite() && s2.len() == s1.len() + count_if(m.contains_key(PollutantKind::Pm10)));
    assert(s3.finite() && s3.len() == s2.len() + count_if(m.contains_key(PollutantKind::O3)));
    assert(s4.finite() && s4.len() == s3.len() + count_if(m.contains_key(PollutantKind::Aqi)));
    if m.dom().len() == 0 {
        assert(m =~= Map::<PollutantKind, T>::empty());
    }
}

/// One if `b` holds, zero otherwise.
pub open spec fn count_if(b: bool) -> int {
    if b {
        1
    } else {
        0
    }
}

/// Every kind is the kind at its own index, and the indices are `0..4`.
pub proof fn lemma_kind_index(kind: PollutantKind)
    ensures
        0 <= kind.spec_index() < KIND_COUNT,
        PollutantKind::spec_at(kind.spec_index()) == kind,
{
}

} // verus!
