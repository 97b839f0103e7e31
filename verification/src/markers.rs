//! Marker bookkeeping: the user-selected set of displayed markers,
//! sprite metadata, and per-level marker visibility.

use vstd::prelude::*;

use crate::resources::Lod;
use crate::camera::CAM_SCALE_LIMIT;

verus! {

/// Sprite metadata of one marker: its names and the level range it is
/// shown at.
#[derive(Debug)]
pub struct MarkerSprite {
    pub name: String,
    pub layer_name: Option<String>,
    pub min_lod: u32,
    pub max_lod: u32,
}

impl MarkerSprite {
    /// Bundles one marker's sprite metadata.
    pub fn new(name: String, layer_name: Option<String>, min_lod: u32, max_lod: u32) -> (r:
        MarkerSprite)
        ensures
            r.name == name,
            r.layer_name == layer_name,
            r.min_lod == min_lod,
            r.max_lod == max_lod,
    {
        MarkerSprite { name, layer_name, min_lod, max_lod }
    }

    /// The name shown when the marker is focused: the marker's name,
    /// joined with the layer marker's own name when that differs.
    pub open spec fn display_name_spec(self) -> Seq<char> {
        match self.layer_name {
            Some(l) => if l@ == self.name@ {
                self.name@
            } else {
                self.name@ + " - "@ + l@
            },
            None => self.name@,
        }
    }

    /// The name shown when the marker is focused.
    pub fn display_name(&self) -> (r: String)
        ensures
            r@ == self.display_name_spec(),
    {
        let mut name = self.name.clone();
        match &self.layer_name {
            Some(l) => {
                if !name.eq(l) {
                    name.append(" - ");
                    name.append(l.as_str());
                    proof {
                        assert(name@ =~= self.display_name_spec());
                    }
                }
            },
            None => {},
        }
        name
    }
}

/// The set of marker names the user chose to display; no name is
/// recorded twice.
#[derive(Debug)]
pub struct DisplayedMarkers {
    names: Vec<String>,
}

impl DisplayedMarkers {
    /// The recorded names, in insertion order.
    pub closed spec fn names_spec(self) -> Seq<Seq<char>> {
        self.names@.map_values(|s: String| s@)
    }

    /// Whether a name is displayed.
    pub open spec fn has(self, n: Seq<char>) -> bool {
        exists|i: int| 0 <= i < self.names_spec().len() && self.names_spec()[i] == n
    }

    /// No name is recorded twice.
    pub open spec fn wf(self) -> bool {
        forall|i: int, j: int|
            0 <= i < j < self.names_spec().len() ==> self.names_spec()[i] != self.names_spec()[j]
    }

    /// The recorded names, in insertion order.
    pub fn markers(&self) -> (r: &Vec<String>)
        ensures
            r@.map_values(|s: String| s@) == self.names_spec(),
    {
        &self.names
    }

    /// The position of a name, when it is recorded.
    fn index_of(&self, name: &String) -> (r: Option<usize>)
        ensures
            r matches Some(i) ==> i < self.names_spec().len() && self.names_spec()[i as int]
                == name@,
            r is None ==> !self.has(name@),
    {
        let mut i: usize = 0;
        while i < self.names.len()
            invariant
                i <= self.names@.len(),
                forall|j: int| 0 <= j < i ==> self.names_spec()[j] != name@,
            decreases self.names@.len() - i,
        {
            proof {
                assert(self.names_spec()[i as int] == self.names@[i as int]@);
            }
            if self.names[i].eq(name) {
                return Some(i);
            }
            i = i + 1;
        }
        None
    }

    /// Whether a name is displayed.
    pub fn contains(&self, name: &String) -> (r: bool)
        ensures
            r == self.has(name@),
    {
        self.index_of(name).is_some()
    }

    /// Displays one more name; nothing changes when it is already
    /// displayed.
    pub fn insert(&mut self, name: String)
        requires
            old(self).wf(),
        ensures
            final(self).wf(),
            forall|n: Seq<char>| final(self).has(n) == (old(self).has(n) || n == name@),
    {
        if self.contains(&name) {
        } else {
            let ghost prev = self.names_spec();
            self.names.push(name);
            proof {
                assert(self.names_spec() =~= prev.push(name@));
                assert(self.names_spec()[prev.len() as int] == name@);
                assert forall|n: Seq<char>| self.has(n) == (old(self).has(n) || n == name@) by {
                    if self.has(n) {
                        let i = choose|i: int|
                            0 <= i < self.names_spec().len() && self.names_spec()[i] == n;
                        if i < prev.len() {
                            assert(prev[i] == n);
                        }
                    }
                    if old(self).has(n) {
                        let i = choose|i: int| 0 <= i < prev.len() && prev[i] == n;
                        assert(self.names_spec()[i] == n);
                    }
                }
            }
        }
    }

    /// Hides one name; nothing changes when it is not displayed.
    pub fn remove(&mut self, name: &String)
        requires
            old(self).wf(),
        ensures
            final(self).wf(),
            forall|n: Seq<char>| final(self).has(n) == (old(self).has(n) && n != name@),
    {
        let found = self.index_of(name);
        match found {
            Some(i) => {
                let ghost prev = self.names_spec();
                self.names.remove(i);
                proof {
                    assert(self.names_spec() =~= prev.remove(i as int));
                    assert forall|j: int| 0 <= j < self.names_spec().len() implies self.names_spec()[j]
                        == (if j < i as int {
                        prev[j]
                    } else {
                        prev[j + 1]
                    }) by {
                        assert(self.names_spec()[j] == self.names@[j]@);
                    }
                    assert forall|n: Seq<char>| self.has(n) == (old(self).has(n) && n
                        != name@) by {
                        if self.has(n) {
                            let j = choose|j: int|
                                0 <= j < self.names_spec().len() && self.names_spec()[j] == n;
                            if j < i as int {
                                assert(prev[j] == n);
                                assert(n != name@);
                            } else {
                                assert(prev[j + 1] == n);
                                assert(n != name@);
                            }
                        }
                        if old(self).has(n) && n != name@ {
                            let j = choose|j: int| 0 <= j < prev.len() && prev[j] == n;
                            if j < i as int {
                                assert(self.names_spec()[j] == n);
                            } else {
                                assert(j != i as int);
                                assert(self.names_spec()[j - 1] == n);
                            }
                        }
                    }
                    assert forall|a: int, b: int|
                        0 <= a < b < self.names_spec().len() implies self.names_spec()[a]
                        != self.names_spec()[b] by {
                        let pa = if a < i as int {
                            a
                        } else {
                            a + 1
                        };
                        let pb = if b < i as int {
                            b
                        } else {
                            b + 1
                        };
                        assert(self.names_spec()[a] == prev[pa]);
                        assert(self.names_spec()[b] == prev[pb]);
                    }
                }
            },
            None => {},
        }
    }

    /// Toggles one name in and out of the displayed set.
    pub fn toggle(&mut self, marker: String)
        requires
            old(self).wf(),
        ensures
            final(self).wf(),
            final(self).has(marker@) == !old(self).has(marker@),
            forall|n: Seq<char>| n != marker@ ==> final(self).has(n) == old(self).has(n),
    {
        if self.contains(&marker) {
            self.remove(&marker);
        } else {
            self.insert(marker);
        }
    }

    /// Displays every name of the given list that is missing.
    pub fn add_missing_from(&mut self, src: &Vec<String>)
        requires
            old(self).wf(),
        ensures
            final(self).wf(),
            forall|n: Seq<char>|
                final(self).has(n) == (old(self).has(n) || exists|k: int|
                    0 <= k < src@.len() && src@[k]@ == n),
    {
        let mut j: usize = 0;
        while j < src.len()
            invariant
                self.wf(),
                j <= src@.len(),
                forall|n: Seq<char>|
                    self.has(n) == (old(self).has(n) || exists|k: int|
                        0 <= k < j && src@[k]@ == n),
            decreases src@.len() - j,
        {
            let ghost mid = *self;
            self.insert(src[j].clone());
            proof {
                assert forall|n: Seq<char>|
                    self.has(n) == (old(self).has(n) || exists|k: int|
                        0 <= k < j + 1 && src@[k]@ == n) by {
                    if n == src@[j as int]@ {
                        assert(src@[j as int]@ == n);
                    }
                }
            }
            j = j + 1;
        }
    }

    /// Hides every name of the given list.
    pub fn remove_from(&mut self, src: &Vec<String>)
        requires
            old(self).wf(),
        ensures
            final(self).wf(),
            forall|n: Seq<char>|
                final(self).has(n) == (old(self).has(n) && !(exists|k: int|
                    0 <= k < src@.len() && src@[k]@ == n)),
    {
        let mut j: usize = 0;
        while j < src.len()
            invariant
                self.wf(),
                j <= src@.len(),
                forall|n: Seq<char>|
                    self.has(n) == (old(self).has(n) && !(exists|k: int|
                        0 <= k < j && src@[k]@ == n)),
            decreases src@.len() - j,
        {
            self.remove(&src[j]);
            proof {
                assert forall|n: Seq<char>|
                    self.has(n) == (old(self).has(n) && !(exists|k: int|
                        0 <= k < j + 1 && src@[k]@ == n)) by {
                    if n == src@[j as int]@ {
                        assert(src@[j as int]@ == n);
                    }
                }
            }
            j = j + 1;
        }
    }
}

impl Default for DisplayedMarkers {
    /// Nothing is displayed at startup.
    fn default() -> (r: Self)
        ensures
            r.wf(),
            forall|n: Seq<char>| !r.has(n),
    {
        let r = DisplayedMarkers { names: Vec::new() };
        proof {
            assert(r.names_spec() =~= Seq::<Seq<char>>::empty());
        }
        r
    }
}

/// The visibility rule for one marker sprite: its name is displayed and
/// the current level lies in the sprite's level range.
pub fn marker_visible(displayed: &DisplayedMarkers, lod: Lod, sprite: &MarkerSprite) -> (r: bool)
    ensures
        r == (displayed.has(sprite.name@) && sprite.min_lod <= lod.0 <= sprite.max_lod),
{
    displayed.contains(&sprite.name) && sprite.min_lod <= lod.0 && lod.0 <= sprite.max_lod
}

/// The uniform sprite scale that keeps markers readable: ten times the
/// camera scale, clamped to a fixed range (in milli units).
pub open spec fn marker_scale_spec(scale_milli: int) -> int {
    let v = 10 * scale_milli;
    if v < 2_000 {
        2_000
    } else if v > 200_000 {
        200_000
    } else {
        v
    }
}

/// The uniform sprite scale that keeps markers readable.
pub fn marker_scale(scale_milli: i64) -> (r: i64)
    requires
        0 <= scale_milli <= CAM_SCALE_LIMIT,
    ensures
        r as int == marker_scale_spec(scale_milli as int),
        2_000 <= r <= 200_000,
{
    let v = 10 * scale_milli;
    if v < 2_000 {
        2_000
    } else if v > 200_000 {
        200_000
    } else {
        v
    }
}

} // verus!
