use vstd::prelude::*;
use crate::stream::ObjectCounts;

verus! {

/// Hit results of a play, each count either given or still to be derived.
#[derive(Clone, Copy, Debug, PartialEq, Eq, Structural)]
pub struct HitCounts {
    pub n_fruits: Option<usize>,
    pub n_droplets: Option<usize>,
    pub n_tiny_droplets: Option<usize>,
    pub n_tiny_droplet_misses: Option<usize>,
    pub n_misses: usize,
}

/// The most tiny droplets a map is counted with.
pub const MAX_TINY_DROPLETS: usize = 0;

pub open spec fn or_zero(v: Option<usize>) -> nat {
    match v {
        Some(n) => n as nat,
        None => 0,
    }
}

pub open spec fn sat_sub(a: nat, b: nat) -> nat {
    if a >= b {
        (a - b) as nat
    } else {
        0
    }
}

impl HitCounts {
    pub open spec fn combo_hits_spec(&self) -> nat {
        or_zero(self.n_fruits) + or_zero(self.n_droplets) + self.n_misses as nat
    }

    pub open spec fn successful_hits_spec(&self) -> nat {
        or_zero(self.n_fruits) + or_zero(self.n_droplets) + or_zero(self.n_tiny_droplets)
    }

    pub open spec fn total_hits_spec(&self) -> nat {
        self.successful_hits_spec() + or_zero(self.n_tiny_droplet_misses) + self.n_misses as nat
    }

    /// Droplets caught: as given, else all droplets less the misses.
    pub open spec fn settled_droplets(&self, map: ObjectCounts) -> nat {
        match self.n_droplets {
            Some(n) => n as nat,
            None => sat_sub(map.n_droplets as nat, self.n_misses as nat),
        }
    }

    /// Fruits caught: as given, else the maximum combo less the misses that
    /// the droplets caught leave over.
    pub open spec fn settled_fruits(&self, map: ObjectCounts) -> nat {
        match self.n_fruits {
            Some(n) => n as nat,
            None => sat_sub(
                map.max_combo as nat,
                sat_sub(self.n_misses as nat, self.settled_droplets(map)),
            ),
        }
    }

    /// Tiny droplets caught: as given, else the hits that the accuracy asks
    /// for beyond the fruits and droplets caught.
    pub open spec fn settled_tiny_droplets(&self, map: ObjectCounts, accuracy_hits: nat) -> nat {
        match self.n_tiny_droplets {
            Some(n) => n as nat,
            None => sat_sub(
                sat_sub(accuracy_hits, self.settled_fruits(map)),
                self.settled_droplets(map),
            ),
        }
    }

    /// No count given, no miss.
    pub fn new() -> (r: HitCounts)
        ensures
            r == (HitCounts {
                n_fruits: None,
                n_droplets: None,
                n_tiny_droplets: None,
                n_tiny_droplet_misses: None,
                n_misses: 0,
            }),
    {
        HitCounts {
            n_fruits: None,
            n_droplets: None,
            n_tiny_droplets: None,
            n_tiny_droplet_misses: None,
            n_misses: 0,
        }
    }

    /// Objects that take part in the combo: fruits and droplets caught, and misses.
    pub fn combo_hits(&self) -> (r: usize)
        requires
            self.combo_hits_spec() <= usize::MAX,
        ensures
            r == self.combo_hits_spec(),
    {
        self.n_fruits.unwrap_or(0) + self.n_droplets.unwrap_or(0) + self.n_misses
    }

    /// Objects caught, tiny droplets included.
    pub fn successful_hits(&self) -> (r: usize)
        requires
            self.successful_hits_spec() <= usize::MAX,
        ensures
            r == self.successful_hits_spec(),
    {
        self.n_fruits.unwrap_or(0) + self.n_droplets.unwrap_or(0) + self.n_tiny_droplets.unwrap_or(
            0,
        )
    }

    /// All objects judged: those caught, tiny droplets missed, and misses.
    pub fn total_hits(&self) -> (r: usize)
        requires
            self.total_hits_spec() <= usize::MAX,
        ensures
            r == self.total_hits_spec(),
    {
        self.successful_hits() + self.n_tiny_droplet_misses.unwrap_or(0) + self.n_misses
    }

    /// Fills in the counts not given for a play on a map with counts `map`,
    /// where `accuracy_hits` is the accuracy times the maximum combo, rounded.
    /// Returns `None` where more tiny droplets would be caught than the map
    /// is counted with.
    pub fn settle(&self, map: ObjectCounts, accuracy_hits: usize) -> (r: Option<HitCounts>)
        ensures
            self.settled_tiny_droplets(map, accuracy_hits as nat) > MAX_TINY_DROPLETS <==> r is None,
            r matches Some(h) ==> h == (HitCounts {
                n_fruits: Some(self.settled_fruits(map) as usize),
                n_droplets: Some(self.settled_droplets(map) as usize),
                n_tiny_droplets: Some(self.settled_tiny_droplets(map, accuracy_hits as nat) as usize),
                n_tiny_droplet_misses: Some(
                    (MAX_TINY_DROPLETS - self.settled_tiny_droplets(map, accuracy_hits as nat)) as usize,
                ),
                n_misses: self.n_misses,
            }),
    {
        let n_droplets: usize = match self.n_droplets {
            Some(n) => n,
            None => map.n_droplets.saturating_sub(self.n_misses),
        };
        let n_fruits: usize = match self.n_fruits {
            Some(n) => n,
            None => map.max_combo.saturating_sub(self.n_misses.saturating_sub(n_droplets)),
        };
        let n_tiny_droplets: usize = match self.n_tiny_droplets {
            Some(n) => n,
            None => accuracy_hits.saturating_sub(n_fruits).saturating_sub(n_droplets),
        };
        if n_tiny_droplets > MAX_TINY_DROPLETS {
            return None;
        }
        Some(
            HitCounts {
                n_fruits: Some(n_fruits),
                n_droplets: Some(n_droplets),
                n_tiny_droplets: Some(n_tiny_droplets),
                n_tiny_droplet_misses: Some(MAX_TINY_DROPLETS - n_tiny_droplets),
                n_misses: self.n_misses,
            },
        )
    }
}

} // verus!
