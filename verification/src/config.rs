//! Subscription configuration.
//!
//! A subscription is a coordinate pair, a search radius and an optional name
//! filter, tied to one channel. Coordinates are carried as microdegrees
//! (degrees times one million). A running monitor reads its configuration but
//! never changes it; edits here take effect when the monitor is next started.

use vstd::prelude::*;

use crate::filter::{pattern_of, CompiledPattern};
use crate::kvmap::{
    keys_distinct, lemma_contains, lemma_distinct_push, lemma_distinct_update, lemma_get,
    lemma_push, lemma_update, map_of,
};
use crate::DEFAULT_RADIUS;

verus! {

/// One subscription's configuration.
pub struct TGTGConfig {
    /// Latitude in microdegrees.
    pub latitude_micro: i64,
    /// Longitude in microdegrees.
    pub longitude_micro: i64,
    /// Search radius in kilometers.
    pub radius: u8,
    /// Optional display-name filter.
    pub regex: Option<CompiledPattern>,
}

impl TGTGConfig {
    /// A subscription at the given point, with the default radius and no
    /// filter.
    pub fn new(latitude_micro: i64, longitude_micro: i64) -> (c: Self)
        ensures
            c.latitude_micro == latitude_micro,
            c.longitude_micro == longitude_micro,
            c.radius == DEFAULT_RADIUS,
            c.regex is None,
    {
        TGTGConfig { latitude_micro, longitude_micro, radius: DEFAULT_RADIUS, regex: None }
    }

    /// A subscription at the given point with an explicit radius and no
    /// filter.
    pub fn new_with_radius(latitude_micro: i64, longitude_micro: i64, radius: u8) -> (c: Self)
        ensures
            c.latitude_micro == latitude_micro,
            c.longitude_micro == longitude_micro,
            c.radius == radius,
            c.regex is None,
    {
        TGTGConfig { latitude_micro, longitude_micro, radius, regex: None }
    }

    /// A subscription at the given point with an explicit radius and filter.
    pub fn new_full(
        latitude_micro: i64,
        longitude_micro: i64,
        radius: u8,
        regex: CompiledPattern,
    ) -> (c: Self)
        ensures
            c.latitude_micro == latitude_micro,
            c.longitude_micro == longitude_micro,
            c.radius == radius,
            c.regex matches Some(p) && p.pattern() == regex.pattern(),
    {
        TGTGConfig { latitude_micro, longitude_micro, radius, regex: Some(regex) }
    }

    /// The filter pattern, if one is configured.
    pub open spec fn filter_pattern(&self) -> Option<Seq<char>> {
        pattern_of(self.regex)
    }
}

/// The configurations of all known subscriptions, keyed by channel.
pub struct ConfigTable {
    entries: Vec<(u64, TGTGConfig)>,
}

impl ConfigTable {
    /// The map this table represents.
    pub closed spec fn view(&self) -> Map<u64, TGTGConfig> {
        map_of(self.entries@)
    }

    /// Internal shape: each channel appears at most once.
    pub closed spec fn wf(&self) -> bool {
        keys_distinct(self.entries@)
    }

    /// An empty table.
    pub fn new() -> (t: Self)
        ensures
            t.wf(),
            t@ == Map::<u64, TGTGConfig>::empty(),
    {
        ConfigTable { entries: Vec::new() }
    }

    /// Index of the entry for `channel_id`, if one exists.
    fn find(&self, channel_id: u64) -> (r: Option<usize>)
        requires
            self.wf(),
        ensures
            match r {
                Some(i) => i < self.entries@.len() && self.entries@[i as int].0 == channel_id,
                None => forall|j: int| 0 <= j < self.entries@.len()
                    ==> self.entries@[j].0 != channel_id,
            },
    {
        let n = self.entries.len();
        let mut i: usize = 0;
        while i < n
            invariant
                n == self.entries@.len(),
                i <= n,
                forall|j: int| 0 <= j < i ==> self.entries@[j].0 != channel_id,
            decreases n - i,
        {
            if self.entries[i].0 == channel_id {
                return Some(i);
            }
            i += 1;
        }
        None
    }

    /// Whether a configuration exists for `channel_id`.
    pub fn contains(&self, channel_id: u64) -> (r: bool)
        requires
            self.wf(),
        ensures
            r == self@.dom().contains(channel_id),
    {
        let r = self.find(channel_id);
        proof {
            lemma_contains(self.entries@, channel_id);
        }
        r.is_some()
    }

    /// The configuration for `channel_id`, if one exists.
    pub fn get(&self, channel_id: u64) -> (r: Option<&TGTGConfig>)
        requires
            self.wf(),
        ensures
            match r {
                Some(c) => self@.dom().contains(channel_id) && *c == self@[channel_id],
                None => !self@.dom().contains(channel_id),
            },
    {
        let r = self.find(channel_id);
        proof {
            lemma_contains(self.entries@, channel_id);
        }
        match r {
            Some(i) => {
                proof {
                    lemma_get(self.entries@, i as int);
                }
                Some(&self.entries[i].1)
            },
            None => None,
        }
    }

    /// Store `config` for `channel_id`, replacing any earlier configuration.
    pub fn put(&mut self, channel_id: u64, config: TGTGConfig)
        requires
            old(self).wf(),
        ensures
            final(self).wf(),
            final(self)@ == old(self)@.insert(channel_id, config),
    {
        let r = self.find(channel_id);
        match r {
            Some(i) => {
                proof {
                    lemma_distinct_update(self.entries@, i as int, (channel_id, config));
                    lemma_update(self.entries@, i as int, (channel_id, config));
                }
                self.entries[i] = (channel_id, config);
            },
            None => {
                proof {
                    lemma_distinct_push(self.entries@, (channel_id, config));
                    lemma_push(self.entries@, (channel_id, config));
                }
                self.entries.push((channel_id, config));
            },
        }
    }

    /// Set the channel's coordinates, keeping its radius and filter; a channel
    /// seen for the first time gets the default radius and no filter.
    pub fn set_coords(&mut self, channel_id: u64, latitude_micro: i64, longitude_micro: i64)
        requires
            old(self).wf(),
        ensures
            final(self).wf(),
            final(self)@.dom() == old(self)@.dom().insert(channel_id),
            final(self)@[channel_id].latitude_micro == latitude_micro,
            final(self)@[channel_id].longitude_micro == longitude_micro,
            old(self)@.dom().contains(channel_id) ==> {
                &&& final(self)@[channel_id].radius == old(self)@[channel_id].radius
                &&& pattern_of(final(self)@[channel_id].regex) == pattern_of(
                    old(self)@[channel_id].regex,
                )
            },
            !old(self)@.dom().contains(channel_id) ==> {
                &&& final(self)@[channel_id].radius == DEFAULT_RADIUS
                &&& final(self)@[channel_id].regex is None
            },
            forall|c: u64| c != channel_id && old(self)@.dom().contains(c)
                ==> final(self)@.dom().contains(c) && final(self)@[c] == old(self)@[c],
    {
        let r = self.find(channel_id);
        match r {
            Some(i) => {
                proof {
                    lemma_get(self.entries@, i as int);
                }
                let old_pair = self.entries.remove(i);
                let updated = TGTGConfig {
                    latitude_micro,
                    longitude_micro,
                    radius: old_pair.1.radius,
                    regex: old_pair.1.regex,
                };
                self.entries.insert(i, (channel_id, updated));
                proof {
                    assert(self.entries@ =~= old(self).entries@.update(
                        i as int,
                        (channel_id, updated),
                    ));
                    lemma_distinct_update(old(self).entries@, i as int, (channel_id, updated));
                    lemma_update(old(self).entries@, i as int, (channel_id, updated));
                    self.lemma_put_frame(*old(self), channel_id, updated);
                }
            },
            None => {
                let fresh = TGTGConfig::new(latitude_micro, longitude_micro);
                proof {
                    lemma_contains(self.entries@, channel_id);
                    lemma_distinct_push(self.entries@, (channel_id, fresh));
                    lemma_push(self.entries@, (channel_id, fresh));
                }
                self.entries.push((channel_id, fresh));
                proof {
                    self.lemma_put_frame(*old(self), channel_id, fresh);
                }
            },
        }
    }

    /// Set the channel's coordinates and radius, keeping its filter; a channel
    /// seen for the first time gets no filter.
    pub fn set_coords_radius(
        &mut self,
        channel_id: u64,
        latitude_micro: i64,
        longitude_micro: i64,
        radius: u8,
    )
        requires
            old(self).wf(),
        ensures
            final(self).wf(),
            final(self)@.dom() == old(self)@.dom().insert(channel_id),
            final(self)@[channel_id].latitude_micro == latitude_micro,
            final(self)@[channel_id].longitude_micro == longitude_micro,
            final(self)@[channel_id].radius == radius,
            old(self)@.dom().contains(channel_id) ==> pattern_of(
                final(self)@[channel_id].regex,
            ) == pattern_of(old(self)@[channel_id].regex),
            !old(self)@.dom().contains(channel_id) ==> final(self)@[channel_id].regex is None,
            forall|c: u64| c != channel_id && old(self)@.dom().contains(c)
                ==> final(self)@.dom().contains(c) && final(self)@[c] == old(self)@[c],
    {
        let r = self.find(channel_id);
        match r {
            Some(i) => {
                proof {
                    lemma_get(self.entries@, i as int);
                }
                let old_pair = self.entries.remove(i);
                let updated = TGTGConfig {
                    latitude_micro,
                    longitude_micro,
                    radius,
                    regex: old_pair.1.regex,
                };
                self.entries.insert(i, (channel_id, updated));
                proof {
                    assert(self.entries@ =~= old(self).entries@.update(
                        i as int,
                        (channel_id, updated),
                    ));
                    lemma_distinct_update(old(self).entries@, i as int, (channel_id, updated));
                    lemma_update(old(self).entries@, i as int, (channel_id, updated));
                    self.lemma_put_frame(*old(self), channel_id, updated);
                }
            },
            None => {
                let fresh = TGTGConfig::new_with_radius(latitude_micro, longitude_micro, radius);
                proof {
                    lemma_contains(self.entries@, channel_id);
                    lemma_distinct_push(self.entries@, (channel_id, fresh));
                    lemma_push(self.entries@, (channel_id, fresh));
                }
                self.entries.push((channel_id, fresh));
                proof {
                    self.lemma_put_frame(*old(self), channel_id, fresh);
                }
            },
        }
    }

    /// Set everything for the channel at once.
    pub fn set_full(
        &mut self,
        channel_id: u64,
        latitude_micro: i64,
        longitude_micro: i64,
        radius: u8,
        regex: CompiledPattern,
    )
        requires
            old(self).wf(),
        ensures
            final(self).wf(),
            final(self)@.dom() == old(self)@.dom().insert(channel_id),
            final(self)@[channel_id].latitude_micro == latitude_micro,
            final(self)@[channel_id].longitude_micro == longitude_micro,
            final(self)@[channel_id].radius == radius,
            pattern_of(final(self)@[channel_id].regex) == Some(regex.pattern()),
            forall|c: u64| c != channel_id && old(self)@.dom().contains(c)
                ==> final(self)@.dom().contains(c) && final(self)@[c] == old(self)@[c],
    {
        let config = TGTGConfig::new_full(latitude_micro, longitude_micro, radius, regex);
        self.put(channel_id, config);
        proof {
            self.lemma_put_frame(*old(self), channel_id, config);
        }
    }

    /// Give the channel a filter, keeping everything else; reports whether a
    /// configuration existed to attach it to.
    pub fn set_pattern(&mut self, channel_id: u64, regex: CompiledPattern) -> (r: bool)
        requires
            old(self).wf(),
        ensures
            final(self).wf(),
            r == old(self)@.dom().contains(channel_id),
            !r ==> final(self)@ == old(self)@,
            r ==> {
                &&& final(self)@.dom() == old(self)@.dom()
                &&& final(self)@[channel_id].latitude_micro == old(
                    self,
                )@[channel_id].latitude_micro
                &&& final(self)@[channel_id].longitude_micro == old(
                    self,
                )@[channel_id].longitude_micro
                &&& final(self)@[channel_id].radius == old(self)@[channel_id].radius
                &&& pattern_of(final(self)@[channel_id].regex) == Some(regex.pattern())
                &&& forall|c: u64| c != channel_id && old(self)@.dom().contains(c)
                    ==> final(self)@[c] == old(self)@[c]
            },
    {
        let r = self.find(channel_id);
        proof {
            lemma_contains(self.entries@, channel_id);
        }
        match r {
            Some(i) => {
                proof {
                    lemma_get(self.entries@, i as int);
                }
                let old_pair = self.entries.remove(i);
                let updated = TGTGConfig {
                    latitude_micro: old_pair.1.latitude_micro,
                    longitude_micro: old_pair.1.longitude_micro,
                    radius: old_pair.1.radius,
                    regex: Some(regex),
                };
                self.entries.insert(i, (channel_id, updated));
                proof {
                    assert(self.entries@ =~= old(self).entries@.update(
                        i as int,
                        (channel_id, updated),
                    ));
                    lemma_distinct_update(old(self).entries@, i as int, (channel_id, updated));
                    lemma_update(old(self).entries@, i as int, (channel_id, updated));
                    self.lemma_put_frame(*old(self), channel_id, updated);
                    assert(self@.dom() =~= old(self)@.dom());
                }
                true
            },
            None => false,
        }
    }

    /// Inserting at one channel leaves every other channel's entry unchanged.
    proof fn lemma_put_frame(&self, prev: Self, channel_id: u64, config: TGTGConfig)
        requires
            self@ == prev@.insert(channel_id, config),
        ensures
            self@.dom() == prev@.dom().insert(channel_id),
            forall|c: u64| c != channel_id && prev@.dom().contains(c)
                ==> self@.dom().contains(c) && self@[c] == prev@[c],
    {
        assert(self@.dom() =~= prev@.dom().insert(channel_id));
    }
}

} // verus!
