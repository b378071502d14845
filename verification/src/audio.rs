//! The audio that waits to be played: each source is kept under a number
//! that is issued when it is added, and leaves when it is fetched.

use std::collections::HashMap;
use vstd::prelude::*;
use vstd::std_specs::hash::group_hash_axioms;

verus! {

broadcast use group_hash_axioms;

/// The number under which a source is kept.
pub type AudioSourceId = u32;

/// The bytes of an audio.
pub type AudioSource = Vec<u8>;

/// The sources that are kept, each under its number. Numbers are issued
/// from 1 upwards and never twice.
#[derive(Debug)]
pub struct AudioSourceManager {
    last: AudioSourceId,
    sources: HashMap<AudioSourceId, AudioSource>,
}

impl AudioSourceManager {
    /// Whether the manager is in order: every source is kept under a number
    /// that was issued.
    pub closed spec fn wf(&self) -> bool {
        forall|id: AudioSourceId| #[trigger] self.sources@.contains_key(id) ==> 1 <= id <= self.last
    }

    /// The number that was issued last; 0 where none was.
    pub closed spec fn issued(&self) -> nat {
        self.last as nat
    }

    /// The sources that are kept, each under its number.
    pub closed spec fn sources(&self) -> Map<AudioSourceId, AudioSource> {
        self.sources@
    }

    /// A manager that keeps nothing and has issued no number.
    pub fn new() -> (manager: AudioSourceManager)
        ensures
            manager.wf(),
            manager.issued() == 0,
            manager.sources() == Map::<AudioSourceId, AudioSource>::empty(),
    {
        AudioSourceManager { last: 0, sources: HashMap::new() }
    }

    /// The number that was issued last; 0 where none was.
    pub fn last_id(&self) -> (id: AudioSourceId)
        ensures
            id == self.issued(),
    {
        self.last
    }

    /// Keeps `source` under the next number, and returns the number. No
    /// source is kept under that number before.
    pub fn add(&mut self, source: AudioSource) -> (id: AudioSourceId)
        requires
            old(self).wf(),
            old(self).issued() < u32::MAX,
        ensures
            final(self).wf(),
            id == old(self).issued() + 1,
            final(self).issued() == id,
            !old(self).sources().contains_key(id),
            final(self).sources() == old(self).sources().insert(id, source),
    {
        let id = self.last + 1;
        self.last = id;
        self.sources.insert(id, source);
        id
    }

    /// Hands out the source that is kept under `id`, which is then kept no
    /// longer. `None` where none is kept under `id`.
    pub fn get_and_remove(&mut self, id: AudioSourceId) -> (source: Option<AudioSource>)
        requires
            old(self).wf(),
        ensures
            final(self).wf(),
            final(self).issued() == old(self).issued(),
            final(self).sources() == old(self).sources().remove(id),
            match source {
                Some(found) => old(self).sources().contains_key(id) && found == old(
                    self,
                ).sources()[id],
                None => !old(self).sources().contains_key(id),
            },
    {
        self.sources.remove(&id)
    }
}

impl Default for AudioSourceManager {
    fn default() -> (manager: AudioSourceManager)
        ensures
            manager.wf(),
            manager.issued() == 0,
            manager.sources() == Map::<AudioSourceId, AudioSource>::empty(),
    {
        AudioSourceManager::new()
    }
}

} // verus!
