//! The settings remembered between sessions.
use vstd::prelude::*;
use crate::music::{Key, Mode};

verus! {

/// Last device, channel and key that the player chose.
#[derive(Debug, Clone)]
pub struct StoredConfig {
    pub device_name: Option<String>,
    pub channel: Option<u16>,
    pub key_root_pc: Option<i32>,
    pub key_mode: Option<Mode>,
}

/// The key that a stored configuration names, normalised as `Key::new` does.
pub open spec fn stored_key(c: StoredConfig) -> Option<Key> {
    match (c.key_root_pc, c.key_mode) {
        (Some(pc), Some(mode)) => Some(Key { root_pc: (pc % 12) as i32, mode }),
        _ => None,
    }
}

impl Default for StoredConfig {
    fn default() -> (c: StoredConfig)
        ensures
            c.device_name is None,
            c.channel is None,
            c.key_root_pc is None,
            c.key_mode is None,
    {
        StoredConfig { device_name: None, channel: None, key_root_pc: None, key_mode: None }
    }
}

impl StoredConfig {
    pub fn key(&self) -> (r: Option<Key>)
        ensures
            r == stored_key(*self),
    {
        match (self.key_root_pc, self.key_mode) {
            (Some(pc), Some(mode)) => Some(Key::new(pc, mode)),
            _ => None,
        }
    }

    pub fn set_key(&mut self, key: Key)
        ensures
            final(self).key_root_pc == Some(key.root_pc),
            final(self).key_mode == Some(key.mode),
            final(self).device_name == old(self).device_name,
            final(self).channel == old(self).channel,
    {
        self.key_root_pc = Some(key.root_pc);
        self.key_mode = Some(key.mode);
    }
}

/// Reading the key back after storing it gives the stored key, normalised; a key made by
/// `Key::new` comes back unchanged.
pub proof fn lemma_set_key_then_key(c: StoredConfig, key: Key)
    ensures
        ({
            let after = StoredConfig { key_root_pc: Some(key.root_pc), key_mode: Some(key.mode), ..c };
            &&& stored_key(after) == Some(Key { root_pc: (key.root_pc % 12) as i32, mode: key.mode })
            &&& (0 <= key.root_pc < 12 ==> stored_key(after) == Some(key))
        }),
{
}

} // verus!
