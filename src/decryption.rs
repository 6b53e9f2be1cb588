//! Session and key bookkeeping for damage-event decryption. No cipher is applied:
//! event bytes pass through unchanged.
use vstd::prelude::*;
use crate::error::MeterError;
use crate::ipv4::copy_range;

verus! {

/// Damage decryption handler.
#[derive(Clone, Debug)]
pub struct DamageEncryptionHandler {
    pub decryption_enabled: bool,
}

/// Decryption statistics.
#[derive(Clone, Copy, Debug, PartialEq, Eq, Structural)]
pub struct DecryptionStats {
    pub events_decrypted: u64,
    pub decryption_failures: u64,
    pub zone_changes: u64,
}

impl DamageEncryptionHandler {
    /// A handler with decryption switched off.
    pub fn new() -> (r: DamageEncryptionHandler)
        ensures
            !r.decryption_enabled,
    {
        DamageEncryptionHandler { decryption_enabled: false }
    }

    /// Decrypts an event in place; the bytes are left as they are and the call succeeds.
    pub fn decrypt_damage_event(&self, event_data: &mut Vec<u8>) -> (r: bool)
        ensures
            r,
            final(event_data)@ == old(event_data)@,
    {
        true
    }

    /// Records the zone of the decryption context.
    pub fn update_zone_instance_id(&self, zone_instance_id: u32)
    {
    }

    pub fn is_decryption_valid(&self) -> (r: bool)
        ensures
            r == self.decryption_enabled,
    {
        self.decryption_enabled
    }

    /// Resets the decryption state.
    pub fn reset(&mut self)
        ensures
            final(self).decryption_enabled == old(self).decryption_enabled,
    {
    }

    pub fn get_stats(&self) -> (r: DecryptionStats)
        ensures
            r == (DecryptionStats { events_decrypted: 0, decryption_failures: 0, zone_changes: 0 }),
    {
        DecryptionStats { events_decrypted: 0, decryption_failures: 0, zone_changes: 0 }
    }
}

fn copy_vec(v: &Vec<u8>) -> (r: Vec<u8>)
    ensures
        r@ == v@,
{
    copy_range(v.as_slice(), 0, v.len())
}

/// The current key and the one before it.
pub struct EncryptionKeys {
    pub current_key: Option<Vec<u8>>,
    pub previous_key: Option<Vec<u8>>,
}

pub open spec fn opt_view(o: Option<Vec<u8>>) -> Option<Seq<u8>> {
    match o {
        Some(v) => Some(v@),
        None => None,
    }
}

impl EncryptionKeys {
    pub fn new() -> (r: EncryptionKeys)
        ensures
            r.current_key.is_none(),
            r.previous_key.is_none(),
    {
        EncryptionKeys { current_key: None, previous_key: None }
    }

    /// Installs `new_key`; the current key becomes the previous one.
    pub fn update_key(&mut self, new_key: Vec<u8>)
        ensures
            opt_view(final(self).current_key) == Some(new_key@),
            opt_view(final(self).previous_key) == opt_view(old(self).current_key),
    {
        let prev = match &self.current_key {
            Some(k) => Some(copy_vec(k)),
            None => None,
        };
        self.previous_key = prev;
        self.current_key = Some(new_key);
    }

    pub fn current_key(&self) -> (r: Option<&[u8]>)
        ensures
            match r {
                Some(k) => opt_view(self.current_key) == Some(k@),
                None => self.current_key.is_none(),
            },
    {
        match &self.current_key {
            Some(k) => Some(k.as_slice()),
            None => None,
        }
    }

    /// Falls back to the previous key, if there is one.
    pub fn use_previous_key(&mut self)
        ensures
            old(self).previous_key.is_some() ==> opt_view(final(self).current_key) == opt_view(old(self).previous_key)
                && final(self).previous_key.is_none(),
            old(self).previous_key.is_none() ==> opt_view(final(self).current_key) == opt_view(old(self).current_key)
                && final(self).previous_key.is_none(),
    {
        let prev = match &self.previous_key {
            Some(k) => Some(copy_vec(k)),
            None => None,
        };
        self.previous_key = None;
        if let Some(p) = prev {
            self.current_key = Some(p);
        }
    }
}

/// A damage event.
#[derive(Clone, Copy, Debug, PartialEq, Eq, Structural)]
pub struct DamageEvent {
    pub damage: u64,
    pub shield_damage: u64,
    pub modifier: i32,
    pub target_current_hp: i64,
    pub target_max_hp: i64,
    pub damage_attribute: u32,
    pub damage_type: u32,
}

/// Smallest encoded damage event.
pub const DAMAGE_EVENT_MIN_LEN: usize = 32;

impl DamageEvent {
    /// Reads an event; fewer than the minimum bytes is an error, otherwise an empty event.
    pub fn from_bytes(data: &[u8]) -> (r: Result<DamageEvent, MeterError>)
        ensures
            data@.len() < DAMAGE_EVENT_MIN_LEN <==> r.is_err(),
            r matches Ok(e) ==> e == (DamageEvent {
                damage: 0,
                shield_damage: 0,
                modifier: 0,
                target_current_hp: 0,
                target_max_hp: 0,
                damage_attribute: 0,
                damage_type: 0,
            }),
    {
        if data.len() < DAMAGE_EVENT_MIN_LEN {
            return Err(MeterError::ParseError("Damage event data too small".to_string()));
        }
        Ok(DamageEvent {
            damage: 0,
            shield_damage: 0,
            modifier: 0,
            target_current_hp: 0,
            target_max_hp: 0,
            damage_attribute: 0,
            damage_type: 0,
        })
    }

    /// Encodes the event; no fields are written.
    pub fn to_bytes(&self) -> (r: Vec<u8>)
        ensures
            r@ == Seq::<u8>::empty(),
    {
        Vec::new()
    }
}

/// The decryption context of one session.
pub struct DecryptionSession {
    pub session_id: u32,
    pub keys: EncryptionKeys,
    pub zone_instance_id: u32,
}

impl DecryptionSession {
    pub fn new(session_id: u32) -> (r: DecryptionSession)
        ensures
            r.session_id == session_id,
            r.zone_instance_id == 0,
            r.keys.current_key.is_none(),
            r.keys.previous_key.is_none(),
    {
        DecryptionSession { session_id, keys: EncryptionKeys::new(), zone_instance_id: 0 }
    }

    pub fn update_zone(&mut self, zone_instance_id: u32)
        ensures
            final(self).zone_instance_id == zone_instance_id,
            final(self).session_id == old(self).session_id,
    {
        self.zone_instance_id = zone_instance_id;
    }

    /// Decrypts a damage payload: the bytes come back unchanged.
    pub fn decrypt_damage(&self, encrypted_data: &[u8]) -> (r: Result<Vec<u8>, MeterError>)
        ensures
            r matches Ok(v) && v@ == encrypted_data@,
    {
        Ok(copy_range(encrypted_data, 0, encrypted_data.len()))
    }
}

/// Sessions by id, and the active one.
pub struct DecryptionManager {
    pub sessions: Vec<DecryptionSession>,
    pub active_session: Option<u32>,
}

impl DecryptionManager {
    pub open spec fn wf(&self) -> bool {
        forall|i: int, j: int| 0 <= i < j < self.sessions@.len()
            ==> self.sessions@[i].session_id != self.sessions@[j].session_id
    }

    pub open spec fn has_session(&self, id: u32) -> bool {
        exists|i: int| 0 <= i < self.sessions@.len() && self.sessions@[i].session_id == id
    }

    pub fn new() -> (r: DecryptionManager)
        ensures
            r.wf(),
            r.active_session.is_none(),
            r.sessions@.len() == 0,
    {
        DecryptionManager { sessions: Vec::new(), active_session: None }
    }

    fn find(&self, id: u32) -> (r: Option<usize>)
        ensures
            match r {
                Some(i) => i < self.sessions@.len() && self.sessions@[i as int].session_id == id,
                None => !self.has_session(id),
            },
    {
        let mut i: usize = 0;
        while i < self.sessions.len()
            invariant
                i <= self.sessions@.len(),
                forall|j: int| 0 <= j < i ==> (#[trigger] self.sessions@[j]).session_id != id,
            decreases self.sessions@.len() - i,
        {
            if self.sessions[i].session_id == id {
                return Some(i);
            }
            i = i + 1;
        }
        None
    }

    /// Makes session `id` active, creating it if needed.
    pub fn create_session(&mut self, id: u32) -> (r: &mut DecryptionSession)
        requires
            old(self).wf(),
        ensures
            r.session_id == id,
    {
        let i = match self.find(id) {
            Some(i) => i,
            None => {
                self.sessions.push(DecryptionSession::new(id));
                self.sessions.len() - 1
            },
        };
        self.active_session = Some(id);
        &mut self.sessions[i]
    }

    pub fn get_active_session(&self) -> (r: Option<&DecryptionSession>)
        ensures
            r matches Some(s) ==> self.active_session == Some(s.session_id),
            self.active_session.is_none() ==> r.is_none(),
            (self.active_session matches Some(id) && self.has_session(id)) ==> r.is_some(),
    {
        match self.active_session {
            Some(id) => match self.find(id) {
                Some(i) => Some(&self.sessions[i]),
                None => None,
            },
            None => None,
        }
    }

    pub fn get_active_session_mut(&mut self) -> (r: Option<&mut DecryptionSession>)
        ensures
            r matches Some(s) ==> old(self).active_session == Some(s.session_id),
            old(self).active_session.is_none() ==> r.is_none(),
    {
        match self.active_session {
            Some(id) => match self.find(id) {
                Some(i) => Some(&mut self.sessions[i]),
                None => None,
            },
            None => None,
        }
    }
}

} // verus!
