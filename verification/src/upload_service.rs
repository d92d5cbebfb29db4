use vstd::prelude::*;

verus! {

/// Seconds to wait when there is nothing new to upload.
pub const IDLE_SLEEP_SECS: u64 = 1;

/// Seconds to wait after a failed upload.
pub const RETRY_SLEEP_SECS: u64 = 2;

/// What the upload loop sees at the top of an iteration.
#[derive(Clone, Copy, Debug, PartialEq, Eq, Structural)]
pub struct UploadObservation {
    /// Whether the service was asked to stop.
    pub exit: bool,
    /// The highest slot with complete transaction-status metadata.
    pub max_complete_transaction_status_slot: u64,
    /// The highest rooted slot.
    pub root: u64,
}

/// What the upload loop does next.
#[derive(Clone, Copy, Debug, PartialEq, Eq, Structural)]
pub enum UploadAction {
    /// Leave the loop.
    Stop,
    /// Wait this many seconds, then look again.
    Sleep(u64),
    /// Upload the confirmed blocks of slots `start_slot..end_slot`.
    Upload { start_slot: u64, end_slot: u64 },
}

/// The slot up to which blocks may be uploaded: the lower of the highest
/// rooted slot and the highest slot with complete metadata, and at most
/// `max_num_slots_to_check` past `start_slot` (saturating).
pub open spec fn spec_end_slot(start_slot: u64, obs: UploadObservation, max_num_slots_to_check: u64) -> u64 {
    let highest_complete_root = if obs.max_complete_transaction_status_slot <= obs.root {
        obs.max_complete_transaction_status_slot
    } else {
        obs.root
    };
    let limit = if start_slot + max_num_slots_to_check <= u64::MAX {
        (start_slot + max_num_slots_to_check) as u64
    } else {
        u64::MAX
    };
    if highest_complete_root <= limit {
        highest_complete_root
    } else {
        limit
    }
}

/// The action for an observation: stop when asked, wait when there is no new
/// slot to upload, otherwise upload from `start_slot` to the end slot.
pub open spec fn spec_next_action(start_slot: u64, obs: UploadObservation, max_num_slots_to_check: u64) -> UploadAction {
    if obs.exit {
        UploadAction::Stop
    } else if spec_end_slot(start_slot, obs, max_num_slots_to_check) <= start_slot {
        UploadAction::Sleep(IDLE_SLEEP_SECS)
    } else {
        UploadAction::Upload { start_slot, end_slot: spec_end_slot(start_slot, obs, max_num_slots_to_check) }
    }
}

/// Where the BigTable upload loop stands: the first slot not uploaded yet.
#[derive(Clone, Copy, Debug, PartialEq, Eq, Structural)]
pub struct UploadProgress {
    pub start_slot: u64,
    pub max_num_slots_to_check: u64,
}

impl UploadProgress {
    /// A loop that starts at slot zero and checks at most
    /// `max_num_slots_to_check` slots per upload.
    pub fn new(max_num_slots_to_check: usize) -> (p: UploadProgress)
        ensures
            p.start_slot == 0,
            p.max_num_slots_to_check == max_num_slots_to_check as u64,
    {
        UploadProgress { start_slot: 0, max_num_slots_to_check: max_num_slots_to_check as u64 }
    }

    /// The slot up to which blocks may be uploaded now.
    pub fn end_slot(&self, obs: &UploadObservation) -> (r: u64)
        ensures
            r == spec_end_slot(self.start_slot, *obs, self.max_num_slots_to_check),
    {
        let highest_complete_root = if obs.max_complete_transaction_status_slot <= obs.root {
            obs.max_complete_transaction_status_slot
        } else {
            obs.root
        };
        let limit = self.start_slot.saturating_add(self.max_num_slots_to_check);
        if highest_complete_root <= limit {
            highest_complete_root
        } else {
            limit
        }
    }

    /// What the loop does for the observation `obs`.
    pub fn next_action(&self, obs: &UploadObservation) -> (r: UploadAction)
        ensures
            r == spec_next_action(self.start_slot, *obs, self.max_num_slots_to_check),
    {
        if obs.exit {
            return UploadAction::Stop;
        }
        let end_slot = self.end_slot(obs);
        if end_slot <= self.start_slot {
            UploadAction::Sleep(IDLE_SLEEP_SECS)
        } else {
            UploadAction::Upload { start_slot: self.start_slot, end_slot }
        }
    }

    /// Records how the upload up to `end_slot` went: on success the loop goes
    /// on from `end_slot`; on failure it stays and asks to wait before trying
    /// again.
    pub fn record_upload(&mut self, end_slot: u64, succeeded: bool) -> (sleep: Option<u64>)
        ensures
            succeeded ==> final(self).start_slot == end_slot && sleep is None,
            !succeeded ==> final(self).start_slot == old(self).start_slot && sleep == Some(RETRY_SLEEP_SECS),
            final(self).max_num_slots_to_check == old(self).max_num_slots_to_check,
    {
        if succeeded {
            self.start_slot = end_slot;
            None
        } else {
            Some(RETRY_SLEEP_SECS)
        }
    }
}

/// Every upload the loop asks for covers a non-empty range that begins where
/// the last successful upload ended, ends no later than the highest complete
/// root, and spans at most `max_num_slots_to_check` slots; so, since a
/// success moves the start to the end, the start never moves back and no
/// slot is uploaded twice.
pub proof fn law_upload_ranges(start_slot: u64, obs: UploadObservation, max_num_slots_to_check: u64)
    ensures
        spec_next_action(start_slot, obs, max_num_slots_to_check) matches UploadAction::Upload {
            start_slot: s,
            end_slot: e,
        } ==> {
            &&& s == start_slot
            &&& s < e
            &&& e <= obs.root
            &&& e <= obs.max_complete_transaction_status_slot
            &&& e - s <= max_num_slots_to_check
        },
        obs.exit ==> spec_next_action(start_slot, obs, max_num_slots_to_check) == UploadAction::Stop,
{
}

/// The loop leaves only when asked to: without an exit request it never
/// stops. When no new slot is eligible (the lower of the highest root and the
/// highest slot with complete metadata is not past `start_slot`, or no slot
/// may be checked), it waits `IDLE_SLEEP_SECS` and looks again; otherwise it
/// uploads from `start_slot`, as far as the eligible slots and the per-upload
/// limit allow.
pub proof fn law_stops_only_on_exit(start_slot: u64, obs: UploadObservation, max_num_slots_to_check: u64)
    ensures
        !obs.exit ==> spec_next_action(start_slot, obs, max_num_slots_to_check) != UploadAction::Stop,
        !obs.exit && (obs.root <= start_slot || obs.max_complete_transaction_status_slot <= start_slot
            || max_num_slots_to_check == 0) ==> spec_next_action(start_slot, obs, max_num_slots_to_check)
            == UploadAction::Sleep(IDLE_SLEEP_SECS),
        !obs.exit && start_slot < obs.root && start_slot < obs.max_complete_transaction_status_slot
            && max_num_slots_to_check > 0 ==> (spec_next_action(start_slot, obs, max_num_slots_to_check) matches
            UploadAction::Upload { start_slot: s, end_slot: e } && s == start_slot && (e == obs.root
            || e == obs.max_complete_transaction_status_slot || e == start_slot + max_num_slots_to_check
            || e == u64::MAX)),
{
}

} // verus!
