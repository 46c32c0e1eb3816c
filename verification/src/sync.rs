//! The release-sync state machine and the decisions a sync run makes for each
//! GitHub release and asset.
use vstd::prelude::*;

use crate::error::{spec_description, AppError};
use crate::models::SyncResponse;
use crate::text::{str_concat, owned, push_char, str_eq};

verus! {

/// Progress of the background release sync. `T` is the timestamp type of
/// the moment the last run finished.
#[derive(Debug, Clone)]
pub struct SyncStatus<T> {
    pub running: bool,
    pub last_finished_at: Option<T>,
    pub last_result: Option<String>,
}

/// What a finished run leaves as its result text.
pub open spec fn outcome_text(outcome: Result<String, AppError>) -> Seq<char> {
    match outcome {
        Ok(message) => message@,
        Err(e) => "failed: "@ + spec_description(e),
    }
}

impl<T> SyncStatus<T> {
    /// No run in progress and none finished.
    pub fn new() -> (r: SyncStatus<T>)
        ensures
            !r.running,
            r.last_finished_at is None,
            r.last_result is None,
    {
        SyncStatus { running: false, last_finished_at: None, last_result: None }
    }

    /// Marks a run as started; refused while another run is in progress.
    pub fn try_start(&mut self) -> (r: Result<(), AppError>)
        ensures
            old(self).running ==> (r matches Err(AppError::BadRequest(m)) && m@
                == "a sync is already running"@) && *final(self) == *old(self),
            !old(self).running ==> r is Ok && final(self).running
                && final(self).last_finished_at == old(self).last_finished_at
                && final(self).last_result == old(self).last_result,
    {
        if self.running {
            return Err(AppError::BadRequest(String::from_str("a sync is already running")));
        }
        self.running = true;
        Ok(())
    }

    /// Records the end of a run: no longer running, when it finished, and its
    /// result text (the message, or `failed: ` and the error's description).
    pub fn finish(&mut self, finished_at: T, outcome: Result<String, AppError>)
        ensures
            !final(self).running,
            final(self).last_finished_at == Some(finished_at),
            final(self).last_result matches Some(t) && t@ == outcome_text(outcome),
    {
        let text = match outcome {
            Ok(message) => message,
            Err(e) => {
                let d = e.description();
                str_concat("failed: ", d.as_str())
            },
        };
        self.running = false;
        self.last_finished_at = Some(finished_at);
        self.last_result = Some(text);
    }
}

/// The immediate answer to a sync request that was accepted.
pub fn sync_started_response() -> (r: SyncResponse)
    ensures
        r.synced == 0,
        r.message@ == "sync started in background"@,
{
    SyncResponse { synced: 0, message: String::from_str("sync started in background") }
}

/// Whether a GitHub release takes part in a sync that may be limited to one tag.
pub fn keep_release(tag_name: &str, wanted: Option<&str>) -> (r: bool)
    ensures
        r == match wanted {
            Some(t) => tag_name@ == t@,
            None => true,
        },
{
    match wanted {
        Some(t) => str_eq(tag_name, t),
        None => true,
    }
}

/// The version recorded for a new release: its name, or its tag when unnamed.
pub fn release_version(name: Option<&str>, tag_name: &str) -> (r: String)
    ensures
        r@ == match name {
            Some(n) => n@,
            None => tag_name@,
        },
{
    match name {
        Some(n) => owned(n),
        None => owned(tag_name),
    }
}

/// The sync status of an asset recorded but not yet copied.
pub fn status_pending() -> (r: String)
    ensures
        r@ == "pending"@,
{
    String::from_str("pending")
}

/// The sync status of an asset being copied.
pub fn status_syncing() -> (r: String)
    ensures
        r@ == "syncing"@,
{
    String::from_str("syncing")
}

/// The sync status of an asset available for download.
pub fn status_ready() -> (r: String)
    ensures
        r@ == "ready"@,
{
    String::from_str("ready")
}

/// The sync status of an asset whose copy failed.
pub fn status_failed() -> (r: String)
    ensures
        r@ == "failed"@,
{
    String::from_str("failed")
}

/// Every asset that is not fully synced is copied again; this includes
/// `syncing`, which a restart in the middle of a run leaves behind.
pub fn asset_needs_sync(sync_status: &str) -> (r: bool)
    ensures
        r == (sync_status@ != "ready"@),
{
    !str_eq(sync_status, "ready")
}

/// The status an asset takes after a copy attempt.
pub fn status_after_copy(copied: bool) -> (r: String)
    ensures
        r@ == (if copied {
            "ready"@
        } else {
            "failed"@
        }),
{
    if copied {
        status_ready()
    } else {
        status_failed()
    }
}

/// The decimal digit `d` as a character.
pub open spec fn digit_char(d: nat) -> char {
    if d == 0 {
        '0'
    } else if d == 1 {
        '1'
    } else if d == 2 {
        '2'
    } else if d == 3 {
        '3'
    } else if d == 4 {
        '4'
    } else if d == 5 {
        '5'
    } else if d == 6 {
        '6'
    } else if d == 7 {
        '7'
    } else if d == 8 {
        '8'
    } else {
        '9'
    }
}

/// The decimal notation of `n`, without leading zeros.
pub open spec fn decimal(n: nat) -> Seq<char>
    decreases n,
{
    if n < 10 {
        seq![digit_char(n)]
    } else {
        decimal(n / 10).push(digit_char(n % 10))
    }
}

fn digit(d: usize) -> (r: char)
    requires
        d < 10,
    ensures
        r == digit_char(d as nat),
{
    if d == 0 {
        '0'
    } else if d == 1 {
        '1'
    } else if d == 2 {
        '2'
    } else if d == 3 {
        '3'
    } else if d == 4 {
        '4'
    } else if d == 5 {
        '5'
    } else if d == 6 {
        '6'
    } else if d == 7 {
        '7'
    } else if d == 8 {
        '8'
    } else {
        '9'
    }
}

/// Writes `n` in decimal.
pub fn decimal_string(n: usize) -> (r: String)
    ensures
        r@ == decimal(n as nat),
    decreases n,
{
    if n < 10 {
        let mut r = String::new();
        push_char(&mut r, digit(n));
        assert(r@ =~= seq![digit_char(n as nat)]);
        r
    } else {
        let mut r = decimal_string(n / 10);
        push_char(&mut r, digit(n % 10));
        r
    }
}

/// The result text of a run that went through: how many assets it handled.
pub fn synced_message(synced: usize) -> (r: String)
    ensures
        r@ == "synced "@ + decimal(synced as nat) + " assets"@,
{
    let mut r = String::from_str("synced ");
    let n = decimal_string(synced);
    r.append(n.as_str());
    r.append(" assets");
    r
}

} // verus!
