//! Build orchestration.
//!
//! Rebuilds are single-flight: at most one is in flight, and a request that
//! arrives mid-build is coalesced — the next file change retriggers one.
//! The compile itself is an opaque blocking operation run by the caller; the
//! manager decides when one starts and what its result means. Only a
//! successful build emits a reload signal: on failure the error is reported
//! and clients keep their last-good state.
use vstd::prelude::*;

use crate::bus::Bus;
use crate::config::ServerConfig;

verus! {

/// The zero-payload event that tells every client to reload fully.
#[derive(Clone, Copy, Debug, PartialEq, Eq)]
pub struct ReloadSignal;

/// What a rebuild request is answered with.
#[derive(Debug, PartialEq, Eq)]
pub enum BuildDecision {
    /// No build was in flight: the caller runs one now.
    Start,
    /// A build is already in flight: the request is coalesced.
    Coalesce,
}

/// Serializes rebuilds and turns their results into reload signals.
pub struct BuildManager {
    /// The configuration of this run.
    pub config: ServerConfig,
    /// The bus that carries reload signals to every session.
    pub reload_bus: Bus<ReloadSignal>,
    /// Whether a rebuild is in flight right now.
    pub in_flight: bool,
}

impl BuildManager {
    /// Whether a rebuild is in flight.
    pub open spec fn is_in_flight(&self) -> bool {
        self.in_flight
    }

    /// A manager with no build in flight and no signal emitted yet.
    pub fn new(config: ServerConfig) -> (r: BuildManager)
        ensures
            !r.is_in_flight(),
            r.reload_bus@ == Seq::<ReloadSignal>::empty(),
    {
        BuildManager { config, reload_bus: Bus::new(), in_flight: false }
    }

    /// Asks to rebuild. At most one build is in flight: the caller runs the
    /// compile only on `Start`; on `Coalesce` another build is already
    /// running and this request is dropped.
    pub fn request(&mut self) -> (r: BuildDecision)
        ensures
            old(self).is_in_flight() ==> r == BuildDecision::Coalesce,
            !old(self).is_in_flight() ==> r == BuildDecision::Start && final(self).is_in_flight(),
            final(self).reload_bus@ == old(self).reload_bus@,
            final(self).config == old(self).config,
            old(self).is_in_flight() ==> final(self).is_in_flight(),
    {
        if self.in_flight {
            BuildDecision::Coalesce
        } else {
            self.in_flight = true;
            BuildDecision::Start
        }
    }

    /// Whether the static host page is regenerated now: only after a
    /// successful build, and only where the configuration asks for it.
    pub fn should_regen_page(&self, success: bool) -> (r: bool)
        ensures
            r <==> success && self.config.reload_html,
    {
        success && self.config.reload_html
    }

    /// Takes a finished build's result. On success a reload signal is
    /// emitted for every session; on failure none is, so clients keep their
    /// last-good state. Either way the flight ends and the next request
    /// starts a fresh build.
    pub fn complete(&mut self, success: bool)
        ensures
            !final(self).is_in_flight(),
            success ==> final(self).reload_bus@ == old(self).reload_bus@.push(ReloadSignal),
            !success ==> final(self).reload_bus@ == old(self).reload_bus@,
            final(self).config == old(self).config,
    {
        self.in_flight = false;
        if success {
            self.reload_bus.send(ReloadSignal);
        }
    }
}

} // verus!
