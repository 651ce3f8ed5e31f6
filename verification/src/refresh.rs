//! PR refresh convergence: generations supersede mid-flight triggers, configuration epochs
//! reject work from another validated snapshot, and a fresh input probe must match a completed
//! fetch before its snapshot may paint. An off-tab input change clears stale state but defers
//! its replacement fetch. Running the fetch and probe workers, and the clock, belong to the
//! front end's event loop, which feeds this state machine its events.

use vstd::prelude::*;

use crate::forge_core::{same_input, PrFetchInput, PrView};
use crate::text::{char_count, owned, str_eq};

verus! {

/// A finished fetch, tagged with the generation and configuration epoch it was started under
/// and the input it fetched for.
#[derive(Debug)]
pub struct TaggedPr {
    pub generation: u64,
    pub config_epoch: u64,
    pub input: PrFetchInput,
    pub view: PrView,
}

/// What an input probe asks of the `PR` tab.
#[derive(Debug)]
pub enum PrEffect {
    /// The input changed: what is shown is stale.
    Clear,
    /// A completed fetch for exactly this input: paint it.
    Apply(PrView),
}

/// The refresh state.
#[derive(Debug)]
pub struct PrRefresh {
    /// The current generation; a trigger, an input change or a configuration change moves it.
    pub generation: u64,
    /// The input the last probe observed.
    pub current_input: Option<PrFetchInput>,
    /// A completion of the current generation waiting for its verification probe.
    pub pending: Option<TaggedPr>,
    /// Whether a fetch should start.
    pub fetch_needed: bool,
}

/// The generation after `g` (wrapping).
pub open spec fn next_generation(g: u64) -> u64 {
    if g == u64::MAX {
        0
    } else {
        (g + 1) as u64
    }
}

/// The state after a trigger: a new generation, and a fetch is needed.
pub open spec fn triggered(s: PrRefresh) -> PrRefresh {
    PrRefresh {
        generation: next_generation(s.generation),
        current_input: s.current_input,
        pending: s.pending,
        fetch_needed: true,
    }
}

/// The state after invalidation: a new generation and nothing observed, pending or needed.
pub open spec fn invalidated(s: PrRefresh) -> PrRefresh {
    PrRefresh {
        generation: next_generation(s.generation),
        current_input: None,
        pending: None,
        fetch_needed: false,
    }
}

/// The state after a configuration change: a new generation, the pending completion dropped,
/// and a fetch needed only while the tab is active.
pub open spec fn reconfigured(s: PrRefresh, active: bool) -> PrRefresh {
    PrRefresh {
        generation: next_generation(s.generation),
        current_input: s.current_input,
        pending: None,
        fetch_needed: active,
    }
}

/// Whether a completion belongs to the current generation and configuration epoch.
pub open spec fn current_completion(s: PrRefresh, c: TaggedPr, epoch: u64) -> bool {
    c.generation == s.generation && c.config_epoch == epoch
}

/// The state after a fetch completes: a current completion waits for its probe; any other is
/// dropped, and a fetch is needed again when one was, or when the tab is active.
pub open spec fn after_completion(s: PrRefresh, c: TaggedPr, epoch: u64, active: bool) -> PrRefresh {
    if current_completion(s, c, epoch) {
        PrRefresh {
            generation: s.generation,
            current_input: s.current_input,
            pending: Some(c),
            fetch_needed: s.fetch_needed,
        }
    } else {
        PrRefresh {
            generation: s.generation,
            current_input: s.current_input,
            pending: None,
            fetch_needed: s.fetch_needed || active,
        }
    }
}

/// Whether a probe observed an input other than the last one.
pub open spec fn input_changed(s: PrRefresh, input: PrFetchInput) -> bool {
    s.current_input matches Some(old) && !same_input(old, input)
}

/// Whether the pending completion may paint for a probe that observed `input`.
pub open spec fn pending_matches(s: PrRefresh, input: PrFetchInput, epoch: u64) -> bool {
    s.pending matches Some(c) && c.generation == s.generation && c.config_epoch == epoch
        && same_input(c.input, input)
}

/// What a probe asks: `Clear` when the input changed; `Apply` of the pending completion when
/// it is of the current generation and epoch and for this same input; nothing otherwise.
pub open spec fn probe_effect(s: PrRefresh, input: PrFetchInput, epoch: u64) -> Option<PrEffect> {
    if input_changed(s, input) {
        Some(PrEffect::Clear)
    } else if pending_matches(s, input, epoch) {
        Some(PrEffect::Apply(s.pending->0.view))
    } else {
        None
    }
}

/// The state after a probe observed `input`: on a change, a new generation with nothing
/// pending and a fetch needed while active; otherwise the pending completion is consumed, and
/// a fetch is needed when it could not paint.
pub open spec fn after_probe(s: PrRefresh, input: PrFetchInput, epoch: u64, active: bool) -> PrRefresh {
    if input_changed(s, input) {
        PrRefresh {
            generation: next_generation(s.generation),
            current_input: Some(input),
            pending: None,
            fetch_needed: active,
        }
    } else {
        PrRefresh {
            generation: s.generation,
            current_input: Some(input),
            pending: None,
            fetch_needed: match s.pending {
                Some(_) => !pending_matches(s, input, epoch),
                None => s.fetch_needed,
            },
        }
    }
}

/// Whether a fetch starts now: one is needed and an input has been observed.
pub open spec fn fetch_ready(s: PrRefresh) -> bool {
    s.fetch_needed && s.current_input is Some
}

/// The state after asking for a fetch.
pub open spec fn after_take(s: PrRefresh) -> PrRefresh {
    if fetch_ready(s) {
        PrRefresh {
            generation: s.generation,
            current_input: s.current_input,
            pending: s.pending,
            fetch_needed: false,
        }
    } else {
        s
    }
}

impl PrRefresh {
    /// The initial state; a fetch is needed once the configuration is ready.
    pub fn new(ready: bool) -> (s: PrRefresh)
        ensures
            s.generation == 1,
            s.current_input is None,
            s.pending is None,
            s.fetch_needed == ready,
    {
        PrRefresh { generation: 1, current_input: None, pending: None, fetch_needed: ready }
    }

    /// Ask for a fresh fetch, superseding any in flight.
    pub fn trigger(&mut self)
        ensures
            *final(self) == triggered(*old(self)),
    {
        self.generation = self.generation.wrapping_add(1);
        self.fetch_needed = true;
    }

    /// Forget everything observed and pending.
    pub fn invalidate(&mut self)
        ensures
            *final(self) == invalidated(*old(self)),
    {
        self.generation = self.generation.wrapping_add(1);
        self.current_input = None;
        self.pending = None;
        self.fetch_needed = false;
    }

    /// A new configuration validated: in-flight and pending work belongs to the old one.
    pub fn config_changed(&mut self, active: bool)
        ensures
            *final(self) == reconfigured(*old(self), active),
    {
        self.generation = self.generation.wrapping_add(1);
        self.pending = None;
        self.fetch_needed = active;
    }

    /// A fetch finished; whether it was kept for its verification probe.
    pub fn completed(&mut self, completion: TaggedPr, epoch: u64, active: bool) -> (kept: bool)
        ensures
            kept == current_completion(*old(self), completion, epoch),
            *final(self) == after_completion(*old(self), completion, epoch, active),
    {
        if completion.generation == self.generation && completion.config_epoch == epoch {
            self.pending = Some(completion);
            true
        } else {
            self.pending = None;
            self.fetch_needed = self.fetch_needed || active;
            false
        }
    }

    /// A probe observed `input` under configuration epoch `epoch`.
    pub fn observed(&mut self, input: PrFetchInput, epoch: u64, active: bool) -> (e: Option<
        PrEffect,
    >)
        ensures
            e == probe_effect(*old(self), input, epoch),
            *final(self) == after_probe(*old(self), input, epoch, active),
    {
        let changed = match &self.current_input {
            Some(old) => !old.same(&input),
            None => false,
        };
        if changed {
            self.generation = self.generation.wrapping_add(1);
            self.pending = None;
            self.current_input = Some(input);
            self.fetch_needed = active;
            return Some(PrEffect::Clear);
        }
        let pending = self.pending.take();
        match pending {
            Some(c) => {
                let fits = c.generation == self.generation && c.config_epoch == epoch
                    && c.input.same(&input);
                self.current_input = Some(input);
                if fits {
                    self.fetch_needed = false;
                    Some(PrEffect::Apply(c.view))
                } else {
                    self.fetch_needed = true;
                    None
                }
            },
            None => {
                self.current_input = Some(input);
                None
            },
        }
    }

    /// The fetch to start now, if one is needed and an input has been observed: the current
    /// generation and a copy of the observed input.
    pub fn take_fetch(&mut self) -> (f: Option<(u64, PrFetchInput)>)
        ensures
            *final(self) == after_take(*old(self)),
            match f {
                Some((g, i)) => fetch_ready(*old(self)) && g == old(self).generation && same_input(
                    i,
                    old(self).current_input->0,
                ),
                None => !fetch_ready(*old(self)),
            },
    {
        if !self.fetch_needed {
            return None;
        }
        let input = match &self.current_input {
            Some(i) => i.duplicate(),
            None => {
                return None;
            },
        };
        self.fetch_needed = false;
        Some((self.generation, input))
    }
}


/// How a configuration observation left the `PR` tab's inputs.
#[derive(Clone, Copy, Debug, PartialEq, Eq, Structural)]
pub enum ConfigGate {
    /// The configuration is invalid: nothing may run.
    Blocked,
    /// Nothing changed.
    Unchanged,
    /// A new configuration validated; whether the file list was rebuilt and whether the PR
    /// inputs changed.
    Changed { file_reloaded: bool, pr_changed: bool },
}

/// Whether a configuration observation left the PR inputs as they were.
pub open spec fn pr_inputs_unchanged(g: ConfigGate) -> bool {
    match g {
        ConfigGate::Blocked => false,
        ConfigGate::Unchanged => true,
        ConfigGate::Changed { pr_changed, .. } => !pr_changed,
    }
}

impl ConfigGate {
    /// Whether work may proceed.
    pub fn ready(self) -> (b: bool)
        ensures
            b == !(self is Blocked),
    {
        !matches!(self, ConfigGate::Blocked)
    }

    /// Whether the PR inputs are as they were.
    pub fn pr_unchanged(self) -> (b: bool)
        ensures
            b == pr_inputs_unchanged(self),
    {
        match self {
            ConfigGate::Blocked => false,
            ConfigGate::Unchanged => true,
            ConfigGate::Changed { pr_changed, .. } => !pr_changed,
        }
    }

    /// Whether the observation already rebuilt the file list.
    pub fn file_reloaded(self) -> (b: bool)
        ensures
            b == (self matches ConfigGate::Changed { file_reloaded: true, .. }),
    {
        match self {
            ConfigGate::Changed { file_reloaded, .. } => file_reloaded,
            _ => false,
        }
    }
}

/// What the result of the probe in flight asks of the front end.
#[derive(Debug)]
pub enum ProbeOutcome {
    /// Nothing to show.
    Ignored,
    /// The PR inputs were taken as changed; whether the fetch in flight must be cancelled.
    Reconfigured { cancel: bool },
    /// The probe failed: show the error.
    Failed(String),
    /// The probe observed this input (recorded as the fetch origin) with this effect.
    Observed { input: PrFetchInput, effect: Option<PrEffect> },
}

/// The `PR` tab's worker bookkeeping around the refresh state: when the loading wait started
/// (milliseconds on the front end's clock), which probe and which fetch are in flight, and
/// whether the next probe result must be discarded or a probe is due. Cancelling a worker is
/// the front end's; the methods that may cancel return whether to.
#[derive(Debug)]
pub struct PrCoordinator {
    pub refresh: PrRefresh,
    pub wait_started: Option<u64>,
    pub active_probe_epoch: Option<u64>,
    /// The `(generation, epoch)` tag of the fetch in flight.
    pub active_fetch: Option<(u64, u64)>,
    pub discard_probe_result: bool,
    pub probe_pending: bool,
}

impl PrCoordinator {
    /// The initial bookkeeping; once the configuration is ready a probe is due and the loading
    /// wait starts at `now`.
    pub fn new(ready: bool, now: u64) -> (c: PrCoordinator)
        ensures
            c.refresh.generation == 1,
            c.refresh.current_input is None,
            c.refresh.pending is None,
            c.refresh.fetch_needed == ready,
            c.wait_started == (if ready { Some(now) } else { None }),
            c.active_probe_epoch is None,
            c.active_fetch is None,
            !c.discard_probe_result,
            c.probe_pending == ready,
    {
        PrCoordinator {
            refresh: PrRefresh::new(ready),
            wait_started: if ready { Some(now) } else { None },
            active_probe_epoch: None,
            active_fetch: None,
            discard_probe_result: false,
            probe_pending: ready,
        }
    }

    /// The configuration became invalid: forget everything and stop waiting; whether the
    /// fetch in flight must be cancelled.
    pub fn stop(&mut self) -> (cancel: bool)
        ensures
            cancel == old(self).active_fetch is Some,
            final(self).refresh == invalidated(old(self).refresh),
            final(self).wait_started is None,
            final(self).active_fetch == old(self).active_fetch,
            final(self).active_probe_epoch == old(self).active_probe_epoch,
            !final(self).discard_probe_result,
            !final(self).probe_pending,
    {
        self.refresh.invalidate();
        self.wait_started = None;
        self.discard_probe_result = false;
        self.probe_pending = false;
        self.active_fetch.is_some()
    }

    /// A fresh sidebar replaced a blocked one: start over and fetch; whether the fetch in
    /// flight must be cancelled.
    pub fn recover(&mut self, now: u64) -> (cancel: bool)
        ensures
            cancel == old(self).active_fetch is Some,
            final(self).refresh == triggered(invalidated(old(self).refresh)),
            final(self).wait_started == Some(now),
            final(self).active_fetch == old(self).active_fetch,
            final(self).active_probe_epoch == old(self).active_probe_epoch,
            !final(self).discard_probe_result,
            final(self).probe_pending,
    {
        self.refresh.invalidate();
        self.refresh.trigger();
        self.wait_started = Some(now);
        self.discard_probe_result = false;
        self.probe_pending = true;
        self.active_fetch.is_some()
    }

    /// The PR configuration changed: in-flight work is stale, a probe is due; whether the
    /// fetch in flight must be cancelled. The fetch stays owned until it completes.
    pub fn config_changed(&mut self, active: bool) -> (cancel: bool)
        ensures
            cancel == old(self).active_fetch is Some,
            final(self).refresh == reconfigured(old(self).refresh, active),
            final(self).wait_started == old(self).wait_started,
            final(self).active_fetch == old(self).active_fetch,
            final(self).active_probe_epoch == old(self).active_probe_epoch,
            !final(self).discard_probe_result,
            final(self).probe_pending,
    {
        self.discard_probe_result = false;
        self.refresh.config_changed(active);
        self.probe_pending = true;
        self.active_fetch.is_some()
    }

    /// The tag of the fetch in flight.
    pub fn active_fetch_tag(&self) -> (t: Option<(u64, u64)>)
        ensures
            t == self.active_fetch,
    {
        self.active_fetch
    }

    /// A fetch finished with tag `(generation, epoch)`: whether it is the fetch in flight,
    /// which then is in flight no more. Any other completion is dropped unseen.
    pub fn fetch_arrived(&mut self, generation: u64, epoch: u64) -> (mine: bool)
        ensures
            mine == (old(self).active_fetch == Some((generation, epoch))),
            final(self).active_fetch == (if mine { None } else { old(self).active_fetch }),
            final(self).refresh == old(self).refresh,
            final(self).wait_started == old(self).wait_started,
            final(self).active_probe_epoch == old(self).active_probe_epoch,
            final(self).discard_probe_result == old(self).discard_probe_result,
            final(self).probe_pending == old(self).probe_pending,
    {
        match self.active_fetch {
            Some((g, e)) => if g == generation && e == epoch {
                self.active_fetch = None;
                true
            } else {
                false
            },
            None => false,
        }
    }

    /// The completion of the fetch in flight, once the configuration was observed again
    /// (`gate`, at epoch `epoch`): while the PR inputs are unchanged it waits for a fresh probe,
    /// and a probe already in flight started before it, so that probe's result is discarded.
    pub fn fetch_settled(&mut self, completion: TaggedPr, gate: ConfigGate, epoch: u64, active: bool)
        ensures
            pr_inputs_unchanged(gate) ==> {
                &&& final(self).refresh == after_completion(old(self).refresh, completion, epoch, active)
                &&& final(self).discard_probe_result == (old(self).discard_probe_result || (
                current_completion(old(self).refresh, completion, epoch)
                    && old(self).active_probe_epoch is Some))
                &&& final(self).probe_pending
            },
            !pr_inputs_unchanged(gate) ==> final(self).refresh == old(self).refresh
                && final(self).discard_probe_result == old(self).discard_probe_result
                && final(self).probe_pending == old(self).probe_pending,
            final(self).wait_started == old(self).wait_started,
            final(self).active_fetch == old(self).active_fetch,
            final(self).active_probe_epoch == old(self).active_probe_epoch,
    {
        if gate.pr_unchanged() {
            let accepted = self.refresh.completed(completion, epoch, active);
            if accepted && self.active_probe_epoch.is_some() {
                self.discard_probe_result = true;
            }
            self.probe_pending = true;
        }
    }

    /// A probe started under epoch `epoch` finished: whether it is the probe in flight, which
    /// then is in flight no more.
    pub fn probe_arrived(&mut self, epoch: u64) -> (mine: bool)
        ensures
            mine == (old(self).active_probe_epoch == Some(epoch)),
            final(self).active_probe_epoch == (if mine { None } else { old(self).active_probe_epoch }),
            final(self).refresh == old(self).refresh,
            final(self).wait_started == old(self).wait_started,
            final(self).active_fetch == old(self).active_fetch,
            final(self).discard_probe_result == old(self).discard_probe_result,
            final(self).probe_pending == old(self).probe_pending,
    {
        match self.active_probe_epoch {
            Some(e) => if e == epoch {
                self.active_probe_epoch = None;
                true
            } else {
                false
            },
            None => false,
        }
    }

    /// The result of the probe in flight, started under `probe_epoch`, once the configuration
    /// was observed again (`gate`, now at `epoch`). A probe of another configuration decides
    /// nothing (and, when the configuration itself reads unchanged, the PR inputs are taken as
    /// changed); a probe that raced a completion is discarded and another is due; otherwise a
    /// failure is shown and an input is observed. Waiting for a snapshot restarts at `now` when
    /// the input changed on the active tab and ends when anything is shown.
    pub fn probe_settled(
        &mut self,
        probe_epoch: u64,
        gate: ConfigGate,
        epoch: u64,
        result: Result<PrFetchInput, String>,
        active: bool,
        now: u64,
    ) -> (out: ProbeOutcome)
        ensures
            (!pr_inputs_unchanged(gate) || probe_epoch != epoch) ==> if gate == ConfigGate::Unchanged {
                &&& out == (ProbeOutcome::Reconfigured { cancel: old(self).active_fetch is Some })
                &&& final(self).refresh == reconfigured(old(self).refresh, active)
                &&& !final(self).discard_probe_result
                &&& final(self).probe_pending
                &&& final(self).wait_started == old(self).wait_started
            } else {
                &&& out is Ignored
                &&& final(self).refresh == old(self).refresh
                &&& final(self).discard_probe_result == old(self).discard_probe_result
                &&& final(self).probe_pending == old(self).probe_pending
                &&& final(self).wait_started == old(self).wait_started
            },
            (pr_inputs_unchanged(gate) && probe_epoch == epoch && old(self).discard_probe_result) ==> {
                &&& out is Ignored
                &&& final(self).refresh == old(self).refresh
                &&& !final(self).discard_probe_result
                &&& final(self).probe_pending
                &&& final(self).wait_started == old(self).wait_started
            },
            (pr_inputs_unchanged(gate) && probe_epoch == epoch && !old(self).discard_probe_result) ==> {
                &&& final(self).discard_probe_result == old(self).discard_probe_result
                &&& final(self).probe_pending == old(self).probe_pending
                &&& match result {
                    Err(e) => {
                        &&& out == ProbeOutcome::Failed(e)
                        &&& final(self).refresh == old(self).refresh
                        &&& final(self).wait_started is None
                    },
                    Ok(input) => {
                        &&& out matches ProbeOutcome::Observed { input: seen, effect } && same_input(
                            seen,
                            input,
                        ) && effect == probe_effect(old(self).refresh, input, epoch)
                        &&& final(self).refresh == after_probe(old(self).refresh, input, epoch, active)
                        &&& final(self).wait_started == match probe_effect(
                            old(self).refresh,
                            input,
                            epoch,
                        ) {
                            Some(PrEffect::Clear) => if active {
                                Some(now)
                            } else {
                                None
                            },
                            Some(PrEffect::Apply(_)) => None,
                            None => old(self).wait_started,
                        }
                    },
                }
            },
            final(self).active_fetch == old(self).active_fetch,
            final(self).active_probe_epoch == old(self).active_probe_epoch,
    {
        if !gate.pr_unchanged() || probe_epoch != epoch {
            if gate == ConfigGate::Unchanged {
                let cancel = self.config_changed(active);
                return ProbeOutcome::Reconfigured { cancel };
            }
            return ProbeOutcome::Ignored;
        }
        if self.discard_probe_result {
            self.discard_probe_result = false;
            self.probe_pending = true;
            return ProbeOutcome::Ignored;
        }
        match result {
            Err(e) => {
                self.wait_started = None;
                ProbeOutcome::Failed(e)
            },
            Ok(input) => {
                let seen = input.duplicate();
                let effect = self.refresh.observed(input, epoch, active);
                match &effect {
                    Some(PrEffect::Clear) => {
                        self.wait_started = if active { Some(now) } else { None };
                    },
                    Some(PrEffect::Apply(_)) => {
                        self.wait_started = None;
                    },
                    None => {},
                }
                ProbeOutcome::Observed { input: seen, effect }
            },
        }
    }

    /// A refresh was asked for, or the active tab's fallback poll came due, at `now`: a new
    /// generation supersedes whatever is in flight, the loading wait starts unless one already
    /// runs, and a probe is due.
    pub fn poll_due(&mut self, now: u64)
        ensures
            final(self).refresh == triggered(old(self).refresh),
            final(self).wait_started == (match old(self).wait_started {
                Some(t) => Some(t),
                None => Some(now),
            }),
            final(self).probe_pending,
            final(self).active_fetch == old(self).active_fetch,
            final(self).active_probe_epoch == old(self).active_probe_epoch,
            final(self).discard_probe_result == old(self).discard_probe_result,
    {
        self.refresh.trigger();
        if self.wait_started.is_none() {
            self.wait_started = Some(now);
        }
        self.probe_pending = true;
    }

    /// Whether to start a probe now, under epoch `epoch`: one is due, none is in flight, and
    /// the configuration is ready. Starting one records it as in flight.
    pub fn start_probe(&mut self, ready: bool, epoch: u64) -> (start: bool)
        ensures
            start == (old(self).probe_pending && old(self).active_probe_epoch is None && ready),
            start ==> !final(self).probe_pending && final(self).active_probe_epoch == Some(epoch),
            !start ==> final(self).probe_pending == old(self).probe_pending
                && final(self).active_probe_epoch == old(self).active_probe_epoch,
            final(self).refresh == old(self).refresh,
            final(self).wait_started == old(self).wait_started,
            final(self).active_fetch == old(self).active_fetch,
            final(self).discard_probe_result == old(self).discard_probe_result,
    {
        if self.probe_pending && self.active_probe_epoch.is_none() && ready {
            self.probe_pending = false;
            self.active_probe_epoch = Some(epoch);
            true
        } else {
            false
        }
    }

    /// The fetch to start now under epoch `epoch`: only when no fetch and no probe is in
    /// flight or due, and the refresh state asks for one. Starting one records its tag as the
    /// fetch in flight, so at most one fetch runs at a time.
    pub fn start_fetch(&mut self, epoch: u64) -> (f: Option<(u64, PrFetchInput)>)
        ensures
            old(self).active_fetch is Some || old(self).active_probe_epoch is Some
                || old(self).probe_pending ==> f is None && *final(self) == *old(self),
            (old(self).active_fetch is None && old(self).active_probe_epoch is None
                && !old(self).probe_pending) ==> {
                &&& final(self).refresh == after_take(old(self).refresh)
                &&& match f {
                    Some((g, i)) => {
                        &&& fetch_ready(old(self).refresh)
                        &&& g == old(self).refresh.generation
                        &&& same_input(i, old(self).refresh.current_input->0)
                        &&& final(self).active_fetch == Some((g, epoch))
                    },
                    None => !fetch_ready(old(self).refresh) && final(self).active_fetch is None,
                }
            },
            final(self).wait_started == old(self).wait_started,
            final(self).active_probe_epoch == old(self).active_probe_epoch,
            final(self).discard_probe_result == old(self).discard_probe_result,
            final(self).probe_pending == old(self).probe_pending,
    {
        if self.active_fetch.is_some() || self.active_probe_epoch.is_some() || self.probe_pending {
            return None;
        }
        match self.refresh.take_fetch() {
            Some((g, input)) => {
                self.active_fetch = Some((g, epoch));
                Some((g, input))
            },
            None => None,
        }
    }

    /// Whether the loading indicator is due at `now` (milliseconds): a wait started at least
    /// `delay` ago. Showing it ends the wait.
    pub fn loading_due(&mut self, now: u64, delay: u64) -> (due: bool)
        ensures
            due == (old(self).wait_started matches Some(t) && (if now >= t {
                now - t
            } else {
                0
            }) >= delay),
            final(self).wait_started == (if due { None } else { old(self).wait_started }),
            final(self).refresh == old(self).refresh,
            final(self).active_fetch == old(self).active_fetch,
            final(self).active_probe_epoch == old(self).active_probe_epoch,
            final(self).discard_probe_result == old(self).discard_probe_result,
            final(self).probe_pending == old(self).probe_pending,
    {
        match self.wait_started {
            Some(t) => {
                let elapsed = if now >= t { now - t } else { 0 };
                if elapsed >= delay {
                    self.wait_started = None;
                    true
                } else {
                    false
                }
            },
            None => false,
        }
    }
}

/// A completion from before a trigger never paints: whatever probe follows, it is dropped on
/// arrival, so the next probe applies nothing.
pub proof fn law_superseded_completion_never_applies(
    s: PrRefresh,
    c: TaggedPr,
    epoch: u64,
    active: bool,
    input: PrFetchInput,
    probe_epoch: u64,
)
    requires
        c.generation == s.generation,
    ensures
        !current_completion(triggered(s), c, epoch),
        !(probe_effect(after_completion(triggered(s), c, epoch, active), input, probe_epoch) matches Some(
            PrEffect::Apply(_),
        )),
{
}

/// A completion from another configuration epoch is dropped, and never paints.
pub proof fn law_stale_epoch_is_rejected(
    s: PrRefresh,
    c: TaggedPr,
    epoch: u64,
    active: bool,
    input: PrFetchInput,
)
    requires
        c.config_epoch != epoch,
    ensures
        after_completion(s, c, epoch, active).pending is None,
        !(probe_effect(after_completion(s, c, epoch, active), input, epoch) matches Some(
            PrEffect::Apply(_),
        )),
{
}

/// A view paints only from a completion of the current generation and epoch whose input is
/// the one the probe just observed, and it is that completion's view.
pub proof fn law_applied_view_matches_the_probe(s: PrRefresh, input: PrFetchInput, epoch: u64)
    ensures
        probe_effect(s, input, epoch) matches Some(PrEffect::Apply(v)) ==> {
            &&& s.pending matches Some(c)
            &&& c.generation == s.generation
            &&& c.config_epoch == epoch
            &&& same_input(c.input, input)
            &&& v == c.view
        },
{
}

/// A changed input clears the tab, moves to a new generation and drops what was pending, so
/// an old snapshot can never paint over the new input.
pub proof fn law_changed_input_clears(s: PrRefresh, input: PrFetchInput, epoch: u64, active: bool)
    requires
        input_changed(s, input),
    ensures
        probe_effect(s, input, epoch) matches Some(PrEffect::Clear),
        after_probe(s, input, epoch, active).pending is None,
        after_probe(s, input, epoch, active).generation != s.generation,
        after_probe(s, input, epoch, active).fetch_needed == active,
{
}

/// A needed fetch is handed out once: asking again before anything else happens gives none.
pub proof fn law_a_fetch_is_taken_once(s: PrRefresh)
    ensures
        !fetch_ready(after_take(s)),
{
}

/// A trigger always moves to a generation different from the one any earlier fetch carries.
pub proof fn law_a_trigger_starts_a_new_generation(s: PrRefresh)
    ensures
        triggered(s).generation != s.generation,
        triggered(s).fetch_needed,
{
}

/// The status line's clock: the message last seen and when (milliseconds) it was first seen.
#[derive(Debug)]
pub struct StatusClock {
    pub last: String,
    pub since: u64,
}

impl StatusClock {
    /// No message seen yet, at `now`.
    pub fn new(now: u64) -> (c: StatusClock)
        ensures
            c.last@ == Seq::<char>::empty(),
            c.since == now,
    {
        StatusClock { last: String::new(), since: now }
    }

    /// Observe the status line `status` at `now`: a changed message restarts the clock; a
    /// non-empty message that has lingered at least `ttl` is due to be cleared, and is then
    /// forgotten. Returns whether to clear it.
    pub fn expire(&mut self, status: &str, now: u64, ttl: u64) -> (clear: bool)
        ensures
            ({
                let since = if status@ != old(self).last@ {
                    now
                } else {
                    old(self).since
                };
                &&& clear == (status@.len() > 0 && now >= since && now - since >= ttl)
                &&& final(self).since == since
                &&& final(self).last@ == (if clear {
                    Seq::<char>::empty()
                } else {
                    status@
                })
            }),
    {
        if !str_eq(status, self.last.as_str()) {
            self.last = owned(status);
            self.since = now;
        }
        if char_count(status) > 0 && now >= self.since && now - self.since >= ttl {
            self.last = String::new();
            true
        } else {
            false
        }
    }
}

} // verus!
