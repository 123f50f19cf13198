//! The lifecycle of a local model: loading on first use (one loader at a
//! time, the others waiting), requests holding the model in place while
//! they run, unloading, draining on shutdown, and the eviction of idle
//! models to make room. The worker thread, the locks and the waiting are
//! the caller's; this module decides each step and keeps the state.

use vstd::prelude::*;
use crate::anthropic::ModelInfo;
use crate::config::ModelConfig;
use crate::error::EngineError;
use crate::scheduling::{Placement, ResolvedPlacement};
use crate::text::{copy_string, push_decimal, push_str, to_string};

verus! {

#[derive(Clone, Copy, Debug, PartialEq, Eq, Structural)]
pub enum LoadPhase {
    Unloaded,
    /// A loader is at work; others wait for it.
    Loading,
    Loaded,
}

pub struct LocalModel {
    pub id: String,
    pub context_size: u32,
    pub max_tokens_cap: u32,
    /// The configuration names devices (else placement is automatic).
    pub explicit_gpus: bool,
    /// The worker thread panicked; the model is unusable.
    pub poisoned: bool,
    /// Shutdown has begun; no new work is accepted.
    pub draining: bool,
    pub phase: LoadPhase,
    /// Requests under way, plus one while a request-path load runs.
    pub in_flight: u32,
    /// When the model last finished loading or took a request.
    pub last_used_ms: u64,
    pub placement: ResolvedPlacement,
}

/// What a caller does to get the model loaded.
pub enum LoadStep {
    /// It is loaded (for a request, the request is now counted).
    Ready,
    /// Another caller is loading it: wait, then ask again.
    Wait,
    /// This caller loads it: reserve memory, start the worker, and report
    /// the outcome with `load_finished`.
    Lead,
    /// It cannot be used.
    Refused(EngineError),
}

/// What an unload does.
pub enum UnloadStep {
    /// Nothing was loaded.
    AlreadyUnloaded,
    /// Stop the worker, then release the devices `after_unload` names.
    StopWorker,
    /// A request or a load holds the model.
    Busy,
}

/// The error a gated operation answers: a poisoned model first, then a
/// draining one.
pub open spec fn gate_error(poisoned: bool, draining: bool) -> Option<EngineError> {
    if poisoned {
        Some(EngineError::BackendPoisoned)
    } else if draining {
        Some(EngineError::BackendDraining)
    } else {
        None
    }
}

pub open spec fn placement_devices(p: ResolvedPlacement) -> Seq<u32> {
    match p {
        ResolvedPlacement::Auto => Seq::empty(),
        ResolvedPlacement::Resolved(q) => q.devices(),
    }
}

impl LocalModel {
    /// A model from its declaration: it needs a path; placement follows
    /// the configured devices; the token cap defaults to 8192.
    pub fn new(cfg: &ModelConfig) -> (r: Result<Self, EngineError>)
        ensures
            match r {
                Err(e) => cfg.path is None && (e matches EngineError::ModelLoadFailed(m)
                    && m@ == "local backend '"@ + cfg.id@ + "' has no path (config validation should have caught this)"@),
                Ok(s) => {
                    &&& cfg.path is Some
                    &&& s.id@ == cfg.id@
                    &&& s.context_size == cfg.context_size
                    &&& s.max_tokens_cap == (match cfg.max_tokens_cap { Some(c) => c, None => 8192 })
                    &&& s.explicit_gpus == (cfg.gpus@.len() > 0)
                    &&& !s.poisoned && !s.draining
                    &&& s.phase == LoadPhase::Unloaded
                    &&& s.in_flight == 0
                    &&& s.last_used_ms == 0
                    &&& (cfg.gpus@.len() == 0 <==> s.placement is Auto)
                    &&& placement_devices(s.placement) == cfg.gpus@
                },
            },
    {
        if cfg.path.is_none() {
            let mut m = to_string("local backend '");
            push_str(&mut m, cfg.id.as_str());
            push_str(&mut m, "' has no path (config validation should have caught this)");
            return Err(EngineError::ModelLoadFailed(m));
        }
        let placement = ResolvedPlacement::from_gpus(&cfg.gpus);
        proof {
            if cfg.gpus@.len() == 1 {
                assert(seq![cfg.gpus@[0]] =~= cfg.gpus@);
            }
        }
        Ok(LocalModel {
            id: copy_string(&cfg.id),
            context_size: cfg.context_size,
            max_tokens_cap: match cfg.max_tokens_cap {
                Some(c) => c,
                None => 8192,
            },
            explicit_gpus: cfg.gpus.len() > 0,
            poisoned: false,
            draining: false,
            phase: LoadPhase::Unloaded,
            in_flight: 0,
            last_used_ms: 0,
            placement,
        })
    }

    /// Refuse work on a poisoned or draining model.
    pub fn gate(&self) -> (r: Result<(), EngineError>)
        ensures
            match gate_error(self.poisoned, self.draining) {
                Some(e) => r == Err::<(), EngineError>(e),
                None => r is Ok,
            },
    {
        if self.poisoned {
            Err(EngineError::BackendPoisoned)
        } else if self.draining {
            Err(EngineError::BackendDraining)
        } else {
            Ok(())
        }
    }

    /// Ask for the model to be loaded, at `now_ms`. For a request, a loaded
    /// model counts the request in flight and is marked used; a request
    /// that leads the load is counted from the start of the load, so that
    /// the model cannot be evicted under it.
    pub fn begin_load(&mut self, for_request: bool, now_ms: u64) -> (step: LoadStep)
        requires
            for_request ==> old(self).in_flight < u32::MAX,
        ensures
            match gate_error(old(self).poisoned, old(self).draining) {
                Some(e) => step == LoadStep::Refused(e) && *final(self) == *old(self),
                None => match old(self).phase {
                    LoadPhase::Loaded => step is Ready && (if for_request {
                        *final(self) == (LocalModel {
                            in_flight: (old(self).in_flight + 1) as u32,
                            last_used_ms: now_ms,
                            ..*old(self)
                        })
                    } else {
                        *final(self) == *old(self)
                    }),
                    LoadPhase::Loading => step is Wait && *final(self) == *old(self),
                    LoadPhase::Unloaded => step is Lead && *final(self) == (LocalModel {
                        phase: LoadPhase::Loading,
                        in_flight: if for_request { (old(self).in_flight + 1) as u32 } else { old(self).in_flight },
                        ..*old(self)
                    }),
                },
            },
    {
        match self.gate() {
            Err(e) => return LoadStep::Refused(e),
            Ok(()) => {},
        }
        match self.phase {
            LoadPhase::Loaded => {
                if for_request {
                    self.in_flight = self.in_flight + 1;
                    self.last_used_ms = now_ms;
                }
                LoadStep::Ready
            },
            LoadPhase::Loading => LoadStep::Wait,
            LoadPhase::Unloaded => {
                self.phase = LoadPhase::Loading;
                if for_request {
                    self.in_flight = self.in_flight + 1;
                }
                LoadStep::Lead
            },
        }
    }

    /// The leader reports its load: a success leaves the model loaded and
    /// marked used at `now_ms`; a failure leaves it unloaded (and a
    /// request-path leader's count is dropped).
    pub fn load_finished(&mut self, ok: bool, for_request: bool, now_ms: u64)
        requires
            old(self).phase == LoadPhase::Loading,
            for_request ==> old(self).in_flight > 0,
        ensures
            *final(self) == (LocalModel {
                phase: if ok { LoadPhase::Loaded } else { LoadPhase::Unloaded },
                last_used_ms: if ok { now_ms } else { old(self).last_used_ms },
                in_flight: if !ok && for_request { (old(self).in_flight - 1) as u32 } else { old(self).in_flight },
                ..*old(self)
            }),
    {
        if ok {
            self.phase = LoadPhase::Loaded;
            self.last_used_ms = now_ms;
        } else {
            self.phase = LoadPhase::Unloaded;
            if for_request {
                self.in_flight = self.in_flight - 1;
            }
        }
    }

    /// A request is done with the model (its count drops, wrapping as the
    /// atomic counter does).
    pub fn request_done(&mut self)
        ensures
            *final(self) == (LocalModel { in_flight: old(self).in_flight.wrapping_sub(1), ..*old(self) }),
    {
        self.in_flight = self.in_flight.wrapping_sub(1);
    }

    /// The placement a load reserves for: the resolved one, or for an
    /// automatic one the device with the most free budget, if there is one.
    pub fn placement_for_load(&self, most_free_device: Option<u32>) -> (r: Result<Placement, EngineError>)
        ensures
            match self.placement {
                ResolvedPlacement::Resolved(p) => r matches Ok(q) && q.devices() == p.devices(),
                ResolvedPlacement::Auto => match most_free_device {
                    Some(g) => r == Ok::<Placement, EngineError>(Placement::SingleDevice(g)),
                    None => r matches Err(EngineError::ModelUnavailable(m)) && m@ == "auto-placement: no devices configured"@,
                },
            },
    {
        match &self.placement {
            ResolvedPlacement::Resolved(p) => Ok(copy_placement(p)),
            ResolvedPlacement::Auto => match most_free_device {
                Some(g) => Ok(Placement::SingleDevice(g)),
                None => Err(EngineError::ModelUnavailable(to_string("auto-placement: no devices configured"))),
            },
        }
    }

    /// Lock in the placement a reservation succeeded with, if it was
    /// automatic; a resolved placement stays.
    pub fn commit_placement(&mut self, chosen: Placement)
        ensures
            *final(self) == (LocalModel {
                placement: match old(self).placement {
                    ResolvedPlacement::Auto => ResolvedPlacement::Resolved(chosen),
                    p => p,
                },
                ..*old(self)
            }),
    {
        if matches!(self.placement, ResolvedPlacement::Auto) {
            self.placement = ResolvedPlacement::Resolved(chosen);
        }
    }

    /// Begin an unload: refused while requests (or a load) hold the
    /// model; a loaded model becomes unloaded and its worker is stopped.
    pub fn begin_unload(&mut self) -> (step: UnloadStep)
        ensures
            old(self).in_flight > 0 ==> step is Busy && *final(self) == *old(self),
            old(self).in_flight == 0 ==> match old(self).phase {
                LoadPhase::Loaded => step is StopWorker
                    && *final(self) == (LocalModel { phase: LoadPhase::Unloaded, ..*old(self) }),
                LoadPhase::Unloaded => step is AlreadyUnloaded && *final(self) == *old(self),
                LoadPhase::Loading => step is Busy && *final(self) == *old(self),
            },
    {
        if self.in_flight > 0 {
            return UnloadStep::Busy;
        }
        match self.phase {
            LoadPhase::Loaded => {
                self.phase = LoadPhase::Unloaded;
                UnloadStep::StopWorker
            },
            LoadPhase::Unloaded => UnloadStep::AlreadyUnloaded,
            LoadPhase::Loading => UnloadStep::Busy,
        }
    }

    /// After the worker stopped: the devices whose reservations are
    /// released, and an automatically placed model goes back to automatic
    /// placement for its next load.
    pub fn after_unload(&mut self) -> (gpus: Vec<u32>)
        ensures
            gpus@ == placement_devices(old(self).placement),
            *final(self) == (LocalModel {
                placement: if old(self).explicit_gpus { old(self).placement } else { ResolvedPlacement::Auto },
                ..*old(self)
            }),
    {
        let gpus = self.placed_devices();
        if !self.explicit_gpus {
            self.placement = ResolvedPlacement::Auto;
        }
        gpus
    }

    /// The devices the current placement touches (none while automatic).
    pub fn placed_devices(&self) -> (gpus: Vec<u32>)
        ensures
            gpus@ == placement_devices(self.placement),
    {
        match &self.placement {
            ResolvedPlacement::Auto => Vec::new(),
            ResolvedPlacement::Resolved(p) => p.gpus(),
        }
    }

    /// Begin shutdown: no new work is accepted, and a loaded model's
    /// worker is to be stopped (`true`).
    pub fn begin_shutdown(&mut self) -> (stop_worker: bool)
        ensures
            stop_worker == (old(self).phase == LoadPhase::Loaded),
            *final(self) == (LocalModel {
                draining: true,
                phase: if stop_worker { LoadPhase::Unloaded } else { old(self).phase },
                ..*old(self)
            }),
    {
        self.draining = true;
        if self.phase == LoadPhase::Loaded {
            self.phase = LoadPhase::Unloaded;
            true
        } else {
            false
        }
    }

    /// Whether the worker can take a request now: not poisoned, not
    /// draining, and loaded.
    pub fn worker_ready(&self) -> (r: Result<(), EngineError>)
        ensures
            match gate_error(self.poisoned, self.draining) {
                Some(e) => r == Err::<(), EngineError>(e),
                None => if self.phase == LoadPhase::Loaded {
                    r is Ok
                } else {
                    r matches Err(EngineError::InferenceFailed(m)) && m@ == "worker not ready (ensure_loaded should run first)"@
                },
            },
    {
        self.gate()?;
        if self.phase == LoadPhase::Loaded {
            Ok(())
        } else {
            Err(EngineError::InferenceFailed(to_string("worker not ready (ensure_loaded should run first)")))
        }
    }

    /// Its listing entry: loaded only when loaded and not poisoned.
    pub fn model_info(&self) -> (r: ModelInfo)
        ensures
            r.id@ == self.id@,
            r.context_size == self.context_size,
            r.loaded == (!self.poisoned && self.phase == LoadPhase::Loaded),
            r.provider@ == "local"@,
    {
        ModelInfo {
            id: copy_string(&self.id),
            context_size: self.context_size,
            loaded: !self.poisoned && self.phase == LoadPhase::Loaded,
            provider: to_string("local"),
        }
    }
}

fn copy_placement(p: &Placement) -> (r: Placement)
    ensures
        r.devices() == p.devices(),
        r is SingleDevice <==> p is SingleDevice,
{
    match p {
        Placement::SingleDevice(g) => Placement::SingleDevice(*g),
        Placement::Split(v) => Placement::Split(v.clone()),
    }
}

// ---------------------------------------------------------------------
// Eviction
// ---------------------------------------------------------------------

/// The error when a device is over budget and nothing on it can go.
pub fn no_eviction_candidates(gpu_id: u32) -> (e: EngineError)
    ensures
        e matches EngineError::ModelUnavailable(m) && m@ == "VRAM budget exceeded on gpu "@
            + crate::text::decimal(gpu_id as nat) + ": no eviction candidates available"@,
{
    let mut m = to_string("VRAM budget exceeded on gpu ");
    push_decimal(&mut m, gpu_id as u64);
    push_str(&mut m, ": no eviction candidates available");
    EngineError::ModelUnavailable(m)
}

/// The error when a device is over budget and no evictor has been bound to
/// the backend, so nothing can be freed.
pub fn no_evictor() -> (e: EngineError)
    ensures
        e matches EngineError::ModelUnavailable(m) && m@ == "no evictor bound; cannot free VRAM"@,
{
    EngineError::ModelUnavailable(to_string("no evictor bound; cannot free VRAM"))
}

/// The error when a placement names a device the scheduler does not know.
pub fn unknown_gpu(gpu_id: u32) -> (e: EngineError)
    ensures
        e matches EngineError::InferenceFailed(m) && m@ == "placement targets unknown gpu "@
            + crate::text::decimal(gpu_id as nat),
{
    let mut m = to_string("placement targets unknown gpu ");
    push_decimal(&mut m, gpu_id as u64);
    EngineError::InferenceFailed(m)
}

/// One round of evictions on a device: each victim's unload outcome is
/// reported in turn; a busy victim is skipped, any other failure ends
/// the reservation, and a round that freed nothing ends it too.
pub struct EvictionRound {
    pub gpu_id: u32,
    pub evicted: u32,
}

impl EvictionRound {
    /// Whether a round can start on an over-budget device: without
    /// candidates the load is refused, then without a bound evictor; else
    /// a round starts. Either refusal reserves nothing.
    pub fn begin(gpu_id: u32, has_candidates: bool, evictor_bound: bool) -> (r: Result<Self, EngineError>)
        ensures
            !has_candidates ==> (r matches Err(EngineError::ModelUnavailable(m)) && m@ == "VRAM budget exceeded on gpu "@
                + crate::text::decimal(gpu_id as nat) + ": no eviction candidates available"@),
            has_candidates && !evictor_bound ==> (r matches Err(EngineError::ModelUnavailable(m))
                && m@ == "no evictor bound; cannot free VRAM"@),
            has_candidates && evictor_bound ==> (r matches Ok(round) && round.gpu_id == gpu_id && round.evicted == 0),
    {
        if !has_candidates {
            Err(no_eviction_candidates(gpu_id))
        } else if !evictor_bound {
            Err(no_evictor())
        } else {
            Ok(EvictionRound::start(gpu_id))
        }
    }

    pub fn start(gpu_id: u32) -> (r: Self)
        ensures
            r.gpu_id == gpu_id,
            r.evicted == 0,
    {
        EvictionRound { gpu_id, evicted: 0 }
    }

    /// Report one victim's unload; `Some` is the error that ends the
    /// reservation now.
    pub fn unloaded(&mut self, outcome: Result<(), EngineError>) -> (stop: Option<EngineError>)
        requires
            old(self).evicted < u32::MAX,
        ensures
            final(self).gpu_id == old(self).gpu_id,
            match outcome {
                Ok(()) => stop is None && final(self).evicted == old(self).evicted + 1,
                Err(EngineError::BackendBusy) => stop is None && final(self).evicted == old(self).evicted,
                Err(e) => stop == Some(e) && final(self).evicted == old(self).evicted,
            },
    {
        match outcome {
            Ok(()) => {
                self.evicted = self.evicted + 1;
                None
            },
            Err(EngineError::BackendBusy) => None,
            Err(e) => Some(e),
        }
    }

    /// After the last victim: retry the reservation (`Ok`) if anything was
    /// evicted, else give up.
    pub fn finish(&self) -> (r: Result<(), EngineError>)
        ensures
            self.evicted > 0 ==> r is Ok,
            self.evicted == 0 ==> (r matches Err(EngineError::ModelUnavailable(m)) && m@ == "all eviction candidates busy on gpu "@
                + crate::text::decimal(self.gpu_id as nat) + "; retry shortly"@),
    {
        if self.evicted > 0 {
            Ok(())
        } else {
            let mut m = to_string("all eviction candidates busy on gpu ");
            push_decimal(&mut m, self.gpu_id as u64);
            push_str(&mut m, "; retry shortly");
            Err(EngineError::ModelUnavailable(m))
        }
    }
}

} // verus!
