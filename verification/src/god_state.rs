//! The frame loop's shared state: per-frame event flags and the
//! user-editable settings, among them the worker count that the scheduler is
//! rebuilt with at runtime.

use vstd::prelude::*;

verus! {

/// Scheduler-related settings: the configured worker count and whether it
/// changed since the settings were last applied.
#[derive(Clone, Copy, PartialEq, Eq, Structural, Debug)]
pub struct JobSettings {
    workers: usize,
    changed: bool,
}

impl JobSettings {
    /// The configured worker count.
    pub closed spec fn workers_spec(self) -> usize {
        self.workers
    }

    /// Whether the worker count changed since last applied.
    pub closed spec fn changed_spec(self) -> bool {
        self.changed
    }

    /// Fresh settings: `workers` configured, nothing pending.
    pub fn new(workers: usize) -> (settings: Self)
        ensures
            settings.workers_spec() == workers,
            !settings.changed_spec(),
    {
        JobSettings { workers, changed: false }
    }

    /// The configured worker count.
    pub fn workers(&self) -> (workers: usize)
        ensures
            workers == self.workers_spec(),
    {
        self.workers
    }

    /// Whether the worker count changed since last applied; the frame loop
    /// rebuilds the pool when this reports true.
    pub fn changed(&self) -> (changed: bool)
        ensures
            changed == self.changed_spec(),
    {
        self.changed
    }
}

/// The user-editable settings: for the scheduler core, the job settings and
/// whether a save to disk is pending.
#[derive(Clone, Copy, PartialEq, Eq, Structural, Debug)]
pub struct Settings {
    job: JobSettings,
    save_requested: bool,
}

impl Settings {
    /// The job settings.
    pub closed spec fn job_spec(self) -> JobSettings {
        self.job
    }

    /// Whether a save to disk is pending.
    pub closed spec fn save_requested_spec(self) -> bool {
        self.save_requested
    }

    /// Fresh settings with `workers` configured and nothing pending.
    pub fn new(workers: usize) -> (settings: Self)
        ensures
            settings.job_spec().workers_spec() == workers,
            !settings.job_spec().changed_spec(),
            !settings.save_requested_spec(),
    {
        Settings { job: JobSettings::new(workers), save_requested: false }
    }

    /// The job settings.
    pub fn job(&self) -> (job: &JobSettings)
        ensures
            *job == self.job_spec(),
    {
        &self.job
    }

    /// Reconfigures the worker count, marking the change pending and
    /// requesting a save.
    pub fn set_workers(&mut self, workers: usize)
        ensures
            final(self).job_spec().workers_spec() == workers,
            final(self).job_spec().changed_spec(),
            final(self).save_requested_spec(),
    {
        self.job = JobSettings { workers, changed: true };
        self.save_requested = true;
    }

    /// Whether a save to disk is pending.
    pub fn save_requested(&self) -> (pending: bool)
        ensures
            pending == self.save_requested_spec(),
    {
        self.save_requested
    }

    /// Clears the pending flags once a frame has applied and saved the
    /// settings; the configured values stay.
    pub fn reset(&mut self)
        ensures
            final(self).job_spec().workers_spec() == old(self).job_spec().workers_spec(),
            !final(self).job_spec().changed_spec(),
            !final(self).save_requested_spec(),
    {
        self.job = JobSettings { workers: self.job.workers, changed: false };
        self.save_requested = false;
    }
}

/// The frame loop's shared state: events raised during a frame and the
/// settings.  The rendering, input and scene state that the full engine
/// carries alongside belongs to the subsystems that own it.
#[derive(Clone, Copy, Debug)]
pub struct GodState {
    /// Raised when the renderers must be rebuilt before the next frame.
    pub event_rebuild_renderers: bool,
    /// Raised with the new size when the window was resized.
    pub event_window_resized: Option<(u32, u32)>,
    /// Whether the debug overlay holds the input focus.
    pub debug_ui_is_focused: bool,
    /// The user-editable settings.
    pub settings: Settings,
}

impl GodState {
    /// A fresh state around `settings`: no events raised, no focus.
    pub fn new(settings: Settings) -> (state: Self)
        ensures
            !state.event_rebuild_renderers,
            state.event_window_resized is None,
            !state.debug_ui_is_focused,
            state.settings == settings,
    {
        GodState {
            event_rebuild_renderers: false,
            event_window_resized: None,
            debug_ui_is_focused: false,
            settings,
        }
    }

    /// Starts a frame: clears the event flags and the settings' pending
    /// flags; everything else stays.
    pub fn reset_events(&mut self)
        ensures
            !final(self).event_rebuild_renderers,
            final(self).event_window_resized is None,
            final(self).debug_ui_is_focused == old(self).debug_ui_is_focused,
            final(self).settings.job_spec().workers_spec() == old(
                self,
            ).settings.job_spec().workers_spec(),
            !final(self).settings.job_spec().changed_spec(),
            !final(self).settings.save_requested_spec(),
    {
        self.event_rebuild_renderers = false;
        self.event_window_resized = None;
        self.settings.reset();
    }
}

} // verus!
