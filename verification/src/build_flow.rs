//! The editor's distributable build as a sequence of steps: starting it (checks, saving
//! the project, pausing the script watcher, handing the build to a worker) and collecting
//! what the worker reports. The caller does the work each step asks for.
use vstd::prelude::*;
use crate::workspace::BuildStatus;

verus! {

/// The state of the editor's distributable build.
#[derive(Debug)]
pub struct BuildWorker {
    pub status: BuildStatus,
    /// The stage the worker last reported.
    pub message: Option<String>,
    /// A worker is running and its reports are awaited.
    pub receiving: bool,
    /// The script watcher was paused for this build.
    pub watcher_paused: bool,
}

/// Whether a build may start.
#[derive(Debug, Clone, Copy, PartialEq, Eq, Structural)]
pub enum BuildStart {
    AlreadyRunning,
    NoProject,
    /// Go on: save the project, add the output folder to `.gitignore`, pause the watcher.
    Proceed,
}

/// What the worker reported (or that it reported nothing, or went away).
#[derive(Debug, Clone)]
pub enum BuildReport {
    Stage(String),
    Succeeded,
    Failed(String),
    Nothing,
    Disconnected,
}

/// What the caller does after a report.
#[derive(Debug, Clone, Copy, PartialEq, Eq, Structural)]
pub struct BuildReaction {
    /// Redraw the editor to show the new stage.
    pub repaint: bool,
    /// Resume the script watcher that the build paused.
    pub resume_watcher: bool,
    /// Reload the scripts assembly so new script classes show up.
    pub reload_scripts: bool,
}

impl BuildWorker {
    /// No build has run.
    pub fn new() -> (w: BuildWorker)
        ensures
            w.status == BuildStatus::Idle,
            w.message is None,
            !w.receiving && !w.watcher_paused,
    {
        BuildWorker { status: BuildStatus::Idle, message: None, receiving: false, watcher_paused: false }
    }

    /// Whether a build may start now.
    pub fn start_check(&self, project_loaded: bool) -> (s: BuildStart)
        ensures
            s == if self.status == BuildStatus::Running {
                BuildStart::AlreadyRunning
            } else if !project_loaded {
                BuildStart::NoProject
            } else {
                BuildStart::Proceed
            },
    {
        if self.status == BuildStatus::Running {
            BuildStart::AlreadyRunning
        } else if !project_loaded {
            BuildStart::NoProject
        } else {
            BuildStart::Proceed
        }
    }

    /// Saving the project before the build failed: the build fails.
    pub fn save_failed(&mut self)
        ensures
            final(self).status == BuildStatus::Failed,
            final(self).message == old(self).message,
            final(self).receiving == old(self).receiving,
            final(self).watcher_paused == old(self).watcher_paused,
    {
        self.status = BuildStatus::Failed;
    }

    /// Pausing the script watcher succeeded (it is now paused) or failed (the build fails).
    pub fn watcher_pause_result(&mut self, paused: bool)
        ensures
            paused ==> final(self).watcher_paused && final(self).status == old(self).status,
            !paused ==> final(self).status == BuildStatus::Failed && final(self).watcher_paused == old(
                self,
            ).watcher_paused,
            final(self).message == old(self).message,
            final(self).receiving == old(self).receiving,
    {
        if paused {
            self.watcher_paused = true;
        } else {
            self.status = BuildStatus::Failed;
        }
    }

    /// The watcher resumes (when the build paused it). Returns whether the caller resumes it.
    fn resume(&mut self) -> (resume: bool)
        ensures
            resume == old(self).watcher_paused,
            !final(self).watcher_paused,
            final(self).status == old(self).status,
            final(self).message == old(self).message,
            final(self).receiving == old(self).receiving,
    {
        let was = self.watcher_paused;
        self.watcher_paused = false;
        was
    }

    /// Handing the build to a worker succeeded (the build runs and its reports are awaited)
    /// or failed (the build fails and the watcher resumes). Returns whether to resume the
    /// watcher.
    pub fn worker_started(&mut self, started: bool) -> (resume_watcher: bool)
        ensures
            started ==> !resume_watcher && final(self).status == BuildStatus::Running && final(self).receiving
                && final(self).watcher_paused == old(self).watcher_paused,
            !started ==> resume_watcher == old(self).watcher_paused && final(self).status == BuildStatus::Failed
                && !final(self).receiving && !final(self).watcher_paused,
            final(self).message == old(self).message,
    {
        if started {
            self.status = BuildStatus::Running;
            self.receiving = true;
            false
        } else {
            let resume = self.resume();
            self.status = BuildStatus::Failed;
            self.receiving = false;
            resume
        }
    }

    /// Takes in one report of the worker. A stage is shown; success or failure ends the
    /// build (success also reloads the scripts); a worker that went away fails the build.
    /// When the build ends, the watcher resumes if the build paused it.
    pub fn take_report(&mut self, report: BuildReport) -> (r: BuildReaction)
        requires
            old(self).receiving,
        ensures
            report matches BuildReport::Stage(m) ==> final(self).message == Some(m),
            report is Stage || report is Nothing ==> {
                &&& final(self).receiving
                &&& final(self).status == old(self).status
                &&& final(self).watcher_paused == old(self).watcher_paused
                &&& r.resume_watcher == false && r.reload_scripts == false
            },
            report is Stage ==> r.repaint,
            report is Nothing ==> !r.repaint && final(self).message == old(self).message,
            report is Succeeded ==> final(self).status == BuildStatus::Done && r.reload_scripts,
            report is Failed || report is Disconnected ==> final(self).status == BuildStatus::Failed
                && !r.reload_scripts,
            !(report is Stage || report is Nothing) ==> {
                &&& final(self).message is None
                &&& !final(self).receiving
                &&& !final(self).watcher_paused
                &&& !r.repaint
                &&& r.resume_watcher == old(self).watcher_paused
            },
    {
        match report {
            BuildReport::Stage(m) => {
                self.message = Some(m);
                BuildReaction { repaint: true, resume_watcher: false, reload_scripts: false }
            },
            BuildReport::Nothing => BuildReaction { repaint: false, resume_watcher: false, reload_scripts: false },
            BuildReport::Succeeded => {
                let resume = self.resume();
                self.message = None;
                self.status = BuildStatus::Done;
                self.receiving = false;
                BuildReaction { repaint: false, resume_watcher: resume, reload_scripts: true }
            },
            BuildReport::Failed(_) | BuildReport::Disconnected => {
                let resume = self.resume();
                self.message = None;
                self.status = BuildStatus::Failed;
                self.receiving = false;
                BuildReaction { repaint: false, resume_watcher: resume, reload_scripts: false }
            },
        }
    }
}

} // verus!
