//! The start of a browser session. A session is brought up in three stages,
//! each of which can fail; the first failure ends the start and says at
//! which stage it happened.

use vstd::prelude::*;

verus! {

/// Whether the browser runs without a window.
pub const HEADLESS: bool = true;

/// The stages in which a session is brought up, in order.
#[derive(Clone, Copy, Debug, PartialEq, Eq, Structural)]
pub enum StartupStage {
    /// The rendering engine's driver is initialised.
    Engine,
    /// The browser is launched.
    Browser,
    /// The browsing context is built.
    Context,
}

/// Why no session could be brought up.
#[derive(Clone, Debug, PartialEq, Eq)]
pub struct SessionError {
    /// The stage that failed.
    pub stage: StartupStage,
    /// What the browser said.
    pub cause: String,
}

/// How the start of a session goes on after a stage.
#[derive(Clone, Debug, PartialEq, Eq)]
pub enum Startup {
    /// The stage to run next.
    Next(StartupStage),
    /// Every stage has succeeded: pages can be opened.
    Ready,
    /// A stage has failed: there is no session, and nothing is retrieved.
    Failed(SessionError),
}

/// What follows a stage that ended with `result`.
pub open spec fn startup_after(stage: StartupStage, result: Result<(), String>) -> Startup {
    match result {
        Err(cause) => Startup::Failed(SessionError { stage, cause }),
        Ok(_) => match stage {
            StartupStage::Engine => Startup::Next(StartupStage::Browser),
            StartupStage::Browser => Startup::Next(StartupStage::Context),
            StartupStage::Context => Startup::Ready,
        },
    }
}

/// What is said of a failure at each stage.
pub open spec fn stage_context(stage: StartupStage) -> Seq<char> {
    match stage {
        StartupStage::Engine => "playwright initialize failed"@,
        StartupStage::Browser => "chromium launch failed"@,
        StartupStage::Context => "browser context build failed"@,
    }
}

/// The stage with which the start of a session begins.
pub fn first_stage() -> (stage: StartupStage)
    ensures
        stage == StartupStage::Engine,
{
    StartupStage::Engine
}

/// Decides how the start goes on after `stage` has ended with `result`:
/// with the next stage, with a session that is ready, or, on the first
/// failure, with an error that names the stage and carries the cause.
pub fn after_stage(stage: StartupStage, result: Result<(), String>) -> (next: Startup)
    ensures
        next == startup_after(stage, result),
{
    match result {
        Err(cause) => Startup::Failed(SessionError { stage, cause }),
        Ok(_) => match stage {
            StartupStage::Engine => Startup::Next(StartupStage::Browser),
            StartupStage::Browser => Startup::Next(StartupStage::Context),
            StartupStage::Context => Startup::Ready,
        },
    }
}

impl SessionError {
    /// What is said of this failure: which stage failed.
    pub fn context(&self) -> (text: &'static str)
        ensures
            text@ == stage_context(self.stage),
    {
        match self.stage {
            StartupStage::Engine => "playwright initialize failed",
            StartupStage::Browser => "chromium launch failed",
            StartupStage::Context => "browser context build failed",
        }
    }
}

/// A session is ready after exactly three stages that succeed, and a
/// failure at any stage ends the start at once with that stage and cause.
pub proof fn lemma_startup_order(cause: String, stage: StartupStage)
    ensures
        startup_after(StartupStage::Engine, Ok(())) == Startup::Next(StartupStage::Browser),
        startup_after(StartupStage::Browser, Ok(())) == Startup::Next(StartupStage::Context),
        startup_after(StartupStage::Context, Ok(())) == Startup::Ready,
        startup_after(stage, Err(cause)) == Startup::Failed(SessionError { stage, cause }),
{
}

} // verus!
