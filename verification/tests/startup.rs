use page_harvest::session::{after_stage, first_stage, SessionError, Startup, StartupStage, HEADLESS};

#[test]
fn session_comes_up_in_three_stages() {
    assert!(HEADLESS);
    let mut stage = first_stage();
    let mut passed = vec![stage];
    loop {
        match after_stage(stage, Ok(())) {
            Startup::Next(next) => {
                stage = next;
                passed.push(next);
            }
            Startup::Ready => break,
            Startup::Failed(_) => panic!("no stage failed"),
        }
    }
    assert_eq!(passed, vec![StartupStage::Engine, StartupStage::Browser, StartupStage::Context]);
}

#[test]
fn first_failure_ends_the_start() {
    for stage in [StartupStage::Engine, StartupStage::Browser, StartupStage::Context] {
        let next = after_stage(stage, Err("driver not found".to_string()));
        assert_eq!(
            next,
            Startup::Failed(SessionError { stage, cause: "driver not found".to_string() })
        );
    }
}

#[test]
fn failure_names_its_stage() {
    let at = |stage| SessionError { stage, cause: String::new() }.context();
    assert_eq!(at(StartupStage::Engine), "playwright initialize failed");
    assert_eq!(at(StartupStage::Browser), "chromium launch failed");
    assert_eq!(at(StartupStage::Context), "browser context build failed");
}
