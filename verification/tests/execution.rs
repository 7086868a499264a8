use rule_engine::{Error, Execution, RunningError};

#[test]
fn a_new_handle_runs_nothing() {
    let handle: Execution<u32> = Execution::new();
    assert!(!handle.running());
}

#[test]
fn stop_without_start_is_refused() {
    let mut handle: Execution<u32> = Execution::new();
    assert_eq!(handle.stop(), Err(Error::RunningError(RunningError::NotRunning)));
    assert!(!handle.running());
}

#[test]
fn a_second_start_is_refused_and_the_first_is_kept() {
    let mut handle: Execution<u32> = Execution::new();
    assert_eq!(handle.start(1), Ok(()));
    assert!(handle.running());
    assert_eq!(handle.start(2), Err(Error::RunningError(RunningError::AlreadyRunning)));
    assert!(handle.running());
    // The channel that stop hands out is that of the first start.
    assert_eq!(handle.stop(), Ok(1));
}

#[test]
fn stop_hands_out_the_channel_and_forgets_it() {
    let mut handle: Execution<String> = Execution::new();
    assert_eq!(handle.start("tx".to_string()), Ok(()));
    assert_eq!(handle.stop(), Ok("tx".to_string()));
    assert!(!handle.running());
    assert_eq!(handle.stop(), Err(Error::RunningError(RunningError::NotRunning)));
    assert!(!handle.running());
}

#[test]
fn a_handle_can_start_again_after_a_stop() {
    let mut handle: Execution<u32> = Execution::new();
    assert_eq!(handle.start(1), Ok(()));
    assert_eq!(handle.stop(), Ok(1));
    assert_eq!(handle.start(2), Ok(()));
    assert_eq!(handle.start(3), Err(Error::RunningError(RunningError::AlreadyRunning)));
    assert_eq!(handle.stop(), Ok(2));
}
