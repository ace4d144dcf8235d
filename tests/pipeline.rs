use spare::pipeline::{
    backchannel_path, final_status, should_retry, CleanupStep, Pipeline, RecordStatus, Resource, Stage,
};

fn run_to(p: &mut Pipeline, stage: Stage) {
    while p.stage() != stage {
        match p.stage() {
            Stage::Created => {
                p.acquired(Resource::Ip);
                p.acquired(Resource::Tap);
                p.acquired(Resource::Vm);
                p.acquired(Resource::Record);
            }
            Stage::Recorded => p.acquired(Resource::Socket),
            Stage::Running => p.acquired(Resource::Stream),
            _ => {}
        }
        p.advance();
    }
}

#[test]
fn success_returns_everything() {
    let mut p = Pipeline::new();
    run_to(&mut p, Stage::ResponseReceived);
    let steps = p.finish();
    assert_eq!(
        steps,
        vec![
            CleanupStep::CloseStream,
            CleanupStep::StopVm,
            CleanupStep::DeleteVm,
            CleanupStep::RemoveTap,
            CleanupStep::ReleaseIp,
            CleanupStep::RemoveSocket,
            CleanupStep::MarkTerminated,
        ]
    );
    assert_eq!(p.stage(), Stage::Terminated);
    assert_eq!(final_status(p.stage()), Some(RecordStatus::Terminated));
}

#[test]
fn handshake_timeout_cleans_up_before_marking_failed() {
    let mut p = Pipeline::new();
    run_to(&mut p, Stage::Running);
    let steps = p.fail();
    assert_eq!(
        steps,
        vec![
            CleanupStep::KillVm,
            CleanupStep::RemoveTap,
            CleanupStep::ReleaseIp,
            CleanupStep::RemoveSocket,
            CleanupStep::MarkFailed,
        ]
    );
    assert_eq!(p.stage(), Stage::Failed);
    assert!(p.failed_before_handshake());
    assert_eq!(final_status(p.stage()), Some(RecordStatus::Failed));
    assert!(!p.held().ip && !p.held().vm && !p.held().record);
}

#[test]
fn failure_after_handshake_is_not_retried() {
    let mut p = Pipeline::new();
    run_to(&mut p, Stage::PayloadSent);
    let steps = p.fail();
    assert_eq!(steps[0], CleanupStep::CloseStream);
    assert!(!p.failed_before_handshake());
    assert!(!should_retry(0, p.failed_before_handshake()));
}

#[test]
fn failure_with_nothing_held() {
    let mut p = Pipeline::new();
    assert_eq!(p.fail(), vec![]);
    assert!(p.failed_before_handshake());
}

#[test]
fn retry_budget() {
    assert!(should_retry(0, true));
    assert!(should_retry(2, true));
    assert!(!should_retry(3, true));
    assert!(!should_retry(0, false));
    assert_eq!(final_status(Stage::Running), None);
}

#[test]
fn backchannel_socket_path() {
    assert_eq!(backchannel_path(&"/tmp/vm/v.sock".to_string()), "/tmp/vm/v.sock_1234");
}
