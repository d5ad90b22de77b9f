use luai_orchestrator::pipeline::{PipelineError, VmOutput};
use luai_orchestrator::retry::{AfterFailure, RetryLoop};

fn out() -> VmOutput {
    VmOutput { return_value: "1".into(), logs: vec![], transcript: vec![], gas_used: 1, memory_used: 1 }
}

#[test]
fn retry_loop_starts_with_task() {
    let l = RetryLoop::start("do it".to_string(), 3);
    assert_eq!(l.attempt(), 1);
    assert_eq!(l.messages().len(), 1);
    assert_eq!(l.messages()[0].role, "user");
    assert_eq!(l.messages()[0].content, "do it");
}

#[test]
fn retry_loop_retries_then_gives_up() {
    let mut l = RetryLoop::start("task".to_string(), 2);
    let err = PipelineError::Parse("bad".into());
    assert_eq!(l.on_failure("raw1".into(), "src1", &err), AfterFailure::Retry);
    assert_eq!(l.attempt(), 2);
    assert_eq!(l.messages().len(), 3);
    assert_eq!(l.messages()[1].role, "assistant");
    assert_eq!(l.messages()[1].content, "raw1");
    assert_eq!(l.messages()[2].role, "user");
    assert!(l.messages()[2].content.contains("src1"));
    assert!(l.messages()[2].content.contains("Parse error: bad"));
    assert_eq!(l.on_failure("raw2".into(), "src2", &err), AfterFailure::Retry);
    assert_eq!(l.attempt(), 3);
    assert_eq!(l.on_failure("raw3".into(), "src3", &err), AfterFailure::GiveUp);
    assert_eq!(l.attempt(), 3);
    assert_eq!(l.messages().len(), 5);
}

#[test]
fn retry_loop_without_retries_gives_up_at_once() {
    let mut l = RetryLoop::start("task".to_string(), 0);
    let err = PipelineError::Compile("c".into());
    assert_eq!(l.on_failure("raw".into(), "src", &err), AfterFailure::GiveUp);
    assert_eq!(l.messages().len(), 1);
}

#[test]
fn retry_loop_finish_counts_attempts() {
    let mut l = RetryLoop::start("task".to_string(), 5);
    let err = PipelineError::Verify("v".into());
    l.on_failure("raw".into(), "src", &err);
    let r = l.finish("return 1".into(), out());
    assert_eq!(r.attempts, 2);
    assert_eq!(r.source, "return 1");
}
