use hyperspeed::instruction::{
    baseline_instruction, reduce_instructions, EngineInstruction, RunData,
};

#[test]
fn higher_priority_wins() {
    let run = EngineInstruction::Run(RunData { run_dispatcher: true }, 1);
    let pause = EngineInstruction::Pause(5);
    assert_eq!(run.mul(pause), EngineInstruction::Pause(5));
    assert_eq!(pause.mul(run), EngineInstruction::Pause(5));
}

#[test]
fn tie_keeps_the_left_operand() {
    // Two distinct instances with equal priority: the first operand
    // survives the reduction.
    let first = EngineInstruction::Run(RunData { run_dispatcher: true }, 5);
    let second = EngineInstruction::Run(RunData { run_dispatcher: false }, 5);
    assert_eq!(first.mul(second), first);
    assert_eq!(second.mul(first), second);
}

#[test]
fn reduction_folds_from_the_baseline() {
    assert_eq!(
        baseline_instruction(),
        EngineInstruction::Run(RunData { run_dispatcher: true }, 0)
    );
    // No instructions: the baseline stands.
    assert_eq!(reduce_instructions(&vec![]), baseline_instruction());
    // The highest priority instruction wins the fold.
    let list = vec![
        EngineInstruction::Run(RunData { run_dispatcher: true }, 1),
        EngineInstruction::Pause(5),
        EngineInstruction::Run(RunData { run_dispatcher: true }, 3),
    ];
    assert_eq!(reduce_instructions(&list), EngineInstruction::Pause(5));
    // A zero-priority instruction loses the tie against the baseline.
    let list2 = vec![EngineInstruction::Pause(0)];
    assert_eq!(reduce_instructions(&list2), baseline_instruction());
}

#[test]
fn dispatch_flag_follows_the_variant() {
    assert!(EngineInstruction::Run(RunData { run_dispatcher: true }, 0).dispatches());
    assert!(!EngineInstruction::Run(RunData { run_dispatcher: false }, 0).dispatches());
    assert!(!EngineInstruction::Pause(9).dispatches());
    assert!(!EngineInstruction::Restart(9).dispatches());
    assert_eq!(EngineInstruction::Restart(9).priority(), 9);
}
