use int_code::errors::OutputError;
use int_code::execute;
use int_code::executor::Executor;
use int_code::input::FixedInput;
use int_code::output::{Output, QueueOutput};

fn run(program: Vec<i32>, inputs: Vec<i32>) -> (Result<(), String>, Vec<i32>, Vec<i32>) {
    let mut output = QueueOutput::new();
    let (result, memory) = {
        let mut executor = Executor::new(program, FixedInput::new(inputs), &mut output);
        let result = executor.execute().map_err(|e| e.message());
        (result, executor.memory().clone())
    };
    let mut sent = Vec::new();
    while let Some(value) = output.get() {
        sent.push(value);
    }
    (result, memory, sent)
}

fn outputs(program: Vec<i32>, inputs: Vec<i32>) -> Vec<i32> {
    let (result, _, sent) = run(program, inputs);
    assert_eq!(result, Ok(()));
    sent
}

#[test]
fn immediate_mode_rewrite() {
    let (result, memory, sent) = run(vec![1002, 4, 3, 4, 33], vec![]);
    assert_eq!(result, Ok(()));
    assert_eq!(memory, vec![1002, 4, 3, 4, 99]);
    assert!(sent.is_empty());
}

#[test]
fn add_in_position_mode() {
    let (result, memory, _) = run(vec![1, 9, 10, 3, 2, 3, 11, 0, 99, 30, 40, 50], vec![]);
    assert_eq!(result, Ok(()));
    assert_eq!(memory, vec![3500, 9, 10, 70, 2, 3, 11, 0, 99, 30, 40, 50]);
}

#[test]
fn negative_immediate_operand() {
    let (result, memory, _) = run(vec![1101, 100, -1, 4, 0], vec![]);
    assert_eq!(result, Ok(()));
    assert_eq!(memory, vec![1101, 100, -1, 4, 99]);
}

#[test]
fn equality_position_mode() {
    let program = vec![3, 9, 8, 9, 10, 9, 4, 9, 99, -1, 8];
    assert_eq!(outputs(program.clone(), vec![8]), vec![1]);
    assert_eq!(outputs(program, vec![7]), vec![0]);
}

#[test]
fn less_than_position_mode() {
    let program = vec![3, 9, 7, 9, 10, 9, 4, 9, 99, -1, 8];
    assert_eq!(outputs(program.clone(), vec![7]), vec![1]);
    assert_eq!(outputs(program, vec![8]), vec![0]);
}

#[test]
fn equality_immediate_mode() {
    let program = vec![3, 3, 1108, -1, 8, 3, 4, 3, 99];
    assert_eq!(outputs(program.clone(), vec![8]), vec![1]);
    assert_eq!(outputs(program, vec![9]), vec![0]);
}

#[test]
fn less_than_immediate_mode() {
    let program = vec![3, 3, 1107, -1, 8, 3, 4, 3, 99];
    assert_eq!(outputs(program.clone(), vec![5]), vec![1]);
    assert_eq!(outputs(program, vec![9]), vec![0]);
}

#[test]
fn jump_position_mode() {
    let program = vec![3, 12, 6, 12, 15, 1, 13, 14, 13, 4, 13, 99, -1, 0, 1, 9];
    assert_eq!(outputs(program.clone(), vec![0]), vec![0]);
    assert_eq!(outputs(program, vec![-4]), vec![1]);
}

#[test]
fn jump_immediate_mode() {
    let program = vec![3, 3, 1105, -1, 9, 1101, 0, 0, 12, 4, 12, 99, 1];
    assert_eq!(outputs(program.clone(), vec![0]), vec![0]);
    assert_eq!(outputs(program, vec![17]), vec![1]);
}

#[test]
fn compares_with_eight() {
    let program = vec![
        3, 21, 1008, 21, 8, 20, 1005, 20, 22, 107, 8, 21, 20, 1006, 20, 31, 1106, 0, 36, 98, 0,
        0, 1002, 21, 125, 20, 4, 20, 1105, 1, 46, 104, 999, 1105, 1, 46, 1101, 1000, 1, 20, 4,
        20, 1105, 1, 46, 98, 99,
    ];
    assert_eq!(outputs(program.clone(), vec![7]), vec![999]);
    assert_eq!(outputs(program.clone(), vec![8]), vec![1000]);
    assert_eq!(outputs(program, vec![9]), vec![1001]);
}

#[test]
fn output_in_both_modes() {
    assert_eq!(outputs(vec![4, 3, 99, 42], vec![]), vec![42]);
    assert_eq!(outputs(vec![104, 3, 99, 42], vec![]), vec![3]);
}

#[test]
fn outputs_keep_their_order() {
    assert_eq!(outputs(vec![104, 1, 104, 2, 104, 3, 99], vec![]), vec![1, 2, 3]);
}

#[test]
fn write_address_is_never_looked_up_twice() {
    let (result, memory, _) = run(vec![11101, 5, 6, 0, 99], vec![]);
    assert_eq!(result, Ok(()));
    assert_eq!(memory, vec![11, 5, 6, 0, 99]);
}

#[test]
fn counter_leaving_memory_ends_the_run() {
    let mut output = QueueOutput::new();
    let mut executor = Executor::new(vec![1101, 1, 1, 0], FixedInput::new(vec![]), &mut output);
    assert!(executor.execute().is_ok());
    assert_eq!(executor.memory(), &vec![2, 1, 1, 0]);
    assert_eq!(executor.counter(), 4);
}

#[test]
fn empty_program_ends_at_once() {
    let (result, memory, sent) = run(vec![], vec![1, 2]);
    assert_eq!(result, Ok(()));
    assert!(memory.is_empty());
    assert!(sent.is_empty());
}

#[test]
fn halt_stops_before_later_instructions() {
    let mut output = QueueOutput::new();
    let mut executor = Executor::new(vec![99, 104, 5, 99], FixedInput::new(vec![]), &mut output);
    assert!(executor.execute().is_ok());
    assert_eq!(executor.counter(), 1);
    drop(executor);
    assert_eq!(output.get(), None);
}

#[test]
fn addition_wraps() {
    let (result, memory, _) = run(vec![1101, i32::MAX, 1, 0, 99], vec![]);
    assert_eq!(result, Ok(()));
    assert_eq!(memory[0], i32::MIN);
}

#[test]
fn multiplication_wraps() {
    let (result, memory, _) = run(vec![1102, 65536, 65537, 0, 99], vec![]);
    assert_eq!(result, Ok(()));
    assert_eq!(memory[0], 65536);
}

#[test]
fn comparison_is_signed() {
    let (_, memory, _) = run(vec![1107, -1, 0, 0, 99], vec![]);
    assert_eq!(memory[0], 1);
    let (_, memory, _) = run(vec![1107, 0, -1, 0, 99], vec![]);
    assert_eq!(memory[0], 0);
}

#[test]
fn invalid_instruction_fails_with_context() {
    let mut output = QueueOutput::new();
    let e = execute(vec![1101, 1, 1, 0, -5, 99], FixedInput::new(vec![]), &mut output)
        .unwrap_err();
    assert_eq!(e.message(), "invalid instruction");
    assert_eq!(e.info("Instruction"), Some("-5".to_string()));
    assert_eq!(e.info("Instruction Address"), Some("4".to_string()));
    assert_eq!(e.info("attempted address"), None);
}

#[test]
fn out_of_range_write_fails_and_leaves_memory() {
    for word in [1101, 1102, 1107, 1108] {
        let program = vec![104, 7, word, 1, 1, 100, 99];
        let mut output = QueueOutput::new();
        let mut executor = Executor::new(program.clone(), FixedInput::new(vec![]), &mut output);
        let e = executor.execute().unwrap_err();
        assert_eq!(e.message(), "tried accessing address out of memory range");
        assert_eq!(e.info("attempted address"), Some("100".to_string()));
        assert_eq!(e.info("Instruction"), Some(word.to_string()));
        assert_eq!(e.info("Instruction Address"), Some("2".to_string()));
        assert_eq!(executor.memory(), &program);
        drop(executor);
        assert_eq!(output.get(), Some(7));
    }
}

#[test]
fn write_just_past_the_end_fails() {
    let (result, memory, _) = run(vec![1101, 1, 1, 5, 99], vec![]);
    assert_eq!(result, Err("tried accessing address out of memory range".to_string()));
    assert_eq!(memory, vec![1101, 1, 1, 5, 99]);
}

#[test]
fn negative_write_address_fails() {
    let mut output = QueueOutput::new();
    let e = execute(vec![1101, 1, 1, -3, 99], FixedInput::new(vec![]), &mut output).unwrap_err();
    assert_eq!(e.message(), "tried accessing negative address");
    assert_eq!(e.info("attempted address"), Some("-3".to_string()));
    assert_eq!(e.info("Instruction"), Some("1101".to_string()));
    assert_eq!(e.info("Instruction Address"), Some("0".to_string()));
}

#[test]
fn negative_read_address_fails() {
    let mut output = QueueOutput::new();
    let e = execute(vec![1, -1, 0, 0, 99], FixedInput::new(vec![]), &mut output).unwrap_err();
    assert_eq!(e.message(), "tried accessing negative address");
    assert_eq!(e.info("attempted address"), Some("-1".to_string()));
}

#[test]
fn out_of_range_read_fails() {
    let mut output = QueueOutput::new();
    let e = execute(vec![4, 1234, 99], FixedInput::new(vec![]), &mut output).unwrap_err();
    assert_eq!(e.message(), "tried accessing address out of memory range");
    assert_eq!(e.info("attempted address"), Some("1234".to_string()));
}

#[test]
fn operand_past_the_end_fails() {
    let mut output = QueueOutput::new();
    let e = execute(vec![1101, 1], FixedInput::new(vec![]), &mut output).unwrap_err();
    assert_eq!(e.message(), "tried accessing address out of memory range");
    assert_eq!(e.info("attempted address"), Some("2".to_string()));
    assert_eq!(e.info("Instruction Address"), Some("0".to_string()));
}

#[test]
fn jump_target_out_of_range_fails() {
    let mut output = QueueOutput::new();
    let e = execute(vec![1105, 1, 50, 99], FixedInput::new(vec![]), &mut output).unwrap_err();
    assert_eq!(e.message(), "tried accessing address out of memory range");
    assert_eq!(e.info("attempted address"), Some("50".to_string()));
    let e = execute(vec![1106, 0, -2, 99], FixedInput::new(vec![]), &mut output).unwrap_err();
    assert_eq!(e.message(), "tried accessing negative address");
    assert_eq!(e.info("attempted address"), Some("-2".to_string()));
}

#[test]
fn jump_not_taken_ignores_its_target() {
    let (result, _, sent) = run(vec![1105, 0, 50, 104, 1, 99], vec![]);
    assert_eq!(result, Ok(()));
    assert_eq!(sent, vec![1]);
}

#[test]
fn input_exhaustion_fails_the_run() {
    let mut output = QueueOutput::new();
    let mut executor =
        Executor::new(vec![104, 5, 3, 0, 104, 6, 99], FixedInput::new(vec![]), &mut output);
    let e = executor.execute().unwrap_err();
    assert_eq!(e.message(), "no more inputs");
    assert_eq!(e.info("Instruction"), Some("3".to_string()));
    assert_eq!(e.info("Instruction Address"), Some("2".to_string()));
    assert_eq!(executor.memory(), &vec![104, 5, 3, 0, 104, 6, 99]);
    drop(executor);
    assert_eq!(output.get(), Some(5));
    assert_eq!(output.get(), None);
}

#[test]
fn input_is_pulled_before_the_destination_is_checked() {
    let (result, memory, _) = run(vec![3, 77, 99], vec![]);
    assert_eq!(result, Err("no more inputs".to_string()));
    assert_eq!(memory, vec![3, 77, 99]);
    let (result, _, _) = run(vec![3, 77, 99], vec![1]);
    assert_eq!(result, Err("tried accessing address out of memory range".to_string()));
}

#[test]
fn repeated_runs_agree() {
    let program = vec![
        3, 21, 1008, 21, 8, 20, 1005, 20, 22, 107, 8, 21, 20, 1006, 20, 31, 1106, 0, 36, 98, 0,
        0, 1002, 21, 125, 20, 4, 20, 1105, 1, 46, 104, 999, 1105, 1, 46, 1101, 1000, 1, 20, 4,
        20, 1105, 1, 46, 98, 99,
    ];
    let first = run(program.clone(), vec![8]);
    let second = run(program, vec![8]);
    assert_eq!(first, second);
    assert_eq!(first.2, vec![1000]);
}

struct Refusing {
    accepted: Vec<i32>,
    room: usize,
}

impl Output for Refusing {
    fn send_output(&mut self, output: i32) -> Result<(), OutputError> {
        if self.accepted.len() < self.room {
            self.accepted.push(output);
            Ok(())
        } else {
            Err(OutputError::new("sink is full"))
        }
    }
}

#[test]
fn output_failure_fails_the_run() {
    let mut sink = Refusing { accepted: Vec::new(), room: 1 };
    let e = execute(vec![104, 1, 104, 2, 104, 3, 99], FixedInput::new(vec![]), &mut sink)
        .unwrap_err();
    assert_eq!(e.message(), "sink is full");
    assert_eq!(e.info("Instruction"), Some("104".to_string()));
    assert_eq!(e.info("Instruction Address"), Some("2".to_string()));
    assert_eq!(sink.accepted, vec![1]);
}

fn permutations(items: Vec<i32>) -> Vec<Vec<i32>> {
    if items.len() <= 1 {
        return vec![items];
    }
    let mut all = Vec::new();
    for i in 0..items.len() {
        let mut rest = items.clone();
        let first = rest.remove(i);
        for mut tail in permutations(rest) {
            tail.insert(0, first);
            all.push(tail);
        }
    }
    all
}

fn run_with_phases(memory: Vec<i32>, phases: Vec<i32>) -> i32 {
    let mut input = 0;
    for phase in phases {
        let mut output = QueueOutput::new();
        execute(memory.clone(), FixedInput::new(vec![phase, input]), &mut output).unwrap();
        input = output.get().unwrap();
    }
    input
}

#[test]
fn amplifier_chain_finds_the_best_phases() {
    let memory = vec![3, 15, 3, 16, 1002, 16, 10, 16, 1, 16, 15, 15, 4, 15, 99, 0, 0];
    assert_eq!(run_with_phases(memory.clone(), vec![4, 3, 2, 1, 0]), 43210);
    let best = permutations(vec![0, 1, 2, 3, 4])
        .into_iter()
        .map(|phases| run_with_phases(memory.clone(), phases))
        .max();
    assert_eq!(best, Some(43210));
}

#[test]
fn amplifier_chain_with_jumps() {
    let memory = vec![
        3, 23, 3, 24, 1002, 24, 10, 24, 1002, 23, -1, 23, 101, 5, 23, 23, 1, 24, 23, 23, 4, 23,
        99, 0, 0,
    ];
    assert_eq!(run_with_phases(memory, vec![0, 1, 2, 3, 4]), 54321);
}

#[test]
fn endless_run_is_stopped_at_the_limit() {
    let mut output = QueueOutput::new();
    let mut executor = Executor::new(vec![1105, 1, 0], FixedInput::new(vec![]), &mut output);
    let e = executor.execute_within(1000).unwrap_err();
    assert_eq!(e.message(), "cycle limit reached");
    assert!(e.entries().is_empty());
    assert_eq!(executor.memory(), &vec![1105, 1, 0]);
    assert_eq!(executor.counter(), 0);
}

#[test]
fn limit_counts_cycles() {
    let program = vec![1101, 1, 1, 0, 104, 9, 99];
    let mut output = QueueOutput::new();
    let mut executor = Executor::new(program.clone(), FixedInput::new(vec![]), &mut output);
    assert!(executor.execute_within(3).is_ok());
    assert_eq!(executor.counter(), 7);
    drop(executor);
    assert_eq!(output.get(), Some(9));

    let mut executor = Executor::new(program.clone(), FixedInput::new(vec![]), &mut output);
    assert_eq!(executor.execute_within(0).unwrap_err().message(), "cycle limit reached");
    assert_eq!(executor.memory(), &program);
    assert_eq!(executor.counter(), 0);
}

#[test]
fn stopped_run_can_be_taken_up_again() {
    let mut output = QueueOutput::new();
    let mut executor =
        Executor::new(vec![1101, 1, 1, 0, 104, 9, 99], FixedInput::new(vec![]), &mut output);
    assert_eq!(executor.execute_within(1).unwrap_err().message(), "cycle limit reached");
    assert_eq!(executor.memory(), &vec![2, 1, 1, 0, 104, 9, 99]);
    assert_eq!(executor.counter(), 4);
    assert_eq!(executor.execute_within(1).unwrap_err().message(), "cycle limit reached");
    assert_eq!(executor.counter(), 6);
    assert!(executor.execute_within(1).is_ok());
    assert_eq!(executor.counter(), 7);
    drop(executor);
    assert_eq!(output.get(), Some(9));
    assert_eq!(output.get(), None);
}

#[test]
fn limit_does_not_count_against_a_run_that_ends() {
    let mut output = QueueOutput::new();
    let mut executor = Executor::new(vec![1101, 1, 1, 0], FixedInput::new(vec![]), &mut output);
    assert!(executor.execute_within(1).is_ok());
    assert_eq!(executor.memory(), &vec![2, 1, 1, 0]);
    let mut executor = Executor::new(vec![], FixedInput::new(vec![]), &mut output);
    assert!(executor.execute_within(0).is_ok());
}

#[test]
fn failed_run_leaves_the_counter_at_the_instruction() {
    let mut output = QueueOutput::new();
    let mut executor =
        Executor::new(vec![104, 7, 1101, 1, 1, 100, 99], FixedInput::new(vec![]), &mut output);
    assert!(executor.execute().is_err());
    assert_eq!(executor.counter(), 2);
}
