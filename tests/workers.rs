use bytecode_interpreter::{ByteCode, Effect, ExecError, Fault};

const FUEL: u64 = 1_000_000;

/// What a worker waits for.
enum Wait {
    Nothing,
    Send { to: u128, data: u128 },
    Recv { from: u128 },
}

struct Worker {
    bytecode: ByteCode,
    wait: Wait,
    done: bool,
}

/// Runs all workers of a program in turn on this thread, pairing each send with
/// the receive that waits for it, until the root worker returns.
fn run_workers(root: ByteCode) -> Result<u128, String> {
    let mut workers = vec![Worker { bytecode: root, wait: Wait::Nothing, done: false }];
    let mut count: usize = 0;
    loop {
        let mut progressed = false;
        let mut i = 0;
        while i < workers.len() {
            if !workers[i].done && matches!(workers[i].wait, Wait::Nothing) {
                progressed = true;
                match workers[i].bytecode.interpret(FUEL).map_err(|f| f.message())? {
                    None => {
                        if let Some(v) = workers[i].bytecode.ret() {
                            if i == 0 {
                                return Ok(*v);
                            }
                            workers[i].done = true;
                        }
                    }
                    Some(Effect::Log(v)) => println!("LOG: {}", v),
                    Some(Effect::Send { channel, data }) => {
                        workers[i].wait = Wait::Send { to: channel, data }
                    }
                    Some(Effect::Recv { channel }) => workers[i].wait = Wait::Recv { from: channel },
                    Some(Effect::Spawn { start_a, args_a, start_b, args_b }) => {
                        let program = workers[i].bytecode.instructions().to_vec();
                        let parent = workers[i].bytecode.id();
                        count += 1;
                        let a = ByteCode::child(program.clone(), count, parent, start_a, args_a);
                        workers[i].bytecode.adopt(count);
                        count += 1;
                        let b = ByteCode::child(program, count, parent, start_b, args_b);
                        workers[i].bytecode.adopt(count);
                        workers.push(Worker { bytecode: a, wait: Wait::Nothing, done: false });
                        workers.push(Worker { bytecode: b, wait: Wait::Nothing, done: false });
                    }
                }
            }
            i += 1;
        }
        for s in 0..workers.len() {
            if let Wait::Send { to, data } = workers[s].wait {
                let sender = workers[s].bytecode.id() as u128;
                let found = (0..workers.len()).find(|&r| {
                    workers[r].bytecode.id() as u128 == to
                        && matches!(workers[r].wait, Wait::Recv { from } if from == sender)
                });
                if let Some(r) = found {
                    workers[r].bytecode.deliver(data);
                    workers[r].wait = Wait::Nothing;
                    workers[s].wait = Wait::Nothing;
                    progressed = true;
                }
            }
        }
        if !progressed {
            return Err("every worker waits".to_string());
        }
    }
}

#[test]
fn spawned_senders_are_summed() {
    let input = r#"
// spawn(f_a, f_b) with no arguments
LOAD_VAL 0
LOAD_VAL 11
LOAD_VAL 0
LOAD_VAL 16
SPAWN

// return recv(1) + recv(2)
LOAD_VAL 1
RECV_CHANNEL
LOAD_VAL 2
RECV_CHANNEL
ADD
RETURN_VALUE

// f_a: send(20)
LOAD_VAL 20
LOAD_VAL 0
SEND_CHANNEL
LOAD_VAL 0
RETURN_VALUE

// f_b: send(22)
LOAD_VAL 22
LOAD_VAL 0
SEND_CHANNEL
LOAD_VAL 0
RETURN_VALUE
"#;
    let bytecode = ByteCode::from_bytecode_text(input).unwrap();
    assert_eq!(run_workers(bytecode), Ok(42));
}

#[test]
fn spawned_workers_get_their_arguments() {
    let input = r#"
// a's arguments 5 and 7 go first, then b's argument 30
LOAD_VAL 5
LOAD_VAL 7
LOAD_VAL 30
LOAD_VAL 2
LOAD_VAL 16
LOAD_VAL 1
LOAD_VAL 21
SPAWN
// return recv(1) * recv(2)
LOAD_VAL 1
RECV_CHANNEL
LOAD_VAL 2
RECV_CHANNEL
MULTIPLY
RETURN_VALUE
// unused
LOAD_VAL 0
RETURN_VALUE
// a: send(lhs - rhs) where 7 was popped first
SUB
LOAD_VAL 0
SEND_CHANNEL
LOAD_VAL 0
RETURN_VALUE
// b: send(arg)
LOAD_VAL 0
SEND_CHANNEL
LOAD_VAL 9
RETURN_VALUE
"#;
    let bytecode = ByteCode::from_bytecode_text(input).unwrap();
    // a's stack holds 7 at the bottom and 5 on top: 7 - 5 = 2; b sends 30
    assert_eq!(run_workers(bytecode), Ok(60));
}

#[test]
fn spawn_effect_carries_starts_and_arguments() {
    let input = "LOAD_VAL 1\nLOAD_VAL 2\nLOAD_VAL 3\nLOAD_VAL 2\nLOAD_VAL 10\nLOAD_VAL 1\nLOAD_VAL 20\nSPAWN\nLOAD_VAL 4\nRETURN_VALUE";
    let mut bytecode = ByteCode::from_bytecode_text(input).unwrap();
    let effect = bytecode.interpret(FUEL).unwrap();
    assert_eq!(
        effect,
        Some(Effect::Spawn { start_a: 10, args_a: vec![2, 1], start_b: 20, args_b: vec![3] })
    );
    assert_eq!(bytecode.position(), 8);
    assert!(bytecode.stack().is_empty());
    assert_eq!(bytecode.interpret(FUEL).unwrap(), None);
    assert_eq!(bytecode.ret(), Some(&4));
}

#[test]
fn spawn_with_two_operands_underflows() {
    // SPAWN takes four operands: two are not enough
    let input = r#"
// spawn(f1, f2)
LOAD_VAL 5
LOAD_VAL 7
SPAWN
LOAD_VAL 0
RETURN_VALUE
"#;
    let mut bytecode = ByteCode::from_bytecode_text(input).unwrap();
    let fault = bytecode.interpret(FUEL).unwrap_err();
    assert_eq!(fault, Fault::Failed { line: 4, error: ExecError::StackEmpty });
    assert_eq!(fault.message(), "Line: 4, error: Stack is empty");
}

#[test]
fn spawn_with_too_few_arguments_underflows() {
    let input = "LOAD_VAL 9\nLOAD_VAL 2\nLOAD_VAL 5\nLOAD_VAL 0\nLOAD_VAL 5\nSPAWN";
    let mut bytecode = ByteCode::from_bytecode_text(input).unwrap();
    let fault = bytecode.interpret(FUEL).unwrap_err();
    assert_eq!(fault, Fault::Failed { line: 5, error: ExecError::StackEmpty });
    assert_eq!(bytecode.stack(), &[9, 2, 5, 0, 5]);
}

#[test]
fn send_and_receive_need_a_peer() {
    let mut sender = ByteCode::from_bytecode_text("LOAD_VAL 1\nLOAD_VAL 3\nSEND_CHANNEL").unwrap();
    let fault = sender.interpret(FUEL).unwrap_err();
    assert_eq!(fault, Fault::Failed { line: 2, error: ExecError::MissingSender(3) });
    assert_eq!(fault.message(), "Line: 2, error: Sender 3 doesn't exist");

    let mut receiver = ByteCode::from_bytecode_text("LOAD_VAL 4\nRECV_CHANNEL").unwrap();
    let fault = receiver.interpret(FUEL).unwrap_err();
    assert_eq!(fault, Fault::Failed { line: 1, error: ExecError::MissingReceiver(4) });
    assert_eq!(fault.message(), "Line: 1, error: Receiver 4 doesn't exist");
}

#[test]
fn child_sends_to_parent_and_parent_receives() {
    let program = ByteCode::from_bytecode_text("LOAD_VAL 0\nSEND_CHANNEL\nLOAD_VAL 0\nRETURN_VALUE")
        .unwrap()
        .instructions()
        .to_vec();
    let mut child = ByteCode::child(program, 1, 0, 0, vec![77]);
    assert_eq!(child.id(), 1);
    assert_eq!(child.interpret(FUEL).unwrap(), Some(Effect::Send { channel: 0, data: 77 }));

    let mut parent = ByteCode::from_bytecode_text("LOAD_VAL 1\nRECV_CHANNEL\nRETURN_VALUE").unwrap();
    parent.adopt(1);
    assert_eq!(parent.interpret(FUEL).unwrap(), Some(Effect::Recv { channel: 1 }));
    parent.deliver(77);
    assert_eq!(parent.interpret(FUEL).unwrap(), None);
    assert_eq!(parent.ret(), Some(&77));
}

#[test]
fn log_hands_the_value_to_the_host() {
    let mut bytecode = ByteCode::from_bytecode_text("LOAD_VAL 7\nLOG\nLOAD_VAL 1\nRETURN_VALUE").unwrap();
    assert_eq!(bytecode.interpret(FUEL).unwrap(), Some(Effect::Log(7)));
    assert_eq!(bytecode.interpret(FUEL).unwrap(), None);
    assert_eq!(bytecode.ret(), Some(&1));
}
