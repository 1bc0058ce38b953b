use bytecode_interpreter::{ByteCode, IndexedInstruction, Instruction};

/// More instructions than any of these programs runs.
const FUEL: u64 = 1_000_000;

#[test]
fn parse_bytecode_example() {
    let input = r#"
// x = 1
LOAD_VAL 1
WRITE_VAR x
// y = 2
LOAD_VAL 2
WRITE_VAR y
// return (x + 1) * y
READ_VAR x
LOAD_VAL 1
ADD

READ_VAR y
MULTIPLY

RETURN_VALUE
"#;
    let output = [
        IndexedInstruction::new(2, Instruction::LoadVal(1)),
        IndexedInstruction::new(3, Instruction::WriteVar("x".into())),
        IndexedInstruction::new(5, Instruction::LoadVal(2)),
        IndexedInstruction::new(6, Instruction::WriteVar("y".into())),
        IndexedInstruction::new(8, Instruction::ReadVar("x".into())),
        IndexedInstruction::new(9, Instruction::LoadVal(1)),
        IndexedInstruction::new(10, Instruction::Add),
        IndexedInstruction::new(12, Instruction::ReadVar("y".into())),
        IndexedInstruction::new(13, Instruction::Mul),
        IndexedInstruction::new(15, Instruction::RetVal),
    ];
    assert!(&ByteCode::from_bytecode_text(input)
        .unwrap()
        .instructions()
        .iter()
        .eq(output.iter()));
}

#[test]
fn interpret_example() {
    let instructions = vec![
        IndexedInstruction::new(0, Instruction::LoadVal(1)),
        IndexedInstruction::new(0, Instruction::WriteVar("x".into())),
        IndexedInstruction::new(0, Instruction::LoadVal(2)),
        IndexedInstruction::new(0, Instruction::WriteVar("y".into())),
        IndexedInstruction::new(0, Instruction::ReadVar("x".into())),
        IndexedInstruction::new(0, Instruction::LoadVal(1)),
        IndexedInstruction::new(0, Instruction::Add),
        IndexedInstruction::new(0, Instruction::ReadVar("y".into())),
        IndexedInstruction::new(0, Instruction::Mul),
        IndexedInstruction::new(0, Instruction::RetVal),
    ];
    let mut bytecode = ByteCode::new(instructions);
    bytecode.interpret(FUEL).unwrap();
    assert_eq!(*bytecode.ret().unwrap() as u32, 4);
}

#[test]
fn parse_and_interpret() {
    let input = r#"
// x = 1
LOAD_VAL 1
WRITE_VAR x

// y = 2
LOAD_VAL 2
WRITE_VAR y

// z = 56
LOAD_VAL 56
WRITE_VAR z

// w = z + x + y
READ_VAR z
READ_VAR x
ADD
READ_VAR y
ADD
WRITE_VAR w

// return (x + 1) * y * z + (w + 33)
READ_VAR w
LOAD_VAL 33
ADD
READ_VAR x
LOAD_VAL 1
ADD
READ_VAR y
MULTIPLY
READ_VAR z
MULTIPLY
ADD
RETURN_VALUE
"#;

    let mut bytecode = ByteCode::from_bytecode_text(input).unwrap();
    bytecode.interpret(FUEL).unwrap();
    assert_eq!(*bytecode.ret().unwrap() as u32, 316);
}

#[test]
fn jump_ret_x() {
    let input = r#"
// x = 1
LOAD_VAL 1
WRITE_VAR x

// goto ret_x_label
LOAD_VAL 26
JUMP

// y = 2
LOAD_VAL 2
WRITE_VAR y

// z = 56
LOAD_VAL 56
WRITE_VAR z

// w = z + x + y
READ_VAR z
READ_VAR x
ADD
READ_VAR y
ADD
WRITE_VAR w

// return (x + 1) * y * z + (w + 33)
READ_VAR w
LOAD_VAL 33
ADD
READ_VAR x
LOAD_VAL 1
ADD
READ_VAR y
MULTIPLY
READ_VAR z
MULTIPLY
ADD
RETURN_VALUE

// ret_x_label: return x
READ_VAR x
RETURN_VALUE
"#;

    let mut bytecode = ByteCode::from_bytecode_text(input).unwrap();
    bytecode.interpret(FUEL).unwrap();
    assert_eq!(*bytecode.ret().unwrap() as u32, 1);
}

#[test]
fn jump_ret_sum_of_xyw() {
    let input = r#"
// x = 1
LOAD_VAL 1
WRITE_VAR x

// y = 2
LOAD_VAL 2
WRITE_VAR y

// z = 56
LOAD_VAL 56
WRITE_VAR z

// w = z + x + y
READ_VAR z
READ_VAR x
ADD
READ_VAR y
ADD
WRITE_VAR w

// goto ret_xyw_label
LOAD_VAL 28
JUMP

// return (x + 1) * y * z + (w + 33)
READ_VAR w
LOAD_VAL 33
ADD
READ_VAR x
LOAD_VAL 1
ADD
READ_VAR y
MULTIPLY
READ_VAR z
MULTIPLY
ADD
RETURN_VALUE

// ret_x_label: return x
READ_VAR x
RETURN_VALUE

// ret_xyw_label: return x + y + w
READ_VAR x
READ_VAR y
ADD
READ_VAR w
ADD
RETURN_VALUE
"#;

    let mut bytecode = ByteCode::from_bytecode_text(input).unwrap();
    bytecode.interpret(FUEL).unwrap();
    assert_eq!(*bytecode.ret().unwrap() as u32, 62);
}

#[test]
fn jump_and_jump() {
    let input = r#"
// x = 1
LOAD_VAL 1
WRITE_VAR x

// y = 2
LOAD_VAL 2
WRITE_VAR y

// z = 56
LOAD_VAL 56
WRITE_VAR z

// w = z + x + y
READ_VAR z
READ_VAR x
ADD
READ_VAR y
ADD
WRITE_VAR w

// goto set_x_label
LOAD_VAL 34
JUMP

// return (x + 1) * y * z + (w + 33)
READ_VAR w
LOAD_VAL 33
ADD
READ_VAR x
LOAD_VAL 1
ADD
READ_VAR y
MULTIPLY
READ_VAR z
MULTIPLY
ADD
RETURN_VALUE

// ret_x_label: return x
READ_VAR x
RETURN_VALUE

// ret_xyw_label: return x + y + w
READ_VAR x
READ_VAR y
ADD
READ_VAR w
ADD
RETURN_VALUE

// set_x_label: x = 42
LOAD_VAL 42
WRITE_VAR x

// goto ret_x_label
LOAD_VAL 26
JUMP
"#;

    let mut bytecode = ByteCode::from_bytecode_text(input).unwrap();
    bytecode.interpret(FUEL).unwrap();
    assert_eq!(*bytecode.ret().unwrap() as u32, 42);
}

#[test]
fn jump_less_than_0() {
    let input = r#"
// x = 1
LOAD_VAL 1
WRITE_VAR x

// y = 2
LOAD_VAL 2
WRITE_VAR y

// z = 56
LOAD_VAL 56
WRITE_VAR z

// w = z + x + y
READ_VAR z
READ_VAR x
ADD
READ_VAR y
ADD
WRITE_VAR w

// if 256 < w {
//   return 1337
// }
// return 0
LOAD_VAL 256
READ_VAR w
LOAD_VAL 19
JUMP_LESS_THAN
LOAD_VAL 0
LOAD_VAL 20
JUMP
LOAD_VAL 1337
RETURN_VALUE
"#;

    let mut bytecode = ByteCode::from_bytecode_text(input).unwrap();
    bytecode.interpret(FUEL).unwrap();
    assert_eq!(*bytecode.ret().unwrap() as u32, 0);
}

#[test]
fn jump_less_than_1() {
    let input = r#"
// x = 1
LOAD_VAL 1
WRITE_VAR x

// y = 2
LOAD_VAL 2
WRITE_VAR y

// z = 56
LOAD_VAL 56
WRITE_VAR z

// w = z + x + y
READ_VAR z
READ_VAR x
ADD
READ_VAR y
ADD
WRITE_VAR w

// if w < 256 {
//   return 1337
// }
// return 0
READ_VAR w
LOAD_VAL 256
LOAD_VAL 19
JUMP_LESS_THAN
LOAD_VAL 0
LOAD_VAL 20
JUMP
LOAD_VAL 1337
RETURN_VALUE
"#;

    let mut bytecode = ByteCode::from_bytecode_text(input).unwrap();
    bytecode.interpret(FUEL).unwrap();
    assert_eq!(*bytecode.ret().unwrap() as u32, 1337);
}

#[test]
fn jump_greater_than_0() {
    let input = r#"
// x = 1
LOAD_VAL 1
WRITE_VAR x

// y = 2
LOAD_VAL 2
WRITE_VAR y

// z = 56
LOAD_VAL 56
WRITE_VAR z

// w = z + x + y
READ_VAR z
READ_VAR x
ADD
READ_VAR y
ADD
WRITE_VAR w

// if 256 > w {
//   return 1337
// }
// return 0
LOAD_VAL 256
READ_VAR w
LOAD_VAL 19
JUMP_GREATER_THAN
LOAD_VAL 0
LOAD_VAL 20
JUMP
LOAD_VAL 1337
RETURN_VALUE
"#;

    let mut bytecode = ByteCode::from_bytecode_text(input).unwrap();
    bytecode.interpret(FUEL).unwrap();
    assert_eq!(*bytecode.ret().unwrap() as u32, 1337);
}

#[test]
fn jump_greater_than_1() {
    let input = r#"
// x = 1
LOAD_VAL 1
WRITE_VAR x

// y = 2
LOAD_VAL 2
WRITE_VAR y

// z = 56
LOAD_VAL 56
WRITE_VAR z

// w = z + x + y
READ_VAR z
READ_VAR x
ADD
READ_VAR y
ADD
WRITE_VAR w

// if w > 256 {
//   return 1337
// }
// return 0
READ_VAR w
LOAD_VAL 256
LOAD_VAL 19
JUMP_GREATER_THAN
LOAD_VAL 0
LOAD_VAL 20
JUMP
LOAD_VAL 1337
RETURN_VALUE
"#;

    let mut bytecode = ByteCode::from_bytecode_text(input).unwrap();
    bytecode.interpret(FUEL).unwrap();
    assert_eq!(*bytecode.ret().unwrap() as u32, 0);
}

#[test]
fn jump_equal() {
    let input = r#"
// x = 1
LOAD_VAL 1
WRITE_VAR x

// y = 2
LOAD_VAL 2
WRITE_VAR y

// z = 56
LOAD_VAL 56
WRITE_VAR z

// w = z + x + y
READ_VAR z
READ_VAR x
ADD
READ_VAR y
ADD
WRITE_VAR w

// if w == 59 {
//   return 1337
// }
// return 0
READ_VAR w
LOAD_VAL 59
LOAD_VAL 19
JUMP_EQUAL
LOAD_VAL 0
LOAD_VAL 20
JUMP
LOAD_VAL 1337
RETURN_VALUE
"#;

    let mut bytecode = ByteCode::from_bytecode_text(input).unwrap();
    bytecode.interpret(FUEL).unwrap();
    assert_eq!(*bytecode.ret().unwrap() as u32, 1337);
}

#[test]
fn pow() {
    let input = r#"
// base = 12
LOAD_VAL 12
WRITE_VAR base

// exponent = 15
LOAD_VAL 15
WRITE_VAR exponent

// result = 1
LOAD_VAL 1
WRITE_VAR result

// while (exponent > 0) {
//   result = result * base
//   exponent =- 1
// }
READ_VAR exponent
LOAD_VAL 0
LOAD_VAL 12
JUMP_GREATER_THAN

// return result
READ_VAR result
RETURN_VALUE

// body from while statement
READ_VAR result
READ_VAR base
MULTIPLY
WRITE_VAR result
READ_VAR exponent
LOAD_VAL 1
SUB
WRITE_VAR exponent
LOAD_VAL 6
JUMP
"#;

    let mut bytecode = ByteCode::from_bytecode_text(input).unwrap();
    bytecode.interpret(FUEL).unwrap();
    assert_eq!(*bytecode.ret().unwrap(), 15_407_021_574_586_368);
}

#[test]
fn fibonacci_space_optimized() {
    let input = r#"
// fib(33)
// n = 33
LOAD_VAL 33
WRITE_VAR n

// a = 0
LOAD_VAL 0
WRITE_VAR a

// b = 1
LOAD_VAL 1
WRITE_VAR b

// if n == 0 {
//   return a
// }
READ_VAR n
LOAD_VAL 0
LOAD_VAL 36
JUMP_EQUAL

// for(i = 2; i <= n; i++) {
//   c = a + b
//   a = b
//   b = c
// }
LOAD_VAL 2
WRITE_VAR i
READ_VAR i
READ_VAR n
LOAD_VAL 22
JUMP_LESS_THAN
READ_VAR i
READ_VAR n
LOAD_VAL 22
JUMP_EQUAL

// return b
READ_VAR b
RETURN_VALUE

// body from for statement
READ_VAR a
READ_VAR b
ADD
WRITE_VAR c
READ_VAR b
WRITE_VAR a
READ_VAR c
WRITE_VAR b
READ_VAR i
LOAD_VAL 1
ADD
WRITE_VAR i
LOAD_VAL 12
JUMP

// label: if n == 0 than return 0
READ_VAR a
LOAD_VAL 17
JUMP
"#;

    let mut bytecode = ByteCode::from_bytecode_text(input).unwrap();
    bytecode.interpret(FUEL).unwrap();
    assert_eq!(*bytecode.ret().unwrap(), 3_524_578);
}
