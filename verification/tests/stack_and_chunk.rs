use lox_vm::chunk::{Chunk, ChunkError};
use lox_vm::stack::{Stack, StackError};
use lox_vm::value::{Number, Value};

#[test]
fn stack_pushes_and_pops_in_lifo_order() {
    let mut stack: Stack<u32> = Stack::new();
    assert_eq!(stack.len(), 0);
    stack.push(1);
    stack.push(2);
    stack.push(3);
    assert_eq!(stack.len(), 3);
    assert_eq!(stack.pop(), Ok(3));
    assert_eq!(stack.pop(), Ok(2));
    assert_eq!(stack.pop(), Ok(1));
    assert_eq!(stack.pop(), Err(StackError::Underflow));
    assert_eq!(stack.len(), 0);
}

#[test]
fn stack_peek_counts_from_the_top() {
    let mut stack: Stack<u32> = Stack::new();
    stack.push(10);
    stack.push(20);
    stack.push(30);
    assert_eq!(stack.peek(0), Ok(&30));
    assert_eq!(stack.peek(1), Ok(&20));
    assert_eq!(stack.peek(2), Ok(&10));
    assert_eq!(stack.peek(3), Err(StackError::Underflow));
    assert_eq!(stack.peek(usize::MAX), Err(StackError::Underflow));
    assert_eq!(stack.len(), 3);
}

#[test]
fn stack_peek_front_counts_from_the_bottom() {
    let mut stack: Stack<u32> = Stack::new();
    stack.push(10);
    stack.push(20);
    assert_eq!(stack.peek_front(0), Ok(&10));
    assert_eq!(stack.peek_front(1), Ok(&20));
    assert_eq!(stack.peek_front(2), Err(StackError::Overflow));
}

#[test]
fn stack_set_front_replaces_one_item() {
    let mut stack: Stack<u32> = Stack::new();
    stack.push(10);
    stack.push(20);
    stack.push(30);
    assert_eq!(stack.set_front(1, 99), Ok(()));
    assert_eq!(stack.set_front(3, 5), Err(StackError::Overflow));
    assert_eq!(stack.pop(), Ok(30));
    assert_eq!(stack.pop(), Ok(99));
    assert_eq!(stack.pop(), Ok(10));
}

#[test]
fn stack_error_messages() {
    assert_eq!(StackError::Underflow.message(), "Stack underflow");
    assert_eq!(StackError::Overflow.message(), "Stack overflow");
}

#[test]
fn chunk_starts_empty() {
    let chunk = Chunk::new();
    assert_eq!(chunk.len(), 0);
    assert_eq!(chunk.constants_len(), 0);
    assert_eq!(chunk.read(0), Err(ChunkError::OffsetOutOfRange(0)));
    assert_eq!(chunk.get_src_line_number(0), Err(ChunkError::OffsetOutOfRange(0)));
}

#[test]
fn chunk_write_appends_byte_and_line_together() {
    let mut chunk = Chunk::new();
    assert_eq!(chunk.write(7, 1), 0);
    assert_eq!(chunk.write(9, 2), 1);
    assert_eq!(chunk.write(11, 2), 2);
    assert_eq!(chunk.len(), 3);
    assert_eq!(chunk.read(0), Ok(7));
    assert_eq!(chunk.read(1), Ok(9));
    assert_eq!(chunk.read(2), Ok(11));
    assert_eq!(chunk.read(3), Err(ChunkError::OffsetOutOfRange(3)));
    assert_eq!(chunk.get_src_line_number(0), Ok(1));
    assert_eq!(chunk.get_src_line_number(1), Ok(2));
    assert_eq!(chunk.get_src_line_number(2), Ok(2));
    assert_eq!(chunk.get_src_line_number(3), Err(ChunkError::OffsetOutOfRange(3)));
}

#[test]
fn chunk_set_overwrites_a_byte_and_keeps_its_line() {
    let mut chunk = Chunk::new();
    chunk.write(1, 5);
    chunk.write(2, 6);
    assert_eq!(chunk.set(1, 200), Ok(()));
    assert_eq!(chunk.read(0), Ok(1));
    assert_eq!(chunk.read(1), Ok(200));
    assert_eq!(chunk.get_src_line_number(1), Ok(6));
    assert_eq!(chunk.set(2, 1), Err(ChunkError::Overflow));
    assert_eq!(chunk.len(), 2);
}

#[test]
fn chunk_holds_at_most_256_constants() {
    let mut chunk = Chunk::new();
    for i in 0..256u32 {
        let index = chunk.add_constant(Value::Number(Number::from_bits(i as u64)));
        assert_eq!(index, Ok(i as u8));
    }
    assert_eq!(chunk.constants_len(), 256);
    assert_eq!(chunk.add_constant(Value::Nil), Err(ChunkError::TooManyConstants));
    assert_eq!(chunk.constants_len(), 256);
    match chunk.get_constant(255) {
        Ok(Value::Number(n)) => assert_eq!(n.to_bits(), 255),
        other => panic!("unexpected constant {:?}", other),
    }
    assert!(matches!(chunk.get_constant(256), Err(ChunkError::IndexOutOfRange(256))));
}

#[test]
fn chunk_constants_keep_their_index() {
    let mut chunk = Chunk::new();
    assert_eq!(chunk.add_constant(Value::String("a".to_string())), Ok(0));
    assert_eq!(chunk.add_constant(Value::Boolean(true)), Ok(1));
    assert!(chunk.get_constant(0).unwrap().equals(&Value::String("a".to_string())));
    assert!(chunk.get_constant(1).unwrap().equals(&Value::Boolean(true)));
    assert_eq!(chunk.len(), 0);
}

#[test]
fn chunk_error_messages() {
    assert_eq!(ChunkError::OffsetOutOfRange(12).message(), "Offset 12 is out range");
    assert_eq!(ChunkError::IndexOutOfRange(300).message(), "Index 300 is out range");
    assert_eq!(ChunkError::Overflow.message(), "Chunk overflow");
    assert_eq!(ChunkError::TooManyConstants.message(), "Too many constants in chunk");
}
