use redscript_vm::arena::{Arena, Cell};
use redscript_vm::error::RuntimeError;
use redscript_vm::interop::IntoVM;
use redscript_vm::value::{Handle, Obj, Value};

fn with_array(items: Vec<Value>) -> (Arena, Handle) {
    let mut arena = Arena::new();
    let h = arena.allocate(Cell::Array(items));
    (arena, h)
}

fn numbers(items: &[i32]) -> Vec<Value> {
    items.iter().map(|i| Value::I32(*i)).collect()
}

fn contents(arena: &Arena, h: Handle) -> Vec<i32> {
    arena
        .array(h)
        .unwrap()
        .iter()
        .map(|v| match v {
            Value::I32(i) => *i,
            Value::Obj(Obj::Null) => -1,
            other => panic!("{:?}", other),
        })
        .collect()
}

fn top(arena: &Arena) -> Value {
    arena.peek(0)
}

#[test]
fn resize_makes_the_array_as_long_as_asked() {
    let (mut arena, h) = with_array(numbers(&[1, 2, 3]));
    arena.push(Value::Array(h));
    arena.push(Value::I32(5));
    assert_eq!(arena.array_resize(), Ok(()));
    assert_eq!(arena.stack_len(), 0);
    assert_eq!(contents(&arena, h), vec![1, 2, 3, -1, -1]);
    arena.push(Value::Array(h));
    assert_eq!(arena.array_size(), Ok(()));
    assert!(matches!(top(&arena), Value::I32(5)));
    arena.pop();
    arena.push(Value::Array(h));
    arena.push(Value::U64(2));
    assert_eq!(arena.array_resize(), Ok(()));
    assert_eq!(contents(&arena, h), vec![1, 2]);
    arena.push(Value::Array(h));
    arena.push(Value::I32(0));
    assert_eq!(arena.array_resize(), Ok(()));
    assert_eq!(contents(&arena, h), Vec::<i32>::new());
}

#[test]
fn resize_refuses_a_negative_length() {
    let (mut arena, h) = with_array(numbers(&[1]));
    arena.push(Value::Array(h));
    arena.push(Value::I32(-1));
    assert_eq!(arena.array_resize(), Err(RuntimeError::OutOfBounds));
    arena.pop();
    arena.push(Value::Bool(true));
    assert_eq!(arena.array_resize(), Err(RuntimeError::InvalidBytecode));
    assert_eq!(contents(&arena, h), vec![1]);
}

#[test]
fn push_appends_and_grows_the_array_by_one() {
    let (mut arena, h) = with_array(numbers(&[1, 2]));
    arena.push(Value::Array(h));
    arena.push(Value::I32(9));
    assert_eq!(arena.array_push(), Ok(()));
    assert_eq!(arena.stack_len(), 0);
    assert_eq!(contents(&arena, h), vec![1, 2, 9]);
    arena.push(Value::Array(h));
    assert_eq!(arena.array_last(), Ok(()));
    assert!(matches!(top(&arena), Value::I32(9)));
    assert_eq!(arena.stack_len(), 1);
}

#[test]
fn pop_takes_the_last_item_out() {
    let (mut arena, h) = with_array(numbers(&[1, 2, 3]));
    arena.push(Value::Array(h));
    assert_eq!(arena.array_pop(), Ok(()));
    assert!(matches!(top(&arena), Value::I32(3)));
    assert_eq!(contents(&arena, h), vec![1, 2]);
    arena.pop();
    let (mut arena, h) = with_array(vec![]);
    arena.push(Value::Array(h));
    assert_eq!(arena.array_pop(), Err(RuntimeError::OutOfBounds));
    assert_eq!(arena.array_last(), Err(RuntimeError::OutOfBounds));
}

#[test]
fn clear_empties_the_array() {
    let (mut arena, h) = with_array(numbers(&[1, 2, 3]));
    arena.push(Value::Array(h));
    assert_eq!(arena.array_clear(), Ok(()));
    assert_eq!(arena.stack_len(), 0);
    assert_eq!(contents(&arena, h), Vec::<i32>::new());
}

#[test]
fn the_finds_give_the_item_or_a_null_reference() {
    let (mut arena, h) = with_array(numbers(&[4, 5, 4, 6]));
    arena.push(Value::Array(h));
    arena.push(Value::I32(4));
    assert_eq!(arena.array_find_first(), Ok(()));
    assert!(matches!(top(&arena), Value::I32(4)));
    assert_eq!(arena.stack_len(), 1);
    arena.pop();
    arena.push(Value::Array(h));
    arena.push(Value::I32(7));
    assert_eq!(arena.array_find_first(), Ok(()));
    assert!(matches!(top(&arena), Value::Obj(Obj::Null)));
    arena.pop();
    arena.push(Value::Array(h));
    arena.push(Value::I32(6));
    assert_eq!(arena.array_find_last(), Ok(()));
    assert!(matches!(top(&arena), Value::I32(6)));
    arena.pop();
    arena.push(Value::Array(h));
    arena.push(Value::I64(4));
    assert_eq!(arena.array_find_last(), Ok(()));
    assert!(matches!(top(&arena), Value::Obj(Obj::Null)));
}

#[test]
fn the_finds_look_for_strings_by_their_text() {
    let mut arena = Arena::new();
    let a = "a".to_owned().into_vm(&mut arena);
    let b = "b".to_owned().into_vm(&mut arena);
    let needle = "b".to_owned().into_vm(&mut arena);
    let h = arena.allocate(Cell::Array(vec![a, b]));
    arena.push(Value::Array(h));
    arena.push(needle);
    assert_eq!(arena.array_find_first(), Ok(()));
    assert_eq!(format!("{:?}", top(&arena)), format!("{:?}", b));
}

#[test]
fn contains_and_count_look_at_every_item() {
    let (mut arena, h) = with_array(numbers(&[4, 5, 4, 6]));
    for (needle, there, times) in [(4, true, 2), (5, true, 1), (7, false, 0)] {
        arena.push(Value::Array(h));
        arena.push(Value::I32(needle));
        assert_eq!(arena.array_contains(), Ok(()));
        assert_eq!(format!("{:?}", arena.pop()), format!("{:?}", Some(Value::Bool(there))));
        arena.push(Value::Array(h));
        arena.push(Value::I32(needle));
        assert_eq!(arena.array_count(), Ok(()));
        assert_eq!(format!("{:?}", arena.pop()), format!("{:?}", Some(Value::I32(times))));
    }
    assert_eq!(arena.stack_len(), 0);
}

#[test]
fn insert_puts_the_value_at_the_position() {
    let (mut arena, h) = with_array(numbers(&[1, 3]));
    arena.push(Value::Array(h));
    arena.push(Value::I32(1));
    arena.push(Value::I32(2));
    assert_eq!(arena.array_insert(), Ok(()));
    assert_eq!(contents(&arena, h), vec![1, 2, 3]);
    arena.push(Value::Array(h));
    arena.push(Value::I32(3));
    arena.push(Value::I32(4));
    assert_eq!(arena.array_insert(), Ok(()));
    assert_eq!(contents(&arena, h), vec![1, 2, 3, 4]);
    assert_eq!(arena.stack_len(), 0);
    for at in [5, -1] {
        arena.push(Value::Array(h));
        arena.push(Value::I32(at));
        arena.push(Value::I32(0));
        assert_eq!(arena.array_insert(), Err(RuntimeError::OutOfBounds));
        arena.drop_operands(3);
    }
    assert_eq!(contents(&arena, h), vec![1, 2, 3, 4]);
}

#[test]
fn remove_takes_the_first_equal_item_out() {
    let (mut arena, h) = with_array(numbers(&[4, 5, 4]));
    arena.push(Value::Array(h));
    arena.push(Value::I32(4));
    assert_eq!(arena.array_remove(), Ok(()));
    assert!(matches!(arena.pop(), Some(Value::Bool(true))));
    assert_eq!(contents(&arena, h), vec![5, 4]);
    arena.push(Value::Array(h));
    arena.push(Value::I32(9));
    assert_eq!(arena.array_remove(), Ok(()));
    assert!(matches!(arena.pop(), Some(Value::Bool(false))));
    assert_eq!(contents(&arena, h), vec![5, 4]);
}

#[test]
fn erase_takes_the_item_at_the_position_out() {
    let (mut arena, h) = with_array(numbers(&[4, 5, 6]));
    arena.push(Value::Array(h));
    arena.push(Value::I32(1));
    assert_eq!(arena.array_erase(), Ok(()));
    assert!(matches!(arena.pop(), Some(Value::Bool(true))));
    assert_eq!(contents(&arena, h), vec![4, 6]);
    for at in [2, -1, i32::MAX] {
        arena.push(Value::Array(h));
        arena.push(Value::I32(at));
        assert_eq!(arena.array_erase(), Ok(()));
        assert!(matches!(arena.pop(), Some(Value::Bool(false))));
    }
    assert_eq!(contents(&arena, h), vec![4, 6]);
}

#[test]
fn element_reads_the_item_at_the_position() {
    let (mut arena, h) = with_array(numbers(&[4, 5, 6]));
    arena.push(Value::Array(h));
    arena.push(Value::I32(2));
    assert_eq!(arena.array_element(), Ok(()));
    assert!(matches!(arena.pop(), Some(Value::I32(6))));
    for at in [3, -1] {
        arena.push(Value::Array(h));
        arena.push(Value::I32(at));
        assert_eq!(arena.array_element(), Err(RuntimeError::OutOfBounds));
        arena.drop_operands(2);
    }
}

#[test]
fn an_array_behind_a_reference_cell_is_found() {
    let (mut arena, h) = with_array(numbers(&[1]));
    let mut pinned = Value::Array(h);
    pinned.pin(&mut arena);
    arena.push(pinned);
    arena.push(Value::I32(2));
    assert_eq!(arena.array_push(), Ok(()));
    assert_eq!(contents(&arena, h), vec![1, 2]);
}

#[test]
fn two_values_of_one_array_see_each_others_changes() {
    let (mut arena, h) = with_array(vec![]);
    let first = Value::Array(h);
    let second = first.copied(&mut arena);
    arena.push(first);
    arena.push(Value::I32(1));
    arena.array_push().unwrap();
    arena.push(second);
    arena.array_size().unwrap();
    assert!(matches!(arena.pop(), Some(Value::I32(1))));
}

#[test]
fn array_instructions_need_their_operands() {
    let mut arena = Arena::new();
    assert_eq!(arena.array_clear(), Err(RuntimeError::InvalidBytecode));
    assert_eq!(arena.array_size(), Err(RuntimeError::InvalidBytecode));
    arena.push(Value::I32(1));
    assert_eq!(arena.array_size(), Err(RuntimeError::InvalidBytecode));
    assert_eq!(arena.array_push(), Err(RuntimeError::InvalidBytecode));
    arena.push(Value::I32(1));
    assert_eq!(arena.array_push(), Err(RuntimeError::InvalidBytecode));
    assert_eq!(arena.array_insert(), Err(RuntimeError::InvalidBytecode));
    arena.push(Value::Array(Handle(40)));
    assert_eq!(arena.array_last(), Err(RuntimeError::InvalidBytecode));
    assert_eq!(arena.stack_len(), 3);
}

#[test]
fn the_stack_is_cut_or_filled_to_a_depth() {
    let mut arena = Arena::new();
    for i in 0..4 {
        arena.push(Value::I32(i));
    }
    arena.root.adjust_stack(2);
    assert_eq!(arena.stack_len(), 2);
    assert!(matches!(arena.peek(0), Value::I32(1)));
    arena.root.adjust_stack(3);
    assert_eq!(arena.stack_len(), 3);
    assert!(matches!(arena.peek(0), Value::Obj(Obj::Null)));
    assert!(arena.root.copy(0));
    assert!(matches!(arena.peek(0), Value::I32(0)));
    assert_eq!(arena.stack_len(), 4);
    assert!(!arena.root.copy(4));
    assert_eq!(arena.stack_len(), 4);
    assert!(matches!(arena.root.pop(), Some(Value::I32(0))));
    arena.root.push(Value::Bool(true));
    assert!(matches!(arena.pop(), Some(Value::Bool(true))));
    arena.root.adjust_stack(0);
    assert!(arena.pop().is_none());
}
