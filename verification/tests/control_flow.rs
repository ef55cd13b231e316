use granite2::control_flow::{BasicBlock, Function, Location, Operand, Program, Terminator};
use granite2::stack::Stack;

fn one_block(terminator: Terminator) -> Program {
    Program {
        functions: vec![Function {
            name: "main".to_string(),
            foreign: false,
            blocks: vec![BasicBlock { statements: Vec::new(), terminator }],
            mutex_places: Vec::new(),
        }],
        entry: Some(0),
    }
}

#[test]
fn program_with_existing_targets_is_well_formed() {
    assert!(one_block(Terminator::Return).check());
    assert!(one_block(Terminator::Goto { target: 0 }).check());
    assert!(one_block(Terminator::Switch { targets: vec![0, 0] }).check());
    assert!(one_block(Terminator::Switch { targets: Vec::new() }).check());
    assert!(one_block(Terminator::Unwind).check());
    assert!(one_block(Terminator::Unreachable).check());
    assert!(Program { functions: Vec::new(), entry: None }.check());
}

#[test]
fn program_with_missing_targets_is_not_well_formed() {
    assert!(!one_block(Terminator::Goto { target: 1 }).check());
    assert!(!one_block(Terminator::Switch { targets: vec![0, 1] }).check());
    assert!(!Program { functions: Vec::new(), entry: Some(0) }.check());
}

#[test]
fn call_is_checked_in_all_its_parts() {
    let call = |callee: usize, function: Option<usize>, target: Option<usize>, cleanup: Option<usize>| {
        one_block(Terminator::Call {
            callee,
            args: vec![Operand { location: None, function }],
            destination: Location { local: 0, path: None },
            target,
            cleanup,
        })
    };
    assert!(call(0, Some(0), Some(0), Some(0)).check());
    assert!(call(0, None, None, None).check());
    assert!(!call(1, None, None, None).check());
    assert!(!call(0, Some(1), None, None).check());
    assert!(!call(0, None, Some(1), None).check());
    assert!(!call(0, None, None, Some(1)).check());
}

#[test]
fn stack_gives_back_the_last_element_first() {
    let mut stack: Stack<u32> = Stack::new();
    assert!(stack.is_empty());
    assert_eq!(stack.peek(), None);
    assert_eq!(stack.pop(), None);
    stack.push(1);
    stack.push(2);
    assert_eq!(stack.len(), 2);
    assert_eq!(stack.peek(), Some(&2));
    assert_eq!(*stack.top(), 2);
    *stack.peek_mut() = 5;
    assert_eq!(stack.pop(), Some(5));
    assert_eq!(stack.pop(), Some(1));
    assert!(stack.is_empty());
}
