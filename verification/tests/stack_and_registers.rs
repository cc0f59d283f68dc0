use chip8::error::Fault;
use chip8::keyboard::{keypad_index, keys_state, Keyboard};
use chip8::registers::memory::MemoryRegister;
use chip8::registers::timer::TimerRegister;
use chip8::stack::Stack;

#[test]
fn stack_holds_sixteen_addresses_and_returns_them_in_reverse() {
    let mut stack = Stack::default();
    for address in 0..16u16 {
        assert_eq!(stack.push(0x200 + address * 2), Ok(()));
    }
    assert_eq!(stack.len(), 16);
    assert_eq!(stack.push(0x300), Err(Fault::StackOverflow));
    assert_eq!(stack.len(), 16);
    for address in (0..16u16).rev() {
        assert_eq!(stack.pull(), Ok(0x200 + address * 2));
    }
    assert_eq!(stack.len(), 0);
    assert_eq!(stack.pull(), Err(Fault::StackUnderflow));
}

#[test]
fn pull_from_a_new_stack_is_refused() {
    let mut stack = Stack::default();
    assert_eq!(stack.pull(), Err(Fault::StackUnderflow));
    assert_eq!(stack.push(0xFFFF), Ok(()));
    assert_eq!(stack.pull(), Ok(0xFFFF));
    assert_eq!(stack.pull(), Err(Fault::StackUnderflow));
}

#[test]
fn refused_push_leaves_the_stack_as_it_was() {
    let mut stack = Stack::default();
    for address in 0..16u16 {
        assert_eq!(stack.push(address), Ok(()));
    }
    assert_eq!(stack.push(99), Err(Fault::StackOverflow));
    assert_eq!(stack.pull(), Ok(15));
    assert_eq!(stack.push(100), Ok(()));
    assert_eq!(stack.pull(), Ok(100));
}

#[test]
fn timer_counts_down_to_zero_and_stays_there() {
    let mut timer = TimerRegister::default();
    assert_eq!(timer.get(), 0);
    timer.set(10);
    assert_eq!(timer.get(), 10);
    for _ in 0..10 {
        timer.tick();
    }
    assert_eq!(timer.get(), 0);
    timer.tick();
    assert_eq!(timer.get(), 0);
}

#[test]
fn timer_tick_takes_one_off() {
    let mut timer = TimerRegister::default();
    timer.set(255);
    timer.tick();
    assert_eq!(timer.get(), 254);
    timer.set(1);
    timer.tick();
    assert_eq!(timer.get(), 0);
}

#[test]
fn address_register_masks_what_it_is_given() {
    let mut register = MemoryRegister::new(0xFFF);
    assert_eq!(register.get(), 0);
    register.set(0x1234);
    assert_eq!(register.get(), 0x234);
    register.set(0xFFF);
    assert_eq!(register.get(), 0xFFF);
    assert_eq!(register.add(1), 0);
    assert_eq!(register.add(0x10), 0x00F);
    assert_eq!(register.get(), 0xFFF);
}

#[test]
fn address_register_add_wraps_at_sixteen_bits() {
    let mut register = MemoryRegister::new(0xFFFF);
    register.set(0xFFFE);
    assert_eq!(register.add(3), 1);
    let mut narrow = MemoryRegister::new(0x00FF);
    narrow.set(0x1F0);
    assert_eq!(narrow.get(), 0xF0);
    assert_eq!(narrow.add(0x20), 0x10);
}

#[test]
fn keyboard_reports_the_lowest_pressed_key() {
    let mut keyboard = Keyboard::default();
    assert_eq!(keyboard.pressed_key(), None);
    keyboard.press_key(0xA);
    keyboard.press_key(0x3);
    assert!(keyboard.is_key_pressed(0xA));
    assert!(keyboard.is_key_pressed(0x3));
    assert!(!keyboard.is_key_pressed(0x0));
    assert_eq!(keyboard.pressed_key(), Some(0x3));
    keyboard.release_key(0x3);
    assert_eq!(keyboard.pressed_key(), Some(0xA));
    keyboard.release_key(0xA);
    assert_eq!(keyboard.pressed_key(), None);
    keyboard.press_key(0xF);
    assert_eq!(keyboard.pressed_key(), Some(0xF));
    keyboard.press_key(0x0);
    assert_eq!(keyboard.pressed_key(), Some(0x0));
}

#[test]
fn host_keys_stand_for_the_keys_of_the_pad() {
    assert_eq!(keypad_index('1' as i32), Some(0x1));
    assert_eq!(keypad_index('2' as i32), Some(0x2));
    assert_eq!(keypad_index('3' as i32), Some(0x3));
    assert_eq!(keypad_index('4' as i32), Some(0xC));
    assert_eq!(keypad_index('q' as i32), Some(0x4));
    assert_eq!(keypad_index('w' as i32), Some(0x5));
    assert_eq!(keypad_index('e' as i32), Some(0x6));
    assert_eq!(keypad_index('r' as i32), Some(0xD));
    assert_eq!(keypad_index('a' as i32), Some(0x7));
    assert_eq!(keypad_index('s' as i32), Some(0x8));
    assert_eq!(keypad_index('d' as i32), Some(0x9));
    assert_eq!(keypad_index('f' as i32), Some(0xE));
    assert_eq!(keypad_index('z' as i32), Some(0xA));
    assert_eq!(keypad_index('x' as i32), Some(0x0));
    assert_eq!(keypad_index('c' as i32), Some(0xB));
    assert_eq!(keypad_index('v' as i32), Some(0xF));
    assert_eq!(keypad_index('5' as i32), None);
    assert_eq!(keypad_index(27), None);
    assert_eq!(keypad_index(-1), None);
}

#[test]
fn pressed_host_keys_give_the_state_of_the_pad() {
    let state = keys_state(&['x' as i32, 'p' as i32, 'v' as i32, 'x' as i32]);
    let mut expected = [false; 16];
    expected[0x0] = true;
    expected[0xF] = true;
    assert_eq!(state, expected);
    assert_eq!(keys_state(&[]), [false; 16]);
}
