use chip8::machine::{Machine, Step};
use chip8::timers::Timers;

#[test]
fn ticks_decrement_and_saturate_at_zero() {
    let mut t = Timers::new();
    assert_eq!(t.read_delay(), 0);
    assert!(!t.tick());
    assert_eq!(t.read_delay(), 0);
    t.set_delay(2);
    t.set_sound(1);
    assert!(t.tick());
    assert_eq!(t.read_delay(), 1);
    assert_eq!(t.sound, 0);
    assert!(!t.tick());
    assert_eq!(t.read_delay(), 0);
    assert!(!t.tick());
    assert_eq!(t.read_delay(), 0);
    assert_eq!(t.sound, 0);
}

#[test]
fn sound_beeps_exactly_while_nonzero() {
    let mut t = Timers::new();
    t.set_sound(3);
    let mut beeps: u32 = 0;
    for _ in 0..10u32 {
        if t.tick() {
            beeps += 1;
        }
    }
    assert_eq!(beeps, 3);
}

#[test]
fn a_write_of_zero_is_observed_by_the_next_read_despite_ticks() {
    let mut t = Timers::new();
    t.set_delay(200);
    t.set_delay(0);
    t.tick();
    assert_eq!(t.read_delay(), 0);
}

#[test]
fn executor_cycles_never_tick_the_timers() {
    let mut t = Timers::new();
    t.set_delay(5);
    t.set_sound(5);
    let mut m = Machine::new();
    let program: Vec<u8> = vec![0x12, 0x00];
    assert!(m.load(&program, 0x200));
    for _ in 0..100u32 {
        assert_eq!(m.cycle(t.read_delay()), Step::Next);
    }
    assert_eq!(t.read_delay(), 5);
    assert_eq!(t.sound, 5);
    t.tick();
    t.tick();
    assert_eq!(t.read_delay(), 3);
}
