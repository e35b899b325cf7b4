use epd_waveshare::interface::{Action, DisplayInterface, Entry};
use epd_waveshare::protocol::{Event, Level, Select};

/// Steps a channel to the end of its script. Every write succeeds and the
/// busy line reads `idle` at every sample.
fn run(interface: &mut DisplayInterface, idle: Level) -> Vec<Action> {
    let mut actions = Vec::new();
    let mut event = Event::Completed;
    loop {
        let action = interface.step(event);
        event = match action {
            Action::SampleBusy => Event::Sampled(idle),
            _ => Event::Completed,
        };
        let over = matches!(action, Action::Done | Action::Failed);
        actions.push(action);
        if over {
            return actions;
        }
    }
}

fn reset_actions(low_us: u32, high_us: u32) -> Vec<Action> {
    vec![
        Action::SetReset(Level::Low),
        Action::Delay(low_us),
        Action::SetReset(Level::High),
        Action::Delay(high_us),
        Action::SetReset(Level::Low),
        Action::Delay(low_us),
        Action::SetReset(Level::High),
        Action::Delay(high_us),
    ]
}

#[test]
fn new_channel_is_idle_and_answers_done() {
    let mut interface = DisplayInterface::new(None, true);
    assert!(interface.is_idle());
    assert_eq!(interface.step(Event::Completed), Action::Done);
    assert_eq!(interface.step(Event::Fault), Action::Done);
    assert_eq!(interface.step(Event::Sampled(Level::Low)), Action::Done);
    assert!(interface.is_idle());
}

#[test]
fn select_line_is_low_for_commands_and_high_for_data() {
    assert_eq!(Select::Command.level(), Level::Low);
    assert_eq!(Select::Data.level(), Level::High);
}

#[test]
fn reset_issues_two_full_pulses() {
    let mut interface = DisplayInterface::new(None, true);
    interface.reset(20_000, 2_000);
    assert!(!interface.is_idle());
    let mut expected = reset_actions(20_000, 2_000);
    expected.push(Action::Done);
    assert_eq!(run(&mut interface, Level::High), expected);
    assert!(interface.is_idle());
}

#[test]
fn reset_does_not_depend_on_what_the_host_reports() {
    let reports = [
        Event::Fault,
        Event::Sampled(Level::Low),
        Event::Sampled(Level::High),
        Event::Completed,
        Event::Fault,
        Event::Fault,
        Event::Sampled(Level::Low),
        Event::Completed,
    ];
    let mut interface = DisplayInterface::new(Some(0), false);
    interface.reset(7, 11);
    let mut actions = Vec::new();
    for report in reports {
        actions.push(interface.step(report));
    }
    assert_eq!(actions, reset_actions(7, 11));
    assert_eq!(interface.step(Event::Fault), Action::Done);
}

#[test]
fn wait_returns_without_a_pause_when_the_panel_is_idle() {
    let mut interface = DisplayInterface::new(None, true);
    interface.wait_until_idle(Level::Low);
    assert_eq!(interface.step(Event::Completed), Action::SampleBusy);
    assert_eq!(interface.step(Event::Sampled(Level::High)), Action::Done);
    assert!(interface.is_idle());
}

#[test]
fn wait_goes_on_to_the_next_step_when_the_panel_is_idle() {
    let mut interface = DisplayInterface::new(None, true);
    interface.wait_until_idle(Level::High);
    interface.cmd(0x12);
    assert_eq!(interface.step(Event::Completed), Action::SampleBusy);
    assert_eq!(interface.step(Event::Sampled(Level::Low)), Action::SetSelect(Select::Command));
    assert_eq!(interface.step(Event::Completed), Action::Write(vec![0x12]));
    assert_eq!(interface.step(Event::Completed), Action::Done);
}

#[test]
fn wait_pauses_between_samples_while_the_panel_is_busy() {
    let mut interface = DisplayInterface::new(None, true);
    interface.wait_until_idle(Level::Low);
    assert_eq!(interface.step(Event::Completed), Action::SampleBusy);
    assert_eq!(interface.step(Event::Sampled(Level::Low)), Action::Delay(10_000));
    assert_eq!(interface.step(Event::Completed), Action::SampleBusy);
    assert_eq!(interface.step(Event::Sampled(Level::Low)), Action::Delay(10_000));
    assert_eq!(interface.step(Event::Completed), Action::SampleBusy);
    assert_eq!(interface.step(Event::Sampled(Level::High)), Action::Done);
}

#[test]
fn wait_takes_a_report_without_a_sample_as_idle() {
    let mut interface = DisplayInterface::new(None, true);
    interface.wait_until_idle(Level::Low);
    assert_eq!(interface.step(Event::Completed), Action::SampleBusy);
    assert_eq!(interface.step(Event::Completed), Action::Done);
}

#[test]
fn pause_between_samples_is_the_one_given() {
    let mut interface = DisplayInterface::new(Some(250), true);
    interface.wait_until_idle(Level::High);
    assert_eq!(interface.step(Event::Completed), Action::SampleBusy);
    assert_eq!(interface.step(Event::Sampled(Level::High)), Action::Delay(250));
    assert_eq!(interface.step(Event::Completed), Action::SampleBusy);
    assert_eq!(interface.step(Event::Sampled(Level::Low)), Action::Done);
    assert_eq!(DisplayInterface::DEFAULT_PAUSE_US, 10_000);
}

#[test]
fn cmd_selects_command_and_writes_the_opcode() {
    let mut interface = DisplayInterface::new(None, true);
    interface.cmd(0x04);
    assert_eq!(
        run(&mut interface, Level::High),
        vec![Action::SetSelect(Select::Command), Action::Write(vec![0x04]), Action::Done]
    );
}

#[test]
fn data_goes_out_byte_by_byte_on_a_byte_wise_channel() {
    let mut interface = DisplayInterface::new(None, true);
    interface.data(&[1, 2, 3]);
    assert_eq!(
        run(&mut interface, Level::High),
        vec![
            Action::SetSelect(Select::Data),
            Action::Write(vec![1]),
            Action::Write(vec![2]),
            Action::Write(vec![3]),
            Action::Done,
        ]
    );
}

#[test]
fn data_goes_out_as_one_transaction_otherwise() {
    let mut interface = DisplayInterface::new(None, false);
    interface.data(&[1, 2, 3]);
    assert_eq!(
        run(&mut interface, Level::High),
        vec![Action::SetSelect(Select::Data), Action::Write(vec![1, 2, 3]), Action::Done]
    );
}

#[test]
fn empty_data_still_selects_data() {
    let mut byte_wise = DisplayInterface::new(None, true);
    byte_wise.data(&[]);
    assert_eq!(run(&mut byte_wise, Level::High), vec![Action::SetSelect(Select::Data), Action::Done]);

    let mut whole = DisplayInterface::new(None, false);
    whole.data(&[]);
    assert_eq!(
        run(&mut whole, Level::High),
        vec![Action::SetSelect(Select::Data), Action::Write(vec![]), Action::Done]
    );
}

#[test]
fn data_x_times_repeats_one_byte() {
    let mut interface = DisplayInterface::new(None, false);
    interface.data_x_times(0x11, 5);
    let actions = run(&mut interface, Level::High);
    assert_eq!(actions.len(), 7);
    assert_eq!(actions[0], Action::SetSelect(Select::Data));
    for action in &actions[1..6] {
        assert_eq!(*action, Action::Write(vec![0x11]));
    }
    assert_eq!(actions[6], Action::Done);
}

#[test]
fn data_x_times_zero_writes_nothing() {
    let mut interface = DisplayInterface::new(None, true);
    interface.data_x_times(0x11, 0);
    assert_eq!(run(&mut interface, Level::High), vec![Action::SetSelect(Select::Data), Action::Done]);
}

#[test]
fn data_x_times_counts_every_repetition() {
    let mut interface = DisplayInterface::new(None, true);
    interface.data_x_times(0xA5, 100_000);
    let actions = run(&mut interface, Level::High);
    assert_eq!(actions.len(), 100_002);
    let writes = actions.iter().filter(|action| **action == Action::Write(vec![0xA5])).count();
    assert_eq!(writes, 100_000);
}

#[test]
fn strobe_selects_data_before_every_byte() {
    let mut interface = DisplayInterface::new(None, true);
    interface.strobe(0x22, 3);
    assert_eq!(
        run(&mut interface, Level::High),
        vec![
            Action::SetSelect(Select::Data),
            Action::Write(vec![0x22]),
            Action::SetSelect(Select::Data),
            Action::Write(vec![0x22]),
            Action::SetSelect(Select::Data),
            Action::Write(vec![0x22]),
            Action::Done,
        ]
    );
}

#[test]
fn strobe_is_repeated_data_of_one_byte() {
    for byte_wise in [true, false] {
        let mut strobed = DisplayInterface::new(None, byte_wise);
        strobed.strobe(0x5A, 100);
        let mut repeated = DisplayInterface::new(None, byte_wise);
        for _ in 0..100 {
            repeated.data(&[0x5A]);
        }
        let actions = run(&mut strobed, Level::High);
        assert_eq!(actions.len(), 201);
        assert_eq!(actions, run(&mut repeated, Level::High));
    }
}

#[test]
fn strobe_of_nothing_leaves_the_channel_idle() {
    let mut interface = DisplayInterface::new(None, true);
    interface.strobe(0x22, 0);
    assert!(interface.is_idle());
    assert_eq!(run(&mut interface, Level::High), vec![Action::Done]);
}

#[test]
fn strobe_stops_at_a_fault() {
    let mut interface = DisplayInterface::new(None, true);
    interface.strobe(0x22, u32::MAX);
    assert_eq!(interface.step(Event::Completed), Action::SetSelect(Select::Data));
    assert_eq!(interface.step(Event::Completed), Action::Write(vec![0x22]));
    assert_eq!(interface.step(Event::Completed), Action::SetSelect(Select::Data));
    assert_eq!(interface.step(Event::Fault), Action::Write(vec![0x22]));
    assert_eq!(interface.step(Event::Fault), Action::Failed);
    assert!(interface.is_idle());
}

#[test]
fn cmd_with_data_is_cmd_then_data() {
    let mut interface = DisplayInterface::new(None, true);
    interface.cmd_with_data(0x61, &[0x03, 0x20]);
    assert_eq!(
        run(&mut interface, Level::High),
        vec![
            Action::SetSelect(Select::Command),
            Action::Write(vec![0x61]),
            Action::SetSelect(Select::Data),
            Action::Write(vec![0x03]),
            Action::Write(vec![0x20]),
            Action::Done,
        ]
    );
}

#[test]
fn cmd_table_runs_in_order() {
    let table = vec![
        Entry { opcode: 0xAA, payload: vec![0x49, 0x55] },
        Entry { opcode: 0x00, payload: vec![] },
        Entry { opcode: 0x30, payload: vec![0x3C] },
    ];
    let mut interface = DisplayInterface::new(None, false);
    interface.cmd_table(&table);
    assert_eq!(
        run(&mut interface, Level::High),
        vec![
            Action::SetSelect(Select::Command),
            Action::Write(vec![0xAA]),
            Action::SetSelect(Select::Data),
            Action::Write(vec![0x49, 0x55]),
            Action::SetSelect(Select::Command),
            Action::Write(vec![0x00]),
            Action::SetSelect(Select::Data),
            Action::Write(vec![]),
            Action::SetSelect(Select::Command),
            Action::Write(vec![0x30]),
            Action::SetSelect(Select::Data),
            Action::Write(vec![0x3C]),
            Action::Done,
        ]
    );
}

#[test]
fn empty_table_leaves_the_channel_idle() {
    let mut interface = DisplayInterface::new(None, true);
    interface.cmd_table(&[]);
    assert!(interface.is_idle());
}

#[test]
fn delay_is_handed_out_in_microseconds() {
    let mut interface = DisplayInterface::new(None, true);
    interface.delay_us(30_000);
    assert_eq!(run(&mut interface, Level::High), vec![Action::Delay(30_000), Action::Done]);
}

#[test]
fn fault_ends_the_script() {
    let mut interface = DisplayInterface::new(None, true);
    interface.cmd_with_data(0x10, &[1, 2, 3]);
    interface.wait_until_idle(Level::Low);
    assert_eq!(interface.step(Event::Completed), Action::SetSelect(Select::Command));
    assert_eq!(interface.step(Event::Completed), Action::Write(vec![0x10]));
    assert_eq!(interface.step(Event::Completed), Action::SetSelect(Select::Data));
    assert_eq!(interface.step(Event::Completed), Action::Write(vec![1]));
    assert_eq!(interface.step(Event::Fault), Action::Failed);
    assert!(interface.is_idle());
    assert_eq!(interface.step(Event::Completed), Action::Done);
}

#[test]
fn fault_matters_only_after_a_write() {
    let mut interface = DisplayInterface::new(None, true);
    interface.cmd(0x02);
    assert_eq!(interface.step(Event::Fault), Action::SetSelect(Select::Command));
    assert_eq!(interface.step(Event::Fault), Action::Write(vec![0x02]));
    assert_eq!(interface.step(Event::Fault), Action::Failed);
}

#[test]
fn fault_in_the_last_write_fails_the_script() {
    let mut interface = DisplayInterface::new(None, false);
    interface.data(&[9]);
    assert_eq!(interface.step(Event::Completed), Action::SetSelect(Select::Data));
    assert_eq!(interface.step(Event::Completed), Action::Write(vec![9]));
    assert_eq!(interface.step(Event::Fault), Action::Failed);
}

#[test]
fn scripts_queue_one_behind_the_other() {
    let mut interface = DisplayInterface::new(None, true);
    interface.cmd(0x04);
    assert_eq!(interface.step(Event::Completed), Action::SetSelect(Select::Command));
    interface.data_x_times(7, 2);
    assert_eq!(interface.step(Event::Completed), Action::Write(vec![0x04]));
    assert_eq!(interface.step(Event::Completed), Action::SetSelect(Select::Data));
    assert_eq!(interface.step(Event::Completed), Action::Write(vec![7]));
    assert_eq!(interface.step(Event::Completed), Action::Write(vec![7]));
    assert_eq!(interface.step(Event::Completed), Action::Done);
}

#[test]
fn channel_takes_a_new_script_after_one_has_ended() {
    let mut interface = DisplayInterface::new(None, true);
    interface.cmd(0x04);
    run(&mut interface, Level::High);
    interface.cmd(0x02);
    assert_eq!(
        run(&mut interface, Level::High),
        vec![Action::SetSelect(Select::Command), Action::Write(vec![0x02]), Action::Done]
    );
}
