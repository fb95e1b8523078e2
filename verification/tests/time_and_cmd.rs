use leonos::cmd::Cmd;
use leonos::sys_call::FileWriter;
use leonos::time::{get_current_time, time_init, update_system_time, Time, TICKS_PER_SECOND};

#[test]
fn time_formats_with_zero_padding() {
    let t = Time::new(2024, 1, 1, 0, 0, 0);
    assert_eq!(&t.to_string(), b"2024-01-01 00:00:00\0");
    let t2 = Time::new(1999, 12, 31, 23, 59, 6);
    assert_eq!(&t2.to_string(), b"1999-12-31 23:59:06\0");
}

#[test]
fn clock_counts_whole_seconds() {
    let mut clock = time_init();
    let t0 = get_current_time(&clock);
    assert_eq!((t0.hour, t0.minute, t0.second), (0, 0, 0));
    assert_eq!((t0.year, t0.month, t0.day), (2024, 1, 1));
    for _ in 0..TICKS_PER_SECOND - 1 {
        update_system_time(&mut clock);
    }
    // one tick short of a second: nothing counted yet
    assert_eq!(get_current_time(&clock).second, 0);
    update_system_time(&mut clock);
    assert_eq!(get_current_time(&clock).second, 1);
}

#[test]
fn datetime_carries_minutes_and_hours() {
    let mut clock = time_init();
    // 61 seconds: one minute and one second
    for _ in 0..61 * TICKS_PER_SECOND {
        update_system_time(&mut clock);
    }
    let t = get_current_time(&clock);
    assert_eq!((t.hour, t.minute, t.second), (0, 1, 1));
    assert_eq!((t.year, t.month, t.day), (2024, 1, 1));
}

#[test]
fn datetime_minute_total_truncates_to_a_byte() {
    // the minutes total is carried in a byte: 256 minutes of seconds wrap
    // back to zero minutes
    let mut clock = time_init();
    for _ in 0..60 * 256 * TICKS_PER_SECOND as usize {
        update_system_time(&mut clock);
    }
    let t = get_current_time(&clock);
    assert_eq!((t.hour, t.minute, t.second), (0, 0, 0));
}

#[test]
fn command_lookup_knows_every_builtin() {
    assert_eq!(Cmd::get_by_name("pwd"), Cmd::Pwd);
    assert_eq!(Cmd::get_by_name("cd"), Cmd::Cd);
    assert_eq!(Cmd::get_by_name("ps"), Cmd::Ps);
    assert_eq!(Cmd::get_by_name("ls"), Cmd::Ls);
    assert_eq!(Cmd::get_by_name("clear"), Cmd::Clear);
    assert_eq!(Cmd::get_by_name("mkdir"), Cmd::Mkdir);
    assert_eq!(Cmd::get_by_name("rmdir"), Cmd::Rmdir);
    assert_eq!(Cmd::get_by_name("touch"), Cmd::Touch);
    assert_eq!(Cmd::get_by_name("rm"), Cmd::Rm);
    assert_eq!(Cmd::get_by_name("shutdown"), Cmd::Shutdown);
    assert_eq!(Cmd::get_by_name("help"), Cmd::Help);
    assert_eq!(Cmd::get_by_name("echo"), Cmd::Echo);
    assert_eq!(Cmd::get_by_name("grep"), Cmd::Grep);
    assert_eq!(Cmd::get_by_name("cat"), Cmd::Cat);
    assert_eq!(Cmd::get_by_name("version"), Cmd::Version);
    assert_eq!(Cmd::get_by_name("date"), Cmd::Date);
    assert_eq!(Cmd::get_by_name("psend"), Cmd::Psend);
    assert_eq!(Cmd::get_by_name("hello"), Cmd::Hello);
    assert_eq!(Cmd::get_by_name("frobnicate"), Cmd::Custom("frobnicate"));
    assert_eq!(Cmd::get_by_name(""), Cmd::Custom(""));
    // lookup is case-sensitive
    assert_eq!(Cmd::get_by_name("Pwd"), Cmd::Custom("Pwd"));
}

#[test]
fn command_table_lists_all_builtins() {
    let table = Cmd::get_all_commands();
    assert_eq!(table.len(), 18);
    assert_eq!(table[0], ("pwd", "Show current directory"));
    assert_eq!(table[12], ("grep", "Filter lines containing a pattern"));
    assert_eq!(table[17], ("hello", "Print 'hello world' message"));
    // every listed name resolves to a built-in, not a custom command
    for (name, _) in table {
        assert!(!matches!(Cmd::get_by_name(name), Cmd::Custom(_)));
    }
}

#[test]
fn file_writer_remembers_its_descriptor() {
    let w = FileWriter::new(1);
    assert_eq!(w.fd(), 1);
}
