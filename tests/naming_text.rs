use skybox::naming::{
    container_name, get_plugin_name, plugin_err, plugin_string, proc_entry, user_runtime_dir,
    RunContext,
};
use skybox::text::{decimal, parse_decimal_line, push_decimal, push_signed};

#[test]
fn plugin_tag_prefixes_messages() {
    assert_eq!(get_plugin_name(), "skybox");
    assert_eq!(plugin_string("image import failed"), "[skybox] image import failed");
    assert_eq!(plugin_err("x"), Err(String::from("[skybox] x")));
}

#[test]
fn container_name_from_job_and_step() {
    assert_eq!(container_name(1234, 5), "skybox_1234.5");
    assert_eq!(container_name(0, 0), "skybox_0.0");
    assert_eq!(container_name(u32::MAX, 4294967294), "skybox_4294967295.4294967294");
}

#[test]
fn run_context_paths() {
    let run = RunContext::new("/dev/shm", "/scratch/store", 42, 7, None);
    assert_eq!(run.name, "skybox_42.7");
    assert_eq!(run.tmp_path, "/dev/shm/skybox_42.7");
    assert_eq!(run.syncfile_path, "/scratch/store/.skybox_42.7_import.done");
    assert_eq!(run.pid, None);
    assert_eq!(run.graphroot(), "/dev/shm/skybox_42.7/graphroot");
    assert_eq!(run.runroot(), "/dev/shm/skybox_42.7/runroot");
    assert_eq!(run.pidfile(), "/dev/shm/skybox_42.7/pidfile");
    assert_eq!(run.completed_dir(), "/dev/shm/skybox_42.7/completed");
    assert_eq!(run.exit_marker(3), "/dev/shm/skybox_42.7/completed/task_3.exit");
    let run = run.with_pid(4711);
    assert_eq!(run.pid, Some(4711));
    assert_eq!(run.name, "skybox_42.7");
}

#[test]
fn proc_and_runtime_paths() {
    assert_eq!(proc_entry(4711, "ns/user"), "/proc/4711/ns/user");
    assert_eq!(proc_entry(1, "environ"), "/proc/1/environ");
    assert_eq!(user_runtime_dir(1000), "/run/user/1000");
}

#[test]
fn decimal_writing() {
    assert_eq!(decimal(0), "0");
    assert_eq!(decimal(9), "9");
    assert_eq!(decimal(10), "10");
    assert_eq!(decimal(u64::MAX), "18446744073709551615");
    let mut s = String::from("n=");
    push_decimal(&mut s, 305);
    assert_eq!(s, "n=305");
    let mut s = String::new();
    push_signed(&mut s, -17);
    assert_eq!(s, "-17");
    let mut s = String::new();
    push_signed(&mut s, i64::MIN);
    assert_eq!(s, "-9223372036854775808");
}

#[test]
fn decimal_line_parsing() {
    assert_eq!(parse_decimal_line("4711"), Some((false, 4711)));
    assert_eq!(parse_decimal_line("4711\n"), Some((false, 4711)));
    assert_eq!(parse_decimal_line("-12\nrest"), Some((true, 12)));
    assert_eq!(parse_decimal_line("007"), Some((false, 7)));
    assert_eq!(parse_decimal_line("18446744073709551615"), Some((false, u64::MAX)));
    assert_eq!(parse_decimal_line("18446744073709551616"), None);
    assert_eq!(parse_decimal_line(""), None);
    assert_eq!(parse_decimal_line("-"), None);
    assert_eq!(parse_decimal_line("12a"), None);
    assert_eq!(parse_decimal_line(" 12"), None);
    assert_eq!(parse_decimal_line("\n12"), None);
}
