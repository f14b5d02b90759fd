use skybox::args::{
    add_arg, option_usage, pad_to, plugin_options, sbatch_warning, set_arg_edf, PluginArgs,
    SpankArg,
};
use skybox::config::{
    apply_config_defaults, apply_dynconf, check_config, is_enabled, target_workdir,
    user_search_paths, Config, Descriptor,
};
use skybox::job::{
    dynconf_job_input, is_global_task_0, is_local_task_0, is_node_0, join_command,
    parse_job_env, resolve_config_path, JobContext,
};

fn config() -> Config {
    Config {
        skybox_enabled: true,
        parallax_imagestore: String::from("/capstor/store"),
        parallax_mount_program: String::from("/opt/squashfuse_ll"),
        parallax_path: String::from("/opt/parallax"),
        podman_module: String::from("hpc-site"),
        podman_path: String::from("/opt/podman/bin/podman"),
        podman_tmp_path: String::from("/tmp/skybox"),
        dynconf_url: String::new(),
        dynconf_path: String::new(),
        tracking_enabled: false,
        tracking_tool: String::new(),
    }
}

fn builtin_descriptor() -> Descriptor {
    Descriptor {
        image: String::from("alpine"),
        podman_path: String::from("podman"),
        podman_module: String::from("hpc"),
        podman_tmp_path: String::from("/dev/shm"),
        parallax_enable: false,
        parallax_imagestore: String::new(),
        parallax_mount_program: String::new(),
        parallax_path: String::from("parallax"),
        workdir: String::new(),
        env: Vec::new(),
    }
}

fn strings(v: &[&str]) -> Vec<String> {
    v.iter().map(|s| s.to_string()).collect()
}

#[test]
fn complete_config_passes() {
    let mut c = config();
    assert_eq!(check_config(&mut c), Ok(()));
    assert!(c.skybox_enabled);
}

#[test]
fn missing_setting_disables_plugin() {
    let mut c = config();
    c.parallax_path = String::new();
    c.podman_tmp_path = String::new();
    assert_eq!(check_config(&mut c), Err(String::from("[skybox] cannot find parallax_path")));
    assert!(!c.skybox_enabled);
    let mut c = config();
    c.podman_tmp_path = String::new();
    assert_eq!(check_config(&mut c), Err(String::from("[skybox] cannot find podman_tmp_path")));
}

#[test]
fn builtin_defaults_replaced_by_config() {
    let mut d = builtin_descriptor();
    apply_config_defaults(&mut d, &config());
    assert!(d.parallax_enable);
    assert_eq!(d.parallax_imagestore, "/capstor/store");
    assert_eq!(d.parallax_mount_program, "/opt/squashfuse_ll");
    assert_eq!(d.parallax_path, "/opt/parallax");
    assert_eq!(d.podman_module, "hpc-site");
    assert_eq!(d.podman_path, "/opt/podman/bin/podman");
    assert_eq!(d.podman_tmp_path, "/tmp/skybox");
    assert_eq!(d.image, "alpine");
}

#[test]
fn descriptor_choices_kept() {
    let mut d = builtin_descriptor();
    d.podman_path = String::from("/usr/local/bin/podman");
    d.parallax_imagestore = String::from("/my/store");
    apply_config_defaults(&mut d, &config());
    assert_eq!(d.podman_path, "/usr/local/bin/podman");
    assert_eq!(d.parallax_imagestore, "/my/store");
}

#[test]
fn enabled_needs_config_and_image() {
    let c = config();
    assert!(is_enabled(&c, &Some(builtin_descriptor())));
    assert!(!is_enabled(&c, &None));
    let mut d = builtin_descriptor();
    d.image = String::new();
    assert!(!is_enabled(&c, &Some(d)));
    let mut off = config();
    off.skybox_enabled = false;
    assert!(!is_enabled(&off, &Some(builtin_descriptor())));
}

#[test]
fn dynconf_choice() {
    let mut c = config();
    apply_dynconf(&mut c, "pyxis");
    assert!(!c.skybox_enabled);
    apply_dynconf(&mut c, "");
    assert!(!c.skybox_enabled);
    apply_dynconf(&mut c, "skybox");
    assert!(c.skybox_enabled);
}

#[test]
fn search_paths() {
    assert_eq!(user_search_paths("/x/edf", "/home/u"), vec!["/x/edf"]);
    assert_eq!(user_search_paths("", "/home/u"), vec!["/home/u/.edf"]);
    assert_eq!(user_search_paths("", ""), Vec::<String>::new());
}

#[test]
fn workdir_choice() {
    assert_eq!(target_workdir("/work", 12), "/work");
    assert_eq!(target_workdir("", 12), "/proc/12/cwd");
}

#[test]
fn options_registered() {
    let opts = plugin_options();
    assert_eq!(opts.len(), 1);
    assert_eq!(opts[0].name, "edf");
    assert_eq!(opts[0].value, "PATH");
    assert!(opts[0].has_arg);
    assert_eq!(
        option_usage(&opts[0]),
        "[skybox] the path to the Environment Definition File to use."
    );
    let more = add_arg(
        opts,
        SpankArg {
            name: String::from("x"),
            value: String::new(),
            usage: String::new(),
            has_arg: false,
        },
    );
    assert_eq!(more.len(), 2);
    assert_eq!(more[1].name, "x");
}

#[test]
fn edf_argument() {
    let mut a = PluginArgs { edf: None };
    assert_eq!(
        set_arg_edf(&mut a, String::new()),
        Err(String::from("[skybox] --edf: argument required"))
    );
    assert_eq!(a.edf, None);
    assert_eq!(set_arg_edf(&mut a, String::from("my.toml")), Ok(()));
    assert_eq!(a.edf.as_deref(), Some("my.toml"));
}

#[test]
fn job_context_and_roles() {
    assert_eq!(
        JobContext::new(1000, 100, 5, 0, 0, 4, 8, String::new()).unwrap_err(),
        "[skybox] couldn't get job cwd path"
    );
    let mut j = JobContext::new(1000, 100, 5, 0, 1, 4, 8, String::from("/home/u")).unwrap();
    assert_eq!(j.local_task_id, u32::MAX);
    j.set_task(0, 4);
    let job = Some(j);
    assert!(is_local_task_0(&job));
    assert!(!is_global_task_0(&job));
    assert!(!is_node_0(&job));
    assert!(!is_local_task_0(&None));
    assert!(!is_node_0(&None));
}

#[test]
fn config_path_from_plugin_arguments() {
    assert_eq!(
        resolve_config_path(&strings(&["debug=1", "config_path=/etc/skybox.toml"])),
        Some(String::from("/etc/skybox.toml"))
    );
    assert_eq!(
        resolve_config_path(&strings(&["config_path=/a", "config_path=/b=c"])),
        Some(String::from("/b"))
    );
    assert_eq!(resolve_config_path(&strings(&["config_path", "other=x"])), None);
}

#[test]
fn job_environment_entries() {
    let vars = parse_job_env(&strings(&["A=1", "B=x=y", "C=1=2=3", "D", "A=2"]));
    let expect: Vec<(String, String)> = vec![
        (String::from("A"), String::from("1")),
        (String::from("B"), String::from("x")),
        (String::from("A"), String::from("2")),
    ];
    assert_eq!(vars, expect);
}

#[test]
fn dynconf_input_from_job_environment() {
    let vars = parse_job_env(&strings(&["SLURM_JOB_ID=77", "SLURM_JOB_USER=alice"]));
    let input = dynconf_job_input(&vars);
    let expect: Vec<(String, String)> = vec![
        (String::from("job"), String::from("77")),
        (String::from("system"), String::from("UNKNOWN")),
        (String::from("account"), String::from("UNKNOWN")),
        (String::from("user"), String::from("alice")),
    ];
    assert_eq!(input, expect);
    assert_eq!(dynconf_job_input(&Vec::new())[0].1, "0");
}

#[test]
fn command_line_joined() {
    assert_eq!(join_command(&strings(&["python", "train.py", "--epochs", "3"])), "python train.py --epochs 3");
    assert_eq!(join_command(&strings(&["", "a", "", "b"])), "a  b");
    assert_eq!(join_command(&Vec::new()), "");
}

#[test]
fn padding_to_width() {
    assert_eq!(pad_to("ab", 5), "ab   ");
    assert_eq!(pad_to("abcdef", 3), "abcdef");
    assert_eq!(pad_to("", 0), "");
}

#[test]
fn sbatch_warning_layout() {
    let w = sbatch_warning("sbatch");
    let lines: Vec<&str> = w.split('\n').collect();
    assert_eq!(lines[0], "");
    assert_eq!(lines[1].len(), 80);
    assert_eq!(
        lines[2],
        "| Use of the \"--edf\" option for \"sbatch\" is still considered experimental      |"
    );
    assert_eq!(lines[2].len(), 80);
    assert_eq!(lines[3].len(), 80);
    assert_eq!(lines[7].len(), 80);
    assert_eq!(lines[8], "");
    assert_eq!(lines.len(), 9);
    let expected = format!(
        "| Use of the \"--edf\" option for {:<width$}|",
        "\"salloc\" is still considered experimental",
        width = 47
    );
    assert_eq!(sbatch_warning("salloc").split('\n').nth(2), Some(expected.as_str()));
}
