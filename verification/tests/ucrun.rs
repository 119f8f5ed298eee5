use ucrun::cli::{log_level_from_name, route, Handler, LogLevel, Subcommand};
use ucrun::config::{
    embedded_params_from_members, get_config_path, get_unikernel_config, UnikernelConfigError,
};
use ucrun::create::{
    any_is_cap_sys_admin, check_privileges, is_privileged, ucrun_dir_name, CreateError,
    LinuxCapabilities,
};
use ucrun::delete::{get_unikernel_name, plan_kill};
use ucrun::env::{env_value, EnvLookup};
use ucrun::schema::{EmbeddedParams, OCIConfig, Process};
use ucrun::start::{ops_args, ops_instance_args};
use ucrun::text::{
    contains_text, from_chars, remove_char_exec, same_text, split_chars,
    split_white_space_chars, to_chars,
};

fn params(manager: &str, home: &str, id: &str) -> EmbeddedParams {
    EmbeddedParams {
        container_manager: manager.to_string(),
        home: home.to_string(),
        container_id: id.to_string(),
        log_level: "info".to_string(),
    }
}

fn config_with_env(env: &[&str]) -> OCIConfig {
    OCIConfig {
        oci_version: "1.0.2".to_string(),
        process: Process {
            args: vec!["/hello".to_string()],
            env: env.iter().map(|e| e.to_string()).collect(),
        },
    }
}

fn strings(v: &[&str]) -> Vec<String> {
    v.iter().map(|s| s.to_string()).collect()
}

fn texts_of(pieces: Vec<Vec<char>>) -> Vec<String> {
    pieces.iter().map(|p| p.iter().collect()).collect()
}

// ----- config paths -----

#[test]
fn config_path_podman() {
    let p = get_config_path(params("podman", "/home/lmz/", "abc123"));
    assert_eq!(
        p,
        "/home/lmz/.local/share/containers/storage/overlay-containers/abc123/userdata/config.json"
    );
}

#[test]
fn config_path_crio() {
    let p = get_config_path(params("cri-o", "/home/lmz/", "abc123"));
    assert_eq!(p, "/var/run/containers/storage/overlay-containers/abc123/userdata/config.json");
}

#[test]
fn config_path_unsupported_manager_is_empty() {
    assert_eq!(get_config_path(params("containerd", "/home/lmz/", "abc123")), "");
    assert_eq!(get_config_path(params("Podman", "/home/lmz/", "abc123")), "");
    assert_eq!(get_config_path(params("", "/home/lmz/", "abc123")), "");
}

#[test]
fn config_path_law_ends_with_container_config() {
    for manager in ["podman", "cri-o"] {
        let p = get_config_path(params(manager, "/root/", "id-7"));
        assert!(p.ends_with("id-7/userdata/config.json"));
    }
}

// ----- runtime parameters from the index file -----

#[test]
fn unikernel_config_reads_members_without_quotes() {
    let index = r#"{"containerManager":"podman","home":"/home/lmz/","logLevel":"debug"}"#;
    let ep = get_unikernel_config(Some(index)).unwrap();
    assert_eq!(ep.container_manager, "podman");
    assert_eq!(ep.home, "/home/lmz/");
    assert_eq!(ep.container_id, "");
    assert_eq!(ep.log_level, "debug");
}

#[test]
fn unikernel_config_missing_member_reads_null() {
    let index = r#"{"containerManager":"cri-o"}"#;
    let ep = get_unikernel_config(Some(index)).unwrap();
    assert_eq!(ep.container_manager, "cri-o");
    assert_eq!(ep.home, "null");
    assert_eq!(ep.log_level, "null");
}

#[test]
fn unikernel_config_non_string_members_print_as_json() {
    let index = r#"{"containerManager":["a","b"],"home":42,"logLevel":"x\"y"}"#;
    let ep = get_unikernel_config(Some(index)).unwrap();
    assert_eq!(ep.container_manager, "[a,b]");
    assert_eq!(ep.home, "42");
    assert_eq!(ep.log_level, "x\\y");
}

#[test]
fn unikernel_config_not_found() {
    assert_eq!(get_unikernel_config(None).unwrap_err(), UnikernelConfigError::IndexNotFound);
}

#[test]
fn unikernel_config_not_json() {
    assert_eq!(
        get_unikernel_config(Some("containerManager: podman")).unwrap_err(),
        UnikernelConfigError::IndexNotJson
    );
    assert_eq!(get_unikernel_config(Some("")).unwrap_err(), UnikernelConfigError::IndexNotJson);
}

#[test]
fn unikernel_config_not_an_object_reads_null() {
    let ep = get_unikernel_config(Some("[1,2]")).unwrap();
    assert_eq!(ep.container_manager, "null");
}

#[test]
fn params_from_members_strip_every_quote() {
    let ep = embedded_params_from_members("\"podman\"", "\"/ho\"me/\"", "trace");
    assert_eq!(ep.container_manager, "podman");
    assert_eq!(ep.home, "/home/");
    assert_eq!(ep.log_level, "trace");
    assert_eq!(ep.container_id, "");
}

#[test]
fn params_law_no_quotes_left() {
    let ep = embedded_params_from_members("\"\"\"", "a\"\"b", "\"");
    assert!(!ep.container_manager.contains('"'));
    assert!(!ep.home.contains('"'));
    assert!(!ep.log_level.contains('"'));
    assert_eq!(ep.home, "ab");
}

// ----- environment lookups -----

#[test]
fn env_value_found() {
    let env = strings(&["PATH=/bin", "SERVICE_NAME=hello", "PORT=8080"]);
    assert_eq!(env_value(&env, "SERVICE_NAME"), EnvLookup::Value("hello".to_string()));
    assert_eq!(env_value(&env, "PORT"), EnvLookup::Value("8080".to_string()));
}

#[test]
fn env_value_missing() {
    let env = strings(&["PATH=/bin"]);
    assert_eq!(env_value(&env, "SERVICE_NAME"), EnvLookup::Missing);
    assert_eq!(env_value(&Vec::new(), "PORT"), EnvLookup::Missing);
}

#[test]
fn env_value_malformed() {
    let env = strings(&["SERVICE_NAME", "SERVICE_NAME=late"]);
    assert_eq!(env_value(&env, "SERVICE_NAME"), EnvLookup::Malformed);
}

#[test]
fn env_value_first_mention_wins() {
    let env = strings(&["MY_SERVICE_NAME_X=first", "SERVICE_NAME=second"]);
    assert_eq!(env_value(&env, "SERVICE_NAME"), EnvLookup::Value("first".to_string()));
    let env = strings(&["EXPORT=1", "PORT=2"]);
    assert_eq!(env_value(&env, "PORT"), EnvLookup::Value("1".to_string()));
}

#[test]
fn env_value_stops_at_second_separator() {
    let env = strings(&["SERVICE_NAME=a=b=c"]);
    assert_eq!(env_value(&env, "SERVICE_NAME"), EnvLookup::Value("a".to_string()));
    let env = strings(&["SERVICE_NAME="]);
    assert_eq!(env_value(&env, "SERVICE_NAME"), EnvLookup::Value("".to_string()));
}

#[test]
fn env_value_law_has_no_separator() {
    for e in ["K=v", "K==", "K=x=y", "xK=1=2=3"] {
        if let EnvLookup::Value(v) = env_value(&strings(&[e]), "K") {
            assert!(!v.contains('='));
            assert_eq!(Some(v.as_str()), e.split('=').nth(1));
        } else {
            panic!("expected a value for {e}");
        }
    }
}

#[test]
fn unikernel_name_from_config() {
    let c = config_with_env(&["PATH=/bin", "SERVICE_NAME=nginx"]);
    assert_eq!(get_unikernel_name(&c), EnvLookup::Value("nginx".to_string()));
    let c = config_with_env(&["PATH=/bin"]);
    assert_eq!(get_unikernel_name(&c), EnvLookup::Missing);
}

// ----- kill plan -----

#[test]
fn kill_plan_picks_second_word_of_matching_lines() {
    let out = "root  1234  1 0 10:00 ?  00:00:01 qemu-system-x86_64 hello\n\
               root  99    1 0 10:00 ?  00:00:01 other\n\
               root  5678  1 0 10:00 ?  00:00:01 ops instance hello\n";
    let plan = plan_kill(out, "hello");
    assert_eq!(plan.pids, strings(&["1234", "5678"]));
    assert!(!plan.malformed);
}

#[test]
fn kill_plan_no_match() {
    let plan = plan_kill("root 1 0 init\n", "hello");
    assert!(plan.pids.is_empty());
    assert!(!plan.malformed);
    let plan = plan_kill("", "hello");
    assert!(plan.pids.is_empty());
    assert!(!plan.malformed);
}

#[test]
fn kill_plan_empty_name_hits_empty_line() {
    let plan = plan_kill("root 1 x\n", "");
    assert_eq!(plan.pids, strings(&["1"]));
    assert!(plan.malformed);
}

#[test]
fn kill_plan_stops_at_line_without_pid() {
    let plan = plan_kill("u 10 hello\nhello\nu 20 hello\n", "hello");
    assert_eq!(plan.pids, strings(&["10"]));
    assert!(plan.malformed);
}

#[test]
fn kill_plan_unicode_white_space() {
    let plan = plan_kill("u\u{3000}\u{a0}42\thello\n", "hello");
    assert_eq!(plan.pids, strings(&["42"]));
}

#[test]
fn kill_plan_law_pids_are_words() {
    let out = "  a  1 svc\nb\t2\tsvc  \n c 3 x\n";
    let plan = plan_kill(out, "svc");
    assert!(plan.pids.len() <= out.split('\n').count());
    for pid in &plan.pids {
        assert!(!pid.is_empty());
        assert!(!pid.chars().any(char::is_whitespace));
    }
    assert_eq!(plan.pids, strings(&["1", "2"]));
}

// ----- ops command line -----

#[test]
fn ops_args_without_port() {
    assert_eq!(
        ops_args("hello", ""),
        strings(&["instance", "create", "hello", "-i", "hello", "-t", "onprem"])
    );
}

#[test]
fn ops_args_with_port() {
    assert_eq!(
        ops_args("hello", "8080"),
        strings(&["instance", "create", "hello", "-i", "hello", "-p", "8080", "-t", "onprem"])
    );
}

#[test]
fn ops_instance_args_from_config() {
    let c = config_with_env(&["SERVICE_NAME=web", "PORT=80"]);
    assert_eq!(
        ops_instance_args(&c),
        Some(strings(&["instance", "create", "web", "-i", "web", "-p", "80", "-t", "onprem"]))
    );
    let c = config_with_env(&["SERVICE_NAME=web", "PORT="]);
    assert_eq!(
        ops_instance_args(&c),
        Some(strings(&["instance", "create", "web", "-i", "web", "-t", "onprem"]))
    );
    let c = config_with_env(&["PORT=80"]);
    assert_eq!(ops_instance_args(&c), None);
}

#[test]
fn ops_instance_args_service_port_entry() {
    // An entry named SERVICE_PORT mentions PORT first.
    let c = config_with_env(&["SERVICE_NAME=web", "SERVICE_PORT=9", "PORT=80"]);
    assert_eq!(
        ops_instance_args(&c),
        Some(strings(&["instance", "create", "web", "-i", "web", "-p", "9", "-t", "onprem"]))
    );
}

#[test]
fn ops_args_law_shape() {
    for (svc, port) in [("a", ""), ("a", "1"), ("-p", "")] {
        let a = ops_args(svc, port);
        assert_eq!(a[2], svc);
        assert_eq!(a[4], svc);
        assert_eq!(a.last().unwrap(), "onprem");
        assert_eq!(a.iter().any(|x| x == "-p"), !port.is_empty() || svc == "-p");
    }
}

// ----- privileges -----

fn caps(bounding: Option<&[&str]>, ambient: Option<&[&str]>) -> LinuxCapabilities {
    LinuxCapabilities {
        bounding: bounding.map(strings),
        effective: None,
        inheritable: None,
        permitted: None,
        ambient: ambient.map(strings),
    }
}

#[test]
fn sys_admin_in_a_set() {
    assert!(any_is_cap_sys_admin(&Some(strings(&["KILL", "SYS_ADMIN"]))));
    assert!(!any_is_cap_sys_admin(&Some(strings(&["KILL", "CAP_SYS_ADMIN", "SYS_ADMINX"]))));
    assert!(!any_is_cap_sys_admin(&None));
    assert!(!any_is_cap_sys_admin(&Some(Vec::new())));
}

#[test]
fn privileged_when_any_set_grants_sys_admin() {
    assert!(is_privileged(&caps(None, Some(&["SYS_ADMIN"]))));
    assert!(!is_privileged(&caps(Some(&["KILL"]), Some(&["NET_BIND_SERVICE"]))));
    let all = LinuxCapabilities {
        bounding: None,
        effective: None,
        inheritable: None,
        permitted: Some(strings(&["SYS_ADMIN"])),
        ambient: None,
    };
    assert!(is_privileged(&all));
}

#[test]
fn check_privileges_refuses_privileged() {
    assert_eq!(
        check_privileges(&Some(caps(Some(&["SYS_ADMIN"]), None))),
        Err(CreateError::PrivilegedContainer)
    );
    assert_eq!(check_privileges(&Some(caps(Some(&["KILL"]), None))), Ok(()));
    assert_eq!(check_privileges(&None), Ok(()));
}

#[test]
fn privilege_law_other_caps_do_not_matter() {
    let base = caps(Some(&["KILL"]), None);
    let more = caps(Some(&["KILL", "AUDIT_WRITE", "CHOWN"]), None);
    assert_eq!(is_privileged(&base), is_privileged(&more));
    let with = caps(Some(&["KILL", "SYS_ADMIN"]), None);
    assert!(is_privileged(&with));
}

#[test]
fn ucrun_dir_name_prefix() {
    assert_eq!(ucrun_dir_name("abc"), "ucrun-abc");
    assert_eq!(ucrun_dir_name(""), "ucrun-");
}

// ----- command line -----

#[test]
fn route_own_and_crun_commands() {
    assert_eq!(route(Subcommand::Create), Handler::Create);
    assert_eq!(route(Subcommand::Delete), Handler::Delete);
    assert_eq!(route(Subcommand::Start), Handler::Start);
    for c in [
        Subcommand::State,
        Subcommand::Kill,
        Subcommand::Checkpoint,
        Subcommand::Events,
        Subcommand::Exec,
        Subcommand::Features,
        Subcommand::List,
        Subcommand::Pause,
        Subcommand::Ps,
        Subcommand::Resume,
        Subcommand::Run,
        Subcommand::Update,
        Subcommand::Spec,
    ] {
        assert_eq!(route(c), Handler::Crun);
    }
}

#[test]
fn log_levels() {
    assert_eq!(log_level_from_name("info"), LogLevel::Info);
    assert_eq!(log_level_from_name("debug"), LogLevel::Debug);
    assert_eq!(log_level_from_name("trace"), LogLevel::Trace);
    assert_eq!(log_level_from_name("TRACE"), LogLevel::Info);
    assert_eq!(log_level_from_name(""), LogLevel::Info);
    assert_eq!(log_level_from_name("null"), LogLevel::Info);
}

// ----- text operations against std -----

const SAMPLES: [&str; 8] = [
    "",
    "a",
    "=",
    "a=b",
    "==x=",
    "  lead and\ttrail  ",
    "\u{2003}é\u{85}ü=\n",
    "no separators",
];

#[test]
fn to_chars_and_back() {
    for s in SAMPLES {
        let v = to_chars(s);
        assert_eq!(v, s.chars().collect::<Vec<_>>());
        assert_eq!(from_chars(&v), s);
    }
}

#[test]
fn split_matches_std() {
    for s in SAMPLES {
        for sep in ['=', '\n', ' '] {
            let got = texts_of(split_chars(&to_chars(s), sep));
            let want: Vec<String> = s.split(sep).map(|x| x.to_string()).collect();
            assert_eq!(got, want);
        }
    }
}

#[test]
fn split_law_join_gives_back_text() {
    for s in SAMPLES {
        let pieces = texts_of(split_chars(&to_chars(s), '='));
        assert_eq!(pieces.join("="), s);
        assert!(!pieces.is_empty());
    }
}

#[test]
fn split_whitespace_matches_std() {
    for s in SAMPLES {
        let got = texts_of(split_white_space_chars(&to_chars(s)));
        let want: Vec<String> = s.split_whitespace().map(|x| x.to_string()).collect();
        assert_eq!(got, want);
    }
}

#[test]
fn contains_matches_std() {
    for s in SAMPLES {
        for n in ["", "a", "=", "é", "trail  ", "zz"] {
            assert_eq!(contains_text(s, n), s.contains(n), "{s:?} {n:?}");
        }
    }
}

#[test]
fn remove_char_matches_std_and_is_idempotent() {
    for s in ["\"a\"", "", "\"\"", "x\"y\"z", "plain"] {
        let once = remove_char_exec(s, '"');
        assert_eq!(once, s.replace('"', ""));
        assert_eq!(remove_char_exec(&once, '"'), once);
    }
}

#[test]
fn same_text_cases() {
    assert!(same_text("podman", "podman"));
    assert!(!same_text("podman", "podma"));
    assert!(!same_text("cri-o", "cri-O"));
    assert!(same_text("", ""));
}
