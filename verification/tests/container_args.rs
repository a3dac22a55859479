use bashlings::container::{self, PodmanRun};

/// Where a puzzle script lies inside the container.
fn script(stem: &str) -> String {
    format!("/puzzle/{stem}.sh")
}

fn cmd(parts: &[&str]) -> Vec<String> {
    parts.iter().map(|s| s.to_string()).collect()
}

#[test]
fn default_args_set_security_flags() {
    let ws = "/tmp/ws-x";
    let args = PodmanRun::new(ws)
        .command(cmd(&["bash", script("check").as_str()]))
        .build_args();
    let joined = args.join(" ");

    assert_eq!(args.first().map(String::as_str), Some("run"));
    assert!(args.contains(&"--rm".to_string()), "missing --rm: {joined}");
    assert!(
        args.contains(&"--network=none".to_string()),
        "missing --network=none: {joined}"
    );
    assert!(
        args.contains(&"--read-only".to_string()),
        "missing --read-only: {joined}"
    );
    assert!(
        args.contains(&"--cap-drop=ALL".to_string()),
        "missing --cap-drop=ALL: {joined}"
    );
    assert!(
        args.contains(&"--security-opt=no-new-privileges".to_string()),
        "missing --security-opt=no-new-privileges: {joined}"
    );
    assert!(
        args.contains(&"--memory=512m".to_string()),
        "missing --memory=512m: {joined}"
    );
    // --cpus is intentionally absent.
    assert!(
        !args.contains(&"--cpus=1".to_string()),
        "--cpus=1 should be omitted: {joined}"
    );
    assert!(
        args.contains(&"--pids-limit=256".to_string()),
        "missing --pids-limit=256: {joined}"
    );
    assert!(
        joined.contains("/tmp/ws-x:/puzzle"),
        "workspace mount missing: {joined}"
    );
    assert!(
        args.contains(&container::IMAGE_TAG.to_string()),
        "image tag missing: {joined}"
    );
}

#[test]
fn allow_network_drops_network_none() {
    let ws = "/tmp/ws-x";
    let args = PodmanRun::new(ws)
        .allow_network(true)
        .command(cmd(&["bash", script("check").as_str()]))
        .build_args();
    assert!(
        !args.contains(&"--network=none".to_string()),
        "--network=none must not be present when allow_network is true"
    );
}

#[test]
fn interactive_adds_it_flags() {
    let ws = "/tmp/ws-x";
    let args = PodmanRun::new(ws)
        .interactive(true)
        .command(cmd(&["bash"]))
        .build_args();
    assert!(args.contains(&"-i".to_string()));
    assert!(args.contains(&"-t".to_string()));
}

#[test]
fn full_argument_vector_in_order() {
    let args = PodmanRun::new("/w")
        .command(cmd(&["bash", script("setup").as_str()]))
        .build_args();
    let setup = script("setup");
    let expected = vec![
        "run",
        "--rm",
        "--network=none",
        "--read-only",
        "--tmpfs",
        "/tmp",
        "--tmpfs",
        "/home/bashlings",
        "--cap-drop=ALL",
        "--security-opt=no-new-privileges",
        "--memory=512m",
        "--pids-limit=256",
        "-u",
        "1000:1000",
        "-w",
        "/puzzle",
        "-v",
        "/w:/puzzle:Z,U",
        "-e",
        "PATH=/usr/local/sbin:/usr/local/bin:/usr/sbin:/usr/bin:/sbin:/bin",
        "-e",
        "HOME=/home/bashlings",
        "-e",
        "SHELL=/bin/bash",
        "bashlings-base:latest",
        "bash",
        setup.as_str(),
    ];
    assert_eq!(args, expected);
}

#[test]
fn terminal_is_passed_through() {
    let args = PodmanRun::new("/w")
        .interactive(true)
        .allow_network(true)
        .terminal(Some("xterm-256color".to_string()))
        .command(cmd(&["bash"]))
        .build_args();
    assert_eq!(&args[..4], &["run", "--rm", "-i", "-t"]);
    let n = args.len();
    assert_eq!(args[n - 4], "-e");
    assert_eq!(args[n - 3], "TERM=xterm-256color");
    assert_eq!(args[n - 2], "bashlings-base:latest");
    assert_eq!(args[n - 1], "bash");
    assert!(!args.contains(&"--network=none".to_string()));
}

#[test]
fn non_interactive_has_no_tty_flags() {
    let args = PodmanRun::new("/w").command(cmd(&["bash"])).build_args();
    assert!(!args.contains(&"-i".to_string()));
    assert!(!args.contains(&"-t".to_string()));
}

#[test]
fn script_invocations() {
    let s = container::run_setup("/ws", false);
    assert_eq!(s.workspace, "/ws");
    assert_eq!(s.command, vec!["bash", script("setup").as_str()]);
    assert!(!s.allow_network && !s.interactive);
    let c = container::run_check("/ws", true);
    assert_eq!(c.command, vec!["bash", script("check").as_str()]);
    assert!(c.allow_network);
    let so = container::run_solution("/ws", false);
    assert_eq!(so.command, vec!["bash", script("solution").as_str()]);
    let sh = container::run_interactive_shell("/ws", false);
    assert_eq!(sh.command, vec!["bash"]);
    assert!(sh.interactive);
    assert_eq!(sh.image, container::IMAGE_TAG);
}

#[test]
fn workspace_is_the_only_mount() {
    let args = PodmanRun::new("/home/me/ws")
        .command(cmd(&["bash", "-v"]))
        .build_args();
    let image_at = args.iter().position(|a| a == container::IMAGE_TAG).unwrap();
    let opts = &args[..image_at];
    let mounts: Vec<usize> = opts
        .iter()
        .enumerate()
        .filter(|(_, a)| a.as_str() == "-v")
        .map(|(i, _)| i)
        .collect();
    assert_eq!(mounts.len(), 1);
    assert_eq!(opts[mounts[0] + 1], "/home/me/ws:/puzzle:Z,U");
}

#[test]
fn environment_is_minimal() {
    let args = PodmanRun::new("/w")
        .terminal(Some("dumb".to_string()))
        .command(cmd(&["bash"]))
        .build_args();
    let env: Vec<&str> = args
        .iter()
        .enumerate()
        .filter(|(_, a)| a.as_str() == "-e")
        .map(|(i, _)| args[i + 1].as_str())
        .collect();
    assert_eq!(
        env,
        vec![
            "PATH=/usr/local/sbin:/usr/local/bin:/usr/sbin:/usr/bin:/sbin:/bin",
            "HOME=/home/bashlings",
            "SHELL=/bin/bash",
            "TERM=dumb",
        ]
    );
}
