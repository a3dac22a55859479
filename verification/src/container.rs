use vstd::prelude::*;

use crate::text::{join2, join3, push_str, push_string, strs};

verus! {

/// The tag of the base image that every puzzle container runs.
pub const IMAGE_TAG: &'static str = "bashlings-base:latest";

/// Builder for a `podman run` invocation. Holds the security defaults.
#[derive(Clone, Debug)]
pub struct PodmanRun {
    /// Host directory mounted at `/puzzle`.
    pub workspace: String,
    pub image: String,
    pub allow_network: bool,
    pub interactive: bool,
    pub command: Vec<String>,
    /// The caller's `TERM`, passed through to the container when there is one.
    pub terminal: Option<String>,
}

/// What a finished container run reported.
#[derive(Clone, Debug)]
pub struct RunOutput {
    pub exit: i32,
    pub stdout: String,
    pub stderr: String,
}

/// The options that close the container down, in the order they are passed.
///
/// There is no CPU cap: the `cpu` cgroup controller is not delegated to user slices by
/// default on Ubuntu and Mint, so a CPU limit would break rootless `podman run` out of the
/// box. The network, capabilities, file system, memory and process limits still hold.
pub open spec fn hardening_args() -> Seq<Seq<char>> {
    seq![
        "--read-only"@,
        "--tmpfs"@,
        "/tmp"@,
        "--tmpfs"@,
        "/home/bashlings"@,
        "--cap-drop=ALL"@,
        "--security-opt=no-new-privileges"@,
        "--memory=512m"@,
        "--pids-limit=256"@,
        "-u"@,
        "1000:1000"@,
        "-w"@,
        "/puzzle"@,
    ]
}

/// The bind mount of the workspace at `/puzzle`: `U` hands the mount to the container's
/// user (rootless podman maps its uid elsewhere on the host), `Z` relabels it for SELinux.
pub open spec fn mount_spec(workspace: Seq<char>) -> Seq<char> {
    workspace + ":/puzzle:Z,U"@
}

/// The minimal environment given to every container.
pub open spec fn env_args() -> Seq<Seq<char>> {
    seq![
        "-e"@,
        "PATH=/usr/local/sbin:/usr/local/bin:/usr/sbin:/usr/bin:/sbin:/bin"@,
        "-e"@,
        "HOME=/home/bashlings"@,
        "-e"@,
        "SHELL=/bin/bash"@,
    ]
}

pub open spec fn terminal_args(terminal: Option<String>) -> Seq<Seq<char>> {
    match terminal {
        Some(t) => seq!["-e"@, "TERM="@ + t@],
        None => Seq::empty(),
    }
}

/// Everything that `podman run` is given before the image.
pub open spec fn option_args(r: PodmanRun) -> Seq<Seq<char>> {
    seq!["run"@, "--rm"@]
        + (if r.interactive { seq!["-i"@, "-t"@] } else { Seq::empty() })
        + (if !r.allow_network { seq!["--network=none"@] } else { Seq::empty() })
        + hardening_args()
        + seq!["-v"@, mount_spec(r.workspace@)]
        + env_args()
        + terminal_args(r.terminal)
}

/// The whole argument vector: the options, the image, then the command.
pub open spec fn run_args(r: PodmanRun) -> Seq<Seq<char>> {
    option_args(r) + seq![r.image@] + strs(r.command@)
}

impl PodmanRun {
    /// A run of the base image against `workspace`: no network, not interactive, no command.
    pub fn new(workspace: &str) -> (r: Self)
        ensures
            r.workspace@ == workspace@,
            r.image@ == IMAGE_TAG@,
            !r.allow_network,
            !r.interactive,
            r.command@.len() == 0,
            r.terminal is None,
    {
        PodmanRun {
            workspace: String::from_str(workspace),
            image: String::from_str(IMAGE_TAG),
            allow_network: false,
            interactive: false,
            command: Vec::new(),
            terminal: None,
        }
    }

    /// The same run, with the network allowed or not.
    pub fn allow_network(self, yes: bool) -> (r: Self)
        ensures
            r == (PodmanRun { allow_network: yes, ..self }),
    {
        PodmanRun { allow_network: yes, ..self }
    }

    /// The same run, attached to the terminal or not.
    pub fn interactive(self, yes: bool) -> (r: Self)
        ensures
            r == (PodmanRun { interactive: yes, ..self }),
    {
        PodmanRun { interactive: yes, ..self }
    }

    /// The same run, with the command to run in the container.
    pub fn command(self, args: Vec<String>) -> (r: Self)
        ensures
            r == (PodmanRun { command: args, ..self }),
    {
        PodmanRun { command: args, ..self }
    }

    /// The same run, with the caller's `TERM` to pass through.
    pub fn terminal(self, term: Option<String>) -> (r: Self)
        ensures
            r == (PodmanRun { terminal: term, ..self }),
    {
        PodmanRun { terminal: term, ..self }
    }

    fn option_vec(&self) -> (v: Vec<String>)
        ensures
            strs(v@) == option_args(*self),
    {
        let mut v: Vec<String> = Vec::new();
        push_str(&mut v, "run");
        push_str(&mut v, "--rm");
        if self.interactive {
            push_str(&mut v, "-i");
            push_str(&mut v, "-t");
        }
        if !self.allow_network {
            push_str(&mut v, "--network=none");
        }
        let ghost before_hardening = strs(v@);
        push_str(&mut v, "--read-only");
        push_str(&mut v, "--tmpfs");
        push_str(&mut v, "/tmp");
        push_str(&mut v, "--tmpfs");
        push_str(&mut v, "/home/bashlings");
        push_str(&mut v, "--cap-drop=ALL");
        push_str(&mut v, "--security-opt=no-new-privileges");
        push_str(&mut v, "--memory=512m");
        push_str(&mut v, "--pids-limit=256");
        push_str(&mut v, "-u");
        push_str(&mut v, "1000:1000");
        push_str(&mut v, "-w");
        push_str(&mut v, "/puzzle");
        assert(strs(v@) =~= before_hardening + hardening_args());
        push_str(&mut v, "-v");
        push_string(&mut v, join2(self.workspace.as_str(), ":/puzzle:Z,U"));
        let ghost before_env = strs(v@);
        push_str(&mut v, "-e");
        push_str(&mut v, "PATH=/usr/local/sbin:/usr/local/bin:/usr/sbin:/usr/bin:/sbin:/bin");
        push_str(&mut v, "-e");
        push_str(&mut v, "HOME=/home/bashlings");
        push_str(&mut v, "-e");
        push_str(&mut v, "SHELL=/bin/bash");
        assert(strs(v@) =~= before_env + env_args());
        let ghost before_term = strs(v@);
        match &self.terminal {
            Some(t) => {
                push_str(&mut v, "-e");
                push_string(&mut v, join2("TERM=", t.as_str()));
            },
            None => {},
        }
        assert(strs(v@) =~= before_term + terminal_args(self.terminal));
        assert(strs(v@) =~= option_args(*self));
        v
    }

    /// The argument vector passed to `podman` (without "podman" itself).
    pub fn build_args(&self) -> (v: Vec<String>)
        ensures
            strs(v@) == run_args(*self),
    {
        let mut v = self.option_vec();
        let ghost opts = strs(v@);
        v.push(self.image.clone());
        assert(strs(v@) =~= opts + seq![self.image@]);
        let ghost base = strs(v@);
        let n = self.command.len();
        let mut i: usize = 0;
        while i < n
            invariant
                n == self.command@.len(),
                i <= n,
                strs(v@) == base + strs(self.command@.take(i as int)),
            decreases n - i,
        {
            let ghost prev = strs(v@);
            v.push(self.command[i].clone());
            assert(strs(self.command@.take(i + 1)) =~= strs(self.command@.take(i as int)).push(
                self.command@[i as int]@,
            ));
            assert(strs(v@) =~= prev.push(self.command@[i as int]@));
            i = i + 1;
        }
        assert(self.command@.take(n as int) =~= self.command@);
        v
    }
}

/// The scripts that every puzzle ships, run inside its container.
#[derive(Clone, Copy, Debug, PartialEq, Eq, Structural)]
pub enum Script {
    /// Prepares a fresh workspace.
    Setup,
    /// Judges the workspace: exit 0 means solved.
    Check,
    /// The reference solution.
    Solution,
}

/// The name of a script without its `.sh` extension.
pub open spec fn script_stem(script: Script) -> Seq<char> {
    match script {
        Script::Setup => "setup"@,
        Script::Check => "check"@,
        Script::Solution => "solution"@,
    }
}

/// Where a script lies inside the container: `/puzzle/<stem>.sh`.
pub open spec fn script_path(script: Script) -> Seq<char> {
    "/puzzle/"@ + script_stem(script) + ".sh"@
}

/// The path of `script` inside the container.
pub fn script_file(script: Script) -> (r: String)
    ensures
        r@ == script_path(script),
{
    let stem = match script {
        Script::Setup => "setup",
        Script::Check => "check",
        Script::Solution => "solution",
    };
    join3("/puzzle/", stem, ".sh")
}

/// `r` runs `bash` on `script` in the base image against `workspace`, without a terminal.
pub open spec fn runs_script(r: PodmanRun, workspace: Seq<char>, allow_network: bool, script: Script) -> bool {
    &&& r.workspace@ == workspace
    &&& r.image@ == IMAGE_TAG@
    &&& r.allow_network == allow_network
    &&& !r.interactive
    &&& strs(r.command@) == seq!["bash"@, script_path(script)]
    &&& r.terminal is None
}

/// The invocation that runs `script` inside the workspace.
pub fn script_run(workspace: &str, allow_network: bool, script: Script) -> (r: PodmanRun)
    ensures
        runs_script(r, workspace@, allow_network, script),
{
    let mut cmd: Vec<String> = Vec::new();
    push_str(&mut cmd, "bash");
    push_string(&mut cmd, script_file(script));
    assert(strs(cmd@) =~= seq!["bash"@, script_path(script)]);
    PodmanRun::new(workspace).allow_network(allow_network).command(cmd)
}

/// The invocation that runs the setup script inside the workspace.
pub fn run_setup(workspace: &str, allow_network: bool) -> (r: PodmanRun)
    ensures
        runs_script(r, workspace@, allow_network, Script::Setup),
{
    script_run(workspace, allow_network, Script::Setup)
}

/// The invocation that runs the puzzle's judging script inside the workspace.
pub fn run_check(workspace: &str, allow_network: bool) -> (r: PodmanRun)
    ensures
        runs_script(r, workspace@, allow_network, Script::Check),
{
    script_run(workspace, allow_network, Script::Check)
}

/// The invocation that runs the reference solution inside the workspace.
pub fn run_solution(workspace: &str, allow_network: bool) -> (r: PodmanRun)
    ensures
        runs_script(r, workspace@, allow_network, Script::Solution),
{
    script_run(workspace, allow_network, Script::Solution)
}

/// The invocation of an interactive bash shell in the workspace.
pub fn run_interactive_shell(workspace: &str, allow_network: bool) -> (r: PodmanRun)
    ensures
        r.workspace@ == workspace@,
        r.image@ == IMAGE_TAG@,
        r.allow_network == allow_network,
        r.interactive,
        strs(r.command@) == seq!["bash"@],
        r.terminal is None,
{
    let mut cmd: Vec<String> = Vec::new();
    push_str(&mut cmd, "bash");
    assert(strs(cmd@) =~= seq!["bash"@]);
    PodmanRun::new(workspace).allow_network(allow_network).interactive(true).command(cmd)
}

/// Every container is started with `--rm` and the full set of hardening options,
/// whatever the builder was told.
pub proof fn lemma_hardening_always_present(r: PodmanRun)
    ensures
        run_args(r)[0] == "run"@,
        option_args(r).contains("--rm"@),
        option_args(r).contains("--read-only"@),
        option_args(r).contains("--tmpfs"@),
        option_args(r).contains("/tmp"@),
        option_args(r).contains("/home/bashlings"@),
        option_args(r).contains("--cap-drop=ALL"@),
        option_args(r).contains("--security-opt=no-new-privileges"@),
        option_args(r).contains("--memory=512m"@),
        option_args(r).contains("--pids-limit=256"@),
        option_args(r).contains("1000:1000"@),
        option_args(r).contains(mount_spec(r.workspace@)),
{
    let o = option_args(r);
    let k: int = 2 + (if r.interactive { 2int } else { 0int }) + (if !r.allow_network { 1int } else { 0int });
    assert(o[1] == "--rm"@);
    assert(o[k] == "--read-only"@);
    assert(o[k + 1] == "--tmpfs"@);
    assert(o[k + 2] == "/tmp"@);
    assert(o[k + 4] == "/home/bashlings"@);
    assert(o[k + 5] == "--cap-drop=ALL"@);
    assert(o[k + 6] == "--security-opt=no-new-privileges"@);
    assert(o[k + 7] == "--memory=512m"@);
    assert(o[k + 8] == "--pids-limit=256"@);
    assert(o[k + 10] == "1000:1000"@);
    assert(o[k + 14] == mount_spec(r.workspace@));
}

/// What the proofs below need of the literal arguments: their lengths and the characters
/// that tell them apart.
proof fn lemma_option_literals()
    ensures
        "run"@.len() == 3 && "run"@[0] == 'r',
        "--rm"@.len() == 4 && "--rm"@[0] == '-',
        "-i"@.len() == 2 && "-i"@[0] == '-' && "-i"@[1] == 'i',
        "-t"@.len() == 2 && "-t"@[0] == '-' && "-t"@[1] == 't',
        "--network=none"@.len() == 14 && "--network=none"@[0] == '-' && "--network=none"@[2] == 'n'
            && "--network=none"@[13] == 'e',
        "--read-only"@.len() == 11 && "--read-only"@[0] == '-',
        "--tmpfs"@.len() == 7 && "--tmpfs"@[0] == '-',
        "/tmp"@.len() == 4 && "/tmp"@[0] == '/',
        "/home/bashlings"@.len() == 15 && "/home/bashlings"@[0] == '/',
        "--cap-drop=ALL"@.len() == 14 && "--cap-drop=ALL"@[0] == '-' && "--cap-drop=ALL"@[2] == 'c',
        "--security-opt=no-new-privileges"@.len() == 32 && "--security-opt=no-new-privileges"@[0] == '-',
        "--memory=512m"@.len() == 13 && "--memory=512m"@[0] == '-',
        "--pids-limit=256"@.len() == 16 && "--pids-limit=256"@[0] == '-',
        "-u"@.len() == 2 && "-u"@[0] == '-' && "-u"@[1] == 'u',
        "1000:1000"@.len() == 9 && "1000:1000"@[0] == '1',
        "-w"@.len() == 2 && "-w"@[0] == '-' && "-w"@[1] == 'w',
        "/puzzle"@.len() == 7 && "/puzzle"@[0] == '/',
        "-v"@.len() == 2 && "-v"@[0] == '-' && "-v"@[1] == 'v',
        ":/puzzle:Z,U"@.len() == 12 && ":/puzzle:Z,U"@[11] == 'U',
        "-e"@.len() == 2 && "-e"@[0] == '-' && "-e"@[1] == 'e',
        "PATH=/usr/local/sbin:/usr/local/bin:/usr/sbin:/usr/bin:/sbin:/bin"@.len() == 65
            && "PATH=/usr/local/sbin:/usr/local/bin:/usr/sbin:/usr/bin:/sbin:/bin"@[0] == 'P',
        "HOME=/home/bashlings"@.len() == 20 && "HOME=/home/bashlings"@[0] == 'H',
        "SHELL=/bin/bash"@.len() == 15 && "SHELL=/bin/bash"@[0] == 'S',
        "TERM="@.len() == 5 && "TERM="@[0] == 'T',
{
    reveal_strlit("run");
    reveal_strlit("--rm");
    reveal_strlit("-i");
    reveal_strlit("-t");
    reveal_strlit("--network=none");
    reveal_strlit("--read-only");
    reveal_strlit("--tmpfs");
    reveal_strlit("/tmp");
    reveal_strlit("/home/bashlings");
    reveal_strlit("--cap-drop=ALL");
    reveal_strlit("--security-opt=no-new-privileges");
    reveal_strlit("--memory=512m");
    reveal_strlit("--pids-limit=256");
    reveal_strlit("-u");
    reveal_strlit("1000:1000");
    reveal_strlit("-w");
    reveal_strlit("/puzzle");
    reveal_strlit("-v");
    reveal_strlit(":/puzzle:Z,U");
    reveal_strlit("-e");
    reveal_strlit("PATH=/usr/local/sbin:/usr/local/bin:/usr/sbin:/usr/bin:/sbin:/bin");
    reveal_strlit("HOME=/home/bashlings");
    reveal_strlit("SHELL=/bin/bash");
    reveal_strlit("TERM=");
}

/// The container is cut off from the network exactly when the run does not allow it.
pub proof fn lemma_network_isolation(r: PodmanRun)
    ensures
        option_args(r).contains("--network=none"@) <==> !r.allow_network,
{
    let o = option_args(r);
    let k: int = 2 + (if r.interactive { 2int } else { 0int });
    if !r.allow_network {
        assert(o[k] == "--network=none"@);
    } else {
        lemma_option_literals();
        let net = "--network=none"@;
        let m = mount_spec(r.workspace@);
        assert(m[m.len() - 1] == 'U');
        assert(m != net);
        match r.terminal {
            Some(t) => {
                assert(("TERM="@ + t@)[0] == 'T');
            },
            None => {},
        }
        assert forall|i: int| 0 <= i < o.len() implies o[i] != net by {
            if o[i] == net {
                assert(o[i].len() == 14);
                assert(o[i][0] == '-');
            }
        }
    }
}

/// A terminal is attached (`-i`, `-t`) exactly when the run is interactive.
pub proof fn lemma_terminal_flags(r: PodmanRun)
    ensures
        option_args(r).contains("-i"@) <==> r.interactive,
        option_args(r).contains("-t"@) <==> r.interactive,
{
    let o = option_args(r);
    if r.interactive {
        assert(o[2] == "-i"@);
        assert(o[3] == "-t"@);
    } else {
        lemma_option_literals();
        let m = mount_spec(r.workspace@);
        assert(m.len() >= 12);
        match r.terminal {
            Some(t) => {
                assert(("TERM="@ + t@).len() >= 5);
            },
            None => {},
        }
        assert forall|i: int| 0 <= i < o.len() implies o[i] != "-i"@ && o[i] != "-t"@ by {
            if o[i] == "-i"@ || o[i] == "-t"@ {
                assert(o[i].len() == 2);
                assert(o[i][1] == 'i' || o[i][1] == 't');
            }
        }
    }
}

/// No CPU cap is ever placed on a container.
pub proof fn lemma_no_cpu_cap(r: PodmanRun)
    ensures
        !option_args(r).contains("--cpus=1"@),
{
    let o = option_args(r);
    lemma_option_literals();
    reveal_strlit("--cpus=1");
    let m = mount_spec(r.workspace@);
    assert(m[m.len() - 1] == 'U');
    match r.terminal {
        Some(t) => {
            assert(("TERM="@ + t@)[0] == 'T');
        },
        None => {},
    }
    assert forall|i: int| 0 <= i < o.len() implies o[i] != "--cpus=1"@ by {
        if o[i] == "--cpus=1"@ {
            assert(o[i].len() == 8);
            assert(o[i][0] == '-');
            assert(o[i][7] == '1');
        }
    }
}

/// The workspace is the one bind mount: every `-v` is followed by it.
pub proof fn lemma_workspace_is_the_only_mount(r: PodmanRun)
    ensures
        forall|i: int|
            0 <= i < option_args(r).len() && #[trigger] option_args(r)[i] == "-v"@ ==> i + 1 < option_args(r).len()
                && option_args(r)[i + 1] == mount_spec(r.workspace@),
{
    let o = option_args(r);
    lemma_option_literals();
    let m = mount_spec(r.workspace@);
    assert(m.len() >= 12);
    let k: int = 2 + (if r.interactive { 2int } else { 0int }) + (if !r.allow_network { 1int } else { 0int });
    assert(o[k + 13] == "-v"@);
    assert(o[k + 14] == m);
    match r.terminal {
        Some(t) => {
            assert(("TERM="@ + t@).len() >= 5);
        },
        None => {},
    }
    assert forall|i: int| 0 <= i < o.len() && o[i] == "-v"@ implies i == k + 13 by {
        if i != k + 13 {
            assert(o[i].len() == 2);
            assert(o[i][1] == 'v');
        }
    }
}

/// The environment handed to a container is `PATH`, `HOME` and `SHELL`, and `TERM`
/// exactly when the caller has one: nothing else of the host's environment.
pub proof fn lemma_minimal_environment(r: PodmanRun)
    ensures
        forall|i: int|
            0 <= i < option_args(r).len() && #[trigger] option_args(r)[i] == "-e"@ ==> {
                &&& i + 1 < option_args(r).len()
                &&& {
                    ||| option_args(r)[i + 1] == "PATH=/usr/local/sbin:/usr/local/bin:/usr/sbin:/usr/bin:/sbin:/bin"@
                    ||| option_args(r)[i + 1] == "HOME=/home/bashlings"@
                    ||| option_args(r)[i + 1] == "SHELL=/bin/bash"@
                    ||| (r.terminal is Some && option_args(r)[i + 1] == "TERM="@ + r.terminal->0@)
                }
            },
{
    let o = option_args(r);
    lemma_option_literals();
    let m = mount_spec(r.workspace@);
    assert(m.len() >= 12);
    let k: int = 2 + (if r.interactive { 2int } else { 0int }) + (if !r.allow_network { 1int } else { 0int });
    match r.terminal {
        Some(t) => {
            assert(("TERM="@ + t@).len() >= 5);
        },
        None => {},
    }
    assert forall|i: int| 0 <= i < o.len() && o[i] == "-e"@ implies i == k + 15 || i == k + 17 || i == k + 19 || (
    r.terminal is Some && i == k + 21) by {
        if !(i == k + 15 || i == k + 17 || i == k + 19 || (r.terminal is Some && i == k + 21)) {
            assert(o[i].len() == 2);
            assert(o[i][0] == '-');
            assert(o[i][1] == 'e');
        }
    }
}

/// Every container starts in the workspace's mount point as the unprivileged puzzle user:
/// each `-w` is followed by `/puzzle` and each `-u` by `1000:1000`, interactive or not.
pub proof fn lemma_runs_in_workspace_as_puzzle_user(r: PodmanRun)
    ensures
        option_args(r).contains("-w"@),
        option_args(r).contains("-u"@),
        forall|i: int|
            0 <= i < option_args(r).len() && #[trigger] option_args(r)[i] == "-w"@ ==> i + 1 < option_args(
                r,
            ).len() && option_args(r)[i + 1] == "/puzzle"@,
        forall|i: int|
            0 <= i < option_args(r).len() && #[trigger] option_args(r)[i] == "-u"@ ==> i + 1 < option_args(
                r,
            ).len() && option_args(r)[i + 1] == "1000:1000"@,
{
    let o = option_args(r);
    lemma_option_literals();
    let m = mount_spec(r.workspace@);
    assert(m.len() >= 12);
    let k: int = 2 + (if r.interactive { 2int } else { 0int }) + (if !r.allow_network { 1int } else { 0int });
    assert(o[k + 9] == "-u"@);
    assert(o[k + 10] == "1000:1000"@);
    assert(o[k + 11] == "-w"@);
    assert(o[k + 12] == "/puzzle"@);
    match r.terminal {
        Some(t) => {
            assert(("TERM="@ + t@).len() >= 5);
        },
        None => {},
    }
    assert forall|i: int| 0 <= i < o.len() && o[i] == "-w"@ implies i == k + 11 by {
        if i != k + 11 {
            assert(o[i].len() == 2);
            assert(o[i][1] == 'w');
        }
    }
    assert forall|i: int| 0 <= i < o.len() && o[i] == "-u"@ implies i == k + 9 by {
        if i != k + 9 {
            assert(o[i].len() == 2);
            assert(o[i][1] == 'u');
        }
    }
}

/// The argument vector is the options, then the image, then the command unchanged.
pub proof fn lemma_image_then_command(r: PodmanRun)
    ensures
        run_args(r).len() == option_args(r).len() + 1 + r.command@.len(),
        run_args(r)[option_args(r).len() as int] == r.image@,
        forall|j: int| 0 <= j < r.command@.len() ==> run_args(r)[option_args(r).len() + 1 + j] == #[trigger] r.command@[j]@,
{
}

} // verus!
