//! Command lines that the benchmark runs.

use crate::address;
use crate::address::Ipv4Addr;
use crate::endpoint;
use crate::endpoint::EndpointArgs;
use crate::numeral;
use crate::shell;
use crate::text;
use vstd::prelude::*;

verus! {

/// An argument of a command.
#[derive(Debug, PartialEq, Eq)]
pub enum CommandArg {
    /// This text.
    Text(String),
    /// The path of the running executable.
    Executable,
}

/// A program and its arguments.
#[derive(Debug, PartialEq, Eq)]
pub struct CommandLine {
    pub program: String,
    pub args: Vec<CommandArg>,
}

/// An argument, its text seen as a sequence of characters.
pub enum CommandArgView {
    Text(Seq<char>),
    Executable,
}

/// A program and its arguments, their texts seen as sequences of characters.
pub struct CommandLineView {
    pub program: Seq<char>,
    pub args: Seq<CommandArgView>,
}

impl View for CommandArg {
    type V = CommandArgView;

    open spec fn view(&self) -> CommandArgView {
        match *self {
            CommandArg::Text(text) => CommandArgView::Text(text@),
            CommandArg::Executable => CommandArgView::Executable,
        }
    }
}

impl View for CommandLine {
    type V = CommandLineView;

    open spec fn view(&self) -> CommandLineView {
        CommandLineView {
            program: self.program@,
            args: self.args@.map_values(|arg: CommandArg| arg@),
        }
    }
}

/// Texts as arguments.
pub open spec fn text_args(words: Seq<Seq<char>>) -> Seq<CommandArgView> {
    words.map_values(|word: Seq<char>| CommandArgView::Text(word))
}

/// A program with texts as its arguments.
pub open spec fn plain_command(program: Seq<char>, words: Seq<Seq<char>>) -> CommandLineView {
    CommandLineView { program, args: text_args(words) }
}

/// `ssh`, which has a shell on the peer read `command`.
pub open spec fn ssh_command(peer: Seq<char>, command: Seq<char>) -> CommandLineView {
    plain_command("ssh"@, seq![peer, command])
}

impl CommandLine {
    /// The program without arguments.
    fn new(program: &str) -> (command: CommandLine)
        ensures
            command@ == plain_command(program@, Seq::empty()),
    {
        let command = CommandLine { program: program.to_owned(), args: Vec::new() };
        assert(command@.args =~= text_args(Seq::empty()));
        command
    }

    /// Puts an argument behind the others.
    fn push(&mut self, arg: CommandArg)
        ensures
            final(self)@ == (CommandLineView {
                program: old(self)@.program,
                args: old(self)@.args.push(arg@),
            }),
    {
        let ghost before = self.args@;
        self.args.push(arg);
        assert(self@.args =~= before.map_values(|arg: CommandArg| arg@).push(arg@));
    }

    /// Puts a text behind the other arguments.
    fn arg(&mut self, text: &str)
        ensures
            final(self)@ == (CommandLineView {
                program: old(self)@.program,
                args: old(self)@.args.push(CommandArgView::Text(text@)),
            }),
    {
        self.push(CommandArg::Text(text.to_owned()));
    }

    /// Puts texts behind the other arguments.
    fn append(&mut self, texts: &[String])
        ensures
            final(self)@ == (CommandLineView {
                program: old(self)@.program,
                args: old(self)@.args + text_args(text::texts(texts@)),
            }),
    {
        let ghost before = self@;
        let ghost words = text::texts(texts@);
        let mut i: usize = 0;
        assert(before.args + text_args(words.take(0)) =~= before.args);
        while i < texts.len()
            invariant
                i <= texts@.len(),
                words == text::texts(texts@),
                self@.program == before.program,
                self@.args == before.args + text_args(words.take(i as int)),
            decreases texts@.len() - i,
        {
            self.arg(texts[i].as_str());
            assert(before.args + text_args(words.take(i + 1)) =~= (before.args + text_args(
                words.take(i as int),
            )).push(CommandArgView::Text(words[i as int])));
            i = i + 1;
        }
        assert(words.take(words.len() as int) == words);
    }
}

/// `ssh`, which has a shell on the peer read `command`.
fn ssh(peer: &str, command: &str) -> (line: CommandLine)
    ensures
        line@ == ssh_command(peer@, command@),
{
    let mut line = CommandLine::new("ssh");
    line.arg(peer);
    line.arg(command);
    assert(line@.args =~= text_args(seq![peer@, command@]));
    line
}

/// The command that makes a directory on the peer.
pub open spec fn make_directory_command(peer: Seq<char>, remote_dir: Seq<char>) -> CommandLineView {
    ssh_command(peer, "mkdir -p "@ + shell::quoted(remote_dir))
}

/// The command that makes a directory on the peer.
pub fn make_directory(peer: &str, remote_dir: &str) -> (line: CommandLine)
    ensures
        line@ == make_directory_command(peer@, remote_dir@),
{
    let mut command = "mkdir -p ".to_owned();
    command.append(shell::shell_quote(remote_dir).as_str());
    ssh(peer, command.as_str())
}

/// The command that copies the running executable to the peer.
pub open spec fn copy_executable_command(
    peer: Seq<char>,
    remote_executable: Seq<char>,
) -> CommandLineView {
    CommandLineView {
        program: "scp"@,
        args: seq![
            CommandArgView::Executable,
            CommandArgView::Text(peer + seq![':'] + remote_executable),
        ],
    }
}

/// The command that copies the running executable to the peer.
pub fn copy_executable(peer: &str, remote_executable: &str) -> (line: CommandLine)
    ensures
        line@ == copy_executable_command(peer@, remote_executable@),
{
    let mut target = peer.to_owned();
    target.push(':');
    target.append(remote_executable);
    assert(target@ =~= peer@ + seq![':'] + remote_executable@);
    let mut line = CommandLine::new("scp");
    line.push(CommandArg::Executable);
    line.arg(target.as_str());
    assert(line@.args =~= seq![CommandArgView::Executable, CommandArgView::Text(target@)]);
    line
}

/// The command that lets everybody run a file on the peer.
pub open spec fn allow_execution_command(
    peer: Seq<char>,
    remote_executable: Seq<char>,
) -> CommandLineView {
    ssh_command(peer, "chmod 755 "@ + shell::quoted(remote_executable))
}

/// The command that lets everybody run a file on the peer.
pub fn allow_execution(peer: &str, remote_executable: &str) -> (line: CommandLine)
    ensures
        line@ == allow_execution_command(peer@, remote_executable@),
{
    let mut command = "chmod 755 ".to_owned();
    command.append(shell::shell_quote(remote_executable).as_str());
    ssh(peer, command.as_str())
}

/// The steps that bring the executable to the peer, in their order.
#[derive(Clone, Copy, Debug, PartialEq, Eq, Structural)]
pub enum DeployStep {
    MakeDirectory,
    CopyExecutable,
    AllowExecution,
}

/// The command of a step that brings the executable to the peer.
pub open spec fn deploy_command(
    step: DeployStep,
    peer: Seq<char>,
    remote_dir: Seq<char>,
    remote_executable: Seq<char>,
) -> CommandLineView {
    match step {
        DeployStep::MakeDirectory => make_directory_command(peer, remote_dir),
        DeployStep::CopyExecutable => copy_executable_command(peer, remote_executable),
        DeployStep::AllowExecution => allow_execution_command(peer, remote_executable),
    }
}

/// The command of a step that brings the executable to the peer.
pub fn deploy(step: DeployStep, peer: &str, remote_dir: &str, remote_executable: &str) -> (line:
    CommandLine)
    ensures
        line@ == deploy_command(step, peer@, remote_dir@, remote_executable@),
{
    match step {
        DeployStep::MakeDirectory => make_directory(peer, remote_dir),
        DeployStep::CopyExecutable => copy_executable(peer, remote_executable),
        DeployStep::AllowExecution => allow_execution(peer, remote_executable),
    }
}

/// Puts the arguments of an endpoint behind those of a command.
pub fn append_endpoint_args(command: &mut CommandLine, args: &EndpointArgs)
    ensures
        final(command)@ == (CommandLineView {
            program: old(command)@.program,
            args: old(command)@.args + text_args(endpoint::endpoint_values(args@)),
        }),
{
    let mut values: Vec<String> = Vec::new();
    endpoint::append_endpoint_values(&mut values, args);
    assert(text::texts(values@) =~= endpoint::endpoint_values(args@));
    command.append(values.as_slice());
}

/// The command that serves the tunnel on this host: the running executable, with
/// privileges that need no password.
pub open spec fn local_endpoint_command(args: endpoint::EndpointArgsView) -> CommandLineView {
    CommandLineView {
        program: "sudo"@,
        args: seq![
            CommandArgView::Text("-n"@),
            CommandArgView::Executable,
            CommandArgView::Text("endpoint"@),
        ] + text_args(endpoint::endpoint_values(args)),
    }
}

/// The command that serves the tunnel on this host.
pub fn spawn_local_endpoint(args: &EndpointArgs) -> (line: CommandLine)
    ensures
        line@ == local_endpoint_command(args@),
{
    let mut line = CommandLine::new("sudo");
    line.arg("-n");
    line.push(CommandArg::Executable);
    line.arg("endpoint");
    assert(line@.args =~= seq![
        CommandArgView::Text("-n"@),
        CommandArgView::Executable,
        CommandArgView::Text("endpoint"@),
    ]);
    append_endpoint_args(&mut line, args);
    line
}

/// The words of the endpoint's program on the peer, behind `sudo -n`.
pub open spec fn remote_endpoint_words(
    executable: Seq<char>,
    args: endpoint::EndpointArgsView,
) -> Seq<Seq<char>> {
    seq![executable, "endpoint"@] + endpoint::endpoint_values(args)
}

/// The command that serves the tunnel on the peer: the deployed executable, with
/// privileges that need no password.
pub open spec fn remote_endpoint_command(
    peer: Seq<char>,
    executable: Seq<char>,
    args: endpoint::EndpointArgsView,
) -> CommandLineView {
    ssh_command(
        peer,
        "sudo -n "@ + shell::command_text(remote_endpoint_words(executable, args)),
    )
}

/// The command that serves the tunnel on the peer.
pub fn spawn_remote_endpoint(peer: &str, executable: &str, args: &EndpointArgs) -> (line:
    CommandLine)
    ensures
        line@ == remote_endpoint_command(peer@, executable@, args@),
{
    let mut endpoint_args: Vec<String> = Vec::new();
    endpoint_args.push("endpoint".to_owned());
    assert(text::texts(endpoint_args@) =~= seq!["endpoint"@]);
    endpoint::append_endpoint_values(&mut endpoint_args, args);
    let mut remote = "sudo -n ".to_owned();
    remote.append(shell::remote_command(executable, endpoint_args.as_slice()).as_str());
    assert(seq![executable@] + text::texts(endpoint_args@) =~= remote_endpoint_words(
        executable@,
        args@,
    ));
    ssh(peer, remote.as_str())
}

/// The command that answers the measurement on this host.
pub open spec fn iperf_server_command(bind: Ipv4Addr, port: u16) -> CommandLineView {
    plain_command(
        "iperf3"@,
        seq![
            "--server"@,
            "--bind"@,
            address::ipv4_text(bind),
            "--port"@,
            numeral::decimal(port as int),
        ],
    )
}

/// The command that answers the measurement on this host.
pub fn iperf_server(bind: &Ipv4Addr, port: u16) -> (line: CommandLine)
    ensures
        line@ == iperf_server_command(*bind, port),
{
    let mut line = CommandLine::new("iperf3");
    line.arg("--server");
    line.arg("--bind");
    line.arg(bind.to_text().as_str());
    line.arg("--port");
    line.arg(numeral::decimal_text(port as u64).as_str());
    assert(line@.args =~= iperf_server_command(*bind, port).args);
    line
}

/// The words that measure the tunnel from the peer.
pub open spec fn iperf_client_words(server: Ipv4Addr, port: u16, duration: u64) -> Seq<Seq<char>> {
    seq![
        "iperf3"@,
        "--client"@,
        address::ipv4_text(server),
        "--port"@,
        numeral::decimal(port as int),
        "--time"@,
        numeral::decimal(duration as int),
        "--json"@,
    ]
}

/// The command that measures the tunnel from the peer.
pub open spec fn iperf_client_command(
    peer: Seq<char>,
    server: Ipv4Addr,
    port: u16,
    duration: u64,
) -> CommandLineView {
    ssh_command(peer, shell::command_text(iperf_client_words(server, port, duration)))
}

/// The command that measures the tunnel from the peer.
pub fn iperf_client(peer: &str, server: &Ipv4Addr, port: u16, duration: u64) -> (line: CommandLine)
    ensures
        line@ == iperf_client_command(peer@, *server, port, duration),
{
    let mut args: Vec<String> = Vec::new();
    args.push("--client".to_owned());
    args.push(server.to_text());
    args.push("--port".to_owned());
    args.push(numeral::decimal_text(port as u64));
    args.push("--time".to_owned());
    args.push(numeral::decimal_text(duration));
    args.push("--json".to_owned());
    let command = shell::remote_command("iperf3", args.as_slice());
    assert(seq!["iperf3"@] + text::texts(args@) =~= iperf_client_words(*server, port, duration));
    ssh(peer, command.as_str())
}

/// The words that ask for one answer through the tunnel within a second.
pub open spec fn probe_words(destination: Ipv4Addr) -> Seq<Seq<char>> {
    seq!["ping"@, "-c"@, "1"@, "-W"@, "1"@, address::ipv4_text(destination)]
}

/// The command by which the peer asks for one answer through the tunnel.
pub open spec fn probe_command(peer: Seq<char>, destination: Ipv4Addr) -> CommandLineView {
    ssh_command(peer, shell::command_text(probe_words(destination)))
}

/// The command by which the peer asks for one answer through the tunnel.
pub fn tunnel_probe(peer: &str, destination: &Ipv4Addr) -> (line: CommandLine)
    ensures
        line@ == probe_command(peer@, *destination),
{
    let mut args: Vec<String> = Vec::new();
    args.push("-c".to_owned());
    args.push("1".to_owned());
    args.push("-W".to_owned());
    args.push("1".to_owned());
    args.push(destination.to_text());
    let command = shell::remote_command("ping", args.as_slice());
    assert(seq!["ping"@] + text::texts(args@) =~= probe_words(*destination));
    ssh(peer, command.as_str())
}

/// The words that interrupt a process, with privileges that need no password.
pub open spec fn interrupt_words(pid: u32) -> Seq<Seq<char>> {
    seq!["sudo"@, "-n"@, "kill"@, "-INT"@, numeral::decimal(pid as int)]
}

/// The command that interrupts an endpoint, on the peer where one is given, otherwise on
/// this host.
pub open spec fn stop_command(peer: Option<Seq<char>>, pid: u32) -> CommandLineView {
    match peer {
        Some(peer) => ssh_command(peer, shell::command_text(interrupt_words(pid))),
        None => plain_command("sudo"@, interrupt_words(pid).skip(1)),
    }
}

/// A reference to a text as a contract sees it.
pub open spec fn optional_text(text: Option<&str>) -> Option<Seq<char>> {
    match text {
        Some(text) => Some(text@),
        None => None,
    }
}

/// The command that interrupts an endpoint, on the peer where one is given, otherwise on
/// this host.
pub fn stop_endpoint(peer: Option<&str>, pid: u32) -> (line: CommandLine)
    ensures
        line@ == stop_command(optional_text(peer), pid),
{
    let mut args: Vec<String> = Vec::new();
    args.push("-n".to_owned());
    args.push("kill".to_owned());
    args.push("-INT".to_owned());
    args.push(numeral::decimal_text(pid as u64));
    assert(text::texts(args@) =~= interrupt_words(pid).skip(1));
    match peer {
        Some(peer) => {
            let command = shell::remote_command("sudo", args.as_slice());
            assert(seq!["sudo"@] + text::texts(args@) =~= interrupt_words(pid));
            ssh(peer, command.as_str())
        },
        None => {
            let mut line = CommandLine::new("sudo");
            line.append(args.as_slice());
            assert(line@.args =~= text_args(interrupt_words(pid).skip(1)));
            line
        },
    }
}

/// The command that gives the tunnel interface its address.
pub open spec fn address_command(address: Ipv4Addr, interface: Seq<char>) -> CommandLineView {
    plain_command(
        "ip"@,
        seq!["address"@, "replace"@, address::ipv4_text(address) + "/24"@, "dev"@, interface],
    )
}

/// The command that gives the tunnel interface its address.
pub fn set_address(address: &Ipv4Addr, interface: &str) -> (line: CommandLine)
    ensures
        line@ == address_command(*address, interface@),
{
    let mut network = address.to_text();
    network.append("/24");
    let mut line = CommandLine::new("ip");
    line.arg("address");
    line.arg("replace");
    line.arg(network.as_str());
    line.arg("dev");
    line.arg(interface);
    assert(line@.args =~= address_command(*address, interface@).args);
    line
}

/// The command that gives the tunnel interface its MTU and turns it on.
pub open spec fn link_command(interface: Seq<char>, mtu: u16) -> CommandLineView {
    plain_command(
        "ip"@,
        seq![
            "link"@,
            "set"@,
            "dev"@,
            interface,
            "mtu"@,
            numeral::decimal(mtu as int),
            "up"@,
        ],
    )
}

/// The command that gives the tunnel interface its MTU and turns it on.
pub fn set_link_up(interface: &str, mtu: u16) -> (line: CommandLine)
    ensures
        line@ == link_command(interface@, mtu),
{
    let mut line = CommandLine::new("ip");
    line.arg("link");
    line.arg("set");
    line.arg("dev");
    line.arg(interface);
    line.arg("mtu");
    line.arg(numeral::decimal_text(mtu as u64).as_str());
    line.arg("up");
    assert(line@.args =~= link_command(interface@, mtu).args);
    line
}

/// What the shell on the peer makes of the words in front of a quoted command.
proof fn lemma_plain_prefixes()
    ensures
        ({
            let end = shell::Reading::start().after("sudo -n "@);
            end.mode is Bare && end.word is None && end.words == seq!["sudo"@, "-n"@]
        }),
        ({
            let end = shell::Reading::start().after("mkdir -p "@);
            end.mode is Bare && end.word is None && end.words == seq!["mkdir"@, "-p"@]
        }),
        ({
            let end = shell::Reading::start().after("chmod 755 "@);
            end.mode is Bare && end.word is None && end.words == seq!["chmod"@, "755"@]
        }),
{
    reveal_strlit("sudo -n ");
    reveal_strlit("sudo");
    reveal_strlit("-n");
    reveal_strlit("mkdir -p ");
    reveal_strlit("mkdir");
    reveal_strlit("-p");
    reveal_strlit("chmod 755 ");
    reveal_strlit("chmod");
    reveal_strlit("755");
    shell::lemma_reads_two_plain_words("sudo"@, "-n"@);
    shell::lemma_reads_two_plain_words("mkdir"@, "-p"@);
    shell::lemma_reads_two_plain_words("chmod"@, "755"@);
    assert("sudo -n "@ =~= "sudo"@ + seq![' '] + "-n"@ + seq![' ']);
    assert("mkdir -p "@ =~= "mkdir"@ + seq![' '] + "-p"@ + seq![' ']);
    assert("chmod 755 "@ =~= "chmod"@ + seq![' '] + "755"@ + seq![' ']);
}

/// A single quoted word is a command of one word.
proof fn lemma_quoted_is_command(word: Seq<char>)
    ensures
        shell::quoted(word) == shell::command_text(seq![word]),
{
    let parts = seq![word].map_values(|w: Seq<char>| shell::quoted(w));
    assert(parts[0] == shell::quoted(word));
}

/// The shell on the peer runs the deployed executable under `sudo -n`, with exactly the
/// arguments of the endpoint, whatever characters the path and the arguments hold.
pub proof fn peer_serves_with_exact_arguments(
    executable: Seq<char>,
    args: endpoint::EndpointArgsView,
)
    ensures
        shell::shell_words(
            "sudo -n "@ + shell::command_text(remote_endpoint_words(executable, args)),
        ) == Some(seq!["sudo"@, "-n"@] + remote_endpoint_words(executable, args)),
{
    lemma_plain_prefixes();
    shell::shell_reads_prefixed_command("sudo -n "@, remote_endpoint_words(executable, args));
}

/// The shell on the peer makes exactly the directory that was asked for, and changes
/// exactly the file that was asked for, whatever characters the paths hold.
pub proof fn peer_deploys_exact_paths(remote_dir: Seq<char>, remote_executable: Seq<char>)
    ensures
        shell::shell_words("mkdir -p "@ + shell::quoted(remote_dir)) == Some(
            seq!["mkdir"@, "-p"@, remote_dir],
        ),
        shell::shell_words("chmod 755 "@ + shell::quoted(remote_executable)) == Some(
            seq!["chmod"@, "755"@, remote_executable],
        ),
{
    lemma_plain_prefixes();
    lemma_quoted_is_command(remote_dir);
    lemma_quoted_is_command(remote_executable);
    shell::shell_reads_prefixed_command("mkdir -p "@, seq![remote_dir]);
    shell::shell_reads_prefixed_command("chmod 755 "@, seq![remote_executable]);
    assert(seq!["mkdir"@, "-p"@] + seq![remote_dir] =~= seq!["mkdir"@, "-p"@, remote_dir]);
    assert(seq!["chmod"@, "755"@] + seq![remote_executable] =~= seq![
        "chmod"@,
        "755"@,
        remote_executable,
    ]);
}

/// The words that a shell on the peer reads, where the command is `ssh` to that peer with
/// one text for its shell.
pub open spec fn words_on_peer(line: CommandLineView, peer: Seq<char>) -> Option<Seq<Seq<char>>> {
    if line.program == "ssh"@ && line.args.len() == 2 && line.args[0] == CommandArgView::Text(
        peer,
    ) {
        match line.args[1] {
            CommandArgView::Text(command) => shell::shell_words(command),
            CommandArgView::Executable => None,
        }
    } else {
        None
    }
}

/// The words of a command on this host, where all its arguments are texts.
pub open spec fn words_here(line: CommandLineView) -> Option<Seq<Seq<char>>> {
    if forall|i: int| 0 <= i < line.args.len() ==> #[trigger] line.args[i] is Text {
        Some(
            seq![line.program] + Seq::new(line.args.len(), |i: int| line.args[i]->Text_0),
        )
    } else {
        None
    }
}

/// The word behind the first one that is this flag.
pub open spec fn word_behind(words: Seq<Seq<char>>, flag: Seq<char>) -> Option<Seq<char>>
    decreases words.len(),
{
    if words.len() < 2 {
        None
    } else if words[0] == flag {
        Some(words[1])
    } else {
        word_behind(words.drop_first(), flag)
    }
}

/// A command of texts has these texts as its words.
proof fn lemma_words_here(program: Seq<char>, words: Seq<Seq<char>>)
    ensures
        words_here(plain_command(program, words)) == Some(seq![program] + words),
{
    let line = plain_command(program, words);
    assert forall|i: int| 0 <= i < line.args.len() implies #[trigger] line.args[i] is Text by {}
    assert(Seq::new(line.args.len(), |i: int| line.args[i]->Text_0) =~= words);
}

/// A shell on the peer reads the words that a command for it was made of.
proof fn lemma_words_on_peer(peer: Seq<char>, words: Seq<Seq<char>>)
    requires
        words.len() > 0,
    ensures
        words_on_peer(ssh_command(peer, shell::command_text(words)), peer) == Some(words),
{
    shell::shell_reads_remote_command(words[0], words.drop_first());
    assert(seq![words[0]] + words.drop_first() =~= words);
}

/// The executable is deployed in three commands. A shell on the peer makes the directory,
/// with what is above it; `scp` brings the running executable to the path on the peer, and
/// a shell on the peer lets everybody read and run what is at that path.
pub proof fn deployment_brings_the_executable(
    peer: Seq<char>,
    remote_dir: Seq<char>,
    remote_executable: Seq<char>,
)
    ensures
        words_on_peer(
            deploy_command(DeployStep::MakeDirectory, peer, remote_dir, remote_executable),
            peer,
        ) == Some(seq!["mkdir"@, "-p"@, remote_dir]),
        words_on_peer(
            deploy_command(DeployStep::AllowExecution, peer, remote_dir, remote_executable),
            peer,
        ) == Some(seq!["chmod"@, "755"@, remote_executable]),
        ({
            let line = deploy_command(
                DeployStep::CopyExecutable,
                peer,
                remote_dir,
                remote_executable,
            );
            &&& line.program == "scp"@
            &&& line.args.len() == 2
            &&& line.args[0] is Executable
            &&& line.args[1] matches CommandArgView::Text(target) && target.len() == peer.len() + 1
                + remote_executable.len() && target.take(peer.len() as int) == peer
                && target[peer.len() as int] == ':' && target.skip(peer.len() as int + 1)
                == remote_executable
        }),
{
    peer_deploys_exact_paths(remote_dir, remote_executable);
    let target = peer + seq![':'] + remote_executable;
    assert(target.take(peer.len() as int) =~= peer);
    assert(target.skip(peer.len() as int + 1) =~= remote_executable);
}

/// An endpoint is served under `sudo -n`, with `endpoint` and then its own arguments: on
/// this host by the running executable, on the peer by the executable that is named.
pub proof fn endpoints_are_served_with_their_arguments(
    peer: Seq<char>,
    executable: Seq<char>,
    args: endpoint::EndpointArgsView,
)
    ensures
        ({
            let line = local_endpoint_command(args);
            let values = endpoint::endpoint_values(args);
            &&& line.program == "sudo"@
            &&& line.args.len() == 3 + values.len()
            &&& line.args[0] == CommandArgView::Text("-n"@)
            &&& line.args[1] is Executable
            &&& line.args[2] == CommandArgView::Text("endpoint"@)
            &&& forall|i: int|
                0 <= i < values.len() ==> line.args[3 + i] == CommandArgView::Text(
                    #[trigger] values[i],
                )
        }),
        words_on_peer(remote_endpoint_command(peer, executable, args), peer) == Some(
            seq!["sudo"@, "-n"@, executable, "endpoint"@] + endpoint::endpoint_values(args),
        ),
{
    peer_serves_with_exact_arguments(executable, args);
    assert(seq!["sudo"@, "-n"@] + remote_endpoint_words(executable, args) =~= seq![
        "sudo"@,
        "-n"@,
        executable,
        "endpoint"@,
    ] + endpoint::endpoint_values(args));
}

/// The server listens at the address and on the port that it is given, and a shell on the
/// peer has the client measure against the address, on the port and for the time that it is
/// given, and tell the result as JSON.
pub proof fn measurement_is_made_as_asked(
    peer: Seq<char>,
    server: Ipv4Addr,
    port: u16,
    duration: u64,
)
    ensures
        ({
            let client = words_on_peer(iperf_client_command(peer, server, port, duration), peer);
            &&& client matches Some(words) && words.len() == 8 && words[0] == "iperf3"@ && words[1]
                == "--client"@ && words[3] == "--port"@ && words[5] == "--time"@ && words[7]
                == "--json"@ && address::ipv4_read(words[2]) == Some(server)
                && numeral::is_numeral_of(words[4], port as int) && numeral::number_read(
                words[4],
                u16::MAX as int,
            ) == Ok::<int, numeral::NumberError>(port as int) && numeral::is_numeral_of(
                words[6],
                duration as int,
            ) && numeral::number_read(words[6], u64::MAX as int) == Ok::<int, numeral::NumberError>(
                duration as int,
            )
        }),
        ({
            let here = words_here(iperf_server_command(server, port));
            &&& here matches Some(words) && words.len() == 6 && words[0] == "iperf3"@ && words[1]
                == "--server"@ && words[2] == "--bind"@ && words[4] == "--port"@
                && address::ipv4_read(words[3]) == Some(server) && numeral::is_numeral_of(
                words[5],
                port as int,
            ) && numeral::number_read(words[5], u16::MAX as int) == Ok::<int, numeral::NumberError>(
                port as int,
            )
        }),
{
    let words = iperf_client_words(server, port, duration);
    lemma_words_on_peer(peer, words);
    let here = seq![
        "--server"@,
        "--bind"@,
        address::ipv4_text(server),
        "--port"@,
        numeral::decimal(port as int),
    ];
    lemma_words_here("iperf3"@, here);
    address::ipv4_text_reads_back(server);
    numeral::decimal_is_the_only_numeral(numeral::decimal(port as int), port as int);
    numeral::decimal_is_the_only_numeral(numeral::decimal(duration as int), duration as int);
    numeral::decimal_reads_back(port as int, u16::MAX as int);
    numeral::decimal_reads_back(duration as int, u64::MAX as int);
}

/// A client that is given the address and the port of a server connects to where the server
/// listens: the word behind `--client` is the word behind `--bind`, and the words behind
/// `--port` are the same.
pub proof fn client_connects_to_the_server(
    peer: Seq<char>,
    server: Ipv4Addr,
    port: u16,
    duration: u64,
)
    ensures
        ({
            let client = words_on_peer(
                iperf_client_command(peer, server, port, duration),
                peer,
            ).unwrap();
            let here = words_here(iperf_server_command(server, port)).unwrap();
            &&& word_behind(client, "--client"@) is Some
            &&& word_behind(client, "--client"@) == word_behind(here, "--bind"@)
            &&& word_behind(client, "--port"@) is Some
            &&& word_behind(client, "--port"@) == word_behind(here, "--port"@)
        }),
{
    measurement_is_made_as_asked(peer, server, port, duration);
    let client = words_on_peer(iperf_client_command(peer, server, port, duration), peer).unwrap();
    let here = words_here(iperf_server_command(server, port)).unwrap();
    address::ipv4_addresses_have_one_text(client[2], server);
    address::ipv4_addresses_have_one_text(here[3], server);
    address::lemma_ipv4_text_lacks(server, '-');
    numeral::decimal_is_the_only_numeral(client[4], port as int);
    numeral::decimal_is_the_only_numeral(here[5], port as int);
    reveal_strlit("iperf3");
    reveal_strlit("--client");
    reveal_strlit("--server");
    reveal_strlit("--bind");
    reveal_strlit("--port");
    assert("iperf3"@[0] == 'i');
    assert("--client"@[0] == '-' && "--client"@.len() == 8);
    assert("--server"@[0] == '-' && "--server"@.len() == 8 && "--server"@[2] == 's');
    assert("--bind"@[0] == '-' && "--bind"@.len() == 6 && "--bind"@[2] == 'b');
    assert("--port"@[0] == '-' && "--port"@.len() == 6 && "--port"@[2] == 'p');
    assert(address::ipv4_text(server) != "--port"@) by {
        if address::ipv4_text(server) == "--port"@ {
            assert(address::ipv4_text(server)[0] == '-');
        }
    }
    reveal_with_fuel(word_behind, 6);
    assert(client.drop_first()[0] == client[1] && client.drop_first()[1] == client[2]);
    assert(client.drop_first().drop_first()[0] == client[2]);
    assert(client.drop_first().drop_first().drop_first()[0] == client[3]
        && client.drop_first().drop_first().drop_first()[1] == client[4]);
    assert(here.drop_first()[0] == here[1]);
    assert(here.drop_first().drop_first()[0] == here[2] && here.drop_first().drop_first()[1]
        == here[3]);
    assert(here.drop_first().drop_first().drop_first()[0] == here[3]);
    assert(here.drop_first().drop_first().drop_first().drop_first()[0] == here[4]
        && here.drop_first().drop_first().drop_first().drop_first()[1] == here[5]);
}

/// A shell on the peer asks the address that it is given for one answer within a second.
pub proof fn peer_asks_for_one_answer(peer: Seq<char>, destination: Ipv4Addr)
    ensures
        words_on_peer(probe_command(peer, destination), peer) matches Some(words) && words.len()
            == 6 && words[0] == "ping"@ && words[1] == "-c"@ && words[2] == "1"@ && words[3]
            == "-W"@ && words[4] == "1"@ && address::ipv4_read(words[5]) == Some(destination),
{
    lemma_words_on_peer(peer, probe_words(destination));
    address::ipv4_text_reads_back(destination);
}

/// The process that is given, and no other, is interrupted under `sudo -n`: on the peer
/// where one is given, otherwise on this host, with the same words.
pub proof fn given_process_is_interrupted(peer: Seq<char>, pid: u32)
    ensures
        words_here(stop_command(None, pid)) == words_on_peer(stop_command(Some(peer), pid), peer),
        words_here(stop_command(None, pid)) matches Some(words) && words.len() == 5 && words[0]
            == "sudo"@ && words[1] == "-n"@ && words[2] == "kill"@ && words[3] == "-INT"@
            && numeral::is_numeral_of(words[4], pid as int),
{
    let words = interrupt_words(pid);
    lemma_words_on_peer(peer, words);
    lemma_words_here("sudo"@, words.skip(1));
    assert(seq!["sudo"@] + words.skip(1) =~= words);
    numeral::decimal_is_the_only_numeral(numeral::decimal(pid as int), pid as int);
}

/// The interface that is given gets the address that is given, in its network of twenty-four
/// bits: the word for it is the text of the address, a slash and the length.
pub proof fn interface_gets_the_given_address(address: Ipv4Addr, interface: Seq<char>)
    ensures
        words_here(address_command(address, interface)) matches Some(words) && words.len() == 6
            && words[0] == "ip"@ && words[1] == "address"@ && words[2] == "replace"@ && words[4]
            == "dev"@ && words[5] == interface && {
            let fields = text::split(words[3], '/');
            &&& fields.len() == 2
            &&& address::ipv4_read(fields[0]) == Some(address)
            &&& numeral::is_numeral_of(fields[1], 24)
        },
{
    let network = address::ipv4_text(address) + "/24"@;
    lemma_words_here("ip"@, seq!["address"@, "replace"@, network, "dev"@, interface]);
    reveal_strlit("/24");
    reveal_with_fuel(numeral::numeral, 3);
    assert(numeral::decimal(24) =~= seq!['2', '4']);
    numeral::decimal_is_the_only_numeral(numeral::decimal(24), 24);
    numeral::lemma_numeral_lacks(24, 10, '/');
    address::lemma_ipv4_text_lacks(address, '/');
    address::ipv4_text_reads_back(address);
    let fields = seq![address::ipv4_text(address), numeral::decimal(24)];
    text::split_undoes_joined(fields, '/');
    text::joined_grows_by_a_part(seq![fields[0]], fields[1], seq!['/']);
    text::joined_grows_by_a_part(Seq::empty(), fields[0], seq!['/']);
    assert(seq![fields[0]].push(fields[1]) =~= fields);
    assert(text::joined(fields, seq!['/']) =~= network);
}

/// The interface that is given gets the MTU that is given, and is turned on.
pub proof fn interface_gets_the_given_mtu(interface: Seq<char>, mtu: u16)
    ensures
        words_here(link_command(interface, mtu)) matches Some(words) && words.len() == 8 && words[0]
            == "ip"@ && words[1] == "link"@ && words[2] == "set"@ && words[3] == "dev"@ && words[4]
            == interface && words[5] == "mtu"@ && words[7] == "up"@ && numeral::is_numeral_of(
            words[6],
            mtu as int,
        ) && numeral::number_read(words[6], u16::MAX as int) == Ok::<int, numeral::NumberError>(
            mtu as int,
        ),
{
    let word = numeral::decimal(mtu as int);
    lemma_words_here("ip"@, seq!["link"@, "set"@, "dev"@, interface, "mtu"@, word, "up"@]);
    numeral::decimal_is_the_only_numeral(word, mtu as int);
    numeral::decimal_reads_back(mtu as int, u16::MAX as int);
}

/// A command is seen as its program and its arguments in their order, texts as they are.
pub proof fn commands_are_seen_as_they_are(line: CommandLine, text: String, peer: &str, i: int)
    ensures
        line@.program == line.program@,
        line@.args.len() == line.args@.len(),
        0 <= i < line.args@.len() ==> line@.args[i] == line.args@[i]@,
        CommandArg::Text(text)@ == CommandArgView::Text(text@),
        CommandArg::Executable@ is Executable,
        optional_text(Some(peer)) == Some(peer@),
        optional_text(None) is None,
{
}

} // verus!
