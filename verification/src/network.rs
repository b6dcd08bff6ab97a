//! How a container is connected.
use vstd::prelude::*;
use vstd::string::*;

use crate::error::{RunError, RunErrorView};
use crate::etc::dns_value;
use crate::number::{decimal, parse_i32, parsed_i32};
use crate::options::{port_text, NetworkMode, PortSpec, PortView};
use crate::text::{same_text, texts, trim, trim_text, views};

verus! {

// ---------------------------------------------------------------------------------------
// The mode

/// How a container is connected when the user does not say.
pub open spec fn default_network(rootless: bool) -> NetworkMode {
    if rootless {
        NetworkMode::Pasta
    } else {
        NetworkMode::Bridge
    }
}

/// How a container is connected. Pasta is for ordinary users only, the bridge for root only.
pub open spec fn network_mode_value(requested: Option<NetworkMode>, rootless: bool) -> Result<
    NetworkMode,
    RunErrorView,
> {
    let mode = match requested {
        Some(mode) => mode,
        None => default_network(rootless),
    };
    if !rootless && mode == NetworkMode::Pasta {
        Err(RunErrorView::PastaNeedsRootless)
    } else if rootless && mode == NetworkMode::Bridge {
        Err(RunErrorView::BridgeNeedsRootful)
    } else {
        Ok(mode)
    }
}

/// How a container is connected.
pub fn network_mode(requested: Option<NetworkMode>, rootless: bool) -> (r: Result<
    NetworkMode,
    RunError,
>)
    ensures
        match r {
            Ok(mode) => network_mode_value(requested, rootless) == Ok::<NetworkMode, RunErrorView>(
                mode,
            ),
            Err(e) => network_mode_value(requested, rootless) == Err::<NetworkMode, RunErrorView>(
                e@,
            ),
        },
{
    let mode = match requested {
        Some(mode) => mode,
        None => if rootless {
            NetworkMode::Pasta
        } else {
            NetworkMode::Bridge
        },
    };
    if !rootless && mode == NetworkMode::Pasta {
        Err(RunError::PastaNeedsRootless)
    } else if rootless && mode == NetworkMode::Bridge {
        Err(RunError::BridgeNeedsRootful)
    } else {
        Ok(mode)
    }
}

/// Law: who does not ask for a network gets one that is allowed.
pub proof fn law_default_network_is_allowed(rootless: bool)
    ensures
        network_mode_value(None, rootless) == Ok::<NetworkMode, RunErrorView>(
            default_network(rootless),
        ),
{
}

/// Law: the host's network and a private one are open to everybody; of the other two, each
/// user can have exactly one.
pub proof fn law_who_may_have_which_network(mode: NetworkMode, rootless: bool)
    ensures
        network_mode_value(Some(mode), rootless) is Ok <==> mode == NetworkMode::Host || mode
            == NetworkMode::Private || mode == default_network(rootless),
{
}

// ---------------------------------------------------------------------------------------
// The child that makes the network namespace

/// Whether a process ended by itself.
pub open spec fn ended_by_itself(status: i32) -> bool {
    status & 0x7f == 0
}

/// The code with which a process ended.
pub open spec fn exit_code(status: i32) -> i32 {
    (status >> 8) & 0xff
}

/// `libc::WIFEXITED`, which looks at the last seven bits of a wait status.
#[verifier::external_body]
fn wait_exited(status: i32) -> (r: bool)
    ensures
        r == ended_by_itself(status),
{
    libc::WIFEXITED(status)
}

/// `libc::WEXITSTATUS`, which takes the second byte out of a wait status.
#[verifier::external_body]
fn wait_exit_code(status: i32) -> (r: i32)
    ensures
        r == exit_code(status),
{
    libc::WEXITSTATUS(status)
}

/// Whether the child that was to make the network namespace has done so, by the status that
/// it left.
pub fn netns_created(status: i32) -> (r: Result<(), RunError>)
    ensures
        r is Ok <==> ended_by_itself(status) && exit_code(status) == 0,
        r matches Err(e) ==> e@ == RunErrorView::NetnsFailed,
{
    if wait_exited(status) && wait_exit_code(status) == 0 {
        Ok(())
    } else {
        Err(RunError::NetnsFailed)
    }
}

/// Law: the code of a process that ended by itself is read back out of its wait status, which
/// holds it in the second byte and nothing in the first.
pub proof fn law_wait_status(code: i32)
    requires
        0 <= code < 256,
    ensures
        ended_by_itself(code << 8),
        exit_code(code << 8) == code,
{
    assert((code << 8) & 0x7f == 0) by (bit_vector)
        requires
            0 <= code < 256,
    ;
    assert(((code << 8) >> 8) & 0xff == code) by (bit_vector)
        requires
            0 <= code < 256,
    ;
}

// ---------------------------------------------------------------------------------------
// Pasta

/// The address at which pasta answers name queries.
pub open spec fn pasta_dns() -> Seq<char> {
    "169.254.1.1"@
}

/// The option of pasta that forwards a port of a protocol.
pub open spec fn port_option(protocol: Seq<char>) -> Seq<char> {
    if protocol == "udp"@ {
        "-u"@
    } else {
        "-t"@
    }
}

/// Each published port, behind the option for its protocol.
pub open spec fn port_arguments(publish: Seq<PortView>) -> Seq<Seq<char>>
    decreases publish.len(),
{
    if publish.len() == 0 {
        seq![]
    } else {
        port_arguments(publish.drop_last()).push(port_option(publish.last().protocol)).push(
            port_text(publish.last()),
        )
    }
}

/// The arguments of pasta. Without published ports it forwards none.
pub open spec fn pasta_arguments_value(
    netns: Seq<char>,
    pid_file: Seq<char>,
    publish: Seq<PortView>,
) -> Seq<Seq<char>> {
    seq![
        "--config-net"@,
        "--dns-forward"@,
        pasta_dns(),
        "--netns"@,
        netns,
        "--pid"@,
        pid_file,
        "--quiet"@,
    ] + if publish.len() == 0 {
        seq!["-t"@, "none"@, "-u"@, "none"@]
    } else {
        port_arguments(publish)
    }
}

/// The arguments of pasta.
pub fn pasta_arguments(netns: &str, pid_file: &str, publish: &Vec<PortSpec>) -> (r: Vec<String>)
    ensures
        texts(r@) == pasta_arguments_value(netns@, pid_file@, views(publish@)),
{
    let mut r: Vec<String> = vec![
        "--config-net".to_owned(),
        "--dns-forward".to_owned(),
        "169.254.1.1".to_owned(),
        "--netns".to_owned(),
        netns.to_owned(),
        "--pid".to_owned(),
        pid_file.to_owned(),
        "--quiet".to_owned(),
    ];
    let ghost head = texts(r@);
    let ghost all = views(publish@);
    if publish.len() == 0 {
        r.push("-t".to_owned());
        r.push("none".to_owned());
        r.push("-u".to_owned());
        r.push("none".to_owned());
        assert(texts(r@) =~= pasta_arguments_value(netns@, pid_file@, all));
        return r;
    }
    let mut i: usize = 0;
    assert(head + port_arguments(all.take(0)) =~= head);
    while i < publish.len()
        invariant
            all == views(publish@),
            i <= publish@.len(),
            texts(r@) == head + port_arguments(all.take(i as int)),
        decreases publish@.len() - i,
    {
        assert(all.take(i + 1).drop_last() =~= all.take(i as int));
        assert(all.take(i + 1).last() == publish@[i as int]@);
        let ghost before = texts(r@);
        let port = publish[i].to_text();
        let option = if same_text(publish[i].protocol.as_str(), "udp") {
            "-u"
        } else {
            "-t"
        };
        r.push(option.to_owned());
        assert(texts(r@) =~= before.push(port_option(publish@[i as int]@.protocol)));
        let ghost between = texts(r@);
        r.push(port);
        assert(texts(r@) =~= between.push(port@));
        assert(texts(r@) =~= head + port_arguments(all.take(i + 1)));
        i = i + 1;
    }
    assert(all.take(i as int) =~= all);
    assert(head =~= seq![
        "--config-net"@,
        "--dns-forward"@,
        pasta_dns(),
        "--netns"@,
        netns@,
        "--pid"@,
        pid_file@,
        "--quiet"@,
    ]);
    r
}

/// Law: where the user names no server, a container that pasta connects asks the address at
/// which pasta answers.
pub proof fn law_pasta_answers_names(
    netns: Seq<char>,
    pid_file: Seq<char>,
    publish: Seq<PortView>,
)
    ensures
        dns_value(seq![], NetworkMode::Pasta) == seq![
            pasta_arguments_value(netns, pid_file, publish)[2],
        ],
{
}

/// Law: every published port is forwarded for the protocol that was asked for, in its place.
pub proof fn law_published_ports_are_forwarded(
    netns: Seq<char>,
    pid_file: Seq<char>,
    publish: Seq<PortView>,
    i: int,
)
    requires
        0 <= i < publish.len(),
    ensures
        pasta_arguments_value(netns, pid_file, publish)[8 + 2 * i] == port_option(
            publish[i].protocol,
        ),
        pasta_arguments_value(netns, pid_file, publish)[9 + 2 * i] == port_text(publish[i]),
{
    lemma_port_arguments(publish, i);
}

proof fn lemma_port_arguments(publish: Seq<PortView>, i: int)
    requires
        0 <= i < publish.len(),
    ensures
        port_arguments(publish).len() == 2 * publish.len(),
        port_arguments(publish)[2 * i] == port_option(publish[i].protocol),
        port_arguments(publish)[2 * i + 1] == port_text(publish[i]),
    decreases publish.len(),
{
    let front = publish.drop_last();
    if front.len() > 0 {
        if i < front.len() {
            lemma_port_arguments(front, i);
        } else {
            lemma_port_arguments(front, 0);
        }
    } else {
        assert(port_arguments(front).len() == 0);
    }
}

/// Whether pasta has started, by its exit status and what it wrote to its error output.
pub fn pasta_started(success: bool, stderr: &str) -> (r: Result<(), RunError>)
    ensures
        r is Ok <==> success,
        r matches Err(e) ==> e@ == RunErrorView::PastaFailed(stderr@),
{
    if success {
        Ok(())
    } else {
        Err(RunError::PastaFailed(stderr.to_owned()))
    }
}

/// The process number in the file in which pasta leaves it.
pub fn pasta_pid(content: &str) -> (r: Result<i32, RunError>)
    ensures
        match r {
            Ok(pid) => parsed_i32(trim(content@)) == Some(pid),
            Err(e) => parsed_i32(trim(content@)) is None && e@ == RunErrorView::PastaPid,
        },
{
    match parse_i32(trim_text(content)) {
        Some(pid) => Ok(pid),
        None => Err(RunError::PastaPid),
    }
}

/// Law: pasta is told to work in the namespace that it is given and to leave its process number in
/// the file that it is given. Behind that come the published ports and nothing else; where there
/// are none, nothing is forwarded.
pub proof fn law_pasta_is_told_where_to_work(
    netns: Seq<char>,
    pid_file: Seq<char>,
    publish: Seq<PortView>,
)
    ensures
        ({
            let args = pasta_arguments_value(netns, pid_file, publish);
            &&& args[0] == "--config-net"@
            &&& args[1] == "--dns-forward"@ && args[2] == "169.254.1.1"@
            &&& args[3] == "--netns"@ && args[4] == netns
            &&& args[5] == "--pid"@ && args[6] == pid_file
            &&& args[7] == "--quiet"@
            &&& publish.len() > 0 ==> args.len() == 8 + 2 * publish.len()
            &&& publish.len() == 0 ==> args.len() == 12 && args[8] == "-t"@ && args[9] == "none"@
                && args[10] == "-u"@ && args[11] == "none"@
        }),
{
    if publish.len() > 0 {
        lemma_port_arguments(publish, 0);
    }
}

/// Law: a UDP port is forwarded by one option of pasta, and a port of any other protocol by the
/// other, as the port on the host, a colon, and the port in the container.
pub proof fn law_how_a_port_is_forwarded(p: PortView)
    ensures
        p.protocol == "udp"@ ==> port_option(p.protocol) == seq!['-', 'u'],
        p.protocol != "udp"@ ==> port_option(p.protocol) == seq!['-', 't'],
        port_text(p) == decimal(p.host_port) + seq![':'] + decimal(p.container_port),
{
    reveal_strlit("-u");
    reveal_strlit("-t");
    reveal_strlit(":");
    assert("-u"@ =~= seq!['-', 'u']);
    assert("-t"@ =~= seq!['-', 't']);
    assert(":"@ =~= seq![':']);
}

/// Law: of the statuses that a child can leave, only that of a child that ended by itself with the
/// code zero is one of success: one that was killed by a signal leaves the signal in the last seven
/// bits.
pub proof fn law_killed_children_failed(signal: i32, code: i32)
    requires
        0 < signal < 128,
        0 <= code < 256,
    ensures
        !ended_by_itself(signal),
        !ended_by_itself((code << 8) | signal),
        code != 0 ==> exit_code(code << 8) != 0,
{
    assert(signal & 0x7f != 0) by (bit_vector)
        requires
            0 < signal < 128,
    ;
    assert(((code << 8) | signal) & 0x7f != 0) by (bit_vector)
        requires
            0 < signal < 128,
            0 <= code < 256,
    ;
    law_wait_status(code);
}

/// Law: a network that the user asks for and may have is the one that is used; a refusal says who
/// may have it.
pub proof fn law_the_network_that_is_asked_for(requested: Option<NetworkMode>, rootless: bool)
    ensures
        network_mode_value(requested, rootless) matches Ok(mode) ==> (match requested {
            Some(asked) => mode == asked,
            None => mode == if rootless {
                NetworkMode::Pasta
            } else {
                NetworkMode::Bridge
            },
        }),
        network_mode_value(requested, rootless) matches Err(e) ==> e == if rootless {
            RunErrorView::BridgeNeedsRootful
        } else {
            RunErrorView::PastaNeedsRootless
        },
        network_mode_value(requested, rootless) is Err <==> requested == Some(
            if rootless {
                NetworkMode::Bridge
            } else {
                NetworkMode::Pasta
            },
        ),
{
}

} // verus!
