//! The host side of a container run: the bridge, the arguments of the re-executed
//! child, the veth pair, the cgroup, NAT and port forwarding, and what is undone at
//! the end.
use vstd::prelude::*;
use vstd::string::StringSliceAdditionalSpecFns;
use vstd::utf8::{decode_utf8, encode_utf8, is_char_boundary};
use crate::actions::{ActionView, CommandView, HostAction, OutputMode, actions_view, run_action, run_spec, texts};
use crate::memory::{MemoryError, memory_input_ok, parse_memory_checked, parse_memory_spec};
use crate::args::RunArgs;
use crate::text::{lemma_decimal_digits, is_digit, append_decimal, concat2, concat3, decimal, decimal_string, owned};
use crate::mapping::{pair_spec, split_pair};
use crate::image::{contains_spec, occurs_at};

verus! {

broadcast use vstd::utf8::group_utf8_lib;

/// Step 1: create the bridge, give it 10.0.0.1/24 and bring it up (nothing when rootless).
pub open spec fn bridge_setup_spec(rootless: bool, network: Seq<char>) -> Seq<ActionView> {
    if rootless {
        seq![]
    } else {
        seq![
            run_spec("ip"@, seq!["link"@, "add"@, network, "type"@, "bridge"@], OutputMode::Silent, false),
            run_spec("ip"@, seq!["addr"@, "add"@, "10.0.0.1/24"@, "dev"@, network], OutputMode::Silent, false),
            run_spec("ip"@, seq!["link"@, "set"@, network, "up"@], OutputMode::Silent, false),
        ]
    }
}

/// The host commands that set up the bridge; their failures are ignored (the bridge
/// may already exist).
pub fn bridge_setup(args: &RunArgs) -> (r: Vec<HostAction>)
    ensures
        actions_view(r@) == bridge_setup_spec(args.rootless, args.network@),
{
    let mut r: Vec<HostAction> = Vec::new();
    if args.rootless {
        assert(actions_view(r@) =~= bridge_setup_spec(args.rootless, args.network@));
        return r;
    }
    let net = args.network.as_str();
    let a1 = vec![owned("link"), owned("add"), owned(net), owned("type"), owned("bridge")];
    assert(texts(a1@) =~= seq!["link"@, "add"@, net@, "type"@, "bridge"@]);
    r.push(run_action("ip", a1, OutputMode::Silent, false));
    let a2 = vec![owned("addr"), owned("add"), owned("10.0.0.1/24"), owned("dev"), owned(net)];
    assert(texts(a2@) =~= seq!["addr"@, "add"@, "10.0.0.1/24"@, "dev"@, net@]);
    r.push(run_action("ip", a2, OutputMode::Silent, false));
    let a3 = vec![owned("link"), owned("set"), owned(net), owned("up")];
    assert(texts(a3@) =~= seq!["link"@, "set"@, net@, "up"@]);
    r.push(run_action("ip", a3, OutputMode::Silent, false));
    assert(actions_view(r@) =~= bridge_setup_spec(args.rootless, args.network@));
    r
}

/// `flag value` for each value, in order.
pub open spec fn flag_pairs(flag: Seq<char>, vals: Seq<Seq<char>>) -> Seq<Seq<char>>
    decreases vals.len(),
{
    if vals.len() == 0 {
        seq![]
    } else {
        flag_pairs(flag, vals.drop_last()) + seq![flag, vals.last()]
    }
}

/// The decimal numeral of a signed integer.
pub open spec fn signed_decimal(v: int) -> Seq<char> {
    if v < 0 {
        seq!['-'] + decimal((-v) as nat)
    } else {
        decimal(v as nat)
    }
}

/// Step 3: the arguments with which the engine re-executes itself as the container's
/// first process.
pub open spec fn child_args_spec(args: RunArgs, ip: Seq<char>, pipe_fd: int) -> Seq<Seq<char>> {
    seq![
        "internal-child"@,
        "--image"@,
        args.image@,
        "--name"@,
        args.name@,
        "--ip"@,
        ip,
        "--pipe-fd"@,
        signed_decimal(pipe_fd),
        "--memory"@,
        args.memory@,
        "--network"@,
        args.network@,
    ] + (if args.rootless { seq!["--rootless"@] } else { seq![] }) + (if args.readonly {
        seq!["--readonly"@]
    } else {
        seq![]
    }) + flag_pairs("--volumes"@, texts(args.volumes@)) + flag_pairs("--ports"@, texts(args.ports@))
        + texts(args.command@)
}

/// The decimal numeral of `v`, as `v.to_string()` writes it.
pub fn signed_decimal_string(v: i32) -> (r: String)
    ensures
        r@ == signed_decimal(v as int),
{
    if v < 0 {
        let mut s = owned("-");
        proof {
            reveal_strlit("-");
        }
        let m: i64 = -(v as i64);
        append_decimal(&mut s, m as u64);
        proof {
            assert(s@ =~= seq!['-'] + decimal((-v) as nat));
        }
        s
    } else {
        let mut s = String::new();
        append_decimal(&mut s, v as u64);
        assert(s@ =~= decimal(v as nat));
        s
    }
}

/// Appends `flag value` to `out` for each of `vals`.
fn push_flag_pairs(out: &mut Vec<String>, flag: &str, vals: &Vec<String>)
    ensures
        texts(final(out)@) == texts(old(out)@) + flag_pairs(flag@, texts(vals@)),
{
    let ghost before = texts(out@);
    let mut i: usize = 0;
    assert(texts(vals@.take(0)) =~= Seq::<Seq<char>>::empty());
    assert(texts(out@) =~= before + flag_pairs(flag@, texts(vals@.take(0))));
    while i < vals.len()
        invariant
            i <= vals.len(),
            texts(out@) == before + flag_pairs(flag@, texts(vals@.take(i as int))),
        decreases vals.len() - i,
    {
        let ghost prev = out@;
        out.push(owned(flag));
        out.push(vals[i].clone());
        proof {
            let t = texts(vals@.take(i + 1));
            assert(t.drop_last() =~= texts(vals@.take(i as int)));
            assert(t.last() == vals@[i as int]@);
            assert(texts(out@) =~= texts(prev) + seq![flag@, vals@[i as int]@]);
        }
        i = i + 1;
    }
    assert(vals@.take(vals.len() as int) =~= vals@);
}

/// Appends copies of `vals` to `out`.
fn push_all(out: &mut Vec<String>, vals: &Vec<String>)
    ensures
        texts(final(out)@) == texts(old(out)@) + texts(vals@),
{
    let ghost before = texts(out@);
    let mut i: usize = 0;
    assert(texts(out@) =~= before + texts(vals@.take(0)));
    while i < vals.len()
        invariant
            i <= vals.len(),
            texts(out@) == before + texts(vals@.take(i as int)),
        decreases vals.len() - i,
    {
        let ghost prev = out@;
        out.push(vals[i].clone());
        proof {
            assert(texts(out@) =~= texts(prev).push(vals@[i as int]@));
            assert(texts(vals@.take(i + 1)) =~= texts(vals@.take(i as int)).push(vals@[i as int]@));
            assert(texts(out@) =~= before + texts(vals@.take(i + 1)));
        }
        i = i + 1;
    }
    assert(vals@.take(vals.len() as int) =~= vals@);
}

/// The arguments of the re-executed child: image, name, address, start-up pipe,
/// memory limit and network, the switches, each volume and port, then the command.
pub fn child_command_args(args: &RunArgs, ip: &str, pipe_fd: i32) -> (r: Vec<String>)
    ensures
        texts(r@) == child_args_spec(*args, ip@, pipe_fd as int),
{
    let mut r: Vec<String> = vec![
        owned("internal-child"),
        owned("--image"),
        args.image.clone(),
        owned("--name"),
        args.name.clone(),
        owned("--ip"),
        owned(ip),
        owned("--pipe-fd"),
        signed_decimal_string(pipe_fd),
        owned("--memory"),
        args.memory.clone(),
        owned("--network"),
        args.network.clone(),
    ];
    let ghost head = texts(r@);
    if args.rootless {
        r.push(owned("--rootless"));
    }
    if args.readonly {
        r.push(owned("--readonly"));
    }
    let ghost switched = texts(r@);
    assert(switched =~= head + (if args.rootless { seq!["--rootless"@] } else { seq![] }) + (
    if args.readonly {
        seq!["--readonly"@]
    } else {
        seq![]
    }));
    push_flag_pairs(&mut r, "--volumes", &args.volumes);
    push_flag_pairs(&mut r, "--ports", &args.ports);
    push_all(&mut r, &args.command);
    assert(texts(r@) =~= child_args_spec(*args, ip@, pipe_fd as int));
    r
}

/// The name can be cut after its first 12 bytes: it is at most 12 bytes long, or
/// byte 12 starts a character.
pub open spec fn short_name_ok(name: Seq<char>) -> bool {
    encode_utf8(name).len() > 12 ==> is_char_boundary(encode_utf8(name), 12)
}

/// The name cut to its first 12 bytes (whole when it is no longer).
pub open spec fn short_name_spec(name: Seq<char>) -> Seq<char> {
    if encode_utf8(name).len() > 12 {
        decode_utf8(encode_utf8(name).take(12))
    } else {
        name
    }
}

/// The host end of the container's veth pair.
pub open spec fn veth_host_spec(name: Seq<char>) -> Seq<char> {
    "vh-"@ + short_name_spec(name)
}

/// The container end of the veth pair (renamed `eth0` once inside).
pub open spec fn veth_child_spec(name: Seq<char>) -> Seq<char> {
    "vc-"@ + short_name_spec(name)
}

/// The first 12 bytes of the name, or the whole name when it is no longer.
pub fn short_name(name: &str) -> (r: &str)
    requires
        short_name_ok(name@),
    ensures
        r@ == short_name_spec(name@),
{
    let byte_len = name.as_bytes().len();
    if byte_len > 12 {
        let (head, _) = name.split_at(12);
        proof {
            assert(head.spec_bytes() =~= encode_utf8(name@).take(12));
            assert(decode_utf8(encode_utf8(head@)) == head@);
            assert(head@ == short_name_spec(name@));
        }
        head
    } else {
        name
    }
}

/// The names of the veth pair of container `name`: `vh-` and `vc-` before its first
/// 12 bytes.
pub fn veth_names(name: &str) -> (r: (String, String))
    requires
        short_name_ok(name@),
    ensures
        r.0@ == veth_host_spec(name@),
        r.1@ == veth_child_spec(name@),
{
    let short = short_name(name);
    (concat2("vh-", short), concat2("vc-", short))
}

/// Encoding a concatenation encodes each part.
pub proof fn lemma_encode_concat(a: Seq<char>, b: Seq<char>)
    ensures
        encode_utf8(a + b) == encode_utf8(a) + encode_utf8(b),
    decreases a.len(),
{
    if a.len() == 0 {
        assert(a + b =~= b);
        assert(encode_utf8(a) =~= Seq::<u8>::empty());
        assert(encode_utf8(a) + encode_utf8(b) =~= encode_utf8(b));
    } else {
        assert((a + b).drop_first() =~= a.drop_first() + b);
        assert((a + b)[0] == a[0]);
        lemma_encode_concat(a.drop_first(), b);
    }
}

/// The short name takes at most 12 bytes.
pub proof fn lemma_short_name_bytes(name: Seq<char>)
    requires
        short_name_ok(name),
    ensures
        encode_utf8(short_name_spec(name)).len() <= 12,
{
    let b = encode_utf8(name);
    if b.len() > 12 {
        assert(b.take(12) =~= b.subrange(0, 12));
        lemma_prefix_reencodes(b);
    }
}

/// The first 12 bytes of a valid encoding, cut at a character boundary, decode and
/// encode back to themselves.
proof fn lemma_prefix_reencodes(b: Seq<u8>)
    requires
        vstd::utf8::valid_utf8(b),
        b.len() > 12,
        is_char_boundary(b, 12),
    ensures
        encode_utf8(decode_utf8(b.take(12))) == b.take(12),
{
    assert(b.take(12) =~= b.subrange(0, 12));
    vstd::utf8::valid_utf8_split(b, 12);
    vstd::utf8::decode_utf8_encode_utf8(b.take(12));
}

/// Both ends of a container's veth pair have names of at most 15 bytes, the longest
/// that a Linux network interface can have, and the two names differ.
pub proof fn veth_names_fit_interface_limit(name: Seq<char>)
    requires
        short_name_ok(name),
    ensures
        encode_utf8(veth_host_spec(name)).len() <= 15,
        encode_utf8(veth_child_spec(name)).len() <= 15,
        veth_host_spec(name) != veth_child_spec(name),
{
    reveal_strlit("vh-");
    reveal_strlit("vc-");
    let s = short_name_spec(name);
    lemma_short_name_bytes(name);
    lemma_encode_concat("vh-"@, s);
    lemma_encode_concat("vc-"@, s);
    vstd::utf8::is_ascii_chars_encode_utf8("vh-"@);
    vstd::utf8::is_ascii_chars_encode_utf8("vc-"@);
    assert(veth_host_spec(name)[1] == 'h');
    assert(veth_child_spec(name)[1] == 'c');
}

/// `nsenter -t <pid> -n ip` followed by `rest`: an `ip` command inside the network
/// namespace of process `pid`.
pub open spec fn in_netns(pid: u32, rest: Seq<Seq<char>>) -> Seq<Seq<char>> {
    seq!["-t"@, decimal(pid as nat), "-n"@, "ip"@] + rest
}

/// Step 4: create the veth pair, move one end into the container, attach the other to
/// the bridge, and configure `eth0`, `lo` and the default route inside (nothing when
/// rootless). A stale host end is deleted first, ignoring failure; every later
/// command must succeed.
pub open spec fn veth_setup_spec(
    rootless: bool,
    network: Seq<char>,
    ip: Seq<char>,
    pid: u32,
    vh: Seq<char>,
    vc: Seq<char>,
) -> Seq<ActionView> {
    if rootless {
        seq![]
    } else {
        seq![
            run_spec("ip"@, seq!["link"@, "delete"@, vh], OutputMode::NoErrors, false),
            run_spec("ip"@, seq!["link"@, "add"@, vh, "type"@, "veth"@, "peer"@, "name"@, vc], OutputMode::Inherit, true),
            run_spec("ip"@, seq!["link"@, "set"@, vc, "netns"@, decimal(pid as nat)], OutputMode::Inherit, true),
            run_spec("ip"@, seq!["link"@, "set"@, vh, "master"@, network], OutputMode::Inherit, true),
            run_spec("ip"@, seq!["link"@, "set"@, vh, "up"@], OutputMode::Inherit, true),
            run_spec("nsenter"@, in_netns(pid, seq!["link"@, "set"@, vc, "name"@, "eth0"@]), OutputMode::Inherit, true),
            run_spec("nsenter"@, in_netns(pid, seq!["addr"@, "add"@, ip + "/24"@, "dev"@, "eth0"@]), OutputMode::Inherit, true),
            run_spec("nsenter"@, in_netns(pid, seq!["link"@, "set"@, "eth0"@, "up"@]), OutputMode::Inherit, true),
            run_spec("nsenter"@, in_netns(pid, seq!["link"@, "set"@, "lo"@, "up"@]), OutputMode::Inherit, true),
            run_spec("nsenter"@, in_netns(pid, seq!["route"@, "add"@, "default"@, "via"@, "10.0.0.1"@]), OutputMode::Inherit, true),
        ]
    }
}

/// `nsenter -t <pid> -n ip` followed by `rest`.
fn netns_args(pid: u32, rest: Vec<String>) -> (r: Vec<String>)
    ensures
        texts(r@) == in_netns(pid, texts(rest@)),
{
    let mut r = vec![owned("-t"), decimal_string(pid as u64), owned("-n"), owned("ip")];
    let ghost head = texts(r@);
    let ghost tail = texts(rest@);
    let mut rest = rest;
    r.append(&mut rest);
    assert(texts(r@) =~= head + tail);
    r
}

/// The commands that wire the container into the bridge.
pub fn veth_setup(args: &RunArgs, ip: &str, pid: u32, v_host: &str, v_child: &str) -> (r: Vec<HostAction>)
    ensures
        actions_view(r@) == veth_setup_spec(args.rootless, args.network@, ip@, pid, v_host@, v_child@),
{
    let mut r: Vec<HostAction> = Vec::new();
    if args.rootless {
        assert(actions_view(r@) =~= veth_setup_spec(args.rootless, args.network@, ip@, pid, v_host@, v_child@));
        return r;
    }
    let net = args.network.as_str();
    let a = vec![owned("link"), owned("delete"), owned(v_host)];
    assert(texts(a@) =~= seq!["link"@, "delete"@, v_host@]);
    r.push(run_action("ip", a, OutputMode::NoErrors, false));
    let a = vec![owned("link"), owned("add"), owned(v_host), owned("type"), owned("veth"), owned("peer"), owned("name"), owned(v_child)];
    assert(texts(a@) =~= seq!["link"@, "add"@, v_host@, "type"@, "veth"@, "peer"@, "name"@, v_child@]);
    r.push(run_action("ip", a, OutputMode::Inherit, true));
    let a = vec![owned("link"), owned("set"), owned(v_child), owned("netns"), decimal_string(pid as u64)];
    assert(texts(a@) =~= seq!["link"@, "set"@, v_child@, "netns"@, decimal(pid as nat)]);
    r.push(run_action("ip", a, OutputMode::Inherit, true));
    let a = vec![owned("link"), owned("set"), owned(v_host), owned("master"), owned(net)];
    assert(texts(a@) =~= seq!["link"@, "set"@, v_host@, "master"@, net@]);
    r.push(run_action("ip", a, OutputMode::Inherit, true));
    let a = vec![owned("link"), owned("set"), owned(v_host), owned("up")];
    assert(texts(a@) =~= seq!["link"@, "set"@, v_host@, "up"@]);
    r.push(run_action("ip", a, OutputMode::Inherit, true));
    let a = vec![owned("link"), owned("set"), owned(v_child), owned("name"), owned("eth0")];
    assert(texts(a@) =~= seq!["link"@, "set"@, v_child@, "name"@, "eth0"@]);
    r.push(run_action("nsenter", netns_args(pid, a), OutputMode::Inherit, true));
    let a = vec![owned("addr"), owned("add"), concat2(ip, "/24"), owned("dev"), owned("eth0")];
    assert(texts(a@) =~= seq!["addr"@, "add"@, ip@ + "/24"@, "dev"@, "eth0"@]);
    r.push(run_action("nsenter", netns_args(pid, a), OutputMode::Inherit, true));
    let a = vec![owned("link"), owned("set"), owned("eth0"), owned("up")];
    assert(texts(a@) =~= seq!["link"@, "set"@, "eth0"@, "up"@]);
    r.push(run_action("nsenter", netns_args(pid, a), OutputMode::Inherit, true));
    let a = vec![owned("link"), owned("set"), owned("lo"), owned("up")];
    assert(texts(a@) =~= seq!["link"@, "set"@, "lo"@, "up"@]);
    r.push(run_action("nsenter", netns_args(pid, a), OutputMode::Inherit, true));
    let a = vec![owned("route"), owned("add"), owned("default"), owned("via"), owned("10.0.0.1")];
    assert(texts(a@) =~= seq!["route"@, "add"@, "default"@, "via"@, "10.0.0.1"@]);
    r.push(run_action("nsenter", netns_args(pid, a), OutputMode::Inherit, true));
    assert(actions_view(r@) =~= veth_setup_spec(args.rootless, args.network@, ip@, pid, v_host@, v_child@));
    r
}

/// The iptables rule that lets new and established TCP traffic reach port `cport` of
/// the container at `ip`; `op` is `-A` to add it and `-D` to delete it.
pub open spec fn forward_rule(op: Seq<char>, ip: Seq<char>, cport: Seq<char>) -> Seq<Seq<char>> {
    seq![
        op,
        "FORWARD"@,
        "-p"@,
        "tcp"@,
        "-d"@,
        ip,
        "--dport"@,
        cport,
        "-m"@,
        "state"@,
        "--state"@,
        "NEW,ESTABLISHED,RELATED"@,
        "-j"@,
        "ACCEPT"@,
    ]
}

/// The iptables rule that sends TCP traffic for host port `hport` to `ip:cport`.
pub open spec fn dnat_rule(op: Seq<char>, ip: Seq<char>, hport: Seq<char>, cport: Seq<char>) -> Seq<Seq<char>> {
    seq![
        "-t"@,
        "nat"@,
        op,
        "PREROUTING"@,
        "-p"@,
        "tcp"@,
        "--dport"@,
        hport,
        "-j"@,
        "DNAT"@,
        "--to-destination"@,
        ip + ":"@ + cport,
    ]
}

/// The two rules of one `host:container` port mapping (none for a mapping that does
/// not split into exactly two parts); their failures are ignored.
pub open spec fn port_rules(op: Seq<char>, ip: Seq<char>, mapping: Seq<char>) -> Seq<ActionView> {
    match pair_spec(mapping) {
        Some((h, c)) => seq![
            run_spec("iptables"@, forward_rule(op, ip, c), OutputMode::Inherit, false),
            run_spec("iptables"@, dnat_rule(op, ip, h, c), OutputMode::Inherit, false),
        ],
        None => seq![],
    }
}

/// The rules of every port mapping, in order.
pub open spec fn all_port_rules(op: Seq<char>, ip: Seq<char>, ports: Seq<Seq<char>>) -> Seq<ActionView>
    decreases ports.len(),
{
    if ports.len() == 0 {
        seq![]
    } else {
        all_port_rules(op, ip, ports.drop_last()) + port_rules(op, ip, ports.last())
    }
}

/// Appends the rules of each port mapping to `out`.
fn push_port_rules(out: &mut Vec<HostAction>, op: &str, ip: &str, ports: &Vec<String>)
    ensures
        actions_view(final(out)@) == actions_view(old(out)@) + all_port_rules(op@, ip@, texts(ports@)),
{
    let ghost before = actions_view(out@);
    let mut i: usize = 0;
    assert(texts(ports@.take(0)) =~= Seq::<Seq<char>>::empty());
    assert(actions_view(out@) =~= before + all_port_rules(op@, ip@, texts(ports@.take(0))));
    while i < ports.len()
        invariant
            i <= ports.len(),
            actions_view(out@) == before + all_port_rules(op@, ip@, texts(ports@.take(i as int))),
        decreases ports.len() - i,
    {
        let ghost prev = actions_view(out@);
        let ghost t = texts(ports@.take(i + 1));
        assert(t.drop_last() =~= texts(ports@.take(i as int)));
        assert(t.last() == ports@[i as int]@);
        match split_pair(ports[i].as_str()) {
            Some((host_port, container_port)) => {
                let f = vec![
                    owned(op),
                    owned("FORWARD"),
                    owned("-p"),
                    owned("tcp"),
                    owned("-d"),
                    owned(ip),
                    owned("--dport"),
                    owned(container_port),
                    owned("-m"),
                    owned("state"),
                    owned("--state"),
                    owned("NEW,ESTABLISHED,RELATED"),
                    owned("-j"),
                    owned("ACCEPT"),
                ];
                assert(texts(f@) =~= forward_rule(op@, ip@, container_port@));
                out.push(run_action("iptables", f, OutputMode::Inherit, false));
                let d = vec![
                    owned("-t"),
                    owned("nat"),
                    owned(op),
                    owned("PREROUTING"),
                    owned("-p"),
                    owned("tcp"),
                    owned("--dport"),
                    owned(host_port),
                    owned("-j"),
                    owned("DNAT"),
                    owned("--to-destination"),
                    concat3(ip, ":", container_port),
                ];
                assert(texts(d@) =~= dnat_rule(op@, ip@, host_port@, container_port@));
                out.push(run_action("iptables", d, OutputMode::Inherit, false));
                assert(actions_view(out@) =~= prev + port_rules(op@, ip@, ports@[i as int]@));
            },
            None => {
                assert(actions_view(out@) =~= prev + port_rules(op@, ip@, ports@[i as int]@));
            },
        }
        i = i + 1;
    }
    assert(ports@.take(ports.len() as int) =~= ports@);
}

/// Step 6: enable forwarding, masquerade the subnet, accept bridge traffic, and
/// publish each port mapping (nothing when rootless); failures are ignored.
pub open spec fn forwarding_setup_spec(rootless: bool, network: Seq<char>, ip: Seq<char>, ports: Seq<Seq<char>>) -> Seq<ActionView> {
    if rootless {
        seq![]
    } else {
        seq![
            ActionView::WriteFile { path: "/proc/sys/net/ipv4/ip_forward"@, contents: "1"@, checked: false },
            run_spec("iptables"@, seq!["-t"@, "nat"@, "-A"@, "POSTROUTING"@, "-s"@, "10.0.0.0/24"@, "!"@, "-o"@, network, "-j"@, "MASQUERADE"@], OutputMode::Inherit, false),
            run_spec("iptables"@, seq!["-A"@, "FORWARD"@, "-i"@, network, "-j"@, "ACCEPT"@], OutputMode::Inherit, false),
            run_spec("iptables"@, seq!["-A"@, "FORWARD"@, "-o"@, network, "-j"@, "ACCEPT"@], OutputMode::Inherit, false),
        ] + all_port_rules("-A"@, ip, ports)
    }
}

/// The forwarding and port publishing steps.
pub fn forwarding_setup(args: &RunArgs, ip: &str) -> (r: Vec<HostAction>)
    ensures
        actions_view(r@) == forwarding_setup_spec(args.rootless, args.network@, ip@, texts(args.ports@)),
{
    let mut r: Vec<HostAction> = Vec::new();
    if args.rootless {
        assert(actions_view(r@) =~= forwarding_setup_spec(args.rootless, args.network@, ip@, texts(args.ports@)));
        return r;
    }
    let net = args.network.as_str();
    r.push(HostAction::WriteFile { path: owned("/proc/sys/net/ipv4/ip_forward"), contents: owned("1"), checked: false });
    let a = vec![owned("-t"), owned("nat"), owned("-A"), owned("POSTROUTING"), owned("-s"), owned("10.0.0.0/24"), owned("!"), owned("-o"), owned(net), owned("-j"), owned("MASQUERADE")];
    assert(texts(a@) =~= seq!["-t"@, "nat"@, "-A"@, "POSTROUTING"@, "-s"@, "10.0.0.0/24"@, "!"@, "-o"@, net@, "-j"@, "MASQUERADE"@]);
    r.push(run_action("iptables", a, OutputMode::Inherit, false));
    let a = vec![owned("-A"), owned("FORWARD"), owned("-i"), owned(net), owned("-j"), owned("ACCEPT")];
    assert(texts(a@) =~= seq!["-A"@, "FORWARD"@, "-i"@, net@, "-j"@, "ACCEPT"@]);
    r.push(run_action("iptables", a, OutputMode::Inherit, false));
    let a = vec![owned("-A"), owned("FORWARD"), owned("-o"), owned(net), owned("-j"), owned("ACCEPT")];
    assert(texts(a@) =~= seq!["-A"@, "FORWARD"@, "-o"@, net@, "-j"@, "ACCEPT"@]);
    r.push(run_action("iptables", a, OutputMode::Inherit, false));
    push_port_rules(&mut r, "-A", ip, &args.ports);
    assert(actions_view(r@) =~= forwarding_setup_spec(args.rootless, args.network@, ip@, texts(args.ports@)));
    r
}

/// The cgroup of container `name`.
pub open spec fn cgroup_path_spec(name: Seq<char>) -> Seq<char> {
    "/sys/fs/cgroup/"@ + name
}

/// The cgroup directory of container `name`.
pub fn cgroup_path(name: &str) -> (r: String)
    ensures
        r@ == cgroup_path_spec(name@),
{
    concat2("/sys/fs/cgroup/", name)
}

/// Step 5, first part: enable the memory, cpu and pids controllers (ignoring failure)
/// and create the container's cgroup (nothing when rootless).
pub open spec fn cgroup_prepare_spec(rootless: bool, name: Seq<char>) -> Seq<ActionView> {
    if rootless {
        seq![]
    } else {
        seq![
            ActionView::WriteFile { path: "/sys/fs/cgroup/cgroup.subtree_control"@, contents: "+memory +cpu +pids"@, checked: false },
            ActionView::CreateDirAll { path: cgroup_path_spec(name) },
        ]
    }
}

/// The steps that create the container's cgroup.
pub fn cgroup_prepare(args: &RunArgs) -> (r: Vec<HostAction>)
    ensures
        actions_view(r@) == cgroup_prepare_spec(args.rootless, args.name@),
{
    let mut r: Vec<HostAction> = Vec::new();
    if !args.rootless {
        r.push(HostAction::WriteFile {
            path: owned("/sys/fs/cgroup/cgroup.subtree_control"),
            contents: owned("+memory +cpu +pids"),
            checked: false,
        });
        r.push(HostAction::CreateDirAll { path: cgroup_path(args.name.as_str()) });
    }
    assert(actions_view(r@) =~= cgroup_prepare_spec(args.rootless, args.name@));
    r
}

/// Step 5, second part, once the memory limit is known: the limits, ignoring failure,
/// then moving process `pid` into the cgroup, which must succeed.
pub open spec fn cgroup_limit_writes(name: Seq<char>, mem_bytes: Seq<char>, pid: u32) -> Seq<ActionView> {
    let cg = cgroup_path_spec(name);
    seq![
        ActionView::WriteFile { path: cg + "/memory.max"@, contents: mem_bytes, checked: false },
        ActionView::WriteFile { path: cg + "/cpu.max"@, contents: "max 100000"@, checked: false },
        ActionView::WriteFile { path: cg + "/pids.max"@, contents: "max"@, checked: false },
        ActionView::WriteFile { path: cg + "/cgroup.procs"@, contents: decimal(pid as nat), checked: true },
    ]
}

/// Step 5, second part: nothing when rootless; otherwise the memory limit is read with
/// `parse_memory` (an unreadable limit is an error) and the limit writes follow.
/// `None` where the limit's byte count overflows 64 bits.
pub open spec fn cgroup_limits_spec(rootless: bool, name: Seq<char>, memory: Seq<char>, pid: u32) -> Option<Result<Seq<ActionView>, MemoryError>> {
    if rootless {
        Some(Ok(seq![]))
    } else if !memory_input_ok(memory) {
        None
    } else {
        match parse_memory_spec(memory) {
            Ok(b) => Some(Ok(cgroup_limit_writes(name, b, pid))),
            Err(e) => Some(Err(e)),
        }
    }
}

/// The view of a list of steps that may fail.
pub open spec fn planned_view(r: Option<Result<Vec<HostAction>, MemoryError>>) -> Option<Result<Seq<ActionView>, MemoryError>> {
    match r {
        Some(Ok(v)) => Some(Ok(actions_view(v@))),
        Some(Err(e)) => Some(Err(e)),
        None => None,
    }
}

/// The limit steps of the container's cgroup.
pub fn cgroup_limits(args: &RunArgs, pid: u32) -> (r: Option<Result<Vec<HostAction>, MemoryError>>)
    ensures
        planned_view(r) == cgroup_limits_spec(args.rootless, args.name@, args.memory@, pid),
{
    if args.rootless {
        let r: Vec<HostAction> = Vec::new();
        assert(actions_view(r@) =~= Seq::<ActionView>::empty());
        return Some(Ok(r));
    }
    match parse_memory_checked(args.memory.as_str()) {
        None => None,
        Some(Err(e)) => Some(Err(e)),
        Some(Ok(mem_bytes)) => {
            let cg = cgroup_path(args.name.as_str());
            let cg = cg.as_str();
            let r = vec![
                HostAction::WriteFile { path: concat2(cg, "/memory.max"), contents: mem_bytes, checked: false },
                HostAction::WriteFile { path: concat2(cg, "/cpu.max"), contents: owned("max 100000"), checked: false },
                HostAction::WriteFile { path: concat2(cg, "/pids.max"), contents: owned("max"), checked: false },
                HostAction::WriteFile { path: concat2(cg, "/cgroup.procs"), contents: decimal_string(pid as u64), checked: true },
            ];
            assert(actions_view(r@) =~= cgroup_limit_writes(args.name@, mem_bytes@, pid));
            Some(Ok(r))
        },
    }
}

/// Step 8: forget the container's record, remove its (by then empty) cgroup directory
/// (not when rootless) and its overlay directories, then delete the host end of the veth pair and every port rule
/// that step 6 added (not when rootless). All failures are ignored.
pub open spec fn cleanup_spec(rootless: bool, name: Seq<char>, ip: Seq<char>, vh: Seq<char>, ports: Seq<Seq<char>>) -> Seq<ActionView> {
    seq![ActionView::RemoveState { name }] + (if rootless {
        seq![]
    } else {
        seq![ActionView::RemoveDir { path: cgroup_path_spec(name) }]
    }) + seq![ActionView::RemoveDirAll { path: "./temp/"@ + name }] + (if rootless {
        seq![]
    } else {
        seq![run_spec("ip"@, seq!["link"@, "delete"@, vh], OutputMode::Inherit, false)] + all_port_rules("-D"@, ip, ports)
    })
}

/// The steps that undo a container run once its first process has exited.
pub fn cleanup(args: &RunArgs, ip: &str, v_host: &str) -> (r: Vec<HostAction>)
    ensures
        actions_view(r@) == cleanup_spec(args.rootless, args.name@, ip@, v_host@, texts(args.ports@)),
{
    let name = args.name.as_str();
    let mut r: Vec<HostAction> = vec![HostAction::RemoveState { name: owned(name) }];
    let ghost p1 = actions_view(r@);
    if !args.rootless {
        r.push(HostAction::RemoveDir { path: cgroup_path(name) });
    }
    let ghost p2 = actions_view(r@);
    r.push(HostAction::RemoveDirAll { path: concat2("./temp/", name) });
    let ghost p3 = actions_view(r@);
    if !args.rootless {
        let a = vec![owned("link"), owned("delete"), owned(v_host)];
        assert(texts(a@) =~= seq!["link"@, "delete"@, v_host@]);
        r.push(run_action("ip", a, OutputMode::Inherit, false));
        push_port_rules(&mut r, "-D", ip, &args.ports);
    }
    assert(actions_view(r@) =~= cleanup_spec(args.rootless, args.name@, ip@, v_host@, texts(args.ports@)));
    r
}

/// An iptables step turned from adding its rule (`-A`, first or third argument) into
/// deleting it (`-D`); other steps are kept.
pub open spec fn as_delete(a: ActionView) -> ActionView {
    match a {
        ActionView::Run(c) => if c.args.len() > 0 && c.args[0] == "-A"@ {
            ActionView::Run(CommandView { args: c.args.update(0, "-D"@), ..c })
        } else if c.args.len() > 2 && c.args[2] == "-A"@ {
            ActionView::Run(CommandView { args: c.args.update(2, "-D"@), ..c })
        } else {
            a
        },
        _ => a,
    }
}

/// Teardown deletes exactly the port rules that setup added: for every list of port
/// mappings, the rules removed at the end are the rules added at the start, in the
/// same order, each with `-A` turned into `-D`.
pub proof fn teardown_deletes_published_ports(ip: Seq<char>, ports: Seq<Seq<char>>)
    ensures
        all_port_rules("-D"@, ip, ports) == all_port_rules("-A"@, ip, ports).map_values(
            |a: ActionView| as_delete(a),
        ),
    decreases ports.len(),
{
    reveal_strlit("-A");
    reveal_strlit("-D");
    reveal_strlit("-t");
    if ports.len() > 0 {
        teardown_deletes_published_ports(ip, ports.drop_last());
        let m = ports.last();
        match pair_spec(m) {
            Some((h, c)) => {
                assert(forward_rule("-A"@, ip, c).update(0, "-D"@) =~= forward_rule("-D"@, ip, c));
                assert(dnat_rule("-A"@, ip, h, c)[0] == "-t"@);
                assert("-t"@[1] != "-A"@[1]);
                assert(dnat_rule("-A"@, ip, h, c)[0] != "-A"@);
                assert(dnat_rule("-A"@, ip, h, c).update(2, "-D"@) =~= dnat_rule("-D"@, ip, h, c));
                assert(port_rules("-D"@, ip, m) =~= port_rules("-A"@, ip, m).map_values(|a: ActionView| as_delete(a)));
            },
            None => {
                assert(port_rules("-D"@, ip, m) =~= port_rules("-A"@, ip, m).map_values(|a: ActionView| as_delete(a)));
            },
        }
        let a = all_port_rules("-A"@, ip, ports.drop_last());
        let b = port_rules("-A"@, ip, m);
        assert((a + b).map_values(|x: ActionView| as_delete(x)) =~= a.map_values(|x: ActionView| as_delete(x)) + b.map_values(|x: ActionView| as_delete(x)));
    } else {
        assert(all_port_rules("-D"@, ip, ports) =~= all_port_rules("-A"@, ip, ports).map_values(|a: ActionView| as_delete(a)));
    }
}

/// A rootless run leaves the host's networking and cgroups alone: it creates no bridge,
/// veth pair, cgroup, limit, forwarding or port rule, and its cleanup only forgets the
/// container's record and removes its overlay directories.
pub proof fn rootless_run_leaves_host_untouched(
    name: Seq<char>,
    network: Seq<char>,
    memory: Seq<char>,
    ip: Seq<char>,
    pid: u32,
    vh: Seq<char>,
    vc: Seq<char>,
    ports: Seq<Seq<char>>,
)
    ensures
        bridge_setup_spec(true, network) == Seq::<ActionView>::empty(),
        veth_setup_spec(true, network, ip, pid, vh, vc) == Seq::<ActionView>::empty(),
        cgroup_prepare_spec(true, name) == Seq::<ActionView>::empty(),
        cgroup_limits_spec(true, name, memory, pid) == Some(Ok::<Seq<ActionView>, MemoryError>(Seq::<ActionView>::empty())),
        forwarding_setup_spec(true, network, ip, ports) == Seq::<ActionView>::empty(),
        cleanup_spec(true, name, ip, vh, ports) == seq![
            ActionView::RemoveState { name },
            ActionView::RemoveDirAll { path: "./temp/"@ + name },
        ],
{
    assert(bridge_setup_spec(true, network) =~= Seq::<ActionView>::empty());
    assert(veth_setup_spec(true, network, ip, pid, vh, vc) =~= Seq::<ActionView>::empty());
    assert(cgroup_prepare_spec(true, name) =~= Seq::<ActionView>::empty());
    assert(forwarding_setup_spec(true, network, ip, ports) =~= Seq::<ActionView>::empty());
    assert(cleanup_spec(true, name, ip, vh, ports) =~= seq![
        ActionView::RemoveState { name },
        ActionView::RemoveDirAll { path: "./temp/"@ + name },
    ]);
}

/// What a run creates on the host, its cleanup removes: the container's record is
/// forgotten, and (when not rootless) the cgroup directory that the run created is
/// removed and the host end of the veth pair that it added is deleted.
pub proof fn cleanup_removes_what_setup_created(
    rootless: bool,
    name: Seq<char>,
    network: Seq<char>,
    ip: Seq<char>,
    pid: u32,
    vh: Seq<char>,
    vc: Seq<char>,
    ports: Seq<Seq<char>>,
)
    ensures
        cleanup_spec(rootless, name, ip, vh, ports).contains(ActionView::RemoveState { name }),
        !rootless ==> cgroup_prepare_spec(rootless, name).contains(ActionView::CreateDirAll { path: cgroup_path_spec(name) }),
        !rootless ==> cleanup_spec(rootless, name, ip, vh, ports).contains(ActionView::RemoveDir { path: cgroup_path_spec(name) }),
        !rootless ==> veth_setup_spec(rootless, network, ip, pid, vh, vc).contains(
            run_spec("ip"@, seq!["link"@, "add"@, vh, "type"@, "veth"@, "peer"@, "name"@, vc], OutputMode::Inherit, true),
        ),
        !rootless ==> cleanup_spec(rootless, name, ip, vh, ports).contains(
            run_spec("ip"@, seq!["link"@, "delete"@, vh], OutputMode::Inherit, false),
        ),
{
    let c = cleanup_spec(rootless, name, ip, vh, ports);
    assert(c[0] == ActionView::RemoveState { name });
    if !rootless {
        assert(cgroup_prepare_spec(rootless, name)[1] == ActionView::CreateDirAll { path: cgroup_path_spec(name) });
        assert(c[1] == ActionView::RemoveDir { path: cgroup_path_spec(name) });
        assert(veth_setup_spec(rootless, network, ip, pid, vh, vc)[1] == run_spec(
            "ip"@,
            seq!["link"@, "add"@, vh, "type"@, "veth"@, "peer"@, "name"@, vc],
            OutputMode::Inherit,
            true,
        ));
        assert(c[3] == run_spec("ip"@, seq!["link"@, "delete"@, vh], OutputMode::Inherit, false));
    }
}

/// The subtree control write enables the cgroup controllers `ctrls`.
pub open spec fn enables_controllers(a: ActionView, ctrls: Seq<Seq<char>>) -> bool {
    a matches ActionView::WriteFile { path, contents, .. } && path == "/sys/fs/cgroup/cgroup.subtree_control"@
        && forall|k: int| 0 <= k < ctrls.len() ==> contains_spec(contents, "+"@ + #[trigger] ctrls[k])
}

/// A limit of controller `ctrl` is written to the container's cgroup.
pub open spec fn writes_limit(steps: Seq<ActionView>, name: Seq<char>, ctrl: Seq<char>) -> bool {
    exists|j: int| 0 <= j < steps.len() && ((#[trigger] steps[j]) matches ActionView::WriteFile { path, .. }
        && path == cgroup_path_spec(name) + "/"@ + ctrl + ".max"@)
}

/// Every controller whose limit a run writes is enabled first: when not rootless, the
/// cgroup is prepared by enabling the memory, cpu and pids controllers in the root's
/// subtree control, and the limits then written are exactly `memory.max`, `cpu.max`
/// and `pids.max` of the container's cgroup, so each lands in an existing file.
pub proof fn cgroup_limits_are_enabled(name: Seq<char>, mem_bytes: Seq<char>, pid: u32)
    ensures
        ({
            let ctrls = seq!["memory"@, "cpu"@, "pids"@];
            let prep = cgroup_prepare_spec(false, name);
            let limits = cgroup_limit_writes(name, mem_bytes, pid);
            &&& prep.len() > 0 && enables_controllers(prep[0], ctrls)
            &&& forall|k: int| 0 <= k < ctrls.len() ==> writes_limit(limits, name, #[trigger] ctrls[k])
        }),
{
    reveal_strlit("+memory +cpu +pids");
    reveal_strlit("+");
    reveal_strlit("memory");
    reveal_strlit("cpu");
    reveal_strlit("pids");
    reveal_strlit("/");
    reveal_strlit(".max");
    reveal_strlit("/memory.max");
    reveal_strlit("/cpu.max");
    reveal_strlit("/pids.max");
    let ctrls = seq!["memory"@, "cpu"@, "pids"@];
    let c = "+memory +cpu +pids"@;
    assert(c.subrange(0, 7) =~= "+"@ + "memory"@);
    assert(occurs_at(c, "+"@ + ctrls[0], 0));
    assert(c.subrange(8, 12) =~= "+"@ + "cpu"@);
    assert(occurs_at(c, "+"@ + ctrls[1], 8));
    assert(c.subrange(13, 18) =~= "+"@ + "pids"@);
    assert(occurs_at(c, "+"@ + ctrls[2], 13));
    let limits = cgroup_limit_writes(name, mem_bytes, pid);
    let cg = cgroup_path_spec(name);
    assert(cg + "/memory.max"@ =~= cg + "/"@ + ctrls[0] + ".max"@);
    assert(cg + "/cpu.max"@ =~= cg + "/"@ + ctrls[1] + ".max"@);
    assert(cg + "/pids.max"@ =~= cg + "/"@ + ctrls[2] + ".max"@);
    assert(writes_limit(limits, name, ctrls[0])) by { assert(limits[0] is WriteFile); }
    assert(writes_limit(limits, name, ctrls[1])) by { assert(limits[1] is WriteFile); }
    assert(writes_limit(limits, name, ctrls[2])) by { assert(limits[2] is WriteFile); }
}

/// `r` occurs in `s` as a run of consecutive elements.
pub open spec fn has_run(s: Seq<Seq<char>>, r: Seq<Seq<char>>) -> bool {
    exists|i: int| 0 <= i && i + r.len() <= s.len() && #[trigger] s.subrange(i, i + r.len() as int) == r
}

/// The step is an `iptables` command.
pub open spec fn is_iptables(a: ActionView) -> bool {
    a matches ActionView::Run(c) && c.program == "iptables"@
}

/// Containers reach the internet: when not rootless, the forwarding steps hold an
/// iptables rule in the `nat` table's POSTROUTING chain that masquerades traffic from
/// the container subnet 10.0.0.0/24 leaving by any interface but the bridge
/// (`! -o <network>`).
pub proof fn outbound_traffic_is_masqueraded(network: Seq<char>, ip: Seq<char>, ports: Seq<Seq<char>>)
    ensures
        ({
            let steps = forwarding_setup_spec(false, network, ip, ports);
            exists|i: int| 0 <= i < steps.len() && is_iptables(#[trigger] steps[i]) && {
                let a = steps[i]->Run_0.args;
                &&& has_run(a, seq!["-t"@, "nat"@])
                &&& has_run(a, seq!["-A"@, "POSTROUTING"@])
                &&& has_run(a, seq!["-s"@, "10.0.0.0/24"@])
                &&& has_run(a, seq!["!"@, "-o"@, network])
                &&& has_run(a, seq!["-j"@, "MASQUERADE"@])
            }
        }),
{
    let steps = forwarding_setup_spec(false, network, ip, ports);
    let a = seq!["-t"@, "nat"@, "-A"@, "POSTROUTING"@, "-s"@, "10.0.0.0/24"@, "!"@, "-o"@, network, "-j"@, "MASQUERADE"@];
    assert(steps[1] == run_spec("iptables"@, a, OutputMode::Inherit, false));
    assert(steps[1]->Run_0.args == a);
    let r1 = seq!["-t"@, "nat"@];
    let r2 = seq!["-A"@, "POSTROUTING"@];
    let r3 = seq!["-s"@, "10.0.0.0/24"@];
    let r4 = seq!["!"@, "-o"@, network];
    let r5 = seq!["-j"@, "MASQUERADE"@];
    assert(has_run(a, r1)) by { assert(a.subrange(0, 0 + r1.len() as int) =~= r1); }
    assert(has_run(a, r2)) by { assert(a.subrange(2, 2 + r2.len() as int) =~= r2); }
    assert(has_run(a, r3)) by { assert(a.subrange(4, 4 + r3.len() as int) =~= r3); }
    assert(has_run(a, r4)) by { assert(a.subrange(6, 6 + r4.len() as int) =~= r4); }
    assert(has_run(a, r5)) by { assert(a.subrange(9, 9 + r5.len() as int) =~= r5); }
    assert(is_iptables(steps[1]));
}

/// The step is an `ip` command run in the host's network namespace.
pub open spec fn is_host_ip(a: ActionView) -> bool {
    a matches ActionView::Run(c) && c.program == "ip"@
}

/// The host end of the veth pair joins the bridge: when not rootless, one host step
/// moves the container end `vc` into the network namespace of process `pid`; after it
/// the host end `vh` is attached to the bridge (`ip link set <vh> master <network>`),
/// and no later host-namespace `ip` step names the container end, which the host no
/// longer sees.
pub proof fn host_end_joins_the_bridge(network: Seq<char>, ip: Seq<char>, pid: u32, vh: Seq<char>, vc: Seq<char>)
    requires
        vh != vc,
        network != vc,
        vc.len() >= 3 && vc.take(3) == "vc-"@,
    ensures
        ({
            let steps = veth_setup_spec(false, network, ip, pid, vh, vc);
            exists|j: int| 0 <= j < steps.len() && is_host_ip(#[trigger] steps[j])
                && steps[j]->Run_0.args == seq!["link"@, "set"@, vc, "netns"@, decimal(pid as nat)] && {
                &&& exists|k: int| j < k < steps.len() && is_host_ip(#[trigger] steps[k])
                    && steps[k]->Run_0.args == seq!["link"@, "set"@, vh, "master"@, network]
                &&& forall|i: int| j < i < steps.len() && is_host_ip(#[trigger] steps[i])
                    ==> !steps[i]->Run_0.args.contains(vc)
            }
        }),
{
    reveal_strlit("vc-");
    reveal_strlit("link");
    reveal_strlit("set");
    reveal_strlit("master");
    reveal_strlit("up");
    reveal_strlit("ip");
    reveal_strlit("nsenter");
    let steps = veth_setup_spec(false, network, ip, pid, vh, vc);
    assert(vc[0] == vc.take(3)[0]);
    assert("vc-"@[0] == 'v');
    assert(vc[0] == 'v');
    assert("link"@ != vc) by { assert("link"@[0] != vc[0]); }
    assert("set"@ != vc) by { assert("set"@[0] != vc[0]); }
    assert("master"@ != vc) by { assert("master"@[0] != vc[0]); }
    assert("up"@ != vc) by { assert("up"@[0] != vc[0]); }
    assert("nsenter"@ != "ip"@) by { assert("nsenter"@.len() != "ip"@.len()); }
    assert(is_host_ip(steps[2]));
    assert(is_host_ip(steps[3]));
    assert forall|i: int| 2 < i < steps.len() && is_host_ip(#[trigger] steps[i]) implies !steps[i]->Run_0.args.contains(vc) by {
        if i == 3 {
            let a = steps[i]->Run_0.args;
            assert(a =~= seq!["link"@, "set"@, vh, "master"@, network]);
            if a.contains(vc) {
                let m = choose|m: int| 0 <= m < a.len() && a[m] == vc;
                assert(false);
            }
        } else if i == 4 {
            let a = steps[i]->Run_0.args;
            assert(a =~= seq!["link"@, "set"@, vh, "up"@]);
            if a.contains(vc) {
                let m = choose|m: int| 0 <= m < a.len() && a[m] == vc;
                assert(false);
            }
        } else {
            assert(!is_host_ip(steps[i]));
        }
    }
}

/// Every element of `flag_pairs(flag, vals)` is the flag or one of the values.
pub proof fn lemma_flag_pairs_elements(flag: Seq<char>, vals: Seq<Seq<char>>)
    ensures
        forall|i: int| 0 <= i < flag_pairs(flag, vals).len() ==> (#[trigger] flag_pairs(flag, vals)[i] == flag
            || vals.contains(flag_pairs(flag, vals)[i])),
    decreases vals.len(),
{
    if vals.len() > 0 {
        lemma_flag_pairs_elements(flag, vals.drop_last());
        let f = flag_pairs(flag, vals);
        let g = flag_pairs(flag, vals.drop_last());
        assert forall|i: int| 0 <= i < f.len() implies (#[trigger] f[i] == flag || vals.contains(f[i])) by {
            if i < g.len() {
                assert(f[i] == g[i]);
                if g[i] != flag {
                    let m = choose|m: int| 0 <= m < vals.drop_last().len() && vals.drop_last()[m] == g[i];
                    assert(vals[m] == g[i]);
                }
            } else if i == g.len() + 1 {
                assert(f[i] == vals.last());
                assert(vals[vals.len() - 1] == f[i]);
            }
        }
    }
}

/// The texts that the user of a run supplies: image, name, address, memory limit,
/// network, volumes, ports and command.
pub open spec fn user_texts(args: RunArgs, ip: Seq<char>) -> Seq<Seq<char>> {
    seq![args.image@, args.name@, ip, args.memory@, args.network@] + texts(args.volumes@) + texts(args.ports@)
        + texts(args.command@)
}

/// The numeral of a signed integer never looks like a `--` switch.
proof fn lemma_signed_decimal_not_switch(v: int, w: Seq<char>)
    requires
        w.len() >= 2 && w[0] == '-' && w[1] == '-',
    ensures
        signed_decimal(v) != w,
{
    if v < 0 {
        lemma_decimal_digits((-v) as nat);
        let d = signed_decimal(v);
        assert(d[1] == decimal((-v) as nat)[0]);
        assert(is_digit(d[1]));
    } else {
        lemma_decimal_digits(v as nat);
        assert(is_digit(signed_decimal(v)[0]));
    }
}

/// `x` is not in `s` when no element of `s` equals it.
proof fn lemma_absent(s: Seq<Seq<char>>, x: Seq<char>)
    requires
        forall|i: int| 0 <= i < s.len() ==> #[trigger] s[i] != x,
    ensures
        !s.contains(x),
{
}

/// The child is told how to run: its first argument selects the internal child, it
/// receives the run's image, name, address, start-up pipe, memory limit and network,
/// each right after its flag, and it receives `--rootless` exactly when the run is
/// rootless and `--readonly` exactly when the run is read-only (for a run whose own
/// texts are not these switches).
pub proof fn child_is_told_the_run(args: RunArgs, ip: Seq<char>, fd: i32)
    requires
        !user_texts(args, ip).contains("--rootless"@),
        !user_texts(args, ip).contains("--readonly"@),
    ensures
        ({
            let a = child_args_spec(args, ip, fd as int);
            &&& a[0] == "internal-child"@
            &&& has_run(a, seq!["--image"@, args.image@])
            &&& has_run(a, seq!["--name"@, args.name@])
            &&& has_run(a, seq!["--ip"@, ip])
            &&& has_run(a, seq!["--pipe-fd"@, signed_decimal(fd as int)])
            &&& has_run(a, seq!["--memory"@, args.memory@])
            &&& has_run(a, seq!["--network"@, args.network@])
            &&& (a.contains("--rootless"@) <==> args.rootless)
            &&& (a.contains("--readonly"@) <==> args.readonly)
        }),
{
    reveal_strlit("--rootless");
    reveal_strlit("--readonly");
    reveal_strlit("internal-child");
    reveal_strlit("--image");
    reveal_strlit("--name");
    reveal_strlit("--ip");
    reveal_strlit("--pipe-fd");
    reveal_strlit("--memory");
    reveal_strlit("--network");
    reveal_strlit("--volumes");
    reveal_strlit("--ports");
    let a = child_args_spec(args, ip, fd as int);
    let u = user_texts(args, ip);
    let head = seq![
        "internal-child"@,
        "--image"@,
        args.image@,
        "--name"@,
        args.name@,
        "--ip"@,
        ip,
        "--pipe-fd"@,
        signed_decimal(fd as int),
        "--memory"@,
        args.memory@,
        "--network"@,
        args.network@,
    ];
    let sw = (if args.rootless { seq!["--rootless"@] } else { seq![] }) + (if args.readonly {
        seq!["--readonly"@]
    } else {
        seq![]
    });
    let vols = flag_pairs("--volumes"@, texts(args.volumes@));
    let ports = flag_pairs("--ports"@, texts(args.ports@));
    let cmd = texts(args.command@);
    assert(a =~= head + sw + vols + ports + cmd);
    let r1 = seq!["--image"@, args.image@];
    let r2 = seq!["--name"@, args.name@];
    let r3 = seq!["--ip"@, ip];
    let r4 = seq!["--pipe-fd"@, signed_decimal(fd as int)];
    let r5 = seq!["--memory"@, args.memory@];
    let r6 = seq!["--network"@, args.network@];
    assert(has_run(a, r1)) by { assert(a.subrange(1, 1 + r1.len() as int) =~= r1); }
    assert(has_run(a, r2)) by { assert(a.subrange(3, 3 + r2.len() as int) =~= r2); }
    assert(has_run(a, r3)) by { assert(a.subrange(5, 5 + r3.len() as int) =~= r3); }
    assert(has_run(a, r4)) by { assert(a.subrange(7, 7 + r4.len() as int) =~= r4); }
    assert(has_run(a, r5)) by { assert(a.subrange(9, 9 + r5.len() as int) =~= r5); }
    assert(has_run(a, r6)) by { assert(a.subrange(11, 11 + r6.len() as int) =~= r6); }
    if args.rootless {
        assert(a[13] == "--rootless"@);
    }
    if args.readonly {
        if args.rootless {
            assert(a[14] == "--readonly"@);
        } else {
            assert(a[13] == "--readonly"@);
        }
    }
    lemma_flag_pairs_elements("--volumes"@, texts(args.volumes@));
    lemma_flag_pairs_elements("--ports"@, texts(args.ports@));
    // No element outside the switches is a switch.
    let w1 = "--rootless"@;
    let w2 = "--readonly"@;
    assert(w1.len() == 10 && w1[0] == '-' && w1[1] == '-');
    assert(w2.len() == 10 && w2[0] == '-' && w2[1] == '-');
    assert(w1 != w2) by { assert(w1[3] != w2[3]); }
    lemma_signed_decimal_not_switch(fd as int, w1);
    lemma_signed_decimal_not_switch(fd as int, w2);
    let hs = head.len() + sw.len();
    let vs = hs + vols.len();
    let ps = vs + ports.len();
    assert forall|i: int| 0 <= i < a.len() && !(hs - sw.len() <= i < hs) implies #[trigger] a[i] != w1 && a[i] != w2 by {
        if i < head.len() {
            if i == 2 { assert(u[0] == a[i]); }
            else if i == 4 { assert(u[1] == a[i]); }
            else if i == 6 { assert(u[2] == a[i]); }
            else if i == 10 { assert(u[3] == a[i]); }
            else if i == 12 { assert(u[4] == a[i]); }
            else if i == 8 { }
            else {
                assert(a[i].len() != 10);
            }
        } else if i < vs {
            let x = vols[i - hs];
            assert(a[i] == x);
            if x != "--volumes"@ {
                let m = choose|m: int| 0 <= m < texts(args.volumes@).len() && texts(args.volumes@)[m] == x;
                assert(u[5 + m] == x);
            } else {
                assert(x.len() != 10);
            }
        } else if i < ps {
            let x = ports[i - vs];
            assert(a[i] == x);
            if x != "--ports"@ {
                let m = choose|m: int| 0 <= m < texts(args.ports@).len() && texts(args.ports@)[m] == x;
                assert(u[5 + texts(args.volumes@).len() + m] == x);
            } else {
                assert(x.len() != 10);
            }
        } else {
            let m = i - ps;
            assert(a[i] == cmd[m]);
            assert(u[5 + texts(args.volumes@).len() + texts(args.ports@).len() + m] == cmd[m]);
        }
    }
    if !args.rootless {
        assert forall|i: int| 0 <= i < a.len() implies #[trigger] a[i] != w1 by {
            if hs - sw.len() <= i < hs {
                assert(sw.len() <= 1);
                if args.readonly {
                    assert(a[i] == w2);
                }
            }
        }
        lemma_absent(a, w1);
    }
    if !args.readonly {
        assert forall|i: int| 0 <= i < a.len() implies #[trigger] a[i] != w2 by {
            if hs - sw.len() <= i < hs {
                if args.rootless {
                    assert(a[i] == w1);
                }
            }
        }
        lemma_absent(a, w2);
    }
}

/// The FORWARD chain accepts traffic passing the bridge in direction `dir`
/// (`-i`: coming from it, `-o`: going to it).
pub open spec fn accepts_forward(steps: Seq<ActionView>, dir: Seq<char>, network: Seq<char>) -> bool {
    exists|i: int| 0 <= i < steps.len() && is_iptables(#[trigger] steps[i]) && {
        let a = steps[i]->Run_0.args;
        &&& has_run(a, seq!["-A"@, "FORWARD"@])
        &&& has_run(a, seq![dir, network])
        &&& has_run(a, seq!["-j"@, "ACCEPT"@])
    }
}

/// Traffic between the bridge and the outside is forwarded: when not rootless, the
/// forwarding steps turn IPv4 forwarding on and accept in the FORWARD chain what comes
/// in from the bridge (`-i <network>`) and what goes out to it (`-o <network>`).
pub proof fn bridge_traffic_is_forwarded(network: Seq<char>, ip: Seq<char>, ports: Seq<Seq<char>>)
    ensures
        forwarding_setup_spec(false, network, ip, ports).contains(
            ActionView::WriteFile { path: "/proc/sys/net/ipv4/ip_forward"@, contents: "1"@, checked: false },
        ),
        accepts_forward(forwarding_setup_spec(false, network, ip, ports), "-i"@, network),
        accepts_forward(forwarding_setup_spec(false, network, ip, ports), "-o"@, network),
{
    let steps = forwarding_setup_spec(false, network, ip, ports);
    assert(steps[0] == ActionView::WriteFile { path: "/proc/sys/net/ipv4/ip_forward"@, contents: "1"@, checked: false });
    let r1 = seq!["-A"@, "FORWARD"@];
    let r3 = seq!["-j"@, "ACCEPT"@];
    let a = steps[2]->Run_0.args;
    let r2 = seq!["-i"@, network];
    assert(a == seq!["-A"@, "FORWARD"@, "-i"@, network, "-j"@, "ACCEPT"@]);
    assert(has_run(a, r1)) by { assert(a.subrange(0, 0 + r1.len() as int) =~= r1); }
    assert(has_run(a, r2)) by { assert(a.subrange(2, 2 + r2.len() as int) =~= r2); }
    assert(has_run(a, r3)) by { assert(a.subrange(4, 4 + r3.len() as int) =~= r3); }
    assert(is_iptables(steps[2]));
    let b = steps[3]->Run_0.args;
    let q2 = seq!["-o"@, network];
    assert(b == seq!["-A"@, "FORWARD"@, "-o"@, network, "-j"@, "ACCEPT"@]);
    assert(has_run(b, r1)) by { assert(b.subrange(0, 0 + r1.len() as int) =~= r1); }
    assert(has_run(b, q2)) by { assert(b.subrange(2, 2 + q2.len() as int) =~= q2); }
    assert(has_run(b, r3)) by { assert(b.subrange(4, 4 + r3.len() as int) =~= r3); }
    assert(is_iptables(steps[3]));
}

/// The rules of one mapping `h:c` publish it: a DNAT rule sends TCP for host port `h`
/// to `ip:c`, and a FORWARD rule accepts TCP to port `c` of `ip`.
pub open spec fn publishes(rules: Seq<ActionView>, op: Seq<char>, ip: Seq<char>, h: Seq<char>, c: Seq<char>) -> bool {
    &&& exists|i: int| 0 <= i < rules.len() && is_iptables(#[trigger] rules[i]) && {
        let a = rules[i]->Run_0.args;
        &&& has_run(a, seq!["-t"@, "nat"@, op, "PREROUTING"@])
        &&& has_run(a, seq!["-p"@, "tcp"@, "--dport"@, h])
        &&& has_run(a, seq!["-j"@, "DNAT"@, "--to-destination"@, ip + ":"@ + c])
    }
    &&& exists|i: int| 0 <= i < rules.len() && is_iptables(#[trigger] rules[i]) && {
        let a = rules[i]->Run_0.args;
        &&& has_run(a, seq![op, "FORWARD"@, "-p"@, "tcp"@, "-d"@, ip, "--dport"@, c])
        &&& has_run(a, seq!["-j"@, "ACCEPT"@])
    }
}

/// The rules of one mapping publish it.
proof fn lemma_port_rules_publish(op: Seq<char>, ip: Seq<char>, m: Seq<char>)
    requires
        pair_spec(m) is Some,
    ensures
        publishes(port_rules(op, ip, m), op, ip, pair_spec(m)->Some_0.0, pair_spec(m)->Some_0.1),
{
    let (h, c) = pair_spec(m)->Some_0;
    let rules = port_rules(op, ip, m);
    let f = rules[0]->Run_0.args;
    let d = rules[1]->Run_0.args;
    assert(f == forward_rule(op, ip, c));
    assert(d == dnat_rule(op, ip, h, c));
    let r1 = seq!["-t"@, "nat"@, op, "PREROUTING"@];
    let r2 = seq!["-p"@, "tcp"@, "--dport"@, h];
    let r3 = seq!["-j"@, "DNAT"@, "--to-destination"@, ip + ":"@ + c];
    let r4 = seq![op, "FORWARD"@, "-p"@, "tcp"@, "-d"@, ip, "--dport"@, c];
    let r5 = seq!["-j"@, "ACCEPT"@];
    assert(has_run(d, r1)) by { assert(d.subrange(0, 0 + r1.len() as int) =~= r1); }
    assert(has_run(d, r2)) by { assert(d.subrange(4, 4 + r2.len() as int) =~= r2); }
    assert(has_run(d, r3)) by { assert(d.subrange(8, 8 + r3.len() as int) =~= r3); }
    assert(has_run(f, r4)) by { assert(f.subrange(0, 0 + r4.len() as int) =~= r4); }
    assert(has_run(f, r5)) by { assert(f.subrange(12, 12 + r5.len() as int) =~= r5); }
    assert(is_iptables(rules[0]));
    assert(is_iptables(rules[1]));
}

/// Publishing survives putting more rules before or after.
proof fn lemma_publishes_extend(
    pre: Seq<ActionView>,
    rules: Seq<ActionView>,
    post: Seq<ActionView>,
    op: Seq<char>,
    ip: Seq<char>,
    h: Seq<char>,
    c: Seq<char>,
)
    requires
        publishes(rules, op, ip, h, c),
    ensures
        publishes(pre + rules + post, op, ip, h, c),
{
    let all = pre + rules + post;
    let i = choose|i: int| 0 <= i < rules.len() && is_iptables(#[trigger] rules[i]) && {
        let a = rules[i]->Run_0.args;
        &&& has_run(a, seq!["-t"@, "nat"@, op, "PREROUTING"@])
        &&& has_run(a, seq!["-p"@, "tcp"@, "--dport"@, h])
        &&& has_run(a, seq!["-j"@, "DNAT"@, "--to-destination"@, ip + ":"@ + c])
    };
    assert(all[pre.len() + i] == rules[i]);
    let j = choose|j: int| 0 <= j < rules.len() && is_iptables(#[trigger] rules[j]) && {
        let a = rules[j]->Run_0.args;
        &&& has_run(a, seq![op, "FORWARD"@, "-p"@, "tcp"@, "-d"@, ip, "--dport"@, c])
        &&& has_run(a, seq!["-j"@, "ACCEPT"@])
    };
    assert(all[pre.len() + j] == rules[j]);
}

/// Every port mapping `h:c` among `ports` is published by the rules of all ports.
pub proof fn lemma_all_port_rules_publish(op: Seq<char>, ip: Seq<char>, ports: Seq<Seq<char>>, k: int)
    requires
        0 <= k < ports.len(),
        pair_spec(ports[k]) is Some,
    ensures
        publishes(all_port_rules(op, ip, ports), op, ip, pair_spec(ports[k])->Some_0.0, pair_spec(ports[k])->Some_0.1),
    decreases ports.len(),
{
    let (h, c) = pair_spec(ports[k])->Some_0;
    let prefix = all_port_rules(op, ip, ports.drop_last());
    let last = port_rules(op, ip, ports.last());
    if k == ports.len() - 1 {
        lemma_port_rules_publish(op, ip, ports.last());
        lemma_publishes_extend(prefix, last, seq![], op, ip, h, c);
        assert(prefix + last + seq![] =~= prefix + last);
    } else {
        assert(ports.drop_last()[k] == ports[k]);
        lemma_all_port_rules_publish(op, ip, ports.drop_last(), k);
        lemma_publishes_extend(seq![], prefix, last, op, ip, h, c);
        assert(seq![] + prefix + last =~= prefix + last);
    }
}

/// Published ports reach the container: when not rootless, for every port mapping
/// `h:c` of the run, the forwarding steps send TCP for host port `h` to port `c` of the
/// container's address and accept it in the FORWARD chain, and the cleanup removes both
/// rules again.
pub proof fn published_ports_reach_the_container(
    name: Seq<char>,
    network: Seq<char>,
    ip: Seq<char>,
    vh: Seq<char>,
    ports: Seq<Seq<char>>,
    k: int,
)
    requires
        0 <= k < ports.len(),
        pair_spec(ports[k]) is Some,
    ensures
        publishes(forwarding_setup_spec(false, network, ip, ports), "-A"@, ip, pair_spec(ports[k])->Some_0.0, pair_spec(ports[k])->Some_0.1),
        publishes(cleanup_spec(false, name, ip, vh, ports), "-D"@, ip, pair_spec(ports[k])->Some_0.0, pair_spec(ports[k])->Some_0.1),
{
    let (h, c) = pair_spec(ports[k])->Some_0;
    lemma_all_port_rules_publish("-A"@, ip, ports, k);
    lemma_all_port_rules_publish("-D"@, ip, ports, k);
    let fw = forwarding_setup_spec(false, network, ip, ports);
    let fixed = fw.take(4);
    assert(fw =~= fixed + all_port_rules("-A"@, ip, ports) + seq![]);
    lemma_publishes_extend(fixed, all_port_rules("-A"@, ip, ports), seq![], "-A"@, ip, h, c);
    let cl = cleanup_spec(false, name, ip, vh, ports);
    let head = cl.take(4);
    assert(cl =~= head + all_port_rules("-D"@, ip, ports) + seq![]);
    lemma_publishes_extend(head, all_port_rules("-D"@, ip, ports), seq![], "-D"@, ip, h, c);
}

/// The step that gives the bridge `network` the address `g/24`.
pub open spec fn bridge_address_step(g: Seq<char>, network: Seq<char>) -> ActionView {
    run_spec("ip"@, seq!["addr"@, "add"@, g + "/24"@, "dev"@, network], OutputMode::Silent, false)
}

/// The container's default route goes through the bridge: when not rootless, the
/// bridge is given an address `g/24`, and inside the container `eth0` gets `ip/24` and
/// the default route goes via that same `g`.
pub proof fn container_routes_through_the_bridge(network: Seq<char>, ip: Seq<char>, pid: u32, vh: Seq<char>, vc: Seq<char>)
    ensures
        exists|g: Seq<char>| {
            &&& bridge_setup_spec(false, network).contains(#[trigger] bridge_address_step(g, network))
            &&& veth_setup_spec(false, network, ip, pid, vh, vc).contains(
                run_spec("nsenter"@, in_netns(pid, seq!["route"@, "add"@, "default"@, "via"@, g]), OutputMode::Inherit, true),
            )
            &&& veth_setup_spec(false, network, ip, pid, vh, vc).contains(
                run_spec("nsenter"@, in_netns(pid, seq!["addr"@, "add"@, ip + "/24"@, "dev"@, "eth0"@]), OutputMode::Inherit, true),
            )
        },
{
    reveal_strlit("10.0.0.1/24");
    reveal_strlit("10.0.0.1");
    reveal_strlit("/24");
    let g = "10.0.0.1"@;
    assert(g + "/24"@ =~= "10.0.0.1/24"@);
    let b = bridge_setup_spec(false, network);
    assert(b[1] == bridge_address_step(g, network));
    let v = veth_setup_spec(false, network, ip, pid, vh, vc);
    assert(v[9] == run_spec("nsenter"@, in_netns(pid, seq!["route"@, "add"@, "default"@, "via"@, g]), OutputMode::Inherit, true));
    assert(v[6] == run_spec("nsenter"@, in_netns(pid, seq!["addr"@, "add"@, ip + "/24"@, "dev"@, "eth0"@]), OutputMode::Inherit, true));
}

/// The limits land where they belong: when not rootless, the memory limit that was read
/// is written to `memory.max`, and the container's process id to `cgroup.procs`, a
/// write that must succeed; the cgroup is the directory created when it was prepared.
pub proof fn limits_land_in_the_container_cgroup(name: Seq<char>, mem_bytes: Seq<char>, pid: u32)
    ensures
        cgroup_prepare_spec(false, name).contains(ActionView::CreateDirAll { path: cgroup_path_spec(name) }),
        cgroup_limit_writes(name, mem_bytes, pid).contains(
            ActionView::WriteFile { path: cgroup_path_spec(name) + "/memory.max"@, contents: mem_bytes, checked: false },
        ),
        cgroup_limit_writes(name, mem_bytes, pid).contains(
            ActionView::WriteFile { path: cgroup_path_spec(name) + "/cgroup.procs"@, contents: decimal(pid as nat), checked: true },
        ),
{
    assert(cgroup_prepare_spec(false, name)[1] == ActionView::CreateDirAll { path: cgroup_path_spec(name) });
    let l = cgroup_limit_writes(name, mem_bytes, pid);
    assert(l[0] == ActionView::WriteFile { path: cgroup_path_spec(name) + "/memory.max"@, contents: mem_bytes, checked: false });
    assert(l[3] == ActionView::WriteFile { path: cgroup_path_spec(name) + "/cgroup.procs"@, contents: decimal(pid as nat), checked: true });
}

/// `flag_pairs` puts each value right after one copy of the flag.
pub proof fn lemma_flag_pairs_layout(flag: Seq<char>, vals: Seq<Seq<char>>)
    ensures
        flag_pairs(flag, vals).len() == 2 * vals.len(),
        forall|k: int| 0 <= k < vals.len() ==> #[trigger] vals[k] == flag_pairs(flag, vals)[2 * k + 1],
        forall|i: int| 0 <= i < flag_pairs(flag, vals).len() && i % 2 == 0 ==> #[trigger] flag_pairs(flag, vals)[i] == flag,
    decreases vals.len(),
{
    if vals.len() > 0 {
        let d = vals.drop_last();
        lemma_flag_pairs_layout(flag, d);
        let f = flag_pairs(flag, vals);
        let g = flag_pairs(flag, d);
        assert(f =~= g + seq![flag, vals.last()]);
        assert forall|k: int| 0 <= k < vals.len() implies #[trigger] vals[k] == f[2 * k + 1] by {
            if k < vals.len() - 1 {
                assert(d[k] == vals[k]);
                assert(d[k] == g[2 * k + 1]);
            }
        }
        assert forall|i: int| 0 <= i < f.len() && i % 2 == 0 implies #[trigger] f[i] == flag by {
            if i < g.len() {
                assert(g[i] == flag);
            }
        }
    }
}

/// The child gets every volume and every port, each right after its flag, and the
/// command to run is the end of its arguments.
pub proof fn child_gets_volumes_ports_and_command(args: RunArgs, ip: Seq<char>, fd: i32)
    ensures
        ({
            let a = child_args_spec(args, ip, fd as int);
            let cmd = texts(args.command@);
            &&& forall|k: int| 0 <= k < args.volumes@.len() ==> has_run(a, seq!["--volumes"@, #[trigger] args.volumes@[k]@])
            &&& forall|k: int| 0 <= k < args.ports@.len() ==> has_run(a, seq!["--ports"@, #[trigger] args.ports@[k]@])
            &&& cmd.len() <= a.len() && a.skip(a.len() - cmd.len()) == cmd
        }),
{
    let a = child_args_spec(args, ip, fd as int);
    let head = seq![
        "internal-child"@,
        "--image"@,
        args.image@,
        "--name"@,
        args.name@,
        "--ip"@,
        ip,
        "--pipe-fd"@,
        signed_decimal(fd as int),
        "--memory"@,
        args.memory@,
        "--network"@,
        args.network@,
    ];
    let sw = (if args.rootless { seq!["--rootless"@] } else { seq![] }) + (if args.readonly {
        seq!["--readonly"@]
    } else {
        seq![]
    });
    let vols = flag_pairs("--volumes"@, texts(args.volumes@));
    let ports = flag_pairs("--ports"@, texts(args.ports@));
    let cmd = texts(args.command@);
    assert(a =~= head + sw + vols + ports + cmd);
    lemma_flag_pairs_layout("--volumes"@, texts(args.volumes@));
    lemma_flag_pairs_layout("--ports"@, texts(args.ports@));
    let hs = head.len() + sw.len();
    assert forall|k: int| 0 <= k < args.volumes@.len() implies has_run(a, seq!["--volumes"@, #[trigger] args.volumes@[k]@]) by {
        let r = seq!["--volumes"@, args.volumes@[k]@];
        assert(vols[2 * k + 1] == texts(args.volumes@)[k]);
        assert(a.subrange(hs + 2 * k, hs + 2 * k + r.len() as int) =~= r);
    }
    let vs = hs + vols.len();
    assert forall|k: int| 0 <= k < args.ports@.len() implies has_run(a, seq!["--ports"@, #[trigger] args.ports@[k]@]) by {
        let r = seq!["--ports"@, args.ports@[k]@];
        assert(ports[2 * k + 1] == texts(args.ports@)[k]);
        assert(a.subrange(vs + 2 * k, vs + 2 * k + r.len() as int) =~= r);
    }
    assert(a.skip(a.len() - cmd.len()) =~= cmd);
}

} // verus!
