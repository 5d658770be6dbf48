//! The UCI side of the configuration (/etc/config/mtpoe): which `uci` commands
//! read or seed it, and what their answers mean. The commands themselves are
//! run by the caller, one at a time, as the plans below ask for them.

use vstd::prelude::*;
use crate::error::MtpoeError;
use crate::poe::{poe_value_from_chars, poe_value_of};
use crate::text::{dec, parse_u8, parse_u8_chars, push_chars, push_dec, push_str, string_of, trim, trim_chars};

verus! {

/// The UCI package: /etc/config/mtpoe.
pub const UCI_CONFIG_FILE: &'static str = "mtpoe";
/// The section type that holds the port modes.
pub const DEFAULT_UCI_SECTION: &'static str = "poe";

/// What one run of the `uci` program gave.
pub enum UciReply {
    /// The program could not be started, for this reason.
    SpawnFailed(String),
    /// It ran; whether it exited with success, and its standard output.
    Exited { success: bool, stdout: String },
}

/// The next thing a plan needs: another `uci` run with these arguments, or
/// its final result.
pub enum UciStep<T> {
    Run(Vec<String>),
    Done(Result<T, MtpoeError>),
}

/// The arguments of a planned run, as character sequences.
pub open spec fn args_view(args: Seq<String>) -> Seq<Seq<char>> {
    args.map_values(|a: String| a@)
}

/// The UCI key of chassis port `port` in the first `section` section.
pub open spec fn port_key(section: Seq<char>, port: nat) -> Seq<char> {
    "mtpoe.@"@ + section + "[0].port"@ + dec(port)
}

/// What the `uci get` runs for ports 1, 2, ... answered, read in order: the
/// `(port, value)` pairs set so far, or the message of the first bad answer.
/// A port whose lookup fails is not set and is skipped. A value is a number
/// 0..2 or a mode name (`off`, `force`/`on`, `auto`).
pub open spec fn read_ports(replies: Seq<UciReply>) -> Result<Seq<(usize, u8)>, Seq<char>>
    decreases replies.len(),
{
    if replies.len() == 0 {
        Ok(Seq::empty())
    } else {
        let port = replies.len();
        match read_ports(replies.drop_last()) {
            Err(e) => Err(e),
            Ok(acc) => match replies.last() {
                UciReply::SpawnFailed(e) => Err("uci get failed: "@ + e@),
                UciReply::Exited { success, stdout } => if !success {
                    Ok(acc)
                } else {
                    let v = trim(stdout@);
                    match parse_u8(v, 10) {
                        None => match poe_value_of(v) {
                            Some(x) => Ok(acc.push((port as usize, x))),
                            None => Err("port"@ + dec(port) + ": invalid value '"@ + v + "'"@),
                        },
                        Some(x) => if x > 2 {
                            Err("port"@ + dec(port) + ": value "@ + dec(x as nat)
                                + " out of range (must be 0..2)"@)
                        } else {
                            Ok(acc.push((port as usize, x)))
                        },
                    }
                },
            },
        }
    }
}

/// Builds the UCI key of a port.
fn port_key_string(section: &str, port: usize) -> (s: String)
    ensures
        s@ == port_key(section@, port as nat),
{
    let mut s: String = string_of("mtpoe.@");
    push_str(&mut s, section);
    push_str(&mut s, "[0].port");
    push_dec(&mut s, port as u64);
    s
}

/// Plans reading the port modes from the `section` section: one `uci -q get`
/// per port, in order (the caller runs each and hands back the replies so far).
/// Only ports set in UCI are returned; values must be 0..2.
pub fn load_poe_from_uci(section: &str, ports_num: usize, replies: &[UciReply]) -> (s: UciStep<
    Vec<(usize, u8)>,
>)
    requires
        replies@.len() <= ports_num,
    ensures
        match read_ports(replies@) {
            Err(e) => s matches UciStep::Done(Err(MtpoeError::Uci(m))) && m@ == e,
            Ok(acc) => if replies@.len() < ports_num {
                s matches UciStep::Run(args) && args_view(args@) == seq![
                    "-q"@,
                    "get"@,
                    port_key(section@, (replies@.len() + 1) as nat),
                ]
            } else {
                s matches UciStep::Done(Ok(v)) && v@ == acc
            },
        },
{
    let mut acc: Vec<(usize, u8)> = Vec::new();
    let mut i: usize = 0;
    assert(replies@.subrange(0, 0) =~= Seq::<UciReply>::empty());
    while i < replies.len()
        invariant
            i <= replies@.len() <= ports_num,
            read_ports(replies@.subrange(0, i as int)) == Ok::<Seq<(usize, u8)>, Seq<char>>(acc@),
        decreases replies@.len() - i,
    {
        let ghost cur = replies@.subrange(0, i + 1);
        assert(cur.drop_last() =~= replies@.subrange(0, i as int));
        assert(cur.last() == replies@[i as int]);
        let port: usize = i + 1;
        match &replies[i] {
            UciReply::SpawnFailed(e) => {
                let mut m: String = string_of("uci get failed: ");
                push_str(&mut m, e.as_str());
                proof {
                    lemma_read_ports_stays_err(replies@, (i + 1) as nat);
                    assert(replies@.subrange(0, (i + 1) as int) == cur);
                }
                return UciStep::Done(Err(MtpoeError::Uci(m)));
            },
            UciReply::Exited { success, stdout } => {
                if *success {
                    let v: Vec<char> = trim_chars(stdout.as_str());
                    match parse_u8_chars(v.as_slice(), 0, v.len(), 10) {
                        None => {
                            assert(v@.subrange(0, v@.len() as int) =~= v@);
                            if let Some(x) = poe_value_from_chars(v.as_slice()) {
                                acc.push((port, x));
                                i = i + 1;
                                continue;
                            }
                            let mut m: String = string_of("port");
                            push_dec(&mut m, port as u64);
                            push_str(&mut m, ": invalid value '");
                            push_chars(&mut m, v.as_slice(), 0, v.len());
                            push_str(&mut m, "'");
                            proof {
                                lemma_read_ports_stays_err(replies@, (i + 1) as nat);
                            }
                            return UciStep::Done(Err(MtpoeError::Uci(m)));
                        },
                        Some(x) => {
                            assert(v@.subrange(0, v@.len() as int) =~= v@);
                            if x > 2 {
                                let mut m: String = string_of("port");
                                push_dec(&mut m, port as u64);
                                push_str(&mut m, ": value ");
                                push_dec(&mut m, x as u64);
                                push_str(&mut m, " out of range (must be 0..2)");
                                proof {
                                    lemma_read_ports_stays_err(replies@, (i + 1) as nat);
                                }
                                return UciStep::Done(Err(MtpoeError::Uci(m)));
                            }
                            acc.push((port, x));
                        },
                    }
                }
            },
        }
        i = i + 1;
    }
    assert(replies@.subrange(0, replies@.len() as int) =~= replies@);
    if replies.len() < ports_num {
        let args: Vec<String> = vec![string_of("-q"), string_of("get"), port_key_string(section, replies.len() + 1)];
        assert(args_view(args@) =~= seq!["-q"@, "get"@, port_key(section@, (replies@.len() + 1) as nat)]);
        UciStep::Run(args)
    } else {
        UciStep::Done(Ok(acc))
    }
}

/// Once the replies read so far are refused, more replies do not change that.
proof fn lemma_read_ports_stays_err(replies: Seq<UciReply>, k: nat)
    requires
        k <= replies.len(),
        read_ports(replies.subrange(0, k as int)) is Err,
    ensures
        read_ports(replies) == read_ports(replies.subrange(0, k as int)),
    decreases replies.len(),
{
    if k < replies.len() {
        assert(replies.drop_last().subrange(0, k as int) =~= replies.subrange(0, k as int));
        lemma_read_ports_stays_err(replies.drop_last(), k);
    } else {
        assert(replies.subrange(0, k as int) =~= replies);
    }
}

/// The key of the first `section` section.
pub open spec fn section_key(section: Seq<char>) -> Seq<char> {
    "mtpoe.@"@ + section + "[0]"@
}

/// The assignment that sets chassis port `port` of the newest `section` section to auto.
pub open spec fn auto_assignment(section: Seq<char>, port: nat) -> Seq<char> {
    "mtpoe.@"@ + section + "[-1].port"@ + dec(port) + "=2"@
}

/// Run number `k` of seeding the configuration for `ports_num` ports: look the
/// section up, add it, set each port to auto, commit.
pub open spec fn setup_command(section: Seq<char>, ports_num: nat, k: nat) -> Seq<Seq<char>> {
    if k == 0 {
        seq!["-q"@, "get"@, section_key(section)]
    } else if k == 1 {
        seq!["add"@, "mtpoe"@, section]
    } else if k <= ports_num + 1 {
        seq!["set"@, auto_assignment(section, (k - 1) as nat)]
    } else {
        seq!["commit"@, "mtpoe"@]
    }
}

/// Words joined by single spaces.
pub open spec fn join_words(ws: Seq<Seq<char>>) -> Seq<char>
    decreases ws.len(),
{
    if ws.len() == 0 {
        Seq::empty()
    } else if ws.len() == 1 {
        ws[0]
    } else {
        join_words(ws.drop_last()) + " "@ + ws.last()
    }
}

/// Whether a run exited with success.
pub open spec fn ran_ok(r: UciReply) -> bool {
    match r {
        UciReply::Exited { success, .. } => success,
        UciReply::SpawnFailed(_) => false,
    }
}

/// The message of the first failed run after the lookup, if any.
pub open spec fn setup_failure(section: Seq<char>, ports_num: nat, replies: Seq<UciReply>) -> Option<Seq<char>>
    decreases replies.len(),
{
    if replies.len() <= 1 {
        None
    } else {
        match setup_failure(section, ports_num, replies.drop_last()) {
            Some(m) => Some(m),
            None => {
                let cmd = join_words(setup_command(section, ports_num, (replies.len() - 1) as nat));
                match replies.last() {
                    UciReply::SpawnFailed(e) => Some("uci "@ + cmd + ": "@ + e@),
                    UciReply::Exited { success, .. } => if success {
                        None
                    } else {
                        Some("uci "@ + cmd + " failed"@)
                    },
                }
            },
        }
    }
}

/// Builds the arguments of run number `k` of seeding the configuration.
fn setup_args(section: &str, ports_num: usize, k: usize) -> (args: Vec<String>)
    ensures
        args_view(args@) == setup_command(section@, ports_num as nat, k as nat),
{
    let args: Vec<String> = if k == 0 {
        let mut key: String = string_of("mtpoe.@");
        push_str(&mut key, section);
        push_str(&mut key, "[0]");
        vec![string_of("-q"), string_of("get"), key]
    } else if k == 1 {
        vec![string_of("add"), string_of("mtpoe"), string_of(section)]
    } else if k - 1 <= ports_num {
        let mut a: String = string_of("mtpoe.@");
        push_str(&mut a, section);
        push_str(&mut a, "[-1].port");
        push_dec(&mut a, (k - 1) as u64);
        push_str(&mut a, "=2");
        vec![string_of("set"), a]
    } else {
        vec![string_of("commit"), string_of("mtpoe")]
    };
    assert(args_view(args@) =~= setup_command(section@, ports_num as nat, k as nat));
    args
}

/// The arguments joined by spaces.
fn join_args(args: &Vec<String>) -> (s: String)
    ensures
        s@ == join_words(args_view(args@)),
{
    let mut s: String = String::new();
    let mut i: usize = 0;
    while i < args.len()
        invariant
            i <= args@.len(),
            s@ == join_words(args_view(args@.subrange(0, i as int))),
        decreases args@.len() - i,
    {
        let ghost cur = args_view(args@.subrange(0, i + 1));
        assert(cur.drop_last() =~= args_view(args@.subrange(0, i as int)));
        if i > 0 {
            push_str(&mut s, " ");
        } else {
            assert(args_view(args@.subrange(0, 0)) =~= Seq::<Seq<char>>::empty());
        }
        push_str(&mut s, args[i].as_str());
        assert(cur.last() == args@[i as int]@);
        i = i + 1;
    }
    assert(args@.subrange(0, args@.len() as int) =~= args@);
    s
}

/// Plans seeding the configuration with a `section` section that sets every
/// one of `ports_num` ports to auto, unless such a section exists already (the
/// caller runs each `uci` command asked for and hands back the replies so far).
/// The result is the number of ports written, 0 when the section was there.
pub fn write_default_config(section: &str, ports_num: usize, replies: &[UciReply]) -> (s: UciStep<usize>)
    ensures
        replies@.len() == 0 ==> (s matches UciStep::Run(args) && args_view(args@) == setup_command(
            section@,
            ports_num as nat,
            0,
        )),
        replies@.len() > 0 && ran_ok(replies@[0]) ==> (s matches UciStep::Done(Ok(n)) && n == 0),
        replies@.len() > 0 && !ran_ok(replies@[0]) ==> match setup_failure(
            section@,
            ports_num as nat,
            replies@,
        ) {
            Some(m) => s matches UciStep::Done(Err(MtpoeError::Uci(e))) && e@ == m,
            None => if replies@.len() < ports_num + 3 {
                s matches UciStep::Run(args) && args_view(args@) == setup_command(
                    section@,
                    ports_num as nat,
                    replies@.len() as nat,
                )
            } else {
                s matches UciStep::Done(Ok(n)) && n == ports_num
            },
        },
{
    if replies.len() == 0 {
        return UciStep::Run(setup_args(section, ports_num, 0));
    }
    match &replies[0] {
        UciReply::Exited { success, .. } => {
            if *success {
                return UciStep::Done(Ok(0));
            }
        },
        UciReply::SpawnFailed(_) => {},
    }
    let mut k: usize = 1;
    assert(setup_failure(section@, ports_num as nat, replies@.subrange(0, 1)) is None);
    while k < replies.len()
        invariant
            1 <= k <= replies@.len(),
            !ran_ok(replies@[0]),
            setup_failure(section@, ports_num as nat, replies@.subrange(0, k as int)) is None,
        decreases replies@.len() - k,
    {
        let ghost cur = replies@.subrange(0, k + 1);
        assert(cur.drop_last() =~= replies@.subrange(0, k as int));
        assert(cur.last() == replies@[k as int]);
        match &replies[k] {
            UciReply::SpawnFailed(e) => {
                let args: Vec<String> = setup_args(section, ports_num, k);
                let mut m: String = string_of("uci ");
                let joined: String = join_args(&args);
                push_str(&mut m, joined.as_str());
                push_str(&mut m, ": ");
                push_str(&mut m, e.as_str());
                proof {
                    lemma_setup_failure_stays(section@, ports_num as nat, replies@, (k + 1) as nat);
                }
                return UciStep::Done(Err(MtpoeError::Uci(m)));
            },
            UciReply::Exited { success, .. } => {
                if !*success {
                    let args: Vec<String> = setup_args(section, ports_num, k);
                    let mut m: String = string_of("uci ");
                    let joined: String = join_args(&args);
                    push_str(&mut m, joined.as_str());
                    push_str(&mut m, " failed");
                    proof {
                        lemma_setup_failure_stays(section@, ports_num as nat, replies@, (k + 1) as nat);
                    }
                    return UciStep::Done(Err(MtpoeError::Uci(m)));
                }
            },
        }
        k = k + 1;
    }
    assert(replies@.subrange(0, replies@.len() as int) =~= replies@);
    if replies.len() < 3 || replies.len() - 3 < ports_num {
        UciStep::Run(setup_args(section, ports_num, replies.len()))
    } else {
        UciStep::Done(Ok(ports_num))
    }
}

/// Seeding sets every port of the board, each exactly once and in order: for
/// every `ports_num` and every port `1 <= p <= ports_num`, run number `p + 1`
/// is `set mtpoe.@<section>[-1].port<p>=2`; among the runs up to the last one
/// (number `ports_num + 2`), that last one is the only `commit mtpoe`.
pub proof fn lemma_setup_sets_every_port(section: Seq<char>, ports_num: nat, p: nat, k: nat)
    ensures
        1 <= p <= ports_num ==> setup_command(section, ports_num, p + 1) == seq![
            "set"@,
            "mtpoe.@"@ + section + "[-1].port"@ + dec(p) + "=2"@,
        ],
        k <= ports_num + 2 ==> (setup_command(section, ports_num, k) == seq!["commit"@, "mtpoe"@] <==> k
            == ports_num + 2),
{
    reveal_strlit("set");
    reveal_strlit("commit");
    if k < ports_num + 2 {
        let c = setup_command(section, ports_num, k);
        if k >= 2 {
            assert(c[0] != "commit"@) by {
                assert(c[0] == "set"@);
                assert("set"@.len() != "commit"@.len());
            }
        } else {
            assert(c.len() == 3);
        }
    }
}

/// Once a run has failed, later replies do not change the failure reported.
proof fn lemma_setup_failure_stays(section: Seq<char>, ports_num: nat, replies: Seq<UciReply>, k: nat)
    requires
        k <= replies.len(),
        setup_failure(section, ports_num, replies.subrange(0, k as int)) is Some,
    ensures
        setup_failure(section, ports_num, replies) == setup_failure(section, ports_num, replies.subrange(0, k as int)),
    decreases replies.len(),
{
    if k < replies.len() {
        assert(replies.drop_last().subrange(0, k as int) =~= replies.subrange(0, k as int));
        lemma_setup_failure_stays(section, ports_num, replies.drop_last(), k);
    } else {
        assert(replies.subrange(0, k as int) =~= replies);
    }
}

/// Every port read from the configuration is a chassis port of the board
/// (1-based, at most the number of lookups made), listed once and in order,
/// with a value 0..2.
pub proof fn lemma_read_ports_valid(replies: Seq<UciReply>)
    requires
        read_ports(replies) is Ok,
        replies.len() <= usize::MAX,
    ensures
        forall|i: int|
            0 <= i < read_ports(replies)->Ok_0.len() ==> 1 <= #[trigger] read_ports(replies)->Ok_0[i].0
                <= replies.len() && read_ports(replies)->Ok_0[i].1 <= 2,
        forall|i: int, j: int|
            0 <= i < j < read_ports(replies)->Ok_0.len() ==> #[trigger] read_ports(replies)->Ok_0[i].0
                < #[trigger] read_ports(replies)->Ok_0[j].0,
    decreases replies.len(),
{
    if replies.len() > 0 {
        let prev = read_ports(replies.drop_last());
        assert(prev is Ok);
        lemma_read_ports_valid(replies.drop_last());
        let acc = prev->Ok_0;
        let res = read_ports(replies)->Ok_0;
        assert(res == acc || (res.len() == acc.len() + 1 && res.drop_last() == acc && res.last().0
            == replies.len() && res.last().1 <= 2)) by {
            match replies.last() {
                UciReply::SpawnFailed(_) => {},
                UciReply::Exited { success, stdout } => {
                    if success {
                        let v = trim(stdout@);
                        match parse_u8(v, 10) {
                            None => {
                                assert(acc.push((replies.len() as usize, poe_value_of(v)->0)).drop_last() =~= acc);
                            },
                            Some(x) => {
                                assert(acc.push((replies.len() as usize, x)).drop_last() =~= acc);
                            },
                        }
                    }
                },
            }
        }
        if res != acc {
            assert forall|i: int| 0 <= i < res.len() implies 1 <= #[trigger] res[i].0 <= replies.len()
                && res[i].1 <= 2 by {
                if i < acc.len() {
                    assert(res[i] == res.drop_last()[i]);
                }
            }
            assert forall|i: int, j: int| 0 <= i < j < res.len() implies #[trigger] res[i].0 < #[trigger] res[j].0 by {
                assert(res[i] == res.drop_last()[i]);
                if j < acc.len() {
                    assert(res[j] == res.drop_last()[j]);
                }
            }
        }
    }
}

} // verus!
