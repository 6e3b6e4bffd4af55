use vstd::prelude::*;
use vstd::string::*;
use crate::protocol::{
    ClientCommand, DaemonResponse, DeviceStatus, Reply, not_connected, not_connected_msg,
    not_found, not_found_msg,
};
use crate::registry::Registry;

verus! {

/// Prefix of the advertised name of every mitch device.
pub open spec fn mitch_prefix() -> Seq<char> {
    "mitch"@
}

/// Whether an advertised name belongs to a mitch device.
pub open spec fn is_mitch_name(s: Seq<char>) -> bool {
    mitch_prefix().is_prefix_of(s)
}

/// The mitch names among the advertised names, in order; unnamed devices are
/// skipped.
pub open spec fn mitch_names(v: Seq<Option<String>>) -> Seq<Seq<char>>
    decreases v.len(),
{
    if v.len() == 0 {
        seq![]
    } else {
        let rest = mitch_names(v.drop_last());
        match v.last() {
            Some(n) => if is_mitch_name(n@) {
                rest.push(n@)
            } else {
                rest
            },
            None => rest,
        }
    }
}

/// Whether the device at index `i` advertises exactly `name`.
pub open spec fn advertises(v: Seq<Option<String>>, i: int, name: Seq<char>) -> bool {
    v[i] is Some && v[i]->Some_0@ == name
}

/// The answer to a `Connect` lookup: the index of the last device advertising
/// `name`, or the "not found" error.
pub open spec fn locate_spec(v: Seq<Option<String>>, name: Seq<char>) -> Result<int, Reply> {
    if exists|i: int| 0 <= i < v.len() && advertises(v, i, name) {
        Ok(choose|i: int| 0 <= i < v.len() && advertises(v, i, name) && forall|j: int|
            i < j < v.len() ==> !advertises(v, j, name))
    } else {
        Err(Reply::Error(not_found_msg(name)))
    }
}

/// The reply to `Disconnect` against a registry whose contents are `m`.
pub open spec fn disconnect_reply<S>(m: Map<Seq<char>, (u64, S)>, name: Seq<char>) -> Reply {
    if m.contains_key(name) {
        Reply::Success
    } else {
        Reply::Error(not_connected_msg())
    }
}

/// The status entries gathered from the replies: one for each actor that
/// answered, in the order of `names`.
pub open spec fn gathered(names: Seq<String>, replies: Seq<Option<u8>>) -> Seq<(Seq<char>, u8)>
    decreases names.len(),
{
    if names.len() == 0 || replies.len() == 0 {
        seq![]
    } else {
        let rest = gathered(names.drop_last(), replies.drop_last());
        match replies.last() {
            Some(b) => rest.push((names.last()@, b)),
            None => rest,
        }
    }
}

/// Whether an advertised name starts with the mitch prefix.
pub fn has_mitch_prefix(name: &String) -> (r: bool)
    ensures
        r == is_mitch_name(name@),
{
    proof {
        reveal_strlit("mitch");
    }
    let s = name.as_str();
    let n = s.unicode_len();
    if n < 5 {
        return false;
    }
    let r = s.get_char(0) == 'm' && s.get_char(1) == 'i' && s.get_char(2) == 't' && s.get_char(3)
        == 'c' && s.get_char(4) == 'h';
    proof {
        if r {
            assert(mitch_prefix() =~= name@.take(5));
        } else {
            if is_mitch_name(name@) {
                assert(name@.take(5) == mitch_prefix());
                assert(name@[0] == name@.take(5)[0]);
                assert(name@[1] == name@.take(5)[1]);
                assert(name@[2] == name@.take(5)[2]);
                assert(name@[3] == name@.take(5)[3]);
                assert(name@[4] == name@.take(5)[4]);
            }
        }
    }
    r
}

/// The reply to `Scan`, given the advertised names of the devices the adapter
/// sees once discovery stopped: the names that start with "mitch". It never
/// fails and depends on nothing else, so a window of zero milliseconds yields
/// the devices already known.
pub fn scan_reply(visible: &Vec<Option<String>>) -> (r: DaemonResponse)
    ensures
        r@ == Reply::Devices(mitch_names(visible@)),
{
    let mut out: Vec<String> = Vec::new();
    let mut i: usize = 0;
    while i < visible.len()
        invariant
            i <= visible@.len(),
            out@.map_values(|s: String| s@) == mitch_names(visible@.take(i as int)),
        decreases visible@.len() - i,
    {
        assert(visible@.take(i as int + 1).drop_last() =~= visible@.take(i as int));
        match &visible[i] {
            Some(n) => {
                if has_mitch_prefix(n) {
                    out.push(n.clone());
                }
            },
            None => {},
        }
        i = i + 1;
        assert(out@.map_values(|s: String| s@) =~= mitch_names(visible@.take(i as int)));
    }
    assert(visible@.take(i as int) =~= visible@);
    DaemonResponse::Devices(out)
}

/// Locates the device to connect: the index of the last device whose
/// advertised name equals `name`, or the reply "<name> not found".
pub fn locate(visible: &Vec<Option<String>>, name: &String) -> (r: Result<usize, DaemonResponse>)
    ensures
        match locate_spec(visible@, name@) {
            Ok(i) => r is Ok && r->Ok_0 == i,
            Err(e) => r is Err && r->Err_0@ == e,
        },
{
    let mut found: Option<usize> = None;
    let mut i: usize = 0;
    while i < visible.len()
        invariant
            i <= visible@.len(),
            match found {
                Some(k) => k < i && advertises(visible@, k as int, name@) && forall|j: int|
                    k < j < i ==> !advertises(visible@, j, name@),
                None => forall|j: int| 0 <= j < i ==> !advertises(visible@, j, name@),
            },
        decreases visible@.len() - i,
    {
        match &visible[i] {
            Some(n) => {
                if *n == *name {
                    found = Some(i);
                }
            },
            None => {},
        }
        i = i + 1;
    }
    match found {
        Some(k) => {
            proof {
                let v = visible@;
                assert(0 <= k < v.len() && advertises(v, k as int, name@));
                let c = choose|c: int| 0 <= c < v.len() && advertises(v, c, name@) && forall|j: int|
                    c < j < v.len() ==> !advertises(v, j, name@);
                assert(c == k) by {
                    if c < k {
                    } else if c > k {
                    }
                }
            }
            Ok(k)
        },
        None => Err(not_found(name)),
    }
}

/// Handles `Disconnect`: removes the entry for `name` and hands back its
/// sender, to which the caller sends `Shutdown`. Replies `Error("Device not
/// connected")` exactly when there was no entry, and then changes nothing.
pub fn disconnect<S>(registry: &mut Registry<S>, name: &String) -> (r: (DaemonResponse, Option<S>))
    requires
        old(registry).wf(),
    ensures
        final(registry).wf(),
        final(registry)@ == old(registry)@.remove(name@),
        r.0@ == disconnect_reply(old(registry)@, name@),
        r.1 is Some <==> old(registry)@.contains_key(name@),
        r.1 is Some ==> r.1->Some_0 == old(registry)@[name@].1,
{
    match registry.remove(name) {
        Some((_, sender)) => (DaemonResponse::Success, Some(sender)),
        None => (not_connected(), None),
    }
}

/// Handles `Record`: the sender to which `StartRecording` goes, or the reply
/// `Error("Device not connected")` when no actor serves `name`.
pub fn record<'a, S>(registry: &'a Registry<S>, name: &String) -> (r: Result<&'a S, DaemonResponse>)
    requires
        registry.wf(),
    ensures
        r is Ok <==> registry@.contains_key(name@),
        r is Ok ==> *r->Ok_0 == registry@[name@].1,
        r is Err ==> r->Err_0@ == Reply::Error(not_connected_msg()),
{
    match registry.get(name) {
        Some(s) => Ok(s),
        None => Err(not_connected()),
    }
}

/// Handles the end of a successful `Connect`: registers the new actor's
/// sender under `name` and replies `Ok`. The entry it displaced, if any, is
/// handed back so that its actor is shut down.
pub fn register<S>(registry: &mut Registry<S>, name: String, actor: u64, sender: S) -> (r: (
    DaemonResponse,
    Option<(u64, S)>,
))
    requires
        old(registry).wf(),
    ensures
        final(registry).wf(),
        final(registry)@ == old(registry)@.insert(name@, (actor, sender)),
        r.0@ == Reply::Success,
        r.1 is Some <==> old(registry)@.contains_key(name@),
        r.1 is Some ==> r.1->Some_0 == old(registry)@[name@],
{
    let prev = registry.insert(name, actor, sender);
    (DaemonResponse::Success, prev)
}

/// The reply to `Status`: `names[i]` is the device whose actor was asked,
/// `replies[i]` its power byte, or `None` where the actor went away first.
pub fn status_reply(names: &Vec<String>, replies: &Vec<Option<u8>>) -> (r: DaemonResponse)
    requires
        names@.len() == replies@.len(),
    ensures
        r@ == Reply::Status(gathered(names@, replies@)),
{
    let mut out: Vec<DeviceStatus> = Vec::new();
    let mut i: usize = 0;
    while i < names.len()
        invariant
            i <= names@.len(),
            names@.len() == replies@.len(),
            out@.map_values(|s: DeviceStatus| s@) == gathered(
                names@.take(i as int),
                replies@.take(i as int),
            ),
        decreases names@.len() - i,
    {
        assert(names@.take(i as int + 1).drop_last() =~= names@.take(i as int));
        assert(replies@.take(i as int + 1).drop_last() =~= replies@.take(i as int));
        match replies[i] {
            Some(b) => {
                out.push(DeviceStatus { name: names[i].clone(), power: b });
            },
            None => {},
        }
        i = i + 1;
        assert(out@.map_values(|s: DeviceStatus| s@) =~= gathered(
            names@.take(i as int),
            replies@.take(i as int),
        ));
    }
    assert(names@.take(i as int) =~= names@);
    assert(replies@.take(i as int) =~= replies@);
    DaemonResponse::Status(out)
}

/// How long discovery runs before a command's devices are listed: the
/// requested window for `Scan`, five seconds for `Connect`, none otherwise.
pub fn discovery_window_ms(command: &ClientCommand) -> (r: Option<u64>)
    ensures
        match *command {
            ClientCommand::Scan { timeout_ms } => r == Some(timeout_ms),
            ClientCommand::Connect { .. } => r == Some(5000u64),
            _ => r is None,
        },
{
    match command {
        ClientCommand::Scan { timeout_ms } => Some(*timeout_ms),
        ClientCommand::Connect { .. } => Some(5000),
        _ => None,
    }
}

/// `Disconnect` of an unknown name changes nothing and replies with an error,
/// and a second `Disconnect` of a name always replies "Device not connected".
pub proof fn lemma_disconnect_twice<S>(m: Map<Seq<char>, (u64, S)>, name: Seq<char>)
    ensures
        !m.contains_key(name) ==> m.remove(name) == m && disconnect_reply(m, name) == Reply::Error(
            not_connected_msg(),
        ),
        disconnect_reply(m.remove(name), name) == Reply::Error(not_connected_msg()),
{
    if !m.contains_key(name) {
        assert(m.remove(name) =~= m);
    }
}

/// `Connect` with an empty name replies "<name> not found", that is
/// " not found", where no device advertises the empty name.
pub proof fn lemma_connect_empty_name(v: Seq<Option<String>>)
    requires
        forall|i: int| 0 <= i < v.len() ==> !advertises(v, i, Seq::<char>::empty()),
    ensures
        locate_spec(v, Seq::<char>::empty()) == Err::<int, Reply>(Reply::Error(" not found"@)),
{
    assert(not_found_msg(Seq::<char>::empty()) =~= " not found"@);
}

proof fn lemma_gathered_from(names: Seq<String>, replies: Seq<Option<u8>>)
    requires
        names.len() == replies.len(),
    ensures
        gathered(names, replies).len() <= names.len(),
        forall|i: int|
            0 <= i < gathered(names, replies).len() ==> exists|k: int|
                0 <= k < names.len() && names[k]@ == (#[trigger] gathered(names, replies)[i]).0,
    decreases names.len(),
{
    if names.len() > 0 {
        let (pn, pr) = (names.drop_last(), replies.drop_last());
        lemma_gathered_from(pn, pr);
        let g = gathered(names, replies);
        let h = gathered(pn, pr);
        assert forall|i: int| 0 <= i < g.len() implies exists|k: int|
            0 <= k < names.len() && names[k]@ == (#[trigger] g[i]).0 by {
            if i < h.len() {
                assert(g[i] == h[i]);
                let k = choose|k: int| 0 <= k < pn.len() && pn[k]@ == h[i].0;
                assert(names[k] == pn[k]);
            } else {
                assert(names[names.len() - 1]@ == g[i].0);
            }
        }
    }
}

/// A `Status` request yields at most one entry per registered actor: the
/// entries come from distinct names, each one of the names asked.
pub proof fn lemma_status_one_per_actor(names: Seq<String>, replies: Seq<Option<u8>>)
    requires
        names.len() == replies.len(),
        forall|i: int, j: int| 0 <= i < j < names.len() ==> names[i]@ != names[j]@,
    ensures
        gathered(names, replies).len() <= names.len(),
        forall|i: int, j: int|
            0 <= i < j < gathered(names, replies).len() ==> (#[trigger] gathered(names, replies)[i]).0
                != (#[trigger] gathered(names, replies)[j]).0,
        forall|i: int|
            0 <= i < gathered(names, replies).len() ==> exists|k: int|
                0 <= k < names.len() && names[k]@ == (#[trigger] gathered(names, replies)[i]).0,
    decreases names.len(),
{
    lemma_gathered_from(names, replies);
    if names.len() > 0 {
        let (pn, pr) = (names.drop_last(), replies.drop_last());
        lemma_status_one_per_actor(pn, pr);
        lemma_gathered_from(pn, pr);
        let g = gathered(names, replies);
        let h = gathered(pn, pr);
        assert forall|i: int, j: int| 0 <= i < j < g.len() implies (#[trigger] g[i]).0 != (
        #[trigger] g[j]).0 by {
            if j < h.len() {
                assert(g[i] == h[i] && g[j] == h[j]);
            } else {
                assert(g[i] == h[i]);
                let k = choose|k: int| 0 <= k < pn.len() && pn[k]@ == h[i].0;
                assert(names[k] == pn[k]);
                assert(g[j].0 == names[names.len() - 1]@);
            }
        }
    }
}

} // verus!
