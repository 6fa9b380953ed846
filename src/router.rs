//! The delivery decision for one inbound envelope.
use crate::envelope::{local_time_stamp, EnvelopeView, Message};
use crate::identity::ArcString;
use crate::registry::{handle_of, ids_of, keys_unique, Registry};
use crate::text::{chars_of, decimal, decimal_spec, push_all, string_of};
use vstd::prelude::*;

verus! {

/// One envelope to enqueue on the outbound channel of `target`.
pub struct Delivery {
    pub target: ArcString,
    pub envelope: Message,
}

impl View for Delivery {
    type V = (Seq<char>, EnvelopeView);

    open spec fn view(&self) -> (Seq<char>, EnvelopeView) {
        (self.target@, self.envelope@)
    }
}

/// The sender name of envelopes that the server writes itself.
pub open spec fn server_name() -> Seq<char> {
    "Server"@
}

/// The recipient that asks for the directory instead of naming a user.
pub open spec fn list_command() -> Seq<char> {
    "/list"@
}

pub open spec fn list_separator() -> Seq<char> {
    "\n  › "@
}

/// The identities one per line, joined by the list separator.
pub open spec fn join_ids(ids: Seq<Seq<char>>) -> Seq<char>
    decreases ids.len(),
{
    if ids.len() == 0 {
        Seq::empty()
    } else if ids.len() == 1 {
        ids[0]
    } else {
        join_ids(ids.drop_last()) + list_separator() + ids.last()
    }
}

/// The directory text for the given online identities.
pub open spec fn listing(ids: Seq<Seq<char>>) -> Seq<char> {
    if ids.len() == 0 {
        "当前无其他在线用户"@
    } else {
        "当前在线用户 (共"@ + decimal_spec(ids.len()) + "人):"@ + list_separator() + join_ids(ids)
    }
}

/// The notice that `to` is not online.
pub open spec fn offline_notice(to: Seq<char>) -> Seq<char> {
    "用户 "@ + to + " 不在线"@
}

/// A server-authored envelope to `to`.
pub open spec fn notice(to: Seq<char>, time_stamp: Seq<char>, content: Seq<char>) -> EnvelopeView {
    EnvelopeView { from: server_name(), to, time_stamp, content }
}

/// Where the envelope `env` read from `sender`'s connection goes, and what is
/// enqueued there. A directory query is answered to the sender; an envelope for
/// an online identity is forwarded unchanged; otherwise the sender is told the
/// recipient is offline. Answers to a sender that is no longer online are dropped.
pub open spec fn routing<C>(
    reg: Seq<(Seq<char>, C)>,
    sender: Seq<char>,
    env: EnvelopeView,
    time_stamp: Seq<char>,
) -> Option<(Seq<char>, EnvelopeView)> {
    if env.to == list_command() {
        if handle_of(reg, sender) is Some {
            Some((sender, notice(sender, time_stamp, listing(ids_of(reg)))))
        } else {
            None
        }
    } else if handle_of(reg, env.to) is Some {
        Some((env.to, env))
    } else if handle_of(reg, sender) is Some {
        Some((sender, notice(sender, time_stamp, offline_notice(env.to))))
    } else {
        None
    }
}

/// `d` is the delivery that `o` describes.
pub open spec fn delivered_as(d: Option<Delivery>, o: Option<(Seq<char>, EnvelopeView)>) -> bool {
    match d {
        Some(x) => o == Some(x@),
        None => o is None,
    }
}

fn push_joined(out: &mut Vec<char>, ids: &Vec<ArcString>)
    ensures
        final(out)@ == old(out)@ + join_ids(ids@.map_values(|a: ArcString| a@)),
{
    let ghost all = ids@.map_values(|a: ArcString| a@);
    let sep = chars_of("\n  › ");
    let mut i: usize = 0;
    while i < ids.len()
        invariant
            i <= ids.len(),
            sep@ == list_separator(),
            all == ids@.map_values(|a: ArcString| a@),
            out@ == old(out)@ + join_ids(all.take(i as int)),
        decreases ids.len() - i,
    {
        let ghost before = out@;
        if i > 0 {
            push_all(out, &sep);
        }
        let id = chars_of(ids[i].as_str());
        push_all(out, &id);
        proof {
            let p = all.take(i + 1);
            assert(p.drop_last() =~= all.take(i as int));
            assert(p.last() == id@);
            if i == 0 {
                assert(join_ids(all.take(0)) =~= Seq::<char>::empty());
                assert(out@ =~= old(out)@ + join_ids(p));
            } else {
                assert(out@ =~= old(out)@ + join_ids(p));
            }
        }
        i = i + 1;
    }
    assert(all.take(ids.len() as int) =~= all);
}

/// The directory text for the identities of `reg`.
fn listing_text<C>(reg: &Registry<C>) -> (r: String)
    ensures
        r@ == listing(ids_of(reg@)),
{
    let ids = reg.snapshot_identities();
    assert(ids@.map_values(|a: ArcString| a@) =~= ids_of(reg@));
    if ids.len() == 0 {
        return "当前无其他在线用户".to_owned();
    }
    let mut out = chars_of("当前在线用户 (共");
    let n = decimal(ids.len());
    push_all(&mut out, &n);
    let tail = chars_of("人):");
    push_all(&mut out, &tail);
    let sep = chars_of("\n  › ");
    push_all(&mut out, &sep);
    push_joined(&mut out, &ids);
    string_of(out.as_slice())
}

/// Decides the delivery of `msg`, read from `sender`'s connection; notices that
/// the server writes carry `time_stamp`.
pub fn route_at<C>(reg: &Registry<C>, sender: &ArcString, msg: Message, time_stamp: String) -> (r:
    Option<Delivery>)
    requires
        reg.wf(),
    ensures
        delivered_as(r, routing(reg@, sender@, msg@, time_stamp@)),
{
    let sender_online = reg.lookup(sender.as_str()).is_some();
    if crate::text::text_eq(msg.to(), "/list") {
        if !sender_online {
            return None;
        }
        let content = listing_text(reg);
        let env = Message::with_time_stamp(
            ArcString::new("Server".to_owned()),
            sender.get(),
            time_stamp,
            content,
        );
        return Some(Delivery { target: sender.share(), envelope: env });
    }
    if reg.lookup(msg.to()).is_some() {
        let target = ArcString::new(msg.to().to_owned());
        return Some(Delivery { target, envelope: msg });
    }
    if !sender_online {
        return None;
    }
    let mut text = chars_of("用户 ");
    let to = chars_of(msg.to());
    push_all(&mut text, &to);
    let tail = chars_of(" 不在线");
    push_all(&mut text, &tail);
    let env = Message::with_time_stamp(
        ArcString::new("Server".to_owned()),
        sender.get(),
        time_stamp,
        string_of(text.as_slice()),
    );
    Some(Delivery { target: sender.share(), envelope: env })
}

/// Decides the delivery of `msg`, read from `sender`'s connection; notices that
/// the server writes carry the local time now.
pub fn route<C>(reg: &Registry<C>, sender: &ArcString, msg: Message) -> (r: Option<Delivery>)
    requires
        reg.wf(),
    ensures
        exists|time_stamp: Seq<char>| delivered_as(r, routing(reg@, sender@, msg@, time_stamp)),
{
    let time_stamp = local_time_stamp();
    let ghost ts = time_stamp@;
    let r = route_at(reg, sender, msg, time_stamp);
    assert(delivered_as(r, routing(reg@, sender@, msg@, ts)));
    r
}

/// With sender and recipient both online, an envelope addressed to the
/// recipient is enqueued once, unchanged, on the recipient's channel alone.
pub proof fn law_route_to_online<C>(
    reg: Seq<(Seq<char>, C)>,
    sender: Seq<char>,
    env: EnvelopeView,
    time_stamp: Seq<char>,
)
    requires
        keys_unique(reg),
        handle_of(reg, sender) is Some,
        handle_of(reg, env.to) is Some,
        env.to != list_command(),
    ensures
        routing(reg, sender, env, time_stamp) == Some((env.to, env)),
{
}

/// An envelope for an identity that is not online yields one server notice,
/// enqueued on the sender's own channel alone.
pub proof fn law_route_to_offline<C>(
    reg: Seq<(Seq<char>, C)>,
    sender: Seq<char>,
    env: EnvelopeView,
    time_stamp: Seq<char>,
)
    requires
        keys_unique(reg),
        handle_of(reg, sender) is Some,
        handle_of(reg, env.to) is None,
        env.to != list_command(),
    ensures
        routing(reg, sender, env, time_stamp) == Some(
            (sender, notice(sender, time_stamp, offline_notice(env.to))),
        ),
{
}

/// A directory query yields one server notice to the sender alone, listing
/// every online identity and nothing else.
pub proof fn law_directory_query<C>(
    reg: Seq<(Seq<char>, C)>,
    sender: Seq<char>,
    env: EnvelopeView,
    time_stamp: Seq<char>,
)
    requires
        keys_unique(reg),
        handle_of(reg, sender) is Some,
        env.to == list_command(),
    ensures
        routing(reg, sender, env, time_stamp) == Some(
            (sender, notice(sender, time_stamp, listing(ids_of(reg)))),
        ),
        forall|k: Seq<char>| ids_of(reg).contains(k) <==> handle_of(reg, k) is Some,
{
    assert forall|k: Seq<char>| ids_of(reg).contains(k) <==> handle_of(reg, k) is Some by {
        if ids_of(reg).contains(k) {
            let i = choose|i: int| 0 <= i < ids_of(reg).len() && ids_of(reg)[i] == k;
            assert(reg[i].0 == k);
        }
        if handle_of(reg, k) is Some {
            let i = choose|i: int| 0 <= i < reg.len() && reg[i].0 == k;
            assert(ids_of(reg)[i] == k);
        }
    }
}

} // verus!
