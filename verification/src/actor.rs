use vstd::prelude::*;

verus! {

/// Version tag shared by every first-generation message type.
pub const VERSION_V1_0: &'static str = "v1.0";

/// Returns the mailbox name for a given system and actor.
/// This value is used as the subject for reading and writing
/// bus messages.
pub fn mailbox_name(system_name: &String, actor_name: &String) -> (r: String)
    ensures
        r@ == spec_mailbox_name(system_name@, actor_name@),
{
    let mut s = String::new();
    s.append("hollywood://");
    s.append(system_name.as_str());
    s.append("@");
    s.append(actor_name.as_str());
    s
}

/// The mailbox name is the system name and the actor name joined
/// under the `hollywood://` scheme.
pub open spec fn spec_mailbox_name(system_name: Seq<char>, actor_name: Seq<char>) -> Seq<char> {
    "hollywood://"@ + system_name + "@"@ + actor_name
}

/// Wire message that carries a request which expects a reply.
pub struct HollywoodRequest {
    pub id: String,
    pub msg: Vec<u8>,
    pub msg_version: String,
}

/// Wire message that returns an actor's response to a request.
pub struct HollywoodResponse {
    pub error: Option<String>,
    pub id: String,
    pub msg: Option<Vec<u8>>,
    pub msg_version: String,
}

/// Wire message sent without expecting a reply.
pub struct HollywoodSend {
    pub id: String,
    pub msg: Vec<u8>,
    pub msg_version: String,
}

/// Wire message that delivers a pubsub message.
pub struct HollywoodPublish {
    pub id: String,
    pub msg: Vec<u8>,
    pub msg_version: String,
}

/// Main wire envelope: the tagged union of all messages flowing
/// through the system.
pub enum HollywoodMsg {
    Request(HollywoodRequest),
    Response(HollywoodResponse),
    Send(HollywoodSend),
    Publish(HollywoodPublish),
}

/// Mathematical model of an envelope: strings as character
/// sequences, payloads as byte sequences.
#[verifier::ext_equal]
pub enum MsgView {
    Request { id: Seq<char>, msg: Seq<u8>, msg_version: Seq<char> },
    Response { error: Option<Seq<char>>, id: Seq<char>, msg: Option<Seq<u8>>, msg_version: Seq<char> },
    Send { id: Seq<char>, msg: Seq<u8>, msg_version: Seq<char> },
    Publish { id: Seq<char>, msg: Seq<u8>, msg_version: Seq<char> },
}

impl View for HollywoodMsg {
    type V = MsgView;

    open spec fn view(&self) -> MsgView {
        match self {
            HollywoodMsg::Request(r) => MsgView::Request {
                id: r.id@,
                msg: r.msg@,
                msg_version: r.msg_version@,
            },
            HollywoodMsg::Response(r) => MsgView::Response {
                error: match r.error {
                    Some(ref e) => Some(e@),
                    None => None,
                },
                id: r.id@,
                msg: match r.msg {
                    Some(ref m) => Some(m@),
                    None => None,
                },
                msg_version: r.msg_version@,
            },
            HollywoodMsg::Send(s) => MsgView::Send {
                id: s.id@,
                msg: s.msg@,
                msg_version: s.msg_version@,
            },
            HollywoodMsg::Publish(p) => MsgView::Publish {
                id: p.id@,
                msg: p.msg@,
                msg_version: p.msg_version@,
            },
        }
    }
}

/// A response is well formed when exactly one of its body and its
/// error is populated.
pub open spec fn response_well_formed(error: Option<Seq<char>>, msg: Option<Seq<u8>>) -> bool {
    (msg is Some && error is None) || (msg is None && error is Some)
}

/// Internal work item: a request read from the bus, together with
/// the inbox subject its reply must go to.
pub struct ActorRequest {
    pub id: String,
    pub msg_version: String,
    pub msg: Vec<u8>,
    pub reply_id: String,
}

/// Internal work item: a one-way message read from the bus.
pub struct ActorSend {
    pub id: String,
    pub msg_version: String,
    pub msg: Vec<u8>,
}

/// Internal work item: a pubsub delivery read from the bus.
pub struct ActorSubscribe {
    pub id: String,
    pub msg_version: String,
    pub msg: Vec<u8>,
}

/// The items a broker places on the agent's mailbox channel.
pub enum ActorMsg {
    Request(ActorRequest),
    Send(ActorSend),
    Subscribe(ActorSubscribe),
    Health,
    Shutdown,
}

/// Mathematical model of a mailbox item.
#[verifier::ext_equal]
pub enum ActorMsgView {
    Request { id: Seq<char>, msg_version: Seq<char>, msg: Seq<u8>, reply_id: Seq<char> },
    Send { id: Seq<char>, msg_version: Seq<char>, msg: Seq<u8> },
    Subscribe { id: Seq<char>, msg_version: Seq<char>, msg: Seq<u8> },
    Health,
    Shutdown,
}

impl View for ActorMsg {
    type V = ActorMsgView;

    open spec fn view(&self) -> ActorMsgView {
        match self {
            ActorMsg::Request(r) => ActorMsgView::Request {
                id: r.id@,
                msg_version: r.msg_version@,
                msg: r.msg@,
                reply_id: r.reply_id@,
            },
            ActorMsg::Send(s) => ActorMsgView::Send {
                id: s.id@,
                msg_version: s.msg_version@,
                msg: s.msg@,
            },
            ActorMsg::Subscribe(s) => ActorMsgView::Subscribe {
                id: s.id@,
                msg_version: s.msg_version@,
                msg: s.msg@,
            },
            ActorMsg::Health => ActorMsgView::Health,
            ActorMsg::Shutdown => ActorMsgView::Shutdown,
        }
    }
}

/// How an actor is addressed on the bus: load balanced by actor
/// name, or fanned out by a pubsub subject.
pub enum SubscribeType {
    /// Actors are addressable by the name of the actor; all agents
    /// for the same actor and message version form one queue group.
    Queue,
    /// Actors are addressable by a pubsub subject; every actor with
    /// this subject receives every message published on it.
    Publish { subject: String },
}

impl Clone for SubscribeType {
    fn clone(&self) -> (r: Self)
        ensures
            r@ == self@,
    {
        match self {
            SubscribeType::Queue => SubscribeType::Queue,
            SubscribeType::Publish { subject } => SubscribeType::Publish { subject: subject.clone() },
        }
    }
}

/// Mathematical model of a subscribe mode.
#[verifier::ext_equal]
pub enum SubscribeTypeView {
    Queue,
    Publish { subject: Seq<char> },
}

impl View for SubscribeType {
    type V = SubscribeTypeView;

    open spec fn view(&self) -> SubscribeTypeView {
        match self {
            SubscribeType::Queue => SubscribeTypeView::Queue,
            SubscribeType::Publish { subject } => SubscribeTypeView::Publish { subject: subject@ },
        }
    }
}

/// The three handler kinds an actor exposes; exactly one is invoked
/// per mailbox item, chosen by the item's tag.
pub enum DispatchType {
    Send,
    Request,
    Subscribe,
}

impl Clone for DispatchType {
    fn clone(&self) -> (r: Self)
        ensures
            r == *self,
    {
        match self {
            DispatchType::Send => DispatchType::Send,
            DispatchType::Request => DispatchType::Request,
            DispatchType::Subscribe => DispatchType::Subscribe,
        }
    }
}

impl Copy for DispatchType {

}

/// An actor type: its type name together with its actor version.
pub struct ActorKind {
    pub name: String,
    pub version: String,
}

impl ActorKind {
    pub fn new(name: String, version: String) -> (r: ActorKind)
        ensures
            r.name@ == name@,
            r.version@ == version@,
    {
        ActorKind { name, version }
    }

    /// Formats the actor as `{name}/{version}`.
    pub fn name_version(&self) -> (r: String)
        ensures
            r@ == spec_slash_join(self.name@, self.version@),
    {
        slash_join(&self.name, &self.version)
    }
}

/// A message type: its type name together with its message version.
pub struct MessageKind {
    pub name: String,
    pub version: String,
}

impl MessageKind {
    pub fn new(name: String, version: String) -> (r: MessageKind)
        ensures
            r.name@ == name@,
            r.version@ == version@,
    {
        MessageKind { name, version }
    }

    /// Formats the message as `{name}/{version}`: the form an actor
    /// declares in its dispatch table.
    pub fn dispatch_type(&self) -> (r: String)
        ensures
            r@ == spec_slash_join(self.name@, self.version@),
    {
        slash_join(&self.name, &self.version)
    }
}

/// `{a}/{b}`: the separator between a type name and its version.
pub open spec fn spec_slash_join(a: Seq<char>, b: Seq<char>) -> Seq<char> {
    a + "/"@ + b
}

/// Joins a name and a version with a slash.
pub fn slash_join(a: &String, b: &String) -> (r: String)
    ensures
        r@ == spec_slash_join(a@, b@),
{
    let mut s = String::new();
    s.append(a.as_str());
    s.append("/");
    s.append(b.as_str());
    s
}

/// RunOpts defines an actor instance and a set of common
/// configuration options.
pub struct RunOpts<A> {
    /// The system name we want to connect to.
    pub system_name: String,
    /// The actor instance we want to run.
    pub actor: A,
    /// The maximum number of unprocessed messages allowed on the
    /// actor mailbox. `None` means the mailbox channel is unbounded.
    pub actor_mailbox_max_size: Option<u32>,
    /// The bus connection string as a uri.
    pub nats_uri: String,
}

impl<A> RunOpts<A> {
    pub fn new(system_name: String, actor: A, nats_uri: String) -> (r: Self)
        ensures
            r.system_name@ == system_name@,
            r.actor == actor,
            r.actor_mailbox_max_size is None,
            r.nats_uri@ == nats_uri@,
    {
        Self { system_name, actor, actor_mailbox_max_size: None, nats_uri }
    }

    pub fn with_actor_mailbox_max_size(self, size: Option<u32>) -> (r: Self)
        ensures
            r.system_name@ == self.system_name@,
            r.actor == self.actor,
            r.actor_mailbox_max_size == size,
            r.nats_uri@ == self.nats_uri@,
    {
        Self { actor_mailbox_max_size: size, ..self }
    }
}

} // verus!

verus! {

/// Mathematical model of an actor or message kind: a name and a
/// version.
#[verifier::ext_equal]
pub struct KindView {
    pub name: Seq<char>,
    pub version: Seq<char>,
}

impl View for ActorKind {
    type V = KindView;

    open spec fn view(&self) -> KindView {
        KindView { name: self.name@, version: self.version@ }
    }
}

impl View for MessageKind {
    type V = KindView;

    open spec fn view(&self) -> KindView {
        KindView { name: self.name@, version: self.version@ }
    }
}

/// The queue address for a system, an actor kind and a message
/// kind: `hollywood://{system}@{actor}/{av}::{message}/{mv}`. The
/// same string serves as the bus subject and as the queue group
/// name, so all agents for one actor and message version form one
/// load-balanced group.
pub open spec fn spec_queue_address(
    system: Seq<char>,
    actor_name: Seq<char>,
    actor_version: Seq<char>,
    msg_name: Seq<char>,
    msg_version: Seq<char>,
) -> Seq<char> {
    spec_mailbox_name(
        system,
        spec_slash_join(actor_name, actor_version) + "::"@ + spec_slash_join(
            msg_name,
            msg_version,
        ),
    )
}

/// Derives the queue address for a message kind handled by an
/// actor kind inside a system.
pub fn queue_address(system_name: &String, actor: &ActorKind, msg: &MessageKind) -> (r: String)
    ensures
        r@ == spec_queue_address(system_name@, actor.name@, actor.version@, msg.name@, msg.version@),
{
    let mut actor_name = actor.name_version();
    actor_name.append("::");
    let msg_part = msg.dispatch_type();
    actor_name.append(msg_part.as_str());
    mailbox_name(system_name, &actor_name)
}

/// If two sequences around a delimiter are equal, and neither left
/// part contains the delimiter, the parts agree.
proof fn lemma_unique_delim_split(a1: Seq<char>, b1: Seq<char>, a2: Seq<char>, b2: Seq<char>, d: char)
    requires
        a1 + seq![d] + b1 == a2 + seq![d] + b2,
        !a1.contains(d),
        !a2.contains(d),
    ensures
        a1 == a2,
        b1 == b2,
{
    let s = a1 + seq![d] + b1;
    if a1.len() < a2.len() {
        assert(s[a1.len() as int] == d);
        assert((a2 + seq![d] + b2)[a1.len() as int] == a2[a1.len() as int]);
        assert(a2.contains(d));
    } else if a2.len() < a1.len() {
        assert(s[a2.len() as int] == a1[a2.len() as int]);
        assert((a2 + seq![d] + b2)[a2.len() as int] == d);
        assert(a1.contains(d));
    } else {
        assert(a1 =~= s.take(a1.len() as int));
        assert(a2 =~= s.take(a1.len() as int));
        assert(b1 =~= s.skip(a1.len() as int + 1));
        assert(b2 =~= s.skip(a1.len() as int + 1));
    }
}

/// Queue address derivation is injective: two equal addresses come
/// from the same system, actor kind and message kind, provided the
/// components stay clear of the delimiters of the address scheme —
/// no `@` in the system name, no `/` in the actor or message type
/// name, and no `:` in the actor version.
pub proof fn lemma_queue_address_injective(
    s1: Seq<char>,
    an1: Seq<char>,
    av1: Seq<char>,
    mn1: Seq<char>,
    mv1: Seq<char>,
    s2: Seq<char>,
    an2: Seq<char>,
    av2: Seq<char>,
    mn2: Seq<char>,
    mv2: Seq<char>,
)
    requires
        spec_queue_address(s1, an1, av1, mn1, mv1) == spec_queue_address(s2, an2, av2, mn2, mv2),
        !s1.contains('@'),
        !s2.contains('@'),
        !an1.contains('/'),
        !an2.contains('/'),
        !av1.contains(':'),
        !av2.contains(':'),
        !mn1.contains('/'),
        !mn2.contains('/'),
    ensures
        s1 == s2,
        an1 == an2,
        av1 == av2,
        mn1 == mn2,
        mv1 == mv2,
{
    reveal_strlit("hollywood://");
    reveal_strlit("@");
    reveal_strlit("/");
    reveal_strlit("::");
    let t1 = an1 + seq!['/'] + (av1 + seq![':'] + (seq![':'] + mn1 + seq!['/'] + mv1));
    let t2 = an2 + seq!['/'] + (av2 + seq![':'] + (seq![':'] + mn2 + seq!['/'] + mv2));
    let full1 = spec_queue_address(s1, an1, av1, mn1, mv1);
    let full2 = spec_queue_address(s2, an2, av2, mn2, mv2);
    assert(full1 =~= "hollywood://"@ + s1 + seq!['@'] + t1);
    assert(full2 =~= "hollywood://"@ + s2 + seq!['@'] + t2);
    assert(("hollywood://"@ + s1) + seq!['@'] + t1 == ("hollywood://"@ + s2) + seq!['@'] + t2) by {
        assert(("hollywood://"@ + s1) + seq!['@'] + t1 =~= full1);
        assert(("hollywood://"@ + s2) + seq!['@'] + t2 =~= full2);
    }
    assert(!("hollywood://"@ + s1).contains('@')) by {
        reveal_strlit("hollywood://");
        assert(forall|i: int|
            0 <= i < "hollywood://"@.len() ==> ("hollywood://"@)[i] != '@');
    }
    assert(!("hollywood://"@ + s2).contains('@')) by {
        reveal_strlit("hollywood://");
        assert(forall|i: int|
            0 <= i < "hollywood://"@.len() ==> ("hollywood://"@)[i] != '@');
    }
    lemma_unique_delim_split(
        "hollywood://"@ + s1,
        t1,
        "hollywood://"@ + s2,
        t2,
        '@',
    );
    assert(s1 =~= ("hollywood://"@ + s1).skip("hollywood://"@.len() as int));
    assert(s2 =~= ("hollywood://"@ + s2).skip("hollywood://"@.len() as int));
    lemma_unique_delim_split(
        an1,
        av1 + seq![':'] + (seq![':'] + mn1 + seq!['/'] + mv1),
        an2,
        av2 + seq![':'] + (seq![':'] + mn2 + seq!['/'] + mv2),
        '/',
    );
    lemma_unique_delim_split(
        av1,
        seq![':'] + mn1 + seq!['/'] + mv1,
        av2,
        seq![':'] + mn2 + seq!['/'] + mv2,
        ':',
    );
    let u1 = seq![':'] + mn1 + seq!['/'] + mv1;
    let u2 = seq![':'] + mn2 + seq!['/'] + mv2;
    assert(mn1 + seq!['/'] + mv1 =~= u1.drop_first());
    assert(mn2 + seq!['/'] + mv2 =~= u2.drop_first());
    lemma_unique_delim_split(mn1, mv1, mn2, mv2, '/');
}

} // verus!
