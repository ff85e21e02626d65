//! The event dispatcher: classification, routing through parser and gates
//! into the handlers, and the fan-out forwarding plan.
//!
//! Each inbound event is turned into a list of actions for the caller to
//! perform (replies into the source conversation, friend-request acceptance,
//! one forward per target group). The one step that needs an outside answer
//! first — the group-admin check in front of a join — is returned as a
//! pending request; the caller hands the answer back to [`resume_join`].

use vstd::prelude::*;
use vstd::string::StringExecFns;

use crate::auth::{token_auth, otp_auth, GateDecision, Given, Token, OTP};
use crate::db::{
    groups_distinct, i64_dec_chars, members_of, spec_targets, ClusterStore, Group, GroupV, IM,
};
use crate::events::InboundEvent;
use crate::parser::{parse_cmd, spec_parse_cmd, ClusterCommand, Command, CommandV};
use crate::text::{join_strings, spec_contains, spec_join, str_contains};

verus! {

/// One side effect the caller is asked to perform.
#[derive(Debug)]
pub enum Action {
    /// Send this text back into the conversation the event arrived on.
    Reply { text: String },
    /// Accept the pending friend request.
    AcceptFriendRequest,
    /// Deliver this content to the target group.
    Forward { target: Group, content: String },
}

/// Mathematical image of an [`Action`].
pub enum ActionV {
    Reply { text: Seq<char> },
    AcceptFriendRequest,
    Forward { target: GroupV, content: Seq<char> },
}

impl View for Action {
    type V = ActionV;

    open spec fn view(&self) -> ActionV {
        match self {
            Action::Reply { text } => ActionV::Reply { text: text@ },
            Action::AcceptFriendRequest => ActionV::AcceptFriendRequest,
            Action::Forward { target, content } => ActionV::Forward {
                target: target@,
                content: content@,
            },
        }
    }
}

pub open spec fn acts_v(s: Seq<Action>) -> Seq<ActionV> {
    s.map_values(|a: Action| a@)
}

pub open spec fn reply_act(t: Seq<char>) -> ActionV {
    ActionV::Reply { text: t }
}

/// The group a QQ group code denotes.
pub open spec fn qq_group(id: i64) -> GroupV {
    GroupV { im: IM::QQ, id: i64_dec_chars(id as int) }
}

/// One forward of this content to a target of the source group.
pub open spec fn is_forward_of(
    a: ActionV,
    m: Map<Seq<char>, Set<GroupV>>,
    src: GroupV,
    content: Seq<char>,
) -> bool {
    a matches ActionV::Forward { target, content: c } && c == content && spec_targets(
        m,
        src,
    ).contains(target)
}

/// The actions fan one content out to exactly the forward targets of `src`,
/// one action per target, no target twice.
pub open spec fn is_fanout(
    acts: Seq<ActionV>,
    m: Map<Seq<char>, Set<GroupV>>,
    src: GroupV,
    content: Seq<char>,
) -> bool {
    &&& forall|i: int| 0 <= i < acts.len() ==> is_forward_of(#[trigger] acts[i], m, src, content)
    &&& forall|t: GroupV|
        spec_targets(m, src).contains(t) ==> acts.contains(
            ActionV::Forward { target: t, content },
        )
    &&& forall|i: int, j: int| 0 <= i < j < acts.len() ==> acts[i] != acts[j]
}

/// The outcome of one dispatched event: actions to perform, or a pending
/// group-admin check that must be answered first.
pub enum Step {
    Done { actions: Vec<Action> },
    NeedAdminCheck { pending: PendingJoin },
}

/// A join command waiting for the sender's group-admin status.
#[derive(Debug)]
pub struct PendingJoin {
    pub group_id: i64,
    pub sender_id: i64,
    pub cluster: String,
    pub otp: Given,
    pub text: String,
}

/// What the IM backend answered to a group-admin-list query.
#[derive(Debug)]
pub enum AdminLookup {
    /// The member ids that administer the group.
    Admins(Vec<i64>),
    /// The query itself failed.
    QueryFailed,
}

/// The decision of the group-admin gate.
pub enum AdminDecision {
    Admit,
    /// Not an admin: the chain halts without a word.
    DenySilent,
    /// The lookup failed: the chain halts and the sender is told (fail closed).
    DenyNotify { reply: String },
}

/// The shared services every event's processing sees.
pub struct BridgeState {
    pub token: Token,
    pub otps: OTP,
    pub clusters: ClusterStore,
}

impl BridgeState {
    pub open spec fn wf(&self) -> bool {
        self.clusters.wf()
    }

    /// A fresh state around the given admin token: no live one-time password,
    /// no cluster.
    pub fn new(token: Token) -> (r: BridgeState)
        ensures
            r.wf(),
            r.token == token,
            r.otps@ == Set::<Seq<char>>::empty(),
            r.clusters@ == Map::<Seq<char>, Set<GroupV>>::empty(),
    {
        BridgeState { token, otps: OTP::default(), clusters: ClusterStore::default() }
    }
}

pub open spec fn otp_reply(p: Seq<char>) -> Seq<char> {
    "Your one-time password is:\n"@ + p
}

pub open spec fn cluster_created_reply(n: Seq<char>) -> Seq<char> {
    "New cluster created: "@ + n
}

pub open spec fn cluster_list_reply(joined: Seq<char>) -> Seq<char> {
    "Available clusters:\n"@ + joined
}

/// The step ends the chain with exactly one reply.
pub open spec fn step_one_reply(r: Step, t: Seq<char>) -> bool {
    r matches Step::Done { actions } && acts_v(actions@) == seq![reply_act(t)]
}

/// The step ends the chain without any side effect.
pub open spec fn step_silent(r: Step) -> bool {
    r matches Step::Done { actions } && acts_v(actions@) == Seq::<ActionV>::empty()
}

/// A list of cluster names as the listing command reports them: each stored
/// name exactly once.
pub open spec fn names_listing(names: Seq<Seq<char>>, m: Map<Seq<char>, Set<GroupV>>) -> bool {
    &&& forall|i: int, j: int| 0 <= i < j < names.len() ==> names[i] != names[j]
    &&& forall|i: int| 0 <= i < names.len() ==> m.dom().contains(#[trigger] names[i])
    &&& forall|n: Seq<char>| #[trigger] m.dom().contains(n) ==> names.contains(n)
}

/// What a friend message must do: route through the parser, the token gate
/// and the friend-reachable handlers.
pub open spec fn friend_step(pre: BridgeState, post: BridgeState, text: Seq<char>, r: Step) -> bool {
    match spec_parse_cmd(text) {
        Some(CommandV::RequestOTP { token }) => if token == pre.token@ {
            exists|p: Seq<char>|
                #![auto]
                post.token == pre.token && post.clusters == pre.clusters && post.otps@
                    == pre.otps@.insert(p) && step_one_reply(r, otp_reply(p))
        } else {
            post == pre && step_one_reply(r, "Invalid token"@)
        },
        Some(CommandV::Cluster { cmd, token }) => if token != pre.token@ {
            post == pre && step_one_reply(r, "Invalid token"@)
        } else if cmd == ClusterCommand::List {
            post == pre && exists|names: Seq<Seq<char>>|
                #![auto]
                names_listing(names, pre.clusters@) && step_one_reply(
                    r,
                    cluster_list_reply(spec_join(names, "\n"@)),
                )
        } else {
            exists|w: Seq<char>|
                #![trigger pre.clusters@.dom().contains(w)]
                post.token == pre.token && post.otps == pre.otps && (if pre.clusters@.dom().contains(
                    w,
                ) {
                    post.clusters@ == pre.clusters@ && step_one_reply(
                        r,
                        "Failed to create cluster. Please try again later."@,
                    )
                } else {
                    post.clusters@ == pre.clusters@.insert(w, Set::<GroupV>::empty())
                        && step_one_reply(r, cluster_created_reply(w))
                })
        },
        Some(CommandV::Join { .. }) => post == pre && step_silent(r),
        None => post == pre && step_silent(r),
    }
}

/// What a group message must do: a join command waits for the admin check,
/// everything else goes to the forwarding path.
pub open spec fn group_step(
    pre: BridgeState,
    post: BridgeState,
    group_id: i64,
    sender_id: i64,
    text: Seq<char>,
    r: Step,
) -> bool {
    match spec_parse_cmd(text) {
        Some(CommandV::Join { cluster, otp }) => {
            &&& post == pre
            &&& r matches Step::NeedAdminCheck { pending } && pending.group_id == group_id
                && pending.sender_id == sender_id && pending.cluster@ == cluster && pending.otp@
                == otp && pending.text@ == text
        },
        _ => {
            &&& post == pre
            &&& r matches Step::Done { actions } && is_fanout(
                acts_v(actions@),
                pre.clusters@,
                qq_group(group_id),
                text,
            )
        },
    }
}

/// The whole dispatcher contract, one case per event kind.
pub open spec fn handle_spec(pre: BridgeState, post: BridgeState, ev: InboundEvent, r: Step) -> bool {
    match ev {
        InboundEvent::NewFriendRequest { message, .. } => post == pre && (if spec_contains(
            message@,
            pre.token@,
        ) {
            r matches Step::Done { actions } && acts_v(actions@) == seq![
                ActionV::AcceptFriendRequest,
            ]
        } else {
            step_silent(r)
        }),
        InboundEvent::FriendMessage { text, .. } => friend_step(pre, post, text@, r),
        InboundEvent::GroupMessage { group_id, sender_id, text } => group_step(
            pre,
            post,
            group_id,
            sender_id,
            text@,
            r,
        ),
        InboundEvent::GroupTempMessage { .. } => post == pre && step_silent(r),
        InboundEvent::GroupMessageRecall { .. } => post == pre && step_silent(r),
    }
}

/// What answering the pending admin check must do: the admin gate, then the
/// one-time-password gate, then the join itself; a halted chain falls
/// through to the forwarding path, as the routing lets a group message that
/// no handler consumed fall through.
pub open spec fn resume_spec(
    pre: BridgeState,
    post: BridgeState,
    pending: PendingJoin,
    lookup: AdminLookup,
    acts: Seq<ActionV>,
) -> bool {
    let src = qq_group(pending.group_id);
    match lookup {
        AdminLookup::QueryFailed => post == pre && acts.len() >= 1 && acts[0] == reply_act(
            "Failed to authenticate user."@,
        ) && is_fanout(acts.skip(1), pre.clusters@, src, pending.text@),
        AdminLookup::Admins(admins) => if !admins@.contains(pending.sender_id) {
            post == pre && is_fanout(acts, pre.clusters@, src, pending.text@)
        } else {
            post.token == pre.token && post.otps@ == pre.otps@.remove(pending.otp@) && (if !pre.otps@.contains(
                pending.otp@,
            ) {
                post.clusters == pre.clusters && acts.len() >= 1 && acts[0] == reply_act(
                    "Invalid one-time password"@,
                ) && is_fanout(acts.skip(1), pre.clusters@, src, pending.text@)
            } else if pre.clusters@.dom().contains(pending.cluster@) {
                post.clusters@ == pre.clusters@.insert(
                    pending.cluster@,
                    pre.clusters@[pending.cluster@].insert(src),
                ) && acts == seq![reply_act("Joined to cluster"@)]
            } else {
                post.clusters@ == pre.clusters@ && acts == seq![
                    reply_act("Failed to join cluster. Please try again later."@),
                ]
            })
        },
    }
}

/// Is this id among the listed ones?
fn contains_id(v: &Vec<i64>, x: i64) -> (r: bool)
    ensures
        r == v@.contains(x),
{
    let n = v.len();
    let mut k: usize = 0;
    while k < n
        invariant
            n == v@.len(),
            k <= n,
            forall|t: int| 0 <= t < k ==> v@[t] != x,
        decreases n - k,
    {
        if v[k] == x {
            return true;
        }
        k += 1;
    }
    false
}

/// The group-admin gate: admits exactly the listed senders; a failed lookup
/// is a denial with a fixed reply (fail closed), a plain non-admin sender is
/// denied without a word.
pub fn must_admin(lookup: &AdminLookup, sender_id: i64) -> (d: AdminDecision)
    ensures
        match lookup {
            AdminLookup::QueryFailed => d matches AdminDecision::DenyNotify { reply } && reply@
                == "Failed to authenticate user."@,
            AdminLookup::Admins(admins) => if admins@.contains(sender_id) {
                d is Admit
            } else {
                d is DenySilent
            },
        },
{
    match lookup {
        AdminLookup::QueryFailed => AdminDecision::DenyNotify {
            reply: "Failed to authenticate user.".to_owned(),
        },
        AdminLookup::Admins(admins) => {
            if contains_id(admins, sender_id) {
                AdminDecision::Admit
            } else {
                AdminDecision::DenySilent
            }
        },
    }
}

/// The friend-request acceptor's gate: accept exactly when the request's
/// message carries the admin token as a substring.
pub fn new_friend_handler(token: &Token, message: &String) -> (accept: bool)
    ensures
        accept == spec_contains(message@, token@),
{
    let t = token.as_str();
    str_contains(message.as_str(), t)
}

/// One forward action per target of the source group, content verbatim.
pub fn forwarder(store: &ClusterStore, src: &Group, text: &String) -> (r: Vec<Action>)
    requires
        store.wf(),
    ensures
        is_fanout(acts_v(r@), store@, src@, text@),
{
    let targets = store.forward_targets(src);
    let n = targets.len();
    let mut out: Vec<Action> = Vec::new();
    let mut k: usize = 0;
    while k < n
        invariant
            n == targets@.len(),
            k <= n,
            groups_distinct(targets@),
            members_of(targets@) == spec_targets(store@, src@),
            out@.len() == k,
            forall|i: int|
                0 <= i < k ==> (#[trigger] out@[i])@ == (ActionV::Forward {
                    target: targets@[i]@,
                    content: text@,
                }),
        decreases n - k,
    {
        let g = targets[k].clone();
        let c = text.clone();
        out.push(Action::Forward { target: g, content: c });
        k += 1;
    }
    proof {
        let av = acts_v(out@);
        assert(av.len() == out@.len());
        assert forall|i: int| 0 <= i < av.len() implies (#[trigger] av[i]) matches ActionV::Forward {
            target,
            content: c,
        } && c == text@ && spec_targets(store@, src@).contains(target) by {
            assert(av[i] == out@[i]@);
            assert(members_of(targets@).contains(targets@[i]@));
        }
        assert forall|t: GroupV| spec_targets(store@, src@).contains(t) implies av.contains(
            ActionV::Forward { target: t, content: text@ },
        ) by {
            assert(members_of(targets@).contains(t));
            let w = choose|w: int| 0 <= w < targets@.len() && (#[trigger] targets@[w])@ == t;
            assert(av[w] == out@[w]@);
            assert(av[w] == (ActionV::Forward { target: t, content: text@ }));
        }
        assert forall|i: int, j: int| 0 <= i < j < av.len() implies av[i] != av[j] by {
            assert(av[i] == out@[i]@ && av[j] == out@[j]@);
            assert(targets@[i]@ != targets@[j]@);
        }
    }
    out
}

/// Dispatch one inbound event: classify it, route it through the parser, the
/// gates and the handlers, and hand back what to do — or the admin check the
/// join flow must wait for. No other event's processing is involved.
pub fn handle_event(state: &mut BridgeState, ev: &InboundEvent) -> (r: Step)
    requires
        old(state).wf(),
    ensures
        final(state).wf(),
        handle_spec(*old(state), *final(state), *ev, r),
{
    match ev {
        InboundEvent::NewFriendRequest { message, .. } => {
            let accept = new_friend_handler(&state.token, message);
            let mut actions: Vec<Action> = Vec::new();
            if accept {
                actions.push(Action::AcceptFriendRequest);
                proof {
                    assert(acts_v(actions@) =~= seq![ActionV::AcceptFriendRequest]);
                }
            } else {
                proof {
                    assert(acts_v(actions@) =~= Seq::<ActionV>::empty());
                }
            }
            Step::Done { actions }
        },
        InboundEvent::FriendMessage { text, .. } => {
            match parse_cmd(text.as_str()) {
                Some(Command::RequestOTP { token }) => {
                    match token_auth(&state.token, &token) {
                        GateDecision::Admit => {
                            let pass = state.otps.generate_new();
                            let reply = "Your one-time password is:\n".to_owned().concat(
                                pass.as_str(),
                            );
                            let mut actions: Vec<Action> = Vec::new();
                            actions.push(Action::Reply { text: reply });
                            proof {
                                assert(acts_v(actions@) =~= seq![reply_act(otp_reply(pass@))]);
                            }
                            Step::Done { actions }
                        },
                        GateDecision::Halt { reply } => {
                            let mut actions: Vec<Action> = Vec::new();
                            actions.push(Action::Reply { text: reply });
                            proof {
                                assert(acts_v(actions@) =~= seq![reply_act("Invalid token"@)]);
                            }
                            Step::Done { actions }
                        },
                    }
                },
                Some(Command::Cluster { cmd, token }) => {
                    match token_auth(&state.token, &token) {
                        GateDecision::Halt { reply } => {
                            let mut actions: Vec<Action> = Vec::new();
                            actions.push(Action::Reply { text: reply });
                            proof {
                                assert(acts_v(actions@) =~= seq![reply_act("Invalid token"@)]);
                            }
                            Step::Done { actions }
                        },
                        GateDecision::Admit => {
                            match cmd {
                                ClusterCommand::List => {
                                    let names = state.clusters.list_names();
                                    let joined = join_strings(&names, "\n");
                                    let reply = "Available clusters:\n".to_owned().concat(
                                        joined.as_str(),
                                    );
                                    let mut actions: Vec<Action> = Vec::new();
                                    actions.push(Action::Reply { text: reply });
                                    proof {
                                        let dv = names.deep_view();
                                        assert(dv.len() == names@.len());
                                        assert forall|i: int|
                                            0 <= i < names@.len() implies #[trigger] dv[i]
                                            == names@[i]@ by {}
                                        assert forall|n: Seq<char>|
                                            #[trigger] state.clusters@.dom().contains(n) implies
                                            dv.contains(n) by {
                                            let w = choose|w: int|
                                                0 <= w < names@.len() && (#[trigger] names@[w])@
                                                    == n;
                                            assert(dv[w] == n);
                                        }
                                        assert(names_listing(dv, state.clusters@));
                                        assert(acts_v(actions@) =~= seq![
                                            reply_act(cluster_list_reply(spec_join(dv, "\n"@))),
                                        ]);
                                    }
                                    Step::Done { actions }
                                },
                                ClusterCommand::Add => {
                                    match state.clusters.new_cluster() {
                                        Ok(name) => {
                                            let ghost w = name@;
                                            let reply = "New cluster created: ".to_owned().concat(
                                                name.as_str(),
                                            );
                                            let mut actions: Vec<Action> = Vec::new();
                                            actions.push(Action::Reply { text: reply });
                                            proof {
                                                assert(acts_v(actions@) =~= seq![
                                                    reply_act(cluster_created_reply(w)),
                                                ]);
                                            }
                                            Step::Done { actions }
                                        },
                                        Err(_) => {
                                            let reply =
                                                "Failed to create cluster. Please try again later.".to_owned();
                                            let mut actions: Vec<Action> = Vec::new();
                                            actions.push(Action::Reply { text: reply });
                                            proof {
                                                assert(acts_v(actions@) =~= seq![
                                                    reply_act(
                                                        "Failed to create cluster. Please try again later."@,
                                                    ),
                                                ]);
                                                let n0 = choose|n: Seq<char>|
                                                    old(state).clusters@.dom().contains(n);
                                                assert(old(state).clusters@.dom().contains(n0));
                                            }
                                            Step::Done { actions }
                                        },
                                    }
                                },
                            }
                        },
                    }
                },
                Some(Command::Join { .. }) => {
                    let actions: Vec<Action> = Vec::new();
                    proof {
                        assert(acts_v(actions@) =~= Seq::<ActionV>::empty());
                    }
                    Step::Done { actions }
                },
                None => {
                    let actions: Vec<Action> = Vec::new();
                    proof {
                        assert(acts_v(actions@) =~= Seq::<ActionV>::empty());
                    }
                    Step::Done { actions }
                },
            }
        },
        InboundEvent::GroupMessage { group_id, sender_id, text } => {
            match parse_cmd(text.as_str()) {
                Some(Command::Join { cluster, otp }) => {
                    Step::NeedAdminCheck {
                        pending: PendingJoin {
                            group_id: *group_id,
                            sender_id: *sender_id,
                            cluster,
                            otp,
                            text: text.clone(),
                        },
                    }
                },
                Some(Command::RequestOTP { .. }) | Some(Command::Cluster { .. }) | None => {
                    let src = Group::from_qq(*group_id);
                    let actions = forwarder(&state.clusters, &src, text);
                    proof {
                        assert(src@ == qq_group(*group_id));
                    }
                    Step::Done { actions }
                },
            }
        },
        InboundEvent::GroupTempMessage { .. } => {
            let actions: Vec<Action> = Vec::new();
            proof {
                assert(acts_v(actions@) =~= Seq::<ActionV>::empty());
            }
            Step::Done { actions }
        },
        InboundEvent::GroupMessageRecall { .. } => {
            let actions: Vec<Action> = Vec::new();
            proof {
                assert(acts_v(actions@) =~= Seq::<ActionV>::empty());
            }
            Step::Done { actions }
        },
    }
}

/// Answer the pending admin check of a join command and finish its chain:
/// the admin gate, then the one-time-password gate (which consumes the
/// password either way), then the membership update. A chain halted before
/// the join falls through to the forwarding path.
pub fn resume_join(state: &mut BridgeState, pending: PendingJoin, lookup: &AdminLookup) -> (r: Vec<
    Action,
>)
    requires
        old(state).wf(),
    ensures
        final(state).wf(),
        resume_spec(*old(state), *final(state), pending, *lookup, acts_v(r@)),
{
    match must_admin(lookup, pending.sender_id) {
        AdminDecision::DenyNotify { reply } => {
            let src = Group::from_qq(pending.group_id);
            let mut actions: Vec<Action> = Vec::new();
            actions.push(Action::Reply { text: reply });
            let ghost head = actions@;
            let mut fws = forwarder(&state.clusters, &src, &pending.text);
            let ghost fseq = fws@;
            actions.append(&mut fws);
            proof {
                assert(src@ == qq_group(pending.group_id));
                assert(actions@ == head + fseq);
                assert(acts_v(actions@).skip(1) =~= acts_v(fseq));
                assert(acts_v(actions@)[0] == reply_act("Failed to authenticate user."@));
            }
            actions
        },
        AdminDecision::DenySilent => {
            let src = Group::from_qq(pending.group_id);
            let actions = forwarder(&state.clusters, &src, &pending.text);
            proof {
                assert(src@ == qq_group(pending.group_id));
            }
            actions
        },
        AdminDecision::Admit => {
            match otp_auth(&mut state.otps, &pending.otp) {
                GateDecision::Halt { reply } => {
                    let src = Group::from_qq(pending.group_id);
                    let mut actions: Vec<Action> = Vec::new();
                    actions.push(Action::Reply { text: reply });
                    let ghost head = actions@;
                    let mut fws = forwarder(&state.clusters, &src, &pending.text);
                    let ghost fseq = fws@;
                    actions.append(&mut fws);
                    proof {
                        assert(src@ == qq_group(pending.group_id));
                        assert(actions@ == head + fseq);
                        assert(acts_v(actions@).skip(1) =~= acts_v(fseq));
                        assert(acts_v(actions@)[0] == reply_act("Invalid one-time password"@));
                    }
                    actions
                },
                GateDecision::Admit => {
                    let src = Group::from_qq(pending.group_id);
                    let res = state.clusters.join(&pending.cluster, &src);
                    let mut actions: Vec<Action> = Vec::new();
                    match res {
                        Ok(_) => {
                            actions.push(Action::Reply { text: "Joined to cluster".to_owned() });
                            proof {
                                assert(src@ == qq_group(pending.group_id));
                                assert(acts_v(actions@) =~= seq![reply_act("Joined to cluster"@)]);
                            }
                        },
                        Err(_) => {
                            actions.push(
                                Action::Reply {
                                    text: "Failed to join cluster. Please try again later.".to_owned(),
                                },
                            );
                            proof {
                                assert(acts_v(actions@) =~= seq![
                                    reply_act("Failed to join cluster. Please try again later."@),
                                ]);
                            }
                        },
                    }
                    actions
                },
            }
        },
    }
}

/// The display name a forwarded message is attributed to: the group-specific
/// card name with the IM-wide nickname in parentheses, or the nickname alone
/// when no card name is set.
pub fn sender_display(card_name: &String, nickname: &String) -> (r: String)
    ensures
        card_name@.len() == 0 ==> r@ == nickname@,
        card_name@.len() > 0 ==> r@ == card_name@ + " ("@ + nickname@ + ")"@,
{
    if card_name.as_str().is_empty() {
        nickname.clone()
    } else {
        card_name.clone().concat(" (").concat(nickname.as_str()).concat(")")
    }
}

/// A forwarded copy's text: the attribution prefix, then the content verbatim.
pub fn attributed_content(display: &String, content: &String) -> (r: String)
    ensures
        r@ == display@ + ": "@ + content@,
{
    display.clone().concat(": ").concat(content.as_str())
}

} // verus!
