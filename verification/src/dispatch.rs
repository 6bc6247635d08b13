//! The command interpretation of the dispatch loop: the one place commands
//! are routed. Each command maps to a registry mutation and/or a short list
//! of actions for the runtime to perform — relay emissions, mailbox
//! forwards, teardowns. A command that addresses an unknown or dead session
//! is reported as a routing error and produces no action at all.

use vstd::prelude::*;

use crate::protocol::{
    BackendCommand, BackendError, ConfigView, DispatchAction, FrontendRequest,
    FrontendRequestView, MailboxItem, SessionConfig,
};
use crate::registry::{
    contains_name, create_spec, distinct_names, fresh_entry, live_lookup, remove_spec, EntryView,
    Registry,
};

verus! {

/// The registry after registering each given (name, configuration) pair in
/// order; a name already taken when its turn comes is skipped.
pub open spec fn create_all_spec(
    s: Seq<EntryView>,
    specs: Seq<(Seq<char>, ConfigView)>,
) -> Seq<EntryView>
    decreases specs.len(),
{
    if specs.len() == 0 {
        s
    } else {
        create_spec(
            create_all_spec(s, specs.drop_last()),
            specs.last().0,
            specs.last().1,
        )
    }
}

/// The `SessionCreated` announcements the startup registration emits: one
/// per pair whose name was free when its turn came, in registration order.
pub open spec fn announcements_spec(
    s: Seq<EntryView>,
    specs: Seq<(Seq<char>, ConfigView)>,
) -> Seq<FrontendRequestView>
    decreases specs.len(),
{
    if specs.len() == 0 {
        Seq::empty()
    } else {
        let prev = announcements_spec(s, specs.drop_last());
        if contains_name(create_all_spec(s, specs.drop_last()), specs.last().0) {
            prev
        } else {
            prev.push(FrontendRequestView::SessionCreated { session_name: specs.last().0 })
        }
    }
}

/// The view of one (name, configuration) pair.
pub open spec fn pair_view(p: (String, SessionConfig)) -> (Seq<char>, ConfigView) {
    (p.0@, p.1@)
}

/// The startup routine of the backend: registers the initial sessions in
/// order and returns the `SessionCreated` announcement for each name that
/// was free, for the runtime to put on the relay. The workers themselves are
/// started by the first reconciliation pass.
pub fn init_sessions(reg: &mut Registry, specs: &Vec<(String, SessionConfig)>) -> (out: Vec<
    FrontendRequest,
>)
    requires
        distinct_names(old(reg)@),
    ensures
        distinct_names(final(reg)@),
        final(reg)@ == create_all_spec(old(reg)@, specs@.map_values(|p| pair_view(p))),
        out@.map_values(|m: FrontendRequest| m@) == announcements_spec(
            old(reg)@,
            specs@.map_values(|p| pair_view(p)),
        ),
{
    let ghost s0 = reg@;
    let ghost sv = specs@.map_values(|p| pair_view(p));
    let mut out: Vec<FrontendRequest> = Vec::new();
    proof {
        assert(sv.take(0) =~= Seq::<(Seq<char>, ConfigView)>::empty());
        assert(out@.map_values(|m: FrontendRequest| m@) =~= announcements_spec(s0, sv.take(0)));
    }
    let mut i: usize = 0;
    while i < specs.len()
        invariant
            i <= specs.len(),
            sv == specs@.map_values(|p| pair_view(p)),
            sv.len() == specs@.len(),
            distinct_names(reg@),
            reg@ == create_all_spec(s0, sv.take(i as int)),
            out@.map_values(|m: FrontendRequest| m@) == announcements_spec(s0, sv.take(i as int)),
        decreases specs.len() - i,
    {
        let name = specs[i].0.clone();
        let config = specs[i].1.clone();
        let ghost taken = contains_name(reg@, name@);
        let announce = FrontendRequest::SessionCreated { session_name: name.clone() };
        match reg.create(name, config) {
            Ok(()) => {
                out.push(announce);
            },
            Err(_) => {},
        }
        proof {
            assert(sv.take(i + 1).drop_last() =~= sv.take(i as int));
            assert(sv.take(i + 1).last() == sv[i as int]);
            assert(sv[i as int] == pair_view(specs@[i as int]));
            if taken {
                assert(out@.map_values(|m: FrontendRequest| m@) =~= announcements_spec(
                    s0,
                    sv.take(i + 1),
                ));
            } else {
                assert(out@.map_values(|m: FrontendRequest| m@) =~= announcements_spec(
                    s0,
                    sv.take(i as int),
                ).push(FrontendRequestView::SessionCreated { session_name: sv[i as int].0 }));
            }
        }
        i = i + 1;
    }
    proof {
        assert(sv.take(sv.len() as int) =~= sv);
    }
    out
}

/// Interprets one client command against the registry and returns the
/// actions the runtime must perform together with the command's outcome.
///
/// `CreateSession` registers the name and announces `SessionCreated`; the
/// worker itself is started by the next reconciliation pass.
/// `RemoveSession` drops the entry and asks for the worker's teardown.
/// `StartStreamedCompletion` and `PushMemory` are forwarded into the
/// addressed worker's mailbox when the session is registered and live, and
/// fail with `UnknownSession` — emitting nothing — when it is not.
pub fn dispatch_command(reg: &mut Registry, cmd: BackendCommand) -> (r: (
    Vec<DispatchAction>,
    Result<(), BackendError>,
))
    requires
        distinct_names(old(reg)@),
    ensures
        distinct_names(final(reg)@),
        cmd matches BackendCommand::CreateSession { name, config } ==> {
            &&& final(reg)@ == create_spec(old(reg)@, name@, config@)
            &&& (r.1 is Ok <==> !contains_name(old(reg)@, name@))
            &&& (r.1 is Ok ==> {
                &&& final(reg)@ == old(reg)@.push(fresh_entry(name@, config@))
                &&& r.0@.len() == 1
                &&& (r.0@[0] matches DispatchAction::Emit(m) && m@
                    == (FrontendRequestView::SessionCreated { session_name: name@ }))
            })
            &&& (r.1 matches Err(e) ==> e == BackendError::NameTaken && final(reg)@ == old(reg)@
                && r.0@.len() == 0)
        },
        cmd matches BackendCommand::RemoveSession { name } ==> {
            &&& final(reg)@ == remove_spec(old(reg)@, name@)
            &&& !contains_name(final(reg)@, name@)
            &&& (r.1 is Ok <==> contains_name(old(reg)@, name@))
            &&& (r.1 is Ok ==> r.0@.len() == 1 && (r.0@[0] matches DispatchAction::Teardown {
                session_name,
            } && session_name@ == name@))
            &&& (r.1 matches Err(e) ==> e == BackendError::UnknownSession && final(reg)@ == old(
                reg,
            )@ && r.0@.len() == 0)
        },
        cmd matches BackendCommand::StartStreamedCompletion { session_name, prompt } ==> {
            &&& final(reg)@ == old(reg)@
            &&& (r.1 is Ok <==> live_lookup(old(reg)@, session_name@))
            &&& (r.1 is Ok ==> r.0@.len() == 1 && (r.0@[0] matches DispatchAction::Forward {
                session_name: target,
                item,
            } && target@ == session_name@ && (item matches MailboxItem::Prompt(p) && p@
                == prompt@)))
            &&& (r.1 matches Err(e) ==> e == BackendError::UnknownSession && r.0@.len() == 0)
        },
        cmd matches BackendCommand::PushMemory { session_name, message } ==> {
            &&& final(reg)@ == old(reg)@
            &&& (r.1 is Ok <==> live_lookup(old(reg)@, session_name@))
            &&& (r.1 is Ok ==> r.0@.len() == 1 && (r.0@[0] matches DispatchAction::Forward {
                session_name: target,
                item,
            } && target@ == session_name@ && (item matches MailboxItem::PushMemory(m) && m@
                == message@)))
            &&& (r.1 matches Err(e) ==> e == BackendError::UnknownSession && r.0@.len() == 0)
        },
{
    let mut actions: Vec<DispatchAction> = Vec::new();
    match cmd {
        BackendCommand::CreateSession { name, config } => {
            let announce = FrontendRequest::SessionCreated { session_name: name.clone() };
            match reg.create(name, config) {
                Ok(()) => {
                    actions.push(DispatchAction::Emit(announce));
                    (actions, Ok(()))
                },
                Err(e) => (actions, Err(e)),
            }
        },
        BackendCommand::RemoveSession { name } => {
            match reg.remove(&name) {
                Ok(()) => {
                    actions.push(DispatchAction::Teardown { session_name: name });
                    (actions, Ok(()))
                },
                Err(e) => (actions, Err(e)),
            }
        },
        BackendCommand::StartStreamedCompletion { session_name, prompt } => {
            match reg.lookup(&session_name) {
                Some(_) => {
                    actions.push(
                        DispatchAction::Forward {
                            session_name: session_name,
                            item: MailboxItem::Prompt(prompt),
                        },
                    );
                    (actions, Ok(()))
                },
                None => (actions, Err(BackendError::UnknownSession)),
            }
        },
        BackendCommand::PushMemory { session_name, message } => {
            match reg.lookup(&session_name) {
                Some(_) => {
                    actions.push(
                        DispatchAction::Forward {
                            session_name: session_name,
                            item: MailboxItem::PushMemory(message),
                        },
                    );
                    (actions, Ok(()))
                },
                None => (actions, Err(BackendError::UnknownSession)),
            }
        },
    }
}

} // verus!
