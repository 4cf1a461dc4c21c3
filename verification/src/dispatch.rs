//! The registration table an actor is constructed with: one entry
//! per message kind the actor handles, keyed by message version.
//! The broker enumerates it to decide what to subscribe to, and the
//! agent looks message versions up in it to dispatch mailbox items.
use vstd::prelude::*;

use crate::actor::{
    queue_address, spec_queue_address, spec_slash_join, ActorKind, KindView, MessageKind,
    SubscribeType,
};

verus! {

/// The set of message kinds an actor declares it handles, in
/// registration order, with message versions unique.
pub struct DispatchTable {
    entries: Vec<MessageKind>,
}

impl View for DispatchTable {
    type V = Seq<KindView>;

    closed spec fn view(&self) -> Seq<KindView> {
        Seq::new(self.entries@.len(), |i: int| self.entries@[i]@)
    }
}

/// Message versions in a dispatch table are unique: the table is
/// keyed by version.
pub open spec fn versions_unique(entries: Seq<KindView>) -> bool {
    forall|i: int, j: int|
        0 <= i < j < entries.len() ==> entries[i].version != entries[j].version
}

impl DispatchTable {
    /// Versions in this table are unique.
    pub open spec fn wf(&self) -> bool {
        versions_unique(self@)
    }

    /// An empty table.
    pub fn new() -> (r: DispatchTable)
        ensures
            r@ =~= Seq::<KindView>::empty(),
            r.wf(),
    {
        DispatchTable { entries: Vec::new() }
    }

    pub fn len(&self) -> (r: usize)
        ensures
            r == self@.len(),
    {
        self.entries.len()
    }

    /// The message kind at an index.
    pub fn entry(&self, i: usize) -> (r: &MessageKind)
        requires
            i < self@.len(),
        ensures
            r@ == self@[i as int],
    {
        &self.entries[i]
    }

    /// Registers one message kind. The registration is refused, and
    /// the table left unchanged, exactly when an entry with the
    /// same message version is already present.
    pub fn register(&mut self, kind: MessageKind) -> (r: bool)
        requires
            old(self).wf(),
        ensures
            final(self).wf(),
            r == !(exists|i: int| 0 <= i < old(self)@.len() && old(self)@[i].version == kind@.version),
            r ==> final(self)@ =~= old(self)@.push(kind@),
            !r ==> final(self)@ =~= old(self)@,
    {
        match self.find_version(&kind.version) {
            Some(_) => false,
            None => {
                self.entries.push(kind);
                proof {
                    assert(self@ =~= old(self)@.push(kind@));
                }
                true
            },
        }
    }

    /// Looks a message version up: the index of the entry carrying
    /// it, or nothing when the actor does not declare the version.
    pub fn find_version(&self, version: &String) -> (r: Option<usize>)
        ensures
            match r {
                Some(i) => i < self@.len() && self@[i as int].version == version@,
                None => forall|i: int| 0 <= i < self@.len() ==> self@[i].version != version@,
            },
    {
        let mut i: usize = 0;
        while i < self.entries.len()
            invariant
                i <= self.entries@.len(),
                self@.len() == self.entries@.len(),
                forall|k: int| 0 <= k < i ==> self@[k].version != version@,
            decreases self.entries@.len() - i,
        {
            if self.entries[i].version.eq(version) {
                return Some(i);
            }
            i += 1;
        }
        None
    }

    /// True exactly when the actor declares this message name and
    /// version pair.
    pub fn supports(&self, name: &String, version: &String) -> (r: bool)
        ensures
            r == exists|i: int|
                0 <= i < self@.len() && self@[i].name == name@ && self@[i].version == version@,
    {
        let mut i: usize = 0;
        while i < self.entries.len()
            invariant
                i <= self.entries@.len(),
                self@.len() == self.entries@.len(),
                forall|k: int|
                    0 <= k < i ==> !(self@[k].name == name@ && self@[k].version == version@),
            decreases self.entries@.len() - i,
        {
            if self.entries[i].name.eq(name) && self.entries[i].version.eq(version) {
                proof {
                    assert(self@[i as int] == self.entries@[i as int]@);
                    assert(self@[i as int].name == name@ && self@[i as int].version == version@);
                }
                return true;
            }
            i += 1;
        }
        false
    }

    /// The declared dispatch types, each as `{name}/{version}`.
    pub fn dispatch_types(&self) -> (r: Vec<String>)
        ensures
            r@.len() == self@.len(),
            forall|i: int|
                0 <= i < r@.len() ==> r@[i]@ == spec_slash_join(
                    self@[i].name,
                    self@[i].version,
                ),
    {
        let mut out: Vec<String> = Vec::new();
        let mut i: usize = 0;
        while i < self.entries.len()
            invariant
                i <= self.entries@.len(),
                self@.len() == self.entries@.len(),
                out@.len() == i,
                forall|k: int|
                    0 <= k < i ==> out@[k]@ == spec_slash_join(self@[k].name, self@[k].version),
            decreases self.entries@.len() - i,
        {
            out.push(self.entries[i].dispatch_type());
            i += 1;
        }
        out
    }

    /// The subjects a broker subscribes to for an actor with this
    /// table: one queue address per declared message version in
    /// queue mode, or the single declared subject in publish mode.
    pub fn mailbox_addresses(
        &self,
        system_name: &String,
        actor: &ActorKind,
        subscribe_type: &SubscribeType,
    ) -> (r: Vec<String>)
        ensures
            match subscribe_type {
                SubscribeType::Queue => r@.len() == self@.len() && forall|i: int|
                    0 <= i < r@.len() ==> r@[i]@ == spec_queue_address(
                        system_name@,
                        actor.name@,
                        actor.version@,
                        self@[i].name,
                        self@[i].version,
                    ),
                SubscribeType::Publish { subject } => r@.len() == 1 && r@[0]@ == subject@,
            },
    {
        let mut out: Vec<String> = Vec::new();
        match subscribe_type {
            SubscribeType::Queue => {
                let mut i: usize = 0;
                while i < self.entries.len()
                    invariant
                        i <= self.entries@.len(),
                        self@.len() == self.entries@.len(),
                        out@.len() == i,
                        forall|k: int|
                            0 <= k < i ==> out@[k]@ == spec_queue_address(
                                system_name@,
                                actor.name@,
                                actor.version@,
                                self@[k].name,
                                self@[k].version,
                            ),
                    decreases self.entries@.len() - i,
                {
                    out.push(queue_address(system_name, actor, &self.entries[i]));
                    i += 1;
                }
            },
            SubscribeType::Publish { subject } => {
                out.push(subject.clone());
            },
        }
        out
    }
}

} // verus!
