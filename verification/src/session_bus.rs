//! Which session is reached through which sink.
use vstd::prelude::*;

use crate::table::{Table, TableKey};

verus! {

/// The sinks of the connected sessions: one for each session id. A sink takes a
/// message and puts it on the session's socket.
#[derive(Debug)]
pub struct HermitSessionMessageBus<S> {
    pub sinks: Table<String, S>,
}

impl<S> View for HermitSessionMessageBus<S> {
    type V = Map<Seq<char>, S>;

    open spec fn view(&self) -> Map<Seq<char>, S> {
        self.sinks@
    }
}

impl<S> HermitSessionMessageBus<S> {
    /// No session has two sinks.
    pub open spec fn wf(&self) -> bool {
        self.sinks.wf()
    }

    /// A bus without sinks.
    pub fn new() -> (r: Self)
        ensures
            r.wf(),
            r@ == Map::<Seq<char>, S>::empty(),
    {
        HermitSessionMessageBus { sinks: Table::new() }
    }

    /// How many sessions are connected.
    pub fn connection_count(&self) -> (r: usize)
        requires
            self.wf(),
        ensures
            self@.dom().finite(),
            r == self@.dom().len(),
    {
        proof {
            lemma_entry_count(self.sinks);
        }
        self.sinks.entries.len()
    }

    /// Connects a session. A sink that it had before is replaced.
    pub fn register(&mut self, session_id: String, sink: S)
        requires
            old(self).wf(),
        ensures
            final(self).wf(),
            final(self)@ == old(self)@.insert(session_id@, sink),
    {
        self.sinks.insert(session_id, sink);
    }

    /// Disconnects a session.
    pub fn unregister(&mut self, session_id: &str)
        requires
            old(self).wf(),
        ensures
            final(self).wf(),
            final(self)@ == old(self)@.remove(session_id@),
    {
        let _gone = self.sinks.remove(&session_id.to_owned());
    }

    /// Whether a session is connected.
    pub fn is_connected(&self, session_id: &str) -> (r: bool)
        ensures
            r == self@.contains_key(session_id@),
    {
        self.sinks.contains(&session_id.to_owned())
    }
}

impl<S: Fn(String)> HermitSessionMessageBus<S> {
    /// Hands a message to a session's sink. Where the session is not connected,
    /// nothing happens.
    pub fn send(&self, session_id: &str, message: String) -> (r: bool)
        requires
            self.wf(),
            self@.contains_key(session_id@) ==> self@[session_id@].requires((message,)),
        ensures
            r == self@.contains_key(session_id@),
            r ==> self@[session_id@].ensures((message,), ()),
    {
        match self.sinks.get(&session_id.to_owned()) {
            Some(sink) => {
                sink(message);
                true
            },
            None => false,
        }
    }
}

proof fn lemma_entry_count<K: TableKey, V>(t: Table<K, V>)
    requires
        t.wf(),
    ensures
        t@.dom().finite(),
        t@.dom().len() == t.entries@.len(),
{
    let keys = Seq::new(t.entries@.len(), |i: int| t.entries@[i].0.key());
    assert(keys.no_duplicates()) by {
        assert forall|i: int, j: int| 0 <= i < keys.len() && 0 <= j < keys.len() && i != j implies keys[i]
            != keys[j] by {
            if i < j {
                assert(t.entries@[i].0.key() != t.entries@[j].0.key());
            } else {
                assert(t.entries@[j].0.key() != t.entries@[i].0.key());
            }
        }
    }
    keys.unique_seq_to_set();
    assert(keys.to_set() =~= t@.dom()) by {
        assert forall|k: K::Key| keys.to_set().contains(k) == t@.dom().contains(k) by {
            if keys.contains(k) {
                let i = choose|i: int| 0 <= i < keys.len() && keys[i] == k;
                assert(t.at(i, k));
            }
            if t.has(k) {
                let i = choose|i: int| t.at(i, k);
                assert(keys[i] == k);
            }
        }
    }
}

/// A message reaches the session that it is for, and after a session has
/// disconnected it reaches no one there: only its own sink ever gets it.
pub proof fn law_disconnected_is_not_reached<S>(bus: Map<Seq<char>, S>, session_id: Seq<char>, sink: S)
    ensures
        bus.insert(session_id, sink).contains_key(session_id),
        bus.insert(session_id, sink)[session_id] == sink,
        !bus.insert(session_id, sink).remove(session_id).contains_key(session_id),
        forall|other: Seq<char>|
            other != session_id ==> #[trigger] bus.insert(session_id, sink).contains_key(other)
                == bus.contains_key(other) && (bus.contains_key(other) ==> bus.insert(
                session_id,
                sink,
            )[other] == bus[other]),
{
}

} // verus!
