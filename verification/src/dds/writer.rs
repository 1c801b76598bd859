//! Writers, and which session owns which of them.
use std::collections::HashMap;

use vstd::prelude::*;
use vstd::string::*;

use crate::dds::error::{DdsError, DdsErrorView};
use crate::dds::participant::{Topic, TopicEntityView};
use crate::protocol::error::result_view;
use crate::qos::policy::{normalized_same, QosPolicyView, QosSet};
use crate::text::str_eq;

verus! {

broadcast use vstd::std_specs::hash::group_hash_axioms;

/// Takes the next writer ID off a counter.
pub fn next_writer_id(counter: &mut u32) -> (id: u32)
    ensures
        id == *old(counter),
        *final(counter) == (if *old(counter) == u32::MAX {
            0u32
        } else {
            (*old(counter) + 1) as u32
        }),
{
    let id: u32 = *counter;
    *counter = counter.wrapping_add(1);
    id
}

/// A DDS DataWriter handle.
#[derive(Debug)]
pub struct DdsWriter {
    pub handle: i32,
    pub writer_id: u32,
    pub topic: Topic,
    /// Normalized QoS used to create this writer.
    pub qos_normalized: QosSet,
}

/// The mathematical value of a [`DdsWriter`].
#[verifier::ext_equal]
pub struct WriterView {
    pub handle: i32,
    pub writer_id: u32,
    pub topic: TopicEntityView,
    pub qos_normalized: Seq<QosPolicyView>,
}

impl View for DdsWriter {
    type V = WriterView;

    open spec fn view(&self) -> WriterView {
        WriterView {
            handle: self.handle,
            writer_id: self.writer_id,
            topic: self.topic@,
            qos_normalized: self.qos_normalized@,
        }
    }
}

/// What is done with a writer.
#[derive(Debug, Clone, Copy, PartialEq, Eq, Structural)]
pub enum WriteOp {
    /// Write opaque data.
    Write,
    /// Dispose an instance (key data only).
    Dispose,
    /// Write and dispose in one operation.
    WriteDispose,
}

impl WriteOp {
    /// What a return code of the operation means: a negative one is an error.
    pub open spec fn spec_outcome(self, rc: i32) -> Result<(), DdsErrorView> {
        if rc < 0 {
            Err(
                match self {
                    WriteOp::Write => DdsErrorView::Write(rc),
                    WriteOp::Dispose => DdsErrorView::Dispose(rc),
                    WriteOp::WriteDispose => DdsErrorView::WriteDispose(rc),
                },
            )
        } else {
            Ok(())
        }
    }

    /// What a return code of the operation means: a negative one is an error.
    pub fn outcome(&self, rc: i32) -> (r: Result<(), DdsError>)
        ensures
            result_view(r) == self.spec_outcome(rc),
    {
        if rc < 0 {
            return Err(
                match self {
                    WriteOp::Write => DdsError::Write(rc),
                    WriteOp::Dispose => DdsError::Dispose(rc),
                    WriteOp::WriteDispose => DdsError::WriteDispose(rc),
                },
            );
        }
        Ok(())
    }
}

impl DdsWriter {
    /// The writer with the handle that its creation gave; a negative one is an
    /// error code, and then no ID is taken.
    pub fn new(
        handle: i32,
        topic: &Topic,
        qos_normalized: QosSet,
        ids: &mut u32,
    ) -> (r: Result<Self, DdsError>)
        ensures
            match r {
                Ok(w) => {
                    &&& handle >= 0
                    &&& w@ == (WriterView {
                        handle,
                        writer_id: *old(ids),
                        topic: topic@,
                        qos_normalized: qos_normalized@,
                    })
                    &&& *final(ids) == (if *old(ids) == u32::MAX {
                        0u32
                    } else {
                        (*old(ids) + 1) as u32
                    })
                },
                Err(e) => handle < 0 && e@ == DdsErrorView::CreateWriter(handle) && *final(ids)
                    == *old(ids),
            },
    {
        if handle < 0 {
            return Err(DdsError::CreateWriter(handle));
        }
        Ok(
            DdsWriter {
                handle,
                writer_id: next_writer_id(ids),
                topic: topic.clone(),
                qos_normalized,
            },
        )
    }
}

/// Registry of writers, keyed by writer_id.
/// Tracks ownership: each writer belongs to a session.
pub struct WriterRegistry {
    /// writer_id -> (DdsWriter, session_id)
    writers: HashMap<u32, (DdsWriter, u64)>,
    /// session_id -> list of writer_ids (both explicit and implicit)
    session_writers: HashMap<u64, Vec<u32>>,
    /// The handles of writers that have left the registry and are still to be
    /// deleted.
    released: Vec<i32>,
}

/// Accepts every ID but one.
pub open spec fn other_than(id: u32) -> spec_fn(u32) -> bool {
    |other: u32| other != id
}

/// The mathematical value of a [`WriterRegistry`].
#[verifier::ext_equal]
pub struct WriterRegistryView {
    pub writers: Map<u32, (WriterView, u64)>,
    pub sessions: Map<u64, Seq<u32>>,
    pub released: Seq<i32>,
}

impl View for WriterRegistry {
    type V = WriterRegistryView;

    closed spec fn view(&self) -> WriterRegistryView {
        WriterRegistryView {
            writers: self.writers@.map_values(|e: (DdsWriter, u64)| (e.0@, e.1)),
            sessions: self.session_writers@.map_values(|ids: Vec<u32>| ids@),
            released: self.released@,
        }
    }
}

impl WriterRegistryView {
    /// The writers of a session, in the order in which they were registered.
    pub open spec fn ids_of(self, session_id: u64) -> Seq<u32> {
        if self.sessions.contains_key(session_id) {
            self.sessions[session_id]
        } else {
            seq![]
        }
    }

    /// The registry after a writer has been registered. A writer that had the
    /// same ID is released.
    pub open spec fn register(self, writer: WriterView, session_id: u64) -> WriterRegistryView {
        let id = writer.writer_id;
        WriterRegistryView {
            writers: self.writers.insert(id, (writer, session_id)),
            sessions: self.sessions.insert(session_id, self.ids_of(session_id).push(id)),
            released: if self.writers.contains_key(id) {
                self.released.push(self.writers[id].0.handle)
            } else {
                self.released
            },
        }
    }

    /// The writer with the given ID, for the session that owns it.
    pub open spec fn get(self, writer_id: u32, session_id: u64) -> Result<
        WriterView,
        DdsErrorView,
    > {
        if !self.writers.contains_key(writer_id) {
            Err(DdsErrorView::WriterNotFound(writer_id))
        } else if self.writers[writer_id].1 != session_id {
            Err(DdsErrorView::WriterOwnership(writer_id))
        } else {
            Ok(self.writers[writer_id].0)
        }
    }

    /// What the deletion of a writer gives, and the registry after it: only the
    /// session that owns a writer can delete it.
    pub open spec fn delete(self, writer_id: u32, session_id: u64) -> (
        Result<(), DdsErrorView>,
        WriterRegistryView,
    ) {
        match self.get(writer_id, session_id) {
            Err(e) => (Err(e), self),
            Ok(writer) => (
                Ok(()),
                WriterRegistryView {
                    writers: self.writers.remove(writer_id),
                    sessions: if self.sessions.contains_key(session_id) {
                        self.sessions.insert(
                            session_id,
                            self.sessions[session_id].filter(other_than(writer_id)),
                        )
                    } else {
                        self.sessions
                    },
                    released: self.released.push(writer.handle),
                },
            ),
        }
    }

    /// The registry without the writers with the given IDs.
    pub open spec fn without(self, ids: Seq<u32>) -> WriterRegistryView
        decreases ids.len(),
    {
        if ids.len() == 0 {
            self
        } else {
            let before = self.without(ids.drop_last());
            let id = ids.last();
            if before.writers.contains_key(id) {
                WriterRegistryView {
                    writers: before.writers.remove(id),
                    sessions: before.sessions,
                    released: before.released.push(before.writers[id].0.handle),
                }
            } else {
                before
            }
        }
    }

    /// The registry after a session has ended: its writers are released, in the
    /// order in which they were registered.
    pub open spec fn remove_session(self, session_id: u64) -> WriterRegistryView {
        if self.sessions.contains_key(session_id) {
            WriterRegistryView {
                writers: self.writers,
                sessions: self.sessions.remove(session_id),
                released: self.released,
            }.without(self.sessions[session_id])
        } else {
            self
        }
    }

    /// Whether the writer with the given ID fits a topic, a type and a QoS.
    pub open spec fn fits(
        self,
        id: u32,
        topic_name: Seq<char>,
        typename: Seq<char>,
        qos: Seq<QosPolicyView>,
    ) -> bool {
        &&& self.writers.contains_key(id)
        &&& self.writers[id].0.topic.topic_name == topic_name
        &&& self.writers[id].0.topic.typename == typename
        &&& normalized_same(self.writers[id].0.qos_normalized, qos)
    }

    /// The first of the given writers that fits a topic, a type and a QoS.
    pub open spec fn first_fit(
        self,
        ids: Seq<u32>,
        topic_name: Seq<char>,
        typename: Seq<char>,
        qos: Seq<QosPolicyView>,
    ) -> Option<WriterView>
        decreases ids.len(),
    {
        if ids.len() == 0 {
            None
        } else if self.fits(ids[0], topic_name, typename, qos) {
            Some(self.writers[ids[0]].0)
        } else {
            self.first_fit(ids.drop_first(), topic_name, typename, qos)
        }
    }

    /// The writer that a session uses for a topic, a type and a QoS.
    pub open spec fn find_by_topic(
        self,
        session_id: u64,
        topic_name: Seq<char>,
        typename: Seq<char>,
        qos: Seq<QosPolicyView>,
    ) -> Option<WriterView> {
        self.first_fit(self.ids_of(session_id), topic_name, typename, qos)
    }
}

impl WriterRegistry {
    /// The registry without writers.
    pub fn new() -> (reg: Self)
        ensures
            reg@ == (WriterRegistryView {
                writers: Map::empty(),
                sessions: Map::empty(),
                released: Seq::empty(),
            }),
    {
        let reg = WriterRegistry {
            writers: HashMap::new(),
            session_writers: HashMap::new(),
            released: Vec::new(),
        };
        assert(reg@.writers =~= Map::<u32, (WriterView, u64)>::empty());
        assert(reg@.sessions =~= Map::<u64, Seq<u32>>::empty());
        reg
    }

    /// Register a writer for a session. Returns the writer_id.
    pub fn register(&mut self, writer: DdsWriter, session_id: u64) -> (id: u32)
        ensures
            id == writer.writer_id,
            final(self)@ == old(self)@.register(writer@, session_id),
    {
        let wid: u32 = writer.writer_id;
        let mut ids: Vec<u32> = match self.session_writers.remove(&session_id) {
            Some(ids) => ids,
            None => Vec::new(),
        };
        assert(ids@ =~= old(self)@.ids_of(session_id));
        ids.push(wid);
        self.session_writers.insert(session_id, ids);
        match self.writers.insert(wid, (writer, session_id)) {
            Some(gone) => {
                self.released.push(gone.0.handle);
            },
            None => {},
        }
        proof {
            let now = self@;
            let wanted = old(self)@.register(writer@, session_id);
            assert(now.writers =~= wanted.writers);
            assert(now.sessions =~= wanted.sessions);
            assert(now.released =~= wanted.released);
        }
        wid
    }

    /// Get a writer by ID without ownership check (for topic lookup).
    pub fn find_by_id(&self, writer_id: u32) -> (w: Option<&DdsWriter>)
        ensures
            match w {
                Some(w) => self@.writers.contains_key(writer_id) && w@
                    == self@.writers[writer_id].0,
                None => !self@.writers.contains_key(writer_id),
            },
    {
        match self.writers.get(&writer_id) {
            Some(entry) => Some(&entry.0),
            None => None,
        }
    }

    /// Get a writer by ID, checking session ownership.
    pub fn get(&self, writer_id: u32, session_id: u64) -> (r: Result<&DdsWriter, DdsError>)
        ensures
            (match r {
                Ok(w) => Ok(w@),
                Err(e) => Err(e@),
            }) == self@.get(writer_id, session_id),
    {
        match self.writers.get(&writer_id) {
            None => Err(DdsError::WriterNotFound(writer_id)),
            Some(entry) => {
                if entry.1 != session_id {
                    Err(DdsError::WriterOwnership(writer_id))
                } else {
                    Ok(&entry.0)
                }
            },
        }
    }

    /// Delete a writer by ID, checking session ownership.
    pub fn delete(&mut self, writer_id: u32, session_id: u64) -> (r: Result<(), DdsError>)
        ensures
            (result_view(r), final(self)@) == old(self)@.delete(writer_id, session_id),
    {
        match self.get(writer_id, session_id) {
            Ok(_) => {},
            Err(e) => {
                return Err(e);
            },
        }
        match self.writers.remove(&writer_id) {
            Some(entry) => {
                self.released.push(entry.0.handle);
            },
            None => {},
        }
        match self.session_writers.remove(&session_id) {
            Some(ids) => {
                let kept = without_id(&ids, writer_id);
                self.session_writers.insert(session_id, kept);
            },
            None => {},
        }
        proof {
            let now = self@;
            let wanted = old(self)@.delete(writer_id, session_id).1;
            assert(now.writers =~= wanted.writers);
            assert(now.sessions =~= wanted.sessions);
            assert(now.released =~= wanted.released);
        }
        Ok(())
    }

    /// Remove all writers belonging to a session (for cleanup on disconnect).
    pub fn remove_session(&mut self, session_id: u64)
        ensures
            final(self)@ == old(self)@.remove_session(session_id),
    {
        match self.session_writers.remove(&session_id) {
            Some(ids) => {
                let ghost start = self@;
                proof {
                    assert(start.sessions =~= old(self)@.sessions.remove(session_id));
                    assert(ids@.take(0) =~= Seq::<u32>::empty());
                }
                let mut i: usize = 0;
                while i < ids.len()
                    invariant
                        i <= ids@.len(),
                        self@ == start.without(ids@.take(i as int)),
                    decreases ids@.len() - i,
                {
                    let wid: u32 = ids[i];
                    let ghost before = self@;
                    match self.writers.remove(&wid) {
                        Some(entry) => {
                            self.released.push(entry.0.handle);
                        },
                        None => {},
                    }
                    i = i + 1;
                    proof {
                        let listed = ids@.take(i as int);
                        assert(listed.drop_last() =~= ids@.take(i - 1));
                        assert(listed.last() == wid);
                        let wanted = start.without(listed);
                        assert(self@.writers =~= wanted.writers);
                        assert(self@.sessions =~= wanted.sessions);
                        assert(self@.released =~= wanted.released);
                    }
                }
                assert(ids@.take(i as int) =~= ids@);
            },
            None => {
                assert(self@.sessions =~= old(self)@.sessions);
            },
        }
    }

    /// Number of registered writers.
    pub fn count(&self) -> (n: usize)
        ensures
            n == self@.writers.dom().len(),
            self@.writers.dom().finite(),
    {
        assert(self@.writers.dom() =~= self.writers@.dom());
        self.writers.len()
    }

    /// Find a writer for a session by topic/type/qos (for implicit writer reuse in topic-name mode).
    pub fn find_by_topic(
        &self,
        session_id: u64,
        topic_name: &str,
        typename: &str,
        qos: &QosSet,
    ) -> (w: Option<&DdsWriter>)
        ensures
            (match w {
                Some(w) => Some(w@),
                None => None,
            }) == self@.find_by_topic(session_id, topic_name@, typename@, qos@),
    {
        let ids: &Vec<u32> = match self.session_writers.get(&session_id) {
            Some(ids) => ids,
            None => {
                return None;
            },
        };
        let mut i: usize = 0;
        assert(ids@.skip(0) =~= ids@);
        while i < ids.len()
            invariant
                i <= ids@.len(),
                ids@ == self@.ids_of(session_id),
                self@.first_fit(ids@, topic_name@, typename@, qos@) == self@.first_fit(
                    ids@.skip(i as int),
                    topic_name@,
                    typename@,
                    qos@,
                ),
            decreases ids@.len() - i,
        {
            let wid: u32 = ids[i];
            let ghost left = ids@.skip(i as int);
            assert(left[0] == wid);
            assert(left.drop_first() =~= ids@.skip(i + 1));
            match self.writers.get(&wid) {
                Some(entry) => {
                    let writer: &DdsWriter = &entry.0;
                    if str_eq(writer.topic.topic_name.as_str(), topic_name) && str_eq(
                        writer.topic.typename.as_str(),
                        typename,
                    ) && writer.qos_normalized.normalized_eq(qos) {
                        return Some(writer);
                    }
                },
                None => {},
            }
            i = i + 1;
        }
        None
    }

    /// Takes the handles of writers that have left the registry and are still
    /// to be deleted.
    pub fn take_released(&mut self) -> (handles: Vec<i32>)
        ensures
            handles@ == old(self)@.released,
            final(self)@ == (WriterRegistryView { released: Seq::empty(), ..old(self)@ }),
    {
        let mut handles: Vec<i32> = Vec::new();
        handles.append(&mut self.released);
        assert(handles@ =~= old(self)@.released);
        handles
    }
}

/// A list of IDs without one of them.
fn without_id(ids: &Vec<u32>, id: u32) -> (kept: Vec<u32>)
    ensures
        kept@ == ids@.filter(other_than(id)),
{
    let ghost stays = other_than(id);
    let mut kept: Vec<u32> = Vec::new();
    let mut i: usize = 0;
    assert(ids@.take(0) =~= Seq::<u32>::empty());
    assert(kept@ =~= ids@.take(0).filter(stays)) by {
        reveal(Seq::filter);
    }
    while i < ids.len()
        invariant
            i <= ids@.len(),
            stays == other_than(id),
            kept@ == ids@.take(i as int).filter(stays),
        decreases ids@.len() - i,
    {
        let other: u32 = ids[i];
        if other != id {
            kept.push(other);
        }
        i = i + 1;
        proof {
            reveal(Seq::filter);
            let now = ids@.take(i as int);
            assert(now.drop_last() =~= ids@.take(i - 1));
            assert(now.last() == other);
        }
    }
    assert(ids@.take(i as int) =~= ids@);
    kept
}

} // verus!
