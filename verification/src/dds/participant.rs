//! The participant and the topics that it has created.
use vstd::prelude::*;
use vstd::string::*;
use vstd::utf8::encode_utf8;

use crate::assoc::{AssocList, MapKey};
use crate::dds::error::{DdsError, DdsErrorView};
use crate::dds::sertype::DDS_DOMAIN_DEFAULT;
use crate::protocol::codec::{KeyDescriptors, KeyField};

verus! {

/// Whether a name has a NUL in it, which no DDS name can hold.
pub open spec fn contains_nul(name: Seq<char>) -> bool {
    encode_utf8(name).contains(0u8)
}

/// Whether a name has a NUL in it.
pub fn has_nul(name: &str) -> (found: bool)
    ensures
        found == contains_nul(name@),
{
    let bytes: &[u8] = name.as_bytes();
    let mut i: usize = 0;
    while i < bytes.len()
        invariant
            i <= bytes@.len(),
            bytes@ == encode_utf8(name@),
            forall|j: int| 0 <= j < i ==> bytes@[j] != 0,
        decreases bytes@.len() - i,
    {
        if bytes[i] == 0 {
            assert(bytes@.contains(0u8));
            return true;
        }
        i = i + 1;
    }
    false
}

/// A Cyclone DDS topic handle with metadata.
#[derive(Debug)]
pub struct Topic {
    pub handle: i32,
    pub topic_name: String,
    pub typename: String,
    pub key_descriptors: KeyDescriptors,
}

/// The mathematical value of a [`Topic`].
#[verifier::ext_equal]
pub struct TopicEntityView {
    pub handle: i32,
    pub topic_name: Seq<char>,
    pub typename: Seq<char>,
    pub key_descriptors: Seq<KeyField>,
}

impl View for Topic {
    type V = TopicEntityView;

    open spec fn view(&self) -> TopicEntityView {
        TopicEntityView {
            handle: self.handle,
            topic_name: self.topic_name@,
            typename: self.typename@,
            key_descriptors: self.key_descriptors@,
        }
    }
}

impl Clone for Topic {
    fn clone(&self) -> (copy: Self)
        ensures
            copy@ == self@,
    {
        Topic {
            handle: self.handle,
            topic_name: self.topic_name.clone(),
            typename: self.typename.clone(),
            key_descriptors: self.key_descriptors.clone(),
        }
    }
}

/// The names by which a topic is found again.
#[derive(Debug)]
pub struct TopicKey {
    pub topic_name: String,
    pub typename: String,
}

impl View for TopicKey {
    type V = (Seq<char>, Seq<char>);

    open spec fn view(&self) -> (Seq<char>, Seq<char>) {
        (self.topic_name@, self.typename@)
    }
}

impl MapKey for TopicKey {
    fn same_key_as(&self, other: &Self) -> (same: bool) {
        self.topic_name == other.topic_name && self.typename == other.typename
    }
}

/// Manages a single DDS DomainParticipant and caches topics.
pub struct DdsParticipant {
    handle: i32,
    /// Cached topics by (topic_name, typename).
    topics: AssocList<TopicKey, Topic>,
}

/// The mathematical value of a [`DdsParticipant`].
#[verifier::ext_equal]
pub struct ParticipantView {
    pub handle: i32,
    pub topics: Map<(Seq<char>, Seq<char>), TopicEntityView>,
}

impl View for DdsParticipant {
    type V = ParticipantView;

    closed spec fn view(&self) -> ParticipantView {
        ParticipantView { handle: self.handle, topics: self.topics@.map_values(|t: Topic| t@) }
    }
}

/// What is known of a topic before it is asked for.
pub enum TopicLookup {
    /// The topic exists.
    Cached(Topic),
    /// The topic cannot exist.
    Refused(DdsError),
    /// The topic is to be created.
    Missing,
}

/// The error for names that no topic can have: that of the topic where its
/// name has a NUL in it, and otherwise that of the type.
pub open spec fn name_error(topic_name: Seq<char>, typename: Seq<char>) -> Option<DdsErrorView> {
    if contains_nul(topic_name) {
        Some(DdsErrorView::InvalidName(topic_name))
    } else if contains_nul(typename) {
        Some(DdsErrorView::InvalidName(typename))
    } else {
        None
    }
}

/// What a request for a topic gives, and the participant after it: the cached
/// topic of those names, whatever its key descriptors; an error where the names
/// cannot be used or the creation has failed; the new topic otherwise.
pub open spec fn spec_get_or_create_topic(
    p: ParticipantView,
    topic_name: Seq<char>,
    typename: Seq<char>,
    key_descriptors: Seq<KeyField>,
    created: i32,
) -> (Result<TopicEntityView, DdsErrorView>, ParticipantView) {
    let key = (topic_name, typename);
    if p.topics.contains_key(key) {
        (Ok(p.topics[key]), p)
    } else if name_error(topic_name, typename) is Some {
        (Err(name_error(topic_name, typename)->0), p)
    } else if created < 0 {
        (Err(DdsErrorView::CreateTopic(created)), p)
    } else {
        let topic = TopicEntityView { handle: created, topic_name, typename, key_descriptors };
        (Ok(topic), ParticipantView { handle: p.handle, topics: p.topics.insert(key, topic) })
    }
}

/// The domain to join: the default one where none is given.
pub open spec fn domain_asked_for(domain_id: Option<u32>) -> u32 {
    match domain_id {
        Some(id) => id,
        None => 0xFFFFFFFF,
    }
}

/// The domain to join: the default one where none is given.
pub fn domain_to_join(domain_id: Option<u32>) -> (domain: u32)
    ensures
        domain == match domain_id {
            Some(id) => id,
            None => 0xFFFFFFFF,
        },
        domain == domain_asked_for(domain_id),
{
    match domain_id {
        Some(id) => id,
        None => DDS_DOMAIN_DEFAULT,
    }
}

impl DdsParticipant {
    /// Whether no two cached topics have the same names.
    pub closed spec fn wf(&self) -> bool {
        self.topics.wf()
    }

    /// The participant with the handle that its creation gave; a negative one
    /// is an error code.
    pub fn new(handle: i32) -> (r: Result<Self, DdsError>)
        ensures
            match r {
                Ok(p) => handle >= 0 && p.wf() && p@ == (ParticipantView {
                    handle,
                    topics: Map::empty(),
                }),
                Err(e) => handle < 0 && e@ == DdsErrorView::CreateParticipant(handle),
            },
    {
        if handle < 0 {
            return Err(DdsError::CreateParticipant(handle));
        }
        let p = DdsParticipant { handle, topics: AssocList::new() };
        assert(p@.topics =~= Map::<(Seq<char>, Seq<char>), TopicEntityView>::empty());
        Ok(p)
    }

    /// The handle of the participant.
    pub fn handle(&self) -> (handle: i32)
        ensures
            handle == self@.handle,
    {
        self.handle
    }

    /// What is known of a topic: whether it has to be created before it can be
    /// had.
    pub fn lookup_topic(&self, topic_name: &str, typename: &str) -> (found: TopicLookup)
        requires
            self.wf(),
        ensures
            match found {
                TopicLookup::Cached(t) => self@.topics.contains_key((topic_name@, typename@))
                    && t@ == self@.topics[(topic_name@, typename@)],
                TopicLookup::Refused(e) => !self@.topics.contains_key((topic_name@, typename@))
                    && name_error(topic_name@, typename@) == Some(e@),
                TopicLookup::Missing => !self@.topics.contains_key((topic_name@, typename@))
                    && name_error(topic_name@, typename@) is None,
            },
    {
        let key = TopicKey { topic_name: topic_name.to_owned(), typename: typename.to_owned() };
        match self.topics.get(&key) {
            Some(topic) => {
                return TopicLookup::Cached(topic.clone());
            },
            None => {},
        }
        if has_nul(topic_name) {
            return TopicLookup::Refused(DdsError::InvalidName(topic_name.to_owned()));
        }
        if has_nul(typename) {
            return TopicLookup::Refused(DdsError::InvalidName(typename.to_owned()));
        }
        TopicLookup::Missing
    }

    /// Get or create a topic. Topics with the same (topic_name, typename) are
    /// reused.
    ///
    /// If a topic with the same name/type already exists but with different key
    /// descriptors, the cached version is returned and the new key_descriptors
    /// are ignored (Cyclone DDS requires a single sertype per topic).
    /// Callers should ensure consistent key descriptors for the same topic.
    ///
    /// `created` is what the creation of the topic gave, a handle or a negative
    /// error code; it counts only where [`Self::lookup_topic`] says that the
    /// topic is missing.
    pub fn get_or_create_topic(
        &mut self,
        topic_name: &str,
        typename: &str,
        key_descriptors: &KeyDescriptors,
        created: i32,
    ) -> (r: Result<Topic, DdsError>)
        requires
            old(self).wf(),
        ensures
            final(self).wf(),
            (crate::protocol::error::result_view(r), final(self)@) == spec_get_or_create_topic(
                old(self)@,
                topic_name@,
                typename@,
                key_descriptors@,
                created,
            ),
    {
        match self.lookup_topic(topic_name, typename) {
            TopicLookup::Cached(topic) => {
                return Ok(topic);
            },
            TopicLookup::Refused(e) => {
                return Err(e);
            },
            TopicLookup::Missing => {},
        }
        if created < 0 {
            return Err(DdsError::CreateTopic(created));
        }
        let topic = Topic {
            handle: created,
            topic_name: topic_name.to_owned(),
            typename: typename.to_owned(),
            key_descriptors: key_descriptors.clone(),
        };
        let key = TopicKey { topic_name: topic_name.to_owned(), typename: typename.to_owned() };
        let ghost before = self@.topics;
        let copy = topic.clone();
        self.topics.insert(key, copy);
        assert(self@.topics =~= before.insert((topic_name@, typename@), topic@));
        Ok(topic)
    }
}

/// Asking twice for a topic gives the same topic, and the second time nothing
/// is created, whatever the key descriptors are then.
pub proof fn law_topic_is_reused(
    p: ParticipantView,
    topic_name: Seq<char>,
    typename: Seq<char>,
    first_keys: Seq<KeyField>,
    second_keys: Seq<KeyField>,
    first_created: i32,
    second_created: i32,
)
    ensures
        ({
            let (first, q) = spec_get_or_create_topic(
                p,
                topic_name,
                typename,
                first_keys,
                first_created,
            );
            first is Ok ==> spec_get_or_create_topic(
                q,
                topic_name,
                typename,
                second_keys,
                second_created,
            ) == (first, q)
        }),
{
}

} // verus!
