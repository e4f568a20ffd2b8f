//! Channels: each a name and the ordered set of the streams that carry
//! its program, in the order in which they were added.
use crate::names::{
    append_name, copy_names, distinct, find_name, has_name, lemma_position, lemma_with_appended,
    position_of, texts, with_appended,
};
use vstd::prelude::*;

verus! {

/// The channels of a deployment, in the order in which they were added,
/// each with its streams in the order in which they were added.
#[derive(Debug)]
pub struct ChannelMap {
    names: Vec<String>,
    members: Vec<Vec<String>>,
}

/// What a channel map holds, as plain values: the names of the channels
/// and, at the same positions, the names of their streams.
pub struct ChannelMapModel {
    pub names: Seq<Seq<char>>,
    pub members: Seq<Seq<Seq<char>>>,
}

/// The texts of the lists in `v`.
pub open spec fn member_texts(v: Seq<Vec<String>>) -> Seq<Seq<Seq<char>>> {
    Seq::new(v.len(), |i: int| texts(v[i]@))
}

impl ChannelMapModel {
    /// The map is in order: no channel is named twice, and no channel
    /// names a stream twice.
    pub open spec fn wf(self) -> bool {
        &&& self.names.len() == self.members.len()
        &&& distinct(self.names)
        &&& forall|c: int| 0 <= c < self.members.len() ==> distinct(#[trigger] self.members[c])
    }

    /// Whether there is a channel `channel`.
    pub open spec fn has_channel(self, channel: Seq<char>) -> bool {
        has_name(self.names, channel)
    }

    /// The streams of `channel`, in the order in which they were added.
    pub open spec fn streams_of(self, channel: Seq<char>) -> Seq<Seq<char>>
        recommends
            self.has_channel(channel),
    {
        self.members[position_of(self.names, channel)]
    }

    /// The streams of `channel`, or none where there is no such channel.
    pub open spec fn streams_or_none(self, channel: Seq<char>) -> Seq<Seq<char>> {
        if self.has_channel(channel) {
            self.streams_of(channel)
        } else {
            Seq::<Seq<char>>::empty()
        }
    }

    /// Whether `stream` is one of the streams of `channel`.
    pub open spec fn is_member(self, channel: Seq<char>, stream: Seq<char>) -> bool {
        self.has_channel(channel) && has_name(self.streams_of(channel), stream)
    }

    /// The map with `stream` among the streams of `channel`: where it is
    /// not one of them yet, it is added after them, and where there is no
    /// such channel yet, the channel is added after the others.
    pub open spec fn with_member(self, channel: Seq<char>, stream: Seq<char>) -> ChannelMapModel {
        if self.has_channel(channel) {
            let at = position_of(self.names, channel);
            ChannelMapModel {
                names: self.names,
                members: self.members.update(at, with_appended(self.members[at], stream)),
            }
        } else {
            ChannelMapModel {
                names: self.names.push(channel),
                members: self.members.push(seq![stream]),
            }
        }
    }
}

/// Adding a stream to a channel keeps the map in order, makes the stream
/// a member of the channel, and changes no other membership.
pub proof fn lemma_with_member(m: ChannelMapModel, channel: Seq<char>, stream: Seq<char>)
    requires
        m.wf(),
    ensures
        m.with_member(channel, stream).wf(),
        m.with_member(channel, stream).is_member(channel, stream),
        forall|c: Seq<char>, s: Seq<char>|
            m.with_member(channel, stream).is_member(c, s) <==> (c == channel && s == stream)
                || m.is_member(c, s),
        forall|c: Seq<char>|
            m.with_member(channel, stream).has_channel(c) <==> c == channel || m.has_channel(c),
        m.with_member(channel, stream).streams_of(channel) == with_appended(
            m.streams_or_none(channel),
            stream,
        ),
        forall|c: Seq<char>|
            c != channel && m.has_channel(c) ==> m.with_member(channel, stream).streams_of(c)
                == m.streams_of(c),
{
    let after = m.with_member(channel, stream);
    lemma_with_appended(m.names, channel);
    if m.has_channel(channel) {
        let at = position_of(m.names, channel);
        lemma_with_appended(m.members[at], stream);
        assert forall|c: int| 0 <= c < after.members.len() implies distinct(
            #[trigger] after.members[c],
        ) by {
            if c != at {
                assert(after.members[c] == m.members[c]);
            }
        }
        assert forall|c: Seq<char>| #[trigger] m.has_channel(c) implies after.streams_of(c) == (
        if c == channel {
            with_appended(m.members[at], stream)
        } else {
            m.streams_of(c)
        }) by {
            let p = position_of(m.names, c);
            if p == at {
                assert(c == channel);
            }
        }
        assert forall|c: Seq<char>, s: Seq<char>| after.is_member(c, s) <==> (c == channel && s
            == stream) || m.is_member(c, s) by {
            if m.has_channel(c) {
                let p = position_of(m.names, c);
                if p == at {
                    assert(c == channel);
                }
            }
        }
    } else {
        let at = m.names.len() as int;
        assert(after.names == with_appended(m.names, channel));
        assert(after.names[at] == channel);
        lemma_position(after.names, at);
        assert(after.members[at] == seq![stream]);
        assert(seq![stream][0] == stream);
        assert(distinct(seq![stream]));
        assert(with_appended(Seq::<Seq<char>>::empty(), stream) =~= seq![stream]) by {
            if has_name(Seq::<Seq<char>>::empty(), stream) {
                let k = choose|k: int|
                    0 <= k < Seq::<Seq<char>>::empty().len() && Seq::<Seq<char>>::empty()[k]
                        == stream;
            }
        }
        assert forall|c: int| 0 <= c < after.members.len() implies distinct(
            #[trigger] after.members[c],
        ) by {
            if c < at {
                assert(after.members[c] == m.members[c]);
            }
        }
        assert forall|c: Seq<char>| #[trigger] m.has_channel(c) implies after.has_channel(c)
            && after.streams_of(c) == m.streams_of(c) by {
            let p = position_of(m.names, c);
            assert(after.names[p] == c);
            lemma_position(after.names, p);
        }
        assert forall|c: Seq<char>, s: Seq<char>| after.is_member(c, s) <==> (c == channel && s
            == stream) || m.is_member(c, s) by {
            if after.has_channel(c) && c != channel {
                assert(m.has_channel(c));
            }
            if c == channel && has_name(after.members[at], s) {
                let k = choose|k: int| 0 <= k < after.members[at].len() && after.members[at][k]
                    == s;
                assert(s == stream);
            }
        }
    }
}

impl View for ChannelMap {
    type V = ChannelMapModel;

    closed spec fn view(&self) -> ChannelMapModel {
        ChannelMapModel { names: texts(self.names@), members: member_texts(self.members@) }
    }
}

impl ChannelMap {
    /// A map without channels.
    pub fn new() -> (map: ChannelMap)
        ensures
            map@.wf(),
            map@.names.len() == 0,
    {
        let map = ChannelMap { names: Vec::new(), members: Vec::new() };
        assert(map@.names =~= Seq::<Seq<char>>::empty());
        map
    }

    /// Makes `stream` one of the streams of `channel`.
    pub fn add(&mut self, channel: &str, stream: &str)
        requires
            old(self)@.wf(),
        ensures
            final(self)@.wf(),
            final(self)@ == old(self)@.with_member(channel@, stream@),
    {
        proof {
            lemma_with_member(self@, channel@, stream@);
        }
        match find_name(&self.names, channel) {
            Some(at) => {
                proof {
                    assert(self@.names[at as int] == channel@);
                    lemma_position(self@.names, at as int);
                }
                assert(self@.members[at as int] == texts(self.members@[at as int]@));
                let _ = append_name(&mut self.members[at], stream);
                assert(self@.members =~= old(self)@.members.update(
                    at as int,
                    with_appended(old(self)@.members[at as int], stream@),
                ));
            },
            None => {
                self.names.push(String::from_str(channel));
                let mut only: Vec<String> = Vec::new();
                only.push(String::from_str(stream));
                assert(texts(only@) =~= seq![stream@]);
                self.members.push(only);
                assert(self@.names =~= old(self)@.names.push(channel@));
                assert(self@.members =~= old(self)@.members.push(seq![stream@]));
            },
        }
    }

    /// A copy of the names of the streams of `channel_name`, in the order
    /// in which they were added, or `None` where there is no such
    /// channel.
    pub fn streams_of(&self, channel_name: &str) -> (streams: Option<Vec<String>>)
        requires
            self@.wf(),
        ensures
            streams is Some == self@.has_channel(channel_name@),
            streams is Some ==> texts(streams->0@) == self@.streams_of(channel_name@),
    {
        match find_name(&self.names, channel_name) {
            Some(at) => {
                proof {
                    assert(self@.names[at as int] == channel_name@);
                    lemma_position(self@.names, at as int);
                }
                assert(self@.members[at as int] == texts(self.members@[at as int]@));
                Some(copy_names(&self.members[at]))
            },
            None => None,
        }
    }

    /// A copy of the names of the channels, in the order in which they
    /// were added.
    pub fn channel_names(&self) -> (names: Vec<String>)
        ensures
            texts(names@) == self@.names,
    {
        copy_names(&self.names)
    }

    /// The number of channels.
    pub fn len(&self) -> (n: usize)
        ensures
            n == self@.names.len(),
    {
        self.names.len()
    }

    /// The name of the channel at `index`.
    pub fn name_at(&self, index: usize) -> (name: &String)
        requires
            index < self@.names.len(),
        ensures
            name@ == self@.names[index as int],
    {
        &self.names[index]
    }

    /// The names of the streams of the channel at `index`.
    pub fn members_at(&self, index: usize) -> (members: &Vec<String>)
        requires
            self@.wf(),
            index < self@.names.len(),
        ensures
            texts(members@) == self@.members[index as int],
    {
        &self.members[index]
    }
}

} // verus!
