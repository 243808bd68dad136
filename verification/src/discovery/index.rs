//! Who publishes, who consumes, and who holds which topics and channels, kept up
//! to date as brokers come and go.
use crate::discovery::model::{
    self, BrokerEndpoint, BrokerRegistry, EndpointKey, RegistryTopic, RegistryView, TopicView,
};
use crate::ordered::{OrderedKey, SortedMap, SortedSet};
use crate::text;
use vstd::prelude::*;
use vstd::string::*;

verus! {

/// Endpoints by name.
pub type Owners = SortedMap<String, SortedSet<BrokerEndpoint>>;

/// The index.
pub struct Index {
    pub topic_owners: Owners,
    pub channel_owners: SortedMap<String, Owners>,
    pub publishers: SortedSet<BrokerEndpoint>,
    pub consumers: SortedSet<BrokerEndpoint>,
}

/// Whether a broker serves consumers.
pub open spec fn consumes(r: RegistryView) -> bool {
    r.consume_ready || r.ready
}

/// Whether a broker serves consumers.
pub fn consume_ready(registry: &BrokerRegistry) -> (r: bool)
    ensures
        r == consumes(registry@),
{
    registry.consume_ready || registry.ready
}

/// Whether a registry names a topic.
pub open spec fn names_topic(topics: Seq<TopicView>, t: Seq<char>) -> bool {
    exists|i: int| 0 <= i < topics.len() && (#[trigger] topics[i]).name == t
}

/// Whether a registry names a channel of a topic.
pub open spec fn names_channel(topics: Seq<TopicView>, t: Seq<char>, c: Seq<char>) -> bool {
    exists|i: int|
        0 <= i < topics.len() && (#[trigger] topics[i]).name == t && topics[i].channels.contains(c)
}

/// Whether a broker serves a topic to consumers.
pub open spec fn serves(b: Map<EndpointKey, RegistryView>, t: Seq<char>, e: EndpointKey) -> bool {
    b.contains_key(e) && consumes(b[e]) && names_topic(b[e].topics, t)
}

/// Whether a broker serves a channel of a topic to consumers.
pub open spec fn serves_channel(
    b: Map<EndpointKey, RegistryView>,
    t: Seq<char>,
    c: Seq<char>,
    e: EndpointKey,
) -> bool {
    b.contains_key(e) && consumes(b[e]) && names_channel(b[e].topics, t, c)
}

/// Whether an endpoint is held under a name.
pub open spec fn owns(
    m: Map<Seq<char>, SortedSet<BrokerEndpoint>>,
    t: Seq<char>,
    e: EndpointKey,
) -> bool {
    m.contains_key(t) && m[t]@.contains(e)
}

/// Whether a set has a member.
pub open spec fn occupied(s: Set<EndpointKey>) -> bool {
    exists|e: EndpointKey| s.contains(e)
}

/// Whether everything that is held under a name is in order and not empty.
pub open spec fn sound(o: Owners) -> bool {
    o.wf() && forall|t: Seq<char>| #[trigger]
        o@.contains_key(t) ==> o@[t].wf() && occupied(o@[t]@)
}

/// Whether an endpoint is held under a channel of a topic.
pub open spec fn lists(
    m: Map<Seq<char>, Owners>,
    t: Seq<char>,
    c: Seq<char>,
    e: EndpointKey,
) -> bool {
    m.contains_key(t) && owns(m[t]@, c, e)
}

/// Whether everything that is held under a channel is in order.
pub open spec fn channels_sound(m: SortedMap<String, Owners>) -> bool {
    m.wf() && forall|t: Seq<char>| #[trigger] m@.contains_key(t) ==> sound(m@[t])
}

/// Adds an endpoint under a name.
fn add_owner(o: &mut Owners, name: &String, e: &BrokerEndpoint)
    requires
        sound(*old(o)),
    ensures
        sound(*final(o)),
        forall|t: Seq<char>, x: EndpointKey|
            #[trigger] owns(final(o)@, t, x) <==> owns(old(o)@, t, x) || (t == name@ && x
                == e.key()),
{
    let mut set = match o.remove(name) {
        Some(s) => s,
        None => SortedSet::new(),
    };
    let ghost before = set@;
    set.insert(e.copy());
    assert(set@.contains(e.key()));
    o.insert(name.clone(), set);
    proof {
        assert forall|t: Seq<char>, x: EndpointKey| #[trigger]
            owns(o@, t, x) <==> owns(old(o)@, t, x) || (t == name@ && x == e.key()) by {
            if t == name@ {
                assert(o@[t] == set);
                assert(owns(old(o)@, t, x) <==> before.contains(x));
            } else {
                assert(o@.contains_key(t) <==> old(o)@.contains_key(t));
            }
        }
        assert forall|t: Seq<char>| #[trigger] o@.contains_key(t) implies o@[t].wf() && occupied(
            o@[t]@,
        ) by {
            if t != name@ {
                assert(old(o)@.contains_key(t));
                assert(o@[t] == old(o)@[t]);
            }
        }
    }
}

/// Removes an endpoint under a name, and the name with the last one.
fn drop_owner(o: &mut Owners, name: &String, e: &BrokerEndpoint)
    requires
        sound(*old(o)),
    ensures
        sound(*final(o)),
        forall|t: Seq<char>, x: EndpointKey|
            #[trigger] owns(final(o)@, t, x) <==> owns(old(o)@, t, x) && !(t == name@ && x
                == e.key()),
{
    match o.remove(name) {
        None => {
            proof {
                assert forall|t: Seq<char>, x: EndpointKey| #[trigger]
                    owns(o@, t, x) <==> owns(old(o)@, t, x) && !(t == name@ && x == e.key()) by {
                    assert(o@.contains_key(t) <==> old(o)@.contains_key(t));
                }
                assert forall|t: Seq<char>| #[trigger]
                    o@.contains_key(t) implies o@[t].wf() && occupied(o@[t]@) by {
                    assert(old(o)@.contains_key(t));
                }
            }
        },
        Some(s) => {
            let mut set = s;
            let ghost before = set@;
            set.remove(e);
            let ghost after = set@;
            let empty = set.is_empty();
            if !empty {
                o.insert(name.clone(), set);
            }
            proof {
                assert forall|t: Seq<char>, x: EndpointKey| #[trigger]
                    owns(o@, t, x) <==> owns(old(o)@, t, x) && !(t == name@ && x == e.key()) by {
                    if t == name@ {
                        assert(owns(old(o)@, t, x) <==> before.contains(x));
                        if empty {
                            assert(!after.contains(x));
                        }
                    } else {
                        assert(o@.contains_key(t) <==> old(o)@.contains_key(t));
                    }
                }
                assert forall|t: Seq<char>| #[trigger]
                    o@.contains_key(t) implies o@[t].wf() && occupied(o@[t]@) by {
                    if t != name@ {
                        assert(old(o)@.contains_key(t));
                        assert(o@[t] == old(o)@[t]);
                    }
                }
            }
        },
    }
}

/// Whether one of the first channels is `c`.
spec fn among(channels: Seq<String>, n: int, c: Seq<char>) -> bool {
    exists|i: int| 0 <= i < n && (#[trigger] channels[i])@ == c
}

/// Adds an endpoint under each channel.
fn add_channels(o: &mut Owners, channels: &Vec<String>, e: &BrokerEndpoint)
    requires
        sound(*old(o)),
    ensures
        sound(*final(o)),
        forall|c: Seq<char>, x: EndpointKey|
            #[trigger] owns(final(o)@, c, x) <==> owns(old(o)@, c, x) || (x == e.key()
                && text::texts(channels@).contains(c)),
{
    let mut i: usize = 0;
    while i < channels.len()
        invariant
            i <= channels@.len(),
            sound(*o),
            forall|c: Seq<char>, x: EndpointKey|
                #[trigger] owns(o@, c, x) <==> owns(old(o)@, c, x) || (x == e.key() && among(
                    channels@,
                    i as int,
                    c,
                )),
        decreases channels@.len() - i,
    {
        let ghost before = o@;
        add_owner(o, &channels[i], e);
        proof {
            assert forall|c: Seq<char>, x: EndpointKey| #[trigger]
                owns(o@, c, x) <==> owns(old(o)@, c, x) || (x == e.key() && among(
                    channels@,
                    i + 1,
                    c,
                )) by {
                assert(owns(o@, c, x) <==> owns(before, c, x) || (c == channels@[i as int]@ && x
                    == e.key()));
                assert(among(channels@, i + 1, c) <==> among(channels@, i as int, c) || c
                    == channels@[i as int]@);
            }
        }
        i += 1;
    }
    proof {
        assert forall|c: Seq<char>| among(channels@, channels@.len() as int, c)
            <==> #[trigger] text::texts(channels@).contains(c) by {
            lemma_among(channels@, c);
        }
    }
}

proof fn lemma_among(channels: Seq<String>, c: Seq<char>)
    ensures
        among(channels, channels.len() as int, c) <==> text::texts(channels).contains(c),
{
    let t = text::texts(channels);
    if among(channels, channels.len() as int, c) {
        let i = choose|i: int| 0 <= i < channels.len() && (#[trigger] channels[i])@ == c;
        assert(t[i] == c);
    }
    if t.contains(c) {
        let i = choose|i: int| 0 <= i < t.len() && t[i] == c;
        assert(channels[i]@ == c);
    }
}

/// Removes an endpoint under each channel.
fn drop_channels(o: &mut Owners, channels: &Vec<String>, e: &BrokerEndpoint)
    requires
        sound(*old(o)),
    ensures
        sound(*final(o)),
        forall|c: Seq<char>, x: EndpointKey|
            #[trigger] owns(final(o)@, c, x) <==> owns(old(o)@, c, x) && !(x == e.key()
                && text::texts(channels@).contains(c)),
{
    let mut i: usize = 0;
    while i < channels.len()
        invariant
            i <= channels@.len(),
            sound(*o),
            forall|c: Seq<char>, x: EndpointKey|
                #[trigger] owns(o@, c, x) <==> owns(old(o)@, c, x) && !(x == e.key() && among(
                    channels@,
                    i as int,
                    c,
                )),
        decreases channels@.len() - i,
    {
        let ghost before = o@;
        drop_owner(o, &channels[i], e);
        proof {
            assert forall|c: Seq<char>, x: EndpointKey| #[trigger]
                owns(o@, c, x) <==> owns(old(o)@, c, x) && !(x == e.key() && among(
                    channels@,
                    i + 1,
                    c,
                )) by {
                assert(owns(o@, c, x) <==> owns(before, c, x) && !(c == channels@[i as int]@ && x
                    == e.key()));
                assert(among(channels@, i + 1, c) <==> among(channels@, i as int, c) || c
                    == channels@[i as int]@);
            }
        }
        i += 1;
    }
    proof {
        assert forall|c: Seq<char>| among(channels@, channels@.len() as int, c)
            <==> #[trigger] text::texts(channels@).contains(c) by {
            lemma_among(channels@, c);
        }
    }
}

/// Adds an endpoint under a topic's channels.
fn index_channels(m: &mut SortedMap<String, Owners>, topic: &RegistryTopic, e: &BrokerEndpoint)
    requires
        channels_sound(*old(m)),
    ensures
        channels_sound(*final(m)),
        forall|t: Seq<char>, c: Seq<char>, x: EndpointKey|
            #[trigger] lists(final(m)@, t, c, x) <==> lists(old(m)@, t, c, x) || (x == e.key()
                && t == topic@.name && topic@.channels.contains(c)),
{
    let mut owners = match m.remove(&topic.name) {
        Some(o) => o,
        None => SortedMap::new(),
    };
    let ghost before = owners@;
    add_channels(&mut owners, &topic.channels, e);
    m.insert(topic.name.clone(), owners);
    proof {
        assert forall|t: Seq<char>, c: Seq<char>, x: EndpointKey| #[trigger]
            lists(m@, t, c, x) <==> lists(old(m)@, t, c, x) || (x == e.key() && t == topic@.name
                && topic@.channels.contains(c)) by {
            if t == topic.name@ {
                assert(m@[t] == owners);
                assert(lists(old(m)@, t, c, x) <==> owns(before, c, x));
                assert(owns(owners@, c, x) <==> owns(before, c, x) || (x == e.key()
                    && text::texts(topic.channels@).contains(c)));
            } else {
                assert(m@.contains_key(t) <==> old(m)@.contains_key(t));
            }
        }
        assert forall|t: Seq<char>| #[trigger] m@.contains_key(t) implies sound(m@[t]) by {
            if t != topic.name@ {
                assert(old(m)@.contains_key(t));
                assert(m@[t] == old(m)@[t]);
            }
        }
    }
}

/// Removes an endpoint under a topic's channels.
fn deindex_channels(m: &mut SortedMap<String, Owners>, topic: &RegistryTopic, e: &BrokerEndpoint)
    requires
        channels_sound(*old(m)),
    ensures
        channels_sound(*final(m)),
        forall|t: Seq<char>, c: Seq<char>, x: EndpointKey|
            #[trigger] lists(final(m)@, t, c, x) <==> lists(old(m)@, t, c, x) && !(x == e.key()
                && t == topic@.name && topic@.channels.contains(c)),
{
    match m.remove(&topic.name) {
        None => {
            proof {
                assert forall|t: Seq<char>, c: Seq<char>, x: EndpointKey| #[trigger]
                    lists(m@, t, c, x) <==> lists(old(m)@, t, c, x) && !(x == e.key() && t
                        == topic@.name && topic@.channels.contains(c)) by {
                    assert(m@.contains_key(t) <==> old(m)@.contains_key(t));
                }
                assert forall|t: Seq<char>| #[trigger] m@.contains_key(t) implies sound(m@[t]) by {
                    assert(old(m)@.contains_key(t));
                }
            }
        },
        Some(o) => {
            let mut owners = o;
            let ghost before = owners@;
            drop_channels(&mut owners, &topic.channels, e);
            let ghost after = owners@;
            let empty = owners.is_empty();
            if !empty {
                m.insert(topic.name.clone(), owners);
            }
            proof {
                assert forall|t: Seq<char>, c: Seq<char>, x: EndpointKey| #[trigger]
                    lists(m@, t, c, x) <==> lists(old(m)@, t, c, x) && !(x == e.key() && t
                        == topic@.name && topic@.channels.contains(c)) by {
                    if t == topic.name@ {
                        assert(lists(old(m)@, t, c, x) <==> owns(before, c, x));
                        assert(owns(after, c, x) <==> owns(before, c, x) && !(x == e.key()
                            && text::texts(topic.channels@).contains(c)));
                        if empty {
                            assert(!after.contains_key(c));
                        }
                    } else {
                        assert(m@.contains_key(t) <==> old(m)@.contains_key(t));
                    }
                }
                assert forall|t: Seq<char>| #[trigger] m@.contains_key(t) implies sound(m@[t]) by {
                    if t != topic.name@ {
                        assert(old(m)@.contains_key(t));
                        assert(m@[t] == old(m)@[t]);
                    }
                }
            }
        },
    }
}

/// Whether one of the first topics is `t`.
spec fn named(topics: Seq<TopicView>, n: int, t: Seq<char>) -> bool {
    exists|i: int| 0 <= i < n && (#[trigger] topics[i]).name == t
}

/// Whether one of the first topics is `t`, with a channel `c`.
spec fn channelled(topics: Seq<TopicView>, n: int, t: Seq<char>, c: Seq<char>) -> bool {
    exists|i: int|
        0 <= i < n && (#[trigger] topics[i]).name == t && topics[i].channels.contains(c)
}

impl Index {
    /// Whether everything that is held is in order.
    pub open spec fn sound(&self) -> bool {
        &&& sound(self.topic_owners)
        &&& channels_sound(self.channel_owners)
        &&& self.publishers.wf()
        &&& self.consumers.wf()
    }

    /// Whether the index says of some brokers what they report.
    pub open spec fn matches(&self, b: Map<EndpointKey, RegistryView>) -> bool {
        &&& self.sound()
        &&& forall|e: EndpointKey| #[trigger]
            self.publishers@.contains(e) <==> b.contains_key(e) && b[e].publish_ready
        &&& forall|e: EndpointKey| #[trigger]
            self.consumers@.contains(e) <==> b.contains_key(e) && consumes(b[e])
        &&& forall|t: Seq<char>, e: EndpointKey| #[trigger]
            owns(self.topic_owners@, t, e) <==> serves(b, t, e)
        &&& forall|t: Seq<char>, c: Seq<char>, e: EndpointKey| #[trigger]
            lists(self.channel_owners@, t, c, e) <==> serves_channel(b, t, c, e)
    }

    /// An empty index.
    pub fn new() -> (r: Self)
        ensures
            r.matches(Map::empty()),
    {
        Index {
            topic_owners: SortedMap::new(),
            channel_owners: SortedMap::new(),
            publishers: SortedSet::new(),
            consumers: SortedSet::new(),
        }
    }

    fn add_topics(&mut self, endpoint: &BrokerEndpoint, topics: &Vec<RegistryTopic>)
        requires
            old(self).sound(),
        ensures
            final(self).sound(),
            final(self).publishers == old(self).publishers,
            final(self).consumers == old(self).consumers,
            forall|t: Seq<char>, x: EndpointKey|
                #[trigger] owns(final(self).topic_owners@, t, x) <==> owns(
                    old(self).topic_owners@,
                    t,
                    x,
                ) || (x == endpoint.key() && names_topic(model::topic_views(topics@), t)),
            forall|t: Seq<char>, c: Seq<char>, x: EndpointKey|
                #[trigger] lists(final(self).channel_owners@, t, c, x) <==> lists(
                    old(self).channel_owners@,
                    t,
                    c,
                    x,
                ) || (x == endpoint.key() && names_channel(
                    model::topic_views(topics@),
                    t,
                    c,
                )),
    {
        let ghost views = model::topic_views(topics@);
        let mut i: usize = 0;
        while i < topics.len()
            invariant
                i <= topics@.len(),
                views == model::topic_views(topics@),
                self.sound(),
                self.publishers == old(self).publishers,
                self.consumers == old(self).consumers,
                forall|t: Seq<char>, x: EndpointKey|
                    #[trigger] owns(self.topic_owners@, t, x) <==> owns(
                        old(self).topic_owners@,
                        t,
                        x,
                    ) || (x == endpoint.key() && named(views, i as int, t)),
                forall|t: Seq<char>, c: Seq<char>, x: EndpointKey|
                    #[trigger] lists(self.channel_owners@, t, c, x) <==> lists(
                        old(self).channel_owners@,
                        t,
                        c,
                        x,
                    ) || (x == endpoint.key() && channelled(views, i as int, t, c)),
            decreases topics@.len() - i,
        {
            let ghost ow = self.topic_owners@;
            let ghost ch = self.channel_owners@;
            assert(views[i as int] == topics@[i as int]@);
            add_owner(&mut self.topic_owners, &topics[i].name, endpoint);
            index_channels(&mut self.channel_owners, &topics[i], endpoint);
            proof {
                assert forall|t: Seq<char>, x: EndpointKey| #[trigger]
                    owns(self.topic_owners@, t, x) <==> owns(old(self).topic_owners@, t, x) || (x
                        == endpoint.key() && named(views, i + 1, t)) by {
                    assert(owns(self.topic_owners@, t, x) <==> owns(ow, t, x) || (t
                        == views[i as int].name && x == endpoint.key()));
                    assert(named(views, i + 1, t) <==> named(views, i as int, t) || t
                        == views[i as int].name);
                }
                assert forall|t: Seq<char>, c: Seq<char>, x: EndpointKey| #[trigger]
                    lists(self.channel_owners@, t, c, x) <==> lists(
                        old(self).channel_owners@,
                        t,
                        c,
                        x,
                    ) || (x == endpoint.key() && channelled(views, i + 1, t, c)) by {
                    assert(lists(self.channel_owners@, t, c, x) <==> lists(ch, t, c, x) || (x
                        == endpoint.key() && t == views[i as int].name
                        && views[i as int].channels.contains(c)));
                    assert(channelled(views, i + 1, t, c) <==> channelled(views, i as int, t, c)
                        || (t == views[i as int].name && views[i as int].channels.contains(c)));
                }
            }
            i += 1;
        }
        proof {
            assert forall|t: Seq<char>| named(views, topics@.len() as int, t)
                <==> #[trigger] names_topic(views, t) by {}
            assert forall|t: Seq<char>, c: Seq<char>|
                channelled(views, topics@.len() as int, t, c) <==> #[trigger] names_channel(
                    views,
                    t,
                    c,
                ) by {}
        }
    }

    fn drop_topics(&mut self, endpoint: &BrokerEndpoint, topics: &Vec<RegistryTopic>)
        requires
            old(self).sound(),
        ensures
            final(self).sound(),
            final(self).publishers == old(self).publishers,
            final(self).consumers == old(self).consumers,
            forall|t: Seq<char>, x: EndpointKey|
                #[trigger] owns(final(self).topic_owners@, t, x) <==> owns(
                    old(self).topic_owners@,
                    t,
                    x,
                ) && !(x == endpoint.key() && names_topic(model::topic_views(topics@), t)),
            forall|t: Seq<char>, c: Seq<char>, x: EndpointKey|
                #[trigger] lists(final(self).channel_owners@, t, c, x) <==> lists(
                    old(self).channel_owners@,
                    t,
                    c,
                    x,
                ) && !(x == endpoint.key() && names_channel(
                    model::topic_views(topics@),
                    t,
                    c,
                )),
    {
        let ghost views = model::topic_views(topics@);
        let mut i: usize = 0;
        while i < topics.len()
            invariant
                i <= topics@.len(),
                views == model::topic_views(topics@),
                self.sound(),
                self.publishers == old(self).publishers,
                self.consumers == old(self).consumers,
                forall|t: Seq<char>, x: EndpointKey|
                    #[trigger] owns(self.topic_owners@, t, x) <==> owns(
                        old(self).topic_owners@,
                        t,
                        x,
                    ) && !(x == endpoint.key() && named(views, i as int, t)),
                forall|t: Seq<char>, c: Seq<char>, x: EndpointKey|
                    #[trigger] lists(self.channel_owners@, t, c, x) <==> lists(
                        old(self).channel_owners@,
                        t,
                        c,
                        x,
                    ) && !(x == endpoint.key() && channelled(views, i as int, t, c)),
            decreases topics@.len() - i,
        {
            let ghost ow = self.topic_owners@;
            let ghost ch = self.channel_owners@;
            assert(views[i as int] == topics@[i as int]@);
            drop_owner(&mut self.topic_owners, &topics[i].name, endpoint);
            deindex_channels(&mut self.channel_owners, &topics[i], endpoint);
            proof {
                assert forall|t: Seq<char>, x: EndpointKey| #[trigger]
                    owns(self.topic_owners@, t, x) <==> owns(old(self).topic_owners@, t, x) && !(x
                        == endpoint.key() && named(views, i + 1, t)) by {
                    assert(owns(self.topic_owners@, t, x) <==> owns(ow, t, x) && !(t
                        == views[i as int].name && x == endpoint.key()));
                    assert(named(views, i + 1, t) <==> named(views, i as int, t) || t
                        == views[i as int].name);
                }
                assert forall|t: Seq<char>, c: Seq<char>, x: EndpointKey| #[trigger]
                    lists(self.channel_owners@, t, c, x) <==> lists(
                        old(self).channel_owners@,
                        t,
                        c,
                        x,
                    ) && !(x == endpoint.key() && channelled(views, i + 1, t, c)) by {
                    assert(lists(self.channel_owners@, t, c, x) <==> lists(ch, t, c, x) && !(x
                        == endpoint.key() && t == views[i as int].name
                        && views[i as int].channels.contains(c)));
                    assert(channelled(views, i + 1, t, c) <==> channelled(views, i as int, t, c)
                        || (t == views[i as int].name && views[i as int].channels.contains(c)));
                }
            }
            i += 1;
        }
        proof {
            assert forall|t: Seq<char>| named(views, topics@.len() as int, t)
                <==> #[trigger] names_topic(views, t) by {}
            assert forall|t: Seq<char>, c: Seq<char>|
                channelled(views, topics@.len() as int, t, c) <==> #[trigger] names_channel(
                    views,
                    t,
                    c,
                ) by {}
        }
    }

    /// Adds a broker.
    pub(crate) fn index(
        &mut self,
        endpoint: &BrokerEndpoint,
        registry: &BrokerRegistry,
        Ghost(b): Ghost<Map<EndpointKey, RegistryView>>,
    )
        requires
            old(self).matches(b),
            !b.contains_key(endpoint.key()),
        ensures
            final(self).matches(b.insert(endpoint.key(), registry@)),
    {
        let ghost after = b.insert(endpoint.key(), registry@);
        if registry.publish_ready {
            self.publishers.insert(endpoint.copy());
        }
        if !consume_ready(registry) {
            proof {
                assert forall|t: Seq<char>, e: EndpointKey| #[trigger]
                    owns(self.topic_owners@, t, e) <==> serves(after, t, e) by {
                    assert(serves(b, t, e) <==> serves(after, t, e));
                }
                assert forall|t: Seq<char>, c: Seq<char>, e: EndpointKey| #[trigger]
                    lists(self.channel_owners@, t, c, e) <==> serves_channel(after, t, c, e) by {
                    assert(serves_channel(b, t, c, e) <==> serves_channel(after, t, c, e));
                }
            }
            return ;
        }
        self.consumers.insert(endpoint.copy());
        self.add_topics(endpoint, &registry.topics);
        proof {
            assert forall|t: Seq<char>, e: EndpointKey| #[trigger]
                owns(self.topic_owners@, t, e) <==> serves(after, t, e) by {
                assert(owns(old(self).topic_owners@, t, e) <==> serves(b, t, e));
            }
            assert forall|t: Seq<char>, c: Seq<char>, e: EndpointKey| #[trigger]
                lists(self.channel_owners@, t, c, e) <==> serves_channel(after, t, c, e) by {
                assert(lists(old(self).channel_owners@, t, c, e) <==> serves_channel(b, t, c, e));
            }
        }
    }

    /// Removes a broker.
    pub(crate) fn deindex(
        &mut self,
        endpoint: &BrokerEndpoint,
        registry: &BrokerRegistry,
        Ghost(b): Ghost<Map<EndpointKey, RegistryView>>,
    )
        requires
            old(self).matches(b),
            b.contains_key(endpoint.key()),
            b[endpoint.key()] == registry@,
        ensures
            final(self).matches(b.remove(endpoint.key())),
    {
        let ghost after = b.remove(endpoint.key());
        self.publishers.remove(endpoint);
        self.consumers.remove(endpoint);
        if consume_ready(registry) {
            self.drop_topics(endpoint, &registry.topics);
        }
        proof {
            assert forall|t: Seq<char>, e: EndpointKey| #[trigger]
                owns(self.topic_owners@, t, e) <==> serves(after, t, e) by {
                assert(owns(old(self).topic_owners@, t, e) <==> serves(b, t, e));
            }
            assert forall|t: Seq<char>, c: Seq<char>, e: EndpointKey| #[trigger]
                lists(self.channel_owners@, t, c, e) <==> serves_channel(after, t, c, e) by {
                assert(lists(old(self).channel_owners@, t, c, e) <==> serves_channel(b, t, c, e));
            }
        }
    }
}

/// A broker can be read from exactly where it says so, in the old way or in the new one.
pub proof fn law_brokers_say_whether_they_can_be_read_from(r: RegistryView)
    ensures
        consumes(r) <==> r.consume_ready || r.ready,
{
}

/// A broker serves a topic exactly where it is known, can be read from and lists the topic; and a
/// channel where it lists that under the topic.
pub proof fn law_brokers_serve_what_they_list(
    b: Map<EndpointKey, RegistryView>,
    t: Seq<char>,
    c: Seq<char>,
    e: EndpointKey,
)
    ensures
        serves(b, t, e) <==> b.contains_key(e) && (b[e].consume_ready || b[e].ready) && exists|
            i: int,
        |
            0 <= i < b[e].topics.len() && (#[trigger] b[e].topics[i]).name == t,
        serves_channel(b, t, c, e) <==> b.contains_key(e) && (b[e].consume_ready || b[e].ready)
            && exists|i: int|
            0 <= i < b[e].topics.len() && (#[trigger] b[e].topics[i]).name == t
                && b[e].topics[i].channels.contains(c),
        serves_channel(b, t, c, e) ==> serves(b, t, e),
{
}

} // verus!
