//! State of one IRC client connection, and the messages that the server and
//! its clients pass to each other.
//!
//! Channels, contacts and capabilities are kept as lists of named entries,
//! in which no name occurs twice where none did in the settings.

use vstd::prelude::*;

verus! {

/// What is known of a channel, as text.
pub struct ChannelInfoView {
    pub secret: Option<Seq<char>>,
    pub joined: bool,
    pub topic: Option<Seq<char>>,
    pub names: Seq<Seq<char>>,
}

/// What is known of a channel.
#[derive(Clone, Debug)]
pub struct ChannelInfo {
    /// Secret that encrypts the channel's messages, if there is one.
    pub secret: Option<String>,
    /// Whether the client has joined the channel.
    pub joined: bool,
    /// The channel's topic, if one is set.
    pub topic: Option<String>,
    /// Nicknames seen on the channel.
    pub names: Vec<String>,
}

/// What is known of a contact.
#[derive(Clone, Debug)]
pub struct ContactInfo {
    /// The contact's public key, if one is configured.
    pub contact_pubkey: Option<String>,
}

/// The settings that a client's state is made from.
#[derive(Clone, Debug)]
pub struct Args {
    /// Password that clients have to give, if any.
    pub password: Option<String>,
    /// Private key for encrypted messages to contacts, if any.
    pub private_key: Option<String>,
    /// Channels to join when a client registers.
    pub autojoin: Vec<String>,
    /// Configured channels by name.
    pub channels: Vec<(String, ChannelInfo)>,
    /// Configured contacts by name.
    pub contacts: Vec<(String, ContactInfo)>,
}

/// A private message as it travels between clients.
#[derive(Clone, Debug)]
pub struct PrivMsgEvent {
    pub nick: String,
    pub msg: String,
    pub target: String,
}

/// State of one client connection.
#[derive(Clone, Debug)]
pub struct IrcConfig {
    pub is_nick_init: bool,
    pub is_user_init: bool,
    pub is_registered: bool,
    pub is_cap_end: bool,
    pub is_pass_init: bool,
    pub nickname: String,
    pub password: String,
    pub private_key: Option<String>,
    pub capabilities: Vec<(String, bool)>,
    pub channels: Vec<(String, ChannelInfo)>,
    pub contacts: Vec<(String, ContactInfo)>,
}

/// What a client is told by the server.
#[derive(Clone, Debug)]
pub enum ClientSubMsg {
    Privmsg(PrivMsgEvent),
    Config(IrcConfig),
}

/// What a client tells the server.
#[derive(Clone, Debug)]
pub enum NotifierMsg {
    Privmsg(PrivMsgEvent),
    UpdateConfig,
}

/// Errors of the IRC server.
#[derive(Clone, Copy, Debug, PartialEq, Eq, Structural)]
pub enum IrcError {
    /// TLS was asked for without a key or a certificate.
    KeypairPathNotFound,
}

/// The text of a string that may be missing.
pub open spec fn text(s: Option<String>) -> Option<Seq<char>> {
    match s {
        Some(t) => Some(t@),
        None => None,
    }
}

/// The texts of a list of strings.
pub open spec fn texts(v: Seq<String>) -> Seq<Seq<char>> {
    v.map_values(|s: String| s@)
}

impl View for ChannelInfo {
    type V = ChannelInfoView;

    open spec fn view(&self) -> ChannelInfoView {
        ChannelInfoView {
            secret: text(self.secret),
            joined: self.joined,
            topic: text(self.topic),
            names: texts(self.names@),
        }
    }
}

impl View for ContactInfo {
    type V = Option<Seq<char>>;

    open spec fn view(&self) -> Option<Seq<char>> {
        text(self.contact_pubkey)
    }
}

/// The channels of a list, each as its name and what is known of it.
pub open spec fn channel_views(v: Seq<(String, ChannelInfo)>) -> Seq<(Seq<char>, ChannelInfoView)> {
    v.map_values(|e: (String, ChannelInfo)| (e.0@, e.1@))
}

/// The contacts of a list, each as its name and its public key.
pub open spec fn contact_views(v: Seq<(String, ContactInfo)>) -> Seq<
    (Seq<char>, Option<Seq<char>>),
> {
    v.map_values(|e: (String, ContactInfo)| (e.0@, e.1@))
}

/// A channel of which nothing is known yet.
pub open spec fn fresh_channel() -> ChannelInfoView {
    ChannelInfoView { secret: None, joined: false, topic: None, names: Seq::empty() }
}

/// Whether one of the channels has this name.
pub open spec fn has_channel(channels: Seq<(Seq<char>, ChannelInfoView)>, name: Seq<char>) -> bool {
    exists|i: int| 0 <= i < channels.len() && (#[trigger] channels[i]).0 == name
}

/// Whether one of the names is this one.
pub open spec fn names_hold(names: Seq<String>, name: Seq<char>) -> bool {
    exists|i: int| 0 <= i < names.len() && (#[trigger] names[i])@ == name
}

/// Whether no name occurs twice among the channels.
pub open spec fn unique_channels(channels: Seq<(Seq<char>, ChannelInfoView)>) -> bool {
    forall|i: int, j: int|
        0 <= i < j < channels.len() ==> (#[trigger] channels[i]).0 != (#[trigger] channels[j]).0
}

/// Whether `joined` holds the `given` channels, followed by a fresh channel
/// for each name of `autojoin` that is not among the channels before it.
pub open spec fn is_joined(
    joined: Seq<(Seq<char>, ChannelInfoView)>,
    given: Seq<(Seq<char>, ChannelInfoView)>,
    autojoin: Seq<String>,
) -> bool {
    &&& joined.len() >= given.len()
    &&& joined.take(given.len() as int) == given
    &&& forall|i: int|
        given.len() <= i < joined.len() ==> {
            &&& (#[trigger] joined[i]).1 == fresh_channel()
            &&& names_hold(autojoin, joined[i].0)
            &&& !has_channel(joined.take(i), joined[i].0)
        }
    &&& forall|k: int|
        0 <= k < autojoin.len() ==> has_channel(joined, (#[trigger] autojoin[k])@)
}

/// Joining channels brings no name in twice.
pub proof fn lemma_joined_unique(
    joined: Seq<(Seq<char>, ChannelInfoView)>,
    given: Seq<(Seq<char>, ChannelInfoView)>,
    autojoin: Seq<String>,
)
    requires
        is_joined(joined, given, autojoin),
        unique_channels(given),
    ensures
        unique_channels(joined),
{
    assert forall|i: int, j: int| 0 <= i < j < joined.len() implies (#[trigger] joined[i]).0 != (
    #[trigger] joined[j]).0 by {
        if j < given.len() {
            assert(joined.take(given.len() as int)[i] == joined[i]);
            assert(joined.take(given.len() as int)[j] == joined[j]);
        } else {
            assert(joined.take(j)[i] == joined[i]);
        }
    }
}

/// A copy of a string that may be missing.
fn copy_text(s: &Option<String>) -> (copy: Option<String>)
    ensures
        text(copy) == text(*s),
{
    match s {
        Some(t) => Some(t.clone()),
        None => None,
    }
}

/// A copy of a list of strings.
fn copy_texts(v: &Vec<String>) -> (copy: Vec<String>)
    ensures
        texts(copy@) == texts(v@),
{
    let mut copy: Vec<String> = Vec::new();
    let mut i: usize = 0;
    while i < v.len()
        invariant
            i <= v.len(),
            copy@.len() == i,
            forall|j: int| 0 <= j < i ==> (#[trigger] copy@[j])@ == v@[j]@,
        decreases v.len() - i,
    {
        copy.push(v[i].clone());
        i += 1;
    }
    assert(texts(copy@) =~= texts(v@));
    copy
}

impl ChannelInfo {
    /// A channel of which nothing is known yet.
    pub fn new() -> (info: ChannelInfo)
        ensures
            info@ == fresh_channel(),
    {
        let info = ChannelInfo { secret: None, joined: false, topic: None, names: Vec::new() };
        assert(info@.names =~= Seq::empty());
        info
    }

    /// A copy of what is known of the channel.
    pub fn duplicate(&self) -> (copy: ChannelInfo)
        ensures
            copy@ == self@,
    {
        ChannelInfo {
            secret: copy_text(&self.secret),
            joined: self.joined,
            topic: copy_text(&self.topic),
            names: copy_texts(&self.names),
        }
    }
}

/// A copy of a list of channels.
fn copy_channels(v: &Vec<(String, ChannelInfo)>) -> (copy: Vec<(String, ChannelInfo)>)
    ensures
        channel_views(copy@) == channel_views(v@),
{
    let mut copy: Vec<(String, ChannelInfo)> = Vec::new();
    let mut i: usize = 0;
    while i < v.len()
        invariant
            i <= v.len(),
            copy@.len() == i,
            forall|j: int|
                0 <= j < i ==> (#[trigger] copy@[j]).0@ == v@[j].0@ && copy@[j].1@ == v@[j].1@,
        decreases v.len() - i,
    {
        copy.push((v[i].0.clone(), v[i].1.duplicate()));
        i += 1;
    }
    assert(channel_views(copy@) =~= channel_views(v@));
    copy
}

/// A copy of a list of contacts.
fn copy_contacts(v: &Vec<(String, ContactInfo)>) -> (copy: Vec<(String, ContactInfo)>)
    ensures
        contact_views(copy@) == contact_views(v@),
{
    let mut copy: Vec<(String, ContactInfo)> = Vec::new();
    let mut i: usize = 0;
    while i < v.len()
        invariant
            i <= v.len(),
            copy@.len() == i,
            forall|j: int|
                0 <= j < i ==> (#[trigger] copy@[j]).0@ == v@[j].0@ && copy@[j].1@ == v@[j].1@,
        decreases v.len() - i,
    {
        let contact = ContactInfo { contact_pubkey: copy_text(&v[i].1.contact_pubkey) };
        copy.push((v[i].0.clone(), contact));
        i += 1;
    }
    assert(contact_views(copy@) =~= contact_views(v@));
    copy
}

/// Tells whether one of the channels has this name.
fn channel_listed(channels: &Vec<(String, ChannelInfo)>, name: &String) -> (found: bool)
    ensures
        found == has_channel(channel_views(channels@), name@),
{
    let mut i: usize = 0;
    while i < channels.len()
        invariant
            i <= channels.len(),
            forall|j: int| 0 <= j < i ==> (#[trigger] channel_views(channels@)[j]).0 != name@,
        decreases channels.len() - i,
    {
        if channels[i].0 == *name {
            assert(channel_views(channels@)[i as int].0 == name@);
            return true;
        }
        assert(channel_views(channels@)[i as int].0 == channels@[i as int].0@);
        i += 1;
    }
    false
}

impl IrcConfig {
    /// The state of a fresh connection under the given settings: nothing is
    /// initialised, the nickname is `anon`, the only capability is
    /// `no-history`, switched off, and the channels are the configured ones,
    /// followed by a fresh entry for each channel to join that is not among
    /// them yet.
    pub fn new(settings: &Args) -> (r: Result<IrcConfig, IrcError>)
        ensures
            r is Ok,
            ({
                let c = r->Ok_0;
                &&& !c.is_nick_init && !c.is_user_init && !c.is_registered && c.is_cap_end
                    && !c.is_pass_init
                &&& c.nickname@ == "anon"@
                &&& c.password@ == match settings.password {
                    Some(p) => p@,
                    None => Seq::<char>::empty(),
                }
                &&& text(c.private_key) == text(settings.private_key)
                &&& contact_views(c.contacts@) == contact_views(settings.contacts@)
                &&& c.capabilities@.len() == 1 && c.capabilities@[0].0@ == "no-history"@
                    && !c.capabilities@[0].1
                &&& is_joined(
                    channel_views(c.channels@),
                    channel_views(settings.channels@),
                    settings.autojoin@,
                )
                &&& unique_channels(channel_views(settings.channels@)) ==> unique_channels(
                    channel_views(c.channels@),
                )
            }),
    {
        let password = match &settings.password {
            Some(p) => p.clone(),
            None => String::new(),
        };
        let private_key = copy_text(&settings.private_key);
        let ghost given = channel_views(settings.channels@);
        let mut channels = copy_channels(&settings.channels);
        assert(channel_views(channels@).take(given.len() as int) =~= given);
        let mut k: usize = 0;
        while k < settings.autojoin.len()
            invariant
                k <= settings.autojoin.len(),
                given == channel_views(settings.channels@),
                is_joined(channel_views(channels@), given, settings.autojoin@.take(k as int)),
            decreases settings.autojoin.len() - k,
        {
            let ghost before = channel_views(channels@);
            let ghost done = settings.autojoin@.take(k as int);
            let ghost next = settings.autojoin@.take(k + 1);
            let chan = &settings.autojoin[k];
            if !channel_listed(&channels, chan) {
                channels.push((chan.clone(), ChannelInfo::new()));
            }
            proof {
                let after = channel_views(channels@);
                let last = before.len() as int;
                assert(after.take(last) =~= before);
                assert(after.take(given.len() as int) =~= before.take(given.len() as int));
                assert(next[k as int] == settings.autojoin@[k as int]);
                assert forall|i: int| given.len() <= i < after.len() implies {
                    &&& (#[trigger] after[i]).1 == fresh_channel()
                    &&& names_hold(next, after[i].0)
                    &&& !has_channel(after.take(i), after[i].0)
                } by {
                    if i < last {
                        assert(after[i] == before[i]);
                        assert(after.take(i) =~= before.take(i));
                        let w = choose|w: int|
                            0 <= w < done.len() && (#[trigger] done[w])@ == before[i].0;
                        assert(next[w] == done[w]);
                    } else {
                        assert(after[i].0 == chan@);
                    }
                }
                assert forall|j: int| 0 <= j < next.len() implies has_channel(
                    after,
                    (#[trigger] next[j])@,
                ) by {
                    if j < k {
                        assert(next[j] == done[j]);
                        let w = choose|w: int|
                            0 <= w < before.len() && (#[trigger] before[w]).0 == done[j]@;
                        assert(after[w] == before[w]);
                    } else if after.len() == before.len() {
                        let w = choose|w: int|
                            0 <= w < before.len() && (#[trigger] before[w]).0 == chan@;
                        assert(after[w] == before[w]);
                    } else {
                        assert(after[last].0 == chan@);
                    }
                }
            }
            k += 1;
        }
        proof {
            assert(settings.autojoin@.take(k as int) =~= settings.autojoin@);
            if unique_channels(given) {
                lemma_joined_unique(channel_views(channels@), given, settings.autojoin@);
            }
        }
        let contacts = copy_contacts(&settings.contacts);
        let mut capabilities: Vec<(String, bool)> = Vec::new();
        capabilities.push(("no-history".to_owned(), false));
        Ok(
            IrcConfig {
                is_nick_init: false,
                is_user_init: false,
                is_registered: false,
                is_cap_end: true,
                is_pass_init: false,
                nickname: "anon".to_owned(),
                password,
                private_key,
                capabilities,
                channels,
                contacts,
            },
        )
    }
}

/// What the server does with a message from the client with the given
/// subscription: a private message goes to every other client, a request to
/// reload the settings to none.
pub fn relay(msg: NotifierMsg, subscription_id: u64) -> (r: Option<(ClientSubMsg, u64)>)
    ensures
        r == match msg {
            NotifierMsg::Privmsg(m) => Some((ClientSubMsg::Privmsg(m), subscription_id)),
            NotifierMsg::UpdateConfig => None::<(ClientSubMsg, u64)>,
        },
{
    match msg {
        NotifierMsg::Privmsg(m) => Some((ClientSubMsg::Privmsg(m), subscription_id)),
        NotifierMsg::UpdateConfig => None,
    }
}

/// How the server listens.
#[derive(Clone, Copy, Debug, PartialEq, Eq, Structural)]
pub enum Listener {
    /// Connections are taken as they come.
    Plain,
    /// Connections are taken under TLS.
    Tls,
}

/// How the server listens on an address of the given scheme: under TLS for
/// `tls`, for which both a key and a certificate have to be configured, and
/// plainly for every other.
pub fn listener_for(scheme: &str, has_secret: bool, has_cert: bool) -> (r: Result<
    Listener,
    IrcError,
>)
    ensures
        r == if scheme@ != "tls"@ {
            Ok::<Listener, IrcError>(Listener::Plain)
        } else if has_secret && has_cert {
            Ok::<Listener, IrcError>(Listener::Tls)
        } else {
            Err::<Listener, IrcError>(IrcError::KeypairPathNotFound)
        },
{
    if scheme.to_owned() == "tls".to_owned() {
        if !has_secret || !has_cert {
            return Err(IrcError::KeypairPathNotFound);
        }
        Ok(Listener::Tls)
    } else {
        Ok(Listener::Plain)
    }
}

} // verus!
