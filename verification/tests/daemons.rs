use crypsinous::irc::{
    listener_for, relay, Args, ChannelInfo, ClientSubMsg, ContactInfo, IrcConfig, IrcError,
    Listener, NotifierMsg, PrivMsgEvent,
};
use crypsinous::net::{start, SeedPlan};
use crypsinous::rpc::{handle_request, Route};

fn settings() -> Args {
    let mut dev = ChannelInfo::new();
    dev.topic = Some("development".to_string());
    dev.joined = true;
    Args {
        password: Some("secret".to_string()),
        private_key: Some("key".to_string()),
        autojoin: vec!["#dev".to_string(), "#random".to_string(), "#random".to_string()],
        channels: vec![("#dev".to_string(), dev), ("#ops".to_string(), ChannelInfo::new())],
        contacts: vec![(
            "alice".to_string(),
            ContactInfo { contact_pubkey: Some("pk".to_string()) },
        )],
    }
}

#[test]
fn fresh_connection_state() {
    let config = IrcConfig::new(&settings()).unwrap();
    assert!(!config.is_nick_init);
    assert!(!config.is_user_init);
    assert!(!config.is_registered);
    assert!(config.is_cap_end);
    assert!(!config.is_pass_init);
    assert_eq!(config.nickname, "anon");
    assert_eq!(config.password, "secret");
    assert_eq!(config.private_key, Some("key".to_string()));
    assert_eq!(config.capabilities, vec![("no-history".to_string(), false)]);
    assert_eq!(config.contacts.len(), 1);
    assert_eq!(config.contacts[0].0, "alice");
    assert_eq!(config.contacts[0].1.contact_pubkey, Some("pk".to_string()));
}

#[test]
fn channels_to_join_are_added_once() {
    let config = IrcConfig::new(&settings()).unwrap();
    let names: Vec<&str> = config.channels.iter().map(|(name, _)| name.as_str()).collect();
    assert_eq!(names, vec!["#dev", "#ops", "#random"]);
    // a configured channel keeps what is known of it
    assert_eq!(config.channels[0].1.topic, Some("development".to_string()));
    assert!(config.channels[0].1.joined);
    // an added one is fresh
    let added = &config.channels[2].1;
    assert!(added.secret.is_none());
    assert!(!added.joined);
    assert!(added.topic.is_none());
    assert!(added.names.is_empty());
}

#[test]
fn connection_without_settings() {
    let config = IrcConfig::new(&Args {
        password: None,
        private_key: None,
        autojoin: vec![],
        channels: vec![],
        contacts: vec![],
    })
    .unwrap();
    assert_eq!(config.password, "");
    assert_eq!(config.private_key, None);
    assert!(config.channels.is_empty());
    assert!(config.contacts.is_empty());
    assert_eq!(config.nickname, "anon");
}

#[test]
fn private_messages_go_to_the_other_clients() {
    let event = PrivMsgEvent {
        nick: "alice".to_string(),
        msg: "hello".to_string(),
        target: "#dev".to_string(),
    };
    match relay(NotifierMsg::Privmsg(event), 7) {
        Some((ClientSubMsg::Privmsg(m), sender)) => {
            assert_eq!(m.nick, "alice");
            assert_eq!(m.msg, "hello");
            assert_eq!(m.target, "#dev");
            assert_eq!(sender, 7);
        }
        _ => panic!("a private message is passed on"),
    }
    assert!(relay(NotifierMsg::UpdateConfig, 7).is_none());
}

#[test]
fn settings_are_left_as_they_are() {
    let given = settings();
    let config = IrcConfig::new(&given).unwrap();
    assert_eq!(given.channels.len(), 2);
    assert_eq!(config.channels.len(), 3);
    let copy = given.channels[0].1.duplicate();
    assert_eq!(copy.topic, given.channels[0].1.topic);
    assert_eq!(copy.joined, given.channels[0].1.joined);
    assert_eq!(copy.secret, given.channels[0].1.secret);
    assert_eq!(copy.names, given.channels[0].1.names);
}

#[test]
fn tls_needs_a_key_and_a_certificate() {
    assert_eq!(listener_for("tcp", false, false), Ok(Listener::Plain));
    assert_eq!(listener_for("tcp", true, true), Ok(Listener::Plain));
    assert_eq!(listener_for("tls", true, true), Ok(Listener::Tls));
    assert_eq!(listener_for("tls", true, false), Err(IrcError::KeypairPathNotFound));
    assert_eq!(listener_for("tls", false, true), Err(IrcError::KeypairPathNotFound));
    assert_eq!(listener_for("tls", false, false), Err(IrcError::KeypairPathNotFound));
    assert_eq!(listener_for("TLS", false, false), Ok(Listener::Plain));
}

#[test]
fn requests_are_routed_by_their_method() {
    assert_eq!(handle_request(Some("ping"), true), Route::Pong);
    assert_eq!(handle_request(Some("get_info"), true), Route::GetInfo);
    assert_eq!(handle_request(Some("put_info"), true), Route::MethodNotFound);
    assert_eq!(handle_request(Some(""), true), Route::MethodNotFound);
    assert_eq!(handle_request(None, true), Route::MethodNotFound);
    assert_eq!(handle_request(Some("ping"), false), Route::InvalidRequest);
    assert_eq!(handle_request(None, false), Route::InvalidRequest);
}

#[test]
fn seeds_are_asked_where_there_are_any() {
    assert_eq!(start(0, 0), SeedPlan::Skip);
    assert_eq!(start(0, 2), SeedPlan::StoreExternal);
    assert_eq!(start(3, 0), SeedPlan::Query(3));
    assert_eq!(start(3, 2), SeedPlan::Query(3));
}
