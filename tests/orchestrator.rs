use rustygolem::auth::{auth_plan, sasl_plain_credentials, AuthStep, MAX_CREDENTIALS_CHARS};
use rustygolem::dispatch::{
    collect_replies, dispatch_targets, is_blacklisted, should_dispatch, DispatchError,
    HandlerOutcome, InboundInfo, InboundRound, Outbound, PluginEntry,
};
use rustygolem::outbound::{observers, OutboundRound};
use rustygolem::pool::{TaskPool, DISPATCH_CAP, INIT_CAP};
use rustygolem::registry::{plugin_kind, resolve_plugins, same_text, PluginKind};
use rustygolem::run::{is_final, next_phase, Phase, RunEvent};
use rustygolem::startup::{Startup, StartupError};

fn entry(name: &str, opt_in: bool) -> PluginEntry {
    PluginEntry { name: name.to_string(), blacklist_opt_in: opt_in }
}

fn privmsg_from(nick: &str) -> InboundInfo {
    InboundInfo { user_message: true, source: Some(nick.to_string()) }
}

fn strings(v: &[&str]) -> Vec<String> {
    v.iter().map(|s| s.to_string()).collect()
}

/// Runs one inbound message through a round, each targeted plugin answering
/// with `answer(position)`.
fn run_inbound(
    info: &InboundInfo,
    plugins: &Vec<PluginEntry>,
    blacklist: &Vec<String>,
    answer: impl Fn(usize) -> Result<Option<String>, ()>,
) -> (Result<Vec<Outbound<String>>, DispatchError>, Vec<usize>) {
    let mut round = InboundRound::new(dispatch_targets(info, plugins, blacklist));
    let mut invoked = Vec::new();
    while let Some(p) = round.next_plugin() {
        invoked.push(p);
        round.record(p, answer(p));
    }
    assert!(round.is_settled());
    (round.finish(plugins), invoked)
}

#[test]
fn blacklisted_sender_reaches_no_opted_in_plugin() {
    let plugins = vec![entry("echo", true)];
    let blacklist = strings(&["troll"]);
    let (replies, invoked) =
        run_inbound(&privmsg_from("troll"), &plugins, &blacklist, |_| Ok(Some("hi".to_string())));
    assert!(invoked.is_empty());
    assert_eq!(replies, Ok(vec![]));
}

#[test]
fn allowed_sender_reaches_echo_once_and_reply_is_sent_once() {
    let plugins = vec![entry("echo", true)];
    let blacklist = strings(&["troll"]);
    let (replies, invoked) =
        run_inbound(&privmsg_from("alice"), &plugins, &blacklist, |_| Ok(Some("hi".to_string())));
    assert_eq!(invoked, vec![0]);
    let replies = replies.unwrap();
    assert_eq!(replies, vec![Outbound { origin: "echo".to_string(), message: "hi".to_string() }]);
    let mut round = OutboundRound::new(&plugins, &replies[0].origin);
    assert_eq!(round.next_observer(), None);
    assert!(round.ready_to_send());
    round.mark_sent();
    assert!(!round.ready_to_send());
}

#[test]
fn unknown_plugin_fails_startup_before_construction() {
    let names = strings(&["echo", "bogus", "url"]);
    let r = Startup::<u32>::new(&names);
    match r {
        Err(StartupError::Unknown(u)) => {
            assert_eq!(u.index, 1);
            assert_eq!(u.name, "bogus");
        }
        _ => panic!("startup should fail"),
    }
    assert_eq!(resolve_plugins(&strings(&["bogus"])).unwrap_err().name, "bogus");
}

#[test]
fn non_user_message_reaches_no_plugin() {
    let plugins = vec![entry("echo", true), entry("url", false)];
    let info = InboundInfo { user_message: false, source: Some("alice".to_string()) };
    assert_eq!(dispatch_targets(&info, &plugins, &vec![]), vec![false, false]);
    let (replies, invoked) = run_inbound(&info, &plugins, &vec![], |_| Ok(Some("x".to_string())));
    assert!(invoked.is_empty());
    assert_eq!(replies, Ok(vec![]));
}

#[test]
fn blacklist_ignored_by_plugins_that_do_not_opt_in() {
    let plugins = vec![entry("echo", true), entry("url", false)];
    let blacklist = strings(&["troll"]);
    assert_eq!(dispatch_targets(&privmsg_from("troll"), &plugins, &blacklist), vec![false, true]);
    assert_eq!(dispatch_targets(&privmsg_from("alice"), &plugins, &blacklist), vec![true, true]);
    let no_source = InboundInfo { user_message: true, source: None };
    assert!(should_dispatch(&no_source, &plugins[0], &blacklist));
}

#[test]
fn blacklist_compares_identities_exactly() {
    let blacklist = strings(&["troll", "spam"]);
    assert!(is_blacklisted(&blacklist, "spam"));
    assert!(!is_blacklisted(&blacklist, "Troll"));
    assert!(!is_blacklisted(&blacklist, "troll "));
    assert!(!is_blacklisted(&vec![], "troll"));
    assert!(same_text("λ", "λ"));
    assert!(!same_text("ab", "abc"));
}

#[test]
fn replies_collected_in_plugin_order() {
    let plugins = vec![entry("a", false), entry("b", false), entry("c", false)];
    let outcomes = vec![
        HandlerOutcome::Replied(Some(1u32)),
        HandlerOutcome::Replied(None),
        HandlerOutcome::Replied(Some(3u32)),
    ];
    assert_eq!(
        collect_replies(&plugins, outcomes),
        Ok(vec![
            Outbound { origin: "a".to_string(), message: 1 },
            Outbound { origin: "c".to_string(), message: 3 },
        ])
    );
}

#[test]
fn handler_failure_fails_the_message_and_names_the_plugin() {
    let plugins = vec![entry("a", false), entry("b", false), entry("c", false)];
    let outcomes = vec![
        HandlerOutcome::Replied(Some(1u32)),
        HandlerOutcome::Failed,
        HandlerOutcome::Failed,
    ];
    assert_eq!(
        collect_replies(&plugins, outcomes),
        Err(DispatchError { index: 1, plugin: "b".to_string() })
    );
    let (r, _) = run_inbound(&privmsg_from("alice"), &plugins, &vec![], |p| {
        if p == 2 { Err(()) } else { Ok(Some(p.to_string())) }
    });
    assert_eq!(r, Err(DispatchError { index: 2, plugin: "c".to_string() }));
}

#[test]
fn inbound_dispatch_never_exceeds_cap() {
    let plugins: Vec<PluginEntry> = (0..12).map(|i| entry(&format!("p{i}"), false)).collect();
    let mut round: InboundRound<u32> =
        InboundRound::new(dispatch_targets(&privmsg_from("alice"), &plugins, &vec![]));
    let mut running = Vec::new();
    while let Some(p) = round.next_plugin() {
        running.push(p);
    }
    assert_eq!(running, vec![0, 1, 2, 3, 4]);
    assert_eq!(DISPATCH_CAP, 5);
    round.record(3, Ok(None));
    assert_eq!(round.next_plugin(), Some(5));
    assert_eq!(round.next_plugin(), None);
}

#[test]
fn pool_caps_and_stops_after_failure() {
    let mut pool = TaskPool::new(20, INIT_CAP);
    let mut started = 0;
    while pool.start().is_some() {
        started += 1;
    }
    assert_eq!(started, 10);
    pool.finish(0, true);
    assert_eq!(pool.start(), Some(10));
    pool.finish(1, false);
    assert!(pool.has_failed());
    assert_eq!(pool.start(), None);
    assert!(!pool.is_settled());
    for i in 2..=10 {
        pool.finish(i, true);
    }
    assert!(pool.is_settled());
    assert!(!pool.succeeded());
    let empty = TaskPool::new(0, 1);
    assert!(empty.succeeded());
}

#[test]
fn startup_keeps_configured_order_and_cap() {
    let names = strings(&[
        "crypto", "ctcp", "echo", "joke", "republican_calendar", "twitch", "url", "echo", "joke",
        "ctcp", "url",
    ]);
    let mut s: Startup<String> = Startup::new(&names).unwrap();
    let mut started = Vec::new();
    while let Some((i, k)) = s.next_construction() {
        started.push((i, k));
    }
    assert_eq!(started.len(), 10);
    assert_eq!(started[5], (5, PluginKind::Twitch));
    s.constructed(9, Some("ctcp#9".to_string()));
    let (i, k) = s.next_construction().unwrap();
    assert_eq!((i, k), (10, PluginKind::Url));
    for j in (0..9).rev() {
        s.constructed(j, Some(format!("{}#{}", started[j].1.name(), j)));
    }
    s.constructed(10, Some("url#10".to_string()));
    assert!(s.is_settled());
    let built = s.finish().unwrap();
    assert_eq!(built[0], "crypto#0");
    assert_eq!(built[4], "republican_calendar#4");
    assert_eq!(built[10], "url#10");
}

#[test]
fn startup_construction_failure_is_fatal() {
    let names = strings(&["echo", "url"]);
    let mut s: Startup<u8> = Startup::new(&names).unwrap();
    let a = s.next_construction().unwrap();
    let b = s.next_construction().unwrap();
    s.constructed(b.0, None);
    assert_eq!(s.next_construction(), None);
    s.constructed(a.0, Some(1));
    assert_eq!(
        s.finish(),
        Err(StartupError::ConstructionFailed { index: 1, kind: PluginKind::Url })
    );
}

#[test]
fn plugin_names_resolve_exactly() {
    assert_eq!(plugin_kind("echo"), Some(PluginKind::Echo));
    assert_eq!(plugin_kind("republican_calendar"), Some(PluginKind::RepublicanCalendar));
    assert_eq!(plugin_kind("Echo"), None);
    assert_eq!(plugin_kind(""), None);
    assert_eq!(
        resolve_plugins(&strings(&["url", "twitch"])),
        Ok(vec![PluginKind::Url, PluginKind::Twitch])
    );
    assert_eq!(resolve_plugins(&vec![]), Ok(vec![]));
}

#[test]
fn outbound_skips_origin_and_sends_after_all_observers() {
    let plugins = vec![entry("a", false), entry("b", false), entry("c", false)];
    assert_eq!(observers(&plugins, "b"), vec![0, 2]);
    assert_eq!(observers(&plugins, "zz"), vec![0, 1, 2]);
    let mut round = OutboundRound::new(&plugins, "b");
    let first = round.next_observer().unwrap();
    let second = round.next_observer().unwrap();
    assert_eq!((first.1, second.1), (0, 2));
    assert_eq!(round.next_observer(), None);
    round.observed(second.0, true);
    assert!(!round.ready_to_send());
    round.observed(first.0, true);
    assert!(round.ready_to_send());
    round.mark_sent();
    assert!(!round.ready_to_send());
}

#[test]
fn outbound_observer_failure_prevents_send() {
    let plugins = vec![entry("a", false), entry("b", false), entry("c", false)];
    let mut round = OutboundRound::new(&plugins, "a");
    let first = round.next_observer().unwrap();
    let second = round.next_observer().unwrap();
    round.observed(first.0, false);
    assert!(!round.aborted());
    round.observed(second.0, true);
    assert!(round.aborted());
    assert!(!round.ready_to_send());
}

#[test]
fn outbound_observation_never_exceeds_cap() {
    let plugins: Vec<PluginEntry> = (0..8).map(|i| entry(&format!("p{i}"), false)).collect();
    let mut round = OutboundRound::new(&plugins, "p0");
    let mut n = 0;
    while round.next_observer().is_some() {
        n += 1;
    }
    assert_eq!(n, 5);
}

#[test]
fn auth_with_long_secret_succeeds() {
    let secret = "s".repeat(2_000_000);
    let steps = auth_plan("nick", &Some(secret)).unwrap();
    assert_eq!(steps.len(), 4);
    match &steps[2] {
        AuthStep::Authenticate(p) => assert_eq!(p.len(), (2_000_010 + 2) / 3 * 4),
        other => panic!("unexpected {:?}", other),
    }
}

#[test]
fn auth_without_secret_only_identifies() {
    assert_eq!(auth_plan("golem", &None), Ok(vec![AuthStep::Identify]));
}

#[test]
fn auth_with_secret_runs_sasl_plain() {
    let expected = vec![
        AuthStep::RequestSaslCapability,
        AuthStep::BeginSaslPlain,
        AuthStep::Authenticate("bmljawBuaWNrAHNlY3JldA==".to_string()),
        AuthStep::Identify,
    ];
    let secret = Some("secret".to_string());
    assert_eq!(auth_plan("nick", &secret), Ok(expected.clone()));
    assert_eq!(auth_plan("nick", &secret), Ok(expected));
    assert_eq!(sasl_plain_credentials("nick", "secret"), "nick\0nick\0secret");
    assert_eq!(MAX_CREDENTIALS_CHARS, usize::MAX / 8);
}

#[test]
fn run_phases() {
    let mut p = Phase::Constructed;
    p = next_phase(p, RunEvent::AuthSucceeded);
    assert_eq!(p, Phase::Authenticated);
    p = next_phase(p, RunEvent::ActivitiesStarted);
    assert_eq!(p, Phase::Running);
    p = next_phase(p, RunEvent::DispatchFailed);
    assert_eq!(p, Phase::Running);
    assert!(!is_final(p));
    assert_eq!(next_phase(p, RunEvent::InboundEnded), Phase::Fatal);
    assert_eq!(next_phase(p, RunEvent::BackgroundTaskEnded), Phase::Fatal);
    assert_eq!(next_phase(p, RunEvent::ObservationFailed), Phase::Fatal);
    assert_eq!(next_phase(p, RunEvent::AllActivitiesEnded), Phase::Exited);
    assert_eq!(next_phase(Phase::Constructed, RunEvent::AuthFailed), Phase::Fatal);
    assert_eq!(next_phase(Phase::Constructed, RunEvent::ActivitiesStarted), Phase::Fatal);
    assert_eq!(next_phase(Phase::Fatal, RunEvent::AuthSucceeded), Phase::Fatal);
    assert_eq!(next_phase(Phase::Running, RunEvent::AuthSucceeded), Phase::Fatal);
    assert_eq!(next_phase(Phase::Running, RunEvent::ActivitiesStarted), Phase::Fatal);
    assert_eq!(next_phase(Phase::Authenticated, RunEvent::AuthSucceeded), Phase::Fatal);
    assert!(is_final(Phase::Exited));
}
