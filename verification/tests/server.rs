use rsbar::battery_context::BatteryContext;
use rsbar::brightness_context::BrightnessContext;
use rsbar::codec::{decode_payload, FrameBuffer};
use rsbar::context::{
    Action, ContextError, DirectoryEntry, Emission, Probe, Reading, RsbarContextContent,
};
use rsbar::hyprland_context::HyprlandContext;
use rsbar::hyprland_listener::{ListenerAction, ListenerEvent, ListenerState};
use rsbar::rsbar_context::RsbarContext;
use rsbar::server_context::{PendingCall, ServerContext, ServerError};
use rsbar::time_context::TimeContext;
use rsbar::volume_context::VolumeContext;

type Server = ServerContext<RsbarContext>;

fn daemon() -> Server {
    let mut server = ServerContext::new();
    server.add_context(VolumeContext::new());
    server.add_context(BrightnessContext::new());
    server.add_context(HyprlandContext::new());
    server.add_context(TimeContext::new(0, 0));
    server.add_context(BatteryContext::new());
    server
}

fn power_supply(name: &str, capacity: &str, status: &str) -> DirectoryEntry {
    DirectoryEntry {
        name: name.to_string(),
        is_dir: true,
        contents: vec![Some(capacity.to_string()), Some(status.to_string())],
    }
}

fn first_readings() -> Vec<Reading> {
    vec![
        Reading::Text("Volume: 0.45\n".to_string()),
        Reading::Level(40),
        Reading::Nothing,
        Reading::Clock(9, 5),
        Reading::Entries(vec![
            DirectoryEntry { name: "AC".to_string(), is_dir: true, contents: vec![None, None] },
            power_supply("BAT0", "86\n", "Discharging\n"),
        ]),
    ]
}

fn readings() -> Vec<Reading> {
    vec![
        Reading::Text("Volume: 0.45\n".to_string()),
        Reading::Level(40),
        Reading::Nothing,
        Reading::Clock(9, 6),
        Reading::TextPair("87\n".to_string(), "Discharging\n".to_string()),
    ]
}

fn running() -> Server {
    let mut server = daemon();
    assert_eq!(server.init(&first_readings()), Ok(()));
    assert_eq!(server.update(&readings()), Ok(()));
    server
}

fn drain(server: &mut Server, sink: usize) -> Vec<String> {
    let mut frames = Vec::new();
    while let Some(frame) = server.next_frame(sink) {
        frames.push(frame);
    }
    frames
}

fn call(server: &mut Server, request: &str) -> Result<Action, ServerError> {
    let pending = server.new_call(request)?;
    server.complete_call(&pending, true)?;
    Ok(pending.action)
}

fn words(list: &[&str]) -> Vec<String> {
    list.iter().map(|w| w.to_string()).collect()
}

// ------------------------------------------------------------ end to end

#[test]
fn subscribe_then_snapshot() {
    let mut server = running();
    let sink = server.open_sink();
    assert_eq!(server.new_event_client("battery/capacity", sink), Ok(()));
    assert_eq!(server.next_frame(sink), Some("battery/capacity/87".to_string()));
    assert_eq!(server.next_frame(sink), None);
}

#[test]
fn set_and_observe() {
    let mut server = running();
    let sink = server.open_sink();
    assert_eq!(server.new_event_client("volume/volume", sink), Ok(()));
    assert_eq!(drain(&mut server, sink), vec!["volume/volume/0.45"]);
    assert_eq!(
        call(&mut server, "volume/setVolume/30"),
        Ok(Action::Command(words(&["wpctl", "set-volume", "@DEFAULT_AUDIO_SINK@", "3000%"])))
    );
    assert_eq!(drain(&mut server, sink), vec!["volume/volume/30"]);
}

#[test]
fn toggle_round_trip() {
    let mut server = running();
    let sink = server.open_sink();
    assert_eq!(server.new_event_client("volume/isMuted", sink), Ok(()));
    assert!(call(&mut server, "volume/toggleMute/").is_ok());
    assert!(call(&mut server, "volume/toggleMute/").is_ok());
    let frames = drain(&mut server, sink);
    assert_eq!(
        frames,
        vec!["volume/isMuted/false", "volume/isMuted/true", "volume/isMuted/false"]
    );
    assert_eq!(frames.first(), frames.last());
}

#[test]
fn workspace_switch() {
    let mut server = running();
    let sink = server.open_sink();
    assert_eq!(server.new_event_client("hyprland/workspace", sink), Ok(()));
    assert_eq!(drain(&mut server, sink), vec!["hyprland/workspace/-1"]);
    assert_eq!(
        call(&mut server, "hyprland/setWorkspace/3"),
        Ok(Action::ControlRequest("dispatch workspace 3".to_string()))
    );
    assert_eq!(drain(&mut server, sink), vec!["hyprland/workspace/-1"]);
    let mut listener = ListenerState::Streaming;
    assert_eq!(
        listener.step(&ListenerEvent::Chunk(b"workspace>>3\n".to_vec())),
        ListenerAction::Query
    );
    match listener.step(&ListenerEvent::WorkspaceKnown(3)) {
        ListenerAction::Publish(id) => {
            assert_eq!(server.refresh("hyprland", &Reading::Workspace(id)), Ok(true));
        },
        other => panic!("{:?}", other),
    }
    assert_eq!(drain(&mut server, sink), vec!["hyprland/workspace/3"]);
}

#[test]
fn bad_call_tolerated() {
    let mut server = running();
    assert_eq!(call(&mut server, "nope/nope/nope"), Err(ServerError::UnknownContext));
    assert_eq!(
        call(&mut server, "volume/setVolume/50"),
        Ok(Action::Command(words(&["wpctl", "set-volume", "@DEFAULT_AUDIO_SINK@", "5000%"])))
    );
}

#[test]
fn framing() {
    let mut server = running();
    let sink = server.open_sink();
    assert_eq!(server.new_event_client("volume/volume", sink), Ok(()));
    assert_eq!(drain(&mut server, sink), vec!["volume/volume/0.45"]);
    let mut buffer = FrameBuffer::new();
    buffer.extend(b"volume/setVolume/10\0volume/setVolume/20\0");
    let mut handled = Vec::new();
    while let Some(payload) = buffer.next_frame() {
        let request = decode_payload(payload).unwrap();
        assert!(call(&mut server, &request).is_ok());
        handled.push(request);
    }
    assert_eq!(handled, vec!["volume/setVolume/10", "volume/setVolume/20"]);
    assert_eq!(drain(&mut server, sink), vec!["volume/volume/10", "volume/volume/20"]);
}

// -------------------------------------------------------------- registry

#[test]
fn a_new_registry_is_empty() {
    let mut server: Server = ServerContext::new();
    assert_eq!(server.context_count(), 0);
    assert_eq!(server.find("volume"), None);
    assert_eq!(server.init(&Vec::new()), Ok(()));
    assert_eq!(server.update(&Vec::new()), Ok(()));
    assert!(server.probes().is_empty());
    assert!(server.init_probes().is_empty());
    assert_eq!(server.new_call("volume/setVolume/1"), Err(ServerError::UnknownContext));
}

#[test]
fn contexts_are_found_by_name_in_the_order_of_registration() {
    let server = daemon();
    assert_eq!(server.context_count(), 5);
    assert_eq!(server.find("volume"), Some(0));
    assert_eq!(server.find("brightness"), Some(1));
    assert_eq!(server.find("hyprland"), Some(2));
    assert_eq!(server.find("time"), Some(3));
    assert_eq!(server.find("battery"), Some(4));
    assert_eq!(server.find("Volume"), None);
    assert_eq!(server.find(""), None);
}

#[test]
fn a_duplicate_name_replaces_the_context_in_its_place() {
    let mut server = daemon();
    let (_, replacement) = BrightnessContext::new();
    server.add_context(("volume".to_string(), replacement));
    assert_eq!(server.context_count(), 5);
    assert_eq!(server.find("volume"), Some(0));
    assert_eq!(server.probes()[0], Probe::Backlight);
    assert_eq!(server.probes()[1], Probe::Backlight);
}

#[test]
fn every_context_says_what_it_needs_read() {
    let mut server = daemon();
    assert_eq!(
        server.init_probes(),
        vec![
            Probe::CommandOutput(words(&["wpctl", "get-volume", "@DEFAULT_AUDIO_SINK@"])),
            Probe::Backlight,
            Probe::Nothing,
            Probe::Clock,
            Probe::Directory(
                "/sys/class/power_supply/".to_string(),
                words(&["capacity", "status"])
            ),
        ]
    );
    assert_eq!(server.init(&first_readings()), Ok(()));
    assert_eq!(
        server.probes(),
        vec![
            Probe::CommandOutput(words(&["wpctl", "get-volume", "@DEFAULT_AUDIO_SINK@"])),
            Probe::Backlight,
            Probe::Nothing,
            Probe::Clock,
            Probe::FilePair(
                "/sys/class/power_supply/BAT0/capacity".to_string(),
                "/sys/class/power_supply/BAT0/status".to_string()
            ),
        ]
    );
}

#[test]
fn init_wants_one_reading_for_each_context() {
    let mut server = daemon();
    assert_eq!(server.init(&Vec::new()), Err(ServerError::ReadingsMismatch));
    assert_eq!(server.update(&vec![Reading::Nothing]), Err(ServerError::ReadingsMismatch));
    let sink = server.open_sink();
    assert_eq!(server.new_event_client("volume/volume", sink), Ok(()));
    assert_eq!(server.pending(sink), 0);
}

#[test]
fn init_stops_at_the_first_failure() {
    let mut server = daemon();
    let mut first = first_readings();
    first[1] = Reading::Failed;
    assert_eq!(
        server.init(&first),
        Err(ServerError::Context(ContextError::ExternalFailure))
    );
    let sink = server.open_sink();
    assert_eq!(server.new_event_client("volume/volume", sink), Ok(()));
    assert_eq!(drain(&mut server, sink), vec!["volume/volume/0.45"]);
    assert_eq!(server.new_event_client("brightness/brightness", sink), Ok(()));
    assert_eq!(drain(&mut server, sink), vec!["brightness/brightness/0"]);
    assert_eq!(server.new_event_client("time/time", sink), Ok(()));
    assert_eq!(drain(&mut server, sink), Vec::<String>::new());
}

#[test]
fn a_missing_battery_fails_init() {
    let mut server = daemon();
    let mut first = first_readings();
    first[4] = Reading::Entries(vec![DirectoryEntry {
        name: "AC".to_string(),
        is_dir: true,
        contents: vec![None, None],
    }]);
    assert_eq!(
        server.init(&first),
        Err(ServerError::Context(ContextError::MissingPrerequisite))
    );
}

#[test]
fn a_battery_without_its_files_fails_init() {
    let mut server = daemon();
    let mut first = first_readings();
    first[4] = Reading::Entries(vec![DirectoryEntry {
        name: "BAT0".to_string(),
        is_dir: true,
        contents: vec![Some("86\n".to_string()), None],
    }]);
    assert_eq!(server.init(&first), Err(ServerError::Context(ContextError::ExternalFailure)));
    assert_eq!(server.probes()[4], Probe::Nothing);
}

#[test]
fn init_takes_the_first_reading_of_the_battery() {
    let mut server = daemon();
    assert_eq!(server.init(&first_readings()), Ok(()));
    let sink = server.open_sink();
    assert_eq!(server.new_event_client("battery/status", sink), Ok(()));
    assert_eq!(
        drain(&mut server, sink),
        vec!["battery/status/Discharging"]
    );
    assert_eq!(server.new_event_client("battery/capacity", sink), Ok(()));
    assert_eq!(
        drain(&mut server, sink),
        vec!["battery/capacity/86", "battery/status/Discharging"]
    );
}

#[test]
fn update_publishes_every_context_in_order() {
    let mut server = daemon();
    assert_eq!(server.init(&first_readings()), Ok(()));
    let sink = server.open_sink();
    for topic in ["battery/status", "time/time", "volume/isMuted", "volume/volume", "brightness/brightness", "hyprland/workspace", "battery/capacity"] {
        assert_eq!(server.new_event_client(topic, sink), Ok(()));
    }
    drain(&mut server, sink);
    assert_eq!(server.update(&readings()), Ok(()));
    assert_eq!(
        drain(&mut server, sink),
        vec![
            "volume/volume/0.45",
            "volume/isMuted/false",
            "brightness/brightness/40",
            "time/time/09\n06",
            "battery/capacity/87",
            "battery/status/Discharging",
        ]
    );
}

#[test]
fn update_stops_at_the_first_failure() {
    let mut server = daemon();
    assert_eq!(server.init(&first_readings()), Ok(()));
    let sink = server.open_sink();
    for topic in ["volume/volume", "brightness/brightness", "time/time"] {
        assert_eq!(server.new_event_client(topic, sink), Ok(()));
    }
    drain(&mut server, sink);
    let mut next = readings();
    next[0] = Reading::Text("Volume: 0.60\n".to_string());
    next[1] = Reading::Failed;
    next[3] = Reading::Clock(10, 0);
    assert_eq!(server.update(&next), Err(ServerError::Context(ContextError::ExternalFailure)));
    assert_eq!(drain(&mut server, sink), vec!["volume/volume/0.6"]);
    assert_eq!(server.update(&readings()), Ok(()));
    assert_eq!(
        drain(&mut server, sink),
        vec!["volume/volume/0.45", "brightness/brightness/40", "time/time/09\n06"]
    );
}

#[test]
fn one_context_can_be_updated_on_its_own() {
    let mut server = running();
    let sink = server.open_sink();
    assert_eq!(server.new_event_client("brightness/brightness", sink), Ok(()));
    drain(&mut server, sink);
    assert_eq!(server.update_context(1, &Reading::Level(77)), Ok(true));
    assert_eq!(drain(&mut server, sink), vec!["brightness/brightness/77"]);
    assert_eq!(server.update_context(2, &Reading::Nothing), Ok(false));
    assert_eq!(
        server.update_context(1, &Reading::Failed),
        Err(ServerError::Context(ContextError::ExternalFailure))
    );
    assert_eq!(server.update_context(5, &Reading::Nothing), Err(ServerError::UnknownContext));
    assert_eq!(server.refresh("brightness", &Reading::Level(78)), Ok(true));
    assert_eq!(server.refresh("backlight", &Reading::Level(78)), Err(ServerError::UnknownContext));
    assert_eq!(drain(&mut server, sink), vec!["brightness/brightness/78"]);
}

#[test]
fn what_a_context_hands_out_is_published_under_its_name() {
    let mut server = running();
    let sink = server.open_sink();
    assert_eq!(server.new_event_client("time/mood", sink), Ok(()));
    assert_eq!(server.new_event_client("volume/mood", sink), Ok(()));
    drain(&mut server, sink);
    let list = vec![
        Emission { parameter: "mood".to_string(), value: "fine".to_string() },
        Emission { parameter: "time".to_string(), value: "late".to_string() },
    ];
    server.publish_list(3, &list);
    assert_eq!(drain(&mut server, sink), vec!["time/mood/fine"]);
    server.publish_list(9, &list);
    assert_eq!(drain(&mut server, sink), Vec::<String>::new());
}

// ----------------------------------------------------------------- calls

#[test]
fn a_call_is_routed_to_the_context_it_names() {
    let mut server = running();
    assert_eq!(
        server.new_call("brightness/setBrightness/55"),
        Ok(PendingCall { context: 1, action: Action::SetBacklight(55) })
    );
    assert_eq!(
        server.new_call("  hyprland/setWorkspace/4\n"),
        Ok(PendingCall {
            context: 2,
            action: Action::ControlRequest("dispatch workspace 4".to_string()),
        })
    );
}

#[test]
fn bad_calls_are_refused() {
    let mut server = running();
    assert_eq!(server.new_call("volume"), Err(ServerError::Malformed));
    assert_eq!(server.new_call("volume/setVolume"), Err(ServerError::Malformed));
    assert_eq!(server.new_call("volume/setVolume/1/2"), Err(ServerError::Malformed));
    assert_eq!(server.new_call(""), Err(ServerError::Malformed));
    assert_eq!(server.new_call("nope/nope/nope"), Err(ServerError::UnknownContext));
    assert_eq!(server.new_call("/setVolume/1"), Err(ServerError::UnknownContext));
    assert_eq!(
        server.new_call("volume/louder/1"),
        Err(ServerError::Context(ContextError::BadProcedure))
    );
    assert_eq!(
        server.new_call("volume/setVolume/loud"),
        Err(ServerError::Context(ContextError::BadArgument))
    );
    assert_eq!(
        server.new_call("volume/setVolume/101"),
        Err(ServerError::Context(ContextError::OutOfRange))
    );
    assert_eq!(
        server.new_call("brightness/setBrightness/-1"),
        Err(ServerError::Context(ContextError::BadArgument))
    );
    assert_eq!(
        server.new_call("brightness/setBrightness/101"),
        Err(ServerError::Context(ContextError::OutOfRange))
    );
    assert_eq!(
        server.new_call("battery/anything/"),
        Err(ServerError::Context(ContextError::Unsupported))
    );
    assert_eq!(
        server.new_call("time/anything/"),
        Err(ServerError::Context(ContextError::Unsupported))
    );
}

#[test]
fn brightness_call_bounds() {
    let mut server = running();
    assert!(call(&mut server, "brightness/setBrightness/-1").is_err());
    assert!(call(&mut server, "brightness/setBrightness/101").is_err());
    assert_eq!(call(&mut server, "brightness/setBrightness/0"), Ok(Action::SetBacklight(0)));
    assert_eq!(call(&mut server, "brightness/setBrightness/100"), Ok(Action::SetBacklight(100)));
}

#[test]
fn a_failed_action_publishes_nothing() {
    let mut server = running();
    let sink = server.open_sink();
    assert_eq!(server.new_event_client("brightness/brightness", sink), Ok(()));
    drain(&mut server, sink);
    let pending = server.new_call("brightness/setBrightness/55").unwrap();
    assert_eq!(server.complete_call(&pending, false), Err(ServerError::ExternalFailure));
    assert_eq!(drain(&mut server, sink), Vec::<String>::new());
    assert_eq!(server.complete_call(&pending, true), Ok(()));
    assert_eq!(drain(&mut server, sink), vec!["brightness/brightness/55"]);
}

#[test]
fn a_call_that_names_no_context_cannot_be_completed() {
    let mut server = running();
    let pending = PendingCall { context: 9, action: Action::Nothing };
    assert_eq!(server.complete_call(&pending, true), Err(ServerError::UnknownContext));
}

#[test]
fn a_call_before_init_cannot_publish() {
    let mut server = daemon();
    let pending = server.new_call("brightness/setBrightness/55").unwrap();
    assert_eq!(
        server.complete_call(&pending, true),
        Err(ServerError::Context(ContextError::HandlerMissing))
    );
}

// --------------------------------------------------------- subscriptions

#[test]
fn bad_subscriptions_are_refused() {
    let mut server = running();
    let sink = server.open_sink();
    assert_eq!(server.new_event_client("volume", sink), Err(ServerError::Malformed));
    assert_eq!(server.new_event_client("volume/volume/extra", sink), Err(ServerError::Malformed));
    assert_eq!(server.new_event_client("", sink), Err(ServerError::Malformed));
    assert_eq!(server.new_event_client("nope/volume", sink), Err(ServerError::UnknownContext));
    assert_eq!(server.new_event_client("volume/volume", sink + 1), Err(ServerError::UnknownSink));
    assert_eq!(server.update(&readings()), Ok(()));
    assert_eq!(server.pending(sink), 0);
}

#[test]
fn a_new_subscription_shows_the_values_to_all_subscribers_again() {
    let mut server = running();
    let old = server.open_sink();
    let new = server.open_sink();
    assert_eq!(server.new_event_client("volume/volume", old), Ok(()));
    assert_eq!(drain(&mut server, old), vec!["volume/volume/0.45"]);
    assert_eq!(server.new_event_client("volume/volume", new), Ok(()));
    assert_eq!(drain(&mut server, old), vec!["volume/volume/0.45"]);
    assert_eq!(drain(&mut server, new), vec!["volume/volume/0.45"]);
}

#[test]
fn the_subscription_is_kept_as_it_was_written() {
    let mut server = running();
    let sink = server.open_sink();
    assert_eq!(server.new_event_client(" volume/volume ", sink), Ok(()));
    assert_eq!(server.update(&readings()), Ok(()));
    assert_eq!(server.pending(sink), 0);
}

#[test]
fn a_subscription_to_a_parameter_that_nobody_owns_stays_silent() {
    let mut server = running();
    let sink = server.open_sink();
    assert_eq!(server.new_event_client("volume/balance", sink), Ok(()));
    assert_eq!(server.update(&readings()), Ok(()));
    assert_eq!(server.pending(sink), 0);
}

#[test]
fn a_closed_connection_receives_nothing_more() {
    let mut server = running();
    let sink = server.open_sink();
    let other = server.open_sink();
    assert_eq!(server.new_event_client("time/time", sink), Ok(()));
    assert_eq!(server.new_event_client("time/time", other), Ok(()));
    server.close_sink(sink);
    assert_eq!(server.update(&readings()), Ok(()));
    assert_eq!(server.pending(sink), 0);
    assert_eq!(server.next_frame(sink), None);
    assert_eq!(
        drain(&mut server, other),
        vec!["time/time/09\n06", "time/time/09\n06"]
    );
}

#[test]
fn every_frame_begins_with_the_name_of_a_registered_context_and_one_of_its_parameters() {
    let mut server = running();
    let sink = server.open_sink();
    let owned = [
        "volume/volume/",
        "volume/isMuted/",
        "brightness/brightness/",
        "hyprland/workspace/",
        "time/time/",
        "battery/capacity/",
        "battery/status/",
    ];
    for topic in ["volume/volume", "volume/isMuted", "brightness/brightness", "hyprland/workspace", "time/time", "battery/capacity", "battery/status", "volume/workspace", "time/volume"] {
        assert_eq!(server.new_event_client(topic, sink), Ok(()));
        for frame in drain(&mut server, sink) {
            assert!(owned.iter().any(|prefix| frame.starts_with(prefix)), "{}", frame);
        }
    }
    assert_eq!(server.update(&readings()), Ok(()));
    assert!(call(&mut server, "volume/toggleMute/").is_ok());
    assert_eq!(server.refresh("hyprland", &Reading::Workspace(4)), Ok(true));
    let frames = drain(&mut server, sink);
    assert!(!frames.is_empty());
    for frame in frames {
        assert!(owned.iter().any(|prefix| frame.starts_with(prefix)), "{}", frame);
    }
}

#[test]
fn a_context_can_be_used_through_the_trait() {
    fn snapshot_of<C: RsbarContextContent>(context: &C) -> Vec<String> {
        context.force_events().unwrap().into_iter().map(|e| e.value).collect()
    }
    let (_, mut context) = BrightnessContext::new();
    assert_eq!(context.init(&Reading::Level(5)), Ok(()));
    assert_eq!(snapshot_of(&context), vec!["5"]);
}
