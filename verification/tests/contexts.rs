use rsbar::battery_context::{
    battery_dir_regex, battery_symlink_path, find_battery_dir, BatteryContext, BatteryStatus,
};
use rsbar::brightness_context::{BrightnessContext, MAX_BRIGHTNESS, MIN_BRIGHTNESS};
use rsbar::context::{
    Action, ContextError, DirectoryEntry, Emission, Probe, Reading,
    RsbarContextContent,
};
use rsbar::hyprland_context::{
    active_workspace_request, event_socket, hyprctl_socket, HyprlandContext, Workspace,
};
use rsbar::rsbar_context::RsbarContext;
use rsbar::time_context::{clock_face, time_format, TimeContext};
use rsbar::volume_context::{read_report, VolumeContext};

fn pairs(list: Vec<Emission>) -> Vec<(String, String)> {
    list.into_iter().map(|e| (e.parameter, e.value)).collect()
}

fn pair(parameter: &str, value: &str) -> (String, String) {
    (parameter.to_string(), value.to_string())
}

fn words(list: &[&str]) -> Vec<String> {
    list.iter().map(|w| w.to_string()).collect()
}

fn entry(name: &str, is_dir: bool) -> DirectoryEntry {
    let contents = if is_dir {
        vec![Some("50\n".to_string()), Some("Full\n".to_string())]
    } else {
        Vec::new()
    };
    DirectoryEntry { name: name.to_string(), is_dir, contents }
}

fn battery(name: &str, capacity: Option<&str>, status: Option<&str>) -> DirectoryEntry {
    DirectoryEntry {
        name: name.to_string(),
        is_dir: true,
        contents: vec![capacity.map(|s| s.to_string()), status.map(|s| s.to_string())],
    }
}

fn text(s: &str) -> Reading {
    Reading::Text(s.to_string())
}

fn file_pair(capacity: &str, status: &str) -> Reading {
    Reading::TextPair(capacity.to_string(), status.to_string())
}

// ---------------------------------------------------------------- volume

#[test]
fn volume_is_registered_as_volume() {
    let (name, context) = VolumeContext::new();
    assert_eq!(name, "volume");
    assert!(matches!(context, RsbarContext::Volume(_)));
}

#[test]
fn a_mixer_report_names_the_level_behind_the_first_space() {
    assert_eq!(read_report("Volume: 0.45\n").map(|d| d.to_text()), Some("0.45".to_string()));
    assert_eq!(read_report("Volume: 1.00\n").map(|d| d.to_text()), Some("1".to_string()));
    assert_eq!(read_report("Volume: 0.40\n").map(|d| d.to_text()), Some("0.4".to_string()));
    assert_eq!(read_report("x 30y").map(|d| d.to_text()), Some("30".to_string()));
    assert_eq!(read_report("Volume: 0.45").map(|d| d.to_text()), Some("0.4".to_string()));
}

#[test]
fn a_report_without_a_level_names_none() {
    assert!(read_report("Volume: 0.45 [MUTED]\n").is_none());
    assert!(read_report("nospace").is_none());
    assert!(read_report("").is_none());
    assert!(read_report("Volume: ").is_none());
    assert!(read_report("Volume: \n").is_none());
    assert!(read_report(" ").is_none());
}

#[test]
fn volume_publishes_level_and_mute() {
    let (_, mut context) = VolumeContext::new();
    assert_eq!(context.force_events(), Err(ContextError::HandlerMissing));
    assert_eq!(context.init(&text("Volume: 0.45\n")), Ok(()));
    assert_eq!(
        context.force_events().map(pairs),
        Ok(vec![pair("volume", "0.45"), pair("isMuted", "false")])
    );
    assert_eq!(
        context.update(&text("Volume: 0.50 [MUTED]\n")).map(pairs),
        Ok(vec![pair("volume", "0.45"), pair("isMuted", "true")])
    );
    assert_eq!(
        context.update(&text("Volume: 0.70\n")).map(pairs),
        Ok(vec![pair("volume", "0.7"), pair("isMuted", "false")])
    );
}

#[test]
fn volume_probes_the_mixer() {
    let (_, context) = VolumeContext::new();
    let expected = Probe::CommandOutput(words(&["wpctl", "get-volume", "@DEFAULT_AUDIO_SINK@"]));
    assert_eq!(context.probe(), expected);
    assert_eq!(context.init_probe(), expected);
}

#[test]
fn volume_refuses_other_readings() {
    let (_, mut context) = VolumeContext::new();
    assert_eq!(context.init(&Reading::Failed), Err(ContextError::ExternalFailure));
    assert_eq!(context.update(&Reading::Failed), Err(ContextError::ExternalFailure));
    assert_eq!(context.update(&Reading::Level(3)), Err(ContextError::BadReading));
    assert_eq!(context.update(&Reading::Nothing), Err(ContextError::BadReading));
    assert_eq!(
        context.force_events().map(pairs),
        Ok(vec![pair("volume", "0"), pair("isMuted", "false")])
    );
}

#[test]
fn update_before_init_takes_the_report_in_and_fails() {
    let (_, mut context) = VolumeContext::new();
    assert_eq!(context.update(&text("Volume: 0.30\n")), Err(ContextError::HandlerMissing));
    assert_eq!(context.init(&text("Volume: x\n")), Ok(()));
    assert_eq!(
        context.force_events().map(pairs),
        Ok(vec![pair("volume", "0.3"), pair("isMuted", "true")])
    );
}

#[test]
fn set_volume_sets_the_level_and_asks_for_the_mixer() {
    let (_, mut context) = VolumeContext::new();
    assert_eq!(context.init(&text("Volume: 0.45\n")), Ok(()));
    assert_eq!(
        context.call("setVolume", "30"),
        Ok(Action::Command(words(&[
                "wpctl",
                "set-volume",
                "@DEFAULT_AUDIO_SINK@",
                "3000%"
            ])))
    );
    assert_eq!(
        context.force_events().map(pairs),
        Ok(vec![pair("volume", "30"), pair("isMuted", "false")])
    );
    assert_eq!(
        context.call("setVolume", "0.455"),
        Ok(Action::Command(words(&[
                "wpctl",
                "set-volume",
                "@DEFAULT_AUDIO_SINK@",
                "45.5%"
            ])))
    );
}

#[test]
fn the_volume_that_was_set_is_the_volume_that_is_published() {
    for (argument, published) in [("30", "30"), ("0", "0"), ("100", "100"), ("12.50", "12.5"), ("007", "7"), ("+3", "3")] {
        let (_, mut context) = VolumeContext::new();
        assert_eq!(context.init(&text("Volume: 0.45\n")), Ok(()));
        assert!(context.call("setVolume", argument).is_ok());
        let list = pairs(context.force_events().unwrap());
        assert_eq!(list[0], pair("volume", published));
    }
}

#[test]
fn set_volume_refuses_what_is_out_of_range_or_no_number() {
    let (_, mut context) = VolumeContext::new();
    assert_eq!(context.init(&text("Volume: 0.45\n")), Ok(()));
    assert_eq!(context.call("setVolume", "101"), Err(ContextError::OutOfRange));
    assert_eq!(context.call("setVolume", "100.5"), Err(ContextError::OutOfRange));
    assert_eq!(context.call("setVolume", "-1"), Err(ContextError::OutOfRange));
    assert_eq!(context.call("setVolume", ""), Err(ContextError::BadArgument));
    assert_eq!(context.call("setVolume", "loud"), Err(ContextError::BadArgument));
    assert_eq!(context.call("setVolume", " 30"), Err(ContextError::BadArgument));
    assert_eq!(context.call("mute", ""), Err(ContextError::BadProcedure));
    assert_eq!(context.call("setvolume", "30"), Err(ContextError::BadProcedure));
    assert_eq!(
        context.force_events().map(pairs),
        Ok(vec![pair("volume", "0.45"), pair("isMuted", "false")])
    );
}

#[test]
fn toggle_mute_twice_restores_the_mute() {
    let (_, mut context) = VolumeContext::new();
    assert_eq!(context.init(&text("Volume: 0.45\n")), Ok(()));
    let toggle = Action::Command(words(&["wpctl", "set-mute", "@DEFAULT_AUDIO_SINK@", "toggle"]));
    let before = pairs(context.force_events().unwrap());
    assert_eq!(context.call("toggleMute", ""), Ok(toggle));
    let between = pairs(context.force_events().unwrap());
    assert_eq!(between, vec![pair("volume", "0.45"), pair("isMuted", "true")]);
    assert!(context.call("toggleMute", "ignored").is_ok());
    let after = pairs(context.force_events().unwrap());
    assert_eq!(before, after);
}

// ------------------------------------------------------------ brightness

#[test]
fn brightness_is_registered_as_brightness() {
    let (name, context) = BrightnessContext::new();
    assert_eq!(name, "brightness");
    assert!(matches!(context, RsbarContext::Brightness(_)));
    assert_eq!(context.probe(), Probe::Backlight);
    assert_eq!(context.init_probe(), Probe::Backlight);
    assert_eq!((MIN_BRIGHTNESS, MAX_BRIGHTNESS), (0, 100));
}

#[test]
fn brightness_bounds() {
    assert_eq!(BrightnessContext::parse_brightness("-1"), Err(ContextError::BadArgument));
    assert_eq!(BrightnessContext::parse_brightness("101"), Err(ContextError::OutOfRange));
    assert_eq!(BrightnessContext::parse_brightness("0"), Ok(0));
    assert_eq!(BrightnessContext::parse_brightness("100"), Ok(100));
    assert_eq!(BrightnessContext::parse_brightness("50"), Ok(50));
    assert_eq!(BrightnessContext::parse_brightness(""), Err(ContextError::BadArgument));
    assert_eq!(BrightnessContext::parse_brightness("5.5"), Err(ContextError::BadArgument));
    assert_eq!(BrightnessContext::parse_brightness("4294967296"), Err(ContextError::BadArgument));
    assert_eq!(BrightnessContext::parse_brightness("4294967295"), Err(ContextError::OutOfRange));
}

#[test]
fn set_brightness_fails_below_zero_and_above_hundred() {
    let (_, mut context) = BrightnessContext::new();
    assert_eq!(context.init(&Reading::Level(40)), Ok(()));
    assert_eq!(context.call("setBrightness", "-1"), Err(ContextError::BadArgument));
    assert_eq!(context.call("setBrightness", "101"), Err(ContextError::OutOfRange));
    assert_eq!(context.force_events().map(pairs), Ok(vec![pair("brightness", "40")]));
    assert_eq!(
        context.call("setBrightness", "0"),
        Ok(Action::SetBacklight(0))
    );
    assert_eq!(context.force_events().map(pairs), Ok(vec![pair("brightness", "0")]));
    assert_eq!(
        context.call("setBrightness", "100"),
        Ok(Action::SetBacklight(100))
    );
    assert_eq!(context.force_events().map(pairs), Ok(vec![pair("brightness", "100")]));
    assert_eq!(context.call("brighter", "1"), Err(ContextError::BadProcedure));
}

#[test]
fn brightness_takes_the_level_of_the_backlight() {
    let (_, mut context) = BrightnessContext::new();
    assert_eq!(context.update(&Reading::Level(70)), Err(ContextError::HandlerMissing));
    assert_eq!(context.init(&Reading::Failed), Err(ContextError::ExternalFailure));
    assert_eq!(context.force_events().map(pairs), Ok(vec![pair("brightness", "70")]));
    assert_eq!(context.update(&Reading::Level(55)).map(pairs), Ok(vec![pair("brightness", "55")]));
    assert_eq!(context.update(&Reading::Failed), Err(ContextError::ExternalFailure));
    assert_eq!(context.update(&text("55")), Err(ContextError::BadReading));
    assert_eq!(context.force_events().map(pairs), Ok(vec![pair("brightness", "55")]));
}

// --------------------------------------------------------------- battery

#[test]
fn the_battery_directory_is_the_last_that_matches() {
    assert_eq!(battery_symlink_path(), "/sys/class/power_supply/");
    assert_eq!(battery_dir_regex(), "^BAT[0-9]+$");
    let entries = vec![entry("AC", true), entry("BAT0", true), entry("hidpp_battery_0", true)];
    assert_eq!(find_battery_dir(&entries), Ok("/sys/class/power_supply/BAT0".to_string()));
    let entries = vec![entry("BAT0", true), entry("BAT1", true), entry("BAT12", false)];
    assert_eq!(find_battery_dir(&entries), Ok("/sys/class/power_supply/BAT1".to_string()));
    let entries = vec![entry("BAT007", true)];
    assert_eq!(find_battery_dir(&entries), Ok("/sys/class/power_supply/BAT007".to_string()));
}

#[test]
fn without_a_battery_directory_there_is_no_battery() {
    assert_eq!(find_battery_dir(&Vec::new()), Err(ContextError::MissingPrerequisite));
    for name in ["BAT", "BATx", "BAT0x", "xBAT0", "bat0", "BAT 0", "BAT0 ", "BAT0\n", "BAT-1", "BAT٣", "AC", ""] {
        assert_eq!(
            find_battery_dir(&vec![entry(name, true)]),
            Err(ContextError::MissingPrerequisite),
            "{:?}",
            name
        );
    }
    assert_eq!(
        find_battery_dir(&vec![entry("BAT0", false)]),
        Err(ContextError::MissingPrerequisite)
    );
}

#[test]
fn battery_status_is_read_and_written() {
    assert_eq!(BatteryStatus::parse("Charging"), Some(BatteryStatus::Charging));
    assert_eq!(BatteryStatus::parse("Discharging"), Some(BatteryStatus::Discharging));
    assert_eq!(BatteryStatus::parse("Full"), Some(BatteryStatus::Full));
    assert_eq!(BatteryStatus::parse("Not charging"), Some(BatteryStatus::NotCharging));
    assert_eq!(BatteryStatus::parse("Unknown"), Some(BatteryStatus::Unknown));
    assert_eq!(BatteryStatus::parse("NotCharging"), None);
    assert_eq!(BatteryStatus::parse("charging"), None);
    assert_eq!(BatteryStatus::parse(""), None);
    assert_eq!(BatteryStatus::Charging.to_string(), "Charging");
    assert_eq!(BatteryStatus::Discharging.to_string(), "Discharging");
    assert_eq!(BatteryStatus::Full.to_string(), "Full");
    assert_eq!(BatteryStatus::NotCharging.to_string(), "NotCharging");
    assert_eq!(BatteryStatus::Unknown.to_string(), "Unknown");
}

#[test]
fn battery_finds_its_directory_on_init() {
    let (name, mut context) = BatteryContext::new();
    assert_eq!(name, "battery");
    assert_eq!(
        context.init_probe(),
        Probe::Directory("/sys/class/power_supply/".to_string(), words(&["capacity", "status"]))
    );
    assert_eq!(context.probe(), Probe::Nothing);
    assert_eq!(
        context.init(&Reading::Entries(vec![
            entry("AC", true),
            battery("BAT0", Some("50\n"), Some("Full\n")),
        ])),
        Ok(())
    );
    assert_eq!(
        context.probe(),
        Probe::FilePair(
            "/sys/class/power_supply/BAT0/capacity".to_string(),
            "/sys/class/power_supply/BAT0/status".to_string()
        )
    );
    assert_eq!(
        context.force_events().map(pairs),
        Ok(vec![pair("capacity", "50"), pair("status", "Full")])
    );
}

#[test]
fn battery_takes_a_first_reading_on_init() {
    let (_, mut context) = BatteryContext::new();
    assert_eq!(
        context.init(&Reading::Entries(vec![battery(
            "BAT1",
            Some(" 87\n"),
            Some("Not charging\n")
        )])),
        Ok(())
    );
    assert_eq!(
        context.force_events().map(pairs),
        Ok(vec![pair("capacity", "87"), pair("status", "NotCharging")])
    );
}

#[test]
fn battery_init_fails_if_a_file_cannot_be_read() {
    for (capacity, status) in [(None, Some("Full")), (Some("50"), None), (None, None)] {
        let (_, mut context) = BatteryContext::new();
        assert_eq!(
            context.init(&Reading::Entries(vec![battery("BAT0", capacity, status)])),
            Err(ContextError::ExternalFailure)
        );
        assert_eq!(context.probe(), Probe::Nothing);
        assert_eq!(
            context.update(&file_pair("87\n", "Full\n")),
            Err(ContextError::MissingPrerequisite)
        );
        assert_eq!(
            context.force_events().map(pairs),
            Ok(vec![pair("capacity", "0"), pair("status", "Full")])
        );
    }
    let (_, mut context) = BatteryContext::new();
    let short = DirectoryEntry {
        name: "BAT0".to_string(),
        is_dir: true,
        contents: vec![Some("50".to_string())],
    };
    assert_eq!(context.init(&Reading::Entries(vec![short])), Err(ContextError::ExternalFailure));
}

#[test]
fn battery_init_fails_on_a_first_reading_that_cannot_be_read() {
    let (_, mut context) = BatteryContext::new();
    assert_eq!(
        context.init(&Reading::Entries(vec![battery("BAT0", Some("full"), Some("Full"))])),
        Err(ContextError::BadReading)
    );
    assert_eq!(
        context.force_events().map(pairs),
        Ok(vec![pair("capacity", "0"), pair("status", "Full")])
    );
    // The files were there: later updates read them.
    assert_eq!(
        context.probe(),
        Probe::FilePair(
            "/sys/class/power_supply/BAT0/capacity".to_string(),
            "/sys/class/power_supply/BAT0/status".to_string()
        )
    );
    let (_, mut context) = BatteryContext::new();
    assert_eq!(
        context.init(&Reading::Entries(vec![battery("BAT0", Some("12"), Some("Dead"))])),
        Err(ContextError::BadReading)
    );
    assert_eq!(
        context.force_events().map(pairs),
        Ok(vec![pair("capacity", "12"), pair("status", "Full")])
    );
    assert_eq!(
        context.update(&file_pair("13", "Charging")).map(pairs),
        Ok(vec![pair("capacity", "13"), pair("status", "Charging")])
    );
}

#[test]
fn battery_init_fails_without_a_battery() {
    let (_, mut context) = BatteryContext::new();
    assert_eq!(
        context.init(&Reading::Entries(vec![entry("AC", true)])),
        Err(ContextError::MissingPrerequisite)
    );
    assert_eq!(context.probe(), Probe::Nothing);
    assert_eq!(context.update(&file_pair("87\n", "Full\n")), Err(ContextError::MissingPrerequisite));
    let (_, mut context) = BatteryContext::new();
    assert_eq!(context.init(&Reading::Failed), Err(ContextError::ExternalFailure));
    let (_, mut context) = BatteryContext::new();
    assert_eq!(context.init(&Reading::Nothing), Err(ContextError::BadReading));
}

#[test]
fn battery_reads_its_two_files() {
    let (_, mut context) = BatteryContext::new();
    assert_eq!(context.init(&Reading::Entries(vec![entry("BAT1", true)])), Ok(()));
    assert_eq!(
        context.update(&file_pair("87\n", "Discharging\n")).map(pairs),
        Ok(vec![pair("capacity", "87"), pair("status", "Discharging")])
    );
    assert_eq!(
        context.update(&file_pair(" 100 ", "Not charging")).map(pairs),
        Ok(vec![pair("capacity", "100"), pair("status", "NotCharging")])
    );
    assert_eq!(context.update(&file_pair("full", "Full")), Err(ContextError::BadReading));
    assert_eq!(
        context.force_events().map(pairs),
        Ok(vec![pair("capacity", "100"), pair("status", "NotCharging")])
    );
    assert_eq!(context.update(&file_pair("12", "Dead")), Err(ContextError::BadReading));
    assert_eq!(
        context.force_events().map(pairs),
        Ok(vec![pair("capacity", "12"), pair("status", "NotCharging")])
    );
    assert_eq!(context.update(&Reading::Failed), Err(ContextError::ExternalFailure));
    assert_eq!(context.update(&Reading::Nothing), Err(ContextError::BadReading));
}

#[test]
fn battery_accepts_no_calls() {
    let (_, mut context) = BatteryContext::new();
    assert_eq!(context.call("anything", ""), Err(ContextError::Unsupported));
}

// ------------------------------------------------------------------ time

#[test]
fn the_clock_face_has_two_lines_of_two_digits() {
    assert_eq!(clock_face(9, 5), Some("09\n05".to_string()));
    assert_eq!(clock_face(0, 0), Some("00\n00".to_string()));
    assert_eq!(clock_face(23, 59), Some("23\n59".to_string()));
    assert_eq!(clock_face(12, 30), Some("12\n30".to_string()));
    assert_eq!(clock_face(24, 0), None);
    assert_eq!(clock_face(0, 60), None);
}

#[test]
fn the_time_format_is_hour_line_feed_minute() {
    assert_eq!(time_format(), "%H\n%M");
}

#[test]
fn time_publishes_the_clock_face() {
    let (name, mut context) = TimeContext::new(0, 0);
    assert_eq!(name, "time");
    assert_eq!(context.probe(), Probe::Clock);
    assert_eq!(context.init_probe(), Probe::Clock);
    assert_eq!(context.update(&Reading::Clock(7, 8)), Err(ContextError::HandlerMissing));
    assert_eq!(context.init(&Reading::Clock(9, 5)), Ok(()));
    assert_eq!(context.force_events().map(pairs), Ok(vec![pair("time", "09\n05")]));
    assert_eq!(
        context.update(&Reading::Clock(23, 59)).map(pairs),
        Ok(vec![pair("time", "23\n59")])
    );
    assert_eq!(context.update(&Reading::Clock(24, 0)), Err(ContextError::BadReading));
    assert_eq!(context.update(&Reading::Failed), Err(ContextError::ExternalFailure));
    assert_eq!(context.update(&Reading::Nothing), Err(ContextError::BadReading));
    assert_eq!(context.force_events().map(pairs), Ok(vec![pair("time", "23\n59")]));
    assert_eq!(context.call("setTime", "1"), Err(ContextError::Unsupported));
}

#[test]
fn a_new_time_context_holds_the_time_it_was_given() {
    let (_, mut context) = TimeContext::new(0, 0);
    assert_eq!(context.init(&Reading::Nothing), Err(ContextError::BadReading));
    assert_eq!(context.force_events().map(pairs), Ok(vec![pair("time", "00\n00")]));
    let (_, mut context) = TimeContext::new(23, 59);
    assert_eq!(context.init(&Reading::Failed), Err(ContextError::ExternalFailure));
    assert_eq!(context.force_events().map(pairs), Ok(vec![pair("time", "23\n59")]));
    let (_, mut context) = TimeContext::new(7, 30);
    assert_eq!(context.init(&Reading::Clock(24, 0)), Err(ContextError::BadReading));
    assert_eq!(context.force_events().map(pairs), Ok(vec![pair("time", "07\n30")]));
}

// -------------------------------------------------------------- hyprland

#[test]
fn socket_paths_lie_below_the_runtime_directory() {
    assert_eq!(hyprctl_socket("/run/user/1000", "abc_1"), "/run/user/1000/hypr/abc_1/.socket.sock");
    assert_eq!(event_socket("/run/user/1000", "abc_1"), "/run/user/1000/hypr/abc_1/.socket2.sock");
    assert_eq!(active_workspace_request(), "j/activeworkspace");
}

#[test]
fn a_workspace_has_a_number() {
    let workspace = Workspace {
        id: 3,
        name: "3".to_string(),
        monitor: "eDP-1".to_string(),
        monitor_id: 0,
        windows: 2,
        fullscreen: false,
        last_window: "0x1".to_string(),
        last_window_title: "zsh".to_string(),
    };
    assert_eq!(workspace.number(), 3);
}

#[test]
fn hyprland_publishes_what_the_listener_reports() {
    let (name, mut context) = HyprlandContext::new();
    assert_eq!(name, "hyprland");
    assert_eq!(context.probe(), Probe::Nothing);
    assert_eq!(context.init_probe(), Probe::Nothing);
    assert_eq!(context.update(&Reading::Workspace(2)), Err(ContextError::HandlerMissing));
    assert_eq!(context.init(&Reading::Nothing), Ok(()));
    assert_eq!(context.force_events().map(pairs), Ok(vec![pair("workspace", "2")]));
    assert_eq!(context.update(&Reading::Nothing).map(pairs), Ok(Vec::new()));
    assert_eq!(
        context.update(&Reading::Workspace(3)).map(pairs),
        Ok(vec![pair("workspace", "3")])
    );
    assert_eq!(context.update(&Reading::Failed), Err(ContextError::BadReading));
    assert_eq!(context.force_events().map(pairs), Ok(vec![pair("workspace", "3")]));
}

#[test]
fn the_workspace_is_minus_one_before_the_first_report() {
    let (_, mut context) = HyprlandContext::new();
    assert_eq!(context.init(&Reading::Failed), Ok(()));
    assert_eq!(context.force_events().map(pairs), Ok(vec![pair("workspace", "-1")]));
}

#[test]
fn set_workspace_asks_the_window_manager() {
    let (_, mut context) = HyprlandContext::new();
    assert_eq!(
        context.call("setWorkspace", "3"),
        Ok(Action::ControlRequest("dispatch workspace 3".to_string()))
    );
    assert_eq!(
        context.call("setWorkspace", ""),
        Ok(Action::ControlRequest("dispatch workspace ".to_string()))
    );
    assert_eq!(context.call("workspace", "3"), Err(ContextError::BadProcedure));
}
