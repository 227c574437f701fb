use firefly_runtime::battery::{battery_bar, charging, Battery, BatteryStatus};
use firefly_runtime::config::{FullID, FullIDError, IdValidationError};
use firefly_runtime::error::{HostError, LinkingError, RuntimeStats};
use firefly_runtime::pacing::FramePacer;
use firefly_runtime::linking::{host_function_defined, link_import, HostModule};
use firefly_runtime::menu::{menu_choice, MenuChoice, MenuItem};
use firefly_runtime::runtime::{
    app_to_run,
    check_bin_size, check_meta, fuel_consumed, handle_serial_request, update_plan, SerialAction,
    SerialError, SerialRequest, StartError, UpdatePlan,
};
use firefly_runtime::stats::{CallbackFuel, FuelSummary, StatsCallback, StatsMessage, StatsTracker};

fn id(author: &str, app: &str) -> FullID {
    FullID::from_str(author, app).unwrap()
}

#[test]
fn full_id_parsing() {
    let parsed = FullID::try_from_str("lux.snek").unwrap();
    assert_eq!(parsed.author(), "lux");
    assert_eq!(parsed.app(), "snek");
    // Only the first dot separates the parts.
    let parsed = FullID::try_from_str("a.b.c").unwrap();
    assert_eq!(parsed.author(), "a");
    assert_eq!(parsed.app(), "b.c");
    assert_eq!(FullID::try_from_str("nodot").err(), Some(FullIDError::NoDot));
    assert_eq!(
        FullID::try_from_str("a-very-long-author-name.app").err(),
        Some(FullIDError::LongAuthor)
    );
    assert_eq!(
        FullID::try_from_str("author.a-very-long-app-name").err(),
        Some(FullIDError::LongApp)
    );
    assert_eq!(FullIDError::NoDot.as_str(), "the full app ID must contain a dot");
}

#[test]
fn full_id_round_trip() {
    let author = "some-author";
    let app = "app-16-bytes-xyz";
    let parsed = FullID::try_from_str(&format!("{author}.{app}")).unwrap();
    assert_eq!(parsed.author(), author);
    assert_eq!(parsed.app(), app);
}

#[test]
fn full_id_validation() {
    assert!(id("lux", "snek").validate().is_ok());
    assert!(matches!(
        id("Lux", "snek").validate(),
        Err(IdValidationError::InvalidAuthorID(_))
    ));
    assert!(matches!(
        id("lux", "-snek").validate(),
        Err(IdValidationError::InvalidAppID(_))
    ));
    assert!(matches!(
        id("", "bad app").validate(),
        Err(IdValidationError::InvalidAuthorID(_))
    ));
    assert!(FullID::from_str("a-very-long-author-name", "app").is_none());
}

#[test]
fn start_checks() {
    let app = id("lux", "snek");
    assert_eq!(check_meta(&app, "lux", "snek"), Ok(()));
    assert_eq!(check_meta(&app, "lux2", "snek"), Err(StartError::AuthorIDMismatch));
    assert_eq!(check_meta(&app, "lux", "snake"), Err(StartError::AppIDMismatch));
    assert_eq!(check_bin_size(0), Err(StartError::EmptyBinary));
    assert_eq!(check_bin_size(100), Ok(false));
    assert_eq!(check_bin_size(40 * 1024 + 1), Ok(true));
    assert_eq!(StartError::EmptyBinary.message(), "file is empty: _bin");
    assert_eq!(fuel_consumed(10_000_000), 0);
    assert_eq!(fuel_consumed(9_999_000), 1000);
}

#[test]
fn serial_requests() {
    let r = handle_serial_request(SerialRequest::Cheat(3, 4), true, false, false);
    assert!(matches!(r, Ok(SerialAction::CallCheat(3, 4))));
    let r = handle_serial_request(SerialRequest::Cheat(3, 4), false, false, false);
    assert!(matches!(r, Err(SerialError::CheatUndefined)));
    let r = handle_serial_request(SerialRequest::Cheat(3, 4), true, true, false);
    assert!(matches!(r, Err(SerialError::CheatInNet)));
    let r = handle_serial_request(SerialRequest::Stats(true), false, false, false);
    assert!(matches!(r, Ok(SerialAction::StartStats)));
    let r = handle_serial_request(SerialRequest::Stats(false), false, false, true);
    assert!(matches!(r, Ok(SerialAction::StopStats)));
    let r = handle_serial_request(SerialRequest::Stats(true), false, false, true);
    assert!(matches!(r, Ok(SerialAction::Nothing)));
    let r = handle_serial_request(SerialRequest::AppId, false, false, false);
    assert!(matches!(r, Ok(SerialAction::SendAppId)));
    let r = handle_serial_request(SerialRequest::Screenshot, false, false, false);
    assert!(matches!(r, Ok(SerialAction::Screenshot)));
    let r = handle_serial_request(SerialRequest::Exit, false, false, false);
    assert!(matches!(r, Ok(SerialAction::Exit)));
    let req = SerialRequest::Launch("lux".to_string(), "snek".to_string());
    match handle_serial_request(req, false, false, false) {
        Ok(SerialAction::Launch(id)) => {
            assert_eq!(id.author(), "lux");
            assert_eq!(id.app(), "snek");
        }
        _ => panic!("expected a launch"),
    }
    let req = SerialRequest::Launch("a-very-long-author-name".to_string(), "snek".to_string());
    match handle_serial_request(req, false, false, false) {
        Ok(SerialAction::Log(msg)) => assert_eq!(msg, "ERROR(runtime): app ID is too long"),
        _ => panic!("expected an error message"),
    }
}

#[test]
fn update_plans() {
    assert_eq!(update_plan(true, true, true, true, Some(2)), UpdatePlan::ShowError);
    assert_eq!(update_plan(false, false, true, true, Some(2)), UpdatePlan::ShowMenu);
    assert_eq!(
        update_plan(false, true, false, false, None),
        UpdatePlan::RunApp { redraw: true, clear_screen: true, handle_menu: None }
    );
    assert_eq!(
        update_plan(false, true, false, true, Some(3)),
        UpdatePlan::RunApp { redraw: true, clear_screen: false, handle_menu: Some(3) }
    );
    assert_eq!(
        update_plan(false, false, false, false, None),
        UpdatePlan::RunApp { redraw: false, clear_screen: false, handle_menu: None }
    );
}

#[test]
fn apps_to_run() {
    let id = |a: &str, b: &str| FullID::from_str(a, b);
    let r = app_to_run(id("lux", "snek"), id("sys", "launcher"), None).ok().unwrap();
    assert_eq!((r.author(), r.app()), ("lux", "snek"));
    let r = app_to_run(None, id("sys", "launcher"), id("sys", "new-app")).ok().unwrap();
    assert_eq!((r.author(), r.app()), ("sys", "launcher"));
    let r = app_to_run(None, None, id("sys", "new-app")).ok().unwrap();
    assert_eq!((r.author(), r.app()), ("sys", "new-app"));
    assert!(matches!(app_to_run(None, None, None), Err(StartError::NoLauncher)));
    assert_eq!(StartError::NoLauncher.message(), "no launcher installed");
    assert_eq!(SerialError::CheatInNet.message(), "cheats are disabled in multiplayer");
    assert_eq!(SerialError::CheatUndefined.message(), "the app doesn't have cheat callback");
}

#[test]
fn menu_choices() {
    let item = MenuItem::Custom(4, "save".to_string());
    assert_eq!(menu_choice(false, Some(&item)), Some(MenuChoice::Custom(4)));
    assert_eq!(menu_choice(true, Some(&item)), None);
    assert_eq!(menu_choice(false, Some(&MenuItem::Quit)), Some(MenuChoice::Quit));
    assert_eq!(menu_choice(false, Some(&MenuItem::Restart)), Some(MenuChoice::Restart));
    assert_eq!(menu_choice(false, Some(&MenuItem::ScreenShot)), Some(MenuChoice::ScreenShot));
    assert_eq!(menu_choice(false, None), None);
}

#[test]
fn linking_imports() {
    assert_eq!(link_import("graphics", "draw_text", false), Ok(HostModule::Graphics));
    assert_eq!(link_import("g", "clear_screen", false), Ok(HostModule::Graphics));
    assert_eq!(
        link_import("graphics", "draw_cake", false),
        Err(LinkingError::UnknownHostFunction("graphics".to_string(), "draw_cake".to_string()))
    );
    assert_eq!(link_import("sudo", "run_app", false), Err(LinkingError::SudoDisabled));
    assert_eq!(link_import("sudo", "run_app", true), Ok(HostModule::Sudo));
    assert_eq!(
        link_import("cake", "draw_text", true),
        Err(LinkingError::UnknownHostFunction("cake".to_string(), "draw_text".to_string()))
    );
    assert!(host_function_defined(HostModule::Fs, "load_file"));
    assert!(!host_function_defined(HostModule::Fs, "draw_text"));
}

#[test]
fn error_messages() {
    assert_eq!(HostError::UnknownPeer(3).message(), "peer 3 is not connected");
    assert_eq!(
        HostError::NoBadge(12).message(),
        "the app doesn't have a badge with ID 12"
    );
    assert_eq!(
        HostError::NoBoard(0).message(),
        "the app doesn't have a board with ID 0"
    );
    assert!(!HostError::OomPointer.message().is_empty());
    let stats = RuntimeStats { last_called: String::new() };
    assert_eq!(stats.message(), "No host functions were called.\n");
    let stats = RuntimeStats { last_called: "graphics.draw_line".to_string() };
    assert_eq!(
        stats.message(),
        "The last called host function is graphics.draw_line.\n"
    );
    assert_eq!(LinkingError::SudoDisabled.message(), "sudo is disabled");
    let err = LinkingError::UnknownHostFunction("graphics".to_string(), "draw_dragon".to_string());
    assert_eq!(err.message(), "unknown host function: graphics.draw_dragon");
}

#[test]
fn fuel_summary() {
    let mut fuel = CallbackFuel::new();
    assert_eq!(fuel.as_fuel(), FuelSummary { min: 0, max: 0, mean: 0, calls: 0 });
    for i in [2, 4, 4, 4, 5, 5, 7, 9] {
        fuel.add(i);
    }
    let summary = fuel.as_fuel();
    assert_eq!(summary.calls, 8);
    assert_eq!(summary.min, 2);
    assert_eq!(summary.max, 9);
    assert_eq!(summary.mean, 5);
    fuel.reset();
    assert_eq!(fuel.as_fuel().calls, 0);
}

#[test]
fn stats_messages() {
    let mut stats = StatsTracker::new(1000);
    stats.update_fuel.add(10);
    stats.render_fuel.add(20);
    stats.analyze_memory(&[1, 0, 3, 0, 0]);
    assert_eq!(stats.pages, 0);
    // The first period sends nothing.
    for _ in 0..59 {
        assert_eq!(stats.as_message(2000), None);
    }
    assert_eq!(stats.as_message(2000), None); // frame 60
    assert_eq!(stats.as_message(2000), None); // frame 61
    assert_eq!(stats.as_message(2000), None); // frame 62
    let cpu = stats.as_message(5000); // frame 63
    assert_eq!(cpu, Some(StatsMessage::Cpu { busy_ns: 4000, lag_ns: 0, total_ns: 4000 }));
    assert_eq!(stats.synced, 5000);
    assert_eq!(stats.as_message(5000), None); // frame 64
    let fuel = stats.as_message(5000); // frame 65
    assert_eq!(
        fuel,
        Some(StatsMessage::Fuel(
            StatsCallback::Update,
            FuelSummary { min: 10, max: 10, mean: 10, calls: 1 }
        ))
    );
    assert_eq!(stats.update_fuel.count, 0);
    assert_eq!(stats.as_message(5000), None); // frame 66
    let fuel = stats.as_message(5000); // frame 67
    assert_eq!(
        fuel,
        Some(StatsMessage::Fuel(
            StatsCallback::Render,
            FuelSummary { min: 20, max: 20, mean: 20, calls: 1 }
        ))
    );
    // Frame 70 is when the memory is scanned for its last non-zero byte.
    for _ in 68..70 {
        stats.as_message(5000);
    }
    assert_eq!(stats.frame, 69);
    stats.as_message(5000);
    stats.analyze_memory(&[1, 0, 3, 0, 0]);
    assert_eq!(stats.last_one, 3);
    stats.as_message(5000); // frame 71
    let mem = stats.as_message(5000); // frame 72
    assert_eq!(mem, Some(StatsMessage::Memory { pages: 0, last_one: 3 }));
}

#[test]
fn frame_pacing() {
    let mut pacer = FramePacer::new(0, 1000);
    assert_eq!(pacer.render_every, 2);
    // A fast frame sleeps for the rest of its time.
    let d = pacer.delay(400);
    assert_eq!((d.sleep, d.shaved, d.lagged), (600, 0, 0));
    pacer.finish_delay(1000);
    // A slow frame becomes the lag, and the next fast frame makes up for it.
    let d = pacer.delay(2300);
    assert_eq!((d.sleep, d.shaved, d.lagged), (0, 0, 300));
    pacer.finish_delay(2300);
    let d = pacer.delay(2500);
    assert_eq!((d.sleep, d.shaved, d.lagged), (500, 300, 0));
    // Every other frame renders, and exiting always renders.
    assert!(pacer.should_render(false));
    assert!(!pacer.should_render(false));
    assert!(pacer.should_render(false));
    assert!(pacer.should_render(true));
    // A second of lagging frames makes the app render less often.
    pacer.lagging_frames = 60;
    pacer.adjust();
    assert_eq!(pacer.render_every, 3);
    assert_eq!(pacer.lagging_frames, 0);
    // A second of fast frames makes it render more often, but not more than every frame.
    pacer.fast_frames = 60;
    pacer.adjust();
    assert_eq!(pacer.render_every, 2);
    pacer.fast_frames = 60;
    pacer.adjust();
    pacer.fast_frames = 60;
    pacer.adjust();
    assert_eq!(pacer.render_every, 1);
    pacer.set_render_every(8);
    pacer.lagging_frames = 60;
    pacer.adjust();
    assert_eq!(pacer.render_every, 8);
}

#[test]
fn battery_updates() {
    let mut battery = Battery::new(3000, 4200);
    assert!(!battery.ok);
    assert_eq!(battery.percent, 50);
    let status = BatteryStatus { voltage: 3600, connected: true, full: false };
    assert!(!battery.update(Some(status), 50));
    assert!(battery.ok);
    assert!(charging(&battery));
    // A voltage above the known range widens it and must be stored.
    let status = BatteryStatus { voltage: 4300, connected: true, full: true };
    assert!(battery.update(Some(status), 100));
    assert_eq!(battery.max_voltage, 4300);
    assert_eq!(battery.min_voltage, 3000);
    assert!(!charging(&battery));
    let status = BatteryStatus { voltage: 2900, connected: false, full: false };
    assert!(battery.update(Some(status), 0));
    assert_eq!(battery.min_voltage, 2900);
    assert!(!battery.update(None, 0));
    assert!(!battery.ok);
    assert_eq!(battery.percent, 0);
    assert_eq!(battery_bar(100), Some((20, false)));
    assert_eq!(battery_bar(50), Some((11, false)));
    assert_eq!(battery_bar(20), Some((5, true)));
    assert_eq!(battery_bar(10), None);
}
