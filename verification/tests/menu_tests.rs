use pomodoro_sni::dbusmenu::{
    MenuEvent, EXIT_ID, PAUSE_ID, PHASE_ID, RAP_ID, RESET_ID, RESUME_ID, ROOT_ID, SETTINGS_ID, SKIP_ID, START_ID,
    STATUS_ID,
};
use pomodoro_sni::menu_tree::{MenuProperties, PropertyValue};
use pomodoro_sni::{DbusMenu, Phase, TimerCommand, TimerMinute};

fn label(menu: &DbusMenu, id: i32) -> String {
    match menu.get_property(id, "label") {
        PropertyValue::Str(s) => s,
        other => panic!("label of {id} is {other:?}"),
    }
}

fn visible(menu: &DbusMenu, id: i32) -> bool {
    match menu.get_property(id, "visible") {
        PropertyValue::Bool(b) => b,
        other => panic!("visible of {id} is {other:?}"),
    }
}

fn only_entry(p: &MenuProperties) -> (String, String) {
    let inner = p.inner();
    assert_eq!(inner.len(), 1);
    let v = match &inner[0].1 {
        PropertyValue::Str(s) => s.clone(),
        PropertyValue::Bool(b) => b.to_string(),
        PropertyValue::I32(i) => i.to_string(),
    };
    (inner[0].0.clone(), v)
}

fn summary(u: &[(i32, MenuProperties)]) -> Vec<(i32, String, String)> {
    u.iter()
        .map(|(id, p)| {
            let (k, v) = only_entry(p);
            (*id, k, v)
        })
        .collect()
}

fn minutes(m: u8) -> TimerMinute {
    TimerMinute::try_from(m).unwrap()
}

#[test]
fn new_menu_is_pending_and_shows_start() {
    let menu = DbusMenu::new(minutes(25));
    assert_eq!(label(&menu, STATUS_ID), "Status: Pending");
    assert_eq!(label(&menu, PHASE_ID), "Phase: Working");
    assert_eq!(label(&menu, RAP_ID), "Rap: 1");
    assert!(visible(&menu, START_ID));
    assert!(!visible(&menu, PAUSE_ID));
    assert!(!visible(&menu, RESUME_ID));
    assert_eq!(menu.version(), 2);
    assert_eq!(menu.status(), "normal");
    assert!(menu.about_to_show(ROOT_ID));
}

#[test]
fn layout_of_the_root_lists_the_items_in_order() {
    let menu = DbusMenu::new(minutes(25));
    let (revision, layout) = menu.get_layout(ROOT_ID, -1, &[]);
    assert_eq!(revision, 1);
    assert_eq!(layout.id, ROOT_ID);
    let ids: Vec<i32> = layout.children.iter().map(|c| c.id).collect();
    assert_eq!(ids, vec![11, 12, 13, 2, 21, 22, 23, 24, 25, 3, 31, 4, 41]);
    let (_, shallow) = menu.get_layout(ROOT_ID, 0, &[]);
    assert!(shallow.children.is_empty());
    let (_, missing) = menu.get_layout(999, -1, &[]);
    assert_eq!(missing.id, 999);
    assert!(missing.children.is_empty());
}

#[test]
fn get_group_properties_picks_the_named_properties() {
    let menu = DbusMenu::new(minutes(25));
    let r = menu.get_group_properties(&[START_ID, 999], &["label".to_owned()]);
    assert_eq!(r.len(), 2);
    assert_eq!(r[0].0, START_ID);
    assert_eq!(only_entry(&r[0].1), ("label".to_owned(), "Start".to_owned()));
    assert_eq!(r[1].0, 999);
    assert!(r[1].1.inner().is_empty());
    match menu.get_property(START_ID, "no-such") {
        PropertyValue::Str(s) => assert!(s.is_empty()),
        _ => panic!("missing properties read as the empty string"),
    }
}

#[test]
fn start_shows_running_and_sends_the_minutes() {
    let mut menu = DbusMenu::new(minutes(25));
    let o = menu.start();
    assert_eq!(
        summary(&o.updates),
        vec![
            (STATUS_ID, "label".to_owned(), "Status: Running".to_owned()),
            (START_ID, "visible".to_owned(), "false".to_owned()),
            (PAUSE_ID, "visible".to_owned(), "true".to_owned()),
            (RESUME_ID, "visible".to_owned(), "false".to_owned()),
        ]
    );
    assert_eq!(o.command, Some(TimerCommand::Start(minutes(25))));
    assert_eq!(label(&menu, STATUS_ID), "Status: Running");
    assert!(!visible(&menu, START_ID));
    assert!(visible(&menu, PAUSE_ID));
    assert!(!visible(&menu, RESUME_ID));
    // A second start does nothing.
    let o = menu.start();
    assert!(o.updates.is_empty());
    assert_eq!(o.command, None);
}

#[test]
fn pause_and_resume_follow_the_status() {
    let mut menu = DbusMenu::new(minutes(10));
    let o = menu.pause();
    assert!(o.updates.is_empty() && o.command.is_none());
    let o = menu.resume();
    assert!(o.updates.is_empty() && o.command.is_none());
    assert_eq!(menu.start().command, Some(TimerCommand::Start(minutes(10))));
    let o = menu.pause();
    assert_eq!(o.command, Some(TimerCommand::Pause));
    assert_eq!(summary(&o.updates)[0], (STATUS_ID, "label".to_owned(), "Status: Paused".to_owned()));
    assert_eq!(summary(&o.updates)[3], (RESUME_ID, "visible".to_owned(), "true".to_owned()));
    assert!(visible(&menu, RESUME_ID));
    assert!(!visible(&menu, PAUSE_ID));
    assert_eq!(menu.resume().command, Some(TimerCommand::Resume));
    assert!(visible(&menu, PAUSE_ID));
    assert!(!visible(&menu, RESUME_ID));
}

#[test]
fn pending_reports_each_visibility_under_its_own_id() {
    let mut menu = DbusMenu::new(minutes(10));
    menu.start();
    let u = menu.pending().unwrap();
    assert_eq!(
        summary(&u),
        vec![
            (STATUS_ID, "label".to_owned(), "Status: Pending".to_owned()),
            (START_ID, "visible".to_owned(), "true".to_owned()),
            (PAUSE_ID, "visible".to_owned(), "false".to_owned()),
            (RESUME_ID, "visible".to_owned(), "false".to_owned()),
        ]
    );
    assert!(visible(&menu, START_ID));
}

#[test]
fn reset_skip_and_exit_give_their_commands() {
    let mut menu = DbusMenu::new(minutes(10));
    menu.start();
    assert_eq!(menu.reset().command, Some(TimerCommand::Reset));
    assert_eq!(label(&menu, STATUS_ID), "Status: Pending");
    let o = menu.skip();
    assert_eq!(o.command, Some(TimerCommand::Skip));
    assert_eq!(o.updates.len(), 4);
    assert_eq!(menu.exit(), TimerCommand::Terminate);
}

#[test]
fn events_dispatch_by_item() {
    let mut menu = DbusMenu::new(minutes(5));
    assert!(matches!(menu.event(ROOT_ID), MenuEvent::Ignored));
    assert!(matches!(menu.event(STATUS_ID), MenuEvent::Ignored));
    assert!(matches!(menu.event(SETTINGS_ID), MenuEvent::OpenSettings));
    let mut sent = Vec::new();
    for id in [START_ID, PAUSE_ID, RESUME_ID, SKIP_ID, RESET_ID, EXIT_ID] {
        match menu.event(id) {
            MenuEvent::Control(o) => {
                assert_eq!(o.updates.len(), 4);
                sent.push(o.command.unwrap());
            }
            MenuEvent::Exit(c) => sent.push(c),
            _ => panic!("item {id} acts"),
        }
    }
    assert_eq!(
        sent,
        vec![
            TimerCommand::Start(minutes(5)),
            TimerCommand::Pause,
            TimerCommand::Resume,
            TimerCommand::Skip,
            TimerCommand::Reset,
            TimerCommand::Terminate,
        ]
    );
}

#[test]
fn menu_always_shows_the_controller_status() {
    let mut menu = DbusMenu::new(minutes(5));
    let clicks = [START_ID, PAUSE_ID, PAUSE_ID, RESUME_ID, START_ID, SKIP_ID, RESUME_ID, START_ID, RESET_ID, PAUSE_ID];
    for id in clicks {
        let _ = menu.event(id);
        let status = label(&menu, STATUS_ID);
        let shown = (visible(&menu, START_ID), visible(&menu, PAUSE_ID), visible(&menu, RESUME_ID));
        match status.as_str() {
            "Status: Pending" => assert_eq!(shown, (true, false, false)),
            "Status: Running" => assert_eq!(shown, (false, true, false)),
            "Status: Paused" => assert_eq!(shown, (false, false, true)),
            other => panic!("unknown status {other}"),
        }
    }
}

#[test]
fn rap_and_phase_labels() {
    let mut menu = DbusMenu::new(minutes(5));
    let u = menu.set_rap(12).unwrap();
    assert_eq!(summary(&u), vec![(RAP_ID, "label".to_owned(), "Rap: 12".to_owned())]);
    assert_eq!(label(&menu, RAP_ID), "Rap: 12");
    let u = menu.set_phase(Phase::ShortBreak).unwrap();
    assert_eq!(summary(&u), vec![(PHASE_ID, "label".to_owned(), "Phase: ShortBreak".to_owned())]);
    assert_eq!(label(&menu, PHASE_ID), "Phase: ShortBreak");
    menu.set_phase("Custom").unwrap();
    assert_eq!(label(&menu, PHASE_ID), "Phase: Custom");
}

#[test]
fn revision_counts_up() {
    let mut menu = DbusMenu::new(minutes(5));
    menu.bump_revision();
    menu.bump_revision();
    assert_eq!(menu.get_layout(ROOT_ID, 0, &[]).0, 3);
}
