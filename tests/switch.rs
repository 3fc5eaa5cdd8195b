use ss_switch::candidates::{candidate_list, old_config_label};
use ss_switch::privilege::is_superuser;
use ss_switch::switch::{command_arg, Action, Command, Event, Stage, Switch};

fn names(list: &[&str]) -> Vec<Vec<u8>> {
    list.iter().map(|s| s.as_bytes().to_vec()).collect()
}

#[test]
fn switch_from_a_to_b() {
    let entries = names(&["a.json", "b.json", "config.json"]);
    let current = Some(b"a.json".to_vec());
    let list = candidate_list(&entries, &current);
    assert_eq!(list, names(&["a.json", "b.json"]));
    assert_eq!(old_config_label(&current), b"a.json".to_vec());

    let mut sw = Switch::new(current, list[1].clone());
    assert_eq!(sw.next_action(), Action::Run(Command::Stop));
    assert_eq!(sw.on_event(Event::Exited(Some(0))), Action::ReplaceLink);
    assert_eq!(sw.selected(), &b"b.json".to_vec());
    assert_eq!(sw.link(), &Some(b"a.json".to_vec()));
    assert_eq!(sw.on_event(Event::LinkReplaced), Action::Run(Command::Start));
    assert_eq!(sw.link(), &Some(b"b.json".to_vec()));
    assert_eq!(sw.on_event(Event::Exited(Some(0))), Action::Exit(0));
    assert_eq!(sw.stage(), Stage::Done);
}

#[test]
fn first_link_in_directory() {
    let entries = names(&["a.json"]);
    let list = candidate_list(&entries, &None);
    assert_eq!(list, names(&["a.json"]));
    assert_eq!(old_config_label(&None), b"None".to_vec());

    let mut sw = Switch::new(None, list[0].clone());
    assert_eq!(sw.on_event(Event::Exited(Some(0))), Action::ReplaceLink);
    assert_eq!(sw.on_event(Event::LinkReplaced), Action::Run(Command::Start));
    assert_eq!(sw.on_event(Event::Exited(Some(0))), Action::Exit(0));
    assert_eq!(sw.link(), &Some(b"a.json".to_vec()));
}

#[test]
fn reselecting_the_same_file_ends_the_same() {
    let mut sw = Switch::new(Some(b"a.json".to_vec()), b"a.json".to_vec());
    sw.on_event(Event::Exited(Some(0)));
    sw.on_event(Event::LinkReplaced);
    assert_eq!(sw.on_event(Event::Exited(Some(0))), Action::Exit(0));
    assert_eq!(sw.link(), &Some(b"a.json".to_vec()));
}

#[test]
fn failed_stop_leaves_link_alone() {
    let mut sw = Switch::new(Some(b"a.json".to_vec()), b"b.json".to_vec());
    assert_eq!(sw.on_event(Event::Exited(Some(3))), Action::Exit(3));
    assert_eq!(sw.stage(), Stage::Failed(3));
    assert_eq!(sw.on_event(Event::LinkReplaced), Action::Exit(3));
    assert_eq!(sw.link(), &Some(b"a.json".to_vec()));
}

#[test]
fn stop_killed_by_signal_exits_with_one() {
    let mut sw = Switch::new(None, b"b.json".to_vec());
    assert_eq!(sw.on_event(Event::Exited(None)), Action::Exit(1));
    assert_eq!(sw.link(), &None);
}

#[test]
fn failed_start_keeps_new_link() {
    let mut sw = Switch::new(Some(b"a.json".to_vec()), b"b.json".to_vec());
    sw.on_event(Event::Exited(Some(0)));
    sw.on_event(Event::LinkReplaced);
    assert_eq!(sw.on_event(Event::Exited(Some(2))), Action::Exit(2));
    assert_eq!(sw.stage(), Stage::Failed(2));
    assert_eq!(sw.link(), &Some(b"b.json".to_vec()));
}

#[test]
fn start_killed_by_signal_exits_with_one() {
    let mut sw = Switch::new(None, b"b.json".to_vec());
    sw.on_event(Event::Exited(Some(0)));
    sw.on_event(Event::LinkReplaced);
    assert_eq!(sw.on_event(Event::Exited(None)), Action::Exit(1));
}

#[test]
fn unexpected_event_changes_nothing() {
    let mut sw = Switch::new(None, b"b.json".to_vec());
    assert_eq!(sw.on_event(Event::LinkReplaced), Action::Run(Command::Stop));
    assert_eq!(sw.stage(), Stage::Stopping);
    assert_eq!(sw.link(), &None);
}

#[test]
fn control_arguments() {
    assert_eq!(command_arg(Command::Stop), "stop");
    assert_eq!(command_arg(Command::Start), "start");
}

#[test]
fn only_uid_zero_is_superuser() {
    assert!(is_superuser(0));
    assert!(!is_superuser(1000));
}
