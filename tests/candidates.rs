use ss_switch::candidates::{candidate_list, old_config_label};

fn names(list: &[&str]) -> Vec<Vec<u8>> {
    list.iter().map(|s| s.as_bytes().to_vec()).collect()
}

#[test]
fn current_target_is_offered_first_once() {
    let entries = names(&["b.json", "config.json", "a.json", "c.json"]);
    let current = Some(b"a.json".to_vec());
    let list = candidate_list(&entries, &current);
    assert_eq!(list, names(&["a.json", "b.json", "c.json"]));
}

#[test]
fn without_link_every_file_is_offered() {
    let entries = names(&["b.json", "a.json"]);
    let list = candidate_list(&entries, &None);
    assert_eq!(list, names(&["b.json", "a.json"]));
}

#[test]
fn link_entry_is_never_offered() {
    let entries = names(&["config.json", "a.json"]);
    let list = candidate_list(&entries, &None);
    assert_eq!(list, names(&["a.json"]));
}

#[test]
fn empty_directory_offers_nothing() {
    let list = candidate_list(&Vec::new(), &None);
    assert!(list.is_empty());
}

#[test]
fn dangling_target_is_still_offered_first() {
    let entries = names(&["config.json", "a.json"]);
    let current = Some(b"gone.json".to_vec());
    let list = candidate_list(&entries, &current);
    assert_eq!(list, names(&["gone.json", "a.json"]));
}

#[test]
fn similar_names_are_kept_apart() {
    let entries = names(&["config.json.bak", "config.jso", "a.json", "a.json2"]);
    let current = Some(b"a.json".to_vec());
    let list = candidate_list(&entries, &current);
    assert_eq!(list, names(&["a.json", "config.json.bak", "config.jso", "a.json2"]));
}

#[test]
fn old_config_is_the_link_target() {
    assert_eq!(old_config_label(&Some(b"a.json".to_vec())), b"a.json".to_vec());
}

#[test]
fn old_config_without_link_is_none() {
    assert_eq!(old_config_label(&None), b"None".to_vec());
}
