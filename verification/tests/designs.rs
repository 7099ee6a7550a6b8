use antenna_toolbox::designs::{by_id, designs, same_text, Build, Group};

#[test]
fn every_design_is_found_by_its_id() {
    for d in designs() {
        assert_eq!(by_id(d.id).id, d.id);
        assert_eq!(by_id(d.id).name, d.name);
    }
}

#[test]
fn an_unknown_id_gives_the_first_design() {
    assert_eq!(by_id("nonsense").id, "moxon");
    assert_eq!(by_id("").id, designs()[0].id);
}

#[test]
fn the_registry_lists_the_designs_in_picker_order() {
    let all = designs();
    assert_eq!(all.len(), 37);
    assert_eq!(all[0].id, "moxon");
    assert_eq!(all[all.len() - 1].id, "ifa");
    let d = by_id("gp");
    assert_eq!(d.name, "Ground plane");
    assert_eq!(d.group, Group::Omni);
    assert_eq!(d.build, Build::Wire);
    assert_eq!(by_id("vivaldi").build, Build::Sheet);
}

#[test]
fn ids_are_unique() {
    let all = designs();
    for i in 0..all.len() {
        for j in 0..all.len() {
            assert_eq!(i == j, all[i].id == all[j].id);
        }
    }
}

#[test]
fn texts_compare_by_character() {
    assert!(same_text("dipole", "dipole"));
    assert!(!same_text("dipole", "dipol"));
    assert!(!same_text("dipole", "Dipole"));
    assert!(same_text("", ""));
}
