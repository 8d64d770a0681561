use kopuz_components::themes::{custom_theme_options, custom_theme_order};

fn pair(id: &str, name: &str) -> (String, String) {
    (id.to_string(), name.to_string())
}

#[test]
fn custom_themes_by_name() {
    let themes = vec![pair("t1", "Solar"), pair("t2", "Abyss"), pair("t3", "Mono"), pair("t4", "Abyss")];
    let sorted = custom_theme_options(&themes);
    assert_eq!(
        sorted,
        vec![pair("t2", "Abyss"), pair("t4", "Abyss"), pair("t3", "Mono"), pair("t1", "Solar")]
    );
}

#[test]
fn theme_names_in_character_order() {
    let names: Vec<String> = vec!["b".into(), "B".into(), "a".into(), "".into(), "ab".into()];
    let order = custom_theme_order(&names);
    let listed: Vec<&str> = order.iter().map(|&i| names[i].as_str()).collect();
    let mut expected: Vec<&str> = names.iter().map(|s| s.as_str()).collect();
    expected.sort();
    assert_eq!(listed, expected);
    assert!(custom_theme_options(&[]).is_empty());
}
