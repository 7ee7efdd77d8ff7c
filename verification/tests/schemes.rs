use markview::schemes::{
    preferred_scheme_ids, scheme_choices, selected_index, startup_scheme, HostScheme, SchemeChoice,
    FALLBACK_SCHEME_ID, FALLBACK_SCHEME_LABEL, HOST_SCHEME_LIMIT,
};

fn loadable(id: &str, name: &str) -> HostScheme {
    HostScheme { id: id.to_string(), name: Some(name.to_string()) }
}

fn broken(id: &str) -> HostScheme {
    HostScheme { id: id.to_string(), name: None }
}

fn pairs(choices: &Vec<SchemeChoice>) -> Vec<(String, String)> {
    choices.iter().map(|c| (c.id.clone(), c.label.clone())).collect()
}

fn pair(id: &str, label: &str) -> (String, String) {
    (id.to_string(), label.to_string())
}

#[test]
fn preferred_ids_in_order() {
    assert_eq!(
        preferred_scheme_ids(),
        vec![
            "Adwaita-dark",
            "Adwaita",
            "Kate",
            "Kate-dark",
            "Cobalt",
            "Solarized-dark",
            "Solarized-light",
            "Monokai",
            "Builder",
            "Oblivion",
        ]
    );
    assert_eq!(HOST_SCHEME_LIMIT, 10);
}

#[test]
fn known_schemes_come_in_order_of_preference() {
    let host = vec![
        loadable("oblivion", "Oblivion"),
        loadable("classic", "Classic"),
        loadable("kate", "Kate"),
        loadable("Adwaita-dark", "Adwaita Dark"),
    ];
    assert_eq!(
        pairs(&scheme_choices(&host)),
        vec![pair("Adwaita-dark", "Adwaita Dark"), pair("kate", "Kate"), pair("oblivion", "Oblivion")]
    );
}

#[test]
fn match_ignores_ascii_case_only() {
    let host = vec![loadable("KATE-DARK", "Kate Dark"), loadable("c\u{f6}balt", "no match")];
    assert_eq!(pairs(&scheme_choices(&host)), vec![pair("KATE-DARK", "Kate Dark")]);
}

#[test]
fn first_match_decides_even_if_it_does_not_load() {
    let host = vec![broken("kate"), loadable("Kate", "Kate"), loadable("cobalt", "Cobalt")];
    assert_eq!(pairs(&scheme_choices(&host)), vec![pair("cobalt", "Cobalt")]);
}

#[test]
fn unknown_host_schemes_are_offered_up_to_ten() {
    let host: Vec<HostScheme> =
        (0..15).map(|i| loadable(&format!("custom-{}", i), &format!("Custom {}", i))).collect();
    let choices = scheme_choices(&host);
    assert_eq!(choices.len(), 10);
    assert_eq!(choices[0].id, "custom-0");
    assert_eq!(choices[9].id, "custom-9");
    assert_eq!(choices[9].label, "Custom 9");
}

#[test]
fn unloadable_schemes_among_the_first_ten_are_skipped() {
    let mut host: Vec<HostScheme> = (0..10).map(|i| broken(&format!("b{}", i))).collect();
    host[3] = loadable("b3", "Third");
    host.push(loadable("eleventh", "Eleventh"));
    assert_eq!(pairs(&scheme_choices(&host)), vec![pair("b3", "Third")]);
}

#[test]
fn host_without_usable_schemes_gets_the_fallback() {
    assert_eq!(pairs(&scheme_choices(&Vec::new())), vec![pair("Adwaita-dark", "Adwaita dark")]);
    let host: Vec<HostScheme> = (0..12).map(|i| broken(&format!("b{}", i))).collect();
    assert_eq!(pairs(&scheme_choices(&host)), vec![pair(FALLBACK_SCHEME_ID, FALLBACK_SCHEME_LABEL)]);
    let beyond: Vec<HostScheme> = {
        let mut host: Vec<HostScheme> = (0..10).map(|i| broken(&format!("b{}", i))).collect();
        host.push(loadable("custom", "Custom"));
        host
    };
    assert_eq!(pairs(&scheme_choices(&beyond)), vec![pair("Adwaita-dark", "Adwaita dark")]);
}

#[test]
fn choices_are_never_empty() {
    let hosts = vec![
        Vec::new(),
        vec![broken("kate")],
        vec![loadable("x", "X")],
        vec![loadable("Monokai", "Monokai"), loadable("monokai", "again")],
    ];
    for host in hosts.iter() {
        assert!(!scheme_choices(host).is_empty());
    }
}

#[test]
fn selected_index_is_position_of_stored_scheme() {
    let host = vec![loadable("Adwaita", "Adwaita"), loadable("Kate", "Kate"), loadable("Cobalt", "Cobalt")];
    let choices = scheme_choices(&host);
    assert_eq!(selected_index(&choices, "Adwaita"), 0);
    assert_eq!(selected_index(&choices, "Kate"), 1);
    assert_eq!(selected_index(&choices, "Cobalt"), 2);
}

#[test]
fn selected_index_falls_back_to_first() {
    let host = vec![loadable("Adwaita", "Adwaita"), loadable("Kate", "Kate")];
    let choices = scheme_choices(&host);
    assert_eq!(selected_index(&choices, "kate"), 0);
    assert_eq!(selected_index(&choices, "Monokai"), 0);
    assert_eq!(selected_index(&choices, ""), 0);
    assert_eq!(selected_index(&Vec::new(), "Kate"), 0);
}

#[test]
fn startup_scheme_order() {
    assert_eq!(startup_scheme("Kate", true, true), Some("Kate".to_string()));
    assert_eq!(startup_scheme("Kate", true, false), Some("Kate".to_string()));
    assert_eq!(startup_scheme("Kate", false, true), Some("Adwaita-dark".to_string()));
    assert_eq!(startup_scheme("Kate", false, false), None);
}
