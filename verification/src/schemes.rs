//! The colour schemes of the editor that the preferences offer, and the one they select.
//!
//! The host knows schemes by id. The preferences offer, in a fixed order of preference, the
//! host's schemes whose ids match a known id up to the case of ASCII letters. A host without
//! any of them offers its first ten schemes; a host without schemes offers one fixed scheme.
//! So there is always a scheme to select.

use crate::text::{
    eq_ignore_ascii_case, lemma_index_of_first_absent, lemma_index_of_first_at, str_eq,
    str_eq_ignore_ascii_case, Text,
};
use vstd::prelude::*;
use vstd::string::StringExecFns;

verus! {

/// Id of the scheme that is offered where the host has none, and that a fresh editor tries
/// where the stored scheme is not to be had.
pub const FALLBACK_SCHEME_ID: &'static str = "Adwaita-dark";

/// Label of the scheme that is offered where the host has none.
pub const FALLBACK_SCHEME_LABEL: &'static str = "Adwaita dark";

/// How many of the host's schemes are offered where none of the known ones is there.
pub const HOST_SCHEME_LIMIT: usize = 10;

/// A scheme as the host reports it: its id, and its display name where the host can load it.
pub struct HostScheme {
    pub id: String,
    pub name: Option<String>,
}

/// A scheme as the preferences offer it.
pub struct SchemeChoice {
    pub id: String,
    pub label: String,
}

/// The known scheme ids, in order of preference.
pub open spec fn preferred_ids() -> Seq<Text> {
    seq![
        "Adwaita-dark"@,
        "Adwaita"@,
        "Kate"@,
        "Kate-dark"@,
        "Cobalt"@,
        "Solarized-dark"@,
        "Solarized-light"@,
        "Monokai"@,
        "Builder"@,
        "Oblivion"@,
    ]
}

/// What the host reports, as plain values.
pub open spec fn host_view(host: Seq<HostScheme>) -> Seq<(Text, Option<Text>)> {
    host.map_values(
        |h: HostScheme|
            (
                h.id@,
                match h.name {
                    Some(name) => Some(name@),
                    None => None,
                },
            ),
    )
}

/// What the preferences offer, as plain values.
pub open spec fn choices_view(choices: Seq<SchemeChoice>) -> Seq<(Text, Text)> {
    choices.map_values(|c: SchemeChoice| (c.id@, c.label@))
}

/// For each scheme of the host, whether its id matches `wanted` up to ASCII case.
pub open spec fn matches(host: Seq<(Text, Option<Text>)>, wanted: Text) -> Seq<bool> {
    host.map_values(|h: (Text, Option<Text>)| eq_ignore_ascii_case(h.0, wanted))
}

/// The choice that a known id gives: the first scheme of the host that matches it, if the
/// host can load that scheme.
pub open spec fn preferred_choice(host: Seq<(Text, Option<Text>)>, wanted: Text) -> Option<
    (Text, Text),
> {
    match matches(host, wanted).index_of_first(true) {
        Some(i) => match host[i].1 {
            Some(name) => Some((host[i].0, name)),
            None => None,
        },
        None => None,
    }
}

/// The choices that the ids `wanted` give, in the order of the ids.
pub open spec fn preferred_choices(host: Seq<(Text, Option<Text>)>, wanted: Seq<Text>) -> Seq<
    (Text, Text),
>
    decreases wanted.len(),
{
    if wanted.len() == 0 {
        Seq::empty()
    } else {
        let before = preferred_choices(host, wanted.drop_last());
        match preferred_choice(host, wanted.last()) {
            Some(choice) => before.push(choice),
            None => before,
        }
    }
}

/// The schemes of `host` that the host can load, in order, each under its own name.
pub open spec fn loadable(host: Seq<(Text, Option<Text>)>) -> Seq<(Text, Text)>
    decreases host.len(),
{
    if host.len() == 0 {
        Seq::empty()
    } else {
        let before = loadable(host.drop_last());
        match host.last().1 {
            Some(name) => before.push((host.last().0, name)),
            None => before,
        }
    }
}

/// The first schemes of the host, as many as are offered at most.
pub open spec fn first_of_host(host: Seq<(Text, Option<Text>)>) -> Seq<(Text, Option<Text>)> {
    if host.len() <= HOST_SCHEME_LIMIT {
        host
    } else {
        host.take(HOST_SCHEME_LIMIT as int)
    }
}

/// The scheme that is offered where the host has none.
pub open spec fn fallback_choice() -> (Text, Text) {
    (FALLBACK_SCHEME_ID@, FALLBACK_SCHEME_LABEL@)
}

/// What the preferences offer for a host: the known schemes that it has; without any, its
/// first schemes; without any, the fixed one.
pub open spec fn offered(host: Seq<(Text, Option<Text>)>) -> Seq<(Text, Text)> {
    let known = preferred_choices(host, preferred_ids());
    if known.len() > 0 {
        known
    } else {
        let first = loadable(first_of_host(host));
        if first.len() > 0 {
            first
        } else {
            seq![fallback_choice()]
        }
    }
}

/// The position that the preferences select: that of the stored scheme among the offered
/// ones, the first where it is not among them.
pub open spec fn selected(choices: Seq<(Text, Text)>, stored: Text) -> int {
    match choices.map_values(|c: (Text, Text)| c.0).index_of_first(stored) {
        Some(i) => i,
        None => 0,
    }
}

/// The scheme of a fresh editor: the stored one where the host can load it, else the
/// fallback where the host can load that, else none.
pub open spec fn startup_choice(stored: Text, stored_loads: bool, fallback_loads: bool) -> Option<
    Text,
> {
    if stored_loads {
        Some(stored)
    } else if fallback_loads {
        Some(FALLBACK_SCHEME_ID@)
    } else {
        None
    }
}

/// The known scheme ids, in order of preference.
pub fn preferred_scheme_ids() -> (ids: Vec<&'static str>)
    ensures
        ids@.map_values(|s: &'static str| s@) == preferred_ids(),
{
    let mut ids: Vec<&'static str> = Vec::new();
    ids.push("Adwaita-dark");
    ids.push("Adwaita");
    ids.push("Kate");
    ids.push("Kate-dark");
    ids.push("Cobalt");
    ids.push("Solarized-dark");
    ids.push("Solarized-light");
    ids.push("Monokai");
    ids.push("Builder");
    ids.push("Oblivion");
    assert(ids@.map_values(|s: &'static str| s@) =~= preferred_ids());
    ids
}

/// The choice that the scheme at `at` makes, if the host can load it.
fn choice_at(host: &Vec<HostScheme>, at: usize) -> (choice: Option<SchemeChoice>)
    requires
        at < host.len(),
    ensures
        match choice {
            Some(c) => host_view(host@)[at as int].1 == Some(c.label@) && c.id@ == host_view(
                host@,
            )[at as int].0,
            None => host_view(host@)[at as int].1 is None,
        },
{
    match &host[at].name {
        Some(name) => Some(SchemeChoice { id: host[at].id.clone(), label: name.clone() }),
        None => None,
    }
}

/// The choice that a known id gives.
fn find_preferred(host: &Vec<HostScheme>, wanted: &str) -> (choice: Option<SchemeChoice>)
    ensures
        match choice {
            Some(c) => preferred_choice(host_view(host@), wanted@) == Some((c.id@, c.label@)),
            None => preferred_choice(host_view(host@), wanted@) is None,
        },
{
    let ghost flags = matches(host_view(host@), wanted@);
    let mut at: usize = 0;
    while at < host.len()
        invariant
            at <= host.len(),
            flags == matches(host_view(host@), wanted@),
            flags.len() == host.len(),
            forall|j: int| 0 <= j < at ==> !flags[j],
        decreases host.len() - at,
    {
        if str_eq_ignore_ascii_case(host[at].id.as_str(), wanted) {
            proof {
                assert(flags[at as int]);
                lemma_index_of_first_at(flags, true, at as int);
            }
            return choice_at(host, at);
        }
        assert(!flags[at as int]);
        at += 1;
    }
    proof {
        lemma_index_of_first_absent(flags, true);
    }
    None
}

/// What the preferences offer for the schemes that the host reports. There is always at
/// least one choice.
pub fn scheme_choices(host: &Vec<HostScheme>) -> (choices: Vec<SchemeChoice>)
    ensures
        choices_view(choices@) == offered(host_view(host@)),
        choices.len() > 0,
{
    let ghost model = host_view(host@);
    let wanted = preferred_scheme_ids();
    let ghost wanted_model = wanted@.map_values(|s: &'static str| s@);
    let mut choices: Vec<SchemeChoice> = Vec::new();
    let mut i: usize = 0;
    while i < wanted.len()
        invariant
            i <= wanted.len(),
            model == host_view(host@),
            wanted_model == wanted@.map_values(|s: &'static str| s@),
            choices_view(choices@) == preferred_choices(model, wanted_model.take(i as int)),
        decreases wanted.len() - i,
    {
        let ghost before = choices_view(choices@);
        let found = find_preferred(host, wanted[i]);
        proof {
            assert(wanted_model.take(i as int + 1).drop_last() =~= wanted_model.take(i as int));
            assert(wanted_model.take(i as int + 1).last() == wanted@[i as int]@);
        }
        match found {
            Some(choice) => {
                let ghost pair = (choice.id@, choice.label@);
                choices.push(choice);
                assert(choices_view(choices@) =~= before.push(pair));
            },
            None => {},
        }
        i += 1;
    }
    proof {
        assert(wanted_model.take(wanted.len() as int) =~= wanted_model);
    }
    if choices.len() > 0 {
        return choices;
    }
    let limit = if host.len() <= HOST_SCHEME_LIMIT {
        host.len()
    } else {
        HOST_SCHEME_LIMIT
    };
    let ghost first = first_of_host(model);
    let mut j: usize = 0;
    while j < limit
        invariant
            j <= limit <= host.len(),
            model == host_view(host@),
            first == first_of_host(model),
            first.len() == limit,
            choices_view(choices@) == loadable(first.take(j as int)),
        decreases limit - j,
    {
        let ghost before = choices_view(choices@);
        let found = choice_at(host, j);
        proof {
            assert(first.take(j as int + 1).drop_last() =~= first.take(j as int));
            assert(first.take(j as int + 1).last() == model[j as int]);
        }
        match found {
            Some(choice) => {
                let ghost pair = (choice.id@, choice.label@);
                choices.push(choice);
                assert(choices_view(choices@) =~= before.push(pair));
            },
            None => {},
        }
        j += 1;
    }
    proof {
        assert(first.take(limit as int) =~= first);
    }
    if choices.len() > 0 {
        return choices;
    }
    choices.push(
        SchemeChoice {
            id: String::from_str(FALLBACK_SCHEME_ID),
            label: String::from_str(FALLBACK_SCHEME_LABEL),
        },
    );
    assert(choices_view(choices@) =~= seq![fallback_choice()]);
    choices
}

/// The position that the preferences select for the stored scheme.
pub fn selected_index(choices: &Vec<SchemeChoice>, stored: &str) -> (index: usize)
    ensures
        index == selected(choices_view(choices@), stored@),
        choices.len() > 0 ==> index < choices.len(),
{
    let ghost ids = choices_view(choices@).map_values(|c: (Text, Text)| c.0);
    let mut at: usize = 0;
    while at < choices.len()
        invariant
            at <= choices.len(),
            ids == choices_view(choices@).map_values(|c: (Text, Text)| c.0),
            ids.len() == choices.len(),
            forall|j: int| 0 <= j < at ==> ids[j] != stored@,
        decreases choices.len() - at,
    {
        if str_eq(choices[at].id.as_str(), stored) {
            proof {
                assert(ids[at as int] == stored@);
                lemma_index_of_first_at(ids, stored@, at as int);
            }
            return at;
        }
        assert(ids[at as int] != stored@);
        at += 1;
    }
    proof {
        lemma_index_of_first_absent(ids, stored@);
    }
    0
}

/// The scheme of a fresh editor. `stored_loads` and `fallback_loads` say whether the host can
/// load the stored scheme and the fallback.
pub fn startup_scheme(stored: &str, stored_loads: bool, fallback_loads: bool) -> (scheme: Option<
    String,
>)
    ensures
        match scheme {
            Some(id) => startup_choice(stored@, stored_loads, fallback_loads) == Some(id@),
            None => startup_choice(stored@, stored_loads, fallback_loads) is None,
        },
{
    if stored_loads {
        Some(stored.to_owned())
    } else if fallback_loads {
        Some(String::from_str(FALLBACK_SCHEME_ID))
    } else {
        None
    }
}

/// There is always a scheme to offer, whatever the host reports.
pub proof fn lemma_offer_is_never_empty(host: Seq<(Text, Option<Text>)>)
    ensures
        offered(host).len() > 0,
{
}

/// The selected position is one of the offered ones.
pub proof fn lemma_selection_is_offered(choices: Seq<(Text, Text)>, stored: Text)
    requires
        choices.len() > 0,
    ensures
        0 <= selected(choices, stored) < choices.len(),
{
    choices.map_values(|c: (Text, Text)| c.0).index_of_first_ensures(stored);
}

/// A host without schemes is offered the fixed scheme alone.
pub proof fn lemma_empty_host_gets_fallback()
    ensures
        offered(Seq::empty()) == seq![fallback_choice()],
{
    let host = Seq::<(Text, Option<Text>)>::empty();
    lemma_no_preferred_without_match(host, preferred_ids());
    assert(loadable(first_of_host(host)) =~= Seq::empty());
}

/// A host none of whose schemes matches any of the ids `wanted` gives no preferred choice.
pub proof fn lemma_no_preferred_without_match(host: Seq<(Text, Option<Text>)>, wanted: Seq<Text>)
    requires
        forall|i: int, j: int|
            0 <= i < host.len() && 0 <= j < wanted.len() ==> !eq_ignore_ascii_case(
                #[trigger] host[i].0,
                #[trigger] wanted[j],
            ),
    ensures
        preferred_choices(host, wanted).len() == 0,
    decreases wanted.len(),
{
    if wanted.len() > 0 {
        lemma_no_preferred_without_match(host, wanted.drop_last());
        let flags = matches(host, wanted.last());
        assert forall|i: int| 0 <= i < flags.len() implies flags[i] != true by {
            assert(!eq_ignore_ascii_case(host[i].0, wanted[wanted.len() - 1]));
        }
        lemma_index_of_first_absent(flags, true);
    }
}

} // verus!
