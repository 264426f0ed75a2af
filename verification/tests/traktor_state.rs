use push2display2traktor::traktor::services::{
    apply_fx_change, deck_from_route, fx_change_in_range, fx_id_from_traktor_path,
    receive_deck_loaded_event, receive_deck_update_event, receive_fx_event, stage_fx_event,
    DeckLoaded, DeckUpdate, FxChangeEvent, FxEvent, FxEventJsonName, FxEventJsonParam,
};
use push2display2traktor::traktor::{
    Deck, DeckContent, DeckID, FXUnit, FxUnitType, Knob, TraktorState, DEFAULT_KNOB_VALUE,
};

fn param(path: &str, value: f64, description: &str) -> FxEventJsonParam {
    FxEventJsonParam {
        path: path.to_string(),
        value: value.to_bits(),
        description: description.to_string(),
    }
}

fn name(path: &str, value: &str, description: &str) -> FxEventJsonName {
    FxEventJsonName {
        path: path.to_string(),
        value: value.to_string(),
        description: description.to_string(),
    }
}

fn track(title: &str, resulting_key: &str) -> DeckLoaded {
    DeckLoaded {
        file_path: format!("/music/{}.flac", title),
        title: title.to_string(),
        artist: "Artist".to_string(),
        album: "Album".to_string(),
        genre: "Genre".to_string(),
        label: "Label".to_string(),
        key: "8A".to_string(),
        resulting_key: resulting_key.to_string(),
        track_length: 321.5f64.to_bits(),
    }
}

fn initial_knob(id: u8) -> Knob {
    Knob {
        id,
        value: 0.5f64.to_bits(),
        value_description: "UNK".to_string(),
        fx_name: "UNK".to_string(),
    }
}

#[test]
fn initial_state_has_four_units_and_four_empty_decks() {
    let state = TraktorState::default();
    assert_eq!(DEFAULT_KNOB_VALUE, 0.5f64.to_bits());
    assert_eq!(state.fx_units().len(), 4);
    for (i, unit) in state.fx_units().iter().enumerate() {
        assert_eq!(unit.id() as usize, i + 1);
        assert_eq!(unit.unit_type(), FxUnitType::UNK);
        assert_eq!(unit.knobs().len(), 4);
        for (j, knob) in unit.knobs().iter().enumerate() {
            assert_eq!(*knob, initial_knob(j as u8));
            assert_eq!(f64::from_bits(knob.value), 0.5);
        }
    }
    assert_eq!(state.decks().len(), 4);
    let ids = [DeckID::A, DeckID::B, DeckID::C, DeckID::D];
    for (i, deck) in state.decks().iter().enumerate() {
        assert_eq!(deck.id, ids[i]);
        assert_eq!(deck.content, None);
    }
}

#[test]
fn a_new_unit_keeps_the_id_it_is_given() {
    let unit = FXUnit::new(9);
    assert_eq!(unit.id(), 9);
    assert_eq!(unit.unit_type(), FxUnitType::UNK);
    let ids: Vec<u8> = unit.knobs().iter().map(|k| k.id).collect();
    assert_eq!(ids, vec![0, 1, 2, 3]);
    assert_eq!(Knob::new(2), initial_knob(2));
}

#[test]
fn deck_ids_in_order() {
    assert_eq!(DeckID::iter(), [DeckID::A, DeckID::B, DeckID::C, DeckID::D]);
}

#[test]
fn deck_letters_in_both_cases() {
    assert_eq!(DeckID::from_char('a'), Some(DeckID::A));
    assert_eq!(DeckID::from_char('A'), Some(DeckID::A));
    assert_eq!(DeckID::from_char('b'), Some(DeckID::B));
    assert_eq!(DeckID::from_char('B'), Some(DeckID::B));
    assert_eq!(DeckID::from_char('c'), Some(DeckID::C));
    assert_eq!(DeckID::from_char('C'), Some(DeckID::C));
    assert_eq!(DeckID::from_char('d'), Some(DeckID::D));
    assert_eq!(DeckID::from_char('D'), Some(DeckID::D));
    assert_eq!(DeckID::from_char('e'), None);
    assert_eq!(DeckID::from_char('E'), None);
    assert_eq!(DeckID::from_char('1'), None);
    assert_eq!(DeckID::from_char(' '), None);
    assert_eq!(DeckID::from_char('ä'), None);
}

#[test]
fn deck_of_a_route_parameter() {
    assert_eq!(deck_from_route("a"), Some(DeckID::A));
    assert_eq!(deck_from_route("A"), Some(DeckID::A));
    assert_eq!(deck_from_route("Deck"), Some(DeckID::D));
    assert_eq!(deck_from_route("cx"), Some(DeckID::C));
    assert_eq!(deck_from_route(""), None);
    assert_eq!(deck_from_route("x"), None);
    assert_eq!(deck_from_route("éa"), None);
    assert_eq!(deck_from_route(" a"), None);
}

#[test]
fn unit_type_from_its_description() {
    assert_eq!(FxUnitType::from_description("Group"), FxUnitType::Group);
    assert_eq!(FxUnitType::from_description("Single"), FxUnitType::Single);
    assert_eq!(FxUnitType::from_description("Pattern Player"), FxUnitType::UNK);
    assert_eq!(FxUnitType::from_description("group"), FxUnitType::UNK);
    assert_eq!(FxUnitType::from_description("Group "), FxUnitType::UNK);
    assert_eq!(FxUnitType::from_description(""), FxUnitType::UNK);
}

#[test]
fn knob_number_is_the_sixth_segment() {
    assert_eq!(fx_id_from_traktor_path("app.traktor.fx.1.knobs.3"), Some(3));
    assert_eq!(fx_id_from_traktor_path("app.traktor.fx.1.knobs.3.name"), Some(3));
    assert_eq!(fx_id_from_traktor_path("app.traktor.fx.1.select.2"), Some(2));
    assert_eq!(fx_id_from_traktor_path("app.traktor.fx.1.parameters.1"), Some(1));
    assert_eq!(fx_id_from_traktor_path("a.b.c.d.e.255"), Some(255));
    assert_eq!(fx_id_from_traktor_path("a.b.c.d.e.0"), Some(0));
    assert_eq!(fx_id_from_traktor_path("a.b.c.d.e.007"), Some(7));
    assert_eq!(fx_id_from_traktor_path("a.b.c.d.e.+12"), Some(12));
    assert_eq!(fx_id_from_traktor_path(".....9"), Some(9));
    assert_eq!(fx_id_from_traktor_path(".....9."), Some(9));
    assert_eq!(fx_id_from_traktor_path("a.b.c.d.e.0000000000000000000000000042"), Some(42));
}

#[test]
fn paths_that_name_no_knob() {
    assert_eq!(fx_id_from_traktor_path(""), None);
    assert_eq!(fx_id_from_traktor_path("app.traktor.fx.1.type"), None);
    assert_eq!(fx_id_from_traktor_path("app.traktor.fx.1.dry_wet"), None);
    assert_eq!(fx_id_from_traktor_path("app.traktor.fx.1.knobs"), None);
    assert_eq!(fx_id_from_traktor_path("app.traktor.fx.1.knobs."), None);
    assert_eq!(fx_id_from_traktor_path("app.traktor.fx.1.knobs.x"), None);
    assert_eq!(fx_id_from_traktor_path("app.traktor.fx.1.knobs.256"), None);
    assert_eq!(fx_id_from_traktor_path("app.traktor.fx.1.knobs.99999999999999999999"), None);
    assert_eq!(fx_id_from_traktor_path("app.traktor.fx.1.knobs.-1"), None);
    assert_eq!(fx_id_from_traktor_path("app.traktor.fx.1.knobs.+"), None);
    assert_eq!(fx_id_from_traktor_path("app.traktor.fx.1.knobs.++1"), None);
    assert_eq!(fx_id_from_traktor_path("app.traktor.fx.1.knobs.1+"), None);
    assert_eq!(fx_id_from_traktor_path("app.traktor.fx.1.knobs. 1"), None);
    assert_eq!(fx_id_from_traktor_path("app.traktor.fx.1.knobs.1 "), None);
    assert_eq!(fx_id_from_traktor_path("app.traktor.fx.1.knobs.٣"), None);
    assert_eq!(fx_id_from_traktor_path("app.traktor.fx.1.3"), None);
    assert_eq!(fx_id_from_traktor_path("3"), None);
}

#[test]
fn knob_number_reads_as_the_standard_parser_does() {
    let mut spellings: Vec<String> = (0..400u32).map(|n| n.to_string()).collect();
    for s in [
        "", "+", "-", "+0", "-0", "+255", "+256", "00", "0255", "0256", "1a", "a1", "1.", "١", "２",
        "1_0", "0x10", " 7", "7 ", "2 5",
    ] {
        spellings.push(s.to_string());
    }
    for s in spellings {
        let path = format!("app.traktor.fx.1.knobs.{}", s);
        let sixth = path.split('.').nth(5).unwrap().to_string();
        assert_eq!(
            fx_id_from_traktor_path(&path),
            sixth.parse::<u8>().ok(),
            "{:?}",
            path
        );
    }
}

#[test]
fn staging_follows_the_table() {
    assert_eq!(
        stage_fx_event(FxEvent::Type(param("app.traktor.fx.1.type", 0.0, "Group"))),
        FxChangeEvent {
            fx_type: Some("Group".to_string()),
            fx_id: None,
            value: None,
            value_description: None,
            name: None,
        }
    );
    assert_eq!(
        stage_fx_event(FxEvent::Select(param(
            "app.traktor.fx.1.select.3",
            20.0,
            "Auto Bouncer"
        ))),
        FxChangeEvent {
            fx_type: None,
            fx_id: Some(3),
            value: None,
            value_description: None,
            name: Some("Auto Bouncer".to_string()),
        }
    );
    assert_eq!(
        stage_fx_event(FxEvent::DryWet(param("app.traktor.fx.1.knobs.3", 1.0, "100%"))),
        FxChangeEvent {
            fx_type: None,
            fx_id: Some(0),
            value: Some(1.0f64.to_bits()),
            value_description: Some("100%".to_string()),
            name: Some("D/W".to_string()),
        }
    );
    assert_eq!(
        stage_fx_event(FxEvent::Knob(param("app.traktor.fx.1.knobs.1", 0.25, "float"))),
        FxChangeEvent {
            fx_type: None,
            fx_id: Some(1),
            value: Some(0.25f64.to_bits()),
            value_description: None,
            name: None,
        }
    );
    assert_eq!(
        stage_fx_event(FxEvent::Name(name("app.traktor.fx.1.knobs.3.name", "LEN", "ignored"))),
        FxChangeEvent {
            fx_type: None,
            fx_id: Some(3),
            value: None,
            value_description: None,
            name: Some("LEN".to_string()),
        }
    );
    assert_eq!(
        stage_fx_event(FxEvent::Param(param(
            "app.traktor.fx.1.parameters.2",
            0.5019609928131104,
            "0"
        ))),
        FxChangeEvent {
            fx_type: None,
            fx_id: Some(2),
            value: Some(0.5019609928131104f64.to_bits()),
            value_description: None,
            name: None,
        }
    );
    assert_eq!(
        FxChangeEvent::default(),
        FxChangeEvent {
            fx_type: None,
            fx_id: None,
            value: None,
            value_description: None,
            name: None,
        }
    );
}

#[test]
fn dry_wet_event_end_to_end() {
    let mut state = TraktorState::default();
    receive_fx_event(
        &mut state,
        2,
        FxEvent::DryWet(param("app.traktor.fx.2.dry_wet", 0.75, "75%")),
    );
    let snapshot = state.clone();
    assert_eq!(snapshot, state);
    let unit = &snapshot.fx_units()[1];
    assert_eq!(unit.id(), 2);
    let knob = &unit.knobs()[0];
    assert_eq!(knob.id, 0);
    assert_eq!(f64::from_bits(knob.value), 0.75);
    assert_eq!(knob.value_description, "75%");
    assert_eq!(knob.fx_name, "D/W");

    let mut expected = TraktorState::default();
    expected.patch_knob(
        1,
        0,
        Some(0.75f64.to_bits()),
        Some("75%".to_string()),
        Some("D/W".to_string()),
    );
    assert_eq!(state, expected);
    for (u, unit) in state.fx_units().iter().enumerate() {
        for (k, knob) in unit.knobs().iter().enumerate() {
            if (u, k) != (1, 0) {
                assert_eq!(*knob, initial_knob(k as u8));
            }
        }
    }
}

#[test]
fn each_event_changes_what_the_table_says() {
    let mut state = TraktorState::default();

    receive_fx_event(
        &mut state,
        1,
        FxEvent::Type(param("app.traktor.fx.1.type", 0.0, "Group")),
    );
    assert_eq!(state.fx_units()[0].unit_type(), FxUnitType::Group);
    assert_eq!(state.fx_units()[1].unit_type(), FxUnitType::UNK);

    receive_fx_event(
        &mut state,
        4,
        FxEvent::Type(param("app.traktor.fx.4.type", 1.0, "Single")),
    );
    assert_eq!(state.fx_units()[3].unit_type(), FxUnitType::Single);
    receive_fx_event(
        &mut state,
        4,
        FxEvent::Type(param("app.traktor.fx.4.type", 2.0, "Pattern Player")),
    );
    assert_eq!(state.fx_units()[3].unit_type(), FxUnitType::UNK);

    receive_fx_event(
        &mut state,
        1,
        FxEvent::Select(param("app.traktor.fx.1.select.3", 20.0, "Auto Bouncer")),
    );
    assert_eq!(
        state.fx_units()[0].knobs()[3],
        Knob {
            id: 3,
            value: 0.5f64.to_bits(),
            value_description: "UNK".to_string(),
            fx_name: "Auto Bouncer".to_string(),
        }
    );

    receive_fx_event(
        &mut state,
        1,
        FxEvent::Knob(param("app.traktor.fx.1.knobs.3", 0.125, "float")),
    );
    assert_eq!(
        state.fx_units()[0].knobs()[3],
        Knob {
            id: 3,
            value: 0.125f64.to_bits(),
            value_description: "UNK".to_string(),
            fx_name: "Auto Bouncer".to_string(),
        }
    );

    receive_fx_event(
        &mut state,
        1,
        FxEvent::Name(name("app.traktor.fx.1.knobs.3.name", "LEN", "not this")),
    );
    assert_eq!(state.fx_units()[0].knobs()[3].fx_name, "LEN");
    assert_eq!(state.fx_units()[0].knobs()[3].value, 0.125f64.to_bits());

    receive_fx_event(
        &mut state,
        1,
        FxEvent::Param(param("app.traktor.fx.1.parameters.2", 1.0, "0")),
    );
    assert_eq!(
        state.fx_units()[0].knobs()[2],
        Knob {
            id: 2,
            value: 1.0f64.to_bits(),
            value_description: "UNK".to_string(),
            fx_name: "UNK".to_string(),
        }
    );

    assert_eq!(state.fx_units()[0].unit_type(), FxUnitType::Group);
    assert_eq!(state.fx_units()[0].knobs()[0], initial_knob(0));
    assert_eq!(state.fx_units()[0].knobs()[1], initial_knob(1));
    assert_eq!(state.fx_units()[1], FXUnit::new(2));
    assert_eq!(state.fx_units()[2], FXUnit::new(3));
}

#[test]
fn a_short_path_changes_no_knob() {
    let events = vec![
        FxEvent::Select(param("app.traktor.fx.1.select", 20.0, "Delay")),
        FxEvent::Knob(param("app.traktor.fx.1", 0.9, "float")),
        FxEvent::Name(name("", "LEN", "LEN")),
        FxEvent::Param(param("app", 0.1, "0")),
        FxEvent::Knob(param("app.traktor.fx.1.knobs.one", 0.9, "float")),
    ];
    for event in events {
        let mut state = TraktorState::default();
        receive_fx_event(&mut state, 3, event);
        assert_eq!(state, TraktorState::default());
    }

    let mut state = TraktorState::default();
    receive_fx_event(&mut state, 3, FxEvent::Type(param("fx.3.type", 0.0, "Single")));
    let mut expected = TraktorState::default();
    expected.set_unit_type(2, FxUnitType::Single);
    assert_eq!(state, expected);
    for unit in state.fx_units() {
        for (k, knob) in unit.knobs().iter().enumerate() {
            assert_eq!(*knob, initial_knob(k as u8));
        }
    }
}

#[test]
fn range_of_unit_and_knob() {
    let knob3 = stage_fx_event(FxEvent::Knob(param("a.b.c.d.e.3", 0.0, "")));
    let knob4 = stage_fx_event(FxEvent::Knob(param("a.b.c.d.e.4", 0.0, "")));
    let none = stage_fx_event(FxEvent::Knob(param("a.b.c", 0.0, "")));
    assert!(fx_change_in_range(1, &knob3));
    assert!(fx_change_in_range(4, &knob3));
    assert!(!fx_change_in_range(0, &knob3));
    assert!(!fx_change_in_range(5, &knob3));
    assert!(!fx_change_in_range(1, &knob4));
    assert!(fx_change_in_range(2, &none));
    assert!(!fx_change_in_range(0, &none));

    let mut state = TraktorState::default();
    apply_fx_change(&mut state, 4, knob3);
    assert_eq!(state.fx_units()[3].knobs()[3].value, 0.0f64.to_bits());
    apply_fx_change(&mut state, 4, FxChangeEvent::default());
    assert_eq!(state.fx_units()[3].knobs()[3].value, 0.0f64.to_bits());
}

#[test]
fn loading_replaces_the_whole_track() {
    let mut state = TraktorState::default();
    receive_deck_loaded_event(&mut state, "b", track("First", "9A"));
    let expected = DeckContent {
        title: "First".to_string(),
        file_path: "/music/First.flac".to_string(),
        artist: "Artist".to_string(),
        album: "Album".to_string(),
        genre: "Genre".to_string(),
        label: "Label".to_string(),
        key: "8A".to_string(),
        resulting_key: "9A".to_string(),
        length: 321.5f64.to_bits(),
    };
    assert_eq!(
        state.decks()[1],
        Deck { id: DeckID::B, content: Some(expected.clone()) }
    );
    assert_eq!(DeckContent::from(track("First", "9A")), expected);
    assert_eq!(state.decks()[0].content, None);
    assert_eq!(state.decks()[2].content, None);
    assert_eq!(state.decks()[3].content, None);
    assert_eq!(state.fx_units(), TraktorState::default().fx_units());

    receive_deck_loaded_event(&mut state, "B", track("Second", "1B"));
    assert_eq!(
        state.decks()[1].content,
        Some(DeckContent::from(track("Second", "1B")))
    );
}

#[test]
fn deck_letter_case_does_not_matter() {
    for (lower, upper, position) in [("a", "A", 0), ("b", "B", 1), ("c", "C", 2), ("d", "D", 3)] {
        let mut one = TraktorState::default();
        let mut other = TraktorState::default();
        receive_deck_loaded_event(&mut one, lower, track("T", "1A"));
        receive_deck_loaded_event(&mut other, upper, track("T", "1A"));
        assert_eq!(one, other);
        assert!(one.decks()[position].content.is_some());

        receive_deck_update_event(
            &mut one,
            lower,
            DeckUpdate::ResultingKey { resulting_key: "2A".to_string() },
        );
        receive_deck_update_event(
            &mut other,
            upper,
            DeckUpdate::ResultingKey { resulting_key: "2A".to_string() },
        );
        assert_eq!(one, other);
        assert_eq!(
            one.decks()[position].content.as_ref().unwrap().resulting_key,
            "2A"
        );
    }
}

#[test]
fn an_unknown_deck_changes_nothing() {
    for route in ["e", "E", "", "1", "xa", " a", "é"] {
        let mut state = TraktorState::default();
        receive_deck_loaded_event(&mut state, "a", track("T", "1A"));
        let before = state.clone();
        receive_deck_loaded_event(&mut state, route, track("Other", "5B"));
        assert_eq!(state, before);
        receive_deck_update_event(
            &mut state,
            route,
            DeckUpdate::ResultingKey { resulting_key: "2A".to_string() },
        );
        assert_eq!(state, before);
    }
}

#[test]
fn a_resulting_key_update_changes_one_field() {
    let mut state = TraktorState::default();
    receive_deck_loaded_event(&mut state, "c", track("Tune", "1A"));
    receive_deck_loaded_event(&mut state, "d", track("Other", "3A"));
    let before = state.clone();
    receive_deck_update_event(
        &mut state,
        "c",
        DeckUpdate::ResultingKey { resulting_key: "12B".to_string() },
    );
    let was = before.decks()[2].content.clone().unwrap();
    let now = state.decks()[2].content.clone().unwrap();
    assert_eq!(now.resulting_key, "12B");
    assert_eq!(now.title, was.title);
    assert_eq!(now.file_path, was.file_path);
    assert_eq!(now.artist, was.artist);
    assert_eq!(now.album, was.album);
    assert_eq!(now.genre, was.genre);
    assert_eq!(now.label, was.label);
    assert_eq!(now.key, was.key);
    assert_eq!(now.length, was.length);
    assert_eq!(
        now,
        DeckContent { resulting_key: "12B".to_string(), ..was }
    );
    assert_eq!(state.decks()[2].id, DeckID::C);
    assert_eq!(state.decks()[0], before.decks()[0]);
    assert_eq!(state.decks()[1], before.decks()[1]);
    assert_eq!(state.decks()[3], before.decks()[3]);
    assert_eq!(state.fx_units(), before.fx_units());
}

#[test]
fn other_updates_are_taken_and_ignored() {
    let updates = vec![
        DeckUpdate::IsPlaying {
            is_playing: true,
            elapsed_time: 1.5f64.to_bits(),
            next_cue_pos: 30.0f64.to_bits(),
        },
        DeckUpdate::IsSynced { is_synced: true },
        DeckUpdate::IsKeyLockOn { is_key_lock_on: false },
        DeckUpdate::Tempo { tempo: 1.02f64.to_bits() },
        DeckUpdate::ElapsedTime {
            elapsed_time: 2.0f64.to_bits(),
            next_cue_pos: 30.0f64.to_bits(),
        },
    ];
    let mut state = TraktorState::default();
    receive_deck_loaded_event(&mut state, "a", track("Tune", "1A"));
    let before = state.clone();
    for update in updates {
        receive_deck_update_event(&mut state, "a", update);
        assert_eq!(state, before);
    }
}

#[test]
fn a_resulting_key_for_an_empty_deck_is_dropped() {
    let mut state = TraktorState::default();
    receive_deck_update_event(
        &mut state,
        "a",
        DeckUpdate::ResultingKey { resulting_key: "2A".to_string() },
    );
    assert_eq!(state, TraktorState::default());
}

#[test]
fn readers_walk_units_then_knobs() {
    let mut state = TraktorState::default();
    for unit in 0..4usize {
        for slot in 0..4usize {
            state.patch_knob(
                unit,
                slot,
                Some(((unit * 4 + slot) as f64).to_bits()),
                None,
                Some(format!("fx{}{}", unit, slot)),
            );
        }
    }
    receive_deck_loaded_event(&mut state, "d", track("Tune", "1A"));

    let values: Vec<f64> = state
        .iter_knob_values()
        .iter()
        .map(|bits| f64::from_bits(*bits))
        .collect();
    let expected: Vec<f64> = (0..16).map(|i| i as f64).collect();
    assert_eq!(values, expected);

    let names: Vec<String> = state
        .iter_knob_fx_names()
        .iter()
        .map(|n| n.to_string())
        .collect();
    let expected: Vec<String> = (0..16).map(|i| format!("fx{}{}", i / 4, i % 4)).collect();
    assert_eq!(names, expected);

    let decks = state.iter_all_decks();
    assert_eq!(decks.len(), 4);
    for (i, deck) in decks.iter().enumerate() {
        assert_eq!(**deck, state.decks()[i]);
    }
    let contents = state.iter_deck_content();
    assert_eq!(contents.len(), 4);
    assert_eq!(*contents[0], None);
    assert_eq!(*contents[1], None);
    assert_eq!(*contents[2], None);
    assert_eq!(*contents[3], Some(DeckContent::from(track("Tune", "1A"))));
}

#[test]
fn a_snapshot_does_not_follow_the_state() {
    let mut state = TraktorState::default();
    let snapshot = state.clone();
    receive_fx_event(
        &mut state,
        1,
        FxEvent::Knob(param("app.traktor.fx.1.knobs.1", 0.0, "float")),
    );
    assert_eq!(snapshot, TraktorState::default());
    assert_ne!(snapshot, state);
}
