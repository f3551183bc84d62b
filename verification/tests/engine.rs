use appointment_flow::calendar::Date;
use appointment_flow::dialogue::{DialogueState, DialogueStateStore};
use appointment_flow::domain::{
    CatalogFailure, CatalogIntegrityError, CatalogReadError, IntervalValue, MenuItem, MenuItemId,
    OrgId,
};
use appointment_flow::engine::{
    advance, handle_callback_query, menu_item_selected, organization, route, Reaction, Screen,
    DATE_WINDOW,
};
use appointment_flow::keyboard::{date_picker, make_menu, DateLabel};
use appointment_flow::token::{CallbackToken, DecodeError};

fn item(id: i64, title: &str) -> MenuItem {
    MenuItem {
        id: MenuItemId(id),
        title: title.to_string(),
        icon: None,
        price: IntervalValue::Value(100),
        duration: IntervalValue::Value(30),
    }
}

fn menu(id: i64) -> CallbackToken {
    CallbackToken::MenuSelected { menu_item_id: MenuItemId(id) }
}

fn day(y: i32, m: u32, d: u32) -> Date {
    Date::from_ymd(y, m, d).unwrap()
}

fn picked(y: i32, m: u32, d: u32) -> CallbackToken {
    CallbackToken::DateSelected { date: day(y, m, d) }
}

fn ids(list: &[i64]) -> Vec<MenuItemId> {
    list.iter().map(|id| MenuItemId(*id)).collect()
}

#[test]
fn menu_button_shows_title_duration_and_price() {
    let buttons = make_menu(&[
        MenuItem {
            id: MenuItemId(7),
            title: "Стрижка".to_string(),
            icon: None,
            price: IntervalValue::Interval(500, 900),
            duration: IntervalValue::Value(45),
        },
        MenuItem {
            id: MenuItemId(9),
            title: "Massage".to_string(),
            icon: Some("hands".to_string()),
            price: IntervalValue::Value(-1200),
            duration: IntervalValue::Interval(60, 90),
        },
    ]);
    assert_eq!(buttons.len(), 2);
    assert_eq!(buttons[0].text, "Стрижка: (45мин) 500-900руб");
    assert_eq!(buttons[1].text, "Massage: (60-90мин) -1200руб");
    assert_eq!(CallbackToken::decode(&buttons[0].data), Ok(menu(7)));
    assert_eq!(CallbackToken::decode(&buttons[1].data), Ok(menu(9)));
    assert_eq!(buttons[0].data, menu(7).encode());
    assert!(make_menu(&[]).is_empty());
}

#[test]
fn date_picker_offers_five_days_from_tomorrow() {
    let buttons = date_picker(day(2024, 1, 1), 0, 5);
    let days: Vec<Date> = buttons.iter().map(|b| b.date).collect();
    assert_eq!(
        days,
        vec![day(2024, 1, 2), day(2024, 1, 3), day(2024, 1, 4), day(2024, 1, 5), day(2024, 1, 6)]
    );
    let labels: Vec<DateLabel> = buttons.iter().map(|b| b.label).collect();
    assert_eq!(
        labels,
        vec![
            DateLabel::Tomorrow,
            DateLabel::DayAfterTomorrow,
            DateLabel::Full,
            DateLabel::Full,
            DateLabel::Full
        ]
    );
    for button in &buttons {
        assert_eq!(
            CallbackToken::decode(&button.data),
            Ok(CallbackToken::DateSelected { date: button.date })
        );
    }
}

#[test]
fn date_picker_labels_follow_the_distance_from_the_first_day() {
    let labels = |offset: usize| -> Vec<DateLabel> {
        date_picker(day(2024, 2, 27), offset, 3).iter().map(|b| b.label).collect()
    };
    assert_eq!(labels(0), vec![DateLabel::Tomorrow, DateLabel::DayAfterTomorrow, DateLabel::Full]);
    assert_eq!(labels(1), vec![DateLabel::DayAfterTomorrow, DateLabel::Full, DateLabel::Full]);
    assert_eq!(labels(2), vec![DateLabel::Full, DateLabel::Full, DateLabel::Full]);
    let days: Vec<Date> = date_picker(day(2024, 2, 27), 1, 3).iter().map(|b| b.date).collect();
    assert_eq!(days, vec![day(2024, 2, 29), day(2024, 3, 1), day(2024, 3, 2)]);
}

#[test]
fn date_picker_never_offers_the_first_day() {
    for window in 0..8 {
        let buttons = date_picker(day(2024, 12, 30), 0, window);
        assert_eq!(buttons.len(), window);
        assert!(buttons.iter().all(|b| b.date != day(2024, 12, 30)));
    }
}

#[test]
fn date_picker_ends_where_the_calendar_ends() {
    let buttons = date_picker(day(262142, 12, 29), 0, 5);
    let days: Vec<Date> = buttons.iter().map(|b| b.date).collect();
    assert_eq!(days, vec![day(262142, 12, 30), day(262142, 12, 31)]);
    assert!(date_picker(day(262142, 12, 31), 0, 5).is_empty());
    assert!(date_picker(day(262142, 12, 1), 40, 5).is_empty());
}

#[test]
fn date_picker_matches_chrono_iteration() {
    let start = chrono::NaiveDate::from_ymd_opt(2023, 12, 25).unwrap();
    for offset in 0..12usize {
        let theirs: Vec<String> =
            start.iter_days().skip(offset + 1).take(5).map(|d| d.to_string()).collect();
        let ours: Vec<String> = date_picker(day(2023, 12, 25), offset, 5)
            .iter()
            .map(|b| format!("{:04}-{:02}-{:02}", b.date.year(), b.date.month(), b.date.day()))
            .collect();
        assert_eq!(ours, theirs);
    }
}

#[test]
fn store_starts_every_conversation_at_start() {
    let mut store = DialogueStateStore::new();
    assert_eq!(store.get_or_default(1), DialogueState::Start);
    assert_eq!(DialogueState::default(), DialogueState::Start);
}

#[test]
fn store_remembers_the_last_write_of_each_conversation() {
    let mut store = DialogueStateStore::new();
    store.set(1, DialogueState::ReceivingMenu(ids(&[42])));
    store.set(2, DialogueState::ReceivingDate { order: ids(&[42, 7]) });
    store.set(1, DialogueState::ReceivingMenu(ids(&[42, 9])));
    assert_eq!(store.get_or_default(1), DialogueState::ReceivingMenu(ids(&[42, 9])));
    assert_eq!(store.get_or_default(2), DialogueState::ReceivingDate { order: ids(&[42, 7]) });
    assert_eq!(store.get_or_default(3), DialogueState::Start);
    assert_eq!(store.get_or_default(1), DialogueState::ReceivingMenu(ids(&[42, 9])));
}

#[test]
fn state_clone_is_equal() {
    for state in [
        DialogueState::Start,
        DialogueState::ReceivingMenu(ids(&[1, 2, 3])),
        DialogueState::ReceivingDate { order: ids(&[4]) },
        DialogueState::ReceivingDateAfter { order: ids(&[]) },
    ] {
        assert_eq!(state.clone(), state);
    }
}

#[test]
fn start_and_menu_selected_with_children_enters_submenu() {
    let mut store = DialogueStateStore::new();
    let reaction = handle_callback_query(&mut store, 5, Some(&menu(42).encode()));
    assert_eq!(reaction, Reaction::LookUpChildren { path: vec![], item: MenuItemId(42) });
    assert_eq!(store.get_or_default(5), DialogueState::Start);
    let screen = menu_item_selected(
        &mut store,
        5,
        vec![],
        MenuItemId(42),
        Ok(vec![item(7, "seven"), item(9, "nine")]),
        day(2024, 1, 1),
    )
    .unwrap();
    assert_eq!(store.get_or_default(5), DialogueState::ReceivingMenu(ids(&[42])));
    match screen {
        Screen::Menu(buttons) => {
            assert_eq!(buttons.len(), 2);
            assert_eq!(buttons[0].text, "seven: (30мин) 100руб");
            assert_eq!(buttons[1].text, "nine: (30мин) 100руб");
            assert_eq!(CallbackToken::decode(&buttons[0].data), Ok(menu(7)));
            assert_eq!(CallbackToken::decode(&buttons[1].data), Ok(menu(9)));
        }
        other => panic!("{:?}", other),
    }
}

#[test]
fn submenu_and_menu_selected_without_children_awaits_date() {
    let mut store = DialogueStateStore::new();
    store.set(5, DialogueState::ReceivingMenu(ids(&[42])));
    let reaction = handle_callback_query(&mut store, 5, Some(&menu(7).encode()));
    assert_eq!(reaction, Reaction::LookUpChildren { path: ids(&[42]), item: MenuItemId(7) });
    let screen =
        menu_item_selected(&mut store, 5, ids(&[42]), MenuItemId(7), Ok(vec![]), day(2024, 1, 1))
            .unwrap();
    assert_eq!(store.get_or_default(5), DialogueState::ReceivingDate { order: ids(&[42, 7]) });
    match screen {
        Screen::DatePicker(buttons) => {
            assert_eq!(buttons.len(), 5);
            assert_eq!(DATE_WINDOW, 5);
            assert_eq!(buttons[0].date, day(2024, 1, 2));
            assert_eq!(buttons[0].label, DateLabel::Tomorrow);
            assert_eq!(buttons[4].date, day(2024, 1, 6));
        }
        other => panic!("{:?}", other),
    }
}

#[test]
fn start_and_date_selected_is_a_violation() {
    let mut store = DialogueStateStore::new();
    let reaction = handle_callback_query(&mut store, 5, Some(&picked(2024, 1, 2).encode()));
    assert_eq!(reaction, Reaction::ProtocolViolation { state: DialogueState::Start });
    assert_eq!(store.get_or_default(5), DialogueState::Start);
}

#[test]
fn submenu_and_date_selected_is_a_violation() {
    let mut store = DialogueStateStore::new();
    store.set(5, DialogueState::ReceivingMenu(ids(&[42])));
    let reaction = advance(&mut store, 5, picked(2024, 1, 2));
    assert_eq!(
        reaction,
        Reaction::ProtocolViolation { state: DialogueState::ReceivingMenu(ids(&[42])) }
    );
    assert_eq!(store.get_or_default(5), DialogueState::ReceivingMenu(ids(&[42])));
}

#[test]
fn awaited_date_completes_the_order() {
    let mut store = DialogueStateStore::new();
    store.set(5, DialogueState::ReceivingDate { order: ids(&[42, 7]) });
    let reaction = advance(&mut store, 5, picked(2024, 1, 3));
    assert_eq!(reaction, Reaction::Finalize { order: ids(&[42, 7]), date: day(2024, 1, 3) });
    assert_eq!(store.get_or_default(5), DialogueState::Start);
}

#[test]
fn menu_selected_while_a_date_is_awaited_is_a_violation() {
    for state in [
        DialogueState::ReceivingDate { order: ids(&[42, 7]) },
        DialogueState::ReceivingDateAfter { order: ids(&[42, 7]) },
    ] {
        assert_eq!(
            route(state.clone(), menu(3)),
            Reaction::ProtocolViolation { state: state.clone() }
        );
    }
    assert_eq!(
        route(DialogueState::ReceivingDateAfter { order: ids(&[1]) }, picked(2024, 1, 3)),
        Reaction::ProtocolViolation { state: DialogueState::ReceivingDateAfter { order: ids(&[1]) } }
    );
}

#[test]
fn click_without_data_does_nothing() {
    let mut store = DialogueStateStore::new();
    store.set(5, DialogueState::ReceivingMenu(ids(&[42])));
    assert_eq!(handle_callback_query(&mut store, 5, None), Reaction::EmptyData);
    assert_eq!(store.get_or_default(5), DialogueState::ReceivingMenu(ids(&[42])));
}

#[test]
fn forged_data_never_reaches_the_conversation() {
    let mut store = DialogueStateStore::new();
    store.set(5, DialogueState::ReceivingMenu(ids(&[42])));
    assert_eq!(
        handle_callback_query(&mut store, 5, Some("not base58!")),
        Reaction::DecodeFailed(DecodeError::NotBase58)
    );
    assert_eq!(
        handle_callback_query(&mut store, 5, Some("3vQB7B6MrGQZaxCuFg4oh")),
        Reaction::DecodeFailed(DecodeError::MalformedPayload)
    );
    assert_eq!(store.get_or_default(5), DialogueState::ReceivingMenu(ids(&[42])));
}

#[test]
fn failed_lookup_changes_nothing() {
    let mut store = DialogueStateStore::new();
    store.set(5, DialogueState::ReceivingMenu(ids(&[42])));
    for failure in [
        CatalogFailure::Read(CatalogReadError),
        CatalogFailure::Integrity(CatalogIntegrityError),
    ] {
        let outcome = menu_item_selected(
            &mut store,
            5,
            ids(&[42]),
            MenuItemId(7),
            Err(failure),
            day(2024, 1, 1),
        );
        assert_eq!(outcome, Err(failure));
        assert_eq!(store.get_or_default(5), DialogueState::ReceivingMenu(ids(&[42])));
    }
}

#[test]
fn same_inputs_give_the_same_state_and_screen() {
    let run = || {
        let mut store = DialogueStateStore::new();
        store.set(1, DialogueState::ReceivingMenu(ids(&[42])));
        let reaction = handle_callback_query(&mut store, 1, Some(&menu(7).encode()));
        let screen = menu_item_selected(
            &mut store,
            1,
            ids(&[42]),
            MenuItemId(7),
            Ok(vec![item(1, "a"), item(2, "b")]),
            day(2024, 5, 5),
        );
        (reaction, screen, store.get_or_default(1))
    };
    assert_eq!(run(), run());
}

#[test]
fn conversations_do_not_touch_each_other() {
    let mut store = DialogueStateStore::new();
    store.set(1, DialogueState::ReceivingMenu(ids(&[42])));
    advance(&mut store, 2, menu(3));
    menu_item_selected(&mut store, 2, vec![], MenuItemId(3), Ok(vec![]), day(2024, 1, 1)).unwrap();
    assert_eq!(store.get_or_default(1), DialogueState::ReceivingMenu(ids(&[42])));
    assert_eq!(store.get_or_default(2), DialogueState::ReceivingDate { order: ids(&[3]) });
}

#[test]
fn organization_is_the_first() {
    assert_eq!(organization(), OrgId(0));
}
