use hotreload::client::{connect_step, ConnectAction, HotReloadMsg};
use hotreload::console::{hot_reload_label, index_template_label, profile_label, url_rewrite_label};
use hotreload::config::ServerConfig;
use hotreload::events::{
    set_event_converter, with_event_converter, ConverterHandle, EventData, HtmlEventConverter,
    Modifiers, PlatformEventData, SerializedKeyboardData, SerializedMouseData,
};
use hotreload::transit::{event_kind_for_name, ElementId, EventKind, HtmlEvent,
    SerializedHtmlEventConverter};

fn mouse_data() -> SerializedMouseData {
    SerializedMouseData {
        alt_key: false,
        button: 0,
        buttons: 1,
        client_x: 10,
        client_y: 20,
        ctrl_key: true,
        meta_key: false,
        offset_x: 1,
        offset_y: 2,
        page_x: 30,
        page_y: 40,
        screen_x: 50,
        screen_y: 60,
        shift_key: false,
    }
}

fn keyboard_data() -> SerializedKeyboardData {
    SerializedKeyboardData {
        key: "a".to_string(),
        code: "KeyA".to_string(),
        location: 0,
        repeat: false,
        alt_key: false,
        ctrl_key: false,
        meta_key: false,
        shift_key: true,
    }
}

#[test]
fn event_names_map_to_their_kinds() {
    assert_eq!(event_kind_for_name(&"click".to_string()), Some(EventKind::Mouse));
    assert_eq!(event_kind_for_name(&"mouseenter".to_string()), Some(EventKind::Mouse));
    assert_eq!(event_kind_for_name(&"keyup".to_string()), Some(EventKind::Keyboard));
    assert_eq!(event_kind_for_name(&"pointermove".to_string()), Some(EventKind::Pointer));
    assert_eq!(event_kind_for_name(&"lostpointercapture".to_string()), Some(EventKind::Pointer));
}

#[test]
fn unknown_event_name_is_rejected() {
    assert_eq!(event_kind_for_name(&"scroll".to_string()), None);
    assert_eq!(event_kind_for_name(&"".to_string()), None);
}

#[test]
fn downcast_reads_only_the_right_kind() {
    let pe = PlatformEventData::new(EventData::Mouse(mouse_data()));
    assert!(pe.downcast::<SerializedMouseData>().is_some());
    assert!(pe.downcast::<SerializedKeyboardData>().is_none());
    assert_eq!(pe.downcast::<SerializedMouseData>().unwrap().client_x, 10);
}

#[test]
fn downcast_mut_writes_through() {
    let mut pe = PlatformEventData::new(EventData::Mouse(mouse_data()));
    pe.downcast_mut::<SerializedMouseData>().unwrap().client_x = 99;
    assert_eq!(pe.downcast::<SerializedMouseData>().unwrap().client_x, 99);
    assert!(pe.downcast_mut::<SerializedKeyboardData>().is_none());
}

#[test]
fn into_inner_takes_the_payload() {
    let pe = PlatformEventData::new(EventData::Keyboard(keyboard_data()));
    let taken = pe.into_inner::<SerializedKeyboardData>().unwrap();
    assert_eq!(taken.code, "KeyA".to_string());
}

#[test]
fn serialized_converter_converts_each_kind() {
    let conv = SerializedHtmlEventConverter;
    let pe = PlatformEventData::new(EventData::Mouse(mouse_data()));
    let m = conv.convert_mouse_data(&pe);
    assert_eq!(m.coordinates.client_x, 10);
    assert_eq!(m.coordinates.page_y, 40);
    assert_eq!(m.trigger_button, 0);
    assert_eq!(m.held_buttons, 1);
    assert_eq!(m.modifiers, Modifiers { alt: false, ctrl: true, meta: false, shift: false });

    let pe = PlatformEventData::new(EventData::Keyboard(keyboard_data()));
    let k = conv.convert_keyboard_data(&pe);
    assert_eq!(k.key, "a".to_string());
    assert_eq!(k.code, "KeyA".to_string());
    assert!(!k.is_auto_repeating);
    assert!(k.modifiers.shift);
}

#[test]
fn converter_handle_is_set_once_and_used() {
    let mut handle: ConverterHandle<SerializedHtmlEventConverter> = ConverterHandle::empty();
    set_event_converter(&mut handle, SerializedHtmlEventConverter);
    let pe = PlatformEventData::new(EventData::Mouse(mouse_data()));
    let m = with_event_converter(&handle, |c| c.convert_mouse_data(&pe));
    assert_eq!(m.coordinates.screen_x, 50);
}

#[test]
fn html_event_reports_bubbling() {
    let ev = HtmlEvent {
        element: ElementId(3),
        name: "click".to_string(),
        bubbles: true,
        data: EventData::Mouse(mouse_data()),
    };
    assert!(ev.bubbles());
    assert_eq!(ev.element, ElementId(3));
}

#[test]
fn event_data_wraps_into_platform_event() {
    let data = EventData::Mouse(mouse_data());
    let pe = data.into_any();
    assert!(pe.downcast::<SerializedMouseData>().is_some());
}

#[test]
fn connect_step_decides_each_read() {
    assert_eq!(connect_step(false, false, None), ConnectAction::Stop);
    assert_eq!(connect_step(false, true, None), ConnectAction::Skip);
    assert_eq!(connect_step(true, false, None), ConnectAction::Skip);
    match connect_step(true, false, Some(HotReloadMsg::Shutdown)) {
        ConnectAction::Deliver(HotReloadMsg::Shutdown) => {},
        other => panic!("expected delivery, got {:?}", other),
    }
}

#[test]
fn console_labels_follow_configuration() {
    let config = ServerConfig {
        crate_dir: b"/proj".to_vec(),
        out_dir: b"dist".to_vec(),
        watch_paths: vec![],
        hot_reload: true,
        release: false,
        custom_profile: None,
        reload_html: false,
        index_on_404: true,
    };
    assert_eq!(profile_label(&config), "Debug".to_string());
    assert_eq!(hot_reload_label(&config), "RSX".to_string());
    assert_eq!(url_rewrite_label(&config), "True".to_string());
    assert_eq!(index_template_label(false), "Default".to_string());
    assert_eq!(index_template_label(true), "Custom [index.html]".to_string());

    let config = ServerConfig {
        release: true,
        hot_reload: false,
        index_on_404: false,
        custom_profile: Some("profiling".to_string()),
        ..config
    };
    assert_eq!(profile_label(&config), "profiling".to_string());
    assert_eq!(hot_reload_label(&config), "Normal".to_string());
    assert_eq!(url_rewrite_label(&config), "False".to_string());
}
