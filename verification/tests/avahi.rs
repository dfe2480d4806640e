use dispatch::avahi::{service_name, service_name_with, AvahiService};
use dispatch::term::{on_terminal_event, TermAction, TermEvent};

#[test]
fn service_record() {
    let s = AvahiService::new("/org/freedesktop/Avahi/EntryGroup1".to_string());
    assert_eq!(s.entry_group(), "/org/freedesktop/Avahi/EntryGroup1");
    let r = s.register("dispatch-a3f2", 8080, &[("version", "1.0"), ("path", "/dispatch")]);
    assert_eq!(r.interface, -1);
    assert_eq!(r.protocol, 0);
    assert_eq!(r.flags, 0);
    assert_eq!(r.name, "dispatch-a3f2");
    assert_eq!(r.service_type, "_dispatch._tcp");
    assert_eq!(r.domain, "");
    assert_eq!(r.host, "");
    assert_eq!(r.port, 8080);
    assert_eq!(r.txt, vec![b"version=1.0".to_vec(), b"path=/dispatch".to_vec()]);
}

#[test]
fn service_names() {
    assert_eq!(service_name_with(Some(0xa3f2), None), "dispatch-0000a3f2");
    assert_eq!(service_name_with(Some(0xdeadbeef), None), "dispatch-deadbeef");
    assert_eq!(service_name_with(None, Some("mytest")), "dispatch-mytest");
    assert_eq!(service_name_with(None, None), "dispatch");
    assert_eq!(service_name(false, Some("x")).unwrap(), "dispatch-x");
    assert_eq!(service_name(false, None).unwrap(), "dispatch");
    let r = service_name(true, None).unwrap();
    assert_eq!(r.len(), "dispatch-".len() + 8);
    assert!(r.starts_with("dispatch-"));
    assert!(r["dispatch-".len()..].chars().all(|c| c.is_ascii_hexdigit() && !c.is_ascii_uppercase()));
}

#[test]
fn terminal_events() {
    assert_eq!(on_terminal_event(TermEvent::Key { ch: Some('q'), press: true }), TermAction::Quit);
    assert_eq!(on_terminal_event(TermEvent::Key { ch: Some('q'), press: false }), TermAction::Ignore);
    assert_eq!(on_terminal_event(TermEvent::Key { ch: Some('x'), press: true }), TermAction::Ignore);
    assert_eq!(on_terminal_event(TermEvent::Key { ch: None, press: true }), TermAction::Ignore);
    assert_eq!(on_terminal_event(TermEvent::Resize), TermAction::Render);
    assert_eq!(on_terminal_event(TermEvent::Other), TermAction::Ignore);
}
