use tmatebot::listing::{list_report, menu};
use tmatebot::registry::{teardown, SessionRegistry};
use tmatebot::session::Connection;
use tmatebot::text::{
    deadline_offset_secs, expiry_timestamp, format_list, full_time_markup, relative_time_markup,
    u64_to_string,
};

#[test]
fn decimal_rendering() {
    assert_eq!(u64_to_string(0), "0");
    assert_eq!(u64_to_string(7), "7");
    assert_eq!(u64_to_string(105), "105");
    assert_eq!(u64_to_string(18446744073709551615), "18446744073709551615");
}

#[test]
fn list_formatting() {
    let items = vec!["`help`".to_string(), "`ping`".to_string()];
    assert_eq!(
        format_list("available commands", &items),
        "List of available commands:\n- `help`\n- `ping`\n"
    );
    let none: Vec<String> = Vec::new();
    assert_eq!(format_list("nothing", &none), "List of nothing:\n");
}

#[test]
fn time_markup() {
    assert_eq!(relative_time_markup(42), "<t:42:R>");
    assert_eq!(full_time_markup(1700000000), "<t:1700000000:f>");
}

#[test]
fn deadline_arithmetic() {
    assert_eq!(expiry_timestamp(1000, 60), 1060);
    assert_eq!(deadline_offset_secs(60), 59);
    assert_eq!(deadline_offset_secs(1), 0);
}

fn text_runtime() -> tokio::runtime::Runtime {
    tokio::runtime::Builder::new_multi_thread()
        .enable_all()
        .build()
        .unwrap()
}

async fn text_session(creator: &str) -> Connection {
    let child = tokio::process::Command::new("sleep")
        .arg("30")
        .kill_on_drop(true)
        .spawn()
        .unwrap();
    let reader = tokio::spawn(async {});
    Connection::new(
        child,
        creator.to_string(),
        "<t:5:f>".to_string(),
        "<t:9:R>".to_string(),
        reader,
    )
}

#[test]
fn menu_with_no_sessions() {
    let reg = SessionRegistry::new();
    let m = menu(&reg);
    assert_eq!(m.custom_id, "close via menu");
    assert!(m.disabled);
    assert_eq!(m.placeholder, "No connections left to close");
    assert_eq!(m.options.len(), 1);
    assert_eq!(m.options[0].label, "You're not supposed to read this");
    assert_eq!(m.options[0].value, "lmao");
    assert!(m.options[0].description.is_none());
}

#[test]
fn menu_lists_sessions_in_order() {
    let rt = text_runtime();
    rt.block_on(async {
        let mut reg = SessionRegistry::new();
        reg.create(12, text_session("alice").await).unwrap();
        reg.create(8, text_session("bob").await).unwrap();
        let m = menu(&reg);
        assert!(!m.disabled);
        assert_eq!(m.placeholder, "Select connections to close");
        assert_eq!(m.min_values, 1);
        assert_eq!(m.max_values, 2);
        assert_eq!(m.options.len(), 2);
        assert_eq!(m.options[0].label, "12");
        assert_eq!(m.options[0].value, "12");
        assert_eq!(
            m.options[0].description.as_deref(),
            Some("Created by alice")
        );
        assert_eq!(m.options[1].label, "8");
        assert_eq!(m.options[1].description.as_deref(), Some("Created by bob"));
        for id in [12, 8] {
            teardown(&mut reg, id).unwrap().1.await.unwrap();
        }
    });
}

#[test]
fn established_connections_listing() {
    let rt = text_runtime();
    rt.block_on(async {
        let mut reg = SessionRegistry::new();
        reg.create(7, text_session("alice").await).unwrap();
        let s = list_report(&reg);
        assert_eq!(
            s,
            "List of established connections:\n\
             - **`7`**: created <t:5:f> by `alice`, expires <t:9:R>\n"
        );
        teardown(&mut reg, 7).unwrap().1.await.unwrap();
    });
}
