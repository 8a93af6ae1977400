use tmatebot::gatekeeper::gatekeep;
use tmatebot::registry::SessionRegistry;
use tmatebot::session::Connection;

fn gatekeeper_runtime() -> tokio::runtime::Runtime {
    tokio::runtime::Builder::new_multi_thread()
        .enable_all()
        .build()
        .unwrap()
}

async fn gatekeeper_session(creator: &str) -> Connection {
    let child = tokio::process::Command::new("sleep")
        .arg("30")
        .kill_on_drop(true)
        .spawn()
        .unwrap();
    let reader = tokio::spawn(async {});
    Connection::new(
        child,
        creator.to_string(),
        "<t:100:f>".to_string(),
        "<t:200:R>".to_string(),
        reader,
    )
}

#[test]
fn gatekeep_partial_failure_preserves_order() {
    let rt = gatekeeper_runtime();
    rt.block_on(async {
        let mut reg = SessionRegistry::new();
        reg.create(1, gatekeeper_session("alice").await).unwrap();
        reg.create(3, gatekeeper_session("bob").await).unwrap();
        // id 2 is absent
        let (report, closures) = gatekeep(&mut reg, &vec![1, 2, 3]);
        assert_eq!(
            report,
            "**`1`** was closed successfully.\n\
             **`2`** could not be closed: connection not found.\n\
             **`3`** was closed successfully.\n"
        );
        let closed: Vec<u64> = closures.iter().map(|t| t.0).collect();
        assert_eq!(closed, vec![1, 3]);
        assert!(reg.is_empty());
        for (_, delivered, join) in closures {
            assert!(delivered);
            join.await.unwrap();
        }
    });
}

#[test]
fn gatekeep_empty_request() {
    let mut reg = SessionRegistry::new();
    let (report, closures) = gatekeep(&mut reg, &Vec::new());
    assert_eq!(report, "");
    assert!(closures.is_empty());
}

#[test]
fn gatekeep_duplicate_id_closes_once() {
    let rt = gatekeeper_runtime();
    rt.block_on(async {
        let mut reg = SessionRegistry::new();
        reg.create(4, gatekeeper_session("carol").await).unwrap();
        let (report, closures) = gatekeep(&mut reg, &vec![4, 4]);
        assert_eq!(
            report,
            "**`4`** was closed successfully.\n\
             **`4`** could not be closed: connection not found.\n"
        );
        assert_eq!(closures.len(), 1);
        for (_, _, join) in closures {
            join.await.unwrap();
        }
    });
}
