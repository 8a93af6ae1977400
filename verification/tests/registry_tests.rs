use tmatebot::registry::{teardown, SessionRegistry};
use tmatebot::session::Connection;

fn runtime() -> tokio::runtime::Runtime {
    tokio::runtime::Builder::new_multi_thread()
        .enable_all()
        .build()
        .unwrap()
}

async fn sample_session(creator: &str) -> Connection {
    let child = tokio::process::Command::new("sleep")
        .arg("30")
        .kill_on_drop(true)
        .spawn()
        .unwrap();
    let reader = tokio::spawn(async {});
    Connection::new(
        child,
        creator.to_string(),
        "<t:100:f>".to_string(),
        "<t:200:R>".to_string(),
        reader,
    )
}

#[test]
fn at_most_one_session_per_id() {
    let rt = runtime();
    rt.block_on(async {
        let mut reg = SessionRegistry::new();
        let first = sample_session("alice").await;
        let second = sample_session("bob").await;
        assert!(reg.create(7, first).is_ok());
        // the second attempt for the same id fails and hands the
        // session back; the registry still holds exactly one entry
        let rejected = reg.create(7, second);
        let rejected = match rejected {
            Ok(()) => panic!("duplicate id accepted"),
            Err(c) => c,
        };
        assert_eq!(rejected.creator, "bob");
        assert_eq!(reg.len(), 1);
        let snap = reg.snapshot();
        assert_eq!(snap.len(), 1);
        assert_eq!(snap[0].1, "alice");
        // tidy up
        let (_, join) = rejected.close();
        join.await.unwrap();
        teardown(&mut reg, 7).unwrap().1.await.unwrap();
    });
}

#[test]
fn idempotent_close() {
    let rt = runtime();
    rt.block_on(async {
        let mut reg = SessionRegistry::new();
        let s = sample_session("alice").await;
        reg.create(3, s).unwrap();
        let first = teardown(&mut reg, 3);
        let (delivered, join) = first.expect("first close must find the session");
        assert!(delivered);
        join.await.unwrap();
        // the second close is a silent no-op
        assert!(teardown(&mut reg, 3).is_none());
        assert!(reg.is_empty());
    });
}

#[test]
fn single_teardown_under_race() {
    // End-of-stream and deadline expiry landing in the same iteration
    // window both request teardown; serialized on the registry, exactly
    // one obtains the session and the other finds the id absent.
    let rt = runtime();
    rt.block_on(async {
        let mut reg = SessionRegistry::new();
        let s = sample_session("alice").await;
        reg.create(11, s).unwrap();
        let eof_path = teardown(&mut reg, 11);
        let deadline_path = teardown(&mut reg, 11);
        assert!(eof_path.is_some());
        assert!(deadline_path.is_none());
        assert_eq!(reg.len(), 0);
        eof_path.unwrap().1.await.unwrap();
    });
}

#[test]
fn snapshot_keeps_creation_order() {
    let rt = runtime();
    rt.block_on(async {
        let mut reg = SessionRegistry::new();
        assert!(reg.is_empty());
        for (id, name) in [(5u64, "carol"), (2, "dave"), (9, "erin")] {
            let s = sample_session(name).await;
            reg.create(id, s).unwrap();
        }
        let snap = reg.snapshot();
        let ids: Vec<u64> = snap.iter().map(|e| e.0).collect();
        let creators: Vec<String> = snap.iter().map(|e| e.1.clone()).collect();
        assert_eq!(ids, vec![5, 2, 9]);
        assert_eq!(creators, vec!["carol", "dave", "erin"]);
        assert_eq!(snap[0].2, "<t:100:f>");
        assert_eq!(snap[0].3, "<t:200:R>");
        for id in [5, 2, 9] {
            teardown(&mut reg, id).unwrap().1.await.unwrap();
        }
        assert!(reg.is_empty());
    });
}

#[test]
fn removal_keeps_other_sessions() {
    let rt = runtime();
    rt.block_on(async {
        let mut reg = SessionRegistry::new();
        for id in [1u64, 2, 3] {
            let s = sample_session("frank").await;
            reg.create(id, s).unwrap();
        }
        teardown(&mut reg, 2).unwrap().1.await.unwrap();
        let ids: Vec<u64> = reg.snapshot().iter().map(|e| e.0).collect();
        assert_eq!(ids, vec![1, 3]);
        for id in [1u64, 3] {
            teardown(&mut reg, id).unwrap().1.await.unwrap();
        }
    });
}
