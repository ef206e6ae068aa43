use std::collections::{BTreeMap, BTreeSet};

use file_transfer::buffer::collect_body;
use file_transfer::error::TransferError;
use file_transfer::operation::{select, Method, Operation};
use file_transfer::response::{Response, Status};
use file_transfer::transfer::{Action, Event, Outcome, Progress, Transfer};

type Files = BTreeMap<String, Vec<u8>>;

fn perform(files: &mut Files, action: Action<'_>) -> Event {
    match action {
        Action::Remove { name } => match files.remove(name) {
            Some(_) => Event::Done,
            None => Event::Failed,
        },
        Action::Read { name } => match files.get(name) {
            Some(content) => Event::Bytes(content.clone()),
            None => Event::Failed,
        },
        Action::Create { name } => {
            files.insert(name.to_string(), Vec::new());
            Event::Done
        }
        Action::CreateNew { name } => {
            if files.contains_key(name) {
                Event::Failed
            } else {
                files.insert(name.to_string(), Vec::new());
                Event::Done
            }
        }
        Action::Write { name, content } => {
            files.insert(name.to_string(), content.to_vec());
            Event::Done
        }
    }
}

fn run(files: &mut Files, operation: Operation) -> Outcome {
    let mut progress = Transfer::begin(operation);
    loop {
        match progress {
            Progress::Finished(outcome) => return outcome,
            Progress::Pending(transfer) => {
                let event = perform(files, transfer.action());
                progress = transfer.advance(event);
            }
        }
    }
}

fn request(files: &mut Files, method: Method, path: &str, body: &[u8]) -> Response {
    let chunks: Vec<Result<Vec<u8>, ()>> = body.chunks(4).map(|c| Ok(c.to_vec())).collect();
    match collect_body(&chunks) {
        Ok(content) => run(files, select(method, path, content)).response(),
        Err(error) => Outcome::Failed(error).response(),
    }
}

fn is_generated(prefix: &str, name: &str) -> bool {
    name.len() == prefix.len() + 7
        && name.starts_with(prefix)
        && name.ends_with(".txt")
        && name.as_bytes()[prefix.len()..prefix.len() + 3].iter().all(|b| b.is_ascii_digit())
}

#[test]
fn put_get_delete_get() {
    let mut files = Files::new();
    let put = request(&mut files, Method::Put, "/datafile.txt", b"File contents.");
    assert_eq!(put.status.code(), 200);
    assert!(put.body.is_empty());
    let get = request(&mut files, Method::Get, "/datafile.txt", b"");
    assert_eq!(get.status.code(), 200);
    assert!(get.text_plain);
    assert_eq!(get.body, b"File contents.".to_vec());
    let delete = request(&mut files, Method::Delete, "/datafile.txt", b"");
    assert_eq!(delete.status.code(), 200);
    assert!(delete.body.is_empty());
    let gone = request(&mut files, Method::Get, "/datafile.txt", b"");
    assert_eq!(gone.status.code(), 404);
    assert!(gone.body.is_empty());
}

#[test]
fn post_then_get_the_generated_name() {
    let mut files = Files::new();
    let post = request(&mut files, Method::Post, "/data", b"X");
    assert_eq!(post.status.code(), 200);
    assert!(post.text_plain);
    let name = String::from_utf8(post.body).unwrap();
    assert!(is_generated("data", &name), "{}", name);
    let get = request(&mut files, Method::Get, &format!("/{}", name), b"");
    assert_eq!(get.status.code(), 200);
    assert!(get.text_plain);
    assert_eq!(get.body, b"X".to_vec());
}

#[test]
fn two_segments_are_unmatched() {
    let mut files = Files::new();
    files.insert("a".to_string(), b"1".to_vec());
    files.insert("b".to_string(), b"2".to_vec());
    assert_eq!(select(Method::Get, "/a/b", Vec::new()), Operation::Unmatched);
    assert_eq!(run(&mut files, Operation::Unmatched), Outcome::Unmatched);
    let response = request(&mut files, Method::Get, "/a/b", b"");
    assert_eq!(response, Response { status: Status::NotFound, text_plain: false, body: Vec::new() });
    assert_eq!(response.status.code(), 404);
    assert_eq!(files.len(), 2);
}

#[test]
fn an_unknown_method_is_unmatched() {
    let mut files = Files::new();
    files.insert("a".to_string(), b"1".to_vec());
    let response = request(&mut files, Method::Other, "/a", b"");
    assert_eq!(response.status.code(), 404);
    assert_eq!(files.get("a"), Some(&b"1".to_vec()));
}

#[test]
fn what_is_stored_is_retrieved() {
    let contents: Vec<Vec<u8>> = vec![
        Vec::new(),
        b"File contents.".to_vec(),
        vec![0, 255, 10, 13, 0],
        (0..=255).collect(),
        vec![7; 10000],
    ];
    let mut files = Files::new();
    for content in contents {
        let stored = run(
            &mut files,
            Operation::StoreAt { name: "n".to_string(), content: content.clone() },
        );
        assert_eq!(stored, Outcome::Stored);
        let retrieved = run(&mut files, Operation::Retrieve { name: "n".to_string() });
        assert_eq!(retrieved, Outcome::Retrieved(content));
    }
}

#[test]
fn storing_replaces_what_was_there() {
    let mut files = Files::new();
    assert_eq!(request(&mut files, Method::Put, "/n", b"a long first content").status.code(), 200);
    assert_eq!(request(&mut files, Method::Put, "/n", b"short").status.code(), 200);
    assert_eq!(request(&mut files, Method::Get, "/n", b"").body, b"short".to_vec());
    assert_eq!(files.len(), 1);
}

#[test]
fn what_is_deleted_is_not_found() {
    let mut files = Files::new();
    for name in ["datafile.txt", "absent", ""] {
        if name != "absent" {
            files.insert(name.to_string(), b"x".to_vec());
        }
        let deleted = run(&mut files, Operation::Delete { name: name.to_string() });
        if name == "absent" {
            assert_eq!(deleted, Outcome::Failed(TransferError::NotFound));
        } else {
            assert_eq!(deleted, Outcome::Deleted);
        }
        let retrieved = run(&mut files, Operation::Retrieve { name: name.to_string() });
        assert_eq!(retrieved, Outcome::Failed(TransferError::NotFound));
        assert_eq!(retrieved.response().status.code(), 404);
    }
}

#[test]
fn deleting_what_is_absent_is_not_found() {
    let mut files = Files::new();
    let response = request(&mut files, Method::Delete, "/datafile.txt", b"");
    assert_eq!(response, Response { status: Status::NotFound, text_plain: false, body: Vec::new() });
}

#[test]
fn a_generated_name_has_its_shape_and_holds_the_content() {
    let mut files = Files::new();
    for i in 0..200u32 {
        let content = i.to_string().into_bytes();
        let stored = run(
            &mut files,
            Operation::StoreGenerated { prefix: "p".to_string(), content: content.clone() },
        );
        match stored {
            Outcome::StoredAs(name) => {
                assert!(is_generated("p", &name), "{}", name);
                let retrieved = run(&mut files, Operation::Retrieve { name });
                assert_eq!(retrieved, Outcome::Retrieved(content));
            }
            Outcome::Failed(error) => assert_eq!(error, TransferError::ExhaustedRetries),
            other => panic!("unexpected outcome: {:?}", other),
        }
    }
}

#[test]
fn requests_at_the_same_time_never_share_a_name() {
    let mut files = Files::new();
    files.insert("p000.txt".to_string(), b"before".to_vec());
    files.insert("p500.txt".to_string(), b"before".to_vec());
    let mut flights: Vec<(usize, Option<Transfer>)> = Vec::new();
    let mut answers: Vec<(usize, String)> = Vec::new();
    let mut failures = 0;
    let launched = 1200;
    for i in 0..launched {
        let operation = Operation::StoreGenerated {
            prefix: "p".to_string(),
            content: i.to_string().into_bytes(),
        };
        match Transfer::begin(operation) {
            Progress::Pending(transfer) => flights.push((i, Some(transfer))),
            Progress::Finished(outcome) => panic!("ended early: {:?}", outcome),
        }
    }
    let mut round = 0;
    while !flights.is_empty() {
        round += 1;
        let mut still = Vec::new();
        for (k, (i, slot)) in flights.into_iter().enumerate() {
            let transfer = slot.unwrap();
            if (k + round) % 3 == 0 {
                still.push((i, Some(transfer)));
                continue;
            }
            let event = perform(&mut files, transfer.action());
            match transfer.advance(event) {
                Progress::Pending(next) => still.push((i, Some(next))),
                Progress::Finished(Outcome::StoredAs(name)) => answers.push((i, name)),
                Progress::Finished(Outcome::Failed(error)) => {
                    assert_eq!(error, TransferError::ExhaustedRetries);
                    failures += 1;
                }
                Progress::Finished(other) => panic!("unexpected outcome: {:?}", other),
            }
        }
        flights = still;
    }
    assert_eq!(answers.len() + failures, launched);
    assert!(answers.len() <= 998);
    let names: BTreeSet<&String> = answers.iter().map(|(_, name)| name).collect();
    assert_eq!(names.len(), answers.len());
    for (i, name) in &answers {
        assert!(is_generated("p", name));
        assert_eq!(files.get(name), Some(&i.to_string().into_bytes()));
    }
    assert_eq!(files.get("p000.txt"), Some(&b"before".to_vec()));
    assert_eq!(files.get("p500.txt"), Some(&b"before".to_vec()));
    assert_eq!(files.len(), answers.len() + 2);
}

#[test]
fn a_name_that_always_exists_exhausts_the_attempts() {
    let mut files = Files::new();
    files.insert("data042.txt".to_string(), b"kept".to_vec());
    let operation =
        Operation::StoreGenerated { prefix: "data".to_string(), content: b"X".to_vec() };
    let mut progress = Transfer::begin_with(operation, 42);
    let mut attempts = 0;
    let outcome = loop {
        match progress {
            Progress::Finished(outcome) => break outcome,
            Progress::Pending(transfer) => {
                assert_eq!(transfer.action(), Action::CreateNew { name: "data042.txt" });
                attempts += 1;
                let event = perform(&mut files, transfer.action());
                progress = transfer.advance_with(event, 42);
            }
        }
    };
    assert_eq!(attempts, 100);
    assert_eq!(outcome, Outcome::Failed(TransferError::ExhaustedRetries));
    assert_eq!(outcome.response().status.code(), 404);
    assert_eq!(files.len(), 1);
    assert_eq!(files.get("data042.txt"), Some(&b"kept".to_vec()));
}

#[test]
fn a_full_namespace_exhausts_the_attempts() {
    let mut files = Files::new();
    for n in 0..1000 {
        files.insert(format!("data{:03}.txt", n), Vec::new());
    }
    let response = request(&mut files, Method::Post, "/data", b"X");
    assert_eq!(response.status.code(), 404);
    assert!(response.body.is_empty());
    assert_eq!(files.len(), 1000);
}

#[test]
fn a_broken_upload_stores_nothing() {
    let mut files = Files::new();
    let chunks: Vec<Result<Vec<u8>, ()>> = vec![Ok(b"File ".to_vec()), Err(())];
    let response = match collect_body(&chunks) {
        Ok(content) => run(&mut files, select(Method::Put, "/datafile.txt", content)).response(),
        Err(error) => {
            assert_eq!(error, TransferError::StreamError);
            Outcome::Failed(error).response()
        }
    };
    assert_eq!(response.status.code(), 404);
    assert!(files.is_empty());
}
