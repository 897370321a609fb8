use std::collections::HashMap;

use nfp::codec::{decode_request, encode_response};
use nfp::protocol::{Request, Response, Verb};
use nfp::server::{
    dispatch, get_finish, list_finish, malformed_response, put_after_create, put_after_write,
    rm_finish, rmr_finish, Action, PathFacts, Step,
};

fn s(x: &str) -> String {
    x.to_string()
}

fn comps(parts: &[&str]) -> Option<Vec<String>> {
    Some(parts.iter().map(|p| p.to_string()).collect())
}

fn req(verb: Verb, args: &[&str], body: Option<&str>) -> Request {
    Request {
        verb,
        args: args.iter().map(|a| a.to_string()).collect(),
        body: body.map(|b| b.to_string()),
    }
}

fn absent_facts() -> PathFacts {
    PathFacts { exists: false, is_dir: false, is_file: false, canonical: None }
}

fn file_facts(canonical: Option<Vec<String>>) -> PathFacts {
    PathFacts { exists: true, is_dir: false, is_file: true, canonical }
}

fn dir_facts(canonical: Option<Vec<String>>) -> PathFacts {
    PathFacts { exists: true, is_dir: true, is_file: false, canonical }
}

fn expect_err(step: Step, tag: &str) {
    match step {
        Step::Reply(r) => {
            assert!(!r.ok);
            assert_eq!(r.tag, s(tag));
            assert_eq!(r.payload, None);
        }
        Step::Act(a) => panic!("expected an error reply, got action {:?}", a),
    }
}

#[test]
fn empty_args_refused_for_every_verb() {
    let verbs = vec![Verb::Get, Verb::Put, Verb::List, Verb::Rm, Verb::Rmr];
    for verb in verbs {
        let r = req(verb, &[], None);
        expect_err(dispatch(&r, &dir_facts(comps(&["/", "a"])), &None), "NOT_ENOUGH_ARGS");
        let _ = r;
    }
}

#[test]
fn get_on_directory_is_dir_even_outside_root() {
    let root = comps(&["/", "tmp", "sandbox"]);
    let facts = dir_facts(comps(&["/", "etc"]));
    let r = req(Verb::Get, &["/etc"], None);
    expect_err(dispatch(&r, &facts, &root), "IS_DIR");
}

#[test]
fn get_missing_file_no_such_file() {
    let r = req(Verb::Get, &["nope"], None);
    expect_err(dispatch(&r, &absent_facts(), &None), "NO_SUCH_FILE");
}

#[test]
fn outside_root_denied_for_every_verb() {
    let root = comps(&["/", "tmp", "sandbox"]);
    let outside = comps(&["/", "etc", "passwd"]);
    let file = file_facts(outside.clone());
    let dir = dir_facts(comps(&["/", "etc"]));
    expect_err(dispatch(&req(Verb::Get, &["/etc/passwd"], None), &file, &root), "PERMISSION_DENIED");
    expect_err(
        dispatch(&req(Verb::Put, &["/etc/new"], Some("x")), &absent_facts(), &root),
        "PERMISSION_DENIED",
    );
    expect_err(dispatch(&req(Verb::Rm, &["/etc/passwd"], None), &file, &root), "PERMISSION_DENIED");
    expect_err(dispatch(&req(Verb::Rmr, &["/etc"], None), &dir, &root), "PERMISSION_DENIED");
    expect_err(dispatch(&req(Verb::List, &["/etc"], None), &dir, &root), "PERMISSION_DENIED");
}

#[test]
fn sibling_string_prefix_is_denied() {
    let root = comps(&["/", "tmp", "sand"]);
    let facts = file_facts(comps(&["/", "tmp", "sandbox", "f"]));
    let r = req(Verb::Get, &["/tmp/sandbox/f"], None);
    expect_err(dispatch(&r, &facts, &root), "PERMISSION_DENIED");
}

#[test]
fn inside_root_is_allowed() {
    let root = comps(&["/", "tmp", "sand"]);
    let facts = file_facts(comps(&["/", "tmp", "sand", "f"]));
    let r = req(Verb::Get, &["/tmp/sand/f"], None);
    match dispatch(&r, &facts, &root) {
        Step::Act(Action::ReadFile(p)) => assert_eq!(p, s("/tmp/sand/f")),
        other => panic!("expected a read action, got {:?}", other),
    }
}

#[test]
fn uncanonicalizable_path_denied_under_root() {
    let root = comps(&["/", "tmp", "sandbox"]);
    let r = req(Verb::Put, &["new"], Some("x"));
    expect_err(dispatch(&r, &absent_facts(), &root), "PERMISSION_DENIED");
}

#[test]
fn put_with_body_but_no_path_still_refused() {
    let r = decode_request("PUT\nbody").unwrap();
    expect_err(dispatch(&r, &absent_facts(), &None), "NOT_ENOUGH_ARGS");
}

#[test]
fn root_directory_root_allows_everything_canonical() {
    let root = comps(&["/"]);
    let facts = file_facts(comps(&["/", "etc", "passwd"]));
    let r = req(Verb::Get, &["/etc/passwd"], None);
    match dispatch(&r, &facts, &root) {
        Step::Act(Action::ReadFile(p)) => assert_eq!(p, s("/etc/passwd")),
        other => panic!("expected a read action, got {:?}", other),
    }
}

#[test]
fn rmr_on_plain_file_not_dir() {
    let r = req(Verb::Rmr, &["f"], None);
    expect_err(dispatch(&r, &file_facts(None), &None), "NOT_DIR");
}

#[test]
fn rm_on_directory_is_dir() {
    let r = req(Verb::Rm, &["d"], None);
    expect_err(dispatch(&r, &dir_facts(None), &None), "IS_DIR");
}

#[test]
fn unknown_verb_no_such_command() {
    let r = decode_request("FOO bar").unwrap();
    expect_err(dispatch(&r, &absent_facts(), &None), "NO_SUCH_COMMAND");
}

#[test]
fn put_twice_keeps_first_content() {
    // A tiny in-memory stand-in for the filesystem: path to content.
    let mut fs: HashMap<String, String> = HashMap::new();
    let mut responses: Vec<Response> = Vec::new();
    for body in ["one", "two"] {
        let r = req(Verb::Put, &["p"], Some(body));
        let step = dispatch(&r, &absent_facts(), &None);
        let path = match step {
            Step::Act(Action::CreateNew(p)) => p,
            other => panic!("expected a create action, got {:?}", other),
        };
        let created = !fs.contains_key(&path);
        if created {
            fs.insert(path.clone(), String::new());
        }
        match put_after_create(created, &r.body) {
            Step::Act(Action::WriteBody(data)) => {
                fs.insert(path, data);
                responses.push(put_after_write(true));
            }
            Step::Reply(resp) => responses.push(resp),
            other => panic!("unexpected step {:?}", other),
        }
    }
    assert!(responses[0].ok);
    assert_eq!(responses[0].tag, s("PUT"));
    assert!(!responses[1].ok);
    assert_eq!(responses[1].tag, s("FILE_EXISTS"));
    assert_eq!(fs.get("p"), Some(&s("one")));
}

#[test]
fn put_without_body_missing_body_after_create() {
    let step = put_after_create(true, &None);
    match step {
        Step::Reply(r) => {
            assert!(!r.ok);
            assert_eq!(r.tag, s("MISSING_BODY"));
        }
        Step::Act(a) => panic!("expected an error reply, got {:?}", a),
    }
}

#[test]
fn write_failure_reply_ends_with_newline_when_encoded() {
    let resp = put_after_write(false);
    assert_eq!(encode_response(&resp), s("ERR COULDNT_WRITE_TO_FILE\n"));
}

#[test]
fn get_and_removal_finishers() {
    let ok = get_finish(Some(s("data")));
    assert_eq!(encode_response(&ok), s("OK FILE\ndata"));
    let bad = get_finish(None);
    assert_eq!(encode_response(&bad), s("ERR COULDNT_READ_FILE\n"));
    assert_eq!(encode_response(&rm_finish(true)), s("OK REMOVED\n"));
    assert_eq!(encode_response(&rm_finish(false)), s("ERR COULDNT_REMOVE_FILE\n"));
    assert_eq!(encode_response(&rmr_finish(true)), s("OK REMOVED\n"));
    assert_eq!(encode_response(&rmr_finish(false)), s("ERR COULDNT_REMOVE_DIR\n"));
}

#[test]
fn list_of_empty_directory_is_tag_line_alone() {
    let resp = list_finish(&Vec::new());
    assert!(resp.ok);
    assert_eq!(resp.payload, Some(s("")));
    assert_eq!(encode_response(&resp), s("OK DIR\n"));
}

#[test]
fn list_joins_entries_with_newlines() {
    let entries = vec![s("/d/a"), s("/d/b")];
    let resp = list_finish(&entries);
    assert_eq!(encode_response(&resp), s("OK DIR\n/d/a\n/d/b\n"));
}

#[test]
fn malformed_request_reply() {
    assert_eq!(encode_response(&malformed_response()), s("ERR BAD_REQ\n"));
}
