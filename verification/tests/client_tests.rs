use nfp::client::{build_request, interpret_response, Command, UserOutcome};
use nfp::codec::{decode_request, encode_response};
use nfp::protocol::Verb;
use nfp::server::{dispatch, get_finish, put_after_create, put_after_write, Action, PathFacts, Step};

fn s(x: &str) -> String {
    x.to_string()
}

#[test]
fn build_request_forms() {
    assert_eq!(build_request(&Command::Cat { path: s("/a/b") }), s("GET /a/b"));
    assert_eq!(
        build_request(&Command::Echo { path: s("f"), data: s("hi") }),
        s("PUT f\nhi")
    );
    assert_eq!(build_request(&Command::Ls { path: Some(s("/d")) }), s("LIST /d"));
    assert_eq!(build_request(&Command::Ls { path: None }), s("LIST ."));
    assert_eq!(build_request(&Command::Rm { path: s("f") }), s("RM f"));
}

#[test]
fn rmr_sends_its_own_verb() {
    let buf = build_request(&Command::Rmr { path: s("d") });
    assert_eq!(buf, s("RMR d"));
    assert!(matches!(decode_request(&buf).unwrap().verb, Verb::Rmr));
}

#[test]
fn interpret_known_error_tags() {
    let cat = Command::Cat { path: s("f") };
    assert_eq!(
        interpret_response("ERR NO_SUCH_FILE\n", &cat),
        UserOutcome::Failure(s("given file does not exist"))
    );
    let echo = Command::Echo { path: s("f"), data: s("x") };
    assert_eq!(
        interpret_response("ERR FILE_EXISTS\n", &echo),
        UserOutcome::Failure(s("file already exists"))
    );
    let ls = Command::Ls { path: None };
    assert_eq!(
        interpret_response("ERR NO_SUCH_DIR\n", &ls),
        UserOutcome::Failure(s("given directory does not exist"))
    );
    let rm = Command::Rm { path: s("f") };
    assert_eq!(
        interpret_response("ERR COULDNT_REMOVE_FILE\n", &rm),
        UserOutcome::Failure(s("could not remove the file"))
    );
    let rmr = Command::Rmr { path: s("d") };
    assert_eq!(
        interpret_response("ERR COULDNT_REMOVE_DIR\n", &rmr),
        UserOutcome::Failure(s("could not remove directory"))
    );
}

#[test]
fn interpret_unknown_tag_is_not_sure() {
    let cat = Command::Cat { path: s("f") };
    assert_eq!(
        interpret_response("ERR SOMETHING_NEW\n", &cat),
        UserOutcome::Failure(s("not sure"))
    );
}

#[test]
fn interpret_err_without_tag_is_bad_response() {
    let cat = Command::Cat { path: s("f") };
    assert_eq!(
        interpret_response("ERR", &cat),
        UserOutcome::Failure(s("bad response from server"))
    );
}

#[test]
fn interpret_ok_without_body_for_cat_fails() {
    let cat = Command::Cat { path: s("f") };
    assert_eq!(
        interpret_response("OK FILE", &cat),
        UserOutcome::Failure(s("server didnt send the file back"))
    );
}

#[test]
fn interpret_unknown_outcome_word_is_bad_response() {
    // A garbled response is a decode failure for every command; it must
    // never pass as success.
    let cat = Command::Cat { path: s("f") };
    assert_eq!(
        interpret_response("XYZ whatever\nbody", &cat),
        UserOutcome::Failure(s("bad response from server"))
    );
    let rm = Command::Rm { path: s("f") };
    assert_eq!(
        interpret_response("garbage", &rm),
        UserOutcome::Failure(s("bad response from server"))
    );
    let echo = Command::Echo { path: s("f"), data: s("x") };
    assert_eq!(
        interpret_response("", &echo),
        UserOutcome::Failure(s("bad response from server"))
    );
}

#[test]
fn interpret_trims_framing_whitespace_from_tag() {
    let cat = Command::Cat { path: s("f") };
    assert_eq!(
        interpret_response("ERR IS_DIR\r\n", &cat),
        UserOutcome::Failure(s("given path is a directory"))
    );
}

#[test]
fn interpret_success_messages() {
    let rm = Command::Rm { path: s("f") };
    assert_eq!(
        interpret_response("OK REMOVED\n", &rm),
        UserOutcome::Success(s("File removed succesfully from the server"))
    );
    let rmr = Command::Rmr { path: s("d") };
    assert_eq!(
        interpret_response("OK REMOVED\n", &rmr),
        UserOutcome::Success(s("Directory removed succesfully from the server"))
    );
    let echo = Command::Echo { path: s("f"), data: s("x") };
    assert_eq!(
        interpret_response("OK PUT\n", &echo),
        UserOutcome::Success(s("File succesfully created on the server"))
    );
}

#[test]
fn put_then_get_round_trip_payload_exact() {
    // One full exchange pair against a one-file in-memory filesystem.
    let mut stored: Option<String> = None;

    // The client writes "hello" to p.
    let put_buf = build_request(&Command::Echo { path: s("p"), data: s("hello") });
    let put_req = decode_request(&put_buf).unwrap();
    let absent = PathFacts { exists: false, is_dir: false, is_file: false, canonical: None };
    let step = dispatch(&put_req, &absent, &None);
    assert!(matches!(step, Step::Act(Action::CreateNew(_))));
    let put_resp = match put_after_create(stored.is_none(), &put_req.body) {
        Step::Act(Action::WriteBody(data)) => {
            stored = Some(data);
            put_after_write(true)
        }
        Step::Reply(r) => r,
        other => panic!("unexpected step {:?}", other),
    };
    let echo = Command::Echo { path: s("p"), data: s("hello") };
    assert_eq!(
        interpret_response(&encode_response(&put_resp), &echo),
        UserOutcome::Success(s("File succesfully created on the server"))
    );

    // The client reads p back.
    let get_buf = build_request(&Command::Cat { path: s("p") });
    let get_req = decode_request(&get_buf).unwrap();
    let present = PathFacts { exists: true, is_dir: false, is_file: true, canonical: None };
    let step = dispatch(&get_req, &present, &None);
    let get_resp = match step {
        Step::Act(Action::ReadFile(p)) => {
            assert_eq!(p, s("p"));
            get_finish(stored.clone())
        }
        other => panic!("expected a read action, got {:?}", other),
    };
    let cat = Command::Cat { path: s("p") };
    assert_eq!(
        interpret_response(&encode_response(&get_resp), &cat),
        UserOutcome::Output(s("hello"))
    );
}

#[test]
fn sandboxed_cat_outside_root_denied_end_to_end() {
    // A server rooted at /tmp/sandbox receives `cat /etc/passwd`.
    let buf = build_request(&Command::Cat { path: s("/etc/passwd") });
    let req = decode_request(&buf).unwrap();
    let root = Some(vec![s("/"), s("tmp"), s("sandbox")]);
    let facts = PathFacts {
        exists: true,
        is_dir: false,
        is_file: true,
        canonical: Some(vec![s("/"), s("etc"), s("passwd")]),
    };
    let step = dispatch(&req, &facts, &root);
    let resp = match step {
        Step::Reply(r) => r,
        Step::Act(a) => panic!("expected a denial, got {:?}", a),
    };
    assert_eq!(resp.tag, s("PERMISSION_DENIED"));
    let outcome = interpret_response(&encode_response(&resp), &Command::Cat { path: s("/etc/passwd") });
    // The client reports the denial and exits non-zero on any failure.
    assert_eq!(outcome, UserOutcome::Failure(s("permission denied")));
}

#[test]
fn sandboxed_cat_on_directory_reports_is_dir() {
    let req = decode_request("GET /etc").unwrap();
    let root = Some(vec![s("/"), s("tmp"), s("sandbox")]);
    let facts = PathFacts {
        exists: true,
        is_dir: true,
        is_file: false,
        canonical: Some(vec![s("/"), s("etc")]),
    };
    let step = dispatch(&req, &facts, &root);
    let resp = match step {
        Step::Reply(r) => r,
        Step::Act(a) => panic!("expected a refusal, got {:?}", a),
    };
    let outcome = interpret_response(&encode_response(&resp), &Command::Cat { path: s("/etc") });
    assert_eq!(outcome, UserOutcome::Failure(s("given path is a directory")));
}
