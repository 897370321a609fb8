use vstd::prelude::*;

use crate::guard::{guard_allows, guard_check};
use crate::protocol::{Request, Response, Verb};

verus! {

/// What the host filesystem says about the request's target path, gathered
/// before dispatch: whether it exists, its kind, and its canonical form as
/// path components (`None` when canonicalization failed).
#[derive(Debug, Clone)]
pub struct PathFacts {
    pub exists: bool,
    pub is_dir: bool,
    pub is_file: bool,
    pub canonical: Option<Vec<String>>,
}

/// A filesystem operation the caller must perform to complete a request.
/// Each variant carries the target path as given in the request; the write
/// step carries the body to write instead, since it applies to the file
/// just created.
#[derive(Debug, Clone, PartialEq)]
pub enum Action {
    ReadFile(String),
    CreateNew(String),
    WriteBody(String),
    RemoveFile(String),
    RemoveDirAll(String),
    ListDir(String),
}

/// The outcome of a dispatch step: either a finished reply, or a
/// filesystem action still to perform.
#[derive(Debug, Clone)]
pub enum Step {
    Reply(Response),
    Act(Action),
}

/// The mathematical counterpart of an `Action`, over character sequences.
pub enum ActionModel {
    ReadFile(Seq<char>),
    CreateNew(Seq<char>),
    WriteBody(Seq<char>),
    RemoveFile(Seq<char>),
    RemoveDirAll(Seq<char>),
    ListDir(Seq<char>),
}

/// The mathematical counterpart of a `Step`: every reply a dispatch step
/// produces by itself is an error with a tag and no payload.
pub enum StepModel {
    ErrorReply(Seq<char>),
    Action(ActionModel),
}

/// Relates an executable action to its model.
pub open spec fn action_matches(a: Action, m: ActionModel) -> bool {
    match (a, m) {
        (Action::ReadFile(p), ActionModel::ReadFile(q)) => p@ == q,
        (Action::CreateNew(p), ActionModel::CreateNew(q)) => p@ == q,
        (Action::WriteBody(p), ActionModel::WriteBody(q)) => p@ == q,
        (Action::RemoveFile(p), ActionModel::RemoveFile(q)) => p@ == q,
        (Action::RemoveDirAll(p), ActionModel::RemoveDirAll(q)) => p@ == q,
        (Action::ListDir(p), ActionModel::ListDir(q)) => p@ == q,
        _ => false,
    }
}

/// Relates an executable step to its model.
pub open spec fn step_matches(s: Step, m: StepModel) -> bool {
    match m {
        StepModel::ErrorReply(tag) => match s {
            Step::Reply(r) => r.ok == false && r.tag@ == tag && r.payload is None,
            Step::Act(_) => false,
        },
        StepModel::Action(am) => match s {
            Step::Act(a) => action_matches(a, am),
            Step::Reply(_) => false,
        },
    }
}

/// The dispatch table: which check fires first for each verb, and which
/// action follows when every check passes. The order is part of the
/// protocol: type and existence checks precede the sandbox check for GET,
/// RM, RMR and LIST, while PUT consults the sandbox right after the
/// argument check, before touching the filesystem.
pub open spec fn dispatch_model(req: Request, facts: PathFacts, root: Option<Vec<String>>) -> StepModel {
    let allowed = guard_allows(root, facts.canonical);
    match req.verb {
        Verb::Unknown(_) => StepModel::ErrorReply("NO_SUCH_COMMAND"@),
        Verb::Get => if req.args@.len() == 0 {
            StepModel::ErrorReply("NOT_ENOUGH_ARGS"@)
        } else if facts.is_dir {
            StepModel::ErrorReply("IS_DIR"@)
        } else if !facts.exists {
            StepModel::ErrorReply("NO_SUCH_FILE"@)
        } else if !allowed {
            StepModel::ErrorReply("PERMISSION_DENIED"@)
        } else {
            StepModel::Action(ActionModel::ReadFile(req.args@[0]@))
        },
        Verb::Put => if req.args@.len() == 0 {
            StepModel::ErrorReply("NOT_ENOUGH_ARGS"@)
        } else if !allowed {
            StepModel::ErrorReply("PERMISSION_DENIED"@)
        } else {
            StepModel::Action(ActionModel::CreateNew(req.args@[0]@))
        },
        Verb::Rm => if req.args@.len() == 0 {
            StepModel::ErrorReply("NOT_ENOUGH_ARGS"@)
        } else if !facts.exists {
            StepModel::ErrorReply("NO_SUCH_FILE"@)
        } else if facts.is_dir {
            StepModel::ErrorReply("IS_DIR"@)
        } else if !allowed {
            StepModel::ErrorReply("PERMISSION_DENIED"@)
        } else {
            StepModel::Action(ActionModel::RemoveFile(req.args@[0]@))
        },
        Verb::Rmr => if req.args@.len() == 0 {
            StepModel::ErrorReply("NOT_ENOUGH_ARGS"@)
        } else if !facts.exists {
            StepModel::ErrorReply("NO_SUCH_DIR"@)
        } else if facts.is_file {
            StepModel::ErrorReply("NOT_DIR"@)
        } else if !allowed {
            StepModel::ErrorReply("PERMISSION_DENIED"@)
        } else {
            StepModel::Action(ActionModel::RemoveDirAll(req.args@[0]@))
        },
        Verb::List => if req.args@.len() == 0 {
            StepModel::ErrorReply("NOT_ENOUGH_ARGS"@)
        } else if !facts.is_dir {
            StepModel::ErrorReply("NOT_DIR"@)
        } else if !facts.exists {
            StepModel::ErrorReply("NO_SUCH_DIR"@)
        } else if !allowed {
            StepModel::ErrorReply("PERMISSION_DENIED"@)
        } else {
            StepModel::Action(ActionModel::ListDir(req.args@[0]@))
        },
    }
}

/// An error reply with the given tag and no payload.
fn err_reply(tag: &str) -> (r: Step)
    ensures
        step_matches(r, StepModel::ErrorReply(tag@)),
{
    Step::Reply(Response { ok: false, tag: tag.to_owned(), payload: None })
}

/// Routes a decoded request to its verb's checks, in the protocol's order,
/// and either refuses it or names the filesystem action that completes it.
pub fn dispatch(req: &Request, facts: &PathFacts, root: &Option<Vec<String>>) -> (r: Step)
    ensures
        step_matches(r, dispatch_model(*req, *facts, *root)),
{
    match &req.verb {
        Verb::Unknown(_) => err_reply("NO_SUCH_COMMAND"),
        Verb::Get => {
            if req.args.len() == 0 {
                err_reply("NOT_ENOUGH_ARGS")
            } else if facts.is_dir {
                err_reply("IS_DIR")
            } else if !facts.exists {
                err_reply("NO_SUCH_FILE")
            } else if !guard_check(root, &facts.canonical) {
                err_reply("PERMISSION_DENIED")
            } else {
                Step::Act(Action::ReadFile(req.args[0].clone()))
            }
        },
        Verb::Put => {
            if req.args.len() == 0 {
                err_reply("NOT_ENOUGH_ARGS")
            } else if !guard_check(root, &facts.canonical) {
                err_reply("PERMISSION_DENIED")
            } else {
                Step::Act(Action::CreateNew(req.args[0].clone()))
            }
        },
        Verb::Rm => {
            if req.args.len() == 0 {
                err_reply("NOT_ENOUGH_ARGS")
            } else if !facts.exists {
                err_reply("NO_SUCH_FILE")
            } else if facts.is_dir {
                err_reply("IS_DIR")
            } else if !guard_check(root, &facts.canonical) {
                err_reply("PERMISSION_DENIED")
            } else {
                Step::Act(Action::RemoveFile(req.args[0].clone()))
            }
        },
        Verb::Rmr => {
            if req.args.len() == 0 {
                err_reply("NOT_ENOUGH_ARGS")
            } else if !facts.exists {
                err_reply("NO_SUCH_DIR")
            } else if facts.is_file {
                err_reply("NOT_DIR")
            } else if !guard_check(root, &facts.canonical) {
                err_reply("PERMISSION_DENIED")
            } else {
                Step::Act(Action::RemoveDirAll(req.args[0].clone()))
            }
        },
        Verb::List => {
            if req.args.len() == 0 {
                err_reply("NOT_ENOUGH_ARGS")
            } else if !facts.is_dir {
                err_reply("NOT_DIR")
            } else if !facts.exists {
                err_reply("NO_SUCH_DIR")
            } else if !guard_check(root, &facts.canonical) {
                err_reply("PERMISSION_DENIED")
            } else {
                Step::Act(Action::ListDir(req.args[0].clone()))
            }
        },
    }
}

/// What follows a PUT's create attempt: an existing file refuses the
/// request, a missing body refuses it after the create, and otherwise the
/// body is to be written to the file just created. The create comes first,
/// so a file is never overwritten and FILE_EXISTS fires before
/// MISSING_BODY.
pub open spec fn put_create_model(created: bool, body: Option<Seq<char>>) -> StepModel {
    if !created {
        StepModel::ErrorReply("FILE_EXISTS"@)
    } else {
        match body {
            None => StepModel::ErrorReply("MISSING_BODY"@),
            Some(d) => StepModel::Action(ActionModel::WriteBody(d)),
        }
    }
}

/// Continues a PUT once the create-new attempt has succeeded or not.
pub fn put_after_create(created: bool, body: &Option<String>) -> (r: Step)
    ensures
        step_matches(r, put_create_model(created, body.deep_view())),
{
    if !created {
        err_reply("FILE_EXISTS")
    } else {
        match body {
            None => err_reply("MISSING_BODY"),
            Some(d) => Step::Act(Action::WriteBody(d.clone())),
        }
    }
}

/// Finishes a PUT once the body has been written or the write has failed.
pub fn put_after_write(written: bool) -> (r: Response)
    ensures
        written ==> r.ok == true && r.tag@ == "PUT"@ && r.payload is None,
        !written ==> r.ok == false && r.tag@ == "COULDNT_WRITE_TO_FILE"@ && r.payload is None,
{
    if written {
        Response { ok: true, tag: "PUT".to_owned(), payload: None }
    } else {
        Response { ok: false, tag: "COULDNT_WRITE_TO_FILE".to_owned(), payload: None }
    }
}

/// Finishes a GET: the file's contents become the payload, byte for byte,
/// and a failed read is reported as such.
pub fn get_finish(contents: Option<String>) -> (r: Response)
    ensures
        match contents {
            Some(c) => r.ok == true && r.tag@ == "FILE"@ && r.payload == Some(c),
            None => r.ok == false && r.tag@ == "COULDNT_READ_FILE"@ && r.payload is None,
        },
{
    match contents {
        Some(c) => Response { ok: true, tag: "FILE".to_owned(), payload: Some(c) },
        None => Response { ok: false, tag: "COULDNT_READ_FILE".to_owned(), payload: None },
    }
}

/// Finishes an RM once the file has been removed or the removal failed.
pub fn rm_finish(removed: bool) -> (r: Response)
    ensures
        removed ==> r.ok == true && r.tag@ == "REMOVED"@ && r.payload is None,
        !removed ==> r.ok == false && r.tag@ == "COULDNT_REMOVE_FILE"@ && r.payload is None,
{
    if removed {
        Response { ok: true, tag: "REMOVED".to_owned(), payload: None }
    } else {
        Response { ok: false, tag: "COULDNT_REMOVE_FILE".to_owned(), payload: None }
    }
}

/// Finishes an RMR once the directory tree has been removed or not.
pub fn rmr_finish(removed: bool) -> (r: Response)
    ensures
        removed ==> r.ok == true && r.tag@ == "REMOVED"@ && r.payload is None,
        !removed ==> r.ok == false && r.tag@ == "COULDNT_REMOVE_DIR"@ && r.payload is None,
{
    if removed {
        Response { ok: true, tag: "REMOVED".to_owned(), payload: None }
    } else {
        Response { ok: false, tag: "COULDNT_REMOVE_DIR".to_owned(), payload: None }
    }
}

/// A directory listing's payload: every entry followed by a newline, in
/// the order the entries were enumerated. Empty when there are none.
pub open spec fn joined(es: Seq<Seq<char>>) -> Seq<char>
    decreases es.len(),
{
    if es.len() == 0 {
        Seq::<char>::empty()
    } else {
        es.first() + "\n"@ + joined(es.drop_first())
    }
}

/// Appending one entry extends the joined payload by that entry and a
/// newline.
pub proof fn lemma_joined_push(es: Seq<Seq<char>>, e: Seq<char>)
    ensures
        joined(es.push(e)) =~= joined(es) + e + "\n"@,
    decreases es.len(),
{
    if es.len() == 0 {
        assert(es.push(e).drop_first() =~~= Seq::<Seq<char>>::empty());
        assert(es.push(e).first() == e);
        assert(joined(Seq::<Seq<char>>::empty()) =~= Seq::<char>::empty());
        assert(joined(es.push(e)) =~= joined(es) + e + "\n"@);
    } else {
        assert(es.push(e).first() == es.first());
        assert(es.push(e).drop_first() =~~= es.drop_first().push(e));
        lemma_joined_push(es.drop_first(), e);
        assert(joined(es.push(e)) == es.first() + "\n"@ + joined(es.drop_first().push(e)));
        assert(joined(es.push(e)) =~= joined(es) + e + "\n"@);
    }
}

/// Finishes a LIST: the entries, each followed by a newline, form the
/// payload of an `OK DIR` reply. An empty directory yields the tag line
/// alone.
pub fn list_finish(entries: &Vec<String>) -> (r: Response)
    ensures
        r.ok == true,
        r.tag@ == "DIR"@,
        r.payload matches Some(p) && p@ == joined(entries.deep_view()),
{
    let mut payload = String::new();
    let mut i: usize = 0;
    proof {
        assert(entries.deep_view().subrange(0, 0) =~~= Seq::<Seq<char>>::empty());
    }
    while i < entries.len()
        invariant
            0 <= i <= entries@.len(),
            payload@ =~= joined(entries.deep_view().subrange(0, i as int)),
        decreases entries@.len() - i,
    {
        payload.append(entries[i].as_str());
        payload.append("\n");
        proof {
            let pre = entries.deep_view().subrange(0, i as int);
            lemma_joined_push(pre, entries@[i as int]@);
            assert(pre.push(entries@[i as int]@) =~~= entries.deep_view().subrange(0, i + 1));
        }
        i += 1;
    }
    proof {
        assert(entries.deep_view().subrange(0, entries@.len() as int) =~~= entries.deep_view());
    }
    Response { ok: true, tag: "DIR".to_owned(), payload: Some(payload) }
}

/// The best-effort reply to a buffer no header line could be read from.
pub fn malformed_response() -> (r: Response)
    ensures
        r.ok == false,
        r.tag@ == "BAD_REQ"@,
        r.payload is None,
{
    Response { ok: false, tag: "BAD_REQ".to_owned(), payload: None }
}

} // verus!
