use vstd::prelude::*;

use crate::codec::{
    body_of, header_of, split_first_line, split_on, split_tokens, trim, trim_slice,
    lemma_split_on_len,
};

verus! {

/// A client command at the protocol level. The listing path defaults to
/// `"."` when the user gives none; copying a local file to the server is
/// an `Echo` whose data the caller has already read.
#[derive(Debug, Clone)]
pub enum Command {
    Cat { path: String },
    Echo { path: String, data: String },
    Ls { path: Option<String> },
    Rm { path: String },
    Rmr { path: String },
}

/// What the user sees for one exchange: payload to print, a fixed success
/// message, or a failure message that ends the client with a non-zero
/// status.
#[derive(Debug, Clone, PartialEq)]
pub enum UserOutcome {
    Output(String),
    Success(String),
    Failure(String),
}

/// The mathematical counterpart of a `UserOutcome`.
pub enum UserOutcomeModel {
    Output(Seq<char>),
    Success(Seq<char>),
    Failure(Seq<char>),
}

/// Relates an executable outcome to its model.
pub open spec fn outcome_matches(r: UserOutcome, m: UserOutcomeModel) -> bool {
    match (r, m) {
        (UserOutcome::Output(s), UserOutcomeModel::Output(t)) => s@ == t,
        (UserOutcome::Success(s), UserOutcomeModel::Success(t)) => s@ == t,
        (UserOutcome::Failure(s), UserOutcomeModel::Failure(t)) => s@ == t,
        _ => false,
    }
}

/// The request bytes each command puts on the wire.
pub open spec fn request_model(cmd: Command) -> Seq<char> {
    match cmd {
        Command::Cat { path } => "GET "@ + path@,
        Command::Echo { path, data } => "PUT "@ + path@ + "\n"@ + data@,
        Command::Ls { path } => "LIST "@ + (match path {
            Some(p) => p@,
            None => "."@,
        }),
        Command::Rm { path } => "RM "@ + path@,
        Command::Rmr { path } => "RMR "@ + path@,
    }
}

/// Builds the request buffer for a command. RM and RMR keep distinct verb
/// words, so a recursive removal is never sent as a plain removal.
pub fn build_request(cmd: &Command) -> (r: String)
    ensures
        r@ == request_model(*cmd),
{
    match cmd {
        Command::Cat { path } => {
            let mut out = String::from_str("GET ");
            out.append(path.as_str());
            out
        },
        Command::Echo { path, data } => {
            let mut out = String::from_str("PUT ");
            out.append(path.as_str());
            out.append("\n");
            out.append(data.as_str());
            proof {
                assert(out@ =~= request_model(*cmd));
            }
            out
        },
        Command::Ls { path } => {
            let mut out = String::from_str("LIST ");
            match path {
                Some(p) => out.append(p.as_str()),
                None => out.append("."),
            }
            out
        },
        Command::Rm { path } => {
            let mut out = String::from_str("RM ");
            out.append(path.as_str());
            out
        },
        Command::Rmr { path } => {
            let mut out = String::from_str("RMR ");
            out.append(path.as_str());
            out
        },
    }
}

/// The human-readable reason a `cat` prints for each error tag.
pub open spec fn cat_reason(tag: Seq<char>) -> Seq<char> {
    if tag == "IS_DIR"@ {
        "given path is a directory"@
    } else if tag == "NO_SUCH_FILE"@ {
        "given file does not exist"@
    } else if tag == "NOT_ENOUGH_ARGS"@ {
        "program didnt provide enough arguments to the server"@
    } else if tag == "COULDNT_READ_FILE"@ {
        "could not read the file"@
    } else if tag == "PERMISSION_DENIED"@ {
        "permission denied"@
    } else {
        "not sure"@
    }
}

/// The reason an `ls` prints for each error tag.
pub open spec fn ls_reason(tag: Seq<char>) -> Seq<char> {
    if tag == "NOT_DIR"@ {
        "given path is not a directory"@
    } else if tag == "NO_SUCH_DIR"@ {
        "given directory does not exist"@
    } else if tag == "NOT_ENOUGH_ARGS"@ {
        "program didnt provide enough arguments to the server"@
    } else if tag == "PERMISSION_DENIED"@ {
        "permission denied"@
    } else {
        "not sure"@
    }
}

/// The reason an `rm` prints for each error tag.
pub open spec fn rm_reason(tag: Seq<char>) -> Seq<char> {
    if tag == "IS_DIR"@ {
        "given path is a directory"@
    } else if tag == "NO_SUCH_FILE"@ {
        "given file does not exist"@
    } else if tag == "NOT_ENOUGH_ARGS"@ {
        "program didnt provide enough arguments to the server"@
    } else if tag == "COULDNT_REMOVE_FILE"@ {
        "could not remove the file"@
    } else if tag == "PERMISSION_DENIED"@ {
        "permission denied"@
    } else {
        "not sure"@
    }
}

/// The reason an `rmr` prints for each error tag.
pub open spec fn rmr_reason(tag: Seq<char>) -> Seq<char> {
    if tag == "NOT_DIR"@ {
        "given path is not a directory"@
    } else if tag == "NO_SUCH_DIR"@ {
        "given directory does not exist"@
    } else if tag == "NOT_ENOUGH_ARGS"@ {
        "program didnt provide enough arguments to the server"@
    } else if tag == "COULDNT_REMOVE_DIR"@ {
        "could not remove directory"@
    } else if tag == "PERMISSION_DENIED"@ {
        "permission denied"@
    } else {
        "not sure"@
    }
}

/// The reason an `echo` (a PUT) prints for each error tag.
pub open spec fn put_reason(tag: Seq<char>) -> Seq<char> {
    if tag == "FILE_EXISTS"@ {
        "file already exists"@
    } else if tag == "MISSING_BODY"@ {
        "the data to put into the server wasnt provided by the program"@
    } else if tag == "COULDNT_WRITE_TO_FILE"@ {
        "couldn't write to the file"@
    } else if tag == "NOT_ENOUGH_ARGS"@ {
        "program didnt provide enough arguments to the server"@
    } else if tag == "PERMISSION_DENIED"@ {
        "permission denied"@
    } else {
        "not sure"@
    }
}

/// The reason printed for an error tag, by originating command. Every
/// unrecognized tag maps to the generic fallback, so an unknown tag never
/// crashes the client.
pub open spec fn reason_model(cmd: Command, tag: Seq<char>) -> Seq<char> {
    match cmd {
        Command::Cat { .. } => cat_reason(tag),
        Command::Ls { .. } => ls_reason(tag),
        Command::Rm { .. } => rm_reason(tag),
        Command::Rmr { .. } => rmr_reason(tag),
        Command::Echo { .. } => put_reason(tag),
    }
}

fn cat_reason_for(tag: &String) -> (r: String)
    ensures
        r@ == cat_reason(tag@),
{
    if tag.eq(&String::from_str("IS_DIR")) {
        "given path is a directory".to_owned()
    } else if tag.eq(&String::from_str("NO_SUCH_FILE")) {
        "given file does not exist".to_owned()
    } else if tag.eq(&String::from_str("NOT_ENOUGH_ARGS")) {
        "program didnt provide enough arguments to the server".to_owned()
    } else if tag.eq(&String::from_str("COULDNT_READ_FILE")) {
        "could not read the file".to_owned()
    } else if tag.eq(&String::from_str("PERMISSION_DENIED")) {
        "permission denied".to_owned()
    } else {
        "not sure".to_owned()
    }
}

fn ls_reason_for(tag: &String) -> (r: String)
    ensures
        r@ == ls_reason(tag@),
{
    if tag.eq(&String::from_str("NOT_DIR")) {
        "given path is not a directory".to_owned()
    } else if tag.eq(&String::from_str("NO_SUCH_DIR")) {
        "given directory does not exist".to_owned()
    } else if tag.eq(&String::from_str("NOT_ENOUGH_ARGS")) {
        "program didnt provide enough arguments to the server".to_owned()
    } else if tag.eq(&String::from_str("PERMISSION_DENIED")) {
        "permission denied".to_owned()
    } else {
        "not sure".to_owned()
    }
}

fn rm_reason_for(tag: &String) -> (r: String)
    ensures
        r@ == rm_reason(tag@),
{
    if tag.eq(&String::from_str("IS_DIR")) {
        "given path is a directory".to_owned()
    } else if tag.eq(&String::from_str("NO_SUCH_FILE")) {
        "given file does not exist".to_owned()
    } else if tag.eq(&String::from_str("NOT_ENOUGH_ARGS")) {
        "program didnt provide enough arguments to the server".to_owned()
    } else if tag.eq(&String::from_str("COULDNT_REMOVE_FILE")) {
        "could not remove the file".to_owned()
    } else if tag.eq(&String::from_str("PERMISSION_DENIED")) {
        "permission denied".to_owned()
    } else {
        "not sure".to_owned()
    }
}

fn rmr_reason_for(tag: &String) -> (r: String)
    ensures
        r@ == rmr_reason(tag@),
{
    if tag.eq(&String::from_str("NOT_DIR")) {
        "given path is not a directory".to_owned()
    } else if tag.eq(&String::from_str("NO_SUCH_DIR")) {
        "given directory does not exist".to_owned()
    } else if tag.eq(&String::from_str("NOT_ENOUGH_ARGS")) {
        "program didnt provide enough arguments to the server".to_owned()
    } else if tag.eq(&String::from_str("COULDNT_REMOVE_DIR")) {
        "could not remove directory".to_owned()
    } else if tag.eq(&String::from_str("PERMISSION_DENIED")) {
        "permission denied".to_owned()
    } else {
        "not sure".to_owned()
    }
}

fn put_reason_for(tag: &String) -> (r: String)
    ensures
        r@ == put_reason(tag@),
{
    if tag.eq(&String::from_str("FILE_EXISTS")) {
        "file already exists".to_owned()
    } else if tag.eq(&String::from_str("MISSING_BODY")) {
        "the data to put into the server wasnt provided by the program".to_owned()
    } else if tag.eq(&String::from_str("COULDNT_WRITE_TO_FILE")) {
        "couldn't write to the file".to_owned()
    } else if tag.eq(&String::from_str("NOT_ENOUGH_ARGS")) {
        "program didnt provide enough arguments to the server".to_owned()
    } else if tag.eq(&String::from_str("PERMISSION_DENIED")) {
        "permission denied".to_owned()
    } else {
        "not sure".to_owned()
    }
}

/// The reason printed for an error tag, by originating command.
pub fn reason_for(cmd: &Command, tag: &String) -> (r: String)
    ensures
        r@ == reason_model(*cmd, tag@),
{
    match cmd {
        Command::Cat { .. } => cat_reason_for(tag),
        Command::Ls { .. } => ls_reason_for(tag),
        Command::Rm { .. } => rm_reason_for(tag),
        Command::Rmr { .. } => rmr_reason_for(tag),
        Command::Echo { .. } => put_reason_for(tag),
    }
}

/// What the client does with a response buffer, by originating command:
/// an `ERR` outcome becomes a failure with the mapped reason (or a
/// bad-response failure when the tag is missing); the tag is stripped of
/// framing whitespace before the mapping. An `OK` outcome prints the
/// payload for `cat` and `ls` (a missing payload is a failure) and a fixed
/// success message for the other commands. Any other outcome word — a
/// garbled or empty response — is a decode failure, never a success.
pub open spec fn interp_model(buf: Seq<char>, cmd: Command) -> UserOutcomeModel {
    let toks = split_on(header_of(buf), ' ');
    if toks.first() == "ERR"@ {
        if toks.len() < 2 {
            UserOutcomeModel::Failure("bad response from server"@)
        } else {
            UserOutcomeModel::Failure(reason_model(cmd, trim(toks[1])))
        }
    } else if toks.first() != "OK"@ {
        UserOutcomeModel::Failure("bad response from server"@)
    } else {
        match cmd {
            Command::Cat { .. } => match body_of(buf) {
                Some(b) => UserOutcomeModel::Output(b),
                None => UserOutcomeModel::Failure("server didnt send the file back"@),
            },
            Command::Ls { .. } => match body_of(buf) {
                Some(b) => UserOutcomeModel::Output(b),
                None => UserOutcomeModel::Failure("server didnt send the file back"@),
            },
            Command::Rm { .. } => UserOutcomeModel::Success(
                "File removed succesfully from the server"@,
            ),
            Command::Rmr { .. } => UserOutcomeModel::Success(
                "Directory removed succesfully from the server"@,
            ),
            Command::Echo { .. } => UserOutcomeModel::Success(
                "File succesfully created on the server"@,
            ),
        }
    }
}

/// Interprets a response buffer for the command that caused it.
pub fn interpret_response(buffer: &str, cmd: &Command) -> (r: UserOutcome)
    ensures
        outcome_matches(r, interp_model(buffer@, *cmd)),
{
    let (header, body) = split_first_line(buffer);
    let toks = split_tokens(header);
    proof {
        lemma_split_on_len(header@, ' ');
        assert(toks@.len() == toks.deep_view().len());
    }
    if toks[0].eq(&String::from_str("ERR")) {
        if toks.len() < 2 {
            UserOutcome::Failure("bad response from server".to_owned())
        } else {
            let tag = trim_slice(toks[1].as_str()).to_owned();
            UserOutcome::Failure(reason_for(cmd, &tag))
        }
    } else if !toks[0].eq(&String::from_str("OK")) {
        UserOutcome::Failure("bad response from server".to_owned())
    } else {
        match cmd {
            Command::Cat { .. } => match body {
                Some(b) => UserOutcome::Output(b.to_owned()),
                None => UserOutcome::Failure("server didnt send the file back".to_owned()),
            },
            Command::Ls { .. } => match body {
                Some(b) => UserOutcome::Output(b.to_owned()),
                None => UserOutcome::Failure("server didnt send the file back".to_owned()),
            },
            Command::Rm { .. } => UserOutcome::Success(
                "File removed succesfully from the server".to_owned(),
            ),
            Command::Rmr { .. } => UserOutcome::Success(
                "Directory removed succesfully from the server".to_owned(),
            ),
            Command::Echo { .. } => UserOutcome::Success(
                "File succesfully created on the server".to_owned(),
            ),
        }
    }
}

} // verus!
