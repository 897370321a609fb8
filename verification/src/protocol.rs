use vstd::prelude::*;

verus! {

/// The protocol verb: the command word of a request's header line.
/// Anything other than the five known words is kept as `Unknown` with
/// the raw token.
#[derive(Debug, Clone)]
pub enum Verb {
    Get,
    Put,
    List,
    Rm,
    Rmr,
    Unknown(String),
}

/// A decoded request: the verb and the arguments come from the header
/// line; the body is everything after the first newline, if any.
#[derive(Debug, Clone)]
pub struct Request {
    pub verb: Verb,
    pub args: Vec<String>,
    pub body: Option<String>,
}

/// A structured response: `ok` is true for an `OK` outcome and false for
/// `ERR`; `tag` is the machine-readable status word; `payload` carries
/// file contents or a directory listing on success, and is absent on
/// every error this server produces.
#[derive(Debug, Clone)]
pub struct Response {
    pub ok: bool,
    pub tag: String,
    pub payload: Option<String>,
}

/// Decoding a request fails only when no header line can be produced at
/// all, that is, when the buffer is empty once trimmed.
#[derive(Debug, Clone, PartialEq, Eq)]
pub enum DecodeError {
    MalformedRequest,
}

/// Relates a verb value to the header token it stands for: each known
/// verb matches exactly its word, and `Unknown` keeps any other token.
pub open spec fn is_verb_for(v: Verb, t: Seq<char>) -> bool {
    match v {
        Verb::Get => t == "GET"@,
        Verb::Put => t == "PUT"@,
        Verb::List => t == "LIST"@,
        Verb::Rm => t == "RM"@,
        Verb::Rmr => t == "RMR"@,
        Verb::Unknown(s) => s@ == t && t != "GET"@ && t != "PUT"@ && t != "LIST"@ && t != "RM"@
            && t != "RMR"@,
    }
}

} // verus!
