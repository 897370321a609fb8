use vstd::prelude::*;

use crate::client::{interp_model, Command, UserOutcomeModel};
use crate::codec::{
    body_of, encoded_response, header_of, is_space, lemma_find_idx_at, lemma_split_step,
    lemma_trim_back_idx, lemma_trim_front_idx, lemma_trim_noop, split_on, trim, trim_front,
};
use crate::guard::guard_allows;
use crate::protocol::{Request, Verb};
use crate::server::{dispatch_model, joined, put_create_model, PathFacts, StepModel};

verus! {

/// Law: for every known verb, an empty argument list is refused with
/// NOT_ENOUGH_ARGS; the argument-presence check dominates every other
/// check, whatever the filesystem says and whether or not a sandbox root
/// is set.
pub proof fn lemma_args_presence(req: Request, facts: PathFacts, root: Option<Vec<String>>)
    requires
        req.args@.len() == 0,
        !(req.verb is Unknown),
    ensures
        dispatch_model(req, facts, root) == StepModel::ErrorReply("NOT_ENOUGH_ARGS"@),
{
}

/// Law: GET on a directory is refused with IS_DIR whatever the sandbox
/// root says; the type check precedes the containment check.
pub proof fn lemma_get_dir_precedes_guard(req: Request, facts: PathFacts, root: Option<
    Vec<String>,
>)
    requires
        req.verb is Get,
        req.args@.len() > 0,
        facts.is_dir,
    ensures
        dispatch_model(req, facts, root) == StepModel::ErrorReply("IS_DIR"@),
{
}

/// Law: PUT never overwrites. When the target already exists, the
/// create-new attempt fails and the reply is FILE_EXISTS: no write action
/// is ever produced for an existing file, whatever body came with the
/// request, so the file keeps the content it had.
pub proof fn lemma_put_never_overwrites(body: Option<Seq<char>>)
    ensures
        put_create_model(false, body) == StepModel::ErrorReply("FILE_EXISTS"@),
{
}

/// Law: with a sandbox root set, a request whose path canonicalizes
/// outside the root is refused with PERMISSION_DENIED by every verb, as
/// soon as the verb's earlier existence and type checks pass.
pub proof fn lemma_sandbox_containment(req: Request, facts: PathFacts, root: Option<Vec<String>>)
    requires
        req.args@.len() > 0,
        root is Some,
        facts.canonical is Some,
        !guard_allows(root, facts.canonical),
        match req.verb {
            Verb::Get => !facts.is_dir && facts.exists,
            Verb::Put => true,
            Verb::Rm => facts.exists && !facts.is_dir,
            Verb::Rmr => facts.exists && !facts.is_file,
            Verb::List => facts.is_dir && facts.exists,
            Verb::Unknown(_) => false,
        },
    ensures
        dispatch_model(req, facts, root) == StepModel::ErrorReply("PERMISSION_DENIED"@),
{
}

/// Law: RMR on a plain file is refused with NOT_DIR; the recursive
/// removal never applies to a file.
pub proof fn lemma_rmr_refuses_file(req: Request, facts: PathFacts, root: Option<Vec<String>>)
    requires
        req.verb is Rmr,
        req.args@.len() > 0,
        facts.exists,
        facts.is_file,
    ensures
        dispatch_model(req, facts, root) == StepModel::ErrorReply("NOT_DIR"@),
{
}

/// Law: RM on a directory is refused with IS_DIR; the plain removal never
/// applies to a directory.
pub proof fn lemma_rm_refuses_dir(req: Request, facts: PathFacts, root: Option<Vec<String>>)
    requires
        req.verb is Rm,
        req.args@.len() > 0,
        facts.exists,
        facts.is_dir,
    ensures
        dispatch_model(req, facts, root) == StepModel::ErrorReply("IS_DIR"@),
{
}

/// Law: an unknown verb is refused with NO_SUCH_COMMAND, whatever its
/// arguments and whatever the filesystem says.
pub proof fn lemma_unknown_verb(req: Request, facts: PathFacts, root: Option<Vec<String>>)
    requires
        req.verb is Unknown,
    ensures
        dispatch_model(req, facts, root) == StepModel::ErrorReply("NO_SUCH_COMMAND"@),
{
}

/// Law: listing an empty directory yields the tag line alone; the payload
/// of the reply is empty and the whole encoded response is `OK DIR\n`.
pub proof fn lemma_list_empty_payload()
    ensures
        joined(Seq::<Seq<char>>::empty()) == Seq::<char>::empty(),
        encoded_response(true, "DIR"@, Some(joined(Seq::<Seq<char>>::empty()))) == "OK DIR\n"@,
{
    reveal_strlit("OK ");
    reveal_strlit("DIR");
    reveal_strlit("\n");
    reveal_strlit("OK DIR\n");
    assert(encoded_response(true, "DIR"@, Some(Seq::<char>::empty())) =~= "OK DIR\n"@);
}

/// Law, request half of the round trip: the buffer a PUT command builds
/// decodes back to exactly the PUT verb, the path as the one argument, and
/// the data as the body, byte for byte — for any path free of spaces and
/// newlines and any non-empty data that does not end in whitespace, which
/// entry trimming would strip.
pub proof fn lemma_put_request_round_trip(p: Seq<char>, d: Seq<char>)
    requires
        forall|i: int| 0 <= i < p.len() ==> p[i] != ' ' && p[i] != '\n',
        d.len() > 0,
        !is_space(d.last()),
    ensures
        ({
            let buf = "PUT "@ + p + "\n"@ + d;
            trim(buf) == buf && split_on(header_of(buf), ' ') == seq!["PUT"@, p] && body_of(buf)
                == Some(d)
        }),
{
    reveal_strlit("PUT ");
    reveal_strlit("PUT");
    reveal_strlit("\n");
    let pre = "PUT "@;
    let buf = pre + p + "\n"@ + d;
    assert(buf.len() == 5 + p.len() + d.len());
    assert(buf.first() == 'P');
    assert(!is_space('P'));
    assert(buf.last() == d.last());
    lemma_trim_noop(buf);
    let nl = 4 + p.len() as int;
    assert(buf[nl] == '\n');
    assert(forall|j: int| 0 <= j < 4 ==> buf[j] == pre[j]);
    assert(forall|j: int| 4 <= j < nl ==> buf[j] == p[j - 4]);
    assert(forall|j: int| 0 <= j < nl ==> buf[j] != '\n');
    lemma_find_idx_at(buf, '\n', nl);
    let header = buf.subrange(0, nl);
    assert(header_of(buf) == header);
    assert(header =~= pre + p);
    assert(buf.subrange(nl + 1, buf.len() as int) =~= d);
    assert(body_of(buf) == Some(d));
    assert(header[3] == ' ');
    assert(forall|j: int| 0 <= j < 3 ==> header[j] == pre[j] && header[j] != ' ');
    lemma_split_step(header, ' ', 3);
    assert(header.subrange(0, 3) =~= "PUT"@);
    let after = header.subrange(4, header.len() as int);
    assert(after =~= p);
    assert(forall|j: int| 0 <= j < p.len() ==> p[j] != ' ');
    lemma_split_step(p, ' ', p.len() as int);
    assert(split_on(header, ' ') =~~= seq!["PUT"@, p]);
}

/// Law, decoder tolerance: a single trailing space on an emitted request
/// is cosmetic. A GET request for a whitespace-free path decodes to the
/// GET verb and that one path argument whether or not a trailing space
/// was appended.
pub proof fn lemma_get_request_trailing_space(p: Seq<char>)
    requires
        p.len() > 0,
        forall|i: int| 0 <= i < p.len() ==> !is_space(p[i]),
    ensures
        ({
            let bare = "GET "@ + p;
            let padded = "GET "@ + p + " "@;
            trim(bare) == bare && trim(padded) == bare && split_on(header_of(bare), ' ')
                == seq!["GET"@, p] && body_of(bare) is None
        }),
{
    reveal_strlit("GET ");
    reveal_strlit("GET");
    reveal_strlit(" ");
    let pre = "GET "@;
    let bare = pre + p;
    let padded = pre + p + " "@;
    assert(bare.first() == 'G');
    assert(!is_space('G'));
    assert(bare.last() == p.last());
    lemma_trim_noop(bare);
    assert(is_space(padded.last()));
    assert(padded.drop_last() =~= bare);
    assert(trim_front(padded) == padded) by {
        lemma_trim_front_idx(padded, 0);
        assert(padded.subrange(0, padded.len() as int) =~= padded);
    }
    lemma_trim_back_idx(padded, padded.len() - 1);
    assert(padded.subrange(0, padded.len() - 1) =~= bare);
    assert(forall|j: int| 0 <= j < 4 ==> bare[j] == pre[j]);
    assert(forall|j: int| 4 <= j < bare.len() ==> bare[j] == p[j - 4]);
    assert(forall|j: int| 0 <= j < bare.len() ==> bare[j] != '\n');
    lemma_find_idx_at(bare, '\n', bare.len() as int);
    assert(header_of(bare) == bare);
    assert(bare[3] == ' ');
    assert(forall|j: int| 0 <= j < 3 ==> bare[j] != ' ');
    lemma_split_step(bare, ' ', 3);
    assert(bare.subrange(0, 3) =~= "GET"@);
    assert(bare.subrange(4, bare.len() as int) =~= p);
    lemma_split_step(p, ' ', p.len() as int);
    assert(split_on(bare, ' ') =~~= seq!["GET"@, p]);
}

/// Law, response half of the round trip: the encoding of an `OK FILE`
/// reply parses back into the outcome word `OK`, the tag `FILE`, and the
/// payload byte for byte — for every payload, newlines included, since
/// only the first newline separates the header from the body.
pub proof fn lemma_file_response_round_trip(payload: Seq<char>)
    ensures
        ({
            let buf = encoded_response(true, "FILE"@, Some(payload));
            split_on(header_of(buf), ' ') == seq!["OK"@, "FILE"@] && body_of(buf) == Some(payload)
        }),
{
    reveal_strlit("OK ");
    reveal_strlit("OK");
    reveal_strlit("FILE");
    reveal_strlit("\n");
    let pre = "OK "@;
    let tag = "FILE"@;
    let buf = encoded_response(true, tag, Some(payload));
    assert(buf.len() == 8 + payload.len());
    let nl = 7int;
    assert(forall|j: int| 0 <= j < 3 ==> buf[j] == pre[j]);
    assert(forall|j: int| 3 <= j < 7 ==> buf[j] == tag[j - 3]);
    assert(buf[nl] == '\n');
    assert(forall|j: int| 0 <= j < nl ==> buf[j] != '\n');
    lemma_find_idx_at(buf, '\n', nl);
    let header = buf.subrange(0, nl);
    assert(header_of(buf) == header);
    assert(buf.subrange(nl + 1, buf.len() as int) =~= payload);
    assert(body_of(buf) == Some(payload));
    assert(header[2] == ' ');
    assert(forall|j: int| 0 <= j < 2 ==> header[j] != ' ');
    lemma_split_step(header, ' ', 2);
    assert(header.subrange(0, 2) =~= "OK"@);
    let after = header.subrange(3, header.len() as int);
    assert(after =~= tag);
    assert(forall|j: int| 0 <= j < after.len() ==> after[j] != ' ');
    lemma_split_step(after, ' ', after.len() as int);
    assert(split_on(header, ' ') =~~= seq!["OK"@, "FILE"@]);
}

/// Law: what a `cat` user finally sees of a fetched file is its contents,
/// exactly: interpreting the encoded `OK FILE` reply yields the payload
/// unchanged.
pub proof fn lemma_get_round_trip_to_user(payload: Seq<char>, cmd: Command)
    requires
        cmd is Cat,
    ensures
        interp_model(encoded_response(true, "FILE"@, Some(payload)), cmd)
            == UserOutcomeModel::Output(payload),
{
    lemma_file_response_round_trip(payload);
    reveal_strlit("OK");
    reveal_strlit("ERR");
    assert("OK"@.len() != "ERR"@.len());
}

} // verus!
