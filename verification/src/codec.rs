use vstd::prelude::*;

use crate::protocol::{DecodeError, Request, Response, Verb, is_verb_for};

verus! {

// ---------------------------------------------------------------------------
// The wire grammar, as spec functions over sequences of characters.
// ---------------------------------------------------------------------------

/// The whitespace that transport framing may add around a request.
pub open spec fn is_space(c: char) -> bool {
    c == ' ' || c == '\t' || c == '\n' || c == '\r'
}

/// Drops leading whitespace.
pub open spec fn trim_front(s: Seq<char>) -> Seq<char>
    decreases s.len(),
{
    if s.len() > 0 && is_space(s.first()) {
        trim_front(s.drop_first())
    } else {
        s
    }
}

/// Drops trailing whitespace.
pub open spec fn trim_back(s: Seq<char>) -> Seq<char>
    decreases s.len(),
{
    if s.len() > 0 && is_space(s.last()) {
        trim_back(s.drop_last())
    } else {
        s
    }
}

/// Drops whitespace at both ends; applied once at decode entry.
pub open spec fn trim(s: Seq<char>) -> Seq<char> {
    trim_back(trim_front(s))
}

/// The index of the first occurrence of `c` in `s`, if any.
pub open spec fn find_idx(s: Seq<char>, c: char) -> Option<int>
    decreases s.len(),
{
    if s.len() == 0 {
        None
    } else if s.first() == c {
        Some(0int)
    } else {
        match find_idx(s.drop_first(), c) {
            Some(i) => Some(i + 1),
            None => None,
        }
    }
}

/// The part of `s` before its first newline (all of `s` when there is none).
pub open spec fn header_of(s: Seq<char>) -> Seq<char> {
    match find_idx(s, '\n') {
        None => s,
        Some(i) => s.subrange(0, i),
    }
}

/// The part of `s` after its first newline, absent when there is none.
pub open spec fn body_of(s: Seq<char>) -> Option<Seq<char>> {
    match find_idx(s, '\n') {
        None => None,
        Some(i) => Some(s.subrange(i + 1, s.len() as int)),
    }
}

/// Splits `s` on every occurrence of `c`. Never yields an empty result:
/// splitting the empty sequence yields one empty token, and adjacent
/// separators yield empty tokens between them.
pub open spec fn split_on(s: Seq<char>, c: char) -> Seq<Seq<char>>
    decreases s.len(),
{
    if s.len() == 0 {
        seq![s]
    } else if s.first() == c {
        seq![Seq::<char>::empty()] + split_on(s.drop_first(), c)
    } else {
        let rest = split_on(s.drop_first(), c);
        seq![seq![s.first()] + rest.first()] + rest.drop_first()
    }
}

// ---------------------------------------------------------------------------
// Lemmas tying the grammar to index-based scans.
// ---------------------------------------------------------------------------

/// What a successful or failed search means, index by index.
pub proof fn lemma_find_idx(s: Seq<char>, c: char)
    ensures
        match find_idx(s, c) {
            None => forall|j: int| 0 <= j < s.len() ==> s[j] != c,
            Some(i) => 0 <= i < s.len() && s[i] == c && (forall|j: int| 0 <= j < i ==> s[j] != c),
        },
    decreases s.len(),
{
    if s.len() > 0 && s.first() != c {
        lemma_find_idx(s.drop_first(), c);
        let tail = s.drop_first();
        assert(forall|j: int| 1 <= j < s.len() ==> s[j] == tail[j - 1]);
        match find_idx(tail, c) {
            Some(i) => {
                assert(s[i + 1] == tail[i]);
            },
            None => {},
        }
    }
}

/// A scan that saw no `c` before position `i`, and `c` at `i` if `i` is
/// in range, pins down `find_idx`.
pub proof fn lemma_find_idx_at(s: Seq<char>, c: char, i: int)
    requires
        0 <= i <= s.len(),
        forall|j: int| 0 <= j < i ==> s[j] != c,
        i < s.len() ==> s[i] == c,
    ensures
        i < s.len() ==> find_idx(s, c) == Some(i),
        i == s.len() ==> find_idx(s, c) is None,
    decreases s.len(),
{
    if s.len() == 0 {
    } else if i == 0 {
    } else {
        assert(s[0] != c);
        lemma_find_idx_at(s.drop_first(), c, i - 1);
    }
}

/// Splitting always yields at least one token.
pub proof fn lemma_split_on_len(s: Seq<char>, c: char)
    ensures
        split_on(s, c).len() >= 1,
    decreases s.len(),
{
    if s.len() > 0 {
        lemma_split_on_len(s.drop_first(), c);
    }
}

/// A scan that saw no separator before position `i` unfolds one step of
/// `split_on`: either the whole of `s` is one token, or the first token
/// ends at `i` and splitting continues after it.
pub proof fn lemma_split_step(s: Seq<char>, c: char, i: int)
    requires
        0 <= i <= s.len(),
        forall|j: int| 0 <= j < i ==> s[j] != c,
        i < s.len() ==> s[i] == c,
    ensures
        i == s.len() ==> split_on(s, c) =~~= seq![s],
        i < s.len() ==> split_on(s, c) =~~= seq![s.subrange(0, i)] + split_on(
            s.subrange(i + 1, s.len() as int),
            c,
        ),
    decreases s.len(),
{
    lemma_split_on_len(s, c);
    if s.len() == 0 {
    } else if i == 0 {
        if i < s.len() {
            assert(s.drop_first() =~= s.subrange(1, s.len() as int));
            assert(s.subrange(0, 0) =~= Seq::<char>::empty());
        }
    } else {
        lemma_split_step(s.drop_first(), c, i - 1);
        lemma_split_on_len(s.drop_first(), c);
        let rest = split_on(s.drop_first(), c);
        if i == s.len() {
            assert(rest =~~= seq![s.drop_first()]);
            assert(seq![s.first()] + s.drop_first() =~= s);
        } else {
            let tail = s.drop_first();
            assert(tail.subrange(0, i - 1) =~= s.subrange(1, i));
            assert(tail.subrange(i, tail.len() as int) =~= s.subrange(i + 1, s.len() as int));
            assert(rest =~~= seq![s.subrange(1, i)] + split_on(
                s.subrange(i + 1, s.len() as int),
                c,
            ));
            assert(seq![s.first()] + s.subrange(1, i) =~= s.subrange(0, i));
        }
    }
}

/// Trimming the front stops exactly at the first non-space character.
pub proof fn lemma_trim_front_idx(s: Seq<char>, i: int)
    requires
        0 <= i <= s.len(),
        forall|j: int| 0 <= j < i ==> is_space(s[j]),
        i < s.len() ==> !is_space(s[i]),
    ensures
        trim_front(s) =~= s.subrange(i, s.len() as int),
    decreases i,
{
    if i == 0 {
        assert(s.subrange(0, s.len() as int) =~= s);
    } else {
        assert(is_space(s[0]));
        lemma_trim_front_idx(s.drop_first(), i - 1);
        assert(s.drop_first().subrange(i - 1, s.drop_first().len() as int) =~= s.subrange(
            i,
            s.len() as int,
        ));
    }
}

/// Trimming the back stops exactly after the last non-space character.
pub proof fn lemma_trim_back_idx(s: Seq<char>, i: int)
    requires
        0 <= i <= s.len(),
        forall|j: int| i <= j < s.len() ==> is_space(s[j]),
        i > 0 ==> !is_space(s[i - 1]),
    ensures
        trim_back(s) =~= s.subrange(0, i),
    decreases s.len() - i,
{
    if i == s.len() {
        if s.len() > 0 && is_space(s.last()) {
            assert(!is_space(s[i - 1]));
            assert(false);
        }
        assert(s.subrange(0, s.len() as int) =~= s);
    } else {
        assert(is_space(s.last()));
        lemma_trim_back_idx(s.drop_last(), i);
        assert(s.drop_last().subrange(0, i) =~= s.subrange(0, i));
    }
}

/// A sequence with non-space characters at both ends is already trimmed.
pub proof fn lemma_trim_noop(s: Seq<char>)
    requires
        s.len() > 0,
        !is_space(s.first()),
        !is_space(s.last()),
    ensures
        trim(s) == s,
{
    assert(trim_front(s) == s);
    assert(trim_back(s) == s);
}

// ---------------------------------------------------------------------------
// Executable scans, each proved against the grammar above.
// ---------------------------------------------------------------------------

/// Whether `c` is whitespace that decode entry strips.
pub fn space_char(c: char) -> (r: bool)
    ensures
        r == is_space(c),
{
    c == ' ' || c == '\t' || c == '\n' || c == '\r'
}

/// Strips whitespace from both ends of `s`.
pub fn trim_slice<'a>(s: &'a str) -> (r: &'a str)
    ensures
        r@ == trim(s@),
{
    let n = s.unicode_len();
    let mut a: usize = 0;
    while a < n && space_char(s.get_char(a))
        invariant
            0 <= a <= n,
            n == s@.len(),
            forall|j: int| 0 <= j < a ==> is_space(s@[j]),
        decreases n - a,
    {
        a += 1;
    }
    proof {
        lemma_trim_front_idx(s@, a as int);
    }
    if a == n {
        let r = s.substring_char(n, n);
        proof {
            assert(trim_front(s@) =~= Seq::<char>::empty());
            assert(trim(s@) =~= r@);
        }
        return r;
    }
    let mut b: usize = n;
    while b > a && space_char(s.get_char(b - 1))
        invariant
            a <= b <= n,
            n == s@.len(),
            a < n,
            !is_space(s@[a as int]),
            forall|j: int| b <= j < n ==> is_space(s@[j]),
        decreases b,
    {
        b -= 1;
    }
    let r = s.substring_char(a, b);
    proof {
        let front = s@.subrange(a as int, n as int);
        assert(forall|j: int| (b - a) <= j < front.len() ==> is_space(front[j]));
        assert(b > a);
        assert(!is_space(front[b - a - 1]));
        lemma_trim_back_idx(front, b - a);
        assert(front.subrange(0, b - a) =~= s@.subrange(a as int, b as int));
        assert(trim(s@) =~= r@);
    }
    r
}

/// Splits `s` into the part before its first newline and, when a newline
/// is present, the part after it.
pub fn split_first_line<'a>(s: &'a str) -> (r: (&'a str, Option<&'a str>))
    ensures
        r.0@ == header_of(s@),
        match r.1 {
            Some(b) => body_of(s@) == Some(b@),
            None => body_of(s@) is None,
        },
{
    let n = s.unicode_len();
    let mut i: usize = 0;
    while i < n
        invariant
            0 <= i <= n,
            n == s@.len(),
            forall|j: int| 0 <= j < i ==> s@[j] != '\n',
        decreases n - i,
    {
        if s.get_char(i) == '\n' {
            proof {
                lemma_find_idx_at(s@, '\n', i as int);
            }
            let h = s.substring_char(0, i);
            let b = s.substring_char(i + 1, n);
            return (h, Some(b));
        }
        i += 1;
    }
    proof {
        lemma_find_idx_at(s@, '\n', n as int);
    }
    (s, None)
}

/// Splits `s` on single spaces into its tokens, in order.
pub fn split_tokens(s: &str) -> (toks: Vec<String>)
    ensures
        toks.deep_view() == split_on(s@, ' '),
{
    let n = s.unicode_len();
    let mut toks: Vec<String> = Vec::new();
    let mut start: usize = 0;
    let mut i: usize = 0;
    proof {
        assert(s@.subrange(0, n as int) =~= s@);
        assert(toks.deep_view() =~~= Seq::<Seq<char>>::empty());
    }
    while i < n
        invariant
            0 <= start <= i <= n,
            n == s@.len(),
            forall|j: int| start <= j < i ==> s@[j] != ' ',
            split_on(s@, ' ') =~~= toks.deep_view() + split_on(
                s@.subrange(start as int, n as int),
                ' ',
            ),
        decreases n - i,
    {
        if s.get_char(i) == ' ' {
            let tok = s.substring_char(start, i).to_owned();
            proof {
                let suffix = s@.subrange(start as int, n as int);
                lemma_split_step(suffix, ' ', i - start);
                assert(suffix.subrange(0, i - start) =~= s@.subrange(start as int, i as int));
                assert(suffix.subrange(i - start + 1, suffix.len() as int) =~= s@.subrange(
                    i + 1,
                    n as int,
                ));
            }
            let ghost old_toks = toks.deep_view();
            toks.push(tok);
            proof {
                assert(toks.deep_view() =~~= old_toks.push(tok@));
            }
            start = i + 1;
        }
        i += 1;
    }
    let tok = s.substring_char(start, n).to_owned();
    proof {
        let suffix = s@.subrange(start as int, n as int);
        lemma_split_step(suffix, ' ', n - start);
    }
    let ghost old_toks = toks.deep_view();
    toks.push(tok);
    proof {
        assert(toks.deep_view() =~~= old_toks.push(tok@));
        assert(toks.deep_view() =~~= split_on(s@, ' '));
    }
    toks
}

/// Turns a header token into the verb it names.
pub fn parse_verb(tok: &String) -> (v: Verb)
    ensures
        is_verb_for(v, tok@),
{
    if tok.eq(&String::from_str("GET")) {
        Verb::Get
    } else if tok.eq(&String::from_str("PUT")) {
        Verb::Put
    } else if tok.eq(&String::from_str("LIST")) {
        Verb::List
    } else if tok.eq(&String::from_str("RM")) {
        Verb::Rm
    } else if tok.eq(&String::from_str("RMR")) {
        Verb::Rmr
    } else {
        Verb::Unknown(tok.clone())
    }
}

/// Decodes a raw request buffer: trims it once, takes the part before the
/// first newline as the header, splits the header on spaces into the verb
/// token and the arguments, and keeps the rest as the body. Fails exactly
/// when the trimmed buffer is empty.
pub fn decode_request(buffer: &str) -> (r: Result<Request, DecodeError>)
    ensures
        ({
            let t = trim(buffer@);
            if t.len() == 0 {
                r matches Err(DecodeError::MalformedRequest)
            } else {
                let toks = split_on(header_of(t), ' ');
                r matches Ok(req) && is_verb_for(req.verb, toks.first()) && req.args.deep_view()
                    == toks.drop_first() && (match (req.body, body_of(t)) {
                    (Some(b), Some(m)) => b@ == m,
                    (None, None) => true,
                    _ => false,
                })
            }
        }),
{
    let t = trim_slice(buffer);
    if t.unicode_len() == 0 {
        return Err(DecodeError::MalformedRequest);
    }
    let (header, body_part) = split_first_line(t);
    let mut toks = split_tokens(header);
    proof {
        lemma_split_on_len(header@, ' ');
        assert(toks@.len() == toks.deep_view().len());
    }
    let verb_tok = toks.remove(0);
    let verb = parse_verb(&verb_tok);
    let body = match body_part {
        Some(b) => Some(b.to_owned()),
        None => None,
    };
    proof {
        let full = split_on(header@, ' ');
        assert(verb_tok@ == full.first());
        assert(toks.deep_view() =~~= full.drop_first());
    }
    Ok(Request { verb, args: toks, body })
}

// ---------------------------------------------------------------------------
// Response encoding.
// ---------------------------------------------------------------------------

/// The wire form of a response: the outcome word and the tag on one line,
/// then the payload verbatim.
pub open spec fn encoded_response(ok: bool, tag: Seq<char>, payload: Option<Seq<char>>) -> Seq<
    char,
> {
    (if ok {
        "OK "@
    } else {
        "ERR "@
    }) + tag + "\n"@ + (match payload {
        Some(p) => p,
        None => Seq::<char>::empty(),
    })
}

/// The wire form of a response value.
pub open spec fn response_encoding(resp: Response) -> Seq<char> {
    encoded_response(resp.ok, resp.tag@, resp.payload.deep_view())
}

/// Serializes a response for the transport.
pub fn encode_response(resp: &Response) -> (r: String)
    ensures
        r@ == response_encoding(*resp),
{
    let mut out = String::new();
    if resp.ok {
        out.append("OK ");
    } else {
        out.append("ERR ");
    }
    out.append(resp.tag.as_str());
    out.append("\n");
    match &resp.payload {
        Some(p) => out.append(p.as_str()),
        None => (),
    }
    proof {
        assert(out@ =~= response_encoding(*resp));
    }
    out
}

} // verus!
