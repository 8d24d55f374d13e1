//! Reading the session id and port out of what `polytoken new --no-attach` prints.

use vstd::prelude::*;
use crate::text::{
    append_str, char_vec_views, chars_of, lines, lines_of, lowercase, owned, parse_u16, parse_u16_spec,
    string_of, strip_prefix, strip_prefix_chars, to_lowercase, trim, trim_chars, words, words_of,
};

verus! {

/// A member of a JSON object, as the session parser reads it.
#[derive(Clone, Debug)]
pub enum JsonField {
    Absent,
    Str(String),
    UInt(u64),
    Other,
}

/// The view of a JSON member.
pub enum JsonFieldView {
    Absent,
    Str(Seq<char>),
    UInt(u64),
    Other,
}

impl View for JsonField {
    type V = JsonFieldView;

    open spec fn view(&self) -> JsonFieldView {
        match self {
            JsonField::Absent => JsonFieldView::Absent,
            JsonField::Str(s) => JsonFieldView::Str(s@),
            JsonField::UInt(n) => JsonFieldView::UInt(*n),
            JsonField::Other => JsonFieldView::Other,
        }
    }
}

/// `serde_json::from_str::<serde_json::Value>(text)` followed by `Value::get(key)`: `None`
/// when `text` is not a JSON document; otherwise the member `key` (absent when the
/// document is not an object or has no such member), a string, a number that
/// `Value::as_u64` gives, or something else.
pub uninterp spec fn json_member(text: Seq<char>, key: Seq<char>) -> Option<JsonFieldView>;

/// Parses `text` as JSON with serde_json and reads the member `key`. What serde_json
/// accepts as JSON is named, not written out.
#[verifier::external_body]
fn json_member_of(text: &str, key: &str) -> (r: Option<JsonField>)
    ensures
        match r {
            Some(f) => json_member(text@, key@) == Some(f@),
            None => json_member(text@, key@) is None,
        },
{
    match serde_json::from_str::<serde_json::Value>(text) {
        Err(_) => None,
        Ok(v) => Some(match v.get(key) {
            None => JsonField::Absent,
            Some(serde_json::Value::String(s)) => JsonField::Str(s.clone()),
            Some(x) => match x.as_u64() {
                Some(n) => JsonField::UInt(n),
                None => JsonField::Other,
            },
        }),
    }
}

/// Why the session output could not be read. Each variant keeps the raw output.
#[derive(Clone, Debug)]
pub enum SessionParseError {
    /// JSON output without a string `session_id` (or `id`).
    JsonWithoutSessionId { output: String },
    /// JSON output without an unsigned `port`.
    JsonWithoutPort { output: String },
    /// Text output in which no session id and port were found.
    Unrecognized { output: String },
}

/// The kinds of `SessionParseError`.
pub enum SessionParseFailure {
    JsonWithoutSessionId,
    JsonWithoutPort,
    Unrecognized,
}

impl SessionParseError {
    pub open spec fn kind(self) -> SessionParseFailure {
        match self {
            SessionParseError::JsonWithoutSessionId { .. } => SessionParseFailure::JsonWithoutSessionId,
            SessionParseError::JsonWithoutPort { .. } => SessionParseFailure::JsonWithoutPort,
            SessionParseError::Unrecognized { .. } => SessionParseFailure::Unrecognized,
        }
    }

    pub open spec fn output(self) -> Seq<char> {
        match self {
            SessionParseError::JsonWithoutSessionId { output } => output@,
            SessionParseError::JsonWithoutPort { output } => output@,
            SessionParseError::Unrecognized { output } => output@,
        }
    }

    pub open spec fn message_spec(self) -> Seq<char> {
        match self {
            SessionParseError::JsonWithoutSessionId { output } =>
                "could not find session ID in JSON output: "@ + output@,
            SessionParseError::JsonWithoutPort { output } =>
                "could not find port in JSON output: "@ + output@,
            SessionParseError::Unrecognized { output } =>
                "could not parse session ID and port from polytoken output: "@ + output@,
        }
    }

    /// The error's description, which includes the raw output.
    pub fn message(&self) -> (m: String)
        ensures
            m@ == self.message_spec(),
    {
        match self {
            SessionParseError::JsonWithoutSessionId { output } => {
                let mut m = owned("could not find session ID in JSON output: ");
                append_str(&mut m, output.as_str());
                m
            },
            SessionParseError::JsonWithoutPort { output } => {
                let mut m = owned("could not find port in JSON output: ");
                append_str(&mut m, output.as_str());
                m
            },
            SessionParseError::Unrecognized { output } => {
                let mut m = owned("could not parse session ID and port from polytoken output: ");
                append_str(&mut m, output.as_str());
                m
            },
        }
    }
}

/// A member lookup on text that is not JSON reads as absent.
pub open spec fn member_or_absent(f: Option<JsonFieldView>) -> JsonFieldView {
    match f {
        Some(x) => x,
        None => JsonFieldView::Absent,
    }
}

/// The session id and port from the members `session_id`, `id` and `port` of a JSON
/// document: `session_id` (or, when that member is absent, `id`) must be a string and
/// `port` an unsigned number, taken modulo 2^16.
pub open spec fn session_from_members(sid: JsonFieldView, id: JsonFieldView, port: JsonFieldView) -> Result<
    (Seq<char>, u16),
    SessionParseFailure,
> {
    let f = if sid is Absent { id } else { sid };
    match f {
        JsonFieldView::Str(name) => match port {
            JsonFieldView::UInt(n) => Ok((name, (n % 65536) as u16)),
            _ => Err(SessionParseFailure::JsonWithoutPort),
        },
        _ => Err(SessionParseFailure::JsonWithoutSessionId),
    }
}

/// The session id and port read from JSON output.
pub open spec fn session_from_json(text: Seq<char>) -> Result<(Seq<char>, u16), SessionParseFailure> {
    session_from_members(
        member_or_absent(json_member(text, "session_id"@)),
        member_or_absent(json_member(text, "id"@)),
        member_or_absent(json_member(text, "port"@)),
    )
}

/// What has been found so far: a session id and a port.
pub type Found = (Option<Seq<char>>, Option<u16>);

/// One whitespace-separated token of a line: `session_id=<id>` or `port=<n>`.
pub open spec fn scan_token(st: Found, tok: Seq<char>) -> Found {
    match strip_prefix(tok, "session_id="@) {
        Some(rest) => (Some(trim(rest)), st.1),
        None => match strip_prefix(tok, "port="@) {
            Some(rest) => match parse_u16_spec(trim(rest)) {
                Some(p) => (st.0, Some(p)),
                None => st,
            },
            None => st,
        },
    }
}

/// The tokens of a line, in order.
pub open spec fn scan_tokens(st: Found, toks: Seq<Seq<char>>) -> Found
    decreases toks.len(),
{
    if toks.len() == 0 {
        st
    } else {
        scan_token(scan_tokens(st, toks.drop_last()), toks.last())
    }
}

/// One line of output, already trimmed and lowercased: `session id: <id>`,
/// `session: <id>`, `port: <n>`, or else a line of `key=value` tokens. A later finding
/// replaces an earlier one.
pub open spec fn scan_lowered(st: Found, lower: Seq<char>) -> Found {
    match strip_prefix(lower, "session id:"@) {
        Some(rest) => (Some(trim(rest)), st.1),
        None => match strip_prefix(lower, "session:"@) {
            Some(rest) => (Some(trim(rest)), st.1),
            None => match strip_prefix(lower, "port:"@) {
                Some(rest) => match parse_u16_spec(trim(rest)) {
                    Some(p) => (st.0, Some(p)),
                    None => st,
                },
                None => scan_tokens(st, words(lower)),
            },
        },
    }
}

/// The trimmed, lowercased lines, in order.
pub open spec fn scan_lowered_lines(st: Found, ls: Seq<Seq<char>>) -> Found
    decreases ls.len(),
{
    if ls.len() == 0 {
        st
    } else {
        scan_lowered(scan_lowered_lines(st, ls.drop_last()), ls.last())
    }
}

/// The lines of the output, each trimmed and lowercased.
pub open spec fn lowered_lines(text: Seq<char>) -> Seq<Seq<char>> {
    lines(text).map_values(|l: Seq<char>| lowercase(trim(l)))
}

/// The session id and port read from trimmed, lowercased lines.
pub open spec fn session_from_lowered(ls: Seq<Seq<char>>) -> Result<(Seq<char>, u16), SessionParseFailure> {
    match scan_lowered_lines((None, None), ls) {
        (Some(id), Some(p)) => Ok((id, p)),
        _ => Err(SessionParseFailure::Unrecognized),
    }
}

/// The session id and port read from text output.
pub open spec fn session_from_text(text: Seq<char>) -> Result<(Seq<char>, u16), SessionParseFailure> {
    session_from_lowered(lowered_lines(text))
}

/// What `parse_session_output` gives: JSON output is read as JSON, anything else line
/// by line.
pub open spec fn session_output(text: Seq<char>) -> Result<(Seq<char>, u16), SessionParseFailure> {
    if json_member(text, "session_id"@) is Some {
        session_from_json(text)
    } else {
        session_from_text(text)
    }
}

/// The view of an optional character vector.
pub open spec fn opt_view(o: Option<Vec<char>>) -> Option<Seq<char>> {
    match o {
        Some(v) => Some(v@),
        None => None,
    }
}

fn text_of(v: &Vec<char>) -> (s: String)
    ensures
        s@ == v@,
{
    string_of(v.as_slice())
}

fn scan_token_exec(id: &mut Option<Vec<char>>, port: &mut Option<u16>, tok: &Vec<char>)
    ensures
        ({
            let st: Found = (opt_view(*old(id)), *old(port));
            let r = scan_token(st, tok@);
            r == (opt_view(*final(id)), *final(port))
        }),
{
    let p1 = chars_of("session_id=");
    let p2 = chars_of("port=");
    match strip_prefix_chars(tok.as_slice(), p1.as_slice()) {
        Some(rest) => {
            *id = Some(trim_chars(rest.as_slice()));
        },
        None => match strip_prefix_chars(tok.as_slice(), p2.as_slice()) {
            Some(rest) => {
                let t = trim_chars(rest.as_slice());
                match parse_u16(t.as_slice()) {
                    Some(p) => {
                        *port = Some(p);
                    },
                    None => {},
                }
            },
            None => {},
        },
    }
}

fn scan_lowered_exec(id: &mut Option<Vec<char>>, port: &mut Option<u16>, lower: &Vec<char>)
    ensures
        ({
            let st: Found = (opt_view(*old(id)), *old(port));
            let r = scan_lowered(st, lower@);
            r == (opt_view(*final(id)), *final(port))
        }),
{
    let p1 = chars_of("session id:");
    let p2 = chars_of("session:");
    let p3 = chars_of("port:");
    match strip_prefix_chars(lower.as_slice(), p1.as_slice()) {
        Some(rest) => {
            *id = Some(trim_chars(rest.as_slice()));
            return ;
        },
        None => {},
    }
    match strip_prefix_chars(lower.as_slice(), p2.as_slice()) {
        Some(rest) => {
            *id = Some(trim_chars(rest.as_slice()));
            return ;
        },
        None => {},
    }
    match strip_prefix_chars(lower.as_slice(), p3.as_slice()) {
        Some(rest) => {
            let tt = trim_chars(rest.as_slice());
            match parse_u16(tt.as_slice()) {
                Some(p) => {
                    *port = Some(p);
                },
                None => {},
            }
            return ;
        },
        None => {},
    }
    let toks = words_of(lower.as_slice());
    let ghost st0: Found = (opt_view(*id), *port);
    let mut k: usize = 0;
    while k < toks.len()
        invariant
            k <= toks.len(),
            char_vec_views(toks@) == words(lower@),
            scan_tokens(st0, char_vec_views(toks@).take(k as int)) == (opt_view(*id), *port),
        decreases toks.len() - k,
    {
        proof {
            let vs = char_vec_views(toks@);
            assert(vs.take(k + 1).drop_last() =~= vs.take(k as int));
            assert(vs.take(k + 1).last() == toks@[k as int]@);
        }
        scan_token_exec(id, port, &toks[k]);
        k = k + 1;
    }
    proof {
        let vs = char_vec_views(toks@);
        assert(vs.take(k as int) =~= vs);
    }
}

/// The session id and port from the members of JSON output (`id` is read only when
/// `session_id` is absent); an error keeps the raw output.
pub fn session_from_json_members(sid: JsonField, id: JsonField, port: JsonField, output: &str) -> (r: Result<
    (String, u16),
    SessionParseError,
>)
    ensures
        match r {
            Ok((name, p)) => session_from_members(sid@, id@, port@) == Ok::<(Seq<char>, u16), SessionParseFailure>(
                (name@, p),
            ),
            Err(e) => session_from_members(sid@, id@, port@) == Err::<(Seq<char>, u16), SessionParseFailure>(
                e.kind(),
            ) && e.output() == output@,
        },
{
    let f = match sid {
        JsonField::Absent => id,
        other => other,
    };
    match f {
        JsonField::Str(name) => match port {
            JsonField::UInt(n) => Ok((name, (n % 65536) as u16)),
            _ => Err(SessionParseError::JsonWithoutPort { output: owned(output) }),
        },
        _ => Err(SessionParseError::JsonWithoutSessionId { output: owned(output) }),
    }
}

/// The session id and port from the lines of text output, each already trimmed and
/// lowercased; an error keeps the raw output.
pub fn session_from_lowered_lines(lowered: &Vec<String>, output: &str) -> (r: Result<(String, u16), SessionParseError>)
    ensures
        match r {
            Ok((name, p)) => session_from_lowered(lowered@.map_values(|l: String| l@)) == Ok::<
                (Seq<char>, u16),
                SessionParseFailure,
            >((name@, p)),
            Err(e) => session_from_lowered(lowered@.map_values(|l: String| l@)) == Err::<
                (Seq<char>, u16),
                SessionParseFailure,
            >(e.kind()) && e.output() == output@,
        },
{
    let ghost views = lowered@.map_values(|l: String| l@);
    let mut id: Option<Vec<char>> = None;
    let mut port: Option<u16> = None;
    let mut i: usize = 0;
    while i < lowered.len()
        invariant
            i <= lowered.len(),
            views == lowered@.map_values(|l: String| l@),
            scan_lowered_lines((None, None), views.take(i as int)) == (opt_view(id), port),
        decreases lowered.len() - i,
    {
        proof {
            assert(views.take(i + 1).drop_last() =~= views.take(i as int));
            assert(views.take(i + 1).last() == lowered@[i as int]@);
        }
        let line = chars_of(lowered[i].as_str());
        scan_lowered_exec(&mut id, &mut port, &line);
        i = i + 1;
    }
    proof {
        assert(views.take(i as int) =~= views);
    }
    match (id, port) {
        (Some(v), Some(p)) => Ok((text_of(&v), p)),
        _ => Err(SessionParseError::Unrecognized { output: owned(output) }),
    }
}

/// Reads the session id and port from what `polytoken new --no-attach` printed: JSON
/// (`{"session_id": .., "port": ..}`), `Session ID: ..` / `Port: ..` lines, or
/// `session_id=.. port=..` tokens.
pub fn parse_session_output(stdout: &str) -> (r: Result<(String, u16), SessionParseError>)
    ensures
        match r {
            Ok((id, p)) => session_output(stdout@) == Ok::<(Seq<char>, u16), SessionParseFailure>((id@, p)),
            Err(e) => session_output(stdout@) == Err::<(Seq<char>, u16), SessionParseFailure>(e.kind())
                && e.output() == stdout@,
        },
{
    match json_member_of(stdout, "session_id") {
        Some(sid) => {
            let id = match sid {
                JsonField::Absent => match json_member_of(stdout, "id") {
                    Some(x) => x,
                    None => JsonField::Absent,
                },
                _ => JsonField::Absent,
            };
            let port = match json_member_of(stdout, "port") {
                Some(x) => x,
                None => JsonField::Absent,
            };
            session_from_json_members(sid, id, port, stdout)
        },
        None => {
            let text = chars_of(stdout);
            let ls = lines_of(text.as_slice());
            let mut lowered: Vec<String> = Vec::new();
            let mut i: usize = 0;
            while i < ls.len()
                invariant
                    i <= ls.len(),
                    char_vec_views(ls@) == lines(stdout@),
                    lowered@.map_values(|l: String| l@) == lowered_lines(stdout@).take(i as int),
                decreases ls.len() - i,
            {
                let t = trim_chars(ls[i].as_slice());
                let ts = text_of(&t);
                let low = to_lowercase(ts.as_str());
                let ghost before = lowered@.map_values(|l: String| l@);
                lowered.push(low);
                proof {
                    assert(ls@[i as int]@ == lines(stdout@)[i as int]);
                    assert(lowered@.map_values(|l: String| l@) =~= before.push(low@));
                    assert(lowered_lines(stdout@).take(i + 1) =~= lowered_lines(stdout@).take(i as int).push(
                        lowercase(trim(lines(stdout@)[i as int])),
                    ));
                }
                i = i + 1;
            }
            proof {
                assert(lowered_lines(stdout@).take(i as int) =~= lowered_lines(stdout@));
            }
            session_from_lowered_lines(&lowered, stdout)
        },
    }
}

} // verus!
