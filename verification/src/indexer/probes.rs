//! The probes by which an orchestrator watches the indexer: the request that is read, the answer
//! that is given.
use vstd::prelude::*;

use crate::json::json_views;
use crate::json::member_of;
use crate::json::push_item;
use crate::json::put_number;
use crate::json::put_text;
use crate::json::Json;
use crate::json::JsonMember;
use crate::json::JsonView;
use crate::text::chars_of;
use crate::text::dec;
use crate::text::is_space;
use crate::text::push_dec;
use crate::text::same;
use crate::text::space;
use crate::text::string_of;
use crate::text::trim;
use crate::text::trim_chars;
use crate::text::trim_start;

verus! {

broadcast use vstd::string::group_string_axioms;

/// How many characters a text begins with before the first white space, from position `i` on.
pub open spec fn word_end(s: Seq<char>, i: int) -> int
    decreases s.len() - i,
{
    if i >= s.len() || is_space(s[i]) {
        i
    } else {
        word_end(s, i + 1)
    }
}

/// The first word of a text and what follows it.
pub open spec fn first_word(s: Seq<char>) -> (Seq<char>, Seq<char>) {
    let t = trim_start(s);
    (t.take(word_end(t, 0)), t.skip(word_end(t, 0)))
}

/// Where the query of a path begins, from position `i` on, or the end of the path.
pub open spec fn query_start(s: Seq<char>, i: int) -> int
    decreases s.len() - i,
{
    if i >= s.len() || s[i] == '?' {
        i
    } else {
        query_start(s, i + 1)
    }
}

/// The path that a request line asks for: its second word without the query. A line without a
/// second word asks for the root.
pub open spec fn requested_path(line: Seq<char>) -> Seq<char> {
    let target = first_word(first_word(line).1).0;
    if target.len() == 0 {
        "/"@
    } else {
        target.take(query_start(target, 0))
    }
}

proof fn lemma_trim_start_step(s: Seq<char>, i: int)
    requires
        0 <= i < s.len(),
        is_space(s[i]),
    ensures
        trim_start(s.skip(i)) == trim_start(s.skip(i + 1)),
{
    assert(s.skip(i)[0] == s[i]);
    assert(s.skip(i).skip(1) =~= s.skip(i + 1));
}

/// The bounds of the first word at or behind a position.
fn word_at(s: &[char], from: usize) -> (r: (usize, usize))
    requires
        from <= s@.len(),
    ensures
        r.0 <= r.1 <= s@.len(),
        first_word(s@.skip(from as int)) == (
            s@.subrange(r.0 as int, r.1 as int),
            s@.skip(r.1 as int),
        ),
{
    let mut start: usize = from;
    while start < s.len() && space(s[start])
        invariant
            from <= start <= s.len(),
            trim_start(s@.skip(from as int)) == trim_start(s@.skip(start as int)),
        decreases s.len() - start,
    {
        proof {
            lemma_trim_start_step(s@, start as int);
        }
        start = start + 1;
    }
    let ghost t = s@.skip(start as int);
    assert(trim_start(t) == t) by {
        if t.len() > 0 {
            assert(t[0] == s@[start as int]);
        }
    }
    let mut end: usize = start;
    while end < s.len() && !space(s[end])
        invariant
            start <= end <= s.len(),
            t == s@.skip(start as int),
            word_end(t, 0) == word_end(t, end - start),
        decreases s.len() - end,
    {
        assert(t[end - start] == s@[end as int]);
        end = end + 1;
    }
    assert(word_end(t, end - start) == end - start) by {
        if end < s@.len() {
            assert(t[end - start] == s@[end as int]);
        }
    }
    assert(t.take(end - start) =~= s@.subrange(start as int, end as int));
    assert(t.skip(end - start) =~= s@.skip(end as int));
    (start, end)
}

/// The path that a request line asks for.
pub fn request_path(line: &str) -> (r: String)
    ensures
        r@ == requested_path(line@),
{
    let chars = chars_of(line);
    let s = chars.as_slice();
    assert(s@.skip(0) =~= s@);
    let (_, method_end) = word_at(s, 0);
    let (start, end) = word_at(s, method_end);
    if start == end {
        return "/".to_owned();
    }
    let target = vstd::slice::slice_subrange(s, start, end);
    let ghost t = target@;
    let mut i: usize = 0;
    while i < target.len() && target[i] != '?'
        invariant
            i <= target.len(),
            t == target@,
            query_start(t, 0) == query_start(t, i as int),
        decreases target.len() - i,
    {
        i = i + 1;
    }
    let path = vstd::slice::slice_subrange(target, 0, i);
    assert(path@ =~= t.take(query_start(t, 0)));
    string_of(path)
}

/// Whether a line ends the headers of a request: it is blank.
pub fn ends_headers(line: &str) -> (r: bool)
    ensures
        r == (trim(line@).len() == 0),
{
    let chars = chars_of(line);
    trim_chars(chars.as_slice()).len() == 0
}

/// What a path asks for.
#[derive(Debug, Clone, Copy, PartialEq, Eq, Structural)]
pub enum Route {
    /// Whether the process is alive.
    Healthz,
    /// Whether it can do its work.
    Readyz,
    /// The events that could not be decoded lately.
    DeadLetter,
    NotFound,
}

/// What a path asks for.
pub open spec fn route_of(path: Seq<char>) -> Route {
    if path == "/healthz"@ {
        Route::Healthz
    } else if path == "/readyz"@ {
        Route::Readyz
    } else if path == "/admin/dead-letter"@ {
        Route::DeadLetter
    } else {
        Route::NotFound
    }
}

/// What a path asks for.
pub fn route(path: &str) -> (r: Route)
    ensures
        r == route_of(path@),
{
    if same(path, "/healthz") {
        Route::Healthz
    } else if same(path, "/readyz") {
        Route::Readyz
    } else if same(path, "/admin/dead-letter") {
        Route::DeadLetter
    } else {
        Route::NotFound
    }
}

/// An answer.
#[derive(Debug)]
pub struct Answer {
    pub code: u16,
    pub phrase: &'static str,
    pub content_type: &'static str,
    pub body: String,
}

/// What an answer is.
pub struct AnswerView {
    pub code: u16,
    pub phrase: Seq<char>,
    pub content_type: Seq<char>,
    pub body: Seq<char>,
}

impl View for Answer {
    type V = AnswerView;

    open spec fn view(&self) -> AnswerView {
        AnswerView {
            code: self.code,
            phrase: self.phrase@,
            content_type: self.content_type@,
            body: self.body@,
        }
    }
}

/// The answer of a process that is alive.
pub fn healthz() -> (r: Answer)
    ensures
        r@ == (AnswerView {
            code: 200,
            phrase: "OK"@,
            content_type: "text/plain"@,
            body: "ok\n"@,
        }),
{
    Answer { code: 200, phrase: "OK", content_type: "text/plain", body: "ok\n".to_owned() }
}

/// The answer to a path that nothing is known of.
pub fn not_found() -> (r: Answer)
    ensures
        r@ == (AnswerView {
            code: 404,
            phrase: "Not Found"@,
            content_type: "text/plain"@,
            body: "not found\n"@,
        }),
{
    Answer {
        code: 404,
        phrase: "Not Found",
        content_type: "text/plain",
        body: "not found\n".to_owned(),
    }
}

/// The answer to whether the process can do its work, by what it found of the database and of the
/// stream.
pub open spec fn readiness(db_ok: bool, redis_ok: bool) -> AnswerView {
    if db_ok && redis_ok {
        AnswerView {
            code: 200,
            phrase: "OK"@,
            content_type: "text/plain"@,
            body: "ready\n"@,
        }
    } else {
        let reasons = if !db_ok && !redis_ok {
            "db, redis"@
        } else if !db_ok {
            "db"@
        } else {
            "redis"@
        };
        AnswerView {
            code: 503,
            phrase: "Service Unavailable"@,
            content_type: "text/plain"@,
            body: "not ready: "@ + reasons + "\n"@,
        }
    }
}

/// The answer to whether the process can do its work.
pub fn readyz(db_ok: bool, redis_ok: bool) -> (r: Answer)
    ensures
        r@ == readiness(db_ok, redis_ok),
{
    if db_ok && redis_ok {
        return Answer {
            code: 200,
            phrase: "OK",
            content_type: "text/plain",
            body: "ready\n".to_owned(),
        };
    }
    let mut body = "not ready: ".to_owned();
    if !db_ok && !redis_ok {
        body.append("db, redis");
    } else if !db_ok {
        body.append("db");
    } else {
        body.append("redis");
    }
    body.append("\n");
    Answer { code: 503, phrase: "Service Unavailable", content_type: "text/plain", body }
}

/// An event that could not be decoded.
#[derive(Debug)]
pub struct DeadLetterRow {
    pub id: i64,
    pub ledger_sequence: i64,
    pub event_index: i32,
    pub error_message: String,
    /// When it was recorded, as text.
    pub created_at: String,
}

/// An event that could not be decoded, as it is shown.
pub open spec fn dead_letter_json(row: DeadLetterRow) -> JsonView {
    JsonView::Object(
        Map::<Seq<char>, JsonView>::empty().insert("id"@, JsonView::Number(row.id as int)).insert(
            "ledger_sequence"@,
            JsonView::Number(row.ledger_sequence as int),
        ).insert("event_index"@, JsonView::Number(row.event_index as int)).insert(
            "error_message"@,
            JsonView::String(row.error_message@),
        ).insert("created_at"@, JsonView::String(row.created_at@)),
    )
}

/// The events that could not be decoded, as they are shown.
pub fn dead_letter_entries(rows: &[DeadLetterRow]) -> (r: Json)
    ensures
        r@ == JsonView::Array(rows@.map_values(|row: DeadLetterRow| dead_letter_json(row))),
{
    let ghost all = rows@.map_values(|row: DeadLetterRow| dead_letter_json(row));
    let mut list: Vec<Json> = Vec::new();
    let mut i: usize = 0;
    assert(json_views(list@) =~= all.take(0));
    while i < rows.len()
        invariant
            i <= rows.len(),
            all == rows@.map_values(|row: DeadLetterRow| dead_letter_json(row)),
            json_views(list@) == all.take(i as int),
        decreases rows.len() - i,
    {
        let mut m: Vec<JsonMember> = Vec::new();
        put_number(&mut m, "id", rows[i].id as i128);
        put_number(&mut m, "ledger_sequence", rows[i].ledger_sequence as i128);
        put_number(&mut m, "event_index", rows[i].event_index as i128);
        put_text(&mut m, "error_message", rows[i].error_message.as_str());
        put_text(&mut m, "created_at", rows[i].created_at.as_str());
        push_item(&mut list, Json::Object(m));
        assert(all.take(i + 1) =~= all.take(i as int).push(all[i as int]));
        i = i + 1;
    }
    assert(all.take(i as int) =~= all);
    Json::Array(list)
}

/// The answer with the events that could not be decoded, as JSON text, or with the error that kept
/// them from being read.
pub fn dead_letter_answer(entries: Result<String, String>) -> (r: Answer)
    ensures
        match entries {
            Ok(json) => r@ == (AnswerView {
                code: 200,
                phrase: "OK"@,
                content_type: "application/json"@,
                body: json@,
            }),
            Err(e) => r@ == (AnswerView {
                code: 500,
                phrase: "Internal Server Error"@,
                content_type: "application/json"@,
                body: "{\"error\": \""@ + e@ + "\"}"@,
            }),
        },
{
    match entries {
        Ok(json) => Answer {
            code: 200,
            phrase: "OK",
            content_type: "application/json",
            body: json,
        },
        Err(e) => {
            let mut body = "{\"error\": \"".to_owned();
            body.append(e.as_str());
            body.append("\"}");
            Answer {
                code: 500,
                phrase: "Internal Server Error",
                content_type: "application/json",
                body,
            }
        },
    }
}

/// An answer as it goes over the wire.
pub open spec fn wire_text(answer: AnswerView) -> Seq<char> {
    "HTTP/1.1 "@ + dec(answer.code as nat) + " "@ + answer.phrase + "\r\nContent-Type: "@
        + answer.content_type + "\r\nContent-Length: "@ + dec(
        vstd::utf8::encode_utf8(answer.body).len(),
    ) + "\r\nConnection: close\r\n\r\n"@ + answer.body
}

/// Writes an answer as it goes over the wire.
pub fn write_answer(answer: &Answer) -> (r: String)
    ensures
        r@ == wire_text(answer@),
{
    let mut out = "HTTP/1.1 ".to_owned();
    push_dec(&mut out, answer.code as u128);
    out.append(" ");
    out.append(answer.phrase);
    out.append("\r\nContent-Type: ");
    out.append(answer.content_type);
    out.append("\r\nContent-Length: ");
    push_dec(&mut out, answer.body.as_str().as_bytes().len() as u128);
    out.append("\r\nConnection: close\r\n\r\n");
    out.append(answer.body.as_str());
    out
}

/// The indexer reports itself ready only where both the database and the stream answer, and
/// otherwise names each that does not.
pub proof fn readiness_needs_both(db_ok: bool, redis_ok: bool)
    ensures
        readiness(db_ok, redis_ok).code == 200 <==> db_ok && redis_ok,
        readiness(db_ok, redis_ok).code == 503 <==> !(db_ok && redis_ok),
{
}

proof fn lemma_word_end(s: Seq<char>, i: int, n: int)
    requires
        0 <= i <= n <= s.len(),
        forall|k: int| i <= k < n ==> !is_space(#[trigger] s[k]),
        n < s.len() ==> is_space(s[n]),
    ensures
        word_end(s, i) == n,
    decreases n - i,
{
    if i < n {
        assert(!is_space(s[i]));
        lemma_word_end(s, i + 1, n);
    }
}

proof fn lemma_query_start(s: Seq<char>, i: int, n: int)
    requires
        0 <= i <= n <= s.len(),
        forall|k: int| i <= k < n ==> #[trigger] s[k] != '?',
        n < s.len() ==> s[n] == '?',
    ensures
        query_start(s, i) == n,
    decreases n - i,
{
    if i < n {
        assert(s[i] != '?');
        lemma_query_start(s, i + 1, n);
    }
}

proof fn lemma_first_word(word: Seq<char>, rest: Seq<char>)
    requires
        word.len() > 0,
        forall|k: int| 0 <= k < word.len() ==> !is_space(#[trigger] word[k]),
        rest.len() > 0 ==> is_space(rest[0]),
    ensures
        first_word(word + rest) == (word, rest),
{
    let s = word + rest;
    assert(s[0] == word[0]);
    assert forall|k: int| 0 <= k < word.len() implies !is_space(#[trigger] s[k]) by {
        assert(s[k] == word[k]);
    }
    if rest.len() > 0 {
        assert(s[word.len() as int] == rest[0]);
    }
    lemma_word_end(s, 0, word.len() as int);
    assert(s.take(word.len() as int) =~= word);
    assert(s.skip(word.len() as int) =~= rest);
}

/// A request line asks for what stands between its first two blanks, without the query behind the
/// question mark.
pub proof fn request_lines_name_their_path(
    method: Seq<char>,
    path: Seq<char>,
    query: Seq<char>,
    version: Seq<char>,
)
    requires
        method.len() > 0,
        path.len() > 0,
        forall|k: int| 0 <= k < method.len() ==> !is_space(#[trigger] method[k]),
        forall|k: int| 0 <= k < path.len() ==> !is_space(#[trigger] path[k]) && path[k] != '?',
        forall|k: int| 0 <= k < query.len() ==> !is_space(#[trigger] query[k]),
    ensures
        requested_path(method + (seq![' '] + (path + (seq![' '] + version)))) == path,
        requested_path(
            method + (seq![' '] + ((path + seq!['?'] + query) + (seq![' '] + version))),
        ) == path,
{
    let tail = seq![' '] + version;
    assert(tail[0] == ' ');
    let plain = path + tail;
    assert((seq![' '] + plain)[0] == ' ');
    lemma_first_word(method, seq![' '] + plain);
    assert((seq![' '] + plain).skip(1) =~= plain);
    assert(plain[0] == path[0]);
    assert(trim_start(seq![' '] + plain) == trim_start(plain));
    assert(trim_start(plain) == plain);
    lemma_first_word(path, tail);
    assert(first_word(seq![' '] + plain) == first_word(plain));
    lemma_query_start(path, 0, path.len() as int);
    assert(path.take(path.len() as int) =~= path);
    let target = path + seq!['?'] + query;
    let asked = target + tail;
    assert forall|k: int| 0 <= k < target.len() implies !is_space(#[trigger] target[k]) by {
        if k < path.len() {
            assert(target[k] == path[k]);
        } else if k == path.len() {
            assert(target[k] == '?');
        } else {
            assert(target[k] == query[k - path.len() - 1]);
        }
    }
    assert((seq![' '] + asked)[0] == ' ');
    lemma_first_word(method, seq![' '] + asked);
    assert((seq![' '] + asked).skip(1) =~= asked);
    assert(asked[0] == target[0]);
    assert(trim_start(seq![' '] + asked) == trim_start(asked));
    assert(trim_start(asked) == asked);
    lemma_first_word(target, tail);
    assert(first_word(seq![' '] + asked) == first_word(asked));
    assert forall|k: int| 0 <= k < path.len() implies #[trigger] target[k] != '?' by {
        assert(target[k] == path[k]);
    }
    lemma_query_start(target, 0, path.len() as int);
    assert(target.take(path.len() as int) =~= path);
}

/// Three paths are known, and no other.
pub proof fn three_paths_are_known(path: Seq<char>)
    ensures
        route_of("/healthz"@) == Route::Healthz,
        route_of("/readyz"@) == Route::Readyz,
        route_of("/admin/dead-letter"@) == Route::DeadLetter,
        path != "/healthz"@ && path != "/readyz"@ && path != "/admin/dead-letter"@ ==> route_of(path)
            == Route::NotFound,
{
    reveal_strlit("/healthz");
    reveal_strlit("/readyz");
    reveal_strlit("/admin/dead-letter");
    assert("/healthz"@.len() == 8 && "/readyz"@.len() == 7 && "/admin/dead-letter"@.len() == 18);
}

/// What is not ready is named, and an answer of that says so.
pub proof fn what_is_not_ready_is_named()
    ensures
        readiness(true, true).body == "ready\n"@,
        readiness(false, true).body == "not ready: "@ + "db"@ + "\n"@,
        readiness(true, false).body == "not ready: "@ + "redis"@ + "\n"@,
        readiness(false, false).body == "not ready: "@ + "db, redis"@ + "\n"@,
        readiness(true, true).phrase == "OK"@,
        readiness(false, true).phrase == "Service Unavailable"@,
        readiness(true, false).content_type == "text/plain"@,
{
}

/// An event that could not be decoded is shown with each column under its own name.
pub proof fn dead_letters_show_their_columns(row: DeadLetterRow)
    ensures
        member_of(dead_letter_json(row), "id"@) == Some(JsonView::Number(row.id as int)),
        member_of(dead_letter_json(row), "ledger_sequence"@) == Some(
            JsonView::Number(row.ledger_sequence as int),
        ),
        member_of(dead_letter_json(row), "event_index"@) == Some(
            JsonView::Number(row.event_index as int),
        ),
        member_of(dead_letter_json(row), "error_message"@) == Some(
            JsonView::String(row.error_message@),
        ),
        member_of(dead_letter_json(row), "created_at"@) == Some(JsonView::String(row.created_at@)),
{
    reveal_strlit("id");
    reveal_strlit("ledger_sequence");
    reveal_strlit("event_index");
    reveal_strlit("error_message");
    reveal_strlit("created_at");
    assert("id"@.len() == 2 && "ledger_sequence"@.len() == 15 && "event_index"@.len() == 11
        && "error_message"@.len() == 13 && "created_at"@.len() == 10);
}

/// Over the wire goes the status line, then the kind and the length in bytes of the body, then the
/// body itself.
pub proof fn answers_go_out_with_their_length(answer: AnswerView)
    ensures
        wire_text(answer) == "HTTP/1.1 "@ + dec(answer.code as nat) + " "@ + answer.phrase
            + "\r\nContent-Type: "@ + answer.content_type + "\r\nContent-Length: "@ + dec(
            vstd::utf8::encode_utf8(answer.body).len(),
        ) + "\r\nConnection: close\r\n\r\n"@ + answer.body,
        wire_text(answer).skip(wire_text(answer).len() - answer.body.len()) == answer.body,
{
    let n = wire_text(answer).len() - answer.body.len();
    assert(wire_text(answer).skip(n as int) =~= answer.body);
}

/// An answer is seen with each field in its own place.
pub proof fn answers_show_what_they_hold(a: Answer)
    ensures
        a@.code == a.code,
        a@.phrase == a.phrase@,
        a@.content_type == a.content_type@,
        a@.body == a.body@,
{
}

/// The answers go out with their status: a living process says so, an unknown path is not found,
/// and what could not be read is an error with its reason.
pub proof fn answers_have_their_status(
    alive: Answer,
    unknown: Answer,
    entries: Result<String, String>,
    letters: Answer,
)
    requires
        call_ensures(healthz, (), alive),
        call_ensures(not_found, (), unknown),
        call_ensures(dead_letter_answer, (entries,), letters),
    ensures
        alive.code == 200 && alive.phrase@ == "OK"@ && alive.body@ == "ok\n"@,
        unknown.code == 404 && unknown.phrase@ == "Not Found"@ && unknown.body@ == "not found\n"@,
        letters.content_type@ == "application/json"@,
        entries matches Ok(json) ==> letters.code == 200 && letters.body@ == json@,
        entries matches Err(e) ==> letters.code == 500 && letters.phrase@
            == "Internal Server Error"@ && letters.body@ == "{\"error\": \""@ + e@ + "\"}"@,
{
}

} // verus!
