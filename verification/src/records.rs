//! The request recorder: what is written to the audit log for a request.

use vstd::prelude::*;
use vstd::string::StringExecFns;
use crate::errors::AppError;
use crate::jobs::JobWithMeta;

verus! {

/// One event of the audit log. A record is written once and never changed.
#[derive(Debug, Clone, PartialEq, Eq)]
pub struct RequestRecord {
    /// When the request was concluded, as an RFC 3339 timestamp.
    pub ts_rfc3339: String,
    /// Whether the request presented the bypass credential.
    pub bypass: bool,
    /// How the request ended: `success` or the tag of its error.
    pub outcome: String,
    /// The name of the uploaded file, for a request that succeeded.
    pub filename: Option<String>,
    /// The diagnostic text, for a request that failed.
    pub error: Option<String>,
}

/// The outcome tag of a request that succeeded.
pub const OUTCOME_SUCCESS: &'static str = "success";

/// The error of `serde_json`, kept as it comes.
#[verifier::external_type_specification]
#[verifier::external_body]
pub struct ExJsonError(serde_json::Error);

/// The character of a hexadecimal digit, in lower case.
pub open spec fn hex_char(nibble: int) -> char {
    if nibble == 0 {
        '0'
    } else if nibble == 1 {
        '1'
    } else if nibble == 2 {
        '2'
    } else if nibble == 3 {
        '3'
    } else if nibble == 4 {
        '4'
    } else if nibble == 5 {
        '5'
    } else if nibble == 6 {
        '6'
    } else if nibble == 7 {
        '7'
    } else if nibble == 8 {
        '8'
    } else if nibble == 9 {
        '9'
    } else if nibble == 10 {
        'a'
    } else if nibble == 11 {
        'b'
    } else if nibble == 12 {
        'c'
    } else if nibble == 13 {
        'd'
    } else if nibble == 14 {
        'e'
    } else {
        'f'
    }
}

/// How one character stands inside a JSON string: a quote and a backslash
/// behind a backslash, a control character by its short escape or as
/// `\u00XX`, every other character as it is.
pub open spec fn json_escape(c: char) -> Seq<char> {
    if c == '"' {
        seq!['\\', '"']
    } else if c == '\\' {
        seq!['\\', '\\']
    } else if c == '\u{8}' {
        seq!['\\', 'b']
    } else if c == '\t' {
        seq!['\\', 't']
    } else if c == '\n' {
        seq!['\\', 'n']
    } else if c == '\u{c}' {
        seq!['\\', 'f']
    } else if c == '\r' {
        seq!['\\', 'r']
    } else if (c as int) < 0x20 {
        seq!['\\', 'u', '0', '0', hex_char((c as int) / 16), hex_char((c as int) % 16)]
    } else {
        seq![c]
    }
}

/// The characters of `s`, each as it stands inside a JSON string.
pub open spec fn json_escaped(s: Seq<char>) -> Seq<char>
    decreases s.len(),
{
    if s.len() == 0 {
        Seq::empty()
    } else {
        json_escaped(s.drop_last()) + json_escape(s.last())
    }
}

/// `s` as a JSON string: escaped, between double quotes.
pub open spec fn json_string(s: Seq<char>) -> Seq<char> {
    seq!['"'] + json_escaped(s) + seq!['"']
}

/// An optional text as JSON: a string, or `null`.
pub open spec fn json_optional(s: Option<Seq<char>>) -> Seq<char> {
    match s {
        Some(text) => json_string(text),
        None => "null"@,
    }
}

/// A truth value as JSON.
pub open spec fn json_bool(b: bool) -> Seq<char> {
    if b {
        "true"@
    } else {
        "false"@
    }
}

/// The JSON object of a record, given the JSON of each of its fields: one
/// line without spaces, the fields in the order of their declaration.
pub open spec fn record_object(
    ts: Seq<char>,
    bypass: Seq<char>,
    outcome: Seq<char>,
    filename: Seq<char>,
    error: Seq<char>,
) -> Seq<char> {
    "{\"ts_rfc3339\":"@ + ts + ",\"bypass\":"@ + bypass + ",\"outcome\":"@ + outcome
        + ",\"filename\":"@ + filename + ",\"error\":"@ + error + "}"@
}

/// The text of an optional string.
pub open spec fn optional_text(s: Option<String>) -> Option<Seq<char>> {
    match s {
        Some(t) => Some(t@),
        None => None,
    }
}

impl RequestRecord {
    /// The line of the audit log that holds the record: its JSON object and
    /// a line feed.
    pub open spec fn line_text(self) -> Seq<char> {
        record_object(
            json_string(self.ts_rfc3339@),
            json_bool(self.bypass),
            json_string(self.outcome@),
            json_optional(optional_text(self.filename)),
            json_optional(optional_text(self.error)),
        ) + seq!['\n']
    }
}

/// `s` as a JSON string.
///
/// Trusted: `serde_json::to_string` writes a string between double quotes
/// and escapes the quote, the backslash and the characters below U+0020,
/// these by `\b`, `\t`, `\n`, `\f`, `\r` or `\u00XX` with lower-case digits;
/// all other characters are written as they are. On a string the call does
/// not fail: serialisation fails only where a value refuses to be
/// serialised or a map has a key that is no string, and the text is
/// written into a vector in memory, whose writes give no error.
#[verifier::external_body]
pub(crate) fn json_quote(s: &str) -> (quoted: Result<String, serde_json::Error>)
    ensures
        quoted is Ok,
        quoted matches Ok(text) ==> text@ == json_string(s@),
{
    serde_json::to_string(s)
}

/// A text could not be written as a JSON string.
#[derive(Debug, Clone, Copy, PartialEq, Eq, Structural)]
pub struct NotQuoted;

/// The line of the audit log for a record, given the JSON of its texts.
pub fn assemble_record_line(
    ts_json: &str,
    bypass: bool,
    outcome_json: &str,
    filename_json: Option<&str>,
    error_json: Option<&str>,
) -> (line: String)
    ensures
        line@ == record_object(
            ts_json@,
            json_bool(bypass),
            outcome_json@,
            match filename_json {
                Some(text) => text@,
                None => "null"@,
            },
            match error_json {
                Some(text) => text@,
                None => "null"@,
            },
        ) + seq!['\n'],
{
    let bypass_json = if bypass {
        "true"
    } else {
        "false"
    };
    let filename_json = match filename_json {
        Some(text) => text,
        None => "null",
    };
    let error_json = match error_json {
        Some(text) => text,
        None => "null",
    };
    proof {
        reveal_strlit("\n");
        assert("\n"@ == seq!['\n']);
    }
    String::from_str("{\"ts_rfc3339\":").concat(ts_json).concat(",\"bypass\":").concat(
        bypass_json,
    ).concat(",\"outcome\":").concat(outcome_json).concat(",\"filename\":").concat(
        filename_json,
    ).concat(",\"error\":").concat(error_json).concat("}").concat("\n")
}

/// `s` as a JSON string.
fn quote(s: &str) -> (quoted: Result<String, NotQuoted>)
    ensures
        quoted matches Ok(text) && text@ == json_string(s@),
{
    match json_quote(s) {
        Ok(text) => Ok(text),
        Err(_) => Err(NotQuoted),
    }
}

/// An optional text as a JSON string where it is there.
fn quote_optional(text: &Option<String>) -> (quoted: Result<Option<String>, NotQuoted>)
    ensures
        match *text {
            None => quoted matches Ok(json) && json is None,
            Some(t) => quoted matches Ok(json) && json matches Some(q) && q@ == json_string(t@),
        },
{
    match text {
        Some(t) => match quote(t.as_str()) {
            Ok(q) => Ok(Some(q)),
            Err(e) => Err(e),
        },
        None => Ok(None),
    }
}

/// The JSON of an optional field that has been quoted: the quoted text, or
/// `null` for a field that is not there.
pub open spec fn quoted_or_null(quoted: Option<String>) -> Seq<char> {
    match quoted {
        Some(text) => text@,
        None => "null"@,
    }
}

/// The line of the audit log for a record, given what came of quoting each
/// of its texts.
///
/// There is a line exactly when every text could be quoted; it is the JSON
/// object of the quoted fields, followed by a line feed.
pub fn line_of_quoted(
    ts: Result<String, NotQuoted>,
    bypass: bool,
    outcome: Result<String, NotQuoted>,
    filename: Result<Option<String>, NotQuoted>,
    error: Result<Option<String>, NotQuoted>,
) -> (line: Option<String>)
    ensures
        line is Some <==> ts is Ok && outcome is Ok && filename is Ok && error is Ok,
        line matches Some(text) ==> text@ == record_object(
            ts->Ok_0@,
            json_bool(bypass),
            outcome->Ok_0@,
            quoted_or_null(filename->Ok_0),
            quoted_or_null(error->Ok_0),
        ) + seq!['\n'],
{
    let ts = match ts {
        Ok(q) => q,
        Err(_) => {
            return None;
        },
    };
    let outcome = match outcome {
        Ok(q) => q,
        Err(_) => {
            return None;
        },
    };
    let filename = match filename {
        Ok(q) => q,
        Err(_) => {
            return None;
        },
    };
    let error = match error {
        Ok(q) => q,
        Err(_) => {
            return None;
        },
    };
    let filename_json: Option<&str> = match &filename {
        Some(q) => Some(q.as_str()),
        None => None,
    };
    let error_json: Option<&str> = match &error {
        Some(q) => Some(q.as_str()),
        None => None,
    };
    Some(
        assemble_record_line(ts.as_str(), bypass, outcome.as_str(), filename_json, error_json),
    )
}

/// The line to append to the audit log for `record`: one JSON object on a
/// line of its own. Every record has its line.
pub fn record_line(record: &RequestRecord) -> (line: Option<String>)
    ensures
        line matches Some(text) && text@ == record.line_text(),
{
    let ts = quote(record.ts_rfc3339.as_str());
    let outcome = quote(record.outcome.as_str());
    let filename = quote_optional(&record.filename);
    let error = quote_optional(&record.error);
    line_of_quoted(ts, record.bypass, outcome, filename, error)
}

/// The record of a request that the client got an answer for.
///
/// A request that succeeded is recorded with the name of the uploaded file
/// and no error; one that failed, with the tag and the text of its error
/// and no file name.
pub fn request_record(ts_rfc3339: String, bypass: bool, result: &Result<JobWithMeta, AppError>) -> (record:
    RequestRecord)
    ensures
        record.ts_rfc3339 == ts_rfc3339,
        record.bypass == bypass,
        match *result {
            Ok(job) => {
                &&& record.outcome@ == OUTCOME_SUCCESS@
                &&& optional_text(record.filename) == optional_text(job.file_name)
                &&& record.error is None
            },
            Err(e) => {
                &&& record.outcome@ == e.outcome_text()
                &&& record.filename is None
                &&& optional_text(record.error) == Some(e.message_text())
            },
        },
{
    match result {
        Ok(job) => RequestRecord {
            ts_rfc3339,
            bypass,
            outcome: String::from_str(OUTCOME_SUCCESS),
            filename: match &job.file_name {
                Some(name) => Some(name.clone()),
                None => None,
            },
            error: None,
        },
        Err(e) => RequestRecord {
            ts_rfc3339,
            bypass,
            outcome: String::from_str(e.outcome()),
            filename: None,
            error: Some(e.message()),
        },
    }
}

/// Whether `s` holds no line feed.
pub open spec fn has_no_line_feed(s: Seq<char>) -> bool {
    forall|i: int| 0 <= i < s.len() ==> s[i] != '\n'
}

/// Two texts without a line feed make one without.
proof fn lemma_joined_has_no_line_feed(a: Seq<char>, b: Seq<char>)
    requires
        has_no_line_feed(a),
        has_no_line_feed(b),
    ensures
        has_no_line_feed(a + b),
{
}

/// No line feed stands in a JSON string as it is: it is escaped.
proof fn lemma_json_string_has_no_line_feed(s: Seq<char>)
    ensures
        has_no_line_feed(json_escaped(s)),
        has_no_line_feed(json_string(s)),
    decreases s.len(),
{
    if s.len() > 0 {
        lemma_json_string_has_no_line_feed(s.drop_last());
        lemma_joined_has_no_line_feed(json_escaped(s.drop_last()), json_escape(s.last()));
    }
    lemma_joined_has_no_line_feed(seq!['"'], json_escaped(s));
    lemma_joined_has_no_line_feed(seq!['"'] + json_escaped(s), seq!['"']);
}

/// Every record takes exactly one line of the audit log: its line ends in
/// a line feed and holds no other.
pub proof fn lemma_record_takes_one_line(record: RequestRecord)
    ensures
        record.line_text().len() > 0,
        record.line_text().last() == '\n',
        has_no_line_feed(record.line_text().drop_last()),
{
    reveal_strlit("{\"ts_rfc3339\":");
    reveal_strlit(",\"bypass\":");
    reveal_strlit(",\"outcome\":");
    reveal_strlit(",\"filename\":");
    reveal_strlit(",\"error\":");
    reveal_strlit("}");
    reveal_strlit("null");
    reveal_strlit("true");
    reveal_strlit("false");
    let ts = json_string(record.ts_rfc3339@);
    let bypass = json_bool(record.bypass);
    let outcome = json_string(record.outcome@);
    let filename = json_optional(optional_text(record.filename));
    let error = json_optional(optional_text(record.error));
    lemma_json_string_has_no_line_feed(record.ts_rfc3339@);
    lemma_json_string_has_no_line_feed(record.outcome@);
    if record.filename is Some {
        lemma_json_string_has_no_line_feed(record.filename.unwrap()@);
    }
    if record.error is Some {
        lemma_json_string_has_no_line_feed(record.error.unwrap()@);
    }
    let p1 = "{\"ts_rfc3339\":"@ + ts;
    lemma_joined_has_no_line_feed("{\"ts_rfc3339\":"@, ts);
    let p2 = p1 + ",\"bypass\":"@;
    lemma_joined_has_no_line_feed(p1, ",\"bypass\":"@);
    let p3 = p2 + bypass;
    lemma_joined_has_no_line_feed(p2, bypass);
    let p4 = p3 + ",\"outcome\":"@;
    lemma_joined_has_no_line_feed(p3, ",\"outcome\":"@);
    let p5 = p4 + outcome;
    lemma_joined_has_no_line_feed(p4, outcome);
    let p6 = p5 + ",\"filename\":"@;
    lemma_joined_has_no_line_feed(p5, ",\"filename\":"@);
    let p7 = p6 + filename;
    lemma_joined_has_no_line_feed(p6, filename);
    let p8 = p7 + ",\"error\":"@;
    lemma_joined_has_no_line_feed(p7, ",\"error\":"@);
    let p9 = p8 + error;
    lemma_joined_has_no_line_feed(p8, error);
    let object = p9 + "}"@;
    lemma_joined_has_no_line_feed(p9, "}"@);
    assert(object == record_object(ts, bypass, outcome, filename, error));
    assert(record.line_text() == object + seq!['\n']);
    assert(record.line_text().drop_last() == object);
}

} // verus!
