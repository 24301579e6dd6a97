//! JSON values as the library reads them, and the records of the batch
//! workers and of the input file decoded from them.
//!
//! Field names are kebab-case where the workers write them so.  A field
//! that may be absent reads as `null`; the download progress shape is tried
//! before the completion shape.
use crate::addurl_output::{Action as PlainAction, AddurlOutput};
use crate::annex::{texts, Action, AddURLOutput, AnnexResult, MetadataOutput, RegisterURLOutput};
use crate::download::Downloadable;
use crate::filepath::{normalize, FilePath};
use crate::requests::{
    field_texts, json_items, json_list_items, json_members, json_members_text, json_string, quote_json,
};
use vstd::prelude::*;

verus! {

/// A JSON value.
#[derive(Debug, PartialEq)]
pub enum JsonValue {
    Null,
    Bool(bool),
    /// A number, with its value when that is a whole number that fits in
    /// `u64`.
    Number(Option<u64>),
    String(String),
    Array(Vec<JsonValue>),
    /// The members of an object, each name once.
    Object(Vec<(String, JsonValue)>),
}

#[verifier::external_type_specification]
#[verifier::external_body]
pub struct ExSerdeJsonValue(serde_json::Value);

/// The JSON value that `text` holds, if it holds exactly one.
pub uninterp spec fn json_of(text: Seq<char>) -> Option<JsonValue>;

/// Relies on the variants of `serde_json::Value` and on
/// `serde_json::Number::as_u64`: the same value in the library's form.  It
/// serves `parse_json` alone.
#[verifier::external_body]
fn from_serde(v: serde_json::Value) -> JsonValue {
    match v {
        serde_json::Value::Null => JsonValue::Null,
        serde_json::Value::Bool(b) => JsonValue::Bool(b),
        serde_json::Value::Number(n) => JsonValue::Number(n.as_u64()),
        serde_json::Value::String(s) => JsonValue::String(s),
        serde_json::Value::Array(a) => JsonValue::Array(a.into_iter().map(from_serde).collect()),
        serde_json::Value::Object(o) => JsonValue::Object(
            o.into_iter().map(|(k, v)| (k, from_serde(v))).collect(),
        ),
    }
}

/// Relies on `serde_json::from_str::<serde_json::Value>`: the JSON value
/// that `text` holds, if it holds exactly one; the result depends on the
/// text alone.
#[verifier::external_body]
pub fn parse_json(text: &str) -> (r: Option<JsonValue>)
    ensures
        r == json_of(text@),
{
    match serde_json::from_str::<serde_json::Value>(text) {
        Ok(v) => Some(from_serde(v)),
        Err(_) => None,
    }
}

/// Why a line could not be read as a record.
#[derive(Clone, Copy, Debug, Eq, PartialEq, Structural)]
pub enum JsonError {
    /// The line is not one JSON value.
    Syntax,
    /// The value does not have the shape of the record.
    Shape,
}

// ---------------------------------------------------------------------------
// Reading fields
// ---------------------------------------------------------------------------

/// The value of member `key`, if the object has one.
pub open spec fn member(fields: Seq<(String, JsonValue)>, key: Seq<char>) -> Option<JsonValue>
    decreases fields.len(),
{
    if fields.len() == 0 {
        None
    } else if fields.last().0@ == key {
        Some(fields.last().1)
    } else {
        member(fields.drop_last(), key)
    }
}

/// A referenced value, as a value.
pub open spec fn deref_opt(v: Option<&JsonValue>) -> Option<JsonValue> {
    match v {
        Some(x) => Some(*x),
        None => None,
    }
}

/// The text of a string value.
pub open spec fn text_of(v: Option<JsonValue>) -> Option<Seq<char>> {
    match v {
        Some(JsonValue::String(s)) => Some(s@),
        _ => None,
    }
}

/// An optional string: absent or `null` is none.
pub open spec fn opt_text_of(v: Option<JsonValue>) -> Option<Option<Seq<char>>> {
    match v {
        None => Some(None),
        Some(JsonValue::Null) => Some(None),
        Some(JsonValue::String(s)) => Some(Some(s@)),
        _ => None,
    }
}

/// A count: a whole number that fits in `usize`.
pub open spec fn count_of(v: Option<JsonValue>) -> Option<nat> {
    match v {
        Some(JsonValue::Number(Some(n))) => if n <= usize::MAX {
            Some(n as nat)
        } else {
            None
        },
        _ => None,
    }
}

/// An optional count: absent or `null` is none.
pub open spec fn opt_count_of(v: Option<JsonValue>) -> Option<Option<nat>> {
    match v {
        None => Some(None),
        Some(JsonValue::Null) => Some(None),
        _ => match count_of(v) {
            Some(n) => Some(Some(n)),
            None => None,
        },
    }
}

/// A boolean.
pub open spec fn flag_of(v: Option<JsonValue>) -> Option<bool> {
    match v {
        Some(JsonValue::Bool(b)) => Some(b),
        _ => None,
    }
}

/// Every item is a string.
pub open spec fn all_texts(items: Seq<JsonValue>) -> bool {
    forall|i: int| 0 <= i < items.len() ==> #[trigger] items[i] is String
}

/// A list of strings.
pub open spec fn texts_of(v: Option<JsonValue>) -> Option<Seq<Seq<char>>> {
    match v {
        Some(JsonValue::Array(items)) => if all_texts(items@) {
            Some(items@.map_values(|x: JsonValue| x->String_0@))
        } else {
            None
        },
        _ => None,
    }
}

/// An optional path, in normal form: absent or `null` is none.
pub open spec fn opt_path_of(v: Option<JsonValue>) -> Option<Option<Seq<char>>> {
    match v {
        None => Some(None),
        Some(JsonValue::Null) => Some(None),
        Some(JsonValue::String(s)) => match normalize(s@) {
            Ok(p) => Some(Some(p)),
            Err(_) => None,
        },
        _ => None,
    }
}

/// Every member holds a list of strings.
pub open spec fn all_lists(es: Seq<(String, JsonValue)>) -> bool {
    forall|i: int| 0 <= i < es.len() ==> #[trigger] texts_of(Some(es[i].1)) is Some
}

/// Metadata fields: an object whose members are lists of strings.
pub open spec fn fields_of(v: Option<JsonValue>) -> Option<Seq<(Seq<char>, Seq<Seq<char>>)>> {
    match v {
        Some(JsonValue::Object(es)) => if all_lists(es@) {
            Some(
                es@.map_values(
                    |e: (String, JsonValue)| (e.0@, texts_of(Some(e.1))->Some_0),
                ),
            )
        } else {
            None
        },
        _ => None,
    }
}

/// Member `key` of `fields`.
fn get<'a>(fields: &'a Vec<(String, JsonValue)>, key: &str) -> (r: Option<&'a JsonValue>)
    ensures
        deref_opt(r) == member(fields@, key@),
{
    let k = String::from_str(key);
    let mut i = fields.len();
    proof {
        assert(fields@.take(i as int) =~= fields@);
    }
    while i > 0
        invariant
            i <= fields@.len(),
            k@ == key@,
            member(fields@, key@) == member(fields@.take(i as int), key@),
        decreases i,
    {
        proof {
            assert(fields@.take(i as int).drop_last() =~= fields@.take(i - 1));
        }
        if fields[i - 1].0 == k {
            return Some(&fields[i - 1].1);
        }
        i = i - 1;
    }
    None
}

/// The view of an optional string.
pub open spec fn text_view(o: Option<String>) -> Option<Seq<char>> {
    match o {
        Some(s) => Some(s@),
        None => None,
    }
}

/// The view of an optional count.
pub open spec fn count_view(o: Option<usize>) -> Option<nat> {
    match o {
        Some(n) => Some(n as nat),
        None => None,
    }
}

/// The view of an optional path.
pub open spec fn path_view(o: Option<FilePath>) -> Option<Seq<char>> {
    match o {
        Some(p) => Some(p@),
        None => None,
    }
}

fn read_text(v: Option<&JsonValue>) -> (r: Option<String>)
    ensures
        text_view(r) == text_of(deref_opt(v)),
{
    match v {
        Some(JsonValue::String(s)) => Some(s.clone()),
        _ => None,
    }
}

fn read_opt_text(v: Option<&JsonValue>) -> (r: Option<Option<String>>)
    ensures
        match r {
            Some(o) => opt_text_of(deref_opt(v)) == Some(text_view(o)),
            None => opt_text_of(deref_opt(v)) is None,
        },
{
    match v {
        None => Some(None),
        Some(JsonValue::Null) => Some(None),
        Some(JsonValue::String(s)) => Some(Some(s.clone())),
        _ => None,
    }
}

fn read_count(v: Option<&JsonValue>) -> (r: Option<usize>)
    ensures
        count_view(r) == count_of(deref_opt(v)),
{
    match v {
        Some(JsonValue::Number(Some(n))) => if *n <= usize::MAX as u64 {
            Some(*n as usize)
        } else {
            None
        },
        _ => None,
    }
}

fn read_opt_count(v: Option<&JsonValue>) -> (r: Option<Option<usize>>)
    ensures
        match r {
            Some(o) => opt_count_of(deref_opt(v)) == Some(count_view(o)),
            None => opt_count_of(deref_opt(v)) is None,
        },
{
    match v {
        None => Some(None),
        Some(JsonValue::Null) => Some(None),
        _ => match read_count(v) {
            Some(n) => Some(Some(n)),
            None => None,
        },
    }
}

fn read_flag(v: Option<&JsonValue>) -> (r: Option<bool>)
    ensures
        r == flag_of(deref_opt(v)),
{
    match v {
        Some(JsonValue::Bool(b)) => Some(*b),
        _ => None,
    }
}

fn read_texts(v: Option<&JsonValue>) -> (r: Option<Vec<String>>)
    ensures
        r is Some ==> texts_of(deref_opt(v)) == Some(texts(r->Some_0@)),
        r is None ==> texts_of(deref_opt(v)) is None,
{
    match v {
        Some(JsonValue::Array(items)) => {
            let mut out: Vec<String> = Vec::new();
            let n = items.len();
            let mut i: usize = 0;
            while i < n
                invariant
                    deref_opt(v) == Some(JsonValue::Array(*items)),
                    n == items@.len(),
                    i <= n,
                    out@.len() == i,
                    all_texts(items@.take(i as int)),
                    forall|j: int| 0 <= j < i ==> (#[trigger] out@[j])@ == items@[j]->String_0@,
                decreases n - i,
            {
                match &items[i] {
                    JsonValue::String(s) => out.push(s.clone()),
                    _ => {
                        proof {
                            assert(!(items@[i as int] is String));
                            assert(!all_texts(items@));
                        }
                        return None;
                    },
                }
                proof {
                    assert forall|j: int| 0 <= j < i + 1 implies #[trigger] items@.take(i + 1)[j] is String by {
                        if j < i {
                            assert(items@.take(i as int)[j] == items@[j]);
                        }
                    }
                }
                i = i + 1;
            }
            proof {
                assert(items@.take(n as int) =~= items@);
                assert(texts(out@) =~= items@.map_values(|x: JsonValue| x->String_0@));
            }
            Some(out)
        },
        _ => None,
    }
}

fn read_opt_path(v: Option<&JsonValue>) -> (r: Option<Option<FilePath>>)
    ensures
        match r {
            Some(o) => opt_path_of(deref_opt(v)) == Some(path_view(o)),
            None => opt_path_of(deref_opt(v)) is None,
        },
{
    match v {
        None => Some(None),
        Some(JsonValue::Null) => Some(None),
        Some(JsonValue::String(s)) => match FilePath::parse(s.as_str()) {
            Ok(p) => Some(Some(p)),
            Err(_) => None,
        },
        _ => None,
    }
}

fn read_fields(v: Option<&JsonValue>) -> (r: Option<Vec<(String, Vec<String>)>>)
    ensures
        r is Some ==> fields_of(deref_opt(v)) == Some(field_texts(r->Some_0@)),
        r is None ==> fields_of(deref_opt(v)) is None,
{
    match v {
        Some(JsonValue::Object(es)) => {
            let mut out: Vec<(String, Vec<String>)> = Vec::new();
            let n = es.len();
            let mut i: usize = 0;
            while i < n
                invariant
                    deref_opt(v) == Some(JsonValue::Object(*es)),
                    n == es@.len(),
                    i <= n,
                    out@.len() == i,
                    all_lists(es@.take(i as int)),
                    forall|j: int|
                        0 <= j < i ==> (#[trigger] out@[j]).0@ == es@[j].0@ && Some(texts(out@[j].1@))
                            == texts_of(Some(es@[j].1)),
                decreases n - i,
            {
                match read_texts(Some(&es[i].1)) {
                    Some(values) => out.push((es[i].0.clone(), values)),
                    None => {
                        proof {
                            assert(texts_of(Some(es@[i as int].1)) is None);
                            assert(!all_lists(es@));
                        }
                        return None;
                    },
                }
                proof {
                    assert forall|j: int| 0 <= j < i + 1 implies #[trigger] texts_of(
                        Some(es@.take(i + 1)[j].1),
                    ) is Some by {
                        if j < i {
                            assert(es@.take(i as int)[j] == es@[j]);
                        }
                    }
                }
                i = i + 1;
            }
            proof {
                assert(es@.take(n as int) =~= es@);
                assert(field_texts(out@) =~= es@.map_values(
                    |e: (String, JsonValue)| (e.0@, texts_of(Some(e.1))->Some_0),
                ));
            }
            Some(out)
        },
        _ => None,
    }
}

// ---------------------------------------------------------------------------
// Records of the workers
// ---------------------------------------------------------------------------

/// What an action says: command, file, input.
pub struct ActionRecord {
    pub command: Seq<char>,
    pub file: Option<Seq<char>>,
    pub input: Seq<Seq<char>>,
}

/// The view of an action.
pub open spec fn action_view(a: Action) -> ActionRecord {
    ActionRecord { command: a.command@, file: path_view(a.file), input: texts(a.input@) }
}

/// The action in an object's members `command`, `file` and `input`.
pub open spec fn action_of(fs: Seq<(String, JsonValue)>) -> Option<ActionRecord> {
    match (
        text_of(member(fs, "command"@)),
        opt_path_of(member(fs, "file"@)),
        texts_of(member(fs, "input"@)),
    ) {
        (Some(command), Some(file), Some(input)) => Some(ActionRecord { command, file, input }),
        _ => None,
    }
}

fn read_action(fs: &Vec<(String, JsonValue)>) -> (r: Option<Action>)
    ensures
        match r {
            Some(a) => action_of(fs@) == Some(action_view(a)),
            None => action_of(fs@) is None,
        },
{
    let command = match read_text(get(fs, "command")) {
        Some(c) => c,
        None => return None,
    };
    let file = match read_opt_path(get(fs, "file")) {
        Some(f) => f,
        None => return None,
    };
    let input = match read_texts(get(fs, "input")) {
        Some(i) => i,
        None => return None,
    };
    Some(Action { command, file, input })
}

/// The outcome in an object's members `success` and `error-messages`.
pub open spec fn result_of(fs: Seq<(String, JsonValue)>) -> Option<(bool, Seq<Seq<char>>)> {
    match (flag_of(member(fs, "success"@)), texts_of(member(fs, "error-messages"@))) {
        (Some(s), Some(e)) => Some((s, e)),
        _ => None,
    }
}

/// The view of an outcome.
pub open spec fn result_view(r: AnnexResult) -> (bool, Seq<Seq<char>>) {
    (r.success, texts(r.error_messages@))
}

fn read_result(fs: &Vec<(String, JsonValue)>) -> (r: Option<AnnexResult>)
    ensures
        match r {
            Some(a) => result_of(fs@) == Some(result_view(a)),
            None => result_of(fs@) is None,
        },
{
    let success = match read_flag(get(fs, "success")) {
        Some(s) => s,
        None => return None,
    };
    let error_messages = match read_texts(get(fs, "error-messages")) {
        Some(e) => e,
        None => return None,
    };
    Some(AnnexResult { success, error_messages })
}

/// What a `git-annex addurl` record says.
pub enum AddUrlRecord {
    Progress {
        bytes: nat,
        total: Option<nat>,
        percent: Option<Seq<char>>,
        action: ActionRecord,
    },
    Completion {
        key: Option<Seq<char>>,
        action: ActionRecord,
        result: (bool, Seq<Seq<char>>),
        note: Option<Seq<char>>,
    },
}

/// The view of a `git-annex addurl` record.
pub open spec fn addurl_view(o: AddURLOutput) -> AddUrlRecord {
    match o {
        AddURLOutput::Progress { byte_progress, total_size, percent_progress, action } => {
            AddUrlRecord::Progress {
                bytes: byte_progress as nat,
                total: count_view(total_size),
                percent: text_view(percent_progress),
                action: action_view(action),
            }
        },
        AddURLOutput::Completion { key, action, result, note } => AddUrlRecord::Completion {
            key: text_view(key),
            action: action_view(action),
            result: result_view(result),
            note: text_view(note),
        },
    }
}

/// The progress shape: `byte-progress`, optional `total-size` and
/// `percent-progress`, and an `action` object.
pub open spec fn progress_of(fs: Seq<(String, JsonValue)>) -> Option<AddUrlRecord> {
    match (
        count_of(member(fs, "byte-progress"@)),
        opt_count_of(member(fs, "total-size"@)),
        opt_text_of(member(fs, "percent-progress"@)),
        member(fs, "action"@),
    ) {
        (Some(bytes), Some(total), Some(percent), Some(JsonValue::Object(afs))) => match action_of(
            afs@,
        ) {
            Some(action) => Some(AddUrlRecord::Progress { bytes, total, percent, action }),
            None => None,
        },
        _ => None,
    }
}

/// The completion shape: optional `key`, the action and the outcome as
/// members of the record itself, optional `note`.
pub open spec fn completion_of(fs: Seq<(String, JsonValue)>) -> Option<AddUrlRecord> {
    match (
        opt_text_of(member(fs, "key"@)),
        action_of(fs),
        result_of(fs),
        opt_text_of(member(fs, "note"@)),
    ) {
        (Some(key), Some(action), Some(result), Some(note)) => Some(
            AddUrlRecord::Completion { key, action, result, note },
        ),
        _ => None,
    }
}

/// A `git-annex addurl` record: the progress shape if the value has it,
/// else the completion shape.
pub open spec fn addurl_of(v: JsonValue) -> Option<AddUrlRecord> {
    match v {
        JsonValue::Object(fs) => match progress_of(fs@) {
            Some(p) => Some(p),
            None => completion_of(fs@),
        },
        _ => None,
    }
}

fn read_progress(fs: &Vec<(String, JsonValue)>) -> (r: Option<AddURLOutput>)
    ensures
        match r {
            Some(o) => progress_of(fs@) == Some(addurl_view(o)),
            None => progress_of(fs@) is None,
        },
{
    let byte_progress = match read_count(get(fs, "byte-progress")) {
        Some(b) => b,
        None => return None,
    };
    let total_size = match read_opt_count(get(fs, "total-size")) {
        Some(t) => t,
        None => return None,
    };
    let percent_progress = match read_opt_text(get(fs, "percent-progress")) {
        Some(p) => p,
        None => return None,
    };
    let action = match get(fs, "action") {
        Some(JsonValue::Object(afs)) => match read_action(afs) {
            Some(a) => a,
            None => return None,
        },
        _ => return None,
    };
    Some(AddURLOutput::Progress { byte_progress, total_size, percent_progress, action })
}

fn read_completion(fs: &Vec<(String, JsonValue)>) -> (r: Option<AddURLOutput>)
    ensures
        match r {
            Some(o) => completion_of(fs@) == Some(addurl_view(o)),
            None => completion_of(fs@) is None,
        },
{
    let key = match read_opt_text(get(fs, "key")) {
        Some(k) => k,
        None => return None,
    };
    let action = match read_action(fs) {
        Some(a) => a,
        None => return None,
    };
    let result = match read_result(fs) {
        Some(r) => r,
        None => return None,
    };
    let note = match read_opt_text(get(fs, "note")) {
        Some(n) => n,
        None => return None,
    };
    Some(AddURLOutput::Completion { key, action, result, note })
}

impl AddURLOutput {
    /// Reads a `git-annex addurl` record from a JSON value.
    pub fn from_json(v: &JsonValue) -> (r: Result<AddURLOutput, JsonError>)
        ensures
            match r {
                Ok(o) => addurl_of(*v) == Some(addurl_view(o)),
                Err(e) => addurl_of(*v) is None && e == JsonError::Shape,
            },
    {
        match v {
            JsonValue::Object(fs) => match read_progress(fs) {
                Some(p) => Ok(p),
                None => match read_completion(fs) {
                    Some(c) => Ok(c),
                    None => Err(JsonError::Shape),
                },
            },
            _ => Err(JsonError::Shape),
        }
    }
}

/// What reading `line` as a `git-annex addurl` record gives: a syntax error
/// if it is not JSON, else the record that the value holds or a shape error.
pub open spec fn addurl_line(line: Seq<char>, r: Result<AddURLOutput, JsonError>) -> bool {
    match json_of(line) {
        None => r == Err::<AddURLOutput, JsonError>(JsonError::Syntax),
        Some(v) => match r {
            Ok(o) => addurl_of(v) == Some(addurl_view(o)),
            Err(e) => addurl_of(v) is None && e == JsonError::Shape,
        },
    }
}

/// Reads one line of `git-annex addurl` output.
pub fn parse_addurl_output(line: &str) -> (r: Result<AddURLOutput, JsonError>)
    ensures
        addurl_line(line@, r),
{
    match parse_json(line) {
        Some(v) => AddURLOutput::from_json(&v),
        None => Err(JsonError::Syntax),
    }
}

/// What a `git-annex metadata` record says.
pub struct MetadataRecord {
    pub fields: Seq<(Seq<char>, Seq<Seq<char>>)>,
    pub action: ActionRecord,
    pub result: (bool, Seq<Seq<char>>),
    pub note: Option<Seq<char>>,
}

/// The view of a `git-annex metadata` record.
pub open spec fn metadata_view(o: MetadataOutput) -> MetadataRecord {
    MetadataRecord {
        fields: field_texts(o.fields@),
        action: action_view(o.action),
        result: result_view(o.result),
        note: text_view(o.note),
    }
}

/// A `git-annex metadata` record: `fields`, the action and the outcome as
/// members of the record itself, optional `note`.
pub open spec fn metadata_of(v: JsonValue) -> Option<MetadataRecord> {
    match v {
        JsonValue::Object(fs) => match (
            fields_of(member(fs@, "fields"@)),
            action_of(fs@),
            result_of(fs@),
            opt_text_of(member(fs@, "note"@)),
        ) {
            (Some(fields), Some(action), Some(result), Some(note)) => Some(
                MetadataRecord { fields, action, result, note },
            ),
            _ => None,
        },
        _ => None,
    }
}

impl MetadataOutput {
    /// Reads a `git-annex metadata` record from a JSON value.
    pub fn from_json(v: &JsonValue) -> (r: Result<MetadataOutput, JsonError>)
        ensures
            match r {
                Ok(o) => metadata_of(*v) == Some(metadata_view(o)),
                Err(e) => metadata_of(*v) is None && e == JsonError::Shape,
            },
    {
        match v {
            JsonValue::Object(fs) => {
                let fields = match read_fields(get(fs, "fields")) {
                    Some(f) => f,
                    None => return Err(JsonError::Shape),
                };
                let action = match read_action(fs) {
                    Some(a) => a,
                    None => return Err(JsonError::Shape),
                };
                let result = match read_result(fs) {
                    Some(r) => r,
                    None => return Err(JsonError::Shape),
                };
                let note = match read_opt_text(get(fs, "note")) {
                    Some(n) => n,
                    None => return Err(JsonError::Shape),
                };
                Ok(MetadataOutput { fields, action, result, note })
            },
            _ => Err(JsonError::Shape),
        }
    }
}

/// What reading `line` as a `git-annex metadata` record gives.
pub open spec fn metadata_line(line: Seq<char>, r: Result<MetadataOutput, JsonError>) -> bool {
    match json_of(line) {
        None => r == Err::<MetadataOutput, JsonError>(JsonError::Syntax),
        Some(v) => match r {
            Ok(o) => metadata_of(v) == Some(metadata_view(o)),
            Err(e) => metadata_of(v) is None && e == JsonError::Shape,
        },
    }
}

/// Reads one line of `git-annex metadata` output.
pub fn parse_metadata_output(line: &str) -> (r: Result<MetadataOutput, JsonError>)
    ensures
        metadata_line(line@, r),
{
    match parse_json(line) {
        Some(v) => MetadataOutput::from_json(&v),
        None => Err(JsonError::Syntax),
    }
}

/// A `git-annex registerurl` record: the action and the outcome as members
/// of the record itself.
pub open spec fn registerurl_of(v: JsonValue) -> Option<(ActionRecord, (bool, Seq<Seq<char>>))> {
    match v {
        JsonValue::Object(fs) => match (action_of(fs@), result_of(fs@)) {
            (Some(a), Some(r)) => Some((a, r)),
            _ => None,
        },
        _ => None,
    }
}

impl RegisterURLOutput {
    /// Reads a `git-annex registerurl` record from a JSON value.
    pub fn from_json(v: &JsonValue) -> (r: Result<RegisterURLOutput, JsonError>)
        ensures
            match r {
                Ok(o) => registerurl_of(*v) == Some((action_view(o.action), result_view(o.result))),
                Err(e) => registerurl_of(*v) is None && e == JsonError::Shape,
            },
    {
        match v {
            JsonValue::Object(fs) => {
                let action = match read_action(fs) {
                    Some(a) => a,
                    None => return Err(JsonError::Shape),
                };
                let result = match read_result(fs) {
                    Some(r) => r,
                    None => return Err(JsonError::Shape),
                };
                Ok(RegisterURLOutput { action, result })
            },
            _ => Err(JsonError::Shape),
        }
    }
}

/// What reading `line` as a `git-annex registerurl` record gives.
pub open spec fn registerurl_line(line: Seq<char>, r: Result<RegisterURLOutput, JsonError>) -> bool {
    match json_of(line) {
        None => r == Err::<RegisterURLOutput, JsonError>(JsonError::Syntax),
        Some(v) => match r {
            Ok(o) => registerurl_of(v) == Some((action_view(o.action), result_view(o.result))),
            Err(e) => registerurl_of(v) is None && e == JsonError::Shape,
        },
    }
}

/// Reads one line of `git-annex registerurl` output.
pub fn parse_registerurl_output(line: &str) -> (r: Result<RegisterURLOutput, JsonError>)
    ensures
        registerurl_line(line@, r),
{
    match parse_json(line) {
        Some(v) => RegisterURLOutput::from_json(&v),
        None => Err(JsonError::Syntax),
    }
}

// ---------------------------------------------------------------------------
// The input file
// ---------------------------------------------------------------------------

/// The serialized form of `s` as an absolute URL, if it is one.
pub uninterp spec fn url_of(s: Seq<char>) -> Option<Seq<char>>;

/// Relies on `url::Url::parse`: the serialized form of an absolute URL, or
/// none when `s` is not one.
#[verifier::external_body]
fn parse_url(s: &str) -> (r: Option<String>)
    ensures
        text_view(r) == url_of(s@),
{
    match url::Url::parse(s) {
        Ok(u) => Some(String::from(u)),
        Err(_) => None,
    }
}

/// Each text as an absolute URL, if each is one.
pub open spec fn urls_of(ts: Seq<Seq<char>>) -> Option<Seq<Seq<char>>> {
    if forall|i: int| 0 <= i < ts.len() ==> #[trigger] url_of(ts[i]) is Some {
        Some(ts.map_values(|t: Seq<char>| url_of(t)->Some_0))
    } else {
        None
    }
}

/// What an input line asks for.
pub struct DownloadRecord {
    pub path: Seq<char>,
    pub url: Seq<char>,
    pub metadata: Seq<(Seq<char>, Seq<Seq<char>>)>,
    pub extra_urls: Seq<Seq<char>>,
}

/// The view of a request.
pub open spec fn downloadable_view(d: Downloadable) -> DownloadRecord {
    DownloadRecord {
        path: d.path@,
        url: d.url@,
        metadata: field_texts(d.metadata@),
        extra_urls: texts(d.extra_urls@),
    }
}

/// An input line: a relative `path`, an absolute `url`, and optionally
/// `metadata` and `extra_urls`, which are empty when absent.
pub open spec fn downloadable_of(v: JsonValue) -> Option<DownloadRecord> {
    match v {
        JsonValue::Object(fs) => {
            let path = match text_of(member(fs@, "path"@)) {
                Some(t) => match normalize(t) {
                    Ok(p) => Some(p),
                    Err(_) => None,
                },
                None => None,
            };
            let url = match text_of(member(fs@, "url"@)) {
                Some(t) => url_of(t),
                None => None,
            };
            let metadata = if member(fs@, "metadata"@) is None {
                Some(Seq::empty())
            } else {
                fields_of(member(fs@, "metadata"@))
            };
            let extra_urls = if member(fs@, "extra_urls"@) is None {
                Some(Seq::empty())
            } else {
                match texts_of(member(fs@, "extra_urls"@)) {
                    Some(ts) => urls_of(ts),
                    None => None,
                }
            };
            match (path, url, metadata, extra_urls) {
                (Some(path), Some(url), Some(metadata), Some(extra_urls)) => Some(
                    DownloadRecord { path, url, metadata, extra_urls },
                ),
                _ => None,
            }
        },
        _ => None,
    }
}

/// Each text as an absolute URL, if each is one.
fn read_urls(ts: Vec<String>) -> (r: Option<Vec<String>>)
    ensures
        r is Some ==> urls_of(texts(ts@)) == Some(texts(r->Some_0@)),
        r is None ==> urls_of(texts(ts@)) is None,
{
    let ghost tv = texts(ts@);
    let mut out: Vec<String> = Vec::new();
    let n = ts.len();
    let mut i: usize = 0;
    while i < n
        invariant
            tv == texts(ts@),
            n == ts@.len() == tv.len(),
            i <= n,
            out@.len() == i,
            forall|j: int| 0 <= j < i ==> #[trigger] url_of(tv[j]) == Some((#[trigger] out@[j])@),
        decreases n - i,
    {
        match parse_url(ts[i].as_str()) {
            Some(u) => out.push(u),
            None => {
                proof {
                    assert(url_of(tv[i as int]) is None);
                }
                return None;
            },
        }
        i = i + 1;
    }
    proof {
        assert forall|j: int| 0 <= j < tv.len() implies #[trigger] url_of(tv[j]) is Some by {
            assert(url_of(tv[j]) == Some(out@[j]@));
        }
        assert(texts(out@) =~= tv.map_values(|t: Seq<char>| url_of(t)->Some_0));
    }
    Some(out)
}

impl Downloadable {
    /// Reads a request from a JSON value.
    pub fn from_json(v: &JsonValue) -> (r: Result<Downloadable, JsonError>)
        ensures
            match r {
                Ok(d) => downloadable_of(*v) == Some(downloadable_view(d)),
                Err(e) => downloadable_of(*v) is None && e == JsonError::Shape,
            },
    {
        match v {
            JsonValue::Object(fs) => {
                let path = match get(fs, "path") {
                    Some(JsonValue::String(t)) => match FilePath::parse(t.as_str()) {
                        Ok(p) => p,
                        Err(_) => return Err(JsonError::Shape),
                    },
                    _ => return Err(JsonError::Shape),
                };
                let url = match get(fs, "url") {
                    Some(JsonValue::String(t)) => match parse_url(t.as_str()) {
                        Some(u) => u,
                        None => return Err(JsonError::Shape),
                    },
                    _ => return Err(JsonError::Shape),
                };
                let md = get(fs, "metadata");
                let metadata = if md.is_none() {
                    Vec::new()
                } else {
                    match read_fields(md) {
                        Some(f) => f,
                        None => return Err(JsonError::Shape),
                    }
                };
                let eu = get(fs, "extra_urls");
                let extra_urls = if eu.is_none() {
                    Vec::new()
                } else {
                    match read_texts(eu) {
                        Some(ts) => match read_urls(ts) {
                            Some(us) => us,
                            None => return Err(JsonError::Shape),
                        },
                        None => return Err(JsonError::Shape),
                    }
                };
                proof {
                    assert(field_texts(metadata@) =~= (if member(fs@, "metadata"@) is None {
                        Seq::empty()
                    } else {
                        field_texts(metadata@)
                    }));
                    assert(texts(extra_urls@) =~= (if member(fs@, "extra_urls"@) is None {
                        Seq::empty()
                    } else {
                        texts(extra_urls@)
                    }));
                }
                Ok(Downloadable { path, url, metadata, extra_urls })
            },
            _ => Err(JsonError::Shape),
        }
    }

    /// Reads a request from one line of the input file.
    pub fn parse(line: &str) -> (r: Result<Downloadable, JsonError>)
        ensures
            downloadable_line(line@, r),
    {
        match parse_json(line) {
            Some(v) => Downloadable::from_json(&v),
            None => Err(JsonError::Syntax),
        }
    }

    /// The request as one line of JSON, in the shape of the input file.
    pub fn to_json(&self) -> (r: String)
        ensures
            r@ == downloadable_json(
                self.path@,
                self.url@,
                field_texts(self.metadata@),
                texts(self.extra_urls@),
            ),
    {
        let mut s = String::from_str("{\"path\":");
        s.append(quote_json(self.path.as_str()).as_str());
        s.append(",\"url\":");
        s.append(quote_json(self.url.as_str()).as_str());
        s.append(",\"metadata\":{");
        s.append(json_members_text(&self.metadata).as_str());
        s.append("},\"extra_urls\":[");
        s.append(json_list_items(&self.extra_urls).as_str());
        s.append("]}");
        s
    }
}

/// What reading `line` of the input file gives: a syntax error if it is not
/// JSON, else the request that the value holds or a shape error.
pub open spec fn downloadable_line(line: Seq<char>, r: Result<Downloadable, JsonError>) -> bool {
    match json_of(line) {
        None => r == Err::<Downloadable, JsonError>(JsonError::Syntax),
        Some(v) => match r {
            Ok(d) => downloadable_of(v) == Some(downloadable_view(d)),
            Err(e) => downloadable_of(v) is None && e == JsonError::Shape,
        },
    }
}

/// Whether `line` of the input file holds a request.
pub open spec fn holds_request(line: Seq<char>) -> bool {
    match json_of(line) {
        Some(v) => downloadable_of(v) is Some,
        None => false,
    }
}

/// The requests of the lines that hold one, in order.
pub open spec fn requests_of(lines: Seq<Seq<char>>) -> Seq<DownloadRecord>
    decreases lines.len(),
{
    if lines.len() == 0 {
        Seq::empty()
    } else {
        let before = requests_of(lines.drop_last());
        if holds_request(lines.last()) {
            before.push(downloadable_of(json_of(lines.last())->Some_0)->Some_0)
        } else {
            before
        }
    }
}

/// The numbers, counting from one, of the lines that hold no request.
pub open spec fn rejected_lines(lines: Seq<Seq<char>>) -> Seq<nat>
    decreases lines.len(),
{
    if lines.len() == 0 {
        Seq::empty()
    } else {
        let before = rejected_lines(lines.drop_last());
        if holds_request(lines.last()) {
            before
        } else {
            before.push(lines.len())
        }
    }
}

/// The requests of an input file, and the lines that were dropped.
#[derive(Debug, Eq, PartialEq)]
pub struct InputLines {
    /// The requests, in the order of their lines.
    pub requests: Vec<Downloadable>,
    /// The numbers, counting from one, of the lines that hold no request.
    pub rejected: Vec<usize>,
}

/// Reads the lines of an input file: each line that holds a request gives
/// it, in order; a line that is not JSON or lacks a valid field is dropped
/// and its number kept.
pub fn read_input_lines(lines: &Vec<String>) -> (r: InputLines)
    ensures
        r.requests@.map_values(|d: Downloadable| downloadable_view(d)) == requests_of(
            texts(lines@),
        ),
        r.rejected@.map_values(|n: usize| n as nat) == rejected_lines(texts(lines@)),
{
    let ghost ts = texts(lines@);
    let mut requests: Vec<Downloadable> = Vec::new();
    let mut rejected: Vec<usize> = Vec::new();
    let n = lines.len();
    let mut i: usize = 0;
    while i < n
        invariant
            ts == texts(lines@),
            n == lines@.len() == ts.len(),
            i <= n,
            requests@.map_values(|d: Downloadable| downloadable_view(d)) == requests_of(
                ts.take(i as int),
            ),
            rejected@.map_values(|n: usize| n as nat) == rejected_lines(ts.take(i as int)),
        decreases n - i,
    {
        let ghost before_req = requests@;
        let ghost before_rej = rejected@;
        proof {
            assert(ts.take(i + 1).drop_last() =~= ts.take(i as int));
            assert(ts.take(i + 1).last() == lines@[i as int]@);
        }
        match Downloadable::parse(lines[i].as_str()) {
            Ok(d) => {
                requests.push(d);
                proof {
                    assert(requests@.map_values(|d: Downloadable| downloadable_view(d))
                        =~= before_req.map_values(|d: Downloadable| downloadable_view(d)).push(
                        downloadable_view(d),
                    ));
                }
            },
            Err(_) => {
                rejected.push(i + 1);
                proof {
                    assert(rejected@.map_values(|n: usize| n as nat) =~= before_rej.map_values(
                        |n: usize| n as nat,
                    ).push((i + 1) as nat));
                }
            },
        }
        i = i + 1;
    }
    proof {
        assert(ts.take(n as int) =~= ts);
    }
    InputLines { requests, rejected }
}

/// A request as one line of JSON.
pub open spec fn downloadable_json(
    path: Seq<char>,
    url: Seq<char>,
    metadata: Seq<(Seq<char>, Seq<Seq<char>>)>,
    extra_urls: Seq<Seq<char>>,
) -> Seq<char> {
    "{\"path\":"@ + json_string(path) + ",\"url\":"@ + json_string(url) + ",\"metadata\":{"@
        + json_members(metadata) + "},\"extra_urls\":["@ + json_items(extra_urls) + "]}"@
}

// ---------------------------------------------------------------------------
// The record shape with the file as plain text
// ---------------------------------------------------------------------------

/// What an action with a plain-text file says.
pub open spec fn plain_action_view(a: PlainAction) -> (Seq<char>, Option<Seq<char>>, Seq<Seq<char>>) {
    (a.command@, text_view(a.file), texts(a.input@))
}

/// An action with a plain-text file.
pub open spec fn plain_action_of(fs: Seq<(String, JsonValue)>) -> Option<
    (Seq<char>, Option<Seq<char>>, Seq<Seq<char>>),
> {
    match (
        text_of(member(fs, "command"@)),
        opt_text_of(member(fs, "file"@)),
        texts_of(member(fs, "input"@)),
    ) {
        (Some(c), Some(f), Some(i)) => Some((c, f, i)),
        _ => None,
    }
}

fn read_plain_action(fs: &Vec<(String, JsonValue)>) -> (r: Option<PlainAction>)
    ensures
        match r {
            Some(a) => plain_action_of(fs@) == Some(plain_action_view(a)),
            None => plain_action_of(fs@) is None,
        },
{
    let command = match read_text(get(fs, "command")) {
        Some(c) => c,
        None => return None,
    };
    let file = match read_opt_text(get(fs, "file")) {
        Some(f) => f,
        None => return None,
    };
    let input = match read_texts(get(fs, "input")) {
        Some(i) => i,
        None => return None,
    };
    Some(PlainAction { command, file, input })
}

/// What a `git-annex addurl` record with a plain-text file says.
pub enum PlainRecord {
    Progress(nat, Option<nat>, Option<Seq<char>>, (Seq<char>, Option<Seq<char>>, Seq<Seq<char>>)),
    Completion(
        Option<Seq<char>>,
        (Seq<char>, Option<Seq<char>>, Seq<Seq<char>>),
        bool,
        Seq<Seq<char>>,
        Option<Seq<char>>,
    ),
}

/// The view of a record with a plain-text file.
pub open spec fn plain_view(o: AddurlOutput) -> PlainRecord {
    match o {
        AddurlOutput::Progress { byte_progress, total_size, percent_progress, action } => {
            PlainRecord::Progress(
                byte_progress as nat,
                count_view(total_size),
                text_view(percent_progress),
                plain_action_view(action),
            )
        },
        AddurlOutput::Completion { key, action, success, error_messages, note } => {
            PlainRecord::Completion(
                text_view(key),
                plain_action_view(action),
                success,
                texts(error_messages@),
                text_view(note),
            )
        },
    }
}

/// A `git-annex addurl` record with a plain-text file: the progress shape if
/// the value has it, else the completion shape.
pub open spec fn plain_of(v: JsonValue) -> Option<PlainRecord> {
    match v {
        JsonValue::Object(fs) => {
            let progress = match (
                count_of(member(fs@, "byte-progress"@)),
                opt_count_of(member(fs@, "total-size"@)),
                opt_text_of(member(fs@, "percent-progress"@)),
                member(fs@, "action"@),
            ) {
                (Some(b), Some(t), Some(p), Some(JsonValue::Object(afs))) => match plain_action_of(
                    afs@,
                ) {
                    Some(a) => Some(PlainRecord::Progress(b, t, p, a)),
                    None => None,
                },
                _ => None,
            };
            match progress {
                Some(p) => Some(p),
                None => match (
                    opt_text_of(member(fs@, "key"@)),
                    plain_action_of(fs@),
                    flag_of(member(fs@, "success"@)),
                    texts_of(member(fs@, "error-messages"@)),
                    opt_text_of(member(fs@, "note"@)),
                ) {
                    (Some(k), Some(a), Some(s), Some(e), Some(n)) => Some(
                        PlainRecord::Completion(k, a, s, e, n),
                    ),
                    _ => None,
                },
            }
        },
        _ => None,
    }
}

fn read_plain_progress(fs: &Vec<(String, JsonValue)>) -> (r: Option<AddurlOutput>)
    ensures
        r matches Some(o) ==> plain_of(JsonValue::Object(*fs)) == Some(plain_view(o)),
        r is None ==> match (
            count_of(member(fs@, "byte-progress"@)),
            opt_count_of(member(fs@, "total-size"@)),
            opt_text_of(member(fs@, "percent-progress"@)),
            member(fs@, "action"@),
        ) {
            (Some(b), Some(t), Some(p), Some(JsonValue::Object(afs))) => plain_action_of(afs@) is None,
            _ => true,
        },
{
    let byte_progress = match read_count(get(fs, "byte-progress")) {
        Some(b) => b,
        None => return None,
    };
    let total_size = match read_opt_count(get(fs, "total-size")) {
        Some(t) => t,
        None => return None,
    };
    let percent_progress = match read_opt_text(get(fs, "percent-progress")) {
        Some(p) => p,
        None => return None,
    };
    let action = match get(fs, "action") {
        Some(JsonValue::Object(afs)) => match read_plain_action(afs) {
            Some(a) => a,
            None => return None,
        },
        _ => return None,
    };
    Some(AddurlOutput::Progress { byte_progress, total_size, percent_progress, action })
}

/// What reading `line` as a record with a plain-text file gives.
pub open spec fn plain_line(line: Seq<char>, r: Result<AddurlOutput, JsonError>) -> bool {
    match json_of(line) {
        None => r == Err::<AddurlOutput, JsonError>(JsonError::Syntax),
        Some(v) => match r {
            Ok(o) => plain_of(v) == Some(plain_view(o)),
            Err(e) => plain_of(v) is None && e == JsonError::Shape,
        },
    }
}

impl AddurlOutput {
    /// Reads a `git-annex addurl` record, with the file as plain text, from a
    /// JSON value.
    pub fn from_json(v: &JsonValue) -> (r: Result<AddurlOutput, JsonError>)
        ensures
            match r {
                Ok(o) => plain_of(*v) == Some(plain_view(o)),
                Err(e) => plain_of(*v) is None && e == JsonError::Shape,
            },
    {
        match v {
            JsonValue::Object(fs) => {
                if let Some(p) = read_plain_progress(fs) {
                    return Ok(p);
                }
                let key = match read_opt_text(get(fs, "key")) {
                    Some(k) => k,
                    None => return Err(JsonError::Shape),
                };
                let action = match read_plain_action(fs) {
                    Some(a) => a,
                    None => return Err(JsonError::Shape),
                };
                let success = match read_flag(get(fs, "success")) {
                    Some(s) => s,
                    None => return Err(JsonError::Shape),
                };
                let error_messages = match read_texts(get(fs, "error-messages")) {
                    Some(e) => e,
                    None => return Err(JsonError::Shape),
                };
                let note = match read_opt_text(get(fs, "note")) {
                    Some(n) => n,
                    None => return Err(JsonError::Shape),
                };
                Ok(AddurlOutput::Completion { key, action, success, error_messages, note })
            },
            _ => Err(JsonError::Shape),
        }
    }

    /// Reads one line of `git-annex addurl` output, with the file as plain
    /// text.
    pub fn parse(line: &str) -> (r: Result<AddurlOutput, JsonError>)
        ensures
            plain_line(line@, r),
    {
        match parse_json(line) {
            Some(v) => AddurlOutput::from_json(&v),
            None => Err(JsonError::Syntax),
        }
    }
}

} // verus!
