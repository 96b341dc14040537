//! The browser daemon's short history of adapter tasks, shown by the
//! extension popup, and the redaction of what those tasks returned.
use vstd::prelude::*;

use crate::daemon_http::{opt_str, task_route, task_route_of, TaskRoute};
use crate::json::{Json, JsonValue, view_fields, view_items};
use crate::text::{
    chars_of, contains, find_char, find_from, first_match, index_of_char, lemma_first_match,
    lower_seq, matches_at, slice_chars, string_of, to_ascii_lower, contains_exec,
};

verus! {

/// How many tasks the history keeps.
pub const TASK_HISTORY_LIMIT: usize = 30;

/// How many characters of a preview or an error the history keeps.
pub const TASK_TEXT_LIMIT: usize = 1500;

/// `t` cut to `TASK_TEXT_LIMIT` characters, with `…` appended when it was
/// cut.
pub open spec fn limited_text(t: Seq<char>) -> Seq<char> {
    if t.len() > TASK_TEXT_LIMIT {
        t.take(TASK_TEXT_LIMIT as int).push('…')
    } else {
        t
    }
}

/// Cuts a text to the length the task history keeps.
pub fn limit_task_text(text: &str) -> (r: String)
    ensures
        r@ == limited_text(text@),
{
    let v = chars_of(text);
    if v.len() > TASK_TEXT_LIMIT {
        let mut head = slice_chars(&v, 0, TASK_TEXT_LIMIT);
        head.push('…');
        assert(v@.subrange(0, TASK_TEXT_LIMIT as int) =~= v@.take(TASK_TEXT_LIMIT as int));
        string_of(&head)
    } else {
        string_of(&v)
    }
}

/// `s` with the value after every `needle` (up to the next `&`) replaced
/// by `[redacted]`.
#[verifier::opaque]
pub open spec fn redact_after(s: Seq<char>, needle: Seq<char>) -> Seq<char>
    decreases s.len(),
{
    if needle.len() == 0 || !contains(s, needle) {
        s
    } else {
        let i = first_match(s, needle);
        let vs = i + needle.len();
        if 0 <= i && vs <= s.len() {
            let rest = s.skip(vs);
            let ve = index_of_char(rest, '&');
            if 0 <= ve <= rest.len() {
                s.take(vs) + "[redacted]"@ + redact_after(rest.skip(ve), needle)
            } else {
                s
            }
        } else {
            s
        }
    }
}

proof fn lemma_matches_skip(s: Seq<char>, t: Seq<char>, p: int, j: int)
    requires
        0 <= p <= s.len(),
    ensures
        matches_at(s.skip(p), t, j) == (j >= 0 && matches_at(s, t, p + j)),
{
    if 0 <= j && j + t.len() <= s.len() - p {
        assert(s.skip(p).subrange(j, j + t.len()) =~= s.subrange(p + j, p + j + t.len()));
    }
}

proof fn lemma_index_of_char_bounds(s: Seq<char>, c: char)
    ensures
        0 <= index_of_char(s, c) <= s.len(),
    decreases s.len(),
{
    if s.len() > 0 && s[0] != c {
        lemma_index_of_char_bounds(s.drop_first(), c);
    }
}

proof fn lemma_redact_none(s: Seq<char>, n: Seq<char>, pos: int)
    requires
        0 <= pos <= s.len(),
        forall|j: int| pos <= j ==> !matches_at(s, n, j),
    ensures
        redact_after(s.skip(pos), n) == s.skip(pos),
{
    reveal(redact_after);
    let rest = s.skip(pos);
    if contains(rest, n) {
        let j = choose|j: int| matches_at(rest, n, j);
        lemma_matches_skip(s, n, pos, j);
    }
}

proof fn lemma_redact_step(s: Seq<char>, n: Seq<char>, pos: int, i: int, ve: int)
    requires
        n.len() > 0,
        0 <= pos <= i,
        matches_at(s, n, i),
        forall|j: int| pos <= j < i ==> !matches_at(s, n, j),
        ve == i + n.len() + index_of_char(s.skip(i + n.len()), '&'),
    ensures
        i + n.len() <= ve <= s.len(),
        redact_after(s.skip(pos), n) == s.subrange(pos, i + n.len()) + "[redacted]"@ + redact_after(
            s.skip(ve),
            n,
        ),
{
    reveal(redact_after);
    let rest = s.skip(pos);
    let k = i - pos;
    let vs = i + n.len();
    lemma_matches_skip(s, n, pos, k);
    assert forall|j: int| 0 <= j < k implies !matches_at(rest, n, j) by {
        lemma_matches_skip(s, n, pos, j);
    }
    lemma_first_match(rest, n, k);
    let rest2 = rest.skip(k + n.len());
    assert(rest2 =~= s.skip(vs));
    lemma_index_of_char_bounds(rest2, '&');
    assert(rest2.skip(ve - vs) =~= s.skip(ve));
    assert(rest.take(k + n.len()) =~= s.subrange(pos, vs));
}

/// `s` with every value after `needle` redacted.
fn redact_values(s: &Vec<char>, needle: &Vec<char>) -> (r: Vec<char>)
    requires
        needle@.len() > 0,
    ensures
        r@ == redact_after(s@, needle@),
{
    let mut out: Vec<char> = Vec::new();
    let mut pos: usize = 0;
    let mask = chars_of("[redacted]");
    assert(s@.skip(0) =~= s@);
    loop
        invariant
            pos <= s.len(),
            needle@.len() > 0,
            mask@ == "[redacted]"@,
            redact_after(s@, needle@) == out@ + redact_after(s@.skip(pos as int), needle@),
        decreases s.len() - pos,
    {
        match find_from(s, needle, pos) {
            None => {
                proof {
                    lemma_redact_none(s@, needle@, pos as int);
                }
                let tail = slice_chars(s, pos, s.len());
                assert(tail@ =~= s@.skip(pos as int));
                let ghost before = out@;
                out.append(&mut tail.clone());
                assert(out@ =~= before + s@.skip(pos as int));
                return out;
            },
            Some(i) => {
                let vs = i + needle.len();
                let ve = find_char(s, '&', vs);
                proof {
                    lemma_redact_step(s@, needle@, pos as int, i as int, ve as int);
                }
                let mut head = slice_chars(s, pos, vs);
                head.append(&mut mask.clone());
                let ghost before = out@;
                out.append(&mut head);
                assert(out@ =~= before + (s@.subrange(pos as int, vs as int) + "[redacted]"@));
                pos = ve;
            },
        }
    }
}

/// Replaces the values of `xsec_token` and `access_token` query parameters
/// in a text by `[redacted]`.
pub fn redact_url_query_tokens(text: &str) -> (r: String)
    ensures
        r@ == redact_after(redact_after(text@, "xsec_token="@), "access_token="@),
{
    let v = chars_of(text);
    let n1 = chars_of("xsec_token=");
    let n2 = chars_of("access_token=");
    proof {
        reveal_strlit("xsec_token=");
        reveal_strlit("access_token=");
    }
    let a = redact_values(&v, &n1);
    let b = redact_values(&a, &n2);
    string_of(&b)
}

/// `t` with the values of `xsec_token` and `access_token` parameters
/// redacted.
pub open spec fn redact_tokens(t: Seq<char>) -> Seq<char> {
    redact_after(redact_after(t, "xsec_token="@), "access_token="@)
}

/// Keys whose values are never shown: those that contain, in any ASCII
/// case, `token`, `secret`, `password`, `authorization` or `cookie`.
pub open spec fn sensitive_key(k: Seq<char>) -> bool {
    let l = lower_seq(k);
    contains(l, "token"@) || contains(l, "secret"@) || contains(l, "password"@) || contains(
        l,
        "authorization"@,
    ) || contains(l, "cookie"@)
}

/// A task result as the history shows it: sensitive values replaced by
/// `[redacted]`, and texts with their tokens redacted and cut.
pub open spec fn redacted_json(j: Json) -> Json
    decreases j,
{
    match j {
        Json::Object(fields) => Json::Object(redacted_fields(fields)),
        Json::Array(items) => Json::Array(redacted_items(items)),
        Json::Str(t) => Json::Str(limited_text(redact_tokens(t))),
        _ => j,
    }
}

pub open spec fn redacted_items(s: Seq<Json>) -> Seq<Json>
    decreases s,
{
    if s.len() == 0 {
        s
    } else {
        redacted_items(s.drop_last()).push(redacted_json(s.last()))
    }
}

pub open spec fn redacted_fields(s: Seq<(Seq<char>, Json)>) -> Seq<(Seq<char>, Json)>
    decreases s,
{
    if s.len() == 0 {
        s
    } else {
        let (k, v) = s.last();
        redacted_fields(s.drop_last()).push(
            (
                k,
                if sensitive_key(k) {
                    Json::Str("[redacted]"@)
                } else {
                    redacted_json(v)
                },
            ),
        )
    }
}

fn is_sensitive_key(k: &str) -> (b: bool)
    ensures
        b == sensitive_key(k@),
{
    let l = to_ascii_lower(&chars_of(k));
    contains_exec(&l, &chars_of("token")) || contains_exec(&l, &chars_of("secret")) || contains_exec(
        &l,
        &chars_of("password"),
    ) || contains_exec(&l, &chars_of("authorization")) || contains_exec(&l, &chars_of("cookie"))
}

/// Redacts a task result for the history (see `redacted_json`).
pub fn redact_task_value(value: &JsonValue) -> (r: JsonValue)
    ensures
        r@ == redacted_json(value@),
    decreases value,
{
    match value {
        JsonValue::Object(fields) => {
            let mut out: Vec<(String, JsonValue)> = Vec::new();
            let mut i: usize = 0;
            while i < fields.len()
                invariant
                    i <= fields.len(),
                    *value == JsonValue::Object(*fields),
                    view_fields(out@) == redacted_fields(view_fields(fields@.take(i as int))),
                decreases fields.len() - i,
            {
                proof {
                    vstd::std_specs::vec::axiom_vec_index_decreases(*fields, i as int);
                    assert(decreases_to!(*value => (*value)->Object_0));
                    assert(decreases_to!(*value => fields[i as int]));
                    assert(decreases_to!(*value => fields[i as int].1));
                }
                let k = fields[i].0.clone();
                let v = if is_sensitive_key(fields[i].0.as_str()) {
                    JsonValue::String(String::from_str("[redacted]"))
                } else {
                    redact_task_value(&fields[i].1)
                };
                proof {
                    let prev = fields@.take(i as int);
                    assert(fields@.take(i + 1) =~= prev.push(fields@[i as int]));
                    crate::json::lemma_view_fields_push(prev, fields@[i as int]);
                    crate::json::lemma_view_fields_push(out@, (k, v));
                    assert(view_fields(fields@.take(i + 1)).drop_last() =~= view_fields(prev));
                }
                out.push((k, v));
                i = i + 1;
            }
            assert(fields@.take(fields.len() as int) =~= fields@);
            JsonValue::Object(out)
        },
        JsonValue::Array(items) => {
            let mut out: Vec<JsonValue> = Vec::new();
            let mut i: usize = 0;
            while i < items.len()
                invariant
                    i <= items.len(),
                    *value == JsonValue::Array(*items),
                    view_items(out@) == redacted_items(view_items(items@.take(i as int))),
                decreases items.len() - i,
            {
                proof {
                    vstd::std_specs::vec::axiom_vec_index_decreases(*items, i as int);
                    assert(decreases_to!(*value => (*value)->Array_0));
                    assert(decreases_to!(*value => items[i as int]));
                }
                let v = redact_task_value(&items[i]);
                proof {
                    let prev = items@.take(i as int);
                    assert(items@.take(i + 1) =~= prev.push(items@[i as int]));
                    crate::json::lemma_view_items_push(prev, items@[i as int]);
                    crate::json::lemma_view_items_push(out@, v);
                    assert(view_items(items@.take(i + 1)).drop_last() =~= view_items(prev));
                }
                out.push(v);
                i = i + 1;
            }
            assert(items@.take(items.len() as int) =~= items@);
            JsonValue::Array(out)
        },
        JsonValue::String(text) => {
            let t = redact_url_query_tokens(text.as_str());
            JsonValue::String(limit_task_text(t.as_str()))
        },
        JsonValue::Null => JsonValue::Null,
        JsonValue::Bool(b) => JsonValue::Bool(*b),
        JsonValue::Number(n) => JsonValue::Number(n.duplicate()),
    }
}

/// A browser-backed adapter task as the extension popup lists it.
#[derive(Debug)]
pub struct BrowserTask {
    pub id: String,
    pub workspace: String,
    pub status: String,
    pub started_at_ms: u128,
    pub finished_at_ms: Option<u128>,
    pub result_preview: Option<String>,
    pub error: Option<String>,
}

/// The model of a task.
pub struct TaskView {
    pub id: Seq<char>,
    pub workspace: Seq<char>,
    pub status: Seq<char>,
    pub started_at_ms: u128,
    pub finished_at_ms: Option<u128>,
    pub result_preview: Option<Seq<char>>,
    pub error: Option<Seq<char>>,
}

pub open spec fn opt_text_view(o: Option<String>) -> Option<Seq<char>> {
    match o {
        Some(s) => Some(s@),
        None => None,
    }
}

impl View for BrowserTask {
    type V = TaskView;

    open spec fn view(&self) -> TaskView {
        TaskView {
            id: self.id@,
            workspace: self.workspace@,
            status: self.status@,
            started_at_ms: self.started_at_ms,
            finished_at_ms: self.finished_at_ms,
            result_preview: opt_text_view(self.result_preview),
            error: opt_text_view(self.error),
        }
    }
}

pub open spec fn tasks_view(v: Seq<BrowserTask>) -> Seq<TaskView> {
    v.map_values(|t: BrowserTask| t@)
}

fn copy_text(o: &Option<String>) -> (r: Option<String>)
    ensures
        opt_text_view(r) == opt_text_view(*o),
{
    match o {
        Some(s) => Some(s.clone()),
        None => None,
    }
}

impl BrowserTask {
    /// A duplicate of the task, with an equal model.
    pub fn duplicate(&self) -> (r: BrowserTask)
        ensures
            r@ == self@,
    {
        BrowserTask {
            id: self.id.clone(),
            workspace: self.workspace.clone(),
            status: self.status.clone(),
            started_at_ms: self.started_at_ms,
            finished_at_ms: self.finished_at_ms,
            result_preview: copy_text(&self.result_preview),
            error: copy_text(&self.error),
        }
    }
}

/// The task that starting one records: running, in the given workspace
/// (`adapter:unknown` when none is given).
pub open spec fn started_task(id: Seq<char>, workspace: Option<Seq<char>>, now: u128) -> TaskView {
    TaskView {
        id,
        workspace: match workspace {
            Some(w) => w,
            None => "adapter:unknown"@,
        },
        status: "running"@,
        started_at_ms: now,
        finished_at_ms: None,
        result_preview: None,
        error: None,
    }
}

/// Records a task that starts now, newest first; the history keeps the
/// latest `TASK_HISTORY_LIMIT` tasks.
pub fn start_task(tasks: &mut Vec<BrowserTask>, id: String, workspace: Option<String>, now: u128) -> (r:
    BrowserTask)
    ensures
        r@ == started_task(id@, opt_text_view(workspace), now),
        tasks_view(final(tasks)@) == (seq![r@] + tasks_view(old(tasks)@)).take(
            if old(tasks)@.len() + 1 > TASK_HISTORY_LIMIT {
                TASK_HISTORY_LIMIT as int
            } else {
                old(tasks)@.len() + 1int
            },
        ),
{
    let ws = match workspace {
        Some(w) => w,
        None => String::from_str("adapter:unknown"),
    };
    let task = BrowserTask {
        id,
        workspace: ws,
        status: String::from_str("running"),
        started_at_ms: now,
        finished_at_ms: None,
        result_preview: None,
        error: None,
    };
    let r = task.duplicate();
    let ghost before = tasks_view(tasks@);
    tasks.insert(0, task);
    assert(tasks_view(tasks@) =~= seq![r@] + before);
    if tasks.len() > TASK_HISTORY_LIMIT {
        tasks.truncate(TASK_HISTORY_LIMIT);
    }
    assert(tasks_view(tasks@) =~= (seq![r@] + before).take(
        if before.len() + 1 > TASK_HISTORY_LIMIT {
            TASK_HISTORY_LIMIT as int
        } else {
            before.len() + 1int
        },
    ));
    r
}

/// Why a task could not be finished.
#[derive(Debug, Clone, Copy, PartialEq, Eq, Structural)]
pub enum TaskError {
    /// No task id was given (a bad request).
    MissingId,
    /// No task has the id (not found).
    NotFound,
}

impl TaskError {
    pub fn message(&self) -> (r: &'static str)
        ensures
            r@ == (match *self {
                TaskError::MissingId => "Task id is required when finishing a task"@,
                TaskError::NotFound => "Task not found"@,
            }),
    {
        match self {
            TaskError::MissingId => "Task id is required when finishing a task",
            TaskError::NotFound => "Task not found",
        }
    }
}

/// A task after it finished: its new status, the time, the preview of its
/// result and its error cut to the kept length.
pub open spec fn finished_task(
    t: TaskView,
    status: Seq<char>,
    preview: Option<Seq<char>>,
    error: Option<Seq<char>>,
    now: u128,
) -> TaskView {
    TaskView {
        status,
        finished_at_ms: Some(now),
        result_preview: preview,
        error: match error {
            Some(e) => Some(limited_text(e)),
            None => None,
        },
        ..t
    }
}

/// Index of the newest task with this id.
pub open spec fn is_first_task_with(s: Seq<TaskView>, id: Seq<char>, i: int) -> bool {
    &&& 0 <= i < s.len()
    &&& s[i].id == id
    &&& forall|j: int| 0 <= j < i ==> (#[trigger] s[j]).id != id
}

pub open spec fn opt_str_view(o: Option<&str>) -> Option<Seq<char>> {
    match o {
        Some(s) => Some(s@),
        None => None,
    }
}

/// Finishes the newest task with `id`, recording its status, the time, the
/// preview of its result and its error.
pub fn finish_task(
    tasks: &mut Vec<BrowserTask>,
    id: Option<&str>,
    status: &str,
    preview: Option<String>,
    error: Option<&str>,
    now: u128,
) -> (r: Result<BrowserTask, TaskError>)
    ensures
        match r {
            Ok(t) => id is Some && exists|i: int|
                is_first_task_with(tasks_view(old(tasks)@), id->0@, i) && t@ == finished_task(
                    tasks_view(old(tasks)@)[i],
                    status@,
                    opt_text_view(preview),
                    opt_str_view(error),
                    now,
                ) && tasks_view(final(tasks)@) == tasks_view(old(tasks)@).update(i, t@),
            Err(e) => tasks_view(final(tasks)@) == tasks_view(old(tasks)@) && (e == TaskError::MissingId
                <==> id is None) && (e == TaskError::NotFound ==> forall|j: int|
                0 <= j < old(tasks)@.len() ==> (#[trigger] tasks_view(old(tasks)@)[j]).id != id->0@),
        },
{
    let key = match id {
        Some(x) => x.to_owned(),
        None => {
            return Err(TaskError::MissingId);
        },
    };
    let ghost before = tasks_view(tasks@);
    let ghost pv = opt_text_view(preview);
    let mut i: usize = 0;
    while i < tasks.len()
        invariant
            i <= tasks.len(),
            before == tasks_view(tasks@),
            before == tasks_view(old(tasks)@),
            pv == opt_text_view(preview),
            id is Some && key@ == id->0@,
            forall|j: int| 0 <= j < i ==> (#[trigger] before[j]).id != key@,
        decreases tasks.len() - i,
    {
        if tasks[i].id == key {
            let err = match error {
                Some(e) => Some(limit_task_text(e)),
                None => None,
            };
            let old_task = tasks.remove(i);
            let t = BrowserTask {
                id: old_task.id,
                workspace: old_task.workspace,
                status: status.to_owned(),
                started_at_ms: old_task.started_at_ms,
                finished_at_ms: Some(now),
                result_preview: preview,
                error: err,
            };
            let r = t.duplicate();
            tasks.insert(i, t);
            assert(tasks_view(tasks@) =~= before.update(i as int, r@));
            assert(is_first_task_with(before, key@, i as int));
            assert(r@ == finished_task(before[i as int], status@, pv, opt_str_view(error), now));
            return Ok(r);
        }
        i = i + 1;
    }
    Err(TaskError::NotFound)
}

/// What a start or finish request of the task endpoint carries.
#[derive(Debug)]
pub struct TaskUpdate {
    /// `running` starts a task; any other status finishes one.
    pub status: String,
    /// The task to finish.
    pub id: Option<String>,
    /// Where a started task runs.
    pub workspace: Option<String>,
    /// The preview of the finished task's result.
    pub preview: Option<String>,
    /// The finished task's error.
    pub error: Option<String>,
}

/// How the task endpoint answers.
#[derive(Debug)]
pub enum TaskReply {
    /// A CORS preflight: no content.
    NoContent,
    /// 403: neither the `X-OpenCLI` header nor an extension origin.
    Forbidden,
    /// The task list.
    List,
    /// A task was started.
    Started(BrowserTask),
    /// A task was finished.
    Finished(BrowserTask),
    /// 400, with the reason.
    BadRequest(String),
    /// 404: no task has the id.
    NotFound,
}

/// Answers a request of the task endpoint and updates the history. The
/// request is a preflight or not, a read or not, with or without the
/// `X-OpenCLI` header and from an origin; a start or finish carries its
/// body as read (or why it could not be read). A started task gets
/// `new_id`; times are `now`.
pub fn handle_task_request(
    tasks: &mut Vec<BrowserTask>,
    is_options: bool,
    is_get: bool,
    has_header: bool,
    origin: Option<&str>,
    body: Result<TaskUpdate, String>,
    new_id: String,
    now: u128,
) -> (r: TaskReply)
    ensures
        old(tasks)@.len() <= TASK_HISTORY_LIMIT ==> final(tasks)@.len() <= TASK_HISTORY_LIMIT,
        match task_route_of(is_options, is_get, has_header, opt_str(origin)) {
            TaskRoute::Preflight => r is NoContent && final(tasks)@ == old(tasks)@,
            TaskRoute::Forbidden => r is Forbidden && final(tasks)@ == old(tasks)@,
            TaskRoute::List => r is List && final(tasks)@ == old(tasks)@,
            TaskRoute::Update => match body {
                Err(m) => r matches TaskReply::BadRequest(e) && e@ == m@ && final(tasks)@ == old(tasks)@,
                Ok(u) => if u.status@ == "running"@ {
                    r matches TaskReply::Started(t) && t@ == started_task(new_id@, opt_text_view(u.workspace), now)
                        && tasks_view(final(tasks)@) == (seq![t@] + tasks_view(old(tasks)@)).take(
                        if old(tasks)@.len() + 1 > TASK_HISTORY_LIMIT {
                            TASK_HISTORY_LIMIT as int
                        } else {
                            old(tasks)@.len() + 1int
                        },
                    )
                } else {
                    match r {
                        TaskReply::Finished(t) => u.id is Some && exists|i: int|
                            is_first_task_with(tasks_view(old(tasks)@), u.id->0@, i) && t@ == finished_task(
                                tasks_view(old(tasks)@)[i],
                                u.status@,
                                opt_text_view(u.preview),
                                opt_text_view(u.error),
                                now,
                            ) && tasks_view(final(tasks)@) == tasks_view(old(tasks)@).update(i, t@),
                        TaskReply::BadRequest(e) => u.id is None && e@
                            == "Task id is required when finishing a task"@ && tasks_view(final(tasks)@)
                            == tasks_view(old(tasks)@),
                        TaskReply::NotFound => u.id is Some && tasks_view(final(tasks)@) == tasks_view(
                            old(tasks)@,
                        ) && forall|j: int|
                            0 <= j < old(tasks)@.len() ==> (#[trigger] tasks_view(old(tasks)@)[j]).id
                                != u.id->0@,
                        _ => false,
                    }
                },
            },
        },
{
    match task_route(is_options, is_get, has_header, origin) {
        TaskRoute::Preflight => TaskReply::NoContent,
        TaskRoute::Forbidden => TaskReply::Forbidden,
        TaskRoute::List => TaskReply::List,
        TaskRoute::Update => {
            let u = match body {
                Err(m) => {
                    return TaskReply::BadRequest(m);
                },
                Ok(u) => u,
            };
            proof {
                reveal_strlit("running");
            }
            if crate::text::str_eq(u.status.as_str(), "running") {
                let t = start_task(tasks, new_id, u.workspace, now);
                proof {
                    assert(tasks_view(tasks@).len() == tasks@.len());
                }
                TaskReply::Started(t)
            } else {
                let ghost before = tasks_view(tasks@);
                let err = match &u.error {
                    Some(e) => Some(e.as_str()),
                    None => None,
                };
                let id = match &u.id {
                    Some(x) => Some(x.as_str()),
                    None => None,
                };
                let out = finish_task(tasks, id, u.status.as_str(), u.preview, err, now);
                proof {
                    assert(tasks_view(tasks@).len() == tasks@.len());
                    assert(before.len() == old(tasks)@.len());
                }
                match out {
                    Ok(t) => {
                        proof {
                            assert(tasks_view(tasks@).len() == before.len());
                        }
                        TaskReply::Finished(t)
                    },
                    Err(TaskError::MissingId) => TaskReply::BadRequest(
                        String::from_str(TaskError::MissingId.message()),
                    ),
                    Err(TaskError::NotFound) => TaskReply::NotFound,
                }
            }
        },
    }
}

} // verus!
