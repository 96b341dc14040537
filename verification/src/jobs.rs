//! Scheduled jobs: their states, the retry policy, and how a job names the
//! command it runs and the arguments it passes.
use vstd::prelude::*;

use crate::json::{Json, JsonValue, view_fields};
use crate::text::{concat3, split_words, str_eq, words};

verus! {

/// The state of a scheduled job.
#[derive(Debug, Clone, Copy, PartialEq, Eq, Structural)]
pub enum JobStatus {
    Pending,
    Running,
    Done,
    Failed,
    Cancelled,
}

pub open spec fn job_status_name(s: JobStatus) -> Seq<char> {
    match s {
        JobStatus::Pending => "pending"@,
        JobStatus::Running => "running"@,
        JobStatus::Done => "done"@,
        JobStatus::Failed => "failed"@,
        JobStatus::Cancelled => "cancelled"@,
    }
}

/// The state a stored name reads as; unknown names read as pending.
pub open spec fn job_status_from(s: Seq<char>) -> JobStatus {
    if s == "running"@ {
        JobStatus::Running
    } else if s == "done"@ {
        JobStatus::Done
    } else if s == "failed"@ {
        JobStatus::Failed
    } else if s == "cancelled"@ {
        JobStatus::Cancelled
    } else {
        JobStatus::Pending
    }
}

impl JobStatus {
    /// The name of the state, in lower case.
    pub fn to_string(&self) -> (r: String)
        ensures
            r@ == job_status_name(*self),
    {
        match self {
            JobStatus::Pending => String::from_str("pending"),
            JobStatus::Running => String::from_str("running"),
            JobStatus::Done => String::from_str("done"),
            JobStatus::Failed => String::from_str("failed"),
            JobStatus::Cancelled => String::from_str("cancelled"),
        }
    }
}

impl From<&str> for JobStatus {
    fn from(s: &str) -> (r: JobStatus) {
        if str_eq(s, "running") {
            JobStatus::Running
        } else if str_eq(s, "done") {
            JobStatus::Done
        } else if str_eq(s, "failed") {
            JobStatus::Failed
        } else if str_eq(s, "cancelled") {
            JobStatus::Cancelled
        } else {
            JobStatus::Pending
        }
    }
}

impl vstd::std_specs::convert::FromSpecImpl<&str> for JobStatus {
    open spec fn obeys_from_spec() -> bool {
        true
    }

    open spec fn from_spec(s: &str) -> JobStatus {
        job_status_from(s@)
    }
}

/// Reading back the name of a state gives the state again.
pub proof fn law_job_status_round_trip(s: JobStatus)
    ensures
        job_status_from(job_status_name(s)) == s,
{
    reveal_strlit("pending");
    reveal_strlit("running");
    reveal_strlit("done");
    reveal_strlit("failed");
    reveal_strlit("cancelled");
    assert("pending"@[0] == 'p' && "running"@[0] == 'r' && "done"@[0] == 'd');
    assert("failed"@[0] == 'f' && "cancelled"@[0] == 'c');
}

/// `2^n`.
pub open spec fn pow2(n: nat) -> nat
    decreases n,
{
    if n == 0 {
        1
    } else {
        2 * pow2((n - 1) as nat)
    }
}

/// The largest retry count whose back-off delay fits in an `i64`.
pub const MAX_BACKOFF_EXPONENT: i32 = 58;

/// After a failed run: whether the job is retried, and after how many
/// seconds. A job is retried while it has failed fewer times than it may;
/// the delay doubles with each retry, starting at 30 seconds.
pub open spec fn retry_outcome(retry_count: i32, max_retries: i32) -> Option<i64> {
    if retry_count < max_retries {
        Some((30 * pow2(retry_count as nat)) as i64)
    } else {
        None
    }
}

proof fn lemma_pow2_mono(a: nat, b: nat)
    requires
        a <= b,
    ensures
        pow2(a) <= pow2(b),
    decreases b,
{
    if a < b {
        lemma_pow2_mono(a, (b - 1) as nat);
    }
}

proof fn lemma_pow2_58()
    ensures
        pow2(58) == 288230376151711744,
{
    reveal_with_fuel(pow2, 60);
}

/// Whether a failed job is retried and after how many seconds.
pub fn retry_delay(retry_count: i32, max_retries: i32) -> (r: Option<i64>)
    requires
        retry_count < max_retries ==> 0 <= retry_count <= MAX_BACKOFF_EXPONENT,
    ensures
        r == retry_outcome(retry_count, max_retries),
{
    if retry_count < max_retries {
        let mut d: i64 = 30;
        let mut i: i32 = 0;
        proof {
            lemma_pow2_58();
        }
        while i < retry_count
            invariant
                0 <= i <= retry_count <= 58,
                d == 30 * pow2(i as nat),
                pow2(58) == 288230376151711744,
            decreases retry_count - i,
        {
            proof {
                lemma_pow2_mono((i + 1) as nat, 58);
            }
            d = d * 2;
            i = i + 1;
        }
        Some(d)
    } else {
        None
    }
}

/// When a finished job runs next: a positive interval reschedules it that
/// many seconds later; otherwise it is done.
pub open spec fn next_run_delay(interval_seconds: Option<i64>) -> Option<i64> {
    match interval_seconds {
        Some(i) => if i > 0 {
            Some(i)
        } else {
            None
        },
        None => None,
    }
}

pub fn reschedule_delay(interval_seconds: Option<i64>) -> (r: Option<i64>)
    ensures
        r == next_run_delay(interval_seconds),
{
    match interval_seconds {
        Some(i) => if i > 0 {
            Some(i)
        } else {
            None
        },
        None => None,
    }
}

/// The site and command that a job's adapter names: exactly two words.
pub open spec fn job_target_outcome(adapter: Seq<char>) -> Result<(Seq<char>, Seq<char>), Seq<char>> {
    let w = words(adapter);
    if w.len() == 2 {
        Ok((w[0], w[1]))
    } else {
        Err("Invalid adapter format: '"@ + adapter + "'"@)
    }
}

/// Splits a job's adapter into site and command.
pub fn job_target(adapter: &str) -> (r: Result<(String, String), String>)
    ensures
        match r {
            Ok((site, cmd)) => job_target_outcome(adapter@) == Ok::<(Seq<char>, Seq<char>), Seq<char>>(
                (site@, cmd@),
            ),
            Err(e) => job_target_outcome(adapter@) == Err::<(Seq<char>, Seq<char>), Seq<char>>(e@),
        },
{
    let parts = split_words(adapter);
    if parts.len() != 2 {
        return Err(concat3("Invalid adapter format: '", adapter, "'"));
    }
    let site = parts[0].clone();
    let cmd = parts[1].clone();
    Ok((site, cmd))
}

/// The message for a job whose command does not exist or is disabled.
pub fn unknown_adapter_message(site: &str, cmd: &str) -> (r: String)
    ensures
        r@ == "Unknown or disabled adapter: "@ + site@ + " "@ + cmd@,
{
    let mut r = concat3("Unknown or disabled adapter: ", site, " ");
    r.append(cmd);
    r
}

/// Whether some pair has this key.
pub open spec fn has_key(kw: Seq<(Seq<char>, Json)>, k: Seq<char>) -> bool {
    exists|i: int| 0 <= i < kw.len() && kw[i].0 == k
}

/// `kw` with, for each argument definition in turn, its default added when
/// it has one and no pair has its name yet.
pub open spec fn with_defaults(kw: Seq<(Seq<char>, Json)>, defs: Seq<(Seq<char>, Option<Json>)>) -> Seq<
    (Seq<char>, Json),
>
    decreases defs.len(),
{
    if defs.len() == 0 {
        kw
    } else {
        let d = defs[0];
        let kw2 = if !has_key(kw, d.0) && d.1 is Some {
            kw.push((d.0, d.1->0))
        } else {
            kw
        };
        with_defaults(kw2, defs.drop_first())
    }
}

/// The keyword arguments a job passes: the fields of its `args` object
/// (none when there are no args or they are null), completed with the
/// defaults of the command's arguments; any other `args` is refused.
pub open spec fn job_kwargs_outcome(args: Option<Json>, defs: Seq<(Seq<char>, Option<Json>)>) -> Result<
    Seq<(Seq<char>, Json)>,
    Seq<char>,
> {
    match args {
        Some(Json::Object(fields)) => Ok(with_defaults(fields, defs)),
        Some(Json::Null) => Ok(with_defaults(Seq::empty(), defs)),
        None => Ok(with_defaults(Seq::empty(), defs)),
        Some(_) => Err("args must be a JSON object"@),
    }
}

pub open spec fn defs_view(defs: Seq<(String, Option<JsonValue>)>) -> Seq<(Seq<char>, Option<Json>)> {
    defs.map_values(
        |d: (String, Option<JsonValue>)|
            (
                d.0@,
                match d.1 {
                    Some(v) => Some(v@),
                    None => None,
                },
            ),
    )
}

pub open spec fn opt_json(o: Option<JsonValue>) -> Option<Json> {
    match o {
        Some(v) => Some(v@),
        None => None,
    }
}

fn has_key_exec(kw: &Vec<(String, JsonValue)>, k: &String) -> (b: bool)
    ensures
        b == has_key(view_fields(kw@), k@),
{
    let mut i: usize = 0;
    proof {
        crate::json::lemma_view_fields_len(kw@);
    }
    while i < kw.len()
        invariant
            i <= kw.len(),
            view_fields(kw@).len() == kw@.len(),
            forall|j: int| 0 <= j < i ==> view_fields(kw@)[j].0 != k@,
        decreases kw.len() - i,
    {
        proof {
            crate::json::lemma_view_fields_index(kw@, i as int);
        }
        if kw[i].0 == *k {
            return true;
        }
        i = i + 1;
    }
    false
}

/// The keyword arguments of a job: see `job_kwargs_outcome`. `defs` holds
/// each argument definition's name and default.
pub fn job_kwargs(args: Option<JsonValue>, defs: &Vec<(String, Option<JsonValue>)>) -> (r: Result<
    Vec<(String, JsonValue)>,
    String,
>)
    ensures
        match r {
            Ok(kw) => job_kwargs_outcome(opt_json(args), defs_view(defs@)) == Ok::<
                Seq<(Seq<char>, Json)>,
                Seq<char>,
            >(view_fields(kw@)),
            Err(e) => job_kwargs_outcome(opt_json(args), defs_view(defs@)) == Err::<
                Seq<(Seq<char>, Json)>,
                Seq<char>,
            >(e@),
        },
{
    let mut kw: Vec<(String, JsonValue)> = match args {
        Some(JsonValue::Object(fields)) => fields,
        Some(JsonValue::Null) => Vec::new(),
        None => Vec::new(),
        Some(_) => {
            return Err(String::from_str("args must be a JSON object"));
        },
    };
    let ghost dv = defs_view(defs@);
    let mut i: usize = 0;
    assert(dv.skip(0) =~= dv);
    while i < defs.len()
        invariant
            i <= defs.len(),
            dv == defs_view(defs@),
            job_kwargs_outcome(opt_json(args), dv) == Ok::<Seq<(Seq<char>, Json)>, Seq<char>>(
                with_defaults(view_fields(kw@), dv.skip(i as int)),
            ),
        decreases defs.len() - i,
    {
        let ghost rest = dv.skip(i as int);
        assert(rest.drop_first() =~= dv.skip(i + 1));
        assert(rest[0] == dv[i as int]);
        let present = has_key_exec(&kw, &defs[i].0);
        match &defs[i].1 {
            Some(d) => {
                if !present {
                    let ghost prev = kw@;
                    kw.push((defs[i].0.clone(), d.deep_clone()));
                    proof {
                        crate::json::lemma_view_fields_push(prev, kw@[kw@.len() - 1]);
                    }
                }
            },
            None => {},
        }
        i = i + 1;
    }
    Ok(kw)
}

} // verus!
