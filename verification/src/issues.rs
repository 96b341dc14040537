//! Problems that users report against adapters: their kinds, states and
//! records. Where they are stored is the caller's business.
use vstd::prelude::*;

use crate::text::str_eq;

verus! {

/// What is wrong with an adapter.
#[derive(Debug, Clone, Copy, PartialEq, Eq, Structural)]
pub enum IssueKind {
    /// The adapter is broken: the API changed, it errs, its output is wrong.
    Broken,
    /// The summary or description is inaccurate or misleading.
    BadDescription,
    /// A missing feature or unexpected behaviour.
    Other,
}

/// The name a kind is stored and shown under.
pub open spec fn issue_kind_name(k: IssueKind) -> Seq<char> {
    match k {
        IssueKind::Broken => "broken"@,
        IssueKind::BadDescription => "bad_description"@,
        IssueKind::Other => "other"@,
    }
}

/// The kind a stored name reads as; unknown names read as `Other`.
pub open spec fn issue_kind_from(s: Seq<char>) -> IssueKind {
    if s == "broken"@ {
        IssueKind::Broken
    } else if s == "bad_description"@ {
        IssueKind::BadDescription
    } else {
        IssueKind::Other
    }
}

impl IssueKind {
    /// The name of the kind: `broken`, `bad_description` or `other`.
    pub fn to_string(&self) -> (r: String)
        ensures
            r@ == issue_kind_name(*self),
    {
        match self {
            IssueKind::Broken => String::from_str("broken"),
            IssueKind::BadDescription => String::from_str("bad_description"),
            IssueKind::Other => String::from_str("other"),
        }
    }
}

impl From<&str> for IssueKind {
    fn from(s: &str) -> (r: IssueKind) {
        if str_eq(s, "broken") {
            IssueKind::Broken
        } else if str_eq(s, "bad_description") {
            IssueKind::BadDescription
        } else {
            IssueKind::Other
        }
    }
}

impl vstd::std_specs::convert::FromSpecImpl<&str> for IssueKind {
    open spec fn obeys_from_spec() -> bool {
        true
    }

    open spec fn from_spec(s: &str) -> IssueKind {
        issue_kind_from(s@)
    }
}

/// Whether an issue is still open.
#[derive(Debug, Clone, Copy, PartialEq, Eq, Structural)]
pub enum IssueStatus {
    Open,
    Closed,
}

pub open spec fn issue_status_name(s: IssueStatus) -> Seq<char> {
    match s {
        IssueStatus::Open => "open"@,
        IssueStatus::Closed => "closed"@,
    }
}

/// `closed` reads as closed; every other name reads as open.
pub open spec fn issue_status_from(s: Seq<char>) -> IssueStatus {
    if s == "closed"@ {
        IssueStatus::Closed
    } else {
        IssueStatus::Open
    }
}

impl IssueStatus {
    /// The name of the status: `open` or `closed`.
    pub fn to_string(&self) -> (r: String)
        ensures
            r@ == issue_status_name(*self),
    {
        match self {
            IssueStatus::Open => String::from_str("open"),
            IssueStatus::Closed => String::from_str("closed"),
        }
    }
}

impl From<&str> for IssueStatus {
    fn from(s: &str) -> (r: IssueStatus) {
        if str_eq(s, "closed") {
            IssueStatus::Closed
        } else {
            IssueStatus::Open
        }
    }
}

impl vstd::std_specs::convert::FromSpecImpl<&str> for IssueStatus {
    open spec fn obeys_from_spec() -> bool {
        true
    }

    open spec fn from_spec(s: &str) -> IssueStatus {
        issue_status_from(s@)
    }
}

/// A reported problem with an adapter.
#[derive(Debug)]
pub struct Issue {
    pub id: i64,
    /// The adapter's full name, such as `"bilibili feed"`.
    pub adapter: String,
    pub kind: IssueKind,
    pub title: String,
    pub body: Option<String>,
    pub status: IssueStatus,
    pub created_at: i64,
    pub updated_at: i64,
}

/// Reading back the name of a kind gives the kind again.
pub proof fn law_issue_kind_round_trip(k: IssueKind)
    ensures
        issue_kind_from(issue_kind_name(k)) == k,
{
    reveal_strlit("broken");
    reveal_strlit("bad_description");
    reveal_strlit("other");
    assert("bad_description"@.len() != "broken"@.len());
    assert("other"@.len() != "broken"@.len());
    assert("other"@ != "bad_description"@) by {
        assert("other"@[0] != "bad_description"@[0]);
    }
}

/// Reading back the name of a status gives the status again.
pub proof fn law_issue_status_round_trip(s: IssueStatus)
    ensures
        issue_status_from(issue_status_name(s)) == s,
{
    reveal_strlit("open");
    reveal_strlit("closed");
    assert("open"@.len() != "closed"@.len());
}

} // verus!
