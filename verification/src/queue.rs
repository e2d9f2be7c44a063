//! The write queue: which failures send a write to the queue, what a queued
//! write looks like, and what becomes of it when it is replayed.

use vstd::prelude::*;
use vstd::seq_lib::*;
use vstd::string::StringExecFns;
use crate::cache::pending::{complete_op, queue_op, without_op};
use crate::cache::{Cache, CacheError, CacheView, PendingOp, PendingOpView};
use crate::json::{
    json_number_at, json_quoted, json_text_at, json_texts_at, labels_json, number_at, opt_texts,
    quote_json, serialize_labels, text_at, texts_at,
};
use crate::rows::{lemma_filter_all, lemma_filter_then, views};
use crate::text::{
    contains, copy_opt, decimal_digits, has_infix, opt_text, push_decimal, same_text, texts,
    unicode_lower,
};

verus! {

/// Whether a lowercase error message tells of a network that cannot be
/// reached: it holds one of seven phrases.
pub open spec fn network_class(lower: Seq<char>) -> bool {
    ||| has_infix(lower, "connection refused"@)
    ||| has_infix(lower, "network is unreachable"@)
    ||| has_infix(lower, "no route to host"@)
    ||| has_infix(lower, "dns error"@)
    ||| has_infix(lower, "connection reset"@)
    ||| has_infix(lower, "timed out"@)
    ||| has_infix(lower, "could not resolve"@)
}

/// Whether an error message tells that the remote state has moved on: it
/// holds one of the status codes 404, 409 and 422.
pub open spec fn conflict_class(message: Seq<char>) -> bool {
    has_infix(message, "404"@) || has_infix(message, "422"@) || has_infix(message, "409"@)
}

/// Whether an error message tells of throttling: it speaks of a rate limit or
/// holds the status code 403.
pub open spec fn throttle_class(message: Seq<char>) -> bool {
    has_infix(message, "rate limit"@) || has_infix(message, "403"@)
}

/// Whether the lowercase message `lower` is of the network class.
pub fn is_offline_message(lower: &str) -> (b: bool)
    ensures
        b == network_class(lower@),
{
    contains(lower, "connection refused") || contains(lower, "network is unreachable") || contains(
        lower,
        "no route to host",
    ) || contains(lower, "dns error") || contains(lower, "connection reset") || contains(
        lower,
        "timed out",
    ) || contains(lower, "could not resolve")
}

/// Whether an error message, whatever its case, is of the network class. A
/// write that fails so is queued.
pub fn is_offline_error(message: &str) -> (b: bool)
    ensures
        b == network_class(unicode_lower(message@)),
{
    let lower = message.to_lowercase();
    is_offline_message(lower.as_str())
}

/// Whether an error message is of the conflict class. A replayed write that
/// fails so is dropped: the remote state wins.
pub fn is_conflict_error(message: &str) -> (b: bool)
    ensures
        b == conflict_class(message@),
{
    contains(message, "404") || contains(message, "422") || contains(message, "409")
}

/// Whether an error message tells of throttling.
pub fn is_throttle_error(message: &str) -> (b: bool)
    ensures
        b == throttle_class(message@),
{
    contains(message, "rate limit") || contains(message, "403")
}

/// One write that can be asked of a forge.
#[derive(Debug)]
#[allow(inconsistent_fields)]
pub enum ForgeCall {
    CreateIssue { title: String, body: Option<String>, labels: Vec<String>, goal_id: Option<String> },
    CreateComment { issue_number: u64, body: String },
    CloseIssue { issue_number: u64 },
    ReopenIssue { issue_number: u64 },
    AddLabel { issue_number: u64, label: String },
    RemoveLabel { issue_number: u64, label: String },
    AssignIssue { issue_number: u64, assignee: String },
    CreateGoal { name: String, description: Option<String>, target_date: Option<String> },
    AssignToGoal { issue_number: u64, goal_id: String },
    CloseGoal { goal_id: String },
}

/// What a write holds.
#[allow(inconsistent_fields)]
pub enum ForgeCallView {
    CreateIssue {
        title: Seq<char>,
        body: Option<Seq<char>>,
        labels: Seq<Seq<char>>,
        goal_id: Option<Seq<char>>,
    },
    CreateComment { issue_number: u64, body: Seq<char> },
    CloseIssue { issue_number: u64 },
    ReopenIssue { issue_number: u64 },
    AddLabel { issue_number: u64, label: Seq<char> },
    RemoveLabel { issue_number: u64, label: Seq<char> },
    AssignIssue { issue_number: u64, assignee: Seq<char> },
    CreateGoal { name: Seq<char>, description: Option<Seq<char>>, target_date: Option<Seq<char>> },
    AssignToGoal { issue_number: u64, goal_id: Seq<char> },
    CloseGoal { goal_id: Seq<char> },
}

impl View for ForgeCall {
    type V = ForgeCallView;

    open spec fn view(&self) -> ForgeCallView {
        match self {
            ForgeCall::CreateIssue { title, body, labels, goal_id } => ForgeCallView::CreateIssue {
                title: title@,
                body: opt_text(*body),
                labels: texts(labels@),
                goal_id: opt_text(*goal_id),
            },
            ForgeCall::CreateComment { issue_number, body } => ForgeCallView::CreateComment {
                issue_number: *issue_number,
                body: body@,
            },
            ForgeCall::CloseIssue { issue_number } => ForgeCallView::CloseIssue {
                issue_number: *issue_number,
            },
            ForgeCall::ReopenIssue { issue_number } => ForgeCallView::ReopenIssue {
                issue_number: *issue_number,
            },
            ForgeCall::AddLabel { issue_number, label } => ForgeCallView::AddLabel {
                issue_number: *issue_number,
                label: label@,
            },
            ForgeCall::RemoveLabel { issue_number, label } => ForgeCallView::RemoveLabel {
                issue_number: *issue_number,
                label: label@,
            },
            ForgeCall::AssignIssue { issue_number, assignee } => ForgeCallView::AssignIssue {
                issue_number: *issue_number,
                assignee: assignee@,
            },
            ForgeCall::CreateGoal { name, description, target_date } => ForgeCallView::CreateGoal {
                name: name@,
                description: opt_text(*description),
                target_date: opt_text(*target_date),
            },
            ForgeCall::AssignToGoal { issue_number, goal_id } => ForgeCallView::AssignToGoal {
                issue_number: *issue_number,
                goal_id: goal_id@,
            },
            ForgeCall::CloseGoal { goal_id } => ForgeCallView::CloseGoal { goal_id: goal_id@ },
        }
    }
}

/// The name under which each kind of write is queued.
pub open spec fn kind_name(call: ForgeCallView) -> Seq<char> {
    match call {
        ForgeCallView::CreateIssue { .. } => "create"@,
        ForgeCallView::CreateComment { .. } => "comment"@,
        ForgeCallView::CloseIssue { .. } => "close"@,
        ForgeCallView::ReopenIssue { .. } => "reopen"@,
        ForgeCallView::AddLabel { .. } => "label_add"@,
        ForgeCallView::RemoveLabel { .. } => "label_remove"@,
        ForgeCallView::AssignIssue { .. } => "assign"@,
        ForgeCallView::CreateGoal { .. } => "create_goal"@,
        ForgeCallView::AssignToGoal { .. } => "assign_goal"@,
        ForgeCallView::CloseGoal { .. } => "close_goal"@,
    }
}

/// The issue that a write is about, where it is about one that exists.
pub open spec fn issue_of(call: ForgeCallView) -> Option<u64> {
    match call {
        ForgeCallView::CreateComment { issue_number, .. } => Some(issue_number),
        ForgeCallView::CloseIssue { issue_number } => Some(issue_number),
        ForgeCallView::ReopenIssue { issue_number } => Some(issue_number),
        ForgeCallView::AddLabel { issue_number, .. } => Some(issue_number),
        ForgeCallView::RemoveLabel { issue_number, .. } => Some(issue_number),
        ForgeCallView::AssignIssue { issue_number, .. } => Some(issue_number),
        ForgeCallView::AssignToGoal { issue_number, .. } => Some(issue_number),
        _ => None,
    }
}

impl ForgeCall {
    /// The name under which the write is queued.
    pub fn op_kind(&self) -> (name: &'static str)
        ensures
            name@ == kind_name(self@),
    {
        match self {
            ForgeCall::CreateIssue { .. } => "create",
            ForgeCall::CreateComment { .. } => "comment",
            ForgeCall::CloseIssue { .. } => "close",
            ForgeCall::ReopenIssue { .. } => "reopen",
            ForgeCall::AddLabel { .. } => "label_add",
            ForgeCall::RemoveLabel { .. } => "label_remove",
            ForgeCall::AssignIssue { .. } => "assign",
            ForgeCall::CreateGoal { .. } => "create_goal",
            ForgeCall::AssignToGoal { .. } => "assign_goal",
            ForgeCall::CloseGoal { .. } => "close_goal",
        }
    }

    /// The issue that the write is about, where it is about one that exists.
    pub fn issue_number(&self) -> (n: Option<u64>)
        ensures
            n == issue_of(self@),
    {
        match self {
            ForgeCall::CreateComment { issue_number, .. } => Some(*issue_number),
            ForgeCall::CloseIssue { issue_number } => Some(*issue_number),
            ForgeCall::ReopenIssue { issue_number } => Some(*issue_number),
            ForgeCall::AddLabel { issue_number, .. } => Some(*issue_number),
            ForgeCall::RemoveLabel { issue_number, .. } => Some(*issue_number),
            ForgeCall::AssignIssue { issue_number, .. } => Some(*issue_number),
            ForgeCall::AssignToGoal { issue_number, .. } => Some(*issue_number),
            _ => None,
        }
    }
}

/// The members of a queued payload that a replay may read.
#[derive(Debug)]
pub struct PayloadFields {
    pub title: Option<String>,
    pub body: Option<String>,
    pub labels: Option<Vec<Option<String>>>,
    pub goal_id: Option<String>,
    pub issue_number: Option<u64>,
    pub label: Option<String>,
    pub assignee: Option<String>,
    pub name: Option<String>,
    pub description: Option<String>,
    pub target_date: Option<String>,
}

/// What the members of a payload hold.
pub struct PayloadView {
    pub title: Option<Seq<char>>,
    pub body: Option<Seq<char>>,
    pub labels: Option<Seq<Option<Seq<char>>>>,
    pub goal_id: Option<Seq<char>>,
    pub issue_number: Option<u64>,
    pub label: Option<Seq<char>>,
    pub assignee: Option<Seq<char>>,
    pub name: Option<Seq<char>>,
    pub description: Option<Seq<char>>,
    pub target_date: Option<Seq<char>>,
}

impl View for PayloadFields {
    type V = PayloadView;

    open spec fn view(&self) -> PayloadView {
        PayloadView {
            title: opt_text(self.title),
            body: opt_text(self.body),
            labels: match self.labels {
                Some(list) => Some(opt_texts(list@)),
                None => None,
            },
            goal_id: opt_text(self.goal_id),
            issue_number: self.issue_number,
            label: opt_text(self.label),
            assignee: opt_text(self.assignee),
            name: opt_text(self.name),
            description: opt_text(self.description),
            target_date: opt_text(self.target_date),
        }
    }
}

/// The first error that reading the ten members of a payload meets, in the
/// order title, body, labels, goal_id, issue_number, label, assignee, name,
/// description, target_date.
pub open spec fn payload_error(doc: Seq<char>) -> Option<Seq<char>> {
    if text_at(doc, "title"@) is Err {
        Some(text_at(doc, "title"@)->Err_0)
    } else if text_at(doc, "body"@) is Err {
        Some(text_at(doc, "body"@)->Err_0)
    } else if texts_at(doc, "labels"@) is Err {
        Some(texts_at(doc, "labels"@)->Err_0)
    } else if text_at(doc, "goal_id"@) is Err {
        Some(text_at(doc, "goal_id"@)->Err_0)
    } else if number_at(doc, "issue_number"@) is Err {
        Some(number_at(doc, "issue_number"@)->Err_0)
    } else if text_at(doc, "label"@) is Err {
        Some(text_at(doc, "label"@)->Err_0)
    } else if text_at(doc, "assignee"@) is Err {
        Some(text_at(doc, "assignee"@)->Err_0)
    } else if text_at(doc, "name"@) is Err {
        Some(text_at(doc, "name"@)->Err_0)
    } else if text_at(doc, "description"@) is Err {
        Some(text_at(doc, "description"@)->Err_0)
    } else if text_at(doc, "target_date"@) is Err {
        Some(text_at(doc, "target_date"@)->Err_0)
    } else {
        None
    }
}

/// What a payload reads as: its members, or the first error met.
pub open spec fn payload_of(doc: Seq<char>) -> Result<PayloadView, Seq<char>> {
    match payload_error(doc) {
        Some(e) => Err(e),
        None => Ok(
            PayloadView {
                title: text_at(doc, "title"@)->Ok_0,
                body: text_at(doc, "body"@)->Ok_0,
                labels: texts_at(doc, "labels"@)->Ok_0,
                goal_id: text_at(doc, "goal_id"@)->Ok_0,
                issue_number: number_at(doc, "issue_number"@)->Ok_0,
                label: text_at(doc, "label"@)->Ok_0,
                assignee: text_at(doc, "assignee"@)->Ok_0,
                name: text_at(doc, "name"@)->Ok_0,
                description: text_at(doc, "description"@)->Ok_0,
                target_date: text_at(doc, "target_date"@)->Ok_0,
            },
        ),
    }
}

/// The view of what `read_payload` returns.
pub open spec fn payload_read(r: Result<PayloadFields, String>) -> Result<PayloadView, Seq<char>> {
    match r {
        Ok(f) => Ok(f@),
        Err(e) => Err(e@),
    }
}

/// Reads the members of a payload.
pub fn read_payload(doc: &str) -> (r: Result<PayloadFields, String>)
    ensures
        payload_read(r) == payload_of(doc@),
{
    let title = match json_text_at(doc, "title") {
        Ok(x) => x,
        Err(e) => {
            return Err(e);
        },
    };
    let body = match json_text_at(doc, "body") {
        Ok(x) => x,
        Err(e) => {
            return Err(e);
        },
    };
    let labels = match json_texts_at(doc, "labels") {
        Ok(x) => x,
        Err(e) => {
            return Err(e);
        },
    };
    let goal_id = match json_text_at(doc, "goal_id") {
        Ok(x) => x,
        Err(e) => {
            return Err(e);
        },
    };
    let issue_number = match json_number_at(doc, "issue_number") {
        Ok(x) => x,
        Err(e) => {
            return Err(e);
        },
    };
    let label = match json_text_at(doc, "label") {
        Ok(x) => x,
        Err(e) => {
            return Err(e);
        },
    };
    let assignee = match json_text_at(doc, "assignee") {
        Ok(x) => x,
        Err(e) => {
            return Err(e);
        },
    };
    let name = match json_text_at(doc, "name") {
        Ok(x) => x,
        Err(e) => {
            return Err(e);
        },
    };
    let description = match json_text_at(doc, "description") {
        Ok(x) => x,
        Err(e) => {
            return Err(e);
        },
    };
    let target_date = match json_text_at(doc, "target_date") {
        Ok(x) => x,
        Err(e) => {
            return Err(e);
        },
    };
    Ok(
        PayloadFields {
            title,
            body,
            labels,
            goal_id,
            issue_number,
            label,
            assignee,
            name,
            description,
            target_date,
        },
    )
}

/// A member that should be a string, or the empty string where it is not.
pub open spec fn text_or_empty(x: Option<Seq<char>>) -> Seq<char> {
    match x {
        Some(s) => s,
        None => Seq::empty(),
    }
}

/// A member that should be a number, or zero where it is not.
pub open spec fn number_or_zero(x: Option<u64>) -> u64 {
    match x {
        Some(n) => n,
        None => 0,
    }
}

/// The strings among the elements of a list member; no list gives none.
pub open spec fn listed(x: Option<Seq<Option<Seq<char>>>>) -> Seq<Seq<char>> {
    match x {
        Some(list) => list.filter_map(|e: Option<Seq<char>>| e),
        None => Seq::empty(),
    }
}

/// The write that a queued operation of the kind `op_type` stands for, given
/// the members of its payload. A member that is missing or of another type
/// counts as empty or zero. A kind that is not known stands for no write.
pub open spec fn planned(op_type: Seq<char>, f: PayloadView) -> Option<ForgeCallView> {
    if op_type == "create"@ {
        Some(
            ForgeCallView::CreateIssue {
                title: text_or_empty(f.title),
                body: f.body,
                labels: listed(f.labels),
                goal_id: f.goal_id,
            },
        )
    } else if op_type == "comment"@ {
        Some(
            ForgeCallView::CreateComment {
                issue_number: number_or_zero(f.issue_number),
                body: text_or_empty(f.body),
            },
        )
    } else if op_type == "close"@ {
        Some(ForgeCallView::CloseIssue { issue_number: number_or_zero(f.issue_number) })
    } else if op_type == "reopen"@ {
        Some(ForgeCallView::ReopenIssue { issue_number: number_or_zero(f.issue_number) })
    } else if op_type == "label_add"@ {
        Some(
            ForgeCallView::AddLabel {
                issue_number: number_or_zero(f.issue_number),
                label: text_or_empty(f.label),
            },
        )
    } else if op_type == "label_remove"@ {
        Some(
            ForgeCallView::RemoveLabel {
                issue_number: number_or_zero(f.issue_number),
                label: text_or_empty(f.label),
            },
        )
    } else if op_type == "assign"@ {
        Some(
            ForgeCallView::AssignIssue {
                issue_number: number_or_zero(f.issue_number),
                assignee: text_or_empty(f.assignee),
            },
        )
    } else if op_type == "create_goal"@ {
        Some(
            ForgeCallView::CreateGoal {
                name: text_or_empty(f.name),
                description: f.description,
                target_date: f.target_date,
            },
        )
    } else if op_type == "assign_goal"@ {
        Some(
            ForgeCallView::AssignToGoal {
                issue_number: number_or_zero(f.issue_number),
                goal_id: text_or_empty(f.goal_id),
            },
        )
    } else if op_type == "close_goal"@ {
        Some(ForgeCallView::CloseGoal { goal_id: text_or_empty(f.goal_id) })
    } else {
        None
    }
}

/// Why a queued operation stands for no write.
#[derive(Debug)]
pub enum OpError {
    /// The payload is no JSON; the text says what was met.
    Malformed(String),
    /// The kind of the operation is not one of the known kinds.
    UnknownKind(String),
}

/// What an operation error holds.
pub enum OpErrorView {
    Malformed(Seq<char>),
    UnknownKind(Seq<char>),
}

impl View for OpError {
    type V = OpErrorView;

    open spec fn view(&self) -> OpErrorView {
        match self {
            OpError::Malformed(m) => OpErrorView::Malformed(m@),
            OpError::UnknownKind(k) => OpErrorView::UnknownKind(k@),
        }
    }
}

/// The sentence for an operation error.
pub open spec fn op_error_text(e: OpErrorView) -> Seq<char> {
    match e {
        OpErrorView::Malformed(m) => m,
        OpErrorView::UnknownKind(k) => "Unknown op type: "@ + k,
    }
}

impl OpError {
    /// The error as a sentence.
    pub fn message(&self) -> (text: String)
        ensures
            text@ == op_error_text(self@),
    {
        match self {
            OpError::Malformed(m) => m.clone(),
            OpError::UnknownKind(k) => {
                let mut text = String::from_str("Unknown op type: ");
                text.append(k.as_str());
                text
            },
        }
    }
}

/// A copy of an optional string, or the empty string.
fn owned_or_empty(x: &Option<String>) -> (s: String)
    ensures
        s@ == text_or_empty(opt_text(*x)),
{
    match x {
        Some(t) => t.clone(),
        None => String::new(),
    }
}

/// The number, or zero.
fn value_or_zero(x: Option<u64>) -> (n: u64)
    ensures
        n == number_or_zero(x),
{
    match x {
        Some(n) => n,
        None => 0,
    }
}

/// The strings among the elements of a list member.
fn strings_listed(x: &Option<Vec<Option<String>>>) -> (list: Vec<String>)
    ensures
        texts(list@) == listed(
            match *x {
                Some(l) => Some(opt_texts(l@)),
                None => None,
            },
        ),
{
    let mut list: Vec<String> = Vec::new();
    match x {
        Some(all) => {
            let ghost given = opt_texts(all@);
            let ghost pick = |e: Option<Seq<char>>| e;
            let mut i: usize = 0;
            proof {
                assert(given.take(0).filter_map(pick) =~= Seq::empty());
                assert(texts(list@) =~= Seq::empty());
            }
            while i < all.len()
                invariant
                    i <= all.len(),
                    given == opt_texts(all@),
                    pick == (|e: Option<Seq<char>>| e),
                    texts(list@) == given.take(i as int).filter_map(pick),
                decreases all.len() - i,
            {
                let ghost before = list@;
                proof {
                    given.lemma_filter_map_take_succ(pick, i as int);
                }
                match &all[i] {
                    Some(t) => {
                        let c = t.clone();
                        list.push(c);
                        proof {
                            assert(texts(list@) =~= texts(before).push(c@));
                            assert(given[i as int] == Some(c@));
                        }
                    },
                    None => {
                        proof {
                            assert(given[i as int] is None);
                        }
                    },
                }
                i += 1;
            }
            proof {
                assert(given.take(i as int) =~= given);
            }
        },
        None => {
            proof {
                assert(texts(list@) =~= Seq::empty());
            }
        },
    }
    list
}

/// The write that a queued operation of the kind `op_type` with the payload
/// members `fields` stands for.
pub fn plan_op(op_type: &str, fields: &PayloadFields) -> (r: Result<ForgeCall, OpError>)
    ensures
        match r {
            Ok(call) => planned(op_type@, fields@) == Some(call@),
            Err(e) => planned(op_type@, fields@) is None && e@ == OpErrorView::UnknownKind(
                op_type@,
            ),
        },
{
    if same_text(op_type, "create") {
        Ok(
            ForgeCall::CreateIssue {
                title: owned_or_empty(&fields.title),
                body: copy_opt(&fields.body),
                labels: strings_listed(&fields.labels),
                goal_id: copy_opt(&fields.goal_id),
            },
        )
    } else if same_text(op_type, "comment") {
        Ok(
            ForgeCall::CreateComment {
                issue_number: value_or_zero(fields.issue_number),
                body: owned_or_empty(&fields.body),
            },
        )
    } else if same_text(op_type, "close") {
        Ok(ForgeCall::CloseIssue { issue_number: value_or_zero(fields.issue_number) })
    } else if same_text(op_type, "reopen") {
        Ok(ForgeCall::ReopenIssue { issue_number: value_or_zero(fields.issue_number) })
    } else if same_text(op_type, "label_add") {
        Ok(
            ForgeCall::AddLabel {
                issue_number: value_or_zero(fields.issue_number),
                label: owned_or_empty(&fields.label),
            },
        )
    } else if same_text(op_type, "label_remove") {
        Ok(
            ForgeCall::RemoveLabel {
                issue_number: value_or_zero(fields.issue_number),
                label: owned_or_empty(&fields.label),
            },
        )
    } else if same_text(op_type, "assign") {
        Ok(
            ForgeCall::AssignIssue {
                issue_number: value_or_zero(fields.issue_number),
                assignee: owned_or_empty(&fields.assignee),
            },
        )
    } else if same_text(op_type, "create_goal") {
        Ok(
            ForgeCall::CreateGoal {
                name: owned_or_empty(&fields.name),
                description: copy_opt(&fields.description),
                target_date: copy_opt(&fields.target_date),
            },
        )
    } else if same_text(op_type, "assign_goal") {
        Ok(
            ForgeCall::AssignToGoal {
                issue_number: value_or_zero(fields.issue_number),
                goal_id: owned_or_empty(&fields.goal_id),
            },
        )
    } else if same_text(op_type, "close_goal") {
        Ok(ForgeCall::CloseGoal { goal_id: owned_or_empty(&fields.goal_id) })
    } else {
        Err(OpError::UnknownKind(op_type.to_owned()))
    }
}

/// What a queued operation stands for: a write, or the reason why none.
pub open spec fn replayed(op: PendingOpView) -> Result<ForgeCallView, OpErrorView> {
    match payload_of(op.payload) {
        Err(e) => Err(OpErrorView::Malformed(e)),
        Ok(f) => match planned(op.op_type, f) {
            Some(call) => Ok(call),
            None => Err(OpErrorView::UnknownKind(op.op_type)),
        },
    }
}

/// The view of what `plan_pending_op` returns.
pub open spec fn plan_view(r: Result<ForgeCall, OpError>) -> Result<ForgeCallView, OpErrorView> {
    match r {
        Ok(call) => Ok(call@),
        Err(e) => Err(e@),
    }
}

/// The write that a queued operation stands for, read from its kind and its
/// payload.
pub fn plan_pending_op(op: &PendingOp) -> (r: Result<ForgeCall, OpError>)
    ensures
        plan_view(r) == replayed(op@),
{
    match read_payload(op.payload.as_str()) {
        Err(e) => Err(OpError::Malformed(e)),
        Ok(fields) => plan_op(op.op_type.as_str(), &fields),
    }
}

/// What the remote made of a replayed write, as far as the queue cares: it
/// took it, or it failed with a message.
pub open spec fn outcome_view(outcome: Result<(), String>) -> Result<(), Seq<char>> {
    match outcome {
        Ok(()) => Ok(()),
        Err(m) => Err(m@),
    }
}

/// The outcomes of a list of replayed writes.
pub open spec fn outcome_views(outcomes: Seq<Result<(), String>>) -> Seq<Result<(), Seq<char>>> {
    outcomes.map_values(|o: Result<(), String>| outcome_view(o))
}

/// Whether a replayed write is done with: the remote took it, or refused it
/// with an error of the conflict class. Any other failure leaves it queued.
pub open spec fn settled(outcome: Result<(), Seq<char>>) -> bool {
    match outcome {
        Ok(()) => true,
        Err(m) => conflict_class(m),
    }
}

/// Whether one of the first `upto` operations has the id `id` and is done
/// with.
pub open spec fn settled_among(
    ops: Seq<PendingOpView>,
    outcomes: Seq<Result<(), Seq<char>>>,
    upto: int,
    id: i64,
) -> bool {
    exists|i: int|
        0 <= i < upto && i < ops.len() && i < outcomes.len() && (#[trigger] ops[i]).id == id
            && settled(outcomes[i])
}

/// The queue after a drain: every operation that is done with has left it,
/// every other operation stays where it was.
pub open spec fn drained(
    rows: Seq<PendingOpView>,
    ops: Seq<PendingOpView>,
    outcomes: Seq<Result<(), Seq<char>>>,
) -> Seq<PendingOpView> {
    rows.filter(|o: PendingOpView| !settled_among(ops, outcomes, ops.len() as int, o.id))
}

/// How many of the replayed writes are done with.
pub open spec fn settled_count(outcomes: Seq<Result<(), Seq<char>>>) -> nat {
    outcomes.filter(|o: Result<(), Seq<char>>| settled(o)).len()
}

/// Settles one replayed write: where it is done with, its operation leaves
/// the queue; else the queue stays as it is.
pub fn settle_pending_op(cache: &mut Cache, id: i64, outcome: &Result<(), String>) -> (done: bool)
    requires
        old(cache).well_formed(),
    ensures
        final(cache).well_formed(),
        done == settled(outcome_view(*outcome)),
        final(cache)@ == (if done {
            CacheView { pending: without_op(old(cache)@.pending, id), ..old(cache)@ }
        } else {
            old(cache)@
        }),
{
    let done = match outcome {
        Ok(()) => true,
        Err(m) => is_conflict_error(m.as_str()),
    };
    if done {
        complete_op(cache, id);
    }
    done
}

/// Settles the replayed writes of one drain, in order, and says how many are
/// done with. `outcomes[i]` is what the remote made of `ops[i]`.
pub fn process_pending_ops(
    cache: &mut Cache,
    ops: &[PendingOp],
    outcomes: &[Result<(), String>],
) -> (synced: usize)
    requires
        old(cache).well_formed(),
        ops@.len() == outcomes@.len(),
    ensures
        final(cache).well_formed(),
        final(cache)@ == (CacheView {
            pending: drained(old(cache)@.pending, views(ops@), outcome_views(outcomes@)),
            ..old(cache)@
        }),
        synced == settled_count(outcome_views(outcomes@)),
{
    let ghost start = cache@;
    let ghost all_ops = views(ops@);
    let ghost all_outcomes = outcome_views(outcomes@);
    let ghost is_settled = |o: Result<(), Seq<char>>| settled(o);
    let mut synced: usize = 0;
    let mut i: usize = 0;
    proof {
        reveal(Seq::filter);
        assert(all_outcomes.take(0) =~= Seq::empty());
        let stay = |o: PendingOpView| !settled_among(all_ops, all_outcomes, 0, o.id);
        lemma_filter_all(start.pending, stay);
    }
    while i < ops.len()
        invariant
            i <= ops.len(),
            ops@.len() == outcomes@.len(),
            all_ops == views(ops@),
            all_outcomes == outcome_views(outcomes@),
            is_settled == (|o: Result<(), Seq<char>>| settled(o)),
            cache.well_formed(),
            cache@ == (CacheView {
                pending: start.pending.filter(
                    |o: PendingOpView| !settled_among(all_ops, all_outcomes, i as int, o.id),
                ),
                ..start
            }),
            synced == all_outcomes.take(i as int).filter(is_settled).len(),
            synced <= i,
        decreases ops.len() - i,
    {
        let ghost before = cache@;
        let ghost stay = |o: PendingOpView| !settled_among(all_ops, all_outcomes, i as int, o.id);
        let ghost stay_next = |o: PendingOpView|
            !settled_among(all_ops, all_outcomes, i + 1, o.id);
        let done = settle_pending_op(cache, ops[i].id, &outcomes[i]);
        proof {
            let id = all_ops[i as int].id;
            assert(all_outcomes[i as int] == outcome_view(outcomes@[i as int]));
            all_outcomes.take(i as int).lemma_filter_push(all_outcomes[i as int], is_settled);
            assert(all_outcomes.take(i + 1) =~= all_outcomes.take(i as int).push(
                all_outcomes[i as int],
            ));
            if done {
                let other = |o: PendingOpView| o.id != id;
                assert forall|o: PendingOpView| #[trigger] stay_next(o) == (stay(o) && other(o)) by {
                    if settled_among(all_ops, all_outcomes, i + 1, o.id) {
                        let k = choose|k: int|
                            0 <= k < i + 1 && k < all_ops.len() && k < all_outcomes.len() && (
                            #[trigger] all_ops[k]).id == o.id && settled(all_outcomes[k]);
                        if k < i {
                            assert(settled_among(all_ops, all_outcomes, i as int, o.id));
                        }
                    }
                    if settled_among(all_ops, all_outcomes, i as int, o.id) {
                        let k = choose|k: int|
                            0 <= k < i && k < all_ops.len() && k < all_outcomes.len() && (
                            #[trigger] all_ops[k]).id == o.id && settled(all_outcomes[k]);
                        assert(all_ops[k].id == o.id);
                    }
                    if o.id == id {
                        assert(all_ops[i as int].id == o.id);
                    }
                }
                lemma_filter_then(start.pending, stay, other, stay_next);
            } else {
                assert forall|o: PendingOpView| #[trigger] stay_next(o) == (stay(o) && stay(o)) by {
                    if settled_among(all_ops, all_outcomes, i + 1, o.id) {
                        let k = choose|k: int|
                            0 <= k < i + 1 && k < all_ops.len() && k < all_outcomes.len() && (
                            #[trigger] all_ops[k]).id == o.id && settled(all_outcomes[k]);
                        assert(k < i);
                        assert(settled_among(all_ops, all_outcomes, i as int, o.id));
                    }
                    if settled_among(all_ops, all_outcomes, i as int, o.id) {
                        let k = choose|k: int|
                            0 <= k < i && k < all_ops.len() && k < all_outcomes.len() && (
                            #[trigger] all_ops[k]).id == o.id && settled(all_outcomes[k]);
                        assert(all_ops[k].id == o.id);
                    }
                }
                lemma_filter_then(start.pending, stay, stay, stay_next);
                crate::rows::lemma_filter_twice(start.pending, stay);
            }
        }
        if done {
            synced += 1;
        }
        i += 1;
    }
    proof {
        assert(all_outcomes.take(i as int) =~= all_outcomes);
    }
    synced
}

/// An optional string as a JSON value: the string in quotes, or `null`.
pub open spec fn quoted_or_null(x: Option<Seq<char>>) -> Option<Seq<char>> {
    match x {
        Some(s) => json_quoted(s),
        None => Some("null"@),
    }
}

/// The payload under which a write is queued: a JSON object without spaces,
/// its members in the order of their names. `None` where one of the strings
/// could not be written as JSON.
pub open spec fn payload_json(call: ForgeCallView) -> Option<Seq<char>> {
    match call {
        ForgeCallView::CreateIssue { title, body, labels, goal_id } => {
            if quoted_or_null(body) is Some && quoted_or_null(goal_id) is Some && labels_json(
                labels,
            ) is Some && json_quoted(title) is Some {
                Some(
                    "{\"body\":"@ + quoted_or_null(body)->0 + ",\"goal_id\":"@ + quoted_or_null(
                        goal_id,
                    )->0 + ",\"labels\":"@ + labels_json(labels)->0 + ",\"title\":"@ + json_quoted(
                        title,
                    )->0 + "}"@,
                )
            } else {
                None
            }
        },
        ForgeCallView::CreateComment { issue_number, body } => {
            if json_quoted(body) is Some {
                Some(
                    "{\"body\":"@ + json_quoted(body)->0 + ",\"issue_number\":"@ + decimal_digits(
                        issue_number as nat,
                    ) + "}"@,
                )
            } else {
                None
            }
        },
        ForgeCallView::CloseIssue { issue_number } => Some(
            "{\"issue_number\":"@ + decimal_digits(issue_number as nat) + "}"@,
        ),
        ForgeCallView::ReopenIssue { issue_number } => Some(
            "{\"issue_number\":"@ + decimal_digits(issue_number as nat) + "}"@,
        ),
        ForgeCallView::AddLabel { issue_number, label } => {
            if json_quoted(label) is Some {
                Some(
                    "{\"issue_number\":"@ + decimal_digits(issue_number as nat) + ",\"label\":"@
                        + json_quoted(label)->0 + "}"@,
                )
            } else {
                None
            }
        },
        ForgeCallView::RemoveLabel { issue_number, label } => {
            if json_quoted(label) is Some {
                Some(
                    "{\"issue_number\":"@ + decimal_digits(issue_number as nat) + ",\"label\":"@
                        + json_quoted(label)->0 + "}"@,
                )
            } else {
                None
            }
        },
        ForgeCallView::AssignIssue { issue_number, assignee } => {
            if json_quoted(assignee) is Some {
                Some(
                    "{\"assignee\":"@ + json_quoted(assignee)->0 + ",\"issue_number\":"@
                        + decimal_digits(issue_number as nat) + "}"@,
                )
            } else {
                None
            }
        },
        ForgeCallView::CreateGoal { name, description, target_date } => {
            if quoted_or_null(description) is Some && json_quoted(name) is Some && quoted_or_null(
                target_date,
            ) is Some {
                Some(
                    "{\"description\":"@ + quoted_or_null(description)->0 + ",\"name\":"@
                        + json_quoted(name)->0 + ",\"target_date\":"@ + quoted_or_null(
                        target_date,
                    )->0 + "}"@,
                )
            } else {
                None
            }
        },
        ForgeCallView::AssignToGoal { issue_number, goal_id } => {
            if json_quoted(goal_id) is Some {
                Some(
                    "{\"goal_id\":"@ + json_quoted(goal_id)->0 + ",\"issue_number\":"@
                        + decimal_digits(issue_number as nat) + "}"@,
                )
            } else {
                None
            }
        },
        ForgeCallView::CloseGoal { goal_id } => {
            if json_quoted(goal_id) is Some {
                Some("{\"goal_id\":"@ + json_quoted(goal_id)->0 + "}"@)
            } else {
                None
            }
        },
    }
}

/// An optional string as a JSON value.
fn quote_or_null(x: &Option<String>) -> (json: Option<String>)
    ensures
        opt_text(json) == quoted_or_null(opt_text(*x)),
{
    match x {
        Some(s) => quote_json(s.as_str()),
        None => Some(String::from_str("null")),
    }
}

/// The payload under which `call` is queued.
pub fn payload_text(call: &ForgeCall) -> (json: Option<String>)
    ensures
        opt_text(json) == payload_json(call@),
{
    match call {
        ForgeCall::CreateIssue { title, body, labels, goal_id } => {
            let b = quote_or_null(body);
            let g = quote_or_null(goal_id);
            let l = serialize_labels(labels);
            let t = quote_json(title.as_str());
            match (b, g, l, t) {
                (Some(b), Some(g), Some(l), Some(t)) => {
                    let mut out = String::from_str("{\"body\":");
                    out.append(b.as_str());
                    out.append(",\"goal_id\":");
                    out.append(g.as_str());
                    out.append(",\"labels\":");
                    out.append(l.as_str());
                    out.append(",\"title\":");
                    out.append(t.as_str());
                    out.append("}");
                    Some(out)
                },
                _ => None,
            }
        },
        ForgeCall::CreateComment { issue_number, body } => {
            match quote_json(body.as_str()) {
                Some(b) => {
                    let mut out = String::from_str("{\"body\":");
                    out.append(b.as_str());
                    out.append(",\"issue_number\":");
                    push_decimal(&mut out, *issue_number);
                    out.append("}");
                    Some(out)
                },
                None => None,
            }
        },
        ForgeCall::CloseIssue { issue_number } => {
            let mut out = String::from_str("{\"issue_number\":");
            push_decimal(&mut out, *issue_number);
            out.append("}");
            Some(out)
        },
        ForgeCall::ReopenIssue { issue_number } => {
            let mut out = String::from_str("{\"issue_number\":");
            push_decimal(&mut out, *issue_number);
            out.append("}");
            Some(out)
        },
        ForgeCall::AddLabel { issue_number, label } => {
            match quote_json(label.as_str()) {
                Some(l) => {
                    let mut out = String::from_str("{\"issue_number\":");
                    push_decimal(&mut out, *issue_number);
                    out.append(",\"label\":");
                    out.append(l.as_str());
                    out.append("}");
                    Some(out)
                },
                None => None,
            }
        },
        ForgeCall::RemoveLabel { issue_number, label } => {
            match quote_json(label.as_str()) {
                Some(l) => {
                    let mut out = String::from_str("{\"issue_number\":");
                    push_decimal(&mut out, *issue_number);
                    out.append(",\"label\":");
                    out.append(l.as_str());
                    out.append("}");
                    Some(out)
                },
                None => None,
            }
        },
        ForgeCall::AssignIssue { issue_number, assignee } => {
            match quote_json(assignee.as_str()) {
                Some(a) => {
                    let mut out = String::from_str("{\"assignee\":");
                    out.append(a.as_str());
                    out.append(",\"issue_number\":");
                    push_decimal(&mut out, *issue_number);
                    out.append("}");
                    Some(out)
                },
                None => None,
            }
        },
        ForgeCall::CreateGoal { name, description, target_date } => {
            let d = quote_or_null(description);
            let n = quote_json(name.as_str());
            let t = quote_or_null(target_date);
            match (d, n, t) {
                (Some(d), Some(n), Some(t)) => {
                    let mut out = String::from_str("{\"description\":");
                    out.append(d.as_str());
                    out.append(",\"name\":");
                    out.append(n.as_str());
                    out.append(",\"target_date\":");
                    out.append(t.as_str());
                    out.append("}");
                    Some(out)
                },
                _ => None,
            }
        },
        ForgeCall::AssignToGoal { issue_number, goal_id } => {
            match quote_json(goal_id.as_str()) {
                Some(g) => {
                    let mut out = String::from_str("{\"goal_id\":");
                    out.append(g.as_str());
                    out.append(",\"issue_number\":");
                    push_decimal(&mut out, *issue_number);
                    out.append("}");
                    Some(out)
                },
                None => None,
            }
        },
        ForgeCall::CloseGoal { goal_id } => {
            match quote_json(goal_id.as_str()) {
                Some(g) => {
                    let mut out = String::from_str("{\"goal_id\":");
                    out.append(g.as_str());
                    out.append("}");
                    Some(out)
                },
                None => None,
            }
        },
    }
}

/// What came of one write, as it is reported.
#[derive(Debug)]
pub struct WriteResult {
    pub success: bool,
    pub queued: bool,
    pub issue_number: Option<u64>,
    pub message: String,
    pub elapsed_ms: u64,
}

/// What a write result holds.
pub struct WriteResultView {
    pub success: bool,
    pub queued: bool,
    pub issue_number: Option<u64>,
    pub message: Seq<char>,
    pub elapsed_ms: u64,
}

impl View for WriteResult {
    type V = WriteResultView;

    open spec fn view(&self) -> WriteResultView {
        WriteResultView {
            success: self.success,
            queued: self.queued,
            issue_number: self.issue_number,
            message: self.message@,
            elapsed_ms: self.elapsed_ms,
        }
    }
}

/// What the remote handed back for a write that it took: the number and the
/// title of a new issue, or the name of a new goal as the title.
#[derive(Debug)]
pub struct Receipt {
    pub issue_number: Option<u64>,
    pub title: Option<String>,
}

/// What a receipt holds.
pub struct ReceiptView {
    pub issue_number: Option<u64>,
    pub title: Option<Seq<char>>,
}

impl View for Receipt {
    type V = ReceiptView;

    open spec fn view(&self) -> ReceiptView {
        ReceiptView { issue_number: self.issue_number, title: opt_text(self.title) }
    }
}

/// Why a write was neither done nor queued.
#[derive(Debug)]
pub enum WriteError {
    /// The remote refused the write; its message is passed on as it came.
    Remote(String),
    /// The write could not be written down as a payload.
    Unserializable,
    /// The queue did not take the write.
    Cache(CacheError),
}

/// What a write error holds.
pub enum WriteErrorView {
    Remote(Seq<char>),
    Unserializable,
    Cache(CacheError),
}

impl View for WriteError {
    type V = WriteErrorView;

    open spec fn view(&self) -> WriteErrorView {
        match self {
            WriteError::Remote(m) => WriteErrorView::Remote(m@),
            WriteError::Unserializable => WriteErrorView::Unserializable,
            WriteError::Cache(e) => WriteErrorView::Cache(*e),
        }
    }
}

/// The sentence for a write error.
pub open spec fn write_error_text(e: WriteErrorView) -> Seq<char> {
    match e {
        WriteErrorView::Remote(m) => m,
        WriteErrorView::Unserializable => "the write could not be serialized"@,
        WriteErrorView::Cache(c) => crate::cache::cache_error_text(c),
    }
}

impl WriteError {
    /// The error as a sentence.
    pub fn message(&self) -> (text: String)
        ensures
            text@ == write_error_text(self@),
    {
        match self {
            WriteError::Remote(m) => m.clone(),
            WriteError::Unserializable => String::from_str("the write could not be serialized"),
            WriteError::Cache(c) => String::from_str(c.message()),
        }
    }
}

/// A string, or another where the first is missing.
pub open spec fn text_or(x: Option<Seq<char>>, other: Seq<char>) -> Seq<char> {
    match x {
        Some(s) => s,
        None => other,
    }
}

/// The sentence that reports a write that the remote took. `goal_name` is
/// the name of the goal that a goal write is about.
pub open spec fn done_message(call: ForgeCallView, receipt: ReceiptView, goal_name: Seq<char>) -> Seq<
    char,
> {
    match call {
        ForgeCallView::CreateIssue { title, .. } => "Created #"@ + decimal_digits(
            number_or_zero(receipt.issue_number) as nat,
        ) + " "@ + text_or(receipt.title, title),
        ForgeCallView::CreateComment { issue_number, .. } => "Comment added to #"@
            + decimal_digits(issue_number as nat),
        ForgeCallView::CloseIssue { issue_number } => "Closed #"@ + decimal_digits(
            issue_number as nat,
        ),
        ForgeCallView::ReopenIssue { issue_number } => "Reopened #"@ + decimal_digits(
            issue_number as nat,
        ),
        ForgeCallView::AddLabel { issue_number, label } => "Added label '"@ + label + "' to #"@
            + decimal_digits(issue_number as nat),
        ForgeCallView::RemoveLabel { issue_number, label } => "Removed label '"@ + label
            + "' from #"@ + decimal_digits(issue_number as nat),
        ForgeCallView::AssignIssue { issue_number, assignee } => "Assigned @"@ + assignee
            + " to #"@ + decimal_digits(issue_number as nat),
        ForgeCallView::CreateGoal { name, .. } => "Created goal: "@ + text_or(receipt.title, name),
        ForgeCallView::AssignToGoal { issue_number, .. } => "Assigned #"@ + decimal_digits(
            issue_number as nat,
        ) + " to goal '"@ + goal_name + "'"@,
        ForgeCallView::CloseGoal { .. } => "Closed goal '"@ + goal_name + "'"@,
    }
}

/// The sentence that reports a write that was queued.
pub open spec fn queued_message(call: ForgeCallView, goal_name: Seq<char>) -> Seq<char> {
    match call {
        ForgeCallView::CreateIssue { title, .. } => "Queued: "@ + title,
        ForgeCallView::CreateComment { issue_number, .. } => "Queued: comment on #"@
            + decimal_digits(issue_number as nat),
        ForgeCallView::CloseIssue { issue_number } => "Queued: close #"@ + decimal_digits(
            issue_number as nat,
        ),
        ForgeCallView::ReopenIssue { issue_number } => "Queued: reopen #"@ + decimal_digits(
            issue_number as nat,
        ),
        ForgeCallView::AddLabel { issue_number, label } => "Queued: add label '"@ + label
            + "' to #"@ + decimal_digits(issue_number as nat),
        ForgeCallView::RemoveLabel { issue_number, label } => "Queued: remove label '"@ + label
            + "' from #"@ + decimal_digits(issue_number as nat),
        ForgeCallView::AssignIssue { issue_number, assignee } => "Queued: assign @"@ + assignee
            + " to #"@ + decimal_digits(issue_number as nat),
        ForgeCallView::CreateGoal { name, .. } => "Queued: create goal "@ + name,
        ForgeCallView::AssignToGoal { issue_number, .. } => "Queued: assign #"@ + decimal_digits(
            issue_number as nat,
        ) + " to '"@ + goal_name + "'"@,
        ForgeCallView::CloseGoal { .. } => "Queued: close goal '"@ + goal_name + "'"@,
    }
}

/// The issue number that the report of a done write carries.
pub open spec fn done_number(call: ForgeCallView, receipt: ReceiptView) -> Option<u64> {
    match call {
        ForgeCallView::CreateIssue { .. } => receipt.issue_number,
        _ => issue_of(call),
    }
}

/// The sentence that reports that the remote took `call`.
pub fn describe_done(call: &ForgeCall, receipt: &Receipt, goal_name: &str) -> (text: String)
    ensures
        text@ == done_message(call@, receipt@, goal_name@),
{
    match call {
        ForgeCall::CreateIssue { title, .. } => {
            let mut text = String::from_str("Created #");
            push_decimal(&mut text, value_or_zero(receipt.issue_number));
            text.append(" ");
            match &receipt.title {
                Some(t) => text.append(t.as_str()),
                None => text.append(title.as_str()),
            }
            text
        },
        ForgeCall::CreateComment { issue_number, .. } => {
            let mut text = String::from_str("Comment added to #");
            push_decimal(&mut text, *issue_number);
            text
        },
        ForgeCall::CloseIssue { issue_number } => {
            let mut text = String::from_str("Closed #");
            push_decimal(&mut text, *issue_number);
            text
        },
        ForgeCall::ReopenIssue { issue_number } => {
            let mut text = String::from_str("Reopened #");
            push_decimal(&mut text, *issue_number);
            text
        },
        ForgeCall::AddLabel { issue_number, label } => {
            let mut text = String::from_str("Added label '");
            text.append(label.as_str());
            text.append("' to #");
            push_decimal(&mut text, *issue_number);
            text
        },
        ForgeCall::RemoveLabel { issue_number, label } => {
            let mut text = String::from_str("Removed label '");
            text.append(label.as_str());
            text.append("' from #");
            push_decimal(&mut text, *issue_number);
            text
        },
        ForgeCall::AssignIssue { issue_number, assignee } => {
            let mut text = String::from_str("Assigned @");
            text.append(assignee.as_str());
            text.append(" to #");
            push_decimal(&mut text, *issue_number);
            text
        },
        ForgeCall::CreateGoal { name, .. } => {
            let mut text = String::from_str("Created goal: ");
            match &receipt.title {
                Some(t) => text.append(t.as_str()),
                None => text.append(name.as_str()),
            }
            text
        },
        ForgeCall::AssignToGoal { issue_number, .. } => {
            let mut text = String::from_str("Assigned #");
            push_decimal(&mut text, *issue_number);
            text.append(" to goal '");
            text.append(goal_name);
            text.append("'");
            text
        },
        ForgeCall::CloseGoal { .. } => {
            let mut text = String::from_str("Closed goal '");
            text.append(goal_name);
            text.append("'");
            text
        },
    }
}

/// The sentence that reports that `call` was queued.
pub fn describe_queued(call: &ForgeCall, goal_name: &str) -> (text: String)
    ensures
        text@ == queued_message(call@, goal_name@),
{
    match call {
        ForgeCall::CreateIssue { title, .. } => {
            let mut text = String::from_str("Queued: ");
            text.append(title.as_str());
            text
        },
        ForgeCall::CreateComment { issue_number, .. } => {
            let mut text = String::from_str("Queued: comment on #");
            push_decimal(&mut text, *issue_number);
            text
        },
        ForgeCall::CloseIssue { issue_number } => {
            let mut text = String::from_str("Queued: close #");
            push_decimal(&mut text, *issue_number);
            text
        },
        ForgeCall::ReopenIssue { issue_number } => {
            let mut text = String::from_str("Queued: reopen #");
            push_decimal(&mut text, *issue_number);
            text
        },
        ForgeCall::AddLabel { issue_number, label } => {
            let mut text = String::from_str("Queued: add label '");
            text.append(label.as_str());
            text.append("' to #");
            push_decimal(&mut text, *issue_number);
            text
        },
        ForgeCall::RemoveLabel { issue_number, label } => {
            let mut text = String::from_str("Queued: remove label '");
            text.append(label.as_str());
            text.append("' from #");
            push_decimal(&mut text, *issue_number);
            text
        },
        ForgeCall::AssignIssue { issue_number, assignee } => {
            let mut text = String::from_str("Queued: assign @");
            text.append(assignee.as_str());
            text.append(" to #");
            push_decimal(&mut text, *issue_number);
            text
        },
        ForgeCall::CreateGoal { name, .. } => {
            let mut text = String::from_str("Queued: create goal ");
            text.append(name.as_str());
            text
        },
        ForgeCall::AssignToGoal { issue_number, .. } => {
            let mut text = String::from_str("Queued: assign #");
            push_decimal(&mut text, *issue_number);
            text.append(" to '");
            text.append(goal_name);
            text.append("'");
            text
        },
        ForgeCall::CloseGoal { .. } => {
            let mut text = String::from_str("Queued: close goal '");
            text.append(goal_name);
            text.append("'");
            text
        },
    }
}

/// What the remote made of a write: a receipt, or an error message.
pub open spec fn answer_view(answer: Result<Receipt, String>) -> Result<ReceiptView, Seq<char>> {
    match answer {
        Ok(r) => Ok(r@),
        Err(m) => Err(m@),
    }
}

/// Whether a failed write goes to the queue: its error is of the network
/// class, it can be written down, and the queue has an id left.
pub open spec fn goes_to_queue(c: CacheView, call: ForgeCallView, message: Seq<char>) -> bool {
    network_class(unicode_lower(message)) && payload_json(call) is Some && c.next_op_id < i64::MAX
}

/// What is reported of a write: done where the remote took it; queued where
/// it failed with an error of the network class; else the error, as it came.
pub open spec fn write_report(
    c: CacheView,
    call: ForgeCallView,
    goal_name: Seq<char>,
    answer: Result<ReceiptView, Seq<char>>,
    elapsed_ms: u64,
) -> Result<WriteResultView, WriteErrorView> {
    match answer {
        Ok(receipt) => Ok(
            WriteResultView {
                success: true,
                queued: false,
                issue_number: done_number(call, receipt),
                message: done_message(call, receipt, goal_name),
                elapsed_ms,
            },
        ),
        Err(message) => {
            if !network_class(unicode_lower(message)) {
                Err(WriteErrorView::Remote(message))
            } else if payload_json(call) is None {
                Err(WriteErrorView::Unserializable)
            } else if c.next_op_id == i64::MAX {
                Err(WriteErrorView::Cache(CacheError::QueueFull))
            } else {
                Ok(
                    WriteResultView {
                        success: true,
                        queued: true,
                        issue_number: issue_of(call),
                        message: queued_message(call, goal_name),
                        elapsed_ms,
                    },
                )
            }
        },
    }
}

/// The store after a write was settled: a write that goes to the queue is
/// the last operation of it; any other write leaves the store as it was.
pub open spec fn after_write(
    c: CacheView,
    remote: Seq<char>,
    call: ForgeCallView,
    answer: Result<ReceiptView, Seq<char>>,
    now: Seq<char>,
) -> CacheView {
    match answer {
        Err(message) if goes_to_queue(c, call, message) => CacheView {
            pending: c.pending.push(
                PendingOpView {
                    id: c.next_op_id,
                    repo: remote,
                    op_type: kind_name(call),
                    payload: payload_json(call)->0,
                    created_at: now,
                },
            ),
            next_op_id: (c.next_op_id + 1) as i64,
            ..c
        },
        _ => c,
    }
}

/// The view of what `settle_write` returns.
pub open spec fn report_view(r: Result<WriteResult, WriteError>) -> Result<
    WriteResultView,
    WriteErrorView,
> {
    match r {
        Ok(w) => Ok(w@),
        Err(e) => Err(e@),
    }
}

/// Settles one write of the user: reports it as done where the remote took
/// it, queues it for `remote` where the failure is of the network class, and
/// passes every other failure on.
pub fn settle_write(
    cache: &mut Cache,
    remote: &str,
    call: &ForgeCall,
    goal_name: &str,
    answer: &Result<Receipt, String>,
    elapsed_ms: u64,
    now: &str,
) -> (r: Result<WriteResult, WriteError>)
    requires
        old(cache).well_formed(),
    ensures
        final(cache).well_formed(),
        report_view(r) == write_report(
            old(cache)@,
            call@,
            goal_name@,
            answer_view(*answer),
            elapsed_ms,
        ),
        final(cache)@ == after_write(old(cache)@, remote@, call@, answer_view(*answer), now@),
{
    match answer {
        Ok(receipt) => {
            let issue_number = match call {
                ForgeCall::CreateIssue { .. } => receipt.issue_number,
                _ => call.issue_number(),
            };
            Ok(
                WriteResult {
                    success: true,
                    queued: false,
                    issue_number,
                    message: describe_done(call, receipt, goal_name),
                    elapsed_ms,
                },
            )
        },
        Err(message) => {
            if !is_offline_error(message.as_str()) {
                return Err(WriteError::Remote(message.clone()));
            }
            let payload = match payload_text(call) {
                Some(p) => p,
                None => {
                    return Err(WriteError::Unserializable);
                },
            };
            match queue_op(cache, remote, call.op_kind(), payload.as_str(), now) {
                Ok(_) => Ok(
                    WriteResult {
                        success: true,
                        queued: true,
                        issue_number: call.issue_number(),
                        message: describe_queued(call, goal_name),
                        elapsed_ms,
                    },
                ),
                Err(e) => Err(WriteError::Cache(e)),
            }
        },
    }
}

} // verus!
