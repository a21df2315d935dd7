//! The decision that brings a record in line with a wanted address, and
//! the account given of it afterwards.

use crate::api::{existing_view, is_match, DnsRecord, DnsRecordView};
use crate::ip_utils::RecordType;
use crate::text::{appended, join_strings, join_with, same_text, texts};
use vstd::prelude::*;

verus! {

/// What has to be done for one address.
#[derive(Debug)]
pub enum Action {
    /// No record exists: create one.
    Create { kind: RecordType, address: String },
    /// The record already holds the address.
    NoOp { record: DnsRecord },
    /// The record holds another address: replace it.
    Update { id: String, address: String, kind: RecordType },
}

pub enum ActionView {
    Create { kind: RecordType, address: Seq<char> },
    NoOp { record: DnsRecordView },
    Update { id: Seq<char>, address: Seq<char>, kind: RecordType },
}

impl View for Action {
    type V = ActionView;

    open spec fn view(&self) -> ActionView {
        match self {
            Action::Create { kind, address } => ActionView::Create {
                kind: *kind,
                address: address@,
            },
            Action::NoOp { record } => ActionView::NoOp { record: record@ },
            Action::Update { id, address, kind } => ActionView::Update {
                id: id@,
                address: address@,
                kind: *kind,
            },
        }
    }
}

/// The decision table: nothing there, create; there with the wanted
/// address, leave; there with another address, update.
pub open spec fn decide(existing: Option<DnsRecordView>, desired: Seq<char>, kind: RecordType)
    -> ActionView {
    match existing {
        None => ActionView::Create { kind, address: desired },
        Some(record) => if record.content == desired {
            ActionView::NoOp { record }
        } else {
            ActionView::Update { id: record.id, address: desired, kind }
        },
    }
}

/// Decides what to do for one wanted address, given the record that exists.
pub fn reconcile(existing: Option<&DnsRecord>, desired: &str, kind: RecordType) -> (action: Action)
    ensures
        action@ == decide(existing_view(existing), desired@, kind),
{
    match existing {
        None => Action::Create { kind, address: desired.to_owned() },
        Some(record) => {
            if same_text(record.content.as_str(), desired) {
                Action::NoOp { record: record.clone() }
            } else {
                Action::Update { id: record.id.clone(), address: desired.to_owned(), kind }
            }
        },
    }
}

/// The decision table, row by row.
pub proof fn lemma_decision_table(
    existing: Option<DnsRecordView>,
    desired: Seq<char>,
    kind: RecordType,
)
    ensures
        existing is None ==> decide(existing, desired, kind) == (ActionView::Create {
            kind,
            address: desired,
        }),
        existing matches Some(record) ==> (record.content == desired ==> decide(
            existing,
            desired,
            kind,
        ) == (ActionView::NoOp { record })),
        existing matches Some(record) ==> (record.content != desired ==> decide(
            existing,
            desired,
            kind,
        ) == (ActionView::Update { id: record.id, address: desired, kind })),
{
}

/// The record that the provider holds once an action has taken effect:
/// `name` is the name it is stored under and `new_id` the identifier that
/// the provider gives to a record it creates.
pub open spec fn record_after(action: ActionView, name: Seq<char>, new_id: Seq<char>)
    -> DnsRecordView {
    match action {
        ActionView::Create { kind, address } => DnsRecordView {
            id: new_id,
            name,
            record_type: kind.name(),
            content: address,
        },
        ActionView::NoOp { record } => record,
        ActionView::Update { id, address, kind } => DnsRecordView {
            id,
            name,
            record_type: kind.name(),
            content: address,
        },
    }
}

/// Reconciling twice is reconciling once: when the first decision has
/// taken effect, the second finds nothing to do.
pub proof fn lemma_reconcile_idempotent(
    existing: Option<DnsRecordView>,
    desired: Seq<char>,
    kind: RecordType,
    name: Seq<char>,
    new_id: Seq<char>,
)
    ensures
        ({
            let settled = record_after(decide(existing, desired, kind), name, new_id);
            decide(Some(settled), desired, kind) == (ActionView::NoOp { record: settled })
        }),
{
}

/// The record that an action leaves behind is again the record of its name
/// and type: the next lookup for them can find it.
pub proof fn lemma_settled_record_matches(
    existing: Option<DnsRecordView>,
    desired: Seq<char>,
    kind: RecordType,
    name: Seq<char>,
    new_id: Seq<char>,
)
    requires
        existing matches Some(record) ==> is_match(record, name, kind),
    ensures
        is_match(record_after(decide(existing, desired, kind), name, new_id), name, kind),
        record_after(decide(existing, desired, kind), name, new_id).content == desired,
{
}

/// How the reconciliation of one address ended.
#[derive(Debug)]
pub enum Outcome {
    UpToDate { name: String, kind: RecordType },
    Updated { name: String, kind: RecordType },
    Created { name: String, kind: RecordType },
}

pub enum OutcomeView {
    UpToDate { name: Seq<char>, kind: RecordType },
    Updated { name: Seq<char>, kind: RecordType },
    Created { name: Seq<char>, kind: RecordType },
}

impl View for Outcome {
    type V = OutcomeView;

    open spec fn view(&self) -> OutcomeView {
        match self {
            Outcome::UpToDate { name, kind } => OutcomeView::UpToDate { name: name@, kind: *kind },
            Outcome::Updated { name, kind } => OutcomeView::Updated { name: name@, kind: *kind },
            Outcome::Created { name, kind } => OutcomeView::Created { name: name@, kind: *kind },
        }
    }
}

/// The text that `{:?}` formatting gives for a string: the string in
/// double quotes, with the characters that could not stand there escaped.
pub uninterp spec fn debug_quoted(text: Seq<char>) -> Seq<char>;

/// Formats `text` with `{:?}`, as `<str as core::fmt::Debug>::fmt` writes
/// it. The result is a function of the text alone; nothing more is claimed
/// of it.
#[verifier::external_body]
fn debug_quote(text: &str) -> (quoted: String)
    ensures
        quoted@ == debug_quoted(text@),
{
    format!("{:?}", text)
}

impl OutcomeView {
    /// The name that the outcome is reported under.
    pub open spec fn display_name(self) -> Seq<char> {
        match self {
            OutcomeView::UpToDate { name, .. } => name,
            OutcomeView::Updated { name, .. } => name,
            OutcomeView::Created { name, .. } => name,
        }
    }

    /// The record type that was acted on.
    pub open spec fn kind(self) -> RecordType {
        match self {
            OutcomeView::UpToDate { kind, .. } => kind,
            OutcomeView::Updated { kind, .. } => kind,
            OutcomeView::Created { kind, .. } => kind,
        }
    }

    /// The message for this outcome around an already quoted name.
    pub open spec fn message_around(self, quoted: Seq<char>) -> Seq<char> {
        match self {
            OutcomeView::UpToDate { .. } => "DNS record "@ + quoted + " is already up to date"@,
            OutcomeView::Updated { .. } => "DNS record '"@ + quoted + "' updated successfully"@,
            OutcomeView::Created { .. } => "DNS record for subdomain '"@ + quoted
                + "' successfully created"@,
        }
    }

    /// The message for this outcome.
    pub open spec fn message(self) -> Seq<char> {
        self.message_around(debug_quoted(self.display_name()))
    }
}

impl Clone for Outcome {
    fn clone(&self) -> (copy: Self)
        ensures
            copy@ == self@,
    {
        match self {
            Outcome::UpToDate { name, kind } => Outcome::UpToDate {
                name: name.clone(),
                kind: *kind,
            },
            Outcome::Updated { name, kind } => Outcome::Updated { name: name.clone(), kind: *kind },
            Outcome::Created { name, kind } => Outcome::Created { name: name.clone(), kind: *kind },
        }
    }
}

impl Outcome {
    /// The name that the outcome is reported under.
    pub fn display_name(&self) -> (name: &str)
        ensures
            name@ == self@.display_name(),
    {
        match self {
            Outcome::UpToDate { name, .. } => name.as_str(),
            Outcome::Updated { name, .. } => name.as_str(),
            Outcome::Created { name, .. } => name.as_str(),
        }
    }

    /// The record type that was acted on.
    pub fn kind(&self) -> (kind: RecordType)
        ensures
            kind == self@.kind(),
    {
        match self {
            Outcome::UpToDate { kind, .. } => *kind,
            Outcome::Updated { kind, .. } => *kind,
            Outcome::Created { kind, .. } => *kind,
        }
    }

    /// The message for this outcome around a name that is already quoted.
    pub fn message_around(&self, quoted: &str) -> (message: String)
        ensures
            message@ == self@.message_around(quoted@),
    {
        match self {
            Outcome::UpToDate { .. } => {
                let mut message = appended("DNS record ", quoted);
                message.append(" is already up to date");
                message
            },
            Outcome::Updated { .. } => {
                let mut message = appended("DNS record '", quoted);
                message.append("' updated successfully");
                message
            },
            Outcome::Created { .. } => {
                let mut message = appended("DNS record for subdomain '", quoted);
                message.append("' successfully created");
                message
            },
        }
    }

    /// The message for this outcome.
    pub fn message(&self) -> (message: String)
        ensures
            message@ == self@.message(),
    {
        let quoted = debug_quote(self.display_name());
        self.message_around(quoted.as_str())
    }
}

/// The outcome that follows from what was found: up to date or updated
/// under the record's own name, created under the host's.
pub open spec fn outcome_for(
    existing: Option<DnsRecordView>,
    desired: Seq<char>,
    kind: RecordType,
    host: Seq<char>,
) -> OutcomeView {
    match existing {
        None => OutcomeView::Created { name: host, kind },
        Some(record) => if record.content == desired {
            OutcomeView::UpToDate { name: record.name, kind }
        } else {
            OutcomeView::Updated { name: record.name, kind }
        },
    }
}

/// The outcome that the action leads to once it has been carried out.
pub fn expected_outcome(existing: Option<&DnsRecord>, desired: &str, kind: RecordType, host: &str)
    -> (outcome: Outcome)
    ensures
        outcome@ == outcome_for(existing_view(existing), desired@, kind, host@),
{
    match existing {
        None => Outcome::Created { name: host.to_owned(), kind },
        Some(record) => {
            if same_text(record.content.as_str(), desired) {
                Outcome::UpToDate { name: record.name.clone(), kind }
            } else {
                Outcome::Updated { name: record.name.clone(), kind }
            }
        },
    }
}

/// The messages of the outcomes, in order.
pub open spec fn messages(outcomes: Seq<OutcomeView>) -> Seq<Seq<char>> {
    Seq::new(outcomes.len(), |i: int| outcomes[i].message())
}

/// The views of a list of outcomes.
pub open spec fn outcome_views(outcomes: Seq<Outcome>) -> Seq<OutcomeView> {
    Seq::new(outcomes.len(), |i: int| outcomes[i]@)
}

/// One summary of all outcomes: their messages in order, separated by
/// `; `.
pub open spec fn summary(outcomes: Seq<OutcomeView>) -> Seq<char> {
    join_with(messages(outcomes), "; "@)
}

/// Joins messages into one summary.
pub fn aggregate_messages(rendered: &Vec<String>) -> (text: String)
    ensures
        text@ == join_with(texts(rendered@), "; "@),
{
    join_strings(rendered, "; ")
}

/// Joins the messages of the outcomes into one summary.
pub fn aggregate(outcomes: &Vec<Outcome>) -> (text: String)
    ensures
        text@ == summary(outcome_views(outcomes@)),
{
    let mut rendered: Vec<String> = Vec::new();
    let mut i: usize = 0;
    while i < outcomes.len()
        invariant
            i <= outcomes.len(),
            rendered.len() == i,
            forall|j: int| 0 <= j < i ==> (#[trigger] rendered[j])@ == outcomes[j]@.message(),
        decreases outcomes.len() - i,
    {
        rendered.push(outcomes[i].message());
        i += 1;
    }
    proof {
        assert(texts(rendered@) =~~= messages(outcome_views(outcomes@)));
    }
    aggregate_messages(&rendered)
}

} // verus!
