//! One update request from start to answer.
//!
//! The request is validated as a whole before the provider is asked
//! anything. Then each wanted address, IPv4 before IPv6, is looked up and
//! reconciled in turn. The provider is reached by the caller: `start` and
//! `step` say which call to make next, and take what came of it.

use crate::api::{
    is_success, is_success_status, record_name, record_views, resolve, resolved_record, DnsRecord,
    DnsRecordView, ProviderCall, ProviderCallView,
};
use crate::credentials::{Credentials, CredentialsView};
use crate::domain::{host_of, is_qualified_name, zone_of, Domain};
use crate::error::{UpdateError, UpdateErrorView};
use crate::ip_utils::{
    classification, invalid_address_message, validate_and_classify_ip, IpType, RecordType,
};
use crate::reconcile::{
    aggregate, decide, expected_outcome, outcome_for, outcome_views, reconcile, summary, Action,
    ActionView, Outcome, OutcomeView,
};
use crate::text::appended;
use vstd::prelude::*;

verus! {

/// The answer to a request: a status and a JSON body that holds one
/// message.
#[derive(Debug)]
pub struct JsonResponse {
    pub status_code: u16,
    pub body: String,
}

/// The body that carries `message`.
pub open spec fn json_body(message: Seq<char>) -> Seq<char> {
    "{\"message\": \""@ + message + "\"}"@
}

/// An answer with the given status whose body carries `message`. The
/// message is placed between the quotes as it is.
pub fn json_response(status_code: u16, message: &str) -> (response: JsonResponse)
    ensures
        response.status_code == status_code,
        response.body@ == json_body(message@),
{
    let mut body = appended("{\"message\": \"", message);
    body.append("\"}");
    JsonResponse { status_code, body }
}

/// The view of how a request ended.
pub open spec fn result_view(result: Result<String, UpdateError>) -> Result<
    Seq<char>,
    UpdateErrorView,
> {
    match result {
        Ok(text) => Ok(text@),
        Err(error) => Err(error@),
    }
}

/// The status that a result is answered with.
pub open spec fn status_of(result: Result<Seq<char>, UpdateErrorView>) -> u16 {
    match result {
        Ok(_) => 200,
        Err(error) => error.status_code(),
    }
}

/// The message that a result is answered with.
pub open spec fn message_of(result: Result<Seq<char>, UpdateErrorView>) -> Seq<char> {
    match result {
        Ok(text) => text,
        Err(error) => error.text(),
    }
}

/// The answer to a request that ended with `result`.
pub fn respond(result: &Result<String, UpdateError>) -> (response: JsonResponse)
    ensures
        response.status_code == status_of(result_view(*result)),
        response.body@ == json_body(message_of(result_view(*result))),
{
    match result {
        Ok(text) => json_response(200, text.as_str()),
        Err(error) => json_response(error.status_code(), error.text()),
    }
}

/// The parameters of an update request, each present or not.
#[derive(Debug)]
pub struct UpdateRequest {
    pub apikey: Option<String>,
    pub secretapikey: Option<String>,
    pub domain: Option<String>,
    pub ip: Option<String>,
    pub ipv6: Option<String>,
}

pub struct UpdateRequestView {
    pub apikey: Option<Seq<char>>,
    pub secretapikey: Option<Seq<char>>,
    pub domain: Option<Seq<char>>,
    pub ip: Option<Seq<char>>,
    pub ipv6: Option<Seq<char>>,
}

/// The text of a parameter that may be absent.
pub open spec fn parameter_view(parameter: Option<String>) -> Option<Seq<char>> {
    match parameter {
        Some(text) => Some(text@),
        None => None,
    }
}

impl View for UpdateRequest {
    type V = UpdateRequestView;

    open spec fn view(&self) -> UpdateRequestView {
        UpdateRequestView {
            apikey: parameter_view(self.apikey),
            secretapikey: parameter_view(self.secretapikey),
            domain: parameter_view(self.domain),
            ip: parameter_view(self.ip),
            ipv6: parameter_view(self.ipv6),
        }
    }
}

/// One address to bring a record in line with.
#[derive(Debug)]
pub struct Job {
    pub kind: RecordType,
    pub address: String,
}

pub struct JobView {
    pub kind: RecordType,
    pub address: Seq<char>,
}

impl View for Job {
    type V = JobView;

    open spec fn view(&self) -> JobView {
        JobView { kind: self.kind, address: self.address@ }
    }
}

/// The views of a list of jobs.
pub open spec fn job_views(jobs: Seq<Job>) -> Seq<JobView> {
    Seq::new(jobs.len(), |i: int| jobs[i]@)
}

/// What is said of an address of the wrong family for its parameter.
pub open spec fn wrong_family_message(wanted: IpType) -> Seq<char> {
    match wanted {
        IpType::V4 => "Parameter 'ip' expects an IPv4 address; use 'ipv6' for an IPv6 address"@,
        IpType::V6 => "Parameter 'ipv6' expects an IPv6 address; use 'ip' for an IPv4 address"@,
    }
}

/// Why `text` cannot stand in the parameter for addresses of the `wanted`
/// family, if it cannot.
pub open spec fn address_refusal(text: Seq<char>, wanted: IpType) -> Option<Seq<char>> {
    match classification(text) {
        None => Some(invalid_address_message(text)),
        Some(found) => if found == wanted {
            None
        } else {
            Some(wrong_family_message(wanted))
        },
    }
}

/// Why the request is refused, if it is: the first check, in this order,
/// that it does not pass.
pub open spec fn refusal(request: UpdateRequestView) -> Option<Seq<char>> {
    if request.apikey is None {
        Some("Missing query-parameter 'apikey'"@)
    } else if request.secretapikey is None {
        Some("Missing query-parameter 'secretapikey'"@)
    } else if request.domain is None {
        Some("Missing query-parameter 'domain'"@)
    } else if request.ip is None && request.ipv6 is None {
        Some("Missing query-parameter 'ip'"@)
    } else if !is_qualified_name(request.domain->0) {
        Some("Invalid subdomain format"@)
    } else if request.ip is Some && address_refusal(request.ip->0, IpType::V4) is Some {
        address_refusal(request.ip->0, IpType::V4)
    } else if request.ipv6 is Some {
        address_refusal(request.ipv6->0, IpType::V6)
    } else {
        None
    }
}

/// The jobs that a request asks for: its IPv4 address first, then its
/// IPv6 address.
pub open spec fn wanted_jobs(request: UpdateRequestView) -> Seq<JobView> {
    let first = match request.ip {
        Some(address) => seq![JobView { kind: RecordType::A, address }],
        None => Seq::<JobView>::empty(),
    };
    let second = match request.ipv6 {
        Some(address) => seq![JobView { kind: RecordType::AAAA, address }],
        None => Seq::<JobView>::empty(),
    };
    first + second
}

/// Checks that `text` writes an address of the `wanted` family.
pub fn check_address(text: &str, wanted: IpType) -> (result: Result<(), String>)
    ensures
        match result {
            Ok(_) => address_refusal(text@, wanted) is None,
            Err(message) => address_refusal(text@, wanted) == Some(message@),
        },
{
    match validate_and_classify_ip(text) {
        Err(message) => Err(message),
        Ok(found) => {
            if found == wanted {
                Ok(())
            } else {
                match wanted {
                    IpType::V4 => Err(
                        "Parameter 'ip' expects an IPv4 address; use 'ipv6' for an IPv6 address".to_owned(),
                    ),
                    IpType::V6 => Err(
                        "Parameter 'ipv6' expects an IPv6 address; use 'ip' for an IPv4 address".to_owned(),
                    ),
                }
            }
        },
    }
}

/// What came of a call to the provider.
#[derive(Debug)]
pub enum Event {
    /// The provider answered a lookup.
    Records { status: String, records: Option<Vec<DnsRecord>> },
    /// The provider answered a create or an update.
    Written { status: String },
    /// The call failed before the provider answered.
    Failed,
}

pub enum EventView {
    Records { status: Seq<char>, records: Seq<DnsRecordView> },
    Written { status: Seq<char> },
    Failed,
}

/// The records of an answer; an answer without a list holds none.
pub open spec fn listed(records: Option<Vec<DnsRecord>>) -> Seq<DnsRecordView> {
    match records {
        Some(list) => record_views(list@),
        None => Seq::<DnsRecordView>::empty(),
    }
}

impl View for Event {
    type V = EventView;

    open spec fn view(&self) -> EventView {
        match self {
            Event::Records { status, records } => EventView::Records {
                status: status@,
                records: listed(*records),
            },
            Event::Written { status } => EventView::Written { status: status@ },
            Event::Failed => EventView::Failed,
        }
    }
}

/// A request under way: what was asked, what is done, what is awaited.
pub struct SessionView {
    pub credentials: CredentialsView,
    /// The qualified name that the request is about.
    pub name: Seq<char>,
    pub zone: Seq<char>,
    pub host: Seq<char>,
    pub jobs: Seq<JobView>,
    /// The job whose provider call is awaited.
    pub current: int,
    /// The outcomes of the jobs before it.
    pub done: Seq<OutcomeView>,
    /// While a create or update is awaited, the outcome it will have.
    pub pending: Option<OutcomeView>,
}

#[derive(Debug)]
pub struct Session {
    domain: Domain,
    credentials: Credentials,
    jobs: Vec<Job>,
    current: usize,
    done: Vec<Outcome>,
    pending: Option<Outcome>,
}

/// The view of an outcome that may be absent.
pub open spec fn pending_view(pending: Option<Outcome>) -> Option<OutcomeView> {
    match pending {
        Some(outcome) => Some(outcome@),
        None => None,
    }
}

impl View for Session {
    type V = SessionView;

    closed spec fn view(&self) -> SessionView {
        SessionView {
            credentials: self.credentials@,
            name: self.domain@.qualified_name,
            zone: self.domain@.domain_name,
            host: self.domain@.subdomain,
            jobs: job_views(self.jobs@),
            current: self.current as int,
            done: outcome_views(self.done@),
            pending: pending_view(self.pending),
        }
    }
}

/// How far a request has come.
#[derive(Debug)]
pub enum Progress {
    /// The caller is to make this call and hand back what came of it.
    Call(Session, ProviderCall),
    /// The request has ended.
    Done(Result<String, UpdateError>),
}

pub enum ProgressView {
    Call(SessionView, ProviderCallView),
    Done(Result<Seq<char>, UpdateErrorView>),
}

impl View for Progress {
    type V = ProgressView;

    open spec fn view(&self) -> ProgressView {
        match self {
            Progress::Call(session, call) => ProgressView::Call(session@, call@),
            Progress::Done(result) => ProgressView::Done(result_view(*result)),
        }
    }
}

/// Where a request starts: refused, or with the lookup for its first job.
pub open spec fn start_spec(request: UpdateRequestView) -> ProgressView {
    match refusal(request) {
        Some(text) => ProgressView::Done(Err(UpdateErrorView::Validation(text))),
        None => ProgressView::Call(
            SessionView {
                credentials: CredentialsView {
                    api_key: request.apikey->0,
                    secret_key: request.secretapikey->0,
                },
                name: request.domain->0,
                zone: zone_of(request.domain->0),
                host: host_of(request.domain->0),
                jobs: wanted_jobs(request),
                current: 0,
                done: Seq::<OutcomeView>::empty(),
                pending: None,
            },
            ProviderCallView::Lookup { zone: zone_of(request.domain->0) },
        ),
    }
}

/// What is reported when a create or update did not succeed.
pub open spec fn write_failure_message(pending: OutcomeView) -> Seq<char> {
    match pending {
        OutcomeView::Created { .. } => "Failed to create DNS record"@,
        _ => "Failed to update DNS record"@,
    }
}

/// The request after job `current` has ended with `outcome`: the summary
/// if it was the last job, else the lookup for the next.
pub open spec fn advance_spec(session: SessionView, outcome: OutcomeView) -> ProgressView {
    let done = session.done.push(outcome);
    if session.current + 1 >= session.jobs.len() {
        ProgressView::Done(Ok(summary(done)))
    } else {
        ProgressView::Call(
            SessionView { current: session.current + 1, done, pending: None, ..session },
            ProviderCallView::Lookup { zone: session.zone },
        )
    }
}

/// The record among `records` that the current job is about.
pub open spec fn resolved(session: SessionView, records: Seq<DnsRecordView>) -> Option<
    DnsRecordView,
> {
    resolved_record(records, session.zone, session.host, session.jobs[session.current].kind)
}

/// The request after the awaited call has ended in `event`.
pub open spec fn step_spec(session: SessionView, event: EventView) -> ProgressView {
    let job = session.jobs[session.current];
    match session.pending {
        None => match event {
            EventView::Records { status, records } => if is_success_status(status) {
                let existing = resolved(session, records);
                let outcome = outcome_for(existing, job.address, job.kind, session.host);
                match decide(existing, job.address, job.kind) {
                    ActionView::NoOp { .. } => advance_spec(session, outcome),
                    ActionView::Create { kind, address } => ProgressView::Call(
                        SessionView { pending: Some(outcome), ..session },
                        ProviderCallView::Create {
                            zone: session.zone,
                            name: session.host,
                            kind,
                            address,
                        },
                    ),
                    ActionView::Update { id, address, kind } => ProgressView::Call(
                        SessionView { pending: Some(outcome), ..session },
                        ProviderCallView::Update {
                            zone: session.zone,
                            id,
                            name: session.host,
                            kind,
                            address,
                        },
                    ),
                }
            } else {
                ProgressView::Done(
                    Err(UpdateErrorView::Provider("Failed to retrieve DNS records"@)),
                )
            },
            _ => ProgressView::Done(
                Err(UpdateErrorView::Provider("Failed to retrieve DNS records"@)),
            ),
        },
        Some(outcome) => match event {
            EventView::Written { status } => if is_success_status(status) {
                advance_spec(SessionView { pending: None, ..session }, outcome)
            } else {
                ProgressView::Done(
                    Err(UpdateErrorView::Provider(write_failure_message(outcome))),
                )
            },
            _ => ProgressView::Done(
                Err(UpdateErrorView::Provider(write_failure_message(outcome))),
            ),
        },
    }
}

/// A request that is refused with `text`.
fn refused(text: &str) -> (progress: Progress)
    ensures
        progress@ == ProgressView::Done(Err(UpdateErrorView::Validation(text@))),
{
    Progress::Done(Err(UpdateError::Validation(text.to_owned())))
}

/// A request that the provider has failed with `text`.
fn failed(text: &str) -> (progress: Progress)
    ensures
        progress@ == ProgressView::Done(Err(UpdateErrorView::Provider(text@))),
{
    Progress::Done(Err(UpdateError::Provider(text.to_owned())))
}

impl Session {
    #[verifier::type_invariant]
    spec fn inv(self) -> bool {
        &&& self.current < self.jobs.len()
        &&& self.done.len() == self.current
    }

    /// The credentials to send with every call.
    pub fn credentials(&self) -> (credentials: &Credentials)
        ensures
            credentials@ == self@.credentials,
    {
        &self.credentials
    }

    /// The name that the request is about.
    pub fn domain(&self) -> (domain: &Domain)
        ensures
            domain@.qualified_name == self@.name,
            domain@.domain_name == self@.zone,
            domain@.subdomain == self@.host,
    {
        &self.domain
    }

    /// The job whose provider call is awaited.
    pub fn current_job(&self) -> (job: &Job)
        ensures
            0 <= self@.current < self@.jobs.len(),
            job@ == self@.jobs[self@.current],
    {
        proof {
            use_type_invariant(self);
        }
        &self.jobs[self.current]
    }

    /// The number of jobs that have ended.
    pub fn finished_jobs(&self) -> (n: usize)
        ensures
            n == self@.done.len(),
            n == self@.current,
    {
        proof {
            use_type_invariant(self);
        }
        self.current
    }
}

/// Starts a request: validates it as a whole and, if it stands, asks for
/// the lookup that its first address needs.
pub fn start(request: &UpdateRequest) -> (progress: Progress)
    ensures
        progress@ == start_spec(request@),
{
    let api_key = match &request.apikey {
        Some(text) => text,
        None => {
            return refused("Missing query-parameter 'apikey'");
        },
    };
    let secret_key = match &request.secretapikey {
        Some(text) => text,
        None => {
            return refused("Missing query-parameter 'secretapikey'");
        },
    };
    let name = match &request.domain {
        Some(text) => text,
        None => {
            return refused("Missing query-parameter 'domain'");
        },
    };
    if request.ip.is_none() && request.ipv6.is_none() {
        return refused("Missing query-parameter 'ip'");
    }
    let domain = match Domain::new(name.as_str()) {
        Ok(domain) => domain,
        Err(_) => {
            return refused("Invalid subdomain format");
        },
    };
    let mut jobs: Vec<Job> = Vec::new();
    match &request.ip {
        Some(address) => {
            match check_address(address.as_str(), IpType::V4) {
                Ok(_) => {
                    jobs.push(Job { kind: RecordType::A, address: address.clone() });
                },
                Err(message) => {
                    return Progress::Done(Err(UpdateError::Validation(message)));
                },
            }
        },
        None => {},
    }
    match &request.ipv6 {
        Some(address) => {
            match check_address(address.as_str(), IpType::V6) {
                Ok(_) => {
                    jobs.push(Job { kind: RecordType::AAAA, address: address.clone() });
                },
                Err(message) => {
                    return Progress::Done(Err(UpdateError::Validation(message)));
                },
            }
        },
        None => {},
    }
    proof {
        assert(job_views(jobs@) =~= wanted_jobs(request@));
    }
    let zone = domain.domain_name().to_owned();
    let session = Session {
        domain,
        credentials: Credentials::new(api_key.clone(), secret_key.clone()),
        jobs,
        current: 0,
        done: Vec::new(),
        pending: None,
    };
    proof {
        assert(session@.done =~= Seq::<OutcomeView>::empty());
    }
    Progress::Call(session, ProviderCall::Lookup { zone })
}

/// Ends the current job with `outcome` and goes on to the next, or to the
/// summary if there is none.
fn advance(session: Session, outcome: Outcome) -> (progress: Progress)
    ensures
        progress@ == advance_spec(session@, outcome@),
{
    proof {
        use_type_invariant(&session);
    }
    let ghost before = session@;
    let Session { domain, credentials, jobs, current, done, pending } = session;
    let mut done = done;
    let ghost old_done = done@;
    done.push(outcome);
    proof {
        assert(outcome_views(done@) =~= outcome_views(old_done).push(outcome@));
    }
    if current + 1 >= jobs.len() {
        Progress::Done(Ok(aggregate(&done)))
    } else {
        let zone = domain.domain_name().to_owned();
        let next = Session { domain, credentials, jobs, current: current + 1, done, pending: None };
        Progress::Call(next, ProviderCall::Lookup { zone })
    }
}

/// Takes what came of the awaited call and says how the request goes on.
///
/// A lookup that succeeded is resolved to the record of the current job
/// and reconciled: nothing to do ends the job, anything else asks for the
/// create or update. A create or update that succeeded ends the job. Any
/// failure, and any answer that was not awaited, ends the request: jobs
/// that were not reached are never attempted.
pub fn step(session: Session, event: Event) -> (progress: Progress)
    ensures
        progress@ == step_spec(session@, event@),
{
    proof {
        use_type_invariant(&session);
    }
    match &session.pending {
        None => match event {
            Event::Records { status, records } => {
                if !is_success(status.as_str()) {
                    return failed("Failed to retrieve DNS records");
                }
                let none: Vec<DnsRecord> = Vec::new();
                let list = match &records {
                    Some(list) => list,
                    None => &none,
                };
                proof {
                    assert(record_views(list@) =~= listed(records));
                }
                let host = session.domain.subdomain();
                let zone = session.domain.domain_name();
                let job = &session.jobs[session.current];
                let existing = resolve(list, zone, host, job.kind);
                proof {
                    assert(session@.jobs[session@.current] == job@);
                }
                let outcome = expected_outcome(existing, job.address.as_str(), job.kind, host);
                match reconcile(existing, job.address.as_str(), job.kind) {
                    Action::NoOp { .. } => advance(session, outcome),
                    Action::Create { kind, address } => {
                        let call = ProviderCall::Create {
                            zone: zone.to_owned(),
                            name: host.to_owned(),
                            kind,
                            address,
                        };
                        let Session { domain, credentials, jobs, current, done, pending } = session;
                        Progress::Call(
                            Session {
                                domain,
                                credentials,
                                jobs,
                                current,
                                done,
                                pending: Some(outcome),
                            },
                            call,
                        )
                    },
                    Action::Update { id, address, kind } => {
                        let call = ProviderCall::Update {
                            zone: zone.to_owned(),
                            id,
                            name: host.to_owned(),
                            kind,
                            address,
                        };
                        let Session { domain, credentials, jobs, current, done, pending } = session;
                        Progress::Call(
                            Session {
                                domain,
                                credentials,
                                jobs,
                                current,
                                done,
                                pending: Some(outcome),
                            },
                            call,
                        )
                    },
                }
            },
            _ => failed("Failed to retrieve DNS records"),
        },
        Some(awaited) => {
            let succeeded = match &event {
                Event::Written { status } => is_success(status.as_str()),
                _ => false,
            };
            if succeeded {
                let outcome = awaited.clone();
                let Session { domain, credentials, jobs, current, done, pending } = session;
                advance(Session { domain, credentials, jobs, current, done, pending: None }, outcome)
            } else {
                match awaited {
                    Outcome::Created { .. } => failed("Failed to create DNS record"),
                    _ => failed("Failed to update DNS record"),
                }
            }
        },
    }
}

/// The family whose addresses a record type carries.
pub open spec fn family_of(kind: RecordType) -> IpType {
    match kind {
        RecordType::A => IpType::V4,
        RecordType::AAAA => IpType::V6,
    }
}

/// A request that is refused ends at once, as a validation failure, and
/// no call to the provider is asked for.
pub proof fn lemma_refused_request_makes_no_call(request: UpdateRequestView)
    requires
        refusal(request) is Some,
    ensures
        start_spec(request) == ProgressView::Done(
            Err(UpdateErrorView::Validation(refusal(request)->0)),
        ),
        status_of(Err(UpdateErrorView::Validation(refusal(request)->0))) == 400,
{
}

/// A request whose name is not qualified is refused, whatever else it
/// holds.
pub proof fn lemma_unqualified_name_is_refused(request: UpdateRequestView)
    requires
        request.domain matches Some(name) && !is_qualified_name(name),
    ensures
        refusal(request) is Some,
        start_spec(request) is Done,
{
}

/// A request without any address is refused.
pub proof fn lemma_request_without_address_is_refused(request: UpdateRequestView)
    requires
        request.ip is None,
        request.ipv6 is None,
    ensures
        refusal(request) is Some,
{
}

/// Where a request leads to a provider call, all of it has been found
/// valid before: the name is qualified, there is at least one job, each
/// job carries an address of the family of its record type, and the IPv4
/// job comes first.
pub proof fn lemma_started_request_is_valid(request: UpdateRequestView)
    requires
        start_spec(request) is Call,
    ensures
        request.domain is Some && is_qualified_name(request.domain->0),
        1 <= wanted_jobs(request).len() <= 2,
        forall|i: int|
            0 <= i < wanted_jobs(request).len() ==> classification(
                (#[trigger] wanted_jobs(request)[i]).address,
            ) == Some(family_of(wanted_jobs(request)[i].kind)),
        wanted_jobs(request).len() == 2 ==> wanted_jobs(request)[0].kind == RecordType::A
            && wanted_jobs(request)[1].kind == RecordType::AAAA,
{
}

/// Whether the awaited call has failed: in transport, by the provider's
/// status, or by an answer that was not awaited.
pub open spec fn is_failure(session: SessionView, event: EventView) -> bool {
    match event {
        EventView::Failed => true,
        EventView::Records { status, .. } => session.pending is Some || !is_success_status(status),
        EventView::Written { status } => session.pending is None || !is_success_status(status),
    }
}

/// The first failure ends the request as a provider failure: no session
/// is left to go on with, so no later address is attempted and no outcome
/// is reported for it.
pub proof fn lemma_failure_ends_request(session: SessionView, event: EventView)
    ensures
        is_failure(session, event) <==> (step_spec(session, event) matches ProgressView::Done(
            Err(_),
        )),
        step_spec(session, event) matches ProgressView::Done(Err(error)) ==> error is Provider
            && status_of(Err(error)) == 500,
{
}

/// A session as `start` and `step` leave it: a job is current and the
/// jobs before it have their outcomes.
pub open spec fn is_orderly(session: SessionView) -> bool {
    &&& 0 <= session.current < session.jobs.len()
    &&& session.done.len() == session.current
}

/// A step keeps the request and its order: the jobs stay as they are, the
/// outcomes so far stay, and the step either stays at the current job (to
/// write what its lookup called for) or ends it and goes on to the next.
/// Success is only reported when the last job has ended, with one outcome
/// for each job.
pub proof fn lemma_step_keeps_order(session: SessionView, event: EventView)
    requires
        is_orderly(session),
    ensures
        step_spec(session, event) matches ProgressView::Call(next, _) ==> {
            &&& is_orderly(next)
            &&& next.jobs == session.jobs
            &&& next.name == session.name
            &&& next.zone == session.zone
            &&& next.host == session.host
            &&& next.credentials == session.credentials
            &&& session.current <= next.current <= session.current + 1
            &&& next.done.subrange(0, session.done.len() as int) == session.done
            &&& next.current == session.current ==> session.pending is None && next.pending is Some
            &&& next.current == session.current + 1 ==> next.pending is None
        },
        step_spec(session, event) matches ProgressView::Done(Ok(text)) ==> {
            &&& session.current == session.jobs.len() - 1
            &&& exists|last: OutcomeView| text == summary(#[trigger] session.done.push(last))
        },
{
    match step_spec(session, event) {
        ProgressView::Call(next, _) => {
            assert(next.done.subrange(0, session.done.len() as int) =~= session.done);
        },
        ProgressView::Done(Ok(text)) => {
            let job = session.jobs[session.current];
            match session.pending {
                Some(outcome) => {
                    assert(text == summary(session.done.push(outcome)));
                },
                None => {
                    let records = event->Records_records;
                    let outcome = outcome_for(
                        resolved(session, records),
                        job.address,
                        job.kind,
                        session.host,
                    );
                    assert(text == summary(session.done.push(outcome)));
                },
            }
        },
        _ => {},
    }
}

/// The start of a request that is not refused is orderly.
pub proof fn lemma_start_is_orderly(request: UpdateRequestView)
    ensures
        start_spec(request) matches ProgressView::Call(session, call) ==> is_orderly(session)
            && session.pending is None && call == (ProviderCallView::Lookup {
            zone: session.zone,
        }),
{
}

/// Each lookup is decided by the table: no record of the name and type
/// asks for a create, a record with another address for an update of that
/// record, and a record with the wanted address for nothing at all.
pub proof fn lemma_lookup_follows_decision(
    session: SessionView,
    status: Seq<char>,
    records: Seq<DnsRecordView>,
)
    requires
        session.pending is None,
        is_success_status(status),
    ensures
        ({
            let job = session.jobs[session.current];
            let existing = resolved(session, records);
            let progress = step_spec(session, EventView::Records { status, records });
            match decide(existing, job.address, job.kind) {
                ActionView::Create { kind, address } => progress matches ProgressView::Call(
                    _,
                    ProviderCallView::Create { kind: k, address: a, .. },
                ) && k == job.kind && a == job.address,
                ActionView::Update { id, .. } => progress matches ProgressView::Call(
                    _,
                    ProviderCallView::Update { id: i, kind: k, address: a, .. },
                ) && i == id && k == job.kind && a == job.address,
                ActionView::NoOp { .. } => !(progress matches ProgressView::Call(
                    _,
                    ProviderCallView::Create { .. },
                )) && !(progress matches ProgressView::Call(_, ProviderCallView::Update { .. })),
            }
        }),
{
}

/// A request that is run again finds nothing to do: where the lookup
/// shows the record as an earlier decision for the same address left it,
/// the job ends as up to date and no create or update is asked for.
pub proof fn lemma_second_run_finds_nothing_to_do(
    session: SessionView,
    status: Seq<char>,
    records: Seq<DnsRecordView>,
    earlier: Option<DnsRecordView>,
    new_id: Seq<char>,
)
    requires
        session.pending is None,
        is_success_status(status),
        resolved(session, records) == Some(
            crate::reconcile::record_after(
                decide(
                    earlier,
                    session.jobs[session.current].address,
                    session.jobs[session.current].kind,
                ),
                record_name(session.host, session.zone),
                new_id,
            ),
        ),
    ensures
        ({
            let job = session.jobs[session.current];
            let settled = resolved(session, records)->0;
            step_spec(session, EventView::Records { status, records }) == advance_spec(
                session,
                OutcomeView::UpToDate { name: settled.name, kind: job.kind },
            )
        }),
{
}

} // verus!
