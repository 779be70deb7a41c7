//! The first form of issues: missing translations only, counted per event and
//! written out from a batch that the caller fills.

use vstd::prelude::*;
use vstd::utf8::encode_utf8;

use crate::internals::clock::{is_rfc3339_utc, now_rfc3339};
use crate::internals::issue::{
    event_id_name, event_text, is_version_5_uuid, oid_uuid_v5, uuid_text, uuid_text_of,
    uuid_v5_in_oid_namespace, EventModel,
};

verus! {

/// What an issue is about.
#[derive(Debug, Clone, Hash, PartialEq, Eq)]
pub enum IssueEvent {
    /// No value for `key` in `locale`.
    MissingTranslation { locale: String, key: String },
}

impl View for IssueEvent {
    type V = EventModel;

    open spec fn view(&self) -> EventModel {
        match self {
            IssueEvent::MissingTranslation { locale, key } => EventModel::MissingTranslation {
                locale: locale@,
                key: key@,
            },
        }
    }
}

/// An issue: an event, how often it was seen, and when last.
#[derive(Debug, Clone)]
pub struct Issue {
    pub count: usize,
    pub event: IssueEvent,
    pub last_seen: String,
}

/// An issue of the first form, by the values of its fields.
pub struct IssueModel {
    pub count: usize,
    pub event: EventModel,
    pub last_seen: Seq<char>,
}

impl View for Issue {
    type V = IssueModel;

    open spec fn view(&self) -> IssueModel {
        IssueModel { count: self.count, event: self.event@, last_seen: self.last_seen@ }
    }
}

/// The issues held in an `scc::HashMap` of the first form, by the value of their key.
pub uninterp spec fn first_form_pending(map: scc::HashMap<IssueEvent, Issue>) -> Map<EventModel, IssueModel>;

/// No issue at all.
pub open spec fn no_first_form_issues() -> Map<EventModel, IssueModel> {
    Map::empty()
}

/// Wraps `scc::HashMap::new`: an empty map.
#[verifier::external_body]
fn new_first_form_map() -> (issues: scc::HashMap<IssueEvent, Issue>)
    ensures
        first_form_pending(issues) == no_first_form_issues(),
{
    scc::HashMap::new()
}

/// Wraps `scc::HashMap::read_sync`, whose reader clones the value: the issue held under
/// `event`, if any. Keys are compared by the derived `==` of `IssueEvent`, which compares
/// the text of the fields.
#[verifier::external_body]
fn read_first_form(issues: &scc::HashMap<IssueEvent, Issue>, event: &IssueEvent) -> (found: Option<Issue>)
    ensures
        match found {
            Some(issue) => first_form_pending(*issues).contains_key(event@) && first_form_pending(*issues)[event@]
                == issue@,
            None => !first_form_pending(*issues).contains_key(event@),
        },
{
    issues.read_sync(event, |_, issue| issue.clone())
}

/// Wraps `scc::HashMap::upsert_sync` (the old value it returns is dropped): `issue` is
/// held under `event` afterwards, in place of any issue held there before.
#[verifier::external_body]
fn write_first_form(issues: &mut scc::HashMap<IssueEvent, Issue>, event: IssueEvent, issue: Issue)
    ensures
        first_form_pending(*final(issues)) == first_form_pending(*old(issues)).insert(event@, issue@),
{
    issues.upsert_sync(event, issue);
}

/// The pending issues after `event` is reported at `seen_at`: a pending issue counts one
/// more sighting and takes `seen_at` as the time it was last seen; a new issue counts one
/// sighting and has no time of last sighting (the empty text).
pub open spec fn after_first_form_report(
    pending: Map<EventModel, IssueModel>,
    event: EventModel,
    seen_at: Seq<char>,
) -> Map<EventModel, IssueModel> {
    if pending.contains_key(event) {
        let issue = pending[event];
        pending.insert(event, IssueModel { count: (issue.count + 1) as usize, last_seen: seen_at, ..issue })
    } else {
        pending.insert(event, IssueModel { count: 1, event, last_seen: Seq::empty() })
    }
}

/// Reporting counts sightings and touches no other issue: after `event` is reported at
/// `seen_at`, its issue counts one more sighting than before and was last seen at
/// `seen_at`, or, where it was not pending, counts one sighting and has no time of last
/// sighting; every other pending issue stays as it was, and no issue comes or goes but
/// that of `event`.
pub proof fn law_first_form_report_counts(
    pending: Map<EventModel, IssueModel>,
    event: EventModel,
    seen_at: Seq<char>,
    other: EventModel,
)
    requires
        pending.contains_key(event) ==> pending[event].count < usize::MAX,
    ensures
        after_first_form_report(pending, event, seen_at).contains_key(event),
        after_first_form_report(pending, event, seen_at)[event].count == (if pending.contains_key(event) {
            pending[event].count + 1
        } else {
            1
        }),
        after_first_form_report(pending, event, seen_at)[event].last_seen == (if pending.contains_key(event) {
            seen_at
        } else {
            Seq::<char>::empty()
        }),
        !pending.contains_key(event) ==> after_first_form_report(pending, event, seen_at)[event].event == event,
        other != event ==> after_first_form_report(pending, event, seen_at).contains_key(other)
            == pending.contains_key(other),
        other != event && pending.contains_key(other) ==> after_first_form_report(pending, event, seen_at)[other]
            == pending[other],
{
}

/// Every pending issue is held under its own event and counts at least one sighting.
pub open spec fn first_form_wf(pending: Map<EventModel, IssueModel>) -> bool {
    forall|e: EventModel|
        #[trigger] pending.contains_key(e) ==> pending[e].event == e && pending[e].count >= 1
}

/// A row of the first form's issues table.
pub struct IssueRow {
    /// The text of the event's identifier.
    pub id: String,
    /// The sentence that describes the event.
    pub event: String,
    pub count: i64,
    pub last_seen: String,
}

/// Whether `row` is the row written for `issue`.
pub open spec fn is_first_form_row(row: IssueRow, issue: IssueModel) -> bool {
    &&& row.id@ == uuid_text(oid_uuid_v5(encode_utf8(event_id_name(issue.event))))
    &&& row.event@ == event_text(issue.event)
    &&& row.count == issue.count as i64
    &&& row.last_seen@ == issue.last_seen
}

/// Collects issues of the first form, and writes out a batch that the caller sets.
pub struct IssueCollector {
    /// The issues reported, one per event.
    pub pending: scc::HashMap<IssueEvent, Issue>,
    /// The issues to write out, if any.
    pub batch: Option<Vec<Issue>>,
}

impl IssueCollector {
    /// The pending issues, by their events.
    pub open spec fn pending_model(&self) -> Map<EventModel, IssueModel> {
        first_form_pending(self.pending)
    }

    /// The collector is well formed: see `first_form_wf`.
    pub open spec fn wf(&self) -> bool {
        first_form_wf(self.pending_model())
    }

    /// A collector with no pending issue and no batch.
    pub fn new() -> (collector: IssueCollector)
        ensures
            collector.wf(),
            collector.pending_model() == no_first_form_issues(),
            collector.batch is None,
    {
        IssueCollector { pending: new_first_form_map(), batch: None }
    }

    /// How many times `event` was seen, if at all.
    pub fn count_of(&self, event: &IssueEvent) -> (count: Option<usize>)
        ensures
            match count {
                Some(n) => self.pending_model().contains_key(event@) && self.pending_model()[event@].count
                    == n,
                None => !self.pending_model().contains_key(event@),
            },
    {
        match read_first_form(&self.pending, event) {
            Some(issue) => Some(issue.count),
            None => None,
        }
    }

    /// Records a sighting of `event` at `seen_at`: see `after_first_form_report`.
    pub fn record(&mut self, event: IssueEvent, seen_at: String)
        requires
            old(self).wf(),
            old(self).pending_model().contains_key(event@) ==> old(self).pending_model()[event@].count
                < usize::MAX,
        ensures
            final(self).wf(),
            final(self).pending_model() == after_first_form_report(old(self).pending_model(), event@, seen_at@),
            forall|other: EventModel|
                other != event@ && #[trigger] old(self).pending_model().contains_key(other)
                    ==> final(self).pending_model().contains_key(other)
                    && final(self).pending_model()[other] == old(self).pending_model()[other],
            final(self).batch == old(self).batch,
    {
        match read_first_form(&self.pending, &event) {
            Some(issue) => {
                let updated = Issue { count: issue.count + 1, last_seen: seen_at, ..issue };
                write_first_form(&mut self.pending, event, updated);
            },
            None => {
                let issue = Issue { count: 1, event: event.duplicate(), last_seen: String::new() };
                write_first_form(&mut self.pending, event, issue);
            },
        }
    }

    /// Reports a sighting of `event`, now: `record` with the clock's time.
    pub fn report(&mut self, event: IssueEvent)
        requires
            old(self).wf(),
            old(self).pending_model().contains_key(event@) ==> old(self).pending_model()[event@].count
                < usize::MAX,
        ensures
            final(self).wf(),
            exists|seen_at: Seq<char>|
                is_rfc3339_utc(seen_at) && final(self).pending_model() == after_first_form_report(
                    old(self).pending_model(),
                    event@,
                    seen_at,
                ),
            final(self).batch == old(self).batch,
    {
        let seen_at = now_rfc3339();
        self.record(event, seen_at);
    }

    /// The rows that write the batch out, one per issue in its order; none without a batch.
    pub fn batch_rows(&self) -> (rows: Option<Vec<IssueRow>>)
        ensures
            match self.batch {
                None => rows is None,
                Some(batch) => rows matches Some(r) && r.len() == batch.len() && forall|i: int|
                    0 <= i < r.len() ==> is_first_form_row(#[trigger] r@[i], batch@[i]@) && r@[i].count
                        == batch@[i].count as i64 && r@[i].last_seen@ == batch@[i].last_seen@,
            },
    {
        match &self.batch {
            None => None,
            Some(batch) => {
                let mut rows: Vec<IssueRow> = Vec::new();
                let mut i: usize = 0;
                while i < batch.len()
                    invariant
                        i <= batch.len(),
                        rows.len() == i,
                        forall|j: int| 0 <= j < i ==> is_first_form_row(#[trigger] rows@[j], batch@[j]@),
                    decreases batch.len() - i,
                {
                    let issue = &batch[i];
                    let row = IssueRow {
                        id: uuid_text_of(issue.event.id()),
                        event: issue.event.format(),
                        count: issue.count as i64,
                        last_seen: issue.last_seen.clone(),
                    };
                    rows.push(row);
                    i = i + 1;
                }
                Some(rows)
            },
        }
    }

    /// Drops the batch, once it is written out; the pending issues stay.
    pub fn clear_batch(&mut self)
        ensures
            final(self).batch is None,
            final(self).pending_model() == old(self).pending_model(),
    {
        self.batch = None;
    }
}

impl IssueEvent {
    /// The sentence that describes the event.
    pub fn format(&self) -> (text: String)
        ensures
            text@ == event_text(self@),
    {
        match self {
            IssueEvent::MissingTranslation { locale, key } => {
                let mut text = String::from_str("Missing translation for locale '");
                text.append(locale.as_str());
                text.append("' and key '");
                text.append(key.as_str());
                text.append("'");
                text
            },
        }
    }

    /// A copy of the event.
    pub fn duplicate(&self) -> (copy: IssueEvent)
        ensures
            copy@ == self@,
    {
        match self {
            IssueEvent::MissingTranslation { locale, key } => IssueEvent::MissingTranslation {
                locale: locale.clone(),
                key: key.clone(),
            },
        }
    }

    /// The event's identifier: the version 5 UUID, in the OID namespace, of the UTF-8
    /// bytes of `MISS:locale:key`.
    pub fn id(&self) -> (id: u128)
        ensures
            id == oid_uuid_v5(encode_utf8(event_id_name(self@))),
            is_version_5_uuid(id),
    {
        match self {
            IssueEvent::MissingTranslation { locale, key } => {
                let mut name = String::from_str("MISS:");
                name.append(locale.as_str());
                name.append(":");
                name.append(key.as_str());
                uuid_v5_in_oid_namespace(name.as_str().as_bytes())
            },
        }
    }
}

} // verus!
