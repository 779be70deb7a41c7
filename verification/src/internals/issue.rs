//! Issues: problems that the service notices while it serves (a translation or a
//! locale that is missing), counted per event until they are written out.

use vstd::prelude::*;
use vstd::utf8::encode_utf8;

use crate::internals::clock::{is_rfc3339_utc, now_rfc3339};
use crate::text::{lemma_drop_common_prefix, lemma_split_at_separator};

verus! {

/// What an issue is about.
#[derive(Debug, Clone, Hash, PartialEq, Eq)]
pub enum IssueEvent {
    /// No value for `key` in `locale`.
    MissingTranslation { locale: String, key: String },
    /// No such locale.
    MissingLocale { locale: String },
}

/// An event, by the text of its fields.
pub enum EventModel {
    MissingTranslation { locale: Seq<char>, key: Seq<char> },
    MissingLocale { locale: Seq<char> },
}

impl View for IssueEvent {
    type V = EventModel;

    open spec fn view(&self) -> EventModel {
        match self {
            IssueEvent::MissingTranslation { locale, key } => EventModel::MissingTranslation {
                locale: locale@,
                key: key@,
            },
            IssueEvent::MissingLocale { locale } => EventModel::MissingLocale { locale: locale@ },
        }
    }
}

/// An issue: an event, how often it was seen, and when.
#[derive(Debug, Clone)]
pub struct Issue {
    /// How many times the event was seen.
    pub count: usize,
    /// The name of the event's kind.
    pub eventtype: String,
    pub event: IssueEvent,
    /// When the event was first seen (RFC 3339).
    pub created_at: String,
    /// When the event was last seen (RFC 3339).
    pub last_seen: String,
    pub state: IssueState,
}

/// An issue, by the values of its fields.
pub struct IssueModel {
    pub count: usize,
    pub eventtype: Seq<char>,
    pub event: EventModel,
    pub created_at: Seq<char>,
    pub last_seen: Seq<char>,
    pub state: IssueState,
}

impl View for Issue {
    type V = IssueModel;

    open spec fn view(&self) -> IssueModel {
        IssueModel {
            count: self.count,
            eventtype: self.eventtype@,
            event: self.event@,
            created_at: self.created_at@,
            last_seen: self.last_seen@,
            state: self.state,
        }
    }
}

/// Where an issue stands.
#[derive(Debug, Clone, Copy, PartialEq, Eq, Structural)]
pub enum IssueState {
    Open,
    Closed,
    Ignored,
}

/// The name of an event's kind.
pub open spec fn event_type_text(e: EventModel) -> Seq<char> {
    match e {
        EventModel::MissingTranslation { .. } => "missing_translation"@,
        EventModel::MissingLocale { .. } => "missing_locale"@,
    }
}

/// The sentence that describes an event.
pub open spec fn event_text(e: EventModel) -> Seq<char> {
    match e {
        EventModel::MissingTranslation { locale, key } => "Missing translation for locale '"@ + locale
            + "' and key '"@ + key + "'"@,
        EventModel::MissingLocale { locale } => "Missing locale '"@ + locale + "'"@,
    }
}

/// The sentence of a missing translation names its whole locale and its whole key, each
/// between quotes, and so does that of a missing locale.
pub proof fn law_event_text_parts(locale: Seq<char>, key: Seq<char>)
    ensures
        event_text(EventModel::MissingTranslation { locale, key }).len() == locale.len() + key.len() + 44,
        event_text(EventModel::MissingTranslation { locale, key }).subrange(32, (locale.len() + 32) as int)
            == locale,
        event_text(EventModel::MissingTranslation { locale, key }).subrange(
            (locale.len() + 43) as int,
            (locale.len() + key.len() + 43) as int,
        ) == key,
        event_text(EventModel::MissingLocale { locale }).len() == locale.len() + 17,
        event_text(EventModel::MissingLocale { locale }).subrange(16, (locale.len() + 16) as int) == locale,
{
    reveal_strlit("Missing translation for locale '");
    reveal_strlit("' and key '");
    reveal_strlit("'");
    reveal_strlit("Missing locale '");
    let t = event_text(EventModel::MissingTranslation { locale, key });
    assert(t.subrange(32, (locale.len() + 32) as int) =~= locale);
    assert(t.subrange((locale.len() + 43) as int, (locale.len() + key.len() + 43) as int) =~= key);
    let u = event_text(EventModel::MissingLocale { locale });
    assert(u.subrange(16, (locale.len() + 16) as int) =~= locale);
}

/// The name from which an event's identifier is derived.
pub open spec fn event_id_name(e: EventModel) -> Seq<char> {
    match e {
        EventModel::MissingTranslation { locale, key } => "MISS:"@ + locale + ":"@ + key,
        EventModel::MissingLocale { locale } => "MISS:"@ + locale,
    }
}

/// The name of a missing translation holds its locale and its whole key: `MISS:`, the
/// locale, `:` and the key. So two missing translations whose locales hold no `:` have
/// the same name only where they are the same event.
pub proof fn law_missing_translation_names(l1: Seq<char>, k1: Seq<char>, l2: Seq<char>, k2: Seq<char>)
    ensures
        event_id_name(EventModel::MissingTranslation { locale: l1, key: k1 }).len() == l1.len()
            + k1.len() + 6,
        event_id_name(EventModel::MissingTranslation { locale: l1, key: k1 }).subrange(
            (l1.len() + 6) as int,
            (l1.len() + k1.len() + 6) as int,
        ) == k1,
        !l1.contains(':') && !l2.contains(':') && (l1 != l2 || k1 != k2) ==> event_id_name(
            EventModel::MissingTranslation { locale: l1, key: k1 },
        ) != event_id_name(EventModel::MissingTranslation { locale: l2, key: k2 }),
{
    reveal_strlit("MISS:");
    reveal_strlit(":");
    let n1 = event_id_name(EventModel::MissingTranslation { locale: l1, key: k1 });
    let n2 = event_id_name(EventModel::MissingTranslation { locale: l2, key: k2 });
    let r1 = l1 + seq![':'] + k1;
    let r2 = l2 + seq![':'] + k2;
    assert(n1 =~= "MISS:"@ + r1);
    assert(n2 =~= "MISS:"@ + r2);
    assert(n1.subrange((l1.len() + 6) as int, (l1.len() + k1.len() + 6) as int) =~= k1);
    if !l1.contains(':') && !l2.contains(':') && n1 == n2 {
        lemma_drop_common_prefix("MISS:"@, r1, r2);
        lemma_split_at_separator(l1, k1, l2, k2, ':');
    }
}

/// The text of an issue state.
pub open spec fn issue_state_text(s: IssueState) -> Seq<char> {
    match s {
        IssueState::Open => "open"@,
        IssueState::Closed => "closed"@,
        IssueState::Ignored => "ignored"@,
    }
}

/// Different states are written as different texts, and so are different kinds of event.
pub proof fn law_state_and_kind_texts_distinct(s1: IssueState, s2: IssueState, e1: EventModel, e2: EventModel)
    ensures
        s1 != s2 ==> issue_state_text(s1) != issue_state_text(s2),
        (e1 is MissingTranslation) != (e2 is MissingTranslation) ==> event_type_text(e1) != event_type_text(
            e2,
        ),
{
    reveal_strlit("open");
    reveal_strlit("closed");
    reveal_strlit("ignored");
    reveal_strlit("missing_translation");
    reveal_strlit("missing_locale");
    assert(issue_state_text(s1).len() != issue_state_text(s2).len() || s1 == s2);
    assert(event_type_text(e1).len() != event_type_text(e2).len() || (e1 is MissingTranslation) == (
    e2 is MissingTranslation));
}

/// The identifier (a version 5 UUID in the OID namespace, as its 128-bit value) that
/// `uuid::Uuid::new_v5` gives the bytes `name`.
pub uninterp spec fn oid_uuid_v5(name: Seq<u8>) -> u128;

/// Whether `id` carries the marks of a version 5 UUID: version number 5 and the RFC 4122
/// (RFC 9562) variant, read from the UUID's 128-bit big-endian value.
pub open spec fn is_version_5_uuid(id: u128) -> bool {
    &&& (id >> 76u128) & 0xfu128 == 5
    &&& (id >> 62u128) & 0x3u128 == 2
}

/// Wraps `uuid::Uuid::new_v5` with the namespace `uuid::Uuid::NAMESPACE_OID`, the UUID
/// read out by `as_u128`: the result is the value named `oid_uuid_v5` of the bytes, and
/// it is a version 5 UUID of the RFC 4122 variant (`Builder::from_sha1_bytes` sets both).
#[verifier::external_body]
pub(crate) fn uuid_v5_in_oid_namespace(name: &[u8]) -> (id: u128)
    ensures
        id == oid_uuid_v5(name@),
        is_version_5_uuid(id),
{
    uuid::Uuid::new_v5(&uuid::Uuid::NAMESPACE_OID, name).as_u128()
}

#[verifier::external_type_specification]
#[verifier::external_body]
#[verifier::reject_recursive_types(K)]
#[verifier::reject_recursive_types(V)]
#[verifier::reject_recursive_types(H)]
pub struct ExSccHashMap<K, V, H: std::hash::BuildHasher>(scc::HashMap<K, V, H>);

/// The issues held in an `scc::HashMap`, by the value of their key.
pub uninterp spec fn pending_issues(map: scc::HashMap<IssueEvent, Issue>) -> Map<EventModel, IssueModel>;

/// No issue at all.
pub open spec fn no_issues() -> Map<EventModel, IssueModel> {
    Map::empty()
}

/// Wraps `scc::HashMap::new`: an empty map.
#[verifier::external_body]
fn new_pending_map() -> (issues: scc::HashMap<IssueEvent, Issue>)
    ensures
        pending_issues(issues) == no_issues(),
{
    scc::HashMap::new()
}

/// Wraps `scc::HashMap::read_sync`, whose reader clones the value: the issue held under
/// `event`, if any. Keys are compared by the derived `==` of `IssueEvent`, which compares
/// the variant and the text of the fields.
#[verifier::external_body]
fn read_pending(issues: &scc::HashMap<IssueEvent, Issue>, event: &IssueEvent) -> (found: Option<Issue>)
    ensures
        match found {
            Some(issue) => pending_issues(*issues).contains_key(event@) && pending_issues(*issues)[event@]
                == issue@,
            None => !pending_issues(*issues).contains_key(event@),
        },
{
    issues.read_sync(event, |_, issue| issue.clone())
}

/// Wraps `scc::HashMap::upsert_sync` (the old value it returns is dropped): `issue` is
/// held under `event` afterwards, in place of any issue held there before.
#[verifier::external_body]
fn write_pending(issues: &mut scc::HashMap<IssueEvent, Issue>, event: IssueEvent, issue: Issue)
    ensures
        pending_issues(*final(issues)) == pending_issues(*old(issues)).insert(event@, issue@),
{
    issues.upsert_sync(event, issue);
}

/// Wraps `scc::HashMap::retain_sync` with a predicate that keeps nothing and hands out a
/// clone of each (key, value) pair it visits: the map is emptied, and each pair that it
/// held is handed out once, in an order that the map's hashing decides.
#[verifier::external_body]
fn drain_pending(issues: &mut scc::HashMap<IssueEvent, Issue>) -> (drained: Vec<(IssueEvent, Issue)>)
    ensures
        pending_issues(*final(issues)) == no_issues(),
        forall|i: int|
            0 <= i < drained.len() ==> pending_issues(*old(issues)).contains_key(#[trigger] drained@[i].0@)
                && pending_issues(*old(issues))[drained@[i].0@] == drained@[i].1@,
        forall|i: int, j: int|
            0 <= i < j < drained.len() ==> #[trigger] drained@[i].0@ != #[trigger] drained@[j].0@,
        forall|k: EventModel|
            #[trigger] pending_issues(*old(issues)).contains_key(k) ==> exists|i: int|
                0 <= i < drained.len() && #[trigger] drained@[i].0@ == k,
{
    let mut drained = Vec::new();
    issues.retain_sync(|event, issue| {
        drained.push((event.clone(), issue.clone()));
        false
    });
    drained
}

/// The issues, by their values.
pub open spec fn issue_models(issues: Seq<Issue>) -> Seq<IssueModel> {
    issues.map_values(|issue: Issue| issue@)
}

/// Every pending issue is held under its own event, counts at least one sighting, and
/// names its event's kind.
pub open spec fn pending_wf(pending: Map<EventModel, IssueModel>) -> bool {
    forall|e: EventModel|
        #[trigger] pending.contains_key(e) ==> {
            &&& pending[e].event == e
            &&& pending[e].count >= 1
            &&& pending[e].eventtype == event_type_text(e)
        }
}

/// The pending issues after `event` is reported, seen at `seen_at`: a pending issue counts
/// one more sighting and takes `seen_at` as the time it was last seen; a new issue is
/// open, counts one sighting, and was created at `created_at`.
pub open spec fn after_report(
    pending: Map<EventModel, IssueModel>,
    event: EventModel,
    created_at: Seq<char>,
    seen_at: Seq<char>,
) -> Map<EventModel, IssueModel> {
    if pending.contains_key(event) {
        let issue = pending[event];
        pending.insert(event, IssueModel { count: (issue.count + 1) as usize, last_seen: seen_at, ..issue })
    } else {
        pending.insert(
            event,
            IssueModel {
                count: 1,
                eventtype: event_type_text(event),
                event,
                created_at,
                last_seen: seen_at,
                state: IssueState::Open,
            },
        )
    }
}

/// Whether `event` can be reported once more without its count passing `usize::MAX`.
pub open spec fn countable(pending: Map<EventModel, IssueModel>, event: EventModel) -> bool {
    pending.contains_key(event) ==> pending[event].count < usize::MAX
}

/// Whether `moved` holds each issue of `pending` exactly once, in some order.
pub open spec fn moves_all(pending: Map<EventModel, IssueModel>, moved: Seq<IssueModel>) -> bool {
    &&& forall|i: int|
        0 <= i < moved.len() ==> pending.contains_key(#[trigger] moved[i].event) && pending[moved[i].event]
            == moved[i]
    &&& forall|i: int, j: int| 0 <= i < j < moved.len() ==> #[trigger] moved[i].event != #[trigger] moved[j].event
    &&& forall|e: EventModel|
        #[trigger] pending.contains_key(e) ==> exists|i: int| 0 <= i < moved.len() && #[trigger] moved[i].event == e
}

/// A row of the issues table, as `commit` writes it.
pub struct IssueRow {
    /// The text of the event's identifier.
    pub id: String,
    /// The sentence that describes the event.
    pub event: String,
    pub count: i64,
    pub last_seen: String,
    pub state: String,
    pub created_at: String,
}

/// Whether `row` is the row written for `issue`.
pub open spec fn is_row_of(row: IssueRow, issue: IssueModel) -> bool {
    &&& row.id@ == uuid_text(oid_uuid_v5(encode_utf8(event_id_name(issue.event))))
    &&& row.event@ == event_text(issue.event)
    &&& row.count == issue.count as i64
    &&& row.last_seen@ == issue.last_seen
    &&& row.state@ == issue_state_text(issue.state)
    &&& row.created_at@ == issue.created_at
}

/// A row carries its issue's count, times and state as they are.
pub proof fn law_row_carries_issue(row: IssueRow, issue: IssueModel)
    requires
        is_row_of(row, issue),
    ensures
        row.count == issue.count as i64,
        row.last_seen@ == issue.last_seen,
        row.created_at@ == issue.created_at,
        row.state@ == issue_state_text(issue.state),
{
}

/// Every sighting of a pending event reaches the table: where the pending issues are moved
/// to a batch (`collect_pending`) and the batch written out as rows (`batch_rows`), some
/// row describes `event` and counts as many sightings as its pending issue did.
pub proof fn law_rows_count_sightings(
    pending: Map<EventModel, IssueModel>,
    moved: Seq<IssueModel>,
    rows: Seq<IssueRow>,
    event: EventModel,
)
    requires
        moves_all(pending, moved),
        rows.len() == moved.len(),
        forall|i: int| 0 <= i < rows.len() ==> is_row_of(#[trigger] rows[i], moved[i]),
        pending.contains_key(event),
    ensures
        exists|i: int|
            0 <= i < rows.len() && #[trigger] rows[i].count == pending[event].count as i64
                && rows[i].event@ == event_text(event),
{
    let i = choose|i: int| 0 <= i < moved.len() && #[trigger] moved[i].event == event;
    assert(is_row_of(rows[i], moved[i]));
    assert(rows[i].count == pending[event].count as i64);
}

/// Reporting counts sightings: after `event` is reported, its issue counts one more
/// sighting than before (one, where it was not pending), and every other pending issue
/// stays as it was.
pub proof fn law_report_counts(
    pending: Map<EventModel, IssueModel>,
    event: EventModel,
    created_at: Seq<char>,
    seen_at: Seq<char>,
    other: EventModel,
)
    requires
        countable(pending, event),
    ensures
        after_report(pending, event, created_at, seen_at).contains_key(event),
        after_report(pending, event, created_at, seen_at)[event].count == (if pending.contains_key(event) {
            pending[event].count + 1
        } else {
            1
        }),
        other != event ==> after_report(pending, event, created_at, seen_at).contains_key(other)
            == pending.contains_key(other),
        other != event ==> after_report(pending, event, created_at, seen_at)[other] == pending[other],
{
}

/// Collects issues as they are reported, and batches them to be written out.
pub struct IssueCollector {
    /// The issues reported since the last batch was taken, one per event.
    pub pending: scc::HashMap<IssueEvent, Issue>,
    /// The issues taken to be written out.
    pub batch: Vec<Issue>,
}

impl IssueCollector {
    /// The pending issues, by their events.
    pub open spec fn pending_model(&self) -> Map<EventModel, IssueModel> {
        pending_issues(self.pending)
    }

    /// The batch, by the values of its issues.
    pub open spec fn batch_model(&self) -> Seq<IssueModel> {
        issue_models(self.batch@)
    }

    /// The collector is well formed: see `pending_wf`.
    pub open spec fn wf(&self) -> bool {
        pending_wf(self.pending_model())
    }

    /// A collector with no pending issue and an empty batch.
    pub fn new() -> (collector: IssueCollector)
        ensures
            collector.wf(),
            collector.pending_model() == no_issues(),
            collector.batch@.len() == 0,
    {
        IssueCollector { pending: new_pending_map(), batch: Vec::new() }
    }

    /// How many times `event` was seen since the last batch was taken, if at all.
    pub fn count_of(&self, event: &IssueEvent) -> (count: Option<usize>)
        ensures
            match count {
                Some(n) => self.pending_model().contains_key(event@) && self.pending_model()[event@].count
                    == n,
                None => !self.pending_model().contains_key(event@),
            },
    {
        match read_pending(&self.pending, event) {
            Some(issue) => Some(issue.count),
            None => None,
        }
    }

    /// Records a sighting of `event`, at `seen_at`, with `created_at` as the creation
    /// time of a new issue: see `after_report`.
    pub fn record(&mut self, event: IssueEvent, created_at: String, seen_at: String)
        requires
            old(self).wf(),
            countable(old(self).pending_model(), event@),
        ensures
            final(self).wf(),
            final(self).pending_model() == after_report(
                old(self).pending_model(),
                event@,
                created_at@,
                seen_at@,
            ),
            forall|other: EventModel|
                other != event@ && #[trigger] old(self).pending_model().contains_key(other)
                    ==> final(self).pending_model().contains_key(other)
                    && final(self).pending_model()[other] == old(self).pending_model()[other],
            final(self).batch@ == old(self).batch@,
    {
        match read_pending(&self.pending, &event) {
            Some(issue) => {
                let updated = Issue { count: issue.count + 1, last_seen: seen_at, ..issue };
                write_pending(&mut self.pending, event, updated);
            },
            None => {
                let issue = Issue {
                    count: 1,
                    eventtype: event.eventtype(),
                    event: event.duplicate(),
                    created_at,
                    last_seen: seen_at,
                    state: IssueState::Open,
                };
                write_pending(&mut self.pending, event, issue);
            },
        }
    }

    /// Reports a sighting of `event`, now: `record` with the clock's times. A pending issue
    /// counts one more sighting; a new one is open and counts one.
    pub fn report(&mut self, event: IssueEvent)
        requires
            old(self).wf(),
            countable(old(self).pending_model(), event@),
        ensures
            final(self).wf(),
            exists|created_at: Seq<char>, seen_at: Seq<char>|
                is_rfc3339_utc(created_at) && is_rfc3339_utc(seen_at) && final(self).pending_model()
                    == after_report(old(self).pending_model(), event@, created_at, seen_at),
            final(self).batch@ == old(self).batch@,
    {
        let seen_at = now_rfc3339();
        let created_at = now_rfc3339();
        self.record(event, created_at, seen_at);
    }

    /// Reports a sighting of `event` where its count can grow, and says whether it did;
    /// where the count is already `usize::MAX`, nothing changes.
    pub fn try_report(&mut self, event: IssueEvent) -> (reported: bool)
        requires
            old(self).wf(),
        ensures
            final(self).wf(),
            reported == countable(old(self).pending_model(), event@),
            reported ==> exists|created_at: Seq<char>, seen_at: Seq<char>|
                is_rfc3339_utc(created_at) && is_rfc3339_utc(seen_at) && final(self).pending_model()
                    == after_report(
                    old(self).pending_model(),
                    event@,
                    created_at,
                    seen_at,
                ),
            !reported ==> final(self).pending_model() == old(self).pending_model(),
            final(self).batch@ == old(self).batch@,
    {
        match self.count_of(&event) {
            Some(n) => {
                if n == usize::MAX {
                    return false;
                }
            },
            None => {},
        }
        self.report(event);
        true
    }

    /// Moves every pending issue to the end of the batch, in some order, and leaves no
    /// issue pending.
    pub fn collect_pending(&mut self)
        requires
            old(self).wf(),
        ensures
            final(self).wf(),
            final(self).pending_model() == no_issues(),
            exists|moved: Seq<IssueModel>|
                moves_all(old(self).pending_model(), moved) && final(self).batch_model()
                    == old(self).batch_model() + moved,
    {
        let ghost pending = self.pending_model();
        let ghost base = self.batch@;
        let mut drained = drain_pending(&mut self.pending);
        let ghost all = drained@;
        let ghost moved = all.map_values(|pair: (IssueEvent, Issue)| pair.1@);
        let ghost mut k: int = 0;
        while drained.len() > 0
            invariant
                0 <= k <= all.len(),
                drained@ == all.subrange(k, all.len() as int),
                self.batch@.len() == base.len() + k,
                forall|j: int| 0 <= j < base.len() ==> #[trigger] self.batch@[j] == base[j],
                forall|j: int| 0 <= j < k ==> #[trigger] self.batch@[base.len() + j] == all[j].1,
                self.pending_model() == no_issues(),
            decreases drained.len(),
        {
            let pair = drained.remove(0);
            assert(pair == all[k]);
            self.batch.push(pair.1);
            proof {
                k = k + 1;
                assert(drained@ =~= all.subrange(k, all.len() as int));
            }
        }
        proof {
            assert(k == all.len());
            assert forall|i: int| 0 <= i < moved.len() implies pending.contains_key(#[trigger] moved[i].event)
                && pending[moved[i].event] == moved[i] by {
                assert(pending.contains_key(all[i].0@));
                assert(pending[all[i].0@].event == all[i].0@);
            }
            assert forall|i: int, j: int| 0 <= i < j < moved.len() implies #[trigger] moved[i].event
                != #[trigger] moved[j].event by {
                assert(pending.contains_key(all[i].0@));
                assert(pending.contains_key(all[j].0@));
                assert(all[i].0@ != all[j].0@);
            }
            assert forall|e: EventModel| #[trigger] pending.contains_key(e) implies exists|i: int|
                0 <= i < moved.len() && #[trigger] moved[i].event == e by {
                let i = choose|i: int| 0 <= i < all.len() && #[trigger] all[i].0@ == e;
                assert(pending[all[i].0@].event == all[i].0@);
                assert(moved[i].event == e);
            }
            assert(moves_all(pending, moved));
            assert forall|j: int| 0 <= j < self.batch@.len() implies #[trigger] self.batch_model()[j]
                == (issue_models(base) + moved)[j] by {
                if j >= base.len() {
                    assert(self.batch@[base.len() + (j - base.len())] == all[j - base.len()].1);
                }
            }
            assert(self.batch_model() =~= issue_models(base) + moved);
        }
    }

    /// The rows that write the batch out, one per issue, in the batch's order.
    pub fn batch_rows(&self) -> (rows: Vec<IssueRow>)
        ensures
            rows.len() == self.batch.len(),
            forall|i: int| 0 <= i < rows.len() ==> is_row_of(#[trigger] rows@[i], self.batch_model()[i]),
            forall|i: int|
                0 <= i < rows.len() ==> #[trigger] rows@[i].count == self.batch_model()[i].count as i64
                    && rows@[i].last_seen@ == self.batch_model()[i].last_seen,
    {
        let mut rows: Vec<IssueRow> = Vec::new();
        let mut i: usize = 0;
        while i < self.batch.len()
            invariant
                i <= self.batch.len(),
                rows.len() == i,
                forall|j: int| 0 <= j < i ==> is_row_of(#[trigger] rows@[j], self.batch_model()[j]),
            decreases self.batch.len() - i,
        {
            let issue = &self.batch[i];
            let row = IssueRow {
                id: uuid_text_of(issue.event.id()),
                event: issue.event.to_string(),
                count: issue.count as i64,
                last_seen: issue.last_seen.clone(),
                state: issue.state.to_string(),
                created_at: issue.created_at.clone(),
            };
            rows.push(row);
            i = i + 1;
        }
        rows
    }

    /// Empties the batch, once it is written out; the pending issues stay.
    pub fn clear_batch(&mut self)
        requires
            old(self).wf(),
        ensures
            final(self).wf(),
            final(self).batch@.len() == 0,
            final(self).pending_model() == old(self).pending_model(),
    {
        self.batch = Vec::new();
    }
}

/// The hexadecimal digit (lowercase) of the value `n` (below 16).
pub open spec fn hex_char(n: u128) -> char {
    if n < 10 {
        (48 + n) as char
    } else {
        (87 + n) as char
    }
}

/// The index, among the 32 digits of a UUID's text, of the character at `j`.
pub open spec fn uuid_digit_index(j: int) -> int {
    if j < 8 {
        j
    } else if j < 13 {
        j - 1
    } else if j < 18 {
        j - 2
    } else if j < 23 {
        j - 3
    } else {
        j - 4
    }
}

/// The hyphenated lowercase text of the UUID whose 128-bit big-endian value is `id`:
/// its 32 hexadecimal digits, most significant first, in groups of 8, 4, 4, 4 and 12.
pub open spec fn uuid_text(id: u128) -> Seq<char> {
    Seq::new(
        36,
        |j: int|
            if j == 8 || j == 13 || j == 18 || j == 23 {
                '-'
            } else {
                hex_char((id >> ((4 * (31 - uuid_digit_index(j))) as u128)) & 0xfu128)
            },
    )
}

/// Wraps `uuid::Uuid::from_u128` followed by `to_string`: the UUID's hyphenated
/// lowercase text (`Display` writes `LowerHex` of `as_hyphenated`), as `uuid_text` says.
#[verifier::external_body]
pub(crate) fn uuid_text_of(id: u128) -> (text: String)
    ensures
        text@ == uuid_text(id),
{
    uuid::Uuid::from_u128(id).to_string()
}

impl IssueState {
    /// The state as text: `open`, `closed` or `ignored`.
    pub fn to_string(&self) -> (text: String)
        ensures
            text@ == issue_state_text(*self),
    {
        match self {
            IssueState::Open => String::from_str("open"),
            IssueState::Closed => String::from_str("closed"),
            IssueState::Ignored => String::from_str("ignored"),
        }
    }
}

impl IssueEvent {
    /// A copy of the event.
    pub fn duplicate(&self) -> (copy: IssueEvent)
        ensures
            copy@ == self@,
    {
        match self {
            IssueEvent::MissingTranslation { locale, key } => IssueEvent::MissingTranslation {
                locale: locale.clone(),
                key: key.clone(),
            },
            IssueEvent::MissingLocale { locale } => IssueEvent::MissingLocale { locale: locale.clone() },
        }
    }

    /// The sentence that describes the event.
    pub fn to_string(&self) -> (text: String)
        ensures
            text@ == event_text(self@),
    {
        match self {
            IssueEvent::MissingTranslation { locale, key } => {
                let mut text = String::from_str("Missing translation for locale '");
                text.append(locale.as_str());
                text.append("' and key '");
                text.append(key.as_str());
                text.append("'");
                text
            },
            IssueEvent::MissingLocale { locale } => {
                let mut text = String::from_str("Missing locale '");
                text.append(locale.as_str());
                text.append("'");
                text
            },
        }
    }

    /// The name of the event's kind: `missing_translation` or `missing_locale`.
    pub fn eventtype(&self) -> (text: String)
        ensures
            text@ == event_type_text(self@),
    {
        match self {
            IssueEvent::MissingTranslation { .. } => String::from_str("missing_translation"),
            IssueEvent::MissingLocale { .. } => String::from_str("missing_locale"),
        }
    }

    /// The name from which the identifier is derived: `MISS:locale:key` or `MISS:locale`.
    pub fn id_name(&self) -> (name: String)
        ensures
            name@ == event_id_name(self@),
            self@ matches EventModel::MissingTranslation { locale, key } ==> name@ == "MISS:"@ + locale
                + ":"@ + key,
    {
        match self {
            IssueEvent::MissingTranslation { locale, key } => {
                let mut name = String::from_str("MISS:");
                name.append(locale.as_str());
                name.append(":");
                name.append(key.as_str());
                name
            },
            IssueEvent::MissingLocale { locale } => {
                let mut name = String::from_str("MISS:");
                name.append(locale.as_str());
                name
            },
        }
    }

    /// The event's identifier: the version 5 UUID, in the OID namespace, of the UTF-8
    /// bytes of its name.
    pub fn id(&self) -> (id: u128)
        ensures
            id == oid_uuid_v5(encode_utf8(event_id_name(self@))),
            is_version_5_uuid(id),
    {
        let name = self.id_name();
        uuid_v5_in_oid_namespace(name.as_str().as_bytes())
    }
}

} // verus!
