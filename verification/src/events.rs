//! Which Forgejo events are forwarded: the table of event types and the
//! `X-Forgejo-Event` values they arrive under, and the subscription filter.

use vstd::prelude::*;

use crate::text::{
    insert_sorted, insert_sorted_str, join, join_spec, join_strs, lemma_insert_sorted,
    lemma_normalize_names, name_set, normalize, normalize_names, opt_view, push_nonempty, str_eq,
    str_views, strictly_sorted, trim_spec, views,
};

verus! {

/// The number of entries in the table of Forgejo events.
pub const EVENT_SPEC_COUNT: usize = 28;

/// Entry `i` of the table of Forgejo events: its event type and the
/// `X-Forgejo-Event` it is sent under (empty where Forgejo sends none).
pub open spec fn event_spec_entry(i: usize) -> (Seq<char>, Seq<char>) {
    match i {
        0 => ("create"@, "create"@),
        1 => ("delete"@, "delete"@),
        2 => ("fork"@, "fork"@),
        3 => ("push"@, "push"@),
        4 => ("issues"@, "issues"@),
        5 => ("issue_assign"@, "issues"@),
        6 => ("issue_label"@, "issues"@),
        7 => ("issue_milestone"@, "issues"@),
        8 => ("issue_comment"@, "issue_comment"@),
        9 => ("pull_request"@, "pull_request"@),
        10 => ("pull_request_assign"@, "pull_request"@),
        11 => ("pull_request_label"@, "pull_request"@),
        12 => ("pull_request_milestone"@, "pull_request"@),
        13 => ("pull_request_comment"@, "issue_comment"@),
        14 => ("pull_request_review_approved"@, "pull_request_approved"@),
        15 => ("pull_request_review_rejected"@, "pull_request_rejected"@),
        16 => ("pull_request_review_comment"@, "pull_request_comment"@),
        17 => ("pull_request_sync"@, "pull_request"@),
        18 => ("pull_request_review_request"@, "pull_request"@),
        19 => ("wiki"@, "wiki"@),
        20 => ("repository"@, "repository"@),
        21 => ("release"@, "release"@),
        22 => ("package"@, ""@),
        23 => ("schedule"@, ""@),
        24 => ("workflow_dispatch"@, ""@),
        25 => ("action_run_failure"@, "action_run_failure"@),
        26 => ("action_run_recover"@, "action_run_recover"@),
        27 => ("action_run_success"@, "action_run_success"@),
        _ => (Seq::empty(), Seq::empty()),
    }
}

/// Entry `i` of the table of Forgejo events; two empty names outside it.
pub open spec fn event_spec_at(i: int) -> (Seq<char>, Seq<char>) {
    if 0 <= i < EVENT_SPEC_COUNT {
        event_spec_entry(i as usize)
    } else {
        (Seq::empty(), Seq::empty())
    }
}

/// Entry `i` of the table of Forgejo events.
fn event_spec(i: usize) -> (res: (&'static str, &'static str))
    requires
        i < EVENT_SPEC_COUNT,
    ensures
        res.0@ == event_spec_at(i as int).0,
        res.1@ == event_spec_at(i as int).1,
{
    match i {
        0 => ("create", "create"),
        1 => ("delete", "delete"),
        2 => ("fork", "fork"),
        3 => ("push", "push"),
        4 => ("issues", "issues"),
        5 => ("issue_assign", "issues"),
        6 => ("issue_label", "issues"),
        7 => ("issue_milestone", "issues"),
        8 => ("issue_comment", "issue_comment"),
        9 => ("pull_request", "pull_request"),
        10 => ("pull_request_assign", "pull_request"),
        11 => ("pull_request_label", "pull_request"),
        12 => ("pull_request_milestone", "pull_request"),
        13 => ("pull_request_comment", "issue_comment"),
        14 => ("pull_request_review_approved", "pull_request_approved"),
        15 => ("pull_request_review_rejected", "pull_request_rejected"),
        16 => ("pull_request_review_comment", "pull_request_comment"),
        17 => ("pull_request_sync", "pull_request"),
        18 => ("pull_request_review_request", "pull_request"),
        19 => ("wiki", "wiki"),
        20 => ("repository", "repository"),
        21 => ("release", "release"),
        22 => ("package", ""),
        23 => ("schedule", ""),
        24 => ("workflow_dispatch", ""),
        25 => ("action_run_failure", "action_run_failure"),
        26 => ("action_run_recover", "action_run_recover"),
        _ => ("action_run_success", "action_run_success"),
    }
}

/// The event type of table entry `i`.
pub open spec fn event_type_at(i: int) -> Seq<char> {
    event_spec_at(i).0
}

/// The `X-Forgejo-Event` of table entry `i`.
pub open spec fn wire_event_at(i: int) -> Seq<char> {
    event_spec_at(i).1
}

/// The first entry at or after `i` whose event type is `name`.
pub open spec fn find_type_from(name: Seq<char>, i: int) -> Option<int>
    decreases EVENT_SPEC_COUNT - i,
{
    if i < 0 || i >= EVENT_SPEC_COUNT {
        None
    } else if event_type_at(i) == name {
        Some(i)
    } else {
        find_type_from(name, i + 1)
    }
}

/// The first entry at or after `i` whose (non-empty) `X-Forgejo-Event` is
/// `name`.
pub open spec fn find_wire_from(name: Seq<char>, i: int) -> Option<int>
    decreases EVENT_SPEC_COUNT - i,
{
    if i < 0 || i >= EVENT_SPEC_COUNT {
        None
    } else if wire_event_at(i).len() > 0 && wire_event_at(i) == name {
        Some(i)
    } else {
        find_wire_from(name, i + 1)
    }
}

/// What a configured event name stands for: an event type, or else an
/// `X-Forgejo-Event` value; each with the index of its table entry.
#[derive(PartialEq, Eq, Structural, Clone, Copy, Debug)]
pub enum EventMatch {
    EventType(usize),
    WireEvent(usize),
}

/// The meaning of a configured event name: an event type where one has that
/// name, else an `X-Forgejo-Event` value where one has it, else nothing.
pub open spec fn lookup_spec(name: Seq<char>) -> Option<EventMatch> {
    match find_type_from(name, 0) {
        Some(i) => Some(EventMatch::EventType(i as usize)),
        None => match find_wire_from(name, 0) {
            Some(i) => Some(EventMatch::WireEvent(i as usize)),
            None => None,
        },
    }
}

/// The meaning of a configured event name.
pub fn lookup(name: &str) -> (res: Option<EventMatch>)
    ensures
        res == lookup_spec(name@),
        res matches Some(EventMatch::EventType(k)) ==> k < EVENT_SPEC_COUNT && event_type_at(
            k as int,
        ) == name@,
        res matches Some(EventMatch::WireEvent(k)) ==> k < EVENT_SPEC_COUNT && wire_event_at(
            k as int,
        ) == name@,
{
    let mut i: usize = 0;
    while i < EVENT_SPEC_COUNT
        invariant
            i <= EVENT_SPEC_COUNT,
            find_type_from(name@, 0) == find_type_from(name@, i as int),
        decreases EVENT_SPEC_COUNT - i,
    {
        let entry = event_spec(i);
        if str_eq(entry.0, name) {
            return Some(EventMatch::EventType(i));
        }
        i = i + 1;
    }
    let mut i: usize = 0;
    while i < EVENT_SPEC_COUNT
        invariant
            i <= EVENT_SPEC_COUNT,
            find_type_from(name@, 0) is None,
            find_wire_from(name@, 0) == find_wire_from(name@, i as int),
        decreases EVENT_SPEC_COUNT - i,
    {
        let entry = event_spec(i);
        if !entry.1.is_empty() && str_eq(entry.1, name) {
            return Some(EventMatch::WireEvent(i));
        }
        i = i + 1;
    }
    None
}

/// The non-empty names of the first `k` table entries, each entry's event
/// type before its `X-Forgejo-Event`.
pub open spec fn table_names(k: int) -> Seq<Seq<char>>
    decreases k,
{
    if k <= 0 {
        Seq::empty()
    } else {
        push_nonempty(push_nonempty(table_names(k - 1), event_type_at(k - 1)), wire_event_at(k - 1))
    }
}

/// The names inserted one by one, in order, into an ordered list without
/// repeats.
pub open spec fn sorted_names(names: Seq<Seq<char>>) -> Seq<Seq<char>>
    decreases names.len(),
{
    if names.len() == 0 {
        Seq::empty()
    } else {
        insert_sorted(sorted_names(names.drop_last()), names.last())
    }
}

/// Every name a configuration may use, ordered, each once.
pub open spec fn valid_names_spec() -> Seq<Seq<char>> {
    sorted_names(table_names(EVENT_SPEC_COUNT as int))
}

/// Every name a configuration may use: the event types and the
/// `X-Forgejo-Event` values, ordered, each once.
pub fn valid_names() -> (res: Vec<&'static str>)
    ensures
        str_views(res@) == valid_names_spec(),
{
    let mut names: Vec<&'static str> = Vec::new();
    let mut i: usize = 0;
    while i < EVENT_SPEC_COUNT
        invariant
            i <= EVENT_SPEC_COUNT,
            str_views(names@) == sorted_names(table_names(i as int)),
        decreases EVENT_SPEC_COUNT - i,
    {
        let entry = event_spec(i);
        let ghost before = table_names(i as int);
        let ghost with_type = push_nonempty(before, event_type_at(i as int));
        if !entry.0.is_empty() {
            names = insert_sorted_str(names, entry.0);
            assert(with_type.drop_last() =~= before);
        }
        assert(str_views(names@) == sorted_names(with_type));
        if !entry.1.is_empty() {
            names = insert_sorted_str(names, entry.1);
            assert(push_nonempty(with_type, wire_event_at(i as int)).drop_last() =~= with_type);
        }
        i = i + 1;
    }
    names
}

/// The names that stand for no event, in order.
pub open spec fn invalid_names(names: Seq<Seq<char>>) -> Seq<Seq<char>>
    decreases names.len(),
{
    if names.len() == 0 {
        Seq::empty()
    } else if lookup_spec(names.last()) is None {
        invalid_names(names.drop_last()).push(names.last())
    } else {
        invalid_names(names.drop_last())
    }
}

/// The names that a configuration lists.
#[derive(Clone, Debug)]
pub struct EventNames(Vec<String>);

impl View for EventNames {
    type V = Seq<Seq<char>>;

    closed spec fn view(&self) -> Seq<Seq<char>> {
        views(self.0@)
    }
}

impl EventNames {
    /// The names, as given.
    pub fn new(names: Vec<String>) -> (res: Self)
        ensures
            res@ == views(names@),
    {
        EventNames(names)
    }
}

/// Why a list of event names is refused.
#[derive(Debug)]
pub enum EventConfigError {
    /// No name is left once blank ones are dropped.
    Empty,
    /// Some names stand for no event.
    Invalid { invalid: String, valid: String },
}

/// An `EventConfigError` with its texts as character sequences.
pub enum EventConfigErrorView {
    Empty,
    Invalid { invalid: Seq<char>, valid: Seq<char> },
}

impl View for EventConfigError {
    type V = EventConfigErrorView;

    open spec fn view(&self) -> EventConfigErrorView {
        match self {
            EventConfigError::Empty => EventConfigErrorView::Empty,
            EventConfigError::Invalid { invalid, valid } => EventConfigErrorView::Invalid {
                invalid: invalid@,
                valid: valid@,
            },
        }
    }
}

/// The refusal that a list of configured names meets, if any.
pub open spec fn event_config_error_spec(names: Seq<Seq<char>>) -> Option<EventConfigErrorView> {
    let ns = normalize_names(names);
    if ns.len() == 0 {
        Some(EventConfigErrorView::Empty)
    } else if invalid_names(ns).len() > 0 {
        Some(
            EventConfigErrorView::Invalid {
                invalid: join_spec(invalid_names(ns), ", "@),
                valid: join_spec(valid_names_spec(), ", "@),
            },
        )
    } else {
        None
    }
}

/// The message of an `EventConfigError`.
pub open spec fn event_config_message(e: EventConfigErrorView) -> Seq<char> {
    match e {
        EventConfigErrorView::Empty => "no Forgejo events configured; set FORGEJO_EVENTS or forgejo.events"@,
        EventConfigErrorView::Invalid { invalid, valid } => "invalid Forgejo event names: "@ + invalid
            + ". valid names: "@ + valid,
    }
}

impl EventConfigError {
    /// The error's message.
    pub fn to_string(&self) -> (res: String)
        ensures
            res@ == event_config_message(self@),
    {
        match self {
            EventConfigError::Empty => {
                "no Forgejo events configured; set FORGEJO_EVENTS or forgejo.events".to_owned()
            },
            EventConfigError::Invalid { invalid, valid } => {
                let mut res: String = "invalid Forgejo event names: ".to_owned();
                res.append(invalid.as_str());
                res.append(". valid names: ");
                res.append(valid.as_str());
                res
            },
        }
    }
}

/// The event type that a configured name subscribes to, if it names one.
pub open spec fn type_of(name: Seq<char>) -> Option<Seq<char>> {
    match lookup_spec(name) {
        Some(EventMatch::EventType(_)) => Some(name),
        _ => None,
    }
}

/// The `X-Forgejo-Event` that a configured name subscribes to by name.
pub open spec fn wire_of(name: Seq<char>) -> Option<Seq<char>> {
    match lookup_spec(name) {
        Some(EventMatch::WireEvent(_)) => Some(name),
        _ => None,
    }
}

/// The `X-Forgejo-Event` that stands for a configured event type when a
/// request carries no event type.
pub open spec fn fallback_of(name: Seq<char>) -> Option<Seq<char>> {
    match lookup_spec(name) {
        Some(EventMatch::EventType(i)) => if wire_event_at(i as int).len() > 0 {
            Some(wire_event_at(i as int))
        } else {
            None
        },
        _ => None,
    }
}

/// The event types that the names subscribe to.
pub open spec fn subscribed_types(names: Seq<Seq<char>>) -> Set<Seq<char>>
    decreases names.len(),
{
    if names.len() == 0 {
        Set::empty()
    } else {
        let rest = subscribed_types(names.drop_last());
        match type_of(names.last()) {
            Some(t) => rest.insert(t),
            None => rest,
        }
    }
}

/// The `X-Forgejo-Event` values that the names subscribe to by name.
pub open spec fn subscribed_wire_events(names: Seq<Seq<char>>) -> Set<Seq<char>>
    decreases names.len(),
{
    if names.len() == 0 {
        Set::empty()
    } else {
        let rest = subscribed_wire_events(names.drop_last());
        match wire_of(names.last()) {
            Some(w) => rest.insert(w),
            None => rest,
        }
    }
}

/// The `X-Forgejo-Event` values of the event types that the names subscribe
/// to.
pub open spec fn fallback_wire_events(names: Seq<Seq<char>>) -> Set<Seq<char>>
    decreases names.len(),
{
    if names.len() == 0 {
        Set::empty()
    } else {
        let rest = fallback_wire_events(names.drop_last());
        match fallback_of(names.last()) {
            Some(w) => rest.insert(w),
            None => rest,
        }
    }
}

/// The sets that decide which requests are forwarded.
pub struct EventFilterView {
    /// Event types, matched against `X-Forgejo-Event-Type`.
    pub event_types: Set<Seq<char>>,
    /// `X-Forgejo-Event` values subscribed to by name.
    pub explicit_wire_events: Set<Seq<char>>,
    /// `X-Forgejo-Event` values of the subscribed event types, used when a
    /// request carries no event type.
    pub fallback_wire_events: Set<Seq<char>>,
}

/// The filter that valid, normalized names give.
pub open spec fn filter_view_spec(names: Seq<Seq<char>>) -> EventFilterView {
    EventFilterView {
        event_types: subscribed_types(names),
        explicit_wire_events: subscribed_wire_events(names),
        fallback_wire_events: fallback_wire_events(names),
    }
}

/// Whether a request with this `X-Forgejo-Event` and, where present,
/// `X-Forgejo-Event-Type` is forwarded.
pub open spec fn subscribed_spec(
    filter: EventFilterView,
    event: Seq<char>,
    event_type: Option<Seq<char>>,
) -> bool {
    match event_type {
        Some(t) => filter.event_types.contains(t) || filter.explicit_wire_events.contains(event),
        None => filter.explicit_wire_events.contains(event) || filter.fallback_wire_events.contains(
            event,
        ),
    }
}

/// Whether some table entry has `name` as its event type.
pub open spec fn is_event_type(name: Seq<char>) -> bool {
    exists|i: int| 0 <= i < EVENT_SPEC_COUNT && event_type_at(i) == name
}

/// Whether some table entry has `name` as its `X-Forgejo-Event`.
pub open spec fn is_wire_event(name: Seq<char>) -> bool {
    exists|i: int| 0 <= i < EVENT_SPEC_COUNT && wire_event_at(i) == name
}

/// Whether a request's event headers name events that Forgejo documents.
pub open spec fn known_spec(event: Seq<char>, event_type: Option<Seq<char>>) -> bool {
    &&& (event.len() == 0 || is_wire_event(event))
    &&& match event_type {
        Some(t) => is_event_type(t),
        None => true,
    }
}

/// Whether `s` is among the strings of `v`.
fn contains_str(v: &Vec<String>, s: &str) -> (res: bool)
    ensures
        res == views(v@).contains(s@),
{
    let mut i: usize = 0;
    while i < v.len()
        invariant
            i <= v@.len(),
            forall|k: int| 0 <= k < i ==> views(v@)[k] != s@,
        decreases v@.len() - i,
    {
        if str_eq(v[i].as_str(), s) {
            assert(views(v@)[i as int] == s@);
            return true;
        }
        i = i + 1;
    }
    false
}

/// Which Forgejo events are forwarded.
#[derive(Clone, Debug)]
pub struct EventFilter {
    event_types: Vec<String>,
    explicit_wire_events: Vec<String>,
    fallback_wire_events: Vec<String>,
}

impl View for EventFilter {
    type V = EventFilterView;

    closed spec fn view(&self) -> EventFilterView {
        EventFilterView {
            event_types: views(self.event_types@).to_set(),
            explicit_wire_events: views(self.explicit_wire_events@).to_set(),
            fallback_wire_events: views(self.fallback_wire_events@).to_set(),
        }
    }
}

impl EventFilter {
    /// The filter for the configured names: each name, trimmed, stands for an
    /// event type or else an `X-Forgejo-Event`; blank names are dropped.
    pub fn new(names: EventNames) -> (res: Result<Self, EventConfigError>)
        ensures
            match res {
                Ok(filter) => event_config_error_spec(names@) is None && filter@ == filter_view_spec(
                    normalize_names(names@),
                ),
                Err(e) => event_config_error_spec(names@) == Some(e@),
            },
    {
        let raw: Vec<String> = names.0;
        let ns: Vec<String> = normalize(&raw);
        let ghost norm = views(ns@);
        if ns.len() == 0 {
            return Err(EventConfigError::Empty);
        }
        let mut invalid: Vec<String> = Vec::new();
        let mut event_types: Vec<String> = Vec::new();
        let mut explicit_wire_events: Vec<String> = Vec::new();
        let mut fallback: Vec<String> = Vec::new();
        let mut j: usize = 0;
        while j < ns.len()
            invariant
                j <= ns@.len(),
                norm == views(ns@),
                views(invalid@) == invalid_names(norm.take(j as int)),
                views(event_types@).to_set() == subscribed_types(norm.take(j as int)),
                views(explicit_wire_events@).to_set() == subscribed_wire_events(
                    norm.take(j as int),
                ),
                views(fallback@).to_set() == fallback_wire_events(norm.take(j as int)),
            decreases ns@.len() - j,
        {
            let name: &str = ns[j].as_str();
            let ghost prefix = norm.take(j + 1);
            assert(prefix.drop_last() =~= norm.take(j as int));
            assert(prefix.last() == name@);
            let ghost types_before = views(event_types@);
            let ghost wires_before = views(explicit_wire_events@);
            let ghost fallback_before = views(fallback@);
            let ghost invalid_before = views(invalid@);
            match lookup(name) {
                Some(EventMatch::EventType(k)) => {
                    let entry = event_spec(k);
                    event_types.push(name.to_owned());
                    assert(views(event_types@) =~= types_before.push(name@));
                    proof {
                        types_before.lemma_push_to_set_commute(name@);
                    }
                    if !entry.1.is_empty() {
                        fallback.push(entry.1.to_owned());
                        assert(views(fallback@) =~= fallback_before.push(entry.1@));
                        proof {
                            fallback_before.lemma_push_to_set_commute(entry.1@);
                        }
                    }
                },
                Some(EventMatch::WireEvent(_)) => {
                    explicit_wire_events.push(name.to_owned());
                    assert(views(explicit_wire_events@) =~= wires_before.push(name@));
                    proof {
                        wires_before.lemma_push_to_set_commute(name@);
                    }
                },
                None => {
                    invalid.push(name.to_owned());
                    assert(views(invalid@) =~= invalid_before.push(name@));
                },
            }
            j = j + 1;
        }
        assert(norm.take(ns@.len() as int) =~= norm);
        if invalid.len() > 0 {
            let valid = valid_names();
            return Err(
                EventConfigError::Invalid {
                    invalid: join(&invalid, ", "),
                    valid: join_strs(&valid, ", "),
                },
            );
        }
        Ok(EventFilter { event_types, explicit_wire_events, fallback_wire_events: fallback })
    }

    /// Whether a request is forwarded: with an event type, when that type or
    /// its `X-Forgejo-Event` is subscribed by name; without, when its
    /// `X-Forgejo-Event` is subscribed by name or through an event type.
    pub fn is_subscribed(&self, event: &str, event_type: Option<&str>) -> (res: bool)
        ensures
            res == subscribed_spec(self@, event@, opt_view(event_type)),
    {
        match event_type {
            Some(t) => contains_str(&self.event_types, t) || contains_str(
                &self.explicit_wire_events,
                event,
            ),
            None => contains_str(&self.explicit_wire_events, event) || contains_str(
                &self.fallback_wire_events,
                event,
            ),
        }
    }

    /// Whether a request's event headers name events that Forgejo
    /// documents: an empty or known `X-Forgejo-Event`, and a known event type
    /// where one is given.
    pub fn is_known_incoming(&self, event: &str, event_type: Option<&str>) -> (res: bool)
        ensures
            res == known_spec(event@, opt_view(event_type)),
    {
        let event_known = event.is_empty() || is_wire_event_name(event);
        let type_known = match event_type {
            Some(t) => is_event_type_name(t),
            None => true,
        };
        event_known && type_known
    }
}

/// Whether some table entry has `name` as its `X-Forgejo-Event`.
fn is_wire_event_name(name: &str) -> (res: bool)
    ensures
        res == is_wire_event(name@),
{
    let mut i: usize = 0;
    while i < EVENT_SPEC_COUNT
        invariant
            i <= EVENT_SPEC_COUNT,
            forall|k: int| 0 <= k < i ==> wire_event_at(k) != name@,
        decreases EVENT_SPEC_COUNT - i,
    {
        let entry = event_spec(i);
        if str_eq(entry.1, name) {
            assert(wire_event_at(i as int) == name@);
            return true;
        }
        i = i + 1;
    }
    false
}

/// Whether some table entry has `name` as its event type.
fn is_event_type_name(name: &str) -> (res: bool)
    ensures
        res == is_event_type(name@),
{
    let mut i: usize = 0;
    while i < EVENT_SPEC_COUNT
        invariant
            i <= EVENT_SPEC_COUNT,
            forall|k: int| 0 <= k < i ==> event_type_at(k) != name@,
        decreases EVENT_SPEC_COUNT - i,
    {
        let entry = event_spec(i);
        if str_eq(entry.0, name) {
            assert(event_type_at(i as int) == name@);
            return true;
        }
        i = i + 1;
    }
    false
}

/// A name that a configuration may use: a non-empty event type or
/// `X-Forgejo-Event` of the table.
pub open spec fn is_valid_name(name: Seq<char>) -> bool {
    name.len() > 0 && (is_event_type(name) || is_wire_event(name))
}

/// `find_type_from` finds an entry exactly when one at or after `i` has the
/// name.
proof fn lemma_find_type_from(name: Seq<char>, i: int)
    requires
        0 <= i <= EVENT_SPEC_COUNT,
    ensures
        find_type_from(name, i) is Some <==> exists|k: int|
            i <= k < EVENT_SPEC_COUNT && event_type_at(k) == name,
        find_type_from(name, i) matches Some(k) ==> event_type_at(k) == name,
    decreases EVENT_SPEC_COUNT - i,
{
    if i < EVENT_SPEC_COUNT {
        lemma_find_type_from(name, i + 1);
        if event_type_at(i) != name {
            assert forall|k: int|
                i <= k < EVENT_SPEC_COUNT && event_type_at(k) == name implies i + 1 <= k by {}
        }
    }
}

/// `find_wire_from` finds an entry exactly when one at or after `i` has the
/// name as a non-empty `X-Forgejo-Event`.
proof fn lemma_find_wire_from(name: Seq<char>, i: int)
    requires
        0 <= i <= EVENT_SPEC_COUNT,
    ensures
        find_wire_from(name, i) is Some <==> exists|k: int|
            i <= k < EVENT_SPEC_COUNT && wire_event_at(k) == name && name.len() > 0,
    decreases EVENT_SPEC_COUNT - i,
{
    if i < EVENT_SPEC_COUNT {
        lemma_find_wire_from(name, i + 1);
        if !(wire_event_at(i).len() > 0 && wire_event_at(i) == name) {
            assert forall|k: int|
                i <= k < EVENT_SPEC_COUNT && wire_event_at(k) == name && name.len()
                    > 0 implies i + 1 <= k by {}
        }
    }
}

/// The first `k` entries' names hold exactly their non-empty event types
/// and `X-Forgejo-Event` values.
proof fn lemma_table_names(k: int, name: Seq<char>)
    requires
        0 <= k <= EVENT_SPEC_COUNT,
    ensures
        table_names(k).contains(name) <==> name.len() > 0 && exists|i: int|
            0 <= i < k && (event_type_at(i) == name || wire_event_at(i) == name),
    decreases k,
{
    if k > 0 {
        lemma_table_names(k - 1, name);
        let prev = table_names(k - 1);
        let with_type = push_nonempty(prev, event_type_at(k - 1));
        let all = push_nonempty(with_type, wire_event_at(k - 1));
        assert(with_type.contains(name) <==> prev.contains(name) || (event_type_at(k - 1).len()
            > 0 && name == event_type_at(k - 1))) by {
            if event_type_at(k - 1).len() > 0 {
                if with_type.contains(name) {
                    let m = choose|m: int| 0 <= m < with_type.len() && with_type[m] == name;
                    if m < prev.len() {
                        assert(prev[m] == name);
                    }
                }
                if prev.contains(name) {
                    let m = choose|m: int| 0 <= m < prev.len() && prev[m] == name;
                    assert(with_type[m] == name);
                }
                assert(with_type[prev.len() as int] == event_type_at(k - 1));
            }
        }
        assert(all.contains(name) <==> with_type.contains(name) || (wire_event_at(k - 1).len()
            > 0 && name == wire_event_at(k - 1))) by {
            if wire_event_at(k - 1).len() > 0 {
                if all.contains(name) {
                    let m = choose|m: int| 0 <= m < all.len() && all[m] == name;
                    if m < with_type.len() {
                        assert(with_type[m] == name);
                    }
                }
                if with_type.contains(name) {
                    let m = choose|m: int| 0 <= m < with_type.len() && with_type[m] == name;
                    assert(all[m] == name);
                }
                assert(all[with_type.len() as int] == wire_event_at(k - 1));
            }
        }
        if name.len() > 0 && exists|i: int|
            0 <= i < k && (event_type_at(i) == name || wire_event_at(i) == name) {
            let i = choose|i: int|
                0 <= i < k && (event_type_at(i) == name || wire_event_at(i) == name);
            if i < k - 1 {
                assert(prev.contains(name));
            }
        }
        if all.contains(name) && !prev.contains(name) {
            assert(0 <= k - 1 < k);
        }
    }
}

/// Sorting names one by one gives a strictly ordered list of the same
/// names.
proof fn lemma_sorted_names(names: Seq<Seq<char>>)
    ensures
        strictly_sorted(sorted_names(names)),
        forall|y: Seq<char>| #[trigger] sorted_names(names).contains(y) <==> names.contains(y),
    decreases names.len(),
{
    if names.len() > 0 {
        let prev = names.drop_last();
        lemma_sorted_names(prev);
        lemma_insert_sorted(sorted_names(prev), names.last());
        assert forall|y: Seq<char>| #[trigger] sorted_names(names).contains(y) <==> names.contains(
            y,
        ) by {
            assert(insert_sorted(sorted_names(prev), names.last()).contains(y) <==> (sorted_names(
                prev,
            ).contains(y) || y == names.last()));
            assert(sorted_names(prev).contains(y) <==> prev.contains(y));
            if names.contains(y) {
                let m = choose|m: int| 0 <= m < names.len() && names[m] == y;
                if m < prev.len() {
                    assert(prev[m] == y);
                }
            }
            if prev.contains(y) {
                let m = choose|m: int| 0 <= m < prev.len() && prev[m] == y;
                assert(names[m] == y);
            }
            if y == names.last() {
                assert(names[names.len() - 1] == y);
            }
        }
    }
}

/// Every entry of the table has an event type.
proof fn lemma_event_types_nonempty()
    ensures
        forall|i: int| 0 <= i < EVENT_SPEC_COUNT ==> #[trigger] event_type_at(i).len() > 0,
{
    assert(event_type_at(0).len() > 0) by {
        reveal_strlit("create");
        assert("create"@.len() == 6);
    }
    assert(event_type_at(1).len() > 0) by {
        reveal_strlit("delete");
        assert("delete"@.len() == 6);
    }
    assert(event_type_at(2).len() > 0) by {
        reveal_strlit("fork");
        assert("fork"@.len() == 4);
    }
    assert(event_type_at(3).len() > 0) by {
        reveal_strlit("push");
        assert("push"@.len() == 4);
    }
    assert(event_type_at(4).len() > 0) by {
        reveal_strlit("issues");
        assert("issues"@.len() == 6);
    }
    assert(event_type_at(5).len() > 0) by {
        reveal_strlit("issue_assign");
        assert("issue_assign"@.len() == 12);
    }
    assert(event_type_at(6).len() > 0) by {
        reveal_strlit("issue_label");
        assert("issue_label"@.len() == 11);
    }
    assert(event_type_at(7).len() > 0) by {
        reveal_strlit("issue_milestone");
        assert("issue_milestone"@.len() == 15);
    }
    assert(event_type_at(8).len() > 0) by {
        reveal_strlit("issue_comment");
        assert("issue_comment"@.len() == 13);
    }
    assert(event_type_at(9).len() > 0) by {
        reveal_strlit("pull_request");
        assert("pull_request"@.len() == 12);
    }
    assert(event_type_at(10).len() > 0) by {
        reveal_strlit("pull_request_assign");
        assert("pull_request_assign"@.len() == 19);
    }
    assert(event_type_at(11).len() > 0) by {
        reveal_strlit("pull_request_label");
        assert("pull_request_label"@.len() == 18);
    }
    assert(event_type_at(12).len() > 0) by {
        reveal_strlit("pull_request_milestone");
        assert("pull_request_milestone"@.len() == 22);
    }
    assert(event_type_at(13).len() > 0) by {
        reveal_strlit("pull_request_comment");
        assert("pull_request_comment"@.len() == 20);
    }
    assert(event_type_at(14).len() > 0) by {
        reveal_strlit("pull_request_review_approved");
        assert("pull_request_review_approved"@.len() == 28);
    }
    assert(event_type_at(15).len() > 0) by {
        reveal_strlit("pull_request_review_rejected");
        assert("pull_request_review_rejected"@.len() == 28);
    }
    assert(event_type_at(16).len() > 0) by {
        reveal_strlit("pull_request_review_comment");
        assert("pull_request_review_comment"@.len() == 27);
    }
    assert(event_type_at(17).len() > 0) by {
        reveal_strlit("pull_request_sync");
        assert("pull_request_sync"@.len() == 17);
    }
    assert(event_type_at(18).len() > 0) by {
        reveal_strlit("pull_request_review_request");
        assert("pull_request_review_request"@.len() == 27);
    }
    assert(event_type_at(19).len() > 0) by {
        reveal_strlit("wiki");
        assert("wiki"@.len() == 4);
    }
    assert(event_type_at(20).len() > 0) by {
        reveal_strlit("repository");
        assert("repository"@.len() == 10);
    }
    assert(event_type_at(21).len() > 0) by {
        reveal_strlit("release");
        assert("release"@.len() == 7);
    }
    assert(event_type_at(22).len() > 0) by {
        reveal_strlit("package");
        assert("package"@.len() == 7);
    }
    assert(event_type_at(23).len() > 0) by {
        reveal_strlit("schedule");
        assert("schedule"@.len() == 8);
    }
    assert(event_type_at(24).len() > 0) by {
        reveal_strlit("workflow_dispatch");
        assert("workflow_dispatch"@.len() == 17);
    }
    assert(event_type_at(25).len() > 0) by {
        reveal_strlit("action_run_failure");
        assert("action_run_failure"@.len() == 18);
    }
    assert(event_type_at(26).len() > 0) by {
        reveal_strlit("action_run_recover");
        assert("action_run_recover"@.len() == 18);
    }
    assert(event_type_at(27).len() > 0) by {
        reveal_strlit("action_run_success");
        assert("action_run_success"@.len() == 18);
    }
    assert forall|i: int| 0 <= i < EVENT_SPEC_COUNT implies #[trigger] event_type_at(i).len() > 0 by {
        assert(i == 0 || i == 1 || i == 2 || i == 3 || i == 4 || i == 5 || i == 6 || i == 7
            || i == 8 || i == 9 || i == 10 || i == 11 || i == 12 || i == 13 || i == 14 || i == 15
            || i == 16 || i == 17 || i == 18 || i == 19 || i == 20 || i == 21 || i == 22 || i == 23
            || i == 24 || i == 25 || i == 26 || i == 27);
    }
}

/// The names that configurations may use, as `valid_names` lists them:
/// strictly ordered, so each once, and exactly the non-empty event types
/// and `X-Forgejo-Event` values of the table. A name stands for an event
/// exactly when it is listed.
pub proof fn lemma_valid_names(name: Seq<char>)
    ensures
        strictly_sorted(valid_names_spec()),
        valid_names_spec().contains(name) <==> is_valid_name(name),
        lookup_spec(name) is Some <==> valid_names_spec().contains(name),
{
    lemma_sorted_names(table_names(EVENT_SPEC_COUNT as int));
    lemma_table_names(EVENT_SPEC_COUNT as int, name);
    lemma_find_type_from(name, 0);
    lemma_find_wire_from(name, 0);
    assert(valid_names_spec().contains(name) <==> table_names(EVENT_SPEC_COUNT as int).contains(
        name,
    ));
    lemma_event_types_nonempty();
    if is_event_type(name) {
        let i = choose|i: int| 0 <= i < EVENT_SPEC_COUNT && event_type_at(i) == name;
        assert(event_type_at(i).len() > 0);
    }
}

/// `subscribed_types` holds what `type_of` gives for some name.
proof fn lemma_subscribed_types(names: Seq<Seq<char>>, x: Seq<char>)
    ensures
        subscribed_types(names).contains(x) <==> exists|j: int|
            0 <= j < names.len() && #[trigger] type_of(names[j]) == Some(x),
    decreases names.len(),
{
    if names.len() > 0 {
        let prev = names.drop_last();
        lemma_subscribed_types(prev, x);
        if exists|j: int| 0 <= j < names.len() && #[trigger] type_of(names[j]) == Some(x) {
            let j = choose|j: int| 0 <= j < names.len() && #[trigger] type_of(names[j]) == Some(x);
            if j < prev.len() {
                assert(type_of(prev[j]) == Some(x));
            }
        }
        if exists|j: int| 0 <= j < prev.len() && #[trigger] type_of(prev[j]) == Some(x) {
            let j = choose|j: int| 0 <= j < prev.len() && #[trigger] type_of(prev[j]) == Some(x);
            assert(type_of(names[j]) == Some(x));
        }
        if type_of(names.last()) == Some(x) {
            assert(type_of(names[names.len() - 1]) == Some(x));
        }
    }
}

/// `subscribed_wire_events` holds what `wire_of` gives for some name.
proof fn lemma_subscribed_wire_events(names: Seq<Seq<char>>, x: Seq<char>)
    ensures
        subscribed_wire_events(names).contains(x) <==> exists|j: int|
            0 <= j < names.len() && #[trigger] wire_of(names[j]) == Some(x),
    decreases names.len(),
{
    if names.len() > 0 {
        let prev = names.drop_last();
        lemma_subscribed_wire_events(prev, x);
        if exists|j: int| 0 <= j < names.len() && #[trigger] wire_of(names[j]) == Some(x) {
            let j = choose|j: int| 0 <= j < names.len() && #[trigger] wire_of(names[j]) == Some(x);
            if j < prev.len() {
                assert(wire_of(prev[j]) == Some(x));
            }
        }
        if exists|j: int| 0 <= j < prev.len() && #[trigger] wire_of(prev[j]) == Some(x) {
            let j = choose|j: int| 0 <= j < prev.len() && #[trigger] wire_of(prev[j]) == Some(x);
            assert(wire_of(names[j]) == Some(x));
        }
        if wire_of(names.last()) == Some(x) {
            assert(wire_of(names[names.len() - 1]) == Some(x));
        }
    }
}

/// `fallback_wire_events` holds what `fallback_of` gives for some name.
proof fn lemma_fallback_wire_events(names: Seq<Seq<char>>, x: Seq<char>)
    ensures
        fallback_wire_events(names).contains(x) <==> exists|j: int|
            0 <= j < names.len() && #[trigger] fallback_of(names[j]) == Some(x),
    decreases names.len(),
{
    if names.len() > 0 {
        let prev = names.drop_last();
        lemma_fallback_wire_events(prev, x);
        if exists|j: int| 0 <= j < names.len() && #[trigger] fallback_of(names[j]) == Some(x) {
            let j = choose|j: int| 0 <= j < names.len() && #[trigger] fallback_of(names[j]) == Some(x);
            if j < prev.len() {
                assert(fallback_of(prev[j]) == Some(x));
            }
        }
        if exists|j: int| 0 <= j < prev.len() && #[trigger] fallback_of(prev[j]) == Some(x) {
            let j = choose|j: int| 0 <= j < prev.len() && #[trigger] fallback_of(prev[j]) == Some(x);
            assert(fallback_of(names[j]) == Some(x));
        }
        if fallback_of(names.last()) == Some(x) {
            assert(fallback_of(names[names.len() - 1]) == Some(x));
        }
    }
}

/// What a filter forwards. A request that carries an event type is
/// forwarded exactly when that type is subscribed or its event is
/// subscribed by name; one without is forwarded exactly when its event is
/// subscribed by name or is the `X-Forgejo-Event` of a subscribed type.
pub proof fn lemma_subscription(
    names: Seq<Seq<char>>,
    event: Seq<char>,
    event_type: Option<Seq<char>>,
)
    ensures
        subscribed_spec(filter_view_spec(names), event, event_type) <==> match event_type {
            Some(t) => (names.contains(t) && find_type_from(t, 0) is Some) || (names.contains(event)
                && lookup_spec(event) matches Some(EventMatch::WireEvent(_))),
            None => (names.contains(event) && lookup_spec(event) matches Some(
                EventMatch::WireEvent(_),
            )) || exists|j: int|
                0 <= j < names.len() && #[trigger] fallback_of(names[j]) == Some(event),
        },
{
    lemma_subscribed_wire_events(names, event);
    lemma_fallback_wire_events(names, event);
    if names.contains(event) {
        let j = choose|j: int| 0 <= j < names.len() && names[j] == event;
        assert(wire_of(names[j]) == wire_of(event));
    }
    if exists|j: int| 0 <= j < names.len() && #[trigger] wire_of(names[j]) == Some(event) {
        let j = choose|j: int| 0 <= j < names.len() && #[trigger] wire_of(names[j]) == Some(event);
        assert(names[j] == event);
    }
    if let Some(t) = event_type {
        lemma_subscribed_types(names, t);
        if names.contains(t) {
            let j = choose|j: int| 0 <= j < names.len() && names[j] == t;
            assert(type_of(names[j]) == type_of(t));
        }
        if exists|j: int| 0 <= j < names.len() && #[trigger] type_of(names[j]) == Some(t) {
            let j = choose|j: int| 0 <= j < names.len() && #[trigger] type_of(names[j]) == Some(t);
            assert(names[j] == t);
        }
    }
}

/// What the three sets of a filter hold depends on which names it was made
/// from, not on their order or on repeats.
proof fn lemma_filter_members(names: Seq<Seq<char>>, x: Seq<char>)
    ensures
        subscribed_types(names).contains(x) <==> names.contains(x) && type_of(x) == Some(x),
        subscribed_wire_events(names).contains(x) <==> names.contains(x) && wire_of(x) == Some(x),
        fallback_wire_events(names).contains(x) <==> exists|n: Seq<char>|
            names.contains(n) && #[trigger] fallback_of(n) == Some(x),
{
    lemma_subscribed_types(names, x);
    lemma_subscribed_wire_events(names, x);
    lemma_fallback_wire_events(names, x);
    if names.contains(x) {
        let j = choose|j: int| 0 <= j < names.len() && names[j] == x;
        assert(type_of(names[j]) == type_of(x));
        assert(wire_of(names[j]) == wire_of(x));
    }
    if exists|j: int| 0 <= j < names.len() && #[trigger] type_of(names[j]) == Some(x) {
        let j = choose|j: int| 0 <= j < names.len() && #[trigger] type_of(names[j]) == Some(x);
        assert(names[j] == x);
    }
    if exists|j: int| 0 <= j < names.len() && #[trigger] wire_of(names[j]) == Some(x) {
        let j = choose|j: int| 0 <= j < names.len() && #[trigger] wire_of(names[j]) == Some(x);
        assert(names[j] == x);
    }
    if exists|j: int| 0 <= j < names.len() && #[trigger] fallback_of(names[j]) == Some(x) {
        let j = choose|j: int| 0 <= j < names.len() && #[trigger] fallback_of(names[j]) == Some(x);
        assert(names.contains(names[j]));
    }
    if exists|n: Seq<char>| names.contains(n) && #[trigger] fallback_of(n) == Some(x) {
        let n = choose|n: Seq<char>| names.contains(n) && #[trigger] fallback_of(n) == Some(x);
        let j = choose|j: int| 0 <= j < names.len() && names[j] == n;
        assert(fallback_of(names[j]) == Some(x));
    }
}

/// A filter whose names give no more trimmed, non-blank names than those of
/// another filter subscribes to no set member that the other lacks.
proof fn lemma_filter_subset(a: Seq<Seq<char>>, b: Seq<Seq<char>>)
    requires
        name_set(a).subset_of(name_set(b)),
    ensures
        filter_view_spec(normalize_names(a)).event_types.subset_of(
            filter_view_spec(normalize_names(b)).event_types,
        ),
        filter_view_spec(normalize_names(a)).explicit_wire_events.subset_of(
            filter_view_spec(normalize_names(b)).explicit_wire_events,
        ),
        filter_view_spec(normalize_names(a)).fallback_wire_events.subset_of(
            filter_view_spec(normalize_names(b)).fallback_wire_events,
        ),
{
    let na = normalize_names(a);
    let nb = normalize_names(b);
    assert forall|n: Seq<char>| na.contains(n) implies nb.contains(n) by {
        lemma_normalize_names(a, n);
        lemma_normalize_names(b, n);
    }
    assert forall|x: Seq<char>| #[trigger] subscribed_types(na).contains(x) implies subscribed_types(
        nb,
    ).contains(x) by {
        lemma_filter_members(na, x);
        lemma_filter_members(nb, x);
    }
    assert forall|x: Seq<char>| #[trigger] subscribed_wire_events(na).contains(x) implies subscribed_wire_events(
        nb,
    ).contains(x) by {
        lemma_filter_members(na, x);
        lemma_filter_members(nb, x);
    }
    assert forall|x: Seq<char>| #[trigger] fallback_wire_events(na).contains(x) implies fallback_wire_events(
        nb,
    ).contains(x) by {
        lemma_filter_members(na, x);
        lemma_filter_members(nb, x);
        let n = choose|n: Seq<char>| na.contains(n) && #[trigger] fallback_of(n) == Some(x);
        assert(nb.contains(n));
    }
}

/// Subscriptions depend only on the set of configured names, each trimmed,
/// blank ones left out: their order, repeats, blank entries and surrounding
/// whitespace change nothing.
pub proof fn lemma_subscription_by_name_set(
    a: Seq<Seq<char>>,
    b: Seq<Seq<char>>,
    event: Seq<char>,
    event_type: Option<Seq<char>>,
)
    requires
        name_set(a) == name_set(b),
    ensures
        filter_view_spec(normalize_names(a)) == filter_view_spec(normalize_names(b)),
        subscribed_spec(filter_view_spec(normalize_names(a)), event, event_type)
            == subscribed_spec(filter_view_spec(normalize_names(b)), event, event_type),
{
    lemma_filter_subset(a, b);
    lemma_filter_subset(b, a);
    let fa = filter_view_spec(normalize_names(a));
    let fb = filter_view_spec(normalize_names(b));
    assert(fa.event_types =~= fb.event_types);
    assert(fa.explicit_wire_events =~= fb.explicit_wire_events);
    assert(fa.fallback_wire_events =~= fb.fallback_wire_events);
}

/// Configuring more names never drops a subscription: where every trimmed,
/// non-blank name of `a` is also one of `b`, whatever `a` forwards `b`
/// forwards too.
pub proof fn lemma_subscription_monotone(
    a: Seq<Seq<char>>,
    b: Seq<Seq<char>>,
    event: Seq<char>,
    event_type: Option<Seq<char>>,
)
    requires
        name_set(a).subset_of(name_set(b)),
    ensures
        subscribed_spec(filter_view_spec(normalize_names(a)), event, event_type)
            ==> subscribed_spec(filter_view_spec(normalize_names(b)), event, event_type),
{
    lemma_filter_subset(a, b);
}

/// Names added after the configured ones never drop a subscription.
pub proof fn lemma_subscription_more_names(
    a: Seq<Seq<char>>,
    b: Seq<Seq<char>>,
    event: Seq<char>,
    event_type: Option<Seq<char>>,
)
    ensures
        subscribed_spec(filter_view_spec(normalize_names(a)), event, event_type)
            ==> subscribed_spec(filter_view_spec(normalize_names(a + b)), event, event_type),
{
    assert forall|n: Seq<char>| name_set(a).contains(n) implies name_set(a + b).contains(n) by {
        let j = choose|j: int| 0 <= j < a.len() && #[trigger] trim_spec(a[j]) == n;
        assert(trim_spec((a + b)[j]) == n);
    }
    lemma_subscription_monotone(a, a + b, event, event_type);
}

/// The names that a refusal reports as invalid are exactly the configured
/// names that are not among the valid names.
pub proof fn lemma_invalid_names(names: Seq<Seq<char>>, name: Seq<char>)
    ensures
        invalid_names(names).contains(name) <==> names.contains(name)
            && !valid_names_spec().contains(name),
    decreases names.len(),
{
    lemma_valid_names(name);
    if names.len() > 0 {
        let prev = names.drop_last();
        lemma_invalid_names(prev, name);
        if names.contains(name) {
            let m = choose|m: int| 0 <= m < names.len() && names[m] == name;
            if m < prev.len() {
                assert(prev[m] == name);
            }
        }
        if prev.contains(name) {
            let m = choose|m: int| 0 <= m < prev.len() && prev[m] == name;
            assert(names[m] == name);
        }
        if lookup_spec(names.last()) is None {
            let inv = invalid_names(prev).push(names.last());
            if inv.contains(name) {
                let m = choose|m: int| 0 <= m < inv.len() && inv[m] == name;
                if m < invalid_names(prev).len() {
                    assert(invalid_names(prev)[m] == name);
                } else {
                    assert(names[names.len() - 1] == name);
                }
            }
            if invalid_names(prev).contains(name) {
                let m = choose|m: int|
                    0 <= m < invalid_names(prev).len() && invalid_names(prev)[m] == name;
                assert(inv[m] == name);
            }
            if name == names.last() {
                assert(inv[inv.len() - 1] == name);
            }
        }
    }
}

} // verus!
