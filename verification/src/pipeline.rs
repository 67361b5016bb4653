//! The way of one picture through the pipeline, and the bookkeeping that
//! keeps the number of pictures under way within a bound.
//!
//! Nothing here downloads, converts or uploads. The caller does that work
//! and reports how it ended; the types below decide what comes next.

use vstd::prelude::*;
use crate::image_source::{Image, ImageView};
use crate::metadata::{Metadata, Tree, TreeView};

verus! {

/// The step at which a picture was given up.
#[derive(Debug, Copy, Clone, PartialEq, Eq, Structural)]
pub enum DropReason {
    Download,
    Metadata,
    Conversion,
    Upload,
}

/// Where a picture stands.
#[derive(Debug, Copy, Clone, PartialEq, Eq, Structural)]
pub enum Stage {
    /// Its bytes are being fetched.
    Downloading,
    /// Its metadata is being read and its renditions are being made.
    Processing,
    /// Both renditions are being uploaded.
    Uploading(Metadata),
    /// Everything succeeded.
    Done(Metadata),
    /// A step failed; the picture leaves no record.
    Dropped(DropReason),
}

/// How a piece of outside work ended.
#[derive(Debug, Copy, Clone, PartialEq, Eq, Structural)]
pub enum Event {
    /// The download ended; `true` if the bytes arrived.
    Downloaded(bool),
    /// Both the metadata reader and the converter ended.
    Processed { metadata: Option<Metadata>, converted: bool },
    /// Both uploads ended.
    Uploaded { small: bool, large: bool },
}

/// What the caller does next for the picture.
#[derive(Debug, Copy, Clone, PartialEq, Eq, Structural)]
pub enum Action {
    /// Read the metadata and convert, both from the downloaded bytes.
    Process,
    /// Upload the two renditions.
    Upload,
    /// Nothing is left to do: the picture has its record.
    Finish,
    /// Give the picture up.
    Drop(DropReason),
    /// The event does not belong to the stage; nothing changed.
    Ignore,
}

impl Stage {
    /// Whether the picture is between the start of its download and the end
    /// of its uploads.
    pub open spec fn is_active(self) -> bool {
        self is Downloading || self is Processing || self is Uploading
    }

    /// The stage that follows `self` on `event`.
    pub open spec fn after(self, event: Event) -> Stage {
        match (self, event) {
            (Stage::Downloading, Event::Downloaded(true)) => Stage::Processing,
            (Stage::Downloading, Event::Downloaded(false)) => Stage::Dropped(DropReason::Download),
            (Stage::Processing, Event::Processed { metadata: None, .. }) => Stage::Dropped(
                DropReason::Metadata,
            ),
            (Stage::Processing, Event::Processed { metadata: Some(_), converted: false }) => {
                Stage::Dropped(DropReason::Conversion)
            },
            (Stage::Processing, Event::Processed { metadata: Some(found), converted: true }) => {
                Stage::Uploading(found)
            },
            (Stage::Uploading(found), Event::Uploaded { small: true, large: true }) => Stage::Done(
                found,
            ),
            (Stage::Uploading(_), Event::Uploaded { .. }) => Stage::Dropped(DropReason::Upload),
            _ => self,
        }
    }

    /// What the caller is told when `event` meets `self`.
    pub open spec fn action(self, event: Event) -> Action {
        if !self.is_active() || self.after(event) == self {
            Action::Ignore
        } else {
            match self.after(event) {
                Stage::Downloading => Action::Ignore,
                Stage::Processing => Action::Process,
                Stage::Uploading(_) => Action::Upload,
                Stage::Done(_) => Action::Finish,
                Stage::Dropped(reason) => Action::Drop(reason),
            }
        }
    }

    /// The stage after a run of events, taken in order.
    pub open spec fn after_all(self, events: Seq<Event>) -> Stage
        decreases events.len(),
    {
        if events.len() == 0 {
            self
        } else {
            self.after_all(events.drop_last()).after(events.last())
        }
    }

    pub fn active(&self) -> (r: bool)
        ensures
            r == self.is_active(),
    {
        match self {
            Stage::Downloading | Stage::Processing | Stage::Uploading(_) => true,
            Stage::Done(_) | Stage::Dropped(_) => false,
        }
    }

    /// Takes one step: the next stage, and what the caller does now.
    pub fn advance(self, event: Event) -> (r: (Stage, Action))
        ensures
            r.0 == self.after(event),
            r.1 == self.action(event),
    {
        match self {
            Stage::Downloading => match event {
                Event::Downloaded(true) => (Stage::Processing, Action::Process),
                Event::Downloaded(false) => (
                    Stage::Dropped(DropReason::Download),
                    Action::Drop(DropReason::Download),
                ),
                _ => (self, Action::Ignore),
            },
            Stage::Processing => match event {
                Event::Processed { metadata: None, .. } => (
                    Stage::Dropped(DropReason::Metadata),
                    Action::Drop(DropReason::Metadata),
                ),
                Event::Processed { metadata: Some(_), converted: false } => (
                    Stage::Dropped(DropReason::Conversion),
                    Action::Drop(DropReason::Conversion),
                ),
                Event::Processed { metadata: Some(found), converted: true } => (
                    Stage::Uploading(found),
                    Action::Upload,
                ),
                _ => (self, Action::Ignore),
            },
            Stage::Uploading(found) => match event {
                Event::Uploaded { small: true, large: true } => (Stage::Done(found), Action::Finish),
                Event::Uploaded { .. } => (
                    Stage::Dropped(DropReason::Upload),
                    Action::Drop(DropReason::Upload),
                ),
                _ => (self, Action::Ignore),
            },
            Stage::Done(_) => (self, Action::Ignore),
            Stage::Dropped(_) => (self, Action::Ignore),
        }
    }

    /// A picture that is done or dropped stays so, whatever is reported of it.
    pub proof fn lemma_settled_is_final(self, events: Seq<Event>)
        requires
            !self.is_active(),
        ensures
            self.after_all(events) == self,
        decreases events.len(),
    {
        if events.len() > 0 {
            self.lemma_settled_is_final(events.drop_last());
        }
    }

    /// A picture is being processed only after its download succeeded.
    pub proof fn lemma_processing_follows_download(events: Seq<Event>)
        requires
            Stage::Downloading.after_all(events) is Processing,
        ensures
            exists|i: int| 0 <= i < events.len() && #[trigger] events[i] == Event::Downloaded(true),
        decreases events.len(),
    {
        if events.len() > 0 {
            let before = events.drop_last();
            if Stage::Downloading.after_all(before) is Processing {
                Self::lemma_processing_follows_download(before);
                let i = choose|i: int|
                    0 <= i < before.len() && #[trigger] before[i] == Event::Downloaded(true);
                assert(events[i] == before[i]);
            } else {
                assert(events[events.len() - 1] == Event::Downloaded(true));
            }
        }
    }

    /// A picture is being uploaded only after its download succeeded and,
    /// later, its metadata was read and its renditions were made.
    pub proof fn lemma_uploading_follows_processing(events: Seq<Event>, found: Metadata)
        requires
            Stage::Downloading.after_all(events) == Stage::Uploading(found),
        ensures
            exists|i: int, j: int|
                0 <= i < j < events.len() && #[trigger] events[i] == Event::Downloaded(true)
                    && #[trigger] events[j] == (Event::Processed {
                    metadata: Some(found),
                    converted: true,
                }),
        decreases events.len(),
    {
        if events.len() > 0 {
            let before = events.drop_last();
            if Stage::Downloading.after_all(before) == Stage::Uploading(found) {
                Self::lemma_uploading_follows_processing(before, found);
                let (i, j) = choose|i: int, j: int|
                    0 <= i < j < before.len() && #[trigger] before[i] == Event::Downloaded(true)
                        && #[trigger] before[j] == (Event::Processed {
                        metadata: Some(found),
                        converted: true,
                    });
                assert(events[i] == before[i] && events[j] == before[j]);
            } else {
                Self::lemma_processing_follows_download(before);
                let i = choose|i: int|
                    0 <= i < before.len() && #[trigger] before[i] == Event::Downloaded(true);
                assert(events[i] == before[i]);
                assert(events[events.len() - 1] == (Event::Processed {
                    metadata: Some(found),
                    converted: true,
                }));
            }
        }
    }

    /// A record is made only of a picture whose download succeeded, whose
    /// metadata was then read and whose renditions were then made, and
    /// whose two uploads then both succeeded: the record holds just the
    /// metadata that was read.
    pub proof fn lemma_record_needs_every_step(events: Seq<Event>, found: Metadata)
        requires
            Stage::Downloading.after_all(events) == Stage::Done(found),
        ensures
            exists|i: int, j: int, k: int|
                0 <= i < j < k < events.len() && #[trigger] events[i] == Event::Downloaded(true)
                    && #[trigger] events[j] == (Event::Processed {
                    metadata: Some(found),
                    converted: true,
                }) && #[trigger] events[k] == (Event::Uploaded { small: true, large: true }),
        decreases events.len(),
    {
        if events.len() > 0 {
            let before = events.drop_last();
            if Stage::Downloading.after_all(before) == Stage::Done(found) {
                Self::lemma_record_needs_every_step(before, found);
                let (i, j, k) = choose|i: int, j: int, k: int|
                    0 <= i < j < k < before.len() && #[trigger] before[i] == Event::Downloaded(
                        true,
                    ) && #[trigger] before[j] == (Event::Processed {
                        metadata: Some(found),
                        converted: true,
                    }) && #[trigger] before[k] == (Event::Uploaded { small: true, large: true });
                assert(events[i] == before[i] && events[j] == before[j] && events[k] == before[k]);
            } else {
                Self::lemma_uploading_follows_processing(before, found);
                let (i, j) = choose|i: int, j: int|
                    0 <= i < j < before.len() && #[trigger] before[i] == Event::Downloaded(true)
                        && #[trigger] before[j] == (Event::Processed {
                        metadata: Some(found),
                        converted: true,
                    });
                assert(events[i] == before[i] && events[j] == before[j]);
                assert(events[events.len() - 1] == (Event::Uploaded { small: true, large: true }));
            }
        }
    }

    /// The stage after `events` followed by `more`.
    pub proof fn lemma_after_all_concat(self, events: Seq<Event>, more: Seq<Event>)
        ensures
            self.after_all(events + more) == self.after_all(events).after_all(more),
        decreases more.len(),
    {
        if more.len() == 0 {
            assert(events + more =~= events);
        } else {
            assert((events + more).drop_last() =~= events + more.drop_last());
            assert((events + more).last() == more.last());
            self.lemma_after_all_concat(events, more.drop_last());
        }
    }
}

/// One picture that was let into the pipeline, and where it stands.
pub struct EntryView {
    pub image: ImageView,
    pub stage: Stage,
}

/// The number of entries that are under way.
pub open spec fn active_count(entries: Seq<EntryView>) -> nat
    decreases entries.len(),
{
    if entries.len() == 0 {
        0
    } else {
        active_count(entries.drop_last()) + if entries.last().stage.is_active() {
            1nat
        } else {
            0nat
        }
    }
}

/// The record of a finished entry.
pub open spec fn record_of(entry: EntryView) -> Option<TreeView> {
    match entry.stage {
        Stage::Done(found) => Some(
            TreeView { image: entry.image, location: found.location, timestamp: found.timestamp },
        ),
        _ => None,
    }
}

/// The records of the finished entries, in the order of admission.
pub open spec fn records(entries: Seq<EntryView>) -> Seq<TreeView>
    decreases entries.len(),
{
    if entries.len() == 0 {
        Seq::empty()
    } else {
        match record_of(entries.last()) {
            Some(tree) => records(entries.drop_last()).push(tree),
            None => records(entries.drop_last()),
        }
    }
}

/// The entries after `event` was reported of the picture with `ticket`.
/// A ticket that was never handed out changes nothing.
pub open spec fn apply(entries: Seq<EntryView>, ticket: int, event: Event) -> Seq<EntryView> {
    if 0 <= ticket < entries.len() {
        entries.update(
            ticket,
            EntryView { image: entries[ticket].image, stage: entries[ticket].stage.after(event) },
        )
    } else {
        entries
    }
}

/// The answer to `event` reported of the picture with `ticket`.
pub open spec fn answer(entries: Seq<EntryView>, ticket: int, event: Event) -> Action {
    if 0 <= ticket < entries.len() {
        entries[ticket].stage.action(event)
    } else {
        Action::Ignore
    }
}

/// The entries after a run of reports, each the ticket of a picture and
/// what happened to it.
pub open spec fn run(entries: Seq<EntryView>, trace: Seq<(int, Event)>) -> Seq<EntryView>
    decreases trace.len(),
{
    if trace.len() == 0 {
        entries
    } else {
        apply(run(entries, trace.drop_last()), trace.last().0, trace.last().1)
    }
}

/// The events of `trace` that were reported of `ticket`, in order.
pub open spec fn events_of(trace: Seq<(int, Event)>, ticket: int) -> Seq<Event>
    decreases trace.len(),
{
    if trace.len() == 0 {
        Seq::empty()
    } else if trace.last().0 == ticket {
        events_of(trace.drop_last(), ticket).push(trace.last().1)
    } else {
        events_of(trace.drop_last(), ticket)
    }
}

/// Everything a picture needs to end with a record, in order.
pub open spec fn success_story(found: Metadata) -> Seq<Event> {
    seq![
        Event::Downloaded(true),
        Event::Processed { metadata: Some(found), converted: true },
        Event::Uploaded { small: true, large: true },
    ]
}

proof fn lemma_active_count_push(entries: Seq<EntryView>, entry: EntryView)
    ensures
        active_count(entries.push(entry)) == active_count(entries) + if entry.stage.is_active() {
            1nat
        } else {
            0nat
        },
{
    assert(entries.push(entry).drop_last() =~= entries);
}

proof fn lemma_active_count_update(entries: Seq<EntryView>, at: int, entry: EntryView)
    requires
        0 <= at < entries.len(),
    ensures
        active_count(entries.update(at, entry)) + (if entries[at].stage.is_active() {
            1nat
        } else {
            0nat
        }) == active_count(entries) + (if entry.stage.is_active() {
            1nat
        } else {
            0nat
        }),
    decreases entries.len(),
{
    if at == entries.len() - 1 {
        assert(entries.update(at, entry).drop_last() =~= entries.drop_last());
    } else {
        assert(entries.update(at, entry).drop_last() =~= entries.drop_last().update(at, entry));
        lemma_active_count_update(entries.drop_last(), at, entry);
    }
}

/// Reports about one picture never touch another: after any run, each
/// picture stands where its own events alone would have brought it, and no
/// picture is added, lost or exchanged.
pub proof fn lemma_pictures_are_independent(entries: Seq<EntryView>, trace: Seq<(int, Event)>)
    ensures
        run(entries, trace).len() == entries.len(),
        forall|t: int|
            0 <= t < entries.len() ==> (#[trigger] run(entries, trace)[t]).image
                == entries[t].image,
        forall|t: int|
            0 <= t < entries.len() ==> (#[trigger] run(entries, trace)[t]).stage
                == entries[t].stage.after_all(events_of(trace, t)),
    decreases trace.len(),
{
    if trace.len() > 0 {
        let before = trace.drop_last();
        lemma_pictures_are_independent(entries, before);
        let ticket = trace.last().0;
        assert forall|t: int| 0 <= t < entries.len() implies (#[trigger] run(
            entries,
            trace,
        )[t]).stage == entries[t].stage.after_all(events_of(trace, t)) by {
            if t == ticket {
                assert(events_of(trace, t).drop_last() =~= events_of(before, t));
            }
        }
    }
}

/// With any number of pictures at the start of their download: if the
/// download of one of them fails while each of the others goes through
/// every step,
/// in whatever order the reports come in, then each of the others ends with
/// its record, the one that failed leaves none, and the records are one
/// fewer than the pictures.
pub proof fn lemma_one_failure_costs_one_record(
    entries: Seq<EntryView>,
    trace: Seq<(int, Event)>,
    failed: int,
    found: Seq<Metadata>,
)
    requires
        0 <= failed < entries.len(),
        found.len() == entries.len(),
        forall|t: int| 0 <= t < entries.len() ==> (#[trigger] entries[t]).stage is Downloading,
        events_of(trace, failed).len() > 0,
        events_of(trace, failed)[0] == Event::Downloaded(false),
        forall|t: int|
            0 <= t < entries.len() && t != failed ==> #[trigger] events_of(trace, t)
                == success_story(found[t]),
    ensures
        run(entries, trace).len() == entries.len(),
        record_of(run(entries, trace)[failed]) is None,
        forall|t: int|
            0 <= t < entries.len() && t != failed ==> record_of(#[trigger] run(entries, trace)[t])
                == Some(
                TreeView {
                    image: entries[t].image,
                    location: found[t].location,
                    timestamp: found[t].timestamp,
                },
            ),
        records(run(entries, trace)).len() == entries.len() - 1,
{
    lemma_pictures_are_independent(entries, trace);
    let end = run(entries, trace);
    let own = events_of(trace, failed);
    assert(end[failed].stage == Stage::Dropped(DropReason::Download)) by {
        let first = seq![own[0]];
        let rest = own.subrange(1, own.len() as int);
        assert(own =~= first + rest);
        let start = entries[failed].stage;
        start.lemma_after_all_concat(first, rest);
        assert(first.drop_last() =~= Seq::<Event>::empty());
        assert(start.after_all(first.drop_last()) == start);
        assert(start.after_all(first) == Stage::Dropped(DropReason::Download));
        Stage::Dropped(DropReason::Download).lemma_settled_is_final(rest);
    }
    assert forall|t: int| 0 <= t < entries.len() && t != failed implies (#[trigger] end[t]).stage
        == Stage::Done(found[t]) by {
        lemma_success_story(entries[t].stage, found[t]);
        assert(events_of(trace, t) == success_story(found[t]));
    }
    lemma_records_count(end, failed);
}

/// A picture at the start of its download that goes through every step
/// ends with its record.
pub proof fn lemma_success_story(start: Stage, found: Metadata)
    requires
        start is Downloading,
    ensures
        start.after_all(success_story(found)) == Stage::Done(found),
{
    let story = success_story(found);
    let two = story.drop_last();
    let one = two.drop_last();
    assert(one.drop_last() =~= Seq::<Event>::empty());
    assert(start.after_all(one.drop_last()) == start);
    assert(start.after_all(one) == Stage::Processing);
    assert(start.after_all(two) == Stage::Uploading(found));
}

/// Where all entries but one are done, the records are one fewer than the
/// entries.
proof fn lemma_records_count(entries: Seq<EntryView>, failed: int)
    requires
        0 <= failed < entries.len(),
        !(entries[failed].stage is Done),
        forall|t: int| 0 <= t < entries.len() && t != failed ==> (#[trigger] entries[t]).stage is Done,
    ensures
        records(entries).len() == entries.len() - 1,
    decreases entries.len(),
{
    let rest = entries.drop_last();
    if failed == entries.len() - 1 {
        lemma_records_all_done(rest);
    } else {
        lemma_records_count(rest, failed);
    }
}

/// Where every entry is done, there are as many records as entries.
proof fn lemma_records_all_done(entries: Seq<EntryView>)
    requires
        forall|t: int| 0 <= t < entries.len() ==> (#[trigger] entries[t]).stage is Done,
    ensures
        records(entries).len() == entries.len(),
    decreases entries.len(),
{
    if entries.len() > 0 {
        lemma_records_all_done(entries.drop_last());
    }
}

/// Each record belongs to a picture that was let in and is done.
pub proof fn lemma_records_come_from_entries(entries: Seq<EntryView>)
    ensures
        forall|k: int|
            0 <= k < records(entries).len() ==> exists|t: int|
                0 <= t < entries.len() && record_of(#[trigger] entries[t]) == Some(
                    #[trigger] records(entries)[k],
                ),
    decreases entries.len(),
{
    if entries.len() > 0 {
        let rest = entries.drop_last();
        lemma_records_come_from_entries(rest);
        assert forall|k: int| 0 <= k < records(entries).len() implies exists|t: int|
            0 <= t < entries.len() && record_of(#[trigger] entries[t]) == Some(
                #[trigger] records(entries)[k],
            ) by {
            if k < records(rest).len() {
                let t = choose|t: int|
                    0 <= t < rest.len() && record_of(#[trigger] rest[t]) == Some(records(rest)[k]);
                assert(entries[t] == rest[t]);
            } else {
                assert(record_of(entries[entries.len() - 1]) == Some(records(entries)[k]));
            }
        }
    }
}

/// Where no two pictures let in share an id, no two records do: the
/// result holds at most one record for an id.
pub proof fn lemma_one_record_per_id(entries: Seq<EntryView>)
    requires
        forall|i: int, j: int|
            0 <= i < j < entries.len() ==> (#[trigger] entries[i]).image.id != (
            #[trigger] entries[j]).image.id,
    ensures
        forall|a: int, b: int|
            0 <= a < b < records(entries).len() ==> (#[trigger] records(entries)[a]).image.id != (
            #[trigger] records(entries)[b]).image.id,
    decreases entries.len(),
{
    if entries.len() > 0 {
        let rest = entries.drop_last();
        assert forall|i: int, j: int| 0 <= i < j < rest.len() implies (#[trigger] rest[i]).image.id
            != (#[trigger] rest[j]).image.id by {
            assert(rest[i] == entries[i] && rest[j] == entries[j]);
        }
        lemma_one_record_per_id(rest);
        lemma_records_come_from_entries(rest);
        assert forall|a: int, b: int| 0 <= a < b < records(entries).len() implies (
        #[trigger] records(entries)[a]).image.id != (#[trigger] records(entries)[b]).image.id by {
            if b >= records(rest).len() {
                let t = choose|t: int|
                    0 <= t < rest.len() && record_of(#[trigger] rest[t]) == Some(records(rest)[a]);
                assert(rest[t] == entries[t]);
                assert(records(entries)[b].image == entries[entries.len() - 1].image);
            }
        }
    }
}

/// The records as plain values.
pub open spec fn tree_views(trees: Seq<Tree>) -> Seq<TreeView> {
    trees.map_values(|tree: Tree| tree@)
}

/// The book of every picture let into the pipeline. It lets a picture in
/// only while fewer than `limit` are under way, routes each report to the
/// picture it is about, and hands out the records once the crawl has ended
/// and no picture is under way any more.
pub struct Orchestrator {
    limit: usize,
    images: Vec<Image>,
    stages: Vec<Stage>,
    active: usize,
    closed: bool,
}

impl Orchestrator {
    /// The most pictures that may be under way at once.
    pub closed spec fn limit(&self) -> nat {
        self.limit as nat
    }

    /// Every picture let in so far, in the order of admission. The ticket
    /// of a picture is its place in this sequence.
    pub closed spec fn entries(&self) -> Seq<EntryView> {
        Seq::new(
            self.images@.len(),
            |i: int| EntryView { image: self.images@[i]@, stage: self.stages@[i] },
        )
    }

    /// Whether the crawl has ended.
    pub closed spec fn is_closed(&self) -> bool {
        self.closed
    }

    /// The book is in order: it knows how many pictures are under way,
    /// and they are no more than the limit.
    pub closed spec fn wf(&self) -> bool {
        &&& self.images@.len() == self.stages@.len()
        &&& self.active == active_count(self.entries())
        &&& self.active <= self.limit
    }

    /// The number of pictures under way.
    pub open spec fn in_flight(&self) -> nat {
        active_count(self.entries())
    }

    /// Whether another picture may be let in.
    pub open spec fn has_room(&self) -> bool {
        !self.is_closed() && self.in_flight() < self.limit()
    }

    /// Whether the crawl has ended and every picture let in is done or
    /// dropped.
    pub open spec fn is_settled(&self) -> bool {
        self.is_closed() && self.in_flight() == 0
    }

    /// At no time are more than `limit` pictures under way.
    pub proof fn lemma_bound(&self)
        requires
            self.wf(),
        ensures
            self.in_flight() <= self.limit(),
    {
    }

    pub fn new(limit: usize) -> (r: Self)
        ensures
            r.wf(),
            r.limit() == limit,
            r.entries() == Seq::<EntryView>::empty(),
            !r.is_closed(),
    {
        let r = Orchestrator {
            limit,
            images: Vec::new(),
            stages: Vec::new(),
            active: 0,
            closed: false,
        };
        assert(r.entries() =~= Seq::<EntryView>::empty());
        r
    }

    pub fn has_slot(&self) -> (r: bool)
        requires
            self.wf(),
        ensures
            r == self.has_room(),
    {
        !self.closed && self.active < self.limit
    }

    /// The number of pictures under way.
    pub fn active(&self) -> (r: usize)
        requires
            self.wf(),
        ensures
            r == self.in_flight(),
    {
        self.active
    }

    /// Lets a picture in, at the start of its download, and gives its
    /// ticket. Where there is no room the picture comes back unchanged.
    pub fn let_in(&mut self, image: Image) -> (r: Result<usize, Image>)
        requires
            old(self).wf(),
        ensures
            final(self).wf(),
            final(self).limit() == old(self).limit(),
            final(self).is_closed() == old(self).is_closed(),
            old(self).has_room() ==> (r matches Ok(ticket) && ticket == old(self).entries().len()
                && final(self).entries() == old(self).entries().push(
                EntryView { image: image@, stage: Stage::Downloading },
            )),
            !old(self).has_room() ==> (r matches Err(back) && back == image && final(self).entries()
                == old(self).entries()),
    {
        if self.closed || self.active >= self.limit {
            return Err(image);
        }
        let ticket = self.images.len();
        proof {
            lemma_active_count_push(
                self.entries(),
                EntryView { image: image@, stage: Stage::Downloading },
            );
            assert(old(self).entries().push(EntryView { image: image@, stage: Stage::Downloading })
                =~= Seq::new(
                self.images@.push(image).len(),
                |i: int|
                    EntryView {
                        image: self.images@.push(image)[i]@,
                        stage: self.stages@.push(Stage::Downloading)[i],
                    },
            ));
        }
        self.images.push(image);
        self.stages.push(Stage::Downloading);
        self.active = self.active + 1;
        Ok(ticket)
    }

    /// Takes the report of what happened to the picture with `ticket` and
    /// says what to do next for it. No other picture is touched.
    pub fn on_event(&mut self, ticket: usize, event: Event) -> (r: Action)
        requires
            old(self).wf(),
        ensures
            final(self).wf(),
            final(self).limit() == old(self).limit(),
            final(self).is_closed() == old(self).is_closed(),
            final(self).entries() == apply(old(self).entries(), ticket as int, event),
            r == answer(old(self).entries(), ticket as int, event),
    {
        if ticket >= self.stages.len() {
            return Action::Ignore;
        }
        let was = self.stages[ticket];
        let (next, action) = was.advance(event);
        proof {
            lemma_active_count_update(
                self.entries(),
                ticket as int,
                EntryView { image: self.images@[ticket as int]@, stage: next },
            );
            assert(apply(self.entries(), ticket as int, event) =~= Seq::new(
                self.images@.len(),
                |i: int|
                    EntryView {
                        image: self.images@[i]@,
                        stage: self.stages@.update(ticket as int, next)[i],
                    },
            ));
        }
        self.stages.set(ticket, next);
        if was.active() && !next.active() {
            self.active = self.active - 1;
        }
        action
    }

    /// Marks the end of the crawl: no picture is let in from now on.
    pub fn close(&mut self)
        requires
            old(self).wf(),
        ensures
            final(self).wf(),
            final(self).is_closed(),
            final(self).limit() == old(self).limit(),
            final(self).entries() == old(self).entries(),
    {
        self.closed = true;
    }

    pub fn is_complete(&self) -> (r: bool)
        requires
            self.wf(),
        ensures
            r == self.is_settled(),
    {
        self.closed && self.active == 0
    }

    /// Where the picture with `ticket` stands.
    pub fn stage(&self, ticket: usize) -> (r: Option<Stage>)
        requires
            self.wf(),
        ensures
            ticket < self.entries().len() ==> r == Some(self.entries()[ticket as int].stage),
            ticket >= self.entries().len() ==> r is None,
    {
        if ticket < self.stages.len() {
            Some(self.stages[ticket])
        } else {
            None
        }
    }

    /// Ends the run and hands out the record of every picture that is done,
    /// in the order of admission. Before the crawl has ended, or while a
    /// picture is still under way, there is nothing to hand out.
    pub fn into_trees(self) -> (r: Option<Vec<Tree>>)
        requires
            self.wf(),
        ensures
            self.is_settled() ==> (r matches Some(trees) && tree_views(trees@) == records(
                self.entries(),
            )),
            !self.is_settled() ==> r is None,
    {
        if !self.closed || self.active != 0 {
            return None;
        }
        let mut trees: Vec<Tree> = Vec::new();
        let mut i: usize = 0;
        assert(self.entries().take(0) =~= Seq::<EntryView>::empty());
        while i < self.images.len()
            invariant
                self.images@.len() == self.stages@.len(),
                i <= self.images@.len(),
                tree_views(trees@) =~= records(self.entries().take(i as int)),
            decreases self.images@.len() - i,
        {
            proof {
                assert(self.entries().take(i + 1).drop_last() =~= self.entries().take(i as int));
                assert(self.entries().take(i + 1).last() == self.entries()[i as int]);
            }
            match self.stages[i] {
                Stage::Done(found) => {
                    let tree = Tree {
                        image: self.images[i].duplicate(),
                        location: found.location,
                        timestamp: found.timestamp,
                    };
                    trees.push(tree);
                },
                _ => {},
            }
            i += 1;
        }
        assert(self.entries().take(i as int) =~= self.entries());
        Some(trees)
    }
}

} // verus!
