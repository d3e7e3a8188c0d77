//! The pull-based bridge from a line source to a sequence of events. Each
//! pushed line yields exactly one event; as a side effect the event is fed
//! into the metadata aggregator until that is complete, so metadata
//! accumulates while the caller consumes events.

use vstd::prelude::*;
use vstd::string::*;
use crate::event::{FfmpegEvent, EventModel, event_model, LogLevel};
use crate::log_parser::{FfmpegLogParser, LogSection, spec_classify};
use crate::metadata::{FfmpegMetadata, MetaModel, initial_meta, meta_step};

verus! {

/// The event-stream state: the line classifier and the metadata aggregate it
/// feeds. The caller owns it exclusively and drives it pull by pull; the
/// reading of lines from the external process stays outside.
pub struct FfmpegEventStream {
    metadata: FfmpegMetadata,
    log_parser: FfmpegLogParser,
}

impl FfmpegEventStream {
    pub closed spec fn metadata_view(&self) -> MetaModel {
        self.metadata@
    }

    pub closed spec fn section(&self) -> LogSection {
        self.log_parser.section()
    }

    pub fn new() -> (r: Self)
        ensures
            r.metadata_view() == initial_meta(),
            r.section() == LogSection::Other,
    {
        FfmpegEventStream { metadata: FfmpegMetadata::new(), log_parser: FfmpegLogParser::new() }
    }

    /// The metadata gathered so far; partial until `is_completed` holds of
    /// it.
    pub fn metadata(&self) -> (r: &FfmpegMetadata)
        ensures
            r@ == self.metadata_view(),
    {
        &self.metadata
    }

    /// One pull: classifies the line (`None` when the source is exhausted,
    /// ending the sequence), feeds the event into the aggregator unless that
    /// is already complete, and yields the event; a classification or
    /// aggregation failure yields a single `Error` event instead and the
    /// sequence continues.
    pub fn push_line(&mut self, line: Option<&str>) -> (r: Option<FfmpegEvent>)
        ensures
            ({
                match line {
                    None => r is None && *final(self) == *old(self),
                    Some(l) => {
                        let sec2 = spec_classify(old(self).section(), l@).0;
                        let em = spec_classify(old(self).section(), l@).1;
                        &&& final(self).section() == sec2
                        &&& if em is UnexpectedStream {
                            final(self).metadata_view() == old(self).metadata_view() && (r matches
                                Some(ev) && event_model(ev) == EventModel::Error(
                                "Unexpected stream specification: "@ + l@,
                            ))
                        } else if old(self).metadata_view().completed {
                            final(self).metadata_view() == old(self).metadata_view() && (r matches
                                Some(ev) && event_model(ev) == em)
                        } else if em is StreamMappingEntry && old(
                            self,
                        ).metadata_view().expected_output_streams >= usize::MAX {
                            final(self).metadata_view() == old(self).metadata_view() && (r matches
                                Some(ev) && event_model(ev) == EventModel::Error(
                                "too many stream mapping entries"@,
                            ))
                        } else {
                            match meta_step(old(self).metadata_view(), em) {
                                Some(m2) => final(self).metadata_view() == m2 && (r matches Some(
                                    ev,
                                ) && event_model(ev) == em),
                                None => final(self).metadata_view() == old(self).metadata_view()
                                    && (r matches Some(ev) && event_model(ev) == EventModel::Error(
                                    "Duration event references an unregistered input index"@,
                                )),
                            }
                        }
                    },
                }
            }),
    {
        match self.log_parser.parse_next_event(line) {
            Err(e) => Some(FfmpegEvent::Error(e)),
            Ok(event) => {
                if event.is_eof() {
                    return None;
                }
                if !self.metadata.is_completed() {
                    match self.metadata.handle_event(&event) {
                        Err(e) => {
                            return Some(FfmpegEvent::Error(e));
                        },
                        Ok(()) => {},
                    }
                }
                Some(event)
            },
        }
    }
}

/// Which text an event contributes to an error report: the payload of an
/// `Error` event or of an error-level log line.
pub open spec fn spec_event_error_text(e: FfmpegEvent) -> Option<Seq<char>> {
    match e {
        FfmpegEvent::Error(t) => Some(t@),
        FfmpegEvent::Log(LogLevel::Error, t) => Some(t@),
        _ => None,
    }
}

/// The error texts of a sequence of events, concatenated in order.
pub open spec fn spec_joined_errors(evs: Seq<FfmpegEvent>) -> Seq<char>
    decreases evs.len(),
{
    if evs.len() == 0 {
        Seq::empty()
    } else {
        (match spec_event_error_text(evs[0]) {
            Some(t) => t,
            None => Seq::empty(),
        }) + spec_joined_errors(evs.drop_first())
    }
}

proof fn lemma_joined_errors_snoc(evs: Seq<FfmpegEvent>, e: FfmpegEvent)
    ensures
        spec_joined_errors(evs.push(e)) == spec_joined_errors(evs) + (
        match spec_event_error_text(e) {
            Some(t) => t,
            None => Seq::<char>::empty(),
        }),
    decreases evs.len(),
{
    if evs.len() == 0 {
        assert(evs.push(e)[0] == e);
        assert(evs.push(e).drop_first() =~= Seq::<FfmpegEvent>::empty());
        assert(spec_joined_errors(evs.push(e).drop_first()) == Seq::<char>::empty());
        assert(spec_joined_errors(evs.push(e)) =~= spec_joined_errors(evs) + (
        match spec_event_error_text(e) {
            Some(t) => t,
            None => Seq::<char>::empty(),
        }));
    } else {
        assert(evs.push(e)[0] == evs[0]);
        assert(evs.push(e).drop_first() =~= evs.drop_first().push(e));
        lemma_joined_errors_snoc(evs.drop_first(), e);
        assert(spec_joined_errors(evs.push(e)) =~= spec_joined_errors(evs) + (
        match spec_event_error_text(e) {
            Some(t) => t,
            None => Seq::<char>::empty(),
        }));
    }
}

/// Concatenates the error texts of the given events, in order: what a caller
/// reports when the stream runs out before the metadata is complete.
pub fn join_error_texts(events: &Vec<FfmpegEvent>) -> (r: String)
    ensures
        r@ == spec_joined_errors(events@),
{
    let mut out = String::new();
    let mut i: usize = 0;
    while i < events.len()
        invariant
            0 <= i <= events@.len(),
            out@ == spec_joined_errors(events@.take(i as int)),
        decreases events@.len() - i,
    {
        let ghost pre = out@;
        match events[i].error_text() {
            Some(t) => {
                out.append(t.as_str());
            },
            None => {},
        }
        proof {
            lemma_joined_errors_snoc(events@.take(i as int), events@[i as int]);
            assert(events@.take(i + 1) =~= events@.take(i as int).push(events@[i as int]));
        }
        i = i + 1;
    }
    assert(events@.take(events@.len() as int) =~= events@);
    out
}

} // verus!
