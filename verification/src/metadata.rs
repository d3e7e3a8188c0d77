//! The metadata aggregator: a pure state machine folding events, strictly in
//! arrival order, into a structural snapshot of the job and a completion
//! flag.

use vstd::prelude::*;
use vstd::string::*;
use crate::decimal::Decimal;
use crate::event::{
    FfmpegEvent, FfmpegInput, FfmpegOutput, FfmpegStream, InputModel, OutputModel, StreamModel,
    EventModel, input_model, output_model, stream_model, event_model,
};

verus! {

/// Mathematical image of the aggregate.
#[verifier::ext_equal]
pub ghost struct MetaModel {
    pub expected_output_streams: nat,
    pub outputs: Seq<OutputModel>,
    pub output_streams: Seq<StreamModel>,
    pub inputs: Seq<InputModel>,
    pub input_streams: Seq<StreamModel>,
    pub completed: bool,
}

/// The aggregate before any event has arrived.
pub open spec fn initial_meta() -> MetaModel {
    MetaModel {
        expected_output_streams: 0,
        outputs: Seq::empty(),
        output_streams: Seq::empty(),
        inputs: Seq::empty(),
        input_streams: Seq::empty(),
        completed: false,
    }
}

/// The completion predicate: some output streams were announced by the
/// stream mapping, and exactly that many have been collected.
pub open spec fn meta_complete_cond(m: MetaModel) -> bool {
    m.expected_output_streams > 0 && m.output_streams.len() == m.expected_output_streams
}

/// One aggregation step. `None` is the failure of the call: an update after
/// completion, or a duration referencing an input that was never registered;
/// the aggregate is left intact in both cases.
pub open spec fn meta_step(m: MetaModel, e: EventModel) -> Option<MetaModel> {
    if m.completed {
        None
    } else {
        let m1 = match e {
            EventModel::StreamMappingEntry(_) => Some(
                MetaModel { expected_output_streams: m.expected_output_streams + 1, ..m },
            ),
            EventModel::Input(im) => Some(MetaModel { inputs: m.inputs.push(im), ..m }),
            EventModel::Output(om) => Some(MetaModel { outputs: m.outputs.push(om), ..m }),
            EventModel::Duration(idx, dur, _raw) => if idx < m.inputs.len() {
                Some(
                    MetaModel {
                        inputs: m.inputs.update(
                            idx as int,
                            InputModel { duration: Some(dur), ..m.inputs[idx as int] },
                        ),
                        ..m
                    },
                )
            } else {
                None
            },
            EventModel::OutputStream(sm) => Some(
                MetaModel { output_streams: m.output_streams.push(sm), ..m },
            ),
            EventModel::InputStream(sm) => Some(
                MetaModel { input_streams: m.input_streams.push(sm), ..m },
            ),
            _ => Some(m),
        };
        match m1 {
            Some(m2) => Some(MetaModel { completed: meta_complete_cond(m2), ..m2 }),
            None => None,
        }
    }
}

/// The aggregate structural description of the job in progress.
#[derive(Clone, Debug, PartialEq)]
pub struct FfmpegMetadata {
    expected_output_streams: usize,
    pub outputs: Vec<FfmpegOutput>,
    pub output_streams: Vec<FfmpegStream>,
    pub inputs: Vec<FfmpegInput>,
    pub input_streams: Vec<FfmpegStream>,
    /// Whether all expected metadata has been gathered.
    completed: bool,
}

impl View for FfmpegMetadata {
    type V = MetaModel;

    closed spec fn view(&self) -> MetaModel {
        MetaModel {
            expected_output_streams: self.expected_output_streams as nat,
            outputs: Seq::new(self.outputs@.len(), |i: int| output_model(self.outputs@[i])),
            output_streams: Seq::new(
                self.output_streams@.len(),
                |i: int| stream_model(self.output_streams@[i]),
            ),
            inputs: Seq::new(self.inputs@.len(), |i: int| input_model(self.inputs@[i])),
            input_streams: Seq::new(
                self.input_streams@.len(),
                |i: int| stream_model(self.input_streams@[i]),
            ),
            completed: self.completed,
        }
    }
}

impl FfmpegMetadata {
    pub fn new() -> (r: Self)
        ensures
            r@ == initial_meta(),
    {
        let r = FfmpegMetadata {
            expected_output_streams: 0,
            outputs: Vec::new(),
            output_streams: Vec::new(),
            inputs: Vec::new(),
            input_streams: Vec::new(),
            completed: false,
        };
        proof {
            assert(r@ =~= initial_meta());
        }
        r
    }

    pub fn is_completed(&self) -> (b: bool)
        ensures
            b == self@.completed,
    {
        self.completed
    }

    /// A shortcut to the expected duration in seconds: the duration of the
    /// first registered input. Inputs beyond the first, possibly with
    /// conflicting durations, are deliberately not reconciled.
    pub fn duration(&self) -> (r: Option<Decimal>)
        requires
            self@.inputs.len() > 0,
        ensures
            r == self@.inputs[0].duration,
    {
        self.inputs[0].duration
    }

    /// Folds one event into the aggregate. Fails, leaving the aggregate
    /// intact, on an update after completion and on a duration event whose
    /// input index was never registered (or when the mapping counter can no
    /// longer grow).
    pub fn handle_event(&mut self, item: &FfmpegEvent) -> (r: Result<(), String>)
        ensures
            ({
                let m0 = old(self)@;
                let em = event_model(*item);
                if m0.completed {
                    *final(self) == *old(self) && (r matches Err(e) && e@
                        == "Metadata is already completed"@)
                } else if em is StreamMappingEntry && m0.expected_output_streams >= usize::MAX {
                    *final(self) == *old(self) && (r matches Err(e) && e@
                        == "too many stream mapping entries"@)
                } else {
                    match meta_step(m0, em) {
                        Some(m2) => r is Ok && final(self)@ == m2,
                        None => *final(self) == *old(self) && (r matches Err(e) && e@
                            == "Duration event references an unregistered input index"@),
                    }
                }
            }),
    {
        if self.completed {
            return Err(String::from_str("Metadata is already completed"));
        }
        let ghost m0 = self@;
        let ghost em = event_model(*item);
        match item {
            FfmpegEvent::ParsedStreamMapping(_) => {
                if self.expected_output_streams == usize::MAX {
                    return Err(String::from_str("too many stream mapping entries"));
                }
                self.expected_output_streams = self.expected_output_streams + 1;
            },
            FfmpegEvent::ParsedInput(input) => {
                self.inputs.push(input.clone());
            },
            FfmpegEvent::ParsedOutput(output) => {
                self.outputs.push(output.clone());
            },
            FfmpegEvent::ParsedDuration(d) => {
                let idx = d.input_index as usize;
                if idx >= self.inputs.len() {
                    return Err(
                        String::from_str("Duration event references an unregistered input index"),
                    );
                }
                let updated = FfmpegInput {
                    index: self.inputs[idx].index,
                    duration: Some(d.duration),
                    raw_log_message: self.inputs[idx].raw_log_message.clone(),
                };
                self.inputs.set(idx, updated);
            },
            FfmpegEvent::ParsedOutputStream(st) => {
                self.output_streams.push(st.clone());
            },
            FfmpegEvent::ParsedInputStream(st) => {
                self.input_streams.push(st.clone());
            },
            _ => {},
        }
        let ghost m1 = self@;
        proof {
            match em {
                EventModel::StreamMappingEntry(_) => {
                    assert(m1 =~= MetaModel {
                        expected_output_streams: m0.expected_output_streams + 1,
                        ..m0
                    });
                },
                EventModel::Input(im) => {
                    assert(m1 =~= MetaModel { inputs: m0.inputs.push(im), ..m0 });
                },
                EventModel::Output(om) => {
                    assert(m1 =~= MetaModel { outputs: m0.outputs.push(om), ..m0 });
                },
                EventModel::Duration(idx, dur, _raw) => {
                    assert(m1 =~= MetaModel {
                        inputs: m0.inputs.update(
                            idx as int,
                            InputModel { duration: Some(dur), ..m0.inputs[idx as int] },
                        ),
                        ..m0
                    });
                },
                EventModel::OutputStream(sm) => {
                    assert(m1 =~= MetaModel { output_streams: m0.output_streams.push(sm), ..m0 });
                },
                EventModel::InputStream(sm) => {
                    assert(m1 =~= MetaModel { input_streams: m0.input_streams.push(sm), ..m0 });
                },
                _ => {
                    assert(m1 =~= m0);
                },
            }
        }
        if self.expected_output_streams > 0 && self.output_streams.len()
            == self.expected_output_streams {
            self.completed = true;
        }
        proof {
            assert(self@ =~= MetaModel { completed: meta_complete_cond(m1), ..m1 });
        }
        Ok(())
    }
}

/// Folding a whole sequence of events, stopping at the first failure.
pub open spec fn meta_fold(m: MetaModel, evs: Seq<EventModel>) -> Option<MetaModel>
    decreases evs.len(),
{
    if evs.len() == 0 {
        Some(m)
    } else {
        match meta_step(m, evs[0]) {
            Some(m1) => meta_fold(m1, evs.drop_first()),
            None => None,
        }
    }
}

pub proof fn lemma_meta_fold_append(m: MetaModel, a: Seq<EventModel>, b: Seq<EventModel>)
    ensures
        meta_fold(m, a + b) == match meta_fold(m, a) {
            Some(m1) => meta_fold(m1, b),
            None => None::<MetaModel>,
        },
    decreases a.len(),
{
    if a.len() == 0 {
        assert(a + b =~= b);
    } else {
        assert((a + b)[0] == a[0]);
        match meta_step(m, a[0]) {
            Some(m1) => {
                assert((a + b).drop_first() =~= a.drop_first() + b);
                lemma_meta_fold_append(m1, a.drop_first(), b);
            },
            None => {},
        }
    }
}

/// Folding stream-mapping entries only raises the expected-output-stream
/// counter; with no output stream collected yet, completion cannot fire.
proof fn lemma_fold_mappings(m: MetaModel, evs: Seq<EventModel>)
    requires
        !m.completed,
        m.output_streams.len() == 0,
        forall|i: int| 0 <= i < evs.len() ==> evs[i] is StreamMappingEntry,
    ensures
        meta_fold(m, evs) matches Some(m1) && m1 == (MetaModel {
            expected_output_streams: m.expected_output_streams + evs.len(),
            ..m
        }),
    decreases evs.len(),
{
    if evs.len() == 0 {
        assert(m =~= MetaModel { expected_output_streams: m.expected_output_streams + 0, ..m });
    } else {
        assert(evs[0] is StreamMappingEntry);
        let m1 = meta_step(m, evs[0])->Some_0;
        assert(!m1.completed && m1.output_streams.len() == 0);
        lemma_fold_mappings(m1, evs.drop_first());
        assert(meta_fold(m1, evs.drop_first())->Some_0 =~= MetaModel {
            expected_output_streams: m.expected_output_streams + evs.len(),
            ..m
        });
    }
}

/// Folding output-stream events grows the collected list one by one;
/// completion fires exactly when the count reaches the expectation, which can
/// happen no earlier than at the last event folded here.
proof fn lemma_fold_outputs(m: MetaModel, evs: Seq<EventModel>)
    requires
        !m.completed,
        m.expected_output_streams > 0,
        m.output_streams.len() < m.expected_output_streams,
        m.output_streams.len() + evs.len() <= m.expected_output_streams,
        forall|i: int| 0 <= i < evs.len() ==> evs[i] is OutputStream,
    ensures
        meta_fold(m, evs) matches Some(m1) && m1.expected_output_streams
            == m.expected_output_streams && m1.output_streams.len() == m.output_streams.len()
            + evs.len() && m1.completed == (m.output_streams.len() + evs.len()
            == m.expected_output_streams) && m1.inputs == m.inputs && m1.outputs == m.outputs
            && m1.input_streams == m.input_streams,
    decreases evs.len(),
{
    if evs.len() > 0 {
        assert(evs[0] is OutputStream);
        let m1 = meta_step(m, evs[0])->Some_0;
        assert(m1.output_streams.len() == m.output_streams.len() + 1);
        if evs.len() == 1 {
            assert(meta_fold(m1, evs.drop_first()) == Some(m1));
        } else {
            assert(!m1.completed);
            lemma_fold_outputs(m1, evs.drop_first());
        }
    }
}

/// Completion law, first half: from a fresh aggregate, `n` stream-mapping
/// entries followed by exactly `n` output streams (for any `n > 0`) all
/// succeed and reach completion.
pub proof fn lemma_aggregator_completion(evs: Seq<EventModel>, n: nat)
    requires
        n > 0,
        evs.len() == 2 * n,
        forall|i: int| 0 <= i < n ==> evs[i] is StreamMappingEntry,
        forall|i: int| n <= i < 2 * n ==> evs[i] is OutputStream,
    ensures
        meta_fold(initial_meta(), evs) matches Some(m) && m.completed,
{
    let a = evs.subrange(0, n as int);
    let b = evs.subrange(n as int, 2 * n as int);
    assert(evs =~= a + b);
    lemma_meta_fold_append(initial_meta(), a, b);
    lemma_fold_mappings(initial_meta(), a);
    let m1 = meta_fold(initial_meta(), a)->Some_0;
    assert(m1.expected_output_streams == n);
    lemma_fold_outputs(m1, b);
}

/// Completion law, second half: announcing one mapping entry more than the
/// output streams that follow does not reach completion under the stated
/// predicate.
pub proof fn lemma_aggregator_incomplete(evs: Seq<EventModel>, n: nat)
    requires
        evs.len() == 2 * n + 1,
        forall|i: int| 0 <= i < n + 1 ==> evs[i] is StreamMappingEntry,
        forall|i: int| n + 1 <= i < 2 * n + 1 ==> evs[i] is OutputStream,
    ensures
        meta_fold(initial_meta(), evs) matches Some(m) && !m.completed,
{
    let a = evs.subrange(0, n + 1 as int);
    let b = evs.subrange(n + 1 as int, 2 * n + 1 as int);
    assert(evs =~= a + b);
    lemma_meta_fold_append(initial_meta(), a, b);
    lemma_fold_mappings(initial_meta(), a);
    let m1 = meta_fold(initial_meta(), a)->Some_0;
    assert(m1.expected_output_streams == n + 1);
    lemma_fold_outputs(m1, b);
}

/// Completion law, third half: once the aggregate is complete, every further
/// update fails.
pub proof fn lemma_completed_rejects_updates(m: MetaModel, e: EventModel)
    requires
        m.completed,
    ensures
        meta_step(m, e) is None,
{
}

} // verus!
