//! The index program: the ordered steps that turn one record into a document.
//!
//! A compiled schema yields an [`IndexProgram`].  Running it over one record
//! does no engine work by itself: it *plans* the exact engine operations
//! ([`DocOp`]) that an executor then replays against a document and a term
//! generator.  The record enters as a [`RecordView`], the plain encoded form
//! of its fields, produced by the caller's encoders (custom or default).

use crate::schema::DocData;
use crate::stoplist::StopList;
use vstd::prelude::*;

verus! {

/// One step of a compiled index program.
#[derive(Clone, Debug, PartialEq)]
pub enum Step {
    /// Store the field's facet-encoded value in the given value slot.
    EmitFacetValue { slot: usize, field: usize, custom: bool },
    /// Index the field's text-encoded value under the given prefix
    /// (`None`: unprefixed).
    EmitIndexedTerm { field: usize, prefix: Option<String>, custom: bool },
    /// Widen the term-position gap, so that a phrase cannot span from this
    /// field into the next.
    IncreaseTermPos,
    /// Index the whole record's text form, unprefixed.
    EmitFullText { custom: bool },
    /// Store the record's payload bytes on the document.
    SetPayload { mode: DocData },
}

/// The mathematical form of a step: strings as character sequences.
pub enum StepSpec {
    Facet { slot: int, field: int, custom: bool },
    Term { field: int, prefix: Option<Seq<char>>, custom: bool },
    Pos,
    FullText { custom: bool },
    Payload { mode: DocData },
}

impl View for Step {
    type V = StepSpec;

    open spec fn view(&self) -> StepSpec {
        match self {
            Step::EmitFacetValue { slot, field, custom } => StepSpec::Facet {
                slot: *slot as int,
                field: *field as int,
                custom: *custom,
            },
            Step::EmitIndexedTerm { field, prefix, custom } => StepSpec::Term {
                field: *field as int,
                prefix: prefix.deep_view(),
                custom: *custom,
            },
            Step::IncreaseTermPos => StepSpec::Pos,
            Step::EmitFullText { custom } => (StepSpec::FullText { custom: *custom }),
            Step::SetPayload { mode } => (StepSpec::Payload { mode: *mode }),
        }
    }
}

/// A sequence of steps, viewed.
pub open spec fn steps_view(v: Seq<Step>) -> Seq<StepSpec> {
    Seq::new(v.len(), |i: int| v[i]@)
}

/// A step only names fields that the schema has.
pub open spec fn step_wf(s: StepSpec, n_fields: int) -> bool {
    match s {
        StepSpec::Facet { field, .. } => 0 <= field < n_fields,
        StepSpec::Term { field, .. } => 0 <= field < n_fields,
        _ => true,
    }
}

/// The mathematical form of an index program.
pub struct ProgramSpec {
    pub steps: Seq<StepSpec>,
    pub n_fields: int,
    pub lang: Option<Seq<char>>,
    pub stops: Option<Set<Seq<char>>>,
}

impl ProgramSpec {
    /// Every step stays within the schema's field count.
    pub open spec fn wf(self) -> bool {
        forall|i: int| 0 <= i < self.steps.len() ==> step_wf(#[trigger] self.steps[i], self.n_fields)
    }
}

/// The ordered indexing steps for one record type, with the resolved
/// language settings for the term generator.  Compiled once per schema,
/// immutable thereafter, reused for every record instance.
#[derive(Clone, Debug)]
pub struct IndexProgram {
    pub steps: Vec<Step>,
    pub n_fields: usize,
    pub lang: Option<String>,
    pub stoplist: Option<StopList>,
}

impl View for IndexProgram {
    type V = ProgramSpec;

    open spec fn view(&self) -> ProgramSpec {
        ProgramSpec {
            steps: steps_view(self.steps@),
            n_fields: self.n_fields as int,
            lang: self.lang.deep_view(),
            stops: match self.stoplist {
                Some(l) => Some(l@),
                None => None,
            },
        }
    }
}

/// One record, as the plain encoded values the program reads: per field its
/// text-encoded and facet-encoded form, the whole record's text form, and
/// its payload.  The caller's encoders (custom or default) produce these.
#[derive(Clone, Debug, PartialEq)]
pub struct RecordView {
    pub texts: Vec<String>,
    pub values: Vec<String>,
    pub full_text: String,
    pub payload: String,
}

/// The mathematical form of a record's encoded values.
pub struct RecordSpec {
    pub texts: Seq<Seq<char>>,
    pub values: Seq<Seq<char>>,
    pub full_text: Seq<char>,
    pub payload: Seq<char>,
}

impl View for RecordView {
    type V = RecordSpec;

    open spec fn view(&self) -> RecordSpec {
        RecordSpec {
            texts: Seq::new(self.texts@.len(), |i: int| self.texts@[i]@),
            values: Seq::new(self.values@.len(), |i: int| self.values@[i]@),
            full_text: self.full_text@,
            payload: self.payload@,
        }
    }
}

/// One engine operation on a fresh document.
#[derive(Clone, Debug, PartialEq)]
pub enum DocOp {
    /// Store a value in a facet slot.
    SetValue { slot: usize, value: String },
    /// Feed text to the term generator, optionally under a prefix.
    IndexText { text: String, prefix: Option<String> },
    /// Widen the term-position gap.
    IncreaseTermPos,
    /// Store the payload on the document.
    SetData { data: String },
}

/// The mathematical form of an engine operation.
pub enum DocOpSpec {
    SetValue { slot: int, value: Seq<char> },
    IndexText { text: Seq<char>, prefix: Option<Seq<char>> },
    IncreaseTermPos,
    SetData { data: Seq<char> },
}

impl View for DocOp {
    type V = DocOpSpec;

    open spec fn view(&self) -> DocOpSpec {
        match self {
            DocOp::SetValue { slot, value } => DocOpSpec::SetValue {
                slot: *slot as int,
                value: value@,
            },
            DocOp::IndexText { text, prefix } => DocOpSpec::IndexText {
                text: text@,
                prefix: prefix.deep_view(),
            },
            DocOp::IncreaseTermPos => DocOpSpec::IncreaseTermPos,
            DocOp::SetData { data } => (DocOpSpec::SetData { data: data@ }),
        }
    }
}

/// A sequence of operations, viewed.
pub open spec fn doc_ops_view(v: Seq<DocOp>) -> Seq<DocOpSpec> {
    Seq::new(v.len(), |i: int| v[i]@)
}

/// The operation that one step performs on one record.
pub open spec fn op_of_step(s: StepSpec, r: RecordSpec) -> DocOpSpec {
    match s {
        StepSpec::Facet { slot, field, .. } => DocOpSpec::SetValue {
            slot: slot,
            value: r.values[field],
        },
        StepSpec::Term { field, prefix, .. } => DocOpSpec::IndexText {
            text: r.texts[field],
            prefix: prefix,
        },
        StepSpec::Pos => DocOpSpec::IncreaseTermPos,
        StepSpec::FullText { .. } => DocOpSpec::IndexText { text: r.full_text, prefix: None },
        StepSpec::Payload { .. } => DocOpSpec::SetData { data: r.payload },
    }
}

/// The operations a whole program performs on one record: one per step,
/// in program order.
pub open spec fn spec_plan(p: ProgramSpec, r: RecordSpec) -> Seq<DocOpSpec> {
    p.steps.map_values(|s: StepSpec| op_of_step(s, r))
}

fn clone_opt_string(s: &Option<String>) -> (r: Option<String>)
    ensures
        r.deep_view() == s.deep_view(),
{
    match s {
        Some(t) => Some(t.clone()),
        None => None,
    }
}

impl IndexProgram {
    /// Plans the engine operations that index one record: one operation per
    /// step, in program order, each reading the record's encoded values.
    pub fn plan_document(&self, record: &RecordView) -> (ops: Vec<DocOp>)
        requires
            self@.wf(),
            record@.texts.len() == self@.n_fields,
            record@.values.len() == self@.n_fields,
        ensures
            doc_ops_view(ops@) == spec_plan(self@, record@),
    {
        let mut ops: Vec<DocOp> = Vec::new();
        let mut i: usize = 0;
        while i < self.steps.len()
            invariant
                i <= self.steps@.len(),
                self@.wf(),
                record@.texts.len() == self@.n_fields,
                record@.values.len() == self@.n_fields,
                record.texts@.len() == self.n_fields,
                record.values@.len() == self.n_fields,
                ops@.len() == i,
                forall|k: int|
                    0 <= k < i ==> #[trigger] ops@[k]@ == op_of_step(self@.steps[k], record@),
            decreases self.steps@.len() - i,
        {
            assert(step_wf(self@.steps[i as int], self@.n_fields));
            let op = match &self.steps[i] {
                Step::EmitFacetValue { slot, field, .. } => DocOp::SetValue {
                    slot: *slot,
                    value: record.values[*field].clone(),
                },
                Step::EmitIndexedTerm { field, prefix, .. } => DocOp::IndexText {
                    text: record.texts[*field].clone(),
                    prefix: clone_opt_string(prefix),
                },
                Step::IncreaseTermPos => DocOp::IncreaseTermPos,
                Step::EmitFullText { .. } => DocOp::IndexText {
                    text: record.full_text.clone(),
                    prefix: None,
                },
                Step::SetPayload { .. } => DocOp::SetData { data: record.payload.clone() },
            };
            ops.push(op);
            i = i + 1;
        }
        assert(doc_ops_view(ops@) =~= spec_plan(self@, record@));
        ops
    }

    /// Plans one record after checking that its encoded values cover the
    /// schema's fields; `None` when they do not.
    pub fn plan_checked(&self, record: &RecordView) -> (r: Option<Vec<DocOp>>)
        requires
            self@.wf(),
        ensures
            r is Some <==> record@.texts.len() == self@.n_fields && record@.values.len()
                == self@.n_fields,
            r matches Some(ops) ==> doc_ops_view(ops@) == spec_plan(self@, record@),
    {
        if record.texts.len() == self.n_fields && record.values.len() == self.n_fields {
            Some(self.plan_document(record))
        } else {
            None
        }
    }

    /// Plans a whole batch, one operation list per record, in input order.
    /// An executor runs the lists inside one engine transaction: the batch is
    /// an efficiency boundary, begun before the first record and committed
    /// after the last.
    pub fn plan_batch(&self, records: &Vec<RecordView>) -> (plans: Vec<Vec<DocOp>>)
        requires
            self@.wf(),
            forall|i: int|
                0 <= i < records@.len() ==> (#[trigger] records@[i])@.texts.len() == self@.n_fields
                    && records@[i]@.values.len() == self@.n_fields,
        ensures
            plans@.len() == records@.len(),
            forall|i: int|
                0 <= i < records@.len() ==> doc_ops_view((#[trigger] plans@[i])@) == spec_plan(
                    self@,
                    records@[i]@,
                ),
    {
        let mut plans: Vec<Vec<DocOp>> = Vec::new();
        let mut i: usize = 0;
        while i < records.len()
            invariant
                i <= records@.len(),
                self@.wf(),
                forall|k: int|
                    0 <= k < records@.len() ==> (#[trigger] records@[k])@.texts.len()
                        == self@.n_fields && records@[k]@.values.len() == self@.n_fields,
                plans@.len() == i,
                forall|k: int|
                    0 <= k < i ==> doc_ops_view((#[trigger] plans@[k])@) == spec_plan(
                        self@,
                        records@[k]@,
                    ),
            decreases records@.len() - i,
        {
            plans.push(self.plan_document(&records[i]));
            i = i + 1;
        }
        plans
    }
}

} // verus!
