//! The schema compiler.
//!
//! A record type is declared once as a [`StructConfig`]: per field, whether
//! it is faceted and/or indexed, its prefix and alias, and whether a custom
//! encoder stands in for the default one; at struct level, the language and
//! the full-text and payload options.  Compiling the declaration yields the
//! two correlated artifacts: the [`IndexProgram`] run at write time and the
//! [`QueryConfig`] consulted at query time.  Both come from one pass over
//! the same declaration, which is what keeps them symmetric.

use crate::program::{steps_view, IndexProgram, Step, StepSpec};
use crate::program::RecordView;
use crate::stoplist::{lower_image, spark_stopword_table, StopList};
use vstd::prelude::*;

verus! {

/// How a record's payload is produced: from its default text rendering, or
/// by a caller-supplied function.
#[derive(Clone, Copy, Debug, PartialEq, Eq, Structural, Default)]
pub enum DocData {
    #[default]
    Display,
    Custom,
}

/// How a document's identity is chosen: supplied by the caller, or hashed
/// from the record.
#[derive(Clone, Copy, Debug, PartialEq, Eq, Structural)]
pub enum DocId {
    Custom,
    Hash,
}

/// One field's declaration: its roles, encoders, prefix and alias.
#[derive(Clone, Debug, PartialEq)]
pub struct FieldConfig {
    /// The field's name; a positional field has none.
    pub name: Option<String>,
    /// A second query name resolving to the same prefix.
    pub alias: Option<String>,
    /// The field carries a faceted value.
    pub facet: bool,
    /// A custom facet encoder stands in for the default serialization.
    pub facet_fn: bool,
    /// The field's text is indexed.
    pub index: bool,
    /// A custom text encoder stands in for the default rendering.
    pub index_fn: bool,
    /// The term prefix the field's text is indexed under; `None`: unprefixed.
    pub prefix: Option<String>,
}

/// The mathematical form of a field declaration.
pub struct FieldSpec {
    pub name: Option<Seq<char>>,
    pub alias: Option<Seq<char>>,
    pub facet: bool,
    pub facet_fn: bool,
    pub index: bool,
    pub index_fn: bool,
    pub prefix: Option<Seq<char>>,
}

impl View for FieldConfig {
    type V = FieldSpec;

    open spec fn view(&self) -> FieldSpec {
        FieldSpec {
            name: self.name.deep_view(),
            alias: self.alias.deep_view(),
            facet: self.facet,
            facet_fn: self.facet_fn,
            index: self.index,
            index_fn: self.index_fn,
            prefix: self.prefix.deep_view(),
        }
    }
}

/// One record type's declaration: its fields in declaration order and the
/// struct-level options.
#[derive(Clone, Debug, PartialEq)]
pub struct StructConfig {
    /// The record type's name.
    pub name: String,
    /// The field declarations, in declaration order.
    pub fields: Vec<FieldConfig>,
    /// Store the record's default text rendering as the document payload.
    pub doc_data: bool,
    /// A custom payload encoder stands in for the default rendering.
    pub data_fn: bool,
    /// The language whose stemmer and stopword set apply at write and query
    /// time alike; `None`: no stemming, no stopwords.
    pub lang: Option<String>,
    /// Index the whole record's text form, unprefixed.
    pub index: bool,
    /// A custom whole-record text encoder stands in for the default one.
    pub index_fn: bool,
}

/// The mathematical form of a record type's declaration.
pub struct StructSpec {
    pub name: Seq<char>,
    pub fields: Seq<FieldSpec>,
    pub doc_data: bool,
    pub data_fn: bool,
    pub lang: Option<Seq<char>>,
    pub index: bool,
    pub index_fn: bool,
}

impl View for StructConfig {
    type V = StructSpec;

    open spec fn view(&self) -> StructSpec {
        StructSpec {
            name: self.name@,
            fields: Seq::new(self.fields@.len(), |i: int| self.fields@[i]@),
            doc_data: self.doc_data,
            data_fn: self.data_fn,
            lang: self.lang.deep_view(),
            index: self.index,
            index_fn: self.index_fn,
        }
    }
}

/// A fatal configuration error: the schema cannot be used at all.
#[derive(Clone, Copy, Debug, PartialEq, Eq, Structural)]
pub enum SchemaError {
    /// The record shape is not a named-field struct.
    UnsupportedShape,
    /// The declared language has no stopword table.
    UnsupportedLanguage,
}

/// A field carries a faceted value: it has the facet option or a custom
/// facet encoder.
pub open spec fn field_is_faceted(f: FieldSpec) -> bool {
    f.facet || f.facet_fn
}

/// A field's text is indexed: it has the index option, a custom text
/// encoder, or an explicit prefix (a prefix alone implies indexing intent).
pub open spec fn field_is_indexed(f: FieldSpec) -> bool {
    f.index || f.index_fn || f.prefix is Some
}

/// The prefix a field's query names resolve to: its declared prefix, or the
/// empty (root) prefix when none is declared.
pub open spec fn query_prefix(f: FieldSpec) -> Seq<char> {
    match f.prefix {
        Some(p) => p,
        None => Seq::empty(),
    }
}

/// The facet steps for the fields from position `i` on, the next free slot
/// being `slot`: each faceted field takes the next slot, in declaration
/// order.
pub open spec fn facet_steps(fields: Seq<FieldSpec>, i: int, slot: int) -> Seq<StepSpec>
    decreases fields.len() - i,
{
    if i < 0 || i >= fields.len() {
        Seq::empty()
    } else if field_is_faceted(fields[i]) {
        seq![StepSpec::Facet { slot, field: i, custom: fields[i].facet_fn }] + facet_steps(
            fields,
            i + 1,
            slot + 1,
        )
    } else {
        facet_steps(fields, i + 1, slot)
    }
}

/// The term steps for the fields from position `i` on: each indexed field
/// emits its text under its prefix, then widens the term-position gap, so
/// that consecutive fields are never adjacent for phrase queries.
pub open spec fn index_steps(fields: Seq<FieldSpec>, i: int) -> Seq<StepSpec>
    decreases fields.len() - i,
{
    if i < 0 || i >= fields.len() {
        Seq::empty()
    } else if field_is_indexed(fields[i]) {
        seq![
            StepSpec::Term { field: i, prefix: fields[i].prefix, custom: fields[i].index_fn },
            StepSpec::Pos,
        ] + index_steps(fields, i + 1)
    } else {
        index_steps(fields, i + 1)
    }
}

/// The record-level payload mode, custom encoder taking precedence.
pub open spec fn payload_mode(s: StructSpec) -> Option<DocData> {
    if s.data_fn {
        Some(DocData::Custom)
    } else if s.doc_data {
        Some(DocData::Display)
    } else {
        None
    }
}

/// The full-text step, if the record's whole text form is indexed.
pub open spec fn full_text_steps(s: StructSpec) -> Seq<StepSpec> {
    if s.index_fn {
        seq![StepSpec::FullText { custom: true }]
    } else if s.index {
        seq![StepSpec::FullText { custom: false }]
    } else {
        Seq::empty()
    }
}

/// The payload step, if a payload mode is active.
pub open spec fn payload_steps(s: StructSpec) -> Seq<StepSpec> {
    match payload_mode(s) {
        Some(m) => seq![StepSpec::Payload { mode: m }],
        None => Seq::empty(),
    }
}

/// The whole index program of a declaration: facet slots in declaration
/// order, then the indexed terms with their position gaps, then the
/// full-text step, then the payload step.
pub open spec fn spec_steps(s: StructSpec) -> Seq<StepSpec> {
    facet_steps(s.fields, 0, 0) + index_steps(s.fields, 0) + full_text_steps(s) + payload_steps(s)
}

/// The prefix table entries for the fields from position `i` on: every
/// indexed, named field maps its name, and then its alias if it has one, to
/// its query prefix.
pub open spec fn prefix_entries(fields: Seq<FieldSpec>, i: int) -> Seq<(Seq<char>, Seq<char>)>
    decreases fields.len() - i,
{
    if i < 0 || i >= fields.len() {
        Seq::empty()
    } else if field_is_indexed(fields[i]) && fields[i].name is Some {
        (match fields[i].alias {
            Some(a) => seq![
                (fields[i].name->Some_0, query_prefix(fields[i])),
                (a, query_prefix(fields[i])),
            ],
            None => seq![(fields[i].name->Some_0, query_prefix(fields[i]))],
        }) + prefix_entries(fields, i + 1)
    } else {
        prefix_entries(fields, i + 1)
    }
}

/// Some field has no name.
pub open spec fn has_unnamed(fields: Seq<FieldSpec>) -> bool {
    exists|i: int| 0 <= i < fields.len() && (#[trigger] fields[i]).name is None
}

/// The declared language, if any, has a stopword table.
pub open spec fn lang_ok(s: StructSpec) -> bool {
    match s.lang {
        Some(l) => spark_stopword_table(l) is Some,
        None => true,
    }
}

/// The resolved stopword set of the declaration's language.
pub open spec fn spec_stops(s: StructSpec) -> Option<Set<Seq<char>>> {
    match s.lang {
        Some(l) => match spark_stopword_table(l) {
            Some(t) => Some(lower_image(t)),
            None => None,
        },
        None => None,
    }
}

/// The query-time configuration: the prefix table that resolves field names
/// and aliases in query text, and the same language settings the index
/// program was compiled with.
#[derive(Clone, Debug)]
pub struct QueryConfig {
    /// Name-to-prefix entries, in declaration order, each alias right after
    /// its field's name.
    pub prefixes: Vec<(String, String)>,
    /// The language for the query parser's stemmer.
    pub lang: Option<String>,
    /// The query parser's stopword set.
    pub stoplist: Option<StopList>,
}

/// The mathematical form of a query configuration.
pub struct QueryConfigSpec {
    pub prefixes: Seq<(Seq<char>, Seq<char>)>,
    pub lang: Option<Seq<char>>,
    pub stops: Option<Set<Seq<char>>>,
}

impl View for QueryConfig {
    type V = QueryConfigSpec;

    open spec fn view(&self) -> QueryConfigSpec {
        QueryConfigSpec {
            prefixes: Seq::new(self.prefixes@.len(), |i: int| (self.prefixes@[i].0@, self.prefixes@[i].1@)),
            lang: self.lang.deep_view(),
            stops: match self.stoplist {
                Some(l) => Some(l@),
                None => None,
            },
        }
    }
}

/// The first prefix an entry list maps a key to.
pub open spec fn lookup_prefix(entries: Seq<(Seq<char>, Seq<char>)>, key: Seq<char>) -> Option<
    Seq<char>,
>
    decreases entries.len(),
{
    if entries.len() == 0 {
        None
    } else if entries[0].0 == key {
        Some(entries[0].1)
    } else {
        lookup_prefix(entries.drop_first(), key)
    }
}

fn clone_opt_string(s: &Option<String>) -> (r: Option<String>)
    ensures
        r.deep_view() == s.deep_view(),
{
    match s {
        Some(t) => Some(t.clone()),
        None => None,
    }
}

impl QueryConfig {
    /// The prefix a query name resolves to, by the first matching entry;
    /// `None` when the name is not in the table.
    pub fn prefix_for(&self, key: &str) -> (r: Option<String>)
        ensures
            r.deep_view() == lookup_prefix(self@.prefixes, key@),
    {
        let k = key.to_owned();
        let mut i: usize = 0;
        proof {
            assert(self@.prefixes.skip(0) =~= self@.prefixes);
        }
        while i < self.prefixes.len()
            invariant
                i <= self.prefixes@.len(),
                k@ == key@,
                lookup_prefix(self@.prefixes, key@) == lookup_prefix(
                    self@.prefixes.skip(i as int),
                    key@,
                ),
            decreases self.prefixes@.len() - i,
        {
            proof {
                assert(self@.prefixes.skip(i as int).drop_first() =~= self@.prefixes.skip(
                    i + 1,
                ));
                assert(self@.prefixes.skip(i as int)[0] == self@.prefixes[i as int]);
            }
            if self.prefixes[i].0 == k {
                return Some(self.prefixes[i].1.clone());
            }
            i = i + 1;
        }
        None
    }
}

impl StructConfig {
    /// Compiles the declaration into its two artifacts in one pass.
    ///
    /// Fails with `UnsupportedShape` when some field has no name, and with
    /// `UnsupportedLanguage` when the declared language has no stopword
    /// table; both are fatal, no partial artifact is produced.
    pub fn compile(&self) -> (r: Result<(IndexProgram, QueryConfig), SchemaError>)
        ensures
            (r matches Err(e) && e == SchemaError::UnsupportedShape) <==> has_unnamed(
                self@.fields,
            ),
            (r matches Err(e) && e == SchemaError::UnsupportedLanguage) <==> (!has_unnamed(
                self@.fields,
            ) && !lang_ok(self@)),
            r is Ok <==> (!has_unnamed(self@.fields) && lang_ok(self@)),
            r matches Ok(pc) ==> {
                &&& pc.0@.steps == spec_steps(self@)
                &&& pc.0@.n_fields == self@.fields.len()
                &&& pc.0@.lang == self@.lang
                &&& pc.0@.stops == spec_stops(self@)
                &&& pc.0@.wf()
                &&& pc.1@.prefixes == prefix_entries(self@.fields, 0)
                &&& pc.1@.lang == self@.lang
                &&& pc.1@.stops == spec_stops(self@)
            },
    {
        // Shape: only named-field records compile.
        let mut i: usize = 0;
        while i < self.fields.len()
            invariant
                i <= self.fields@.len(),
                forall|j: int| 0 <= j < i ==> (#[trigger] self@.fields[j]).name is Some,
            decreases self.fields@.len() - i,
        {
            if self.fields[i].name.is_none() {
                proof {
                    assert(self@.fields[i as int].name is None);
                }
                return Err(SchemaError::UnsupportedShape);
            }
            i = i + 1;
        }
        assert(!has_unnamed(self@.fields));

        // Language: resolve the stopword set once for each artifact.
        let stops_p: Option<StopList>;
        let stops_q: Option<StopList>;
        match &self.lang {
            Some(l) => {
                match (StopList::for_language(l.as_str()), StopList::for_language(l.as_str())) {
                    (Some(p), Some(q)) => {
                        stops_p = Some(p);
                        stops_q = Some(q);
                    },
                    _ => {
                        return Err(SchemaError::UnsupportedLanguage);
                    },
                }
            },
            None => {
                stops_p = None;
                stops_q = None;
            },
        }

        // Facet slots, in declaration order among the faceted fields.
        let mut steps: Vec<Step> = Vec::new();
        let mut slot: usize = 0;
        let mut i: usize = 0;
        while i < self.fields.len()
            invariant
                i <= self.fields@.len(),
                slot <= i,
                steps_view(steps@) + facet_steps(self@.fields, i as int, slot as int)
                    =~= facet_steps(self@.fields, 0, 0),
                forall|k: int|
                    0 <= k < steps@.len() ==> crate::program::step_wf(
                        (#[trigger] steps@[k])@,
                        self@.fields.len() as int,
                    ),
            decreases self.fields@.len() - i,
        {
            let f = &self.fields[i];
            if f.facet || f.facet_fn {
                steps.push(Step::EmitFacetValue { slot, field: i, custom: f.facet_fn });
                slot = slot + 1;
            }
            i = i + 1;
        }

        // Indexed terms, each followed by a position gap.
        let ghost facet_part = steps_view(steps@);
        let mut i: usize = 0;
        while i < self.fields.len()
            invariant
                i <= self.fields@.len(),
                facet_part == facet_steps(self@.fields, 0, 0),
                steps_view(steps@) + index_steps(self@.fields, i as int) =~= facet_part
                    + index_steps(self@.fields, 0),
                forall|k: int|
                    0 <= k < steps@.len() ==> crate::program::step_wf(
                        (#[trigger] steps@[k])@,
                        self@.fields.len() as int,
                    ),
            decreases self.fields@.len() - i,
        {
            let f = &self.fields[i];
            if f.index || f.index_fn || f.prefix.is_some() {
                steps.push(
                    Step::EmitIndexedTerm {
                        field: i,
                        prefix: clone_opt_string(&f.prefix),
                        custom: f.index_fn,
                    },
                );
                steps.push(Step::IncreaseTermPos);
            }
            i = i + 1;
        }

        // The whole record's text form, then the payload.
        if self.index_fn {
            steps.push(Step::EmitFullText { custom: true });
        } else if self.index {
            steps.push(Step::EmitFullText { custom: false });
        }
        if self.data_fn {
            steps.push(Step::SetPayload { mode: DocData::Custom });
        } else if self.doc_data {
            steps.push(Step::SetPayload { mode: DocData::Display });
        }
        assert(steps_view(steps@) =~= spec_steps(self@));
        assert(forall|k: int|
            0 <= k < steps@.len() ==> crate::program::step_wf(
                (#[trigger] steps@[k])@,
                self@.fields.len() as int,
            ));

        // The prefix table, from the same pass over the same fields.
        let mut prefixes: Vec<(String, String)> = Vec::new();
        let mut i: usize = 0;
        while i < self.fields.len()
            invariant
                i <= self.fields@.len(),
                !has_unnamed(self@.fields),
                Seq::new(prefixes@.len(), |k: int| (prefixes@[k].0@, prefixes@[k].1@))
                    + prefix_entries(self@.fields, i as int) =~= prefix_entries(
                    self@.fields,
                    0,
                ),
            decreases self.fields@.len() - i,
        {
            let f = &self.fields[i];
            if f.index || f.index_fn || f.prefix.is_some() {
                match &f.name {
                    Some(n) => {
                        let p: String = match &f.prefix {
                            Some(s) => s.clone(),
                            None => String::new(),
                        };
                        prefixes.push((n.clone(), p.clone()));
                        match &f.alias {
                            Some(a) => {
                                prefixes.push((a.clone(), p));
                            },
                            None => {},
                        }
                    },
                    None => {
                        proof {
                            assert(self@.fields[i as int].name is None);
                            assert(false);
                        }
                    },
                }
            }
            i = i + 1;
        }

        let program = IndexProgram {
            steps,
            n_fields: self.fields.len(),
            lang: clone_opt_string(&self.lang),
            stoplist: stops_p,
        };
        let config = QueryConfig {
            prefixes,
            lang: clone_opt_string(&self.lang),
            stoplist: stops_q,
        };
        proof {
            assert(program@.steps =~= spec_steps(self@));
            assert(config@.prefixes =~= prefix_entries(self@.fields, 0));
            assert forall|k: int| 0 <= k < program@.steps.len() implies crate::program::step_wf(
                program@.steps[k],
                program@.n_fields,
            ) by {
                assert(program@.steps[k] == program.steps@[k]@);
            }
        }
        Ok((program, config))
    }
}

/// A record type that declares its schema once and can render any instance
/// of itself into the plain encoded values the index program reads.  The
/// declaration is computed once per type; the encoded view is computed per
/// record, by the type's own encoders.
pub trait Schema {
    /// The type's one declaration.
    fn config() -> StructConfig;

    /// One record's encoded values, covering every declared field.
    fn encode(&self) -> RecordView;
}

} // verus!
