//! sFlow v5 datagrams on the wire: the header, the samples and the records in them.

use vstd::prelude::*;

use crate::buf::{after, at32, lemma_be4};
use crate::cache::CacheView;
use crate::decode::header::{agent_len, format_of, header_of, ExportHeader, Format};
use crate::decode::sflow::{
    after_record, agent_text, capped, counter_name, counter_sample_row, flow_sample_row,
    record_body, sample_rows, samples_rows, sflow_outcome, whole_record, with_counter_records,
    with_flow_records, word_at,
};
use crate::decode::{datagram_outcome, Mode, OptionsView, Restrict};
use crate::inet::ipv6_text;
use crate::laws::wire::sflow::{
    lemma_flow_note_reads_back, lemma_word_in, lemma_words, words, FlowNote,
};
use crate::laws::wire::soundness::lemma_format_by_first_bytes;
use crate::laws::wire::{bare_row, lemma_number, lemma_w32, number, w32};
use crate::normalize::FlowView;
use crate::text::dec;

verus! {

/// A record or a sample on the wire: its type, its length, its body.
pub open spec fn framed(kind: u32, body: Seq<u8>) -> Seq<u8> {
    w32(kind) + w32(body.len() as u32) + body
}

/// The type of a record or a sample: the enterprise above twelve bits of format.
pub open spec fn kind_of(enterprise: u32, format: u32) -> u32 {
    (enterprise * 4_096 + format) as u32
}

/// Flow records on the wire, each with its enterprise.
pub open spec fn notes_bytes(notes: Seq<(u32, FlowNote)>) -> Seq<u8>
    decreases notes.len(),
{
    if notes.len() == 0 {
        Seq::empty()
    } else {
        framed(kind_of(notes[0].0, notes[0].1.format()), notes[0].1.body()) + notes_bytes(
            notes.drop_first(),
        )
    }
}

/// The row with what all the records say, from the first to the last.
pub open spec fn notes_shown(notes: Seq<(u32, FlowNote)>, row: FlowView, rate: u32) -> FlowView
    decreases notes.len(),
{
    if notes.len() == 0 {
        row
    } else {
        notes_shown(notes.drop_first(), notes[0].1.shown(row, rate), rate)
    }
}

/// Flow records that can be written.
pub open spec fn notes_valid(notes: Seq<(u32, FlowNote)>) -> bool {
    &&& notes.len() <= 0xFFFF_FFFF
    &&& forall|i: int|
        0 <= i < notes.len() ==> (#[trigger] notes[i]).1.valid() && notes[i].0 < 1_048_576
}

/// As many of some things as are read of one sample.
pub open spec fn read_of<T>(all: Seq<T>) -> Seq<T> {
    if all.len() <= 4_096 {
        all
    } else {
        all.take(4_096)
    }
}

/// A record of counters.
pub struct Counters {
    pub enterprise: u32,
    pub format: u32,
    pub body: Seq<u8>,
}

/// Counter records on the wire.
pub open spec fn counters_bytes(all: Seq<Counters>) -> Seq<u8>
    decreases all.len(),
{
    if all.len() == 0 {
        Seq::empty()
    } else {
        framed(kind_of(all[0].enterprise, all[0].format), all[0].body) + counters_bytes(
            all.drop_first(),
        )
    }
}

/// Counter records that can be written.
pub open spec fn counters_valid(all: Seq<Counters>) -> bool {
    &&& all.len() <= 0xFFFF_FFFF
    &&& forall|i: int|
        0 <= i < all.len() ==> (#[trigger] all[i]).enterprise < 1_048_576 && all[i].format < 4_096
            && all[i].body.len() <= 0xFFFF_FFFF
}

/// Counter records as a row holds them: each under the number of its format, untouched.
pub open spec fn counters_kept(all: Seq<Counters>) -> Seq<(Seq<char>, Seq<u8>)> {
    Seq::new(
        all.len(),
        |i: int| ("sflow.counter_format_"@ + dec(all[i].format as nat), all[i].body),
    )
}

/// A sample.
pub enum Sample {
    /// A flow sample with interfaces of 32 bits.
    Flow {
        sequence: u32,
        source: u32,
        rate: u32,
        pool: u32,
        drops: u32,
        input: u32,
        output: u32,
        notes: Seq<(u32, FlowNote)>,
    },
    /// A flow sample with wide interface numbers.
    WideFlow {
        sequence: u32,
        source: (u32, u32),
        rate: u32,
        pool: u32,
        drops: u32,
        input: (u32, u32),
        output: (u32, u32),
        notes: Seq<(u32, FlowNote)>,
    },
    /// Counters.
    Count { sequence: u32, source: u32, counters: Seq<Counters> },
    /// Counters of a source with a wide number.
    WideCount { sequence: u32, source: (u32, u32), counters: Seq<Counters> },
    /// A sample of another format.
    Other { format: u32, body: Seq<u8> },
}

impl Sample {
    /// The number of the format.
    pub open spec fn format(self) -> u32 {
        match self {
            Sample::Flow { .. } => 1,
            Sample::Count { .. } => 2,
            Sample::WideFlow { .. } => 3,
            Sample::WideCount { .. } => 4,
            Sample::Other { format, .. } => format,
        }
    }

    /// The body of the sample.
    pub open spec fn body(self) -> Seq<u8> {
        match self {
            Sample::Flow { sequence, source, rate, pool, drops, input, output, notes } => words(
                seq![
                    sequence,
                    source,
                    rate,
                    pool,
                    drops,
                    input,
                    output,
                    notes.len() as u32,
                ],
            ) + notes_bytes(notes),
            Sample::WideFlow { sequence, source, rate, pool, drops, input, output, notes } => words(
                seq![
                    sequence,
                    source.0,
                    source.1,
                    rate,
                    pool,
                    drops,
                    input.0,
                    input.1,
                    output.0,
                    output.1,
                    notes.len() as u32,
                ],
            ) + notes_bytes(notes),
            Sample::Count { sequence, source, counters } => words(
                seq![sequence, source, counters.len() as u32],
            ) + counters_bytes(counters),
            Sample::WideCount { sequence, source, counters } => words(
                seq![sequence, source.0, source.1, counters.len() as u32],
            ) + counters_bytes(counters),
            Sample::Other { body, .. } => body,
        }
    }

    /// A sample that can be written.
    pub open spec fn valid(self) -> bool {
        &&& self.body().len() <= 0xFFFF_FFFF
        &&& match self {
            Sample::Flow { notes, .. } => notes_valid(notes),
            Sample::WideFlow { notes, .. } => notes_valid(notes),
            Sample::Count { counters, .. } => counters_valid(counters),
            Sample::WideCount { counters, .. } => counters_valid(counters),
            Sample::Other { format, .. } => 4 < format < 4_096 || format == 0,
        }
    }

    /// The rows of a sample: one for a flow sample, with the interfaces, the rate (one at
    /// least) and what its records say; one for counters, unless only flows are asked for;
    /// none for another sample. Of the records of a sample the first 4096 are read.
    pub open spec fn rows(
        self,
        exporter: Seq<char>,
        obs_domain: u32,
        datagram_sequence: u64,
        flows_only: bool,
    ) -> Seq<FlowView> {
        let flow = bare_row(exporter, "sflow5"@, obs_domain, None, Some(datagram_sequence), None);
        let count = bare_row(
            exporter,
            "sflow5"@,
            obs_domain,
            None,
            Some(datagram_sequence),
            Some("counter-sample"@),
        );
        match self {
            Sample::Flow { rate, input, output, notes, .. } => seq![
                sampled(flow, rate, input, output, read_of(notes)),
            ],
            Sample::WideFlow { rate, input, output, notes, .. } => seq![
                sampled(flow, rate, input.1, output.1, read_of(notes)),
            ],
            Sample::Count { counters, .. } => if flows_only {
                Seq::empty()
            } else {
                seq![FlowView { raw_fields: counters_kept(read_of(counters)), ..count }]
            },
            Sample::WideCount { counters, .. } => if flows_only {
                Seq::empty()
            } else {
                seq![FlowView { raw_fields: counters_kept(read_of(counters)), ..count }]
            },
            Sample::Other { .. } => Seq::empty(),
        }
    }
}

/// A row with what a flow sample says; a rate of nothing counts as one.
pub open spec fn sampled(
    row: FlowView,
    rate: u32,
    input: u32,
    output: u32,
    notes: Seq<(u32, FlowNote)>,
) -> FlowView {
    let used = if rate == 0 {
        1
    } else {
        rate
    };
    notes_shown(
        notes,
        FlowView {
            sampling_rate: Some(used),
            input_snmp: Some(input),
            output_snmp: Some(output),
            ..row
        },
        used,
    )
}

/// A framed body at the front is found whole.
proof fn lemma_framed(kind: u32, body: Seq<u8>, rest: Seq<u8>)
    requires
        body.len() <= 0xFFFF_FFFF,
    ensures
        ({
            let s = framed(kind, body) + rest;
            &&& s.len() >= 8
            &&& whole_record(s)
            &&& at32(s, 0) == kind
            &&& record_body(s) == body
            &&& after_record(s) == rest
        }),
{
    let n = body.len() as u32;
    let s = framed(kind, body) + rest;
    lemma_w32(kind);
    lemma_w32(n);
    assert(s.subrange(0, 4) =~= w32(kind));
    assert(s.subrange(4, 8) =~= w32(n));
    assert(s.subrange(8, 8 + n) =~= body);
    assert(s.skip(8 + n as int) =~= rest);
}

/// Flow records are all read, in order.
proof fn lemma_notes(notes: Seq<(u32, FlowNote)>, rest: Seq<u8>, row: FlowView, rate: u32)
    requires
        notes_valid(notes),
    ensures
        with_flow_records(notes_bytes(notes) + rest, notes.len(), row, rate) == notes_shown(
            notes,
            row,
            rate,
        ),
    decreases notes.len(),
{
    if notes.len() > 0 {
        let (enterprise, note) = notes[0];
        let more = notes.drop_first();
        let end = notes_bytes(more) + rest;
        assert(note.valid() && enterprise < 1_048_576);
        assert forall|i: int| 0 <= i < more.len() implies (#[trigger] more[i]).1.valid()
            && more[i].0 < 1_048_576 by {
            assert(more[i] == notes[i + 1]);
        }
        let kind = kind_of(enterprise, note.format());
        lemma_framed(kind, note.body(), end);
        assert(notes_bytes(notes) + rest =~= framed(kind, note.body()) + end);
        lemma_flow_note_reads_back(note, enterprise, row, rate);
        lemma_notes(more, rest, note.shown(row, rate), rate);
    }
}

/// The first of the counters, then the others.
proof fn lemma_kept_first(all: Seq<Counters>, before: Seq<(Seq<char>, Seq<u8>)>)
    requires
        all.len() > 0,
    ensures
        before.push(("sflow.counter_format_"@ + dec(all[0].format as nat), all[0].body))
            + counters_kept(all.drop_first()) == before + counters_kept(all),
{
    let kept = ("sflow.counter_format_"@ + dec(all[0].format as nat), all[0].body);
    let more = all.drop_first();
    let (a, b) = (before.push(kept) + counters_kept(more), before + counters_kept(all));
    assert forall|i: int| 0 <= i < a.len() implies a[i] == b[i] by {
        if i > before.len() {
            let j = i - before.len();
            assert(more[j - 1] == all[j]);
            assert(counters_kept(more)[j - 1] == counters_kept(all)[j]);
        }
    }
    assert(a =~= b);
}

/// A counter record goes by the number of its format; the enterprise does not matter.
proof fn lemma_counter_name(c: Counters)
    requires
        c.enterprise < 1_048_576,
        c.format < 4_096,
    ensures
        counter_name(kind_of(c.enterprise, c.format)) == "sflow.counter_format_"@ + dec(
            c.format as nat,
        ),
{
    let kind = kind_of(c.enterprise, c.format);
    assert(kind % 0x1000 == c.format);
}

/// One counter record is kept, and the others follow.
proof fn lemma_counter_step(s: Seq<u8>, n: nat, row: FlowView, name: Seq<char>)
    requires
        n > 0,
        whole_record(s),
        counter_name(at32(s, 0)) == name,
    ensures
        with_counter_records(s, n, row) == with_counter_records(
            after_record(s),
            (n - 1) as nat,
            FlowView { raw_fields: row.raw_fields.push((name, record_body(s))), ..row },
        ),
{
}

/// Counter records are all kept, in order.
#[verifier::rlimit(40)]
proof fn lemma_counters(all: Seq<Counters>, rest: Seq<u8>, row: FlowView)
    requires
        counters_valid(all),
    ensures
        with_counter_records(counters_bytes(all) + rest, all.len(), row) == (FlowView {
            raw_fields: row.raw_fields + counters_kept(all),
            ..row
        }),
    decreases all.len(),
{
    if all.len() > 0 {
        let first = all[0];
        let more = all.drop_first();
        let end = counters_bytes(more) + rest;
        assert(counters_valid(more)) by {
            assert forall|i: int| 0 <= i < more.len() implies (#[trigger] more[i]).enterprise
                < 1_048_576 && more[i].format < 4_096 && more[i].body.len() <= 0xFFFF_FFFF by {
                assert(more[i] == all[i + 1]);
            }
        }
        let kept = ("sflow.counter_format_"@ + dec(first.format as nat), first.body);
        let next = FlowView { raw_fields: row.raw_fields.push(kept), ..row };
        assert(with_counter_records(counters_bytes(all) + rest, all.len(), row)
            == with_counter_records(end, more.len(), next)) by {
            assert(first.enterprise < 1_048_576);
            let frame = framed(kind_of(first.enterprise, first.format), first.body);
            assert(counters_bytes(all) + rest =~= frame + end);
            lemma_framed(kind_of(first.enterprise, first.format), first.body, end);
            lemma_counter_name(first);
            lemma_counter_step(frame + end, all.len(), row, kept.0);
        }
        lemma_counters(more, rest, next);
        lemma_kept_first(all, row.raw_fields);
    } else {
        assert(row.raw_fields + counters_kept(all) =~= row.raw_fields);
    }
}

/// Flow records may be cut between two of them.
proof fn lemma_notes_split(notes: Seq<(u32, FlowNote)>, n: int)
    requires
        0 <= n <= notes.len(),
    ensures
        notes_bytes(notes) == notes_bytes(notes.take(n)) + notes_bytes(notes.skip(n)),
    decreases notes.len(),
{
    if n == 0 {
        assert(notes.skip(0) =~= notes);
        assert(notes_bytes(notes.take(0)) + notes_bytes(notes) =~= notes_bytes(notes));
    } else {
        let more = notes.drop_first();
        let part = notes.take(n);
        lemma_notes_split(more, n - 1);
        assert(part.drop_first() =~= more.take(n - 1));
        assert(notes.skip(n) =~= more.skip(n - 1));
        let first = framed(kind_of(notes[0].0, notes[0].1.format()), notes[0].1.body());
        let (a, b) = (notes_bytes(more.take(n - 1)), notes_bytes(more.skip(n - 1)));
        assert(first + (a + b) =~= (first + a) + b);
    }
}

/// Counter records may be cut between two of them.
proof fn lemma_counters_split(all: Seq<Counters>, n: int)
    requires
        0 <= n <= all.len(),
    ensures
        counters_bytes(all) == counters_bytes(all.take(n)) + counters_bytes(all.skip(n)),
    decreases all.len(),
{
    if n == 0 {
        assert(all.skip(0) =~= all);
        assert(counters_bytes(all.take(0)) + counters_bytes(all) =~= counters_bytes(all));
    } else {
        let more = all.drop_first();
        let part = all.take(n);
        lemma_counters_split(more, n - 1);
        assert(part.drop_first() =~= more.take(n - 1));
        assert(all.skip(n) =~= more.skip(n - 1));
        let first = framed(kind_of(all[0].enterprise, all[0].format), all[0].body);
        let (a, b) = (counters_bytes(more.take(n - 1)), counters_bytes(more.skip(n - 1)));
        assert(first + (a + b) =~= (first + a) + b);
    }
}

/// Of the flow records of a sample the first ones are read.
proof fn lemma_notes_read(notes: Seq<(u32, FlowNote)>, row: FlowView, rate: u32)
    requires
        notes_valid(notes),
    ensures
        with_flow_records(
            notes_bytes(notes),
            capped(Some(notes.len() as u32), 4096),
            row,
            rate,
        ) == notes_shown(read_of(notes), row, rate),
{
    let some = read_of(notes);
    let n = some.len() as int;
    let rest = notes_bytes(notes.skip(n));
    lemma_notes_split(notes, n);
    assert(notes.take(n) =~= some);
    assert(notes_valid(some)) by {
        assert forall|i: int| 0 <= i < some.len() implies (#[trigger] some[i]).1.valid()
            && some[i].0 < 1_048_576 by {
            assert(some[i] == notes[i]);
        }
    }
    lemma_notes(some, rest, row, rate);
}

/// Of the counter records of a sample the first ones are kept.
proof fn lemma_counters_read(all: Seq<Counters>, row: FlowView)
    requires
        counters_valid(all),
        row.raw_fields.len() == 0,
    ensures
        with_counter_records(
            counters_bytes(all),
            capped(Some(all.len() as u32), 4096),
            row,
        ) == (FlowView { raw_fields: counters_kept(read_of(all)), ..row }),
{
    let some = read_of(all);
    let n = some.len() as int;
    let rest = counters_bytes(all.skip(n));
    lemma_counters_split(all, n);
    assert(all.take(n) =~= some);
    assert(counters_valid(some)) by {
        assert forall|i: int| 0 <= i < some.len() implies (#[trigger] some[i]).enterprise
            < 1_048_576 && some[i].format < 4_096 && some[i].body.len() <= 0xFFFF_FFFF by {
            assert(some[i] == all[i]);
        }
    }
    lemma_counters(some, rest, row);
    assert(row.raw_fields + counters_kept(some) =~= counters_kept(some));
}

/// The word in some place of a body that words stand in front of.
proof fn lemma_body_word(ws: Seq<u32>, rest: Seq<u8>, i: int)
    requires
        0 <= i < ws.len(),
    ensures
        word_at(words(ws) + rest, i) == Some(ws[i]),
        after(words(ws) + rest, 4 * ws.len() as int) == rest,
{
    let s = words(ws) + rest;
    lemma_words(ws);
    assert(s.subrange(0, 4 * ws.len() as int) =~= words(ws));
    lemma_word_in(s, 0, ws, i);
    assert(s.skip(4 * ws.len() as int) =~= rest);
}

/// A flow sample reads back.
#[verifier::rlimit(40)]
proof fn lemma_flow_sample(
    sample: Sample,
    exporter: Seq<char>,
    obs_domain: u32,
    sequence: u64,
    flows_only: bool,
)
    requires
        sample is Flow,
        sample.valid(),
    ensures
        seq![flow_sample_row(sample.body(), exporter, obs_domain, sequence, false)] == sample.rows(
            exporter,
            obs_domain,
            sequence,
            flows_only,
        ),
{
    if let Sample::Flow { sequence: number, source, rate, pool, drops, input, output, notes } =
        sample {
        let ws = seq![
            number,
            source,
            rate,
            pool,
            drops,
            input,
            output,
            notes.len() as u32,
        ];
        let end = notes_bytes(notes);
        lemma_body_word(ws, end, 2);
        lemma_body_word(ws, end, 5);
        lemma_body_word(ws, end, 6);
        lemma_body_word(ws, end, 7);
        let used = if rate == 0 {
            1
        } else {
            rate
        };
        let base = FlowView {
            sampling_rate: Some(used),
            input_snmp: Some(input),
            output_snmp: Some(output),
            ..bare_row(exporter, "sflow5"@, obs_domain, None, Some(sequence), None)
        };
        lemma_notes_read(notes, base, used);
    }
}

/// A flow sample with wide interface numbers reads back.
#[verifier::rlimit(40)]
proof fn lemma_wide_flow_sample(
    sample: Sample,
    exporter: Seq<char>,
    obs_domain: u32,
    sequence: u64,
    flows_only: bool,
)
    requires
        sample is WideFlow,
        sample.valid(),
    ensures
        seq![flow_sample_row(sample.body(), exporter, obs_domain, sequence, true)] == sample.rows(
            exporter,
            obs_domain,
            sequence,
            flows_only,
        ),
{
    if let Sample::WideFlow { sequence: number, source, rate, pool, drops, input, output, notes } =
        sample {
        let ws = seq![
            number,
            source.0,
            source.1,
            rate,
            pool,
            drops,
            input.0,
            input.1,
            output.0,
            output.1,
            notes.len() as u32,
        ];
        let end = notes_bytes(notes);
        lemma_body_word(ws, end, 3);
        lemma_body_word(ws, end, 7);
        lemma_body_word(ws, end, 9);
        lemma_body_word(ws, end, 10);
        let used = if rate == 0 {
            1
        } else {
            rate
        };
        let base = FlowView {
            sampling_rate: Some(used),
            input_snmp: Some(input.1),
            output_snmp: Some(output.1),
            ..bare_row(exporter, "sflow5"@, obs_domain, None, Some(sequence), None)
        };
        lemma_notes_read(notes, base, used);
    }
}

/// Counters read back.
#[verifier::rlimit(40)]
proof fn lemma_count_sample(
    sample: Sample,
    exporter: Seq<char>,
    obs_domain: u32,
    sequence: u64,
)
    requires
        sample is Count || sample is WideCount,
        sample.valid(),
    ensures
        seq![
            counter_sample_row(
                sample.body(),
                exporter,
                obs_domain,
                sequence,
                sample is WideCount,
            ),
        ] == sample.rows(exporter, obs_domain, sequence, false),
{
    let base = bare_row(
        exporter,
        "sflow5"@,
        obs_domain,
        None,
        Some(sequence),
        Some("counter-sample"@),
    );
    match sample {
        Sample::Count { sequence: number, source, counters } => {
            let end = counters_bytes(counters);
            lemma_body_word(seq![number, source, counters.len() as u32], end, 2);
            lemma_counters_read(counters, base);
        },
        Sample::WideCount { sequence: number, source, counters } => {
            let end = counters_bytes(counters);
            lemma_body_word(seq![number, source.0, source.1, counters.len() as u32], end, 3);
            lemma_counters_read(counters, base);
        },
        _ => {},
    }
}

/// A sample reads back as its rows; the enterprise in its type does not matter.
#[verifier::rlimit(40)]
pub proof fn lemma_sample_reads_back(
    sample: Sample,
    enterprise: u32,
    exporter: Seq<char>,
    obs_domain: u32,
    sequence: u64,
    flows_only: bool,
)
    requires
        sample.valid(),
        enterprise < 1_048_576,
    ensures
        sample_rows(
            kind_of(enterprise, sample.format()),
            sample.body(),
            exporter,
            obs_domain,
            sequence,
            flows_only,
        ) == sample.rows(exporter, obs_domain, sequence, flows_only),
{
    let kind = kind_of(enterprise, sample.format());
    assert(kind % 0x1000 == sample.format());
    match sample {
        Sample::Flow { .. } => {
            lemma_flow_sample(sample, exporter, obs_domain, sequence, flows_only);
        },
        Sample::WideFlow { .. } => {
            lemma_wide_flow_sample(sample, exporter, obs_domain, sequence, flows_only);
        },
        Sample::Count { .. } => {
            lemma_count_sample(sample, exporter, obs_domain, sequence);
        },
        Sample::WideCount { .. } => {
            lemma_count_sample(sample, exporter, obs_domain, sequence);
        },
        Sample::Other { .. } => {},
    }
}

/// Samples on the wire, each with its enterprise.
pub open spec fn samples_bytes(samples: Seq<(u32, Sample)>) -> Seq<u8>
    decreases samples.len(),
{
    if samples.len() == 0 {
        Seq::empty()
    } else {
        framed(kind_of(samples[0].0, samples[0].1.format()), samples[0].1.body())
            + samples_bytes(samples.drop_first())
    }
}

/// The rows of all the samples, in order.
pub open spec fn samples_shown(
    samples: Seq<(u32, Sample)>,
    exporter: Seq<char>,
    obs_domain: u32,
    sequence: u64,
    flows_only: bool,
) -> Seq<FlowView>
    decreases samples.len(),
{
    if samples.len() == 0 {
        Seq::empty()
    } else {
        samples[0].1.rows(exporter, obs_domain, sequence, flows_only) + samples_shown(
            samples.drop_first(),
            exporter,
            obs_domain,
            sequence,
            flows_only,
        )
    }
}

/// Samples that can be written.
pub open spec fn samples_valid(samples: Seq<(u32, Sample)>) -> bool {
    forall|i: int|
        0 <= i < samples.len() ==> (#[trigger] samples[i]).1.valid() && samples[i].0 < 1_048_576
}

/// What stands where a sample was declared and is not there.
pub open spec fn missing_sample(
    missing: bool,
    exporter: Seq<char>,
    obs_domain: u32,
    sequence: u64,
) -> Seq<FlowView> {
    if missing {
        seq![
            bare_row(
                exporter,
                "sflow5"@,
                obs_domain,
                None,
                Some(sequence),
                Some("truncated"@),
            ),
        ]
    } else {
        Seq::empty()
    }
}

/// Bytes that are no whole sample: too few for a type and a length, or fewer than the
/// length says.
pub open spec fn is_cut(rest: Seq<u8>) -> bool {
    rest.len() < 8 || number(rest.subrange(4, 8)) > rest.len() - 8
}

/// Samples are all read, in order.
#[verifier::rlimit(40)]
proof fn lemma_samples(
    samples: Seq<(u32, Sample)>,
    rest: Seq<u8>,
    claimed: nat,
    exporter: Seq<char>,
    obs_domain: u32,
    sequence: u64,
    flows_only: bool,
)
    requires
        samples_valid(samples),
        samples.len() <= claimed,
        samples.len() < claimed ==> is_cut(rest),
    ensures
        samples_rows(
            samples_bytes(samples) + rest,
            claimed,
            exporter,
            obs_domain,
            sequence,
            flows_only,
        ) == samples_shown(samples, exporter, obs_domain, sequence, flows_only) + missing_sample(
            samples.len() < claimed,
            exporter,
            obs_domain,
            sequence,
        ),
    decreases samples.len(),
{
    let s = samples_bytes(samples) + rest;
    let tail = missing_sample(samples.len() < claimed, exporter, obs_domain, sequence);
    if samples.len() == 0 {
        assert(s =~= rest);
        assert(Seq::<FlowView>::empty() + tail =~= tail);
        if rest.len() >= 8 {
            lemma_number(rest.subrange(4, 8));
            lemma_be4(rest.subrange(4, 8));
        }
    } else {
        let (enterprise, sample) = samples[0];
        let more = samples.drop_first();
        let end = samples_bytes(more) + rest;
        let kind = kind_of(enterprise, sample.format());
        assert(samples_valid(more)) by {
            assert forall|i: int| 0 <= i < more.len() implies (#[trigger] more[i]).1.valid()
                && more[i].0 < 1_048_576 by {
                assert(more[i] == samples[i + 1]);
            }
        }
        assert(sample.valid() && enterprise < 1_048_576);
        assert(s =~= framed(kind, sample.body()) + end);
        lemma_framed(kind, sample.body(), end);
        lemma_sample_reads_back(sample, enterprise, exporter, obs_domain, sequence, flows_only);
        let first = sample.rows(exporter, obs_domain, sequence, flows_only);
        let others = samples_shown(more, exporter, obs_domain, sequence, flows_only);
        lemma_samples_step(s, claimed, exporter, obs_domain, sequence, flows_only);
        lemma_samples(
            more,
            rest,
            (claimed - 1) as nat,
            exporter,
            obs_domain,
            sequence,
            flows_only,
        );
        assert(first + (others + tail) =~= first + others + tail);
    }
}

/// One sample, then the others.
proof fn lemma_samples_step(
    s: Seq<u8>,
    n: nat,
    exporter: Seq<char>,
    obs_domain: u32,
    sequence: u64,
    flows_only: bool,
)
    requires
        n > 0,
        whole_record(s),
    ensures
        samples_rows(s, n, exporter, obs_domain, sequence, flows_only) == sample_rows(
            at32(s, 0),
            record_body(s),
            exporter,
            obs_domain,
            sequence,
            flows_only,
        ) + samples_rows(
            after_record(s),
            (n - 1) as nat,
            exporter,
            obs_domain,
            sequence,
            flows_only,
        ),
{
}

/// The address of an agent.
pub enum Agent {
    V4(u32),
    V6(Seq<u8>),
}

impl Agent {
    /// An IPv6 address has sixteen bytes.
    pub open spec fn valid(self) -> bool {
        self matches Agent::V6(address) ==> address.len() == 16
    }

    /// The kind of the address, then the address.
    pub open spec fn bytes(self) -> Seq<u8> {
        match self {
            Agent::V4(address) => w32(1) + w32(address),
            Agent::V6(address) => w32(2) + address,
        }
    }

    /// The address as text.
    pub open spec fn text(self) -> Seq<char> {
        match self {
            Agent::V4(address) => dotted(address),
            Agent::V6(address) => ipv6_text(address),
        }
    }
}

/// An IPv4 address as text: the four bytes from the highest down.
pub open spec fn dotted(address: u32) -> Seq<char> {
    dec((address / 16_777_216) as nat) + "."@ + dec((address / 65_536 % 256) as nat) + "."@ + dec(
        (address / 256 % 256) as nat,
    ) + "."@ + dec((address % 256) as nat)
}

/// The head of a datagram.
pub struct SflowHeader {
    pub agent: Agent,
    pub sub_agent: u32,
    pub sequence: u32,
    pub uptime: u32,
    pub samples: u32,
}

/// The head of a datagram on the wire.
pub open spec fn sflow_header_bytes(h: SflowHeader) -> Seq<u8> {
    w32(5) + h.agent.bytes() + words(seq![h.sub_agent, h.sequence, h.uptime, h.samples])
}

/// The bytes of the two kinds of head.
#[verifier::rlimit(40)]
proof fn lemma_sflow_head(h: SflowHeader, rest: Seq<u8>)
    requires
        h.agent.valid(),
    ensures
        ({
            let s = sflow_header_bytes(h) + rest;
            let n = agent_len(s);
            &&& s.len() >= 8 + n + 16
            &&& at32(s, 0) == 5
            &&& at32(s, 4) == (if h.agent is V4 { 1u32 } else { 2u32 })
            &&& n == (if h.agent is V4 { 4int } else { 16int })
            &&& at32(s, 8 + n) == h.sub_agent
            &&& at32(s, 8 + n + 4) == h.sequence
            &&& at32(s, 8 + n + 8) == h.uptime
            &&& at32(s, 8 + n + 12) == h.samples
            &&& s.skip(8 + n + 16) == rest
        }),
{
    let s = sflow_header_bytes(h) + rest;
    let ws = seq![h.sub_agent, h.sequence, h.uptime, h.samples];
    lemma_words(ws);
    let n = if h.agent is V4 {
        4int
    } else {
        16int
    };
    let kind = if h.agent is V4 {
        1u32
    } else {
        2u32
    };
    lemma_w32(5);
    lemma_w32(kind);
    assert(h.agent.bytes().len() == 4 + n) by {
        if let Agent::V4(address) = h.agent {
            lemma_w32(address);
        }
    }
    assert(h.agent.bytes().take(4) =~= w32(kind));
    let head = w32(5) + h.agent.bytes();
    assert(s =~= head + (words(ws) + rest));
    assert(s.subrange(0, 4) =~= w32(5));
    assert(s.subrange(4, 8) =~= h.agent.bytes().take(4));
    assert(s.subrange(8 + n, 8 + n + 4 * ws.len()) =~= words(ws));
    lemma_word_in(s, 8 + n, ws, 0);
    lemma_word_in(s, 8 + n, ws, 1);
    lemma_word_in(s, 8 + n, ws, 2);
    lemma_word_in(s, 8 + n, ws, 3);
    assert(s.skip(8 + n + 16) =~= rest);
}

/// Where no exporter is given, the agent stands for it.
proof fn lemma_agent_text(h: SflowHeader, rest: Seq<u8>)
    requires
        h.agent.valid(),
    ensures
        agent_text(sflow_header_bytes(h) + rest) == h.agent.text(),
{
    let s = sflow_header_bytes(h) + rest;
    lemma_sflow_head(h, rest);
    lemma_w32(5);
    match h.agent {
        Agent::V4(address) => {
            let a = w32(address);
            lemma_w32(address);
            lemma_w32(1);
            assert(s.subrange(8, 12) =~= a);
            let (hi, lo) = (address / 65_536, address % 65_536);
            assert(a[0] == hi / 256 && a[1] == hi % 256 && a[2] == lo / 256 && a[3] == lo % 256);
            assert(hi / 256 == address / 16_777_216);
            assert(lo / 256 == address / 256 % 256);
            assert(lo % 256 == address % 256);
        },
        Agent::V6(address) => {
            lemma_w32(2);
            assert(s.subrange(8, 24) =~= address);
        },
    }
}

/// The head of an sFlow datagram reads back: the domain is the sub-agent, and the number
/// of samples is kept as far as it fits in sixteen bits.
#[verifier::rlimit(40)]
pub proof fn lemma_sflow_header_reads_back(h: SflowHeader, rest: Seq<u8>)
    requires
        h.agent.valid(),
    ensures
        format_of(sflow_header_bytes(h) + rest) == Some(Format::Sflow),
        header_of(sflow_header_bytes(h) + rest) == Some(
            ExportHeader {
                version: 5,
                count: Some(
                    if h.samples <= 65_535 {
                        h.samples as u16
                    } else {
                        65_535
                    },
                ),
                sys_uptime: Some(h.uptime),
                export_time: None,
                sequence: Some(h.sequence as u64),
                obs_domain: Some(h.sub_agent),
            },
        ),
{
    let s = sflow_header_bytes(h) + rest;
    lemma_sflow_head(h, rest);
    let kind = if h.agent is V4 {
        1u32
    } else {
        2u32
    };
    lemma_w32(5);
    lemma_w32(kind);
    assert(h.agent.bytes().take(4) =~= w32(kind));
    let first = w32(5) + w32(kind);
    assert(s.take(8) =~= first) by {
        assert(s.take(8).skip(4) =~= h.agent.bytes().take(4));
        assert(s.take(4) =~= w32(5));
        assert(s.take(8) =~= s.take(4) + s.take(8).skip(4));
    }
    assert(first =~= seq![0u8, 0, 0, 5, 0, 0, 0, kind as u8]);
    assert(s.take(7) =~= s.take(8).take(7));
    assert(s[7] == s.take(8)[7]);
    assert(s.take(7) =~= seq![0u8, 0, 0, 5, 0, 0, 0]);
    lemma_format_by_first_bytes(s);
}

/// As many samples as are read of one datagram.
pub open spec fn most_read(declared: u32) -> nat {
    if declared <= 65_536 {
        declared as nat
    } else {
        65_536
    }
}

/// A whole sFlow datagram reads back: the rows of its samples in order, under the given
/// exporter or, where none is given, the agent's address. Where more samples are declared
/// than are there, one row at the end says so. Of more than 65536 samples the first are
/// read. Nothing is learned from it.
#[verifier::rlimit(40)]
pub proof fn lemma_sflow_reads_back(
    h: SflowHeader,
    samples: Seq<(u32, Sample)>,
    rest: Seq<u8>,
    opts: OptionsView,
    cache: CacheView,
    restrict: Restrict,
)
    requires
        h.agent.valid(),
        samples_valid(samples),
        samples.len() <= most_read(h.samples),
        samples.len() < most_read(h.samples) ==> is_cut(rest),
        restrict == Restrict::Any || restrict == Restrict::SflowOnly,
    ensures
        ({
            let id = if opts.exporter.len() == 0 {
                h.agent.text()
            } else {
                opts.exporter
            };
            let rows = samples_shown(
                samples,
                id,
                h.sub_agent,
                h.sequence as u64,
                opts.mode == Mode::FlowsOnly,
            );
            datagram_outcome(
                sflow_header_bytes(h) + (samples_bytes(samples) + rest),
                opts,
                cache,
                restrict,
            ) == (
                rows + missing_sample(
                    samples.len() < most_read(h.samples),
                    id,
                    h.sub_agent,
                    h.sequence as u64,
                ),
                cache,
            )
        }),
{
    let body = samples_bytes(samples) + rest;
    let s = sflow_header_bytes(h) + body;
    lemma_sflow_header_reads_back(h, body);
    lemma_sflow_head(h, body);
    lemma_agent_text(h, body);
    let id = if opts.exporter.len() == 0 {
        h.agent.text()
    } else {
        opts.exporter
    };
    lemma_samples(
        samples,
        rest,
        most_read(h.samples),
        id,
        h.sub_agent,
        h.sequence as u64,
        opts.mode == Mode::FlowsOnly,
    );
    assert(sflow_outcome(s, opts.exporter, opts.mode == Mode::FlowsOnly) == samples_rows(
        body,
        most_read(h.samples),
        id,
        h.sub_agent,
        h.sequence as u64,
        opts.mode == Mode::FlowsOnly,
    ));
}

} // verus!
