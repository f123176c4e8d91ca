//! The ingestion pipeline: split raw input bytes into lines and
//! tab-delimited fields, decode each data line into a record, apply the
//! recidivist reduction and the validity and attribute filters, and keep
//! the accepted records together with their frequency tables and a list
//! of the skipped lines.  One forward pass; the first line is a header
//! and is not examined.

use vstd::prelude::*;

use crate::distribution::{represents, Distribution, lemma_distribution_tracks,
    lemma_represents_bounded};
use crate::options::{accepts, accepts_spec, Options};
use crate::record::{views, error_describes, parse_ok, record_from, FieldDecodeError, Record};
use crate::reducer::{red_step, Reducer};

verus! {

/// ASCII horizontal tab, the field delimiter.
pub const TAB: u8 = 9;

/// ASCII line feed, the line delimiter.
pub const NEWLINE: u8 = 10;

/// The position just after the first line feed at or after `pos`, or the
/// end of the data.
pub open spec fn line_end(data: Seq<u8>, pos: int) -> int
    decreases data.len() - pos,
{
    if pos < 0 || pos >= data.len() {
        pos
    } else if data[pos] == NEWLINE {
        pos + 1
    } else {
        line_end(data, pos + 1)
    }
}

/// A line's end lies strictly beyond its start and within the data.
pub proof fn lemma_line_end_bounds(data: Seq<u8>, pos: int)
    requires
        0 <= pos < data.len(),
    ensures
        pos < line_end(data, pos) <= data.len(),
    decreases data.len() - pos,
{
    if data[pos] == NEWLINE {
    } else if pos + 1 < data.len() {
        lemma_line_end_bounds(data, pos + 1);
    } else {
        assert(line_end(data, pos) == line_end(data, pos + 1));
        assert(line_end(data, pos + 1) == pos + 1);
    }
}

/// The content of the line starting at `pos`: the bytes up to the next
/// line feed, which delimits the line and is not part of it; when no line
/// feed remains, the whole rest of the data.
pub open spec fn line_content(data: Seq<u8>, pos: int) -> Seq<u8> {
    let end = line_end(data, pos);
    if 0 <= end - 1 < data.len() && data[end - 1] == NEWLINE {
        data.subrange(pos, end - 1)
    } else {
        data.subrange(pos, end)
    }
}

/// The lines of `data` from `pos` on: each is a [`line_content`], and each
/// consumes at least one byte of the data.
pub open spec fn lines_from(data: Seq<u8>, pos: int) -> Seq<Seq<u8>>
    decreases data.len() - pos,
{
    if pos < 0 || pos >= data.len() {
        Seq::empty()
    } else {
        let end = line_end(data, pos);
        let next = if end <= pos {
            pos + 1
        } else if end > data.len() {
            data.len() as int
        } else {
            end
        };
        seq![line_content(data, pos)] + lines_from(data, next)
    }
}

/// All lines of `data`.
pub open spec fn lines_of(data: Seq<u8>) -> Seq<Seq<u8>> {
    lines_from(data, 0)
}

/// Unfold [`lines_from`] one line at a time.
pub proof fn lemma_lines_from_unfold(data: Seq<u8>, pos: int)
    requires
        0 <= pos < data.len(),
    ensures
        lines_from(data, pos) == seq![line_content(data, pos)] + lines_from(
            data,
            line_end(data, pos),
        ),
{
    lemma_line_end_bounds(data, pos);
}

/// Split raw input into lines, reading one line per call.
pub struct RawLineSplitter {
    pub data: Vec<u8>,
    pub pos: usize,
}

impl RawLineSplitter {
    /// Well-formed: the cursor lies within the data.
    pub open spec fn wf(self) -> bool {
        self.pos <= self.data@.len()
    }

    /// A splitter at the start of `data`.
    pub fn new(data: Vec<u8>) -> (r: RawLineSplitter)
        ensures
            r.wf(),
            r.data == data,
            r.pos == 0,
    {
        RawLineSplitter { data, pos: 0 }
    }

    /// Read the next line: nothing when the data is exhausted, else the
    /// bytes up to the next line feed (which is consumed but not part of
    /// the line) or, when no line feed remains, the whole rest of the
    /// data, advancing the cursor past the line.
    pub fn read_line(&mut self) -> (r: Option<Vec<u8>>)
        requires
            old(self).wf(),
        ensures
            final(self).wf(),
            final(self).data == old(self).data,
            old(self).pos == old(self).data@.len() ==> r is None && final(self).pos == old(
                self,
            ).pos,
            old(self).pos < old(self).data@.len() ==> {
                &&& r matches Some(v) && v@ == line_content(
                    old(self).data@,
                    old(self).pos as int,
                )
                &&& final(self).pos == line_end(old(self).data@, old(self).pos as int)
                &&& final(self).pos > old(self).pos
            },
    {
        let n = self.data.len();
        if self.pos >= n {
            return None;
        }
        proof {
            lemma_line_end_bounds(self.data@, self.pos as int);
        }
        let start = self.pos;
        let mut end = self.pos;
        while end < n && self.data[end] != NEWLINE
            invariant
                start <= end <= n,
                n == self.data@.len(),
                start < n,
                line_end(self.data@, start as int) == line_end(self.data@, end as int),
                forall|j: int| start <= j < end ==> self.data@[j] != NEWLINE,
            decreases n - end,
        {
            end = end + 1;
        }
        // The line's content runs up to the line feed at `end`, or to the
        // end of the data when the final line has no line feed.
        let stop = end;
        let next = if end < n {
            proof {
                assert(line_end(self.data@, end as int) == end + 1);
            }
            end + 1
        } else {
            proof {
                assert(line_end(self.data@, end as int) == end);
            }
            end
        };
        proof {
            assert(next == line_end(self.data@, start as int));
            lemma_line_end_bounds(self.data@, start as int);
        }
        let mut line: Vec<u8> = Vec::new();
        let mut i = start;
        while i < stop
            invariant
                start <= i <= stop,
                stop <= n,
                n == self.data@.len(),
                line@ == self.data@.subrange(start as int, i as int),
            decreases stop - i,
        {
            line.push(self.data[i]);
            proof {
                assert(line@ =~= self.data@.subrange(start as int, i + 1));
            }
            i = i + 1;
        }
        self.pos = next;
        Some(line)
    }
}

/// The tab-separated fields of the bytes `s`, the first continuing the
/// partial field `cur`: splitting yields one more field than there are
/// tabs, so at least one.
pub open spec fn fields_acc(s: Seq<u8>, cur: Seq<u8>) -> Seq<Seq<u8>>
    decreases s.len(),
{
    if s.len() == 0 {
        seq![cur]
    } else if s[0] == TAB {
        seq![cur] + fields_acc(s.drop_first(), Seq::empty())
    } else {
        fields_acc(s.drop_first(), cur.push(s[0]))
    }
}

/// The tab-separated fields of one line.
pub open spec fn fields_of(line: Seq<u8>) -> Seq<Seq<u8>> {
    fields_acc(line, Seq::empty())
}

/// Splitting yields at least one field.
pub proof fn lemma_fields_acc_len(s: Seq<u8>, cur: Seq<u8>)
    ensures
        fields_acc(s, cur).len() >= 1,
    decreases s.len(),
{
    if s.len() != 0 {
        if s[0] == TAB {
            lemma_fields_acc_len(s.drop_first(), Seq::empty());
        } else {
            lemma_fields_acc_len(s.drop_first(), cur.push(s[0]));
        }
    }
}

/// Split one line at its tabs.
pub fn split_fields(line: &Vec<u8>) -> (r: Vec<Vec<u8>>)
    ensures
        views(r@) == fields_of(line@),
        r@.len() >= 1,
{
    let mut out: Vec<Vec<u8>> = Vec::new();
    let mut cur: Vec<u8> = Vec::new();
    let n = line.len();
    let mut i: usize = 0;
    proof {
        assert(line@.subrange(0, n as int) =~= line@);
    }
    while i < n
        invariant
            i <= n,
            n == line@.len(),
            fields_of(line@) == views(out@) + fields_acc(
                line@.subrange(i as int, n as int),
                cur@,
            ),
        decreases n - i,
    {
        let ghost rest = line@.subrange(i as int, n as int);
        proof {
            assert(rest[0] == line@[i as int]);
            assert(rest.drop_first() =~= line@.subrange(i + 1, n as int));
        }
        let c = line[i];
        if c == TAB {
            out.push(cur);
            cur = Vec::new();
            proof {
                assert(views(out@) =~= views(out@.drop_last()).push(out@.last()@));
                assert(views(out@.drop_last()) + fields_acc(rest, out@.last()@) == views(
                    out@.drop_last(),
                ) + (seq![out@.last()@] + fields_acc(rest.drop_first(), Seq::empty())));
                assert(views(out@.drop_last()) + (seq![out@.last()@] + fields_acc(
                    rest.drop_first(),
                    Seq::empty(),
                )) =~= views(out@) + fields_acc(rest.drop_first(), cur@));
            }
        } else {
            cur.push(c);
        }
        i = i + 1;
    }
    proof {
        assert(line@.subrange(n as int, n as int) =~= Seq::<u8>::empty());
        assert(fields_of(line@) == views(out@) + seq![cur@]);
    }
    out.push(cur);
    proof {
        assert(views(out@) =~= views(out@.drop_last()).push(out@.last()@));
        assert(views(out@) =~= fields_of(line@));
        lemma_fields_acc_len(line@, Seq::empty());
    }
    out
}

/// The pipeline's accumulated state: the accepted records in order, each
/// subject's stored earliest-so-far record, and the numbers of the
/// skipped lines.
#[verifier::ext_equal]
pub ghost struct PipeState {
    pub records: Seq<Record>,
    pub stored: Map<Seq<u8>, Record>,
    pub skipped: Seq<int>,
}

/// The state before any data line.
pub open spec fn pipe_init() -> PipeState {
    PipeState { records: Seq::empty(), stored: Map::empty(), skipped: Seq::empty() }
}

/// The stored record of subject `id`, if any.
pub open spec fn stored_opt(m: Map<Seq<u8>, Record>, id: Seq<u8>) -> Option<Record> {
    if m.contains_key(id) {
        Some(m[id])
    } else {
        None
    }
}

/// One data line through the pipeline: split at tabs, the first field the
/// subject identifier; decode the rest into a record or record the line
/// number as skipped; when recidivist mode is on, run the reduction step
/// first; accept the resulting record if it is valid and matches every
/// set filter.
pub open spec fn pipe_line_step(st: PipeState, line: Seq<u8>, ln: int, opts: Options)
    -> PipeState {
    let fields = fields_of(line);
    let id = fields[0];
    let rest = fields.drop_first();
    if parse_ok(rest) {
        let rec0 = record_from(rest);
        if opts.recidivists {
            let (st2, emitted) = red_step(stored_opt(st.stored, id), rec0);
            let stored2 = st.stored.insert(id, st2.unwrap());
            match emitted {
                Some(r) => if accepts_spec(opts, r) {
                    PipeState { records: st.records.push(r), stored: stored2, ..st }
                } else {
                    PipeState { stored: stored2, ..st }
                },
                None => PipeState { stored: stored2, ..st },
            }
        } else {
            if accepts_spec(opts, rec0) {
                PipeState { records: st.records.push(rec0), ..st }
            } else {
                st
            }
        }
    } else {
        PipeState { skipped: st.skipped.push(ln), ..st }
    }
}

/// The pipeline's state after the first `n` data lines.
pub open spec fn pipe_upto(dls: Seq<Seq<u8>>, opts: Options, n: int) -> PipeState
    decreases n,
{
    if n <= 0 {
        pipe_init()
    } else {
        pipe_line_step(pipe_upto(dls, opts, n - 1), dls[n - 1], n, opts)
    }
}

/// The pipeline's state after all data lines.
pub open spec fn pipe_run(dls: Seq<Seq<u8>>, opts: Options) -> PipeState {
    pipe_upto(dls, opts, dls.len() as int)
}

/// Whether a skipped-line entry is sound: the line number lies in range
/// and the error describes the first decode failure of that line's record
/// columns.
pub open spec fn skip_entry_ok(dls: Seq<Seq<u8>>, ln: int, e: FieldDecodeError) -> bool {
    &&& 1 <= ln <= dls.len()
    &&& error_describes(fields_of(dls[ln - 1]).drop_first(), e)
}

/// What one ingestion pass produced: the accepted records, their
/// frequency tables, and one entry per skipped line.
pub struct IngestResult {
    pub records: Vec<Record>,
    pub distribution: Distribution,
    pub skipped: Vec<(usize, FieldDecodeError)>,
}

/// Run one data line through the pipeline state: exactly
/// [`pipe_line_step`] on the views of the exec state.
fn process_line(
    records: &mut Vec<Record>,
    reducer: &mut Reducer,
    dist: &mut Distribution,
    skipped: &mut Vec<(usize, FieldDecodeError)>,
    line: &Vec<u8>,
    line_no: usize,
    options: &Options,
    Ghost(st): Ghost<PipeState>,
)
    requires
        line_no >= 1,
        old(records)@ == st.records,
        old(records)@.len() < line_no,
        old(reducer).wf(),
        forall|sid: Seq<u8>| #[trigger] old(reducer).stored_for(sid) == stored_opt(
            st.stored,
            sid,
        ),
        represents(*old(dist), st.records),
        old(skipped)@.len() == st.skipped.len(),
    ensures
        ({
            let st2 = pipe_line_step(st, line@, line_no as int, *options);
            &&& final(records)@ == st2.records
            &&& final(records)@.len() <= old(records)@.len() + 1
            &&& final(reducer).wf()
            &&& forall|sid: Seq<u8>| #[trigger] final(reducer).stored_for(sid) == stored_opt(
                st2.stored,
                sid,
            )
            &&& represents(*final(dist), st2.records)
            &&& final(skipped)@.len() == st2.skipped.len()
            &&& parse_ok(fields_of(line@).drop_first()) ==> final(skipped)@ == old(skipped)@
                && st2.skipped == st.skipped
            &&& !parse_ok(fields_of(line@).drop_first()) ==> {
                &&& st2.skipped == st.skipped.push(line_no as int)
                &&& final(skipped)@.len() == old(skipped)@.len() + 1
                &&& forall|k: int|
                    0 <= k < old(skipped)@.len() ==> final(skipped)@[k] == old(skipped)@[k]
                &&& final(skipped)@.last().0 == line_no
                &&& error_describes(
                    fields_of(line@).drop_first(),
                    final(skipped)@.last().1,
                )
            }
        }),
{
    let ghost opts = *options;
    let mut fields = split_fields(line);
    let id = fields.remove(0);
    proof {
        assert(views(fields@) =~= fields_of(line@).drop_first());
        assert(id@ == fields_of(line@)[0]);
    }
    let ghost st2 = pipe_line_step(st, line@, line_no as int, opts);
    match Record::parse(&fields) {
        Ok(rec0) => {
            let mut record = rec0;
            let mut valid = true;
            if options.recidivists {
                match reducer.step(&id, rec0) {
                    Some(emitted) => {
                        record = emitted;
                    },
                    None => {
                        valid = false;
                    },
                }
            }
            proof {
                assert forall|sid: Seq<u8>| #[trigger] reducer.stored_for(sid) == stored_opt(
                    st2.stored,
                    sid,
                ) by {
                    if opts.recidivists {
                        let (str2, em2) = red_step(stored_opt(st.stored, id@), rec0);
                        assert(str2 is Some);
                        if sid == id@ {
                            assert(reducer.stored_for(sid) == str2);
                        }
                    }
                }
            }
            if valid && accepts(options, &record) {
                records.push(record);
                proof {
                    lemma_represents_bounded(*dist, st.records);
                    assert(dist.total_records < usize::MAX);
                }
                let ghost dist_pre = *dist;
                dist.insert(&record);
                proof {
                    lemma_distribution_tracks(dist_pre, *dist, st.records, record);
                    assert(st2.records =~= st.records.push(record));
                }
            } else {
                proof {
                    assert(st2.records =~= st.records);
                }
            }
        },
        Err(e) => {
            skipped.push((line_no, e));
            proof {
                assert(st2.skipped =~= st.skipped.push(line_no as int));
                assert(st2.records =~= st.records);
            }
        },
    }
}

/// Ingest a whole input: skip the header line, then run every data line
/// through [`pipe_line_step`].  The records come back in input order; the
/// tables count exactly the accepted records; each skipped entry carries
/// its one-based data-line number and an error naming the first offending
/// field of that line.
#[verifier::rlimit(100)]
pub fn read_records(input: Vec<u8>, options: &Options) -> (r: IngestResult)
    ensures
        ({
            let lines = lines_of(input@);
            let dls = if lines.len() > 0 {
                lines.drop_first()
            } else {
                Seq::empty()
            };
            let fin = pipe_run(dls, *options);
            &&& r.records@ == fin.records
            &&& represents(r.distribution, fin.records)
            &&& r.skipped@.len() == fin.skipped.len()
            &&& forall|k: int|
                0 <= k < fin.skipped.len() ==> (#[trigger] r.skipped@[k]).0 == fin.skipped[k]
                    && skip_entry_ok(dls, fin.skipped[k], r.skipped@[k].1)
        }),
{
    let ghost opts = *options;
    let mut splitter = RawLineSplitter::new(input);
    let ghost data = splitter.data@;
    let n = splitter.data.len();
    let ghost lines = lines_of(data);
    let ghost dls = if lines.len() > 0 {
        lines.drop_first()
    } else {
        Seq::<Seq<u8>>::empty()
    };

    let mut records: Vec<Record> = Vec::new();
    let mut reducer = Reducer::new();
    let mut dist = Distribution::new();
    let mut skipped: Vec<(usize, FieldDecodeError)> = Vec::new();

    let _header = splitter.read_line();
    proof {
        if data.len() > 0 {
            lemma_lines_from_unfold(data, 0);
            assert(dls =~= lines_from(data, splitter.pos as int));
        } else {
            assert(dls =~= lines_from(data, splitter.pos as int));
        }
        assert(lines_from(data, splitter.pos as int) =~= dls.subrange(0, dls.len() as int));
    }

    let mut line_count: usize = 0;
    while splitter.pos < n
        invariant
            splitter.wf(),
            splitter.data@ == data,
            n == data.len(),
            opts == *options,
            dls == (if lines_of(data).len() > 0 {
                lines_of(data).drop_first()
            } else {
                Seq::<Seq<u8>>::empty()
            }),
            line_count <= splitter.pos,
            splitter.pos <= n,
            line_count <= dls.len(),
            lines_from(data, splitter.pos as int) == dls.subrange(
                line_count as int,
                dls.len() as int,
            ),
            records@ == pipe_upto(dls, opts, line_count as int).records,
            records@.len() <= line_count,
            reducer.wf(),
            forall|sid: Seq<u8>| #[trigger] reducer.stored_for(sid) == stored_opt(
                pipe_upto(dls, opts, line_count as int).stored,
                sid,
            ),
            represents(dist, pipe_upto(dls, opts, line_count as int).records),
            skipped@.len() == pipe_upto(dls, opts, line_count as int).skipped.len(),
            forall|k: int|
                0 <= k < skipped@.len() ==> (#[trigger] skipped@[k]).0 == pipe_upto(
                    dls,
                    opts,
                    line_count as int,
                ).skipped[k] && skip_entry_ok(
                    dls,
                    pipe_upto(dls, opts, line_count as int).skipped[k],
                    skipped@[k].1,
                ),
        decreases n - splitter.pos,
    {
        let ghost k = line_count as int;
        let ghost st = pipe_upto(dls, opts, k);
        let ghost pre_pos = splitter.pos as int;
        let line = match splitter.read_line() {
            Some(l) => l,
            // The cursor is strictly inside the data, so a line comes back.
            None => {
                proof {
                    assert(false);
                }
                Vec::new()
            },
        };
        proof {
            lemma_lines_from_unfold(data, pre_pos);
            assert(dls.subrange(k, dls.len() as int) == seq![line@] + lines_from(
                data,
                splitter.pos as int,
            ));
            assert(dls[k] == dls.subrange(k, dls.len() as int)[0]);
            assert(dls[k] == line@);
            assert(lines_from(data, splitter.pos as int) =~= dls.subrange(
                k,
                dls.len() as int,
            ).drop_first());
            assert(dls.subrange(k, dls.len() as int).drop_first() =~= dls.subrange(
                k + 1,
                dls.len() as int,
            ));
        }
        line_count = line_count + 1;
        let ghost st2 = pipe_line_step(st, dls[k], k + 1, opts);
        proof {
            assert(st2 == pipe_upto(dls, opts, k + 1));
        }
        process_line(
            &mut records,
            &mut reducer,
            &mut dist,
            &mut skipped,
            &line,
            line_count,
            options,
            Ghost(st),
        );
        proof {
            if !parse_ok(fields_of(line@).drop_first()) {
                assert(skipped@.last().0 == line_count);
                assert(skipped@[skipped@.len() - 1] == skipped@.last());
            }
        }
    }
    proof {
        assert(dls.subrange(line_count as int, dls.len() as int) =~= Seq::<Seq<u8>>::empty());
        assert(line_count == dls.len());
        assert(data == input@);
        assert(dls == (if lines_of(input@).len() > 0 {
            lines_of(input@).drop_first()
        } else {
            Seq::<Seq<u8>>::empty()
        }));
        let fin = pipe_run(dls, opts);
        assert(fin == pipe_upto(dls, opts, line_count as int));
        assert(records@ == fin.records);
        assert(represents(dist, fin.records));
        assert(skipped@.len() == fin.skipped.len());
        assert forall|k: int| 0 <= k < fin.skipped.len() implies (#[trigger] skipped@[k]).0
            == fin.skipped[k] && skip_entry_ok(dls, fin.skipped[k], skipped@[k].1) by {
            assert(0 <= k < skipped@.len());
        }
    }
    IngestResult { records, distribution: dist, skipped }
}

} // verus!
