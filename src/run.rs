//! A whole reconciliation run as a state machine. The caller performs what
//! each action asks for (list remote refs, hash an artifact) and hands the
//! result back; the run walks the selected sources in map order, records
//! each outcome, and ends finished or aborted.
use crate::source::{names_unique, GetArtifactHashError, Source, SourceMap, SourceView};
use crate::update::{
    diff_entries, entry_index, fetch_view, lemma_run_idempotent, on_fetched, on_fetched_spec,
    on_listing, on_listing_spec, pass_spec, run_spec, settled, start_source, start_spec,
    FetchRequest, FetchView, OutcomeView, Step, StepView, UpdateAbort, UpdateArgs, UpdateReport,
};
use crate::updater::{ListingFailure, RemoteQuery, VersionUpdateScheme};
use vstd::prelude::*;

verus! {

/// What a run waits for before it can go on with the current source.
#[derive(Debug)]
pub enum Waiting {
    Nothing,
    Listing,
    /// The hash of the artifact of this candidate version.
    Hash(String),
}

/// What the caller does next.
#[derive(Debug)]
pub enum RunAction {
    /// List the remote refs, then call `give_listing`.
    List(RemoteQuery),
    /// Hash the artifact, then call `give_hash`.
    Fetch(FetchRequest),
    /// Every selected source is done; write the lockfile if `report.changed`.
    Finished,
    /// Stop without writing anything.
    Aborted(UpdateAbort),
}

/// Whether some source among the first `n` differs from what it was.
pub open spec fn changed_before(cur: Seq<(Seq<char>, SourceView)>, init: Seq<(Seq<char>, SourceView)>, n: int) -> bool {
    exists|k: int| 0 <= k < n && cur[k].1 != init[k].1
}

proof fn lemma_changed_step(
    cur: Seq<(Seq<char>, SourceView)>,
    next: Seq<(Seq<char>, SourceView)>,
    init: Seq<(Seq<char>, SourceView)>,
    i: int,
)
    requires
        0 <= i < cur.len(),
        cur.len() == next.len(),
        forall|k: int| 0 <= k < i ==> next[k] == cur[k],
    ensures
        changed_before(next, init, i + 1) == (changed_before(cur, init, i) || next[i].1 != init[i].1),
{
    if changed_before(cur, init, i) {
        let k = choose|k: int| 0 <= k < i && cur[k].1 != init[k].1;
        assert(next[k].1 != init[k].1);
    }
    if changed_before(next, init, i + 1) {
        let k = choose|k: int| 0 <= k < i + 1 && next[k].1 != init[k].1;
        if k < i {
            assert(cur[k].1 != init[k].1);
        }
    }
}

/// `n`, or `usize::MAX` where it is larger: how the report's counts grow.
pub open spec fn sat(n: int) -> usize {
    if n >= usize::MAX {
        usize::MAX
    } else {
        n as usize
    }
}

proof fn lemma_sat_add(a: int, b: int)
    requires
        0 <= a,
        0 <= b,
    ensures
        sat(sat(a) + b) == sat(a + b),
{
}

/// What an outcome adds to the counts of sources up to date, skipped,
/// skipped with an error, and updated.
pub open spec fn tally_of(o: OutcomeView) -> (nat, nat, nat, nat) {
    match o {
        OutcomeView::UpToDate => (1, 0, 0, 0),
        OutcomeView::Skipped => (0, 1, 0, 0),
        OutcomeView::Failed => (0, 1, 1, 0),
        OutcomeView::Updated(_, _) => (0, 0, 0, 1),
    }
}

pub open spec fn add3(x: (nat, nat, nat, nat), y: (nat, nat, nat, nat)) -> (nat, nat, nat, nat) {
    (x.0 + y.0, x.1 + y.1, x.2 + y.2, x.3 + y.3)
}

/// The outcome of a source's first step, where that step settles it.
pub open spec fn first_outcome(s: SourceView, a: UpdateArgs) -> OutcomeView {
    match start_spec(s, a).1 {
        StepView::Done(o, _) => o,
        _ => OutcomeView::Updated(Seq::empty(), Seq::empty()),
    }
}

/// What the selected sources from `from` up to `to`, each settled by its
/// first step, add to the counts.
pub open spec fn settled_tally(init: Seq<(Seq<char>, SourceView)>, a: UpdateArgs, from: int, to: int) -> (nat, nat, nat, nat)
    decreases to - from,
{
    if to <= from {
        (0, 0, 0, 0)
    } else if a.selected(init[to - 1].0) {
        add3(settled_tally(init, a, from, to - 1), tally_of(first_outcome(init[to - 1].1, a)))
    } else {
        settled_tally(init, a, from, to - 1)
    }
}

/// The counts of `after` are those of `before` grown by `d`.
pub open spec fn tallied(before: UpdateReport, after: UpdateReport, d: (nat, nat, nat, nat)) -> bool {
    &&& after.up_to_date == sat(before.up_to_date + d.0)
    &&& after.skipped == sat(before.skipped + d.1)
    &&& after.errors == sat(before.errors + d.2)
    &&& diff_entries(after.updated.inner).len() == diff_entries(before.updated.inner).len() + d.3
}

proof fn lemma_tallied_trans(a: UpdateReport, b: UpdateReport, c: UpdateReport, d: (nat, nat, nat, nat), e: (nat, nat, nat, nat))
    requires
        tallied(a, b, d),
        tallied(b, c, e),
    ensures
        tallied(a, c, add3(d, e)),
{
    lemma_sat_add(a.up_to_date + d.0, e.0 as int);
    lemma_sat_add(a.skipped + d.1, e.1 as int);
    lemma_sat_add(a.errors + d.2, e.2 as int);
}

/// Where `k` has an entry, that entry holds `k`.
proof fn lemma_entry_index(e: Seq<(Seq<char>, (Seq<char>, Seq<char>))>, k: Seq<char>)
    ensures
        entry_index(e, k) matches Some(i) ==> 0 <= i < e.len() && e[i].0 == k,
    decreases e.len(),
{
    if e.len() > 0 {
        lemma_entry_index(e.drop_last(), k);
    }
}

/// `n` is the name of one of the first `pos` sources.
pub open spec fn named_before(init: Seq<(Seq<char>, SourceView)>, pos: int, n: Seq<char>) -> bool {
    exists|k: int| 0 <= k < pos && init[k].0 == n
}

/// Recording the result of source `pos` keeps every name in the report a
/// name of a source up to `pos`, and adds one entry exactly for an update.
proof fn lemma_record_step(
    cur: Seq<(Seq<char>, SourceView)>,
    init: Seq<(Seq<char>, SourceView)>,
    pos: int,
    before: Seq<(Seq<char>, (Seq<char>, Seq<char>))>,
    after: Seq<(Seq<char>, (Seq<char>, Seq<char>))>,
    o: OutcomeView,
    x: (Seq<char>, Seq<char>),
)
    requires
        0 <= pos < init.len(),
        cur.len() == init.len(),
        names_unique(cur),
        forall|k: int| 0 <= k < cur.len() ==> #[trigger] cur[k].0 == init[k].0,
        forall|j: int| 0 <= j < before.len() ==> #[trigger] named_before(init, pos, before[j].0),
        o is Updated ==> match entry_index(before, init[pos].0) {
            Some(i) => after == before.update(i, (init[pos].0, x)),
            None => after == before.push((init[pos].0, x)),
        },
        !(o is Updated) ==> after == before,
    ensures
        forall|j: int| 0 <= j < after.len() ==> #[trigger] named_before(init, pos + 1, after[j].0),
        after.len() == before.len() + tally_of(o).3,
{
    lemma_entry_index(before, init[pos].0);
    if let Some(i) = entry_index(before, init[pos].0) {
        assert(named_before(init, pos, before[i].0));
        let k = choose|k: int| 0 <= k < pos && init[k].0 == before[i].0;
        assert(cur[k].0 == cur[pos].0);
    }
    assert forall|j: int| 0 <= j < after.len() implies #[trigger] named_before(init, pos + 1, after[j].0) by {
        if j < before.len() {
            assert(named_before(init, pos, before[j].0));
            let k = choose|k: int| 0 <= k < pos && init[k].0 == before[j].0;
            assert(after[j].0 == init[k].0);
        } else {
            assert(after[j].0 == init[pos].0);
        }
    }
}

/// A pinned source that a run with these options leaves alone.
pub open spec fn init_pinned(s: SourceView, a: UpdateArgs) -> bool {
    s.pinned && !a.force && !a.pin.unpin
}

/// One reconciliation run over a lockfile.
pub struct UpdateRun {
    pub sources: SourceMap,
    pub args: UpdateArgs,
    pub report: UpdateReport,
    /// The source being reconciled, or the next one to look at.
    pub position: usize,
    pub waiting: Waiting,
    /// The sources as the run found them.
    pub initial: Ghost<Seq<(Seq<char>, SourceView)>>,
}

fn placeholder() -> (String, Source) {
    (String::new(), Source::new("", "", VersionUpdateScheme::Static { unpack: false }))
}

impl UpdateRun {
    /// The state of a run: names and order are kept, the sources from
    /// `position` on are untouched, an unselected source or a pinned one (when
    /// the run is neither forced nor unpinning) stays as it was, and the report
    /// records a change exactly when some source before `position` changed.
    pub open spec fn wf(&self) -> bool {
        let init = self.initial@;
        let cur = self.sources@;
        &&& self.sources.wf()
        &&& cur.len() == init.len()
        &&& self.position <= cur.len()
        &&& forall|k: int| 0 <= k < cur.len() ==> #[trigger] cur[k].0 == init[k].0
        &&& forall|k: int| self.position <= k < cur.len() ==> #[trigger] cur[k].1 == init[k].1
        &&& forall|k: int|
            0 <= k < self.position && !self.args.selected(init[k].0) ==> #[trigger] cur[k] == init[k]
        &&& forall|k: int| 0 <= k < self.position && init_pinned(init[k].1, self.args) ==> #[trigger] cur[k] == init[k]
        &&& self.report.changed == changed_before(cur, init, self.position as int)
        &&& forall|j: int|
            0 <= j < diff_entries(self.report.updated.inner).len() ==> #[trigger] named_before(
                init,
                self.position as int,
                diff_entries(self.report.updated.inner)[j].0,
            )
        &&& !(self.waiting is Nothing) ==> {
            &&& self.position < cur.len()
            &&& !init_pinned(init[self.position as int].1, self.args)
            &&& self.args.selected(init[self.position as int].0)
        }
    }

    /// A run over `sources`, with nothing reconciled yet.
    pub fn new(sources: SourceMap, args: UpdateArgs) -> (r: UpdateRun)
        requires
            sources.wf(),
        ensures
            r.wf(),
            r.initial@ == sources@,
            r.sources@ == sources@,
            r.args == args,
            r.position == 0,
            r.waiting is Nothing,
            !r.report.changed,
    {
        let ghost initial = sources@;
        UpdateRun {
            sources,
            args,
            report: UpdateReport::new(),
            position: 0,
            waiting: Waiting::Nothing,
            initial: Ghost(initial),
        }
    }

    /// When the run is finished, whether the lockfile is to be written: exactly
    /// when some source changed.
    pub open spec fn finished_state(&self) -> bool {
        &&& self.position == self.sources@.len()
        &&& self.waiting is Nothing
        &&& (self.report.changed <==> exists|k: int|
            0 <= k < self.sources@.len() && self.sources@[k].1 != self.initial@[k].1)
    }

    /// The sources from `from` up to `position` that the run selects were
    /// settled by their first step alone.
    pub open spec fn settled_from(&self, from: int) -> bool {
        forall|k: int|
            from <= k < self.position && self.args.selected(self.initial@[k].0) ==> {
                &&& (#[trigger] start_spec(self.initial@[k].1, self.args)).1 is Done
                &&& self.sources@[k].1 == start_spec(self.initial@[k].1, self.args).0
            }
    }

    /// What the first step of the current source asked for.
    pub open spec fn current_step(&self) -> StepView {
        start_spec(self.initial@[self.position as int].1, self.args).1
    }

    /// Goes on from `position` until a source needs outside work, the run
    /// aborts, or every source is done.
    pub fn resume(&mut self) -> (r: RunAction)
        requires
            old(self).wf(),
            old(self).waiting is Nothing,
        ensures
            final(self).wf(),
            final(self).initial == old(self).initial,
            final(self).args == old(self).args,
            old(self).position <= final(self).position,
            r is Finished ==> final(self).finished_state(),
            r is List ==> final(self).waiting is Listing,
            r matches RunAction::Fetch(f) ==> final(self).waiting == Waiting::Hash(f.candidate),
            r is Aborted ==> final(self).waiting is Nothing,
            final(self).settled_from(old(self).position as int),
            forall|k: int| 0 <= k < old(self).position ==> #[trigger] final(self).sources@[k] == old(self).sources@[k],
            tallied(
                old(self).report,
                final(self).report,
                settled_tally(old(self).initial@, old(self).args, old(self).position as int, final(self).position as int),
            ),
            !(r is Finished) ==> {
                &&& final(self).position < final(self).sources@.len()
                &&& final(self).args.selected(final(self).initial@[final(self).position as int].0)
            },
            r is Aborted ==> final(self).current_step() is Abort,
            r matches RunAction::List(q) ==> final(self).current_step() == Step::List(q)@,
            r matches RunAction::Fetch(f) ==> final(self).current_step() == Step::Fetch(f)@,
    {
        while self.position < self.sources.inner.len()
            invariant
                self.wf(),
                self.waiting is Nothing,
                self.initial == old(self).initial,
                self.args == old(self).args,
                old(self).position <= self.position,
                self.settled_from(old(self).position as int),
                forall|k: int| 0 <= k < old(self).position ==> #[trigger] self.sources@[k] == old(self).sources@[k],
                tallied(
                    old(self).report,
                    self.report,
                    settled_tally(self.initial@, self.args, old(self).position as int, self.position as int),
                ),
            decreases self.sources.inner.len() - self.position,
        {
            let i = self.position;
            let ghost cur = self.sources@;
            let ghost init = self.initial@;
            proof {
                assert(cur[i as int].0 == init[i as int].0);
                assert(cur[i as int].1 == init[i as int].1);
                assert(cur[i as int] == init[i as int]);
            }
            if !self.args.selects(self.sources.inner[i].0.as_str()) {
                proof {
                    lemma_changed_step(cur, cur, init, i as int);
                    let e = diff_entries(self.report.updated.inner);
                    assert forall|j: int| 0 <= j < e.len() implies #[trigger] named_before(init, i + 1, e[j].0) by {
                        assert(named_before(init, i as int, e[j].0));
                        let k = choose|k: int| 0 <= k < i && init[k].0 == e[j].0;
                        assert(0 <= k < i + 1 && init[k].0 == e[j].0);
                    }
                    assert forall|k: int| 0 <= k < i + 1 && !self.args.selected(init[k].0) implies #[trigger] cur[k] == init[k] by {
                        if k == i {
                            assert(cur[k] == init[k]);
                        }
                    }
                    assert forall|k: int|
                        0 <= k < i + 1 && init_pinned(init[k].1, self.args) implies #[trigger] cur[k] == init[k] by {
                        if k == i {
                            assert(cur[k] == init[k]);
                        }
                    }
                }
                self.position = i + 1;
                continue;
            }
            let mut entry = placeholder();
            self.sources.inner.set_and_swap(i, &mut entry);
            let step = start_source(&mut entry.1, &self.args);
            let name = entry.0.clone();
            self.sources.inner.set_and_swap(i, &mut entry);
            let ghost next = self.sources@;
            proof {
                assert(next =~= cur.update(i as int, (cur[i as int].0, next[i as int].1)));
                assert(self.args.selected(init[i as int].0));
                if !(step is Done) {
                    assert(next =~= cur);
                }
                assert forall|a: int, b: int| 0 <= a < b < next.len() implies next[a].0 != next[b].0 by {
                    assert(next[a].0 == cur[a].0);
                    assert(next[b].0 == cur[b].0);
                }
            }
            match step {
                Step::Done(res) => {
                    proof {
                        lemma_changed_step(cur, next, init, i as int);
                        assert forall|k: int| 0 <= k < next.len() implies #[trigger] next[k].0 == init[k].0 by {
                            assert(next[k].0 == cur[k].0);
                        }
                        assert forall|k: int|
                            0 <= k < i + 1 && init_pinned(init[k].1, self.args) implies #[trigger] next[k] == init[k] by {
                            if k == i {
                                assert(next[k].1 == init[k].1);
                            } else {
                                assert(next[k] == cur[k]);
                            }
                        }
                        assert forall|k: int| 0 <= k < i + 1 && !self.args.selected(init[k].0) implies #[trigger] next[k] == init[k] by {
                            assert(k != i);
                            assert(next[k] == cur[k]);
                        }
                    }
                    let ghost entries_before = diff_entries(self.report.updated.inner);
                    let ghost o = res.outcome@;
                    let ghost x = match res.outcome@ {
                        OutcomeView::Updated(a, b) => (a, b),
                        _ => (Seq::empty(), Seq::empty()),
                    };
                    assert(name@ == self.initial@[i as int].0);
                    self.report.record(name, res);
                    proof {
                        lemma_record_step(
                            self.sources@,
                            self.initial@,
                            i as int,
                            entries_before,
                            diff_entries(self.report.updated.inner),
                            o,
                            x,
                        );
                    }
                    self.position = i + 1;
                },
                Step::List(q) => {
                    self.waiting = Waiting::Listing;
                    return RunAction::List(q);
                },
                Step::Fetch(f) => {
                    self.waiting = Waiting::Hash(f.candidate.clone());
                    return RunAction::Fetch(f);
                },
                Step::Abort(e) => {
                    return RunAction::Aborted(e);
                },
            }
        }
        proof {
            let cur = self.sources@;
            let init = self.initial@;
            assert(self.report.changed == changed_before(cur, init, cur.len() as int));
        }
        RunAction::Finished
    }

    /// The common end of the two hand-back calls: the source at `position`
    /// got its final value `next`, and its result is counted.
    proof fn lemma_settle(&self, cur: Seq<(Seq<char>, SourceView)>, next: Seq<(Seq<char>, SourceView)>)
        requires
            self.wf(),
            !(self.waiting is Nothing),
            cur == self.sources@,
            next.len() == cur.len(),
            next =~= cur.update(self.position as int, (cur[self.position as int].0, next[self.position as int].1)),
        ensures
            forall|a: int, b: int| 0 <= a < b < next.len() ==> next[a].0 != next[b].0,
            forall|k: int| 0 <= k < next.len() ==> #[trigger] next[k].0 == self.initial@[k].0,
            forall|k: int| self.position + 1 <= k < next.len() ==> #[trigger] next[k].1 == self.initial@[k].1,
            forall|k: int|
                0 <= k < self.position + 1 && init_pinned(self.initial@[k].1, self.args) ==> #[trigger] next[k]
                    == self.initial@[k],
            forall|k: int|
                0 <= k < self.position + 1 && !self.args.selected(self.initial@[k].0) ==> #[trigger] next[k]
                    == self.initial@[k],
            changed_before(next, self.initial@, self.position + 1) == (changed_before(cur, self.initial@, self.position as int)
                || next[self.position as int].1 != self.initial@[self.position as int].1),
    {
        let i = self.position as int;
        let init = self.initial@;
        lemma_changed_step(cur, next, init, i);
        assert forall|a: int, b: int| 0 <= a < b < next.len() implies next[a].0 != next[b].0 by {
            assert(next[a].0 == cur[a].0);
            assert(next[b].0 == cur[b].0);
        }
        assert forall|k: int| 0 <= k < next.len() implies #[trigger] next[k].0 == init[k].0 by {
            assert(next[k].0 == cur[k].0);
        }
        assert forall|k: int| 0 <= k < i + 1 && init_pinned(init[k].1, self.args) implies #[trigger] next[k] == init[k] by {
            assert(k != i);
            assert(next[k] == cur[k]);
        }
        assert forall|k: int| 0 <= k < i + 1 && !self.args.selected(init[k].0) implies #[trigger] next[k] == init[k] by {
            assert(k != i);
            assert(next[k] == cur[k]);
        }
    }

    /// Hands back the listing of remote refs that `RunAction::List` asked for.
    pub fn give_listing(&mut self, listing: Result<String, ListingFailure>) -> (r: RunAction)
        requires
            old(self).wf(),
            old(self).waiting is Listing,
        ensures
            final(self).wf(),
            final(self).initial == old(self).initial,
            final(self).args == old(self).args,
            old(self).position <= final(self).position,
            r is Finished ==> final(self).finished_state(),
            r is List ==> final(self).waiting is Listing,
            r matches RunAction::Fetch(f) ==> final(self).waiting == Waiting::Hash(f.candidate),
            r is Aborted ==> final(self).waiting is Nothing,
            ({
                let st = on_listing_spec(
                    old(self).initial@[old(self).position as int].1,
                    old(self).args.refetch,
                    match listing {
                        Ok(out) => Some(out@),
                        Err(_) => None,
                    },
                );
                &&& st is Abort ==> r is Aborted && final(self).position == old(self).position
                    && tallied(old(self).report, final(self).report, (0, 0, 0, 0))
                &&& st is Fetch ==> (r matches RunAction::Fetch(f) && Step::Fetch(f)@ == st
                    && final(self).position == old(self).position && tallied(
                    old(self).report,
                    final(self).report,
                    (0, 0, 0, 0),
                ))
                &&& st matches StepView::Done(o, _) ==> tallied(
                    old(self).report,
                    final(self).report,
                    add3(
                        tally_of(o),
                        settled_tally(
                            old(self).initial@,
                            old(self).args,
                            old(self).position + 1,
                            final(self).position as int,
                        ),
                    ),
                )
                &&& st is Done ==> {
                    &&& old(self).position < final(self).position
                    &&& final(self).sources@[old(self).position as int].1 == old(
                        self,
                    ).initial@[old(self).position as int].1
                    &&& final(self).settled_from(old(self).position + 1)
                }
            }),
    {
        let i = self.position;
        let n = self.sources.inner.len();
        let ghost cur = self.sources@;
        let ghost pre = *self;
        assert(i < n);
        let mut entry = placeholder();
        self.sources.inner.set_and_swap(i, &mut entry);
        assert(entry.1@ == cur[i as int].1);
        let step = on_listing(&entry.1, &self.args, listing);
        let name = entry.0.clone();
        self.sources.inner.set_and_swap(i, &mut entry);
        proof {
            assert(self.sources@ =~= cur);
            assert(self.report == pre.report);
            assert(self.position == pre.position);
            assert(self.initial == pre.initial);
        }
        match step {
            Step::Done(res) => {
                proof {
                    pre.lemma_settle(cur, cur);
                }
                let ghost before = self.report;
                let ghost outcome = res.outcome@;
                let ghost entries_before = diff_entries(self.report.updated.inner);
                let ghost o = res.outcome@;
                let ghost x = match res.outcome@ {
                    OutcomeView::Updated(a, b) => (a, b),
                    _ => (Seq::empty(), Seq::empty()),
                };
                assert(name@ == self.initial@[i as int].0);
                self.report.record(name, res);
                proof {
                    lemma_record_step(
                        self.sources@,
                        self.initial@,
                        i as int,
                        entries_before,
                        diff_entries(self.report.updated.inner),
                        o,
                        x,
                    );
                }
                let ghost mid = self.report;
                self.position = i + 1;
                self.waiting = Waiting::Nothing;
                let r = self.resume();
                proof {
                    lemma_tallied_trans(
                        before,
                        mid,
                        self.report,
                        tally_of(outcome),
                        settled_tally(self.initial@, self.args, i + 1, self.position as int),
                    );
                }
                r
            },
            Step::Fetch(f) => {
                self.waiting = Waiting::Hash(f.candidate.clone());
                RunAction::Fetch(f)
            },
            Step::Abort(e) => {
                self.waiting = Waiting::Nothing;
                RunAction::Aborted(e)
            },
            Step::List(q) => {
                self.waiting = Waiting::Listing;
                RunAction::List(q)
            },
        }
    }

    /// Hands back the result of hashing the artifact that `RunAction::Fetch`
    /// asked for.
    pub fn give_hash(&mut self, fetched: Result<String, GetArtifactHashError>) -> (r: RunAction)
        requires
            old(self).wf(),
            old(self).waiting is Hash,
        ensures
            final(self).wf(),
            final(self).initial == old(self).initial,
            final(self).args == old(self).args,
            old(self).position < final(self).position,
            r is Finished ==> final(self).finished_state(),
            r is List ==> final(self).waiting is Listing,
            r matches RunAction::Fetch(f) ==> final(self).waiting == Waiting::Hash(f.candidate),
            r is Aborted ==> final(self).waiting is Nothing,
            final(self).sources@[old(self).position as int].1 == on_fetched_spec(
                old(self).initial@[old(self).position as int].1,
                old(self).waiting->Hash_0@,
                fetch_view(fetched),
            ).0,
            final(self).settled_from(old(self).position + 1),
            tallied(
                old(self).report,
                final(self).report,
                add3(
                    tally_of(
                        on_fetched_spec(
                            old(self).initial@[old(self).position as int].1,
                            old(self).waiting->Hash_0@,
                            fetch_view(fetched),
                        ).1,
                    ),
                    settled_tally(
                        old(self).initial@,
                        old(self).args,
                        old(self).position + 1,
                        final(self).position as int,
                    ),
                ),
            ),
    {
        let i = self.position;
        let n = self.sources.inner.len();
        let ghost cur = self.sources@;
        let ghost pre = *self;
        assert(i < n);
        let candidate = match &self.waiting {
            Waiting::Hash(c) => c.clone(),
            _ => String::new(),
        };
        let mut entry = placeholder();
        self.sources.inner.set_and_swap(i, &mut entry);
        assert(entry.1@ == cur[i as int].1);
        let res = on_fetched(&mut entry.1, candidate.as_str(), fetched);
        let ghost after = entry.1@;
        let name = entry.0.clone();
        self.sources.inner.set_and_swap(i, &mut entry);
        proof {
            assert(self.sources@[i as int].1 == after);
            assert(res.changed == (self.sources@[i as int].1 != self.initial@[i as int].1));
            assert(self.sources@ =~= cur.update(i as int, (cur[i as int].0, self.sources@[i as int].1)));
            pre.lemma_settle(cur, self.sources@);
        }
        let ghost before = self.report;
        let ghost outcome = res.outcome@;
        let ghost entries_before = diff_entries(self.report.updated.inner);
        let ghost o = res.outcome@;
        let ghost x = match res.outcome@ {
            OutcomeView::Updated(a, b) => (a, b),
            _ => (Seq::empty(), Seq::empty()),
        };
        assert(name@ == self.initial@[i as int].0);
        self.report.record(name, res);
        proof {
            lemma_record_step(
                self.sources@,
                self.initial@,
                i as int,
                entries_before,
                diff_entries(self.report.updated.inner),
                o,
                x,
            );
        }
        let ghost mid = self.report;
        self.position = i + 1;
        self.waiting = Waiting::Nothing;
        let r = self.resume();
        proof {
            lemma_tallied_trans(
                before,
                mid,
                self.report,
                tally_of(outcome),
                settled_tally(self.initial@, self.args, i + 1, self.position as int),
            );
        }
        r
    }
}

/// What the first `n` entries of a run add to the report's counts, each
/// selected source reconciled as `pass_spec` does.
pub open spec fn run_tally(
    m: Seq<(Seq<char>, SourceView)>,
    a: UpdateArgs,
    tags: spec_fn(Seq<char>) -> Option<Seq<char>>,
    branches: spec_fn(Seq<char>) -> Option<Seq<char>>,
    fetch: spec_fn(Seq<char>, bool) -> FetchView,
    n: int,
) -> (nat, nat, nat, nat)
    decreases n,
{
    if n <= 0 {
        (0, 0, 0, 0)
    } else if a.selected(m[n - 1].0) {
        match pass_spec(m[n - 1].1, a, tags, branches, fetch).1 {
            StepView::Done(o, _) => add3(run_tally(m, a, tags, branches, fetch, n - 1), tally_of(o)),
            _ => run_tally(m, a, tags, branches, fetch, n - 1),
        }
    } else {
        run_tally(m, a, tags, branches, fetch, n - 1)
    }
}

/// How many of the first `n` entries the run selects.
pub open spec fn selected_count(m: Seq<(Seq<char>, SourceView)>, a: UpdateArgs, n: int) -> nat
    decreases n,
{
    if n <= 0 {
        0
    } else if a.selected(m[n - 1].0) {
        selected_count(m, a, n - 1) + 1
    } else {
        selected_count(m, a, n - 1)
    }
}

/// Idempotence, as the report counts it: where every selected source of a
/// first run was updated or found up to date, a second run with the same
/// options and nothing changed on the remote side counts every selected
/// source as up to date, and none as updated, skipped or failed.
pub proof fn lemma_second_run_counts(
    m: Seq<(Seq<char>, SourceView)>,
    a: UpdateArgs,
    tags: spec_fn(Seq<char>) -> Option<Seq<char>>,
    branches: spec_fn(Seq<char>) -> Option<Seq<char>>,
    fetch: spec_fn(Seq<char>, bool) -> FetchView,
)
    requires
        forall|i: int|
            0 <= i < m.len() && a.selected(m[i].0) ==> settled(
                #[trigger] pass_spec(m[i].1, a, tags, branches, fetch).1,
            ),
    ensures
        run_tally(run_spec(m, a, tags, branches, fetch), a, tags, branches, fetch, m.len() as int) == (
            selected_count(m, a, m.len() as int),
            0nat,
            0nat,
            0nat,
        ),
{
    lemma_run_idempotent(m, a, tags, branches, fetch);
    let m1 = run_spec(m, a, tags, branches, fetch);
    assert forall|n: int| 0 <= n <= m.len() implies run_tally(m1, a, tags, branches, fetch, n) == (
        selected_count(m, a, n),
        0nat,
        0nat,
        0nat,
    ) by {
        lemma_second_run_counts_prefix(m, a, tags, branches, fetch, n);
    }
}

proof fn lemma_second_run_counts_prefix(
    m: Seq<(Seq<char>, SourceView)>,
    a: UpdateArgs,
    tags: spec_fn(Seq<char>) -> Option<Seq<char>>,
    branches: spec_fn(Seq<char>) -> Option<Seq<char>>,
    fetch: spec_fn(Seq<char>, bool) -> FetchView,
    n: int,
)
    requires
        0 <= n <= m.len(),
        forall|i: int|
            0 <= i < m.len() && a.selected(m[i].0) ==> (#[trigger] pass_spec(
                run_spec(m, a, tags, branches, fetch)[i].1,
                a,
                tags,
                branches,
                fetch,
            )).1 == StepView::Done(OutcomeView::UpToDate, false),
    ensures
        run_tally(run_spec(m, a, tags, branches, fetch), a, tags, branches, fetch, n) == (
            selected_count(m, a, n),
            0nat,
            0nat,
            0nat,
        ),
    decreases n,
{
    if n > 0 {
        lemma_second_run_counts_prefix(m, a, tags, branches, fetch, n - 1);
        let m1 = run_spec(m, a, tags, branches, fetch);
        assert(m1[n - 1].0 == m[n - 1].0);
        if a.selected(m[n - 1].0) {
            assert(pass_spec(m1[n - 1].1, a, tags, branches, fetch).1 == StepView::Done(OutcomeView::UpToDate, false));
        }
    }
}

} // verus!
