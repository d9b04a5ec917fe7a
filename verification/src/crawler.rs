//! The pagination crawler: a state machine that walks a sequence of detail
//! views, parsing and emitting one record per view, until the driver reports
//! no further sibling, a caller-supplied bound is met, or a parse or
//! navigation failure stops the crawl.
//!
//! Records are emitted strictly in traversal order. A crawl either yields
//! the full ordered record sequence, or a prefix of it plus one terminal
//! failure value — never a silently truncated sequence.
//!
//! [`crawl_step`] is the one decision the machine takes at a positioned
//! view; a caller that owns a live browser session runs the loop itself,
//! performing the navigation between steps. [`crawl_views`] runs the same
//! machine over a fixed synthetic sequence of views.

use vstd::prelude::*;

use crate::parser::{parse, parse_spec, DetailView, SpecDetailView};
use crate::record::{Card, ParseFailure, SpecCard};

verus! {

/// How a finished crawl ended: the terminal record or the bound was reached,
/// or a failure stopped the crawl after the records already emitted.
#[derive(Debug, Clone, Copy, PartialEq, Eq, Structural)]
pub enum CrawlEnd {
    Exhausted,
    Failed(ParseFailure),
}

/// One position of a crawl: the view displayed there, and whether the driver
/// reports a further sibling record.
#[derive(Debug, Clone, PartialEq, Eq)]
pub struct ViewFrame {
    pub view: DetailView,
    pub has_sibling: bool,
}

/// The mathematical model of a [`ViewFrame`].
#[verifier::ext_equal]
pub ghost struct SpecViewFrame {
    pub view: SpecDetailView,
    pub has_sibling: bool,
}

impl View for ViewFrame {
    type V = SpecViewFrame;

    open spec fn view(&self) -> SpecViewFrame {
        SpecViewFrame { view: self.view@, has_sibling: self.has_sibling }
    }
}

impl DeepView for ViewFrame {
    type V = SpecViewFrame;

    open spec fn deep_view(&self) -> SpecViewFrame {
        self.view()
    }
}

/// What the crawler decides at one positioned view.
#[derive(Debug, Clone, PartialEq, Eq)]
pub enum CrawlStep {
    /// Stop without emitting: the bound was already met, or parsing failed.
    Stop(CrawlEnd),
    /// Emit this record; the flag says whether to advance to a sibling and
    /// continue.
    Emit(Card, bool),
}

/// The mathematical model of a [`CrawlStep`].
pub ghost enum SpecCrawlStep {
    Stop(CrawlEnd),
    Emit(SpecCard, bool),
}

impl View for CrawlStep {
    type V = SpecCrawlStep;

    open spec fn view(&self) -> SpecCrawlStep {
        match self {
            CrawlStep::Stop(end) => SpecCrawlStep::Stop(*end),
            CrawlStep::Emit(c, advance) => SpecCrawlStep::Emit(c@, *advance),
        }
    }
}

/// Whether a caller-supplied bound stops the crawl once `emitted` records
/// are out. No bound never stops it.
pub open spec fn bound_reached(emitted: int, bound: Option<u16>) -> bool {
    match bound {
        Option::Some(b) => emitted >= b,
        Option::None => false,
    }
}

/// One transition of the pagination state machine, positioned on a view with
/// `emitted` records already out: stop if the bound is met; fail if the view
/// does not parse; otherwise emit the record and advance exactly when a
/// sibling exists and the bound is not met by this record either.
pub open spec fn step_spec(frame: SpecViewFrame, emitted: int, bound: Option<u16>) -> SpecCrawlStep {
    if bound_reached(emitted, bound) {
        SpecCrawlStep::Stop(CrawlEnd::Exhausted)
    } else {
        match parse_spec(frame.view) {
            Err(e) => SpecCrawlStep::Stop(CrawlEnd::Failed(e)),
            Ok(c) => SpecCrawlStep::Emit(
                c,
                frame.has_sibling && !bound_reached(emitted + 1, bound),
            ),
        }
    }
}

/// Takes one crawl step at the currently displayed view. The caller performs
/// whatever the step says: hand the record to the sink, then advance.
pub fn crawl_step(view: &DetailView, has_sibling: bool, emitted: usize, bound: Option<u16>) -> (r:
    CrawlStep)
    ensures
        r@ == step_spec(
            SpecViewFrame { view: view@, has_sibling },
            emitted as int,
            bound,
        ),
{
    if let Option::Some(b) = bound {
        if emitted >= b as usize {
            return CrawlStep::Stop(CrawlEnd::Exhausted);
        }
    }
    match parse(view) {
        Err(e) => CrawlStep::Stop(CrawlEnd::Failed(e)),
        Ok(c) => {
            let mut advance = has_sibling;
            if let Option::Some(b) = bound {
                if emitted + 1 >= b as usize {
                    advance = false;
                }
            }
            CrawlStep::Emit(c, advance)
        },
    }
}

/// A finished crawl: the records emitted in traversal order, and how it
/// ended. On `Failed`, the records are the prefix parsed before the failure,
/// so their number is the traversal index at which it occurred.
#[derive(Debug, Clone, PartialEq, Eq)]
pub struct CrawlResult {
    pub records: Vec<Card>,
    pub end: CrawlEnd,
}

/// The crawl over a remaining sequence of positioned views, `emitted`
/// records already out: what [`step_spec`] decides at each view, folded to
/// the emitted record sequence and the terminal state. Running out of frames
/// while still positioned is a navigation fault.
pub open spec fn crawl_from(frames: Seq<SpecViewFrame>, emitted: int, bound: Option<u16>) -> (
    Seq<SpecCard>,
    CrawlEnd,
)
    decreases frames.len(),
{
    if bound_reached(emitted, bound) {
        (Seq::<SpecCard>::empty(), CrawlEnd::Exhausted)
    } else if frames.len() == 0 {
        (Seq::<SpecCard>::empty(), CrawlEnd::Failed(ParseFailure::NavigationFault))
    } else {
        match step_spec(frames[0], emitted, bound) {
            SpecCrawlStep::Stop(end) => (Seq::<SpecCard>::empty(), end),
            SpecCrawlStep::Emit(c, advance) => {
                if !advance {
                    (seq![c], CrawlEnd::Exhausted)
                } else {
                    let rest = crawl_from(frames.drop_first(), emitted + 1, bound);
                    (seq![c].add(rest.0), rest.1)
                }
            },
        }
    }
}

/// A whole crawl, from the first positioned view.
pub open spec fn crawl_spec(frames: Seq<SpecViewFrame>, bound: Option<u16>) -> (
    Seq<SpecCard>,
    CrawlEnd,
) {
    crawl_from(frames, 0, bound)
}

/// Runs the pagination machine over a fixed sequence of views: parse, emit,
/// check the bound, consult the sibling marker, advance.
pub fn crawl_views(frames: &Vec<ViewFrame>, bound: Option<u16>) -> (r: CrawlResult)
    ensures
        r.records.deep_view() == crawl_spec(frames.deep_view(), bound).0,
        r.end == crawl_spec(frames.deep_view(), bound).1,
{
    let ghost gframes = frames.deep_view();
    let mut records: Vec<Card> = Vec::new();
    let mut i: usize = 0;
    proof {
        assert(gframes.skip(0) =~= gframes);
        assert(records.deep_view() =~= Seq::<SpecCard>::empty());
    }
    loop
        invariant
            i <= frames@.len(),
            gframes == frames.deep_view(),
            gframes.len() == frames@.len(),
            records@.len() == i,
            records.deep_view().len() == i,
            crawl_spec(gframes, bound).0 == records.deep_view().add(
                crawl_from(gframes.skip(i as int), i as int, bound).0,
            ),
            crawl_spec(gframes, bound).1 == crawl_from(gframes.skip(i as int), i as int, bound).1,
        decreases frames@.len() - i,
    {
        let ghost rem = gframes.skip(i as int);
        if let Option::Some(b) = bound {
            if records.len() >= b as usize {
                proof {
                    assert(records.deep_view().add(Seq::<SpecCard>::empty())
                        =~= records.deep_view());
                }
                return CrawlResult { records, end: CrawlEnd::Exhausted };
            }
        }
        if i == frames.len() {
            proof {
                assert(records.deep_view().add(Seq::<SpecCard>::empty()) =~= records.deep_view());
            }
            return CrawlResult { records, end: CrawlEnd::Failed(ParseFailure::NavigationFault) };
        }
        proof {
            assert(rem[0] == gframes[i as int]);
            assert(gframes[i as int] == frames@[i as int].deep_view());
        }
        let frame = &frames[i];
        let step = crawl_step(&frame.view, frame.has_sibling, records.len(), bound);
        match step {
            CrawlStep::Stop(end) => {
                proof {
                    assert(records.deep_view().add(Seq::<SpecCard>::empty())
                        =~= records.deep_view());
                }
                return CrawlResult { records, end };
            },
            CrawlStep::Emit(c, advance) => {
                let ghost emitted_c = c@;
                let ghost old_records = records.deep_view();
                records.push(c);
                proof {
                    assert(records.deep_view() =~= old_records.push(emitted_c));
                }
                if !advance {
                    proof {
                        assert(old_records.push(emitted_c) =~= old_records.add(seq![emitted_c]));
                    }
                    return CrawlResult { records, end: CrawlEnd::Exhausted };
                }
                proof {
                    assert(rem.drop_first() =~= gframes.skip(i as int + 1));
                    let rest = crawl_from(gframes.skip(i as int + 1), i as int + 1, bound);
                    assert(old_records.add(seq![emitted_c].add(rest.0)) =~= old_records.push(
                        emitted_c,
                    ).add(rest.0));
                }
            },
        }
        i += 1;
    }
}

proof fn lemma_crawl_exhausts_from(frames: Seq<SpecViewFrame>, emitted: int)
    requires
        frames.len() >= 1,
        forall|i: int| 0 <= i < frames.len() ==> (#[trigger] parse_spec(frames[i].view)) is Ok,
        forall|i: int| 0 <= i < frames.len() - 1 ==> (#[trigger] frames[i]).has_sibling,
        !frames[frames.len() - 1].has_sibling,
    ensures
        crawl_from(frames, emitted, Option::None).1 == CrawlEnd::Exhausted,
        crawl_from(frames, emitted, Option::None).0.len() == frames.len(),
        forall|i: int|
            0 <= i < frames.len() ==> crawl_from(frames, emitted, Option::None).0[i] == (
            #[trigger] parse_spec(frames[i].view))->Ok_0,
    decreases frames.len(),
{
    let c = parse_spec(frames[0].view)->Ok_0;
    if frames.len() == 1 {
        assert(crawl_from(frames, emitted, Option::None).0 =~= seq![c]);
    } else {
        assert(frames[0].has_sibling);
        let tail = frames.drop_first();
        assert forall|i: int| 0 <= i < tail.len() implies (#[trigger] parse_spec(
            tail[i].view,
        )) is Ok by {
            assert(tail[i] == frames[i + 1]);
        }
        assert forall|i: int| 0 <= i < tail.len() - 1 implies (#[trigger] tail[i]).has_sibling by {
            assert(tail[i] == frames[i + 1]);
        }
        assert(tail[tail.len() - 1] == frames[frames.len() - 1]);
        lemma_crawl_exhausts_from(tail, emitted + 1);
        let rest = crawl_from(tail, emitted + 1, Option::None);
        assert(crawl_from(frames, emitted, Option::None).0 == seq![c].add(rest.0));
        assert forall|i: int| 0 <= i < frames.len() implies crawl_from(
            frames,
            emitted,
            Option::None,
        ).0[i] == (#[trigger] parse_spec(frames[i].view))->Ok_0 by {
            if i > 0 {
                assert(rest.0[i - 1] == parse_spec(tail[i - 1].view)->Ok_0);
                assert(tail[i - 1] == frames[i]);
            }
        }
    }
}

/// Law: over a synthetic sequence in which every view parses, every frame
/// but the last reports a sibling and the last does not, an unbounded crawl
/// emits exactly one record per view, in traversal order, and ends
/// `Exhausted`.
pub proof fn lemma_crawl_exhausts(frames: Seq<SpecViewFrame>)
    requires
        frames.len() >= 1,
        forall|i: int| 0 <= i < frames.len() ==> (#[trigger] parse_spec(frames[i].view)) is Ok,
        forall|i: int| 0 <= i < frames.len() - 1 ==> (#[trigger] frames[i]).has_sibling,
        !frames[frames.len() - 1].has_sibling,
    ensures
        crawl_spec(frames, Option::None).1 == CrawlEnd::Exhausted,
        crawl_spec(frames, Option::None).0.len() == frames.len(),
        forall|i: int|
            0 <= i < frames.len() ==> crawl_spec(frames, Option::None).0[i] == (
            #[trigger] parse_spec(frames[i].view))->Ok_0,
{
    lemma_crawl_exhausts_from(frames, 0);
}

proof fn lemma_crawl_bounded_from(frames: Seq<SpecViewFrame>, emitted: int, b: u16)
    requires
        0 <= emitted <= b,
        b - emitted <= frames.len(),
        forall|i: int|
            0 <= i < b - emitted ==> (#[trigger] parse_spec(frames[i].view)) is Ok,
        forall|i: int| 0 <= i < b - emitted - 1 ==> (#[trigger] frames[i]).has_sibling,
    ensures
        crawl_from(frames, emitted, Option::Some(b)).1 == CrawlEnd::Exhausted,
        crawl_from(frames, emitted, Option::Some(b)).0.len() == b - emitted,
        forall|i: int|
            0 <= i < b - emitted ==> crawl_from(frames, emitted, Option::Some(b)).0[i] == (
            #[trigger] parse_spec(frames[i].view))->Ok_0,
    decreases b - emitted,
{
    if emitted == b {
    } else {
        let c = parse_spec(frames[0].view)->Ok_0;
        if emitted + 1 == b {
            assert(crawl_from(frames, emitted, Option::Some(b)).0 =~= seq![c]);
        } else {
            assert(frames[0].has_sibling);
            let tail = frames.drop_first();
            assert forall|i: int| 0 <= i < b - (emitted + 1) implies (#[trigger] parse_spec(
                tail[i].view,
            )) is Ok by {
                assert(tail[i] == frames[i + 1]);
            }
            assert forall|i: int|
                0 <= i < b - (emitted + 1) - 1 implies (#[trigger] tail[i]).has_sibling by {
                assert(tail[i] == frames[i + 1]);
            }
            lemma_crawl_bounded_from(tail, emitted + 1, b);
            let rest = crawl_from(tail, emitted + 1, Option::Some(b));
            assert forall|i: int| 0 <= i < b - emitted implies crawl_from(
                frames,
                emitted,
                Option::Some(b),
            ).0[i] == (#[trigger] parse_spec(frames[i].view))->Ok_0 by {
                if i > 0 {
                    assert(rest.0[i - 1] == parse_spec(tail[i - 1].view)->Ok_0);
                    assert(tail[i - 1] == frames[i]);
                }
            }
        }
    }
}

/// Law: a crawl bounded by `k` over a sequence of at least `k` views whose
/// first `k` all parse (the first `k - 1` reporting a sibling) emits exactly
/// `k` records and ends `Exhausted` — without consulting the sibling marker
/// of the `k`-th view or anything beyond it.
pub proof fn lemma_crawl_bounded(frames: Seq<SpecViewFrame>, k: u16)
    requires
        k <= frames.len(),
        forall|i: int| 0 <= i < k ==> (#[trigger] parse_spec(frames[i].view)) is Ok,
        forall|i: int| 0 <= i < k - 1 ==> (#[trigger] frames[i]).has_sibling,
    ensures
        crawl_spec(frames, Option::Some(k)).1 == CrawlEnd::Exhausted,
        crawl_spec(frames, Option::Some(k)).0.len() == k,
        forall|i: int|
            0 <= i < k ==> crawl_spec(frames, Option::Some(k)).0[i] == (#[trigger] parse_spec(
                frames[i].view,
            ))->Ok_0,
{
    lemma_crawl_bounded_from(frames, 0, k);
}

proof fn lemma_crawl_failure_from(frames: Seq<SpecViewFrame>, emitted: int, j: int)
    requires
        0 <= j < frames.len(),
        forall|i: int| 0 <= i < j ==> (#[trigger] parse_spec(frames[i].view)) is Ok,
        forall|i: int| 0 <= i < j ==> (#[trigger] frames[i]).has_sibling,
        parse_spec(frames[j].view) is Err,
    ensures
        crawl_from(frames, emitted, Option::None).1 == CrawlEnd::Failed(
            parse_spec(frames[j].view)->Err_0,
        ),
        crawl_from(frames, emitted, Option::None).0.len() == j,
        forall|i: int|
            0 <= i < j ==> crawl_from(frames, emitted, Option::None).0[i] == (
            #[trigger] parse_spec(frames[i].view))->Ok_0,
    decreases j,
{
    if j == 0 {
    } else {
        let c = parse_spec(frames[0].view)->Ok_0;
        assert(frames[0].has_sibling);
        let tail = frames.drop_first();
        assert forall|i: int| 0 <= i < j - 1 implies (#[trigger] parse_spec(
            tail[i].view,
        )) is Ok && (#[trigger] tail[i]).has_sibling by {
            assert(tail[i] == frames[i + 1]);
        }
        assert(tail[j - 1] == frames[j]);
        lemma_crawl_failure_from(tail, emitted + 1, j - 1);
        let rest = crawl_from(tail, emitted + 1, Option::None);
        assert forall|i: int| 0 <= i < j implies crawl_from(frames, emitted, Option::None).0[i]
            == (#[trigger] parse_spec(frames[i].view))->Ok_0 by {
            if i > 0 {
                assert(rest.0[i - 1] == parse_spec(tail[i - 1].view)->Ok_0);
                assert(tail[i - 1] == frames[i]);
            }
        }
    }
}

/// Law: if the first `j` views parse and report a sibling but the `j`-th
/// view fails to parse, an unbounded crawl emits exactly the `j` records
/// before the failure, in order, and ends `Failed` with that parse failure —
/// the partial count matches the traversal index reached.
pub proof fn lemma_crawl_failure(frames: Seq<SpecViewFrame>, j: int)
    requires
        0 <= j < frames.len(),
        forall|i: int| 0 <= i < j ==> (#[trigger] parse_spec(frames[i].view)) is Ok,
        forall|i: int| 0 <= i < j ==> (#[trigger] frames[i]).has_sibling,
        parse_spec(frames[j].view) is Err,
    ensures
        crawl_spec(frames, Option::None).1 == CrawlEnd::Failed(parse_spec(frames[j].view)->Err_0),
        crawl_spec(frames, Option::None).0.len() == j,
        forall|i: int|
            0 <= i < j ==> crawl_spec(frames, Option::None).0[i] == (#[trigger] parse_spec(
                frames[i].view,
            ))->Ok_0,
{
    lemma_crawl_failure_from(frames, 0, j);
}

} // verus!
