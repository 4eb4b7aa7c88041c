//! The decisions of the GStreamer adapter: which stages stand in the audio
//! path, how a change of shape is made, who owns the optical drive, and what
//! a captured buffer holds.
//!
//! ```text
//! decode -> convert -> [spectrum] -> [rgvolume -> [rglimiter]] -> volume -> [equalizer] -> sink
//! ```
//!
//! Bracketed stages are optional: a missing plugin drops that stage and is
//! reported through the capabilities, never as an error that leaves no path.

use crate::engine::analysis::AnalysisTap;
use crate::engine::backend::{
    Amplitude, Applied, BackendError, Capabilities, MediaSource, Normalization, UNITY_PPB,
};
use crate::engine::null;
use crate::engine::null::needs_reshape;
use crate::engine::{BusEvent, PlayerState};
use crate::text::same;
use vstd::prelude::*;

verus! {

/// One stage of the audio path past the decoder.
#[derive(Debug, Clone, Copy, PartialEq, Eq, Structural)]
pub enum Stage {
    Convert,
    Spectrum,
    RgVolume,
    RgLimiter,
    Volume,
    Equalizer,
    Sink,
}

/// One change to the graph of stages.
#[derive(Debug, Clone, Copy, PartialEq, Eq, Structural)]
pub enum Step {
    Add(Stage),
    Remove(Stage),
    Link(Stage, Stage),
    Unlink(Stage, Stage),
}

/// Which plugins an installation has.
#[derive(Debug, Clone, Copy, PartialEq, Eq, Structural)]
pub struct Plugins {
    pub decode: bool,
    pub convert: bool,
    pub volume: bool,
    pub spectrum: bool,
    pub equalizer: bool,
    pub rgvolume: bool,
    pub rglimiter: bool,
}

/// The stages in the graph, and the stage that each one feeds.
pub struct Graph {
    pub present: Set<Stage>,
    pub feeds: Map<Stage, Stage>,
}

impl Graph {
    /// Whether a step can be made: a stage is added once, is removed only when
    /// nothing links to or from it, and is linked only where both ends are
    /// there and free.
    pub open spec fn allows(self, step: Step) -> bool {
        match step {
            Step::Add(s) => !self.present.contains(s),
            Step::Remove(s) => {
                &&& self.present.contains(s)
                &&& !self.feeds.dom().contains(s)
                &&& self.unfed(s)
            },
            Step::Link(a, b) => {
                &&& self.present.contains(a)
                &&& self.present.contains(b)
                &&& !self.feeds.dom().contains(a)
                &&& self.unfed(b)
            },
            Step::Unlink(a, b) => self.feeds.dom().contains(a) && self.feeds[a] == b,
        }
    }

    /// No stage feeds `s`.
    pub open spec fn unfed(self, s: Stage) -> bool {
        forall|a: Stage| #[trigger] self.feeds.dom().contains(a) ==> self.feeds[a] != s
    }

    /// The graph once a step is made.
    pub open spec fn stepped(self, step: Step) -> Graph {
        match step {
            Step::Add(s) => Graph { present: self.present.insert(s), feeds: self.feeds },
            Step::Remove(s) => Graph { present: self.present.remove(s), feeds: self.feeds },
            Step::Link(a, b) => Graph { present: self.present, feeds: self.feeds.insert(a, b) },
            Step::Unlink(a, b) => Graph { present: self.present, feeds: self.feeds.remove(a) },
        }
    }

    /// Whether every step can be made in turn.
    pub open spec fn allows_all(self, steps: Seq<Step>) -> bool
        decreases steps.len(),
    {
        steps.len() == 0 || (self.allows_all(steps.drop_last()) && self.run(steps.drop_last()).allows(
            steps.last(),
        ))
    }

    /// The graph once every step is made in turn.
    pub open spec fn run(self, steps: Seq<Step>) -> Graph
        decreases steps.len(),
    {
        if steps.len() == 0 {
            self
        } else {
            self.run(steps.drop_last()).stepped(steps.last())
        }
    }

    /// Whether the sound that leaves `from` arrives at the sink within `hops`
    /// stages.
    pub open spec fn reaches_sink(self, from: Stage, hops: nat) -> bool
        decreases hops,
    {
        from == Stage::Sink || (hops > 0 && self.feeds.dom().contains(from) && self.reaches_sink(
            self.feeds[from],
            (hops - 1) as nat,
        ))
    }
}

/// Pushing one more step.
proof fn lemma_push(g: Graph, steps: Seq<Step>, step: Step)
    requires
        g.allows_all(steps),
        g.run(steps).allows(step),
    ensures
        g.allows_all(steps.push(step)),
        g.run(steps.push(step)) == g.run(steps).stepped(step),
{
    assert(steps.push(step).drop_last() =~= steps);
    assert(steps.push(step).last() == step);
}

/// How the graph is shaped: which optional stages it holds.
#[derive(Debug, Clone, Copy, PartialEq, Eq, Structural)]
pub struct Shape {
    pub spectrum: bool,
    pub equalizer: bool,
    pub rg_volume: bool,
    pub rg_limiter: bool,
}

impl Shape {
    /// A limiter stands only behind a gain stage.
    pub open spec fn wf(self) -> bool {
        self.rg_limiter ==> self.rg_volume
    }

    /// The stage that the normalization segment hangs off.
    pub open spec fn upstream(self) -> Stage {
        if self.spectrum {
            Stage::Spectrum
        } else {
            Stage::Convert
        }
    }

    /// Whether a stage stands in the graph.
    pub open spec fn has(self, s: Stage) -> bool {
        match s {
            Stage::Spectrum => self.spectrum,
            Stage::RgVolume => self.rg_volume,
            Stage::RgLimiter => self.rg_limiter,
            Stage::Equalizer => self.equalizer,
            _ => true,
        }
    }

    /// The stage that `s` feeds.
    pub open spec fn next(self, s: Stage) -> Stage {
        match s {
            Stage::Convert => if self.spectrum {
                Stage::Spectrum
            } else if self.rg_volume {
                Stage::RgVolume
            } else {
                Stage::Volume
            },
            Stage::Spectrum => if self.rg_volume {
                Stage::RgVolume
            } else {
                Stage::Volume
            },
            Stage::RgVolume => if self.rg_limiter {
                Stage::RgLimiter
            } else {
                Stage::Volume
            },
            Stage::RgLimiter => Stage::Volume,
            Stage::Volume => if self.equalizer {
                Stage::Equalizer
            } else {
                Stage::Sink
            },
            Stage::Equalizer => Stage::Sink,
            Stage::Sink => Stage::Sink,
        }
    }

    /// The graph of this shape: every stage it holds, each but the sink feeding
    /// the next.
    pub open spec fn graph(self) -> Graph {
        Graph {
            present: Set::new(|s: Stage| self.has(s)),
            feeds: Map::new(|s: Stage| self.has(s) && s != Stage::Sink, |s: Stage| self.next(s)),
        }
    }
}

/// Whatever the shape, sound that leaves the converter arrives at the sink.
pub proof fn law_every_shape_reaches_the_sink(shape: Shape)
    requires
        shape.wf(),
    ensures
        shape.graph().reaches_sink(Stage::Convert, 6),
{
    reveal_with_fuel(Graph::reaches_sink, 8);
}

/// The empty graph.
pub open spec fn no_graph() -> Graph {
    Graph { present: Set::empty(), feeds: Map::empty() }
}

/// Appends a step that the graph allows.
fn push_step(steps: &mut Vec<Step>, step: Step, Ghost(g): Ghost<Graph>)
    requires
        g.allows_all(old(steps)@),
        g.run(old(steps)@).allows(step),
    ensures
        final(steps)@ == old(steps)@.push(step),
        g.allows_all(final(steps)@),
        g.run(final(steps)@) == g.run(old(steps)@).stepped(step),
{
    proof {
        lemma_push(g, steps@, step);
    }
    steps.push(step);
}

/// The steps that build the path of an installation, with no normalization
/// stage.
#[verifier::spinoff_prover]
#[verifier::rlimit(40)]
fn build_steps(spectrum: bool, equalizer: bool) -> (r: Vec<Step>)
    ensures
        no_graph().allows_all(r@),
        no_graph().run(r@) == (Shape {
            spectrum,
            equalizer,
            rg_volume: false,
            rg_limiter: false,
        }).graph(),
{
    let ghost g = no_graph();
    let mut steps: Vec<Step> = Vec::new();
    push_step(&mut steps, Step::Add(Stage::Convert), Ghost(g));
    if spectrum {
        push_step(&mut steps, Step::Add(Stage::Spectrum), Ghost(g));
    }
    push_step(&mut steps, Step::Add(Stage::Volume), Ghost(g));
    if equalizer {
        push_step(&mut steps, Step::Add(Stage::Equalizer), Ghost(g));
    }
    push_step(&mut steps, Step::Add(Stage::Sink), Ghost(g));
    if spectrum {
        push_step(&mut steps, Step::Link(Stage::Convert, Stage::Spectrum), Ghost(g));
        push_step(&mut steps, Step::Link(Stage::Spectrum, Stage::Volume), Ghost(g));
    } else {
        push_step(&mut steps, Step::Link(Stage::Convert, Stage::Volume), Ghost(g));
    }
    if equalizer {
        push_step(&mut steps, Step::Link(Stage::Volume, Stage::Equalizer), Ghost(g));
        push_step(&mut steps, Step::Link(Stage::Equalizer, Stage::Sink), Ghost(g));
    } else {
        push_step(&mut steps, Step::Link(Stage::Volume, Stage::Sink), Ghost(g));
    }
    proof {
        let want = Shape { spectrum, equalizer, rg_volume: false, rg_limiter: false }.graph();
        let got = g.run(steps@);
        assert(got.present =~= want.present);
        assert(got.feeds =~= want.feeds);
    }
    steps
}

/// The shape that a normalization takes where only some plugins are there: a
/// missing limiter degrades to gain without limiting, a missing gain stage to
/// no normalization at all.
pub open spec fn shape_for(
    have: Shape,
    want: Normalization,
    rgvolume: bool,
    rglimiter: bool,
) -> Shape {
    Shape {
        rg_volume: want.enabled && rgvolume,
        rg_limiter: want.enabled && rgvolume && want.clip_protection && rglimiter,
        ..have
    }
}

/// What a path of a shape really does of a normalization that was asked for.
pub open spec fn achieved(shape: Shape, want: Normalization) -> Normalization {
    Normalization { enabled: shape.rg_volume, clip_protection: shape.rg_limiter, ..want }
}

/// A graph with no normalization segment and the gap it leaves still open.
pub open spec fn gapped(shape: Shape) -> Graph {
    let bare = Shape { rg_volume: false, rg_limiter: false, ..shape }.graph();
    Graph { present: bare.present, feeds: bare.feeds.remove(shape.upstream()) }
}

/// The steps that take the normalization segment out.
pub open spec fn stripping(have: Shape) -> Seq<Step> {
    let up = have.upstream();
    if have.rg_limiter {
        seq![
            Step::Unlink(up, Stage::RgVolume),
            Step::Unlink(Stage::RgVolume, Stage::RgLimiter),
            Step::Unlink(Stage::RgLimiter, Stage::Volume),
            Step::Remove(Stage::RgLimiter),
            Step::Remove(Stage::RgVolume),
        ]
    } else if have.rg_volume {
        seq![
            Step::Unlink(up, Stage::RgVolume),
            Step::Unlink(Stage::RgVolume, Stage::Volume),
            Step::Remove(Stage::RgVolume),
        ]
    } else {
        seq![Step::Unlink(up, Stage::Volume)]
    }
}

/// The steps that close the gap with a normalization segment, or with a plain
/// link where there is none.
pub open spec fn filling(next: Shape) -> Seq<Step> {
    let up = next.upstream();
    if next.rg_limiter {
        seq![
            Step::Add(Stage::RgVolume),
            Step::Link(up, Stage::RgVolume),
            Step::Add(Stage::RgLimiter),
            Step::Link(Stage::RgVolume, Stage::RgLimiter),
            Step::Link(Stage::RgLimiter, Stage::Volume),
        ]
    } else if next.rg_volume {
        seq![
            Step::Add(Stage::RgVolume),
            Step::Link(up, Stage::RgVolume),
            Step::Link(Stage::RgVolume, Stage::Volume),
        ]
    } else {
        seq![Step::Link(up, Stage::Volume)]
    }
}

/// The steps of a reshape: the old segment goes, the new one comes.
pub open spec fn reshaping(have: Shape, next: Shape) -> Seq<Step> {
    stripping(have) + filling(next)
}

/// Appends the steps that take the normalization segment out.
#[verifier::spinoff_prover]
#[verifier::rlimit(40)]
fn strip_segment(steps: &mut Vec<Step>, have: Shape, upstream: Stage)
    requires
        have.wf(),
        upstream == have.upstream(),
        old(steps)@.len() == 0,
    ensures
        have.graph().allows_all(final(steps)@),
        have.graph().run(final(steps)@) == gapped(have),
        final(steps)@ == stripping(have),
{
    let ghost g = have.graph();
    if have.rg_volume {
        push_step(steps, Step::Unlink(upstream, Stage::RgVolume), Ghost(g));
        if have.rg_limiter {
            push_step(steps, Step::Unlink(Stage::RgVolume, Stage::RgLimiter), Ghost(g));
            push_step(steps, Step::Unlink(Stage::RgLimiter, Stage::Volume), Ghost(g));
            push_step(steps, Step::Remove(Stage::RgLimiter), Ghost(g));
        } else {
            push_step(steps, Step::Unlink(Stage::RgVolume, Stage::Volume), Ghost(g));
        }
        push_step(steps, Step::Remove(Stage::RgVolume), Ghost(g));
    } else {
        push_step(steps, Step::Unlink(upstream, Stage::Volume), Ghost(g));
    }
    proof {
        let got = g.run(steps@);
        assert(got.present =~= gapped(have).present);
        assert(got.feeds =~= gapped(have).feeds);
        assert(steps@ =~= stripping(have));
    }
}

/// Appends the steps that close the gap with a normalization segment, or with a
/// plain link where there is none.
#[verifier::spinoff_prover]
#[verifier::rlimit(40)]
fn fill_gap(steps: &mut Vec<Step>, next: Shape, upstream: Stage, Ghost(g): Ghost<Graph>)
    requires
        next.wf(),
        upstream == next.upstream(),
        g.allows_all(old(steps)@),
        g.run(old(steps)@) == gapped(next),
    ensures
        g.allows_all(final(steps)@),
        g.run(final(steps)@) == next.graph(),
        final(steps)@ == old(steps)@ + filling(next),
{
    if next.rg_volume {
        push_step(steps, Step::Add(Stage::RgVolume), Ghost(g));
        push_step(steps, Step::Link(upstream, Stage::RgVolume), Ghost(g));
        if next.rg_limiter {
            push_step(steps, Step::Add(Stage::RgLimiter), Ghost(g));
            push_step(steps, Step::Link(Stage::RgVolume, Stage::RgLimiter), Ghost(g));
            push_step(steps, Step::Link(Stage::RgLimiter, Stage::Volume), Ghost(g));
        } else {
            push_step(steps, Step::Link(Stage::RgVolume, Stage::Volume), Ghost(g));
        }
    } else {
        push_step(steps, Step::Link(upstream, Stage::Volume), Ghost(g));
    }
    proof {
        let got = g.run(steps@);
        assert(got.present =~= next.graph().present);
        assert(got.feeds =~= next.graph().feeds);
        assert(steps@ =~= old(steps)@ + filling(next));
    }
}

/// The steps that turn one normalization segment into another.
fn reshape_steps(have: Shape, next: Shape) -> (r: Vec<Step>)
    requires
        have.wf(),
        next.wf(),
        next.spectrum == have.spectrum,
        next.equalizer == have.equalizer,
    ensures
        have.graph().allows_all(r@),
        have.graph().run(r@) == next.graph(),
        r@ == reshaping(have, next),
{
    let upstream = if have.spectrum {
        Stage::Spectrum
    } else {
        Stage::Convert
    };
    let mut steps: Vec<Step> = Vec::new();
    strip_segment(&mut steps, have, upstream);
    assert(gapped(next) == gapped(have));
    fill_gap(&mut steps, next, upstream, Ghost(have.graph()));
    steps
}

/// What stands of a normalization segment while it is being changed: which of its
/// stages are there, and what each of them and the stage before it feeds.
#[derive(Debug, Clone, Copy, PartialEq, Eq, Structural)]
pub struct Segment {
    pub rg_volume: bool,
    pub rg_limiter: bool,
    pub from_upstream: Option<Stage>,
    pub from_rg_volume: Option<Stage>,
    pub from_rg_limiter: Option<Stage>,
}

impl Segment {
    /// What a stage around the segment feeds.
    pub open spec fn from(self, shape: Shape, s: Stage) -> Option<Stage> {
        if s == shape.upstream() {
            self.from_upstream
        } else if s == Stage::RgVolume {
            self.from_rg_volume
        } else if s == Stage::RgLimiter {
            self.from_rg_limiter
        } else if shape.has(s) && s != Stage::Sink {
            Some(shape.next(s))
        } else {
            None
        }
    }

    /// The graph of a shape with this in place of its normalization segment.
    pub open spec fn graph(self, shape: Shape) -> Graph {
        Graph {
            present: Set::new(
                |s: Stage|
                    match s {
                        Stage::RgVolume => self.rg_volume,
                        Stage::RgLimiter => self.rg_limiter,
                        _ => shape.has(s),
                    },
            ),
            feeds: Map::new(
                |s: Stage| self.from(shape, s) is Some,
                |s: Stage| self.from(shape, s)->0,
            ),
        }
    }

    /// Whether a step is one of those that a reshape is made of.
    pub open spec fn concerns(shape: Shape, step: Step) -> bool {
        match step {
            Step::Add(s) => s == Stage::RgVolume || s == Stage::RgLimiter,
            Step::Remove(s) => s == Stage::RgVolume || s == Stage::RgLimiter,
            Step::Link(a, _) => a == shape.upstream() || a == Stage::RgVolume || a
                == Stage::RgLimiter,
            Step::Unlink(a, _) => a == shape.upstream() || a == Stage::RgVolume || a
                == Stage::RgLimiter,
        }
    }

    /// The segment with what one stage feeds changed.
    pub open spec fn fed(self, shape: Shape, from: Stage, to: Option<Stage>) -> Segment {
        if from == shape.upstream() {
            Segment { from_upstream: to, ..self }
        } else if from == Stage::RgVolume {
            Segment { from_rg_volume: to, ..self }
        } else {
            Segment { from_rg_limiter: to, ..self }
        }
    }

    /// The segment once a step of a reshape is made.
    pub open spec fn after(self, shape: Shape, step: Step) -> Segment {
        match step {
            Step::Add(s) => if s == Stage::RgVolume {
                Segment { rg_volume: true, ..self }
            } else {
                Segment { rg_limiter: true, ..self }
            },
            Step::Remove(s) => if s == Stage::RgVolume {
                Segment { rg_volume: false, ..self }
            } else {
                Segment { rg_limiter: false, ..self }
            },
            Step::Link(a, b) => self.fed(shape, a, Some(b)),
            Step::Unlink(a, _) => self.fed(shape, a, None),
        }
    }

    /// The whole segment of a shape.
    fn of(shape: Shape) -> (r: Segment)
        requires
            shape.wf(),
        ensures
            r.graph(shape) == shape.graph(),
    {
        let r = Segment {
            rg_volume: shape.rg_volume,
            rg_limiter: shape.rg_limiter,
            from_upstream: Some(
                if shape.rg_volume {
                    Stage::RgVolume
                } else {
                    Stage::Volume
                },
            ),
            from_rg_volume: if shape.rg_limiter {
                Some(Stage::RgLimiter)
            } else if shape.rg_volume {
                Some(Stage::Volume)
            } else {
                None
            },
            from_rg_limiter: if shape.rg_limiter {
                Some(Stage::Volume)
            } else {
                None
            },
        };
        proof {
            assert(r.graph(shape).present =~= shape.graph().present);
            assert(r.graph(shape).feeds =~= shape.graph().feeds);
        }
        r
    }

    /// The segment once a step of a reshape is made.
    #[verifier::spinoff_prover]
    #[verifier::rlimit(40)]
    fn stepped(self, shape: Shape, step: Step) -> (r: Segment)
        requires
            Segment::concerns(shape, step),
        ensures
            r == self.after(shape, step),
            r.graph(shape) == self.graph(shape).stepped(step),
    {
        let upstream = if shape.spectrum {
            Stage::Spectrum
        } else {
            Stage::Convert
        };
        let mut r = self;
        match step {
            Step::Add(s) => if s == Stage::RgVolume {
                r.rg_volume = true;
            } else {
                r.rg_limiter = true;
            },
            Step::Remove(s) => if s == Stage::RgVolume {
                r.rg_volume = false;
            } else {
                r.rg_limiter = false;
            },
            Step::Link(a, b) => if a == upstream {
                r.from_upstream = Some(b);
            } else if a == Stage::RgVolume {
                r.from_rg_volume = Some(b);
            } else {
                r.from_rg_limiter = Some(b);
            },
            Step::Unlink(a, _) => if a == upstream {
                r.from_upstream = None;
            } else if a == Stage::RgVolume {
                r.from_rg_volume = None;
            } else {
                r.from_rg_limiter = None;
            },
        }
        proof {
            let want = self.graph(shape).stepped(step);
            assert(r.graph(shape).present =~= want.present);
            assert(r.graph(shape).feeds =~= want.feeds);
        }
        r
    }
}

/// The shape with no normalization segment.
pub open spec fn bare(shape: Shape) -> Shape {
    Shape { rg_volume: false, rg_limiter: false, ..shape }
}

/// Every step of a reshape concerns its segment.
proof fn lemma_reshaping_concerns(have: Shape, next: Shape)
    requires
        next.spectrum == have.spectrum,
    ensures
        forall|i: int|
            0 <= i < reshaping(have, next).len() ==> Segment::concerns(
                have,
                #[trigger] reshaping(have, next)[i],
            ),
{
}

/// Steps that can all be made in turn can be made up to any of them.
proof fn lemma_allows_take(g: Graph, steps: Seq<Step>, n: int)
    requires
        g.allows_all(steps),
        0 <= n <= steps.len(),
    ensures
        g.allows_all(steps.take(n)),
    decreases steps.len(),
{
    if n == steps.len() {
        assert(steps.take(n) =~= steps);
    } else {
        lemma_allows_take(g, steps.drop_last(), n);
        assert(steps.drop_last().take(n) =~= steps.take(n));
    }
}

/// What is left to do where a reshape from `have` to `next` failed once `made` of
/// its steps were made: the segment is taken out whole and the gap closed with a
/// plain link, so that the path plays, if without normalization.
#[verifier::spinoff_prover]
#[verifier::rlimit(80)]
pub fn repair_steps(have: Shape, next: Shape, made: usize) -> (r: Vec<Step>)
    requires
        have.wf(),
        next.wf(),
        next.spectrum == have.spectrum,
        next.equalizer == have.equalizer,
        made <= reshaping(have, next).len(),
    ensures
        have.graph().allows_all(reshaping(have, next).take(made as int) + r@),
        have.graph().run(reshaping(have, next).take(made as int) + r@) == bare(have).graph(),
        have.graph().run(reshaping(have, next).take(made as int) + r@).reaches_sink(
            Stage::Convert,
            6,
        ),
{
    let ghost g = have.graph();
    let planned = reshape_steps(have, next);
    let mut done: Vec<Step> = Vec::new();
    let mut seg = Segment::of(have);
    let mut i: usize = 0;
    proof {
        lemma_reshaping_concerns(have, next);
        assert(planned@.take(0) =~= Seq::<Step>::empty());
    }
    while i < made
        invariant
            i <= made <= planned@.len(),
            planned@ == reshaping(have, next),
            next.spectrum == have.spectrum,
            g == have.graph(),
            g.allows_all(planned@),
            forall|k: int|
                0 <= k < planned@.len() ==> Segment::concerns(have, #[trigger] planned@[k]),
            done@ == planned@.take(i as int),
            g.run(done@) == seg.graph(have),
        decreases made - i,
    {
        let step = planned[i];
        assert(Segment::concerns(have, planned@[i as int]));
        seg = seg.stepped(have, step);
        proof {
            lemma_allows_take(g, planned@, i + 1);
            assert(planned@.take(i + 1).drop_last() =~= planned@.take(i as int));
            assert(planned@.take(i + 1) =~= planned@.take(i as int).push(step));
        }
        done.push(step);
        i += 1;
    }
    let ghost head = done@;
    proof {
        lemma_allows_take(g, planned@, made as int);
    }
    let mut rest: Vec<Step> = Vec::new();
    proof {
        assert(head + rest@ =~= head);
    }
    let upstream = if have.spectrum {
        Stage::Spectrum
    } else {
        Stage::Convert
    };
    if let Some(b) = seg.from_upstream {
        seg = repair(&mut rest, seg, have, Step::Unlink(upstream, b), Ghost(g), Ghost(head));
    }
    if let Some(b) = seg.from_rg_volume {
        seg = repair(&mut rest, seg, have, Step::Unlink(Stage::RgVolume, b), Ghost(g), Ghost(head));
    }
    if let Some(b) = seg.from_rg_limiter {
        seg = repair(&mut rest, seg, have, Step::Unlink(Stage::RgLimiter, b), Ghost(g), Ghost(head));
    }
    if seg.rg_limiter {
        seg = repair(&mut rest, seg, have, Step::Remove(Stage::RgLimiter), Ghost(g), Ghost(head));
    }
    if seg.rg_volume {
        seg = repair(&mut rest, seg, have, Step::Remove(Stage::RgVolume), Ghost(g), Ghost(head));
    }
    seg = repair(&mut rest, seg, have, Step::Link(upstream, Stage::Volume), Ghost(g), Ghost(head));
    proof {
        assert(seg.graph(have).present =~= bare(have).graph().present);
        assert(seg.graph(have).feeds =~= bare(have).graph().feeds);
        law_every_shape_reaches_the_sink(bare(have));
    }
    rest
}

/// Appends one step of a repair.
fn repair(
    rest: &mut Vec<Step>,
    seg: Segment,
    shape: Shape,
    step: Step,
    Ghost(g): Ghost<Graph>,
    Ghost(head): Ghost<Seq<Step>>,
) -> (r: Segment)
    requires
        Segment::concerns(shape, step),
        g.allows_all(head + old(rest)@),
        g.run(head + old(rest)@) == seg.graph(shape),
        seg.graph(shape).allows(step),
    ensures
        g.allows_all(head + final(rest)@),
        g.run(head + final(rest)@) == r.graph(shape),
        r == seg.after(shape, step),
{
    proof {
        lemma_push(g, head + rest@, step);
        assert((head + rest@).push(step) =~= head + rest@.push(step));
    }
    rest.push(step);
    seg.stepped(shape, step)
}

/// One change to the count of those who own the optical drive exclusively.
#[derive(Debug, Clone, Copy, PartialEq, Eq, Structural)]
pub enum GuardStep {
    Begin,
    End,
}

/// What the count gains by a run of steps.
pub open spec fn guard_gain(steps: Seq<GuardStep>) -> int
    decreases steps.len(),
{
    if steps.len() == 0 {
        0
    } else {
        guard_gain(steps.drop_last()) + match steps.last() {
            GuardStep::Begin => 1int,
            GuardStep::End => -1int,
        }
    }
}

/// What giving the drive back takes.
pub open spec fn given_back(holds: bool) -> Seq<GuardStep> {
    if holds {
        seq![GuardStep::End]
    } else {
        Seq::empty()
    }
}

/// What a load asks of the drive, in order: back-to-back disc tracks are one
/// session, and whatever the track before held is given back before a file on a
/// disc takes the drive anew.
pub open spec fn guard_for(holds: bool, source: MediaSource, on_optical: bool) -> Seq<GuardStep> {
    match source {
        MediaSource::CdTrack { .. } => if holds {
            Seq::empty()
        } else {
            seq![GuardStep::Begin]
        },
        MediaSource::Uri(_) => if on_optical {
            given_back(holds).push(GuardStep::Begin)
        } else {
            given_back(holds)
        },
    }
}

/// One, where the drive is owned.
pub open spec fn held(holds: bool) -> int {
    if holds {
        1
    } else {
        0
    }
}

/// What to do for a load, in order: change the drive's count, reshape the path,
/// hand the source its drive, open the URI.
pub struct LoadPlan {
    pub guard: Vec<GuardStep>,
    pub steps: Vec<Step>,
    /// The gain stage's two properties, to be written when it is there.
    pub live: Option<Normalization>,
    pub device: Option<String>,
    pub uri: String,
}

/// What to do for a normalization, in order: reshape the path, write the gain
/// stage's two properties.
pub struct NormalizationPlan {
    pub applied: Applied,
    pub steps: Vec<Step>,
    pub live: Option<Normalization>,
}

/// What the adapter knows of its audio path.
pub struct GstBackend {
    shape: Shape,
    caps: Capabilities,
    installed: Normalization,
    pending: Option<Normalization>,
    device: Option<String>,
    holds_disc_guard: bool,
    gain: Amplitude,
    rgvolume: bool,
    rglimiter: bool,
}

impl GstBackend {
    pub closed spec fn shaped(&self) -> Shape {
        self.shape
    }

    pub closed spec fn able(&self) -> Capabilities {
        self.caps
    }

    /// The normalization in force.
    pub closed spec fn in_force(&self) -> Normalization {
        self.installed
    }

    /// The normalization that waits for a load.
    pub closed spec fn waiting(&self) -> Option<Normalization> {
        self.pending
    }

    /// The drive of the current disc track.
    pub closed spec fn drive(&self) -> Option<Seq<char>> {
        match self.device {
            Some(d) => Some(d@),
            None => None,
        }
    }

    /// Whether this backend owns the optical drive.
    pub closed spec fn owns_drive(&self) -> bool {
        self.holds_disc_guard
    }

    /// The output level.
    pub closed spec fn level(&self) -> Amplitude {
        self.gain
    }

    /// Whether the stages of the normalization segment can be built.
    pub closed spec fn rg_plugins(&self) -> (bool, bool) {
        (self.rgvolume, self.rglimiter)
    }

    /// What every operation keeps: what the backend reports as in force is what
    /// the graph holds, and the capabilities are what the graph was built with.
    pub open spec fn wf(&self) -> bool {
        &&& self.shaped().wf()
        &&& self.in_force().enabled == self.shaped().rg_volume
        &&& self.in_force().clip_protection == self.shaped().rg_limiter
        &&& self.able().eq == self.shaped().equalizer
        &&& self.able().spectrum == self.shaped().spectrum
    }

    /// Decides the audio path of an installation, at unity. Errors only where one
    /// of the stages that every path needs is missing.
    pub fn open_with_sink(plugins: Plugins) -> (r: Result<(GstBackend, Vec<Step>), BackendError>)
        ensures
            r is Ok <==> plugins.decode && plugins.convert && plugins.volume,
            match r {
                Ok((b, steps)) => {
                    &&& b.wf()
                    &&& b.shaped() == (Shape {
                        spectrum: plugins.spectrum,
                        equalizer: plugins.equalizer,
                        rg_volume: false,
                        rg_limiter: false,
                    })
                    &&& b.able() == (Capabilities {
                        eq: plugins.equalizer,
                        spectrum: plugins.spectrum,
                        normalization: plugins.rgvolume,
                    })
                    &&& b.in_force() == (Normalization {
                        enabled: false,
                        clip_protection: false,
                        fallback_db: 0,
                        album_mode: false,
                    })
                    &&& b.waiting() is None
                    &&& b.drive() is None
                    &&& !b.owns_drive()
                    &&& b.level().ppb == UNITY_PPB
                    &&& b.rg_plugins() == (plugins.rgvolume, plugins.rglimiter)
                    &&& no_graph().allows_all(steps@)
                    &&& no_graph().run(steps@) == b.shaped().graph()
                },
                Err(e) => e.message@ == (if !plugins.decode {
                    "Failed to create uridecodebin. Ensure GStreamer base plugins are installed."@
                } else if !plugins.convert {
                    "Failed to create audioconvert element."@
                } else {
                    "Failed to create volume element."@
                }),
            },
    {
        if !plugins.decode {
            return Err(
                BackendError {
                    message: "Failed to create uridecodebin. Ensure GStreamer base plugins are installed.".to_owned(),
                },
            );
        }
        if !plugins.convert {
            return Err(
                BackendError { message: "Failed to create audioconvert element.".to_owned() },
            );
        }
        if !plugins.volume {
            return Err(BackendError { message: "Failed to create volume element.".to_owned() });
        }
        let steps = build_steps(plugins.spectrum, plugins.equalizer);
        Ok(
            (
                GstBackend {
                    shape: Shape {
                        spectrum: plugins.spectrum,
                        equalizer: plugins.equalizer,
                        rg_volume: false,
                        rg_limiter: false,
                    },
                    caps: Capabilities {
                        eq: plugins.equalizer,
                        spectrum: plugins.spectrum,
                        normalization: plugins.rgvolume,
                    },
                    installed: Normalization {
                        enabled: false,
                        clip_protection: false,
                        fallback_db: 0,
                        album_mode: false,
                    },
                    pending: None,
                    device: None,
                    holds_disc_guard: false,
                    gain: Amplitude::unity(),
                    rgvolume: plugins.rgvolume,
                    rglimiter: plugins.rglimiter,
                },
                steps,
            ),
        )
    }

    pub fn capabilities(&self) -> (r: Capabilities)
        ensures
            r == self.able(),
    {
        self.caps
    }

    pub fn normalization(&self) -> (r: Normalization)
        ensures
            r == self.in_force(),
    {
        self.installed
    }

    pub fn shape(&self) -> (r: Shape)
        ensures
            r == self.shaped(),
    {
        self.shape
    }

    /// Whether this backend owns the optical drive.
    pub fn holds_disc_guard(&self) -> (r: bool)
        ensures
            r == self.owns_drive(),
    {
        self.holds_disc_guard
    }

    /// The output level, to be written to the volume stage.
    pub fn output_gain(&self) -> (r: Amplitude)
        ensures
            r == self.level(),
    {
        self.gain
    }

    /// Sets the output level.
    pub fn set_output_gain(&mut self, gain: Amplitude)
        ensures
            final(self).level() == gain,
            final(self).shaped() == old(self).shaped(),
            final(self).able() == old(self).able(),
            final(self).in_force() == old(self).in_force(),
            final(self).waiting() == old(self).waiting(),
            final(self).drive() == old(self).drive(),
            final(self).owns_drive() == old(self).owns_drive(),
            final(self).rg_plugins() == old(self).rg_plugins(),
    {
        self.gain = gain;
    }

    /// Records which stages of the normalization segment could be built just now,
    /// which is what the next reshape goes by.
    pub fn found(&mut self, rgvolume: bool, rglimiter: bool)
        ensures
            final(self).rg_plugins() == (rgvolume, rglimiter),
            final(self).level() == old(self).level(),
            final(self).shaped() == old(self).shaped(),
            final(self).able() == old(self).able(),
            final(self).in_force() == old(self).in_force(),
            final(self).waiting() == old(self).waiting(),
            final(self).drive() == old(self).drive(),
            final(self).owns_drive() == old(self).owns_drive(),
    {
        self.rgvolume = rgvolume;
        self.rglimiter = rglimiter;
    }

    /// Whether `want` needs stages added to or removed from the path.
    pub fn needs_relink(&self, want: &Normalization) -> (r: bool)
        ensures
            r == null::reshapes(self.in_force(), *want),
    {
        needs_reshape(&self.installed, want)
    }

    /// Everything but the path and the normalization stays.
    pub open spec fn same_otherwise(&self, before: &Self) -> bool {
        &&& self.able() == before.able()
        &&& self.drive() == before.drive()
        &&& self.owns_drive() == before.owns_drive()
        &&& self.level() == before.level()
        &&& self.rg_plugins() == before.rg_plugins()
    }

    /// Rebuilds the normalization segment of a path that does not run.
    pub fn apply_chain(&mut self, want: Normalization) -> (r: Vec<Step>)
        requires
            old(self).wf(),
        ensures
            final(self).wf(),
            final(self).shaped() == shape_for(
                old(self).shaped(),
                want,
                old(self).rg_plugins().0,
                old(self).rg_plugins().1,
            ),
            final(self).in_force() == achieved(final(self).shaped(), want),
            final(self).waiting() == old(self).waiting(),
            final(self).same_otherwise(old(self)),
            old(self).shaped().graph().allows_all(r@),
            old(self).shaped().graph().run(r@) == final(self).shaped().graph(),
            r@ == reshaping(old(self).shaped(), final(self).shaped()),
    {
        let next = Shape {
            spectrum: self.shape.spectrum,
            equalizer: self.shape.equalizer,
            rg_volume: want.enabled && self.rgvolume,
            rg_limiter: want.enabled && self.rgvolume && want.clip_protection && self.rglimiter,
        };
        let steps = reshape_steps(self.shape, next);
        self.shape = next;
        self.installed = Normalization {
            enabled: next.rg_volume,
            clip_protection: next.rg_limiter,
            fallback_db: want.fallback_db,
            album_mode: want.album_mode,
        };
        steps
    }

    /// A reshape from `have` failed once `made` of its steps were made: gives the
    /// steps that leave a path that plays, and reports no normalization.
    pub fn reshape_failed(&mut self, have: Shape, made: usize) -> (r: Vec<Step>)
        requires
            old(self).wf(),
            have.wf(),
            have.spectrum == old(self).shaped().spectrum,
            have.equalizer == old(self).shaped().equalizer,
            made <= reshaping(have, old(self).shaped()).len(),
        ensures
            final(self).wf(),
            final(self).shaped() == bare(have),
            final(self).in_force() == (Normalization {
                enabled: false,
                clip_protection: false,
                ..old(self).in_force()
            }),
            final(self).waiting() == old(self).waiting(),
            final(self).same_otherwise(old(self)),
            ({
                let steps = reshaping(have, old(self).shaped()).take(made as int) + r@;
                &&& have.graph().allows_all(steps)
                &&& have.graph().run(steps) == final(self).shaped().graph()
                &&& have.graph().run(steps).reaches_sink(Stage::Convert, 6)
            }),
    {
        let steps = repair_steps(have, self.shape, made);
        self.shape = Shape {
            spectrum: have.spectrum,
            equalizer: have.equalizer,
            rg_volume: false,
            rg_limiter: false,
        };
        self.installed = Normalization {
            enabled: false,
            clip_protection: false,
            fallback_db: self.installed.fallback_db,
            album_mode: self.installed.album_mode,
        };
        steps
    }

    /// Makes the path match `want`: at once where no stage comes or goes or the
    /// path does not run, otherwise at the next load.
    pub fn set_normalization(&mut self, want: Normalization, at_null: bool) -> (r: NormalizationPlan)
        requires
            old(self).wf(),
        ensures
            final(self).wf(),
            final(self).same_otherwise(old(self)),
            old(self).shaped().graph().allows_all(r.steps@),
            old(self).shaped().graph().run(r.steps@) == final(self).shaped().graph(),
            r.steps@ == (if r.applied == Applied::Now && old(self).able().normalization
                && null::reshapes(old(self).in_force(), want) {
                reshaping(old(self).shaped(), final(self).shaped())
            } else {
                Seq::empty()
            }),
            r.live == (if final(self).shaped().rg_volume && r.applied == Applied::Now && old(self).able().normalization {
                Some(want)
            } else {
                None
            }),
            if !old(self).able().normalization {
                &&& r.applied == Applied::Now
                &&& final(self).shaped() == old(self).shaped()
                &&& final(self).in_force() == old(self).in_force()
                &&& final(self).waiting() == old(self).waiting()
            } else if !null::reshapes(old(self).in_force(), want) {
                &&& r.applied == Applied::Now
                &&& final(self).shaped() == old(self).shaped()
                &&& final(self).in_force() == achieved(old(self).shaped(), want)
                &&& final(self).waiting() is None
            } else if at_null {
                &&& r.applied == Applied::Now
                &&& final(self).shaped() == shape_for(
                    old(self).shaped(),
                    want,
                    old(self).rg_plugins().0,
                    old(self).rg_plugins().1,
                )
                &&& final(self).in_force() == achieved(final(self).shaped(), want)
                &&& final(self).waiting() is None
            } else {
                &&& r.applied == Applied::AtNextLoad
                &&& final(self).shaped() == old(self).shaped()
                &&& final(self).in_force() == old(self).in_force()
                &&& final(self).waiting() == Some(want)
            },
    {
        let none: Vec<Step> = Vec::new();
        if !self.caps.normalization {
            return NormalizationPlan { applied: Applied::Now, steps: none, live: None };
        }
        if !self.needs_relink(&want) {
            self.pending = None;
            self.installed = Normalization {
                enabled: self.shape.rg_volume,
                clip_protection: self.shape.rg_limiter,
                fallback_db: want.fallback_db,
                album_mode: want.album_mode,
            };
            let live = if self.shape.rg_volume {
                Some(want)
            } else {
                None
            };
            return NormalizationPlan { applied: Applied::Now, steps: none, live };
        }
        if at_null {
            let steps = self.apply_chain(want);
            self.pending = None;
            let live = if self.shape.rg_volume {
                Some(want)
            } else {
                None
            };
            NormalizationPlan { applied: Applied::Now, steps, live }
        } else {
            self.pending = Some(want);
            NormalizationPlan { applied: Applied::AtNextLoad, steps: none, live: None }
        }
    }

    /// Leaves the current disc session, if there is one.
    pub fn release_disc_guard(&mut self) -> (r: Vec<GuardStep>)
        ensures
            final(self).drive() is None,
            !final(self).owns_drive(),
            guard_gain(r@) == held(final(self).owns_drive()) - held(old(self).owns_drive()),
            r@ == given_back(old(self).owns_drive()),
            final(self).shaped() == old(self).shaped(),
            final(self).able() == old(self).able(),
            final(self).in_force() == old(self).in_force(),
            final(self).waiting() == old(self).waiting(),
            final(self).level() == old(self).level(),
            final(self).rg_plugins() == old(self).rg_plugins(),
    {
        let mut steps: Vec<GuardStep> = Vec::new();
        self.device = None;
        if self.holds_disc_guard {
            self.holds_disc_guard = false;
            steps.push(GuardStep::End);
            assert(steps@.drop_last() =~= Seq::<GuardStep>::empty());
        }
        proof {
            reveal_with_fuel(guard_gain, 3);
        }
        steps
    }

    /// Plans a load: install a deferred normalization, take or give back the
    /// drive, and open the source. `on_optical` says whether a plain URI names
    /// a file on a mounted disc, which is a read off the drive as much as a
    /// disc track is.
    pub fn load(&mut self, source: &MediaSource, on_optical: bool) -> (r: LoadPlan)
        requires
            old(self).wf(),
        ensures
            final(self).wf(),
            final(self).able() == old(self).able(),
            final(self).rg_plugins() == old(self).rg_plugins(),
            final(self).level() == old(self).level(),
            final(self).waiting() is None,
            old(self).shaped().graph().allows_all(r.steps@),
            old(self).shaped().graph().run(r.steps@) == final(self).shaped().graph(),
            r.steps@ == (if old(self).waiting() is Some {
                reshaping(old(self).shaped(), final(self).shaped())
            } else {
                Seq::empty()
            }),
            match old(self).waiting() {
                Some(want) => {
                    &&& final(self).shaped() == shape_for(
                        old(self).shaped(),
                        want,
                        old(self).rg_plugins().0,
                        old(self).rg_plugins().1,
                    )
                    &&& final(self).in_force() == achieved(final(self).shaped(), want)
                    &&& r.live == (if final(self).shaped().rg_volume {
                        Some(want)
                    } else {
                        None
                    })
                },
                None => {
                    &&& final(self).shaped() == old(self).shaped()
                    &&& final(self).in_force() == old(self).in_force()
                    &&& r.live is None
                },
            },
            guard_gain(r.guard@) == held(final(self).owns_drive()) - held(old(self).owns_drive()),
            r.guard@ == guard_for(old(self).owns_drive(), *source, on_optical),
            match *source {
                MediaSource::CdTrack { track, device } => {
                    &&& final(self).owns_drive()
                    &&& r.uri@ == "cdda://"@ + track@
                    &&& final(self).drive() == (match device {
                        Some(d) => Some(d@),
                        None => None,
                    })
                },
                MediaSource::Uri(uri) => {
                    &&& final(self).owns_drive() == on_optical
                    &&& r.uri@ == uri@
                    &&& final(self).drive() is None
                },
            },
            match r.device {
                Some(d) => final(self).drive() == Some(d@),
                None => final(self).drive() is None,
            },
    {
        let mut steps: Vec<Step> = Vec::new();
        let mut live: Option<Normalization> = None;
        if let Some(want) = self.pending.take() {
            steps = self.apply_chain(want);
            if self.shape.rg_volume {
                live = Some(want);
            }
        }
        let ghost shaped = *self;
        match source {
            MediaSource::CdTrack { track, device } => {
                let mut guard: Vec<GuardStep> = Vec::new();
                let (kept, handed) = match device {
                    Some(d) => (Some(d.clone()), Some(d.clone())),
                    None => (None, None),
                };
                self.device = kept;
                if !self.holds_disc_guard {
                    guard.push(GuardStep::Begin);
                    self.holds_disc_guard = true;
                    assert(guard@.drop_last() =~= Seq::<GuardStep>::empty());
                }
                proof {
                    reveal_with_fuel(guard_gain, 3);
                }
                let uri = "cdda://".to_owned().concat(track.as_str());
                LoadPlan { guard, steps, live, device: handed, uri }
            },
            MediaSource::Uri(uri) => {
                let mut guard = self.release_disc_guard();
                if on_optical {
                    let ghost before = guard@;
                    guard.push(GuardStep::Begin);
                    self.holds_disc_guard = true;
                    assert(guard@.drop_last() =~= before);
                }
                LoadPlan { guard, steps, live, device: None, uri: uri.clone() }
            },
        }
    }

    /// What a transport state asks of the drive: stopping gives it back.
    pub fn set_state(&mut self, state: PlayerState) -> (r: Vec<GuardStep>)
        requires
            old(self).wf(),
        ensures
            final(self).wf(),
            guard_gain(r@) == held(final(self).owns_drive()) - held(old(self).owns_drive()),
            r@ == given_back(old(self).owns_drive() && state == PlayerState::Stopped),
            final(self).owns_drive() == (old(self).owns_drive() && state != PlayerState::Stopped),
            state != PlayerState::Stopped ==> final(self).drive() == old(self).drive(),
            state == PlayerState::Stopped ==> final(self).drive() is None,
            final(self).shaped() == old(self).shaped(),
            final(self).able() == old(self).able(),
            final(self).in_force() == old(self).in_force(),
            final(self).waiting() == old(self).waiting(),
            final(self).level() == old(self).level(),
            final(self).rg_plugins() == old(self).rg_plugins(),
    {
        if state == PlayerState::Stopped {
            self.release_disc_guard()
        } else {
            Vec::new()
        }
    }
}

/// What the count gains by several runs of steps.
pub open spec fn total_gain(runs: Seq<Seq<GuardStep>>) -> int
    decreases runs.len(),
{
    if runs.len() == 0 {
        0
    } else {
        total_gain(runs.drop_last()) + guard_gain(runs.last())
    }
}

/// Over any series of operations on a backend that began without the drive, the
/// count stands at one while the backend owns the drive and at zero otherwise:
/// back-to-back disc tracks are one session, and every way out of a session
/// gives it back once. `owns` tells who owned the drive before the first
/// operation and after each, `runs` the steps of each.
pub proof fn law_drive_count_is_balanced(owns: Seq<bool>, runs: Seq<Seq<GuardStep>>)
    requires
        owns.len() == runs.len() + 1,
        !owns[0],
        forall|i: int|
            0 <= i < runs.len() ==> #[trigger] guard_gain(runs[i]) == held(owns[i + 1]) - held(owns[i]),
    ensures
        total_gain(runs) == held(owns.last()),
    decreases runs.len(),
{
    if runs.len() > 0 {
        let n = runs.len() - 1;
        let shorter = runs.drop_last();
        assert forall|i: int| 0 <= i < shorter.len() implies #[trigger] guard_gain(shorter[i]) == held(
            owns.drop_last()[i + 1],
        ) - held(owns.drop_last()[i]) by {
            assert(shorter[i] == runs[i]);
            assert(guard_gain(runs[i]) == held(owns[i + 1]) - held(owns[i]));
        }
        law_drive_count_is_balanced(owns.drop_last(), shorter);
        assert(guard_gain(runs[n]) == held(owns[n + 1]) - held(owns[n]));
        assert(runs.last() == runs[n]);
    }
}

/// A message off the audio path's bus.
pub enum BusMessage {
    Eos,
    Error,
    /// A magnitude frame, in millionths of a decibel.
    Spectrum(Vec<i64>),
    Other,
}

/// The event that a message is.
pub open spec fn event_of(m: BusMessage) -> Option<BusEvent> {
    match m {
        BusMessage::Eos => Some(BusEvent::Eos),
        BusMessage::Error => Some(BusEvent::Error),
        _ => None,
    }
}

/// Takes one message off the bus: a transport event is handed on and ends the
/// draining, a magnitude frame goes to the tap, anything else is dropped.
pub fn handle_message(message: &BusMessage, tap: &mut AnalysisTap) -> (r: Option<BusEvent>)
    ensures
        r == event_of(*message),
        final(tap).samples() == old(tap).samples(),
        final(tap).sample_capacity() == old(tap).sample_capacity(),
        final(tap).magnitude_frames() == (match *message {
            BusMessage::Spectrum(db) => if db@.len() == 0 {
                old(tap).magnitude_frames()
            } else {
                old(tap).magnitude_frames().push(crate::engine::analysis::normalized(db@))
            },
            _ => old(tap).magnitude_frames(),
        }),
{
    match message {
        BusMessage::Eos => Some(BusEvent::Eos),
        BusMessage::Error => Some(BusEvent::Error),
        BusMessage::Spectrum(db) => {
            tap.push_magnitudes_db(db.as_slice());
            None
        },
        BusMessage::Other => None,
    }
}

/// How many messages a poll takes: up to and with the first transport event.
pub open spec fn taken(queue: Seq<BusMessage>) -> int
    decreases queue.len(),
{
    if queue.len() == 0 {
        0
    } else if event_of(queue[0]) is Some {
        1
    } else {
        1 + taken(queue.subrange(1, queue.len() as int))
    }
}

/// The first transport event of a queue.
pub open spec fn first_event(queue: Seq<BusMessage>) -> Option<BusEvent>
    decreases queue.len(),
{
    if queue.len() == 0 {
        None
    } else if event_of(queue[0]) is Some {
        event_of(queue[0])
    } else {
        first_event(queue.subrange(1, queue.len() as int))
    }
}

/// The magnitude frames that a poll finds before the first transport event.
pub open spec fn frames_before_event(queue: Seq<BusMessage>) -> Seq<Seq<u64>>
    decreases queue.len(),
{
    if queue.len() == 0 || event_of(queue[0]) is Some {
        Seq::empty()
    } else {
        let rest = frames_before_event(queue.subrange(1, queue.len() as int));
        match queue[0] {
            BusMessage::Spectrum(db) => if db@.len() == 0 {
                rest
            } else {
                seq![crate::engine::analysis::normalized(db@)] + rest
            },
            _ => rest,
        }
    }
}

proof fn lemma_taken_bound(queue: Seq<BusMessage>)
    ensures
        0 <= taken(queue) <= queue.len(),
        first_event(queue) is None ==> taken(queue) == queue.len(),
    decreases queue.len(),
{
    if queue.len() > 0 && event_of(queue[0]) is None {
        lemma_taken_bound(queue.subrange(1, queue.len() as int));
    }
}

/// Drains a bus up to its first transport event; what follows keeps its place.
/// Nothing is left behind where there is no such event, and every magnitude
/// frame on the way is captured in order.
pub fn poll_event(queue: &mut Vec<BusMessage>, tap: &mut AnalysisTap) -> (r: Option<BusEvent>)
    ensures
        r == first_event(old(queue)@),
        final(queue)@ == old(queue)@.subrange(taken(old(queue)@), old(queue)@.len() as int),
        r is None ==> final(queue)@.len() == 0,
        final(tap).samples() == old(tap).samples(),
        final(tap).sample_capacity() == old(tap).sample_capacity(),
        final(tap).magnitude_frames() == old(tap).magnitude_frames() + frames_before_event(
            old(queue)@,
        ),
{
    let ghost all = queue@;
    proof {
        assert(all.subrange(0, all.len() as int) =~= all);
        lemma_taken_bound(all);
    }
    while queue.len() > 0
        invariant
            all == old(queue)@,
            0 <= all.len() - queue@.len(),
            queue@ == all.subrange(all.len() - queue@.len(), all.len() as int),
            first_event(queue@) == first_event(all),
            taken(queue@) + (all.len() - queue@.len()) == taken(all),
            0 <= taken(all) <= all.len(),
            tap.samples() == old(tap).samples(),
            tap.sample_capacity() == old(tap).sample_capacity(),
            tap.magnitude_frames() + frames_before_event(queue@) == old(tap).magnitude_frames()
                + frames_before_event(all),
        decreases queue@.len(),
    {
        let ghost before = queue@;
        let ghost had = tap.magnitude_frames();
        let message = queue.remove(0);
        assert(message == before[0]);
        assert(queue@ =~= before.subrange(1, before.len() as int));
        assert(queue@ =~= all.subrange(all.len() - queue@.len(), all.len() as int));
        let event = handle_message(&message, tap);
        if event.is_some() {
            assert(taken(before) == 1);
            assert(had + frames_before_event(before) =~= had);
            return event;
        }
        proof {
            lemma_taken_bound(queue@);
            assert(tap.magnitude_frames() + frames_before_event(queue@) =~= had
                + frames_before_event(before));
        }
    }
    assert(tap.magnitude_frames() + frames_before_event(queue@) =~= tap.magnitude_frames());
    None
}

/// The sample formats a capture understands.
#[derive(Debug, Clone, Copy, PartialEq, Eq, Structural)]
pub enum SampleFormat {
    F32,
    F64,
    S16,
}

/// Bytes of one sample.
pub open spec fn sample_width(f: SampleFormat) -> int {
    match f {
        SampleFormat::F32 => 4,
        SampleFormat::F64 => 8,
        SampleFormat::S16 => 2,
    }
}

/// The format that a caps string names; `None` for one that is not captured.
pub open spec fn format_of(name: Seq<char>) -> Option<SampleFormat> {
    if name == "F32LE"@ {
        Some(SampleFormat::F32)
    } else if name == "F64LE"@ {
        Some(SampleFormat::F64)
    } else if name == "S16LE"@ {
        Some(SampleFormat::S16)
    } else {
        None
    }
}

/// The format that a caps string names; `None` for one that is not captured.
pub fn sample_format(name: &str) -> (r: Option<SampleFormat>)
    ensures
        r == format_of(name@),
{
    if same(name, "F32LE") {
        Some(SampleFormat::F32)
    } else if same(name, "F64LE") {
        Some(SampleFormat::F64)
    } else if same(name, "S16LE") {
        Some(SampleFormat::S16)
    } else {
        None
    }
}

/// The number that little-endian bytes spell.
pub open spec fn le_word(bytes: Seq<u8>) -> int
    decreases bytes.len(),
{
    if bytes.len() == 0 {
        0
    } else {
        bytes[0] + 256 * le_word(bytes.subrange(1, bytes.len() as int))
    }
}

/// The left channel of interleaved samples: the first sample of every complete
/// frame, as the word its bytes spell. A rest that makes no frame is dropped.
pub open spec fn left_words(data: Seq<u8>, width: int, channels: int) -> Seq<u64> {
    Seq::new(
        (data.len() as int / (width * channels)) as nat,
        |i: int|
            le_word(data.subrange(i * (width * channels), i * (width * channels) + width)) as u64,
    )
}

proof fn lemma_le_word_bound(bytes: Seq<u8>)
    ensures
        0 <= le_word(bytes),
        bytes.len() == 2 ==> le_word(bytes) == bytes[0] + 256 * bytes[1] && le_word(bytes) <= 0xffff,
        bytes.len() == 4 ==> le_word(bytes) <= 0xffff_ffff,
        bytes.len() == 8 ==> le_word(bytes) <= 0xffff_ffff_ffff_ffff,
    decreases bytes.len(),
{
    reveal_with_fuel(le_word, 10);
    if bytes.len() > 0 {
        lemma_le_word_bound(bytes.subrange(1, bytes.len() as int));
    }
}

/// The word that `width` bytes from `at` spell.
fn read_word(data: &[u8], at: usize, width: usize) -> (r: u64)
    requires
        width == 2 || width == 4 || width == 8,
        at + width <= data@.len(),
    ensures
        r == le_word(data@.subrange(at as int, at + width)),
{
    let n: usize = data.len();
    let mut r: u64 = 0;
    let mut i: usize = width;
    assert(data@.subrange(at + width, at + width).len() == 0);
    while i > 0
        invariant
            i <= width,
            width == 2 || width == 4 || width == 8,
            at + width <= n,
            n == data@.len(),
            r == le_word(data@.subrange(at + i, at + width)),
            width - i == 0 ==> r == 0,
            width - i == 1 ==> r <= 0xff,
            width - i == 2 ==> r <= 0xffff,
            width - i == 3 ==> r <= 0xff_ffff,
            width - i == 4 ==> r <= 0xffff_ffff,
            width - i == 5 ==> r <= 0xff_ffff_ffff,
            width - i == 6 ==> r <= 0xffff_ffff_ffff,
            width - i == 7 ==> r <= 0xff_ffff_ffff_ffff,
        decreases i,
    {
        i -= 1;
        let ghost from = data@.subrange(at + i, at + width);
        assert(from.subrange(1, from.len() as int) =~= data@.subrange(at + i + 1, at + width));
        assert(from[0] == data@[at + i]);
        r = (data[at + i] as u64) + 256 * r;
    }
    r
}

/// The left channel of a captured buffer.
pub fn left_channel(data: &[u8], format: SampleFormat, channels: usize) -> (r: Vec<u64>)
    requires
        channels >= 1,
    ensures
        r@ == left_words(data@, sample_width(format), channels as int),
{
    let width: usize = match format {
        SampleFormat::F32 => 4,
        SampleFormat::F64 => 8,
        SampleFormat::S16 => 2,
    };
    let mut out: Vec<u64> = Vec::new();
    let n: usize = data.len();
    // A frame wider than the buffer can hold leaves nothing to take.
    if channels > n / width {
        proof {
            assert(data@.len() as int / (width * channels) == 0) by (nonlinear_arith)
                requires
                    width > 0,
                    channels > data@.len() as int / (width as int),
            ;
        }
        assert(out@ =~= left_words(data@, sample_width(format), channels as int));
        return out;
    }
    assert(0 < width * channels <= n) by (nonlinear_arith)
        requires
            width > 0,
            1 <= channels <= n as int / (width as int),
    ;
    let frame: usize = width * channels;
    assert(width <= frame) by (nonlinear_arith)
        requires
            frame == width * channels,
            channels >= 1,
            width > 0,
    ;
    let count: usize = n / frame;
    let mut i: usize = 0;
    while i < count
        invariant
            i <= count,
            n == data@.len(),
            0 < width <= frame,
            width == 2 || width == 4 || width == 8,
            width == sample_width(format),
            frame == width * channels,
            count == n as int / (frame as int),
            out@.len() == i,
            forall|k: int|
                0 <= k < i ==> #[trigger] out@[k] == left_words(data@, width as int, channels as int)[k],
        decreases count - i,
    {
        assert(0 <= i * frame && i * frame + frame <= n) by (nonlinear_arith)
            requires
                0 <= i,
                i + 1 <= n as int / (frame as int),
                frame > 0,
        ;
        let at: usize = i * frame;
        let word = read_word(data, at, width);
        proof {
            lemma_le_word_bound(data@.subrange(at as int, at + width));
        }
        out.push(word);
        i += 1;
    }
    assert(out@ =~= left_words(data@, sample_width(format), channels as int));
    out
}

/// A sixteen-bit sample in parts per billion of full scale, rounded down.
pub open spec fn s16_level(word: u64) -> int {
    let v = if word >= 0x8000 {
        word - 0x1_0000
    } else {
        word as int
    };
    (v * 1_000_000_000) / 32768
}

/// A sixteen-bit sample in parts per billion of full scale.
pub fn s16_ppb(word: u64) -> (r: i64)
    requires
        word <= 0xffff,
    ensures
        r == s16_level(word),
        -1_000_000_000 <= r < 1_000_000_000,
{
    if word >= 0x8000 {
        // Rounded away from zero, which is down.
        let m: i64 = 0x1_0000 - word as i64;
        let scaled: i64 = m * 1_000_000_000;
        assert((-scaled) as int / 32768 == -((scaled + 32767) as int / 32768)) by (nonlinear_arith)
            requires
                scaled >= 0,
        ;
        -((scaled + 32767) / 32768)
    } else {
        (word as i64 * 1_000_000_000) / 32768
    }
}

/// How many channels a capture has: as it says, and one where it says nothing or
/// nonsense.
pub open spec fn channel_count(said: Option<i32>) -> int {
    match said {
        Some(n) if n >= 1 => n as int,
        _ => 1,
    }
}

/// What is captured of a buffer: the left channel, in the format that the caps
/// name. Nothing of a format that is not captured, and nothing of a buffer
/// without a complete frame.
pub fn captured(format: Option<&str>, channels: Option<i32>, data: &[u8]) -> (r: Option<
    (SampleFormat, Vec<u64>),
>)
    ensures
        match r {
            Some((f, words)) => {
                &&& format is Some
                &&& format_of(format->0@) == Some(f)
                &&& words@ == left_words(data@, sample_width(f), channel_count(channels))
                &&& words@.len() > 0
            },
            None => format is None || match format_of(format->0@) {
                Some(f) => left_words(data@, sample_width(f), channel_count(channels)).len() == 0,
                None => true,
            },
        },
{
    let name = match format {
        Some(name) => name,
        None => return None,
    };
    let f = match sample_format(name) {
        Some(f) => f,
        None => return None,
    };
    let count: usize = match channels {
        Some(n) => if n >= 1 {
            n as usize
        } else {
            1
        },
        None => 1,
    };
    let words = left_channel(data, f, count);
    if words.len() > 0 {
        Some((f, words))
    } else {
        None
    }
}

/// Where a stage stands along the way of the sound.
pub open spec fn along(s: Stage) -> int {
    match s {
        Stage::Convert => 0,
        Stage::Spectrum => 1,
        Stage::RgVolume => 2,
        Stage::RgLimiter => 3,
        Stage::Volume => 4,
        Stage::Equalizer => 5,
        Stage::Sink => 6,
    }
}

/// Every stage of a shape feeds the one that stands next along the way, and passes none
/// over.
pub proof fn law_a_stage_feeds_the_next_along_the_way(shape: Shape, s: Stage, t: Stage)
    requires
        shape.wf(),
        shape.graph().present.contains(s),
        s != Stage::Sink,
        shape.graph().present.contains(t),
    ensures
        shape.graph().feeds.dom().contains(s),
        shape.graph().present.contains(shape.graph().feeds[s]),
        along(s) < along(shape.graph().feeds[s]),
        along(t) <= along(s) || along(shape.graph().feeds[s]) <= along(t),
{
}

/// The stages of a shape are those that it names, and the four that every path has.
pub proof fn law_a_shape_has_what_it_names(shape: Shape)
    ensures
        shape.graph().present.contains(Stage::Convert),
        shape.graph().present.contains(Stage::Volume),
        shape.graph().present.contains(Stage::Sink),
        shape.graph().present.contains(Stage::Spectrum) == shape.spectrum,
        shape.graph().present.contains(Stage::RgVolume) == shape.rg_volume,
        shape.graph().present.contains(Stage::RgLimiter) == shape.rg_limiter,
        shape.graph().present.contains(Stage::Equalizer) == shape.equalizer,
{
}

/// With both plugins a normalization comes into force as it was asked for; without the
/// limiter it goes unprotected, and without the volume stage there is none. The spectrum,
/// the equalizer and the gains stay as they are.
pub proof fn law_a_normalization_is_served_as_far_as_the_plugins_go(
    have: Shape,
    want: Normalization,
    limiter: bool,
)
    ensures
        ({
            let full = shape_for(have, want, true, true);
            let unprotected = shape_for(have, want, true, false);
            let none = shape_for(have, want, false, limiter);
            &&& full.wf() && unprotected.wf() && none.wf()
            &&& want.clip_protection ==> want.enabled ==> achieved(full, want) == want
            &&& !want.enabled ==> full == bare(have)
            &&& achieved(unprotected, want).enabled == want.enabled
            &&& !achieved(unprotected, want).clip_protection
            &&& !achieved(none, want).enabled && !achieved(none, want).clip_protection
            &&& full.spectrum == have.spectrum && full.equalizer == have.equalizer
            &&& unprotected.spectrum == have.spectrum && unprotected.equalizer == have.equalizer
            &&& none.spectrum == have.spectrum && none.equalizer == have.equalizer
            &&& achieved(have, want).fallback_db == want.fallback_db
            &&& achieved(have, want).album_mode == want.album_mode
            &&& want.enabled && !want.clip_protection ==> achieved(full, want) == want
        }),
{
}

/// After a load the drive is held where what was loaded is on a disc and not otherwise; a
/// session that goes on is not touched, and whatever is given back is given back first.
pub proof fn law_the_drive_is_held_for_what_is_on_a_disc(
    holds: bool,
    source: MediaSource,
    on_optical: bool,
)
    ensures
        held(holds) + guard_gain(guard_for(holds, source, on_optical)) == (if source is CdTrack
            || on_optical {
            1int
        } else {
            0int
        }),
        holds && source is CdTrack ==> guard_for(holds, source, on_optical).len() == 0,
        holds && source is Uri ==> guard_for(holds, source, on_optical)[0] == GuardStep::End,
        held(holds) + guard_gain(given_back(holds)) == 0,
        !holds ==> given_back(holds).len() == 0,
{
    reveal_with_fuel(guard_gain, 4);
    let g = guard_for(holds, source, on_optical);
    if g.len() == 2 {
        assert(g.drop_last() =~= seq![GuardStep::End]);
        assert(g.drop_last().drop_last() =~= Seq::empty());
    } else if g.len() == 1 {
        assert(g.drop_last() =~= Seq::empty());
    }
    let b = given_back(holds);
    if holds {
        assert(b.drop_last() =~= Seq::empty());
    }
}

/// What the count gains by two runs of steps is what it gains by each: one by a beginning,
/// minus one by an end.
pub proof fn law_the_count_gains_by_each_step(a: Seq<GuardStep>, b: Seq<GuardStep>)
    ensures
        guard_gain(a + b) == guard_gain(a) + guard_gain(b),
        guard_gain(a.push(GuardStep::Begin)) == guard_gain(a) + 1,
        guard_gain(a.push(GuardStep::End)) == guard_gain(a) - 1,
        guard_gain(Seq::empty()) == 0,
    decreases b.len(),
{
    assert(a.push(GuardStep::Begin).drop_last() =~= a);
    assert(a.push(GuardStep::End).drop_last() =~= a);
    if b.len() == 0 {
        assert(a + b =~= a);
    } else {
        law_the_count_gains_by_each_step(a, b.drop_last());
        assert((a + b).drop_last() =~= a + b.drop_last());
    }
}

/// Only the end of a stream and an error are events; the first of them in the queue is the
/// one that is reported, and what stands behind it is left there.
pub proof fn law_the_first_event_of_a_queue_is_reported(queue: Seq<BusMessage>, at: int)
    requires
        0 <= at <= queue.len(),
        forall|i: int| 0 <= i < at ==> !(#[trigger] queue[i] is Eos) && !(queue[i] is Error),
        at < queue.len() ==> queue[at] is Eos || queue[at] is Error,
    ensures
        at == queue.len() ==> first_event(queue) is None && taken(queue) == queue.len(),
        at < queue.len() ==> taken(queue) == at + 1,
        at < queue.len() ==> first_event(queue) == Some(
            if queue[at] is Eos {
                BusEvent::Eos
            } else {
                BusEvent::Error
            },
        ),
    decreases queue.len(),
{
    if at > 0 {
        let rest = queue.subrange(1, queue.len() as int);
        assert(!(queue[0] is Eos) && !(queue[0] is Error));
        assert forall|i: int| 0 <= i < at - 1 implies !(#[trigger] rest[i] is Eos) && !(
        rest[i] is Error) by {
            assert(rest[i] == queue[i + 1]);
        }
        law_the_first_event_of_a_queue_is_reported(rest, at - 1);
    }
}

/// The frames of a queue are those of its parts in their order, down to the first event;
/// a message of magnitudes is one frame, and an empty one none.
pub proof fn law_frames_are_taken_in_their_order(
    a: Seq<BusMessage>,
    b: Seq<BusMessage>,
    event: BusMessage,
    db: Vec<i64>,
)
    requires
        forall|i: int| 0 <= i < a.len() ==> !(#[trigger] a[i] is Eos) && !(a[i] is Error),
        event is Eos || event is Error,
    ensures
        frames_before_event(a + b) == frames_before_event(a) + frames_before_event(b),
        frames_before_event(a + seq![event] + b) == frames_before_event(a),
        db@.len() > 0 ==> frames_before_event(seq![BusMessage::Spectrum(db)]) == seq![
            crate::engine::analysis::normalized(db@),
        ],
        db@.len() == 0 ==> frames_before_event(seq![BusMessage::Spectrum(db)]) == Seq::<
            Seq<u64>,
        >::empty(),
        frames_before_event(seq![BusMessage::Other]) == Seq::<Seq<u64>>::empty(),
    decreases a.len(),
{
    let s = seq![BusMessage::Spectrum(db)];
    let o = seq![BusMessage::Other];
    assert(s.subrange(1, 1) =~= Seq::empty());
    assert(o.subrange(1, 1) =~= Seq::empty());
    assert(frames_before_event(Seq::empty()) =~= Seq::empty());
    assert(frames_before_event(s) == if db@.len() == 0 {
        Seq::<Seq<u64>>::empty()
    } else {
        seq![crate::engine::analysis::normalized(db@)] + Seq::<Seq<u64>>::empty()
    });
    assert(seq![crate::engine::analysis::normalized(db@)] + Seq::<Seq<u64>>::empty() =~= seq![
        crate::engine::analysis::normalized(db@),
    ]);
    assert(frames_before_event(o) =~= Seq::empty());
    if a.len() == 0 {
        assert(a + b =~= b);
        assert(Seq::<Seq<u64>>::empty() + frames_before_event(b) =~= frames_before_event(b));
        assert((a + seq![event] + b)[0] == event);
    } else {
        let rest = a.subrange(1, a.len() as int);
        assert forall|i: int| 0 <= i < rest.len() implies !(#[trigger] rest[i] is Eos) && !(
        rest[i] is Error) by {
            assert(rest[i] == a[i + 1]);
        }
        law_frames_are_taken_in_their_order(rest, b, event, db);
        let ab = a + b;
        let aeb = a + seq![event] + b;
        assert(ab.subrange(1, ab.len() as int) =~= rest + b);
        assert(aeb.subrange(1, aeb.len() as int) =~= rest + seq![event] + b);
        assert(ab[0] == a[0] && aeb[0] == a[0]);
        assert(!(a[0] is Eos) && !(a[0] is Error));
        assert(frames_before_event(ab) =~= frames_before_event(a) + frames_before_event(b));
    }
}

/// 256 to a power.
pub open spec fn byte_weight(n: nat) -> int
    decreases n,
{
    if n == 0 {
        1
    } else {
        256 * byte_weight((n - 1) as nat)
    }
}

/// In a word the first byte weighs least: each byte that follows weighs 256 times the one
/// before.
pub proof fn law_the_first_byte_weighs_least(bytes: Seq<u8>, top: u8)
    ensures
        le_word(bytes.push(top)) == le_word(bytes) + byte_weight(bytes.len()) * top,
        0 <= le_word(bytes) < byte_weight(bytes.len()),
    decreases bytes.len(),
{
    let more = bytes.push(top);
    if bytes.len() == 0 {
        assert(more.subrange(1, 1) =~= Seq::empty());
        assert(le_word(Seq::empty()) == 0);
    } else {
        let rest = bytes.subrange(1, bytes.len() as int);
        law_the_first_byte_weighs_least(rest, top);
        assert(more.subrange(1, more.len() as int) =~= rest.push(top));
        assert(256 * (le_word(rest) + byte_weight(rest.len()) * top) == 256 * le_word(rest) + (256
            * byte_weight(rest.len())) * top) by (nonlinear_arith);
    }
}

/// The names of the formats say how wide their samples are, and any other is not captured.
pub proof fn law_a_format_is_as_wide_as_its_name(name: Seq<char>)
    ensures
        name == seq!['F', '3', '2', 'L', 'E'] <==> format_of(name) == Some(SampleFormat::F32),
        name == seq!['F', '6', '4', 'L', 'E'] <==> format_of(name) == Some(SampleFormat::F64),
        name == seq!['S', '1', '6', 'L', 'E'] <==> format_of(name) == Some(SampleFormat::S16),
        8 * sample_width(SampleFormat::F32) == 32,
        8 * sample_width(SampleFormat::F64) == 64,
        8 * sample_width(SampleFormat::S16) == 16,
{
    reveal_strlit("F32LE");
    reveal_strlit("F64LE");
    reveal_strlit("S16LE");
    let a = seq!['F', '3', '2', 'L', 'E'];
    let b = seq!['F', '6', '4', 'L', 'E'];
    let c = seq!['S', '1', '6', 'L', 'E'];
    assert(a =~= "F32LE"@);
    assert(b =~= "F64LE"@);
    assert(c =~= "S16LE"@);
    assert(a[0] != c[0] && b[0] != c[0] && a[1] != b[1]);
}

/// Each frame of a buffer gives one sample, the word that its first bytes are; bytes that
/// make no whole frame give none.
pub proof fn law_a_frame_gives_its_first_sample(
    frames: Seq<u8>,
    frame: Seq<u8>,
    tail: Seq<u8>,
    n: nat,
    width: int,
    channels: int,
)
    requires
        width > 0,
        channels > 0,
        frames.len() == n * (width * channels),
        frame.len() == width * channels,
        tail.len() < width * channels,
    ensures
        left_words(frames + frame, width, channels) == left_words(frames, width, channels).push(
            le_word(frame.subrange(0, width)) as u64,
        ),
        left_words(frames + tail, width, channels) == left_words(frames, width, channels),
{
    let w = width * channels;
    assert(w >= width) by (nonlinear_arith)
        requires
            w == width * channels,
            width > 0,
            channels > 0,
    ;
    let more = frames + frame;
    let cut = frames + tail;
    assert(n * w + w == (n + 1) * w) by (nonlinear_arith);
    vstd::arithmetic::div_mod::lemma_div_multiples_vanish(n as int, w);
    vstd::arithmetic::div_mod::lemma_div_multiples_vanish((n + 1) as int, w);
    vstd::arithmetic::div_mod::lemma_fundamental_div_mod_converse(
        cut.len() as int,
        w,
        n as int,
        tail.len() as int,
    );
    vstd::arithmetic::mul::lemma_mul_is_commutative(n as int, w);
    vstd::arithmetic::mul::lemma_mul_is_commutative((n + 1) as int, w);
    assert(more.len() as int / w == n + 1);
    assert(frames.len() as int / w == n);
    let lhs = left_words(more, width, channels);
    let rhs = left_words(frames, width, channels).push(le_word(frame.subrange(0, width)) as u64);
    assert forall|i: int| 0 <= i < n + 1 implies lhs[i] == rhs[i] by {
        if i < n {
            assert(i * w + w <= n * w) by (nonlinear_arith)
                requires
                    i < n,
                    w > 0,
            ;
            assert(i * w >= 0) by (nonlinear_arith)
                requires
                    i >= 0,
                    w > 0,
            ;
            assert(more.subrange(i * w, i * w + width) =~= frames.subrange(i * w, i * w + width));
        } else {
            assert(more.subrange(i * w, i * w + width) =~= frame.subrange(0, width));
        }
    }
    assert(lhs =~= rhs);
    let short = left_words(cut, width, channels);
    let plain = left_words(frames, width, channels);
    assert forall|i: int| 0 <= i < n implies short[i] == plain[i] by {
        assert(i * w + w <= n * w) by (nonlinear_arith)
            requires
                i < n,
                w > 0,
        ;
        assert(i * w >= 0) by (nonlinear_arith)
            requires
                i >= 0,
                w > 0,
        ;
        assert(cut.subrange(i * w, i * w + width) =~= frames.subrange(i * w, i * w + width));
    }
    assert(short =~= plain);
}

/// A sample of sixteen bits is a signed number, and its level its share of the range, in
/// billionths.
pub proof fn law_a_level_is_the_share_of_the_range(sample: i16, word: u64)
    requires
        sample >= 0 ==> word == sample,
        sample < 0 ==> word == 0x1_0000 + sample,
    ensures
        32768 * s16_level(word) <= 1_000_000_000 * sample < 32768 * (s16_level(word) + 1),
{
}

/// A capture that says how many channels it has has so many, and never fewer than one.
pub proof fn law_a_capture_has_a_channel(said: i32)
    ensures
        channel_count(Some(said)) >= 1,
        said >= 1 ==> channel_count(Some(said)) == said,
        said < 1 ==> channel_count(Some(said)) == 1,
        channel_count(None) == 1,
{
}

} // verus!
