//! Breadth-first traversal over links, one memory at a time: the traversal names
//! the memory whose outgoing links it needs, and is fed those links.
use crate::link::{LinkModel, MemoryLink, RelationshipType, StepModel, TraversalStep};
use crate::memory::MemoryId;
use crate::model::{opt, views};
use crate::service::tenant::require_tenant_id;
use crate::store::links::{links_from, list_links_from_statement};
use crate::store::sql::{Statement, StatementModel};
use crate::text::{blank, same_text};
use vstd::prelude::*;

verus! {

/// The furthest that a traversal goes.
pub const MAX_TRAVERSAL_DEPTH: usize = 32;

/// The model of a traversal. The memories reached so far are the one it began
/// from, followed by those of its steps; the first `expanded` of them have been
/// followed.
pub struct TraversalModel {
    pub from: Seq<char>,
    pub steps: Seq<StepModel>,
    pub expanded: nat,
    pub max_depth: usize,
}

impl TraversalModel {
    /// How many memories have been reached.
    pub open spec fn reached(self) -> nat {
        self.steps.len() + 1
    }

    /// The memory reached in place `i`.
    pub open spec fn id(self, i: int) -> Seq<char> {
        if i == 0 {
            self.from
        } else {
            self.steps[i - 1].memory_id
        }
    }

    /// How far the memory reached in place `i` is from the start.
    pub open spec fn depth(self, i: int) -> int {
        if i == 0 {
            0
        } else {
            self.steps[i - 1].depth as int
        }
    }

    /// Whether a memory has been reached within `depth` links.
    pub open spec fn reaches(self, id: Seq<char>, depth: int) -> bool {
        exists|j: int|
            0 <= j < self.reached() && #[trigger] self.id(j) == id && self.depth(j) <= depth
    }

    /// What holds of every traversal: no memory is reached twice; memories are
    /// reached in the order of their distance; none lies further than the limit,
    /// or more than one link beyond the last memory that was followed; and each
    /// step's link leads to its memory.
    pub open spec fn sound(self) -> bool {
        &&& self.expanded <= self.reached()
        &&& 1 <= self.max_depth <= MAX_TRAVERSAL_DEPTH
        &&& self.expanded == 0 ==> self.steps.len() == 0
        &&& forall|i: int, j: int|
            0 <= i < j < self.reached() ==> #[trigger] self.id(i) != #[trigger] self.id(j)
        &&& forall|i: int, j: int|
            0 <= i < j < self.reached() ==> #[trigger] self.depth(i) <= #[trigger] self.depth(j)
        &&& forall|i: int| 1 <= i < self.reached() ==> 1 <= #[trigger] self.depth(i) <= self.max_depth
        &&& forall|i: int|
            0 <= i < self.reached() && self.expanded > 0 ==> #[trigger] self.depth(i)
                <= self.depth(self.expanded - 1) + 1
        &&& forall|i: int|
            0 <= i < self.steps.len() ==> (#[trigger] self.steps[i]).link.dst
                == self.steps[i].memory_id
    }

    /// Whether each step's link leaves a memory that was reached one link
    /// earlier.
    pub open spec fn anchored(self) -> bool {
        forall|i: int|
            0 <= i < self.steps.len() ==> exists|j: int|
                0 <= j <= i && #[trigger] self.id(j) == (#[trigger] self.steps[i]).link.src
                    && self.depth(j) + 1 == self.steps[i].depth
    }

    /// Whether each step's link is one of those that were given for a memory which
    /// was followed, one link earlier, where `out` gives the links for each memory.
    pub open spec fn follows(self, out: spec_fn(Seq<char>) -> Seq<LinkModel>) -> bool {
        forall|i: int|
            0 <= i < self.steps.len() ==> exists|j: int|
                0 <= j <= i && j < self.expanded && out(#[trigger] self.id(j)).contains(
                    (#[trigger] self.steps[i]).link,
                ) && self.depth(j) + 1 == self.steps[i].depth
    }

    /// Whether everything that leaves a memory already followed has been reached,
    /// at most one link further, where `out` gives the links that leave each
    /// memory.
    pub open spec fn explored(self, out: spec_fn(Seq<char>) -> Seq<LinkModel>) -> bool {
        forall|i: int, k: int|
            0 <= i < self.expanded && 0 <= k < out(self.id(i)).len() ==> self.reaches(
                (#[trigger] out(self.id(i))[k]).dst,
                self.depth(i) + 1,
            )
    }
}

/// A traversal before its first step.
pub open spec fn begun(from: Seq<char>, max_depth: usize) -> TraversalModel {
    TraversalModel {
        from,
        steps: Seq::empty(),
        expanded: 0,
        max_depth: if max_depth < 1 {
            1
        } else if max_depth > MAX_TRAVERSAL_DEPTH {
            MAX_TRAVERSAL_DEPTH
        } else {
            max_depth
        },
    }
}

/// The memory whose links a traversal needs next; none once it is over.
pub open spec fn waiting(t: TraversalModel) -> Option<Seq<char>> {
    if t.expanded < t.reached() && t.depth(t.expanded as int) < t.max_depth {
        Some(t.id(t.expanded as int))
    } else {
        None
    }
}

/// Whether a memory is the start, or that of a step.
pub open spec fn is_known(from: Seq<char>, steps: Seq<StepModel>, id: Seq<char>) -> bool {
    id == from || exists|i: int| 0 <= i < steps.len() && (#[trigger] steps[i]).memory_id == id
}

/// The steps after following links in turn: one for each memory not yet known.
pub open spec fn discover(
    from: Seq<char>,
    steps: Seq<StepModel>,
    links: Seq<LinkModel>,
    depth: usize,
) -> Seq<StepModel>
    decreases links.len(),
{
    if links.len() == 0 {
        steps
    } else {
        let before = discover(from, steps, links.drop_last(), depth);
        let link = links.last();
        if is_known(from, before, link.dst) {
            before
        } else {
            before.push(StepModel { memory_id: link.dst, depth, link })
        }
    }
}

/// The traversal after it was fed the links of the memory that it waits for; one
/// that is over stays as it is.
pub open spec fn fed(t: TraversalModel, links: Seq<LinkModel>) -> TraversalModel {
    if waiting(t) is Some {
        TraversalModel {
            steps: discover(
                t.from,
                t.steps,
                links,
                (t.depth(t.expanded as int) + 1) as usize,
            ),
            expanded: t.expanded + 1,
            ..t
        }
    } else {
        t
    }
}

/// Following links only adds steps.
proof fn discover_extends(
    from: Seq<char>,
    steps: Seq<StepModel>,
    links: Seq<LinkModel>,
    depth: usize,
)
    ensures
        discover(from, steps, links, depth).len() >= steps.len(),
        forall|i: int|
            0 <= i < steps.len() ==> #[trigger] discover(from, steps, links, depth)[i] == steps[i],
        forall|i: int|
            steps.len() <= i < discover(from, steps, links, depth).len() ==> {
                let step = #[trigger] discover(from, steps, links, depth)[i];
                step.depth == depth && step.link.dst == step.memory_id && links.contains(step.link)
                    && !is_known(from, steps, step.memory_id)
            },
        forall|k: int|
            0 <= k < links.len() ==> is_known(
                from,
                discover(from, steps, links, depth),
                (#[trigger] links[k]).dst,
            ),
    decreases links.len(),
{
    if links.len() > 0 {
        let head = links.drop_last();
        let link = links.last();
        discover_extends(from, steps, head, depth);
        let before = discover(from, steps, head, depth);
        let after = discover(from, steps, links, depth);
        assert forall|i: int| steps.len() <= i < after.len() implies {
            let step = #[trigger] after[i];
            step.depth == depth && step.link.dst == step.memory_id && links.contains(step.link)
                && !is_known(from, steps, step.memory_id)
        } by {
            if i < before.len() {
                assert(after[i] == before[i]);
                let k = choose|k: int| 0 <= k < head.len() && head[k] == after[i].link;
                assert(links[k] == after[i].link);
            } else {
                assert(links[links.len() - 1] == after[i].link);
                if is_known(from, steps, link.dst) && link.dst != from {
                    let k = choose|k: int|
                        0 <= k < steps.len() && (#[trigger] steps[k]).memory_id == link.dst;
                    assert(before[k] == steps[k]);
                }
            }
        }
        assert forall|k: int| 0 <= k < links.len() implies is_known(
            from,
            after,
            (#[trigger] links[k]).dst,
        ) by {
            if k < head.len() {
                assert(head[k] == links[k]);
                if links[k].dst != from {
                    let i = choose|i: int|
                        0 <= i < before.len() && (#[trigger] before[i]).memory_id == links[k].dst;
                    assert(after[i] == before[i]);
                }
            } else if !is_known(from, before, link.dst) {
                assert(after[before.len() as int].memory_id == link.dst);
            }
        }
    }
}

/// Following links keeps memories distinct.
proof fn discover_keeps_distinct(
    from: Seq<char>,
    steps: Seq<StepModel>,
    links: Seq<LinkModel>,
    depth: usize,
)
    requires
        forall|i: int, j: int|
            0 <= i < j < steps.len() ==> (#[trigger] steps[i]).memory_id != (
            #[trigger] steps[j]).memory_id,
        forall|i: int| 0 <= i < steps.len() ==> (#[trigger] steps[i]).memory_id != from,
    ensures
        ({
            let after = discover(from, steps, links, depth);
            &&& forall|i: int, j: int|
                0 <= i < j < after.len() ==> (#[trigger] after[i]).memory_id != (
                #[trigger] after[j]).memory_id
            &&& forall|i: int| 0 <= i < after.len() ==> (#[trigger] after[i]).memory_id != from
        }),
    decreases links.len(),
{
    if links.len() > 0 {
        discover_keeps_distinct(from, steps, links.drop_last(), depth);
    }
}

/// A traversal begins sound, with nothing left unexplored behind it.
pub proof fn law_traversal_begins_sound(
    from: Seq<char>,
    max_depth: usize,
    out: spec_fn(Seq<char>) -> Seq<LinkModel>,
)
    ensures
        begun(from, max_depth).sound(),
        begun(from, max_depth).anchored(),
        begun(from, max_depth).follows(out),
        begun(from, max_depth).explored(out),
{
}

/// Whatever links it is fed, a sound traversal stays sound.
pub proof fn law_traversal_stays_sound(t: TraversalModel, links: Seq<LinkModel>)
    requires
        t.sound(),
    ensures
        fed(t, links).sound(),
{
    if waiting(t) is Some {
        let e = t.expanded as int;
        let depth = (t.depth(e) + 1) as usize;
        let after = fed(t, links);
        discover_extends(t.from, t.steps, links, depth);
        assert forall|i: int, j: int| 0 <= i < j < t.steps.len() implies (
        #[trigger] t.steps[i]).memory_id != (#[trigger] t.steps[j]).memory_id by {
            assert(t.id(i + 1) != t.id(j + 1));
        }
        assert forall|i: int| 0 <= i < t.steps.len() implies (#[trigger] t.steps[i]).memory_id
            != t.from by {
            assert(t.id(0) != t.id(i + 1));
        }
        discover_keeps_distinct(t.from, t.steps, links, depth);
        assert forall|i: int| 0 <= i < t.reached() implies after.depth(i) == #[trigger] t.depth(i)
            by {
            if i > 0 {
                assert(after.steps[i - 1] == t.steps[i - 1]);
            }
        }
        assert forall|i: int| t.reached() <= i < after.reached() implies #[trigger] after.depth(i)
            == depth by {
            assert(after.steps[i - 1].depth == depth);
        }
        assert forall|i: int| 0 <= i < t.reached() implies #[trigger] t.depth(i) <= depth by {
            if e > 0 {
                assert(t.depth(e - 1) <= t.depth(e));
                assert(t.depth(i) <= t.depth(e - 1) + 1);
            }
        }
        assert forall|i: int, j: int| 0 <= i < j < after.reached() implies #[trigger] after.depth(i)
            <= #[trigger] after.depth(j) by {
            if j < t.reached() {
                assert(t.depth(i) <= t.depth(j));
            }
        }
        assert forall|i: int| 1 <= i < after.reached() implies 1 <= #[trigger] after.depth(i)
            <= after.max_depth by {
            if i < t.reached() {
                assert(1 <= t.depth(i) <= t.max_depth);
            }
        }
        assert(after.depth(after.expanded - 1) == t.depth(e));
        assert forall|i: int| 0 <= i < after.reached() implies #[trigger] after.depth(i)
            <= after.depth(after.expanded - 1) + 1 by {
            if i < t.reached() {
                assert(t.depth(i) <= depth);
            }
        }
        assert forall|i: int, j: int| 0 <= i < j < after.reached() implies #[trigger] after.id(i)
            != #[trigger] after.id(j) by {
            assert(after.steps[j - 1].memory_id == after.id(j));
            if i > 0 {
                assert(after.steps[i - 1].memory_id == after.id(i));
            }
        }
        assert forall|i: int| 0 <= i < after.steps.len() implies (
        #[trigger] after.steps[i]).link.dst == after.steps[i].memory_id by {
            if i < t.steps.len() {
                assert(after.steps[i] == t.steps[i]);
            }
        }
    }
}

/// If the links it is fed leave the memory that it waits for, each step of a
/// traversal follows a link from a memory that was reached one link earlier.
pub proof fn law_steps_follow_links(t: TraversalModel, links: Seq<LinkModel>)
    requires
        t.sound(),
        t.anchored(),
        forall|k: int|
            0 <= k < links.len() ==> waiting(t) == Some((#[trigger] links[k]).src),
    ensures
        fed(t, links).anchored(),
{
    if waiting(t) is Some {
        let e = t.expanded as int;
        let depth = (t.depth(e) + 1) as usize;
        let after = fed(t, links);
        discover_extends(t.from, t.steps, links, depth);
        assert forall|i: int| 0 <= i < t.reached() implies after.id(i) == #[trigger] t.id(i)
            && after.depth(i) == t.depth(i) by {
            if i > 0 {
                assert(after.steps[i - 1] == t.steps[i - 1]);
            }
        }
        assert forall|i: int| 0 <= i < after.steps.len() implies exists|j: int|
            0 <= j <= i && #[trigger] after.id(j) == (#[trigger] after.steps[i]).link.src
                && after.depth(j) + 1 == after.steps[i].depth by {
            if i < t.steps.len() {
                assert(after.steps[i] == t.steps[i]);
                let j = choose|j: int|
                    0 <= j <= i && #[trigger] t.id(j) == t.steps[i].link.src && t.depth(j) + 1
                        == t.steps[i].depth;
                assert(after.id(j) == t.id(j));
            } else {
                let step = after.steps[i];
                let k = choose|k: int| 0 <= k < links.len() && links[k] == step.link;
                assert(links[k].src == t.id(e));
                assert(after.id(e) == t.id(e));
            }
        }
    }
}

/// Feeding a traversal leaves the steps it has taken as they are, and each step
/// that it adds has one of the links that were fed, to its memory.
pub proof fn law_feeding_adds_fed_links(t: TraversalModel, links: Seq<LinkModel>)
    ensures
        t.steps.is_prefix_of(fed(t, links).steps),
        forall|i: int|
            t.steps.len() <= i < fed(t, links).steps.len() ==> links.contains(
                (#[trigger] fed(t, links).steps[i]).link,
            ) && fed(t, links).steps[i].link.dst == fed(t, links).steps[i].memory_id
                && fed(t, links).steps[i].depth == t.depth(t.expanded as int) + 1,
{
    if waiting(t) is Some {
        let depth = (t.depth(t.expanded as int) + 1) as usize;
        discover_extends(t.from, t.steps, links, depth);
    }
}

/// A traversal that is fed, each time, the links given for the memory it waits
/// for, takes no step but along one of them: each step's link was given for a
/// memory reached one link earlier.
pub proof fn law_steps_are_given_links(
    t: TraversalModel,
    out: spec_fn(Seq<char>) -> Seq<LinkModel>,
)
    requires
        t.sound(),
        t.follows(out),
        waiting(t) is Some,
    ensures
        fed(t, out(waiting(t)->0)).follows(out),
{
    let e = t.expanded as int;
    let links = out(t.id(e));
    let depth = (t.depth(e) + 1) as usize;
    let after = fed(t, links);
    discover_extends(t.from, t.steps, links, depth);
    assert forall|i: int| 0 <= i < t.reached() implies after.id(i) == #[trigger] t.id(i)
        && after.depth(i) == t.depth(i) by {
        if i > 0 {
            assert(after.steps[i - 1] == t.steps[i - 1]);
        }
    }
    assert forall|i: int| 0 <= i < after.steps.len() implies exists|j: int|
        0 <= j <= i && j < after.expanded && out(#[trigger] after.id(j)).contains(
            (#[trigger] after.steps[i]).link,
        ) && after.depth(j) + 1 == after.steps[i].depth by {
        if i < t.steps.len() {
            assert(after.steps[i] == t.steps[i]);
            let j = choose|j: int|
                0 <= j <= i && j < t.expanded && out(#[trigger] t.id(j)).contains(
                    t.steps[i].link,
                ) && t.depth(j) + 1 == t.steps[i].depth;
            assert(after.id(j) == t.id(j));
        } else {
            assert(after.id(e) == t.id(e));
            assert(out(after.id(e)).contains(after.steps[i].link));
        }
    }
}

/// A traversal that is fed, each time, the links that leave the memory it waits
/// for, leaves nothing unexplored behind it.
pub proof fn law_traversal_explores(
    t: TraversalModel,
    out: spec_fn(Seq<char>) -> Seq<LinkModel>,
)
    requires
        t.sound(),
        t.explored(out),
        waiting(t) is Some,
    ensures
        fed(t, out(waiting(t)->0)).explored(out),
{
    let e = t.expanded as int;
    let links = out(t.id(e));
    let depth = (t.depth(e) + 1) as usize;
    let after = fed(t, links);
    law_traversal_stays_sound(t, links);
    discover_extends(t.from, t.steps, links, depth);
    assert forall|i: int| 0 <= i < t.reached() implies after.id(i) == #[trigger] t.id(i)
        && after.depth(i) == t.depth(i) by {
        if i > 0 {
            assert(after.steps[i - 1] == t.steps[i - 1]);
        }
    }
    assert forall|i: int, k: int|
        0 <= i < after.expanded && 0 <= k < out(after.id(i)).len() implies after.reaches(
        (#[trigger] out(after.id(i))[k]).dst,
        after.depth(i) + 1,
    ) by {
        let dst = out(after.id(i))[k].dst;
        assert(after.id(i) == t.id(i));
        if i < e {
            assert(t.reaches(out(t.id(i))[k].dst, t.depth(i) + 1));
            let j = choose|j: int|
                0 <= j < t.reached() && #[trigger] t.id(j) == dst && t.depth(j) <= t.depth(i) + 1;
            assert(after.id(j) == dst);
        } else {
            assert(is_known(t.from, after.steps, links[k].dst));
            if dst == t.from {
                assert(after.id(0) == dst);
            } else {
                let j = choose|j: int|
                    0 <= j < after.steps.len() && (#[trigger] after.steps[j]).memory_id == dst;
                assert(after.id(j + 1) == dst);
                assert(after.depth(j + 1) <= after.depth(after.expanded - 1) + 1);
            }
        }
    }
}

/// Whether a link out of one memory leads to another.
pub open spec fn leads(
    out: spec_fn(Seq<char>) -> Seq<LinkModel>,
    a: Seq<char>,
    b: Seq<char>,
) -> bool {
    exists|k: int| 0 <= k < out(a).len() && (#[trigger] out(a)[k]).dst == b
}

/// Whether a sequence of memories is a path: a link out of each leads to the next.
pub open spec fn is_path(path: Seq<Seq<char>>, out: spec_fn(Seq<char>) -> Seq<LinkModel>) -> bool {
    forall|n: int| 0 <= n < path.len() - 1 ==> leads(out, #[trigger] path[n], path[n + 1])
}

/// A traversal that left nothing unexplored has reached, when it is over,
/// everything within its limit, and by no longer a way than any path there.
pub proof fn law_traversal_is_complete(
    t: TraversalModel,
    out: spec_fn(Seq<char>) -> Seq<LinkModel>,
    path: Seq<Seq<char>>,
)
    requires
        t.sound(),
        t.explored(out),
        waiting(t) is None,
        is_path(path, out),
        0 < path.len() <= t.max_depth + 1,
        path[0] == t.from,
    ensures
        t.reaches(path.last(), path.len() - 1),
    decreases path.len(),
{
    if path.len() == 1 {
        assert(t.id(0) == path.last());
    } else {
        let way = path.drop_last();
        let n = way.len() - 1;
        assert(is_path(way, out)) by {
            assert forall|m: int| 0 <= m < way.len() - 1 implies leads(
                out,
                #[trigger] way[m],
                way[m + 1],
            ) by {
                assert(leads(out, path[m], path[m + 1]));
            }
        }
        law_traversal_is_complete(t, out, way);
        let i = choose|i: int|
            0 <= i < t.reached() && #[trigger] t.id(i) == way.last() && t.depth(i) <= n;
        if i >= t.expanded {
            if i > t.expanded {
                assert(t.depth(t.expanded as int) <= t.depth(i));
            }
        }
        assert(path[n] == t.id(i));
        assert(leads(out, path[n], path[n + 1]));
        let k = choose|k: int|
            0 <= k < out(path[n]).len() && (#[trigger] out(path[n])[k]).dst == path[n + 1];
        assert(t.reaches(out(t.id(i))[k].dst, t.depth(i) + 1));
        let j = choose|j: int|
            0 <= j < t.reached() && #[trigger] t.id(j) == path[n + 1] && t.depth(j) <= t.depth(i)
                + 1;
        assert(t.id(j) == path.last());
    }
}

/// A traversal under way.
#[derive(Debug)]
pub struct Traversal {
    from: MemoryId,
    steps: Vec<TraversalStep>,
    /// Whether the start has been followed.
    started: bool,
    /// How many steps have been followed.
    followed: usize,
    max_depth: usize,
}

impl View for Traversal {
    type V = TraversalModel;

    closed spec fn view(&self) -> TraversalModel {
        TraversalModel {
            from: self.from@,
            steps: views(self.steps@),
            expanded: if self.started {
                (self.followed + 1) as nat
            } else {
                0
            },
            max_depth: self.max_depth,
        }
    }
}

impl Traversal {
    #[verifier::type_invariant]
    spec fn valid(self) -> bool {
        self@.sound() && (!self.started ==> self.followed == 0)
    }

    /// Begins a traversal, which goes no further than `max_depth`, held between 1
    /// and 32.
    pub fn new(from: &MemoryId, max_depth: usize) -> (r: Traversal)
        ensures
            r@ == begun(from@, max_depth),
    {
        let limit: usize = if max_depth < 1 {
            1
        } else if max_depth > MAX_TRAVERSAL_DEPTH {
            MAX_TRAVERSAL_DEPTH
        } else {
            max_depth
        };
        let steps: Vec<TraversalStep> = Vec::new();
        assert(views(steps@) =~= Seq::<StepModel>::empty());
        Traversal { from: from.clone(), steps, started: false, followed: 0, max_depth: limit }
    }

    /// The memory whose outgoing links are needed next; none once it is over.
    pub fn next_memory(&self) -> (r: Option<MemoryId>)
        ensures
            opt(r) == waiting(self@),
    {
        proof {
            use_type_invariant(self);
        }
        if !self.started {
            return Some(self.from.clone());
        }
        if self.followed < self.steps.len() {
            let step = &self.steps[self.followed];
            assert(views(self.steps@)[self.followed as int] == step@);
            if step.depth < self.max_depth {
                return Some(step.memory_id.clone());
            }
        }
        None
    }

    /// Takes the links that leave the memory it waits for. A traversal that is
    /// over ignores them.
    pub fn feed(&mut self, links: Vec<MemoryLink>)
        ensures
            final(self)@ == fed(old(self)@, views(links@)),
    {
        proof {
            use_type_invariant(&*self);
        }
        let started = self.started;
        let followed: usize = self.followed;
        let mut depth: usize = 0;
        if started {
            if followed >= self.steps.len() {
                return ;
            }
            depth = self.steps[followed].depth;
            assert(views(self.steps@)[followed as int].depth == depth);
            if depth >= self.max_depth {
                return ;
            }
        }
        let ghost before = self@;
        let ghost all = views(links@);
        proof {
            assert(before.depth(before.expanded as int) == depth);
            law_traversal_stays_sound(before, all);
        }
        let next: usize = depth + 1;
        let mut whole = Traversal::new(&self.from, self.max_depth);
        std::mem::swap(&mut whole, self);
        let Traversal { from, steps, started, followed, max_depth } = whole;
        let steps = follow(&from, steps, links, next);
        *self = Traversal {
            from,
            steps,
            started: true,
            followed: if started {
                followed + 1
            } else {
                0
            },
            max_depth,
        };
    }

    /// The steps taken, in order.
    pub fn into_steps(self) -> (r: Vec<TraversalStep>)
        ensures
            views(r@) == self@.steps,
            self@.sound(),
    {
        proof {
            use_type_invariant(&self);
        }
        self.steps
    }
}

/// Whether a memory is the start, or that of a step.
fn knows(from: &MemoryId, steps: &Vec<TraversalStep>, id: &MemoryId) -> (r: bool)
    ensures
        r == is_known(from@, views(steps@), id@),
{
    if same_text(id.0.as_str(), from.0.as_str()) {
        return true;
    }
    let ghost all = views(steps@);
    for n in 0..steps.len()
        invariant
            all == views(steps@),
            id@ != from@,
            forall|i: int| 0 <= i < n ==> (#[trigger] all[i]).memory_id != id@,
    {
        assert(all[n as int] == steps[n as int]@);
        if same_text(steps[n].memory_id.0.as_str(), id.0.as_str()) {
            return true;
        }
    }
    false
}

/// Follows links in turn, adding a step for each memory not yet known.
fn follow(
    from: &MemoryId,
    steps: Vec<TraversalStep>,
    links: Vec<MemoryLink>,
    depth: usize,
) -> (r: Vec<TraversalStep>)
    ensures
        views(r@) == discover(from@, views(steps@), views(links@), depth),
{
    let ghost all = views(links@);
    let ghost first = views(steps@);
    let mut out = steps;
    assert(all.take(0) =~= Seq::<LinkModel>::empty());
    for link in it: links
        invariant
            it.seq() == links@,
            all == views(links@),
            views(out@) == discover(from@, first, all.take(it.index()), depth),
    {
        let ghost i = it.index();
        let ghost before = views(out@);
        proof {
            assert(all[i] == link@);
            assert(all.take(i + 1).drop_last() =~= all.take(i));
            assert(all.take(i + 1).last() == link@);
        }
        if !knows(from, &out, &link.dst) {
            let step = TraversalStep { memory_id: link.dst.clone(), depth, link };
            let ghost model = step@;
            out.push(step);
            assert(views(out@) =~= before.push(model));
        }
    }
    assert(all.take(all.len() as int) =~= all);
    out
}

/// Begins a traversal within a tenant, which must be named.
pub fn traverse(tenant_id: &str, from: &MemoryId, max_depth: usize) -> (r: Result<
    Traversal,
    String,
>)
    ensures
        match r {
            Ok(t) => !blank(tenant_id@) && t@ == begun(from@, max_depth),
            Err(e) => blank(tenant_id@) && e@ == "tenant_id is required"@,
        },
{
    match require_tenant_id(tenant_id) {
        Ok(_) => {},
        Err(e) => return Err(e),
    }
    Ok(Traversal::new(from, max_depth))
}

/// What a traversal within a tenant, along links of one relationship or of any,
/// asks for next: the links that leave the memory it waits for; nothing once it is
/// over.
pub open spec fn asked(
    tenant_id: Seq<char>,
    t: TraversalModel,
    rel: Option<RelationshipType>,
) -> Option<StatementModel> {
    match waiting(t) {
        Some(memory) => Some(links_from(tenant_id, memory, rel)),
        None => None,
    }
}

/// The statement for what a traversal within a tenant, which must be named, asks
/// for next.
pub fn next_statement(tenant_id: &str, traversal: &Traversal, rel: Option<RelationshipType>) -> (r:
    Result<Option<Statement>, String>)
    ensures
        match r {
            Ok(s) => !blank(tenant_id@) && opt(s) == asked(tenant_id@, traversal@, rel),
            Err(e) => blank(tenant_id@) && e@ == "tenant_id is required"@,
        },
{
    match require_tenant_id(tenant_id) {
        Ok(_) => {},
        Err(e) => return Err(e),
    }
    match traversal.next_memory() {
        Some(memory) => match list_links_from_statement(tenant_id, &memory, rel) {
            Ok(s) => Ok(Some(s)),
            Err(e) => Err(e),
        },
        None => Ok(None),
    }
}

/// A traversal goes at least one link and at most 32, and within these bounds as far
/// as it is asked to; it begins with nothing but its start, whose links it asks for
/// first.
pub proof fn law_traversal_begins_at_its_start(from: Seq<char>, max_depth: usize)
    ensures
        1 <= max_depth <= 32 ==> begun(from, max_depth).max_depth == max_depth,
        max_depth == 0 ==> begun(from, max_depth).max_depth == 1,
        max_depth > 32 ==> begun(from, max_depth).max_depth == 32,
        begun(from, max_depth).steps.len() == 0,
        waiting(begun(from, max_depth)) == Some(from),
{
}

/// What a traversal waits for is the first memory that it reached and has not
/// followed, unless that lies at the limit.
pub proof fn law_traversal_goes_on_in_order(t: TraversalModel)
    requires
        t.sound(),
    ensures
        waiting(t) matches Some(memory) ==> memory == t.id(t.expanded as int) && t.depth(
            t.expanded as int,
        ) < t.max_depth,
        waiting(t) is None ==> forall|i: int|
            t.expanded <= i < t.reached() ==> #[trigger] t.depth(i) >= t.max_depth,
        forall|links: Seq<LinkModel>|
            waiting(t) is None ==> #[trigger] fed(t, links) == t,
{
    if waiting(t) is None && t.expanded < t.reached() {
        assert forall|i: int| t.expanded <= i < t.reached() implies #[trigger] t.depth(i)
            >= t.max_depth by {
            if i > t.expanded {
                assert(t.depth(t.expanded as int) <= t.depth(i));
            }
        }
    }
}

} // verus!
