use vstd::prelude::*;

verus! {

/// The objects a context owns, in the order they are created.
#[derive(Clone, Copy, Debug, PartialEq, Eq, Structural)]
pub enum ResourceKind {
    Instance,
    DebugMessenger,
    Surface,
    Device,
    Swapchain,
    ImageView,
    RenderPass,
    PipelineLayout,
    Pipeline,
    Framebuffer,
}

/// One created object: its kind and the raw handle the driver gave it.
#[derive(Clone, Copy, Debug, PartialEq, Eq, Structural)]
pub struct Resource {
    pub kind: ResourceKind,
    pub handle: u64,
}

#[derive(Clone, Copy, Debug, PartialEq, Eq, Structural)]
pub enum LifecycleError {
    /// The resource's prerequisites have not all been created, or its stage
    /// is already past.
    OutOfOrder,
}

/// Position of a kind in the creation chain.
pub open spec fn rank(k: ResourceKind) -> int {
    match k {
        ResourceKind::Instance => 0,
        ResourceKind::DebugMessenger => 1,
        ResourceKind::Surface => 2,
        ResourceKind::Device => 3,
        ResourceKind::Swapchain => 4,
        ResourceKind::ImageView => 5,
        ResourceKind::RenderPass => 6,
        ResourceKind::PipelineLayout => 7,
        ResourceKind::Pipeline => 8,
        ResourceKind::Framebuffer => 9,
    }
}

/// Kinds created once per swapchain image.
pub open spec fn repeatable(k: ResourceKind) -> bool {
    k == ResourceKind::ImageView || k == ResourceKind::Framebuffer
}

/// `next` may be created right after `prev`: another of a per-image kind,
/// the next stage, or the surface straight after the instance when no
/// debug messenger is wanted.
pub open spec fn may_follow(prev: ResourceKind, next: ResourceKind) -> bool {
    ||| (next == prev && repeatable(prev))
    ||| rank(next) == rank(prev) + 1
    ||| (prev == ResourceKind::Instance && next == ResourceKind::Surface)
}

pub open spec fn count_kind(s: Seq<Resource>, k: ResourceKind) -> nat
    decreases s.len(),
{
    if s.len() == 0 {
        0
    } else {
        count_kind(s.drop_last(), k) + if s.last().kind == k {
            1nat
        } else {
            0nat
        }
    }
}

/// The creation log starts with the instance and each entry may follow the one before.
pub open spec fn ordered_log(s: Seq<Resource>) -> bool {
    &&& s.len() > 0 ==> s[0].kind == ResourceKind::Instance
    &&& forall|i: int| 0 < i < s.len() ==> may_follow(#[trigger] s[i - 1].kind, s[i].kind)
}

/// An ordered log with no more framebuffers than image views.
pub open spec fn wf_log(s: Seq<Resource>) -> bool {
    &&& ordered_log(s)
    &&& count_kind(s, ResourceKind::Framebuffer) <= count_kind(s, ResourceKind::ImageView)
}

/// Whether a resource of kind `k` may be created after those in `s`.
pub open spec fn may_record(s: Seq<Resource>, k: ResourceKind) -> bool {
    if s.len() == 0 {
        k == ResourceKind::Instance
    } else {
        &&& may_follow(s.last().kind, k)
        &&& k == ResourceKind::Framebuffer ==> count_kind(s, ResourceKind::Framebuffer)
            < count_kind(s, ResourceKind::ImageView)
    }
}

/// Every stage is built and each image view has its framebuffer.
pub open spec fn complete_log(s: Seq<Resource>) -> bool {
    &&& s.len() > 0
    &&& s.last().kind == ResourceKind::Framebuffer
    &&& count_kind(s, ResourceKind::Framebuffer) == count_kind(s, ResourceKind::ImageView)
}

/// Position of a kind in the release chain, counted from the last released:
/// the creation rank, except that the debug messenger is released between
/// the device and the surface.
pub open spec fn release_rank(k: ResourceKind) -> int {
    match k {
        ResourceKind::Instance => 0,
        ResourceKind::Surface => 1,
        ResourceKind::DebugMessenger => 2,
        ResourceKind::Device => 3,
        ResourceKind::Swapchain => 4,
        ResourceKind::ImageView => 5,
        ResourceKind::RenderPass => 6,
        ResourceKind::PipelineLayout => 7,
        ResourceKind::Pipeline => 8,
        ResourceKind::Framebuffer => 9,
    }
}

/// The log holds a debug messenger and a surface after it.
pub open spec fn swaps_messenger(s: Seq<Resource>) -> bool {
    s.len() >= 3 && s[1].kind == ResourceKind::DebugMessenger
}

/// Where entry `i` of the release log stands in the creation log.
pub open spec fn release_source(s: Seq<Resource>, i: int) -> int {
    if swaps_messenger(s) && i == 1 {
        2
    } else if swaps_messenger(s) && i == 2 {
        1
    } else {
        i
    }
}

/// The creation log with the debug messenger moved after the surface.
pub open spec fn release_log(s: Seq<Resource>) -> Seq<Resource> {
    Seq::new(s.len(), |i: int| s[release_source(s, i)])
}

/// The order resources are destroyed in: the release log, newest first.
pub open spec fn release_order(s: Seq<Resource>) -> Seq<Resource> {
    release_log(s).reverse()
}

pub proof fn lemma_count_push(s: Seq<Resource>, r: Resource, k: ResourceKind)
    ensures
        count_kind(s.push(r), k) == count_kind(s, k) + if r.kind == k {
            1nat
        } else {
            0nat
        },
{
    assert(s.push(r).drop_last() =~= s);
}

/// The graphics context's resources, held as the log of their creation.
pub struct Context {
    created: Vec<Resource>,
}

impl View for Context {
    type V = Seq<Resource>;

    closed spec fn view(&self) -> Seq<Resource> {
        self.created@
    }
}

pub fn rank_of(k: ResourceKind) -> (r: u8)
    ensures
        r == rank(k),
{
    match k {
        ResourceKind::Instance => 0,
        ResourceKind::DebugMessenger => 1,
        ResourceKind::Surface => 2,
        ResourceKind::Device => 3,
        ResourceKind::Swapchain => 4,
        ResourceKind::ImageView => 5,
        ResourceKind::RenderPass => 6,
        ResourceKind::PipelineLayout => 7,
        ResourceKind::Pipeline => 8,
        ResourceKind::Framebuffer => 9,
    }
}

pub fn can_follow(prev: ResourceKind, next: ResourceKind) -> (r: bool)
    ensures
        r == may_follow(prev, next),
{
    let per_image = prev == ResourceKind::ImageView || prev == ResourceKind::Framebuffer;
    (next == prev && per_image) || rank_of(next) as u16 == rank_of(prev) as u16 + 1 || (prev
        == ResourceKind::Instance && next == ResourceKind::Surface)
}

impl Context {
    pub closed spec fn wf(&self) -> bool {
        wf_log(self@)
    }

    /// A context that owns nothing yet.
    pub fn new() -> (r: Context)
        ensures
            r.wf(),
            r@ == Seq::<Resource>::empty(),
    {
        Context { created: Vec::new() }
    }

    pub fn len(&self) -> (r: usize)
        ensures
            r == self@.len(),
    {
        self.created.len()
    }

    pub fn count_of(&self, k: ResourceKind) -> (r: usize)
        ensures
            r == count_kind(self@, k),
    {
        let mut n: usize = 0;
        let mut i: usize = 0;
        while i < self.created.len()
            invariant
                0 <= i <= self.created@.len(),
                n <= i,
                n == count_kind(self.created@.take(i as int), k),
            decreases self.created@.len() - i,
        {
            assert(self.created@.take(i + 1).drop_last() =~= self.created@.take(i as int));
            if self.created[i].kind == k {
                n += 1;
            }
            i += 1;
        }
        assert(self.created@.take(i as int) =~= self.created@);
        n
    }

    pub fn can_record(&self, k: ResourceKind) -> (r: bool)
        ensures
            r == may_record(self@, k),
    {
        if self.created.len() == 0 {
            return k == ResourceKind::Instance;
        }
        let last = self.created[self.created.len() - 1].kind;
        if !can_follow(last, k) {
            return false;
        }
        if k == ResourceKind::Framebuffer {
            self.count_of(ResourceKind::Framebuffer) < self.count_of(ResourceKind::ImageView)
        } else {
            true
        }
    }

    /// Takes ownership of a newly created resource; refuses one whose
    /// prerequisites are not all in place.
    pub fn record(&mut self, r: Resource) -> (res: Result<(), LifecycleError>)
        requires
            old(self).wf(),
        ensures
            final(self).wf(),
            res is Ok <==> may_record(old(self)@, r.kind),
            res is Ok ==> final(self)@ == old(self)@.push(r),
            res is Err ==> final(self)@ == old(self)@ && res == Err::<(), LifecycleError>(
                LifecycleError::OutOfOrder,
            ),
    {
        if !self.can_record(r.kind) {
            return Err(LifecycleError::OutOfOrder);
        }
        let ghost s = self@;
        self.created.push(r);
        proof {
            let t = s.push(r);
            assert(self@ == t);
            lemma_count_push(s, r, ResourceKind::Framebuffer);
            lemma_count_push(s, r, ResourceKind::ImageView);
            assert forall|i: int| 0 < i < t.len() implies may_follow(
                #[trigger] t[i - 1].kind,
                t[i].kind,
            ) by {
                if i < s.len() {
                    assert(t[i - 1] == s[i - 1] && t[i] == s[i]);
                }
            }
        }
        Ok(())
    }

    /// Every stage is built and each image view has its framebuffer.
    pub fn is_complete(&self) -> (r: bool)
        ensures
            r == complete_log(self@),
    {
        self.created.len() > 0 && self.created[self.created.len() - 1].kind
            == ResourceKind::Framebuffer && self.count_of(ResourceKind::Framebuffer)
            == self.count_of(ResourceKind::ImageView)
    }

    /// Gives up the context: the resources to destroy, newest first, with
    /// the debug messenger destroyed before the surface.
    pub fn teardown(self) -> (r: Vec<Resource>)
        ensures
            r@ == release_order(self@),
    {
        let mut r: Vec<Resource> = Vec::new();
        let n = self.created.len();
        let swaps = n >= 3 && self.created[1].kind == ResourceKind::DebugMessenger;
        let mut i: usize = n;
        while i > 0
            invariant
                n == self.created@.len(),
                swaps == swaps_messenger(self.created@),
                0 <= i <= n,
                r@.len() == n - i,
                forall|j: int|
                    0 <= j < n - i ==> r@[j] == self.created@[release_source(
                        self.created@,
                        n - 1 - j,
                    )],
            decreases i,
        {
            i -= 1;
            let k: usize = if swaps && i == 1 {
                2
            } else if swaps && i == 2 {
                1
            } else {
                i
            };
            r.push(self.created[k]);
        }
        assert(r@ =~= release_order(self@));
        r
    }
}

proof fn lemma_ordered_ranks(s: Seq<Resource>)
    requires
        ordered_log(s),
    ensures
        forall|i: int, j: int|
            0 <= i <= j < s.len() ==> rank(#[trigger] s[i].kind) <= rank(#[trigger] s[j].kind),
        forall|i: int, j: int|
            0 <= i < j < s.len() && (#[trigger] s[i]).kind == (#[trigger] s[j]).kind ==> repeatable(
                s[i].kind,
            ),
    decreases s.len(),
{
    if s.len() > 1 {
        let p = s.drop_last();
        assert forall|i: int| 0 < i < p.len() implies may_follow(#[trigger] p[i - 1].kind, p[i].kind) by {
            assert(p[i - 1] == s[i - 1] && p[i] == s[i]);
        }
        lemma_ordered_ranks(p);
        let n = s.len() - 1;
        assert(may_follow(s[n - 1].kind, s[n].kind));
        assert forall|i: int, j: int| 0 <= i <= j < s.len() implies rank(#[trigger] s[i].kind) <= rank(
            #[trigger] s[j].kind,
        ) by {
            if j < n {
                assert(p[i] == s[i] && p[j] == s[j]);
            } else if i < n {
                assert(p[i] == s[i] && p[n - 1] == s[n - 1]);
            }
        }
        assert forall|i: int, j: int|
            0 <= i < j < s.len() && (#[trigger] s[i]).kind == (#[trigger] s[j]).kind implies repeatable(
            s[i].kind,
        ) by {
            if j < n {
                assert(p[i] == s[i] && p[j] == s[j]);
            } else {
                assert(p[i] == s[i] && p[n - 1] == s[n - 1]);
                assert(rank(s[i].kind) <= rank(s[n - 1].kind));
            }
        }
    }
}

/// Some resource in `s` is of kind `k`.
pub open spec fn has_kind(s: Seq<Resource>, k: ResourceKind) -> bool {
    exists|i: int| 0 <= i < s.len() && (#[trigger] s[i]).kind == k
}

spec fn rank_occurs(s: Seq<Resource>, r: int) -> bool {
    exists|i: int| 0 <= i < s.len() && rank(#[trigger] s[i].kind) == r
}

proof fn lemma_ranks_covered(s: Seq<Resource>)
    requires
        ordered_log(s),
        s.len() > 0,
    ensures
        forall|r: int| 0 <= r <= rank(s.last().kind) && r != 1 ==> #[trigger] rank_occurs(s, r),
    decreases s.len(),
{
    if s.len() > 1 {
        let p = s.drop_last();
        assert forall|i: int| 0 < i < p.len() implies may_follow(#[trigger] p[i - 1].kind, p[i].kind) by {
            assert(p[i - 1] == s[i - 1] && p[i] == s[i]);
        }
        lemma_ranks_covered(p);
        let n = s.len() - 1;
        assert(may_follow(s[n - 1].kind, s[n].kind));
        assert forall|r: int| 0 <= r <= rank(s.last().kind) && r != 1 implies #[trigger] rank_occurs(
            s,
            r,
        ) by {
            if r <= rank(p.last().kind) {
                assert(rank_occurs(p, r));
                let i = choose|i: int| 0 <= i < p.len() && rank(#[trigger] p[i].kind) == r;
                assert(s[i] == p[i]);
            } else {
                assert(rank(s[n].kind) == r);
            }
        }
    }
}

proof fn lemma_messenger_position(s: Seq<Resource>)
    requires
        ordered_log(s),
    ensures
        forall|i: int| 0 <= i < s.len() && (#[trigger] s[i]).kind == ResourceKind::DebugMessenger ==> i == 1,
        forall|i: int| 0 <= i < s.len() && (#[trigger] s[i]).kind == ResourceKind::Instance ==> i == 0,
{
    lemma_ordered_ranks(s);
    assert forall|i: int| 0 <= i < s.len() && (#[trigger] s[i]).kind == ResourceKind::Instance implies i == 0 by {
        if i > 0 {
            assert(s[0].kind == s[i].kind);
        }
    }
    assert forall|i: int| 0 <= i < s.len() && (#[trigger] s[i]).kind == ResourceKind::DebugMessenger implies i == 1 by {
        assert(i != 0);
        assert(may_follow(s[i - 1].kind, s[i].kind));
        assert(s[i - 1].kind == ResourceKind::Instance);
    }
}

/// Along the release log, release ranks never decrease, and each entry
/// comes from its own place in the creation log.
proof fn lemma_release_log(s: Seq<Resource>)
    requires
        ordered_log(s),
    ensures
        release_log(s).len() == s.len(),
        forall|i: int| 0 <= i < s.len() ==> 0 <= #[trigger] release_source(s, i) < s.len(),
        forall|i: int, j: int|
            0 <= i < s.len() && 0 <= j < s.len() && i != j ==> #[trigger] release_source(s, i)
                != #[trigger] release_source(s, j),
        forall|i: int, j: int|
            0 <= i <= j < s.len() ==> release_rank(#[trigger] release_log(s)[i].kind) <= release_rank(
                #[trigger] release_log(s)[j].kind,
            ),
{
    let w = release_log(s);
    lemma_ordered_ranks(s);
    lemma_messenger_position(s);
    if swaps_messenger(s) {
        let k: int = 2;
        assert(may_follow(s[k - 1].kind, s[k].kind));
        assert(s[2].kind == ResourceKind::Surface);
    }
    assert forall|i: int, j: int| 0 <= i <= j < s.len() implies release_rank(#[trigger] w[i].kind)
        <= release_rank(#[trigger] w[j].kind) by {
        let a = release_source(s, i);
        let b = release_source(s, j);
        assert(w[i] == s[a] && w[j] == s[b]);
        if swaps_messenger(s) {
            if i >= 3 {
                assert(rank(s[2].kind) <= rank(s[i].kind));
                assert(s[i].kind != ResourceKind::Surface);
                assert(rank(s[i].kind) <= rank(s[j].kind));
            } else if j >= 3 {
                assert(rank(s[2].kind) <= rank(s[j].kind));
                assert(s[j].kind != ResourceKind::Surface);
            }
        } else {
            assert(rank(s[i].kind) <= rank(s[j].kind));
            if s[j].kind == ResourceKind::Surface && s[i].kind != ResourceKind::Surface {
                assert(s[i].kind != ResourceKind::DebugMessenger) by {
                    if s[i].kind == ResourceKind::DebugMessenger {
                        assert(i == 1);
                        assert(j >= 2);
                    }
                }
            }
            if s[i].kind == ResourceKind::DebugMessenger && i < j {
                assert(i == 1);
                assert(j >= 3 || s.len() < 3) by {
                    if j == 2 {
                        assert(swaps_messenger(s));
                    }
                }
            }
        }
    }
}

/// Tearing a context down destroys newer stages before older ones, with the
/// debug messenger destroyed after the device and before the surface: along
/// the teardown no kind comes after a kind of higher release rank, only
/// image views and framebuffers occur more than once, and the instance goes
/// last. A complete context destroys a resource of every kind but the
/// optional debug messenger, beginning with a framebuffer.
pub proof fn lemma_teardown_order(c: Context)
    requires
        c.wf(),
    ensures
        forall|i: int, j: int|
            0 <= i < j < release_order(c@).len() ==> release_rank(
                #[trigger] release_order(c@)[i].kind,
            ) >= release_rank(#[trigger] release_order(c@)[j].kind),
        forall|i: int, j: int|
            0 <= i < j < release_order(c@).len() && (#[trigger] release_order(c@)[i]).kind == (
            #[trigger] release_order(c@)[j]).kind ==> repeatable(release_order(c@)[i].kind),
        c@.len() > 0 ==> release_order(c@).last().kind == ResourceKind::Instance,
        complete_log(c@) ==> release_order(c@)[0].kind == ResourceKind::Framebuffer,
        complete_log(c@) ==> forall|k: ResourceKind|
            k != ResourceKind::DebugMessenger ==> #[trigger] has_kind(release_order(c@), k),
{
    let s = c@;
    let w = release_log(s);
    let t = release_order(s);
    let n = s.len();
    lemma_ordered_ranks(s);
    lemma_release_log(s);
    assert forall|i: int, j: int| 0 <= i < j < t.len() implies release_rank(#[trigger] t[i].kind)
        >= release_rank(#[trigger] t[j].kind) by {
        assert(t[i] == w[n - 1 - i] && t[j] == w[n - 1 - j]);
    }
    assert forall|i: int, j: int|
        0 <= i < j < t.len() && (#[trigger] t[i]).kind == (#[trigger] t[j]).kind implies repeatable(
        t[i].kind,
    ) by {
        let a = release_source(s, n - 1 - i);
        let b = release_source(s, n - 1 - j);
        assert(t[i] == s[a] && t[j] == s[b]);
        assert(a != b);
        if a < b {
            assert(s[a].kind == s[b].kind);
        } else {
            assert(s[b].kind == s[a].kind);
        }
    }
    if n > 0 {
        assert(t.last() == w[0]);
        assert(w[0] == s[0]);
    }
    if complete_log(s) {
        assert(t[0] == w[n - 1]);
        assert(release_source(s, n - 1) == n - 1) by {
            if swaps_messenger(s) {
                let k: int = 2;
                assert(may_follow(s[k - 1].kind, s[k].kind));
            }
        }
        lemma_ranks_covered(s);
        assert forall|k: ResourceKind| k != ResourceKind::DebugMessenger implies #[trigger] has_kind(
            t,
            k,
        ) by {
            let r = rank(k);
            assert(0 <= r <= rank(s.last().kind) && r != 1);
            assert(rank_occurs(s, r));
            let i = choose|i: int| 0 <= i < s.len() && rank(#[trigger] s[i].kind) == r;
            let m = release_source(s, i);
            assert(w[m] == s[release_source(s, m)]);
            assert(release_source(s, m) == i);
            assert(t[n - 1 - m] == w[m]);
        }
    }
}

/// Teardown destroys exactly the resources that were created, each entry of
/// the creation log at one place of its own; a context left partly built
/// destroys nothing it never made.
pub proof fn lemma_teardown_partial(c: Context)
    requires
        c.wf(),
    ensures
        release_order(c@).len() == c@.len(),
        forall|r: Resource| release_order(c@).contains(r) <==> c@.contains(r),
        forall|i: int|
            0 <= i < c@.len() ==> #[trigger] release_order(c@)[c@.len() - 1 - i] == c@[release_source(
                c@,
                i,
            )],
        forall|i: int, j: int|
            0 <= i < c@.len() && 0 <= j < c@.len() && i != j ==> #[trigger] release_source(c@, i)
                != #[trigger] release_source(c@, j),
{
    let s = c@;
    let w = release_log(s);
    let t = release_order(s);
    let n = s.len();
    lemma_release_log(s);
    assert forall|i: int| 0 <= i < n implies #[trigger] t[n - 1 - i] == s[release_source(s, i)] by {
        assert(t[n - 1 - i] == w[i]);
    }
    assert forall|r: Resource| t.contains(r) <==> s.contains(r) by {
        if t.contains(r) {
            let j = choose|j: int| 0 <= j < t.len() && t[j] == r;
            assert(t[j] == w[n - 1 - j]);
            assert(s[release_source(s, n - 1 - j)] == r);
        }
        if s.contains(r) {
            let i = choose|i: int| 0 <= i < s.len() && s[i] == r;
            let m = release_source(s, i);
            assert(release_source(s, m) == i);
            assert(t[n - 1 - m] == w[m]);
        }
    }
}

} // verus!
