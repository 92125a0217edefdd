//! The capability oracle: the single authority that records which process
//! holds which capability, and that grants, checks and filters them.

use vstd::prelude::*;
use crate::types::{
    capabilities_of, Capability, CapabilityView, ProcessId, ProcessIdView, SignedCapability,
    SignedCapabilityView,
};

verus! {

/// One recorded grant: `capability` is held by process `on`.
#[derive(Debug, PartialEq, Eq)]
pub struct Grant {
    pub on: ProcessId,
    pub capability: SignedCapability,
}

/// The mathematical value of a `Grant`.
pub struct GrantView {
    pub on: ProcessIdView,
    pub capability: SignedCapabilityView,
}

impl View for Grant {
    type V = GrantView;

    open spec fn view(&self) -> GrantView {
        GrantView { on: self.on@, capability: self.capability@ }
    }
}

impl DeepView for Grant {
    type V = GrantView;

    open spec fn deep_view(&self) -> GrantView {
        self@
    }
}

/// Whether a grant says that `on` holds `cap`.
pub open spec fn grants_to(g: GrantView, on: ProcessIdView, cap: CapabilityView) -> bool {
    g.on == on && g.capability.capability() == cap
}

/// The signed capability of the first grant that gives `cap` to `on`, if
/// there is one.
pub open spec fn find_grant(
    grants: Seq<GrantView>,
    on: ProcessIdView,
    cap: CapabilityView,
) -> Option<SignedCapabilityView>
    decreases grants.len(),
{
    if grants.len() == 0 {
        None
    } else if grants_to(grants[0], on, cap) {
        Some(grants[0].capability)
    } else {
        find_grant(grants.drop_first(), on, cap)
    }
}

/// Whether `on` holds `cap` according to `grants`.
pub open spec fn holds(grants: Seq<GrantView>, on: ProcessIdView, cap: CapabilityView) -> bool {
    find_grant(grants, on, cap).is_some()
}

/// No capability is recorded twice for the same process.
pub open spec fn grants_unique(grants: Seq<GrantView>) -> bool {
    forall|i: int, j: int|
        0 <= i < j < grants.len() ==> !(#[trigger] grants[i].on == #[trigger] grants[j].on
            && grants[i].capability.capability() == grants[j].capability.capability())
}

/// The members of `caps` that `on` holds, in the order of `caps`, each as
/// it was recorded.
pub open spec fn filter_caps(
    grants: Seq<GrantView>,
    on: ProcessIdView,
    caps: Seq<CapabilityView>,
) -> Seq<SignedCapabilityView>
    decreases caps.len(),
{
    if caps.len() == 0 {
        Seq::empty()
    } else {
        let rest = filter_caps(grants, on, caps.drop_last());
        match find_grant(grants, on, caps.last()) {
            Some(s) => rest.push(s),
            None => rest,
        }
    }
}

/// The grants after giving each of `caps` to `on`, in order; a capability
/// that `on` already holds is left as it was recorded.
pub open spec fn add_caps(
    grants: Seq<GrantView>,
    on: ProcessIdView,
    caps: Seq<SignedCapabilityView>,
) -> Seq<GrantView>
    decreases caps.len(),
{
    if caps.len() == 0 {
        grants
    } else {
        let before = add_caps(grants, on, caps.drop_last());
        if holds(before, on, caps.last().capability()) {
            before
        } else {
            before.push(GrantView { on, capability: caps.last() })
        }
    }
}

/// Every capability recorded for `on`, in the order of the grants.
pub open spec fn held_by(grants: Seq<GrantView>, on: ProcessIdView) -> Seq<SignedCapabilityView>
    decreases grants.len(),
{
    if grants.len() == 0 {
        Seq::empty()
    } else {
        let rest = held_by(grants.drop_last(), on);
        if grants.last().on == on {
            rest.push(grants.last().capability)
        } else {
            rest
        }
    }
}

/// If none of the first `i` grants gives `cap` to `on`, the search may start
/// at grant `i`.
pub proof fn lemma_find_grant_skip(
    grants: Seq<GrantView>,
    on: ProcessIdView,
    cap: CapabilityView,
    i: int,
)
    requires
        0 <= i <= grants.len(),
        forall|j: int| 0 <= j < i ==> !grants_to(#[trigger] grants[j], on, cap),
    ensures
        find_grant(grants, on, cap) == find_grant(grants.subrange(i, grants.len() as int), on, cap),
    decreases i,
{
    if i == 0 {
        assert(grants.subrange(0, grants.len() as int) =~= grants);
    } else {
        let tail = grants.drop_first();
        assert forall|j: int| 0 <= j < i - 1 implies !grants_to(#[trigger] tail[j], on, cap) by {
            assert(tail[j] == grants[j + 1]);
        }
        lemma_find_grant_skip(tail, on, cap, i - 1);
        assert(tail.subrange(i - 1, tail.len() as int) =~= grants.subrange(
            i,
            grants.len() as int,
        ));
        assert(!grants_to(grants[0], on, cap));
    }
}

/// What the search finds is a recorded grant of `cap` to `on`.
pub proof fn lemma_find_grant_sound(grants: Seq<GrantView>, on: ProcessIdView, cap: CapabilityView)
    ensures
        match find_grant(grants, on, cap) {
            Some(s) => s.capability() == cap && grants.contains(GrantView { on, capability: s }),
            None => forall|j: int| 0 <= j < grants.len() ==> !grants_to(#[trigger] grants[j], on, cap),
        },
    decreases grants.len(),
{
    if grants.len() == 0 {
    } else if grants_to(grants[0], on, cap) {
        assert(grants[0] == GrantView { on, capability: grants[0].capability });
    } else {
        let tail = grants.drop_first();
        lemma_find_grant_sound(tail, on, cap);
        match find_grant(tail, on, cap) {
            Some(s) => {
                let g = GrantView { on, capability: s };
                let k = choose|k: int| 0 <= k < tail.len() && tail[k] == g;
                assert(grants[k + 1] == g);
            },
            None => {
                assert forall|j: int| 0 <= j < grants.len() implies !grants_to(
                    #[trigger] grants[j],
                    on,
                    cap,
                ) by {
                    if j > 0 {
                        assert(tail[j - 1] == grants[j]);
                    }
                }
            },
        }
    }
}

/// Recording one more grant does not change what was found before.
pub proof fn lemma_find_grant_push(
    grants: Seq<GrantView>,
    g: GrantView,
    on: ProcessIdView,
    cap: CapabilityView,
)
    ensures
        find_grant(grants.push(g), on, cap) == match find_grant(grants, on, cap) {
            Some(s) => Some(s),
            None => if grants_to(g, on, cap) {
                Some(g.capability)
            } else {
                None
            },
        },
    decreases grants.len(),
{
    let pushed = grants.push(g);
    if grants.len() == 0 {
        assert(pushed.drop_first() =~= Seq::<GrantView>::empty());
        assert(pushed[0] == g);
        assert(find_grant(pushed.drop_first(), on, cap).is_none());
    } else {
        assert(pushed[0] == grants[0]);
        assert(pushed.drop_first() =~= grants.drop_first().push(g));
        lemma_find_grant_push(grants.drop_first(), g, on, cap);
    }
}

/// The capabilities that come out of a filter are exactly the members of
/// the input that the process holds, in the same order: nothing is added.
pub proof fn lemma_filter_caps_selects(
    grants: Seq<GrantView>,
    on: ProcessIdView,
    caps: Seq<CapabilityView>,
)
    ensures
        capabilities_of(filter_caps(grants, on, caps)) == caps.filter(
            |c: CapabilityView| holds(grants, on, c),
        ),
        filter_caps(grants, on, caps).len() <= caps.len(),
        forall|c: CapabilityView| #[trigger]
            capabilities_of(filter_caps(grants, on, caps)).contains(c) ==> caps.contains(c)
                && holds(grants, on, c),
    decreases caps.len(),
{
    reveal(Seq::filter);
    let pred = |c: CapabilityView| holds(grants, on, c);
    if caps.len() == 0 {
        assert(capabilities_of(filter_caps(grants, on, caps)) =~= caps.filter(pred));
    } else {
        let init = caps.drop_last();
        lemma_filter_caps_selects(grants, on, init);
        lemma_find_grant_sound(grants, on, caps.last());
        let rest = filter_caps(grants, on, init);
        match find_grant(grants, on, caps.last()) {
            Some(s) => {
                assert(capabilities_of(rest.push(s)) =~= capabilities_of(rest).push(caps.last()));
            },
            None => {},
        }
        assert(capabilities_of(filter_caps(grants, on, caps)) =~= caps.filter(pred));
        assert forall|c: CapabilityView| #[trigger]
            capabilities_of(filter_caps(grants, on, caps)).contains(c) implies caps.contains(c)
            && holds(grants, on, c) by {
            let out = capabilities_of(filter_caps(grants, on, caps));
            let k = choose|k: int| 0 <= k < out.len() && out[k] == c;
            if k < capabilities_of(rest).len() {
                assert(capabilities_of(rest)[k] == c);
                assert(capabilities_of(rest).contains(c));
                let m = choose|m: int| 0 <= m < init.len() && init[m] == c;
                assert(caps[m] == c);
            } else {
                assert(c == caps.last());
                assert(caps[caps.len() - 1] == c);
            }
        }
    }
}

/// Whatever a filter lets through is found again, unchanged, by the search.
pub proof fn lemma_filter_caps_found(
    grants: Seq<GrantView>,
    on: ProcessIdView,
    caps: Seq<CapabilityView>,
    k: int,
)
    requires
        0 <= k < filter_caps(grants, on, caps).len(),
    ensures
        find_grant(grants, on, filter_caps(grants, on, caps)[k].capability()) == Some(
            filter_caps(grants, on, caps)[k],
        ),
    decreases caps.len(),
{
    if caps.len() == 0 {
    } else {
        let init = caps.drop_last();
        let rest = filter_caps(grants, on, init);
        lemma_find_grant_sound(grants, on, caps.last());
        if k < rest.len() {
            lemma_filter_caps_found(grants, on, init, k);
        }
    }
}

/// Filtering is idempotent: filtering what a filter let through changes
/// nothing.
pub proof fn lemma_filter_caps_idempotent(
    grants: Seq<GrantView>,
    on: ProcessIdView,
    caps: Seq<CapabilityView>,
)
    ensures
        filter_caps(grants, on, capabilities_of(filter_caps(grants, on, caps))) == filter_caps(
            grants,
            on,
            caps,
        ),
{
    let once = filter_caps(grants, on, caps);
    assert forall|k: int| 0 <= k < once.len() implies find_grant(
        grants,
        on,
        (#[trigger] once[k]).capability(),
    ) == Some(once[k]) by {
        lemma_filter_caps_found(grants, on, caps, k);
    }
    lemma_filter_fixed(grants, on, once);
}

/// A list of signed capabilities, each of which the search finds unchanged,
/// passes the filter whole.
pub proof fn lemma_filter_fixed(
    grants: Seq<GrantView>,
    on: ProcessIdView,
    signed: Seq<SignedCapabilityView>,
)
    requires
        forall|k: int|
            0 <= k < signed.len() ==> find_grant(grants, on, (#[trigger] signed[k]).capability())
                == Some(signed[k]),
    ensures
        filter_caps(grants, on, capabilities_of(signed)) == signed,
    decreases signed.len(),
{
    let caps = capabilities_of(signed);
    if signed.len() == 0 {
        assert(filter_caps(grants, on, caps) =~= signed);
    } else {
        let init = signed.drop_last();
        assert(caps.drop_last() =~= capabilities_of(init));
        assert forall|k: int| 0 <= k < init.len() implies find_grant(
            grants,
            on,
            (#[trigger] init[k]).capability(),
        ) == Some(init[k]) by {
            assert(init[k] == signed[k]);
        }
        lemma_filter_fixed(grants, on, init);
        assert(caps.last() == signed.last().capability());
        assert(find_grant(grants, on, signed[signed.len() - 1].capability()) == Some(
            signed[signed.len() - 1],
        ));
        assert(filter_caps(grants, on, caps) =~= signed);
    }
}

/// Granting keeps every earlier grant, in place.
pub proof fn lemma_add_caps_extends(
    grants: Seq<GrantView>,
    on: ProcessIdView,
    caps: Seq<SignedCapabilityView>,
)
    ensures
        grants.len() <= add_caps(grants, on, caps).len(),
        add_caps(grants, on, caps).subrange(0, grants.len() as int) == grants,
    decreases caps.len(),
{
    if caps.len() == 0 {
        assert(grants.subrange(0, grants.len() as int) =~= grants);
    } else {
        lemma_add_caps_extends(grants, on, caps.drop_last());
        let before = add_caps(grants, on, caps.drop_last());
        assert(before.push(GrantView { on, capability: caps.last() }).subrange(
            0,
            grants.len() as int,
        ) =~= before.subrange(0, grants.len() as int));
    }
}

/// Granting never records a capability twice for one process.
pub proof fn lemma_add_caps_unique(
    grants: Seq<GrantView>,
    on: ProcessIdView,
    caps: Seq<SignedCapabilityView>,
)
    requires
        grants_unique(grants),
    ensures
        grants_unique(add_caps(grants, on, caps)),
    decreases caps.len(),
{
    if caps.len() > 0 {
        lemma_add_caps_unique(grants, on, caps.drop_last());
        let before = add_caps(grants, on, caps.drop_last());
        lemma_find_grant_sound(before, on, caps.last().capability());
    }
}

/// What a process held before a grant, it holds afterwards, as recorded.
pub proof fn lemma_add_caps_keeps(
    grants: Seq<GrantView>,
    on: ProcessIdView,
    caps: Seq<SignedCapabilityView>,
    who: ProcessIdView,
    cap: CapabilityView,
)
    requires
        holds(grants, who, cap),
    ensures
        find_grant(add_caps(grants, on, caps), who, cap) == find_grant(grants, who, cap),
    decreases caps.len(),
{
    if caps.len() > 0 {
        lemma_add_caps_keeps(grants, on, caps.drop_last(), who, cap);
        let before = add_caps(grants, on, caps.drop_last());
        lemma_find_grant_push(before, GrantView { on, capability: caps.last() }, who, cap);
    }
}

/// After a grant the process holds each capability that was granted.
pub proof fn lemma_add_caps_grants(
    grants: Seq<GrantView>,
    on: ProcessIdView,
    caps: Seq<SignedCapabilityView>,
    k: int,
)
    requires
        0 <= k < caps.len(),
    ensures
        holds(add_caps(grants, on, caps), on, caps[k].capability()),
    decreases caps.len(),
{
    let before = add_caps(grants, on, caps.drop_last());
    let g = GrantView { on, capability: caps.last() };
    if k < caps.len() - 1 {
        lemma_add_caps_grants(grants, on, caps.drop_last(), k);
        assert(caps.drop_last()[k] == caps[k]);
        lemma_find_grant_push(before, g, on, caps[k].capability());
    } else {
        lemma_find_grant_push(before, g, on, caps[k].capability());
    }
}

/// Granting is idempotent: granting the same capabilities again changes
/// nothing.
pub proof fn lemma_add_caps_idempotent(
    grants: Seq<GrantView>,
    on: ProcessIdView,
    caps: Seq<SignedCapabilityView>,
)
    ensures
        add_caps(add_caps(grants, on, caps), on, caps) == add_caps(grants, on, caps),
{
    let once = add_caps(grants, on, caps);
    assert forall|k: int| 0 <= k < caps.len() implies holds(
        once,
        on,
        (#[trigger] caps[k]).capability(),
    ) by {
        lemma_add_caps_grants(grants, on, caps, k);
    }
    lemma_add_caps_held(once, on, caps);
}

/// Granting capabilities that are all held already changes nothing.
pub proof fn lemma_add_caps_held(
    grants: Seq<GrantView>,
    on: ProcessIdView,
    caps: Seq<SignedCapabilityView>,
)
    requires
        forall|k: int| 0 <= k < caps.len() ==> holds(grants, on, (#[trigger] caps[k]).capability()),
    ensures
        add_caps(grants, on, caps) == grants,
    decreases caps.len(),
{
    if caps.len() > 0 {
        let init = caps.drop_last();
        assert forall|k: int| 0 <= k < init.len() implies holds(
            grants,
            on,
            (#[trigger] init[k]).capability(),
        ) by {
            assert(init[k] == caps[k]);
        }
        lemma_add_caps_held(grants, on, init);
        assert(holds(grants, on, caps[caps.len() - 1].capability()));
    }
}

/// The capability oracle. It owns the record of grants; every other
/// component asks it.
#[derive(Debug, PartialEq, Eq)]
pub struct CapabilityOracle {
    grants: Vec<Grant>,
}

impl View for CapabilityOracle {
    type V = Seq<GrantView>;

    closed spec fn view(&self) -> Seq<GrantView> {
        self.grants.deep_view()
    }
}

impl CapabilityOracle {
    /// The oracle's invariant: no capability is recorded twice for the same
    /// process.
    pub open spec fn wf(&self) -> bool {
        grants_unique(self@)
    }

    /// An oracle that has granted nothing.
    pub fn new() -> (res: Self)
        ensures
            res@ == Seq::<GrantView>::empty(),
            res.wf(),
    {
        let res = CapabilityOracle { grants: Vec::new() };
        assert(res@ =~= Seq::<GrantView>::empty());
        res
    }

    /// The recorded form of `cap` as held by `on`, if `on` holds it.
    pub fn find(&self, on: &ProcessId, cap: &Capability) -> (res: Option<SignedCapability>)
        ensures
            res.deep_view() == find_grant(self@, on@, cap@),
    {
        let mut i: usize = 0;
        while i < self.grants.len()
            invariant
                i <= self.grants.len(),
                forall|j: int| 0 <= j < i ==> !grants_to(#[trigger] self@[j], on@, cap@),
            decreases self.grants.len() - i,
        {
            let g = &self.grants[i];
            assert(self@[i as int] == g@);
            if g.on.same(on) && g.capability.issuer.same(&cap.issuer) && g.capability.params
                == cap.params {
                proof {
                    lemma_find_grant_skip(self@, on@, cap@, i as int);
                    assert(self@.subrange(i as int, self@.len() as int)[0] == g@);
                }
                return Some(g.capability.clone());
            }
            i += 1;
        }
        proof {
            lemma_find_grant_skip(self@, on@, cap@, i as int);
            assert(self@.subrange(i as int, self@.len() as int).len() == 0);
        }
        None
    }

    /// Whether `cap` is currently granted to `on`.
    pub fn has(&self, on: &ProcessId, cap: &Capability) -> (res: bool)
        ensures
            res == holds(self@, on@, cap@),
    {
        self.find(on, cap).is_some()
    }

    /// Grants `caps` to `on`. A capability that `on` already holds stays as
    /// it was recorded.
    pub fn add(&mut self, on: &ProcessId, caps: Vec<SignedCapability>)
        ensures
            final(self)@ == add_caps(old(self)@, on@, caps.deep_view()),
            old(self).wf() ==> final(self).wf(),
    {
        let ghost start = self@;
        let ghost all = caps.deep_view();
        let mut i: usize = 0;
        while i < caps.len()
            invariant
                i <= caps.len(),
                all == caps.deep_view(),
                self@ == add_caps(start, on@, all.subrange(0, i as int)),
            decreases caps.len() - i,
        {
            let c = &caps[i];
            assert(all[i as int] == c@);
            assert(all.subrange(0, i + 1).drop_last() =~= all.subrange(0, i as int));
            let cap = c.capability();
            if !self.has(on, &cap) {
                let ghost before = self@;
                let g = Grant { on: on.clone(), capability: c.clone() };
                self.grants.push(g);
                assert(self@ =~= before.push(g@));
            }
            i += 1;
        }
        proof {
            assert(all.subrange(0, caps.len() as int) =~= all);
            if grants_unique(start) {
                lemma_add_caps_unique(start, on@, all);
            }
        }
    }

    /// The members of `caps` that `on` actually holds, in the order given,
    /// each in its recorded form.
    pub fn filter_caps(&self, on: &ProcessId, caps: &Vec<Capability>) -> (res: Vec<
        SignedCapability,
    >)
        ensures
            res.deep_view() == filter_caps(self@, on@, caps.deep_view()),
    {
        let ghost all = caps.deep_view();
        let mut out: Vec<SignedCapability> = Vec::new();
        let mut i: usize = 0;
        assert(out.deep_view() =~= Seq::<SignedCapabilityView>::empty());
        while i < caps.len()
            invariant
                i <= caps.len(),
                all == caps.deep_view(),
                out.deep_view() == filter_caps(self@, on@, all.subrange(0, i as int)),
            decreases caps.len() - i,
        {
            let c = &caps[i];
            assert(all[i as int] == c@);
            assert(all.subrange(0, i + 1).drop_last() =~= all.subrange(0, i as int));
            match self.find(on, c) {
                Some(s) => {
                    let ghost before = out.deep_view();
                    out.push(s);
                    assert(out.deep_view() =~= before.push(s@));
                },
                None => {},
            }
            i += 1;
        }
        assert(all.subrange(0, caps.len() as int) =~= all);
        out
    }

    /// Every capability that `on` holds, in the order in which they were
    /// granted.
    pub fn get_all(&self, on: &ProcessId) -> (res: Vec<SignedCapability>)
        ensures
            res.deep_view() == held_by(self@, on@),
    {
        let mut out: Vec<SignedCapability> = Vec::new();
        let mut i: usize = 0;
        assert(out.deep_view() =~= Seq::<SignedCapabilityView>::empty());
        while i < self.grants.len()
            invariant
                i <= self.grants.len(),
                out.deep_view() == held_by(self@.subrange(0, i as int), on@),
            decreases self.grants.len() - i,
        {
            let g = &self.grants[i];
            assert(self@[i as int] == g@);
            assert(self@.subrange(0, i + 1).drop_last() =~= self@.subrange(0, i as int));
            if g.on.same(on) {
                let ghost before = out.deep_view();
                let s = g.capability.clone();
                out.push(s);
                assert(out.deep_view() =~= before.push(s@));
            }
            i += 1;
        }
        assert(self@.subrange(0, self.grants.len() as int) =~= self@);
        out
    }
}

/// Strips the signatures from a list of signed capabilities.
pub fn strip_signatures(signed: &Vec<SignedCapability>) -> (res: Vec<Capability>)
    ensures
        res.deep_view() == capabilities_of(signed.deep_view()),
{
    let mut out: Vec<Capability> = Vec::new();
    let mut i: usize = 0;
    while i < signed.len()
        invariant
            i <= signed.len(),
            out@.len() == i,
            forall|j: int| 0 <= j < i ==> out@[j]@ == signed@[j]@.capability(),
        decreases signed.len() - i,
    {
        out.push(signed[i].capability());
        i += 1;
    }
    assert(out.deep_view() =~= capabilities_of(signed.deep_view()));
    out
}

/// A question put to the oracle.
#[derive(Debug, PartialEq, Eq)]
#[allow(inconsistent_fields)]
pub enum CapMessage {
    /// Is `cap` currently granted to `on`?
    Has { on: ProcessId, cap: Capability },
    /// Grant `caps` to `on`.
    Add { on: ProcessId, caps: Vec<SignedCapability> },
    /// Which of `caps` does `on` hold?
    FilterCaps { on: ProcessId, caps: Vec<Capability> },
    /// Everything that `on` holds.
    GetAll { on: ProcessId },
}

/// The oracle's answer.
#[derive(Debug, PartialEq, Eq)]
pub enum CapResponse {
    Has(bool),
    Added,
    Filtered(Vec<SignedCapability>),
    All(Vec<SignedCapability>),
}

impl CapabilityOracle {
    /// Answers one question. Only `Add` changes the record.
    pub fn handle(&mut self, message: CapMessage) -> (res: CapResponse)
        ensures
            old(self).wf() ==> final(self).wf(),
            match message {
                CapMessage::Has { on, cap } => {
                    &&& final(self)@ == old(self)@
                    &&& (res matches CapResponse::Has(b) && b == holds(old(self)@, on@, cap@))
                },
                CapMessage::Add { on, caps } => {
                    &&& final(self)@ == add_caps(old(self)@, on@, caps.deep_view())
                    &&& res is Added
                },
                CapMessage::FilterCaps { on, caps } => {
                    &&& final(self)@ == old(self)@
                    &&& (res matches CapResponse::Filtered(v) && v.deep_view() == filter_caps(
                        old(self)@,
                        on@,
                        caps.deep_view(),
                    ))
                },
                CapMessage::GetAll { on } => {
                    &&& final(self)@ == old(self)@
                    &&& (res matches CapResponse::All(v) && v.deep_view() == held_by(
                        old(self)@,
                        on@,
                    ))
                },
            },
    {
        match message {
            CapMessage::Has { on, cap } => CapResponse::Has(self.has(&on, &cap)),
            CapMessage::Add { on, caps } => {
                self.add(&on, caps);
                CapResponse::Added
            },
            CapMessage::FilterCaps { on, caps } => CapResponse::Filtered(
                self.filter_caps(&on, &caps),
            ),
            CapMessage::GetAll { on } => CapResponse::All(self.get_all(&on)),
        }
    }
}

} // verus!
