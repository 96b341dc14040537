//! The pipeline's step handlers, by name, and the registry a pipeline looks
//! them up in.
use vstd::prelude::*;

use crate::text::str_eq;

verus! {

/// Every step handler the pipeline ships with.
#[derive(Debug, Clone, Copy, PartialEq, Eq, Structural)]
pub enum StepKind {
    Navigate,
    Wait,
    Evaluate,
    Scroll,
    Collect,
    BgFetch,
    Download,
    DashMux,
    KvGet,
    KvSet,
}

/// The name a pipeline refers to a step by.
pub open spec fn step_name(k: StepKind) -> Seq<char> {
    match k {
        StepKind::Navigate => "navigate"@,
        StepKind::Wait => "wait"@,
        StepKind::Evaluate => "evaluate"@,
        StepKind::Scroll => "scroll"@,
        StepKind::Collect => "collect"@,
        StepKind::BgFetch => "bg_fetch"@,
        StepKind::Download => "download"@,
        StepKind::DashMux => "dash-mux"@,
        StepKind::KvGet => "kv_get"@,
        StepKind::KvSet => "kv_set"@,
    }
}

/// Whether the step needs a browser page.
pub open spec fn needs_browser(k: StepKind) -> bool {
    match k {
        StepKind::Navigate | StepKind::Wait | StepKind::Evaluate | StepKind::Scroll
        | StepKind::Collect | StepKind::Download => true,
        _ => false,
    }
}

/// Two different steps have different names.
pub proof fn lemma_step_names_distinct(a: StepKind, b: StepKind)
    requires
        a != b,
    ensures
        step_name(a) != step_name(b),
{
    reveal_strlit("navigate");
    reveal_strlit("wait");
    reveal_strlit("evaluate");
    reveal_strlit("scroll");
    reveal_strlit("collect");
    reveal_strlit("bg_fetch");
    reveal_strlit("download");
    reveal_strlit("dash-mux");
    reveal_strlit("kv_get");
    reveal_strlit("kv_set");
    let (x, y) = (step_name(a), step_name(b));
    if x == y {
        assert(x.len() == y.len());
        assert(x[0] == y[0]);
        if x.len() > 3 {
            assert(x[1] == y[1]);
            assert(x[3] == y[3]);
        }
    }
}

impl StepKind {
    /// The step's name.
    pub fn name(&self) -> (r: &'static str)
        ensures
            r@ == step_name(*self),
    {
        match self {
            StepKind::Navigate => "navigate",
            StepKind::Wait => "wait",
            StepKind::Evaluate => "evaluate",
            StepKind::Scroll => "scroll",
            StepKind::Collect => "collect",
            StepKind::BgFetch => "bg_fetch",
            StepKind::Download => "download",
            StepKind::DashMux => "dash-mux",
            StepKind::KvGet => "kv_get",
            StepKind::KvSet => "kv_set",
        }
    }

    /// Whether the step needs a browser page.
    pub fn is_browser_step(&self) -> (r: bool)
        ensures
            r == needs_browser(*self),
    {
        match self {
            StepKind::Navigate | StepKind::Wait | StepKind::Evaluate | StepKind::Scroll
            | StepKind::Collect | StepKind::Download => true,
            _ => false,
        }
    }
}

/// Opens a page at a URL.
pub struct NavigateStep;

/// Waits for a time, a selector or text.
pub struct WaitStep;

/// Runs a script in the page.
pub struct EvaluateStep;

/// Scrolls the page.
pub struct ScrollStep;

/// Collects what a page script gathered.
pub struct CollectStep;

/// Fetches through the browser extension's background worker.
pub struct BgFetchStep;

/// Downloads media and articles.
pub struct DownloadStep;

/// Downloads DASH video and audio streams and muxes them.
pub struct DashMuxStep;

/// Reads a key of the local key-value store.
pub struct KvGetStep;

/// Writes a key of the local key-value store.
pub struct KvSetStep;

impl NavigateStep {
    pub fn kind(&self) -> (r: StepKind)
        ensures
            r == StepKind::Navigate,
    {
        StepKind::Navigate
    }

    pub fn name(&self) -> (r: &'static str)
        ensures
            r@ == step_name(StepKind::Navigate),
    {
        StepKind::Navigate.name()
    }

    pub fn is_browser_step(&self) -> (r: bool)
        ensures
            r == needs_browser(StepKind::Navigate),
    {
        StepKind::Navigate.is_browser_step()
    }
}

impl WaitStep {
    pub fn kind(&self) -> (r: StepKind)
        ensures
            r == StepKind::Wait,
    {
        StepKind::Wait
    }

    pub fn name(&self) -> (r: &'static str)
        ensures
            r@ == step_name(StepKind::Wait),
    {
        StepKind::Wait.name()
    }

    pub fn is_browser_step(&self) -> (r: bool)
        ensures
            r == needs_browser(StepKind::Wait),
    {
        StepKind::Wait.is_browser_step()
    }
}

impl EvaluateStep {
    pub fn kind(&self) -> (r: StepKind)
        ensures
            r == StepKind::Evaluate,
    {
        StepKind::Evaluate
    }

    pub fn name(&self) -> (r: &'static str)
        ensures
            r@ == step_name(StepKind::Evaluate),
    {
        StepKind::Evaluate.name()
    }

    pub fn is_browser_step(&self) -> (r: bool)
        ensures
            r == needs_browser(StepKind::Evaluate),
    {
        StepKind::Evaluate.is_browser_step()
    }
}

impl ScrollStep {
    pub fn kind(&self) -> (r: StepKind)
        ensures
            r == StepKind::Scroll,
    {
        StepKind::Scroll
    }

    pub fn name(&self) -> (r: &'static str)
        ensures
            r@ == step_name(StepKind::Scroll),
    {
        StepKind::Scroll.name()
    }

    pub fn is_browser_step(&self) -> (r: bool)
        ensures
            r == needs_browser(StepKind::Scroll),
    {
        StepKind::Scroll.is_browser_step()
    }
}

impl CollectStep {
    pub fn kind(&self) -> (r: StepKind)
        ensures
            r == StepKind::Collect,
    {
        StepKind::Collect
    }

    pub fn name(&self) -> (r: &'static str)
        ensures
            r@ == step_name(StepKind::Collect),
    {
        StepKind::Collect.name()
    }

    pub fn is_browser_step(&self) -> (r: bool)
        ensures
            r == needs_browser(StepKind::Collect),
    {
        StepKind::Collect.is_browser_step()
    }
}

impl BgFetchStep {
    pub fn kind(&self) -> (r: StepKind)
        ensures
            r == StepKind::BgFetch,
    {
        StepKind::BgFetch
    }

    pub fn name(&self) -> (r: &'static str)
        ensures
            r@ == step_name(StepKind::BgFetch),
    {
        StepKind::BgFetch.name()
    }

    pub fn is_browser_step(&self) -> (r: bool)
        ensures
            r == needs_browser(StepKind::BgFetch),
    {
        StepKind::BgFetch.is_browser_step()
    }
}

impl DownloadStep {
    pub fn kind(&self) -> (r: StepKind)
        ensures
            r == StepKind::Download,
    {
        StepKind::Download
    }

    pub fn name(&self) -> (r: &'static str)
        ensures
            r@ == step_name(StepKind::Download),
    {
        StepKind::Download.name()
    }

    pub fn is_browser_step(&self) -> (r: bool)
        ensures
            r == needs_browser(StepKind::Download),
    {
        StepKind::Download.is_browser_step()
    }
}

impl DashMuxStep {
    pub fn kind(&self) -> (r: StepKind)
        ensures
            r == StepKind::DashMux,
    {
        StepKind::DashMux
    }

    pub fn name(&self) -> (r: &'static str)
        ensures
            r@ == step_name(StepKind::DashMux),
    {
        StepKind::DashMux.name()
    }

    pub fn is_browser_step(&self) -> (r: bool)
        ensures
            r == needs_browser(StepKind::DashMux),
    {
        StepKind::DashMux.is_browser_step()
    }
}

impl KvGetStep {
    pub fn kind(&self) -> (r: StepKind)
        ensures
            r == StepKind::KvGet,
    {
        StepKind::KvGet
    }

    pub fn name(&self) -> (r: &'static str)
        ensures
            r@ == step_name(StepKind::KvGet),
    {
        StepKind::KvGet.name()
    }

    pub fn is_browser_step(&self) -> (r: bool)
        ensures
            r == needs_browser(StepKind::KvGet),
    {
        StepKind::KvGet.is_browser_step()
    }
}

impl KvSetStep {
    pub fn kind(&self) -> (r: StepKind)
        ensures
            r == StepKind::KvSet,
    {
        StepKind::KvSet
    }

    pub fn name(&self) -> (r: &'static str)
        ensures
            r@ == step_name(StepKind::KvSet),
    {
        StepKind::KvSet.name()
    }

    pub fn is_browser_step(&self) -> (r: bool)
        ensures
            r == needs_browser(StepKind::KvSet),
    {
        StepKind::KvSet.is_browser_step()
    }
}

/// The step registered under `name`: the first entry with that name.
pub open spec fn lookup(entries: Seq<StepKind>, name: Seq<char>) -> Option<StepKind>
    decreases entries.len(),
{
    if entries.len() == 0 {
        None
    } else if step_name(entries[0]) == name {
        Some(entries[0])
    } else {
        lookup(entries.drop_first(), name)
    }
}

/// The index of the first entry named like `k`, if any.
pub open spec fn slot_of(entries: Seq<StepKind>, name: Seq<char>) -> Option<int>
    decreases entries.len(),
{
    if entries.len() == 0 {
        None
    } else if step_name(entries[0]) == name {
        Some(0)
    } else {
        match slot_of(entries.drop_first(), name) {
            Some(i) => Some(i + 1),
            None => None,
        }
    }
}

/// The entries after registering `k`: it takes the place of the step of the
/// same name, or comes last.
pub open spec fn with_step(entries: Seq<StepKind>, k: StepKind) -> Seq<StepKind> {
    match slot_of(entries, step_name(k)) {
        Some(i) => entries.update(i, k),
        None => entries.push(k),
    }
}

proof fn lemma_slot_of(entries: Seq<StepKind>, name: Seq<char>, i: int)
    requires
        0 <= i <= entries.len(),
        forall|j: int| 0 <= j < i ==> step_name(#[trigger] entries[j]) != name,
        i < entries.len() ==> step_name(entries[i]) == name,
    ensures
        slot_of(entries, name) == (if i < entries.len() {
            Some(i)
        } else {
            None::<int>
        }),
    decreases i,
{
    if i > 0 {
        let t = entries.drop_first();
        assert forall|j: int| 0 <= j < i - 1 implies step_name(#[trigger] t[j]) != name by {
            assert(t[j] == entries[j + 1]);
        }
        if i < entries.len() {
            assert(t[i - 1] == entries[i]);
        }
        assert(step_name(entries[0]) != name);
        lemma_slot_of(t, name, i - 1);
    }
}

proof fn lemma_lookup_slot(entries: Seq<StepKind>, name: Seq<char>)
    ensures
        match slot_of(entries, name) {
            Some(i) => 0 <= i < entries.len() && step_name(entries[i]) == name
                && lookup(entries, name) == Some(entries[i])
                && forall|j: int| 0 <= j < i ==> step_name(#[trigger] entries[j]) != name,
            None => lookup(entries, name) is None
                && forall|j: int| 0 <= j < entries.len() ==> step_name(#[trigger] entries[j]) != name,
        },
    decreases entries.len(),
{
    if entries.len() > 0 {
        let t = entries.drop_first();
        lemma_lookup_slot(t, name);
        if step_name(entries[0]) != name {
            match slot_of(t, name) {
                Some(i) => {
                    assert(entries[i + 1] == t[i]);
                    assert forall|j: int| 0 <= j < i + 1 implies step_name(#[trigger] entries[j])
                        != name by {
                        if j > 0 {
                            assert(entries[j] == t[j - 1]);
                        }
                    }
                },
                None => {
                    assert forall|j: int| 0 <= j < entries.len() implies step_name(
                        #[trigger] entries[j],
                    ) != name by {
                        if j > 0 {
                            assert(entries[j] == t[j - 1]);
                        }
                    }
                },
            }
        }
    }
}

/// What a lookup gives in terms of positions: the first entry with the name.
proof fn lemma_lookup_first(entries: Seq<StepKind>, name: Seq<char>, i: int)
    requires
        0 <= i <= entries.len(),
        forall|j: int| 0 <= j < i ==> step_name(#[trigger] entries[j]) != name,
        i < entries.len() ==> step_name(entries[i]) == name,
    ensures
        lookup(entries, name) == (if i < entries.len() {
            Some(entries[i])
        } else {
            None::<StepKind>
        }),
{
    lemma_slot_of(entries, name, i);
    lemma_lookup_slot(entries, name);
}

/// Registering a step makes a lookup of its name give it, and leaves every
/// other name as it was.
pub proof fn law_lookup_after_register(entries: Seq<StepKind>, k: StepKind, name: Seq<char>)
    ensures
        lookup(with_step(entries, k), step_name(k)) == Some(k),
        name != step_name(k) ==> lookup(with_step(entries, k), name) == lookup(entries, name),
{
    let n = step_name(k);
    let after = with_step(entries, k);
    lemma_lookup_slot(entries, n);
    lemma_lookup_slot(entries, name);
    match slot_of(entries, n) {
        Some(i) => {
            assert forall|j: int| 0 <= j < i implies step_name(#[trigger] after[j]) != n by {
                assert(after[j] == entries[j]);
            }
            lemma_lookup_first(after, n, i);
            if name != n {
                match slot_of(entries, name) {
                    Some(m) => {
                        assert forall|j: int| 0 <= j < m implies step_name(#[trigger] after[j])
                            != name by {
                            if j != i {
                                assert(after[j] == entries[j]);
                            }
                        }
                        assert(m != i);
                        assert(after[m] == entries[m]);
                        lemma_lookup_first(after, name, m);
                    },
                    None => {
                        assert forall|j: int| 0 <= j < after.len() implies step_name(
                            #[trigger] after[j],
                        ) != name by {
                            if j != i {
                                assert(after[j] == entries[j]);
                            }
                        }
                        lemma_lookup_first(after, name, after.len() as int);
                    },
                }
            }
        },
        None => {
            assert forall|j: int| 0 <= j < entries.len() implies step_name(#[trigger] after[j])
                != n by {
                assert(after[j] == entries[j]);
            }
            lemma_lookup_first(after, n, entries.len() as int);
            if name != n {
                match slot_of(entries, name) {
                    Some(m) => {
                        assert forall|j: int| 0 <= j < m implies step_name(#[trigger] after[j])
                            != name by {
                            assert(after[j] == entries[j]);
                        }
                        assert(after[m] == entries[m]);
                        lemma_lookup_first(after, name, m);
                    },
                    None => {
                        assert forall|j: int| 0 <= j < after.len() implies step_name(
                            #[trigger] after[j],
                        ) != name by {
                            if j < entries.len() {
                                assert(after[j] == entries[j]);
                            }
                        }
                        lemma_lookup_first(after, name, after.len() as int);
                    },
                }
            }
        },
    }
}

/// The step handlers a pipeline can run, by name.
pub struct StepRegistry {
    entries: Vec<StepKind>,
}

impl View for StepRegistry {
    type V = Seq<StepKind>;

    closed spec fn view(&self) -> Seq<StepKind> {
        self.entries@
    }
}

impl StepRegistry {
    /// An empty registry.
    pub fn new() -> (r: StepRegistry)
        ensures
            r@ == Seq::<StepKind>::empty(),
    {
        StepRegistry { entries: Vec::new() }
    }

    /// Registers a step under its name, replacing a step of the same name.
    pub fn register(&mut self, k: StepKind)
        ensures
            final(self)@ == with_step(old(self)@, k),
    {
        let name = k.name();
        let mut i: usize = 0;
        while i < self.entries.len()
            invariant
                i <= self.entries.len(),
                self@ == old(self)@,
                name@ == step_name(k),
                forall|j: int| 0 <= j < i ==> step_name(#[trigger] self@[j]) != step_name(k),
            decreases self.entries.len() - i,
        {
            if str_eq(self.entries[i].name(), name) {
                proof {
                    lemma_slot_of(self@, step_name(k), i as int);
                }
                self.entries.set(i, k);
                return;
            }
            i = i + 1;
        }
        proof {
            lemma_slot_of(self@, step_name(k), i as int);
        }
        self.entries.push(k);
    }

    /// The step registered under `name`.
    pub fn get(&self, name: &str) -> (r: Option<StepKind>)
        ensures
            r == lookup(self@, name@),
    {
        let mut i: usize = 0;
        while i < self.entries.len()
            invariant
                i <= self.entries.len(),
                forall|j: int| 0 <= j < i ==> step_name(#[trigger] self@[j]) != name@,
            decreases self.entries.len() - i,
        {
            if str_eq(self.entries[i].name(), name) {
                proof {
                    lemma_lookup_first(self@, name@, i as int);
                }
                return Some(self.entries[i]);
            }
            i = i + 1;
        }
        proof {
            lemma_lookup_first(self@, name@, i as int);
        }
        None
    }
}

/// The steps that drive a browser page, in the order they are registered.
pub open spec fn browser_steps() -> Seq<StepKind> {
    seq![
        StepKind::Navigate,
        StepKind::Wait,
        StepKind::Evaluate,
        StepKind::Scroll,
        StepKind::Collect,
        StepKind::BgFetch,
    ]
}

/// The download steps, in the order they are registered.
pub open spec fn download_steps() -> Seq<StepKind> {
    seq![StepKind::Download, StepKind::DashMux]
}

/// The key-value store steps, in the order they are registered.
pub open spec fn kv_steps() -> Seq<StepKind> {
    seq![StepKind::KvGet, StepKind::KvSet]
}

/// The entries after registering each of `ks` in turn.
pub open spec fn with_steps(entries: Seq<StepKind>, ks: Seq<StepKind>) -> Seq<StepKind>
    decreases ks.len(),
{
    if ks.len() == 0 {
        entries
    } else {
        with_steps(with_step(entries, ks[0]), ks.drop_first())
    }
}

/// After registering steps of distinct kinds, each is found under its name,
/// and every name that none of them has is as it was.
pub proof fn law_lookup_after_register_all(
    entries: Seq<StepKind>,
    ks: Seq<StepKind>,
    name: Seq<char>,
)
    requires
        forall|i: int, j: int| 0 <= i < j < ks.len() ==> ks[i] != ks[j],
    ensures
        forall|i: int|
            0 <= i < ks.len() ==> lookup(with_steps(entries, ks), step_name(#[trigger] ks[i]))
                == Some(ks[i]),
        (forall|i: int| 0 <= i < ks.len() ==> step_name(#[trigger] ks[i]) != name) ==> lookup(
            with_steps(entries, ks),
            name,
        ) == lookup(entries, name),
    decreases ks.len(),
{
    if ks.len() > 0 {
        let first = ks[0];
        let rest = ks.drop_first();
        let mid = with_step(entries, first);
        assert forall|i: int, j: int| 0 <= i < j < rest.len() implies rest[i] != rest[j] by {
            assert(rest[i] == ks[i + 1]);
            assert(rest[j] == ks[j + 1]);
        }
        law_lookup_after_register_all(mid, rest, name);
        law_lookup_after_register_all(mid, rest, step_name(first));
        assert forall|i: int| 0 <= i < rest.len() implies step_name(#[trigger] rest[i])
            != step_name(first) by {
            assert(rest[i] == ks[i + 1]);
            lemma_step_names_distinct(first, rest[i]);
        }
        law_lookup_after_register(entries, first, name);
        assert forall|i: int| 0 <= i < ks.len() implies lookup(
            with_steps(entries, ks),
            step_name(#[trigger] ks[i]),
        ) == Some(ks[i]) by {
            if i > 0 {
                assert(ks[i] == rest[i - 1]);
            }
        }
        if forall|i: int| 0 <= i < ks.len() ==> step_name(#[trigger] ks[i]) != name {
            assert forall|i: int| 0 <= i < rest.len() implies step_name(#[trigger] rest[i])
                != name by {
                assert(rest[i] == ks[i + 1]);
            }
            assert(step_name(ks[0]) != name);
        }
    }
}

/// Registers the steps that drive a browser page.
pub fn register_browser_steps(registry: &mut StepRegistry)
    ensures
        final(registry)@ == with_steps(old(registry)@, browser_steps()),
{
    let ghost start = registry@;
    registry.register(StepKind::Navigate);
    registry.register(StepKind::Wait);
    registry.register(StepKind::Evaluate);
    registry.register(StepKind::Scroll);
    registry.register(StepKind::Collect);
    registry.register(StepKind::BgFetch);
    proof {
        let b = browser_steps();
        reveal_with_fuel(with_steps, 7);
        assert(b.drop_first() =~= seq![StepKind::Wait, StepKind::Evaluate, StepKind::Scroll, StepKind::Collect, StepKind::BgFetch]);
        assert(b.drop_first().drop_first() =~= seq![StepKind::Evaluate, StepKind::Scroll, StepKind::Collect, StepKind::BgFetch]);
        assert(b.drop_first().drop_first().drop_first() =~= seq![StepKind::Scroll, StepKind::Collect, StepKind::BgFetch]);
        assert(b.drop_first().drop_first().drop_first().drop_first() =~= seq![StepKind::Collect, StepKind::BgFetch]);
        assert(b.drop_first().drop_first().drop_first().drop_first().drop_first() =~= seq![StepKind::BgFetch]);
        assert(b.drop_first().drop_first().drop_first().drop_first().drop_first().drop_first() =~= Seq::<StepKind>::empty());
    }
}

/// Registers the download steps.
pub fn register_download_steps(registry: &mut StepRegistry)
    ensures
        final(registry)@ == with_steps(old(registry)@, download_steps()),
{
    registry.register(StepKind::Download);
    registry.register(StepKind::DashMux);
    proof {
        let b = download_steps();
        reveal_with_fuel(with_steps, 3);
        assert(b.drop_first() =~= seq![StepKind::DashMux]);
        assert(b.drop_first().drop_first() =~= Seq::<StepKind>::empty());
    }
}

/// Registers the key-value store steps.
pub fn register_kv_steps(registry: &mut StepRegistry)
    ensures
        final(registry)@ == with_steps(old(registry)@, kv_steps()),
{
    registry.register(StepKind::KvGet);
    registry.register(StepKind::KvSet);
    proof {
        let b = kv_steps();
        reveal_with_fuel(with_steps, 3);
        assert(b.drop_first() =~= seq![StepKind::KvSet]);
        assert(b.drop_first().drop_first() =~= Seq::<StepKind>::empty());
    }
}

} // verus!
