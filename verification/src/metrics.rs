//! The metrics registry: a process-wide set of named, monotonically
//! increasing counter series, with idempotent registration, bounded-time
//! increment, and an on-demand immutable snapshot.
use vstd::prelude::*;

verus! {

/// The mathematical model of one counter series.
pub ghost struct SeriesModel {
    pub name: Seq<char>,
    pub description: Seq<char>,
    pub value: u64,
}

/// One counter series: a named, monotonically increasing value together
/// with its human-readable description.
pub struct CounterSeries {
    pub name: String,
    pub description: String,
    pub value: u64,
}

impl View for CounterSeries {
    type V = SeriesModel;

    open spec fn view(&self) -> SeriesModel {
        SeriesModel { name: self.name@, description: self.description@, value: self.value }
    }
}

/// A handle to a registered counter: the position of its series in the
/// registry. Two registrations of one name hand out the same position.
#[derive(Clone, Copy, PartialEq, Eq, Structural, Debug)]
pub struct CounterHandle {
    pub idx: usize,
}

/// A namespace handle under which instruments are registered.
pub struct Meter {
    pub name: String,
}

/// Returns the namespace handle for `name`. Two calls with the same name
/// yield handles with the same name, so the operation is idempotent.
pub fn meter(name: &str) -> (m: Meter)
    ensures
        m.name@ == name@,
{
    Meter { name: name.to_owned() }
}

/// The registry owning every instrument series of the process.
pub struct MetricsRegistry {
    pub series: Vec<CounterSeries>,
}

impl View for MetricsRegistry {
    type V = Seq<SeriesModel>;

    open spec fn view(&self) -> Seq<SeriesModel> {
        Seq::new(self.series@.len(), |i: int| self.series@[i]@)
    }
}

/// A point-in-time, immutable copy of every series in the registry.
pub struct MetricsSnapshot {
    pub families: Vec<CounterSeries>,
}

impl View for MetricsSnapshot {
    type V = Seq<SeriesModel>;

    open spec fn view(&self) -> Seq<SeriesModel> {
        Seq::new(self.families@.len(), |i: int| self.families@[i]@)
    }
}

/// No two series carry the same name.
pub open spec fn unique_names(s: Seq<SeriesModel>) -> bool {
    forall|i: int, j: int| 0 <= i < j < s.len() ==> s[i].name != s[j].name
}

/// The position of the first series named `name`; negative when absent.
pub open spec fn index_of(s: Seq<SeriesModel>, name: Seq<char>) -> int
    decreases s.len(),
{
    if s.len() == 0 {
        -1
    } else if s[0].name == name {
        0
    } else {
        let r = index_of(s.drop_first(), name);
        if r < 0 {
            -1
        } else {
            r + 1
        }
    }
}

/// Whether some series is named `name`.
pub open spec fn has_series(s: Seq<SeriesModel>, name: Seq<char>) -> bool {
    index_of(s, name) >= 0
}

/// The current value of the series named `name`; an unregistered counter
/// reads as zero.
pub open spec fn counter_value(s: Seq<SeriesModel>, name: Seq<char>) -> u64 {
    if has_series(s, name) {
        s[index_of(s, name)].value
    } else {
        0
    }
}

/// Addition on counter values, saturating at the largest representable value.
pub open spec fn sat_add(a: u64, d: u64) -> u64 {
    if a + d > u64::MAX {
        u64::MAX
    } else {
        (a + d) as u64
    }
}

/// What registering a counter does: an existing name is found and the
/// registry kept as it was; a new name is appended with value zero. The
/// second component is the handle's position.
pub open spec fn register_spec(s: Seq<SeriesModel>, name: Seq<char>, description: Seq<char>) -> (
    Seq<SeriesModel>,
    int,
) {
    if has_series(s, name) {
        (s, index_of(s, name))
    } else {
        (s.push(SeriesModel { name, description, value: 0 }), s.len() as int)
    }
}

/// What one `add` does: the series at `i` grows by `delta`, saturating;
/// every other series is untouched.
pub open spec fn add_spec(s: Seq<SeriesModel>, i: int, delta: u64) -> Seq<SeriesModel> {
    s.update(i, SeriesModel { value: sat_add(s[i].value, delta), ..s[i] })
}

/// What one instrumented request does to the registry: register the
/// counter (idempotently) and increment it by one.
pub open spec fn bump_spec(s: Seq<SeriesModel>, name: Seq<char>, description: Seq<char>) -> Seq<
    SeriesModel,
> {
    let (s1, i) = register_spec(s, name, description);
    add_spec(s1, i, 1)
}

pub proof fn lemma_index_of_props(s: Seq<SeriesModel>, name: Seq<char>)
    ensures
        index_of(s, name) >= 0 ==> index_of(s, name) < s.len() && s[index_of(s, name)].name
            == name,
        index_of(s, name) < 0 ==> forall|i: int| 0 <= i < s.len() ==> s[i].name != name,
    decreases s.len(),
{
    if s.len() > 0 && s[0].name != name {
        lemma_index_of_props(s.drop_first(), name);
        let r = index_of(s.drop_first(), name);
        if r >= 0 {
            assert(s[r + 1] == s.drop_first()[r]);
        } else {
            assert forall|i: int| 0 <= i < s.len() implies s[i].name != name by {
                if i > 0 {
                    assert(s[i] == s.drop_first()[i - 1]);
                }
            }
        }
    }
}

pub proof fn lemma_index_of_first_match(s: Seq<SeriesModel>, name: Seq<char>, i: int)
    requires
        0 <= i < s.len(),
        s[i].name == name,
        forall|j: int| 0 <= j < i ==> s[j].name != name,
    ensures
        index_of(s, name) == i,
    decreases s.len(),
{
    if i > 0 {
        assert(forall|j: int|
            0 <= j < i - 1 ==> s.drop_first()[j] == s[j + 1] && s[j + 1].name != name);
        assert(s.drop_first()[i - 1] == s[i]);
        lemma_index_of_first_match(s.drop_first(), name, i - 1);
    }
}

pub proof fn lemma_index_of_push(s: Seq<SeriesModel>, name: Seq<char>, x: SeriesModel)
    ensures
        index_of(s.push(x), name) == if has_series(s, name) {
            index_of(s, name)
        } else if x.name == name {
            s.len() as int
        } else {
            -1
        },
    decreases s.len(),
{
    if s.len() == 0 {
        assert(s.push(x)[0] == x);
        if x.name == name {
            assert(index_of(s.push(x), name) == 0);
            assert(index_of(s, name) == -1);
        } else {
            assert(s.push(x).drop_first() =~= Seq::<SeriesModel>::empty());
            assert(index_of(s.push(x).drop_first(), name) == -1);
            assert(index_of(s.push(x), name) == -1);
        }
    } else {
        assert(s.push(x)[0] == s[0]);
        if s[0].name != name {
            assert(s.push(x).drop_first() =~= s.drop_first().push(x));
            lemma_index_of_push(s.drop_first(), name, x);
            assert(index_of(s.push(x), name) == if index_of(s.drop_first().push(x), name) < 0 {
                -1
            } else {
                index_of(s.drop_first().push(x), name) + 1
            });
        }
    }
}

pub proof fn lemma_index_of_update(s: Seq<SeriesModel>, name: Seq<char>, i: int, x: SeriesModel)
    requires
        0 <= i < s.len(),
        x.name == s[i].name,
    ensures
        index_of(s.update(i, x), name) == index_of(s, name),
    decreases s.len(),
{
    if i == 0 {
        if s[0].name != name {
            assert(s.update(0, x).drop_first() =~= s.drop_first());
        }
    } else {
        assert(s.update(i, x)[0] == s[0]);
        if s[0].name != name {
            assert(s.update(i, x).drop_first() =~= s.drop_first().update(i - 1, x));
            lemma_index_of_update(s.drop_first(), name, i - 1, x);
        }
    }
}

/// Registration keeps names unique: a found name adds nothing, a new name
/// is new.
pub proof fn lemma_register_preserves_unique(
    s: Seq<SeriesModel>,
    name: Seq<char>,
    description: Seq<char>,
)
    requires
        unique_names(s),
    ensures
        unique_names(register_spec(s, name, description).0),
        unique_names(bump_spec(s, name, description)),
{
    lemma_index_of_props(s, name);
    let (s1, i) = register_spec(s, name, description);
    if !has_series(s, name) {
        assert(forall|j: int| 0 <= j < s.len() ==> s1[j] == s[j]);
        assert(unique_names(s1));
    }
    lemma_index_of_props(s1, name);
    let s2 = add_spec(s1, i, 1);
    assert(forall|j: int| 0 <= j < s1.len() ==> s2[j].name == s1[j].name);
    assert(unique_names(s2));
}

/// Law: registering a counter twice under one name returns the same
/// handle both times, and the second registration leaves the registry
/// exactly as it was — repeated registration never creates a duplicate
/// series.
pub proof fn lemma_register_idempotent(
    s: Seq<SeriesModel>,
    name: Seq<char>,
    description: Seq<char>,
)
    ensures
        ({
            let (s1, i1) = register_spec(s, name, description);
            let (s2, i2) = register_spec(s1, name, description);
            s2 == s1 && i2 == i1
        }),
{
    if !has_series(s, name) {
        lemma_index_of_push(s, name, SeriesModel { name, description, value: 0 });
    }
}

/// Law: one instrumented request raises the named counter by exactly one
/// (saturating only at the largest representable value), never lowers
/// it, and leaves the value of every other counter unchanged.
pub proof fn lemma_bump_increments(s: Seq<SeriesModel>, name: Seq<char>, description: Seq<char>)
    ensures
        counter_value(bump_spec(s, name, description), name) == sat_add(
            counter_value(s, name),
            1,
        ),
        counter_value(bump_spec(s, name, description), name) >= counter_value(s, name),
        forall|other: Seq<char>|
            other != name ==> counter_value(bump_spec(s, name, description), other)
                == counter_value(s, other),
{
    let (s1, i) = register_spec(s, name, description);
    let fresh = SeriesModel { name, description, value: 0 };
    lemma_index_of_props(s, name);
    if !has_series(s, name) {
        lemma_index_of_push(s, name, fresh);
    }
    assert(index_of(s1, name) == i);
    lemma_index_of_props(s1, name);
    let upd = SeriesModel { value: sat_add(s1[i].value, 1), ..s1[i] };
    lemma_index_of_update(s1, name, i, upd);
    assert(counter_value(bump_spec(s, name, description), name) == sat_add(
        counter_value(s, name),
        1,
    ));
    assert forall|other: Seq<char>|
        other != name implies counter_value(bump_spec(s, name, description), other)
        == counter_value(s, other) by {
        lemma_index_of_props(s, other);
        if !has_series(s, name) {
            lemma_index_of_push(s, other, fresh);
        }
        lemma_index_of_update(s1, other, i, upd);
        lemma_index_of_props(s1, other);
        lemma_index_of_props(add_spec(s1, i, 1), other);
    }
}

/// How the registry looks after `n` separate increments of one on the
/// series at position `i`, in the order the scheduler serialized them.
pub open spec fn add_n_spec(s: Seq<SeriesModel>, i: int, n: nat) -> Seq<SeriesModel>
    decreases n,
{
    if n == 0 {
        s
    } else {
        add_spec(add_n_spec(s, i, (n - 1) as nat), i, 1)
    }
}

/// Law: `n` increments of one on a counter — one per concurrent caller,
/// in whatever order they were serialized — leave the counter at exactly
/// its old value plus `n` while that sum is representable: no update is
/// lost. Every other series is untouched.
pub proof fn lemma_add_n_accumulates(s: Seq<SeriesModel>, i: int, n: nat)
    requires
        0 <= i < s.len(),
        s[i].value + n <= u64::MAX,
    ensures
        add_n_spec(s, i, n).len() == s.len(),
        add_n_spec(s, i, n)[i].value == s[i].value + n,
        add_n_spec(s, i, n)[i].name == s[i].name,
        add_n_spec(s, i, n)[i].description == s[i].description,
        forall|j: int| 0 <= j < s.len() && j != i ==> add_n_spec(s, i, n)[j] == s[j],
    decreases n,
{
    if n > 0 {
        lemma_add_n_accumulates(s, i, (n - 1) as nat);
    }
}

impl MetricsRegistry {
    /// The registry's invariant: every series name occurs once.
    pub open spec fn wf(&self) -> bool {
        unique_names(self@)
    }

    /// A fresh registry with no instruments.
    pub fn new() -> (r: Self)
        ensures
            r.wf(),
            r@ == Seq::<SeriesModel>::empty(),
    {
        let r = MetricsRegistry { series: Vec::new() };
        proof {
            assert(r@ =~= Seq::<SeriesModel>::empty());
        }
        r
    }

    /// Registers (or retrieves) the counter named `name` under the given
    /// meter: an existing series is handed out unchanged, a fresh one
    /// starts at zero. Only one series ever exists per name.
    pub fn counter(&mut self, meter: &Meter, name: &str, description: &str) -> (h: CounterHandle)
        requires
            old(self).wf(),
        ensures
            final(self).wf(),
            (final(self)@, h.idx as int) == register_spec(old(self)@, name@, description@),
            h.idx < final(self)@.len(),
            final(self)@[h.idx as int].name == name@,
    {
        proof {
            lemma_register_preserves_unique(old(self)@, name@, description@);
            lemma_index_of_props(old(self)@, name@);
        }
        let key: String = name.to_owned();
        let n = self.series.len();
        let mut i: usize = 0;
        while i < n
            invariant
                i <= n,
                n == self.series@.len(),
                *self == *old(self),
                old(self).wf(),
                key@ == name@,
                forall|j: int| 0 <= j < i ==> self@[j].name != name@,
            decreases n - i,
        {
            if self.series[i].name == key {
                proof {
                    lemma_index_of_first_match(self@, name@, i as int);
                }
                return CounterHandle { idx: i };
            }
            i = i + 1;
        }
        self.series.push(
            CounterSeries { name: key, description: description.to_owned(), value: 0 },
        );
        proof {
            assert(self@ =~= old(self)@.push(
                SeriesModel { name: name@, description: description@, value: 0 },
            ));
        }
        CounterHandle { idx: n }
    }

    /// Atomically increments the series behind `h` by `delta`, saturating
    /// at the largest representable value; no other series changes.
    pub fn add(&mut self, h: CounterHandle, delta: u64)
        requires
            old(self).wf(),
            h.idx < old(self)@.len(),
        ensures
            final(self).wf(),
            final(self)@ == add_spec(old(self)@, h.idx as int, delta),
    {
        let v = self.series[h.idx].value;
        let nv = if delta > u64::MAX - v {
            u64::MAX
        } else {
            v + delta
        };
        self.series[h.idx].value = nv;
        proof {
            assert(self@ =~= add_spec(old(self)@, h.idx as int, delta));
            assert(forall|a: int, b: int|
                0 <= a < b < self@.len() ==> self@[a].name == old(self)@[a].name && self@[b].name
                    == old(self)@[b].name);
        }
    }

    /// Reads the current value of the series behind `h`.
    pub fn value(&self, h: CounterHandle) -> (v: u64)
        requires
            h.idx < self@.len(),
        ensures
            v == self@[h.idx as int].value,
    {
        self.series[h.idx].value
    }

    /// Produces a point-in-time snapshot: an immutable copy of every
    /// series and its current value.
    pub fn gather(&self) -> (snap: MetricsSnapshot)
        ensures
            snap@ == self@,
    {
        let n = self.series.len();
        let mut families: Vec<CounterSeries> = Vec::new();
        let mut i: usize = 0;
        while i < n
            invariant
                i <= n,
                n == self.series@.len(),
                families@.len() == i,
                forall|j: int| 0 <= j < i ==> families@[j]@ == self@[j],
            decreases n - i,
        {
            let name = self.series[i].name.clone();
            let description = self.series[i].description.clone();
            let value = self.series[i].value;
            families.push(CounterSeries { name, description, value });
            i = i + 1;
        }
        let snap = MetricsSnapshot { families };
        proof {
            assert(snap@ =~= self@);
        }
        snap
    }
}

} // verus!
