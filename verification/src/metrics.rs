//! The metrics registry: named counters, counter-vectors labeled by one
//! dimension, and a line-oriented text exposition of both.
//!
//! Counters are registered once at process start and only ever grow; an
//! increment never fails. A counter at the numeric ceiling stays there, so
//! incrementing is total. The registry is an ordinary value: the embedder
//! decides how to share it between concurrent request handlers, and the
//! exposition is a pure read of a snapshot.

use vstd::prelude::*;

use crate::bytes::{append_bytes, bytes_eq, copy_bytes};
use vstd::string::StrSliceExecFns;
use vstd::string::StringSliceAdditionalSpecFns;

verus! {

/// A named counter with its help line.
pub struct Counter {
    pub name: Vec<u8>,
    pub help: Vec<u8>,
    pub value: u64,
}

/// What a `Counter` means.
pub struct CounterModel {
    pub name: Seq<u8>,
    pub help: Seq<u8>,
    pub value: u64,
}

impl View for Counter {
    type V = CounterModel;

    open spec fn view(&self) -> CounterModel {
        CounterModel { name: self.name@, help: self.help@, value: self.value }
    }
}

/// One observed label value of a counter-vector, with its count.
pub struct LabeledValue {
    pub label: Vec<u8>,
    pub value: u64,
}

/// What a `LabeledValue` means.
pub struct LabelModel {
    pub label: Seq<u8>,
    pub value: u64,
}

impl View for LabeledValue {
    type V = LabelModel;

    open spec fn view(&self) -> LabelModel {
        LabelModel { label: self.label@, value: self.value }
    }
}

/// A named family of counters, one per observed value of a single label.
pub struct CounterVec {
    pub name: Vec<u8>,
    pub help: Vec<u8>,
    pub label_key: Vec<u8>,
    pub entries: Vec<LabeledValue>,
}

/// What a `CounterVec` means.
pub struct CounterVecModel {
    pub name: Seq<u8>,
    pub help: Seq<u8>,
    pub label_key: Seq<u8>,
    pub entries: Seq<LabelModel>,
}

impl View for CounterVec {
    type V = CounterVecModel;

    open spec fn view(&self) -> CounterVecModel {
        CounterVecModel {
            name: self.name@,
            help: self.help@,
            label_key: self.label_key@,
            entries: self.entries@.map_values(|e: LabeledValue| e@),
        }
    }
}

/// The process-wide registry: plain counters first, counter-vectors after.
pub struct MetricsRegistry {
    pub counters: Vec<Counter>,
    pub vectors: Vec<CounterVec>,
}

/// What a `MetricsRegistry` means.
pub struct RegistryModel {
    pub counters: Seq<CounterModel>,
    pub vectors: Seq<CounterVecModel>,
}

impl View for MetricsRegistry {
    type V = RegistryModel;

    open spec fn view(&self) -> RegistryModel {
        RegistryModel {
            counters: self.counters@.map_values(|c: Counter| c@),
            vectors: self.vectors@.map_values(|v: CounterVec| v@),
        }
    }
}

/// One step of a counter: up by one, except at the ceiling, where it stays.
pub open spec fn bump(v: u64) -> u64 {
    if v < u64::MAX {
        (v + 1) as u64
    } else {
        v
    }
}

/// Incrementing the counters named `name`: every such counter is bumped,
/// everything else is untouched.
pub open spec fn spec_inc(m: RegistryModel, name: Seq<u8>) -> RegistryModel {
    RegistryModel {
        counters: m.counters.map_values(
            |c: CounterModel|
                if c.name == name {
                    CounterModel { name: c.name, help: c.help, value: bump(c.value) }
                } else {
                    c
                },
        ),
        vectors: m.vectors,
    }
}

/// Whether some entry carries `label`.
pub open spec fn has_label(es: Seq<LabelModel>, label: Seq<u8>) -> bool {
    exists|j: int| 0 <= j < es.len() && es[j].label == label
}

/// Incrementing `label` in a vector's entries: a present label is bumped in
/// place, an absent one is appended with count one.
pub open spec fn spec_inc_entries(es: Seq<LabelModel>, label: Seq<u8>) -> Seq<LabelModel> {
    if has_label(es, label) {
        es.map_values(
            |e: LabelModel|
                if e.label == label {
                    LabelModel { label: e.label, value: bump(e.value) }
                } else {
                    e
                },
        )
    } else {
        es.push(LabelModel { label, value: 1 })
    }
}

/// Incrementing `label` in the counter-vectors named `name`.
pub open spec fn spec_inc_labeled(m: RegistryModel, name: Seq<u8>, label: Seq<u8>) -> RegistryModel {
    RegistryModel {
        counters: m.counters,
        vectors: m.vectors.map_values(
            |v: CounterVecModel|
                if v.name == name {
                    CounterVecModel {
                        name: v.name,
                        help: v.help,
                        label_key: v.label_key,
                        entries: spec_inc_entries(v.entries, label),
                    }
                } else {
                    v
                },
        ),
    }
}

/// The value of the first counter named `name`.
pub open spec fn spec_counter_value(cs: Seq<CounterModel>, name: Seq<u8>) -> Option<u64>
    decreases cs.len(),
{
    if cs.len() == 0 {
        None
    } else if cs[0].name == name {
        Some(cs[0].value)
    } else {
        spec_counter_value(cs.drop_first(), name)
    }
}

/// The entries of the first counter-vector named `name`.
pub open spec fn spec_vector_entries(vs: Seq<CounterVecModel>, name: Seq<u8>) -> Option<
    Seq<LabelModel>,
>
    decreases vs.len(),
{
    if vs.len() == 0 {
        None
    } else if vs[0].name == name {
        Some(vs[0].entries)
    } else {
        spec_vector_entries(vs.drop_first(), name)
    }
}

/// The count of the first entry carrying `label`.
pub open spec fn spec_label_value(es: Seq<LabelModel>, label: Seq<u8>) -> Option<u64>
    decreases es.len(),
{
    if es.len() == 0 {
        None
    } else if es[0].label == label {
        Some(es[0].value)
    } else {
        spec_label_value(es.drop_first(), label)
    }
}

proof fn lemma_counter_value_at(cs: Seq<CounterModel>, name: Seq<u8>, i: int)
    requires
        0 <= i < cs.len(),
        cs[i].name == name,
        forall|j: int| 0 <= j < i ==> (#[trigger] cs[j]).name != name,
    ensures
        spec_counter_value(cs, name) == Some(cs[i].value),
    decreases i,
{
    if i > 0 {
        assert(forall|j: int|
            0 <= j < i - 1 ==> (#[trigger] cs.drop_first()[j]).name != name && cs.drop_first()[j]
                == cs[j + 1]);
        lemma_counter_value_at(cs.drop_first(), name, i - 1);
    }
}

proof fn lemma_counter_value_absent(cs: Seq<CounterModel>, name: Seq<u8>)
    requires
        forall|j: int| 0 <= j < cs.len() ==> (#[trigger] cs[j]).name != name,
    ensures
        spec_counter_value(cs, name) is None,
    decreases cs.len(),
{
    if cs.len() > 0 {
        assert(forall|j: int|
            0 <= j < cs.drop_first().len() ==> (#[trigger] cs.drop_first()[j]) == cs[j + 1]);
        lemma_counter_value_absent(cs.drop_first(), name);
    }
}

proof fn lemma_vector_entries_at(vs: Seq<CounterVecModel>, name: Seq<u8>, i: int)
    requires
        0 <= i < vs.len(),
        vs[i].name == name,
        forall|j: int| 0 <= j < i ==> (#[trigger] vs[j]).name != name,
    ensures
        spec_vector_entries(vs, name) == Some(vs[i].entries),
    decreases i,
{
    if i > 0 {
        assert(forall|j: int|
            0 <= j < i - 1 ==> (#[trigger] vs.drop_first()[j]).name != name && vs.drop_first()[j]
                == vs[j + 1]);
        lemma_vector_entries_at(vs.drop_first(), name, i - 1);
    }
}

proof fn lemma_vector_entries_absent(vs: Seq<CounterVecModel>, name: Seq<u8>)
    requires
        forall|j: int| 0 <= j < vs.len() ==> (#[trigger] vs[j]).name != name,
    ensures
        spec_vector_entries(vs, name) is None,
    decreases vs.len(),
{
    if vs.len() > 0 {
        assert(forall|j: int|
            0 <= j < vs.drop_first().len() ==> (#[trigger] vs.drop_first()[j]) == vs[j + 1]);
        lemma_vector_entries_absent(vs.drop_first(), name);
    }
}

proof fn lemma_label_value_at(es: Seq<LabelModel>, label: Seq<u8>, i: int)
    requires
        0 <= i < es.len(),
        es[i].label == label,
        forall|j: int| 0 <= j < i ==> (#[trigger] es[j]).label != label,
    ensures
        spec_label_value(es, label) == Some(es[i].value),
    decreases i,
{
    if i > 0 {
        assert(forall|j: int|
            0 <= j < i - 1 ==> (#[trigger] es.drop_first()[j]).label != label && es.drop_first()[j]
                == es[j + 1]);
        lemma_label_value_at(es.drop_first(), label, i - 1);
    }
}

proof fn lemma_label_value_absent(es: Seq<LabelModel>, label: Seq<u8>)
    requires
        forall|j: int| 0 <= j < es.len() ==> (#[trigger] es[j]).label != label,
    ensures
        spec_label_value(es, label) is None,
    decreases es.len(),
{
    if es.len() > 0 {
        assert(forall|j: int|
            0 <= j < es.drop_first().len() ==> (#[trigger] es.drop_first()[j]) == es[j + 1]);
        lemma_label_value_absent(es.drop_first(), label);
    }
}

impl MetricsRegistry {
    /// An empty registry.
    pub fn new() -> (r: MetricsRegistry)
        ensures
            r@.counters == Seq::<CounterModel>::empty(),
            r@.vectors == Seq::<CounterVecModel>::empty(),
    {
        let r = MetricsRegistry { counters: Vec::new(), vectors: Vec::new() };
        assert(r@.counters =~= Seq::<CounterModel>::empty());
        assert(r@.vectors =~= Seq::<CounterVecModel>::empty());
        r
    }

    /// Registers a counter with its help line, starting at zero.
    pub fn register_counter(&mut self, name: Vec<u8>, help: Vec<u8>)
        ensures
            final(self)@.counters == old(self)@.counters.push(
                CounterModel { name: name@, help: help@, value: 0 },
            ),
            final(self)@.vectors == old(self)@.vectors,
    {
        let ghost before = self@.counters;
        self.counters.push(Counter { name, help, value: 0 });
        assert(self@.counters =~= before.push(self.counters@.last()@));
        assert(self@.vectors =~= old(self)@.vectors);
    }

    /// Registers a counter-vector labeled by `label_key`, with no observed
    /// label values yet.
    pub fn register_counter_vec(&mut self, name: Vec<u8>, help: Vec<u8>, label_key: Vec<u8>)
        ensures
            final(self)@.counters == old(self)@.counters,
            final(self)@.vectors == old(self)@.vectors.push(
                CounterVecModel {
                    name: name@,
                    help: help@,
                    label_key: label_key@,
                    entries: Seq::<LabelModel>::empty(),
                },
            ),
    {
        let ghost before = self@.vectors;
        self.vectors.push(CounterVec { name, help, label_key, entries: Vec::new() });
        assert(self.vectors@.last()@.entries =~= Seq::<LabelModel>::empty());
        assert(self@.vectors =~= before.push(self.vectors@.last()@));
        assert(self@.counters =~= old(self)@.counters);
    }

    /// Bumps every counter named `name`; a name nobody registered changes
    /// nothing. Never fails.
    #[verifier::rlimit(30)]
    pub fn increment(&mut self, name: &Vec<u8>)
        ensures
            final(self)@ == spec_inc(old(self)@, name@),
    {
        let n = self.counters.len();
        let mut i: usize = 0;
        while i < n
            invariant
                n == self.counters@.len() == old(self)@.counters.len(),
                i <= n,
                self@.vectors == old(self)@.vectors,
                forall|j: int|
                    i <= j < n ==> (#[trigger] self.counters@[j])@ == old(self)@.counters[j],
                forall|j: int|
                    0 <= j < i ==> (#[trigger] self.counters@[j])@ == (
                    if old(self)@.counters[j].name == name@ {
                        CounterModel {
                            name: old(self)@.counters[j].name,
                            help: old(self)@.counters[j].help,
                            value: bump(old(self)@.counters[j].value),
                        }
                    } else {
                        old(self)@.counters[j]
                    }),
            decreases n - i,
        {
            assert(self.counters@[i as int]@ == old(self)@.counters[i as int]);
            if bytes_eq(&self.counters[i].name, name) {
                let ghost pre = self.counters@;
                let v = self.counters[i].value;
                let nv = if v < u64::MAX {
                    v + 1
                } else {
                    v
                };
                self.counters[i].value = nv;
                assert(forall|j: int| 0 <= j < n && j != i ==> self.counters@[j] == pre[j]);
                assert(self.counters@[i as int]@ == CounterModel {
                    name: old(self)@.counters[i as int].name,
                    help: old(self)@.counters[i as int].help,
                    value: bump(old(self)@.counters[i as int].value),
                });
            }
            i += 1;
        }
        assert forall|j: int| 0 <= j < n implies self@.counters[j] == spec_inc(
            old(self)@,
            name@,
        ).counters[j] by {
            assert(self@.counters[j] == self.counters@[j]@);
        }
        assert(self@.counters =~= spec_inc(old(self)@, name@).counters);
        assert(self@.vectors =~= spec_inc(old(self)@, name@).vectors);
    }

    /// Bumps `label` in every counter-vector named `name`: a label already
    /// observed is bumped, a new one starts at one. Never fails.
    #[verifier::rlimit(30)]
    pub fn increment_labeled(&mut self, name: &Vec<u8>, label: &Vec<u8>)
        ensures
            final(self)@ == spec_inc_labeled(old(self)@, name@, label@),
    {
        let n = self.vectors.len();
        let mut i: usize = 0;
        while i < n
            invariant
                n == self.vectors@.len() == old(self)@.vectors.len(),
                i <= n,
                self@.counters == old(self)@.counters,
                forall|j: int|
                    i <= j < n ==> (#[trigger] self.vectors@[j])@ == old(self)@.vectors[j],
                forall|j: int|
                    0 <= j < i ==> (#[trigger] self.vectors@[j])@ == (
                    if old(self)@.vectors[j].name == name@ {
                        CounterVecModel {
                            name: old(self)@.vectors[j].name,
                            help: old(self)@.vectors[j].help,
                            label_key: old(self)@.vectors[j].label_key,
                            entries: spec_inc_entries(old(self)@.vectors[j].entries, label@),
                        }
                    } else {
                        old(self)@.vectors[j]
                    }),
            decreases n - i,
        {
            assert(self.vectors@[i as int]@ == old(self)@.vectors[i as int]);
            if bytes_eq(&self.vectors[i].name, name) {
                let ghost pre = self.vectors@;
                let mut cv = self.vectors.remove(i);
                assert(cv == pre[i as int]);
                inc_entries(&mut cv.entries, label);
                assert(cv.name@ == pre[i as int]@.name);
                assert(cv.entries@.map_values(|e: LabeledValue| e@) == spec_inc_entries(
                    pre[i as int]@.entries,
                    label@,
                ));
                self.vectors.insert(i, cv);
                assert(self.vectors@ =~= pre.update(i as int, cv));
                assert(forall|j: int| 0 <= j < n && j != i ==> self.vectors@[j] == pre[j]);
                assert(self.vectors@[i as int]@ == CounterVecModel {
                    name: old(self)@.vectors[i as int].name,
                    help: old(self)@.vectors[i as int].help,
                    label_key: old(self)@.vectors[i as int].label_key,
                    entries: spec_inc_entries(old(self)@.vectors[i as int].entries, label@),
                });
            }
            i += 1;
        }
        assert forall|j: int| 0 <= j < n implies self@.vectors[j] == spec_inc_labeled(
            old(self)@,
            name@,
            label@,
        ).vectors[j] by {
            assert(self@.vectors[j] == self.vectors@[j]@);
        }
        assert(self@.counters =~= spec_inc_labeled(old(self)@, name@, label@).counters);
        assert(self@.vectors =~= spec_inc_labeled(old(self)@, name@, label@).vectors);
    }

    /// Reads the value of the first counter named `name`.
    pub fn counter_value(&self, name: &Vec<u8>) -> (r: Option<u64>)
        ensures
            r == spec_counter_value(self@.counters, name@),
    {
        let n = self.counters.len();
        let mut i: usize = 0;
        while i < n
            invariant
                n == self@.counters.len(),
                i <= n,
                forall|j: int| 0 <= j < i ==> (#[trigger] self@.counters[j]).name != name@,
            decreases n - i,
        {
            if bytes_eq(&self.counters[i].name, name) {
                proof {
                    lemma_counter_value_at(self@.counters, name@, i as int);
                }
                return Some(self.counters[i].value);
            }
            i += 1;
        }
        proof {
            lemma_counter_value_absent(self@.counters, name@);
        }
        None
    }

    /// Reads the count of `label` in the first counter-vector named `name`:
    /// `None` when the vector is unknown or the label was never observed.
    pub fn labeled_value(&self, name: &Vec<u8>, label: &Vec<u8>) -> (r: Option<u64>)
        ensures
            r == (match spec_vector_entries(self@.vectors, name@) {
                Some(es) => spec_label_value(es, label@),
                None => None,
            }),
    {
        let n = self.vectors.len();
        let mut i: usize = 0;
        while i < n
            invariant
                n == self@.vectors.len(),
                i <= n,
                forall|j: int| 0 <= j < i ==> (#[trigger] self@.vectors[j]).name != name@,
            decreases n - i,
        {
            if bytes_eq(&self.vectors[i].name, name) {
                proof {
                    lemma_vector_entries_at(self@.vectors, name@, i as int);
                }
                return label_value_in(&self.vectors[i].entries, label);
            }
            i += 1;
        }
        proof {
            lemma_vector_entries_absent(self@.vectors, name@);
        }
        None
    }
}

/// Reads the count of the first entry carrying `label`.
fn label_value_in(entries: &Vec<LabeledValue>, label: &Vec<u8>) -> (r: Option<u64>)
    ensures
        r == spec_label_value(entries@.map_values(|e: LabeledValue| e@), label@),
{
    let ghost es = entries@.map_values(|e: LabeledValue| e@);
    let n = entries.len();
    let mut k: usize = 0;
    while k < n
        invariant
            n == entries@.len(),
            es == entries@.map_values(|e: LabeledValue| e@),
            k <= n,
            forall|j: int| 0 <= j < k ==> (#[trigger] es[j]).label != label@,
        decreases n - k,
    {
        if bytes_eq(&entries[k].label, label) {
            proof {
                lemma_label_value_at(es, label@, k as int);
            }
            return Some(entries[k].value);
        }
        k += 1;
    }
    proof {
        lemma_label_value_absent(es, label@);
    }
    None
}

/// Bumps `label` among `entries`, appending it with count one when absent.
fn inc_entries(entries: &mut Vec<LabeledValue>, label: &Vec<u8>)
    ensures
        final(entries)@.map_values(|e: LabeledValue| e@) == spec_inc_entries(
            old(entries)@.map_values(|e: LabeledValue| e@),
            label@,
        ),
{
    let ghost before = old(entries)@.map_values(|e: LabeledValue| e@);
    let n = entries.len();
    let mut i: usize = 0;
    let mut found = false;
    while i < n
        invariant
            n == entries@.len() == before.len(),
            i <= n,
            found == exists|j: int| 0 <= j < i && (#[trigger] before[j]).label == label@,
            forall|j: int| i <= j < n ==> (#[trigger] entries@[j])@ == before[j],
            forall|j: int|
                0 <= j < i ==> (#[trigger] entries@[j])@ == (
                if before[j].label == label@ {
                    LabelModel { label: before[j].label, value: bump(before[j].value) }
                } else {
                    before[j]
                }),
        decreases n - i,
    {
        if bytes_eq(&entries[i].label, label) {
            let v = entries[i].value;
            let nv = if v < u64::MAX {
                v + 1
            } else {
                v
            };
            entries[i].value = nv;
            found = true;
            assert(before[i as int].label == label@);
        }
        i += 1;
    }
    if found {
        assert(has_label(before, label@));
        assert(entries@.map_values(|e: LabeledValue| e@) =~= spec_inc_entries(before, label@));
    } else {
        assert(!has_label(before, label@));
        entries.push(LabeledValue { label: copy_bytes(label), value: 1 });
        assert(entries@.map_values(|e: LabeledValue| e@) =~= before.push(
            LabelModel { label: label@, value: 1 },
        ));
    }
}

/// The decimal digits of `n`, most significant first.
pub open spec fn dec_digits(n: nat) -> Seq<u8>
    decreases n,
{
    if n < 10 {
        seq![(48 + n) as u8]
    } else {
        dec_digits(n / 10).push((48 + (n % 10)) as u8)
    }
}

/// Appends the decimal rendering of `n` to `out`.
pub fn push_dec(out: &mut Vec<u8>, n: u64)
    ensures
        final(out)@ == old(out)@ + dec_digits(n as nat),
    decreases n,
{
    if n < 10 {
        out.push(48 + (n as u8));
        assert(final(out)@ =~= old(out)@ + dec_digits(n as nat));
    } else {
        push_dec(out, n / 10);
        out.push(48 + ((n % 10) as u8));
        assert(final(out)@ =~= old(out)@ + dec_digits(n as nat));
    }
}

/// Appends an ASCII literal to `out`.
fn append_lit(out: &mut Vec<u8>, s: &str)
    ensures
        final(out)@ == old(out)@ + s.spec_bytes(),
{
    let v = s.as_bytes_vec();
    append_bytes(out, &v);
}

/// The three exposition lines of one plain counter.
pub open spec fn spec_render_counter(c: CounterModel) -> Seq<u8> {
    ("# HELP ").spec_bytes() + c.name + (" ").spec_bytes() + c.help + ("\n# TYPE ").spec_bytes()
        + c.name + (" counter\n").spec_bytes() + c.name + (" ").spec_bytes() + dec_digits(
        c.value as nat,
    ) + ("\n").spec_bytes()
}

/// One exposition line of a labeled count.
pub open spec fn spec_render_entry(name: Seq<u8>, key: Seq<u8>, e: LabelModel) -> Seq<u8> {
    name + ("{").spec_bytes() + key + ("=\"").spec_bytes() + e.label + ("\"} ").spec_bytes()
        + dec_digits(e.value as nat) + ("\n").spec_bytes()
}

/// The exposition lines of a vector's entries, in observation order.
pub open spec fn spec_render_entries(name: Seq<u8>, key: Seq<u8>, es: Seq<LabelModel>) -> Seq<u8>
    decreases es.len(),
{
    if es.len() == 0 {
        Seq::empty()
    } else {
        spec_render_entries(name, key, es.drop_last()) + spec_render_entry(name, key, es.last())
    }
}

/// The exposition block of one counter-vector: its help and type lines, then
/// one line per observed label value.
pub open spec fn spec_render_vector(v: CounterVecModel) -> Seq<u8> {
    ("# HELP ").spec_bytes() + v.name + (" ").spec_bytes() + v.help + ("\n# TYPE ").spec_bytes()
        + v.name + (" counter\n").spec_bytes() + spec_render_entries(v.name, v.label_key, v.entries)
}

/// The exposition blocks of all plain counters, in registration order.
pub open spec fn spec_render_counters(cs: Seq<CounterModel>) -> Seq<u8>
    decreases cs.len(),
{
    if cs.len() == 0 {
        Seq::empty()
    } else {
        spec_render_counters(cs.drop_last()) + spec_render_counter(cs.last())
    }
}

/// The exposition blocks of all counter-vectors, in registration order.
pub open spec fn spec_render_vectors(vs: Seq<CounterVecModel>) -> Seq<u8>
    decreases vs.len(),
{
    if vs.len() == 0 {
        Seq::empty()
    } else {
        spec_render_vectors(vs.drop_last()) + spec_render_vector(vs.last())
    }
}

/// The whole exposition: plain counters first, then counter-vectors.
pub open spec fn spec_render(m: RegistryModel) -> Seq<u8> {
    spec_render_counters(m.counters) + spec_render_vectors(m.vectors)
}

/// Appends the exposition block of one plain counter.
fn render_counter_into(out: &mut Vec<u8>, c: &Counter)
    ensures
        final(out)@ == old(out)@ + spec_render_counter(c@),
{
    append_lit(out, "# HELP ");
    append_bytes(out, &c.name);
    append_lit(out, " ");
    append_bytes(out, &c.help);
    append_lit(out, "\n# TYPE ");
    append_bytes(out, &c.name);
    append_lit(out, " counter\n");
    append_bytes(out, &c.name);
    append_lit(out, " ");
    push_dec(out, c.value);
    append_lit(out, "\n");
    assert(final(out)@ =~= old(out)@ + spec_render_counter(c@));
}

/// Appends the exposition line of one labeled count.
fn render_entry_into(out: &mut Vec<u8>, name: &Vec<u8>, key: &Vec<u8>, e: &LabeledValue)
    ensures
        final(out)@ == old(out)@ + spec_render_entry(name@, key@, e@),
{
    append_bytes(out, name);
    append_lit(out, "{");
    append_bytes(out, key);
    append_lit(out, "=\"");
    append_bytes(out, &e.label);
    append_lit(out, "\"} ");
    push_dec(out, e.value);
    append_lit(out, "\n");
    assert(final(out)@ =~= old(out)@ + spec_render_entry(name@, key@, e@));
}

/// Appends the exposition block of one counter-vector.
fn render_vector_into(out: &mut Vec<u8>, v: &CounterVec)
    ensures
        final(out)@ == old(out)@ + spec_render_vector(v@),
{
    append_lit(out, "# HELP ");
    append_bytes(out, &v.name);
    append_lit(out, " ");
    append_bytes(out, &v.help);
    append_lit(out, "\n# TYPE ");
    append_bytes(out, &v.name);
    append_lit(out, " counter\n");
    let ghost header_done = out@;
    let ghost es = v@.entries;
    let n = v.entries.len();
    let mut k: usize = 0;
    while k < n
        invariant
            n == v.entries@.len(),
            es == v@.entries,
            es.len() == n,
            k <= n,
            out@ == header_done + spec_render_entries(v@.name, v@.label_key, es.take(k as int)),
        decreases n - k,
    {
        assert(v.entries@[k as int]@ == es[k as int]);
        render_entry_into(out, &v.name, &v.label_key, &v.entries[k]);
        assert(es.take(k + 1).drop_last() =~= es.take(k as int));
        assert(es.take(k + 1).last() == es[k as int]);
        assert(out@ =~= header_done + spec_render_entries(v@.name, v@.label_key, es.take(k + 1)));
        k += 1;
    }
    assert(es.take(n as int) =~= es);
    assert(final(out)@ =~= old(out)@ + spec_render_vector(v@));
}

impl MetricsRegistry {
    /// Renders every registered counter in the stable text exposition
    /// format: a `# HELP` and `# TYPE` pair per metric, then its value
    /// lines, vectors rendering one line per observed label value.
    pub fn snapshot_text(&self) -> (r: Vec<u8>)
        ensures
            r@ == spec_render(self@),
    {
        let mut out: Vec<u8> = Vec::new();
        assert(out@ =~= Seq::<u8>::empty() + spec_render_counters(self@.counters.take(0)));
        let n = self.counters.len();
        let mut i: usize = 0;
        while i < n
            invariant
                n == self.counters@.len(),
                i <= n,
                out@ == spec_render_counters(self@.counters.take(i as int)),
            decreases n - i,
        {
            assert(self.counters@[i as int]@ == self@.counters[i as int]);
            render_counter_into(&mut out, &self.counters[i]);
            assert(self@.counters.take(i + 1).drop_last() =~= self@.counters.take(i as int));
            assert(self@.counters.take(i + 1).last() == self@.counters[i as int]);
            i += 1;
        }
        assert(self@.counters.take(n as int) =~= self@.counters);
        let ghost counters_done = out@;
        let m = self.vectors.len();
        let mut k: usize = 0;
        while k < m
            invariant
                m == self.vectors@.len(),
                k <= m,
                out@ == counters_done + spec_render_vectors(self@.vectors.take(k as int)),
            decreases m - k,
        {
            assert(self.vectors@[k as int]@ == self@.vectors[k as int]);
            render_vector_into(&mut out, &self.vectors[k]);
            assert(self@.vectors.take(k + 1).drop_last() =~= self@.vectors.take(k as int));
            assert(self@.vectors.take(k + 1).last() == self@.vectors[k as int]);
            assert(out@ =~= counters_done + spec_render_vectors(self@.vectors.take(k + 1)));
            k += 1;
        }
        assert(self@.vectors.take(m as int) =~= self@.vectors);
        assert(out@ =~= spec_render(self@));
        out
    }
}

/// The name of the counter of all requests the gateway handled.
pub open spec fn http_total_name() -> Seq<u8> {
    ("http_requests_total").spec_bytes()
}

/// The name of the counter of search requests sent upstream.
pub open spec fn search_total_name() -> Seq<u8> {
    ("search_queries_total").spec_bytes()
}

/// The name of the counter-vector of search requests by language.
pub open spec fn by_language_name() -> Seq<u8> {
    ("search_queries_by_language_total").spec_bytes()
}

/// The name of the counter of all requests, as bytes.
pub fn http_total_bytes() -> (r: Vec<u8>)
    ensures
        r@ == http_total_name(),
{
    ("http_requests_total").as_bytes_vec()
}

/// The name of the search counter, as bytes.
pub fn search_total_bytes() -> (r: Vec<u8>)
    ensures
        r@ == search_total_name(),
{
    ("search_queries_total").as_bytes_vec()
}

/// The name of the by-language counter-vector, as bytes.
pub fn by_language_bytes() -> (r: Vec<u8>)
    ensures
        r@ == by_language_name(),
{
    ("search_queries_by_language_total").as_bytes_vec()
}

/// The registry the gateway starts with: the request counter, the search
/// counter, and the by-language search vector, all at zero.
pub fn standard_registry() -> (r: MetricsRegistry)
    ensures
        r@.counters =~= seq![
            (CounterModel {
                name: http_total_name(),
                help: ("Total number of HTTP requests handled by the frontend server").spec_bytes(),
                value: 0,
            }),
            (CounterModel {
                name: search_total_name(),
                help: ("Total number of search queries made via the frontend").spec_bytes(),
                value: 0,
            }),
        ],
        r@.vectors =~= seq![
            (CounterVecModel {
                name: by_language_name(),
                help: ("Number of search queries made per language").spec_bytes(),
                label_key: ("language").spec_bytes(),
                entries: Seq::<LabelModel>::empty(),
            }),
        ],
{
    let mut r = MetricsRegistry::new();
    r.register_counter(
        ("http_requests_total").as_bytes_vec(),
        ("Total number of HTTP requests handled by the frontend server").as_bytes_vec(),
    );
    r.register_counter(
        ("search_queries_total").as_bytes_vec(),
        ("Total number of search queries made via the frontend").as_bytes_vec(),
    );
    r.register_counter_vec(
        ("search_queries_by_language_total").as_bytes_vec(),
        ("Number of search queries made per language").as_bytes_vec(),
        ("language").as_bytes_vec(),
    );
    r
}

/// `n` increments of the counters named `name`, one after the other.
pub open spec fn spec_inc_n(m: RegistryModel, name: Seq<u8>, n: nat) -> RegistryModel
    decreases n,
{
    if n == 0 {
        m
    } else {
        spec_inc(spec_inc_n(m, name, (n - 1) as nat), name)
    }
}

/// `n` labeled increments of the counter-vectors named `name`, one after the
/// other, all with the same `label`.
pub open spec fn spec_inc_labeled_n(m: RegistryModel, name: Seq<u8>, label: Seq<u8>, n: nat) -> RegistryModel
    decreases n,
{
    if n == 0 {
        m
    } else {
        spec_inc_labeled(spec_inc_labeled_n(m, name, label, (n - 1) as nat), name, label)
    }
}

/// Law: `n` increments of `name` raise a counter so named by exactly `n`
/// while it stays below the ceiling, leave every differently named counter
/// alone, and leave every counter-vector alone.
pub proof fn lemma_inc_n_adds_n(m: RegistryModel, name: Seq<u8>, n: nat, ci: int)
    requires
        0 <= ci < m.counters.len(),
        m.counters[ci].name == name,
        m.counters[ci].value + n <= u64::MAX,
    ensures
        spec_inc_n(m, name, n).counters.len() == m.counters.len(),
        spec_inc_n(m, name, n).counters[ci].name == name,
        spec_inc_n(m, name, n).counters[ci].help == m.counters[ci].help,
        spec_inc_n(m, name, n).counters[ci].value == m.counters[ci].value + n,
        forall|j: int|
            0 <= j < m.counters.len() && (#[trigger] m.counters[j]).name != name ==> spec_inc_n(
                m,
                name,
                n,
            ).counters[j] == m.counters[j],
        spec_inc_n(m, name, n).vectors == m.vectors,
    decreases n,
{
    if n > 0 {
        lemma_inc_n_adds_n(m, name, (n - 1) as nat, ci);
        let prev = spec_inc_n(m, name, (n - 1) as nat);
        assert(spec_inc_n(m, name, n) == spec_inc(prev, name));
        assert(spec_inc(prev, name).counters[ci].value == bump(prev.counters[ci].value));
    }
}

/// Law: `n` labeled increments with the same label raise an existing entry
/// for that label by exactly `n` while it stays below the ceiling, leave
/// entries with other labels alone, leave differently named vectors alone,
/// and leave every plain counter alone.
pub proof fn lemma_inc_labeled_n_adds_n(
    m: RegistryModel,
    name: Seq<u8>,
    label: Seq<u8>,
    n: nat,
    vi: int,
    ei: int,
)
    requires
        0 <= vi < m.vectors.len(),
        m.vectors[vi].name == name,
        0 <= ei < m.vectors[vi].entries.len(),
        m.vectors[vi].entries[ei].label == label,
        m.vectors[vi].entries[ei].value + n <= u64::MAX,
    ensures
        spec_inc_labeled_n(m, name, label, n).vectors.len() == m.vectors.len(),
        spec_inc_labeled_n(m, name, label, n).vectors[vi].name == name,
        spec_inc_labeled_n(m, name, label, n).vectors[vi].entries.len() == m.vectors[vi].entries.len(),
        spec_inc_labeled_n(m, name, label, n).vectors[vi].entries[ei].label == label,
        spec_inc_labeled_n(m, name, label, n).vectors[vi].entries[ei].value == m.vectors[vi].entries[ei].value + n,
        forall|j: int|
            0 <= j < m.vectors[vi].entries.len() && (#[trigger] m.vectors[vi].entries[j]).label
                != label ==> spec_inc_labeled_n(m, name, label, n).vectors[vi].entries[j]
                == m.vectors[vi].entries[j],
        forall|w: int|
            0 <= w < m.vectors.len() && (#[trigger] m.vectors[w]).name != name
                ==> spec_inc_labeled_n(m, name, label, n).vectors[w] == m.vectors[w],
        spec_inc_labeled_n(m, name, label, n).counters == m.counters,
    decreases n,
{
    if n > 0 {
        lemma_inc_labeled_n_adds_n(m, name, label, (n - 1) as nat, vi, ei);
        let prev = spec_inc_labeled_n(m, name, label, (n - 1) as nat);
        assert(spec_inc_labeled_n(m, name, label, n) == spec_inc_labeled(prev, name, label));
        assert(has_label(prev.vectors[vi].entries, label));
        assert(spec_inc_labeled(prev, name, label).vectors[vi].entries[ei].value == bump(
            prev.vectors[vi].entries[ei].value,
        ));
    }
}


} // verus!
