//! The capability model: descriptions of the data formats a connection
//! point can carry, and their intersection.
//!
//! A capability is an ordered set of alternative structures; each structure
//! has a format-family name and a mapping from field keys to value
//! specifications (a fixed scalar, an enumerated set, or a numeric range).
//! A capability with zero structures is EMPTY and matches nothing; the
//! distinguished ANY capability matches everything. A capability denotes
//! the set of concrete formats it admits; intersection is proved to admit
//! exactly the formats admitted by both operands.

use vstd::prelude::*;

verus! {

use vstd::pervasive::unreached;

broadcast use vstd::seq_lib::lemma_seq_contains_after_push;

/// Format family carried by a structure.
#[derive(Clone, Copy, Debug, PartialEq, Eq, Structural)]
pub enum FormatName {
    AudioRaw,
    AudioCompressed,
    VideoRaw,
    VideoCompressed,
    Container,
    Text,
    Application,
}

/// Key of a structure field. `Custom` carries an application-chosen tag
/// for fields outside the common set.
#[derive(Clone, Copy, Debug, PartialEq, Eq, Structural)]
pub enum FieldKey {
    Rate,
    Channels,
    SampleFormat,
    Layout,
    Width,
    Height,
    Framerate,
    Depth,
    Custom(u32),
}

/// Mathematical model of a value specification.
#[verifier::ext_equal]
pub enum ValueView {
    Fixed(i64),
    Choices(Seq<i64>),
    Range(i64, i64),
}

impl ValueView {
    /// Well-formed: a set is non-empty and strictly ascending, a range
    /// has its lower bound at or below its upper bound.
    pub open spec fn wf(self) -> bool {
        match self {
            ValueView::Fixed(_) => true,
            ValueView::Choices(l) => l.len() > 0 && forall|i: int, j: int|
                0 <= i < j < l.len() ==> l[i] < l[j],
            ValueView::Range(lo, hi) => lo <= hi,
        }
    }

    /// Whether the specification admits the concrete value `n`.
    pub open spec fn admits(self, n: i64) -> bool {
        match self {
            ValueView::Fixed(x) => n == x,
            ValueView::Choices(l) => l.contains(n),
            ValueView::Range(lo, hi) => lo <= n && n <= hi,
        }
    }

    /// A value every well-formed specification admits: the scalar itself,
    /// the first set element, or the lower bound.
    pub open spec fn witness(self) -> i64 {
        match self {
            ValueView::Fixed(x) => x,
            ValueView::Choices(l) => l[0],
            ValueView::Range(lo, _) => lo,
        }
    }
}

/// A well-formed value specification admits its witness.
pub proof fn lemma_witness_admitted(v: ValueView)
    requires
        v.wf(),
    ensures
        v.admits(v.witness()),
{
    match v {
        ValueView::Choices(l) => {
            assert(l.contains(l[0]));
        },
        _ => {},
    }
}

/// Mathematical model of one field constraint.
#[verifier::ext_equal]
pub struct FieldView {
    pub key: FieldKey,
    pub value: ValueView,
}

/// Whether some field of `fs` has key `k`.
pub open spec fn has_key(fs: Seq<FieldView>, k: FieldKey) -> bool {
    exists|i: int| 0 <= i < fs.len() && fs[i].key == k
}

/// The value specification of the field of `fs` with key `k`
/// (meaningful when the keys of `fs` are unique).
pub open spec fn val_at(fs: Seq<FieldView>, k: FieldKey) -> ValueView {
    fs[choose|i: int| 0 <= i < fs.len() && fs[i].key == k].value
}

/// With unique keys, `val_at` returns the value stored at any index.
pub proof fn lemma_val_at(fs: Seq<FieldView>, i: int)
    requires
        forall|p: int, q: int| 0 <= p < q < fs.len() ==> fs[p].key != fs[q].key,
        0 <= i < fs.len(),
    ensures
        has_key(fs, fs[i].key),
        val_at(fs, fs[i].key) == fs[i].value,
{
    assert(has_key(fs, fs[i].key));
    let j = choose|j: int| 0 <= j < fs.len() && fs[j].key == fs[i].key;
    if j < i {
        assert(fs[j].key != fs[i].key);
    } else if i < j {
        assert(fs[i].key != fs[j].key);
    }
}

/// Mathematical model of one alternative format.
#[verifier::ext_equal]
pub struct StructureView {
    pub name: FormatName,
    pub fields: Seq<FieldView>,
}

impl StructureView {
    /// Well-formed: field keys are unique and every value specification
    /// is well-formed.
    pub open spec fn wf(self) -> bool {
        &&& forall|p: int, q: int| 0 <= p < q < self.fields.len()
            ==> self.fields[p].key != self.fields[q].key
        &&& forall|i: int| 0 <= i < self.fields.len()
            ==> (#[trigger] self.fields[i]).value.wf()
    }

    /// Whether the structure admits a concrete format: the family name
    /// matches and every field constraint admits the assigned value.
    pub open spec fn admits(self, name: FormatName, vals: Map<FieldKey, i64>) -> bool {
        &&& self.name == name
        &&& forall|i: int| 0 <= i < self.fields.len()
            ==> vals.dom().contains((#[trigger] self.fields[i]).key)
                && self.fields[i].value.admits(vals[self.fields[i].key])
    }

    /// All value specifications are single scalars.
    pub open spec fn is_fixed(self) -> bool {
        forall|i: int| 0 <= i < self.fields.len()
            ==> (#[trigger] self.fields[i]).value is Fixed
    }

    /// The concrete format assignment built from each field's witness.
    pub open spec fn witness_vals(self) -> Map<FieldKey, i64> {
        Map::new(
            |k: FieldKey| has_key(self.fields, k),
            |k: FieldKey| val_at(self.fields, k).witness(),
        )
    }
}

/// Every well-formed structure admits at least one concrete format:
/// the one assigning each field its witness value.
pub proof fn lemma_structure_admits_witness(s: StructureView)
    requires
        s.wf(),
    ensures
        s.admits(s.name, s.witness_vals()),
{
    assert forall|i: int| 0 <= i < s.fields.len() implies
        s.witness_vals().dom().contains((#[trigger] s.fields[i]).key)
        && s.fields[i].value.admits(s.witness_vals()[s.fields[i].key]) by {
        lemma_val_at(s.fields, i);
        lemma_witness_admitted(s.fields[i].value);
    }
}

/// Mathematical model of a capability.
#[verifier::ext_equal]
pub enum CapView {
    Any,
    Caps(Seq<StructureView>),
}

impl CapView {
    /// Well-formed: every structure is.
    pub open spec fn wf(self) -> bool {
        match self {
            CapView::Any => true,
            CapView::Caps(l) => forall|i: int| 0 <= i < l.len()
                ==> (#[trigger] l[i]).wf(),
        }
    }

    /// Whether the capability admits a concrete format. ANY admits
    /// everything; a capability with no structures admits nothing.
    pub open spec fn admits(self, name: FormatName, vals: Map<FieldKey, i64>) -> bool {
        match self {
            CapView::Any => true,
            CapView::Caps(l) => exists|i: int|
                0 <= i < l.len() && (#[trigger] l[i]).admits(name, vals),
        }
    }

    /// EMPTY: zero structures, matches nothing.
    pub open spec fn is_empty(self) -> bool {
        self is Caps && self.arrow_Caps_0().len() == 0
    }

    /// Fixed: exactly one structure, every field a single scalar. Data
    /// may flow on a pad only once its capability is fixed.
    pub open spec fn is_fixed(self) -> bool {
        &&& self is Caps
        &&& self.arrow_Caps_0().len() == 1
        &&& self.arrow_Caps_0()[0].is_fixed()
    }
}

/// Specification of the values a field may take: one scalar, an
/// enumerated set (held in strictly ascending order), or an inclusive
/// numeric range.
#[derive(Debug, PartialEq)]
pub enum FieldValue {
    Fixed(i64),
    List(Vec<i64>),
    Range(i64, i64),
}

impl View for FieldValue {
    type V = ValueView;

    open spec fn view(&self) -> ValueView {
        match self {
            FieldValue::Fixed(x) => ValueView::Fixed(*x),
            FieldValue::List(l) => ValueView::Choices(l@),
            FieldValue::Range(lo, hi) => ValueView::Range(*lo, *hi),
        }
    }
}

impl FieldValue {
    /// An enumerated-set specification, validated: the elements must be
    /// strictly ascending and non-empty, the canonical form of a set.
    pub fn set_of(items: Vec<i64>) -> (r: Option<FieldValue>)
        ensures
            match r {
                Some(v) => v@ == ValueView::Choices(items@) && v@.wf(),
                None => !ValueView::Choices(items@).wf(),
            },
    {
        if items.len() == 0 {
            return None;
        }
        let mut i: usize = 1;
        while i < items.len()
            invariant
                1 <= i <= items@.len(),
                forall|p: int, q: int| 0 <= p < q < i ==> items@[p] < items@[q],
            decreases items@.len() - i,
        {
            if items[i - 1] >= items[i] {
                return None;
            }
            i = i + 1;
        }
        Some(FieldValue::List(items))
    }

    /// A range specification, validated: the bounds must be ordered.
    pub fn range_of(lo: i64, hi: i64) -> (r: Option<FieldValue>)
        ensures
            match r {
                Some(v) => v@ == ValueView::Range(lo, hi) && v@.wf(),
                None => lo > hi,
            },
    {
        if lo <= hi {
            Some(FieldValue::Range(lo, hi))
        } else {
            None
        }
    }

    /// An identical copy.
    pub fn duplicate(&self) -> (r: FieldValue)
        ensures
            r@ == self@,
    {
        match self {
            FieldValue::Fixed(x) => FieldValue::Fixed(*x),
            FieldValue::Range(lo, hi) => FieldValue::Range(*lo, *hi),
            FieldValue::List(l) => {
                let mut out: Vec<i64> = Vec::new();
                let mut i: usize = 0;
                while i < l.len()
                    invariant
                        i <= l@.len(),
                        out@ == l@.subrange(0, i as int),
                    decreases l@.len() - i,
                {
                    out.push(l[i]);
                    i = i + 1;
                }
                proof {
                    assert(out@ =~= l@);
                }
                FieldValue::List(out)
            },
        }
    }
}

/// Linear membership scan.
fn list_contains(l: &Vec<i64>, x: i64) -> (r: bool)
    ensures
        r == l@.contains(x),
{
    let mut i: usize = 0;
    while i < l.len()
        invariant
            i <= l@.len(),
            forall|p: int| 0 <= p < i ==> l@[p] != x,
        decreases l@.len() - i,
    {
        if l[i] == x {
            return true;
        }
        i = i + 1;
    }
    false
}

/// Elements of `a` that fall within `lo ..= hi`, in order.
fn list_clip(a: &Vec<i64>, lo: i64, hi: i64) -> (r: Vec<i64>)
    requires
        forall|p: int, q: int| 0 <= p < q < a@.len() ==> a@[p] < a@[q],
    ensures
        forall|p: int, q: int| 0 <= p < q < r@.len() ==> r@[p] < r@[q],
        forall|x: i64| r@.contains(x) <==> (a@.contains(x) && lo <= x && x <= hi),
{
    let mut out: Vec<i64> = Vec::new();
    let mut i: usize = 0;
    while i < a.len()
        invariant
            i <= a@.len(),
            forall|p: int, q: int| 0 <= p < q < a@.len() ==> a@[p] < a@[q],
            forall|p: int, q: int| 0 <= p < q < out@.len() ==> out@[p] < out@[q],
            forall|x: i64| out@.contains(x) <==> ((exists|m: int|
                0 <= m < i && a@[m] == x) && lo <= x && x <= hi),
        decreases a@.len() - i,
    {
        let x = a[i];
        if lo <= x && x <= hi {
            proof {
                assert forall|p: int| 0 <= p < out@.len() implies out@[p] < x by {
                    assert(out@.contains(out@[p]));
                    let m = choose|m: int| 0 <= m < i && a@[m] == out@[p];
                    assert(a@[m] < a@[i as int]);
                }
            }
            out.push(x);
        }
        i = i + 1;
    }
    out
}

/// Elements common to `a` and `b`, in order.
fn list_meet(a: &Vec<i64>, b: &Vec<i64>) -> (r: Vec<i64>)
    requires
        forall|p: int, q: int| 0 <= p < q < a@.len() ==> a@[p] < a@[q],
    ensures
        forall|p: int, q: int| 0 <= p < q < r@.len() ==> r@[p] < r@[q],
        forall|x: i64| r@.contains(x) <==> (a@.contains(x) && b@.contains(x)),
{
    let mut out: Vec<i64> = Vec::new();
    let mut i: usize = 0;
    while i < a.len()
        invariant
            i <= a@.len(),
            forall|p: int, q: int| 0 <= p < q < a@.len() ==> a@[p] < a@[q],
            forall|p: int, q: int| 0 <= p < q < out@.len() ==> out@[p] < out@[q],
            forall|x: i64| out@.contains(x) <==> ((exists|m: int|
                0 <= m < i && a@[m] == x) && b@.contains(x)),
        decreases a@.len() - i,
    {
        let x = a[i];
        if list_contains(b, x) {
            proof {
                assert forall|p: int| 0 <= p < out@.len() implies out@[p] < x by {
                    assert(out@.contains(out@[p]));
                    let m = choose|m: int| 0 <= m < i && a@[m] == out@[p];
                    assert(a@[m] < a@[i as int]);
                }
            }
            out.push(x);
        }
        i = i + 1;
    }
    out
}

/// Whether a value specification admits the concrete value `n`.
pub fn value_admits(v: &FieldValue, n: i64) -> (r: bool)
    ensures
        r == v@.admits(n),
{
    match v {
        FieldValue::Fixed(x) => *x == n,
        FieldValue::List(l) => list_contains(l, n),
        FieldValue::Range(lo, hi) => *lo <= n && n <= *hi,
    }
}

/// Intersection of two value specifications: the result admits exactly
/// the values admitted by both, or `None` when no value is.
pub fn value_intersect(a: &FieldValue, b: &FieldValue) -> (r: Option<FieldValue>)
    requires
        a@.wf(),
        b@.wf(),
    ensures
        match r {
            Some(v) => v@.wf() && forall|n: i64|
                v@.admits(n) <==> (a@.admits(n) && b@.admits(n)),
            None => forall|n: i64| !(a@.admits(n) && b@.admits(n)),
        },
{
    match (a, b) {
        (FieldValue::Fixed(x), _) => {
            if value_admits(b, *x) {
                Some(FieldValue::Fixed(*x))
            } else {
                None
            }
        },
        (_, FieldValue::Fixed(y)) => {
            if value_admits(a, *y) {
                Some(FieldValue::Fixed(*y))
            } else {
                None
            }
        },
        (FieldValue::Range(alo, ahi), FieldValue::Range(blo, bhi)) => {
            let lo = if *alo >= *blo { *alo } else { *blo };
            let hi = if *ahi <= *bhi { *ahi } else { *bhi };
            if lo <= hi {
                Some(FieldValue::Range(lo, hi))
            } else {
                None
            }
        },
        (FieldValue::Range(lo, hi), FieldValue::List(l)) => {
            let kept = list_clip(l, *lo, *hi);
            if kept.len() == 0 {
                proof {
                    assert forall|n: i64| !(a@.admits(n) && b@.admits(n)) by {
                        if a@.admits(n) && b@.admits(n) {
                            assert(kept@.contains(n));
                        }
                    }
                }
                None
            } else {
                Some(FieldValue::List(kept))
            }
        },
        (FieldValue::List(l), FieldValue::Range(lo, hi)) => {
            let kept = list_clip(l, *lo, *hi);
            if kept.len() == 0 {
                proof {
                    assert forall|n: i64| !(a@.admits(n) && b@.admits(n)) by {
                        if a@.admits(n) && b@.admits(n) {
                            assert(kept@.contains(n));
                        }
                    }
                }
                None
            } else {
                Some(FieldValue::List(kept))
            }
        },
        (FieldValue::List(la), FieldValue::List(lb)) => {
            let kept = list_meet(la, lb);
            if kept.len() == 0 {
                proof {
                    assert forall|n: i64| !(a@.admits(n) && b@.admits(n)) by {
                        if a@.admits(n) && b@.admits(n) {
                            assert(kept@.contains(n));
                        }
                    }
                }
                None
            } else {
                Some(FieldValue::List(kept))
            }
        },
    }
}

/// One named field of a structure.
#[derive(Debug, PartialEq)]
pub struct Field {
    pub key: FieldKey,
    pub value: FieldValue,
}

impl View for Field {
    type V = FieldView;

    open spec fn view(&self) -> FieldView {
        FieldView { key: self.key, value: self.value@ }
    }
}

/// The model of a whole field list.
pub open spec fn fields_view(fs: Seq<Field>) -> Seq<FieldView> {
    Seq::new(fs.len(), |i: int| fs[i]@)
}

/// Index of the field with key `k`, if any.
fn find_field(fs: &Vec<Field>, k: FieldKey) -> (r: Option<usize>)
    ensures
        match r {
            Some(i) => i < fs@.len() && fs@[i as int]@.key == k,
            None => !has_key(fields_view(fs@), k),
        },
{
    let mut i: usize = 0;
    while i < fs.len()
        invariant
            i <= fs@.len(),
            forall|p: int| 0 <= p < i ==> fs@[p]@.key != k,
        decreases fs@.len() - i,
    {
        if fs[i].key == k {
            return Some(i);
        }
        i = i + 1;
    }
    proof {
        assert forall|p: int| 0 <= p < fields_view(fs@).len() implies
            fields_view(fs@)[p].key != k by {
            assert(fields_view(fs@)[p] == fs@[p]@);
        }
    }
    None
}

/// One alternative format: a family name and a set of field constraints.
#[derive(Debug, PartialEq)]
pub struct CapStructure {
    pub name: FormatName,
    pub fields: Vec<Field>,
}

impl View for CapStructure {
    type V = StructureView;

    open spec fn view(&self) -> StructureView {
        StructureView { name: self.name, fields: fields_view(self.fields@) }
    }
}

impl CapStructure {
    /// An empty structure of the given family.
    pub fn new(name: FormatName) -> (r: CapStructure)
        ensures
            r@.wf(),
            r@.name == name,
            r@.fields.len() == 0,
    {
        let r = CapStructure { name, fields: Vec::new() };
        proof {
            assert(r@.fields =~= Seq::<FieldView>::empty());
        }
        r
    }

    /// Appends a field constraint. Fails (leaving the structure
    /// unchanged) when the key is already present.
    pub fn add_field(&mut self, key: FieldKey, value: FieldValue) -> (ok: bool)
        requires
            old(self)@.wf(),
            value@.wf(),
        ensures
            final(self)@.wf(),
            ok ==> final(self)@ == (StructureView {
                name: old(self)@.name,
                fields: old(self)@.fields.push(FieldView { key, value: value@ }),
            }),
            !ok ==> final(self)@ == old(self)@ && has_key(old(self)@.fields, key),
    {
        match find_field(&self.fields, key) {
            Some(i) => {
                proof {
                    assert(self@.fields[i as int].key == key);
                    assert(has_key(self@.fields, key));
                }
                false
            },
            None => {
                self.fields.push(Field { key, value });
                proof {
                    assert(self@.fields =~= old(self)@.fields.push(
                        FieldView { key, value: value@ }));
                    assert forall|p: int, q: int|
                        0 <= p < q < self@.fields.len() implies
                        self@.fields[p].key != self@.fields[q].key by {
                        if q == self@.fields.len() - 1 {
                            assert(!has_key(old(self)@.fields, key));
                            assert(old(self)@.fields[p].key != key);
                        }
                    }
                }
                true
            },
        }
    }

    /// An identical copy.
    pub fn duplicate(&self) -> (r: CapStructure)
        ensures
            r@ == self@,
    {
        let mut fields: Vec<Field> = Vec::new();
        let mut i: usize = 0;
        while i < self.fields.len()
            invariant
                i <= self.fields@.len(),
                fields@.len() == i,
                forall|p: int| 0 <= p < i ==> fields@[p]@ == self.fields@[p]@,
            decreases self.fields@.len() - i,
        {
            let f = &self.fields[i];
            fields.push(Field { key: f.key, value: f.value.duplicate() });
            i = i + 1;
        }
        let r = CapStructure { name: self.name, fields };
        proof {
            assert(r@.fields =~= self@.fields);
            assert(r@ =~= self@);
        }
        r
    }
}

/// Intersection of two structures: `None` when the family names differ or
/// some shared field has incompatible value specifications; otherwise a
/// structure that admits exactly the concrete formats admitted by both.
/// A field present on one side only carries over unchanged.
#[verifier::rlimit(100)]
pub fn structure_intersect(a: &CapStructure, b: &CapStructure) -> (r: Option<CapStructure>)
    requires
        a@.wf(),
        b@.wf(),
    ensures
        match r {
            Some(m) => m@.wf() && m@.name == a@.name && a@.name == b@.name
                && forall|name: FormatName, vals: Map<FieldKey, i64>|
                    #[trigger] m@.admits(name, vals)
                        <==> (a@.admits(name, vals) && b@.admits(name, vals)),
            None => forall|name: FormatName, vals: Map<FieldKey, i64>|
                !(#[trigger] a@.admits(name, vals) && b@.admits(name, vals)),
        },
{
    if !format_eq(a.name, b.name) {
        return None;
    }
    let ghost av = a@.fields;
    let ghost bv = b@.fields;
    let a_len = a.fields.len();
    let mut out: Vec<Field> = Vec::new();
    let mut i: usize = 0;
    while i < a_len
        invariant
            a@.wf(),
            b@.wf(),
            av == a@.fields,
            bv == b@.fields,
            a_len == av.len(),
            i <= a_len,
            fields_view(out@).len() == i,
            forall|p: int| 0 <= p < i ==> (#[trigger] fields_view(out@)[p]).key == av[p].key,
            forall|p: int| 0 <= p < i ==> (#[trigger] fields_view(out@)[p]).value.wf(),
            forall|p: int, n: i64| 0 <= p < i && has_key(bv, av[p].key) ==>
                ((#[trigger] fields_view(out@)[p].value.admits(n))
                    <==> (av[p].value.admits(n) && val_at(bv, av[p].key).admits(n))),
            forall|p: int, n: i64| 0 <= p < i && !has_key(bv, av[p].key) ==>
                ((#[trigger] fields_view(out@)[p].value.admits(n))
                    <==> av[p].value.admits(n)),
        decreases a_len - i,
    {
        let f = &a.fields[i];
        proof {
            assert(f@ == av[i as int]);
        }
        match find_field(&b.fields, f.key) {
            None => {
                let ghost out0 = out@;
                let dup = f.value.duplicate();
                out.push(Field { key: f.key, value: dup });
                proof {
                    assert(fields_view(out@) =~= fields_view(out0).push(
                        FieldView { key: f.key, value: f.value@ }));
                }
            },
            Some(j) => {
                proof {
                    lemma_val_at(bv, j as int);
                    assert(bv[j as int].value.wf());
                }
                match value_intersect(&f.value, &b.fields[j].value) {
                    None => {
                        proof {
                            assert forall|name: FormatName, vals: Map<FieldKey, i64>|
                                !(#[trigger] a@.admits(name, vals)
                                    && b@.admits(name, vals)) by {
                                if a@.admits(name, vals) && b@.admits(name, vals) {
                                    assert(av[i as int].value.admits(vals[av[i as int].key]));
                                    assert(bv[j as int].value.admits(vals[bv[j as int].key]));
                                }
                            }
                        }
                        return None;
                    },
                    Some(v) => {
                        let ghost out0 = out@;
                        let ghost vv = v@;
                        out.push(Field { key: f.key, value: v });
                        proof {
                            assert(fields_view(out@) =~= fields_view(out0).push(
                                FieldView { key: f.key, value: vv }));
                        }
                    },
                }
            },
        }
        i = i + 1;
    }
    // second pass: fields of `b` whose key `a` does not constrain
    let mut j: usize = 0;
    while j < b.fields.len()
        invariant
            a@.wf(),
            b@.wf(),
            av == a@.fields,
            bv == b@.fields,
            a_len == av.len(),
            j <= bv.len(),
            fields_view(out@).len() >= a_len,
            forall|p: int| 0 <= p < a_len ==> (#[trigger] fields_view(out@)[p]).key == av[p].key,
            forall|p: int| 0 <= p < fields_view(out@).len()
                ==> (#[trigger] fields_view(out@)[p]).value.wf(),
            forall|p: int, n: i64| 0 <= p < a_len && has_key(bv, av[p].key) ==>
                ((#[trigger] fields_view(out@)[p].value.admits(n))
                    <==> (av[p].value.admits(n) && val_at(bv, av[p].key).admits(n))),
            forall|p: int, n: i64| 0 <= p < a_len && !has_key(bv, av[p].key) ==>
                ((#[trigger] fields_view(out@)[p].value.admits(n))
                    <==> av[p].value.admits(n)),
            forall|q: int| a_len <= q < fields_view(out@).len() ==>
                !has_key(av, (#[trigger] fields_view(out@)[q]).key),
            forall|q: int| a_len <= q < fields_view(out@).len() ==>
                exists|m: int| 0 <= m < j && bv[m].key == (#[trigger] fields_view(out@)[q]).key,
            forall|q: int, n: i64| a_len <= q < fields_view(out@).len() ==>
                ((#[trigger] fields_view(out@)[q].value.admits(n))
                    <==> val_at(bv, fields_view(out@)[q].key).admits(n)),
            forall|m: int| 0 <= m < j ==> has_key(av, (#[trigger] bv[m]).key)
                || exists|q: int| a_len <= q < fields_view(out@).len()
                    && fields_view(out@)[q].key == bv[m].key,
            forall|q1: int, q2: int| 0 <= q1 < q2 < fields_view(out@).len()
                ==> (#[trigger] fields_view(out@)[q1]).key
                    != (#[trigger] fields_view(out@)[q2]).key,
        decreases bv.len() - j,
    {
        let g = &b.fields[j];
        proof {
            assert(g@ == bv[j as int]);
        }
        match find_field(&a.fields, g.key) {
            Some(p) => {
                proof {
                    assert(av[p as int].key == bv[j as int].key);
                    assert(has_key(av, bv[j as int].key));
                }
            },
            None => {
                let ghost out0 = out@;
                let dup = g.value.duplicate();
                out.push(Field { key: g.key, value: dup });
                proof {
                    assert(fields_view(out@) =~= fields_view(out0).push(
                        FieldView { key: g.key, value: g.value@ }));
                    lemma_val_at(bv, j as int);
                    let newq = fields_view(out@).len() - 1;
                    assert(fields_view(out@)[newq].key == bv[j as int].key);
                    // the new key is fresh: not in `a`, and earlier entries of
                    // the second segment stem from earlier, distinct `b` keys
                    assert forall|q: int| 0 <= q < fields_view(out0).len() implies
                        (#[trigger] fields_view(out0)[q]).key != bv[j as int].key by {
                        if q < a_len {
                            if fields_view(out0)[q].key == bv[j as int].key {
                                assert(av[q].key == bv[j as int].key);
                                assert(has_key(av, bv[j as int].key));
                            }
                        } else {
                            let m = choose|m: int| 0 <= m < j
                                && bv[m].key == fields_view(out0)[q].key;
                            assert(bv[m].key != bv[j as int].key);
                        }
                    }
                    // earlier coverage witnesses survive the push
                    assert forall|m: int| 0 <= m < j && !has_key(av, (#[trigger] bv[m]).key)
                        implies exists|q: int| a_len <= q < fields_view(out@).len()
                            && fields_view(out@)[q].key == bv[m].key by {
                        let q = choose|q: int| a_len <= q < fields_view(out0).len()
                            && fields_view(out0)[q].key == bv[m].key;
                        assert(fields_view(out@)[q].key == bv[m].key);
                    }
                }
            },
        }
        j = j + 1;
    }
    let m = CapStructure { name: a.name, fields: out };
    proof {
        let mv = m@.fields;
        assert(m@.wf());
        assert forall|name: FormatName, vals: Map<FieldKey, i64>|
            #[trigger] m@.admits(name, vals)
                <==> (a@.admits(name, vals) && b@.admits(name, vals)) by {
            if m@.admits(name, vals) {
                assert forall|p: int| 0 <= p < av.len() implies
                    vals.dom().contains((#[trigger] av[p]).key)
                    && av[p].value.admits(vals[av[p].key]) by {
                    assert(mv[p].key == av[p].key);
                    assert(vals.dom().contains(mv[p].key));
                    assert(mv[p].value.admits(vals[mv[p].key]));
                }
                assert(a@.admits(name, vals));
                assert forall|q: int| 0 <= q < bv.len() implies
                    vals.dom().contains((#[trigger] bv[q]).key)
                    && bv[q].value.admits(vals[bv[q].key]) by {
                    let k = bv[q].key;
                    lemma_val_at(bv, q);
                    if has_key(av, k) {
                        let p = choose|p: int| 0 <= p < av.len() && av[p].key == k;
                        assert(mv[p].key == k);
                        assert(mv[p].value.admits(vals[k]));
                    } else {
                        let qq = choose|qq: int| a_len <= qq < mv.len() && mv[qq].key == k;
                        assert(mv[qq].value.admits(vals[k]));
                    }
                }
                assert(b@.admits(name, vals));
            }
            if a@.admits(name, vals) && b@.admits(name, vals) {
                assert forall|p: int| 0 <= p < mv.len() implies
                    vals.dom().contains((#[trigger] mv[p]).key)
                    && mv[p].value.admits(vals[mv[p].key]) by {
                    if p < a_len {
                        let k = av[p].key;
                        assert(vals.dom().contains(k));
                        assert(av[p].value.admits(vals[k]));
                        if has_key(bv, k) {
                            let q = choose|q: int| 0 <= q < bv.len() && bv[q].key == k;
                            lemma_val_at(bv, q);
                            assert(bv[q].value.admits(vals[k]));
                        }
                    } else {
                        let k = mv[p].key;
                        let q = choose|q: int| 0 <= q < bv.len() && bv[q].key == k;
                        lemma_val_at(bv, q);
                        assert(vals.dom().contains(k));
                        assert(bv[q].value.admits(vals[k]));
                    }
                }
                assert(m@.admits(name, vals));
            }
        }
    }
    Some(m)
}

/// Equality of format-family names.
pub fn format_eq(a: FormatName, b: FormatName) -> (r: bool)
    ensures
        r == (a == b),
{
    a == b
}

/// The model of a structure list.
pub open spec fn structs_view(l: Seq<CapStructure>) -> Seq<StructureView> {
    Seq::new(l.len(), |i: int| l[i]@)
}

/// A description of the data formats a connection point can carry.
#[derive(Debug, PartialEq)]
pub enum Capability {
    /// Matches everything.
    Any,
    /// Matches exactly what one of the alternative structures admits;
    /// with no structures this is EMPTY and matches nothing.
    Caps(Vec<CapStructure>),
}

impl View for Capability {
    type V = CapView;

    open spec fn view(&self) -> CapView {
        match self {
            Capability::Any => CapView::Any,
            Capability::Caps(l) => CapView::Caps(structs_view(l@)),
        }
    }
}

impl Capability {
    /// The ANY capability.
    pub fn any() -> (r: Capability)
        ensures
            r@ == CapView::Any,
            r@.wf(),
    {
        Capability::Any
    }

    /// The EMPTY capability: no structures, matches nothing.
    pub fn none() -> (r: Capability)
        ensures
            r@.is_empty(),
            r@.wf(),
    {
        let r = Capability::Caps(Vec::new());
        proof {
            assert(structs_view(Seq::<CapStructure>::empty()).len() == 0);
        }
        r
    }

    /// A capability with a single alternative structure.
    pub fn single(st: CapStructure) -> (r: Capability)
        ensures
            r@ == CapView::Caps(seq![st@]),
            st@.wf() ==> r@.wf(),
    {
        let ghost stv = st@;
        let mut l: Vec<CapStructure> = Vec::new();
        l.push(st);
        let r = Capability::Caps(l);
        proof {
            assert(structs_view(l@) =~= seq![stv]);
        }
        r
    }

    /// Appends one more alternative structure.
    pub fn push_structure(&mut self, st: CapStructure)
        requires
            old(self)@ is Caps,
        ensures
            final(self)@ == CapView::Caps(old(self)@.arrow_Caps_0().push(st@)),
    {
        let ghost stv = st@;
        match self {
            Capability::Caps(l) => {
                let ghost l0 = l@;
                l.push(st);
                proof {
                    assert(structs_view(l@) =~= structs_view(l0).push(stv));
                }
            },
            Capability::Any => {
                proof {
                    assert(false);
                }
            },
        }
    }

    /// Whether this is the ANY capability.
    pub fn is_any(&self) -> (r: bool)
        ensures
            r == (self@ is Any),
    {
        match self {
            Capability::Any => true,
            Capability::Caps(_) => false,
        }
    }

    /// Whether this is the EMPTY capability.
    pub fn is_empty(&self) -> (r: bool)
        ensures
            r == self@.is_empty(),
    {
        match self {
            Capability::Any => false,
            Capability::Caps(l) => l.len() == 0,
        }
    }

    /// Whether the capability is fixed: one structure, every field a
    /// single scalar.
    #[verifier::loop_isolation(false)]
    pub fn is_fixed(&self) -> (r: bool)
        ensures
            r == self@.is_fixed(),
    {
        match self {
            Capability::Any => false,
            Capability::Caps(l) => {
                if l.len() != 1 {
                    return false;
                }
                let st = &l[0];
                let mut i: usize = 0;
                while i < st.fields.len()
                    invariant
                        i <= st.fields@.len(),
                        st@ == structs_view(l@)[0],
                        l@.len() == 1,
                        forall|p: int| 0 <= p < i
                            ==> (#[trigger] st@.fields[p]).value is Fixed,
                    decreases st.fields@.len() - i,
                {
                    proof {
                        assert(st@.fields[i as int] == st.fields@[i as int]@);
                    }
                    match &st.fields[i].value {
                        FieldValue::Fixed(_) => {},
                        _ => {
                            proof {
                                assert(!(st@.fields[i as int].value is Fixed));
                            }
                            return false;
                        },
                    }
                    i = i + 1;
                }
                true
            },
        }
    }

    /// The number of alternative structures.
    pub fn structure_count(&self) -> (r: usize)
        requires
            self@ is Caps,
        ensures
            r == self@.arrow_Caps_0().len(),
    {
        match self {
            Capability::Caps(l) => l.len(),
            Capability::Any => 0,
        }
    }

    /// The structure at position `i`.
    pub fn structure_at(&self, i: usize) -> (r: &CapStructure)
        requires
            self@ is Caps,
            i < self@.arrow_Caps_0().len(),
        ensures
            r@ == self@.arrow_Caps_0()[i as int],
    {
        match self {
            Capability::Caps(l) => &l[i],
            Capability::Any => {
                proof {
                    assert(false);
                }
                unreached()
            },
        }
    }

    /// An identical copy.
    pub fn duplicate(&self) -> (r: Capability)
        ensures
            r@ == self@,
    {
        match self {
            Capability::Any => Capability::Any,
            Capability::Caps(l) => {
                let mut out: Vec<CapStructure> = Vec::new();
                let mut i: usize = 0;
                while i < l.len()
                    invariant
                        i <= l@.len(),
                        out@.len() == i,
                        forall|p: int| 0 <= p < i
                            ==> (#[trigger] structs_view(out@)[p]) == structs_view(l@)[p],
                    decreases l@.len() - i,
                {
                    let ghost out0 = out@;
                    let copy = l[i].duplicate();
                    let ghost cv = copy@;
                    out.push(copy);
                    proof {
                        assert(structs_view(out@) =~= structs_view(out0).push(cv));
                    }
                    i = i + 1;
                }
                let r = Capability::Caps(out);
                proof {
                    assert(structs_view(out@) =~= structs_view(l@));
                }
                r
            },
        }
    }

    /// Intersection of two capabilities: the pairwise structure
    /// intersections with matching name and compatible field
    /// specifications. ANY is the identity; the result admits exactly the
    /// concrete formats admitted by both operands, and is EMPTY whenever
    /// either operand is.
    #[verifier::rlimit(100)]
    #[verifier::loop_isolation(false)]
    pub fn intersect(self, other: Capability) -> (r: Capability)
        requires
            self@.wf(),
            other@.wf(),
        ensures
            r@.wf(),
            self@ is Any ==> r@ == other@,
            other@ is Any && !(self@ is Any) ==> r@ == self@,
            (r@ is Any) == (self@ is Any && other@ is Any),
            self@.is_empty() || other@.is_empty() ==> r@.is_empty(),
            forall|name: FormatName, vals: Map<FieldKey, i64>|
                #[trigger] r@.admits(name, vals)
                    <==> (self@.admits(name, vals) && other@.admits(name, vals)),
    {
        if self.is_any() {
            return other;
        }
        if other.is_any() {
            return self;
        }
        match (&self, &other) {
            (Capability::Caps(la), Capability::Caps(lb)) => {
                let ghost lav = structs_view(la@);
                let ghost lbv = structs_view(lb@);
                proof {
                    assert(self@ == CapView::Caps(lav));
                    assert(other@ == CapView::Caps(lbv));
                    assert forall|p: int| 0 <= p < lav.len() implies
                        (#[trigger] lav[p]).wf() by {
                        assert(self@.arrow_Caps_0()[p].wf());
                    }
                    assert forall|q: int| 0 <= q < lbv.len() implies
                        (#[trigger] lbv[q]).wf() by {
                        assert(other@.arrow_Caps_0()[q].wf());
                    }
                }
                let mut out: Vec<CapStructure> = Vec::new();
                let mut i: usize = 0;
                while i < la.len()
                    invariant
                        lav == structs_view(la@),
                        lbv == structs_view(lb@),
                        forall|p: int| 0 <= p < lav.len() ==> (#[trigger] lav[p]).wf(),
                        forall|q: int| 0 <= q < lbv.len() ==> (#[trigger] lbv[q]).wf(),
                        i <= lav.len(),
                        (lav.len() == 0 || lbv.len() == 0) ==> structs_view(out@).len() == 0,
                        forall|k: int| 0 <= k < structs_view(out@).len()
                            ==> (#[trigger] structs_view(out@)[k]).wf(),
                        forall|k: int, name: FormatName, vals: Map<FieldKey, i64>|
                            0 <= k < structs_view(out@).len()
                                && (#[trigger] structs_view(out@)[k].admits(name, vals))
                            ==> ((exists|p: int| 0 <= p < lav.len()
                                    && (#[trigger] lav[p]).admits(name, vals))
                                && (exists|q: int| 0 <= q < lbv.len()
                                    && (#[trigger] lbv[q]).admits(name, vals))),
                        forall|p: int, q: int, name: FormatName, vals: Map<FieldKey, i64>|
                            0 <= p < i && 0 <= q < lbv.len()
                                && (#[trigger] lav[p].admits(name, vals))
                                && (#[trigger] lbv[q].admits(name, vals))
                            ==> exists|k: int| 0 <= k < structs_view(out@).len()
                                && (#[trigger] structs_view(out@)[k]).admits(name, vals),
                    decreases lav.len() - i,
                {
                    let sa = &la[i];
                    proof {
                        assert(sa@ == lav[i as int]);
                    }
                    let mut j: usize = 0;
                    while j < lb.len()
                        invariant
                            lav == structs_view(la@),
                            lbv == structs_view(lb@),
                            forall|p: int| 0 <= p < lav.len() ==> (#[trigger] lav[p]).wf(),
                            forall|q: int| 0 <= q < lbv.len() ==> (#[trigger] lbv[q]).wf(),
                            i < lav.len(),
                            sa@ == lav[i as int],
                            j <= lbv.len(),
                            (lav.len() == 0 || lbv.len() == 0) ==> structs_view(out@).len() == 0,
                            forall|k: int| 0 <= k < structs_view(out@).len()
                                ==> (#[trigger] structs_view(out@)[k]).wf(),
                            forall|k: int, name: FormatName, vals: Map<FieldKey, i64>|
                                0 <= k < structs_view(out@).len()
                                    && (#[trigger] structs_view(out@)[k].admits(name, vals))
                                ==> ((exists|p: int| 0 <= p < lav.len()
                                        && (#[trigger] lav[p]).admits(name, vals))
                                    && (exists|q: int| 0 <= q < lbv.len()
                                        && (#[trigger] lbv[q]).admits(name, vals))),
                            forall|p: int, q: int, name: FormatName, vals: Map<FieldKey, i64>|
                                0 <= p < i && 0 <= q < lbv.len()
                                    && (#[trigger] lav[p].admits(name, vals))
                                    && (#[trigger] lbv[q].admits(name, vals))
                                ==> exists|k: int| 0 <= k < structs_view(out@).len()
                                    && (#[trigger] structs_view(out@)[k]).admits(name, vals),
                            forall|q: int, name: FormatName, vals: Map<FieldKey, i64>|
                                0 <= q < j
                                    && (#[trigger] lav[i as int].admits(name, vals))
                                    && (#[trigger] lbv[q].admits(name, vals))
                                ==> exists|k: int| 0 <= k < structs_view(out@).len()
                                    && (#[trigger] structs_view(out@)[k]).admits(name, vals),
                        decreases lbv.len() - j,
                    {
                        let sb = &lb[j];
                        proof {
                            assert(sb@ == lbv[j as int]);
                        }
                        match structure_intersect(sa, sb) {
                            Some(st) => {
                                let ghost out0 = out@;
                                let ghost stv = st@;
                                out.push(st);
                                proof {
                                    assert(structs_view(out@) =~= structs_view(out0).push(stv));
                                    // earlier witnesses survive the push
                                    assert forall|p: int, q: int, name: FormatName,
                                        vals: Map<FieldKey, i64>|
                                        0 <= p < i && 0 <= q < lbv.len()
                                            && (#[trigger] lav[p].admits(name, vals))
                                            && (#[trigger] lbv[q].admits(name, vals))
                                        implies exists|k: int| 0 <= k < structs_view(out@).len()
                                            && (#[trigger] structs_view(out@)[k]).admits(
                                                name, vals) by {
                                        let k = choose|k: int| 0 <= k < structs_view(out0).len()
                                            && (#[trigger] structs_view(out0)[k]).admits(
                                                name, vals);
                                        assert(structs_view(out@)[k] == structs_view(out0)[k]);
                                    }
                                    assert forall|q: int, name: FormatName,
                                        vals: Map<FieldKey, i64>|
                                        0 <= q < j
                                            && (#[trigger] lav[i as int].admits(name, vals))
                                            && (#[trigger] lbv[q].admits(name, vals))
                                        implies exists|k: int| 0 <= k < structs_view(out@).len()
                                            && (#[trigger] structs_view(out@)[k]).admits(
                                                name, vals) by {
                                        let k = choose|k: int| 0 <= k < structs_view(out0).len()
                                            && (#[trigger] structs_view(out0)[k]).admits(
                                                name, vals);
                                        assert(structs_view(out@)[k] == structs_view(out0)[k]);
                                    }
                                    // the new entry covers the pair just processed
                                    assert forall|name: FormatName, vals: Map<FieldKey, i64>|
                                        (#[trigger] lav[i as int].admits(name, vals))
                                            && (#[trigger] lbv[j as int].admits(name, vals))
                                        implies exists|k: int| 0 <= k < structs_view(out@).len()
                                            && (#[trigger] structs_view(out@)[k]).admits(
                                                name, vals) by {
                                        let newk = structs_view(out@).len() - 1;
                                        assert(structs_view(out@)[newk] == stv);
                                        assert(stv.admits(name, vals));
                                    }
                                }
                            },
                            None => {},
                        }
                        j = j + 1;
                    }
                    i = i + 1;
                }
                let r = Capability::Caps(out);
                proof {
                    let outv = structs_view(out@);
                    let a = CapView::Caps(lav);
                    let b = CapView::Caps(lbv);
                    assert forall|name: FormatName, vals: Map<FieldKey, i64>|
                        #[trigger] r@.admits(name, vals)
                            <==> (a.admits(name, vals) && b.admits(name, vals)) by {
                        if r@.admits(name, vals) {
                            let k = choose|k: int| 0 <= k < outv.len()
                                && (#[trigger] outv[k]).admits(name, vals);
                            assert(outv[k].admits(name, vals));
                        }
                        if a.admits(name, vals) && b.admits(name, vals) {
                            let p = choose|p: int| 0 <= p < lav.len()
                                && (#[trigger] lav[p]).admits(name, vals);
                            let q = choose|q: int| 0 <= q < lbv.len()
                                && (#[trigger] lbv[q]).admits(name, vals);
                            assert(lav[p].admits(name, vals) && lbv[q].admits(name, vals));
                            let k = choose|k: int| 0 <= k < outv.len()
                                && (#[trigger] outv[k]).admits(name, vals);
                            assert(r@.admits(name, vals));
                        }
                    }
                }
                r
            },
            _ => {
                proof {
                    assert(false);
                }
                unreached()
            },
        }
    }

    /// Reduction of a capability to a single concrete structure by the
    /// deterministic tie-break: the first structure is kept, each range
    /// collapses to its lower bound, each set to its first element.
    /// ANY and EMPTY cannot be fixated and are returned unchanged.
    #[verifier::loop_isolation(false)]
    pub fn fixate(self) -> (r: Capability)
        requires
            self@.wf(),
        ensures
            r@.wf(),
            self@ is Any ==> r@ == self@,
            self@.is_empty() ==> r@ == self@,
            (self@ is Caps && !self@.is_empty()) ==> {
                let s0 = self@.arrow_Caps_0()[0];
                let f0 = r@.arrow_Caps_0()[0];
                &&& r@.is_fixed()
                &&& f0.name == s0.name
                &&& f0.fields.len() == s0.fields.len()
                &&& forall|i: int| 0 <= i < s0.fields.len()
                    ==> (#[trigger] f0.fields[i]).key == s0.fields[i].key
                        && f0.fields[i].value
                            == ValueView::Fixed(s0.fields[i].value.witness())
            },
            forall|name: FormatName, vals: Map<FieldKey, i64>|
                #[trigger] r@.admits(name, vals) ==> self@.admits(name, vals),
    {
        match self {
            Capability::Any => Capability::Any,
            Capability::Caps(l) => {
                if l.len() == 0 {
                    let r = Capability::Caps(l);
                    proof {
                        assert(r@ =~= CapView::Caps(structs_view(l@)));
                    }
                    return r;
                }
                let ghost lv = structs_view(l@);
                let st = &l[0];
                proof {
                    assert(st@ == lv[0]);
                }
                let mut fields: Vec<Field> = Vec::new();
                let mut i: usize = 0;
                while i < st.fields.len()
                    invariant
                        st@.wf(),
                        i <= st@.fields.len(),
                        st@.fields.len() == st.fields@.len(),
                        fields_view(fields@).len() == i,
                        forall|p: int| 0 <= p < i
                            ==> (#[trigger] fields_view(fields@)[p]).key == st@.fields[p].key
                                && fields_view(fields@)[p].value
                                    == ValueView::Fixed(st@.fields[p].value.witness()),
                    decreases st.fields@.len() - i,
                {
                    let f = &st.fields[i];
                    proof {
                        assert(f@ == st@.fields[i as int]);
                    }
                    let w = match &f.value {
                        FieldValue::Fixed(x) => *x,
                        FieldValue::List(items) => items[0],
                        FieldValue::Range(lo, _) => *lo,
                    };
                    let ghost f0 = fields@;
                    fields.push(Field { key: f.key, value: FieldValue::Fixed(w) });
                    proof {
                        assert(fields_view(fields@) =~= fields_view(f0).push(
                            FieldView { key: f@.key, value: ValueView::Fixed(w) }));
                    }
                    i = i + 1;
                }
                let fixed = CapStructure { name: st.name, fields };
                let ghost fv = fixed@;
                let mut out: Vec<CapStructure> = Vec::new();
                out.push(fixed);
                let r = Capability::Caps(out);
                proof {
                    assert(structs_view(out@) =~= seq![fv]);
                    assert forall|p: int, q: int| 0 <= p < q < fv.fields.len() implies
                        fv.fields[p].key != fv.fields[q].key by {
                        assert(lv[0].fields[p].key != lv[0].fields[q].key);
                    }
                    assert(fv.wf());
                    assert(r@.is_fixed());
                    assert forall|name: FormatName, vals: Map<FieldKey, i64>|
                        #[trigger] r@.admits(name, vals) implies
                        CapView::Caps(lv).admits(name, vals) by {
                        if r@.admits(name, vals) {
                            assert(fv.admits(name, vals));
                            assert forall|p: int| 0 <= p < lv[0].fields.len() implies
                                vals.dom().contains((#[trigger] lv[0].fields[p]).key)
                                && lv[0].fields[p].value.admits(
                                    vals[lv[0].fields[p].key]) by {
                                assert(fv.fields[p].key == lv[0].fields[p].key);
                                assert(fv.fields[p].value.admits(vals[fv.fields[p].key]));
                                lemma_witness_admitted(lv[0].fields[p].value);
                            }
                            assert(lv[0].admits(name, vals));
                        }
                    }
                }
                r
            },
        }
    }
}

/// Law: a well-formed capability is EMPTY exactly when it admits no
/// concrete format at all (ANY aside, which admits everything).
pub proof fn lemma_empty_iff_admits_nothing(c: CapView)
    requires
        c.wf(),
    ensures
        c.is_empty() <==> (!(c is Any) && forall|name: FormatName, vals: Map<FieldKey, i64>|
            !(#[trigger] c.admits(name, vals))),
{
    match c {
        CapView::Any => {},
        CapView::Caps(l) => {
            if l.len() > 0 {
                lemma_structure_admits_witness(l[0]);
                assert(c.admits(l[0].name, l[0].witness_vals()));
            }
        },
    }
}

/// Law: intersection is commutative. Any result meeting the contract of
/// intersecting `a` with `b` admits exactly the same concrete formats as
/// any result meeting the contract of intersecting `b` with `a`, and one
/// is EMPTY exactly when the other is.
pub proof fn lemma_intersect_commutative(a: CapView, b: CapView, r1: CapView, r2: CapView)
    requires
        r1.wf(),
        r2.wf(),
        forall|name: FormatName, vals: Map<FieldKey, i64>|
            #[trigger] r1.admits(name, vals) <==> (a.admits(name, vals) && b.admits(name, vals)),
        forall|name: FormatName, vals: Map<FieldKey, i64>|
            #[trigger] r2.admits(name, vals) <==> (b.admits(name, vals) && a.admits(name, vals)),
        (r1 is Any) <==> (r2 is Any),
    ensures
        forall|name: FormatName, vals: Map<FieldKey, i64>|
            #[trigger] r1.admits(name, vals) <==> r2.admits(name, vals),
        r1.is_empty() <==> r2.is_empty(),
{
    lemma_empty_iff_admits_nothing(r1);
    lemma_empty_iff_admits_nothing(r2);
    if r1.is_empty() {
        assert forall|name: FormatName, vals: Map<FieldKey, i64>|
            !(#[trigger] r2.admits(name, vals)) by {
            if r2.admits(name, vals) {
                assert(r1.admits(name, vals));
            }
        }
    }
    if r2.is_empty() {
        assert forall|name: FormatName, vals: Map<FieldKey, i64>|
            !(#[trigger] r1.admits(name, vals)) by {
            if r1.admits(name, vals) {
                assert(r2.admits(name, vals));
            }
        }
    }
}

} // verus!
