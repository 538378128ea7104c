//! The device state: the last known value of every property, by name and
//! array index; what a received update does to it; and which saved values
//! a reconnect writes back to the device.

use vstd::prelude::*;

use crate::device::connection::ConnectionError;
use crate::protocol::properties::{find_by_id, find_by_name, find_id_in, find_name_in, properties, property_table, PropertyDef};
use crate::protocol::types::{decode_model, encode_model, values_equal, PropertyValue, ValueModel};
use crate::text::str_eq;

verus! {

/// The values held for one property.
pub struct StateEntry {
    pub name: String,
    pub values: Vec<PropertyValue>,
}

/// The models of a list of values.
pub open spec fn values_model(v: Seq<PropertyValue>) -> Seq<ValueModel> {
    v.map_values(|x: PropertyValue| x@)
}

/// No two entries share a name.
pub open spec fn names_distinct(e: Seq<StateEntry>) -> bool {
    forall|i: int, j: int| 0 <= i < j < e.len() ==> e[i].name@ != e[j].name@
}

/// The entries as a map from property name to its values.
pub open spec fn entries_map(e: Seq<StateEntry>) -> Map<Seq<char>, Seq<ValueModel>> {
    Map::new(
        |k: Seq<char>| exists|i: int| 0 <= i < e.len() && e[i].name@ == k,
        |k: Seq<char>| values_model(e[choose|i: int| 0 <= i < e.len() && e[i].name@ == k].values@),
    )
}

/// A property's values after writing `x` at `index`: a list too short is
/// first padded with `Byte(0)` up to `index`.
pub open spec fn set_values(v: Seq<ValueModel>, index: int, x: ValueModel) -> Seq<ValueModel> {
    let base = if index < v.len() {
        v
    } else {
        v + Seq::new((index + 1 - v.len()) as nat, |i: int| ValueModel::Byte(0))
    };
    base.update(index, x)
}

/// The values a map holds for `name`, empty when it holds none.
pub open spec fn values_or_empty(m: Map<Seq<char>, Seq<ValueModel>>, name: Seq<char>) -> Seq<
    ValueModel,
> {
    if m.contains_key(name) {
        m[name]
    } else {
        seq![]
    }
}

proof fn lemma_map_at(e: Seq<StateEntry>, p: int)
    requires
        names_distinct(e),
        0 <= p < e.len(),
    ensures
        entries_map(e).contains_key(e[p].name@),
        entries_map(e)[e[p].name@] == values_model(e[p].values@),
{
    let k = e[p].name@;
    assert(exists|i: int| 0 <= i < e.len() && e[i].name@ == k);
    let c = choose|i: int| 0 <= i < e.len() && e[i].name@ == k;
    if c != p {
        if c < p {
            assert(e[c].name@ != e[p].name@);
        } else {
            assert(e[p].name@ != e[c].name@);
        }
    }
}

proof fn lemma_map_update(e: Seq<StateEntry>, p: int, ne: StateEntry)
    requires
        names_distinct(e),
        0 <= p < e.len(),
        ne.name@ == e[p].name@,
    ensures
        names_distinct(e.update(p, ne)),
        entries_map(e.update(p, ne)) == entries_map(e).insert(ne.name@, values_model(ne.values@)),
{
    let f = e.update(p, ne);
    assert forall|i: int, j: int| 0 <= i < j < f.len() implies f[i].name@ != f[j].name@ by {
        assert(f[i].name@ == e[i].name@ && f[j].name@ == e[j].name@);
    }
    let m1 = entries_map(f);
    let m2 = entries_map(e).insert(ne.name@, values_model(ne.values@));
    assert forall|k: Seq<char>| m1.contains_key(k) <==> m2.contains_key(k) by {
        if m1.contains_key(k) {
            let i = choose|i: int| 0 <= i < f.len() && f[i].name@ == k;
            assert(e[i].name@ == k);
        }
        if entries_map(e).contains_key(k) {
            let i = choose|i: int| 0 <= i < e.len() && e[i].name@ == k;
            assert(f[i].name@ == k);
        }
        if k == ne.name@ {
            assert(f[p].name@ == k);
        }
    }
    assert forall|k: Seq<char>| m1.contains_key(k) implies m1[k] == m2[k] by {
        let i = choose|i: int| 0 <= i < f.len() && f[i].name@ == k;
        lemma_map_at(f, i);
        if i != p {
            lemma_map_at(e, i);
            assert(f[i] == e[i]);
        }
    }
    assert(m1 =~= m2);
}

proof fn lemma_map_push(e: Seq<StateEntry>, ne: StateEntry)
    requires
        names_distinct(e),
        forall|i: int| 0 <= i < e.len() ==> e[i].name@ != ne.name@,
    ensures
        names_distinct(e.push(ne)),
        entries_map(e.push(ne)) == entries_map(e).insert(ne.name@, values_model(ne.values@)),
{
    let f = e.push(ne);
    assert forall|i: int, j: int| 0 <= i < j < f.len() implies f[i].name@ != f[j].name@ by {
        if j == e.len() {
            assert(f[i] == e[i]);
        } else {
            assert(f[i] == e[i] && f[j] == e[j]);
        }
    }
    let m1 = entries_map(f);
    let m2 = entries_map(e).insert(ne.name@, values_model(ne.values@));
    assert forall|k: Seq<char>| m1.contains_key(k) <==> m2.contains_key(k) by {
        if m1.contains_key(k) && k != ne.name@ {
            let i = choose|i: int| 0 <= i < f.len() && f[i].name@ == k;
            assert(i < e.len());
            assert(e[i].name@ == k);
        }
        if entries_map(e).contains_key(k) {
            let i = choose|i: int| 0 <= i < e.len() && e[i].name@ == k;
            assert(f[i].name@ == k);
        }
        if k == ne.name@ {
            assert(f[e.len() as int].name@ == k);
        }
    }
    assert forall|k: Seq<char>| m1.contains_key(k) implies m1[k] == m2[k] by {
        let i = choose|i: int| 0 <= i < f.len() && f[i].name@ == k;
        lemma_map_at(f, i);
        if i < e.len() {
            lemma_map_at(e, i);
            assert(f[i] == e[i]);
        }
    }
    assert(m1 =~= m2);
}

/// `values` with `value` written at `index`, padded with `Byte(0)` first
/// when too short.
fn with_value(values: Vec<PropertyValue>, index: usize, value: PropertyValue) -> (out: Vec<
    PropertyValue,
>)
    requires
        index < usize::MAX,
    ensures
        values_model(out@) == set_values(values_model(values@), index as int, value@),
{
    let ghost base = values_model(values@);
    let mut values = values;
    while values.len() <= index
        invariant
            index < usize::MAX,
            base.len() <= values@.len(),
            values@.len() <= index + 1 || values@.len() == base.len(),
            forall|k: int| 0 <= k < base.len() ==> values@[k]@ == base[k],
            forall|k: int| base.len() <= k < values@.len() ==> values@[k]@ == ValueModel::Byte(0),
        decreases index + 1 - values@.len(),
    {
        values.push(PropertyValue::Byte(0));
    }
    let ghost vm = value@;
    values.set(index, value);
    assert(values_model(values@) =~= set_values(base, index as int, vm));
    values
}

/// The saved state of the device: for each property name, its values by
/// array index.
pub struct DeviceState {
    entries: Vec<StateEntry>,
}

impl View for DeviceState {
    type V = Map<Seq<char>, Seq<ValueModel>>;

    closed spec fn view(&self) -> Map<Seq<char>, Seq<ValueModel>> {
        entries_map(self.entries@)
    }
}

impl DeviceState {
    #[verifier::type_invariant]
    spec fn inv(self) -> bool {
        names_distinct(self.entries@)
    }

    /// An empty state.
    pub fn new() -> (s: Self)
        ensures
            s@ == Map::<Seq<char>, Seq<ValueModel>>::empty(),
    {
        let s = DeviceState { entries: Vec::new() };
        assert(s@ =~= Map::<Seq<char>, Seq<ValueModel>>::empty());
        s
    }

    fn position(&self, name: &str) -> (pos: Option<usize>)
        ensures
            pos matches Some(p) ==> p < self.entries@.len() && self.entries@[p as int].name@
                == name@,
            pos is None ==> forall|i: int|
                0 <= i < self.entries@.len() ==> self.entries@[i].name@ != name@,
    {
        let mut i: usize = 0;
        while i < self.entries.len()
            invariant
                i <= self.entries@.len(),
                forall|k: int| 0 <= k < i ==> self.entries@[k].name@ != name@,
            decreases self.entries@.len() - i,
        {
            if str_eq(self.entries[i].name.as_str(), name) {
                return Some(i);
            }
            i += 1;
        }
        None
    }

    /// Whether the state holds no property.
    pub fn is_empty(&self) -> (empty: bool)
        ensures
            empty == (self@ == Map::<Seq<char>, Seq<ValueModel>>::empty()),
    {
        proof {
            use_type_invariant(self);
        }
        if self.entries.len() == 0 {
            assert(self@ =~= Map::<Seq<char>, Seq<ValueModel>>::empty());
            true
        } else {
            proof {
                lemma_map_at(self.entries@, 0);
                if self@ == Map::<Seq<char>, Seq<ValueModel>>::empty() {
                    assert(!self@.contains_key(self.entries@[0].name@));
                }
            }
            false
        }
    }

    /// The entries of the state, one per property name.
    pub fn entries(&self) -> (e: &Vec<StateEntry>)
        ensures
            names_distinct(e@),
            entries_map(e@) == self@,
    {
        proof {
            use_type_invariant(self);
        }
        &self.entries
    }

    /// The values held for `name`.
    pub fn values_of(&self, name: &str) -> (v: Option<&Vec<PropertyValue>>)
        ensures
            v is Some <==> self@.contains_key(name@),
            v matches Some(vals) ==> values_model(vals@) == self@[name@],
    {
        proof {
            use_type_invariant(self);
        }
        match self.position(name) {
            Some(p) => {
                proof {
                    lemma_map_at(self.entries@, p as int);
                }
                Some(&self.entries[p].values)
            },
            None => None,
        }
    }

    /// Sets the value of `name` at `index`, padding the list with `Byte(0)`
    /// when it is shorter.
    pub fn set(&mut self, name: &str, index: usize, value: PropertyValue)
        requires
            index < usize::MAX,
        ensures
            final(self)@ == old(self)@.insert(
                name@,
                set_values(values_or_empty(old(self)@, name@), index as int, value@),
            ),
    {
        proof {
            use_type_invariant(&*self);
        }
        let ghost old_map = self@;
        let mut entries: Vec<StateEntry> = Vec::new();
        std::mem::swap(&mut entries, &mut self.entries);
        let ghost old_e = entries@;
        assert(entries_map(old_e) == old_map);
        let mut i: usize = 0;
        let mut found: Option<usize> = None;
        while i < entries.len()
            invariant_except_break
                found is None,
            invariant
                i <= entries@.len(),
                entries@ == old_e,
                forall|k: int| 0 <= k < i ==> entries@[k].name@ != name@,
            ensures
                found matches Some(p) ==> p < old_e.len() && old_e[p as int].name@ == name@,
                found is None ==> i == old_e.len(),
            decreases entries@.len() - i,
        {
            if str_eq(entries[i].name.as_str(), name) {
                found = Some(i);
                break;
            }
            i += 1;
        }
        match found {
            Some(p) => {
                assert(p < old_e.len() && old_e[p as int].name@ == name@);
                proof {
                    lemma_map_at(old_e, p as int);
                }
                let e = entries.remove(p);
                let values = with_value(e.values, index, value);
                let ne = StateEntry { name: e.name, values };
                entries.insert(p, ne);
                proof {
                    assert(entries@ =~= old_e.update(p as int, ne));
                    lemma_map_update(old_e, p as int, ne);
                }
            },
            None => {
                assert(i == old_e.len());
                assert(!old_map.contains_key(name@)) by {
                    if old_map.contains_key(name@) {
                        let k = choose|k: int| 0 <= k < old_e.len() && old_e[k].name@ == name@;
                        assert(old_e[k].name@ != name@);
                    }
                }
                let empty: Vec<PropertyValue> = Vec::new();
                assert(values_model(empty@) =~= Seq::<ValueModel>::empty());
                let values = with_value(empty, index, value);
                let ne = StateEntry { name: String::from_str(name), values };
                entries.push(ne);
                proof {
                    lemma_map_push(old_e, ne);
                }
            },
        }
        self.entries = entries;
    }

    /// The value of `name` at `index`, if the state holds one.
    pub fn get(&self, name: &str, index: usize) -> (v: Option<&PropertyValue>)
        ensures
            v is Some <==> self@.contains_key(name@) && index < self@[name@].len(),
            v matches Some(x) ==> x@ == self@[name@][index as int],
    {
        match self.values_of(name) {
            Some(vals) => if index < vals.len() {
                Some(&vals[index])
            } else {
                None
            },
            None => None,
        }
    }
}


/// Most writes a reconnect sends. Past this many differing values the saved
/// state no longer plausibly describes the attached device, and restoring it
/// would do more harm than leaving the device alone.
pub const MAX_RESTORE_WRITES: usize = 256;

/// A property write the host is to send.
#[derive(Debug, Clone)]
pub struct PendingWrite {
    pub prop_id: u16,
    pub index: u16,
    pub data: Vec<u8>,
    pub name: &'static str,
}

/// The model of a property write.
pub struct WriteModel {
    pub prop_id: u16,
    pub index: u16,
    pub data: Seq<u8>,
    pub name: Seq<char>,
}

impl View for PendingWrite {
    type V = WriteModel;

    open spec fn view(&self) -> WriteModel {
        WriteModel { prop_id: self.prop_id, index: self.index, data: self.data@, name: self.name@ }
    }
}

/// The models of a list of writes.
pub open spec fn writes_model(v: Seq<PendingWrite>) -> Seq<WriteModel> {
    v.map_values(|w: PendingWrite| w@)
}

/// Whether a reconnect may write a property back: it must be writable, and
/// not one of the output trims, whose stale values would silently change the
/// monitoring level.
pub open spec fn is_restorable(d: PropertyDef) -> bool {
    &&& d.writable
    &&& d.name@ != "main_trim"@
    &&& d.name@ != "output_trim"@
}

/// The writes for the first `n` saved values of one property: one for each
/// index whose value the device does not already hold.
pub open spec fn writes_for(d: PropertyDef, want: Seq<ValueModel>, have: Seq<ValueModel>, n: nat) -> Seq<
    WriteModel,
>
    decreases n,
{
    if n == 0 {
        seq![]
    } else {
        let i = n - 1;
        let prev = writes_for(d, want, have, i as nat);
        if i < have.len() && have[i] == want[i] {
            prev
        } else {
            prev.push(
                WriteModel {
                    prop_id: d.id,
                    index: i as u16,
                    data: encode_model(want[i]),
                    name: d.name@,
                },
            )
        }
    }
}

/// The writes for one property: none unless it is restorable and both the
/// saved state and the device hold it.
pub open spec fn def_writes(
    d: PropertyDef,
    desired: Map<Seq<char>, Seq<ValueModel>>,
    current: Map<Seq<char>, Seq<ValueModel>>,
) -> Seq<WriteModel> {
    if is_restorable(d) && desired.contains_key(d.name@) && current.contains_key(d.name@) {
        writes_for(d, desired[d.name@], current[d.name@], desired[d.name@].len())
    } else {
        seq![]
    }
}

/// The writes that bring the device from `current` to `desired`, property by
/// property in the order of `defs`.
pub open spec fn restore_writes(
    defs: Seq<PropertyDef>,
    desired: Map<Seq<char>, Seq<ValueModel>>,
    current: Map<Seq<char>, Seq<ValueModel>>,
) -> Seq<WriteModel>
    decreases defs.len(),
{
    if defs.len() == 0 {
        seq![]
    } else {
        restore_writes(defs.drop_last(), desired, current) + def_writes(
            defs.last(),
            desired,
            current,
        )
    }
}

/// What a reconnect does with the saved state.
#[derive(Debug)]
pub enum RestorePlan {
    /// The device already holds every saved value.
    UpToDate,
    /// Too many values differ (their number is given); nothing is written.
    TooMany(usize),
    /// These writes are to be sent, in order.
    Write(Vec<PendingWrite>),
}

/// Whether `plan` is the decision for the list of writes `w`.
pub open spec fn plan_matches(plan: RestorePlan, w: Seq<WriteModel>) -> bool {
    match plan {
        RestorePlan::UpToDate => w.len() == 0,
        RestorePlan::TooMany(n) => n == w.len() && n > MAX_RESTORE_WRITES,
        RestorePlan::Write(v) => 0 < w.len() <= MAX_RESTORE_WRITES && writes_model(v@) == w,
    }
}

/// Decides which saved values to write back after connecting: only those
/// the device does not already hold, for restorable properties that both
/// the saved state (`desired`) and the device (`current`) hold.
pub fn plan_restore(desired: &DeviceState, current: &DeviceState) -> (plan: RestorePlan)
    ensures
        plan_matches(plan, restore_writes(property_table(), desired@, current@)),
{
    let defs = properties();
    let mut pending: Vec<PendingWrite> = Vec::new();
    let mut k: usize = 0;
    assert(defs@.take(0) =~= Seq::<PropertyDef>::empty());
    while k < defs.len()
        invariant
            defs@ == property_table(),
            k <= defs@.len(),
            writes_model(pending@) == restore_writes(defs@.take(k as int), desired@, current@),
        decreases defs@.len() - k,
    {
        let def = defs[k];
        let ghost before = writes_model(pending@);
        if def.writable && !str_eq(def.name, "main_trim") && !str_eq(def.name, "output_trim") {
            match (desired.values_of(def.name), current.values_of(def.name)) {
                (Some(want), Some(have)) => {
                    let ghost wm = values_model(want@);
                    let ghost hm = values_model(have@);
                    let mut i: usize = 0;
                    while i < want.len()
                        invariant
                            i <= want@.len(),
                            wm == values_model(want@),
                            hm == values_model(have@),
                            writes_model(pending@) == before + writes_for(def, wm, hm, i as nat),
                        decreases want@.len() - i,
                    {
                        let same = i < have.len() && values_equal(&have[i], &want[i]);
                        if !same {
                            let w = PendingWrite {
                                prop_id: def.id,
                                index: #[verifier::truncate] (i as u16),
                                data: want[i].encode(),
                                name: def.name,
                            };
                            let ghost wmodel = w@;
                            assert(wm[i as int] == want@[i as int]@);
                            assert(i < hm.len() ==> hm[i as int] == have@[i as int]@);
                            assert(wmodel == WriteModel {
                                prop_id: def.id,
                                index: i as u16,
                                data: encode_model(wm[i as int]),
                                name: def.name@,
                            });
                            assert(writes_for(def, wm, hm, (i + 1) as nat) == writes_for(def, wm, hm, i as nat).push(wmodel));
                            let ghost old_p = pending@;
                            pending.push(w);
                            assert(writes_model(pending@) =~= writes_model(old_p).push(wmodel));
                            assert(writes_model(pending@) =~= before + writes_for(
                                def,
                                wm,
                                hm,
                                (i + 1) as nat,
                            ));
                        }
                        i += 1;
                    }
                    assert(def_writes(def, desired@, current@) == writes_for(def, wm, hm, wm.len()));
                },
                _ => {
                    assert(def_writes(def, desired@, current@) =~= Seq::<WriteModel>::empty());
                    assert(writes_model(pending@) =~= before + Seq::<WriteModel>::empty());
                },
            }
        } else {
            assert(def_writes(def, desired@, current@) =~= Seq::<WriteModel>::empty());
            assert(writes_model(pending@) =~= before + Seq::<WriteModel>::empty());
        }
        assert(defs@.take(k + 1).drop_last() =~= defs@.take(k as int));
        assert(defs@.take(k + 1).last() == def);
        k += 1;
    }
    assert(defs@.take(defs@.len() as int) =~= defs@);
    if pending.len() == 0 {
        RestorePlan::UpToDate
    } else if pending.len() > MAX_RESTORE_WRITES {
        RestorePlan::TooMany(pending.len())
    } else {
        RestorePlan::Write(pending)
    }
}

/// A saved value written back at index `i` of property `d`.
pub open spec fn write_justified(
    d: PropertyDef,
    desired: Map<Seq<char>, Seq<ValueModel>>,
    current: Map<Seq<char>, Seq<ValueModel>>,
    w: WriteModel,
) -> bool {
    &&& is_restorable(d)
    &&& w.prop_id == d.id
    &&& w.name == d.name@
    &&& desired.contains_key(d.name@)
    &&& current.contains_key(d.name@)
    &&& exists|i: int|
        0 <= i < desired[d.name@].len() && w.index == i as u16 && w.data == encode_model(
            desired[d.name@][i],
        ) && !(i < current[d.name@].len() && current[d.name@][i] == desired[d.name@][i])
}

proof fn lemma_writes_for_justified(
    d: PropertyDef,
    desired: Map<Seq<char>, Seq<ValueModel>>,
    current: Map<Seq<char>, Seq<ValueModel>>,
    n: nat,
)
    requires
        is_restorable(d),
        desired.contains_key(d.name@),
        current.contains_key(d.name@),
        n <= desired[d.name@].len(),
    ensures
        forall|j: int|
            0 <= j < writes_for(d, desired[d.name@], current[d.name@], n).len() ==> write_justified(
                d,
                desired,
                current,
                #[trigger] writes_for(d, desired[d.name@], current[d.name@], n)[j],
            ),
    decreases n,
{
    if n > 0 {
        lemma_writes_for_justified(d, desired, current, (n - 1) as nat);
        let i = n - 1;
        let w = writes_for(d, desired[d.name@], current[d.name@], n);
        let prev = writes_for(d, desired[d.name@], current[d.name@], (n - 1) as nat);
        assert forall|j: int| 0 <= j < w.len() implies write_justified(d, desired, current, #[trigger] w[j]) by {
            if j < prev.len() {
                assert(w[j] == prev[j]);
            } else {
                assert(w[j].index == i as u16);
            }
        }
    }
}

/// Every write a reconnect plans is justified: it targets a restorable
/// property that both states hold, at an index where the device's value
/// differs from the saved one, and it carries the saved value's encoding.
pub proof fn lemma_restore_writes_justified(
    defs: Seq<PropertyDef>,
    desired: Map<Seq<char>, Seq<ValueModel>>,
    current: Map<Seq<char>, Seq<ValueModel>>,
)
    ensures
        forall|j: int|
            0 <= j < restore_writes(defs, desired, current).len() ==> exists|k: int|
                0 <= k < defs.len() && write_justified(
                    defs[k],
                    desired,
                    current,
                    #[trigger] restore_writes(defs, desired, current)[j],
                ),
    decreases defs.len(),
{
    if defs.len() > 0 {
        let init = defs.drop_last();
        let d = defs.last();
        lemma_restore_writes_justified(init, desired, current);
        let prev = restore_writes(init, desired, current);
        let last = def_writes(d, desired, current);
        let all = restore_writes(defs, desired, current);
        if is_restorable(d) && desired.contains_key(d.name@) && current.contains_key(d.name@) {
            lemma_writes_for_justified(d, desired, current, desired[d.name@].len());
        }
        assert forall|j: int| 0 <= j < all.len() implies exists|k: int|
            0 <= k < defs.len() && write_justified(defs[k], desired, current, #[trigger] all[j]) by {
            if j < prev.len() {
                assert(all[j] == prev[j]);
                let k = choose|k: int| 0 <= k < init.len() && write_justified(init[k], desired, current, prev[j]);
                assert(defs[k] == init[k]);
            } else {
                assert(all[j] == last[j - prev.len()]);
                assert(defs[defs.len() - 1] == d);
            }
        }
    }
}

proof fn lemma_writes_for_same(d: PropertyDef, v: Seq<ValueModel>, n: nat)
    requires
        n <= v.len(),
    ensures
        writes_for(d, v, v, n) == Seq::<WriteModel>::empty(),
    decreases n,
{
    if n > 0 {
        lemma_writes_for_same(d, v, (n - 1) as nat);
    }
}

/// Restoring a state onto a device that already holds it writes nothing.
pub proof fn lemma_restore_identical(defs: Seq<PropertyDef>, state: Map<Seq<char>, Seq<ValueModel>>)
    ensures
        restore_writes(defs, state, state) == Seq::<WriteModel>::empty(),
    decreases defs.len(),
{
    if defs.len() > 0 {
        lemma_restore_identical(defs.drop_last(), state);
        let d = defs.last();
        if state.contains_key(d.name@) {
            lemma_writes_for_same(d, state[d.name@], state[d.name@].len());
        }
        assert(restore_writes(defs, state, state) =~= Seq::<WriteModel>::empty());
    }
}

/// The state after a received update: the value read from `data` for the
/// property with id `prop_id`, stored at `index`; `None` when the id is not
/// in the property map or the bytes do not read as a value of its type.
pub open spec fn applied_update(
    m: Map<Seq<char>, Seq<ValueModel>>,
    prop_id: u16,
    index: u16,
    data: Seq<u8>,
) -> Option<Map<Seq<char>, Seq<ValueModel>>> {
    match find_id_in(property_table(), prop_id) {
        Some(d) => match decode_model(d.prop_type, data) {
            Some(v) => Some(m.insert(d.name@, set_values(values_or_empty(m, d.name@), index as int, v))),
            None => None,
        },
        None => None,
    }
}

impl DeviceState {
    /// Folds one property update received from the device into the state.
    /// Returns whether the update named a known property and read as a value.
    pub fn apply_update(&mut self, prop_id: u16, index: u16, data: &[u8]) -> (applied: bool)
        ensures
            match applied_update(old(self)@, prop_id, index, data@) {
                Some(m) => applied && final(self)@ == m,
                None => !applied && final(self)@ == old(self)@,
            },
    {
        match find_by_id(prop_id) {
            Some(def) => match PropertyValue::decode(def.prop_type, data) {
                Some(value) => {
                    self.set(def.name, index as usize, value);
                    true
                },
                None => false,
            },
            None => false,
        }
    }

    /// One step of draining the device's update stream: folds a received
    /// update into the state and says whether to keep reading. Returns the
    /// new count of applied updates and what to do next.
    pub fn sync_step(&mut self, count: usize, event: SyncEvent, past_deadline: bool) -> (res: (
        usize,
        SyncControl,
    ))
        requires
            count < usize::MAX,
        ensures
            match event {
                SyncEvent::Received(id, index, data) => {
                    &&& match applied_update(old(self)@, id, index, data@) {
                        Some(m) => final(self)@ == m && res.0 == count + 1,
                        None => final(self)@ == old(self)@ && res.0 == count,
                    }
                    &&& if past_deadline {
                        res.1 is Stop
                    } else {
                        res.1 is Continue
                    }
                },
                SyncEvent::Idle => final(self)@ == old(self)@ && res.0 == count && res.1 is Stop,
                SyncEvent::Failed(e) => final(self)@ == old(self)@ && res.0 == count && res.1
                    == SyncControl::Abort(e),
            },
    {
        match event {
            SyncEvent::Received(id, index, data) => {
                let applied = self.apply_update(id, index, data.as_slice());
                let count = if applied {
                    count + 1
                } else {
                    count
                };
                if past_deadline {
                    (count, SyncControl::Stop)
                } else {
                    (count, SyncControl::Continue)
                }
            },
            SyncEvent::Idle => (count, SyncControl::Stop),
            SyncEvent::Failed(e) => (count, SyncControl::Abort(e)),
        }
    }
}

/// What the link delivered on one read.
pub enum SyncEvent {
    /// A property update: id, array index and value bytes.
    Received(u16, u16, Vec<u8>),
    /// Nothing arrived in time.
    Idle,
    /// The link failed.
    Failed(ConnectionError),
}

/// What to do after a read.
pub enum SyncControl {
    Continue,
    Stop,
    Abort(ConnectionError),
}

/// Why a property cannot be written.
#[derive(Debug, Clone)]
pub enum PropertyError {
    /// No property has this name.
    UnknownProperty(String),
    /// The property is read-only.
    ReadOnly(String),
}

/// The write that sets `name[index]` to `value`.
pub open spec fn write_request(name: Seq<char>, index: u16, value: ValueModel) -> Result<
    WriteModel,
    Seq<char>,
> {
    match find_name_in(property_table(), name) {
        Some(d) => if d.writable {
            Ok(WriteModel { prop_id: d.id, index, data: encode_model(value), name: d.name@ })
        } else {
            Err(name)
        },
        None => Err(name),
    }
}

/// Checks a property write and prepares its bytes: the property must exist
/// and be writable.
pub fn property_write(name: &str, index: u16, value: &PropertyValue) -> (res: Result<
    PendingWrite,
    PropertyError,
>)
    ensures
        match find_name_in(property_table(), name@) {
            None => res matches Err(PropertyError::UnknownProperty(n)) && n@ == name@,
            Some(d) => if d.writable {
                res matches Ok(w) && w@ == (WriteModel {
                    prop_id: d.id,
                    index,
                    data: encode_model(value@),
                    name: d.name@,
                })
            } else {
                res matches Err(PropertyError::ReadOnly(n)) && n@ == name@
            },
        },
{
    match find_by_name(name) {
        None => Err(PropertyError::UnknownProperty(String::from_str(name))),
        Some(def) => {
            if !def.writable {
                return Err(PropertyError::ReadOnly(String::from_str(name)));
            }
            Ok(PendingWrite { prop_id: def.id, index, data: value.encode(), name: def.name })
        },
    }
}

/// A value written at an index reads back from that index, and the other
/// values of the property keep their place.
pub proof fn lemma_set_then_get(v: Seq<ValueModel>, index: int, x: ValueModel)
    requires
        0 <= index,
    ensures
        set_values(v, index, x).len() == if index < v.len() {
            v.len() as int
        } else {
            index + 1
        },
        set_values(v, index, x)[index] == x,
        forall|j: int| 0 <= j < v.len() && j != index ==> set_values(v, index, x)[j] == v[j],
{
}

/// What the device reports is what the state then holds: an update that
/// carries the encoding of a value of the property's type stores exactly
/// that value at the index it names.
pub proof fn lemma_update_stores_value(
    m: Map<Seq<char>, Seq<ValueModel>>,
    k: int,
    index: u16,
    v: ValueModel,
)
    requires
        0 <= k < property_table().len(),
        crate::protocol::types::model_type(v) == property_table()[k].prop_type,
        crate::protocol::types::fits_wire(v),
    ensures
        applied_update(m, property_table()[k].id, index, encode_model(v)) matches Some(m2) && m2[
            property_table()[k].name@][index as int] == v,
{
    crate::protocol::properties::lemma_every_property_found(k);
    crate::protocol::types::lemma_decode_encode(v);
    lemma_set_then_get(values_or_empty(m, property_table()[k].name@), index as int, v);
}

/// The state after folding in the writes `ws`, in order, each as the
/// update that carries it.
pub open spec fn after_writes(m: Map<Seq<char>, Seq<ValueModel>>, ws: Seq<WriteModel>) -> Map<
    Seq<char>,
    Seq<ValueModel>,
>
    decreases ws.len(),
{
    if ws.len() == 0 {
        m
    } else {
        let prev = after_writes(m, ws.drop_last());
        match applied_update(prev, ws.last().prop_id, ws.last().index, ws.last().data) {
            Some(next) => next,
            None => prev,
        }
    }
}

/// `v` holds the first `n` saved values `want`, and past them what the
/// device held (`have`).
pub open spec fn restored_values(v: Seq<ValueModel>, want: Seq<ValueModel>, have: Seq<ValueModel>, n: nat) -> bool {
    &&& v.len() == if have.len() > n {
        have.len()
    } else {
        n
    }
    &&& forall|j: int| 0 <= j < n ==> v[j] == want[j]
    &&& forall|j: int| n <= j < have.len() ==> v[j] == have[j]
}

proof fn lemma_after_writes_concat(
    m: Map<Seq<char>, Seq<ValueModel>>,
    a: Seq<WriteModel>,
    b: Seq<WriteModel>,
)
    ensures
        after_writes(m, a + b) == after_writes(after_writes(m, a), b),
    decreases b.len(),
{
    if b.len() == 0 {
        assert(a + b =~= a);
    } else {
        lemma_after_writes_concat(m, a, b.drop_last());
        assert((a + b).drop_last() =~= a + b.drop_last());
        assert((a + b).last() == b.last());
    }
}

/// Writes to the property at position `k` of the map change no other
/// property.
proof fn lemma_writes_touch_one(m: Map<Seq<char>, Seq<ValueModel>>, k: int, ws: Seq<WriteModel>, key: Seq<char>)
    requires
        0 <= k < property_table().len(),
        key != property_table()[k].name@,
        forall|j: int| 0 <= j < ws.len() ==> (#[trigger] ws[j]).prop_id == property_table()[k].id,
    ensures
        after_writes(m, ws).contains_key(key) == m.contains_key(key),
        m.contains_key(key) ==> after_writes(m, ws)[key] == m[key],
    decreases ws.len(),
{
    if ws.len() > 0 {
        assert forall|j: int| 0 <= j < ws.drop_last().len() implies (#[trigger] ws.drop_last()[j]).prop_id
            == property_table()[k].id by {
            assert(ws.drop_last()[j] == ws[j]);
        }
        lemma_writes_touch_one(m, k, ws.drop_last(), key);
        crate::protocol::properties::lemma_every_property_found(k);
        assert(ws.last() == ws[ws.len() - 1]);
    }
}

/// Folding in the writes for the first `n` saved values of a property
/// leaves it holding those values.
proof fn lemma_writes_for_restore(
    m: Map<Seq<char>, Seq<ValueModel>>,
    d: PropertyDef,
    want: Seq<ValueModel>,
    have: Seq<ValueModel>,
    n: nat,
)
    requires
        find_id_in(property_table(), d.id) == Some(d),
        m.contains_key(d.name@),
        m[d.name@] == have,
        n <= want.len(),
        want.len() <= 0x10000,
        forall|i: int| 0 <= i < want.len() ==> decode_model(d.prop_type, encode_model(#[trigger] want[i])) == Some(want[i]),
    ensures
        after_writes(m, writes_for(d, want, have, n)).contains_key(d.name@),
        restored_values(after_writes(m, writes_for(d, want, have, n))[d.name@], want, have, n),
    decreases n,
{
    if n == 0 {
        assert(writes_for(d, want, have, 0) =~= Seq::<WriteModel>::empty());
    } else {
        let i = n - 1;
        lemma_writes_for_restore(m, d, want, have, i as nat);
        let prev_ws = writes_for(d, want, have, i as nat);
        let ws = writes_for(d, want, have, n);
        let pm = after_writes(m, prev_ws);
        let v = pm[d.name@];
        if i < have.len() && have[i] == want[i] {
            assert(ws == prev_ws);
        } else {
            let w = WriteModel {
                prop_id: d.id,
                index: i as u16,
                data: encode_model(want[i]),
                name: d.name@,
            };
            assert(ws == prev_ws.push(w));
            assert(ws.drop_last() =~= prev_ws);
            assert(ws.last() == w);
            assert((i as u16) as int == i);
            assert(decode_model(d.prop_type, encode_model(want[i])) == Some(want[i]));
            let nv = set_values(v, i as int, want[i]);
            assert(after_writes(m, ws) == pm.insert(d.name@, nv));
            assert(restored_values(nv, want, have, n));
        }
    }
}

/// The writes a reconnect plans bring the device to the saved values: once
/// they are folded in, every restorable property that both the saved state
/// and the device hold has each of its saved values, for values of the
/// property's type that fit on the wire (and at most 65536 of them, the
/// indices the protocol can address).
pub proof fn lemma_restore_complete(
    desired: Map<Seq<char>, Seq<ValueModel>>,
    current: Map<Seq<char>, Seq<ValueModel>>,
    k: int,
)
    requires
        0 <= k < property_table().len(),
        is_restorable(property_table()[k]),
        desired.contains_key(property_table()[k].name@),
        current.contains_key(property_table()[k].name@),
        desired[property_table()[k].name@].len() <= 0x10000,
        forall|i: int|
            0 <= i < desired[property_table()[k].name@].len() ==> crate::protocol::types::model_type(
                #[trigger] desired[property_table()[k].name@][i],
            ) == property_table()[k].prop_type && crate::protocol::types::fits_wire(
                desired[property_table()[k].name@][i],
            ),
    ensures
        after_writes(current, restore_writes(property_table(), desired, current)).contains_key(
            property_table()[k].name@,
        ),
        after_writes(current, restore_writes(property_table(), desired, current))[property_table()[k].name@].len()
            >= desired[property_table()[k].name@].len(),
        forall|i: int|
            0 <= i < desired[property_table()[k].name@].len() ==> after_writes(
                current,
                restore_writes(property_table(), desired, current),
            )[property_table()[k].name@][i] == desired[property_table()[k].name@][i],
{
    let t = property_table();
    let d = t[k];
    let want = desired[d.name@];
    let have = current[d.name@];
    crate::protocol::properties::lemma_names_distinct();
    crate::protocol::properties::lemma_every_property_found(k);
    assert forall|i: int| 0 <= i < want.len() implies decode_model(d.prop_type, encode_model(#[trigger] want[i]))
        == Some(want[i]) by {
        crate::protocol::types::lemma_decode_encode(want[i]);
    }
    lemma_restore_prefix(desired, current, k, t.len() as int);
    assert(t.take(t.len() as int) =~= t);
}

/// The restore law over the writes for the first `p` properties of the map.
proof fn lemma_restore_prefix(
    desired: Map<Seq<char>, Seq<ValueModel>>,
    current: Map<Seq<char>, Seq<ValueModel>>,
    k: int,
    p: int,
)
    requires
        0 <= k < property_table().len(),
        0 <= p <= property_table().len(),
        is_restorable(property_table()[k]),
        desired.contains_key(property_table()[k].name@),
        current.contains_key(property_table()[k].name@),
        desired[property_table()[k].name@].len() <= 0x10000,
        forall|i: int|
            0 <= i < desired[property_table()[k].name@].len() ==> decode_model(
                property_table()[k].prop_type,
                encode_model(#[trigger] desired[property_table()[k].name@][i]),
            ) == Some(desired[property_table()[k].name@][i]),
    ensures
        after_writes(current, restore_writes(property_table().take(p), desired, current)).contains_key(
            property_table()[k].name@,
        ),
        p <= k ==> after_writes(current, restore_writes(property_table().take(p), desired, current))[
            property_table()[k].name@] == current[property_table()[k].name@],
        p > k ==> restored_values(
            after_writes(current, restore_writes(property_table().take(p), desired, current))[
                property_table()[k].name@],
            desired[property_table()[k].name@],
            current[property_table()[k].name@],
            desired[property_table()[k].name@].len(),
        ),
    decreases p,
{
    let t = property_table();
    let d = t[k];
    let want = desired[d.name@];
    let have = current[d.name@];
    if p == 0 {
        assert(t.take(0) =~= Seq::<PropertyDef>::empty());
    } else {
        lemma_restore_prefix(desired, current, k, p - 1);
        crate::protocol::properties::lemma_names_distinct();
        crate::protocol::properties::lemma_every_property_found(k);
        let e = t[p - 1];
        let before = restore_writes(t.take(p - 1), desired, current);
        let m = after_writes(current, before);
        let extra = def_writes(e, desired, current);
        assert(t.take(p).drop_last() =~= t.take(p - 1));
        assert(t.take(p).last() == e);
        assert(restore_writes(t.take(p), desired, current) == before + extra);
        lemma_after_writes_concat(current, before, extra);
        if p - 1 == k {
            lemma_writes_for_restore(m, d, want, have, want.len());
        } else {
            assert(e.name@ != d.name@);
            assert forall|j: int| 0 <= j < extra.len() implies (#[trigger] extra[j]).prop_id == t[p - 1].id by {
                if is_restorable(e) && desired.contains_key(e.name@) && current.contains_key(e.name@) {
                    lemma_writes_for_ids(e, desired[e.name@], current[e.name@], desired[e.name@].len());
                }
            }
            lemma_writes_touch_one(m, p - 1, extra, d.name@);
        }
    }
}

proof fn lemma_writes_for_ids(d: PropertyDef, want: Seq<ValueModel>, have: Seq<ValueModel>, n: nat)
    ensures
        forall|j: int|
            0 <= j < writes_for(d, want, have, n).len() ==> (#[trigger] writes_for(d, want, have, n)[j]).prop_id
                == d.id,
    decreases n,
{
    if n > 0 {
        lemma_writes_for_ids(d, want, have, (n - 1) as nat);
        let prev = writes_for(d, want, have, (n - 1) as nat);
        let ws = writes_for(d, want, have, n);
        assert forall|j: int| 0 <= j < ws.len() implies (#[trigger] ws[j]).prop_id == d.id by {
            if j < prev.len() {
                assert(ws[j] == prev[j]);
            }
        }
    }
}

/// Writes to the property at position `k` of the map, which `m` already
/// holds, add no property.
proof fn lemma_writes_keep_dom(m: Map<Seq<char>, Seq<ValueModel>>, k: int, ws: Seq<WriteModel>)
    requires
        0 <= k < property_table().len(),
        m.contains_key(property_table()[k].name@),
        forall|j: int| 0 <= j < ws.len() ==> (#[trigger] ws[j]).prop_id == property_table()[k].id,
    ensures
        after_writes(m, ws).dom() == m.dom(),
    decreases ws.len(),
{
    if ws.len() > 0 {
        assert forall|j: int| 0 <= j < ws.drop_last().len() implies (#[trigger] ws.drop_last()[j]).prop_id
            == property_table()[k].id by {
            assert(ws.drop_last()[j] == ws[j]);
        }
        lemma_writes_keep_dom(m, k, ws.drop_last());
        crate::protocol::properties::lemma_every_property_found(k);
        assert(ws.last() == ws[ws.len() - 1]);
        let prev = after_writes(m, ws.drop_last());
        assert(prev.contains_key(property_table()[k].name@));
        assert(after_writes(m, ws).dom() =~= m.dom());
    }
}

/// The planned writes for the first `p` properties add no property to the
/// device's state.
proof fn lemma_restore_keeps_dom(
    desired: Map<Seq<char>, Seq<ValueModel>>,
    current: Map<Seq<char>, Seq<ValueModel>>,
    p: int,
)
    requires
        0 <= p <= property_table().len(),
    ensures
        after_writes(current, restore_writes(property_table().take(p), desired, current)).dom()
            == current.dom(),
    decreases p,
{
    let t = property_table();
    if p == 0 {
        assert(t.take(0) =~= Seq::<PropertyDef>::empty());
    } else {
        lemma_restore_keeps_dom(desired, current, p - 1);
        let e = t[p - 1];
        let before = restore_writes(t.take(p - 1), desired, current);
        let m = after_writes(current, before);
        let extra = def_writes(e, desired, current);
        assert(t.take(p).drop_last() =~= t.take(p - 1));
        assert(t.take(p).last() == e);
        assert(restore_writes(t.take(p), desired, current) == before + extra);
        lemma_after_writes_concat(current, before, extra);
        if is_restorable(e) && desired.contains_key(e.name@) && current.contains_key(e.name@) {
            lemma_writes_for_ids(e, desired[e.name@], current[e.name@], desired[e.name@].len());
            lemma_writes_keep_dom(m, p - 1, extra);
        } else {
            assert(extra =~= Seq::<WriteModel>::empty());
            assert(after_writes(m, extra) == m);
        }
    }
}

/// No writes are planned for values the device already holds.
proof fn lemma_writes_for_held(d: PropertyDef, want: Seq<ValueModel>, have: Seq<ValueModel>, n: nat)
    requires
        n <= want.len(),
        forall|i: int| #![trigger want[i]] (0 <= i && i < n) ==> (i < have.len() && have[i] == want[i]),
    ensures
        writes_for(d, want, have, n) == Seq::<WriteModel>::empty(),
    decreases n,
{
    if n > 0 {
        let w = want[n - 1];
        assert(n - 1 < have.len() && have[n - 1] == w);
        lemma_writes_for_held(d, want, have, (n - 1) as nat);
    }
}

/// Whether every saved value of every restorable property that both states
/// hold is of the property's type and fits on the wire, and each such
/// property has at most 65536 saved values.
pub open spec fn restorable_values_fit(
    desired: Map<Seq<char>, Seq<ValueModel>>,
    current: Map<Seq<char>, Seq<ValueModel>>,
) -> bool {
    forall|k: int|
        0 <= k < property_table().len() && is_restorable(#[trigger] property_table()[k])
            && desired.contains_key(property_table()[k].name@) && current.contains_key(
            property_table()[k].name@,
        ) ==> {
            &&& desired[property_table()[k].name@].len() <= 0x10000
            &&& forall|i: int|
                0 <= i < desired[property_table()[k].name@].len()
                    ==> crate::protocol::types::model_type(
                    #[trigger] desired[property_table()[k].name@][i],
                ) == property_table()[k].prop_type && crate::protocol::types::fits_wire(
                    desired[property_table()[k].name@][i],
                )
        }
}

/// A reconnect's restore settles: once the device has applied the planned
/// writes, planning again writes nothing (for saved values of their
/// properties' types that fit on the wire).
pub proof fn lemma_restore_idempotent(
    desired: Map<Seq<char>, Seq<ValueModel>>,
    current: Map<Seq<char>, Seq<ValueModel>>,
)
    requires
        restorable_values_fit(desired, current),
    ensures
        restore_writes(
            property_table(),
            desired,
            after_writes(current, restore_writes(property_table(), desired, current)),
        ) == Seq::<WriteModel>::empty(),
{
    let t = property_table();
    let after = after_writes(current, restore_writes(t, desired, current));
    assert(t.take(t.len() as int) =~= t);
    lemma_restore_keeps_dom(desired, current, t.len() as int);
    lemma_restore_settled_prefix(desired, current, t.len() as int);
}

/// The second plan over the first `p` properties writes nothing.
proof fn lemma_restore_settled_prefix(
    desired: Map<Seq<char>, Seq<ValueModel>>,
    current: Map<Seq<char>, Seq<ValueModel>>,
    p: int,
)
    requires
        0 <= p <= property_table().len(),
        restorable_values_fit(desired, current),
        after_writes(current, restore_writes(property_table(), desired, current)).dom()
            == current.dom(),
    ensures
        restore_writes(
            property_table().take(p),
            desired,
            after_writes(current, restore_writes(property_table(), desired, current)),
        ) == Seq::<WriteModel>::empty(),
    decreases p,
{
    let t = property_table();
    let after = after_writes(current, restore_writes(t, desired, current));
    if p == 0 {
        assert(t.take(0) =~= Seq::<PropertyDef>::empty());
    } else {
        lemma_restore_settled_prefix(desired, current, p - 1);
        let e = t[p - 1];
        assert(t.take(p).drop_last() =~= t.take(p - 1));
        assert(t.take(p).last() == e);
        if is_restorable(e) && desired.contains_key(e.name@) && after.contains_key(e.name@) {
            assert(current.contains_key(e.name@));
            lemma_restore_complete(desired, current, p - 1);
            assert forall|i: int| 0 <= i < desired[e.name@].len() implies i < after[e.name@].len()
                && after[e.name@][i] == #[trigger] desired[e.name@][i] by {}
            lemma_writes_for_held(e, desired[e.name@], after[e.name@], desired[e.name@].len());
        }
        assert(def_writes(e, desired, after) =~= Seq::<WriteModel>::empty());
        assert(restore_writes(t.take(p), desired, after) =~= Seq::<WriteModel>::empty());
    }
}

/// A reconnect never writes back an output trim: no planned write targets
/// `output_trim` (id 5000) or `main_trim` (id 5011), and every planned
/// write targets a writable property, whatever the saved state and
/// whatever the device reports.
pub proof fn lemma_restore_skips_trims(
    desired: Map<Seq<char>, Seq<ValueModel>>,
    current: Map<Seq<char>, Seq<ValueModel>>,
)
    ensures
        forall|j: int|
            0 <= j < restore_writes(property_table(), desired, current).len() ==> {
                let w = #[trigger] restore_writes(property_table(), desired, current)[j];
                w.prop_id != 5000 && w.prop_id != 5011
            },
        forall|j: int|
            0 <= j < restore_writes(property_table(), desired, current).len() ==> (find_id_in(
                property_table(),
                (#[trigger] restore_writes(property_table(), desired, current)[j]).prop_id,
            ) matches Some(d) && d.writable),
{
    let t = property_table();
    let ws = restore_writes(t, desired, current);
    lemma_restore_writes_justified(t, desired, current);
    crate::protocol::properties::lemma_ids_distinct();
    assert(t[17].id == 5000 && t[17].name@ == "output_trim"@);
    assert(t[18].id == 5011 && t[18].name@ == "main_trim"@);
    assert forall|j: int| 0 <= j < ws.len() implies {
        let w = #[trigger] ws[j];
        w.prop_id != 5000 && w.prop_id != 5011
    } by {
        let k = choose|k: int| 0 <= k < t.len() && write_justified(t[k], desired, current, ws[j]);
        assert(write_justified(t[k], desired, current, ws[j]));
        if ws[j].prop_id == 5000 {
            assert(t[k].id == t[17].id);
            assert(k == 17);
        }
        if ws[j].prop_id == 5011 {
            assert(t[k].id == t[18].id);
            assert(k == 18);
        }
    }
    assert forall|j: int| 0 <= j < ws.len() implies (find_id_in(t, (#[trigger] ws[j]).prop_id) matches Some(
        d,
    ) && d.writable) by {
        let k = choose|k: int| 0 <= k < t.len() && write_justified(t[k], desired, current, ws[j]);
        crate::protocol::properties::lemma_every_property_found(k);
    }
}

} // verus!
