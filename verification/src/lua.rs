//! The Lua values that tool calls exchange with the VM: strings of bytes,
//! keys, scalar values, and tables with raw (metatable-free) access.
use vstd::prelude::*;
use vstd::slice::slice_to_vec;
use vstd::string::StringSliceAdditionalSpecFns;

verus! {

/// A Lua string: an arbitrary sequence of bytes.
#[derive(Debug, Clone, PartialEq, Eq)]
pub struct LuaString {
    bytes: Vec<u8>,
}

impl View for LuaString {
    type V = Seq<u8>;

    closed spec fn view(&self) -> Seq<u8> {
        self.bytes@
    }
}

impl LuaString {
    /// The string holding the UTF-8 encoding of `s`.
    pub fn from_str(s: &str) -> (r: LuaString)
        ensures
            r@ == s.spec_bytes(),
    {
        LuaString { bytes: slice_to_vec(s.as_bytes()) }
    }

    /// The string holding exactly `bytes`.
    pub fn from_bytes(bytes: Vec<u8>) -> (r: LuaString)
        ensures
            r@ == bytes@,
    {
        LuaString { bytes }
    }

    /// The bytes of the string.
    pub fn as_bytes(&self) -> (r: &[u8])
        ensures
            r@ == self@,
    {
        self.bytes.as_slice()
    }

    /// A copy of the string.
    pub fn duplicate(&self) -> (r: LuaString)
        ensures
            r@ == self@,
    {
        LuaString { bytes: slice_to_vec(self.bytes.as_slice()) }
    }

    /// Whether two strings hold the same bytes.
    pub fn same_as(&self, other: &LuaString) -> (r: bool)
        ensures
            r == (self@ == other@),
    {
        let n = self.bytes.len();
        if n != other.bytes.len() {
            return false;
        }
        let mut i: usize = 0;
        while i < n
            invariant
                n == self@.len(),
                n == other@.len(),
                i <= n,
                forall|j: int| 0 <= j < i ==> self@[j] == other@[j],
            decreases n - i,
        {
            if self.bytes[i] != other.bytes[i] {
                return false;
            }
            i = i + 1;
        }
        assert(self@ =~= other@);
        true
    }
}

/// What a table key stands for.
pub enum KeyModel {
    Integer(i64),
    Boolean(bool),
    Str(Seq<u8>),
}

/// What a Lua value stands for.
pub enum ValueModel {
    Nil,
    Boolean(bool),
    Integer(i64),
    Str(Seq<u8>),
    Handle(u64),
}

/// A key of a Lua table.
#[derive(Debug, Clone, PartialEq, Eq)]
pub enum LuaKey {
    Integer(i64),
    Boolean(bool),
    String(LuaString),
}

impl View for LuaKey {
    type V = KeyModel;

    open spec fn view(&self) -> KeyModel {
        match self {
            LuaKey::Integer(n) => KeyModel::Integer(*n),
            LuaKey::Boolean(b) => KeyModel::Boolean(*b),
            LuaKey::String(s) => KeyModel::Str(s@),
        }
    }
}

/// A Lua value. Values the tools never look inside (tables, functions)
/// are held as a handle that the caller chose for them.
#[derive(Debug, Clone, PartialEq, Eq)]
pub enum LuaValue {
    Nil,
    Boolean(bool),
    Integer(i64),
    String(LuaString),
    Handle(u64),
}

impl View for LuaValue {
    type V = ValueModel;

    open spec fn view(&self) -> ValueModel {
        match self {
            LuaValue::Nil => ValueModel::Nil,
            LuaValue::Boolean(b) => ValueModel::Boolean(*b),
            LuaValue::Integer(n) => ValueModel::Integer(*n),
            LuaValue::String(s) => ValueModel::Str(s@),
            LuaValue::Handle(h) => ValueModel::Handle(*h),
        }
    }
}

/// The key model of a string key spelled by `s`.
pub open spec fn str_key_model(s: Seq<char>) -> KeyModel {
    KeyModel::Str(vstd::utf8::encode_utf8(s))
}

impl LuaKey {
    /// The string key whose bytes are the UTF-8 encoding of `s`.
    pub fn from_str(s: &str) -> (r: LuaKey)
        ensures
            r@ == str_key_model(s@),
    {
        LuaKey::String(LuaString::from_str(s))
    }

    /// Whether two keys are the same key.
    pub fn same_as(&self, other: &LuaKey) -> (r: bool)
        ensures
            r == (self@ == other@),
    {
        match (self, other) {
            (LuaKey::Integer(a), LuaKey::Integer(b)) => *a == *b,
            (LuaKey::Boolean(a), LuaKey::Boolean(b)) => *a == *b,
            (LuaKey::String(a), LuaKey::String(b)) => a.same_as(b),
            _ => false,
        }
    }
}

impl LuaValue {
    /// A copy of the value.
    pub fn duplicate(&self) -> (r: LuaValue)
        ensures
            r@ == self@,
    {
        match self {
            LuaValue::Nil => LuaValue::Nil,
            LuaValue::Boolean(b) => LuaValue::Boolean(*b),
            LuaValue::Integer(n) => LuaValue::Integer(*n),
            LuaValue::String(s) => LuaValue::String(s.duplicate()),
            LuaValue::Handle(h) => LuaValue::Handle(*h),
        }
    }
}

/// One key/value pair of a table.
#[derive(Debug, Clone, PartialEq, Eq)]
struct Slot {
    key: LuaKey,
    value: LuaValue,
}

/// A Lua table, read and written without metamethods.
///
/// A key that maps to `nil` is absent from the table.
#[derive(Debug, PartialEq, Eq)]
pub struct LuaTable {
    slots: Vec<Slot>,
}

/// The table `t` after `v` is stored under `k`: storing `nil` removes the key.
pub open spec fn after_rawset(t: Map<KeyModel, ValueModel>, k: KeyModel, v: ValueModel) -> Map<KeyModel, ValueModel> {
    if v is Nil {
        t.remove(k)
    } else {
        t.insert(k, v)
    }
}

/// A read gives back what the last write under the same key stored; a key
/// written `nil` is absent; every other key keeps what it held.
pub proof fn lemma_read_after_write(t: Map<KeyModel, ValueModel>, k: KeyModel, v: ValueModel, other: KeyModel)
    ensures
        after_rawset(t, k, v).contains_key(k) == !(v is Nil),
        !(v is Nil) ==> after_rawset(t, k, v)[k] == v,
        other != k ==> after_rawset(t, k, v).contains_key(other) == t.contains_key(other),
        other != k && t.contains_key(other) ==> after_rawset(t, k, v)[other] == t[other],
{
}

impl LuaTable {
    #[verifier::type_invariant]
    closed spec fn well_formed(&self) -> bool {
        &&& forall|i: int, j: int|
            0 <= i < self.slots@.len() && 0 <= j < self.slots@.len() && i != j
                ==> #[trigger] self.slots@[i].key@ != #[trigger] self.slots@[j].key@
        &&& forall|i: int| 0 <= i < self.slots@.len() ==> !(#[trigger] self.slots@[i].value@ is Nil)
    }
}

impl View for LuaTable {
    type V = Map<KeyModel, ValueModel>;

    closed spec fn view(&self) -> Map<KeyModel, ValueModel> {
        Map::new(
            |k: KeyModel| exists|i: int| 0 <= i < self.slots@.len() && #[trigger] self.slots@[i].key@ == k,
            |k: KeyModel|
                self.slots@[choose|i: int| 0 <= i < self.slots@.len() && #[trigger] self.slots@[i].key@ == k].value@,
        )
    }
}

impl LuaTable {
    /// The empty table.
    pub fn new() -> (r: LuaTable)
        ensures
            r@ == Map::<KeyModel, ValueModel>::empty(),
    {
        let r = LuaTable { slots: Vec::new() };
        assert(r@ =~= Map::<KeyModel, ValueModel>::empty());
        r
    }

    /// The index of the slot holding `key`, if any.
    fn find_in(slots: &Vec<Slot>, key: &LuaKey) -> (r: Option<usize>)
        ensures
            match r {
                Some(i) => i < slots@.len() && slots@[i as int].key@ == key@,
                None => forall|i: int| 0 <= i < slots@.len() ==> slots@[i].key@ != key@,
            },
    {
        let n = slots.len();
        let mut i: usize = 0;
        while i < n
            invariant
                n == slots@.len(),
                i <= n,
                forall|j: int| 0 <= j < i ==> slots@[j].key@ != key@,
            decreases n - i,
        {
            if slots[i].key.same_as(key) {
                return Some(i);
            }
            i = i + 1;
        }
        None
    }

    /// The value stored under `key`, or `None` where the key is absent.
    pub fn get(&self, key: &LuaKey) -> (r: Option<&LuaValue>)
        ensures
            match r {
                Some(v) => self@.contains_key(key@) && self@[key@] == v@ && !(v@ is Nil),
                None => !self@.contains_key(key@),
            },
    {
        proof {
            use_type_invariant(self);
        }
        match Self::find_in(&self.slots, key) {
            Some(i) => {
                let ghost k = key@;
                assert(self.slots@[i as int].key@ == k);
                let ghost c = choose|j: int| 0 <= j < self.slots@.len() && #[trigger] self.slots@[j].key@ == k;
                assert(c == i as int);
                Some(&self.slots[i].value)
            },
            None => None,
        }
    }

    /// Stores `value` under `key`; storing `nil` removes the key.
    pub fn rawset(&mut self, key: LuaKey, value: LuaValue)
        ensures
            final(self)@ == after_rawset(old(self)@, key@, value@),
    {
        proof {
            use_type_invariant(&*self);
        }
        let ghost old_slots = self.slots@;
        let ghost k = key@;
        let ghost old_view = self@;
        let mut slots: Vec<Slot> = Vec::new();
        std::mem::swap(&mut slots, &mut self.slots);
        let is_nil = match &value {
            LuaValue::Nil => true,
            _ => false,
        };
        match Self::find_in(&slots, &key) {
            Some(i) => {
                if is_nil {
                    slots.remove(i);
                    self.slots = slots;
                    proof {
                        let new_view = self@;
                        assert forall|k2: KeyModel| #[trigger] new_view.contains_key(k2) == old_view.remove(k).contains_key(k2) by {
                            if new_view.contains_key(k2) {
                                let j = choose|j: int| 0 <= j < self.slots@.len() && #[trigger] self.slots@[j].key@ == k2;
                                if j < i {
                                    assert(old_slots[j].key@ == k2);
                                } else {
                                    assert(old_slots[j + 1].key@ == k2);
                                }
                            }
                            if old_view.remove(k).contains_key(k2) {
                                let j = choose|j: int| 0 <= j < old_slots.len() && #[trigger] old_slots[j].key@ == k2;
                                assert(j != i);
                                if j < i {
                                    assert(self.slots@[j].key@ == k2);
                                } else {
                                    assert(self.slots@[j - 1].key@ == k2);
                                }
                            }
                        }
                        assert forall|k2: KeyModel| #[trigger] new_view.contains_key(k2) implies new_view[k2] == old_view.remove(k)[k2] by {
                            let j = choose|j: int| 0 <= j < self.slots@.len() && #[trigger] self.slots@[j].key@ == k2;
                            let oj = if j < i { j } else { j + 1 };
                            assert(old_slots[oj].key@ == k2);
                            let c = choose|c: int| 0 <= c < old_slots.len() && #[trigger] old_slots[c].key@ == k2;
                            assert(c == oj);
                        }
                        assert(new_view =~= old_view.remove(k));
                    }
                } else {
                    slots.set(i, Slot { key, value });
                    self.slots = slots;
                    proof {
                        let new_view = self@;
                        let nv = self.slots@[i as int].value@;
                        assert forall|k2: KeyModel| #[trigger] new_view.contains_key(k2) == old_view.insert(k, nv).contains_key(k2) by {
                            if new_view.contains_key(k2) {
                                let j = choose|j: int| 0 <= j < self.slots@.len() && #[trigger] self.slots@[j].key@ == k2;
                                if j != i {
                                    assert(old_slots[j].key@ == k2);
                                }
                            }
                            if old_view.insert(k, nv).contains_key(k2) {
                                if k2 == k {
                                    assert(self.slots@[i as int].key@ == k2);
                                } else {
                                    let j = choose|j: int| 0 <= j < old_slots.len() && #[trigger] old_slots[j].key@ == k2;
                                    assert(self.slots@[j].key@ == k2);
                                }
                            }
                        }
                        assert forall|k2: KeyModel| #[trigger] new_view.contains_key(k2) implies new_view[k2] == old_view.insert(k, nv)[k2] by {
                            let j = choose|j: int| 0 <= j < self.slots@.len() && #[trigger] self.slots@[j].key@ == k2;
                            if j != i {
                                assert(old_slots[j].key@ == k2);
                                let c = choose|c: int| 0 <= c < old_slots.len() && #[trigger] old_slots[c].key@ == k2;
                                assert(c == j);
                            }
                        }
                        assert(new_view =~= old_view.insert(k, nv));
                    }
                }
            },
            None => {
                if !is_nil {
                    slots.push(Slot { key, value });
                    self.slots = slots;
                    proof {
                        let new_view = self@;
                        let n = old_slots.len() as int;
                        let nv = self.slots@[n].value@;
                        assert forall|k2: KeyModel| #[trigger] new_view.contains_key(k2) == old_view.insert(k, nv).contains_key(k2) by {
                            if new_view.contains_key(k2) {
                                let j = choose|j: int| 0 <= j < self.slots@.len() && #[trigger] self.slots@[j].key@ == k2;
                                if j != n {
                                    assert(old_slots[j].key@ == k2);
                                }
                            }
                            if old_view.insert(k, nv).contains_key(k2) {
                                if k2 == k {
                                    assert(self.slots@[n].key@ == k2);
                                } else {
                                    let j = choose|j: int| 0 <= j < old_slots.len() && #[trigger] old_slots[j].key@ == k2;
                                    assert(self.slots@[j].key@ == k2);
                                }
                            }
                        }
                        assert forall|k2: KeyModel| #[trigger] new_view.contains_key(k2) implies new_view[k2] == old_view.insert(k, nv)[k2] by {
                            let j = choose|j: int| 0 <= j < self.slots@.len() && #[trigger] self.slots@[j].key@ == k2;
                            if j != n {
                                assert(old_slots[j].key@ == k2);
                                let c = choose|c: int| 0 <= c < old_slots.len() && #[trigger] old_slots[c].key@ == k2;
                                assert(c == j);
                            }
                        }
                        assert(new_view =~= old_view.insert(k, nv));
                    }
                } else {
                    self.slots = slots;
                    proof {
                        assert(!old_view.contains_key(k));
                        assert(old_view.remove(k) =~= old_view);
                    }
                }
            },
        }
    }
}

} // verus!
