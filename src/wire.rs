//! The values that travel on the bus, as far as this interface uses them,
//! and the string-keyed records (`a{sv}`) that options and results are sent in.
use vstd::prelude::*;

verus! {

/// Why a reply could not be read as the expected type.
#[derive(Debug, Clone, Copy, PartialEq, Eq, Structural)]
pub enum DecodeError {
    /// A value has another shape than the one expected.
    SignatureMismatch,
    /// An enumeration tag or ordinal names no known case.
    UnknownVariant,
    /// A field that must be present is missing.
    Truncated,
}

/// A variant value (`v`) of the kinds this interface exchanges.
#[derive(Debug, PartialEq, Eq)]
pub enum Value {
    /// A boolean (`b`).
    Bool(bool),
    /// An unsigned 32-bit integer (`u`).
    U32(u32),
    /// A string (`s`).
    Str(String),
    /// A byte array (`ay`).
    Bytes(Vec<u8>),
    /// A string array (`as`).
    StrList(Vec<String>),
    /// A value of any other kind, which no field of this interface has.
    Other,
}

/// The mathematical content of a [`Value`].
pub enum ValueView {
    Bool(bool),
    U32(u32),
    Str(Seq<char>),
    Bytes(Seq<u8>),
    StrList(Seq<Seq<char>>),
    Other,
}

/// The contents of a list of strings.
pub open spec fn strings_view(v: Seq<String>) -> Seq<Seq<char>> {
    v.map_values(|s: String| s@)
}

impl View for Value {
    type V = ValueView;

    open spec fn view(&self) -> ValueView {
        match self {
            Value::Bool(b) => ValueView::Bool(*b),
            Value::U32(n) => ValueView::U32(*n),
            Value::Str(s) => ValueView::Str(s@),
            Value::Bytes(b) => ValueView::Bytes(b@),
            Value::StrList(l) => ValueView::StrList(strings_view(l@)),
            Value::Other => ValueView::Other,
        }
    }
}

/// One named entry of a record.
#[derive(Debug, PartialEq, Eq)]
pub struct Entry {
    pub key: String,
    pub value: Value,
}

impl View for Entry {
    type V = (Seq<char>, ValueView);

    open spec fn view(&self) -> (Seq<char>, ValueView) {
        (self.key@, self.value@)
    }
}

/// The contents of a record, entry by entry, in order.
pub open spec fn record_view(r: Seq<Entry>) -> Seq<(Seq<char>, ValueView)> {
    r.map_values(|e: Entry| e@)
}

/// The value of the first entry named `key`, if any.
pub open spec fn lookup(r: Seq<(Seq<char>, ValueView)>, key: Seq<char>) -> Option<ValueView>
    decreases r.len(),
{
    if r.len() == 0 {
        None
    } else if r[0].0 == key {
        Some(r[0].1)
    } else {
        lookup(r.drop_first(), key)
    }
}

/// A record of one entry, or of none.
pub open spec fn entry_if(key: Seq<char>, v: Option<ValueView>) -> Seq<(Seq<char>, ValueView)> {
    match v {
        Some(x) => seq![(key, x)],
        None => Seq::empty(),
    }
}

/// Looking a key up in two records laid end to end looks in the first, then the second.
pub proof fn lemma_lookup_concat(a: Seq<(Seq<char>, ValueView)>, b: Seq<(Seq<char>, ValueView)>, key: Seq<char>)
    ensures
        lookup(a + b, key) == (match lookup(a, key) {
            Some(v) => Some(v),
            None => lookup(b, key),
        }),
    decreases a.len(),
{
    if a.len() == 0 {
        assert(a + b =~= b);
    } else {
        assert((a + b).drop_first() =~= a.drop_first() + b);
        lemma_lookup_concat(a.drop_first(), b, key);
    }
}

/// A record of at most one entry holds exactly that entry.
pub proof fn lemma_lookup_entry_if(k: Seq<char>, v: Option<ValueView>, key: Seq<char>)
    ensures
        lookup(entry_if(k, v), key) == (if k == key { v } else { None }),
{
    let r = entry_if(k, v);
    if v.is_some() {
        assert(r.drop_first() =~= Seq::<(Seq<char>, ValueView)>::empty());
        assert(lookup(r.drop_first(), key) == None::<ValueView>);
    }
}

/// The position of the first entry named `key`.
pub fn find(record: &Vec<Entry>, key: &String) -> (r: Option<usize>)
    ensures
        match r {
            Some(i) => i < record@.len() && record@[i as int].key@ == key@ && lookup(
                record_view(record@),
                key@,
            ) == Some(record@[i as int].value@),
            None => lookup(record_view(record@), key@) == None::<ValueView>,
        },
{
    let ghost full = record_view(record@);
    let mut i: usize = 0;
    assert(full.subrange(0, full.len() as int) =~= full);
    while i < record.len()
        invariant
            i <= record@.len(),
            full == record_view(record@),
            lookup(full, key@) == lookup(full.subrange(i as int, full.len() as int), key@),
        decreases record@.len() - i,
    {
        let ghost rest = full.subrange(i as int, full.len() as int);
        assert(rest[0] == record@[i as int]@);
        if record[i].key == *key {
            return Some(i);
        }
        assert(rest.drop_first() =~= full.subrange(i + 1, full.len() as int));
        i = i + 1;
    }
    assert(full.subrange(i as int, full.len() as int) =~= Seq::<(Seq<char>, ValueView)>::empty());
    None
}

} // verus!
