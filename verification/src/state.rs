//! The decoded v86 saved-state object: a JSON-like tree whose typed buffers
//! are referenced by id, and the accessors that state restore reads it with.
use vstd::prelude::*;
use crate::text::{decimal, text_num_text, text_num_text_num_text};

verus! {

/// A value of the decoded state tree. Numbers keep what the restore code
/// reads of them: an integer that fits `i64`, a larger unsigned one, or a
/// non-integer (whose value is never read).
#[derive(Debug)]
pub enum StateValue {
    Null,
    Bool(bool),
    Int(i64),
    UInt(u64),
    Float,
    Str(String),
    Array(Vec<StateValue>),
    Object(Vec<(String, StateValue)>),
}

/// The value as a signed integer, when it is one that fits.
pub open spec fn as_i64_of(v: StateValue) -> Option<i64> {
    match v {
        StateValue::Int(x) => Some(x),
        StateValue::UInt(x) => if x <= i64::MAX {
            Some(x as i64)
        } else {
            None
        },
        _ => None,
    }
}

/// The value as an unsigned integer, when it is a non-negative integer.
pub open spec fn as_u64_of(v: StateValue) -> Option<u64> {
    match v {
        StateValue::Int(x) => if x >= 0 {
            Some(x as u64)
        } else {
            None
        },
        StateValue::UInt(x) => Some(x),
        _ => None,
    }
}

/// The value as a boolean, when it is one.
pub open spec fn as_bool_of(v: StateValue) -> Option<bool> {
    match v {
        StateValue::Bool(b) => Some(b),
        _ => None,
    }
}

/// The elements, when the value is an array.
pub open spec fn as_array_of(v: StateValue) -> Option<Seq<StateValue>> {
    match v {
        StateValue::Array(a) => Some(a@),
        _ => None,
    }
}

/// The first entry of `entries` whose key is `key`.
pub open spec fn entry_value(entries: Seq<(String, StateValue)>, key: Seq<char>) -> Option<StateValue>
    decreases entries.len(),
{
    if entries.len() == 0 {
        None
    } else if entries[0].0@ == key {
        Some(entries[0].1)
    } else {
        entry_value(entries.drop_first(), key)
    }
}

/// The element at `i`, if there is one.
pub open spec fn slot(s: Seq<StateValue>, i: int) -> Option<StateValue> {
    if 0 <= i < s.len() {
        Some(s[i])
    } else {
        None
    }
}

impl StateValue {
    /// The value as a signed integer.
    pub fn as_i64(&self) -> (r: Option<i64>)
        ensures
            r == as_i64_of(*self),
    {
        match self {
            StateValue::Int(x) => Some(*x),
            StateValue::UInt(x) => if *x <= i64::MAX as u64 {
                Some(*x as i64)
            } else {
                None
            },
            _ => None,
        }
    }

    /// The value as an unsigned integer.
    pub fn as_u64(&self) -> (r: Option<u64>)
        ensures
            r == as_u64_of(*self),
    {
        match self {
            StateValue::Int(x) => if *x >= 0 {
                Some(*x as u64)
            } else {
                None
            },
            StateValue::UInt(x) => Some(*x),
            _ => None,
        }
    }

    /// The value as a boolean.
    pub fn as_bool(&self) -> (r: Option<bool>)
        ensures
            r == as_bool_of(*self),
    {
        match self {
            StateValue::Bool(b) => Some(*b),
            _ => None,
        }
    }

    /// The elements of an array value.
    pub fn as_array(&self) -> (r: Option<&Vec<StateValue>>)
        ensures
            match r {
                Some(a) => as_array_of(*self) == Some(a@),
                None => as_array_of(*self) is None,
            },
    {
        match self {
            StateValue::Array(a) => Some(a),
            _ => None,
        }
    }

    /// Whether the value is null.
    pub fn is_null(&self) -> (r: bool)
        ensures
            r == (*self is Null),
    {
        match self {
            StateValue::Null => true,
            _ => false,
        }
    }

    /// The field `key` of an object value.
    #[verifier::loop_isolation(false)]
    pub fn field(&self, key: &str) -> (r: Option<&StateValue>)
        ensures
            match *self {
                StateValue::Object(entries) => match r {
                    Some(v) => entry_value(entries@, key@) == Some(*v),
                    None => entry_value(entries@, key@) is None,
                },
                _ => r is None,
            },
    {
        match self {
            StateValue::Object(entries) => {
                let k = String::from_str(key);
                let mut i: usize = 0;
                assert(entries@.skip(0) =~= entries@);
                while i < entries.len()
                    invariant
                        i <= entries@.len(),
                        k@ == key@,
                        entry_value(entries@, key@) == entry_value(entries@.skip(i as int), key@),
                    decreases entries@.len() - i,
                {
                    assert(entries@.skip(i as int).drop_first() =~= entries@.skip(i + 1));
                    assert(entries@.skip(i as int)[0] == entries@[i as int]);
                    let same = entries[i].0 == k;
                    if same {
                        assert(entries@[i as int].0@ == key@);
                        assert(entry_value(entries@.skip(i as int), key@) == Some(entries@[i as int].1));
                        return Some(&entries[i].1);
                    }
                    i = i + 1;
                }
                assert(entries@.skip(i as int).len() == 0);
                None
            },
            _ => None,
        }
    }
}

/// The id of the typed buffer at slot `index`: the slot must be an object
/// whose `buffer_id` field is a non-negative integer.
pub open spec fn buffer_id_of(state: Seq<StateValue>, index: int) -> Option<u64> {
    match slot(state, index) {
        Some(StateValue::Object(entries)) => match entry_value(entries@, "buffer_id"@) {
            Some(v) => as_u64_of(v),
            None => None,
        },
        _ => None,
    }
}

/// The buffer the slot `index` refers to, or the message saying why there is
/// none.
pub open spec fn buffer_for_result(state: Seq<StateValue>, buffers: Seq<Vec<u8>>, index: nat) -> Result<Seq<u8>, Seq<char>> {
    match buffer_id_of(state, index as int) {
        None => Err("state["@ + decimal(index) + "] is not a typed buffer"@),
        Some(id) => if (id as usize) < buffers.len() {
            Ok(buffers[id as usize as int]@)
        } else {
            Err("buffer id "@ + decimal(id as usize as nat) + " is out of range"@)
        },
    }
}

/// The typed buffer that slot `index` of the state refers to.
pub fn buffer_for<'a>(state: &[StateValue], buffers: &'a [Vec<u8>], index: usize) -> (r: Result<&'a [u8], String>)
    ensures
        match r {
            Ok(b) => buffer_for_result(state@, buffers@, index as nat) == Ok::<Seq<u8>, Seq<char>>(b@),
            Err(e) => buffer_for_result(state@, buffers@, index as nat) == Err::<Seq<u8>, Seq<char>>(e@),
        },
{
    let id: Option<u64> = if index < state.len() {
        match &state[index] {
            StateValue::Object(_) => match state[index].field("buffer_id") {
                Some(v) => v.as_u64(),
                None => None,
            },
            _ => None,
        }
    } else {
        None
    };
    match id {
        None => Err(text_num_text("state[", index as u64, "] is not a typed buffer")),
        Some(bid) => {
            let b = bid as usize;
            if b < buffers.len() {
                Ok(buffers[b].as_slice())
            } else {
                Err(text_num_text("buffer id ", b as u64, " is out of range"))
            }
        },
    }
}

/// The integer at slot `index`, or the message saying it is not one.
pub open spec fn scalar_result(state: Seq<StateValue>, index: nat) -> Result<i64, Seq<char>> {
    match slot(state, index as int) {
        Some(v) => match as_i64_of(v) {
            Some(x) => Ok(x),
            None => Err("state["@ + decimal(index) + "] is not an integer scalar"@),
        },
        None => Err("state["@ + decimal(index) + "] is not an integer scalar"@),
    }
}

/// The integer scalar at slot `index` of the state.
pub fn scalar(state: &[StateValue], index: usize) -> (r: Result<i64, String>)
    ensures
        match r {
            Ok(x) => scalar_result(state@, index as nat) == Ok::<i64, Seq<char>>(x),
            Err(e) => scalar_result(state@, index as nat) == Err::<i64, Seq<char>>(e@),
        },
{
    let v = if index < state.len() {
        state[index].as_i64()
    } else {
        None
    };
    match v {
        Some(x) => Ok(x),
        None => Err(text_num_text("state[", index as u64, "] is not an integer scalar")),
    }
}

/// The typed buffer of slot `index` when it has exactly `expected` bytes,
/// else the message saying why not.
pub open spec fn sized_buffer_result(state: Seq<StateValue>, buffers: Seq<Vec<u8>>, index: nat, expected: nat) -> Result<Seq<u8>, Seq<char>> {
    match buffer_for_result(state, buffers, index) {
        Err(e) => Err(e),
        Ok(b) => if b.len() == expected {
            Ok(b)
        } else {
            Err("state["@ + decimal(index) + "] length "@ + decimal(b.len()) + " != expected "@ + decimal(expected))
        },
    }
}

/// The typed buffer of slot `index`, which must hold exactly `expected`
/// bytes (the size of the register block it restores).
pub fn sized_buffer<'a>(state: &[StateValue], buffers: &'a [Vec<u8>], index: usize, expected: usize) -> (r: Result<&'a [u8], String>)
    ensures
        match r {
            Ok(b) => sized_buffer_result(state@, buffers@, index as nat, expected as nat) == Ok::<Seq<u8>, Seq<char>>(b@),
            Err(e) => sized_buffer_result(state@, buffers@, index as nat, expected as nat) == Err::<Seq<u8>, Seq<char>>(e@),
        },
{
    let source = buffer_for(state, buffers, index)?;
    if source.len() != expected {
        let mut m = text_num_text("state[", index as u64, "] length ");
        let tail = text_num_text_num_text("", source.len() as u64, " != expected ", expected as u64, "");
        m.append(tail.as_str());
        proof {
            reveal_strlit("");
        }
        assert(m@ =~= "state["@ + decimal(index as nat) + "] length "@ + decimal(source@.len()) + " != expected "@ + decimal(expected as nat));
        return Err(m);
    }
    Ok(source)
}

/// The thirteen bytes of a PIC controller's state, read from the first 13
/// values (the value at index 5, where the master keeps the slave
/// controller, is skipped and left 0), or the message saying why not.
pub open spec fn pic_bytes_result(values: Seq<StateValue>, len: nat, name: Seq<char>) -> Result<Seq<u8>, Seq<char>> {
    if len != 13 || values.len() < len {
        Err(name + " has "@ + decimal(values.len()) + " fields; expected "@ + decimal(len))
    } else {
        pic_bytes_from(values, name, 0, Seq::new(13, |i: int| 0u8))
    }
}

/// Reading the PIC bytes from index `i` on, with `acc` holding those read so
/// far.
pub open spec fn pic_bytes_from(values: Seq<StateValue>, name: Seq<char>, i: nat, acc: Seq<u8>) -> Result<Seq<u8>, Seq<char>>
    decreases 13 - i,
{
    if i >= 13 {
        Ok(acc)
    } else if i == 5 {
        pic_bytes_from(values, name, i + 1, acc)
    } else {
        match as_i64_of(values[i as int]) {
            Some(x) => pic_bytes_from(values, name, i + 1, acc.update(i as int, x as u8)),
            None => Err(name + "["@ + decimal(i) + "] is not an integer"@),
        }
    }
}

/// Reads a PIC controller's thirteen state bytes from `values`.
pub fn byte_array_from_values(values: &[StateValue], len: usize, name: &str) -> (r: Result<[u8; 13], String>)
    ensures
        match r {
            Ok(a) => pic_bytes_result(values@, len as nat, name@) == Ok::<Seq<u8>, Seq<char>>(a@),
            Err(e) => pic_bytes_result(values@, len as nat, name@) == Err::<Seq<u8>, Seq<char>>(e@),
        },
{
    if len != 13 || values.len() < len {
        let mut m = String::from_str(name);
        let tail = text_num_text_num_text(" has ", values.len() as u64, " fields; expected ", len as u64, "");
        m.append(tail.as_str());
        proof {
            reveal_strlit("");
        }
        assert(m@ =~= name@ + " has "@ + decimal(values@.len()) + " fields; expected "@ + decimal(len as nat));
        return Err(m);
    }
    let mut result = [0u8; 13];
    assert(result@ =~= Seq::new(13, |i: int| 0u8));
    let mut i: usize = 0;
    while i < 13
        invariant
            i <= 13,
            13 <= values@.len(),
            pic_bytes_result(values@, len as nat, name@) == pic_bytes_from(values@, name@, i as nat, result@),
        decreases 13 - i,
    {
        if i != 5 {
            match values[i].as_i64() {
                Some(x) => {
                    result[i] = x as u8;
                },
                None => {
                    let mut m = String::from_str(name);
                    let tail = text_num_text("[", i as u64, "] is not an integer");
                    m.append(tail.as_str());
                    assert(m@ =~= name@ + "["@ + decimal(i as nat) + "] is not an integer"@);
                    return Err(m);
                },
            }
        }
        i = i + 1;
    }
    Ok(result)
}

/// Reads the master PIC's thirteen state bytes.
pub fn byte_array_from_state(values: &[StateValue], len: usize, name: &str) -> (r: Result<[u8; 13], String>)
    ensures
        match r {
            Ok(a) => pic_bytes_result(values@, len as nat, name@) == Ok::<Seq<u8>, Seq<char>>(a@),
            Err(e) => pic_bytes_result(values@, len as nat, name@) == Err::<Seq<u8>, Seq<char>>(e@),
        },
{
    byte_array_from_values(values, len, name)
}

} // verus!
