//! The arguments of one tool call: named values, as a JSON object holds them.

use vstd::prelude::*;
use crate::text::{chars_of, copy, same};

verus! {

/// One argument value, as far as the tools read it.
pub enum ArgModel {
    /// A JSON string.
    Str(Seq<char>),
    /// A JSON number that is a non-negative integer fitting `u64`.
    UInt(u64),
    /// A JSON boolean.
    Bool(bool),
    /// Anything else (null, negative or fractional numbers, arrays, objects).
    Other,
}

enum ArgValue {
    Str(Vec<char>),
    UInt(u64),
    Bool(bool),
    Other,
}

spec fn value_view(v: ArgValue) -> ArgModel {
    match v {
        ArgValue::Str(s) => ArgModel::Str(s@),
        ArgValue::UInt(n) => ArgModel::UInt(n),
        ArgValue::Bool(b) => ArgModel::Bool(b),
        ArgValue::Other => ArgModel::Other,
    }
}

struct ArgEntry {
    key: Vec<char>,
    value: ArgValue,
}

/// Named argument values; setting a name again replaces its value.
pub struct ToolArgs {
    entries: Vec<ArgEntry>,
}

impl View for ToolArgs {
    type V = Seq<(Seq<char>, ArgModel)>;

    closed spec fn view(&self) -> Seq<(Seq<char>, ArgModel)> {
        self.entries@.map_values(|e: ArgEntry| (e.key@, value_view(e.value)))
    }
}

/// The value last set under `key`.
pub open spec fn lookup(a: Seq<(Seq<char>, ArgModel)>, key: Seq<char>) -> Option<ArgModel>
    decreases a.len(),
{
    if a.len() == 0 {
        None
    } else if a.last().0 == key {
        Some(a.last().1)
    } else {
        lookup(a.drop_last(), key)
    }
}

/// The string under `key` (`args.get(key).and_then(|v| v.as_str())`).
pub open spec fn arg_str(a: Seq<(Seq<char>, ArgModel)>, key: Seq<char>) -> Option<Seq<char>> {
    match lookup(a, key) {
        Some(ArgModel::Str(s)) => Some(s),
        _ => None,
    }
}

/// The unsigned number under `key` (`args.get(key).and_then(|v| v.as_u64())`).
pub open spec fn arg_uint(a: Seq<(Seq<char>, ArgModel)>, key: Seq<char>) -> Option<u64> {
    match lookup(a, key) {
        Some(ArgModel::UInt(n)) => Some(n),
        _ => None,
    }
}

/// The boolean under `key` (`args.get(key).and_then(|v| v.as_bool())`).
pub open spec fn arg_bool(a: Seq<(Seq<char>, ArgModel)>, key: Seq<char>) -> Option<bool> {
    match lookup(a, key) {
        Some(ArgModel::Bool(b)) => Some(b),
        _ => None,
    }
}

impl ToolArgs {
    /// No arguments (also what a call without an argument object carries).
    pub fn new() -> (r: ToolArgs)
        ensures
            r@ == Seq::<(Seq<char>, ArgModel)>::empty(),
    {
        let r = ToolArgs { entries: Vec::new() };
        assert(r@ =~= Seq::<(Seq<char>, ArgModel)>::empty());
        r
    }

    fn set(&mut self, key: &str, value: ArgValue)
        ensures
            final(self)@ == old(self)@.push((key@, value_view(value))),
    {
        let ghost before = self@;
        let entry = ArgEntry { key: chars_of(key), value };
        self.entries.push(entry);
        assert(self@ =~= before.push((key@, value_view(value))));
    }

    /// Sets `key` to a string.
    pub fn set_str(&mut self, key: &str, value: &str)
        ensures
            final(self)@ == old(self)@.push((key@, ArgModel::Str(value@))),
    {
        self.set(key, ArgValue::Str(chars_of(value)));
    }

    /// Sets `key` to an unsigned integer.
    pub fn set_uint(&mut self, key: &str, value: u64)
        ensures
            final(self)@ == old(self)@.push((key@, ArgModel::UInt(value))),
    {
        self.set(key, ArgValue::UInt(value));
    }

    /// Sets `key` to a boolean.
    pub fn set_bool(&mut self, key: &str, value: bool)
        ensures
            final(self)@ == old(self)@.push((key@, ArgModel::Bool(value))),
    {
        self.set(key, ArgValue::Bool(value));
    }

    /// Sets `key` to a value that is neither a string, an unsigned integer nor a boolean.
    pub fn set_other(&mut self, key: &str)
        ensures
            final(self)@ == old(self)@.push((key@, ArgModel::Other)),
    {
        self.set(key, ArgValue::Other);
    }

    /// The index of the entry that `lookup` finds.
    fn find(&self, key: &[char]) -> (r: Option<usize>)
        ensures
            match r {
                Some(i) => i < self@.len() && lookup(self@, key@) == Some(self@[i as int].1),
                None => lookup(self@, key@) is None,
            },
    {
        let mut i: usize = self.entries.len();
        assert(self@.take(i as int) =~= self@);
        while i > 0
            invariant
                i <= self@.len(),
                self@.len() == self.entries@.len(),
                lookup(self@, key@) == lookup(self@.take(i as int), key@),
            decreases i,
        {
            let ghost pre = self@.take(i as int);
            assert(pre.last() == self@[i - 1]);
            assert(pre.drop_last() =~= self@.take(i - 1));
            if same(self.entries[i - 1].key.as_slice(), key) {
                return Some(i - 1);
            }
            i = i - 1;
        }
        None
    }

    /// The string under `key`.
    pub fn get_str(&self, key: &str) -> (r: Option<Vec<char>>)
        ensures
            match r {
                Some(v) => arg_str(self@, key@) == Some(v@),
                None => arg_str(self@, key@) is None,
            },
    {
        let k = chars_of(key);
        match self.find(k.as_slice()) {
            Some(i) => match &self.entries[i].value {
                ArgValue::Str(s) => Some(copy(s.as_slice())),
                _ => None,
            },
            None => None,
        }
    }

    /// The unsigned integer under `key`.
    pub fn get_uint(&self, key: &str) -> (r: Option<u64>)
        ensures
            r == arg_uint(self@, key@),
    {
        let k = chars_of(key);
        match self.find(k.as_slice()) {
            Some(i) => match &self.entries[i].value {
                ArgValue::UInt(n) => Some(*n),
                _ => None,
            },
            None => None,
        }
    }

    /// The boolean under `key`.
    pub fn get_bool(&self, key: &str) -> (r: Option<bool>)
        ensures
            r == arg_bool(self@, key@),
    {
        let k = chars_of(key);
        match self.find(k.as_slice()) {
            Some(i) => match &self.entries[i].value {
                ArgValue::Bool(b) => Some(*b),
                _ => None,
            },
            None => None,
        }
    }
}

} // verus!
