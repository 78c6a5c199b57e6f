use vstd::prelude::*;

verus! {

/// A plain data tree in the shape of a parsed JSON document.  Numbers are
/// fixed point: `Num(n)` stands for the value `n / 1000`, so descriptors can
/// carry fractional seconds exactly.  The process that reads a descriptor
/// file off disk converts it into this type before the library sees it.
#[derive(Debug)]
pub enum DataValue {
    Null,
    Bool(bool),
    Num(i64),
    Str(String),
    Arr(Vec<DataValue>),
    Obj(Vec<(String, DataValue)>),
}

/// The fixed-point milli value a descriptor number carries, zero for
/// anything that is not a number.
pub open spec fn spec_milli(v: DataValue) -> int {
    match v {
        DataValue::Num(n) => n as int,
        _ => 0,
    }
}

/// The integer a descriptor number carries, zero whenever the number has a
/// fractional part, does not fit a 32-bit integer, or is not a number at all.
pub open spec fn spec_int(v: DataValue) -> int {
    match v {
        DataValue::Num(n) => {
            if n % 1000 == 0 && -2147483648000 <= n <= 2147483647000 {
                n as int / 1000
            } else {
                0
            }
        },
        _ => 0,
    }
}

/// The character sequence a descriptor string carries, empty for anything
/// that is not a string.
pub open spec fn spec_str(v: DataValue) -> Seq<char> {
    match v {
        DataValue::Str(s) => s@,
        _ => Seq::empty(),
    }
}

impl DataValue {
    /// The fixed-point milli value of a number, zero otherwise.
    pub fn as_milli(&self) -> (r: i64)
        ensures
            r as int == spec_milli(*self),
    {
        match self {
            DataValue::Num(n) => *n,
            _ => 0,
        }
    }

    /// The integer value of a whole number within the 32-bit range, zero
    /// otherwise.
    pub fn as_int(&self) -> (r: i64)
        ensures
            r as int == spec_int(*self),
    {
        match self {
            DataValue::Num(n) => {
                if *n % 1000 == 0 && -2147483648000 <= *n && *n <= 2147483647000 {
                    *n / 1000
                } else {
                    0
                }
            },
            _ => 0,
        }
    }

    /// The string value, empty otherwise.
    pub fn as_str(&self) -> (r: String)
        ensures
            r@ == spec_str(*self),
    {
        match self {
            DataValue::Str(s) => s.clone(),
            _ => String::new(),
        }
    }
}

/// One element of a markup document: a name, attributes in declaration
/// order, the element's own text, and child elements in declaration order.
/// The process that reads a document off disk converts it into this type
/// before the library sees it.
#[derive(Debug)]
pub struct Element {
    pub name: String,
    pub attrs: Vec<(String, String)>,
    pub text: String,
    pub children: Vec<Element>,
}

/// The value of the first attribute called `name`, if any.
pub open spec fn spec_att(attrs: Seq<(String, String)>, name: Seq<char>) -> Option<Seq<char>>
    decreases attrs.len(),
{
    if attrs.len() == 0 {
        None
    } else if attrs[0].0@ == name {
        Some(attrs[0].1@)
    } else {
        spec_att(attrs.drop_first(), name)
    }
}

impl Element {
    /// An element with nothing in it.
    pub fn empty() -> (r: Element)
        ensures
            r.name@ == Seq::<char>::empty(),
            r.attrs@ == Seq::<(String, String)>::empty(),
            r.text@ == Seq::<char>::empty(),
            r.children@ == Seq::<Element>::empty(),
    {
        Element { name: String::new(), attrs: Vec::new(), text: String::new(), children: Vec::new() }
    }

    /// The value of the attribute called `name`, if the element has one.
    pub fn att_opt(&self, name: &str) -> (r: Option<String>)
        ensures
            match r {
                Some(s) => spec_att(self.attrs@, name@) == Some(s@),
                None => spec_att(self.attrs@, name@) is None,
            },
    {
        let mut i: usize = 0;
        proof {
            assert(self.attrs@.skip(0) =~= self.attrs@);
        }
        while i < self.attrs.len()
            invariant
                i <= self.attrs.len(),
                spec_att(self.attrs@, name@) == spec_att(self.attrs@.skip(i as int), name@),
            decreases self.attrs.len() - i,
        {
            proof {
                assert(self.attrs@.skip(i as int).drop_first() =~= self.attrs@.skip(i + 1));
            }
            if crate::util::str_eq(self.attrs[i].0.as_str(), name) {
                return Some(self.attrs[i].1.clone());
            }
            i += 1;
        }
        None
    }

    /// The value of the attribute called `name`, or `def` when it is absent.
    pub fn att_or(&self, name: &str, def: &str) -> (r: String)
        ensures
            match spec_att(self.attrs@, name@) {
                Some(s) => r@ == s,
                None => r@ == def@,
            },
    {
        match self.att_opt(name) {
            Some(s) => s,
            None => def.to_owned(),
        }
    }
}

} // verus!
