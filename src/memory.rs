use vstd::prelude::*;

verus! {

/// An owning descriptor of a byte sequence that crosses the call boundary.
///
/// A descriptor either holds bytes or is the absent value. Taking the bytes
/// out (`consume`) takes the descriptor by value, so it happens at most once.
pub struct UnmanagedVector {
    data: Option<Vec<u8>>,
}

/// The bytes that an optional owned vector holds, as a mathematical value.
pub open spec fn bytes_of(v: Option<Vec<u8>>) -> Option<Seq<u8>> {
    match v {
        Some(b) => Some(b@),
        None => None,
    }
}

/// The contents of each vector of a sequence.
pub open spec fn byte_views(v: Seq<Vec<u8>>) -> Seq<Seq<u8>> {
    v.map_values(|b: Vec<u8>| b@)
}

impl View for UnmanagedVector {
    type V = Option<Seq<u8>>;

    closed spec fn view(&self) -> Option<Seq<u8>> {
        bytes_of(self.data)
    }
}

impl UnmanagedVector {
    /// A descriptor that owns `data`, or the absent descriptor for `None`.
    pub fn new(data: Option<Vec<u8>>) -> (r: Self)
        ensures
            r@ == bytes_of(data),
    {
        UnmanagedVector { data }
    }

    /// A descriptor that owns `v`.
    pub fn from_vec(v: Vec<u8>) -> (r: Self)
        ensures
            r@ == Some(v@),
    {
        UnmanagedVector { data: Some(v) }
    }

    /// The absent descriptor.
    pub fn none() -> (r: Self)
        ensures
            r@.is_none(),
    {
        UnmanagedVector { data: None }
    }

    pub fn is_none(&self) -> (r: bool)
        ensures
            r == self@.is_none(),
    {
        self.data.is_none()
    }

    /// Reads the bytes without taking them.
    pub fn as_slice(&self) -> (r: Option<&[u8]>)
        ensures
            r.is_some() == self@.is_some(),
            r.is_some() ==> r.unwrap()@ == self@.unwrap(),
    {
        match &self.data {
            Some(v) => Some(v.as_slice()),
            None => None,
        }
    }

    /// Takes ownership of the bytes; the descriptor is used up.
    pub fn consume(self) -> (r: Option<Vec<u8>>)
        ensures
            bytes_of(r) == self@,
    {
        self.data
    }
}

impl Default for UnmanagedVector {
    fn default() -> (r: Self)
        ensures
            r@.is_none(),
    {
        UnmanagedVector::none()
    }
}

/// A copy of `b` in a vector of its own.
pub fn copy_bytes(b: &[u8]) -> (r: Vec<u8>)
    ensures
        r@ == b@,
{
    let mut out: Vec<u8> = Vec::new();
    let mut i: usize = 0;
    while i < b.len()
        invariant
            i <= b@.len(),
            out@ == b@.subrange(0, i as int),
        decreases b@.len() - i,
    {
        out.push(b[i]);
        i = i + 1;
        assert(out@ =~= b@.subrange(0, i as int));
    }
    assert(out@ =~= b@);
    out
}

} // verus!
