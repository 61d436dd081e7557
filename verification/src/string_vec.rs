use crate::compact::{total_bytes, total_string_bytes, CompactVecString};
use crate::text::seq_join;
use vstd::prelude::*;
use vstd::utf8::encode_utf8;

verus! {

/// A list of strings kept in one byte buffer, as a [`CompactVecString`] keeps them.
pub struct CompactStringVec {
    inner: CompactVecString,
}

impl CompactStringVec {
    pub closed spec fn wf(self) -> bool {
        self.inner.wf()
    }

    /// The strings, in order.
    pub closed spec fn view(self) -> Seq<Seq<char>> {
        self.inner.view()
    }

    /// The number of bytes of all the strings.
    pub closed spec fn byte_len(self) -> nat {
        self.inner.byte_len()
    }

    /// The byte buffer.
    pub closed spec fn spec_bytes(self) -> Seq<u8> {
        self.inner.spec_bytes()
    }

    /// Where each string starts in the byte buffer.
    pub closed spec fn spec_starts(self) -> Seq<usize> {
        self.inner.spec_starts()
    }

    /// An empty list.
    pub fn new() -> (r: CompactStringVec)
        ensures
            r.wf(),
            r.view() == Seq::<Seq<char>>::empty(),
            r.byte_len() == 0,
    {
        CompactStringVec { inner: CompactVecString::new() }
    }

    /// An empty list with room reserved for `capacity` strings and bytes.
    pub fn with_capacity(capacity: usize) -> (r: CompactStringVec)
        ensures
            r.wf(),
            r.view() == Seq::<Seq<char>>::empty(),
            r.byte_len() == 0,
    {
        CompactStringVec { inner: CompactVecString::with_capacity(capacity) }
    }

    /// Appends `s`.
    pub fn push(&mut self, s: &str)
        requires
            old(self).wf(),
            old(self).byte_len() + encode_utf8(s@).len() <= usize::MAX,
        ensures
            final(self).wf(),
            final(self).view() == old(self).view().push(s@),
            final(self).byte_len() == old(self).byte_len() + encode_utf8(s@).len(),
            final(self).spec_bytes() == old(self).spec_bytes() + encode_utf8(s@),
            final(self).spec_starts() == old(self).spec_starts().push(
                old(self).byte_len() as usize,
            ),
    {
        self.inner.push(s);
    }

    /// Removes the last string, if any.
    pub fn pop(&mut self)
        requires
            old(self).wf(),
        ensures
            final(self).wf(),
            final(self).view() == old(self).view().take(
                if old(self).view().len() > 0 {
                    old(self).view().len() - 1
                } else {
                    0
                },
            ),
            final(self).byte_len() <= old(self).byte_len(),
            old(self).spec_starts().len() == 0 ==> final(self).spec_bytes() == old(
                self,
            ).spec_bytes() && final(self).spec_starts() == old(self).spec_starts(),
            old(self).spec_starts().len() > 0 ==> final(self).spec_starts() == old(
                self,
            ).spec_starts().drop_last() && final(self).spec_bytes() == old(self).spec_bytes().take(
                old(self).spec_starts().last() as int,
            ),
    {
        self.inner.pop();
    }

    /// Lowers the capacity of the buffers to their length.
    pub fn shrink_to_fit(&mut self)
        requires
            old(self).wf(),
        ensures
            final(self).wf(),
            final(self).view() == old(self).view(),
            final(self).byte_len() == old(self).byte_len(),
    {
        self.inner.shrink_to_fit();
    }

    /// An iterator over the strings, first to last.
    pub fn iter(&self) -> (r: Iter<'_>)
        requires
            self.wf(),
        ensures
            r.inner == self,
            r.index == 0,
    {
        Iter { inner: self, index: 0 }
    }

    /// The number of strings.
    pub fn len(&self) -> (r: usize)
        ensures
            r == self.view().len(),
    {
        self.inner.len()
    }

    /// String `index`, or `None` past the end.
    pub fn get(&self, index: usize) -> (r: Option<&str>)
        requires
            self.wf(),
        ensures
            index < self.view().len() ==> (r matches Some(s) && s@ == self.view()[index as int]),
            index >= self.view().len() ==> r is None,
    {
        self.inner.get(index)
    }

    /// The strings joined by `sep`.
    pub fn join(&self, sep: &str) -> (r: String)
        requires
            self.wf(),
        ensures
            r@ == seq_join(self.view(), sep@),
    {
        self.inner.join(sep)
    }

    /// Appends each string of `items`, in order.
    pub fn extend_strs(&mut self, items: &[&str])
        requires
            old(self).wf(),
            old(self).byte_len() + total_bytes(items@) <= usize::MAX,
        ensures
            final(self).wf(),
            final(self).view() == old(self).view() + items@.map_values(|s: &str| s@),
            final(self).byte_len() == old(self).byte_len() + total_bytes(items@),
    {
        self.inner.extend_strs(items);
    }

    /// Appends each string of `items`, in order.
    pub fn extend_strings(&mut self, items: &[String])
        requires
            old(self).wf(),
            old(self).byte_len() + total_string_bytes(items@) <= usize::MAX,
        ensures
            final(self).wf(),
            final(self).view() == old(self).view() + items@.map_values(|s: String| s@),
            final(self).byte_len() == old(self).byte_len() + total_string_bytes(items@),
    {
        self.inner.extend_strings(items);
    }

    /// The list of the strings of `items`, in order.
    pub fn from_strs(items: &[&str]) -> (r: CompactStringVec)
        requires
            total_bytes(items@) <= usize::MAX,
        ensures
            r.wf(),
            r.view() == items@.map_values(|s: &str| s@),
            r.byte_len() == total_bytes(items@),
    {
        CompactStringVec { inner: CompactVecString::from_strs(items) }
    }

    /// The strings in a new vector.
    pub fn to_vec(&self) -> (r: Vec<String>)
        requires
            self.wf(),
        ensures
            r@.map_values(|s: String| s@) == self.view(),
    {
        self.inner.to_vec()
    }

    /// Whether the list holds exactly the strings of `other`, in order.
    pub fn eq_strs(&self, other: &[&str]) -> (r: bool)
        requires
            self.wf(),
        ensures
            r == (self.view() == other@.map_values(|s: &str| s@)),
    {
        self.inner.eq_strs(other)
    }
}

/// An iterator over the strings of a [`CompactStringVec`].
pub struct Iter<'a> {
    pub inner: &'a CompactStringVec,
    pub index: usize,
}

impl<'a> Iter<'a> {
    /// The next string, or `None` past the last; past the last the position stays.
    pub fn next(&mut self) -> (r: Option<&'a str>)
        requires
            old(self).inner.wf(),
        ensures
            final(self).inner == old(self).inner,
            old(self).index < old(self).inner.view().len() ==> (r matches Some(s) && s@
                == old(self).inner.view()[old(self).index as int] && final(self).index == old(self).index + 1),
            old(self).index >= old(self).inner.view().len() ==> r is None && final(self).index == old(self).index,
    {
        if self.index >= self.inner.len() {
            return None;
        }
        let r = self.inner.get(self.index);
        self.index = self.index + 1;
        r
    }
}

/// Law: pushing a string onto a list and popping it leaves the list as it was, down to
/// both of its buffers.
pub proof fn law_push_pop(
    before: CompactStringVec,
    pushed: CompactStringVec,
    popped: CompactStringVec,
    s: Seq<char>,
)
    requires
        pushed.spec_bytes() == before.spec_bytes() + encode_utf8(s),
        pushed.spec_starts() == before.spec_starts().push(before.byte_len() as usize),
        popped.spec_starts() == pushed.spec_starts().drop_last(),
        popped.spec_bytes() == pushed.spec_bytes().take(pushed.spec_starts().last() as int),
    ensures
        popped.spec_bytes() == before.spec_bytes(),
        popped.spec_starts() == before.spec_starts(),
        popped.view() == before.view(),
        popped.byte_len() == before.byte_len(),
{
    crate::compact::law_push_pop(before.inner, pushed.inner, popped.inner, s);
}

} // verus!
