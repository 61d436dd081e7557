use crate::bytes::extend_bytes;
use crate::text::seq_join;
use vstd::prelude::*;
use vstd::string::*;
use vstd::utf8::*;

verus! {

broadcast use {encode_utf8_valid_utf8, encode_utf8_decode_utf8, decode_utf8_encode_utf8};

/// Calls `std::str::from_utf8`: the string with exactly these bytes when they are
/// UTF-8.
#[verifier::external_body]
pub(crate) fn str_from_utf8<'a>(b: &'a [u8]) -> (r: Option<&'a str>)
    ensures
        r is Some <==> valid_utf8(b@),
        r matches Some(s) ==> encode_utf8(s@) == b@,
{
    std::str::from_utf8(b).ok()
}

/// Calls `Vec::shrink_to_fit`, which only lowers the capacity.
#[verifier::external_body]
pub(crate) fn shrink_vec<T>(v: &mut Vec<T>)
    ensures
        final(v)@ == old(v)@,
{
    v.shrink_to_fit()
}

/// What the `Debug` impl of `str` writes for a string: the string in double quotes
/// with its special characters escaped.
pub uninterp spec fn str_debug_text(s: Seq<char>) -> Seq<char>;

/// Calls the `Debug` impl of `str` (through `format!`); the contract names its result.
#[verifier::external_body]
pub(crate) fn str_debug(s: &str) -> (r: String)
    ensures
        r@ == str_debug_text(s@),
{
    format!("{:?}", s)
}

/// A list of strings kept in one byte buffer: `underlying` holds their UTF-8 bytes one
/// after the other and `index` where each starts.
#[derive(Clone, Debug, PartialEq, Eq, Hash)]
pub struct CompactVecString {
    underlying: Vec<u8>,
    index: Vec<usize>,
}

impl CompactVecString {
    /// Where string `i` ends in the buffer.
    pub closed spec fn end_of(self, i: int) -> int {
        if i + 1 < self.index@.len() {
            self.index@[i + 1] as int
        } else {
            self.underlying@.len() as int
        }
    }

    /// The bytes of string `i`.
    pub closed spec fn segment(self, i: int) -> Seq<u8> {
        self.underlying@.subrange(self.index@[i] as int, self.end_of(i))
    }

    /// The buffer and the index agree: starts in order inside the buffer, the first at
    /// 0, no bytes without a string, each string valid UTF-8.
    pub closed spec fn wf(self) -> bool {
        &&& self.index@.len() == 0 ==> self.underlying@.len() == 0
        &&& self.index@.len() > 0 ==> self.index@[0] == 0
        &&& forall|i: int, j: int|
            0 <= i <= j < self.index@.len() ==> self.index@[i] <= self.index@[j]
        &&& forall|i: int| 0 <= i < self.index@.len() ==> self.index@[i] <= self.underlying@.len()
        &&& forall|i: int| 0 <= i < self.index@.len() ==> valid_utf8(#[trigger] self.segment(i))
    }

    /// The number of bytes in the buffer: the UTF-8 bytes of all the strings.
    pub closed spec fn byte_len(self) -> nat {
        self.underlying@.len()
    }

    /// The byte buffer.
    pub closed spec fn spec_bytes(self) -> Seq<u8> {
        self.underlying@
    }

    /// Where each string starts in the byte buffer.
    pub closed spec fn spec_starts(self) -> Seq<usize> {
        self.index@
    }

    /// The strings, in order.
    pub closed spec fn view(self) -> Seq<Seq<char>> {
        Seq::new(self.index@.len(), |i: int| decode_utf8(self.segment(i)))
    }

    /// An empty list.
    pub fn new() -> (r: CompactVecString)
        ensures
            r.wf(),
            r.view() == Seq::<Seq<char>>::empty(),
            r.byte_len() == 0,
    {
        let r = CompactVecString { underlying: Vec::new(), index: Vec::new() };
        assert(r.view() =~= Seq::<Seq<char>>::empty());
        r
    }

    /// An empty list with room reserved for `capacity` strings and bytes.
    pub fn with_capacity(capacity: usize) -> (r: CompactVecString)
        ensures
            r.wf(),
            r.view() == Seq::<Seq<char>>::empty(),
            r.byte_len() == 0,
    {
        let r = CompactVecString {
            underlying: Vec::with_capacity(capacity),
            index: Vec::with_capacity(capacity),
        };
        assert(r.view() =~= Seq::<Seq<char>>::empty());
        r
    }

    /// Appends `s`.
    pub fn push(&mut self, s: &str)
        requires
            old(self).wf(),
            old(self).byte_len() + encode_utf8(s@).len() <= usize::MAX,
        ensures
            final(self).wf(),
            final(self).view() == old(self).view().push(s@),
            final(self).byte_len() == old(self).byte_len() + encode_utf8(s@).len(),
            final(self).spec_bytes() == old(self).spec_bytes() + encode_utf8(s@),
            final(self).spec_starts() == old(self).spec_starts().push(
                old(self).byte_len() as usize,
            ),
    {
        let len = self.underlying.len();
        let ghost old_self = *self;
        extend_bytes(&mut self.underlying, s.as_bytes());
        self.index.push(len);
        let ghost k = old_self.index@.len() as int;
        assert forall|i: int| 0 <= i < k implies #[trigger] self.segment(i) == old_self.segment(i) by {
            assert(self.underlying@.subrange(self.index@[i] as int, self.end_of(i))
                =~= old_self.underlying@.subrange(old_self.index@[i] as int, old_self.end_of(i)));
        }
        assert(self.segment(k) =~= encode_utf8(s@));
        assert(self.wf());
        assert(self.view() =~= old_self.view().push(s@));
    }

    /// Removes the last string, if any.
    pub fn pop(&mut self)
        requires
            old(self).wf(),
        ensures
            final(self).wf(),
            final(self).view() == old(self).view().take(
                if old(self).view().len() > 0 {
                    old(self).view().len() - 1
                } else {
                    0
                },
            ),
            final(self).byte_len() <= old(self).byte_len(),
            old(self).spec_starts().len() == 0 ==> final(self).spec_bytes() == old(
                self,
            ).spec_bytes() && final(self).spec_starts() == old(self).spec_starts(),
            old(self).spec_starts().len() > 0 ==> final(self).spec_starts() == old(
                self,
            ).spec_starts().drop_last() && final(self).spec_bytes() == old(self).spec_bytes().take(
                old(self).spec_starts().last() as int,
            ),
    {
        let ghost old_self = *self;
        if let Some(i) = self.index.pop() {
            self.underlying.truncate(i);
            let ghost k = self.index@.len() as int;
            assert forall|j: int| 0 <= j < k implies #[trigger] self.segment(j) == old_self.segment(j) by {
                assert(self.underlying@.subrange(self.index@[j] as int, self.end_of(j))
                    =~= old_self.underlying@.subrange(old_self.index@[j] as int, old_self.end_of(j)));
            }
            assert(self.wf());
            assert(self.view() =~= old_self.view().take(old_self.view().len() - 1));
        } else {
            assert(old_self.view().take(0) =~= old_self.view());
        }
    }

    /// Lowers the capacity of the buffers to their length.
    pub fn shrink_to_fit(&mut self)
        requires
            old(self).wf(),
        ensures
            final(self).wf(),
            final(self).view() == old(self).view(),
            final(self).byte_len() == old(self).byte_len(),
    {
        let ghost old_self = *self;
        shrink_vec(&mut self.underlying);
        shrink_vec(&mut self.index);
        assert(self.index@ == old_self.index@ && self.underlying@ == old_self.underlying@);
        assert forall|j: int| 0 <= j < self.index@.len() implies #[trigger] self.segment(j) == old_self.segment(j) by {}
        assert(self.view() =~= old_self.view());
    }

    /// An iterator over the strings, first to last.
    pub fn iter(&self) -> (r: Iter<'_>)
        requires
            self.wf(),
        ensures
            r.inner == self,
            r.index == 0,
    {
        Iter { inner: self, index: 0 }
    }

    /// The number of bytes in the buffer.
    pub fn buffer_len(&self) -> (r: usize)
        ensures
            r == self.byte_len(),
    {
        self.underlying.len()
    }

    /// The number of strings.
    pub fn len(&self) -> (r: usize)
        ensures
            r == self.view().len(),
    {
        self.index.len()
    }

    /// String `index`, or `None` past the end.
    pub fn get(&self, index: usize) -> (r: Option<&str>)
        requires
            self.wf(),
        ensures
            index < self.view().len() ==> (r matches Some(s) && s@ == self.view()[index as int]),
            index >= self.view().len() ==> r is None,
    {
        if index >= self.index.len() {
            return None;
        }
        let start = self.index[index];
        let end = if index + 1 < self.index.len() {
            self.index[index + 1]
        } else {
            self.underlying.len()
        };
        assert(self.segment(index as int) == self.underlying@.subrange(start as int, end as int));
        assert(valid_utf8(self.segment(index as int)));
        let s = str_from_utf8(&self.underlying.as_slice()[start..end]);
        match s {
            Some(s) => {
                assert(decode_utf8(encode_utf8(s@)) == s@);
                Some(s)
            },
            None => None,
        }
    }

    /// The strings joined by `sep`.
    pub fn join(&self, sep: &str) -> (r: String)
        requires
            self.wf(),
        ensures
            r@ == seq_join(self.view(), sep@),
    {
        let n = self.index.len();
        let mut r = String::new();
        let mut i: usize = 0;
        while i < n
            invariant
                self.wf(),
                0 <= i <= n == self.view().len(),
                r@ == seq_join(self.view().take(i as int), sep@),
            decreases n - i,
        {
            let s = match self.get(i) {
                Some(s) => s,
                None => "",
            };
            assert(self.view().take(i + 1).drop_last() =~= self.view().take(i as int));
            if i > 0 {
                r.append(sep);
            } else {
                assert(self.view().take(1) =~= seq![self.view()[0]]);
                assert(r@ =~= Seq::<char>::empty());
            }
            r.append(s);
            assert(r@ =~= seq_join(self.view().take(i + 1), sep@));
            i = i + 1;
        }
        assert(self.view().take(n as int) =~= self.view());
        r
    }

    /// Appends each string of `items`, in order.
    pub fn extend_strs(&mut self, items: &[&str])
        requires
            old(self).wf(),
            old(self).byte_len() + total_bytes(items@) <= usize::MAX,
        ensures
            final(self).wf(),
            final(self).view() == old(self).view() + items@.map_values(|s: &str| s@),
            final(self).byte_len() == old(self).byte_len() + total_bytes(items@),
    {
        let ghost start = self.view();
        assert(items@.skip(0) =~= items@);
        let mut i: usize = 0;
        while i < items.len()
            invariant
                self.wf(),
                0 <= i <= items@.len(),
                self.view() == start + items@.take(i as int).map_values(|s: &str| s@),
                self.byte_len() + total_bytes(items@.skip(i as int)) == old(self).byte_len() + total_bytes(items@),
                old(self).byte_len() + total_bytes(items@) <= usize::MAX,
            decreases items@.len() - i,
        {
            proof {
                lemma_total_bytes_first(items@.skip(i as int));
                assert(items@.skip(i as int).drop_first() =~= items@.skip(i + 1));
            }
            self.push(items[i]);
            assert(items@.take(i + 1).map_values(|s: &str| s@) =~= items@.take(i as int).map_values(
                |s: &str| s@,
            ).push(items@[i as int]@));
            i = i + 1;
        }
        assert(items@.take(items@.len() as int) =~= items@);
        assert(items@.skip(items@.len() as int) =~= Seq::<&str>::empty());
    }

    /// Appends each string of `items`, in order.
    pub fn extend_strings(&mut self, items: &[String])
        requires
            old(self).wf(),
            old(self).byte_len() + total_string_bytes(items@) <= usize::MAX,
        ensures
            final(self).wf(),
            final(self).view() == old(self).view() + items@.map_values(|s: String| s@),
            final(self).byte_len() == old(self).byte_len() + total_string_bytes(items@),
    {
        let ghost start = self.view();
        assert(items@.skip(0) =~= items@);
        let mut i: usize = 0;
        while i < items.len()
            invariant
                self.wf(),
                0 <= i <= items@.len(),
                self.view() == start + items@.take(i as int).map_values(|s: String| s@),
                self.byte_len() + total_string_bytes(items@.skip(i as int)) == old(self).byte_len()
                    + total_string_bytes(items@),
                old(self).byte_len() + total_string_bytes(items@) <= usize::MAX,
            decreases items@.len() - i,
        {
            proof {
                lemma_total_string_bytes_first(items@.skip(i as int));
                assert(items@.skip(i as int).drop_first() =~= items@.skip(i + 1));
            }
            self.push(items[i].as_str());
            assert(items@.take(i + 1).map_values(|s: String| s@) =~= items@.take(i as int).map_values(
                |s: String| s@,
            ).push(items@[i as int]@));
            i = i + 1;
        }
        assert(items@.take(items@.len() as int) =~= items@);
        assert(items@.skip(items@.len() as int) =~= Seq::<String>::empty());
    }

    /// Whether the list holds exactly the strings of `other`, in order.
    pub fn eq_strs(&self, other: &[&str]) -> (r: bool)
        requires
            self.wf(),
        ensures
            r == (self.view() == other@.map_values(|s: &str| s@)),
    {
        if self.len() != other.len() {
            return false;
        }
        let n = other.len();
        let mut i: usize = 0;
        while i < n
            invariant
                self.wf(),
                n == other@.len() == self.view().len(),
                0 <= i <= n,
                forall|j: int| 0 <= j < i ==> self.view()[j] == other@[j]@,
            decreases n - i,
        {
            let s = match self.get(i) {
                Some(s) => s,
                None => "",
            };
            if !crate::text::str_eq(s, other[i]) {
                assert(self.view()[i as int] != other@.map_values(|s: &str| s@)[i as int]);
                return false;
            }
            i = i + 1;
        }
        assert(self.view() =~= other@.map_values(|s: &str| s@));
        true
    }

    /// The list of the strings of `items`, in order.
    pub fn from_strs(items: &[&str]) -> (r: CompactVecString)
        requires
            total_bytes(items@) <= usize::MAX,
        ensures
            r.wf(),
            r.view() == items@.map_values(|s: &str| s@),
            r.byte_len() == total_bytes(items@),
    {
        let mut r = CompactVecString::new();
        r.extend_strs(items);
        assert(Seq::<Seq<char>>::empty() + items@.map_values(|s: &str| s@) =~= items@.map_values(
            |s: &str| s@,
        ));
        r
    }

    /// The strings in a new vector.
    pub fn to_vec(&self) -> (r: Vec<String>)
        requires
            self.wf(),
        ensures
            r@.map_values(|s: String| s@) == self.view(),
    {
        let n = self.index.len();
        let mut r: Vec<String> = Vec::new();
        let mut i: usize = 0;
        while i < n
            invariant
                self.wf(),
                0 <= i <= n == self.view().len(),
                r@.map_values(|s: String| s@) == self.view().take(i as int),
            decreases n - i,
        {
            let s = match self.get(i) {
                Some(s) => s,
                None => "",
            };
            let ghost prev = r@;
            r.push(s.to_owned());
            assert(r@.map_values(|s: String| s@) =~= prev.map_values(|s: String| s@).push(s@));
            assert(self.view().take(i + 1) =~= self.view().take(i as int).push(self.view()[i as int]));
            i = i + 1;
        }
        assert(self.view().take(n as int) =~= self.view());
        r
    }

    /// The `Debug` text of the list: the first 32 strings, each as `str` writes itself
    /// for `Debug`, separated by `, ` in brackets.
    pub fn debug_string(&self) -> (r: String)
        requires
            self.wf(),
        ensures
            r@ == seq!['['] + seq_join(
                self.view().take(
                    if self.view().len() < 32 {
                        self.view().len() as int
                    } else {
                        32
                    },
                ).map_values(|s: Seq<char>| str_debug_text(s)),
                seq![',', ' '],
            ) + seq![']'],
    {
        proof {
            reveal_strlit("[");
            reveal_strlit("]");
            reveal_strlit(", ");
            assert(", "@ =~= seq![',', ' ']);
        }
        let n = if self.index.len() < 32 {
            self.index.len()
        } else {
            32
        };
        let ghost items = self.view().take(n as int).map_values(|s: Seq<char>| str_debug_text(s));
        let mut body = String::new();
        let mut i: usize = 0;
        while i < n
            invariant
                self.wf(),
                0 <= i <= n <= self.view().len(),
                items == self.view().take(n as int).map_values(|s: Seq<char>| str_debug_text(s)),
                body@ == seq_join(items.take(i as int), seq![',', ' ']),
                ", "@ == seq![',', ' '],
            decreases n - i,
        {
            let s = match self.get(i) {
                Some(s) => s,
                None => "",
            };
            let d = str_debug(s);
            assert(items.take(i + 1).drop_last() =~= items.take(i as int));
            if i > 0 {
                body.append(", ");
            } else {
                assert(items.take(1) =~= seq![items[0]]);
                assert(body@ =~= Seq::<char>::empty());
            }
            body.append(d.as_str());
            assert(items[i as int] == str_debug_text(self.view()[i as int]));
            assert(d@ == items.take(i + 1).last());
            assert(body@ =~= seq_join(items.take(i + 1), seq![',', ' ']));
            i = i + 1;
        }
        assert(items.take(n as int) =~= items);
        let mut r = "[".to_owned();
        r.append(body.as_str());
        r.append("]");
        r
    }
}

/// The total number of UTF-8 bytes of the strings of `items`.
pub open spec fn total_bytes(items: Seq<&str>) -> int
    decreases items.len(),
{
    if items.len() == 0 {
        0
    } else {
        encode_utf8(items[0]@).len() + total_bytes(items.drop_first())
    }
}

pub proof fn lemma_total_bytes_first(items: Seq<&str>)
    requires
        items.len() > 0,
    ensures
        total_bytes(items) == encode_utf8(items[0]@).len() + total_bytes(items.drop_first()),
        total_bytes(items.drop_first()) >= 0,
    decreases items.len(),
{
    lemma_total_bytes_nonneg(items.drop_first());
}

pub proof fn lemma_total_bytes_nonneg(items: Seq<&str>)
    ensures
        total_bytes(items) >= 0,
    decreases items.len(),
{
    if items.len() > 0 {
        lemma_total_bytes_nonneg(items.drop_first());
    }
}

/// The total number of UTF-8 bytes of the strings of `items`.
pub open spec fn total_string_bytes(items: Seq<String>) -> int
    decreases items.len(),
{
    if items.len() == 0 {
        0
    } else {
        encode_utf8(items[0]@).len() + total_string_bytes(items.drop_first())
    }
}

pub proof fn lemma_total_string_bytes_first(items: Seq<String>)
    requires
        items.len() > 0,
    ensures
        total_string_bytes(items) == encode_utf8(items[0]@).len() + total_string_bytes(items.drop_first()),
        total_string_bytes(items.drop_first()) >= 0,
{
    lemma_total_string_bytes_nonneg(items.drop_first());
}

pub proof fn lemma_total_string_bytes_nonneg(items: Seq<String>)
    ensures
        total_string_bytes(items) >= 0,
    decreases items.len(),
{
    if items.len() > 0 {
        lemma_total_string_bytes_nonneg(items.drop_first());
    }
}

/// An iterator over the strings of a [`CompactVecString`].
pub struct Iter<'a> {
    pub inner: &'a CompactVecString,
    pub index: usize,
}

impl<'a> Iter<'a> {
    /// The next string, or `None` past the last.
    pub fn next(&mut self) -> (r: Option<&'a str>)
        requires
            old(self).inner.wf(),
        ensures
            final(self).inner == old(self).inner,
            old(self).index < old(self).inner.view().len() ==> (r matches Some(s) && s@
                == old(self).inner.view()[old(self).index as int]),
            old(self).index >= old(self).inner.view().len() ==> r is None,
            final(self).index == if old(self).index < usize::MAX {
                old(self).index + 1
            } else {
                old(self).index as int
            },
    {
        let result = self.inner.get(self.index);
        if self.index < usize::MAX {
            self.index = self.index + 1;
        }
        result
    }
}

/// Law: pushing a string onto a well-formed list and popping it leaves the list as it
/// was, down to both of its buffers.
pub proof fn law_push_pop(before: CompactVecString, pushed: CompactVecString, popped: CompactVecString, s: Seq<char>)
    requires
        pushed.spec_bytes() == before.spec_bytes() + encode_utf8(s),
        pushed.spec_starts() == before.spec_starts().push(before.byte_len() as usize),
        popped.spec_starts() == pushed.spec_starts().drop_last(),
        popped.spec_bytes() == pushed.spec_bytes().take(pushed.spec_starts().last() as int),
    ensures
        popped.spec_bytes() == before.spec_bytes(),
        popped.spec_starts() == before.spec_starts(),
        popped.view() == before.view(),
        popped.byte_len() == before.byte_len(),
{
    assert(before.underlying@.len() <= usize::MAX) by {
        broadcast use vstd::std_specs::vec::axiom_spec_len;
        assert(before.underlying.len() == before.underlying@.len());
    }
    assert(popped.spec_starts() =~= before.spec_starts());
    assert(popped.spec_bytes() =~= before.spec_bytes());
    assert(popped.index@ == before.index@);
    assert(popped.underlying@ == before.underlying@);
    assert forall|i: int| 0 <= i < popped.index@.len() implies #[trigger] popped.segment(i) == before.segment(i) by {}
    assert(popped.view() =~= before.view());
}

} // verus!
