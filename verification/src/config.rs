use crate::compact::{shrink_vec, CompactVecString};
use crate::error::Error;
use vstd::prelude::*;

verus! {

/// A configuration value written either as one item or as a list of items.
#[derive(Clone, Debug)]
pub enum SingleOrVec<T> {
    Single(T),
    Vec(Vec<T>),
}

impl<T> SingleOrVec<T> {
    /// The items, in order: the one item, or the list.
    pub open spec fn items(self) -> Seq<T> {
        match self {
            SingleOrVec::Single(t) => seq![t],
            SingleOrVec::Vec(v) => v@,
        }
    }

    /// The items in a vector.
    pub fn into_vec(self) -> (r: Vec<T>)
        ensures
            r@ == self.items(),
    {
        match self {
            SingleOrVec::Single(t) => {
                let r = vec![t];
                assert(r@ =~= seq![t]);
                r
            },
            SingleOrVec::Vec(v) => v,
        }
    }

    /// An iterator over the items, first to last.
    pub fn iter(&self) -> (r: Iter<'_, T>)
        ensures
            r.inner == self,
            r.index == 0,
    {
        Iter { inner: self, index: 0 }
    }

    /// Lowers the capacity of the list to its length; the items stay.
    pub fn shrink_to_fit(&mut self)
        ensures
            final(self).items() == old(self).items(),
            *final(self) is Single <==> *old(self) is Single,
    {
        match self {
            SingleOrVec::Single(_) => {},
            SingleOrVec::Vec(x) => {
                shrink_vec(x);
            },
        }
    }

    /// Appends the items of `items`; the result is always a list.
    pub fn extend(&mut self, items: Vec<T>)
        ensures
            final(self).items() == old(self).items() + items@,
            *final(self) is Vec,
    {
        let mut items = items;
        let mut this = SingleOrVec::Vec(Vec::new());
        std::mem::swap(&mut this, self);
        match this {
            SingleOrVec::Single(i) => {
                let mut v = Vec::with_capacity(1);
                v.push(i);
                v.append(&mut items);
                *self = SingleOrVec::Vec(v);
            },
            SingleOrVec::Vec(mut v) => {
                v.append(&mut items);
                *self = SingleOrVec::Vec(v);
            },
        }
    }
}

/// An iterator over the items of a [`SingleOrVec`].
pub struct Iter<'a, T> {
    pub inner: &'a SingleOrVec<T>,
    pub index: usize,
}

impl<'a, T> Iter<'a, T> {
    /// The next item, or `None` after the last.
    pub fn next(&mut self) -> (r: Option<&'a T>)
        ensures
            final(self).inner == old(self).inner,
            old(self).index < old(self).inner.items().len() ==> (r matches Some(x) && *x
                == old(self).inner.items()[old(self).index as int] && final(self).index == old(
                self,
            ).index + 1),
            old(self).index >= old(self).inner.items().len() ==> r is None,
            final(self).index == iter_step(*old(self).inner, old(self).index as int),
    {
        match self.inner {
            SingleOrVec::Single(x) => {
                if self.index == 0 {
                    self.index = self.index + 1;
                    Some(x)
                } else {
                    None
                }
            },
            SingleOrVec::Vec(x) => {
                let i = if self.index < x.len() {
                    Some(&x[self.index])
                } else {
                    None
                };
                if self.index < usize::MAX {
                    self.index = self.index + 1;
                }
                i
            },
        }
    }
}

/// Where an iterator over `inner` stands after a call of `next` that found it at
/// `index`: past the one item of a single value it stays; over a list it moves on by
/// one, up to the largest index.
pub open spec fn iter_step<T>(inner: SingleOrVec<T>, index: int) -> int {
    match inner {
        SingleOrVec::Single(_) => if index == 0 {
            1
        } else {
            index
        },
        SingleOrVec::Vec(_) => if index < usize::MAX {
            index + 1
        } else {
            index
        },
    }
}

/// Where an iterator over `inner` stands after `calls` calls of `next` from the start.
pub open spec fn iter_index_after<T>(inner: SingleOrVec<T>, calls: nat) -> int
    decreases calls,
{
    if calls == 0 {
        0
    } else {
        iter_step(inner, iter_index_after(inner, (calls - 1) as nat))
    }
}

/// Law: a full pass of an iterator from the start yields every item once, in order,
/// and then nothing: call `j` of `next` finds the iterator at `j` while items are left,
/// and past the last item once they are all out.
pub proof fn law_iter_full_pass<T>(inner: SingleOrVec<T>, calls: nat)
    ensures
        calls < inner.items().len() ==> iter_index_after(inner, calls) == calls,
        calls >= inner.items().len() ==> iter_index_after(inner, calls) >= inner.items().len(),
    decreases calls,
{
    if let SingleOrVec::Vec(v) = inner {
        assert(v@.len() <= usize::MAX) by {
            broadcast use vstd::std_specs::vec::axiom_spec_len;
            assert(v.len() == v@.len());
        }
    }
    if calls > 0 {
        law_iter_full_pass(inner, (calls - 1) as nat);
    }
}

/// An iterator over the items of a [`SingleOrVec`] that hands each out to be changed.
pub struct IterMut<'a, T> {
    pub inner: &'a mut SingleOrVec<T>,
    pub index: usize,
}

impl<'a, T> IterMut<'a, T> {
    /// The items, as they stand.
    pub closed spec fn spec_items(self) -> Seq<T> {
        self.inner.items()
    }

    /// How many items were handed out.
    pub closed spec fn spec_index(self) -> usize {
        self.index
    }

    /// Whether the iterator walks the one item of a single value.
    pub closed spec fn spec_is_single(self) -> bool {
        *self.inner is Single
    }

    /// The next item, to be changed in place, or `None` after the last.
    pub fn next(&mut self) -> (r: Option<&mut T>)
        ensures
            old(self).spec_index() < old(self).spec_items().len() ==> (r matches Some(x) && *x
                == old(self).spec_items()[old(self).spec_index() as int] && final(self).spec_index()
                == old(self).spec_index() + 1 && final(self).spec_items() == old(self).spec_items().update(
                old(self).spec_index() as int,
                *final(x),
            )),
            old(self).spec_index() >= old(self).spec_items().len() ==> r is None,
            old(self).spec_index() >= old(self).spec_items().len() ==> final(self).spec_items()
                == old(self).spec_items(),
            old(self).spec_index() >= old(self).spec_items().len() ==> final(self).spec_index()
                == old(self).spec_index(),
            final(self).spec_is_single() == old(self).spec_is_single(),
            *final(final(self).inner) == *final(old(self).inner),
    {
        let i = self.index;
        match &mut *self.inner {
            SingleOrVec::Single(x) => {
                if i == 0 {
                    self.index = 1;
                    Some(x)
                } else {
                    None
                }
            },
            SingleOrVec::Vec(v) => {
                if i < v.len() {
                    self.index = i + 1;
                    Some(&mut v[i])
                } else {
                    None
                }
            },
        }
    }
}

impl<T> SingleOrVec<T> {
    /// An iterator that hands out each item, first to last, to be changed in place.
    pub fn iter_mut(&mut self) -> (r: IterMut<'_, T>)
        ensures
            r.spec_items() == old(self).items(),
            r.spec_index() == 0,
            r.spec_is_single() == (*old(self) is Single),
            *final(self) == *final(r.inner),
    {
        IterMut { inner: self, index: 0 }
    }
}

/// A run of `ws.len()` calls of `next` on an iterator that hands out items to change,
/// started on `items`: before call `j` the items were `its[j]` and the iterator stood at
/// `idx[j]`; an item handed out was set to `ws[j]`; past the last item a call changes
/// nothing.
pub open spec fn iter_mut_trace<T>(
    items: Seq<T>,
    its: Seq<Seq<T>>,
    idx: Seq<int>,
    ws: Seq<T>,
) -> bool {
    &&& its.len() == ws.len() + 1
    &&& idx.len() == ws.len() + 1
    &&& its[0] == items
    &&& idx[0] == 0
    &&& forall|j: int|
        #![trigger its[j + 1]]
        0 <= j < ws.len() ==> {
            &&& idx[j] < its[j].len() ==> its[j + 1] == its[j].update(idx[j], ws[j]) && idx[j + 1]
                == idx[j] + 1
            &&& idx[j] >= its[j].len() ==> its[j + 1] == its[j] && idx[j + 1] == idx[j]
        }
}

/// Law: a pass of an iterator that hands out items to change reaches each item once, in
/// order: after `k` calls the first `min(k, n)` items hold what was written to them and
/// the others are as they were, the number of items stays, and the iterator stands at
/// `min(k, n)`. (For a `for_each` that sets each item to `f` of itself, `ws[j]` is `f`
/// of item `j`.)
pub proof fn law_iter_mut_full_pass<T>(items: Seq<T>, its: Seq<Seq<T>>, idx: Seq<int>, ws: Seq<T>)
    requires
        iter_mut_trace(items, its, idx, ws),
    ensures
        its[ws.len() as int].len() == items.len(),
        idx[ws.len() as int] == if ws.len() < items.len() {
            ws.len() as int
        } else {
            items.len() as int
        },
        forall|i: int|
            #![trigger its[ws.len() as int][i]]
            0 <= i < items.len() ==> its[ws.len() as int][i] == if i < ws.len() {
                ws[i]
            } else {
                items[i]
            },
{
    lemma_iter_mut_prefix(items, its, idx, ws, ws.len());
}

proof fn lemma_iter_mut_prefix<T>(items: Seq<T>, its: Seq<Seq<T>>, idx: Seq<int>, ws: Seq<T>, k: nat)
    requires
        iter_mut_trace(items, its, idx, ws),
        k <= ws.len(),
    ensures
        its[k as int].len() == items.len(),
        idx[k as int] == if k < items.len() {
            k as int
        } else {
            items.len() as int
        },
        forall|i: int|
            #![trigger its[k as int][i]]
            0 <= i < items.len() ==> its[k as int][i] == if i < k {
                ws[i]
            } else {
                items[i]
            },
    decreases k,
{
    if k > 0 {
        let j = k - 1;
        lemma_iter_mut_prefix(items, its, idx, ws, j as nat);
        assert(its[j + 1] == its[k as int]);
        assert forall|i: int|
            #![trigger its[k as int][i]]
            0 <= i < items.len() implies its[k as int][i] == if i < k {
                ws[i]
            } else {
                items[i]
            } by {
            assert(its[j as int][i] == if i < j {
                ws[i]
            } else {
                items[i]
            });
        }
    }
}

/// The two sides of a value that a configuration refers to: what the configuration
/// writes, and what it is resolved to.
pub trait ResolvableSchema {
    type Represent;
    type Value;
}

/// A configuration item that is written as a `Represent` and later resolved to a
/// `Value`.
pub struct Resolvable<S: ResolvableSchema> {
    represent: S::Represent,
    value: Option<S::Value>,
}

impl<S: ResolvableSchema> Resolvable<S> {
    /// What the configuration writes.
    pub closed spec fn spec_represent(self) -> S::Represent {
        self.represent
    }

    /// What the item is resolved to, once it is.
    pub closed spec fn spec_value(self) -> Option<S::Value> {
        self.value
    }

    /// An item not resolved yet.
    pub fn new(represent: S::Represent) -> (r: Self)
        ensures
            r.spec_represent() == represent,
            r.spec_value() is None,
    {
        Resolvable { represent, value: None }
    }

    /// An item already resolved to `value`.
    pub fn new_with_value(represent: S::Represent, value: S::Value) -> (r: Self)
        ensures
            r.spec_represent() == represent,
            r.spec_value() == Some(value),
    {
        Resolvable { represent, value: Some(value) }
    }

    /// What the configuration writes.
    pub fn represent(&self) -> (r: &S::Represent)
        ensures
            *r == self.spec_represent(),
    {
        &self.represent
    }

    /// What the configuration writes, to change it; the value stays.
    pub fn represent_mut(&mut self) -> (r: &mut S::Represent)
        ensures
            *r == old(self).spec_represent(),
            final(self).spec_represent() == *final(r),
            final(self).spec_value() == old(self).spec_value(),
    {
        &mut self.represent
    }

    /// The value, if the item is resolved.
    pub fn value(&self) -> (r: Option<&S::Value>)
        ensures
            r is Some <==> self.spec_value() is Some,
            r matches Some(v) ==> *v == self.spec_value()->0,
    {
        match &self.value {
            Some(v) => Some(v),
            None => None,
        }
    }

    /// The value the item was resolved to, as `*` gives it. Used only once the item is
    /// resolved (`std::ops::Deref` cannot carry that precondition, so the method stands
    /// in its place).
    pub fn deref(&self) -> (r: &S::Value)
        requires
            self.spec_value() is Some,
        ensures
            *r == self.spec_value()->0,
    {
        match &self.value {
            Some(v) => v,
            None => vstd::pervasive::unreached(),
        }
    }

    /// Resolves the item to `value`; what the configuration writes stays.
    pub fn set_value(&mut self, value: S::Value)
        ensures
            final(self).spec_represent() == old(self).spec_represent(),
            final(self).spec_value() == Some(value),
    {
        self.value = Some(value);
    }

    /// A clone of the value of a resolved item.
    pub fn value_cloned(&self) -> (r: S::Value) where S::Value: Clone
        requires
            self.spec_value() is Some,
        ensures
            cloned(self.spec_value()->0, r),
    {
        match &self.value {
            Some(v) => v.clone(),
            None => vstd::pervasive::unreached(),
        }
    }
}

/// Where a visit of a configuration stands: the field names from the root down.
pub struct VisitorContext {
    path: CompactVecString,
}

impl VisitorContext {
    pub closed spec fn wf(self) -> bool {
        self.path.wf()
    }

    /// The field names from the root down.
    pub closed spec fn view(self) -> Seq<Seq<char>> {
        self.path.view()
    }

    /// The number of bytes of the field names.
    pub closed spec fn byte_len(self) -> nat {
        self.path.byte_len()
    }

    /// A visit at the root.
    pub fn new() -> (r: VisitorContext)
        ensures
            r.wf(),
            r.view() == Seq::<Seq<char>>::empty(),
            r.byte_len() == 0,
    {
        VisitorContext { path: CompactVecString::new() }
    }

    /// Goes down into `field`; the result is the context itself, for chained calls.
    pub fn push(&mut self, field: &str) -> (r: &mut Self)
        requires
            old(self).wf(),
            old(self).byte_len() + vstd::utf8::encode_utf8(field@).len() <= usize::MAX,
        ensures
            r.wf(),
            r.view() == old(self).view().push(field@),
            r.byte_len() == old(self).byte_len() + vstd::utf8::encode_utf8(field@).len(),
            *final(self) == *final(r),
    {
        self.path.push(field);
        self
    }

    /// Goes back up one field.
    pub fn pop(&mut self)
        requires
            old(self).wf(),
        ensures
            final(self).wf(),
            final(self).view() == old(self).view().take(
                if old(self).view().len() > 0 {
                    old(self).view().len() - 1
                } else {
                    0
                },
            ),
            final(self).byte_len() <= old(self).byte_len(),
    {
        self.path.pop();
    }

    /// The field names from the root down.
    pub fn path(&self) -> (r: &CompactVecString)
        ensures
            r.wf() == self.wf(),
            r.view() == self.view(),
    {
        &self.path
    }
}

/// What a visit of a configuration does at each resolvable item it meets.
pub trait Visitor<T: ResolvableSchema>: Sized {
    /// The visitor is fit to visit an item.
    spec fn inv(self) -> bool;

    /// Visiting the item `before`, met at the field path `path`, changed it to `after`,
    /// the visitor from `self` to `next`, and gave `r`.
    spec fn visited(
        self,
        next: Self,
        path: Seq<Seq<char>>,
        before: Resolvable<T>,
        after: Resolvable<T>,
        r: Result<(), Error>,
    ) -> bool;

    fn visit_resolvable(&mut self, ctx: &mut VisitorContext, resolvable: &mut Resolvable<T>) -> (r: Result<
        (),
        Error,
    >)
        requires
            old(self).inv(),
            old(ctx).wf(),
        ensures
            final(self).inv(),
            final(ctx).wf(),
            final(ctx).view() == old(ctx).view(),
            old(self).visited(*final(self), old(ctx).view(), *old(resolvable), *final(resolvable), r),
    ;
}

/// A configuration whose resolvable items can be visited by visitors of type `V`.
pub trait Config<R: ResolvableSchema, V: Visitor<R>>: Sized {
    /// Visiting the configuration `self`, found at the field path `path`, with the
    /// visitor `v` changed the configuration to `after`, the visitor to `v_after`, and
    /// gave `r`.
    spec fn walked(
        self,
        after: Self,
        path: Seq<Seq<char>>,
        v: V,
        v_after: V,
        r: Result<(), Error>,
    ) -> bool;

    fn visit(&mut self, ctx: &mut VisitorContext, visitor: &mut V) -> (r: Result<
        (),
        Error,
    >)
        requires
            old(visitor).inv(),
            old(ctx).wf(),
        ensures
            final(visitor).inv(),
            final(ctx).wf(),
            final(ctx).view() == old(ctx).view(),
            old(self).walked(*final(self), old(ctx).view(), *old(visitor), *final(visitor), r),
    ;
}

/// The walk over the items `xs`, all at the field path `path`, that turned them into
/// `ys`, traced step by step: the visitor went through the states `vs` and item `j`
/// gave `rs[j]`. Items are visited in order, each with the visitor as the one before
/// left it, until the first error or the last item; the items not visited stay as they
/// were; the result is the last item's, or `Ok` when there is no item.
pub open spec fn walk_trace<R: ResolvableSchema, V: Visitor<R>, T: Config<R, V>>(
    xs: Seq<T>,
    ys: Seq<T>,
    path: Seq<Seq<char>>,
    v: V,
    v_after: V,
    r: Result<(), Error>,
    vs: Seq<V>,
    rs: Seq<Result<(), Error>>,
) -> bool {
    let k = rs.len() as int;
    &&& ys.len() == xs.len()
    &&& k <= xs.len()
    &&& vs.len() == k + 1
    &&& vs[0] == v
    &&& vs[k] == v_after
    &&& forall|j: int|
        #![trigger rs[j]]
        0 <= j < k ==> xs[j].walked(ys[j], path, vs[j], vs[j + 1], rs[j])
    &&& forall|j: int| #![trigger rs[j]] 0 <= j < k - 1 ==> rs[j] is Ok
    &&& k < xs.len() ==> k > 0 && rs[k - 1] is Err
    &&& r == (if k == 0 {
        Ok(())
    } else {
        rs[k - 1]
    })
    &&& forall|j: int| #![trigger ys[j]] k <= j < xs.len() ==> ys[j] == xs[j]
}

/// Visiting the items `xs` in order with the visitor `v`, stopping at the first error,
/// changed them to `ys`, the visitor to `v_after`, and gave `r` (see [`walk_trace`]).
pub open spec fn walked_items<R: ResolvableSchema, V: Visitor<R>, T: Config<R, V>>(
    xs: Seq<T>,
    ys: Seq<T>,
    path: Seq<Seq<char>>,
    v: V,
    v_after: V,
    r: Result<(), Error>,
) -> bool {
    exists|vs: Seq<V>, rs: Seq<Result<(), Error>>|
        #[trigger] walk_trace::<R, V, T>(xs, ys, path, v, v_after, r, vs, rs)
}

impl<R: ResolvableSchema, V: Visitor<R>, T: Config<R, V>> Config<R, V> for SingleOrVec<T> {
    /// The one item is visited; or each item of the list, in order, until the first
    /// error. The value keeps its shape.
    open spec fn walked(
        self,
        after: Self,
        path: Seq<Seq<char>>,
        v: V,
        v_after: V,
        r: Result<(), Error>,
    ) -> bool {
        match (self, after) {
            (SingleOrVec::Single(x), SingleOrVec::Single(y)) => x.walked(y, path, v, v_after, r),
            (SingleOrVec::Vec(xs), SingleOrVec::Vec(ys)) => walked_items::<R, V, T>(
                xs@,
                ys@,
                path,
                v,
                v_after,
                r,
            ),
            _ => false,
        }
    }

    /// Visits the one item, or each item of the list in order, stopping at the first
    /// error.
    fn visit(&mut self, ctx: &mut VisitorContext, visitor: &mut V) -> (r: Result<
        (),
        Error,
    >) {
        match self {
            SingleOrVec::Single(x) => {
                x.visit(ctx, visitor)
            },
            SingleOrVec::Vec(v) => {
                let n = v.len();
                let ghost xs = v@;
                let ghost v0 = *visitor;
                let ghost mut vs: Seq<V> = seq![*visitor];
                let ghost mut rs: Seq<Result<(), Error>> = Seq::empty();
                let mut i: usize = 0;
                let mut result: Result<(), Error> = Ok(());
                while i < n && result.is_ok()
                    invariant
                        0 <= i <= n == v@.len() == xs.len(),
                        xs == old(self).items(),
                        *old(self) is Vec,
                        v0 == *old(visitor),
                        visitor.inv(),
                        ctx.wf(),
                        ctx.view() == old(ctx).view(),
                        rs.len() == i,
                        vs.len() == i + 1,
                        vs[0] == v0,
                        vs[i as int] == *visitor,
                        forall|j: int|
                            #![trigger rs[j]]
                            0 <= j < i ==> xs[j].walked(v@[j], old(ctx).view(), vs[j], vs[j + 1], rs[j]),
                        forall|j: int| #![trigger rs[j]] 0 <= j < i - 1 ==> rs[j] is Ok,
                        result == (if i == 0 {
                            Ok(())
                        } else {
                            rs[i - 1]
                        }),
                        forall|j: int| #![trigger v@[j]] i <= j < n ==> v@[j] == xs[j],
                    decreases n - i,
                {
                    let ghost before = v@;
                    let ghost rs_before = rs;
                    result = v[i].visit(ctx, visitor);
                    proof {
                        assert(v@ == before.update(i as int, v@[i as int]));
                        rs = rs.push(result);
                        vs = vs.push(*visitor);
                        assert forall|j: int|
                            #![trigger rs[j]]
                            0 <= j < i + 1 implies xs[j].walked(v@[j], old(ctx).view(), vs[j], vs[j + 1], rs[j]) by {
                            if j < i {
                                assert(rs[j] == rs_before[j]);
                                assert(v@[j] == before[j]);
                            }
                        }
                        assert forall|j: int| #![trigger rs[j]] 0 <= j < i implies rs[j] is Ok by {
                            assert(rs[j] == rs_before[j]);
                            if j < i - 1 {
                                assert(rs_before[j] is Ok);
                            }
                        }
                        assert forall|j: int| #![trigger v@[j]] i + 1 <= j < n implies v@[j] == xs[j] by {
                            assert(before[j] == xs[j]);
                        }
                    }
                    i = i + 1;
                }
                proof {
                    assert(walk_trace::<R, V, T>(xs, v@, old(ctx).view(), v0, *visitor, result, vs, rs));
                }
                result
            },
        }
    }
}

} // verus!
