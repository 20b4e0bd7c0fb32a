use vstd::prelude::*;

verus! {

/// A region of source text: the file it belongs to and its start and end offsets.
#[derive(Debug, Clone, Copy, PartialEq, Eq, Hash)]
pub struct Span {
    pub file_id: u32,
    pub start: u32,
    pub end: u32,
}

/// A value together with the span of source text it was read from.
#[derive(Debug, Clone, PartialEq, Eq, Hash)]
pub struct Spanned<T> {
    pub node: T,
    pub span: Span,
}

impl Span {
    pub open spec fn zero() -> Span {
        Span { file_id: 0, start: 0, end: 0 }
    }
}

impl Default for Span {
    /// The span of file 0 that starts and ends at offset 0.
    fn default() -> (s: Self)
        ensures
            s == (Span { file_id: 0, start: 0, end: 0 }),
    {
        Span { file_id: 0, start: 0, end: 0 }
    }
}

impl<T> Spanned<Box<T>> {
    /// Moves the node out of its box, keeping the span.
    pub fn unbox(self) -> (res: Spanned<T>)
        ensures
            res.node == *self.node,
            res.span == self.span,
    {
        let Spanned { node, span } = self;
        Spanned { node: *node, span }
    }
}

/// Borrows the node of a spanned value, keeping the span.
pub trait SpannedAsRef<'a, T> {
    fn as_ref_spanned(&'a self) -> Spanned<&'a T>;

    fn get_node(&self) -> &T;
}

impl<'a, T> SpannedAsRef<'a, T> for Spanned<T> {
    fn as_ref_spanned(&'a self) -> (r: Spanned<&'a T>)
        ensures
            *r.node == self.node,
            r.span == self.span,
    {
        Spanned { node: &self.node, span: self.span }
    }

    fn get_node(&self) -> (r: &T)
        ensures
            *r == self.node,
    {
        &self.node
    }
}

/// Borrows the boxed node of a spanned value, keeping the span.
pub fn boxed_as_ref_spanned<'a, T>(s: &'a Spanned<Box<T>>) -> (r: Spanned<&'a T>)
    ensures
        *r.node == *s.node,
        r.span == s.span,
{
    Spanned { node: &*s.node, span: s.span }
}

impl<'a, T> SpannedAsRef<'a, T> for Spanned<Box<T>> {
    fn as_ref_spanned(&'a self) -> Spanned<&'a T> {
        boxed_as_ref_spanned(self)
    }

    fn get_node(&self) -> &T {
        &*self.node
    }
}

} // verus!
