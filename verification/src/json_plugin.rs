//! Registration data for JSON-backed assets.
//!
//! A `JsonAssetPlugin<A>` carries the list of file extensions whose files
//! should be decoded into assets of type `A`. The host application wires
//! the plugin into its asset pipeline and does the actual reading and
//! decoding; the plugin itself only owns the extension list.

use vstd::prelude::*;
use vstd::slice::slice_to_vec;
use core::marker::PhantomData;

verus! {

/// Claims a set of file extensions for JSON-decoded assets of type `A`.
pub struct JsonAssetPlugin<A> {
    extensions: Vec<&'static str>,
    _marker: PhantomData<A>,
}

impl<A> JsonAssetPlugin<A> {
    /// The extensions this plugin claims, in the order given.
    pub closed spec fn extensions_spec(self) -> Seq<&'static str> {
        self.extensions@
    }

    pub fn new(extensions: &[&'static str]) -> (r: Self)
        ensures
            r.extensions_spec() == extensions@,
    {
        Self { extensions: slice_to_vec(extensions), _marker: PhantomData }
    }

    /// The claimed extensions, for the host's asset loader.
    pub fn extensions(&self) -> (r: &Vec<&'static str>)
        ensures
            r@ == self.extensions_spec(),
    {
        &self.extensions
    }
}

} // verus!
