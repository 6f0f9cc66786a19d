//! Call descriptors: a function name, its argument generators and the
//! identities that may call it.

use crate::arg::{each_text, fit_each, push_each, sample_each, Arg, Sample};
use crate::random::draw_index;
use crate::text::comma_join;
use rand::rngs::StdRng;
use vstd::prelude::*;

verus! {

/// One entry point: its qualified name, the generators of its arguments in
/// order, and the callers that may invoke it.
pub struct Func<'a> {
    name: String,
    args: Vec<Arg<'a>>,
    canonical_callers: Vec<&'a str>,
}

impl<'a> Func<'a> {
    #[verifier::type_invariant]
    spec fn inv(&self) -> bool {
        self.canonical_callers.len() > 0
    }

    pub closed spec fn name(&self) -> Seq<char> {
        self.name@
    }

    pub closed spec fn args(&self) -> Seq<Arg<'a>> {
        self.args@
    }

    pub closed spec fn callers(&self) -> Seq<&'a str> {
        self.canonical_callers@
    }

    /// `ss` holds one fitting sample per argument.
    pub open spec fn fits(self, ss: Seq<Sample>) -> bool {
        ss.len() == self.args().len() && fit_each(self.args(), ss, self.args().len())
    }

    /// `name(arg1, arg2, ...);` for the argument choices `ss`.
    pub open spec fn call_text(self, ss: Seq<Sample>) -> Seq<char> {
        self.name() + "("@ + comma_join(each_text(self.args(), ss, self.args().len())) + ");"@
    }

    /// A descriptor; the caller list must not be empty.
    pub fn new(name: &str, args: Vec<Arg<'a>>, canonical_callers: Vec<&'a str>) -> (r: Self)
        requires
            canonical_callers.len() > 0,
        ensures
            r.name() == name@,
            r.args() == args@,
            r.callers() == canonical_callers@,
    {
        Func { name: name.to_owned(), args, canonical_callers }
    }

    /// Draws the choices of every argument, in order.
    pub fn sample_args(&self, rng: &mut StdRng) -> (ss: Vec<Sample>)
        ensures
            self.fits(ss@),
    {
        sample_each(&self.args, rng)
    }

    /// The call text for the argument choices `ss`.
    pub fn render_call(&self, ss: &Vec<Sample>) -> (r: String)
        requires
            self.fits(ss@),
        ensures
            r@ == self.call_text(ss@),
    {
        let mut out = self.name.clone();
        out.append("(");
        push_each(&mut out, &self.args, ss);
        out.append(");");
        out
    }

    /// One rendering of the call: every argument rendered once, in order.
    pub fn generate_call(&self, rng: &mut StdRng) -> (r: String)
        ensures
            exists|ss: Seq<Sample>| self.fits(ss) && r@ == self.call_text(ss),
    {
        let ss = self.sample_args(rng);
        let r = self.render_call(&ss);
        assert(self.fits(ss@) && r@ == self.call_text(ss@));
        r
    }

    /// The position of a caller drawn uniformly from the caller list.
    pub fn pick_caller(&self, rng: &mut StdRng) -> (i: usize)
        ensures
            i < self.callers().len(),
    {
        proof { use_type_invariant(self); }
        draw_index(rng, self.canonical_callers.len())
    }

    /// A caller drawn uniformly from the caller list.
    pub fn get_caller(&self, rng: &mut StdRng) -> (r: &'a str)
        ensures
            self.callers().contains(r),
    {
        let i = self.pick_caller(rng);
        self.canonical_callers[i]
    }

    /// The caller at position `i` of the caller list.
    pub fn caller_at(&self, i: usize) -> (r: &'a str)
        requires
            i < self.callers().len(),
        ensures
            r == self.callers()[i as int],
    {
        self.canonical_callers[i]
    }
}

} // verus!
