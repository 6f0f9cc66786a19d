//! Domains, argument generators and their rendering.
//!
//! Rendering is split in two: `sample` draws every random choice a generator
//! makes into a [`Sample`] tree, and `render` turns a generator and a fitting
//! sample into text. `generate` does both.

use crate::random::{draw_bool, draw_index, draw_u128};
use crate::text::{comma_join, decimal, decimal_text, push_decimal};
use rand::rngs::StdRng;
use vstd::prelude::*;

verus! {

/// One unit of a fixed-point value with 27 decimals.
pub const RAY_ONE: u128 = 1_000_000_000_000_000_000_000_000_000;

/// One unit of a fixed-point value with 18 decimals.
pub const WAD_ONE: u128 = 1_000_000_000_000_000_000;

/// The legal values of a scalar argument.
pub enum Domain {
    /// Every `v` with `start <= v < end`.
    Range(std::ops::Range<u128>),
    /// The listed values.
    Values(Vec<u128>),
}

impl Domain {
    /// A domain that can be drawn from: a non-empty range or a non-empty set.
    pub open spec fn valid(&self) -> bool {
        match self {
            Domain::Range(r) => r.start < r.end,
            Domain::Values(s) => s.len() > 0,
        }
    }

    /// `v` is a value of the domain.
    pub open spec fn holds(&self, v: u128) -> bool {
        match self {
            Domain::Range(r) => r.start <= v < r.end,
            Domain::Values(s) => s@.contains(v),
        }
    }

    /// Whether the domain can be drawn from.
    pub fn is_valid(&self) -> (r: bool)
        ensures
            r == self.valid(),
    {
        match self {
            Domain::Range(r) => r.start < r.end,
            Domain::Values(s) => s.len() > 0,
        }
    }

    /// Draws one value of the domain: uniform over a range, or a uniform pick
    /// among the listed values of a set.
    pub fn sample(&self, rng: &mut StdRng) -> (v: u128)
        requires
            self.valid(),
        ensures
            self.holds(v),
    {
        match self {
            Domain::Range(r) => draw_u128(rng, r.start, r.end),
            Domain::Values(s) => {
                let i = draw_index(rng, s.len());
                s[i]
            },
        }
    }
}

/// The random choices made by one rendering of a generator.
pub enum Sample {
    /// A drawn integer.
    Value(u128),
    /// A boolean, drawn or pinned.
    Flag(bool),
    /// The samples of the elements of a tuple or a span, in order.
    Items(Vec<Sample>),
    /// The index of the chosen address and the drawn amount.
    Balance(usize, u128),
}

/// A raw unsigned integer drawn from a domain.
pub struct U128Arg {
    domain: Domain,
}

/// A fixed-point value with 18 decimals, rendered as `Wad{val: <n>}`.
pub struct WadArg {
    domain: Domain,
}

/// A fixed-point value with 27 decimals, rendered as `Ray{val: <n>}`.
pub struct RayArg {
    domain: Domain,
}

/// A boolean: a fair coin flip, or the pinned value when there is one.
pub struct BoolArg {
    domain: Option<bool>,
}

/// A tuple of generators, rendered as `(g1, g2, ...)`.
pub struct TupleArg<'a> {
    args: Vec<Arg<'a>>,
}

/// An address paired with an amount, rendered as
/// `AssetBalance{address: <a>, amount: <n>}`.
pub struct AssetBalanceArg<'a> {
    address_domain: Vec<&'a str>,
    amount_domain: Domain,
}

/// `len` independent renderings of one generator, rendered as
/// `array![g, g, ...].span()`.
pub struct SpanArg<'a> {
    len: usize,
    arg: Box<Arg<'a>>,
}

/// A generator of argument text, one variant per kind of argument.
pub enum Arg<'a> {
    U128(U128Arg),
    Wad(WadArg),
    Ray(RayArg),
    Bool(BoolArg),
    Tuple(TupleArg<'a>),
    Span(SpanArg<'a>),
    AssetBalance(AssetBalanceArg<'a>),
}

impl U128Arg {
    #[verifier::type_invariant]
    spec fn inv(&self) -> bool {
        self.domain.valid()
    }

    pub closed spec fn domain(&self) -> Domain {
        self.domain
    }

    /// A generator over `domain`, which must be valid.
    pub fn new(domain: Domain) -> (r: Self)
        requires
            domain.valid(),
        ensures
            r.domain() == domain,
    {
        U128Arg { domain }
    }
}

impl WadArg {
    #[verifier::type_invariant]
    spec fn inv(&self) -> bool {
        self.domain.valid()
    }

    pub closed spec fn domain(&self) -> Domain {
        self.domain
    }

    /// A generator over `domain`, which must be valid.
    pub fn new(domain: Domain) -> (r: Self)
        requires
            domain.valid(),
        ensures
            r.domain() == domain,
    {
        WadArg { domain }
    }
}

impl RayArg {
    #[verifier::type_invariant]
    spec fn inv(&self) -> bool {
        self.domain.valid()
    }

    pub closed spec fn domain(&self) -> Domain {
        self.domain
    }

    /// A generator over `domain`, which must be valid.
    pub fn new(domain: Domain) -> (r: Self)
        requires
            domain.valid(),
        ensures
            r.domain() == domain,
    {
        RayArg { domain }
    }
}

impl BoolArg {
    pub closed spec fn pin(&self) -> Option<bool> {
        self.domain
    }

    /// `Some(b)` pins the rendered value to `b`; `None` flips a coin.
    pub fn new(domain: Option<bool>) -> (r: Self)
        ensures
            r.pin() == domain,
    {
        BoolArg { domain }
    }
}

impl<'a> TupleArg<'a> {
    pub closed spec fn args(&self) -> Seq<Arg<'a>> {
        self.args@
    }

    /// A tuple of `args`, rendered in order.
    pub fn new(args: Vec<Arg<'a>>) -> (r: Self)
        ensures
            r.args() == args@,
    {
        TupleArg { args }
    }
}

impl<'a> AssetBalanceArg<'a> {
    #[verifier::type_invariant]
    spec fn inv(&self) -> bool {
        &&& self.address_domain.len() > 0
        &&& self.amount_domain.valid()
    }

    pub closed spec fn addresses(&self) -> Seq<&'a str> {
        self.address_domain@
    }

    pub closed spec fn amount_domain(&self) -> Domain {
        self.amount_domain
    }

    /// A balance over the listed addresses (at least one) and a valid amount domain.
    pub fn new(address_domain: Vec<&'a str>, amount_domain: Domain) -> (r: AssetBalanceArg<'a>)
        requires
            address_domain.len() > 0,
            amount_domain.valid(),
        ensures
            r.addresses() == address_domain@,
            r.amount_domain() == amount_domain,
    {
        AssetBalanceArg { address_domain, amount_domain }
    }
}

impl<'a> SpanArg<'a> {
    pub closed spec fn len(&self) -> nat {
        self.len as nat
    }

    pub closed spec fn arg(&self) -> Arg<'a> {
        *self.arg
    }

    /// `len` renderings of `arg`.
    pub fn new(len: usize, arg: Arg<'a>) -> (r: SpanArg<'a>)
        ensures
            r.len() == len,
            r.arg() == arg,
    {
        SpanArg { len, arg: Box::new(arg) }
    }
}

impl<'a> Arg<'a> {
    /// `s` records choices that this generator can make: every drawn integer
    /// lies in its domain, a pinned boolean keeps its pin, a tuple has one
    /// fitting sample per element and a span one per slot.
    pub open spec fn fits(self, s: Sample) -> bool
        decreases self, 0nat,
    {
        match self {
            Arg::U128(g) => s is Value && g.domain().holds(s->Value_0),
            Arg::Wad(g) => s is Value && g.domain().holds(s->Value_0),
            Arg::Ray(g) => s is Value && g.domain().holds(s->Value_0),
            Arg::Bool(g) => s is Flag && (g.pin() is Some ==> s->Flag_0 == g.pin()->Some_0),
            Arg::Tuple(g) => s is Items && s->Items_0@.len() == g.args().len() && fit_each(
                g.args(),
                s->Items_0@,
                g.args().len(),
            ),
            Arg::Span(g) => s is Items && s->Items_0@.len() == g.len() && fit_all(
                g.arg(),
                s->Items_0@,
                g.len(),
            ),
            Arg::AssetBalance(g) => s is Balance && s->Balance_0 < g.addresses().len()
                && g.amount_domain().holds(s->Balance_1),
        }
    }

    /// The text that this generator renders for the choices `s`.
    pub open spec fn text(self, s: Sample) -> Seq<char>
        decreases self, 0nat,
    {
        match self {
            Arg::U128(_) => decimal(s->Value_0 as nat),
            Arg::Wad(_) => "Wad{val: "@ + decimal(s->Value_0 as nat) + "}"@,
            Arg::Ray(_) => "Ray{val: "@ + decimal(s->Value_0 as nat) + "}"@,
            Arg::Bool(_) => bool_text(s->Flag_0),
            Arg::Tuple(g) => "("@ + comma_join(each_text(g.args(), s->Items_0@, g.args().len()))
                + ")"@,
            Arg::Span(g) => "array!["@ + comma_join(repeat_text(g.arg(), s->Items_0@, g.len()))
                + "].span()"@,
            Arg::AssetBalance(g) => "AssetBalance{address: "@ + g.addresses()[s->Balance_0 as int]@
                + ", amount: "@ + decimal(s->Balance_1 as nat) + "}"@,
        }
    }
}

/// The literal of a boolean.
pub open spec fn bool_text(b: bool) -> Seq<char> {
    if b {
        "true"@
    } else {
        "false"@
    }
}

/// The first `n` generators each fit the sample at their own position.
pub open spec fn fit_each<'a>(args: Seq<Arg<'a>>, ss: Seq<Sample>, n: nat) -> bool
    decreases args, n,
{
    if n == 0 || n > args.len() || n > ss.len() {
        n == 0
    } else {
        fit_each(args, ss, (n - 1) as nat) && args[n - 1].fits(ss[n - 1])
    }
}

/// The first `n` samples each fit the one generator `arg`.
pub open spec fn fit_all<'a>(arg: Arg<'a>, ss: Seq<Sample>, n: nat) -> bool
    decreases arg, n,
{
    if n == 0 || n > ss.len() {
        n == 0
    } else {
        fit_all(arg, ss, (n - 1) as nat) && arg.fits(ss[n - 1])
    }
}

/// The texts of the first `n` generators, each for the sample at its position.
pub open spec fn each_text<'a>(args: Seq<Arg<'a>>, ss: Seq<Sample>, n: nat) -> Seq<Seq<char>>
    decreases args, n,
{
    if n == 0 || n > args.len() {
        Seq::empty()
    } else {
        each_text(args, ss, (n - 1) as nat).push(args[n - 1].text(ss[n - 1]))
    }
}

/// The texts of `arg` for each of the first `n` samples.
pub open spec fn repeat_text<'a>(arg: Arg<'a>, ss: Seq<Sample>, n: nat) -> Seq<Seq<char>>
    decreases arg, n,
{
    if n == 0 {
        Seq::empty()
    } else {
        repeat_text(arg, ss, (n - 1) as nat).push(arg.text(ss[n - 1]))
    }
}

proof fn lemma_fit_each<'a>(args: Seq<Arg<'a>>, ss: Seq<Sample>, n: nat)
    requires
        n <= args.len(),
        n <= ss.len(),
        forall|j: int| 0 <= j < n ==> #[trigger] args[j].fits(ss[j]),
    ensures
        fit_each(args, ss, n),
    decreases n,
{
    if n > 0 {
        lemma_fit_each(args, ss, (n - 1) as nat);
        assert(args[n - 1].fits(ss[n - 1]));
    }
}

proof fn lemma_fit_all<'a>(arg: Arg<'a>, ss: Seq<Sample>, n: nat)
    requires
        n <= ss.len(),
        forall|j: int| 0 <= j < n ==> #[trigger] arg.fits(ss[j]),
    ensures
        fit_all(arg, ss, n),
    decreases n,
{
    if n > 0 {
        lemma_fit_all(arg, ss, (n - 1) as nat);
        assert(arg.fits(ss[n - 1]));
    }
}

proof fn lemma_fit_each_at<'a>(args: Seq<Arg<'a>>, ss: Seq<Sample>, n: nat, j: int)
    requires
        fit_each(args, ss, n),
        0 <= j < n,
    ensures
        args[j].fits(ss[j]),
    decreases n,
{
    if j < n - 1 {
        lemma_fit_each_at(args, ss, (n - 1) as nat, j);
    }
}

proof fn lemma_fit_all_at<'a>(arg: Arg<'a>, ss: Seq<Sample>, n: nat, j: int)
    requires
        fit_all(arg, ss, n),
        0 <= j < n,
    ensures
        arg.fits(ss[j]),
    decreases n,
{
    if j < n - 1 {
        lemma_fit_all_at(arg, ss, (n - 1) as nat, j);
    }
}

/// Joining one more part adds a separator, unless it is the first.
proof fn lemma_comma_join_push(parts: Seq<Seq<char>>, x: Seq<char>)
    ensures
        comma_join(parts.push(x)) == if parts.len() == 0 {
            x
        } else {
            comma_join(parts) + ", "@ + x
        },
{
    assert(parts.push(x).drop_last() =~= parts);
    if parts.len() == 0 {
        assert(parts.push(x).len() == 1);
    }
}

/// Appends `", "` unless `i` is zero.
fn push_separator(out: &mut String, i: usize)
    ensures
        final(out)@ == if i == 0 {
            old(out)@
        } else {
            old(out)@ + ", "@
        },
{
    if i > 0 {
        out.append(", ");
    }
}

impl<'a> Arg<'a> {
    /// Draws every random choice of one rendering: a value of each domain, a
    /// coin flip for each unpinned boolean, an address index for each balance.
    pub fn sample(&self, rng: &mut StdRng) -> (s: Sample)
        ensures
            self.fits(s),
        decreases self,
    {
        match self {
            Arg::U128(g) => {
                proof { use_type_invariant(g); }
                Sample::Value(g.domain.sample(rng))
            },
            Arg::Wad(g) => {
                proof { use_type_invariant(g); }
                Sample::Value(g.domain.sample(rng))
            },
            Arg::Ray(g) => {
                proof { use_type_invariant(g); }
                Sample::Value(g.domain.sample(rng))
            },
            Arg::Bool(g) => match g.domain {
                Some(b) => Sample::Flag(b),
                None => Sample::Flag(draw_bool(rng)),
            },
            Arg::Tuple(g) => {
                proof {
                    assert(decreases_to!(*self => self->Tuple_0));
                    assert(decreases_to!(*g => g.args));
                }
                Sample::Items(sample_each(&g.args, rng))
            },
            Arg::Span(g) => {
                let mut items: Vec<Sample> = Vec::new();
                for i in 0..g.len
                    invariant
                        *self == Arg::Span(*g),
                        items@.len() == i,
                        forall|j: int| 0 <= j < i ==> #[trigger] (*g.arg).fits(items@[j]),
                    decreases g.len - i,
                {
                    proof {
                        assert(decreases_to!(*self => self->Span_0));
                        assert(decreases_to!(*g => g.arg));
                    }
                    let x = g.arg.sample(rng);
                    items.push(x);
                }
                proof {
                    lemma_fit_all(*g.arg, items@, g.len as nat);
                }
                Sample::Items(items)
            },
            Arg::AssetBalance(g) => {
                proof { use_type_invariant(g); }
                let i = draw_index(rng, g.address_domain.len());
                let v = g.amount_domain.sample(rng);
                Sample::Balance(i, v)
            },
        }
    }

    /// The text of this generator for the choices `s`.
    pub fn render(&self, s: &Sample) -> (r: String)
        requires
            self.fits(*s),
        ensures
            r@ == self.text(*s),
        decreases self,
    {
        match (self, s) {
            (Arg::U128(_), Sample::Value(v)) => decimal_text(*v),
            (Arg::Wad(_), Sample::Value(v)) => {
                let mut out = String::from_str("Wad{val: ");
                push_decimal(&mut out, *v);
                out.append("}");
                out
            },
            (Arg::Ray(_), Sample::Value(v)) => {
                let mut out = String::from_str("Ray{val: ");
                push_decimal(&mut out, *v);
                out.append("}");
                out
            },
            (Arg::Bool(_), Sample::Flag(b)) => {
                if *b {
                    String::from_str("true")
                } else {
                    String::from_str("false")
                }
            },
            (Arg::Tuple(g), Sample::Items(ss)) => {
                proof {
                    assert(decreases_to!(*self => self->Tuple_0));
                    assert(decreases_to!(*g => g.args));
                }
                let mut out = String::from_str("(");
                push_each(&mut out, &g.args, ss);
                out.append(")");
                out
            },
            (Arg::Span(g), Sample::Items(ss)) => {
                let n = g.len;
                let mut out = String::from_str("array![");
                for i in 0..n
                    invariant
                        *self == Arg::Span(*g),
                        n == g.len,
                        ss@.len() == n,
                        fit_all(*g.arg, ss@, n as nat),
                        out@ == "array!["@ + comma_join(repeat_text(*g.arg, ss@, i as nat)),
                    decreases n - i,
                {
                    proof {
                        lemma_fit_all_at(*g.arg, ss@, n as nat, i as int);
                        lemma_comma_join_push(
                            repeat_text(*g.arg, ss@, i as nat),
                            (*g.arg).text(ss@[i as int]),
                        );
                    }
                    push_separator(&mut out, i);
                    proof {
                        assert(decreases_to!(*self => self->Span_0));
                        assert(decreases_to!(*g => g.arg));
                    }
                    let t = g.arg.render(&ss[i]);
                    out.append(t.as_str());
                }
                out.append("].span()");
                out
            },
            (Arg::AssetBalance(g), Sample::Balance(i, v)) => {
                let mut out = String::from_str("AssetBalance{address: ");
                out.append(g.address_domain[*i]);
                out.append(", amount: ");
                push_decimal(&mut out, *v);
                out.append("}");
                out
            },
            // no other pairing fits
            _ => String::new(),
        }
    }

    /// Renders one value: draws the choices, then renders them.
    pub fn generate(&self, rng: &mut StdRng) -> (r: String)
        ensures
            exists|s: Sample| self.fits(s) && r@ == self.text(s),
    {
        let s = self.sample(rng);
        let r = self.render(&s);
        assert(self.fits(s) && r@ == self.text(s));
        r
    }
}

/// Draws the choices of each generator of `args`, in order.
pub(crate) fn sample_each<'a>(args: &Vec<Arg<'a>>, rng: &mut StdRng) -> (ss: Vec<Sample>)
    ensures
        ss@.len() == args@.len(),
        fit_each(args@, ss@, args@.len()),
    decreases args,
{
    let mut items: Vec<Sample> = Vec::new();
    let n = args.len();
    for i in 0..n
        invariant
            n == args@.len(),
            items@.len() == i,
            forall|j: int| 0 <= j < i ==> #[trigger] args@[j].fits(items@[j]),
        decreases n - i,
    {
        proof {
            vstd::std_specs::vec::axiom_vec_index_decreases(*args, i as int);
        }
        let x = args[i].sample(rng);
        items.push(x);
    }
    proof {
        lemma_fit_each(args@, items@, n as nat);
    }
    items
}

/// Appends the texts of the generators of `args` for the choices `ss`,
/// joined with `", "`.
pub(crate) fn push_each<'a>(out: &mut String, args: &Vec<Arg<'a>>, ss: &Vec<Sample>)
    requires
        ss@.len() == args@.len(),
        fit_each(args@, ss@, args@.len()),
    ensures
        final(out)@ == old(out)@ + comma_join(each_text(args@, ss@, args@.len())),
    decreases args,
{
    let ghost start = out@;
    let n = args.len();
    for i in 0..n
        invariant
            n == args@.len(),
            ss@.len() == n,
            fit_each(args@, ss@, n as nat),
            out@ == start + comma_join(each_text(args@, ss@, i as nat)),
        decreases n - i,
    {
        proof {
            vstd::std_specs::vec::axiom_vec_index_decreases(*args, i as int);
            lemma_fit_each_at(args@, ss@, n as nat, i as int);
            lemma_comma_join_push(
                each_text(args@, ss@, i as nat),
                args@[i as int].text(ss@[i as int]),
            );
        }
        push_separator(out, i);
        let t = args[i].render(&ss[i]);
        out.append(t.as_str());
        proof {
            assert(each_text(args@, ss@, (i + 1) as nat) == each_text(args@, ss@, i as nat).push(
                args@[i as int].text(ss@[i as int]),
            ));
        }
    }
}


/// Every integer that a scalar generator renders lies in its domain: for any
/// choices that fit, the text is the numeral of a value of the domain, bare or
/// under its fixed-point label.
pub proof fn law_rendered_value_in_domain<'a>(a: Arg<'a>, s: Sample)
    requires
        a.fits(s),
    ensures
        a is U128 ==> exists|v: u128|
            a->U128_0.domain().holds(v) && #[trigger] a.text(s) == decimal(v as nat),
        a is Wad ==> exists|v: u128|
            a->Wad_0.domain().holds(v) && #[trigger] a.text(s) == "Wad{val: "@ + decimal(v as nat)
                + "}"@,
        a is Ray ==> exists|v: u128|
            a->Ray_0.domain().holds(v) && #[trigger] a.text(s) == "Ray{val: "@ + decimal(v as nat)
                + "}"@,
{
    let v = s->Value_0;
    if a is U128 || a is Wad || a is Ray {
        assert(a.text(s) == a.text(Sample::Value(v)));
    }
}

} // verus!
