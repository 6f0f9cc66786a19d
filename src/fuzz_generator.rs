//! Assembly of a fuzzing script from a pool of call descriptors.
//!
//! Step `i` of a script picks a descriptor and one of its callers, then emits
//! a timestamp advance (except at step 0), a caller switch (only when the
//! caller differs from the previous step's, or from `"0"` at step 0), the
//! call itself, and the invariant assertion followed by a blank line.

use crate::arg::Sample;
use crate::function::Func;
use crate::random::draw_index;
use crate::text::{decimal, push_decimal};
use rand::rngs::StdRng;
use vstd::prelude::*;

verus! {

/// The choices of one step: a descriptor of the pool, one of its callers, and
/// the choices of its arguments.
pub struct Step {
    pub func: usize,
    pub caller: usize,
    pub args: Vec<Sample>,
}

/// Generates scripts of calls drawn from a pool of descriptors.
pub struct FuzzGenerator<'a> {
    assert_invariants_command: &'a str,
    set_timestamp_command: &'a str,
    set_caller_command: &'a str,
    time_increment: u32,
    functions: Vec<Func<'a>>,
}

impl<'a> FuzzGenerator<'a> {
    pub closed spec fn assert_command(&self) -> Seq<char> {
        self.assert_invariants_command@
    }

    pub closed spec fn timestamp_command(&self) -> Seq<char> {
        self.set_timestamp_command@
    }

    pub closed spec fn caller_command(&self) -> Seq<char> {
        self.set_caller_command@
    }

    pub closed spec fn increment(&self) -> u32 {
        self.time_increment
    }

    pub closed spec fn functions(&self) -> Seq<Func<'a>> {
        self.functions@
    }

    /// `st` picks a descriptor of the pool, one of its callers, and fitting
    /// argument choices.
    pub open spec fn step_fits(self, st: Step) -> bool {
        &&& st.func < self.functions().len()
        &&& st.caller < self.functions()[st.func as int].callers().len()
        &&& self.functions()[st.func as int].fits(st.args@)
    }

    /// Every step of `plan` fits.
    pub open spec fn plan_fits(self, plan: Seq<Step>) -> bool {
        forall|i: int| 0 <= i < plan.len() ==> self.step_fits(#[trigger] plan[i])
    }

    /// The caller that step `st` picks.
    pub open spec fn caller_of(self, st: Step) -> Seq<char> {
        self.functions()[st.func as int].callers()[st.caller as int]@
    }

    /// The current caller when step `i` starts: `"0"` before the first step,
    /// then the caller of the step before.
    pub open spec fn caller_before(self, plan: Seq<Step>, i: int) -> Seq<char> {
        if i <= 0 {
            "0"@
        } else {
            self.caller_of(plan[i - 1])
        }
    }

    /// `<set_timestamp>(get_block_timestamp() + <increment>);` and a line break.
    pub open spec fn timestamp_line(self) -> Seq<char> {
        self.timestamp_command() + "(get_block_timestamp() + "@ + decimal(self.increment() as nat)
            + ");\n"@
    }

    /// `<set_caller>(<caller>);` and a line break.
    pub open spec fn caller_line(self, caller: Seq<char>) -> Seq<char> {
        self.caller_command() + "("@ + caller + ");\n"@
    }

    /// The call of step `st` and a line break.
    pub open spec fn call_line(self, st: Step) -> Seq<char> {
        self.functions()[st.func as int].call_text(st.args@) + "\n"@
    }

    /// The invariant assertion and a blank line.
    pub open spec fn assert_line(self) -> Seq<char> {
        self.assert_command() + "\n\n"@
    }

    /// The text of step `i` of `plan`.
    pub open spec fn step_text(self, plan: Seq<Step>, i: int) -> Seq<char> {
        (if i > 0 {
            self.timestamp_line()
        } else {
            Seq::empty()
        }) + (if self.caller_of(plan[i]) != self.caller_before(plan, i) {
            self.caller_line(self.caller_of(plan[i]))
        } else {
            Seq::empty()
        }) + self.call_line(plan[i]) + self.assert_line()
    }

    /// The text of the first `k` steps of `plan`.
    pub open spec fn script_text(self, plan: Seq<Step>, k: nat) -> Seq<char>
        decreases k,
    {
        if k == 0 {
            Seq::empty()
        } else {
            self.script_text(plan, (k - 1) as nat) + self.step_text(plan, k - 1)
        }
    }

    /// A generator over the pool `functions` with the three command names and
    /// the time increment of each step after the first.
    pub fn new(
        assert_invariants_command: &'a str,
        set_timestamp_command: &'a str,
        set_caller_command: &'a str,
        time_increment: u32,
        functions: Vec<Func<'a>>,
    ) -> (r: Self)
        ensures
            r.assert_command() == assert_invariants_command@,
            r.timestamp_command() == set_timestamp_command@,
            r.caller_command() == set_caller_command@,
            r.increment() == time_increment,
            r.functions() == functions@,
    {
        FuzzGenerator {
            assert_invariants_command,
            set_timestamp_command,
            set_caller_command,
            time_increment,
            functions,
        }
    }

    /// Draws one step: a descriptor uniformly from the pool, a caller
    /// uniformly from its list, and the choices of its arguments.
    pub fn sample_step(&self, rng: &mut StdRng) -> (st: Step)
        requires
            self.functions().len() > 0,
        ensures
            self.step_fits(st),
    {
        let f = draw_index(rng, self.functions.len());
        let func = &self.functions[f];
        let caller = func.pick_caller(rng);
        let args = func.sample_args(rng);
        Step { func: f, caller, args }
    }

    /// Draws the steps of a script of `num_calls` steps.
    pub fn sample_plan(&self, rng: &mut StdRng, num_calls: u32) -> (plan: Vec<Step>)
        requires
            num_calls == 0 || self.functions().len() > 0,
        ensures
            plan@.len() == num_calls,
            self.plan_fits(plan@),
    {
        let mut plan: Vec<Step> = Vec::new();
        for i in 0..num_calls
            invariant
                num_calls == 0 || self.functions().len() > 0,
                plan@.len() == i,
                self.plan_fits(plan@),
            decreases num_calls - i,
        {
            let st = self.sample_step(rng);
            plan.push(st);
        }
        plan
    }

    fn push_timestamp_line(&self, out: &mut String)
        ensures
            final(out)@ == old(out)@ + self.timestamp_line(),
    {
        out.append(self.set_timestamp_command);
        out.append("(get_block_timestamp() + ");
        push_decimal(out, self.time_increment as u128);
        out.append(");\n");
        proof {
            assert(final(out)@ =~= old(out)@ + self.timestamp_line());
        }
    }

    fn push_caller_line(&self, out: &mut String, caller: &str)
        ensures
            final(out)@ == old(out)@ + self.caller_line(caller@),
    {
        out.append(self.set_caller_command);
        out.append("(");
        out.append(caller);
        out.append(");\n");
        proof {
            assert(final(out)@ =~= old(out)@ + self.caller_line(caller@));
        }
    }

    fn push_call_and_assert(&self, out: &mut String, st: &Step)
        requires
            self.step_fits(*st),
        ensures
            final(out)@ == old(out)@ + self.call_line(*st) + self.assert_line(),
    {
        let call = self.functions[st.func].render_call(&st.args);
        out.append(call.as_str());
        out.append("\n");
        out.append(self.assert_invariants_command);
        out.append("\n\n");
        proof {
            assert(final(out)@ =~= old(out)@ + self.call_line(*st) + self.assert_line());
        }
    }

    /// Appends step `i` of `plan`, given the caller current before it, and
    /// returns the caller current after it.
    fn push_step(&self, out: &mut String, plan: &Vec<Step>, i: usize, current: String) -> (after:
        String)
        requires
            self.plan_fits(plan@),
            i < plan@.len(),
            current@ == self.caller_before(plan@, i as int),
        ensures
            final(out)@ == old(out)@ + self.step_text(plan@, i as int),
            after@ == self.caller_of(plan@[i as int]),
    {
        let st = &plan[i];
        assert(self.step_fits(plan@[i as int]));
        let caller = self.functions[st.func].caller_at(st.caller);
        let ghost start = out@;
        if i > 0 {
            self.push_timestamp_line(out);
        }
        let ghost after_time = out@;
        let caller_text = String::from_str(caller);
        if !(caller_text == current) {
            self.push_caller_line(out, caller);
        }
        let ghost after_caller = out@;
        self.push_call_and_assert(out, st);
        proof {
            let t = if i > 0 {
                self.timestamp_line()
            } else {
                Seq::empty()
            };
            let c = if self.caller_of(plan@[i as int]) != self.caller_before(plan@, i as int) {
                self.caller_line(self.caller_of(plan@[i as int]))
            } else {
                Seq::empty()
            };
            assert(after_time =~= start + t);
            assert(after_caller =~= start + t + c);
            assert(final(out)@ =~= start + (t + c + self.call_line(plan@[i as int]) + self.assert_line()));
        }
        caller_text
    }

    /// The script for the drawn steps `plan`.
    pub fn render_sequence(&self, plan: &Vec<Step>) -> (r: String)
        requires
            self.plan_fits(plan@),
        ensures
            r@ == self.script_text(plan@, plan@.len()),
    {
        let mut out = String::new();
        let mut current = String::from_str("0");
        let n = plan.len();
        for i in 0..n
            invariant
                n == plan@.len(),
                self.plan_fits(plan@),
                out@ == self.script_text(plan@, i as nat),
                current@ == self.caller_before(plan@, i as int),
            decreases n - i,
        {
            current = self.push_step(&mut out, plan, i, current);
        }
        out
    }

    /// Generates a script of `num_calls` steps. The pool must not be empty
    /// unless no step is asked for.
    pub fn generate_sequence(&self, rng: &mut StdRng, num_calls: u32) -> (r: String)
        requires
            num_calls == 0 || self.functions().len() > 0,
        ensures
            exists|plan: Seq<Step>|
                plan.len() == num_calls && self.plan_fits(plan) && r@ == self.script_text(
                    plan,
                    plan.len(),
                ),
    {
        let plan = self.sample_plan(rng, num_calls);
        let r = self.render_sequence(&plan);
        assert(plan@.len() == num_calls && self.plan_fits(plan@) && r@ == self.script_text(
            plan@,
            plan@.len(),
        ));
        r
    }
}

/// The kind of one line group of a script.
pub enum Line {
    /// The timestamp advance.
    AdvanceTime,
    /// The caller switch.
    SwitchCaller,
    /// The call itself.
    Call,
    /// The invariant assertion and the blank line after it.
    AssertInvariants,
}

/// The text of a sequence of lines, in order.
pub open spec fn lines_text(ls: Seq<(Line, Seq<char>)>) -> Seq<char>
    decreases ls.len(),
{
    if ls.len() == 0 {
        Seq::empty()
    } else {
        lines_text(ls.drop_last()) + ls.last().1
    }
}

/// How many lines of `ls` are of kind `kind`.
pub open spec fn count_kind(ls: Seq<(Line, Seq<char>)>, kind: Line) -> nat
    decreases ls.len(),
{
    if ls.len() == 0 {
        0
    } else {
        count_kind(ls.drop_last(), kind) + if ls.last().0 == kind {
            1nat
        } else {
            0nat
        }
    }
}

impl<'a> FuzzGenerator<'a> {
    /// The lines of step `i` of `plan`, each with its kind.
    pub open spec fn step_lines(self, plan: Seq<Step>, i: int) -> Seq<(Line, Seq<char>)> {
        (if i > 0 {
            seq![(Line::AdvanceTime, self.timestamp_line())]
        } else {
            Seq::empty()
        }) + (if self.caller_of(plan[i]) != self.caller_before(plan, i) {
            seq![(Line::SwitchCaller, self.caller_line(self.caller_of(plan[i])))]
        } else {
            Seq::empty()
        }) + seq![(Line::Call, self.call_line(plan[i])), (Line::AssertInvariants, self.assert_line())]
    }

    /// The lines of the first `k` steps of `plan`.
    pub open spec fn script_lines(self, plan: Seq<Step>, k: nat) -> Seq<(Line, Seq<char>)>
        decreases k,
    {
        if k == 0 {
            Seq::empty()
        } else {
            self.script_lines(plan, (k - 1) as nat) + self.step_lines(plan, k - 1)
        }
    }
}

proof fn lemma_lines_text_add(a: Seq<(Line, Seq<char>)>, b: Seq<(Line, Seq<char>)>)
    ensures
        lines_text(a + b) == lines_text(a) + lines_text(b),
    decreases b.len(),
{
    if b.len() == 0 {
        assert(a + b =~= a);
        assert(lines_text(a) + lines_text(b) =~= lines_text(a));
    } else {
        assert((a + b).drop_last() =~= a + b.drop_last());
        lemma_lines_text_add(a, b.drop_last());
        assert(lines_text(a + b) =~= lines_text(a) + lines_text(b));
    }
}

proof fn lemma_count_kind_add(a: Seq<(Line, Seq<char>)>, b: Seq<(Line, Seq<char>)>, kind: Line)
    ensures
        count_kind(a + b, kind) == count_kind(a, kind) + count_kind(b, kind),
    decreases b.len(),
{
    if b.len() == 0 {
        assert(a + b =~= a);
    } else {
        assert((a + b).drop_last() =~= a + b.drop_last());
        lemma_count_kind_add(a, b.drop_last(), kind);
    }
}

proof fn lemma_small_lines(g: FuzzGenerator, plan: Seq<Step>, i: int)
    ensures
        lines_text(g.step_lines(plan, i)) == g.step_text(plan, i),
        count_kind(g.step_lines(plan, i), Line::AssertInvariants) == 1,
        count_kind(g.step_lines(plan, i), Line::AdvanceTime) == if i > 0 {
            1nat
        } else {
            0nat
        },
        count_kind(g.step_lines(plan, i), Line::SwitchCaller) == if g.caller_of(plan[i])
            != g.caller_before(plan, i) {
            1nat
        } else {
            0nat
        },
{
    let t: Seq<(Line, Seq<char>)> = if i > 0 {
        seq![(Line::AdvanceTime, g.timestamp_line())]
    } else {
        Seq::empty()
    };
    let c: Seq<(Line, Seq<char>)> = if g.caller_of(plan[i]) != g.caller_before(plan, i) {
        seq![(Line::SwitchCaller, g.caller_line(g.caller_of(plan[i])))]
    } else {
        Seq::empty()
    };
    let e: Seq<(Line, Seq<char>)> = seq![
        (Line::Call, g.call_line(plan[i])),
        (Line::AssertInvariants, g.assert_line()),
    ];
    assert(g.step_lines(plan, i) == t + c + e);
    lemma_lines_text_add(t + c, e);
    lemma_lines_text_add(t, c);
    reveal_with_fuel(lines_text, 3);
    reveal_with_fuel(count_kind, 3);
    assert(e.drop_last().drop_last() =~= Seq::<(Line, Seq<char>)>::empty());
    assert(e.drop_last() =~= seq![(Line::Call, g.call_line(plan[i]))]);
    assert(t.len() > 0 ==> t.drop_last() =~= Seq::<(Line, Seq<char>)>::empty());
    assert(c.len() > 0 ==> c.drop_last() =~= Seq::<(Line, Seq<char>)>::empty());
    assert(lines_text(t + c + e) =~= g.step_text(plan, i));
    lemma_count_kind_add(t + c, e, Line::AssertInvariants);
    lemma_count_kind_add(t, c, Line::AssertInvariants);
    lemma_count_kind_add(t + c, e, Line::AdvanceTime);
    lemma_count_kind_add(t, c, Line::AdvanceTime);
    lemma_count_kind_add(t + c, e, Line::SwitchCaller);
    lemma_count_kind_add(t, c, Line::SwitchCaller);
}

/// A script is exactly its lines, step after step: the text of the first `k`
/// steps is the text of their lines in order.
pub proof fn law_script_is_its_lines(g: FuzzGenerator, plan: Seq<Step>, k: nat)
    ensures
        g.script_text(plan, k) == lines_text(g.script_lines(plan, k)),
    decreases k,
{
    if k > 0 {
        law_script_is_its_lines(g, plan, (k - 1) as nat);
        lemma_small_lines(g, plan, k - 1);
        lemma_lines_text_add(g.script_lines(plan, (k - 1) as nat), g.step_lines(plan, k - 1));
    }
}

/// A script of `k` steps holds exactly `k` invariant assertions.
pub proof fn law_one_assertion_per_step(g: FuzzGenerator, plan: Seq<Step>, k: nat)
    ensures
        count_kind(g.script_lines(plan, k), Line::AssertInvariants) == k,
    decreases k,
{
    if k > 0 {
        law_one_assertion_per_step(g, plan, (k - 1) as nat);
        lemma_small_lines(g, plan, k - 1);
        lemma_count_kind_add(
            g.script_lines(plan, (k - 1) as nat),
            g.step_lines(plan, k - 1),
            Line::AssertInvariants,
        );
    }
}

/// Step 0 advances no time; every later step advances it exactly once, so a
/// script of `k > 0` steps advances it `k - 1` times.
pub proof fn law_time_advances_after_first_step(g: FuzzGenerator, plan: Seq<Step>, k: nat)
    ensures
        forall|i: int|
            0 <= i < k ==> count_kind(#[trigger] g.step_lines(plan, i), Line::AdvanceTime) == if i
                > 0 {
                1nat
            } else {
                0nat
            },
        k > 0 ==> count_kind(g.script_lines(plan, k), Line::AdvanceTime) == k - 1,
    decreases k,
{
    assert forall|i: int| 0 <= i < k implies count_kind(
        #[trigger] g.step_lines(plan, i),
        Line::AdvanceTime,
    ) == if i > 0 {
        1nat
    } else {
        0nat
    } by {
        lemma_small_lines(g, plan, i);
    }
    if k > 0 {
        law_time_advances_after_first_step(g, plan, (k - 1) as nat);
        lemma_small_lines(g, plan, k - 1);
        lemma_count_kind_add(
            g.script_lines(plan, (k - 1) as nat),
            g.step_lines(plan, k - 1),
            Line::AdvanceTime,
        );
        if k == 1 {
            assert(g.script_lines(plan, 0) == Seq::<(Line, Seq<char>)>::empty());
        }
    }
}

/// Step `i` switches the caller, once, exactly when its caller differs from
/// the caller of step `i - 1`; step 0 compares with `"0"`.
pub proof fn law_caller_switch_on_change(g: FuzzGenerator, plan: Seq<Step>, i: int)
    requires
        0 <= i < plan.len(),
    ensures
        count_kind(g.step_lines(plan, i), Line::SwitchCaller) == if g.caller_of(plan[i])
            != g.caller_before(plan, i) {
            1nat
        } else {
            0nat
        },
        i == 0 ==> g.caller_before(plan, i) == "0"@,
        i > 0 ==> g.caller_before(plan, i) == g.caller_of(plan[i - 1]),
{
    lemma_small_lines(g, plan, i);
}

} // verus!
