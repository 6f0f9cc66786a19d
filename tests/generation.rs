use fuzzer::arg::{
    Arg, AssetBalanceArg, BoolArg, Domain, RayArg, Sample, SpanArg, TupleArg, U128Arg, WadArg,
    RAY_ONE, WAD_ONE,
};
use fuzzer::function::Func;
use fuzzer::fuzz_generator::{FuzzGenerator, Step};
use rand::rngs::StdRng;
use rand::SeedableRng;

fn rng() -> StdRng {
    StdRng::seed_from_u64(42)
}

fn value_of(text: &str) -> u128 {
    text.parse::<u128>().unwrap()
}

#[test]
fn pinned_true_always_renders_true() {
    let arg = Arg::Bool(BoolArg::new(Some(true)));
    let mut r = rng();
    for _ in 0..50 {
        assert_eq!(arg.generate(&mut r), "true");
    }
}

#[test]
fn unpinned_bool_renders_both_literals() {
    let arg = Arg::Bool(BoolArg::new(None));
    let mut r = rng();
    let mut seen_true = false;
    let mut seen_false = false;
    for _ in 0..200 {
        let t = arg.generate(&mut r);
        assert!(t == "true" || t == "false");
        seen_true |= t == "true";
        seen_false |= t == "false";
    }
    assert!(seen_true && seen_false);
}

#[test]
fn tuple_of_pinned_false_and_singleton_set() {
    let arg = Arg::Tuple(TupleArg::new(vec![
        Arg::Bool(BoolArg::new(Some(false))),
        Arg::U128(U128Arg::new(Domain::Values(vec![5]))),
    ]));
    let mut r = rng();
    for _ in 0..20 {
        assert_eq!(arg.generate(&mut r), "(false, 5)");
    }
}

#[test]
fn empty_tuple_renders_parentheses() {
    let arg = Arg::Tuple(TupleArg::new(vec![]));
    assert_eq!(arg.generate(&mut rng()), "()");
}

#[test]
fn span_of_degenerate_range() {
    let arg = Arg::Span(SpanArg::new(3, Arg::U128(U128Arg::new(Domain::Range(0..1)))));
    assert_eq!(arg.generate(&mut rng()), "array![0, 0, 0].span()");
}

#[test]
fn empty_span() {
    let arg = Arg::Span(SpanArg::new(0, Arg::U128(U128Arg::new(Domain::Range(0..1)))));
    assert_eq!(arg.generate(&mut rng()), "array![].span()");
}

#[test]
fn span_resamples_each_slot() {
    let arg = Arg::Span(SpanArg::new(20, Arg::U128(U128Arg::new(Domain::Range(0..1000)))));
    let text = arg.generate(&mut rng());
    let inner = text.strip_prefix("array![").unwrap().strip_suffix("].span()").unwrap();
    let values: Vec<u128> = inner.split(", ").map(value_of).collect();
    assert_eq!(values.len(), 20);
    assert!(values.iter().all(|v| *v < 1000));
    assert!(values.iter().any(|v| *v != values[0]));
}

#[test]
fn call_without_arguments() {
    let f = Func::new("shrine.deposit", vec![], vec!["user1"]);
    assert_eq!(f.generate_call(&mut rng()), "shrine.deposit();");
}

#[test]
fn call_with_arguments_in_order() {
    let f = Func::new(
        "abbot.melt",
        vec![
            Arg::U128(U128Arg::new(Domain::Values(vec![7]))),
            Arg::Wad(WadArg::new(Domain::Values(vec![3]))),
            Arg::Bool(BoolArg::new(Some(true))),
        ],
        vec!["user1"],
    );
    assert_eq!(f.generate_call(&mut rng()), "abbot.melt(7, Wad{val: 3}, true);");
}

#[test]
fn render_call_from_samples() {
    let f = Func::new(
        "abbot.forge",
        vec![
            Arg::U128(U128Arg::new(Domain::Range(0..10))),
            Arg::Ray(RayArg::new(Domain::Range(0..RAY_ONE))),
        ],
        vec!["user1"],
    );
    let ss = vec![Sample::Value(9), Sample::Value(RAY_ONE - 1)];
    assert_eq!(
        f.render_call(&ss),
        "abbot.forge(9, Ray{val: 999999999999999999999999999});"
    );
}

#[test]
fn render_decimal_values() {
    let arg = Arg::U128(U128Arg::new(Domain::Range(0..u128::MAX)));
    assert_eq!(arg.render(&Sample::Value(0)), "0");
    assert_eq!(arg.render(&Sample::Value(10)), "10");
    assert_eq!(arg.render(&Sample::Value(1234567890)), "1234567890");
    assert_eq!(
        arg.render(&Sample::Value(u128::MAX)),
        "340282366920938463463374607431768211455"
    );
}

#[test]
fn render_fixed_point_labels() {
    let wad = Arg::Wad(WadArg::new(Domain::Range(0..2 * WAD_ONE)));
    let ray = Arg::Ray(RayArg::new(Domain::Range(0..2 * RAY_ONE)));
    assert_eq!(wad.render(&Sample::Value(WAD_ONE)), "Wad{val: 1000000000000000000}");
    assert_eq!(ray.render(&Sample::Value(42)), "Ray{val: 42}");
}

#[test]
fn render_asset_balance() {
    let arg = Arg::AssetBalance(AssetBalanceArg::new(
        vec!["*yangs[0]", "*yangs[1]"],
        Domain::Range(0..2 * WAD_ONE),
    ));
    assert_eq!(
        arg.render(&Sample::Balance(1, 42)),
        "AssetBalance{address: *yangs[1], amount: 42}"
    );
}

#[test]
fn generated_asset_balance_uses_listed_address_and_amount_in_range() {
    let arg = Arg::AssetBalance(AssetBalanceArg::new(vec!["a0", "a1"], Domain::Range(5..9)));
    let mut r = rng();
    let mut seen = [false, false];
    for _ in 0..100 {
        let t = arg.generate(&mut r);
        let rest = t.strip_prefix("AssetBalance{address: ").unwrap();
        let (addr, rest) = rest.split_once(", amount: ").unwrap();
        let amount = value_of(rest.strip_suffix("}").unwrap());
        assert!(addr == "a0" || addr == "a1");
        seen[if addr == "a0" { 0 } else { 1 }] = true;
        assert!((5..9).contains(&amount));
    }
    assert!(seen[0] && seen[1]);
}

#[test]
fn range_values_stay_in_range() {
    let arg = Arg::U128(U128Arg::new(Domain::Range(10..20)));
    let mut r = rng();
    let mut distinct = std::collections::BTreeSet::new();
    for _ in 0..300 {
        let v = value_of(&arg.generate(&mut r));
        assert!(10 <= v && v < 20);
        distinct.insert(v);
    }
    assert!(distinct.len() > 1);
}

#[test]
fn wad_values_stay_in_range() {
    let arg = Arg::Wad(WadArg::new(Domain::Range(0..WAD_ONE)));
    let mut r = rng();
    for _ in 0..100 {
        let t = arg.generate(&mut r);
        let v = value_of(t.strip_prefix("Wad{val: ").unwrap().strip_suffix("}").unwrap());
        assert!(v < WAD_ONE);
    }
}

#[test]
fn set_values_are_members() {
    let values = vec![3, 17, 1000];
    let arg = Arg::U128(U128Arg::new(Domain::Values(values.clone())));
    let mut r = rng();
    let mut distinct = std::collections::BTreeSet::new();
    for _ in 0..200 {
        let v = value_of(&arg.generate(&mut r));
        assert!(values.contains(&v));
        distinct.insert(v);
    }
    assert_eq!(distinct.len(), 3);
}

#[test]
fn domain_validity() {
    assert!(Domain::Range(0..1).is_valid());
    assert!(!Domain::Range(5..5).is_valid());
    assert!(!Domain::Range(6..5).is_valid());
    assert!(Domain::Values(vec![1]).is_valid());
    assert!(!Domain::Values(vec![]).is_valid());
}

#[test]
fn domain_sample_in_domain() {
    let mut r = rng();
    let d = Domain::Range(100..103);
    for _ in 0..50 {
        let v = d.sample(&mut r);
        assert!((100..103).contains(&v));
    }
}

#[test]
fn caller_is_from_list() {
    let f = Func::new("f", vec![], vec!["u1", "u2", "u3"]);
    let mut r = rng();
    let mut seen = std::collections::BTreeSet::new();
    for _ in 0..100 {
        let c = f.get_caller(&mut r);
        assert!(["u1", "u2", "u3"].contains(&c));
        seen.insert(c);
    }
    assert_eq!(seen.len(), 3);
}

fn two_caller_generator() -> FuzzGenerator<'static> {
    FuzzGenerator::new(
        "assert_invariants(shrine);",
        "set_block_timestamp",
        "set_contract_address",
        3600,
        vec![
            Func::new("shrine.deposit", vec![], vec!["user1", "user2"]),
            Func::new(
                "shrine.melt",
                vec![Arg::U128(U128Arg::new(Domain::Range(0..10)))],
                vec!["user2"],
            ),
        ],
    )
}

#[test]
fn one_assertion_per_step() {
    let g = two_caller_generator();
    let mut r = rng();
    for n in [0u32, 1, 2, 10, 37] {
        let out = g.generate_sequence(&mut r, n);
        assert_eq!(out.matches("assert_invariants(shrine);").count(), n as usize);
    }
}

#[test]
fn empty_sequence_is_empty() {
    let g = FuzzGenerator::new("a;", "t", "c", 1, vec![]);
    assert_eq!(g.generate_sequence(&mut rng(), 0), "");
}

#[test]
fn time_advances_on_every_step_but_the_first() {
    let g = two_caller_generator();
    let out = g.generate_sequence(&mut rng(), 12);
    let line = "set_block_timestamp(get_block_timestamp() + 3600);\n";
    assert_eq!(out.matches(line).count(), 11);
    assert!(!out.starts_with(line));
    let blocks: Vec<&str> = out.split_terminator("\n\n").collect();
    assert_eq!(blocks.len(), 12);
    for (i, b) in blocks.iter().enumerate() {
        assert_eq!(b.starts_with("set_block_timestamp("), i > 0);
    }
}

#[test]
fn caller_switches_only_on_change() {
    let g = two_caller_generator();
    let out = g.generate_sequence(&mut rng(), 40);
    let mut current = "0".to_string();
    let mut switches = 0;
    for block in out.split_terminator("\n\n") {
        let lines: Vec<&str> = block.lines().collect();
        let call = lines[lines.len() - 2];
        let switch = lines.iter().find(|l| l.starts_with("set_contract_address("));
        match switch {
            Some(l) => {
                let caller = l
                    .strip_prefix("set_contract_address(")
                    .unwrap()
                    .strip_suffix(");")
                    .unwrap();
                assert_ne!(caller, current);
                current = caller.to_string();
                switches += 1;
            }
            None => assert_ne!(current, "0"),
        }
        if call.starts_with("shrine.melt(") {
            assert_eq!(current, "user2");
        }
    }
    assert!(switches >= 1);
}

#[test]
fn single_caller_switches_once() {
    let g = FuzzGenerator::new(
        "check();",
        "warp",
        "prank",
        10,
        vec![Func::new("f.go", vec![], vec!["alice"])],
    );
    let out = g.generate_sequence(&mut rng(), 3);
    assert_eq!(
        out,
        "prank(alice);\nf.go();\ncheck();\n\nwarp(get_block_timestamp() + 10);\nf.go();\ncheck();\n\nwarp(get_block_timestamp() + 10);\nf.go();\ncheck();\n\n"
    );
}

#[test]
fn one_step_begins_with_caller_directive() {
    let g = two_caller_generator();
    let out = g.generate_sequence(&mut rng(), 1);
    assert!(out.starts_with("set_contract_address(user"));
    assert!(!out.contains("set_block_timestamp"));
}

#[test]
fn render_sequence_from_steps() {
    let g = two_caller_generator();
    let plan = vec![
        Step { func: 0, caller: 1, args: vec![] },
        Step { func: 1, caller: 0, args: vec![Sample::Value(4)] },
        Step { func: 0, caller: 0, args: vec![] },
    ];
    assert_eq!(
        g.render_sequence(&plan),
        "set_contract_address(user2);\nshrine.deposit();\nassert_invariants(shrine);\n\n\
set_block_timestamp(get_block_timestamp() + 3600);\nshrine.melt(4);\nassert_invariants(shrine);\n\n\
set_block_timestamp(get_block_timestamp() + 3600);\nset_contract_address(user1);\nshrine.deposit();\nassert_invariants(shrine);\n\n"
    );
}
