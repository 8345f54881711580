use hulk::codegen::{CodegenError, CodegenOptions, OptLevel};
use hulk::runtime::Rng;
use hulk::subset_ast::{Ident, Span, TypeRef};
use hulk::text::{decimal, join};

#[test]
fn decimal_renders_without_leading_zeros() {
    assert_eq!(decimal(0), "0");
    assert_eq!(decimal(7), "7");
    assert_eq!(decimal(10), "10");
    assert_eq!(decimal(1234567890), "1234567890");
}

#[test]
fn join_separates_items() {
    assert_eq!(join(&vec![], ", "), "");
    assert_eq!(join(&vec!["a".to_string()], ", "), "a");
    assert_eq!(join(&vec!["a".to_string(), "b".to_string(), "c".to_string()], " -> "), "a -> b -> c");
}

#[test]
fn codegen_options_with_output_path() {
    let options = CodegenOptions::with_output_path("out/program".to_string());
    assert_eq!(options.output_path, "out/program");
    assert_eq!(options.opt_level, OptLevel::Default);
    assert!(options.emit_llvm_path.is_none());
}

#[test]
fn codegen_error_messages() {
    let link = CodegenError::Link { driver: "cc".to_string(), status: Some(-1), stderr: "boom".to_string() };
    assert_eq!(link.message(), "linker `cc` failed (exit status Some(-1)):\nboom");
    let link = CodegenError::Link { driver: "cc".to_string(), status: None, stderr: String::new() };
    assert_eq!(link.message(), "linker `cc` failed (exit status None):\n");
    assert_eq!(
        CodegenError::unsupported("lambda".to_string()).message(),
        "internal error: no code generation support yet for: lambda"
    );
}

#[test]
fn spans_and_identifiers() {
    assert_eq!(Span::dummy(), Span::new(0, 0, 0, 0));
    let span = Span::new(3, 7, 1, 4);
    let ident = Ident::new("count".to_string(), span);
    assert_eq!(ident.span, span);
    assert_eq!(ident.to_string(), "count");
    assert_eq!(Ident::dummy("x".to_string()).span, Span::dummy());
    assert_eq!(TypeRef::named("Number".to_string()).name.name, "Number");
}

#[test]
fn rng_steps_are_xorshift() {
    let mut rng = Rng::new();
    let first = rng.next_u64();
    let second = rng.next_u64();
    let mut x = first;
    x ^= x << 7;
    x ^= x >> 9;
    assert_eq!(second, x);
    assert_ne!(first, second);
}
