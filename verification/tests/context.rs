use c2dafny::context::{Context, TempVarGenerator};
use c2dafny::dafny_ast::Type;

#[test]
fn declared_variable_is_found() {
    let mut ctx = Context::new();
    assert!(ctx.lookup_var("x").is_none());
    ctx.declare_var("x".to_string(), Type::Int);
    assert!(matches!(ctx.lookup_var("x"), Some(Type::Int)));
    assert!(ctx.lookup_var("y").is_none());
}

#[test]
fn inner_scope_shadows_and_exit_restores() {
    let mut ctx = Context::new();
    ctx.declare_var("x".to_string(), Type::Int);
    ctx.enter_scope();
    assert!(matches!(ctx.lookup_var("x"), Some(Type::Int)));
    ctx.declare_var("x".to_string(), Type::Bool);
    assert!(matches!(ctx.lookup_var("x"), Some(Type::Bool)));
    ctx.exit_scope();
    assert!(matches!(ctx.lookup_var("x"), Some(Type::Int)));
}

#[test]
fn redeclaring_overrides() {
    let mut ctx = Context::new();
    ctx.declare_var("x".to_string(), Type::Int);
    ctx.declare_var("x".to_string(), Type::Bv(8));
    assert!(matches!(ctx.lookup_var("x"), Some(Type::Bv(8))));
}

#[test]
fn no_scope_left_declares_nothing() {
    let mut ctx = Context::new();
    ctx.exit_scope();
    ctx.exit_scope();
    ctx.declare_var("x".to_string(), Type::Int);
    assert!(ctx.lookup_var("x").is_none());
}

#[test]
fn current_method_is_entered_and_left() {
    let mut ctx = Context::new();
    assert!(ctx.get_current_method().is_none());
    ctx.enter_method("main".to_string());
    assert_eq!(ctx.get_current_method().map(|s| s.as_str()), Some("main"));
    if let Some(m) = ctx.get_current_method_mut() {
        m.push_str("_2");
    }
    assert_eq!(ctx.get_current_method().map(|s| s.as_str()), Some("main_2"));
    ctx.exit_method();
    assert!(ctx.get_current_method().is_none());
    assert!(ctx.get_current_method_mut().is_none());
}

#[test]
fn temporaries_are_numbered() {
    let mut ctx = Context::new();
    assert_eq!(ctx.get_tmp_var(), "tmp_0");
    assert_eq!(ctx.get_tmp_var(), "tmp_1");
    assert_eq!(ctx.get_tmp_var(), "tmp_2");
}

#[test]
fn generator_counts_and_resets() {
    let mut g = TempVarGenerator::new("t");
    assert_eq!(g.next(), "t0");
    assert_eq!(g.next(), "t1");
    for _ in 0..9 {
        g.next();
    }
    assert_eq!(g.next(), "t11");
    g.reset();
    assert_eq!(g.next(), "t0");
}

#[test]
fn macro_types_and_parentheses() {
    let mut ctx = Context::new();
    ctx.insert_macro("N".to_string(), "(10)".to_string());
    ctx.insert_macro("PI".to_string(), "3.14".to_string());
    ctx.insert_macro("ON".to_string(), "true".to_string());
    ctx.insert_macro("OFF".to_string(), "(false)".to_string());
    let n = ctx.lookup_macro("N").expect("N");
    assert_eq!(n.0, "10");
    assert!(matches!(n.1, Type::Int));
    let pi = ctx.lookup_macro("PI").expect("PI");
    assert_eq!(pi.0, "3.14");
    assert!(matches!(pi.1, Type::Real));
    assert!(matches!(ctx.lookup_macro("ON").expect("ON").1, Type::Bool));
    let off = ctx.lookup_macro("OFF").expect("OFF");
    assert_eq!(off.0, "false");
    assert!(matches!(off.1, Type::Bool));
    assert!(ctx.lookup_macro("M").is_none());
}

#[test]
fn macro_is_replaced_by_a_later_definition() {
    let mut ctx = Context::new();
    ctx.insert_macro("N".to_string(), "1".to_string());
    ctx.insert_macro("N".to_string(), "2".to_string());
    assert_eq!(ctx.lookup_macro("N").expect("N").0, "2");
}

#[test]
fn macro_parentheses_only_when_they_enclose_the_text() {
    let mut ctx = Context::new();
    ctx.insert_macro("A".to_string(), "(1) + (2)".to_string());
    ctx.insert_macro("B".to_string(), "((1))".to_string());
    ctx.insert_macro("C".to_string(), "(1))".to_string());
    ctx.insert_macro("D".to_string(), "()".to_string());
    assert_eq!(ctx.lookup_macro("A").expect("A").0, "(1) + (2)");
    assert_eq!(ctx.lookup_macro("B").expect("B").0, "(1)");
    assert_eq!(ctx.lookup_macro("C").expect("C").0, "(1))");
    assert_eq!(ctx.lookup_macro("D").expect("D").0, "");
}

#[test]
fn scope_round_trip_with_many_declarations() {
    let mut ctx = Context::new();
    ctx.declare_var("x".to_string(), Type::Int);
    ctx.insert_macro("M".to_string(), "1".to_string());
    ctx.enter_method("f".to_string());
    let before = ctx.clone();
    ctx.enter_scope();
    ctx.declare_var("x".to_string(), Type::Bool);
    ctx.declare_var("y".to_string(), Type::Real);
    ctx.declare_var("z".to_string(), Type::Bv(8));
    ctx.exit_scope();
    for name in ["x", "y", "z"] {
        assert_eq!(format!("{:?}", ctx.lookup_var(name)), format!("{:?}", before.lookup_var(name)));
    }
    assert_eq!(ctx.lookup_macro("M").expect("M").0, "1");
    assert_eq!(ctx.get_current_method().map(|s| s.as_str()), Some("f"));
}

#[test]
fn calls_in_sequence() {
    let mut ctx = Context::new();
    ctx.get_tmp_var();
    ctx.enter_scope();
    ctx.insert_macro("M".to_string(), "2".to_string());
    ctx.get_tmp_var();
    ctx.enter_method("g".to_string());
    ctx.declare_var("v".to_string(), Type::Int);
    ctx.exit_method();
    assert_eq!(ctx.get_tmp_var(), "tmp_2");
    assert!(ctx.get_current_method().is_none());
    assert_eq!(ctx.lookup_macro("M").expect("M").0, "2");
    ctx.exit_scope();
    assert!(ctx.lookup_var("v").is_none());
    assert_eq!(ctx.lookup_macro("M").expect("M").0, "2");
}
