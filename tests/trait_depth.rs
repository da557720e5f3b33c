use mscd::traits::{FileAnalyzer, TraitAnalyzer};

fn analyzer_for(content: &str) -> TraitAnalyzer {
    let mut file = FileAnalyzer::new();
    file.parse_content(content);
    let mut analyzer = TraitAnalyzer::new();
    analyzer.add_file_analysis(&file);
    analyzer
}

fn depth(a: &TraitAnalyzer, ty: &str) -> usize {
    a.calculate_max_depth(&ty.to_string())
}

#[test]
fn basic_hierarchy_has_depth_three() {
    let a = analyzer_for(
        "pub trait A {}\npub trait B: A {}\npub trait C: B {}\nstruct BasicType;\nimpl C for BasicType {}\n",
    );
    assert_eq!(depth(&a, "BasicType"), 3);
    let s = a.get_summary();
    assert_eq!(s.max_depth, 3);
    assert_eq!(s.trait_count, 3);
    assert_eq!(s.impl_count, 1);
}

#[test]
fn multiple_bounds_take_the_deepest() {
    let a = analyzer_for(
        "pub trait MultiA {}\npub trait MultiB {}\npub trait MultiC: MultiA + MultiB {}\nimpl MultiC for MultiType {}",
    );
    assert_eq!(depth(&a, "MultiType"), 2);
}

#[test]
fn multiline_declarations_are_joined() {
    let a = analyzer_for(
        "pub trait ComplexBase {}\npub trait ComplexHelper1 {}\n\npub trait ComplexMultiline:\n    ComplexBase + \n    ComplexHelper1\n{}\n\nstruct ComplexType;\nimpl ComplexMultiline for ComplexType {}\n",
    );
    assert_eq!(depth(&a, "ComplexType"), 2);
    let s = a.get_summary();
    assert_eq!(s.trait_count, 3);
}

#[test]
fn deep_chain_and_diamond() {
    let a = analyzer_for(
        "pub trait Level1 {}\npub trait Level2: Level1 {}\npub trait Level3: Level2 {}\npub trait Level4: Level3 {}\npub trait Level5: Level4 {}\nimpl Level5 for Deep {}\npub trait DiamondBase {}\npub trait DiamondLeft: DiamondBase {}\npub trait DiamondRight: DiamondBase {}\npub trait DiamondTop: DiamondLeft + DiamondRight {}\nimpl DiamondTop for DiamondType {}\n",
    );
    assert_eq!(depth(&a, "Deep"), 5);
    assert_eq!(depth(&a, "DiamondType"), 3);
    assert_eq!(a.get_summary().max_depth, 5);
}

#[test]
fn visibility_and_unsafe_forms() {
    let a = analyzer_for(
        "unsafe trait UnsafeTrait {}\nunsafe impl UnsafeTrait for UnsafeType {}\npub(crate) trait CrateTrait: UnsafeTrait {}\nimpl CrateTrait for CrateType {}\npub(in crate::m) trait Restricted: CrateTrait {}\nimpl Restricted for RestrictedType {}\n",
    );
    assert_eq!(depth(&a, "UnsafeType"), 1);
    assert_eq!(depth(&a, "CrateType"), 2);
    assert_eq!(depth(&a, "RestrictedType"), 3);
}

#[test]
fn unknown_trait_counts_one_and_unknown_type_zero() {
    let a = analyzer_for("impl std::fmt::Debug for Thing {}\nimpl Thing {\n    fn f() {}\n}\n");
    assert_eq!(depth(&a, "Thing"), 1);
    assert_eq!(depth(&a, "Other"), 0);
    assert_eq!(a.get_summary().impl_count, 1);
}

#[test]
fn cyclic_supertraits_terminate() {
    let a = analyzer_for("trait P: Q {}\ntrait Q: P {}\nimpl P for X {}\n");
    assert_eq!(depth(&a, "X"), 2);
}

#[test]
fn same_trait_implemented_twice_is_kept_once() {
    let a = analyzer_for("trait T {}\nimpl T for X {}\nimpl T for X {}\n");
    assert_eq!(a.impl_map.len(), 1);
    assert_eq!(a.impl_map[0].1.len(), 1);
}

#[test]
fn line_level_parsing() {
    let f = FileAnalyzer::new();
    assert!(f.is_trait_declaration_start("  pub trait X {"));
    assert!(f.is_trait_declaration_start("pub(in crate::a) trait X"));
    assert!(!f.is_trait_declaration_start("pub(in crate::a) struct X"));
    assert!(!f.is_trait_declaration_start("fn trait_method() {}"));
    assert!(f.is_impl_declaration_start("unsafe impl Send for X {}"));
    assert!(!f.is_impl_declaration_start("impl<T> Foo for Bar<T> {}"));
    let t = f.parse_trait_declaration("pub trait Top: Left + Right {").unwrap();
    assert_eq!(t.name, "Top");
    assert_eq!(t.supertraits, vec!["Left".to_string(), "Right".to_string()]);
    let t = f.parse_trait_declaration("pub(crate) unsafe trait Inner{}").unwrap();
    assert_eq!(t.name, "Inner");
    assert!(t.supertraits.is_empty());
    let t = f.parse_trait_declaration("trait A { fn f(x: u8); }").unwrap();
    assert_eq!(t.name, "A");
    assert!(t.supertraits.is_empty());
    assert!(f.parse_trait_declaration("trait {").is_none());
    assert!(f.parse_trait_declaration("struct S;").is_none());
    let i = f.parse_impl_declaration("impl module_a::TraitA for module_b::TypeB {}").unwrap();
    assert_eq!(i.trait_name, "module_a::TraitA");
    assert_eq!(i.implementor, "module_b::TypeB {");
    assert!(f.parse_impl_declaration("impl Thing {").is_none());
    assert_eq!(f.clean_identifier("  Name{}}  "), "Name{");
    assert_eq!(f.clean_identifier(" Name {"), "Name");
}

#[test]
fn process_line_records_trait_or_impl() {
    let mut f = FileAnalyzer::new();
    f.process_line("pub trait A: B {");
    f.process_line("impl A for S {}");
    f.process_line("let x = 1;");
    assert_eq!(f.traits.len(), 1);
    assert_eq!(f.impls.len(), 1);
    assert_eq!(f.impls[0].implementor, "S {");
}
