use mscd::analysis::{analyze_struct_depth, node_depths};
use mscd::depth::calculate_max_struct_depth;
use mscd::model::{Item, SourceFile, TypePath, TypeRef, UseTree};
use mscd::names::{is_primitive_type, join_path, normalize_relative_path};

fn segs(p: &str) -> Vec<String> {
    p.split("::").map(|s| s.to_string()).collect()
}

fn path(p: &str) -> TypeRef {
    TypeRef::Path(TypePath { segments: segs(p), args: vec![] })
}

fn generic(p: &str, args: Vec<TypeRef>) -> TypeRef {
    TypeRef::Path(TypePath { segments: segs(p), args })
}

fn strukt(name: &str, fields: Vec<TypeRef>) -> Item {
    Item::Struct { name: name.to_string(), fields }
}

fn file(p: &str, items: Vec<Item>) -> SourceFile {
    SourceFile { path: p.split('/').map(|s| s.to_string()).collect(), items }
}

type Graph = Vec<(Vec<String>, Vec<Vec<String>>)>;

fn depth_of(g: &Graph, name: &str) -> usize {
    let mut visited = Vec::new();
    calculate_max_struct_depth(g, &segs(name), &mut visited, 1)
}

fn edges_of(g: &Graph, name: &str) -> Vec<String> {
    let key = segs(name);
    let entry = g.iter().find(|e| e.0 == key).expect("struct is in the graph");
    entry.1.iter().map(join_path).collect()
}

#[test]
fn example_leaf_mid_top() {
    let tree = vec![file(
        "lib.rs",
        vec![
            strukt("Leaf", vec![]),
            strukt("Mid", vec![path("Leaf")]),
            strukt("Top", vec![path("Mid"), path("Mid")]),
        ],
    )];
    let (max, g) = analyze_struct_depth(&tree);
    assert_eq!(depth_of(&g, "Leaf"), 1);
    assert_eq!(depth_of(&g, "Mid"), 2);
    assert_eq!(depth_of(&g, "Top"), 3);
    assert_eq!(max, 3);
    assert_eq!(g.len(), 3);
}

#[test]
fn leaf_with_only_primitive_fields_has_depth_one() {
    let tree = vec![file(
        "lib.rs",
        vec![strukt("Leaf", vec![path("u8"), path("String"), generic("Vec", vec![path("u64")])])],
    )];
    let (max, g) = analyze_struct_depth(&tree);
    assert_eq!(depth_of(&g, "Leaf"), 1);
    assert!(edges_of(&g, "Leaf").is_empty());
    assert_eq!(max, 1);
}

#[test]
fn chain_of_four_has_depth_four() {
    let tree = vec![file(
        "lib.rs",
        vec![
            strukt("A", vec![path("B")]),
            strukt("B", vec![path("C")]),
            strukt("C", vec![path("D")]),
            strukt("D", vec![path("u32")]),
        ],
    )];
    let (max, g) = analyze_struct_depth(&tree);
    assert_eq!(depth_of(&g, "A"), 4);
    assert_eq!(depth_of(&g, "D"), 1);
    assert_eq!(max, 4);
}

#[test]
fn self_reference_stops_after_one_step() {
    let boxed_self = generic("Option", vec![generic("Box", vec![path("Self")])]);
    let tree = vec![file("lib.rs", vec![strukt("Node", vec![path("u8"), boxed_self])])];
    let (max, g) = analyze_struct_depth(&tree);
    assert_eq!(edges_of(&g, "Node"), vec!["Node".to_string()]);
    assert_eq!(depth_of(&g, "Node"), 2);
    assert_eq!(max, 2);
}

#[test]
fn mutual_reference_terminates() {
    let tree = vec![file(
        "lib.rs",
        vec![strukt("A", vec![generic("Box", vec![path("B")])]), strukt("B", vec![path("A")])],
    )];
    let (max, g) = analyze_struct_depth(&tree);
    assert_eq!(depth_of(&g, "A"), 3);
    assert_eq!(depth_of(&g, "B"), 3);
    assert_eq!(max, 3);
}

#[test]
fn alias_adds_one_level() {
    let tree = vec![file(
        "lib.rs",
        vec![
            strukt("Leaf", vec![]),
            strukt("Mid", vec![path("Leaf")]),
            Item::Alias { name: "X".to_string(), target: path("Mid") },
            strukt("S", vec![path("X")]),
        ],
    )];
    let (max, g) = analyze_struct_depth(&tree);
    assert_eq!(edges_of(&g, "S"), vec!["Mid".to_string()]);
    assert_eq!(depth_of(&g, "S"), depth_of(&g, "Mid") + 1);
    assert_eq!(depth_of(&g, "S"), 3);
    assert_eq!(max, 3);
}

#[test]
fn alias_chain_and_cycle() {
    let tree = vec![file(
        "lib.rs",
        vec![
            strukt("Leaf", vec![]),
            Item::Alias { name: "P".to_string(), target: path("Q") },
            Item::Alias { name: "Q".to_string(), target: path("Leaf") },
            Item::Alias { name: "L1".to_string(), target: path("L2") },
            Item::Alias { name: "L2".to_string(), target: path("L1") },
            Item::Alias { name: "Num".to_string(), target: path("u64") },
            strukt("S", vec![path("P"), path("L1"), path("Num")]),
        ],
    )];
    let (_, g) = analyze_struct_depth(&tree);
    assert_eq!(
        edges_of(&g, "S"),
        vec!["Leaf".to_string(), "L1".to_string(), "Num".to_string()]
    );
    assert_eq!(depth_of(&g, "S"), 2);
}

#[test]
fn renamed_import_resolves_to_origin() {
    let import = UseTree::Path {
        ident: "a".to_string(),
        tree: Box::new(UseTree::Path {
            ident: "b".to_string(),
            tree: Box::new(UseTree::Rename {
                ident: "Inner".to_string(),
                rename: "Local".to_string(),
            }),
        }),
    };
    let tree = vec![file(
        "lib.rs",
        vec![
            Item::Module {
                name: "a".to_string(),
                content: Some(vec![Item::Module {
                    name: "b".to_string(),
                    content: Some(vec![strukt("Inner", vec![])]),
                }]),
            },
            Item::Use(import),
            strukt("Outer", vec![path("Local")]),
        ],
    )];
    let (max, g) = analyze_struct_depth(&tree);
    assert_eq!(edges_of(&g, "Outer"), vec!["a::b::Inner".to_string()]);
    assert_eq!(depth_of(&g, "Outer"), 2);
    assert_eq!(max, 2);
}

#[test]
fn grouped_import_and_crate_qualified_path() {
    let import = UseTree::Path {
        ident: "crate".to_string(),
        tree: Box::new(UseTree::Path {
            ident: "shapes".to_string(),
            tree: Box::new(UseTree::Group(vec![
                UseTree::Name("Circle".to_string()),
                UseTree::Rename { ident: "Square".to_string(), rename: "Sq".to_string() },
                UseTree::Glob,
            ])),
        }),
    };
    let tree = vec![file(
        "lib.rs",
        vec![
            Item::Module {
                name: "shapes".to_string(),
                content: Some(vec![strukt("Circle", vec![]), strukt("Square", vec![])]),
            },
            Item::Use(import),
            strukt("Scene", vec![path("Circle"), path("Sq"), path("crate::shapes::Circle")]),
        ],
    )];
    let (_, g) = analyze_struct_depth(&tree);
    assert_eq!(
        edges_of(&g, "Scene"),
        vec![
            "shapes::Circle".to_string(),
            "shapes::Square".to_string(),
            "shapes::Circle".to_string()
        ]
    );
    assert_eq!(depth_of(&g, "Scene"), 2);
}

#[test]
fn diamond_counts_shared_struct_once_per_path() {
    let tree = vec![file(
        "lib.rs",
        vec![
            strukt("A", vec![path("B"), path("C")]),
            strukt("B", vec![path("D")]),
            strukt("C", vec![path("D")]),
            strukt("D", vec![]),
        ],
    )];
    let (max, g) = analyze_struct_depth(&tree);
    assert_eq!(depth_of(&g, "A"), 3);
    assert_eq!(max, 3);
}

#[test]
fn cross_file_reference_in_either_order() {
    let first = file("a.rs", vec![strukt("A", vec![path("B")])]);
    let second = file("b.rs", vec![strukt("B", vec![path("bool")])]);
    let (max, g) = analyze_struct_depth(&vec![first, second]);
    assert_eq!(depth_of(&g, "A"), 2);
    assert_eq!(max, 2);
    let first = file("a.rs", vec![strukt("A", vec![path("B")])]);
    let second = file("b.rs", vec![strukt("B", vec![path("bool")])]);
    let (max, g) = analyze_struct_depth(&vec![second, first]);
    assert_eq!(depth_of(&g, "A"), 2);
    assert_eq!(max, 2);
}

#[test]
fn out_of_line_module_is_read_under_its_path() {
    let lib = file(
        "src/lib.rs",
        vec![
            Item::Module { name: "geo".to_string(), content: None },
            Item::Module { name: "missing".to_string(), content: None },
            strukt("Map", vec![path("geo::Point")]),
        ],
    );
    let geo = file(
        "src/geo/mod.rs",
        vec![
            Item::Module { name: "inner".to_string(), content: None },
            strukt("Point", vec![path("self::inner::Coord")]),
        ],
    );
    let inner = file("src/geo/inner.rs", vec![strukt("Coord", vec![path("super::Unit")])]);
    let (max, g) = analyze_struct_depth(&vec![lib, geo, inner]);
    assert_eq!(g.len(), 3);
    assert_eq!(edges_of(&g, "geo::Point"), vec!["geo::inner::Coord".to_string()]);
    assert_eq!(edges_of(&g, "geo::inner::Coord"), vec!["geo::Unit".to_string()]);
    assert_eq!(depth_of(&g, "Map"), 3);
    assert_eq!(max, 3);
}

#[test]
fn wrapped_forms_yield_edges() {
    let tree = vec![file(
        "lib.rs",
        vec![
            strukt("Leaf", vec![]),
            strukt(
                "Holder",
                vec![
                    TypeRef::Reference(Box::new(path("Leaf"))),
                    TypeRef::Array(Box::new(path("u8"))),
                    TypeRef::Tuple(vec![path("i32"), TypeRef::Slice(Box::new(path("Leaf")))]),
                    TypeRef::Pointer(Box::new(path("Leaf"))),
                    TypeRef::Tuple(vec![]),
                    TypeRef::Other("fn(u8)->Leaf".to_string()),
                    generic("HashMap", vec![path("String"), path("Leaf")]),
                ],
            ),
        ],
    )];
    let (max, g) = analyze_struct_depth(&tree);
    assert_eq!(
        edges_of(&g, "Holder"),
        vec![
            "Leaf".to_string(),
            "Leaf".to_string(),
            "Leaf".to_string(),
            "fn(u8)->Leaf".to_string(),
            "Leaf".to_string()
        ]
    );
    assert_eq!(max, 2);
}

#[test]
fn local_declaration_shadows_import() {
    let import = UseTree::Path {
        ident: "other".to_string(),
        tree: Box::new(UseTree::Name("Leaf".to_string())),
    };
    let tree = vec![file(
        "lib.rs",
        vec![Item::Use(import), strukt("Leaf", vec![]), strukt("S", vec![path("Leaf")])],
    )];
    let (_, g) = analyze_struct_depth(&tree);
    assert_eq!(edges_of(&g, "S"), vec!["Leaf".to_string()]);
}

#[test]
fn duplicate_struct_name_keeps_later_declaration() {
    let tree = vec![file(
        "lib.rs",
        vec![strukt("Leaf", vec![]), strukt("S", vec![path("Leaf")]), strukt("S", vec![])],
    )];
    let (max, g) = analyze_struct_depth(&tree);
    assert_eq!(g.len(), 2);
    assert!(edges_of(&g, "S").is_empty());
    assert_eq!(max, 1);
}

#[test]
fn empty_tree_has_depth_zero() {
    let (max, g) = analyze_struct_depth(&vec![]);
    assert_eq!(max, 0);
    assert!(g.is_empty());
}

#[test]
fn relative_paths_are_normalized() {
    let m = segs("a::b");
    assert_eq!(join_path(&normalize_relative_path(&segs("crate::x::Y"), &m)), "x::Y");
    assert_eq!(join_path(&normalize_relative_path(&segs("self::Y"), &m)), "a::b::Y");
    assert_eq!(join_path(&normalize_relative_path(&segs("super::Y"), &m)), "a::Y");
    assert_eq!(join_path(&normalize_relative_path(&segs("super::Y"), &segs("a"))), "Y");
    assert_eq!(join_path(&normalize_relative_path(&segs("self::Y"), &vec![])), "Y");
    assert_eq!(join_path(&normalize_relative_path(&segs("p::Y"), &m)), "p::Y");
    assert_eq!(join_path(&normalize_relative_path(&segs("Y"), &m)), "Y");
}

#[test]
fn primitive_names() {
    for p in ["u8", "usize", "f64", "bool", "str", "()", "String", "Vec", "Option", "BTreeSet"] {
        assert!(is_primitive_type(p), "{}", p);
    }
    for p in ["Leaf", "u256", "string", "std::string::String", ""] {
        assert!(!is_primitive_type(p), "{}", p);
    }
}

#[test]
fn node_depths_follow_graph_order() {
    let tree = vec![file(
        "lib.rs",
        vec![
            strukt("Leaf", vec![]),
            strukt("Mid", vec![path("Leaf")]),
            strukt("Top", vec![path("Mid"), path("Mid")]),
        ],
    )];
    let (_, g) = analyze_struct_depth(&tree);
    let names: Vec<String> = g.iter().map(|e| join_path(&e.0)).collect();
    assert_eq!(names, vec!["Leaf".to_string(), "Mid".to_string(), "Top".to_string()]);
    assert_eq!(node_depths(&g), vec![1, 2, 3]);
}

#[test]
fn crate_and_super_paths_resolve_from_the_root() {
    let tree = vec![file(
        "lib.rs",
        vec![
            strukt("Leaf", vec![]),
            Item::Module {
                name: "m".to_string(),
                content: Some(vec![strukt(
                    "Holder",
                    vec![path("crate::Leaf"), path("super::Leaf"), path("self::Own")],
                ), strukt("Own", vec![])]),
            },
        ],
    )];
    let (max, g) = analyze_struct_depth(&tree);
    assert_eq!(
        edges_of(&g, "m::Holder"),
        vec!["Leaf".to_string(), "Leaf".to_string(), "m::Own".to_string()]
    );
    assert_eq!(depth_of(&g, "m::Holder"), 2);
    assert_eq!(max, 2);
}

#[test]
fn module_file_is_read_once_under_its_path() {
    let lib = file(
        "src/lib.rs",
        vec![Item::Module { name: "a".to_string(), content: None }, strukt("Top", vec![path("a::A")])],
    );
    let a = file(
        "src/a.rs",
        vec![Item::Module { name: "b".to_string(), content: None }, strukt("A", vec![path("self::b::B")])],
    );
    let b = file("src/a/b.rs", vec![strukt("B", vec![path("crate::a::A")])]);
    let (max, g) = analyze_struct_depth(&vec![b, a, lib]);
    let mut names: Vec<String> = g.iter().map(|e| join_path(&e.0)).collect();
    names.sort();
    assert_eq!(names, vec!["Top".to_string(), "a::A".to_string(), "a::b::B".to_string()]);
    assert_eq!(edges_of(&g, "a::A"), vec!["a::b::B".to_string()]);
    assert_eq!(edges_of(&g, "a::b::B"), vec!["a::A".to_string()]);
    assert_eq!(depth_of(&g, "Top"), 4);
    assert_eq!(max, 4);
}
