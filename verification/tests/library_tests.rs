use ts_stubgen::generate;
use ts_stubgen::GenError;
use ts_stubgen::graph::Case;
use ts_stubgen::graph::DefKind;
use ts_stubgen::graph::Field;
use ts_stubgen::graph::Func;
use ts_stubgen::graph::FuncKind;
use ts_stubgen::graph::Graph;
use ts_stubgen::graph::Interface;
use ts_stubgen::graph::Package;
use ts_stubgen::graph::Param;
use ts_stubgen::graph::Ty;
use ts_stubgen::graph::TypeDef;
use ts_stubgen::graph::World;
use ts_stubgen::graph::WorldItem;
use ts_stubgen::graph::WorldItemKind;
use ts_stubgen::names;

fn s(x: &str) -> String {
    x.to_string()
}

fn opt(t: Ty) -> Ty {
    Ty::Opt(Box::new(t))
}

fn list(t: Ty) -> Ty {
    Ty::List(Box::new(t))
}

fn one_iface_world(typedefs: Vec<TypeDef>, funcs: Vec<Func>) -> Graph {
    let ids = (0..typedefs.len()).collect::<Vec<_>>();
    Graph {
        packages: vec![Package { namespace: s("demo"), name: s("pkg"), version: None }],
        interfaces: vec![Interface { package: 0, name: s("main"), typedefs: ids, funcs }],
        typedefs,
        worlds: vec![World {
            package: 0,
            name: s("test"),
            imports: vec![],
            exports: vec![WorldItem { name: s("main"), kind: WorldItemKind::Iface(0) }],
        }],
    }
}

fn func(name: &str, params: Vec<(&str, Ty)>, result: Option<Ty>) -> Func {
    Func {
        name: s(name),
        kind: FuncKind::Freestanding,
        params: params.into_iter().map(|(n, t)| Param { name: s(n), ty: t }).collect(),
        result,
    }
}

fn world_file(g: &Graph) -> String {
    let files = generate(g, "test").expect("generation succeeds");
    files
        .into_iter()
        .find(|(name, _)| name == "test.d.ts")
        .expect("world file present")
        .1
}

#[test]
fn generation_is_deterministic() {
    let g = one_iface_world(
        vec![TypeDef {
            owner: 0,
            name: s("color"),
            kind: DefKind::Enum(vec![s("red"), s("green"), s("blue")]),
        }],
        vec![func("pick", vec![("seed", Ty::U32)], Some(Ty::Named(0)))],
    );
    let first = generate(&g, "test").expect("generation succeeds");
    let second = generate(&g, "test").expect("generation succeeds");
    assert_eq!(first, second);
}

#[test]
fn world_not_found_error() {
    let g = one_iface_world(vec![], vec![]);
    let err = generate(&g, "missing").unwrap_err();
    assert_eq!(err, GenError::WorldNotFound);
    assert_eq!(err.message(), "world not found in the resolved graph");
}

#[test]
fn unresolved_reference_error() {
    let g = one_iface_world(
        vec![],
        vec![func("broken", vec![("a", Ty::Named(42))], None)],
    );
    let err = generate(&g, "test").unwrap_err();
    assert_eq!(err, GenError::UnresolvedReference);
    assert_eq!(err.message(), "unresolved reference in the resolved graph");
}

#[test]
fn name_projection_rules() {
    assert_eq!(names::pascal("wit-node"), "WitNode");
    assert_eq!(names::pascal("basic-test"), "BasicTest");
    assert_eq!(names::pascal("snake_case_name"), "SnakeCaseName");
    assert_eq!(names::camel("inc-by"), "incBy");
    assert_eq!(names::camel("u8-test"), "u8Test");
    assert_eq!(names::camel("run"), "run");
    assert_eq!(names::lower_all("MixedCase"), "mixedcase");
}

#[test]
fn reserved_value_names_are_escaped() {
    assert_eq!(names::value_name("delete"), "_delete");
    assert_eq!(names::value_name("new"), "_new");
    assert_eq!(names::value_name("instanceof"), "_instanceof");
    assert_eq!(names::value_name("get"), "get");
    assert!(names::is_reserved("false"));
    assert!(!names::is_reserved("falsehood"));
    assert!(!names::is_reserved("_delete"));
}

#[test]
fn variant_union_one_arm_per_case() {
    let g = one_iface_world(
        vec![TypeDef {
            owner: 0,
            name: s("shape"),
            kind: DefKind::Variant(vec![
                Case { name: s("dot"), payload: None },
                Case { name: s("line-segment"), payload: Some(Ty::U32) },
            ]),
        }],
        vec![],
    );
    let text = world_file(&g);
    assert!(text.contains("export type Shape = ShapeDot | ShapeLineSegment;"));
    assert!(text.contains("tag: 'dot',"));
    assert!(text.contains("tag: 'line-segment',"));
    assert!(text.contains("val: number,"));
}

#[test]
fn option_rendering_depends_on_position() {
    let g = one_iface_world(
        vec![TypeDef {
            owner: 0,
            name: s("rec"),
            kind: DefKind::Record(vec![Field { name: s("maybe"), ty: opt(Ty::U8) }]),
        }],
        vec![
            func("plain", vec![("a", opt(Ty::U8))], Some(opt(Ty::Str))),
            func("nested", vec![("a", opt(opt(Ty::U8)))], None),
            func("in-tuple", vec![("a", Ty::Tuple(vec![opt(Ty::U8)]))], None),
            func("in-list", vec![("a", list(opt(Ty::U8)))], None),
        ],
    );
    let text = world_file(&g);
    assert!(text.contains("plain(a: number | undefined): string | undefined,"));
    assert!(text.contains("nested(a: Option<number | undefined>): void,"));
    assert!(text.contains("inTuple(a: [Option<number | undefined>]): void,"));
    assert!(text.contains("inList(a: Option<number | undefined>[]): void,"));
    assert!(text.contains("maybe?: number,"));
}

#[test]
fn list_specializations() {
    let g = one_iface_world(
        vec![TypeDef { owner: 0, name: s("idx"), kind: DefKind::Alias(Ty::S32) }],
        vec![
            func("bytes", vec![("a", list(Ty::U8))], Some(list(Ty::Str))),
            func("indices", vec![("a", list(Ty::Named(0)))], Some(list(Ty::U64))),
        ],
    );
    let text = world_file(&g);
    assert!(text.contains("bytes(a: Uint8Array): string[],"));
    assert!(text.contains("indices(a: Int32Array): BigUint64Array,"));
}

#[test]
fn helpers_emitted_only_when_used() {
    let plain = one_iface_world(vec![], vec![func("ping", vec![], Some(Ty::U32))]);
    let text = world_file(&plain);
    assert!(!text.contains("export type Option<T>"));
    assert!(!text.contains("export type Result<T, E>"));

    let with_result = one_iface_world(
        vec![],
        vec![func("try-ping", vec![], Some(Ty::Res(None, Some(Box::new(Ty::Str)))))],
    );
    let text = world_file(&with_result);
    assert!(!text.contains("export type Option<T>"));
    assert!(text.contains("export type Result<T, E> = { tag: 'ok', val: T } | { tag: 'err', val: E };"));
}

#[test]
fn module_specifier_keeps_version_file_stem_drops_it() {
    let g = Graph {
        packages: vec![
            Package { namespace: s("acme"), name: s("models"), version: Some(s("2.0.1")) },
            Package { namespace: s("demo"), name: s("app"), version: None },
        ],
        interfaces: vec![Interface {
            package: 0,
            name: s("shapes"),
            typedefs: vec![0],
            funcs: vec![],
        }],
        typedefs: vec![TypeDef {
            owner: 0,
            name: s("size"),
            kind: DefKind::Alias(Ty::U32),
        }],
        worlds: vec![World {
            package: 1,
            name: s("test"),
            imports: vec![WorldItem { name: s("shapes"), kind: WorldItemKind::Iface(0) }],
            exports: vec![],
        }],
    };
    let files = generate(&g, "test").expect("generation succeeds");
    let names: Vec<&str> = files.iter().map(|(n, _)| n.as_str()).collect();
    assert!(names.contains(&"interfaces/acme-models-shapes.d.ts"));
    assert!(names.contains(&"test.d.ts"));
    let module = files
        .iter()
        .find(|(n, _)| n == "interfaces/acme-models-shapes.d.ts")
        .unwrap();
    assert!(module.1.contains("declare module \"acme:models/shapes@2.0.1\" {"));
}

#[test]
fn flags_render_as_optional_booleans() {
    let g = one_iface_world(
        vec![TypeDef {
            owner: 0,
            name: s("perms"),
            kind: DefKind::Flags(vec![s("read"), s("write-all")]),
        }],
        vec![],
    );
    let text = world_file(&g);
    assert!(text.contains("export interface Perms {"));
    assert!(text.contains("read?: boolean,"));
    assert!(text.contains("writeAll?: boolean,"));
}

#[test]
fn empty_world_has_empty_umbrella() {
    let g = Graph {
        packages: vec![Package { namespace: s("demo"), name: s("pkg"), version: None }],
        interfaces: vec![],
        typedefs: vec![],
        worlds: vec![World {
            package: 0,
            name: s("test"),
            imports: vec![],
            exports: vec![],
        }],
    };
    let files = generate(&g, "test").expect("generation succeeds");
    assert_eq!(files.len(), 1);
    assert_eq!(files[0].0, "test.d.ts");
    assert_eq!(files[0].1, "export interface TestWorld {\n}\n");
}
