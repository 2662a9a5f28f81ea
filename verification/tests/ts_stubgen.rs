use std::collections::HashMap;

use ts_stubgen::generate;
use ts_stubgen::graph::Case;
use ts_stubgen::graph::DefKind;
use ts_stubgen::graph::Field;
use ts_stubgen::graph::Func;
use ts_stubgen::graph::FuncKind;
use ts_stubgen::graph::Graph;
use ts_stubgen::graph::Interface;
use ts_stubgen::graph::Package;
use ts_stubgen::graph::Param;
use ts_stubgen::graph::Ty;
use ts_stubgen::graph::TypeDef;
use ts_stubgen::graph::World;
use ts_stubgen::graph::WorldItem;
use ts_stubgen::graph::WorldItemKind;

fn s(x: &str) -> String {
    x.to_string()
}

fn pkg(ns: &str, name: &str, version: Option<&str>) -> Package {
    Package { namespace: s(ns), name: s(name), version: version.map(s) }
}

fn p(name: &str, ty: Ty) -> Param {
    Param { name: s(name), ty }
}

fn func(name: &str, params: Vec<Param>, result: Option<Ty>) -> Func {
    Func { name: s(name), kind: FuncKind::Freestanding, params, result: result }
}

fn method(name: &str, params: Vec<Param>, result: Option<Ty>) -> Func {
    Func { name: s(name), kind: FuncKind::Method, params, result: result }
}

fn stat(name: &str, params: Vec<Param>, result: Option<Ty>) -> Func {
    Func { name: s(name), kind: FuncKind::Static, params, result: result }
}

fn ctor(params: Vec<Param>) -> Func {
    Func { name: s("constructor"), kind: FuncKind::Constructor, params, result: None }
}

fn opt(t: Ty) -> Ty {
    Ty::Opt(Box::new(t))
}

fn list(t: Ty) -> Ty {
    Ty::List(Box::new(t))
}

fn tup(ts: Vec<Ty>) -> Ty {
    Ty::Tuple(ts)
}

fn res(ok: Option<Ty>, err: Option<Ty>) -> Ty {
    Ty::Res(ok.map(Box::new), err.map(Box::new))
}

fn named(id: usize) -> Ty {
    Ty::Named(id)
}

fn field(name: &str, ty: Ty) -> Field {
    Field { name: s(name), ty }
}

fn case(name: &str, payload: Option<Ty>) -> Case {
    Case { name: s(name), payload }
}

fn typedef(owner: usize, name: &str, kind: DefKind) -> TypeDef {
    TypeDef { owner, name: s(name), kind }
}

fn exp_iface(name: &str, id: usize) -> WorldItem {
    WorldItem { name: s(name), kind: WorldItemKind::Iface(id) }
}

fn imp_iface(name: &str, id: usize) -> WorldItem {
    WorldItem { name: s(name), kind: WorldItemKind::Iface(id) }
}

fn exp_func(f: Func) -> WorldItem {
    let name = f.name.clone();
    WorldItem { name, kind: WorldItemKind::Func(f) }
}

struct ExpectedTs {
    file_name: &'static str,
    expected: &'static str,
}

fn test_resolved_world(graph: &Graph, expected: &[ExpectedTs]) {
    let mut files = generate(graph, "test")
        .expect("Successful generation")
        .into_iter()
        .collect::<HashMap<_, _>>();

    for ExpectedTs { file_name, expected } in expected {
        let Some(actual) = files.remove(*file_name) else {
            let all_files = files.iter().map(|(name, _)| name).collect::<Vec<_>>();
            panic!("Expected file `{file_name}` not found in files: {all_files:?}")
        };
        compare_str(&actual, expected);
    }

    if !files.is_empty() {
        let all_files = files.iter().map(|(name, _)| name).collect::<Vec<_>>();
        panic!("Missing expected files: {all_files:?}")
    }
}

fn test_single_file(graph: &Graph, expected: &'static str) {
    test_resolved_world(graph, &[ExpectedTs { file_name: "test.d.ts", expected }]);
}

fn compare_str(actual: &str, expected: &str) {
    fn remove_whitespace(s: &str) -> impl Iterator<Item = &str> {
        s.lines().map(|l| l.trim()).filter(|l| !l.is_empty())
    }

    let mut expected_iter = remove_whitespace(expected);
    let mut actual_iter = remove_whitespace(actual);

    loop {
        match (expected_iter.next(), actual_iter.next()) {
            (None, None) => break,
            (Some(e), Some(a)) => {
                assert_eq!(e, a, "\nExpected:`{e}`\nActual:`{a}`\nFull:\n{actual}");
            }
            (e, a) => {
                assert_eq!(e, a, "\nExpected:`{e:?}`\nActual:`{a:?}`\nFull:\n{actual}");
            }
        }
    }
}

#[test]
fn basic_ts() {
    let graph = Graph {
        packages: vec![pkg("test", "t-basic", None)],
        interfaces: vec![Interface {
            package: 0,
            name: s("basic-test"),
            typedefs: vec![0, 1, 2, 3],
            funcs: vec![
                func("bool-test", vec![p("a", Ty::Bool)], Some(Ty::Bool)),
                func("s8-test", vec![p("a", Ty::S8)], Some(Ty::S8)),
                func("s16-test", vec![p("a", Ty::S16)], Some(Ty::S16)),
                func("s32-test", vec![p("a", Ty::S32)], Some(Ty::S32)),
                func("s64-test", vec![p("a", Ty::S64)], Some(Ty::S64)),
                func("u8-test", vec![p("a", Ty::U8)], Some(Ty::U8)),
                func("u16-test", vec![p("a", Ty::U16)], Some(Ty::U16)),
                func("u32-test", vec![p("a", Ty::U32)], Some(Ty::U32)),
                func("u64-test", vec![p("a", Ty::U64)], Some(Ty::U64)),
                func("f32-test", vec![p("a", Ty::Float32)], Some(Ty::Float32)),
                func("f64-test", vec![p("a", Ty::Float64)], Some(Ty::Float64)),
                func("char-test", vec![p("c", Ty::Char)], Some(Ty::Char)),
                func("string-test", vec![p("s", Ty::Str)], Some(Ty::Str)),
                func("u8-list-test", vec![p("a", list(Ty::U8))], Some(list(Ty::U8))),
                func("string-list-test", vec![p("a", list(Ty::Str))], Some(list(Ty::Str))),
                func("option-nullable-test", vec![p("a", opt(Ty::U8))], Some(opt(Ty::U8))),
                func(
                    "option-nested-test",
                    vec![p("a", opt(opt(Ty::U8)))],
                    Some(opt(opt(Ty::U8))),
                ),
                func("result-success-test", vec![p("a", Ty::U8)], Some(res(Some(Ty::U8), None))),
                func("result-fail-test", vec![p("a", Ty::U8)], Some(res(None, Some(Ty::U8)))),
                func(
                    "result-both-test",
                    vec![p("a", Ty::U8)],
                    Some(res(Some(Ty::U8), Some(Ty::U8))),
                ),
                func("result-none-test", vec![], Some(res(None, None))),
            ],
        }],
        typedefs: vec![
            typedef(
                0,
                "variant-test",
                DefKind::Variant(vec![
                    case("none", None),
                    case("any", None),
                    case("something", Some(Ty::Str)),
                ]),
            ),
            typedef(
                0,
                "enum-test",
                DefKind::Variant(vec![case("a", None), case("b", None), case("c", None)]),
            ),
            typedef(
                0,
                "record-test",
                DefKind::Record(vec![
                    field("a", Ty::U8),
                    field("b", Ty::Str),
                    field("c", opt(named(1))),
                ]),
            ),
            typedef(0, "flag-test", DefKind::Flags(vec![s("a"), s("b"), s("c")])),
        ],
        worlds: vec![World {
            package: 0,
            name: s("test"),
            imports: vec![],
            exports: vec![exp_iface("basic-test", 0)],
        }],
    };

    let expected = "
        export interface BasicTest {
            boolTest(a: boolean): boolean,
            s8Test(a: number): number,
            s16Test(a: number): number,
            s32Test(a: number): number,
            s64Test(a: bigint): bigint,
            u8Test(a: number): number,
            u16Test(a: number): number,
            u32Test(a: number): number,
            u64Test(a: bigint): bigint,
            f32Test(a: number): number,
            f64Test(a: number): number,
            charTest(c: string): string,
            stringTest(s: string): string,
            u8ListTest(a: Uint8Array): Uint8Array,
            stringListTest(a: string[]): string[],
            optionNullableTest(a: number | undefined): number | undefined,
            optionNestedTest(a: Option<number | undefined>): Option<number | undefined>,
            resultSuccessTest(a: number): Result<number, void>,
            resultFailTest(a: number): Result<void, number>,
            resultBothTest(a: number): Result<number, number>,
            resultNoneTest(): Result<void, void>,
        }
        export type VariantTest = VariantTestNone | VariantTestAny | VariantTestSomething;
        export interface VariantTestNone {
            tag: 'none',
        }
        export interface VariantTestAny {
            tag: 'any',
        }
        export interface VariantTestSomething {
            tag: 'something',
            val: string,
        }
        export type EnumTest = EnumTestA | EnumTestB | EnumTestC;
        export interface EnumTestA {
            tag: 'a',
        }
        export interface EnumTestB {
            tag: 'b',
        }
        export interface EnumTestC {
            tag: 'c',
        }
        export interface RecordTest {
            a: number,
            b: string,
            c?: EnumTest,
        }
        export interface FlagTest {
            a?: boolean,
            b?: boolean,
            c?: boolean,
        }
        export type Option<T> = { tag: 'none' } | { tag: 'some', val: T };
        export type Result<T, E> = { tag: 'ok', val: T } | { tag: 'err', val: E };

        export interface TestWorld {
            basicTest: BasicTest,
        }
";

    test_single_file(&graph, expected);
}

#[test]
fn export_resource() {
    let graph = Graph {
        packages: vec![pkg("test", "t-resource", None)],
        interfaces: vec![Interface {
            package: 0,
            name: s("resource-test"),
            typedefs: vec![0],
            funcs: vec![],
        }],
        typedefs: vec![typedef(
            0,
            "blob",
            DefKind::Resource(vec![
                ctor(vec![p("init", list(Ty::U8))]),
                method("write", vec![p("bytes", list(Ty::U8))], None),
                method("read", vec![p("n", Ty::U32)], Some(list(Ty::U8))),
                stat("merge", vec![p("lhs", named(0)), p("rhs", named(0))], Some(named(0))),
                method("some-optional", vec![p("a", opt(Ty::U8))], Some(opt(Ty::U8))),
            ]),
        )],
        worlds: vec![World {
            package: 0,
            name: s("test"),
            imports: vec![],
            exports: vec![exp_iface("resource-test", 0)],
        }],
    };

    let expected = "
        export interface ResourceTest {
            Blob: BlobStatic
        }

        export interface BlobStatic {
            new(init: Uint8Array): BlobInstance,
            merge(lhs: BlobInstance, rhs: BlobInstance): BlobInstance,
        }
        export interface BlobInstance {
            write(bytes: Uint8Array): void,
            read(n: number): Uint8Array,
            someOptional(a: number | undefined): number | undefined,
        }

        export interface TestWorld {
            resourceTest: ResourceTest,
        }
    ";

    test_single_file(&graph, expected);
}

#[test]
fn resource_import() {
    let graph = Graph {
        packages: vec![pkg("test", "resource-source", None), pkg("test", "resource-import", None)],
        interfaces: vec![Interface {
            package: 0,
            name: s("resource-test"),
            typedefs: vec![0],
            funcs: vec![],
        }],
        typedefs: vec![typedef(
            0,
            "blob",
            DefKind::Resource(vec![
                ctor(vec![p("init", list(Ty::U8))]),
                method("write", vec![p("bytes", list(Ty::U8))], None),
                method("read", vec![p("n", Ty::U32)], Some(list(Ty::U8))),
                stat("merge", vec![p("lhs", named(0)), p("rhs", named(0))], Some(named(0))),
            ]),
        )],
        worlds: vec![World {
            package: 1,
            name: s("test"),
            imports: vec![imp_iface("resource-test", 0)],
            exports: vec![exp_func(func("run", vec![], None))],
        }],
    };

    let expected = &[
        ExpectedTs {
            file_name: "test.d.ts",
            expected: "
            export interface TestWorld {
                run(): void,
            }",
        },
        ExpectedTs {
            file_name: "interfaces/test-resource-source-resource-test.d.ts",
            expected: r#"
            declare module "test:resource-source/resource-test" {
                export class Blob {
                    constructor(init: Uint8Array)
                    write(bytes: Uint8Array): void;
                    read(n: number): Uint8Array;
                    static merge(lhs: Blob, rhs: Blob): Blob;
                }
            }
            "#,
        },
    ];

    test_resolved_world(&graph, expected);
}

#[test]
fn imports() {
    let graph = Graph {
        packages: vec![
            pkg("test", "types", None),
            pkg("test", "canvas", None),
            pkg("test", "t-imports", None),
        ],
        interfaces: vec![
            Interface { package: 0, name: s("types"), typedefs: vec![0, 1], funcs: vec![] },
            Interface {
                package: 1,
                name: s("canvas"),
                typedefs: vec![2],
                funcs: vec![func(
                    "draw-line",
                    vec![
                        p("canvas", named(2)),
                        p("origin", named(1)),
                        p("target", named(1)),
                        p("thickness", named(0)),
                    ],
                    None,
                )],
            },
        ],
        typedefs: vec![
            typedef(0, "dimension", DefKind::Alias(Ty::U32)),
            typedef(
                0,
                "point",
                DefKind::Record(vec![field("x", named(0)), field("y", named(0))]),
            ),
            typedef(1, "canvas-id", DefKind::Alias(Ty::U64)),
        ],
        worlds: vec![World {
            package: 2,
            name: s("test"),
            imports: vec![imp_iface("canvas", 1)],
            exports: vec![exp_func(func("run", vec![], None))],
        }],
    };

    let expected = &[
        ExpectedTs {
            file_name: "test.d.ts",
            expected: "
            export interface TestWorld {
                run(): void,
            }",
        },
        ExpectedTs {
            file_name: "interfaces/test-canvas-canvas.d.ts",
            expected: r#"
            declare module "test:canvas/canvas" {
                import type { Dimension } from "test:types/types";
                import type { Point } from "test:types/types";
                export type CanvasId = bigint;
                export function drawLine(canvas: CanvasId, origin: Point, target: Point, thickness: Dimension): void;
            }
            "#,
        },
        ExpectedTs {
            file_name: "interfaces/test-types-types.d.ts",
            expected: r#"
            declare module "test:types/types" {
                export type Dimension = number;
                export interface Point {
                    x: Dimension,
                    y: Dimension,
                }
            }
            "#,
        },
    ];

    test_resolved_world(&graph, expected);
}

#[test]
fn rpc() {
    let graph = Graph {
        packages: vec![
            pkg("golem", "rpc", Some("0.1.0")),
            pkg("rpc", "counters", None),
            pkg("rpc", "counters-stub", None),
            pkg("test", "rpc", None),
        ],
        interfaces: vec![
            Interface {
                package: 0,
                name: s("types"),
                typedefs: vec![0, 1, 2, 3, 4, 5],
                funcs: vec![],
            },
            Interface {
                package: 1,
                name: s("api"),
                typedefs: vec![6, 7],
                funcs: vec![
                    func("inc-global-by", vec![p("value", Ty::U64)], None),
                    func("get-global-value", vec![], Some(named(6))),
                    func(
                        "get-all-dropped",
                        vec![],
                        Some(list(tup(vec![Ty::Str, Ty::U64]))),
                    ),
                ],
            },
            Interface {
                package: 2,
                name: s("stub-counters"),
                typedefs: vec![8, 9],
                funcs: vec![],
            },
            Interface {
                package: 3,
                name: s("api"),
                typedefs: vec![],
                funcs: vec![
                    func("test1", vec![], Some(list(tup(vec![Ty::Str, Ty::U64])))),
                    func("test2", vec![], Some(Ty::U64)),
                    func("test3", vec![], Some(Ty::U64)),
                ],
            },
        ],
        typedefs: vec![
            typedef(0, "node-index", DefKind::Alias(Ty::S32)),
            typedef(0, "wit-value", DefKind::Record(vec![field("nodes", list(named(2)))])),
            typedef(
                0,
                "wit-node",
                DefKind::Variant(vec![
                    case("record-value", Some(list(named(0)))),
                    case("variant-value", Some(tup(vec![Ty::U32, opt(named(0))]))),
                    case("enum-value", Some(Ty::U32)),
                    case("flags-value", Some(list(Ty::Bool))),
                    case("tuple-value", Some(list(named(0)))),
                    case("list-value", Some(list(named(0)))),
                    case("option-value", Some(opt(named(0)))),
                    case(
                        "result-value",
                        Some(res(Some(opt(named(0))), Some(opt(named(0))))),
                    ),
                    case("prim-u8", Some(Ty::U8)),
                    case("prim-u16", Some(Ty::U16)),
                    case("prim-u32", Some(Ty::U32)),
                    case("prim-u64", Some(Ty::U64)),
                    case("prim-s8", Some(Ty::S8)),
                    case("prim-s16", Some(Ty::S16)),
                    case("prim-s32", Some(Ty::S32)),
                    case("prim-s64", Some(Ty::S64)),
                    case("prim-float32", Some(Ty::Float32)),
                    case("prim-float64", Some(Ty::Float64)),
                    case("prim-char", Some(Ty::Char)),
                    case("prim-bool", Some(Ty::Bool)),
                    case("prim-string", Some(Ty::Str)),
                    case("handle", Some(tup(vec![named(3), Ty::U64]))),
                ]),
            ),
            typedef(0, "uri", DefKind::Record(vec![field("value", Ty::Str)])),
            typedef(
                0,
                "rpc-error",
                DefKind::Variant(vec![
                    case("protocol-error", Some(Ty::Str)),
                    case("denied", Some(Ty::Str)),
                    case("not-found", Some(Ty::Str)),
                    case("remote-internal-error", Some(Ty::Str)),
                ]),
            ),
            typedef(
                0,
                "wasm-rpc",
                DefKind::Resource(vec![
                    ctor(vec![p("location", named(3))]),
                    method(
                        "invoke-and-await",
                        vec![
                            p("function-name", Ty::Str),
                            p("function-params", list(named(1))),
                        ],
                        Some(res(Some(named(1)), Some(named(4)))),
                    ),
                    method(
                        "invoke",
                        vec![
                            p("function-name", Ty::Str),
                            p("function-params", list(named(1))),
                        ],
                        Some(res(None, Some(named(4)))),
                    ),
                ]),
            ),
            typedef(1, "counter-value", DefKind::Record(vec![field("value", Ty::U64)])),
            typedef(
                1,
                "counter",
                DefKind::Resource(vec![
                    ctor(vec![p("name", Ty::Str)]),
                    method("inc-by", vec![p("value", Ty::U64)], None),
                    method("get-value", vec![], Some(named(6))),
                ]),
            ),
            typedef(
                2,
                "api",
                DefKind::Resource(vec![
                    ctor(vec![p("location", named(3))]),
                    method("inc-global-by", vec![p("value", Ty::U64)], None),
                    method("get-global-value", vec![], Some(named(6))),
                    method(
                        "get-all-dropped",
                        vec![],
                        Some(list(tup(vec![Ty::Str, Ty::U64]))),
                    ),
                ]),
            ),
            typedef(
                2,
                "counter",
                DefKind::Resource(vec![
                    ctor(vec![p("location", named(3)), p("name", Ty::Str)]),
                    method("inc-by", vec![p("value", Ty::U64)], None),
                    method("get-value", vec![], Some(named(6))),
                ]),
            ),
        ],
        worlds: vec![World {
            package: 3,
            name: s("test"),
            imports: vec![imp_iface("stub-counters", 2)],
            exports: vec![exp_iface("api", 3)],
        }],
    };

    let expected = &[
        ExpectedTs {
            file_name: "test.d.ts",
            expected: "
            export interface Api {
                test1(): [string, bigint][],
                test2(): bigint,
                test3(): bigint,
            }

            export interface TestWorld {
                api: Api,
            }
            ",
        },
        ExpectedTs {
            file_name: "interfaces/golem-rpc-types.d.ts",
            expected: r#"
            declare module "golem:rpc/types@0.1.0" {
                export type NodeIndex = number;
                export interface Uri {
                    value: string,
                }
                export type WitNode = WitNodeRecordValue | WitNodeVariantValue | WitNodeEnumValue | WitNodeFlagsValue | WitNodeTupleValue | WitNodeListValue | WitNodeOptionValue | WitNodeResultValue | WitNodePrimU8 | WitNodePrimU16 | WitNodePrimU32 | WitNodePrimU64 | WitNodePrimS8 | WitNodePrimS16 | WitNodePrimS32 | WitNodePrimS64 | WitNodePrimFloat32 | WitNodePrimFloat64 | WitNodePrimChar | WitNodePrimBool | WitNodePrimString | WitNodeHandle;
                export interface WitNodeRecordValue {
                    tag: 'record-value',
                    val: Int32Array,
                }
                export interface WitNodeVariantValue {
                    tag: 'variant-value',
                    val: [number, Option<NodeIndex | undefined>],
                }
                export interface WitNodeEnumValue {
                    tag: 'enum-value',
                    val: number,
                }
                export interface WitNodeFlagsValue {
                    tag: 'flags-value',
                    val: boolean[],
                }
                export interface WitNodeTupleValue {
                    tag: 'tuple-value',
                    val: Int32Array,
                }
                export interface WitNodeListValue {
                    tag: 'list-value',
                    val: Int32Array,
                }
                export interface WitNodeOptionValue {
                    tag: 'option-value',
                    val: Option<NodeIndex | undefined>,
                }
                export interface WitNodeResultValue {
                    tag: 'result-value',
                    val: Result<Option<NodeIndex | undefined>, Option<NodeIndex | undefined>>,
                }
                export interface WitNodePrimU8 {
                    tag: 'prim-u8',
                    val: number,
                }
                export interface WitNodePrimU16 {
                    tag: 'prim-u16',
                    val: number,
                }
                export interface WitNodePrimU32 {
                    tag: 'prim-u32',
                    val: number,
                }
                export interface WitNodePrimU64 {
                    tag: 'prim-u64',
                    val: bigint,
                }
                export interface WitNodePrimS8 {
                    tag: 'prim-s8',
                    val: number,
                }
                export interface WitNodePrimS16 {
                    tag: 'prim-s16',
                    val: number,
                }
                export interface WitNodePrimS32 {
                    tag: 'prim-s32',
                    val: number,
                }
                export interface WitNodePrimS64 {
                    tag: 'prim-s64',
                    val: bigint,
                }
                export interface WitNodePrimFloat32 {
                    tag: 'prim-float32',
                    val: number,
                }
                export interface WitNodePrimFloat64 {
                    tag: 'prim-float64',
                    val: number,
                }
                export interface WitNodePrimChar {
                    tag: 'prim-char',
                    val: string,
                }
                export interface WitNodePrimBool {
                    tag: 'prim-bool',
                    val: boolean,
                }
                export interface WitNodePrimString {
                    tag: 'prim-string',
                    val: string,
                }
                export interface WitNodeHandle {
                    tag: 'handle',
                    val: [Uri, bigint],
                }
                export interface WitValue {
                    nodes: WitNode[],
                }
                export type RpcError = RpcErrorProtocolError | RpcErrorDenied | RpcErrorNotFound | RpcErrorRemoteInternalError;
                export interface RpcErrorProtocolError {
                    tag: 'protocol-error',
                    val: string,
                }
                export interface RpcErrorDenied {
                    tag: 'denied',
                    val: string,
                }
                export interface RpcErrorNotFound {
                    tag: 'not-found',
                    val: string,
                }
                export interface RpcErrorRemoteInternalError {
                    tag: 'remote-internal-error',
                    val: string,
                }

                export class WasmRpc {
                    constructor(location: Uri)
                    invokeAndAwait(functionName: string, functionParams: WitValue[]): Result<WitValue, RpcError>;
                    invoke(functionName: string, functionParams: WitValue[]): Result<void, RpcError>;
                }

                export type Option<T> = { tag: 'none' } | { tag: 'some', val: T };
                export type Result<T, E> = { tag: 'ok', val: T } | { tag: 'err', val: E };
            }
            "#,
        },
        ExpectedTs {
            file_name: "interfaces/rpc-counters-stub-stub-counters.d.ts",
            expected: r#"
            declare module "rpc:counters-stub/stub-counters" {
                import type { Uri } from "golem:rpc/types@0.1.0";
                import type { CounterValue } from "rpc:counters/api";

                export class Api {
                    constructor(location: Uri)
                    incGlobalBy(value: bigint): void;
                    getGlobalValue(): CounterValue;
                    getAllDropped(): [string, bigint][];
                }

                export class Counter {
                    constructor(location: Uri, name: string)
                    incBy(value: bigint): void;
                    getValue(): CounterValue;
                }
            }
            "#,
        },
        ExpectedTs {
            file_name: "interfaces/rpc-counters-api.d.ts",
            expected: r#"
            declare module "rpc:counters/api" {
                export interface CounterValue {
                    value: bigint,
                }
                export function incGlobalBy(value: bigint): void;
                export function getGlobalValue(): CounterValue;
                export function getAllDropped(): [string, bigint][];

                export class Counter {
                    constructor(name: string)
                    incBy(value: bigint): void;
                    getValue(): CounterValue;
                }
            }
            "#,
        },
    ];

    test_resolved_world(&graph, expected);
}

#[test]
fn inline_interface() {
    let graph = Graph {
        packages: vec![pkg("test", "inline", None)],
        interfaces: vec![Interface {
            package: 0,
            name: s("example"),
            typedefs: vec![],
            funcs: vec![func("do-nothing", vec![], None)],
        }],
        typedefs: vec![],
        worlds: vec![World {
            package: 0,
            name: s("test"),
            imports: vec![],
            exports: vec![exp_iface("example", 0)],
        }],
    };

    let expected = "
    export interface Example {
        doNothing(): void,
    }

    export interface TestWorld {
        example: Example,
    }
    ";

    test_single_file(&graph, expected);
}

#[test]
fn reserved_keywords() {
    let graph = Graph {
        packages: vec![pkg("test", "kv", None), pkg("test", "reserved", None)],
        interfaces: vec![Interface {
            package: 0,
            name: s("kv"),
            typedefs: vec![0, 1],
            funcs: vec![
                func("get", vec![p("key", named(0))], Some(named(1))),
                func("set", vec![p("key", named(0)), p("value", named(1))], None),
                func("delete", vec![p("key", named(0))], None),
            ],
        }],
        typedefs: vec![
            typedef(0, "key", DefKind::Alias(Ty::Str)),
            typedef(0, "value", DefKind::Alias(Ty::Str)),
        ],
        worlds: vec![World {
            package: 1,
            name: s("test"),
            imports: vec![imp_iface("kv", 0)],
            exports: vec![exp_func(func("run", vec![], None))],
        }],
    };

    let expected = &[
        ExpectedTs {
            file_name: "test.d.ts",
            expected: "
            export interface TestWorld {
                run(): void,
            }",
        },
        ExpectedTs {
            file_name: "interfaces/test-kv-kv.d.ts",
            expected: r#"
            declare module "test:kv/kv" {
                export type Key = string;
                export type Value = string;
                export function get(key: Key): Value;
                export function set(key: Key, value: Value): void;
                export { _delete as delete };
                declare function _delete(key: Key): void;
            }
            "#,
        },
    ];

    test_resolved_world(&graph, expected);
}
