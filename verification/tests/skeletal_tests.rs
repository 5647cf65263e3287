use pasua::diff::SymbolStatus;
use pasua::languages::{Symbol, SymbolKind};
use pasua::skeletal::{compute_symbols, extract};

fn names(syms: &[Symbol]) -> Vec<&str> {
    syms.iter().map(|s| s.name.as_str()).collect()
}

fn kind_of(syms: &[Symbol], name: &str) -> SymbolKind {
    syms.iter().find(|s| s.name == name).unwrap().kind
}

const GO_SOURCE: &[u8] = b"
package main

func Hello() string {
    return \"hello\"
}

func Add(a, b int) int {
    return a + b
}
";

#[test]
fn extracts_go_functions() {
    let syms = extract("main.go", GO_SOURCE).unwrap();
    let names = names(&syms);
    assert!(names.contains(&"Hello"), "missing Hello, got: {names:?}");
    assert!(names.contains(&"Add"), "missing Add, got: {names:?}");
}

#[test]
fn body_hash_differs_for_different_bodies() {
    let a = b"func Foo() {}";
    let b = b"func Foo() { return 1 }";
    let syms_a = extract("a.go", a).unwrap();
    let syms_b = extract("b.go", b).unwrap();
    assert_ne!(syms_a[0].body_hash, syms_b[0].body_hash);
}

#[test]
fn unknown_extension_returns_empty() {
    let syms = extract("file.xyz", b"some content").unwrap();
    assert!(syms.is_empty());
}

#[test]
fn go_line_numbers_are_one_based() {
    let syms = extract("main.go", GO_SOURCE).unwrap();
    let hello = syms.iter().find(|s| s.name == "Hello").unwrap();
    assert_eq!((hello.start_line, hello.end_line), (4, 6));
}

#[test]
fn same_body_same_hash_and_file_without_extension_is_empty() {
    let a = extract("a.go", b"func Foo() {}").unwrap();
    let b = extract("b.go", b"\n\nfunc Foo() {}").unwrap();
    assert_eq!(a[0].body_hash, b[0].body_hash);
    assert!(extract("Makefile", b"all:").unwrap().is_empty());
}

#[test]
fn compute_symbols_diffs_both_versions() {
    let base = b"package main\nfunc A() {}\nfunc B() {}\n";
    let head = b"package main\nfunc A() { x() }\nfunc C() { y() }\n";
    let d = compute_symbols("m.go", base, head).unwrap();
    let status = |n: &str| d.iter().find(|s| s.name == n).unwrap().status.clone();
    assert_eq!(status("A"), SymbolStatus::Modified);
    assert_eq!(status("B"), SymbolStatus::Removed);
    assert_eq!(status("C"), SymbolStatus::Added);
    assert!(compute_symbols("m.txt", b"x", b"y").unwrap().is_empty());
}

#[test]
fn extracts_functions_and_types() {
    let src = b"
package main

type Config struct { Port int }

func New(port int) *Config {
    return &Config{Port: port}
}
";
    let syms = extract("main.go", src).unwrap();
    let n = names(&syms);
    assert!(n.contains(&"Config"), "missing Config: {n:?}");
    assert!(n.contains(&"New"), "missing New: {n:?}");
    assert_eq!(kind_of(&syms, "Config"), SymbolKind::Ty);
    assert_eq!(kind_of(&syms, "New"), SymbolKind::Fn);
}

#[test]
fn extracts_method() {
    let src = b"
package main

type Server struct{}

func (s *Server) Start() error { return nil }
";
    let syms = extract("server.go", src).unwrap();
    assert!(names(&syms).contains(&"Start"));
    assert_eq!(kind_of(&syms, "Start"), SymbolKind::Fn);
}

#[test]
fn extracts_interface() {
    let src = b"
package main

type Writer interface {
    Write(p []byte) (int, error)
}
";
    let syms = extract("iface.go", src).unwrap();
    assert!(names(&syms).contains(&"Writer"));
    assert_eq!(kind_of(&syms, "Writer"), SymbolKind::Ty);
}

#[test]
fn extracts_const_and_var() {
    let src = b"
package main

const MaxRetries = 3
var DefaultTimeout = 30
";
    let syms = extract("config.go", src).unwrap();
    let n = names(&syms);
    assert!(n.contains(&"MaxRetries"), "missing MaxRetries: {n:?}");
    assert!(n.contains(&"DefaultTimeout"), "missing DefaultTimeout: {n:?}");
    assert_eq!(kind_of(&syms, "MaxRetries"), SymbolKind::Co);
    assert_eq!(kind_of(&syms, "DefaultTimeout"), SymbolKind::Co);
}

#[test]
fn extracts_grouped_const() {
    let src = b"
package main

const (
\tA = 1
\tB = 2
)
";
    let syms = extract("consts.go", src).unwrap();
    let n = names(&syms);
    assert!(n.contains(&"A"), "missing A: {n:?}");
    assert!(n.contains(&"B"), "missing B: {n:?}");
}

#[test]
fn extracts_def_and_defp() {
    let src = b"
defmodule MyApp.Greeter do
  def greet(name) do
    \"Hello #{name}\"
  end

  defp format(s) do
    String.upcase(s)
  end
end
";
    let syms = extract("greeter.ex", src).unwrap();
    let n = names(&syms);
    assert!(n.contains(&"MyApp.Greeter"), "missing module: {n:?}");
    assert!(n.contains(&"greet"), "missing greet: {n:?}");
    assert!(n.contains(&"format"), "missing format: {n:?}");
    assert_eq!(kind_of(&syms, "MyApp.Greeter"), SymbolKind::Mo);
    assert_eq!(kind_of(&syms, "greet"), SymbolKind::Fn);
    assert_eq!(kind_of(&syms, "format"), SymbolKind::Fn);
}

#[test]
fn extracts_defprotocol_and_defimpl() {
    let src = b"
defprotocol Stringify do
  def to_string(t)
end

defimpl Stringify, for: Integer do
  def to_string(i), do: Integer.to_string(i)
end
";
    let syms = extract("stringify.ex", src).unwrap();
    assert!(syms.iter().any(|s| s.name == "Stringify" && s.kind == SymbolKind::If), "expected Stringify as If (protocol): {syms:?}");
    assert!(syms.iter().any(|s| s.name == "Stringify" && s.kind == SymbolKind::Im), "expected Stringify as Im (impl): {syms:?}");
}

#[test]
fn extracts_defmacro() {
    let src = b"
defmodule MyMacros do
  defmacro unless(condition, do: block) do
    quote do
      if !unquote(condition), do: unquote(block)
    end
  end
end
";
    let syms = extract("macros.ex", src).unwrap();
    assert!(names(&syms).contains(&"unless"));
    assert_eq!(kind_of(&syms, "unless"), SymbolKind::Ma);
}

#[test]
fn ignores_non_definition_calls() {
    let src = b"
IO.puts(\"hello\")
Enum.map([1, 2, 3], fn x -> x * 2 end)
";
    let syms = extract("script.exs", src).unwrap();
    assert!(syms.is_empty(), "expected no symbols, got: {syms:?}");
}

#[test]
fn extracts_function() {
    let src = b"pub fn greet(name: String) -> String { \"Hello \" <> name }";
    let syms = extract("greeter.gleam", src).unwrap();
    assert!(names(&syms).contains(&"greet"));
    assert_eq!(kind_of(&syms, "greet"), SymbolKind::Fn);
}

#[test]
fn extracts_type_definition() {
    let syms = extract("color.gleam", b"pub type Color { Red Green Blue }").unwrap();
    assert!(names(&syms).contains(&"Color"));
    assert_eq!(kind_of(&syms, "Color"), SymbolKind::En);
}

#[test]
fn gleam_extracts_type_alias() {
    let syms = extract("alias.gleam", b"pub type Name = String").unwrap();
    assert!(names(&syms).contains(&"Name"));
    assert_eq!(kind_of(&syms, "Name"), SymbolKind::Ty);
}

#[test]
fn extracts_constant() {
    let syms = extract("consts.gleam", b"pub const max_size: Int = 100").unwrap();
    assert!(names(&syms).contains(&"max_size"));
    assert_eq!(kind_of(&syms, "max_size"), SymbolKind::Co);
}

#[test]
fn extracts_function_and_class() {
    let src = b"
def greet(name):
    return 'hello ' + name

class Greeter:
    def greet(self):
        pass
";
    let syms = extract("greeter.py", src).unwrap();
    let n = names(&syms);
    assert!(n.contains(&"greet"), "missing greet: {n:?}");
    assert!(n.contains(&"Greeter"), "missing Greeter: {n:?}");
    assert!(syms.iter().any(|s| s.name == "greet" && s.kind == SymbolKind::Fn), "greet should be Fn");
    assert_eq!(kind_of(&syms, "Greeter"), SymbolKind::Ty);
}

#[test]
fn extracts_decorated_function_and_class() {
    let src = b"
@staticmethod
def greet():
    pass

@dataclass
class Point:
    x: int
";
    let syms = extract("stuff.py", src).unwrap();
    let n = names(&syms);
    assert!(n.contains(&"greet"), "missing greet: {n:?}");
    assert!(n.contains(&"Point"), "missing Point: {n:?}");
    assert_eq!(kind_of(&syms, "greet"), SymbolKind::Fn);
    assert_eq!(kind_of(&syms, "Point"), SymbolKind::Ty);
}

#[test]
fn extracts_fn_struct_enum_trait_impl() {
    let src = b"
struct Config { port: u16 }

enum Mode { Fast, Slow }

trait Runner {
    fn run(&self);
}

impl Config {
    fn new(port: u16) -> Self {
        Config { port }
    }
}

fn main() {}

macro_rules! my_macro {
    () => {};
}
";
    let syms = extract("main.rs", src).unwrap();
    let n = names(&syms);
    assert!(n.contains(&"Config"), "missing Config: {n:?}");
    assert!(n.contains(&"Mode"), "missing Mode: {n:?}");
    assert!(n.contains(&"Runner"), "missing Runner: {n:?}");
    assert!(n.contains(&"new"), "missing new: {n:?}");
    assert!(n.contains(&"main"), "missing main: {n:?}");
    assert!(n.contains(&"my_macro"), "missing my_macro: {n:?}");
    assert_eq!(kind_of(&syms, "Config"), SymbolKind::Ty);
    assert_eq!(kind_of(&syms, "Mode"), SymbolKind::En);
    assert_eq!(kind_of(&syms, "Runner"), SymbolKind::If);
    assert_eq!(kind_of(&syms, "main"), SymbolKind::Fn);
    assert_eq!(kind_of(&syms, "my_macro"), SymbolKind::Ma);
}

#[test]
fn extracts_const_and_static() {
    let src = b"
const MAX: usize = 100;
static GREETING: &str = \"hello\";
";
    let syms = extract("lib.rs", src).unwrap();
    let n = names(&syms);
    assert!(n.contains(&"MAX"), "missing MAX: {n:?}");
    assert!(n.contains(&"GREETING"), "missing GREETING: {n:?}");
    assert_eq!(kind_of(&syms, "MAX"), SymbolKind::Co);
    assert_eq!(kind_of(&syms, "GREETING"), SymbolKind::Co);
}

#[test]
fn extracts_generic_impl() {
    let src = b"
struct Wrapper<T>(T);
impl<T> Wrapper<T> {
    fn get(&self) -> &T { &self.0 }
}
";
    let syms = extract("lib.rs", src).unwrap();
    assert!(names(&syms).contains(&"Wrapper"));
    assert!(syms.iter().any(|s| s.name == "Wrapper" && s.kind == SymbolKind::Im), "expected Wrapper with Im kind: {syms:?}");
}

#[test]
fn rust_extracts_type_alias() {
    let syms = extract("units.rs", b"type Meters = f64;").unwrap();
    assert!(names(&syms).contains(&"Meters"));
    assert_eq!(kind_of(&syms, "Meters"), SymbolKind::Ty);
}

#[test]
fn extracts_mod() {
    let src = b"
mod utils {
    pub fn helper() {}
}
";
    let syms = extract("lib.rs", src).unwrap();
    assert!(names(&syms).contains(&"utils"));
    assert_eq!(kind_of(&syms, "utils"), SymbolKind::Mo);
}

#[test]
fn extracts_function_class_interface() {
    let src = b"
function greet(name: string): string { return name; }

class Greeter { greet(): void {} }

interface Printable { print(): void; }
";
    let syms = extract("greeter.ts", src).unwrap();
    let n = names(&syms);
    assert!(n.contains(&"greet"), "missing greet: {n:?}");
    assert!(n.contains(&"Greeter"), "missing Greeter: {n:?}");
    assert!(n.contains(&"Printable"), "missing Printable: {n:?}");
    assert_eq!(kind_of(&syms, "greet"), SymbolKind::Fn);
    assert_eq!(kind_of(&syms, "Greeter"), SymbolKind::Ty);
    assert_eq!(kind_of(&syms, "Printable"), SymbolKind::If);
}

#[test]
fn extracts_type_alias_and_enum() {
    let src = b"
type Name = string;
enum Color { Red, Green, Blue }
";
    let syms = extract("types.ts", src).unwrap();
    let n = names(&syms);
    assert!(n.contains(&"Name"), "missing Name: {n:?}");
    assert!(n.contains(&"Color"), "missing Color: {n:?}");
    assert_eq!(kind_of(&syms, "Name"), SymbolKind::Ty);
    assert_eq!(kind_of(&syms, "Color"), SymbolKind::En);
}

#[test]
fn extracts_arrow_function() {
    let src = b"
const greet = (name: string): string => name;
const MAX = 100;
";
    let syms = extract("arrows.ts", src).unwrap();
    let n = names(&syms);
    assert!(n.contains(&"greet"), "missing greet: {n:?}");
    assert!(!n.contains(&"MAX"), "MAX should not be extracted: {n:?}");
    assert_eq!(kind_of(&syms, "greet"), SymbolKind::Fn);
}

#[test]
fn extracts_exported_declarations() {
    let src = b"
export function foo() {}
export class Bar {}
export const baz = () => {};
";
    let syms = extract("mod.ts", src).unwrap();
    let n = names(&syms);
    assert!(n.contains(&"foo"), "missing foo: {n:?}");
    assert!(n.contains(&"Bar"), "missing Bar: {n:?}");
    assert!(n.contains(&"baz"), "missing baz: {n:?}");
    assert_eq!(kind_of(&syms, "foo"), SymbolKind::Fn);
    assert_eq!(kind_of(&syms, "Bar"), SymbolKind::Ty);
    assert_eq!(kind_of(&syms, "baz"), SymbolKind::Fn);
}

#[test]
fn tsx_extracts_component() {
    let src = b"
function App(): JSX.Element { return <div />; }

const Button = (props: ButtonProps) => <button>{props.label}</button>;

interface ButtonProps { label: string; }
";
    let syms = extract("App.tsx", src).unwrap();
    let n = names(&syms);
    assert!(n.contains(&"App"), "missing App: {n:?}");
    assert!(n.contains(&"Button"), "missing Button: {n:?}");
    assert!(n.contains(&"ButtonProps"), "missing ButtonProps: {n:?}");
    assert_eq!(kind_of(&syms, "App"), SymbolKind::Fn);
    assert_eq!(kind_of(&syms, "Button"), SymbolKind::Fn);
}

#[test]
fn elixir_if_call_is_not_a_symbol() {
    let syms = extract("check.ex", b"if check(x) do\n  :ok\nend\n").unwrap();
    assert!(syms.is_empty(), "{syms:?}");
}

#[test]
fn renamed_function_is_reported_renamed() {
    let base = b"package m\n\nfunc Foo() int {\n\treturn 1\n}\n";
    let head = b"package m\n\nfunc Bar() int {\n\treturn 1\n}\n";
    let d = compute_symbols("m.go", base, head).unwrap();
    assert_eq!(d.len(), 1, "{d:?}");
    assert_eq!(d[0].name, "Foo");
    assert_eq!(d[0].status, SymbolStatus::Renamed { new_name: "Bar".into() });
}

#[test]
fn body_hash_ignores_the_name_only() {
    let a = extract("a.go", b"func Foo() int { return 1 }\n").unwrap();
    let b = extract("a.go", b"func Bar() int { return 1 }\n").unwrap();
    let c = extract("a.go", b"func Foo() int { return 2 }\n").unwrap();
    assert_eq!(a[0].body_hash, b[0].body_hash);
    assert_ne!(a[0].body_hash, c[0].body_hash);
}
