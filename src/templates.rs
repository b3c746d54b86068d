use vstd::prelude::*;
use vstd::string::{StringExecFns, StringSliceAdditionalSpecFns};

verus! {

/// What a generated project is built from.
pub struct ProjectConfig {
    pub name: String,
    pub channel: String,
    pub data_size: usize,
    pub cmd_slots: usize,
    pub max_clients: usize,
    pub output_dir: String,
}

/// The languages a project can be generated for.
#[derive(Clone, Copy, PartialEq, Eq, Debug, Structural)]
pub enum Language {
    C,
    Cpp,
    Rust,
    Python,
    Go,
    Zig,
    Nim,
    Flutter,
}

/// Which text a generated file holds.
#[derive(Clone, Copy, PartialEq, Eq, Debug, Structural)]
pub enum Template {
    /// The shared protocol definitions.
    Protocol,
    /// The language's binding to the channel library.
    Binding,
    DaemonMain,
    DaemonMakefile,
    ClientMain,
    ClientMakefile,
    /// The package manifest.
    Manifest,
    BuildScript,
    CargoConfig,
    /// The top-level Makefile.
    Makefile,
    Readme,
}

/// One file of a generated project: where it goes and what it holds.
pub struct ProjectFile {
    pub path: String,
    pub template: Template,
}

/// The directories a project needs and the files it consists of.
pub struct ProjectPlan {
    pub dirs: Vec<String>,
    pub files: Vec<ProjectFile>,
}

impl ProjectPlan {
    /// The directory paths.
    pub open spec fn dir_paths(&self) -> Seq<Seq<char>> {
        self.dirs@.map_values(|d: String| d@)
    }

    /// The files as (path, template) pairs.
    pub open spec fn file_entries(&self) -> Seq<(Seq<char>, Template)> {
        self.files@.map_values(|f: ProjectFile| (f.path@, f.template))
    }
}

/// `name` with every `-` replaced by `_`.
pub open spec fn snake_of(name: Seq<char>) -> Seq<char> {
    name.map_values(|c: char| if c == '-' {
        '_'
    } else {
        c
    })
}

/// The directories of a `lang` project under `b`.
pub open spec fn spec_dirs(lang: Language, b: Seq<char>) -> Seq<Seq<char>> {
    match lang {
        Language::C | Language::Cpp => seq![b + "/shared"@, b + "/daemon/src"@, b + "/client/src"@],
        Language::Rust => seq![b + "/src/bin"@],
        Language::Python => seq![b + "/lib"@, b + "/daemon/src"@, b + "/shared"@],
        Language::Go => seq![b + "/daemon"@, b + "/client"@, b + "/venom"@],
        Language::Zig | Language::Nim => seq![b + "/src"@],
        Language::Flutter => seq![b + "/lib"@, b + "/bin"@, b + "/native"@, b + "/daemon/src"@],
    }
}

/// The files of a `lang` project named `name` under `b`, in the order they
/// are written.
pub open spec fn spec_files(lang: Language, b: Seq<char>, name: Seq<char>) -> Seq<
    (Seq<char>, Template),
> {
    match lang {
        Language::C => seq![
            (b + "/shared/protocol.h"@, Template::Protocol),
            (b + "/daemon/src/main.c"@, Template::DaemonMain),
            (b + "/daemon/Makefile"@, Template::DaemonMakefile),
            (b + "/client/src/main.c"@, Template::ClientMain),
            (b + "/client/Makefile"@, Template::ClientMakefile),
            (b + "/README.md"@, Template::Readme),
        ],
        Language::Cpp => seq![
            (b + "/shared/protocol.hpp"@, Template::Protocol),
            (b + "/shared/venom.hpp"@, Template::Binding),
            (b + "/daemon/src/main.cpp"@, Template::DaemonMain),
            (b + "/daemon/Makefile"@, Template::DaemonMakefile),
            (b + "/client/src/main.cpp"@, Template::ClientMain),
            (b + "/client/Makefile"@, Template::ClientMakefile),
            (b + "/README.md"@, Template::Readme),
        ],
        Language::Rust => seq![
            (b + "/Cargo.toml"@, Template::Manifest),
            (b + "/build.rs"@, Template::BuildScript),
            (b + "/.cargo/config.toml"@, Template::CargoConfig),
            (b + "/src/lib.rs"@, Template::Binding),
            (b + "/src/bin/daemon.rs"@, Template::DaemonMain),
            (b + "/src/bin/client.rs"@, Template::ClientMain),
            (b + "/README.md"@, Template::Readme),
        ],
        Language::Python => seq![
            (b + "/shared/protocol.h"@, Template::Protocol),
            (b + "/daemon/src/main.c"@, Template::DaemonMain),
            (b + "/daemon/Makefile"@, Template::DaemonMakefile),
            (b + "/venom_binding.py"@, Template::Binding),
            (b + "/client.py"@, Template::ClientMain),
            (b + "/README.md"@, Template::Readme),
        ],
        Language::Go => seq![
            (b + "/daemon/main.go"@, Template::DaemonMain),
            (b + "/client/main.go"@, Template::ClientMain),
            (b + "/venom/venom.go"@, Template::Binding),
            (b + "/go.mod"@, Template::Manifest),
            (b + "/Makefile"@, Template::Makefile),
            (b + "/README.md"@, Template::Readme),
        ],
        Language::Zig => seq![
            (b + "/src/venom.zig"@, Template::Binding),
            (b + "/src/daemon.zig"@, Template::DaemonMain),
            (b + "/src/client.zig"@, Template::ClientMain),
            (b + "/build.zig"@, Template::BuildScript),
            (b + "/README.md"@, Template::Readme),
        ],
        Language::Nim => seq![
            (b + "/src/venom.nim"@, Template::Binding),
            (b + "/src/daemon.nim"@, Template::DaemonMain),
            (b + "/src/client.nim"@, Template::ClientMain),
            (b + "/"@ + name + ".nimble"@, Template::Manifest),
            (b + "/Makefile"@, Template::Makefile),
            (b + "/README.md"@, Template::Readme),
        ],
        Language::Flutter => seq![
            (b + "/lib/venom_binding.dart"@, Template::Binding),
            (b + "/bin/"@ + snake_of(name) + ".dart"@, Template::ClientMain),
            (b + "/pubspec.yaml"@, Template::Manifest),
            (b + "/daemon/src/main.c"@, Template::DaemonMain),
            (b + "/daemon/Makefile"@, Template::DaemonMakefile),
            (b + "/daemon/protocol.h"@, Template::Protocol),
            (b + "/README.md"@, Template::Readme),
        ],
    }
}

/// Relies on `str::replace`: every occurrence of the pattern `-` is
/// replaced by `_`, and every other character is kept.
#[verifier::external_body]
fn dashes_to_underscores(s: &str) -> (r: String)
    ensures
        r@ == snake_of(s@),
{
    s.replace("-", "_")
}

/// Appends the directory `base` + `rel`.
fn add_dir(dirs: &mut Vec<String>, base: &String, rel: &str)
    ensures
        final(dirs)@.map_values(|d: String| d@) == old(dirs)@.map_values(|d: String| d@).push(
            base@ + rel@,
        ),
{
    dirs.push(base.clone().concat(rel));
    assert(dirs@.map_values(|d: String| d@) =~= old(dirs)@.map_values(|d: String| d@).push(
        base@ + rel@,
    ));
}

/// Appends the file at `base` + `rel` holding `template`.
fn add_file(files: &mut Vec<ProjectFile>, base: &String, rel: &str, template: Template)
    ensures
        final(files)@.map_values(|f: ProjectFile| (f.path@, f.template)) == old(
            files,
        )@.map_values(|f: ProjectFile| (f.path@, f.template)).push((base@ + rel@, template)),
{
    files.push(ProjectFile { path: base.clone().concat(rel), template });
    assert(files@.map_values(|f: ProjectFile| (f.path@, f.template)) =~= old(
        files,
    )@.map_values(|f: ProjectFile| (f.path@, f.template)).push((base@ + rel@, template)));
}

/// Lays out the project `config` describes in `lang`: the directories to
/// create and the files to write under `config.output_dir`, each tagged with
/// the template its text is rendered from.
pub fn generate(config: &ProjectConfig, lang: Language) -> (r: ProjectPlan)
    ensures
        r.dir_paths() == spec_dirs(lang, config.output_dir@),
        r.file_entries() == spec_files(lang, config.output_dir@, config.name@),
{
    let b = &config.output_dir;
    let mut dirs: Vec<String> = Vec::new();
    let mut files: Vec<ProjectFile> = Vec::new();
    match lang {
        Language::C => {
            add_dir(&mut dirs, b, "/shared");
            add_dir(&mut dirs, b, "/daemon/src");
            add_dir(&mut dirs, b, "/client/src");
            add_file(&mut files, b, "/shared/protocol.h", Template::Protocol);
            add_file(&mut files, b, "/daemon/src/main.c", Template::DaemonMain);
            add_file(&mut files, b, "/daemon/Makefile", Template::DaemonMakefile);
            add_file(&mut files, b, "/client/src/main.c", Template::ClientMain);
            add_file(&mut files, b, "/client/Makefile", Template::ClientMakefile);
            add_file(&mut files, b, "/README.md", Template::Readme);
        },
        Language::Cpp => {
            add_dir(&mut dirs, b, "/shared");
            add_dir(&mut dirs, b, "/daemon/src");
            add_dir(&mut dirs, b, "/client/src");
            add_file(&mut files, b, "/shared/protocol.hpp", Template::Protocol);
            add_file(&mut files, b, "/shared/venom.hpp", Template::Binding);
            add_file(&mut files, b, "/daemon/src/main.cpp", Template::DaemonMain);
            add_file(&mut files, b, "/daemon/Makefile", Template::DaemonMakefile);
            add_file(&mut files, b, "/client/src/main.cpp", Template::ClientMain);
            add_file(&mut files, b, "/client/Makefile", Template::ClientMakefile);
            add_file(&mut files, b, "/README.md", Template::Readme);
        },
        Language::Rust => {
            add_dir(&mut dirs, b, "/src/bin");
            add_file(&mut files, b, "/Cargo.toml", Template::Manifest);
            add_file(&mut files, b, "/build.rs", Template::BuildScript);
            add_file(&mut files, b, "/.cargo/config.toml", Template::CargoConfig);
            add_file(&mut files, b, "/src/lib.rs", Template::Binding);
            add_file(&mut files, b, "/src/bin/daemon.rs", Template::DaemonMain);
            add_file(&mut files, b, "/src/bin/client.rs", Template::ClientMain);
            add_file(&mut files, b, "/README.md", Template::Readme);
        },
        Language::Python => {
            add_dir(&mut dirs, b, "/lib");
            add_dir(&mut dirs, b, "/daemon/src");
            add_dir(&mut dirs, b, "/shared");
            add_file(&mut files, b, "/shared/protocol.h", Template::Protocol);
            add_file(&mut files, b, "/daemon/src/main.c", Template::DaemonMain);
            add_file(&mut files, b, "/daemon/Makefile", Template::DaemonMakefile);
            add_file(&mut files, b, "/venom_binding.py", Template::Binding);
            add_file(&mut files, b, "/client.py", Template::ClientMain);
            add_file(&mut files, b, "/README.md", Template::Readme);
        },
        Language::Go => {
            add_dir(&mut dirs, b, "/daemon");
            add_dir(&mut dirs, b, "/client");
            add_dir(&mut dirs, b, "/venom");
            add_file(&mut files, b, "/daemon/main.go", Template::DaemonMain);
            add_file(&mut files, b, "/client/main.go", Template::ClientMain);
            add_file(&mut files, b, "/venom/venom.go", Template::Binding);
            add_file(&mut files, b, "/go.mod", Template::Manifest);
            add_file(&mut files, b, "/Makefile", Template::Makefile);
            add_file(&mut files, b, "/README.md", Template::Readme);
        },
        Language::Zig => {
            add_dir(&mut dirs, b, "/src");
            add_file(&mut files, b, "/src/venom.zig", Template::Binding);
            add_file(&mut files, b, "/src/daemon.zig", Template::DaemonMain);
            add_file(&mut files, b, "/src/client.zig", Template::ClientMain);
            add_file(&mut files, b, "/build.zig", Template::BuildScript);
            add_file(&mut files, b, "/README.md", Template::Readme);
        },
        Language::Nim => {
            add_dir(&mut dirs, b, "/src");
            add_file(&mut files, b, "/src/venom.nim", Template::Binding);
            add_file(&mut files, b, "/src/daemon.nim", Template::DaemonMain);
            add_file(&mut files, b, "/src/client.nim", Template::ClientMain);
            let manifest = String::from_str("/").concat(config.name.as_str()).concat(".nimble");
            add_file(&mut files, b, manifest.as_str(), Template::Manifest);
            add_file(&mut files, b, "/Makefile", Template::Makefile);
            add_file(&mut files, b, "/README.md", Template::Readme);
            assert(b@ + manifest@ =~= b@ + "/"@ + config.name@ + ".nimble"@);
        },
        Language::Flutter => {
            add_dir(&mut dirs, b, "/lib");
            add_dir(&mut dirs, b, "/bin");
            add_dir(&mut dirs, b, "/native");
            add_dir(&mut dirs, b, "/daemon/src");
            add_file(&mut files, b, "/lib/venom_binding.dart", Template::Binding);
            let snake = dashes_to_underscores(config.name.as_str());
            let client = String::from_str("/bin/").concat(snake.as_str()).concat(".dart");
            add_file(&mut files, b, client.as_str(), Template::ClientMain);
            add_file(&mut files, b, "/pubspec.yaml", Template::Manifest);
            add_file(&mut files, b, "/daemon/src/main.c", Template::DaemonMain);
            add_file(&mut files, b, "/daemon/Makefile", Template::DaemonMakefile);
            add_file(&mut files, b, "/daemon/protocol.h", Template::Protocol);
            add_file(&mut files, b, "/README.md", Template::Readme);
            assert(b@ + client@ =~= b@ + "/bin/"@ + snake_of(config.name@) + ".dart"@);
        },
    }
    let r = ProjectPlan { dirs, files };
    assert(r.dir_paths() =~= spec_dirs(lang, config.output_dir@));
    assert(r.file_entries() =~= spec_files(lang, config.output_dir@, config.name@));
    r
}

/// The channel checksum stamped into generated protocol headers: the bytes
/// of the channel name added, wrapping, onto `0x564E4F`.
pub open spec fn spec_magic(bytes: Seq<u8>) -> u32
    decreases bytes.len(),
{
    if bytes.len() == 0 {
        0x564E4Fu32
    } else {
        let acc = spec_magic(bytes.drop_last());
        ((acc as int + bytes.last() as int) % 0x1_0000_0000) as u32
    }
}

/// The channel checksum of `channel` (see `spec_magic`).
pub fn magic(channel: &str) -> (r: u32)
    ensures
        r == spec_magic(channel.spec_bytes()),
{
    let bytes = channel.as_bytes();
    let mut acc: u32 = 0x564E4F;
    let mut i: usize = 0;
    while i < bytes.len()
        invariant
            i <= bytes@.len(),
            acc == spec_magic(bytes@.subrange(0, i as int)),
        decreases bytes@.len() - i,
    {
        assert(bytes@.subrange(0, i + 1).drop_last() =~= bytes@.subrange(0, i as int));
        acc = acc.wrapping_add(bytes[i] as u32);
        i = i + 1;
    }
    assert(bytes@.subrange(0, bytes@.len() as int) =~= bytes@);
    acc
}

} // verus!
