//! Build and cache directories (`node_modules`, `target`, `__pycache__`, ...): which names are
//! registered, and the checks that confirm such a directory from the files around it.

use vstd::prelude::*;
use crate::config::accessors::strs;
use crate::text::{chars_of, rfind_char, rfind_char_spec, slice_chars, split_seq, str_eq, string_of, owned, trim_end_set, utf8_lossy};

verus! {

/// Directory names never walked into or changed.
pub open spec fn protected_dir_name(name: Seq<char>) -> bool {
    name == ".git"@ || name == ".svn"@ || name == ".hg"@ || name == ".bzr"@
}

/// Whether the name is one of the version-control directories (see `protected_dir_name`).
pub fn is_protected_dir_name(name: &str) -> (r: bool)
    ensures
        r == protected_dir_name(name@),
{
    str_eq(name, ".git") || str_eq(name, ".svn") || str_eq(name, ".hg") || str_eq(name, ".bzr")
}

/// A check that confirms a candidate directory.
pub enum Validator {
    /// A regular file with one of the names exists in the parent directory.
    ParentHasAny(Vec<&'static str>),
    /// The directory holds a regular file with one of the names.
    DirContainsAny(Vec<&'static str>),
    /// The directory holds a subdirectory with one of the names.
    DirContainsDirAny(Vec<&'static str>),
    /// The parent directory holds a `.py` file.
    ParentHasPyFiles,
}

/// A check as plain values.
pub enum CheckView {
    ParentHasAny(Seq<Seq<char>>),
    DirContainsAny(Seq<Seq<char>>),
    DirContainsDirAny(Seq<Seq<char>>),
    ParentHasPyFiles,
}

pub open spec fn names_view(v: Seq<&'static str>) -> Seq<Seq<char>> {
    v.map_values(|s: &str| s@)
}

impl Validator {
    pub open spec fn view(self) -> CheckView {
        match self {
            Validator::ParentHasAny(n) => CheckView::ParentHasAny(names_view(n@)),
            Validator::DirContainsAny(n) => CheckView::DirContainsAny(names_view(n@)),
            Validator::DirContainsDirAny(n) => CheckView::DirContainsDirAny(names_view(n@)),
            Validator::ParentHasPyFiles => CheckView::ParentHasPyFiles,
        }
    }
}

/// The checks that confirm a directory of this name is a build or cache directory (at
/// least one must pass); none for a name that is not registered.
pub open spec fn validators_spec(name: Seq<char>) -> Option<Seq<CheckView>> {
    if name == "node_modules"@ {
        Some(seq![CheckView::ParentHasAny(seq!["package.json"@, "package-lock.json"@, "yarn.lock"@, "pnpm-lock.yaml"@, "bun.lockb"@, "bun.lock"@])])
    } else if name == "dist"@ {
        Some(seq![CheckView::ParentHasAny(seq!["package.json"@, "package-lock.json"@, "yarn.lock"@, "pnpm-lock.yaml"@, "bun.lockb"@, "bun.lock"@]), CheckView::ParentHasAny(seq!["go.mod"@]), CheckView::ParentHasAny(seq!["Cargo.toml"@])])
    } else if name == "out"@ {
        Some(seq![CheckView::ParentHasAny(seq!["next.config.js"@, "next.config.ts"@, "next.config.mjs"@, "next.config.cjs"@]), CheckView::ParentHasAny(seq!["package.json"@])])
    } else if name == "build"@ {
        Some(seq![CheckView::ParentHasAny(seq!["package.json"@]), CheckView::ParentHasAny(seq!["Cargo.toml"@]), CheckView::ParentHasAny(seq!["build.gradle"@, "build.gradle.kts"@, "settings.gradle"@, "settings.gradle.kts"@, "gradlew"@, "gradlew.bat"@]), CheckView::ParentHasAny(seq!["pubspec.yaml"@]), CheckView::ParentHasAny(seq!["wails.json"@]), CheckView::ParentHasAny(seq!["CMakeLists.txt"@]), CheckView::DirContainsAny(seq!["CMakeCache.txt"@, "build.ninja"@])])
    } else if name == "target"@ {
        Some(seq![CheckView::ParentHasAny(seq!["Cargo.toml"@]), CheckView::ParentHasAny(seq!["pom.xml"@]), CheckView::ParentHasAny(seq!["build.sbt"@])])
    } else if name == "vendor"@ {
        Some(seq![CheckView::ParentHasAny(seq!["go.mod"@]), CheckView::ParentHasAny(seq!["Cargo.toml"@]), CheckView::ParentHasAny(seq!["composer.json"@]), CheckView::ParentHasAny(seq!["Gemfile"@]), CheckView::ParentHasAny(seq!["package.json"@])])
    } else if name == ".gradle"@ {
        Some(seq![CheckView::ParentHasAny(seq!["build.gradle"@, "build.gradle.kts"@, "settings.gradle"@, "settings.gradle.kts"@, "gradlew"@, "gradlew.bat"@])])
    } else if name == ".next"@ {
        Some(seq![CheckView::ParentHasAny(seq!["next.config.js"@, "next.config.ts"@, "next.config.mjs"@, "next.config.cjs"@]), CheckView::ParentHasAny(seq!["package.json"@])])
    } else if name == ".nuxt"@ {
        Some(seq![CheckView::ParentHasAny(seq!["nuxt.config.js"@, "nuxt.config.ts"@, "nuxt.config.mjs"@])])
    } else if name == ".output"@ {
        Some(seq![CheckView::ParentHasAny(seq!["nuxt.config.js"@, "nuxt.config.ts"@, "nuxt.config.mjs"@])])
    } else if name == ".svelte-kit"@ {
        Some(seq![CheckView::ParentHasAny(seq!["svelte.config.js"@, "svelte.config.ts"@, "svelte.config.cjs"@])])
    } else if name == ".yarn"@ {
        Some(seq![CheckView::ParentHasAny(seq!["yarn.lock"@]), CheckView::ParentHasAny(seq!["package.json"@])])
    } else if name == ".bun"@ {
        Some(seq![CheckView::ParentHasAny(seq!["bun.lockb"@, "bun.lock"@]), CheckView::ParentHasAny(seq!["package.json"@])])
    } else if name == "__pycache__"@ {
        Some(seq![CheckView::ParentHasPyFiles, CheckView::ParentHasAny(seq!["pyproject.toml"@, "setup.py"@, "setup.cfg"@, "requirements.txt"@])])
    } else if name == ".pytest_cache"@ {
        Some(seq![CheckView::ParentHasAny(seq!["pytest.ini"@, "pyproject.toml"@, "setup.cfg"@, "tox.ini"@, "requirements.txt"@, "conftest.py"@])])
    } else if name == ".mypy_cache"@ {
        Some(seq![CheckView::ParentHasAny(seq!["mypy.ini"@, ".mypy.ini"@, "pyproject.toml"@, "setup.cfg"@])])
    } else if name == ".ruff_cache"@ {
        Some(seq![CheckView::ParentHasAny(seq!["ruff.toml"@, "pyproject.toml"@])])
    } else if name == ".turbo"@ {
        Some(seq![CheckView::ParentHasAny(seq!["turbo.json"@]), CheckView::ParentHasAny(seq!["package.json"@])])
    } else if name == ".parcel-cache"@ {
        Some(seq![CheckView::ParentHasAny(seq!["package.json"@])])
    } else if name == ".venv"@ {
        Some(seq![CheckView::DirContainsAny(seq!["pyvenv.cfg"@])])
    } else if name == ".tox"@ {
        Some(seq![CheckView::ParentHasAny(seq!["tox.ini"@, "setup.cfg"@, "pyproject.toml"@])])
    } else if name == ".nox"@ {
        Some(seq![CheckView::ParentHasAny(seq!["noxfile.py"@])])
    } else if name == ".embuild"@ {
        Some(seq![CheckView::ParentHasAny(seq!["sdkconfig.defaults"@, "sdkconfig"@, "idf_component.yml"@]), CheckView::DirContainsDirAny(seq!["espressif"@])])
    } else if name == ".dart_tool"@ {
        Some(seq![CheckView::ParentHasAny(seq!["pubspec.yaml"@]), CheckView::DirContainsAny(seq!["package_config.json"@])])
    } else {
        None
    }
}

/// The checks of a directory name (see `validators_spec`).
pub fn dir_validators(name: &str) -> (r: Option<Vec<Validator>>)
    ensures
        match validators_spec(name@) {
            None => r is None,
            Some(s) => r matches Some(v) && v@.map_values(|x: Validator| x.view()) == s,
        },
{
    if str_eq(name, "node_modules") {
        let n0: Vec<&'static str> = vec!["package.json", "package-lock.json", "yarn.lock", "pnpm-lock.yaml", "bun.lockb", "bun.lock"];
        assert(names_view(n0@) =~= seq!["package.json"@, "package-lock.json"@, "yarn.lock"@, "pnpm-lock.yaml"@, "bun.lockb"@, "bun.lock"@]);
        let v0 = Validator::ParentHasAny(n0);
        let v: Vec<Validator> = vec![v0];
        assert(v@.map_values(|x: Validator| x.view()) =~= validators_spec(name@).unwrap());
        Some(v)
    } else if str_eq(name, "dist") {
        let n0: Vec<&'static str> = vec!["package.json", "package-lock.json", "yarn.lock", "pnpm-lock.yaml", "bun.lockb", "bun.lock"];
        assert(names_view(n0@) =~= seq!["package.json"@, "package-lock.json"@, "yarn.lock"@, "pnpm-lock.yaml"@, "bun.lockb"@, "bun.lock"@]);
        let v0 = Validator::ParentHasAny(n0);
        let n1: Vec<&'static str> = vec!["go.mod"];
        assert(names_view(n1@) =~= seq!["go.mod"@]);
        let v1 = Validator::ParentHasAny(n1);
        let n2: Vec<&'static str> = vec!["Cargo.toml"];
        assert(names_view(n2@) =~= seq!["Cargo.toml"@]);
        let v2 = Validator::ParentHasAny(n2);
        let v: Vec<Validator> = vec![v0, v1, v2];
        assert(v@.map_values(|x: Validator| x.view()) =~= validators_spec(name@).unwrap());
        Some(v)
    } else if str_eq(name, "out") {
        let n0: Vec<&'static str> = vec!["next.config.js", "next.config.ts", "next.config.mjs", "next.config.cjs"];
        assert(names_view(n0@) =~= seq!["next.config.js"@, "next.config.ts"@, "next.config.mjs"@, "next.config.cjs"@]);
        let v0 = Validator::ParentHasAny(n0);
        let n1: Vec<&'static str> = vec!["package.json"];
        assert(names_view(n1@) =~= seq!["package.json"@]);
        let v1 = Validator::ParentHasAny(n1);
        let v: Vec<Validator> = vec![v0, v1];
        assert(v@.map_values(|x: Validator| x.view()) =~= validators_spec(name@).unwrap());
        Some(v)
    } else if str_eq(name, "build") {
        let n0: Vec<&'static str> = vec!["package.json"];
        assert(names_view(n0@) =~= seq!["package.json"@]);
        let v0 = Validator::ParentHasAny(n0);
        let n1: Vec<&'static str> = vec!["Cargo.toml"];
        assert(names_view(n1@) =~= seq!["Cargo.toml"@]);
        let v1 = Validator::ParentHasAny(n1);
        let n2: Vec<&'static str> = vec!["build.gradle", "build.gradle.kts", "settings.gradle", "settings.gradle.kts", "gradlew", "gradlew.bat"];
        assert(names_view(n2@) =~= seq!["build.gradle"@, "build.gradle.kts"@, "settings.gradle"@, "settings.gradle.kts"@, "gradlew"@, "gradlew.bat"@]);
        let v2 = Validator::ParentHasAny(n2);
        let n3: Vec<&'static str> = vec!["pubspec.yaml"];
        assert(names_view(n3@) =~= seq!["pubspec.yaml"@]);
        let v3 = Validator::ParentHasAny(n3);
        let n4: Vec<&'static str> = vec!["wails.json"];
        assert(names_view(n4@) =~= seq!["wails.json"@]);
        let v4 = Validator::ParentHasAny(n4);
        let n5: Vec<&'static str> = vec!["CMakeLists.txt"];
        assert(names_view(n5@) =~= seq!["CMakeLists.txt"@]);
        let v5 = Validator::ParentHasAny(n5);
        let n6: Vec<&'static str> = vec!["CMakeCache.txt", "build.ninja"];
        assert(names_view(n6@) =~= seq!["CMakeCache.txt"@, "build.ninja"@]);
        let v6 = Validator::DirContainsAny(n6);
        let v: Vec<Validator> = vec![v0, v1, v2, v3, v4, v5, v6];
        assert(v@.map_values(|x: Validator| x.view()) =~= validators_spec(name@).unwrap());
        Some(v)
    } else if str_eq(name, "target") {
        let n0: Vec<&'static str> = vec!["Cargo.toml"];
        assert(names_view(n0@) =~= seq!["Cargo.toml"@]);
        let v0 = Validator::ParentHasAny(n0);
        let n1: Vec<&'static str> = vec!["pom.xml"];
        assert(names_view(n1@) =~= seq!["pom.xml"@]);
        let v1 = Validator::ParentHasAny(n1);
        let n2: Vec<&'static str> = vec!["build.sbt"];
        assert(names_view(n2@) =~= seq!["build.sbt"@]);
        let v2 = Validator::ParentHasAny(n2);
        let v: Vec<Validator> = vec![v0, v1, v2];
        assert(v@.map_values(|x: Validator| x.view()) =~= validators_spec(name@).unwrap());
        Some(v)
    } else if str_eq(name, "vendor") {
        let n0: Vec<&'static str> = vec!["go.mod"];
        assert(names_view(n0@) =~= seq!["go.mod"@]);
        let v0 = Validator::ParentHasAny(n0);
        let n1: Vec<&'static str> = vec!["Cargo.toml"];
        assert(names_view(n1@) =~= seq!["Cargo.toml"@]);
        let v1 = Validator::ParentHasAny(n1);
        let n2: Vec<&'static str> = vec!["composer.json"];
        assert(names_view(n2@) =~= seq!["composer.json"@]);
        let v2 = Validator::ParentHasAny(n2);
        let n3: Vec<&'static str> = vec!["Gemfile"];
        assert(names_view(n3@) =~= seq!["Gemfile"@]);
        let v3 = Validator::ParentHasAny(n3);
        let n4: Vec<&'static str> = vec!["package.json"];
        assert(names_view(n4@) =~= seq!["package.json"@]);
        let v4 = Validator::ParentHasAny(n4);
        let v: Vec<Validator> = vec![v0, v1, v2, v3, v4];
        assert(v@.map_values(|x: Validator| x.view()) =~= validators_spec(name@).unwrap());
        Some(v)
    } else if str_eq(name, ".gradle") {
        let n0: Vec<&'static str> = vec!["build.gradle", "build.gradle.kts", "settings.gradle", "settings.gradle.kts", "gradlew", "gradlew.bat"];
        assert(names_view(n0@) =~= seq!["build.gradle"@, "build.gradle.kts"@, "settings.gradle"@, "settings.gradle.kts"@, "gradlew"@, "gradlew.bat"@]);
        let v0 = Validator::ParentHasAny(n0);
        let v: Vec<Validator> = vec![v0];
        assert(v@.map_values(|x: Validator| x.view()) =~= validators_spec(name@).unwrap());
        Some(v)
    } else if str_eq(name, ".next") {
        let n0: Vec<&'static str> = vec!["next.config.js", "next.config.ts", "next.config.mjs", "next.config.cjs"];
        assert(names_view(n0@) =~= seq!["next.config.js"@, "next.config.ts"@, "next.config.mjs"@, "next.config.cjs"@]);
        let v0 = Validator::ParentHasAny(n0);
        let n1: Vec<&'static str> = vec!["package.json"];
        assert(names_view(n1@) =~= seq!["package.json"@]);
        let v1 = Validator::ParentHasAny(n1);
        let v: Vec<Validator> = vec![v0, v1];
        assert(v@.map_values(|x: Validator| x.view()) =~= validators_spec(name@).unwrap());
        Some(v)
    } else if str_eq(name, ".nuxt") {
        let n0: Vec<&'static str> = vec!["nuxt.config.js", "nuxt.config.ts", "nuxt.config.mjs"];
        assert(names_view(n0@) =~= seq!["nuxt.config.js"@, "nuxt.config.ts"@, "nuxt.config.mjs"@]);
        let v0 = Validator::ParentHasAny(n0);
        let v: Vec<Validator> = vec![v0];
        assert(v@.map_values(|x: Validator| x.view()) =~= validators_spec(name@).unwrap());
        Some(v)
    } else if str_eq(name, ".output") {
        let n0: Vec<&'static str> = vec!["nuxt.config.js", "nuxt.config.ts", "nuxt.config.mjs"];
        assert(names_view(n0@) =~= seq!["nuxt.config.js"@, "nuxt.config.ts"@, "nuxt.config.mjs"@]);
        let v0 = Validator::ParentHasAny(n0);
        let v: Vec<Validator> = vec![v0];
        assert(v@.map_values(|x: Validator| x.view()) =~= validators_spec(name@).unwrap());
        Some(v)
    } else if str_eq(name, ".svelte-kit") {
        let n0: Vec<&'static str> = vec!["svelte.config.js", "svelte.config.ts", "svelte.config.cjs"];
        assert(names_view(n0@) =~= seq!["svelte.config.js"@, "svelte.config.ts"@, "svelte.config.cjs"@]);
        let v0 = Validator::ParentHasAny(n0);
        let v: Vec<Validator> = vec![v0];
        assert(v@.map_values(|x: Validator| x.view()) =~= validators_spec(name@).unwrap());
        Some(v)
    } else if str_eq(name, ".yarn") {
        let n0: Vec<&'static str> = vec!["yarn.lock"];
        assert(names_view(n0@) =~= seq!["yarn.lock"@]);
        let v0 = Validator::ParentHasAny(n0);
        let n1: Vec<&'static str> = vec!["package.json"];
        assert(names_view(n1@) =~= seq!["package.json"@]);
        let v1 = Validator::ParentHasAny(n1);
        let v: Vec<Validator> = vec![v0, v1];
        assert(v@.map_values(|x: Validator| x.view()) =~= validators_spec(name@).unwrap());
        Some(v)
    } else if str_eq(name, ".bun") {
        let n0: Vec<&'static str> = vec!["bun.lockb", "bun.lock"];
        assert(names_view(n0@) =~= seq!["bun.lockb"@, "bun.lock"@]);
        let v0 = Validator::ParentHasAny(n0);
        let n1: Vec<&'static str> = vec!["package.json"];
        assert(names_view(n1@) =~= seq!["package.json"@]);
        let v1 = Validator::ParentHasAny(n1);
        let v: Vec<Validator> = vec![v0, v1];
        assert(v@.map_values(|x: Validator| x.view()) =~= validators_spec(name@).unwrap());
        Some(v)
    } else if str_eq(name, "__pycache__") {
        let v0 = Validator::ParentHasPyFiles;
        let n1: Vec<&'static str> = vec!["pyproject.toml", "setup.py", "setup.cfg", "requirements.txt"];
        assert(names_view(n1@) =~= seq!["pyproject.toml"@, "setup.py"@, "setup.cfg"@, "requirements.txt"@]);
        let v1 = Validator::ParentHasAny(n1);
        let v: Vec<Validator> = vec![v0, v1];
        assert(v@.map_values(|x: Validator| x.view()) =~= validators_spec(name@).unwrap());
        Some(v)
    } else if str_eq(name, ".pytest_cache") {
        let n0: Vec<&'static str> = vec!["pytest.ini", "pyproject.toml", "setup.cfg", "tox.ini", "requirements.txt", "conftest.py"];
        assert(names_view(n0@) =~= seq!["pytest.ini"@, "pyproject.toml"@, "setup.cfg"@, "tox.ini"@, "requirements.txt"@, "conftest.py"@]);
        let v0 = Validator::ParentHasAny(n0);
        let v: Vec<Validator> = vec![v0];
        assert(v@.map_values(|x: Validator| x.view()) =~= validators_spec(name@).unwrap());
        Some(v)
    } else if str_eq(name, ".mypy_cache") {
        let n0: Vec<&'static str> = vec!["mypy.ini", ".mypy.ini", "pyproject.toml", "setup.cfg"];
        assert(names_view(n0@) =~= seq!["mypy.ini"@, ".mypy.ini"@, "pyproject.toml"@, "setup.cfg"@]);
        let v0 = Validator::ParentHasAny(n0);
        let v: Vec<Validator> = vec![v0];
        assert(v@.map_values(|x: Validator| x.view()) =~= validators_spec(name@).unwrap());
        Some(v)
    } else if str_eq(name, ".ruff_cache") {
        let n0: Vec<&'static str> = vec!["ruff.toml", "pyproject.toml"];
        assert(names_view(n0@) =~= seq!["ruff.toml"@, "pyproject.toml"@]);
        let v0 = Validator::ParentHasAny(n0);
        let v: Vec<Validator> = vec![v0];
        assert(v@.map_values(|x: Validator| x.view()) =~= validators_spec(name@).unwrap());
        Some(v)
    } else if str_eq(name, ".turbo") {
        let n0: Vec<&'static str> = vec!["turbo.json"];
        assert(names_view(n0@) =~= seq!["turbo.json"@]);
        let v0 = Validator::ParentHasAny(n0);
        let n1: Vec<&'static str> = vec!["package.json"];
        assert(names_view(n1@) =~= seq!["package.json"@]);
        let v1 = Validator::ParentHasAny(n1);
        let v: Vec<Validator> = vec![v0, v1];
        assert(v@.map_values(|x: Validator| x.view()) =~= validators_spec(name@).unwrap());
        Some(v)
    } else if str_eq(name, ".parcel-cache") {
        let n0: Vec<&'static str> = vec!["package.json"];
        assert(names_view(n0@) =~= seq!["package.json"@]);
        let v0 = Validator::ParentHasAny(n0);
        let v: Vec<Validator> = vec![v0];
        assert(v@.map_values(|x: Validator| x.view()) =~= validators_spec(name@).unwrap());
        Some(v)
    } else if str_eq(name, ".venv") {
        let n0: Vec<&'static str> = vec!["pyvenv.cfg"];
        assert(names_view(n0@) =~= seq!["pyvenv.cfg"@]);
        let v0 = Validator::DirContainsAny(n0);
        let v: Vec<Validator> = vec![v0];
        assert(v@.map_values(|x: Validator| x.view()) =~= validators_spec(name@).unwrap());
        Some(v)
    } else if str_eq(name, ".tox") {
        let n0: Vec<&'static str> = vec!["tox.ini", "setup.cfg", "pyproject.toml"];
        assert(names_view(n0@) =~= seq!["tox.ini"@, "setup.cfg"@, "pyproject.toml"@]);
        let v0 = Validator::ParentHasAny(n0);
        let v: Vec<Validator> = vec![v0];
        assert(v@.map_values(|x: Validator| x.view()) =~= validators_spec(name@).unwrap());
        Some(v)
    } else if str_eq(name, ".nox") {
        let n0: Vec<&'static str> = vec!["noxfile.py"];
        assert(names_view(n0@) =~= seq!["noxfile.py"@]);
        let v0 = Validator::ParentHasAny(n0);
        let v: Vec<Validator> = vec![v0];
        assert(v@.map_values(|x: Validator| x.view()) =~= validators_spec(name@).unwrap());
        Some(v)
    } else if str_eq(name, ".embuild") {
        let n0: Vec<&'static str> = vec!["sdkconfig.defaults", "sdkconfig", "idf_component.yml"];
        assert(names_view(n0@) =~= seq!["sdkconfig.defaults"@, "sdkconfig"@, "idf_component.yml"@]);
        let v0 = Validator::ParentHasAny(n0);
        let n1: Vec<&'static str> = vec!["espressif"];
        assert(names_view(n1@) =~= seq!["espressif"@]);
        let v1 = Validator::DirContainsDirAny(n1);
        let v: Vec<Validator> = vec![v0, v1];
        assert(v@.map_values(|x: Validator| x.view()) =~= validators_spec(name@).unwrap());
        Some(v)
    } else if str_eq(name, ".dart_tool") {
        let n0: Vec<&'static str> = vec!["pubspec.yaml"];
        assert(names_view(n0@) =~= seq!["pubspec.yaml"@]);
        let v0 = Validator::ParentHasAny(n0);
        let n1: Vec<&'static str> = vec!["package_config.json"];
        assert(names_view(n1@) =~= seq!["package_config.json"@]);
        let v1 = Validator::DirContainsAny(n1);
        let v: Vec<Validator> = vec![v0, v1];
        assert(v@.map_values(|x: Validator| x.view()) =~= validators_spec(name@).unwrap());
        Some(v)
    } else {
        None
    }
}

/// The registered directory names.
pub const KNOWN_CACHE_DIR_NAMES: [&'static str; 24] = [
    "node_modules",
    "dist",
    "out",
    "build",
    "target",
    "vendor",
    ".gradle",
    ".next",
    ".nuxt",
    ".output",
    ".svelte-kit",
    ".yarn",
    ".bun",
    "__pycache__",
    ".pytest_cache",
    ".mypy_cache",
    ".ruff_cache",
    ".turbo",
    ".parcel-cache",
    ".venv",
    ".tox",
    ".nox",
    ".embuild",
    ".dart_tool",
];

pub open spec fn known_names() -> Seq<Seq<char>> {
    seq!["node_modules"@, "dist"@, "out"@, "build"@, "target"@, "vendor"@, ".gradle"@, ".next"@, ".nuxt"@, ".output"@, ".svelte-kit"@, ".yarn"@, ".bun"@, "__pycache__"@, ".pytest_cache"@, ".mypy_cache"@, ".ruff_cache"@, ".turbo"@, ".parcel-cache"@, ".venv"@, ".tox"@, ".nox"@, ".embuild"@, ".dart_tool"@]
}

/// Whether the name is registered (see `validators_spec`).
pub fn is_known_cache_dir_name(name: &str) -> (r: bool)
    ensures
        r == validators_spec(name@) is Some,
{
    dir_validators(name).is_some()
}

/// The registered names, in order.
pub fn known_cache_dir_names() -> (r: Vec<String>)
    ensures
        strs(r@) == known_names(),
{
    let names: Vec<&'static str> = vec!["node_modules", "dist", "out", "build", "target", "vendor", ".gradle", ".next", ".nuxt", ".output", ".svelte-kit", ".yarn", ".bun", "__pycache__", ".pytest_cache", ".mypy_cache", ".ruff_cache", ".turbo", ".parcel-cache", ".venv", ".tox", ".nox", ".embuild", ".dart_tool"];
    assert(names_view(names@) =~= known_names());
    let mut out: Vec<String> = Vec::new();
    let mut i: usize = 0;
    while i < names.len()
        invariant
            i <= names@.len(),
            names_view(names@) == known_names(),
            strs(out@) == known_names().take(i as int),
        decreases names.len() - i,
    {
        let s = owned(names[i]);
        let ghost before = strs(out@);
        out.push(s);
        assert(names_view(names@)[i as int] == names@[i as int]@);
        assert(strs(out@) =~= before.push(s@));
        assert(known_names().take(i + 1) =~= known_names().take(i as int).push(known_names()[i as int]));
        i += 1;
    }
    assert(known_names().take(known_names().len() as int) =~= known_names());
    out
}

/// What the checks of a candidate directory look at: the names (among those the checks ask
/// about) of the regular files in its parent, of the regular files in it and of the
/// directories in it, and whether its parent holds a `.py` file. A directory without a parent
/// has no parent files.
pub struct DirFacts {
    pub parent_files: Vec<String>,
    pub dir_files: Vec<String>,
    pub dir_dirs: Vec<String>,
    pub parent_has_py: bool,
}

/// Whether one of the names is among the found ones.
pub open spec fn any_found(names: Seq<Seq<char>>, found: Seq<Seq<char>>) -> bool {
    exists|k: int| 0 <= k < names.len() && found.contains(#[trigger] names[k])
}

pub open spec fn check_passes(c: CheckView, f: DirFacts) -> bool {
    match c {
        CheckView::ParentHasAny(n) => any_found(n, strs(f.parent_files@)),
        CheckView::DirContainsAny(n) => any_found(n, strs(f.dir_files@)),
        CheckView::DirContainsDirAny(n) => any_found(n, strs(f.dir_dirs@)),
        CheckView::ParentHasPyFiles => f.parent_has_py,
    }
}

/// A directory is a build or cache directory when its name is registered and one of its
/// checks passes.
pub open spec fn cache_dir_spec(name: Seq<char>, f: DirFacts) -> bool {
    validators_spec(name) is Some && exists|i: int|
        0 <= i < validators_spec(name).unwrap().len() && check_passes(
            #[trigger] validators_spec(name).unwrap()[i],
            f,
        )
}

fn found_any(names: &Vec<&'static str>, found: &Vec<String>) -> (r: bool)
    ensures
        r == any_found(names_view(names@), strs(found@)),
{
    let ghost nv = names_view(names@);
    let ghost fv = strs(found@);
    let mut k: usize = 0;
    while k < names.len()
        invariant
            k <= names@.len(),
            nv == names_view(names@),
            fv == strs(found@),
            forall|j: int| 0 <= j < k ==> !fv.contains(#[trigger] nv[j]),
        decreases names.len() - k,
    {
        let mut m: usize = 0;
        while m < found.len()
            invariant
                m <= found@.len(),
                k < names@.len(),
                fv == strs(found@),
                nv == names_view(names@),
                forall|q: int| 0 <= q < m ==> fv[q] != nv[k as int],
            decreases found.len() - m,
        {
            if str_eq(found[m].as_str(), names[k]) {
                assert(fv[m as int] == nv[k as int]);
                return true;
            }
            m += 1;
        }
        k += 1;
    }
    false
}

fn passes(v: &Validator, f: &DirFacts) -> (r: bool)
    ensures
        r == check_passes(v.view(), *f),
{
    match v {
        Validator::ParentHasAny(n) => found_any(n, &f.parent_files),
        Validator::DirContainsAny(n) => found_any(n, &f.dir_files),
        Validator::DirContainsDirAny(n) => found_any(n, &f.dir_dirs),
        Validator::ParentHasPyFiles => f.parent_has_py,
    }
}

/// Whether a directory with this name and these facts is a build or cache directory (see
/// `cache_dir_spec`).
pub fn is_cache_dir(name: &str, facts: &DirFacts) -> (r: bool)
    ensures
        r == cache_dir_spec(name@, *facts),
{
    match dir_validators(name) {
        None => false,
        Some(vs) => {
            let ghost vv = vs@.map_values(|x: Validator| x.view());
            let mut i: usize = 0;
            while i < vs.len()
                invariant
                    i <= vs@.len(),
                    vv == vs@.map_values(|x: Validator| x.view()),
                    vv.len() == vs@.len(),
                    validators_spec(name@) == Some(vv),
                    forall|j: int| 0 <= j < i ==> !check_passes(#[trigger] vv[j], *facts),
                decreases vs.len() - i,
            {
                assert(vv[i as int] == vs@[i as int].view());
                if passes(&vs[i], facts) {
                    assert(check_passes(vv[i as int], *facts));
                    assert(0 <= i < vv.len());
                    assert(validators_spec(name@).unwrap()[i as int] == vv[i as int]);
                    assert(check_passes(validators_spec(name@).unwrap()[i as int], *facts));
                    return true;
                }
                i += 1;
            }
            false
        },
    }
}

// ---------------------------------------------------------------------------
// Walking a repository.
// ---------------------------------------------------------------------------

/// The directories above a file, deepest first, as paths from the repository root (the
/// root itself not included): `a/b/c.txt` gives `a/b`, then `a`.
pub open spec fn ancestors_of(rel: Seq<char>) -> Seq<Seq<char>>
    decreases rel.len(),
{
    match rfind_char_spec(rel, '/') {
        Some(i) => if i > 0 && i < rel.len() {
            seq![rel.take(i)] + ancestors_of(rel.take(i))
        } else {
            Seq::empty()
        },
        None => Seq::empty(),
    }
}

/// The directories above a file to look at (see `ancestors_of`).
pub fn ancestor_dirs(rel: &str) -> (r: Vec<String>)
    ensures
        r@.map_values(|s: String| s@) == ancestors_of(rel@),
{
    let mut out: Vec<String> = Vec::new();
    let mut cur = chars_of(rel);
    let ghost start = rel@;
    assert(out@.map_values(|s: String| s@) + ancestors_of(cur@) =~= ancestors_of(start));
    loop
        invariant
            out@.map_values(|s: String| s@) + ancestors_of(cur@) == ancestors_of(start),
        ensures
            out@.map_values(|s: String| s@) + ancestors_of(cur@) == ancestors_of(start),
            ancestors_of(cur@) == Seq::<Seq<char>>::empty(),
        decreases cur@.len(),
    {
        proof {
            crate::pathutil::lemma_rfind_bounds(cur@, '/');
        }
        match rfind_char(&cur, '/') {
            Some(i) => {
                if i > 0 {
                    let d = slice_chars(&cur, 0, i);
                    assert(d@ =~= cur@.take(i as int));
                    let ghost o0 = out@.map_values(|s: String| s@);
                    out.push(string_of(&d));
                    assert(out@.map_values(|s: String| s@) =~= o0.push(d@));
                    assert(o0 + ancestors_of(cur@) =~= o0.push(d@) + ancestors_of(d@));
                    cur = d;
                } else {
                    assert(ancestors_of(cur@) =~= Seq::<Seq<char>>::empty());
                    break;
                }
            },
            None => {
                assert(ancestors_of(cur@) =~= Seq::<Seq<char>>::empty());
                break;
            },
        }
    }
    assert(out@.map_values(|s: String| s@) + ancestors_of(cur@) =~= out@.map_values(|s: String| s@));
    out
}

/// What is known of a directory on the way up from a file.
pub struct DirProbe {
    /// Its name.
    pub name: String,
    /// The files and directories around it.
    pub facts: DirFacts,
    /// Whether it holds a `pyvenv.cfg`.
    pub is_venv: bool,
}

/// Whether a probed directory is a build or cache directory or a Python virtualenv.
pub open spec fn probe_hits(p: DirProbe) -> bool {
    cache_dir_spec(p.name@, p.facts) || p.is_venv
}

/// The index of the first hit among `ps[k..]`.
pub open spec fn first_hit(ps: Seq<DirProbe>, k: int) -> Option<int>
    decreases ps.len() - k,
{
    if k < 0 || k >= ps.len() {
        None
    } else if probe_hits(ps[k]) {
        Some(k)
    } else {
        first_hit(ps, k + 1)
    }
}

/// The nearest build or cache directory (or virtualenv) above a file: `dirs` are the
/// directories above it, deepest first (see `ancestor_dirs`), and `probes[i]` what is known
/// of `dirs[i]`.
pub fn find_cache_dir_ancestor(dirs: &[String], probes: &[DirProbe]) -> (r: Option<String>)
    requires
        probes@.len() == dirs@.len(),
    ensures
        match (r, first_hit(probes@, 0)) {
            (Some(d), Some(k)) => d@ == dirs@[k]@,
            (None, None) => true,
            _ => false,
        },
{
    let mut k: usize = 0;
    while k < probes.len()
        invariant
            k <= probes@.len(),
            probes@.len() == dirs@.len(),
            first_hit(probes@, k as int) == first_hit(probes@, 0),
        decreases probes.len() - k,
    {
        let p = &probes[k];
        if is_cache_dir(p.name.as_str(), &p.facts) || p.is_venv {
            return Some(dirs[k].clone());
        }
        k += 1;
    }
    None
}

/// What the walk over a repository does with a directory it meets.
#[derive(Debug, Clone, Copy, PartialEq, Eq, Structural)]
pub enum VisitAction {
    /// Pass it by.
    Skip,
    /// Report it as a build or cache directory, and do not walk into it.
    Found,
    /// Walk into it.
    Descend,
}

/// The walk's decision for a directory: version-control directories are passed by; a
/// virtualenv is reported; other hidden directories that are not registered are passed by;
/// a registered name is reported when its checks confirm it and never walked into; any
/// other directory is walked into.
pub open spec fn visit_action_spec(name: Seq<char>, is_venv: bool, facts: DirFacts) -> VisitAction {
    if protected_dir_name(name) {
        VisitAction::Skip
    } else if is_venv {
        VisitAction::Found
    } else if name.len() > 0 && name[0] == '.' && validators_spec(name) is None {
        VisitAction::Skip
    } else if validators_spec(name) is Some {
        if cache_dir_spec(name, facts) {
            VisitAction::Found
        } else {
            VisitAction::Skip
        }
    } else {
        VisitAction::Descend
    }
}

/// The walk's decision for a directory (see `visit_action_spec`).
pub fn visit_action(name: &str, is_venv: bool, facts: &DirFacts) -> (r: VisitAction)
    ensures
        r == visit_action_spec(name@, is_venv, *facts),
{
    if is_protected_dir_name(name) {
        return VisitAction::Skip;
    }
    if is_venv {
        return VisitAction::Found;
    }
    let c = chars_of(name);
    let known = is_known_cache_dir_name(name);
    if c.len() > 0 && c[0] == '.' && !known {
        return VisitAction::Skip;
    }
    if known {
        if is_cache_dir(name, facts) {
            VisitAction::Found
        } else {
            VisitAction::Skip
        }
    } else {
        VisitAction::Descend
    }
}

// ---------------------------------------------------------------------------
// Reading `git ls-files` and `du` output.
// ---------------------------------------------------------------------------

/// The NUL-separated entries of `git -z` output, decoded as UTF-8.
pub open spec fn z_entries(out: Seq<u8>) -> Seq<Seq<char>> {
    split_seq(utf8_lossy(out), '\0')
}

/// The non-empty entries (tracked files, from the root).
pub open spec fn tracked_entries_spec(es: Seq<Seq<char>>) -> Seq<Seq<char>>
    decreases es.len(),
{
    if es.len() == 0 {
        Seq::empty()
    } else {
        let prev = tracked_entries_spec(es.drop_last());
        if es.last().len() > 0 {
            prev.push(es.last())
        } else {
            prev
        }
    }
}

/// The files `git ls-files -z` lists (see `tracked_entries_spec`).
pub fn parse_tracked_entries(out: &[u8]) -> (r: Vec<String>)
    ensures
        r@.map_values(|s: String| s@) == tracked_entries_spec(z_entries(out@)),
{
    let s = crate::text::from_utf8_lossy(out);
    let parts = crate::text::split(&chars_of(s.as_str()), '\0');
    let ghost pv = parts@.map_values(|v: Vec<char>| v@);
    let mut r: Vec<String> = Vec::new();
    let mut i: usize = 0;
    while i < parts.len()
        invariant
            i <= parts@.len(),
            pv == parts@.map_values(|v: Vec<char>| v@),
            r@.map_values(|s: String| s@) == tracked_entries_spec(pv.take(i as int)),
        decreases parts.len() - i,
    {
        assert(pv.take(i + 1).drop_last() =~= pv.take(i as int));
        if parts[i].len() > 0 {
            let ghost r0 = r@.map_values(|s: String| s@);
            r.push(string_of(&parts[i]));
            assert(r@.map_values(|s: String| s@) =~= r0.push(pv[i as int]));
        }
        i += 1;
    }
    assert(pv.take(parts@.len() as int) =~= pv);
    r
}

/// An entry without its trailing slashes.
pub open spec fn unslashed(e: Seq<char>) -> Seq<char> {
    trim_end_set(e, seq!['/'])
}

/// The untracked entries inside directory `rel` (`rel` itself, or under `rel/`), trailing
/// slashes dropped, empty entries skipped.
pub open spec fn untracked_entries_spec(es: Seq<Seq<char>>, rel: Seq<char>) -> Seq<Seq<char>>
    decreases es.len(),
{
    if es.len() == 0 {
        Seq::empty()
    } else {
        let prev = untracked_entries_spec(es.drop_last(), rel);
        let e = unslashed(es.last());
        if e.len() > 0 && (e == rel || crate::text::has_prefix(e, rel + "/"@)) {
            prev.push(e)
        } else {
            prev
        }
    }
}

/// The untracked entries inside directory `rel` in `git ls-files --others --directory -z`
/// output (see `untracked_entries_spec`).
pub fn parse_untracked_entries(out: &[u8], rel: &str) -> (r: Vec<String>)
    ensures
        r@.map_values(|s: String| s@) == untracked_entries_spec(z_entries(out@), rel@),
{
    let s = crate::text::from_utf8_lossy(out);
    let parts = crate::text::split(&chars_of(s.as_str()), '\0');
    let ghost pv = parts@.map_values(|v: Vec<char>| v@);
    let slash = vec!['/'];
    let rc = chars_of(rel);
    let mut prefix = chars_of(rel);
    prefix.push('/');
    proof {
        reveal_strlit("/");
    }
    assert(prefix@ =~= rel@ + "/"@);
    let mut r: Vec<String> = Vec::new();
    let mut i: usize = 0;
    while i < parts.len()
        invariant
            i <= parts@.len(),
            pv == parts@.map_values(|v: Vec<char>| v@),
            slash@ == seq!['/'],
            rc@ == rel@,
            prefix@ == rel@ + "/"@,
            r@.map_values(|s: String| s@) == untracked_entries_spec(pv.take(i as int), rel@),
        decreases parts.len() - i,
    {
        assert(pv.take(i + 1).drop_last() =~= pv.take(i as int));
        let e = crate::text::trim_end_matches(&parts[i], &slash);
        if e.len() > 0 && (crate::text::chars_eq(&e, &rc) || crate::text::starts_with(&e, &prefix)) {
            let ghost r0 = r@.map_values(|s: String| s@);
            r.push(string_of(&e));
            assert(r@.map_values(|s: String| s@) =~= r0.push(e@));
        }
        i += 1;
    }
    assert(pv.take(parts@.len() as int) =~= pv);
    r
}

/// Whether `git ls-files --others --directory -z` output lists anything (an entry that is not
/// empty once its trailing slashes are dropped).
pub fn has_untracked_output(out: &[u8]) -> (r: bool)
    ensures
        r == exists|j: int| 0 <= j < z_entries(out@).len() && #[trigger] unslashed(z_entries(out@)[j]).len() > 0,
{
    let s = crate::text::from_utf8_lossy(out);
    let parts = crate::text::split(&chars_of(s.as_str()), '\0');
    let ghost pv = parts@.map_values(|v: Vec<char>| v@);
    let slash = vec!['/'];
    let mut i: usize = 0;
    while i < parts.len()
        invariant
            i <= parts@.len(),
            pv == parts@.map_values(|v: Vec<char>| v@),
            pv == z_entries(out@),
            slash@ == seq!['/'],
            forall|j: int| 0 <= j < i ==> #[trigger] unslashed(pv[j]).len() == 0,
        decreases parts.len() - i,
    {
        let e = crate::text::trim_end_matches(&parts[i], &slash);
        assert(pv[i as int] == parts@[i as int]@);
        if e.len() > 0 {
            assert(unslashed(pv[i as int]).len() > 0);
            return true;
        }
        i += 1;
    }
    false
}

/// The size in bytes from `du -sk` output: the first word, read as a number of KiB
/// (0 when it is not a number), times 1024 (wrapping like the machine multiplication).
pub open spec fn du_size_spec(out: Seq<u8>) -> i64 {
    let t = crate::text::trim_start_seq(utf8_lossy(out));
    let w = t.take(word_len(t, 0));
    match crate::gitdiff::parse_i64_spec(w) {
        Some(kb) => vstd::wrapping::i64_specs::wrapping_mul(kb as i64, 1024),
        None => 0,
    }
}

/// The length of the word at the start of `t` (up to the first whitespace).
pub open spec fn word_len(t: Seq<char>, i: int) -> int
    decreases t.len() - i,
{
    if 0 <= i < t.len() && !crate::text::is_ws(t[i]) {
        word_len(t, i + 1)
    } else {
        i
    }
}

proof fn lemma_word_len(t: Seq<char>, i: int)
    requires
        0 <= i <= t.len(),
    ensures
        i <= word_len(t, i) <= t.len(),
    decreases t.len() - i,
{
    if i < t.len() && !crate::text::is_ws(t[i]) {
        lemma_word_len(t, i + 1);
    }
}

/// The size in bytes from `du -sk` output (see `du_size_spec`).
pub fn du_size(out: &[u8]) -> (r: i64)
    ensures
        r == du_size_spec(out@),
{
    let s = crate::text::from_utf8_lossy(out);
    let t = crate::text::trim_start(&chars_of(s.as_str()));
    proof {
        lemma_word_len(t@, 0);
    }
    let mut k: usize = 0;
    while k < t.len() && !crate::text::is_whitespace(t[k])
        invariant
            k <= t@.len(),
            word_len(t@, k as int) == word_len(t@, 0),
        decreases t.len() - k,
    {
        k += 1;
    }
    let w = slice_chars(&t, 0, k);
    assert(w@ =~= t@.take(k as int));
    match crate::gitdiff::parse_i64(&w) {
        Some(kb) => kb.wrapping_mul(1024),
        None => 0,
    }
}

} // verus!
