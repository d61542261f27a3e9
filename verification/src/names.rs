//! Package names: which import specifiers name a package, and which one.

use crate::text::same_text;
use vstd::prelude::*;
use vstd::string::{StrSliceExecFns, StringExecFns};

verus! {

/// The index of the first `/` of `s` at or after `from`, or the length of
/// `s` where there is none.
pub open spec fn first_separator(s: Seq<char>, from: int) -> int
    decreases s.len() - from,
{
    if from < 0 || from >= s.len() {
        s.len() as int
    } else if s[from] == '/' {
        from
    } else {
        first_separator(s, from + 1)
    }
}

/// The first path segment of a specifier: what stands before its first `/`.
pub open spec fn first_segment(s: Seq<char>) -> Seq<char> {
    s.subrange(0, first_separator(s, 0))
}

/// Whether a specifier names a package rather than a local module: its
/// first path segment is neither empty (an absolute path, or no text at
/// all) nor `.` nor `..`.
pub open spec fn names_package(s: Seq<char>) -> bool {
    &&& first_segment(s).len() > 0
    &&& first_segment(s) != seq!['.']
    &&& first_segment(s) != seq!['.', '.']
}

/// Whether a specifier starts with a scope: a leading `@` and a first
/// segment that is followed by more.
pub open spec fn is_scoped(s: Seq<char>) -> bool {
    s.len() > 0 && s[0] == '@' && first_separator(s, 0) < s.len()
}

/// The package that a specifier names: its first two path segments where
/// it is scoped, its first segment otherwise.
pub open spec fn package_name(s: Seq<char>) -> Seq<char> {
    if is_scoped(s) {
        s.subrange(0, first_separator(s, first_separator(s, 0) + 1))
    } else {
        first_segment(s)
    }
}

/// The package that holds the type declarations of the package `name`.
pub open spec fn type_package_name(name: Seq<char>) -> Seq<char> {
    "@types/"@ + name
}

/// The modules that the runtime itself provides, sub-paths included.
pub open spec fn core_module_names() -> Seq<&'static str> {
    seq![
        "assert",
        "assert/strict",
        "async_hooks",
        "buffer",
        "child_process",
        "cluster",
        "console",
        "constants",
        "crypto",
        "dgram",
        "diagnostics_channel",
        "dns",
        "dns/promises",
        "domain",
        "events",
        "fs",
        "fs/promises",
        "http",
        "http2",
        "https",
        "inspector",
        "inspector/promises",
        "module",
        "net",
        "os",
        "path",
        "path/posix",
        "path/win32",
        "perf_hooks",
        "process",
        "punycode",
        "querystring",
        "readline",
        "readline/promises",
        "repl",
        "stream",
        "stream/consumers",
        "stream/promises",
        "stream/web",
        "string_decoder",
        "sys",
        "timers",
        "timers/promises",
        "tls",
        "trace_events",
        "tty",
        "url",
        "util",
        "util/types",
        "v8",
        "vm",
        "wasi",
        "worker_threads",
        "zlib",
    ]
}

/// Whether `name` is a module of the runtime.
pub open spec fn is_core_name(name: Seq<char>) -> bool {
    exists|i: int| 0 <= i < core_module_names().len() && (#[trigger] core_module_names()[i])@ == name
}

/// The first separator at or after `from` lies between `from` and the end,
/// and nothing before it is a separator.
pub proof fn lemma_first_separator(s: Seq<char>, from: int)
    requires
        0 <= from <= s.len(),
    ensures
        from <= first_separator(s, from) <= s.len(),
        first_separator(s, from) < s.len() ==> s[first_separator(s, from)] == '/',
        forall|j: int| from <= j < first_separator(s, from) ==> s[j] != '/',
    decreases s.len() - from,
{
    if from < s.len() && s[from] != '/' {
        lemma_first_separator(s, from + 1);
    }
}

/// The characters of a text, in order.
pub fn chars_of(s: &str) -> (chars: Vec<char>)
    ensures
        chars@ == s@,
{
    let mut chars: Vec<char> = Vec::new();
    for c in it: s.chars()
        invariant
            chars@ == it.seq().take(it.index()),
            it.seq() == s@,
    {
        chars.push(c);
        proof {
            assert(it.seq().take(it.index() + 1) =~= it.seq().take(it.index()).push(c));
        }
    }
    proof {
        assert(chars@ =~= s@);
    }
    chars
}

/// Finds the first `/` at or after `from`.
fn find_separator(chars: &Vec<char>, from: usize) -> (at: usize)
    requires
        from <= chars.len(),
    ensures
        at == first_separator(chars@, from as int),
        from <= at <= chars.len(),
{
    let mut i: usize = from;
    while i < chars.len() && chars[i] != '/'
        invariant
            from <= i <= chars.len(),
            first_separator(chars@, from as int) == first_separator(chars@, i as int),
        decreases chars.len() - i,
    {
        i += 1;
    }
    i
}

/// Whether the specifier names a package: specifiers whose first path
/// segment is relative or absolute name local modules.
pub fn is_external(specifier: &str) -> (external: bool)
    ensures
        external == names_package(specifier@),
{
    let chars = chars_of(specifier);
    let first = find_separator(&chars, 0);
    proof {
        let segment = first_segment(specifier@);
        assert(segment.len() == first);
        assert(seq!['.'].len() == 1 && seq!['.', '.'].len() == 2);
        assert(forall|j: int| 0 <= j < first ==> segment[j] == chars@[j]);
        if first == 1 && chars@[0] == '.' {
            assert(segment =~= seq!['.']);
        }
        if first == 2 && chars@[0] == '.' && chars@[1] == '.' {
            assert(segment =~= seq!['.', '.']);
        }
        if first >= 1 && segment == seq!['.'] {
            assert(segment[0] == '.');
        }
        if first >= 2 && segment == seq!['.', '.'] {
            assert(segment[0] == '.' && segment[1] == '.');
        }
    }
    if first == 0 {
        false
    } else if first == 1 {
        chars[0] != '.'
    } else if first == 2 {
        !(chars[0] == '.' && chars[1] == '.')
    } else {
        true
    }
}

/// The package name of a specifier: a scoped name keeps its first two path
/// segments, any other its first.
pub fn extract_package_name(specifier: &str) -> (name: String)
    ensures
        name@ == package_name(specifier@),
{
    let chars = chars_of(specifier);
    let first = find_separator(&chars, 0);
    let end = if chars.len() > 0 && chars[0] == '@' && first < chars.len() {
        find_separator(&chars, first + 1)
    } else {
        first
    };
    String::from_str(specifier.substring_char(0, end))
}

/// The name of the package with the type declarations of `name`.
pub fn extract_type_name(name: &str) -> (types: String)
    ensures
        types@ == type_package_name(name@),
{
    String::from_str("@types/").concat(name)
}

/// Whether `name` is a built-in module of the runtime, which no manifest
/// declares.
pub fn is_core_module(name: &str) -> (core: bool)
    ensures
        core == is_core_name(name@),
{
    let names: Vec<&'static str> = vec![
        "assert",
        "assert/strict",
        "async_hooks",
        "buffer",
        "child_process",
        "cluster",
        "console",
        "constants",
        "crypto",
        "dgram",
        "diagnostics_channel",
        "dns",
        "dns/promises",
        "domain",
        "events",
        "fs",
        "fs/promises",
        "http",
        "http2",
        "https",
        "inspector",
        "inspector/promises",
        "module",
        "net",
        "os",
        "path",
        "path/posix",
        "path/win32",
        "perf_hooks",
        "process",
        "punycode",
        "querystring",
        "readline",
        "readline/promises",
        "repl",
        "stream",
        "stream/consumers",
        "stream/promises",
        "stream/web",
        "string_decoder",
        "sys",
        "timers",
        "timers/promises",
        "tls",
        "trace_events",
        "tty",
        "url",
        "util",
        "util/types",
        "v8",
        "vm",
        "wasi",
        "worker_threads",
        "zlib",
    ];
    assert(names@ =~= core_module_names());
    let mut i: usize = 0;
    while i < names.len()
        invariant
            i <= names.len(),
            names@ == core_module_names(),
            forall|j: int| 0 <= j < i ==> (#[trigger] core_module_names()[j])@ != name@,
        decreases names.len() - i,
    {
        if same_text(names[i], name) {
            return true;
        }
        i += 1;
    }
    false
}

} // verus!
