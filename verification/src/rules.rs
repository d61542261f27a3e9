//! The ignore rule set: glob lines compiled by the `ignore` crate into one
//! matcher, used to leave paths out of the walk and names out of the reports.

use ignore::overrides::{Override, OverrideBuilder};
use vstd::prelude::*;
use vstd::string::StringExecFns;

verus! {

/// `ignore::overrides::Override`, a compiled set of override globs.
#[verifier::external_type_specification]
#[verifier::external_body]
pub struct ExOverride(Override);

/// `ignore::overrides::OverrideBuilder`, the lines collected so far.
#[verifier::external_type_specification]
#[verifier::external_body]
pub struct ExOverrideBuilder(OverrideBuilder);

/// `ignore::Error`, the failure of adding a line or compiling the set.
#[verifier::external_type_specification]
#[verifier::external_body]
pub struct ExIgnoreError(ignore::Error);

/// What `OverrideBuilder::add` does with a line.
pub enum LineOutcome {
    /// The line is no well-formed glob: the call fails.
    Refused,
    /// The line is a comment or blank: the call succeeds and keeps nothing.
    Skipped,
    /// The line is a glob: the call succeeds and keeps it under this text,
    /// which is the line without the white space that `add` cuts from its
    /// end.
    Stored(Seq<char>),
}

/// The root that `OverrideBuilder::new` keeps for the directory it is given:
/// the directory without a leading `./`.
pub uninterp spec fn stored_root(directory: Seq<char>) -> Seq<char>;

/// What `OverrideBuilder::add` does with `line`.
pub uninterp spec fn line_outcome(line: Seq<char>) -> LineOutcome;

/// The root that a builder keeps.
pub uninterp spec fn builder_root(builder: OverrideBuilder) -> Seq<char>;

/// The texts of the globs that a builder keeps, in the order in which they
/// were added.
pub uninterp spec fn builder_lines(builder: OverrideBuilder) -> Seq<Seq<char>>;

/// The root that a compiled rule set keeps.
pub uninterp spec fn rules_root(rules: Override) -> Seq<char>;

/// The texts of the globs that a compiled rule set keeps, in order.
pub uninterp spec fn rules_lines(rules: Override) -> Seq<Seq<char>>;

/// Whether `OverrideBuilder::build` can compile the globs kept under
/// `lines` into one matcher.
pub uninterp spec fn lines_compile(lines: Seq<Seq<char>>) -> bool;

/// Whether the rule set with the root `root` and the globs kept under
/// `lines` decides that the file path `name` is ignored (`Override::matched`
/// gives `Match::Ignore`).
pub uninterp spec fn lines_ignore(root: Seq<char>, lines: Seq<Seq<char>>, name: Seq<char>) -> bool;

/// Whether `OverrideBuilder::add` accepts `line`.
pub open spec fn line_is_glob(line: Seq<char>) -> bool {
    !(line_outcome(line) is Refused)
}

/// The globs that a builder keeps after `line` was added to one that kept
/// `lines`.
pub open spec fn lines_after(lines: Seq<Seq<char>>, line: Seq<char>) -> Seq<Seq<char>> {
    match line_outcome(line) {
        LineOutcome::Stored(text) => lines.push(text),
        LineOutcome::Skipped => lines,
        LineOutcome::Refused => lines,
    }
}

/// Calls `OverrideBuilder::new`. The builder keeps the root for
/// `directory` and no glob yet.
#[verifier::external_body]
fn builder_new(directory: &str) -> (builder: OverrideBuilder)
    ensures
        builder_root(builder) == stored_root(directory@),
        builder_lines(builder) == Seq::<Seq<char>>::empty(),
{
    OverrideBuilder::new(directory)
}

/// Calls `OverrideBuilder::add`. What happens to the line depends on the
/// line alone, since the builder parses it with fixed settings: a line
/// that is no glob is refused and leaves the builder as it was, a comment
/// or a blank line is accepted and kept nowhere, and a glob is accepted and
/// kept, after the others, without its trailing white space. The root
/// stays.
#[verifier::external_body]
fn builder_add(builder: &mut OverrideBuilder, line: &str) -> (added: Result<(), ignore::Error>)
    ensures
        added is Err <==> line_outcome(line@) is Refused,
        builder_root(*final(builder)) == builder_root(*old(builder)),
        builder_lines(*final(builder)) == lines_after(builder_lines(*old(builder)), line@),
{
    builder.add(line).map(|_| ())
}

/// Calls `OverrideBuilder::build`. Whether the globs can be compiled into
/// one matcher depends on the globs alone, and no glob at all can always
/// be. On success the rule set keeps the builder's root and globs.
#[verifier::external_body]
fn builder_build(builder: &OverrideBuilder) -> (built: Result<Override, ignore::Error>)
    ensures
        built is Ok <==> lines_compile(builder_lines(*builder)),
        builder_lines(*builder).len() == 0 ==> built is Ok,
        built matches Ok(rules) ==> rules_root(rules) == builder_root(*builder) && rules_lines(
            rules,
        ) == builder_lines(*builder),
{
    builder.build()
}

/// Calls `Override::matched` for `name` as the path of a file, and
/// `Match::is_ignore` on the answer. The answer depends on the root and the
/// globs of the rule set and on the path, and on nothing else; a rule set
/// without globs ignores nothing.
#[verifier::external_body]
pub(crate) fn rules_matched(rules: &Override, name: &str) -> (ignored: bool)
    ensures
        ignored == lines_ignore(rules_root(*rules), rules_lines(*rules), name@),
        rules_lines(*rules).len() == 0 ==> !ignored,
{
    rules.matched(name, false).is_ignore()
}

/// Why a check could not be set up.
#[derive(Debug)]
pub enum CheckError {
    /// The manifest of the project could not be read from `directory`.
    ManifestUnreadable {
        /// The directory of the project.
        directory: String,
    },
    /// An ignore pattern is no well-formed glob.
    MalformedPattern {
        /// The pattern, as the configuration has it.
        pattern: String,
    },
    /// The ignore patterns are well formed but could not be compiled into
    /// one rule set.
    RulesNotBuilt,
}

/// The line that makes the rule set ignore what `pattern` matches.
pub open spec fn ignore_line(pattern: Seq<char>) -> Seq<char> {
    "!"@ + pattern
}

/// The globs that the rule set for a list of ignore patterns keeps: for
/// each pattern, in order, what `OverrideBuilder::add` keeps of its line.
pub open spec fn ignore_lines(patterns: Seq<String>) -> Seq<Seq<char>>
    decreases patterns.len(),
{
    if patterns.len() == 0 {
        Seq::empty()
    } else {
        lines_after(ignore_lines(patterns.drop_last()), ignore_line(patterns.last()@))
    }
}

/// The index of the first of `patterns` at or after `from` that is no
/// well-formed glob, or the number of patterns where all are.
pub open spec fn first_malformed(patterns: Seq<String>, from: int) -> int
    decreases patterns.len() - from,
{
    if from < 0 || from >= patterns.len() {
        patterns.len() as int
    } else if !line_is_glob(ignore_line(patterns[from]@)) {
        from
    } else {
        first_malformed(patterns, from + 1)
    }
}

/// Whether the globs kept under `lines` can be compiled into one matcher,
/// as no glob at all always can.
pub open spec fn lines_build(lines: Seq<Seq<char>>) -> bool {
    lines.len() == 0 || lines_compile(lines)
}

/// Whether the rule set for `patterns` can be compiled: each pattern is a
/// well-formed glob and the globs can be compiled together.
pub open spec fn patterns_compile(patterns: Seq<String>) -> bool {
    first_malformed(patterns, 0) == patterns.len() && lines_build(ignore_lines(patterns))
}

/// Whether the rule set compiled for `directory` from `patterns` ignores
/// `name`. A rule set without globs ignores nothing.
pub open spec fn ignores(directory: Seq<char>, patterns: Seq<String>, name: Seq<char>) -> bool {
    ignore_lines(patterns).len() > 0 && lines_ignore(
        stored_root(directory),
        ignore_lines(patterns),
        name,
    )
}

/// Whether `rules` is the rule set for `directory` and `patterns`.
pub open spec fn rules_for(rules: Override, directory: Seq<char>, patterns: Seq<String>) -> bool {
    rules_root(rules) == stored_root(directory) && rules_lines(rules) == ignore_lines(patterns)
}

/// Compiles the ignore patterns of a project into one rule set.
///
/// Fails on the first pattern that is no well-formed glob, naming it, and
/// where the set as a whole cannot be compiled.
pub fn compile_rules(directory: &str, patterns: &Vec<String>) -> (compiled: Result<
    Override,
    CheckError,
>)
    ensures
        match compiled {
            Ok(rules) => patterns_compile(patterns@) && rules_for(rules, directory@, patterns@),
            Err(CheckError::MalformedPattern { pattern }) => first_malformed(patterns@, 0)
                < patterns@.len() && pattern@ == patterns@[first_malformed(patterns@, 0)]@,
            Err(CheckError::RulesNotBuilt) => first_malformed(patterns@, 0) == patterns@.len()
                && !lines_build(ignore_lines(patterns@)),
            Err(CheckError::ManifestUnreadable { .. }) => false,
        },
{
    let mut builder = builder_new(directory);
    let mut i: usize = 0;
    assert(builder_lines(builder) =~= ignore_lines(patterns@.take(0)));
    while i < patterns.len()
        invariant
            i <= patterns@.len(),
            builder_root(builder) == stored_root(directory@),
            builder_lines(builder) == ignore_lines(patterns@.take(i as int)),
            first_malformed(patterns@, 0) == first_malformed(patterns@, i as int),
        decreases patterns.len() - i,
    {
        let line = String::from_str("!").concat(patterns[i].as_str());
        match builder_add(&mut builder, line.as_str()) {
            Ok(_) => {},
            Err(_) => {
                return Err(CheckError::MalformedPattern { pattern: patterns[i].clone() });
            },
        }
        proof {
            assert(patterns@.take(i + 1).drop_last() =~= patterns@.take(i as int));
            assert(patterns@.take(i + 1).last() == patterns@[i as int]);
        }
        i += 1;
    }
    proof {
        assert(patterns@.take(i as int) =~= patterns@);
    }
    match builder_build(&builder) {
        Ok(rules) => Ok(rules),
        Err(_) => Err(CheckError::RulesNotBuilt),
    }
}

} // verus!
