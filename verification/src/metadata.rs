//! What the metadata file of an addon declares.
//!
//! The file is read line by line. The one directive read from it is the line
//! `## DependsOn: <name>[<cmp><version>] <name>[<cmp><version>] ...`,
//! where `<cmp>` is a run of `<`, `=` and `>` and one space stands between
//! two tokens. Only the names are kept.

use vstd::prelude::*;
use vstd::string::*;

use crate::addons::Addon;
use crate::addons::AddonView;
use crate::text::chars_of;
use crate::text::first_of;
use crate::text::is_prefix;
use crate::text::join;
use crate::text::lemma_filter_keeps_all;
use crate::text::lemma_split_join;
use crate::text::lemma_first_of_is;
use crate::text::split;
use crate::text::split_on;
use crate::text::starts_with;

verus! {

/// The characters that begin a version constraint.
pub open spec fn comparators() -> Set<char> {
    set!['<', '=', '>']
}

/// The bare name of a dependency token: what stands before its first
/// comparator.
pub open spec fn dependency_name(token: Seq<char>) -> Seq<char> {
    token.subrange(0, first_of(token, comparators()))
}

/// The function that maps a token to its bare name.
pub open spec fn to_dependency_name() -> spec_fn(Seq<char>) -> Seq<char> {
    |token: Seq<char>| dependency_name(token)
}

/// The test that a name is not empty.
pub open spec fn is_named() -> spec_fn(Seq<char>) -> bool {
    |name: Seq<char>| name.len() > 0
}

/// The names declared by the text that follows `## DependsOn: `: the bare names
/// of its space-separated tokens, in order, without the empty ones.
pub open spec fn dependency_names(rest: Seq<char>) -> Seq<Seq<char>> {
    split(rest, set![' ']).map_values(to_dependency_name()).filter(is_named())
}

/// What a line begins with when it declares dependencies.
pub open spec fn depends_prefix() -> Seq<char> {
    "## DependsOn: "@
}

/// Whether a line declares dependencies.
pub open spec fn is_depends_line(line: Seq<char>) -> bool {
    is_prefix(depends_prefix(), line)
}

/// The dependencies that a metadata file declares: those of its first line that
/// declares any; later such lines are ignored.
pub open spec fn declared_dependencies(lines: Seq<Seq<char>>) -> Seq<Seq<char>>
    decreases lines.len(),
{
    if lines.len() == 0 {
        Seq::empty()
    } else if is_depends_line(lines[0]) {
        dependency_names(lines[0].subrange(depends_prefix().len() as int, lines[0].len() as int))
    } else {
        declared_dependencies(lines.drop_first())
    }
}

/// The tokens that declare the names, each with its version constraint.
pub open spec fn tokens_of(names: Seq<Seq<char>>, constraints: Seq<Seq<char>>) -> Seq<Seq<char>> {
    Seq::new(names.len(), |i: int| names[i] + constraints[i])
}

/// Whether a name can be declared: it is not empty and holds neither a space
/// nor a comparator.
pub open spec fn is_declarable(name: Seq<char>) -> bool {
    name.len() > 0 && forall|k: int|
        0 <= k < name.len() ==> #[trigger] name[k] != ' ' && !comparators().contains(name[k])
}

/// Whether a text can follow a name in a token: it is empty or begins with a
/// comparator, and holds no space.
pub open spec fn is_constraint(constraint: Seq<char>) -> bool {
    (constraint.len() == 0 || comparators().contains(constraint[0])) && forall|k: int|
        0 <= k < constraint.len() ==> #[trigger] constraint[k] != ' '
}

/// The bare name of a name followed by a constraint is the name.
pub proof fn lemma_dependency_name_of_token(name: Seq<char>, constraint: Seq<char>)
    requires
        is_declarable(name),
        is_constraint(constraint),
    ensures
        dependency_name(name + constraint) == name,
{
    let token = name + constraint;
    assert forall|k: int| 0 <= k < name.len() implies !comparators().contains(
        #[trigger] token[k],
    ) by {
        assert(token[k] == name[k]);
    }
    if constraint.len() > 0 {
        assert(token[name.len() as int] == constraint[0]);
    }
    lemma_first_of_is(token, comparators(), name.len() as int);
    assert(token.subrange(0, name.len() as int) =~= name);
}

/// What a declaration lists is what is read from it: for names with their
/// constraints, written as tokens with one space between them, the declared
/// names are those names, in order and with repetitions.
pub proof fn lemma_declared_names(names: Seq<Seq<char>>, constraints: Seq<Seq<char>>)
    requires
        names.len() == constraints.len(),
        names.len() > 0,
        forall|i: int| 0 <= i < names.len() ==> is_declarable(#[trigger] names[i]),
        forall|i: int| 0 <= i < constraints.len() ==> is_constraint(#[trigger] constraints[i]),
    ensures
        dependency_names(join(tokens_of(names, constraints), ' ')) == names,
{
    let tokens = tokens_of(names, constraints);
    assert forall|i: int, k: int|
        0 <= i < tokens.len() && 0 <= k < tokens[i].len() implies #[trigger] tokens[i][k]
        != ' ' by {
        assert(is_declarable(names[i]));
        assert(is_constraint(constraints[i]));
        if k < names[i].len() {
            assert(tokens[i][k] == names[i][k]);
        } else {
            assert(tokens[i][k] == constraints[i][k - names[i].len()]);
        }
    }
    lemma_split_join(tokens, ' ');
    let bare = tokens.map_values(to_dependency_name());
    assert forall|i: int| 0 <= i < names.len() implies bare[i] == names[i] by {
        lemma_dependency_name_of_token(names[i], constraints[i]);
    }
    assert(bare =~= names);
    assert forall|i: int| 0 <= i < names.len() implies is_named()(#[trigger] names[i]) by {
        assert(is_declarable(names[i]));
    }
    lemma_filter_keeps_all(names, is_named());
}

/// The first line that declares dependencies decides, whatever follows it.
pub proof fn lemma_first_declaration_wins(lines: Seq<Seq<char>>, i: int)
    requires
        0 <= i < lines.len(),
        is_depends_line(lines[i]),
        forall|k: int| 0 <= k < i ==> !is_depends_line(#[trigger] lines[k]),
    ensures
        declared_dependencies(lines) == dependency_names(
            lines[i].subrange(depends_prefix().len() as int, lines[i].len() as int),
        ),
    decreases i,
{
    if i > 0 {
        let rest = lines.drop_first();
        assert(!is_depends_line(lines[0]));
        assert(rest[i - 1] == lines[i]);
        assert forall|k: int| 0 <= k < i - 1 implies !is_depends_line(#[trigger] rest[k]) by {
            assert(rest[k] == lines[k + 1]);
        }
        lemma_first_declaration_wins(rest, i - 1);
    }
}

/// A file without a line that declares dependencies declares none.
pub proof fn lemma_no_declaration(lines: Seq<Seq<char>>)
    requires
        forall|k: int| 0 <= k < lines.len() ==> !is_depends_line(#[trigger] lines[k]),
    ensures
        declared_dependencies(lines) == Seq::<Seq<char>>::empty(),
    decreases lines.len(),
{
    if lines.len() > 0 {
        let rest = lines.drop_first();
        assert(!is_depends_line(lines[0]));
        assert forall|k: int| 0 <= k < rest.len() implies !is_depends_line(#[trigger] rest[k]) by {
            assert(rest[k] == lines[k + 1]);
        }
        lemma_no_declaration(rest);
    }
}

/// The bare name of a dependency token, or `None` where the token has none.
pub fn extract_dependency(dep: &str) -> (name: Option<String>)
    ensures
        match name {
            Some(n) => n@ == dependency_name(dep@) && n@.len() > 0,
            None => dependency_name(dep@).len() == 0,
        },
{
    let chars = chars_of(dep);
    let mut i: usize = 0;
    while i < chars.len() && !(chars[i] == '<' || chars[i] == '=' || chars[i] == '>')
        invariant
            i <= chars.len(),
            forall|k: int| 0 <= k < i ==> !comparators().contains(#[trigger] chars@[k]),
        decreases chars.len() - i,
    {
        i = i + 1;
    }
    proof {
        lemma_first_of_is(dep@, comparators(), i as int);
    }
    if i == 0 {
        None
    } else {
        Some(dep.substring_char(0, i).to_owned())
    }
}

/// The names declared by the text that follows `## DependsOn: `.
pub fn parse_dependencies(rest: &str) -> (names: Vec<String>)
    ensures
        names.deep_view() == dependency_names(rest@),
{
    let tokens = split_on(rest, ' ');
    let mut names: Vec<String> = Vec::new();
    let mut i: usize = 0;
    assert(tokens.deep_view().take(0) == Seq::<Seq<char>>::empty());
    assert(names.deep_view() == Seq::<Seq<char>>::empty());
    proof {
        reveal(Seq::filter);
    }
    while i < tokens.len()
        invariant
            i <= tokens.len(),
            names.deep_view() == tokens.deep_view().take(i as int).map_values(
                to_dependency_name(),
            ).filter(is_named()),
        decreases tokens.len() - i,
    {
        let ghost before = names.deep_view();
        let ghost seen = tokens.deep_view().take(i as int);
        let ghost token = tokens.deep_view()[i as int];
        proof {
            assert(tokens.deep_view().take(i + 1) == seen.push(token));
            seen.lemma_push_map_commute(to_dependency_name(), token);
            seen.map_values(to_dependency_name()).lemma_filter_push(
                dependency_name(token),
                is_named(),
            );
        }
        match extract_dependency(tokens[i].as_str()) {
            Some(name) => {
                names.push(name);
                assert(names.deep_view() == before.push(dependency_name(token)));
            },
            None => {},
        }
        i = i + 1;
    }
    assert(tokens.deep_view().take(tokens.len() as int) == tokens.deep_view());
    names
}

/// The dependencies that the lines of a metadata file declare.
pub fn read_dependencies(lines: &Vec<String>) -> (names: Vec<String>)
    ensures
        names.deep_view() == declared_dependencies(lines.deep_view()),
{
    let mut i: usize = 0;
    assert(lines.deep_view().skip(0) == lines.deep_view());
    while i < lines.len()
        invariant
            i <= lines.len(),
            declared_dependencies(lines.deep_view()) == declared_dependencies(
                lines.deep_view().skip(i as int),
            ),
        decreases lines.len() - i,
    {
        let line = lines[i].as_str();
        let ghost tail = lines.deep_view().skip(i as int);
        assert(tail[0] == line@);
        if starts_with(line, "## DependsOn: ") {
            proof {
                reveal_strlit("## DependsOn: ");
            }
            let rest = line.substring_char(14, line.unicode_len());
            return parse_dependencies(rest);
        }
        assert(tail.drop_first() == lines.deep_view().skip(i + 1));
        i = i + 1;
    }
    assert(lines.deep_view().skip(lines.len() as int).len() == 0);
    Vec::new()
}

/// The addon that a directory named `name` holds, given the lines of its
/// metadata file.
pub fn read_addon(name: &str, lines: &Vec<String>) -> (addon: Addon)
    ensures
        addon@ == (AddonView {
            name: name@,
            depends_on: declared_dependencies(lines.deep_view()),
        }),
{
    Addon { name: name.to_owned(), depends_on: read_dependencies(lines) }
}

} // verus!
